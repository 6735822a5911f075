//! AppStream catalog helpers: locale candidates, pulling one component out of
//! a catalog, the snapshot key that tells a cached parse from a stale one, and
//! the entry fields derived from component data.

use vstd::prelude::*;
use vstd::utf8::{valid_utf8, decode_utf8, encode_utf8};
use crate::text::{
    find_seq, rfind_seq, before_char, trim, has_prefix, contains_seq, strip_prefix, opt_view,
    strings_view, chars_of, string_of, find, rfind, slice_to_vec, before_ch, trim_exec, push_str,
    push_all, seq_eq, str_eq, starts_with, lemma_find_from_bounds, lemma_rfind_below_bounds,
    find_from, rfind_below, find_char, find_ch,
};
use crate::deeplink::{drop_prefix};
use crate::package::{Package, Provider};

verus! {

/// `s` with every `-` turned into `_`.
pub open spec fn dashes_to_underscores(s: Seq<char>) -> Seq<char> {
    s.map_values(|c: char| if c == '-' { '_' } else { c })
}

/// The base locale of a language tag: before any `.` and `@`, trimmed.
pub open spec fn locale_base(lang: Seq<char>) -> Seq<char> {
    trim(before_char(before_char(dashes_to_underscores(lang), '.'), '@'))
}

/// AppStream locale candidates for a language tag: the tag itself and, when
/// it has a region, the bare language; none for an empty tag, `C`, `POSIX`
/// or English.
pub open spec fn spec_locale_candidates(lang: Seq<char>) -> Seq<Seq<char>> {
    let base = locale_base(lang);
    if base.len() == 0 || base == "C"@ || base == "POSIX"@ || has_prefix(base, "en"@) {
        seq![]
    } else if before_char(base, '_') != base {
        seq![base, before_char(base, '_')]
    } else {
        seq![base]
    }
}

/// Converts a BCP-47 / POSIX language tag into AppStream locale candidates
/// (`"de-DE"` or `"de_DE"` → `["de_DE", "de"]`).
pub fn parse_locale_candidates(lang: &str) -> (r: Vec<String>)
    ensures
        strings_view(r@) == spec_locale_candidates(lang@),
{
    let l = chars_of(lang);
    let mut norm: Vec<char> = Vec::new();
    let mut i: usize = 0;
    while i < l.len()
        invariant
            i <= l.len(),
            norm@ == dashes_to_underscores(l@.take(i as int)),
        decreases l.len() - i,
    {
        norm.push(if l[i] == '-' { '_' } else { l[i] });
        assert(dashes_to_underscores(l@.take(i + 1)) =~= norm@);
        i = i + 1;
    }
    assert(l@.take(l.len() as int) =~= l@);
    let base = trim_exec(&before_ch(&before_ch(&norm, '.'), '@'));
    let mut out: Vec<String> = Vec::new();
    if base.len() == 0 || seq_eq(&base, &chars_of("C")) || seq_eq(&base, &chars_of("POSIX"))
        || starts_with(&base, &chars_of("en")) {
        assert(strings_view(out@) =~= Seq::<Seq<char>>::empty());
        return out;
    }
    let lang_only = before_ch(&base, '_');
    out.push(string_of(&base));
    if !seq_eq(&lang_only, &base) {
        out.push(string_of(&lang_only));
        assert(strings_view(out@) =~= seq![base@, lang_only@]);
    } else {
        assert(strings_view(out@) =~= seq![base@]);
    }
    out
}

/// The locale candidates of an optional `lang` query parameter.
pub fn lang_param_locales(lang: &Option<String>) -> (r: Vec<String>)
    ensures
        strings_view(r@) == match lang {
            Some(l) => if l@.len() > 0 {
                spec_locale_candidates(l@)
            } else {
                seq![]
            },
            None => seq![],
        },
{
    match lang {
        Some(l) => if l.as_str().unicode_len() > 0 {
            parse_locale_candidates(l.as_str())
        } else {
            let v: Vec<String> = Vec::new();
            assert(strings_view(v@) =~= Seq::<Seq<char>>::empty());
            v
        },
        None => {
            let v: Vec<String> = Vec::new();
            assert(strings_view(v@) =~= Seq::<Seq<char>>::empty());
            v
        },
    }
}

/// How many popular apps the home page asks for when nothing is given.
pub fn default_popular() -> (r: u32)
    ensures
        r == 12,
{
    12
}

/// How many recent apps the home page asks for when nothing is given.
pub fn default_recent() -> (r: u32)
    ensures
        r == 24,
{
    24
}

/// Reads bytes as UTF-8 text with `std::str::from_utf8`, which accepts exactly
/// the valid UTF-8 byte strings and keeps their bytes.
#[verifier::external_body]
fn utf8_text(bytes: &[u8]) -> (r: Option<String>)
    ensures
        r is Some <==> valid_utf8(bytes@),
        r matches Some(s) ==> s@ == decode_utf8(bytes@),
{
    std::str::from_utf8(bytes).ok().map(|s| s.to_owned())
}

/// The opening of the catalog that wraps one extracted component.
pub open spec fn catalog_head() -> Seq<char> {
    "<?xml version=\"1.0\" encoding=\"UTF-8\"?><components version=\"0.8\">"@
}

/// The one `<component>` whose `<id>` is `id` (or `id.desktop`), wrapped in a
/// catalog of its own: from the last `<component` before the id to the first
/// `</component>` after it.
pub open spec fn spec_component_block(text: Seq<char>, id: Seq<char>) -> Option<Seq<char>> {
    let plain = "<id>"@ + id + "</id>"@;
    let desktop = "<id>"@ + id + ".desktop</id>"@;
    let pos = match find_seq(text, plain) {
        Some(p) => Some(p),
        None => find_seq(text, desktop),
    };
    match pos {
        None => None,
        Some(p) => if 0 <= p <= text.len() {
            match rfind_seq(text.take(p), "<component"@) {
                None => None,
                Some(start) => match find_seq(text.skip(p), "</component>"@) {
                    None => None,
                    Some(e) => {
                        let end = e + p + "</component>"@.len();
                        if 0 <= start <= end <= text.len() {
                            Some(catalog_head() + text.subrange(start, end) + "</components>"@)
                        } else {
                            None
                        }
                    },
                },
            }
        } else {
            None
        },
    }
}

/// Pulls the `<component>` block for `id` out of a catalog's bytes, wrapped as
/// a catalog of its own; nothing when the bytes are not UTF-8 or hold no such block.
pub fn extract_component_block(xml_bytes: &[u8], id: &str) -> (r: Option<Vec<u8>>)
    ensures
        match r {
            Some(b) => valid_utf8(xml_bytes@) && spec_component_block(decode_utf8(xml_bytes@), id@)
                == Some(decode_utf8(b@)) && b@ == encode_utf8(decode_utf8(b@)),
            None => !valid_utf8(xml_bytes@) || spec_component_block(decode_utf8(xml_bytes@), id@)
                is None,
        },
{
    let text = match utf8_text(xml_bytes) {
        Some(t) => t,
        None => return None,
    };
    let tv = chars_of(text.as_str());
    let mut plain: Vec<char> = Vec::new();
    push_str(&mut plain, "<id>");
    push_str(&mut plain, id);
    push_str(&mut plain, "</id>");
    let mut desktop: Vec<char> = Vec::new();
    push_str(&mut desktop, "<id>");
    push_str(&mut desktop, id);
    push_str(&mut desktop, ".desktop</id>");
    let pos = match find(&tv, &plain) {
        Some(p) => Some(p),
        None => find(&tv, &desktop),
    };
    let p = match pos {
        Some(p) => p,
        None => return None,
    };
    proof {
        lemma_find_from_bounds(tv@, plain@, 0);
        lemma_find_from_bounds(tv@, desktop@, 0);
    }
    let head = slice_to_vec(&tv, 0, p);
    assert(head@ =~= tv@.take(p as int));
    let open = chars_of("<component");
    let start = match rfind(&head, &open) {
        Some(s) => s,
        None => return None,
    };
    proof { lemma_rfind_below_bounds(head@, open@, head@.len() as int + 1); }
    let tail = slice_to_vec(&tv, p, tv.len());
    assert(tail@ =~= tv@.skip(p as int));
    let close = chars_of("</component>");
    let e = match find(&tail, &close) {
        Some(e) => e,
        None => return None,
    };
    proof { lemma_find_from_bounds(tail@, close@, 0); }
    let end = e + p + close.len();
    let mut w: Vec<char> = Vec::new();
    push_str(&mut w, "<?xml version=\"1.0\" encoding=\"UTF-8\"?><components version=\"0.8\">");
    let body = slice_to_vec(&tv, start, end);
    push_all(&mut w, &body);
    push_str(&mut w, "</components>");
    let s = string_of(&w);
    let bytes = s.as_str().as_bytes();
    let mut out: Vec<u8> = Vec::new();
    let mut i: usize = 0;
    while i < bytes.len()
        invariant
            i <= bytes.len(),
            out@ == bytes@.take(i as int),
        decreases bytes.len() - i,
    {
        out.push(bytes[i]);
        assert(out@ =~= bytes@.take(i + 1));
        i = i + 1;
    }
    proof {
        assert(out@ =~= bytes@);
        vstd::utf8::encode_utf8_decode_utf8(s@);
    }
    Some(out)
}


/// An app as the AppStream catalog describes it.
#[derive(Debug)]
pub struct AppStreamEntry {
    pub id: String,
    pub name: String,
    pub summary: String,
    pub description: String,
    pub icon_url: Option<String>,
    pub remote: Option<String>,
    pub screenshots: Vec<String>,
    pub license: Option<String>,
    pub eula_url: Option<String>,
    pub homepage_url: Option<String>,
    pub content_rating: String,
    pub developer_name: Option<String>,
    pub verified: bool,
    pub categories: Vec<String>,
}

/// The license shown for a project license and the EULA link it carries: a
/// `LicenseRef-proprietary=http…` license is proprietary with the URL after
/// the `=` as its EULA; any other mention of `LicenseRef-proprietary` is
/// proprietary without one; anything else is shown as it is.
pub open spec fn spec_license(raw: Option<Seq<char>>) -> (Option<Seq<char>>, Option<Seq<char>>) {
    match raw {
        Some(l) => if has_prefix(l, "LicenseRef-proprietary=http"@) {
            (
                Some("Proprietary"@),
                Some(
                    match strip_prefix(l, "LicenseRef-proprietary="@) {
                        Some(u) => u,
                        None => seq![],
                    },
                ),
            )
        } else if contains_seq(l, "LicenseRef-proprietary"@) {
            (Some("Proprietary"@), None)
        } else {
            (Some(l), None)
        },
        None => (None, None),
    }
}

/// The license and EULA link shown for a project license.
pub fn classify_license(raw: Option<String>) -> (r: (Option<String>, Option<String>))
    ensures
        (opt_view(r.0), opt_view(r.1)) == spec_license(opt_view(raw)),
{
    match raw {
        Some(l) => {
            let lv = chars_of(l.as_str());
            if starts_with(&lv, &chars_of("LicenseRef-proprietary=http")) {
                let url = match drop_prefix(&lv, "LicenseRef-proprietary=") {
                    Some(u) => string_of(&u),
                    None => String::new(),
                };
                (Some("Proprietary".to_owned()), Some(url))
            } else if find(&lv, &chars_of("LicenseRef-proprietary")).is_some() {
                (Some("Proprietary".to_owned()), None)
            } else {
                (Some(l), None)
            }
        },
        None => (None, None),
    }
}

/// The severity of an OARS content rating value.
pub open spec fn spec_severity(v: Seq<char>) -> u8 {
    if v == "intense"@ {
        3
    } else if v == "moderate"@ {
        2
    } else if v == "mild"@ {
        1
    } else {
        0
    }
}

/// The severity of an OARS content rating value.
pub fn severity_of(value: &str) -> (r: u8)
    ensures
        r == spec_severity(value@),
{
    if str_eq(value, "intense") {
        3
    } else if str_eq(value, "moderate") {
        2
    } else if str_eq(value, "mild") {
        1
    } else {
        0
    }
}

/// The age label for the highest severity among a rating's attributes.
pub open spec fn rating_label(max: u8) -> Seq<char> {
    if max == 3 {
        "18+"@
    } else if max == 2 {
        "12+"@
    } else if max == 1 {
        "7+"@
    } else {
        "All ages"@
    }
}

/// The highest of a list of severities (0 for none).
pub open spec fn max_of(s: Seq<u8>) -> u8
    decreases s.len(),
{
    if s.len() == 0 {
        0
    } else if s.last() > max_of(s.drop_last()) {
        s.last()
    } else {
        max_of(s.drop_last())
    }
}

/// The age label of a content rating whose attributes have the given values.
pub fn content_rating_label(values: &Vec<String>) -> (r: String)
    ensures
        r@ == rating_label(max_of(strings_view(values@).map_values(|v: Seq<char>| spec_severity(v)))),
{
    let ghost sev = strings_view(values@).map_values(|v: Seq<char>| spec_severity(v));
    let mut m: u8 = 0;
    let mut i: usize = 0;
    assert(sev.take(0) =~= Seq::<u8>::empty());
    while i < values.len()
        invariant
            i <= values.len(),
            sev == strings_view(values@).map_values(|v: Seq<char>| spec_severity(v)),
            m == max_of(sev.take(i as int)),
        decreases values.len() - i,
    {
        let s = severity_of(values[i].as_str());
        assert(sev.take(i + 1).drop_last() =~= sev.take(i as int));
        assert(sev[i as int] == s);
        if s > m {
            m = s;
        }
        i = i + 1;
    }
    assert(sev.take(values.len() as int) =~= sev);
    if m == 3 {
        "18+".to_owned()
    } else if m == 2 {
        "12+".to_owned()
    } else if m == 1 {
        "7+".to_owned()
    } else {
        "All ages".to_owned()
    }
}

/// What `Path::extension` reports for a path, as text.
pub uninterp spec fn path_extension(p: Seq<char>) -> Option<Seq<char>>;

/// The extension of a path by `Path::extension`; the result is named by
/// `path_extension`. For a path that ends in a plain name, it is that name's
/// extension (see `name_extension`).
#[verifier::external_body]
pub(crate) fn extension_of(path: &str) -> (r: Option<String>)
    ensures
        opt_view(r) == path_extension(path@),
        crate::text::ends_in_name(path@) ==> opt_view(r) == crate::text::name_extension(
            crate::text::after_last_slash(path@),
        ),
{
    std::path::Path::new(path).extension().and_then(|e| e.to_str()).map(|e| e.to_owned())
}

/// The content type of an icon file: SVG for `.svg` and `.svgz`, PNG otherwise.
pub fn icon_content_type(path: &str) -> (r: &'static str)
    ensures
        r@ == match path_extension(path@) {
            Some(e) => if e == "svg"@ || e == "svgz"@ {
                "image/svg+xml"@
            } else {
                "image/png"@
            },
            None => "image/png"@,
        },
{
    match extension_of(path) {
        Some(e) => if str_eq(e.as_str(), "svg") || str_eq(e.as_str(), "svgz") {
            "image/svg+xml"
        } else {
            "image/png"
        },
        None => "image/png",
    }
}

/// The app id in a Flatpak ref (`app/ID/arch/branch`): its second `/`-separated field.
pub open spec fn ref_app_id(r: Seq<char>) -> Option<Seq<char>> {
    match find_char(r, '/') {
        Some(i) => if 0 <= i < r.len() {
            Some(before_char(r.skip(i + 1), '/'))
        } else {
            None
        },
        None => None,
    }
}

/// The first app id among Flatpak refs.
pub open spec fn first_ref_id(refs: Seq<Seq<char>>) -> Option<Seq<char>>
    decreases refs.len(),
{
    if refs.len() == 0 {
        None
    } else {
        match ref_app_id(refs[0]) {
            Some(id) => Some(id),
            None => first_ref_id(refs.skip(1)),
        }
    }
}

/// The canonical id of a component: the app id of its first Flatpak bundle
/// ref, else the component's own id (which may carry a `.desktop` suffix).
pub fn canonical_id(flatpak_refs: &Vec<String>, component_id: &str) -> (r: String)
    ensures
        r@ == match first_ref_id(strings_view(flatpak_refs@)) {
            Some(id) => id,
            None => component_id@,
        },
{
    let mut i: usize = 0;
    assert(strings_view(flatpak_refs@).skip(0) =~= strings_view(flatpak_refs@));
    while i < flatpak_refs.len()
        invariant
            i <= flatpak_refs.len(),
            first_ref_id(strings_view(flatpak_refs@)) == first_ref_id(
                strings_view(flatpak_refs@).skip(i as int),
            ),
        decreases flatpak_refs.len() - i,
    {
        let rv = chars_of(flatpak_refs[i].as_str());
        assert(strings_view(flatpak_refs@).skip(i as int)[0] == rv@);
        match find_ch(&rv, '/') {
            Some(k) => {
                proof { lemma_find_from_bounds(rv@, seq!['/'], 0); }
                assert(k < rv.len());
                let rest = slice_to_vec(&rv, k + 1, rv.len());
                assert(rest@ =~= rv@.skip(k + 1));
                return string_of(&before_ch(&rest, '/'));
            },
            None => {},
        }
        assert(strings_view(flatpak_refs@).skip(i as int).skip(1) =~= strings_view(flatpak_refs@).skip(
            i + 1,
        ));
        i = i + 1;
    }
    component_id.to_owned()
}

/// A Flatpak package made from a catalog entry; an entry without a name is
/// named by its id, and an empty content rating counts as none.
pub fn entry_to_flatpak_package(entry: AppStreamEntry, installed: bool) -> (r: Package)
    ensures
        r.id@ == entry.id@,
        r.name@ == if entry.name@.len() == 0 {
            entry.id@
        } else {
            entry.name@
        },
        r.version@.len() == 0,
        r.description@ == entry.summary@,
        r.provider == Provider::Flatpak,
        r.installed == installed,
        r.icon_url == entry.icon_url,
        r.remote == entry.remote,
        r.screenshots == entry.screenshots,
        r.developer_name == entry.developer_name,
        r.homepage_url == entry.homepage_url,
        opt_view(r.content_rating) == if entry.content_rating@.len() == 0 {
            None
        } else {
            Some(entry.content_rating@)
        },
        !r.is_runtime,
        r.categories == entry.categories,
{
    let name = if entry.name.as_str().unicode_len() == 0 {
        entry.id.clone()
    } else {
        entry.name
    };
    let content_rating = if entry.content_rating.as_str().unicode_len() == 0 {
        None
    } else {
        Some(entry.content_rating)
    };
    Package {
        id: entry.id,
        name,
        version: String::new(),
        description: entry.summary,
        provider: Provider::Flatpak,
        installed,
        icon_url: entry.icon_url,
        remote: entry.remote,
        screenshots: entry.screenshots,
        developer_name: entry.developer_name,
        homepage_url: entry.homepage_url,
        content_rating,
        is_runtime: false,
        categories: entry.categories,
    }
}

/// A stand-in catalog entry built from a package, for an app whose catalog
/// data is not loaded yet.
pub fn partial_entry_from_package(pkg: Package) -> (r: AppStreamEntry)
    ensures
        r.id == pkg.id,
        r.name == pkg.name,
        r.summary == pkg.description,
        r.description@.len() == 0,
        r.icon_url == pkg.icon_url,
        r.remote == pkg.remote,
        r.screenshots == pkg.screenshots,
        r.license is None,
        r.eula_url is None,
        r.homepage_url == pkg.homepage_url,
        r.content_rating@ == match pkg.content_rating {
            Some(c) => c@,
            None => Seq::<char>::empty(),
        },
        r.developer_name == pkg.developer_name,
        !r.verified,
        r.categories == pkg.categories,
{
    AppStreamEntry {
        id: pkg.id,
        name: pkg.name,
        summary: pkg.description,
        description: String::new(),
        icon_url: pkg.icon_url,
        remote: pkg.remote,
        screenshots: pkg.screenshots,
        license: None,
        eula_url: None,
        homepage_url: pkg.homepage_url,
        content_rating: match pkg.content_rating {
            Some(c) => c,
            None => String::new(),
        },
        developer_name: pkg.developer_name,
        verified: false,
        categories: pkg.categories,
    }
}

/// Whether a catalog entry shows as verified: everything from the
/// `blossomos` remote is, and so is what the catalog marks verified.
pub fn is_verified(remote: &Option<String>, marked: bool) -> (r: bool)
    ensures
        r == ((match remote { Some(s) => s@ == "blossomos"@, None => false }) || marked),
{
    let from_blossom = match remote {
        Some(s) => str_eq(s.as_str(), "blossomos"),
        None => false,
    };
    from_blossom || marked
}

} // verus!
