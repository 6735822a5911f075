//! Windows games and applications installed through Lutris: their package
//! ids, the packages catalog installers are listed as, and the search.

use vstd::prelude::*;
use crate::package::{Package, Provider};
use crate::text::{
    contains_seq, path_join, path_join_exec, strip_prefix, opt_view, chars_of, string_of,
    push_str, lowercase, unicode_lowercase, find, before_char, before_ch, str_eq,
};
use crate::deeplink::drop_prefix;

verus! {

/// Images a Lutris installer script names.
#[derive(Clone, Debug)]
pub struct ScriptMetadata {
    pub icon_url: String,
    pub banner_url: String,
    pub cover_url: String,
}

/// A Lutris installer as the catalog describes it.
#[derive(Clone, Debug)]
pub struct LutrisInstaller {
    pub slug: String,
    pub name: String,
    pub description: String,
    pub game_slug: String,
    pub runner: String,
    pub version: String,
    pub notes: String,
    pub metadata: Option<ScriptMetadata>,
}

/// Where installs made through Lutris are recorded.
pub struct LutrisProvider {
    pub installs_dir: String,
}

/// What `str::to_uppercase` turns a text into.
pub uninterp spec fn unicode_uppercase(s: Seq<char>) -> Seq<char>;

/// Upper-cases a text with `str::to_uppercase`; the result is named by
/// `unicode_uppercase`.
#[verifier::external_body]
fn uppercase(s: &str) -> (r: String)
    ensures
        r@ == unicode_uppercase(s@),
{
    s.to_uppercase()
}

impl LutrisProvider {
    /// The provider for the user whose home is `home`.
    pub fn new(home: &str) -> (r: Self)
        ensures
            r.installs_dir@ == path_join(home@, ".local/share/arc/lutris-installs"@),
    {
        let d = path_join_exec(&chars_of(home), &chars_of(".local/share/arc/lutris-installs"));
        LutrisProvider { installs_dir: string_of(&d) }
    }

    /// The package id of an installer.
    pub fn pkg_id(slug: &str) -> (r: String)
        ensures
            r@ == "lutris:"@ + slug@,
    {
        let mut v: Vec<char> = Vec::new();
        push_str(&mut v, "lutris:");
        push_str(&mut v, slug);
        string_of(&v)
    }

    /// The record of an install.
    pub fn info_path(&self, slug: &str) -> (r: String)
        ensures
            r@ == path_join(self.installs_dir@, slug@ + ".json"@),
    {
        let mut f: Vec<char> = Vec::new();
        push_str(&mut f, slug);
        push_str(&mut f, ".json");
        string_of(&path_join_exec(&chars_of(self.installs_dir.as_str()), &f))
    }
}

/// The installer slug of a package id, or the error for an id that is not a
/// Lutris one.
pub fn slug_of(package_id: &str) -> (r: Result<String, String>)
    ensures
        match strip_prefix(package_id@, "lutris:"@) {
            Some(s) => r matches Ok(x) && x@ == s,
            None => r matches Err(m) && m@ == "Invalid lutris package id: "@ + package_id@,
        },
{
    match drop_prefix(&chars_of(package_id), "lutris:") {
        Some(s) => Ok(string_of(&s)),
        None => {
            let mut m: Vec<char> = Vec::new();
            push_str(&mut m, "Invalid lutris package id: ");
            push_str(&mut m, package_id);
            Err(string_of(&m))
        },
    }
}

/// The image shown for an installer: its icon, else its cover, else its
/// banner (the first that is set).
pub open spec fn spec_installer_icon(inst: LutrisInstaller) -> Option<Seq<char>> {
    match inst.metadata {
        Some(m) => if m.icon_url@.len() > 0 {
            Some(m.icon_url@)
        } else if m.cover_url@.len() > 0 {
            Some(m.cover_url@)
        } else if m.banner_url@.len() > 0 {
            Some(m.banner_url@)
        } else {
            None
        },
        None => None,
    }
}

pub fn installer_icon(inst: &LutrisInstaller) -> (r: Option<String>)
    ensures
        opt_view(r) == spec_installer_icon(*inst),
{
    match &inst.metadata {
        Some(m) => if chars_of(m.icon_url.as_str()).len() > 0 {
            Some(m.icon_url.clone())
        } else if chars_of(m.cover_url.as_str()).len() > 0 {
            Some(m.cover_url.clone())
        } else if chars_of(m.banner_url.as_str()).len() > 0 {
            Some(m.banner_url.clone())
        } else {
            None
        },
        None => None,
    }
}

/// Hyphens become spaces.
pub open spec fn unhyphen(s: Seq<char>) -> Seq<char> {
    s.map_values(|c: char| if c == '-' { ' ' } else { c })
}

/// The name listed for an installer: its own, else its slug with hyphens as
/// spaces, upper-cased.
pub open spec fn spec_listed_name(slug: Seq<char>, inst: LutrisInstaller) -> Seq<char> {
    if inst.name@.len() > 0 {
        inst.name@
    } else {
        unicode_uppercase(unhyphen(slug))
    }
}

/// The description listed for an installer: its own, else the first line of
/// its notes, else a note on the runner.
pub open spec fn spec_listed_description(inst: LutrisInstaller) -> Seq<char> {
    if inst.description@.len() > 0 {
        inst.description@
    } else if inst.notes@.len() > 0 {
        before_char(inst.notes@, '\n')
    } else if inst.runner@.len() > 0 {
        "Windows application via Lutris ("@ + inst.runner@ + ")"@
    } else {
        "Windows application via Lutris"@
    }
}

/// `p` lists a Lutris installer with this name, description and state.
pub open spec fn is_lutris_package(
    p: Package,
    slug: Seq<char>,
    name: Seq<char>,
    description: Seq<char>,
    icon: Option<Seq<char>>,
    installed: bool,
) -> bool {
    &&& p.id@ == "lutris:"@ + slug
    &&& p.name@ == name
    &&& p.version@.len() == 0
    &&& p.description@ == description
    &&& p.provider == Provider::Lutris
    &&& p.installed == installed
    &&& opt_view(p.icon_url) == icon
    &&& p.remote is None
    &&& p.screenshots@.len() == 0
    &&& p.developer_name is None
    &&& p.homepage_url is None
    &&& p.content_rating is None
    &&& !p.is_runtime
    &&& p.categories@.len() == 0
}

fn lutris_package(slug: &str, name: String, description: String, icon: Option<String>, installed: bool) -> (r: Package)
    ensures
        is_lutris_package(r, slug@, name@, description@, opt_view(icon), installed),
{
    Package {
        id: LutrisProvider::pkg_id(slug),
        name,
        version: String::new(),
        description,
        provider: Provider::Lutris,
        installed,
        icon_url: icon,
        remote: None,
        screenshots: Vec::new(),
        developer_name: None,
        homepage_url: None,
        content_rating: None,
        is_runtime: false,
        categories: Vec::new(),
    }
}

/// The package a catalog installer is listed as.
pub fn installer_package(slug: &str, inst: &LutrisInstaller, installed: bool) -> (r: Package)
    ensures
        is_lutris_package(
            r,
            slug@,
            spec_listed_name(slug@, *inst),
            spec_listed_description(*inst),
            spec_installer_icon(*inst),
            installed,
        ),
{
    let name = if chars_of(inst.name.as_str()).len() > 0 {
        inst.name.clone()
    } else {
        let s = chars_of(slug);
        let mut u: Vec<char> = Vec::new();
        let mut i: usize = 0;
        while i < s.len()
            invariant
                0 <= i <= s@.len(),
                s@ == slug@,
                u@ == unhyphen(s@.subrange(0, i as int)),
            decreases s@.len() - i,
        {
            u.push(if s[i] == '-' {
                ' '
            } else {
                s[i]
            });
            i += 1;
            assert(u@ =~= unhyphen(s@.subrange(0, i as int)));
        }
        assert(s@.subrange(0, i as int) =~= slug@);
        let us = string_of(&u);
        uppercase(us.as_str())
    };
    let description = if chars_of(inst.description.as_str()).len() > 0 {
        inst.description.clone()
    } else if chars_of(inst.notes.as_str()).len() > 0 {
        string_of(&before_ch(&chars_of(inst.notes.as_str()), '\n'))
    } else if chars_of(inst.runner.as_str()).len() > 0 {
        let mut d: Vec<char> = Vec::new();
        push_str(&mut d, "Windows application via Lutris (");
        push_str(&mut d, inst.runner.as_str());
        push_str(&mut d, ")");
        string_of(&d)
    } else {
        proof {
            reveal_strlit("Windows application via Lutris");
        }
        String::from_str("Windows application via Lutris")
    };
    lutris_package(slug, name, description, installer_icon(inst), installed)
}

/// The package shown on an installed installer's detail page (its own name
/// and description, without fallbacks).
pub fn installer_info_package(slug: &str, inst: &LutrisInstaller, installed: bool) -> (r: Package)
    ensures
        is_lutris_package(r, slug@, inst.name@, inst.description@, spec_installer_icon(*inst), installed),
{
    lutris_package(slug, inst.name.clone(), inst.description.clone(), installer_icon(inst), installed)
}

/// Whether a package matches a lower-cased query by name or description,
/// ignoring case.
pub open spec fn matches_lutris_query(p: Package, q: Seq<char>) -> bool {
    contains_seq(unicode_lowercase(p.name@), q) || contains_seq(unicode_lowercase(p.description@), q)
}

/// The listed packages that match a query by name or description, ignoring
/// case, in order.
pub fn search_listed(all: Vec<Package>, query: &str) -> (r: Vec<Package>)
    ensures
        r@ == all@.filter(|p: Package| matches_lutris_query(p, unicode_lowercase(query@))),
{
    let ql = lowercase(query);
    let q = chars_of(ql.as_str());
    let mut rest = all;
    let mut out: Vec<Package> = Vec::new();
    let ghost orig = rest@;
    let ghost pred = |p: Package| matches_lutris_query(p, unicode_lowercase(query@));
    let ghost mut k: int = 0;
    assert(orig.take(0).filter(pred) =~= Seq::<Package>::empty());
    assert(orig.skip(0) =~= orig);
    while rest.len() > 0
        invariant
            0 <= k <= orig.len(),
            rest@ == orig.skip(k),
            q@ == unicode_lowercase(query@),
            pred == (|p: Package| matches_lutris_query(p, unicode_lowercase(query@))),
            out@ == orig.take(k).filter(pred),
        decreases rest.len(),
    {
        let p = rest.remove(0);
        assert(p == orig[k]);
        let nl = chars_of(lowercase(p.name.as_str()).as_str());
        let dl = chars_of(lowercase(p.description.as_str()).as_str());
        let hit = find(&nl, &q).is_some() || find(&dl, &q).is_some();
        proof {
            reveal(Seq::filter);
            assert(orig.take(k + 1).drop_last() =~= orig.take(k));
            assert(rest@ =~= orig.skip(k + 1));
        }
        if hit {
            out.push(p);
        }
        proof {
            k = k + 1;
        }
    }
    assert(orig.take(k) =~= orig);
    out
}

/// The name recorded for an install: the catalog name of the slug, else the
/// slug itself.
pub open spec fn spec_record_name(entries: Seq<(String, LutrisInstaller)>, slug: Seq<char>) -> Seq<char>
    decreases entries.len(),
{
    if entries.len() == 0 {
        slug
    } else if entries[0].0@ == slug {
        entries[0].1.name@
    } else {
        spec_record_name(entries.drop_first(), slug)
    }
}

/// The name recorded for an install of `slug`, from the catalog entries
/// (whitelisted slug and its installer).
pub fn record_name(entries: &Vec<(String, LutrisInstaller)>, slug: &str) -> (r: String)
    ensures
        r@ == spec_record_name(entries@, slug@),
{
    let mut i: usize = 0;
    assert(entries@.subrange(0, entries@.len() as int) =~= entries@);
    while i < entries.len()
        invariant
            0 <= i <= entries@.len(),
            spec_record_name(entries@, slug@) == spec_record_name(
                entries@.subrange(i as int, entries@.len() as int),
                slug@,
            ),
        decreases entries@.len() - i,
    {
        let ghost rest = entries@.subrange(i as int, entries@.len() as int);
        assert(rest.drop_first() =~= entries@.subrange(i + 1, entries@.len() as int));
        if str_eq(entries[i].0.as_str(), slug) {
            return entries[i].1.name.clone();
        }
        i += 1;
    }
    assert(entries@.subrange(i as int, entries@.len() as int) =~= Seq::<(String, LutrisInstaller)>::empty());
    slug.to_string()
}

/// The catalog entry of a slug: its position among the entries.
pub open spec fn spec_find_entry(entries: Seq<(String, LutrisInstaller)>, slug: Seq<char>) -> Option<int>
    decreases entries.len(),
{
    if entries.len() == 0 {
        None
    } else if entries[0].0@ == slug {
        Some(0)
    } else {
        match spec_find_entry(entries.drop_first(), slug) {
            Some(i) => Some(i + 1),
            None => None,
        }
    }
}

proof fn lemma_find_entry(entries: Seq<(String, LutrisInstaller)>, slug: Seq<char>, i: int)
    requires
        0 <= i <= entries.len(),
        forall|j: int| 0 <= j < i ==> entries[j].0@ != slug,
    ensures
        i < entries.len() && entries[i].0@ == slug ==> spec_find_entry(entries, slug) == Some(i),
        i == entries.len() ==> spec_find_entry(entries, slug) is None,
    decreases i,
{
    if i > 0 {
        lemma_find_entry(entries.drop_first(), slug, i - 1);
    }
}

/// The position of a slug's catalog entry.
pub fn find_entry(entries: &Vec<(String, LutrisInstaller)>, slug: &str) -> (r: Option<usize>)
    ensures
        match r {
            Some(i) => spec_find_entry(entries@, slug@) == Some(i as int) && i < entries@.len(),
            None => spec_find_entry(entries@, slug@) is None,
        },
{
    let mut i: usize = 0;
    while i < entries.len()
        invariant
            0 <= i <= entries@.len(),
            forall|j: int| 0 <= j < i ==> entries@[j].0@ != slug@,
        decreases entries@.len() - i,
    {
        if str_eq(entries[i].0.as_str(), slug) {
            proof {
                lemma_find_entry(entries@, slug@, i as int);
            }
            return Some(i);
        }
        i += 1;
    }
    proof {
        lemma_find_entry(entries@, slug@, i as int);
    }
    None
}

/// The slugs of a whitelist: its lines trimmed, without blank lines and
/// `#` comments.
pub open spec fn whitelist(ls: Seq<Seq<char>>) -> Seq<Seq<char>>
    decreases ls.len(),
{
    if ls.len() == 0 {
        Seq::empty()
    } else {
        let r = whitelist(ls.drop_last());
        let t = crate::text::trim(ls.last());
        if t.len() > 0 && t[0] != '#' {
            r.push(t)
        } else {
            r
        }
    }
}

/// The slugs a whitelist text lists.
pub fn whitelist_slugs(text: &str) -> (r: Vec<String>)
    ensures
        crate::text::strings_view(r@) == whitelist(crate::fields::lines(text@)),
{
    let ls = crate::fields::lines_of(&chars_of(text));
    let ghost lv = crate::fields::vecs_view(ls@);
    let mut out: Vec<String> = Vec::new();
    let mut i: usize = 0;
    assert(lv.take(0) =~= Seq::<Seq<char>>::empty());
    assert(crate::text::strings_view(out@) =~= Seq::<Seq<char>>::empty());
    while i < ls.len()
        invariant
            0 <= i <= ls@.len(),
            lv == crate::fields::vecs_view(ls@),
            lv == crate::fields::lines(text@),
            crate::text::strings_view(out@) == whitelist(lv.take(i as int)),
        decreases ls@.len() - i,
    {
        assert(lv.take(i + 1).drop_last() =~= lv.take(i as int));
        assert(lv.take(i + 1).last() == ls@[i as int]@);
        let t = crate::text::trim_exec(&ls[i]);
        if t.len() > 0 && t[0] != '#' {
            let ts = string_of(&t);
            proof {
                crate::fields::lemma_strings_view_push(out@, ts);
            }
            out.push(ts);
        }
        i += 1;
    }
    assert(lv.take(i as int) =~= lv);
    out
}

/// The packages the catalog entries are listed as, each marked installed
/// when its slug is among the installed ones.
pub fn catalog_packages(entries: &Vec<(String, LutrisInstaller)>, installed: &Vec<String>) -> (r: Vec<Package>)
    ensures
        r@.len() == entries@.len(),
        forall|k: int|
            0 <= k < r@.len() ==> is_lutris_package(
                #[trigger] r@[k],
                entries@[k].0@,
                spec_listed_name(entries@[k].0@, entries@[k].1),
                spec_listed_description(entries@[k].1),
                spec_installer_icon(entries@[k].1),
                crate::text::strings_view(installed@).contains(entries@[k].0@),
            ),
{
    let mut out: Vec<Package> = Vec::new();
    let mut i: usize = 0;
    while i < entries.len()
        invariant
            0 <= i <= entries@.len(),
            out@.len() == i,
            forall|k: int|
                0 <= k < i ==> is_lutris_package(
                    #[trigger] out@[k],
                    entries@[k].0@,
                    spec_listed_name(entries@[k].0@, entries@[k].1),
                    spec_listed_description(entries@[k].1),
                    spec_installer_icon(entries@[k].1),
                    crate::text::strings_view(installed@).contains(entries@[k].0@),
                ),
        decreases entries@.len() - i,
    {
        let slug = entries[i].0.as_str();
        let mut inst = false;
        let mut j: usize = 0;
        while j < installed.len()
            invariant
                0 <= j <= installed@.len(),
                inst == (exists|m: int| 0 <= m < j && #[trigger] installed@[m]@ == slug@),
            decreases installed@.len() - j,
        {
            if str_eq(installed[j].as_str(), slug) {
                inst = true;
            }
            j += 1;
        }
        assert(inst == crate::text::strings_view(installed@).contains(slug@)) by {
            if inst {
                let m = choose|m: int| 0 <= m < j && #[trigger] installed@[m]@ == slug@;
                assert(crate::text::strings_view(installed@)[m] == slug@);
            }
            if crate::text::strings_view(installed@).contains(slug@) {
                let m = choose|m: int|
                    0 <= m < crate::text::strings_view(installed@).len()
                        && crate::text::strings_view(installed@)[m] == slug@;
                assert(installed@[m]@ == slug@);
            }
        }
        let p = installer_package(slug, &entries[i].1, inst);
        out.push(p);
        i += 1;
    }
    out
}

/// The slugs recorded as installed: the stems of the `.json` records among
/// the files of the installs directory, in order.
pub open spec fn recorded_slugs(files: Seq<Seq<char>>) -> Seq<Seq<char>>
    decreases files.len(),
{
    if files.len() == 0 {
        Seq::empty()
    } else {
        let r = recorded_slugs(files.drop_last());
        let f = files.last();
        if crate::appstream::path_extension(f) == Some("json"@) {
            match crate::text::path_file_stem(f) {
                Some(s) => r.push(s),
                None => r,
            }
        } else {
            r
        }
    }
}

/// The slugs recorded as installed.
pub fn installed_slugs_of(files: &Vec<String>) -> (r: Vec<String>)
    ensures
        crate::text::strings_view(r@) == recorded_slugs(crate::text::strings_view(files@)),
{
    let ghost fs = crate::text::strings_view(files@);
    let mut out: Vec<String> = Vec::new();
    let mut i: usize = 0;
    assert(fs.take(0) =~= Seq::<Seq<char>>::empty());
    assert(crate::text::strings_view(out@) =~= Seq::<Seq<char>>::empty());
    while i < files.len()
        invariant
            0 <= i <= files@.len(),
            fs == crate::text::strings_view(files@),
            crate::text::strings_view(out@) == recorded_slugs(fs.take(i as int)),
        decreases files@.len() - i,
    {
        assert(fs.take(i + 1).drop_last() =~= fs.take(i as int));
        assert(fs.take(i + 1).last() == files@[i as int]@);
        let f = files[i].as_str();
        let is_json = match crate::appstream::extension_of(f) {
            Some(e) => str_eq(e.as_str(), "json"),
            None => false,
        };
        if is_json {
            if let Some(st) = crate::text::file_stem(f) {
                proof {
                    crate::fields::lemma_strings_view_push(out@, st);
                }
                out.push(st);
            }
        }
        i += 1;
    }
    assert(fs.take(i as int) =~= fs);
    out
}

} // verus!
