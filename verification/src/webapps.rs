//! Web applications (PWAs) from the forge catalog: their ids, desktop and
//! icon files, the packages they are listed as, and the catalog language.

use vstd::prelude::*;
use crate::package::{Package, Provider};
use crate::text::{
    has_prefix, has_suffix, path_join, path_join_exec, strip_prefix, strings_view, opt_view,
    chars_of, string_of, push_str, str_eq, str_starts_with, str_ends_with,
};
use crate::deeplink::{drop_prefix, drop_suffix};

verus! {

/// A web application as the forge catalog describes it.
#[derive(Clone, Debug)]
pub struct ForgePwa {
    pub appid: String,
    pub name: String,
    pub summary: String,
    pub description: String,
    pub icon_url: Option<String>,
    pub screenshots: Vec<String>,
    pub url: String,
    pub homepage_url: Option<String>,
    pub developer_name: Option<String>,
    pub content_rating: Option<String>,
    pub verified: bool,
    pub color: String,
    pub css: String,
    pub js: String,
    pub useragent: String,
    pub widevine: bool,
    pub tray: bool,
    pub url_filter: String,
}

/// Where web application launchers and icons are written.
pub struct PwaProvider {
    pub desktop_dir: String,
    pub hicolor_dir: String,
}

pub fn copy_strings(v: &Vec<String>) -> (r: Vec<String>)
    ensures
        strings_view(r@) == strings_view(v@),
{
    let mut r: Vec<String> = Vec::new();
    let mut i: usize = 0;
    while i < v.len()
        invariant
            0 <= i <= v@.len(),
            strings_view(r@) == strings_view(v@).subrange(0, i as int),
        decreases v@.len() - i,
    {
        let s = v[i].clone();
        proof {
            crate::fields::lemma_strings_view_push(r@, s);
        }
        r.push(s);
        i += 1;
        assert(strings_view(r@) =~= strings_view(v@).subrange(0, i as int));
    }
    assert(strings_view(v@).subrange(0, i as int) =~= strings_view(v@));
    r
}

pub fn copy_opt(o: &Option<String>) -> (r: Option<String>)
    ensures
        opt_view(r) == opt_view(*o),
{
    match o {
        Some(s) => Some(s.clone()),
        None => None,
    }
}

/// `p` is the package listing the catalog web application `pwa`.
pub open spec fn is_pwa_package(p: Package, pwa: ForgePwa, installed: bool) -> bool {
    &&& p.id@ == "pwa:"@ + pwa.appid@
    &&& p.name@ == pwa.name@
    &&& p.version@.len() == 0
    &&& p.description@ == pwa.summary@
    &&& p.provider == Provider::Pwa
    &&& p.installed == installed
    &&& opt_view(p.icon_url) == opt_view(pwa.icon_url)
    &&& p.remote is None
    &&& strings_view(p.screenshots@) == strings_view(pwa.screenshots@)
    &&& opt_view(p.developer_name) == opt_view(pwa.developer_name)
    &&& opt_view(p.homepage_url) == opt_view(pwa.homepage_url)
    &&& opt_view(p.content_rating) == opt_view(pwa.content_rating)
    &&& !p.is_runtime
    &&& p.categories@.len() == 0
}

/// `p` is the bare package of an installed web application the catalog
/// does not list.
pub open spec fn is_bare_pwa_package(p: Package, appid: Seq<char>) -> bool {
    &&& p.id@ == "pwa:"@ + appid
    &&& p.name@ == appid
    &&& p.version@.len() == 0
    &&& p.description@.len() == 0
    &&& p.provider == Provider::Pwa
    &&& p.installed
    &&& p.icon_url is None
    &&& p.remote is None
    &&& p.screenshots@.len() == 0
    &&& p.developer_name is None
    &&& p.homepage_url is None
    &&& p.content_rating is None
    &&& !p.is_runtime
    &&& p.categories@.len() == 0
}

/// The icon theme size directory for an icon file type.
pub open spec fn spec_icon_size_dir(ext: Seq<char>) -> Seq<char> {
    if ext == "svg"@ || ext == "svgz"@ {
        "scalable"@
    } else {
        "256x256"@
    }
}

impl PwaProvider {
    /// The provider for the user whose home is `home`.
    pub fn new(home: &str) -> (r: Self)
        ensures
            r.desktop_dir@ == path_join(home@, ".local/share/applications"@),
            r.hicolor_dir@ == path_join(home@, ".local/share/icons/hicolor"@),
    {
        let h = chars_of(home);
        let d = path_join_exec(&h, &chars_of(".local/share/applications"));
        let i = path_join_exec(&h, &chars_of(".local/share/icons/hicolor"));
        PwaProvider { desktop_dir: string_of(&d), hicolor_dir: string_of(&i) }
    }

    /// The web application id of a package id (`pwa:` dropped if present).
    pub fn strip_prefix(id: &str) -> (r: String)
        ensures
            r@ == match strip_prefix(id@, "pwa:"@) {
                Some(a) => a,
                None => id@,
            },
    {
        match drop_prefix(&chars_of(id), "pwa:") {
            Some(a) => string_of(&a),
            None => id.to_string(),
        }
    }

    /// The launcher of a web application.
    pub fn desktop_path(&self, appid: &str) -> (r: String)
        ensures
            r@ == path_join(self.desktop_dir@, "arc-pwa-"@ + appid@ + ".desktop"@),
    {
        let mut f: Vec<char> = Vec::new();
        push_str(&mut f, "arc-pwa-");
        push_str(&mut f, appid);
        push_str(&mut f, ".desktop");
        let p = path_join_exec(&chars_of(self.desktop_dir.as_str()), &f);
        string_of(&p)
    }

    /// The themed icon file of a web application.
    pub fn icon_theme_path(&self, appid: &str, ext: &str) -> (r: String)
        ensures
            r@ == path_join(
                path_join(path_join(self.hicolor_dir@, spec_icon_size_dir(ext@)), "apps"@),
                "arc-pwa-"@ + appid@ + "."@ + ext@,
            ),
    {
        let size_dir = if str_eq(ext, "svg") || str_eq(ext, "svgz") {
            "scalable"
        } else {
            "256x256"
        };
        proof {
            reveal_strlit("scalable");
            reveal_strlit("256x256");
        }
        let a = path_join_exec(&chars_of(self.hicolor_dir.as_str()), &chars_of(size_dir));
        let b = path_join_exec(&a, &chars_of("apps"));
        let mut f: Vec<char> = Vec::new();
        push_str(&mut f, "arc-pwa-");
        push_str(&mut f, appid);
        push_str(&mut f, ".");
        push_str(&mut f, ext);
        string_of(&path_join_exec(&b, &f))
    }

    /// The package a catalog web application is listed as.
    pub fn to_package(pwa: &ForgePwa, installed: bool) -> (r: Package)
        ensures
            is_pwa_package(r, *pwa, installed),
    {
        let mut id: Vec<char> = Vec::new();
        push_str(&mut id, "pwa:");
        push_str(&mut id, pwa.appid.as_str());
        Package {
            id: string_of(&id),
            name: pwa.name.clone(),
            version: String::new(),
            description: pwa.summary.clone(),
            provider: Provider::Pwa,
            installed,
            icon_url: copy_opt(&pwa.icon_url),
            remote: None,
            screenshots: copy_strings(&pwa.screenshots),
            developer_name: copy_opt(&pwa.developer_name),
            homepage_url: copy_opt(&pwa.homepage_url),
            content_rating: copy_opt(&pwa.content_rating),
            is_runtime: false,
            categories: Vec::new(),
        }
    }
}

/// The web application id a launcher file name belongs to
/// (`arc-pwa-ID.desktop` with a non-empty id).
pub open spec fn spec_launcher_appid(file_name: Seq<char>) -> Option<Seq<char>> {
    if has_prefix(file_name, "arc-pwa-"@) && has_suffix(file_name, ".desktop"@) {
        match strip_prefix(file_name, "arc-pwa-"@) {
            Some(rest) => if has_suffix(rest, ".desktop"@) {
                let id = rest.subrange(0, rest.len() - 8);
                if id.len() > 0 {
                    Some(id)
                } else {
                    None
                }
            } else {
                None
            },
            None => None,
        }
    } else {
        None
    }
}

/// The web application id a launcher file name belongs to.
pub fn launcher_appid(file_name: &str) -> (r: Option<String>)
    ensures
        opt_view(r) == spec_launcher_appid(file_name@),
{
    if !(str_starts_with(file_name, "arc-pwa-") && str_ends_with(file_name, ".desktop")) {
        return None;
    }
    let rest = match drop_prefix(&chars_of(file_name), "arc-pwa-") {
        Some(r) => r,
        None => return None,
    };
    proof {
        reveal_strlit(".desktop");
    }
    let id = match drop_suffix(&rest, ".desktop") {
        Some(i) => i,
        None => return None,
    };
    if id.len() > 0 {
        Some(string_of(&id))
    } else {
        None
    }
}

/// The packages of the installed web applications: the catalog entry when
/// there is one, else a bare installed package named after its id.
pub open spec fn first_pwa(pwas: Seq<ForgePwa>, appid: Seq<char>) -> Option<int>
    decreases pwas.len(),
{
    if pwas.len() == 0 {
        None
    } else if pwas[0].appid@ == appid {
        Some(0)
    } else {
        match first_pwa(pwas.drop_first(), appid) {
            Some(i) => Some(i + 1),
            None => None,
        }
    }
}

/// The position of the catalog entry for a web application id.
pub fn find_pwa(pwas: &Vec<ForgePwa>, appid: &str) -> (r: Option<usize>)
    ensures
        match r {
            Some(i) => first_pwa(pwas@, appid@) == Some(i as int) && i < pwas@.len(),
            None => first_pwa(pwas@, appid@) is None,
        },
{
    let mut i: usize = 0;
    while i < pwas.len()
        invariant
            0 <= i <= pwas@.len(),
            forall|j: int| 0 <= j < i ==> pwas@[j].appid@ != appid@,
        decreases pwas@.len() - i,
    {
        if str_eq(pwas[i].appid.as_str(), appid) {
            proof {
                lemma_first_pwa(pwas@, appid@, i as int);
            }
            return Some(i);
        }
        i += 1;
    }
    proof {
        lemma_no_pwa(pwas@, appid@);
    }
    None
}

proof fn lemma_first_pwa(pwas: Seq<ForgePwa>, appid: Seq<char>, i: int)
    requires
        0 <= i < pwas.len(),
        pwas[i].appid@ == appid,
        forall|j: int| 0 <= j < i ==> pwas[j].appid@ != appid,
    ensures
        first_pwa(pwas, appid) == Some(i),
    decreases i,
{
    if i > 0 {
        lemma_first_pwa(pwas.drop_first(), appid, i - 1);
    }
}

proof fn lemma_no_pwa(pwas: Seq<ForgePwa>, appid: Seq<char>)
    requires
        forall|j: int| 0 <= j < pwas.len() ==> pwas[j].appid@ != appid,
    ensures
        first_pwa(pwas, appid) is None,
    decreases pwas.len(),
{
    if pwas.len() > 0 {
        lemma_no_pwa(pwas.drop_first(), appid);
    }
}

/// The language asked of the catalog: the first of the given environment
/// values (`LANGUAGE`, `LC_ALL`, `LC_MESSAGES`, `LANG`) whose part before
/// any `.`, `_` or `-` is a real language, else English.
pub open spec fn lang_part(v: Seq<char>) -> Seq<char>
    decreases v.len(),
{
    if v.len() == 0 {
        v
    } else if v[0] == '.' || v[0] == '_' || v[0] == '-' {
        Seq::empty()
    } else {
        seq![v[0]] + lang_part(v.drop_first())
    }
}

pub open spec fn spec_detect_lang(values: Seq<Option<Seq<char>>>) -> Seq<char>
    decreases values.len(),
{
    if values.len() == 0 {
        "en"@
    } else {
        match values[0] {
            Some(v) => {
                let l = lang_part(v);
                if l.len() > 0 && l != "C"@ && l != "POSIX"@ {
                    l
                } else {
                    spec_detect_lang(values.drop_first())
                }
            },
            None => spec_detect_lang(values.drop_first()),
        }
    }
}

fn lang_part_exec(v: &str) -> (r: Vec<char>)
    ensures
        r@ == lang_part(v@),
{
    let cs = chars_of(v);
    let mut r: Vec<char> = Vec::new();
    let mut i: usize = 0;
    assert(cs@.subrange(0, cs@.len() as int) =~= cs@);
    assert(r@ + lang_part(cs@) =~= lang_part(cs@));
    while i < cs.len()
        invariant
            0 <= i <= cs@.len(),
            cs@ == v@,
            lang_part(v@) == r@ + lang_part(cs@.subrange(i as int, cs@.len() as int)),
        decreases cs@.len() - i,
    {
        let ghost rest = cs@.subrange(i as int, cs@.len() as int);
        assert(rest.drop_first() =~= cs@.subrange(i + 1, cs@.len() as int));
        let c = cs[i];
        if c == '.' || c == '_' || c == '-' {
            assert(r@ + Seq::<char>::empty() =~= r@);
            return r;
        }
        r.push(c);
        i += 1;
        assert(r@.drop_last() + (seq![c] + lang_part(cs@.subrange(i as int, cs@.len() as int))) =~= r@
            + lang_part(cs@.subrange(i as int, cs@.len() as int)));
    }
    assert(cs@.subrange(i as int, cs@.len() as int) =~= Seq::<char>::empty());
    assert(r@ + Seq::<char>::empty() =~= r@);
    r
}

/// The language asked of the catalog.
pub fn detect_lang(values: &Vec<Option<String>>) -> (r: String)
    ensures
        r@ == spec_detect_lang(values@.map_values(|o: Option<String>| opt_view(o))),
{
    let ghost vs = values@.map_values(|o: Option<String>| opt_view(o));
    let mut i: usize = 0;
    assert(vs.subrange(0, vs.len() as int) =~= vs);
    while i < values.len()
        invariant
            0 <= i <= values@.len(),
            vs == values@.map_values(|o: Option<String>| opt_view(o)),
            spec_detect_lang(vs) == spec_detect_lang(vs.subrange(i as int, vs.len() as int)),
        decreases values@.len() - i,
    {
        let ghost rest = vs.subrange(i as int, vs.len() as int);
        assert(rest.drop_first() =~= vs.subrange(i + 1, vs.len() as int));
        assert(rest[0] == opt_view(values@[i as int]));
        if let Some(v) = &values[i] {
            let l = lang_part_exec(v.as_str());
            let ls = string_of(&l);
            if l.len() > 0 && !str_eq(ls.as_str(), "C") && !str_eq(ls.as_str(), "POSIX") {
                return ls;
            }
        }
        i += 1;
    }
    assert(vs.subrange(i as int, vs.len() as int) =~= Seq::<Option<Seq<char>>>::empty());
    proof {
        reveal_strlit("en");
    }
    String::from_str("en")
}

/// The packages of the installed web applications, in the order of their
/// launchers: the catalog entry when there is one, else a bare package.
pub fn installed_pwa_packages(appids: &Vec<String>, pwas: &Vec<ForgePwa>) -> (r: Vec<Package>)
    ensures
        r@.len() == appids@.len(),
        forall|k: int|
            0 <= k < appids@.len() ==> match first_pwa(pwas@, (#[trigger] appids@[k])@) {
                Some(i) => is_pwa_package(r@[k], pwas@[i], true),
                None => is_bare_pwa_package(r@[k], appids@[k]@),
            },
{
    let mut r: Vec<Package> = Vec::new();
    let mut k: usize = 0;
    while k < appids.len()
        invariant
            0 <= k <= appids@.len(),
            r@.len() == k,
            forall|j: int|
                0 <= j < k ==> match first_pwa(pwas@, (#[trigger] appids@[j])@) {
                    Some(i) => is_pwa_package(r@[j], pwas@[i], true),
                    None => is_bare_pwa_package(r@[j], appids@[j]@),
                },
        decreases appids@.len() - k,
    {
        let appid = appids[k].as_str();
        let p = match find_pwa(pwas, appid) {
            Some(i) => PwaProvider::to_package(&pwas[i], true),
            None => {
                let mut id: Vec<char> = Vec::new();
                push_str(&mut id, "pwa:");
                push_str(&mut id, appid);
                Package {
                    id: string_of(&id),
                    name: appid.to_string(),
                    version: String::new(),
                    description: String::new(),
                    provider: Provider::Pwa,
                    installed: true,
                    icon_url: None,
                    remote: None,
                    screenshots: Vec::new(),
                    developer_name: None,
                    homepage_url: None,
                    content_rating: None,
                    is_runtime: false,
                    categories: Vec::new(),
                }
            },
        };
        r.push(p);
        k += 1;
    }
    r
}


/// One option of a web app's launcher command: `--flag=value`, or a bare
/// `--flag`. The caller quotes the values for the desktop entry.
pub struct ExecOption {
    pub flag: String,
    pub value: Option<String>,
}

pub open spec fn option_view(o: ExecOption) -> (Seq<char>, Option<Seq<char>>) {
    (o.flag@, opt_view(o.value))
}

/// An option with a value, present only when the value is not empty.
pub open spec fn if_set(flag: Seq<char>, v: Seq<char>) -> Seq<(Seq<char>, Option<Seq<char>>)> {
    if v.len() > 0 {
        seq![(flag, Some(v))]
    } else {
        Seq::empty()
    }
}

/// A bare option, present only when it is switched on.
pub open spec fn if_on(flag: Seq<char>, on: bool) -> Seq<(Seq<char>, Option<Seq<char>>)> {
    if on {
        seq![(flag, None)]
    } else {
        Seq::empty()
    }
}

/// The options of a web app's launcher: its URL, name and id, then its
/// color (unless black), its icon (the one already downloaded, else the
/// catalog's), its style sheet, script and user agent, the Widevine and tray
/// switches, and its URL filter, each only when set.
pub open spec fn spec_exec_options(pwa: ForgePwa, local_icon: Option<Seq<char>>) -> Seq<
    (Seq<char>, Option<Seq<char>>),
> {
    seq![("url"@, Some(pwa.url@)), ("name"@, Some(pwa.name@)), ("appid"@, Some(pwa.appid@))]
        + (if pwa.color@.len() > 0 && pwa.color@ != "#000000"@ {
        seq![("color"@, Some(pwa.color@))]
    } else {
        Seq::empty()
    }) + (match local_icon {
        Some(u) => seq![("icon"@, Some(u))],
        None => match pwa.icon_url {
            Some(u) => seq![("icon"@, Some(u@))],
            None => Seq::empty(),
        },
    }) + if_set("css"@, pwa.css@) + if_set("js"@, pwa.js@) + if_set("useragent"@, pwa.useragent@)
        + if_on("widevine"@, pwa.widevine) + if_on("tray"@, pwa.tray) + if_set(
        "url-filter"@,
        pwa.url_filter@,
    )
}

fn push_option(out: &mut Vec<ExecOption>, flag: &str, value: Option<String>)
    ensures
        final(out)@.map_values(|o: ExecOption| option_view(o)) == old(out)@.map_values(
            |o: ExecOption| option_view(o),
        ).push((flag@, opt_view(value))),
{
    let ghost before = out@;
    out.push(ExecOption { flag: flag.to_string(), value });
    assert(out@.map_values(|o: ExecOption| option_view(o)) =~= before.map_values(
        |o: ExecOption| option_view(o),
    ).push((flag@, opt_view(value))));
}

/// The options of a web app's launcher command; `local_icon` is the
/// `file://` URI of its downloaded icon, if there is one.
pub fn exec_options(pwa: &ForgePwa, local_icon: Option<String>) -> (r: Vec<ExecOption>)
    ensures
        r@.map_values(|o: ExecOption| option_view(o)) == spec_exec_options(*pwa, opt_view(local_icon)),
{
    let mut out: Vec<ExecOption> = Vec::new();
    assert(out@.map_values(|o: ExecOption| option_view(o)) =~= Seq::<(Seq<char>, Option<Seq<char>>)>::empty());
    push_option(&mut out, "url", Some(pwa.url.clone()));
    push_option(&mut out, "name", Some(pwa.name.clone()));
    push_option(&mut out, "appid", Some(pwa.appid.clone()));
    let ghost p1 = seq![("url"@, Some(pwa.url@)), ("name"@, Some(pwa.name@)), ("appid"@, Some(pwa.appid@))];
    assert(out@.map_values(|o: ExecOption| option_view(o)) =~= p1);
    if chars_of(pwa.color.as_str()).len() > 0 && !str_eq(pwa.color.as_str(), "#000000") {
        push_option(&mut out, "color", Some(pwa.color.clone()));
    }
    let ghost p2 = p1 + (if pwa.color@.len() > 0 && pwa.color@ != "#000000"@ {
        seq![("color"@, Some(pwa.color@))]
    } else {
        Seq::<(Seq<char>, Option<Seq<char>>)>::empty()
    });
    assert(out@.map_values(|o: ExecOption| option_view(o)) =~= p2);
    match local_icon {
        Some(u) => push_option(&mut out, "icon", Some(u)),
        None => match &pwa.icon_url {
            Some(u) => push_option(&mut out, "icon", Some(u.clone())),
            None => {},
        },
    }
    let ghost p3 = p2 + (match opt_view(local_icon) {
        Some(u) => seq![("icon"@, Some(u))],
        None => match opt_view(pwa.icon_url) {
            Some(u) => seq![("icon"@, Some(u))],
            None => Seq::<(Seq<char>, Option<Seq<char>>)>::empty(),
        },
    });
    assert(out@.map_values(|o: ExecOption| option_view(o)) =~= p3);
    optional_value(&mut out, "css", &pwa.css);
    optional_value(&mut out, "js", &pwa.js);
    optional_value(&mut out, "useragent", &pwa.useragent);
    let ghost p6 = p3 + if_set("css"@, pwa.css@) + if_set("js"@, pwa.js@) + if_set("useragent"@, pwa.useragent@);
    assert(out@.map_values(|o: ExecOption| option_view(o)) =~= p6);
    optional_switch(&mut out, "widevine", pwa.widevine);
    optional_switch(&mut out, "tray", pwa.tray);
    optional_value(&mut out, "url-filter", &pwa.url_filter);
    assert(out@.map_values(|o: ExecOption| option_view(o)) =~= spec_exec_options(
        *pwa,
        opt_view(local_icon),
    ));
    out
}

fn optional_value(out: &mut Vec<ExecOption>, flag: &str, v: &String)
    ensures
        final(out)@.map_values(|o: ExecOption| option_view(o)) == old(out)@.map_values(
            |o: ExecOption| option_view(o),
        ) + if_set(flag@, v@),
{
    let ghost before = out@.map_values(|o: ExecOption| option_view(o));
    if chars_of(v.as_str()).len() > 0 {
        push_option(out, flag, Some(v.clone()));
    } else {
        assert(before + if_set(flag@, v@) =~= before);
    }
}

fn optional_switch(out: &mut Vec<ExecOption>, flag: &str, on: bool)
    ensures
        final(out)@.map_values(|o: ExecOption| option_view(o)) == old(out)@.map_values(
            |o: ExecOption| option_view(o),
        ) + if_on(flag@, on),
{
    let ghost before = out@.map_values(|o: ExecOption| option_view(o));
    if on {
        push_option(out, flag, None);
    } else {
        assert(before + if_on(flag@, on) =~= before);
    }
}

/// The downloaded icon files of a web app, in the order they are looked
/// for: PNG, SVG, WebP.
pub fn local_icon_candidates(provider: &PwaProvider, appid: &str) -> (r: Vec<String>)
    ensures
        strings_view(r@) == seq![
            path_join(path_join(path_join(provider.hicolor_dir@, "256x256"@), "apps"@), "arc-pwa-"@ + appid@ + "."@ + "png"@),
            path_join(path_join(path_join(provider.hicolor_dir@, "scalable"@), "apps"@), "arc-pwa-"@ + appid@ + "."@ + "svg"@),
            path_join(path_join(path_join(provider.hicolor_dir@, "256x256"@), "apps"@), "arc-pwa-"@ + appid@ + "."@ + "webp"@),
        ],
{
    proof {
        reveal_strlit("svg");
        reveal_strlit("png");
        reveal_strlit("webp");
        reveal_strlit("svgz");
    }
    let a = provider.icon_theme_path(appid, "png");
    let b = provider.icon_theme_path(appid, "svg");
    let c = provider.icon_theme_path(appid, "webp");
    assert("png"@[0] != "svg"@[0]);
    assert("webp"@[0] != "svg"@[0]);
    assert(spec_icon_size_dir("png"@) == "256x256"@);
    assert(spec_icon_size_dir("svg"@) == "scalable"@);
    assert(spec_icon_size_dir("webp"@) == "256x256"@);
    let mut out: Vec<String> = Vec::new();
    out.push(a);
    out.push(b);
    out.push(c);
    assert(strings_view(out@) =~= seq![a@, b@, c@]);
    out
}

/// A `file://` URI for a local path.
pub fn file_uri(path: &str) -> (r: String)
    ensures
        r@ == "file://"@ + path@,
{
    let mut v: Vec<char> = Vec::new();
    push_str(&mut v, "file://");
    push_str(&mut v, path);
    string_of(&v)
}

} // verus!
