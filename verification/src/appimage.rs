//! AppImages kept in `~/.appimages`: the files written for each one, the
//! metadata read from its desktop entry, and the index file read back.

use vstd::prelude::*;
use crate::text::{
    path_join, path_join_exec, has_prefix, has_suffix, strip_suffix, strip_prefix, find_seq, trim,
    path_file_name, path_file_stem, unicode_lowercase, contains_seq, opt_view, chars_of,
    string_of, push_str, push_all, slice_to_vec, find, trim_exec, file_name, file_stem,
    lowercase, lemma_find_from_bounds, strings_view, occurs_at, after_last_slash, ends_in_name,
    lemma_after_last_slash_append,
};
use crate::fields::{lines, last_field, first_field, or_empty, lines_of, last_field_of,
    first_field_of, last_field_or_empty, vecs_view};
use crate::deeplink::{drop_suffix, drop_prefix};
use crate::package::{Package, Provider};

verus! {

/// Where AppImages live and where the files made for them go.
pub struct AppImageProvider {
    pub appimages_dir: String,
    pub desktop_dir: String,
    pub data_dir: String,
}

impl AppImageProvider {
    /// The directories under the home directory `home`.
    pub fn new(home: &str) -> (r: AppImageProvider)
        ensures
            r.appimages_dir@ == path_join(home@, ".appimages"@),
            r.desktop_dir@ == path_join(home@, ".local/share/applications"@),
            r.data_dir@ == path_join(home@, ".local/share/arc/appimages"@),
    {
        let h = chars_of(home);
        let a = path_join_exec(&h, &chars_of(".appimages"));
        let d = path_join_exec(&h, &chars_of(".local/share/applications"));
        let x = path_join_exec(&h, &chars_of(".local/share/arc/appimages"));
        AppImageProvider { appimages_dir: string_of(&a), desktop_dir: string_of(&d), data_dir: string_of(&x) }
    }

    /// The index file of an AppImage.
    pub fn info_file(&self, stem: &str) -> (r: String)
        ensures
            r@ == path_join(self.data_dir@, stem@ + ".info"@),
    {
        let mut part: Vec<char> = Vec::new();
        push_str(&mut part, stem);
        push_str(&mut part, ".info");
        string_of(&path_join_exec(&chars_of(self.data_dir.as_str()), &part))
    }

    /// The desktop file made for an AppImage.
    pub fn desktop_file(&self, stem: &str) -> (r: String)
        ensures
            r@ == path_join(self.desktop_dir@, "arc-appimage-"@ + stem@ + ".desktop"@),
    {
        let mut part: Vec<char> = Vec::new();
        push_str(&mut part, "arc-appimage-");
        push_str(&mut part, stem);
        push_str(&mut part, ".desktop");
        string_of(&path_join_exec(&chars_of(self.desktop_dir.as_str()), &part))
    }

    /// The icon copied out of an AppImage.
    pub fn icon_file(&self, stem: &str) -> (r: String)
        ensures
            r@ == path_join(path_join(self.data_dir@, "icons"@), stem@ + ".png"@),
    {
        let icons = path_join_exec(&chars_of(self.data_dir.as_str()), &chars_of("icons"));
        let mut part: Vec<char> = Vec::new();
        push_str(&mut part, stem);
        push_str(&mut part, ".png");
        string_of(&path_join_exec(&icons, &part))
    }

    /// Where an AppImage with this stem is kept.
    pub fn appimage_path(&self, stem: &str) -> (r: String)
        ensures
            r@ == path_join(self.appimages_dir@, stem@ + ".AppImage"@),
    {
        let mut part: Vec<char> = Vec::new();
        push_str(&mut part, stem);
        push_str(&mut part, ".AppImage");
        string_of(&path_join_exec(&chars_of(self.appimages_dir.as_str()), &part))
    }

    /// The stem of an AppImage path: its file name without `.AppImage`.
    /// Read from the path where an AppImage with a plain stem is kept (see
    /// `appimage_path`), it is that stem.
    pub fn stem_from_path(path: &str) -> (r: Option<String>)
        ensures
            opt_view(r) == match path_file_name(path@) {
                Some(n) => strip_suffix(n, ".AppImage"@),
                None => None,
            },
            ends_in_name(path@) ==> opt_view(r) == strip_suffix(after_last_slash(path@), ".AppImage"@),
            forall|dir: Seq<char>, stem: Seq<char>|
                #![trigger path_join(dir, stem + ".AppImage"@)]
                plain_stem(stem) && path@ == path_join(dir, stem + ".AppImage"@)
                    ==> opt_view(r) == Some(stem),
    {
        let name = match file_name(path) {
            Some(n) => n,
            None => {
                proof {
                    assert forall|dir: Seq<char>, stem: Seq<char>|
                        plain_stem(stem) && path@ == path_join(dir, stem + ".AppImage"@)
                        implies opt_view(None::<String>) == Some(stem) by {
                        law_appimage_path_stem(dir, stem);
                    }
                }
                return None;
            },
        };
        let r = match drop_suffix(&chars_of(name.as_str()), ".AppImage") {
            Some(s) => Some(string_of(&s)),
            None => None,
        };
        proof {
            assert forall|dir: Seq<char>, stem: Seq<char>|
                plain_stem(stem) && path@ == path_join(dir, stem + ".AppImage"@)
                implies opt_view(r) == Some(stem) by {
                law_appimage_path_stem(dir, stem);
            }
        }
        r
    }
}

/// The stem that an AppImage package id carries after `appimage:`.
pub fn stem_from_id(package_id: &str) -> (r: Option<String>)
    ensures
        opt_view(r) == strip_prefix(package_id@, "appimage:"@),
{
    match drop_prefix(&chars_of(package_id), "appimage:") {
        Some(s) => Some(string_of(&s)),
        None => None,
    }
}

/// What is known of an AppImage.
pub struct AppImageMeta {
    pub name: String,
    pub version: String,
    pub description: String,
    pub categories: String,
    pub update_info: String,
    pub icon_path: Option<String>,
}

/// Reads the name, version, comment, categories and update information from
/// an AppImage's desktop entry; for each key the last line counts.
pub fn parse_desktop(content: &str) -> (r: AppImageMeta)
    ensures
        r.name@ == or_empty(last_field(lines(content@), "Name="@)),
        r.version@ == or_empty(last_field(lines(content@), "Version="@)),
        r.description@ == or_empty(last_field(lines(content@), "Comment="@)),
        r.categories@ == or_empty(last_field(lines(content@), "Categories="@)),
        r.update_info@ == or_empty(last_field(lines(content@), "X-AppImage-Update-Information="@)),
        r.icon_path is None,
{
    let c = chars_of(content);
    let ls = lines_of(&c);
    AppImageMeta {
        name: last_field_or_empty(&ls, "Name="),
        version: last_field_or_empty(&ls, "Version="),
        description: last_field_or_empty(&ls, "Comment="),
        categories: last_field_or_empty(&ls, "Categories="),
        update_info: last_field_or_empty(&ls, "X-AppImage-Update-Information="),
        icon_path: None,
    }
}

/// The trimmed text between the first `<summary>` and the `</summary>` after it,
/// unless that is empty.
pub open spec fn spec_summary(xml: Seq<char>) -> Option<Seq<char>> {
    match find_seq(xml, "<summary>"@) {
        None => None,
        Some(p) => {
            let start = p + "<summary>"@.len();
            if start > xml.len() {
                None
            } else {
                match find_seq(xml.skip(start), "</summary>"@) {
                    None => None,
                    Some(e) => {
                        let s = trim(xml.subrange(start, start + e));
                        if s.len() == 0 || start + e > xml.len() {
                            None
                        } else {
                            Some(s)
                        }
                    },
                }
            }
        },
    }
}

/// The summary of an AppStream file, found by a plain scan for `<summary>`.
pub fn extract_appstream_summary(xml: &str) -> (r: Option<String>)
    ensures
        opt_view(r) == spec_summary(xml@),
{
    let x = chars_of(xml);
    let open = chars_of("<summary>");
    let close = chars_of("</summary>");
    let p = match find(&x, &open) {
        Some(p) => p,
        None => return None,
    };
    proof { lemma_find_from_bounds(x@, open@, 0); }
    assert(p + open.len() <= x.len());
    let start = p + open.len();
    let rest = slice_to_vec(&x, start, x.len());
    assert(rest@ =~= x@.skip(start as int));
    let e = match find(&rest, &close) {
        Some(e) => e,
        None => return None,
    };
    proof { lemma_find_from_bounds(rest@, close@, 0); }
    let inner = slice_to_vec(&x, start, start + e);
    let s = trim_exec(&inner);
    if s.len() == 0 {
        None
    } else {
        Some(string_of(&s))
    }
}

/// The position of the first `-` or `_` in `s`, if any.
pub open spec fn first_dash_or_underscore(s: Seq<char>, i: int) -> Option<int>
    decreases s.len() - i,
{
    if i < 0 || i >= s.len() {
        None
    } else if s[i] == '-' || s[i] == '_' {
        Some(i)
    } else {
        first_dash_or_underscore(s, i + 1)
    }
}

/// What precedes the first `-` or `_` of `s` (all of `s` if there is none).
pub open spec fn before_dash_or_underscore(s: Seq<char>) -> Seq<char> {
    match first_dash_or_underscore(s, 0) {
        Some(i) => s.take(i),
        None => s,
    }
}

/// The display name used when an AppImage has no desktop entry: its file stem
/// (`Unknown App` when there is none) up to the first `-` or `_`.
pub open spec fn spec_default_name(path: Seq<char>) -> Seq<char> {
    before_dash_or_underscore(
        match path_file_stem(path) {
            Some(s) => s,
            None => "Unknown App"@,
        },
    )
}

impl AppImageMeta {
    /// Metadata made from the AppImage's path alone.
    pub fn default_from_path(path: &str) -> (r: AppImageMeta)
        ensures
            r.name@ == spec_default_name(path@),
            r.version@.len() == 0,
            r.description@.len() == 0,
            r.categories@.len() == 0,
            r.update_info@.len() == 0,
            r.icon_path is None,
    {
        let stem = match file_stem(path) {
            Some(s) => s,
            None => "Unknown App".to_owned(),
        };
        let s = chars_of(stem.as_str());
        let mut i: usize = 0;
        while i < s.len() && !(s[i] == '-' || s[i] == '_')
            invariant
                i <= s.len(),
                first_dash_or_underscore(s@, 0) == first_dash_or_underscore(s@, i as int),
            decreases s.len() - i,
        {
            i = i + 1;
        }
        let n = slice_to_vec(&s, 0, i);
        proof {
            if i < s.len() {
                assert(n@ =~= s@.take(i as int));
            } else {
                assert(n@ =~= s@);
            }
        }
        AppImageMeta {
            name: string_of(&n),
            version: String::new(),
            description: String::new(),
            categories: String::new(),
            update_info: String::new(),
            icon_path: None,
        }
    }
}

/// What an AppImage index file records.
pub struct AppImageRecord {
    pub stem: String,
    pub name: String,
    pub version: String,
    pub description: String,
    pub path: String,
}

/// Reads an AppImage index file; the last line for each key counts, and a
/// file without a stem gives nothing.
pub fn parse_info(content: &str) -> (r: Option<AppImageRecord>)
    ensures
        r is Some <==> or_empty(last_field(lines(content@), "STEM="@)).len() > 0,
        r matches Some(rec) ==> {
            let ls = lines(content@);
            &&& rec.stem@ == or_empty(last_field(ls, "STEM="@))
            &&& rec.name@ == or_empty(last_field(ls, "NAME="@))
            &&& rec.version@ == or_empty(last_field(ls, "VERSION="@))
            &&& rec.description@ == or_empty(last_field(ls, "DESCRIPTION="@))
            &&& rec.path@ == or_empty(last_field(ls, "PATH="@))
        },
{
    let c = chars_of(content);
    let ls = lines_of(&c);
    let stem = last_field_or_empty(&ls, "STEM=");
    if stem.as_str().unicode_len() == 0 {
        return None;
    }
    Some(
        AppImageRecord {
            stem,
            name: last_field_or_empty(&ls, "NAME="),
            version: last_field_or_empty(&ls, "VERSION="),
            description: last_field_or_empty(&ls, "DESCRIPTION="),
            path: last_field_or_empty(&ls, "PATH="),
        },
    )
}

/// The package for an AppImage index record; `installed` tells whether the
/// AppImage file is still there.
pub fn record_to_package(rec: AppImageRecord, installed: bool) -> (r: Package)
    ensures
        r.id@ == "appimage:"@ + rec.stem@,
        r.name@ == if rec.name@.len() == 0 {
            rec.stem@
        } else {
            rec.name@
        },
        r.description@ == if rec.description@.len() == 0 {
            "AppImage application"@
        } else {
            rec.description@
        },
        r.version@ == rec.version@,
        r.provider == Provider::AppImage,
        r.installed == installed,
        r.icon_url is None,
        r.remote is None,
        r.screenshots@.len() == 0,
        r.developer_name is None,
        r.homepage_url is None,
        r.content_rating is None,
        !r.is_runtime,
        r.categories@.len() == 0,
{
    let mut id: Vec<char> = Vec::new();
    push_str(&mut id, "appimage:");
    push_str(&mut id, rec.stem.as_str());
    let name = if rec.name.as_str().unicode_len() == 0 {
        rec.stem
    } else {
        rec.name
    };
    let description = if rec.description.as_str().unicode_len() == 0 {
        "AppImage application".to_owned()
    } else {
        rec.description
    };
    Package {
        id: string_of(&id),
        name,
        version: rec.version,
        description,
        provider: Provider::AppImage,
        installed,
        icon_url: None,
        remote: None,
        screenshots: Vec::new(),
        developer_name: None,
        homepage_url: None,
        content_rating: None,
        is_runtime: false,
        categories: Vec::new(),
    }
}

/// The update information of an index file: the first `UPDATE_INFO=` line.
pub fn update_info_of(content: &str) -> (r: String)
    ensures
        r@ == or_empty(first_field(lines(content@), "UPDATE_INFO="@)),
{
    let c = chars_of(content);
    let ls = lines_of(&c);
    match first_field_of(&ls, "UPDATE_INFO=") {
        Some(v) => string_of(&v),
        None => String::new(),
    }
}

/// A package matches a lower-cased query when its lower-cased name or id contains it.
pub open spec fn matches_query(p: Package, q: Seq<char>) -> bool {
    contains_seq(unicode_lowercase(p.name@), q) || contains_seq(unicode_lowercase(p.id@), q)
}

/// Whether `text` contains `q`.
fn contains_exec(text: &String, q: &Vec<char>) -> (r: bool)
    ensures
        r == contains_seq(text@, q@),
{
    let t = chars_of(text.as_str());
    find(&t, q).is_some()
}

/// The installed AppImages whose name or id contains the query, ignoring case.
pub fn search_installed(installed: Vec<Package>, query: &str) -> (r: Vec<Package>)
    ensures
        r@ == installed@.filter(|p: Package| matches_query(p, unicode_lowercase(query@))),
{
    let ql = lowercase(query);
    let q = chars_of(ql.as_str());
    let mut rest = installed;
    let mut out: Vec<Package> = Vec::new();
    let ghost orig = rest@;
    let ghost pred = |p: Package| matches_query(p, unicode_lowercase(query@));
    let ghost mut k: int = 0;
    assert(orig.take(0).filter(pred) =~= Seq::<Package>::empty());
    assert(orig.skip(0) =~= orig);
    while rest.len() > 0
        invariant
            0 <= k <= orig.len(),
            rest@ == orig.skip(k),
            q@ == unicode_lowercase(query@),
            pred == (|p: Package| matches_query(p, unicode_lowercase(query@))),
            out@ == orig.take(k).filter(pred),
        decreases rest.len(),
    {
        let p = rest.remove(0);
        assert(p == orig[k]);
        let nl = lowercase(p.name.as_str());
        let il = lowercase(p.id.as_str());
        let hit = contains_exec(&nl, &q) || contains_exec(&il, &q);
        proof {
            reveal(Seq::filter);
            assert(orig.take(k + 1).drop_last() =~= orig.take(k));
            assert(rest@ =~= orig.skip(k + 1));
        }
        if hit {
            out.push(p);
        }
        proof { k = k + 1; }
    }
    assert(orig.take(k) =~= orig);
    out
}

/// The text of the index file written for an AppImage.
pub open spec fn spec_info_text(stem: Seq<char>, meta_name: Seq<char>, meta_version: Seq<char>,
    meta_description: Seq<char>, path: Seq<char>, update_info: Seq<char>) -> Seq<char> {
    "STEM="@ + stem + "\nNAME="@ + meta_name + "\nVERSION="@ + meta_version + "\nDESCRIPTION="@
        + meta_description + "\nPATH="@ + path + "\nUPDATE_INFO="@ + update_info + "\n"@
}

/// Writes the index file text for an AppImage.
pub fn info_text(stem: &str, meta: &AppImageMeta, path: &str) -> (r: String)
    ensures
        r@ == spec_info_text(stem@, meta.name@, meta.version@, meta.description@, path@,
            meta.update_info@),
{
    let mut v: Vec<char> = Vec::new();
    push_str(&mut v, "STEM=");
    push_str(&mut v, stem);
    push_str(&mut v, "\nNAME=");
    push_str(&mut v, meta.name.as_str());
    push_str(&mut v, "\nVERSION=");
    push_str(&mut v, meta.version.as_str());
    push_str(&mut v, "\nDESCRIPTION=");
    push_str(&mut v, meta.description.as_str());
    push_str(&mut v, "\nPATH=");
    push_str(&mut v, path);
    push_str(&mut v, "\nUPDATE_INFO=");
    push_str(&mut v, meta.update_info.as_str());
    push_str(&mut v, "\n");
    string_of(&v)
}

/// The text of the desktop file written for an AppImage; categories default to `Utility;`.
pub open spec fn spec_desktop_text(meta: AppImageMeta, path: Seq<char>, icon: Seq<char>) -> Seq<char> {
    "[Desktop Entry]\nType=Application\nName="@ + meta.name@ + "\nComment="@ + meta.description@
        + "\nExec="@ + path + "\nIcon="@ + icon + "\nCategories="@ + (if meta.categories@.len()
        == 0 {
        "Utility;"@
    } else {
        meta.categories@
    }) + "\nVersion="@ + meta.version@ + "\nX-AppImage-Path="@ + path
        + "\nX-AppImage-Update-Information="@ + meta.update_info@ + "\n"@
}

/// Writes the desktop file text for an AppImage.
pub fn desktop_text(meta: &AppImageMeta, path: &str, icon: &str) -> (r: String)
    ensures
        r@ == spec_desktop_text(*meta, path@, icon@),
{
    let mut v: Vec<char> = Vec::new();
    push_str(&mut v, "[Desktop Entry]\nType=Application\nName=");
    push_str(&mut v, meta.name.as_str());
    push_str(&mut v, "\nComment=");
    push_str(&mut v, meta.description.as_str());
    push_str(&mut v, "\nExec=");
    push_str(&mut v, path);
    push_str(&mut v, "\nIcon=");
    push_str(&mut v, icon);
    push_str(&mut v, "\nCategories=");
    if meta.categories.as_str().unicode_len() == 0 {
        push_str(&mut v, "Utility;");
    } else {
        push_str(&mut v, meta.categories.as_str());
    }
    push_str(&mut v, "\nVersion=");
    push_str(&mut v, meta.version.as_str());
    push_str(&mut v, "\nX-AppImage-Path=");
    push_str(&mut v, path);
    push_str(&mut v, "\nX-AppImage-Update-Information=");
    push_str(&mut v, meta.update_info.as_str());
    push_str(&mut v, "\n");
    string_of(&v)
}

/// `AppImageUpdate --check-for-update` exits with 1 when an update is available.
pub fn update_available(exit_code: Option<i32>) -> (r: bool)
    ensures
        r == (exit_code == Some(1i32)),
{
    match exit_code {
        Some(c) => c == 1,
        None => false,
    }
}


/// The metadata of an unpacked AppImage: from its desktop entry (or, with
/// none, from its path), with the AppStream summary as description when the
/// entry has none, and the icon found in it.
pub fn squashfs_meta(
    desktop: Option<String>,
    appimage_path: &str,
    appstream_summary: Option<String>,
    icon: Option<String>,
) -> (r: AppImageMeta)
    ensures
        ({
            let base_desc = match desktop {
                Some(c) => or_empty(last_field(lines(c@), "Comment="@)),
                None => Seq::<char>::empty(),
            };
            &&& r.name@ == match desktop {
                Some(c) => or_empty(last_field(lines(c@), "Name="@)),
                None => spec_default_name(appimage_path@),
            }
            &&& r.version@ == match desktop {
                Some(c) => or_empty(last_field(lines(c@), "Version="@)),
                None => Seq::<char>::empty(),
            }
            &&& r.categories@ == match desktop {
                Some(c) => or_empty(last_field(lines(c@), "Categories="@)),
                None => Seq::<char>::empty(),
            }
            &&& r.update_info@ == match desktop {
                Some(c) => or_empty(last_field(lines(c@), "X-AppImage-Update-Information="@)),
                None => Seq::<char>::empty(),
            }
            &&& r.description@ == match appstream_summary {
                Some(s) => if base_desc.len() == 0 {
                    s@
                } else {
                    base_desc
                },
                None => base_desc,
            }
            &&& opt_view(r.icon_path) == opt_view(icon)
        }),
{
    let mut meta = match &desktop {
        Some(c) => parse_desktop(c.as_str()),
        None => AppImageMeta::default_from_path(appimage_path),
    };
    if let Some(s) = appstream_summary {
        if chars_of(meta.description.as_str()).len() == 0 {
            meta.description = s;
        }
    }
    meta.icon_path = icon;
    meta
}

/// Whether a list of texts holds this one.
fn holds(v: &Vec<String>, s: &str) -> (r: bool)
    ensures
        r == strings_view(v@).contains(s@),
{
    let mut i: usize = 0;
    while i < v.len()
        invariant
            0 <= i <= v@.len(),
            forall|j: int| 0 <= j < i ==> v@[j]@ != s@,
        decreases v@.len() - i,
    {
        if crate::text::str_eq(v[i].as_str(), s) {
            assert(strings_view(v@)[i as int] == s@);
            return true;
        }
        i += 1;
    }
    assert forall|j: int| 0 <= j < strings_view(v@).len() implies strings_view(v@)[j] != s@ by {
        assert(strings_view(v@)[j] == v@[j]@);
    }
    false
}

/// The stems of the index files (`.info`) among `files` whose AppImage is
/// gone, in order.
pub open spec fn orphans(found: Seq<Seq<char>>, files: Seq<Seq<char>>) -> Seq<Seq<char>>
    decreases files.len(),
{
    if files.len() == 0 {
        Seq::empty()
    } else {
        let r = orphans(found, files.drop_last());
        let f = files.last();
        if crate::appstream::path_extension(f) == Some("info"@) {
            match path_file_stem(f) {
                Some(s) => if found.contains(s) {
                    r
                } else {
                    r.push(s)
                },
                None => r,
            }
        } else {
            r
        }
    }
}

/// The index files to clean up when syncing: those (among the files of the
/// data directory) whose stem is not one of the AppImages found.
pub fn orphaned_info_stems(found_stems: &Vec<String>, data_files: &Vec<String>) -> (r: Vec<String>)
    ensures
        strings_view(r@) == orphans(strings_view(found_stems@), strings_view(data_files@)),
{
    let ghost fs = strings_view(data_files@);
    let mut out: Vec<String> = Vec::new();
    let mut i: usize = 0;
    assert(fs.take(0) =~= Seq::<Seq<char>>::empty());
    assert(strings_view(out@) =~= Seq::<Seq<char>>::empty());
    while i < data_files.len()
        invariant
            0 <= i <= data_files@.len(),
            fs == strings_view(data_files@),
            strings_view(out@) == orphans(strings_view(found_stems@), fs.take(i as int)),
        decreases data_files@.len() - i,
    {
        assert(fs.take(i + 1).drop_last() =~= fs.take(i as int));
        assert(fs.take(i + 1).last() == data_files@[i as int]@);
        let f = data_files[i].as_str();
        let is_info = match crate::appstream::extension_of(f) {
            Some(e) => crate::text::str_eq(e.as_str(), "info"),
            None => false,
        };
        if is_info {
            if let Some(st) = file_stem(f) {
                if !holds(found_stems, st.as_str()) {
                    proof {
                        crate::fields::lemma_strings_view_push(out@, st);
                    }
                    out.push(st);
                }
            }
        }
        i += 1;
    }
    assert(fs.take(i as int) =~= fs);
    out
}

/// Where an unpacked AppImage's icon is looked for after its top directory:
/// the hicolor `apps` folders of the 256, 128 and 64 pixel sizes, in that
/// order.
pub fn squashfs_icon_dirs(squashfs: &str) -> (r: Vec<String>)
    ensures
        strings_view(r@) == seq![
            path_join(path_join(path_join(squashfs@, "usr/share/icons/hicolor"@), "256x256"@), "apps"@),
            path_join(path_join(path_join(squashfs@, "usr/share/icons/hicolor"@), "128x128"@), "apps"@),
            path_join(path_join(path_join(squashfs@, "usr/share/icons/hicolor"@), "64x64"@), "apps"@),
        ],
{
    let base = path_join_exec(&chars_of(squashfs), &chars_of("usr/share/icons/hicolor"));
    let mut out: Vec<String> = Vec::new();
    let a = path_join_exec(&path_join_exec(&base, &chars_of("256x256")), &chars_of("apps"));
    let b = path_join_exec(&path_join_exec(&base, &chars_of("128x128")), &chars_of("apps"));
    let c = path_join_exec(&path_join_exec(&base, &chars_of("64x64")), &chars_of("apps"));
    out.push(string_of(&a));
    out.push(string_of(&b));
    out.push(string_of(&c));
    assert(strings_view(out@) =~= seq![a@, b@, c@]);
    out
}

/// A stem an AppImage can be kept under: not empty, with no `/`.
pub open spec fn plain_stem(stem: Seq<char>) -> bool {
    stem.len() > 0 && forall|i: int| 0 <= i < stem.len() ==> stem[i] != '/'
}

/// The path an AppImage with a plain stem is kept at ends in a plain name,
/// and its stem, as `stem_from_path` reads it from that name, is the stem
/// again.
pub proof fn law_appimage_path_stem(dir: Seq<char>, stem: Seq<char>)
    requires
        plain_stem(stem),
    ensures
        ends_in_name(path_join(dir, stem + ".AppImage"@)),
        strip_suffix(after_last_slash(path_join(dir, stem + ".AppImage"@)), ".AppImage"@) == Some(stem),
{
    reveal_strlit(".AppImage");
    let part = stem + ".AppImage"@;
    assert forall|i: int| 0 <= i < part.len() implies part[i] != '/' by {
        if i >= stem.len() {
            assert(part[i] == ".AppImage"@[i - stem.len()]);
        }
    }
    let p = path_join(dir, part);
    if dir.len() == 0 || dir.last() == '/' {
        lemma_after_last_slash_append(dir, part);
        assert(p == dir + part);
    } else {
        lemma_after_last_slash_append(dir + seq!['/'], part);
        assert(p == dir + seq!['/'] + part);
    }
    assert(after_last_slash(p) == part);
    assert(p.last() == part.last());
    assert(part.last() == 'e');
    assert(part.len() > 2);
    reveal_strlit(".");
    reveal_strlit("..");
    assert(part.len() != "."@.len());
    assert(part.len() != ".."@.len());
    assert(has_suffix(part, ".AppImage"@)) by {
        assert(part.subrange(part.len() - 9, part.len() as int) =~= ".AppImage"@);
    }
    assert(part.take(part.len() - 9) =~= stem);
}

/// The positions of the AppImages a sync processes: those whose file has a
/// stem (see `stem_from_path`) and no index file yet.
pub open spec fn to_process(stems: Seq<Option<Seq<char>>>, has_info: Seq<bool>) -> Seq<usize>
    decreases stems.len(),
{
    if stems.len() == 0 {
        Seq::empty()
    } else {
        let rest = to_process(stems.drop_last(), has_info);
        if stems.last() is Some && !has_info[stems.len() - 1] {
            rest.push((stems.len() - 1) as usize)
        } else {
            rest
        }
    }
}

/// Which files of the AppImage folder a sync processes: `stems[i]` is the
/// stem of the i-th file (none for a file that is no AppImage) and
/// `has_info[i]` whether an index file exists for that stem.
pub fn appimages_to_process(stems: &Vec<Option<String>>, has_info: &Vec<bool>) -> (r: Vec<usize>)
    requires
        has_info@.len() == stems@.len(),
    ensures
        r@ == to_process(stems@.map_values(|o: Option<String>| opt_view(o)), has_info@),
{
    let ghost sv = stems@.map_values(|o: Option<String>| opt_view(o));
    let mut r: Vec<usize> = Vec::new();
    let mut i: usize = 0;
    assert(sv.take(0) =~= Seq::<Option<Seq<char>>>::empty());
    while i < stems.len()
        invariant
            0 <= i <= stems@.len(),
            has_info@.len() == stems@.len(),
            sv == stems@.map_values(|o: Option<String>| opt_view(o)),
            r@ == to_process(sv.take(i as int), has_info@),
        decreases stems@.len() - i,
    {
        assert(sv.take(i + 1).drop_last() =~= sv.take(i as int));
        assert(sv.take(i + 1).last() == opt_view(stems@[i as int]));
        if stems[i].is_some() && !has_info[i] {
            r.push(i);
        }
        i += 1;
    }
    assert(sv.take(i as int) =~= sv);
    r
}

} // verus!
