//! The Flatpak provider's own rules: how installed refs become packages, how
//! the remote app ids are listed, which remotes are shown and protected, and
//! what a `.flatpakref` or `.flatpakrepo` asks to add.

use vstd::prelude::*;
use crate::text::{
    chars_of, string_of, strings_view, opt_view, str_eq, push_str, trim, trim_exec, has_prefix,
    str_starts_with, lowercase, unicode_lowercase,
};
use crate::fields::{lines, last_field, or_empty, lines_of, last_field_of, vecs_view};
use crate::package::{Package, Provider};
use crate::appstream::{AppStreamEntry, entry_to_flatpak_package};
use crate::catalog::{AppStreamDb, first_with_id};
use crate::install_search::{InstallError, error_view};

verus! {

/// What `String::from_utf8_lossy` makes of bytes.
pub uninterp spec fn utf8_lossy(b: Seq<u8>) -> Seq<char>;

/// Decodes bytes with `String::from_utf8_lossy`; the result is named by
/// `utf8_lossy`.
#[verifier::external_body]
fn lossy_text(b: &[u8]) -> (r: String)
    ensures
        r@ == utf8_lossy(b@),
{
    String::from_utf8_lossy(b).into_owned()
}

/// What `char::is_alphanumeric` says of a character.
pub uninterp spec fn char_is_alphanumeric(c: char) -> bool;

/// Whether a character is alphanumeric, by `char::is_alphanumeric`; the
/// result is named by `char_is_alphanumeric`.
#[verifier::external_body]
fn is_alphanumeric(c: char) -> (r: bool)
    ensures
        r == char_is_alphanumeric(c),
{
    c.is_alphanumeric()
}

/// The lines of a text, each trimmed.
pub open spec fn trimmed_lines(s: Seq<char>) -> Seq<Seq<char>> {
    lines(s).map_values(|l: Seq<char>| trim(l))
}

fn trimmed_lines_exec(s: &[char]) -> (r: Vec<Vec<char>>)
    ensures
        vecs_view(r@) == trimmed_lines(s@),
{
    let ls = lines_of(s);
    let mut out: Vec<Vec<char>> = Vec::new();
    let mut i: usize = 0;
    while i < ls.len()
        invariant
            0 <= i <= ls@.len(),
            vecs_view(ls@) == lines(s@),
            vecs_view(out@) == trimmed_lines(s@).take(i as int),
        decreases ls@.len() - i,
    {
        let t = trim_exec(&ls[i]);
        assert(vecs_view(ls@)[i as int] == ls@[i as int]@);
        assert(trimmed_lines(s@)[i as int] == trim(lines(s@)[i as int]));
        let ghost before = vecs_view(out@);
        proof {
            crate::fields::lemma_vecs_view_push(out@, t);
        }
        out.push(t);
        assert(vecs_view(out@) == before.push(t@));
        i += 1;
        assert(vecs_view(out@) =~= trimmed_lines(s@).take(i as int));
    }
    assert(trimmed_lines(s@).take(i as int) =~= trimmed_lines(s@));
    out
}

fn field_or_empty(ls: &Vec<Vec<char>>, key: &str) -> (r: Vec<char>)
    ensures
        r@ == or_empty(last_field(vecs_view(ls@), key@)),
{
    match last_field_of(ls, key) {
        Some(v) => v,
        None => {
            let e: Vec<char> = Vec::new();
            assert(e@ =~= Seq::<char>::empty());
            e
        },
    }
}

/// The repository a `.flatpakref` points at.
pub struct RefRemote {
    pub url: String,
    pub suggested_name: String,
    pub gpg_key: String,
}

/// The repository fields of a `.flatpakref` (its text decoded leniently):
/// the last `Url=`, `SuggestRemoteName=` and `GPGKey=` lines, trimmed.
pub fn flatpakref_remote(bytes: &[u8]) -> (r: RefRemote)
    ensures
        r.url@ == or_empty(last_field(trimmed_lines(utf8_lossy(bytes@)), "Url="@)),
        r.suggested_name@ == or_empty(
            last_field(trimmed_lines(utf8_lossy(bytes@)), "SuggestRemoteName="@),
        ),
        r.gpg_key@ == or_empty(last_field(trimmed_lines(utf8_lossy(bytes@)), "GPGKey="@)),
{
    let text = lossy_text(bytes);
    let ls = trimmed_lines_exec(&chars_of(text.as_str()));
    RefRemote {
        url: string_of(&field_or_empty(&ls, "Url=")),
        suggested_name: string_of(&field_or_empty(&ls, "SuggestRemoteName=")),
        gpg_key: string_of(&field_or_empty(&ls, "GPGKey=")),
    }
}

/// The remote to add for a `.flatpakref` before installing it: none when it
/// names no repository URL, else its suggested name, or
/// `flatpakref-remote`.
pub fn remote_to_add(r: &RefRemote) -> (name: Option<String>)
    ensures
        r.url@.len() == 0 ==> name is None,
        r.url@.len() > 0 ==> opt_view(name) == Some(
            if r.suggested_name@.len() == 0 {
                "flatpakref-remote"@
            } else {
                r.suggested_name@
            },
        ),
{
    if chars_of(r.url.as_str()).len() == 0 {
        None
    } else if chars_of(r.suggested_name.as_str()).len() == 0 {
        proof {
            reveal_strlit("flatpakref-remote");
        }
        Some("flatpakref-remote".to_string())
    } else {
        Some(r.suggested_name.clone())
    }
}

/// A remote name made from a repository title: lower-cased, spaces as
/// hyphens, and only alphanumeric characters and hyphens kept.
pub open spec fn safe_name(s: Seq<char>) -> Seq<char>
    decreases s.len(),
{
    if s.len() == 0 {
        s
    } else {
        let r = safe_name(s.drop_last());
        let c = if s.last() == ' ' {
            '-'
        } else {
            s.last()
        };
        if char_is_alphanumeric(c) || c == '-' {
            r.push(c)
        } else {
            r
        }
    }
}

fn safe_name_exec(s: &Vec<char>) -> (r: Vec<char>)
    ensures
        r@ == safe_name(s@),
{
    let mut out: Vec<char> = Vec::new();
    let mut i: usize = 0;
    assert(s@.take(0) =~= Seq::<char>::empty());
    while i < s.len()
        invariant
            0 <= i <= s@.len(),
            out@ == safe_name(s@.take(i as int)),
        decreases s@.len() - i,
    {
        assert(s@.take(i + 1).drop_last() =~= s@.take(i as int));
        assert(s@.take(i + 1).last() == s@[i as int]);
        let c = if s[i] == ' ' {
            '-'
        } else {
            s[i]
        };
        if is_alphanumeric(c) || c == '-' {
            out.push(c);
        }
        i += 1;
    }
    assert(s@.take(i as int) =~= s@);
    out
}

/// The repository a `.flatpakrepo` describes.
pub struct RepoRemote {
    pub name: String,
    pub url: String,
    pub gpg_key: String,
}

/// The remote a `.flatpakrepo` adds: the last `Title=`, `Url=` and `GPGKey=`
/// values (trimmed lines, trimmed values), named after the title (or
/// `imported-repo`); an error when it has no URL.
pub fn flatpakrepo_remote(content: &str) -> (r: Result<RepoRemote, InstallError>)
    ensures
        ({
            let ls = trimmed_lines(content@);
            let title = trim(or_empty(last_field(ls, "Title="@)));
            let url = trim(or_empty(last_field(ls, "Url="@)));
            let key = trim(or_empty(last_field(ls, "GPGKey="@)));
            if url.len() == 0 {
                r matches Err(e) && error_view(e) == (true, "No Url= found in .flatpakrepo"@)
            } else {
                r matches Ok(x) && x.url@ == url && x.gpg_key@ == key && x.name@ == (if title.len()
                    == 0 {
                    "imported-repo"@
                } else {
                    safe_name(unicode_lowercase(title))
                })
            }
        }),
{
    let ls = trimmed_lines_exec(&chars_of(content));
    let title = trim_exec(&field_or_empty(&ls, "Title="));
    let url = trim_exec(&field_or_empty(&ls, "Url="));
    let key = trim_exec(&field_or_empty(&ls, "GPGKey="));
    if url.len() == 0 {
        proof {
            reveal_strlit("No Url= found in .flatpakrepo");
        }
        return Err(InstallError::Provider("No Url= found in .flatpakrepo".to_string()));
    }
    let name = if title.len() == 0 {
        proof {
            reveal_strlit("imported-repo");
        }
        "imported-repo".to_string()
    } else {
        let lower = lowercase(string_of(&title).as_str());
        string_of(&safe_name_exec(&chars_of(lower.as_str())))
    };
    Ok(RepoRemote { name, url: string_of(&url), gpg_key: string_of(&key) })
}

/// A configured remote as the repositories page shows it.
pub struct RemoteInfo {
    pub name: String,
    pub url: String,
    /// It cannot be removed.
    pub protected: bool,
}

/// The remotes that cannot be removed.
pub open spec fn is_protected_remote(name: Seq<char>) -> bool {
    name == "flathub"@ || name == "blossomos"@
}

fn is_protected_exec(name: &str) -> (r: bool)
    ensures
        r == is_protected_remote(name@),
{
    str_eq(name, "flathub") || str_eq(name, "blossomos")
}

/// Whether a name is among the remotes already kept.
pub open spec fn has_remote(s: Seq<(Seq<char>, Seq<char>)>, name: Seq<char>) -> bool {
    exists|k: int| 0 <= k < s.len() && #[trigger] s[k].0 == name
}

/// The remotes of all installations, each name once (the first one met).
pub open spec fn first_remotes(s: Seq<(Seq<char>, Seq<char>)>) -> Seq<(Seq<char>, Seq<char>)>
    decreases s.len(),
{
    if s.len() == 0 {
        s
    } else {
        let r = first_remotes(s.drop_last());
        if has_remote(r, s.last().0) {
            r
        } else {
            r.push(s.last())
        }
    }
}

/// The configured remotes of all installations (name and URL, in the order
/// met), each name once with the URL it was first met with, marked
/// protected where it may not be removed.
pub fn remote_infos(found: &Vec<(String, String)>) -> (r: Vec<RemoteInfo>)
    ensures
        ({
            let s = first_remotes(found@.map_values(|p: (String, String)| (p.0@, p.1@)));
            &&& r@.len() == s.len()
            &&& forall|k: int|
                0 <= k < s.len() ==> (#[trigger] r@[k]).name@ == s[k].0 && r@[k].url@ == s[k].1
                    && r@[k].protected == is_protected_remote(s[k].0)
        }),
{
    let ghost fv = found@.map_values(|p: (String, String)| (p.0@, p.1@));
    let mut out: Vec<RemoteInfo> = Vec::new();
    let mut i: usize = 0;
    assert(fv.take(0) =~= Seq::<(Seq<char>, Seq<char>)>::empty());
    while i < found.len()
        invariant
            0 <= i <= found@.len(),
            fv == found@.map_values(|p: (String, String)| (p.0@, p.1@)),
            out@.len() == first_remotes(fv.take(i as int)).len(),
            forall|k: int|
                0 <= k < out@.len() ==> (#[trigger] out@[k]).name@ == first_remotes(
                    fv.take(i as int),
                )[k].0 && out@[k].url@ == first_remotes(fv.take(i as int))[k].1
                    && out@[k].protected == is_protected_remote(first_remotes(fv.take(i as int))[k].0),
        decreases found@.len() - i,
    {
        let ghost prev = first_remotes(fv.take(i as int));
        assert(fv.take(i + 1).drop_last() =~= fv.take(i as int));
        assert(fv.take(i + 1).last() == fv[i as int]);
        let name = &found[i].0;
        let mut seen = false;
        let mut j: usize = 0;
        while j < out.len()
            invariant
                0 <= j <= out@.len(),
                out@.len() == prev.len(),
                forall|k: int| 0 <= k < out@.len() ==> (#[trigger] out@[k]).name@ == prev[k].0,
                seen == (exists|k: int| 0 <= k < j && #[trigger] prev[k].0 == name@),
            decreases out@.len() - j,
        {
            if str_eq(out[j].name.as_str(), name.as_str()) {
                seen = true;
            }
            assert(out@[j as int].name@ == prev[j as int].0);
            j += 1;
        }
        assert(seen == has_remote(prev, name@));
        if !seen {
            let p = is_protected_exec(name.as_str());
            out.push(RemoteInfo { name: name.clone(), url: found[i].1.clone(), protected: p });
        }
        i += 1;
        assert forall|k: int| 0 <= k < out@.len() implies (#[trigger] out@[k]).name@ == first_remotes(
            fv.take(i as int),
        )[k].0 && out@[k].url@ == first_remotes(fv.take(i as int))[k].1 && out@[k].protected
            == is_protected_remote(first_remotes(fv.take(i as int))[k].0) by {
            if k < prev.len() {
                assert(first_remotes(fv.take(i as int))[k] == prev[k]);
            }
        }
    }
    assert(fv.take(i as int) =~= fv);
    out
}

/// Whether a remote may be removed: not when it is protected.
pub fn check_removable(name: &str) -> (r: Result<(), InstallError>)
    ensures
        is_protected_remote(name@) ==> (r matches Err(e) && error_view(e) == (
            true,
            "'"@ + name@ + "' is a protected repository and cannot be removed"@,
        )),
        !is_protected_remote(name@) ==> r is Ok,
{
    if is_protected_exec(name) {
        let mut v: Vec<char> = Vec::new();
        push_str(&mut v, "'");
        push_str(&mut v, name);
        push_str(&mut v, "' is a protected repository and cannot be removed");
        Err(InstallError::Provider(string_of(&v)))
    } else {
        Ok(())
    }
}

/// The error of adding a remote whose name is taken.
pub fn remote_exists_error(name: &str) -> (r: InstallError)
    ensures
        error_view(r) == (true, "remote '"@ + name@ + "' already exists"@),
{
    let mut v: Vec<char> = Vec::new();
    push_str(&mut v, "remote '");
    push_str(&mut v, name);
    push_str(&mut v, "' already exists");
    InstallError::Provider(string_of(&v))
}

/// Runtimes live in the system installation and need the privileged
/// helper, so they are updated through the `flatpak` command.
pub fn updates_via_cli(full_ref: &str) -> (r: bool)
    ensures
        r == has_prefix(full_ref@, "runtime/"@),
{
    str_starts_with(full_ref, "runtime/")
}

/// The error of a failed `flatpak update` command.
pub fn cli_update_failed(app_id: &str) -> (r: InstallError)
    ensures
        error_view(r) == (false, "flatpak update failed for "@ + app_id@),
{
    let mut v: Vec<char> = Vec::new();
    push_str(&mut v, "flatpak update failed for ");
    push_str(&mut v, app_id);
    InstallError::Transaction(string_of(&v))
}

/// What an installed ref reports about itself.
pub struct InstalledRefInfo {
    pub name: Option<String>,
    pub is_runtime: bool,
    pub appdata_name: Option<String>,
    pub appdata_version: Option<String>,
    pub branch: Option<String>,
    pub appdata_summary: Option<String>,
    pub origin: Option<String>,
}

/// What follows the last `.` (all of it when there is none).
pub open spec fn last_segment(s: Seq<char>) -> Seq<char>
    decreases s.len(),
{
    if s.len() == 0 {
        s
    } else if s.last() == '.' {
        Seq::empty()
    } else {
        last_segment(s.drop_last()).push(s.last())
    }
}

fn last_segment_exec(s: &Vec<char>) -> (r: Vec<char>)
    ensures
        r@ == last_segment(s@),
{
    let mut k: usize = s.len();
    assert(s@.take(k as int) =~= s@);
    while k > 0 && s[k - 1] != '.'
        invariant
            k <= s@.len(),
            last_segment(s@) == last_segment(s@.take(k as int)) + s@.subrange(k as int, s@.len() as int),
        decreases k,
    {
        assert(s@.take(k as int).drop_last() =~= s@.take(k - 1));
        assert(s@.take(k as int).last() == s@[k - 1]);
        assert(last_segment(s@.take(k as int)) == last_segment(s@.take(k - 1)).push(s@[k - 1]));
        assert(last_segment(s@.take(k - 1)).push(s@[k - 1]) + s@.subrange(k as int, s@.len() as int)
            =~= last_segment(s@.take(k - 1)) + s@.subrange(k - 1, s@.len() as int));
        k = k - 1;
    }
    if k > 0 {
        assert(s@.take(k as int).last() == s@[k - 1]);
        assert(last_segment(s@.take(k as int)) =~= Seq::<char>::empty());
    } else {
        assert(s@.take(0) =~= Seq::<char>::empty());
    }
    assert(Seq::<char>::empty() + s@.subrange(k as int, s@.len() as int) =~= s@.subrange(
        k as int,
        s@.len() as int,
    ));
    let n = s.len();
    crate::text::slice_to_vec(s, k, n)
}

/// The package an installed ref is listed as: named by its app data, else by
/// the last part of its id; its version from its app data, else its
/// branch.
pub fn installed_ref_to_package(r: &InstalledRefInfo) -> (p: Package)
    ensures
        ({
            let id = match r.name {
                Some(n) => n@,
                None => Seq::<char>::empty(),
            };
            &&& p.id@ == id
            &&& p.name@ == match r.appdata_name {
                Some(n) => if n@.len() > 0 {
                    n@
                } else {
                    last_segment(id)
                },
                None => last_segment(id),
            }
            &&& p.version@ == match r.appdata_version {
                Some(v) => v@,
                None => match r.branch {
                    Some(b) => b@,
                    None => Seq::<char>::empty(),
                },
            }
            &&& p.description@ == match r.appdata_summary {
                Some(s) => s@,
                None => Seq::<char>::empty(),
            }
            &&& p.provider == Provider::Flatpak
            &&& p.installed
            &&& p.icon_url is None
            &&& opt_view(p.remote) == opt_view(r.origin)
            &&& p.screenshots@.len() == 0
            &&& p.developer_name is None
            &&& p.homepage_url is None
            &&& p.content_rating is None
            &&& p.is_runtime == r.is_runtime
            &&& p.categories@.len() == 0
        }),
{
    let id = match &r.name {
        Some(n) => n.clone(),
        None => String::new(),
    };
    let fallback = string_of(&last_segment_exec(&chars_of(id.as_str())));
    let name = match &r.appdata_name {
        Some(n) => if chars_of(n.as_str()).len() > 0 {
            n.clone()
        } else {
            fallback
        },
        None => fallback,
    };
    let version = match &r.appdata_version {
        Some(v) => v.clone(),
        None => match &r.branch {
            Some(b) => b.clone(),
            None => String::new(),
        },
    };
    let description = match &r.appdata_summary {
        Some(s) => s.clone(),
        None => String::new(),
    };
    let remote = match &r.origin {
        Some(o) => Some(o.clone()),
        None => None,
    };
    Package {
        id,
        name,
        version,
        description,
        provider: Provider::Flatpak,
        installed: true,
        icon_url: None,
        remote,
        screenshots: Vec::new(),
        developer_name: None,
        homepage_url: None,
        content_rating: None,
        is_runtime: r.is_runtime,
        categories: Vec::new(),
    }
}

/// How an app id offered by the remotes is listed.
pub enum Listing {
    /// From its catalog entry.
    Catalog(Package),
    /// Installed but in no catalog: from its exported metainfo, if any.
    FromMetainfo,
    /// Neither installed nor in a catalog: not listed.
    Skip,
}

/// How an app id offered by the remotes is listed: from the catalog when it
/// has the id (marked installed or not), else, when it is installed, from
/// its own metainfo; an app that is neither is left out rather than shown
/// without a name.
pub fn listing_for(db: &AppStreamDb, id: &str, installed: bool) -> (r: Listing)
    ensures
        match first_with_id(db.components@, id@) {
            Some(i) => r matches Listing::Catalog(p) && exists|e: AppStreamEntry|
                db.entry_matches(e, db.components@[i], strings_view(db.locales@))
                    && #[trigger] is_flatpak_package_of(p, e, installed),
            None => if installed {
                r is FromMetainfo
            } else {
                r is Skip
            },
        },
{
    match db.find_by_id(id) {
        Some(e) => {
            let ghost ge = e;
            let p = entry_to_flatpak_package(e, installed);
            assert(is_flatpak_package_of(p, ge, installed));
            Listing::Catalog(p)
        },
        None => if installed {
            Listing::FromMetainfo
        } else {
            Listing::Skip
        },
    }
}

/// `p` is the Flatpak package made from the catalog entry `e`.
pub open spec fn is_flatpak_package_of(p: Package, e: AppStreamEntry, installed: bool) -> bool {
    &&& p.id@ == e.id@
    &&& p.name@ == if e.name@.len() == 0 {
        e.id@
    } else {
        e.name@
    }
    &&& p.version@.len() == 0
    &&& p.description@ == e.summary@
    &&& p.provider == Provider::Flatpak
    &&& p.installed == installed
    &&& p.icon_url == e.icon_url
    &&& p.remote == e.remote
    &&& p.screenshots == e.screenshots
    &&& p.developer_name == e.developer_name
    &&& p.homepage_url == e.homepage_url
    &&& opt_view(p.content_rating) == if e.content_rating@.len() == 0 {
        None
    } else {
        Some(e.content_rating@)
    }
    &&& !p.is_runtime
    &&& p.categories == e.categories
}

/// The package of an installed app that no catalog has: from its exported
/// metainfo when there is one, else a bare installed package named by its
/// id.
pub fn installed_fallback(id: &str, exported: Option<AppStreamEntry>) -> (p: Package)
    ensures
        match exported {
            Some(e) => is_flatpak_package_of(p, e, true),
            None => {
                &&& p.id@ == id@
                &&& p.name@ == id@
                &&& p.version@.len() == 0
                &&& p.description@.len() == 0
                &&& p.provider == Provider::Flatpak
                &&& p.installed
                &&& p.icon_url is None
                &&& p.remote is None
                &&& p.screenshots@.len() == 0
                &&& p.developer_name is None
                &&& p.homepage_url is None
                &&& p.content_rating is None
                &&& !p.is_runtime
                &&& p.categories@.len() == 0
            },
        },
{
    match exported {
        Some(e) => entry_to_flatpak_package(e, true),
        None => Package {
            id: id.to_string(),
            name: id.to_string(),
            version: String::new(),
            description: String::new(),
            provider: Provider::Flatpak,
            installed: true,
            icon_url: None,
            remote: None,
            screenshots: Vec::new(),
            developer_name: None,
            homepage_url: None,
            content_rating: None,
            is_runtime: false,
            categories: Vec::new(),
        },
    }
}

/// Catalog entries as Flatpak packages, each marked installed when its id is
/// among the installed app ids.
pub fn entries_to_packages(entries: Vec<AppStreamEntry>, installed_ids: &Vec<String>) -> (r: Vec<
    Package,
>)
    ensures
        r@.len() == entries@.len(),
        forall|k: int|
            0 <= k < r@.len() ==> is_flatpak_package_of(
                #[trigger] r@[k],
                entries@[k],
                strings_view(installed_ids@).contains(entries@[k].id@),
            ),
{
    let ghost all = entries@;
    let mut rest = entries;
    let mut rev: Vec<AppStreamEntry> = Vec::new();
    let total: usize = rest.len();
    while rest.len() > 0
        invariant
            all.len() == total,
            rest@.len() + rev@.len() == all.len(),
            forall|k: int| 0 <= k < rest@.len() ==> rest@[k] == all[k],
            forall|k: int| 0 <= k < rev@.len() ==> rev@[k] == all[all.len() - 1 - k],
        decreases rest@.len(),
    {
        let e = rest.pop().unwrap();
        rev.push(e);
    }
    let mut out: Vec<Package> = Vec::new();
    while rev.len() > 0
        invariant
            all.len() == total,
            out@.len() + rev@.len() == all.len(),
            forall|k: int| 0 <= k < rev@.len() ==> rev@[k] == all[all.len() - 1 - k],
            forall|k: int|
                0 <= k < out@.len() ==> is_flatpak_package_of(
                    #[trigger] out@[k],
                    all[k],
                    strings_view(installed_ids@).contains(all[k].id@),
                ),
        decreases rev@.len(),
    {
        let e = rev.pop().unwrap();
        let ghost k = out@.len();
        assert(e == all[k as int]);
        let mut installed = false;
        let mut j: usize = 0;
        while j < installed_ids.len()
            invariant
                0 <= j <= installed_ids@.len(),
                installed == (exists|m: int| 0 <= m < j && #[trigger] installed_ids@[m]@ == e.id@),
            decreases installed_ids@.len() - j,
        {
            if str_eq(installed_ids[j].as_str(), e.id.as_str()) {
                installed = true;
            }
            j += 1;
        }
        assert(installed == strings_view(installed_ids@).contains(e.id@)) by {
            if installed {
                let m = choose|m: int| 0 <= m < j && #[trigger] installed_ids@[m]@ == e.id@;
                assert(strings_view(installed_ids@)[m] == e.id@);
            }
            if strings_view(installed_ids@).contains(e.id@) {
                let m = choose|m: int|
                    0 <= m < strings_view(installed_ids@).len() && strings_view(installed_ids@)[m]
                        == e.id@;
                assert(installed_ids@[m]@ == e.id@);
            }
        }
        let p = entry_to_flatpak_package(e, installed);
        out.push(p);
    }
    out
}

} // verus!
