//! Data that removed apps leave behind: which of it is offered for deletion,
//! under what names, and where each piece lives.

use vstd::prelude::*;
use crate::text::{
    chars_of, string_of, strings_view, str_eq, push_str, path_join, path_join_exec, strip_prefix,
};
use crate::fields::or_empty;
use crate::metainfo::lm_view;
use crate::catalog::{AppStreamDb, first_with_id, localized};

verus! {

/// The directory that holds the data of an app: a web app's profile for a
/// `pwa:` id, else the Flatpak sandbox data.
pub open spec fn spec_leftover_dir(home: Seq<char>, id: Seq<char>) -> Seq<char> {
    match strip_prefix(id, "pwa:"@) {
        Some(appid) => path_join(path_join(home, ".local/share/blossomos-webapps"@), appid),
        None => path_join(path_join(home, ".var/app"@), id),
    }
}

/// The directory that holds the data of an app.
pub fn leftover_dir(home: &str, id: &str) -> (r: String)
    ensures
        r@ == spec_leftover_dir(home@, id@),
{
    let h = chars_of(home);
    match crate::deeplink::drop_prefix(&chars_of(id), "pwa:") {
        Some(appid) => {
            let base = path_join_exec(&h, &chars_of(".local/share/blossomos-webapps"));
            string_of(&path_join_exec(&base, &appid))
        },
        None => {
            let base = path_join_exec(&h, &chars_of(".var/app"));
            string_of(&path_join_exec(&base, &chars_of(id)))
        },
    }
}

/// Data left by an app that is no longer installed.
pub struct LeftoverDataEntry {
    pub id: String,
    pub name: String,
}

/// The name shown for the Flatpak data of an app id: its catalog name when
/// the catalog has one, else the id.
pub open spec fn leftover_name(db: AppStreamDb, id: Seq<char>) -> Seq<char> {
    match first_with_id(db.components@, id) {
        Some(i) => {
            let n = or_empty(localized(lm_view(db.components@[i].0.name@), strings_view(db.locales@)));
            if n.len() > 0 {
                n
            } else {
                id
            }
        },
        None => id,
    }
}

/// The Flatpak data directories (named by app id) of apps not installed,
/// in order, with their names.
pub open spec fn flatpak_leftovers(db: AppStreamDb, installed: Seq<Seq<char>>, dirs: Seq<Seq<char>>) -> Seq<
    (Seq<char>, Seq<char>),
>
    decreases dirs.len(),
{
    if dirs.len() == 0 {
        Seq::empty()
    } else {
        let r = flatpak_leftovers(db, installed, dirs.drop_last());
        if installed.contains(dirs.last()) {
            r
        } else {
            r.push((dirs.last(), leftover_name(db, dirs.last())))
        }
    }
}

/// The web app profile directories (named by app id) of web apps not
/// installed, in order, as `pwa:` ids named by their app id.
pub open spec fn pwa_leftovers(installed: Seq<Seq<char>>, dirs: Seq<Seq<char>>) -> Seq<(Seq<char>, Seq<char>)>
    decreases dirs.len(),
{
    if dirs.len() == 0 {
        Seq::empty()
    } else {
        let r = pwa_leftovers(installed, dirs.drop_last());
        if installed.contains("pwa:"@ + dirs.last()) {
            r
        } else {
            r.push(("pwa:"@ + dirs.last(), dirs.last()))
        }
    }
}

pub open spec fn entries_view(v: Seq<LeftoverDataEntry>) -> Seq<(Seq<char>, Seq<char>)> {
    v.map_values(|e: LeftoverDataEntry| (e.id@, e.name@))
}

fn contains_text(v: &Vec<String>, s: &str) -> (r: bool)
    ensures
        r == strings_view(v@).contains(s@),
{
    let mut i: usize = 0;
    while i < v.len()
        invariant
            0 <= i <= v@.len(),
            forall|j: int| 0 <= j < i ==> v@[j]@ != s@,
        decreases v@.len() - i,
    {
        if str_eq(v[i].as_str(), s) {
            assert(strings_view(v@)[i as int] == s@);
            return true;
        }
        i += 1;
    }
    assert forall|j: int| 0 <= j < strings_view(v@).len() implies strings_view(v@)[j] != s@ by {
        assert(strings_view(v@)[j] == v@[j]@);
    }
    false
}

/// The data left by apps that are no longer installed: first the Flatpak
/// sandbox directories (named from the catalog where it names the app),
/// then the web app profiles.
pub fn leftover_entries(
    installed: &Vec<String>,
    flatpak_dirs: &Vec<String>,
    pwa_dirs: &Vec<String>,
    db: &AppStreamDb,
) -> (r: Vec<LeftoverDataEntry>)
    ensures
        entries_view(r@) == flatpak_leftovers(*db, strings_view(installed@), strings_view(flatpak_dirs@))
            + pwa_leftovers(strings_view(installed@), strings_view(pwa_dirs@)),
{
    let ghost inst = strings_view(installed@);
    let ghost fd = strings_view(flatpak_dirs@);
    let ghost pd = strings_view(pwa_dirs@);
    let mut out: Vec<LeftoverDataEntry> = Vec::new();
    let mut i: usize = 0;
    assert(fd.take(0) =~= Seq::<Seq<char>>::empty());
    assert(entries_view(out@) =~= Seq::<(Seq<char>, Seq<char>)>::empty());
    while i < flatpak_dirs.len()
        invariant
            0 <= i <= flatpak_dirs@.len(),
            fd == strings_view(flatpak_dirs@),
            inst == strings_view(installed@),
            entries_view(out@) == flatpak_leftovers(*db, inst, fd.take(i as int)),
        decreases flatpak_dirs@.len() - i,
    {
        assert(fd.take(i + 1).drop_last() =~= fd.take(i as int));
        assert(fd.take(i + 1).last() == flatpak_dirs@[i as int]@);
        let id = &flatpak_dirs[i];
        if !contains_text(installed, id.as_str()) {
            let name = match db.find_by_id(id.as_str()) {
                Some(e) => if chars_of(e.name.as_str()).len() > 0 {
                    e.name
                } else {
                    id.clone()
                },
                None => id.clone(),
            };
            let ghost before = entries_view(out@);
            out.push(LeftoverDataEntry { id: id.clone(), name });
            assert(entries_view(out@) =~= before.push((id@, leftover_name(*db, id@))));
        }
        i += 1;
    }
    assert(fd.take(i as int) =~= fd);
    let ghost flat = entries_view(out@);
    let mut k: usize = 0;
    assert(pd.take(0) =~= Seq::<Seq<char>>::empty());
    assert(entries_view(out@) =~= flat + pwa_leftovers(inst, pd.take(0)));
    while k < pwa_dirs.len()
        invariant
            0 <= k <= pwa_dirs@.len(),
            pd == strings_view(pwa_dirs@),
            inst == strings_view(installed@),
            entries_view(out@) == flat + pwa_leftovers(inst, pd.take(k as int)),
        decreases pwa_dirs@.len() - k,
    {
        assert(pd.take(k + 1).drop_last() =~= pd.take(k as int));
        assert(pd.take(k + 1).last() == pwa_dirs@[k as int]@);
        let appid = &pwa_dirs[k];
        let mut v: Vec<char> = Vec::new();
        push_str(&mut v, "pwa:");
        push_str(&mut v, appid.as_str());
        let id = string_of(&v);
        if !contains_text(installed, id.as_str()) {
            let ghost before = entries_view(out@);
            out.push(LeftoverDataEntry { id, name: appid.clone() });
            assert(entries_view(out@) =~= before.push(("pwa:"@ + appid@, appid@)));
        }
        k += 1;
    }
    assert(pd.take(k as int) =~= pd);
    out
}

} // verus!
