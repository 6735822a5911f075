//! The Flatpak extensions offered for an application: which runtime refs
//! count as its extensions, what they are called and which are installed.

use vstd::prelude::*;
use crate::text::{
    contains_seq, has_prefix, join, join_exec, chars_of, string_of, lowercase, unicode_lowercase,
    find, str_starts_with, str_eq, strings_view, opt_view, push_str, push_all,
};
use crate::metainfo::{lm_view, lm_get, lm_set, lm_get_exec, lm_set_exec};
use crate::fields::vecs_view;

verus! {

/// The parts of `s` between occurrences of `c` (`str::split`).
pub open spec fn split_char(s: Seq<char>, c: char) -> Seq<Seq<char>>
    decreases s.len(),
{
    if s.len() == 0 {
        seq![Seq::<char>::empty()]
    } else {
        let r = split_char(s.drop_last(), c);
        if s.last() == c {
            r.push(Seq::<char>::empty())
        } else {
            r.update(r.len() - 1, r.last().push(s.last()))
        }
    }
}

pub proof fn lemma_split_nonempty(s: Seq<char>, c: char)
    ensures
        split_char(s, c).len() >= 1,
    decreases s.len(),
{
    if s.len() > 0 {
        lemma_split_nonempty(s.drop_last(), c);
    }
}

/// Splits `s` at every `c`.
pub fn split_char_exec(s: &str, c: char) -> (r: Vec<Vec<char>>)
    ensures
        vecs_view(r@) == split_char(s@, c),
{
    let cs = chars_of(s);
    let mut parts: Vec<Vec<char>> = Vec::new();
    parts.push(Vec::new());
    assert(vecs_view(parts@) =~= split_char(cs@.subrange(0, 0), c));
    let mut i: usize = 0;
    while i < cs.len()
        invariant
            0 <= i <= cs@.len(),
            cs@ == s@,
            vecs_view(parts@) == split_char(cs@.subrange(0, i as int), c),
            parts@.len() >= 1,
        decreases cs@.len() - i,
    {
        let ghost pre = cs@.subrange(0, i as int);
        assert(cs@.subrange(0, i + 1).drop_last() =~= pre);
        let ch = cs[i];
        if ch == c {
            let fresh: Vec<char> = Vec::new();
            proof {
                crate::fields::lemma_vecs_view_push(parts@, fresh);
            }
            parts.push(fresh);
            assert(vecs_view(parts@) =~= split_char(cs@.subrange(0, i + 1), c));
        } else {
            let mut last = parts.pop().unwrap();
            let ghost before = parts@;
            last.push(ch);
            proof {
                crate::fields::lemma_vecs_view_push(parts@, last);
            }
            parts.push(last);
            assert(vecs_view(parts@) =~= split_char(cs@.subrange(0, i + 1), c));
        }
        i += 1;
    }
    assert(cs@.subrange(0, i as int) =~= s@);
    parts
}

/// Words that only say what kind of extension it is; a fallback name drops
/// the first of them.
pub open spec fn kind_words() -> Seq<Seq<char>> {
    seq![
        "Utility"@,
        "CompatibilityTool"@,
        "Extension"@,
        "Plugin"@,
        "Addon"@,
        "Compat"@,
        "GL"@,
        "GL32"@,
        "Platform"@,
    ]
}

/// What `char::to_uppercase` turns a character into.
pub uninterp spec fn char_upper(c: char) -> Seq<char>;

/// Upper-cases a character with `char::to_uppercase`; the result is named by
/// `char_upper`.
#[verifier::external_body]
fn upper_of(c: char) -> (r: String)
    ensures
        r@ == char_upper(c),
{
    c.to_uppercase().to_string()
}

/// Underscores and hyphens become spaces.
pub open spec fn spaced(s: Seq<char>) -> Seq<char> {
    s.map_values(|ch: char| if ch == '_' || ch == '-' { ' ' } else { ch })
}

/// The name shown for an extension that has none of its own, made from the
/// part of its id after the application's: dot-separated words (a leading
/// kind word dropped when more follow), joined by spaces, with underscores
/// and hyphens as spaces and the first letter upper-cased.
pub open spec fn spec_fallback_name(suffix: Seq<char>) -> Seq<char> {
    let parts = split_char(suffix, '.');
    let kept = if parts.len() > 1 && kind_words().contains(parts[0]) {
        parts.drop_first()
    } else {
        parts
    };
    let s = spaced(join(kept, " "@));
    if s.len() == 0 {
        suffix
    } else {
        char_upper(s[0]) + s.drop_first()
    }
}

fn is_kind_word(w: &Vec<char>) -> (r: bool)
    ensures
        r == kind_words().contains(w@),
{
    let words: [&str; 9] = [
        "Utility",
        "CompatibilityTool",
        "Extension",
        "Plugin",
        "Addon",
        "Compat",
        "GL",
        "GL32",
        "Platform",
    ];
    assert(words@.map_values(|x: &str| x@) =~= kind_words());
    let ws = string_of(w);
    let mut i: usize = 0;
    while i < 9
        invariant
            0 <= i <= 9,
            ws@ == w@,
            words@.map_values(|x: &str| x@) == kind_words(),
            forall|j: int| 0 <= j < i ==> kind_words()[j] != w@,
        decreases 9 - i,
    {
        if str_eq(words[i], ws.as_str()) {
            assert(kind_words()[i as int] == w@);
            return true;
        }
        i += 1;
    }
    false
}

/// The name shown for an extension that has none of its own.
pub fn fallback_name(suffix: &str) -> (r: String)
    ensures
        r@ == spec_fallback_name(suffix@),
{
    let parts = split_char_exec(suffix, '.');
    proof {
        lemma_split_nonempty(suffix@, '.');
    }
    let mut kept: Vec<Vec<char>> = parts;
    let ghost all = vecs_view(kept@);
    if kept.len() > 1 && is_kind_word(&kept[0]) {
        kept.remove(0);
        assert(vecs_view(kept@) =~= all.drop_first());
    }
    let joined = join_exec(&kept, " ");
    let mut s: Vec<char> = Vec::new();
    let mut i: usize = 0;
    while i < joined.len()
        invariant
            0 <= i <= joined@.len(),
            s@ == spaced(joined@.subrange(0, i as int)),
        decreases joined@.len() - i,
    {
        let ch = joined[i];
        s.push(if ch == '_' || ch == '-' {
            ' '
        } else {
            ch
        });
        i += 1;
        assert(s@ =~= spaced(joined@.subrange(0, i as int)));
    }
    assert(joined@.subrange(0, i as int) =~= joined@);
    if s.len() == 0 {
        return suffix.to_string();
    }
    let first = upper_of(s[0]);
    let mut out: Vec<char> = chars_of(first.as_str());
    let mut k: usize = 1;
    while k < s.len()
        invariant
            1 <= k <= s@.len(),
            out@ == char_upper(s@[0]) + s@.subrange(1, k as int),
        decreases s@.len() - k,
    {
        out.push(s[k]);
        k += 1;
        assert(out@ =~= char_upper(s@[0]) + s@.subrange(1, k as int));
    }
    assert(s@.subrange(1, k as int) =~= s@.drop_first());
    string_of(&out)
}

/// Debug symbols, sources and translations are not offered.
pub open spec fn spec_should_filter(suffix: Seq<char>) -> bool {
    let l = unicode_lowercase(suffix);
    contains_seq(l, "debug"@) || contains_seq(l, "sources"@) || contains_seq(l, "locale"@)
}

/// Whether an extension is hidden (debug symbols, sources, translations).
pub fn should_filter(suffix: &str) -> (r: bool)
    ensures
        r == spec_should_filter(suffix@),
{
    let l = lowercase(suffix);
    let lv = chars_of(l.as_str());
    find(&lv, &chars_of("debug")).is_some() || find(&lv, &chars_of("sources")).is_some() || find(
        &lv,
        &chars_of("locale"),
    ).is_some()
}


/// An installed runtime ref, with the name its appdata gives (if any).
#[derive(Clone, Debug)]
pub struct InstalledExtension {
    pub name: String,
    pub appdata_name: Option<String>,
}

/// A ref listed by a remote, with the name the catalog gives it (if any).
#[derive(Clone, Debug)]
pub struct RemoteExtension {
    pub remote: String,
    pub name: String,
    pub branch: Option<String>,
    pub is_runtime: bool,
    pub catalog_name: Option<String>,
}

/// An extension as offered: id, name, version (branch), whether installed,
/// and the remote it comes from (none for one only found installed).
#[derive(Clone, Debug)]
pub struct ExtensionRow {
    pub id: String,
    pub name: String,
    pub version: String,
    pub installed: bool,
    pub remote: Option<String>,
}

pub type RowView = (Seq<char>, Seq<char>, Seq<char>, bool, Option<Seq<char>>);

pub open spec fn row_view(r: ExtensionRow) -> RowView {
    (r.id@, r.name@, r.version@, r.installed, opt_view(r.remote))
}

pub open spec fn rows_view(v: Seq<ExtensionRow>) -> Seq<RowView> {
    v.map_values(|r: ExtensionRow| row_view(r))
}

/// The name shown for an installed extension: its appdata name when it has
/// a non-empty one, else the fallback name.
pub open spec fn installed_display(ie: InstalledExtension, suffix: Seq<char>) -> Seq<char> {
    match ie.appdata_name {
        Some(n) => if n@.len() > 0 {
            n@
        } else {
            spec_fallback_name(suffix)
        },
        None => spec_fallback_name(suffix),
    }
}

/// The installed extensions of the application (id → name shown).
pub open spec fn installed_names(v: Seq<InstalledExtension>, prefix: Seq<char>) -> Seq<
    (Seq<char>, Seq<char>),
>
    decreases v.len(),
{
    if v.len() == 0 {
        Seq::empty()
    } else {
        let m = installed_names(v.drop_last(), prefix);
        let ie = v.last();
        let suffix = ie.name@.skip(prefix.len() as int);
        if has_prefix(ie.name@, prefix) && !spec_should_filter(suffix) {
            lm_set(m, ie.name@, installed_display(ie, suffix))
        } else {
            m
        }
    }
}

/// The remote refs offered: each runtime ref of the application once (the
/// first listing counts), hidden kinds left out; named after the installed
/// copy, else the catalog, else the fallback name. Also returns the ids seen.
pub open spec fn scan_remote(
    inst: Seq<(Seq<char>, Seq<char>)>,
    refs: Seq<RemoteExtension>,
    prefix: Seq<char>,
) -> (Seq<Seq<char>>, Seq<RowView>)
    decreases refs.len(),
{
    if refs.len() == 0 {
        (Seq::empty(), Seq::empty())
    } else {
        let (seen, rows) = scan_remote(inst, refs.drop_last(), prefix);
        let r = refs.last();
        let name = r.name@;
        if !r.is_runtime || !has_prefix(name, prefix) || seen.contains(name) {
            (seen, rows)
        } else {
            let suffix = name.skip(prefix.len() as int);
            if spec_should_filter(suffix) {
                (seen.push(name), rows)
            } else {
                let display = match lm_get(inst, name) {
                    Some(d) => d,
                    None => match r.catalog_name {
                        Some(c) => c@,
                        None => spec_fallback_name(suffix),
                    },
                };
                let version = match r.branch {
                    Some(b) => b@,
                    None => Seq::empty(),
                };
                (
                    seen.push(name),
                    rows.push((name, display, version, lm_get(inst, name) is Some, Some(r.remote@))),
                )
            }
        }
    }
}

/// Installed extensions that no remote lists.
pub open spec fn leftovers(inst: Seq<(Seq<char>, Seq<char>)>, seen: Seq<Seq<char>>) -> Seq<RowView>
    decreases inst.len(),
{
    if inst.len() == 0 {
        Seq::empty()
    } else {
        let r = leftovers(inst.drop_last(), seen);
        let (id, name) = inst.last();
        if seen.contains(id) {
            r
        } else {
            r.push((id, name, Seq::empty(), true, None))
        }
    }
}

/// The extensions offered for an application.
pub open spec fn extension_rows(
    app_id: Seq<char>,
    installed: Seq<InstalledExtension>,
    refs: Seq<RemoteExtension>,
) -> Seq<RowView> {
    let prefix = app_id + "."@;
    let inst = installed_names(installed, prefix);
    let (seen, rows) = scan_remote(inst, refs, prefix);
    rows + leftovers(inst, seen)
}

fn suffix_after(name: &str, prefix_len: usize) -> (r: String)
    requires
        prefix_len <= name@.len(),
    ensures
        r@ == name@.skip(prefix_len as int),
{
    let cs = chars_of(name);
    let v = crate::text::slice_to_vec(&cs, prefix_len, cs.len());
    assert(v@ =~= name@.skip(prefix_len as int));
    string_of(&v)
}

fn seen_contains(seen: &Vec<String>, name: &str) -> (r: bool)
    ensures
        r == strings_view(seen@).contains(name@),
{
    let mut i: usize = 0;
    while i < seen.len()
        invariant
            0 <= i <= seen@.len(),
            forall|j: int| 0 <= j < i ==> strings_view(seen@)[j] != name@,
        decreases seen@.len() - i,
    {
        if str_eq(seen[i].as_str(), name) {
            assert(strings_view(seen@)[i as int] == name@);
            return true;
        }
        i += 1;
    }
    false
}

/// The installed extensions of the application (id → name shown).
pub fn installed_names_exec(v: &Vec<InstalledExtension>, prefix: &str) -> (r: Vec<(String, String)>)
    ensures
        lm_view(r@) == installed_names(v@, prefix@),
{
    let pl = chars_of(prefix).len();
    let mut m: Vec<(String, String)> = Vec::new();
    assert(lm_view(m@) =~= Seq::<(Seq<char>, Seq<char>)>::empty());
    let mut i: usize = 0;
    while i < v.len()
        invariant
            0 <= i <= v@.len(),
            pl == prefix@.len(),
            lm_view(m@) == installed_names(v@.subrange(0, i as int), prefix@),
        decreases v@.len() - i,
    {
        assert(v@.subrange(0, i + 1).drop_last() =~= v@.subrange(0, i as int));
        let ie = &v[i];
        if str_starts_with(ie.name.as_str(), prefix) {
            let suffix = suffix_after(ie.name.as_str(), pl);
            if !should_filter(suffix.as_str()) {
                let display = match &ie.appdata_name {
                    Some(n) => if chars_of(n.as_str()).len() > 0 {
                        n.clone()
                    } else {
                        fallback_name(suffix.as_str())
                    },
                    None => fallback_name(suffix.as_str()),
                };
                m = lm_set_exec(m, ie.name.clone(), display);
            }
        }
        i += 1;
    }
    assert(v@.subrange(0, i as int) =~= v@);
    m
}

pub proof fn lemma_rows_push(v: Seq<ExtensionRow>, r: ExtensionRow)
    ensures
        rows_view(v.push(r)) == rows_view(v).push(row_view(r)),
{
    assert(rows_view(v.push(r)) =~= rows_view(v).push(row_view(r)));
}

/// The extensions offered for an application, from its installed runtime
/// refs and the refs its remotes list.
pub fn assemble_extensions(
    app_id: &str,
    installed: &Vec<InstalledExtension>,
    refs: &Vec<RemoteExtension>,
) -> (r: Vec<ExtensionRow>)
    ensures
        rows_view(r@) == extension_rows(app_id@, installed@, refs@),
{
    let mut pv: Vec<char> = chars_of(app_id);
    pv.push('.');
    let prefix = string_of(&pv);
    proof {
        reveal_strlit(".");
    }
    assert(prefix@ =~= app_id@ + "."@);
    let pl = pv.len();
    let inst = installed_names_exec(installed, prefix.as_str());
    let mut seen: Vec<String> = Vec::new();
    let mut rows: Vec<ExtensionRow> = Vec::new();
    assert(strings_view(seen@) =~= Seq::<Seq<char>>::empty());
    assert(rows_view(rows@) =~= Seq::<RowView>::empty());
    let mut i: usize = 0;
    while i < refs.len()
        invariant
            0 <= i <= refs@.len(),
            pl == prefix@.len(),
            prefix@ == app_id@ + "."@,
            lm_view(inst@) == installed_names(installed@, prefix@),
            (strings_view(seen@), rows_view(rows@)) == scan_remote(
                lm_view(inst@),
                refs@.subrange(0, i as int),
                prefix@,
            ),
        decreases refs@.len() - i,
    {
        assert(refs@.subrange(0, i + 1).drop_last() =~= refs@.subrange(0, i as int));
        let r = &refs[i];
        let name = r.name.as_str();
        if r.is_runtime && str_starts_with(name, prefix.as_str()) && !seen_contains(&seen, name) {
            let suffix = suffix_after(name, pl);
            proof {
                crate::fields::lemma_strings_view_push(seen@, r.name);
            }
            seen.push(r.name.clone());
            if !should_filter(suffix.as_str()) {
                let known = lm_get_exec(&inst, name);
                let installed_here = known.is_some();
                let display = match known {
                    Some(d) => d,
                    None => match &r.catalog_name {
                        Some(c) => c.clone(),
                        None => fallback_name(suffix.as_str()),
                    },
                };
                let version = match &r.branch {
                    Some(b) => b.clone(),
                    None => String::new(),
                };
                let row = ExtensionRow {
                    id: r.name.clone(),
                    name: display,
                    version,
                    installed: installed_here,
                    remote: Some(r.remote.clone()),
                };
                proof {
                    lemma_rows_push(rows@, row);
                }
                rows.push(row);
            }
        }
        i += 1;
    }
    assert(refs@.subrange(0, i as int) =~= refs@);
    let ghost base = rows_view(rows@);
    let mut k: usize = 0;
    while k < inst.len()
        invariant
            0 <= k <= inst@.len(),
            rows_view(rows@) == base + leftovers(lm_view(inst@).subrange(0, k as int), strings_view(seen@)),
        decreases inst@.len() - k,
    {
        assert(lm_view(inst@).subrange(0, k + 1).drop_last() =~= lm_view(inst@).subrange(0, k as int));
        let (id, nm) = (&inst[k].0, &inst[k].1);
        if !seen_contains(&seen, id.as_str()) {
            let row = ExtensionRow {
                id: id.clone(),
                name: nm.clone(),
                version: String::new(),
                installed: true,
                remote: None,
            };
            proof {
                lemma_rows_push(rows@, row);
            }
            rows.push(row);
            assert(rows_view(rows@) =~= base + leftovers(
                lm_view(inst@).subrange(0, k + 1),
                strings_view(seen@),
            ));
        }
        k += 1;
    }
    assert(lm_view(inst@).subrange(0, k as int) =~= lm_view(inst@));
    rows
}

} // verus!
