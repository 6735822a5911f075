//! Recognising package files and turning the program's launch arguments into
//! what the window should open with.

use vstd::prelude::*;
use crate::text::{
    strip_all_prefix, path_file_name, opt_view, strings_view, file_name, has_prefix, str_starts_with,has_suffix, strip_suffix, strip_prefix, before_char, unicode_lowercase, chars_of, string_of, lowercase, str_ends_with, ends_with, starts_with, slice_to_vec, before_ch};
use crate::distrobox::{name_before_version, strip_version_suffix, char_vecs_of};
use crate::fields::{vecs_view, lemma_vecs_view_push};

verus! {

/// Lower-cased `path` ends with `suffix`.
pub open spec fn lower_has_suffix(path: Seq<char>, suffix: Seq<char>) -> bool {
    has_suffix(unicode_lowercase(path), suffix)
}

/// A file that can be installed as a package: Debian, RPM or Arch archives,
/// AppImages and Flatpak bundles, regardless of the case of the extension.
pub open spec fn spec_is_pkg_file(path: Seq<char>) -> bool {
    ||| lower_has_suffix(path, ".deb"@)
    ||| lower_has_suffix(path, ".rpm"@)
    ||| lower_has_suffix(path, ".pkg.tar.xz"@)
    ||| lower_has_suffix(path, ".pkg.tar.zst"@)
    ||| lower_has_suffix(path, ".appimage"@)
    ||| lower_has_suffix(path, ".flatpak"@)
}

/// Whether the lower-cased string `lower` ends with `suffix`.
fn lower_ends_with(lower: &String, suffix: &str) -> (r: bool)
    ensures
        r == has_suffix(lower@, suffix@),
{
    str_ends_with(lower.as_str(), suffix)
}

/// Whether `path` names an installable package file.
pub fn is_pkg_file(path: &str) -> (r: bool)
    ensures
        r == spec_is_pkg_file(path@),
{
    let lower = lowercase(path);
    lower_ends_with(&lower, ".deb") || lower_ends_with(&lower, ".rpm") || lower_ends_with(
        &lower,
        ".pkg.tar.xz",
    ) || lower_ends_with(&lower, ".pkg.tar.zst") || lower_ends_with(&lower, ".appimage")
        || lower_ends_with(&lower, ".flatpak")
}

/// Whether `path` names a Flatpak bundle.
pub fn is_flatpak_bundle(path: &str) -> (r: bool)
    ensures
        r == lower_has_suffix(path@, ".flatpak"@),
{
    let lower = lowercase(path);
    lower_ends_with(&lower, ".flatpak")
}

/// Whether `path` names a `.flatpakrepo` file.
pub fn is_flatpakrepo(path: &str) -> (r: bool)
    ensures
        r == lower_has_suffix(path@, ".flatpakrepo"@),
{
    let lower = lowercase(path);
    lower_ends_with(&lower, ".flatpakrepo")
}

/// Whether `path` names a `.flatpakref` file.
pub fn is_flatpakref(path: &str) -> (r: bool)
    ensures
        r == lower_has_suffix(path@, ".flatpakref"@),
{
    let lower = lowercase(path);
    lower_ends_with(&lower, ".flatpakref")
}

/// Whether `path` names an AppImage.
pub fn is_appimage(path: &str) -> (r: bool)
    ensures
        r == lower_has_suffix(path@, ".appimage"@),
{
    let lower = lowercase(path);
    lower_ends_with(&lower, ".appimage")
}

/// `s` without `suffix` if it ends with it, else `s` itself.
pub open spec fn without_suffix(s: Seq<char>, suffix: Seq<char>) -> Seq<char> {
    match strip_suffix(s, suffix) {
        Some(x) => x,
        None => s,
    }
}

/// `s` without `prefix` if it starts with it, else `s` itself.
pub open spec fn without_prefix(s: Seq<char>, prefix: Seq<char>) -> Seq<char> {
    match strip_prefix(s, prefix) {
        Some(x) => x,
        None => s,
    }
}

/// A file name without the first of the archive, AppImage or bundle
/// extensions that it ends with (matched exactly as written).
pub open spec fn without_archive_ext(f: Seq<char>) -> Seq<char> {
    if has_suffix(f, ".pkg.tar.zst"@) {
        without_suffix(f, ".pkg.tar.zst"@)
    } else if has_suffix(f, ".pkg.tar.xz"@) {
        without_suffix(f, ".pkg.tar.xz"@)
    } else if has_suffix(f, ".appimage"@) {
        without_suffix(f, ".appimage"@)
    } else if has_suffix(f, ".AppImage"@) {
        without_suffix(f, ".AppImage"@)
    } else {
        without_suffix(f, ".flatpak"@)
    }
}

/// The package name that a file name carries: for `.deb` what precedes the
/// first `_`; for `.rpm` the name before a `-` that is followed by a digit;
/// otherwise what precedes the first `-` once the extension is gone.
pub open spec fn spec_pkg_name(f: Seq<char>) -> Seq<char> {
    if has_suffix(f, ".deb"@) {
        before_char(f, '_')
    } else if has_suffix(f, ".rpm"@) {
        name_before_version(without_suffix(f, ".rpm"@))
    } else {
        before_char(without_archive_ext(f), '-')
    }
}

/// `s` without `suffix`, if it ends with it.
pub fn drop_suffix(s: &[char], suffix: &str) -> (r: Option<Vec<char>>)
    ensures
        match r {
            Some(x) => strip_suffix(s@, suffix@) == Some(x@),
            None => strip_suffix(s@, suffix@) is None,
        },
{
    let p = chars_of(suffix);
    if ends_with(s, &p) {
        let x = slice_to_vec(s, 0, s.len() - p.len());
        assert(x@ =~= s@.take(s@.len() - p@.len()));
        Some(x)
    } else {
        None
    }
}

/// `s` without `prefix`, if it starts with it.
pub fn drop_prefix(s: &[char], prefix: &str) -> (r: Option<Vec<char>>)
    ensures
        match r {
            Some(x) => strip_prefix(s@, prefix@) == Some(x@),
            None => strip_prefix(s@, prefix@) is None,
        },
{
    let p = chars_of(prefix);
    if starts_with(s, &p) {
        let x = slice_to_vec(s, p.len(), s.len());
        assert(x@ =~= s@.skip(p@.len() as int));
        Some(x)
    } else {
        None
    }
}

/// `s` without `suffix` if it ends with it, else a copy of `s`.
pub fn drop_suffix_or_keep(s: &[char], suffix: &str) -> (r: Vec<char>)
    ensures
        r@ == without_suffix(s@, suffix@),
{
    match drop_suffix(s, suffix) {
        Some(x) => x,
        None => slice_to_vec(s, 0, s.len()),
    }
}

/// `s` without `prefix` if it starts with it, else a copy of `s`.
pub fn drop_prefix_or_keep(s: &[char], prefix: &str) -> (r: Vec<char>)
    ensures
        r@ == without_prefix(s@, prefix@),
{
    match drop_prefix(s, prefix) {
        Some(x) => x,
        None => slice_to_vec(s, 0, s.len()),
    }
}

/// The package name carried by a package file's name.
pub fn pkg_name_from_filename(filename: &str) -> (r: String)
    ensures
        r@ == spec_pkg_name(filename@),
{
    let f = chars_of(filename);
    if str_ends_with(filename, ".deb") {
        let n = before_ch(&f, '_');
        return string_of(&n);
    }
    if str_ends_with(filename, ".rpm") {
        let no_ext = drop_suffix_or_keep(&f, ".rpm");
        let s = string_of(&no_ext);
        return strip_version_suffix(s.as_str());
    }
    let no_ext = if str_ends_with(filename, ".pkg.tar.zst") {
        drop_suffix_or_keep(&f, ".pkg.tar.zst")
    } else if str_ends_with(filename, ".pkg.tar.xz") {
        drop_suffix_or_keep(&f, ".pkg.tar.xz")
    } else if str_ends_with(filename, ".appimage") {
        drop_suffix_or_keep(&f, ".appimage")
    } else if str_ends_with(filename, ".AppImage") {
        drop_suffix_or_keep(&f, ".AppImage")
    } else {
        drop_suffix_or_keep(&f, ".flatpak")
    };
    let n = before_ch(&no_ext, '-');
    string_of(&n)
}


/// What the window opens with.
#[derive(Debug, PartialEq, Eq)]
pub enum LaunchIntent {
    /// The detail page of an app.
    Detail { pkg_id: String },
    /// Install from a `.flatpakref`, given by URL or as a local file.
    InstallFlatpakref { source: String, is_local_file: bool },
    /// Add the repository that a `.flatpakrepo` file describes.
    AddRepo { content: String },
    /// Install a package file.
    InstallFile {
        path: String,
        file_name: String,
        pkg_name: String,
        is_appimage: bool,
        is_bundle: bool,
    },
}

/// What the launch arguments ask for: an intent, or the contents of a
/// `.flatpakrepo` file to be read before there is one.
#[derive(Debug, PartialEq, Eq)]
pub enum ArgsAction {
    Open(LaunchIntent),
    ReadRepo { path: String },
}

/// The text view of a launch intent.
pub enum IntentView {
    Detail(Seq<char>),
    Flatpakref(Seq<char>, bool),
    AddRepo(Seq<char>),
    File(Seq<char>, Seq<char>, Seq<char>, bool, bool),
}

/// The text view of what the launch arguments ask for.
pub enum ActionView {
    Open(IntentView),
    ReadRepo(Seq<char>),
}

impl LaunchIntent {
    /// The intent with its strings taken as text.
    pub open spec fn view(self) -> IntentView {
        match self {
            LaunchIntent::Detail { pkg_id } => IntentView::Detail(pkg_id@),
            LaunchIntent::InstallFlatpakref { source, is_local_file } => IntentView::Flatpakref(
                source@,
                is_local_file,
            ),
            LaunchIntent::AddRepo { content } => IntentView::AddRepo(content@),
            LaunchIntent::InstallFile { path, file_name, pkg_name, is_appimage, is_bundle } =>
                IntentView::File(path@, file_name@, pkg_name@, is_appimage, is_bundle),
        }
    }
}

impl ArgsAction {
    /// The action with its strings taken as text.
    pub open spec fn view(self) -> ActionView {
        match self {
            ArgsAction::Open(i) => ActionView::Open(i.view()),
            ArgsAction::ReadRepo { path } => ActionView::ReadRepo(path@),
        }
    }
}

/// An `appstream:` link.
pub open spec fn is_appstream_arg(a: Seq<char>) -> bool {
    has_prefix(a, "appstream://"@) || has_prefix(a, "appstream:"@)
}

/// The app id that an `appstream:` link names.
pub open spec fn appstream_id(a: Seq<char>) -> Seq<char> {
    let id = strip_all_prefix(
        strip_all_prefix(
            strip_all_prefix(strip_all_prefix(a, "appstream://"@), "appstream:"@),
            "//"@,
        ),
        "/"@,
    );
    without_suffix(id, ".desktop"@)
}

/// A `flatpak+http(s)://` link.
pub open spec fn is_flatpak_link(a: Seq<char>) -> bool {
    has_prefix(a, "flatpak+https://"@) || has_prefix(a, "flatpak+http://"@)
}

/// The Flathub app id that a `.flatpakref` URL on Flathub's appstream path names.
pub open spec fn flathub_id(url: Seq<char>) -> Option<Seq<char>> {
    let after = match strip_prefix(url, "https://dl.flathub.org/repo/appstream/"@) {
        Some(x) => Some(x),
        None => strip_prefix(url, "http://dl.flathub.org/repo/appstream/"@),
    };
    match after {
        Some(x) => strip_suffix(x, ".flatpakref"@),
        None => None,
    }
}

/// The index of the first argument at or after `from` that `p` accepts.
pub open spec fn first_index(args: Seq<Seq<char>>, p: spec_fn(Seq<char>) -> bool, from: int) -> Option<
    int,
>
    decreases args.len() - from,
{
    if from < 0 || from >= args.len() {
        None
    } else if p(args[from]) {
        Some(from)
    } else {
        first_index(args, p, from + 1)
    }
}

/// A file argument without a leading `file://`.
pub open spec fn file_arg(a: Seq<char>) -> Seq<char> {
    without_prefix(a, "file://"@)
}

/// What a package-file argument opens.
pub open spec fn file_intent(path: Seq<char>) -> IntentView {
    let name = match path_file_name(path) {
        Some(n) => n,
        None => path,
    };
    IntentView::File(
        path,
        name,
        spec_pkg_name(name),
        lower_has_suffix(path, ".appimage"@),
        lower_has_suffix(path, ".flatpak"@),
    )
}

/// What the file arguments (every argument after the program name, without
/// `file://`) ask for: a `.flatpakref`, else a `.flatpakrepo`, else a package file.
pub open spec fn file_args_action(fs: Seq<Seq<char>>) -> Option<ActionView> {
    match first_index(fs, |a: Seq<char>| lower_has_suffix(a, ".flatpakref"@), 0) {
        Some(i) => Some(ActionView::Open(IntentView::Flatpakref(fs[i], true))),
        None => match first_index(fs, |a: Seq<char>| lower_has_suffix(a, ".flatpakrepo"@), 0) {
            Some(i) => Some(ActionView::ReadRepo(fs[i])),
            None => match first_index(fs, |a: Seq<char>| spec_is_pkg_file(a), 0) {
                Some(i) => Some(ActionView::Open(file_intent(fs[i]))),
                None => None,
            },
        },
    }
}

/// What the launch arguments (the program name first) ask for: an
/// `appstream:` link opens its app's page (when it names one); else a
/// `flatpak+` link opens a Flathub app's page or installs from the URL; else
/// the file arguments decide.
pub open spec fn spec_resolve_args(args: Seq<Seq<char>>) -> Option<ActionView> {
    let from_appstream = match first_index(args, |a: Seq<char>| is_appstream_arg(a), 0) {
        Some(i) => if appstream_id(args[i]).len() > 0 {
            Some(ActionView::Open(IntentView::Detail(appstream_id(args[i]))))
        } else {
            None
        },
        None => None,
    };
    match from_appstream {
        Some(a) => Some(a),
        None => match first_index(args, |a: Seq<char>| is_flatpak_link(a), 0) {
            Some(i) => {
                let url = strip_all_prefix(args[i], "flatpak+"@);
                match flathub_id(url) {
                    Some(id) => Some(ActionView::Open(IntentView::Detail(id))),
                    None => Some(ActionView::Open(IntentView::Flatpakref(url, false))),
                }
            },
            None => if args.len() == 0 {
                None
            } else {
                file_args_action(args.skip(1).map_values(|a: Seq<char>| file_arg(a)))
            },
        },
    }
}

/// `s` with every leading repetition of `p` removed.
pub fn strip_all_prefix_exec(s: &[char], p: &str) -> (r: Vec<char>)
    ensures
        r@ == strip_all_prefix(s@, p@),
{
    let pv = chars_of(p);
    let mut cur = slice_to_vec(s, 0, s.len());
    assert(cur@ =~= s@);
    if pv.len() == 0 {
        return cur;
    }
    loop
        invariant
            pv@ == p@,
            pv@.len() > 0,
            strip_all_prefix(s@, p@) == strip_all_prefix(cur@, p@),
        decreases cur@.len(),
    {
        if !starts_with(&cur, &pv) {
            return cur;
        }
        cur = slice_to_vec(&cur, pv.len(), cur.len());
    }
}

/// The index of the first argument that satisfies `pred`, where `test` decides `pred`.
fn first_arg(args: &Vec<Vec<char>>, which: u8) -> (r: Option<usize>)
    requires
        which < 5,
    ensures
        match r {
            Some(i) => first_index(vecs_view(args@), arg_pred(which), 0) == Some(i as int),
            None => first_index(vecs_view(args@), arg_pred(which), 0) is None,
        },
{
    let mut i: usize = 0;
    while i < args.len()
        invariant
            which < 5,
            i <= args.len(),
            first_index(vecs_view(args@), arg_pred(which), 0) == first_index(
                vecs_view(args@),
                arg_pred(which),
                i as int,
            ),
        decreases args.len() - i,
    {
        assert(vecs_view(args@)[i as int] == args@[i as int]@);
        let s = string_of(&args[i]);
        let hit = if which == 0 {
            str_starts_with(s.as_str(), "appstream://") || str_starts_with(s.as_str(), "appstream:")
        } else if which == 1 {
            str_starts_with(s.as_str(), "flatpak+https://") || str_starts_with(
                s.as_str(),
                "flatpak+http://",
            )
        } else if which == 2 {
            is_flatpakref(s.as_str())
        } else if which == 3 {
            is_flatpakrepo(s.as_str())
        } else {
            is_pkg_file(s.as_str())
        };
        if hit {
            return Some(i);
        }
        i = i + 1;
    }
    None
}

/// The argument tests used by `spec_resolve_args`, by number.
pub open spec fn arg_pred(which: u8) -> spec_fn(Seq<char>) -> bool {
    if which == 0 {
        |a: Seq<char>| is_appstream_arg(a)
    } else if which == 1 {
        |a: Seq<char>| is_flatpak_link(a)
    } else if which == 2 {
        |a: Seq<char>| lower_has_suffix(a, ".flatpakref"@)
    } else if which == 3 {
        |a: Seq<char>| lower_has_suffix(a, ".flatpakrepo"@)
    } else {
        |a: Seq<char>| spec_is_pkg_file(a)
    }
}

/// The character vectors of the file arguments.
fn file_args_of(args: &Vec<Vec<char>>) -> (r: Vec<Vec<char>>)
    requires
        args.len() > 0,
    ensures
        vecs_view(r@) == vecs_view(args@).skip(1).map_values(|a: Seq<char>| file_arg(a)),
{
    let mut r: Vec<Vec<char>> = Vec::new();
    let mut i: usize = 1;
    while i < args.len()
        invariant
            1 <= i <= args.len(),
            vecs_view(r@) == vecs_view(args@).subrange(1, i as int).map_values(
                |a: Seq<char>| file_arg(a),
            ),
        decreases args.len() - i,
    {
        let f = drop_prefix_or_keep(&args[i], "file://");
        proof { lemma_vecs_view_push(r@, f); }
        r.push(f);
        assert(vecs_view(r@) =~= vecs_view(args@).subrange(1, i + 1).map_values(
            |a: Seq<char>| file_arg(a),
        ));
        i = i + 1;
    }
    assert(vecs_view(args@).subrange(1, args.len() as int) =~= vecs_view(args@).skip(1));
    r
}

/// When the launch arguments open a package file, that file is one of the
/// arguments after the program name (without `file://`) and is an installable
/// package file; it is flagged as an AppImage exactly when its lower-cased
/// path ends in `.appimage`, and as a Flatpak bundle exactly when it ends in
/// `.flatpak`. The file name it carries is the path's last component (the
/// whole path when it has none).
pub proof fn law_package_file_flags(args: Seq<Seq<char>>)
    ensures
        spec_resolve_args(args) matches Some(ActionView::Open(IntentView::File(p, n, _k, a, b)))
            ==> {
            &&& n == match path_file_name(p) {
                Some(x) => x,
                None => p,
            }
            &&& a == has_suffix(unicode_lowercase(p), ".appimage"@)
            &&& b == has_suffix(unicode_lowercase(p), ".flatpak"@)
            &&& spec_is_pkg_file(p)
            &&& exists|j: int| 1 <= j < args.len() && p == file_arg(#[trigger] args[j])
        },
{
    if let Some(ActionView::Open(IntentView::File(p, n, _k, a, b))) = spec_resolve_args(args) {
        let fs = args.skip(1).map_values(|x: Seq<char>| file_arg(x));
        lemma_first_index_bounds(fs, |x: Seq<char>| spec_is_pkg_file(x), 0);
        lemma_first_index_bounds(fs, |x: Seq<char>| lower_has_suffix(x, ".flatpakref"@), 0);
        lemma_first_index_bounds(fs, |x: Seq<char>| lower_has_suffix(x, ".flatpakrepo"@), 0);
        let i = first_index(fs, |x: Seq<char>| spec_is_pkg_file(x), 0).unwrap();
        assert(fs[i] == file_arg(args[i + 1]));
    }
}

/// A `.flatpakref` installed from the arguments is either a local file (one
/// of the arguments after the program name, without `file://`, ending in
/// `.flatpakref` in any case) or the URL of a `flatpak+` link argument with
/// that prefix dropped; a repository read from the arguments is a local
/// `.flatpakrepo` file among them. A local `.flatpakref` is chosen over a
/// `.flatpakrepo` and over package files when no link argument decides.
pub proof fn law_flatpakref_and_repo_sources(args: Seq<Seq<char>>)
    ensures
        spec_resolve_args(args) matches Some(ActionView::Open(IntentView::Flatpakref(src, local)))
            ==> {
            &&& local ==> has_suffix(unicode_lowercase(src), ".flatpakref"@) && exists|j: int|
                1 <= j < args.len() && src == file_arg(#[trigger] args[j])
            &&& !local ==> exists|j: int|
                0 <= j < args.len() && is_flatpak_link(#[trigger] args[j]) && src == strip_all_prefix(
                    args[j],
                    "flatpak+"@,
                )
        },
        spec_resolve_args(args) matches Some(ActionView::ReadRepo(p)) ==> {
            &&& has_suffix(unicode_lowercase(p), ".flatpakrepo"@)
            &&& exists|j: int| 1 <= j < args.len() && p == file_arg(#[trigger] args[j])
        },
        (forall|j: int| 0 <= j < args.len() ==> !is_appstream_arg(#[trigger] args[j]) && !is_flatpak_link(args[j]))
            && (exists|j: int| 1 <= j < args.len() && has_suffix(unicode_lowercase(file_arg(#[trigger] args[j])), ".flatpakref"@))
            ==> spec_resolve_args(args) matches Some(ActionView::Open(IntentView::Flatpakref(_, true))),
{
    let fs = args.skip(1).map_values(|x: Seq<char>| file_arg(x));
    lemma_first_index_bounds(args, |a: Seq<char>| is_appstream_arg(a), 0);
    lemma_first_index_bounds(args, |a: Seq<char>| is_flatpak_link(a), 0);
    lemma_first_index_bounds(fs, |x: Seq<char>| lower_has_suffix(x, ".flatpakref"@), 0);
    lemma_first_index_bounds(fs, |x: Seq<char>| lower_has_suffix(x, ".flatpakrepo"@), 0);
    if args.len() > 0 {
        if let Some(i) = first_index(fs, |x: Seq<char>| lower_has_suffix(x, ".flatpakref"@), 0) {
            assert(fs[i] == file_arg(args[i + 1]));
        }
        if let Some(i) = first_index(fs, |x: Seq<char>| lower_has_suffix(x, ".flatpakrepo"@), 0) {
            assert(fs[i] == file_arg(args[i + 1]));
        }
    }
    if (forall|j: int| 0 <= j < args.len() ==> !is_appstream_arg(#[trigger] args[j]) && !is_flatpak_link(args[j]))
        && (exists|j: int| 1 <= j < args.len() && has_suffix(unicode_lowercase(file_arg(#[trigger] args[j])), ".flatpakref"@)) {
        let j = choose|j: int| 1 <= j < args.len() && has_suffix(unicode_lowercase(file_arg(#[trigger] args[j])), ".flatpakref"@);
        lemma_first_index_none(args, |a: Seq<char>| is_appstream_arg(a), 0);
        lemma_first_index_none(args, |a: Seq<char>| is_flatpak_link(a), 0);
        assert(fs[j - 1] == file_arg(args[j]));
        lemma_first_index_found(fs, |x: Seq<char>| lower_has_suffix(x, ".flatpakref"@), 0, j - 1);
    }
}

/// No argument from `from` on is accepted: none is found.
pub proof fn lemma_first_index_none(args: Seq<Seq<char>>, p: spec_fn(Seq<char>) -> bool, from: int)
    requires
        forall|j: int| 0 <= j < args.len() ==> !p(#[trigger] args[j]),
    ensures
        first_index(args, p, from) is None,
    decreases args.len() - from,
{
    if from >= 0 && from < args.len() {
        lemma_first_index_none(args, p, from + 1);
    }
}

/// An accepted argument at or after `from` means one is found.
pub proof fn lemma_first_index_found(args: Seq<Seq<char>>, p: spec_fn(Seq<char>) -> bool, from: int, j: int)
    requires
        0 <= from <= j < args.len(),
        p(args[j]),
    ensures
        first_index(args, p, from) is Some,
    decreases j - from,
{
    if !p(args[from]) {
        lemma_first_index_found(args, p, from + 1, j);
    }
}

/// An id that a link can carry as it is: not empty, not starting with `/`,
/// without `:`.
pub open spec fn plain_link_id(d: Seq<char>) -> bool {
    d.len() > 0 && d[0] != '/' && forall|j: int| 0 <= j < d.len() ==> d[j] != ':'
}

/// The app id of `appstream://ID`, `appstream:ID`, or either with `.desktop`
/// after the id, is the id; so a program started with such a link as its only
/// argument opens that app's page.
pub proof fn law_appstream_link_opens_page(prog: Seq<char>, d: Seq<char>, scheme_slashes: bool, desktop: bool)
    requires
        plain_link_id(d),
        !has_suffix(d, ".desktop"@),
        !is_appstream_arg(prog),
    ensures
        ({
            let link = (if scheme_slashes { "appstream://"@ } else { "appstream:"@ }) + d + (if desktop {
                ".desktop"@
            } else {
                seq![]
            });
            &&& appstream_id(link) == d
            &&& spec_resolve_args(seq![prog, link]) == Some(ActionView::Open(IntentView::Detail(d)))
        }),
{
    reveal_strlit("appstream://");
    reveal_strlit("appstream:");
    reveal_strlit("//");
    reveal_strlit("/");
    reveal_strlit(".desktop");
    let head = if scheme_slashes { "appstream://"@ } else { "appstream:"@ };
    let tail = if desktop { ".desktop"@ } else { seq![] };
    let e = d + tail;
    let link = head + d + tail;
    assert(link =~= head + e);
    assert(e[0] == d[0]);
    assert forall|j: int| 0 <= j < e.len() implies e[j] != ':' by {
        if j < d.len() {
            assert(e[j] == d[j]);
        } else {
            assert(e[j] == tail[j - d.len()]);
        }
    }
    assert(!has_prefix(e, "appstream:"@)) by {
        if has_prefix(e, "appstream:"@) {
            assert(e.subrange(0, 10)[9] == e[9]);
        }
    }
    assert(!has_prefix(e, "appstream://"@)) by {
        if has_prefix(e, "appstream://"@) {
            assert(e.subrange(0, 12)[9] == e[9]);
        }
    }
    assert(!has_prefix(e, "//"@)) by {
        if has_prefix(e, "//"@) {
            assert(e.subrange(0, 2)[0] == e[0]);
        }
    }
    assert(!has_prefix(e, "/"@)) by {
        if has_prefix(e, "/"@) {
            assert(e.subrange(0, 1)[0] == e[0]);
        }
    }
    assert(link.skip(head.len() as int) =~= e);
    if scheme_slashes {
        assert(has_prefix(link, "appstream://"@)) by {
            assert(link.subrange(0, 12) =~= head);
        }
        assert(strip_all_prefix(link, "appstream://"@) == strip_all_prefix(e, "appstream://"@));
    } else {
        assert(!has_prefix(link, "appstream://"@)) by {
            if has_prefix(link, "appstream://"@) {
                assert(link[10] == "appstream://"@[10]);
                assert(link[10] == e[0]);
            }
        }
        assert(has_prefix(link, "appstream:"@)) by {
            assert(link.subrange(0, 10) =~= head);
        }
        assert(strip_all_prefix(link, "appstream:"@) == strip_all_prefix(e, "appstream:"@));
    }
    assert(appstream_id(link) == without_suffix(e, ".desktop"@));
    if desktop {
        assert(has_suffix(e, ".desktop"@)) by {
            assert(e.subrange(e.len() - 8, e.len() as int) =~= ".desktop"@);
        }
        assert(e.take(e.len() - 8) =~= d);
    } else {
        assert(e =~= d);
    }
    assert(is_appstream_arg(link)) by {
        if scheme_slashes {
            assert(link.subrange(0, 12) =~= "appstream://"@);
        } else {
            assert(link.subrange(0, 10) =~= "appstream:"@);
        }
    }
    let args = seq![prog, link];
    assert(args[0] == prog && args[1] == link);
    assert(first_index(args, |a: Seq<char>| is_appstream_arg(a), 1) == Some(1int));
    assert(first_index(args, |a: Seq<char>| is_appstream_arg(a), 0) == Some(1int));
}

/// What the launch arguments (the program name first) ask for.
pub fn resolve_args(args: &Vec<String>) -> (r: Option<ArgsAction>)
    ensures
        match r {
            Some(a) => spec_resolve_args(strings_view(args@)) == Some(a.view()),
            None => spec_resolve_args(strings_view(args@)) is None,
        },
        r matches Some(ArgsAction::Open(LaunchIntent::InstallFile { path, is_appimage, is_bundle, .. }))
            ==> is_appimage == has_suffix(unicode_lowercase(path@), ".appimage"@) && is_bundle
            == has_suffix(unicode_lowercase(path@), ".flatpak"@) && spec_is_pkg_file(path@),
{
    proof {
        law_package_file_flags(strings_view(args@));
    }
    let av = char_vecs_of(args);
    assert(arg_pred(0) == |a: Seq<char>| is_appstream_arg(a));
    assert(arg_pred(1) == |a: Seq<char>| is_flatpak_link(a));
    assert(arg_pred(2) == |a: Seq<char>| lower_has_suffix(a, ".flatpakref"@));
    assert(arg_pred(3) == |a: Seq<char>| lower_has_suffix(a, ".flatpakrepo"@));
    assert(arg_pred(4) == |a: Seq<char>| spec_is_pkg_file(a));
    if let Some(i) = first_arg(&av, 0) {
        proof { lemma_first_index_bounds(vecs_view(av@), arg_pred(0), 0); }
        let a1 = strip_all_prefix_exec(&av[i], "appstream://");
        let a2 = strip_all_prefix_exec(&a1, "appstream:");
        let a3 = strip_all_prefix_exec(&a2, "//");
        let a4 = strip_all_prefix_exec(&a3, "/");
        let id = drop_suffix_or_keep(&a4, ".desktop");
        assert(vecs_view(av@)[i as int] == av@[i as int]@);
        if id.len() > 0 {
            return Some(ArgsAction::Open(LaunchIntent::Detail { pkg_id: string_of(&id) }));
        }
    }
    if let Some(i) = first_arg(&av, 1) {
        proof { lemma_first_index_bounds(vecs_view(av@), arg_pred(1), 0); }
        assert(vecs_view(av@)[i as int] == av@[i as int]@);
        let url = strip_all_prefix_exec(&av[i], "flatpak+");
        let after = match drop_prefix(&url, "https://dl.flathub.org/repo/appstream/") {
            Some(x) => Some(x),
            None => drop_prefix(&url, "http://dl.flathub.org/repo/appstream/"),
        };
        let id = match after {
            Some(x) => drop_suffix(&x, ".flatpakref"),
            None => None,
        };
        return match id {
            Some(id) => Some(ArgsAction::Open(LaunchIntent::Detail { pkg_id: string_of(&id) })),
            None => Some(
                ArgsAction::Open(
                    LaunchIntent::InstallFlatpakref { source: string_of(&url), is_local_file: false },
                ),
            ),
        };
    }
    if av.len() == 0 {
        return None;
    }
    let fs = file_args_of(&av);
    if let Some(i) = first_arg(&fs, 2) {
        proof { lemma_first_index_bounds(vecs_view(fs@), arg_pred(2), 0); }
        assert(vecs_view(fs@)[i as int] == fs@[i as int]@);
        return Some(
            ArgsAction::Open(
                LaunchIntent::InstallFlatpakref { source: string_of(&fs[i]), is_local_file: true },
            ),
        );
    }
    if let Some(i) = first_arg(&fs, 3) {
        proof { lemma_first_index_bounds(vecs_view(fs@), arg_pred(3), 0); }
        assert(vecs_view(fs@)[i as int] == fs@[i as int]@);
        return Some(ArgsAction::ReadRepo { path: string_of(&fs[i]) });
    }
    if let Some(i) = first_arg(&fs, 4) {
        proof { lemma_first_index_bounds(vecs_view(fs@), arg_pred(4), 0); }
        assert(vecs_view(fs@)[i as int] == fs@[i as int]@);
        let path = string_of(&fs[i]);
        let name = match file_name(path.as_str()) {
            Some(n) => n,
            None => string_of(&fs[i]),
        };
        let pkg_name = pkg_name_from_filename(name.as_str());
        let appimage = is_appimage(path.as_str());
        let bundle = is_flatpak_bundle(path.as_str());
        return Some(
            ArgsAction::Open(
                LaunchIntent::InstallFile {
                    path,
                    file_name: name,
                    pkg_name,
                    is_appimage: appimage,
                    is_bundle: bundle,
                },
            ),
        );
    }
    None
}

/// An index that `first_index` reports is in range.
pub proof fn lemma_first_index_bounds(args: Seq<Seq<char>>, p: spec_fn(Seq<char>) -> bool, from: int)
    ensures
        first_index(args, p, from) matches Some(i) ==> from <= i < args.len() && p(args[i]),
    decreases args.len() - from,
{
    if from >= 0 && from < args.len() && !p(args[from]) {
        lemma_first_index_bounds(args, p, from + 1);
    }
}

/// Hands out the intent and leaves none behind.
pub fn take_intent(slot: &mut Option<LaunchIntent>) -> (r: Option<LaunchIntent>)
    ensures
        r == *old(slot),
        *final(slot) is None,
{
    slot.take()
}


/// What `rust-ini` reads as the value of `key` in group `section` of the text
/// `content`; text that does not parse counts as having no groups.
pub uninterp spec fn ini_value(content: Seq<char>, section: Seq<char>, key: Seq<char>) -> Option<
    Seq<char>,
>;

/// Looks a key up in an INI text with `ini::Ini::load_from_str` (an empty
/// document where the text does not parse), `Ini::section` and
/// `Properties::get`. The result is named by `ini_value`; nothing more is
/// claimed of it.
#[verifier::external_body]
fn ini_lookup(content: &str, section: &str, key: &str) -> (r: Option<String>)
    ensures
        opt_view(r) == ini_value(content@, section@, key@),
{
    let doc = ini::Ini::load_from_str(content).unwrap_or_default();
    doc.section(Some(section)).and_then(|s| s.get(key)).map(|v| v.to_string())
}

/// The value of a key of a group, or nothing when either is missing.
pub open spec fn ini_text(content: Seq<char>, section: Seq<char>, key: Seq<char>) -> Seq<char> {
    match ini_value(content, section, key) {
        Some(v) => v,
        None => seq![],
    }
}

/// Reads the title, name and URL of a `.flatpakref`; the title falls back to the name.
pub fn parse_flatpakref(content: &str) -> (r: (String, String, String))
    ensures
        r.0@ == if ini_text(content@, "Flatpak Ref"@, "Title"@).len() == 0 {
            ini_text(content@, "Flatpak Ref"@, "Name"@)
        } else {
            ini_text(content@, "Flatpak Ref"@, "Title"@)
        },
        r.1@ == ini_text(content@, "Flatpak Ref"@, "Name"@),
        r.2@ == ini_text(content@, "Flatpak Ref"@, "Url"@),
{
    let name = or_empty_string(ini_lookup(content, "Flatpak Ref", "Name"));
    let title = or_empty_string(ini_lookup(content, "Flatpak Ref", "Title"));
    let url = or_empty_string(ini_lookup(content, "Flatpak Ref", "Url"));
    let title = if title.as_str().unicode_len() == 0 {
        name.clone()
    } else {
        title
    };
    (title, name, url)
}

/// Reads the title and URL of a `.flatpakrepo`.
pub fn parse_flatpakrepo(content: &str) -> (r: (String, String))
    ensures
        r.0@ == ini_text(content@, "Flatpak Repo"@, "Title"@),
        r.1@ == ini_text(content@, "Flatpak Repo"@, "Url"@),
{
    (
        or_empty_string(ini_lookup(content, "Flatpak Repo", "Title")),
        or_empty_string(ini_lookup(content, "Flatpak Repo", "Url")),
    )
}

/// The string, or an empty one.
pub fn or_empty_string(o: Option<String>) -> (r: String)
    ensures
        r@ == match o {
            Some(s) => s@,
            None => Seq::<char>::empty(),
        },
{
    match o {
        Some(s) => s,
        None => String::new(),
    }
}

} // verus!
