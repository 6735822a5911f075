//! Native packages installed into distrobox containers: recognising package
//! files, the index files kept per installed package, and the container list.

use vstd::prelude::*;
use crate::text::{
    find_char, before_char, is_digit, has_suffix, rfind_seq, count_char, path_join, trim,
    path_file_name, words, join, chars_of, string_of, find_ch, slice_to_vec, before_ch,
    is_digit_exec, str_eq, str_ends_with, count_ch, rfind, file_name, path_join_exec, push_str, find_from,
    occurs_at,
    push_all, trim_exec, words_of, join_exec, seq_eq, lemma_find_from_bounds,
    lemma_rfind_below_bounds, starts_with, opt_view, strings_view, has_prefix,
};
use crate::fields::{
    lemma_vecs_view_push, lemma_strings_view_push,
    lines, last_field, first_field, or_empty, vecs_view, lines_of, last_field_of, first_field_of,
    last_field_or_empty,
};
use crate::deeplink::{without_suffix, drop_suffix_or_keep};
use crate::package::{Package, Provider};

verus! {

/// Container that takes Debian packages.
pub const CONTAINER_DEB: &'static str = "arc-debian";

/// Container that takes RPM packages.
pub const CONTAINER_RPM: &'static str = "arc-fedora";

/// Container that takes Arch packages.
pub const CONTAINER_ARCH: &'static str = "arc-arch";

/// Image of the Debian container.
pub const IMAGE_DEB: &'static str = "quay.io/toolbx-images/debian-toolbox:13";

/// Image of the Fedora container.
pub const IMAGE_RPM: &'static str = "registry.fedoraproject.org/fedora-toolbox:44";

/// Image of the Arch container.
pub const IMAGE_ARCH: &'static str = "docker.io/archlinux:latest";

/// The package formats that a container can install.
#[derive(Clone, Copy, Debug, PartialEq, Eq, Structural)]
pub enum PkgType {
    Deb,
    Rpm,
    Pacman,
}

/// The name of a package format in index files and package ids.
pub open spec fn pkg_type_text(t: PkgType) -> Seq<char> {
    match t {
        PkgType::Deb => "deb"@,
        PkgType::Rpm => "rpm"@,
        PkgType::Pacman => "pacman"@,
    }
}

/// The package format that a name stands for.
pub open spec fn pkg_type_from_text(s: Seq<char>) -> Option<PkgType> {
    if s == "deb"@ {
        Some(PkgType::Deb)
    } else if s == "rpm"@ {
        Some(PkgType::Rpm)
    } else if s == "pacman"@ {
        Some(PkgType::Pacman)
    } else {
        None
    }
}

impl PkgType {
    /// The name of the format.
    pub fn as_str(self) -> (r: &'static str)
        ensures
            r@ == pkg_type_text(self),
    {
        match self {
            PkgType::Deb => "deb",
            PkgType::Rpm => "rpm",
            PkgType::Pacman => "pacman",
        }
    }

    /// The format that `s` names, if any.
    pub fn from_str(s: &str) -> (r: Option<PkgType>)
        ensures
            r == pkg_type_from_text(s@),
    {
        if str_eq(s, "deb") {
            Some(PkgType::Deb)
        } else if str_eq(s, "rpm") {
            Some(PkgType::Rpm)
        } else if str_eq(s, "pacman") {
            Some(PkgType::Pacman)
        } else {
            None
        }
    }
}

/// Reading back the name of a format gives that format.
pub proof fn law_pkg_type_roundtrip(t: PkgType)
    ensures
        pkg_type_from_text(pkg_type_text(t)) == Some(t),
{
    reveal_strlit("deb");
    reveal_strlit("rpm");
    reveal_strlit("pacman");
    assert("rpm"@[0] != "deb"@[0]);
    assert("pacman"@[0] != "deb"@[0]);
    assert("pacman"@[0] != "rpm"@[0]);
}

/// The name before a version: what precedes the first `-` when a digit follows
/// that `-`; otherwise the whole text.
pub open spec fn name_before_version(s: Seq<char>) -> Seq<char> {
    match find_char(s, '-') {
        Some(i) => if 0 <= i && i + 1 < s.len() && is_digit(s[i + 1]) {
            s.take(i)
        } else {
            s
        },
        None => s,
    }
}

/// Drops a version that follows the first `-` (`"name-1.0-1.arch"` → `"name"`).
pub fn strip_version_suffix(s: &str) -> (r: String)
    ensures
        r@ == name_before_version(s@),
{
    let v = chars_of(s);
    match find_ch(&v, '-') {
        Some(i) => {
            proof { lemma_find_from_bounds(v@, seq!['-'], 0); }
            assert(i < v.len());
            if i + 1 < v.len() && is_digit_exec(v[i + 1]) {
                let n = slice_to_vec(&v, 0, i);
                assert(n@ =~= v@.take(i as int));
                string_of(&n)
            } else {
                string_of(&v)
            }
        },
        None => string_of(&v),
    }
}

/// Container, image and format for a package file, chosen by its file name.
pub open spec fn spec_classify(path: Seq<char>) -> Option<(Seq<char>, Seq<char>, PkgType)> {
    match path_file_name(path) {
        None => None,
        Some(n) => if has_suffix(n, ".deb"@) {
            Some(("arc-debian"@, "quay.io/toolbx-images/debian-toolbox:13"@, PkgType::Deb))
        } else if has_suffix(n, ".rpm"@) {
            Some(("arc-fedora"@, "registry.fedoraproject.org/fedora-toolbox:44"@, PkgType::Rpm))
        } else if has_suffix(n, ".pkg.tar.xz"@) || has_suffix(n, ".pkg.tar.zst"@) {
            Some(("arc-arch"@, "docker.io/archlinux:latest"@, PkgType::Pacman))
        } else {
            None
        },
    }
}

/// A text that ends in `p` (not empty) ends in `p`'s last character.
proof fn lemma_suffix_last(n: Seq<char>, p: Seq<char>)
    requires
        p.len() > 0,
        has_suffix(n, p),
    ensures
        n.len() > 0 && n.last() == p.last(),
{
    let k = n.len() - p.len();
    assert(n.subrange(k, n.len() as int)[p.len() - 1] == n.last());
}

/// A package file is placed by the ending of its file name: a `.deb` in the
/// Debian container, an `.rpm` in the Fedora one, a `.pkg.tar.xz` or
/// `.pkg.tar.zst` in the Arch one, each with its image and format; a path
/// with no file name, or a file name with none of these endings, is not a
/// package file that can be placed.
pub proof fn law_classify_by_ending(path: Seq<char>)
    ensures
        path_file_name(path) is None ==> spec_classify(path) is None,
        path_file_name(path) matches Some(n) && has_suffix(n, ".deb"@) ==> spec_classify(path)
            == Some(("arc-debian"@, "quay.io/toolbx-images/debian-toolbox:13"@, PkgType::Deb)),
        path_file_name(path) matches Some(n) && has_suffix(n, ".rpm"@) ==> spec_classify(path)
            == Some(("arc-fedora"@, "registry.fedoraproject.org/fedora-toolbox:44"@, PkgType::Rpm)),
        path_file_name(path) matches Some(n) && has_suffix(n, ".pkg.tar.xz"@) ==> spec_classify(path)
            == Some(("arc-arch"@, "docker.io/archlinux:latest"@, PkgType::Pacman)),
        path_file_name(path) matches Some(n) && has_suffix(n, ".pkg.tar.zst"@) ==> spec_classify(
            path,
        ) == Some(("arc-arch"@, "docker.io/archlinux:latest"@, PkgType::Pacman)),
        path_file_name(path) matches Some(n) && !has_suffix(n, ".deb"@) && !has_suffix(n, ".rpm"@)
            && !has_suffix(n, ".pkg.tar.xz"@) && !has_suffix(n, ".pkg.tar.zst"@) ==> spec_classify(
            path,
        ) is None,
{
    reveal_strlit(".deb");
    reveal_strlit(".rpm");
    reveal_strlit(".pkg.tar.xz");
    reveal_strlit(".pkg.tar.zst");
    if let Some(n) = path_file_name(path) {
        if has_suffix(n, ".deb"@) {
            lemma_suffix_last(n, ".deb"@);
        }
        if has_suffix(n, ".rpm"@) {
            lemma_suffix_last(n, ".rpm"@);
        }
        if has_suffix(n, ".pkg.tar.xz"@) {
            lemma_suffix_last(n, ".pkg.tar.xz"@);
        }
        if has_suffix(n, ".pkg.tar.zst"@) {
            lemma_suffix_last(n, ".pkg.tar.zst"@);
        }
    }
}

/// Container, image and format for a package file.
pub fn classify_file(path: &str) -> (r: Option<(String, String, PkgType)>)
    ensures
        match r {
            Some((c, i, t)) => spec_classify(path@) == Some((c@, i@, t)),
            None => spec_classify(path@) is None,
        },
{
    let name = match file_name(path) {
        Some(n) => n,
        None => return None,
    };
    let n = name.as_str();
    if str_ends_with(n, ".deb") {
        Some((CONTAINER_DEB.to_owned(), IMAGE_DEB.to_owned(), PkgType::Deb))
    } else if str_ends_with(n, ".rpm") {
        Some((CONTAINER_RPM.to_owned(), IMAGE_RPM.to_owned(), PkgType::Rpm))
    } else if str_ends_with(n, ".pkg.tar.xz") || str_ends_with(n, ".pkg.tar.zst") {
        Some((CONTAINER_ARCH.to_owned(), IMAGE_ARCH.to_owned(), PkgType::Pacman))
    } else {
        None
    }
}

/// `s` without its last `n` `-`-separated fields (stops early when no `-` is left).
pub open spec fn cut_fields(s: Seq<char>, n: nat) -> Seq<char>
    decreases n,
{
    if n == 0 {
        s
    } else {
        match rfind_seq(s, seq!['-']) {
            Some(i) => if 0 <= i <= s.len() {
                cut_fields(s.take(i), (n - 1) as nat)
            } else {
                s
            },
            None => s,
        }
    }
}

/// An Arch package name from `<name>-<version>-<pkgrel>-<arch>`: the last three
/// fields go; with fewer than three `-` the text before the first `-` is kept.
pub open spec fn arch_name(s: Seq<char>) -> Seq<char> {
    if count_char(s, '-') >= 3 {
        cut_fields(s, 3)
    } else {
        before_char(s, '-')
    }
}

/// A file name without `.pkg.tar.zst` or, failing that, `.pkg.tar.xz`.
pub open spec fn without_pacman_ext(s: Seq<char>) -> Seq<char> {
    if has_suffix(s, ".pkg.tar.zst"@) {
        without_suffix(s, ".pkg.tar.zst"@)
    } else {
        without_suffix(s, ".pkg.tar.xz"@)
    }
}

/// The file name of a path; `unknown` when it has none.
pub open spec fn file_base(path: Seq<char>) -> Seq<char> {
    match path_file_name(path) {
        Some(n) => n,
        None => "unknown"@,
    }
}

/// The package name guessed from a package file's name.
pub open spec fn spec_guess_name(path: Seq<char>, t: PkgType) -> Seq<char> {
    let base = match path_file_name(path) {
        Some(n) => n,
        None => "unknown"@,
    };
    match t {
        PkgType::Deb => before_char(base, '_'),
        PkgType::Rpm => name_before_version(without_suffix(base, ".rpm"@)),
        PkgType::Pacman => arch_name(without_pacman_ext(base)),
    }
}

/// Before the first match found from `i`, the pattern does not occur.
proof fn lemma_find_from_first(s: Seq<char>, p: Seq<char>, i: int)
    ensures
        find_from(s, p, i) matches Some(k) ==> forall|j: int| i <= j < k ==> !occurs_at(s, p, j),
    decreases s.len() + 1 - i,
{
    if !(i < 0 || i + p.len() > s.len()) && !occurs_at(s, p, i) {
        lemma_find_from_first(s, p, i + 1);
    }
}

/// What precedes the first `c` is a prefix without `c`, followed by `c`
/// when the text holds one.
proof fn lemma_before_char(s: Seq<char>, c: char)
    ensures
        has_prefix(s, before_char(s, c)),
        forall|j: int| 0 <= j < before_char(s, c).len() ==> before_char(s, c)[j] != c,
        find_char(s, c) is Some ==> before_char(s, c).len() < s.len() && s[before_char(
            s,
            c,
        ).len() as int] == c,
        find_char(s, c) is None ==> before_char(s, c) == s,
{
    lemma_find_from_bounds(s, seq![c], 0);
    lemma_find_from_first(s, seq![c], 0);
    let b = before_char(s, c);
    assert(s.subrange(0, b.len() as int) =~= b);
    match find_char(s, c) {
        Some(k) => {
            assert forall|j: int| 0 <= j < b.len() implies b[j] != c by {
                assert(!occurs_at(s, seq![c], j));
                if b[j] == c {
                    assert(s.subrange(j, j + 1) =~= seq![c]);
                }
            }
            assert(s.subrange(k, k + 1)[0] == s[k]);
        },
        None => {
            assert forall|j: int| 0 <= j < s.len() implies s[j] != c by {
                if s[j] == c {
                    assert(s.subrange(j, j + 1) =~= seq![c]);
                    lemma_find_absent(s, seq![c], 0, j);
                }
            }
        },
    }
}

/// A pattern that occurs at or after `i` is found from `i`.
proof fn lemma_find_absent(s: Seq<char>, p: Seq<char>, i: int, j: int)
    requires
        0 <= i <= j,
        occurs_at(s, p, j),
    ensures
        find_from(s, p, i) is Some,
    decreases j - i,
{
    if !occurs_at(s, p, i) {
        lemma_find_absent(s, p, i + 1, j);
    }
}

proof fn lemma_prefix_trans(a: Seq<char>, b: Seq<char>, c: Seq<char>)
    requires
        has_prefix(a, b),
        has_prefix(b, c),
    ensures
        has_prefix(a, c),
{
    assert(a.subrange(0, c.len() as int) =~= b.subrange(0, c.len() as int));
}

proof fn lemma_take_prefix(s: Seq<char>, i: int)
    requires
        0 <= i <= s.len(),
    ensures
        has_prefix(s, s.take(i)),
{
    assert(s.subrange(0, i) =~= s.take(i));
}

proof fn lemma_cut_fields_prefix(s: Seq<char>, n: nat)
    ensures
        has_prefix(s, cut_fields(s, n)),
    decreases n,
{
    assert(s.subrange(0, s.len() as int) =~= s);
    if n > 0 {
        lemma_rfind_below_bounds(s, seq!['-'], s.len() as int + 1);
        if let Some(i) = rfind_seq(s, seq!['-']) {
            if 0 <= i <= s.len() {
                lemma_cut_fields_prefix(s.take(i), (n - 1) as nat);
                lemma_take_prefix(s, i);
                lemma_prefix_trans(s, s.take(i), cut_fields(s.take(i), (n - 1) as nat));
            }
        }
    }
}

proof fn lemma_without_suffix_prefix(s: Seq<char>, p: Seq<char>)
    ensures
        has_prefix(s, without_suffix(s, p)),
{
    assert(s.subrange(0, s.len() as int) =~= s);
    if has_suffix(s, p) {
        lemma_take_prefix(s, s.len() - p.len());
    }
}

/// The package name guessed from a package file is the start of its file
/// name (of `unknown` when the path has none); for a Debian package it is
/// everything before the first `_`, which it does not contain.
pub proof fn law_guessed_name_starts_file_name(path: Seq<char>, t: PkgType)
    ensures
        has_prefix(file_base(path), spec_guess_name(path, t)),
        t == PkgType::Deb ==> forall|j: int|
            0 <= j < spec_guess_name(path, t).len() ==> spec_guess_name(path, t)[j] != '_',
        t == PkgType::Deb && (exists|j: int| 0 <= j < file_base(path).len() && file_base(path)[j] == '_')
            ==> file_base(path)[spec_guess_name(path, t).len() as int] == '_',
        t == PkgType::Deb && !(exists|j: int|
            0 <= j < file_base(path).len() && file_base(path)[j] == '_') ==> spec_guess_name(path, t)
            == file_base(path),
{
    let base = match path_file_name(path) {
        Some(n) => n,
        None => "unknown"@,
    };
    match t {
        PkgType::Deb => {
            lemma_before_char(base, '_');
            let g = before_char(base, '_');
            if exists|j: int| 0 <= j < base.len() && base[j] == '_' {
                let j = choose|j: int| 0 <= j < base.len() && base[j] == '_';
                assert(base.subrange(j, j + 1) =~= seq!['_']);
                lemma_find_absent(base, seq!['_'], 0, j);
            } else {
                if find_char(base, '_') is Some {
                    assert(base[g.len() as int] == '_');
                }
            }
        },
        PkgType::Rpm => {
            let w = without_suffix(base, ".rpm"@);
            lemma_without_suffix_prefix(base, ".rpm"@);
            match find_char(w, '-') {
                Some(i) => {
                    lemma_find_from_bounds(w, seq!['-'], 0);
                    if 0 <= i && i + 1 < w.len() && is_digit(w[i + 1]) {
                        lemma_take_prefix(w, i);
                        lemma_prefix_trans(base, w, w.take(i));
                    }
                },
                None => {},
            }
        },
        PkgType::Pacman => {
            let w = without_pacman_ext(base);
            lemma_without_suffix_prefix(base, ".pkg.tar.zst"@);
            lemma_without_suffix_prefix(base, ".pkg.tar.xz"@);
            if count_char(w, '-') >= 3 {
                lemma_cut_fields_prefix(w, 3);
                lemma_prefix_trans(base, w, cut_fields(w, 3));
            } else {
                lemma_before_char(w, '-');
                lemma_prefix_trans(base, w, before_char(w, '-'));
            }
        },
    }
}

/// `s` without its last `n` `-`-separated fields.
fn cut_fields_exec(s: &Vec<char>, n: usize) -> (r: Vec<char>)
    ensures
        r@ == cut_fields(s@, n as nat),
    decreases n,
{
    if n == 0 {
        return slice_to_vec(s, 0, s.len());
    }
    let dash = vec!['-'];
    assert(dash@ =~= seq!['-']);
    match rfind(s, &dash) {
        Some(i) => {
            proof { lemma_rfind_below_bounds(s@, seq!['-'], s@.len() as int + 1); }
            let head = slice_to_vec(s, 0, i);
            assert(head@ =~= s@.take(i as int));
            cut_fields_exec(&head, n - 1)
        },
        None => slice_to_vec(s, 0, s.len()),
    }
}

/// The package name guessed from a package file's name.
pub fn guess_pkg_name(path: &str, pkg_type: PkgType) -> (r: String)
    ensures
        r@ == spec_guess_name(path@, pkg_type),
{
    let base = match file_name(path) {
        Some(n) => n,
        None => "unknown".to_owned(),
    };
    let b = chars_of(base.as_str());
    match pkg_type {
        PkgType::Deb => {
            let n = before_ch(&b, '_');
            string_of(&n)
        },
        PkgType::Rpm => {
            let no_ext = drop_suffix_or_keep(&b, ".rpm");
            let s = string_of(&no_ext);
            strip_version_suffix(s.as_str())
        },
        PkgType::Pacman => {
            let no_ext = if str_ends_with(base.as_str(), ".pkg.tar.zst") {
                drop_suffix_or_keep(&b, ".pkg.tar.zst")
            } else {
                drop_suffix_or_keep(&b, ".pkg.tar.xz")
            };
            if count_ch(&no_ext, '-') >= 3 {
                let n = cut_fields_exec(&no_ext, 3);
                string_of(&n)
            } else {
                let n = before_ch(&no_ext, '-');
                string_of(&n)
            }
        },
    }
}

/// Where the index file of an installed package lives.
pub open spec fn spec_info_file(packages_dir: Seq<char>, container: Seq<char>, pkg: Seq<char>) -> Seq<
    char,
> {
    path_join(packages_dir, container + "___"@ + pkg + ".info"@)
}

/// Where the index file of an installed package lives.
pub fn info_file(packages_dir: &str, container: &str, pkg_name: &str) -> (r: String)
    ensures
        r@ == spec_info_file(packages_dir@, container@, pkg_name@),
{
    let mut part: Vec<char> = Vec::new();
    push_str(&mut part, container);
    push_str(&mut part, "___");
    push_str(&mut part, pkg_name);
    push_str(&mut part, ".info");
    let base = chars_of(packages_dir);
    let r = path_join_exec(&base, &part);
    string_of(&r)
}

/// The provider of packages installed into distrobox containers: where it
/// keeps its index files, and the user's home.
pub struct DistroboxProvider {
    pub packages_dir: String,
    pub home: String,
}

impl DistroboxProvider {
    /// The provider for the user whose home is `home`.
    pub fn new(home: &str) -> (r: DistroboxProvider)
        ensures
            r.packages_dir@ == path_join(path_join(home@, ".local/share/arc"@), "packages"@),
            r.home@ == home@,
    {
        let h = chars_of(home);
        let data = path_join_exec(&h, &chars_of(".local/share/arc"));
        let pk = path_join_exec(&data, &chars_of("packages"));
        DistroboxProvider { packages_dir: string_of(&pk), home: home.to_string() }
    }

    /// The index file of a package installed into a container.
    pub fn info_file(&self, container: &str, pkg_name: &str) -> (r: String)
        ensures
            r@ == spec_info_file(self.packages_dir@, container@, pkg_name@),
    {
        info_file(self.packages_dir.as_str(), container, pkg_name)
    }
}

/// What the index file of an installed package records.
pub struct DistroboxIndex {
    pub guessed_name: String,
    pub real_name: String,
    pub pkg_type: String,
    pub container: String,
    pub exported_apps: Vec<String>,
}

/// The fields of an index file: the last line for each key counts; the file
/// is only usable with a guessed name and a container.
pub open spec fn index_ok(content: Seq<char>) -> bool {
    or_empty(last_field(lines(content), "GUESSED_NAME="@)).len() > 0 && or_empty(
        last_field(lines(content), "CONTAINER="@),
    ).len() > 0
}

/// Reads an index file.
pub fn parse_index(content: &str) -> (r: Option<DistroboxIndex>)
    ensures
        r is Some <==> index_ok(content@),
        r matches Some(ix) ==> {
            let ls = lines(content@);
            &&& ix.guessed_name@ == or_empty(last_field(ls, "GUESSED_NAME="@))
            &&& ix.real_name@ == or_empty(last_field(ls, "REAL_NAME="@))
            &&& ix.pkg_type@ == or_empty(last_field(ls, "PKG_TYPE="@))
            &&& ix.container@ == or_empty(last_field(ls, "CONTAINER="@))
            &&& strings_view(ix.exported_apps@) == words(
                or_empty(last_field(ls, "EXPORTED_APPS="@)),
            )
        },
{
    let c = chars_of(content);
    let ls = lines_of(&c);
    let guessed_name = last_field_or_empty(&ls, "GUESSED_NAME=");
    let real_name = last_field_or_empty(&ls, "REAL_NAME=");
    let pkg_type = last_field_or_empty(&ls, "PKG_TYPE=");
    let container = last_field_or_empty(&ls, "CONTAINER=");
    let apps_text = last_field_or_empty(&ls, "EXPORTED_APPS=");
    let apps_chars = chars_of(apps_text.as_str());
    let exported_apps = strings_from(&words_of(&apps_chars));
    if guessed_name.as_str().unicode_len() == 0 || container.as_str().unicode_len() == 0 {
        return None;
    }
    Some(DistroboxIndex { guessed_name, real_name, pkg_type, container, exported_apps })
}

/// Strings made of character vectors.
pub fn strings_from(v: &Vec<Vec<char>>) -> (r: Vec<String>)
    ensures
        strings_view(r@) == vecs_view(v@),
{
    let mut r: Vec<String> = Vec::new();
    let mut i: usize = 0;
    while i < v.len()
        invariant
            i <= v.len(),
            r.len() == i,
            strings_view(r@) == vecs_view(v@).take(i as int),
        decreases v.len() - i,
    {
        let s = string_of(&v[i]);
        let ghost old_r = r@;
        r.push(s);
        assert forall|j: int| 0 <= j < i + 1 implies strings_view(r@)[j] == vecs_view(v@).take(
            i + 1,
        )[j] by {
            if j < i {
                assert(strings_view(old_r)[j] == vecs_view(v@).take(i as int)[j]);
                assert(r@[j] == old_r[j]);
            }
        }
        assert(strings_view(r@) =~= vecs_view(v@).take(i + 1));
        i = i + 1;
    }
    assert(vecs_view(v@).take(v.len() as int) =~= vecs_view(v@));
    r
}


/// What a desktop entry tells about the exported application.
pub struct DesktopInfo {
    pub name: Option<String>,
    pub icon: Option<String>,
    pub comment: Option<String>,
}

/// The state of a scan through a desktop file: inside the `[Desktop Entry]`
/// group or not, and the values seen so far.
pub struct DesktopScan {
    pub in_entry: bool,
    pub name: Option<Seq<char>>,
    pub icon: Option<Seq<char>>,
    pub comment: Option<Seq<char>>,
}

/// One line of a desktop file: a group header switches the group; inside
/// `[Desktop Entry]` the `Name=`, `Icon=` and `Comment=` lines set their value.
pub open spec fn desktop_step(st: DesktopScan, line: Seq<char>) -> DesktopScan {
    let t = trim(line);
    if t.len() > 0 && t[0] == '[' {
        DesktopScan { in_entry: t == "[Desktop Entry]"@, ..st }
    } else if !st.in_entry {
        st
    } else if has_prefix(line, "Name="@) {
        DesktopScan { name: Some(line.skip(5)), ..st }
    } else if has_prefix(line, "Icon="@) {
        DesktopScan { icon: Some(line.skip(5)), ..st }
    } else if has_prefix(line, "Comment="@) {
        DesktopScan { comment: Some(line.skip(8)), ..st }
    } else {
        st
    }
}

/// One desktop-file line: a `[...]` header only switches whether the scan is
/// inside `[Desktop Entry]`; outside it other lines change nothing; inside
/// it a `Name=`, `Icon=` or `Comment=` line sets just that value to the rest
/// of the line, and other lines change nothing.
pub proof fn law_desktop_line(st: DesktopScan, line: Seq<char>)
    ensures
        ({
            let t = trim(line);
            let r = desktop_step(st, line);
            &&& t.len() > 0 && t[0] == '[' ==> r.in_entry == (t == "[Desktop Entry]"@) && r.name
                == st.name && r.icon == st.icon && r.comment == st.comment
            &&& !(t.len() > 0 && t[0] == '[') && !st.in_entry ==> r == st
            &&& !(t.len() > 0 && t[0] == '[') && st.in_entry && has_prefix(line, "Name="@) ==> r.in_entry
                && r.name == Some(line.skip(5)) && r.icon == st.icon && r.comment == st.comment
            &&& !(t.len() > 0 && t[0] == '[') && st.in_entry && has_prefix(line, "Icon="@) ==> r.in_entry
                && r.icon == Some(line.skip(5)) && r.name == st.name && r.comment == st.comment
            &&& !(t.len() > 0 && t[0] == '[') && st.in_entry && has_prefix(line, "Comment="@)
                ==> r.in_entry && r.comment == Some(line.skip(8)) && r.name == st.name && r.icon
                == st.icon
            &&& !(t.len() > 0 && t[0] == '[') && !has_prefix(line, "Name="@) && !has_prefix(
                line,
                "Icon="@,
            ) && !has_prefix(line, "Comment="@) ==> r == st
        }),
{
    reveal_strlit("Name=");
    reveal_strlit("Icon=");
    reveal_strlit("Comment=");
    if has_prefix(line, "Icon="@) {
        assert(line.subrange(0, 5)[0] == line[0]);
    }
    if has_prefix(line, "Comment="@) {
        assert(line.subrange(0, 8)[0] == line[0]);
        if has_prefix(line, "Name="@) {
            assert(line.subrange(0, 5)[0] == line[0]);
        }
        if has_prefix(line, "Icon="@) {
            assert(line.subrange(0, 5)[0] == line[0]);
        }
    }
    if has_prefix(line, "Name="@) {
        assert(line.subrange(0, 5)[0] == line[0]);
    }
}

/// The scan over a whole sequence of lines.
pub open spec fn desktop_scan(ls: Seq<Seq<char>>) -> DesktopScan
    decreases ls.len(),
{
    if ls.len() == 0 {
        DesktopScan { in_entry: false, name: None, icon: None, comment: None }
    } else {
        desktop_step(desktop_scan(ls.drop_last()), ls.last())
    }
}

/// Reads the name, icon and comment of a desktop file's `[Desktop Entry]` group.
pub fn parse_desktop_entry(desktop: &str) -> (r: DesktopInfo)
    ensures
        opt_view(r.name) == desktop_scan(lines(desktop@)).name,
        opt_view(r.icon) == desktop_scan(lines(desktop@)).icon,
        opt_view(r.comment) == desktop_scan(lines(desktop@)).comment,
{
    let c = chars_of(desktop);
    let ls = lines_of(&c);
    let header = chars_of("[Desktop Entry]");
    let name_key = chars_of("Name=");
    let icon_key = chars_of("Icon=");
    let comment_key = chars_of("Comment=");
    proof {
        reveal_strlit("Name=");
        reveal_strlit("Icon=");
        reveal_strlit("Comment=");
    }
    let mut in_entry = false;
    let mut name: Option<Vec<char>> = None;
    let mut icon: Option<Vec<char>> = None;
    let mut comment: Option<Vec<char>> = None;
    let mut i: usize = 0;
    while i < ls.len()
        invariant
            i <= ls.len(),
            header@ == "[Desktop Entry]"@,
            name_key@ == "Name="@,
            icon_key@ == "Icon="@,
            comment_key@ == "Comment="@,
            name_key@.len() == 5,
            icon_key@.len() == 5,
            comment_key@.len() == 8,
            vecs_view(ls@) == lines(c@),
            ({
                let st = desktop_scan(vecs_view(ls@).take(i as int));
                &&& st.in_entry == in_entry
                &&& st.name == (match name { Some(v) => Some(v@), None => None })
                &&& st.icon == (match icon { Some(v) => Some(v@), None => None })
                &&& st.comment == (match comment { Some(v) => Some(v@), None => None })
            }),
        decreases ls.len() - i,
    {
        proof {
            assert(vecs_view(ls@).take(i + 1).drop_last() =~= vecs_view(ls@).take(i as int));
            assert(vecs_view(ls@).take(i + 1).last() == ls@[i as int]@);
        }
        let line = &ls[i];
        let t = trim_exec(line);
        if t.len() > 0 && t[0] == '[' {
            in_entry = seq_eq(&t, &header);
        } else if !in_entry {
        } else if starts_with(line, &name_key) {
            name = Some(slice_to_vec(line, 5, line.len()));
        } else if starts_with(line, &icon_key) {
            icon = Some(slice_to_vec(line, 5, line.len()));
        } else if starts_with(line, &comment_key) {
            comment = Some(slice_to_vec(line, 8, line.len()));
        }
        proof {
            let l = ls@[i as int]@;
            assert(l.subrange(5, l.len() as int) =~= l.skip(5));
            assert(l.subrange(8, l.len() as int) =~= l.skip(8));
        }
        i = i + 1;
    }
    assert(vecs_view(ls@).take(ls.len() as int) =~= vecs_view(ls@));
    DesktopInfo {
        name: match name { Some(v) => Some(string_of(&v)), None => None },
        icon: match icon { Some(v) => Some(string_of(&v)), None => None },
        comment: match comment { Some(v) => Some(string_of(&v)), None => None },
    }
}

/// Where the desktop file of an exported application lives.
pub open spec fn spec_desktop_path(home: Seq<char>, app: Seq<char>) -> Seq<char> {
    home + "/.local/share/applications/"@ + app + ".desktop"@
}

/// The desktop file to read for an index: that of its first exported application.
pub fn index_desktop_path(index: &DistroboxIndex, home: &str) -> (r: Option<String>)
    ensures
        match r {
            Some(p) => index.exported_apps.len() > 0 && p@ == spec_desktop_path(
                home@,
                index.exported_apps@[0]@,
            ),
            None => index.exported_apps.len() == 0,
        },
{
    if index.exported_apps.len() == 0 {
        return None;
    }
    let mut p: Vec<char> = Vec::new();
    push_str(&mut p, home);
    push_str(&mut p, "/.local/share/applications/");
    push_str(&mut p, index.exported_apps[0].as_str());
    push_str(&mut p, ".desktop");
    Some(string_of(&p))
}

/// The line under a package that tells which container holds it.
pub open spec fn container_label(pkg_type: Seq<char>, container: Seq<char>) -> Seq<char> {
    if pkg_type == "deb"@ {
        "Installed in Debian container ("@ + container + ")"@
    } else if pkg_type == "rpm"@ {
        "Installed in Fedora container ("@ + container + ")"@
    } else if pkg_type == "pacman"@ {
        "Installed in Arch container ("@ + container + ")"@
    } else {
        "Installed in container ("@ + container + ")"@
    }
}

/// The id of an installed container package.
pub open spec fn spec_package_id(container: Seq<char>, guessed: Seq<char>, pkg_type: Seq<char>) -> Seq<
    char,
> {
    "distrobox:"@ + container + ":"@ + guessed + ":"@ + pkg_type
}

/// The display name: the desktop entry's, else the real name, else the guessed one.
pub open spec fn spec_display_name(ix_real: Seq<char>, ix_guessed: Seq<char>, desktop_name: Option<
    Seq<char>,
>) -> Seq<char> {
    match desktop_name {
        Some(n) => n,
        None => if ix_real.len() == 0 {
            ix_guessed
        } else {
            ix_real
        },
    }
}

/// The description: the desktop comment (when not empty) before the container line.
pub open spec fn spec_description(label: Seq<char>, comment: Option<Seq<char>>) -> Seq<char> {
    match comment {
        Some(c) => if c.len() > 0 {
            c + " — "@ + label
        } else {
            label
        },
        None => label,
    }
}

/// The name shown for a container package is the desktop entry's name when
/// one was read; else the real name from the index, unless that is empty, in
/// which case the guessed name.
pub proof fn law_display_name_choice(real_name: Seq<char>, guessed: Seq<char>, desktop_name: Option<Seq<char>>)
    ensures
        desktop_name matches Some(n) ==> spec_display_name(real_name, guessed, desktop_name) == n,
        desktop_name is None && real_name.len() > 0 ==> spec_display_name(real_name, guessed, desktop_name)
            == real_name,
        desktop_name is None && real_name.len() == 0 ==> spec_display_name(real_name, guessed, desktop_name)
            == guessed,
{
}

/// The description of a container package ends by naming its container in
/// brackets; a non-empty desktop comment comes first, followed by ` — `;
/// without one it is only the line telling where the package is installed.
pub proof fn law_description_shape(pkg_type: Seq<char>, container: Seq<char>, comment: Option<Seq<char>>)
    ensures
        has_suffix(spec_description(container_label(pkg_type, container), comment), "("@ + container + ")"@),
        comment matches Some(c) ==> (c.len() > 0 ==> has_prefix(
            spec_description(container_label(pkg_type, container), comment),
            c + " — "@,
        )),
        !(comment matches Some(c) && c.len() > 0) ==> has_prefix(
            spec_description(container_label(pkg_type, container), comment),
            "Installed in "@,
        ),
{
    reveal_strlit("Installed in Debian container (");
    reveal_strlit("Installed in Fedora container (");
    reveal_strlit("Installed in Arch container (");
    reveal_strlit("Installed in container (");
    reveal_strlit("Installed in ");
    reveal_strlit(")");
    reveal_strlit(" — ");
    let label = container_label(pkg_type, container);
    let tail = "("@ + container + ")"@;
    let head = if pkg_type == "deb"@ {
        "Installed in Debian container "@
    } else if pkg_type == "rpm"@ {
        "Installed in Fedora container "@
    } else if pkg_type == "pacman"@ {
        "Installed in Arch container "@
    } else {
        "Installed in container "@
    };
    reveal_strlit("Installed in Debian container ");
    reveal_strlit("Installed in Fedora container ");
    reveal_strlit("Installed in Arch container ");
    reveal_strlit("Installed in container ");
    reveal_strlit("(");
    assert(label =~= head + tail);
    assert(label.subrange(label.len() - tail.len(), label.len() as int) =~= tail);
    assert(label.subrange(0, "Installed in "@.len() as int) =~= "Installed in "@);
    let d = spec_description(label, comment);
    if comment matches Some(c) && c.len() > 0 {
        let c = comment.unwrap();
        assert(d =~= (c + " — "@) + label);
        assert(d.subrange(0, (c + " — "@).len() as int) =~= c + " — "@);
        assert(d.subrange(d.len() - tail.len(), d.len() as int) =~= tail);
    }
}

/// The package that an index file (and the desktop entry of its first
/// exported application, when one was read) describes.
pub fn index_to_package(index: DistroboxIndex, desktop: Option<DesktopInfo>) -> (r: Package)
    ensures
        r.id@ == spec_package_id(index.container@, index.guessed_name@, index.pkg_type@),
        colon_free(index.container@) && colon_free(index.guessed_name@) ==> spec_split_package_id(
            r.id@,
        ) == Some((index.container@, index.guessed_name@, index.pkg_type@)),
        r.name@ == spec_display_name(
            index.real_name@,
            index.guessed_name@,
            match desktop { Some(d) => opt_view(d.name), None => None },
        ),
        r.description@ == spec_description(
            container_label(index.pkg_type@, index.container@),
            match desktop { Some(d) => opt_view(d.comment), None => None },
        ),
        opt_view(r.icon_url) == match desktop { Some(d) => opt_view(d.icon), None => None },
        r.version@ == Seq::<char>::empty(),
        r.provider == Provider::Distrobox,
        r.installed,
        r.remote is None,
        r.screenshots@.len() == 0,
        r.developer_name is None,
        r.homepage_url is None,
        r.content_rating is None,
        !r.is_runtime,
        r.categories@.len() == 0,
{
    proof {
        if colon_free(index.container@) && colon_free(index.guessed_name@) {
            law_package_id_roundtrip(index.container@, index.guessed_name@, index.pkg_type@);
        }
    }
    let (d_name, d_icon, d_comment) = match desktop {
        Some(d) => (d.name, d.icon, d.comment),
        None => (None, None, None),
    };
    let name = match d_name {
        Some(n) => n,
        None => if index.real_name.as_str().unicode_len() == 0 {
            index.guessed_name.clone()
        } else {
            index.real_name.clone()
        },
    };
    let mut label: Vec<char> = Vec::new();
    if str_eq(index.pkg_type.as_str(), "deb") {
        push_str(&mut label, "Installed in Debian container (");
    } else if str_eq(index.pkg_type.as_str(), "rpm") {
        push_str(&mut label, "Installed in Fedora container (");
    } else if str_eq(index.pkg_type.as_str(), "pacman") {
        push_str(&mut label, "Installed in Arch container (");
    } else {
        push_str(&mut label, "Installed in container (");
    }
    push_str(&mut label, index.container.as_str());
    push_str(&mut label, ")");
    let description = match d_comment {
        Some(c) => if c.as_str().unicode_len() > 0 {
            let mut d: Vec<char> = Vec::new();
            push_str(&mut d, c.as_str());
            push_str(&mut d, " — ");
            push_all(&mut d, &label);
            string_of(&d)
        } else {
            string_of(&label)
        },
        None => string_of(&label),
    };
    let mut id: Vec<char> = Vec::new();
    push_str(&mut id, "distrobox:");
    push_str(&mut id, index.container.as_str());
    push_str(&mut id, ":");
    push_str(&mut id, index.guessed_name.as_str());
    push_str(&mut id, ":");
    push_str(&mut id, index.pkg_type.as_str());
    Package {
        id: string_of(&id),
        name,
        version: String::new(),
        description,
        provider: Provider::Distrobox,
        installed: true,
        icon_url: d_icon,
        remote: None,
        screenshots: Vec::new(),
        developer_name: None,
        homepage_url: None,
        content_rating: None,
        is_runtime: false,
        categories: Vec::new(),
    }
}


/// The second `|`-separated field of a line of `distrobox list`, if the line has a `|`.
pub open spec fn second_field(line: Seq<char>) -> Option<Seq<char>> {
    match find_char(line, '|') {
        Some(i) => if 0 <= i < line.len() {
            Some(before_char(line.skip(i + 1), '|'))
        } else {
            None
        },
        None => None,
    }
}

/// The container names that the rows of `distrobox list` give: each row's
/// second field, trimmed, when that is not empty.
pub open spec fn names_of_rows(rows: Seq<Seq<char>>) -> Seq<Seq<char>>
    decreases rows.len(),
{
    if rows.len() == 0 {
        seq![]
    } else {
        names_of_rows(rows.drop_last()) + match second_field(rows.last()) {
            Some(f) => if trim(f).len() > 0 {
                seq![trim(f)]
            } else {
                seq![]
            },
            None => seq![],
        }
    }
}

/// The rows of `distrobox list` output: every line after the header.
pub open spec fn list_rows(stdout: Seq<char>) -> Seq<Seq<char>> {
    if lines(stdout).len() == 0 {
        seq![]
    } else {
        lines(stdout).skip(1)
    }
}

/// The second `|`-separated field of a line.
fn second_field_exec(line: &Vec<char>) -> (r: Option<Vec<char>>)
    ensures
        match r {
            Some(f) => second_field(line@) == Some(f@),
            None => second_field(line@) is None,
        },
{
    match find_ch(line, '|') {
        Some(i) => {
            proof { lemma_find_from_bounds(line@, seq!['|'], 0); }
            assert(i < line.len());
            let rest = slice_to_vec(line, i + 1, line.len());
            assert(rest@ =~= line@.skip(i + 1));
            Some(before_ch(&rest, '|'))
        },
        None => None,
    }
}

/// The lines of a text after the first one.
fn rows_of(stdout: &str) -> (r: Vec<Vec<char>>)
    ensures
        vecs_view(r@) == list_rows(stdout@),
{
    let c = chars_of(stdout);
    let ls = lines_of(&c);
    let mut r: Vec<Vec<char>> = Vec::new();
    let mut i: usize = 1;
    if ls.len() == 0 {
        assert(vecs_view(r@) =~= Seq::<Seq<char>>::empty());
        return r;
    }
    while i < ls.len()
        invariant
            1 <= i <= ls.len(),
            vecs_view(ls@) == lines(stdout@),
            vecs_view(r@) == vecs_view(ls@).subrange(1, i as int),
        decreases ls.len() - i,
    {
        let l = slice_to_vec(&ls[i], 0, ls[i].len());
        proof { lemma_vecs_view_push(r@, l); }
        assert(l@ =~= ls@[i as int]@);
        r.push(l);
        assert(vecs_view(r@) =~= vecs_view(ls@).subrange(1, i + 1));
        i = i + 1;
    }
    assert(vecs_view(ls@).subrange(1, ls.len() as int) =~= vecs_view(ls@).skip(1));
    r
}

/// The names of the containers that `distrobox list --no-color` shows.
pub fn parse_container_names(stdout: &str) -> (r: Vec<String>)
    ensures
        strings_view(r@) == names_of_rows(list_rows(stdout@)),
{
    let rows = rows_of(stdout);
    let mut r: Vec<String> = Vec::new();
    let mut i: usize = 0;
    assert(vecs_view(rows@).take(0) =~= Seq::<Seq<char>>::empty());
    while i < rows.len()
        invariant
            i <= rows.len(),
            vecs_view(rows@) == list_rows(stdout@),
            strings_view(r@) == names_of_rows(vecs_view(rows@).take(i as int)),
        decreases rows.len() - i,
    {
        proof {
            assert(vecs_view(rows@).take(i + 1).drop_last() =~= vecs_view(rows@).take(i as int));
            assert(vecs_view(rows@).take(i + 1).last() == rows@[i as int]@);
        }
        let ghost before = r@;
        match second_field_exec(&rows[i]) {
            Some(f) => {
                let tf = trim_exec(&f);
                if tf.len() > 0 {
                    r.push(string_of(&tf));
                    assert(strings_view(r@) =~= strings_view(before) + seq![tf@]);
                } else {
                    assert(strings_view(before) + Seq::<Seq<char>>::empty() =~= strings_view(before));
                }
            },
            None => {
                assert(strings_view(before) + Seq::<Seq<char>>::empty() =~= strings_view(before));
            },
        }
        i = i + 1;
    }
    assert(vecs_view(rows@).take(rows.len() as int) =~= vecs_view(rows@));
    r
}

/// A field that is present and, trimmed, equals `name`.
pub open spec fn field_is(f: Option<Seq<char>>, name: Seq<char>) -> bool {
    match f {
        Some(x) => trim(x) == name,
        None => false,
    }
}

/// Some row of `distrobox list` has `name` as its trimmed second field.
pub open spec fn rows_have(rows: Seq<Seq<char>>, name: Seq<char>) -> bool {
    exists|k: int| 0 <= k < rows.len() && field_is(#[trigger] second_field(rows[k]), name)
}

/// Whether `distrobox list --no-color` shows a container called `name`.
pub fn list_has_container(stdout: &str, name: &str) -> (r: bool)
    ensures
        r == rows_have(list_rows(stdout@), name@),
{
    let rows = rows_of(stdout);
    let nm = chars_of(name);
    let mut i: usize = 0;
    while i < rows.len()
        invariant
            i <= rows.len(),
            nm@ == name@,
            vecs_view(rows@) == list_rows(stdout@),
            forall|k: int|
                0 <= k < i ==> !field_is(#[trigger] second_field(vecs_view(rows@)[k]), name@),
        decreases rows.len() - i,
    {
        assert(vecs_view(rows@)[i as int] == rows@[i as int]@);
        match second_field_exec(&rows[i]) {
            Some(f) => {
                let tf = trim_exec(&f);
                if seq_eq(&tf, &nm) {
                    return true;
                }
            },
            None => {},
        }
        i = i + 1;
    }
    false
}

/// The parts of `splitn(4, ':')` when there are four of them.
pub open spec fn split4(id: Seq<char>) -> Option<(Seq<char>, Seq<char>, Seq<char>, Seq<char>)> {
    match find_char(id, ':') {
        Some(a) => if 0 <= a < id.len() {
            let r1 = id.skip(a + 1);
            match find_char(r1, ':') {
                Some(b) => if 0 <= b < r1.len() {
                    let r2 = r1.skip(b + 1);
                    match find_char(r2, ':') {
                        Some(c) => if 0 <= c < r2.len() {
                            Some((id.take(a), r1.take(b), r2.take(c), r2.skip(c + 1)))
                        } else {
                            None
                        },
                        None => None,
                    }
                } else {
                    None
                },
                None => None,
            }
        } else {
            None
        },
        None => None,
    }
}

/// Scanning from `i`, the first `c` is at `k` when `s[k]` is `c` and no `c`
/// comes between.
proof fn lemma_find_char_at(s: Seq<char>, c: char, i: int, k: int)
    requires
        0 <= i <= k < s.len(),
        s[k] == c,
        forall|j: int| i <= j < k ==> s[j] != c,
    ensures
        find_from(s, seq![c], i) == Some(k),
    decreases k - i,
{
    if s.subrange(i, i + 1) == seq![c] {
        assert(s.subrange(i, i + 1)[0] == s[i]);
    }
    if i == k {
        assert(s.subrange(i, i + 1) =~= seq![c]);
    } else {
        lemma_find_char_at(s, c, i + 1, k);
    }
}

/// Where a `:`-free text is followed by `:`, the first `:` is right after it.
proof fn lemma_first_colon(x: Seq<char>, y: Seq<char>)
    requires
        forall|j: int| 0 <= j < x.len() ==> x[j] != ':',
    ensures
        find_char(x + seq![':'] + y, ':') == Some(x.len() as int),
        (x + seq![':'] + y).take(x.len() as int) == x,
        (x + seq![':'] + y).skip(x.len() + 1int) == y,
{
    let s = x + seq![':'] + y;
    assert forall|j: int| 0 <= j < x.len() implies s[j] != ':' by {
        assert(s[j] == x[j]);
    }
    lemma_find_char_at(s, ':', 0, x.len() as int);
    assert(s.take(x.len() as int) =~= x);
    assert(s.skip(x.len() + 1int) =~= y);
}

/// No `:` in the text.
pub open spec fn colon_free(x: Seq<char>) -> bool {
    forall|j: int| 0 <= j < x.len() ==> x[j] != ':'
}

/// The id of an installed container package reads back, with
/// `split_package_id`, as the container, the guessed name and the format it
/// was made from, when neither the container nor the name holds a `:`.
pub proof fn law_package_id_roundtrip(container: Seq<char>, guessed: Seq<char>, pkg_type: Seq<char>)
    requires
        colon_free(container),
        colon_free(guessed),
    ensures
        spec_split_package_id(spec_package_id(container, guessed, pkg_type)) == Some(
            (container, guessed, pkg_type),
        ),
{
    reveal_strlit("distrobox:");
    reveal_strlit("distrobox");
    reveal_strlit(":");
    let head = "distrobox"@;
    assert("distrobox:"@ =~= head + seq![':']);
    assert(colon_free(head)) by {
        assert forall|j: int| 0 <= j < head.len() implies head[j] != ':' by {}
    }
    let id = spec_package_id(container, guessed, pkg_type);
    let r1 = container + seq![':'] + guessed + seq![':'] + pkg_type;
    assert(id =~= head + seq![':'] + r1);
    lemma_first_colon(head, r1);
    let r2 = guessed + seq![':'] + pkg_type;
    assert(r1 =~= container + seq![':'] + r2);
    lemma_first_colon(container, r2);
    lemma_first_colon(guessed, pkg_type);
}

/// Text before the first `:` and text after it.
fn split_colon(s: &Vec<char>) -> (r: Option<(Vec<char>, Vec<char>)>)
    ensures
        match r {
            Some((a, b)) => find_char(s@, ':') matches Some(i) && 0 <= i < s@.len() && a@ == s@.take(
                i,
            ) && b@ == s@.skip(i + 1),
            None => find_char(s@, ':') is None,
        },
{
    match find_ch(s, ':') {
        Some(i) => {
            proof { lemma_find_from_bounds(s@, seq![':'], 0); }
            assert(i < s.len());
            let a = slice_to_vec(s, 0, i);
            let b = slice_to_vec(s, i + 1, s.len());
            assert(a@ =~= s@.take(i as int));
            assert(b@ =~= s@.skip(i + 1));
            Some((a, b))
        },
        None => None,
    }
}

/// The container, guessed name and format text of a container package id
/// `distrobox:CONTAINER:GUESSED_NAME:PKG_TYPE`.
pub open spec fn spec_split_package_id(id: Seq<char>) -> Option<(Seq<char>, Seq<char>, Seq<char>)> {
    match split4(id) {
        Some((p0, p1, p2, p3)) => if p0 == "distrobox"@ {
            Some((p1, p2, p3))
        } else {
            None
        },
        None => None,
    }
}

/// Splits a container package id into container, guessed name and format text.
pub fn split_package_id(id: &str) -> (r: Option<(String, String, String)>)
    ensures
        match r {
            Some((c, g, t)) => spec_split_package_id(id@) == Some((c@, g@, t@)),
            None => spec_split_package_id(id@) is None,
        },
{
    let s = chars_of(id);
    let (p0, r1) = match split_colon(&s) {
        Some(x) => x,
        None => return None,
    };
    let (p1, r2) = match split_colon(&r1) {
        Some(x) => x,
        None => return None,
    };
    let (p2, p3) = match split_colon(&r2) {
        Some(x) => x,
        None => return None,
    };
    let head = chars_of("distrobox");
    if !seq_eq(&p0, &head) {
        return None;
    }
    Some((string_of(&p1), string_of(&p2), string_of(&p3)))
}

/// Why a container package id was refused.
#[derive(Debug, PartialEq, Eq)]
pub enum PackageIdError {
    /// Not of the form `distrobox:CONTAINER:GUESSED_NAME:PKG_TYPE`.
    Invalid,
    /// The format part names no known package format.
    UnknownType(String),
}

/// A container package id, read.
pub struct PackageId {
    pub container: String,
    pub guessed_name: String,
    pub pkg_type: PkgType,
}

/// Reads a container package id for removal.
pub fn parse_package_id(id: &str) -> (r: Result<PackageId, PackageIdError>)
    ensures
        match spec_split_package_id(id@) {
            None => r is Err && r->Err_0 == PackageIdError::Invalid,
            Some((c, g, t)) => match pkg_type_from_text(t) {
                None => r matches Err(PackageIdError::UnknownType(u)) && u@ == t,
                Some(pt) => r matches Ok(p) && p.container@ == c && p.guessed_name@ == g
                    && p.pkg_type == pt,
            },
        },
{
    match split_package_id(id) {
        None => Err(PackageIdError::Invalid),
        Some((container, guessed_name, t)) => match PkgType::from_str(t.as_str()) {
            None => Err(PackageIdError::UnknownType(t)),
            Some(pkg_type) => Ok(PackageId { container, guessed_name, pkg_type }),
        },
    }
}

/// Every value of a `key` line among `ls`, in order.
pub open spec fn all_fields(ls: Seq<Seq<char>>, key: Seq<char>) -> Seq<Seq<char>>
    decreases ls.len(),
{
    if ls.len() == 0 {
        seq![]
    } else {
        all_fields(ls.drop_last(), key) + if has_prefix(ls.last(), key) {
            seq![ls.last().skip(key.len() as int)]
        } else {
            seq![]
        }
    }
}

/// Every value of a `key` line, in order.
fn all_fields_of(ls: &Vec<Vec<char>>, key: &str) -> (r: Vec<String>)
    ensures
        strings_view(r@) == all_fields(vecs_view(ls@), key@),
{
    let k = chars_of(key);
    let mut r: Vec<String> = Vec::new();
    let mut i: usize = 0;
    assert(vecs_view(ls@).take(0) =~= Seq::<Seq<char>>::empty());
    while i < ls.len()
        invariant
            i <= ls.len(),
            k@ == key@,
            strings_view(r@) == all_fields(vecs_view(ls@).take(i as int), key@),
        decreases ls.len() - i,
    {
        proof {
            assert(vecs_view(ls@).take(i + 1).drop_last() =~= vecs_view(ls@).take(i as int));
            assert(vecs_view(ls@).take(i + 1).last() == ls@[i as int]@);
        }
        let ghost before = r@;
        if starts_with(&ls[i], &k) {
            let v = slice_to_vec(&ls[i], k.len(), ls[i].len());
            assert(v@ =~= ls@[i as int]@.skip(k@.len() as int));
            r.push(string_of(&v));
            assert(strings_view(r@) =~= strings_view(before) + seq![v@]);
        } else {
            assert(strings_view(before) + Seq::<Seq<char>>::empty() =~= strings_view(before));
        }
        i = i + 1;
    }
    assert(vecs_view(ls@).take(ls.len() as int) =~= vecs_view(ls@));
    r
}

/// What an install reported: the package's real name and what it exported.
pub struct ExportLog {
    pub real_name: String,
    pub apps: Vec<String>,
    pub bins: Vec<String>,
}

/// A value, or `fallback` when it is absent.
pub open spec fn or_else(o: Option<Seq<char>>, fallback: Seq<char>) -> Seq<char> {
    match o {
        Some(v) => v,
        None => fallback,
    }
}

/// Reads the log that the install helper writes: `pkgname:` gives the real
/// name (the last one counts; the guessed name stands otherwise), each `app:`
/// an exported application and each `bin:` an exported binary.
pub fn parse_export_log(log: &str, guessed_name: &str) -> (r: ExportLog)
    ensures
        r.real_name@ == or_else(last_field(lines(log@), "pkgname:"@), guessed_name@),
        strings_view(r.apps@) == all_fields(lines(log@), "app:"@),
        strings_view(r.bins@) == all_fields(lines(log@), "bin:"@),
{
    let c = chars_of(log);
    let ls = lines_of(&c);
    let real_name = match last_field_of(&ls, "pkgname:") {
        Some(v) => string_of(&v),
        None => guessed_name.to_owned(),
    };
    let apps = all_fields_of(&ls, "app:");
    let bins = all_fields_of(&ls, "bin:");
    ExportLog { real_name, apps, bins }
}

/// What removal needs from an index file: the real name (the guessed one when
/// absent) and the exported applications and binaries.
pub fn parse_removal(content: &str, guessed_name: &str) -> (r: ExportLog)
    ensures
        r.real_name@ == or_else(last_field(lines(content@), "REAL_NAME="@), guessed_name@),
        strings_view(r.apps@) == words(or_empty(last_field(lines(content@), "EXPORTED_APPS="@))),
        strings_view(r.bins@) == words(or_empty(last_field(lines(content@), "EXPORTED_BINS="@))),
{
    let c = chars_of(content);
    let ls = lines_of(&c);
    let real_name = match last_field_of(&ls, "REAL_NAME=") {
        Some(v) => string_of(&v),
        None => guessed_name.to_owned(),
    };
    let apps_text = last_field_or_empty(&ls, "EXPORTED_APPS=");
    let bins_text = last_field_or_empty(&ls, "EXPORTED_BINS=");
    let a = chars_of(apps_text.as_str());
    let b = chars_of(bins_text.as_str());
    ExportLog { real_name, apps: strings_from(&words_of(&a)), bins: strings_from(&words_of(&b)) }
}

/// The index file written after an install.
pub open spec fn spec_index_text(
    guessed: Seq<char>,
    real_name: Seq<char>,
    pkg_type: PkgType,
    container: Seq<char>,
    apps: Seq<Seq<char>>,
    bins: Seq<Seq<char>>,
) -> Seq<char> {
    "GUESSED_NAME="@ + guessed + "\nREAL_NAME="@ + real_name + "\nPKG_TYPE="@ + pkg_type_text(pkg_type)
        + "\nCONTAINER="@ + container + "\nEXPORTED_APPS="@ + join(apps, " "@)
        + "\nEXPORTED_BINS="@ + join(bins, " "@) + "\n"@
}

/// Writes the index file text for an installed package.
pub fn format_index(
    guessed_name: &str,
    log: &ExportLog,
    pkg_type: PkgType,
    container: &str,
) -> (r: String)
    ensures
        r@ == spec_index_text(
            guessed_name@,
            log.real_name@,
            pkg_type,
            container@,
            strings_view(log.apps@),
            strings_view(log.bins@),
        ),
{
    let mut v: Vec<char> = Vec::new();
    push_str(&mut v, "GUESSED_NAME=");
    push_str(&mut v, guessed_name);
    push_str(&mut v, "\nREAL_NAME=");
    push_str(&mut v, log.real_name.as_str());
    push_str(&mut v, "\nPKG_TYPE=");
    push_str(&mut v, pkg_type.as_str());
    push_str(&mut v, "\nCONTAINER=");
    push_str(&mut v, container);
    push_str(&mut v, "\nEXPORTED_APPS=");
    let apps = join_exec(&char_vecs_of(&log.apps), " ");
    push_all(&mut v, &apps);
    push_str(&mut v, "\nEXPORTED_BINS=");
    let bins = join_exec(&char_vecs_of(&log.bins), " ");
    push_all(&mut v, &bins);
    push_str(&mut v, "\n");
    string_of(&v)
}

/// Character vectors made of strings.
pub fn char_vecs_of(v: &Vec<String>) -> (r: Vec<Vec<char>>)
    ensures
        vecs_view(r@) == strings_view(v@),
{
    let mut r: Vec<Vec<char>> = Vec::new();
    let mut i: usize = 0;
    while i < v.len()
        invariant
            i <= v.len(),
            r.len() == i,
            vecs_view(r@) == strings_view(v@).take(i as int),
        decreases v.len() - i,
    {
        let c = chars_of(v[i].as_str());
        let ghost old_r = r@;
        r.push(c);
        assert forall|j: int| 0 <= j < i + 1 implies vecs_view(r@)[j] == strings_view(v@).take(
            i + 1,
        )[j] by {
            if j < i {
                assert(vecs_view(old_r)[j] == strings_view(v@).take(i as int)[j]);
                assert(r@[j] == old_r[j]);
            }
        }
        assert(vecs_view(r@) =~= strings_view(v@).take(i + 1));
        i = i + 1;
    }
    assert(strings_view(v@).take(v.len() as int) =~= strings_view(v@));
    r
}

/// What to start for an installed container package.
#[derive(Debug, PartialEq, Eq)]
pub enum LaunchTarget {
    /// An exported desktop application, started with `gtk-launch`.
    App(String),
    /// An exported binary under `~/.local/bin`.
    Bin(String),
}

/// The first word of the first `key` line, if there is one.
pub open spec fn first_word_of_field(ls: Seq<Seq<char>>, key: Seq<char>) -> Option<Seq<char>> {
    match first_field(ls, key) {
        Some(v) => if words(v).len() > 0 {
            Some(words(v)[0])
        } else {
            None
        },
        None => None,
    }
}

/// The first word of the first `key` line.
fn first_word_of_field_exec(ls: &Vec<Vec<char>>, key: &str) -> (r: Option<String>)
    ensures
        opt_view(r) == first_word_of_field(vecs_view(ls@), key@),
{
    match first_field_of(ls, key) {
        Some(v) => {
            let ws = words_of(&v);
            if ws.len() > 0 {
                assert(vecs_view(ws@)[0] == ws@[0]@);
                Some(string_of(&ws[0]))
            } else {
                None
            }
        },
        None => None,
    }
}

/// What starts an installed container package: its first exported
/// application, else its first exported binary.
pub fn launch_target(content: &str) -> (r: Option<LaunchTarget>)
    ensures
        match first_word_of_field(lines(content@), "EXPORTED_APPS="@) {
            Some(a) => r matches Some(LaunchTarget::App(x)) && x@ == a,
            None => match first_word_of_field(lines(content@), "EXPORTED_BINS="@) {
                Some(b) => r matches Some(LaunchTarget::Bin(x)) && x@ == b,
                None => r is None,
            },
        },
{
    let c = chars_of(content);
    let ls = lines_of(&c);
    match first_word_of_field_exec(&ls, "EXPORTED_APPS=") {
        Some(a) => Some(LaunchTarget::App(a)),
        None => match first_word_of_field_exec(&ls, "EXPORTED_BINS=") {
            Some(b) => Some(LaunchTarget::Bin(b)),
            None => None,
        },
    }
}

/// The work of one phase of a native package install.
#[derive(Clone, Copy, Debug, PartialEq, Eq, Structural)]
pub enum PhaseWork {
    /// Create the format's container if it does not exist yet.
    EnsureContainer,
    /// The one-time compatibility setup of the Debian container.
    DebianCompat,
    /// The one-time compatibility setup of the Arch container.
    ArchCompat,
    /// Install the package in the container and export its launchers.
    InstallAndExport,
}

/// A ticker that creeps the progress up, one step every `interval_secs`
/// seconds, up to `ceiling`.
#[derive(Clone, Copy, Debug, PartialEq, Eq, Structural)]
pub struct Ticker {
    pub ceiling: u8,
    pub interval_secs: u64,
}

/// One phase of a native package install: the progress reported when it
/// starts, the ticker that runs while it works, and its work.
#[derive(Clone, Copy, Debug, PartialEq, Eq, Structural)]
pub struct InstallPhase {
    pub report: u8,
    pub tick: Option<Ticker>,
    pub work: Option<PhaseWork>,
}

/// The phases of installing into `container`: making sure the container
/// exists, the compatibility setup of the Debian and Arch containers, the
/// install itself, and the progress reported at the end.
pub open spec fn spec_install_phases(container: Seq<char>) -> Seq<InstallPhase> {
    let compat = if container == CONTAINER_DEB@ {
        InstallPhase { report: 20, tick: Some(Ticker { ceiling: 55, interval_secs: 3 }), work: Some(PhaseWork::DebianCompat) }
    } else if container == CONTAINER_ARCH@ {
        InstallPhase { report: 20, tick: Some(Ticker { ceiling: 55, interval_secs: 3 }), work: Some(PhaseWork::ArchCompat) }
    } else {
        InstallPhase { report: 20, tick: None, work: None }
    };
    seq![
        InstallPhase { report: 5, tick: Some(Ticker { ceiling: 18, interval_secs: 2 }), work: Some(PhaseWork::EnsureContainer) },
        compat,
        InstallPhase { report: 60, tick: Some(Ticker { ceiling: 92, interval_secs: 2 }), work: Some(PhaseWork::InstallAndExport) },
        InstallPhase { report: 95, tick: None, work: None },
    ]
}

/// The phases of installing a package file into `container`.
pub fn install_phases(container: &str) -> (r: Vec<InstallPhase>)
    ensures
        r@ == spec_install_phases(container@),
{
    let compat = if str_eq(container, CONTAINER_DEB) {
        InstallPhase { report: 20, tick: Some(Ticker { ceiling: 55, interval_secs: 3 }), work: Some(PhaseWork::DebianCompat) }
    } else if str_eq(container, CONTAINER_ARCH) {
        InstallPhase { report: 20, tick: Some(Ticker { ceiling: 55, interval_secs: 3 }), work: Some(PhaseWork::ArchCompat) }
    } else {
        InstallPhase { report: 20, tick: None, work: None }
    };
    let r = vec![
        InstallPhase { report: 5, tick: Some(Ticker { ceiling: 18, interval_secs: 2 }), work: Some(PhaseWork::EnsureContainer) },
        compat,
        InstallPhase { report: 60, tick: Some(Ticker { ceiling: 92, interval_secs: 2 }), work: Some(PhaseWork::InstallAndExport) },
        InstallPhase { report: 95, tick: None, work: None },
    ];
    assert(r@ =~= spec_install_phases(container@));
    r
}

/// The next progress a ticker reports: one more, but never past `ceiling`.
pub fn next_tick(p: u8, ceiling: u8) -> (r: u8)
    ensures
        r == (if p < 255 && p + 1 < ceiling {
            (p + 1) as u8
        } else {
            ceiling
        }),
{
    let q = if p < 255 {
        p + 1
    } else {
        255
    };
    if q < ceiling {
        q
    } else {
        ceiling
    }
}

} // verus!
