//! Rendered application icons: what an icon is made from, where icon files
//! are looked for, and when a rendered icon is reused.

use vstd::prelude::*;
use crate::text::{has_suffix, path_join, path_join_exec, chars_of, push_str, string_of, str_ends_with};

verus! {

/// How long a rendered icon is reused.
pub const ICON_CACHE_TTL_SECS: u64 = 1800;

/// Icon sizes searched, best first.
pub open spec fn icon_sizes() -> Seq<Seq<char>> {
    seq!["128x128"@, "96x96"@, "64x64"@, "48x48"@, "scalable"@]
}

/// A rendered icon, as RGBA pixels.
#[derive(Clone, Debug)]
pub struct RawIcon {
    pub width: u32,
    pub height: u32,
    pub pixels: Vec<u8>,
}

/// A rendered icon and when it was rendered (seconds on a monotonic clock).
#[derive(Clone, Debug)]
pub struct CachedIcon {
    pub width: u32,
    pub height: u32,
    pub pixels: Vec<u8>,
    pub cached_at: u64,
}

/// Application metadata taken from the catalog.
#[derive(Clone, Debug)]
pub struct AppInfo {
    pub id: String,
    pub name: String,
    pub summary: String,
    pub description: String,
    pub icon_available: bool,
}

/// Where an icon's image comes from.
#[derive(Clone, Debug)]
pub enum IconData {
    Remote(String),
    Local(String),
    Stock(String),
}

/// An icon as the catalog describes it.
#[derive(Clone, Debug)]
pub enum CatalogIcon {
    Remote(String),
    Local(String),
    Cached(String),
    Stock(String),
}

/// Where an icon's image comes from, as values.
pub enum IconDataView {
    Remote(Seq<char>),
    Local(Seq<char>),
    Stock(Seq<char>),
}

impl IconData {
    pub open spec fn view(&self) -> IconDataView {
        match self {
            IconData::Remote(u) => IconDataView::Remote(u@),
            IconData::Local(p) => IconDataView::Local(p@),
            IconData::Stock(n) => IconDataView::Stock(n@),
        }
    }
}

/// The source of a catalog icon: a remote URL as is; a local or cached file
/// at the path found for it in the flatpak icon directories, or else looked
/// up by its name in the icon theme; a stock icon by its name.
pub open spec fn spec_icon_data(icon: CatalogIcon, found: Option<Seq<char>>) -> IconDataView {
    match icon {
        CatalogIcon::Remote(u) => IconDataView::Remote(u@),
        CatalogIcon::Local(p) | CatalogIcon::Cached(p) => match found {
            Some(f) => IconDataView::Local(f),
            None => IconDataView::Stock(p@),
        },
        CatalogIcon::Stock(n) => IconDataView::Stock(n@),
    }
}

/// The source of a catalog icon, given where its file was found (if it was).
pub fn icon_data(icon: CatalogIcon, found: Option<String>) -> (r: IconData)
    ensures
        r.view() == spec_icon_data(icon, match found {
            Some(f) => Some(f@),
            None => None,
        }),
{
    match icon {
        CatalogIcon::Remote(u) => IconData::Remote(u),
        CatalogIcon::Local(p) | CatalogIcon::Cached(p) => match found {
            Some(f) => IconData::Local(f),
            None => IconData::Stock(p),
        },
        CatalogIcon::Stock(n) => IconData::Stock(n),
    }
}

/// Whether a rendered icon is reused at `now` rather than rendered again.
pub fn icon_is_fresh(icon: &CachedIcon, now: u64) -> (r: bool)
    ensures
        r == ((if now >= icon.cached_at {
            now - icon.cached_at
        } else {
            0
        }) < ICON_CACHE_TTL_SECS),
{
    crate::routing::is_fresh(icon.cached_at, now, ICON_CACHE_TTL_SECS)
}

/// A rendered icon stamped with the time it was rendered.
pub fn cache_icon(raw: RawIcon, now: u64) -> (r: CachedIcon)
    ensures
        r.width == raw.width,
        r.height == raw.height,
        r.pixels@ == raw.pixels@,
        r.cached_at == now,
{
    CachedIcon { width: raw.width, height: raw.height, pixels: raw.pixels, cached_at: now }
}

/// Whether an icon file is an SVG (plain or compressed), by its extension.
pub open spec fn spec_is_vector_icon(path: Seq<char>) -> bool {
    has_suffix(path, ".svg"@) || has_suffix(path, ".svgz"@)
}

pub fn is_vector_icon(path: &str) -> (r: bool)
    ensures
        r == spec_is_vector_icon(path@),
{
    str_ends_with(path, ".svg") || str_ends_with(path, ".svgz")
}

/// The names an icon file may have inside a flatpak icon size directory: the
/// name as is, then (when it has no image extension) with `.png`, `.svg` and
/// `.svgz` added.
pub open spec fn spec_flatpak_icon_names(name: Seq<char>) -> Seq<Seq<char>> {
    if has_suffix(name, ".png"@) || has_suffix(name, ".svg"@) || has_suffix(name, ".svgz"@) {
        seq![name]
    } else {
        seq![name, name + ".png"@, name + ".svg"@, name + ".svgz"@]
    }
}

fn suffixed(name: &str, ext: &str) -> (r: String)
    ensures
        r@ == name@ + ext@,
{
    let mut v: Vec<char> = Vec::new();
    push_str(&mut v, name);
    push_str(&mut v, ext);
    string_of(&v)
}

/// The file names tried for an icon inside a flatpak icon size directory.
pub fn flatpak_icon_names(name: &str) -> (r: Vec<String>)
    ensures
        r@.map_values(|s: String| s@) == spec_flatpak_icon_names(name@),
{
    let mut out: Vec<String> = Vec::new();
    out.push(name.to_string());
    if !(str_ends_with(name, ".png") || str_ends_with(name, ".svg") || str_ends_with(
        name,
        ".svgz",
    )) {
        out.push(suffixed(name, ".png"));
        out.push(suffixed(name, ".svg"));
        out.push(suffixed(name, ".svgz"));
    }
    assert(out@.map_values(|s: String| s@) =~= spec_flatpak_icon_names(name@));
    out
}

/// The paths tried for a stock icon in one icon directory, in order: for
/// each size and each of png, svg and svgz, first under `apps`, then
/// directly in the size directory.
pub open spec fn spec_theme_icon_paths(dir: Seq<char>, name: Seq<char>) -> Seq<Seq<char>> {
    let exts = seq!["png"@, "svg"@, "svgz"@];
    Seq::new(
        30,
        |k: int|
            {
                let size = icon_sizes()[k / 6];
                let file = name + "."@ + exts[(k % 6) / 2];
                if k % 2 == 0 {
                    path_join(path_join(path_join(dir, size), "apps"@), file)
                } else {
                    path_join(path_join(dir, size), file)
                }
            },
    )
}

/// The paths tried for a stock icon in one icon directory.
pub fn theme_icon_paths(dir: &str, name: &str) -> (r: Vec<String>)
    ensures
        r@.map_values(|s: String| s@) == spec_theme_icon_paths(dir@, name@),
{
    let sizes: [&str; 5] = ["128x128", "96x96", "64x64", "48x48", "scalable"];
    let exts: [&str; 3] = ["png", "svg", "svgz"];
    proof {
        reveal_strlit("128x128");
        reveal_strlit("96x96");
        reveal_strlit("64x64");
        reveal_strlit("48x48");
        reveal_strlit("scalable");
        reveal_strlit("png");
        reveal_strlit("svg");
        reveal_strlit("svgz");
    }
    assert(sizes@.map_values(|s: &str| s@) =~= icon_sizes());
    let d = chars_of(dir);
    let apps = chars_of("apps");
    let mut out: Vec<String> = Vec::new();
    let mut si: usize = 0;
    while si < 5
        invariant
            0 <= si <= 5,
            sizes@.map_values(|s: &str| s@) == icon_sizes(),
            exts@.map_values(|s: &str| s@) == seq!["png"@, "svg"@, "svgz"@],
            d@ == dir@,
            apps@ == "apps"@,
            out@.len() == 6 * si,
            forall|k: int|
                0 <= k < 6 * si ==> (#[trigger] out@[k])@ == spec_theme_icon_paths(dir@, name@)[k],
        decreases 5 - si,
    {
        let size_dir = path_join_exec(&d, &chars_of(sizes[si]));
        let apps_dir = path_join_exec(&size_dir, &apps);
        let mut ei: usize = 0;
        while ei < 3
            invariant
                0 <= si < 5,
                0 <= ei <= 3,
                sizes@.map_values(|s: &str| s@) == icon_sizes(),
                exts@.map_values(|s: &str| s@) == seq!["png"@, "svg"@, "svgz"@],
                d@ == dir@,
                apps@ == "apps"@,
                size_dir@ == path_join(dir@, icon_sizes()[si as int]),
                apps_dir@ == path_join(path_join(dir@, icon_sizes()[si as int]), "apps"@),
                out@.len() == 6 * si + 2 * ei,
                forall|k: int|
                    0 <= k < 6 * si + 2 * ei ==> (#[trigger] out@[k])@ == spec_theme_icon_paths(
                        dir@,
                        name@,
                    )[k],
            decreases 3 - ei,
        {
            let mut file: Vec<char> = Vec::new();
            push_str(&mut file, name);
            push_str(&mut file, ".");
            push_str(&mut file, exts[ei]);
            let p1 = path_join_exec(&apps_dir, &file);
            let p2 = path_join_exec(&size_dir, &file);
            let ghost k1 = 6 * si + 2 * ei;
            proof {
                let exts_v = seq!["png"@, "svg"@, "svgz"@];
                assert(exts@[ei as int]@ == exts_v[ei as int]);
                assert((k1 % 6) / 2 == ei as int) by (nonlinear_arith)
                    requires
                        k1 == 6 * si + 2 * ei,
                        0 <= ei < 3,
                ;
                assert(k1 / 6 == si as int) by (nonlinear_arith)
                    requires
                        k1 == 6 * si + 2 * ei,
                        0 <= ei < 3,
                ;
                assert(k1 % 2 == 0) by (nonlinear_arith)
                    requires
                        k1 == 6 * si + 2 * ei,
                ;
                assert(((k1 + 1) % 6) / 2 == ei as int) by (nonlinear_arith)
                    requires
                        k1 == 6 * si + 2 * ei,
                        0 <= ei < 3,
                ;
                assert((k1 + 1) / 6 == si as int) by (nonlinear_arith)
                    requires
                        k1 == 6 * si + 2 * ei,
                        0 <= ei < 3,
                ;
                assert((k1 + 1) % 2 == 1) by (nonlinear_arith)
                    requires
                        k1 == 6 * si + 2 * ei,
                ;
            }
            out.push(string_of(&p1));
            out.push(string_of(&p2));
            ei += 1;
        }
        si += 1;
    }
    assert(out@.map_values(|s: String| s@) =~= spec_theme_icon_paths(dir@, name@));
    out
}

} // verus!
