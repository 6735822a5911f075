//! Which provider a package id belongs to, how fetches from all providers are
//! combined and cached, and how the download limit is resized.

use vstd::prelude::*;
use crate::package::{Package, Provider};
use crate::text::{
    count_ch, count_char, find_ch, find_char, has_prefix, has_suffix, lowercase, str_ends_with,
    str_starts_with, unicode_lowercase, chars_of,
};

verus! {

/// How long a full package list stays fresh.
pub const PACKAGE_CACHE_TTL_SECS: u64 = 900;

/// How long the list of available updates stays fresh.
pub const UPDATES_CACHE_TTL_SECS: u64 = 5400;

/// How long a network-bound provider may take to list its packages.
pub const PROVIDER_FETCH_TIMEOUT_SECS: u64 = 30;

/// How long the flatpak provider may take (it parses the whole catalog once).
pub const FLATPAK_FETCH_TIMEOUT_SECS: u64 = 180;

/// How soon a partial package list (some provider timed out) is refetched.
pub const RETRY_GRACE_SECS: u64 = 15;

/// The provider implementation a request goes to.
#[derive(Clone, Copy, Debug, PartialEq, Eq, Structural)]
pub enum Route {
    Pwa,
    AppImage,
    Lutris,
    Flatpak,
    Native,
}

pub open spec fn has_char(s: Seq<char>, c: char) -> bool {
    find_char(s, c) is Some
}

pub open spec fn spec_is_lutris_id(id: Seq<char>) -> bool {
    has_prefix(id, "lutris:"@)
}

pub open spec fn spec_is_pwa_id(id: Seq<char>) -> bool {
    has_prefix(id, "pwa:"@)
}

pub open spec fn spec_is_appimage_id(id: Seq<char>) -> bool {
    has_prefix(id, "appimage:"@) || has_suffix(unicode_lowercase(id), ".appimage"@)
}

/// Flatpak ids are reverse-DNS names: at least two dots, no slash or
/// semicolon, and none of the other providers' prefixes.
pub open spec fn spec_is_flatpak_id(id: Seq<char>) -> bool {
    &&& !has_char(id, '/')
    &&& !has_char(id, ';')
    &&& !has_prefix(id, "distrobox:"@)
    &&& !has_prefix(id, "lutris:"@)
    &&& !has_prefix(id, "appimage:"@)
    &&& !has_prefix(id, "pwa:"@)
    &&& count_char(id, '.') >= 2
}

/// Where install, remove, run and app-info requests go.
pub open spec fn spec_route(id: Seq<char>) -> Route {
    if spec_is_pwa_id(id) {
        Route::Pwa
    } else if spec_is_appimage_id(id) {
        Route::AppImage
    } else if spec_is_lutris_id(id) {
        Route::Lutris
    } else if spec_is_flatpak_id(id) {
        Route::Flatpak
    } else {
        Route::Native
    }
}

/// Where plain update requests go (Lutris has no updates of its own).
pub open spec fn spec_route_update(id: Seq<char>) -> Route {
    if spec_is_pwa_id(id) {
        Route::Pwa
    } else if spec_is_appimage_id(id) {
        Route::AppImage
    } else if spec_is_flatpak_id(id) {
        Route::Flatpak
    } else {
        Route::Native
    }
}

/// Where updates with progress reporting go.
pub open spec fn spec_route_update_with_progress(id: Seq<char>) -> Route {
    if spec_is_appimage_id(id) {
        Route::AppImage
    } else if spec_is_flatpak_id(id) {
        Route::Flatpak
    } else {
        Route::Native
    }
}

/// The provider recorded on a transaction for a package id.
pub open spec fn spec_provider_from_id(id: Seq<char>) -> Provider {
    if has_prefix(id, "pwa:"@) {
        Provider::Pwa
    } else if has_prefix(id, "lutris:"@) {
        Provider::Lutris
    } else if spec_is_appimage_id(id) {
        Provider::AppImage
    } else if !has_char(id, '/') && !has_char(id, ';') && !has_prefix(id, "distrobox:"@)
        && count_char(id, '.') >= 2 {
        Provider::Flatpak
    } else {
        Provider::Distrobox
    }
}

pub fn is_lutris_id(id: &str) -> (r: bool)
    ensures
        r == spec_is_lutris_id(id@),
{
    let p = "lutris:";
    str_starts_with(id, p)
}

pub fn is_pwa_id(id: &str) -> (r: bool)
    ensures
        r == spec_is_pwa_id(id@),
{
    str_starts_with(id, "pwa:")
}

pub fn is_appimage_id(id: &str) -> (r: bool)
    ensures
        r == spec_is_appimage_id(id@),
{
    if str_starts_with(id, "appimage:") {
        return true;
    }
    let lower = lowercase(id);
    str_ends_with(lower.as_str(), ".appimage")
}

pub fn is_flatpak_id(id: &str) -> (r: bool)
    ensures
        r == spec_is_flatpak_id(id@),
{
    let cs = chars_of(id);
    find_ch(&cs, '/').is_none() && find_ch(&cs, ';').is_none() && !str_starts_with(
        id,
        "distrobox:",
    ) && !str_starts_with(id, "lutris:") && !str_starts_with(id, "appimage:")
        && !str_starts_with(id, "pwa:") && count_ch(&cs, '.') >= 2
}

/// Where install, remove, run and app-info requests for `id` go.
pub fn route(id: &str) -> (r: Route)
    ensures
        r == spec_route(id@),
{
    if is_pwa_id(id) {
        Route::Pwa
    } else if is_appimage_id(id) {
        Route::AppImage
    } else if is_lutris_id(id) {
        Route::Lutris
    } else if is_flatpak_id(id) {
        Route::Flatpak
    } else {
        Route::Native
    }
}

/// Where a plain update of `id` goes.
pub fn route_update(id: &str) -> (r: Route)
    ensures
        r == spec_route_update(id@),
{
    if is_pwa_id(id) {
        Route::Pwa
    } else if is_appimage_id(id) {
        Route::AppImage
    } else if is_flatpak_id(id) {
        Route::Flatpak
    } else {
        Route::Native
    }
}

/// Where an update of `id` with progress reporting goes.
pub fn route_update_with_progress(id: &str) -> (r: Route)
    ensures
        r == spec_route_update_with_progress(id@),
{
    if is_appimage_id(id) {
        Route::AppImage
    } else if is_flatpak_id(id) {
        Route::Flatpak
    } else {
        Route::Native
    }
}

/// The provider recorded on a transaction for `package_id`.
pub fn provider_from_id(package_id: &str) -> (r: Provider)
    ensures
        r == spec_provider_from_id(package_id@),
{
    if str_starts_with(package_id, "pwa:") {
        return Provider::Pwa;
    }
    if str_starts_with(package_id, "lutris:") {
        return Provider::Lutris;
    }
    if is_appimage_id(package_id) {
        return Provider::AppImage;
    }
    let cs = chars_of(package_id);
    let looks_like_flatpak = find_ch(&cs, '/').is_none() && find_ch(&cs, ';').is_none()
        && !str_starts_with(package_id, "distrobox:") && count_ch(&cs, '.') >= 2;
    if looks_like_flatpak {
        Provider::Flatpak
    } else {
        Provider::Distrobox
    }
}

/// Whether a job notification is hidden: when the caller opted out, or while
/// the frontend window is on screen and shows progress itself.
pub fn kio_hidden(notify: bool, frontend_visible: bool) -> (r: bool)
    ensures
        r == (!notify || frontend_visible),
{
    if !notify {
        return true;
    }
    frontend_visible
}

/// Progress of a running install or update.
#[derive(Clone, Copy, Debug, Default)]
pub struct Progress {
    pub percent: u8,
    pub bytes_done: u64,
    pub bytes_total: u64,
}

impl Progress {
    /// Progress given only as a percentage.
    pub fn pct(percent: u8) -> (r: Self)
        ensures
            r.percent == percent,
            r.bytes_done == 0,
            r.bytes_total == 0,
    {
        Progress { percent, bytes_done: 0, bytes_total: 0 }
    }
}

/// What one provider's bounded fetch yields: its packages, and whether it
/// answered in time. A provider error yields nothing but counts as answered;
/// only a timeout (`None`) marks the result as partial.
pub fn settle_fetch(outcome: Option<Result<Vec<Package>, String>>) -> (r: (Vec<Package>, bool))
    ensures
        match outcome {
            Some(Ok(p)) => r.0@ == p@ && r.1,
            Some(Err(_)) => r.0@.len() == 0 && r.1,
            None => r.0@.len() == 0 && !r.1,
        },
{
    match outcome {
        Some(Ok(packages)) => (packages, true),
        Some(Err(_)) => (Vec::new(), true),
        None => (Vec::new(), false),
    }
}

pub open spec fn all_packages_of(parts: Seq<(Vec<Package>, bool)>) -> Seq<Package>
    decreases parts.len(),
{
    if parts.len() == 0 {
        Seq::empty()
    } else {
        all_packages_of(parts.drop_last()) + parts.last().0@
    }
}

pub open spec fn all_answered(parts: Seq<(Vec<Package>, bool)>) -> bool {
    forall|i: int| 0 <= i < parts.len() ==> (#[trigger] parts[i]).1
}

/// Joins the providers' results in order; the list is complete only when
/// every provider answered.
pub fn combine_fetches(parts: Vec<(Vec<Package>, bool)>) -> (r: (Vec<Package>, bool))
    ensures
        r.0@ == all_packages_of(parts@),
        r.1 == all_answered(parts@),
{
    let mut out: Vec<Package> = Vec::new();
    let mut complete = true;
    let ghost all = parts@;
    let total: usize = parts.len();
    let ghost n = all.len();
    assert(n == total);
    let mut parts = parts;
    let mut i: usize = 0;
    while parts.len() > 0
        invariant
            parts@ == all.subrange(i as int, n as int),
            i + parts@.len() == n,
            n == all.len(),
            n <= usize::MAX,
            out@ == all_packages_of(all.subrange(0, i as int)),
            complete == all_answered(all.subrange(0, i as int)),
        decreases parts.len(),
    {
        let (mut pk, ok) = parts.remove(0);
        assert(parts@ =~= all.subrange(i as int + 1, n as int));
        let ghost pk0 = pk@;
        out.append(&mut pk);
        complete = complete && ok;
        proof {
            let s = all.subrange(0, i as int + 1);
            assert(s.drop_last() =~= all.subrange(0, i as int));
            assert(s.last().0@ == pk0);
            assert(all_answered(s) == (all_answered(all.subrange(0, i as int)) && ok)) by {
                if all_answered(s) {
                    assert forall|k: int| 0 <= k < i implies (#[trigger] all.subrange(0, i as int)[k]).1 by {
                        assert(s[k] == all.subrange(0, i as int)[k]);
                    }
                    assert(s[i as int] == all[i as int]);
                }
                if all_answered(all.subrange(0, i as int)) && ok {
                    assert forall|k: int| 0 <= k < s.len() implies (#[trigger] s[k]).1 by {
                        if k < i {
                            assert(s[k] == all.subrange(0, i as int)[k]);
                        }
                    }
                }
            }
        }
        i += 1;
    }
    assert(all.subrange(0, n as int) =~= all);
    (out, complete)
}

/// How far back a freshly stored package list is dated: a complete list is
/// fresh for the full time to live, a partial one only for the retry grace.
pub fn cache_backdate_secs(complete: bool) -> (r: u64)
    ensures
        r == if complete {
            0
        } else {
            PACKAGE_CACHE_TTL_SECS - RETRY_GRACE_SECS
        },
{
    if complete {
        0
    } else {
        PACKAGE_CACHE_TTL_SECS - RETRY_GRACE_SECS
    }
}

/// Whether an entry stored at `cached_at` is still fresh at `now` (seconds
/// on a monotonic clock; a clock reading before the entry counts as no time
/// elapsed).
pub fn is_fresh(cached_at: u64, now: u64, ttl_secs: u64) -> (r: bool)
    ensures
        r == ((if now >= cached_at {
            now - cached_at
        } else {
            0
        }) < ttl_secs),
{
    let elapsed = if now >= cached_at {
        now - cached_at
    } else {
        0
    };
    elapsed < ttl_secs
}

/// How a change of the download limit is carried out.
#[derive(Clone, Copy, Debug, PartialEq, Eq, Structural)]
pub enum LimitChange {
    Unchanged,
    /// Add this many download slots right away.
    Add(usize),
    /// Take this many slots out of circulation as they come back.
    Retire(usize),
}

/// The new limit (at least one slot) and what to do to reach it from the
/// current one.
pub open spec fn spec_limit_plan(current: usize, requested: usize) -> (usize, LimitChange) {
    let target: usize = if requested == 0 {
        1
    } else {
        requested
    };
    if target > current {
        (target, LimitChange::Add((target - current) as usize))
    } else if target < current {
        (target, LimitChange::Retire((current - target) as usize))
    } else {
        (target, LimitChange::Unchanged)
    }
}

/// The new limit (at least one slot) and what to do to reach it from the
/// current one.
pub fn plan_limit_change(current: usize, requested: usize) -> (r: (usize, LimitChange))
    ensures
        r == spec_limit_plan(current, requested),
{
    let target = if requested == 0 {
        1
    } else {
        requested
    };
    if target > current {
        (target, LimitChange::Add(target - current))
    } else if target < current {
        (target, LimitChange::Retire(current - target))
    } else {
        (target, LimitChange::Unchanged)
    }
}

/// After retiring `surplus` slots of which only `retired` were free, how
/// many more must be taken as they come back (`None` when none).
pub open spec fn spec_remainder(surplus: usize, retired: usize) -> Option<usize> {
    if retired < surplus {
        Some((surplus - retired) as usize)
    } else {
        None
    }
}

/// After retiring `surplus` slots of which only `retired` were free, how
/// many more must be taken as they come back (`None` when none).
pub fn retire_remainder(surplus: usize, retired: usize) -> (r: Option<usize>)
    ensures
        r == spec_remainder(surplus, retired),
{
    if retired < surplus {
        Some(surplus - retired)
    } else {
        None
    }
}

/// Changing the download limit reaches the new limit: slots added make up
/// the difference, and when the limit drops the slots retired at once and
/// those taken later as they come back are exactly the surplus.
pub proof fn law_limit_change_reaches_target(current: usize, requested: usize, retired: usize)
    ensures
        spec_limit_plan(current, requested).0 >= 1,
        spec_limit_plan(current, requested).0 == (if requested == 0 {
            1
        } else {
            requested
        }),
        match spec_limit_plan(current, requested).1 {
            LimitChange::Add(k) => current + k == spec_limit_plan(current, requested).0,
            LimitChange::Retire(k) => current - k == spec_limit_plan(current, requested).0 && (
            retired <= k ==> retired + match spec_remainder(k, retired) {
                Some(m) => m as int,
                None => 0int,
            } == k),
            LimitChange::Unchanged => current == spec_limit_plan(current, requested).0,
        },
{
}

/// The packages of a provider's answer, none when it failed.
pub open spec fn answer_packages(a: Result<Vec<Package>, String>) -> Seq<Package> {
    match a {
        Ok(v) => v@,
        Err(_) => Seq::empty(),
    }
}

fn take_answer(a: Result<Vec<Package>, String>) -> (r: Vec<Package>)
    ensures
        r@ == answer_packages(a),
{
    match a {
        Ok(v) => v,
        Err(_) => Vec::new(),
    }
}

/// The package list fetched from every provider: the Flatpak, native,
/// Lutris, AppImage and web-app results in that order; complete only when
/// every provider answered in time.
pub fn merge_provider_fetches(
    flatpak: (Vec<Package>, bool),
    native: (Vec<Package>, bool),
    lutris: (Vec<Package>, bool),
    appimage: (Vec<Package>, bool),
    pwa: (Vec<Package>, bool),
) -> (r: (Vec<Package>, bool))
    ensures
        r.0@ == flatpak.0@ + native.0@ + lutris.0@ + appimage.0@ + pwa.0@,
        r.1 == (flatpak.1 && native.1 && lutris.1 && appimage.1 && pwa.1),
{
    let complete = flatpak.1 && native.1 && lutris.1 && appimage.1 && pwa.1;
    let mut out = flatpak.0;
    let mut n = native.0;
    let mut l = lutris.0;
    let mut a = appimage.0;
    let mut w = pwa.0;
    out.append(&mut n);
    out.append(&mut l);
    out.append(&mut a);
    out.append(&mut w);
    (out, complete)
}

/// The installed packages of every provider: the native, Flatpak, Lutris,
/// AppImage and web-app lists in that order, a provider that failed adding
/// nothing.
pub fn merge_installed(
    native: Result<Vec<Package>, String>,
    flatpak: Result<Vec<Package>, String>,
    lutris: Result<Vec<Package>, String>,
    appimage: Result<Vec<Package>, String>,
    pwa: Result<Vec<Package>, String>,
) -> (r: Vec<Package>)
    ensures
        r@ == answer_packages(native) + answer_packages(flatpak) + answer_packages(lutris)
            + answer_packages(appimage) + answer_packages(pwa),
{
    let mut out = take_answer(native);
    let mut f = take_answer(flatpak);
    let mut l = take_answer(lutris);
    let mut a = take_answer(appimage);
    let mut w = take_answer(pwa);
    out.append(&mut f);
    out.append(&mut l);
    out.append(&mut a);
    out.append(&mut w);
    out
}

/// The packages with an update: the native, Flatpak and AppImage lists in
/// that order, a provider that failed adding nothing.
pub fn merge_updates(
    native: Result<Vec<Package>, String>,
    flatpak: Result<Vec<Package>, String>,
    appimage: Result<Vec<Package>, String>,
) -> (r: Vec<Package>)
    ensures
        r@ == answer_packages(native) + answer_packages(flatpak) + answer_packages(appimage),
{
    let mut out = take_answer(native);
    let mut f = take_answer(flatpak);
    let mut a = take_answer(appimage);
    out.append(&mut f);
    out.append(&mut a);
    out
}

} // verus!
