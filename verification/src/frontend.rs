//! State kept by the frontend: package list filters, the transaction list's
//! labels and counters, cached detail pages and stashed stories.

use vstd::prelude::*;
use crate::package::{Package, Provider, provider_label};
use crate::transactions::{TransactionStatus, StatusView, Transaction, TransactionType};
use crate::text::{str_eq, opt_view};

verus! {

/// A transaction as the transaction list shows it.
#[derive(Clone, Copy, Debug, PartialEq, Eq, Structural)]
pub enum TxStatus {
    Pending,
    Running,
    Completed,
    Failed,
}

/// The status label of a transaction row.
pub fn status_str(status: TxStatus) -> (r: &'static str)
    ensures
        r@ == match status {
            TxStatus::Pending => "pending"@,
            TxStatus::Running => "running"@,
            TxStatus::Completed => "completed"@,
            TxStatus::Failed => "failed"@,
        },
{
    match status {
        TxStatus::Pending => "pending",
        TxStatus::Running => "running",
        TxStatus::Completed => "completed",
        TxStatus::Failed => "failed",
    }
}

/// The section a transaction row is listed under.
pub fn section_str(status: TxStatus) -> (r: &'static str)
    ensures
        r@ == match status {
            TxStatus::Running => "active"@,
            TxStatus::Pending => "pending"@,
            TxStatus::Completed | TxStatus::Failed => "completed"@,
        },
{
    match status {
        TxStatus::Running => "active",
        TxStatus::Pending => "pending",
        TxStatus::Completed | TxStatus::Failed => "completed",
    }
}

/// A daemon transaction status as the list shows it, with its error message.
pub fn row_status(status: &TransactionStatus) -> (r: (TxStatus, String))
    ensures
        match status@ {
            StatusView::Pending => r.0 == TxStatus::Pending && r.1@ == Seq::<char>::empty(),
            StatusView::Running => r.0 == TxStatus::Running && r.1@ == Seq::<char>::empty(),
            StatusView::Success => r.0 == TxStatus::Completed && r.1@ == Seq::<char>::empty(),
            StatusView::Failed(m) => r.0 == TxStatus::Failed && r.1@ == m,
        },
{
    match status {
        TransactionStatus::Pending => (TxStatus::Pending, String::new()),
        TransactionStatus::Running => (TxStatus::Running, String::new()),
        TransactionStatus::Success => (TxStatus::Completed, String::new()),
        TransactionStatus::Failed(msg) => (TxStatus::Failed, msg.clone()),
    }
}

pub open spec fn count_status(s: Seq<TxStatus>, which: TxStatus) -> nat
    decreases s.len(),
{
    if s.len() == 0 {
        0
    } else {
        count_status(s.drop_last(), which) + if s.last() == which {
            1nat
        } else {
            0nat
        }
    }
}

/// The counters of the transaction list.
#[derive(Clone, Copy, Debug, PartialEq, Eq, Structural)]
pub struct TxCounts {
    /// Pending or running.
    pub active: usize,
    pub running: usize,
    pub queued: usize,
    /// Completed or failed.
    pub done: usize,
}

/// Counts the transactions of each kind.
pub fn tx_counts(statuses: &Vec<TxStatus>) -> (r: TxCounts)
    ensures
        r.running == count_status(statuses@, TxStatus::Running),
        r.queued == count_status(statuses@, TxStatus::Pending),
        r.done == count_status(statuses@, TxStatus::Completed) + count_status(
            statuses@,
            TxStatus::Failed,
        ),
        r.active == r.running + r.queued,
{
    let mut running: usize = 0;
    let mut queued: usize = 0;
    let mut completed: usize = 0;
    let mut failed: usize = 0;
    let mut i: usize = 0;
    while i < statuses.len()
        invariant
            0 <= i <= statuses@.len(),
            running == count_status(statuses@.subrange(0, i as int), TxStatus::Running),
            queued == count_status(statuses@.subrange(0, i as int), TxStatus::Pending),
            completed == count_status(statuses@.subrange(0, i as int), TxStatus::Completed),
            failed == count_status(statuses@.subrange(0, i as int), TxStatus::Failed),
            running + queued + completed + failed == i,
        decreases statuses@.len() - i,
    {
        let ghost s = statuses@.subrange(0, i as int + 1);
        assert(s.drop_last() =~= statuses@.subrange(0, i as int));
        match statuses[i] {
            TxStatus::Running => running += 1,
            TxStatus::Pending => queued += 1,
            TxStatus::Completed => completed += 1,
            TxStatus::Failed => failed += 1,
        }
        i += 1;
    }
    assert(statuses@.subrange(0, i as int) =~= statuses@);
    TxCounts { active: running + queued, running, queued, done: completed + failed }
}

/// Which packages the installed filter keeps: 1 only installed ones, 2 only
/// ones not installed, anything else all.
pub open spec fn installed_filter_keeps(filter: i32, installed: bool) -> bool {
    if filter == 1 {
        installed
    } else if filter == 2 {
        !installed
    } else {
        true
    }
}

/// Whether a package passes the list filters (an empty provider filter keeps
/// every provider).
pub open spec fn passes_filters(p: Package, provider: Seq<char>, installed: i32) -> bool {
    (provider.len() == 0 || provider_label(p.provider) == provider) && installed_filter_keeps(
        installed,
        p.installed,
    )
}

/// The positions of the packages that pass the filters, in order.
pub open spec fn kept_rows(all: Seq<Package>, provider: Seq<char>, installed: i32) -> Seq<usize>
    decreases all.len(),
{
    if all.len() == 0 {
        Seq::empty()
    } else {
        let rest = kept_rows(all.drop_last(), provider, installed);
        if passes_filters(all.last(), provider, installed) {
            rest.push((all.len() - 1) as usize)
        } else {
            rest
        }
    }
}

/// The rows of the package list that pass the filters, by position.
pub fn filter_rows(all: &Vec<Package>, provider: &str, installed: i32) -> (r: Vec<usize>)
    ensures
        r@ == kept_rows(all@, provider@, installed),
{
    let mut r: Vec<usize> = Vec::new();
    let mut i: usize = 0;
    while i < all.len()
        invariant
            0 <= i <= all@.len(),
            r@ == kept_rows(all@.subrange(0, i as int), provider@, installed),
        decreases all@.len() - i,
    {
        let ghost s = all@.subrange(0, i as int + 1);
        assert(s.drop_last() =~= all@.subrange(0, i as int));
        let p = &all[i];
        let provider_ok = crate::text::chars_of(provider).len() == 0 || str_eq(
            crate::package::provider_str(p.provider),
            provider,
        );
        let installed_ok = if installed == 1 {
            p.installed
        } else if installed == 2 {
            !p.installed
        } else {
            true
        };
        proof {
            if provider@.len() == 0 {
                assert(provider@ =~= Seq::<char>::empty());
            }
        }
        if provider_ok && installed_ok {
            r.push(i);
        }
        i += 1;
    }
    assert(all@.subrange(0, i as int) =~= all@);
    r
}

/// The providers in the order their names sort.
pub open spec fn providers_by_name() -> Seq<Provider> {
    seq![Provider::AppImage, Provider::Distrobox, Provider::Flatpak, Provider::Lutris, Provider::Pwa]
}

/// The names of the providers of `order` that occur in `ps`, in order.
pub open spec fn present_names(order: Seq<Provider>, ps: Seq<Provider>) -> Seq<Seq<char>>
    decreases order.len(),
{
    if order.len() == 0 {
        Seq::empty()
    } else {
        let rest = present_names(order.drop_last(), ps);
        if ps.contains(order.last()) {
            rest.push(provider_label(order.last()))
        } else {
            rest
        }
    }
}

/// The names of the providers that occur, sorted, each once.
pub open spec fn provider_names_of(ps: Seq<Provider>) -> Seq<Seq<char>> {
    present_names(providers_by_name(), ps)
}

fn occurs(ps: &Vec<Provider>, p: Provider) -> (r: bool)
    ensures
        r == ps@.contains(p),
{
    let mut i: usize = 0;
    while i < ps.len()
        invariant
            0 <= i <= ps@.len(),
            forall|j: int| 0 <= j < i ==> ps@[j] != p,
        decreases ps@.len() - i,
    {
        if ps[i] == p {
            return true;
        }
        i += 1;
    }
    false
}

/// The names offered by the provider filter: those of the providers that
/// occur in the list, sorted, each once.
pub fn provider_names(ps: &Vec<Provider>) -> (r: Vec<&'static str>)
    ensures
        r@.map_values(|s: &str| s@) == provider_names_of(ps@),
{
    let order: [Provider; 5] = [
        Provider::AppImage,
        Provider::Distrobox,
        Provider::Flatpak,
        Provider::Lutris,
        Provider::Pwa,
    ];
    assert(order@ =~= providers_by_name());
    let mut r: Vec<&'static str> = Vec::new();
    let mut i: usize = 0;
    while i < 5
        invariant
            0 <= i <= 5,
            order@ == providers_by_name(),
            r@.map_values(|s: &str| s@) == present_names(providers_by_name().subrange(0, i as int), ps@),
        decreases 5 - i,
    {
        let p = order[i];
        let ghost pre = providers_by_name().subrange(0, i as int);
        let ghost next = providers_by_name().subrange(0, i as int + 1);
        assert(next.drop_last() =~= pre);
        assert(next.last() == p);
        if occurs(ps, p) {
            let name = crate::package::provider_str(p);
            r.push(name);
            assert(r@.map_values(|s: &str| s@) =~= present_names(next, ps@));
        } else {
            assert(r@.map_values(|s: &str| s@) =~= present_names(next, ps@));
        }
        i += 1;
    }
    assert(providers_by_name().subrange(0, 5) =~= providers_by_name());
    r
}

/// Whether two package lists hold the same ids in the same order.
pub fn same_ids(a: &Vec<Package>, b: &Vec<Package>) -> (r: bool)
    ensures
        r == (a@.len() == b@.len() && forall|i: int|
            0 <= i < a@.len() ==> (#[trigger] a@[i]).id@ == b@[i].id@),
{
    if a.len() != b.len() {
        return false;
    }
    let mut i: usize = 0;
    while i < a.len()
        invariant
            0 <= i <= a@.len(),
            a@.len() == b@.len(),
            forall|j: int| 0 <= j < i ==> (#[trigger] a@[j]).id@ == b@[j].id@,
        decreases a@.len() - i,
    {
        if !str_eq(a[i].id.as_str(), b[i].id.as_str()) {
            return false;
        }
        i += 1;
    }
    true
}

/// Which package list is shown.
#[derive(Clone, Copy, Debug, PartialEq, Eq, Structural)]
pub enum ListMode {
    Search,
    Installed,
    Updates,
}

/// What a finished transaction does to its package's row.
#[derive(Clone, Copy, Debug, PartialEq, Eq, Structural)]
pub enum RowChange {
    /// The row leaves the list.
    Drop,
    /// The row stops being busy; on success its installed flag is set.
    Settle { installed: Option<bool> },
}

pub open spec fn is_remove_type(tx_type: Seq<char>) -> bool {
    tx_type == "remove"@ || tx_type == "remove_with_data"@
}

/// A successful removal drops the row from the installed list, and a
/// successful update drops it from the updates list; otherwise the row
/// settles, installed unless it was removed.
pub open spec fn spec_row_change(tx_type: Seq<char>, success: bool, mode: ListMode) -> RowChange {
    let is_remove = is_remove_type(tx_type);
    let is_update = tx_type == "update"@;
    if success && ((is_remove && mode == ListMode::Installed) || (is_update && mode
        == ListMode::Updates)) {
        RowChange::Drop
    } else if success {
        RowChange::Settle { installed: Some(!is_remove) }
    } else {
        RowChange::Settle { installed: None }
    }
}

/// What a finished transaction does to its package's row.
pub fn row_change(tx_type: &str, success: bool, mode: ListMode) -> (r: RowChange)
    ensures
        r == spec_row_change(tx_type@, success, mode),
{
    let is_remove = str_eq(tx_type, "remove") || str_eq(tx_type, "remove_with_data");
    let is_update = str_eq(tx_type, "update");
    if success && ((is_remove && mode == ListMode::Installed) || (is_update && mode
        == ListMode::Updates)) {
        RowChange::Drop
    } else if success {
        RowChange::Settle { installed: Some(!is_remove) }
    } else {
        RowChange::Settle { installed: None }
    }
}

pub open spec fn spec_static_item_type(s: Seq<char>) -> Seq<char> {
    if s == "h1"@ || s == "h2"@ || s == "h3"@ || s == "br"@ || s == "categories"@ || s
        == "app-row"@ || s == "app-grid"@ || s == "carousel"@ || s == "links"@ {
        s
    } else {
        "p"@
    }
}

/// The section type of a stored home feed section; an unknown one is a
/// paragraph.
pub fn static_item_type(s: &str) -> (r: &'static str)
    ensures
        r@ == spec_static_item_type(s@),
{
    let known: [&'static str; 9] = [
        "h1",
        "h2",
        "h3",
        "br",
        "categories",
        "app-row",
        "app-grid",
        "carousel",
        "links",
    ];
    let mut i: usize = 0;
    while i < 9
        invariant
            0 <= i <= 9,
            known@.map_values(|k: &str| k@) == seq![
                "h1"@,
                "h2"@,
                "h3"@,
                "br"@,
                "categories"@,
                "app-row"@,
                "app-grid"@,
                "carousel"@,
                "links"@,
            ],
            forall|j: int| 0 <= j < i ==> known@[j]@ != s@,
        decreases 9 - i,
    {
        if str_eq(known[i], s) {
            return known[i];
        }
        i += 1;
    }
    "p"
}

/// What the detail page shows for a package, kept so that revisiting it is
/// instant.
#[derive(Clone, Debug)]
pub struct CachedDetail {
    pub name: String,
    pub summary: String,
    pub description: String,
    pub icon_url: String,
    pub developer_name: String,
    pub homepage_url: String,
    pub content_rating: String,
    pub version: String,
    pub license: String,
    pub eula_url: String,
    pub extensions_json: String,
    pub installed: bool,
    pub screenshots: Vec<String>,
}

/// Cached detail pages by package id.
pub struct DetailCache {
    pub entries: Vec<(String, CachedDetail)>,
}

pub open spec fn with_installed(d: CachedDetail, installed: bool) -> CachedDetail {
    CachedDetail {
        name: d.name,
        summary: d.summary,
        description: d.description,
        icon_url: d.icon_url,
        developer_name: d.developer_name,
        homepage_url: d.homepage_url,
        content_rating: d.content_rating,
        version: d.version,
        license: d.license,
        eula_url: d.eula_url,
        extensions_json: d.extensions_json,
        installed,
        screenshots: d.screenshots,
    }
}

/// Records a package's new installed state in its cached detail page, if
/// there is one; other pages are untouched.
pub fn sync_installed(cache: &mut DetailCache, pkg_id: &str, installed: bool)
    ensures
        final(cache).entries@.len() == old(cache).entries@.len(),
        forall|i: int|
            0 <= i < old(cache).entries@.len() ==> (#[trigger] final(cache).entries@[i]) == if old(
                cache,
            ).entries@[i].0@ == pkg_id@ {
                (old(cache).entries@[i].0, with_installed(old(cache).entries@[i].1, installed))
            } else {
                old(cache).entries@[i]
            },
{
    let mut i: usize = 0;
    while i < cache.entries.len()
        invariant
            0 <= i <= cache.entries@.len(),
            cache.entries@.len() == old(cache).entries@.len(),
            forall|j: int|
                0 <= j < i ==> (#[trigger] cache.entries@[j]) == if old(cache).entries@[j].0@
                    == pkg_id@ {
                    (old(cache).entries@[j].0, with_installed(old(cache).entries@[j].1, installed))
                } else {
                    old(cache).entries@[j]
                },
            forall|j: int| i <= j < cache.entries@.len() ==> cache.entries@[j] == old(cache).entries@[j],
        decreases cache.entries@.len() - i,
    {
        if str_eq(cache.entries[i].0.as_str(), pkg_id) {
            let (key, d) = cache.entries.remove(i);
            let nd = CachedDetail {
                name: d.name,
                summary: d.summary,
                description: d.description,
                icon_url: d.icon_url,
                developer_name: d.developer_name,
                homepage_url: d.homepage_url,
                content_rating: d.content_rating,
                version: d.version,
                license: d.license,
                eula_url: d.eula_url,
                extensions_json: d.extensions_json,
                installed,
                screenshots: d.screenshots,
            };
            cache.entries.insert(i, (key, nd));
        }
        i += 1;
    }
}

/// A story of the home feed.
#[derive(Clone, Debug)]
pub struct Story {
    pub id: String,
    pub title: String,
    pub banner_url: String,
    pub body_html: String,
}

/// The stories of the last home feed, so that opening one needs no refetch.
pub struct StoryStash {
    pub stories: Vec<Story>,
}

/// Replaces the stashed stories.
pub fn stash_stories(stash: &mut StoryStash, stories: Vec<Story>)
    ensures
        final(stash).stories@ == stories@,
{
    stash.stories = stories;
}

/// The position of the stashed story with this id (the first one).
pub fn find_story(stash: &StoryStash, id: &str) -> (r: Option<usize>)
    ensures
        match r {
            Some(i) => i < stash.stories@.len() && stash.stories@[i as int].id@ == id@ && forall|
                j: int,
            | 0 <= j < i ==> (#[trigger] stash.stories@[j]).id@ != id@,
            None => forall|j: int|
                0 <= j < stash.stories@.len() ==> (#[trigger] stash.stories@[j]).id@ != id@,
        },
{
    let mut i: usize = 0;
    while i < stash.stories.len()
        invariant
            0 <= i <= stash.stories@.len(),
            forall|j: int| 0 <= j < i ==> (#[trigger] stash.stories@[j]).id@ != id@,
        decreases stash.stories@.len() - i,
    {
        if str_eq(stash.stories[i].id.as_str(), id) {
            return Some(i);
        }
        i += 1;
    }
    None
}


/// What the daemon reports of an app's catalog data for its detail page
/// (every field optional in the reply; absent text is empty).
pub struct AppMetadata {
    pub summary: String,
    pub description: String,
    pub icon_url: Option<String>,
    pub screenshots: Vec<String>,
    pub homepage_url: Option<String>,
    pub content_rating: String,
    pub developer_name: Option<String>,
    pub license: Option<String>,
    pub eula_url: Option<String>,
}

/// The icon a detail page starts from: the catalog's, else the package's.
pub fn raw_icon_url(meta: &AppMetadata, package: &Option<Package>) -> (r: Option<String>)
    ensures
        opt_view(r) == match meta.icon_url {
            Some(u) => Some(u@),
            None => match *package {
                Some(p) => opt_view(p.icon_url),
                None => None,
            },
        },
{
    match &meta.icon_url {
        Some(u) => Some(u.clone()),
        None => match package {
            Some(p) => match &p.icon_url {
                Some(u) => Some(u.clone()),
                None => None,
            },
            None => None,
        },
    }
}

fn text_or_empty(o: Option<String>) -> (r: String)
    ensures
        r@ == match o {
            Some(s) => s@,
            None => Seq::<char>::empty(),
        },
{
    match o {
        Some(s) => s,
        None => String::new(),
    }
}

/// The detail page of an app from what the daemon reported: name, version
/// and installed state from the package (when it knows the package), the
/// summary from the catalog or else the package's description, the rest
/// from the catalog; `icon_url` is the resolved icon.
pub fn detail_from(
    package: Option<Package>,
    meta: AppMetadata,
    icon_url: String,
    extensions_json: String,
) -> (r: CachedDetail)
    ensures
        r.name@ == match package {
            Some(p) => p.name@,
            None => Seq::<char>::empty(),
        },
        r.installed == match package {
            Some(p) => p.installed,
            None => false,
        },
        r.version@ == match package {
            Some(p) => p.version@,
            None => Seq::<char>::empty(),
        },
        r.summary@ == if meta.summary@.len() == 0 {
            match package {
                Some(p) => p.description@,
                None => Seq::<char>::empty(),
            }
        } else {
            meta.summary@
        },
        r.description == meta.description,
        r.icon_url == icon_url,
        r.developer_name@ == match meta.developer_name {
            Some(s) => s@,
            None => Seq::<char>::empty(),
        },
        r.homepage_url@ == match meta.homepage_url {
            Some(s) => s@,
            None => Seq::<char>::empty(),
        },
        r.content_rating == meta.content_rating,
        r.license@ == match meta.license {
            Some(s) => s@,
            None => Seq::<char>::empty(),
        },
        r.eula_url@ == match meta.eula_url {
            Some(s) => s@,
            None => Seq::<char>::empty(),
        },
        r.extensions_json == extensions_json,
        r.screenshots == meta.screenshots,
{
    let (name, installed, version, description) = match package {
        Some(p) => (p.name, p.installed, p.version, p.description),
        None => (String::new(), false, String::new(), String::new()),
    };
    let summary = if meta.summary.as_str().unicode_len() == 0 {
        description
    } else {
        meta.summary
    };
    CachedDetail {
        name,
        summary,
        description: meta.description,
        icon_url,
        developer_name: text_or_empty(meta.developer_name),
        homepage_url: text_or_empty(meta.homepage_url),
        content_rating: meta.content_rating,
        version,
        license: text_or_empty(meta.license),
        eula_url: text_or_empty(meta.eula_url),
        extensions_json,
        installed,
        screenshots: meta.screenshots,
    }
}

/// The first cached page of a package id.
pub open spec fn cache_pos(entries: Seq<(String, CachedDetail)>, id: Seq<char>) -> Option<int>
    decreases entries.len(),
{
    if entries.len() == 0 {
        None
    } else if entries[0].0@ == id {
        Some(0)
    } else {
        match cache_pos(entries.drop_first(), id) {
            Some(i) => Some(i + 1),
            None => None,
        }
    }
}

proof fn lemma_cache_pos(entries: Seq<(String, CachedDetail)>, id: Seq<char>, i: int)
    requires
        0 <= i <= entries.len(),
        forall|j: int| 0 <= j < i ==> entries[j].0@ != id,
    ensures
        i < entries.len() && entries[i].0@ == id ==> cache_pos(entries, id) == Some(i),
        i == entries.len() ==> cache_pos(entries, id) is None,
    decreases i,
{
    if i > 0 {
        lemma_cache_pos(entries.drop_first(), id, i - 1);
    }
}

impl DetailCache {
    /// Nothing cached.
    pub fn new() -> (r: Self)
        ensures
            r.entries@.len() == 0,
    {
        DetailCache { entries: Vec::new() }
    }

    /// Where the page of a package id is cached.
    pub fn position(&self, pkg_id: &str) -> (r: Option<usize>)
        ensures
            match r {
                Some(i) => cache_pos(self.entries@, pkg_id@) == Some(i as int) && i < self.entries@.len(),
                None => cache_pos(self.entries@, pkg_id@) is None,
            },
    {
        let mut i: usize = 0;
        while i < self.entries.len()
            invariant
                0 <= i <= self.entries@.len(),
                forall|j: int| 0 <= j < i ==> self.entries@[j].0@ != pkg_id@,
            decreases self.entries@.len() - i,
        {
            if str_eq(self.entries[i].0.as_str(), pkg_id) {
                proof {
                    lemma_cache_pos(self.entries@, pkg_id@, i as int);
                }
                return Some(i);
            }
            i += 1;
        }
        proof {
            lemma_cache_pos(self.entries@, pkg_id@, i as int);
        }
        None
    }

    /// Caches the page of a package id, replacing the one it had.
    pub fn insert(&mut self, pkg_id: String, detail: CachedDetail)
        ensures
            match cache_pos(old(self).entries@, pkg_id@) {
                Some(i) => final(self).entries@ == old(self).entries@.update(i, (old(self).entries@[i].0, detail)),
                None => final(self).entries@ == old(self).entries@.push((pkg_id, detail)),
            },
    {
        match self.position(pkg_id.as_str()) {
            Some(i) => {
                let (k, _) = self.entries.remove(i);
                self.entries.insert(i, (k, detail));
                assert(self.entries@ =~= old(self).entries@.update(i as int, (old(self).entries@[i as int].0, detail)));
            },
            None => {
                self.entries.push((pkg_id, detail));
            },
        }
    }

    /// Records freshly fetched extensions in the cached page of a package id,
    /// if it has one.
    pub fn set_extensions(&mut self, pkg_id: &str, json: String)
        ensures
            match cache_pos(old(self).entries@, pkg_id@) {
                Some(i) => final(self).entries@.len() == old(self).entries@.len()
                    && final(self).entries@[i].1.extensions_json == json
                    && final(self).entries@[i].1.installed == old(self).entries@[i].1.installed
                    && final(self).entries@[i].1.name == old(self).entries@[i].1.name
                    && final(self).entries@[i].0 == old(self).entries@[i].0
                    && forall|j: int| 0 <= j < old(self).entries@.len() && j != i ==> final(self).entries@[j] == old(self).entries@[j],
                None => final(self).entries@ == old(self).entries@,
            },
    {
        match self.position(pkg_id) {
            Some(i) => {
                let (k, d) = self.entries.remove(i);
                let nd = CachedDetail {
                    name: d.name,
                    summary: d.summary,
                    description: d.description,
                    icon_url: d.icon_url,
                    developer_name: d.developer_name,
                    homepage_url: d.homepage_url,
                    content_rating: d.content_rating,
                    version: d.version,
                    license: d.license,
                    eula_url: d.eula_url,
                    extensions_json: json,
                    installed: d.installed,
                    screenshots: d.screenshots,
                };
                self.entries.insert(i, (k, nd));
            },
            None => {},
        }
    }
}

/// The home feed list: whether it is loading, and its sections.
pub struct HomeFeedModelRust<S> {
    pub loading: bool,
    pub sections: Vec<S>,
}

impl<S> HomeFeedModelRust<S> {
    /// Loading, with no sections yet.
    pub fn new() -> (r: Self)
        ensures
            r.loading,
            r.sections@.len() == 0,
    {
        HomeFeedModelRust { loading: true, sections: Vec::new() }
    }

    /// Whether opening the home page needs the saved sections: only while it
    /// shows none.
    pub fn wants_saved(&self) -> (r: bool)
        ensures
            r == (self.sections@.len() == 0),
    {
        self.sections.len() == 0
    }

    /// Shows saved sections while the feed is fetched.
    pub fn show_saved(&mut self, sections: Vec<S>)
        ensures
            final(self).sections@ == sections@,
            final(self).loading == old(self).loading,
    {
        self.sections = sections;
    }

    /// Starts fetching the feed (on opening or refreshing): the page shows as
    /// loading only when it has nothing to show meanwhile.
    pub fn begin_fetch(&mut self)
        ensures
            final(self).loading == (old(self).sections@.len() == 0),
            final(self).sections@ == old(self).sections@,
    {
        self.loading = self.sections.len() == 0;
    }

    /// Takes in the fetched feed.
    pub fn finish_fetch(&mut self, sections: Vec<S>)
        ensures
            final(self).sections@ == sections@,
            !final(self).loading,
    {
        self.sections = sections;
        self.loading = false;
    }

    /// How many sections the page shows.
    pub fn row_count(&self) -> (r: usize)
        ensures
            r == self.sections@.len(),
    {
        self.sections.len()
    }
}


/// A row of the transaction list. Its progress is the percentage the daemon
/// reported.
pub struct TxRow {
    /// The daemon's id of the transaction (empty until the daemon accepted it).
    pub id: String,
    pub pkg_id: String,
    pub name: String,
    pub icon_url: String,
    pub percent: u8,
    pub status: TxStatus,
    pub tx_type: String,
    pub error: String,
}

/// Waiting or running.
pub open spec fn row_live(r: TxRow) -> bool {
    r.status == TxStatus::Pending || r.status == TxStatus::Running
}

/// The first waiting or running row of a package.
pub open spec fn first_live(rows: Seq<TxRow>, pkg_id: Seq<char>) -> Option<int>
    decreases rows.len(),
{
    if rows.len() == 0 {
        None
    } else if rows[0].pkg_id@ == pkg_id && row_live(rows[0]) {
        Some(0)
    } else {
        match first_live(rows.drop_first(), pkg_id) {
            Some(i) => Some(i + 1),
            None => None,
        }
    }
}

/// The first row with a transaction id.
pub open spec fn first_with_tx_id(rows: Seq<TxRow>, id: Seq<char>) -> Option<int>
    decreases rows.len(),
{
    if rows.len() == 0 {
        None
    } else if rows[0].id@ == id {
        Some(0)
    } else {
        match first_with_tx_id(rows.drop_first(), id) {
            Some(i) => Some(i + 1),
            None => None,
        }
    }
}

proof fn lemma_first_live(rows: Seq<TxRow>, pkg_id: Seq<char>, i: int)
    requires
        0 <= i <= rows.len(),
        forall|j: int| 0 <= j < i ==> !(rows[j].pkg_id@ == pkg_id && row_live(rows[j])),
    ensures
        i < rows.len() && rows[i].pkg_id@ == pkg_id && row_live(rows[i]) ==> first_live(rows, pkg_id)
            == Some(i),
        i == rows.len() ==> first_live(rows, pkg_id) is None,
    decreases i,
{
    if i > 0 {
        lemma_first_live(rows.drop_first(), pkg_id, i - 1);
    }
}

proof fn lemma_first_with_tx_id(rows: Seq<TxRow>, id: Seq<char>, i: int)
    requires
        0 <= i <= rows.len(),
        forall|j: int| 0 <= j < i ==> rows[j].id@ != id,
    ensures
        i < rows.len() && rows[i].id@ == id ==> first_with_tx_id(rows, id) == Some(i),
        i == rows.len() ==> first_with_tx_id(rows, id) is None,
    decreases i,
{
    if i > 0 {
        lemma_first_with_tx_id(rows.drop_first(), id, i - 1);
    }
}

/// The live rows, in order.
pub open spec fn live_rows(rows: Seq<TxRow>) -> Seq<TxRow>
    decreases rows.len(),
{
    if rows.len() == 0 {
        rows
    } else {
        let r = live_rows(rows.drop_last());
        if row_live(rows.last()) {
            r.push(rows.last())
        } else {
            r
        }
    }
}

/// No package has two rows waiting or running at once.
pub open spec fn one_live_per_package(rows: Seq<TxRow>) -> bool {
    forall|i: int, j: int|
        0 <= i < rows.len() && 0 <= j < rows.len() && i != j && row_live(rows[i]) && row_live(
            rows[j],
        ) ==> rows[i].pkg_id@ != rows[j].pkg_id@
}

proof fn lemma_first_live_none(rows: Seq<TxRow>, pkg_id: Seq<char>)
    requires
        first_live(rows, pkg_id) is None,
    ensures
        forall|j: int| 0 <= j < rows.len() ==> !(rows[j].pkg_id@ == pkg_id && row_live(rows[j])),
    decreases rows.len(),
{
    if rows.len() > 0 {
        lemma_first_live_none(rows.drop_first(), pkg_id);
        assert forall|j: int| 0 <= j < rows.len() implies !(rows[j].pkg_id@ == pkg_id && row_live(
            rows[j],
        )) by {
            if j > 0 {
                assert(rows[j] == rows.drop_first()[j - 1]);
            }
        }
    }
}

proof fn lemma_live_rows_members(rows: Seq<TxRow>)
    ensures
        forall|k: int|
            0 <= k < live_rows(rows).len() ==> row_live(#[trigger] live_rows(rows)[k]) && exists|
                m: int,
            | 0 <= m < rows.len() && rows[m] == live_rows(rows)[k],
        live_rows(rows).len() <= rows.len(),
    decreases rows.len(),
{
    if rows.len() > 0 {
        lemma_live_rows_members(rows.drop_last());
        let r = live_rows(rows.drop_last());
        assert forall|k: int| 0 <= k < live_rows(rows).len() implies row_live(
            #[trigger] live_rows(rows)[k],
        ) && exists|m: int| 0 <= m < rows.len() && rows[m] == live_rows(rows)[k] by {
            if k < r.len() {
                assert(live_rows(rows)[k] == r[k]);
                let m = choose|m: int| 0 <= m < rows.drop_last().len() && rows.drop_last()[m] == r[k];
                assert(rows[m] == rows.drop_last()[m]);
            } else {
                assert(live_rows(rows)[k] == rows.last());
                assert(rows[rows.len() - 1] == rows.last());
            }
        }
    }
}

proof fn lemma_live_rows_one_per_package(rows: Seq<TxRow>)
    requires
        one_live_per_package(rows),
    ensures
        one_live_per_package(live_rows(rows)),
    decreases rows.len(),
{
    if rows.len() > 0 {
        let d = rows.drop_last();
        assert(one_live_per_package(d)) by {
            assert forall|i: int, j: int|
                0 <= i < d.len() && 0 <= j < d.len() && i != j && row_live(d[i]) && row_live(d[j])
                implies d[i].pkg_id@ != d[j].pkg_id@ by {
                assert(d[i] == rows[i] && d[j] == rows[j]);
            }
        }
        lemma_live_rows_one_per_package(d);
        lemma_live_rows_members(d);
        let r = live_rows(d);
        if row_live(rows.last()) {
            let l = live_rows(rows);
            assert forall|i: int, j: int|
                0 <= i < l.len() && 0 <= j < l.len() && i != j && row_live(l[i]) && row_live(l[j])
                implies l[i].pkg_id@ != l[j].pkg_id@ by {
                if i < r.len() && j < r.len() {
                    assert(l[i] == r[i] && l[j] == r[j]);
                } else if i == r.len() {
                    assert(l[j] == r[j]);
                    let m = choose|m: int| 0 <= m < d.len() && d[m] == r[j];
                    assert(rows[m] == d[m]);
                    assert(rows[rows.len() - 1] == rows.last());
                } else {
                    assert(l[i] == r[i]);
                    let m = choose|m: int| 0 <= m < d.len() && d[m] == r[i];
                    assert(rows[m] == d[m]);
                    assert(rows[rows.len() - 1] == rows.last());
                }
            }
        }
    }
}

proof fn lemma_first_live_some(rows: Seq<TxRow>, pkg_id: Seq<char>)
    requires
        first_live(rows, pkg_id) is Some,
    ensures
        ({
            let i = first_live(rows, pkg_id)->0;
            0 <= i < rows.len() && rows[i].pkg_id@ == pkg_id && row_live(rows[i])
        }),
    decreases rows.len(),
{
    if rows.len() > 0 && !(rows[0].pkg_id@ == pkg_id && row_live(rows[0])) {
        lemma_first_live_some(rows.drop_first(), pkg_id);
    }
}

proof fn lemma_update_keeps_one_live(rows: Seq<TxRow>, i: int, x: TxRow)
    requires
        one_live_per_package(rows),
        0 <= i < rows.len(),
        x.pkg_id == rows[i].pkg_id,
        row_live(x) ==> row_live(rows[i]),
    ensures
        one_live_per_package(rows.update(i, x)),
{
    let u = rows.update(i, x);
    assert forall|a: int, b: int|
        0 <= a < u.len() && 0 <= b < u.len() && a != b && row_live(u[a]) && row_live(u[b]) implies u[a].pkg_id@
        != u[b].pkg_id@ by {
        assert(row_live(rows[a]) && row_live(rows[b]));
    }
}

/// The transaction list of the frontend. It starts empty, and each of its
/// operations keeps `one_live_per_package`: no package ever has two rows
/// waiting or running at once.
pub struct TxList {
    pub rows: Vec<TxRow>,
}

fn is_live_exec(s: TxStatus) -> (r: bool)
    ensures
        r == (s == TxStatus::Pending || s == TxStatus::Running),
{
    match s {
        TxStatus::Pending | TxStatus::Running => true,
        _ => false,
    }
}

impl TxList {
    /// An empty list.
    pub fn new() -> (r: Self)
        ensures
            r.rows@.len() == 0,
            one_live_per_package(r.rows@),
    {
        TxList { rows: Vec::new() }
    }

    fn live_position(&self, pkg_id: &str) -> (r: Option<usize>)
        ensures
            match r {
                Some(i) => first_live(self.rows@, pkg_id@) == Some(i as int) && i < self.rows@.len(),
                None => first_live(self.rows@, pkg_id@) is None,
            },
    {
        let mut i: usize = 0;
        while i < self.rows.len()
            invariant
                0 <= i <= self.rows@.len(),
                forall|j: int| 0 <= j < i ==> !(self.rows@[j].pkg_id@ == pkg_id@ && row_live(self.rows@[j])),
            decreases self.rows@.len() - i,
        {
            if str_eq(self.rows[i].pkg_id.as_str(), pkg_id) && is_live_exec(self.rows[i].status) {
                proof {
                    lemma_first_live(self.rows@, pkg_id@, i as int);
                }
                return Some(i);
            }
            i += 1;
        }
        proof {
            lemma_first_live(self.rows@, pkg_id@, i as int);
        }
        None
    }

    fn id_position(&self, id: &str) -> (r: Option<usize>)
        ensures
            match r {
                Some(i) => first_with_tx_id(self.rows@, id@) == Some(i as int) && i < self.rows@.len(),
                None => first_with_tx_id(self.rows@, id@) is None,
            },
    {
        let mut i: usize = 0;
        while i < self.rows.len()
            invariant
                0 <= i <= self.rows@.len(),
                forall|j: int| 0 <= j < i ==> self.rows@[j].id@ != id@,
            decreases self.rows@.len() - i,
        {
            if str_eq(self.rows[i].id.as_str(), id) {
                proof {
                    lemma_first_with_tx_id(self.rows@, id@, i as int);
                }
                return Some(i);
            }
            i += 1;
        }
        proof {
            lemma_first_with_tx_id(self.rows@, id@, i as int);
        }
        None
    }

    /// Whether a package has a transaction waiting or running.
    pub fn has_ongoing(&self, pkg_id: &str) -> (r: bool)
        ensures
            r == (first_live(self.rows@, pkg_id@) is Some),
    {
        self.live_position(pkg_id).is_some()
    }

    /// Queues a transaction for a package, unless one is already waiting or
    /// running for it; says whether it was queued.
    pub fn start(&mut self, pkg_id: String, name: String, icon_url: String, tx_type: String) -> (r: bool)
        ensures
            one_live_per_package(old(self).rows@) ==> one_live_per_package(final(self).rows@),
            r == (first_live(old(self).rows@, pkg_id@) is None),
            r ==> final(self).rows@ == old(self).rows@.push(
                TxRow {
                    id: final(self).rows@.last().id,
                    pkg_id,
                    name,
                    icon_url,
                    percent: 0,
                    status: TxStatus::Pending,
                    tx_type,
                    error: final(self).rows@.last().error,
                },
            ) && final(self).rows@.last().id@.len() == 0 && final(self).rows@.last().error@.len()
                == 0,
            !r ==> final(self).rows@ == old(self).rows@,
    {
        if self.has_ongoing(pkg_id.as_str()) {
            return false;
        }
        proof {
            lemma_first_live_none(self.rows@, pkg_id@);
        }
        self.rows.push(
            TxRow {
                id: String::new(),
                pkg_id,
                name,
                icon_url,
                percent: 0,
                status: TxStatus::Pending,
                tx_type,
                error: String::new(),
            },
        );
        true
    }

    /// The daemon accepted a package's queued transaction under `tx_id`: it
    /// is running.
    pub fn accepted(&mut self, pkg_id: &str, tx_id: String)
        ensures
            one_live_per_package(old(self).rows@) ==> one_live_per_package(final(self).rows@),
            match first_live(old(self).rows@, pkg_id@) {
                Some(i) => final(self).rows@ == old(self).rows@.update(
                    i,
                    (TxRow { id: tx_id, status: TxStatus::Running, ..old(self).rows@[i] }),
                ),
                None => final(self).rows@ == old(self).rows@,
            },
    {
        if let Some(i) = self.live_position(pkg_id) {
            proof {
                lemma_first_live_some(self.rows@, pkg_id@);
                if one_live_per_package(self.rows@) {
                    lemma_update_keeps_one_live(
                        self.rows@,
                        i as int,
                        (TxRow { id: tx_id, status: TxStatus::Running, ..self.rows@[i as int] }),
                    );
                }
            }
            let r = self.rows.remove(i);
            let n = TxRow { id: tx_id, status: TxStatus::Running, ..r };
            self.rows.insert(i, n);
            assert(self.rows@ =~= old(self).rows@.update(
                i as int,
                (TxRow { id: tx_id, status: TxStatus::Running, ..old(self).rows@[i as int] }),
            ));
        }
    }

    /// The daemon could not take a package's queued transaction.
    pub fn rejected(&mut self, pkg_id: &str, error: String)
        ensures
            one_live_per_package(old(self).rows@) ==> one_live_per_package(final(self).rows@),
            match first_live(old(self).rows@, pkg_id@) {
                Some(i) => final(self).rows@ == old(self).rows@.update(
                    i,
                    (TxRow { status: TxStatus::Failed, error, ..old(self).rows@[i] }),
                ),
                None => final(self).rows@ == old(self).rows@,
            },
    {
        if let Some(i) = self.live_position(pkg_id) {
            let r = self.rows.remove(i);
            let n = TxRow { status: TxStatus::Failed, error, ..r };
            self.rows.insert(i, n);
            assert(self.rows@ =~= old(self).rows@.update(
                i as int,
                (TxRow { status: TxStatus::Failed, error, ..old(self).rows@[i as int] }),
            ));
        }
    }

    /// A transaction reported progress: a waiting one starts running.
    pub fn on_progress(&mut self, tx_id: &str, percent: u8)
        ensures
            one_live_per_package(old(self).rows@) ==> one_live_per_package(final(self).rows@),
            match first_with_tx_id(old(self).rows@, tx_id@) {
                Some(i) => final(self).rows@ == old(self).rows@.update(
                    i,
                    (TxRow {
                        percent,
                        status: if old(self).rows@[i].status == TxStatus::Pending {
                            TxStatus::Running
                        } else {
                            old(self).rows@[i].status
                        },
                        ..old(self).rows@[i]
                    }),
                ),
                None => final(self).rows@ == old(self).rows@,
            },
    {
        if let Some(i) = self.id_position(tx_id) {
            let r = self.rows.remove(i);
            let status = if r.status == TxStatus::Pending {
                TxStatus::Running
            } else {
                r.status
            };
            let n = TxRow { percent, status, ..r };
            self.rows.insert(i, n);
            assert(self.rows@ =~= old(self).rows@.update(
                i as int,
                (TxRow {
                    percent,
                    status: if old(self).rows@[i as int].status == TxStatus::Pending {
                        TxStatus::Running
                    } else {
                        old(self).rows@[i as int].status
                    },
                    ..old(self).rows@[i as int]
                }),
            ));
        }
    }

    /// A transaction finished: completed at full progress, or failed with
    /// the daemon's message.
    pub fn on_finished(&mut self, tx_id: &str, success: bool, message: String)
        ensures
            one_live_per_package(old(self).rows@) ==> one_live_per_package(final(self).rows@),
            match first_with_tx_id(old(self).rows@, tx_id@) {
                Some(i) => final(self).rows@ == old(self).rows@.update(
                    i,
                    if success {
                        (TxRow { status: TxStatus::Completed, percent: 100, ..old(self).rows@[i] })
                    } else {
                        (TxRow { status: TxStatus::Failed, error: message, ..old(self).rows@[i] })
                    },
                ),
                None => final(self).rows@ == old(self).rows@,
            },
    {
        if let Some(i) = self.id_position(tx_id) {
            let r = self.rows.remove(i);
            let n = if success {
                TxRow { status: TxStatus::Completed, percent: 100, ..r }
            } else {
                TxRow { status: TxStatus::Failed, error: message, ..r }
            };
            self.rows.insert(i, n);
            assert(self.rows@ =~= old(self).rows@.update(
                i as int,
                if success {
                    (TxRow { status: TxStatus::Completed, percent: 100, ..old(self).rows@[i as int] })
                } else {
                    (TxRow { status: TxStatus::Failed, error: message, ..old(self).rows@[i as int] })
                },
            ));
        }
    }

    /// Drops the finished rows.
    pub fn clear_finished(&mut self)
        ensures
            final(self).rows@ == live_rows(old(self).rows@),
            one_live_per_package(old(self).rows@) ==> one_live_per_package(final(self).rows@),
    {
        proof {
            if one_live_per_package(self.rows@) {
                lemma_live_rows_one_per_package(self.rows@);
            }
        }
        let ghost all = self.rows@;
        let mut rest: Vec<TxRow> = Vec::new();
        std::mem::swap(&mut rest, &mut self.rows);
        let mut rev: Vec<TxRow> = Vec::new();
        let total: usize = rest.len();
        while rest.len() > 0
            invariant
                all.len() == total,
                rest@.len() + rev@.len() == all.len(),
                forall|k: int| 0 <= k < rest@.len() ==> rest@[k] == all[k],
                forall|k: int| 0 <= k < rev@.len() ==> rev@[k] == all[all.len() - 1 - k],
            decreases rest@.len(),
        {
            let r = rest.pop().unwrap();
            rev.push(r);
        }
        let mut out: Vec<TxRow> = Vec::new();
        let mut k: usize = 0;
        assert(all.take(0) =~= Seq::<TxRow>::empty());
        while rev.len() > 0
            invariant
                all.len() == total,
                k + rev@.len() == all.len(),
                forall|j: int| 0 <= j < rev@.len() ==> rev@[j] == all[all.len() - 1 - j],
                out@ == live_rows(all.take(k as int)),
            decreases rev@.len(),
        {
            let r = rev.pop().unwrap();
            assert(r == all[k as int]);
            assert(all.take(k + 1).drop_last() =~= all.take(k as int));
            assert(all.take(k + 1).last() == all[k as int]);
            if is_live_exec(r.status) {
                out.push(r);
            }
            k += 1;
        }
        assert(all.take(k as int) =~= all);
        self.rows = out;
    }

    /// Lists a transaction the daemon already had when the list was opened,
    /// unless a row has its id; `id` is the text of its id and `icon_url` its
    /// resolved icon.
    pub fn load_running(&mut self, id: String, t: &Transaction, icon_url: String)
        ensures
            first_with_tx_id(old(self).rows@, id@) is Some ==> final(self).rows@ == old(self).rows@,
            first_with_tx_id(old(self).rows@, id@) is None ==> {
                &&& final(self).rows@.len() == old(self).rows@.len() + 1
                &&& final(self).rows@.drop_last() == old(self).rows@
                &&& final(self).rows@.last().id == id
                &&& final(self).rows@.last().pkg_id@ == t.package_id@
                &&& final(self).rows@.last().name@ == t.package_id@
                &&& final(self).rows@.last().icon_url == icon_url
                &&& final(self).rows@.last().percent == t.progress
                &&& final(self).rows@.last().tx_type@ == match t.t_type {
                    TransactionType::Install => "install"@,
                    TransactionType::Remove => "remove"@,
                    TransactionType::Update => "update"@,
                }
                &&& match t.status@ {
                    StatusView::Pending => final(self).rows@.last().status == TxStatus::Pending
                        && final(self).rows@.last().error@.len() == 0,
                    StatusView::Running => final(self).rows@.last().status == TxStatus::Running
                        && final(self).rows@.last().error@.len() == 0,
                    StatusView::Success => final(self).rows@.last().status == TxStatus::Completed
                        && final(self).rows@.last().error@.len() == 0,
                    StatusView::Failed(m) => final(self).rows@.last().status == TxStatus::Failed
                        && final(self).rows@.last().error@ == m,
                }
            },
    {
        if self.id_position(id.as_str()).is_some() {
            return;
        }
        let (status, error) = row_status(&t.status);
        let tx_type = match t.t_type {
            TransactionType::Install => "install".to_string(),
            TransactionType::Remove => "remove".to_string(),
            TransactionType::Update => "update".to_string(),
        };
        self.rows.push(
            TxRow {
                id,
                pkg_id: t.package_id.clone(),
                name: t.package_id.clone(),
                icon_url,
                percent: t.progress,
                status,
                tx_type,
                error,
            },
        );
        assert(self.rows@.drop_last() =~= old(self).rows@);
    }

    /// The transaction to cancel for a package: its first waiting or running
    /// one, once the daemon has given it an id.
    pub fn cancel_target(&self, pkg_id: &str) -> (r: Option<String>)
        ensures
            match first_live(self.rows@, pkg_id@) {
                Some(i) => if self.rows@[i].id@.len() > 0 {
                    opt_view(r) == Some(self.rows@[i].id@)
                } else {
                    r is None
                },
                None => r is None,
            },
    {
        match self.live_position(pkg_id) {
            Some(i) => if self.rows[i].id.as_str().unicode_len() > 0 {
                Some(self.rows[i].id.clone())
            } else {
                None
            },
            None => None,
        }
    }
}

} // verus!
