//! The package list page: which request's reply it shows, the busy markers
//! it keeps across reloads, its filters and name order, and what a finished
//! transaction does to its rows.

use vstd::prelude::*;
use crate::package::{Package, Provider, provider_label};
use crate::frontend::{ListMode, RowChange, spec_row_change, row_change, kept_rows};
use crate::text::{chars_of, lowercase, unicode_lowercase, str_eq, opt_view, strings_view};
use crate::webapps::{copy_strings, copy_opt};

verus! {

/// Two packages that agree in everything but, maybe, the installed flag.
pub open spec fn same_but_installed(a: Package, b: Package) -> bool {
    &&& a.id@ == b.id@
    &&& a.name@ == b.name@
    &&& a.version@ == b.version@
    &&& a.description@ == b.description@
    &&& a.provider == b.provider
    &&& opt_view(a.icon_url) == opt_view(b.icon_url)
    &&& opt_view(a.remote) == opt_view(b.remote)
    &&& strings_view(a.screenshots@) == strings_view(b.screenshots@)
    &&& opt_view(a.developer_name) == opt_view(b.developer_name)
    &&& opt_view(a.homepage_url) == opt_view(b.homepage_url)
    &&& opt_view(a.content_rating) == opt_view(b.content_rating)
    &&& a.is_runtime == b.is_runtime
    &&& strings_view(a.categories@) == strings_view(b.categories@)
}

/// Two packages with the same contents.
pub open spec fn same_package(a: Package, b: Package) -> bool {
    same_but_installed(a, b) && a.installed == b.installed
}

/// A copy of a package.
pub fn copy_package(p: &Package) -> (r: Package)
    ensures
        same_package(r, *p),
{
    Package {
        id: p.id.clone(),
        name: p.name.clone(),
        version: p.version.clone(),
        description: p.description.clone(),
        provider: p.provider,
        installed: p.installed,
        icon_url: copy_opt(&p.icon_url),
        remote: copy_opt(&p.remote),
        screenshots: copy_strings(&p.screenshots),
        developer_name: copy_opt(&p.developer_name),
        homepage_url: copy_opt(&p.homepage_url),
        content_rating: copy_opt(&p.content_rating),
        is_runtime: p.is_runtime,
        categories: copy_strings(&p.categories),
    }
}

/// `a` comes strictly before `b` when characters are compared by code point
/// (the order in which strings compare).
pub open spec fn chars_before(a: Seq<char>, b: Seq<char>) -> bool
    decreases a.len(),
{
    if a.len() == 0 {
        b.len() > 0
    } else if b.len() == 0 {
        false
    } else if a[0] < b[0] {
        true
    } else if a[0] == b[0] {
        chars_before(a.drop_first(), b.drop_first())
    } else {
        false
    }
}

/// No text comes before itself.
pub proof fn lemma_chars_before_irreflexive(a: Seq<char>)
    ensures
        !chars_before(a, a),
    decreases a.len(),
{
    if a.len() > 0 {
        lemma_chars_before_irreflexive(a.drop_first());
    }
}

/// Of two different texts one comes before the other.
pub proof fn lemma_chars_before_total(a: Seq<char>, b: Seq<char>)
    ensures
        a == b || chars_before(a, b) || chars_before(b, a),
    decreases a.len(),
{
    if a.len() > 0 && b.len() > 0 && a[0] == b[0] {
        lemma_chars_before_total(a.drop_first(), b.drop_first());
        if a.drop_first() == b.drop_first() {
            assert(a =~= seq![a[0]] + a.drop_first());
            assert(b =~= seq![b[0]] + b.drop_first());
        }
    } else if a.len() == 0 && b.len() == 0 {
        assert(a =~= b);
    }
}

/// The order is transitive.
pub proof fn lemma_chars_before_transitive(a: Seq<char>, b: Seq<char>, c: Seq<char>)
    requires
        chars_before(a, b),
        chars_before(b, c),
    ensures
        chars_before(a, c),
    decreases a.len(),
{
    if a.len() > 0 && b.len() > 0 && c.len() > 0 && a[0] == b[0] && b[0] == c[0] {
        lemma_chars_before_transitive(a.drop_first(), b.drop_first(), c.drop_first());
    }
}

/// Whether `a` comes strictly before `b`.
pub fn chars_less(a: &Vec<char>, b: &Vec<char>) -> (r: bool)
    ensures
        r == chars_before(a@, b@),
{
    let mut i: usize = 0;
    assert(a@.skip(0) =~= a@ && b@.skip(0) =~= b@);
    while i < a.len() && i < b.len()
        invariant
            0 <= i <= a@.len(),
            i <= b@.len(),
            chars_before(a@, b@) == chars_before(a@.skip(i as int), b@.skip(i as int)),
        decreases a@.len() - i,
    {
        let x = a[i];
        let y = b[i];
        assert(a@.skip(i as int)[0] == x);
        assert(b@.skip(i as int)[0] == y);
        if x < y {
            return true;
        }
        if x != y {
            return false;
        }
        assert(a@.skip(i as int).drop_first() =~= a@.skip(i as int + 1));
        assert(b@.skip(i as int).drop_first() =~= b@.skip(i as int + 1));
        i += 1;
    }
    assert(a@.skip(i as int).len() == 0 || b@.skip(i as int).len() == 0);
    i == a.len() && i < b.len()
}

/// Row `i` with key `ki` is ranked before row `j` with key `kj`: by key,
/// and among equal keys by position.
pub open spec fn ranked_before(ki: Seq<char>, i: int, kj: Seq<char>, j: int) -> bool {
    chars_before(ki, kj) || (ki == kj && i < j)
}

/// `order` lists every position of `keys` once, by key, rows with equal keys
/// in their first order: a stable sort.
pub open spec fn is_stable_order(keys: Seq<Seq<char>>, order: Seq<usize>) -> bool {
    &&& order.len() == keys.len()
    &&& forall|a: int| 0 <= a < order.len() ==> #[trigger] order[a] < keys.len()
    &&& forall|a: int, b: int|
        0 <= a < b < order.len() ==> ranked_before(
            keys[order[a] as int],
            order[a] as int,
            keys[order[b] as int],
            order[b] as int,
        )
}

/// Ranking is transitive.
proof fn lemma_ranked_transitive(
    ka: Seq<char>,
    a: int,
    kb: Seq<char>,
    b: int,
    kc: Seq<char>,
    c: int,
)
    requires
        ranked_before(ka, a, kb, b),
        ranked_before(kb, b, kc, c),
    ensures
        ranked_before(ka, a, kc, c),
{
    if chars_before(ka, kb) && chars_before(kb, kc) {
        lemma_chars_before_transitive(ka, kb, kc);
    }
}

/// The positions of `keys` in stable key order.
pub fn stable_order(keys: &Vec<Vec<char>>) -> (r: Vec<usize>)
    ensures
        is_stable_order(keys@.map_values(|k: Vec<char>| k@), r@),
{
    let ghost ks = keys@.map_values(|k: Vec<char>| k@);
    let mut ord: Vec<usize> = Vec::new();
    let mut i: usize = 0;
    while i < keys.len()
        invariant
            0 <= i <= keys@.len(),
            ks == keys@.map_values(|k: Vec<char>| k@),
            ord@.len() == i,
            forall|a: int| 0 <= a < ord@.len() ==> #[trigger] ord@[a] < i,
            forall|a: int, b: int|
                0 <= a < b < ord@.len() ==> ranked_before(
                    ks[ord@[a] as int],
                    ord@[a] as int,
                    ks[ord@[b] as int],
                    ord@[b] as int,
                ),
        decreases keys@.len() - i,
    {
        let key = &keys[i];
        let mut p: usize = 0;
        while p < ord.len() && !chars_less(key, &keys[ord[p]])
            invariant
                0 <= p <= ord@.len(),
                ord@.len() == i,
                i < keys@.len(),
                ks == keys@.map_values(|k: Vec<char>| k@),
                key@ == ks[i as int],
                forall|a: int| 0 <= a < ord@.len() ==> #[trigger] ord@[a] < i,
                forall|q: int| 0 <= q < p ==> !chars_before(ks[i as int], #[trigger] ks[ord@[q] as int]),
            decreases ord@.len() - p,
        {
            p += 1;
        }
        let ghost old_ord = ord@;
        proof {
            assert forall|q: int| 0 <= q < p implies ranked_before(
                ks[old_ord[q] as int],
                old_ord[q] as int,
                ks[i as int],
                i as int,
            ) by {
                lemma_chars_before_total(ks[i as int], ks[old_ord[q] as int]);
            }
            assert forall|q: int| p <= q < old_ord.len() implies ranked_before(
                ks[i as int],
                i as int,
                ks[old_ord[q] as int],
                old_ord[q] as int,
            ) by {
                if q > p {
                    lemma_ranked_transitive(
                        ks[i as int],
                        i as int,
                        ks[old_ord[p as int] as int],
                        old_ord[p as int] as int,
                        ks[old_ord[q] as int],
                        old_ord[q] as int,
                    );
                }
            }
        }
        ord.insert(p, i);
        proof {
            assert forall|a: int, b: int| 0 <= a < b < ord@.len() implies ranked_before(
                ks[ord@[a] as int],
                ord@[a] as int,
                ks[ord@[b] as int],
                ord@[b] as int,
            ) by {
                if b < p {
                    assert(ord@[a] == old_ord[a] && ord@[b] == old_ord[b]);
                } else if b == p {
                    assert(ord@[a] == old_ord[a]);
                } else if a < p {
                    assert(ord@[a] == old_ord[a] && ord@[b] == old_ord[b - 1]);
                    lemma_ranked_transitive(
                        ks[old_ord[a] as int],
                        old_ord[a] as int,
                        ks[i as int],
                        i as int,
                        ks[old_ord[b - 1] as int],
                        old_ord[b - 1] as int,
                    );
                } else if a == p {
                    assert(ord@[b] == old_ord[b - 1]);
                } else {
                    assert(ord@[a] == old_ord[a - 1] && ord@[b] == old_ord[b - 1]);
                }
            }
        }
        i += 1;
    }
    ord
}

/// A row of the package list: the package, and whether a transaction on it
/// is under way, with the progress shown for it (`P` is how progress is
/// shown).
pub struct ListRow<P> {
    pub pkg: Package,
    pub busy: bool,
    pub progress: P,
}

/// Two rows with the same contents.
pub open spec fn same_row<P>(a: ListRow<P>, b: ListRow<P>) -> bool {
    same_package(a.pkg, b.pkg) && a.busy == b.busy && a.progress == b.progress
}

/// Two row lists with the same contents.
pub open spec fn same_rows<P>(a: Seq<ListRow<P>>, b: Seq<ListRow<P>>) -> bool {
    a.len() == b.len() && forall|j: int| 0 <= j < a.len() ==> same_row(#[trigger] a[j], b[j])
}

/// A copy of a row.
pub fn copy_row<P: Copy>(r: &ListRow<P>) -> (c: ListRow<P>)
    ensures
        same_row(c, *r),
{
    ListRow { pkg: copy_package(&r.pkg), busy: r.busy, progress: r.progress }
}

/// A copy of a row list.
pub fn copy_rows<P: Copy>(rows: &Vec<ListRow<P>>) -> (c: Vec<ListRow<P>>)
    ensures
        same_rows(c@, rows@),
{
    let mut c: Vec<ListRow<P>> = Vec::new();
    let mut i: usize = 0;
    while i < rows.len()
        invariant
            0 <= i <= rows@.len(),
            c@.len() == i,
            forall|j: int| 0 <= j < i ==> same_row(#[trigger] c@[j], rows@[j]),
        decreases rows@.len() - i,
    {
        c.push(copy_row(&rows[i]));
        i += 1;
    }
    c
}

/// The progress of the last busy row for `id`, if one is busy.
pub open spec fn last_busy<P>(rows: Seq<ListRow<P>>, id: Seq<char>) -> Option<P>
    decreases rows.len(),
{
    if rows.len() == 0 {
        None
    } else if rows.last().busy && rows.last().pkg.id@ == id {
        Some(rows.last().progress)
    } else {
        last_busy(rows.drop_last(), id)
    }
}

/// The progress of the last busy row for `id`, if one is busy.
fn last_busy_exec<P: Copy>(rows: &Vec<ListRow<P>>, id: &str) -> (r: Option<P>)
    ensures
        r == last_busy(rows@, id@),
{
    let mut i: usize = rows.len();
    assert(rows@.subrange(0, i as int) =~= rows@);
    while i > 0
        invariant
            i <= rows@.len(),
            last_busy(rows@, id@) == last_busy(rows@.subrange(0, i as int), id@),
        decreases i,
    {
        let r = &rows[i - 1];
        assert(rows@.subrange(0, i as int).drop_last() =~= rows@.subrange(0, i - 1));
        if r.busy && str_eq(r.pkg.id.as_str(), id) {
            return Some(r.progress);
        }
        i -= 1;
    }
    None
}

/// Whether some row is busy.
pub open spec fn any_busy<P>(rows: Seq<ListRow<P>>) -> bool {
    exists|j: int| 0 <= j < rows.len() && (#[trigger] rows[j]).busy
}

proof fn lemma_no_busy<P>(rows: Seq<ListRow<P>>, id: Seq<char>)
    requires
        !any_busy(rows),
    ensures
        last_busy(rows, id) is None,
    decreases rows.len(),
{
    if rows.len() > 0 {
        assert(!rows.last().busy) by {
            assert(rows[rows.len() - 1] == rows.last());
        }
        assert forall|j: int| 0 <= j < rows.drop_last().len() implies !(
        #[trigger] rows.drop_last()[j]).busy by {
            assert(rows.drop_last()[j] == rows[j]);
        }
        lemma_no_busy(rows.drop_last(), id);
    }
}

/// The row a delivered package becomes: busy, with its progress, when a row
/// for the same id was busy in the list it replaces, and idle otherwise.
pub open spec fn carried_row<P>(old_all: Seq<ListRow<P>>, p: Package, idle: P, row: ListRow<P>) -> bool {
    &&& same_package(row.pkg, p)
    &&& match last_busy(old_all, p.id@) {
        Some(g) => row.busy && row.progress == g,
        None => !row.busy && row.progress == idle,
    }
}

/// The rows a delivered list of packages becomes.
pub open spec fn carried_rows<P>(
    old_all: Seq<ListRow<P>>,
    pkgs: Seq<Package>,
    idle: P,
    rows: Seq<ListRow<P>>,
) -> bool {
    &&& rows.len() == pkgs.len()
    &&& forall|j: int| 0 <= j < rows.len() ==> carried_row(old_all, pkgs[j], idle, #[trigger] rows[j])
}

/// Turns delivered packages into rows, keeping the busy markers of the rows
/// they replace.
pub fn carry_busy_state<P: Copy>(old_all: &Vec<ListRow<P>>, pkgs: Vec<Package>, idle: P) -> (r: Vec<
    ListRow<P>,
>)
    ensures
        carried_rows(old_all@, pkgs@, idle, r@),
{
    let mut busy_found = false;
    let mut k: usize = 0;
    while k < old_all.len()
        invariant
            0 <= k <= old_all@.len(),
            busy_found == exists|j: int| 0 <= j < k && (#[trigger] old_all@[j]).busy,
        decreases old_all@.len() - k,
    {
        if old_all[k].busy {
            busy_found = true;
        }
        k += 1;
    }
    let mut r: Vec<ListRow<P>> = Vec::new();
    let mut i: usize = 0;
    while i < pkgs.len()
        invariant
            0 <= i <= pkgs@.len(),
            r@.len() == i,
            busy_found == any_busy(old_all@),
            forall|j: int| 0 <= j < i ==> carried_row(old_all@, pkgs@[j], idle, #[trigger] r@[j]),
        decreases pkgs@.len() - i,
    {
        let p = copy_package(&pkgs[i]);
        let found = if busy_found {
            last_busy_exec(old_all, p.id.as_str())
        } else {
            proof {
                lemma_no_busy(old_all@, pkgs@[i as int].id@);
            }
            None
        };
        let row = match found {
            Some(g) => ListRow { pkg: p, busy: true, progress: g },
            None => ListRow { pkg: p, busy: false, progress: idle },
        };
        r.push(row);
        i += 1;
    }
    r
}

/// What the package list is asked to show.
pub enum ListRequest {
    /// The packages a search finds.
    Search(String),
    /// The installed packages.
    Installed,
    /// The packages of a catalog category.
    Category(String),
    /// The packages with an update.
    Updates,
}

/// The list mode a request shows its rows in: searches and categories only
/// flip a row's installed flag, the installed and update lists drop rows.
pub open spec fn request_mode(r: ListRequest) -> ListMode {
    match r {
        ListRequest::Search(_) | ListRequest::Category(_) => ListMode::Search,
        ListRequest::Installed => ListMode::Installed,
        ListRequest::Updates => ListMode::Updates,
    }
}

/// The key a request's reply is cached under.
pub open spec fn request_key(r: ListRequest) -> Seq<char> {
    match r {
        ListRequest::Search(q) => "search:"@ + q@,
        ListRequest::Installed => "installed"@,
        ListRequest::Category(c) => "category:"@ + c@,
        ListRequest::Updates => "updates"@,
    }
}

impl ListRequest {
    /// The list mode the reply is shown in.
    pub fn mode(&self) -> (m: ListMode)
        ensures
            m == request_mode(*self),
    {
        match self {
            ListRequest::Search(_) | ListRequest::Category(_) => ListMode::Search,
            ListRequest::Installed => ListMode::Installed,
            ListRequest::Updates => ListMode::Updates,
        }
    }

    /// The key the reply is cached under.
    pub fn cache_key(&self) -> (k: String)
        ensures
            k@ == request_key(*self),
    {
        let mut v: Vec<char> = Vec::new();
        match self {
            ListRequest::Search(q) => {
                crate::text::push_str(&mut v, "search:");
                crate::text::push_str(&mut v, q.as_str());
            },
            ListRequest::Installed => crate::text::push_str(&mut v, "installed"),
            ListRequest::Category(c) => {
                crate::text::push_str(&mut v, "category:");
                crate::text::push_str(&mut v, c.as_str());
            },
            ListRequest::Updates => crate::text::push_str(&mut v, "updates"),
        }
        crate::text::string_of(&v)
    }
}

/// The package list page: all rows of the last reply, the rows shown after
/// the filters, the filters, and the number of the latest request (replies
/// to earlier requests are dropped).
pub struct PackageList<P> {
    pub loading: bool,
    pub mode: ListMode,
    pub all: Vec<ListRow<P>>,
    pub shown: Vec<ListRow<P>>,
    pub filter_provider: String,
    pub filter_installed: i32,
    pub sort_by_name: bool,
    pub request_seq: u64,
}

/// The packages of rows.
pub open spec fn packages_of<P>(rows: Seq<ListRow<P>>) -> Seq<Package> {
    rows.map_values(|r: ListRow<P>| r.pkg)
}

/// The rows after `id` was marked busy or idle with `progress`.
pub open spec fn marked<P>(
    old_rows: Seq<ListRow<P>>,
    new_rows: Seq<ListRow<P>>,
    id: Seq<char>,
    busy: bool,
    progress: P,
) -> bool {
    &&& new_rows.len() == old_rows.len()
    &&& forall|j: int|
        0 <= j < new_rows.len() ==> {
            &&& same_package((#[trigger] new_rows[j]).pkg, old_rows[j].pkg)
            &&& if old_rows[j].pkg.id@ == id {
                new_rows[j].busy == busy && new_rows[j].progress == progress
            } else {
                new_rows[j].busy == old_rows[j].busy && new_rows[j].progress == old_rows[j].progress
            }
        }
}

/// The last position of a row for `id`.
pub open spec fn last_with_id<P>(rows: Seq<ListRow<P>>, id: Seq<char>) -> Option<usize>
    decreases rows.len(),
{
    if rows.len() == 0 {
        None
    } else if rows.last().pkg.id@ == id {
        Some((rows.len() - 1) as usize)
    } else {
        last_with_id(rows.drop_last(), id)
    }
}

/// Marks every row for `id` busy (or idle) with `progress`; the result is the
/// position of the last such row shown.
fn mark_rows<P: Copy>(rows: &mut Vec<ListRow<P>>, id: &str, busy: bool, progress: P) -> (last: Option<
    usize,
>)
    ensures
        marked(old(rows)@, final(rows)@, id@, busy, progress),
        last == last_with_id(old(rows)@, id@),
{
    let mut last: Option<usize> = None;
    let mut i: usize = 0;
    assert(old(rows)@.subrange(0, 0) =~= Seq::<ListRow<P>>::empty());
    while i < rows.len()
        invariant
            0 <= i <= rows@.len(),
            rows@.len() == old(rows)@.len(),
            last == last_with_id(old(rows)@.subrange(0, i as int), id@),
            forall|j: int|
                i <= j < rows@.len() ==> #[trigger] rows@[j] == old(rows)@[j],
            forall|j: int|
                0 <= j < i ==> {
                    &&& same_package((#[trigger] rows@[j]).pkg, old(rows)@[j].pkg)
                    &&& if old(rows)@[j].pkg.id@ == id@ {
                        rows@[j].busy == busy && rows@[j].progress == progress
                    } else {
                        rows@[j].busy == old(rows)@[j].busy && rows@[j].progress == old(
                            rows,
                        )@[j].progress
                    }
                },
        decreases rows@.len() - i,
    {
        assert(old(rows)@.subrange(0, i as int + 1).drop_last() =~= old(rows)@.subrange(
            0,
            i as int,
        ));
        if str_eq(rows[i].pkg.id.as_str(), id) {
            rows[i].busy = busy;
            rows[i].progress = progress;
            last = Some(i);
        }
        i += 1;
    }
    assert(old(rows)@.subrange(0, i as int) =~= old(rows)@);
    last
}

/// The positions of the rows that pass the filters, in order.
fn kept_positions<P>(all: &Vec<ListRow<P>>, provider: &str, installed: i32) -> (r: Vec<usize>)
    ensures
        r@ == kept_rows(packages_of(all@), provider@, installed),
        forall|k: int| 0 <= k < r@.len() ==> #[trigger] r@[k] < all@.len(),
{
    let ghost ps = packages_of(all@);
    let mut r: Vec<usize> = Vec::new();
    let mut i: usize = 0;
    assert(ps.subrange(0, 0) =~= Seq::<Package>::empty());
    while i < all.len()
        invariant
            0 <= i <= all@.len(),
            ps == packages_of(all@),
            r@ == kept_rows(ps.subrange(0, i as int), provider@, installed),
            forall|k: int| 0 <= k < r@.len() ==> #[trigger] r@[k] < i,
        decreases all@.len() - i,
    {
        let ghost sub = ps.subrange(0, i as int + 1);
        assert(sub.drop_last() =~= ps.subrange(0, i as int));
        assert(sub.last() == all@[i as int].pkg);
        let p = &all[i].pkg;
        let provider_ok = chars_of(provider).len() == 0 || str_eq(
            crate::package::provider_str(p.provider),
            provider,
        );
        let installed_ok = if installed == 1 {
            p.installed
        } else if installed == 2 {
            !p.installed
        } else {
            true
        };
        proof {
            if provider@.len() == 0 {
                assert(provider@ =~= Seq::<char>::empty());
            }
        }
        if provider_ok && installed_ok {
            r.push(i);
        }
        i += 1;
    }
    assert(ps.subrange(0, i as int) =~= ps);
    r
}

/// The lower-cased names of the rows at `kept`, by which the list is sorted.
pub open spec fn name_keys<P>(all: Seq<ListRow<P>>, kept: Seq<usize>) -> Seq<Seq<char>> {
    kept.map_values(|k: usize| unicode_lowercase(all[k as int].pkg.name@))
}

/// `shown` holds copies of the rows of `all` at `kept`, taken in `order`.
pub open spec fn shows_in_order<P>(
    shown: Seq<ListRow<P>>,
    all: Seq<ListRow<P>>,
    kept: Seq<usize>,
    order: Seq<usize>,
) -> bool {
    &&& shown.len() == order.len()
    &&& forall|j: int|
        0 <= j < shown.len() ==> same_row(#[trigger] shown[j], all[kept[order[j] as int] as int])
}

/// The rows shown under the filters: those that pass them, in list order, or
/// stably sorted by lower-cased name.
pub open spec fn shows_filtered<P>(
    shown: Seq<ListRow<P>>,
    all: Seq<ListRow<P>>,
    provider: Seq<char>,
    installed: i32,
    sort_by_name: bool,
) -> bool {
    let kept = kept_rows(packages_of(all), provider, installed);
    if sort_by_name {
        exists|o: Seq<usize>|
            #[trigger] is_stable_order(name_keys(all, kept), o) && shows_in_order(shown, all, kept, o)
    } else {
        shown.len() == kept.len() && forall|j: int|
            0 <= j < shown.len() ==> same_row(#[trigger] shown[j], all[kept[j] as int])
    }
}

/// The rows to show under the filters.
fn filtered_rows<P: Copy>(all: &Vec<ListRow<P>>, provider: &str, installed: i32, sort_by_name: bool) -> (r:
    Vec<ListRow<P>>)
    ensures
        shows_filtered(r@, all@, provider@, installed, sort_by_name),
{
    let kept = kept_positions(all, provider, installed);
    if !sort_by_name {
        let mut r: Vec<ListRow<P>> = Vec::new();
        let mut j: usize = 0;
        while j < kept.len()
            invariant
                0 <= j <= kept@.len(),
                kept@ == kept_rows(packages_of(all@), provider@, installed),
                forall|k: int| 0 <= k < kept@.len() ==> #[trigger] kept@[k] < all@.len(),
                r@.len() == j,
                forall|m: int| 0 <= m < j ==> same_row(#[trigger] r@[m], all@[kept@[m] as int]),
            decreases kept@.len() - j,
        {
            r.push(copy_row(&all[kept[j]]));
            j += 1;
        }
        return r;
    }
    let mut keys: Vec<Vec<char>> = Vec::new();
    let mut j: usize = 0;
    while j < kept.len()
        invariant
            0 <= j <= kept@.len(),
            forall|k: int| 0 <= k < kept@.len() ==> #[trigger] kept@[k] < all@.len(),
            keys@.len() == j,
            forall|m: int|
                0 <= m < j ==> (#[trigger] keys@[m])@ == unicode_lowercase(
                    all@[kept@[m] as int].pkg.name@,
                ),
        decreases kept@.len() - j,
    {
        let lower = lowercase(all[kept[j]].pkg.name.as_str());
        keys.push(chars_of(lower.as_str()));
        j += 1;
    }
    let ghost nk = name_keys(all@, kept@);
    assert(keys@.map_values(|k: Vec<char>| k@) =~= nk);
    let order = stable_order(&keys);
    let mut r: Vec<ListRow<P>> = Vec::new();
    let mut m: usize = 0;
    while m < order.len()
        invariant
            0 <= m <= order@.len(),
            is_stable_order(nk, order@),
            nk.len() == kept@.len(),
            forall|k: int| 0 <= k < kept@.len() ==> #[trigger] kept@[k] < all@.len(),
            r@.len() == m,
            forall|q: int|
                0 <= q < m ==> same_row(#[trigger] r@[q], all@[kept@[order@[q] as int] as int]),
        decreases order@.len() - m,
    {
        let o = order[m];
        assert(o < nk.len());
        r.push(copy_row(&all[kept[o]]));
        m += 1;
    }
    assert(shows_in_order(r@, all@, kept@, order@));
    r
}

/// The first position of a row for `id`.
pub open spec fn first_with_id<P>(rows: Seq<ListRow<P>>, id: Seq<char>) -> Option<int>
    decreases rows.len(),
{
    if rows.len() == 0 {
        None
    } else if rows[0].pkg.id@ == id {
        Some(0int)
    } else {
        match first_with_id(rows.drop_first(), id) {
            Some(k) => Some(k + 1),
            None => None,
        }
    }
}

proof fn lemma_first_with_id<P>(rows: Seq<ListRow<P>>, id: Seq<char>, i: int)
    requires
        0 <= i <= rows.len(),
        forall|j: int| 0 <= j < i ==> (#[trigger] rows[j]).pkg.id@ != id,
        i < rows.len() ==> rows[i].pkg.id@ == id,
    ensures
        first_with_id(rows, id) == (if i < rows.len() {
            Some(i)
        } else {
            None::<int>
        }),
    decreases rows.len(),
{
    if rows.len() > 0 && i > 0 {
        assert forall|j: int| 0 <= j < i - 1 implies (#[trigger] rows.drop_first()[j]).pkg.id@
            != id by {
            assert(rows.drop_first()[j] == rows[j + 1]);
        }
        if i < rows.len() {
            assert(rows.drop_first()[i - 1] == rows[i]);
        }
        lemma_first_with_id(rows.drop_first(), id, i - 1);
    }
}

/// The first position of a row for `id`.
fn first_with_id_exec<P>(rows: &Vec<ListRow<P>>, id: &str) -> (r: Option<usize>)
    ensures
        r matches Some(k) ==> first_with_id(rows@, id@) == Some(k as int) && k < rows@.len(),
        r is None ==> first_with_id(rows@, id@) is None,
{
    let mut i: usize = 0;
    while i < rows.len()
        invariant
            0 <= i <= rows@.len(),
            forall|j: int| 0 <= j < i ==> (#[trigger] rows@[j]).pkg.id@ != id@,
        decreases rows@.len() - i,
    {
        if str_eq(rows[i].pkg.id.as_str(), id) {
            proof {
                lemma_first_with_id(rows@, id@, i as int);
            }
            return Some(i);
        }
        i += 1;
    }
    proof {
        lemma_first_with_id(rows@, id@, i as int);
    }
    None
}

/// The rows that are not for `id`, in order.
pub open spec fn rows_without<P>(rows: Seq<ListRow<P>>, id: Seq<char>) -> Seq<ListRow<P>>
    decreases rows.len(),
{
    if rows.len() == 0 {
        Seq::empty()
    } else {
        let rest = rows_without(rows.drop_last(), id);
        if rows.last().pkg.id@ == id {
            rest
        } else {
            rest.push(rows.last())
        }
    }
}

/// Copies of the rows that are not for `id`.
fn copy_rows_without<P: Copy>(rows: &Vec<ListRow<P>>, id: &str) -> (r: Vec<ListRow<P>>)
    ensures
        same_rows(r@, rows_without(rows@, id@)),
{
    let mut r: Vec<ListRow<P>> = Vec::new();
    let mut i: usize = 0;
    assert(rows@.subrange(0, 0) =~= Seq::<ListRow<P>>::empty());
    while i < rows.len()
        invariant
            0 <= i <= rows@.len(),
            same_rows(r@, rows_without(rows@.subrange(0, i as int), id@)),
        decreases rows@.len() - i,
    {
        let ghost sub = rows@.subrange(0, i as int + 1);
        assert(sub.drop_last() =~= rows@.subrange(0, i as int));
        assert(sub.last() == rows@[i as int]);
        if !str_eq(rows[i].pkg.id.as_str(), id) {
            let c = copy_row(&rows[i]);
            let ghost before = r@;
            r.push(c);
            proof {
                let w = rows_without(sub, id@);
                assert forall|j: int| 0 <= j < r@.len() implies same_row(#[trigger] r@[j], w[j]) by {
                    if j < before.len() {
                        assert(r@[j] == before[j]);
                    }
                }
            }
        }
        i += 1;
    }
    assert(rows@.subrange(0, i as int) =~= rows@);
    r
}

/// `new_row` is `old_row` settled after its transaction ended: idle, and
/// with the installed flag given, if one is.
pub open spec fn settled_row<P>(
    old_row: ListRow<P>,
    new_row: ListRow<P>,
    installed: Option<bool>,
    idle: P,
) -> bool {
    &&& same_but_installed(new_row.pkg, old_row.pkg)
    &&& !new_row.busy
    &&& new_row.progress == idle
    &&& new_row.pkg.installed == match installed {
        Some(b) => b,
        None => old_row.pkg.installed,
    }
}

/// Every row for `id` settled, the others untouched.
pub open spec fn settled_all<P>(
    old_rows: Seq<ListRow<P>>,
    new_rows: Seq<ListRow<P>>,
    id: Seq<char>,
    installed: Option<bool>,
    idle: P,
) -> bool {
    &&& new_rows.len() == old_rows.len()
    &&& forall|j: int|
        0 <= j < new_rows.len() ==> if old_rows[j].pkg.id@ == id {
            settled_row(old_rows[j], #[trigger] new_rows[j], installed, idle)
        } else {
            new_rows[j] == old_rows[j]
        }
}

/// Settles every row for `id`.
fn settle_rows<P: Copy>(rows: &mut Vec<ListRow<P>>, id: &str, installed: Option<bool>, idle: P)
    ensures
        settled_all(old(rows)@, final(rows)@, id@, installed, idle),
{
    let mut i: usize = 0;
    while i < rows.len()
        invariant
            0 <= i <= rows@.len(),
            rows@.len() == old(rows)@.len(),
            forall|j: int| i <= j < rows@.len() ==> #[trigger] rows@[j] == old(rows)@[j],
            forall|j: int|
                0 <= j < i ==> if old(rows)@[j].pkg.id@ == id@ {
                    settled_row(old(rows)@[j], #[trigger] rows@[j], installed, idle)
                } else {
                    rows@[j] == old(rows)@[j]
                },
        decreases rows@.len() - i,
    {
        if str_eq(rows[i].pkg.id.as_str(), id) {
            settle_one(rows, i, installed, idle);
        }
        i += 1;
    }
}

/// Settles the row at `k`.
fn settle_one<P: Copy>(rows: &mut Vec<ListRow<P>>, k: usize, installed: Option<bool>, idle: P)
    requires
        k < old(rows)@.len(),
    ensures
        final(rows)@.len() == old(rows)@.len(),
        settled_row(old(rows)@[k as int], final(rows)@[k as int], installed, idle),
        forall|j: int|
            0 <= j < final(rows)@.len() && j != k ==> #[trigger] final(rows)@[j] == old(rows)@[j],
{
    rows[k].busy = false;
    rows[k].progress = idle;
    match installed {
        Some(b) => {
            rows[k].pkg.installed = b;
        },
        None => {},
    }
}

/// What a finished transaction did to the rows on screen.
#[derive(Clone, Copy, Debug, PartialEq, Eq, Structural)]
pub enum RowEffect {
    /// The shown row at this position left the list.
    Removed(usize),
    /// The shown row at this position changed.
    Changed(usize),
}

/// Whether some row is for `id`.
pub open spec fn has_id<P>(rows: Seq<ListRow<P>>, id: Seq<char>) -> bool {
    exists|j: int| 0 <= j < rows.len() && (#[trigger] rows[j]).pkg.id@ == id
}

proof fn lemma_has_id_first<P>(rows: Seq<ListRow<P>>, id: Seq<char>)
    ensures
        has_id(rows, id) <==> first_with_id(rows, id) is Some,
        first_with_id(rows, id) matches Some(k) ==> 0 <= k < rows.len() && rows[k].pkg.id@ == id,
    decreases rows.len(),
{
    if rows.len() > 0 {
        lemma_has_id_first(rows.drop_first(), id);
        if has_id(rows, id) && rows[0].pkg.id@ != id {
            let j = choose|j: int| 0 <= j < rows.len() && (#[trigger] rows[j]).pkg.id@ == id;
            assert(rows.drop_first()[j - 1] == rows[j]);
        }
        match first_with_id(rows.drop_first(), id) {
            Some(k) => {
                assert(rows.drop_first()[k] == rows[k + 1]);
            },
            None => {},
        }
    }
}

/// The list before any request: loading, empty, with no filters.
pub open spec fn is_fresh<P>(l: PackageList<P>) -> bool {
    &&& l.loading
    &&& l.mode == ListMode::Search
    &&& l.all@.len() == 0
    &&& l.shown@.len() == 0
    &&& l.filter_provider@ == Seq::<char>::empty()
    &&& l.filter_installed == 0
    &&& !l.sort_by_name
    &&& l.request_seq == 0
}

/// The list after request `req`, numbered `seq`, was made: it shows the
/// request's mode, loading, with the filters cleared, until the reply comes.
pub open spec fn begun<P>(
    old: PackageList<P>,
    new: PackageList<P>,
    req: ListRequest,
    seq: u64,
) -> bool {
    &&& new.mode == request_mode(req)
    &&& new.filter_provider@ == Seq::<char>::empty()
    &&& new.filter_installed == 0
    &&& !new.sort_by_name
    &&& new.request_seq == old.request_seq + 1
    &&& seq == new.request_seq
    &&& new.loading
    &&& new.all == old.all
    &&& new.shown == old.shown
}

/// The rows hold exactly these package ids, in order.
pub open spec fn same_ids_as<P>(rows: Seq<ListRow<P>>, pkgs: Seq<Package>) -> bool {
    rows.len() == pkgs.len() && forall|j: int|
        0 <= j < rows.len() ==> (#[trigger] rows[j]).pkg.id@ == pkgs[j].id@
}

/// The list `old` with loading over.
pub open spec fn loaded<P>(old: PackageList<P>, new: PackageList<P>) -> bool {
    &&& !new.loading
    &&& new.mode == old.mode
    &&& new.all == old.all
    &&& new.shown == old.shown
    &&& new.filter_provider == old.filter_provider
    &&& new.filter_installed == old.filter_installed
    &&& new.sort_by_name == old.sort_by_name
    &&& new.request_seq == old.request_seq
}

/// The list after the reply `pkgs` to request `seq` came: a reply to an
/// earlier request changes nothing; a reply with the ids already listed
/// (when that may be skipped) only ends loading; otherwise the reply is
/// listed and shown whole, keeping the busy markers of its packages.
pub open spec fn delivered<P>(
    old: PackageList<P>,
    new: PackageList<P>,
    seq: u64,
    pkgs: Seq<Package>,
    skip_if_same: bool,
    idle: P,
) -> bool {
    if seq != old.request_seq {
        new == old
    } else if skip_if_same && same_ids_as(old.all@, pkgs) {
        loaded(old, new)
    } else {
        &&& !new.loading
        &&& new.mode == old.mode
        &&& new.filter_provider == old.filter_provider
        &&& new.filter_installed == old.filter_installed
        &&& new.sort_by_name == old.sort_by_name
        &&& new.request_seq == old.request_seq
        &&& carried_rows(old.all@, pkgs, idle, new.all@)
        &&& same_rows(new.shown@, new.all@)
    }
}

/// The list after request `seq` failed: loading ends if it is the latest
/// request and nothing was shown for it from the cache.
pub open spec fn failed<P>(old: PackageList<P>, new: PackageList<P>, seq: u64, had_cache: bool) -> bool {
    if !had_cache && seq == old.request_seq {
        loaded(old, new)
    } else {
        new == old
    }
}

/// The list after the filters were set: the rows that pass them are shown.
pub open spec fn filtered<P>(
    old: PackageList<P>,
    new: PackageList<P>,
    provider: Seq<char>,
    installed: i32,
    sort_by_name: bool,
) -> bool {
    &&& new.filter_provider@ == provider
    &&& new.filter_installed == installed
    &&& new.sort_by_name == sort_by_name
    &&& new.loading == old.loading
    &&& new.mode == old.mode
    &&& new.all == old.all
    &&& new.request_seq == old.request_seq
    &&& shows_filtered(new.shown@, old.all@, provider, installed, sort_by_name)
}

/// The list after a transaction on `id` reported `busy` and `progress`:
/// every row for it shows them; `changed` is the last shown one.
pub open spec fn busy_set<P>(
    old: PackageList<P>,
    new: PackageList<P>,
    id: Seq<char>,
    busy: bool,
    progress: P,
    changed: Option<usize>,
) -> bool {
    &&& marked(old.all@, new.all@, id, busy, progress)
    &&& marked(old.shown@, new.shown@, id, busy, progress)
    &&& changed == last_with_id(old.shown@, id)
    &&& new.loading == old.loading
    &&& new.mode == old.mode
    &&& new.filter_provider == old.filter_provider
    &&& new.filter_installed == old.filter_installed
    &&& new.sort_by_name == old.sort_by_name
    &&& new.request_seq == old.request_seq
}

/// The list after a transaction of type `tx_type` on `id` ended: nothing
/// changes when no row is for `id`. When the row leaves the list (see
/// `spec_row_change`), every row for `id` goes and the first shown one is
/// removed; otherwise every row for `id` settles, and so does the first
/// shown one. `effect` tells which shown row went or changed.
pub open spec fn finished<P>(
    old: PackageList<P>,
    new: PackageList<P>,
    id: Seq<char>,
    tx_type: Seq<char>,
    success: bool,
    idle: P,
    effect: Option<RowEffect>,
) -> bool {
    if !has_id(old.shown@, id) && !has_id(old.all@, id) {
        new == old && effect is None
    } else {
        &&& new.loading == old.loading
        &&& new.mode == old.mode
        &&& new.filter_provider == old.filter_provider
        &&& new.filter_installed == old.filter_installed
        &&& new.sort_by_name == old.sort_by_name
        &&& new.request_seq == old.request_seq
        &&& match spec_row_change(tx_type, success, old.mode) {
            RowChange::Drop => {
                &&& same_rows(new.all@, rows_without(old.all@, id))
                &&& match first_with_id(old.shown@, id) {
                    Some(k) => new.shown@ == old.shown@.remove(k) && effect == Some(
                        RowEffect::Removed(k as usize),
                    ),
                    None => new.shown == old.shown && effect is None,
                }
            },
            RowChange::Settle { installed } => {
                &&& settled_all(old.all@, new.all@, id, installed, idle)
                &&& match first_with_id(old.shown@, id) {
                    Some(k) => {
                        &&& new.shown@.len() == old.shown@.len()
                        &&& settled_row(old.shown@[k], new.shown@[k], installed, idle)
                        &&& forall|j: int|
                            0 <= j < new.shown@.len() && j != k ==> #[trigger] new.shown@[j]
                                == old.shown@[j]
                        &&& effect == Some(RowEffect::Changed(k as usize))
                    },
                    None => new.shown == old.shown && effect is None,
                }
            },
        }
    }
}

impl<P: Copy> PackageList<P> {
    /// An empty list, loading, with no filters.
    pub fn new() -> (l: Self)
        ensures
            is_fresh(l),
    {
        PackageList {
            loading: true,
            mode: ListMode::Search,
            all: Vec::new(),
            shown: Vec::new(),
            filter_provider: String::new(),
            filter_installed: 0,
            sort_by_name: false,
            request_seq: 0,
        }
    }

    /// Makes request `req`; the result is its number, which its reply is
    /// delivered with.
    pub fn begin(&mut self, req: &ListRequest) -> (seq: u64)
        requires
            old(self).request_seq < u64::MAX,
        ensures
            begun(*old(self), *final(self), *req, seq),
    {
        self.mode = req.mode();
        self.filter_provider = String::new();
        self.filter_installed = 0;
        self.sort_by_name = false;
        self.request_seq = self.request_seq + 1;
        self.loading = true;
        self.request_seq
    }

    /// Hands the list the reply `pkgs` to request `seq`; rows that are not
    /// busy show progress `idle`.
    pub fn deliver(&mut self, seq: u64, pkgs: Vec<Package>, skip_if_same: bool, idle: P)
        ensures
            delivered(*old(self), *final(self), seq, pkgs@, skip_if_same, idle),
    {
        if seq != self.request_seq {
            return;
        }
        if skip_if_same && self.ids_match(&pkgs) {
            self.loading = false;
            return;
        }
        let rows = carry_busy_state(&self.all, pkgs, idle);
        let shown = copy_rows(&rows);
        self.all = rows;
        self.shown = shown;
        self.loading = false;
        proof {
            assert forall|j: int| 0 <= j < self.shown@.len() implies same_row(
                #[trigger] self.shown@[j],
                self.all@[j],
            ) by {}
        }
    }

    /// Whether the list holds exactly the ids of `pkgs`, in order.
    fn ids_match(&self, pkgs: &Vec<Package>) -> (r: bool)
        ensures
            r == same_ids_as(self.all@, pkgs@),
    {
        if self.all.len() != pkgs.len() {
            return false;
        }
        let mut i: usize = 0;
        while i < pkgs.len()
            invariant
                0 <= i <= pkgs@.len(),
                self.all@.len() == pkgs@.len(),
                forall|j: int| 0 <= j < i ==> (#[trigger] self.all@[j]).pkg.id@ == pkgs@[j].id@,
            decreases pkgs@.len() - i,
        {
            if !str_eq(self.all[i].pkg.id.as_str(), pkgs[i].id.as_str()) {
                return false;
            }
            i += 1;
        }
        true
    }

    /// Request `seq` failed; `had_cache` tells whether a cached reply was
    /// shown for it.
    pub fn fail(&mut self, seq: u64, had_cache: bool)
        ensures
            failed(*old(self), *final(self), seq, had_cache),
    {
        if !had_cache && seq == self.request_seq {
            self.loading = false;
        }
    }

    /// Sets the filters and shows the rows that pass them.
    pub fn set_filters(&mut self, provider: String, installed: i32, sort_by_name: bool)
        ensures
            filtered(*old(self), *final(self), provider@, installed, sort_by_name),
    {
        let shown = filtered_rows(&self.all, provider.as_str(), installed, sort_by_name);
        self.filter_provider = provider;
        self.filter_installed = installed;
        self.sort_by_name = sort_by_name;
        self.shown = shown;
    }

    /// A transaction on `pkg_id` reported `busy` and `progress`; the result
    /// is the last shown row that changed.
    pub fn set_busy(&mut self, pkg_id: &str, busy: bool, progress: P) -> (changed: Option<usize>)
        ensures
            busy_set(*old(self), *final(self), pkg_id@, busy, progress, changed),
    {
        mark_rows(&mut self.all, pkg_id, busy, progress);
        mark_rows(&mut self.shown, pkg_id, busy, progress)
    }

    /// A transaction of type `tx_type` on `pkg_id` ended; settled rows show
    /// progress `idle`. The result tells which shown row went or changed.
    pub fn finish(&mut self, pkg_id: &str, tx_type: &str, success: bool, idle: P) -> (effect: Option<
        RowEffect,
    >)
        ensures
            finished(*old(self), *final(self), pkg_id@, tx_type@, success, idle, effect),
    {
        proof {
            lemma_has_id_first(self.shown@, pkg_id@);
            lemma_has_id_first(self.all@, pkg_id@);
        }
        let visible = first_with_id_exec(&self.shown, pkg_id);
        if visible.is_none() && first_with_id_exec(&self.all, pkg_id).is_none() {
            return None;
        }
        match row_change(tx_type, success, self.mode) {
            RowChange::Drop => {
                let kept = copy_rows_without(&self.all, pkg_id);
                self.all = kept;
                match visible {
                    Some(k) => {
                        self.shown.remove(k);
                        Some(RowEffect::Removed(k))
                    },
                    None => None,
                }
            },
            RowChange::Settle { installed } => {
                settle_rows(&mut self.all, pkg_id, installed, idle);
                match visible {
                    Some(k) => {
                        settle_one(&mut self.shown, k, installed, idle);
                        Some(RowEffect::Changed(k))
                    },
                    None => None,
                }
            },
        }
    }

    /// The names offered by the provider filter: those of the providers in
    /// the list, sorted, each once.
    pub fn providers(&self) -> (r: Vec<&'static str>)
        ensures
            r@.map_values(|s: &str| s@) == crate::frontend::provider_names_of(
                packages_of(self.all@).map_values(|p: Package| p.provider),
            ),
    {
        let mut ps: Vec<Provider> = Vec::new();
        let mut i: usize = 0;
        while i < self.all.len()
            invariant
                0 <= i <= self.all@.len(),
                ps@ == packages_of(self.all@).map_values(|p: Package| p.provider).subrange(
                    0,
                    i as int,
                ),
            decreases self.all@.len() - i,
        {
            ps.push(self.all[i].pkg.provider);
            i += 1;
            assert(ps@ =~= packages_of(self.all@).map_values(|p: Package| p.provider).subrange(
                0,
                i as int,
            ));
        }
        assert(ps@ =~= packages_of(self.all@).map_values(|p: Package| p.provider));
        crate::frontend::provider_names(&ps)
    }

    /// The number of rows shown.
    pub fn row_count(&self) -> (n: usize)
        ensures
            n == self.shown@.len(),
    {
        self.shown.len()
    }
}

/// A reply to a request that a later request superseded changes nothing.
pub proof fn law_superseded_reply_ignored<P>(
    s0: PackageList<P>,
    s1: PackageList<P>,
    s2: PackageList<P>,
    s3: PackageList<P>,
    first: ListRequest,
    first_seq: u64,
    second: ListRequest,
    second_seq: u64,
    pkgs: Seq<Package>,
    skip_if_same: bool,
    idle: P,
)
    requires
        begun(s0, s1, first, first_seq),
        begun(s1, s2, second, second_seq),
        delivered(s2, s3, first_seq, pkgs, skip_if_same, idle),
    ensures
        s3 == s2,
{
}

/// The reply to the latest request is shown whole, in its order, in the
/// request's mode, and loading ends.
pub proof fn law_latest_reply_shown<P>(
    s0: PackageList<P>,
    s1: PackageList<P>,
    s2: PackageList<P>,
    req: ListRequest,
    seq: u64,
    pkgs: Seq<Package>,
    idle: P,
)
    requires
        begun(s0, s1, req, seq),
        delivered(s1, s2, seq, pkgs, false, idle),
    ensures
        !s2.loading,
        s2.mode == request_mode(req),
        s2.shown@.len() == pkgs.len(),
        forall|j: int| 0 <= j < pkgs.len() ==> same_but_installed((#[trigger] s2.shown@[j]).pkg, pkgs[j]),
{
    assert forall|j: int| 0 <= j < pkgs.len() implies same_but_installed(
        (#[trigger] s2.shown@[j]).pkg,
        pkgs[j],
    ) by {
        assert(same_row(s2.shown@[j], s2.all@[j]));
        assert(carried_row(s1.all@, pkgs[j], idle, s2.all@[j]));
    }
}

proof fn lemma_busy_found<P>(rows: Seq<ListRow<P>>, i: int)
    requires
        0 <= i < rows.len(),
        rows[i].busy,
    ensures
        last_busy(rows, rows[i].pkg.id@) is Some,
    decreases rows.len(),
{
    if i < rows.len() - 1 {
        let id = rows[i].pkg.id@;
        if !(rows.last().busy && rows.last().pkg.id@ == id) {
            assert(rows.drop_last()[i] == rows[i]);
            lemma_busy_found(rows.drop_last(), i);
        }
    }
}

/// A package whose transaction is under way stays marked busy when a reload
/// lists it again.
pub proof fn law_busy_survives_reload<P>(
    s: PackageList<P>,
    t: PackageList<P>,
    pkgs: Seq<Package>,
    idle: P,
    i: int,
    j: int,
)
    requires
        delivered(s, t, s.request_seq, pkgs, false, idle),
        0 <= i < s.all@.len(),
        s.all@[i].busy,
        0 <= j < pkgs.len(),
        pkgs[j].id@ == s.all@[i].pkg.id@,
    ensures
        t.all@[j].busy,
        t.shown@[j].busy,
{
    lemma_busy_found(s.all@, i);
    assert(carried_row(s.all@, pkgs[j], idle, t.all@[j]));
    assert(same_row(t.shown@[j], t.all@[j]));
}

} // verus!
