//! Bookkeeping of install, remove and update transactions: the running ones,
//! their cancellation tokens and a bounded history of finished ones.

use vstd::prelude::*;
use crate::package::Provider;
use tokio_util::sync::CancellationToken;
use std::collections::{HashMap, VecDeque};
use vstd::std_specs::hash::spec_hash_map_iter;
use vstd::std_specs::iter::IteratorSpec;

verus! {

broadcast use {vstd::std_specs::hash::group_hash_axioms, vstd::seq_lib::seq_to_set_is_finite};

/// How many finished transactions the history keeps.
pub const HISTORY_LIMIT: usize = 50;

#[verifier::external_type_specification]
#[verifier::external_body]
pub struct ExCancellationToken(CancellationToken);

/// A fresh token in the non-cancelled state (`CancellationToken::new`).
#[verifier::external_body]
fn new_token() -> (r: CancellationToken) {
    CancellationToken::new()
}

/// A second handle on the same token (`CancellationToken::clone`); cancelling
/// either cancels both.
#[verifier::external_body]
fn share_token(t: &CancellationToken) -> (r: CancellationToken) {
    t.clone()
}

/// Signals cancellation to every holder of the token (`CancellationToken::cancel`).
#[verifier::external_body]
fn signal_cancel(t: &CancellationToken) {
    t.cancel()
}

/// A random version-4 UUID as a number (`Uuid::new_v4`); nothing is claimed
/// of its value.
#[verifier::external_body]
fn random_transaction_id() -> (r: u128) {
    uuid::Uuid::new_v4().as_u128()
}

/// What a transaction does.
#[derive(Clone, Copy, Debug, PartialEq, Eq, Structural)]
pub enum TransactionType {
    Install,
    Remove,
    Update,
}

/// Where a transaction stands.
#[derive(Clone, Debug)]
pub enum TransactionStatus {
    Pending,
    Running,
    Success,
    Failed(String),
}

/// A transaction's status as a value.
pub enum StatusView {
    Pending,
    Running,
    Success,
    Failed(Seq<char>),
}

impl View for TransactionStatus {
    type V = StatusView;

    open spec fn view(&self) -> StatusView {
        match self {
            TransactionStatus::Pending => StatusView::Pending,
            TransactionStatus::Running => StatusView::Running,
            TransactionStatus::Success => StatusView::Success,
            TransactionStatus::Failed(m) => StatusView::Failed(m@),
        }
    }
}

/// One install, remove or update request.
#[derive(Clone, Debug)]
pub struct Transaction {
    pub id: u128,
    pub t_type: TransactionType,
    pub package_id: String,
    pub provider: Provider,
    pub status: TransactionStatus,
    pub progress: u8,
}

/// A transaction as a value.
pub struct TxView {
    pub id: u128,
    pub t_type: TransactionType,
    pub package_id: Seq<char>,
    pub provider: Provider,
    pub status: StatusView,
    pub progress: u8,
}

impl View for Transaction {
    type V = TxView;

    open spec fn view(&self) -> TxView {
        TxView {
            id: self.id,
            t_type: self.t_type,
            package_id: self.package_id@,
            provider: self.provider,
            status: self.status@,
            progress: self.progress,
        }
    }
}

/// Still waiting or working, so it can be cancelled.
pub open spec fn is_live(s: StatusView) -> bool {
    s is Pending || s is Running
}

/// Done, one way or the other.
pub open spec fn is_finished(s: StatusView) -> bool {
    s is Success || s is Failed
}

pub open spec fn txs_view(v: Seq<Transaction>) -> Seq<TxView> {
    v.map_values(|t: Transaction| t@)
}

/// Some transaction of `s` has this id.
pub open spec fn contains_id(s: Seq<TxView>, id: u128) -> bool {
    exists|i: int| 0 <= i < s.len() && s[i].id == id
}

/// `i` is the first position of `s` with this id.
pub open spec fn is_first(s: Seq<TxView>, id: u128, i: int) -> bool {
    &&& 0 <= i < s.len()
    &&& s[i].id == id
    &&& forall|j: int| 0 <= j < i ==> s[j].id != id
}

/// The first position of `s` with this id (meaningful when there is one).
pub open spec fn first_index(s: Seq<TxView>, id: u128) -> int {
    choose|i: int| is_first(s, id, i)
}

/// The first transaction of `s` with this id.
pub open spec fn find_tx(s: Seq<TxView>, id: u128) -> Option<TxView> {
    if contains_id(s, id) {
        Some(s[first_index(s, id)])
    } else {
        None
    }
}

/// A new transaction, waiting to start.
pub open spec fn fresh_tx(
    id: u128,
    t_type: TransactionType,
    package_id: Seq<char>,
    provider: Provider,
) -> TxView {
    TxView { id, t_type, package_id, provider, status: StatusView::Pending, progress: 0 }
}

/// Stores `t` under its id, replacing the transaction with the same id if
/// there is one.
pub open spec fn upsert(m: Map<u128, TxView>, t: TxView) -> Map<u128, TxView> {
    m.insert(t.id, t)
}

/// What `get` answers: a running transaction first, else the first match in
/// the history.
pub open spec fn lookup(active: Map<u128, TxView>, history: Seq<TxView>, id: u128) -> Option<
    TxView,
> {
    if active.contains_key(id) {
        Some(active[id])
    } else {
        find_tx(history, id)
    }
}

pub open spec fn with_status(t: TxView, status: StatusView, progress: u8) -> TxView {
    TxView {
        id: t.id,
        t_type: t.t_type,
        package_id: t.package_id,
        provider: t.provider,
        status,
        progress,
    }
}

/// A transaction as it is filed away when it ends.
pub open spec fn finished_tx(t: TxView, success: bool, message: Seq<char>) -> TxView {
    with_status(
        t,
        if success {
            StatusView::Success
        } else {
            StatusView::Failed(message)
        },
        100,
    )
}

/// The status a cancelled transaction gets.
pub open spec fn cancelled_status() -> StatusView {
    StatusView::Failed("Cancelled"@)
}

/// The last `n` elements of `s` (all of them if there are fewer).
pub open spec fn keep_last(s: Seq<TxView>, n: nat) -> Seq<TxView> {
    if s.len() > n {
        s.subrange(s.len() - n, s.len() as int)
    } else {
        s
    }
}

/// The history after `t` is filed at its end.
pub open spec fn filed(history: Seq<TxView>, t: TxView) -> Seq<TxView> {
    keep_last(history.push(t), HISTORY_LIMIT as nat)
}

/// Reported progress: a transaction that has not finished starts running.
pub open spec fn progress_update(m: Map<u128, TxView>, id: u128, p: u8) -> Map<u128, TxView> {
    if m.contains_key(id) && !is_finished(m[id].status) {
        m.insert(id, with_status(m[id], StatusView::Running, p))
    } else {
        m
    }
}

/// Whether `cancel` finds something to cancel.
pub open spec fn cancellable(m: Map<u128, TxView>, id: u128) -> bool {
    m.contains_key(id) && is_live(m[id].status)
}

/// The running transactions after cancelling `id`.
pub open spec fn cancel_update(m: Map<u128, TxView>, id: u128) -> Map<u128, TxView> {
    if cancellable(m, id) {
        m.insert(id, with_status(m[id], cancelled_status(), m[id].progress))
    } else {
        m
    }
}

/// One transaction after `cancel_all`.
pub open spec fn cancel_one(t: TxView) -> TxView {
    if is_live(t.status) {
        with_status(t, cancelled_status(), t.progress)
    } else {
        t
    }
}

/// What a transaction adds to the live count.
pub open spec fn live_unit(t: TxView) -> nat {
    if is_live(t.status) {
        1
    } else {
        0
    }
}

/// What a transaction adds to the live progress total.
pub open spec fn live_share(t: TxView) -> nat {
    if is_live(t.status) {
        t.progress as nat
    } else {
        0
    }
}

/// The step that adds one transaction's share to the live count.
pub open spec fn count_step(m: Map<u128, TxView>) -> spec_fn(nat, u128) -> nat {
    |n: nat, k: u128| n + live_unit(m[k])
}

/// The step that adds one transaction's share to the live progress total.
pub open spec fn share_step(m: Map<u128, TxView>) -> spec_fn(nat, u128) -> nat {
    |n: nat, k: u128| n + live_share(m[k])
}

/// Number of live transactions.
pub open spec fn live_count(m: Map<u128, TxView>) -> nat {
    m.dom().fold(0nat, count_step(m))
}

/// Sum of the progress of the live transactions.
pub open spec fn live_progress(m: Map<u128, TxView>) -> nat {
    m.dom().fold(0nat, share_step(m))
}

/// Reading back a transaction right after creating it gives that transaction.
pub proof fn law_get_after_create(active: Map<u128, TxView>, history: Seq<TxView>, t: TxView)
    ensures
        lookup(upsert(active, t), history, t.id) == Some(t),
{
}

/// Creating a transaction leaves what every other id reads back unchanged.
pub proof fn law_create_keeps_others(
    active: Map<u128, TxView>,
    history: Seq<TxView>,
    t: TxView,
    other: u128,
)
    requires
        other != t.id,
    ensures
        lookup(upsert(active, t), history, other) == lookup(active, history, other),
{
}

/// A finished transaction ignores later progress reports and cannot be
/// cancelled.
pub proof fn law_finished_ignores_progress(m: Map<u128, TxView>, id: u128, p: u8)
    requires
        m.contains_key(id),
        is_finished(m[id].status),
    ensures
        progress_update(m, id, p) == m,
        !cancellable(m, id),
        cancel_update(m, id) == m,
{
}

/// A transaction just created can be cancelled (by its id, or by the text
/// its id is handed out as), and is then marked cancelled with its progress
/// kept.
pub proof fn law_cancel_after_create(active: Map<u128, TxView>, t: TxView)
    requires
        is_live(t.status),
    ensures
        cancellable(upsert(active, t), t.id),
        cancel_update(upsert(active, t), t.id)[t.id] == with_status(
            t,
            cancelled_status(),
            t.progress,
        ),
{
}

/// Cancelling the same transaction a second time finds nothing to cancel.
pub proof fn law_cancel_twice(m: Map<u128, TxView>, id: u128)
    requires
        cancellable(m, id),
    ensures
        !cancellable(cancel_update(m, id), id),
        cancel_update(m, id)[id] == with_status(m[id], cancelled_status(), m[id].progress),
{
}

/// Completing a running transaction files it at the end of the history with
/// progress 100 and its outcome, which is then what reading it back gives.
pub proof fn law_complete_then_get(
    active: Map<u128, TxView>,
    history: Seq<TxView>,
    id: u128,
    success: bool,
    message: Seq<char>,
)
    requires
        active.contains_key(id),
        active[id].id == id,
        !contains_id(history, id),
    ensures
        ({
            let done = finished_tx(active[id], success, message);
            let h = filed(history, done);
            &&& h.len() <= HISTORY_LIMIT
            &&& h.last() == done
            &&& lookup(active.remove(id), h, id) == Some(done)
        }),
{
    let done = finished_tx(active[id], success, message);
    let full = history.push(done);
    let h = filed(history, done);
    let k = h.len() - 1;
    assert(h[k] == done);
    assert forall|j: int| 0 <= j < k implies h[j].id != id by {
        let off = full.len() - h.len();
        assert(h[j] == full[off + j]);
        assert(full[off + j] == history[off + j]);
    }
    assert(is_first(h, id, k));
    lemma_first(h, id, k);
}

/// A running transaction and, while it is live, its cancellation token.
struct ActiveEntry {
    tx: Transaction,
    token: Option<CancellationToken>,
}

/// The running transactions by id, with their cancellation tokens, and the
/// history of finished ones.
pub struct TransactionManager {
    active: HashMap<u128, ActiveEntry>,
    history: VecDeque<Transaction>,
}

/// What the taskbar progress shows: whether anything is live, how many and
/// the sum of their percentages (the average is `total_percent / active`).
#[derive(Clone, Copy, Debug, PartialEq, Eq, Structural)]
pub struct LauncherProgress {
    pub visible: bool,
    pub active: u64,
    pub total_percent: u128,
}

proof fn lemma_first(s: Seq<TxView>, id: u128, i: int)
    requires
        is_first(s, id, i),
    ensures
        contains_id(s, id),
        first_index(s, id) == i,
{
    let k = first_index(s, id);
    assert(is_first(s, id, k));
    if k < i {
        assert(s[k].id != id);
    }
    if i < k {
        assert(s[i].id != id);
    }
}

/// When some transaction has the id, there is a first one.
pub proof fn lemma_first_exists(s: Seq<TxView>, id: u128)
    requires
        contains_id(s, id),
    ensures
        is_first(s, id, first_index(s, id)),
    decreases s.len(),
{
    let p = s.drop_last();
    if contains_id(p, id) {
        lemma_first_exists(p, id);
        let k = first_index(p, id);
        assert(s[k] == p[k]);
        assert forall|j: int| 0 <= j < k implies s[j].id != id by {
            assert(s[j] == p[j]);
        }
        assert(is_first(s, id, k));
    } else {
        let k = s.len() - 1;
        let w = choose|w: int| 0 <= w < s.len() && s[w].id == id;
        if w < k {
            assert(p[w] == s[w]);
            assert(contains_id(p, id));
        }
        assert forall|j: int| 0 <= j < k implies s[j].id != id by {
            assert(p[j] == s[j]);
            if s[j].id == id {
                assert(contains_id(p, id));
            }
        }
        assert(0 <= w < s.len() && s[w].id == id);
        assert(w == k);
        assert(s[k].id == id);
        assert(is_first(s, id, k));
    }
}

proof fn lemma_txs_push(v: Seq<Transaction>, t: Transaction)
    ensures
        txs_view(v.push(t)) == txs_view(v).push(t@),
{
    assert(txs_view(v.push(t)) =~= txs_view(v).push(t@));
}

spec fn entries_view(m: Map<u128, ActiveEntry>) -> Map<u128, TxView> {
    m.map_values(|e: ActiveEntry| e.tx@)
}

/// Each entry is filed under its transaction's id and holds a token exactly
/// while its transaction is live.
spec fn entries_ok(m: Map<u128, ActiveEntry>) -> bool {
    forall|k: u128|
        #[trigger] m.contains_key(k) ==> m[k].tx.id == k && (m[k].token is Some <==> is_live(
            m[k].tx.status@,
        ))
}

proof fn lemma_entries_insert(m: Map<u128, ActiveEntry>, k: u128, e: ActiveEntry)
    ensures
        entries_view(m.insert(k, e)) == entries_view(m).insert(k, e.tx@),
{
    assert(entries_view(m.insert(k, e)) =~= entries_view(m).insert(k, e.tx@));
}

proof fn lemma_entries_remove(m: Map<u128, ActiveEntry>, k: u128)
    ensures
        entries_view(m.remove(k)) == entries_view(m).remove(k),
{
    assert(entries_view(m.remove(k)) =~= entries_view(m).remove(k));
}

proof fn lemma_steps_commute(m: Map<u128, TxView>)
    ensures
        vstd::set::fold::is_fun_commutative(count_step(m)),
        vstd::set::fold::is_fun_commutative(share_step(m)),
{
    assert forall|a1: u128, a2: u128, b: nat|
        #[trigger] count_step(m)(count_step(m)(b, a2), a1) == count_step(m)(
            count_step(m)(b, a1),
            a2,
        ) by {}
    assert forall|a1: u128, a2: u128, b: nat|
        #[trigger] share_step(m)(share_step(m)(b, a2), a1) == share_step(m)(
            share_step(m)(b, a1),
            a2,
        ) by {}
}

/// The first `i + 1` ids of `s`, as a set, are the first `i` and `s[i]`;
/// with no id twice, `s[i]` is not among the first `i`.
proof fn lemma_prefix_step(s: Seq<u128>, i: int)
    requires
        0 <= i < s.len(),
        s.no_duplicates(),
    ensures
        s.take(i + 1).to_set() == s.take(i).to_set().insert(s[i]),
        !s.take(i).to_set().contains(s[i]),
{
    assert(s.take(i + 1) =~= s.take(i).push(s[i]));
    s.take(i).lemma_push_to_set_commute(s[i]);
    if s.take(i).to_set().contains(s[i]) {
        assert(s.take(i).contains(s[i]));
        let w = choose|w: int| 0 <= w < s.take(i).len() && #[trigger] s.take(i)[w] == s[i];
        assert(s[w] == s[i]);
    }
}

impl TransactionManager {
    /// Running transactions by id.
    pub closed spec fn active(&self) -> Map<u128, TxView> {
        entries_view(self.active@)
    }

    /// Finished transactions, oldest first.
    pub closed spec fn history(&self) -> Seq<TxView> {
        txs_view(self.history@)
    }

    /// Each running transaction is filed under its own id, and a token is
    /// held exactly for the live ones.
    pub closed spec fn wf(&self) -> bool {
        entries_ok(self.active@)
    }

    /// In a well-formed manager each running transaction is filed under its
    /// own id.
    pub proof fn law_running_filed_under_own_id(&self)
        requires
            self.wf(),
        ensures
            forall|k: u128| #[trigger] self.active().contains_key(k) ==> self.active()[k].id == k,
    {
    }

    /// A manager with no running transaction and the given history.
    pub fn new(history: Vec<Transaction>) -> (r: Self)
        ensures
            r.wf(),
            r.active() == Map::<u128, TxView>::empty(),
            r.history() == txs_view(history@),
    {
        let mut h: VecDeque<Transaction> = VecDeque::new();
        let mut i: usize = 0;
        while i < history.len()
            invariant
                0 <= i <= history@.len(),
                txs_view(h@) == txs_view(history@).subrange(0, i as int),
            decreases history@.len() - i,
        {
            let t = copy_tx(&history[i]);
            proof {
                lemma_txs_push(h@, t);
            }
            h.push_back(t);
            i += 1;
            assert(txs_view(h@) =~= txs_view(history@).subrange(0, i as int));
        }
        assert(txs_view(history@).subrange(0, i as int) =~= txs_view(history@));
        let r = TransactionManager { active: HashMap::new(), history: h };
        assert(r.active() =~= Map::<u128, TxView>::empty());
        r
    }

    /// The finished transactions, oldest first, for saving.
    pub fn history_snapshot(&self) -> (r: Vec<Transaction>)
        ensures
            txs_view(r@) == self.history(),
    {
        copy_deque(&self.history)
    }

    /// Registers a new pending transaction under `id` with a fresh
    /// cancellation token, replacing a running one with the same id; the
    /// caller gets the transaction and a handle on its token.
    pub fn create_with_id(
        &mut self,
        id: u128,
        t_type: TransactionType,
        package_id: String,
        provider: Provider,
    ) -> (r: (Transaction, CancellationToken))
        requires
            old(self).wf(),
        ensures
            final(self).wf(),
            r.0@ == fresh_tx(id, t_type, package_id@, provider),
            final(self).active() == upsert(old(self).active(), r.0@),
            final(self).history() == old(self).history(),
    {
        let tx = Transaction {
            id,
            t_type,
            package_id,
            provider,
            status: TransactionStatus::Pending,
            progress: 0,
        };
        let token = new_token();
        let handed = share_token(&token);
        let entry = ActiveEntry { tx: copy_tx(&tx), token: Some(token) };
        proof {
            lemma_entries_insert(self.active@, id, entry);
        }
        self.active.insert(id, entry);
        (tx, handed)
    }

    /// Registers a new pending transaction under a random id.
    pub fn create(
        &mut self,
        t_type: TransactionType,
        package_id: String,
        provider: Provider,
    ) -> (r: (Transaction, CancellationToken))
        requires
            old(self).wf(),
        ensures
            final(self).wf(),
            r.0@ == fresh_tx(r.0.id, t_type, package_id@, provider),
            final(self).active() == upsert(old(self).active(), r.0@),
            final(self).history() == old(self).history(),
    {
        let id = random_transaction_id();
        self.create_with_id(id, t_type, package_id, provider)
    }

    /// Records reported progress; a finished transaction is left as it is,
    /// any other one is now running.
    pub fn update_progress(&mut self, id: u128, progress: u8)
        requires
            old(self).wf(),
        ensures
            final(self).wf(),
            final(self).active() == progress_update(old(self).active(), id, progress),
            final(self).history() == old(self).history(),
    {
        let ghost old_active = self.active();
        let ghost old_entries = self.active@;
        if let Some(e) = self.active.remove(&id) {
            proof {
                lemma_entries_remove(old_entries, id);
            }
            let ActiveEntry { tx: t, token } = e;
            let finished = match &t.status {
                TransactionStatus::Success => true,
                TransactionStatus::Failed(_) => true,
                _ => false,
            };
            let entry = if finished {
                ActiveEntry { tx: t, token }
            } else {
                let nt = Transaction {
                    id: t.id,
                    t_type: t.t_type,
                    package_id: t.package_id,
                    provider: t.provider,
                    status: TransactionStatus::Running,
                    progress,
                };
                ActiveEntry { tx: nt, token }
            };
            proof {
                lemma_entries_insert(self.active@, id, entry);
            }
            self.active.insert(id, entry);
            proof {
                assert(self.active() =~= progress_update(old_active, id, progress));
            }
        } else {
            proof {
                lemma_entries_remove(old_entries, id);
                assert(self.active() =~= old_active);
            }
        }
    }

    /// Ends a transaction: its token is dropped, it leaves the running set
    /// with progress 100 and the given outcome, and joins the end of the
    /// history, which then keeps only its last `HISTORY_LIMIT` entries. An
    /// unknown id changes nothing.
    pub fn complete(&mut self, id: u128, success: bool, message: String)
        requires
            old(self).wf(),
        ensures
            final(self).wf(),
            final(self).active() == old(self).active().remove(id),
            final(self).history() == if old(self).active().contains_key(id) {
                filed(old(self).history(), finished_tx(old(self).active()[id], success, message@))
            } else {
                old(self).history()
            },
            old(self).active().contains_key(id) ==> final(self).history().len() <= HISTORY_LIMIT,
    {
        let ghost old_entries = self.active@;
        let removed = self.active.remove(&id);
        proof {
            lemma_entries_remove(old_entries, id);
        }
        if let Some(e) = removed {
            let ActiveEntry { tx: t, token: _ } = e;
            let status = if success {
                TransactionStatus::Success
            } else {
                TransactionStatus::Failed(message)
            };
            let done = Transaction {
                id: t.id,
                t_type: t.t_type,
                package_id: t.package_id,
                provider: t.provider,
                status,
                progress: 100,
            };
            let ghost kept = self.active@;
            let ghost full = self.history().push(done@);
            proof {
                lemma_txs_push(self.history@, done);
            }
            self.history.push_back(done);
            assert(self.history() =~= full.subrange(full.len() - self.history@.len(), full.len() as int));
            while self.history.len() > HISTORY_LIMIT
                invariant
                    self.history@.len() <= full.len(),
                    self.history() == full.subrange(
                        full.len() - self.history@.len(),
                        full.len() as int,
                    ),
                    full.len() > HISTORY_LIMIT ==> self.history@.len() >= HISTORY_LIMIT,
                    full.len() <= HISTORY_LIMIT ==> self.history@.len() == full.len(),
                    self.active@ == kept,
                decreases self.history@.len(),
            {
                let ghost before = self.history@;
                self.history.pop_front();
                assert(self.history() =~= full.subrange(
                    full.len() - self.history@.len(),
                    full.len() as int,
                )) by {
                    assert forall|k: int| 0 <= k < self.history@.len() implies #[trigger] txs_view(
                        self.history@,
                    )[k] == full[full.len() - self.history@.len() + k] by {
                        assert(self.history@[k] == before[k + 1]);
                        assert(txs_view(before)[k + 1] == before[k + 1]@);
                    }
                }
            }
            proof {
                if full.len() <= HISTORY_LIMIT {
                    assert(self.history() =~= full);
                }
            }
        }
    }

    /// The transaction with this id: a running one first, else the first
    /// match in the history.
    pub fn get(&self, id: u128) -> (r: Option<Transaction>)
        requires
            self.wf(),
        ensures
            match r {
                Some(t) => lookup(self.active(), self.history(), id) == Some(t@),
                None => lookup(self.active(), self.history(), id) is None,
            },
    {
        if let Some(e) = self.active.get(&id) {
            return Some(copy_tx(&e.tx));
        }
        if let Some(i) = history_position(&self.history, id) {
            proof {
                lemma_first(self.history(), id, i as int);
            }
            return Some(copy_tx(&self.history[i]));
        }
        None
    }

    /// Every transaction: the running ones (in no particular order, each
    /// once), then the history.
    pub fn list(&self) -> (r: Vec<Transaction>)
        requires
            self.wf(),
        ensures
            r@.len() == self.active().dom().len() + self.history().len(),
            forall|i: int|
                #![trigger r@[i]]
                0 <= i < self.active().dom().len() ==> self.active().contains_key(r@[i].id)
                    && self.active()[r@[i].id] == r@[i]@,
            forall|i: int, j: int|
                #![trigger r@[i], r@[j]]
                0 <= i < j < self.active().dom().len() ==> r@[i].id != r@[j].id,
            txs_view(r@).subrange(self.active().dom().len() as int, r@.len() as int)
                == self.history(),
    {
        let ids = self.active_ids();
        let mut r: Vec<Transaction> = Vec::new();
        let mut i: usize = 0;
        while i < ids.len()
            invariant
                0 <= i <= ids@.len(),
                ids@.no_duplicates(),
                ids@.to_set() == self.active@.dom(),
                entries_ok(self.active@),
                r@.len() == i,
                forall|k: int| 0 <= k < i ==> #[trigger] r@[k]@ == self.active()[ids@[k]] && r@[k].id == ids@[k],
            decreases ids@.len() - i,
        {
            let k = ids[i];
            assert(ids@.to_set().contains(k));
            let e = self.active.get(&k).unwrap();
            r.push(copy_tx(&e.tx));
            i += 1;
        }
        proof {
            assert forall|a: int, b: int| 0 <= a < b < i implies #[trigger] r@[a].id != #[trigger] r@[b].id by {
                assert(r@[a]@ == self.active()[ids@[a]]);
                assert(r@[b]@ == self.active()[ids@[b]]);
                assert(ids@[a] != ids@[b]);
            }
            assert forall|a: int| 0 <= a < i implies self.active().contains_key(#[trigger] r@[a].id) by {
                assert(r@[a]@ == self.active()[ids@[a]]);
                assert(ids@.contains(ids@[a]));
                assert(ids@.to_set().contains(ids@[a]));
            }
            assert(self.active().dom() =~= self.active@.dom());
        }
        let ghost n = r@.len();
        let ghost pre = r@;
        let mut j: usize = 0;
        while j < self.history.len()
            invariant
                0 <= j <= self.history@.len(),
                r@.len() == n + j,
                pre.len() == n,
                forall|k: int| 0 <= k < n ==> #[trigger] r@[k] == pre[k],
                txs_view(r@).subrange(n as int, r@.len() as int) == self.history().subrange(0, j as int),
            decreases self.history@.len() - j,
        {
            let t = copy_tx(&self.history[j]);
            proof {
                lemma_txs_push(r@, t);
            }
            r.push(t);
            j += 1;
            assert(txs_view(r@).subrange(n as int, r@.len() as int) =~= self.history().subrange(0, j as int));
        }
        assert(self.history().subrange(0, j as int) =~= self.history());
        assert forall|a: int| 0 <= a < n implies #[trigger] r@[a] == pre[a] by {}
        r
    }

    /// Cancels a live transaction: it is marked failed with "Cancelled" and
    /// its token is signalled. True exactly when there was one to cancel.
    pub fn cancel(&mut self, id: u128) -> (r: bool)
        requires
            old(self).wf(),
        ensures
            final(self).wf(),
            r == cancellable(old(self).active(), id),
            final(self).active() == cancel_update(old(self).active(), id),
            final(self).history() == old(self).history(),
    {
        let ghost old_active = self.active();
        let ghost old_entries = self.active@;
        let removed = self.active.remove(&id);
        proof {
            lemma_entries_remove(old_entries, id);
        }
        if let Some(e) = removed {
            let ActiveEntry { tx: t, token } = e;
            let live = match &t.status {
                TransactionStatus::Pending => true,
                TransactionStatus::Running => true,
                _ => false,
            };
            if live {
                let nt = Transaction {
                    id: t.id,
                    t_type: t.t_type,
                    package_id: t.package_id,
                    provider: t.provider,
                    status: TransactionStatus::Failed(cancelled_message()),
                    progress: t.progress,
                };
                let entry = ActiveEntry { tx: nt, token: None };
                proof {
                    lemma_entries_insert(self.active@, id, entry);
                }
                self.active.insert(id, entry);
                proof {
                    assert(self.active() =~= cancel_update(old_active, id));
                }
                if let Some(tok) = token {
                    signal_cancel(&tok);
                    return true;
                }
                false
            } else {
                let entry = ActiveEntry { tx: t, token };
                proof {
                    lemma_entries_insert(self.active@, id, entry);
                }
                self.active.insert(id, entry);
                proof {
                    assert(self.active() =~= old_active);
                }
                false
            }
        } else {
            proof {
                assert(self.active() =~= old_active);
            }
            false
        }
    }

    /// The ids of the running transactions, each once.
    fn active_ids(&self) -> (r: Vec<u128>)
        ensures
            r@.no_duplicates(),
            r@.to_set() == self.active@.dom(),
            r@.len() == self.active@.dom().len(),
    {
        let ghost v = spec_hash_map_iter(&self.active).remaining();
        let ghost m = self.active@;
        let mut r: Vec<u128> = Vec::new();
        for pair in it: self.active.iter()
            invariant
                it.seq() == v,
                r@.len() == it.index(),
                forall|i: int| 0 <= i < r@.len() ==> #[trigger] r@[i] == *v[i].0,
        {
            let (k, _e) = pair;
            r.push(*k);
        }
        proof {
            assert(v.no_duplicates());
            assert(r@.len() == v.len());
            assert forall|i: int, j: int| 0 <= i < r@.len() && 0 <= j < r@.len() && i != j implies r@[i]
                != r@[j] by {
                assert(r@[i] == *v[i].0);
                assert(r@[j] == *v[j].0);
                assert(m.contains_key(*v[i].0) && m[*v[i].0] == *v[i].1);
                assert(m.contains_key(*v[j].0) && m[*v[j].0] == *v[j].1);
                if r@[i] == r@[j] {
                    assert(v[i] == v[j]);
                }
            }
            assert forall|k: u128| r@.to_set().contains(k) <==> m.dom().contains(k) by {
                if m.contains_key(k) {
                    assert(v.contains((&k, &m[k])));
                    let w = choose|w: int| 0 <= w < v.len() && v[w] == (&k, &m[k]);
                    assert(r@[w] == k);
                    assert(r@.contains(k));
                }
                if r@.contains(k) {
                    let w = choose|w: int| 0 <= w < r@.len() && r@[w] == k;
                    assert(r@[w] == *v[w].0);
                    assert(m.contains_key(*v[w].0));
                }
            }
            assert(r@.to_set() =~= m.dom());
        }
        r
    }

    /// Cancels every live transaction, as `cancel` does one by one.
    pub fn cancel_all(&mut self)
        requires
            old(self).wf(),
        ensures
            final(self).wf(),
            final(self).active() == old(self).active().map_values(|t: TxView| cancel_one(t)),
            final(self).history() == old(self).history(),
    {
        let ghost old_active = self.active();
        let ids = self.active_ids();
        let mut i: usize = 0;
        while i < ids.len()
            invariant
                0 <= i <= ids@.len(),
                ids@.no_duplicates(),
                ids@.to_set() == old_active.dom(),
                entries_ok(self.active@),
                self.active().dom() == old_active.dom(),
                forall|k: u128|
                    #[trigger] old_active.contains_key(k) ==> self.active()[k] == if ids@.take(
                        i as int,
                    ).to_set().contains(k) {
                        cancel_one(old_active[k])
                    } else {
                        old_active[k]
                    },
                self.history() == old(self).history(),
            decreases ids@.len() - i,
        {
            let k = ids[i];
            let ghost before = self.active();
            let ghost before_entries = self.active@;
            assert(ids@.to_set().contains(k));
            let removed = self.active.remove(&k);
            proof {
                lemma_entries_remove(before_entries, k);
            }
            if let Some(e) = removed {
                let ActiveEntry { tx: t, token } = e;
                let live = match &t.status {
                    TransactionStatus::Pending => true,
                    TransactionStatus::Running => true,
                    _ => false,
                };
                let entry = if live {
                    if let Some(tok) = token {
                        signal_cancel(&tok);
                    }
                    let nt = Transaction {
                        id: t.id,
                        t_type: t.t_type,
                        package_id: t.package_id,
                        provider: t.provider,
                        status: TransactionStatus::Failed(cancelled_message()),
                        progress: t.progress,
                    };
                    ActiveEntry { tx: nt, token: None }
                } else {
                    ActiveEntry { tx: t, token }
                };
                proof {
                    lemma_entries_insert(self.active@, k, entry);
                }
                self.active.insert(k, entry);
            }
            proof {
                lemma_prefix_step(ids@, i as int);
                assert(self.active().dom() =~= old_active.dom());
            }
            i += 1;
        }
        proof {
            assert(ids@.take(i as int) =~= ids@);
            assert(self.active() =~= old_active.map_values(|t: TxView| cancel_one(t)));
        }
    }

    /// Forgets every finished transaction.
    pub fn clear_history(&mut self)
        requires
            old(self).wf(),
        ensures
            final(self).wf(),
            final(self).active() == old(self).active(),
            final(self).history() == Seq::<TxView>::empty(),
    {
        self.history.clear();
        assert(self.history() =~= Seq::<TxView>::empty());
    }

    /// The taskbar progress: how many transactions are live and the sum of
    /// their percentages.
    pub fn launcher_progress(&self) -> (r: LauncherProgress)
        requires
            self.wf(),
        ensures
            r.active == live_count(self.active()),
            r.total_percent == live_progress(self.active()),
            r.visible == (live_count(self.active()) > 0),
    {
        let ghost m = self.active();
        let ids = self.active_ids();
        let mut count: u64 = 0;
        let mut total: u128 = 0;
        let mut i: usize = 0;
        proof {
            lemma_steps_commute(m);
            assert(ids@.take(0).to_set() =~= Set::<u128>::empty());
            vstd::set::fold::lemma_fold_empty(0nat, count_step(m));
            vstd::set::fold::lemma_fold_empty(0nat, share_step(m));
        }
        while i < ids.len()
            invariant
                0 <= i <= ids@.len(),
                ids@.no_duplicates(),
                ids@.to_set() == m.dom(),
                m == self.active(),
                vstd::set::fold::is_fun_commutative(count_step(m)),
                vstd::set::fold::is_fun_commutative(share_step(m)),
                count == ids@.take(i as int).to_set().fold(0nat, count_step(m)),
                total == ids@.take(i as int).to_set().fold(0nat, share_step(m)),
                count <= i,
                total <= 255 * i,
            decreases ids@.len() - i,
        {
            let k = ids[i];
            assert(ids@.to_set().contains(k));
            let e = self.active.get(&k).unwrap();
            let live = match &e.tx.status {
                TransactionStatus::Pending => true,
                TransactionStatus::Running => true,
                _ => false,
            };
            let ghost seen = ids@.take(i as int).to_set();
            proof {
                lemma_prefix_step(ids@, i as int);
                vstd::set::fold::lemma_fold_insert(seen, 0nat, count_step(m), k);
                vstd::set::fold::lemma_fold_insert(seen, 0nat, share_step(m), k);
                assert(m[k] == e.tx@);
            }
            if live {
                count = count + 1;
                total = total + e.tx.progress as u128;
            }
            i += 1;
        }
        proof {
            assert(ids@.take(i as int) =~= ids@);
        }
        LauncherProgress { visible: count > 0, active: count, total_percent: total }
    }
}

/// The message of a cancelled transaction.
fn cancelled_message() -> (r: String)
    ensures
        StatusView::Failed(r@) == cancelled_status(),
{
    let r = String::from_str("Cancelled");
    proof {
        reveal_strlit("Cancelled");
    }
    r
}

fn copy_status(s: &TransactionStatus) -> (r: TransactionStatus)
    ensures
        r@ == s@,
{
    match s {
        TransactionStatus::Pending => TransactionStatus::Pending,
        TransactionStatus::Running => TransactionStatus::Running,
        TransactionStatus::Success => TransactionStatus::Success,
        TransactionStatus::Failed(m) => TransactionStatus::Failed(m.clone()),
    }
}

fn copy_tx(t: &Transaction) -> (r: Transaction)
    ensures
        r@ == t@,
{
    Transaction {
        id: t.id,
        t_type: t.t_type,
        package_id: t.package_id.clone(),
        provider: t.provider,
        status: copy_status(&t.status),
        progress: t.progress,
    }
}

fn copy_deque(v: &VecDeque<Transaction>) -> (r: Vec<Transaction>)
    ensures
        txs_view(r@) == txs_view(v@),
{
    let mut r: Vec<Transaction> = Vec::new();
    let mut i: usize = 0;
    while i < v.len()
        invariant
            0 <= i <= v@.len(),
            txs_view(r@) == txs_view(v@).subrange(0, i as int),
        decreases v@.len() - i,
    {
        let t = copy_tx(&v[i]);
        proof {
            lemma_txs_push(r@, t);
        }
        r.push(t);
        i += 1;
        assert(txs_view(r@) =~= txs_view(v@).subrange(0, i as int));
    }
    assert(txs_view(v@).subrange(0, i as int) =~= txs_view(v@));
    r
}

fn copy_all(v: &Vec<Transaction>) -> (r: Vec<Transaction>)
    ensures
        txs_view(r@) == txs_view(v@),
{
    let mut r: Vec<Transaction> = Vec::new();
    let mut i: usize = 0;
    while i < v.len()
        invariant
            0 <= i <= v.len(),
            txs_view(r@) == txs_view(v@).subrange(0, i as int),
        decreases v.len() - i,
    {
        let t = copy_tx(&v[i]);
        proof {
            lemma_txs_push(r@, t);
        }
        r.push(t);
        i += 1;
        assert(txs_view(r@) =~= txs_view(v@).subrange(0, i as int));
    }
    assert(txs_view(v@).subrange(0, i as int) =~= txs_view(v@));
    r
}

fn history_position(v: &VecDeque<Transaction>, id: u128) -> (r: Option<usize>)
    ensures
        match r {
            Some(i) => is_first(txs_view(v@), id, i as int),
            None => !contains_id(txs_view(v@), id),
        },
{
    let mut i: usize = 0;
    while i < v.len()
        invariant
            0 <= i <= v.len(),
            forall|j: int| 0 <= j < i ==> #[trigger] txs_view(v@)[j].id != id,
        decreases v.len() - i,
    {
        if v[i].id == id {
            return Some(i);
        }
        i += 1;
    }
    None
}


/// A hexadecimal digit, lower case.
pub open spec fn hex_char(d: nat) -> char {
    if d < 10 {
        (d + 48) as char
    } else {
        (d + 87) as char
    }
}

/// The last `count` hexadecimal digits of `n`, most significant first.
pub open spec fn hex_digits(n: nat, count: nat) -> Seq<char>
    decreases count,
{
    if count == 0 {
        Seq::empty()
    } else {
        hex_digits(n / 16, (count - 1) as nat).push(hex_char(n % 16))
    }
}

/// The text of a transaction id: its 32 hexadecimal digits, lower case, in
/// groups of 8, 4, 4, 4 and 12 joined by hyphens (a UUID's usual form).
pub open spec fn hyphenated(id: u128) -> Seq<char> {
    let h = hex_digits(id as nat, 32);
    h.subrange(0, 8) + "-"@ + h.subrange(8, 12) + "-"@ + h.subrange(12, 16) + "-"@ + h.subrange(16, 20)
        + "-"@ + h.subrange(20, 32)
}

/// What `Uuid::parse_str` reads from a text, as a number.
pub uninterp spec fn parsed_uuid(s: Seq<char>) -> Option<u128>;

/// The text of a transaction id (`Uuid::from_u128` shown with `Display`,
/// which writes the hyphenated lower-case form).
#[verifier::external_body]
fn uuid_text(id: u128) -> (r: String)
    ensures
        r@ == hyphenated(id),
{
    uuid::Uuid::from_u128(id).to_string()
}

/// Reads a transaction id with `Uuid::parse_str`; the result is named by
/// `parsed_uuid`, and the hyphenated form of an id reads back as that id.
#[verifier::external_body]
fn parse_uuid(s: &str) -> (r: Option<u128>)
    ensures
        r == parsed_uuid(s@),
        forall|x: u128| s@ == hyphenated(x) ==> r == Some(x),
{
    uuid::Uuid::parse_str(s).ok().map(|u| u.as_u128())
}

/// The text a transaction id is handed out as.
pub fn transaction_id_text(id: u128) -> (r: String)
    ensures
        r@ == hyphenated(id),
{
    uuid_text(id)
}

impl TransactionManager {
    /// Cancels the transaction a text id names; `false` for a text that is
    /// not an id, as for an id that names nothing cancellable. The text an id
    /// was handed out as names that id.
    pub fn cancel_by_text(&mut self, text: &str) -> (r: bool)
        requires
            old(self).wf(),
        ensures
            final(self).wf(),
            match parsed_uuid(text@) {
                Some(id) => r == cancellable(old(self).active(), id) && final(self).active()
                    == cancel_update(old(self).active(), id),
                None => !r && final(self).active() == old(self).active(),
            },
            final(self).history() == old(self).history(),
            forall|id: u128|
                text@ == hyphenated(id) ==> r == cancellable(old(self).active(), id)
                    && final(self).active() == cancel_update(old(self).active(), id),
    {
        match parse_uuid(text) {
            Some(id) => self.cancel(id),
            None => false,
        }
    }

    /// The transaction a text id names, if any.
    pub fn get_by_text(&self, text: &str) -> (r: Option<Transaction>)
        requires
            self.wf(),
        ensures
            match parsed_uuid(text@) {
                Some(id) => match r {
                    Some(t) => lookup(self.active(), self.history(), id) == Some(t@),
                    None => lookup(self.active(), self.history(), id) is None,
                },
                None => r is None,
            },
            forall|id: u128|
                text@ == hyphenated(id) ==> match r {
                    Some(t) => lookup(self.active(), self.history(), id) == Some(t@),
                    None => lookup(self.active(), self.history(), id) is None,
                },
    {
        match parse_uuid(text) {
            Some(id) => self.get(id),
            None => None,
        }
    }
}


/// What watching a transaction shows at one look.
pub enum WatchLine {
    /// The daemon knows no such transaction.
    NotFound,
    Pending,
    /// Running, with its progress.
    Progress(u8),
    Done,
    /// Failed, with the reason.
    Failed(String),
}

/// What one look at a watched transaction shows, and whether the watch
/// ends there (it ends when the transaction is unknown or has finished).
pub fn watch_line(found: Option<Transaction>) -> (r: (WatchLine, bool))
    ensures
        match found {
            None => r.0 is NotFound && r.1,
            Some(t) => match t.status {
                TransactionStatus::Pending => r.0 is Pending && !r.1,
                TransactionStatus::Running => r.0 == WatchLine::Progress(t.progress) && !r.1,
                TransactionStatus::Success => r.0 is Done && r.1,
                TransactionStatus::Failed(m) => (r.0 matches WatchLine::Failed(x) && x@ == m@) && r.1,
            },
        },
{
    match found {
        None => (WatchLine::NotFound, true),
        Some(t) => match t.status {
            TransactionStatus::Pending => (WatchLine::Pending, false),
            TransactionStatus::Running => (WatchLine::Progress(t.progress), false),
            TransactionStatus::Success => (WatchLine::Done, true),
            TransactionStatus::Failed(m) => (WatchLine::Failed(m), true),
        },
    }
}

} // verus!
