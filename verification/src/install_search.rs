//! How a Flatpak app is looked for and installed: the remotes tried in turn,
//! on each the branches guessed (and, failing those, the refs listed by
//! name), and the refs found installed one after the other until one
//! transaction succeeds. The Flatpak calls themselves are made by the
//! caller; the search decides what comes next from what they returned.

use vstd::prelude::*;
use crate::text::{chars_of, string_of, strings_view, opt_view, str_eq, push_str};
use crate::fields::lemma_strings_view_push;
use crate::forge::{dedup_onto, add_all_new};

verus! {

/// Why an installation attempt failed.
pub enum InstallError {
    /// The provider could not be used (e.g. the remote is missing).
    Provider(String),
    /// The Flatpak transaction could not be set up or run.
    Transaction(String),
}

/// An error as a kind (`true` for a provider error) and its message.
pub open spec fn error_view(e: InstallError) -> (bool, Seq<char>) {
    match e {
        InstallError::Provider(m) => (true, m@),
        InstallError::Transaction(m) => (false, m@),
    }
}

pub open spec fn opt_error_view(o: Option<InstallError>) -> Option<(bool, Seq<char>)> {
    match o {
        Some(e) => Some(error_view(e)),
        None => None,
    }
}

pub open spec fn outcome_view(o: Option<Result<(), InstallError>>) -> Option<Result<(), (bool, Seq<char>)>> {
    match o {
        Some(Ok(())) => Some(Ok(())),
        Some(Err(e)) => Some(Err(error_view(e))),
        None => None,
    }
}

/// The kind of ref looked up: an app, or a runtime (extensions and add-ons).
#[derive(Clone, Copy, Debug, PartialEq, Eq, Structural)]
pub enum RefKind {
    App,
    Runtime,
}

/// Where the search stands.
#[derive(Clone, Copy, Debug, PartialEq, Eq, Structural)]
pub enum SearchStage {
    /// Opening the current remote.
    Opening,
    /// Looking the app up on the current branch, as the current kind.
    Fetching,
    /// Listing the remote's refs with the app's name.
    Listing,
    /// Installing the current ref.
    Running,
    /// Finished; the outcome is set.
    Done,
}

/// What the caller does next.
#[derive(Clone, Copy, Debug, PartialEq, Eq, Structural)]
pub enum InstallAction {
    /// Find the installation that has `remotes[remote_idx]` and open that
    /// remote, reporting its default branch.
    OpenRemote,
    /// Fetch the ref of the app as `kind` on `branches[branch_idx]`.
    FetchRef,
    /// List the remote's refs named after the app.
    ListRefs,
    /// Run an install transaction for `refs[ref_idx]`.
    Run,
    /// Stop: `outcome` holds the result.
    Finish,
}

/// What a Flatpak call returned.
pub enum InstallEvent {
    /// The remote was opened (with its default branch, if any), or not.
    Opened(Result<Option<String>, InstallError>),
    /// `None` when there is no such ref; else the ref's full name, if it
    /// could be formatted.
    Fetched(Option<Option<String>>),
    /// The full names of the refs found by name (`None` where one could not
    /// be formatted).
    Listed(Vec<Option<String>>),
    /// The install transaction ran.
    Ran(Result<(), InstallError>),
}

/// The state of an installation search.
pub struct InstallSearch {
    pub app_id: String,
    pub remotes: Vec<String>,
    pub remote_idx: usize,
    pub stage: SearchStage,
    pub branches: Vec<String>,
    pub branch_idx: usize,
    pub kind: RefKind,
    pub refs: Vec<String>,
    pub ref_idx: usize,
    pub last_error: Option<InstallError>,
    pub outcome: Option<Result<(), InstallError>>,
}

/// The action that goes with a stage.
pub open spec fn action_of(stage: SearchStage) -> InstallAction {
    match stage {
        SearchStage::Opening => InstallAction::OpenRemote,
        SearchStage::Fetching => InstallAction::FetchRef,
        SearchStage::Listing => InstallAction::ListRefs,
        SearchStage::Running => InstallAction::Run,
        SearchStage::Done => InstallAction::Finish,
    }
}

/// The branches guessed after the remote's default one.
pub open spec fn common_branches() -> Seq<Seq<char>> {
    seq!["stable"@, "master"@, "beta"@, "main"@]
}

/// The branches tried on a remote: its default branch (if it has a
/// non-empty one), then the common ones it is not.
pub open spec fn spec_branch_candidates(default: Option<Seq<char>>) -> Seq<Seq<char>> {
    dedup_onto(
        match default {
            Some(b) => if b.len() > 0 {
                seq![b]
            } else {
                Seq::empty()
            },
            None => Seq::empty(),
        },
        common_branches(),
    )
}

/// A ref added to the refs to try unless it is there already.
pub open spec fn push_unique(refs: Seq<Seq<char>>, r: Seq<char>) -> Seq<Seq<char>> {
    if refs.contains(r) {
        refs
    } else {
        refs.push(r)
    }
}

/// The refs listed by name added to the refs to try, in order, each once.
pub open spec fn push_found(refs: Seq<Seq<char>>, found: Seq<Option<Seq<char>>>) -> Seq<Seq<char>>
    decreases found.len(),
{
    if found.len() == 0 {
        refs
    } else {
        let r = push_found(refs, found.drop_last());
        match found.last() {
            Some(f) => push_unique(r, f),
            None => r,
        }
    }
}

/// The error a search ends with when no remote worked: the last error met,
/// else a generic one.
pub open spec fn final_error(app_id: Seq<char>, last: Option<(bool, Seq<char>)>) -> (bool, Seq<char>) {
    match last {
        Some(e) => e,
        None => (false, "Failed to install "@ + app_id + " from any available remote"@),
    }
}

/// The error of a remote that has none of the app's refs.
pub open spec fn not_found_error(app_id: Seq<char>, remote: Seq<char>) -> (bool, Seq<char>) {
    (false, app_id + " not found in remote "@ + remote)
}

impl InstallSearch {
    /// The search is consistent: positions within their lists, a refs list
    /// without duplicates, and an outcome exactly when it is done.
    pub open spec fn wf(self) -> bool {
        &&& self.remote_idx <= self.remotes@.len()
        &&& strings_view(self.refs@).no_duplicates()
        &&& (self.stage == SearchStage::Done) == (self.outcome is Some)
        &&& self.stage != SearchStage::Done ==> self.remote_idx < self.remotes@.len()
        &&& self.stage == SearchStage::Fetching ==> self.branch_idx < self.branches@.len()
        &&& self.stage == SearchStage::Running ==> self.ref_idx < self.refs@.len()
    }

    /// `new` moved on to the next remote after `old`'s remote failed with
    /// `err`: opening it, or finishing with the last error when there is none.
    pub open spec fn advanced(old: InstallSearch, new: InstallSearch, err: Option<(bool, Seq<char>)>) -> bool {
        &&& new.app_id == old.app_id
        &&& new.remotes == old.remotes
        &&& new.remote_idx == old.remote_idx + 1
        &&& opt_error_view(new.last_error) == err
        &&& if new.remote_idx < old.remotes@.len() {
            new.stage == SearchStage::Opening && new.outcome is None
        } else {
            new.stage == SearchStage::Done && outcome_view(new.outcome) == Some(
                Err::<(), (bool, Seq<char>)>(final_error(old.app_id@, err)),
            )
        }
    }

    /// `new` moved on to the next branch of `old` with the refs `refs`: the
    /// app kind on that branch, else listing by name when no ref was found,
    /// else installing the first ref found.
    pub open spec fn next_branch(old: InstallSearch, new: InstallSearch, refs: Seq<Seq<char>>) -> bool {
        &&& new.app_id == old.app_id
        &&& new.remotes == old.remotes
        &&& new.remote_idx == old.remote_idx
        &&& new.branches == old.branches
        &&& new.branch_idx == old.branch_idx + 1
        &&& new.kind == RefKind::App
        &&& strings_view(new.refs@) == refs
        &&& new.last_error == old.last_error
        &&& new.outcome is None
        &&& if new.branch_idx < old.branches@.len() {
            new.stage == SearchStage::Fetching
        } else if refs.len() == 0 {
            new.stage == SearchStage::Listing
        } else {
            new.stage == SearchStage::Running && new.ref_idx == 0
        }
    }

    /// How far the search has come: the remote, then the stage within it,
    /// then the branch, kind and ref.
    pub open spec fn progressed(old: InstallSearch, new: InstallSearch) -> bool {
        ||| new.remote_idx > old.remote_idx
        ||| new.remote_idx == old.remote_idx && stage_rank(new.stage) > stage_rank(old.stage)
        ||| new.remote_idx == old.remote_idx && new.stage == old.stage && new.branch_idx
            > old.branch_idx
        ||| new.remote_idx == old.remote_idx && new.stage == old.stage && new.branch_idx
            == old.branch_idx && old.kind == RefKind::App && new.kind == RefKind::Runtime
        ||| new.remote_idx == old.remote_idx && new.stage == old.stage && new.ref_idx > old.ref_idx
    }
}

pub open spec fn stage_rank(s: SearchStage) -> int {
    match s {
        SearchStage::Opening => 0,
        SearchStage::Fetching => 1,
        SearchStage::Listing => 2,
        SearchStage::Running => 3,
        SearchStage::Done => 4,
    }
}

/// The remotes tried by a plain install: the app's catalog remote, then
/// Flathub unless that is the catalog remote.
pub fn remotes_with_fallback(primary: Option<String>) -> (r: Vec<String>)
    ensures
        strings_view(r@) == (match opt_view(primary) {
            Some(p) => seq![p],
            None => Seq::<Seq<char>>::empty(),
        }) + (if opt_view(primary) == Some("flathub"@) {
            Seq::<Seq<char>>::empty()
        } else {
            seq!["flathub"@]
        }),
{
    let mut r: Vec<String> = Vec::new();
    let is_flathub = match &primary {
        Some(p) => str_eq(p.as_str(), "flathub"),
        None => false,
    };
    if let Some(p) = primary {
        r.push(p);
    }
    if !is_flathub {
        r.push("flathub".to_string());
        proof {
            reveal_strlit("flathub");
        }
    }
    proof {
        reveal_strlit("flathub");
    }
    assert(strings_view(r@) =~= (match opt_view(primary) {
        Some(p) => seq![p],
        None => Seq::<Seq<char>>::empty(),
    }) + (if opt_view(primary) == Some("flathub"@) {
        Seq::<Seq<char>>::empty()
    } else {
        seq!["flathub"@]
    }));
    r
}

/// The remotes tried by an install with progress: the app's catalog remote,
/// then every configured remote, each once.
pub fn remotes_to_try(primary: Option<String>, remote_names: Vec<String>) -> (r: Vec<String>)
    ensures
        strings_view(r@) == dedup_onto(
            match opt_view(primary) {
                Some(p) => seq![p],
                None => Seq::<Seq<char>>::empty(),
            },
            strings_view(remote_names@),
        ),
{
    let mut r: Vec<String> = Vec::new();
    if let Some(p) = primary {
        r.push(p);
    }
    assert(strings_view(r@) =~= match opt_view(primary) {
        Some(p) => seq![p],
        None => Seq::<Seq<char>>::empty(),
    });
    add_all_new(&mut r, remote_names);
    r
}

/// The branches tried on a remote with this default branch.
pub fn branch_candidates(default: Option<String>) -> (r: Vec<String>)
    ensures
        strings_view(r@) == spec_branch_candidates(opt_view(default)),
{
    let mut r: Vec<String> = Vec::new();
    if let Some(b) = default {
        if chars_of(b.as_str()).len() > 0 {
            r.push(b);
        }
    }
    assert(strings_view(r@) =~= match opt_view(default) {
        Some(b) => if b.len() > 0 {
            seq![b]
        } else {
            Seq::<Seq<char>>::empty()
        },
        None => Seq::<Seq<char>>::empty(),
    });
    let common: Vec<String> = vec![
        "stable".to_string(),
        "master".to_string(),
        "beta".to_string(),
        "main".to_string(),
    ];
    proof {
        reveal_strlit("stable");
        reveal_strlit("master");
        reveal_strlit("beta");
        reveal_strlit("main");
    }
    assert(strings_view(common@) =~= common_branches());
    add_all_new(&mut r, common);
    r
}

proof fn lemma_push_unique_no_dups(refs: Seq<Seq<char>>, x: Seq<char>)
    requires
        refs.no_duplicates(),
    ensures
        push_unique(refs, x).no_duplicates(),
{
    if !refs.contains(x) {
        let p = refs.push(x);
        assert forall|i: int, j: int| 0 <= i < p.len() && 0 <= j < p.len() && i != j implies p[i]
            != p[j] by {
            if i < refs.len() && j < refs.len() {
                assert(p[i] == refs[i] && p[j] == refs[j]);
            } else if i == refs.len() {
                assert(p[j] == refs[j]);
            } else {
                assert(p[i] == refs[i]);
            }
        }
    }
}

/// Adds a ref to the refs to try unless it is there already.
fn add_ref(refs: &mut Vec<String>, r: String)
    requires
        strings_view(old(refs)@).no_duplicates(),
    ensures
        strings_view(final(refs)@) == push_unique(strings_view(old(refs)@), r@),
        strings_view(final(refs)@).no_duplicates(),
{
    proof {
        lemma_push_unique_no_dups(strings_view(refs@), r@);
    }
    let mut i: usize = 0;
    while i < refs.len()
        invariant
            0 <= i <= refs@.len(),
            refs@ == old(refs)@,
            strings_view(refs@).no_duplicates(),
            forall|j: int| 0 <= j < i ==> refs@[j]@ != r@,
        decreases refs@.len() - i,
    {
        if str_eq(refs[i].as_str(), r.as_str()) {
            assert(strings_view(refs@)[i as int] == r@);
            return;
        }
        i += 1;
    }
    assert(!strings_view(refs@).contains(r@)) by {
        assert forall|j: int| 0 <= j < strings_view(refs@).len() implies strings_view(refs@)[j] != r@ by {
            assert(strings_view(refs@)[j] == refs@[j]@);
        }
    }
    proof {
        lemma_strings_view_push(refs@, r);
    }
    refs.push(r);
}

fn copy_error(e: &InstallError) -> (r: InstallError)
    ensures
        error_view(r) == error_view(*e),
{
    match e {
        InstallError::Provider(m) => InstallError::Provider(m.clone()),
        InstallError::Transaction(m) => InstallError::Transaction(m.clone()),
    }
}

/// The error a remote fails with when no installation has it.
pub fn remote_not_found(remote: &str) -> (r: InstallError)
    ensures
        error_view(r) == (true, "remote '"@ + remote@ + "' not found"@),
{
    let mut v: Vec<char> = Vec::new();
    push_str(&mut v, "remote '");
    push_str(&mut v, remote);
    push_str(&mut v, "' not found");
    InstallError::Provider(string_of(&v))
}

impl InstallSearch {
    /// Starts looking for `app_id` on `remotes`, in order (finishing at once
    /// with the generic error when there are none).
    pub fn start(app_id: String, remotes: Vec<String>) -> (r: (InstallSearch, InstallAction))
        ensures
            r.0.wf(),
            r.1 == action_of(r.0.stage),
            r.0.app_id == app_id,
            r.0.remotes == remotes,
            r.0.remote_idx == 0,
            r.0.last_error is None,
            remotes@.len() > 0 ==> r.0.stage == SearchStage::Opening,
            remotes@.len() == 0 ==> r.0.stage == SearchStage::Done && outcome_view(r.0.outcome)
                == Some(Err::<(), (bool, Seq<char>)>(final_error(app_id@, None))),
    {
        let mut s = InstallSearch {
            app_id,
            remotes,
            remote_idx: 0,
            stage: SearchStage::Opening,
            branches: Vec::new(),
            branch_idx: 0,
            kind: RefKind::App,
            refs: Vec::new(),
            ref_idx: 0,
            last_error: None,
            outcome: None,
        };
        assert(strings_view(s.refs@) =~= Seq::<Seq<char>>::empty());
        if s.remotes.len() == 0 {
            s.outcome = Some(Err(s.generic_error()));
            s.stage = SearchStage::Done;
            return (s, InstallAction::Finish);
        }
        (s, InstallAction::OpenRemote)
    }

    fn generic_error(&self) -> (r: InstallError)
        ensures
            error_view(r) == final_error(self.app_id@, None),
    {
        let mut v: Vec<char> = Vec::new();
        push_str(&mut v, "Failed to install ");
        push_str(&mut v, self.app_id.as_str());
        push_str(&mut v, " from any available remote");
        InstallError::Transaction(string_of(&v))
    }

    /// Leaves the current remote after it failed with `err`.
    fn advance(&mut self, err: InstallError)
        requires
            old(self).wf(),
            old(self).stage != SearchStage::Done,
        ensures
            final(self).wf(),
            InstallSearch::advanced(*old(self), *final(self), Some(error_view(err))),
    {
        let n = self.remotes.len();
        assert(self.remote_idx < n);
        self.remote_idx = self.remote_idx + 1;
        if self.remote_idx < self.remotes.len() {
            self.last_error = Some(err);
            self.stage = SearchStage::Opening;
        } else {
            let e = copy_error(&err);
            self.last_error = Some(err);
            self.outcome = Some(Err(e));
            self.stage = SearchStage::Done;
        }
    }

    /// Moves on to the next branch with the refs found so far.
    fn to_next_branch(&mut self)
        requires
            old(self).wf(),
            old(self).stage == SearchStage::Fetching,
        ensures
            final(self).wf(),
            InstallSearch::next_branch(*old(self), *final(self), strings_view(old(self).refs@)),
    {
        let n = self.branches.len();
        assert(self.branch_idx < n);
        self.branch_idx = self.branch_idx + 1;
        self.kind = RefKind::App;
        if self.branch_idx < self.branches.len() {
            self.stage = SearchStage::Fetching;
        } else if self.refs.len() == 0 {
            self.stage = SearchStage::Listing;
        } else {
            self.stage = SearchStage::Running;
            self.ref_idx = 0;
        }
    }

    /// Takes in what the last Flatpak call returned and says what to do
    /// next. An event that does not answer the current action changes
    /// nothing.
    pub fn on_event(&mut self, event: InstallEvent) -> (r: InstallAction)
        requires
            old(self).wf(),
        ensures
            final(self).wf(),
            r == action_of(final(self).stage),
            match (old(self).stage, event) {
                (SearchStage::Opening, InstallEvent::Opened(Err(e))) => InstallSearch::advanced(
                    *old(self),
                    *final(self),
                    Some(error_view(e)),
                ),
                (SearchStage::Opening, InstallEvent::Opened(Ok(d))) => {
                    &&& final(self).stage == SearchStage::Fetching
                    &&& strings_view(final(self).branches@) == spec_branch_candidates(opt_view(d))
                    &&& final(self).branch_idx == 0
                    &&& final(self).kind == RefKind::App
                    &&& final(self).refs@.len() == 0
                    &&& final(self).app_id == old(self).app_id
                    &&& final(self).remotes == old(self).remotes
                    &&& final(self).remote_idx == old(self).remote_idx
                    &&& final(self).last_error == old(self).last_error
                    &&& final(self).outcome is None
                },
                (SearchStage::Fetching, InstallEvent::Fetched(None)) => if old(self).kind
                    == RefKind::App {
                    *final(self) == (InstallSearch { kind: RefKind::Runtime, ..*old(self) })
                } else {
                    InstallSearch::next_branch(*old(self), *final(self), strings_view(old(self).refs@))
                },
                (SearchStage::Fetching, InstallEvent::Fetched(Some(f))) => InstallSearch::next_branch(
                    *old(self),
                    *final(self),
                    match f {
                        Some(x) => push_unique(strings_view(old(self).refs@), x@),
                        None => strings_view(old(self).refs@),
                    },
                ),
                (SearchStage::Listing, InstallEvent::Listed(found)) => {
                    let refs = push_found(
                        strings_view(old(self).refs@),
                        found@.map_values(|o: Option<String>| opt_view(o)),
                    );
                    if refs.len() == 0 {
                        InstallSearch::advanced(
                            *old(self),
                            *final(self),
                            Some(
                                not_found_error(
                                    old(self).app_id@,
                                    old(self).remotes@[old(self).remote_idx as int]@,
                                ),
                            ),
                        )
                    } else {
                        &&& final(self).stage == SearchStage::Running
                        &&& final(self).ref_idx == 0
                        &&& strings_view(final(self).refs@) == refs
                        &&& final(self).app_id == old(self).app_id
                        &&& final(self).remotes == old(self).remotes
                        &&& final(self).remote_idx == old(self).remote_idx
                        &&& final(self).last_error == old(self).last_error
                        &&& final(self).outcome is None
                    }
                },
                (SearchStage::Running, InstallEvent::Ran(Ok(()))) => {
                    &&& final(self).stage == SearchStage::Done
                    &&& outcome_view(final(self).outcome) == Some(Ok::<(), (bool, Seq<char>)>(()))
                    &&& final(self).remote_idx == old(self).remote_idx
                    &&& final(self).ref_idx == old(self).ref_idx
                },
                (SearchStage::Running, InstallEvent::Ran(Err(e))) => if old(self).ref_idx + 1 < old(
                    self,
                ).refs@.len() {
                    &&& final(self).stage == SearchStage::Running
                    &&& final(self).ref_idx == old(self).ref_idx + 1
                    &&& opt_error_view(final(self).last_error) == Some(error_view(e))
                    &&& final(self).refs == old(self).refs
                    &&& final(self).app_id == old(self).app_id
                    &&& final(self).remotes == old(self).remotes
                    &&& final(self).remote_idx == old(self).remote_idx
                    &&& final(self).outcome is None
                } else {
                    InstallSearch::advanced(*old(self), *final(self), Some(error_view(e)))
                },
                _ => *final(self) == *old(self),
            },
            // The search only ever moves forward, and never comes back to a
            // remote it has left.
            *final(self) != *old(self) ==> InstallSearch::progressed(*old(self), *final(self)),
            final(self).remote_idx >= old(self).remote_idx,
            // It succeeds only when a transaction did.
            (outcome_view(final(self).outcome) == Some(Ok::<(), (bool, Seq<char>)>(()))) ==> (
            outcome_view(old(self).outcome) == Some(Ok::<(), (bool, Seq<char>)>(()))
                || event matches InstallEvent::Ran(Ok(_))),
    {
        match (self.stage, event) {
            (SearchStage::Opening, InstallEvent::Opened(Err(e))) => {
                self.advance(e);
            },
            (SearchStage::Opening, InstallEvent::Opened(Ok(d))) => {
                self.branches = branch_candidates(d);
                proof {
                    reveal_strlit("stable");
                }
                assert(spec_branch_candidates(opt_view(d)).len() > 0) by {
                    lemma_dedup_onto_grows(
                        match opt_view(d) {
                            Some(b) => if b.len() > 0 {
                                seq![b]
                            } else {
                                Seq::<Seq<char>>::empty()
                            },
                            None => Seq::<Seq<char>>::empty(),
                        },
                        common_branches(),
                    );
                }
                self.branch_idx = 0;
                self.kind = RefKind::App;
                self.refs = Vec::new();
                assert(strings_view(self.refs@) =~= Seq::<Seq<char>>::empty());
                self.stage = SearchStage::Fetching;
            },
            (SearchStage::Fetching, InstallEvent::Fetched(None)) => {
                if self.kind == RefKind::App {
                    self.kind = RefKind::Runtime;
                } else {
                    self.to_next_branch();
                }
            },
            (SearchStage::Fetching, InstallEvent::Fetched(Some(f))) => {
                match f {
                    Some(x) => {
                        add_ref(&mut self.refs, x);
                    },
                    None => {},
                }
                self.to_next_branch();
            },
            (SearchStage::Listing, InstallEvent::Listed(found)) => {
                let ghost fv = found@.map_values(|o: Option<String>| opt_view(o));
                let ghost r0 = strings_view(self.refs@);
                let mut i: usize = 0;
                assert(fv.take(0) =~= Seq::<Option<Seq<char>>>::empty());
                while i < found.len()
                    invariant
                        0 <= i <= found@.len(),
                        fv == found@.map_values(|o: Option<String>| opt_view(o)),
                        strings_view(self.refs@) == push_found(r0, fv.take(i as int)),
                        strings_view(self.refs@).no_duplicates(),
                        r0 == strings_view(old(self).refs@),
                        old(self).wf(),
                        old(self).stage == SearchStage::Listing,
                        self.stage == old(self).stage,
                        self.app_id == old(self).app_id,
                        self.remotes == old(self).remotes,
                        self.remote_idx == old(self).remote_idx,
                        self.branches == old(self).branches,
                        self.branch_idx == old(self).branch_idx,
                        self.kind == old(self).kind,
                        self.ref_idx == old(self).ref_idx,
                        self.last_error == old(self).last_error,
                        self.outcome == old(self).outcome,
                    decreases found@.len() - i,
                {
                    assert(fv.take(i + 1).drop_last() =~= fv.take(i as int));
                    assert(fv.take(i + 1).last() == opt_view(found@[i as int]));
                    if let Some(x) = &found[i] {
                        add_ref(&mut self.refs, x.clone());
                    }
                    i += 1;
                }
                assert(fv.take(i as int) =~= fv);
                if self.refs.len() == 0 {
                    let mut v: Vec<char> = Vec::new();
                    push_str(&mut v, self.app_id.as_str());
                    push_str(&mut v, " not found in remote ");
                    push_str(&mut v, self.remotes[self.remote_idx].as_str());
                    let e = InstallError::Transaction(string_of(&v));
                    self.advance(e);
                } else {
                    self.ref_idx = 0;
                    self.stage = SearchStage::Running;
                }
            },
            (SearchStage::Running, InstallEvent::Ran(Ok(()))) => {
                self.outcome = Some(Ok(()));
                self.stage = SearchStage::Done;
            },
            (SearchStage::Running, InstallEvent::Ran(Err(e))) => {
                let n = self.refs.len();
                assert(self.ref_idx < n);
                if self.ref_idx + 1 < n {
                    self.ref_idx = self.ref_idx + 1;
                    self.last_error = Some(e);
                } else {
                    self.advance(e);
                }
            },
            _ => {},
        }
        action_of_exec(self.stage)
    }
}

proof fn lemma_dedup_onto_grows(acc: Seq<Seq<char>>, items: Seq<Seq<char>>)
    requires
        items.len() > 0,
    ensures
        dedup_onto(acc, items).len() > 0,
    decreases items.len(),
{
    if items.len() > 1 {
        lemma_dedup_onto_grows(acc, items.drop_last());
    }
}

fn action_of_exec(stage: SearchStage) -> (r: InstallAction)
    ensures
        r == action_of(stage),
{
    match stage {
        SearchStage::Opening => InstallAction::OpenRemote,
        SearchStage::Fetching => InstallAction::FetchRef,
        SearchStage::Listing => InstallAction::ListRefs,
        SearchStage::Running => InstallAction::Run,
        SearchStage::Done => InstallAction::Finish,
    }
}

} // verus!
