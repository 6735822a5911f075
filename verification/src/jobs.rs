//! The life of a package job as the daemon drives it (waiting for a download
//! slot, running, ending), and the desktop job notification that mirrors it.

use vstd::prelude::*;
use std::sync::mpsc::Sender;
use crate::text::{has_prefix, path_join, path_join_exec, str_starts_with, chars_of, string_of};

verus! {

/// What a job does.
#[derive(Clone, Copy, Debug, PartialEq, Eq, Structural)]
pub enum JobKind {
    Install,
    InstallFlatpakref,
    InstallBundle,
    Update,
    Remove,
    RemoveWithData,
    AutoUpdate,
}

/// How a job of a kind is run.
#[derive(Clone, Copy, Debug, PartialEq, Eq, Structural)]
pub struct JobPlan {
    /// It waits for one of the limited download slots first.
    pub needs_slot: bool,
    /// The user can cancel it.
    pub cancellable: bool,
    /// It reports this progress before the provider starts (removals and
    /// automatic updates have no progress of their own).
    pub initial_progress: Option<u8>,
    /// It shows a desktop job notification.
    pub notifies: bool,
}

pub open spec fn spec_plan(kind: JobKind) -> JobPlan {
    match kind {
        JobKind::Remove | JobKind::RemoveWithData => JobPlan {
            needs_slot: false,
            cancellable: false,
            initial_progress: Some(10u8),
            notifies: true,
        },
        JobKind::AutoUpdate => JobPlan {
            needs_slot: false,
            cancellable: false,
            initial_progress: Some(10u8),
            notifies: false,
        },
        _ => JobPlan { needs_slot: true, cancellable: true, initial_progress: None, notifies: true },
    }
}

/// How a job of this kind is run.
pub fn plan(kind: JobKind) -> (r: JobPlan)
    ensures
        r == spec_plan(kind),
{
    match kind {
        JobKind::Remove | JobKind::RemoveWithData => JobPlan {
            needs_slot: false,
            cancellable: false,
            initial_progress: Some(10),
            notifies: true,
        },
        JobKind::AutoUpdate => JobPlan {
            needs_slot: false,
            cancellable: false,
            initial_progress: Some(10),
            notifies: false,
        },
        _ => JobPlan { needs_slot: true, cancellable: true, initial_progress: None, notifies: true },
    }
}

pub open spec fn spec_success_message(kind: JobKind) -> Seq<char> {
    match kind {
        JobKind::Update | JobKind::AutoUpdate => "Update successful"@,
        JobKind::Remove | JobKind::RemoveWithData => "Removal successful"@,
        _ => "Installation successful"@,
    }
}

/// The message a job of this kind ends with when it succeeds.
pub fn success_message(kind: JobKind) -> (r: &'static str)
    ensures
        r@ == spec_success_message(kind),
{
    match kind {
        JobKind::Update | JobKind::AutoUpdate => "Update successful",
        JobKind::Remove | JobKind::RemoveWithData => "Removal successful",
        _ => "Installation successful",
    }
}

/// Where a job stands.
#[derive(Clone, Copy, Debug, PartialEq, Eq, Structural)]
pub enum JobPhase {
    WaitingForSlot,
    Running,
    Done,
}

/// The phase a job starts in.
pub fn initial_phase(kind: JobKind) -> (r: JobPhase)
    ensures
        r == if spec_plan(kind).needs_slot {
            JobPhase::WaitingForSlot
        } else {
            JobPhase::Running
        },
{
    if plan(kind).needs_slot {
        JobPhase::WaitingForSlot
    } else {
        JobPhase::Running
    }
}

/// What happened to a job.
#[derive(Debug)]
pub enum JobEvent {
    /// A download slot became free for it.
    SlotGranted,
    /// The slot queue was shut down.
    SlotsClosed,
    /// The user cancelled it.
    CancelRequested,
    /// The provider reported progress.
    Progress(u8),
    /// The provider finished, with an error message on failure.
    ProviderFinished(Result<(), String>),
}

/// What the daemon does in answer.
#[derive(Clone, Debug)]
pub enum JobAction {
    /// Nothing to do.
    Ignore,
    /// Hand the job to its provider.
    StartProvider,
    /// Forward progress to the transaction, the notification and the clients.
    ForwardProgress(u8),
    /// End the transaction with this outcome; on success the package cache
    /// is invalidated and progress 100 is reported first.
    Complete { success: bool, message: String },
    /// Give up silently (no slot will ever come).
    Abandon,
}

/// A job event and action as values.
pub enum ActionView {
    Ignore,
    StartProvider,
    ForwardProgress(u8),
    Complete { success: bool, message: Seq<char> },
    Abandon,
}

impl JobAction {
    pub open spec fn view(&self) -> ActionView {
        match self {
            JobAction::Ignore => ActionView::Ignore,
            JobAction::StartProvider => ActionView::StartProvider,
            JobAction::ForwardProgress(p) => ActionView::ForwardProgress(*p),
            JobAction::Complete { success, message } => ActionView::Complete {
                success: *success,
                message: message@,
            },
            JobAction::Abandon => ActionView::Abandon,
        }
    }
}

/// The next phase and action of a job of `kind` in `phase` on `event`.
pub open spec fn spec_job_step(kind: JobKind, phase: JobPhase, event: JobEvent) -> (
    JobPhase,
    ActionView,
) {
    match phase {
        JobPhase::Done => (JobPhase::Done, ActionView::Ignore),
        JobPhase::WaitingForSlot => match event {
            JobEvent::SlotGranted => (JobPhase::Running, ActionView::StartProvider),
            JobEvent::SlotsClosed => (JobPhase::Done, ActionView::Abandon),
            JobEvent::CancelRequested => (
                JobPhase::Done,
                ActionView::Complete { success: false, message: "Cancelled"@ },
            ),
            _ => (JobPhase::WaitingForSlot, ActionView::Ignore),
        },
        JobPhase::Running => match event {
            JobEvent::Progress(p) => (JobPhase::Running, ActionView::ForwardProgress(p)),
            JobEvent::CancelRequested => if spec_plan(kind).cancellable {
                (JobPhase::Done, ActionView::Complete { success: false, message: "Cancelled"@ })
            } else {
                (JobPhase::Running, ActionView::Ignore)
            },
            JobEvent::ProviderFinished(Ok(())) => (
                JobPhase::Done,
                ActionView::Complete { success: true, message: spec_success_message(kind) },
            ),
            JobEvent::ProviderFinished(Err(e)) => (
                JobPhase::Done,
                ActionView::Complete { success: false, message: e@ },
            ),
            _ => (JobPhase::Running, ActionView::Ignore),
        },
    }
}

/// The next phase and action of a job.
pub fn job_step(kind: JobKind, phase: JobPhase, event: JobEvent) -> (r: (JobPhase, JobAction))
    ensures
        (r.0, r.1.view()) == spec_job_step(kind, phase, event),
{
    proof {
        reveal_strlit("Cancelled");
    }
    match phase {
        JobPhase::Done => (JobPhase::Done, JobAction::Ignore),
        JobPhase::WaitingForSlot => match event {
            JobEvent::SlotGranted => (JobPhase::Running, JobAction::StartProvider),
            JobEvent::SlotsClosed => (JobPhase::Done, JobAction::Abandon),
            JobEvent::CancelRequested => (
                JobPhase::Done,
                JobAction::Complete { success: false, message: String::from_str("Cancelled") },
            ),
            _ => (JobPhase::WaitingForSlot, JobAction::Ignore),
        },
        JobPhase::Running => match event {
            JobEvent::Progress(p) => (JobPhase::Running, JobAction::ForwardProgress(p)),
            JobEvent::CancelRequested => if plan(kind).cancellable {
                (
                    JobPhase::Done,
                    JobAction::Complete { success: false, message: String::from_str("Cancelled") },
                )
            } else {
                (JobPhase::Running, JobAction::Ignore)
            },
            JobEvent::ProviderFinished(Ok(())) => (
                JobPhase::Done,
                JobAction::Complete {
                    success: true,
                    message: String::from_str(success_message(kind)),
                },
            ),
            JobEvent::ProviderFinished(Err(e)) => (
                JobPhase::Done,
                JobAction::Complete { success: false, message: e },
            ),
            _ => (JobPhase::Running, JobAction::Ignore),
        },
    }
}

/// A finished job stays finished whatever happens next.
pub proof fn law_done_is_final(kind: JobKind, event: JobEvent)
    ensures
        spec_job_step(kind, JobPhase::Done, event) == (JobPhase::Done, ActionView::Ignore),
{
}

/// A job completes at most once: whatever it completes with, it is done.
pub proof fn law_complete_ends_job(kind: JobKind, phase: JobPhase, event: JobEvent)
    ensures
        spec_job_step(kind, phase, event).1 is Complete ==> spec_job_step(kind, phase, event).0
            == JobPhase::Done,
        spec_job_step(kind, phase, event).0 == JobPhase::Done ==> phase == JobPhase::Done || (
        spec_job_step(kind, phase, event).1 is Complete) || spec_job_step(
            kind,
            phase,
            event,
        ).1 is Abandon,
{
}

/// A provider is started only once a slot is granted (or right away for a
/// job that needs none).
pub proof fn law_provider_needs_slot(kind: JobKind, phase: JobPhase, event: JobEvent)
    ensures
        spec_job_step(kind, phase, event).1 is StartProvider ==> phase == JobPhase::WaitingForSlot
            && event is SlotGranted,
{
}

/// The user data a removal with data deletes: the flatpak sandbox data and,
/// for a web app, its profile directory.
pub open spec fn spec_data_dirs(home: Seq<char>, package_id: Seq<char>) -> Seq<Seq<char>> {
    let flatpak = path_join(path_join(home, ".var/app"@), package_id);
    if has_prefix(package_id, "pwa:"@) {
        seq![
            flatpak,
            path_join(
                path_join(home, ".local/share/blossomos-webapps"@),
                package_id.subrange(4, package_id.len() as int),
            ),
        ]
    } else {
        seq![flatpak]
    }
}

/// The directories a removal with data deletes (those that exist).
pub fn data_dirs(home: &str, package_id: &str) -> (r: Vec<String>)
    ensures
        r@.map_values(|s: String| s@) == spec_data_dirs(home@, package_id@),
{
    let h = chars_of(home);
    let id = chars_of(package_id);
    let var_app = chars_of(".var/app");
    let base = path_join_exec(&h, &var_app);
    let flatpak = path_join_exec(&base, &id);
    let mut out: Vec<String> = Vec::new();
    out.push(string_of(&flatpak));
    if str_starts_with(package_id, "pwa:") {
        proof {
            reveal_strlit("pwa:");
        }
        let mut appid: Vec<char> = Vec::new();
        let mut i: usize = 4;
        while i < id.len()
            invariant
                4 <= i <= id@.len(),
                appid@ == id@.subrange(4, i as int),
            decreases id@.len() - i,
        {
            appid.push(id[i]);
            i += 1;
            assert(appid@ =~= id@.subrange(4, i as int));
        }
        let webapps = chars_of(".local/share/blossomos-webapps");
        let wbase = path_join_exec(&h, &webapps);
        let dir = path_join_exec(&wbase, &appid);
        out.push(string_of(&dir));
    }
    assert(out@.map_values(|s: String| s@) =~= spec_data_dirs(home@, package_id@));
    out
}

/// A message to a job's notification thread.
#[derive(Clone, Debug)]
pub enum KioMsg {
    Progress(u8),
    Finish { success: bool, message: String },
}

#[verifier::external_type_specification]
#[verifier::external_body]
#[verifier::reject_recursive_types(T)]
pub struct ExSender<T>(Sender<T>);

/// Sends a message to the notification thread (`Sender::send`); a thread
/// that is gone drops it, and that error is ignored, so the call never
/// fails.
#[verifier::external_body]
fn post(tx: &Sender<KioMsg>, msg: KioMsg) {
    let _ = tx.send(msg);
}

/// A second sending end of the same channel (`Sender::clone`).
#[verifier::external_body]
fn clone_sender(tx: &Sender<KioMsg>) -> (r: Sender<KioMsg>) {
    tx.clone()
}

/// The sending end of a job notification, with the messages this handle
/// has posted, in order.
pub struct KioJob {
    tx: Sender<KioMsg>,
    posted: Ghost<Seq<KioMsg>>,
}

impl KioJob {
    /// The messages this handle has posted, in order.
    pub closed spec fn sent(&self) -> Seq<KioMsg> {
        self.posted@
    }

    /// A job that posts to `tx`; this handle has posted nothing yet.
    pub fn new(tx: Sender<KioMsg>) -> (r: Self)
        ensures
            r.sent() == Seq::<KioMsg>::empty(),
    {
        KioJob { tx, posted: Ghost(Seq::empty()) }
    }

    /// Another handle on the same job, for a second task that reports to it;
    /// it has posted nothing yet.
    pub fn share(&self) -> (r: Self)
        ensures
            r.sent() == Seq::<KioMsg>::empty(),
    {
        KioJob { tx: clone_sender(&self.tx), posted: Ghost(Seq::empty()) }
    }

    /// Reports progress, after everything this handle posted before. It
    /// never fails, also when the job has ended.
    pub fn progress(&mut self, pct: u8)
        ensures
            final(self).sent() == old(self).sent().push(KioMsg::Progress(pct)),
    {
        let msg = KioMsg::Progress(pct);
        proof {
            self.posted@ = self.posted@.push(msg);
        }
        post(&self.tx, msg);
    }

    /// Reports the end of the job, after everything this handle posted
    /// before. It never fails, also when the job has already ended.
    pub fn finish(&mut self, success: bool, message: &str)
        ensures
            final(self).sent().len() == old(self).sent().len() + 1,
            final(self).sent().drop_last() == old(self).sent(),
            final(self).sent().last() matches KioMsg::Finish { success: s, message: m } && s
                == success && m@ == message@,
    {
        let text = string_of(&chars_of(message));
        let msg = KioMsg::Finish { success, message: text };
        proof {
            self.posted@ = self.posted@.push(msg);
        }
        post(&self.tx, msg);
        assert(self.sent().drop_last() =~= old(self).sent());
    }
}

/// The notification thread's state: whether a job is shown, whether there
/// is no job view service at all, and the last progress.
#[derive(Clone, Copy, Debug, PartialEq, Eq, Structural)]
pub struct KioState {
    pub shown: bool,
    pub jobview_missing: bool,
    pub percent: u8,
}

/// The state before anything happened.
pub fn kio_initial() -> (r: KioState)
    ensures
        r == (KioState { shown: false, jobview_missing: false, percent: 0 }),
{
    KioState { shown: false, jobview_missing: false, percent: 0 }
}

/// Whether to try to show the job now: not shown yet, a job view service
/// may exist, and notifications are not suppressed.
pub fn wants_job(s: KioState, suppressed: bool) -> (r: bool)
    ensures
        r == (!s.shown && !s.jobview_missing && !suppressed),
{
    !s.shown && !s.jobview_missing && !suppressed
}

/// The state after trying to show the job; a failure means there is no job
/// view service, and no further attempt is made.
pub fn after_start(s: KioState, started: bool) -> (r: KioState)
    ensures
        r == (KioState { shown: started, jobview_missing: !started, percent: s.percent }),
{
    KioState { shown: started, jobview_missing: !started, percent: s.percent }
}

/// What the notification thread received.
#[derive(Clone, Debug)]
pub enum KioInput {
    Message(KioMsg),
    Timeout,
    Disconnected,
}

/// What the notification thread does.
#[derive(Clone, Debug)]
pub enum KioOutput {
    Nothing,
    SetPercent(u8),
    FinishJob,
    FailJob(String),
}

/// The next state, the action, and whether the thread stops.
pub fn kio_on_input(s: KioState, input: KioInput) -> (r: (KioState, KioOutput, bool))
    ensures
        match input {
            KioInput::Message(KioMsg::Progress(p)) => r.0 == (KioState {
                shown: s.shown,
                jobview_missing: s.jobview_missing,
                percent: p,
            }) && (if s.shown {
                r.1 matches KioOutput::SetPercent(q) && q == p
            } else {
                r.1 is Nothing
            }) && !r.2,
            KioInput::Message(KioMsg::Finish { success, message }) => r.2 && !r.0.shown && (if !s.shown {
                r.1 is Nothing
            } else if success {
                r.1 is FinishJob
            } else {
                r.1 matches KioOutput::FailJob(m) && m@ == message@
            }),
            KioInput::Timeout => r.0 == s && r.1 is Nothing && !r.2,
            KioInput::Disconnected => r.0 == s && r.1 is Nothing && r.2,
        },
{
    match input {
        KioInput::Message(KioMsg::Progress(p)) => {
            let next = KioState { shown: s.shown, jobview_missing: s.jobview_missing, percent: p };
            if s.shown {
                (next, KioOutput::SetPercent(p), false)
            } else {
                (next, KioOutput::Nothing, false)
            }
        },
        KioInput::Message(KioMsg::Finish { success, message }) => {
            let next = KioState { shown: false, jobview_missing: s.jobview_missing, percent: s.percent };
            if !s.shown {
                (next, KioOutput::Nothing, true)
            } else if success {
                (next, KioOutput::FinishJob, true)
            } else {
                (next, KioOutput::FailJob(message), true)
            }
        },
        KioInput::Timeout => (s, KioOutput::Nothing, false),
        KioInput::Disconnected => (s, KioOutput::Nothing, true),
    }
}

/// Whether a cancel click on the shown job cancels the transaction.
pub fn kio_should_cancel(s: KioState, has_token: bool, cancel_requested: bool) -> (r: bool)
    ensures
        r == (s.shown && has_token && cancel_requested),
{
    s.shown && has_token && cancel_requested
}

/// What the daemon does after checking for updates.
#[derive(Clone, Copy, Debug, PartialEq, Eq, Structural)]
pub enum UpdateCheck {
    /// Nothing: the check failed or found no update.
    Nothing,
    /// Only report how many updates there are (automatic updates are off).
    Report(usize),
    /// Update every package that has one.
    UpdateAll,
}

/// What the periodic update check does with what it found (`None` when the
/// check failed): with automatic updates on, every update is applied.
pub fn after_update_check(found: Option<usize>, auto_updates: bool) -> (r: UpdateCheck)
    ensures
        r == match found {
            None => UpdateCheck::Nothing,
            Some(n) => if n == 0 {
                UpdateCheck::Nothing
            } else if !auto_updates {
                UpdateCheck::Report(n)
            } else {
                UpdateCheck::UpdateAll
            },
        },
{
    match found {
        None => UpdateCheck::Nothing,
        Some(0) => UpdateCheck::Nothing,
        Some(n) => if !auto_updates {
            UpdateCheck::Report(n)
        } else {
            UpdateCheck::UpdateAll
        },
    }
}

} // verus!
