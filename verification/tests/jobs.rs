use arc_core::jobs::{
    after_start, data_dirs, initial_phase, job_step, kio_initial, kio_on_input, kio_should_cancel,
    plan, success_message, wants_job, JobAction, JobEvent, JobKind, JobPhase, KioInput, KioJob,
    KioMsg, KioOutput, after_update_check, UpdateCheck,
};

#[test]
fn plans_by_kind() {
    let install = plan(JobKind::Install);
    assert!(install.needs_slot && install.cancellable && install.notifies);
    assert_eq!(install.initial_progress, None);
    let remove = plan(JobKind::Remove);
    assert!(!remove.needs_slot && !remove.cancellable);
    assert_eq!(remove.initial_progress, Some(10));
    let auto = plan(JobKind::AutoUpdate);
    assert!(!auto.notifies);
    assert_eq!(initial_phase(JobKind::Update), JobPhase::WaitingForSlot);
    assert_eq!(initial_phase(JobKind::RemoveWithData), JobPhase::Running);
}

#[test]
fn success_messages() {
    assert_eq!(success_message(JobKind::Install), "Installation successful");
    assert_eq!(success_message(JobKind::InstallBundle), "Installation successful");
    assert_eq!(success_message(JobKind::Update), "Update successful");
    assert_eq!(success_message(JobKind::AutoUpdate), "Update successful");
    assert_eq!(success_message(JobKind::Remove), "Removal successful");
}

#[test]
fn install_runs_after_slot_and_succeeds() {
    let (p, a) = job_step(JobKind::Install, JobPhase::WaitingForSlot, JobEvent::SlotGranted);
    assert_eq!(p, JobPhase::Running);
    assert!(matches!(a, JobAction::StartProvider));
    let (p, a) = job_step(JobKind::Install, p, JobEvent::Progress(40));
    assert_eq!(p, JobPhase::Running);
    assert!(matches!(a, JobAction::ForwardProgress(40)));
    let (p, a) = job_step(JobKind::Install, p, JobEvent::ProviderFinished(Ok(())));
    assert_eq!(p, JobPhase::Done);
    match a {
        JobAction::Complete { success, message } => {
            assert!(success);
            assert_eq!(message, "Installation successful");
        }
        _ => panic!("expected completion"),
    }
}

#[test]
fn cancel_while_queued() {
    let (p, a) = job_step(JobKind::Update, JobPhase::WaitingForSlot, JobEvent::CancelRequested);
    assert_eq!(p, JobPhase::Done);
    assert!(matches!(a, JobAction::Complete { success: false, ref message } if message == "Cancelled"));
}

#[test]
fn closed_queue_abandons() {
    let (p, a) = job_step(JobKind::Install, JobPhase::WaitingForSlot, JobEvent::SlotsClosed);
    assert_eq!(p, JobPhase::Done);
    assert!(matches!(a, JobAction::Abandon));
}

#[test]
fn removal_cannot_be_cancelled_and_reports_errors() {
    let (p, a) = job_step(JobKind::Remove, JobPhase::Running, JobEvent::CancelRequested);
    assert_eq!(p, JobPhase::Running);
    assert!(matches!(a, JobAction::Ignore));
    let (p, a) = job_step(JobKind::Remove, p, JobEvent::ProviderFinished(Err("busy".to_string())));
    assert_eq!(p, JobPhase::Done);
    assert!(matches!(a, JobAction::Complete { success: false, ref message } if message == "busy"));
}

#[test]
fn done_is_final() {
    let (p, a) = job_step(JobKind::Install, JobPhase::Done, JobEvent::Progress(3));
    assert_eq!(p, JobPhase::Done);
    assert!(matches!(a, JobAction::Ignore));
}

#[test]
fn data_directories() {
    assert_eq!(data_dirs("/home/u", "org.gimp.GIMP"), vec!["/home/u/.var/app/org.gimp.GIMP".to_string()]);
    assert_eq!(
        data_dirs("/home/u", "pwa:chat"),
        vec![
            "/home/u/.var/app/pwa:chat".to_string(),
            "/home/u/.local/share/blossomos-webapps/chat".to_string(),
        ]
    );
}

#[test]
fn kio_job_posts_messages() {
    let (tx, rx) = std::sync::mpsc::channel();
    let mut job = KioJob::new(tx);
    let mut other = job.share();
    job.progress(12);
    other.finish(false, "nope");
    assert!(matches!(rx.recv().unwrap(), KioMsg::Progress(12)));
    match rx.recv().unwrap() {
        KioMsg::Finish { success, message } => {
            assert!(!success);
            assert_eq!(message, "nope");
        }
        _ => panic!("expected finish"),
    }
}

#[test]
fn kio_thread_decisions() {
    let s = kio_initial();
    assert!(wants_job(s, false));
    assert!(!wants_job(s, true));
    let missing = after_start(s, false);
    assert!(!wants_job(missing, false));
    let shown = after_start(s, true);
    let (s2, out, stop) = kio_on_input(shown, KioInput::Message(KioMsg::Progress(50)));
    assert!(matches!(out, KioOutput::SetPercent(50)));
    assert!(!stop);
    assert_eq!(s2.percent, 50);
    let (_, out, stop) = kio_on_input(s2, KioInput::Message(KioMsg::Finish { success: false, message: "bad".into() }));
    assert!(matches!(out, KioOutput::FailJob(ref m) if m == "bad"));
    assert!(stop);
    let (_, out, stop) = kio_on_input(s, KioInput::Timeout);
    assert!(matches!(out, KioOutput::Nothing) && !stop);
    let (_, _, stop) = kio_on_input(s, KioInput::Disconnected);
    assert!(stop);
    assert!(kio_should_cancel(shown, true, true));
    assert!(!kio_should_cancel(s, true, true));
}

#[test]
fn update_check_applies_updates_only_when_automatic() {
    assert_eq!(after_update_check(None, true), UpdateCheck::Nothing);
    assert_eq!(after_update_check(Some(0), true), UpdateCheck::Nothing);
    assert_eq!(after_update_check(Some(3), false), UpdateCheck::Report(3));
    assert_eq!(after_update_check(Some(3), true), UpdateCheck::UpdateAll);
}

#[test]
fn kio_job_posts_in_order_and_survives_an_ended_thread() {
    let (tx, rx) = std::sync::mpsc::channel();
    let mut job = KioJob::new(tx);
    job.progress(1);
    job.progress(2);
    job.finish(true, "");
    assert!(matches!(rx.recv().unwrap(), KioMsg::Progress(1)));
    assert!(matches!(rx.recv().unwrap(), KioMsg::Progress(2)));
    assert!(matches!(rx.recv().unwrap(), KioMsg::Finish { success: true, .. }));
    drop(rx);
    job.progress(3);
    job.finish(false, "gone");
}
