use arc_core::install_search::{
    branch_candidates, remote_not_found, remotes_to_try, remotes_with_fallback, InstallAction,
    InstallError, InstallEvent, InstallSearch, RefKind, SearchStage,
};

fn s(v: &[&str]) -> Vec<String> {
    v.iter().map(|x| x.to_string()).collect()
}

fn msg(e: &InstallError) -> (bool, String) {
    match e {
        InstallError::Provider(m) => (true, m.clone()),
        InstallError::Transaction(m) => (false, m.clone()),
    }
}

#[test]
fn remote_orders() {
    assert_eq!(remotes_with_fallback(Some("fedora".into())), s(&["fedora", "flathub"]));
    assert_eq!(remotes_with_fallback(Some("flathub".into())), s(&["flathub"]));
    assert_eq!(remotes_with_fallback(None), s(&["flathub"]));
    assert_eq!(
        remotes_to_try(Some("blossomos".into()), s(&["flathub", "blossomos", "fedora", "flathub"])),
        s(&["blossomos", "flathub", "fedora"])
    );
    assert_eq!(remotes_to_try(None, s(&["a", "b"])), s(&["a", "b"]));
}

#[test]
fn branch_guesses() {
    assert_eq!(branch_candidates(Some("beta".into())), s(&["beta", "stable", "master", "main"]));
    assert_eq!(branch_candidates(Some("24.08".into())), s(&["24.08", "stable", "master", "beta", "main"]));
    assert_eq!(branch_candidates(Some(String::new())), s(&["stable", "master", "beta", "main"]));
    assert_eq!(branch_candidates(None), s(&["stable", "master", "beta", "main"]));
}

#[test]
fn search_finds_a_runtime_ref_and_installs_it() {
    let (mut st, a) = InstallSearch::start("org.x.Ext".into(), s(&["flathub"]));
    assert_eq!(a, InstallAction::OpenRemote);
    assert_eq!(st.on_event(InstallEvent::Opened(Ok(Some("stable".into())))), InstallAction::FetchRef);
    assert_eq!(st.branches, s(&["stable", "master", "beta", "main"]));
    assert_eq!(st.kind, RefKind::App);
    // no app ref on "stable": the runtime kind is tried on the same branch
    assert_eq!(st.on_event(InstallEvent::Fetched(None)), InstallAction::FetchRef);
    assert_eq!(st.kind, RefKind::Runtime);
    assert_eq!(st.branch_idx, 0);
    let r = "runtime/org.x.Ext/x86_64/stable".to_string();
    assert_eq!(st.on_event(InstallEvent::Fetched(Some(Some(r.clone())))), InstallAction::FetchRef);
    assert_eq!(st.branch_idx, 1);
    assert_eq!(st.kind, RefKind::App);
    assert_eq!(st.on_event(InstallEvent::Fetched(None)), InstallAction::FetchRef);
    assert_eq!(st.on_event(InstallEvent::Fetched(None)), InstallAction::FetchRef);
    // the same ref again is not added twice
    assert_eq!(st.on_event(InstallEvent::Fetched(Some(Some(r.clone())))), InstallAction::FetchRef);
    assert_eq!(st.branch_idx, 3);
    assert_eq!(st.on_event(InstallEvent::Fetched(Some(None))), InstallAction::Run);
    assert_eq!(st.refs, vec![r]);
    assert_eq!(st.on_event(InstallEvent::Ran(Ok(()))), InstallAction::Finish);
    assert_eq!(st.stage, SearchStage::Done);
    assert!(matches!(st.outcome, Some(Ok(()))));
}

#[test]
fn search_moves_through_remotes_and_keeps_the_last_error() {
    let (mut st, _) = InstallSearch::start("org.x.App".into(), s(&["broken", "flathub"]));
    let e = remote_not_found("broken");
    assert_eq!(msg(&e), (true, "remote 'broken' not found".to_string()));
    assert_eq!(st.on_event(InstallEvent::Opened(Err(e))), InstallAction::OpenRemote);
    assert_eq!(st.remote_idx, 1);
    assert_eq!(st.on_event(InstallEvent::Opened(Ok(None))), InstallAction::FetchRef);
    for _ in 0..4 {
        assert_eq!(st.on_event(InstallEvent::Fetched(None)), InstallAction::FetchRef);
        let next = st.on_event(InstallEvent::Fetched(None));
        assert!(next == InstallAction::FetchRef || next == InstallAction::ListRefs);
    }
    assert_eq!(st.stage, SearchStage::Listing);
    assert_eq!(st.on_event(InstallEvent::Listed(vec![None])), InstallAction::Finish);
    match &st.outcome {
        Some(Err(e)) => assert_eq!(msg(e), (false, "org.x.App not found in remote flathub".to_string())),
        _ => panic!("expected a failure"),
    }
}

#[test]
fn search_tries_every_ref_then_fails_with_the_transaction_error() {
    let (mut st, _) = InstallSearch::start("org.x.App".into(), s(&["flathub"]));
    st.on_event(InstallEvent::Opened(Ok(None)));
    for _ in 0..8 {
        st.on_event(InstallEvent::Fetched(None));
    }
    assert_eq!(
        st.on_event(InstallEvent::Listed(vec![Some("app/org.x.App/x86_64/a".into()), Some("app/org.x.App/x86_64/b".into())])),
        InstallAction::Run
    );
    assert_eq!(st.refs.len(), 2);
    assert_eq!(st.on_event(InstallEvent::Ran(Err(InstallError::Transaction("boom a".into())))), InstallAction::Run);
    assert_eq!(st.ref_idx, 1);
    assert_eq!(st.on_event(InstallEvent::Ran(Err(InstallError::Transaction("boom b".into())))), InstallAction::Finish);
    match &st.outcome {
        Some(Err(e)) => assert_eq!(msg(e), (false, "boom b".to_string())),
        _ => panic!("expected a failure"),
    }
}

#[test]
fn search_without_remotes_and_stray_events() {
    let (st, a) = InstallSearch::start("org.x.App".into(), vec![]);
    assert_eq!(a, InstallAction::Finish);
    match &st.outcome {
        Some(Err(e)) => assert_eq!(
            msg(e),
            (false, "Failed to install org.x.App from any available remote".to_string())
        ),
        _ => panic!("expected a failure"),
    }
    let (mut st2, _) = InstallSearch::start("org.x.App".into(), s(&["flathub"]));
    // an answer to another question changes nothing
    assert_eq!(st2.on_event(InstallEvent::Ran(Ok(()))), InstallAction::OpenRemote);
    assert!(st2.outcome.is_none());
}
