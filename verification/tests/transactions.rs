use arc_core::package::Provider;
use arc_core::transactions::{
    transaction_id_text, watch_line, Transaction, TransactionManager, TransactionStatus,
    TransactionType, WatchLine,
    HISTORY_LIMIT,
};

fn manager() -> TransactionManager {
    TransactionManager::new(Vec::new())
}

fn finished(id: u128) -> Transaction {
    Transaction {
        id,
        t_type: TransactionType::Install,
        package_id: format!("pkg{id}"),
        provider: Provider::Flatpak,
        status: TransactionStatus::Success,
        progress: 100,
    }
}

#[test]
fn created_transaction_is_pending_and_readable() {
    let mut m = manager();
    let (tx, token) = m.create_with_id(7, TransactionType::Install, "org.gimp.GIMP".into(), Provider::Flatpak);
    assert_eq!(tx.id, 7);
    assert!(matches!(tx.status, TransactionStatus::Pending));
    assert_eq!(tx.progress, 0);
    assert!(!token.is_cancelled());
    let got = m.get(7).unwrap();
    assert_eq!(got.package_id, "org.gimp.GIMP");
    assert_eq!(got.t_type, TransactionType::Install);
    assert!(m.get(8).is_none());
}

#[test]
fn random_ids_are_distinct() {
    let mut m = manager();
    let (a, _) = m.create(TransactionType::Remove, "a".into(), Provider::Distrobox);
    let (b, _) = m.create(TransactionType::Remove, "b".into(), Provider::Distrobox);
    assert_ne!(a.id, b.id);
    assert_eq!(m.list().len(), 2);
}

#[test]
fn progress_marks_running() {
    let mut m = manager();
    m.create_with_id(1, TransactionType::Update, "x".into(), Provider::AppImage);
    m.update_progress(1, 40);
    let t = m.get(1).unwrap();
    assert!(matches!(t.status, TransactionStatus::Running));
    assert_eq!(t.progress, 40);
}

#[test]
fn complete_moves_to_history_with_full_progress() {
    let mut m = manager();
    m.create_with_id(1, TransactionType::Install, "x".into(), Provider::Flatpak);
    m.update_progress(1, 30);
    m.complete(1, false, "boom".into());
    let t = m.get(1).unwrap();
    assert_eq!(t.progress, 100);
    match t.status {
        TransactionStatus::Failed(msg) => assert_eq!(msg, "boom"),
        _ => panic!("expected a failure"),
    }
    let list = m.list();
    assert_eq!(list.len(), 1);
    assert_eq!(m.history_snapshot().len(), 1);
}

#[test]
fn complete_success_status() {
    let mut m = manager();
    m.create_with_id(1, TransactionType::Install, "x".into(), Provider::Flatpak);
    m.complete(1, true, "Installation successful".into());
    assert!(matches!(m.get(1).unwrap().status, TransactionStatus::Success));
}

#[test]
fn complete_of_unknown_id_changes_nothing() {
    let mut m = TransactionManager::new(vec![finished(9)]);
    m.complete(3, true, String::new());
    assert_eq!(m.list().len(), 1);
    assert_eq!(m.history_snapshot()[0].id, 9);
}

#[test]
fn history_keeps_the_last_fifty() {
    let history: Vec<Transaction> = (0..60u128).map(finished).collect();
    let mut m = TransactionManager::new(history);
    m.create_with_id(1000, TransactionType::Install, "new".into(), Provider::Pwa);
    m.complete(1000, true, "ok".into());
    let h = m.history_snapshot();
    assert_eq!(h.len(), HISTORY_LIMIT);
    assert_eq!(h[HISTORY_LIMIT - 1].id, 1000);
    assert_eq!(h[0].id, 11);
}

#[test]
fn finished_transaction_ignores_progress() {
    let mut m = manager();
    m.create_with_id(2, TransactionType::Install, "x".into(), Provider::Flatpak);
    assert!(m.cancel(2));
    m.update_progress(2, 55);
    let t = m.get(2).unwrap();
    assert_eq!(t.progress, 0);
    assert!(matches!(t.status, TransactionStatus::Failed(ref s) if s == "Cancelled"));
}

#[test]
fn cancel_twice_reports_once() {
    let mut m = manager();
    let (_, token) = m.create_with_id(5, TransactionType::Install, "x".into(), Provider::Flatpak);
    assert!(m.cancel(5));
    assert!(token.is_cancelled());
    assert!(!m.cancel(5));
    assert!(!m.cancel(6));
}

#[test]
fn cancel_all_cancels_live_only() {
    let mut m = manager();
    let (_, t1) = m.create_with_id(1, TransactionType::Install, "a".into(), Provider::Flatpak);
    let (_, t2) = m.create_with_id(2, TransactionType::Update, "b".into(), Provider::Flatpak);
    m.update_progress(2, 20);
    m.cancel_all();
    assert!(t1.is_cancelled());
    assert!(t2.is_cancelled());
    for id in [1u128, 2] {
        assert!(matches!(m.get(id).unwrap().status, TransactionStatus::Failed(ref s) if s == "Cancelled"));
    }
    assert!(!m.cancel(1));
}

#[test]
fn clear_history_keeps_running() {
    let mut m = TransactionManager::new(vec![finished(9)]);
    m.create_with_id(1, TransactionType::Install, "a".into(), Provider::Flatpak);
    m.clear_history();
    assert!(m.get(9).is_none());
    assert!(m.get(1).is_some());
    assert_eq!(m.list().len(), 1);
}

#[test]
fn launcher_progress_sums_live_transactions() {
    let mut m = manager();
    let idle = m.launcher_progress();
    assert!(!idle.visible);
    assert_eq!(idle.active, 0);
    m.create_with_id(1, TransactionType::Install, "a".into(), Provider::Flatpak);
    m.create_with_id(2, TransactionType::Install, "b".into(), Provider::Flatpak);
    m.create_with_id(3, TransactionType::Install, "c".into(), Provider::Flatpak);
    m.update_progress(1, 30);
    m.update_progress(2, 50);
    m.cancel(3);
    let p = m.launcher_progress();
    assert!(p.visible);
    assert_eq!(p.active, 2);
    assert_eq!(p.total_percent, 80);
}

#[test]
fn recreate_with_same_id_replaces() {
    let mut m = manager();
    m.create_with_id(4, TransactionType::Install, "a".into(), Provider::Flatpak);
    m.update_progress(4, 70);
    m.create_with_id(4, TransactionType::Remove, "b".into(), Provider::Lutris);
    assert_eq!(m.list().len(), 1);
    let t = m.get(4).unwrap();
    assert_eq!(t.package_id, "b");
    assert_eq!(t.progress, 0);
}

#[test]
fn get_prefers_running_over_history() {
    let mut m = TransactionManager::new(vec![finished(4)]);
    m.create_with_id(4, TransactionType::Remove, "fresh".into(), Provider::Lutris);
    assert_eq!(m.get(4).unwrap().package_id, "fresh");
    let list = m.list();
    assert_eq!(list[0].package_id, "fresh");
    assert_eq!(list[1].package_id, "pkg4");
}

#[test]
fn transaction_ids_travel_as_uuid_text() {
    assert_eq!(
        transaction_id_text(0x550e8400_e29b_41d4_a716_446655440000),
        "550e8400-e29b-41d4-a716-446655440000"
    );
    assert_eq!(transaction_id_text(1), "00000000-0000-0000-0000-000000000001");
    let mut m = manager();
    let (tx, token) = m.create(TransactionType::Install, "org.x.App".into(), Provider::Flatpak);
    let text = transaction_id_text(tx.id);
    assert_eq!(m.get_by_text(&text).map(|t| t.id), Some(tx.id));
    assert!(m.get_by_text("not-an-id").is_none());
    assert!(!m.cancel_by_text("not-an-id"));
    assert!(m.cancel_by_text(&text));
    assert!(token.is_cancelled());
    assert!(!m.cancel_by_text(&text));
    match m.get_by_text(&text).map(|t| t.status) {
        Some(TransactionStatus::Failed(msg)) => assert_eq!(msg, "Cancelled"),
        _ => panic!("expected a cancelled transaction"),
    }
}

#[test]
fn watching_stops_when_the_transaction_ends() {
    let tx = |status: TransactionStatus, progress: u8| Transaction {
        id: 1,
        t_type: TransactionType::Install,
        package_id: "p".into(),
        provider: Provider::Flatpak,
        status,
        progress,
    };
    assert!(matches!(watch_line(None), (WatchLine::NotFound, true)));
    assert!(matches!(watch_line(Some(tx(TransactionStatus::Pending, 0))), (WatchLine::Pending, false)));
    assert!(matches!(watch_line(Some(tx(TransactionStatus::Running, 42))), (WatchLine::Progress(42), false)));
    assert!(matches!(watch_line(Some(tx(TransactionStatus::Success, 100))), (WatchLine::Done, true)));
    match watch_line(Some(tx(TransactionStatus::Failed("boom".into()), 3))) {
        (WatchLine::Failed(m), true) => assert_eq!(m, "boom"),
        _ => panic!("expected a failure that ends the watch"),
    }
}

#[test]
fn list_holds_each_running_transaction_once_then_the_history() {
    let mut m = TransactionManager::new(vec![finished(9), finished(8)]);
    for id in [3u128, 1, 2] {
        m.create_with_id(id, TransactionType::Install, format!("p{id}"), Provider::Flatpak);
    }
    m.update_progress(2, 10);
    let list = m.list();
    assert_eq!(list.len(), 5);
    let mut running: Vec<u128> = list[..3].iter().map(|t| t.id).collect();
    running.sort();
    assert_eq!(running, vec![1, 2, 3]);
    assert_eq!(list[3].id, 9);
    assert_eq!(list[4].id, 8);
    let two = list.iter().find(|t| t.id == 2).unwrap();
    assert!(matches!(two.status, TransactionStatus::Running));
    assert_eq!(two.progress, 10);
}
