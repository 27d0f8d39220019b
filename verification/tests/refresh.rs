use ranami_wallpapers::refresh::{RefreshAction, RefreshEvent, RefreshPhase, RefreshWorker};

fn card(w: &mut RefreshWorker, g: u64, i: usize) -> RefreshAction {
    assert_eq!(w.step(RefreshEvent::Resolved { current: g }), RefreshAction::ShowCard(i));
    assert_eq!(w.step(RefreshEvent::Shown { window_open: true, current: g }), RefreshAction::SetRow(i));
    w.step(RefreshEvent::RowSet { current: g })
}

#[test]
fn current_refresh_resolves_and_sets_every_row() {
    let (mut w, a) = RefreshWorker::new(3, 2);
    assert_eq!(a, RefreshAction::CleanupStale);
    assert_eq!(w.step(RefreshEvent::Cleaned { current: 3 }), RefreshAction::ResolveCard(0));
    assert_eq!(card(&mut w, 3, 0), RefreshAction::ResolveCard(1));
    assert_eq!(card(&mut w, 3, 1), RefreshAction::CleanupStale);
    assert_eq!(w.step(RefreshEvent::Cleaned { current: 3 }), RefreshAction::Stop);
    assert_eq!(w.phase, RefreshPhase::Done);
}

#[test]
fn empty_library_only_cleans() {
    let (mut w, _) = RefreshWorker::new(1, 0);
    assert_eq!(w.step(RefreshEvent::Cleaned { current: 1 }), RefreshAction::CleanupStale);
    assert_eq!(w.step(RefreshEvent::Cleaned { current: 1 }), RefreshAction::Stop);
}

#[test]
fn newer_refresh_stops_older_worker() {
    let (mut w, _) = RefreshWorker::new(1, 3);
    w.step(RefreshEvent::Cleaned { current: 1 });
    assert_eq!(w.step(RefreshEvent::Resolved { current: 2 }), RefreshAction::Stop);
    assert_eq!(w.step(RefreshEvent::Resolved { current: 1 }), RefreshAction::Stop);

    let (mut w, _) = RefreshWorker::new(1, 3);
    assert_eq!(w.step(RefreshEvent::Cleaned { current: 2 }), RefreshAction::Stop);

    // the window sees the newer refresh right before setting the row
    let (mut w, _) = RefreshWorker::new(5, 2);
    w.step(RefreshEvent::Cleaned { current: 5 });
    assert_eq!(w.step(RefreshEvent::Resolved { current: 5 }), RefreshAction::ShowCard(0));
    assert_eq!(w.step(RefreshEvent::Shown { window_open: true, current: 6 }), RefreshAction::Stop);
    assert_eq!(w.step(RefreshEvent::RowSet { current: 5 }), RefreshAction::Stop);

    // replaced after a row was set: no further card
    let (mut w, _) = RefreshWorker::new(5, 2);
    w.step(RefreshEvent::Cleaned { current: 5 });
    w.step(RefreshEvent::Resolved { current: 5 });
    w.step(RefreshEvent::Shown { window_open: true, current: 5 });
    assert_eq!(w.step(RefreshEvent::RowSet { current: 6 }), RefreshAction::Stop);
}

#[test]
fn closed_window_stops_worker() {
    let (mut w, _) = RefreshWorker::new(1, 3);
    w.step(RefreshEvent::Cleaned { current: 1 });
    w.step(RefreshEvent::Resolved { current: 1 });
    assert_eq!(w.step(RefreshEvent::Shown { window_open: false, current: 1 }), RefreshAction::Stop);
}

#[test]
fn unexpected_answer_stops_worker() {
    let (mut w, _) = RefreshWorker::new(1, 3);
    assert_eq!(w.step(RefreshEvent::Resolved { current: 1 }), RefreshAction::Stop);
    assert_eq!(w.phase, RefreshPhase::Done);
}
