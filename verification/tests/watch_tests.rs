use krugg_lcu::lockfile::parse;
use krugg_lcu::supervisor::Notification;
use krugg_lcu::supervisor::Signal;
use krugg_lcu::supervisor::Supervisor;
use krugg_lcu::watch::Directive;
use krugg_lcu::watch::FsEventKind;
use krugg_lcu::watch::WatchAction;
use krugg_lcu::watch::classify_burst;
use krugg_lcu::watch::next_directive;

#[test]
fn two_rapid_modifies_yield_one_action() {
    let burst = vec![FsEventKind::Modify, FsEventKind::Modify];
    assert_eq!(classify_burst(&burst), Some(WatchAction::Reparse));
}

#[test]
fn one_coalesced_burst_yields_one_reconciliation() {
    // Two rapid modify events arrive within the debounce window; the
    // coalesced burst asks for one re-parse, and one stable read then
    // reconciles exactly once.
    let burst = vec![FsEventKind::Modify, FsEventKind::Modify];
    let action = classify_burst(&burst);
    assert_eq!(action, Some(WatchAction::Reparse));

    let mut s = Supervisor::new(Vec::new());
    let stable_read = parse("lockfile", "LeagueClientUx:1234:54321:abcxyz:https").unwrap();
    let sigs = match action.unwrap() {
        WatchAction::Reparse => s.install(stable_read, Ok(reqwest::Client::new())),
        WatchAction::ReportGone => s.reconcile(Notification::Gone),
    };
    let reconciliations = sigs
        .iter()
        .filter(|g| matches!(g, Signal::CredentialsChanged(_)))
        .count();
    assert_eq!(reconciliations, 1);
}

#[test]
fn first_relevant_event_decides() {
    assert_eq!(
        classify_burst(&vec![FsEventKind::Create]),
        Some(WatchAction::Reparse)
    );
    assert_eq!(
        classify_burst(&vec![FsEventKind::Other, FsEventKind::Remove, FsEventKind::Modify]),
        Some(WatchAction::ReportGone)
    );
    assert_eq!(
        classify_burst(&vec![FsEventKind::Modify, FsEventKind::Remove]),
        Some(WatchAction::Reparse)
    );
}

#[test]
fn indifferent_bursts_ask_nothing() {
    assert_eq!(classify_burst(&Vec::new()), None);
    assert_eq!(
        classify_burst(&vec![FsEventKind::Other, FsEventKind::Other]),
        None
    );
}

#[test]
fn cancellation_wins_over_pending_messages() {
    assert!(matches!(
        next_directive(true, Some(Notification::Gone)),
        Directive::Shutdown
    ));
    assert!(matches!(next_directive(true, None), Directive::Shutdown));
}

#[test]
fn messages_are_delivered_while_running() {
    match next_directive(false, Some(Notification::Unparsed)) {
        Directive::Deliver(Notification::Unparsed) => {}
        _ => panic!("expected the notification to be delivered"),
    }
    assert!(matches!(next_directive(false, None), Directive::Wait));
}
