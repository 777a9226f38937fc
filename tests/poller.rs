use plethora_monitor::poller::{EventPoller, PollAction, PollEvent, TxPoller};

#[test]
fn stored_cursor_resumes_after_it() {
    let (mut e, _) = EventPoller::start(Some(500));
    assert_eq!(e.step(PollEvent::HeadFetched(510)), PollAction::FetchLogs { from_block: 501, to_block: 510 });
    let (mut t, _) = TxPoller::start(Some(500));
    assert_eq!(t.step(PollEvent::HeadFetched(510)), PollAction::FetchBlock(501));
}

#[test]
fn head_not_past_cursor_fetches_nothing() {
    let (mut e, _) = EventPoller::start(Some(500));
    assert_eq!(e.step(PollEvent::HeadFetched(500)), PollAction::Sleep(2000));
    assert_eq!(e.step(PollEvent::Woke), PollAction::FetchHead);
    assert_eq!(e.step(PollEvent::HeadFetched(499)), PollAction::Sleep(2000));
    assert_eq!(e.cursor, Some(500));
}

#[test]
fn fresh_transaction_poller_starts_at_head() {
    let (mut t, _) = TxPoller::start(None);
    assert_eq!(t.step(PollEvent::HeadFetched(77)), PollAction::Persist(77));
    assert_eq!(t.step(PollEvent::Persisted), PollAction::Sleep(2000));
    assert_eq!(t.step(PollEvent::Woke), PollAction::FetchHead);
    assert_eq!(t.step(PollEvent::HeadFetched(79)), PollAction::FetchBlock(78));
}

#[test]
fn failed_cursor_write_reprocesses_the_range() {
    let (mut e, _) = EventPoller::start(Some(10));
    assert_eq!(e.step(PollEvent::HeadFetched(15)), PollAction::FetchLogs { from_block: 11, to_block: 15 });
    assert_eq!(e.step(PollEvent::LogsHandled), PollAction::Persist(15));
    assert_eq!(e.step(PollEvent::PersistFailed), PollAction::Sleep(2000));
    assert_eq!(e.cursor, Some(10));
    assert_eq!(e.step(PollEvent::Woke), PollAction::FetchHead);
    assert_eq!(e.step(PollEvent::HeadFetched(16)), PollAction::FetchLogs { from_block: 11, to_block: 16 });
}

#[test]
fn failed_log_fetch_retries_same_range() {
    let (mut e, _) = EventPoller::start(Some(10));
    e.step(PollEvent::HeadFetched(12));
    assert_eq!(e.step(PollEvent::LogsFailed), PollAction::Sleep(2000));
    e.step(PollEvent::Woke);
    assert_eq!(e.step(PollEvent::HeadFetched(12)), PollAction::FetchLogs { from_block: 11, to_block: 12 });
}

#[test]
fn transaction_poller_walks_blocks_and_waits_for_missing_ones() {
    let (mut t, _) = TxPoller::start(Some(1));
    assert_eq!(t.step(PollEvent::HeadFetched(3)), PollAction::FetchBlock(2));
    assert_eq!(t.step(PollEvent::BlockMissing), PollAction::Sleep(500));
    assert_eq!(t.step(PollEvent::Woke), PollAction::FetchBlock(2));
    assert_eq!(t.step(PollEvent::BlockFailed), PollAction::Sleep(1000));
    assert_eq!(t.step(PollEvent::Woke), PollAction::FetchBlock(2));
    assert_eq!(t.step(PollEvent::BlockHandled), PollAction::Persist(2));
    assert_eq!(t.step(PollEvent::Persisted), PollAction::FetchBlock(3));
    assert_eq!(t.step(PollEvent::BlockHandled), PollAction::Persist(3));
    assert_eq!(t.step(PollEvent::Persisted), PollAction::Sleep(2000));
    assert_eq!(t.cursor, Some(3));
}

#[test]
fn failed_block_cursor_write_reprocesses_the_block() {
    let (mut t, _) = TxPoller::start(Some(1));
    t.step(PollEvent::HeadFetched(3));
    t.step(PollEvent::BlockHandled);
    assert_eq!(t.step(PollEvent::PersistFailed), PollAction::Sleep(2000));
    assert_eq!(t.cursor, Some(1));
    t.step(PollEvent::Woke);
    assert_eq!(t.step(PollEvent::HeadFetched(3)), PollAction::FetchBlock(2));
}

#[test]
fn head_errors_back_off_and_unexpected_events_change_nothing() {
    let (mut e, _) = EventPoller::start(Some(3));
    assert_eq!(e.step(PollEvent::HeadFailed), PollAction::Sleep(2000));
    let before = e;
    assert_eq!(e.step(PollEvent::LogsHandled), PollAction::Sleep(2000));
    assert_eq!(e, before);
}
