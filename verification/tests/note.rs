use sfy::note::{
    check_sync, drain_step, has_room, request_range, request_step, storage_info_update, DrainStep,
    Fetched, InfoUpdate, RequestStep, SendOutcome, SpectrumSync, StorageIdInfo, SyncAction,
    NOTECARD_STORAGE_CAPACITY_PACKAGES,
};

#[test]
fn sync_when_filling_up() {
    assert_eq!(check_sync(65, false), SyncAction::Wait);
    assert_eq!(check_sync(66, false), SyncAction::Sync);
    assert_eq!(check_sync(90, true), SyncAction::Wait);
}

#[test]
fn spectrum_sync_over_ntn() {
    let mut s = SpectrumSync::new();
    assert_eq!(s.decide(70, false), SyncAction::Sync);
    s.observe_wireless(true, Some(1000));
    assert_eq!(s.last_sync_ntn(), Some(1000));
    assert_eq!(s.decide(70, false), SyncAction::Wait);
    assert_eq!(s.decide(76, false), SyncAction::SyncNtn);
    assert_eq!(s.decide(76, true), SyncAction::Wait);
    s.observe_wireless(true, None);
    assert_eq!(s.last_sync_ntn(), Some(1000));
    s.observe_wireless(false, Some(2000));
    assert_eq!(s.last_sync_ntn(), None);
}

#[test]
fn drain_stops_when_full() {
    assert!(has_room(75, NOTECARD_STORAGE_CAPACITY_PACKAGES));
    assert!(!has_room(76, NOTECARD_STORAGE_CAPACITY_PACKAGES));
}

#[test]
fn drain_retries_once() {
    assert_eq!(drain_step(10, true, SendOutcome::Sent(5), true), DrainStep::Next(15));
    assert_eq!(drain_step(10, true, SendOutcome::Failed, true), DrainStep::Retry);
    assert_eq!(drain_step(10, false, SendOutcome::Sent(5), true), DrainStep::Next(15));
    assert_eq!(drain_step(10, false, SendOutcome::Failed, true), DrainStep::Abort);
    assert_eq!(drain_step(10, true, SendOutcome::NtnMode, true), DrainStep::Done(0));
    assert_eq!(drain_step(10, true, SendOutcome::NtnMode, false), DrainStep::Retry);
    assert_eq!(drain_step(10, false, SendOutcome::NtnMode, true), DrainStep::Abort);
}

#[test]
fn storage_info_written_when_changed() {
    let cur = Some(StorageIdInfo { sent_id: Some(4) });
    assert_eq!(storage_info_update(Some(4), false, cur), None);
    assert_eq!(
        storage_info_update(Some(5), false, cur),
        Some(StorageIdInfo { sent_id: Some(5) })
    );
    assert_eq!(
        storage_info_update(Some(5), true, cur),
        Some(StorageIdInfo { sent_id: None })
    );
    assert_eq!(
        storage_info_update(None, false, None),
        Some(StorageIdInfo { sent_id: None })
    );
    assert_eq!(
        storage_info_update(None, true, Some(StorageIdInfo { sent_id: None })),
        None
    );
}

#[test]
fn request_ranges() {
    // nothing stored beyond 49: the request is capped there.
    assert_eq!(request_range(50, None, 10, 1000), Some((10, 49, 49)));
    // resumes after the last sent id, at most 100 at a time.
    assert_eq!(request_range(1000, Some(200), 0, 900), Some((200, 299, 900)));
    // done.
    assert_eq!(request_range(1000, Some(900), 0, 900), None);
    assert_eq!(request_range(0, None, 0, 10), None);
    assert_eq!(request_range(u32::MAX, Some(u32::MAX - 10), 0, u32::MAX), Some((u32::MAX - 10, u32::MAX - 1, u32::MAX - 1)));
}

#[test]
fn request_steps() {
    assert_eq!(
        request_step(5, 10, Fetched::Queued),
        RequestStep::Record(InfoUpdate { sent_id: Some(5), clear_request: false })
    );
    assert_eq!(
        request_step(10, 10, Fetched::Queued),
        RequestStep::Record(InfoUpdate { sent_id: Some(10), clear_request: true })
    );
    assert_eq!(request_step(5, 10, Fetched::QueueFull), RequestStep::Halt);
    assert_eq!(
        request_step(123, 1000, Fetched::Missing),
        RequestStep::Skip(InfoUpdate { sent_id: Some(200), clear_request: false })
    );
    assert_eq!(
        request_step(123, 150, Fetched::Missing),
        RequestStep::Skip(InfoUpdate { sent_id: Some(200), clear_request: true })
    );
    assert_eq!(
        request_step(5, 10, Fetched::Failed),
        RequestStep::Fail(InfoUpdate { sent_id: None, clear_request: true })
    );
}
