use name_sniper::account::Error;
use name_sniper::screener::{classify_head, partition, rest_after_batch, ScreenVerdict};
use name_sniper::snipe::{claim_outcome, phase_offset, phase_wait, ClaimOutcome};
use name_sniper::text::to_ascii_lowercase;
use name_sniper::worker::{next_action, notification_text, should_notify, WorkerAction};
use name_sniper::{CreateSnipeOptions, JavaData, SnipeSlot, SnipeTable, Status};

fn request(name: &str, workers: i16) -> CreateSnipeOptions {
    CreateSnipeOptions {
        username: name.to_string(),
        email: "e@x".to_string(),
        password: "pw".to_string(),
        workers,
    }
}

#[test]
fn phase_offsets_for_four_workers() {
    let offsets: Vec<i64> = (1..=4).map(|c| phase_offset(4, c)).collect();
    assert_eq!(offsets, vec![0, 500, 1000, 1500]);
    for (i, off) in offsets.iter().enumerate() {
        let now: i64 = 1_700_000_000_000;
        assert_eq!(now % 2000, 0);
        let wait = phase_wait(*off, now);
        assert!(wait >= 1 && wait <= 2000);
        assert_eq!((now + wait) % 2000, *off);
        assert_eq!(wait, if i == 0 { 2000 } else { *off });
    }
}

#[test]
fn phase_offsets_round_to_nearest() {
    assert_eq!(phase_offset(3, 2), 667);
    assert_eq!(phase_offset(3, 3), 1333);
    assert_eq!(phase_offset(2, 2), 1000);
    assert_eq!(phase_offset(1, 1), 0);
    assert_eq!(phase_offset(8000, 7999), 2000);
    assert_eq!(phase_offset(8000, 7998), 1999);
    assert_eq!(phase_offset(4000, 4000), 2000);
}

#[test]
fn phase_wait_cases() {
    assert_eq!(phase_wait(1000, 1_284), 1_716);
    assert_eq!(phase_wait(1500, 1_284), 216);
    assert_eq!(phase_wait(0, 1_999), 1);
    assert_eq!(phase_wait(500, -1), 501);
    assert_eq!(phase_wait(2000, 0), 2000);
}

#[test]
fn snipe_race_two_workers() {
    let mut table = SnipeTable::new();
    assert!(table.create(request("bar", 2), 10).updated);
    assert!(!table.create(request("bar", 5), 11).updated);
    let a = table.acquire().unwrap();
    let b = table.acquire().unwrap();
    assert!(table.acquire().is_none());
    assert_eq!((a.count, a.needed), (1, 2));
    assert_eq!((b.count, b.needed), (2, 2));
    assert_eq!(phase_offset(a.needed, a.count), 0);
    assert_eq!(phase_offset(b.needed, b.count), 1000);
    assert_eq!(a.username, "bar");

    let mut slot = SnipeSlot::new();
    assert!(!slot.holds_slot());
    slot.take_slot(a);
    assert!(slot.needs_token(0));
    assert!(!slot.should_claim("bar", Status::Available));
    slot.set_token(Some(JavaData { token: "Bearer t".to_string(), expires_at: 1_000_000 }));
    assert!(!slot.needs_token(699_999));
    assert!(slot.needs_token(700_001));
    assert!(slot.should_claim("bar", Status::Available));
    assert!(!slot.should_claim("bar", Status::Taken));
    assert!(!slot.should_claim("baz", Status::Available));
    assert_eq!(slot.gate_wait(0), Some(2000));

    assert_eq!(claim_outcome(Some(204)), ClaimOutcome::Claimed);
    assert!(table.delete("bar"));
    assert!(!table.delete("bar"));
    assert!(table.acquire().is_none());
    slot.release();
    assert!(slot.gate_wait(0).is_none());
}

#[test]
fn snipe_reset_frees_slots() {
    let mut table = SnipeTable::new();
    assert!(table.create(request("one", 1), 0).updated);
    assert!(table.create(request("two", 1), 0).updated);
    assert_eq!(table.acquire().unwrap().username, "one");
    assert_eq!(table.acquire().unwrap().username, "two");
    assert!(table.acquire().is_none());
    table.reset();
    assert_eq!(table.acquire().unwrap().username, "one");
}

#[test]
fn snipe_wanting_no_worker_has_no_slot() {
    let mut table = SnipeTable::new();
    assert!(table.create(request("zero", 0), 0).updated);
    assert!(table.acquire().is_none());
}

#[test]
fn claim_outcomes() {
    assert_eq!(claim_outcome(Some(200)), ClaimOutcome::Claimed);
    assert_eq!(claim_outcome(Some(299)), ClaimOutcome::Claimed);
    assert_eq!(claim_outcome(Some(403)), ClaimOutcome::Refused);
    assert_eq!(claim_outcome(Some(429)), ClaimOutcome::Failed);
    assert_eq!(claim_outcome(None), ClaimOutcome::Failed);
}

#[test]
fn worker_actions() {
    assert_eq!(next_action(Ok(Status::Taken)), WorkerAction::Submit(Status::Taken));
    assert_eq!(next_action(Err(Error::Delay(30))), WorkerAction::Wait(30));
    assert_eq!(next_action(Err(Error::Token)), WorkerAction::Wait(120));
    assert_eq!(next_action(Err(Error::NoClient)), WorkerAction::Exit);
    assert_eq!(next_action(Err(Error::Request)), WorkerAction::Retry);
    assert_eq!(next_action(Err(Error::Deserialization)), WorkerAction::Retry);
    assert_eq!(next_action(Err(Error::Retry)), WorkerAction::Retry);
}

#[test]
fn notification_rule() {
    assert!(should_notify(true, Status::Available, 10_000_001));
    assert!(!should_notify(true, Status::Available, 10_000_000));
    assert!(!should_notify(false, Status::Available, 20_000_000));
    assert!(!should_notify(true, Status::BatchAvailable, 20_000_000));
}

#[test]
fn head_classification() {
    assert_eq!(classify_head(Some(200), true), ScreenVerdict::Taken);
    assert_eq!(classify_head(Some(304), true), ScreenVerdict::Taken);
    assert_eq!(classify_head(Some(204), false), ScreenVerdict::Available);
    assert_eq!(classify_head(Some(404), false), ScreenVerdict::Retry);
    assert_eq!(classify_head(None, false), ScreenVerdict::Retry);
}

#[test]
fn partition_lowercases_and_counts() {
    let results = vec![
        ("Alpha".to_string(), ScreenVerdict::Taken),
        ("beta".to_string(), ScreenVerdict::Available),
        ("GAMMA_1".to_string(), ScreenVerdict::Available),
        ("delta".to_string(), ScreenVerdict::Retry),
    ];
    let batch = partition(&results);
    assert_eq!(batch.taken, vec!["alpha".to_string()]);
    assert_eq!(batch.available, vec!["beta".to_string(), "gamma_1".to_string()]);
    assert_eq!(batch.retried, 1);
}

#[test]
fn rest_between_batches() {
    assert_eq!(rest_after_batch(101, 0), 300_000);
    assert_eq!(rest_after_batch(100, 500), 1_500);
    assert_eq!(rest_after_batch(0, 2_500), 0);
}

#[test]
fn ascii_lowercase_only_touches_capitals() {
    assert_eq!(to_ascii_lowercase("AbC_9z"), "abc_9z");
    assert_eq!(to_ascii_lowercase("ÄB"), "Äb");
    assert_eq!(to_ascii_lowercase(""), "");
}

#[test]
fn notification_text_two_decimals() {
    assert_eq!(notification_text("foo", 20_000_000), "foo is now available! (20.00)");
    assert_eq!(notification_text("bar", 12_345_678), "bar is now available! (12.35)");
    assert_eq!(notification_text("baz", 10_050_000), "baz is now available! (10.05)");
    assert_eq!(notification_text("q", 5_000), "q is now available! (0.01)");
    assert_eq!(notification_text("q", 4_999), "q is now available! (0.00)");
    assert_eq!(notification_text("big", 123_456_789_000), "big is now available! (123456.79)");
}
