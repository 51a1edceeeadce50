use name_sniper::names::{contains_name, CLAIM_BATCH};
use name_sniper::{Name, NameTable, Status, Tier, WorkSource};

fn name(u: &str, frequency: u64, status: Status, verified_at: i64) -> Name {
    Name {
        username: u.to_string(),
        frequency,
        has_definition: false,
        status,
        updating: false,
        verified_at,
        updated_at: 0,
        checked_at: 0,
    }
}

const ALL: [Status; 6] = [
    Status::Unknown,
    Status::Available,
    Status::Taken,
    Status::Banned,
    Status::BatchAvailable,
    Status::BatchTaken,
];

#[test]
fn status_codes_round_trip() {
    for (i, s) in ALL.iter().enumerate() {
        assert_eq!(s.code(), i as i16);
        assert_eq!(Status::from_code(i as i16), *s);
        assert_eq!(i16::from(*s), i as i16);
        assert_eq!(Status::from(i as i16), *s);
    }
    assert_eq!(Status::from_code(9), Status::Unknown);
    assert_eq!(Status::from_code(-1), Status::Unknown);
}

#[test]
fn status_from_reply_text() {
    assert_eq!(Status::from_str("AVAILABLE"), Ok(Status::Available));
    assert_eq!(Status::from_str("DUPLICATE"), Ok(Status::Taken));
    assert_eq!(Status::from_str("NOT_ALLOWED"), Ok(Status::Banned));
    assert_eq!(Status::from_str("available"), Ok(Status::Unknown));
    assert_eq!(Status::from_str(""), Ok(Status::Unknown));
}

#[test]
fn updated_at_discipline_all_pairs() {
    for prev in ALL {
        for next in ALL {
            let expected = prev != next && !(prev == Status::BatchTaken && next == Status::Taken);
            assert_eq!(Status::bumps_updated_at(prev, next), expected);
        }
    }
    assert!(!Status::bumps_updated_at(Status::BatchTaken, Status::Taken));
    assert!(Status::bumps_updated_at(Status::Taken, Status::BatchTaken));
}

#[test]
fn submit_bumps_updated_at_per_rule() {
    for prev in ALL {
        for next in ALL {
            let mut table = NameTable::new();
            let mut row = name("foo", 20_000_000, prev, 5);
            row.updating = true;
            row.updated_at = 7;
            assert!(table.insert(row));
            let (changed, freq) = table.submit("foo", next, 1_000).unwrap();
            assert_eq!(changed, Status::bumps_updated_at(prev, next));
            assert_eq!(freq, 20_000_000);
            let after = table.get(0);
            assert_eq!(after.status, next);
            assert_eq!(after.verified_at, 1_000);
            assert!(!after.updating);
            assert_eq!(after.updated_at, if changed { 1_000 } else { 7 });
        }
    }
}

#[test]
fn submit_unknown_name_changes_nothing() {
    let mut table = NameTable::new();
    assert!(table.insert(name("foo", 1, Status::Unknown, 0)));
    assert_eq!(table.submit("bar", Status::Available, 9), None);
    assert_eq!(table.get(0).status, Status::Unknown);
}

#[test]
fn first_time_probe_scenario() {
    let mut source = WorkSource::new({
        let mut t = NameTable::new();
        assert!(t.insert(name("foo", 20_000_000, Status::Unknown, 0)));
        t
    });
    let drawn = source.next(Tier::High).unwrap();
    assert_eq!(drawn, "foo");
    assert!(source.table_ref().get(0).updating);
    let mut table = NameTable::new();
    let mut row = name("foo", 20_000_000, Status::Unknown, 0);
    row.updating = true;
    assert!(table.insert(row));
    let (changed, freq) = table.submit("foo", Status::Available, 50).unwrap();
    assert!(changed);
    assert!(name_sniper::worker::should_notify(changed, Status::Available, freq));
    let after = table.get(0);
    assert_eq!(after.status, Status::Available);
    assert_eq!(after.updated_at, 50);
    assert!(!after.updating);
}

#[test]
fn insert_refuses_duplicate_username() {
    let mut table = NameTable::new();
    assert!(table.insert(name("a", 1, Status::Unknown, 0)));
    assert!(!table.insert(name("a", 2, Status::Taken, 0)));
    assert_eq!(table.len(), 1);
    assert_eq!(table.position("a"), Some(0));
    assert_eq!(table.position("b"), None);
}

#[test]
fn tier_for_worker_by_last_digit() {
    let expected = [
        Tier::High, Tier::High, Tier::High, Tier::High, Tier::High,
        Tier::Medium, Tier::Medium, Tier::Medium, Tier::Low, Tier::Low,
    ];
    for i in 0..30usize {
        assert_eq!(Tier::for_worker(i), expected[i % 10]);
    }
}

#[test]
fn tier_predicates() {
    let high = name("h", 15_000_000, Status::BatchTaken, 0);
    assert!(Tier::High.admits(&high));
    assert!(!Tier::Medium.admits(&high));
    let med = name("m", 10_000, Status::Unknown, 0);
    assert!(Tier::Medium.admits(&med));
    assert!(!Tier::Low.admits(&med));
    let med_taken = name("mt", 5_000_000, Status::BatchTaken, 0);
    assert!(!Tier::Medium.admits(&med_taken));
    let low = name("l", 1_000, Status::Unknown, 0);
    assert!(Tier::Low.admits(&low));
    let rare = name("r", 999, Status::Unknown, 0);
    assert!(!Tier::Low.admits(&rare));
    let mut defined = name("d", 0, Status::Unknown, 0);
    defined.has_definition = true;
    assert!(Tier::Low.admits(&defined));
    defined.status = Status::BatchTaken;
    assert!(!Tier::Low.admits(&defined));
}

#[test]
fn claim_takes_oldest_then_most_frequent() {
    let mut table = NameTable::new();
    assert!(table.insert(name("c", 20_000_000, Status::Unknown, 30)));
    assert!(table.insert(name("a", 20_000_000, Status::Unknown, 10)));
    assert!(table.insert(name("b", 40_000_000, Status::Unknown, 10)));
    assert!(table.insert(name("low", 100, Status::Unknown, 0)));
    let mut held = name("held", 90_000_000, Status::Unknown, 0);
    held.updating = true;
    assert!(table.insert(held));
    let claimed = table.claim(Tier::High, 2);
    assert_eq!(claimed, vec!["b".to_string(), "a".to_string()]);
    assert!(table.get(1).updating);
    assert!(table.get(2).updating);
    assert!(!table.get(0).updating);
    let rest = table.claim(Tier::High, 5);
    assert_eq!(rest, vec!["c".to_string()]);
    assert!(table.claim(Tier::High, 5).is_empty());
}

#[test]
fn claims_are_exclusive_across_refills() {
    let mut table = NameTable::new();
    for i in 0..250u64 {
        let f = if i % 3 == 0 { 20_000_000 } else if i % 3 == 1 { 50_000 } else { 2_000 };
        assert!(table.insert(name(&format!("n{i}"), f, Status::Unknown, (i % 7) as i64)));
    }
    let mut all = Vec::new();
    for tier in [Tier::High, Tier::Medium, Tier::High, Tier::Low, Tier::Medium, Tier::Low] {
        all.extend(table.claim(tier, CLAIM_BATCH / 2));
    }
    let mut sorted = all.clone();
    sorted.sort();
    sorted.dedup();
    assert_eq!(sorted.len(), all.len());
    assert_eq!(all.len(), 250);
    table.reset();
    for i in 0..table.len() {
        assert!(!table.get(i).updating);
    }
}

#[test]
fn work_source_refills_and_pops() {
    let mut t = NameTable::new();
    assert!(t.insert(name("x", 20_000_000, Status::Unknown, 1)));
    assert!(t.insert(name("y", 20_000_000, Status::Unknown, 2)));
    let mut source = WorkSource::new(t);
    assert_eq!(source.next(Tier::High), Some("y".to_string()));
    assert_eq!(source.next(Tier::High), Some("x".to_string()));
    assert_eq!(source.next(Tier::High), None);
    assert_eq!(source.next(Tier::Low), None);
}

#[test]
fn screener_passes_keep_authoritative_labels() {
    let mut table = NameTable::new();
    assert!(table.insert(name("a", 0, Status::Unknown, 0)));
    assert!(table.insert(name("b", 0, Status::Available, 0)));
    assert!(table.insert(name("c", 0, Status::Banned, 0)));
    assert!(table.insert(name("d", 0, Status::Taken, 0)));
    let names = vec!["a".to_string(), "b".to_string(), "c".to_string()];
    table.submit_available(&names, 77);
    assert_eq!(table.get(0).status, Status::BatchAvailable);
    assert_eq!(table.get(1).status, Status::Available);
    assert_eq!(table.get(2).status, Status::Banned);
    assert_eq!(table.get(3).status, Status::Taken);
    assert_eq!(table.get(0).checked_at, 77);
    assert_eq!(table.get(3).checked_at, 0);
    table.submit_unavailable(&names, 78);
    assert_eq!(table.get(0).status, Status::BatchTaken);
    assert_eq!(table.get(1).status, Status::BatchTaken);
    assert_eq!(table.get(2).status, Status::BatchTaken);
    assert_eq!(table.get(3).status, Status::Taken);
}

#[test]
fn screened_status_rules() {
    for prev in ALL {
        let kept = prev == Status::Available || prev == Status::Banned;
        assert_eq!(Status::screened_available(prev), if kept { prev } else { Status::BatchAvailable });
        assert_eq!(Status::screened_taken(prev), Status::BatchTaken);
    }
}

#[test]
fn contains_name_exact() {
    let names = vec!["abc".to_string(), "de".to_string()];
    assert!(contains_name(&names, "de"));
    assert!(!contains_name(&names, "d"));
    assert!(!contains_name(&names, "ABC"));
}
