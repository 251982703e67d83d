use route_aggregate::aggregate::{aggregate, AggregateError, AggregateRow, Aggregator};
use route_aggregate::identity::{identity_of, RecordIdentity, NAMESPACE};
use route_aggregate::record::{normalize, CanonicalKey, ElemKind, RawRecord};
use route_aggregate::timestamp::Timestamp;

fn at(seconds: f64) -> Timestamp {
    Timestamp::from_bits(seconds.to_bits())
}

fn seconds(t: Timestamp) -> f64 {
    f64::from_bits(t.to_bits())
}

fn record(
    kind: ElemKind,
    prefix: &str,
    as_path: Option<&str>,
    next_hop: Option<&str>,
    peer_ip: &str,
    timestamp: f64,
) -> RawRecord {
    RawRecord {
        kind,
        prefix: prefix.to_string(),
        as_path: as_path.map(|s| s.to_string()),
        next_hop: next_hop.map(|s| s.to_string()),
        peer_ip: peer_ip.to_string(),
        timestamp: at(timestamp),
    }
}

fn announce(timestamp: f64) -> RawRecord {
    record(
        ElemKind::Announce,
        "10.0.0.0/24",
        Some("100 200"),
        Some("1.1.1.1"),
        "2.2.2.2",
        timestamp,
    )
}

fn withdraw(timestamp: f64) -> RawRecord {
    record(ElemKind::Withdraw, "10.0.0.0/24", None, None, "2.2.2.2", timestamp)
}

fn find(rows: &[AggregateRow], identity: RecordIdentity) -> &AggregateRow {
    let matching: Vec<&AggregateRow> = rows.iter().filter(|r| r.identity == identity).collect();
    assert_eq!(matching.len(), 1);
    matching[0]
}

#[test]
fn namespace_is_the_fixed_constant() {
    assert_eq!(NAMESPACE, 0x40689d13_36ac_4216_9c41_f02b007d46c2u128);
}

#[test]
fn timestamp_round_trips_its_bits() {
    assert_eq!(seconds(at(1.5)), 1.5);
    assert_eq!(at(100.0).to_bits(), 0x4059000000000000);
    assert_eq!(Timestamp::from_bits(7).bits, 7);
}

#[test]
fn timestamp_rank_orders_like_the_numbers() {
    assert!(at(-1.0).order_rank() < at(-0.0).order_rank());
    assert!(at(0.0).order_rank() < at(1.0).order_rank());
    assert!(at(50.0).order_rank() < at(100.0).order_rank());
    assert!(at(-200.5).order_rank() < at(-1.0).order_rank());
    assert!(at(f64::NEG_INFINITY).order_rank() < at(f64::MIN).order_rank());
    assert!(at(f64::MAX).order_rank() < at(f64::INFINITY).order_rank());
    assert_eq!(at(0.0).order_rank(), 0x8000_0000_0000_0000);
    assert_eq!(at(-0.0).order_rank(), 0x8000_0000_0000_0000);
    assert_eq!(at(1.0).order_rank(), 0xBFF0_0000_0000_0000);
    assert_eq!(at(-1.0).order_rank(), 0x4010_0000_0000_0000);
}

#[test]
fn timestamp_comparison_agrees_with_the_numbers() {
    let samples = [
        f64::NEG_INFINITY,
        f64::MIN,
        -200.5,
        -1.0,
        -f64::MIN_POSITIVE,
        -0.0,
        0.0,
        f64::MIN_POSITIVE,
        1.0,
        1.5,
        100.0,
        f64::MAX,
        f64::INFINITY,
        f64::NAN,
        -f64::NAN,
    ];
    for a in samples {
        assert_eq!(at(a).is_not_a_number(), a.is_nan());
        for b in samples {
            assert_eq!(at(a).is_before(at(b)), a < b);
            if !(a.is_nan() && b.is_nan()) {
                assert!(seconds(at(a).min(at(b))) == a.min(b));
                assert!(seconds(at(a).max(at(b))) == a.max(b));
            }
        }
    }
}

#[test]
fn timestamp_ties_keep_the_first() {
    assert_eq!(at(0.0).min(at(-0.0)).to_bits(), 0.0f64.to_bits());
    assert_eq!(at(-0.0).min(at(0.0)).to_bits(), (-0.0f64).to_bits());
    assert_eq!(at(0.0).max(at(-0.0)).to_bits(), 0.0f64.to_bits());
    assert_eq!(at(-0.0).max(at(0.0)).to_bits(), (-0.0f64).to_bits());
}

#[test]
fn timestamp_that_is_no_number_gives_way() {
    let nan = at(f64::NAN);
    assert!(nan.is_not_a_number());
    assert!(!at(f64::INFINITY).is_not_a_number());
    assert_eq!(nan.min(at(3.0)), at(3.0));
    assert_eq!(at(3.0).min(nan), at(3.0));
    assert_eq!(nan.max(at(3.0)), at(3.0));
    assert_eq!(at(3.0).max(nan), at(3.0));
    assert_eq!(nan.min(nan), nan);
}

#[test]
fn timestamp_min_and_max() {
    assert_eq!(at(100.0).min(at(50.0)), at(50.0));
    assert_eq!(at(100.0).max(at(50.0)), at(100.0));
    assert_eq!(at(50.0).min(at(100.0)), at(50.0));
    assert_eq!(at(50.0).max(at(100.0)), at(100.0));
    assert_eq!(at(-3.0).min(at(2.0)), at(-3.0));
    assert_eq!(at(-3.0).max(at(-4.0)), at(-3.0));
    assert_eq!(at(7.25).min(at(7.25)), at(7.25));
    assert_eq!(at(7.25).max(at(7.25)), at(7.25));
}

#[test]
fn kind_names() {
    assert_eq!(ElemKind::Announce.name(), "ANNOUNCE");
    assert_eq!(ElemKind::Withdraw.name(), "WITHDRAW");
}

#[test]
fn normalize_copies_the_fields() {
    let key = normalize(&announce(100.0));
    assert_eq!(key.elem_type, "ANNOUNCE");
    assert_eq!(key.prefix, "10.0.0.0/24");
    assert_eq!(key.as_path, "100 200");
    assert_eq!(key.next_hop, "1.1.1.1");
    assert_eq!(key.peer_ip, "2.2.2.2");
}

#[test]
fn normalize_maps_absent_fields_to_empty() {
    let key = normalize(&withdraw(200.0));
    assert_eq!(key.elem_type, "WITHDRAW");
    assert_eq!(key.as_path, "");
    assert_eq!(key.next_hop, "");
}

#[test]
fn canonical_string_joins_with_bars() {
    assert_eq!(
        normalize(&announce(100.0)).canonical_string(),
        "ANNOUNCE|10.0.0.0/24|100 200|1.1.1.1|2.2.2.2"
    );
    assert_eq!(normalize(&withdraw(1.0)).canonical_string(), "WITHDRAW|10.0.0.0/24|||2.2.2.2");
    let empty = CanonicalKey::new(
        String::new(),
        String::new(),
        String::new(),
        String::new(),
        String::new(),
    );
    assert_eq!(empty.canonical_string(), "||||");
}

#[test]
fn key_copy_and_comparison() {
    let key = normalize(&announce(100.0));
    let copy = key.duplicate();
    assert!(key.same_as(&copy));
    assert!(!key.same_as(&normalize(&withdraw(100.0))));
}

#[test]
fn identity_is_the_name_based_identifier() {
    let id = identity_of(&normalize(&announce(100.0)));
    assert_eq!(id.value, 0x8dc6aa08e40954a5aadf37c4de314685u128);
    assert_eq!(id.to_text(), "8dc6aa08-e409-54a5-aadf-37c4de314685");
    let other = identity_of(&normalize(&withdraw(200.0)));
    assert_eq!(other.value, 0xfef4788761d0590e824c25389a453ff7u128);
    assert_eq!(other.to_text(), "fef47887-61d0-590e-824c-25389a453ff7");
}

#[test]
fn identity_text_keeps_leading_zeros() {
    assert_eq!(
        RecordIdentity { value: 0x0123456789abcdefu128 }.to_text(),
        "00000000-0000-0000-0123-456789abcdef"
    );
    assert_eq!(RecordIdentity { value: 0 }.to_text(), "00000000-0000-0000-0000-000000000000");
    assert_eq!(
        RecordIdentity { value: u128::MAX }.to_text(),
        "ffffffff-ffff-ffff-ffff-ffffffffffff"
    );
}

#[test]
fn identity_is_stable_across_calls() {
    let key = normalize(&announce(100.0));
    assert_eq!(identity_of(&key), identity_of(&key));
    assert_eq!(identity_of(&key), identity_of(&key.duplicate()));
}

#[test]
fn identity_ignores_the_timestamp() {
    let a = identity_of(&normalize(&announce(100.0)));
    let b = identity_of(&normalize(&announce(50.0)));
    assert_eq!(a, b);
    assert_ne!(a, identity_of(&normalize(&withdraw(100.0))));
}

#[test]
fn absent_and_empty_path_are_one_shape() {
    let absent = record(ElemKind::Withdraw, "10.0.0.0/24", None, None, "2.2.2.2", 1.0);
    let empty = record(ElemKind::Withdraw, "10.0.0.0/24", Some(""), Some(""), "2.2.2.2", 2.0);
    let a = normalize(&absent);
    let b = normalize(&empty);
    assert!(a.same_as(&b));
    assert_eq!(identity_of(&a), identity_of(&b));
    let rows = aggregate(&vec![absent, empty]).drain();
    assert_eq!(rows.len(), 1);
    assert_eq!(rows[0].count, 2);
}

#[test]
fn upsert_creates_then_updates() {
    let key = normalize(&announce(100.0));
    let id = identity_of(&key);
    let mut agg = Aggregator::new();
    assert_eq!(agg.len(), 0);
    assert!(!agg.contains(id));
    assert!(agg.row(id).is_none());
    assert_eq!(agg.upsert(id, &key, at(100.0)), Ok(()));
    assert!(agg.contains(id));
    {
        let row = agg.row(id).unwrap();
        assert_eq!(row.count, 1);
        assert_eq!(row.min_timestamp, at(100.0));
        assert_eq!(row.max_timestamp, at(100.0));
        assert!(row.key.same_as(&key));
        assert_eq!(row.identity, id);
    }
    assert_eq!(agg.upsert(id, &key, at(50.0)), Ok(()));
    assert_eq!(agg.upsert(id, &key, at(75.0)), Ok(()));
    assert_eq!(agg.len(), 1);
    let row = agg.row(id).unwrap();
    assert_eq!(row.count, 3);
    assert_eq!(seconds(row.min_timestamp), 50.0);
    assert_eq!(seconds(row.max_timestamp), 100.0);
}

#[test]
fn upsert_keeps_the_first_key() {
    let first = normalize(&announce(1.0));
    let second = normalize(&withdraw(2.0));
    let id = RecordIdentity { value: 42 };
    let mut agg = Aggregator::new();
    assert_eq!(agg.upsert(id, &first, at(1.0)), Ok(()));
    assert_eq!(agg.upsert(id, &second, at(2.0)), Ok(()));
    let row = agg.row(id).unwrap();
    assert!(row.key.same_as(&first));
    assert_eq!(row.count, 2);
}

#[test]
fn upsert_refuses_a_full_count() {
    let key = normalize(&announce(100.0));
    let id = identity_of(&key);
    let mut agg = Aggregator::new();
    let full = AggregateRow {
        identity: id,
        key: key.duplicate(),
        min_timestamp: at(10.0),
        max_timestamp: at(20.0),
        count: u64::MAX,
    };
    assert_eq!(agg.merge_row(&full), Ok(()));
    assert_eq!(agg.upsert(id, &key, at(5.0)), Err(AggregateError::CountOverflow));
    let row = agg.row(id).unwrap();
    assert_eq!(row.count, u64::MAX);
    assert_eq!(row.min_timestamp, at(10.0));
    assert_eq!(row.max_timestamp, at(20.0));
}

#[test]
fn three_records_make_two_rows() {
    let records = vec![announce(100.0), announce(50.0), withdraw(200.0)];
    let agg = aggregate(&records);
    assert_eq!(agg.len(), 2);
    let rows = agg.drain();
    assert_eq!(rows.len(), 2);
    let first = find(&rows, identity_of(&normalize(&announce(0.0))));
    assert_eq!(first.count, 2);
    assert_eq!(seconds(first.min_timestamp), 50.0);
    assert_eq!(seconds(first.max_timestamp), 100.0);
    assert_eq!(first.key.as_path, "100 200");
    let second = find(&rows, identity_of(&normalize(&withdraw(0.0))));
    assert_eq!(second.count, 1);
    assert_eq!(seconds(second.min_timestamp), 200.0);
    assert_eq!(seconds(second.max_timestamp), 200.0);
    assert_eq!(second.key.elem_type, "WITHDRAW");
    assert_eq!(second.key.as_path, "");
    assert_eq!(second.key.next_hop, "");
}

#[test]
fn aggregate_of_nothing_is_empty() {
    let agg = aggregate(&Vec::new());
    assert_eq!(agg.len(), 0);
    assert!(agg.drain().is_empty());
}

#[test]
fn statistics_match_the_observed_times() {
    let times = [3.5, -2.0, 9.0, 0.0, 9.0, -2.0, 4.25];
    let records: Vec<RawRecord> = times.iter().map(|t| announce(*t)).collect();
    let rows = aggregate(&records).drain();
    assert_eq!(rows.len(), 1);
    assert_eq!(rows[0].count, 7);
    assert_eq!(seconds(rows[0].min_timestamp), -2.0);
    assert_eq!(seconds(rows[0].max_timestamp), 9.0);
}

#[test]
fn drain_lists_each_identity_once() {
    let records = vec![withdraw(1.0), announce(2.0), withdraw(3.0), announce(4.0), withdraw(5.0)];
    let rows = aggregate(&records).drain();
    assert_eq!(rows.len(), 2);
    assert_ne!(rows[0].identity, rows[1].identity);
    assert_eq!(rows[0].count + rows[1].count, 5);
    for row in rows.iter() {
        assert_eq!(row.identity, identity_of(&row.key));
    }
}

#[test]
fn observe_is_normalize_identity_and_upsert() {
    let mut streamed = Aggregator::new();
    for record in [announce(100.0), announce(50.0), withdraw(200.0)] {
        assert_eq!(streamed.observe(&record), Ok(()));
    }
    assert_eq!(streamed.len(), 2);
    let id = identity_of(&normalize(&announce(0.0)));
    let row = streamed.row(id).unwrap();
    assert_eq!(row.count, 2);
    assert_eq!(seconds(row.min_timestamp), 50.0);
    assert_eq!(seconds(row.max_timestamp), 100.0);
    assert_eq!(row.key.canonical_string(), "ANNOUNCE|10.0.0.0/24|100 200|1.1.1.1|2.2.2.2");
}

#[test]
fn observe_refuses_a_full_count() {
    let record = announce(100.0);
    let key = normalize(&record);
    let mut agg = Aggregator::new();
    let full = AggregateRow {
        identity: identity_of(&key),
        key,
        min_timestamp: at(10.0),
        max_timestamp: at(20.0),
        count: u64::MAX,
    };
    assert_eq!(agg.merge_row(&full), Ok(()));
    assert_eq!(agg.observe(&record), Err(AggregateError::CountOverflow));
    assert_eq!(agg.row(full.identity).unwrap().count, u64::MAX);
    assert_eq!(agg.observe(&withdraw(1.0)), Ok(()));
    assert_eq!(agg.len(), 2);
}
