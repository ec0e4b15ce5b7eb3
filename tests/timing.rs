use timeit::text::push_decimal;
use timeit::{InvocationTracking, TimeDB, TimeFileSave, TimeIt};

fn time_1(db: &mut TimeDB) -> u64 {
    let t = TimeIt::new("time_1");
    let a = 3u64;
    db.add_time(&t);
    a * 3
}

fn time_3(db: &mut TimeDB) {
    let t = TimeIt::new("time_3");
    time_1(db);
    time_1(db);
    db.add_time(&t);
}

#[test]
fn test_times() {
    let mut db = TimeDB::new();
    {
        time_3(&mut db);
    }
    let save = TimeFileSave::new("test_result.txt");
    let text = save.contents(&db);
    assert_eq!(text.lines().count(), 2);
    assert_eq!(db.get("time_1").unwrap().count, 2);
    assert_eq!(db.get("time_3").unwrap().count, 1);
}

#[test]
fn two_records_of_one_label() {
    let mut db = TimeDB::new();
    db.record("time_1", 10);
    db.record("time_1", 20);
    let t = db.get("time_1").unwrap();
    assert_eq!(t.count, 2);
    assert_eq!(t.total_time, 30);
    assert_eq!(t.average_ns(), 15);
    assert_eq!(db.len(), 1);
}

#[test]
fn nested_labels_are_independent() {
    let mut db = TimeDB::new();
    db.record("time_1", 3);
    db.record("time_1", 4);
    db.record("time_3", 5);
    let outer = db.get("time_3").unwrap();
    let inner = db.get("time_1").unwrap();
    assert_eq!(outer.count, 1);
    assert_eq!(outer.total_time, 5);
    assert_eq!(inner.count, 2);
    assert_eq!(inner.total_time, 7);
}

#[test]
fn fresh_label_has_no_entry_and_zero_average() {
    let db = TimeDB::new();
    assert!(db.get("never").is_none());
    assert_eq!(db.len(), 0);
    let empty = InvocationTracking { count: 0, total_time: 0 };
    assert_eq!(empty.average_ns(), 0);
    assert_eq!(empty.to_text(), "0 | 0 ns/call");
}

#[test]
fn average_truncates() {
    let t = InvocationTracking { count: 3, total_time: 10 };
    assert_eq!(t.average_ns(), 3);
    let u = InvocationTracking { count: 4, total_time: 7 };
    assert_eq!(u.average_ns(), 1);
    let v = InvocationTracking { count: 5, total_time: 4 };
    assert_eq!(v.average_ns(), 0);
}

#[test]
fn first_sample_then_accumulate() {
    let mut t = InvocationTracking::new(42);
    assert_eq!(t, InvocationTracking { count: 1, total_time: 42 });
    t.add_time(8);
    assert_eq!(t, InvocationTracking { count: 2, total_time: 50 });
    assert_eq!(t.average_ns(), 25);
}

#[test]
fn accumulation_stops_at_the_largest_value() {
    let mut t = InvocationTracking { count: u64::MAX, total_time: u64::MAX - 1 };
    t.add_time(5);
    assert_eq!(t.count, u64::MAX);
    assert_eq!(t.total_time, u64::MAX);
}

#[test]
fn interleaved_recordings_add_up_exactly() {
    // Four writers, five recordings each, interleaved round by round as a
    // lock would serialise them.
    let mut db = TimeDB::new();
    let mut expected_total = 0u64;
    for round in 0..5u64 {
        for writer in 0..4u64 {
            let elapsed = round * 10 + writer;
            db.record("shared", elapsed);
            db.record("other", 1);
            expected_total += elapsed;
        }
    }
    let t = db.get("shared").unwrap();
    assert_eq!(t.count, 20);
    assert_eq!(t.total_time, expected_total);
    assert_eq!(db.get("other").unwrap().count, 20);
    assert_eq!(db.get("other").unwrap().total_time, 20);
}

#[test]
fn snapshot_of_two_labels() {
    let mut db = TimeDB::new();
    db.record("a", 10);
    db.record("b", 5);
    db.record("a", 20);
    let text = db.to_text();
    assert_eq!(text, "a => 2 | 15 ns/call\nb => 1 | 5 ns/call\n");
    assert_eq!(text.lines().count(), 2);
    let copy = db.snapshot();
    assert_eq!(copy.len(), 2);
    assert_eq!(copy.get("a").unwrap(), InvocationTracking { count: 2, total_time: 30 });
    assert_eq!(copy.get("b").unwrap(), InvocationTracking { count: 1, total_time: 5 });
}

#[test]
fn snapshot_is_a_copy() {
    let mut db = TimeDB::new();
    db.record("a", 1);
    let copy = db.snapshot();
    db.record("a", 1);
    assert_eq!(copy.get("a").unwrap().count, 1);
    assert_eq!(db.get("a").unwrap().count, 2);
}

#[test]
fn snapshots_back_to_back_are_identical() {
    let mut db = TimeDB::new();
    db.record("x", 7);
    db.record("y", 9);
    let save = TimeFileSave::new("out.txt");
    let first = save.contents(&db);
    let second = save.contents(&db);
    assert_eq!(first, second);
    assert_eq!(first, "x => 1 | 7 ns/call\ny => 1 | 9 ns/call\n");
}

#[test]
fn empty_registry_renders_nothing() {
    let db = TimeDB::new();
    assert_eq!(db.to_text(), "");
}

#[test]
fn writer_keeps_its_path() {
    let save = TimeFileSave::new("test_result.txt");
    assert_eq!(save.file_name(), "test_result.txt");
}

#[test]
fn elapsed_is_clamped_at_zero() {
    let t = TimeIt::started_at("clamped", 100);
    assert_eq!(t.elapsed_at(130), 30);
    assert_eq!(t.elapsed_at(100), 0);
    assert_eq!(t.elapsed_at(50), 0);
    assert_eq!(t.name(), "clamped");
    assert_eq!(t.start_time(), 100);
}

#[test]
fn clock_reading_moves_forward() {
    let t = TimeIt::new("clock");
    let mut spin = 0u64;
    for i in 0..100_000u64 {
        spin = spin.wrapping_add(i);
    }
    assert!(spin > 0);
    assert!(t.start_time() > 0);
    let e = t.elapsed();
    assert!(e < 10_000_000_000);
    let mut db = TimeDB::new();
    db.add_time(&t);
    assert_eq!(db.get("clock").unwrap().count, 1);
}

#[test]
fn decimal_text() {
    let mut s = String::from("n=");
    push_decimal(&mut s, 0);
    assert_eq!(s, "n=0");
    let mut t = String::new();
    push_decimal(&mut t, 1234567890);
    assert_eq!(t, "1234567890");
    let mut u = String::new();
    push_decimal(&mut u, u64::MAX);
    assert_eq!(u, "18446744073709551615");
}
