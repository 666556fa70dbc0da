use lightshow::transients::{ScanStep, TransientScan, AVG_LEN, SKIP_AMT};

#[test]
fn scan_without_transients_examines_every_sample() {
    let mut scan = TransientScan::new(5);
    let mut seen = Vec::new();
    while let Some(i) = scan.next_sample() {
        seen.push(i);
        assert!(matches!(scan.step(false, 0), ScanStep::Slide));
    }
    assert_eq!(seen, vec![0, 1, 2, 3, 4]);
    assert!(scan.rhythm().is_empty());
    assert_eq!(scan.transient_no(), 0);
    assert_eq!(scan.transient_gap(), 5);
}

#[test]
fn scan_of_empty_song_has_nothing_to_examine() {
    let scan = TransientScan::new(0);
    assert_eq!(scan.next_sample(), None);
    assert!(scan.into_rhythm().is_empty());
}

#[test]
fn transient_records_distance_and_level_then_skips() {
    let mut scan = TransientScan::new(10_000);
    for _ in 0..3 {
        scan.step(false, 0);
    }
    assert_eq!(scan.next_sample(), Some(3));
    match scan.step(true, 1234) {
        ScanStep::Refill { zeros, start, end } => {
            assert_eq!(end, 3 + SKIP_AMT + 1);
            assert_eq!(zeros, 0);
            assert_eq!(start, end - AVG_LEN);
        }
        _ => panic!("expected a refill"),
    }
    assert_eq!(scan.rhythm(), &vec![4, 1234]);
    assert_eq!(scan.next_sample(), Some(3 + SKIP_AMT + 2));
    assert_eq!(scan.transient_gap(), SKIP_AMT + 1);
    assert_eq!(scan.transient_no(), 1);
}

#[test]
fn transient_near_the_end_finishes_the_scan() {
    let mut scan = TransientScan::new(100);
    assert!(matches!(scan.step(true, -5), ScanStep::Done));
    assert_eq!(scan.next_sample(), None);
    assert_eq!(scan.rhythm(), &vec![1, -5]);
    assert_eq!(scan.transient_gap(), SKIP_AMT);
}

#[test]
fn distance_entries_add_up_to_transient_positions() {
    let len = 20_000;
    let hits = [3usize, 4106, 9000, 19_000];
    let mut scan = TransientScan::new(len);
    let mut levels = 0;
    while let Some(i) = scan.next_sample() {
        let hit = hits.contains(&i);
        if hit {
            levels += 1;
        }
        if let ScanStep::Done = scan.step(hit, levels) {
            break;
        }
    }
    let rhythm = scan.into_rhythm();
    assert_eq!(rhythm.len(), 2 * hits.len());
    let mut sum = 0i64;
    for (k, &h) in hits.iter().enumerate() {
        sum += rhythm[2 * k] as i64;
        assert_eq!(sum, h as i64 + 1);
        assert_eq!(rhythm[2 * k + 1], k as i32 + 1);
    }
}

#[test]
fn samples_inside_the_skip_are_never_examined() {
    let mut scan = TransientScan::new(10_000);
    let mut examined = Vec::new();
    while let Some(i) = scan.next_sample() {
        examined.push(i);
        let hit = i == 10;
        if let ScanStep::Done = scan.step(hit, 1) {
            break;
        }
    }
    assert!(examined.contains(&10));
    assert!(!examined.iter().any(|&i| i > 10 && i <= 10 + SKIP_AMT + 1));
    assert!(examined.contains(&(10 + SKIP_AMT + 2)));
}
