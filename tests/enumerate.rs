use vulkant::enumerate::{EnumError, Enumeration, Next, Phase, DEFAULT_MAX_RETRIES};

/// Runs the protocol against a stub whose backing set is `sets[0]` at the
/// count call and `sets[k]` at the k-th fill call (the last one repeats).
fn run(sets: &[Vec<u32>], max_retries: u32) -> Result<Vec<u32>, EnumError> {
    let mut e = Enumeration::new(max_retries);
    let mut cap = e.on_count(sets[0].len() as u32);
    let mut call: usize = 1;
    loop {
        let set = &sets[call.min(sets.len() - 1)];
        call += 1;
        let mut buf = vec![0u32; cap as usize];
        for (slot, item) in buf.iter_mut().zip(set.iter()) {
            *slot = *item;
        }
        match e.on_fill(buf, set.len() as u32) {
            Next::Fill(c) => cap = c,
            Next::Done(v) => return Ok(v),
            Next::Failed(err) => return Err(err),
        }
    }
}

#[test]
fn static_set_of_three() {
    let r = run(&[vec![7, 8, 9], vec![7, 8, 9]], DEFAULT_MAX_RETRIES).unwrap();
    assert_eq!(r, vec![7, 8, 9]);
}

#[test]
fn empty_set() {
    let r = run(&[vec![], vec![]], DEFAULT_MAX_RETRIES).unwrap();
    assert!(r.is_empty());
}

#[test]
fn shrunk_from_five_to_three() {
    let r = run(&[vec![1, 2, 3, 4, 5], vec![1, 2, 3]], DEFAULT_MAX_RETRIES).unwrap();
    assert_eq!(r, vec![1, 2, 3]);
}

#[test]
fn trims_to_reported_count() {
    let mut e = Enumeration::new(3);
    assert_eq!(e.on_count(5), 5);
    match e.on_fill(vec![10u32, 11, 12, 0, 0], 3) {
        Next::Done(v) => assert_eq!(v, vec![10, 11, 12]),
        _ => panic!("expected a finished listing"),
    }
    assert_eq!(e.phase, Phase::Finished { count: 3 });
}

#[test]
fn grown_once_then_stable() {
    let r = run(&[vec![1, 2, 3], vec![1, 2, 3, 4, 5], vec![1, 2, 3, 4, 5]], DEFAULT_MAX_RETRIES).unwrap();
    assert_eq!(r, vec![1, 2, 3, 4, 5]);
}

#[test]
fn growth_past_retry_bound() {
    let sets: Vec<Vec<u32>> = (1..=6).map(|n| (0..n).collect()).collect();
    assert_eq!(run(&sets, 3), Err(EnumError::EnumerationUnstable));
}

#[test]
fn growth_within_retry_bound() {
    let sets: Vec<Vec<u32>> = (1..=4).map(|n| (0..n).collect()).collect();
    assert_eq!(run(&sets, 3), Ok(vec![0, 1, 2, 3]));
}

#[test]
fn refill_asks_for_new_count() {
    let mut e = Enumeration::new(1);
    e.on_count(2);
    match e.on_fill(vec![1u32, 2], 4) {
        Next::Fill(c) => assert_eq!(c, 4),
        _ => panic!("expected a refill"),
    }
    assert_eq!(e.retries, 1);
    match e.on_fill(vec![1u32, 2, 3, 4], 6) {
        Next::Failed(err) => assert_eq!(err, EnumError::EnumerationUnstable),
        _ => panic!("expected the retry bound to be hit"),
    }
    assert_eq!(e.phase, Phase::Unstable);
}
