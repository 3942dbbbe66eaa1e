use snowflake::common::{SnowflakeError, SnowflakeState};
use snowflake::decompose::{decompose_snowflake, SnowflakeDecomposeError, SnowflakeDecomposed};

const T: i64 = 1_700_000_000_000;

fn wall_clock_ms() -> Option<i64> {
    std::time::SystemTime::now()
        .duration_since(std::time::UNIX_EPOCH)
        .ok()
        .map(|d| d.as_millis() as i64)
}

fn next_id(state: &mut SnowflakeState, start: &std::time::Instant) -> i64 {
    loop {
        if let Some(id) = state.generate_id(start.elapsed().as_millis() as u64) {
            return id;
        }
    }
}

#[test]
fn test_snowflake_id_generation() {
    let start = std::time::Instant::now();
    let mut snowflake = SnowflakeState::new(0, 1, wall_clock_ms()).unwrap();
    let id1 = next_id(&mut snowflake, &start);
    let id2 = next_id(&mut snowflake, &start);
    assert!(id2 > id1);
}

#[test]
fn worker_id_above_range_is_rejected() {
    for worker_id in [1024u16, 2000, u16::MAX] {
        assert!(matches!(
            SnowflakeState::new(0, worker_id, Some(T)),
            Err(SnowflakeError::WorkerIdOutOfRange)
        ));
    }
    assert!(matches!(
        SnowflakeState::new(0, 1024, None),
        Err(SnowflakeError::WorkerIdOutOfRange)
    ));
}

#[test]
fn largest_worker_id_is_accepted() {
    let state = SnowflakeState::new(0, 1023, Some(T)).unwrap();
    assert_eq!(state.worker_id, 1023);
    assert_eq!(state.sequence, 0);
    assert_eq!(state.time_since_epoch, T);
}

#[test]
fn epoch_in_future_is_rejected() {
    assert!(matches!(
        SnowflakeState::new(T + 1, 1, Some(T)),
        Err(SnowflakeError::EpochInFuture)
    ));
    let state = SnowflakeState::new(T, 1, Some(T)).unwrap();
    assert_eq!(state.time_since_epoch, 0);
}

#[test]
fn clock_before_unix_epoch_is_rejected() {
    assert!(matches!(
        SnowflakeState::new(0, 1, None),
        Err(SnowflakeError::TimeBeforeUnixEpoch)
    ));
    assert!(matches!(
        SnowflakeState::new(-10, 1, Some(-1)),
        Err(SnowflakeError::TimeBeforeUnixEpoch)
    ));
}

#[test]
fn first_ids_follow_the_layout() {
    let mut state = SnowflakeState::new(0, 1, Some(T)).unwrap();
    let id1 = state.generate_id(0).unwrap();
    assert_eq!(id1, (T << 22) | (1 << 12));
    let id2 = state.generate_id(0).unwrap();
    assert_eq!(id2, (T << 22) | (1 << 12) | 1);
    assert_eq!(
        decompose_snowflake(id1, 0),
        Ok(SnowflakeDecomposed { timestamp: T, worker_id: 1, sequence: 0 })
    );
    assert_eq!(
        decompose_snowflake(id2, 0),
        Ok(SnowflakeDecomposed { timestamp: T, worker_id: 1, sequence: 1 })
    );
}

#[test]
fn time_since_epoch_adds_monotonic_reading() {
    let state = SnowflakeState::new(100, 3, Some(1000)).unwrap();
    assert_eq!(state.get_time_since_epoch(0), 900);
    assert_eq!(state.get_time_since_epoch(5), 905);
}

#[test]
fn advancing_clock_resets_sequence() {
    let mut state = SnowflakeState::new(1000, 7, Some(T)).unwrap();
    state.generate_id(0).unwrap();
    state.generate_id(0).unwrap();
    let id = state.generate_id(3).unwrap();
    assert_eq!(id, ((T - 1000 + 3) << 22) | (7 << 12));
    assert_eq!(state.time_since_epoch, T - 1000 + 3);
    assert_eq!(state.sequence, 1);
}

#[test]
fn sequence_rollover_waits_for_next_millisecond() {
    let mut state = SnowflakeState::new(0, 5, Some(T)).unwrap();
    for seq in 0..4096i64 {
        assert_eq!(state.generate_id(0), Some((T << 22) | (5 << 12) | seq));
    }
    assert_eq!(state.sequence, 4096);
    assert_eq!(state.generate_id(0), None);
    assert_eq!(state.sequence, 4096);
    assert_eq!(state.time_since_epoch, T);
    let id = state.generate_id(1).unwrap();
    assert_eq!(id, ((T + 1) << 22) | (5 << 12));
    assert_eq!(state.time_since_epoch, T + 1);
    assert_eq!(state.sequence, 1);
    assert_eq!(
        decompose_snowflake(id, 0),
        Ok(SnowflakeDecomposed { timestamp: T + 1, worker_id: 5, sequence: 0 })
    );
}

#[test]
fn clock_regression_keeps_the_current_millisecond() {
    let mut state = SnowflakeState::new(0, 2, Some(T)).unwrap();
    let id1 = state.generate_id(5).unwrap();
    let id2 = state.generate_id(3).unwrap();
    assert_eq!(id1, ((T + 5) << 22) | (2 << 12));
    assert_eq!(id2, id1 + 1);
    assert_eq!(state.time_since_epoch, T + 5);
}

#[test]
fn negative_identifiers_do_not_decompose() {
    for id in [-1i64, i64::MIN, -(T << 22)] {
        assert_eq!(decompose_snowflake(id, 0), Err(SnowflakeDecomposeError::SignBitError));
        assert_eq!(decompose_snowflake(id, 12345), Err(SnowflakeDecomposeError::SignBitError));
    }
    let state = SnowflakeState::new(0, 1, Some(T)).unwrap();
    assert_eq!(state.decompose(-42), Err(SnowflakeDecomposeError::SignBitError));
}

#[test]
fn decompose_reads_each_field() {
    assert_eq!(
        decompose_snowflake(i64::MAX, 10),
        Ok(SnowflakeDecomposed { timestamp: (1 << 41) - 1 + 10, worker_id: 1023, sequence: 4095 })
    );
    assert_eq!(
        decompose_snowflake(0, -5),
        Ok(SnowflakeDecomposed { timestamp: -5, worker_id: 0, sequence: 0 })
    );
    assert_eq!(
        decompose_snowflake((77 << 22) | (300 << 12) | 9, 1000),
        Ok(SnowflakeDecomposed { timestamp: 1077, worker_id: 300, sequence: 9 })
    );
}

#[test]
fn state_decompose_uses_its_epoch() {
    let epoch = 1_288_834_974_657;
    let mut state = SnowflakeState::new(epoch, 42, Some(T)).unwrap();
    let id = state.generate_id(0).unwrap();
    assert_eq!(
        state.decompose(id),
        Ok(SnowflakeDecomposed { timestamp: T, worker_id: 42, sequence: 0 })
    );
}

#[test]
fn timestamp_keeps_low_41_bits() {
    let mut state = SnowflakeState::new(0, 1, Some((1 << 41) + 5)).unwrap();
    let id = state.generate_id(0).unwrap();
    assert_eq!(id, (5 << 22) | (1 << 12));
    assert!(id >= 0);
}

#[test]
fn first_id_keeps_worker_for_every_worker() {
    for worker_id in 0..=1023u16 {
        let epoch = 1_600_000_000_000;
        let mut state = SnowflakeState::new(epoch, worker_id, Some(T)).unwrap();
        let id = state.generate_id(17).unwrap();
        let d = decompose_snowflake(id, epoch).unwrap();
        assert_eq!(d.worker_id, worker_id);
        assert_eq!(d.sequence, 0);
        assert_eq!(d.timestamp, T + 17);
    }
}

#[test]
fn round_trip_with_real_clock() {
    let start = std::time::Instant::now();
    let epoch = 1_288_834_974_657;
    let mut state = SnowflakeState::new(epoch, 9, wall_clock_ms()).unwrap();
    let before = wall_clock_ms().unwrap();
    let id = next_id(&mut state, &start);
    let after = wall_clock_ms().unwrap();
    let d = state.decompose(id).unwrap();
    assert_eq!(d.worker_id, 9);
    assert_eq!(d.sequence, 0);
    assert!(d.timestamp >= before - 1 && d.timestamp <= after + 1);
}

#[test]
fn long_run_ids_strictly_increase() {
    let start = std::time::Instant::now();
    let mut state = SnowflakeState::new(0, 1, wall_clock_ms()).unwrap();
    let mut last = next_id(&mut state, &start);
    for _ in 0..100_000 {
        let id = next_id(&mut state, &start);
        assert!(id > last);
        last = id;
    }
}

#[test]
fn stubbed_run_issues_distinct_ids() {
    let mut state = SnowflakeState::new(0, 3, Some(T)).unwrap();
    let mut ids = Vec::new();
    let mut reading: u64 = 0;
    while ids.len() < 20_000 {
        match state.generate_id(reading) {
            Some(id) => ids.push(id),
            None => reading += 1,
        }
    }
    for w in ids.windows(2) {
        assert!(w[0] < w[1]);
    }
    assert_eq!(reading, 4);
}
