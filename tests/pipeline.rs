use imu_stream::aggregate::{get_imu_msg_and_calibration, Aggregator, Reading};
use imu_stream::error::ExtractionError;
use imu_stream::framer::LineFramer;
use imu_stream::ingest::Ingestor;
use imu_stream::parsing::{split_record, DataPoint, Quaternion, Vector3};
use imu_stream::throttle::StatusThrottle;
use imu_stream::time::{ClockTime, Stamp};

fn parse_line(line: &str) -> Result<DataPoint<f64>, ExtractionError> {
    let record = split_record(line)?;
    let values: Vec<Option<f64>> = record.fields.iter().map(|f| f.parse::<f64>().ok()).collect();
    DataPoint::from_fields(record.prefix, &values)
}

fn batch_of(framer: &mut LineFramer, chunk: &[u8]) -> Vec<DataPoint<f64>> {
    framer.push(chunk);
    let mut batch = Vec::new();
    while let Some(line) = framer.next_line() {
        if let Ok(dp) = line.and_then(|l| parse_line(&l)) {
            batch.push(dp);
        }
    }
    batch
}

fn orientation(w: f64) -> DataPoint<f64> {
    DataPoint::Orientation(Quaternion { w, x: 0.0, y: 0.0, z: 0.0 })
}

fn acceleration(z: f64) -> DataPoint<f64> {
    DataPoint::Acceleration(Vector3 { x: 0.0, y: 0.0, z })
}

fn angular(x: f64) -> DataPoint<f64> {
    DataPoint::AngularVelocity(Vector3 { x, y: 0.0, z: 0.0 })
}

fn calibration(c: f64) -> DataPoint<f64> {
    DataPoint::CalibrationStatus([c, c, c, c])
}

const NOW: Option<ClockTime> = Some(ClockTime { secs: 100, nanos: 5 });

#[test]
fn end_to_end_two_chunks_then_partial_update() {
    let mut framer = LineFramer::new();
    let mut pending: Aggregator<f64> = Aggregator::new();

    let first = batch_of(&mut framer, b"o:1,0,0,0\nl:0,0,9.8\na:0,");
    assert_eq!(first.len(), 2);
    let r = get_imu_msg_and_calibration(&mut pending, first, NOW);
    assert_eq!(r, Err(ExtractionError::MissingDataPoint));

    let second = batch_of(&mut framer, b"0,0\nc:1,1,1,0\n");
    assert_eq!(second.len(), 2);
    let (reading, calib) = get_imu_msg_and_calibration(&mut pending, second, NOW).unwrap();
    assert_eq!(
        reading,
        Reading {
            stamp: Stamp { sec: 100, nanosec: 5 },
            orientation: Quaternion { w: 1.0, x: 0.0, y: 0.0, z: 0.0 },
            angular_velocity: Vector3 { x: 0.0, y: 0.0, z: 0.0 },
            linear_acceleration: Vector3 { x: 0.0, y: 0.0, z: 9.8 },
        }
    );
    assert_eq!(calib, [1.0, 1.0, 1.0, 0.0]);

    let third = batch_of(&mut framer, b"c:0,0,0,0\n");
    let r = get_imu_msg_and_calibration(&mut pending, third, NOW);
    assert_eq!(r, Err(ExtractionError::MissingDataPoint));

    let fourth = batch_of(&mut framer, b"o:1,0,0,0\nl:0,0,9.8\n");
    let r = get_imu_msg_and_calibration(&mut pending, fourth, NOW);
    assert_eq!(r, Err(ExtractionError::MissingDataPoint));

    let fifth = batch_of(&mut framer, b"a:0,0,0\n");
    let (_, calib) = get_imu_msg_and_calibration(&mut pending, fifth, NOW).unwrap();
    assert_eq!(calib, [0.0, 0.0, 0.0, 0.0]);
}

#[test]
fn second_orientation_wins() {
    let mut pending: Aggregator<f64> = Aggregator::new();
    let r = get_imu_msg_and_calibration(&mut pending, vec![orientation(1.0), orientation(2.0)], NOW);
    assert_eq!(r, Err(ExtractionError::MissingDataPoint));
    let (reading, _) = get_imu_msg_and_calibration(
        &mut pending,
        vec![acceleration(9.8), angular(0.5), calibration(3.0)],
        NOW,
    )
    .unwrap();
    assert_eq!(reading.orientation, Quaternion { w: 2.0, x: 0.0, y: 0.0, z: 0.0 });
}

#[test]
fn last_of_a_kind_wins_within_one_batch() {
    let mut pending: Aggregator<f64> = Aggregator::new();
    let (reading, calib) = get_imu_msg_and_calibration(
        &mut pending,
        vec![calibration(1.0), acceleration(1.0), orientation(1.0), angular(1.0), acceleration(2.0), calibration(2.0)],
        NOW,
    )
    .unwrap();
    assert_eq!(reading.linear_acceleration.z, 2.0);
    assert_eq!(calib, [2.0, 2.0, 2.0, 2.0]);
}

#[test]
fn reading_only_when_every_kind_arrived() {
    let mut pending: Aggregator<f64> = Aggregator::new();
    for dp in [angular(1.0), calibration(1.0), acceleration(1.0)] {
        let r = get_imu_msg_and_calibration(&mut pending, vec![dp], NOW);
        assert_eq!(r, Err(ExtractionError::MissingDataPoint));
    }
    assert!(!pending.is_complete());
    assert!(get_imu_msg_and_calibration(&mut pending, vec![orientation(1.0)], NOW).is_ok());
    assert!(!pending.is_complete());
    assert_eq!(pending.orientation, None);
    let r = get_imu_msg_and_calibration(&mut pending, vec![], NOW);
    assert_eq!(r, Err(ExtractionError::MissingDataPoint));
}

#[test]
fn clock_failure_keeps_slots() {
    let mut pending: Aggregator<f64> = Aggregator::new();
    let all = vec![orientation(1.0), acceleration(1.0), angular(1.0), calibration(1.0)];
    let r = get_imu_msg_and_calibration(&mut pending, all, None);
    assert_eq!(r, Err(ExtractionError::Unknown("Failed to get current time".to_string())));
    assert!(pending.is_complete());
    let (reading, _) = get_imu_msg_and_calibration(&mut pending, vec![], NOW).unwrap();
    assert_eq!(reading.orientation.w, 1.0);
    assert!(!pending.is_complete());
}

#[test]
fn absorb_and_place() {
    let mut pending: Aggregator<u64> = Aggregator::new();
    pending.place(DataPoint::Orientation(Quaternion { w: 1, x: 2, y: 3, z: 4 }));
    assert_eq!(pending.orientation, Some(Quaternion { w: 1, x: 2, y: 3, z: 4 }));
    pending.absorb(vec![
        DataPoint::Acceleration(Vector3 { x: 1, y: 1, z: 1 }),
        DataPoint::AngularVelocity(Vector3 { x: 2, y: 2, z: 2 }),
    ]);
    assert!(!pending.is_complete());
    pending.absorb(vec![DataPoint::CalibrationStatus([0, 1, 2, 3])]);
    assert!(pending.is_complete());
}

#[test]
fn stamp_takes_seconds_and_nanoseconds() {
    let t = ClockTime::new(1_700_000_000, 123_456_789);
    assert_eq!(t.to_stamp(), Stamp { sec: 1_700_000_000, nanosec: 123_456_789 });
    assert_eq!(t.as_nanos(), 1_700_000_000_123_456_789u128);
    let wide = ClockTime::new((1u64 << 32) + 7, 0);
    assert_eq!(wide.to_stamp().sec, 7);
}

fn at(offset_ms: u64) -> ClockTime {
    let base: u64 = 1_000_000;
    ClockTime::new(base + offset_ms / 1000, ((offset_ms % 1000) * 1_000_000) as u32)
}

#[test]
fn throttle_reports_once_per_second() {
    let mut throttle = StatusThrottle::new(ClockTime::new(0, 0));
    let emitted: Vec<bool> = [0u64, 500, 1000, 1100].iter().map(|ms| throttle.offer(at(*ms))).collect();
    assert_eq!(emitted, vec![true, false, true, false]);
    assert_eq!(throttle.last_emitted, at(1000));
}

#[test]
fn throttle_waits_a_full_second_after_start() {
    let mut throttle = StatusThrottle::new(at(0));
    assert!(!throttle.offer(at(0)));
    assert!(!throttle.offer(at(999)));
    assert!(throttle.offer(at(1000)));
    assert!(!throttle.offer(at(1999)));
    assert!(throttle.offer(at(2100)));
}

#[test]
fn throttle_ignores_clock_going_back() {
    let mut throttle = StatusThrottle::new(at(5000));
    assert!(!throttle.offer(at(1000)));
    assert_eq!(throttle.last_emitted, at(5000));
    assert!(throttle.offer(at(6000)));
}

#[test]
fn ingestor_publishes_and_reports_when_due() {
    let mut state: Ingestor<f64> = Ingestor::new(at(0));
    let out = state.finish_batch(vec![orientation(1.0), acceleration(9.8)], Some(at(300)));
    assert_eq!(out.reading, None);
    assert_eq!(out.report, None);
    assert_eq!(out.failure, None);

    let out = state.finish_batch(vec![angular(0.0), calibration(2.0)], Some(at(600)));
    assert_eq!(out.reading.unwrap().linear_acceleration.z, 9.8);
    assert_eq!(out.report, None);
    assert_eq!(out.failure, None);

    let all = vec![orientation(1.0), acceleration(1.0), angular(1.0), calibration(3.0)];
    let out = state.finish_batch(all.clone(), Some(at(1000)));
    assert!(out.reading.is_some());
    assert_eq!(out.report, Some([3.0, 3.0, 3.0, 3.0]));
    assert_eq!(state.throttle.last_emitted, at(1000));

    let out = state.finish_batch(all, None);
    assert_eq!(out.reading, None);
    assert_eq!(out.report, None);
    assert_eq!(out.failure, Some(ExtractionError::Unknown("Failed to get current time".to_string())));
    let out = state.finish_batch(vec![], Some(at(2500)));
    assert_eq!(out.reading.unwrap().stamp, Stamp { sec: 1_000_002, nanosec: 500_000_000 });
    assert_eq!(out.report, Some([3.0, 3.0, 3.0, 3.0]));
}
