use vstd::prelude::*;

use crate::aggregate::{absorbed, get_imu_msg_and_calibration, reading_of, Aggregator, Reading};
use crate::error::ExtractionError;
use crate::parsing::DataPoint;
use crate::throttle::{report_due, StatusThrottle};
use crate::time::ClockTime;

verus! {

/// What the ingestion loop does after one batch of records: publish a
/// reading, log a calibration status, log a failure; any of them may be absent.
#[derive(Debug, Clone)]
pub struct BatchOutcome<T> {
    pub reading: Option<Reading<T>>,
    pub report: Option<[T; 4]>,
    pub failure: Option<ExtractionError>,
}

/// The state that the ingestion loop of one device keeps between batches:
/// the pending slots and the time of the last status report.
#[derive(Debug, Clone, Copy)]
pub struct Ingestor<T> {
    pub pending: Aggregator<T>,
    pub throttle: StatusThrottle,
}

impl<T: Copy> Ingestor<T> {
    /// Empty slots, and a last status report counted as made at `start`.
    pub fn new(start: ClockTime) -> (r: Ingestor<T>)
        ensures
            r.pending == Aggregator::<T>::empty(),
            r.throttle.last_emitted == start,
    {
        Ingestor { pending: Aggregator::new(), throttle: StatusThrottle::new(start) }
    }

    /// Takes one batch of records with the clock reading made for it. Once
    /// every slot is filled and the clock could be read, the reading is to be
    /// published, and its calibration status logged if a report is due. An
    /// incomplete sample is the steady state and is not reported; a clock
    /// failure is, and the slots are kept for the next batch.
    pub fn finish_batch(&mut self, batch: Vec<DataPoint<T>>, now: Option<ClockTime>) -> (r:
        BatchOutcome<T>)
        ensures
            ({
                let s = absorbed(old(self).pending, batch@);
                if s.is_full() && now is Some {
                    &&& r.reading == Some(reading_of(s, now->0))
                    &&& r.failure is None
                    &&& final(self).pending == Aggregator::<T>::empty()
                    &&& r.report == if report_due(old(self).throttle.last_emitted, now->0) {
                        Some(s.calibration->0)
                    } else {
                        None
                    }
                    &&& final(self).throttle.last_emitted == if r.report is Some {
                        now->0
                    } else {
                        old(self).throttle.last_emitted
                    }
                } else {
                    &&& r.reading is None
                    &&& r.report is None
                    &&& final(self).pending == s
                    &&& final(self).throttle == old(self).throttle
                    &&& r.failure is Some <==> s.is_full()
                    &&& r.failure matches Some(e) ==> e matches ExtractionError::Unknown(m) && m@
                        == "Failed to get current time"@
                }
            }),
    {
        match get_imu_msg_and_calibration(&mut self.pending, batch, now) {
            Ok((reading, calib)) => {
                let t = now.unwrap();
                let due = self.throttle.offer(t);
                let report = if due {
                    Some(calib)
                } else {
                    None
                };
                BatchOutcome { reading: Some(reading), report, failure: None }
            },
            Err(ExtractionError::MissingDataPoint) => BatchOutcome {
                reading: None,
                report: None,
                failure: None,
            },
            Err(e) => BatchOutcome { reading: None, report: None, failure: Some(e) },
        }
    }
}

} // verus!
