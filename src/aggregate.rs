use vstd::prelude::*;

use crate::error::ExtractionError;
use crate::parsing::{DataPoint, Quaternion, RecordKind, Vector3};
use crate::time::{ClockTime, Stamp};

verus! {

/// A complete inertial reading, assembled from one record of each kind.
#[derive(Debug, Clone, Copy, PartialEq)]
pub struct Reading<T> {
    pub stamp: Stamp,
    pub orientation: Quaternion<T>,
    pub angular_velocity: Vector3<T>,
    pub linear_acceleration: Vector3<T>,
}

/// The records gathered since the last complete reading: one slot per kind,
/// each holding the latest record of its kind.
#[derive(Debug, Clone, Copy)]
pub struct Aggregator<T> {
    pub orientation: Option<Quaternion<T>>,
    pub acceleration: Option<Vector3<T>>,
    pub angular_velocity: Option<Vector3<T>>,
    pub calibration: Option<[T; 4]>,
}

impl<T> Aggregator<T> {
    /// No slot filled.
    pub open spec fn empty() -> Aggregator<T> {
        Aggregator { orientation: None, acceleration: None, angular_velocity: None, calibration: None }
    }

    /// Every slot filled.
    pub open spec fn is_full(self) -> bool {
        &&& self.orientation is Some
        &&& self.acceleration is Some
        &&& self.angular_velocity is Some
        &&& self.calibration is Some
    }

    /// Whether the slot of the given kind is filled.
    pub open spec fn has_kind(self, kind: RecordKind) -> bool {
        match kind {
            RecordKind::Orientation => self.orientation is Some,
            RecordKind::Acceleration => self.acceleration is Some,
            RecordKind::AngularVelocity => self.angular_velocity is Some,
            RecordKind::CalibrationStatus => self.calibration is Some,
        }
    }
}

/// The slots after `dp` is put in its own, replacing what was there.
pub open spec fn placed<T>(s: Aggregator<T>, dp: DataPoint<T>) -> Aggregator<T> {
    match dp {
        DataPoint::Orientation(q) => Aggregator { orientation: Some(q), ..s },
        DataPoint::Acceleration(a) => Aggregator { acceleration: Some(a), ..s },
        DataPoint::AngularVelocity(a) => Aggregator { angular_velocity: Some(a), ..s },
        DataPoint::CalibrationStatus(c) => Aggregator { calibration: Some(c), ..s },
    }
}

/// The slots after each record of `batch` is placed in turn.
pub open spec fn absorbed<T>(s: Aggregator<T>, batch: Seq<DataPoint<T>>) -> Aggregator<T>
    decreases batch.len(),
{
    if batch.len() == 0 {
        s
    } else {
        placed(absorbed(s, batch.drop_last()), batch.last())
    }
}

/// The reading that full slots make, stamped with `now`.
pub open spec fn reading_of<T>(s: Aggregator<T>, now: ClockTime) -> Reading<T> {
    Reading {
        stamp: Stamp { sec: now.secs as i32, nanosec: now.nanos },
        orientation: s.orientation->0,
        angular_velocity: s.angular_velocity->0,
        linear_acceleration: s.acceleration->0,
    }
}

impl<T: Copy> Aggregator<T> {
    /// An aggregator with every slot empty.
    pub fn new() -> (r: Aggregator<T>)
        ensures
            r == Aggregator::<T>::empty(),
    {
        Aggregator { orientation: None, acceleration: None, angular_velocity: None, calibration: None }
    }

    /// Puts one record in the slot of its kind, replacing what was there.
    pub fn place(&mut self, dp: DataPoint<T>)
        ensures
            *final(self) == placed(*old(self), dp),
    {
        match dp {
            DataPoint::Orientation(q) => self.orientation = Some(q),
            DataPoint::Acceleration(a) => self.acceleration = Some(a),
            DataPoint::AngularVelocity(a) => self.angular_velocity = Some(a),
            DataPoint::CalibrationStatus(c) => self.calibration = Some(c),
        }
    }

    /// Places every record of a batch in order: the last record of each kind wins.
    pub fn absorb(&mut self, batch: Vec<DataPoint<T>>)
        ensures
            *final(self) == absorbed(*old(self), batch@),
    {
        let mut i: usize = 0;
        while i < batch.len()
            invariant
                i <= batch@.len(),
                *self == absorbed(*old(self), batch@.subrange(0, i as int)),
            decreases batch@.len() - i,
        {
            assert(batch@.subrange(0, i + 1).drop_last() =~= batch@.subrange(0, i as int));
            self.place(batch[i]);
            i = i + 1;
        }
        assert(batch@.subrange(0, i as int) =~= batch@);
    }

    /// Whether every slot is filled.
    pub fn is_complete(&self) -> (r: bool)
        ensures
            r == self.is_full(),
    {
        self.orientation.is_some() && self.acceleration.is_some()
            && self.angular_velocity.is_some() && self.calibration.is_some()
    }
}

/// Adds a batch of records to the pending slots and, once every slot is
/// filled, assembles a reading stamped with `now` and empties the slots.
/// The reading comes with the calibration status it was assembled with.
/// While a slot is empty the slots are kept for the next batch and the result
/// is `MissingDataPoint`; when the clock could not be read (`now` is `None`)
/// the full slots are kept too, and the failure is reported.
pub fn get_imu_msg_and_calibration<T: Copy>(
    pending: &mut Aggregator<T>,
    datapoints: Vec<DataPoint<T>>,
    now: Option<ClockTime>,
) -> (r: Result<(Reading<T>, [T; 4]), ExtractionError>)
    ensures
        r is Ok <==> absorbed(*old(pending), datapoints@).is_full() && now is Some,
        r matches Ok(out) ==> out == (
            reading_of(absorbed(*old(pending), datapoints@), now->0),
            absorbed(*old(pending), datapoints@).calibration->0,
        ) && *final(pending) == Aggregator::<T>::empty(),
        !absorbed(*old(pending), datapoints@).is_full() ==> r == Err::<
            (Reading<T>, [T; 4]),
            ExtractionError,
        >(ExtractionError::MissingDataPoint),
        absorbed(*old(pending), datapoints@).is_full() && now is None ==> (r matches Err(
            ExtractionError::Unknown(m),
        ) && m@ == "Failed to get current time"@),
        r is Err ==> *final(pending) == absorbed(*old(pending), datapoints@),
{
    pending.absorb(datapoints);
    if !pending.is_complete() {
        return Err(ExtractionError::MissingDataPoint);
    }
    let t = match now {
        Some(t) => t,
        None => {
            return Err(ExtractionError::Unknown(String::from_str("Failed to get current time")));
        },
    };
    let reading = Reading {
        stamp: t.to_stamp(),
        orientation: pending.orientation.unwrap(),
        angular_velocity: pending.angular_velocity.unwrap(),
        linear_acceleration: pending.acceleration.unwrap(),
    };
    let calibration = pending.calibration.unwrap();
    *pending = Aggregator::new();
    Ok((reading, calibration))
}

/// Whether the batch holds a record of kind `k`.
pub open spec fn batch_has_kind<T>(b: Seq<DataPoint<T>>, k: RecordKind) -> bool {
    exists|i: int| 0 <= i < b.len() && (#[trigger] b[i]).kind() == k
}

/// Feeding two batches one after the other fills the slots as feeding their
/// concatenation at once: how the records are cut into batches does not matter.
pub proof fn lemma_batches_compose<T>(s: Aggregator<T>, a: Seq<DataPoint<T>>, b: Seq<DataPoint<T>>)
    ensures
        absorbed(absorbed(s, a), b) == absorbed(s, a + b),
    decreases b.len(),
{
    if b.len() == 0 {
        assert(a + b =~= a);
    } else {
        lemma_batches_compose(s, a, b.drop_last());
        assert((a + b).drop_last() =~= a + b.drop_last());
    }
}

/// After a batch, the slot of a kind is filled exactly when it was filled
/// before or the batch holds a record of that kind.
pub proof fn lemma_slot_filled<T>(s: Aggregator<T>, b: Seq<DataPoint<T>>, k: RecordKind)
    ensures
        absorbed(s, b).has_kind(k) <==> s.has_kind(k) || batch_has_kind(b, k),
    decreases b.len(),
{
    if b.len() > 0 {
        let d = b.drop_last();
        lemma_slot_filled(s, d, k);
        if exists|i: int| 0 <= i < d.len() && (#[trigger] d[i]).kind() == k {
            let i = choose|i: int| 0 <= i < d.len() && (#[trigger] d[i]).kind() == k;
            assert(b[i] == d[i]);
        }
        if exists|i: int| 0 <= i < b.len() && (#[trigger] b[i]).kind() == k {
            let i = choose|i: int| 0 <= i < b.len() && (#[trigger] b[i]).kind() == k;
            if i < d.len() {
                assert(d[i] == b[i]);
            }
        }
    }
}

/// Starting from empty slots, a reading can be made exactly when every kind
/// of record has arrived at least once, in whatever order.
pub proof fn lemma_complete_iff_every_kind<T>(b: Seq<DataPoint<T>>)
    ensures
        absorbed(Aggregator::<T>::empty(), b).is_full() <==> forall|k: RecordKind|
            #[trigger] batch_has_kind(b, k),
{
    let e = Aggregator::<T>::empty();
    lemma_slot_filled(e, b, RecordKind::Orientation);
    lemma_slot_filled(e, b, RecordKind::Acceleration);
    lemma_slot_filled(e, b, RecordKind::AngularVelocity);
    lemma_slot_filled(e, b, RecordKind::CalibrationStatus);
    if absorbed(e, b).is_full() {
        assert forall|k: RecordKind| #[trigger] batch_has_kind(b, k) by {
            match k {
                RecordKind::Orientation => {},
                RecordKind::Acceleration => {},
                RecordKind::AngularVelocity => {},
                RecordKind::CalibrationStatus => {},
            }
        }
    }
}

/// The orientation slot holds the last orientation of a batch, whatever
/// came before it.
pub proof fn lemma_last_orientation_wins<T>(
    s: Aggregator<T>,
    b: Seq<DataPoint<T>>,
    i: int,
    q: Quaternion<T>,
)
    requires
        0 <= i < b.len(),
        b[i] == DataPoint::Orientation(q),
        forall|j: int| i < j < b.len() ==> !((#[trigger] b[j]) is Orientation),
    ensures
        absorbed(s, b).orientation == Some(q),
    decreases b.len(),
{
    if i < b.len() - 1 {
        let d = b.drop_last();
        assert(d[i] == b[i]);
        assert forall|j: int| i < j < d.len() implies !((#[trigger] d[j]) is Orientation) by {
            assert(d[j] == b[j]);
        }
        lemma_last_orientation_wins(s, d, i, q);
        assert(!(b[b.len() - 1] is Orientation));
    }
}

/// Two orientations fed before the other kinds: the reading that the other
/// three kinds then complete carries the second orientation only.
pub proof fn lemma_second_orientation_kept<T>(
    q1: Quaternion<T>,
    q2: Quaternion<T>,
    rest: Seq<DataPoint<T>>,
    now: ClockTime,
)
    requires
        forall|j: int| 0 <= j < rest.len() ==> !((#[trigger] rest[j]) is Orientation),
    ensures
        absorbed(
            Aggregator::<T>::empty(),
            seq![DataPoint::Orientation(q1), DataPoint::Orientation(q2)] + rest,
        ).orientation == Some(q2),
        reading_of(
            absorbed(
                Aggregator::<T>::empty(),
                seq![DataPoint::Orientation(q1), DataPoint::Orientation(q2)] + rest,
            ),
            now,
        ).orientation == q2,
{
    let b = seq![DataPoint::Orientation(q1), DataPoint::Orientation(q2)] + rest;
    assert forall|j: int| 1 < j < b.len() implies !((#[trigger] b[j]) is Orientation) by {
        assert(b[j] == rest[j - 2]);
    }
    lemma_last_orientation_wins(Aggregator::<T>::empty(), b, 1, q2);
}

} // verus!
