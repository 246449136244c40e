use vstd::prelude::*;

use crate::error::ExtractionError;

verus! {

/// A three-component vector (x, y, z).
#[derive(Debug, Clone, Copy, PartialEq)]
pub struct Vector3<T> {
    pub x: T,
    pub y: T,
    pub z: T,
}

/// A quaternion (w, x, y, z), as the device reports it (not normalised here).
#[derive(Debug, Clone, Copy, PartialEq)]
pub struct Quaternion<T> {
    pub w: T,
    pub x: T,
    pub y: T,
    pub z: T,
}

/// One decoded record of the wire protocol, over the numeric type `T`.
#[derive(Debug, Clone, Copy, PartialEq)]
pub enum DataPoint<T> {
    Acceleration(Vector3<T>),
    AngularVelocity(Vector3<T>),
    Orientation(Quaternion<T>),
    CalibrationStatus([T; 4]),
}

/// The kinds of record, one per two-character prefix.
#[derive(Debug, Clone, Copy, PartialEq, Eq, Structural)]
pub enum RecordKind {
    Orientation,
    Acceleration,
    AngularVelocity,
    CalibrationStatus,
}

/// A line cut into its two-character prefix and its comma-separated fields,
/// before the fields are read as numbers.
#[derive(Debug)]
pub struct RawRecord {
    pub prefix: (char, char),
    pub fields: Vec<String>,
}

/// The record kind that a prefix announces: `o:`, `l:`, `a:` or `c:`.
pub open spec fn kind_of_prefix(prefix: (char, char)) -> Option<RecordKind> {
    if prefix.1 != ':' {
        None
    } else if prefix.0 == 'o' {
        Some(RecordKind::Orientation)
    } else if prefix.0 == 'l' {
        Some(RecordKind::Acceleration)
    } else if prefix.0 == 'a' {
        Some(RecordKind::AngularVelocity)
    } else if prefix.0 == 'c' {
        Some(RecordKind::CalibrationStatus)
    } else {
        None
    }
}

impl RecordKind {
    /// How many numeric fields a record of this kind carries.
    pub open spec fn field_count(self) -> nat {
        match self {
            RecordKind::Orientation => 4,
            RecordKind::Acceleration => 3,
            RecordKind::AngularVelocity => 3,
            RecordKind::CalibrationStatus => 4,
        }
    }

    pub fn arity(&self) -> (r: usize)
        ensures
            r as nat == self.field_count(),
    {
        match self {
            RecordKind::Orientation => 4,
            RecordKind::Acceleration => 3,
            RecordKind::AngularVelocity => 3,
            RecordKind::CalibrationStatus => 4,
        }
    }

    /// The kind announced by a two-character prefix, if any.
    pub fn from_prefix(prefix: (char, char)) -> (r: Option<RecordKind>)
        ensures
            r == kind_of_prefix(prefix),
    {
        if prefix.1 != ':' {
            None
        } else if prefix.0 == 'o' {
            Some(RecordKind::Orientation)
        } else if prefix.0 == 'l' {
            Some(RecordKind::Acceleration)
        } else if prefix.0 == 'a' {
            Some(RecordKind::AngularVelocity)
        } else if prefix.0 == 'c' {
            Some(RecordKind::CalibrationStatus)
        } else {
            None
        }
    }
}

/// The pieces of `s` between commas, as `str::split(',')` gives them: a text
/// with `n` commas has `n + 1` pieces, some of them possibly empty.
pub open spec fn split_commas(s: Seq<char>) -> Seq<Seq<char>>
    decreases s.len(),
{
    if s.len() == 0 {
        seq![Seq::<char>::empty()]
    } else {
        let prev = split_commas(s.drop_last());
        if s.last() == ',' {
            prev.push(Seq::<char>::empty())
        } else {
            prev.update(prev.len() - 1, prev.last().push(s.last()))
        }
    }
}

/// The fields of a line: what follows its two-character prefix, cut at commas.
pub open spec fn fields_of(line: Seq<char>) -> Seq<Seq<char>> {
    split_commas(line.subrange(2, line.len() as int))
}

/// Whether every field was read as a number.
pub open spec fn all_parsed<T>(values: Seq<Option<T>>) -> bool {
    forall|i: int| 0 <= i < values.len() ==> (#[trigger] values[i]) is Some
}

/// The numbers read from the fields, in order.
pub open spec fn parsed_values<T>(values: Seq<Option<T>>) -> Seq<T> {
    values.map_values(|v: Option<T>| v->0)
}

/// Whether the prefix names a kind that carries exactly `n` fields.
pub open spec fn prefix_fits(prefix: (char, char), n: int) -> bool {
    kind_of_prefix(prefix) matches Some(k) && k.field_count() == n
}

/// Whether `dp` is the record of kind `kind` whose components are `v`, in
/// the order of the wire format.
pub open spec fn holds_values<T>(dp: DataPoint<T>, kind: RecordKind, v: Seq<T>) -> bool {
    match dp {
        DataPoint::Orientation(q) => kind == RecordKind::Orientation && v.len() == 4 && q.w
            == v[0] && q.x == v[1] && q.y == v[2] && q.z == v[3],
        DataPoint::Acceleration(a) => kind == RecordKind::Acceleration && v.len() == 3 && a.x
            == v[0] && a.y == v[1] && a.z == v[2],
        DataPoint::AngularVelocity(a) => kind == RecordKind::AngularVelocity && v.len() == 3
            && a.x == v[0] && a.y == v[1] && a.z == v[2],
        DataPoint::CalibrationStatus(c) => kind == RecordKind::CalibrationStatus && c@ == v,
    }
}

/// What the numbers read from a line's fields make under its prefix: the
/// kind and the components, or the reason the line is refused. A field that
/// is not a number is a parse failure, whatever the prefix; otherwise a
/// prefix that is not known, or a field count that does not match it, is an
/// unknown-type failure.
pub open spec fn decoded<T>(prefix: (char, char), values: Seq<Option<T>>) -> Result<
    (RecordKind, Seq<T>),
    ExtractionError,
> {
    if !all_parsed(values) {
        Err(ExtractionError::ParseError)
    } else if !prefix_fits(prefix, values.len() as int) {
        Err(ExtractionError::UnknownType)
    } else {
        Ok((kind_of_prefix(prefix)->0, parsed_values(values)))
    }
}

impl RawRecord {
    pub open spec fn fields_view(&self) -> Seq<Seq<char>> {
        self.fields@.map_values(|f: String| f@)
    }
}

impl<T> DataPoint<T> {
    /// The kind of this record.
    pub open spec fn kind(self) -> RecordKind {
        match self {
            DataPoint::Orientation(_) => RecordKind::Orientation,
            DataPoint::Acceleration(_) => RecordKind::Acceleration,
            DataPoint::AngularVelocity(_) => RecordKind::AngularVelocity,
            DataPoint::CalibrationStatus(_) => RecordKind::CalibrationStatus,
        }
    }
}

/// Cuts a line into its two-character prefix and its comma-separated fields.
/// A line of fewer than two characters has no prefix and is refused.
pub fn split_record(line: &str) -> (r: Result<RawRecord, ExtractionError>)
    ensures
        line@.len() < 2 <==> r is Err,
        r is Err ==> r == Err::<RawRecord, ExtractionError>(ExtractionError::TooSmall),
        r matches Ok(rec) ==> rec.prefix == (line@[0], line@[1]) && rec.fields_view()
            == fields_of(line@),
{
    let n = line.unicode_len();
    if n < 2 {
        return Err(ExtractionError::TooSmall);
    }
    let prefix = (line.get_char(0), line.get_char(1));
    let ghost body = line@.subrange(2, n as int);
    let mut fields: Vec<String> = Vec::new();
    let mut start: usize = 2;
    let mut i: usize = 2;
    assert(line@.subrange(2, 2) =~= Seq::<char>::empty());
    assert(fields@.map_values(|f: String| f@).push(line@.subrange(2, 2)) =~= split_commas(
        line@.subrange(2, 2),
    ));
    while i < n
        invariant
            2 <= start <= i <= n,
            n == line@.len(),
            fields@.map_values(|f: String| f@).push(line@.subrange(start as int, i as int))
                == split_commas(line@.subrange(2, i as int)),
        decreases n - i,
    {
        let c = line.get_char(i);
        let ghost before = fields@.map_values(|f: String| f@);
        let ghost piece = line@.subrange(start as int, i as int);
        assert(line@.subrange(2, i + 1).drop_last() =~= line@.subrange(2, i as int));
        if c == ',' {
            let f = String::from_str(line.substring_char(start, i));
            fields.push(f);
            start = i + 1;
            assert(fields@.map_values(|f: String| f@) =~= before.push(piece));
            assert(line@.subrange(start as int, i + 1) =~= Seq::<char>::empty());
        } else {
            assert(line@.subrange(start as int, i + 1) =~= piece.push(c));
            assert(before.push(piece).update(before.len() as int, piece.push(c)) =~= before.push(
                piece.push(c),
            ));
        }
        i = i + 1;
    }
    let last = String::from_str(line.substring_char(start, n));
    let ghost before = fields@.map_values(|f: String| f@);
    fields.push(last);
    assert(fields@.map_values(|f: String| f@) =~= before.push(line@.subrange(start as int, n as int)));
    Ok(RawRecord { prefix, fields })
}

impl<T: Copy> DataPoint<T> {
    /// Builds the record that a prefix announces from the numbers read from
    /// its fields (`None` where a field is not a number). A field that is not
    /// a number makes a parse failure; otherwise an unknown prefix, or a field
    /// count that does not match the prefix, makes an unknown-type failure.
    pub fn from_fields(prefix: (char, char), values: &Vec<Option<T>>) -> (r: Result<
        DataPoint<T>,
        ExtractionError,
    >)
        ensures
            match decoded(prefix, values@) {
                Ok((kind, v)) => r matches Ok(dp) && holds_values(dp, kind, v),
                Err(e) => r == Err::<DataPoint<T>, ExtractionError>(e),
            },
    {
        let mut i: usize = 0;
        while i < values.len()
            invariant
                i <= values@.len(),
                forall|j: int| 0 <= j < i ==> (#[trigger] values@[j]) is Some,
            decreases values@.len() - i,
        {
            if values[i].is_none() {
                return Err(ExtractionError::ParseError);
            }
            i = i + 1;
        }
        let kind = match RecordKind::from_prefix(prefix) {
            Some(k) => k,
            None => return Err(ExtractionError::UnknownType),
        };
        if values.len() != kind.arity() {
            return Err(ExtractionError::UnknownType);
        }
        let ghost v = parsed_values(values@);
        match kind {
            RecordKind::Orientation => Ok(
                DataPoint::Orientation(
                    Quaternion {
                        w: values[0].unwrap(),
                        x: values[1].unwrap(),
                        y: values[2].unwrap(),
                        z: values[3].unwrap(),
                    },
                ),
            ),
            RecordKind::Acceleration => Ok(
                DataPoint::Acceleration(
                    Vector3 { x: values[0].unwrap(), y: values[1].unwrap(), z: values[2].unwrap() },
                ),
            ),
            RecordKind::AngularVelocity => Ok(
                DataPoint::AngularVelocity(
                    Vector3 { x: values[0].unwrap(), y: values[1].unwrap(), z: values[2].unwrap() },
                ),
            ),
            RecordKind::CalibrationStatus => {
                let c = [
                    values[0].unwrap(),
                    values[1].unwrap(),
                    values[2].unwrap(),
                    values[3].unwrap(),
                ];
                assert(c@ =~= v);
                Ok(DataPoint::CalibrationStatus(c))
            },
        }
    }
}

/// A line with a known prefix and as many fields as it asks for, each a
/// number, decodes to the kind the prefix names, with the numbers in the
/// order they stand on the line.
pub proof fn lemma_valid_line_decodes<T>(line: Seq<char>, values: Seq<Option<T>>)
    requires
        line.len() >= 2,
        values.len() == fields_of(line).len(),
        prefix_fits((line[0], line[1]), values.len() as int),
        all_parsed(values),
    ensures
        decoded((line[0], line[1]), values) matches Ok((kind, v)) && kind_of_prefix(
            (line[0], line[1]),
        ) == Some(kind) && v.len() == kind.field_count() && forall|i: int|
            0 <= i < v.len() ==> values[i] == Some(#[trigger] v[i]),
{
}

/// A line whose prefix is not known, and whose fields are all numbers, is
/// refused as of unknown type, never as a parse failure.
pub proof fn lemma_unknown_prefix<T>(prefix: (char, char), values: Seq<Option<T>>)
    requires
        kind_of_prefix(prefix) is None,
        all_parsed(values),
    ensures
        decoded(prefix, values) == Err::<(RecordKind, Seq<T>), ExtractionError>(
            ExtractionError::UnknownType,
        ),
{
}

/// A line with a field that is not a number is refused as a parse failure.
pub proof fn lemma_bad_field<T>(prefix: (char, char), values: Seq<Option<T>>, i: int)
    requires
        0 <= i < values.len(),
        values[i] is None,
    ensures
        decoded(prefix, values) == Err::<(RecordKind, Seq<T>), ExtractionError>(
            ExtractionError::ParseError,
        ),
{
}

} // verus!
