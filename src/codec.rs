use vstd::prelude::*;
use vstd::slice::slice_subrange;
use crate::row::{DataTypeKind, Datum, Row, ScalarImpl};

verus! {

#[verifier::external_type_specification]
#[verifier::external_body]
pub struct ExMemcomparableError(memcomparable::Error);

/// Why bytes could not be read back as a row.
#[derive(Clone, Copy, Debug, PartialEq, Eq, Structural)]
pub enum CodecError {
    /// The bytes ended before the row did.
    Eof,
    /// A null tag other than 0 or 1.
    InvalidTag(u8),
    /// A boolean byte other than 0 or 1.
    InvalidBool(u8),
}

/// `x` as `w` big-endian bytes (the low `8 * w` bits).
pub open spec fn be_bytes(x: nat, w: nat) -> Seq<u8>
    decreases w,
{
    if w == 0 {
        Seq::empty()
    } else {
        be_bytes(x / 256, (w - 1) as nat).push((x % 256) as u8)
    }
}

/// The number that big-endian bytes spell.
pub open spec fn be_value(b: Seq<u8>) -> nat
    decreases b.len(),
{
    if b.len() == 0 {
        0
    } else {
        be_value(b.drop_last()) * 256 + b.last() as nat
    }
}

/// The order-preserving bytes of a scalar: a boolean as one byte, a signed
/// integer offset by half its range, big-endian.
pub open spec fn scalar_bytes(s: ScalarImpl) -> Seq<u8> {
    match s {
        ScalarImpl::Bool(b) => seq![if b { 1u8 } else { 0u8 }],
        ScalarImpl::Int16(v) => be_bytes((v + 0x8000) as nat, 2),
        ScalarImpl::Int32(v) => be_bytes((v + 0x8000_0000) as nat, 4),
        ScalarImpl::Int64(v) => be_bytes((v + 0x8000_0000_0000_0000int) as nat, 8),
    }
}

/// A nullable value: a tag byte, 0 for null, 1 followed by the scalar.
pub open spec fn datum_bytes(d: Datum) -> Seq<u8> {
    match d {
        None => seq![0u8],
        Some(s) => seq![1u8] + scalar_bytes(s),
    }
}

pub open spec fn row_bytes(values: Seq<Datum>) -> Seq<u8>
    decreases values.len(),
{
    if values.len() == 0 {
        Seq::empty()
    } else {
        row_bytes(values.drop_last()) + datum_bytes(values.last())
    }
}

pub open spec fn row_bytes_not_null(values: Seq<Datum>) -> Seq<u8>
    decreases values.len(),
{
    if values.len() == 0 {
        Seq::empty()
    } else {
        row_bytes_not_null(values.drop_last()) + scalar_bytes(values.last()->0)
    }
}

/// How many bytes a scalar of type `t` takes.
pub open spec fn width(t: DataTypeKind) -> nat {
    match t {
        DataTypeKind::Boolean => 1,
        DataTypeKind::Int16 => 2,
        DataTypeKind::Int32 => 4,
        DataTypeKind::Int64 => 8,
    }
}

/// The scalar of type `t` that `width(t)` bytes spell; `None` for a boolean
/// byte other than 0 or 1.
pub open spec fn scalar_of(t: DataTypeKind, b: Seq<u8>) -> Option<ScalarImpl> {
    match t {
        DataTypeKind::Boolean => if b[0] == 0 {
            Some(ScalarImpl::Bool(false))
        } else if b[0] == 1 {
            Some(ScalarImpl::Bool(true))
        } else {
            None
        },
        DataTypeKind::Int16 => Some(ScalarImpl::Int16((be_value(b) - 0x8000) as i16)),
        DataTypeKind::Int32 => Some(ScalarImpl::Int32((be_value(b) - 0x8000_0000) as i32)),
        DataTypeKind::Int64 => Some(ScalarImpl::Int64((be_value(b) - 0x8000_0000_0000_0000int) as i64)),
    }
}

pub open spec fn prepend(d: Datum, r: Result<Seq<Datum>, CodecError>) -> Result<Seq<Datum>, CodecError> {
    match r {
        Ok(rest) => Ok(seq![d] + rest),
        Err(e) => Err(e),
    }
}

/// Reads values of the types in `schema` from `data`, starting at `pos`;
/// bytes after the last value are ignored.
pub open spec fn decode_from(schema: Seq<DataTypeKind>, data: Seq<u8>, pos: nat, nullable: bool) -> Result<Seq<Datum>, CodecError>
    decreases schema.len(),
{
    if schema.len() == 0 {
        Ok(Seq::empty())
    } else if nullable && pos >= data.len() {
        Err(CodecError::Eof)
    } else if nullable && data[pos as int] == 0 {
        prepend(None, decode_from(schema.drop_first(), data, pos + 1, nullable))
    } else if nullable && data[pos as int] != 1 {
        Err(CodecError::InvalidTag(data[pos as int]))
    } else {
        let start = if nullable { pos + 1 } else { pos };
        let w = width(schema[0]);
        if start + w > data.len() {
            Err(CodecError::Eof)
        } else {
            match scalar_of(schema[0], data.subrange(start as int, (start + w) as int)) {
                None => Err(CodecError::InvalidBool(data[start as int])),
                Some(s) => prepend(Some(s), decode_from(schema.drop_first(), data, start + w, nullable)),
            }
        }
    }
}

/// Relies on memcomparable::to_vec for `u8`: the byte itself.
#[verifier::external_body]
fn encode_u8(v: u8) -> (r: Result<Vec<u8>, memcomparable::Error>)
    ensures
        r is Ok,
        r->Ok_0@ == seq![v],
{
    memcomparable::to_vec(&v)
}

/// Relies on memcomparable::to_vec for `bool`: one byte, 1 for true.
#[verifier::external_body]
fn encode_bool(v: bool) -> (r: Result<Vec<u8>, memcomparable::Error>)
    ensures
        r is Ok,
        r->Ok_0@ == scalar_bytes(ScalarImpl::Bool(v)),
{
    memcomparable::to_vec(&v)
}

/// Relies on memcomparable::to_vec for `i16`: the sign bit flipped, big-endian.
#[verifier::external_body]
fn encode_i16(v: i16) -> (r: Result<Vec<u8>, memcomparable::Error>)
    ensures
        r is Ok,
        r->Ok_0@ == scalar_bytes(ScalarImpl::Int16(v)),
{
    memcomparable::to_vec(&v)
}

/// Relies on memcomparable::to_vec for `i32`: the sign bit flipped, big-endian.
#[verifier::external_body]
fn encode_i32(v: i32) -> (r: Result<Vec<u8>, memcomparable::Error>)
    ensures
        r is Ok,
        r->Ok_0@ == scalar_bytes(ScalarImpl::Int32(v)),
{
    memcomparable::to_vec(&v)
}

/// Relies on memcomparable::to_vec for `i64`: the sign bit flipped, big-endian.
#[verifier::external_body]
fn encode_i64(v: i64) -> (r: Result<Vec<u8>, memcomparable::Error>)
    ensures
        r is Ok,
        r->Ok_0@ == scalar_bytes(ScalarImpl::Int64(v)),
{
    memcomparable::to_vec(&v)
}

/// Relies on memcomparable::from_slice for `u8` on exactly one byte: that byte.
#[verifier::external_body]
fn decode_u8(b: &[u8]) -> (r: Result<u8, memcomparable::Error>)
    requires
        b@.len() == 1,
    ensures
        r is Ok,
        r->Ok_0 == b@[0],
{
    memcomparable::from_slice::<u8>(b)
}

/// Relies on memcomparable::from_slice for `bool` on exactly one byte: 0 and
/// 1 are read as false and true, any other byte is refused.
#[verifier::external_body]
fn decode_bool(b: &[u8]) -> (r: Result<bool, memcomparable::Error>)
    requires
        b@.len() == 1,
    ensures
        b@[0] == 0 ==> r is Ok && !r->Ok_0,
        b@[0] == 1 ==> r is Ok && r->Ok_0,
        b@[0] > 1 ==> r is Err,
{
    memcomparable::from_slice::<bool>(b)
}

/// Relies on memcomparable::from_slice for `i16` on exactly two bytes.
#[verifier::external_body]
fn decode_i16(b: &[u8]) -> (r: Result<i16, memcomparable::Error>)
    requires
        b@.len() == 2,
    ensures
        r is Ok,
        r->Ok_0 == (be_value(b@) - 0x8000) as i16,
{
    memcomparable::from_slice::<i16>(b)
}

/// Relies on memcomparable::from_slice for `i32` on exactly four bytes.
#[verifier::external_body]
fn decode_i32(b: &[u8]) -> (r: Result<i32, memcomparable::Error>)
    requires
        b@.len() == 4,
    ensures
        r is Ok,
        r->Ok_0 == (be_value(b@) - 0x8000_0000) as i32,
{
    memcomparable::from_slice::<i32>(b)
}

/// Relies on memcomparable::from_slice for `i64` on exactly eight bytes.
#[verifier::external_body]
fn decode_i64(b: &[u8]) -> (r: Result<i64, memcomparable::Error>)
    requires
        b@.len() == 8,
    ensures
        r is Ok,
        r->Ok_0 == (be_value(b@) - 0x8000_0000_0000_0000int) as i64,
{
    memcomparable::from_slice::<i64>(b)
}

fn append(out: &mut Vec<u8>, b: Vec<u8>)
    ensures
        final(out)@ == old(out)@ + b@,
{
    let mut i: usize = 0;
    while i < b.len()
        invariant
            i <= b@.len(),
            out@ == old(out)@ + b@.subrange(0, i as int),
        decreases b@.len() - i,
    {
        out.push(b[i]);
        i = i + 1;
    }
    assert(b@.subrange(0, b@.len() as int) =~= b@);
}

fn encode_scalar(s: ScalarImpl) -> (r: Vec<u8>)
    ensures
        r@ == scalar_bytes(s),
{
    let e = match s {
        ScalarImpl::Bool(v) => encode_bool(v),
        ScalarImpl::Int16(v) => encode_i16(v),
        ScalarImpl::Int32(v) => encode_i32(v),
        ScalarImpl::Int64(v) => encode_i64(v),
    };
    match e {
        Ok(b) => b,
        Err(_) => Vec::new(),
    }
}

fn tag_byte(t: u8) -> (r: Vec<u8>)
    ensures
        r@ == seq![t],
{
    match encode_u8(t) {
        Ok(b) => b,
        Err(_) => Vec::new(),
    }
}

impl Row {
    /// The row as memcomparable bytes, every value nullable: each value is
    /// preceded by a tag byte, 0 for null and 1 otherwise.
    pub fn serialize(&self) -> (r: Result<Vec<u8>, CodecError>)
        ensures
            r is Ok,
            r->Ok_0@ == row_bytes(self.0@),
    {
        let mut out: Vec<u8> = Vec::new();
        let mut i: usize = 0;
        while i < self.0.len()
            invariant
                i <= self.0@.len(),
                out@ == row_bytes(self.0@.subrange(0, i as int)),
            decreases self.0@.len() - i,
        {
            assert(self.0@.subrange(0, i + 1).drop_last() =~= self.0@.subrange(0, i as int));
            match self.0[i] {
                Some(v) => {
                    append(&mut out, tag_byte(1));
                    append(&mut out, encode_scalar(v));
                    assert(out@ =~= row_bytes(self.0@.subrange(0, i as int)) + datum_bytes(Some(v)));
                },
                None => {
                    append(&mut out, tag_byte(0));
                },
            }
            i = i + 1;
        }
        assert(self.0@.subrange(0, self.0@.len() as int) =~= self.0@);
        Ok(out)
    }

    /// The row as memcomparable bytes with no tag bytes; every value must be
    /// non-null.
    pub fn serialize_not_null(&self) -> (r: Result<Vec<u8>, CodecError>)
        requires
            forall|i: int| 0 <= i < self.0@.len() ==> (#[trigger] self.0@[i]) is Some,
        ensures
            r is Ok,
            r->Ok_0@ == row_bytes_not_null(self.0@),
    {
        let mut out: Vec<u8> = Vec::new();
        let mut i: usize = 0;
        while i < self.0.len()
            invariant
                i <= self.0@.len(),
                forall|k: int| 0 <= k < self.0@.len() ==> (#[trigger] self.0@[k]) is Some,
                out@ == row_bytes_not_null(self.0@.subrange(0, i as int)),
            decreases self.0@.len() - i,
        {
            assert(self.0@.subrange(0, i + 1).drop_last() =~= self.0@.subrange(0, i as int));
            assert(self.0@[i as int] is Some);
            if let Some(v) = self.0[i] {
                append(&mut out, encode_scalar(v));
            }
            i = i + 1;
        }
        assert(self.0@.subrange(0, self.0@.len() as int) =~= self.0@);
        Ok(out)
    }
}

/// Reads rows of a fixed schema back from memcomparable bytes.
pub struct RowDeserializer {
    schema: Vec<DataTypeKind>,
}

impl RowDeserializer {
    pub closed spec fn schema_view(&self) -> Seq<DataTypeKind> {
        self.schema@
    }

    /// A deserializer for rows whose values have the types of `schema`, in order.
    pub fn new(schema: Vec<DataTypeKind>) -> (r: Self)
        ensures
            r.schema_view() == schema@,
    {
        RowDeserializer { schema }
    }

    fn read_scalar(t: DataTypeKind, b: &[u8]) -> (r: Option<ScalarImpl>)
        requires
            b@.len() == width(t),
        ensures
            r == scalar_of(t, b@),
    {
        match t {
            DataTypeKind::Boolean => match decode_bool(b) {
                Ok(v) => Some(ScalarImpl::Bool(v)),
                Err(_) => None,
            },
            DataTypeKind::Int16 => match decode_i16(b) {
                Ok(v) => Some(ScalarImpl::Int16(v)),
                Err(_) => None,
            },
            DataTypeKind::Int32 => match decode_i32(b) {
                Ok(v) => Some(ScalarImpl::Int32(v)),
                Err(_) => None,
            },
            DataTypeKind::Int64 => match decode_i64(b) {
                Ok(v) => Some(ScalarImpl::Int64(v)),
                Err(_) => None,
            },
        }
    }

    fn width_of(t: DataTypeKind) -> (r: usize)
        ensures
            r == width(t),
    {
        match t {
            DataTypeKind::Boolean => 1,
            DataTypeKind::Int16 => 2,
            DataTypeKind::Int32 => 4,
            DataTypeKind::Int64 => 8,
        }
    }

    fn decode(&self, data: &[u8], nullable: bool) -> (r: Result<Row, CodecError>)
        ensures
            match decode_from(self.schema@, data@, 0, nullable) {
                Ok(vs) => r is Ok && r->Ok_0.0@ == vs,
                Err(e) => r == Err::<Row, CodecError>(e),
            },
    {
        let mut values: Vec<Datum> = Vec::with_capacity(self.schema.len());
        let mut pos: usize = 0;
        let mut i: usize = 0;
        let ghost schema = self.schema@;
        assert(schema.subrange(0, schema.len() as int) =~= schema);
        assert(values@ + Seq::<Datum>::empty() =~= values@);
        while i < self.schema.len()
            invariant
                schema == self.schema@,
                i <= schema.len(),
                pos <= data@.len(),
                decode_from(schema, data@, 0, nullable) == match decode_from(
                    schema.subrange(i as int, schema.len() as int),
                    data@,
                    pos as nat,
                    nullable,
                ) {
                    Ok(rest) => Ok(values@ + rest),
                    Err(e) => Err::<Seq<Datum>, CodecError>(e),
                },
            decreases schema.len() - i,
        {
            let t = self.schema[i];
            let ghost tail = schema.subrange(i as int, schema.len() as int);
            assert(tail.drop_first() =~= schema.subrange(i + 1, schema.len() as int));
            assert(tail[0] == t);
            let mut start = pos;
            if nullable {
                if pos >= data.len() {
                    return Err(CodecError::Eof);
                }
                let tag = match decode_u8(slice_subrange(data, pos, pos + 1)) {
                    Ok(v) => v,
                    Err(_) => data[pos],
                };
                if tag == 0 {
                    proof {
                        let rest = decode_from(schema.subrange(i + 1, schema.len() as int), data@, (pos + 1) as nat, nullable);
                        if let Ok(rs) = rest {
                            assert(values@.push(None) + rs =~= values@ + (seq![None] + rs));
                        }
                    }
                    values.push(None);
                    pos = pos + 1;
                    i = i + 1;
                    continue;
                } else if tag != 1 {
                    return Err(CodecError::InvalidTag(tag));
                }
                start = pos + 1;
            }
            let w = Self::width_of(t);
            if w > data.len() - start {
                return Err(CodecError::Eof);
            }
            match Self::read_scalar(t, slice_subrange(data, start, start + w)) {
                None => {
                    return Err(CodecError::InvalidBool(data[start]));
                },
                Some(s) => {
                    proof {
                        let rest = decode_from(schema.subrange(i + 1, schema.len() as int), data@, (start + w) as nat, nullable);
                        if let Ok(rs) = rest {
                            assert(values@.push(Some(s)) + rs =~= values@ + (seq![Some(s)] + rs));
                        }
                    }
                    values.push(Some(s));
                    pos = start + w;
                },
            }
            i = i + 1;
        }
        assert(schema.subrange(i as int, schema.len() as int) =~= Seq::<DataTypeKind>::empty());
        assert(values@ + Seq::<Datum>::empty() =~= values@);
        Ok(Row(values))
    }

    /// Reads a row in which every value is preceded by its null tag; bytes
    /// after the row are ignored.
    pub fn deserialize(&self, data: &[u8]) -> (r: Result<Row, CodecError>)
        ensures
            match decode_from(self.schema_view(), data@, 0, true) {
                Ok(vs) => r is Ok && r->Ok_0.0@ == vs,
                Err(e) => r == Err::<Row, CodecError>(e),
            },
    {
        self.decode(data, true)
    }

    /// Reads a row of non-null values written without tags; bytes after the
    /// row are ignored.
    pub fn deserialize_not_null(&self, data: &[u8]) -> (r: Result<Row, CodecError>)
        ensures
            match decode_from(self.schema_view(), data@, 0, false) {
                Ok(vs) => r is Ok && r->Ok_0.0@ == vs,
                Err(e) => r == Err::<Row, CodecError>(e),
            },
    {
        self.decode(data, false)
    }
}

/// The type of a scalar.
pub open spec fn type_of(s: ScalarImpl) -> DataTypeKind {
    match s {
        ScalarImpl::Bool(_) => DataTypeKind::Boolean,
        ScalarImpl::Int16(_) => DataTypeKind::Int16,
        ScalarImpl::Int32(_) => DataTypeKind::Int32,
        ScalarImpl::Int64(_) => DataTypeKind::Int64,
    }
}

/// Whether every non-null value of `values` has the type that `schema` gives it.
pub open spec fn fits(schema: Seq<DataTypeKind>, values: Seq<Datum>) -> bool {
    schema.len() == values.len() && forall|i: int|
        0 <= i < values.len() && (#[trigger] values[i]) is Some ==> type_of(values[i]->0) == schema[i]
}

pub open spec fn pow256(w: nat) -> nat
    decreases w,
{
    if w == 0 {
        1
    } else {
        256 * pow256((w - 1) as nat)
    }
}

proof fn lemma_be_round_trip(x: nat, w: nat)
    requires
        x < pow256(w),
    ensures
        be_bytes(x, w).len() == w,
        be_value(be_bytes(x, w)) == x,
    decreases w,
{
    if w > 0 {
        assert(x / 256 < pow256((w - 1) as nat)) by (nonlinear_arith)
            requires
                x < 256 * pow256((w - 1) as nat),
        ;
        lemma_be_round_trip(x / 256, (w - 1) as nat);
        let b = be_bytes(x, w);
        assert(b.drop_last() == be_bytes(x / 256, (w - 1) as nat));
        assert(x == (x / 256) * 256 + x % 256) by (nonlinear_arith);
    }
}

proof fn lemma_scalar_round_trip(s: ScalarImpl)
    ensures
        scalar_bytes(s).len() == width(type_of(s)),
        scalar_of(type_of(s), scalar_bytes(s)) == Some(s),
{
    reveal_with_fuel(pow256, 9);
    match s {
        ScalarImpl::Bool(_) => {},
        ScalarImpl::Int16(v) => lemma_be_round_trip((v + 0x8000) as nat, 2),
        ScalarImpl::Int32(v) => lemma_be_round_trip((v + 0x8000_0000) as nat, 4),
        ScalarImpl::Int64(v) => lemma_be_round_trip((v + 0x8000_0000_0000_0000int) as nat, 8),
    }
}

proof fn lemma_row_bytes_front(values: Seq<Datum>)
    requires
        values.len() > 0,
    ensures
        row_bytes(values) == datum_bytes(values[0]) + row_bytes(values.drop_first()),
    decreases values.len(),
{
    if values.len() > 1 {
        lemma_row_bytes_front(values.drop_last());
        assert(values.drop_last().drop_first() =~= values.drop_first().drop_last());
        assert(values.drop_first().last() == values.last());
    } else {
        assert(values.drop_last() =~= Seq::<Datum>::empty());
        assert(values.drop_first() =~= Seq::<Datum>::empty());
    }
}

proof fn lemma_decode_after(schema: Seq<DataTypeKind>, values: Seq<Datum>, prefix: Seq<u8>)
    requires
        fits(schema, values),
    ensures
        decode_from(schema, prefix + row_bytes(values), prefix.len(), true) == Ok::<Seq<Datum>, CodecError>(values),
    decreases values.len(),
{
    let data = prefix + row_bytes(values);
    if values.len() == 0 {
        assert(values =~= Seq::<Datum>::empty());
    } else {
        lemma_row_bytes_front(values);
        let head = datum_bytes(values[0]);
        let rest = values.drop_first();
        let next = prefix + head;
        assert(data =~= next + row_bytes(rest));
        assert(fits(schema.drop_first(), rest)) by {
            assert forall|i: int| 0 <= i < rest.len() && (#[trigger] rest[i]) is Some implies type_of(rest[i]->0)
                == schema.drop_first()[i] by {
                assert(rest[i] == values[i + 1]);
            }
        }
        lemma_decode_after(schema.drop_first(), rest, next);
        assert(data[prefix.len() as int] == head[0]);
        match values[0] {
            None => {
                assert(data[prefix.len() as int] == 0);
                assert(next.len() == prefix.len() + 1);
                assert(seq![None] + rest =~= values);
                assert(decode_from(schema.drop_first(), data, next.len(), true) == Ok::<Seq<Datum>, CodecError>(rest));
                assert(decode_from(schema, data, prefix.len(), true) == prepend(None, decode_from(schema.drop_first(), data, prefix.len() + 1, true)));
            },
            Some(s) => {
                assert(values[0] is Some);
                assert(schema[0] == type_of(s));
                lemma_scalar_round_trip(s);
                let start = prefix.len() + 1;
                let w = width(schema[0]);
                assert(data[prefix.len() as int] == 1);
                assert(next.len() == start + w);
                assert(start + w <= data.len());
                assert(data.subrange(start as int, (start + w) as int) =~= scalar_bytes(s));
                assert(scalar_of(schema[0], data.subrange(start as int, (start + w) as int)) == Some(s));
                assert(seq![Some(s)] + rest =~= values);
                assert(decode_from(schema.drop_first(), data, next.len(), true) == Ok::<Seq<Datum>, CodecError>(rest));
                assert(decode_from(schema, data, prefix.len(), true) == prepend(Some(s), decode_from(schema.drop_first(), data, start + w, true)));
            },
        }
    }
}

/// Bytes written by `serialize` read back, under the row's own schema, as
/// the same row.
pub proof fn lemma_serialize_round_trip(schema: Seq<DataTypeKind>, values: Seq<Datum>)
    requires
        fits(schema, values),
    ensures
        decode_from(schema, row_bytes(values), 0, true) == Ok::<Seq<Datum>, CodecError>(values),
{
    lemma_decode_after(schema, values, Seq::empty());
    assert(Seq::<u8>::empty() + row_bytes(values) =~= row_bytes(values));
}

proof fn lemma_row_bytes_not_null_front(values: Seq<Datum>)
    requires
        values.len() > 0,
    ensures
        row_bytes_not_null(values) == scalar_bytes(values[0]->0) + row_bytes_not_null(values.drop_first()),
    decreases values.len(),
{
    if values.len() > 1 {
        lemma_row_bytes_not_null_front(values.drop_last());
        assert(values.drop_last().drop_first() =~= values.drop_first().drop_last());
        assert(values.drop_first().last() == values.last());
    } else {
        assert(values.drop_last() =~= Seq::<Datum>::empty());
        assert(values.drop_first() =~= Seq::<Datum>::empty());
    }
}

proof fn lemma_decode_not_null_after(schema: Seq<DataTypeKind>, values: Seq<Datum>, prefix: Seq<u8>)
    requires
        fits(schema, values),
        forall|i: int| 0 <= i < values.len() ==> (#[trigger] values[i]) is Some,
    ensures
        decode_from(schema, prefix + row_bytes_not_null(values), prefix.len(), false) == Ok::<Seq<Datum>, CodecError>(
            values,
        ),
    decreases values.len(),
{
    let data = prefix + row_bytes_not_null(values);
    if values.len() == 0 {
        assert(values =~= Seq::<Datum>::empty());
    } else {
        lemma_row_bytes_not_null_front(values);
        assert(values[0] is Some);
        let s = values[0]->0;
        let rest = values.drop_first();
        let next = prefix + scalar_bytes(s);
        assert(data =~= next + row_bytes_not_null(rest));
        assert(fits(schema.drop_first(), rest)) by {
            assert forall|i: int| 0 <= i < rest.len() && (#[trigger] rest[i]) is Some implies type_of(rest[i]->0)
                == schema.drop_first()[i] by {
                assert(rest[i] == values[i + 1]);
            }
        }
        assert forall|i: int| 0 <= i < rest.len() implies (#[trigger] rest[i]) is Some by {
            assert(rest[i] == values[i + 1]);
        }
        lemma_decode_not_null_after(schema.drop_first(), rest, next);
        assert(schema[0] == type_of(s));
        lemma_scalar_round_trip(s);
        let start = prefix.len();
        let w = width(schema[0]);
        assert(next.len() == start + w);
        assert(data.subrange(start as int, (start + w) as int) =~= scalar_bytes(s));
        assert(seq![Some(s)] + rest =~= values);
        assert(decode_from(schema.drop_first(), data, next.len(), false) == Ok::<Seq<Datum>, CodecError>(rest));
    }
}

/// Bytes written by `serialize_not_null` read back, under the row's own
/// schema, as the same row.
pub proof fn lemma_serialize_not_null_round_trip(schema: Seq<DataTypeKind>, values: Seq<Datum>)
    requires
        fits(schema, values),
        forall|i: int| 0 <= i < values.len() ==> (#[trigger] values[i]) is Some,
    ensures
        decode_from(schema, row_bytes_not_null(values), 0, false) == Ok::<Seq<Datum>, CodecError>(values),
{
    lemma_decode_not_null_after(schema, values, Seq::empty());
    assert(Seq::<u8>::empty() + row_bytes_not_null(values) =~= row_bytes_not_null(values));
}

} // verus!
