use std::cmp::Ordering;
use streamjob::codec::{CodecError, RowDeserializer};
use streamjob::row::{DataChunk, DataChunkRefIter, DataTypeKind, Row, RowRef, ScalarImpl};
use streamjob::service::EnsureStopService;

fn sample_chunk() -> DataChunk {
    DataChunk::new(
        vec![
            vec![Some(ScalarImpl::Int32(1)), None],
            vec![Some(ScalarImpl::Int32(2)), Some(ScalarImpl::Bool(true))],
            vec![Some(ScalarImpl::Int32(3)), Some(ScalarImpl::Bool(false))],
        ],
        vec![true, false, true],
    )
    .unwrap()
}

#[test]
fn chunk_iter_skips_invisible_rows() {
    let chunk = sample_chunk();
    let mut it = chunk.rows();
    let first = it.next().unwrap();
    assert_eq!(first, RowRef::new(vec![Some(ScalarImpl::Int32(1)), None]));
    let second = it.next().unwrap();
    assert_eq!(second.value_at(0), Some(ScalarImpl::Int32(3)));
    assert_eq!(second.size(), 2);
    assert!(it.next().is_none());
    assert!(it.next().is_none());
}

#[test]
fn chunk_iter_new_starts_at_first_row() {
    let chunk = DataChunk::new(vec![vec![None], vec![None]], vec![false, false]).unwrap();
    let mut it = DataChunkRefIter::new(&chunk);
    assert_eq!(it.idx, 0);
    assert!(it.next().is_none());
    assert_eq!(it.idx, 2);
}

#[test]
fn chunk_rejects_mismatched_visibility() {
    assert!(DataChunk::new(vec![vec![None]], vec![]).is_none());
}

#[test]
fn row_from_row_ref_keeps_values() {
    let r = Row::from(RowRef::new(vec![Some(ScalarImpl::Int16(-4)), None]));
    assert_eq!(r.size(), 2);
    assert_eq!(r.value_at(0), Some(ScalarImpl::Int16(-4)));
    assert_eq!(r.value_at(1), None);
}

fn sample_row() -> Row {
    Row(vec![
        Some(ScalarImpl::Bool(true)),
        Some(ScalarImpl::Int16(1)),
        Some(ScalarImpl::Int32(2)),
        Some(ScalarImpl::Int64(3)),
    ])
}

fn sample_schema() -> Vec<DataTypeKind> {
    vec![DataTypeKind::Boolean, DataTypeKind::Int16, DataTypeKind::Int32, DataTypeKind::Int64]
}

#[test]
fn row_encode_decode_not_null() {
    let row = sample_row();
    let bytes = row.serialize_not_null().unwrap();
    assert_eq!(bytes.len(), 1 + 2 + 4 + 8);
    let de = RowDeserializer::new(sample_schema());
    assert_eq!(de.deserialize_not_null(&bytes).unwrap(), row);
}

#[test]
fn row_encode_decode_nullable() {
    let row = sample_row();
    let bytes = row.serialize().unwrap();
    assert_eq!(bytes.len(), 1 + 2 + 4 + 8 + 4);
    let de = RowDeserializer::new(sample_schema());
    assert_eq!(de.deserialize(&bytes).unwrap(), row);
}

#[test]
fn row_encoding_exact_bytes() {
    let row = Row(vec![Some(ScalarImpl::Int16(1)), None, Some(ScalarImpl::Int32(-1))]);
    let bytes = row.serialize().unwrap();
    assert_eq!(bytes, vec![1, 0x80, 0x01, 0, 1, 0x7f, 0xff, 0xff, 0xff]);
    let de = RowDeserializer::new(vec![DataTypeKind::Int16, DataTypeKind::Int64, DataTypeKind::Int32]);
    assert_eq!(de.deserialize(&bytes).unwrap(), row);
}

#[test]
fn row_encoding_keeps_order() {
    let a = Row(vec![Some(ScalarImpl::Int64(-5))]).serialize().unwrap();
    let b = Row(vec![Some(ScalarImpl::Int64(7))]).serialize().unwrap();
    let n = Row(vec![None]).serialize().unwrap();
    assert!(n < a);
    assert!(a < b);
}

#[test]
fn row_decode_errors() {
    let de = RowDeserializer::new(vec![DataTypeKind::Boolean]);
    assert_eq!(de.deserialize(&[]), Err(CodecError::Eof));
    assert_eq!(de.deserialize(&[2]), Err(CodecError::InvalidTag(2)));
    assert_eq!(de.deserialize(&[1]), Err(CodecError::Eof));
    assert_eq!(de.deserialize(&[1, 7]), Err(CodecError::InvalidBool(7)));
    assert_eq!(de.deserialize_not_null(&[3]), Err(CodecError::InvalidBool(3)));
    let de32 = RowDeserializer::new(vec![DataTypeKind::Int32]);
    assert_eq!(de32.deserialize_not_null(&[0x80, 0, 0]), Err(CodecError::Eof));
}

#[test]
fn ensure_stop_service_keeps_ports() {
    let s = EnsureStopService::new(vec![5690, 4566]).unwrap();
    assert_eq!(s.ports(), &vec![5690u16, 4566]);
    assert_eq!(s.id(), "prepare");
}

#[test]
fn row_partial_cmp_orders_values() {
    let a = Row(vec![None, Some(ScalarImpl::Int32(5))]);
    let b = Row(vec![Some(ScalarImpl::Int32(-1)), None]);
    let c = Row(vec![Some(ScalarImpl::Int32(-1)), Some(ScalarImpl::Int32(0))]);
    assert_eq!(a.partial_cmp(&b), Some(Ordering::Less));
    assert_eq!(c.partial_cmp(&b), Some(Ordering::Greater));
    assert_eq!(c.partial_cmp(&c.clone()), Some(Ordering::Equal));
    assert_eq!(a.partial_cmp(&Row(vec![None])), None);
    let kinds = Row(vec![Some(ScalarImpl::Bool(true))]).partial_cmp(&Row(vec![Some(ScalarImpl::Int16(0))]));
    assert_eq!(kinds, Some(Ordering::Less));
}

#[test]
fn serialized_round_trip_of_nulls() {
    let row = Row(vec![None, Some(ScalarImpl::Bool(false)), None]);
    let bytes = row.serialize().unwrap();
    assert_eq!(bytes, vec![0, 1, 0, 0]);
    let de = RowDeserializer::new(vec![DataTypeKind::Int64, DataTypeKind::Boolean, DataTypeKind::Int16]);
    assert_eq!(de.deserialize(&bytes).unwrap(), row);
}
