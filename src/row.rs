use vstd::prelude::*;
use std::cmp::Ordering;

verus! {

/// A non-null scalar value.
#[derive(Clone, Copy, Debug, PartialEq, Eq, Structural, Hash)]
pub enum ScalarImpl {
    Bool(bool),
    Int16(i16),
    Int32(i32),
    Int64(i64),
}

/// A nullable value: `None` is SQL `NULL`.
pub type Datum = Option<ScalarImpl>;

/// A borrowed nullable value; scalars here are plain values, so it is a copy.
pub type DatumRef = Option<ScalarImpl>;

/// The type of a column.
#[derive(Clone, Copy, Debug, PartialEq, Eq, Structural, Hash)]
pub enum DataTypeKind {
    Boolean,
    Int16,
    Int32,
    Int64,
}

/// A batch of rows with a visibility bit per row. Only visible rows are
/// handed out by its iterator.
pub struct DataChunk {
    rows: Vec<Vec<Datum>>,
    visibility: Vec<bool>,
}

impl DataChunk {
    pub closed spec fn wf(&self) -> bool {
        self.rows@.len() == self.visibility@.len()
    }

    pub proof fn lemma_wf_lengths(&self)
        requires
            self.wf(),
        ensures
            self.rows_view().len() == self.visibility_view().len(),
    {
    }

    pub closed spec fn rows_view(&self) -> Seq<Seq<Datum>> {
        self.rows@.map_values(|r: Vec<Datum>| r@)
    }

    pub closed spec fn visibility_view(&self) -> Seq<bool> {
        self.visibility@
    }

    /// Builds a chunk; `None` when the visibility bits do not match the rows.
    pub fn new(rows: Vec<Vec<Datum>>, visibility: Vec<bool>) -> (r: Option<DataChunk>)
        ensures
            rows@.len() == visibility@.len() <==> r is Some,
            r matches Some(c) ==> c.wf() && c.rows_view() == rows@.map_values(|r: Vec<Datum>| r@)
                && c.visibility_view() == visibility@,
    {
        if rows.len() == visibility.len() {
            Some(DataChunk { rows, visibility })
        } else {
            None
        }
    }

    /// The number of rows, visible or not.
    pub fn capacity(&self) -> (r: usize)
        ensures
            r == self.rows_view().len(),
    {
        self.rows.len()
    }

    /// An iterator over the visible rows, from the first.
    pub fn rows(&self) -> (r: DataChunkRefIter<'_>)
        ensures
            r.chunk == self,
            r.idx == 0,
    {
        DataChunkRefIter { chunk: self, idx: 0 }
    }
}

/// Walks the visible rows of a chunk in order.
pub struct DataChunkRefIter<'a> {
    pub chunk: &'a DataChunk,
    pub idx: usize,
}

/// The first visible row at or after `i`, or the row count when there is none.
pub open spec fn next_visible(vis: Seq<bool>, i: int) -> int
    decreases vis.len() - i,
{
    if i >= vis.len() {
        vis.len() as int
    } else if vis[i] {
        i
    } else {
        next_visible(vis, i + 1)
    }
}

impl<'a> DataChunkRefIter<'a> {
    pub fn new(chunk: &'a DataChunk) -> (r: Self)
        ensures
            r.chunk == chunk,
            r.idx == 0,
    {
        Self { chunk, idx: 0 }
    }

    /// The next visible row, or `None` once every row has been passed.
    pub fn next(&mut self) -> (r: Option<RowRef>)
        requires
            old(self).chunk.wf(),
        ensures
            final(self).chunk == old(self).chunk,
            ({
                let vis = old(self).chunk.visibility_view();
                let j = next_visible(vis, old(self).idx as int);
                if j < vis.len() {
                    r matches Some(row) && row.0@ == old(self).chunk.rows_view()[j]
                        && final(self).idx == j + 1
                } else {
                    r is None && final(self).idx == if old(self).idx > vis.len() {
                        old(self).idx as int
                    } else {
                        vis.len() as int
                    }
                }
            }),
        decreases old(self).chunk.visibility_view().len() - old(self).idx,
    {
        proof {
            self.chunk.lemma_wf_lengths();
        }
        let n = self.chunk.capacity();
        if self.idx >= n {
            return None;
        }
        let i = self.idx;
        let vis = self.chunk.visibility[i];
        self.idx = i + 1;
        if vis {
            let src = &self.chunk.rows[i];
            let mut values: Vec<DatumRef> = Vec::with_capacity(src.len());
            let mut k: usize = 0;
            while k < src.len()
                invariant
                    k <= src@.len(),
                    values@ == src@.subrange(0, k as int),
                decreases src@.len() - k,
            {
                values.push(src[k]);
                k = k + 1;
            }
            assert(values@ == src@);
            Some(RowRef(values))
        } else {
            self.next()
        }
    }
}

/// A row handed out by a chunk's iterator.
#[derive(Debug, PartialEq)]
pub struct RowRef(pub Vec<DatumRef>);

impl RowRef {
    pub fn new(values: Vec<DatumRef>) -> (r: Self)
        ensures
            r.0@ == values@,
    {
        Self(values)
    }

    pub fn value_at(&self, pos: usize) -> (r: DatumRef)
        requires
            pos < self.0@.len(),
        ensures
            r == self.0@[pos as int],
    {
        self.0[pos]
    }

    pub fn size(&self) -> (r: usize)
        ensures
            r == self.0@.len(),
    {
        self.0.len()
    }
}

/// An owned row of nullable values.
#[derive(Clone, Debug, Default, PartialEq, Eq, Hash)]
pub struct Row(pub Vec<Datum>);

impl Row {
    pub fn size(&self) -> (r: usize)
        ensures
            r == self.0@.len(),
    {
        self.0.len()
    }

    pub fn value_at(&self, pos: usize) -> (r: Datum)
        requires
            pos < self.0@.len(),
        ensures
            r == self.0@[pos as int],
    {
        self.0[pos]
    }
}

impl From<RowRef> for Row {
    fn from(row_ref: RowRef) -> (r: Row) {
        Row(row_ref.0)
    }
}

impl vstd::std_specs::convert::FromSpecImpl<RowRef> for Row {
    open spec fn obeys_from_spec() -> bool {
        true
    }

    open spec fn from_spec(v: RowRef) -> Row {
        Row(v.0)
    }
}

pub open spec fn int_cmp(a: int, b: int) -> Ordering {
    if a < b {
        Ordering::Less
    } else if a > b {
        Ordering::Greater
    } else {
        Ordering::Equal
    }
}

/// The position of a scalar's kind in the order of kinds.
pub open spec fn kind_rank(s: ScalarImpl) -> int {
    match s {
        ScalarImpl::Bool(_) => 0,
        ScalarImpl::Int16(_) => 1,
        ScalarImpl::Int32(_) => 2,
        ScalarImpl::Int64(_) => 3,
    }
}

/// Scalars order by kind first, then by value; `false` comes before `true`.
pub open spec fn scalar_cmp(a: ScalarImpl, b: ScalarImpl) -> Ordering {
    match (a, b) {
        (ScalarImpl::Bool(x), ScalarImpl::Bool(y)) => int_cmp(if x { 1 } else { 0 }, if y { 1 } else { 0 }),
        (ScalarImpl::Int16(x), ScalarImpl::Int16(y)) => int_cmp(x as int, y as int),
        (ScalarImpl::Int32(x), ScalarImpl::Int32(y)) => int_cmp(x as int, y as int),
        (ScalarImpl::Int64(x), ScalarImpl::Int64(y)) => int_cmp(x as int, y as int),
        _ => int_cmp(kind_rank(a), kind_rank(b)),
    }
}

/// Null comes before every value.
pub open spec fn datum_cmp(a: Datum, b: Datum) -> Ordering {
    match (a, b) {
        (None, None) => Ordering::Equal,
        (None, Some(_)) => Ordering::Less,
        (Some(_), None) => Ordering::Greater,
        (Some(x), Some(y)) => scalar_cmp(x, y),
    }
}

/// Rows of one length order lexicographically by their values.
pub open spec fn values_cmp(a: Seq<Datum>, b: Seq<Datum>) -> Ordering
    decreases a.len(),
{
    if a.len() == 0 || b.len() == 0 {
        Ordering::Equal
    } else if datum_cmp(a[0], b[0]) != Ordering::Equal {
        datum_cmp(a[0], b[0])
    } else {
        values_cmp(a.drop_first(), b.drop_first())
    }
}

fn cmp_i64(a: i64, b: i64) -> (r: Ordering)
    ensures
        r == int_cmp(a as int, b as int),
{
    if a < b {
        Ordering::Less
    } else if a > b {
        Ordering::Greater
    } else {
        Ordering::Equal
    }
}

fn rank(s: ScalarImpl) -> (r: i64)
    ensures
        r == kind_rank(s),
{
    match s {
        ScalarImpl::Bool(_) => 0,
        ScalarImpl::Int16(_) => 1,
        ScalarImpl::Int32(_) => 2,
        ScalarImpl::Int64(_) => 3,
    }
}

fn compare_datum(a: Datum, b: Datum) -> (r: Ordering)
    ensures
        r == datum_cmp(a, b),
{
    match (a, b) {
        (None, None) => Ordering::Equal,
        (None, Some(_)) => Ordering::Less,
        (Some(_), None) => Ordering::Greater,
        (Some(x), Some(y)) => match (x, y) {
            (ScalarImpl::Bool(p), ScalarImpl::Bool(q)) => cmp_i64(if p { 1 } else { 0 }, if q { 1 } else { 0 }),
            (ScalarImpl::Int16(p), ScalarImpl::Int16(q)) => cmp_i64(p as i64, q as i64),
            (ScalarImpl::Int32(p), ScalarImpl::Int32(q)) => cmp_i64(p as i64, q as i64),
            (ScalarImpl::Int64(p), ScalarImpl::Int64(q)) => cmp_i64(p, q),
            _ => cmp_i64(rank(x), rank(y)),
        },
    }
}

impl PartialOrd for Row {
    /// Rows of different lengths are not comparable.
    fn partial_cmp(&self, other: &Row) -> (r: Option<Ordering>) {
        if self.0.len() != other.0.len() {
            return None;
        }
        let n = self.0.len();
        let mut i: usize = 0;
        assert(self.0@.subrange(0, n as int) =~= self.0@);
        assert(other.0@.subrange(0, n as int) =~= other.0@);
        while i < n
            invariant
                n == self.0@.len(),
                n == other.0@.len(),
                i <= n,
                values_cmp(self.0@, other.0@) == values_cmp(
                    self.0@.subrange(i as int, n as int),
                    other.0@.subrange(i as int, n as int),
                ),
            decreases n - i,
        {
            let ghost a = self.0@.subrange(i as int, n as int);
            let ghost b = other.0@.subrange(i as int, n as int);
            assert(a.drop_first() =~= self.0@.subrange(i + 1, n as int));
            assert(b.drop_first() =~= other.0@.subrange(i + 1, n as int));
            assert(a[0] == self.0@[i as int] && b[0] == other.0@[i as int]);
            let c = compare_datum(self.0[i], other.0[i]);
            match c {
                Ordering::Equal => {},
                _ => {
                    return Some(c);
                },
            }
            i = i + 1;
        }
        Some(Ordering::Equal)
    }
}

impl vstd::std_specs::cmp::PartialOrdSpecImpl for Row {
    open spec fn obeys_partial_cmp_spec() -> bool {
        true
    }

    open spec fn partial_cmp_spec(&self, other: &Row) -> Option<Ordering> {
        if self.0@.len() != other.0@.len() {
            None
        } else {
            Some(values_cmp(self.0@, other.0@))
        }
    }
}

} // verus!
