//! The capture map: one row per slot, holding the latest operands observed
//! there.

use vstd::prelude::*;
use vstd::slice::slice_to_vec;

verus! {

/// One row of the capture map.
#[derive(Debug)]
pub enum CmpRow {
    /// Nothing recorded yet.
    Empty,
    /// A comparison of two integers `width` bytes wide.
    Instruction { width: u8, v0: u64, v1: u64 },
    /// The bytes of two buffers handed to a routine.
    Routine { v0: Vec<u8>, v1: Vec<u8> },
}

/// `rows` after an integer comparison is recorded in row `id`: that row
/// alone is replaced, and nothing happens where `id` is out of range.
pub open spec fn record_spec(rows: Seq<CmpRow>, id: usize, width: u8, v0: u64, v1: u64) -> Seq<
    CmpRow,
> {
    if id < rows.len() {
        rows.update(id as int, CmpRow::Instruction { width, v0, v1 })
    } else {
        rows
    }
}

/// What row `id` of `rows` holds as an integer comparison.
pub open spec fn instruction_at(rows: Seq<CmpRow>, id: usize) -> Option<(u8, u64, u64)> {
    if id < rows.len() {
        match rows[id as int] {
            CmpRow::Instruction { width, v0, v1 } => Some((width, v0, v1)),
            _ => None,
        }
    } else {
        None
    }
}

/// The two buffers that row `id` of `rows` holds as a routine capture.
pub open spec fn routine_at(rows: Seq<CmpRow>, id: usize) -> Option<(Seq<u8>, Seq<u8>)> {
    if id < rows.len() {
        match rows[id as int] {
            CmpRow::Routine { v0, v1 } => Some((v0@, v1@)),
            _ => None,
        }
    } else {
        None
    }
}

/// A fixed table of rows that comparison hooks write into.
pub struct CmpLogMap {
    rows: Vec<CmpRow>,
}

impl CmpLogMap {
    pub closed spec fn view(&self) -> Seq<CmpRow> {
        self.rows@
    }

    /// A map of `w` empty rows.
    pub fn new(w: usize) -> (r: CmpLogMap)
        ensures
            r@.len() == w,
            forall|i: int| 0 <= i < w ==> r@[i] is Empty,
    {
        let mut rows: Vec<CmpRow> = Vec::new();
        let mut i: usize = 0;
        while i < w
            invariant
                i <= w,
                rows@.len() == i,
                forall|j: int| 0 <= j < i ==> rows@[j] is Empty,
            decreases w - i,
        {
            rows.push(CmpRow::Empty);
            i = i + 1;
        }
        CmpLogMap { rows }
    }

    /// The number of rows.
    pub fn width(&self) -> (r: usize)
        ensures
            r == self@.len(),
    {
        self.rows.len()
    }

    /// Records the integer comparison of `v0` and `v1`, `width` bytes wide,
    /// in row `id`, replacing what the row held. An out-of-range `id` is
    /// ignored.
    pub fn record(&mut self, id: usize, width: u8, v0: u64, v1: u64)
        ensures
            final(self)@ == record_spec(old(self)@, id, width, v0, v1),
    {
        if id < self.rows.len() {
            self.rows.set(id, CmpRow::Instruction { width, v0, v1 });
        }
    }

    /// Records the bytes of the two buffers handed to a routine in row
    /// `id`, replacing what the row held. An out-of-range `id` is ignored.
    pub fn record_routine(&mut self, id: usize, v0: &[u8], v1: &[u8])
        ensures
            final(self)@.len() == old(self)@.len(),
            forall|i: int| 0 <= i < old(self)@.len() && i != id ==> final(self)@[i] == old(self)@[i],
            id < old(self)@.len() ==> routine_at(final(self)@, id) == Some((v0@, v1@)),
            id >= old(self)@.len() ==> final(self)@ == old(self)@,
    {
        if id < self.rows.len() {
            let a = slice_to_vec(v0);
            let b = slice_to_vec(v1);
            self.rows.set(id, CmpRow::Routine { v0: a, v1: b });
        }
    }

    /// The integer comparison held in row `id`, if it holds one.
    pub fn instruction(&self, id: usize) -> (r: Option<(u8, u64, u64)>)
        ensures
            r == instruction_at(self@, id),
    {
        if id < self.rows.len() {
            match &self.rows[id] {
                CmpRow::Instruction { width, v0, v1 } => Some((*width, *v0, *v1)),
                _ => None,
            }
        } else {
            None
        }
    }

    /// The two buffers held in row `id`, if it holds a routine capture.
    pub fn routine(&self, id: usize) -> (r: Option<(Vec<u8>, Vec<u8>)>)
        ensures
            match r {
                Some((x, y)) => routine_at(self@, id) == Some((x@, y@)),
                None => routine_at(self@, id) is None,
            },
    {
        if id < self.rows.len() {
            match &self.rows[id] {
                CmpRow::Routine { v0, v1 } => Some((slice_to_vec(v0.as_slice()), slice_to_vec(v1.as_slice()))),
                _ => None,
            }
        } else {
            None
        }
    }
}

/// Writing a comparison into a row and reading the row back gives the
/// comparison; a second write to the same row replaces the first entirely.
pub proof fn lemma_record_round_trip(
    rows: Seq<CmpRow>,
    id: usize,
    width: u8,
    v0: u64,
    v1: u64,
    width2: u8,
    w0: u64,
    w1: u64,
)
    requires
        id < rows.len(),
    ensures
        instruction_at(record_spec(rows, id, width, v0, v1), id) == Some((width, v0, v1)),
        record_spec(record_spec(rows, id, width, v0, v1), id, width2, w0, w1) == record_spec(
            rows,
            id,
            width2,
            w0,
            w1,
        ),
{
    assert(record_spec(record_spec(rows, id, width, v0, v1), id, width2, w0, w1) =~= record_spec(
        rows,
        id,
        width2,
        w0,
        w1,
    ));
}

} // verus!
