//! A column buffer of a frame and the cursor that walks it.
use vstd::prelude::*;

use crate::codec::{cell_type, zero_cell, Cell, CellView, MOJO_DataType};

verus! {

/// The state of a column: its type, its values, and the cursor's position.
pub ghost struct ColumnState {
    pub data_type: MOJO_DataType,
    pub cells: Seq<CellView>,
    pub current: int,
}

impl ColumnState {
    /// Every value belongs to the column's type, and the cursor stands inside
    /// the buffer or just past its end.
    pub open spec fn wf(self) -> bool {
        &&& self.data_type.is_supported()
        &&& 0 <= self.current <= self.cells.len()
        &&& forall|i: int| 0 <= i < self.cells.len() ==> cell_type(#[trigger] self.cells[i]) == self.data_type
    }

    pub open spec fn capacity(self) -> nat {
        self.cells.len()
    }

    /// The cursor moved back to the origin.
    pub open spec fn reset(self) -> ColumnState {
        ColumnState { current: 0, ..self }
    }

    /// The value under the cursor.
    pub open spec fn next_value(self) -> CellView {
        self.cells[self.current]
    }

    /// The cursor moved one element on.
    pub open spec fn advanced(self) -> ColumnState {
        ColumnState { current: self.current + 1, ..self }
    }

    /// `v` stored under the cursor, and the cursor moved one element on.
    pub open spec fn written(self, v: CellView) -> ColumnState {
        ColumnState { cells: self.cells.update(self.current, v), current: self.current + 1, ..self }
    }

    /// `v` stored at row `row`; the cursor stays.
    pub open spec fn stored_at(self, row: int, v: CellView) -> ColumnState {
        ColumnState { cells: self.cells.update(row, v), ..self }
    }
}

/// The state after writing `vals` one by one through the cursor.
pub open spec fn after_writes(b: ColumnState, vals: Seq<CellView>) -> ColumnState
    decreases vals.len(),
{
    if vals.len() == 0 {
        b
    } else {
        after_writes(b, vals.drop_last()).written(vals.last())
    }
}

/// The state after `n` reads through the cursor.
pub open spec fn after_reads(b: ColumnState, n: nat) -> ColumnState
    decreases n,
{
    if n == 0 {
        b
    } else {
        after_reads(b, (n - 1) as nat).advanced()
    }
}

/// The values that `n` reads through the cursor return, in order.
pub open spec fn values_read(b: ColumnState, n: nat) -> Seq<CellView>
    decreases n,
{
    if n == 0 {
        Seq::empty()
    } else {
        values_read(b, (n - 1) as nat).push(after_reads(b, (n - 1) as nat).next_value())
    }
}

/// The buffer of one column: a fixed number of values of one type, and a
/// cursor that reads or writes them in order.
pub struct RawColumnBuffer {
    data_type: MOJO_DataType,
    cells: Vec<Cell>,
    current: usize,
}

impl View for RawColumnBuffer {
    type V = ColumnState;

    closed spec fn view(&self) -> ColumnState {
        ColumnState {
            data_type: self.data_type,
            cells: self.cells@.map_values(|c: Cell| c@),
            current: self.current as int,
        }
    }
}

/// A fresh value of type `t`.
fn zero_value(t: MOJO_DataType) -> (r: Cell)
    ensures
        r@ == zero_cell(t),
{
    match t {
        MOJO_DataType::MOJO_BOOL => Cell::Bool(false),
        MOJO_DataType::MOJO_INT32 => Cell::Int32(0),
        MOJO_DataType::MOJO_INT64 => Cell::Int64(0),
        MOJO_DataType::MOJO_FLOAT => {
            proof {
                reveal_strlit("0");
                assert("0"@ =~= seq!['0']);
            }
            Cell::Float32Text(String::from_str("0"))
        },
        MOJO_DataType::MOJO_DOUBLE => {
            proof {
                reveal_strlit("0");
                assert("0"@ =~= seq!['0']);
            }
            Cell::Float64Text(String::from_str("0"))
        },
        _ => Cell::Str(String::new()),
    }
}

impl RawColumnBuffer {
    /// A buffer of `capacity` fresh values of type `data_type`, with the cursor
    /// at the origin.
    pub fn new(data_type: MOJO_DataType, capacity: usize) -> (r: RawColumnBuffer)
        requires
            data_type.is_supported(),
        ensures
            r@.wf(),
            r@.data_type == data_type,
            r@.cells == Seq::new(capacity as nat, |i: int| zero_cell(data_type)),
            r@.current == 0,
    {
        let mut cells: Vec<Cell> = Vec::new();
        let mut i: usize = 0;
        while i < capacity
            invariant
                i <= capacity,
                cells@.len() == i,
                forall|j: int| 0 <= j < i ==> (#[trigger] cells@[j])@ == zero_cell(data_type),
            decreases capacity - i,
        {
            cells.push(zero_value(data_type));
            i = i + 1;
        }
        let r = RawColumnBuffer { data_type, cells, current: 0 };
        assert(r@.cells =~= Seq::new(capacity as nat, |i: int| zero_cell(data_type)));
        r
    }

    pub fn data_type(&self) -> (r: MOJO_DataType)
        ensures
            r == self@.data_type,
    {
        self.data_type
    }

    /// Number of values the buffer holds.
    pub fn capacity(&self) -> (r: usize)
        ensures
            r == self@.capacity(),
    {
        proof {
            assert(self@.cells.len() == self.cells@.len());
        }
        self.cells.len()
    }

    /// Position of the cursor, counted in values from the origin.
    pub fn position(&self) -> (r: usize)
        ensures
            r == self@.current,
    {
        self.current
    }

    /// Moves the cursor back to the origin.
    pub fn reset(&mut self)
        ensures
            final(self)@ == old(self)@.reset(),
    {
        self.current = 0;
    }

    /// Moves the cursor of every buffer of `vec` back to the origin.
    pub fn reset_current(vec: &mut Vec<RawColumnBuffer>)
        ensures
            final(vec)@.len() == old(vec)@.len(),
            forall|i: int| 0 <= i < old(vec)@.len() ==> (#[trigger] final(vec)@[i])@ == old(vec)@[i]@.reset(),
    {
        let n = vec.len();
        let mut i: usize = 0;
        while i < n
            invariant
                n == old(vec)@.len(),
                vec@.len() == n,
                i <= n,
                forall|j: int| 0 <= j < i ==> (#[trigger] vec@[j])@ == old(vec)@[j]@.reset(),
                forall|j: int| i <= j < n ==> #[trigger] vec@[j] == old(vec)@[j],
            decreases n - i,
        {
            vec[i].reset();
            i = i + 1;
        }
    }

    /// Stores `value` under the cursor and moves the cursor one value on.
    pub fn unchecked_write_next(&mut self, value: Cell)
        requires
            old(self)@.wf(),
            old(self)@.current < old(self)@.capacity(),
            cell_type(value@) == old(self)@.data_type,
        ensures
            final(self)@ == old(self)@.written(value@),
            final(self)@.wf(),
    {
        proof {
            assert(self@.cells.len() == self.cells@.len());
        }
        let ghost v = value@;
        let n = self.cells.len();
        self.cells.set(self.current, value);
        assert(self.current < n);
        self.current = self.current + 1;
        proof {
            assert(self@.cells =~= old(self)@.cells.update(old(self)@.current, v));
        }
    }

    /// Returns the value under the cursor and moves the cursor one value on.
    pub fn unchecked_read_next(&mut self) -> (r: Cell)
        requires
            old(self)@.current < old(self)@.capacity(),
        ensures
            r@ == old(self)@.next_value(),
            final(self)@ == old(self)@.advanced(),
    {
        proof {
            assert(self@.cells.len() == self.cells@.len());
        }
        let n = self.cells.len();
        assert(self.current < n);
        let r = self.cells[self.current].duplicate();
        self.current = self.current + 1;
        r
    }

    /// Stores the text `value` at row `row` of a string column; the cursor stays.
    pub fn unchecked_write_str(&mut self, row: usize, value: &str)
        requires
            old(self)@.wf(),
            row < old(self)@.capacity(),
            old(self)@.data_type == MOJO_DataType::MOJO_STRING,
        ensures
            final(self)@ == old(self)@.stored_at(row as int, CellView::Str(value@)),
            final(self)@.wf(),
    {
        proof {
            assert(self@.cells.len() == self.cells@.len());
        }
        self.unchecked_store(row, Cell::Str(value.to_owned()));
    }

    /// Stores `value` at row `row`; the cursor stays.
    pub fn unchecked_store(&mut self, row: usize, value: Cell)
        requires
            old(self)@.wf(),
            row < old(self)@.capacity(),
            cell_type(value@) == old(self)@.data_type,
        ensures
            final(self)@ == old(self)@.stored_at(row as int, value@),
            final(self)@.wf(),
    {
        proof {
            assert(self@.cells.len() == self.cells@.len());
        }
        let ghost v = value@;
        self.cells.set(row, value);
        proof {
            assert(self@.cells =~= old(self)@.cells.update(row as int, v));
        }
    }

    /// The value at row `row`; the cursor stays.
    pub fn value_at(&self, row: usize) -> (r: Cell)
        requires
            row < self@.capacity(),
        ensures
            r@ == self@.cells[row as int],
    {
        proof {
            assert(self@.cells.len() == self.cells@.len());
        }
        self.cells[row].duplicate()
    }

    /// The text at row `row` of a string column; the cursor stays.
    pub fn unchecked_read_string(&self, row: usize) -> (r: String)
        requires
            self@.wf(),
            row < self@.capacity(),
            self@.data_type == MOJO_DataType::MOJO_STRING,
        ensures
            self@.cells[row as int] == CellView::Str(r@),
    {
        proof {
            assert(self@.cells.len() == self.cells@.len());
            assert(cell_type(self@.cells[row as int]) == MOJO_DataType::MOJO_STRING);
        }
        match &self.cells[row] {
            Cell::Str(s) => s.clone(),
            _ => String::new(),
        }
    }
}

// ---------------------------------------------------------------- laws

proof fn lemma_after_writes(b: ColumnState, vals: Seq<CellView>)
    requires
        b.current == 0,
        vals.len() <= b.cells.len(),
    ensures
        after_writes(b, vals).current == vals.len(),
        after_writes(b, vals).cells.len() == b.cells.len(),
        forall|i: int| 0 <= i < vals.len() ==> after_writes(b, vals).cells[i] == vals[i],
    decreases vals.len(),
{
    if vals.len() > 0 {
        let prev = vals.drop_last();
        lemma_after_writes(b, prev);
        assert forall|i: int| 0 <= i < vals.len() implies after_writes(b, vals).cells[i] == vals[i] by {
            if i < vals.len() - 1 {
                assert(prev[i] == vals[i]);
            }
        }
    }
}

proof fn lemma_reads(b: ColumnState, n: nat)
    ensures
        after_reads(b, n).current == b.current + n,
        after_reads(b, n).cells == b.cells,
        values_read(b, n).len() == n,
        forall|i: int| 0 <= i < n ==> values_read(b, n)[i] == b.cells[b.current + i],
    decreases n,
{
    if n > 0 {
        lemma_reads(b, (n - 1) as nat);
    }
}

/// After writing values through the cursor from the origin, a reset followed by
/// as many reads returns the written values in the same order.
pub proof fn lemma_write_reset_read(b: ColumnState, vals: Seq<CellView>)
    requires
        vals.len() <= b.capacity(),
    ensures
        values_read(after_writes(b.reset(), vals).reset(), vals.len()) == vals,
{
    lemma_after_writes(b.reset(), vals);
    let w = after_writes(b.reset(), vals).reset();
    lemma_reads(w, vals.len());
    assert(values_read(w, vals.len()) =~= vals);
}

} // verus!
