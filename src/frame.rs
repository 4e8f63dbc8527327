//! A frame: one column buffer per input and per output column of a pipeline,
//! all with the same row capacity.
use vstd::prelude::*;

use crate::codec::{cell_type, zero_cell, Cell, CellView, MOJO_DataType};
use crate::column::{ColumnState, RawColumnBuffer};
use crate::error::MojoError;
use crate::schema::PipelineSchema;

verus! {

pub ghost struct FrameState {
    pub nrow: nat,
    pub inputs: Seq<ColumnState>,
    pub outputs: Seq<ColumnState>,
}

impl FrameState {
    /// Every column is well formed and holds `nrow` values.
    pub open spec fn wf(self) -> bool {
        &&& self.nrow > 0
        &&& forall|i: int| 0 <= i < self.inputs.len() ==> (#[trigger] self.inputs[i]).wf()
        &&& forall|i: int| 0 <= i < self.inputs.len() ==> (#[trigger] self.inputs[i]).capacity() == self.nrow
        &&& forall|i: int| 0 <= i < self.outputs.len() ==> (#[trigger] self.outputs[i]).wf()
        &&& forall|i: int| 0 <= i < self.outputs.len() ==> (#[trigger] self.outputs[i]).capacity() == self.nrow
    }
}

/// The columns of `types`, each with `nrow` fresh values and its cursor at the origin.
pub open spec fn fresh_columns(types: Seq<MOJO_DataType>, nrow: nat) -> Seq<ColumnState> {
    Seq::new(
        types.len(),
        |i: int| ColumnState { data_type: types[i], cells: Seq::new(nrow, |j: int| zero_cell(types[i])), current: 0 },
    )
}

/// Index of the first type of `types` that no column supports, if any.
pub open spec fn first_unsupported(types: Seq<MOJO_DataType>) -> Option<int> {
    if exists|i: int| 0 <= i < types.len() && !(#[trigger] types[i]).is_supported() {
        Some(
            choose|i: int|
                0 <= i < types.len() && !(#[trigger] types[i]).is_supported() && forall|j: int|
                    0 <= j < i ==> (#[trigger] types[j]).is_supported(),
        )
    } else {
        None
    }
}

proof fn lemma_first_unsupported(types: Seq<MOJO_DataType>, i: int)
    requires
        0 <= i < types.len(),
        !types[i].is_supported(),
        forall|j: int| 0 <= j < i ==> (#[trigger] types[j]).is_supported(),
    ensures
        first_unsupported(types) == Some(i),
{
    let k = choose|k: int|
        0 <= k < types.len() && !(#[trigger] types[k]).is_supported() && forall|j: int|
            0 <= j < k ==> (#[trigger] types[j]).is_supported();
    assert(k == i) by {
        if k < i {
            assert(types[k].is_supported());
        }
        if i < k {
            assert(types[i].is_supported());
        }
    }
}

/// Opaque handle of a frame that the engine allocates and owns.
#[allow(non_camel_case_types)]
pub struct MOJO_Frame {}

/// The batch container: the buffers that the engine reads its inputs from
/// and writes its outputs to.
pub struct RawFrame {
    nrow: usize,
    inputs: Vec<RawColumnBuffer>,
    outputs: Vec<RawColumnBuffer>,
}

impl View for RawFrame {
    type V = FrameState;

    closed spec fn view(&self) -> FrameState {
        FrameState {
            nrow: self.nrow as nat,
            inputs: self.inputs@.map_values(|c: RawColumnBuffer| c@),
            outputs: self.outputs@.map_values(|c: RawColumnBuffer| c@),
        }
    }
}

/// Buffers of `nrow` fresh values for each type of `types`; the index of the
/// first type that no column supports, if one is there.
fn fresh_buffers(types: &[MOJO_DataType], nrow: usize) -> (r: Result<Vec<RawColumnBuffer>, usize>)
    ensures
        match r {
            Ok(cols) => first_unsupported(types@) is None && cols@.map_values(|c: RawColumnBuffer| c@)
                == fresh_columns(types@, nrow as nat),
            Err(i) => first_unsupported(types@) == Some(i as int),
        },
{
    let mut cols: Vec<RawColumnBuffer> = Vec::new();
    let mut i: usize = 0;
    while i < types.len()
        invariant
            i <= types@.len(),
            cols@.len() == i,
            forall|j: int| 0 <= j < i ==> (#[trigger] types@[j]).is_supported(),
            forall|j: int| 0 <= j < i ==> (#[trigger] cols@[j])@ == fresh_columns(types@, nrow as nat)[j],
        decreases types@.len() - i,
    {
        let t = types[i];
        if !t.is_supported() {
            proof {
                lemma_first_unsupported(types@, i as int);
            }
            return Err(i);
        }
        let col = RawColumnBuffer::new(t, nrow);
        proof {
            assert(col@ == fresh_columns(types@, nrow as nat)[i as int]);
        }
        cols.push(col);
        i = i + 1;
    }
    proof {
        assert(cols@.map_values(|c: RawColumnBuffer| c@) =~= fresh_columns(types@, nrow as nat));
    }
    Ok(cols)
}

impl RawFrame {
    /// A frame for the columns of `schema`, each with `nrow` fresh values and
    /// its cursor at the origin. Fails on the first input column, then on the
    /// first output column, whose type no column supports.
    pub fn new(schema: &PipelineSchema, nrow: usize) -> (r: Result<RawFrame, MojoError>)
        requires
            nrow > 0,
        ensures
            match r {
                Ok(f) => {
                    &&& first_unsupported(schema.feature_types_view()) is None
                    &&& first_unsupported(schema.output_types_view()) is None
                    &&& f@.wf()
                    &&& f@.nrow == nrow
                    &&& f@.inputs == fresh_columns(schema.feature_types_view(), nrow as nat)
                    &&& f@.outputs == fresh_columns(schema.output_types_view(), nrow as nat)
                },
                Err(e) => match first_unsupported(schema.feature_types_view()) {
                    Some(i) => e == MojoError::UnsupportedInputType(i as usize),
                    None => first_unsupported(schema.output_types_view()) matches Some(k)
                        && e == MojoError::UnsupportedOutputType(k as usize),
                },
            },
    {
        let inputs = match fresh_buffers(schema.feature_types(), nrow) {
            Ok(cols) => cols,
            Err(i) => {
                return Err(MojoError::UnsupportedInputType(i));
            },
        };
        let outputs = match fresh_buffers(schema.output_types(), nrow) {
            Ok(cols) => cols,
            Err(k) => {
                return Err(MojoError::UnsupportedOutputType(k));
            },
        };
        let f = RawFrame { nrow, inputs, outputs };
        proof {
            let fs = f@;
            assert forall|i: int| 0 <= i < fs.inputs.len() implies (#[trigger] fs.inputs[i]).wf() by {
                let c = fs.inputs[i];
                assert forall|j: int| 0 <= j < c.cells.len() implies cell_type(#[trigger] c.cells[j]) == c.data_type by {}
            }
            assert forall|i: int| 0 <= i < fs.outputs.len() implies (#[trigger] fs.outputs[i]).wf() by {
                let c = fs.outputs[i];
                assert forall|j: int| 0 <= j < c.cells.len() implies cell_type(#[trigger] c.cells[j]) == c.data_type by {}
            }
        }
        Ok(f)
    }

    /// Number of rows each column holds.
    pub fn nrow(&self) -> (r: usize)
        ensures
            r == self@.nrow,
    {
        self.nrow
    }

    /// Number of columns, inputs and outputs together.
    pub fn ncol(&self) -> (r: usize)
        requires
            self@.inputs.len() + self@.outputs.len() <= usize::MAX,
        ensures
            r == self@.inputs.len() + self@.outputs.len(),
    {
        self.inputs.len() + self.outputs.len()
    }

    pub fn input_count(&self) -> (r: usize)
        ensures
            r == self@.inputs.len(),
    {
        self.inputs.len()
    }

    pub fn output_count(&self) -> (r: usize)
        ensures
            r == self@.outputs.len(),
    {
        self.outputs.len()
    }

    /// The buffer of input column `index` itself: its cursor stands where the
    /// last access left it, not necessarily at the origin.
    pub fn input_col(&self, index: usize) -> (r: Result<&RawColumnBuffer, MojoError>)
        ensures
            match r {
                Ok(c) => index < self@.inputs.len() && c@ == self@.inputs[index as int],
                Err(e) => index >= self@.inputs.len() && e == MojoError::InvalidInputIndex(index),
            },
    {
        if index < self.inputs.len() {
            Ok(&self.inputs[index])
        } else {
            Err(MojoError::InvalidInputIndex(index))
        }
    }

    /// The buffer of output column `index` itself: its cursor stands where the
    /// last access left it, not necessarily at the origin.
    pub fn output_col(&self, index: usize) -> (r: Result<&RawColumnBuffer, MojoError>)
        ensures
            match r {
                Ok(c) => index < self@.outputs.len() && c@ == self@.outputs[index as int],
                Err(e) => index >= self@.outputs.len() && e == MojoError::InvalidOutputIndex(index),
            },
    {
        if index < self.outputs.len() {
            Ok(&self.outputs[index])
        } else {
            Err(MojoError::InvalidOutputIndex(index))
        }
    }

    /// Type of input column `index`.
    pub fn input_type(&self, index: usize) -> (r: MOJO_DataType)
        requires
            index < self@.inputs.len(),
        ensures
            r == self@.inputs[index as int].data_type,
    {
        self.inputs[index].data_type()
    }

    /// Type of output column `index`.
    pub fn output_type(&self, index: usize) -> (r: MOJO_DataType)
        requires
            index < self@.outputs.len(),
        ensures
            r == self@.outputs[index as int].data_type,
    {
        self.outputs[index].data_type()
    }

    /// Moves the cursor of input column `index` back to the origin.
    pub fn reset_input(&mut self, index: usize)
        requires
            index < old(self)@.inputs.len(),
        ensures
            old(self)@.wf() ==> final(self)@.wf(),
            final(self)@ == (FrameState {
                inputs: old(self)@.inputs.update(index as int, old(self)@.inputs[index as int].reset()),
                ..old(self)@
            }),
    {
        self.inputs[index].reset();
        proof {
            assert(self@.inputs =~= old(self)@.inputs.update(index as int, old(self)@.inputs[index as int].reset()));
            assert(self@.outputs =~= old(self)@.outputs);
        }
    }

    /// Moves the cursor of every output column back to the origin.
    pub fn reset_outputs(&mut self)
        ensures
            old(self)@.wf() ==> final(self)@.wf(),
            final(self)@ == (FrameState {
                outputs: Seq::new(old(self)@.outputs.len(), |k: int| old(self)@.outputs[k].reset()),
                ..old(self)@
            }),
    {
        RawColumnBuffer::reset_current(&mut self.outputs);
        proof {
            assert(self@.outputs =~= Seq::new(old(self)@.outputs.len(), |k: int| old(self)@.outputs[k].reset()));
            assert(self@.inputs =~= old(self)@.inputs);
        }
    }

    /// Writes `value` through the cursor of input column `index`.
    pub fn write_input_next(&mut self, index: usize, value: Cell)
        requires
            old(self)@.wf(),
            index < old(self)@.inputs.len(),
            old(self)@.inputs[index as int].current < old(self)@.nrow,
            cell_type(value@) == old(self)@.inputs[index as int].data_type,
        ensures
            final(self)@.wf(),
            final(self)@ == (FrameState {
                inputs: old(self)@.inputs.update(index as int, old(self)@.inputs[index as int].written(value@)),
                ..old(self)@
            }),
    {
        let ghost v = value@;
        self.inputs[index].unchecked_write_next(value);
        proof {
            assert(self@.inputs =~= old(self)@.inputs.update(index as int, old(self)@.inputs[index as int].written(v)));
            assert(self@.outputs =~= old(self)@.outputs);
        }
    }

    /// Stores `value` at row `row` of input column `index`, a string column.
    pub fn write_input_str(&mut self, index: usize, row: usize, value: &str)
        requires
            old(self)@.wf(),
            index < old(self)@.inputs.len(),
            row < old(self)@.nrow,
            old(self)@.inputs[index as int].data_type == MOJO_DataType::MOJO_STRING,
        ensures
            final(self)@.wf(),
            final(self)@ == (FrameState {
                inputs: old(self)@.inputs.update(
                    index as int,
                    old(self)@.inputs[index as int].stored_at(row as int, CellView::Str(value@)),
                ),
                ..old(self)@
            }),
    {
        self.inputs[index].unchecked_write_str(row, value);
        proof {
            assert(self@.inputs =~= old(self)@.inputs.update(
                index as int,
                old(self)@.inputs[index as int].stored_at(row as int, CellView::Str(value@)),
            ));
            assert(self@.outputs =~= old(self)@.outputs);
        }
    }

    /// Reads the value under the cursor of output column `index`.
    pub fn read_output_next(&mut self, index: usize) -> (r: Cell)
        requires
            old(self)@.wf(),
            index < old(self)@.outputs.len(),
            old(self)@.outputs[index as int].current < old(self)@.nrow,
        ensures
            final(self)@.wf(),
            r@ == old(self)@.outputs[index as int].next_value(),
            final(self)@ == (FrameState {
                outputs: old(self)@.outputs.update(index as int, old(self)@.outputs[index as int].advanced()),
                ..old(self)@
            }),
    {
        let r = self.outputs[index].unchecked_read_next();
        proof {
            assert(self@.outputs =~= old(self)@.outputs.update(index as int, old(self)@.outputs[index as int].advanced()));
            assert(self@.inputs =~= old(self)@.inputs);
        }
        r
    }

    /// The text at row `row` of output column `index`, a string column.
    pub fn read_output_string(&self, index: usize, row: usize) -> (r: String)
        requires
            self@.wf(),
            index < self@.outputs.len(),
            row < self@.nrow,
            self@.outputs[index as int].data_type == MOJO_DataType::MOJO_STRING,
        ensures
            self@.outputs[index as int].cells[row as int] == CellView::Str(r@),
    {
        self.outputs[index].unchecked_read_string(row)
    }

    /// Stores `value` at row `row` of output column `index`, where the engine's
    /// results are brought in; no cursor moves.
    pub fn store_output(&mut self, index: usize, row: usize, value: Cell)
        requires
            old(self)@.wf(),
            index < old(self)@.outputs.len(),
            row < old(self)@.nrow,
            cell_type(value@) == old(self)@.outputs[index as int].data_type,
        ensures
            final(self)@.wf(),
            final(self)@ == (FrameState {
                outputs: old(self)@.outputs.update(
                    index as int,
                    old(self)@.outputs[index as int].stored_at(row as int, value@),
                ),
                ..old(self)@
            }),
    {
        let ghost v = value@;
        self.outputs[index].unchecked_store(row, value);
        proof {
            assert(self@.outputs =~= old(self)@.outputs.update(
                index as int,
                old(self)@.outputs[index as int].stored_at(row as int, v),
            ));
            assert(self@.inputs =~= old(self)@.inputs);
        }
    }
}

} // verus!
