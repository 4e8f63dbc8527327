//! Writes the output columns of a frame as CSV records, one batch at a time.
use vstd::prelude::*;

use crate::codec::{encode_cell, encode_spec, MOJO_DataType};
use crate::column::ColumnState;
use crate::error::MojoError;
use crate::frame::{FrameState, RawFrame};
use crate::schema::PipelineSchema;

verus! {

/// The bytes of one CSV record with these fields, terminator included.
pub uninterp spec fn csv_record_bytes(fields: Seq<Seq<char>>) -> Seq<u8>;

/// Relies on `csv::Writer::write_record` into a `Vec<u8>` and on
/// `csv::Writer::into_inner`: the bytes written for one record depend on its
/// fields alone. Neither call fails here: writing into memory cannot fail,
/// and the first record of a fresh writer only sets the expected field count.
#[verifier::external_body]
fn write_csv_record(fields: &Vec<String>) -> (r: Option<Vec<u8>>)
    ensures
        r is Some,
        r matches Some(b) ==> b@ == csv_record_bytes(fields.deep_view()),
{
    let mut wtr = csv::Writer::from_writer(Vec::new());
    match wtr.write_record(fields) {
        Ok(()) => wtr.into_inner().ok(),
        Err(_) => None,
    }
}

/// The bytes of these records, one after another.
pub open spec fn csv_bytes(recs: Seq<Seq<Seq<char>>>) -> Seq<u8>
    decreases recs.len(),
{
    if recs.len() == 0 {
        Seq::empty()
    } else {
        csv_bytes(recs.drop_last()) + csv_record_bytes(recs.last())
    }
}

/// The fields of the first `rows` rows of the columns `outs`: row by row, one
/// encoded value per column, in column order.
pub open spec fn exported_rows(outs: Seq<ColumnState>, rows: nat) -> Seq<Seq<Seq<char>>> {
    Seq::new(rows, |r: int| Seq::new(outs.len(), |k: int| encode_spec(outs[k].cells[r])))
}

/// Column `c` after `rows` rows were read out of it: the cursor stands after
/// the last row read; a string column, read by row index, keeps it at the
/// origin.
pub open spec fn read_out(c: ColumnState, rows: nat) -> ColumnState {
    ColumnState {
        current: if c.data_type == MOJO_DataType::MOJO_STRING {
            0
        } else {
            rows as int
        },
        ..c
    }
}

/// `f` is `f0` after `rows` rows were read out of every output column.
pub open spec fn exported_from(f0: FrameState, f: FrameState, rows: nat) -> bool {
    &&& f.nrow == f0.nrow
    &&& f.inputs == f0.inputs
    &&& f.outputs == Seq::new(f0.outputs.len(), |k: int| read_out(f0.outputs[k], rows))
}

/// Writes the output columns of a frame as CSV, and counts what it wrote.
pub struct FrameExporter {
    saved_batches: usize,
    saved_rows: usize,
    /// Number of output columns
    ncols: usize,
}

impl FrameExporter {
    pub closed spec fn batches(&self) -> nat {
        self.saved_batches as nat
    }

    pub closed spec fn rows(&self) -> nat {
        self.saved_rows as nat
    }

    /// Number of output columns the exporter was made for.
    pub closed spec fn columns(&self) -> nat {
        self.ncols as nat
    }

    /// The names of the output columns of `schema`, in order: the fields of
    /// the CSV header.
    pub fn header(schema: &PipelineSchema) -> (r: Vec<String>)
        requires
            schema.wf(),
        ensures
            r.deep_view() == schema.output_names_view(),
    {
        let ghost names = schema.output_names_view();
        let mut fields: Vec<String> = Vec::new();
        let count = schema.output_count();
        let mut it = schema.outputs();
        let ghost all = it.remaining();
        let mut index: usize = 0;
        loop
            invariant
                it.wf(),
                all.len() == count,
                all.len() == names.len(),
                names == schema.output_names_view(),
                index <= all.len(),
                it.remaining() == all.subrange(index as int, all.len() as int),
                forall|i: int| 0 <= i < all.len() ==> (#[trigger] all[i]).0@ == names[i],
                fields.deep_view() == names.subrange(0, index as int),
            ensures
                fields.deep_view() == names,
            decreases all.len() - index,
        {
            let ghost before = it.remaining();
            match it.next() {
                None => {
                    assert(names.subrange(0, index as int) =~= names);
                    break;
                },
                Some((name, _data_type)) => {
                    proof {
                        assert(before[0] == all[index as int]);
                        assert(name@ == names[index as int]);
                    }
                    let ghost prev = fields.deep_view();
                    let copy = name.clone();
                    assert(copy@ == names[index as int]);
                    fields.push(copy);
                    proof {
                        assert(fields.deep_view() =~= prev.push(copy@));
                        assert(fields.deep_view() =~= names.subrange(0, index + 1));
                        assert(it.remaining() =~= all.subrange(index + 1, all.len() as int));
                    }
                    index = index + 1;
                },
            }
        }
        fields
    }

    /// An exporter for the output columns of `frame`, with nothing written
    /// yet, and the bytes of the CSV header, the output names of `schema`,
    /// to be written once before any row.
    pub fn init(schema: &PipelineSchema, frame: &RawFrame) -> (r: Result<(FrameExporter, Vec<u8>), MojoError>)
        requires
            schema.wf(),
            frame@.outputs.len() == schema.output_types_view().len(),
        ensures
            r matches Ok((exp, header)) && {
                &&& exp.batches() == 0
                &&& exp.rows() == 0
                &&& exp.columns() == frame@.outputs.len()
                &&& header@ == csv_record_bytes(schema.output_names_view())
            },
    {
        let fields = FrameExporter::header(schema);
        match write_csv_record(&fields) {
            Some(header) => Ok((FrameExporter { saved_batches: 0, saved_rows: 0, ncols: frame.output_count() }, header)),
            None => Err(MojoError::CsvError),
        }
    }

    /// Reads the first `rows` rows of every output column of `frame`, from the
    /// origin, and returns them encoded as CSV fields, row by row.
    pub fn export_rows(&self, frame: &mut RawFrame, rows: usize) -> (r: Vec<Vec<String>>)
        requires
            old(frame)@.wf(),
            rows <= old(frame)@.nrow,
            old(frame)@.outputs.len() == self.columns(),
        ensures
            final(frame)@.wf(),
            exported_from(old(frame)@, final(frame)@, rows as nat),
            r.deep_view() == exported_rows(old(frame)@.outputs, rows as nat),
    {
        let ghost f0 = frame@;
        let ghost outs = f0.outputs;
        frame.reset_outputs();
        let ncols = self.ncols;
        let mut records: Vec<Vec<String>> = Vec::new();
        let mut row: usize = 0;
        while row < rows
            invariant
                f0 == old(frame)@,
                outs == f0.outputs,
                outs.len() == ncols,
                rows <= f0.nrow,
                row <= rows,
                frame@.wf(),
                frame@.nrow == f0.nrow,
                frame@.inputs == f0.inputs,
                frame@.outputs == Seq::new(outs.len(), |k: int| read_out(outs[k], row as nat)),
                records.deep_view() == exported_rows(outs, row as nat),
            decreases rows - row,
        {
            let ghost start = frame@;
            let mut fields: Vec<String> = Vec::new();
            let mut k: usize = 0;
            while k < ncols
                invariant
                    outs.len() == ncols,
                    rows <= f0.nrow,
                    row < rows,
                    k <= ncols,
                    frame@.wf(),
                    frame@.nrow == f0.nrow,
                    frame@.inputs == f0.inputs,
                    frame@.outputs.len() == ncols,
                    forall|kk: int| 0 <= kk < k ==> #[trigger] frame@.outputs[kk] == read_out(outs[kk], (row + 1) as nat),
                    forall|kk: int| k <= kk < ncols ==> #[trigger] frame@.outputs[kk] == read_out(outs[kk], row as nat),
                    fields.deep_view() == Seq::new(k as nat, |kk: int| encode_spec(outs[kk].cells[row as int])),
                decreases ncols - k,
            {
                let t = frame.output_type(k);
                let s = if t == MOJO_DataType::MOJO_STRING {
                    frame.read_output_string(k, row)
                } else {
                    let c = frame.read_output_next(k);
                    encode_cell(&c)
                };
                proof {
                    assert(frame@.outputs[k as int] == read_out(outs[k as int], (row + 1) as nat));
                    assert(s@ == encode_spec(outs[k as int].cells[row as int]));
                }
                let ghost prev = fields.deep_view();
                fields.push(s);
                proof {
                    assert(fields.deep_view() =~= prev.push(s@));
                    assert(fields.deep_view() =~= Seq::new((k + 1) as nat, |kk: int| encode_spec(outs[kk].cells[row as int])));
                }
                k = k + 1;
            }
            let ghost prev_recs = records.deep_view();
            proof {
                assert(fields.deep_view() =~= Seq::new(outs.len(), |kk: int| encode_spec(outs[kk].cells[row as int])));
            }
            records.push(fields);
            proof {
                assert(records.deep_view() =~= prev_recs.push(exported_rows(outs, (row + 1) as nat)[row as int]));
                assert(records.deep_view() =~= exported_rows(outs, (row + 1) as nat));
                assert(frame@.outputs =~= Seq::new(outs.len(), |kk: int| read_out(outs[kk], (row + 1) as nat)));
            }
            row = row + 1;
        }
        records
    }

    /// Reads the first `rows` rows of every output column of `frame` and
    /// returns the bytes of their CSV records; counts one batch and `rows`
    /// rows.
    pub fn export_frame(&mut self, frame: &mut RawFrame, rows: usize) -> (r: Result<Vec<u8>, MojoError>)
        requires
            old(frame)@.wf(),
            rows <= old(frame)@.nrow,
            old(frame)@.outputs.len() == old(self).columns(),
            old(self).rows() + rows <= usize::MAX,
            old(self).batches() < usize::MAX,
        ensures
            final(frame)@.wf(),
            exported_from(old(frame)@, final(frame)@, rows as nat),
            final(self).columns() == old(self).columns(),
            r matches Ok(bytes) && {
                &&& bytes@ == csv_bytes(exported_rows(old(frame)@.outputs, rows as nat))
                &&& final(self).batches() == old(self).batches() + 1
                &&& final(self).rows() == old(self).rows() + rows
            },
    {
        let records = self.export_rows(frame, rows);
        let ghost recs = records.deep_view();
        let mut bytes: Vec<u8> = Vec::new();
        let mut i: usize = 0;
        while i < records.len()
            invariant
                frame@.wf(),
                exported_from(old(frame)@, frame@, rows as nat),
                recs == records.deep_view(),
                i <= recs.len(),
                bytes@ == csv_bytes(recs.subrange(0, i as int)),
            decreases recs.len() - i,
        {
            match write_csv_record(&records[i]) {
                Some(mut b) => {
                    let ghost prev = bytes@;
                    bytes.append(&mut b);
                    proof {
                        assert(recs.subrange(0, i + 1).drop_last() =~= recs.subrange(0, i as int));
                    }
                },
                None => {
                    return Err(MojoError::CsvError);
                },
            }
            i = i + 1;
        }
        proof {
            assert(recs.subrange(0, recs.len() as int) =~= recs);
        }
        self.saved_batches = self.saved_batches + 1;
        self.saved_rows = self.saved_rows + rows;
        Ok(bytes)
    }

    /// Number of batches written so far.
    pub fn total_batches_processed(&self) -> (r: usize)
        ensures
            r == self.batches(),
    {
        self.saved_batches
    }

    /// Number of rows written so far.
    pub fn total_rows_processed(&self) -> (r: usize)
        ensures
            r == self.rows(),
    {
        self.saved_rows
    }
}

} // verus!
