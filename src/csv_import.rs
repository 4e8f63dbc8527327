//! Fills the input columns of a frame from CSV records, one batch at a time.
use vstd::prelude::*;

use crate::codec::{decode_cell, decode_spec, MOJO_DataType};
use crate::column::ColumnState;
use crate::error::MojoError;
use crate::frame::{FrameState, RawFrame};
use crate::schema::PipelineSchema;

verus! {

// ---------------------------------------------------------------- binding by name

/// Position of the last header field equal to `name`; -1 when there is none.
pub open spec fn last_index_of(hs: Seq<Seq<char>>, name: Seq<char>) -> int
    decreases hs.len(),
{
    if hs.len() == 0 {
        -1
    } else if hs.last() == name {
        hs.len() - 1
    } else {
        last_index_of(hs.drop_last(), name)
    }
}

/// The (feature index, CSV field index) pairs of the first `n` features that
/// the header names, in feature order.
pub open spec fn bindings_of(names: Seq<Seq<char>>, hs: Seq<Seq<char>>, n: nat) -> Seq<(int, int)>
    decreases n,
{
    if n == 0 {
        Seq::empty()
    } else {
        let prev = bindings_of(names, hs, (n - 1) as nat);
        let j = last_index_of(hs, names[n - 1]);
        if j >= 0 {
            prev.push(((n - 1) as int, j))
        } else {
            prev
        }
    }
}

/// The last of the first `n` features that the header does not name.
pub open spec fn last_missing(names: Seq<Seq<char>>, hs: Seq<Seq<char>>, n: nat) -> Option<int>
    decreases n,
{
    if n == 0 {
        None
    } else if last_index_of(hs, names[n - 1]) < 0 {
        Some((n - 1) as int)
    } else {
        last_missing(names, hs, (n - 1) as nat)
    }
}

proof fn lemma_last_index_of_bounds(hs: Seq<Seq<char>>, name: Seq<char>)
    ensures
        -1 <= last_index_of(hs, name) < hs.len(),
        last_index_of(hs, name) >= 0 ==> hs[last_index_of(hs, name)] == name,
    decreases hs.len(),
{
    if hs.len() > 0 && hs.last() != name {
        lemma_last_index_of_bounds(hs.drop_last(), name);
    }
}

proof fn lemma_bindings_of(names: Seq<Seq<char>>, hs: Seq<Seq<char>>, n: nat)
    requires
        n <= names.len(),
    ensures
        forall|k: int|
            0 <= k < bindings_of(names, hs, n).len() ==> 0 <= (#[trigger] bindings_of(names, hs, n)[k]).0 < n
                && 0 <= bindings_of(names, hs, n)[k].1 < hs.len(),
        forall|k: int, l: int|
            0 <= k < l < bindings_of(names, hs, n).len() ==> (#[trigger] bindings_of(names, hs, n)[k]).0
                < (#[trigger] bindings_of(names, hs, n)[l]).0,
    decreases n,
{
    if n > 0 {
        let prev = bindings_of(names, hs, (n - 1) as nat);
        let b = bindings_of(names, hs, n);
        lemma_bindings_of(names, hs, (n - 1) as nat);
        lemma_last_index_of_bounds(hs, names[n - 1]);
        let j = last_index_of(hs, names[n - 1]);
        if j >= 0 {
            assert(b == prev.push(((n - 1) as int, j)));
            assert forall|k: int| 0 <= k < b.len() implies 0 <= (#[trigger] b[k]).0 < n && 0 <= b[k].1 < hs.len() by {
                if k < prev.len() {
                    assert(b[k] == prev[k]);
                }
            }
            assert forall|k: int, l: int| 0 <= k < l < b.len() implies (#[trigger] b[k]).0 < (#[trigger] b[l]).0 by {
                assert(b[k] == prev[k]);
                if l < prev.len() {
                    assert(b[l] == prev[l]);
                }
            }
        } else {
            assert(b == prev);
        }
    }
}

proof fn lemma_last_index_of_absent(hs: Seq<Seq<char>>, name: Seq<char>)
    requires
        !hs.contains(name),
    ensures
        last_index_of(hs, name) == -1,
    decreases hs.len(),
{
    if hs.len() > 0 {
        assert(hs.last() == hs[hs.len() - 1]);
        assert(!hs.drop_last().contains(name)) by {
            if hs.drop_last().contains(name) {
                let j = choose|j: int| 0 <= j < hs.drop_last().len() && hs.drop_last()[j] == name;
                assert(hs[j] == name);
            }
        }
        lemma_last_index_of_absent(hs.drop_last(), name);
    }
}

proof fn lemma_last_missing_found(names: Seq<Seq<char>>, hs: Seq<Seq<char>>, n: nat, i: int)
    requires
        0 <= i < n <= names.len(),
        last_index_of(hs, names[i]) < 0,
    ensures
        last_missing(names, hs, n) is Some,
    decreases n,
{
    if i < n - 1 && last_index_of(hs, names[n - 1]) >= 0 {
        lemma_last_missing_found(names, hs, (n - 1) as nat, i);
    }
}

/// An input feature whose name no header field holds is reported in strict
/// mode: `FrameImporter::init` then fails, before any record is read.
pub proof fn lemma_missing_column_reported(names: Seq<Seq<char>>, hs: Seq<Seq<char>>, i: int)
    requires
        0 <= i < names.len(),
        !hs.contains(names[i]),
    ensures
        last_missing(names, hs, names.len()) is Some,
{
    lemma_last_index_of_absent(hs, names[i]);
    lemma_last_missing_found(names, hs, names.len(), i);
}

/// Position of the last field of `headers` equal to `name`.
fn find_header(headers: &Vec<String>, name: &String) -> (r: Option<usize>)
    ensures
        match r {
            Some(j) => last_index_of(headers.deep_view(), name@) == j,
            None => last_index_of(headers.deep_view(), name@) == -1,
        },
{
    let ghost hs = headers.deep_view();
    let mut i = headers.len();
    assert(hs.subrange(0, i as int) =~= hs);
    while i > 0
        invariant
            i <= headers@.len(),
            hs == headers.deep_view(),
            last_index_of(hs, name@) == last_index_of(hs.subrange(0, i as int), name@),
        decreases i,
    {
        let ghost sub = hs.subrange(0, i as int);
        if headers[i - 1] == *name {
            assert(sub.last() == name@);
            return Some(i - 1);
        }
        assert(sub.drop_last() =~= hs.subrange(0, i - 1));
        i = i - 1;
    }
    None
}

// ---------------------------------------------------------------- the records

/// The CSV records still to be imported: a whole input, or the part of a
/// streamed input read so far.
pub struct RecordSource {
    records: Vec<Vec<String>>,
    next: usize,
}

impl RecordSource {
    pub closed spec fn wf(&self) -> bool {
        self.next <= self.records@.len()
    }

    /// The records not imported yet, in order, each as its fields.
    pub closed spec fn remaining(&self) -> Seq<Seq<Seq<char>>> {
        self.records.deep_view().skip(self.next as int)
    }

    /// Every record left has at least `width` fields.
    pub open spec fn fields_at_least(&self, width: nat) -> bool {
        forall|i: int| 0 <= i < self.remaining().len() ==> (#[trigger] self.remaining()[i]).len() >= width
    }

    pub fn new(records: Vec<Vec<String>>) -> (r: RecordSource)
        ensures
            r.wf(),
            r.remaining() == records.deep_view(),
    {
        let r = RecordSource { records, next: 0 };
        assert(r.remaining() =~= r.records.deep_view());
        r
    }

    /// Number of records left.
    pub fn remaining_count(&self) -> (r: usize)
        requires
            self.wf(),
        ensures
            r == self.remaining().len(),
    {
        self.records.len() - self.next
    }

    /// The next record.
    fn peek(&self) -> (r: &Vec<String>)
        requires
            self.wf(),
            self.remaining().len() > 0,
        ensures
            r.deep_view() == self.remaining()[0],
    {
        &self.records[self.next]
    }

    /// Skips the next record.
    fn advance(&mut self)
        requires
            old(self).wf(),
            old(self).remaining().len() > 0,
        ensures
            final(self).wf(),
            final(self).remaining() == old(self).remaining().drop_first(),
    {
        let n = self.records.len();
        assert(self.next < n);
        self.next = self.next + 1;
        assert(self.remaining() =~= old(self).remaining().drop_first());
    }
}

// ---------------------------------------------------------------- importing

/// Column `c` after a batch of `n` records was imported from CSV field `ci`
/// of `recs`: rows below `n` hold the decoded fields, the rest is untouched.
/// The cursor stands after the last row written; a string column, written
/// by row index, keeps it at the origin.
pub open spec fn import_column(c: ColumnState, recs: Seq<Seq<Seq<char>>>, ci: int, n: int) -> ColumnState {
    ColumnState {
        data_type: c.data_type,
        cells: Seq::new(
            c.cells.len(),
            |r: int|
                if r < n {
                    decode_spec(c.data_type, recs[r][ci])
                } else {
                    c.cells[r]
                },
        ),
        current: if c.data_type == MOJO_DataType::MOJO_STRING {
            0
        } else {
            n
        },
    }
}

/// `f` is `f0` with the first `n` records of `recs` imported: each bound
/// input column as [`import_column`] says, every other column untouched.
pub open spec fn imported_into(
    f0: FrameState,
    f: FrameState,
    bs: Seq<(int, int)>,
    recs: Seq<Seq<Seq<char>>>,
    n: int,
) -> bool {
    &&& f.nrow == f0.nrow
    &&& f.outputs == f0.outputs
    &&& f.inputs.len() == f0.inputs.len()
    &&& forall|k: int|
        0 <= k < bs.len() ==> f.inputs[(#[trigger] bs[k]).0] == import_column(f0.inputs[bs[k].0], recs, bs[k].1, n)
    &&& forall|i: int|
        0 <= i < f.inputs.len() && (forall|k: int| 0 <= k < bs.len() ==> (#[trigger] bs[k]).0 != i) ==> #[trigger] f.inputs[i]
            == f0.inputs[i]
}

/// What one import does when `k` records are left and the frame holds `cap`
/// rows: the number of rows it fills (`None` for none), whether the input is
/// then known to be exhausted, and how many records it reads.
pub open spec fn batch_outcome(exhausted: bool, k: nat, cap: nat) -> (Option<nat>, bool, nat) {
    if exhausted {
        (None, true, 0)
    } else {
        let n = if k < cap {
            k
        } else {
            cap
        };
        (
            if n == 0 {
                None
            } else {
                Some(n)
            },
            k < cap,
            n,
        )
    }
}

/// An input of exactly `cap` records fills one whole batch and is not yet
/// known to be exhausted.
pub proof fn lemma_full_batch(cap: nat)
    requires
        cap > 0,
    ensures
        batch_outcome(false, cap, cap) == (Some(cap), false, cap),
{
}

/// An input of `cap + 1` records gives a batch of `cap` rows, then a batch of
/// one row, after which the input is exhausted. (With room for one row only,
/// that second batch is full too, so the input is found exhausted one import
/// later.)
pub proof fn lemma_batch_boundary(cap: nat)
    requires
        cap > 1,
    ensures
        batch_outcome(false, cap + 1, cap) == (Some(cap), false, cap),
        batch_outcome(batch_outcome(false, cap + 1, cap).1, (cap + 1 - batch_outcome(false, cap + 1, cap).2) as nat, cap)
            == (Some(1nat), true, 1nat),
{
}

/// Binds CSV fields to the input columns of a frame and fills those columns
/// batch by batch.
pub struct FrameImporter {
    /// Input column of each binding
    icols: Vec<usize>,
    /// CSV field of each binding
    csv_indices: Vec<usize>,
    /// Number of fields of the CSV header
    width: usize,
    batch_size: usize,
    eof: bool,
}

impl FrameImporter {
    /// The (input column, CSV field) pairs, in input column order.
    pub closed spec fn bindings(&self) -> Seq<(int, int)> {
        Seq::new(self.icols@.len(), |k: int| (self.icols@[k] as int, self.csv_indices@[k] as int))
    }

    pub closed spec fn batch_size(&self) -> nat {
        self.batch_size as nat
    }

    /// Number of fields of the CSV header.
    pub closed spec fn width(&self) -> nat {
        self.width as nat
    }

    /// Whether the input has been found exhausted.
    pub closed spec fn exhausted(&self) -> bool {
        self.eof
    }

    pub closed spec fn wf(&self) -> bool {
        &&& self.icols@.len() == self.csv_indices@.len()
        &&& forall|k: int| 0 <= k < self.csv_indices@.len() ==> #[trigger] self.csv_indices@[k] < self.width
        &&& forall|k: int, l: int| 0 <= k < l < self.icols@.len() ==> #[trigger] self.icols@[k] < #[trigger] self.icols@[l]
    }

    /// The frame `f` has the columns and the row capacity that the importer
    /// was made for.
    pub open spec fn fits(&self, f: FrameState) -> bool {
        &&& f.wf()
        &&& f.nrow == self.batch_size()
        &&& forall|k: int| 0 <= k < self.bindings().len() ==> (#[trigger] self.bindings()[k]).0 < f.inputs.len()
    }

    /// Binds each input feature of `schema` to the last field of `headers` with
    /// its exact name. A feature that no field names is skipped, unless
    /// `strict`: then the last such feature is reported, before any record is
    /// read. `input_done` says whether the input is already exhausted.
    pub fn init(
        schema: &PipelineSchema,
        frame: &RawFrame,
        headers: &Vec<String>,
        input_done: bool,
        strict: bool,
    ) -> (r: Result<FrameImporter, MojoError>)
        requires
            schema.wf(),
            frame@.wf(),
            frame@.inputs.len() == schema.feature_types_view().len(),
        ensures
            ({
                let names = schema.feature_names_view();
                let hs = headers.deep_view();
                match r {
                    Ok(imp) => {
                        &&& !(strict && last_missing(names, hs, names.len()) is Some)
                        &&& imp.wf()
                        &&& imp.fits(frame@)
                        &&& imp.bindings() == bindings_of(names, hs, names.len())
                        &&& imp.batch_size() == frame@.nrow
                        &&& imp.width() == hs.len()
                        &&& imp.exhausted() == input_done
                    },
                    Err(e) => strict && (last_missing(names, hs, names.len()) matches Some(i)
                        && (e matches MojoError::MissingInputColumn(j) && j == i)),
                }
            }),
    {
        let ghost names = schema.feature_names_view();
        let ghost hs = headers.deep_view();
        let mut icols: Vec<usize> = Vec::new();
        let mut csv_indices: Vec<usize> = Vec::new();
        let mut missing_data: Option<usize> = None;
        let count = schema.feature_count();
        let mut it = schema.features();
        let ghost all = it.remaining();
        let mut index: usize = 0;
        loop
            invariant
                it.wf(),
                index <= all.len(),
                all.len() == count,
                all.len() == names.len(),
                hs == headers.deep_view(),
                names == schema.feature_names_view(),
                names.len() == schema.feature_types_view().len(),
                it.remaining() == all.subrange(index as int, all.len() as int),
                forall|i: int| 0 <= i < all.len() ==> (#[trigger] all[i]).0@ == names[i],
                icols@.len() == csv_indices@.len(),
                Seq::new(icols@.len(), |k: int| (icols@[k] as int, csv_indices@[k] as int))
                    == bindings_of(names, hs, index as nat),
                match missing_data {
                    Some(i) => last_missing(names, hs, index as nat) == Some(i as int),
                    None => last_missing(names, hs, index as nat) is None,
                },
            ensures
                index == all.len(),
            decreases all.len() - index,
        {
            let ghost before = it.remaining();
            match it.next() {
                None => {
                    break;
                },
                Some((name, _data_type)) => {
                    proof {
                        assert(before[0] == all[index as int]);
                        assert(name@ == names[index as int]);
                    }
                    let ghost prev = bindings_of(names, hs, index as nat);
                    let ghost old_icols = icols@;
                    let ghost old_csv = csv_indices@;
                    match find_header(headers, name) {
                        Some(csv_index) => {
                            icols.push(index);
                            csv_indices.push(csv_index);
                            proof {
                                assert(last_index_of(hs, name@) == csv_index as int);
                                assert(bindings_of(names, hs, (index + 1) as nat) == prev.push((index as int, csv_index as int)));
                                assert(Seq::new(icols@.len(), |k: int| (icols@[k] as int, csv_indices@[k] as int))
                                    =~= prev.push((index as int, csv_index as int))) by {
                                    assert(Seq::new(old_icols.len(), |k: int| (old_icols[k] as int, old_csv[k] as int)) == prev);
                                    assert forall|k: int| 0 <= k < old_icols.len() implies icols@[k] == old_icols[k] && csv_indices@[k] == old_csv[k] by {}
                                }
                            }
                        },
                        None => {
                            missing_data = Some(index);
                            proof {
                                assert(bindings_of(names, hs, (index + 1) as nat) == prev);
                            }
                        },
                    }
                    proof {
                        assert(it.remaining() =~= all.subrange(index + 1, all.len() as int));
                    }
                    index = index + 1;
                },
            }
        }
        if strict {
            if let Some(index) = missing_data {
                return Err(MojoError::MissingInputColumn(index));
            }
        }
        proof {
            lemma_bindings_of(names, hs, names.len());
        }
        let imp = FrameImporter {
            icols,
            csv_indices,
            width: headers.len(),
            batch_size: frame.nrow(),
            eof: input_done,
        };
        proof {
            assert(imp.bindings() =~= bindings_of(names, hs, names.len()));
            let b = imp.bindings();
            assert forall|k: int| 0 <= k < imp.csv_indices@.len() implies #[trigger] imp.csv_indices@[k] < imp.width by {
                assert(b[k].1 == imp.csv_indices@[k]);
            }
            assert forall|k: int, l: int| 0 <= k < l < imp.icols@.len() implies #[trigger] imp.icols@[k]
                < #[trigger] imp.icols@[l] by {
                assert(b[k].0 == imp.icols@[k]);
                assert(b[l].0 == imp.icols@[l]);
            }
        }
        Ok(imp)
    }

    /// Fills the bound input columns of `frame` with the next batch of
    /// records of `source`: as many as the frame holds, or all that are left
    /// when fewer are. Returns the number of rows filled, or `None` when there
    /// were none. A batch that ends the input early marks it exhausted; once
    /// exhausted, nothing more is read.
    pub fn import_frame(&mut self, frame: &mut RawFrame, source: &mut RecordSource) -> (r: Option<usize>)
        requires
            old(self).wf(),
            old(self).fits(old(frame)@),
            old(source).wf(),
            old(source).fields_at_least(old(self).width()),
        ensures
            final(self).wf(),
            final(self).bindings() == old(self).bindings(),
            final(self).batch_size() == old(self).batch_size(),
            final(self).width() == old(self).width(),
            final(self).fits(final(frame)@),
            final(source).wf(),
            ({
                let (rows, done, n) = batch_outcome(
                    old(self).exhausted(),
                    old(source).remaining().len(),
                    old(self).batch_size(),
                );
                &&& (r is None <==> rows is None)
                &&& (r matches Some(x) ==> rows == Some(x as nat))
                &&& final(self).exhausted() == done
                &&& final(source).remaining() == old(source).remaining().skip(n as int)
                &&& if old(self).exhausted() {
                    final(frame)@ == old(frame)@
                } else {
                    imported_into(old(frame)@, final(frame)@, old(self).bindings(), old(source).remaining(), n as int)
                }
            }),
    {
        if self.eof {
            assert(source.remaining() =~= source.remaining().skip(0));
            return None;
        }
        let ghost f0 = frame@;
        let ghost recs = source.remaining();
        let ghost bs = self.bindings();
        let nb = self.icols.len();
        let mut b: usize = 0;
        while b < nb
            invariant
                self.wf(),
                bs == self.bindings(),
                nb == bs.len(),
                b <= nb,
                self.fits(f0),
                frame@.wf(),
                frame@.nrow == f0.nrow,
                frame@.outputs == f0.outputs,
                frame@.inputs.len() == f0.inputs.len(),
                forall|k: int| 0 <= k < b ==> frame@.inputs[(#[trigger] bs[k]).0] == import_column(f0.inputs[bs[k].0], recs, bs[k].1, 0),
                forall|i: int|
                    0 <= i < frame@.inputs.len() && (forall|k: int| 0 <= k < b ==> (#[trigger] bs[k]).0 != i) ==> #[trigger] frame@.inputs[i]
                        == f0.inputs[i],
            decreases nb - b,
        {
            let fi = self.icols[b];
            proof {
                assert(bs[b as int].0 == fi);
            }
            let ghost before = frame@;
            frame.reset_input(fi);
            proof {
                let c = f0.inputs[fi as int];
                assert(before.inputs[fi as int] == c) by {
                    assert forall|k: int| 0 <= k < b implies (#[trigger] bs[k]).0 != fi by {
                        assert(self.icols@[k] < self.icols@[b as int]);
                    }
                }
                assert(import_column(c, recs, bs[b as int].1, 0).cells =~= c.cells);
                assert forall|k: int| 0 <= k < b + 1 implies frame@.inputs[(#[trigger] bs[k]).0] == import_column(
                    f0.inputs[bs[k].0],
                    recs,
                    bs[k].1,
                    0,
                ) by {
                    if k < b {
                        assert(self.icols@[k] < self.icols@[b as int]);
                    }
                }
            }
            b = b + 1;
        }
        let mut row: usize = 0;
        loop
            invariant
                self.wf(),
                !self.eof,
                bs == self.bindings(),
                nb == bs.len(),
                self.fits(f0),
                recs.len() == old(source).remaining().len(),
                old(source).fields_at_least(self.width()),
                recs == old(source).remaining(),
                row <= self.batch_size,
                row <= recs.len(),
                source.wf(),
                source.remaining() == recs.skip(row as int),
                frame@.wf(),
                imported_into(f0, frame@, bs, recs, row as int),
            ensures
                row == self.batch_size || row == recs.len(),
                row < self.batch_size ==> row == recs.len(),
                source.wf(),
                source.remaining() == recs.skip(row as int),
                frame@.wf(),
                imported_into(f0, frame@, bs, recs, row as int),
            decreases self.batch_size - row,
        {
            if row == self.batch_size {
                break;
            }
            if source.remaining_count() == 0 {
                break;
            }
            let rec = source.peek();
            proof {
                assert(rec.deep_view() == recs[row as int]);
            }
            let ghost start = frame@;
            let mut b: usize = 0;
            while b < nb
                invariant
                    self.wf(),
                    bs == self.bindings(),
                    nb == bs.len(),
                    self.fits(f0),
                    b <= nb,
                    row < self.batch_size,
                    row < recs.len(),
                    rec.deep_view() == recs[row as int],
                    rec.deep_view().len() >= self.width(),
                    frame@.wf(),
                    imported_into(f0, start, bs, recs, row as int),
                    frame@.nrow == f0.nrow,
                    frame@.outputs == f0.outputs,
                    frame@.inputs.len() == f0.inputs.len(),
                    forall|k: int|
                        0 <= k < b ==> frame@.inputs[(#[trigger] bs[k]).0] == import_column(
                            f0.inputs[bs[k].0],
                            recs,
                            bs[k].1,
                            row + 1,
                        ),
                    forall|k: int|
                        b <= k < nb ==> frame@.inputs[(#[trigger] bs[k]).0] == import_column(
                            f0.inputs[bs[k].0],
                            recs,
                            bs[k].1,
                            row as int,
                        ),
                    forall|i: int|
                        0 <= i < frame@.inputs.len() && (forall|k: int| 0 <= k < nb ==> (#[trigger] bs[k]).0 != i)
                            ==> #[trigger] frame@.inputs[i] == f0.inputs[i],
                decreases nb - b,
            {
                let fi = self.icols[b];
                let ci = self.csv_indices[b];
                let ghost cur = frame@;
                let ghost c0 = f0.inputs[fi as int];
                proof {
                    assert(bs[b as int] == (fi as int, ci as int));
                    assert(cur.inputs[fi as int] == import_column(c0, recs, ci as int, row as int));
                    assert(ci < self.width);
                }
                let t = frame.input_type(fi);
                let field: &str = rec[ci].as_str();
                proof {
                    assert(field@ == recs[row as int][ci as int]);
                }
                if t == MOJO_DataType::MOJO_STRING {
                    frame.write_input_str(fi, row, field);
                } else {
                    frame.write_input_next(fi, decode_cell(t, field));
                }
                proof {
                    assert(frame@.inputs[fi as int] == import_column(c0, recs, ci as int, row + 1)) by {
                        assert(frame@.inputs[fi as int].cells =~= import_column(c0, recs, ci as int, row + 1).cells);
                    }
                    assert forall|k: int| 0 <= k < b + 1 implies frame@.inputs[(#[trigger] bs[k]).0] == import_column(
                        f0.inputs[bs[k].0],
                        recs,
                        bs[k].1,
                        row + 1,
                    ) by {
                        if k < b {
                            assert(self.icols@[k] < self.icols@[b as int]);
                        }
                    }
                    assert forall|k: int| b + 1 <= k < nb implies frame@.inputs[(#[trigger] bs[k]).0] == import_column(
                        f0.inputs[bs[k].0],
                        recs,
                        bs[k].1,
                        row as int,
                    ) by {
                        assert(self.icols@[b as int] < self.icols@[k]);
                    }
                }
                b = b + 1;
            }
            source.advance();
            proof {
                assert(source.remaining() =~= recs.skip(row + 1));
            }
            row = row + 1;
        }
        if row == self.batch_size {
            return Some(row);
        }
        self.eof = true;
        if row == 0 {
            None
        } else {
            Some(row)
        }
    }

    /// Number of fields of the CSV header the importer was made for.
    pub fn header_width(&self) -> (r: usize)
        ensures
            r == self.width(),
    {
        self.width
    }

    /// Whether the input has been found exhausted.
    pub fn is_exhausted(&self) -> (r: bool)
        ensures
            r == self.exhausted(),
    {
        self.eof
    }
}

} // verus!
