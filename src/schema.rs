//! The columns that a pipeline declares: its input features and its outputs.
use vstd::prelude::*;

use crate::carray::{CArrayIterator, CTwinArrayIterator};
use crate::codec::MOJO_DataType;

verus! {

/// Names and types of a pipeline's input and output columns, in the engine's
/// order, and the texts that the model reads as missing values.
pub struct PipelineSchema {
    feature_names: Vec<String>,
    feature_types: Vec<MOJO_DataType>,
    output_names: Vec<String>,
    output_types: Vec<MOJO_DataType>,
    missing_values: Vec<String>,
}

impl PipelineSchema {
    pub closed spec fn feature_names_view(&self) -> Seq<Seq<char>> {
        self.feature_names.deep_view()
    }

    pub closed spec fn feature_types_view(&self) -> Seq<MOJO_DataType> {
        self.feature_types@
    }

    pub closed spec fn output_names_view(&self) -> Seq<Seq<char>> {
        self.output_names.deep_view()
    }

    pub closed spec fn output_types_view(&self) -> Seq<MOJO_DataType> {
        self.output_types@
    }

    pub closed spec fn missing_values_view(&self) -> Seq<Seq<char>> {
        self.missing_values.deep_view()
    }

    /// Each column has one name and one type.
    pub open spec fn wf(&self) -> bool {
        &&& self.feature_names_view().len() == self.feature_types_view().len()
        &&& self.output_names_view().len() == self.output_types_view().len()
    }

    pub fn new(
        feature_names: Vec<String>,
        feature_types: Vec<MOJO_DataType>,
        output_names: Vec<String>,
        output_types: Vec<MOJO_DataType>,
        missing_values: Vec<String>,
    ) -> (r: PipelineSchema)
        requires
            feature_names@.len() == feature_types@.len(),
            output_names@.len() == output_types@.len(),
        ensures
            r.wf(),
            r.feature_names_view() == feature_names.deep_view(),
            r.feature_types_view() == feature_types@,
            r.output_names_view() == output_names.deep_view(),
            r.output_types_view() == output_types@,
            r.missing_values_view() == missing_values.deep_view(),
    {
        PipelineSchema { feature_names, feature_types, output_names, output_types, missing_values }
    }

    pub fn feature_count(&self) -> (r: usize)
        ensures
            r == self.feature_types_view().len(),
    {
        self.feature_types.len()
    }

    pub fn output_count(&self) -> (r: usize)
        ensures
            r == self.output_types_view().len(),
    {
        self.output_types.len()
    }

    pub fn feature_types(&self) -> (r: &[MOJO_DataType])
        ensures
            r@ == self.feature_types_view(),
    {
        self.feature_types.as_slice()
    }

    pub fn output_types(&self) -> (r: &[MOJO_DataType])
        ensures
            r@ == self.output_types_view(),
    {
        self.output_types.as_slice()
    }

    /// The input features as (name, type) pairs, in order.
    pub fn features(&self) -> (r: CTwinArrayIterator<'_, String, MOJO_DataType>)
        requires
            self.wf(),
        ensures
            r.wf(),
            r.remaining().len() == self.feature_types_view().len(),
            forall|i: int|
                0 <= i < r.remaining().len() ==> (#[trigger] r.remaining()[i]).0@ == self.feature_names_view()[i]
                    && r.remaining()[i].1 == self.feature_types_view()[i],
    {
        let n = self.feature_types.len();
        proof {
            assert(self.feature_names@.len() == self.feature_names.deep_view().len());
        }
        CTwinArrayIterator::new(n, self.feature_names.as_slice(), self.feature_types.as_slice())
    }

    /// The output columns as (name, type) pairs, in order.
    pub fn outputs(&self) -> (r: CTwinArrayIterator<'_, String, MOJO_DataType>)
        requires
            self.wf(),
        ensures
            r.wf(),
            r.remaining().len() == self.output_types_view().len(),
            forall|i: int|
                0 <= i < r.remaining().len() ==> (#[trigger] r.remaining()[i]).0@ == self.output_names_view()[i]
                    && r.remaining()[i].1 == self.output_types_view()[i],
    {
        let n = self.output_types.len();
        proof {
            assert(self.output_names@.len() == self.output_names.deep_view().len());
        }
        CTwinArrayIterator::new(n, self.output_names.as_slice(), self.output_types.as_slice())
    }

    /// The texts that the model reads as missing values, in order.
    pub fn missing_values(&self) -> (r: CArrayIterator<'_, String>)
        ensures
            r.wf(),
            r.remaining().len() == self.missing_values_view().len(),
            forall|i: int| 0 <= i < r.remaining().len() ==> (#[trigger] r.remaining()[i])@ == self.missing_values_view()[i],
    {
        let n = self.missing_values.len();
        CArrayIterator::new(self.missing_values.as_slice(), n)
    }
}

} // verus!
