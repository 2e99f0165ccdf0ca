//! Mutant records: the concrete mutated text and its metadata.

use vstd::prelude::*;

use crate::span::Span;

verus! {

/// Metadata of one applied mutation: the byte range that was rewritten, the
/// operator that produced it, and the original and replacement text.
#[derive(Debug)]
pub struct Mutation {
    pub span: Span,
    pub operator_name: String,
    pub original: Vec<u8>,
    pub replacement: Vec<u8>,
}

/// The mathematical value of a `Mutation`.
pub ghost struct MutationView {
    pub span: Span,
    pub operator_name: Seq<char>,
    pub original: Seq<u8>,
    pub replacement: Seq<u8>,
}

impl View for Mutation {
    type V = MutationView;

    open spec fn view(&self) -> MutationView {
        MutationView {
            span: self.span,
            operator_name: self.operator_name@,
            original: self.original@,
            replacement: self.replacement@,
        }
    }
}

/// One concrete mutant: the whole mutated file text plus its metadata.
#[derive(Debug)]
pub struct MutantInfo {
    pub mutated_source: Vec<u8>,
    pub mutation: Mutation,
}

/// The mathematical value of a `MutantInfo`.
pub ghost struct MutantInfoView {
    pub mutated_source: Seq<u8>,
    pub mutation: MutationView,
}

impl View for MutantInfo {
    type V = MutantInfoView;

    open spec fn view(&self) -> MutantInfoView {
        MutantInfoView { mutated_source: self.mutated_source@, mutation: self.mutation@ }
    }
}

/// The views of a list of mutants.
pub open spec fn infos_view(v: Seq<MutantInfo>) -> Seq<MutantInfoView> {
    v.map_values(|m: MutantInfo| m@)
}

} // verus!
