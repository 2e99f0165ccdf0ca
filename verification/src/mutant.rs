//! A mutation candidate: one operator instance tagged with its owning
//! module, function and source file.

use vstd::prelude::*;

use crate::mutation::{infos_view, MutantInfo, MutantInfoView};
use crate::operator_filter::Operator;
use crate::operators::binary::Binary;
use crate::operators::binary_swap::BinarySwap;
use crate::operators::break_continue::BreakContinue;
use crate::operators::delete_stmt::DeleteStmt;
use crate::operators::ifelse::IfElse;
use crate::operators::literal::Literal;
use crate::operators::unary::Unary;
use crate::span::Span;

verus! {

/// The tagged-variant type over the fixed, curated operator set; dispatch is
/// an explicit match.
#[derive(Clone, Copy, Debug, PartialEq, Eq, Structural)]
pub enum MutationOp {
    Binary(Binary),
    BinarySwap(BinarySwap),
    Unary(Unary),
    IfElse(IfElse),
    Literal(Literal),
    BreakContinue(BreakContinue),
    DeleteStmt(DeleteStmt),
}

impl MutationOp {
    /// Which named operator this instance belongs to.
    pub open spec fn spec_operator(self) -> Operator {
        match self {
            MutationOp::Binary(_) => Operator::BinaryOperatorReplacement,
            MutationOp::BinarySwap(_) => Operator::BinaryOperatorSwap,
            MutationOp::Unary(_) => Operator::UnaryOperatorReplacement,
            MutationOp::IfElse(_) => Operator::IfElseReplacement,
            MutationOp::Literal(_) => Operator::LiteralReplacement,
            MutationOp::BreakContinue(_) => Operator::BreakContinueReplacement,
            MutationOp::DeleteStmt(_) => Operator::DeleteStatement,
        }
    }

    pub fn operator(&self) -> (r: Operator)
        ensures
            r == self.spec_operator(),
    {
        match self {
            MutationOp::Binary(_) => Operator::BinaryOperatorReplacement,
            MutationOp::BinarySwap(_) => Operator::BinaryOperatorSwap,
            MutationOp::Unary(_) => Operator::UnaryOperatorReplacement,
            MutationOp::IfElse(_) => Operator::IfElseReplacement,
            MutationOp::Literal(_) => Operator::LiteralReplacement,
            MutationOp::BreakContinue(_) => Operator::BreakContinueReplacement,
            MutationOp::DeleteStmt(_) => Operator::DeleteStatement,
        }
    }

    /// The location of the AST node the candidate was created for.
    pub open spec fn spec_node_loc(self) -> Span {
        match self {
            MutationOp::Binary(op) => op.loc,
            MutationOp::BinarySwap(op) => op.loc,
            MutationOp::Unary(op) => op.loc,
            MutationOp::IfElse(op) => op.loc,
            MutationOp::Literal(op) => op.loc,
            MutationOp::BreakContinue(op) => op.loc,
            MutationOp::DeleteStmt(op) => op.loc,
        }
    }

    /// Everything `apply` returns for this candidate on the given text.
    pub open spec fn spec_apply(self, s: Seq<u8>) -> Seq<MutantInfoView> {
        match self {
            MutationOp::Binary(op) => op.spec_apply(s),
            MutationOp::BinarySwap(op) => op.spec_apply(s),
            MutationOp::Unary(op) => op.spec_apply(s),
            MutationOp::IfElse(op) => op.spec_apply(s),
            MutationOp::Literal(op) => op.spec_apply(s),
            MutationOp::BreakContinue(op) => op.spec_apply(s),
            MutationOp::DeleteStmt(op) => op.spec_apply(s),
        }
    }

    /// Apply the operator to the original file text.
    pub fn apply(&self, source: &Vec<u8>) -> (r: Vec<MutantInfo>)
        ensures
            infos_view(r@) == self.spec_apply(source@),
    {
        match self {
            MutationOp::Binary(op) => op.apply(source),
            MutationOp::BinarySwap(op) => op.apply(source),
            MutationOp::Unary(op) => op.apply(source),
            MutationOp::IfElse(op) => op.apply(source),
            MutationOp::Literal(op) => op.apply(source),
            MutationOp::BreakContinue(op) => op.apply(source),
            MutationOp::DeleteStmt(op) => op.apply(source),
        }
    }
}

/// One mutation candidate together with the names of the module and function
/// it was found in and the path of the owning file.
#[derive(Debug)]
pub struct Mutant {
    pub op: MutationOp,
    pub module_name: Option<String>,
    pub function_name: Option<String>,
    pub file_path: Option<String>,
}

impl Mutant {
    pub fn new(op: MutationOp) -> (r: Mutant)
        ensures
            r.op == op,
            r.module_name is None,
            r.function_name is None,
            r.file_path is None,
    {
        Mutant { op, module_name: None, function_name: None, file_path: None }
    }

    pub fn get_module_name(&self) -> (r: &Option<String>)
        ensures
            r == &self.module_name,
    {
        &self.module_name
    }

    pub fn get_function_name(&self) -> (r: &Option<String>)
        ensures
            r == &self.function_name,
    {
        &self.function_name
    }

    pub fn get_file_path(&self) -> (r: &Option<String>)
        ensures
            r == &self.file_path,
    {
        &self.file_path
    }

    /// Apply the candidate's operator to the original file text.
    pub fn apply(&self, source: &Vec<u8>) -> (r: Vec<MutantInfo>)
        ensures
            infos_view(r@) == self.op.spec_apply(source@),
    {
        self.op.apply(source)
    }
}

} // verus!
