//! Unary-Replacement: drop a logical negation.

use vstd::prelude::*;

use crate::mutation::{infos_view, MutantInfo, MutantInfoView};
use crate::operators::{replacement_info, spec_replacement_info, ExpLoc};
use crate::span::Span;
use crate::text::subvec;

verus! {

pub const OPERATOR_NAME: &'static str = "unary_operator_replacement";

/// The unary mutation operator: for a negation, one mutant that removes the
/// operator, leaving the operand text in place of the whole expression.
#[derive(Clone, Copy, Debug, PartialEq, Eq, Structural)]
pub struct Unary {
    pub loc: Span,
    pub operand: ExpLoc,
}

impl Unary {
    pub fn new(loc: Span, operand: ExpLoc) -> (r: Unary)
        ensures
            r == (Unary { loc, operand }),
    {
        Unary { loc, operand }
    }

    /// The candidate fits the source text: the operand span lies inside the
    /// span of the whole negation expression.
    pub open spec fn spec_applicable(self, s: Seq<u8>) -> bool {
        &&& self.loc.wf()
        &&& self.operand.loc.wf()
        &&& self.loc.start <= self.operand.loc.start
        &&& self.operand.loc.end <= self.loc.end
        &&& self.loc.end <= s.len()
    }

    /// Everything `apply` returns.
    pub open spec fn spec_apply(self, s: Seq<u8>) -> Seq<MutantInfoView> {
        if !self.spec_applicable(s) {
            Seq::empty()
        } else {
            seq![
                spec_replacement_info(
                    s,
                    self.loc.start as int,
                    self.loc.end as int,
                    OPERATOR_NAME@,
                    s.subrange(self.operand.loc.start as int, self.operand.loc.end as int),
                ),
            ]
        }
    }

    pub fn apply(&self, source: &Vec<u8>) -> (r: Vec<MutantInfo>)
        ensures
            infos_view(r@) == self.spec_apply(source@),
    {
        let mut r: Vec<MutantInfo> = Vec::new();
        if !(self.loc.start <= self.operand.loc.start && self.operand.loc.start
            <= self.operand.loc.end && self.operand.loc.end <= self.loc.end && self.loc.end
            <= source.len()) {
            proof {
                assert(infos_view(r@) =~= self.spec_apply(source@));
            }
            return r;
        }
        let rep = subvec(source, self.operand.loc.start, self.operand.loc.end);
        let m = replacement_info(source, self.loc.start, self.loc.end, OPERATOR_NAME, rep);
        r.push(m);
        proof {
            assert(infos_view(r@) =~= self.spec_apply(source@));
        }
        r
    }
}

} // verus!
