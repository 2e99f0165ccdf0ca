//! If-Else-Swap: exchange the two branches of a conditional.

use vstd::prelude::*;

use crate::mutation::{infos_view, MutantInfo, MutantInfoView};
use crate::operators::{replacement_info, spec_replacement_info, ExpLoc};
use crate::span::Span;
use crate::text::subvec;

verus! {

pub const OPERATOR_NAME: &'static str = "if_else_replacement";

/// The if-else mutation operator: one mutant that exchanges the then-branch
/// and else-branch source text verbatim; the condition text is unchanged.
#[derive(Clone, Copy, Debug, PartialEq, Eq, Structural)]
pub struct IfElse {
    pub loc: Span,
    pub cond: ExpLoc,
    pub then_branch: ExpLoc,
    pub else_branch: ExpLoc,
}

impl IfElse {
    pub fn new(loc: Span, cond: ExpLoc, then_branch: ExpLoc, else_branch: ExpLoc) -> (r: IfElse)
        ensures
            r == (IfElse { loc, cond, then_branch, else_branch }),
    {
        IfElse { loc, cond, then_branch, else_branch }
    }

    /// The candidate fits the source text: the branch spans are ordered and
    /// inside the text.
    pub open spec fn spec_applicable(self, s: Seq<u8>) -> bool {
        &&& self.then_branch.loc.wf()
        &&& self.else_branch.loc.wf()
        &&& self.then_branch.loc.end <= self.else_branch.loc.start
        &&& self.else_branch.loc.end <= s.len()
    }

    /// The swapped text: else-branch, whatever stands between the branches,
    /// then-branch.
    pub open spec fn spec_swapped(self, s: Seq<u8>) -> Seq<u8> {
        s.subrange(self.else_branch.loc.start as int, self.else_branch.loc.end as int)
            + s.subrange(self.then_branch.loc.end as int, self.else_branch.loc.start as int)
            + s.subrange(self.then_branch.loc.start as int, self.then_branch.loc.end as int)
    }

    /// Everything `apply` returns.
    pub open spec fn spec_apply(self, s: Seq<u8>) -> Seq<MutantInfoView> {
        if !self.spec_applicable(s) {
            Seq::empty()
        } else {
            seq![
                spec_replacement_info(
                    s,
                    self.then_branch.loc.start as int,
                    self.else_branch.loc.end as int,
                    OPERATOR_NAME@,
                    self.spec_swapped(s),
                ),
            ]
        }
    }

    pub fn apply(&self, source: &Vec<u8>) -> (r: Vec<MutantInfo>)
        ensures
            infos_view(r@) == self.spec_apply(source@),
    {
        let mut r: Vec<MutantInfo> = Vec::new();
        if !(self.then_branch.loc.start <= self.then_branch.loc.end && self.then_branch.loc.end
            <= self.else_branch.loc.start && self.else_branch.loc.start <= self.else_branch.loc.end
            && self.else_branch.loc.end <= source.len()) {
            proof {
                assert(infos_view(r@) =~= self.spec_apply(source@));
            }
            return r;
        }
        let mut rep = subvec(source, self.else_branch.loc.start, self.else_branch.loc.end);
        let mut middle = subvec(source, self.then_branch.loc.end, self.else_branch.loc.start);
        let mut then_text = subvec(source, self.then_branch.loc.start, self.then_branch.loc.end);
        rep.append(&mut middle);
        rep.append(&mut then_text);
        proof {
            assert(rep@ =~= self.spec_swapped(source@));
        }
        let m = replacement_info(
            source,
            self.then_branch.loc.start,
            self.else_branch.loc.end,
            OPERATOR_NAME,
            rep,
        );
        r.push(m);
        proof {
            assert(infos_view(r@) =~= self.spec_apply(source@));
        }
        r
    }
}

} // verus!
