//! Binary-Swap: exchange the two operands around an operator.

use vstd::prelude::*;

use crate::mutation::{infos_view, MutantInfo, MutantInfoView};
use crate::ast::BinOp;
use crate::operators::{replacement_info, spec_replacement_info, ExpLoc};
use crate::span::Span;
use crate::text::{rskip_ws, skip_ws, spec_rskip_ws, spec_skip_ws, subvec};

verus! {

pub const OPERATOR_NAME: &'static str = "binary_operator_swap";

/// The binary swap mutation operator.
///
/// Swapping is an equivalent edit when the operation is commutative and both
/// operands are pure, and meaningless when the operand spans coincide (a
/// compiler-synthesized expression); in both cases nothing is generated.
#[derive(Clone, Copy, Debug, PartialEq, Eq, Structural)]
pub struct BinarySwap {
    pub operation: BinOp,
    pub loc: Span,
    pub left: ExpLoc,
    pub right: ExpLoc,
}

impl BinarySwap {
    /// Creates a new instance of the binary swap mutation operator.
    pub fn new(operation: BinOp, loc: Span, left: ExpLoc, right: ExpLoc) -> (r: BinarySwap)
        ensures
            r == (BinarySwap { operation, loc, left, right }),
    {
        BinarySwap { operation, loc, left, right }
    }

    /// The operation commutes: it belongs to the commutative set and neither
    /// operand subtree contains a call, a closure or an indirect invocation.
    /// With a side-effecting operand the order may matter, so swapping stays
    /// a meaningful mutation.
    pub open spec fn spec_is_commutative(self) -> bool {
        self.operation.spec_is_commutative() && !self.left.has_call && !self.right.has_call
    }

    pub fn is_commutative(&self) -> (r: bool)
        ensures
            r == self.spec_is_commutative(),
    {
        self.operation.is_commutative() && !self.left.has_call && !self.right.has_call
    }

    /// The candidate fits the source text.
    pub open spec fn spec_applicable(self, s: Seq<u8>) -> bool {
        &&& self.left.loc != self.right.loc
        &&& !self.spec_is_commutative()
        &&& self.left.loc.wf()
        &&& self.right.loc.wf()
        &&& self.left.loc.end <= self.right.loc.start
        &&& self.right.loc.end <= s.len()
        &&& spec_skip_ws(s, self.left.loc.end as int) < spec_rskip_ws(
            s,
            self.right.loc.start as int,
        )
    }

    /// The swapped text: right operand, one space, the operator token found
    /// in the source, one space, left operand.
    pub open spec fn spec_swapped(self, s: Seq<u8>) -> Seq<u8> {
        let tok_start = spec_skip_ws(s, self.left.loc.end as int);
        let tok_end = spec_rskip_ws(s, self.right.loc.start as int);
        s.subrange(self.right.loc.start as int, self.right.loc.end as int) + seq![32u8]
            + s.subrange(tok_start, tok_end) + seq![32u8] + s.subrange(
            self.left.loc.start as int,
            self.left.loc.end as int,
        )
    }

    /// Everything `apply` returns: one mutant exchanging the operand text,
    /// or nothing when the candidate is skipped.
    pub open spec fn spec_apply(self, s: Seq<u8>) -> Seq<MutantInfoView> {
        if !self.spec_applicable(s) {
            Seq::empty()
        } else {
            seq![
                spec_replacement_info(
                    s,
                    self.left.loc.start as int,
                    self.right.loc.end as int,
                    OPERATOR_NAME@,
                    self.spec_swapped(s),
                ),
            ]
        }
    }

    /// Emit the single operand-swap mutant, or nothing for an identical-span
    /// or effectively commutative candidate.
    pub fn apply(&self, source: &Vec<u8>) -> (r: Vec<MutantInfo>)
        ensures
            infos_view(r@) == self.spec_apply(source@),
            self.left.loc == self.right.loc ==> r@.len() == 0,
            self.spec_is_commutative() ==> r@.len() == 0,
    {
        let mut r: Vec<MutantInfo> = Vec::new();
        if self.left.loc == self.right.loc || self.is_commutative() {
            proof {
                assert(infos_view(r@) =~= self.spec_apply(source@));
            }
            return r;
        }
        if !(self.left.loc.start <= self.left.loc.end && self.right.loc.start
            <= self.right.loc.end && self.left.loc.end <= self.right.loc.start
            && self.right.loc.end <= source.len()) {
            proof {
                assert(infos_view(r@) =~= self.spec_apply(source@));
            }
            return r;
        }
        let tok_start = skip_ws(source, self.left.loc.end);
        let tok_end = rskip_ws(source, self.right.loc.start);
        if tok_start >= tok_end {
            proof {
                assert(infos_view(r@) =~= self.spec_apply(source@));
            }
            return r;
        }
        let mut rep = subvec(source, self.right.loc.start, self.right.loc.end);
        rep.push(32);
        let tok = subvec(source, tok_start, tok_end);
        proof {
            assert(rep@ =~= source@.subrange(
                self.right.loc.start as int,
                self.right.loc.end as int,
            ) + seq![32u8] + tok@.subrange(0, 0));
        }
        let mut k: usize = 0;
        while k < tok.len()
            invariant
                k <= tok.len(),
                tok@ == source@.subrange(tok_start as int, tok_end as int),
                rep@ == source@.subrange(self.right.loc.start as int, self.right.loc.end as int)
                    + seq![32u8] + tok@.subrange(0, k as int),
            decreases tok.len() - k,
        {
            rep.push(tok[k]);
            proof {
                assert(tok@.subrange(0, k + 1 as int) == tok@.subrange(0, k as int).push(
                    tok@[k as int],
                ));
                assert(source@.subrange(self.right.loc.start as int, self.right.loc.end as int)
                    + seq![32u8] + tok@.subrange(0, k + 1 as int) =~= (source@.subrange(
                    self.right.loc.start as int,
                    self.right.loc.end as int,
                ) + seq![32u8] + tok@.subrange(0, k as int)).push(tok@[k as int]));
            }
            k += 1;
        }
        rep.push(32);
        let left_text = subvec(source, self.left.loc.start, self.left.loc.end);
        proof {
            assert(tok@.subrange(0, tok@.len() as int) =~= tok@);
            assert(rep@ =~= source@.subrange(
                self.right.loc.start as int,
                self.right.loc.end as int,
            ) + seq![32u8] + tok@ + seq![32u8] + left_text@.subrange(0, 0));
        }
        let mut k2: usize = 0;
        while k2 < left_text.len()
            invariant
                k2 <= left_text.len(),
                left_text@ == source@.subrange(self.left.loc.start as int, self.left.loc.end as int),
                tok@ == source@.subrange(tok_start as int, tok_end as int),
                rep@ == source@.subrange(self.right.loc.start as int, self.right.loc.end as int)
                    + seq![32u8] + tok@ + seq![32u8] + left_text@.subrange(0, k2 as int),
            decreases left_text.len() - k2,
        {
            rep.push(left_text[k2]);
            proof {
                assert(left_text@.subrange(0, k2 + 1 as int) == left_text@.subrange(
                    0,
                    k2 as int,
                ).push(left_text@[k2 as int]));
                assert(source@.subrange(self.right.loc.start as int, self.right.loc.end as int)
                    + seq![32u8] + tok@ + seq![32u8] + left_text@.subrange(0, k2 + 1 as int) =~= (
                source@.subrange(self.right.loc.start as int, self.right.loc.end as int)
                    + seq![32u8] + tok@ + seq![32u8] + left_text@.subrange(0, k2 as int)).push(
                    left_text@[k2 as int],
                ));
            }
            k2 += 1;
        }
        proof {
            assert(tok@.subrange(0, tok@.len() as int) =~= tok@);
            assert(left_text@.subrange(0, left_text@.len() as int) =~= left_text@);
            assert(rep@ =~= self.spec_swapped(source@));
        }
        let m = replacement_info(source, self.left.loc.start, self.right.loc.end, OPERATOR_NAME, rep);
        r.push(m);
        proof {
            assert(infos_view(r@) =~= self.spec_apply(source@));
        }
        r
    }
}

} // verus!
