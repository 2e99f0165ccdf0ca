//! Binary-Replacement: swap a two-operand operator for another operator of
//! the same equivalence class.

use vstd::prelude::*;

use crate::ast::BinOp;
use crate::mutation::{infos_view, MutantInfo, MutantInfoView};
use crate::operators::{
    is_prefix, replacement_info, spec_is_prefix, spec_replacement_info, ExpLoc,
};
use crate::span::Span;
use crate::text::{rskip_ws, skip_ws, spec_rskip_ws, spec_skip_ws, subvec};

verus! {

pub const OPERATOR_NAME: &'static str = "binary_operator_replacement";

/// The binary replacement mutation operator.
///
/// The operator token is located as the substring between the two operand
/// spans, trimmed of surrounding whitespace; each surviving replacement from
/// the same equivalence class yields one mutant.
#[derive(Clone, Copy, Debug, PartialEq, Eq, Structural)]
pub struct Binary {
    pub operation: BinOp,
    pub loc: Span,
    pub left: ExpLoc,
    pub right: ExpLoc,
}

/// Replacement pairs that are suppressed when one operand is a literal zero:
/// under the unsigned value domain the mutant would behave exactly like the
/// original, so it could never be killed.
pub open spec fn spec_suppressed(orig: BinOp, cand: BinOp, left_zero: bool, right_zero: bool) -> bool {
    ||| (orig == BinOp::Eq && right_zero && cand == BinOp::Le)
    ||| (orig == BinOp::Eq && left_zero && cand == BinOp::Ge)
    ||| (orig == BinOp::Neq && right_zero && cand == BinOp::Gt)
    ||| (orig == BinOp::Neq && left_zero && cand == BinOp::Lt)
    ||| (orig == BinOp::Gt && right_zero && cand == BinOp::Neq)
    ||| (orig == BinOp::Lt && left_zero && cand == BinOp::Neq)
}

pub fn suppressed(orig: BinOp, cand: BinOp, left_zero: bool, right_zero: bool) -> (r: bool)
    ensures
        r == spec_suppressed(orig, cand, left_zero, right_zero),
{
    (orig == BinOp::Eq && right_zero && cand == BinOp::Le) || (orig == BinOp::Eq && left_zero
        && cand == BinOp::Ge) || (orig == BinOp::Neq && right_zero && cand == BinOp::Gt) || (orig
        == BinOp::Neq && left_zero && cand == BinOp::Lt) || (orig == BinOp::Gt && right_zero
        && cand == BinOp::Neq) || (orig == BinOp::Lt && left_zero && cand == BinOp::Neq)
}

/// Operators that possess a compound-assignment form.
pub open spec fn spec_compound_target(op: BinOp) -> bool {
    match op {
        BinOp::Add | BinOp::Sub | BinOp::Mul | BinOp::Div | BinOp::Mod | BinOp::BitOr
        | BinOp::BitAnd | BinOp::Xor | BinOp::Shl | BinOp::Shr => true,
        _ => false,
    }
}

/// The operator token found in the source starts with the compound-assignment
/// form of the operation (for example `+=` for an addition).
pub open spec fn spec_is_compound(op: BinOp, cur: Seq<u8>) -> bool {
    spec_compound_target(op) && spec_is_prefix(op.spec_token().push(61u8), cur)
}

/// Compound assignments are resolved by earlier compiler stages, so the
/// operation tag alone cannot tell `+` from `+=`; the token text decides.
pub fn check_compound_assignment(op: BinOp, cur: &Vec<u8>) -> (r: bool)
    ensures
        r == spec_is_compound(op, cur@),
{
    let target = match op {
        BinOp::Add | BinOp::Sub | BinOp::Mul | BinOp::Div | BinOp::Mod | BinOp::BitOr
        | BinOp::BitAnd | BinOp::Xor | BinOp::Shl | BinOp::Shr => true,
        _ => false,
    };
    if !target {
        return false;
    }
    let mut form = op.token();
    form.push(61);
    is_prefix(&form, cur)
}

impl Binary {
    pub fn new(operation: BinOp, loc: Span, left: ExpLoc, right: ExpLoc) -> (r: Binary)
        ensures
            r == (Binary { operation, loc, left, right }),
    {
        Binary { operation, loc, left, right }
    }

    /// The candidate fits the source text: the operand spans are distinct and
    /// ordered, they lie inside the text, and a non-empty operator token
    /// stands between them.
    pub open spec fn spec_applicable(self, s: Seq<u8>) -> bool {
        &&& self.left.loc != self.right.loc
        &&& self.left.loc.wf()
        &&& self.right.loc.wf()
        &&& self.left.loc.end <= self.right.loc.start
        &&& self.right.loc.end <= s.len()
        &&& self.spec_tok_start(s) < self.spec_tok_end(s)
    }

    /// Start of the operator token: first non-whitespace byte after the left
    /// operand.
    pub open spec fn spec_tok_start(self, s: Seq<u8>) -> int {
        spec_skip_ws(s, self.left.loc.end as int)
    }

    /// End of the operator token: just after the last non-whitespace byte
    /// before the right operand.
    pub open spec fn spec_tok_end(self, s: Seq<u8>) -> int {
        spec_rskip_ws(s, self.right.loc.start as int)
    }

    /// A replacement is kept when it differs from the original operation and
    /// is not a suppressed pair.
    pub open spec fn spec_kept(self, v: BinOp) -> bool {
        v != self.operation && !spec_suppressed(
            self.operation,
            v,
            self.left.is_zero_literal,
            self.right.is_zero_literal,
        )
    }

    /// The kept replacements among the first `i` operators of the class.
    pub open spec fn spec_surviving_prefix(self, i: int) -> Seq<BinOp> {
        self.operation.spec_class().take(i).filter(|v: BinOp| self.spec_kept(v))
    }

    /// The replacement operators that produce a mutant, in class order.
    pub open spec fn spec_surviving(self) -> Seq<BinOp> {
        self.spec_surviving_prefix(self.operation.spec_class().len() as int)
    }

    /// The replacement text: the new operator token, rendered as a
    /// compound assignment when the original token was one.
    pub open spec fn spec_rendered(op: BinOp, compound: bool) -> Seq<u8> {
        if compound {
            op.spec_token().push(61u8)
        } else {
            op.spec_token()
        }
    }

    /// The mutant generated for one replacement operator.
    pub open spec fn spec_mutant_for(self, s: Seq<u8>, op: BinOp) -> MutantInfoView {
        spec_replacement_info(
            s,
            self.spec_tok_start(s),
            self.spec_tok_end(s),
            OPERATOR_NAME@,
            Binary::spec_rendered(
                op,
                spec_is_compound(
                    self.operation,
                    s.subrange(self.spec_tok_start(s), self.spec_tok_end(s)),
                ),
            ),
        )
    }

    /// Everything `apply` returns, as a function of the candidate and the
    /// source text alone.
    pub open spec fn spec_apply(self, s: Seq<u8>) -> Seq<MutantInfoView> {
        if !self.spec_applicable(s) {
            Seq::empty()
        } else {
            self.spec_surviving().map_values(|op: BinOp| self.spec_mutant_for(s, op))
        }
    }

    /// Generate one mutant for each surviving replacement of the operator.
    ///
    /// A candidate whose operand spans coincide is skipped: identical spans
    /// indicate a compiler-synthesized expression (an implicit loop
    /// increment) with no operator token of its own in the source.
    pub fn apply(&self, source: &Vec<u8>) -> (r: Vec<MutantInfo>)
        ensures
            infos_view(r@) == self.spec_apply(source@),
            r@.len() == if self.spec_applicable(source@) {
                self.spec_surviving().len()
            } else {
                0
            },
            forall|v: BinOp|
                spec_suppressed(
                    self.operation,
                    v,
                    self.left.is_zero_literal,
                    self.right.is_zero_literal,
                ) ==> !self.spec_surviving().contains(v),
    {
        proof {
            assert forall|v: BinOp|
                spec_suppressed(
                    self.operation,
                    v,
                    self.left.is_zero_literal,
                    self.right.is_zero_literal,
                ) implies !self.spec_surviving().contains(v) by {
                lemma_zero_literal_suppression(*self, v);
            }
        }
        let mut r: Vec<MutantInfo> = Vec::new();
        if self.left.loc == self.right.loc {
            proof {
                assert(infos_view(r@) =~= self.spec_apply(source@));
            }
            return r;
        }
        if !(self.left.loc.start <= self.left.loc.end && self.right.loc.start
            <= self.right.loc.end && self.left.loc.end <= self.right.loc.start
            && self.right.loc.end <= source.len()) {
            proof {
                assert(infos_view(r@) =~= self.spec_apply(source@));
            }
            return r;
        }
        let start = skip_ws(source, self.left.loc.end);
        let end = rskip_ws(source, self.right.loc.start);
        if start >= end {
            proof {
                assert(infos_view(r@) =~= self.spec_apply(source@));
            }
            return r;
        }
        let cur = subvec(source, start, end);
        let compound = check_compound_assignment(self.operation, &cur);
        let class = self.operation.class();
        let mut i: usize = 0;
        while i < class.len()
            invariant
                i <= class.len(),
                class@ == self.operation.spec_class(),
                self.spec_applicable(source@),
                start as int == self.spec_tok_start(source@),
                end as int == self.spec_tok_end(source@),
                start <= end <= source.len(),
                compound == spec_is_compound(
                    self.operation,
                    source@.subrange(start as int, end as int),
                ),
                infos_view(r@) == self.spec_surviving_prefix(i as int).map_values(
                    |op: BinOp| self.spec_mutant_for(source@, op),
                ),
            decreases class.len() - i,
        {
            let v = class[i];
            let ghost pre = r@;
            if v != self.operation && !suppressed(
                self.operation,
                v,
                self.left.is_zero_literal,
                self.right.is_zero_literal,
            ) {
                let mut rep = v.token();
                if compound {
                    rep.push(61);
                }
                proof {
                    assert(rep@ == Binary::spec_rendered(v, compound));
                }
                let m = replacement_info(source, start, end, OPERATOR_NAME, rep);
                r.push(m);
                proof {
                    reveal(Seq::filter);
                    assert(class@.take(i + 1).drop_last() =~= class@.take(i as int));
                    assert(class@.take(i + 1).last() == class@[i as int]);
                    assert(self.spec_surviving_prefix(i + 1) == self.spec_surviving_prefix(
                        i as int,
                    ).push(v));
                    assert(m@ == self.spec_mutant_for(source@, v));
                    assert(infos_view(r@) =~= self.spec_surviving_prefix(i + 1).map_values(
                        |op: BinOp| self.spec_mutant_for(source@, op),
                    )) by {
                        let g = |op: BinOp| self.spec_mutant_for(source@, op);
                        let lhs = infos_view(r@);
                        let rhs = self.spec_surviving_prefix(i + 1).map_values(g);
                        assert(r@ == pre.push(m));
                        assert(lhs.len() == r@.len());
                        assert(infos_view(pre).len() == pre.len());
                        assert(pre.len() == self.spec_surviving_prefix(i as int).len());
                        assert(rhs.len() == self.spec_surviving_prefix(i + 1).len());
                        assert(lhs.len() == rhs.len());
                        assert forall|j: int| 0 <= j < lhs.len() implies lhs[j] == rhs[j] by {
                            if j < lhs.len() - 1 {
                                assert(lhs[j] == infos_view(pre)[j]);
                                assert(rhs[j] == self.spec_surviving_prefix(i as int).map_values(
                                    g,
                                )[j]);
                            } else {
                                assert(lhs[j] == m@);
                                assert(rhs[j] == g(v));
                            }
                        }
                    }
                }
            } else {
                proof {
                    reveal(Seq::filter);
                    assert(class@.take(i + 1).drop_last() =~= class@.take(i as int));
                    assert(class@.take(i + 1).last() == class@[i as int]);
                    assert(self.spec_surviving_prefix(i + 1) == self.spec_surviving_prefix(
                        i as int,
                    ));
                }
            }
            i += 1;
        }
        proof {
            assert(class@.take(class@.len() as int) =~= class@);
            let g = |op: BinOp| self.spec_mutant_for(source@, op);
            assert(self.spec_apply(source@) =~= self.spec_surviving().map_values(g)) by {
                let lhs = self.spec_apply(source@);
                let rhs = self.spec_surviving().map_values(g);
                assert(lhs.len() == rhs.len());
                assert forall|j: int| 0 <= j < lhs.len() implies lhs[j] == rhs[j] by {
                    assert(lhs[j] == self.spec_mutant_for(source@, self.spec_surviving()[j]));
                }
            }
        }
        r
    }
}

/// For a candidate with a zero-literal operand, a suppressed replacement is
/// never part of the surviving set, so no mutant is ever generated from it.
pub proof fn lemma_zero_literal_suppression(b: Binary, v: BinOp)
    requires
        spec_suppressed(b.operation, v, b.left.is_zero_literal, b.right.is_zero_literal),
    ensures
        !b.spec_surviving().contains(v),
{
    let pred = |x: BinOp| b.spec_kept(x);
    let class = b.operation.spec_class().take(b.operation.spec_class().len() as int);
    if b.spec_surviving().contains(v) {
        let i = choose|i: int| 0 <= i < b.spec_surviving().len() && b.spec_surviving()[i] == v;
        class.lemma_filter_pred(pred, i);
    }
}

} // verus!
