//! Literal-Replacement: rewrite a literal to a fixed set of alternate values.

use vstd::prelude::*;

use crate::ast::LitValue;
use crate::mutation::{infos_view, MutantInfo, MutantInfoView};
use crate::operators::{replacement_info, spec_replacement_info};
use crate::span::Span;
use crate::text::{decimal_bytes, spec_decimal};

verus! {

pub const OPERATOR_NAME: &'static str = "literal_replacement";

pub open spec fn spec_true_bytes() -> Seq<u8> {
    seq![116u8, 114u8, 117u8, 101u8]
}

pub open spec fn spec_false_bytes() -> Seq<u8> {
    seq![102u8, 97u8, 108u8, 115u8, 101u8]
}

/// The alternate values tried for a numeric literal: zero, one, and the two
/// neighbouring values, kept in this order, without duplicates and without
/// the original value itself.
pub open spec fn spec_number_alternates(n: u128) -> Seq<u128> {
    if n == 0 {
        seq![1u128]
    } else if n == 1 {
        seq![0u128, 2u128]
    } else if n == 2 {
        seq![0u128, 1u128, 3u128]
    } else if n == u128::MAX {
        seq![0u128, 1u128, (n - 1) as u128]
    } else {
        seq![0u128, 1u128, (n - 1) as u128, (n + 1) as u128]
    }
}

/// The alternate texts for a literal value: a boolean is negated; a number is
/// replaced by each of its alternate values, rendered in decimal.
pub open spec fn spec_alternates(v: LitValue) -> Seq<Seq<u8>> {
    match v {
        LitValue::Bool(b) => seq![
            if b {
                spec_false_bytes()
            } else {
                spec_true_bytes()
            },
        ],
        LitValue::Number(n) => spec_number_alternates(n).map_values(
            |a: u128| spec_decimal(a as nat),
        ),
    }
}

fn bool_bytes(b: bool) -> (r: Vec<u8>)
    ensures
        r@ == if b {
            spec_true_bytes()
        } else {
            spec_false_bytes()
        },
{
    let mut r: Vec<u8> = Vec::new();
    if b {
        r.push(116);
        r.push(114);
        r.push(117);
        r.push(101);
        proof {
            assert(r@ =~= spec_true_bytes());
        }
    } else {
        r.push(102);
        r.push(97);
        r.push(108);
        r.push(115);
        r.push(101);
        proof {
            assert(r@ =~= spec_false_bytes());
        }
    }
    r
}

fn number_alternates(n: u128) -> (r: Vec<u128>)
    ensures
        r@ == spec_number_alternates(n),
{
    let mut r: Vec<u128> = Vec::new();
    if n == 0 {
        r.push(1);
    } else if n == 1 {
        r.push(0);
        r.push(2);
    } else if n == 2 {
        r.push(0);
        r.push(1);
        r.push(3);
    } else if n == u128::MAX {
        r.push(0);
        r.push(1);
        r.push(n - 1);
    } else {
        r.push(0);
        r.push(1);
        r.push(n - 1);
        r.push(n + 1);
    }
    proof {
        assert(r@ =~= spec_number_alternates(n));
    }
    r
}

/// The literal mutation operator: one mutant for each member of the fixed
/// alternate-value set of the literal's semantic type.
#[derive(Clone, Copy, Debug, PartialEq, Eq, Structural)]
pub struct Literal {
    pub value: LitValue,
    pub loc: Span,
}

impl Literal {
    pub fn new(value: LitValue, loc: Span) -> (r: Literal)
        ensures
            r == (Literal { value, loc }),
    {
        Literal { value, loc }
    }

    /// The candidate fits the source text.
    pub open spec fn spec_applicable(self, s: Seq<u8>) -> bool {
        self.loc.wf() && self.loc.end <= s.len()
    }

    /// The mutant generated for one alternate text.
    pub open spec fn spec_text_mutant(self, s: Seq<u8>, rep: Seq<u8>) -> MutantInfoView {
        spec_replacement_info(s, self.loc.start as int, self.loc.end as int, OPERATOR_NAME@, rep)
    }

    /// Everything `apply` returns.
    pub open spec fn spec_apply(self, s: Seq<u8>) -> Seq<MutantInfoView> {
        if !self.spec_applicable(s) {
            Seq::empty()
        } else {
            spec_alternates(self.value).map_values(|rep: Seq<u8>| self.spec_text_mutant(s, rep))
        }
    }

    pub fn apply(&self, source: &Vec<u8>) -> (r: Vec<MutantInfo>)
        ensures
            infos_view(r@) == self.spec_apply(source@),
    {
        let mut r: Vec<MutantInfo> = Vec::new();
        if !(self.loc.start <= self.loc.end && self.loc.end <= source.len()) {
            proof {
                assert(infos_view(r@) =~= self.spec_apply(source@));
            }
            return r;
        }
        match &self.value {
            LitValue::Bool(b) => {
                let rep = bool_bytes(!*b);
                let m = replacement_info(source, self.loc.start, self.loc.end, OPERATOR_NAME, rep);
                r.push(m);
            },
            LitValue::Number(n) => {
                let alts = number_alternates(*n);
                let mut i: usize = 0;
                while i < alts.len()
                    invariant
                        i <= alts.len(),
                        alts@ == spec_number_alternates(self.value->Number_0),
                        self.value is Number,
                        self.spec_applicable(source@),
                        self.loc.end <= source@.len(),
                        infos_view(r@) == alts@.subrange(0, i as int).map_values(
                            |a: u128| self.spec_text_mutant(source@, spec_decimal(a as nat)),
                        ),
                    decreases alts.len() - i,
                {
                    let rep = decimal_bytes(alts[i]);
                    let ghost pre = r@;
                    let m = replacement_info(
                        source,
                        self.loc.start,
                        self.loc.end,
                        OPERATOR_NAME,
                        rep,
                    );
                    r.push(m);
                    proof {
                        let g = |a: u128| self.spec_text_mutant(source@, spec_decimal(a as nat));
                        assert(alts@.subrange(0, i + 1 as int) =~= alts@.subrange(0, i as int).push(
                            alts@[i as int],
                        ));
                        assert(m@ == g(alts@[i as int]));
                        assert(infos_view(r@) =~= alts@.subrange(0, i + 1 as int).map_values(g))
                            by {
                            let lhs = infos_view(r@);
                            let rhs = alts@.subrange(0, i + 1 as int).map_values(g);
                            assert(r@ == pre.push(m));
                            assert(lhs.len() == r@.len());
                            assert(infos_view(pre).len() == pre.len());
                            assert(pre.len() == alts@.subrange(0, i as int).len());
                            assert(rhs.len() == alts@.subrange(0, i + 1 as int).len());
                            assert(lhs.len() == rhs.len());
                            assert forall|j: int| 0 <= j < lhs.len() implies lhs[j] == rhs[j] by {
                                if j < lhs.len() - 1 {
                                    assert(lhs[j] == infos_view(pre)[j]);
                                    assert(rhs[j] == alts@.subrange(0, i as int).map_values(g)[j]);
                                } else {
                                    assert(lhs[j] == m@);
                                    assert(rhs[j] == g(alts@[i as int]));
                                }
                            }
                        }
                    }
                    i += 1;
                }
                proof {
                    assert(alts@.subrange(0, alts@.len() as int) =~= alts@);
                    let g = |a: u128| self.spec_text_mutant(source@, spec_decimal(a as nat));
                    assert(infos_view(r@) =~= self.spec_apply(source@)) by {
                        let lhs = infos_view(r@);
                        let rhs = self.spec_apply(source@);
                        assert(lhs == alts@.map_values(g));
                        assert(rhs.len() == spec_alternates(self.value).len());
                        assert(spec_alternates(self.value).len() == alts@.len());
                        assert forall|j: int| 0 <= j < lhs.len() implies lhs[j] == rhs[j] by {
                            assert(lhs[j] == g(alts@[j]));
                            assert(spec_alternates(self.value)[j] == spec_decimal(
                                alts@[j] as nat,
                            ));
                            assert(rhs[j] == self.spec_text_mutant(
                                source@,
                                spec_alternates(self.value)[j],
                            ));
                        }
                        assert(lhs.len() == rhs.len());
                    }
                }
            },
        }
        proof {
            assert(infos_view(r@) =~= self.spec_apply(source@));
        }
        r
    }
}

} // verus!
