//! Break-Continue-Replacement: flip a loop `break` to `continue` or back.

use vstd::prelude::*;

use crate::mutation::{infos_view, MutantInfo, MutantInfoView};
use crate::operators::{replacement_info, spec_replacement_info};
use crate::span::Span;

verus! {

pub const OPERATOR_NAME: &'static str = "break_continue_replacement";

pub open spec fn spec_break_bytes() -> Seq<u8> {
    seq![98u8, 114u8, 101u8, 97u8, 107u8]
}

pub open spec fn spec_continue_bytes() -> Seq<u8> {
    seq![99u8, 111u8, 110u8, 116u8, 105u8, 110u8, 117u8, 101u8]
}

/// The break/continue mutation operator: one mutant that replaces the
/// statement with its counterpart.
#[derive(Clone, Copy, Debug, PartialEq, Eq, Structural)]
pub struct BreakContinue {
    pub loc: Span,
    pub is_break: bool,
}

impl BreakContinue {
    pub fn new(loc: Span, is_break: bool) -> (r: BreakContinue)
        ensures
            r == (BreakContinue { loc, is_break }),
    {
        BreakContinue { loc, is_break }
    }

    pub open spec fn spec_applicable(self, s: Seq<u8>) -> bool {
        self.loc.wf() && self.loc.end <= s.len()
    }

    /// The replacement text: `continue` for a `break`, `break` for a
    /// `continue`.
    pub open spec fn spec_replacement(self) -> Seq<u8> {
        if self.is_break {
            spec_continue_bytes()
        } else {
            spec_break_bytes()
        }
    }

    /// Everything `apply` returns.
    pub open spec fn spec_apply(self, s: Seq<u8>) -> Seq<MutantInfoView> {
        if !self.spec_applicable(s) {
            Seq::empty()
        } else {
            seq![
                spec_replacement_info(
                    s,
                    self.loc.start as int,
                    self.loc.end as int,
                    OPERATOR_NAME@,
                    self.spec_replacement(),
                ),
            ]
        }
    }

    pub fn apply(&self, source: &Vec<u8>) -> (r: Vec<MutantInfo>)
        ensures
            infos_view(r@) == self.spec_apply(source@),
    {
        let mut r: Vec<MutantInfo> = Vec::new();
        if !(self.loc.start <= self.loc.end && self.loc.end <= source.len()) {
            proof {
                assert(infos_view(r@) =~= self.spec_apply(source@));
            }
            return r;
        }
        let mut rep: Vec<u8> = Vec::new();
        if self.is_break {
            rep.push(99);
            rep.push(111);
            rep.push(110);
            rep.push(116);
            rep.push(105);
            rep.push(110);
            rep.push(117);
            rep.push(101);
            proof {
                assert(rep@ =~= spec_continue_bytes());
            }
        } else {
            rep.push(98);
            rep.push(114);
            rep.push(101);
            rep.push(97);
            rep.push(107);
            proof {
                assert(rep@ =~= spec_break_bytes());
            }
        }
        let m = replacement_info(source, self.loc.start, self.loc.end, OPERATOR_NAME, rep);
        r.push(m);
        proof {
            assert(infos_view(r@) =~= self.spec_apply(source@));
        }
        r
    }
}

} // verus!
