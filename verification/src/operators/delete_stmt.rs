//! Delete-Statement: remove an abort-like or resource-mutating statement.

use vstd::prelude::*;

use crate::mutation::{infos_view, MutantInfo, MutantInfoView};
use crate::operators::{replacement_info, spec_replacement_info};
use crate::span::Span;

verus! {

pub const OPERATOR_NAME: &'static str = "delete_statement";

/// The statement-deleting mutation operator: one mutant with the statement's
/// source text removed.
#[derive(Clone, Copy, Debug, PartialEq, Eq, Structural)]
pub struct DeleteStmt {
    pub loc: Span,
}

impl DeleteStmt {
    pub fn new(loc: Span) -> (r: DeleteStmt)
        ensures
            r == (DeleteStmt { loc }),
    {
        DeleteStmt { loc }
    }

    pub open spec fn spec_applicable(self, s: Seq<u8>) -> bool {
        self.loc.wf() && self.loc.end <= s.len()
    }

    /// Everything `apply` returns.
    pub open spec fn spec_apply(self, s: Seq<u8>) -> Seq<MutantInfoView> {
        if !self.spec_applicable(s) {
            Seq::empty()
        } else {
            seq![
                spec_replacement_info(
                    s,
                    self.loc.start as int,
                    self.loc.end as int,
                    OPERATOR_NAME@,
                    Seq::empty(),
                ),
            ]
        }
    }

    pub fn apply(&self, source: &Vec<u8>) -> (r: Vec<MutantInfo>)
        ensures
            infos_view(r@) == self.spec_apply(source@),
    {
        let mut r: Vec<MutantInfo> = Vec::new();
        if !(self.loc.start <= self.loc.end && self.loc.end <= source.len()) {
            proof {
                assert(infos_view(r@) =~= self.spec_apply(source@));
            }
            return r;
        }
        let rep: Vec<u8> = Vec::new();
        let m = replacement_info(source, self.loc.start, self.loc.end, OPERATOR_NAME, rep);
        r.push(m);
        proof {
            assert(infos_view(r@) =~= self.spec_apply(source@));
        }
        r
    }
}

} // verus!
