//! The mutation operator library: seven pure operators, each mapping an AST
//! context plus the original file text to zero or more concrete mutants.

pub mod binary;
pub mod binary_swap;
pub mod break_continue;
pub mod delete_stmt;
pub mod ifelse;
pub mod literal;
pub mod unary;

use vstd::prelude::*;

use crate::ast::Expr;
use crate::mutation::{MutantInfo, MutantInfoView, Mutation, MutationView};
use crate::span::Span;
use crate::text::{spec_splice, splice, subvec};

verus! {

/// What an operator reads of one operand expression: its location, whether it
/// is a literal zero, and whether its subtree contains a call, a closure or
/// an indirect invocation.
#[derive(Clone, Copy, Debug, PartialEq, Eq, Structural)]
pub struct ExpLoc {
    pub loc: Span,
    pub is_zero_literal: bool,
    pub has_call: bool,
}

impl ExpLoc {
    /// The summary of an expression, as the candidate selector records it.
    pub open spec fn spec_of(e: Expr) -> ExpLoc {
        ExpLoc {
            loc: e.spec_loc(),
            is_zero_literal: e.spec_is_zero_literal(),
            has_call: e.spec_contains_call(),
        }
    }

    pub fn of(e: &Expr) -> (r: ExpLoc)
        ensures
            r == ExpLoc::spec_of(*e),
    {
        ExpLoc {
            loc: e.loc(),
            is_zero_literal: e.is_zero_literal(),
            has_call: crate::ast::contains_call(e),
        }
    }
}

/// One mutant obtained by rewriting the byte range `[start, end)` to `rep`.
pub open spec fn spec_replacement_info(
    s: Seq<u8>,
    start: int,
    end: int,
    name: Seq<char>,
    rep: Seq<u8>,
) -> MutantInfoView {
    MutantInfoView {
        mutated_source: spec_splice(s, start, end, rep),
        mutation: MutationView {
            span: Span { start: start as usize, end: end as usize },
            operator_name: name,
            original: s.subrange(start, end),
            replacement: rep,
        },
    }
}

/// Build the mutant that rewrites `[start, end)` of `source` to `rep`.
pub fn replacement_info(source: &Vec<u8>, start: usize, end: usize, name: &str, rep: Vec<u8>) -> (m:
    MutantInfo)
    requires
        start <= end <= source.len(),
    ensures
        m@ == spec_replacement_info(source@, start as int, end as int, name@, rep@),
{
    let mutated_source = splice(source, start, end, &rep);
    let original = subvec(source, start, end);
    MutantInfo {
        mutated_source,
        mutation: Mutation {
            span: Span { start, end },
            operator_name: name.to_owned(),
            original,
            replacement: rep,
        },
    }
}

/// `p` is a prefix of `s`.
pub open spec fn spec_is_prefix(p: Seq<u8>, s: Seq<u8>) -> bool {
    s.len() >= p.len() && s.subrange(0, p.len() as int) == p
}

pub fn is_prefix(p: &Vec<u8>, s: &Vec<u8>) -> (r: bool)
    ensures
        r == spec_is_prefix(p@, s@),
{
    if s.len() < p.len() {
        proof {
            assert(!spec_is_prefix(p@, s@));
        }
        return false;
    }
    let mut i: usize = 0;
    while i < p.len()
        invariant
            i <= p.len() <= s.len(),
            forall|j: int| 0 <= j < i ==> p@[j] == s@[j],
        decreases p.len() - i,
    {
        if p[i] != s[i] {
            proof {
                assert(s@.subrange(0, p@.len() as int)[i as int] != p@[i as int]);
            }
            return false;
        }
        i += 1;
    }
    proof {
        assert(s@.subrange(0, p@.len() as int) =~= p@);
    }
    true
}

} // verus!
