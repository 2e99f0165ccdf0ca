//! The library's own model of the parsed Move source.
//!
//! The compiler front end that parses Move is an external collaborator; what
//! the mutation logic reads from its tree is held here as plain values: node
//! shapes, byte spans, literal values and attribute names.

use vstd::prelude::*;

use crate::span::Span;

verus! {

/// A two-operand operation that can appear in a `Call` node.
#[derive(Clone, Copy, Debug, PartialEq, Eq, Structural)]
pub enum BinOp {
    Add,
    Sub,
    Mul,
    Div,
    Mod,
    BitOr,
    BitAnd,
    Xor,
    Shl,
    Shr,
    Or,
    And,
    Eq,
    Neq,
    Lt,
    Gt,
    Le,
    Ge,
}

impl BinOp {
    /// The source token of the operator.
    pub open spec fn spec_token(self) -> Seq<u8> {
        match self {
            BinOp::Add => seq![43u8],
            BinOp::Sub => seq![45u8],
            BinOp::Mul => seq![42u8],
            BinOp::Div => seq![47u8],
            BinOp::Mod => seq![37u8],
            BinOp::BitOr => seq![124u8],
            BinOp::BitAnd => seq![38u8],
            BinOp::Xor => seq![94u8],
            BinOp::Shl => seq![60u8, 60u8],
            BinOp::Shr => seq![62u8, 62u8],
            BinOp::Or => seq![124u8, 124u8],
            BinOp::And => seq![38u8, 38u8],
            BinOp::Eq => seq![61u8, 61u8],
            BinOp::Neq => seq![33u8, 61u8],
            BinOp::Lt => seq![60u8],
            BinOp::Gt => seq![62u8],
            BinOp::Le => seq![60u8, 61u8],
            BinOp::Ge => seq![62u8, 61u8],
        }
    }

    pub fn token(self) -> (r: Vec<u8>)
        ensures
            r@ == self.spec_token(),
    {
        let mut r: Vec<u8> = Vec::new();
        match self {
            BinOp::Add => r.push(43),
            BinOp::Sub => r.push(45),
            BinOp::Mul => r.push(42),
            BinOp::Div => r.push(47),
            BinOp::Mod => r.push(37),
            BinOp::BitOr => r.push(124),
            BinOp::BitAnd => r.push(38),
            BinOp::Xor => r.push(94),
            BinOp::Shl => {
                r.push(60);
                r.push(60);
            },
            BinOp::Shr => {
                r.push(62);
                r.push(62);
            },
            BinOp::Or => {
                r.push(124);
                r.push(124);
            },
            BinOp::And => {
                r.push(38);
                r.push(38);
            },
            BinOp::Eq => {
                r.push(61);
                r.push(61);
            },
            BinOp::Neq => {
                r.push(33);
                r.push(61);
            },
            BinOp::Lt => r.push(60),
            BinOp::Gt => r.push(62),
            BinOp::Le => {
                r.push(60);
                r.push(61);
            },
            BinOp::Ge => {
                r.push(62);
                r.push(61);
            },
        }
        proof {
            assert(r@ =~= self.spec_token());
        }
        r
    }

    /// The equivalence class a replacement may be drawn from: arithmetic,
    /// bitwise, shift, lazy logical, and relational operators each form one.
    pub open spec fn spec_class(self) -> Seq<BinOp> {
        match self {
            BinOp::Add | BinOp::Sub | BinOp::Mul | BinOp::Div | BinOp::Mod => seq![
                BinOp::Add,
                BinOp::Sub,
                BinOp::Mul,
                BinOp::Div,
                BinOp::Mod,
            ],
            BinOp::BitOr | BinOp::BitAnd | BinOp::Xor => seq![BinOp::BitOr, BinOp::BitAnd, BinOp::Xor],
            BinOp::Shl | BinOp::Shr => seq![BinOp::Shl, BinOp::Shr],
            BinOp::Or | BinOp::And => seq![BinOp::Or, BinOp::And],
            BinOp::Eq | BinOp::Neq | BinOp::Lt | BinOp::Gt | BinOp::Le | BinOp::Ge => seq![
                BinOp::Eq,
                BinOp::Neq,
                BinOp::Lt,
                BinOp::Gt,
                BinOp::Le,
                BinOp::Ge,
            ],
        }
    }

    pub fn class(self) -> (r: Vec<BinOp>)
        ensures
            r@ == self.spec_class(),
    {
        let mut r: Vec<BinOp> = Vec::new();
        match self {
            BinOp::Add | BinOp::Sub | BinOp::Mul | BinOp::Div | BinOp::Mod => {
                r.push(BinOp::Add);
                r.push(BinOp::Sub);
                r.push(BinOp::Mul);
                r.push(BinOp::Div);
                r.push(BinOp::Mod);
            },
            BinOp::BitOr | BinOp::BitAnd | BinOp::Xor => {
                r.push(BinOp::BitOr);
                r.push(BinOp::BitAnd);
                r.push(BinOp::Xor);
            },
            BinOp::Shl | BinOp::Shr => {
                r.push(BinOp::Shl);
                r.push(BinOp::Shr);
            },
            BinOp::Or | BinOp::And => {
                r.push(BinOp::Or);
                r.push(BinOp::And);
            },
            BinOp::Eq | BinOp::Neq | BinOp::Lt | BinOp::Gt | BinOp::Le | BinOp::Ge => {
                r.push(BinOp::Eq);
                r.push(BinOp::Neq);
                r.push(BinOp::Lt);
                r.push(BinOp::Gt);
                r.push(BinOp::Le);
                r.push(BinOp::Ge);
            },
        }
        proof {
            assert(r@ =~= self.spec_class());
        }
        r
    }

    /// Operations whose operand order does not matter when the operands are
    /// free of side effects.
    pub open spec fn spec_is_commutative(self) -> bool {
        match self {
            BinOp::Add | BinOp::Mul | BinOp::Eq | BinOp::Neq | BinOp::BitOr | BinOp::BitAnd
            | BinOp::Or | BinOp::And | BinOp::Xor => true,
            _ => false,
        }
    }

    pub fn is_commutative(self) -> (r: bool)
        ensures
            r == self.spec_is_commutative(),
    {
        match self {
            BinOp::Add | BinOp::Mul | BinOp::Eq | BinOp::Neq | BinOp::BitOr | BinOp::BitAnd
            | BinOp::Or | BinOp::And | BinOp::Xor => true,
            _ => false,
        }
    }
}

/// A literal value, with its semantic type.
#[derive(Clone, Copy, Debug, PartialEq, Eq, Structural)]
pub enum LitValue {
    Bool(bool),
    Number(u128),
}

/// The operation tag of a `Call` node, as far as the mutation rules read it.
#[derive(Clone, Copy, Debug, PartialEq, Eq, Structural)]
pub enum CallOp {
    /// A two-operand arithmetic, bitwise, shift, logical or relational call.
    Binary(BinOp),
    /// Logical negation.
    Not,
    /// The abort builtin.
    Abort,
    /// The resource-mutating `move_to` builtin.
    MoveTo,
    /// A call to a named function.
    FunctionCall,
    /// Construction of a closure.
    Closure,
    /// Any other builtin.
    Other,
}

/// One node of the expression tree, with its source location.
#[derive(Debug)]
pub enum Expr {
    Call { loc: Span, op: CallOp, args: Vec<Expr> },
    IfElse { loc: Span, cond: Box<Expr>, then_branch: Box<Expr>, else_branch: Box<Expr> },
    Value { loc: Span, value: LitValue },
    LoopCont { loc: Span, is_break: bool },
    Lambda { loc: Span, body: Box<Expr> },
    Invoke { loc: Span, args: Vec<Expr> },
    SpecBlock { loc: Span, children: Vec<Expr> },
    Other { loc: Span, children: Vec<Expr> },
}

impl Expr {
    pub open spec fn spec_loc(&self) -> Span {
        match *self {
            Expr::Call { loc, .. } => loc,
            Expr::IfElse { loc, .. } => loc,
            Expr::Value { loc, .. } => loc,
            Expr::LoopCont { loc, .. } => loc,
            Expr::Lambda { loc, .. } => loc,
            Expr::Invoke { loc, .. } => loc,
            Expr::SpecBlock { loc, .. } => loc,
            Expr::Other { loc, .. } => loc,
        }
    }

    pub fn loc(&self) -> (r: Span)
        ensures
            r == self.spec_loc(),
    {
        match self {
            Expr::Call { loc, .. } => *loc,
            Expr::IfElse { loc, .. } => *loc,
            Expr::Value { loc, .. } => *loc,
            Expr::LoopCont { loc, .. } => *loc,
            Expr::Lambda { loc, .. } => *loc,
            Expr::Invoke { loc, .. } => *loc,
            Expr::SpecBlock { loc, .. } => *loc,
            Expr::Other { loc, .. } => *loc,
        }
    }

    /// Whether a subtree contains a function call, a closure construction or
    /// an indirect invocation; such operands may have side effects, so their
    /// order cannot be assumed interchangeable.
    pub open spec fn spec_contains_call(self) -> bool
        decreases self,
    {
        match self {
            Expr::Call { op, args, .. } => op == CallOp::FunctionCall || op == CallOp::Closure
                || spec_any_contains_call(args@),
            Expr::IfElse { cond, then_branch, else_branch, .. } => (*cond).spec_contains_call() || (
            *then_branch).spec_contains_call() || (*else_branch).spec_contains_call(),
            Expr::Value { .. } => false,
            Expr::LoopCont { .. } => false,
            Expr::Lambda { .. } => true,
            Expr::Invoke { .. } => true,
            Expr::SpecBlock { children, .. } => spec_any_contains_call(children@),
            Expr::Other { children, .. } => spec_any_contains_call(children@),
        }
    }

    /// Whether this node is a literal zero.
    pub open spec fn spec_is_zero_literal(self) -> bool {
        match self {
            Expr::Value { value: LitValue::Number(n), .. } => n == 0,
            _ => false,
        }
    }

    pub fn is_zero_literal(&self) -> (r: bool)
        ensures
            r == self.spec_is_zero_literal(),
    {
        match self {
            Expr::Value { value: LitValue::Number(n), .. } => *n == 0,
            _ => false,
        }
    }
}

pub open spec fn spec_any_contains_call(es: Seq<Expr>) -> bool
    decreases es,
{
    if es.len() == 0 {
        false
    } else {
        es[0].spec_contains_call() || spec_any_contains_call(es.drop_first())
    }
}

/// Every element of `es` is call-free exactly when the disjunction is false.
pub proof fn lemma_any_contains_call(es: Seq<Expr>)
    ensures
        spec_any_contains_call(es) <==> exists|i: int|
            0 <= i < es.len() && es[i].spec_contains_call(),
    decreases es,
{
    if es.len() > 0 {
        lemma_any_contains_call(es.drop_first());
        if spec_any_contains_call(es.drop_first()) {
            let j = choose|j: int|
                0 <= j < es.drop_first().len() && es.drop_first()[j].spec_contains_call();
            assert(es[j + 1].spec_contains_call());
        }
        if exists|i: int| 0 <= i < es.len() && es[i].spec_contains_call() {
            let i = choose|i: int| 0 <= i < es.len() && es[i].spec_contains_call();
            if i > 0 {
                assert(es.drop_first()[i - 1].spec_contains_call());
            }
        }
    }
}

pub fn contains_call(e: &Expr) -> (r: bool)
    ensures
        r == e.spec_contains_call(),
    decreases *e,
{
    match e {
        Expr::Call { op, args, .. } => {
            if matches!(op, CallOp::FunctionCall) || matches!(op, CallOp::Closure) {
                true
            } else {
                any_contains_call(args)
            }
        },
        Expr::IfElse { cond, then_branch, else_branch, .. } => {
            contains_call(cond) || contains_call(then_branch) || contains_call(else_branch)
        },
        Expr::Value { .. } => false,
        Expr::LoopCont { .. } => false,
        Expr::Lambda { .. } => true,
        Expr::Invoke { .. } => true,
        Expr::SpecBlock { children, .. } => any_contains_call(children),
        Expr::Other { children, .. } => any_contains_call(children),
    }
}

fn any_contains_call(es: &Vec<Expr>) -> (r: bool)
    ensures
        r == spec_any_contains_call(es@),
    decreases es@,
{
    let mut i: usize = 0;
    let mut found = false;
    proof {
        lemma_any_contains_call(es@);
    }
    while i < es.len()
        invariant
            i <= es.len(),
            found <==> exists|j: int| 0 <= j < i && es@[j].spec_contains_call(),
            spec_any_contains_call(es@) <==> exists|j: int|
                0 <= j < es@.len() && es@[j].spec_contains_call(),
        decreases es.len() - i,
    {
        if contains_call(&es[i]) {
            found = true;
        }
        i += 1;
    }
    found
}

/// Whether one of the attribute names equals the target name.
/// A missing attribute is simply absent: this lookup never fails.
pub open spec fn spec_contains_attribute(attrs: Seq<String>, target: Seq<char>) -> bool {
    exists|i: int| 0 <= i < attrs.len() && attrs[i]@ == target
}

pub fn contains_attribute(attrs: &Vec<String>, target: &str) -> (r: bool)
    ensures
        r == spec_contains_attribute(attrs@, target@),
{
    let mut i: usize = 0;
    while i < attrs.len()
        invariant
            i <= attrs.len(),
            forall|j: int| 0 <= j < i ==> attrs@[j]@ != target@,
        decreases attrs.len() - i,
    {
        if crate::text::str_eq(attrs[i].as_str(), target) {
            return true;
        }
        i += 1;
    }
    false
}

/// A function of a module: its name, its attributes, and its body when it has
/// one (native functions have none).
#[derive(Debug)]
pub struct Function {
    pub name: String,
    pub attrs: Vec<String>,
    pub body: Option<Expr>,
}

/// A module of the project: its name, the path of the file it was parsed
/// from, whether that file belongs to the project's own source tree (modules
/// pulled in as dependencies are never mutated), its attributes, and its
/// functions.
#[derive(Debug)]
pub struct Module {
    pub name: String,
    pub source_path: String,
    pub in_project: bool,
    pub attrs: Vec<String>,
    pub functions: Vec<Function>,
}

} // verus!
