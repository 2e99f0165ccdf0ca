//! The candidate selector: walks modules, functions and the expression tree
//! pre-order, applies the skip rules and the coverage filter, and dispatches
//! matching nodes to the mutation operators.

use vstd::prelude::*;

use crate::ast::{contains_attribute, spec_contains_attribute, CallOp, Expr, Function, Module};
use crate::cli::{FunctionFilter, ModuleFilter};
use crate::configuration::Configuration;
use crate::coverage::{spec_is_covered, Coverage};
use crate::mutant::{Mutant, MutationOp};
use crate::operators::binary::Binary;
use crate::operators::binary_swap::BinarySwap;
use crate::operators::break_continue::BreakContinue;
use crate::operators::delete_stmt::DeleteStmt;
use crate::operators::ifelse::IfElse;
use crate::operators::literal::Literal;
use crate::operators::unary::Unary;
use crate::operators::ExpLoc;
use crate::span::Span;

verus! {

/// The candidates dispatched for one node, by node shape: a two-operand
/// call yields a replacement and a swap candidate, a negation a unary
/// candidate, an abort-like or resource-mutating builtin a deletion, a
/// conditional a branch swap, a literal a literal replacement, and a loop
/// break or continue its counterpart; every other shape yields nothing.
pub open spec fn spec_node_ops(e: Expr) -> Seq<MutationOp> {
    match e {
        Expr::Call { loc, op, args } => match op {
            CallOp::MoveTo | CallOp::Abort => seq![MutationOp::DeleteStmt(DeleteStmt { loc })],
            CallOp::Binary(b) => if args@.len() == 2 {
                seq![
                    MutationOp::Binary(
                        Binary {
                            operation: b,
                            loc,
                            left: ExpLoc::spec_of(args@[0]),
                            right: ExpLoc::spec_of(args@[1]),
                        },
                    ),
                    MutationOp::BinarySwap(
                        BinarySwap {
                            operation: b,
                            loc,
                            left: ExpLoc::spec_of(args@[0]),
                            right: ExpLoc::spec_of(args@[1]),
                        },
                    ),
                ]
            } else {
                Seq::empty()
            },
            CallOp::Not => if args@.len() == 1 {
                seq![MutationOp::Unary(Unary { loc, operand: ExpLoc::spec_of(args@[0]) })]
            } else {
                Seq::empty()
            },
            _ => Seq::empty(),
        },
        Expr::IfElse { loc, cond, then_branch, else_branch } => seq![
            MutationOp::IfElse(
                IfElse {
                    loc,
                    cond: ExpLoc::spec_of(*cond),
                    then_branch: ExpLoc::spec_of(*then_branch),
                    else_branch: ExpLoc::spec_of(*else_branch),
                },
            ),
        ],
        Expr::Value { loc, value } => seq![MutationOp::Literal(Literal { value, loc })],
        Expr::LoopCont { loc, is_break } => seq![
            MutationOp::BreakContinue(BreakContinue { loc, is_break }),
        ],
        _ => Seq::empty(),
    }
}

/// A fresh candidate list: the operators wrapped without any owner names.
pub open spec fn spec_fresh_mutants(ops: Seq<MutationOp>) -> Seq<Mutant> {
    ops.map_values(
        |op: MutationOp|
            Mutant { op, module_name: None, function_name: None, file_path: None },
    )
}

proof fn lemma_fresh_mutants_add(a: Seq<MutationOp>, b: Seq<MutationOp>)
    ensures
        spec_fresh_mutants(a + b) == spec_fresh_mutants(a) + spec_fresh_mutants(b),
{
    assert(spec_fresh_mutants(a + b) =~= spec_fresh_mutants(a) + spec_fresh_mutants(b));
}

/// This function does the actual parsing of one expression node and checks
/// which mutation operators can be applied to it.
pub fn parse_expression_and_find_mutants(e: &Expr) -> (r: Vec<Mutant>)
    ensures
        r@ == spec_fresh_mutants(spec_node_ops(*e)),
{
    let mut r: Vec<Mutant> = Vec::new();
    match e {
        Expr::Call { loc, op, args } => {
            match op {
                CallOp::MoveTo | CallOp::Abort => {
                    r.push(Mutant::new(MutationOp::DeleteStmt(DeleteStmt::new(*loc))));
                },
                CallOp::Binary(b) => {
                    if args.len() == 2 {
                        let left = ExpLoc::of(&args[0]);
                        let right = ExpLoc::of(&args[1]);
                        r.push(Mutant::new(MutationOp::Binary(Binary::new(*b, *loc, left, right))));
                        r.push(
                            Mutant::new(
                                MutationOp::BinarySwap(BinarySwap::new(*b, *loc, left, right)),
                            ),
                        );
                    }
                },
                CallOp::Not => {
                    if args.len() == 1 {
                        let operand = ExpLoc::of(&args[0]);
                        r.push(Mutant::new(MutationOp::Unary(Unary::new(*loc, operand))));
                    }
                },
                _ => {},
            }
        },
        Expr::IfElse { loc, cond, then_branch, else_branch } => {
            let cond_loc = ExpLoc::of(cond);
            let then_loc = ExpLoc::of(then_branch);
            let else_loc = ExpLoc::of(else_branch);
            r.push(
                Mutant::new(
                    MutationOp::IfElse(IfElse::new(*loc, cond_loc, then_loc, else_loc)),
                ),
            );
        },
        Expr::Value { loc, value } => {
            r.push(Mutant::new(MutationOp::Literal(Literal::new(*value, *loc))));
        },
        Expr::LoopCont { loc, is_break } => {
            r.push(Mutant::new(MutationOp::BreakContinue(BreakContinue::new(*loc, *is_break))));
        },
        _ => {},
    }
    proof {
        assert(r@ =~= spec_fresh_mutants(spec_node_ops(*e)));
    }
    r
}

/// The candidates collected from one expression subtree, pre-order: the
/// node's own candidates (dropped when coverage filtering is active and the
/// node's location is not covered), then those of its children. No node
/// inside a specification block is ever considered.
pub open spec fn spec_visit(
    e: Expr,
    active: bool,
    cov: Seq<(String, Vec<Span>)>,
    qname: Seq<char>,
) -> Seq<MutationOp>
    decreases e,
{
    if e is SpecBlock {
        Seq::empty()
    } else {
        let own = if active && !spec_is_covered(cov, qname, e.spec_loc()) {
            Seq::empty()
        } else {
            spec_node_ops(e)
        };
        match e {
            Expr::Call { args, .. } => own + spec_visit_list(args@, active, cov, qname),
            Expr::IfElse { cond, then_branch, else_branch, .. } => own + spec_visit(
                *cond,
                active,
                cov,
                qname,
            ) + spec_visit(*then_branch, active, cov, qname) + spec_visit(
                *else_branch,
                active,
                cov,
                qname,
            ),
            Expr::Lambda { body, .. } => own + spec_visit(*body, active, cov, qname),
            Expr::Invoke { args, .. } => own + spec_visit_list(args@, active, cov, qname),
            Expr::Other { children, .. } => own + spec_visit_list(children@, active, cov, qname),
            _ => own,
        }
    }
}

pub open spec fn spec_visit_list(
    es: Seq<Expr>,
    active: bool,
    cov: Seq<(String, Vec<Span>)>,
    qname: Seq<char>,
) -> Seq<MutationOp>
    decreases es,
{
    if es.len() == 0 {
        Seq::empty()
    } else {
        spec_visit(es[0], active, cov, qname) + spec_visit_list(es.drop_first(), active, cov, qname)
    }
}

proof fn lemma_visit_list_push(
    es: Seq<Expr>,
    x: Expr,
    active: bool,
    cov: Seq<(String, Vec<Span>)>,
    qname: Seq<char>,
)
    ensures
        spec_visit_list(es.push(x), active, cov, qname) == spec_visit_list(es, active, cov, qname)
            + spec_visit(x, active, cov, qname),
    decreases es,
{
    if es.len() == 0 {
        assert(es.push(x)[0] == x);
        assert(es.push(x).drop_first() =~= Seq::<Expr>::empty());
        assert(spec_visit_list(Seq::<Expr>::empty(), active, cov, qname) =~= Seq::<
            MutationOp,
        >::empty());
        assert(spec_visit_list(es.push(x).drop_first(), active, cov, qname) =~= Seq::<
            MutationOp,
        >::empty());
        assert(spec_visit_list(es.push(x), active, cov, qname) == spec_visit(
            x,
            active,
            cov,
            qname,
        ) + spec_visit_list(es.push(x).drop_first(), active, cov, qname));
        assert(spec_visit_list(es.push(x), active, cov, qname) =~= spec_visit_list(
            es,
            active,
            cov,
            qname,
        ) + spec_visit(x, active, cov, qname));
    } else {
        assert(es.push(x)[0] == es[0]);
        assert(es.push(x).drop_first() =~= es.drop_first().push(x));
        lemma_visit_list_push(es.drop_first(), x, active, cov, qname);
        assert(spec_visit_list(es.push(x), active, cov, qname) == spec_visit(
            es[0],
            active,
            cov,
            qname,
        ) + spec_visit_list(es.drop_first().push(x), active, cov, qname));
        assert(spec_visit_list(es, active, cov, qname) == spec_visit(es[0], active, cov, qname)
            + spec_visit_list(es.drop_first(), active, cov, qname));
        assert(spec_visit_list(es.push(x), active, cov, qname) =~= spec_visit_list(
            es,
            active,
            cov,
            qname,
        ) + spec_visit(x, active, cov, qname));
    }
}

/// Visit one subtree and collect its fresh candidates.
fn visit_expr(e: &Expr, active: bool, cov: &Coverage, qname: &str) -> (r: Vec<Mutant>)
    ensures
        r@ == spec_fresh_mutants(spec_visit(*e, active, cov.spec_entries(), qname@)),
    decreases *e,
{
    let mut r: Vec<Mutant> = Vec::new();
    if matches!(e, Expr::SpecBlock { .. }) {
        proof {
            assert(r@ =~= spec_fresh_mutants(spec_visit(*e, active, cov.spec_entries(), qname@)));
        }
        return r;
    }
    let node_allowed = !active || cov.check_location(qname, e.loc());
    if node_allowed {
        r = parse_expression_and_find_mutants(e);
    }
    let ghost own = if active && !spec_is_covered(cov.spec_entries(), qname@, e.spec_loc()) {
        Seq::<MutationOp>::empty()
    } else {
        spec_node_ops(*e)
    };
    proof {
        if !node_allowed {
            assert(r@ =~= spec_fresh_mutants(own));
        }
    }
    match e {
        Expr::Call { args, .. } => {
            visit_children(args, active, cov, qname, &mut r, Ghost(own));
        },
        Expr::IfElse { cond, then_branch, else_branch, .. } => {
            let mut c1 = visit_expr(cond, active, cov, qname);
            r.append(&mut c1);
            let mut c2 = visit_expr(then_branch, active, cov, qname);
            r.append(&mut c2);
            let mut c3 = visit_expr(else_branch, active, cov, qname);
            r.append(&mut c3);
            proof {
                lemma_fresh_mutants_add(
                    own,
                    spec_visit(*(*cond), active, cov.spec_entries(), qname@),
                );
                lemma_fresh_mutants_add(
                    own + spec_visit(*(*cond), active, cov.spec_entries(), qname@),
                    spec_visit(*(*then_branch), active, cov.spec_entries(), qname@),
                );
                lemma_fresh_mutants_add(
                    own + spec_visit(*(*cond), active, cov.spec_entries(), qname@) + spec_visit(
                        *(*then_branch),
                        active,
                        cov.spec_entries(),
                        qname@,
                    ),
                    spec_visit(*(*else_branch), active, cov.spec_entries(), qname@),
                );
            }
        },
        Expr::Lambda { body, .. } => {
            let mut c = visit_expr(body, active, cov, qname);
            r.append(&mut c);
            proof {
                lemma_fresh_mutants_add(
                    own,
                    spec_visit(*(*body), active, cov.spec_entries(), qname@),
                );
            }
        },
        Expr::Invoke { args, .. } => {
            visit_children(args, active, cov, qname, &mut r, Ghost(own));
        },
        Expr::Other { children, .. } => {
            visit_children(children, active, cov, qname, &mut r, Ghost(own));
        },
        _ => {},
    }
    r
}

/// Visit each child in order, appending its candidates.
fn visit_children(
    es: &Vec<Expr>,
    active: bool,
    cov: &Coverage,
    qname: &str,
    out: &mut Vec<Mutant>,
    own: Ghost<Seq<MutationOp>>,
)
    requires
        old(out)@ == spec_fresh_mutants(own@),
    ensures
        final(out)@ == spec_fresh_mutants(
            own@ + spec_visit_list(es@, active, cov.spec_entries(), qname@),
        ),
    decreases es@,
{
    let mut i: usize = 0;
    proof {
        assert(es@.take(0) =~= Seq::<Expr>::empty());
        lemma_fresh_mutants_add(own@, spec_visit_list(es@.take(0), active, cov.spec_entries(), qname@));
        assert(own@ + spec_visit_list(es@.take(0), active, cov.spec_entries(), qname@) =~= own@);
    }
    while i < es.len()
        invariant
            i <= es.len(),
            out@ == spec_fresh_mutants(
                own@ + spec_visit_list(es@.take(i as int), active, cov.spec_entries(), qname@),
            ),
        decreases es.len() - i,
    {
        proof {
            vstd::std_specs::vec::axiom_vec_index_decreases(*es, i as int);
        }
        let mut c = visit_expr(&es[i], active, cov, qname);
        out.append(&mut c);
        proof {
            assert(es@.take(i + 1) =~= es@.take(i as int).push(es@[i as int]));
            lemma_visit_list_push(
                es@.take(i as int),
                es@[i as int],
                active,
                cov.spec_entries(),
                qname@,
            );
            lemma_fresh_mutants_add(
                own@ + spec_visit_list(es@.take(i as int), active, cov.spec_entries(), qname@),
                spec_visit(es@[i as int], active, cov.spec_entries(), qname@),
            );
            assert(own@ + spec_visit_list(es@.take(i + 1), active, cov.spec_entries(), qname@)
                =~= own@ + spec_visit_list(es@.take(i as int), active, cov.spec_entries(), qname@)
                + spec_visit(es@[i as int], active, cov.spec_entries(), qname@));
        }
        i += 1;
    }
    proof {
        assert(es@.take(es@.len() as int) =~= es@);
    }
}

/// The candidates of one function: nothing when the function is tagged as a
/// test or with the skip attribute, or when a configured function allow-list
/// leaves it out; otherwise the candidates of its body.
pub open spec fn spec_function_ops(
    f: Function,
    ffilter: FunctionFilter,
    active: bool,
    cov: Seq<(String, Vec<Span>)>,
    qname: Seq<char>,
) -> Seq<MutationOp> {
    if spec_contains_attribute(f.attrs@, "test"@) || spec_contains_attribute(
        f.attrs@,
        "mutation::skip"@,
    ) {
        Seq::empty()
    } else if match ffilter.spec_selected() {
        Option::Some(sel) => !sel.contains(f.name@),
        Option::None => false,
    } {
        Seq::empty()
    } else {
        match f.body {
            Option::Some(e) => spec_visit(e, active, cov, qname),
            Option::None => Seq::empty(),
        }
    }
}

/// The candidates of one function, carrying its name.
pub open spec fn spec_function_mutants(
    m: Module,
    f: Function,
    ffilter: FunctionFilter,
    active: bool,
    cov: Seq<(String, Vec<Span>)>,
) -> Seq<Mutant> {
    spec_function_ops(f, ffilter, active, cov, m.name@ + "::"@ + f.name@).map_values(
        |op: MutationOp|
            Mutant {
                op,
                module_name: Some(m.name),
                function_name: Some(f.name),
                file_path: Some(m.source_path),
            },
    )
}

/// Traverses a single function and returns a list of mutants.
/// Checks the body of the function by traversing its definition.
pub fn traverse_function(module: &Module, function: &Function, conf: &Configuration) -> (r: Vec<
    Mutant,
>)
    ensures
        r@ == spec_function_mutants(
            *module,
            *function,
            conf.project.mutate_functions,
            conf.project.apply_coverage,
            conf.coverage.spec_entries(),
        ),
{
    let ghost qname_spec = module.name@ + "::"@ + function.name@;
    let mut r: Vec<Mutant> = Vec::new();
    if contains_attribute(&function.attrs, "test") || contains_attribute(
        &function.attrs,
        "mutation::skip",
    ) {
        proof {
            assert(r@ =~= spec_function_mutants(
                *module,
                *function,
                conf.project.mutate_functions,
                conf.project.apply_coverage,
                conf.coverage.spec_entries(),
            ));
        }
        return r;
    }
    if !conf.project.mutate_functions.admits(function.name.as_str()) {
        proof {
            assert(r@ =~= spec_function_mutants(
                *module,
                *function,
                conf.project.mutate_functions,
                conf.project.apply_coverage,
                conf.coverage.spec_entries(),
            ));
        }
        return r;
    }
    let body = match &function.body {
        Some(b) => b,
        None => {
            proof {
                assert(r@ =~= spec_function_mutants(
                    *module,
                    *function,
                    conf.project.mutate_functions,
                    conf.project.apply_coverage,
                    conf.coverage.spec_entries(),
                ));
            }
            return r;
        },
    };
    let mut qname = module.name.clone();
    qname.append("::");
    qname.append(function.name.as_str());
    proof {
        assert(qname@ == qname_spec);
    }
    let fresh = visit_expr(body, conf.project.apply_coverage, &conf.coverage, qname.as_str());
    let ghost ops = spec_visit(
        *body,
        conf.project.apply_coverage,
        conf.coverage.spec_entries(),
        qname_spec,
    );
    let mut i: usize = 0;
    while i < fresh.len()
        invariant
            i <= fresh.len(),
            fresh@ == spec_fresh_mutants(ops),
            r@ == ops.take(i as int).map_values(
                |op: MutationOp|
                    Mutant {
                        op,
                        module_name: Some(module.name),
                        function_name: Some(function.name),
                        file_path: Some(module.source_path),
                    },
            ),
        decreases fresh.len() - i,
    {
        let ghost pre = r@;
        r.push(
            Mutant {
                op: fresh[i].op,
                module_name: Some(module.name.clone()),
                function_name: Some(function.name.clone()),
                file_path: Some(module.source_path.clone()),
            },
        );
        proof {
            let mk = |op: MutationOp|
                Mutant {
                    op,
                    module_name: Some(module.name),
                    function_name: Some(function.name),
                    file_path: Some(module.source_path),
                };
            assert(ops.take(i + 1) =~= ops.take(i as int).push(ops[i as int]));
            assert(fresh@[i as int].op == ops[i as int]);
            let m1 = r@;
            let m2 = ops.take(i + 1).map_values(mk);
            assert(pre.len() == ops.take(i as int).map_values(mk).len());
            assert(m1.len() == m2.len());
            assert forall|j: int| 0 <= j < m1.len() implies m1[j] == m2[j] by {
                if j < m1.len() - 1 {
                    assert(m1[j] == pre[j]);
                    assert(m2[j] == ops.take(i as int).map_values(mk)[j]);
                } else {
                    assert(m2[j] == mk(ops[i as int]));
                }
            }
            assert(m1 =~= m2);
        }
        i += 1;
    }
    proof {
        assert(ops.take(ops.len() as int) =~= ops);
    }
    r
}

/// Whether a module takes part in mutation at all: it must come from the
/// project's own sources (from the explicit source list when one is given,
/// from the project tree otherwise) and pass the module filter.
pub open spec fn spec_module_included(m: Module, sources: Seq<Seq<char>>, mfilter: ModuleFilter) -> bool {
    &&& if sources.len() > 0 {
        sources.contains(m.source_path@)
    } else {
        m.in_project
    }
    &&& match mfilter.spec_selected() {
        Option::Some(sel) => sel.contains(m.name@),
        Option::None => true,
    }
}

/// The candidates of the functions of one module, in order.
pub open spec fn spec_functions_mutants(
    m: Module,
    fs: Seq<Function>,
    ffilter: FunctionFilter,
    active: bool,
    cov: Seq<(String, Vec<Span>)>,
) -> Seq<Mutant>
    decreases fs,
{
    if fs.len() == 0 {
        Seq::empty()
    } else {
        spec_function_mutants(m, fs[0], ffilter, active, cov) + spec_functions_mutants(
            m,
            fs.drop_first(),
            ffilter,
            active,
            cov,
        )
    }
}

proof fn lemma_functions_mutants_push(
    m: Module,
    fs: Seq<Function>,
    x: Function,
    ffilter: FunctionFilter,
    active: bool,
    cov: Seq<(String, Vec<Span>)>,
)
    ensures
        spec_functions_mutants(m, fs.push(x), ffilter, active, cov) == spec_functions_mutants(
            m,
            fs,
            ffilter,
            active,
            cov,
        ) + spec_function_mutants(m, x, ffilter, active, cov),
    decreases fs,
{
    if fs.len() == 0 {
        assert(fs.push(x)[0] == x);
        assert(fs.push(x).drop_first() =~= Seq::<Function>::empty());
        assert(spec_functions_mutants(m, Seq::<Function>::empty(), ffilter, active, cov) =~= Seq::<
            Mutant,
        >::empty());
        assert(spec_functions_mutants(m, fs.push(x).drop_first(), ffilter, active, cov) =~= Seq::<
            Mutant,
        >::empty());
        assert(spec_functions_mutants(m, fs.push(x), ffilter, active, cov)
            == spec_function_mutants(m, x, ffilter, active, cov) + spec_functions_mutants(
            m,
            fs.push(x).drop_first(),
            ffilter,
            active,
            cov,
        ));
        assert(spec_functions_mutants(m, fs.push(x), ffilter, active, cov)
            =~= spec_functions_mutants(m, fs, ffilter, active, cov) + spec_function_mutants(
            m,
            x,
            ffilter,
            active,
            cov,
        ));
    } else {
        assert(fs.push(x)[0] == fs[0]);
        assert(fs.push(x).drop_first() =~= fs.drop_first().push(x));
        lemma_functions_mutants_push(m, fs.drop_first(), x, ffilter, active, cov);
        assert(spec_functions_mutants(m, fs.push(x), ffilter, active, cov)
            == spec_function_mutants(m, fs[0], ffilter, active, cov) + spec_functions_mutants(
            m,
            fs.drop_first().push(x),
            ffilter,
            active,
            cov,
        ));
        assert(spec_functions_mutants(m, fs, ffilter, active, cov) == spec_function_mutants(
            m,
            fs[0],
            ffilter,
            active,
            cov,
        ) + spec_functions_mutants(m, fs.drop_first(), ffilter, active, cov));
        assert(spec_functions_mutants(m, fs.push(x), ffilter, active, cov)
            =~= spec_functions_mutants(m, fs, ffilter, active, cov) + spec_function_mutants(
            m,
            x,
            ffilter,
            active,
            cov,
        ));
    }
}

/// The candidates of one module: nothing when the module is tagged with the
/// skip attribute, else the candidates of all its functions.
pub open spec fn spec_module_mutants(
    m: Module,
    ffilter: FunctionFilter,
    active: bool,
    cov: Seq<(String, Vec<Span>)>,
) -> Seq<Mutant> {
    if spec_contains_attribute(m.attrs@, "mutation::skip"@) {
        Seq::empty()
    } else {
        spec_functions_mutants(m, m.functions@, ffilter, active, cov)
    }
}

/// Traverses a single module and returns a list of mutants.
/// Checks all the functions defined in the module; a module tagged with the
/// skip attribute yields nothing.
pub fn traverse_module(module: &Module, conf: &Configuration) -> (r: Vec<Mutant>)
    ensures
        r@ == spec_module_mutants(
            *module,
            conf.project.mutate_functions,
            conf.project.apply_coverage,
            conf.coverage.spec_entries(),
        ),
{
    let mut r: Vec<Mutant> = Vec::new();
    if contains_attribute(&module.attrs, "mutation::skip") {
        proof {
            assert(r@ =~= spec_module_mutants(
                *module,
                conf.project.mutate_functions,
                conf.project.apply_coverage,
                conf.coverage.spec_entries(),
            ));
        }
        return r;
    }
    let ghost ffilter = conf.project.mutate_functions;
    let ghost active = conf.project.apply_coverage;
    let ghost cov = conf.coverage.spec_entries();
    let mut i: usize = 0;
    proof {
        assert(module.functions@.take(0) =~= Seq::<Function>::empty());
    }
    while i < module.functions.len()
        invariant
            i <= module.functions.len(),
            ffilter == conf.project.mutate_functions,
            active == conf.project.apply_coverage,
            cov == conf.coverage.spec_entries(),
            r@ == spec_functions_mutants(
                *module,
                module.functions@.take(i as int),
                ffilter,
                active,
                cov,
            ),
        decreases module.functions.len() - i,
    {
        let mut fr = traverse_function(module, &module.functions[i], conf);
        r.append(&mut fr);
        proof {
            assert(module.functions@.take(i + 1) =~= module.functions@.take(i as int).push(
                module.functions@[i as int],
            ));
            lemma_functions_mutants_push(
                *module,
                module.functions@.take(i as int),
                module.functions@[i as int],
                ffilter,
                active,
                cov,
            );
        }
        i += 1;
    }
    proof {
        assert(module.functions@.take(module.functions@.len() as int) =~= module.functions@);
    }
    r
}

/// Traverses a single module after checking that it is included: helper that
/// filters out modules that do not come from the project's sources or are
/// not named by the module filter.
pub fn traverse_module_with_check(module: &Module, conf: &Configuration) -> (r: Vec<Mutant>)
    ensures
        r@ == if spec_module_included(
            *module,
            conf.project.move_sources@.map_values(|s: String| s@),
            conf.project.mutate_modules,
        ) {
            spec_module_mutants(
                *module,
                conf.project.mutate_functions,
                conf.project.apply_coverage,
                conf.coverage.spec_entries(),
            )
        } else {
            Seq::<Mutant>::empty()
        },
{
    let included = if conf.project.move_sources.len() > 0 {
        crate::cli::contains_name(&conf.project.move_sources, module.source_path.as_str())
    } else {
        module.in_project
    };
    if !included {
        let r: Vec<Mutant> = Vec::new();
        proof {
            assert(r@ =~= Seq::<Mutant>::empty());
        }
        return r;
    }
    if !conf.project.mutate_modules.admits(module.name.as_str()) {
        let r: Vec<Mutant> = Vec::new();
        proof {
            assert(r@ =~= Seq::<Mutant>::empty());
        }
        return r;
    }
    traverse_module(module, conf)
}

/// The mutants of a whole project, module by module.
pub open spec fn spec_mutate(modules: Seq<Module>, conf: Configuration) -> Seq<Mutant>
    decreases modules,
{
    if modules.len() == 0 {
        Seq::empty()
    } else {
        (if spec_module_included(
            modules[0],
            conf.project.move_sources@.map_values(|s: String| s@),
            conf.project.mutate_modules,
        ) {
            spec_module_mutants(
                modules[0],
                conf.project.mutate_functions,
                conf.project.apply_coverage,
                conf.coverage.spec_entries(),
            )
        } else {
            Seq::empty()
        }) + spec_mutate(modules.drop_first(), conf)
    }
}

proof fn lemma_mutate_push(modules: Seq<Module>, x: Module, conf: Configuration)
    ensures
        spec_mutate(modules.push(x), conf) == spec_mutate(modules, conf) + spec_mutate(
            seq![x],
            conf,
        ),
    decreases modules,
{
    assert(seq![x].drop_first() =~= Seq::<Module>::empty());
    if modules.len() == 0 {
        assert(modules.push(x)[0] == x);
        assert(modules.push(x).drop_first() =~= Seq::<Module>::empty());
        assert(spec_mutate(modules.push(x), conf) =~= spec_mutate(modules, conf) + spec_mutate(
            seq![x],
            conf,
        ));
    } else {
        assert(modules.push(x)[0] == modules[0]);
        assert(modules.push(x).drop_first() =~= modules.drop_first().push(x));
        lemma_mutate_push(modules.drop_first(), x, conf);
        assert(spec_mutate(modules.push(x), conf) =~= spec_mutate(modules, conf) + spec_mutate(
            seq![x],
            conf,
        ));
    }
}

/// Traverses the whole project model, identifies the places where mutation
/// operators can be applied, and returns a flat list of candidates tagged
/// with their module and function names.
pub fn mutate(modules: &Vec<Module>, conf: &Configuration) -> (r: Vec<Mutant>)
    ensures
        r@ == spec_mutate(modules@, *conf),
{
    let mut r: Vec<Mutant> = Vec::new();
    let mut i: usize = 0;
    proof {
        assert(modules@.take(0) =~= Seq::<Module>::empty());
    }
    while i < modules.len()
        invariant
            i <= modules.len(),
            r@ == spec_mutate(modules@.take(i as int), *conf),
        decreases modules.len() - i,
    {
        let mut mr = traverse_module_with_check(&modules[i], conf);
        r.append(&mut mr);
        proof {
            assert(modules@.take(i + 1) =~= modules@.take(i as int).push(modules@[i as int]));
            lemma_mutate_push(modules@.take(i as int), modules@[i as int], *conf);
            assert(seq![modules@[i as int]].drop_first() =~= Seq::<Module>::empty());
            assert(seq![modules@[i as int]][0] == modules@[i as int]);
            assert(spec_mutate(seq![modules@[i as int]].drop_first(), *conf) =~= Seq::<
                Mutant,
            >::empty());
            assert(spec_mutate(seq![modules@[i as int]], *conf) =~= (if spec_module_included(
                modules@[i as int],
                conf.project.move_sources@.map_values(|s: String| s@),
                conf.project.mutate_modules,
            ) {
                spec_module_mutants(
                    modules@[i as int],
                    conf.project.mutate_functions,
                    conf.project.apply_coverage,
                    conf.coverage.spec_entries(),
                )
            } else {
                Seq::<Mutant>::empty()
            }));
        }
        i += 1;
    }
    proof {
        assert(modules@.take(modules@.len() as int) =~= modules@);
    }
    r
}

/// For a two-operand call of a commutative operation whose operand subtrees
/// contain no call, closure or indirect invocation, the dispatched swap
/// candidate generates no mutant on any source text: swapping pure operands
/// of a commutative operation is an equivalent edit.
pub proof fn lemma_commutative_swap_generates_nothing(
    loc: Span,
    b: crate::ast::BinOp,
    args: Vec<Expr>,
    s: Seq<u8>,
)
    requires
        args@.len() == 2,
        b.spec_is_commutative(),
        !args@[0].spec_contains_call(),
        !args@[1].spec_contains_call(),
    ensures
        forall|i: int|
            0 <= i < spec_node_ops(Expr::Call { loc, op: CallOp::Binary(b), args }).len()
                ==> ((#[trigger] spec_node_ops(
                Expr::Call { loc, op: CallOp::Binary(b), args },
            )[i]) matches MutationOp::BinarySwap(sw) ==> sw.spec_apply(s) == Seq::<
                crate::mutation::MutantInfoView,
            >::empty()),
{
    let ops = spec_node_ops(Expr::Call { loc, op: CallOp::Binary(b), args });
    assert forall|i: int| 0 <= i < ops.len() implies ((#[trigger] ops[i]) matches
        MutationOp::BinarySwap(sw) ==> sw.spec_apply(s) == Seq::<
        crate::mutation::MutantInfoView,
    >::empty()) by {
        if ops[i] is BinarySwap {
            let sw = ops[i]->BinarySwap_0;
            assert(sw.spec_is_commutative());
            assert(sw.spec_apply(s) == Seq::<crate::mutation::MutantInfoView>::empty());
        }
    }
}

/// Every candidate dispatched for a node carries that node's location.
proof fn lemma_node_ops_loc(e: Expr)
    ensures
        forall|i: int|
            0 <= i < spec_node_ops(e).len() ==> (#[trigger] spec_node_ops(e)[i]).spec_node_loc()
                == e.spec_loc(),
{
}

/// When coverage filtering is active, every candidate that the selector
/// emits for a subtree overlaps a covered span of its function: no mutant is
/// ever generated for a node whose location is not covered.
pub proof fn lemma_selector_respects_coverage(
    e: Expr,
    cov: Seq<(String, Vec<Span>)>,
    qname: Seq<char>,
)
    ensures
        forall|i: int|
            0 <= i < spec_visit(e, true, cov, qname).len() ==> spec_is_covered(
                cov,
                qname,
                (#[trigger] spec_visit(e, true, cov, qname)[i]).spec_node_loc(),
            ),
    decreases e,
{
    let v = spec_visit(e, true, cov, qname);
    if e is SpecBlock {
    } else {
        let own = if !spec_is_covered(cov, qname, e.spec_loc()) {
            Seq::<MutationOp>::empty()
        } else {
            spec_node_ops(e)
        };
        lemma_node_ops_loc(e);
        assert forall|i: int| 0 <= i < own.len() implies spec_is_covered(
            cov,
            qname,
            (#[trigger] own[i]).spec_node_loc(),
        ) by {
            assert(spec_node_ops(e)[i] == own[i]);
        }
        match e {
            Expr::Call { args, .. } => {
                lemma_visit_list_respects_coverage(args@, cov, qname);
                let rest = spec_visit_list(args@, true, cov, qname);
                assert(v == own + rest);
                assert forall|i: int| 0 <= i < v.len() implies spec_is_covered(
                    cov,
                    qname,
                    (#[trigger] v[i]).spec_node_loc(),
                ) by {
                    if i < own.len() {
                        assert(v[i] == own[i]);
                    } else {
                        assert(v[i] == rest[i - own.len()]);
                    }
                }
            },
            Expr::IfElse { cond, then_branch, else_branch, .. } => {
                lemma_selector_respects_coverage(*cond, cov, qname);
                lemma_selector_respects_coverage(*then_branch, cov, qname);
                lemma_selector_respects_coverage(*else_branch, cov, qname);
                let r1 = spec_visit(*cond, true, cov, qname);
                let r2 = spec_visit(*then_branch, true, cov, qname);
                let r3 = spec_visit(*else_branch, true, cov, qname);
                assert(v == own + r1 + r2 + r3);
                assert forall|i: int| 0 <= i < v.len() implies spec_is_covered(
                    cov,
                    qname,
                    (#[trigger] v[i]).spec_node_loc(),
                ) by {
                    if i < own.len() {
                        assert(v[i] == own[i]);
                    } else if i < own.len() + r1.len() {
                        assert(v[i] == r1[i - own.len()]);
                    } else if i < own.len() + r1.len() + r2.len() {
                        assert(v[i] == r2[i - own.len() - r1.len()]);
                    } else {
                        assert(v[i] == r3[i - own.len() - r1.len() - r2.len()]);
                    }
                }
            },
            Expr::Lambda { body, .. } => {
                lemma_selector_respects_coverage(*body, cov, qname);
                let rest = spec_visit(*body, true, cov, qname);
                assert(v == own + rest);
                assert forall|i: int| 0 <= i < v.len() implies spec_is_covered(
                    cov,
                    qname,
                    (#[trigger] v[i]).spec_node_loc(),
                ) by {
                    if i < own.len() {
                        assert(v[i] == own[i]);
                    } else {
                        assert(v[i] == rest[i - own.len()]);
                    }
                }
            },
            Expr::Invoke { args, .. } => {
                lemma_visit_list_respects_coverage(args@, cov, qname);
                let rest = spec_visit_list(args@, true, cov, qname);
                assert(v == own + rest);
                assert forall|i: int| 0 <= i < v.len() implies spec_is_covered(
                    cov,
                    qname,
                    (#[trigger] v[i]).spec_node_loc(),
                ) by {
                    if i < own.len() {
                        assert(v[i] == own[i]);
                    } else {
                        assert(v[i] == rest[i - own.len()]);
                    }
                }
            },
            Expr::Other { children, .. } => {
                lemma_visit_list_respects_coverage(children@, cov, qname);
                let rest = spec_visit_list(children@, true, cov, qname);
                assert(v == own + rest);
                assert forall|i: int| 0 <= i < v.len() implies spec_is_covered(
                    cov,
                    qname,
                    (#[trigger] v[i]).spec_node_loc(),
                ) by {
                    if i < own.len() {
                        assert(v[i] == own[i]);
                    } else {
                        assert(v[i] == rest[i - own.len()]);
                    }
                }
            },
            _ => {
                assert(v == own);
                assert forall|i: int| 0 <= i < v.len() implies spec_is_covered(
                    cov,
                    qname,
                    (#[trigger] v[i]).spec_node_loc(),
                ) by {
                    assert(v[i] == own[i]);
                }
            },
        }
    }
}

proof fn lemma_visit_list_respects_coverage(
    es: Seq<Expr>,
    cov: Seq<(String, Vec<Span>)>,
    qname: Seq<char>,
)
    ensures
        forall|i: int|
            0 <= i < spec_visit_list(es, true, cov, qname).len() ==> spec_is_covered(
                cov,
                qname,
                (#[trigger] spec_visit_list(es, true, cov, qname)[i]).spec_node_loc(),
            ),
    decreases es,
{
    if es.len() > 0 {
        lemma_selector_respects_coverage(es[0], cov, qname);
        lemma_visit_list_respects_coverage(es.drop_first(), cov, qname);
        let v = spec_visit_list(es, true, cov, qname);
        let h = spec_visit(es[0], true, cov, qname);
        let t = spec_visit_list(es.drop_first(), true, cov, qname);
        assert(v == h + t);
        assert forall|i: int| 0 <= i < v.len() implies spec_is_covered(
            cov,
            qname,
            (#[trigger] v[i]).spec_node_loc(),
        ) by {
            if i < h.len() {
                assert(v[i] == h[i]);
            } else {
                assert(v[i] == t[i - h.len()]);
            }
        }
    }
}

} // verus!
