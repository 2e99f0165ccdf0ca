//! The decisions of the mutation-test orchestrator: baseline gating, mutant
//! classification, batch bounds, and the assembly of the run's report from
//! the per-mutant results.
//!
//! The orchestrator's outside work — copying working directories and
//! invoking the oracle — happens around these functions; every decision they
//! encode is a function of the values handed in.

use vstd::prelude::*;

use crate::cli::{FunctionFilter, ModuleFilter, OperatorModeArg};
use crate::report::{
    rv_combine, spec_absorb, spec_diff_views, spec_files_fold, spec_stats_fold, sv_of, MiniReport,
    MutantStats, MutantStatus, OperatorStats, Report, StatView,
};

verus! {

/// Work is split into fixed-size batches to bound peak memory from
/// simultaneously materialized working copies.
pub const CHUNK_SIZE: usize = 64;

/// Command line options for the mutation test tool.
#[derive(Debug)]
pub struct CLIOptions {
    /// Work only over the specified modules.
    pub mutate_modules: ModuleFilter,
    /// Work only over the specified functions.
    pub mutate_functions: FunctionFilter,
    /// Save the report to a file.
    pub output: Option<String>,
    /// Use previously generated mutants.
    pub use_generated_mutants: Option<String>,
    /// Remove on average the given percentage of mutants.
    pub downsampling_ratio_percentage: Option<usize>,
    /// Mutation operator mode to balance speed and test-gap detection.
    pub mode: Option<OperatorModeArg>,
    /// Custom operator selection to run mutations on.
    pub operators: Option<Vec<String>>,
    /// Print per-operator statistics at the end of the run.
    pub show_operator_stats: bool,
}

impl Default for CLIOptions {
    /// By default every module and function is mutated, nothing is saved,
    /// and no mode is forced.
    fn default() -> (r: Self)
        ensures
            r.mutate_modules == ModuleFilter::All,
            r.mutate_functions == FunctionFilter::All,
            r.output is None,
            r.use_generated_mutants is None,
            r.downsampling_ratio_percentage is None,
            r.mode is None,
            r.operators is None,
            !r.show_operator_stats,
    {
        CLIOptions {
            mutate_modules: ModuleFilter::All,
            mutate_functions: FunctionFilter::All,
            output: None,
            use_generated_mutants: None,
            downsampling_ratio_percentage: None,
            mode: None,
            operators: None,
            show_operator_stats: false,
        }
    }
}

/// This function creates mutant-generator options from the given
/// mutation-test options, copying the shared fields.
pub fn create_mutator_options(options: &CLIOptions, apply_coverage: bool) -> (r:
    crate::cli::CLIOptions)
    ensures
        r.mutate_modules.spec_selected() == options.mutate_modules.spec_selected(),
        r.mutate_functions.spec_selected() == options.mutate_functions.spec_selected(),
        r.downsampling_ratio_percentage == options.downsampling_ratio_percentage,
        r.apply_coverage == apply_coverage,
        r.mode == options.mode,
        match options.operators {
            Some(ops) => r.operators matches Some(v) && v@ == ops@,
            None => r.operators is None,
        },
        r.move_sources@ == Seq::<String>::empty(),
        !r.verify_mutants,
{
    let mut mutator: crate::cli::CLIOptions = Default::default();
    mutator.mutate_modules = options.mutate_modules.clone();
    mutator.mutate_functions = options.mutate_functions.clone();
    mutator.downsampling_ratio_percentage = options.downsampling_ratio_percentage;
    mutator.apply_coverage = apply_coverage;
    mutator.mode = options.mode;
    mutator.operators = match &options.operators {
        Some(ops) => Some(crate::text::clone_strings(ops)),
        None => None,
    };
    mutator
}

/// Oracle failure is the intended kill signal: a mutant whose oracle run
/// fails is Killed, one whose run passes is Alive. An oracle failure is
/// never a run-level failure.
pub fn classify_outcome(oracle_ok: bool) -> (r: MutantStatus)
    ensures
        r == if oracle_ok {
            MutantStatus::Alive
        } else {
            MutantStatus::Killed
        },
{
    if oracle_ok {
        MutantStatus::Alive
    } else {
        MutantStatus::Killed
    }
}

/// The batch bounds over `total` mutants: consecutive half-open ranges that
/// cover everything once, each at most `size` long and all but the last
/// exactly `size` long.
pub fn batch_bounds(total: usize, size: usize) -> (r: Vec<(usize, usize)>)
    requires
        size > 0,
    ensures
        r@.len() == 0 <==> total == 0,
        r@.len() > 0 ==> r@[0].0 == 0 && r@[r@.len() - 1].1 == total,
        forall|k: int| 0 <= k < r@.len() ==> (#[trigger] r@[k]).0 < r@[k].1 <= total,
        forall|k: int| 0 <= k < r@.len() - 1 ==> (#[trigger] r@[k]).1 == r@[k + 1].0,
        forall|k: int| 0 <= k < r@.len() ==> (#[trigger] r@[k]).1 - r@[k].0 <= size,
        forall|k: int| 0 <= k < r@.len() - 1 ==> (#[trigger] r@[k]).1 - r@[k].0 == size,
{
    let mut r: Vec<(usize, usize)> = Vec::new();
    let mut start: usize = 0;
    while start < total
        invariant
            size > 0,
            start <= total,
            r@.len() == 0 <==> start == 0,
            r@.len() > 0 ==> r@[0].0 == 0 && r@[r@.len() - 1].1 == start && start > 0,
            forall|k: int| 0 <= k < r@.len() ==> (#[trigger] r@[k]).0 < r@[k].1 <= total,
            forall|k: int| 0 <= k < r@.len() - 1 ==> (#[trigger] r@[k]).1 == r@[k + 1].0,
            forall|k: int| 0 <= k < r@.len() ==> (#[trigger] r@[k]).1 - r@[k].0 <= size,
            forall|k: int|
                0 <= k < r@.len() ==> (#[trigger] r@[k]).1 - r@[k].0 == size || r@[k].1 == total,
            forall|k: int| 0 <= k < r@.len() - 1 ==> (#[trigger] r@[k]).1 - r@[k].0 == size,
        decreases total - start,
    {
        let end = if total - start < size {
            total
        } else {
            start + size
        };
        r.push((start, end));
        start = end;
    }
    r
}

/// What one tested mutant contributes to the statistics of its function.
pub open spec fn spec_mini_delta(m: MiniReport) -> StatView {
    StatView {
        tested: 1,
        killed: if m.mutant_status is Killed {
            1
        } else {
            0
        },
        alive: (if m.mutant_status is Killed {
            Seq::<Seq<char>>::empty()
        } else {
            seq![m.diff@]
        }).to_multiset(),
        killed_diffs: (if m.mutant_status is Killed {
            seq![m.diff@]
        } else {
            Seq::<Seq<char>>::empty()
        }).to_multiset(),
    }
}

/// The report value of a single tested mutant.
pub open spec fn spec_single_view(m: MiniReport) -> Map<Seq<char>, Map<Seq<char>, StatView>> {
    spec_absorb(Map::empty(), m.original_file@, m.qname@, spec_mini_delta(m))
}

/// The report value of a list of per-mutant results, merged in order.
pub open spec fn spec_minis_view(ms: Seq<MiniReport>) -> Map<Seq<char>, Map<Seq<char>, StatView>>
    decreases ms,
{
    if ms.len() == 0 {
        Map::empty()
    } else {
        rv_combine(spec_minis_view(ms.drop_last()), spec_single_view(ms.last()))
    }
}

/// However a run's results are split into batches, merging the batches'
/// reports yields the same value as folding all results in one go: the
/// report of a concatenation is the combination of the reports.
pub proof fn lemma_minis_view_partition(a: Seq<MiniReport>, b: Seq<MiniReport>)
    ensures
        spec_minis_view(a + b) == rv_combine(spec_minis_view(a), spec_minis_view(b)),
    decreases b,
{
    if b.len() == 0 {
        assert(a + b =~= a);
        crate::report::lemma_report_combine_commutative(spec_minis_view(a), Map::empty());
        assert(rv_combine(Map::empty(), spec_minis_view(a)) =~= spec_minis_view(a));
    } else {
        assert((a + b).drop_last() =~= a + b.drop_last());
        assert((a + b).last() == b.last());
        lemma_minis_view_partition(a, b.drop_last());
        crate::report::lemma_report_combine_associative(
            spec_minis_view(a),
            spec_minis_view(b.drop_last()),
            spec_single_view(b.last()),
        );
        assert(spec_minis_view(b) == rv_combine(
            spec_minis_view(b.drop_last()),
            spec_single_view(b.last()),
        ));
        assert(rv_combine(spec_minis_view(b.drop_last()), spec_single_view(b.last()))
            == rv_combine_single(spec_minis_view(b.drop_last()), b.last()));
    }
}

/// Combining with a single result's report.
spec fn rv_combine_single(
    m: Map<Seq<char>, Map<Seq<char>, StatView>>,
    x: MiniReport,
) -> Map<Seq<char>, Map<Seq<char>, StatView>> {
    rv_combine(m, spec_single_view(x))
}

/// Build the one-mutant report of a single result.
fn single_mini_report(m: &MiniReport) -> (r: Report)
    ensures
        r.spec_stats_view() == spec_single_view(*m),
        r.operator_stats@.len() == 1,
        r.operator_stats@[0].name@ == m.operator_name@,
        r.operator_stats@[0].tested == 1,
        r.operator_stats@[0].killed == if m.mutant_status is Killed {
            1u32
        } else {
            0u32
        },
{
    let killed = matches!(m.mutant_status, MutantStatus::Killed);
    let mut st = MutantStats::new(m.qname.as_str());
    st.tested = 1;
    if killed {
        st.killed = 1;
        st.mutants_killed_diff.push(m.diff.clone());
    } else {
        st.mutants_alive_diffs.push(m.diff.clone());
    }
    proof {
        if killed {
            assert(spec_diff_views(st.mutants_killed_diff@) =~= seq![m.diff@]);
            assert(spec_diff_views(st.mutants_alive_diffs@) =~= Seq::<Seq<char>>::empty());
        } else {
            assert(spec_diff_views(st.mutants_alive_diffs@) =~= seq![m.diff@]);
            assert(spec_diff_views(st.mutants_killed_diff@) =~= Seq::<Seq<char>>::empty());
        }
        assert(sv_of(st) == spec_mini_delta(*m));
    }
    let ghost stv = st;
    let mut stats: Vec<MutantStats> = Vec::new();
    stats.push(st);
    let mut files: Vec<(String, Vec<MutantStats>)> = Vec::new();
    files.push((m.original_file.clone(), stats));
    let mut ops: Vec<OperatorStats> = Vec::new();
    ops.push(
        OperatorStats {
            name: m.operator_name.clone(),
            tested: 1,
            killed: if killed {
                1
            } else {
                0
            },
        },
    );
    let rep = Report { files, package_dir: String::new(), operator_stats: ops };
    proof {
        let es = rep.spec_files();
        assert(es.len() == 1);
        assert(es[0].0@ == m.original_file@);
        assert(es[0].1@ =~= seq![stv]);
        assert(es.drop_first() =~= Seq::<(String, Vec<MutantStats>)>::empty());
        let ss = es[0].1@;
        assert(ss[0] == stv);
        assert(ss.drop_first() =~= Seq::<MutantStats>::empty());
        assert(spec_stats_fold(Map::empty(), es[0].0@, ss) == spec_stats_fold(
            spec_absorb(Map::empty(), m.original_file@, stv.module_func@, sv_of(stv)),
            es[0].0@,
            ss.drop_first(),
        ));
        assert(stv.module_func@ == m.qname@);
        assert(spec_files_fold(Map::empty(), es) == spec_files_fold(
            spec_stats_fold(Map::empty(), es[0].0@, es[0].1@),
            es.drop_first(),
        ));
        assert(rep.spec_stats_view() == spec_single_view(*m));
    }
    rep
}

/// Assemble the report of a whole run.
///
/// Before any mutant runs, the unmodified project must pass the oracle once;
/// a failing baseline is fatal, aborts the run, and produces no report
/// entries: a broken baseline cannot yield meaningful results. Otherwise the
/// per-mutant results are merged, in any order, into the report.
pub fn summarize_mutation_results(
    package_dir: String,
    baseline_ok: bool,
    minis: &Vec<MiniReport>,
) -> (r: Result<Report, String>)
    ensures
        r is Ok <==> baseline_ok,
        r matches Err(msg) ==> msg@ == "Test suite is failing for the original code"@,
        r matches Ok(rep) ==> rep.spec_package_dir() == package_dir@ && rep.spec_stats_view()
            == spec_minis_view(minis@),
{
    if !baseline_ok {
        return Err("Test suite is failing for the original code".to_owned());
    }
    let mut report = Report::new(package_dir);
    let ghost pd = package_dir@;
    let mut i: usize = 0;
    proof {
        assert(minis@.take(0) =~= Seq::<MiniReport>::empty());
        assert(report.spec_stats_view() =~= spec_minis_view(minis@.take(0))) by {
            assert(report.spec_files() =~= Seq::<(String, Vec<MutantStats>)>::empty());
        }
    }
    while i < minis.len()
        invariant
            i <= minis.len(),
            report.spec_package_dir() == pd,
            report.spec_stats_view() == spec_minis_view(minis@.take(i as int)),
        decreases minis.len() - i,
    {
        let single = single_mini_report(&minis[i]);
        report.merge(single);
        proof {
            assert(minis@.take(i + 1).drop_last() =~= minis@.take(i as int));
            assert(minis@.take(i + 1).last() == minis@[i as int]);
        }
        i += 1;
    }
    proof {
        assert(minis@.take(minis@.len() as int) =~= minis@);
    }
    Ok(report)
}

} // verus!
