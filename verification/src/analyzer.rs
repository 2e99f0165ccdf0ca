//! Aggregation of operator effectiveness across many analyzed projects, and
//! the tier sizes recommended from it.

use vstd::prelude::*;

use crate::report::{OperatorStats, Report};

verus! {

/// Totals of one analyzed project.
#[derive(Clone, Copy, Debug, PartialEq, Eq, Structural)]
pub struct ProjectStats {
    pub total_tested: u32,
    pub total_killed: u32,
}

/// The sum of the tested counters of the operator statistics.
pub open spec fn spec_ops_tested(os: Seq<OperatorStats>) -> int
    decreases os,
{
    if os.len() == 0 {
        0
    } else {
        os[0].tested + spec_ops_tested(os.drop_first())
    }
}

/// The sum of the killed counters of the operator statistics.
pub open spec fn spec_ops_killed(os: Seq<OperatorStats>) -> int
    decreases os,
{
    if os.len() == 0 {
        0
    } else {
        os[0].killed + spec_ops_killed(os.drop_first())
    }
}

proof fn lemma_ops_sums_push(os: Seq<OperatorStats>, x: OperatorStats)
    ensures
        spec_ops_tested(os.push(x)) == spec_ops_tested(os) + x.tested,
        spec_ops_killed(os.push(x)) == spec_ops_killed(os) + x.killed,
        spec_ops_tested(os) >= 0,
        spec_ops_killed(os) >= 0,
    decreases os,
{
    if os.len() == 0 {
        assert(os.push(x)[0] == x);
        assert(os.push(x).drop_first() =~= Seq::<OperatorStats>::empty());
        assert(spec_ops_tested(Seq::<OperatorStats>::empty()) == 0);
        assert(spec_ops_tested(os.push(x).drop_first()) == 0);
        assert(spec_ops_killed(os.push(x).drop_first()) == 0);
    } else {
        assert(os.push(x)[0] == os[0]);
        assert(os.push(x).drop_first() =~= os.drop_first().push(x));
        lemma_ops_sums_push(os.drop_first(), x);
    }
}

/// Extract the totals of one project's report from its operator statistics.
pub fn extract_project_stats(report: &Report) -> (r: ProjectStats)
    requires
        spec_ops_tested(report.operator_stats@) <= u32::MAX,
        spec_ops_killed(report.operator_stats@) <= u32::MAX,
    ensures
        r.total_tested == spec_ops_tested(report.operator_stats@),
        r.total_killed == spec_ops_killed(report.operator_stats@),
{
    let mut tested: u32 = 0;
    let mut killed: u32 = 0;
    let mut i: usize = 0;
    let os = &report.operator_stats;
    proof {
        assert(os@.take(0) =~= Seq::<OperatorStats>::empty());
        lemma_ops_sums_nonneg(os@);
    }
    while i < os.len()
        invariant
            os == &report.operator_stats,
            i <= os@.len(),
            tested as int == spec_ops_tested(os@.take(i as int)),
            killed as int == spec_ops_killed(os@.take(i as int)),
            spec_ops_tested(os@) <= u32::MAX,
            spec_ops_killed(os@) <= u32::MAX,
        decreases os@.len() - i,
    {
        proof {
            assert(os@.take(i + 1) =~= os@.take(i as int).push(os@[i as int]));
            lemma_ops_sums_push(os@.take(i as int), os@[i as int]);
            lemma_take_sums_bounded(os@, i as int);
        }
        tested = tested + os[i].tested;
        killed = killed + os[i].killed;
        i += 1;
    }
    proof {
        assert(os@.take(os@.len() as int) =~= os@);
    }
    ProjectStats { total_tested: tested, total_killed: killed }
}

proof fn lemma_ops_sums_nonneg(os: Seq<OperatorStats>)
    ensures
        spec_ops_tested(os) >= 0,
        spec_ops_killed(os) >= 0,
    decreases os,
{
    if os.len() > 0 {
        lemma_ops_sums_nonneg(os.drop_first());
    }
}

proof fn lemma_take_sums_bounded(os: Seq<OperatorStats>, i: int)
    requires
        0 <= i < os.len(),
    ensures
        spec_ops_tested(os.take(i + 1)) <= spec_ops_tested(os),
        spec_ops_killed(os.take(i + 1)) <= spec_ops_killed(os),
    decreases os.len() - i,
{
    if i + 1 == os.len() {
        assert(os.take(i + 1) =~= os);
    } else {
        lemma_take_sums_bounded(os, i + 1);
        assert(os.take(i + 2) =~= os.take(i + 1).push(os[i + 1]));
        lemma_ops_sums_push(os.take(i + 1), os[i + 1]);
    }
}

/// Aggregated operator statistics over many analyzed projects.
#[derive(Debug)]
pub struct AggregatedStats {
    /// How many projects were analyzed successfully.
    pub total_projects: usize,
    /// The per-operator statistics of every analyzed project.
    pub operator_totals: Vec<OperatorStats>,
    /// The total of mutants tested across projects.
    pub total_mutants_tested: u32,
    /// The total of mutants killed across projects.
    pub total_mutants_killed: u32,
}

impl AggregatedStats {
    pub fn new() -> (r: AggregatedStats)
        ensures
            r.total_projects == 0,
            r.operator_totals@ == Seq::<OperatorStats>::empty(),
            r.total_mutants_tested == 0,
            r.total_mutants_killed == 0,
    {
        AggregatedStats {
            total_projects: 0,
            operator_totals: Vec::new(),
            total_mutants_tested: 0,
            total_mutants_killed: 0,
        }
    }

    /// Fold one project's report into the aggregate: its operator records
    /// are kept and the totals raised by its counts.
    pub fn add_report(&mut self, report: Report)
        requires
            old(self).total_projects < usize::MAX,
            spec_ops_tested(report.operator_stats@) <= u32::MAX,
            spec_ops_killed(report.operator_stats@) <= u32::MAX,
            old(self).total_mutants_tested + spec_ops_tested(report.operator_stats@) <= u32::MAX,
            old(self).total_mutants_killed + spec_ops_killed(report.operator_stats@) <= u32::MAX,
        ensures
            final(self).total_projects == old(self).total_projects + 1,
            final(self).operator_totals@ == old(self).operator_totals@ + report.operator_stats@,
            final(self).total_mutants_tested == old(self).total_mutants_tested + spec_ops_tested(
                report.operator_stats@,
            ),
            final(self).total_mutants_killed == old(self).total_mutants_killed + spec_ops_killed(
                report.operator_stats@,
            ),
    {
        let stats = extract_project_stats(&report);
        self.total_projects = self.total_projects + 1;
        self.total_mutants_tested = self.total_mutants_tested + stats.total_tested;
        self.total_mutants_killed = self.total_mutants_killed + stats.total_killed;
        let mut ops = report.operator_stats;
        self.operator_totals.append(&mut ops);
    }
}

/// How many of the ranked operators the Light tier takes: the top thirty
/// percent, rounded up.
pub fn light_tier_count(total: usize) -> (r: usize)
    requires
        total * 3 + 9 <= usize::MAX,
    ensures
        r as int == (total * 3 + 9) / 10,
        r <= total,
{
    (total * 3 + 9) / 10
}

/// How many of the ranked operators the Medium tier takes: the top sixty
/// percent, rounded up.
pub fn medium_tier_count(total: usize) -> (r: usize)
    requires
        total * 6 + 9 <= usize::MAX,
    ensures
        r as int == (total * 6 + 9) / 10,
        r <= total,
{
    (total * 6 + 9) / 10
}

} // verus!
