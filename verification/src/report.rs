//! The report of a mutation or specification testing run: per-function
//! statistics keyed by file, plus per-operator statistics; counts are merged
//! by summing and diff lists by concatenation.

use vstd::prelude::*;

use vstd::multiset::Multiset;

use crate::text::str_eq;

verus! {

/// The final status of the mutant after running the oracle on it.
#[derive(Clone, Copy, Debug, PartialEq, Eq, Structural)]
pub enum MutantStatus {
    /// Killed mutant: the oracle failed on it.
    Killed,
    /// Alive mutant: the oracle passed on it.
    Alive,
}

/// This struct represents a report of a single mutation test.
#[derive(Debug)]
pub struct MiniReport {
    /// The original file name.
    pub original_file: String,
    /// Qualified name for the function using the `module::function` syntax.
    pub qname: String,
    /// Mutant status after testing it.
    pub mutant_status: MutantStatus,
    /// A file difference that identifies the mutant.
    pub diff: String,
    /// The name of the operator that produced the mutant.
    pub operator_name: String,
}

impl MiniReport {
    /// Create a new [`MiniReport`].
    pub fn new(
        original_file: String,
        qname: String,
        mutant_status: MutantStatus,
        diff: String,
        operator_name: String,
    ) -> (r: MiniReport)
        ensures
            r == (MiniReport { original_file, qname, mutant_status, diff, operator_name }),
    {
        MiniReport { original_file, qname, mutant_status, diff, operator_name }
    }
}

/// This struct represents an entry in the report.
/// It contains the number of mutants tested and killed in one function.
#[derive(Debug)]
pub struct MutantStats {
    /// `module::function` where the mutants reside.
    pub module_func: String,
    /// The number of mutants tested.
    pub tested: u32,
    /// The number of mutants killed.
    pub killed: u32,
    /// The diffs of the surviving mutants.
    pub mutants_alive_diffs: Vec<String>,
    /// The diffs of the killed mutants.
    pub mutants_killed_diff: Vec<String>,
}

/// First position at or after `i` where the name holds `::`.
pub open spec fn spec_first_colons(s: Seq<char>, i: int) -> int
    decreases s.len() - i,
{
    if i < 0 || i + 2 > s.len() {
        if i < 0 {
            0
        } else {
            s.len() as int
        }
    } else if s[i] == ':' && s[i + 1] == ':' {
        i
    } else {
        spec_first_colons(s, i + 1)
    }
}

impl MutantStats {
    /// Creates a new entry with no mutants tested or killed yet.
    pub fn new(module_func: &str) -> (r: MutantStats)
        ensures
            r.module_func@ == module_func@,
            r.tested == 0,
            r.killed == 0,
            r.mutants_alive_diffs@ == Seq::<String>::empty(),
            r.mutants_killed_diff@ == Seq::<String>::empty(),
    {
        MutantStats {
            module_func: module_func.to_owned(),
            tested: 0,
            killed: 0,
            mutants_alive_diffs: Vec::new(),
            mutants_killed_diff: Vec::new(),
        }
    }

    /// Get the name of the module where the mutation resides: the part of
    /// the qualified name before the first `::` (the whole name when there
    /// is none).
    pub fn get_module_name(&self) -> (r: String)
        ensures
            r@ == self.module_func@.subrange(0, spec_first_colons(self.module_func@, 0)),
    {
        let s = self.module_func.as_str();
        let n = s.unicode_len();
        if n < 2 {
            proof {
                assert(spec_first_colons(s@, 0) == n as int);
                assert(s@.subrange(0, n as int) =~= s@);
            }
            return s.to_owned();
        }
        let mut i: usize = 0;
        while i <= n - 2
            invariant
                s@ == self.module_func@,
                n == s@.len(),
                2 <= n,
                i <= n - 1,
                spec_first_colons(s@, 0) == spec_first_colons(s@, i as int),
            decreases n - i,
        {
            if s.get_char(i) == ':' && s.get_char(i + 1) == ':' {
                proof {
                    assert(spec_first_colons(s@, i as int) == i as int);
                }
                return s.substring_char(0, i).to_owned();
            }
            proof {
                assert(spec_first_colons(s@, i as int) == spec_first_colons(s@, i + 1));
            }
            i += 1;
        }
        proof {
            assert(i as int + 2 > s@.len());
            assert(spec_first_colons(s@, i as int) == n as int);
            assert(s@.subrange(0, n as int) =~= s@);
        }
        s.to_owned()
    }
}

/// Statistics for one mutation operator across the whole run.
#[derive(Debug)]
pub struct OperatorStats {
    /// The operator name.
    pub name: String,
    /// The number of mutants tested for this operator.
    pub tested: u32,
    /// The number of mutants killed for this operator.
    pub killed: u32,
}

impl OperatorStats {
    pub fn new(name: String) -> (r: OperatorStats)
        ensures
            r.name == name,
            r.tested == 0,
            r.killed == 0,
    {
        OperatorStats { name, tested: 0, killed: 0 }
    }

    /// The effectiveness of the operator in hundredths of a percent:
    /// `killed / tested * 100`, zero when nothing was tested.
    pub fn effectiveness_hundredths(&self) -> (r: u64)
        ensures
            r == if self.tested == 0 {
                0
            } else {
                (self.killed as int * 10000) / self.tested as int
            },
    {
        if self.tested == 0 {
            0
        } else {
            (self.killed as u64 * 10000) / (self.tested as u64)
        }
    }
}

/// One kind of change to the statistics of a function.
#[derive(Debug)]
pub enum StatUpdate {
    /// One more mutant tested.
    Tested,
    /// One more mutant killed.
    Killed,
    /// A diff of a surviving mutant.
    AliveDiff(String),
    /// A diff of a killed mutant.
    KilledDiff(String),
}

/// The mathematical value of a `StatUpdate`.
pub ghost enum StatUpdateView {
    Tested,
    Killed,
    AliveDiff(Seq<char>),
    KilledDiff(Seq<char>),
}

impl View for StatUpdate {
    type V = StatUpdateView;

    open spec fn view(&self) -> StatUpdateView {
        match self {
            StatUpdate::Tested => StatUpdateView::Tested,
            StatUpdate::Killed => StatUpdateView::Killed,
            StatUpdate::AliveDiff(d) => StatUpdateView::AliveDiff(d@),
            StatUpdate::KilledDiff(d) => StatUpdateView::KilledDiff(d@),
        }
    }
}

/// The views of the diffs of a stat record.
pub open spec fn spec_diff_views(v: Seq<String>) -> Seq<Seq<char>> {
    v.map_values(|s: String| s@)
}

/// The stats entry for a qualified function name: the first entry under that
/// name, if any.
pub open spec fn spec_stat_lookup(ss: Seq<MutantStats>, mf: Seq<char>) -> Option<int>
    decreases ss,
{
    if ss.len() == 0 {
        None
    } else if ss[0].module_func@ == mf {
        Some(0)
    } else {
        match spec_stat_lookup(ss.drop_first(), mf) {
            Some(i) => Some(i + 1),
            None => None,
        }
    }
}

/// The file entry for a path: the first entry under that path, if any.
pub open spec fn spec_file_lookup(es: Seq<(String, Vec<MutantStats>)>, path: Seq<char>) -> Option<
    int,
>
    decreases es,
{
    if es.len() == 0 {
        None
    } else if es[0].0@ == path {
        Some(0)
    } else {
        match spec_file_lookup(es.drop_first(), path) {
            Some(i) => Some(i + 1),
            None => None,
        }
    }
}

/// The new stat record is the old one with exactly the update applied.
pub open spec fn spec_stat_updated(old: MutantStats, new: MutantStats, u: StatUpdateView) -> bool {
    &&& new.module_func == old.module_func
    &&& match u {
        StatUpdateView::Tested => new.tested == old.tested + 1 && new.killed == old.killed
            && new.mutants_alive_diffs@ == old.mutants_alive_diffs@ && new.mutants_killed_diff@
            == old.mutants_killed_diff@,
        StatUpdateView::Killed => new.killed == old.killed + 1 && new.tested == old.tested
            && new.mutants_alive_diffs@ == old.mutants_alive_diffs@ && new.mutants_killed_diff@
            == old.mutants_killed_diff@,
        StatUpdateView::AliveDiff(d) => new.tested == old.tested && new.killed == old.killed
            && spec_diff_views(new.mutants_alive_diffs@) == spec_diff_views(
            old.mutants_alive_diffs@,
        ).push(d) && new.mutants_killed_diff@ == old.mutants_killed_diff@,
        StatUpdateView::KilledDiff(d) => new.tested == old.tested && new.killed == old.killed
            && new.mutants_alive_diffs@ == old.mutants_alive_diffs@ && spec_diff_views(
            new.mutants_killed_diff@,
        ) == spec_diff_views(old.mutants_killed_diff@).push(d),
    }
}

/// This struct represents a report of the mutation and spec testing.
///
/// It contains a list of entries, where each entry is a file and the
/// per-function mutant statistics of that file, plus per-operator
/// statistics.
#[derive(Debug)]
pub struct Report {
    /// The list of entries in the report.
    pub files: Vec<(String, Vec<MutantStats>)>,
    /// Package directory location.
    pub package_dir: String,
    /// Statistics per operator name.
    pub operator_stats: Vec<OperatorStats>,
}

/// The total of one counter over all entries of all files.
pub open spec fn spec_total_tested(es: Seq<(String, Vec<MutantStats>)>) -> int
    decreases es,
{
    if es.len() == 0 {
        0
    } else {
        spec_stats_tested(es[0].1@) + spec_total_tested(es.drop_first())
    }
}

pub open spec fn spec_stats_tested(ss: Seq<MutantStats>) -> int
    decreases ss,
{
    if ss.len() == 0 {
        0
    } else {
        ss[0].tested + spec_stats_tested(ss.drop_first())
    }
}

pub open spec fn spec_total_killed(es: Seq<(String, Vec<MutantStats>)>) -> int
    decreases es,
{
    if es.len() == 0 {
        0
    } else {
        spec_stats_killed(es[0].1@) + spec_total_killed(es.drop_first())
    }
}

pub open spec fn spec_stats_killed(ss: Seq<MutantStats>) -> int
    decreases ss,
{
    if ss.len() == 0 {
        0
    } else {
        ss[0].killed + spec_stats_killed(ss.drop_first())
    }
}

impl Report {
    /// The report's entries, as a mathematical sequence.
    pub open spec fn spec_files(self) -> Seq<(String, Vec<MutantStats>)> {
        self.files@
    }

    pub open spec fn spec_package_dir(self) -> Seq<char> {
        self.package_dir@
    }

    /// Creates a new, empty report for a package.
    pub fn new(package_dir: String) -> (r: Report)
        ensures
            r.spec_files() == Seq::<(String, Vec<MutantStats>)>::empty(),
            r.spec_package_dir() == package_dir@,
            r.operator_stats@ == Seq::<OperatorStats>::empty(),
    {
        Report { files: Vec::new(), package_dir, operator_stats: Vec::new() }
    }

    /// Get the package directory.
    pub fn get_package_dir(&self) -> (r: &String)
        ensures
            r@ == self.spec_package_dir(),
    {
        &self.package_dir
    }

    /// Returns the list of entries in the report.
    pub fn entries(&self) -> (r: &Vec<(String, Vec<MutantStats>)>)
        ensures
            r@ == self.spec_files(),
    {
        &self.files
    }

    /// The stats recorded for a file, when the report holds the file.
    pub fn entries_for(&self, path: &str) -> (r: Option<&Vec<MutantStats>>)
        ensures
            match spec_file_lookup(self.spec_files(), path@) {
                Some(i) => r matches Some(v) && v == &self.spec_files()[i].1,
                None => r is None,
            },
    {
        let mut i: usize = 0;
        while i < self.files.len()
            invariant
                i <= self.files.len(),
                forall|j: int| 0 <= j < i ==> (#[trigger] self.spec_files()[j].0)@ != path@,
            decreases self.files.len() - i,
        {
            if str_eq(self.files[i].0.as_str(), path) {
                proof {
                    lemma_file_lookup_props(self.spec_files(), path@);
                }
                return Some(&self.files[i].1);
            }
            i += 1;
        }
        proof {
            lemma_file_lookup_props(self.spec_files(), path@);
        }
        None
    }

    /// Returns the number of mutants tested.
    pub fn mutants_tested(&self) -> (r: u32)
        requires
            spec_total_tested(self.spec_files()) <= u32::MAX,
        ensures
            r == spec_total_tested(self.spec_files()),
    {
        proof {
            assert(self.spec_files().skip(0) =~= self.spec_files());
            lemma_total_tested_nonneg(self.spec_files());
        }
        let mut total: u32 = 0;
        let mut i: usize = 0;
        while i < self.files.len()
            invariant
                i <= self.files.len(),
                spec_total_tested(self.spec_files()) == total + spec_total_tested(
                    self.spec_files().skip(i as int),
                ),
                spec_total_tested(self.spec_files()) <= u32::MAX,
                spec_total_tested(self.spec_files().skip(i as int)) >= 0,
            decreases self.files.len() - i,
        {
            proof {
                assert(self.spec_files().skip(i as int)[0] == self.spec_files()[i as int]);
                assert(self.spec_files().skip(i as int).drop_first() =~= self.spec_files().skip(
                    i + 1,
                ));
                lemma_total_tested_nonneg(self.spec_files().skip(i + 1));
                lemma_stats_tested_nonneg(self.spec_files()[i as int].1@);
            }
            let stats = &self.files[i].1;
            let ghost rest = spec_total_tested(self.spec_files().skip(i + 1));
            let mut j: usize = 0;
            proof {
                assert(stats@.skip(0) =~= stats@);
            }
            while j < stats.len()
                invariant
                    i < self.files.len(),
                    stats == &self.files@[i as int].1,
                    j <= stats.len(),
                    rest == spec_total_tested(self.spec_files().skip(i + 1)),
                    rest >= 0,
                    spec_total_tested(self.spec_files()) == total + spec_stats_tested(
                        stats@.skip(j as int),
                    ) + rest,
                    spec_total_tested(self.spec_files()) <= u32::MAX,
                    spec_stats_tested(stats@.skip(j as int)) >= 0,
                decreases stats.len() - j,
            {
                proof {
                    assert(stats@.skip(j as int)[0] == stats@[j as int]);
                    assert(stats@.skip(j as int).drop_first() =~= stats@.skip(j + 1));
                    lemma_stats_tested_nonneg(stats@.skip(j + 1));
                }
                total = total + stats[j].tested;
                j += 1;
            }
            proof {
                assert(stats@.skip(stats@.len() as int) =~= Seq::<MutantStats>::empty());
                assert(spec_stats_tested(Seq::<MutantStats>::empty()) == 0);
            }
            i += 1;
        }
        proof {
            assert(self.spec_files().skip(self.spec_files().len() as int) =~= Seq::<
                (String, Vec<MutantStats>),
            >::empty());
            assert(spec_total_tested(Seq::<(String, Vec<MutantStats>)>::empty()) == 0);
        }
        total
    }

    /// Returns the number of mutants killed.
    pub fn mutants_killed(&self) -> (r: u32)
        requires
            spec_total_killed(self.spec_files()) <= u32::MAX,
        ensures
            r == spec_total_killed(self.spec_files()),
    {
        proof {
            assert(self.spec_files().skip(0) =~= self.spec_files());
            lemma_total_killed_nonneg(self.spec_files());
        }
        let mut total: u32 = 0;
        let mut i: usize = 0;
        while i < self.files.len()
            invariant
                i <= self.files.len(),
                spec_total_killed(self.spec_files()) == total + spec_total_killed(
                    self.spec_files().skip(i as int),
                ),
                spec_total_killed(self.spec_files()) <= u32::MAX,
                spec_total_killed(self.spec_files().skip(i as int)) >= 0,
            decreases self.files.len() - i,
        {
            proof {
                assert(self.spec_files().skip(i as int)[0] == self.spec_files()[i as int]);
                assert(self.spec_files().skip(i as int).drop_first() =~= self.spec_files().skip(
                    i + 1,
                ));
                lemma_total_killed_nonneg(self.spec_files().skip(i + 1));
                lemma_stats_killed_nonneg(self.spec_files()[i as int].1@);
            }
            let stats = &self.files[i].1;
            let ghost rest = spec_total_killed(self.spec_files().skip(i + 1));
            let mut j: usize = 0;
            proof {
                assert(stats@.skip(0) =~= stats@);
            }
            while j < stats.len()
                invariant
                    i < self.files.len(),
                    stats == &self.files@[i as int].1,
                    j <= stats.len(),
                    rest == spec_total_killed(self.spec_files().skip(i + 1)),
                    rest >= 0,
                    spec_total_killed(self.spec_files()) == total + spec_stats_killed(
                        stats@.skip(j as int),
                    ) + rest,
                    spec_total_killed(self.spec_files()) <= u32::MAX,
                    spec_stats_killed(stats@.skip(j as int)) >= 0,
                decreases stats.len() - j,
            {
                proof {
                    assert(stats@.skip(j as int)[0] == stats@[j as int]);
                    assert(stats@.skip(j as int).drop_first() =~= stats@.skip(j + 1));
                    lemma_stats_killed_nonneg(stats@.skip(j + 1));
                }
                total = total + stats[j].killed;
                j += 1;
            }
            proof {
                assert(stats@.skip(stats@.len() as int) =~= Seq::<MutantStats>::empty());
                assert(spec_stats_killed(Seq::<MutantStats>::empty()) == 0);
            }
            i += 1;
        }
        proof {
            assert(self.spec_files().skip(self.spec_files().len() as int) =~= Seq::<
                (String, Vec<MutantStats>),
            >::empty());
            assert(spec_total_killed(Seq::<(String, Vec<MutantStats>)>::empty()) == 0);
        }
        total
    }
}

proof fn lemma_stats_tested_nonneg(ss: Seq<MutantStats>)
    ensures
        spec_stats_tested(ss) >= 0,
    decreases ss,
{
    if ss.len() > 0 {
        lemma_stats_tested_nonneg(ss.drop_first());
    }
}

proof fn lemma_total_tested_nonneg(es: Seq<(String, Vec<MutantStats>)>)
    ensures
        spec_total_tested(es) >= 0,
    decreases es,
{
    if es.len() > 0 {
        lemma_stats_tested_nonneg(es[0].1@);
        lemma_total_tested_nonneg(es.drop_first());
    }
}

proof fn lemma_stats_killed_nonneg(ss: Seq<MutantStats>)
    ensures
        spec_stats_killed(ss) >= 0,
    decreases ss,
{
    if ss.len() > 0 {
        lemma_stats_killed_nonneg(ss.drop_first());
    }
}

proof fn lemma_total_killed_nonneg(es: Seq<(String, Vec<MutantStats>)>)
    ensures
        spec_total_killed(es) >= 0,
    decreases es,
{
    if es.len() > 0 {
        lemma_stats_killed_nonneg(es[0].1@);
        lemma_total_killed_nonneg(es.drop_first());
    }
}

proof fn lemma_stats_tested_push(ss: Seq<MutantStats>, x: MutantStats)
    ensures
        spec_stats_tested(ss.push(x)) == spec_stats_tested(ss) + x.tested,
    decreases ss,
{
    if ss.len() == 0 {
        assert(ss.push(x)[0] == x);
        assert(ss.push(x).drop_first() =~= Seq::<MutantStats>::empty());
        assert(spec_stats_tested(Seq::<MutantStats>::empty()) == 0);
        assert(spec_stats_tested(ss.push(x).drop_first()) == 0);
    } else {
        assert(ss.push(x)[0] == ss[0]);
        assert(ss.push(x).drop_first() =~= ss.drop_first().push(x));
        lemma_stats_tested_push(ss.drop_first(), x);
    }
}

proof fn lemma_stats_killed_push(ss: Seq<MutantStats>, x: MutantStats)
    ensures
        spec_stats_killed(ss.push(x)) == spec_stats_killed(ss) + x.killed,
    decreases ss,
{
    if ss.len() == 0 {
        assert(ss.push(x)[0] == x);
        assert(ss.push(x).drop_first() =~= Seq::<MutantStats>::empty());
        assert(spec_stats_killed(Seq::<MutantStats>::empty()) == 0);
        assert(spec_stats_killed(ss.push(x).drop_first()) == 0);
    } else {
        assert(ss.push(x)[0] == ss[0]);
        assert(ss.push(x).drop_first() =~= ss.drop_first().push(x));
        lemma_stats_killed_push(ss.drop_first(), x);
    }
}

/// A found index points at the first entry bearing the path.
pub proof fn lemma_file_lookup_props(es: Seq<(String, Vec<MutantStats>)>, path: Seq<char>)
    ensures
        match spec_file_lookup(es, path) {
            Some(i) => 0 <= i < es.len() && es[i].0@ == path && (forall|j: int|
                0 <= j < i ==> (#[trigger] es[j].0)@ != path),
            None => forall|j: int| 0 <= j < es.len() ==> (#[trigger] es[j].0)@ != path,
        },
    decreases es,
{
    if es.len() > 0 {
        lemma_file_lookup_props(es.drop_first(), path);
        if es[0].0@ != path {
            match spec_file_lookup(es.drop_first(), path) {
                Some(i) => {
                    assert forall|j: int| 0 <= j < i + 1 implies (#[trigger] es[j].0)@ != path by {
                        if j > 0 {
                            assert(es.drop_first()[j - 1].0@ != path);
                        }
                    }
                },
                None => {
                    assert forall|j: int| 0 <= j < es.len() implies (#[trigger] es[j].0)@
                        != path by {
                        if j > 0 {
                            assert(es.drop_first()[j - 1].0@ != path);
                        }
                    }
                },
            }
        }
    }
}

/// A found index points at the first stats entry bearing the name.
pub proof fn lemma_stat_lookup_props(ss: Seq<MutantStats>, mf: Seq<char>)
    ensures
        match spec_stat_lookup(ss, mf) {
            Some(i) => 0 <= i < ss.len() && ss[i].module_func@ == mf && (forall|j: int|
                0 <= j < i ==> (#[trigger] ss[j].module_func)@ != mf),
            None => forall|j: int| 0 <= j < ss.len() ==> (#[trigger] ss[j].module_func)@ != mf,
        },
    decreases ss,
{
    if ss.len() > 0 {
        lemma_stat_lookup_props(ss.drop_first(), mf);
        if ss[0].module_func@ != mf {
            match spec_stat_lookup(ss.drop_first(), mf) {
                Some(i) => {
                    assert forall|j: int|
                        0 <= j < i + 1 implies (#[trigger] ss[j].module_func)@ != mf by {
                        if j > 0 {
                            assert(ss.drop_first()[j - 1].module_func@ != mf);
                        }
                    }
                },
                None => {
                    assert forall|j: int|
                        0 <= j < ss.len() implies (#[trigger] ss[j].module_func)@ != mf by {
                        if j > 0 {
                            assert(ss.drop_first()[j - 1].module_func@ != mf);
                        }
                    }
                },
            }
        }
    }
}


/// A fresh stat record for a function, with exactly one update applied.
pub open spec fn spec_fresh_updated(st: MutantStats, mf: Seq<char>, u: StatUpdateView) -> bool {
    &&& st.module_func@ == mf
    &&& match u {
        StatUpdateView::Tested => st.tested == 1 && st.killed == 0 && st.mutants_alive_diffs@
            == Seq::<String>::empty() && st.mutants_killed_diff@ == Seq::<String>::empty(),
        StatUpdateView::Killed => st.tested == 0 && st.killed == 1 && st.mutants_alive_diffs@
            == Seq::<String>::empty() && st.mutants_killed_diff@ == Seq::<String>::empty(),
        StatUpdateView::AliveDiff(d) => st.tested == 0 && st.killed == 0 && spec_diff_views(
            st.mutants_alive_diffs@,
        ) == Seq::<Seq<char>>::empty().push(d) && st.mutants_killed_diff@ == Seq::<
            String,
        >::empty(),
        StatUpdateView::KilledDiff(d) => st.tested == 0 && st.killed == 0 && st.mutants_alive_diffs@
            == Seq::<String>::empty() && spec_diff_views(st.mutants_killed_diff@) == Seq::<
            Seq<char>,
        >::empty().push(d),
    }
}

/// The whole report after one update: a missing file or function entry is
/// lazily created on first touch, an existing one is updated in place, and
/// every other entry is untouched.
pub open spec fn spec_report_updated(
    old_es: Seq<(String, Vec<MutantStats>)>,
    new_es: Seq<(String, Vec<MutantStats>)>,
    path: Seq<char>,
    mf: Seq<char>,
    u: StatUpdateView,
) -> bool {
    match spec_file_lookup(old_es, path) {
        None => {
            &&& new_es.len() == old_es.len() + 1
            &&& (forall|j: int| 0 <= j < old_es.len() ==> new_es[j] == old_es[j])
            &&& new_es.last().0@ == path
            &&& new_es.last().1@.len() == 1
            &&& spec_fresh_updated(new_es.last().1@[0], mf, u)
        },
        Some(fi) => {
            &&& new_es.len() == old_es.len()
            &&& (forall|j: int| 0 <= j < old_es.len() && j != fi ==> new_es[j] == old_es[j])
            &&& new_es[fi].0 == old_es[fi].0
            &&& match spec_stat_lookup(old_es[fi].1@, mf) {
                None => {
                    &&& new_es[fi].1@.len() == old_es[fi].1@.len() + 1
                    &&& (forall|k: int|
                        0 <= k < old_es[fi].1@.len() ==> new_es[fi].1@[k] == old_es[fi].1@[k])
                    &&& spec_fresh_updated(new_es[fi].1@.last(), mf, u)
                },
                Some(si) => {
                    &&& new_es[fi].1@.len() == old_es[fi].1@.len()
                    &&& (forall|k: int|
                        0 <= k < old_es[fi].1@.len() && k != si ==> new_es[fi].1@[k]
                            == old_es[fi].1@[k])
                    &&& spec_stat_updated(old_es[fi].1@[si], new_es[fi].1@[si], u)
                },
            }
        },
    }
}

/// Every counter in the report is below the bound.
pub open spec fn spec_counts_below(es: Seq<(String, Vec<MutantStats>)>, bound: int) -> bool {
    forall|fi: int, si: int|
        0 <= fi < es.len() && 0 <= si < es[fi].1@.len() ==> (#[trigger] es[fi].1@[si]).tested
            < bound && es[fi].1@[si].killed < bound
}

/// An update raises no counter above one more than the old bound.
pub proof fn lemma_update_preserves_counts(
    old_es: Seq<(String, Vec<MutantStats>)>,
    new_es: Seq<(String, Vec<MutantStats>)>,
    path: Seq<char>,
    mf: Seq<char>,
    u: StatUpdateView,
    bound: int,
)
    requires
        spec_counts_below(old_es, bound),
        spec_report_updated(old_es, new_es, path, mf, u),
        bound >= 2,
    ensures
        spec_counts_below(new_es, bound + 1),
{
    assert forall|fi: int, si: int|
        0 <= fi < new_es.len() && 0 <= si < new_es[fi].1@.len() implies (
    #[trigger] new_es[fi].1@[si]).tested < bound + 1 && new_es[fi].1@[si].killed < bound + 1 by {
        match spec_file_lookup(old_es, path) {
            None => {
                if fi < old_es.len() {
                    assert(new_es[fi] == old_es[fi]);
                    assert(old_es[fi].1@[si].tested < bound);
                } else {
                    assert(new_es[fi].1@[si] == new_es.last().1@[0]);
                }
            },
            Some(tfi) => {
                if fi != tfi {
                    assert(new_es[fi] == old_es[fi]);
                    assert(old_es[fi].1@[si].tested < bound);
                } else {
                    match spec_stat_lookup(old_es[fi].1@, mf) {
                        None => {
                            if si < old_es[fi].1@.len() {
                                assert(new_es[fi].1@[si] == old_es[fi].1@[si]);
                                assert(old_es[fi].1@[si].tested < bound);
                            } else {
                                assert(new_es[fi].1@[si] == new_es[fi].1@.last());
                            }
                        },
                        Some(tsi) => {
                            if si != tsi {
                                assert(new_es[fi].1@[si] == old_es[fi].1@[si]);
                                assert(old_es[fi].1@[si].tested < bound);
                            } else {
                                assert(old_es[fi].1@[si].tested < bound);
                                assert(old_es[fi].1@[si].killed < bound);
                            }
                        },
                    }
                }
            },
        }
    }
}

/// Whether the targeted counter can still be incremented.
pub open spec fn spec_update_fits(
    es: Seq<(String, Vec<MutantStats>)>,
    path: Seq<char>,
    mf: Seq<char>,
    u: StatUpdateView,
) -> bool {
    match spec_file_lookup(es, path) {
        None => true,
        Some(fi) => match spec_stat_lookup(es[fi].1@, mf) {
            None => true,
            Some(si) => match u {
                StatUpdateView::Tested => es[fi].1@[si].tested < u32::MAX,
                StatUpdateView::Killed => es[fi].1@[si].killed < u32::MAX,
                _ => true,
            },
        },
    }
}

/// Apply one update to a stat record.
fn apply_stat_update(st: MutantStats, u: StatUpdate) -> (r: MutantStats)
    requires
        match u@ {
            StatUpdateView::Tested => st.tested < u32::MAX,
            StatUpdateView::Killed => st.killed < u32::MAX,
            _ => true,
        },
    ensures
        spec_stat_updated(st, r, u@),
{
    match u {
        StatUpdate::Tested => MutantStats { tested: st.tested + 1, ..st },
        StatUpdate::Killed => MutantStats { killed: st.killed + 1, ..st },
        StatUpdate::AliveDiff(d) => {
            let ghost pre = st.mutants_alive_diffs@;
            let ghost dv = d@;
            let mut st2 = st;
            st2.mutants_alive_diffs.push(d);
            proof {
                let m1 = spec_diff_views(st2.mutants_alive_diffs@);
                let m2 = spec_diff_views(pre).push(dv);
                assert(m1.len() == m2.len());
                assert forall|j: int| 0 <= j < m1.len() implies m1[j] == m2[j] by {
                    if j < m1.len() - 1 {
                        assert(m1[j] == spec_diff_views(pre)[j]);
                    } else {
                        assert(st2.mutants_alive_diffs@[j] == d);
                    }
                }
                assert(m1 =~= m2);
            }
            st2
        },
        StatUpdate::KilledDiff(d) => {
            let ghost pre = st.mutants_killed_diff@;
            let ghost dv = d@;
            let mut st2 = st;
            st2.mutants_killed_diff.push(d);
            proof {
                let m1 = spec_diff_views(st2.mutants_killed_diff@);
                let m2 = spec_diff_views(pre).push(dv);
                assert(m1.len() == m2.len());
                assert forall|j: int| 0 <= j < m1.len() implies m1[j] == m2[j] by {
                    if j < m1.len() - 1 {
                        assert(m1[j] == spec_diff_views(pre)[j]);
                    } else {
                        assert(st2.mutants_killed_diff@[j] == d);
                    }
                }
                assert(m1 =~= m2);
            }
            st2
        },
    }
}

/// Find the first file entry bearing the path.
fn find_file(es: &Vec<(String, Vec<MutantStats>)>, path: &str) -> (r: Option<usize>)
    ensures
        match r {
            Some(i) => spec_file_lookup(es@, path@) == Some(i as int) && i < es@.len(),
            None => spec_file_lookup(es@, path@) is None,
        },
{
    let mut i: usize = 0;
    while i < es.len()
        invariant
            i <= es.len(),
            forall|j: int| 0 <= j < i ==> (#[trigger] es@[j].0)@ != path@,
        decreases es.len() - i,
    {
        if str_eq(es[i].0.as_str(), path) {
            proof {
                lemma_file_lookup_props(es@, path@);
                let lk = spec_file_lookup(es@, path@);
                if lk is Some {
                    let k = lk->0;
                    if k < i {
                        assert(es@[k].0@ != path@);
                    }
                    if k > i {
                        assert(es@[i as int].0@ != path@);
                    }
                    assert(k == i as int);
                } else {
                    assert(es@[i as int].0@ != path@);
                }
            }
            return Some(i);
        }
        i += 1;
    }
    proof {
        lemma_file_lookup_props(es@, path@);
        let lk = spec_file_lookup(es@, path@);
        if lk is Some {
            assert(es@[lk->0].0@ != path@);
        }
    }
    None
}

/// Find the first stats entry bearing the qualified function name.
fn find_stat(ss: &Vec<MutantStats>, mf: &str) -> (r: Option<usize>)
    ensures
        match r {
            Some(i) => spec_stat_lookup(ss@, mf@) == Some(i as int) && i < ss@.len(),
            None => spec_stat_lookup(ss@, mf@) is None,
        },
{
    let mut i: usize = 0;
    while i < ss.len()
        invariant
            i <= ss.len(),
            forall|j: int| 0 <= j < i ==> (#[trigger] ss@[j].module_func)@ != mf@,
        decreases ss.len() - i,
    {
        if str_eq(ss[i].module_func.as_str(), mf) {
            proof {
                lemma_stat_lookup_props(ss@, mf@);
                let lk = spec_stat_lookup(ss@, mf@);
                if lk is Some {
                    let k = lk->0;
                    if k < i {
                        assert(ss@[k].module_func@ != mf@);
                    }
                    if k > i {
                        assert(ss@[i as int].module_func@ != mf@);
                    }
                    assert(k == i as int);
                } else {
                    assert(ss@[i as int].module_func@ != mf@);
                }
            }
            return Some(i);
        }
        i += 1;
    }
    proof {
        lemma_stat_lookup_props(ss@, mf@);
        let lk = spec_stat_lookup(ss@, mf@);
        if lk is Some {
            assert(ss@[lk->0].module_func@ != mf@);
        }
    }
    None
}

impl Report {
    /// Apply one update to the stats of the given file and function,
    /// lazily creating the entries on first touch.
    pub fn increment_stat(&mut self, path: &str, module_func: &str, update: StatUpdate)
        requires
            spec_update_fits(old(self).spec_files(), path@, module_func@, update@),
        ensures
            spec_report_updated(
                old(self).spec_files(),
                final(self).spec_files(),
                path@,
                module_func@,
                update@,
            ),
            final(self).spec_package_dir() == old(self).spec_package_dir(),
            final(self).operator_stats@ == old(self).operator_stats@,
    {
        let fi_opt = find_file(&self.files, path);
        match fi_opt {
            None => {
                let fresh = MutantStats::new(module_func);
                let ghost fresh0 = fresh;
                let st = apply_stat_update(fresh, update);
                proof {
                    assert(spec_diff_views(Seq::<String>::empty()) =~= Seq::<Seq<char>>::empty());
                    assert(spec_fresh_updated(st, module_func@, update@));
                }
                let mut v: Vec<MutantStats> = Vec::new();
                v.push(st);
                self.files.push((path.to_owned(), v));
                proof {
                    assert(self.spec_files().last().1@[0] == st);
                    assert(self.spec_files().last().0@ == path@);
                }
            },
            Some(fi) => {
                proof {
                    assert(spec_file_lookup(old(self).spec_files(), path@) == Some(fi as int));
                }
                let mut entry = self.files.remove(fi);
                let ghost old_entry = entry;
                proof {
                    assert(old_entry == old(self).spec_files()[fi as int]);
                    lemma_stat_lookup_props(entry.1@, module_func@);
                }
                match find_stat(&entry.1, module_func) {
                    None => {
                        let fresh = MutantStats::new(module_func);
                        let st = apply_stat_update(fresh, update);
                        proof {
                            assert(spec_diff_views(Seq::<String>::empty()) =~= Seq::<
                                Seq<char>,
                            >::empty());
                            assert(spec_fresh_updated(st, module_func@, update@));
                        }
                        entry.1.push(st);
                        proof {
                            assert(entry.1@.last() == st);
                        }
                    },
                    Some(si) => {
                        proof {
                            assert(old_entry.1@ == entry.1@);
                            assert(spec_stat_lookup(
                                old(self).spec_files()[fi as int].1@,
                                module_func@,
                            ) == Some(si as int));
                        }
                        let st = entry.1.remove(si);
                        proof {
                            assert(st == old_entry.1@[si as int]);
                        }
                        let st = apply_stat_update(st, update);
                        entry.1.insert(si, st);
                        proof {
                            assert(entry.1@ =~= old_entry.1@.update(
                                si as int,
                                entry.1@[si as int],
                            ));
                            assert(entry.1@[si as int] == st);
                        }
                    },
                }
                let ghost e2 = entry;
                self.files.insert(fi, entry);
                proof {
                    assert(self.spec_files()[fi as int] == e2);
                    assert forall|j: int|
                        0 <= j < old(self).spec_files().len() && j != fi implies self.spec_files()[j]
                        == old(self).spec_files()[j] by {
                        if j < fi {
                            assert(self.spec_files()[j] == old(self).spec_files().remove(
                                fi as int,
                            )[j]);
                            assert(old(self).spec_files().remove(fi as int)[j] == old(
                                self,
                            ).spec_files()[j]);
                        } else {
                            assert(self.spec_files()[j] == old(self).spec_files().remove(
                                fi as int,
                            )[j - 1]);
                            assert(old(self).spec_files().remove(fi as int)[j - 1] == old(
                                self,
                            ).spec_files()[j]);
                        }
                    }
                }
            },
        }
    }

    /// Increments the number of mutants tested for the given path by one.
    /// If the path is not in the report, it is added with one mutant tested.
    pub fn increment_mutants_tested(&mut self, path: &str, module_func: &str)
        requires
            spec_update_fits(old(self).spec_files(), path@, module_func@, StatUpdateView::Tested),
        ensures
            spec_report_updated(
                old(self).spec_files(),
                final(self).spec_files(),
                path@,
                module_func@,
                StatUpdateView::Tested,
            ),
            final(self).spec_package_dir() == old(self).spec_package_dir(),
            final(self).operator_stats@ == old(self).operator_stats@,
    {
        self.increment_stat(path, module_func, StatUpdate::Tested)
    }

    /// Increments the number of mutants killed for the given path by one.
    /// If the path is not in the report, it is added with one mutant killed
    /// and none tested.
    pub fn increment_mutants_killed(&mut self, path: &str, module_func: &str)
        requires
            spec_update_fits(old(self).spec_files(), path@, module_func@, StatUpdateView::Killed),
        ensures
            spec_report_updated(
                old(self).spec_files(),
                final(self).spec_files(),
                path@,
                module_func@,
                StatUpdateView::Killed,
            ),
            final(self).spec_package_dir() == old(self).spec_package_dir(),
            final(self).operator_stats@ == old(self).operator_stats@,
    {
        self.increment_stat(path, module_func, StatUpdate::Killed)
    }

    /// Add a diff for a survived mutant.
    pub fn add_mutants_alive_diff(&mut self, path: &str, module_func: &str, diff: &str)
        ensures
            spec_report_updated(
                old(self).spec_files(),
                final(self).spec_files(),
                path@,
                module_func@,
                StatUpdateView::AliveDiff(diff@),
            ),
            final(self).spec_package_dir() == old(self).spec_package_dir(),
            final(self).operator_stats@ == old(self).operator_stats@,
    {
        self.increment_stat(path, module_func, StatUpdate::AliveDiff(diff.to_owned()))
    }

    /// Add a diff for a killed mutant.
    pub fn add_mutants_killed_diff(&mut self, path: &str, module_func: &str, diff: &str)
        ensures
            spec_report_updated(
                old(self).spec_files(),
                final(self).spec_files(),
                path@,
                module_func@,
                StatUpdateView::KilledDiff(diff@),
            ),
            final(self).spec_package_dir() == old(self).spec_package_dir(),
            final(self).operator_stats@ == old(self).operator_stats@,
    {
        self.increment_stat(path, module_func, StatUpdate::KilledDiff(diff.to_owned()))
    }
}


/// The mathematical value of one function's statistics: counts, and the
/// diffs as multisets (their order never matters).
pub ghost struct StatView {
    pub tested: int,
    pub killed: int,
    pub alive: Multiset<Seq<char>>,
    pub killed_diffs: Multiset<Seq<char>>,
}

pub open spec fn sv_empty() -> StatView {
    StatView { tested: 0, killed: 0, alive: Multiset::empty(), killed_diffs: Multiset::empty() }
}

/// Combining two stat values sums the counts and adds the diff multisets.
pub open spec fn sv_combine(a: StatView, b: StatView) -> StatView {
    StatView {
        tested: a.tested + b.tested,
        killed: a.killed + b.killed,
        alive: a.alive.add(b.alive),
        killed_diffs: a.killed_diffs.add(b.killed_diffs),
    }
}

pub open spec fn sv_of(st: MutantStats) -> StatView {
    StatView {
        tested: st.tested as int,
        killed: st.killed as int,
        alive: spec_diff_views(st.mutants_alive_diffs@).to_multiset(),
        killed_diffs: spec_diff_views(st.mutants_killed_diff@).to_multiset(),
    }
}

proof fn lemma_sv_combine_commutative(a: StatView, b: StatView)
    ensures
        sv_combine(a, b) == sv_combine(b, a),
{
    assert(a.alive.add(b.alive) =~= b.alive.add(a.alive));
    assert(a.killed_diffs.add(b.killed_diffs) =~= b.killed_diffs.add(a.killed_diffs));
}

proof fn lemma_sv_combine_associative(a: StatView, b: StatView, c: StatView)
    ensures
        sv_combine(sv_combine(a, b), c) == sv_combine(a, sv_combine(b, c)),
{
    assert(a.alive.add(b.alive).add(c.alive) =~= a.alive.add(b.alive.add(c.alive)));
    assert(a.killed_diffs.add(b.killed_diffs).add(c.killed_diffs) =~= a.killed_diffs.add(
        b.killed_diffs.add(c.killed_diffs),
    ));
}

/// Combining two per-function maps combines the values of shared keys.
pub open spec fn fv_combine(
    a: Map<Seq<char>, StatView>,
    b: Map<Seq<char>, StatView>,
) -> Map<Seq<char>, StatView> {
    Map::new(
        |k: Seq<char>| a.contains_key(k) || b.contains_key(k),
        |k: Seq<char>|
            if a.contains_key(k) && b.contains_key(k) {
                sv_combine(a[k], b[k])
            } else if a.contains_key(k) {
                a[k]
            } else {
                b[k]
            },
    )
}

/// Combining two reports combines the per-function maps of shared files.
pub open spec fn rv_combine(
    a: Map<Seq<char>, Map<Seq<char>, StatView>>,
    b: Map<Seq<char>, Map<Seq<char>, StatView>>,
) -> Map<Seq<char>, Map<Seq<char>, StatView>> {
    Map::new(
        |k: Seq<char>| a.contains_key(k) || b.contains_key(k),
        |k: Seq<char>|
            if a.contains_key(k) && b.contains_key(k) {
                fv_combine(a[k], b[k])
            } else if a.contains_key(k) {
                a[k]
            } else {
                b[k]
            },
    )
}

/// Report merge is commutative: counts are summed per key and the diff
/// collections are merged, so the order of the two reports does not matter.
pub proof fn lemma_report_combine_commutative(
    a: Map<Seq<char>, Map<Seq<char>, StatView>>,
    b: Map<Seq<char>, Map<Seq<char>, StatView>>,
)
    ensures
        rv_combine(a, b) == rv_combine(b, a),
{
    assert forall|k: Seq<char>|
        rv_combine(a, b).dom().contains(k) implies #[trigger] rv_combine(a, b)[k] == rv_combine(
        b,
        a,
    )[k] by {
        if a.contains_key(k) && b.contains_key(k) {
            assert forall|f: Seq<char>|
                fv_combine(a[k], b[k]).dom().contains(f) implies #[trigger] fv_combine(
                a[k],
                b[k],
            )[f] == fv_combine(b[k], a[k])[f] by {
                if a[k].contains_key(f) && b[k].contains_key(f) {
                    lemma_sv_combine_commutative(a[k][f], b[k][f]);
                }
            }
            assert(fv_combine(a[k], b[k]) =~= fv_combine(b[k], a[k]));
        }
    }
    assert(rv_combine(a, b) =~= rv_combine(b, a));
}

/// Report merge is associative: however batches are partitioned, the merged
/// result is the same.
pub proof fn lemma_report_combine_associative(
    a: Map<Seq<char>, Map<Seq<char>, StatView>>,
    b: Map<Seq<char>, Map<Seq<char>, StatView>>,
    c: Map<Seq<char>, Map<Seq<char>, StatView>>,
)
    ensures
        rv_combine(rv_combine(a, b), c) == rv_combine(a, rv_combine(b, c)),
{
    assert forall|k: Seq<char>|
        rv_combine(rv_combine(a, b), c).dom().contains(k) implies #[trigger] rv_combine(
        rv_combine(a, b),
        c,
    )[k] == rv_combine(a, rv_combine(b, c))[k] by {
        let fa = if a.contains_key(k) { a[k] } else { Map::<Seq<char>, StatView>::empty() };
        let fb = if b.contains_key(k) { b[k] } else { Map::<Seq<char>, StatView>::empty() };
        let fc = if c.contains_key(k) { c[k] } else { Map::<Seq<char>, StatView>::empty() };
        assert forall|f: Seq<char>|
            #![trigger fv_combine(fa, fb)[f]]
            true implies fv_combine(fv_combine(fa, fb), fc).contains_key(f) == fv_combine(
            fa,
            fv_combine(fb, fc),
        ).contains_key(f) && (fv_combine(fv_combine(fa, fb), fc).contains_key(f)
            ==> fv_combine(fv_combine(fa, fb), fc)[f] == fv_combine(fa, fv_combine(fb, fc))[f]) by {
            if fa.contains_key(f) && fb.contains_key(f) && fc.contains_key(f) {
                lemma_sv_combine_associative(fa[f], fb[f], fc[f]);
            }
        }
        assert(fv_combine(fv_combine(fa, fb), fc) =~= fv_combine(fa, fv_combine(fb, fc)));
        if a.contains_key(k) && b.contains_key(k) && c.contains_key(k) {
            assert(rv_combine(rv_combine(a, b), c)[k] == fv_combine(fv_combine(fa, fb), fc));
            assert(rv_combine(a, rv_combine(b, c))[k] == fv_combine(fa, fv_combine(fb, fc)));
        } else {
            if b.contains_key(k) && c.contains_key(k) && !a.contains_key(k) {
                assert(rv_combine(rv_combine(a, b), c)[k] == fv_combine(fb, fc));
                assert(rv_combine(a, rv_combine(b, c))[k] == fv_combine(fb, fc));
            }
            if a.contains_key(k) && c.contains_key(k) && !b.contains_key(k) {
                assert(fv_combine(fa, fc) == fv_combine(fv_combine(fa, fb), fc)) by {
                    assert(fv_combine(fa, fb) =~= fa);
                    assert(fv_combine(fb, fc) =~= fc);
                }
                assert(fv_combine(fa, fc) == fv_combine(fa, fv_combine(fb, fc))) by {
                    assert(fv_combine(fb, fc) =~= fc);
                }
            }
            if a.contains_key(k) && b.contains_key(k) && !c.contains_key(k) {
                assert(rv_combine(rv_combine(a, b), c)[k] == fv_combine(fa, fb));
                assert(rv_combine(a, rv_combine(b, c))[k] == fv_combine(fa, fb));
            }
        }
    }
    assert(rv_combine(rv_combine(a, b), c) =~= rv_combine(a, rv_combine(b, c)));
}

/// Fold one stat record into a report value.
pub open spec fn spec_absorb(
    m: Map<Seq<char>, Map<Seq<char>, StatView>>,
    path: Seq<char>,
    mf: Seq<char>,
    s: StatView,
) -> Map<Seq<char>, Map<Seq<char>, StatView>> {
    let fm = if m.contains_key(path) {
        m[path]
    } else {
        Map::<Seq<char>, StatView>::empty()
    };
    let cur = if fm.contains_key(mf) {
        fm[mf]
    } else {
        sv_empty()
    };
    m.insert(path, fm.insert(mf, sv_combine(cur, s)))
}

/// Fold the stats of one file into a report value.
pub open spec fn spec_stats_fold(
    m: Map<Seq<char>, Map<Seq<char>, StatView>>,
    path: Seq<char>,
    ss: Seq<MutantStats>,
) -> Map<Seq<char>, Map<Seq<char>, StatView>>
    decreases ss,
{
    if ss.len() == 0 {
        m
    } else {
        spec_stats_fold(spec_absorb(m, path, ss[0].module_func@, sv_of(ss[0])), path, ss.drop_first())
    }
}

/// Fold all file entries into a report value.
pub open spec fn spec_files_fold(
    m: Map<Seq<char>, Map<Seq<char>, StatView>>,
    es: Seq<(String, Vec<MutantStats>)>,
) -> Map<Seq<char>, Map<Seq<char>, StatView>>
    decreases es,
{
    if es.len() == 0 {
        m
    } else {
        spec_files_fold(spec_stats_fold(m, es[0].0@, es[0].1@), es.drop_first())
    }
}

/// Combining with an empty report changes nothing.
proof fn lemma_rv_combine_empty(a: Map<Seq<char>, Map<Seq<char>, StatView>>)
    ensures
        rv_combine(a, Map::empty()) == a,
        rv_combine(Map::empty(), a) == a,
{
    assert(rv_combine(a, Map::empty()) =~= a);
    assert(rv_combine(Map::empty(), a) =~= a);
}

/// Absorbing into a combined report equals absorbing into its right part.
proof fn lemma_combine_absorb(
    a: Map<Seq<char>, Map<Seq<char>, StatView>>,
    b: Map<Seq<char>, Map<Seq<char>, StatView>>,
    path: Seq<char>,
    mf: Seq<char>,
    s: StatView,
)
    ensures
        rv_combine(a, spec_absorb(b, path, mf, s)) == spec_absorb(rv_combine(a, b), path, mf, s),
{
    let lhs = rv_combine(a, spec_absorb(b, path, mf, s));
    let rhs = spec_absorb(rv_combine(a, b), path, mf, s);
    assert forall|k: Seq<char>| lhs.dom().contains(k) implies #[trigger] lhs[k] == rhs[k] by {
        if k == path {
            let fa = if a.contains_key(k) { a[k] } else { Map::<Seq<char>, StatView>::empty() };
            let fb = if b.contains_key(k) { b[k] } else { Map::<Seq<char>, StatView>::empty() };
            assert forall|f: Seq<char>| lhs[k].dom().contains(f) implies #[trigger] lhs[k][f]
                == rhs[k][f] by {
                if f == mf {
                    let ca = if fa.contains_key(f) { fa[f] } else { sv_empty() };
                    let cb = if fb.contains_key(f) { fb[f] } else { sv_empty() };
                    lemma_sv_combine_associative(ca, cb, s);
                    assert(sv_combine(sv_empty(), s) == StatView {
                        tested: s.tested,
                        killed: s.killed,
                        alive: Multiset::empty().add(s.alive),
                        killed_diffs: Multiset::empty().add(s.killed_diffs),
                    });
                    assert(Multiset::empty().add(s.alive) =~= s.alive);
                    assert(Multiset::empty().add(s.killed_diffs) =~= s.killed_diffs);
                    assert(ca.alive.add(Multiset::empty()) =~= ca.alive);
                    assert(ca.killed_diffs.add(Multiset::empty()) =~= ca.killed_diffs);
                }
            }
            assert(lhs[k] =~= rhs[k]);
        }
    }
    assert(lhs =~= rhs);
}

/// Folding a file's stats into a combined report equals folding them into
/// its right part.
proof fn lemma_combine_stats_fold(
    a: Map<Seq<char>, Map<Seq<char>, StatView>>,
    b: Map<Seq<char>, Map<Seq<char>, StatView>>,
    path: Seq<char>,
    ss: Seq<MutantStats>,
)
    ensures
        rv_combine(a, spec_stats_fold(b, path, ss)) == spec_stats_fold(
            rv_combine(a, b),
            path,
            ss,
        ),
    decreases ss,
{
    if ss.len() > 0 {
        lemma_combine_absorb(a, b, path, ss[0].module_func@, sv_of(ss[0]));
        lemma_combine_stats_fold(a, spec_absorb(b, path, ss[0].module_func@, sv_of(ss[0])), path, ss.drop_first());
    }
}

/// Folding file entries into a combined report equals folding them into its
/// right part.
proof fn lemma_combine_files_fold(
    a: Map<Seq<char>, Map<Seq<char>, StatView>>,
    b: Map<Seq<char>, Map<Seq<char>, StatView>>,
    es: Seq<(String, Vec<MutantStats>)>,
)
    ensures
        rv_combine(a, spec_files_fold(b, es)) == spec_files_fold(rv_combine(a, b), es),
    decreases es,
{
    if es.len() > 0 {
        lemma_combine_stats_fold(a, b, es[0].0@, es[0].1@);
        lemma_combine_files_fold(a, spec_stats_fold(b, es[0].0@, es[0].1@), es.drop_first());
    }
}

/// Folding a concatenation folds the two parts in turn.
proof fn lemma_files_fold_concat(
    m: Map<Seq<char>, Map<Seq<char>, StatView>>,
    x: Seq<(String, Vec<MutantStats>)>,
    y: Seq<(String, Vec<MutantStats>)>,
)
    ensures
        spec_files_fold(m, x + y) == spec_files_fold(spec_files_fold(m, x), y),
    decreases x,
{
    if x.len() == 0 {
        assert(x + y =~= y);
    } else {
        assert((x + y)[0] == x[0]);
        assert((x + y).drop_first() =~= x.drop_first() + y);
        lemma_files_fold_concat(spec_stats_fold(m, x[0].0@, x[0].1@), x.drop_first(), y);
    }
}

impl Report {
    /// The mathematical value of the report's file statistics: for each file
    /// and function, the summed counts and the multisets of diffs.
    pub open spec fn spec_stats_view(self) -> Map<Seq<char>, Map<Seq<char>, StatView>> {
        spec_files_fold(Map::empty(), self.spec_files())
    }

    /// Merge another report's statistics into this one: counts are summed
    /// per file and function, and diff lists concatenated. Entries of the
    /// two reports are kept side by side; every aggregate reading of the
    /// report sums entries of the same key, so the merged value is the
    /// combination of the two.
    pub fn merge(&mut self, other: Report)
        ensures
            final(self).spec_stats_view() == rv_combine(
                old(self).spec_stats_view(),
                other.spec_stats_view(),
            ),
            final(self).spec_package_dir() == old(self).spec_package_dir(),
    {
        let mut other = other;
        let ghost a = self.files@;
        let ghost b = other.files@;
        self.files.append(&mut other.files);
        let mut oos = other.operator_stats;
        self.operator_stats.append(&mut oos);
        proof {
            lemma_files_fold_concat(Map::empty(), a, b);
            lemma_combine_files_fold(
                spec_files_fold(Map::empty(), a),
                Map::empty(),
                b,
            );
            lemma_rv_combine_empty(spec_files_fold(Map::empty(), a));
        }
    }
}

} // verus!


