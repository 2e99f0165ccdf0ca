//! Helpers for displaying reports: filters over the report's contents, and
//! per-line statistics derived from the recorded diffs.
//!
//! The rendering itself (tables, colors, printing) happens outside; what is
//! selected and counted is decided here.

pub use crate::cli::{FunctionFilter, ModuleFilter};

use vstd::prelude::*;

use crate::report::{spec_file_lookup, spec_first_colons, MutantStats, Report};
use crate::text::str_eq;

verus! {

/// Filter for mutants to be included in the output.
#[derive(Debug, Clone, Copy, PartialEq, Eq, Structural)]
pub enum MutantFilter {
    Alive,
    Killed,
    Both,
}

impl MutantFilter {
    /// Check whether the filter allows killed mutants.
    pub fn contains_killed(&self) -> (r: bool)
        ensures
            r == (*self == MutantFilter::Both || *self == MutantFilter::Killed),
    {
        matches!(self, MutantFilter::Both | MutantFilter::Killed)
    }

    /// Check whether the filter allows alive mutants.
    pub fn contains_alive(&self) -> (r: bool)
        ensures
            r == (*self == MutantFilter::Both || *self == MutantFilter::Alive),
    {
        matches!(self, MutantFilter::Both | MutantFilter::Alive)
    }

    /// Parse a filter argument: `alive`, `killed` or `both`.
    pub fn parse(s: &str) -> (r: Result<MutantFilter, String>)
        ensures
            r == if s@ == "alive"@ {
                Ok::<MutantFilter, String>(MutantFilter::Alive)
            } else if s@ == "killed"@ {
                Ok::<MutantFilter, String>(MutantFilter::Killed)
            } else if s@ == "both"@ {
                Ok::<MutantFilter, String>(MutantFilter::Both)
            } else {
                r
            },
            (s@ != "alive"@ && s@ != "killed"@ && s@ != "both"@) ==> (r matches Err(m) && m@
                == "Invalid mutant option. Allowed only: alive, killed, both"@),
    {
        if str_eq(s, "alive") {
            Ok(MutantFilter::Alive)
        } else if str_eq(s, "killed") {
            Ok(MutantFilter::Killed)
        } else if str_eq(s, "both") {
            Ok(MutantFilter::Both)
        } else {
            Err("Invalid mutant option. Allowed only: alive, killed, both".to_owned())
        }
    }
}

impl core::str::FromStr for MutantFilter {
    type Err = String;

    fn from_str(s: &str) -> Result<Self, Self::Err> {
        MutantFilter::parse(s)
    }
}

/// Display report subcommands.
#[derive(Debug)]
pub enum DisplayReportCmd {
    /// Display the report in the coverage format.
    Coverage,
    /// Display mutants.
    Mutants { functions: FunctionFilter, mutants: MutantFilter },
}

/// Options for displaying the report in a more readable format.
#[derive(Debug)]
pub struct DisplayReportOptions {
    /// Report location.
    pub path_to_report: String,
    /// Include the specified modules in the report.
    pub modules: ModuleFilter,
    /// Display report subcommands.
    pub cmds: DisplayReportCmd,
}

/// One of the entry's functions belongs to a module the filter admits.
pub open spec fn spec_entry_matches(sel: Option<Seq<Seq<char>>>, ss: Seq<MutantStats>) -> bool {
    match sel {
        Option::None => true,
        Option::Some(names) => exists|si: int|
            0 <= si < ss.len() && names.contains(
                (#[trigger] ss[si]).module_func@.subrange(
                    0,
                    spec_first_colons(ss[si].module_func@, 0),
                ),
            ),
    }
}

/// Some entry of the report bears the path and matches the selection.
pub open spec fn spec_file_selected(
    sel: Option<Seq<Seq<char>>>,
    es: Seq<(String, Vec<MutantStats>)>,
    p: Seq<char>,
) -> bool {
    exists|k: int|
        0 <= k < es.len() && (#[trigger] es[k]).0@ == p && spec_entry_matches(sel, es[k].1@)
}

/// The path stands in the list.
pub open spec fn spec_in_list(rs: Seq<String>, p: Seq<char>) -> bool {
    exists|j: int| 0 <= j < rs.len() && (#[trigger] rs[j])@ == p
}

impl ModuleFilter {
    /// The files of the report that hold mutants of one of the filter's
    /// modules (every file when no modules are selected).
    #[verifier::loop_isolation(false)]
    pub fn get_all_files_containing_the_modules(&self, report: &Report) -> (r: Vec<String>)
        ensures
            forall|j: int|
                0 <= j < r@.len() ==> spec_file_selected(
                    self.spec_selected(),
                    report.spec_files(),
                    (#[trigger] r@[j])@,
                ),
            forall|k: int|
                0 <= k < report.spec_files().len() && spec_entry_matches(
                    self.spec_selected(),
                    (#[trigger] report.spec_files()[k]).1@,
                ) ==> spec_in_list(r@, report.spec_files()[k].0@),
    {
        let entries = report.entries();
        let mut r: Vec<String> = Vec::new();
        let mut k: usize = 0;
        while k < entries.len()
            invariant
                k <= entries@.len(),
                entries@ == report.spec_files(),
                forall|j: int|
                    0 <= j < r@.len() ==> spec_file_selected(
                        self.spec_selected(),
                        entries@,
                        (#[trigger] r@[j])@,
                    ),
                forall|t: int|
                    0 <= t < k && spec_entry_matches(
                        self.spec_selected(),
                        (#[trigger] entries@[t]).1@,
                    ) ==> spec_in_list(r@, entries@[t].0@),
            decreases entries@.len() - k,
        {
            let matches_filter = match self {
                ModuleFilter::All => true,
                ModuleFilter::Selected(names) => {
                    let ss = &entries[k].1;
                    let mut found = false;
                    let mut si: usize = 0;
                    while si < ss.len()
                        invariant
                            si <= ss@.len(),
                            ss@ == entries@[k as int].1@,
                            k < entries@.len(),
                            self matches ModuleFilter::Selected(ns) && ns == names,
                            found ==> spec_entry_matches(self.spec_selected(), ss@),
                            !found ==> forall|t: int|
                                0 <= t < si ==> !names@.map_values(|s: String| s@).contains(
                                    (#[trigger] ss@[t]).module_func@.subrange(
                                        0,
                                        spec_first_colons(ss@[t].module_func@, 0),
                                    ),
                                ),
                        decreases ss@.len() - si,
                    {
                        let module = ss[si].get_module_name();
                        if crate::cli::contains_name(names, module.as_str()) {
                            found = true;
                        }
                        si += 1;
                    }
                    proof {
                        if !found {
                            assert(!spec_entry_matches(self.spec_selected(), ss@)) by {
                                if spec_entry_matches(self.spec_selected(), ss@) {
                                    let si0 = choose|si0: int|
                                        0 <= si0 < ss@.len() && names@.map_values(
                                            |s: String| s@,
                                        ).contains(
                                            (#[trigger] ss@[si0]).module_func@.subrange(
                                                0,
                                                spec_first_colons(ss@[si0].module_func@, 0),
                                            ),
                                        );
                                }
                            }
                        }
                    }
                    found
                },
            };
            let ghost pre = r@;
            if matches_filter {
                let mut already = false;
                let mut j: usize = 0;
                while j < r.len()
                    invariant
                        j <= r@.len(),
                        k < entries@.len(),
                        r@ == pre,
                        already ==> spec_in_list(r@, entries@[k as int].0@),
                        !already ==> forall|t: int|
                            0 <= t < j ==> (#[trigger] r@[t])@ != entries@[k as int].0@,
                    decreases r@.len() - j,
                {
                    if str_eq(r[j].as_str(), entries[k].0.as_str()) {
                        proof {
                            assert(r@[j as int]@ == entries@[k as int].0@);
                        }
                        already = true;
                    }
                    j += 1;
                }
                if !already {
                    r.push(entries[k].0.clone());
                }
                proof {
                    assert(spec_entry_matches(self.spec_selected(), entries@[k as int].1@));
                    assert forall|j2: int| 0 <= j2 < r@.len() implies spec_file_selected(
                        self.spec_selected(),
                        entries@,
                        (#[trigger] r@[j2])@,
                    ) by {
                        if j2 < pre.len() {
                            assert(r@[j2] == pre[j2]);
                            assert(spec_file_selected(self.spec_selected(), entries@, pre[j2]@));
                        } else {
                            assert(r@[j2]@ == entries@[k as int].0@);
                            assert(spec_file_selected(
                                self.spec_selected(),
                                entries@,
                                entries@[k as int].0@,
                            ));
                        }
                    }
                    assert forall|t: int|
                        0 <= t < k + 1 && spec_entry_matches(
                            self.spec_selected(),
                            (#[trigger] entries@[t]).1@,
                        ) implies spec_in_list(r@, entries@[t].0@) by {
                        if t < k {
                            let j0 = choose|j0: int|
                                0 <= j0 < pre.len() && (#[trigger] pre[j0])@ == entries@[t].0@;
                            assert(r@[j0]@ == entries@[t].0@);
                        } else {
                            if already {
                                let j0 = choose|j0: int|
                                    0 <= j0 < pre.len() && (#[trigger] pre[j0])@ == entries@[
                                    k as int].0@;
                                assert(r@[j0]@ == entries@[t].0@);
                            } else {
                                assert(r@[r@.len() - 1]@ == entries@[t].0@);
                            }
                        }
                    }
                }
            } else {
                proof {
                    assert forall|t: int|
                        0 <= t < k + 1 && spec_entry_matches(
                            self.spec_selected(),
                            (#[trigger] entries@[t]).1@,
                        ) implies spec_in_list(r@, entries@[t].0@) by {
                        if t == k {
                            assert(!spec_entry_matches(self.spec_selected(), entries@[t].1@));
                        }
                    }
                }
            }
            k += 1;
        }
        r
    }
}

/// Line stats for mutations on one line.
#[derive(Clone, Copy, Debug, PartialEq, Eq, Structural)]
pub struct MutatedLine {
    /// Number of total mutants.
    pub total_mutants: u32,
    /// Number of killed mutants.
    pub killed_mutants: u32,
}

impl MutatedLine {
    /// The line stats a function's record contributes.
    pub fn from_stats(mutant_stats: &MutantStats) -> (r: MutatedLine)
        ensures
            r.total_mutants == mutant_stats.tested,
            r.killed_mutants == mutant_stats.killed,
    {
        MutatedLine { total_mutants: mutant_stats.tested, killed_mutants: mutant_stats.killed }
    }
}

/// The recorded stats of a line: the first entry under that number, if any.
pub open spec fn spec_line_lookup(ls: Seq<(usize, MutatedLine)>, line: int) -> Option<int>
    decreases ls,
{
    if ls.len() == 0 {
        None
    } else if ls[0].0 == line {
        Some(0)
    } else {
        match spec_line_lookup(ls.drop_first(), line) {
            Some(i) => Some(i + 1),
            None => None,
        }
    }
}

/// File statistics about the mutated lines, keyed by line number (the first
/// line is number one).
#[derive(Debug)]
pub struct FileStats {
    /// Info about mutated lines.
    pub mutated_lines: Vec<(usize, MutatedLine)>,
}

/// The line table after one update: a missing line is created on first
/// touch, an existing one gets its counters raised, and every other line is
/// untouched.
pub open spec fn spec_lines_updated(
    old_ls: Seq<(usize, MutatedLine)>,
    new_ls: Seq<(usize, MutatedLine)>,
    line: int,
    total_delta: int,
    killed_delta: int,
) -> bool {
    match spec_line_lookup(old_ls, line) {
        None => {
            &&& new_ls.len() == old_ls.len() + 1
            &&& (forall|j: int| 0 <= j < old_ls.len() ==> new_ls[j] == old_ls[j])
            &&& new_ls.last().0 == line
            &&& new_ls.last().1.total_mutants == total_delta
            &&& new_ls.last().1.killed_mutants == killed_delta
        },
        Some(li) => {
            &&& new_ls.len() == old_ls.len()
            &&& (forall|j: int| 0 <= j < old_ls.len() && j != li ==> new_ls[j] == old_ls[j])
            &&& new_ls[li].0 == old_ls[li].0
            &&& new_ls[li].1.total_mutants == old_ls[li].1.total_mutants + total_delta
            &&& new_ls[li].1.killed_mutants == old_ls[li].1.killed_mutants + killed_delta
        },
    }
}

proof fn lemma_line_lookup_props(ls: Seq<(usize, MutatedLine)>, line: int)
    ensures
        match spec_line_lookup(ls, line) {
            Some(i) => 0 <= i < ls.len() && ls[i].0 == line && (forall|j: int|
                0 <= j < i ==> (#[trigger] ls[j]).0 != line),
            None => forall|j: int| 0 <= j < ls.len() ==> (#[trigger] ls[j]).0 != line,
        },
    decreases ls,
{
    if ls.len() > 0 {
        lemma_line_lookup_props(ls.drop_first(), line);
        if ls[0].0 != line {
            match spec_line_lookup(ls.drop_first(), line) {
                Some(i) => {
                    assert forall|j: int| 0 <= j < i + 1 implies (#[trigger] ls[j]).0 != line by {
                        if j > 0 {
                            assert(ls.drop_first()[j - 1].0 != line);
                        }
                    }
                },
                None => {
                    assert forall|j: int| 0 <= j < ls.len() implies (#[trigger] ls[j]).0
                        != line by {
                        if j > 0 {
                            assert(ls.drop_first()[j - 1].0 != line);
                        }
                    }
                },
            }
        }
    }
}

impl FileStats {
    pub fn new() -> (r: FileStats)
        ensures
            r.mutated_lines@ == Seq::<(usize, MutatedLine)>::empty(),
    {
        FileStats { mutated_lines: Vec::new() }
    }

    /// Apply one counter change to a line, creating the line on first touch.
    fn bump_line(&mut self, line_number: usize, killed: bool)
        requires
            match spec_line_lookup(old(self).mutated_lines@, line_number as int) {
                Some(li) => old(self).mutated_lines@[li].1.total_mutants < u32::MAX && old(
                    self,
                ).mutated_lines@[li].1.killed_mutants < u32::MAX,
                None => true,
            },
        ensures
            spec_lines_updated(
                old(self).mutated_lines@,
                final(self).mutated_lines@,
                line_number as int,
                1,
                if killed {
                    1
                } else {
                    0
                },
            ),
    {
        proof {
            lemma_line_lookup_props(self.mutated_lines@, line_number as int);
        }
        let mut i: usize = 0;
        let n = self.mutated_lines.len();
        while i < n
            invariant
                n == self.mutated_lines@.len(),
                i <= n,
                self.mutated_lines@ == old(self).mutated_lines@,
                forall|j: int| 0 <= j < i ==> (#[trigger] self.mutated_lines@[j]).0 != line_number,
                match spec_line_lookup(old(self).mutated_lines@, line_number as int) {
                    Some(li) => old(self).mutated_lines@[li].1.total_mutants < u32::MAX && old(
                        self,
                    ).mutated_lines@[li].1.killed_mutants < u32::MAX,
                    None => true,
                },
            decreases n - i,
        {
            if self.mutated_lines[i].0 == line_number {
                proof {
                    lemma_line_lookup_props(self.mutated_lines@, line_number as int);
                    if spec_line_lookup(self.mutated_lines@, line_number as int) is None {
                        assert(false);
                    }
                }
                proof {
                    let lk = spec_line_lookup(old(self).mutated_lines@, line_number as int);
                    assert(lk is Some);
                    assert(lk->0 == i as int);
                }
                let old_ml = self.mutated_lines[i].1;
                let new_ml = MutatedLine {
                    total_mutants: old_ml.total_mutants + 1,
                    killed_mutants: if killed {
                        old_ml.killed_mutants + 1
                    } else {
                        old_ml.killed_mutants
                    },
                };
                self.mutated_lines[i] = (line_number, new_ml);
                return ;
            }
            i += 1;
        }
        proof {
            lemma_line_lookup_props(self.mutated_lines@, line_number as int);
            if spec_line_lookup(self.mutated_lines@, line_number as int) is Some {
                let li = spec_line_lookup(self.mutated_lines@, line_number as int)->0;
                assert(self.mutated_lines@[li].0 != line_number);
            }
        }
        self.mutated_lines.push(
            (
                line_number,
                MutatedLine {
                    total_mutants: 1,
                    killed_mutants: if killed {
                        1
                    } else {
                        0
                    },
                },
            ),
        );
    }

    /// Count one killed mutant on the line (it was tested too).
    pub fn increment_killed_per_line(&mut self, line_number: usize)
        requires
            match spec_line_lookup(old(self).mutated_lines@, line_number as int) {
                Some(li) => old(self).mutated_lines@[li].1.total_mutants < u32::MAX && old(
                    self,
                ).mutated_lines@[li].1.killed_mutants < u32::MAX,
                None => true,
            },
        ensures
            spec_lines_updated(
                old(self).mutated_lines@,
                final(self).mutated_lines@,
                line_number as int,
                1,
                1,
            ),
    {
        self.bump_line(line_number, true)
    }

    /// Count one tested (but not killed) mutant on the line.
    pub fn increment_total_per_line(&mut self, line_number: usize)
        requires
            match spec_line_lookup(old(self).mutated_lines@, line_number as int) {
                Some(li) => old(self).mutated_lines@[li].1.total_mutants < u32::MAX && old(
                    self,
                ).mutated_lines@[li].1.killed_mutants < u32::MAX,
                None => true,
            },
        ensures
            spec_lines_updated(
                old(self).mutated_lines@,
                final(self).mutated_lines@,
                line_number as int,
                1,
                0,
            ),
    {
        self.bump_line(line_number, false)
    }
}

/// One line of the first hunk of a parsed patch.
#[derive(Clone, Copy, Debug, PartialEq, Eq, Structural)]
pub enum DiffLine {
    /// A line present in both the old and the new file.
    Context,
    /// A line deleted from the old file.
    Deleted,
    /// A line inserted into the new file.
    Inserted,
}

/// The first hunk of a patch text: its old-file start line and the kinds of
/// its lines; the parse depends on the text alone.
pub uninterp spec fn parsed_first_hunk(s: Seq<char>) -> Option<(usize, Seq<DiffLine>)>;

/// Relies on diffy::Patch::from_str and the Hunk accessors old_range and
/// lines: parses the diff and hands out the first hunk's start line and line
/// kinds.
#[verifier::external_body]
fn parse_first_hunk(diff: &str) -> (r: Option<(usize, Vec<DiffLine>)>)
    ensures
        match parsed_first_hunk(diff@) {
            Some(h) => r matches Some(p) && p.0 == h.0 && p.1@ == h.1,
            None => r is None,
        },
{
    let patch = diffy::Patch::from_str(diff).ok()?;
    let hunk = patch.hunks().first()?;
    let kinds: Vec<DiffLine> = hunk.lines().iter().map(
        |l|
            match l {
                diffy::Line::Context(_) => DiffLine::Context,
                diffy::Line::Delete(_) => DiffLine::Deleted,
                diffy::Line::Insert(_) => DiffLine::Inserted,
            },
    ).collect();
    Some((hunk.old_range().start(), kinds))
}

/// How many context lines the hunk starts with.
pub open spec fn spec_leading_context(ls: Seq<DiffLine>) -> int
    decreases ls,
{
    if ls.len() == 0 {
        0
    } else if ls[0] is Context {
        1 + spec_leading_context(ls.drop_first())
    } else {
        0
    }
}

/// The line number a hunk points at: its start plus its leading context
/// lines (saturated at the largest representable number).
pub open spec fn spec_hunk_line(start: usize, ls: Seq<DiffLine>) -> int {
    if start + spec_leading_context(ls) <= usize::MAX {
        start + spec_leading_context(ls)
    } else {
        usize::MAX as int
    }
}

proof fn lemma_leading_context_bounds(ls: Seq<DiffLine>)
    ensures
        0 <= spec_leading_context(ls) <= ls.len(),
    decreases ls,
{
    if ls.len() > 0 && ls[0] is Context {
        lemma_leading_context_bounds(ls.drop_first());
    }
}

/// Walk to the first changed line of the hunk.
fn first_changed_line(start: usize, lines: &Vec<DiffLine>) -> (r: usize)
    ensures
        r as int == spec_hunk_line(start, lines@),
{
    let mut current: usize = start;
    let mut i: usize = 0;
    proof {
        lemma_leading_context_bounds(lines@);
        assert(lines@.skip(0) =~= lines@);
    }
    while i < lines.len() && matches!(lines[i], DiffLine::Context) && current < usize::MAX
        invariant
            i <= lines@.len(),
            current as int == if start + i <= usize::MAX {
                start + i
            } else {
                usize::MAX as int
            },
            forall|j: int| 0 <= j < i ==> (#[trigger] lines@[j]) is Context,
            spec_leading_context(lines@) == i + spec_leading_context(lines@.skip(i as int)),
        decreases lines@.len() - i,
    {
        proof {
            assert(lines@.skip(i as int)[0] == lines@[i as int]);
            assert(lines@.skip(i as int).drop_first() =~= lines@.skip(i + 1));
        }
        current = current + 1;
        i += 1;
    }
    proof {
        lemma_leading_context_bounds(lines@.skip(i as int));
        if i < lines@.len() && !(lines@[i as int] is Context) {
            assert(lines@.skip(i as int)[0] == lines@[i as int]);
            assert(spec_leading_context(lines@.skip(i as int)) == 0);
        }
        if i == lines@.len() {
            assert(lines@.skip(i as int) =~= Seq::<DiffLine>::empty());
            assert(spec_leading_context(lines@.skip(i as int)) == 0);
        }
    }
    current
}

/// The first mutated line of a recorded diff: the start of its first hunk
/// plus the hunk's leading context lines. A diff that does not parse is an
/// invalid report entry.
pub fn find_mutated_line_number(file_diff: &str) -> (r: Result<usize, String>)
    ensures
        match parsed_first_hunk(file_diff@) {
            Some(h) => r matches Ok(n) && n as int == spec_hunk_line(h.0, h.1),
            None => r matches Err(m) && m@ == "invalid diff in the report"@,
        },
{
    match parse_first_hunk(file_diff) {
        None => Err("invalid diff in the report".to_owned()),
        Some((start, lines)) => Ok(first_changed_line(start, &lines)),
    }
}


/// Every diff in the list parses to a hunk.
pub open spec fn spec_diffs_parse(ds: Seq<String>) -> bool {
    forall|i: int| 0 <= i < ds.len() ==> parsed_first_hunk((#[trigger] ds[i])@) is Some
}

/// Every recorded diff of the file's stats parses to a hunk.
pub open spec fn spec_stats_diffs_parse(ss: Seq<MutantStats>) -> bool {
    forall|i: int|
        0 <= i < ss.len() ==> spec_diffs_parse((#[trigger] ss[i]).mutants_alive_diffs@)
            && spec_diffs_parse(ss[i].mutants_killed_diff@)
}

/// How many diffs the file's stats hold in total.
pub open spec fn spec_total_diffs(ss: Seq<MutantStats>) -> int
    decreases ss,
{
    if ss.len() == 0 {
        0
    } else {
        ss[0].mutants_alive_diffs@.len() + ss[0].mutants_killed_diff@.len() + spec_total_diffs(
            ss.drop_first(),
        )
    }
}

proof fn lemma_total_diffs_split(ss: Seq<MutantStats>, i: int)
    requires
        0 <= i < ss.len(),
    ensures
        spec_total_diffs(ss) >= spec_total_diffs(ss.skip(i)) >= 0,
        spec_total_diffs(ss.skip(i)) == ss[i].mutants_alive_diffs@.len()
            + ss[i].mutants_killed_diff@.len() + spec_total_diffs(ss.skip(i + 1)),
    decreases i + 1,
{
    assert(ss.skip(i)[0] == ss[i]);
    assert(ss.skip(i).drop_first() =~= ss.skip(i + 1));
    if i == 0 {
        assert(ss.skip(0) =~= ss);
        lemma_total_diffs_nonneg(ss.skip(1));
        lemma_total_diffs_nonneg(ss);
    } else {
        lemma_total_diffs_split(ss, i - 1);
        lemma_total_diffs_nonneg(ss.skip(i + 1));
    }
}

proof fn lemma_total_diffs_nonneg(ss: Seq<MutantStats>)
    ensures
        spec_total_diffs(ss) >= 0,
    decreases ss,
{
    if ss.len() > 0 {
        lemma_total_diffs_nonneg(ss.drop_first());
    }
}

/// All line counters stay below the bound.
pub open spec fn spec_line_counts_below(ls: Seq<(usize, MutatedLine)>, bound: int) -> bool {
    forall|k: int|
        0 <= k < ls.len() ==> (#[trigger] ls[k]).1.total_mutants <= bound && ls[k].1.killed_mutants
            <= bound
}

proof fn lemma_line_update_preserves_counts(
    old_ls: Seq<(usize, MutatedLine)>,
    new_ls: Seq<(usize, MutatedLine)>,
    line: int,
    total_delta: int,
    killed_delta: int,
    bound: int,
)
    requires
        bound >= 0,
        spec_line_counts_below(old_ls, bound),
        spec_lines_updated(old_ls, new_ls, line, total_delta, killed_delta),
        0 <= total_delta <= 1,
        0 <= killed_delta <= 1,
    ensures
        spec_line_counts_below(new_ls, bound + 1),
{
    assert forall|k: int|
        0 <= k < new_ls.len() implies (#[trigger] new_ls[k]).1.total_mutants <= bound + 1
        && new_ls[k].1.killed_mutants <= bound + 1 by {
        match spec_line_lookup(old_ls, line) {
            None => {
                if k < old_ls.len() {
                    assert(new_ls[k] == old_ls[k]);
                    assert(old_ls[k].1.total_mutants <= bound);
                } else {
                    assert(new_ls[k] == new_ls.last());
                }
            },
            Some(li) => {
                if k != li {
                    assert(new_ls[k] == old_ls[k]);
                    assert(old_ls[k].1.total_mutants <= bound);
                } else {
                    assert(old_ls[k].1.total_mutants <= bound);
                    assert(old_ls[k].1.killed_mutants <= bound);
                }
            },
        }
    }
}

/// Count one file's mutants per source line: each alive diff counts one
/// tested mutant on its first changed line, each killed diff one tested and
/// one killed mutant there. A file absent from the report has no mutated
/// lines; a recorded diff that does not parse is an invalid report entry
/// and fails the whole calculation.
#[verifier::loop_isolation(false)]
pub fn calculate_file_stats(file: &str, report: &Report) -> (r: Result<FileStats, String>)
    requires
        match spec_file_lookup(report.spec_files(), file@) {
            Some(fi) => spec_total_diffs(report.spec_files()[fi].1@) < u32::MAX,
            None => true,
        },
    ensures
        match spec_file_lookup(report.spec_files(), file@) {
            None => r matches Ok(fs) && fs.mutated_lines@ == Seq::<(usize, MutatedLine)>::empty(),
            Some(fi) => (r is Ok <==> spec_stats_diffs_parse(report.spec_files()[fi].1@)) && (
            r matches Err(m) ==> m@ == "invalid diff in the report"@),
        },
{
    let mut fs = FileStats::new();
    let stats = match report.entries_for(file) {
        None => {
            return Ok(fs);
        },
        Some(s) => s,
    };
    let ghost all = stats@;
    let ghost total = spec_total_diffs(stats@);
    let mut done: usize = 0;
    let mut i: usize = 0;
    proof {
        assert(stats@.skip(0) =~= stats@);
        lemma_total_diffs_nonneg(stats@);
    }
    while i < stats.len()
        invariant
            stats@ == all,
            i <= stats@.len(),
            done <= total,
            i < stats@.len() ==> done + spec_total_diffs(stats@.skip(i as int)) >= total,
            done as int + spec_total_diffs(stats@.skip(i as int)) == total,
            spec_line_counts_below(fs.mutated_lines@, done as int),
            forall|t: int|
                0 <= t < i ==> spec_diffs_parse(
                    (#[trigger] stats@[t]).mutants_alive_diffs@,
                ) && spec_diffs_parse(stats@[t].mutants_killed_diff@),
        decreases stats@.len() - i,
    {
        proof {
            lemma_total_diffs_split(stats@, i as int);
        }
        let st = &stats[i];
        let mut j: usize = 0;
        while j < st.mutants_alive_diffs.len()
            invariant
                st == &stats@[i as int],
                i < stats@.len(),
                j <= st.mutants_alive_diffs@.len(),
                done as int + (st.mutants_alive_diffs@.len() - j)
                    + st.mutants_killed_diff@.len() + spec_total_diffs(stats@.skip(i + 1))
                    == total,
                done <= total,
                spec_line_counts_below(fs.mutated_lines@, done as int),
                forall|t: int|
                    0 <= t < j ==> parsed_first_hunk(
                        (#[trigger] st.mutants_alive_diffs@[t])@,
                    ) is Some,
            decreases st.mutants_alive_diffs@.len() - j,
        {
            let line = match find_mutated_line_number(st.mutants_alive_diffs[j].as_str()) {
                Ok(n) => n,
                Err(e) => {
                    return Err(e);
                },
            };
            let ghost pre = fs.mutated_lines@;
            proof {
                lemma_line_lookup_props(fs.mutated_lines@, line as int);
                lemma_total_diffs_nonneg(stats@.skip(i + 1));
            }
            fs.increment_total_per_line(line);
            proof {
                lemma_line_update_preserves_counts(
                    pre,
                    fs.mutated_lines@,
                    line as int,
                    1,
                    0,
                    done as int,
                );
            }
            done = done + 1;
            j += 1;
        }
        let mut j2: usize = 0;
        while j2 < st.mutants_killed_diff.len()
            invariant
                st == &stats@[i as int],
                i < stats@.len(),
                j2 <= st.mutants_killed_diff@.len(),
                done as int + (st.mutants_killed_diff@.len() - j2) + spec_total_diffs(
                    stats@.skip(i + 1),
                ) == total,
                done <= total,
                spec_line_counts_below(fs.mutated_lines@, done as int),
                spec_diffs_parse(st.mutants_alive_diffs@),
                forall|t: int|
                    0 <= t < j2 ==> parsed_first_hunk(
                        (#[trigger] st.mutants_killed_diff@[t])@,
                    ) is Some,
            decreases st.mutants_killed_diff@.len() - j2,
        {
            let line = match find_mutated_line_number(st.mutants_killed_diff[j2].as_str()) {
                Ok(n) => n,
                Err(e) => {
                    return Err(e);
                },
            };
            let ghost pre = fs.mutated_lines@;
            proof {
                lemma_line_lookup_props(fs.mutated_lines@, line as int);
                lemma_total_diffs_nonneg(stats@.skip(i + 1));
            }
            fs.increment_killed_per_line(line);
            proof {
                lemma_line_update_preserves_counts(
                    pre,
                    fs.mutated_lines@,
                    line as int,
                    1,
                    1,
                    done as int,
                );
            }
            done = done + 1;
            j2 += 1;
        }
        i += 1;
    }
    Ok(fs)
}

} // verus!

