//! Options of the mutant generator, and the filters that select which
//! modules and functions are mutated.

use vstd::prelude::*;

use crate::text::{clone_strings, str_eq};

verus! {

pub const DEFAULT_OUTPUT_DIR: &'static str = "mutants_output";

/// Mutation operator mode requested on the command line.
#[derive(Debug, Clone, Copy, PartialEq, Eq, Structural)]
pub enum OperatorModeArg {
    Light,
    Medium,
    Heavy,
}

/// A separator between list entries in a filter argument.
pub open spec fn spec_is_sep(c: char) -> bool {
    c == ';' || c == '-' || c == ','
}

/// First position at or after `i` holding a separator (or the end).
pub open spec fn spec_first_sep(s: Seq<char>, i: int) -> int
    decreases s.len() - i,
{
    if i < 0 || i >= s.len() {
        if i < 0 {
            0
        } else {
            s.len() as int
        }
    } else if spec_is_sep(s[i]) {
        i
    } else {
        spec_first_sep(s, i + 1)
    }
}

/// The pieces of the text from position `i` on, split at each separator.
/// Consecutive separators yield empty pieces, as the splitting of the
/// standard library does.
pub open spec fn spec_split_from(s: Seq<char>, i: int) -> Seq<Seq<char>>
    decreases s.len() - i,
    via spec_split_from_decreases
{
    if i < 0 || i > s.len() {
        Seq::empty()
    } else {
        let k = spec_first_sep(s, i);
        if k >= s.len() {
            seq![s.subrange(i, s.len() as int)]
        } else {
            seq![s.subrange(i, k)] + spec_split_from(s, k + 1)
        }
    }
}

#[via_fn]
proof fn spec_split_from_decreases(s: Seq<char>, i: int) {
    if 0 <= i <= s.len() {
        lemma_first_sep_bounds(s, i);
    }
}

proof fn lemma_first_sep_bounds(s: Seq<char>, i: int)
    requires
        0 <= i <= s.len(),
    ensures
        i <= spec_first_sep(s, i) <= s.len(),
    decreases s.len() - i,
{
    if i < s.len() && !spec_is_sep(s[i]) {
        lemma_first_sep_bounds(s, i + 1);
    }
}

fn first_sep(s: &str, i: usize, n: usize) -> (r: usize)
    requires
        n == s@.len(),
        i <= n,
    ensures
        r == spec_first_sep(s@, i as int),
        i <= r <= n,
    decreases n - i,
{
    if i == n {
        i
    } else {
        let c = s.get_char(i);
        if c == ';' || c == '-' || c == ',' {
            i
        } else {
            first_sep(s, i + 1, n)
        }
    }
}

/// Split the text at `;`, `-` and `,` into its pieces.
pub fn split_names(s: &str) -> (r: Vec<String>)
    ensures
        r@.map_values(|p: String| p@) == spec_split_from(s@, 0),
{
    let n = s.unicode_len();
    let mut r: Vec<String> = Vec::new();
    let mut i: usize = 0;
    loop
        invariant
            n == s@.len(),
            i <= n,
            spec_split_from(s@, 0) =~= r@.map_values(|p: String| p@) + spec_split_from(
                s@,
                i as int,
            ),
            r@.map_values(|p: String| p@).len() == r@.len(),
        decreases n - i,
    {
        let k = first_sep(s, i, n);
        proof {
            lemma_first_sep_bounds(s@, i as int);
        }
        let piece = s.substring_char(i, k).to_owned();
        let ghost pre = r@;
        r.push(piece);
        proof {
            let m1 = r@.map_values(|p: String| p@);
            assert(m1.len() == r@.len());
            assert forall|j: int| 0 <= j < m1.len() implies m1[j] == (pre.map_values(
                |p: String| p@,
            ).push(s@.subrange(i as int, k as int)))[j] by {
                if j < m1.len() - 1 {
                    assert(m1[j] == pre.map_values(|p: String| p@)[j]);
                }
            }
            assert(m1 =~= pre.map_values(|p: String| p@).push(s@.subrange(i as int, k as int)));
        }
        if k == n {
            proof {
                assert(spec_split_from(s@, i as int) =~= seq![s@.subrange(i as int, n as int)]);
                assert(spec_split_from(s@, 0) =~= r@.map_values(|p: String| p@));
            }
            return r;
        }
        proof {
            assert(spec_split_from(s@, i as int) =~= seq![s@.subrange(i as int, k as int)]
                + spec_split_from(s@, k + 1));
            assert(spec_split_from(s@, 0) =~= r@.map_values(|p: String| p@) + spec_split_from(
                s@,
                k + 1,
            ));
        }
        i = k + 1;
    }
}

/// Filter allowing to select the modules to be mutated.
#[derive(Debug, PartialEq)]
pub enum ModuleFilter {
    All,
    Selected(Vec<String>),
}

impl ModuleFilter {
    /// The selected names, or `None` when every module is included.
    pub open spec fn spec_selected(self) -> Option<Seq<Seq<char>>> {
        match self {
            ModuleFilter::All => None,
            ModuleFilter::Selected(v) => Some(v@.map_values(|s: String| s@)),
        }
    }

    /// Parse a filter argument: `all` keeps every module, anything else is a
    /// separated list of module names.
    pub fn parse(s: &str) -> (r: ModuleFilter)
        ensures
            r.spec_selected() == if s@ == "all"@ {
                Option::<Seq<Seq<char>>>::None
            } else {
                Some(spec_split_from(s@, 0))
            },
    {
        if str_eq(s, "all") {
            ModuleFilter::All
        } else {
            ModuleFilter::Selected(split_names(s))
        }
    }

    /// Whether the filter admits the module name.
    pub fn admits(&self, name: &str) -> (r: bool)
        ensures
            r == match self.spec_selected() {
                None => true,
                Some(sel) => sel.contains(name@),
            },
    {
        match self {
            ModuleFilter::All => true,
            ModuleFilter::Selected(v) => contains_name(v, name),
        }
    }
}

impl Clone for ModuleFilter {
    fn clone(&self) -> (r: Self)
        ensures
            r.spec_selected() == self.spec_selected(),
    {
        match self {
            ModuleFilter::All => ModuleFilter::All,
            ModuleFilter::Selected(v) => ModuleFilter::Selected(clone_strings(v)),
        }
    }
}

impl core::str::FromStr for ModuleFilter {
    type Err = String;

    fn from_str(s: &str) -> Result<Self, Self::Err> {
        Ok(ModuleFilter::parse(s))
    }
}

/// Filter for the functions to mutate.
#[derive(Debug, PartialEq)]
pub enum FunctionFilter {
    All,
    Selected(Vec<String>),
}

impl FunctionFilter {
    /// The selected names, or `None` when every function is included.
    pub open spec fn spec_selected(self) -> Option<Seq<Seq<char>>> {
        match self {
            FunctionFilter::All => None,
            FunctionFilter::Selected(v) => Some(v@.map_values(|s: String| s@)),
        }
    }

    /// Parse a filter argument: `all` keeps every function, anything else is
    /// a separated list of function names. Functions not explicitly excluded
    /// are mutated in full when no list is given.
    pub fn parse(s: &str) -> (r: FunctionFilter)
        ensures
            r.spec_selected() == if s@ == "all"@ {
                Option::<Seq<Seq<char>>>::None
            } else {
                Some(spec_split_from(s@, 0))
            },
    {
        if str_eq(s, "all") {
            FunctionFilter::All
        } else {
            FunctionFilter::Selected(split_names(s))
        }
    }

    /// Whether the filter admits the function name.
    pub fn admits(&self, name: &str) -> (r: bool)
        ensures
            r == match self.spec_selected() {
                None => true,
                Some(sel) => sel.contains(name@),
            },
    {
        match self {
            FunctionFilter::All => true,
            FunctionFilter::Selected(v) => contains_name(v, name),
        }
    }
}

impl Clone for FunctionFilter {
    fn clone(&self) -> (r: Self)
        ensures
            r.spec_selected() == self.spec_selected(),
    {
        match self {
            FunctionFilter::All => FunctionFilter::All,
            FunctionFilter::Selected(v) => FunctionFilter::Selected(clone_strings(v)),
        }
    }
}

impl core::str::FromStr for FunctionFilter {
    type Err = String;

    fn from_str(s: &str) -> Result<Self, Self::Err> {
        Ok(FunctionFilter::parse(s))
    }
}

/// Whether one of the strings equals the name.
pub fn contains_name(v: &Vec<String>, name: &str) -> (r: bool)
    ensures
        r == v@.map_values(|s: String| s@).contains(name@),
{
    let mut i: usize = 0;
    while i < v.len()
        invariant
            i <= v.len(),
            forall|j: int| 0 <= j < i ==> (#[trigger] v@[j])@ != name@,
        decreases v.len() - i,
    {
        if str_eq(v[i].as_str(), name) {
            proof {
                assert(v@.map_values(|s: String| s@)[i as int] == name@);
            }
            return true;
        }
        proof {
            assert(v@.map_values(|s: String| s@)[i as int] == v@[i as int]@);
        }
        i += 1;
    }
    proof {
        let m = v@.map_values(|s: String| s@);
        if m.contains(name@) {
            let j = choose|j: int| 0 <= j < m.len() && #[trigger] m[j] == name@;
            assert(v@[j]@ != name@);
        }
    }
    false
}

/// Command line options for the mutant generator.
#[derive(Debug)]
pub struct CLIOptions {
    /// The paths to the Move sources.
    pub move_sources: Vec<String>,
    /// Module names to be mutated.
    pub mutate_modules: ModuleFilter,
    /// Function names to be mutated.
    pub mutate_functions: FunctionFilter,
    /// The path where to put the output files.
    pub out_mutant_dir: Option<String>,
    /// Indicates if mutants should be verified to check they can compile.
    pub verify_mutants: bool,
    /// Indicates if the output files should be overwritten.
    pub no_overwrite: bool,
    /// Remove on average the given percentage of mutants.
    pub downsampling_ratio_percentage: Option<usize>,
    /// Use the unit-test coverage report to mutate only covered code.
    pub apply_coverage: bool,
    /// Mutation operator mode: light, medium, or heavy.
    pub mode: Option<OperatorModeArg>,
    /// Custom operator selection to run mutations on.
    pub operators: Option<Vec<String>>,
}

impl Default for CLIOptions {
    /// The default options name the default output directory, every module
    /// and function included, no coverage, no downsampling, and no mode.
    fn default() -> (r: Self)
        ensures
            r.move_sources@ == Seq::<String>::empty(),
            r.mutate_modules == ModuleFilter::All,
            r.mutate_functions == FunctionFilter::All,
            r.out_mutant_dir matches Some(d) && d@ == DEFAULT_OUTPUT_DIR@,
            !r.verify_mutants,
            !r.no_overwrite,
            r.downsampling_ratio_percentage is None,
            !r.apply_coverage,
            r.mode is None,
            r.operators is None,
    {
        CLIOptions {
            move_sources: Vec::new(),
            mutate_modules: ModuleFilter::All,
            mutate_functions: FunctionFilter::All,
            out_mutant_dir: Some(DEFAULT_OUTPUT_DIR.to_owned()),
            verify_mutants: false,
            no_overwrite: false,
            downsampling_ratio_percentage: None,
            apply_coverage: false,
            mode: None,
            operators: None,
        }
    }
}

/// Checker for conflicts between a package path and explicit source paths.
pub trait PackagePathCheck {
    spec fn spec_move_sources(&self) -> Seq<String>;

    /// Gets the paths to the Move sources.
    fn get_move_sources(&self) -> (r: &Vec<String>)
        ensures
            r@ == self.spec_move_sources(),
    ;

    /// Returns the package path after checking for conflicts: explicit
    /// source paths and a package path cannot be combined.
    fn resolve(&self, package_path: Option<String>) -> (r: Result<String, String>)
        ensures
            match package_path {
                Some(p) => if self.spec_move_sources().len() > 0 {
                    r is Err
                } else {
                    r matches Ok(q) && q == p
                },
                None => r matches Ok(q) && q@ == "."@,
            },
    {
        if let Some(path) = package_path {
            if self.get_move_sources().len() > 0 {
                return Err(
                    "the '--move-sources <MOVE_SOURCES>' is not compatible with the '--package_path <PACKAGE_PATH>' argument".to_owned(),
                );
            }
            return Ok(path);
        }
        Ok(".".to_owned())
    }
}

impl PackagePathCheck for CLIOptions {
    open spec fn spec_move_sources(&self) -> Seq<String> {
        self.move_sources@
    }

    fn get_move_sources(&self) -> (r: &Vec<String>) {
        &self.move_sources
    }
}

} // verus!
