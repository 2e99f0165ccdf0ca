//! Options of the specification-test tool, which pairs the mutant generator
//! with a prover as the oracle.

use vstd::prelude::*;

use crate::cli::{FunctionFilter, ModuleFilter, PackagePathCheck};
use crate::text::clone_strings;

verus! {

/// Command line options for the specification test tool.
#[derive(Debug)]
pub struct CLIOptions {
    /// The paths to the Move sources.
    pub move_sources: Vec<String>,
    /// Work only over the specified modules.
    pub mutate_modules: ModuleFilter,
    /// Work only over the specified functions.
    pub mutate_functions: FunctionFilter,
    /// Optional configuration file for the mutant generator.
    pub mutator_conf: Option<String>,
    /// Optional configuration file for the prover.
    pub prover_conf: Option<String>,
    /// Save the report to a file.
    pub output: Option<String>,
    /// Use previously generated mutants.
    pub use_generated_mutants: Option<String>,
    /// Indicates if mutants should be verified to check they can compile.
    pub verify_mutants: bool,
    /// Extra arguments to pass to the prover.
    pub extra_prover_args: Option<Vec<String>>,
    /// Remove on average the given percentage of mutants.
    pub downsampling_ratio_percentage: Option<usize>,
}

impl Default for CLIOptions {
    /// By default every module and function is mutated and nothing else is
    /// configured.
    fn default() -> (r: Self)
        ensures
            r.move_sources@ == Seq::<String>::empty(),
            r.mutate_modules == ModuleFilter::All,
            r.mutate_functions == FunctionFilter::All,
            r.mutator_conf is None,
            r.prover_conf is None,
            r.output is None,
            r.use_generated_mutants is None,
            !r.verify_mutants,
            r.extra_prover_args is None,
            r.downsampling_ratio_percentage is None,
    {
        CLIOptions {
            move_sources: Vec::new(),
            mutate_modules: ModuleFilter::All,
            mutate_functions: FunctionFilter::All,
            mutator_conf: None,
            prover_conf: None,
            output: None,
            use_generated_mutants: None,
            verify_mutants: false,
            extra_prover_args: None,
            downsampling_ratio_percentage: None,
        }
    }
}

impl PackagePathCheck for CLIOptions {
    open spec fn spec_move_sources(&self) -> Seq<String> {
        self.move_sources@
    }

    fn get_move_sources(&self) -> (r: &Vec<String>) {
        &self.move_sources
    }
}

/// This function creates mutant-generator options from the given spec-test
/// options, copying the shared fields.
pub fn create_mutator_options(options: &CLIOptions) -> (r: crate::cli::CLIOptions)
    ensures
        r.move_sources@ == options.move_sources@,
        r.mutate_modules.spec_selected() == options.mutate_modules.spec_selected(),
        r.mutate_functions.spec_selected() == options.mutate_functions.spec_selected(),
        r.verify_mutants == options.verify_mutants,
        r.downsampling_ratio_percentage == options.downsampling_ratio_percentage,
        r.mode is None,
        r.operators is None,
{
    let mut mutator: crate::cli::CLIOptions = Default::default();
    mutator.move_sources = clone_strings(&options.move_sources);
    mutator.mutate_modules = options.mutate_modules.clone();
    mutator.mutate_functions = options.mutate_functions.clone();
    mutator.verify_mutants = options.verify_mutants;
    mutator.downsampling_ratio_percentage = options.downsampling_ratio_percentage;
    mutator
}

} // verus!
