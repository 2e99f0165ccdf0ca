//! Mutator configuration for a Move project.

use vstd::prelude::*;

use crate::cli::{CLIOptions, OperatorModeArg};
use crate::coverage::Coverage;
use crate::operator_filter::OperatorMode;
use crate::span::Span;

verus! {

/// The configuration of one run: the project options, the project path, the
/// coverage index, and the operator mode. It is immutable during selection
/// and passed by reference; no global state is involved.
#[derive(Debug)]
pub struct Configuration {
    /// Main project options. It's the same as the CLI options.
    pub project: CLIOptions,
    /// Path to the project.
    pub project_path: Option<String>,
    /// Coverage index where the optional unit-test coverage data is stored.
    pub coverage: Coverage,
    /// Operator filter that determines which mutation operators are enabled.
    pub operator_mode: OperatorMode,
}

/// The mode that the options request, when they are consistent: a custom
/// operator list, a named tier, or the default. Naming both a tier and a
/// custom list is a configuration error.
pub open spec fn spec_requested_mode(project: CLIOptions) -> Option<OperatorMode> {
    match (project.mode, project.operators) {
        (Option::None, Option::Some(_)) => None,  // parsed from the custom names
        (Option::Some(arg), Option::None) => Some(
            match arg {
                OperatorModeArg::Light => OperatorMode::Light,
                OperatorModeArg::Medium => OperatorMode::Medium,
                OperatorModeArg::Heavy => OperatorMode::Heavy,
            },
        ),
        (Option::None, Option::None) => Some(OperatorMode::Heavy),
        (Option::Some(_), Option::Some(_)) => None,
    }
}

impl Configuration {
    /// Parse and validate the operator mode from the CLI options: exactly one
    /// of a named tier or a custom operator list may be configured, custom
    /// names must all be valid, and with neither given Heavy is the default.
    pub fn parse_operator_mode(project: &CLIOptions) -> (r: Result<OperatorMode, String>)
        ensures
            project.mode is Some && project.operators is Some ==> r is Err,
            project.mode is None && project.operators is None ==> r == Ok::<_, String>(
                OperatorMode::Heavy,
            ),
            project.mode is Some && project.operators is None ==> r == Ok::<_, String>(
                spec_requested_mode(*project)->0,
            ),
            (project.mode is None && project.operators is Some) ==> {
                let ops = project.operators->0;
                &&& (r is Ok <==> OperatorMode::spec_invalid_names(
                    ops@.map_values(|s: String| s@),
                ).len() == 0)
                &&& (r matches Ok(m) ==> m matches OperatorMode::Custom(v) && v@.len() == ops@.len()
                    && (forall|i: int|
                    0 <= i < v@.len() ==> (#[trigger] v@[i]).spec_name() == ops@[i]@))
            },
    {
        match (&project.mode, &project.operators) {
            (Option::None, Option::Some(operators)) => {
                match OperatorMode::parse_operators(operators) {
                    Ok(parsed) => Ok(OperatorMode::Custom(parsed)),
                    Err(m) => Err(m),
                }
            },
            (Option::Some(mode_arg), Option::None) => {
                let mode = match mode_arg {
                    OperatorModeArg::Light => OperatorMode::Light,
                    OperatorModeArg::Medium => OperatorMode::Medium,
                    OperatorModeArg::Heavy => OperatorMode::Heavy,
                };
                Ok(mode)
            },
            (Option::None, Option::None) => Ok(OperatorMode::Heavy),
            (Option::Some(_), Option::Some(_)) => Err(
                "exactly one of an operator mode and a custom operator list may be given".to_owned(),
            ),
        }
    }

    /// Creates a new configuration using command line options. Coverage is
    /// empty until computed. Configuration errors — a conflicting mode
    /// selection, an unknown custom operator, an invalid downsampling
    /// percentage — are rejected here, before any work starts.
    pub fn new(project: CLIOptions, project_path: Option<String>) -> (r: Result<
        Configuration,
        String,
    >)
        ensures
            r is Ok <==> !(project.mode is Some && project.operators is Some) && (
            project.operators matches Some(ops) ==> OperatorMode::spec_invalid_names(
                ops@.map_values(|s: String| s@),
            ).len() == 0) && (project.downsampling_ratio_percentage matches Some(p) ==> p <= 100),
            r matches Ok(c) ==> c.project == project && c.project_path == project_path
                && c.coverage.spec_entries() == Seq::<(String, Vec<Span>)>::empty(),
    {
        if let Some(p) = project.downsampling_ratio_percentage {
            if p > 100 {
                return Err(
                    "the downsampling percentage must be between zero and one hundred".to_owned(),
                );
            }
        }
        let operator_mode = match Self::parse_operator_mode(&project) {
            Ok(m) => m,
            Err(e) => {
                return Err(e);
            },
        };
        Ok(
            Configuration {
                project,
                project_path,
                coverage: Coverage::new(),
                operator_mode,
            },
        )
    }
}

impl Default for Configuration {
    /// The default configuration: default options, no project path, empty
    /// coverage, and the default (Heavy) operator mode.
    fn default() -> (r: Self)
        ensures
            r.project_path is None,
            r.coverage.spec_entries() == Seq::<(String, Vec<Span>)>::empty(),
            r.operator_mode == OperatorMode::Heavy,
    {
        Configuration {
            project: Default::default(),
            project_path: None,
            coverage: Coverage::new(),
            operator_mode: OperatorMode::Heavy,
        }
    }
}

} // verus!
