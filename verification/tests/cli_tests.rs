use move_mutator::cli::{FunctionFilter, ModuleFilter, PackagePathCheck};

#[test]
fn cli_options_starts_empty() {
    let options = move_mutator::mutation_test::CLIOptions::default();
    assert_eq!(ModuleFilter::All, options.mutate_modules);
    assert_eq!(FunctionFilter::All, options.mutate_functions);
    assert!(options.output.is_none());
}

#[test]
fn create_mutator_options_copies_fields() {
    let options = move_mutator::mutation_test::CLIOptions {
        mutate_modules: ModuleFilter::Selected(vec!["mod1".to_string(), "mod2".to_string()]),
        mutate_functions: FunctionFilter::Selected(vec!["func1".to_string(), "func2".to_string()]),
        ..Default::default()
    };

    let mutator_options = move_mutator::mutation_test::create_mutator_options(&options, false);

    assert_eq!(mutator_options.mutate_modules, options.mutate_modules);
}

#[test]
fn cli_cli_options_starts_empty() {
    let options = move_mutator::spec_test::CLIOptions::default();
    assert!(options.move_sources.is_empty());
    assert_eq!(ModuleFilter::All, options.mutate_modules);
    assert_eq!(FunctionFilter::All, options.mutate_functions);
    assert!(options.mutator_conf.is_none());
    assert!(options.prover_conf.is_none());
    assert!(options.output.is_none());
    assert!(options.extra_prover_args.is_none());
}

#[test]
fn cli_create_mutator_options_copies_fields() {
    let mut options = move_mutator::spec_test::CLIOptions::default();
    options.move_sources.push("path/to/file".to_string());
    options.mutate_modules = ModuleFilter::Selected(vec!["mod1".to_string(), "mod2".to_string()]);
    options.mutate_functions =
        FunctionFilter::Selected(vec!["func1".to_string(), "func2".to_string()]);
    options.mutator_conf = Some("path/to/mutator/conf".to_string());

    let mutator_options = move_mutator::spec_test::create_mutator_options(&options);

    assert_eq!(mutator_options.move_sources, options.move_sources);
    assert_eq!(mutator_options.mutate_modules, options.mutate_modules);
    assert_eq!(mutator_options.mutate_functions, options.mutate_functions);
}

#[test]
fn module_filter_parses_all_and_lists() {
    assert_eq!(ModuleFilter::parse("all"), ModuleFilter::All);
    assert_eq!(
        ModuleFilter::parse("a;b,c"),
        ModuleFilter::Selected(vec!["a".to_string(), "b".to_string(), "c".to_string()])
    );
}

#[test]
fn function_filter_parses_all_and_lists() {
    assert_eq!(FunctionFilter::parse("all"), FunctionFilter::All);
    assert_eq!(
        FunctionFilter::parse("sum-and"),
        FunctionFilter::Selected(vec!["sum".to_string(), "and".to_string()])
    );
}

#[test]
fn package_path_check_rejects_conflicting_arguments() {
    let mut options = move_mutator::cli::CLIOptions::default();
    options.move_sources.push("a.move".to_string());
    assert!(options.resolve(Some("pkg".to_string())).is_err());
    let clean = move_mutator::cli::CLIOptions::default();
    assert_eq!(clean.resolve(Some("pkg".to_string())).unwrap(), "pkg");
    assert_eq!(clean.resolve(None).unwrap(), ".");
}

#[test]
fn configuration_rejects_mode_and_operators_together() {
    let mut options = move_mutator::cli::CLIOptions::default();
    options.mode = Some(move_mutator::cli::OperatorModeArg::Light);
    options.operators = Some(vec!["delete_statement".to_string()]);
    assert!(move_mutator::configuration::Configuration::new(options, None).is_err());
}

#[test]
fn configuration_defaults_to_heavy_mode() {
    let options = move_mutator::cli::CLIOptions::default();
    let conf = move_mutator::configuration::Configuration::new(options, None).unwrap();
    assert_eq!(
        conf.operator_mode,
        move_mutator::operator_filter::OperatorMode::Heavy
    );
}

#[test]
fn configuration_rejects_unknown_custom_operators() {
    let mut options = move_mutator::cli::CLIOptions::default();
    options.operators = Some(vec!["bogus".to_string()]);
    let r = move_mutator::configuration::Configuration::new(options, None);
    assert!(r.is_err());
    assert!(r.err().unwrap().contains("bogus"));
}

#[test]
fn strip_path_prefix_keeps_the_package_relative_part() {
    let p = "/tmp/outdir/original_package/sources/Sum.move";
    assert_eq!(
        move_mutator::tmp_package_dir::strip_path_prefix(p).unwrap(),
        "sources/Sum.move"
    );
    assert!(move_mutator::tmp_package_dir::strip_path_prefix("/no/such/prefix").is_err());
}

#[test]
fn configuration_rejects_an_invalid_downsampling_percentage() {
    let mut options = move_mutator::cli::CLIOptions::default();
    options.downsampling_ratio_percentage = Some(101);
    assert!(move_mutator::configuration::Configuration::new(options, None).is_err());
    let mut options = move_mutator::cli::CLIOptions::default();
    options.downsampling_ratio_percentage = Some(100);
    assert!(move_mutator::configuration::Configuration::new(options, None).is_ok());
}
