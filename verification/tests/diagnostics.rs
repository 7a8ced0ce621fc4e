use acir_lowering::field::FieldElement;
use acir_lowering::fuzz::Abi;
use acir_lowering::fuzz::InputMap;
use acir_lowering::fuzz::AbiParameter;
use acir_lowering::fuzz::AbiType;
use acir_lowering::fuzz::InputValue;
use acir_lowering::fuzz::TestOptions;
use acir_lowering::fuzz::fuzz_param;
use acir_lowering::fuzz::fuzz_params;
use acir_lowering::reporter::CustomDiagnostic;
use acir_lowering::reporter::DiagnosticKind;
use acir_lowering::reporter::FileDiagnostic;
use acir_lowering::reporter::FileId;
use acir_lowering::reporter::Severity;
use acir_lowering::reporter::Span;
use acir_lowering::reporter::convert_diagnostic;
use acir_lowering::reporter::counts_as_error;
use acir_lowering::reporter::report_all_count;
use acir_lowering::runner::FuzzNext;
use acir_lowering::runner::SolveOutcome;
use acir_lowering::runner::TestMode;
use acir_lowering::runner::TestRunOutcome;
use acir_lowering::runner::choose_test_mode;
use acir_lowering::runner::classify_solve;
use acir_lowering::runner::fuzz_next;
use acir_lowering::runner::summarize_test_run;
use acir_lowering::runner::test_name_matches;

#[test]
fn from_message_is_a_bare_error() {
    let d = CustomDiagnostic::from_message("boom");
    assert_eq!(d.message, "boom");
    assert!(d.secondaries.is_empty());
    assert!(d.notes.is_empty());
    assert!(d.is_error());
}

#[test]
fn simple_error_and_warning_carry_one_label() {
    let e = CustomDiagnostic::simple_error(
        "bad".to_string(),
        "here".to_string(),
        Span::new(3, 7),
    );
    assert_eq!(e.kind, DiagnosticKind::Error);
    assert_eq!(e.secondaries.len(), 1);
    assert_eq!(e.secondaries[0].span, Span::new(3, 7));
    assert!(e.is_error());

    let w = CustomDiagnostic::simple_warning(
        "odd".to_string(),
        "there".to_string(),
        Span::new(1, 2),
    );
    assert_eq!(w.kind, DiagnosticKind::Warning);
    assert!(!w.is_error());
}

#[test]
fn notes_and_secondaries_accumulate() {
    let mut d = CustomDiagnostic::from_message("base");
    d.add_note("first note".to_string());
    d.add_note("second note".to_string());
    d.add_secondary("label".to_string(), Span::new(0, 4));
    assert_eq!(d.notes.len(), 2);
    assert_eq!(d.notes[1], "second note");
    assert_eq!(d.secondaries.len(), 1);
    assert_eq!(d.secondaries[0].message, "label");
}

#[test]
fn in_file_locates_the_diagnostic() {
    let d = CustomDiagnostic::from_message("lost");
    let fd = d.clone().in_file(FileId { index: 4 });
    assert_eq!(fd.file_id, FileId { index: 4 });
    assert_eq!(fd.diagnostic, d);
}

#[test]
fn convert_diagnostic_resolves_severity_and_ranges() {
    let mut w = CustomDiagnostic::simple_warning(
        "odd".to_string(),
        "there".to_string(),
        Span::new(5, 9),
    );
    w.add_note("a note".to_string());
    let rendered = convert_diagnostic(&w, Some(FileId { index: 2 }), false);
    assert_eq!(rendered.severity, Severity::Warning);
    assert_eq!(rendered.labels.len(), 1);
    assert_eq!(rendered.labels[0].file, 2);
    // The label's range is the span widened by one at the end.
    assert_eq!(rendered.labels[0].range_start, 5);
    assert_eq!(rendered.labels[0].range_end, 10);
    assert_eq!(rendered.notes, vec!["a note".to_string()]);

    // Denying warnings hardens the severity.
    let denied = convert_diagnostic(&w, Some(FileId { index: 2 }), true);
    assert_eq!(denied.severity, Severity::Error);

    // Without a file there are no labels.
    let fileless = convert_diagnostic(&w, None, false);
    assert!(fileless.labels.is_empty());
}

#[test]
fn error_counting_respects_deny_warnings() {
    let err = CustomDiagnostic::from_message("e").in_file(FileId { index: 0 });
    let warn = CustomDiagnostic::simple_warning(
        "w".to_string(),
        "s".to_string(),
        Span::new(0, 1),
    )
    .in_file(FileId { index: 0 });
    let diagnostics: Vec<FileDiagnostic> = vec![err, warn];

    assert!(counts_as_error(&diagnostics[0].diagnostic, false));
    assert!(!counts_as_error(&diagnostics[1].diagnostic, false));
    assert!(counts_as_error(&diagnostics[1].diagnostic, true));

    assert_eq!(report_all_count(&diagnostics, false).error_count, 1);
    assert_eq!(report_all_count(&diagnostics, true).error_count, 2);
}

#[test]
fn test_options_store_the_run_count() {
    assert_eq!(TestOptions::new(10).fuzz_runs, 10);
}

#[test]
fn fuzz_param_yields_a_field_value() {
    let InputValue::Field(_) = fuzz_param(&AbiType::Field);
}

#[test]
fn fuzz_params_covers_every_parameter_in_order() {
    let abi = Abi {
        parameters: vec![
            AbiParameter { name: "alpha".to_string(), typ: AbiType::Field },
            AbiParameter { name: "beta".to_string(), typ: AbiType::Field },
        ],
    };
    let map = fuzz_params(&abi);
    assert_eq!(map.entries.len(), 2);
    assert_eq!(map.entries[0].0, "alpha");
    assert_eq!(map.entries[1].0, "beta");
}

#[test]
fn name_filter_is_containment() {
    assert!(test_name_matches("test_addition", "add"));
    assert!(test_name_matches("test_addition", ""));
    assert!(test_name_matches("abc", "abc"));
    assert!(!test_name_matches("test_addition", "mul"));
    assert!(!test_name_matches("ab", "abc"));
}

#[test]
fn test_mode_depends_on_parameters() {
    let with_params = Abi {
        parameters: vec![AbiParameter { name: "x".to_string(), typ: AbiType::Field }],
    };
    let without = Abi { parameters: Vec::new() };
    assert_eq!(choose_test_mode(&with_params), TestMode::Fuzz);
    assert_eq!(choose_test_mode(&without), TestMode::Normal);
}

#[test]
fn solver_outcomes_classified() {
    assert_eq!(classify_solve(true, 0, 0, 0), SolveOutcome::Failed);
    assert_eq!(classify_solve(false, 0, 0, 0), SolveOutcome::Solved);
    assert_eq!(classify_solve(false, 1, 0, 0), SolveOutcome::UnsupportedPartial);
    assert_eq!(classify_solve(false, 0, 0, 2), SolveOutcome::UnsupportedPartial);
}

#[test]
fn fuzz_loop_stops_at_first_failure_or_when_done() {
    assert_eq!(fuzz_next(0, 10, false), FuzzNext::RunAnother);
    assert_eq!(fuzz_next(9, 10, false), FuzzNext::RunAnother);
    assert_eq!(fuzz_next(10, 10, false), FuzzNext::AllPassed);
    assert_eq!(fuzz_next(3, 10, true), FuzzNext::ReportFailure);
}

#[test]
fn test_run_summary_counts_failures() {
    assert_eq!(summarize_test_run(0), TestRunOutcome::AllPassed);
    assert_eq!(summarize_test_run(2), TestRunOutcome::Failed { failing: 2 });
}

#[test]
fn render_lines_mirror_the_display_form() {
    let mut d = CustomDiagnostic::simple_error(
        "primary".to_string(),
        "label".to_string(),
        Span::new(0, 3),
    );
    d.add_note("hint".to_string());
    let lines = d.render_lines();
    assert_eq!(
        lines,
        vec![
            "primary".to_string(),
            "secondary: label".to_string(),
            "note: hint".to_string(),
        ]
    );
}

#[test]
fn duplicate_parameter_name_keeps_one_entry() {
    let abi = Abi {
        parameters: vec![
            AbiParameter { name: "x".to_string(), typ: AbiType::Field },
            AbiParameter { name: "y".to_string(), typ: AbiType::Field },
            AbiParameter { name: "x".to_string(), typ: AbiType::Field },
        ],
    };
    let map = fuzz_params(&abi);
    assert_eq!(map.entries.len(), 2);
    assert_eq!(map.entries[0].0, "x");
    assert_eq!(map.entries[1].0, "y");
}

#[test]
fn input_map_insert_overwrites_existing_name() {
    let mut map = InputMap::new();
    map.insert("a".to_string(), InputValue::Field(FieldElement::from_u64(1)));
    map.insert("b".to_string(), InputValue::Field(FieldElement::from_u64(2)));
    map.insert("a".to_string(), InputValue::Field(FieldElement::from_u64(3)));
    assert_eq!(map.entries.len(), 2);
    assert_eq!(map.entries[0].0, "a");
    assert_eq!(map.entries[0].1, InputValue::Field(FieldElement::from_u64(3)));
    assert_eq!(map.entries[1].1, InputValue::Field(FieldElement::from_u64(2)));
}
