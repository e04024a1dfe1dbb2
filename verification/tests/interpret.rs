use crlox::chunk::Chunk;
use crlox::vm::{InterpretResult, VirtualMachine};

fn run(source: &str) -> (InterpretResult, VirtualMachine, Chunk) {
    let mut vm = VirtualMachine::init_virtual_machine();
    let mut chunk = Chunk::init_chunk();
    let bytes = source.as_bytes().to_vec();
    let r = vm.interpret(&bytes, &mut chunk);
    (r, vm, chunk)
}

fn output_lines(vm: &VirtualMachine) -> Vec<String> {
    vm.get_output().iter().map(|l| String::from_utf8_lossy(l).to_string()).collect()
}

#[test]
fn print_addition() {
    let (r, vm, _c) = run("print 1 + 2;");
    assert_eq!(r, InterpretResult::INTERPRET_OK);
    assert_eq!(output_lines(&vm), vec!["3"]);
}

#[test]
fn global_assignment() {
    let (r, vm, _c) = run("var a = 1; a = 2; print a;");
    assert_eq!(r, InterpretResult::INTERPRET_OK);
    assert_eq!(output_lines(&vm), vec!["2"]);
}

#[test]
fn string_concatenation() {
    let (r, vm, _c) = run("print \"a\" + \"b\";");
    assert_eq!(r, InterpretResult::INTERPRET_OK);
    assert_eq!(output_lines(&vm), vec!["ab"]);
}

#[test]
fn mixed_operand_addition_is_a_runtime_error() {
    let (r, vm, _c) = run("print 1 + \"a\";");
    assert_eq!(r, InterpretResult::INTERPRET_RUNTIME_ERROR);
    assert_eq!(vm.get_output().len(), 0);
    let fault = vm.get_fault().as_ref().expect("a fault must be recorded");
    assert_eq!(fault.get_message(), "Operands must be a number");
}

#[test]
fn multiplication_binds_tighter_than_addition() {
    let (r, vm, _c) = run("print 2 + 3 * 4;");
    assert_eq!(r, InterpretResult::INTERPRET_OK);
    assert_eq!(output_lines(&vm), vec!["14"]);
}

#[test]
fn equal_precedence_groups_left_to_right() {
    let (r, vm, _c) = run("print 2 - 3 - 4;");
    assert_eq!(r, InterpretResult::INTERPRET_OK);
    assert_eq!(output_lines(&vm), vec!["-5"]);
}

#[test]
fn unterminated_string_is_a_compile_error() {
    let (r, vm, _c) = run("\"abc");
    assert_eq!(r, InterpretResult::INTERPRET_COMPILE_ERROR);
    assert_eq!(vm.get_output().len(), 0);
    let diags = vm.get_diagnostics();
    assert!(diags.iter().any(|d| d.get_message().contains("Unterminated string")));
}

#[test]
fn redeclaring_in_the_same_block_is_a_compile_error() {
    let (r, vm, _c) = run("{ var a = 1; var a = 2; }");
    assert_eq!(r, InterpretResult::INTERPRET_COMPILE_ERROR);
    let diags = vm.get_diagnostics();
    assert!(diags.iter().any(|d| d.get_message() == "A variable with the same name already exist"));
}

#[test]
fn two_malformed_statements_give_exactly_two_errors() {
    let (r, vm, _c) = run("+ ; + ;");
    assert_eq!(r, InterpretResult::INTERPRET_COMPILE_ERROR);
    assert_eq!(vm.get_diagnostics().len(), 2);
}

#[test]
fn compiling_twice_yields_identical_units() {
    let source = "var a = 1; { var b = 2; print a + 3 * 4; } print \"x\" + \"y\";";
    let (_r1, vm1, c1) = run(source);
    let (_r2, _vm2, c2) = run(source);
    assert_eq!(c1.get_code(), c2.get_code());
    assert_eq!(c1.get_line(), c2.get_line());
    let p1 = c1.get_constants().get_values();
    let p2 = c2.get_constants().get_values();
    assert_eq!(p1.len(), p2.len());
    for i in 0..p1.len() {
        assert!(vm1.values_equal(&p1[i], &p2[i]));
    }
}

#[test]
fn nil_prints_its_canonical_form() {
    let (r, vm, _c) = run("print nil;");
    assert_eq!(r, InterpretResult::INTERPRET_OK);
    assert_eq!(output_lines(&vm), vec!["nil"]);
}

#[test]
fn booleans_and_not() {
    let (r, vm, _c) = run("print true; print false; print !true; print !nil; print !0;");
    assert_eq!(r, InterpretResult::INTERPRET_OK);
    assert_eq!(output_lines(&vm), vec!["true", "false", "false", "true", "false"]);
}

#[test]
fn unary_negation() {
    let (r, vm, _c) = run("print -5; print --5;");
    assert_eq!(r, InterpretResult::INTERPRET_OK);
    assert_eq!(output_lines(&vm), vec!["-5", "5"]);
}

#[test]
fn negating_a_string_is_a_runtime_error() {
    let (r, vm, _c) = run("print -\"a\";");
    assert_eq!(r, InterpretResult::INTERPRET_RUNTIME_ERROR);
    let fault = vm.get_fault().as_ref().expect("a fault must be recorded");
    assert_eq!(fault.get_message(), "Operand must be a number");
}

#[test]
fn equality_is_structural_and_never_crosses_kinds() {
    let (r, vm, _c) = run(
        "print 1 == 1; print 1 == 2; print \"a\" == \"a\"; print 1 == \"a\"; print nil == nil; print nil == false;",
    );
    assert_eq!(r, InterpretResult::INTERPRET_OK);
    assert_eq!(output_lines(&vm), vec!["true", "false", "true", "false", "true", "false"]);
}

#[test]
fn comparisons_and_their_desugarings() {
    let (r, vm, _c) = run(
        "print 2 < 3; print 2 > 3; print 3 >= 3; print 4 <= 3; print 1 != 2; print 1 != 1;",
    );
    assert_eq!(r, InterpretResult::INTERPRET_OK);
    assert_eq!(output_lines(&vm), vec!["true", "false", "true", "false", "true", "false"]);
}

#[test]
fn ordering_strings_is_a_runtime_error() {
    let (r, vm, _c) = run("print \"a\" < \"b\";");
    assert_eq!(r, InterpretResult::INTERPRET_RUNTIME_ERROR);
    let fault = vm.get_fault().as_ref().expect("a fault must be recorded");
    assert_eq!(fault.get_message(), "Operands must be a number");
}

#[test]
fn division_truncates() {
    let (r, vm, _c) = run("print 10 / 4; print -10 / 4; print 7 / 7;");
    assert_eq!(r, InterpretResult::INTERPRET_OK);
    assert_eq!(output_lines(&vm), vec!["2", "-2", "1"]);
}

#[test]
fn division_by_zero_is_a_runtime_error() {
    let (r, vm, _c) = run("print 1 / 0;");
    assert_eq!(r, InterpretResult::INTERPRET_RUNTIME_ERROR);
    let fault = vm.get_fault().as_ref().expect("a fault must be recorded");
    assert_eq!(fault.get_message(), "Division by zero");
}

#[test]
fn reading_an_undefined_global_is_a_runtime_error() {
    let (r, vm, _c) = run("print missing;");
    assert_eq!(r, InterpretResult::INTERPRET_RUNTIME_ERROR);
    let fault = vm.get_fault().as_ref().expect("a fault must be recorded");
    assert_eq!(fault.get_message(), "Undefined Variable");
    assert_eq!(fault.get_detail(), &b"missing".to_vec());
}

#[test]
fn assigning_an_undefined_global_is_a_runtime_error() {
    let (r, vm, _c) = run("missing = 1;");
    assert_eq!(r, InterpretResult::INTERPRET_RUNTIME_ERROR);
    let fault = vm.get_fault().as_ref().expect("a fault must be recorded");
    assert_eq!(fault.get_message(), "Undefined Variable");
}

#[test]
fn grouping_overrides_precedence() {
    let (r, vm, _c) = run("print (1 + 2) * 3;");
    assert_eq!(r, InterpretResult::INTERPRET_OK);
    assert_eq!(output_lines(&vm), vec!["9"]);
}

#[test]
fn unexpected_character_is_reported() {
    let (r, vm, _c) = run("print 1 @ 2;");
    assert_eq!(r, InterpretResult::INTERPRET_COMPILE_ERROR);
    assert!(vm.get_diagnostics().iter().any(|d| d.get_message() == "Unexpected Character"));
}

#[test]
fn invalid_assignment_target() {
    let (r, vm, _c) = run("1 = 2;");
    assert_eq!(r, InterpretResult::INTERPRET_COMPILE_ERROR);
    assert!(vm.get_diagnostics().iter().any(|d| d.get_message() == "invalid assignment target"));
}

#[test]
fn brace_cannot_begin_an_expression() {
    let (r, vm, _c) = run("print { 1 };");
    assert_eq!(r, InterpretResult::INTERPRET_COMPILE_ERROR);
    assert!(vm.get_diagnostics().iter().any(|d| d.get_message() == "Expect expression"));
}

#[test]
fn line_comments_are_skipped() {
    let (r, vm, _c) = run("// nothing here\nprint 1; // trailing\n");
    assert_eq!(r, InterpretResult::INTERPRET_OK);
    assert_eq!(output_lines(&vm), vec!["1"]);
}

#[test]
fn several_globals_combine() {
    let (r, vm, _c) = run("var a = 1; var b = 2; print a + b;");
    assert_eq!(r, InterpretResult::INTERPRET_OK);
    assert_eq!(output_lines(&vm), vec!["3"]);
}

#[test]
fn var_without_initializer_is_nil() {
    let (r, vm, _c) = run("var a; print a;");
    assert_eq!(r, InterpretResult::INTERPRET_OK);
    assert_eq!(output_lines(&vm), vec!["nil"]);
}

#[test]
fn locals_are_tracked_but_resolve_as_globals() {
    // Local slots are recorded during scope analysis, but slot-addressed
    // instructions are not emitted at this stage: reads inside a block still
    // go through the global table, so a block-local name is undefined there.
    let (r, vm, _c) = run("{ var a = 1; print a; }");
    assert_eq!(r, InterpretResult::INTERPRET_RUNTIME_ERROR);
    let fault = vm.get_fault().as_ref().expect("a fault must be recorded");
    assert_eq!(fault.get_message(), "Undefined Variable");
    assert_eq!(fault.get_detail(), &b"a".to_vec());
}

#[test]
fn fractional_literal_is_rejected() {
    let (r, vm, _c) = run("print 1.5;");
    assert_eq!(r, InterpretResult::INTERPRET_COMPILE_ERROR);
    assert!(vm.get_diagnostics().iter().any(|d| d.get_message() == "Invalid number literal"));
}

#[test]
fn largest_literal_fits_and_larger_does_not() {
    let (r, vm, _c) = run("print 9223372036854775807;");
    assert_eq!(r, InterpretResult::INTERPRET_OK);
    assert_eq!(output_lines(&vm), vec!["9223372036854775807"]);
    let (r2, vm2, _c2) = run("print 9223372036854775808;");
    assert_eq!(r2, InterpretResult::INTERPRET_COMPILE_ERROR);
    assert!(vm2.get_diagnostics().iter().any(|d| d.get_message() == "Invalid number literal"));
}

#[test]
fn addition_wraps_at_the_numeric_bound() {
    let (r, vm, _c) = run("print 9223372036854775807 + 1;");
    assert_eq!(r, InterpretResult::INTERPRET_OK);
    assert_eq!(output_lines(&vm), vec!["-9223372036854775808"]);
}

#[test]
fn too_many_constants_in_one_unit() {
    let mut source = String::from("print 0");
    for i in 1..=256 {
        source.push_str(&format!(" + {}", i));
    }
    source.push(';');
    let (r, vm, _c) = run(&source);
    assert_eq!(r, InterpretResult::INTERPRET_COMPILE_ERROR);
    assert!(vm.get_diagnostics().iter().any(|d| d.get_message() == "Too many constant in chunk"));
}

#[test]
fn too_many_locals_in_one_block() {
    let mut source = String::from("{ ");
    for i in 0..257 {
        source.push_str(&format!("var a{}; ", i));
    }
    source.push('}');
    let (r, vm, _c) = run(&source);
    assert_eq!(r, InterpretResult::INTERPRET_COMPILE_ERROR);
    assert!(vm.get_diagnostics().iter().any(|d| d.get_message() == "too many local variable"));
}

#[test]
fn missing_semicolon_is_reported_with_the_lexeme() {
    let (r, vm, _c) = run("print 1");
    assert_eq!(r, InterpretResult::INTERPRET_COMPILE_ERROR);
    let diags = vm.get_diagnostics();
    assert_eq!(diags.len(), 1);
    assert_eq!(diags[0].get_message(), "Expect ';' at the end of expression.");
}

#[test]
fn empty_source_compiles_and_runs() {
    let (r, vm, _c) = run("");
    assert_eq!(r, InterpretResult::INTERPRET_OK);
    assert_eq!(vm.get_output().len(), 0);
    assert!(vm.get_diagnostics().is_empty());
}

#[test]
fn errors_keep_the_unit_from_running() {
    let (r, vm, _c) = run("print \"side effect\"; var = 1;");
    assert_eq!(r, InterpretResult::INTERPRET_COMPILE_ERROR);
    assert_eq!(vm.get_output().len(), 0);
}

#[test]
fn string_with_newline_keeps_it() {
    let (r, vm, _c) = run("print \"a\nb\";");
    assert_eq!(r, InterpretResult::INTERPRET_OK);
    assert_eq!(output_lines(&vm), vec!["a\nb"]);
}

#[test]
fn error_lines_are_reported() {
    let (r, vm, _c) = run("print 1;\nprint \"x\" +;\n");
    assert_eq!(r, InterpretResult::INTERPRET_COMPILE_ERROR);
    let diags = vm.get_diagnostics();
    assert_eq!(diags.len(), 1);
    assert_eq!(diags[0].get_line(), 2);
}
