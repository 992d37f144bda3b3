use storyteller::compiler::compile_source;
use storyteller::ir::Variable;
use storyteller::ir_to_c::{convert_ir_to_c, get_c_for_input_insruction, get_c_for_print_string_instruction, ir_variable_to_c_variable};

#[test]
fn c_program_has_labels_variables_and_jumps() {
    let c = compile_source("Big bob was 1.\n\nBig bob went to big bob. If big bob is a, then go to ab.");
    assert!(c.errors.is_empty());
    let code = convert_ir_to_c(&c.instructions, &c.variables);
    assert!(code.starts_with("#include <stdio.h>\n#include <stdlib.h>\n#include <string.h>\n#define GOTO_VAR(var) \\\ndo { \\\nif (var == 0) goto label_0;\\\nelse if (var == 1) goto label_1;\\\n} while (0)\n"));
    assert!(code.contains("int main() {\nchar *input = NULL;\nchar *output = NULL;\nint bufferSize = NULL;\nlong long int var_big_bob = 0;\nlabel_0:\nvar_big_bob = 1;\nlabel_1:\nGOTO_VAR(var_big_bob);\nif (var_big_bob == 1) {\ngoto label_2;}\n}"));
    assert!(code.ends_with("}"));
}

#[test]
fn c_for_input_and_text_output() {
    let v = Variable("the cat".to_string());
    assert_eq!(ir_variable_to_c_variable(&v), "var_the_cat");
    let input = get_c_for_input_insruction(&v);
    assert!(input.starts_with("bufferSize = 100; \n"));
    assert!(input.ends_with("var_the_cat = string_to_number(input); \nfree(input);\n"));
    let output = get_c_for_print_string_instruction(&v);
    assert!(output.contains("number_to_string(var_the_cat, output); \n"));
}

#[test]
fn instructions_as_text() {
    let c = compile_source("Bob was ab.\n\nIf bob is greater than a, then bob goes to a b. Taylor looked up to the skies beyond, waiting for an answer.");
    let lines: Vec<String> = c.instructions.iter().map(|i| i.to_text()).collect();
    assert_eq!(
        lines,
        vec![
            "label 0:".to_string(),
            "bob = 2".to_string(),
            "label 1:".to_string(),
            "if bob > 1 goto 11".to_string(),
            "input taylor".to_string(),
        ]
    );
}

#[test]
fn error_constructors() {
    assert_eq!(storyteller::errors::file_not_found_error().error_type(), "Plot Not Found Error");
    assert_eq!(storyteller::errors::illegal_argument_error().error_type(), "Enigmatic Whispers Error");
    assert_eq!(storyteller::errors::input_error().error_type(), "Unruly Spectator Error");
    assert_eq!(storyteller::errors::output_error().error_type(), "Vanishing Ink Error");
    assert_eq!(storyteller::errors::label_not_found().error_type(), "Place Not Found Error");
    assert_eq!(storyteller::errors::unfinished_thought_error().error_type(), "Unfinished Thought Error");
    assert!(storyteller::errors::pronoun_no_antecedent_error().error_message().starts_with("Oh, the tragedy"));
}
