use storyteller::ast::{Block, Condition, Program, Statement, Variable, VariableOrNumberLiteral};
use storyteller::keyword_defs::defs;
use storyteller::lexer::lexer;
use storyteller::parser::parse_program;
use storyteller::preprocessor::preprocess;

fn parse_program_string(program_string: &str) -> Program {
    let tokens = preprocess(lexer(program_string));
    match parse_program(tokens, &defs()) {
        Ok(ast) => ast,
        Err(_) => panic!("Parse program failed"),
    }
}

#[test]
fn mod_parser_correctly_parses_assignment_statement_with_was() {
    let program = "Charlie was a wizard.";
    let ast = parse_program_string(program);

    assert_eq!(ast, Program(vec![Block(vec![
            Statement::AssignmentStatement(Variable("charlie".to_string()), VariableOrNumberLiteral("a wizard".to_string())),
        ])]));
}

#[test]
fn mod_parser_correctly_parses_assignment_statement_with_were() {
    let program = "The dog and the cat were great company.";
    let ast = parse_program_string(program);

    assert_eq!(ast, Program(vec![Block(vec![
            Statement::AssignmentStatement(Variable("dog and cat".to_string()), VariableOrNumberLiteral("great company".to_string())),
        ])]));
}

#[test]
fn mod_parser_correctly_parses_assignment_statement_with_is() {
    let program = "Ron is here.";
    let ast = parse_program_string(program);

    assert_eq!(ast, Program(vec![Block(vec![
            Statement::AssignmentStatement(Variable("ron".to_string()), VariableOrNumberLiteral("here".to_string())),
        ])]));
}

#[test]
fn mod_parser_correctly_parses_assignment_statement_with_are() {
    let program = "Percy and Annabeth are here.";
    let ast = parse_program_string(program);

    assert_eq!(ast, Program(vec![Block(vec![
            Statement::AssignmentStatement(Variable("percy and annabeth".to_string()), VariableOrNumberLiteral("here".to_string())),
        ])]));
}

#[test]
fn mod_parser_correctly_parses_add_statement() {
    let program = "Percy felt as good as a friend.";
    let ast = parse_program_string(program);

    assert_eq!(ast, Program(vec![Block(vec![
            Statement::AddStatement(Variable("percy".to_string()), VariableOrNumberLiteral("a friend".to_string())),
        ])]));
}

#[test]
fn mod_parser_correctly_parses_sub_statement() {
    let program = "Macbeth felt as bad as rain.";
    let ast = parse_program_string(program);

    assert_eq!(ast, Program(vec![Block(vec![
            Statement::SubStatement(Variable("macbeth".to_string()), VariableOrNumberLiteral("rain".to_string())),
        ])]));
}

#[test]
fn mod_parser_correctly_parses_print_number_statement() {
    let program = "\"I am a wizard\" Charlie said.";
    let ast = parse_program_string(program);

    assert_eq!(ast, Program(vec![Block(vec![
            Statement::PrintNumberStatement(Variable("charlie".to_string())),
        ])]));
}

#[test]
fn mod_parser_correctly_parses_print_character_statement() {
    let program = "\"I am a wizard\" Charlie said slyly.";
    let ast = parse_program_string(program);

    assert_eq!(ast, Program(vec![Block(vec![
            Statement::PrintStringStatement(Variable("charlie".to_string())),
        ])]));
}

#[test]
fn mod_parser_correctly_parses_statements_that_end_in_exclamation_marks() {
    let program = "Bob was running! Katniss was tired. John was swimming!";
    let ast = parse_program_string(program);

    assert_eq!(ast, Program(vec![Block(vec![
            Statement::AssignmentStatement(Variable("bob".to_string()), VariableOrNumberLiteral("running".to_string())),
            Statement::AssignmentStatement(Variable("katniss".to_string()), VariableOrNumberLiteral("tired".to_string())),
            Statement::AssignmentStatement(Variable("john".to_string()), VariableOrNumberLiteral("swimming".to_string())),
        ])]));
}

#[test]
fn mod_parser_correctly_parses_statements_that_end_in_question_marks() {
    let program = "Bob was running? Katniss was tired. John was swimming?";
    let ast = parse_program_string(program);

    assert_eq!(ast, Program(vec![Block(vec![
            Statement::AssignmentStatement(Variable("bob".to_string()), VariableOrNumberLiteral("running".to_string())),
            Statement::AssignmentStatement(Variable("katniss".to_string()), VariableOrNumberLiteral("tired".to_string())),
            Statement::AssignmentStatement(Variable("john".to_string()), VariableOrNumberLiteral("swimming".to_string())),
        ])]));
}

#[test]
fn mod_parser_correctly_parses_input_statements() {
    let program = "Taylor looked up to the skies beyond, waiting for an answer.";
    let ast = parse_program_string(program);

    assert_eq!(ast, Program(vec![Block(vec![
            Statement::InputStatement(Variable("taylor".to_string())),
        ])]));
}

#[test]
fn mod_parser_correctly_parses_exit_statements() {
    let program = "I hoped with all my heart that all this misery comes to an end.";
    let ast = parse_program_string(program);

    assert_eq!(ast, Program(vec![Block(vec![
            Statement::ExitStatement,
        ])]));
}

#[test]
fn mod_parser_correctly_parses_goto_statement() {
    let program = "Cindrella wished she could go to heaven.";
    let ast = parse_program_string(program);

    assert_eq!(ast, Program(vec![Block(vec![
            Statement::GotoStatement(VariableOrNumberLiteral("heaven".to_string())),
        ])]));
}

#[test]
fn mod_parser_correctly_parses_if_statment() {
    let program = "If Cinderella is better than the prince, then go to heaven.";
    let ast = parse_program_string(program);

    assert_eq!(ast, Program(vec![Block(vec![
            Statement::IfStatement(Condition::GreaterThan(VariableOrNumberLiteral("cinderella".to_string()), VariableOrNumberLiteral("the prince".to_string())), Box::new(Statement::GotoStatement(VariableOrNumberLiteral("heaven".to_string())))),
        ])]));
}

#[test]
fn parser_tests_parser_correctly_parses_assignment_statement_with_is() {
    let program = "Ron is here.";
    let ast = parse_program_string(program);

    assert_eq!(ast, Program(vec![Block(vec![
            Statement::AssignmentStatement(Variable("ron".to_string()), VariableOrNumberLiteral("here".to_string())),
        ])]));
}

#[test]
fn parser_tests_parser_correctly_parses_assignment_statement_with_are() {
    let program = "Percy and Annabeth are here.";
    let ast = parse_program_string(program);

    assert_eq!(ast, Program(vec![Block(vec![
            Statement::AssignmentStatement(Variable("percy and annabeth".to_string()), VariableOrNumberLiteral("here".to_string())),
        ])]));
}

#[test]
fn parser_tests_parser_correctly_parses_sub_statement() {
    let program = "Macbeth felt as bad as rain.";
    let ast = parse_program_string(program);

    assert_eq!(ast, Program(vec![Block(vec![
            Statement::SubStatement(Variable("macbeth".to_string()), VariableOrNumberLiteral("rain".to_string())),
        ])]));
}

#[test]
fn parser_tests_parser_correctly_parses_print_number_statement() {
    let program = "\"I am a wizard\" Charlie said.";
    let ast = parse_program_string(program);

    assert_eq!(ast, Program(vec![Block(vec![
            Statement::PrintNumberStatement(Variable("charlie".to_string())),
        ])]));
}

#[test]
fn parser_tests_parser_correctly_parses_print_character_statement() {
    let program = "\"I am a wizard\" Charlie said slyly.";
    let ast = parse_program_string(program);

    assert_eq!(ast, Program(vec![Block(vec![
            Statement::PrintStringStatement(Variable("charlie".to_string())),
        ])]));
}

#[test]
fn parser_tests_parser_correctly_parses_statements_that_end_in_exclamation_marks() {
    let program = "Bob was running! Katniss was tired. John was swimming!";
    let ast = parse_program_string(program);

    assert_eq!(ast, Program(vec![Block(vec![
            Statement::AssignmentStatement(Variable("bob".to_string()), VariableOrNumberLiteral("running".to_string())),
            Statement::AssignmentStatement(Variable("katniss".to_string()), VariableOrNumberLiteral("tired".to_string())),
            Statement::AssignmentStatement(Variable("john".to_string()), VariableOrNumberLiteral("swimming".to_string())),
        ])]));
}

#[test]
fn parser_tests_parser_correctly_parses_statements_that_end_in_question_marks() {
    let program = "Bob was running? Katniss was tired. John was swimming?";
    let ast = parse_program_string(program);

    assert_eq!(ast, Program(vec![Block(vec![
            Statement::AssignmentStatement(Variable("bob".to_string()), VariableOrNumberLiteral("running".to_string())),
            Statement::AssignmentStatement(Variable("katniss".to_string()), VariableOrNumberLiteral("tired".to_string())),
            Statement::AssignmentStatement(Variable("john".to_string()), VariableOrNumberLiteral("swimming".to_string())),
        ])]));
}

#[test]
fn parser_tests_parser_correctly_parses_input_statements() {
    let program = "Taylor looked up to the skies beyond, waiting for an answer.";
    let ast = parse_program_string(program);

    assert_eq!(ast, Program(vec![Block(vec![
            Statement::InputStatement(Variable("taylor".to_string())),
        ])]));
}

#[test]
fn parser_tests_parser_correctly_parses_exit_statements() {
    let program = "I hoped with all my heart that all this misery comes to an end.";
    let ast = parse_program_string(program);

    assert_eq!(ast, Program(vec![Block(vec![
            Statement::ExitStatement,
        ])]));
}

#[test]
fn parser_tests_parser_correctly_parses_goto_statement() {
    let program = "Cindrella wished she could go to heaven.";
    let ast = parse_program_string(program);

    assert_eq!(ast, Program(vec![Block(vec![
            Statement::GotoStatement(VariableOrNumberLiteral("heaven".to_string())),
        ])]));
}

#[test]
fn parser_tests_parser_correctly_parses_assignment_statement_with_was() {
    let program = "Charlie was a wizard.";
    let ast = parse_program_string(program);

    assert_eq!(ast, Program(vec![Block(vec![
            Statement::AssignmentStatement(Variable("charlie".to_string()), VariableOrNumberLiteral("a wizard".to_string())),
        ])]));
}

#[test]
fn parser_tests_parser_correctly_parses_assignment_statement_with_were() {
    let program = "The dog and the cat were great company.";
    let ast = parse_program_string(program);

    assert_eq!(ast, Program(vec![Block(vec![
            Statement::AssignmentStatement(Variable("dog and cat".to_string()), VariableOrNumberLiteral("great company".to_string())),
        ])]));
}

#[test]
fn parser_tests_parser_correctly_parses_add_statement() {
    let program = "Percy felt as good as a friend.";
    let ast = parse_program_string(program);

    assert_eq!(ast, Program(vec![Block(vec![
            Statement::AddStatement(Variable("percy".to_string()), VariableOrNumberLiteral("a friend".to_string())),
        ])]));
}

#[test]
fn parser_tests_parser_correctly_parses_if_statment() {
    let program = "If Cinderella is better than the prince, then go to heaven.";
    let ast = parse_program_string(program);

    assert_eq!(ast, Program(vec![Block(vec![
            Statement::IfStatement(Condition::GreaterThan(VariableOrNumberLiteral("cinderella".to_string()), VariableOrNumberLiteral("the prince".to_string())), Box::new(Statement::GotoStatement(VariableOrNumberLiteral("heaven".to_string())))),
        ])]));
}

#[test]
fn subject_names_drop_articles_and_possessive_endings() {
    assert_eq!(
        parse_program_string("The king's horse was fast."),
        Program(vec![Block(vec![Statement::AssignmentStatement(
            Variable("king horse".to_string()),
            VariableOrNumberLiteral("fast".to_string())
        )])])
    );
    assert_eq!(
        parse_program_string("\"hi\" An owl said."),
        Program(vec![Block(vec![Statement::PrintNumberStatement(Variable("owl".to_string()))])])
    );
}

#[test]
fn words_are_lower_cased_beyond_ascii() {
    assert_eq!(
        parse_program_string("ÉMILE was Über."),
        Program(vec![Block(vec![Statement::AssignmentStatement(
            Variable("émile".to_string()),
            VariableOrNumberLiteral("über".to_string())
        )])])
    );
}
