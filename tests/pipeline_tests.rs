use storyteller::ast::{Block, Program, Statement, Variable, VariableOrNumberLiteral};
use storyteller::ast_to_ir::convert_poetic_literal_to_integer;
use storyteller::compiler::{compile_source, tokenize_and_lower};
use storyteller::interpreter::{number_to_string, string_to_number, Action, Machine};
use storyteller::errors::{capitalize_first_letter_of_each_word, variable_not_found};
use storyteller::ir::{Expression, Instruction, Variable as IrVariable};
use storyteller::keyword_defs::defs;
use storyteller::lexer::lexer;
use storyteller::number::Number;
use storyteller::parser::{parse_blocks, parse_program};
use storyteller::preprocessor::preprocess;
use storyteller::pronoun_replacer::replace_pronouns;
use storyteller::types::{copy_token, LexerBlock, LexerOutput, LexerToken};
use storyteller::variable_extractor::get_variables;

fn parse(src: &str) -> Program {
    match parse_program(preprocess(lexer(src)), &defs()) {
        Ok(p) => p,
        Err(_) => panic!("parse failed"),
    }
}

fn text(s: &str) -> LexerToken {
    LexerToken::Text(s.to_string())
}

#[test]
fn lexer_splits_paragraphs_at_blank_lines() {
    let out = lexer("Bob was 1.\nAlice's r2d2!\n  \n\nX - y,\"z\"?\n");
    assert_eq!(out.0.len(), 2);
    assert_eq!(
        out.0[0].0,
        vec![text("Bob"), text("was"), text("1"), LexerToken::Period, text("Alice's"), text("r2d2"), LexerToken::ExclamationMark]
    );
    assert_eq!(
        out.0[1].0,
        vec![text("X"), LexerToken::Unknown, text("y"), LexerToken::Comma, LexerToken::Quote, text("z"), LexerToken::Quote, LexerToken::QuestionMark]
    );
}

#[test]
fn lexer_gives_nothing_for_blank_text() {
    assert_eq!(lexer("").0.len(), 0);
    assert_eq!(lexer("\n\n  \n").0.len(), 0);
}

#[test]
fn normalizing_twice_is_normalizing_once() {
    let once = preprocess(lexer("\"Wait. STOP!\" Alice SAID.\n\nBob Was 1."));
    let again = preprocess(LexerOutput(once.0.iter().map(|b| LexerBlock(b.0.iter().map(copy_token).collect())).collect()));
    assert_eq!(once.0.len(), again.0.len());
    for i in 0..once.0.len() {
        assert_eq!(once.0[i].0, again.0[i].0);
    }
    assert_eq!(
        once.0[0].0,
        vec![LexerToken::Quote, text("wait"), text("stop"), LexerToken::Quote, text("alice"), text("said"), LexerToken::Period]
    );
}

#[test]
fn quoted_punctuation_is_not_a_statement_boundary() {
    let ast = parse("\"Wait. Stop.\" Alice said.");
    assert_eq!(ast, Program(vec![Block(vec![Statement::PrintNumberStatement(Variable("alice".to_string()))])]));
}

#[test]
fn grammar_tie_break_prefers_assignment() {
    assert_eq!(
        parse("Tom is as good as gold."),
        Program(vec![Block(vec![Statement::AssignmentStatement(
            Variable("tom".to_string()),
            VariableOrNumberLiteral("as good as gold".to_string())
        )])])
    );
    assert_eq!(
        parse("Percy felt as good as a friend."),
        Program(vec![Block(vec![Statement::AddStatement(
            Variable("percy".to_string()),
            VariableOrNumberLiteral("a friend".to_string())
        )])])
    );
    assert_eq!(
        parse("Ron is here."),
        Program(vec![Block(vec![Statement::AssignmentStatement(
            Variable("ron".to_string()),
            VariableOrNumberLiteral("here".to_string())
        )])])
    );
}

#[test]
fn pronoun_resolves_to_antecedent() {
    let ast = parse("Bob was cool. He was great.");
    let vars = get_variables(&ast);
    let (resolved, errors) = replace_pronouns(&ast, &vars);
    assert!(errors.is_empty());
    assert_eq!(
        resolved.0[0].0[1],
        Statement::AssignmentStatement(Variable("bob".to_string()), VariableOrNumberLiteral("great".to_string()))
    );
}

#[test]
fn pronoun_without_antecedent_is_reported() {
    let ast = parse("She was 5.");
    let vars = get_variables(&ast);
    let (resolved, errors) = replace_pronouns(&ast, &vars);
    assert_eq!(errors.len(), 1);
    assert_eq!(errors[0].error_type(), "Lonely Pronoun Error");
    assert_eq!(
        resolved.0[0].0[0],
        Statement::AssignmentStatement(Variable("".to_string()), VariableOrNumberLiteral("5".to_string()))
    );
}

#[test]
fn antecedent_does_not_cross_paragraphs() {
    let result = tokenize_and_lower("Bob was cool.\n\nHe was great.");
    match result {
        Ok(_) => panic!("expected an error"),
        Err(errors) => {
            assert_eq!(errors.len(), 1);
            assert_eq!(errors[0].error_type(), "Lonely Pronoun Error");
        }
    }
}

#[test]
fn poetic_literals_decode_by_word_length() {
    assert_eq!(convert_poetic_literal_to_integer("a b".to_string()), Number::from_u64(11));
    assert_eq!(convert_poetic_literal_to_integer("hello".to_string()), Number::from_u64(5));
    assert_eq!(convert_poetic_literal_to_integer("wonderful friend".to_string()), Number::from_u64(96));
    assert_eq!(convert_poetic_literal_to_integer("abcdefghij b".to_string()), Number::from_u64(1));
    assert_eq!(convert_poetic_literal_to_integer("".to_string()), Number::zero());
    assert_eq!(convert_poetic_literal_to_integer("  ".to_string()).digits, Vec::<u8>::new());
}

#[test]
fn numbers_hold_decimal_digits() {
    assert_eq!(Number::from_u64(1203).digits, vec![1, 2, 0, 3]);
    assert_eq!(Number::from_u64(0).digits, Vec::<u8>::new());
}

#[test]
fn one_label_per_paragraph() {
    let ir = match tokenize_and_lower("Bob was 1. Bob is bob.\n\nBob felt as good as bob.\n\nShe said nothing.") {
        Ok(ir) => ir,
        Err(_) => panic!("compile failed"),
    };
    let labels: Vec<usize> = ir
        .iter()
        .filter_map(|i| match i {
            Instruction::Label(n) => Some(*n),
            _ => None,
        })
        .collect();
    assert_eq!(labels, vec![0, 1, 2]);
    assert_eq!(ir[0], Instruction::Label(0));
    assert_eq!(
        ir[1],
        Instruction::AssignmentInstruction(IrVariable("bob".to_string()), Expression::NumberLiteral(Number::from_u64(1)))
    );
    assert_eq!(
        ir[2],
        Instruction::AssignmentInstruction(IrVariable("bob".to_string()), Expression::Variable("bob".to_string()))
    );
    assert_eq!(ir[3], Instruction::Label(1));
    assert_eq!(
        ir[4],
        Instruction::AddInstruction(IrVariable("bob".to_string()), Expression::Variable("bob".to_string()))
    );
    assert_eq!(ir[5], Instruction::Label(2));
    assert_eq!(ir.len(), 6);
}

#[test]
fn unterminated_paragraph_is_an_error_and_others_still_compile() {
    let tokens = preprocess(lexer("Bob was 1.\n\nAlice was 2"));
    let (program, errors) = parse_blocks(&tokens, &defs());
    assert_eq!(errors.len(), 1);
    assert_eq!(errors[0].error_type(), "Unfinished Thought Error");
    assert_eq!(program.0.len(), 2);
    assert_eq!(program.0[1].0.len(), 0);
    let c = compile_source("Bob was 1.\n\nAlice was 2");
    assert_eq!(c.errors.len(), 1);
    assert_eq!(c.instructions.len(), 3);
}

#[test]
fn text_after_the_last_terminator_is_dropped() {
    assert_eq!(
        parse("Bob was 1. and then"),
        Program(vec![Block(vec![Statement::AssignmentStatement(
            Variable("bob".to_string()),
            VariableOrNumberLiteral("1".to_string())
        )])])
    );
}

#[test]
fn variables_include_if_subjects() {
    let ast = parse("If x is 1, then Bob was 2. Alice said nothing. \"hi\" Carol said.");
    let vars = get_variables(&ast);
    let names: Vec<String> = vars.iter().map(|v| v.0.clone()).collect();
    assert_eq!(names, vec!["bob".to_string(), "carol".to_string()]);
}

#[test]
fn goto_to_a_variable_and_to_a_literal() {
    let ir = match tokenize_and_lower("Bob was 1.\n\nBob went to bob. Alice goes to a b.") {
        Ok(ir) => ir,
        Err(_) => panic!("compile failed"),
    };
    assert_eq!(ir[3], Instruction::GotoInstruction(Expression::Variable("bob".to_string())));
    assert_eq!(ir[4], Instruction::GotoInstruction(Expression::NumberLiteral(Number::from_u64(11))));
}

#[test]
fn if_around_a_comment_lowers_to_nothing() {
    let ir = match tokenize_and_lower("If bob is 1, then nothing happens.") {
        Ok(ir) => ir,
        Err(_) => panic!("compile failed"),
    };
    assert_eq!(ir, vec![Instruction::Label(0)]);
}

#[test]
fn error_messages() {
    assert_eq!(capitalize_first_letter_of_each_word("the DARK knight"), "The Dark Knight");
    let e = variable_not_found("bob smith".to_string());
    assert_eq!(e.error_type(), "Existential Crisis Error");
    assert!(e.error_message().starts_with("The character Bob Smith stands"));
    assert_eq!(e.get_error(), format!("{}\n{}", e.error_type(), e.error_message()));
}

fn run(ir: &Vec<Instruction>, input: &[&str]) -> (String, Option<String>) {
    let mut m = Machine::new();
    let mut out = String::new();
    let mut lines = input.iter();
    for _ in 0..10000 {
        match m.step(ir) {
            Action::Continue => {}
            Action::Print(s) => out.push_str(&s),
            Action::ReadInput(v) => {
                let line = lines.next().copied().unwrap_or("");
                m.accept_input(&v, line);
            }
            Action::Halt => return (out, None),
            Action::Fail(e) => return (out, Some(e.error_type().clone())),
        }
    }
    panic!("program did not halt");
}

fn compile(src: &str) -> Vec<Instruction> {
    match tokenize_and_lower(src) {
        Ok(ir) => ir,
        Err(_) => panic!("compile failed"),
    }
}

#[test]
fn goto_reaches_an_existing_label_and_terminates() {
    let ir = compile("Bob was 1. Bob is bob.\n\nBob felt as good as bob. Bob go to ab.\n\n\"x\" Bob said.");
    let (out, err) = run(&ir, &[]);
    assert_eq!(err, None);
    assert_eq!(out, "2");
    let ir = compile("Bob was a.\n\nBob felt as good as a. \"x\" Bob said. If bob is abcde, then the end. Bob went to a.");
    let (out, err) = run(&ir, &[]);
    assert_eq!(err, None);
    assert_eq!(out, "2345");
}

#[test]
fn goto_to_a_missing_label_fails() {
    let ir = compile("Bob was 1. Bob is bob.\n\nBob felt as good as bob. Bob go to heaven.\n\nNothing more.");
    let (_, err) = run(&ir, &[]);
    assert_eq!(err, Some("Place Not Found Error".to_string()));
}

#[test]
fn input_and_character_output() {
    let ir = compile("Taylor looked up to the skies beyond, waiting for an answer. \"x\" Taylor said slyly. \"y\" Taylor said.");
    let (out, err) = run(&ir, &["Hi"]);
    assert_eq!(err, None);
    assert_eq!(out, "Hi72105");
    assert_eq!(string_to_number("Hi"), Number::from_u64(72105));
    assert_eq!(number_to_string(&Number::from_u64(72105)), "Hi");
    assert_eq!(number_to_string(&Number::from_u64(1200)), "\u{1}\u{48}");
}

#[test]
fn arithmetic_and_conditions() {
    let ir = compile("Al was ab cde. Al felt as bad as abcdefg. \"x\" Al said. Al felt as bad as abcdefghi. \"x\" Al said. Al felt as bad as abcdefghi. \"x\" Al said. Al felt as good as abcdefghijk abc. \"x\" Al said. If al is greater than ab, then al felt as good as a. If al is less than ab, then the end. \"x\" Al said.");
    let (out, err) = run(&ir, &[]);
    assert_eq!(err, None);
    assert_eq!(out, "16701314");
    let a = Number::from_u64(99999999999);
    let b = Number::from_u64(1);
    assert_eq!(a.add(&b), Number::from_u64(100000000000));
    assert_eq!(b.saturating_sub(&a), Number::zero());
    assert_eq!(a.saturating_sub(&b), Number::from_u64(99999999998));
    assert_eq!(a.compare(&b), std::cmp::Ordering::Greater);
    assert_eq!(Number::from_u64(0).to_decimal_string(), "0");
    assert_eq!(Number::from_u64(907).to_decimal_string(), "907");
}

#[test]
fn reading_an_unset_variable_fails() {
    let ir = compile("\"x\" Nobody said.");
    let (_, err) = run(&ir, &[]);
    assert_eq!(err, Some("Existential Crisis Error".to_string()));
}
