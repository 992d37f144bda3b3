use vstd::prelude::*;
use crate::ast::{Condition, ConditionModel, Program, Statement, StatementModel};
use crate::chars::{is_space, space};
use crate::grammar::spaced;
use crate::errors::Error;
use crate::ir::{
    instructions_view, program_wf, variables_view, CondModel, Condition as IrCondition, ExprModel,
    Expression, InstrModel, Instruction, Variable,
};
use crate::number::{all_digits, digits_value, pow10, strip_leading_zeros, Number};
use crate::pronoun_replacer::{all_pronoun_errors, pronoun_errors, replace_pronouns, resolve_program};
use crate::variable_extractor::{contains_variable, get_variables, program_variables};

verus! {

/// The lengths of the words closed so far, and the length of the open word
/// (0 when none is open); words are separated by white space.
pub open spec fn poetic_state(s: Seq<char>) -> (Seq<nat>, nat)
    decreases s.len(),
{
    if s.len() == 0 {
        (Seq::empty(), 0)
    } else {
        let (lens, cur) = poetic_state(s.drop_last());
        if is_space(s.last()) {
            if cur > 0 {
                (lens.push(cur), 0)
            } else {
                (lens, 0)
            }
        } else {
            (lens, cur + 1)
        }
    }
}

/// The lengths, in characters, of the white-space separated words of `s`.
pub open spec fn word_lengths(s: Seq<char>) -> Seq<nat> {
    let (lens, cur) = poetic_state(s);
    if cur > 0 {
        lens.push(cur)
    } else {
        lens
    }
}

/// One decimal digit per word: its length modulo 10.
pub open spec fn poetic_digits(s: Seq<char>) -> Seq<u8> {
    word_lengths(s).map_values(|l: nat| (l % 10) as u8)
}

/// The number a poetic literal spells: its digits read most significant first.
pub open spec fn poetic_value(s: Seq<char>) -> nat {
    digits_value(poetic_digits(s))
}

pub open spec fn no_space(w: Seq<char>) -> bool {
    forall|i: int| 0 <= i < w.len() ==> !is_space(#[trigger] w[i])
}

proof fn lemma_poetic_state_word(prefix: Seq<char>, w: Seq<char>)
    requires
        no_space(w),
    ensures
        poetic_state(prefix + w) == (poetic_state(prefix).0, poetic_state(prefix).1 + w.len()),
    decreases w.len(),
{
    if w.len() == 0 {
        assert(prefix + w =~= prefix);
    } else {
        lemma_poetic_state_word(prefix, w.drop_last());
        assert((prefix + w).drop_last() =~= prefix + w.drop_last());
        assert((prefix + w).last() == w[w.len() - 1]);
    }
}

/// A single word of length `k` decodes to the digit `k % 10`.
pub proof fn lemma_single_word(w: Seq<char>)
    requires
        w.len() > 0,
        no_space(w),
    ensures
        poetic_value(w) == w.len() % 10,
{
    lemma_poetic_state_word(Seq::empty(), w);
    assert(Seq::<char>::empty() + w =~= w);
    let d = (w.len() % 10) as u8;
    assert(poetic_digits(w) =~= seq![d]);
    assert(seq![d].drop_last() =~= Seq::<u8>::empty());
    assert(digits_value(Seq::<u8>::empty()) == 0);
}

/// Two words, one space apart, of lengths `k` and `m` decode to
/// `10 * (k % 10) + m % 10`.
pub proof fn lemma_two_words(w1: Seq<char>, w2: Seq<char>)
    requires
        w1.len() > 0,
        w2.len() > 0,
        no_space(w1),
        no_space(w2),
    ensures
        poetic_value(w1 + seq![' '] + w2) == 10 * (w1.len() % 10) + w2.len() % 10,
{
    lemma_poetic_state_word(Seq::empty(), w1);
    assert(Seq::<char>::empty() + w1 =~= w1);
    let head = w1 + seq![' '];
    assert(head.drop_last() =~= w1);
    assert(poetic_state(head) == (seq![w1.len()], 0nat));
    lemma_poetic_state_word(head, w2);
    let d1 = (w1.len() % 10) as u8;
    let d2 = (w2.len() % 10) as u8;
    assert(poetic_digits(w1 + seq![' '] + w2) =~= seq![d1, d2]);
    assert(seq![d1, d2].drop_last() =~= seq![d1]);
    assert(seq![d1].drop_last() =~= Seq::<u8>::empty());
    assert(digits_value(Seq::<u8>::empty()) == 0);
    assert(seq![d1].last() == d1);
    assert(digits_value(seq![d1]) == d1 as nat);
    assert(seq![d1, d2].last() == d2);
    assert(digits_value(seq![d1, d2]) == d1 as nat * 10 + d2 as nat);
}

proof fn lemma_spaced_state(ws: Seq<Seq<char>>)
    requires
        ws.len() > 0,
        forall|i: int| 0 <= i < ws.len() ==> #[trigger] ws[i].len() > 0 && no_space(ws[i]),
    ensures
        poetic_state(spaced(ws)) == (
            ws.drop_last().map_values(|w: Seq<char>| w.len()),
            ws.last().len(),
        ),
    decreases ws.len(),
{
    if ws.len() == 1 {
        lemma_poetic_state_word(Seq::empty(), ws[0]);
        assert(Seq::<char>::empty() + ws[0] =~= ws[0]);
        assert(ws.drop_last().map_values(|w: Seq<char>| w.len()) =~= Seq::<nat>::empty());
    } else {
        let q = ws.drop_last();
        lemma_spaced_state(q);
        let head = spaced(q) + seq![' '];
        assert(head.drop_last() =~= spaced(q));
        assert(q.last().len() > 0);
        assert(poetic_state(head) == (q.map_values(|w: Seq<char>| w.len()), 0nat)) by {
            assert(q.drop_last().map_values(|w: Seq<char>| w.len()).push(q.last().len())
                =~= q.map_values(|w: Seq<char>| w.len()));
        }
        lemma_poetic_state_word(head, ws.last());
    }
}

/// Words of the same length `k`, one space apart, decode to the digit
/// `k % 10` repeated once per word.
pub proof fn lemma_uniform_words(ws: Seq<Seq<char>>, k: nat)
    requires
        k > 0,
        forall|i: int| 0 <= i < ws.len() ==> #[trigger] ws[i].len() == k && no_space(ws[i]),
    ensures
        poetic_digits(spaced(ws)) == Seq::new(ws.len(), |i: int| (k % 10) as u8),
{
    if ws.len() == 0 {
        assert(poetic_digits(spaced(ws)) =~= Seq::new(ws.len(), |i: int| (k % 10) as u8));
    } else {
        lemma_spaced_state(ws);
        let lens = ws.drop_last().map_values(|w: Seq<char>| w.len()).push(ws.last().len());
        assert(word_lengths(spaced(ws)) == lens);
        assert(poetic_digits(spaced(ws)) =~= Seq::new(ws.len(), |i: int| (k % 10) as u8));
    }
}

proof fn lemma_repeated_digit(n: nat, d: u8)
    ensures
        digits_value(Seq::new(n, |i: int| d)) * 9 == d * (pow10(n) - 1),
    decreases n,
{
    if n == 0 {
        assert(Seq::new(n, |i: int| d) =~= Seq::<u8>::empty());
        assert(pow10(0) == 1);
    } else {
        lemma_repeated_digit((n - 1) as nat, d);
        assert(Seq::new(n, |i: int| d).drop_last() =~= Seq::new((n - 1) as nat, |i: int| d));
        let v = digits_value(Seq::new((n - 1) as nat, |i: int| d));
        let p = pow10((n - 1) as nat);
        assert(pow10(n) == 10 * p);
        assert(digits_value(Seq::new(n, |i: int| d)) == v * 10 + d);
        assert((v * 10 + d) * 9 == 10 * (v * 9) + 9 * d) by (nonlinear_arith);
        assert(10 * (d * (p - 1)) + 9 * d == d * (10 * p - 1)) by (nonlinear_arith);
    }
}

/// Words of the same length `k`, one space apart, decode to the number whose
/// `n` digits are all `k % 10`: `(k % 10) * (10^n - 1) / 9`.
pub proof fn lemma_uniform_value(ws: Seq<Seq<char>>, k: nat)
    requires
        k > 0,
        forall|i: int| 0 <= i < ws.len() ==> #[trigger] ws[i].len() == k && no_space(ws[i]),
    ensures
        poetic_value(spaced(ws)) * 9 == (k % 10) * (pow10(ws.len()) - 1),
{
    lemma_uniform_words(ws, k);
    lemma_repeated_digit(ws.len(), (k % 10) as u8);
}

/// Decodes a poetic literal: each word gives the digit `length % 10`, and the
/// digits are read most significant first; no words give zero.
pub fn convert_poetic_literal_to_integer(poetic_literal: String) -> (r: Number)
    ensures
        r.wf(),
        r@ == poetic_value(poetic_literal@),
{
    let mut digits: Vec<u8> = Vec::new();
    let mut in_word = false;
    let mut cur: u8 = 0;
    let ghost mut seen: Seq<char> = Seq::empty();
    for c in it: poetic_literal.as_str().chars()
        invariant
            it.seq() == poetic_literal@,
            seen == it.seq().take(it.index() as int),
            ({
                let (lens, len) = poetic_state(seen);
                &&& digits@ =~= lens.map_values(|l: nat| (l % 10) as u8)
                &&& in_word == (len > 0)
                &&& cur as nat == len % 10
            }),
    {
        proof {
            assert(seen.push(c).drop_last() == seen);
        }
        if space(c) {
            if in_word {
                digits.push(cur);
            }
            in_word = false;
            cur = 0;
        } else {
            in_word = true;
            cur = if cur == 9 {
                0
            } else {
                cur + 1
            };
        }
        proof {
            seen = seen.push(c);
            assert(seen == it.seq().take(it.index() as int + 1));
        }
    }
    assert(seen =~= poetic_literal@);
    if in_word {
        digits.push(cur);
    }
    assert(digits@ =~= poetic_digits(poetic_literal@));
    strip_leading_zeros(&digits)
}

/// A value names a variable when it is one of `vars`, else it is a poetic literal.
pub open spec fn expr_of(v: Seq<char>, vars: Set<Seq<char>>) -> ExprModel {
    if vars.contains(v) {
        ExprModel::Variable(v)
    } else {
        ExprModel::NumberLiteral(poetic_value(v))
    }
}

pub open spec fn cond_of(c: ConditionModel, vars: Set<Seq<char>>) -> CondModel {
    match c {
        ConditionModel::EqualTo(a, b) => CondModel::EqualTo(expr_of(a, vars), expr_of(b, vars)),
        ConditionModel::NotEqualTo(a, b) => CondModel::NotEqualTo(expr_of(a, vars), expr_of(b, vars)),
        ConditionModel::GreaterThan(a, b) => CondModel::GreaterThan(expr_of(a, vars), expr_of(b, vars)),
        ConditionModel::LessThan(a, b) => CondModel::LessThan(expr_of(a, vars), expr_of(b, vars)),
        ConditionModel::GreaterThanOrEqualTo(a, b) => CondModel::GreaterThanOrEqualTo(
            expr_of(a, vars),
            expr_of(b, vars),
        ),
        ConditionModel::LessThanOrEqualTo(a, b) => CondModel::LessThanOrEqualTo(
            expr_of(a, vars),
            expr_of(b, vars),
        ),
    }
}

/// The instruction a statement lowers to; a comment, and an `if` around
/// nothing, lower to none.
pub open spec fn lower_statement(s: StatementModel, vars: Set<Seq<char>>) -> Option<InstrModel>
    decreases s,
{
    match s {
        StatementModel::Assignment(a, v) => Some(InstrModel::Assignment(a, expr_of(v, vars))),
        StatementModel::Add(a, v) => Some(InstrModel::Add(a, expr_of(v, vars))),
        StatementModel::Sub(a, v) => Some(InstrModel::Sub(a, expr_of(v, vars))),
        StatementModel::PrintNumber(a) => Some(InstrModel::PrintNumber(a)),
        StatementModel::PrintString(a) => Some(InstrModel::PrintCharacter(a)),
        StatementModel::Input(a) => Some(InstrModel::Input(a)),
        StatementModel::Exit => Some(InstrModel::Exit),
        StatementModel::Goto(v) => Some(InstrModel::Goto(expr_of(v, vars))),
        StatementModel::If(c, inner) => match lower_statement(*inner, vars) {
            Some(i) => Some(InstrModel::If(cond_of(c, vars), Box::new(i))),
            None => None,
        },
        StatementModel::Comment => None,
    }
}

pub open spec fn lower_block(b: Seq<StatementModel>, vars: Set<Seq<char>>) -> Seq<InstrModel>
    decreases b.len(),
{
    if b.len() == 0 {
        Seq::empty()
    } else {
        lower_block(b.drop_last(), vars) + match lower_statement(b.last(), vars) {
            Some(i) => seq![i],
            None => Seq::empty(),
        }
    }
}

/// Each block `i` lowers to `Label(i)` followed by its statements' instructions.
pub open spec fn lower_blocks(p: Seq<Seq<StatementModel>>, vars: Set<Seq<char>>) -> Seq<InstrModel>
    decreases p.len(),
{
    if p.len() == 0 {
        Seq::empty()
    } else {
        lower_blocks(p.drop_last(), vars) + seq![InstrModel::Label((p.len() - 1) as nat)]
            + lower_block(p.last(), vars)
    }
}

fn expression_of(v: &String, variables: &Vec<Variable>) -> (r: Expression)
    ensures
        r@ == expr_of(v@, variables_view(variables@).to_set()),
        r.wf(),
{
    if contains_variable(variables, v) {
        Expression::Variable(v.clone())
    } else {
        Expression::NumberLiteral(convert_poetic_literal_to_integer(v.clone()))
    }
}

fn condition_to_ir(c: &Condition, variables: &Vec<Variable>) -> (r: IrCondition)
    ensures
        r@ == cond_of(c@, variables_view(variables@).to_set()),
        r.wf(),
{
    match c {
        Condition::EqualTo(a, b) => IrCondition::EqualTo(
            expression_of(&a.0, variables),
            expression_of(&b.0, variables),
        ),
        Condition::NotEqualTo(a, b) => IrCondition::NotEqualTo(
            expression_of(&a.0, variables),
            expression_of(&b.0, variables),
        ),
        Condition::GreaterThan(a, b) => IrCondition::GreaterThan(
            expression_of(&a.0, variables),
            expression_of(&b.0, variables),
        ),
        Condition::LessThan(a, b) => IrCondition::LessThan(
            expression_of(&a.0, variables),
            expression_of(&b.0, variables),
        ),
        Condition::GreaterThanOrEqualTo(a, b) => IrCondition::GreaterThanOrEqualTo(
            expression_of(&a.0, variables),
            expression_of(&b.0, variables),
        ),
        Condition::LessThanOrEqualTo(a, b) => IrCondition::LessThanOrEqualTo(
            expression_of(&a.0, variables),
            expression_of(&b.0, variables),
        ),
    }
}

pub open spec fn opt_instr(o: Option<Instruction>) -> Option<InstrModel> {
    match o {
        Some(i) => Some(i@),
        None => None,
    }
}

fn statement_to_ir(s: &Statement, variables: &Vec<Variable>) -> (r: Option<Instruction>)
    ensures
        opt_instr(r) == lower_statement(s@, variables_view(variables@).to_set()),
        r matches Some(i) ==> crate::ir::instruction_wf(i),
    decreases s,
{
    match s {
        Statement::AssignmentStatement(a, v) => Some(
            Instruction::AssignmentInstruction(Variable(a.0.clone()), expression_of(&v.0, variables)),
        ),
        Statement::AddStatement(a, v) => Some(
            Instruction::AddInstruction(Variable(a.0.clone()), expression_of(&v.0, variables)),
        ),
        Statement::SubStatement(a, v) => Some(
            Instruction::SubInstruction(Variable(a.0.clone()), expression_of(&v.0, variables)),
        ),
        Statement::PrintNumberStatement(a) => Some(
            Instruction::PrintNumberInstruction(Variable(a.0.clone())),
        ),
        Statement::PrintStringStatement(a) => Some(
            Instruction::PrintCharacterInstruction(Variable(a.0.clone())),
        ),
        Statement::InputStatement(a) => Some(Instruction::InputInstruction(Variable(a.0.clone()))),
        Statement::ExitStatement => Some(Instruction::ExitInstruction),
        Statement::GotoStatement(v) => Some(
            Instruction::GotoInstruction(expression_of(&v.0, variables)),
        ),
        Statement::IfStatement(c, inner) => match statement_to_ir(inner, variables) {
            Some(i) => Some(Instruction::IfInstruction(condition_to_ir(c, variables), Box::new(i))),
            None => None,
        },
        Statement::Comment => None,
    }
}

/// Lowers a resolved program: `Label(i)` first for each block `i`, then the
/// instructions of its statements in order.
pub fn lower_program(ast: &Program, variables: &Vec<Variable>) -> (r: Vec<Instruction>)
    ensures
        instructions_view(r@) == lower_blocks(ast@, variables_view(variables@).to_set()),
        program_wf(r@),
{
    let ghost vs = variables_view(variables@).to_set();
    let mut ir: Vec<Instruction> = Vec::new();
    let mut i: usize = 0;
    while i < ast.0.len()
        invariant
            i <= ast.0.len(),
            vs == variables_view(variables@).to_set(),
            program_wf(ir@),
            instructions_view(ir@) =~= lower_blocks(ast@.take(i as int), vs),
        decreases ast.0.len() - i,
    {
        let block = &ast.0[i];
        assert(ast@[i as int] == block@);
        assert(ast@.take(i + 1).drop_last() =~= ast@.take(i as int));
        let ghost start = instructions_view(ir@);
        ir.push(Instruction::Label(i));
        let mut j: usize = 0;
        while j < block.0.len()
            invariant
                i < ast.0.len(),
                j <= block.0.len(),
                vs == variables_view(variables@).to_set(),
                program_wf(ir@),
                instructions_view(ir@) =~= start + seq![InstrModel::Label(i as nat)] + lower_block(
                    block@.take(j as int),
                    vs,
                ),
            decreases block.0.len() - j,
        {
            assert(block@[j as int] == block.0@[j as int]@);
            assert(block@.take(j + 1).drop_last() =~= block@.take(j as int));
            let ghost before = ir@;
            match statement_to_ir(&block.0[j], variables) {
                Some(instr) => {
                    ir.push(instr);
                    assert(instructions_view(ir@) =~= instructions_view(before).push(instr@));
                },
                None => {},
            }
            j += 1;
        }
        assert(block@.take(j as int) =~= block@);
        i += 1;
    }
    assert(ast@.take(i as int) =~= ast@);
    ir
}

/// Lowers a parsed program: finds its variables, resolves its pronouns and
/// lowers it. Gives the instructions, the variables, and one error per pronoun
/// without an antecedent.
pub fn convert_ast_to_ir(ast: &Program) -> (r: (Vec<Instruction>, Vec<Variable>, Vec<Error>))
    ensures
        instructions_view(r.0@) == lower_blocks(
            resolve_program(ast@, program_variables(ast@)),
            program_variables(ast@),
        ),
        program_wf(r.0@),
        variables_view(r.1@).to_set() == program_variables(ast@),
        variables_view(r.1@).no_duplicates(),
        r.2.len() == pronoun_errors(ast@, program_variables(ast@)),
        all_pronoun_errors(r.2@),
{
    let variables = get_variables(ast);
    let (resolved, errors) = replace_pronouns(ast, &variables);
    let ir = lower_program(&resolved, &variables);
    (ir, variables, errors)
}

} // verus!
