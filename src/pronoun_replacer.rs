use vstd::prelude::*;
use crate::ast::{
    Block, Condition, ConditionModel, Program, Statement, StatementModel, Variable,
    VariableOrNumberLiteral,
};
use crate::errors::{pronoun_no_antecedent_error, pronoun_no_antecedent_model, Error};
use crate::grammar::contains_word;
use crate::ir::{variables_view, Variable as IrVariable};
use crate::keyword_defs::{str_views, strings_of, words_view};
use crate::variable_extractor::contains_variable;

verus! {

pub open spec fn pronoun_words() -> Seq<Seq<char>> {
    str_views(
        seq![
            "he", "she", "they", "him", "her", "them", "himself", "herself", "themself",
            "themselves",
        ],
    )
}

/// A name slot resolved against the current antecedent: a pronoun becomes the
/// antecedent (or the empty name, and an error, when there is none); a known
/// variable becomes the new antecedent; anything else is left as it is.
/// Gives the new name, the new antecedent, and whether an error arose.
pub open spec fn resolve_name(name: Seq<char>, cur: Option<Seq<char>>, vars: Set<Seq<char>>) -> (
    Seq<char>,
    Option<Seq<char>>,
    bool,
) {
    if pronoun_words().contains(name) {
        match cur {
            Some(v) => (v, cur, false),
            None => (Seq::empty(), None, true),
        }
    } else if vars.contains(name) {
        (name, Some(name), false)
    } else {
        (name, cur, false)
    }
}

pub open spec fn count(b: bool) -> nat {
    if b {
        1
    } else {
        0
    }
}

/// Resolves both operands of a condition, left before right.
pub open spec fn resolve_pair(a: Seq<char>, b: Seq<char>, cur: Option<Seq<char>>, vars: Set<Seq<char>>) -> (
    Seq<char>,
    Seq<char>,
    Option<Seq<char>>,
    nat,
) {
    let (a2, c1, e1) = resolve_name(a, cur, vars);
    let (b2, c2, e2) = resolve_name(b, c1, vars);
    (a2, b2, c2, count(e1) + count(e2))
}

pub open spec fn resolve_condition(c: ConditionModel, cur: Option<Seq<char>>, vars: Set<Seq<char>>) -> (
    ConditionModel,
    Option<Seq<char>>,
    nat,
) {
    match c {
        ConditionModel::EqualTo(a, b) => {
            let (a2, b2, c2, e) = resolve_pair(a, b, cur, vars);
            (ConditionModel::EqualTo(a2, b2), c2, e)
        },
        ConditionModel::NotEqualTo(a, b) => {
            let (a2, b2, c2, e) = resolve_pair(a, b, cur, vars);
            (ConditionModel::NotEqualTo(a2, b2), c2, e)
        },
        ConditionModel::GreaterThan(a, b) => {
            let (a2, b2, c2, e) = resolve_pair(a, b, cur, vars);
            (ConditionModel::GreaterThan(a2, b2), c2, e)
        },
        ConditionModel::LessThan(a, b) => {
            let (a2, b2, c2, e) = resolve_pair(a, b, cur, vars);
            (ConditionModel::LessThan(a2, b2), c2, e)
        },
        ConditionModel::GreaterThanOrEqualTo(a, b) => {
            let (a2, b2, c2, e) = resolve_pair(a, b, cur, vars);
            (ConditionModel::GreaterThanOrEqualTo(a2, b2), c2, e)
        },
        ConditionModel::LessThanOrEqualTo(a, b) => {
            let (a2, b2, c2, e) = resolve_pair(a, b, cur, vars);
            (ConditionModel::LessThanOrEqualTo(a2, b2), c2, e)
        },
    }
}

/// Resolves the name slots of a statement in order; an `if` resolves its
/// condition, then its inner statement.
pub open spec fn resolve_statement(s: StatementModel, cur: Option<Seq<char>>, vars: Set<Seq<char>>) -> (
    StatementModel,
    Option<Seq<char>>,
    nat,
)
    decreases s,
{
    match s {
        StatementModel::Assignment(a, b) => {
            let (a2, b2, c2, e) = resolve_pair(a, b, cur, vars);
            (StatementModel::Assignment(a2, b2), c2, e)
        },
        StatementModel::Add(a, b) => {
            let (a2, b2, c2, e) = resolve_pair(a, b, cur, vars);
            (StatementModel::Add(a2, b2), c2, e)
        },
        StatementModel::Sub(a, b) => {
            let (a2, b2, c2, e) = resolve_pair(a, b, cur, vars);
            (StatementModel::Sub(a2, b2), c2, e)
        },
        StatementModel::PrintNumber(a) => {
            let (a2, c1, e1) = resolve_name(a, cur, vars);
            (StatementModel::PrintNumber(a2), c1, count(e1))
        },
        StatementModel::PrintString(a) => {
            let (a2, c1, e1) = resolve_name(a, cur, vars);
            (StatementModel::PrintString(a2), c1, count(e1))
        },
        StatementModel::Input(a) => {
            let (a2, c1, e1) = resolve_name(a, cur, vars);
            (StatementModel::Input(a2), c1, count(e1))
        },
        StatementModel::Goto(a) => {
            let (a2, c1, e1) = resolve_name(a, cur, vars);
            (StatementModel::Goto(a2), c1, count(e1))
        },
        StatementModel::If(c, inner) => {
            let (c2, c1, e1) = resolve_condition(c, cur, vars);
            let (i2, c3, e2) = resolve_statement(*inner, c1, vars);
            (StatementModel::If(c2, Box::new(i2)), c3, e1 + e2)
        },
        _ => (s, cur, 0),
    }
}

/// The statements of a block resolved left to right, starting with no
/// antecedent; with the antecedent after them and the number of errors.
pub open spec fn resolve_block_state(b: Seq<StatementModel>, vars: Set<Seq<char>>) -> (
    Seq<StatementModel>,
    Option<Seq<char>>,
    nat,
)
    decreases b.len(),
{
    if b.len() == 0 {
        (Seq::empty(), None, 0)
    } else {
        let (done, cur, e) = resolve_block_state(b.drop_last(), vars);
        let (s, c2, e2) = resolve_statement(b.last(), cur, vars);
        (done.push(s), c2, e + e2)
    }
}

pub open spec fn resolve_program(p: Seq<Seq<StatementModel>>, vars: Set<Seq<char>>) -> Seq<
    Seq<StatementModel>,
> {
    p.map_values(|b: Seq<StatementModel>| resolve_block_state(b, vars).0)
}

/// How many pronouns in the program have no antecedent.
pub open spec fn pronoun_errors(p: Seq<Seq<StatementModel>>, vars: Set<Seq<char>>) -> nat
    decreases p.len(),
{
    if p.len() == 0 {
        0
    } else {
        pronoun_errors(p.drop_last(), vars) + resolve_block_state(p.last(), vars).2
    }
}

pub open spec fn all_pronoun_errors(es: Seq<Error>) -> bool {
    forall|i: int| 0 <= i < es.len() ==> (#[trigger] es[i])@ == pronoun_no_antecedent_model()
}

pub open spec fn opt_view(o: Option<String>) -> Option<Seq<char>> {
    match o {
        Some(s) => Some(s@),
        None => None,
    }
}

fn resolve_name_exec(
    name: &String,
    cur: Option<String>,
    pronouns: &Vec<String>,
    vars: &Vec<IrVariable>,
    errors: &mut Vec<Error>,
) -> (r: (String, Option<String>))
    requires
        words_view(pronouns@) == pronoun_words(),
        all_pronoun_errors(old(errors)@),
    ensures
        ({
            let (n, c, e) = resolve_name(name@, opt_view(cur), variables_view(vars@).to_set());
            &&& r.0@ == n
            &&& opt_view(r.1) == c
            &&& final(errors)@.len() == old(errors)@.len() + count(e)
        }),
        all_pronoun_errors(final(errors)@),
{
    if contains_word(pronouns, name) {
        match cur {
            Some(v) => (v.clone(), Some(v)),
            None => {
                errors.push(pronoun_no_antecedent_error());
                (String::new(), None)
            },
        }
    } else if contains_variable(vars, name) {
        (name.clone(), Some(name.clone()))
    } else {
        (name.clone(), cur)
    }
}

fn resolve_pair_exec(
    a: &String,
    b: &String,
    cur: Option<String>,
    pronouns: &Vec<String>,
    vars: &Vec<IrVariable>,
    errors: &mut Vec<Error>,
) -> (r: (String, String, Option<String>))
    requires
        words_view(pronouns@) == pronoun_words(),
        all_pronoun_errors(old(errors)@),
    ensures
        ({
            let (a2, b2, c, e) = resolve_pair(a@, b@, opt_view(cur), variables_view(vars@).to_set());
            &&& r.0@ == a2
            &&& r.1@ == b2
            &&& opt_view(r.2) == c
            &&& final(errors)@.len() == old(errors)@.len() + e
        }),
        all_pronoun_errors(final(errors)@),
{
    let (a2, c1) = resolve_name_exec(a, cur, pronouns, vars, errors);
    let (b2, c2) = resolve_name_exec(b, c1, pronouns, vars, errors);
    (a2, b2, c2)
}

fn resolve_condition_exec(
    c: &Condition,
    cur: Option<String>,
    pronouns: &Vec<String>,
    vars: &Vec<IrVariable>,
    errors: &mut Vec<Error>,
) -> (r: (Condition, Option<String>))
    requires
        words_view(pronouns@) == pronoun_words(),
        all_pronoun_errors(old(errors)@),
    ensures
        ({
            let (c2, cur2, e) = resolve_condition(c@, opt_view(cur), variables_view(vars@).to_set());
            &&& r.0@ == c2
            &&& opt_view(r.1) == cur2
            &&& final(errors)@.len() == old(errors)@.len() + e
        }),
        all_pronoun_errors(final(errors)@),
{
    match c {
        Condition::EqualTo(a, b) => {
            let (a2, b2, c2) = resolve_pair_exec(&a.0, &b.0, cur, pronouns, vars, errors);
            (Condition::EqualTo(VariableOrNumberLiteral(a2), VariableOrNumberLiteral(b2)), c2)
        },
        Condition::NotEqualTo(a, b) => {
            let (a2, b2, c2) = resolve_pair_exec(&a.0, &b.0, cur, pronouns, vars, errors);
            (Condition::NotEqualTo(VariableOrNumberLiteral(a2), VariableOrNumberLiteral(b2)), c2)
        },
        Condition::GreaterThan(a, b) => {
            let (a2, b2, c2) = resolve_pair_exec(&a.0, &b.0, cur, pronouns, vars, errors);
            (Condition::GreaterThan(VariableOrNumberLiteral(a2), VariableOrNumberLiteral(b2)), c2)
        },
        Condition::LessThan(a, b) => {
            let (a2, b2, c2) = resolve_pair_exec(&a.0, &b.0, cur, pronouns, vars, errors);
            (Condition::LessThan(VariableOrNumberLiteral(a2), VariableOrNumberLiteral(b2)), c2)
        },
        Condition::GreaterThanOrEqualTo(a, b) => {
            let (a2, b2, c2) = resolve_pair_exec(&a.0, &b.0, cur, pronouns, vars, errors);
            (
                Condition::GreaterThanOrEqualTo(
                    VariableOrNumberLiteral(a2),
                    VariableOrNumberLiteral(b2),
                ),
                c2,
            )
        },
        Condition::LessThanOrEqualTo(a, b) => {
            let (a2, b2, c2) = resolve_pair_exec(&a.0, &b.0, cur, pronouns, vars, errors);
            (
                Condition::LessThanOrEqualTo(VariableOrNumberLiteral(a2), VariableOrNumberLiteral(b2)),
                c2,
            )
        },
    }
}

fn resolve_statement_exec(
    s: &Statement,
    cur: Option<String>,
    pronouns: &Vec<String>,
    vars: &Vec<IrVariable>,
    errors: &mut Vec<Error>,
) -> (r: (Statement, Option<String>))
    requires
        words_view(pronouns@) == pronoun_words(),
        all_pronoun_errors(old(errors)@),
    ensures
        ({
            let (s2, cur2, e) = resolve_statement(s@, opt_view(cur), variables_view(vars@).to_set());
            &&& r.0@ == s2
            &&& opt_view(r.1) == cur2
            &&& final(errors)@.len() == old(errors)@.len() + e
        }),
        all_pronoun_errors(final(errors)@),
    decreases s,
{
    match s {
        Statement::AssignmentStatement(a, b) => {
            let (a2, b2, c2) = resolve_pair_exec(&a.0, &b.0, cur, pronouns, vars, errors);
            (Statement::AssignmentStatement(Variable(a2), VariableOrNumberLiteral(b2)), c2)
        },
        Statement::AddStatement(a, b) => {
            let (a2, b2, c2) = resolve_pair_exec(&a.0, &b.0, cur, pronouns, vars, errors);
            (Statement::AddStatement(Variable(a2), VariableOrNumberLiteral(b2)), c2)
        },
        Statement::SubStatement(a, b) => {
            let (a2, b2, c2) = resolve_pair_exec(&a.0, &b.0, cur, pronouns, vars, errors);
            (Statement::SubStatement(Variable(a2), VariableOrNumberLiteral(b2)), c2)
        },
        Statement::PrintNumberStatement(a) => {
            let (a2, c1) = resolve_name_exec(&a.0, cur, pronouns, vars, errors);
            (Statement::PrintNumberStatement(Variable(a2)), c1)
        },
        Statement::PrintStringStatement(a) => {
            let (a2, c1) = resolve_name_exec(&a.0, cur, pronouns, vars, errors);
            (Statement::PrintStringStatement(Variable(a2)), c1)
        },
        Statement::InputStatement(a) => {
            let (a2, c1) = resolve_name_exec(&a.0, cur, pronouns, vars, errors);
            (Statement::InputStatement(Variable(a2)), c1)
        },
        Statement::GotoStatement(a) => {
            let (a2, c1) = resolve_name_exec(&a.0, cur, pronouns, vars, errors);
            (Statement::GotoStatement(VariableOrNumberLiteral(a2)), c1)
        },
        Statement::IfStatement(c, inner) => {
            let (c2, c1) = resolve_condition_exec(c, cur, pronouns, vars, errors);
            let (i2, c3) = resolve_statement_exec(inner, c1, pronouns, vars, errors);
            (Statement::IfStatement(c2, Box::new(i2)), c3)
        },
        Statement::ExitStatement => (Statement::ExitStatement, cur),
        Statement::Comment => (Statement::Comment, cur),
    }
}

/// Replaces each pronoun by its antecedent, block by block (the antecedent
/// does not carry over from one block to the next). Gives the new program and
/// one error per pronoun without an antecedent.
pub fn replace_pronouns(ast: &Program, variables: &Vec<IrVariable>) -> (r: (Program, Vec<Error>))
    ensures
        r.0@ == resolve_program(ast@, variables_view(variables@).to_set()),
        r.1.len() == pronoun_errors(ast@, variables_view(variables@).to_set()),
        all_pronoun_errors(r.1@),
{
    let ghost vs = variables_view(variables@).to_set();
    let pronouns = strings_of(
        &[
            "he", "she", "they", "him", "her", "them", "himself", "herself", "themself",
            "themselves",
        ],
    );
    assert(words_view(pronouns@) == pronoun_words());
    let mut errors: Vec<Error> = Vec::new();
    let mut blocks: Vec<Block> = Vec::new();
    let mut i: usize = 0;
    while i < ast.0.len()
        invariant
            i <= ast.0.len(),
            vs == variables_view(variables@).to_set(),
            words_view(pronouns@) == pronoun_words(),
            all_pronoun_errors(errors@),
            errors.len() == pronoun_errors(ast@.take(i as int), vs),
            blocks@.map_values(|b: Block| b@) =~= resolve_program(ast@, vs).take(i as int),
        decreases ast.0.len() - i,
    {
        let block = &ast.0[i];
        assert(ast@[i as int] == block@);
        let ghost b = block@;
        let mut out: Vec<Statement> = Vec::new();
        let mut cur: Option<String> = None;
        let ghost errors_before = errors@.len();
        let mut j: usize = 0;
        while j < block.0.len()
            invariant
                i < ast.0.len(),
                j <= block.0.len(),
                b == block@,
                vs == variables_view(variables@).to_set(),
                words_view(pronouns@) == pronoun_words(),
                all_pronoun_errors(errors@),
                ({
                    let (done, c, e) = resolve_block_state(b.take(j as int), vs);
                    &&& crate::ast::statements_view(out@) =~= done
                    &&& opt_view(cur) == c
                    &&& errors@.len() == errors_before + e
                }),
            decreases block.0.len() - j,
        {
            assert(b[j as int] == block.0@[j as int]@);
            assert(b.take(j + 1).drop_last() =~= b.take(j as int));
            let (s2, c2) = resolve_statement_exec(&block.0[j], cur, &pronouns, variables, &mut errors);
            let ghost before = out@;
            out.push(s2);
            assert(crate::ast::statements_view(out@) =~= crate::ast::statements_view(before).push(
                s2@,
            ));
            cur = c2;
            j += 1;
        }
        assert(b.take(j as int) =~= b);
        let ghost before_blocks = blocks@;
        let nb = Block(out);
        blocks.push(nb);
        assert(blocks@.map_values(|b: Block| b@) =~= before_blocks.map_values(|b: Block| b@).push(
            nb@,
        ));
        assert(ast@.take(i + 1).drop_last() =~= ast@.take(i as int));
        i += 1;
    }
    assert(ast@.take(i as int) =~= ast@);
    (Program(blocks), errors)
}

} // verus!
