use vstd::prelude::*;
use crate::ast::{Program, Statement, StatementModel};
use crate::ir::{variables_view, Variable};

verus! {

/// The variable that a statement names as its subject, looking through `if`s.
pub open spec fn statement_subject(s: StatementModel) -> Option<Seq<char>>
    decreases s,
{
    match s {
        StatementModel::Assignment(v, _) => Some(v),
        StatementModel::Add(v, _) => Some(v),
        StatementModel::Sub(v, _) => Some(v),
        StatementModel::PrintNumber(v) => Some(v),
        StatementModel::PrintString(v) => Some(v),
        StatementModel::Input(v) => Some(v),
        StatementModel::If(_, inner) => statement_subject(*inner),
        _ => None,
    }
}

/// Whether `name` is the subject of some statement of the program: the
/// program's variables.
pub open spec fn is_program_variable(p: Seq<Seq<StatementModel>>, name: Seq<char>) -> bool {
    exists|i: int, j: int|
        0 <= i < p.len() && 0 <= j < p[i].len() && #[trigger] statement_subject(p[i][j]) == Some(
            name,
        )
}

/// The program's variables as a set.
pub open spec fn program_variables(p: Seq<Seq<StatementModel>>) -> Set<Seq<char>> {
    Set::new(|name: Seq<char>| is_program_variable(p, name))
}

fn subject_of(s: &Statement) -> (r: Option<&String>)
    ensures
        match r {
            Some(v) => statement_subject(s@) == Some(v@),
            None => statement_subject(s@) is None,
        },
    decreases s,
{
    match s {
        Statement::AssignmentStatement(v, _) => Some(&v.0),
        Statement::AddStatement(v, _) => Some(&v.0),
        Statement::SubStatement(v, _) => Some(&v.0),
        Statement::PrintNumberStatement(v) => Some(&v.0),
        Statement::PrintStringStatement(v) => Some(&v.0),
        Statement::InputStatement(v) => Some(&v.0),
        Statement::IfStatement(_, inner) => subject_of(inner),
        _ => None,
    }
}

/// Whether `name` is among `vars`.
pub fn contains_variable(vars: &Vec<Variable>, name: &String) -> (r: bool)
    ensures
        r == variables_view(vars@).contains(name@),
{
    let mut i: usize = 0;
    while i < vars.len()
        invariant
            i <= vars.len(),
            forall|j: int| 0 <= j < i ==> variables_view(vars@)[j] != name@,
        decreases vars.len() - i,
    {
        if vars[i].0.eq(name) {
            assert(variables_view(vars@)[i as int] == name@);
            return true;
        }
        i += 1;
    }
    false
}

/// Whether `name` is the subject of a statement before statement `j` of block `i`.
pub open spec fn subject_before(p: Seq<Seq<StatementModel>>, i: int, j: int, name: Seq<char>) -> bool {
    (exists|a: int, b: int|
        0 <= a < i && 0 <= b < p[a].len() && #[trigger] statement_subject(p[a][b]) == Some(name))
        || (exists|b: int| 0 <= b < j && #[trigger] statement_subject(p[i][b]) == Some(name))
}

proof fn lemma_subject_step(p: Seq<Seq<StatementModel>>, i: int, j: int, name: Seq<char>)
    requires
        0 <= i < p.len(),
        0 <= j < p[i].len(),
    ensures
        subject_before(p, i, j + 1, name) <==> (subject_before(p, i, j, name) || statement_subject(
            p[i][j],
        ) == Some(name)),
{
    if subject_before(p, i, j + 1, name) && !(exists|a: int, b: int|
        0 <= a < i && 0 <= b < p[a].len() && #[trigger] statement_subject(p[a][b]) == Some(name)) {
        let b = choose|b: int| 0 <= b < j + 1 && #[trigger] statement_subject(p[i][b]) == Some(name);
        if b < j {
            assert(subject_before(p, i, j, name));
        }
    }
    if statement_subject(p[i][j]) == Some(name) {
        assert(exists|b: int| 0 <= b < j + 1 && #[trigger] statement_subject(p[i][b]) == Some(name));
    }
}

proof fn lemma_subject_next_block(p: Seq<Seq<StatementModel>>, i: int, name: Seq<char>)
    requires
        0 <= i < p.len(),
    ensures
        subject_before(p, i, p[i].len() as int, name) <==> subject_before(p, i + 1, 0, name),
{
    if subject_before(p, i, p[i].len() as int, name) {
        if exists|b: int| 0 <= b < p[i].len() && #[trigger] statement_subject(p[i][b]) == Some(name) {
            let b = choose|b: int| 0 <= b < p[i].len() && #[trigger] statement_subject(p[i][b]) == Some(name);
            assert(0 <= i < i + 1 && 0 <= b < p[i].len() && statement_subject(p[i][b]) == Some(name));
        }
    }
    if subject_before(p, i + 1, 0, name) {
        let (a, b) = choose|a: int, b: int|
            0 <= a < i + 1 && 0 <= b < p[a].len() && #[trigger] statement_subject(p[a][b]) == Some(name);
        if a == i {
            assert(exists|b: int| 0 <= b < p[i].len() && #[trigger] statement_subject(p[i][b]) == Some(name));
        } else {
            assert(exists|a: int, b: int|
                0 <= a < i && 0 <= b < p[a].len() && #[trigger] statement_subject(p[a][b]) == Some(name));
        }
    }
}

/// The variables of a program: the subject of every assignment, addition,
/// subtraction, print and input statement, also inside `if`s, each once.
pub fn get_variables(ast: &Program) -> (r: Vec<Variable>)
    ensures
        variables_view(r@).no_duplicates(),
        forall|name: Seq<char>|
            #[trigger] variables_view(r@).contains(name) <==> is_program_variable(ast@, name),
        variables_view(r@).to_set() == program_variables(ast@),
{
    let ghost p = ast@;
    let mut vars: Vec<Variable> = Vec::new();
    let mut i: usize = 0;
    while i < ast.0.len()
        invariant
            i <= ast.0.len(),
            p == ast@,
            variables_view(vars@).no_duplicates(),
            forall|name: Seq<char>|
                #[trigger] variables_view(vars@).contains(name) <==> subject_before(p, i as int, 0, name),
        decreases ast.0.len() - i,
    {
        let block = &ast.0[i];
        assert(p[i as int] == block@);
        let mut j: usize = 0;
        while j < block.0.len()
            invariant
                i < ast.0.len(),
                j <= block.0.len(),
                p == ast@,
                p[i as int] == block@,
                variables_view(vars@).no_duplicates(),
                forall|name: Seq<char>|
                    #[trigger] variables_view(vars@).contains(name) <==> subject_before(p, i as int, j as int, name),
            decreases block.0.len() - j,
        {
            assert(p[i as int][j as int] == block.0@[j as int]@);
            let ghost before = vars@;
            let ghost subject = statement_subject(p[i as int][j as int]);
            if let Some(name) = subject_of(&block.0[j]) {
                if !contains_variable(&vars, name) {
                    vars.push(Variable(name.clone()));
                    assert(variables_view(vars@) =~= variables_view(before).push(name@));
                    assert forall|x: int, y: int|
                        0 <= x < y < variables_view(vars@).len() implies variables_view(vars@)[x]
                        != variables_view(vars@)[y] by {
                        if y == variables_view(before).len() {
                            assert(variables_view(before).contains(variables_view(before)[x]));
                        }
                    }
                    assert forall|name2: Seq<char>|
                        #[trigger] variables_view(vars@).contains(name2) == (variables_view(
                            before,
                        ).contains(name2) || name2 == name@) by {
                        if variables_view(vars@).contains(name2) {
                            let k = choose|k: int|
                                0 <= k < variables_view(vars@).len() && variables_view(vars@)[k]
                                    == name2;
                            if k < variables_view(before).len() {
                                assert(variables_view(before)[k] == name2);
                            }
                        }
                        if variables_view(before).contains(name2) {
                            let k = choose|k: int|
                                0 <= k < variables_view(before).len() && variables_view(before)[k]
                                    == name2;
                            assert(variables_view(vars@)[k] == name2);
                        }
                        if name2 == name@ {
                            assert(variables_view(vars@)[variables_view(before).len() as int] == name@);
                        }
                    }
                }
            }
            assert forall|name2: Seq<char>|
                #[trigger] variables_view(vars@).contains(name2) <==> subject_before(p, i as int, j + 1, name2) by {
                lemma_subject_step(p, i as int, j as int, name2);
            }
            j += 1;
        }
        assert forall|name2: Seq<char>|
            #[trigger] variables_view(vars@).contains(name2) <==> subject_before(p, i + 1, 0, name2) by {
            lemma_subject_next_block(p, i as int, name2);
        }
        i += 1;
    }
    assert(variables_view(vars@).to_set() =~= program_variables(ast@));
    vars
}

} // verus!
