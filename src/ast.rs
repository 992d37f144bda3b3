use vstd::prelude::*;

verus! {

/// A variable named in a statement, by its normalized name.
#[derive(Debug, PartialEq)]
pub struct Variable(pub String);

/// A value named in a statement: a variable or a poetic number literal, told
/// apart only once every variable of the program is known.
#[derive(Debug, PartialEq)]
pub struct VariableOrNumberLiteral(pub String);

#[derive(Debug, PartialEq)]
pub enum Condition {
    EqualTo(VariableOrNumberLiteral, VariableOrNumberLiteral),
    NotEqualTo(VariableOrNumberLiteral, VariableOrNumberLiteral),
    GreaterThan(VariableOrNumberLiteral, VariableOrNumberLiteral),
    LessThan(VariableOrNumberLiteral, VariableOrNumberLiteral),
    GreaterThanOrEqualTo(VariableOrNumberLiteral, VariableOrNumberLiteral),
    LessThanOrEqualTo(VariableOrNumberLiteral, VariableOrNumberLiteral),
}

#[derive(Debug, PartialEq)]
pub enum Statement {
    AssignmentStatement(Variable, VariableOrNumberLiteral),
    AddStatement(Variable, VariableOrNumberLiteral),
    SubStatement(Variable, VariableOrNumberLiteral),
    PrintNumberStatement(Variable),
    PrintStringStatement(Variable),
    InputStatement(Variable),
    ExitStatement,
    GotoStatement(VariableOrNumberLiteral),
    IfStatement(Condition, Box<Statement>),
    Comment,
}

/// The statements of one paragraph.
#[derive(Debug, PartialEq)]
pub struct Block(pub Vec<Statement>);

/// The paragraphs of a program.
#[derive(Debug, PartialEq)]
pub struct Program(pub Vec<Block>);

pub enum ConditionModel {
    EqualTo(Seq<char>, Seq<char>),
    NotEqualTo(Seq<char>, Seq<char>),
    GreaterThan(Seq<char>, Seq<char>),
    LessThan(Seq<char>, Seq<char>),
    GreaterThanOrEqualTo(Seq<char>, Seq<char>),
    LessThanOrEqualTo(Seq<char>, Seq<char>),
}

pub enum StatementModel {
    Assignment(Seq<char>, Seq<char>),
    Add(Seq<char>, Seq<char>),
    Sub(Seq<char>, Seq<char>),
    PrintNumber(Seq<char>),
    PrintString(Seq<char>),
    Input(Seq<char>),
    Exit,
    Goto(Seq<char>),
    If(ConditionModel, Box<StatementModel>),
    Comment,
}

impl View for Condition {
    type V = ConditionModel;

    open spec fn view(&self) -> ConditionModel {
        match self {
            Condition::EqualTo(a, b) => ConditionModel::EqualTo(a.0@, b.0@),
            Condition::NotEqualTo(a, b) => ConditionModel::NotEqualTo(a.0@, b.0@),
            Condition::GreaterThan(a, b) => ConditionModel::GreaterThan(a.0@, b.0@),
            Condition::LessThan(a, b) => ConditionModel::LessThan(a.0@, b.0@),
            Condition::GreaterThanOrEqualTo(a, b) => ConditionModel::GreaterThanOrEqualTo(
                a.0@,
                b.0@,
            ),
            Condition::LessThanOrEqualTo(a, b) => ConditionModel::LessThanOrEqualTo(a.0@, b.0@),
        }
    }
}

pub open spec fn statement_view(s: Statement) -> StatementModel
    decreases s,
{
    match s {
        Statement::AssignmentStatement(a, b) => StatementModel::Assignment(a.0@, b.0@),
        Statement::AddStatement(a, b) => StatementModel::Add(a.0@, b.0@),
        Statement::SubStatement(a, b) => StatementModel::Sub(a.0@, b.0@),
        Statement::PrintNumberStatement(a) => StatementModel::PrintNumber(a.0@),
        Statement::PrintStringStatement(a) => StatementModel::PrintString(a.0@),
        Statement::InputStatement(a) => StatementModel::Input(a.0@),
        Statement::ExitStatement => StatementModel::Exit,
        Statement::GotoStatement(a) => StatementModel::Goto(a.0@),
        Statement::IfStatement(c, inner) => StatementModel::If(
            c@,
            Box::new(statement_view(*inner)),
        ),
        Statement::Comment => StatementModel::Comment,
    }
}

impl View for Statement {
    type V = StatementModel;

    open spec fn view(&self) -> StatementModel {
        statement_view(*self)
    }
}

pub open spec fn statements_view(v: Seq<Statement>) -> Seq<StatementModel> {
    v.map_values(|s: Statement| s@)
}

impl View for Block {
    type V = Seq<StatementModel>;

    open spec fn view(&self) -> Seq<StatementModel> {
        statements_view(self.0@)
    }
}

impl View for Program {
    type V = Seq<Seq<StatementModel>>;

    open spec fn view(&self) -> Seq<Seq<StatementModel>> {
        self.0@.map_values(|b: Block| b@)
    }
}

/// Something of the syntax tree that carries a name.
pub trait ASTExpression: Sized {
    spec fn name_of(&self) -> Seq<char>;

    fn get_name(self) -> (r: String)
        ensures
            r@ == self.name_of(),
    ;
}

impl ASTExpression for Variable {
    open spec fn name_of(&self) -> Seq<char> {
        self.0@
    }

    fn get_name(self) -> (r: String) {
        self.0
    }
}

impl ASTExpression for VariableOrNumberLiteral {
    open spec fn name_of(&self) -> Seq<char> {
        self.0@
    }

    fn get_name(self) -> (r: String) {
        self.0
    }
}

} // verus!
