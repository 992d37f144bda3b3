use vstd::prelude::*;
use crate::number::{decimal_text, Number};

verus! {

/// A variable of the lowered program, by name.
#[derive(Debug, PartialEq, Eq, Hash)]
pub struct Variable(pub String);

#[derive(Debug, PartialEq, Eq)]
pub enum Expression {
    NumberLiteral(Number),
    Variable(String),
}

#[derive(Debug, PartialEq, Eq)]
pub enum Condition {
    EqualTo(Expression, Expression),
    NotEqualTo(Expression, Expression),
    GreaterThan(Expression, Expression),
    LessThan(Expression, Expression),
    GreaterThanOrEqualTo(Expression, Expression),
    LessThanOrEqualTo(Expression, Expression),
}

/// One instruction of the lowered program. `Label(i)` marks the start of
/// paragraph `i`, the only place a jump can go.
#[derive(Debug, PartialEq, Eq)]
pub enum Instruction {
    AssignmentInstruction(Variable, Expression),
    AddInstruction(Variable, Expression),
    SubInstruction(Variable, Expression),
    PrintNumberInstruction(Variable),
    PrintCharacterInstruction(Variable),
    InputInstruction(Variable),
    ExitInstruction,
    GotoInstruction(Expression),
    IfInstruction(Condition, Box<Instruction>),
    Label(usize),
}

pub enum ExprModel {
    NumberLiteral(nat),
    Variable(Seq<char>),
}

pub enum CondModel {
    EqualTo(ExprModel, ExprModel),
    NotEqualTo(ExprModel, ExprModel),
    GreaterThan(ExprModel, ExprModel),
    LessThan(ExprModel, ExprModel),
    GreaterThanOrEqualTo(ExprModel, ExprModel),
    LessThanOrEqualTo(ExprModel, ExprModel),
}

pub enum InstrModel {
    Assignment(Seq<char>, ExprModel),
    Add(Seq<char>, ExprModel),
    Sub(Seq<char>, ExprModel),
    PrintNumber(Seq<char>),
    PrintCharacter(Seq<char>),
    Input(Seq<char>),
    Exit,
    Goto(ExprModel),
    If(CondModel, Box<InstrModel>),
    Label(nat),
}

impl View for Expression {
    type V = ExprModel;

    open spec fn view(&self) -> ExprModel {
        match self {
            Expression::NumberLiteral(n) => ExprModel::NumberLiteral(n@),
            Expression::Variable(v) => ExprModel::Variable(v@),
        }
    }
}

impl Expression {
    pub open spec fn wf(&self) -> bool {
        match self {
            Expression::NumberLiteral(n) => n.wf(),
            Expression::Variable(_) => true,
        }
    }
}

impl View for Condition {
    type V = CondModel;

    open spec fn view(&self) -> CondModel {
        match self {
            Condition::EqualTo(a, b) => CondModel::EqualTo(a@, b@),
            Condition::NotEqualTo(a, b) => CondModel::NotEqualTo(a@, b@),
            Condition::GreaterThan(a, b) => CondModel::GreaterThan(a@, b@),
            Condition::LessThan(a, b) => CondModel::LessThan(a@, b@),
            Condition::GreaterThanOrEqualTo(a, b) => CondModel::GreaterThanOrEqualTo(a@, b@),
            Condition::LessThanOrEqualTo(a, b) => CondModel::LessThanOrEqualTo(a@, b@),
        }
    }
}

impl Condition {
    pub open spec fn wf(&self) -> bool {
        match self {
            Condition::EqualTo(a, b) => a.wf() && b.wf(),
            Condition::NotEqualTo(a, b) => a.wf() && b.wf(),
            Condition::GreaterThan(a, b) => a.wf() && b.wf(),
            Condition::LessThan(a, b) => a.wf() && b.wf(),
            Condition::GreaterThanOrEqualTo(a, b) => a.wf() && b.wf(),
            Condition::LessThanOrEqualTo(a, b) => a.wf() && b.wf(),
        }
    }
}

pub open spec fn instruction_view(i: Instruction) -> InstrModel
    decreases i,
{
    match i {
        Instruction::AssignmentInstruction(v, e) => InstrModel::Assignment(v.0@, e@),
        Instruction::AddInstruction(v, e) => InstrModel::Add(v.0@, e@),
        Instruction::SubInstruction(v, e) => InstrModel::Sub(v.0@, e@),
        Instruction::PrintNumberInstruction(v) => InstrModel::PrintNumber(v.0@),
        Instruction::PrintCharacterInstruction(v) => InstrModel::PrintCharacter(v.0@),
        Instruction::InputInstruction(v) => InstrModel::Input(v.0@),
        Instruction::ExitInstruction => InstrModel::Exit,
        Instruction::GotoInstruction(e) => InstrModel::Goto(e@),
        Instruction::IfInstruction(c, inner) => InstrModel::If(
            c@,
            Box::new(instruction_view(*inner)),
        ),
        Instruction::Label(n) => InstrModel::Label(n as nat),
    }
}

/// Every number literal in the instruction is well formed.
pub open spec fn instruction_wf(i: Instruction) -> bool
    decreases i,
{
    match i {
        Instruction::AssignmentInstruction(_, e) => e.wf(),
        Instruction::AddInstruction(_, e) => e.wf(),
        Instruction::SubInstruction(_, e) => e.wf(),
        Instruction::GotoInstruction(e) => e.wf(),
        Instruction::IfInstruction(c, inner) => c.wf() && instruction_wf(*inner),
        _ => true,
    }
}

impl View for Instruction {
    type V = InstrModel;

    open spec fn view(&self) -> InstrModel {
        instruction_view(*self)
    }
}

pub open spec fn instructions_view(v: Seq<Instruction>) -> Seq<InstrModel> {
    v.map_values(|i: Instruction| i@)
}

pub open spec fn program_wf(v: Seq<Instruction>) -> bool {
    forall|i: int| 0 <= i < v.len() ==> instruction_wf(#[trigger] v[i])
}

pub open spec fn variables_view(v: Seq<Variable>) -> Seq<Seq<char>> {
    v.map_values(|x: Variable| x.0@)
}

pub open spec fn expr_text(e: ExprModel) -> Seq<char> {
    match e {
        ExprModel::NumberLiteral(n) => decimal_text(n),
        ExprModel::Variable(v) => v,
    }
}

pub open spec fn cond_text(c: CondModel) -> Seq<char> {
    match c {
        CondModel::EqualTo(a, b) => expr_text(a) + " == "@ + expr_text(b),
        CondModel::NotEqualTo(a, b) => expr_text(a) + " != "@ + expr_text(b),
        CondModel::GreaterThan(a, b) => expr_text(a) + " > "@ + expr_text(b),
        CondModel::LessThan(a, b) => expr_text(a) + " < "@ + expr_text(b),
        CondModel::GreaterThanOrEqualTo(a, b) => expr_text(a) + " >= "@ + expr_text(b),
        CondModel::LessThanOrEqualTo(a, b) => expr_text(a) + " <= "@ + expr_text(b),
    }
}

/// An instruction as one line of readable text.
pub open spec fn instr_text(i: InstrModel) -> Seq<char>
    decreases i,
{
    match i {
        InstrModel::Assignment(v, e) => v + " = "@ + expr_text(e),
        InstrModel::Add(v, e) => v + " += "@ + expr_text(e),
        InstrModel::Sub(v, e) => v + " -= "@ + expr_text(e),
        InstrModel::PrintNumber(v) => "print "@ + v,
        InstrModel::PrintCharacter(v) => "printc "@ + v,
        InstrModel::Input(v) => "input "@ + v,
        InstrModel::Exit => "exit"@,
        InstrModel::Goto(e) => "goto "@ + expr_text(e),
        InstrModel::If(c, inner) => "if "@ + cond_text(c) + " "@ + instr_text(*inner),
        InstrModel::Label(n) => "label "@ + decimal_text(n) + ":"@,
    }
}

fn joined(a: String, sep: &str, b: String) -> (r: String)
    ensures
        r@ == a@ + sep@ + b@,
{
    let mut r = a;
    r.append(sep);
    r.append(b.as_str());
    r
}

impl Expression {
    /// The number in decimal, or the variable's name.
    pub fn to_text(&self) -> (r: String)
        requires
            self.wf(),
        ensures
            r@ == expr_text(self@),
    {
        match self {
            Expression::NumberLiteral(n) => n.to_decimal_string(),
            Expression::Variable(v) => v.clone(),
        }
    }
}

impl Condition {
    /// The comparison written with C-like operators.
    pub fn to_text(&self) -> (r: String)
        requires
            self.wf(),
        ensures
            r@ == cond_text(self@),
    {
        match self {
            Condition::EqualTo(a, b) => joined(a.to_text(), " == ", b.to_text()),
            Condition::NotEqualTo(a, b) => joined(a.to_text(), " != ", b.to_text()),
            Condition::GreaterThan(a, b) => joined(a.to_text(), " > ", b.to_text()),
            Condition::LessThan(a, b) => joined(a.to_text(), " < ", b.to_text()),
            Condition::GreaterThanOrEqualTo(a, b) => joined(a.to_text(), " >= ", b.to_text()),
            Condition::LessThanOrEqualTo(a, b) => joined(a.to_text(), " <= ", b.to_text()),
        }
    }
}

impl Instruction {
    /// The instruction as one line of readable text.
    pub fn to_text(&self) -> (r: String)
        requires
            instruction_wf(*self),
        ensures
            r@ == instr_text(self@),
        decreases self,
    {
        match self {
            Instruction::AssignmentInstruction(v, e) => joined(v.0.clone(), " = ", e.to_text()),
            Instruction::AddInstruction(v, e) => joined(v.0.clone(), " += ", e.to_text()),
            Instruction::SubInstruction(v, e) => joined(v.0.clone(), " -= ", e.to_text()),
            Instruction::PrintNumberInstruction(v) => joined(String::new(), "print ", v.0.clone()),
            Instruction::PrintCharacterInstruction(v) => joined(String::new(), "printc ", v.0.clone()),
            Instruction::InputInstruction(v) => joined(String::new(), "input ", v.0.clone()),
            Instruction::ExitInstruction => String::from_str("exit"),
            Instruction::GotoInstruction(e) => joined(String::new(), "goto ", e.to_text()),
            Instruction::IfInstruction(c, inner) => {
                let head = joined(String::new(), "if ", c.to_text());
                joined(head, " ", inner.to_text())
            },
            Instruction::Label(n) => {
                let num = Number::from_u64(*n as u64).to_decimal_string();
                joined(joined(String::new(), "label ", num), ":", String::new())
            },
        }
    }
}

} // verus!
