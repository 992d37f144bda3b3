use vstd::prelude::*;
use crate::chars::push_char;
use crate::errors::{label_not_found, label_not_found_model, variable_not_found, variable_not_found_model, Error};
use crate::ir::{instruction_wf, instructions_view, program_wf, CondModel, Condition, ExprModel, Expression, InstrModel, Instruction};
use crate::number::{all_digits, digits_value, lemma_positive, lemma_value_append, pow10, strip_leading_zeros, Number};

verus! {

/// The characters a number stands for: its base-1000 digits, most significant
/// first, each taken modulo 128 as a character code.
pub open spec fn char_text(n: nat) -> Seq<char>
    decreases n,
{
    if n == 0 {
        Seq::empty()
    } else {
        char_text(n / 1000).push((((n % 1000) % 128) as u32) as char)
    }
}

/// The number that a line of input stands for: each character's low byte is a
/// base-1000 digit, the first character the most significant.
pub open spec fn input_value(s: Seq<char>) -> nat
    decreases s.len(),
{
    if s.len() == 0 {
        0
    } else {
        input_value(s.drop_last()) * 1000 + ((s.last() as u32) % 256) as nat
    }
}

/// Renders a number as text, three decimal digits per character.
pub fn number_to_string(value: &Number) -> (r: String)
    requires
        value.wf(),
    ensures
        r@ == char_text(value@),
{
    let d = &value.digits;
    let n = d.len();
    let mut r = String::new();
    let mut j: usize = 0;
    assert(d@.subrange(0, 0) =~= Seq::<u8>::empty());
    assert(digits_value(Seq::<u8>::empty()) == 0);
    while j < n
        invariant
            n == d.len(),
            d@ == value.digits@,
            value.wf(),
            j <= n,
            j == 0 || (n - j) % 3 == 0,
            r@ == char_text(digits_value(d@.subrange(0, j as int))),
            j > 0 ==> digits_value(d@.subrange(0, j as int)) > 0,
        decreases n - j,
    {
        let next = if j == 0 && n % 3 != 0 {
            n % 3
        } else {
            j + 3
        };
        let mut gv: u32 = 0;
        let mut k = j;
        assert(d@.subrange(j as int, j as int) =~= Seq::<u8>::empty());
        while k < next
            invariant
                j <= k <= next <= n,
                next - j <= 3,
                n == d.len(),
                d@ == value.digits@,
                value.wf(),
                gv as nat == digits_value(d@.subrange(j as int, k as int)),
                gv < pow10((k - j) as nat),
            decreases next - k,
        {
            let dk = d[k];
            assert(d@[k as int] < 10);
            assert(d@.subrange(j as int, k + 1).drop_last() =~= d@.subrange(j as int, k as int));
            assert(pow10((k + 1 - j) as nat) == 10 * pow10((k - j) as nat));
            assert(pow10((k - j) as nat) <= 100) by {
                assert(pow10(0) == 1);
                assert(pow10(1) == 10);
                assert(pow10(2) == 100);
            }
            assert(gv * 10 + dk < 10 * pow10((k - j) as nat)) by (nonlinear_arith)
                requires gv < pow10((k - j) as nat), dk < 10;
            gv = gv * 10 + dk as u32;
            k += 1;
        }
        proof {
            let a = d@.subrange(0, j as int);
            let b = d@.subrange(j as int, next as int);
            lemma_value_append(a, b);
            assert(a + b =~= d@.subrange(0, next as int));
            assert(pow10(3) == 1000) by {
                assert(pow10(0) == 1);
                assert(pow10(1) == 10);
                assert(pow10(2) == 100);
            }
            assert(pow10((next - j) as nat) <= 1000) by {
                assert(pow10(0) == 1);
                assert(pow10(1) == 10);
                assert(pow10(2) == 100);
            }
            let pv = digits_value(a);
            let nv = digits_value(d@.subrange(0, next as int));
            if j == 0 {
                assert(pv == 0);
                assert(b[0] == d@[0]);
                assert(all_digits(b)) by {
                    assert forall|i: int| 0 <= i < b.len() implies #[trigger] b[i] < 10 by {
                        assert(b[i] == d@[j + i]);
                    }
                }
                lemma_positive(b);
                assert(nv == gv);
                assert(nv / 1000 == 0);
                assert(nv % 1000 == nv);
            } else {
                assert(next - j == 3);
                assert(nv == pv * 1000 + gv);
                assert((pv * 1000 + gv) / 1000 == pv) by (nonlinear_arith)
                    requires gv < 1000;
                assert((pv * 1000 + gv) % 1000 == gv) by (nonlinear_arith)
                    requires gv < 1000;
                assert(nv > 0) by (nonlinear_arith)
                    requires nv == pv * 1000 + gv, pv > 0;
            }
        }
        push_char(&mut r, ((gv % 128) as u8) as char);
        j = next;
    }
    assert(d@.subrange(0, n as int) =~= d@);
    r
}

/// Reads a line of input as a number: each character's low byte is a
/// base-1000 digit, the first character the most significant.
pub fn string_to_number(input: &str) -> (r: Number)
    ensures
        r.wf(),
        r@ == input_value(input@),
{
    let mut raw: Vec<u8> = Vec::new();
    let ghost mut seen: Seq<char> = Seq::empty();
    assert(digits_value(Seq::<u8>::empty()) == 0);
    for c in it: input.chars()
        invariant
            it.seq() == input@,
            seen == it.seq().take(it.index() as int),
            all_digits(raw@),
            digits_value(raw@) == input_value(seen),
    {
        proof {
            assert(seen.push(c).drop_last() == seen);
        }
        let b = (c as u32) % 256;
        let x = (b / 100) as u8;
        let y = ((b / 10) % 10) as u8;
        let z = (b % 10) as u8;
        let ghost r0 = raw@;
        raw.push(x);
        raw.push(y);
        raw.push(z);
        proof {
            assert(raw@.drop_last() =~= r0.push(x).push(y));
            assert(r0.push(x).push(y).drop_last() =~= r0.push(x));
            assert(r0.push(x).drop_last() =~= r0);
            let v = digits_value(r0);
            assert(digits_value(r0.push(x)) == v * 10 + x);
            assert(digits_value(r0.push(x).push(y)) == (v * 10 + x) * 10 + y);
            assert(digits_value(raw@) == ((v * 10 + x) * 10 + y) * 10 + z);
            assert(((v * 10 + x) * 10 + y) * 10 + z == v * 1000 + (100 * x + 10 * y + z))
                by (nonlinear_arith);
            assert(100 * (b / 100) + 10 * ((b / 10) % 10) + b % 10 == b) by (nonlinear_arith)
                requires b < 256;
            seen = seen.push(c);
            assert(seen == it.seq().take(it.index() as int + 1));
        }
    }
    assert(seen =~= input@);
    strip_leading_zeros(&raw)
}

/// What the driver of a machine does after a step.
pub enum Action {
    /// Nothing to do: step again.
    Continue,
    /// Write this text to the output, then step again.
    Print(String),
    /// Read a line, hand it to `accept_input` for this variable, then step again.
    ReadInput(String),
    /// The program has ended.
    Halt,
    /// The program has stopped on an error.
    Fail(Error),
}

pub enum ActionModel {
    Continue,
    Print(Seq<char>),
    ReadInput(Seq<char>),
    Halt,
    Fail((Seq<char>, Seq<char>)),
}

impl View for Action {
    type V = ActionModel;

    open spec fn view(&self) -> ActionModel {
        match self {
            Action::Continue => ActionModel::Continue,
            Action::Print(s) => ActionModel::Print(s@),
            Action::ReadInput(s) => ActionModel::ReadInput(s@),
            Action::Halt => ActionModel::Halt,
            Action::Fail(e) => ActionModel::Fail(e@),
        }
    }
}

pub open spec fn expr_value(e: ExprModel, store: Map<Seq<char>, nat>) -> Option<nat> {
    match e {
        ExprModel::NumberLiteral(n) => Some(n),
        ExprModel::Variable(v) => if store.contains_key(v) {
            Some(store[v])
        } else {
            None
        },
    }
}

pub open spec fn expr_name(e: ExprModel) -> Seq<char> {
    match e {
        ExprModel::Variable(v) => v,
        _ => Seq::empty(),
    }
}

/// Compares two operands; `Err` names the first operand that has no value.
pub open spec fn compare_operands(a: ExprModel, b: ExprModel, store: Map<Seq<char>, nat>, rel: spec_fn(nat, nat) -> bool) -> Result<bool, Seq<char>> {
    match expr_value(a, store) {
        Some(x) => match expr_value(b, store) {
            Some(y) => Ok(rel(x, y)),
            None => Err(expr_name(b)),
        },
        None => Err(expr_name(a)),
    }
}

pub open spec fn condition_holds(c: CondModel, store: Map<Seq<char>, nat>) -> Result<bool, Seq<char>> {
    match c {
        CondModel::EqualTo(a, b) => compare_operands(a, b, store, |x: nat, y: nat| x == y),
        CondModel::NotEqualTo(a, b) => compare_operands(a, b, store, |x: nat, y: nat| x != y),
        CondModel::GreaterThan(a, b) => compare_operands(a, b, store, |x: nat, y: nat| x > y),
        CondModel::LessThan(a, b) => compare_operands(a, b, store, |x: nat, y: nat| x < y),
        CondModel::GreaterThanOrEqualTo(a, b) => compare_operands(a, b, store, |x: nat, y: nat| x >= y),
        CondModel::LessThanOrEqualTo(a, b) => compare_operands(a, b, store, |x: nat, y: nat| x <= y),
    }
}

pub open spec fn label_from(ir: Seq<InstrModel>, v: nat, k: int) -> Option<nat>
    decreases ir.len() - k,
{
    if k < 0 || k >= ir.len() {
        None
    } else if ir[k] == InstrModel::Label(v) {
        Some(k as nat)
    } else {
        label_from(ir, v, k + 1)
    }
}

/// The position of the first `Label(v)` of the program.
pub open spec fn label_index(ir: Seq<InstrModel>, v: nat) -> Option<nat> {
    label_from(ir, v, 0)
}

pub open spec fn monus(x: nat, y: nat) -> nat {
    if x >= y {
        (x - y) as nat
    } else {
        0
    }
}

/// Runs one instruction at position `pc`: gives the next position, the new
/// variable values and what the driver has to do.
pub open spec fn run_instruction(ir: Seq<InstrModel>, i: InstrModel, pc: nat, store: Map<Seq<char>, nat>) -> (nat, Map<Seq<char>, nat>, ActionModel)
    decreases i,
{
    let fail = |name: Seq<char>| (pc, store, ActionModel::Fail(variable_not_found_model(name)));
    match i {
        InstrModel::Assignment(v, e) => match expr_value(e, store) {
            Some(x) => (pc + 1, store.insert(v, x), ActionModel::Continue),
            None => fail(expr_name(e)),
        },
        InstrModel::Add(v, e) => if !store.contains_key(v) {
            fail(v)
        } else {
            match expr_value(e, store) {
                Some(x) => (pc + 1, store.insert(v, store[v] + x), ActionModel::Continue),
                None => fail(expr_name(e)),
            }
        },
        InstrModel::Sub(v, e) => if !store.contains_key(v) {
            fail(v)
        } else {
            match expr_value(e, store) {
                Some(x) => (pc + 1, store.insert(v, monus(store[v], x)), ActionModel::Continue),
                None => fail(expr_name(e)),
            }
        },
        InstrModel::PrintNumber(v) => if store.contains_key(v) {
            (pc + 1, store, ActionModel::Print(crate::number::decimal_text(store[v])))
        } else {
            fail(v)
        },
        InstrModel::PrintCharacter(v) => if store.contains_key(v) {
            (pc + 1, store, ActionModel::Print(char_text(store[v])))
        } else {
            fail(v)
        },
        InstrModel::Input(v) => (pc + 1, store, ActionModel::ReadInput(v)),
        InstrModel::Exit => (pc, store, ActionModel::Halt),
        InstrModel::Goto(e) => match expr_value(e, store) {
            Some(x) => match label_index(ir, x) {
                Some(k) => (k, store, ActionModel::Continue),
                None => (pc, store, ActionModel::Fail(label_not_found_model())),
            },
            None => fail(expr_name(e)),
        },
        InstrModel::If(c, inner) => match condition_holds(c, store) {
            Ok(true) => run_instruction(ir, *inner, pc, store),
            Ok(false) => (pc + 1, store, ActionModel::Continue),
            Err(name) => fail(name),
        },
        InstrModel::Label(_) => (pc + 1, store, ActionModel::Continue),
    }
}

/// One step of the program: past its end it halts.
pub open spec fn step_spec(ir: Seq<InstrModel>, pc: nat, store: Map<Seq<char>, nat>) -> (nat, Map<Seq<char>, nat>, ActionModel) {
    if pc >= ir.len() {
        (pc, store, ActionModel::Halt)
    } else {
        run_instruction(ir, ir[pc as int], pc, store)
    }
}

/// The state of a running program: where it stands and the values of its variables.
pub struct Machine {
    pc: usize,
    names: Vec<String>,
    values: Vec<Number>,
}

pub open spec fn index_of(s: Seq<Seq<char>>, n: Seq<char>) -> int {
    choose|i: int| 0 <= i < s.len() && s[i] == n
}

proof fn lemma_index_of(s: Seq<Seq<char>>, i: int)
    requires
        s.no_duplicates(),
        0 <= i < s.len(),
    ensures
        index_of(s, s[i]) == i,
{
    let j = index_of(s, s[i]);
    assert(0 <= j < s.len() && s[j] == s[i]);
}

impl Machine {
    pub closed spec fn names_view(&self) -> Seq<Seq<char>> {
        self.names@.map_values(|s: String| s@)
    }

    pub closed spec fn wf(&self) -> bool {
        &&& self.names@.len() == self.values@.len()
        &&& self.names_view().no_duplicates()
        &&& forall|i: int| 0 <= i < self.values@.len() ==> (#[trigger] self.values@[i]).wf()
    }

    pub closed spec fn pc(&self) -> nat {
        self.pc as nat
    }

    /// The values of the variables that have one.
    pub closed spec fn store(&self) -> Map<Seq<char>, nat> {
        Map::new(
            |n: Seq<char>| self.names_view().contains(n),
            |n: Seq<char>| self.values@[index_of(self.names_view(), n)]@,
        )
    }

    /// A machine at the start of a program, with no variable set.
    pub fn new() -> (r: Machine)
        ensures
            r.wf(),
            r.pc() == 0,
            r.store() == Map::<Seq<char>, nat>::empty(),
    {
        let r = Machine { pc: 0, names: Vec::new(), values: Vec::new() };
        assert(r.names_view() =~= Seq::<Seq<char>>::empty());
        assert(r.store() =~= Map::<Seq<char>, nat>::empty());
        r
    }

    fn find(&self, name: &String) -> (r: Option<usize>)
        requires
            self.wf(),
        ensures
            match r {
                Some(i) => i < self.names@.len() && self.names_view()[i as int] == name@ && index_of(
                    self.names_view(),
                    name@,
                ) == i,
                None => !self.names_view().contains(name@),
            },
    {
        let mut i: usize = 0;
        while i < self.names.len()
            invariant
                i <= self.names.len(),
                self.wf(),
                forall|j: int| 0 <= j < i ==> self.names_view()[j] != name@,
            decreases self.names.len() - i,
        {
            if self.names[i].eq(name) {
                proof {
                    assert(self.names_view()[i as int] == name@);
                    lemma_index_of(self.names_view(), i as int);
                }
                return Some(i);
            }
            i += 1;
        }
        None
    }

    fn get(&self, name: &String) -> (r: Option<&Number>)
        requires
            self.wf(),
        ensures
            match r {
                Some(v) => self.store().contains_key(name@) && v@ == self.store()[name@] && v.wf(),
                None => !self.store().contains_key(name@),
            },
    {
        match self.find(name) {
            Some(i) => Some(&self.values[i]),
            None => None,
        }
    }

    fn set(&mut self, name: &String, value: Number)
        requires
            old(self).wf(),
            value.wf(),
        ensures
            final(self).wf(),
            final(self).pc == old(self).pc,
            final(self).store() == old(self).store().insert(name@, value@),
    {
        let ghost old_store = self.store();
        let ghost old_names = self.names_view();
        match self.find(name) {
            Some(i) => {
                let ghost v = value@;
                self.values.set(i, value);
                assert(self.names_view() == old_names);
                assert forall|n: Seq<char>| #[trigger] self.store().contains_key(n) implies self.store()[n]
                    == old_store.insert(name@, v)[n] by {
                    let k = index_of(old_names, n);
                    assert(0 <= k < old_names.len() && old_names[k] == n);
                    if n != name@ {
                        assert(k != i);
                    }
                }
                assert(self.store() =~= old_store.insert(name@, v));
            },
            None => {
                let ghost v = value@;
                self.names.push(name.clone());
                self.values.push(value);
                assert(self.names_view() =~= old_names.push(name@));
                assert forall|x: int, y: int|
                    0 <= x < y < self.names_view().len() implies self.names_view()[x]
                    != self.names_view()[y] by {
                    if y == old_names.len() {
                        assert(old_names.contains(old_names[x]));
                    }
                }
                assert forall|n: Seq<char>| #[trigger] self.store().contains_key(n) implies self.store()[n]
                    == old_store.insert(name@, v)[n] by {
                    if n == name@ {
                        lemma_index_of(self.names_view(), old_names.len() as int);
                    } else {
                        let k = index_of(self.names_view(), n);
                        assert(0 <= k < self.names_view().len() && self.names_view()[k] == n);
                        assert(k < old_names.len());
                        assert(old_names[k] == n);
                        lemma_index_of(old_names, k);
                        assert(old_store[n] == self.values@[k]@);
                    }
                }
                assert forall|n: Seq<char>| #[trigger] old_store.insert(name@, v).contains_key(n) implies self.store().contains_key(n) by {
                    if n != name@ {
                        let k = index_of(old_names, n);
                        assert(self.names_view()[k] == n);
                    } else {
                        assert(self.names_view()[old_names.len() as int] == n);
                    }
                }
                assert(self.store() =~= old_store.insert(name@, v));
            },
        }
    }

    /// Stores a line of input in a variable, as `string_to_number` reads it.
    pub fn accept_input(&mut self, name: &String, line: &str)
        requires
            old(self).wf(),
        ensures
            final(self).wf(),
            final(self).pc() == old(self).pc(),
            final(self).store() == old(self).store().insert(name@, input_value(line@)),
    {
        let v = string_to_number(line);
        self.set(name, v);
    }
}

pub open spec fn opt_num(o: Option<usize>) -> Option<nat> {
    match o {
        Some(k) => Some(k as nat),
        None => None,
    }
}

/// The position of the first label with the value of `target`.
fn label_position(ir: &Vec<Instruction>, target: &Number) -> (r: Option<usize>)
    requires
        target.wf(),
    ensures
        opt_num(r) == label_index(instructions_view(ir@), target@),
        r matches Some(k) ==> k < ir.len(),
{
    let ghost v = instructions_view(ir@);
    let mut k: usize = 0;
    while k < ir.len()
        invariant
            k <= ir.len(),
            target.wf(),
            v == instructions_view(ir@),
            label_index(v, target@) == label_from(v, target@, k as int),
        decreases ir.len() - k,
    {
        assert(v[k as int] == ir@[k as int]@);
        if let Instruction::Label(n) = &ir[k] {
            let ln = Number::from_u64(*n as u64);
            if matches!(ln.compare(target), core::cmp::Ordering::Equal) {
                return Some(k);
            }
        }
        k += 1;
    }
    None
}

fn missing_name(e: &Expression) -> (r: String)
    ensures
        r@ == expr_name(e@),
{
    match e {
        Expression::Variable(v) => v.clone(),
        Expression::NumberLiteral(_) => String::new(),
    }
}

impl Machine {
    fn value_of<'a>(&'a self, e: &'a Expression) -> (r: Option<&'a Number>)
        requires
            self.wf(),
            e.wf(),
        ensures
            match r {
                Some(n) => expr_value(e@, self.store()) == Some(n@) && n.wf(),
                None => expr_value(e@, self.store()) is None,
            },
    {
        match e {
            Expression::NumberLiteral(n) => Some(n),
            Expression::Variable(v) => self.get(v),
        }
    }

    fn compare_exprs(&self, a: &Expression, b: &Expression) -> (r: Result<core::cmp::Ordering, String>)
        requires
            self.wf(),
            a.wf(),
            b.wf(),
        ensures
            match r {
                Ok(o) => {
                    let x = expr_value(a@, self.store());
                    let y = expr_value(b@, self.store());
                    &&& x is Some && y is Some
                    &&& (o == core::cmp::Ordering::Less <==> x->0 < y->0)
                    &&& (o == core::cmp::Ordering::Equal <==> x->0 == y->0)
                    &&& (o == core::cmp::Ordering::Greater <==> x->0 > y->0)
                },
                Err(n) => match expr_value(a@, self.store()) {
                    Some(_) => expr_value(b@, self.store()) is None && n@ == expr_name(b@),
                    None => n@ == expr_name(a@),
                },
            },
    {
        match self.value_of(a) {
            Some(x) => match self.value_of(b) {
                Some(y) => Ok(x.compare(y)),
                None => Err(missing_name(b)),
            },
            None => Err(missing_name(a)),
        }
    }

    fn holds(&self, c: &Condition) -> (r: Result<bool, String>)
        requires
            self.wf(),
            c.wf(),
        ensures
            match r {
                Ok(b) => condition_holds(c@, self.store()) == Ok::<bool, Seq<char>>(b),
                Err(n) => condition_holds(c@, self.store()) == Err::<bool, Seq<char>>(n@),
            },
    {
        match c {
            Condition::EqualTo(a, b) => match self.compare_exprs(a, b) {
                Ok(o) => Ok(matches!(o, core::cmp::Ordering::Equal)),
                Err(n) => Err(n),
            },
            Condition::NotEqualTo(a, b) => match self.compare_exprs(a, b) {
                Ok(o) => Ok(!matches!(o, core::cmp::Ordering::Equal)),
                Err(n) => Err(n),
            },
            Condition::GreaterThan(a, b) => match self.compare_exprs(a, b) {
                Ok(o) => Ok(matches!(o, core::cmp::Ordering::Greater)),
                Err(n) => Err(n),
            },
            Condition::LessThan(a, b) => match self.compare_exprs(a, b) {
                Ok(o) => Ok(matches!(o, core::cmp::Ordering::Less)),
                Err(n) => Err(n),
            },
            Condition::GreaterThanOrEqualTo(a, b) => match self.compare_exprs(a, b) {
                Ok(o) => Ok(!matches!(o, core::cmp::Ordering::Less)),
                Err(n) => Err(n),
            },
            Condition::LessThanOrEqualTo(a, b) => match self.compare_exprs(a, b) {
                Ok(o) => Ok(!matches!(o, core::cmp::Ordering::Greater)),
                Err(n) => Err(n),
            },
        }
    }

    fn run(&mut self, ir: &Vec<Instruction>, instr: &Instruction) -> (a: Action)
        requires
            old(self).wf(),
            old(self).pc < ir.len(),
            instruction_wf(*instr),
        ensures
            final(self).wf(),
            (final(self).pc(), final(self).store(), a@) == run_instruction(
                instructions_view(ir@),
                instr@,
                old(self).pc(),
                old(self).store(),
            ),
        decreases instr,
    {
        match instr {
            Instruction::AssignmentInstruction(v, e) => {
                let value = match self.value_of(e) {
                    Some(x) => x.copy(),
                    None => return Action::Fail(variable_not_found(missing_name(e))),
                };
                self.set(&v.0, value);
                self.pc = self.pc + 1;
                Action::Continue
            },
            Instruction::AddInstruction(v, e) => {
                let value = match self.get(&v.0) {
                    None => return Action::Fail(variable_not_found(v.0.clone())),
                    Some(cur) => match self.value_of(e) {
                        Some(x) => cur.add(x),
                        None => return Action::Fail(variable_not_found(missing_name(e))),
                    },
                };
                self.set(&v.0, value);
                self.pc = self.pc + 1;
                Action::Continue
            },
            Instruction::SubInstruction(v, e) => {
                let value = match self.get(&v.0) {
                    None => return Action::Fail(variable_not_found(v.0.clone())),
                    Some(cur) => match self.value_of(e) {
                        Some(x) => cur.saturating_sub(x),
                        None => return Action::Fail(variable_not_found(missing_name(e))),
                    },
                };
                self.set(&v.0, value);
                self.pc = self.pc + 1;
                Action::Continue
            },
            Instruction::PrintNumberInstruction(v) => match self.get(&v.0) {
                Some(x) => {
                    let text = x.to_decimal_string();
                    self.pc = self.pc + 1;
                    Action::Print(text)
                },
                None => Action::Fail(variable_not_found(v.0.clone())),
            },
            Instruction::PrintCharacterInstruction(v) => match self.get(&v.0) {
                Some(x) => {
                    let text = number_to_string(x);
                    self.pc = self.pc + 1;
                    Action::Print(text)
                },
                None => Action::Fail(variable_not_found(v.0.clone())),
            },
            Instruction::InputInstruction(v) => {
                self.pc = self.pc + 1;
                Action::ReadInput(v.0.clone())
            },
            Instruction::ExitInstruction => Action::Halt,
            Instruction::GotoInstruction(e) => {
                let target = match self.value_of(e) {
                    Some(x) => label_position(ir, x),
                    None => return Action::Fail(variable_not_found(missing_name(e))),
                };
                match target {
                    Some(k) => {
                        self.pc = k;
                        Action::Continue
                    },
                    None => Action::Fail(label_not_found()),
                }
            },
            Instruction::IfInstruction(c, inner) => match self.holds(c) {
                Ok(true) => self.run(ir, inner),
                Ok(false) => {
                    self.pc = self.pc + 1;
                    Action::Continue
                },
                Err(n) => Action::Fail(variable_not_found(n)),
            },
            Instruction::Label(_) => {
                self.pc = self.pc + 1;
                Action::Continue
            },
        }
    }

    /// Runs the instruction at the machine's position; past the end of the
    /// program it halts.
    pub fn step(&mut self, ir: &Vec<Instruction>) -> (a: Action)
        requires
            old(self).wf(),
            program_wf(ir@),
        ensures
            final(self).wf(),
            (final(self).pc(), final(self).store(), a@) == step_spec(
                instructions_view(ir@),
                old(self).pc(),
                old(self).store(),
            ),
    {
        if self.pc >= ir.len() {
            return Action::Halt;
        }
        let pc = self.pc;
        assert(instructions_view(ir@)[pc as int] == ir@[pc as int]@);
        self.run(ir, &ir[pc])
    }
}

} // verus!
