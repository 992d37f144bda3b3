use vstd::prelude::*;
use crate::chars::push_char;
use crate::compiler::label_values;
use crate::ir::{
    instruction_wf, instructions_view, program_wf, variables_view, CondModel, Condition, ExprModel,
    Expression, InstrModel, Instruction, Variable,
};
use crate::number::{decimal_text, Number};

verus! {

/// A name with each space turned into an underscore.
pub open spec fn underscored(s: Seq<char>) -> Seq<char> {
    s.map_values(|c: char| if c == ' ' { '_' } else { c })
}

/// The C identifier of a variable.
pub open spec fn c_variable(name: Seq<char>) -> Seq<char> {
    "var_"@ + underscored(name)
}

pub open spec fn c_label(n: nat) -> Seq<char> {
    "label_"@ + decimal_text(n)
}

pub open spec fn c_expression(e: ExprModel) -> Seq<char> {
    match e {
        ExprModel::Variable(v) => c_variable(v),
        ExprModel::NumberLiteral(n) => decimal_text(n),
    }
}

pub open spec fn c_comparison(a: ExprModel, op: Seq<char>, b: ExprModel) -> Seq<char> {
    c_expression(a) + op + c_expression(b)
}

pub open spec fn c_condition(c: CondModel) -> Seq<char> {
    match c {
        CondModel::EqualTo(a, b) => c_comparison(a, " == "@, b),
        CondModel::NotEqualTo(a, b) => c_comparison(a, " != "@, b),
        CondModel::GreaterThan(a, b) => c_comparison(a, " > "@, b),
        CondModel::LessThan(a, b) => c_comparison(a, " < "@, b),
        CondModel::GreaterThanOrEqualTo(a, b) => c_comparison(a, " >= "@, b),
        CondModel::LessThanOrEqualTo(a, b) => c_comparison(a, " <= "@, b),
    }
}

pub open spec fn c_input(name: Seq<char>) -> Seq<char> {
    INPUT_HEAD@ + c_variable(name) + INPUT_TAIL@
}

pub open spec fn c_print_string(name: Seq<char>) -> Seq<char> {
    PRINT_STRING_HEAD@ + c_variable(name) + PRINT_STRING_TAIL@
}

/// The C statements of one instruction.
pub open spec fn c_instruction(i: InstrModel) -> Seq<char>
    decreases i,
{
    match i {
        InstrModel::Assignment(v, e) => c_variable(v) + " = "@ + c_expression(e) + ";\n"@,
        InstrModel::Add(v, e) => c_variable(v) + " += "@ + c_expression(e) + ";\n"@,
        InstrModel::Sub(v, e) => c_variable(v) + " -= "@ + c_expression(e) + ";\n"@,
        InstrModel::PrintNumber(v) => "printf(\"%d\", "@ + c_variable(v) + ");\n"@,
        InstrModel::PrintCharacter(v) => c_print_string(v),
        InstrModel::Input(v) => c_input(v),
        InstrModel::Exit => "exit(0);\n"@,
        InstrModel::Goto(e) => match e {
            ExprModel::NumberLiteral(n) => "goto "@ + c_label(n) + ";"@,
            ExprModel::Variable(v) => "GOTO_VAR("@ + c_variable(v) + ");\n"@,
        },
        InstrModel::If(c, inner) => "if ("@ + c_condition(c) + ") {\n"@ + c_instruction(*inner)
            + "}\n"@,
        InstrModel::Label(n) => c_label(n) + ":\n"@,
    }
}

pub open spec fn c_instructions(ir: Seq<InstrModel>) -> Seq<char>
    decreases ir.len(),
{
    if ir.len() == 0 {
        Seq::empty()
    } else {
        c_instructions(ir.drop_last()) + c_instruction(ir.last())
    }
}

pub open spec fn c_variable_initializations(vars: Seq<Seq<char>>) -> Seq<char>
    decreases vars.len(),
{
    if vars.len() == 0 {
        "char *input = NULL;\n"@ + "char *output = NULL;\n"@ + "int bufferSize = NULL;\n"@
    } else {
        c_variable_initializations(vars.drop_last()) + "long long int "@ + c_variable(vars.last())
            + " = 0;\n"@
    }
}

/// One jump case per label: `if (var == n) goto label_n;`, chained by `else`.
pub open spec fn c_goto_cases(labels: Seq<nat>) -> Seq<char>
    decreases labels.len(),
{
    if labels.len() == 0 {
        Seq::empty()
    } else {
        c_goto_cases(labels.drop_last()) + (if labels.len() > 1 {
            "else "@
        } else {
            Seq::empty()
        }) + "if (var == "@ + decimal_text(labels.last()) + ") goto "@ + c_label(labels.last())
            + ";\\\n"@
    }
}

/// The macro that jumps to the label a variable holds.
pub open spec fn c_goto_macro(ir: Seq<InstrModel>) -> Seq<char> {
    "#define GOTO_VAR(var) \\\n"@ + "do { \\\n"@ + c_goto_cases(label_values(ir)) + "} while (0)\n"@
}

pub open spec fn c_imports() -> Seq<char> {
    "#include <stdio.h>\n"@ + "#include <stdlib.h>\n"@ + "#include <string.h>\n"@
}

pub open spec fn c_helper_functions() -> Seq<char> {
    STRING_TO_NUMBER_C@ + NUMBER_TO_STRING_C@ + GET_INPUT_C@
}

pub open spec fn c_main(ir: Seq<InstrModel>, vars: Seq<Seq<char>>) -> Seq<char> {
    "int main() {\n"@ + c_variable_initializations(vars) + c_instructions(ir) + "}"@
}

/// The C program of a lowered program.
pub open spec fn c_program(ir: Seq<InstrModel>, vars: Seq<Seq<char>>) -> Seq<char> {
    c_imports() + c_goto_macro(ir) + c_helper_functions() + c_main(ir, vars)
}

pub const INPUT_HEAD: &'static str = "bufferSize = 100; \ninput = (char *) malloc(bufferSize * sizeof(char)); \nif (input == NULL) { \nprintf(\"Memory allocation failed\\n\"); \nreturn 1; \n} \nget_input(input, bufferSize); \n";

pub const INPUT_TAIL: &'static str = " = string_to_number(input); \nfree(input);\n";

pub const PRINT_STRING_HEAD: &'static str = "output = (char *) malloc(100 * sizeof(char)); \nif (output == NULL) { \nprintf(\"Memory allocation failed\\n\"); \nreturn 1; \n} \nnumber_to_string(";

pub const PRINT_STRING_TAIL: &'static str = ", output); \nprintf(\"%s\", output); \nfree(output);\n";

pub const GET_INPUT_C: &'static str = "void get_input(char *input, int bufferSize) {
        long long int index = 0; 
        long long int ch;
        while ((ch = getchar()) != '\\n' && ch != EOF) {
            if (index >= bufferSize - 1) {
                bufferSize *= 2;
                char *newInput = (char *) realloc (input, bufferSize * sizeof(char));
                if (newInput == NULL) {
                    printf(\"Memory reallocation failed\\n\");
                    free(input);
                    exit(1);
                }
                input = newInput;
            }
            input[index] = ch;
            index++;
        }
        input[index] = '\\0';   
    }\n";

pub const NUMBER_TO_STRING_C: &'static str = "long long int number_to_string(long long int number, char* output) {
        long long int i = 0;
        while (number > 0) {
            output[i] = (number % 1000) % 128;
            number /= 1000;
            i++;
        }
        output[i] = '\\0';
        return i;
    }\n";

pub const STRING_TO_NUMBER_C: &'static str = "long long int string_to_number(char *string) {
        long long int result = 0;
        for (int i = strlen(string) - 1; i >= 0; i--) {
            result = result * 1000 + string[i];
        }
        return result;
    }\n";

pub fn ir_variable_to_c_variable(variable: &Variable) -> (r: String)
    ensures
        r@ == c_variable(variable.0@),
{
    let mut r = String::from_str("var_");
    let ghost start = r@;
    let ghost name = variable.0@;
    let ghost mut seen: Seq<char> = Seq::empty();
    for c in it: variable.0.as_str().chars()
        invariant
            it.seq() == name,
            seen == it.seq().take(it.index() as int),
            r@ == start + underscored(seen),
    {
        push_char(
            &mut r,
            if c == ' ' {
                '_'
            } else {
                c
            },
        );
        proof {
            seen = seen.push(c);
            assert(seen == it.seq().take(it.index() as int + 1));
            assert(underscored(seen) =~= underscored(seen.drop_last()).push(
                if c == ' ' {
                    '_'
                } else {
                    c
                },
            ));
            assert(seen.drop_last() =~= it.seq().take(it.index() as int));
        }
    }
    assert(seen =~= name);
    r
}

pub fn convert_to_label(label: usize) -> (r: String)
    ensures
        r@ == c_label(label as nat),
{
    let mut r = String::from_str("label_");
    let n = Number::from_u64(label as u64);
    r.append(n.to_decimal_string().as_str());
    r
}

fn number_text(n: &Number) -> (r: String)
    requires
        n.wf(),
    ensures
        r@ == decimal_text(n@),
{
    n.to_decimal_string()
}

pub fn ir_expression_to_c(expression: &Expression) -> (r: String)
    requires
        expression.wf(),
    ensures
        r@ == c_expression(expression@),
{
    match expression {
        Expression::Variable(v) => ir_variable_to_c_variable(&Variable(v.clone())),
        Expression::NumberLiteral(n) => number_text(n),
    }
}

fn comparison_to_c(a: &Expression, op: &str, b: &Expression) -> (r: String)
    requires
        a.wf(),
        b.wf(),
    ensures
        r@ == c_comparison(a@, op@, b@),
{
    let mut r = ir_expression_to_c(a);
    r.append(op);
    r.append(ir_expression_to_c(b).as_str());
    r
}

pub fn condition_to_c(condition: &Condition) -> (r: String)
    requires
        condition.wf(),
    ensures
        r@ == c_condition(condition@),
{
    match condition {
        Condition::EqualTo(a, b) => comparison_to_c(a, " == ", b),
        Condition::NotEqualTo(a, b) => comparison_to_c(a, " != ", b),
        Condition::GreaterThan(a, b) => comparison_to_c(a, " > ", b),
        Condition::LessThan(a, b) => comparison_to_c(a, " < ", b),
        Condition::GreaterThanOrEqualTo(a, b) => comparison_to_c(a, " >= ", b),
        Condition::LessThanOrEqualTo(a, b) => comparison_to_c(a, " <= ", b),
    }
}

/// The C statements that read a line into a variable.
pub fn get_c_for_input_insruction(variable: &Variable) -> (r: String)
    ensures
        r@ == c_input(variable.0@),
{
    let mut r = String::from_str(INPUT_HEAD);
    r.append(ir_variable_to_c_variable(variable).as_str());
    r.append(INPUT_TAIL);
    r
}

/// The C statements that print a variable as text.
pub fn get_c_for_print_string_instruction(variable: &Variable) -> (r: String)
    ensures
        r@ == c_print_string(variable.0@),
{
    let mut r = String::from_str(PRINT_STRING_HEAD);
    r.append(ir_variable_to_c_variable(variable).as_str());
    r.append(PRINT_STRING_TAIL);
    r
}

fn wrapped(head: &str, middle: String, tail: &str) -> (r: String)
    ensures
        r@ == head@ + middle@ + tail@,
{
    let mut r = String::from_str(head);
    r.append(middle.as_str());
    r.append(tail);
    r
}

pub fn instruction_to_c(instruction: &Instruction) -> (r: String)
    requires
        instruction_wf(*instruction),
    ensures
        r@ == c_instruction(instruction@),
    decreases instruction,
{
    match instruction {
        Instruction::AssignmentInstruction(v, e) => {
            let mut r = ir_variable_to_c_variable(v);
            r.append(wrapped(" = ", ir_expression_to_c(e), ";\n").as_str());
            r
        },
        Instruction::AddInstruction(v, e) => {
            let mut r = ir_variable_to_c_variable(v);
            r.append(wrapped(" += ", ir_expression_to_c(e), ";\n").as_str());
            r
        },
        Instruction::SubInstruction(v, e) => {
            let mut r = ir_variable_to_c_variable(v);
            r.append(wrapped(" -= ", ir_expression_to_c(e), ";\n").as_str());
            r
        },
        Instruction::PrintNumberInstruction(v) => wrapped(
            "printf(\"%d\", ",
            ir_variable_to_c_variable(v),
            ");\n",
        ),
        Instruction::PrintCharacterInstruction(v) => get_c_for_print_string_instruction(v),
        Instruction::InputInstruction(v) => get_c_for_input_insruction(v),
        Instruction::ExitInstruction => String::from_str("exit(0);\n"),
        Instruction::GotoInstruction(e) => match e {
            Expression::NumberLiteral(n) => {
                let mut label = String::from_str("label_");
                label.append(number_text(n).as_str());
                wrapped("goto ", label, ";")
            },
            Expression::Variable(v) => wrapped(
                "GOTO_VAR(",
                ir_variable_to_c_variable(&Variable(v.clone())),
                ");\n",
            ),
        },
        Instruction::IfInstruction(c, inner) => {
            let mut r = wrapped("if (", condition_to_c(c), ") {\n");
            r.append(instruction_to_c(inner).as_str());
            r.append("}\n");
            r
        },
        Instruction::Label(n) => {
            let mut r = convert_to_label(*n);
            r.append(":\n");
            r
        },
    }
}

/// The macro that jumps to the label a variable holds, one case per label of `ir`.
pub fn get_goto_macro(ir: &Vec<Instruction>) -> (r: String)
    ensures
        r@ == c_goto_macro(instructions_view(ir@)),
{
    let ghost v = instructions_view(ir@);
    let mut r = String::from_str("#define GOTO_VAR(var) \\\n");
    r.append("do { \\\n");
    let ghost head = r@;
    let mut first = true;
    let mut k: usize = 0;
    while k < ir.len()
        invariant
            k <= ir.len(),
            v == instructions_view(ir@),
            r@ == head + c_goto_cases(label_values(v.take(k as int))),
            first == (label_values(v.take(k as int)).len() == 0),
        decreases ir.len() - k,
    {
        assert(v[k as int] == ir@[k as int]@);
        assert(v.take(k + 1).drop_last() =~= v.take(k as int));
        assert(v.take(k + 1).last() == v[k as int]);
        if let Instruction::Label(n) = &ir[k] {
            let ghost before = label_values(v.take(k as int));
            assert(label_values(v.take(k + 1)) == before.push(*n as nat)) by {
                assert(before + seq![*n as nat] =~= before.push(*n as nat));
            }
            assert(before.push(*n as nat).drop_last() =~= before);
            if !first {
                r.append("else ");
            }
            r.append("if (var == ");
            let num = Number::from_u64(*n as u64);
            r.append(num.to_decimal_string().as_str());
            r.append(") goto ");
            r.append(convert_to_label(*n).as_str());
            r.append(";\\\n");
            first = false;
        } else {
            assert(label_values(v.take(k + 1)) =~= label_values(v.take(k as int)));
        }
        k += 1;
    }
    assert(v.take(k as int) =~= v);
    r.append("} while (0)\n");
    r
}

pub fn generate_imports(c_code: &mut String)
    ensures
        final(c_code)@ == old(c_code)@ + c_imports(),
{
    c_code.append("#include <stdio.h>\n");
    c_code.append("#include <stdlib.h>\n");
    c_code.append("#include <string.h>\n");
}

pub fn generate_macros(c_code: &mut String, ir: &Vec<Instruction>)
    ensures
        final(c_code)@ == old(c_code)@ + c_goto_macro(instructions_view(ir@)),
{
    c_code.append(get_goto_macro(ir).as_str());
}

pub fn generate_get_input_function(c_code: &mut String)
    ensures
        final(c_code)@ == old(c_code)@ + GET_INPUT_C@,
{
    c_code.append(GET_INPUT_C);
}

pub fn generate_number_to_string_function(c_code: &mut String)
    ensures
        final(c_code)@ == old(c_code)@ + NUMBER_TO_STRING_C@,
{
    c_code.append(NUMBER_TO_STRING_C);
}

pub fn generate_string_to_number_function(c_code: &mut String)
    ensures
        final(c_code)@ == old(c_code)@ + STRING_TO_NUMBER_C@,
{
    c_code.append(STRING_TO_NUMBER_C);
}

/// The C helpers that convert between numbers and text and read a line.
pub fn generate_helper_functions(c_code: &mut String)
    ensures
        final(c_code)@ == old(c_code)@ + c_helper_functions(),
{
    generate_string_to_number_function(c_code);
    generate_number_to_string_function(c_code);
    generate_get_input_function(c_code);
}

pub fn generate_main_scope_entry(c_code: &mut String)
    ensures
        final(c_code)@ == old(c_code)@ + "int main() {\n"@,
{
    c_code.append("int main() {\n");
}

pub fn generate_scope_exit(c_code: &mut String)
    ensures
        final(c_code)@ == old(c_code)@ + "}"@,
{
    c_code.append("}");
}

/// Declares the buffers and one integer per variable, set to zero.
pub fn generate_variable_initializations(c_code: &mut String, variables: &Vec<Variable>)
    ensures
        final(c_code)@ == old(c_code)@ + c_variable_initializations(variables_view(variables@)),
{
    let ghost start = c_code@;
    let ghost vs = variables_view(variables@);
    c_code.append("char *input = NULL;\n");
    c_code.append("char *output = NULL;\n");
    c_code.append("int bufferSize = NULL;\n");
    assert(vs.take(0).len() == 0);
    let mut i: usize = 0;
    while i < variables.len()
        invariant
            i <= variables.len(),
            vs == variables_view(variables@),
            c_code@ =~= start + c_variable_initializations(vs.take(i as int)),
        decreases variables.len() - i,
    {
        assert(vs.take(i + 1).drop_last() =~= vs.take(i as int));
        assert(vs.take(i + 1).last() == variables@[i as int].0@);
        c_code.append("long long int ");
        c_code.append(ir_variable_to_c_variable(&variables[i]).as_str());
        c_code.append(" = 0;\n");
        i += 1;
    }
    assert(vs.take(i as int) =~= vs);
}

pub fn generate_main_function(c_code: &mut String, variables: &Vec<Variable>, ir: &Vec<Instruction>)
    requires
        program_wf(ir@),
    ensures
        final(c_code)@ == old(c_code)@ + c_main(instructions_view(ir@), variables_view(variables@)),
{
    let ghost start = c_code@;
    let ghost v = instructions_view(ir@);
    generate_main_scope_entry(c_code);
    generate_variable_initializations(c_code, variables);
    let ghost mid = c_code@;
    let mut k: usize = 0;
    while k < ir.len()
        invariant
            k <= ir.len(),
            program_wf(ir@),
            v == instructions_view(ir@),
            c_code@ =~= mid + c_instructions(v.take(k as int)),
        decreases ir.len() - k,
    {
        assert(v[k as int] == ir@[k as int]@);
        assert(v.take(k + 1).drop_last() =~= v.take(k as int));
        assert(v.take(k + 1).last() == v[k as int]);
        assert(instruction_wf(ir@[k as int]));
        c_code.append(instruction_to_c(&ir[k]).as_str());
        k += 1;
    }
    assert(v.take(k as int) =~= v);
    generate_scope_exit(c_code);
}

/// The C program of a lowered program and its variables.
pub fn convert_ir_to_c(ir: &Vec<Instruction>, variables: &Vec<Variable>) -> (r: String)
    requires
        program_wf(ir@),
    ensures
        r@ == c_program(instructions_view(ir@), variables_view(variables@)),
{
    let mut c_code = String::new();
    generate_imports(&mut c_code);
    generate_macros(&mut c_code, ir);
    generate_helper_functions(&mut c_code);
    generate_main_function(&mut c_code, variables, ir);
    assert(c_code@ =~= c_program(instructions_view(ir@), variables_view(variables@)));
    c_code
}

} // verus!
