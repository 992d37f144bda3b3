use vstd::prelude::*;
use crate::ast::StatementModel;
use crate::ast_to_ir::{convert_ast_to_ir, lower_block, lower_blocks, lower_statement};
use crate::errors::{pronoun_no_antecedent_model, unfinished_thought_model, Error};
use crate::ir::{instructions_view, program_wf, variables_view, InstrModel, Instruction, Variable};
use crate::keyword_defs::{defs, keyword_model};
use crate::lexer::{lex_spec, lexer};
use crate::parser::{bad_blocks, parse_blocks, parse_blocks_spec};
use crate::preprocessor::{preprocess, preprocess_spec};
use crate::pronoun_replacer::{all_pronoun_errors, pronoun_errors, resolve_program};
use crate::variable_extractor::program_variables;

verus! {

/// The statements of each paragraph of `src`.
pub open spec fn parsed_spec(src: Seq<char>) -> Seq<Seq<StatementModel>> {
    parse_blocks_spec(preprocess_spec(lex_spec(src)), keyword_model())
}

/// The lowered program of `src`.
pub open spec fn compile_spec(src: Seq<char>) -> Seq<InstrModel> {
    let p = parsed_spec(src);
    lower_blocks(resolve_program(p, program_variables(p)), program_variables(p))
}

/// How many errors compiling `src` reports: one per paragraph that cannot be
/// split into sentences, one per pronoun without an antecedent.
pub open spec fn error_count(src: Seq<char>) -> nat {
    let p = parsed_spec(src);
    (bad_blocks(preprocess_spec(lex_spec(src))) + pronoun_errors(p, program_variables(p))) as nat
}

/// The errors of compiling `src`, in order: one per paragraph that cannot be
/// split into sentences, then one per pronoun without an antecedent.
pub open spec fn errors_as_expected(src: Seq<char>, es: Seq<Error>) -> bool {
    let bad = bad_blocks(preprocess_spec(lex_spec(src)));
    &&& es.len() == error_count(src)
    &&& forall|i: int| 0 <= i < bad ==> (#[trigger] es[i])@ == unfinished_thought_model()
    &&& forall|i: int| bad <= i < es.len() ==> (#[trigger] es[i])@ == pronoun_no_antecedent_model()
}

/// A compiled program: its instructions, its variables, and the errors found on the way.
pub struct Compilation {
    pub instructions: Vec<Instruction>,
    pub variables: Vec<Variable>,
    pub errors: Vec<Error>,
}

/// Compiles source text, recovering from errors: a paragraph that cannot be
/// split into sentences lowers to its label alone, and a pronoun without an
/// antecedent becomes the empty name.
pub fn compile_source(source: &str) -> (r: Compilation)
    ensures
        instructions_view(r.instructions@) == compile_spec(source@),
        program_wf(r.instructions@),
        variables_view(r.variables@).to_set() == program_variables(parsed_spec(source@)),
        variables_view(r.variables@).no_duplicates(),
        errors_as_expected(source@, r.errors@),
{
    let tokens = preprocess(lexer(source));
    let keywords = defs();
    let (program, mut errors) = parse_blocks(&tokens, &keywords);
    let (instructions, variables, mut pronoun_errors) = convert_ast_to_ir(&program);
    let ghost first = errors@;
    let ghost second = pronoun_errors@;
    errors.append(&mut pronoun_errors);
    assert(errors@ == first + second);
    assert forall|i: int| bad_blocks(tokens@) <= i < errors@.len() implies (#[trigger] errors@[i])@
        == pronoun_no_antecedent_model() by {
        assert(errors@[i] == second[i - first.len()]);
    }
    Compilation { instructions, variables, errors }
}

/// Compiles source text into instructions, or gives every error found.
pub fn tokenize_and_lower(source: &str) -> (r: Result<Vec<Instruction>, Vec<Error>>)
    ensures
        r is Ok <==> error_count(source@) == 0,
        r matches Ok(ir) ==> instructions_view(ir@) == compile_spec(source@) && program_wf(ir@),
        r matches Err(es) ==> errors_as_expected(source@, es@),
{
    let c = compile_source(source);
    if c.errors.len() == 0 {
        Ok(c.instructions)
    } else {
        Err(c.errors)
    }
}

/// The label numbers of an instruction list, in order.
pub open spec fn label_values(ir: Seq<InstrModel>) -> Seq<nat>
    decreases ir.len(),
{
    if ir.len() == 0 {
        Seq::empty()
    } else {
        label_values(ir.drop_last()) + match ir.last() {
            InstrModel::Label(n) => seq![n],
            _ => Seq::empty(),
        }
    }
}

proof fn lemma_label_values_append(a: Seq<InstrModel>, b: Seq<InstrModel>)
    ensures
        label_values(a + b) == label_values(a) + label_values(b),
    decreases b.len(),
{
    if b.len() == 0 {
        assert(a + b =~= a);
        assert(label_values(a) + label_values(b) =~= label_values(a));
    } else {
        lemma_label_values_append(a, b.drop_last());
        assert((a + b).drop_last() =~= a + b.drop_last());
        assert((a + b).last() == b.last());
        assert(label_values(a + b) =~= label_values(a) + label_values(b));
    }
}

proof fn lemma_label_values_single(x: InstrModel)
    ensures
        label_values(seq![x]) == match x {
            InstrModel::Label(n) => seq![n],
            _ => Seq::<nat>::empty(),
        },
{
    assert(seq![x].drop_last() =~= Seq::<InstrModel>::empty());
    assert(seq![x].last() == x);
    assert(label_values(Seq::<InstrModel>::empty()) == Seq::<nat>::empty());
    assert(Seq::<nat>::empty() + match x {
        InstrModel::Label(n) => seq![n],
        _ => Seq::<nat>::empty(),
    } =~= match x {
        InstrModel::Label(n) => seq![n],
        _ => Seq::<nat>::empty(),
    });
}

proof fn lemma_block_has_no_label(b: Seq<StatementModel>, vars: Set<Seq<char>>)
    ensures
        label_values(lower_block(b, vars)) == Seq::<nat>::empty(),
    decreases b.len(),
{
    if b.len() > 0 {
        lemma_block_has_no_label(b.drop_last(), vars);
        let tail = match lower_statement(b.last(), vars) {
            Some(i) => seq![i],
            None => Seq::<InstrModel>::empty(),
        };
        lemma_label_values_append(lower_block(b.drop_last(), vars), tail);
        if let Some(i) = lower_statement(b.last(), vars) {
            lemma_label_values_single(i);
        } else {
            assert(label_values(tail) == Seq::<nat>::empty());
        }
        assert(label_values(lower_block(b, vars)) =~= Seq::<nat>::empty());
    }
}

/// Where block `i` starts in the lowered program.
pub open spec fn block_offset(p: Seq<Seq<StatementModel>>, vars: Set<Seq<char>>, i: int) -> int {
    lower_blocks(p.take(i), vars).len() as int
}

proof fn lemma_labels_ascending(p: Seq<Seq<StatementModel>>, vars: Set<Seq<char>>)
    ensures
        label_values(lower_blocks(p, vars)) == Seq::new(p.len(), |i: int| i as nat),
    decreases p.len(),
{
    if p.len() > 0 {
        let q = p.drop_last();
        lemma_labels_ascending(q, vars);
        let one = seq![InstrModel::Label((p.len() - 1) as nat)];
        lemma_label_values_append(lower_blocks(q, vars), one);
        lemma_label_values_append(lower_blocks(q, vars) + one, lower_block(p.last(), vars));
        lemma_block_has_no_label(p.last(), vars);
        lemma_label_values_single(InstrModel::Label((p.len() - 1) as nat));
        assert(label_values(lower_blocks(p, vars)) =~= Seq::new(p.len(), |i: int| i as nat));
    } else {
        assert(label_values(lower_blocks(p, vars)) =~= Seq::new(p.len(), |i: int| i as nat));
    }
}

proof fn lemma_prefix(p: Seq<Seq<StatementModel>>, vars: Set<Seq<char>>, i: int)
    requires
        0 <= i <= p.len(),
    ensures
        block_offset(p, vars, i) <= lower_blocks(p, vars).len(),
        lower_blocks(p, vars).subrange(0, block_offset(p, vars, i)) == lower_blocks(p.take(i), vars),
    decreases p.len(),
{
    if i == p.len() {
        assert(p.take(i) =~= p);
        assert(lower_blocks(p, vars).subrange(0, block_offset(p, vars, i)) =~= lower_blocks(p, vars));
    } else {
        let q = p.drop_last();
        lemma_prefix(q, vars, i);
        assert(q.take(i) =~= p.take(i));
        assert(lower_blocks(p, vars).subrange(0, block_offset(p, vars, i)) =~= lower_blocks(
            q,
            vars,
        ).subrange(0, block_offset(q, vars, i)));
    }
}

/// The labels of a lowered program are `0, 1, ..., n - 1` for its `n` blocks,
/// and block `i`'s label stands right before that block's instructions.
pub proof fn lemma_labels_of_blocks(p: Seq<Seq<StatementModel>>, vars: Set<Seq<char>>)
    ensures
        label_values(lower_blocks(p, vars)) == Seq::new(p.len(), |i: int| i as nat),
        forall|i: int|
            0 <= i < p.len() ==> {
                let ir = lower_blocks(p, vars);
                let off = #[trigger] block_offset(p, vars, i);
                &&& ir[off] == InstrModel::Label(i as nat)
                &&& ir.subrange(off + 1, block_offset(p, vars, i + 1)) == lower_block(p[i], vars)
            },
{
    lemma_labels_ascending(p, vars);
    assert forall|i: int| 0 <= i < p.len() implies {
        let ir = lower_blocks(p, vars);
        let off = #[trigger] block_offset(p, vars, i);
        &&& ir[off] == InstrModel::Label(i as nat)
        &&& ir.subrange(off + 1, block_offset(p, vars, i + 1)) == lower_block(p[i], vars)
    } by {
        let ir = lower_blocks(p, vars);
        lemma_prefix(p, vars, i + 1);
        let t = p.take(i + 1);
        assert(t.drop_last() =~= p.take(i));
        assert(t.last() == p[i]);
        let lb = lower_blocks(t, vars);
        let off = block_offset(p, vars, i);
        assert(lb == lower_blocks(p.take(i), vars) + seq![InstrModel::Label(i as nat)] + lower_block(
            p[i],
            vars,
        ));
        assert(ir.subrange(0, block_offset(p, vars, i + 1)) == lb);
        assert(ir[off] == lb[off]);
        assert(ir.subrange(off + 1, block_offset(p, vars, i + 1)) =~= lb.subrange(
            off + 1,
            lb.len() as int,
        ));
        assert(lb.subrange(off + 1, lb.len() as int) =~= lower_block(p[i], vars));
    }
}

/// For any source text of `n` paragraphs, the compiled program holds exactly
/// the labels `0, 1, ..., n - 1`, in that order, each right before the
/// instructions of its paragraph.
pub proof fn lemma_one_label_per_paragraph(src: Seq<char>)
    ensures
        label_values(compile_spec(src)) == Seq::new(lex_spec(src).len(), |i: int| i as nat),
        ({
            let p = parsed_spec(src);
            let vars = program_variables(p);
            let r = resolve_program(p, vars);
            forall|i: int|
                0 <= i < lex_spec(src).len() ==> {
                    let off = #[trigger] block_offset(r, vars, i);
                    &&& compile_spec(src)[off] == InstrModel::Label(i as nat)
                    &&& compile_spec(src).subrange(off + 1, block_offset(r, vars, i + 1))
                        == lower_block(r[i], vars)
                }
        }),
{
    let p = parsed_spec(src);
    let vars = program_variables(p);
    let r = resolve_program(p, vars);
    lemma_labels_of_blocks(r, vars);
    assert(r.len() == lex_spec(src).len());
}

} // verus!
