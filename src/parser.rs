use vstd::prelude::*;
use crate::ast::{
    Block, Condition, ConditionModel, Program, Statement, StatementModel, Variable,
    VariableOrNumberLiteral,
};
use crate::grammar::{
    clause_end, comma_at, contains_word, first_phrase, first_phrase_from, first_phrase_len, is_word_at, phrase_matches, join_range,
    join_words, phrase_at, run_len, run_length, subject_name, subject_range, text_of, word_at,
};
use crate::keyword_defs::{phrases_view, str_views, strings_of, words_view, KeywordDefs, KeywordsModel};
use crate::types::{copy_token, tokens_view, LexerBlock, LexerOutput, LexerStatement, LexerToken, TokenModel};
use crate::errors::{unfinished_thought_error, unfinished_thought_model, Error};

verus! {

pub open spec fn felt_words() -> Seq<Seq<char>> {
    str_views(seq!["felt"])
}

pub open spec fn looks_words() -> Seq<Seq<char>> {
    str_views(seq!["looked", "looks"])
}

pub open spec fn no_words() -> Seq<Seq<char>> {
    Seq::empty()
}

pub open spec fn no_phrases() -> Seq<Seq<Seq<char>>> {
    Seq::empty()
}

/// Where the value of a comparison starts: after `<to-be or felt> <adjective> than`.
pub open spec fn comparison_rhs(
    c: Seq<TokenModel>,
    k: int,
    km: KeywordsModel,
    adjectives: Seq<Seq<char>>,
) -> Option<int> {
    match first_phrase(c, k, km.to_be.push(felt_words())) {
        Some(m) => if 0 <= k + m < c.len() && c[k + m] is Text && adjectives.contains(
            text_of(c[k + m]),
        ) && is_word_at(c, k + m + 1, "than"@) {
            Some(k + m + 2)
        } else {
            None
        },
        None => None,
    }
}

/// Where the value of an inequality starts: after `<to-be> not`.
pub open spec fn not_equal_rhs(c: Seq<TokenModel>, k: int, km: KeywordsModel) -> Option<int> {
    match first_phrase(c, k, km.to_be) {
        Some(m) => if is_word_at(c, k + m, "not"@) {
            Some(k + m + 1)
        } else {
            None
        },
        None => None,
    }
}

/// Where the value of an equality starts: after `<to-be>`.
pub open spec fn equal_rhs(c: Seq<TokenModel>, k: int, km: KeywordsModel) -> Option<int> {
    match first_phrase(c, k, km.to_be) {
        Some(m) => Some(k + m),
        None => None,
    }
}

/// The words of the value that starts at `r`, when there is at least one.
pub open spec fn rhs_words(c: Seq<TokenModel>, r: Option<int>) -> Option<Seq<char>> {
    match r {
        Some(r) => {
            let v = run_len(c, r, no_words(), no_phrases());
            if v >= 1 {
                Some(join_words(c, r, r + v))
            } else {
                None
            }
        },
        None => None,
    }
}

/// The condition of an `if`: its subject runs up to the first to-be keyword or
/// "felt"; then greater-than, less-than, not-equal and equal are tried in turn.
pub open spec fn parse_condition_spec(c: Seq<TokenModel>, km: KeywordsModel) -> Option<
    ConditionModel,
> {
    let k = run_len(c, 0, felt_words(), km.to_be);
    let lhs = join_words(c, 0, k);
    if k < 1 {
        None
    } else if let Some(rhs) = rhs_words(
        c,
        comparison_rhs(c, k, km, km.positive_comparative_adjective),
    ) {
        Some(ConditionModel::GreaterThan(lhs, rhs))
    } else if let Some(rhs) = rhs_words(
        c,
        comparison_rhs(c, k, km, km.negative_comparative_adjective),
    ) {
        Some(ConditionModel::LessThan(lhs, rhs))
    } else if let Some(rhs) = rhs_words(c, not_equal_rhs(c, k, km)) {
        Some(ConditionModel::NotEqualTo(lhs, rhs))
    } else if let Some(rhs) = rhs_words(c, equal_rhs(c, k, km)) {
        Some(ConditionModel::EqualTo(lhs, rhs))
    } else {
        None
    }
}

/// The value that starts at `i`: at least one word, then the end or a comma.
pub open spec fn value_of(g: Seq<TokenModel>, i: int) -> Option<Seq<char>> {
    let v = run_len(g, i, no_words(), no_phrases());
    if v >= 1 && clause_end(g, i + v) {
        Some(join_words(g, i, i + v))
    } else {
        None
    }
}

pub open spec fn up_to_the_skies() -> Seq<Seq<char>> {
    str_views(seq!["up", "to", "the", "skies", "beyond"])
}

pub open spec fn waiting_for_an_answer() -> Seq<Seq<char>> {
    str_views(seq!["waiting", "for", "an", "answer"])
}

/// `<subject> looked|looks up to the skies beyond, waiting for an answer`
pub open spec fn rule_input(g: Seq<TokenModel>) -> Option<StatementModel> {
    let k = run_len(g, 0, looks_words(), no_phrases());
    if k >= 1 && k < g.len() && g[k] is Text && looks_words().contains(text_of(g[k])) && phrase_at(
        g,
        k + 1,
        up_to_the_skies(),
    ) && k + 6 < g.len() && g[k + 6] is Comma && phrase_at(g, k + 7, waiting_for_an_answer())
        && clause_end(g, k + 11) {
        Some(StatementModel::Input(subject_name(g, 0, k)))
    } else {
        None
    }
}

/// The index of the first quote mark at or after `i`, or the length of `g`.
pub open spec fn next_quote(g: Seq<TokenModel>, i: int) -> int
    decreases g.len() - i,
{
    if i < 0 || i >= g.len() {
        g.len() as int
    } else if g[i] is Quote {
        i
    } else {
        next_quote(g, i + 1)
    }
}

pub open spec fn ends_with_ly(w: Seq<char>) -> bool {
    w.len() >= 2 && w[w.len() - 2] == 'l' && w[w.len() - 1] == 'y'
}

/// `"<speech>" <subject> <said-word>`, followed by an adverb ending in "ly"
/// when `adverb` holds; gives the subject.
pub open spec fn rule_print(g: Seq<TokenModel>, km: KeywordsModel, adverb: bool) -> Option<Seq<char>> {
    if g.len() > 0 && g[0] is Quote {
        let q = next_quote(g, 1);
        let k = run_len(g, q + 1, km.said, no_phrases());
        let s = q + 1 + k;
        if q < g.len() && k >= 1 && s < g.len() && g[s] is Text && km.said.contains(text_of(g[s])) {
            if adverb {
                if s + 1 < g.len() && g[s + 1] is Text && ends_with_ly(text_of(g[s + 1]))
                    && clause_end(g, s + 2) {
                    Some(subject_name(g, q + 1, s))
                } else {
                    None
                }
            } else if clause_end(g, s + 1) {
                Some(subject_name(g, q + 1, s))
            } else {
                None
            }
        } else {
            None
        }
    } else {
        None
    }
}

/// `<subject> <to-be> <value>`
pub open spec fn rule_assign(g: Seq<TokenModel>, km: KeywordsModel) -> Option<StatementModel> {
    let k = run_len(g, 0, no_words(), km.to_be);
    if k >= 1 {
        match first_phrase(g, k, km.to_be) {
            Some(m) => match value_of(g, k + m) {
                Some(v) => Some(StatementModel::Assignment(subject_name(g, 0, k), v)),
                None => None,
            },
            None => None,
        }
    } else {
        None
    }
}

/// `<subject> felt as <adjective> as <value>`: gives subject and value.
pub open spec fn rule_change(g: Seq<TokenModel>, adjectives: Seq<Seq<char>>) -> Option<
    (Seq<char>, Seq<char>),
> {
    let k = run_len(g, 0, felt_words(), no_phrases());
    if k >= 1 && is_word_at(g, k, "felt"@) && is_word_at(g, k + 1, "as"@) && k + 2 < g.len()
        && g[k + 2] is Text && adjectives.contains(text_of(g[k + 2])) && is_word_at(
        g,
        k + 3,
        "as"@,
    ) {
        match value_of(g, k + 4) {
            Some(v) => Some((subject_name(g, 0, k), v)),
            None => None,
        }
    } else {
        None
    }
}

/// `<anything> <go-to> <destination>`
pub open spec fn rule_goto(g: Seq<TokenModel>, km: KeywordsModel) -> Option<StatementModel> {
    let k = run_len(g, 0, no_words(), km.goto);
    match first_phrase(g, k, km.goto) {
        Some(m) => match value_of(g, k + m) {
            Some(v) => Some(StatementModel::Goto(v)),
            None => None,
        },
        None => None,
    }
}

pub open spec fn has_end(g: Seq<TokenModel>) -> bool {
    exists|i: int| is_word_at(g, i, "end"@)
}

/// The length of the condition of `if <condition>, then ...`, or 0 where `g`
/// does not have that shape.
pub open spec fn if_shape(g: Seq<TokenModel>) -> int {
    if is_word_at(g, 0, "if"@) {
        let c = run_len(g, 1, no_words(), no_phrases());
        if c >= 1 && 1 + c < g.len() && g[1 + c] is Comma && is_word_at(g, 2 + c, "then"@) {
            c
        } else {
            0
        }
    } else {
        0
    }
}

/// The statement that a sentence's tokens form: the rules are tried in a fixed
/// order and the first that matches wins; what none matches is a comment.
pub open spec fn parse_statement_spec(g: Seq<TokenModel>, km: KeywordsModel) -> StatementModel
    decreases g.len(),
{
    let c = if_shape(g);
    if c >= 1 && 3 + c <= g.len() && parse_condition_spec(g.subrange(1, 1 + c), km) is Some {
        StatementModel::If(
            parse_condition_spec(g.subrange(1, 1 + c), km)->Some_0,
            Box::new(parse_statement_spec(g.subrange(3 + c, g.len() as int), km)),
        )
    } else if let Some(s) = rule_input(g) {
        s
    } else if let Some(v) = rule_print(g, km, true) {
        StatementModel::PrintString(v)
    } else if let Some(v) = rule_print(g, km, false) {
        StatementModel::PrintNumber(v)
    } else if let Some(s) = rule_assign(g, km) {
        s
    } else if let Some((a, v)) = rule_change(g, km.positive_adjective) {
        StatementModel::Add(a, v)
    } else if let Some((a, v)) = rule_change(g, km.negative_adjective) {
        StatementModel::Sub(a, v)
    } else if let Some(s) = rule_goto(g, km) {
        s
    } else if has_end(g) {
        StatementModel::Exit
    } else {
        StatementModel::Comment
    }
}

pub open spec fn opt_statement(o: Option<Statement>) -> Option<StatementModel> {
    match o {
        Some(x) => Some(x@),
        None => None,
    }
}

fn no_stop_words() -> (r: (Vec<String>, Vec<Vec<String>>))
    ensures
        words_view(r.0@) == no_words(),
        phrases_view(r.1@) == no_phrases(),
{
    let nw: Vec<String> = Vec::new();
    let np: Vec<Vec<String>> = Vec::new();
    assert(words_view(nw@) =~= no_words());
    assert(phrases_view(np@) =~= no_phrases());
    (nw, np)
}

fn value_at(g: &Vec<LexerToken>, i: usize) -> (r: Option<String>)
    requires
        i <= g.len(),
    ensures
        opt_string(r) == value_of(tokens_view(g@), i as int),
{
    let (nw, np) = no_stop_words();
    let v = run_length(g, i, &nw, &np);
    if v >= 1 && (i + v == g.len() || comma_at(g, i + v)) {
        Some(join_range(g, i, i + v))
    } else {
        None
    }
}

fn input_rule(g: &Vec<LexerToken>) -> (r: Option<Statement>)
    ensures
        opt_statement(r) == rule_input(tokens_view(g@)),
{
    let looks = strings_of(&["looked", "looks"]);
    let (_, np) = no_stop_words();
    assert(words_view(looks@) == looks_words());
    let k = run_length(g, 0, &looks, &np);
    if k < 1 || k >= g.len() || !word_in(g, k, &looks) || g.len() - k < 11 {
        return None;
    }
    let skies = strings_of(&["up", "to", "the", "skies", "beyond"]);
    assert(words_view(skies@) == up_to_the_skies());
    let answer = strings_of(&["waiting", "for", "an", "answer"]);
    assert(words_view(answer@) == waiting_for_an_answer());
    if phrase_matches(g, k + 1, &skies) && comma_at(g, k + 6) && phrase_matches(g, k + 7, &answer)
        && (k + 11 == g.len() || comma_at(g, k + 11)) {
        Some(Statement::InputStatement(Variable(subject_range(g, 0, k))))
    } else {
        None
    }
}

fn next_quote_at(g: &Vec<LexerToken>, i: usize) -> (r: usize)
    ensures
        r as int == next_quote(tokens_view(g@), i as int),
        r <= g.len(),
{
    let mut j = i;
    if j >= g.len() {
        return g.len();
    }
    while j < g.len()
        invariant
            i <= j <= g.len(),
            next_quote(tokens_view(g@), i as int) == next_quote(tokens_view(g@), j as int),
        decreases g.len() - j,
    {
        assert(tokens_view(g@)[j as int] == g@[j as int]@);
        if matches!(g[j], LexerToken::Quote) {
            return j;
        }
        j += 1;
    }
    j
}

fn adverb_at(g: &Vec<LexerToken>, i: usize) -> (r: bool)
    ensures
        r == (i < g.len() && tokens_view(g@)[i as int] is Text && ends_with_ly(
            text_of(tokens_view(g@)[i as int]),
        )),
{
    if i >= g.len() {
        return false;
    }
    match &g[i] {
        LexerToken::Text(w) => {
            let n = w.as_str().unicode_len();
            n >= 2 && w.as_str().get_char(n - 2) == 'l' && w.as_str().get_char(n - 1) == 'y'
        },
        _ => false,
    }
}

fn print_rule(g: &Vec<LexerToken>, kw: &KeywordDefs, adverb: bool) -> (r: Option<String>)
    ensures
        opt_string(r) == rule_print(tokens_view(g@), kw@, adverb),
{
    if g.len() == 0 || !matches!(g[0], LexerToken::Quote) {
        assert(g.len() > 0 ==> tokens_view(g@)[0] == g@[0]@);
        return None;
    }
    assert(tokens_view(g@)[0] == g@[0]@);
    let q = next_quote_at(g, 1);
    if q >= g.len() {
        return None;
    }
    let (_, np) = no_stop_words();
    let k = run_length(g, q + 1, &kw.said, &np);
    if k < 1 || q + 1 + k >= g.len() || !word_in(g, q + 1 + k, &kw.said) {
        return None;
    }
    let s = q + 1 + k;
    if adverb {
        if adverb_at(g, s + 1) && (s + 2 == g.len() || comma_at(g, s + 2)) {
            Some(subject_range(g, q + 1, s))
        } else {
            None
        }
    } else if s + 1 == g.len() || comma_at(g, s + 1) {
        Some(subject_range(g, q + 1, s))
    } else {
        None
    }
}

fn assign_rule(g: &Vec<LexerToken>, kw: &KeywordDefs) -> (r: Option<Statement>)
    ensures
        opt_statement(r) == rule_assign(tokens_view(g@), kw@),
{
    let (nw, _) = no_stop_words();
    let k = run_length(g, 0, &nw, &kw.to_be);
    if k < 1 {
        return None;
    }
    match first_phrase_len(g, k, &kw.to_be) {
        Some(m) => match value_at(g, k + m) {
            Some(v) => Some(
                Statement::AssignmentStatement(
                    Variable(subject_range(g, 0, k)),
                    VariableOrNumberLiteral(v),
                ),
            ),
            None => None,
        },
        None => None,
    }
}

fn change_rule(g: &Vec<LexerToken>, adjectives: &Vec<String>) -> (r: Option<(String, String)>)
    ensures
        match r {
            Some((a, v)) => rule_change(tokens_view(g@), words_view(adjectives@)) == Some(
                (a@, v@),
            ),
            None => rule_change(tokens_view(g@), words_view(adjectives@)) is None,
        },
{
    let felt = strings_of(&["felt"]);
    assert(words_view(felt@) == felt_words());
    let (_, np) = no_stop_words();
    let k = run_length(g, 0, &felt, &np);
    if k >= 1 && g.len() - k >= 4 && word_at(g, k, "felt") && word_at(g, k + 1, "as") && word_in(
        g,
        k + 2,
        adjectives,
    ) && word_at(g, k + 3, "as") {
        match value_at(g, k + 4) {
            Some(v) => Some((subject_range(g, 0, k), v)),
            None => None,
        }
    } else {
        proof {
            if k >= 1 && g.len() - k < 4 {
                assert(!is_word_at(tokens_view(g@), k + 3, "as"@));
            }
        }
        None
    }
}

fn goto_rule(g: &Vec<LexerToken>, kw: &KeywordDefs) -> (r: Option<Statement>)
    ensures
        opt_statement(r) == rule_goto(tokens_view(g@), kw@),
{
    let (nw, _) = no_stop_words();
    let k = run_length(g, 0, &nw, &kw.goto);
    match first_phrase_len(g, k, &kw.goto) {
        Some(m) => match value_at(g, k + m) {
            Some(v) => Some(Statement::GotoStatement(VariableOrNumberLiteral(v))),
            None => None,
        },
        None => None,
    }
}

fn end_anywhere(g: &Vec<LexerToken>) -> (r: bool)
    ensures
        r == has_end(tokens_view(g@)),
{
    let mut i: usize = 0;
    while i < g.len()
        invariant
            i <= g.len(),
            forall|j: int| 0 <= j < i ==> !is_word_at(tokens_view(g@), j, "end"@),
        decreases g.len() - i,
    {
        if word_at(g, i, "end") {
            return true;
        }
        i += 1;
    }
    false
}

fn if_shape_of(g: &Vec<LexerToken>) -> (r: usize)
    ensures
        r as int == if_shape(tokens_view(g@)),
        r >= 1 ==> 1 + r < g.len(),
{
    if !word_at(g, 0, "if") {
        return 0;
    }
    let (nw, np) = no_stop_words();
    let c = run_length(g, 1, &nw, &np);
    if c >= 1 && 1 + c < g.len() && comma_at(g, 1 + c) && word_at(g, 2 + c, "then") {
        c
    } else {
        0
    }
}

fn copy_range(g: &Vec<LexerToken>, a: usize, b: usize) -> (r: Vec<LexerToken>)
    requires
        a <= b <= g.len(),
    ensures
        tokens_view(r@) == tokens_view(g@).subrange(a as int, b as int),
{
    let mut r: Vec<LexerToken> = Vec::new();
    let mut i = a;
    while i < b
        invariant
            a <= i <= b <= g.len(),
            tokens_view(r@) =~= tokens_view(g@).subrange(a as int, i as int),
        decreases b - i,
    {
        assert(tokens_view(g@)[i as int] == g@[i as int]@);
        let ghost before = r@;
        r.push(copy_token(&g[i]));
        assert(tokens_view(r@) =~= tokens_view(before).push(g@[i as int]@));
        i += 1;
        assert(tokens_view(r@) =~= tokens_view(g@).subrange(a as int, i as int));
    }
    r
}

/// Parses the tokens of one sentence (without its terminator).
pub fn parse_statement(g: &Vec<LexerToken>, kw: &KeywordDefs) -> (r: Statement)
    ensures
        r@ == parse_statement_spec(tokens_view(g@), kw@),
    decreases g.len(),
{
    let ghost t = tokens_view(g@);
    let c = if_shape_of(g);
    if c >= 1 && 3 + c <= g.len() {
        let cond_tokens = copy_range(g, 1, 1 + c);
        if let Some(cond) = parse_condition(&cond_tokens, kw) {
            let rest = copy_range(g, 3 + c, g.len());
            assert(rest@.len() == tokens_view(rest@).len());
            let inner = parse_statement(&rest, kw);
            return Statement::IfStatement(cond, Box::new(inner));
        }
    }
    if let Some(s) = input_rule(g) {
        return s;
    }
    if let Some(v) = print_rule(g, kw, true) {
        return Statement::PrintStringStatement(Variable(v));
    }
    if let Some(v) = print_rule(g, kw, false) {
        return Statement::PrintNumberStatement(Variable(v));
    }
    if let Some(s) = assign_rule(g, kw) {
        return s;
    }
    if let Some((a, v)) = change_rule(g, &kw.positive_adjective) {
        return Statement::AddStatement(Variable(a), VariableOrNumberLiteral(v));
    }
    if let Some((a, v)) = change_rule(g, &kw.negative_adjective) {
        return Statement::SubStatement(Variable(a), VariableOrNumberLiteral(v));
    }
    if let Some(s) = goto_rule(g, kw) {
        return s;
    }
    if end_anywhere(g) {
        Statement::ExitStatement
    } else {
        Statement::Comment
    }
}

pub open spec fn opt_int(o: Option<usize>) -> Option<int> {
    match o {
        Some(x) => Some(x as int),
        None => None,
    }
}

pub open spec fn opt_string(o: Option<String>) -> Option<Seq<char>> {
    match o {
        Some(x) => Some(x@),
        None => None,
    }
}

pub open spec fn opt_condition(o: Option<Condition>) -> Option<ConditionModel> {
    match o {
        Some(x) => Some(x@),
        None => None,
    }
}

proof fn lemma_first_phrase_push(
    g: Seq<TokenModel>,
    i: int,
    phrases: Seq<Seq<Seq<char>>>,
    extra: Seq<Seq<char>>,
    k: int,
)
    requires
        0 <= k <= phrases.len(),
    ensures
        first_phrase_from(g, i, phrases.push(extra), k) == match first_phrase_from(g, i, phrases, k) {
            Some(m) => Some(m),
            None => if phrase_at(g, i, extra) {
                Some(extra.len() as int)
            } else {
                None
            },
        },
    decreases phrases.len() - k,
{
    if k < phrases.len() {
        assert(phrases.push(extra)[k] == phrases[k]);
        lemma_first_phrase_push(g, i, phrases, extra, k + 1);
    } else {
        assert(phrases.push(extra)[k] == extra);
        assert(first_phrase_from(g, i, phrases.push(extra), k + 1) is None);
    }
}

fn word_in(c: &Vec<LexerToken>, i: usize, words: &Vec<String>) -> (r: bool)
    ensures
        r == (0 <= i < c.len() && tokens_view(c@)[i as int] is Text && words_view(words@).contains(
            text_of(tokens_view(c@)[i as int]),
        )),
{
    if i < c.len() {
        match &c[i] {
            LexerToken::Text(w) => contains_word(words, w),
            _ => false,
        }
    } else {
        false
    }
}

fn comparison_rhs_at(c: &Vec<LexerToken>, k: usize, kw: &KeywordDefs, adjectives: &Vec<String>) -> (r: Option<usize>)
    ensures
        opt_int(r) == comparison_rhs(tokens_view(c@), k as int, kw@, words_view(adjectives@)),
        r matches Some(x) ==> x <= c.len(),
{
    let ghost t = tokens_view(c@);
    proof {
        lemma_first_phrase_push(t, k as int, kw@.to_be, felt_words(), 0);
        assert(felt_words().len() == 1 && felt_words()[0] == "felt"@);
        if is_word_at(t, k as int, "felt"@) {
            assert(t[k as int + 0] == TokenModel::Text(felt_words()[0]));
        }
        assert(phrase_at(t, k as int, felt_words()) == is_word_at(t, k as int, "felt"@));
    }
    let m = match first_phrase_len(c, k, &kw.to_be) {
        Some(m) => Some(m),
        None => if word_at(c, k, "felt") {
            Some(1)
        } else {
            None
        },
    };
    assert(opt_int(m) == first_phrase(t, k as int, kw@.to_be.push(felt_words())));
    match m {
        Some(m) => {
            if k + m < c.len() && word_in(c, k + m, adjectives) && word_at(c, k + m + 1, "than") {
                Some(k + m + 2)
            } else {
                None
            }
        },
        None => None,
    }
}

fn not_equal_rhs_at(c: &Vec<LexerToken>, k: usize, kw: &KeywordDefs) -> (r: Option<usize>)
    ensures
        opt_int(r) == not_equal_rhs(tokens_view(c@), k as int, kw@),
        r matches Some(x) ==> x <= c.len(),
{
    match first_phrase_len(c, k, &kw.to_be) {
        Some(m) => if word_at(c, k + m, "not") {
            Some(k + m + 1)
        } else {
            None
        },
        None => None,
    }
}

fn equal_rhs_at(c: &Vec<LexerToken>, k: usize, kw: &KeywordDefs) -> (r: Option<usize>)
    ensures
        opt_int(r) == equal_rhs(tokens_view(c@), k as int, kw@),
        r matches Some(x) ==> x <= c.len(),
{
    match first_phrase_len(c, k, &kw.to_be) {
        Some(m) => Some(k + m),
        None => None,
    }
}

fn rhs_of(c: &Vec<LexerToken>, r: Option<usize>) -> (out: Option<String>)
    requires
        r matches Some(x) ==> x <= c.len(),
    ensures
        opt_string(out) == rhs_words(tokens_view(c@), opt_int(r)),
{
    match r {
        Some(x) => {
            let nw: Vec<String> = Vec::new();
            let np: Vec<Vec<String>> = Vec::new();
            assert(words_view(nw@) =~= no_words());
            assert(phrases_view(np@) =~= no_phrases());
            let v = run_length(c, x, &nw, &np);
            if v >= 1 {
                Some(join_range(c, x, x + v))
            } else {
                None
            }
        },
        None => None,
    }
}

fn parse_condition(c: &Vec<LexerToken>, kw: &KeywordDefs) -> (r: Option<Condition>)
    ensures
        opt_condition(r) == parse_condition_spec(tokens_view(c@), kw@),
{
    let felt = strings_of(&["felt"]);
    assert(words_view(felt@) == felt_words());
    let k = run_length(c, 0, &felt, &kw.to_be);
    if k < 1 {
        return None;
    }
    let lhs = join_range(c, 0, k);
    let gt = comparison_rhs_at(c, k, kw, &kw.positive_comparative_adjective);
    if let Some(rhs) = rhs_of(c, gt) {
        return Some(
            Condition::GreaterThan(VariableOrNumberLiteral(lhs), VariableOrNumberLiteral(rhs)),
        );
    }
    let lt = comparison_rhs_at(c, k, kw, &kw.negative_comparative_adjective);
    if let Some(rhs) = rhs_of(c, lt) {
        return Some(Condition::LessThan(VariableOrNumberLiteral(lhs), VariableOrNumberLiteral(rhs)));
    }
    let ne = not_equal_rhs_at(c, k, kw);
    if let Some(rhs) = rhs_of(c, ne) {
        return Some(
            Condition::NotEqualTo(VariableOrNumberLiteral(lhs), VariableOrNumberLiteral(rhs)),
        );
    }
    let eq = equal_rhs_at(c, k, kw);
    if let Some(rhs) = rhs_of(c, eq) {
        return Some(Condition::EqualTo(VariableOrNumberLiteral(lhs), VariableOrNumberLiteral(rhs)));
    }
    None
}

/// `g` without its unknown tokens, which the grammar ignores.
pub open spec fn drop_unknown(g: Seq<TokenModel>) -> Seq<TokenModel>
    decreases g.len(),
{
    if g.len() == 0 {
        Seq::empty()
    } else if g.last() is Unknown {
        drop_unknown(g.drop_last())
    } else {
        drop_unknown(g.drop_last()).push(g.last())
    }
}

pub open spec fn parse_sentence_spec(g: Seq<TokenModel>, km: KeywordsModel) -> StatementModel {
    parse_statement_spec(drop_unknown(g), km)
}

/// The sentences closed so far, and the tokens of the open one.
pub open spec fn split_state(b: Seq<TokenModel>) -> (Seq<Seq<TokenModel>>, Seq<TokenModel>)
    decreases b.len(),
{
    if b.len() == 0 {
        (Seq::empty(), Seq::empty())
    } else {
        let (done, open) = split_state(b.drop_last());
        let t = b.last();
        if t.is_terminator() {
            if open.len() > 0 {
                (done.push(open), Seq::empty())
            } else {
                (done, Seq::empty())
            }
        } else {
            (done, open.push(t))
        }
    }
}

/// The non-empty sentences of a paragraph, each without its terminator; what
/// follows the last terminator is dropped.
pub open spec fn sentences(b: Seq<TokenModel>) -> Seq<Seq<TokenModel>> {
    split_state(b).0
}

pub open spec fn has_terminator(b: Seq<TokenModel>) -> bool {
    exists|i: int| 0 <= i < b.len() && (#[trigger] b[i]).is_terminator()
}

/// A paragraph can be split into sentences when it is empty or holds a terminator.
pub open spec fn block_ok(b: Seq<TokenModel>) -> bool {
    b.len() == 0 || has_terminator(b)
}

/// The statements of a paragraph; one that cannot be split has none.
pub open spec fn parse_block_spec(b: Seq<TokenModel>, km: KeywordsModel) -> Seq<StatementModel> {
    if block_ok(b) {
        sentences(b).map_values(|g: Seq<TokenModel>| parse_sentence_spec(g, km))
    } else {
        Seq::empty()
    }
}

pub open spec fn parse_blocks_spec(p: Seq<Seq<TokenModel>>, km: KeywordsModel) -> Seq<
    Seq<StatementModel>,
> {
    p.map_values(|b: Seq<TokenModel>| parse_block_spec(b, km))
}

/// How many paragraphs cannot be split into sentences.
pub open spec fn bad_blocks(p: Seq<Seq<TokenModel>>) -> int
    decreases p.len(),
{
    if p.len() == 0 {
        0
    } else {
        bad_blocks(p.drop_last()) + if block_ok(p.last()) {
            0int
        } else {
            1int
        }
    }
}

fn drop_unknown_tokens(g: &Vec<LexerToken>) -> (r: Vec<LexerToken>)
    ensures
        tokens_view(r@) == drop_unknown(tokens_view(g@)),
{
    let mut r: Vec<LexerToken> = Vec::new();
    let mut i: usize = 0;
    while i < g.len()
        invariant
            i <= g.len(),
            tokens_view(r@) == drop_unknown(tokens_view(g@).take(i as int)),
        decreases g.len() - i,
    {
        assert(tokens_view(g@)[i as int] == g@[i as int]@);
        assert(tokens_view(g@).take(i + 1).drop_last() =~= tokens_view(g@).take(i as int));
        let ghost before = r@;
        if !matches!(g[i], LexerToken::Unknown) {
            r.push(copy_token(&g[i]));
            assert(tokens_view(r@) =~= tokens_view(before).push(g@[i as int]@));
        }
        i += 1;
    }
    assert(tokens_view(g@).take(i as int) =~= tokens_view(g@));
    r
}

pub open spec fn statements_of(v: Seq<LexerStatement>) -> Seq<Seq<TokenModel>> {
    v.map_values(|s: LexerStatement| s@)
}

/// Splits a paragraph into its sentences; `None` when it holds tokens but no terminator.
pub fn split_sentences(block: &LexerBlock) -> (r: Option<Vec<LexerStatement>>)
    ensures
        r is Some <==> block_ok(block@),
        r matches Some(v) ==> statements_of(v@) == sentences(block@),
{
    let g = &block.0;
    let ghost b = block@;
    let mut done: Vec<LexerStatement> = Vec::new();
    let mut open: Vec<LexerToken> = Vec::new();
    let mut seen_terminator = false;
    let mut i: usize = 0;
    while i < g.len()
        invariant
            i <= g.len(),
            b == tokens_view(g@),
            (statements_of(done@), tokens_view(open@)) == split_state(b.take(i as int)),
            seen_terminator == has_terminator(b.take(i as int)),
        decreases g.len() - i,
    {
        assert(b[i as int] == g@[i as int]@);
        assert(b.take(i + 1).drop_last() =~= b.take(i as int));
        assert(b.take(i + 1).last() == b[i as int]);
        let ghost before_done = done@;
        let ghost before_open = open@;
        match &g[i] {
            LexerToken::Period | LexerToken::QuestionMark | LexerToken::ExclamationMark => {
                seen_terminator = true;
                if open.len() > 0 {
                    let sentence = LexerStatement(open);
                    done.push(sentence);
                    assert(statements_of(done@) =~= statements_of(before_done).push(
                        tokens_view(before_open),
                    ));
                }
                open = Vec::new();
                assert(b.take(i + 1)[i as int].is_terminator());
            },
            _ => {
                open.push(copy_token(&g[i]));
                assert(tokens_view(open@) =~= tokens_view(before_open).push(g@[i as int]@));
                assert forall|j: int| 0 <= j < i + 1 && (#[trigger] b.take(i + 1)[j]).is_terminator()
                    implies 0 <= j < i && b.take(i as int)[j].is_terminator() by {}
            },
        }
        i += 1;
    }
    assert(b.take(i as int) =~= b);
    if g.len() > 0 && !seen_terminator {
        None
    } else {
        Some(done)
    }
}

fn parse_block(block: &LexerBlock, kw: &KeywordDefs) -> (r: Option<Block>)
    ensures
        r is Some <==> block_ok(block@),
        r matches Some(b) ==> b@ == parse_block_spec(block@, kw@),
{
    match split_sentences(block) {
        Some(groups) => {
            let mut out: Vec<Statement> = Vec::new();
            let mut i: usize = 0;
            while i < groups.len()
                invariant
                    i <= groups.len(),
                    block_ok(block@),
                    statements_of(groups@) == sentences(block@),
                    crate::ast::statements_view(out@) =~= parse_block_spec(block@, kw@).take(
                        i as int,
                    ),
                decreases groups.len() - i,
            {
                let g = drop_unknown_tokens(&groups[i].0);
                assert(statements_of(groups@)[i as int] == groups@[i as int]@);
                let st = parse_statement(&g, kw);
                let ghost before = out@;
                out.push(st);
                assert(crate::ast::statements_view(out@) =~= crate::ast::statements_view(
                    before,
                ).push(st@));
                i += 1;
            }
            Some(Block(out))
        },
        None => None,
    }
}

/// Parses every paragraph; a paragraph that cannot be split into sentences
/// gives no statements and one error, and the others are still parsed.
pub fn parse_blocks(input: &LexerOutput, keywords: &KeywordDefs) -> (r: (Program, Vec<Error>))
    ensures
        r.0@ == parse_blocks_spec(input@, keywords@),
        r.1.len() == bad_blocks(input@),
        forall|i: int| 0 <= i < r.1.len() ==> (#[trigger] r.1@[i])@ == unfinished_thought_model(),
{
    let mut blocks: Vec<Block> = Vec::new();
    let mut errors: Vec<Error> = Vec::new();
    let mut i: usize = 0;
    while i < input.0.len()
        invariant
            i <= input.0.len(),
            blocks@.map_values(|b: Block| b@) =~= parse_blocks_spec(input@, keywords@).take(
                i as int,
            ),
            errors.len() == bad_blocks(input@.take(i as int)),
            forall|j: int| 0 <= j < errors.len() ==> (#[trigger] errors@[j])@
                == unfinished_thought_model(),
        decreases input.0.len() - i,
    {
        assert(input@[i as int] == input.0@[i as int]@);
        assert(input@.take(i + 1).drop_last() =~= input@.take(i as int));
        let ghost before = blocks@;
        match parse_block(&input.0[i], keywords) {
            Some(b) => {
                blocks.push(b);
            },
            None => {
                let empty = Block(Vec::new());
                assert(empty@ =~= Seq::<StatementModel>::empty());
                blocks.push(empty);
                errors.push(unfinished_thought_error());
            },
        }
        assert(blocks@.map_values(|b: Block| b@) =~= before.map_values(|b: Block| b@).push(
            parse_block_spec(input@[i as int], keywords@),
        ));
        i += 1;
    }
    assert(input@.take(i as int) =~= input@);
    (Program(blocks), errors)
}

/// Parses every paragraph; fails with one error per paragraph that cannot be
/// split into sentences.
pub fn parse_program(input: LexerOutput, keywords: &KeywordDefs) -> (r: Result<Program, Vec<Error>>)
    ensures
        r is Ok <==> bad_blocks(input@) == 0,
        r matches Ok(p) ==> p@ == parse_blocks_spec(input@, keywords@),
        r matches Err(es) ==> es.len() == bad_blocks(input@) && forall|i: int|
            0 <= i < es.len() ==> (#[trigger] es@[i])@ == unfinished_thought_model(),
{
    let (program, errors) = parse_blocks(&input, keywords);
    if errors.len() == 0 {
        Ok(program)
    } else {
        Err(errors)
    }
}

} // verus!
