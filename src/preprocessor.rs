use vstd::prelude::*;
use crate::chars::{
    ascii_lower, is_ascii_char, is_ascii_text, lemma_lower_char_idempotent, lower_char, lower_of, lowercase,
};
use crate::types::{copy_token, tokens_view, LexerBlock, LexerOutput, LexerToken, TokenModel};

verus! {

/// A word in lower case, as `str::to_lowercase` gives it; on ASCII words
/// that is `A`-`Z` mapped to `a`-`z`.
pub open spec fn lower_word(w: Seq<char>) -> Seq<char> {
    if is_ascii_text(w) {
        ascii_lower(w)
    } else {
        lower_of(w)
    }
}

pub open spec fn lower_token(t: TokenModel) -> TokenModel {
    match t {
        TokenModel::Text(w) => TokenModel::Text(lower_word(w)),
        _ => t,
    }
}

pub open spec fn lower_block(b: Seq<TokenModel>) -> Seq<TokenModel> {
    b.map_values(|t: TokenModel| lower_token(t))
}

/// Every word of every paragraph case-folded; other tokens as they are.
pub open spec fn lowercase_spec(p: Seq<Seq<TokenModel>>) -> Seq<Seq<TokenModel>> {
    p.map_values(|b: Seq<TokenModel>| lower_block(b))
}

/// The tokens of `b` kept so far, and whether a quotation is open after them:
/// each quote mark toggles the quotation, and a sentence terminator inside one is dropped.
pub open spec fn unquote_state(b: Seq<TokenModel>) -> (Seq<TokenModel>, bool)
    decreases b.len(),
{
    if b.len() == 0 {
        (Seq::empty(), false)
    } else {
        let (kept, in_quote) = unquote_state(b.drop_last());
        let t = b.last();
        if t is Quote {
            (kept.push(t), !in_quote)
        } else if t.is_terminator() && in_quote {
            (kept, in_quote)
        } else {
            (kept.push(t), in_quote)
        }
    }
}

pub open spec fn unquote_block(b: Seq<TokenModel>) -> Seq<TokenModel> {
    unquote_state(b).0
}

pub open spec fn unquote_spec(p: Seq<Seq<TokenModel>>) -> Seq<Seq<TokenModel>> {
    p.map_values(|b: Seq<TokenModel>| unquote_block(b))
}

pub open spec fn preprocess_spec(p: Seq<Seq<TokenModel>>) -> Seq<Seq<TokenModel>> {
    unquote_spec(lowercase_spec(p))
}

/// A token that is not a word, or a word of ASCII characters only.
pub open spec fn ascii_token(t: TokenModel) -> bool {
    match t {
        TokenModel::Text(w) => is_ascii_text(w),
        _ => true,
    }
}

/// Every word of every paragraph is ASCII text.
pub open spec fn ascii_words(p: Seq<Seq<TokenModel>>) -> bool {
    forall|i: int, j: int| 0 <= i < p.len() && 0 <= j < p[i].len() ==> ascii_token(#[trigger] p[i][j])
}

proof fn lemma_lower_token_idempotent(t: TokenModel)
    requires
        ascii_token(t),
    ensures
        lower_token(lower_token(t)) == lower_token(t),
        ascii_token(lower_token(t)),
{
    if let TokenModel::Text(w) = t {
        let once = ascii_lower(w);
        assert forall|i: int| 0 <= i < once.len() implies is_ascii_char(#[trigger] once[i]) by {
            assert(is_ascii_char(w[i]));
        }
        assert forall|i: int| 0 <= i < once.len() implies #[trigger] ascii_lower(once)[i]
            == once[i] by {
            lemma_lower_char_idempotent(w[i]);
        }
        assert(ascii_lower(once) =~= once);
    }
}

proof fn lemma_lower_block_idempotent(b: Seq<TokenModel>)
    requires
        forall|j: int| 0 <= j < b.len() ==> ascii_token(#[trigger] b[j]),
    ensures
        lower_block(lower_block(b)) == lower_block(b),
{
    assert forall|i: int| 0 <= i < b.len() implies #[trigger] lower_block(lower_block(b))[i]
        == lower_block(b)[i] by {
        lemma_lower_token_idempotent(b[i]);
    }
    assert(lower_block(lower_block(b)) =~= lower_block(b));
}

proof fn lemma_unquote_idempotent(b: Seq<TokenModel>)
    ensures
        unquote_state(unquote_state(b).0) == unquote_state(b),
    decreases b.len(),
{
    if b.len() > 0 {
        lemma_unquote_idempotent(b.drop_last());
        let kept = unquote_state(b.drop_last()).0;
        assert(kept.push(b.last()).drop_last() =~= kept);
    }
}

proof fn lemma_unquote_lower(b: Seq<TokenModel>)
    ensures
        unquote_state(lower_block(b)) == (lower_block(unquote_state(b).0), unquote_state(b).1),
    decreases b.len(),
{
    if b.len() > 0 {
        lemma_unquote_lower(b.drop_last());
        assert(lower_block(b).drop_last() =~= lower_block(b.drop_last()));
        let kept = unquote_state(b.drop_last()).0;
        assert(lower_block(kept.push(b.last())) =~= lower_block(kept).push(lower_token(b.last())));
    }
}

/// Normalizing an already normalized token stream changes nothing, where its
/// words are ASCII text.
pub proof fn lemma_preprocess_idempotent(p: Seq<Seq<TokenModel>>)
    requires
        ascii_words(p),
    ensures
        preprocess_spec(preprocess_spec(p)) == preprocess_spec(p),
{
    assert forall|i: int| 0 <= i < p.len() implies #[trigger] preprocess_spec(preprocess_spec(p))[i]
        == preprocess_spec(p)[i] by {
        let l = lower_block(p[i]);
        assert forall|j: int| 0 <= j < p[i].len() implies ascii_token(#[trigger] p[i][j]) by {}
        lemma_unquote_lower(l);
        lemma_lower_block_idempotent(p[i]);
        lemma_unquote_idempotent(l);
    }
    assert(preprocess_spec(preprocess_spec(p)) =~= preprocess_spec(p));
}

fn lowercase_all_tokens(tokens: LexerOutput) -> (r: LexerOutput)
    ensures
        r@ == lowercase_spec(tokens@),
{
    let mut blocks: Vec<LexerBlock> = Vec::new();
    let n = tokens.0.len();
    for i in 0..n
        invariant
            n == tokens.0.len(),
            blocks@.map_values(|b: LexerBlock| b@) =~= lowercase_spec(tokens@).take(i as int),
    {
        let block = &tokens.0[i];
        assert(tokens@.len() == n && block@ == tokens@[i as int]);
        let mut out: Vec<LexerToken> = Vec::new();
        let m = block.0.len();
        for j in 0..m
            invariant
                i < n,
                m == block.0.len(),
                block@ == tokens@[i as int],
                tokens_view(out@) =~= lower_block(block@).take(j as int),
        {
            let t = &block.0[j];
            let lt = match t {
                LexerToken::Text(s) => LexerToken::Text(lowercase(s)),
                _ => copy_token(t),
            };
            assert(lt@ == lower_token(t@));
            let ghost before = out@;
            out.push(lt);
            assert(t@ == block@[j as int]);
            assert(tokens_view(out@) == tokens_view(before).push(lt@));
            assert(lower_block(block@).take(j + 1) =~= lower_block(block@).take(j as int).push(lower_token(block@[j as int])));
            assert(tokens_view(out@) =~= lower_block(block@).take(j + 1));
        }
        assert(tokens_view(out@) =~= lower_block(block@));
        let nb = LexerBlock(out);
        let ghost before = blocks@;
        blocks.push(nb);
        assert(blocks@.map_values(|b: LexerBlock| b@) == before.map_values(|b: LexerBlock| b@).push(nb@));
        assert(lowercase_spec(tokens@).take(i + 1) =~= lowercase_spec(tokens@).take(i as int).push(lower_block(tokens@[i as int])));
        assert(blocks@.map_values(|b: LexerBlock| b@) =~= lowercase_spec(tokens@).take(i + 1));
    }
    LexerOutput(blocks)
}

fn remove_end_sentence_punctuation_in_quotes(tokens: LexerOutput) -> (r: LexerOutput)
    ensures
        r@ == unquote_spec(tokens@),
{
    let mut blocks: Vec<LexerBlock> = Vec::new();
    let n = tokens.0.len();
    for i in 0..n
        invariant
            n == tokens.0.len(),
            blocks@.map_values(|b: LexerBlock| b@) =~= unquote_spec(tokens@).take(i as int),
    {
        let block = &tokens.0[i];
        assert(tokens@.len() == n && block@ == tokens@[i as int]);
        let mut out: Vec<LexerToken> = Vec::new();
        let mut in_quote = false;
        let m = block.0.len();
        for j in 0..m
            invariant
                i < n,
                m == block.0.len(),
                block@ == tokens@[i as int],
                (tokens_view(out@), in_quote) == unquote_state(block@.take(j as int)),
        {
            let t = &block.0[j];
            assert(block@.take(j + 1).drop_last() =~= block@.take(j as int));
            match t {
                LexerToken::Quote => {
                    in_quote = !in_quote;
                    out.push(LexerToken::Quote);
                },
                LexerToken::Period | LexerToken::QuestionMark | LexerToken::ExclamationMark => {
                    if !in_quote {
                        out.push(copy_token(t));
                    }
                },
                _ => out.push(copy_token(t)),
            }
            assert(tokens_view(out@) =~= unquote_state(block@.take(j + 1)).0);
        }
        assert(block@.take(m as int) =~= block@);
        let nb = LexerBlock(out);
        let ghost before = blocks@;
        blocks.push(nb);
        assert(blocks@.map_values(|b: LexerBlock| b@) == before.map_values(|b: LexerBlock| b@).push(nb@));
        assert(unquote_spec(tokens@).take(i + 1) =~= unquote_spec(tokens@).take(i as int).push(unquote_block(tokens@[i as int])));
        assert(blocks@.map_values(|b: LexerBlock| b@) =~= unquote_spec(tokens@).take(i + 1));
    }
    LexerOutput(blocks)
}

/// Case-folds every word and drops the sentence terminators that stand inside
/// a quotation, paragraph by paragraph.
pub fn preprocess(tokens: LexerOutput) -> (r: LexerOutput)
    ensures
        r@ == preprocess_spec(tokens@),
{
    remove_end_sentence_punctuation_in_quotes(lowercase_all_tokens(tokens))
}

} // verus!
