use vstd::prelude::*;
use crate::chars::{is_space, is_word_char, push_char, space, word_char};
use crate::types::{tokens_view, LexerBlock, LexerOutput, LexerToken, TokenModel};

verus! {

/// Where the scan of a source text stands: the paragraphs closed so far, the
/// tokens of the open paragraph, the word being read, and whether the current
/// line has held only white space so far.
pub struct LexModel {
    pub blocks: Seq<Seq<TokenModel>>,
    pub block: Seq<TokenModel>,
    pub word: Seq<char>,
    pub line_blank: bool,
}

/// The token that a single punctuation or other non-word, non-space character forms.
pub open spec fn char_token(c: char) -> TokenModel {
    if c == ',' {
        TokenModel::Comma
    } else if c == '"' || c == '\u{201c}' || c == '\u{201d}' {
        TokenModel::Quote
    } else if c == '.' {
        TokenModel::Period
    } else if c == '?' {
        TokenModel::QuestionMark
    } else if c == '!' {
        TokenModel::ExclamationMark
    } else {
        TokenModel::Unknown
    }
}

pub open spec fn flush_word(st: LexModel) -> LexModel {
    if st.word.len() > 0 {
        LexModel { block: st.block.push(TokenModel::Text(st.word)), word: Seq::empty(), ..st }
    } else {
        st
    }
}

pub open spec fn close_block(st: LexModel) -> LexModel {
    if st.block.len() > 0 {
        LexModel { blocks: st.blocks.push(st.block), block: Seq::empty(), ..st }
    } else {
        st
    }
}

/// Reads one more character.
pub open spec fn lex_step(st: LexModel, c: char) -> LexModel {
    if is_word_char(c) {
        LexModel { word: st.word.push(c), line_blank: false, ..st }
    } else {
        let f = flush_word(st);
        if c == '\n' {
            if f.line_blank {
                LexModel { line_blank: true, ..close_block(f) }
            } else {
                LexModel { line_blank: true, ..f }
            }
        } else if is_space(c) {
            f
        } else {
            LexModel { block: f.block.push(char_token(c)), line_blank: false, ..f }
        }
    }
}

pub open spec fn lex_state(s: Seq<char>) -> LexModel
    decreases s.len(),
{
    if s.len() == 0 {
        LexModel { blocks: Seq::empty(), block: Seq::empty(), word: Seq::empty(), line_blank: true }
    } else {
        lex_step(lex_state(s.drop_last()), s.last())
    }
}

/// The paragraphs of `s`, each as its tokens: a paragraph is a maximal run of
/// lines that are not blank; a blank line holds only white space.
pub open spec fn lex_spec(s: Seq<char>) -> Seq<Seq<TokenModel>> {
    close_block(flush_word(lex_state(s))).blocks
}

fn punctuation_token(c: char) -> (r: LexerToken)
    ensures
        r@ == char_token(c),
{
    if c == ',' {
        LexerToken::Comma
    } else if c == '"' || c == '\u{201c}' || c == '\u{201d}' {
        LexerToken::Quote
    } else if c == '.' {
        LexerToken::Period
    } else if c == '?' {
        LexerToken::QuestionMark
    } else if c == '!' {
        LexerToken::ExclamationMark
    } else {
        LexerToken::Unknown
    }
}

/// Splits source text into paragraphs of tokens. Never fails.
pub fn lexer(source: &str) -> (r: LexerOutput)
    ensures
        r@ == lex_spec(source@),
{
    let mut blocks: Vec<LexerBlock> = Vec::new();
    let mut block: Vec<LexerToken> = Vec::new();
    let mut word = String::new();
    let mut line_blank = true;
    let ghost mut seen: Seq<char> = Seq::empty();
    for c in it: source.chars()
        invariant
            it.seq() == source@,
            seen == it.seq().take(it.index() as int),
            ({
                let st = lex_state(seen);
                &&& blocks@.map_values(|b: LexerBlock| b@) == st.blocks
                &&& tokens_view(block@) == st.block
                &&& word@ == st.word
                &&& line_blank == st.line_blank
            }),
    {
        proof {
            assert(seen.push(c).drop_last() == seen);
        }
        if word_char(c) {
            push_char(&mut word, c);
            line_blank = false;
        } else {
            if !word.as_str().is_empty() {
                block.push(LexerToken::Text(word));
                word = String::new();
            }
            if c == '\n' {
                if line_blank && block.len() > 0 {
                    blocks.push(LexerBlock(block));
                    block = Vec::new();
                }
                line_blank = true;
            } else if !space(c) {
                block.push(punctuation_token(c));
                line_blank = false;
            }
        }
        proof {
            seen = seen.push(c);
            assert(seen == it.seq().take(it.index() as int + 1));
        }
    }
    proof {
        assert(seen =~= source@);
    }
    if !word.as_str().is_empty() {
        block.push(LexerToken::Text(word));
    }
    assert(tokens_view(block@) =~= flush_word(lex_state(source@)).block);
    if block.len() > 0 {
        blocks.push(LexerBlock(block));
    }
    let r = LexerOutput(blocks);
    assert(r@ =~= lex_spec(source@));
    r
}

} // verus!
