use vstd::prelude::*;

verus! {

/// One lexical unit of the source.
#[derive(Debug, PartialEq, Eq, Hash)]
pub enum LexerToken {
    Comma,
    Quote,
    Period,
    QuestionMark,
    ExclamationMark,
    Text(String),
    Unknown,
}

/// What a token is, with its word as a character sequence.
pub enum TokenModel {
    Comma,
    Quote,
    Period,
    QuestionMark,
    ExclamationMark,
    Text(Seq<char>),
    Unknown,
}

impl View for LexerToken {
    type V = TokenModel;

    open spec fn view(&self) -> TokenModel {
        match self {
            LexerToken::Comma => TokenModel::Comma,
            LexerToken::Quote => TokenModel::Quote,
            LexerToken::Period => TokenModel::Period,
            LexerToken::QuestionMark => TokenModel::QuestionMark,
            LexerToken::ExclamationMark => TokenModel::ExclamationMark,
            LexerToken::Text(s) => TokenModel::Text(s@),
            LexerToken::Unknown => TokenModel::Unknown,
        }
    }
}

impl TokenModel {
    pub open spec fn is_terminator(self) -> bool {
        self is Period || self is QuestionMark || self is ExclamationMark
    }
}

pub open spec fn tokens_view(v: Seq<LexerToken>) -> Seq<TokenModel> {
    v.map_values(|t: LexerToken| t@)
}

/// The tokens of one sentence: a block's tokens up to a sentence terminator.
#[derive(Debug)]
pub struct LexerStatement(pub Vec<LexerToken>);

/// The tokens of one paragraph of source text.
#[derive(Debug)]
pub struct LexerBlock(pub Vec<LexerToken>);

/// The paragraphs of a source text, in order.
#[derive(Debug)]
pub struct LexerOutput(pub Vec<LexerBlock>);

impl View for LexerStatement {
    type V = Seq<TokenModel>;

    open spec fn view(&self) -> Seq<TokenModel> {
        tokens_view(self.0@)
    }
}

impl View for LexerBlock {
    type V = Seq<TokenModel>;

    open spec fn view(&self) -> Seq<TokenModel> {
        tokens_view(self.0@)
    }
}

impl View for LexerOutput {
    type V = Seq<Seq<TokenModel>>;

    open spec fn view(&self) -> Seq<Seq<TokenModel>> {
        self.0@.map_values(|b: LexerBlock| b@)
    }
}

/// Copies a token, keeping what it is.
pub fn copy_token(t: &LexerToken) -> (r: LexerToken)
    ensures
        r@ == t@,
{
    match t {
        LexerToken::Comma => LexerToken::Comma,
        LexerToken::Quote => LexerToken::Quote,
        LexerToken::Period => LexerToken::Period,
        LexerToken::QuestionMark => LexerToken::QuestionMark,
        LexerToken::ExclamationMark => LexerToken::ExclamationMark,
        LexerToken::Text(s) => LexerToken::Text(s.clone()),
        LexerToken::Unknown => LexerToken::Unknown,
    }
}

} // verus!
