use vstd::prelude::*;
use crate::keyword_defs::{phrases_view, words_view};
use crate::types::{tokens_view, LexerToken, TokenModel};

verus! {

pub open spec fn text_of(t: TokenModel) -> Seq<char> {
    match t {
        TokenModel::Text(w) => w,
        _ => Seq::empty(),
    }
}

/// Whether the token at `i` is the word `w`.
pub open spec fn is_word_at(g: Seq<TokenModel>, i: int, w: Seq<char>) -> bool {
    0 <= i < g.len() && g[i] == TokenModel::Text(w)
}

/// Whether `w` is one of `words`, or the first word of one of `phrases`.
pub open spec fn is_stop(w: Seq<char>, words: Seq<Seq<char>>, phrases: Seq<Seq<Seq<char>>>) -> bool {
    words.contains(w) || exists|k: int|
        0 <= k < phrases.len() && phrases[k].len() > 0 && #[trigger] phrases[k][0] == w
}

/// How many tokens from `start` on are words that are not stop words: the
/// run ends at the first token that is not a word, or is a stop word.
pub open spec fn run_len(
    g: Seq<TokenModel>,
    start: int,
    words: Seq<Seq<char>>,
    phrases: Seq<Seq<Seq<char>>>,
) -> int
    decreases g.len() - start,
{
    if 0 <= start < g.len() && g[start] is Text && !is_stop(text_of(g[start]), words, phrases) {
        1 + run_len(g, start + 1, words, phrases)
    } else {
        0
    }
}

/// The words of `g[a..b]`, joined by single spaces.
pub open spec fn join_words(g: Seq<TokenModel>, a: int, b: int) -> Seq<char>
    decreases b - a,
{
    if b <= a {
        Seq::empty()
    } else if b == a + 1 {
        text_of(g[a])
    } else {
        join_words(g, a, b - 1) + seq![' '] + text_of(g[b - 1])
    }
}

/// Whether the words of `phrase` stand in `g` from `i` on.
pub open spec fn phrase_at(g: Seq<TokenModel>, i: int, phrase: Seq<Seq<char>>) -> bool {
    0 <= i && i + phrase.len() <= g.len() && forall|j: int|
        0 <= j < phrase.len() ==> g[i + j] == TokenModel::Text(#[trigger] phrase[j])
}

pub open spec fn first_phrase_from(
    g: Seq<TokenModel>,
    i: int,
    phrases: Seq<Seq<Seq<char>>>,
    k: int,
) -> Option<int>
    decreases phrases.len() - k,
{
    if k < 0 || k >= phrases.len() {
        None
    } else if phrase_at(g, i, phrases[k]) {
        Some(phrases[k].len() as int)
    } else {
        first_phrase_from(g, i, phrases, k + 1)
    }
}

/// The length of the first of `phrases`, in list order, that stands at `i`.
pub open spec fn first_phrase(g: Seq<TokenModel>, i: int, phrases: Seq<Seq<Seq<char>>>) -> Option<
    int,
> {
    first_phrase_from(g, i, phrases, 0)
}

/// A statement's last part ends at `i`: there, either the tokens end, or a
/// comma opens a subordinate clause that the grammar ignores.
pub open spec fn clause_end(g: Seq<TokenModel>, i: int) -> bool {
    i == g.len() || (0 <= i < g.len() && g[i] is Comma)
}

pub fn word_at(g: &Vec<LexerToken>, i: usize, w: &str) -> (r: bool)
    ensures
        r == is_word_at(tokens_view(g@), i as int, w@),
{
    if i < g.len() {
        match &g[i] {
            LexerToken::Text(s) => s.eq(&String::from_str(w)),
            _ => false,
        }
    } else {
        false
    }
}

pub fn comma_at(g: &Vec<LexerToken>, i: usize) -> (r: bool)
    ensures
        r == (0 <= i < g.len() && tokens_view(g@)[i as int] is Comma),
{
    i < g.len() && matches!(g[i], LexerToken::Comma)
}

pub fn contains_word(words: &Vec<String>, w: &String) -> (r: bool)
    ensures
        r == words_view(words@).contains(w@),
{
    let mut j: usize = 0;
    while j < words.len()
        invariant
            j <= words.len(),
            forall|x: int| 0 <= x < j ==> words_view(words@)[x] != w@,
        decreases words.len() - j,
    {
        if words[j].eq(w) {
            assert(words_view(words@)[j as int] == w@);
            return true;
        }
        j += 1;
    }
    false
}

pub fn stop_word(w: &String, words: &Vec<String>, phrases: &Vec<Vec<String>>) -> (r: bool)
    ensures
        r == is_stop(w@, words_view(words@), phrases_view(phrases@)),
{
    if contains_word(words, w) {
        return true;
    }
    let mut k: usize = 0;
    while k < phrases.len()
        invariant
            k <= phrases.len(),
            forall|x: int|
                0 <= x < k ==> !(phrases_view(phrases@)[x].len() > 0 && #[trigger] phrases_view(
                    phrases@,
                )[x][0] == w@),
        decreases phrases.len() - k,
    {
        let p = &phrases[k];
        assert(phrases_view(phrases@)[k as int] == words_view(p@));
        if p.len() > 0 && p[0].eq(w) {
            assert(phrases_view(phrases@)[k as int][0] == w@);
            return true;
        }
        k += 1;
    }
    false
}

pub fn run_length(g: &Vec<LexerToken>, start: usize, words: &Vec<String>, phrases: &Vec<Vec<String>>) -> (r: usize)
    requires
        start <= g.len(),
    ensures
        r as int == run_len(tokens_view(g@), start as int, words_view(words@), phrases_view(phrases@)),
        start + r <= g.len(),
{
    let ghost t = tokens_view(g@);
    let ghost ws = words_view(words@);
    let ghost ps = phrases_view(phrases@);
    let mut i = start;
    let mut done = false;
    while i < g.len() && !done
        invariant
            start <= i <= g.len(),
            t == tokens_view(g@),
            ws == words_view(words@),
            ps == phrases_view(phrases@),
            run_len(t, start as int, ws, ps) == (i - start) + run_len(t, i as int, ws, ps),
            done ==> run_len(t, i as int, ws, ps) == 0,
        decreases g.len() - i + if done { 0int } else { 1int },
    {
        assert(t[i as int] == g@[i as int]@);
        match &g[i] {
            LexerToken::Text(w) => {
                if stop_word(w, words, phrases) {
                    done = true;
                } else {
                    i += 1;
                }
            },
            _ => {
                done = true;
            },
        }
    }
    i - start
}

pub fn join_range(g: &Vec<LexerToken>, a: usize, b: usize) -> (r: String)
    requires
        a <= b <= g.len(),
    ensures
        r@ == join_words(tokens_view(g@), a as int, b as int),
{
    let mut r = String::new();
    let mut i = a;
    while i < b
        invariant
            a <= i <= b <= g.len(),
            r@ == join_words(tokens_view(g@), a as int, i as int),
        decreases b - i,
    {
        let ghost before = r@;
        proof {
            reveal_strlit(" ");
        }
        assert(tokens_view(g@)[i as int] == g@[i as int]@);
        if i > a {
            r.append(" ");
        }
        match &g[i] {
            LexerToken::Text(w) => r.append(w.as_str()),
            _ => {},
        }
        i += 1;
        assert(r@ =~= join_words(tokens_view(g@), a as int, i as int));
    }
    r
}

pub fn phrase_matches(g: &Vec<LexerToken>, i: usize, phrase: &Vec<String>) -> (r: bool)
    ensures
        r == phrase_at(tokens_view(g@), i as int, words_view(phrase@)),
{
    let ghost t = tokens_view(g@);
    let ghost ph = words_view(phrase@);
    if i > g.len() || g.len() - i < phrase.len() {
        return false;
    }
    let mut j: usize = 0;
    while j < phrase.len()
        invariant
            j <= phrase.len(),
            i + phrase.len() <= g.len(),
            t == tokens_view(g@),
            ph == words_view(phrase@),
            forall|x: int| 0 <= x < j ==> t[i + x] == TokenModel::Text(#[trigger] ph[x]),
        decreases phrase.len() - j,
    {
        let ok = match &g[i + j] {
            LexerToken::Text(w) => w.eq(&phrase[j]),
            _ => false,
        };
        if !ok {
            assert(t[i + j] != TokenModel::Text(ph[j as int]));
            return false;
        }
        j += 1;
    }
    true
}

pub fn first_phrase_len(g: &Vec<LexerToken>, i: usize, phrases: &Vec<Vec<String>>) -> (r: Option<usize>)
    ensures
        match r {
            Some(m) => first_phrase(tokens_view(g@), i as int, phrases_view(phrases@)) == Some(m as int),
            None => first_phrase(tokens_view(g@), i as int, phrases_view(phrases@)) is None,
        },
        r matches Some(m) ==> i + m <= g.len(),
{
    let ghost t = tokens_view(g@);
    let ghost ps = phrases_view(phrases@);
    let mut k: usize = 0;
    while k < phrases.len()
        invariant
            k <= phrases.len(),
            t == tokens_view(g@),
            ps == phrases_view(phrases@),
            first_phrase(t, i as int, ps) == first_phrase_from(t, i as int, ps, k as int),
        decreases phrases.len() - k,
    {
        assert(ps[k as int] == words_view(phrases@[k as int]@));
        if phrase_matches(g, i, &phrases[k]) {
            return Some(phrases[k].len());
        }
        k += 1;
    }
    None
}

/// Words joined by single spaces.
pub open spec fn spaced(ws: Seq<Seq<char>>) -> Seq<char>
    decreases ws.len(),
{
    if ws.len() == 0 {
        Seq::empty()
    } else if ws.len() == 1 {
        ws[0]
    } else {
        spaced(ws.drop_last()) + seq![' '] + ws.last()
    }
}

pub open spec fn is_article(w: Seq<char>) -> bool {
    w == "a"@ || w == "an"@ || w == "the"@
}

/// A word without a possessive `'s` ending (a word that is only `'s` stays).
pub open spec fn strip_possessive(w: Seq<char>) -> Seq<char> {
    if w.len() > 2 && w[w.len() - 2] == '\'' && w[w.len() - 1] == 's' {
        w.take(w.len() - 2)
    } else {
        w
    }
}

/// The words of `g[a..b]` that make a variable's name: articles dropped,
/// possessive endings removed.
pub open spec fn subject_words(g: Seq<TokenModel>, a: int, b: int) -> Seq<Seq<char>>
    decreases b - a,
{
    if b <= a {
        Seq::empty()
    } else if is_article(text_of(g[b - 1])) {
        subject_words(g, a, b - 1)
    } else {
        subject_words(g, a, b - 1).push(strip_possessive(text_of(g[b - 1])))
    }
}

/// The normalized name of the variable that `g[a..b]` names.
pub open spec fn subject_name(g: Seq<TokenModel>, a: int, b: int) -> Seq<char> {
    spaced(subject_words(g, a, b))
}

fn article(w: &String) -> (r: bool)
    ensures
        r == is_article(w@),
{
    w.eq(&String::from_str("a")) || w.eq(&String::from_str("an")) || w.eq(&String::from_str("the"))
}

fn without_possessive(w: &String) -> (r: String)
    ensures
        r@ == strip_possessive(w@),
{
    let n = w.as_str().unicode_len();
    if n > 2 && w.as_str().get_char(n - 2) == '\'' && w.as_str().get_char(n - 1) == 's' {
        String::from_str(w.as_str().substring_char(0, n - 2))
    } else {
        w.clone()
    }
}

/// The normalized name of the variable that `g[a..b]` names.
pub fn subject_range(g: &Vec<LexerToken>, a: usize, b: usize) -> (r: String)
    requires
        a <= b <= g.len(),
    ensures
        r@ == subject_name(tokens_view(g@), a as int, b as int),
{
    let ghost t = tokens_view(g@);
    let mut r = String::new();
    let mut count: usize = 0;
    let mut i = a;
    proof {
        reveal_strlit(" ");
    }
    while i < b
        invariant
            a <= i <= b <= g.len(),
            t == tokens_view(g@),
            count as int == subject_words(t, a as int, i as int).len(),
            count <= i - a,
            r@ == spaced(subject_words(t, a as int, i as int)),
            " "@ == seq![' '],
        decreases b - i,
    {
        assert(t[i as int] == g@[i as int]@);
        let ghost ws = subject_words(t, a as int, i as int);
        let empty = String::new();
        let w = match &g[i] {
            LexerToken::Text(w) => w,
            _ => &empty,
        };
        assert(w@ == text_of(t[i as int]));
        if !article(w) {
            let stripped = without_possessive(w);
            if count > 0 {
                r.append(" ");
            }
            r.append(stripped.as_str());
            assert(ws.push(stripped@).drop_last() =~= ws);
            if count == 0 {
                assert(ws.push(stripped@) =~= seq![stripped@]);
            }
            assert(r@ =~= spaced(ws.push(stripped@)));
            count = count + 1;
        }
        i += 1;
    }
    r
}

} // verus!
