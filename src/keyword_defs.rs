use vstd::prelude::*;

verus! {

/// The keyword lists of the grammar. Multi-word keywords are phrases: a list
/// of words that must stand next to each other.
pub struct KeywordDefs {
    pub to_be: Vec<Vec<String>>,
    pub positive_adjective: Vec<String>,
    pub negative_adjective: Vec<String>,
    pub said: Vec<String>,
    pub goto: Vec<Vec<String>>,
    pub positive_comparative_adjective: Vec<String>,
    pub negative_comparative_adjective: Vec<String>,
}

pub struct KeywordsModel {
    pub to_be: Seq<Seq<Seq<char>>>,
    pub positive_adjective: Seq<Seq<char>>,
    pub negative_adjective: Seq<Seq<char>>,
    pub said: Seq<Seq<char>>,
    pub goto: Seq<Seq<Seq<char>>>,
    pub positive_comparative_adjective: Seq<Seq<char>>,
    pub negative_comparative_adjective: Seq<Seq<char>>,
}

pub open spec fn words_view(v: Seq<String>) -> Seq<Seq<char>> {
    v.map_values(|s: String| s@)
}

pub open spec fn phrases_view(v: Seq<Vec<String>>) -> Seq<Seq<Seq<char>>> {
    v.map_values(|p: Vec<String>| words_view(p@))
}

impl View for KeywordDefs {
    type V = KeywordsModel;

    open spec fn view(&self) -> KeywordsModel {
        KeywordsModel {
            to_be: phrases_view(self.to_be@),
            positive_adjective: words_view(self.positive_adjective@),
            negative_adjective: words_view(self.negative_adjective@),
            said: words_view(self.said@),
            goto: phrases_view(self.goto@),
            positive_comparative_adjective: words_view(self.positive_comparative_adjective@),
            negative_comparative_adjective: words_view(self.negative_comparative_adjective@),
        }
    }
}

pub open spec fn str_views(a: Seq<&str>) -> Seq<Seq<char>> {
    a.map_values(|s: &str| s@)
}

pub open spec fn to_be_words() -> Seq<Seq<Seq<char>>> {
    seq![
        str_views(seq!["was"]),
        str_views(seq!["were"]),
        str_views(seq!["is"]),
        str_views(seq!["are"]),
        str_views(seq!["wanted", "to", "be", "like"]),
        str_views(seq!["wants", "to", "be", "like"]),
    ]
}

pub open spec fn goto_words() -> Seq<Seq<Seq<char>>> {
    seq![
        str_views(seq!["go", "to"]),
        str_views(seq!["goes", "to"]),
        str_views(seq!["went", "to"]),
        str_views(seq!["gone", "to"]),
        str_views(seq!["going", "to"]),
    ]
}

pub open spec fn positive_adjective_words() -> Seq<Seq<char>> {
    str_views(
        seq![
            "good", "great", "awesome", "amazing", "fantastic", "wonderful", "incredible", "nice",
            "cool", "happy", "joyful", "joyous", "glad", "delighted", "pleased", "satisfied",
            "content", "cheerful", "merry", "jolly", "jovial", "gleeful", "carefree", "sunny",
            "elated", "exhilarated", "ecstatic", "euphoric", "overjoyed", "exultant", "rapturous",
            "blissful", "radiant", "thrilled", "ravished",
        ],
    )
}

pub open spec fn negative_adjective_words() -> Seq<Seq<char>> {
    str_views(
        seq![
            "bad", "terrible", "awful", "horrible", "dreadful", "unpleasant", "unlucky",
            "displeased", "miserable", "sad", "sorrowful", "dejected", "regretful", "depressed",
            "downcast", "despondent", "disconsolate", "desolate", "glum", "gloomy", "melancholic",
            "mournful", "forlorn", "crestfallen", "broken-hearted", "heartbroken",
            "grief-stricken", "disheartened", "dismayed", "dispirited", "discouraged", "hopeless",
        ],
    )
}

pub open spec fn said_words() -> Seq<Seq<char>> {
    str_views(
        seq![
            "said", "stated", "exclaimed", "whispered", "shouted", "mumbled", "replied",
            "responded", "declared", "announced", "asserted", "acknowledged", "conveyed", "uttered",
            "ventured", "suggested", "disclosed", "protested", "objected", "interjected",
            "speculated", "greeted", "quoted", "noted", "mentioned", "alledged", "insisted",
            "confessed", "recited", "pleaded", "concluded", "inquired", "muttered",
        ],
    )
}

pub open spec fn positive_comparative_words() -> Seq<Seq<char>> {
    str_views(seq!["better", "greater", "stronger", "larger"])
}

pub open spec fn negative_comparative_words() -> Seq<Seq<char>> {
    str_views(seq!["worse", "less", "fewer", "smaller"])
}

/// The language's keyword lists.
pub open spec fn keyword_model() -> KeywordsModel {
    KeywordsModel {
        to_be: to_be_words(),
        positive_adjective: positive_adjective_words(),
        negative_adjective: negative_adjective_words(),
        said: said_words(),
        goto: goto_words(),
        positive_comparative_adjective: positive_comparative_words(),
        negative_comparative_adjective: negative_comparative_words(),
    }
}

pub fn strings_of(a: &[&str]) -> (r: Vec<String>)
    ensures
        words_view(r@) == str_views(a@),
{
    let mut r: Vec<String> = Vec::new();
    for i in 0..a.len()
        invariant
            words_view(r@) =~= str_views(a@).take(i as int),
    {
        let ghost before = r@;
        r.push(String::from_str(a[i]));
        assert(words_view(r@) =~= words_view(before).push(a@[i as int]@));
        assert(str_views(a@).take(i + 1) =~= str_views(a@).take(i as int).push(a@[i as int]@));
    }
    r
}

fn phrase(words: &[&str]) -> (r: Vec<String>)
    ensures
        words_view(r@) == str_views(words@),
{
    strings_of(words)
}

/// Builds the keyword lists.
pub fn defs() -> (r: KeywordDefs)
    ensures
        r@ == keyword_model(),
{
    let mut to_be: Vec<Vec<String>> = Vec::new();
    to_be.push(phrase(&["was"]));
    to_be.push(phrase(&["were"]));
    to_be.push(phrase(&["is"]));
    to_be.push(phrase(&["are"]));
    to_be.push(phrase(&["wanted", "to", "be", "like"]));
    to_be.push(phrase(&["wants", "to", "be", "like"]));
    assert(to_be@.len() == 6);
    assert(phrases_view(to_be@)[0] == to_be_words()[0]);
    assert(phrases_view(to_be@)[1] == to_be_words()[1]);
    assert(phrases_view(to_be@)[2] == to_be_words()[2]);
    assert(phrases_view(to_be@)[3] == to_be_words()[3]);
    assert(phrases_view(to_be@)[4] == to_be_words()[4]);
    assert(phrases_view(to_be@)[5] == to_be_words()[5]);
    assert(phrases_view(to_be@) =~= to_be_words());
    let mut goto: Vec<Vec<String>> = Vec::new();
    goto.push(phrase(&["go", "to"]));
    goto.push(phrase(&["goes", "to"]));
    goto.push(phrase(&["went", "to"]));
    goto.push(phrase(&["gone", "to"]));
    goto.push(phrase(&["going", "to"]));
    let positive_adjective = strings_of(
        &[
            "good", "great", "awesome", "amazing", "fantastic", "wonderful", "incredible", "nice",
            "cool", "happy", "joyful", "joyous", "glad", "delighted", "pleased", "satisfied",
            "content", "cheerful", "merry", "jolly", "jovial", "gleeful", "carefree", "sunny",
            "elated", "exhilarated", "ecstatic", "euphoric", "overjoyed", "exultant", "rapturous",
            "blissful", "radiant", "thrilled", "ravished",
        ],
    );
    let negative_adjective = strings_of(
        &[
            "bad", "terrible", "awful", "horrible", "dreadful", "unpleasant", "unlucky",
            "displeased", "miserable", "sad", "sorrowful", "dejected", "regretful", "depressed",
            "downcast", "despondent", "disconsolate", "desolate", "glum", "gloomy", "melancholic",
            "mournful", "forlorn", "crestfallen", "broken-hearted", "heartbroken",
            "grief-stricken", "disheartened", "dismayed", "dispirited", "discouraged", "hopeless",
        ],
    );
    let said = strings_of(
        &[
            "said", "stated", "exclaimed", "whispered", "shouted", "mumbled", "replied",
            "responded", "declared", "announced", "asserted", "acknowledged", "conveyed", "uttered",
            "ventured", "suggested", "disclosed", "protested", "objected", "interjected",
            "speculated", "greeted", "quoted", "noted", "mentioned", "alledged", "insisted",
            "confessed", "recited", "pleaded", "concluded", "inquired", "muttered",
        ],
    );
    let positive_comparative_adjective = strings_of(&["better", "greater", "stronger", "larger"]);
    let negative_comparative_adjective = strings_of(&["worse", "less", "fewer", "smaller"]);
    let r = KeywordDefs {
        to_be,
        positive_adjective,
        negative_adjective,
        said,
        goto,
        positive_comparative_adjective,
        negative_comparative_adjective,
    };
    assert(r@.to_be =~= to_be_words());
    assert(r@.goto =~= goto_words());
    r
}

} // verus!
