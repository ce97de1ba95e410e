//! Word segmentation for the archive: a fine, search-mode cut when a text is
//! indexed and the plain cut when a query is read.
use crate::text::{is_blank, is_blank_text, push_char};
use vstd::prelude::*;

verus! {

#[verifier::external_type_specification]
#[verifier::external_body]
pub struct ExJieba(jieba_rs::Jieba);

/// The words that jieba's search-mode cut (HMM off, default dictionary) gives for a text.
pub uninterp spec fn search_cut_of(text: Seq<char>) -> Seq<Seq<char>>;

/// The words that jieba's plain cut (HMM off, default dictionary) gives for a text.
pub uninterp spec fn plain_cut_of(text: Seq<char>) -> Seq<Seq<char>>;

pub open spec fn views(v: Seq<String>) -> Seq<Seq<char>> {
    v.map_values(|s: String| s@)
}

/// The tokens that hold something besides whitespace, in their order.
pub open spec fn kept(ts: Seq<Seq<char>>) -> Seq<Seq<char>>
    decreases ts.len(),
{
    if ts.len() == 0 {
        Seq::empty()
    } else if is_blank(ts.last()) {
        kept(ts.drop_last())
    } else {
        kept(ts.drop_last()).push(ts.last())
    }
}

/// The pieces written one after another, with `sep` between each two.
pub open spec fn joined_by(ts: Seq<Seq<char>>, sep: char) -> Seq<char>
    decreases ts.len(),
{
    if ts.len() == 0 {
        Seq::empty()
    } else if ts.len() == 1 {
        ts[0]
    } else {
        joined_by(ts.drop_last(), sep) + seq![sep] + ts.last()
    }
}

/// The tokens written one after another, separated by single spaces.
pub open spec fn joined(ts: Seq<Seq<char>>) -> Seq<char> {
    joined_by(ts, ' ')
}

/// The index projection of a text: its search-mode words, blanks dropped, space-joined.
pub open spec fn index_projection(text: Seq<char>) -> Seq<char> {
    joined(kept(search_cut_of(text)))
}

/// The query-mode words of a text, blanks dropped.
pub open spec fn query_tokens(text: Seq<char>) -> Seq<Seq<char>> {
    kept(plain_cut_of(text))
}

/// A segmenter over jieba's default dictionary, which nothing can change afterwards.
pub struct Tokenizer {
    jieba: jieba_rs::Jieba,
}

/// Relies on `jieba_rs::Jieba::new`: a segmenter loaded with the default dictionary.
#[verifier::external_body]
fn default_jieba() -> (r: jieba_rs::Jieba) {
    jieba_rs::Jieba::new()
}

/// Relies on `jieba_rs::Jieba::cut_for_search` with HMM off: over the default
/// dictionary its words are a function of the text alone.
#[verifier::external_body]
fn cut_for_search(jieba: &jieba_rs::Jieba, text: &str) -> (r: Vec<String>)
    ensures
        views(r@) == search_cut_of(text@),
{
    jieba.cut_for_search(text, false).into_iter().map(|w| w.to_string()).collect()
}

/// Relies on `jieba_rs::Jieba::cut` with HMM off: over the default dictionary its
/// words are a function of the text alone.
#[verifier::external_body]
fn cut(jieba: &jieba_rs::Jieba, text: &str) -> (r: Vec<String>)
    ensures
        views(r@) == plain_cut_of(text@),
{
    jieba.cut(text, false).into_iter().map(|w| w.to_string()).collect()
}

/// Keeps the tokens that hold something besides whitespace, in their order.
pub fn keep_nonblank(tokens: Vec<String>) -> (r: Vec<String>)
    ensures
        views(r@) == kept(views(tokens@)),
{
    let mut r: Vec<String> = Vec::new();
    let n = tokens.len();
    let mut i: usize = 0;
    while i < n
        invariant
            n == tokens@.len(),
            i <= n,
            views(r@) =~= kept(views(tokens@).take(i as int)),
        decreases n - i,
    {
        let blank = is_blank_text(tokens[i].as_str());
        assert(views(tokens@).take(i + 1).drop_last() =~= views(tokens@).take(i as int));
        if !blank {
            r.push(tokens[i].clone());
        }
        i = i + 1;
        assert(views(r@) =~= kept(views(tokens@).take(i as int)));
    }
    assert(views(tokens@).take(n as int) =~= views(tokens@));
    r
}

/// Writes the pieces one after another, with `sep` between each two.
pub fn join_with(tokens: &Vec<String>, sep: char) -> (r: String)
    ensures
        r@ == joined_by(views(tokens@), sep),
{
    let mut r = String::new();
    let n = tokens.len();
    let mut i: usize = 0;
    while i < n
        invariant
            n == tokens@.len(),
            i <= n,
            r@ == joined_by(views(tokens@).take(i as int), sep),
        decreases n - i,
    {
        assert(views(tokens@).take(i + 1).drop_last() =~= views(tokens@).take(i as int));
        if i > 0 {
            push_char(&mut r, sep);
        }
        r.append(tokens[i].as_str());
        i = i + 1;
        assert(r@ =~= joined_by(views(tokens@).take(i as int), sep));
    }
    assert(views(tokens@).take(n as int) =~= views(tokens@));
    r
}

/// The index projection built from the words of a search-mode cut.
pub fn projection_of(words: Vec<String>) -> (r: String)
    ensures
        r@ == joined(kept(views(words@))),
{
    let kept_words = keep_nonblank(words);
    join_with(&kept_words, ' ')
}

/// The match expression built from the words of a plain cut, or `None` when no word
/// holds anything besides whitespace: such a query matches nothing.
pub fn match_expr_of(words: Vec<String>) -> (r: Option<String>)
    ensures
        kept(views(words@)).len() == 0 <==> r is None,
        r matches Some(s) ==> s@ == joined(kept(views(words@))),
{
    let kept_words = keep_nonblank(words);
    if kept_words.len() == 0 {
        None
    } else {
        Some(join_with(&kept_words, ' '))
    }
}

impl Tokenizer {
    /// A segmenter over the default dictionary.
    pub fn new() -> (r: Tokenizer) {
        Tokenizer { jieba: default_jieba() }
    }

    /// Index-mode segmentation: the search-mode words that hold something besides
    /// whitespace.
    pub fn segment_for_index(&self, text: &str) -> (r: Vec<String>)
        ensures
            views(r@) == kept(search_cut_of(text@)),
    {
        keep_nonblank(cut_for_search(&self.jieba, text))
    }

    /// Query-mode segmentation: the plain-cut words that hold something besides
    /// whitespace.
    pub fn segment_for_query(&self, text: &str) -> (r: Vec<String>)
        ensures
            views(r@) == query_tokens(text@),
    {
        keep_nonblank(cut(&self.jieba, text))
    }

    /// The index projection of a text.
    pub fn index_text(&self, text: &str) -> (r: String)
        ensures
            r@ == index_projection(text@),
    {
        projection_of(cut_for_search(&self.jieba, text))
    }

    /// The match expression for a query, or `None` when its query-mode tokens are
    /// empty, in which case the search returns nothing.
    pub fn match_expr(&self, query: &str) -> (r: Option<String>)
        ensures
            query_tokens(query@).len() == 0 <==> r is None,
            r matches Some(s) ==> s@ == joined(query_tokens(query@)),
    {
        match_expr_of(cut(&self.jieba, query))
    }
}

} // verus!
