//! Archived records, the entry that archiving one writes, and their display form.
use crate::text::{
    decimal, digit_char, escape_html, escaped, flatten_lines, flattened, is_blank,
    lemma_blank_iff_trims_to_empty, lemma_escaped_has_no_angle_brackets,
    lemma_escaped_keeps_one_line, push_char, push_decimal, push_signed_decimal, signed_decimal,
    trim, trimmed,
};
use crate::tokenizer::{index_projection, join_with, joined_by, views, Tokenizer};
use vstd::prelude::*;

verus! {

/// How many characters of a record's text its summary shows.
pub const SUMMARY_CHARS: usize = 30;

/// The offset between a group's chat id and the id that its public links use.
pub const LINK_ID_OFFSET: i64 = 1_000_000_000_000;

/// A message archived under a group chat, as a search returns it.
pub struct Message {
    pub user_id: u64,
    pub group_id: i64,
    pub message_id: i32,
    pub text: String,
    /// The relevance of a search hit in hundredths (lower is better); zero when the
    /// record did not come from a search.
    pub score: i64,
}

/// A message archived without a group, such as a channel post.
pub struct GlobalMessage {
    pub user_id: u64,
    pub text: String,
}

/// What archiving a text writes: the text itself and its index projection, as one unit.
pub struct ArchiveEntry {
    pub text: String,
    pub tokens: String,
}

/// The id that a group's public message links use.
pub open spec fn link_id(group_id: int) -> int {
    (if group_id < 0 {
        -group_id
    } else {
        group_id
    }) - LINK_ID_OFFSET
}

pub open spec fn message_url(group_id: int, message_id: int) -> Seq<char> {
    "https://t.me/c/"@ + signed_decimal(link_id(group_id)) + seq!['/'] + signed_decimal(
        message_id,
    )
}

/// The part of a text that a summary shows: its first characters, on one line, escaped.
pub open spec fn summary_text(text: Seq<char>) -> Seq<char> {
    escaped(flattened(text.take(shown_chars(text.len()))))
}

/// How many characters of a text of `len` characters a summary shows.
pub open spec fn shown_chars(len: nat) -> int {
    if len < SUMMARY_CHARS {
        len as int
    } else {
        SUMMARY_CHARS as int
    }
}

/// A score in hundredths written with two decimal places.
pub open spec fn score_text(x: int) -> Seq<char> {
    let m: nat = (if x < 0 {
        -x
    } else {
        x
    }) as nat;
    (if x < 0 {
        seq!['-']
    } else {
        Seq::empty()
    }) + decimal(m / 100) + seq!['.', digit_char((m / 10) % 10), digit_char(m % 10)]
}

pub open spec fn summary(m: Message) -> Seq<char> {
    "<a href=\""@ + message_url(m.group_id as int, m.message_id as int) + "\">"@ + summary_text(
        m.text@,
    ) + "</a> = "@ + score_text(m.score as int)
}

/// The entry that archiving `text` writes, or `None` when nothing is to be archived.
pub open spec fn entry_for(text: Seq<char>) -> Option<(Seq<char>, Seq<char>)> {
    if trimmed(text).len() == 0 {
        None
    } else {
        Some((trimmed(text), index_projection(trimmed(text))))
    }
}

pub open spec fn entry_view(e: Option<ArchiveEntry>) -> Option<(Seq<char>, Seq<char>)> {
    match e {
        Some(e) => Some((e.text@, e.tokens@)),
        None => None,
    }
}

/// The entry that archiving `text` writes: the trimmed text with the index projection
/// of it, or `None` when the trimmed text is empty.
pub fn archive_entry(tokenizer: &Tokenizer, text: &str) -> (r: Option<ArchiveEntry>)
    ensures
        entry_view(r) == entry_for(text@),
{
    let t = trim(text);
    if t.unicode_len() == 0 {
        None
    } else {
        let tokens = tokenizer.index_text(t.as_str());
        Some(ArchiveEntry { text: t, tokens })
    }
}

/// A text with nothing but whitespace is never archived, so neither the records nor
/// their index grow.
pub proof fn lemma_blank_text_is_not_archived(text: Seq<char>)
    requires
        is_blank(text),
    ensures
        entry_for(text) is None,
{
    lemma_blank_iff_trims_to_empty(text);
}

/// The text part of a summary is one line that opens and closes no markup, made of
/// at most the first thirty characters of the record's text.
pub proof fn lemma_summary_text_is_one_safe_line(text: Seq<char>)
    ensures
        forall|i: int|
            0 <= i < summary_text(text).len() ==> #[trigger] summary_text(text)[i] != '<'
                && summary_text(text)[i] != '>' && summary_text(text)[i] != '\n',
        summary_text(text) == escaped(flattened(text.take(shown_chars(text.len())))),
{
    let flat = flattened(text.take(shown_chars(text.len())));
    assert forall|i: int| 0 <= i < flat.len() implies #[trigger] flat[i] != '\n' by {}
    lemma_escaped_keeps_one_line(flat);
    lemma_escaped_has_no_angle_brackets(flat);
}

/// Appends a score in hundredths with two decimal places.
fn push_score(s: &mut String, x: i64)
    ensures
        final(s)@ == old(s)@ + score_text(x as int),
{
    let ghost s0 = s@;
    let m: u64 = if x < 0 {
        (0 - (x as i128)) as u64
    } else {
        x as u64
    };
    if x < 0 {
        push_char(s, '-');
    }
    push_decimal(s, m / 100);
    push_char(s, '.');
    push_char(s, crate::text::digit((m / 10) % 10));
    push_char(s, crate::text::digit(m % 10));
    assert(s@ =~= s0 + score_text(x as int));
}

impl Message {
    /// The public link of this message.
    pub fn to_message_url(&self) -> (r: String)
        ensures
            r@ == message_url(self.group_id as int, self.message_id as int),
    {
        let mut r = String::from_str("https://t.me/c/");
        let g = self.group_id as i128;
        let a: i128 = if g < 0 {
            0 - g
        } else {
            g
        };
        let id = (a - LINK_ID_OFFSET as i128) as i64;
        push_signed_decimal(&mut r, id);
        push_char(&mut r, '/');
        push_signed_decimal(&mut r, self.message_id as i64);
        r
    }

    /// One line of search results: the linked, escaped start of the text and the score.
    pub fn to_message_url_detailed(&self) -> (r: String)
        ensures
            r@ == summary(*self),
    {
        let url = self.to_message_url();
        let n = self.text.as_str().unicode_len();
        let k: usize = if n < SUMMARY_CHARS {
            n
        } else {
            SUMMARY_CHARS
        };
        let head = self.text.as_str().substring_char(0, k);
        let flat = flatten_lines(head);
        let shown = escape_html(flat.as_str());
        let mut r = String::from_str("<a href=\"");
        r.append(url.as_str());
        r.append("\">");
        r.append(shown.as_str());
        r.append("</a> = ");
        push_score(&mut r, self.score);
        assert(r@ =~= summary(*self));
        r
    }

    /// The entry that archiving this message writes, if any.
    pub fn archive_entry(&self, tokenizer: &Tokenizer) -> (r: Option<ArchiveEntry>)
        ensures
            entry_view(r) == entry_for(self.text@),
    {
        archive_entry(tokenizer, self.text.as_str())
    }
}

impl GlobalMessage {
    /// The entry that archiving this message writes, if any.
    pub fn archive_entry(&self, tokenizer: &Tokenizer) -> (r: Option<ArchiveEntry>)
        ensures
            entry_view(r) == entry_for(self.text@),
    {
        archive_entry(tokenizer, self.text.as_str())
    }
}

/// The reply to a search: one summary line per result, or a notice when there is none.
pub fn search_reply(results: &Vec<Message>) -> (r: String)
    ensures
        results@.len() == 0 ==> r@ == "未找到相关消息。"@,
        results@.len() > 0 ==> r@ == joined_by(results@.map_values(|m: Message| summary(m)), '\n'),
{
    if results.len() == 0 {
        return String::from_str("未找到相关消息。");
    }
    let mut lines: Vec<String> = Vec::new();
    let n = results.len();
    let mut i: usize = 0;
    while i < n
        invariant
            n == results@.len(),
            i <= n,
            lines@.len() == i,
            views(lines@) =~= results@.take(i as int).map_values(|m: Message| summary(m)),
        decreases n - i,
    {
        let line = results[i].to_message_url_detailed();
        let ghost before = lines@;
        lines.push(line);
        proof {
            let want = results@.take(i + 1).map_values(|m: Message| summary(m));
            assert forall|k: int| 0 <= k <= i implies #[trigger] views(lines@)[k] == want[k] by {
                assert(results@.take(i + 1)[k] == results@[k]);
                if k < i {
                    assert(lines@[k] == before[k]);
                    assert(views(before)[k] == before[k]@);
                    assert(results@.take(i as int)[k] == results@[k]);
                }
            }
            assert(views(lines@) =~= want);
        }
        i = i + 1;
    }
    assert(results@.take(n as int) =~= results@);
    join_with(&lines, '\n')
}

} // verus!
