//! What to do with a text that a user posts in a group.
use crate::consent::Config;
use crate::text::{trim, trimmed};
use vstd::prelude::*;

verus! {

/// How many results a search in a group returns at most.
pub const SEARCH_LIMIT: usize = 20;

/// What a posted text asks for.
pub enum Command {
    /// Search the group's archive for the query.
    Search(String),
    /// Turn the author's archiving switch the other way.
    Toggle,
    /// Archive the text.
    Archive,
    /// Nothing: an unknown command, or a text of a user who turned archiving off.
    Ignore,
}

pub open spec fn has_prefix(t: Seq<char>, p: Seq<char>) -> bool {
    p.len() <= t.len() && t.take(p.len() as int) == p
}

/// Whether `s` begins with `p`.
pub fn starts_with(s: &str, p: &str) -> (r: bool)
    ensures
        r == has_prefix(s@, p@),
{
    let n = s.unicode_len();
    let m = p.unicode_len();
    if m > n {
        return false;
    }
    let mut i: usize = 0;
    while i < m
        invariant
            n == s@.len(),
            m == p@.len(),
            m <= n,
            i <= m,
            forall|k: int| 0 <= k < i ==> s@[k] == p@[k],
        decreases m - i,
    {
        if s.get_char(i) != p.get_char(i) {
            assert(s@.take(m as int)[i as int] != p@[i as int]);
            return false;
        }
        i = i + 1;
    }
    assert(s@.take(m as int) =~= p@);
    true
}

/// Whether `s` and `p` are the same text.
pub fn same_text(s: &str, p: &str) -> (r: bool)
    ensures
        r == (s@ == p@),
{
    let same = s.unicode_len() == p.unicode_len() && starts_with(s, p);
    proof {
        if same || s@ == p@ {
            assert(s@ =~= s@.take(p@.len() as int));
        }
    }
    same
}

/// What the text `text`, posted by a user whose switch is `cfg`, asks for.
pub fn decide(text: &str, cfg: &Config) -> (r: Command)
    ensures
        has_prefix(text@, "/q "@) ==> (r matches Command::Search(q) && q@ == trimmed(
            text@.skip("/q "@.len() as int),
        )),
        has_prefix(text@, "/"@) && !has_prefix(text@, "/q "@) ==> if text@
            == "/toggle_my_searchability"@ {
            r is Toggle
        } else {
            r is Ignore
        },
        !has_prefix(text@, "/"@) ==> if cfg.allows() {
            r is Archive
        } else {
            r is Ignore
        },
{
    proof {
        reveal_strlit("/q ");
        reveal_strlit("/");
        if has_prefix(text@, "/q "@) {
            assert(text@.take(1) =~= "/"@);
            assert(text@.subrange(3, text@.len() as int) =~= text@.skip(3));
        }
    }
    if starts_with(text, "/") {
        if starts_with(text, "/q ") {
            let rest = text.substring_char("/q ".unicode_len(), text.unicode_len());
            Command::Search(trim(rest))
        } else if same_text(text, "/toggle_my_searchability") {
            Command::Toggle
        } else {
            Command::Ignore
        }
    } else if cfg.is_allowed() {
        Command::Archive
    } else {
        Command::Ignore
    }
}

/// The reply to a toggle: the state of the switch after it.
pub fn toggle_reply(cfg: &Config) -> (r: String)
    ensures
        r@ == "您的消息记录 "@ + if cfg.allows() {
            "已启用"@
        } else {
            "已禁用"@
        },
{
    let mut r = String::from_str("您的消息记录 ");
    if cfg.is_allowed() {
        r.append("已启用");
    } else {
        r.append("已禁用");
    }
    r
}

} // verus!
