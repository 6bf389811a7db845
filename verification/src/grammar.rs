//! The grammar of a token on the wire, as functions on a text and a position
//! in it.
//!
//! A token is the preamble, five fields, an action and a signature. A field
//! is a space and the characters up to the next space, which must exist. An
//! action is `LIST`, or one of the other keywords and at least one field. The
//! signature is what follows the space behind the action.

use crate::action::{kw_create, kw_del, kw_get, kw_list, kw_put, ActionView};
use crate::text::space;
use crate::token::{preamble, TokenView};
use vstd::prelude::*;

verus! {

/// The first position at or behind `from` that holds a space; the length of
/// the text if there is none.
pub open spec fn next_space(s: Seq<char>, from: int) -> int
    decreases s.len() - from,
{
    if from < 0 || from >= s.len() {
        s.len() as int
    } else if s[from] == ' ' {
        from
    } else {
        next_space(s, from + 1)
    }
}

/// `next_space` lies between its start and the end of the text, skips no
/// space, and stops on one unless it reaches the end.
pub proof fn lemma_next_space(s: Seq<char>, from: int)
    requires
        0 <= from <= s.len(),
    ensures
        from <= next_space(s, from) <= s.len(),
        forall|i: int| from <= i < next_space(s, from) ==> s[i] != ' ',
        next_space(s, from) < s.len() ==> s[next_space(s, from)] == ' ',
    decreases s.len() - from,
{
    if from < s.len() && s[from] != ' ' {
        lemma_next_space(s, from + 1);
    }
}

/// A position that no space precedes, from `from` on, and that holds a space
/// or ends the text, is the next space.
pub proof fn lemma_next_space_is(s: Seq<char>, from: int, e: int)
    requires
        0 <= from <= e <= s.len(),
        forall|i: int| from <= i < e ==> s[i] != ' ',
        e < s.len() ==> s[e] == ' ',
    ensures
        next_space(s, from) == e,
    decreases e - from,
{
    if from < e {
        lemma_next_space_is(s, from + 1, e);
    }
}

/// The word `w` stands in `s` at position `p`.
pub open spec fn has_at(s: Seq<char>, p: int, w: Seq<char>) -> bool {
    0 <= p && p + w.len() <= s.len() && s.subrange(p, p + w.len()) == w
}

/// A field at position `p`: a space, then the characters up to the next
/// space. The result is the field and the position of that next space.
pub open spec fn field_at(s: Seq<char>, p: int) -> Option<(Seq<char>, int)> {
    if 0 <= p < s.len() && s[p] == ' ' && next_space(s, p + 1) < s.len() {
        Some((s.subrange(p + 1, next_space(s, p + 1)), next_space(s, p + 1)))
    } else {
        None
    }
}

/// As many fields as can be read from position `p` on, and the position
/// behind the last of them.
pub open spec fn fields_from(s: Seq<char>, p: int) -> (Seq<Seq<char>>, int)
    decreases s.len() - p,
{
    match field_at(s, p) {
        Some((field, end)) => {
            proof {
                lemma_next_space(s, p + 1);
            }
            let (rest, last) = fields_from(s, end);
            (seq![field] + rest, last)
        },
        None => (Seq::empty(), p),
    }
}

/// A keyword at position `p` and at least one field behind it. The result is
/// the fields and the position behind the last of them.
pub open spec fn content_at(s: Seq<char>, p: int, keyword: Seq<char>) -> Option<
    (Seq<Seq<char>>, int),
> {
    if has_at(s, p, keyword) && fields_from(s, p + keyword.len()).0.len() >= 1 {
        Some(fields_from(s, p + keyword.len()))
    } else {
        None
    }
}

/// An action at position `p`, and the position behind it. The keywords are
/// tried in the order `GET`, `PUT`, `DEL`, `CREATE`, `LIST`.
pub open spec fn action_at(s: Seq<char>, p: int) -> Option<(ActionView, int)> {
    if let Some((items, end)) = content_at(s, p, kw_get()) {
        Some((ActionView::Get(items), end))
    } else if let Some((items, end)) = content_at(s, p, kw_put()) {
        Some((ActionView::Put(items), end))
    } else if let Some((items, end)) = content_at(s, p, kw_del()) {
        Some((ActionView::Del(items), end))
    } else if let Some((items, end)) = content_at(s, p, kw_create()) {
        Some((ActionView::Create { content: items }, end))
    } else if has_at(s, p, kw_list()) {
        Some((ActionView::List, p + kw_list().len()))
    } else {
        None
    }
}

/// The five fields behind the preamble, in the order of the wire, and the
/// position behind the last.
pub open spec fn head_at(s: Seq<char>) -> Option<(Seq<Seq<char>>, int)> {
    if !has_at(s, 0, preamble()) {
        None
    } else if let Some((domain, p1)) = field_at(s, preamble().len() as int) {
        if let Some((timestamp, p2)) = field_at(s, p1) {
            if let Some((pk, p3)) = field_at(s, p2) {
                if let Some((pkh, p4)) = field_at(s, p3) {
                    if let Some((orbit, p5)) = field_at(s, p4) {
                        Some((seq![domain, timestamp, pk, pkh, orbit], p5))
                    } else {
                        None
                    }
                } else {
                    None
                }
            } else {
                None
            }
        } else {
            None
        }
    } else {
        None
    }
}

/// What the grammar reads from a whole text: the token whose orbit is the
/// orbit field as written, or nothing if the text is no token.
pub open spec fn parse_wire(s: Seq<char>) -> Option<TokenView> {
    if let Some((head, p5)) = head_at(s) {
        if let Some((action, p6)) = action_at(s, p5 + 1) {
            if has_at(s, p6, space()) {
                Some(
                    TokenView {
                        sig: s.subrange(p6 + 1, s.len() as int),
                        domain: head[0],
                        timestamp: head[1],
                        pk: head[2],
                        pkh: head[3],
                        orbit: head[4],
                        action,
                    },
                )
            } else {
                None
            }
        } else {
            None
        }
    } else {
        None
    }
}

} // verus!
