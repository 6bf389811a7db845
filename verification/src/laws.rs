//! What holds between the grammar and the encoder: the grammar reads back
//! what the encoder writes, and only that.

use crate::action::{content_text, kw_create, kw_del, kw_get, kw_list, kw_put, ActionView};
use crate::grammar::{
    action_at, content_at, field_at, fields_from, has_at, head_at, lemma_next_space,
    lemma_next_space_is, parse_wire,
};
use crate::text::{lemma_join_spaced, no_space, space, spaced};
use crate::envelope::envelope;
use crate::signature::verified;
use crate::token::{preamble, TokenView};
use vstd::utf8::{encode_utf8, encode_utf8_decode_utf8};
use vstd::prelude::*;

verus! {

/// Every item is free of spaces.
pub open spec fn all_no_space(items: Seq<Seq<char>>) -> bool {
    forall|i: int| 0 <= i < items.len() ==> no_space(#[trigger] items[i])
}

/// A token that the wire can carry. The five fields hold no space. An action
/// other than `List` has at least one item, no item holds a space, and
/// neither does the signature. Behind `List` the signature is free.
pub open spec fn wire_valid(t: TokenView) -> bool {
    &&& no_space(t.domain)
    &&& no_space(t.timestamp)
    &&& no_space(t.pk)
    &&& no_space(t.pkh)
    &&& no_space(t.orbit)
    &&& t.action !is List ==> {
        &&& t.action.items().len() >= 1
        &&& all_no_space(t.action.items())
        &&& no_space(t.sig)
    }
}

/// Items behind a first one: a space, the first, and the others each behind
/// a space.
pub proof fn lemma_spaced_front(first: Seq<char>, rest: Seq<Seq<char>>)
    ensures
        spaced(seq![first] + rest) == space() + first + spaced(rest),
    decreases rest.len(),
{
    let all = seq![first] + rest;
    if rest.len() == 0 {
        assert(all.drop_last() =~= Seq::<Seq<char>>::empty());
        assert(spaced(all.drop_last()) =~= Seq::<char>::empty());
        assert(spaced(all) =~= space() + first + spaced(rest));
    } else {
        lemma_spaced_front(first, rest.drop_last());
        assert(all.drop_last() =~= seq![first] + rest.drop_last());
        assert(all.last() == rest.last());
        assert(spaced(all) =~= space() + first + spaced(rest));
    }
}

/// Items written each behind a space start with a space, if there are any.
pub proof fn lemma_spaced_starts(items: Seq<Seq<char>>)
    requires
        items.len() >= 1,
    ensures
        spaced(items).len() >= 1,
        spaced(items)[0] == ' ',
{
    let rest = items.subrange(1, items.len() as int);
    assert(items =~= seq![items[0]] + rest);
    lemma_spaced_front(items[0], rest);
}

/// A field that holds no space, written behind a space and before a text
/// that starts with a space, is read back.
pub proof fn lemma_field_concat(head: Seq<char>, field: Seq<char>, tail: Seq<char>)
    requires
        no_space(field),
        tail.len() >= 1,
        tail[0] == ' ',
    ensures
        field_at(head + space() + field + tail, head.len() as int) == Some(
            (field, (head.len() + 1 + field.len()) as int),
        ),
{
    let s = head + space() + field + tail;
    let p = head.len() as int;
    let e = p + 1 + field.len();
    assert(s[p] == ' ');
    assert(s[e] == tail[0]);
    assert forall|i: int| p + 1 <= i < e implies s[i] != ' ' by {
        assert(s[i] == field[i - p - 1]);
    }
    lemma_next_space_is(s, p + 1, e);
    assert(s.subrange(p + 1, e) =~= field);
}

/// A text that holds no space, written behind a space at the end, is no
/// field: no space closes it.
pub proof fn lemma_no_field_at_end(head: Seq<char>, last: Seq<char>)
    requires
        no_space(last),
    ensures
        field_at(head + space() + last, head.len() as int) is None,
{
    let s = head + space() + last;
    let p = head.len() as int;
    assert forall|i: int| p + 1 <= i < s.len() implies s[i] != ' ' by {
        assert(s[i] == last[i - p - 1]);
    }
    lemma_next_space_is(s, p + 1, s.len() as int);
}

/// Items that hold no space, each written behind a space and followed by a
/// space and a last text without a space, are read back, all of them and no
/// more.
pub proof fn lemma_fields_concat(head: Seq<char>, items: Seq<Seq<char>>, last: Seq<char>)
    requires
        all_no_space(items),
        no_space(last),
    ensures
        fields_from(head + spaced(items) + space() + last, head.len() as int) == (
            items,
            (head.len() + spaced(items).len()) as int,
        ),
    decreases items.len(),
{
    let s = head + spaced(items) + space() + last;
    let p = head.len() as int;
    if items.len() == 0 {
        assert(s =~= head + space() + last);
        lemma_no_field_at_end(head, last);
    } else {
        let first = items[0];
        let rest = items.subrange(1, items.len() as int);
        assert(items =~= seq![first] + rest);
        lemma_spaced_front(first, rest);
        let tail = spaced(rest) + space() + last;
        if rest.len() >= 1 {
            lemma_spaced_starts(rest);
        }
        assert(tail[0] == ' ');
        assert(s =~= head + space() + first + tail);
        assert(no_space(first));
        lemma_field_concat(head, first, tail);
        let next = head + space() + first;
        assert(s =~= next + spaced(rest) + space() + last);
        assert(all_no_space(rest)) by {
            assert forall|i: int| 0 <= i < rest.len() implies no_space(#[trigger] rest[i]) by {
                assert(rest[i] == items[i + 1]);
            }
        }
        lemma_fields_concat(next, rest, last);
        assert(seq![first] + rest =~= items);
    }
}

/// What a field that was read says of the text: it stands behind the space
/// at its position, holds no space, and a space follows it.
pub proof fn lemma_field_read(s: Seq<char>, p: int, field: Seq<char>, end: int)
    requires
        field_at(s, p) == Some((field, end)),
    ensures
        0 <= p < end < s.len(),
        s.subrange(p, end) == space() + field,
        no_space(field),
        s[end] == ' ',
{
    lemma_next_space(s, p + 1);
    assert(s.subrange(p, end) =~= space() + field);
    assert forall|i: int| 0 <= i < field.len() implies field[i] != ' ' by {
        assert(field[i] == s[p + 1 + i]);
    }
}

/// What the fields that were read say of the text: they stand there, each
/// behind a space, none holds a space, and no further field follows.
pub proof fn lemma_fields_read(s: Seq<char>, p: int)
    requires
        0 <= p <= s.len(),
    ensures
        p <= fields_from(s, p).1 <= s.len(),
        s.subrange(p, fields_from(s, p).1) == spaced(fields_from(s, p).0),
        all_no_space(fields_from(s, p).0),
        field_at(s, fields_from(s, p).1) is None,
    decreases s.len() - p,
{
    match field_at(s, p) {
        Some((field, end)) => {
            lemma_field_read(s, p, field, end);
            lemma_fields_read(s, end);
            let (rest, last) = fields_from(s, end);
            lemma_spaced_front(field, rest);
            assert(s.subrange(p, last) =~= s.subrange(p, end) + s.subrange(end, last));
            assert(s.subrange(p, last) =~= space() + field + spaced(rest));
            let items = seq![field] + rest;
            assert forall|i: int| 0 <= i < items.len() implies no_space(#[trigger] items[i]) by {
                if i > 0 {
                    assert(items[i] == rest[i - 1]);
                }
            }
        },
        None => {
            assert(s.subrange(p, p) =~= Seq::<char>::empty());
        },
    }
}

/// One step along the wire: a field without a space, behind the text read
/// so far and before a tail that starts with a space, is read at the end of
/// that text.
proof fn lemma_step(s: Seq<char>, head: Seq<char>, field: Seq<char>, tail: Seq<char>)
    requires
        s == head + (space() + field + tail),
        no_space(field),
        tail.len() >= 1,
        tail[0] == ' ',
    ensures
        field_at(s, head.len() as int) == Some((field, (head.len() + 1 + field.len()) as int)),
        (head + space() + field).len() == head.len() + 1 + field.len(),
{
    assert(s =~= head + space() + field + tail);
    lemma_field_concat(head, field, tail);
}

/// A keyword does not stand where the text has another character than its
/// first.
proof fn lemma_keyword_mismatch(s: Seq<char>, p: int, keyword: Seq<char>)
    requires
        0 <= p < s.len(),
        keyword.len() >= 1,
        s[p] != keyword[0],
    ensures
        !has_at(s, p, keyword),
        content_at(s, p, keyword) is None,
{
    if has_at(s, p, keyword) {
        assert(s.subrange(p, p + keyword.len())[0] == s[p]);
    }
}

/// A keyword, one or more items without spaces and a signature without a
/// space, written behind a text, are read back at the end of that text.
proof fn lemma_content_concat(
    head: Seq<char>,
    keyword: Seq<char>,
    items: Seq<Seq<char>>,
    sig: Seq<char>,
)
    requires
        items.len() >= 1,
        all_no_space(items),
        no_space(sig),
    ensures
        ({
            let s = head + content_text(keyword, items) + space() + sig;
            let end = (head.len() + content_text(keyword, items).len()) as int;
            &&& content_at(s, head.len() as int, keyword) == Some((items, end))
            &&& has_at(s, end, space())
            &&& s.subrange(end + 1, s.len() as int) == sig
        }),
{
    let s = head + content_text(keyword, items) + space() + sig;
    let end = (head.len() + content_text(keyword, items).len()) as int;
    lemma_join_spaced(items);
    let front = head + keyword;
    assert(content_text(keyword, items) =~= keyword + spaced(items));
    assert(s =~= front + spaced(items) + space() + sig);
    lemma_fields_concat(front, items, sig);
    assert(s.subrange(head.len() as int, (head.len() + keyword.len()) as int) =~= keyword);
    assert(s.subrange(end, end + 1) =~= space());
    assert(s.subrange(end + 1, s.len() as int) =~= sig);
}

/// A text, a field and a tail can be grouped either way.
proof fn lemma_regroup(head: Seq<char>, field: Seq<char>, tail: Seq<char>)
    ensures
        (head + space() + field) + tail == head + (space() + field + tail),
        (space() + field + tail).len() >= 1,
        (space() + field + tail)[0] == ' ',
{
    assert((head + space() + field) + tail =~= head + (space() + field + tail));
}

/// The preamble stands at the start of any text that begins with it.
proof fn lemma_preamble_at(rest: Seq<char>)
    ensures
        has_at(preamble() + rest, 0, preamble()),
{
    let s = preamble() + rest;
    assert(s.subrange(0, preamble().len() as int) =~= preamble());
}

/// Five fields read one behind the other, from the end of the preamble on,
/// are the head of a token.
proof fn lemma_head_assemble(
    s: Seq<char>,
    fields: Seq<Seq<char>>,
    p1: int,
    p2: int,
    p3: int,
    p4: int,
    p5: int,
)
    requires
        fields.len() == 5,
        has_at(s, 0, preamble()),
        field_at(s, preamble().len() as int) == Some((fields[0], p1)),
        field_at(s, p1) == Some((fields[1], p2)),
        field_at(s, p2) == Some((fields[2], p3)),
        field_at(s, p3) == Some((fields[3], p4)),
        field_at(s, p4) == Some((fields[4], p5)),
    ensures
        head_at(s) == Some((fields, p5)),
{
    assert(fields =~= seq![fields[0], fields[1], fields[2], fields[3], fields[4]]);
}

/// Five fields without spaces, written behind the preamble and before a
/// tail that starts with a space, are read back as the head of a token.
proof fn lemma_head_concat(
    domain: Seq<char>,
    timestamp: Seq<char>,
    pk: Seq<char>,
    pkh: Seq<char>,
    orbit: Seq<char>,
    tail: Seq<char>,
)
    requires
        no_space(domain),
        no_space(timestamp),
        no_space(pk),
        no_space(pkh),
        no_space(orbit),
        tail.len() >= 1,
        tail[0] == ' ',
    ensures
        ({
            let head = preamble() + space() + domain + space() + timestamp + space() + pk
                + space() + pkh + space() + orbit;
            head_at(head + tail) == Some(
                (seq![domain, timestamp, pk, pkh, orbit], head.len() as int),
            )
        }),
{
    let sp = space();
    let h0 = preamble();
    let h1 = h0 + sp + domain;
    let h2 = h1 + sp + timestamp;
    let h3 = h2 + sp + pk;
    let h4 = h3 + sp + pkh;
    let h5 = h4 + sp + orbit;
    let s = h5 + tail;
    let t4 = sp + orbit + tail;
    let t3 = sp + pkh + t4;
    let t2 = sp + pk + t3;
    let t1 = sp + timestamp + t2;
    let p0 = h0.len() as int;
    let p1 = p0 + 1 + domain.len();
    let p2 = p1 + 1 + timestamp.len();
    let p3 = p2 + 1 + pk.len();
    let p4 = p3 + 1 + pkh.len();
    let p5 = p4 + 1 + orbit.len();
    assert(h1.len() == p1);
    assert(h2.len() == p2);
    assert(h3.len() == p3);
    assert(h4.len() == p4);
    assert(h5.len() == p5);
    assert(s == h4 + t4) by {
        lemma_regroup(h4, orbit, tail);
    }
    assert(s == h3 + t3) by {
        lemma_regroup(h3, pkh, t4);
    }
    assert(s == h2 + t2) by {
        lemma_regroup(h2, pk, t3);
    }
    assert(s == h1 + t1) by {
        lemma_regroup(h1, timestamp, t2);
    }
    assert(s == h0 + (sp + domain + t1)) by {
        lemma_regroup(h0, domain, t1);
    }
    assert(has_at(s, 0, preamble())) by {
        lemma_preamble_at(sp + domain + t1);
    }
    assert(field_at(s, p0) == Some((domain, p1))) by {
        lemma_regroup(h1, timestamp, t2);
        lemma_step(s, h0, domain, t1);
    }
    assert(field_at(s, p1) == Some((timestamp, p2))) by {
        lemma_regroup(h2, pk, t3);
        lemma_step(s, h1, timestamp, t2);
    }
    assert(field_at(s, p2) == Some((pk, p3))) by {
        lemma_regroup(h3, pkh, t4);
        lemma_step(s, h2, pk, t3);
    }
    assert(field_at(s, p3) == Some((pkh, p4))) by {
        lemma_regroup(h4, orbit, tail);
        lemma_step(s, h3, pkh, t4);
    }
    assert(field_at(s, p4) == Some((orbit, p5))) by {
        lemma_step(s, h4, orbit, tail);
    }
    lemma_head_assemble(s, seq![domain, timestamp, pk, pkh, orbit], p1, p2, p3, p4, p5);
}

/// An action that the wire can carry and its signature, written behind a
/// text, are read back at the end of that text.
proof fn lemma_action_concat(head: Seq<char>, action: ActionView, sig: Seq<char>)
    requires
        action !is List ==> action.items().len() >= 1 && all_no_space(action.items())
            && no_space(sig),
    ensures
        ({
            let s = head + action.text() + space() + sig;
            let end = (head.len() + action.text().len()) as int;
            &&& action_at(s, head.len() as int) == Some((action, end))
            &&& has_at(s, end, space())
            &&& s.subrange(end + 1, s.len() as int) == sig
        }),
{
    let a = action.text();
    let s = head + a + space() + sig;
    let q = head.len() as int;
    assert(a.len() >= 1);
    assert(s[q] == a[0]);
    match action {
        ActionView::List => {
            lemma_keyword_mismatch(s, q, kw_get());
            lemma_keyword_mismatch(s, q, kw_put());
            lemma_keyword_mismatch(s, q, kw_del());
            lemma_keyword_mismatch(s, q, kw_create());
            assert(s.subrange(q, q + 4) =~= kw_list());
            assert(s.subrange(q + 4, q + 5) =~= space());
            assert(s.subrange(q + 5, s.len() as int) =~= sig);
        },
        ActionView::Get(items) => {
            lemma_content_concat(head, kw_get(), items, sig);
        },
        ActionView::Put(items) => {
            lemma_keyword_mismatch(s, q, kw_get());
            lemma_content_concat(head, kw_put(), items, sig);
        },
        ActionView::Del(items) => {
            lemma_keyword_mismatch(s, q, kw_get());
            lemma_keyword_mismatch(s, q, kw_put());
            lemma_content_concat(head, kw_del(), items, sig);
        },
        ActionView::Create { content } => {
            lemma_keyword_mismatch(s, q, kw_get());
            lemma_keyword_mismatch(s, q, kw_put());
            lemma_keyword_mismatch(s, q, kw_del());
            lemma_content_concat(head, kw_create(), content, sig);
        },
    }
}

/// A head, an action behind it and a signature behind that make a token.
proof fn lemma_assemble(s: Seq<char>, t: TokenView, p5: int, p6: int)
    requires
        head_at(s) == Some((seq![t.domain, t.timestamp, t.pk, t.pkh, t.orbit], p5)),
        action_at(s, p5 + 1) == Some((t.action, p6)),
        has_at(s, p6, space()),
        s.subrange(p6 + 1, s.len() as int) == t.sig,
    ensures
        parse_wire(s) == Some(t),
{
}

/// The grammar reads back what the encoder writes: from the wire text of a
/// token that the wire can carry, it reads that token.
pub proof fn lemma_round_trip(t: TokenView)
    requires
        wire_valid(t),
    ensures
        parse_wire(t.wire()) == Some(t),
{
    let s = t.wire();
    let sp = space();
    let a = t.action.text();
    let head = preamble() + sp + t.domain + sp + t.timestamp + sp + t.pk + sp + t.pkh + sp
        + t.orbit;
    let tail = sp + a + sp + t.sig;
    assert(s == head + tail) by {
        assert(head + sp + a + sp + t.sig =~= head + (sp + a + sp + t.sig));
    }
    assert(tail[0] == ' ');
    lemma_head_concat(t.domain, t.timestamp, t.pk, t.pkh, t.orbit, tail);
    lemma_action_concat(head + sp, t.action, t.sig);
    let p5 = head.len() as int;
    let p6 = ((head + sp).len() + a.len()) as int;
    assert((head + sp).len() == p5 + 1);
    lemma_assemble(s, t, p5, p6);
}

/// A stretch of a text is its first part followed by its second.
proof fn lemma_stretch(s: Seq<char>, from: int, mid: int, to: int)
    requires
        0 <= from <= mid <= to <= s.len(),
    ensures
        s.subrange(from, to) == s.subrange(from, mid) + s.subrange(mid, to),
{
    assert(s.subrange(from, to) =~= s.subrange(from, mid) + s.subrange(mid, to));
}

/// What a head that was read says of the text: the text up to the position
/// returned is the preamble and the five fields, each behind a space; no
/// field holds a space; and a space stands at that position.
proof fn lemma_head_read(s: Seq<char>, fields: Seq<Seq<char>>, p5: int)
    requires
        head_at(s) == Some((fields, p5)),
    ensures
        fields.len() == 5,
        0 <= p5 < s.len(),
        s[p5] == ' ',
        all_no_space(fields),
        s.subrange(0, p5) == preamble() + space() + fields[0] + space() + fields[1] + space()
            + fields[2] + space() + fields[3] + space() + fields[4],
{
    let p0 = preamble().len() as int;
    assert(p0 == 21);
    let (f0, p1) = field_at(s, p0).unwrap();
    let (f1, p2) = field_at(s, p1).unwrap();
    let (f2, p3) = field_at(s, p2).unwrap();
    let (f3, p4) = field_at(s, p3).unwrap();
    let (f4, p) = field_at(s, p4).unwrap();
    assert(p == p5 && fields == seq![f0, f1, f2, f3, f4]);
    lemma_field_read(s, p0, f0, p1);
    lemma_field_read(s, p1, f1, p2);
    lemma_field_read(s, p2, f2, p3);
    lemma_field_read(s, p3, f3, p4);
    lemma_field_read(s, p4, f4, p5);
    lemma_stretch(s, 0, p0, p1);
    lemma_stretch(s, 0, p1, p2);
    lemma_stretch(s, 0, p2, p3);
    lemma_stretch(s, 0, p3, p4);
    lemma_stretch(s, 0, p4, p5);
    let sp = space();
    let h1 = preamble() + sp + f0;
    let h2 = h1 + sp + f1;
    let h3 = h2 + sp + f2;
    let h4 = h3 + sp + f3;
    assert(s.subrange(0, p1) == h1) by {
        assert(preamble() + (sp + f0) =~= h1);
    }
    assert(s.subrange(0, p2) == h2) by {
        assert(h1 + (sp + f1) =~= h2);
    }
    assert(s.subrange(0, p3) == h3) by {
        assert(h2 + (sp + f2) =~= h3);
    }
    assert(s.subrange(0, p4) == h4) by {
        assert(h3 + (sp + f3) =~= h4);
    }
    assert(s.subrange(0, p5) == h4 + sp + f4) by {
        assert(h4 + (sp + f4) =~= h4 + sp + f4);
    }
}

/// What a keyword and items that were read say of the text: they stand
/// there, there is at least one item, none holds a space, and no further
/// field follows.
proof fn lemma_content_read(
    s: Seq<char>,
    q: int,
    keyword: Seq<char>,
    items: Seq<Seq<char>>,
    end: int,
)
    requires
        content_at(s, q, keyword) == Some((items, end)),
    ensures
        q <= end <= s.len(),
        s.subrange(q, end) == content_text(keyword, items),
        items.len() >= 1,
        all_no_space(items),
        field_at(s, end) is None,
{
    let k = q + keyword.len();
    lemma_fields_read(s, k);
    lemma_join_spaced(items);
    lemma_stretch(s, q, k, end);
    assert(content_text(keyword, items) =~= keyword + spaced(items));
}

/// What an action that was read says of the text: its text stands there;
/// unless it is `List` it has at least one item, no item holds a space, and
/// no further field follows it.
proof fn lemma_action_read(s: Seq<char>, q: int, action: ActionView, end: int)
    requires
        action_at(s, q) == Some((action, end)),
    ensures
        0 <= q <= end <= s.len(),
        s.subrange(q, end) == action.text(),
        action !is List ==> action.items().len() >= 1 && all_no_space(action.items())
            && field_at(s, end) is None,
{
    if let Some((items, e)) = content_at(s, q, kw_get()) {
        lemma_content_read(s, q, kw_get(), items, e);
    } else if let Some((items, e)) = content_at(s, q, kw_put()) {
        lemma_content_read(s, q, kw_put(), items, e);
    } else if let Some((items, e)) = content_at(s, q, kw_del()) {
        lemma_content_read(s, q, kw_del(), items, e);
    } else if let Some((items, e)) = content_at(s, q, kw_create()) {
        lemma_content_read(s, q, kw_create(), items, e);
    } else {
        assert(has_at(s, q, kw_list()));
    }
}

/// Where a space stands and no field can be read, no space follows.
proof fn lemma_rest_no_space(s: Seq<char>, p: int)
    requires
        has_at(s, p, space()),
        field_at(s, p) is None,
    ensures
        no_space(s.subrange(p + 1, s.len() as int)),
{
    assert(s.subrange(p, p + 1)[0] == s[p]);
    lemma_next_space(s, p + 1);
    let rest = s.subrange(p + 1, s.len() as int);
    assert forall|i: int| 0 <= i < rest.len() implies rest[i] != ' ' by {
        assert(rest[i] == s[p + 1 + i]);
    }
}

/// A text is its head, the space behind it, the action, the space behind
/// that, and the rest.
proof fn lemma_compose(s: Seq<char>, p5: int, p6: int)
    requires
        0 <= p5 < p6 < s.len(),
        s[p5] == ' ',
        s[p6] == ' ',
    ensures
        s == s.subrange(0, p5) + space() + s.subrange(p5 + 1, p6) + space() + s.subrange(
            p6 + 1,
            s.len() as int,
        ),
{
    assert(s =~= s.subrange(0, p5) + space() + s.subrange(p5 + 1, p6) + space() + s.subrange(
        p6 + 1,
        s.len() as int,
    ));
}

/// The grammar reads nothing but what the encoder writes: a token that it
/// reads from a text is one that the wire can carry, and its wire text is
/// that text.
pub proof fn lemma_parse_sound(s: Seq<char>, t: TokenView)
    requires
        parse_wire(s) == Some(t),
    ensures
        wire_valid(t),
        t.wire() == s,
{
    let (fields, p5) = head_at(s).unwrap();
    let (action, p6) = action_at(s, p5 + 1).unwrap();
    lemma_head_read(s, fields, p5);
    lemma_action_read(s, p5 + 1, action, p6);
    assert(wire_valid(t)) by {
        assert(no_space(fields[0]) && no_space(fields[1]) && no_space(fields[2]) && no_space(
            fields[3],
        ) && no_space(fields[4]));
        if action !is List {
            lemma_rest_no_space(s, p6);
        }
    }
    assert(s[p6] == ' ' && p6 < s.len()) by {
        assert(s.subrange(p6, p6 + 1)[0] == s[p6]);
    }
    assert(action.text().len() >= 1);
    lemma_compose(s, p5, p6);
}

/// A text that does not start with the preamble is no token.
pub proof fn lemma_rejects_missing_preamble(s: Seq<char>)
    requires
        !has_at(s, 0, preamble()),
    ensures
        parse_wire(s) is None,
{
}

/// A text with the preamble and five fields, and then none of the five
/// keywords, is no token.
pub proof fn lemma_rejects_unknown_keyword(s: Seq<char>)
    requires
        head_at(s) is Some,
        !has_at(s, head_at(s).unwrap().1 + 1, kw_get()),
        !has_at(s, head_at(s).unwrap().1 + 1, kw_put()),
        !has_at(s, head_at(s).unwrap().1 + 1, kw_del()),
        !has_at(s, head_at(s).unwrap().1 + 1, kw_create()),
        !has_at(s, head_at(s).unwrap().1 + 1, kw_list()),
    ensures
        parse_wire(s) is None,
{
}

/// One of the keywords that take items.
pub open spec fn takes_items(keyword: Seq<char>) -> bool {
    keyword == kw_get() || keyword == kw_put() || keyword == kw_del() || keyword == kw_create()
}

/// A text with the preamble, five fields and a keyword that takes items, and
/// then no item, is no token.
pub proof fn lemma_rejects_missing_items(s: Seq<char>, keyword: Seq<char>)
    requires
        takes_items(keyword),
        head_at(s) is Some,
        has_at(s, head_at(s).unwrap().1 + 1, keyword),
        fields_from(s, head_at(s).unwrap().1 + 1 + keyword.len()).0.len() == 0,
    ensures
        parse_wire(s) is None,
{
    let q = head_at(s).unwrap().1 + 1;
    assert(s.subrange(q, q + keyword.len())[0] == s[q]);
    assert(s[q] == keyword[0]);
    if keyword != kw_get() {
        lemma_keyword_mismatch(s, q, kw_get());
    }
    if keyword != kw_put() {
        lemma_keyword_mismatch(s, q, kw_put());
    }
    if keyword != kw_del() {
        lemma_keyword_mismatch(s, q, kw_del());
    }
    if keyword != kw_create() {
        lemma_keyword_mismatch(s, q, kw_create());
    }
    lemma_keyword_mismatch(s, q, kw_list());
}

/// A text is a token exactly if it is the wire text of a token that the wire
/// can carry, and the grammar then reads that token.
pub proof fn lemma_parse_is_inverse_of_wire(s: Seq<char>, t: TokenView)
    ensures
        parse_wire(s) == Some(t) <==> wire_valid(t) && t.wire() == s,
{
    if parse_wire(s) == Some(t) {
        lemma_parse_sound(s, t);
    }
    if wire_valid(t) && t.wire() == s {
        lemma_round_trip(t);
    }
}

/// The bytes that are signed are fixed by the token without its signature:
/// two tokens that differ in the signature alone have the same bytes.
pub proof fn lemma_signed_bytes_fixed(a: TokenView, b: TokenView)
    requires
        a.domain == b.domain,
        a.timestamp == b.timestamp,
        a.pk == b.pk,
        a.pkh == b.pkh,
        a.orbit == b.orbit,
        a.action == b.action,
    ensures
        a.canonical() == b.canonical(),
        a.signed_bytes() == b.signed_bytes(),
{
}

/// Every field but the signature is signed: two tokens that the wire can
/// carry and that have the same bytes to sign differ in the signature at
/// most. So a change to any other field changes the bytes that the signature
/// is checked over.
pub proof fn lemma_signed_bytes_cover_fields(a: TokenView, b: TokenView)
    requires
        wire_valid(a),
        wire_valid(b),
        a.signed_bytes() == b.signed_bytes(),
    ensures
        a.canonical() == b.canonical(),
        a.domain == b.domain,
        a.timestamp == b.timestamp,
        a.pk == b.pk,
        a.pkh == b.pkh,
        a.orbit == b.orbit,
        a.action == b.action,
{
    let ma = encode_utf8(a.canonical());
    let mb = encode_utf8(b.canonical());
    assert(ma =~= envelope(ma).subrange(6, envelope(ma).len() as int));
    assert(mb =~= envelope(mb).subrange(6, envelope(mb).len() as int));
    encode_utf8_decode_utf8(a.canonical());
    encode_utf8_decode_utf8(b.canonical());
    let a0 = TokenView { sig: Seq::empty(), ..a };
    let b0 = TokenView { sig: Seq::empty(), ..b };
    assert(a0.wire() == b0.wire());
    lemma_round_trip(a0);
    lemma_round_trip(b0);
}

/// The verdict on a token rests on its key text, its signature text and the
/// bytes that are signed for it: two tokens that agree in these three get
/// the same verdict. With the law before, a token that the wire can carry
/// and that is changed in a signed field is judged over other bytes.
pub proof fn lemma_verified_over_signed_bytes(a: TokenView, b: TokenView)
    requires
        a.pk == b.pk,
        a.sig == b.sig,
        a.signed_bytes() == b.signed_bytes(),
    ensures
        verified(a) == verified(b),
{
    let ma = encode_utf8(a.canonical());
    let mb = encode_utf8(b.canonical());
    assert(ma =~= envelope(ma).subrange(6, envelope(ma).len() as int));
    assert(mb =~= envelope(mb).subrange(6, envelope(mb).len() as int));
}

} // verus!
