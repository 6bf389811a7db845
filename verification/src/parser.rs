//! The parser: reads a token from its text on the wire, by the grammar.

use crate::action::{kw_create, kw_del, kw_get, kw_list, kw_put, Action};
use crate::grammar::{
    action_at, content_at, field_at, fields_from, has_at, head_at, next_space, parse_wire,
};
use crate::text::{space, to_chars};
use crate::orbit::OrbitId;
use crate::token::{preamble, TezosAuthorizationString, TokenView};
use vstd::prelude::*;
use vstd::string::*;

verus! {

/// The text is no token. No reason is given.
#[derive(Debug, Clone, Copy, PartialEq, Eq)]
pub struct ParseError;

/// The fields of a token as they stand on the wire. The orbit is still the
/// text that was written: whether it names an orbit has not been asked.
#[derive(Debug, Clone)]
pub struct WireFields {
    pub sig: String,
    pub domain: String,
    pub pk: String,
    pub pkh: String,
    pub timestamp: String,
    pub orbit: String,
    pub action: Action,
}

impl View for WireFields {
    type V = TokenView;

    open spec fn view(&self) -> TokenView {
        TokenView {
            sig: self.sig@,
            domain: self.domain@,
            pk: self.pk@,
            pkh: self.pkh@,
            timestamp: self.timestamp@,
            orbit: self.orbit@,
            action: self.action@,
        }
    }
}

/// Whether `word` stands in the text at `pos`.
fn tag(chars: &Vec<char>, pos: usize, word: &str) -> (found: bool)
    ensures
        found == has_at(chars@, pos as int, word@),
{
    let w = to_chars(word);
    if pos > chars.len() || w.len() > chars.len() - pos {
        return false;
    }
    let mut i: usize = 0;
    while i < w.len()
        invariant
            i <= w.len(),
            w@ == word@,
            pos + w.len() <= chars.len(),
            forall|j: int| 0 <= j < i ==> chars@[pos + j] == w@[j],
        decreases w.len() - i,
    {
        if chars[pos + i] != w[i] {
            proof {
                let sub = chars@.subrange(pos as int, pos + w.len());
                assert(sub[i as int] == chars@[pos + i]);
            }
            return false;
        }
        i = i + 1;
    }
    assert(chars@.subrange(pos as int, pos + w.len()) =~= w@);
    true
}

/// The position of the first space at or behind `from`, or the length of the
/// text.
fn find_space(chars: &Vec<char>, from: usize) -> (end: usize)
    requires
        from <= chars.len(),
    ensures
        end == next_space(chars@, from as int),
        from <= end <= chars.len(),
{
    let mut i: usize = from;
    while i < chars.len() && chars[i] != ' '
        invariant
            from <= i <= chars.len(),
            next_space(chars@, from as int) == next_space(chars@, i as int),
        decreases chars.len() - i,
    {
        i = i + 1;
    }
    i
}

/// Reads one field at `pos`: a space, then the characters up to the next
/// space. Returns the field and the position of that space.
fn space_delimit(input: &str, chars: &Vec<char>, pos: usize) -> (r: Option<(String, usize)>)
    requires
        chars@ == input@,
    ensures
        match r {
            Some((field, end)) => field_at(chars@, pos as int) == Some((field@, end as int))
                && pos < end < chars.len(),
            None => field_at(chars@, pos as int) is None,
        },
{
    if pos >= chars.len() || chars[pos] != ' ' {
        return None;
    }
    let end = find_space(chars, pos + 1);
    if end >= chars.len() {
        return None;
    }
    let field = input.substring_char(pos + 1, end);
    Some((String::from_str(field), end))
}

/// Reads fields from `pos` on until none is left. Returns them and the
/// position behind the last.
fn many_fields(input: &str, chars: &Vec<char>, pos: usize) -> (r: (Vec<String>, usize))
    requires
        chars@ == input@,
    ensures
        (r.0.deep_view(), r.1 as int) == fields_from(chars@, pos as int),
{
    let mut fields: Vec<String> = Vec::new();
    let mut at: usize = pos;
    assert(fields.deep_view() =~= Seq::<Seq<char>>::empty());
    loop
        invariant
            chars@ == input@,
            fields_from(chars@, pos as int) == (
                fields.deep_view() + fields_from(chars@, at as int).0,
                fields_from(chars@, at as int).1,
            ),
        ensures
            (fields.deep_view(), at as int) == fields_from(chars@, pos as int),
        decreases chars.len() - at,
    {
        match space_delimit(input, chars, at) {
            Some((field, end)) => {
                let ghost before = fields.deep_view();
                let ghost rest = fields_from(chars@, end as int).0;
                fields.push(field);
                proof {
                    assert(fields.deep_view() =~= before.push(field@));
                    assert(before + (seq![field@] + rest) =~= before.push(field@) + rest);
                }
                at = end;
            },
            None => {
                assert(fields.deep_view() + Seq::<Seq<char>>::empty() =~= fields.deep_view());
                break ;
            },
        }
    }
    (fields, at)
}

/// Reads a keyword at `pos` and at least one field behind it.
fn parse_content(input: &str, chars: &Vec<char>, pos: usize, keyword: &str) -> (r: Option<
    (Vec<String>, usize),
>)
    requires
        chars@ == input@,
    ensures
        match r {
            Some((items, end)) => content_at(chars@, pos as int, keyword@) == Some(
                (items.deep_view(), end as int),
            ),
            None => content_at(chars@, pos as int, keyword@) is None,
        },
{
    if !tag(chars, pos, keyword) {
        return None;
    }
    let word = to_chars(keyword);
    let total = chars.len();
    assert(pos + word@.len() <= total);
    let (items, end) = many_fields(input, chars, pos + word.len());
    if items.len() == 0 {
        return None;
    }
    Some((items, end))
}

/// Reads `GET` and its items.
fn parse_get(input: &str, chars: &Vec<char>, pos: usize) -> (r: Option<(Action, usize)>)
    requires
        chars@ == input@,
    ensures
        match r {
            Some((action, end)) => action matches Action::Get(items) && content_at(
                chars@,
                pos as int,
                kw_get(),
            ) == Some((items.deep_view(), end as int)),
            None => content_at(chars@, pos as int, kw_get()) is None,
        },
{
    proof {
        reveal_strlit("GET");
        assert("GET"@ =~= kw_get());
    }
    match parse_content(input, chars, pos, "GET") {
        Some((items, end)) => Some((Action::Get(items), end)),
        None => None,
    }
}

/// Reads `PUT` and its items.
fn parse_put(input: &str, chars: &Vec<char>, pos: usize) -> (r: Option<(Action, usize)>)
    requires
        chars@ == input@,
    ensures
        match r {
            Some((action, end)) => action matches Action::Put(items) && content_at(
                chars@,
                pos as int,
                kw_put(),
            ) == Some((items.deep_view(), end as int)),
            None => content_at(chars@, pos as int, kw_put()) is None,
        },
{
    proof {
        reveal_strlit("PUT");
        assert("PUT"@ =~= kw_put());
    }
    match parse_content(input, chars, pos, "PUT") {
        Some((items, end)) => Some((Action::Put(items), end)),
        None => None,
    }
}

/// Reads `DEL` and its items.
fn parse_del(input: &str, chars: &Vec<char>, pos: usize) -> (r: Option<(Action, usize)>)
    requires
        chars@ == input@,
    ensures
        match r {
            Some((action, end)) => action matches Action::Del(items) && content_at(
                chars@,
                pos as int,
                kw_del(),
            ) == Some((items.deep_view(), end as int)),
            None => content_at(chars@, pos as int, kw_del()) is None,
        },
{
    proof {
        reveal_strlit("DEL");
        assert("DEL"@ =~= kw_del());
    }
    match parse_content(input, chars, pos, "DEL") {
        Some((items, end)) => Some((Action::Del(items), end)),
        None => None,
    }
}

/// Reads `CREATE` and its items.
fn parse_create(input: &str, chars: &Vec<char>, pos: usize) -> (r: Option<(Action, usize)>)
    requires
        chars@ == input@,
    ensures
        match r {
            Some((action, end)) => action matches Action::Create { content } && content_at(
                chars@,
                pos as int,
                kw_create(),
            ) == Some((content.deep_view(), end as int)),
            None => content_at(chars@, pos as int, kw_create()) is None,
        },
{
    proof {
        reveal_strlit("CREATE");
        assert("CREATE"@ =~= kw_create());
    }
    match parse_content(input, chars, pos, "CREATE") {
        Some((items, end)) => Some((Action::Create { content: items }, end)),
        None => None,
    }
}

/// Reads `LIST`. The position returned is the one behind the keyword.
fn parse_list(chars: &Vec<char>, pos: usize) -> (r: Option<(Action, usize)>)
    ensures
        match r {
            Some((action, end)) => action == Action::List && has_at(chars@, pos as int, kw_list())
                && end == pos + kw_list().len(),
            None => !has_at(chars@, pos as int, kw_list()),
        },
{
    proof {
        reveal_strlit("LIST");
        assert("LIST"@ =~= kw_list());
    }
    if tag(chars, pos, "LIST") {
        let total = chars.len();
        assert(pos + kw_list().len() <= total && kw_list().len() == 4);
        Some((Action::List, pos + 4))
    } else {
        None
    }
}

/// Reads an action at `pos`, trying the keywords in their fixed order.
fn parse_action(input: &str, chars: &Vec<char>, pos: usize) -> (r: Option<(Action, usize)>)
    requires
        chars@ == input@,
    ensures
        match r {
            Some((action, end)) => action_at(chars@, pos as int) == Some((action@, end as int)),
            None => action_at(chars@, pos as int) is None,
        },
{
    if let Some(found) = parse_get(input, chars, pos) {
        return Some(found);
    }
    if let Some(found) = parse_put(input, chars, pos) {
        return Some(found);
    }
    if let Some(found) = parse_del(input, chars, pos) {
        return Some(found);
    }
    if let Some(found) = parse_create(input, chars, pos) {
        return Some(found);
    }
    parse_list(chars, pos)
}

/// Reads a token from its text on the wire. The text is a token exactly if
/// the grammar reads one from it, and the fields returned are then the ones
/// that the grammar reads.
pub fn parse_fields(input: &str) -> (r: Result<WireFields, ParseError>)
    ensures
        match r {
            Ok(fields) => parse_wire(input@) == Some(fields@),
            Err(_) => parse_wire(input@) is None,
        },
{
    let chars = to_chars(input);
    proof {
        reveal_strlit("Tezos Signed Message:");
        reveal_strlit(" ");
        assert("Tezos Signed Message:"@ =~= preamble());
        assert(" "@ =~= space());
    }
    if !tag(&chars, 0, "Tezos Signed Message:") {
        return Err(ParseError);
    }
    let Some((domain, p1)) = space_delimit(input, &chars, 21) else {
        return Err(ParseError);
    };
    let Some((timestamp, p2)) = space_delimit(input, &chars, p1) else {
        return Err(ParseError);
    };
    let Some((pk, p3)) = space_delimit(input, &chars, p2) else {
        return Err(ParseError);
    };
    let Some((pkh, p4)) = space_delimit(input, &chars, p3) else {
        return Err(ParseError);
    };
    let Some((orbit, p5)) = space_delimit(input, &chars, p4) else {
        return Err(ParseError);
    };
    assert(head_at(chars@) == Some((seq![domain@, timestamp@, pk@, pkh@, orbit@], p5 as int)));
    let Some((action, p6)) = parse_action(input, &chars, p5 + 1) else {
        return Err(ParseError);
    };
    if !tag(&chars, p6, " ") {
        return Err(ParseError);
    }
    let sig = input.substring_char(p6 + 1, chars.len());
    Ok(
        WireFields {
            sig: String::from_str(sig),
            domain,
            pk,
            pkh,
            timestamp,
            orbit,
            action,
        },
    )
}

impl WireFields {
    /// The token with these fields and the given orbit in place of the orbit
    /// field.
    pub open spec fn with_orbit(self, orbit: Seq<char>) -> TokenView {
        TokenView {
            sig: self.sig@,
            domain: self.domain@,
            pk: self.pk@,
            pkh: self.pkh@,
            timestamp: self.timestamp@,
            orbit,
            action: self.action@,
        }
    }
}

impl TezosAuthorizationString {
    /// Completes a token from the fields on the wire and from what the
    /// orbit's own parser made of the orbit field: the token with that orbit,
    /// or a failure if the field names no orbit.
    pub fn from_fields(fields: WireFields, orbit: Option<OrbitId>) -> (r: Result<
        TezosAuthorizationString,
        ParseError,
    >)
        ensures
            match orbit {
                Some(id) => r matches Ok(token) && token.orbit == id && token@
                    == fields.with_orbit(id@),
                None => r is Err,
            },
    {
        match orbit {
            Some(id) => Ok(
                TezosAuthorizationString {
                    sig: fields.sig,
                    domain: fields.domain,
                    pk: fields.pk,
                    pkh: fields.pkh,
                    timestamp: fields.timestamp,
                    orbit: id,
                    action: fields.action,
                },
            ),
            None => Err(ParseError),
        }
    }

    /// Reads a token from its text on the wire. `parse_orbit` is the orbit
    /// identifier's own parser; it is asked once, about the orbit field, and
    /// only if the text is a token by the grammar.
    ///
    /// The result is a token exactly if the grammar reads one and
    /// `parse_orbit` accepts its orbit field. The token then has the fields
    /// that the grammar reads and the orbit that `parse_orbit` returned.
    pub fn from_str<F: Fn(&str) -> Option<OrbitId>>(input: &str, parse_orbit: F) -> (r: Result<
        TezosAuthorizationString,
        ParseError,
    >)
        requires
            forall|text: &str| call_requires(parse_orbit, (text,)),
        ensures
            match r {
                Ok(token) => reads_as(input@, parse_orbit, token),
                Err(_) => refused(input@, parse_orbit),
            },
    {
        let fields = match parse_fields(input) {
            Ok(fields) => fields,
            Err(e) => {
                return Err(e);
            },
        };
        let text = fields.orbit.as_str();
        let orbit = parse_orbit(text);
        assert(call_ensures(parse_orbit, (text,), orbit));
        TezosAuthorizationString::from_fields(fields, orbit)
    }
}

/// `token` is what `input` reads as: the grammar reads a token from `input`,
/// `parse_orbit` has made the orbit of `token` from its orbit field, and the
/// other fields of `token` are the ones that the grammar reads.
pub open spec fn reads_as<F: Fn(&str) -> Option<OrbitId>>(
    input: Seq<char>,
    parse_orbit: F,
    token: TezosAuthorizationString,
) -> bool {
    parse_wire(input) matches Some(wire) && token@ == (TokenView { orbit: token.orbit@, ..wire })
        && exists|text: &str|
        text@ == wire.orbit && call_ensures(parse_orbit, (text,), Some(token.orbit))
}

/// `input` is refused: the grammar reads no token from it, or `parse_orbit`
/// has refused its orbit field.
pub open spec fn refused<F: Fn(&str) -> Option<OrbitId>>(input: Seq<char>, parse_orbit: F) -> bool {
    parse_wire(input) matches Some(wire) ==> exists|text: &str|
        text@ == wire.orbit && call_ensures(parse_orbit, (text,), None::<OrbitId>)
}

} // verus!
