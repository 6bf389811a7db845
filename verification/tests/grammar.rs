use nom::{
    branch::alt,
    bytes::complete::{tag, take_until},
    multi::many1,
    sequence::{preceded, tuple},
    IResult,
};
use tzauth::action::Action;
use tzauth::orbit::OrbitId;
use tzauth::parser::{parse_fields, WireFields};
use tzauth::request::{from_request, Outcome};

// The grammar once more, written with parser combinators: the parser must
// agree with it on every text.

fn field(s: &str) -> IResult<&str, &str> {
    preceded(tag(" "), take_until(" "))(s)
}

fn owned(items: Vec<&str>) -> Vec<String> {
    items.iter().map(|s| String::from(*s)).collect()
}

fn list(s: &str) -> IResult<&str, Action> {
    tag("LIST")(s).map(|(rest, _)| (rest, Action::List))
}

fn get(s: &str) -> IResult<&str, Action> {
    tuple((tag("GET"), many1(field)))(s).map(|(rest, (_, c))| (rest, Action::Get(owned(c))))
}

fn put(s: &str) -> IResult<&str, Action> {
    tuple((tag("PUT"), many1(field)))(s).map(|(rest, (_, c))| (rest, Action::Put(owned(c))))
}

fn del(s: &str) -> IResult<&str, Action> {
    tuple((tag("DEL"), many1(field)))(s).map(|(rest, (_, c))| (rest, Action::Del(owned(c))))
}

fn create(s: &str) -> IResult<&str, Action> {
    tuple((tag("CREATE"), many1(field)))(s)
        .map(|(rest, (_, c))| (rest, Action::Create { content: owned(c) }))
}

fn action(s: &str) -> IResult<&str, Action> {
    alt((get, put, del, create, list))(s)
}

fn combinators(s: &str) -> Option<WireFields> {
    match tuple::<_, _, nom::error::Error<&str>, _>((
        tag("Tezos Signed Message:"),
        field,
        field,
        field,
        field,
        field,
        tag(" "),
        action,
        tag(" "),
    ))(s)
    {
        Ok((sig, (_, domain, timestamp, pk, pkh, orbit, _, action, _))) => Some(WireFields {
            sig: sig.into(),
            domain: domain.into(),
            pk: pk.into(),
            pkh: pkh.into(),
            timestamp: timestamp.into(),
            orbit: orbit.into(),
            action,
        }),
        Err(_) => None,
    }
}

fn agree(text: &str) {
    let ours = parse_fields(text).ok();
    let theirs = combinators(text);
    match (ours, theirs) {
        (None, None) => {}
        (Some(a), Some(b)) => {
            assert_eq!(a.sig, b.sig, "{:?}", text);
            assert_eq!(a.domain, b.domain, "{:?}", text);
            assert_eq!(a.timestamp, b.timestamp, "{:?}", text);
            assert_eq!(a.pk, b.pk, "{:?}", text);
            assert_eq!(a.pkh, b.pkh, "{:?}", text);
            assert_eq!(a.orbit, b.orbit, "{:?}", text);
            assert_eq!(a.action, b.action, "{:?}", text);
        }
        (a, b) => panic!("{:?}: {:?} against {:?}", text, a.is_some(), b.is_some()),
    }
}

fn samples() -> Vec<String> {
    let mut out = Vec::new();
    for action in ["LIST", "GET a", "PUT a b", "DEL a b c", "CREATE x", "GET", "POST a", "CREATE"] {
        for sig in ["sig", "", "two words", " "] {
            out.push(format!("Tezos Signed Message: d t pk pkh orbit {} {}", action, sig));
            out.push(format!("Tezos Signed Message: d t pk pkh orbit {}{}", action, sig));
        }
    }
    out.push("Tezos Signed Message: d\u{e9} \u{65e5} pk pkh o PUT \u{1f512} s".to_string());
    out.push("Tezos Signed Message:  t pk pkh orbit PUT  ".to_string());
    out.push("Tezos Signed Message:      PUT  ".to_string());
    out.push("Tezos Signed Message:      LIST ".to_string());
    out.push("Tezos Signed Message: GET PUT DEL CREATE LIST LIST LIST".to_string());
    out.push("Tezos Signed Message: a b c d e GETGET f g".to_string());
    out.push("Tezos Signed Message: a b c d e LISTLIST f".to_string());
    out.push("Tezos Signed Message: a b c d e CREATE LIST PUT x".to_string());
    out.push(String::new());
    out.push(" ".to_string());
    out.push("Tezos".to_string());
    out
}

#[test]
fn parser_agrees_with_the_combinators_on_samples() {
    for text in samples() {
        agree(&text);
    }
}

#[test]
fn parser_agrees_with_the_combinators_on_every_cut() {
    for text in samples() {
        let cuts: Vec<usize> = text.char_indices().map(|(i, _)| i).collect();
        for i in cuts {
            agree(&text[..i]);
            agree(&text[i..]);
        }
    }
}

#[test]
fn parser_agrees_with_the_combinators_on_every_edit() {
    let base = "Tezos Signed Message: d t pk pkh orbit PUT a b sig";
    for i in 0..=base.len() {
        for c in [" ", "x", "T", ":"] {
            let mut inserted = base.to_string();
            inserted.insert_str(i, c);
            agree(&inserted);
        }
        if i < base.len() {
            let mut removed = base.to_string();
            removed.remove(i);
            agree(&removed);
            let mut changed = base.to_string();
            changed.replace_range(i..i + 1, " ");
            agree(&changed);
        }
    }
}

fn any_orbit(text: &str) -> Option<OrbitId> {
    Some(OrbitId::new(text.to_string()))
}

fn no_orbit(_: &str) -> Option<OrbitId> {
    None
}

#[test]
fn request_without_header_goes_on() {
    assert!(matches!(from_request(None, any_orbit), Outcome::Forward));
}

#[test]
fn request_with_another_scheme_goes_on() {
    assert!(matches!(from_request(Some("Bearer abc"), any_orbit), Outcome::Forward));
    assert!(matches!(from_request(Some(""), any_orbit), Outcome::Forward));
    assert!(matches!(
        from_request(Some("Tezos Signed Message: d t pk pkh orbit PUT sig"), any_orbit),
        Outcome::Forward
    ));
}

#[test]
fn request_with_an_orbit_that_is_refused_goes_on() {
    let header = "Tezos Signed Message: d t pk pkh orbit PUT a sig";
    assert!(matches!(from_request(Some(header), no_orbit), Outcome::Forward));
}

#[test]
fn request_with_a_token_succeeds() {
    let header = "Tezos Signed Message: d t pk pkh orbit PUT a sig";
    match from_request(Some(header), any_orbit) {
        Outcome::Success(token) => {
            assert_eq!(token.to_string(), header);
            assert_eq!(token.orbit.as_str(), "orbit");
            assert_eq!(token.action, Action::Put(vec!["a".to_string()]));
        }
        Outcome::Forward => panic!(),
    }
}
