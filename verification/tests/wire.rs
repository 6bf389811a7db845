use tzauth::action::{serialize_action, serialize_content_action, Action};
use tzauth::envelope::encode_string;
use tzauth::orbit::OrbitId;
use tzauth::parser::{parse_fields, ParseError};
use tzauth::token::TezosAuthorizationString;

const PK: &str = "edpkurFSehqm2HhLP9sZ4ZRW5nLZgyWErW8wYxgEUPHCMCy6Hk1tbm";
const PKH: &str = "tz1Y6SXe4J9DBVuGM3GnWC2jnmDkA6fBVyjg";
const ORBIT: &str = "kepler:did:pkh:tz:tz1Y6SXe4J9DBVuGM3GnWC2jnmDkA6fBVyjg://default";
const CID: &str = "uAYAEHiB0uGRNPXEMdA9L-lXR2MKIZzKlgW1z6Ug4fSv3LRSPfQ";
const SIG: &str = "edsigtmZ5tgugBSKjBJgptkm523C9EtVWrBhLYtv9MTAE6qF6mii2mFapdQfcCMsVzRisgQ3Nx61qC9Ut3VigyEC1s19RLwgkog";

/// An orbit parser for the tests: `kepler:`, a suffix, `://` and a name.
fn orbit(text: &str) -> Option<OrbitId> {
    let rest = text.strip_prefix("kepler:")?;
    let (suffix, name) = rest.split_once("://")?;
    if suffix.is_empty() || name.is_empty() {
        return None;
    }
    Some(OrbitId::new(text.to_string()))
}

fn parse(text: &str) -> Result<TezosAuthorizationString, ParseError> {
    TezosAuthorizationString::from_str(text, orbit)
}

fn token(action: Action, sig: &str) -> TezosAuthorizationString {
    TezosAuthorizationString {
        sig: sig.to_string(),
        domain: "kepler.net".to_string(),
        pk: PK.to_string(),
        pkh: PKH.to_string(),
        timestamp: "2021-01-14T15:16:04Z".to_string(),
        orbit: OrbitId::new(ORBIT.to_string()),
        action,
    }
}

fn items(list: &[&str]) -> Vec<String> {
    list.iter().map(|s| s.to_string()).collect()
}

fn assert_same(a: &TezosAuthorizationString, b: &TezosAuthorizationString) {
    assert_eq!(a.sig, b.sig);
    assert_eq!(a.domain, b.domain);
    assert_eq!(a.pk, b.pk);
    assert_eq!(a.pkh, b.pkh);
    assert_eq!(a.timestamp, b.timestamp);
    assert_eq!(a.orbit, b.orbit);
    assert_eq!(a.action, b.action);
}

#[test]
fn string_encoding() {
    assert_eq!(
        &encode_string("message"),
        &[0x05, 0x01, 0x00, 0x00, 0x00, 0x07, 0x6d, 0x65, 0x73, 0x73, 0x61, 0x67, 0x65]
    )
}

#[test]
fn simple_parse() {
    let auth_str = "Tezos Signed Message: kepler.net 2021-01-14T15:16:04Z edpkurFSehqm2HhLP9sZ4ZRW5nLZgyWErW8wYxgEUPHCMCy6Hk1tbm tz1Y6SXe4J9DBVuGM3GnWC2jnmDkA6fBVyjg kepler:did:pkh:tz:tz1Y6SXe4J9DBVuGM3GnWC2jnmDkA6fBVyjg://default PUT uAYAEHiB0uGRNPXEMdA9L-lXR2MKIZzKlgW1z6Ug4fSv3LRSPfQ edsigtmZ5tgugBSKjBJgptkm523C9EtVWrBhLYtv9MTAE6qF6mii2mFapdQfcCMsVzRisgQ3Nx61qC9Ut3VigyEC1s19RLwgkog";
    let _: TezosAuthorizationString = parse(auth_str).unwrap();
}

#[test]
fn simple_parse_reads_every_field() {
    let auth_str = "Tezos Signed Message: kepler.net 2021-01-14T15:16:04Z edpkurFSehqm2HhLP9sZ4ZRW5nLZgyWErW8wYxgEUPHCMCy6Hk1tbm tz1Y6SXe4J9DBVuGM3GnWC2jnmDkA6fBVyjg kepler:did:pkh:tz:tz1Y6SXe4J9DBVuGM3GnWC2jnmDkA6fBVyjg://default PUT uAYAEHiB0uGRNPXEMdA9L-lXR2MKIZzKlgW1z6Ug4fSv3LRSPfQ edsigtmZ5tgugBSKjBJgptkm523C9EtVWrBhLYtv9MTAE6qF6mii2mFapdQfcCMsVzRisgQ3Nx61qC9Ut3VigyEC1s19RLwgkog";
    let t = parse(auth_str).unwrap();
    assert_same(&t, &token(Action::Put(items(&[CID])), SIG));
    assert_eq!(t.action(), &Action::Put(items(&[CID])));
    assert_eq!(t.target_orbit().as_str(), ORBIT);
}

#[test]
fn envelope_of_the_empty_message() {
    assert_eq!(encode_string(""), vec![0x05, 0x01, 0, 0, 0, 0]);
}

#[test]
fn envelope_length_is_big_endian() {
    let message = "a".repeat(0x0001_0203);
    let bytes = encode_string(&message);
    assert_eq!(&bytes[..6], &[0x05, 0x01, 0x00, 0x01, 0x02, 0x03]);
    assert_eq!(bytes.len(), 6 + 0x0001_0203);
    assert!(bytes[6..].iter().all(|b| *b == b'a'));
}

#[test]
fn envelope_counts_bytes_not_characters() {
    let bytes = encode_string("h\u{e9}\u{20ac}");
    assert_eq!(bytes, vec![0x05, 0x01, 0, 0, 0, 6, b'h', 0xc3, 0xa9, 0xe2, 0x82, 0xac]);
}

#[test]
fn envelope_keeps_every_byte_value() {
    let message = "\u{0}\u{1}\u{f}\u{10}\u{7f}\u{ff}";
    let bytes = encode_string(message);
    assert_eq!(&bytes[..6], &[0x05, 0x01, 0, 0, 0, 7]);
    assert_eq!(&bytes[6..], message.as_bytes());
}

#[test]
fn action_texts() {
    assert_eq!(serialize_action(&Action::List), "LIST");
    assert_eq!(serialize_action(&Action::Get(items(&["a"]))), "GET a");
    assert_eq!(serialize_action(&Action::Put(items(&["a", "b"]))), "PUT a b");
    assert_eq!(serialize_action(&Action::Del(items(&["a", "b", "c"]))), "DEL a b c");
    assert_eq!(
        serialize_action(&Action::Create { content: items(&["x", "y"]) }),
        "CREATE x y"
    );
    assert_eq!(serialize_content_action("PUT", &items(&["a", "b"])), "PUT a b");
}

#[test]
fn action_text_without_items_ends_in_a_space() {
    assert_eq!(serialize_action(&Action::Get(vec![])), "GET ");
    assert_eq!(serialize_action(&Action::Create { content: vec![] }), "CREATE ");
}

#[test]
fn canonical_text_has_no_signature() {
    let t = token(Action::Put(items(&[CID])), SIG);
    let expected = format!(
        "Tezos Signed Message: kepler.net 2021-01-14T15:16:04Z {} {} {} PUT {}",
        PK, PKH, ORBIT, CID
    );
    assert_eq!(t.serialize().unwrap(), expected);
    assert_eq!(t.to_string(), format!("{} {}", expected, SIG));
}

#[test]
fn bytes_to_sign_are_the_envelope_of_the_canonical_text() {
    let t = token(Action::Put(items(&[CID])), SIG);
    let text = t.serialize().unwrap();
    let bytes = t.serialize_for_verification().unwrap();
    assert_eq!(&bytes[..2], &[0x05, 0x01]);
    assert_eq!(&bytes[2..6], &(text.len() as u32).to_be_bytes());
    assert_eq!(&bytes[6..], text.as_bytes());
}

#[test]
fn bytes_to_sign_do_not_depend_on_the_signature() {
    let a = token(Action::Put(items(&[CID])), SIG);
    let b = token(Action::Put(items(&[CID])), "");
    assert_eq!(
        a.serialize_for_verification().unwrap(),
        b.serialize_for_verification().unwrap()
    );
}

#[test]
fn bytes_to_sign_are_the_same_on_every_call() {
    let t = token(Action::Del(items(&[CID, "other"])), SIG);
    assert_eq!(
        t.serialize_for_verification().unwrap(),
        t.serialize_for_verification().unwrap()
    );
}

#[test]
fn wire_text_round_trips_for_every_action() {
    let actions = vec![
        Action::List,
        Action::Get(items(&[CID])),
        Action::Put(items(&[CID, "second"])),
        Action::Del(items(&["a", "b", "c"])),
        Action::Create { content: items(&[CID]) },
    ];
    for action in actions {
        let t = token(action, SIG);
        let back = parse(&t.to_string()).unwrap();
        assert_same(&back, &t);
        assert_eq!(back.to_string(), t.to_string());
    }
}

#[test]
fn item_order_is_kept() {
    let t = token(Action::Get(items(&["3", "1", "2"])), SIG);
    let back = parse(&t.to_string()).unwrap();
    assert_eq!(back.action, Action::Get(items(&["3", "1", "2"])));
}

#[test]
fn empty_signature_round_trips() {
    let t = token(Action::Put(items(&[CID])), "");
    let back = parse(&t.to_string()).unwrap();
    assert_same(&back, &t);
}

#[test]
fn empty_fields_round_trip() {
    let mut t = token(Action::Put(items(&[""])), "");
    t.domain = String::new();
    t.timestamp = String::new();
    let back = parse(&t.to_string()).unwrap();
    assert_same(&back, &t);
}

#[test]
fn signature_behind_list_is_the_whole_rest() {
    let text = format!(
        "Tezos Signed Message: d t {} {} {} LIST one two  three",
        PK, PKH, ORBIT
    );
    let t = parse(&text).unwrap();
    assert_eq!(t.action, Action::List);
    assert_eq!(t.sig, "one two  three");
    assert_eq!(t.to_string(), text);
}

#[test]
fn last_word_behind_items_is_the_signature() {
    let text = format!("Tezos Signed Message: d t {} {} {} GET a b c", PK, PKH, ORBIT);
    let t = parse(&text).unwrap();
    assert_eq!(t.action, Action::Get(items(&["a", "b"])));
    assert_eq!(t.sig, "c");
}

#[test]
fn non_ascii_fields_are_read_by_character() {
    let text = format!(
        "Tezos Signed Message: k\u{e9}pler.net \u{65e5}\u{4ed8} {} {} {} PUT \u{1f512} s\u{ef}g",
        PK, PKH, ORBIT
    );
    let t = parse(&text).unwrap();
    assert_eq!(t.domain, "k\u{e9}pler.net");
    assert_eq!(t.timestamp, "\u{65e5}\u{4ed8}");
    assert_eq!(t.action, Action::Put(items(&["\u{1f512}"])));
    assert_eq!(t.sig, "s\u{ef}g");
    assert_eq!(t.to_string(), text);
}

#[test]
fn missing_prefix_is_rejected() {
    let good = token(Action::Put(items(&[CID])), SIG).to_string();
    assert!(parse(&good).is_ok());
    assert!(parse(&good["Tezos ".len()..]).is_err());
    assert!(parse(&good.replacen("Tezos", "tezos", 1)).is_err());
    assert!(parse(&good.replacen("Message:", "Message", 1)).is_err());
    assert!(parse(&format!(" {}", good)).is_err());
    assert!(parse("").is_err());
    assert!(parse("Tezos Signed Message:").is_err());
}

#[test]
fn unknown_keyword_is_rejected() {
    for keyword in ["POST", "get", "GETX", "LISTS", "LIS", "", "CREATED", "PUTT"] {
        let text = format!(
            "Tezos Signed Message: d t {} {} {} {} {} {}",
            PK, PKH, ORBIT, keyword, CID, SIG
        );
        assert!(parse(&text).is_err(), "{:?}", keyword);
    }
}

#[test]
fn keyword_without_items_is_rejected() {
    for keyword in ["GET", "PUT", "DEL", "CREATE"] {
        let bare = format!("Tezos Signed Message: d t {} {} {} {}", PK, PKH, ORBIT, keyword);
        assert!(parse(&bare).is_err(), "{:?}", keyword);
        assert!(parse(&format!("{} ", bare)).is_err(), "{:?}", keyword);
        assert!(parse(&format!("{} {}", bare, SIG)).is_err(), "{:?}", keyword);
        assert!(parse(&format!("{} {} {}", bare, CID, SIG)).is_ok(), "{:?}", keyword);
    }
}

#[test]
fn list_needs_a_space_behind_it() {
    let bare = format!("Tezos Signed Message: d t {} {} {} LIST", PK, PKH, ORBIT);
    assert!(parse(&bare).is_err());
    let t = parse(&format!("{} ", bare)).unwrap();
    assert_eq!(t.action, Action::List);
    assert_eq!(t.sig, "");
}

#[test]
fn missing_field_is_rejected() {
    assert!(parse(&format!("Tezos Signed Message: d t {} {} PUT {} {}", PK, PKH, CID, SIG)).is_err());
    assert!(parse(&format!("Tezos Signed Message: d t {} {} {}", PK, PKH, ORBIT)).is_err());
    assert!(parse("Tezos Signed Message: d").is_err());
}

#[test]
fn orbit_that_its_parser_refuses_is_rejected() {
    let text = format!("Tezos Signed Message: d t {} {} not-an-orbit PUT {} {}", PK, PKH, CID, SIG);
    assert!(parse_fields(&text).is_ok());
    assert_eq!(parse_fields(&text).unwrap().orbit, "not-an-orbit");
    assert_eq!(parse(&text).unwrap_err(), ParseError);
}

#[test]
fn orbit_is_the_one_its_parser_returns() {
    let text = format!("Tezos Signed Message: d t {} {} ORBIT PUT {} {}", PK, PKH, CID, SIG);
    let t = TezosAuthorizationString::from_str(&text, |s: &str| {
        Some(OrbitId::new(s.to_lowercase()))
    })
    .unwrap();
    assert_eq!(t.orbit.as_str(), "orbit");
    assert_eq!(t.orbit.to_string(), "orbit");
}

#[test]
fn from_fields_follows_the_orbit() {
    let text = format!("Tezos Signed Message: d t {} {} {} PUT {} {}", PK, PKH, ORBIT, CID, SIG);
    let fields = parse_fields(&text).unwrap();
    assert!(TezosAuthorizationString::from_fields(fields.clone(), None).is_err());
    let t = TezosAuthorizationString::from_fields(fields, Some(OrbitId::new("o".to_string())))
        .unwrap();
    assert_eq!(t.orbit.as_str(), "o");
    assert_eq!(t.domain, "d");
    assert_eq!(t.sig, SIG);
}

#[test]
fn action_without_items_does_not_round_trip() {
    let t = token(Action::Get(vec![]), SIG);
    assert!(t.to_string().contains(" GET  edsig"));
    let back = parse(&t.to_string()).unwrap();
    assert_ne!(back.action, t.action);
    assert_eq!(back.action, Action::Get(items(&[""])));
}

#[test]
fn field_with_a_space_does_not_round_trip() {
    let mut t = token(Action::Put(items(&[CID])), SIG);
    t.domain = "kepler net".to_string();
    match parse(&t.to_string()) {
        Ok(back) => assert_ne!(back.domain, t.domain),
        Err(e) => assert_eq!(e, ParseError),
    }
}
