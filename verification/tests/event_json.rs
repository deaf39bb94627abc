use sha2::Digest;
use nostreye::json::{
    commitment_json, compact_event_json, metadata_json,
};
use nostreye::signer::{assemble_event, blossom_auth_tags, compute_event_id, tag_pair};
use nostreye::text::{decimal_string, push_json_string, str_equals};
use serde_json::Value;

fn s(x: &str) -> String {
    x.to_string()
}

fn sample_tags() -> Vec<Vec<String>> {
    vec![
        vec![s("url"), s("https://example.com/a b.jpg")],
        vec![s("m"), s("image/jpeg")],
        vec![s("single")],
        vec![],
        vec![s("quote\"back\\slash"), s("ctl\u{1}\u{1f}\n\t")],
    ]
}

fn tags_value(tags: &[Vec<String>]) -> Value {
    Value::Array(
        tags.iter()
            .map(|t| Value::Array(t.iter().map(|x| Value::String(x.clone())).collect()))
            .collect(),
    )
}

fn event_value(
    id: &str,
    pubkey: &str,
    created_at: u64,
    kind: u64,
    tags: &[Vec<String>],
    content: &str,
    sig: &str,
) -> Value {
    let mut m = serde_json::Map::new();
    m.insert(s("id"), Value::String(s(id)));
    m.insert(s("pubkey"), Value::String(s(pubkey)));
    m.insert(s("created_at"), Value::from(created_at));
    m.insert(s("kind"), Value::from(kind));
    m.insert(s("tags"), tags_value(tags));
    m.insert(s("content"), Value::String(s(content)));
    m.insert(s("sig"), Value::String(s(sig)));
    Value::Object(m)
}

const PK: &str = "79be667ef9dcbbac55a06295ce870b07029bfcdb2dce28d959f2815b16f81798";
const CONTENT: &str = "h\u{e9}llo \"w\u{f6}rld\"\n\u{1f4f7}\\ \u{7f}\u{0}";

#[test]
fn json_string_escapes_like_serde() {
    for text in [CONTENT, "", "plain", "\u{8}\u{c}\r\t\n/", "\u{1f}\u{10}"] {
        let mut out = String::new();
        push_json_string(&mut out, text);
        assert_eq!(out, serde_json::to_string(text).unwrap());
    }
}

#[test]
fn decimal_text() {
    assert_eq!(decimal_string(0), "0");
    assert_eq!(decimal_string(7), "7");
    assert_eq!(decimal_string(1234567890), "1234567890");
    assert_eq!(decimal_string(u64::MAX), u64::MAX.to_string());
}

#[test]
fn commitment_matches_serde_array() {
    let tags = sample_tags();
    let expected = Value::Array(vec![
        Value::from(0u8),
        Value::String(s(PK)),
        Value::from(1_700_000_000u64),
        Value::from(1063u64),
        tags_value(&tags),
        Value::String(s(CONTENT)),
    ]);
    assert_eq!(
        commitment_json(PK, 1_700_000_000, 1063, &tags, CONTENT),
        serde_json::to_string(&expected).unwrap()
    );
    let empty: Vec<Vec<String>> = vec![];
    assert_eq!(commitment_json(PK, 5, 1, &empty, ""), format!("[0,\"{}\",5,1,[],\"\"]", PK));
}

#[test]
fn event_id_matches_nostr_crate() {
    let tags = vec![vec![s("t"), s("upload")], vec![s("x"), s("abc")]];
    let id = compute_event_id(PK, 1_700_000_123, 1, &tags, CONTENT);
    let nostr_tags = nostr::event::Tags::from_list(
        tags.iter().map(|t| nostr::event::Tag::parse(t.clone()).unwrap()).collect(),
    );
    let nostr_id = nostr::event::EventId::compute(
        &nostr::key::PublicKey::from_hex(PK).unwrap(),
        &nostr::types::Timestamp::from_secs(1_700_000_123),
        &nostr::event::Kind::from_u16(1),
        &nostr_tags,
        CONTENT,
    );
    assert_eq!(id, nostr_id.to_hex());
}

#[test]
fn event_id_is_hex_of_sha256_of_commitment() {
    let tags = sample_tags();
    let commitment = commitment_json(PK, 42, 7, &tags, CONTENT);
    let digest = sha2::Sha256::digest(commitment.as_bytes());
    assert_eq!(compute_event_id(PK, 42, 7, &tags, CONTENT), hex::encode(digest));
}

#[test]
fn assembled_event_json_is_serde_pretty() {
    let tags = sample_tags();
    let ev = assemble_event(s("id1"), s(PK), 9, 1063, CONTENT, &tags, s("sig1")).unwrap();
    let value = event_value("id1", PK, 9, 1063, &tags, CONTENT, "sig1");
    assert_eq!(ev.json, serde_json::to_string_pretty(&value).unwrap());
    let none: Vec<Vec<String>> = vec![];
    let ev = assemble_event(s("i"), s("p"), 0, 0, "", &none, s("s")).unwrap();
    assert_eq!(
        ev.json,
        serde_json::to_string_pretty(&event_value("i", "p", 0, 0, &none, "", "s")).unwrap()
    );
}

#[test]
fn compact_event_matches_serde() {
    let tags = sample_tags();
    let text = compact_event_json("id1", PK, 9, 24242, &tags, CONTENT, "sig1");
    let value = event_value("id1", PK, 9, 24242, &tags, CONTENT, "sig1");
    assert_eq!(text, serde_json::to_string(&value).unwrap());
}

#[test]
fn metadata_matches_serde_object() {
    let mut m = serde_json::Map::new();
    m.insert(s("name"), Value::String(s("nostreye")));
    m.insert(s("display_name"), Value::String(s("Nostreye Camera")));
    m.insert(s("about"), Value::String(s("RPi camera \"captures\"")));
    m.insert(s("picture"), Value::String(s("")));
    assert_eq!(
        metadata_json("nostreye", "Nostreye Camera", "RPi camera \"captures\"", ""),
        serde_json::to_string(&Value::Object(m)).unwrap()
    );
}

#[test]
fn assembled_event_holds_its_parts() {
    let tags = vec![tag_pair("m", s("image/jpeg"))];
    let ev = assemble_event(s("abc"), s(PK), 3, 1, "hi", &tags, s("ff")).unwrap();
    assert_eq!(ev.id, "abc");
    assert_eq!(ev.pubkey, PK);
    assert_eq!(ev.created_at, 3);
    assert_eq!(ev.kind, 1);
    assert_eq!(ev.content, "hi");
    assert_eq!(ev.sig, "ff");
    let parsed: Value = serde_json::from_str(&ev.json).unwrap();
    assert_eq!(parsed, event_value("abc", PK, 3, 1, &tags, "hi", "ff"));
    assert!(ev.json.starts_with("{\n  \"content\": \"hi\","));
}

#[test]
fn blossom_tags_layout() {
    let tags = blossom_auth_tags("deadbeef", 1234, 1_700_000_600);
    assert_eq!(
        tags,
        vec![
            vec![s("t"), s("upload")],
            vec![s("x"), s("deadbeef")],
            vec![s("size"), s("1234")],
            vec![s("expiration"), s("1700000600")],
        ]
    );
}

#[test]
fn string_equality() {
    assert!(str_equals("OK", "OK"));
    assert!(!str_equals("OK", "ok"));
    assert!(!str_equals("OK", "OK "));
}
