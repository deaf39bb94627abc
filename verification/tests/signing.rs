use base64::Engine;
use nostreye::publisher::prepare_upload;
use nostreye::signer::{compute_event_id, NostreyeSigner, SignerError};
use sha2::Digest;

fn s(x: &str) -> String {
    x.to_string()
}

fn signer() -> NostreyeSigner {
    NostreyeSigner::new(Some(s("cam-test"))).expect("device identity")
}

#[test]
fn identity_has_hex_public_key() {
    let signer = signer();
    let pk = signer.pubkey_hex();
    assert_eq!(pk.len(), 64);
    assert!(pk.chars().all(|c| c.is_ascii_hexdigit() && !c.is_ascii_uppercase()));
    assert!(signer.npub().starts_with("npub1"));
    let decoded = nostr::key::PublicKey::from_hex(pk).unwrap();
    assert_eq!(hex::encode(decoded.to_bytes()), pk);
    let from_npub = nostr::key::PublicKey::parse(signer.npub()).unwrap();
    assert_eq!(from_npub, decoded);
    assert!(secp256k1::XOnlyPublicKey::from_slice(&decoded.to_bytes()).is_ok());
}

#[test]
fn event_signature_is_schnorr_over_its_id() {
    let signer = signer();
    let tags = vec![vec![s("m"), s("image/jpeg")]];
    let ev = signer.sign_event_at(1063, "signed", tags, 42).unwrap();
    let secp = secp256k1::Secp256k1::verification_only();
    let key = secp256k1::XOnlyPublicKey::from_slice(&hex::decode(&ev.pubkey).unwrap()).unwrap();
    let sig = secp256k1::schnorr::Signature::from_slice(&hex::decode(&ev.sig).unwrap()).unwrap();
    let id = hex::decode(&ev.id).unwrap();
    assert!(secp.verify_schnorr(&sig, &id, &key).is_ok());
    let again = signer.sign_event_at(1063, "signed", vec![vec![s("m"), s("image/jpeg")]], 42).unwrap();
    assert_eq!(again.sig, ev.sig);
}

#[test]
fn signed_event_fields_and_id() {
    let signer = signer();
    let tags = vec![vec![s("url"), s("https://x/y.jpg")]];
    let ev = signer.sign_event_at(1063, "hello", tags.clone(), 1_700_000_000).unwrap();
    assert_eq!(ev.kind, 1063);
    assert_eq!(ev.created_at, 1_700_000_000);
    assert_eq!(ev.content, "hello");
    assert_eq!(ev.pubkey, signer.pubkey_hex());
    assert_eq!(ev.id, compute_event_id(signer.pubkey_hex(), 1_700_000_000, 1063, &tags, "hello"));
    assert_eq!(ev.sig.len(), 128);
    let parsed: serde_json::Value = serde_json::from_str(&ev.json).unwrap();
    assert_eq!(parsed["id"], serde_json::Value::String(ev.id.clone()));
    assert_eq!(parsed["sig"], serde_json::Value::String(ev.sig.clone()));
    assert_eq!(parsed["tags"][0][1], serde_json::Value::String(s("https://x/y.jpg")));
}

#[test]
fn untagged_event_verifies() {
    let signer = signer();
    let ev = signer.sign_event(1, "a capture", vec![]).unwrap();
    assert_eq!(NostreyeSigner::verify_event(&ev), Ok(true));
    assert_eq!(NostreyeSigner::verify_event_checked(&ev), Some(Ok(true)));
}

#[test]
fn tampered_event_is_rejected() {
    let signer = signer();
    let mut ev = signer.sign_event_at(1, "original", vec![], 100).unwrap();
    ev.content = s("changed");
    assert_eq!(NostreyeSigner::verify_event(&ev), Ok(false));
    let mut ev = signer.sign_event_at(1, "original", vec![], 100).unwrap();
    let flipped = if ev.sig.starts_with('0') { "1" } else { "0" };
    ev.sig.replace_range(0..1, flipped);
    assert_eq!(NostreyeSigner::verify_event(&ev), Ok(false));
}

#[test]
fn malformed_signatures_are_errors() {
    let signer = signer();
    let mut ev = signer.sign_event_at(1, "x", vec![], 100).unwrap();
    ev.sig = s("zz");
    assert_eq!(NostreyeSigner::verify_event(&ev), Err(SignerError::InvalidSignatureHex));
    ev.sig = s("abcd");
    assert_eq!(NostreyeSigner::verify_event(&ev), Err(SignerError::InvalidSignatureBytes));
}

#[test]
fn tagged_event_verifies_over_its_listed_tags() {
    let signer = signer();
    let ev = signer.sign_event_at(1, "x", vec![vec![s("t"), s("v")]], 100).unwrap();
    assert_eq!(NostreyeSigner::verify_event(&ev), Ok(true));
    let mut dropped = ev.clone();
    dropped.json = dropped.json.replace("\"v\"", "\"w\"");
    assert_eq!(NostreyeSigner::verify_event(&dropped), Ok(false));
}

#[test]
fn event_json_without_string_tags_is_an_error() {
    let signer = signer();
    let mut ev = signer.sign_event_at(1, "x", vec![], 100).unwrap();
    ev.json = s("{\"tags\": [[1]]}");
    assert_eq!(NostreyeSigner::verify_event(&ev), Err(SignerError::InvalidTags));
    ev.json = s("not json");
    assert_eq!(NostreyeSigner::verify_event(&ev), Err(SignerError::InvalidTags));
    ev.json = s("{}");
    assert_eq!(NostreyeSigner::verify_event_checked(&ev), Some(Err(SignerError::InvalidTags)));
}

#[test]
fn text_note_lists_no_tags() {
    let signer = signer();
    let tag = nostr::event::Tag::parse(["t", "nostreye"]).unwrap();
    let ev = signer.sign_text_note("hi", vec![tag.clone()]).unwrap();
    assert_eq!(ev.kind, 1);
    let parsed: serde_json::Value = serde_json::from_str(&ev.json).unwrap();
    assert_eq!(parsed["tags"], serde_json::Value::Array(vec![]));
    let committed = vec![vec![format!("{:?}", tag)]];
    assert_eq!(committed[0][0], "Tag([\"t\", \"nostreye\"])");
    assert_eq!(ev.id, compute_event_id(signer.pubkey_hex(), ev.created_at, 1, &committed, "hi"));
    assert_eq!(NostreyeSigner::verify_event(&ev), Ok(false));
    let plain = signer.sign_text_note("hi", vec![]).unwrap();
    assert_eq!(NostreyeSigner::verify_event(&plain), Ok(true));
}

#[test]
fn metadata_event_content() {
    let signer = signer();
    let ev = signer.sign_metadata("nostreye", "Nostreye Camera", "about", "").unwrap();
    assert_eq!(ev.kind, 0);
    assert_eq!(
        ev.content,
        "{\"about\":\"about\",\"display_name\":\"Nostreye Camera\",\"name\":\"nostreye\",\"picture\":\"\"}"
    );
    assert_eq!(NostreyeSigner::verify_event(&ev), Ok(true));
}

#[test]
fn blossom_auth_is_compact_event() {
    let signer = signer();
    let auth = signer.sign_blossom_auth_at("ab", 10, 700, 100).unwrap();
    assert!(!auth.contains('\n'));
    let parsed: serde_json::Value = serde_json::from_str(&auth).unwrap();
    assert_eq!(parsed["kind"], serde_json::Value::from(24242u64));
    assert_eq!(parsed["created_at"], serde_json::Value::from(100u64));
    assert_eq!(parsed["content"], serde_json::Value::String(s("Upload image")));
    assert_eq!(parsed["tags"][3][1], serde_json::Value::String(s("700")));
    assert_eq!(serde_json::to_string(&parsed).unwrap(), auth);
    let now_auth = signer.sign_blossom_auth("ab", 10).unwrap();
    let parsed: serde_json::Value = serde_json::from_str(&now_auth).unwrap();
    let expiration: u64 = parsed["tags"][3][1].as_str().unwrap().parse().unwrap();
    let created = parsed["created_at"].as_u64().unwrap();
    assert!(expiration >= created + 599 && expiration <= created + 601);
}

#[test]
fn frame_hash_signature_is_hex() {
    let signer = signer();
    let sig = signer.sign_frame_hash(b"jpeg bytes").unwrap();
    assert_eq!(sig.len(), 128);
    assert!(sig.chars().all(|c| c.is_ascii_hexdigit()));
    assert_eq!(sig, signer.sign_frame_hash(b"jpeg bytes").unwrap());
    assert_ne!(sig, signer.sign_frame_hash(b"other bytes").unwrap());
}

#[test]
fn upload_request_hashes_and_encodes_authorization() {
    let signer = signer();
    let jpeg = b"\xff\xd8 not really a jpeg";
    let request = prepare_upload(&signer, jpeg).unwrap();
    assert_eq!(request.sha256_hex, hex::encode(sha2::Sha256::digest(jpeg)));
    let auth = base64::engine::general_purpose::STANDARD.decode(&request.auth_b64).unwrap();
    let parsed: serde_json::Value = serde_json::from_slice(&auth).unwrap();
    assert_eq!(parsed["kind"], serde_json::Value::from(24242u64));
    assert_eq!(parsed["tags"][1][1], serde_json::Value::String(request.sha256_hex.clone()));
    assert_eq!(parsed["tags"][2][1], serde_json::Value::String(jpeg.len().to_string()));
}
