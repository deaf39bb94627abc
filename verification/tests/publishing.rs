use nostreye::publisher::{
    attestation_content, authorization_header, blossom_reply_outcome, blossom_upload_outcome, choose_relay_results,
    count_accepted, event_message, nip94_tags, note_content, relay_event_message,
    relay_ok_verdict, relay_reply_verdict, relay_results, upload_url, PublishError,
};
use nostreye::session::{camera_label, parse_command, Command};
use nostreye::signer::assemble_event;

fn s(x: &str) -> String {
    x.to_string()
}

#[test]
fn upload_endpoint_strips_trailing_slashes() {
    assert_eq!(upload_url("https://blossom.band"), "https://blossom.band/upload");
    assert_eq!(upload_url("https://blossom.band///"), "https://blossom.band/upload");
    assert_eq!(upload_url(""), "/upload");
    assert_eq!(upload_url("///"), "/upload");
}

#[test]
fn authorization_uses_nostr_scheme() {
    assert_eq!(authorization_header("eyJ9"), "Nostr eyJ9");
}

#[test]
fn upload_outcomes() {
    assert_eq!(blossom_upload_outcome(true, Some(s("u"))), Ok(s("u")));
    assert_eq!(blossom_upload_outcome(true, None), Err(PublishError::NoUrl));
    assert_eq!(blossom_upload_outcome(false, Some(s("u"))), Err(PublishError::UploadRejected));
}

#[test]
fn attestation_quotes_first_32_bytes() {
    let sig = "0123456789abcdef0123456789abcdef0123456789abcdef";
    assert_eq!(
        attestation_content(sig),
        "\u{1f4f7} nostreye capture \u{2014} ECDSA attestation: 0123456789abcdef0123456789abcdef\u{2026}"
    );
    assert_eq!(
        attestation_content("abc"),
        "\u{1f4f7} nostreye capture \u{2014} ECDSA attestation: abc\u{2026}"
    );
}

#[test]
fn note_has_url() {
    assert_eq!(note_content("https://x/y.jpg"), "\u{1f4f7} nostreye capture\n\nhttps://x/y.jpg");
}

#[test]
fn nip94_tag_layout() {
    let tags = nip94_tags("https://x/y.jpg", "ab12", 2048, 640, 480, "sig");
    assert_eq!(
        tags,
        vec![
            vec![s("url"), s("https://x/y.jpg")],
            vec![s("m"), s("image/jpeg")],
            vec![s("x"), s("ab12")],
            vec![s("size"), s("2048")],
            vec![s("dim"), s("640x480")],
            vec![s("ecdsa-attestation"), s("sig")],
        ]
    );
}

#[test]
fn relay_bookkeeping() {
    let relays = vec![s("wss://a"), s("wss://b"), s("wss://c")];
    let results = relay_results(&relays, &vec![Some(true), Some(false), None]);
    assert_eq!(results, vec![(s("wss://a"), true), (s("wss://b"), false), (s("wss://c"), false)]);
    assert_eq!(count_accepted(&results), 1);
    assert_eq!(count_accepted(&vec![]), 0);
    let other = vec![(s("wss://z"), true)];
    assert_eq!(choose_relay_results(results.clone(), other.clone()), results);
    assert_eq!(choose_relay_results(vec![], other.clone()), other);
}

#[test]
fn relay_replies() {
    assert_eq!(relay_ok_verdict(Some("OK"), Some(true)), Some(true));
    assert_eq!(relay_ok_verdict(Some("OK"), Some(false)), Some(false));
    assert_eq!(relay_ok_verdict(Some("OK"), None), Some(false));
    assert_eq!(relay_ok_verdict(Some("NOTICE"), Some(true)), None);
    assert_eq!(relay_ok_verdict(None, Some(true)), None);
}

#[test]
fn relay_message_wraps_compact_event() {
    let tags = vec![vec![s("m"), s("image/jpeg")]];
    let ev = assemble_event(s("abc"), s("pk"), 3, 1, "a \"b\"", &tags, s("ff")).unwrap();
    let parsed: serde_json::Value = serde_json::from_str(&ev.json).unwrap();
    let expected = serde_json::to_string(&serde_json::Value::Array(vec![
        serde_json::Value::String(s("EVENT")),
        parsed,
    ]))
    .unwrap();
    assert_eq!(relay_event_message(&ev), Some(expected));
}

#[test]
fn relay_message_reserialises_foreign_json() {
    let mut ev = assemble_event(s("abc"), s("pk"), 3, 1, "x", &vec![], s("ff")).unwrap();
    ev.json = s("{\"b\": 1,\n \"a\": [2, \"c d\"]}");
    assert_eq!(relay_event_message(&ev), Some(s("[\"EVENT\",{\"a\":[2,\"c d\"],\"b\":1}]")));
    ev.json = s("{not json");
    assert_eq!(relay_event_message(&ev), None);
}

#[test]
fn event_message_frames_compact_json() {
    assert_eq!(event_message("{\"k\":1}"), "[\"EVENT\",{\"k\":1}]");
    assert_eq!(event_message(""), "[\"EVENT\",]");
}

#[test]
fn relay_reply_texts() {
    assert_eq!(relay_reply_verdict("[\"OK\",\"id\",true,\"\"]"), Some(true));
    assert_eq!(relay_reply_verdict("[\"OK\",\"id\",false,\"duplicate\"]"), Some(false));
    assert_eq!(relay_reply_verdict("[\"OK\",\"id\"]"), Some(false));
    assert_eq!(relay_reply_verdict("[\"OK\",\"id\",\"yes\"]"), Some(false));
    assert_eq!(relay_reply_verdict("[\"NOTICE\",\"slow down\"]"), None);
    assert_eq!(relay_reply_verdict("[\"EOSE\"]"), None);
    assert_eq!(relay_reply_verdict("[]"), None);
    assert_eq!(relay_reply_verdict("{\"OK\":true}"), None);
    assert_eq!(relay_reply_verdict("not json"), None);
}

#[test]
fn commands() {
    assert_eq!(parse_command("  capture \n"), Command::Capture);
    assert_eq!(parse_command("SNAP"), Command::Capture);
    assert_eq!(parse_command("photo"), Command::Capture);
    assert_eq!(parse_command("shot"), Command::Capture);
    assert_eq!(parse_command("Quit"), Command::Quit);
    assert_eq!(parse_command("exit"), Command::Quit);
    assert_eq!(parse_command("q"), Command::Quit);
    assert_eq!(parse_command("?"), Command::Help);
    assert_eq!(parse_command("h"), Command::Help);
    assert_eq!(parse_command("HELP"), Command::Help);
    assert_eq!(parse_command("   \t"), Command::Empty);
    assert_eq!(parse_command(""), Command::Empty);
    assert_eq!(parse_command(" Fly Away "), Command::Unknown(s("fly away")));
    assert_eq!(parse_command("\u{3000}capture\u{a0}"), Command::Capture);
}

#[test]
fn camera_labels() {
    assert_eq!(camera_label("/base/soc/i2c0mux/i2c@1/imx708@1a"), "cam-/base/soc/i2");
    assert_eq!(camera_label("short"), "cam-short");
    assert_eq!(camera_label("\u{e9}\u{e9}\u{e9}\u{e9}\u{e9}\u{e9}\u{e9}\u{e9}\u{e9}\u{e9}\u{e9}\u{e9}\u{e9}"), "cam-\u{e9}\u{e9}\u{e9}\u{e9}\u{e9}\u{e9}\u{e9}\u{e9}\u{e9}\u{e9}\u{e9}\u{e9}");
}

#[test]
fn blossom_reply_bodies() {
    assert_eq!(
        blossom_reply_outcome(true, "{\"url\":\"https://b/x.jpg\",\"size\":3}"),
        Ok(s("https://b/x.jpg"))
    );
    assert_eq!(blossom_reply_outcome(true, "{\"size\":3}"), Err(PublishError::NoUrl));
    assert_eq!(blossom_reply_outcome(true, "{\"url\":7}"), Err(PublishError::NoUrl));
    assert_eq!(blossom_reply_outcome(true, "[1]"), Err(PublishError::NoUrl));
    assert_eq!(
        blossom_reply_outcome(false, "{\"url\":\"https://b/x.jpg\"}"),
        Err(PublishError::UploadRejected)
    );
    assert_eq!(blossom_reply_outcome(false, "<html>"), Err(PublishError::NotJson));
    assert_eq!(blossom_reply_outcome(true, ""), Err(PublishError::NotJson));
}
