//! Publishing a capture: the Blossom upload request, the NIP-94 and kind-1
//! events that announce it, and the wire messages and replies of relays.

use vstd::prelude::*;
use vstd::string::StringSliceAdditionalSpecFns;
use vstd::utf8::{encode_utf8, is_char_boundary};

use crate::crypto::{base64_encode, base64_standard, hex_encode, sha256, sha256_digest};
use crate::json::{
    json_array_bool_at, json_array_bool_of, json_array_str_at, json_array_str_of, json_compact,
    json_field_str, json_field_str_of, json_value_compact,
};
use crate::signer::{tag_pair, NostreyeSigner, SignedEvent, SignerError};
use crate::text::{chars_of, decimal, decimal_string, hex_lower, push_decimal, str_equals};

verus! {

/// The public Blossom server used by default.
pub const BLOSSOM_SERVER: &'static str = "https://blossom.band";

/// What a capture's publication produced.
pub struct PublishResult {
    pub image_url: String,
    /// Per-relay result: (relay URL, accepted).
    pub relay_results: Vec<(String, bool)>,
}

/// Why publishing a capture failed at a step the library decides.
#[derive(Debug, Clone, PartialEq, Eq)]
pub enum PublishError {
    /// Signing an event failed.
    Signer(SignerError),
    /// The Blossom server's answer is not JSON.
    NotJson,
    /// The Blossom server answered with an unsuccessful status.
    UploadRejected,
    /// The Blossom server's answer holds no `url` string.
    NoUrl,
}

/// `s` without the `/` characters at its end.
pub open spec fn trim_trailing_slashes(s: Seq<char>) -> Seq<char>
    decreases s.len(),
{
    if s.len() > 0 && s.last() == '/' {
        trim_trailing_slashes(s.drop_last())
    } else {
        s
    }
}

/// The Blossom upload endpoint of a server: its URL without trailing `/`,
/// then `/upload`.
pub fn upload_url(server: &str) -> (url: String)
    ensures
        url@ == trim_trailing_slashes(server@) + "/upload"@,
{
    let chars = chars_of(server);
    let mut end = chars.len();
    assert(chars@.take(end as int) =~= chars@);
    while end > 0 && chars[end - 1] == '/'
        invariant
            end <= chars@.len(),
            chars@ == server@,
            trim_trailing_slashes(chars@.take(end as int)) == trim_trailing_slashes(server@),
        decreases end,
    {
        assert(chars@.take(end as int).drop_last() =~= chars@.take(end - 1));
        end -= 1;
    }
    let mut url = String::new();
    for i in 0..end
        invariant
            end <= chars@.len(),
            url@ == chars@.take(i as int),
    {
        url.push(chars[i]);
        assert(url@ =~= chars@.take(i + 1));
    }
    assert(trim_trailing_slashes(chars@.take(end as int)) == chars@.take(end as int));
    url.append("/upload");
    url
}

/// The `Authorization` header value of a Blossom upload: `Nostr <base64>`.
pub fn authorization_header(auth_b64: &str) -> (header: String)
    ensures
        header@ == "Nostr "@ + auth_b64@,
{
    let mut header = String::new();
    header.append("Nostr ");
    header.append(auth_b64);
    header
}

/// What a Blossom upload needs besides the file: the file's SHA-256 in hex
/// and the base64 of the signed upload authorization.
pub struct UploadRequest {
    pub sha256_hex: String,
    pub auth_b64: String,
}

/// Hash the file and sign its Blossom upload authorization.
pub fn prepare_upload(signer: &NostreyeSigner, jpeg_data: &[u8]) -> (request: Result<
    UploadRequest,
    SignerError,
>)
    ensures
        request.is_ok() ==> request.unwrap().sha256_hex@ == hex_lower(sha256(jpeg_data@)),
        request.is_ok() ==> exists|expiration: u64, created_at: u64|
            {
                &&& expiration >= 600
                &&& #[trigger] signer.blossom_auth(
                    hex_lower(sha256(jpeg_data@)),
                    jpeg_data@.len() as u64,
                    expiration,
                    created_at,
                ) is Some
                &&& request.unwrap().auth_b64@ == base64_standard(
                    encode_utf8(
                        signer.blossom_auth(
                            hex_lower(sha256(jpeg_data@)),
                            jpeg_data@.len() as u64,
                            expiration,
                            created_at,
                        )->0,
                    ),
                )
            },
        request.is_err() ==> request == Err::<UploadRequest, SignerError>(SignerError::Clock)
            || exists|expiration: u64, created_at: u64|
            {
                &&& expiration >= 600
                &&& #[trigger] signer.blossom_auth(
                    hex_lower(sha256(jpeg_data@)),
                    jpeg_data@.len() as u64,
                    expiration,
                    created_at,
                ) is None
                &&& request == Err::<UploadRequest, SignerError>(
                    signer.blossom_auth_failure(
                        hex_lower(sha256(jpeg_data@)),
                        jpeg_data@.len() as u64,
                        expiration,
                        created_at,
                    ),
                )
            },
{
    let digest = sha256_digest(jpeg_data);
    let sha256_hex = hex_encode(&digest);
    let auth = match signer.sign_blossom_auth(sha256_hex.as_str(), jpeg_data.len() as u64) {
        Ok(a) => a,
        Err(e) => return Err(e),
    };
    let auth_b64 = base64_encode(auth.as_str().as_bytes());
    Ok(UploadRequest { sha256_hex, auth_b64 })
}

/// What Blossom's answer to an upload means: the file's URL when the status
/// is a success and the body has a `url` string.
pub fn blossom_upload_outcome(status_success: bool, url: Option<String>) -> (outcome: Result<
    String,
    PublishError,
>)
    ensures
        !status_success ==> outcome == Err::<String, PublishError>(PublishError::UploadRejected),
        status_success && url.is_none() ==> outcome == Err::<String, PublishError>(
            PublishError::NoUrl,
        ),
        status_success && url.is_some() ==> outcome == Ok::<String, PublishError>(url.unwrap()),
{
    if !status_success {
        return Err(PublishError::UploadRejected);
    }
    match url {
        Some(u) => Ok(u),
        None => Err(PublishError::NoUrl),
    }
}

/// What Blossom's answer to an upload means, from its status and body text:
/// a body that is not JSON is an error whatever the status; otherwise as
/// `blossom_upload_outcome` says of the status and the `url` field.
pub fn blossom_reply_outcome(status_success: bool, body: &str) -> (outcome: Result<
    String,
    PublishError,
>)
    ensures
        json_field_str_of(body@, "url"@) is None ==> outcome == Err::<String, PublishError>(
            PublishError::NotJson,
        ),
        json_field_str_of(body@, "url"@) is Some && !status_success ==> outcome == Err::<
            String,
            PublishError,
        >(PublishError::UploadRejected),
        json_field_str_of(body@, "url"@) == Some(None::<Seq<char>>) && status_success ==> outcome
            == Err::<String, PublishError>(PublishError::NoUrl),
        status_success && json_field_str_of(body@, "url"@) is Some && json_field_str_of(
            body@,
            "url"@,
        )->0 is Some ==> outcome.is_ok() && outcome.unwrap()@ == json_field_str_of(
            body@,
            "url"@,
        )->0->0,
{
    match json_field_str(body, "url") {
        Some(url) => blossom_upload_outcome(status_success, url),
        None => Err(PublishError::NotJson),
    }
}

/// The bytes of a signature that the attestation note quotes: at most 32.
pub open spec fn quoted_sig_len(sig: &str) -> int {
    if sig.spec_bytes().len() < 32 {
        sig.spec_bytes().len() as int
    } else {
        32
    }
}

/// The content of the NIP-94 event: a camera emoji, a label, and the first
/// (at most) 32 bytes of the ECDSA attestation followed by an ellipsis.
pub fn attestation_content(ecdsa_sig: &str) -> (content: String)
    requires
        is_char_boundary(ecdsa_sig.spec_bytes(), quoted_sig_len(ecdsa_sig)),
    ensures
        exists|head: Seq<char>|
            {
                &&& encode_utf8(head) == ecdsa_sig.spec_bytes().take(quoted_sig_len(ecdsa_sig))
                &&& content@ == "\u{1f4f7} nostreye capture \u{2014} ECDSA attestation: "@ + head
                    + "\u{2026}"@
            },
{
    broadcast use vstd::utf8::encode_utf8_valid_utf8;

    let byte_len = ecdsa_sig.as_bytes().len();
    let n = if byte_len < 32 {
        byte_len
    } else {
        32
    };
    assert(n == quoted_sig_len(ecdsa_sig));
    let (head, _rest) = ecdsa_sig.split_at(n);
    let mut content = String::new();
    content.append("\u{1f4f7} nostreye capture \u{2014} ECDSA attestation: ");
    content.append(head);
    content.append("\u{2026}");
    assert(encode_utf8(head@) == ecdsa_sig.spec_bytes().take(quoted_sig_len(ecdsa_sig)));
    content
}

/// The content of the kind-1 post that shows the image in ordinary clients.
pub fn note_content(image_url: &str) -> (content: String)
    ensures
        content@ == "\u{1f4f7} nostreye capture\n\n"@ + image_url@,
{
    let mut content = String::new();
    content.append("\u{1f4f7} nostreye capture\n\n");
    content.append(image_url);
    content
}

/// The NIP-94 tags of a published image.
pub open spec fn nip94_tag_list(
    image_url: Seq<char>,
    sha256_hex: Seq<char>,
    size: u64,
    width: u32,
    height: u32,
    ecdsa_sig: Seq<char>,
) -> Seq<Seq<Seq<char>>> {
    seq![
        seq!["url"@, image_url],
        seq!["m"@, "image/jpeg"@],
        seq!["x"@, sha256_hex],
        seq!["size"@, decimal(size as nat)],
        seq!["dim"@, decimal(width as nat) + "x"@ + decimal(height as nat)],
        seq!["ecdsa-attestation"@, ecdsa_sig],
    ]
}

/// The NIP-94 tags: URL, MIME type, SHA-256, size, dimensions (`WxH`) and
/// the ECDSA attestation.
pub fn nip94_tags(
    image_url: &str,
    sha256_hex: &str,
    size: u64,
    width: u32,
    height: u32,
    ecdsa_sig: &str,
) -> (tags: Vec<Vec<String>>)
    ensures
        tags.deep_view() == nip94_tag_list(image_url@, sha256_hex@, size, width, height, ecdsa_sig@),
{
    let mut dim = String::new();
    push_decimal(&mut dim, width as u64);
    dim.append("x");
    push_decimal(&mut dim, height as u64);
    let mut tags: Vec<Vec<String>> = Vec::new();
    tags.push(tag_pair("url", image_url.to_owned()));
    tags.push(tag_pair("m", "image/jpeg".to_owned()));
    tags.push(tag_pair("x", sha256_hex.to_owned()));
    tags.push(tag_pair("size", decimal_string(size)));
    tags.push(tag_pair("dim", dim));
    tags.push(tag_pair("ecdsa-attestation", ecdsa_sig.to_owned()));
    assert(tags.deep_view() =~= nip94_tag_list(
        image_url@,
        sha256_hex@,
        size,
        width,
        height,
        ecdsa_sig@,
    ));
    tags
}

/// The two events that announce an uploaded image: the NIP-94 file metadata
/// (kind 1063) and a kind-1 post with the image URL.
pub fn sign_publication(
    signer: &NostreyeSigner,
    image_url: &str,
    sha256_hex: &str,
    size: u64,
    width: u32,
    height: u32,
    ecdsa_sig: &str,
) -> (events: Result<(SignedEvent, SignedEvent), SignerError>)
    requires
        is_char_boundary(ecdsa_sig.spec_bytes(), quoted_sig_len(ecdsa_sig)),
    ensures
        events.is_ok() ==> exists|head: Seq<char>|
            {
                &&& encode_utf8(head) == ecdsa_sig.spec_bytes().take(quoted_sig_len(ecdsa_sig))
                &&& signer.signs(
                    events.unwrap().0,
                    events.unwrap().0.created_at,
                    1063,
                    nip94_tag_list(image_url@, sha256_hex@, size, width, height, ecdsa_sig@),
                    nip94_tag_list(image_url@, sha256_hex@, size, width, height, ecdsa_sig@),
                    "\u{1f4f7} nostreye capture \u{2014} ECDSA attestation: "@ + head + "\u{2026}"@,
                )
            },
        events.is_ok() ==> signer.signs(
            events.unwrap().1,
            events.unwrap().1.created_at,
            1,
            Seq::empty(),
            Seq::empty(),
            "\u{1f4f7} nostreye capture\n\n"@ + image_url@,
        ),
        events.is_err() ==> events == Err::<(SignedEvent, SignedEvent), SignerError>(
            SignerError::Clock,
        ) || events == Err::<(SignedEvent, SignedEvent), SignerError>(SignerError::Signing)
            || events == Err::<(SignedEvent, SignedEvent), SignerError>(SignerError::Json),
{
    let content = attestation_content(ecdsa_sig);
    let tags = nip94_tags(image_url, sha256_hex, size, width, height, ecdsa_sig);
    let nip94 = match signer.sign_event(1063, content.as_str(), tags) {
        Ok(e) => e,
        Err(e) => return Err(e),
    };
    let note_text = note_content(image_url);
    let no_tags: Vec<Vec<String>> = Vec::new();
    assert(no_tags.deep_view() =~= Seq::<Seq<Seq<char>>>::empty());
    let note = match signer.sign_event(1, note_text.as_str(), no_tags) {
        Ok(e) => e,
        Err(e) => return Err(e),
    };
    proof {
        let head = choose|head: Seq<char>|
            {
                &&& encode_utf8(head) == ecdsa_sig.spec_bytes().take(quoted_sig_len(ecdsa_sig))
                &&& content@ == "\u{1f4f7} nostreye capture \u{2014} ECDSA attestation: "@ + head
                    + "\u{2026}"@
            };
        assert(signer.signs(
            nip94,
            nip94.created_at,
            1063,
            nip94_tag_list(image_url@, sha256_hex@, size, width, height, ecdsa_sig@),
            nip94_tag_list(image_url@, sha256_hex@, size, width, height, ecdsa_sig@),
            "\u{1f4f7} nostreye capture \u{2014} ECDSA attestation: "@ + head + "\u{2026}"@,
        ));
    }
    Ok((nip94, note))
}

/// The per-relay results to report: those of the kind-1 broadcast, or, when
/// there are none, those of the NIP-94 broadcast.
pub fn choose_relay_results(note_results: Vec<(String, bool)>, nip94_results: Vec<(String, bool)>) -> (chosen: Vec<(String, bool)>)
    ensures
        chosen@ == if note_results@.len() > 0 {
            note_results@
        } else {
            nip94_results@
        },
{
    if note_results.len() > 0 {
        note_results
    } else {
        nip94_results
    }
}

/// Pair each relay with its outcome: accepted when it answered `OK` with
/// `true`; an error or a refusal counts as not accepted.
pub fn relay_results(relays: &Vec<String>, outcomes: &Vec<Option<bool>>) -> (results: Vec<(String, bool)>)
    requires
        relays@.len() == outcomes@.len(),
    ensures
        results@.len() == relays@.len(),
        forall|i: int|
            0 <= i < relays@.len() ==> (#[trigger] results@[i]).0@ == relays@[i]@ && results@[i].1
                == (outcomes@[i] == Some(true)),
{
    let mut results: Vec<(String, bool)> = Vec::new();
    for i in 0..relays.len()
        invariant
            relays@.len() == outcomes@.len(),
            results@.len() == i,
            forall|j: int|
                0 <= j < i ==> (#[trigger] results@[j]).0@ == relays@[j]@ && results@[j].1 == (
                outcomes@[j] == Some(true)),
    {
        let accepted = match outcomes[i] {
            Some(a) => a,
            None => false,
        };
        results.push((relays[i].clone(), accepted));
    }
    results
}

/// A relay's verdict from the first and third fields of an array reply: for
/// an `OK` reply, its third field when that is `true`; `None` for any other
/// reply.
pub open spec fn ok_verdict(first: Option<Seq<char>>, third: Option<bool>) -> Option<bool> {
    if first == Some("OK"@) {
        Some(third == Some(true))
    } else {
        None
    }
}

/// A relay's verdict from one reply: for an `OK` reply, its third field when
/// that is a boolean and otherwise `false`; `None` for any other reply.
pub fn relay_ok_verdict(first: Option<&str>, third: Option<bool>) -> (verdict: Option<bool>)
    ensures
        verdict == ok_verdict(
            match first {
                Some(f) => Some(f@),
                None => None,
            },
            third,
        ),
{
    match first {
        Some(f) => {
            if str_equals(f, "OK") {
                Some(
                    match third {
                        Some(t) => t,
                        None => false,
                    },
                )
            } else {
                None
            }
        },
        None => None,
    }
}

/// A relay's verdict from the text of one reply: for a JSON array whose
/// first element is `"OK"`, whether its third element is `true`; `None` for
/// any other reply.
pub fn relay_reply_verdict(text: &str) -> (verdict: Option<bool>)
    ensures
        verdict == match json_array_str_of(text@, 0) {
            None => None,
            Some(first) => ok_verdict(
                first,
                match json_array_bool_of(text@, 2) {
                    Some(third) => third,
                    None => None,
                },
            ),
        },
{
    match json_array_str_at(text, 0) {
        None => None,
        Some(first) => {
            let third = match json_array_bool_at(text, 2) {
                Some(t) => t,
                None => None,
            };
            match first {
                Some(f) => relay_ok_verdict(Some(f.as_str()), third),
                None => relay_ok_verdict(None, third),
            }
        },
    }
}

/// The number of relays that accepted.
pub fn count_accepted(results: &Vec<(String, bool)>) -> (n: usize)
    ensures
        n == results@.filter(|r: (String, bool)| r.1).len(),
{
    let mut n: usize = 0;
    for i in 0..results.len()
        invariant
            n == results@.take(i as int).filter(|r: (String, bool)| r.1).len(),
            n <= i,
    {
        proof {
            reveal_with_fuel(Seq::<(String, bool)>::filter, 1);
            assert(results@.take(i + 1).drop_last() =~= results@.take(i as int));
        }
        if results[i].1 {
            n += 1;
        }
    }
    assert(results@.take(results@.len() as int) =~= results@);
    n
}

/// The `["EVENT",<event>]` message around an event's compact JSON.
pub fn event_message(compact_event: &str) -> (message: String)
    ensures
        message@ == "[\"EVENT\","@ + compact_event@ + "]"@,
{
    let mut message = String::new();
    message.append("[\"EVENT\",");
    message.append(compact_event);
    message.append("]");
    message
}

/// The message that publishes an event to a relay: `["EVENT",<event>]`
/// with the event's JSON read and written again in compact form, or `None`
/// when the event's JSON cannot be read.
pub fn relay_event_message(event: &SignedEvent) -> (message: Option<String>)
    ensures
        message.is_some() == json_value_compact(event.json@).is_some(),
        message.is_some() ==> message.unwrap()@ == "[\"EVENT\","@ + json_value_compact(
            event.json@,
        ).unwrap() + "]"@,
{
    match json_compact(event.json.as_str()) {
        Some(compact) => Some(event_message(compact.as_str())),
        None => None,
    }
}

} // verus!
