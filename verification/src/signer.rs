//! The camera's Nostr identity: building, signing and checking events.

use device_signer::identity::{DeviceIdentity, IdentityError};
use nostr::event::Tag;
use std::time::SystemTime;
use vstd::prelude::*;
use vstd::utf8::encode_utf8;

use crate::crypto::{
    event_id_from_hex, hex_32_prefix, hex_bytes, hex_decode, hex_encode, is_hex_text,
    is_lower_hex, is_valid_xonly_key, lemma_hex_lower_round_trip, public_key_from_hex,
    schnorr_signature_from_slice, schnorr_verify, sha256, sha256_digest, verify_schnorr,
    xonly_key_valid,
};
use crate::json::{
    commitment_json, commitment_text, compact_event_json, compact_event_text, metadata_json,
    json_compact, json_field_string_lists, json_field_string_lists_of, json_pretty,
    json_value_compact, json_value_pretty, metadata_text,
};
use crate::text::{decimal, decimal_string, hex_lower};

verus! {

#[verifier::external_type_specification]
#[verifier::external_body]
pub struct ExDeviceIdentity(DeviceIdentity);

#[verifier::external_type_specification]
#[verifier::external_body]
pub struct ExIdentityError(IdentityError);

#[verifier::external_type_specification]
#[verifier::external_body]
pub struct ExTag(Tag);

#[verifier::external_type_specification]
#[verifier::external_body]
pub struct ExSystemTime(SystemTime);

/// `SystemTime::now`: the current wall-clock time (nothing can be said of it).
pub assume_specification[ SystemTime::now ]() -> SystemTime;

/// `Duration::as_secs`: the whole seconds of a duration.
pub assume_specification[ core::time::Duration::as_secs ](d: &core::time::Duration) -> u64;

/// `SystemTime::duration_since(UNIX_EPOCH)`, or `None` for a time before the
/// epoch. Nothing can be said of the clock.
#[verifier::external_body]
fn duration_since_unix_epoch(t: &SystemTime) -> Option<core::time::Duration> {
    t.duration_since(std::time::UNIX_EPOCH).ok()
}

/// The 32-byte x-only (BIP-340) public key of a device identity's Schnorr
/// signing key.
pub uninterp spec fn device_nostr_key(identity: DeviceIdentity) -> Seq<u8>;

/// The camera id that a device identity records (`info.camera_id`).
pub uninterp spec fn device_camera_id(identity: DeviceIdentity) -> Option<Seq<char>>;

/// The 64-byte BIP-340 signature that a device identity's Schnorr key makes of
/// a 32-byte digest, or `None` where that signing fails.
pub uninterp spec fn device_schnorr_signature(identity: DeviceIdentity, digest: Seq<u8>) -> Option<
    Seq<u8>,
>;

/// The 64-byte ECDSA signature (`r` then `s`) that a device identity's ECDSA
/// key makes of a 32-byte digest, or `None` where that signing fails.
pub uninterp spec fn device_ecdsa_signature(identity: DeviceIdentity, digest: Seq<u8>) -> Option<
    Seq<u8>,
>;

/// The bech32 text of a key under the human-readable part `npub` (NIP-19).
pub uninterp spec fn npub_bech32(key: Seq<u8>) -> Seq<char>;

/// The strings that a `nostr::Tag` holds, in order.
pub uninterp spec fn tag_strings(tag: Tag) -> Seq<Seq<char>>;

/// The `Debug` text of a `nostr::Tag` that holds these strings.
pub uninterp spec fn tag_debug(strings: Seq<Seq<char>>) -> Seq<char>;

/// `s` begins with `prefix`.
pub open spec fn has_prefix(s: Seq<char>, prefix: Seq<char>) -> bool {
    prefix.len() <= s.len() && s.take(prefix.len() as int) == prefix
}

/// `DeviceIdentity::new`, with the identity's Nostr public key (hex) and npub
/// copied out. The crate derives the keys from hardware identifiers and a salt
/// kept on disk, so whether it succeeds and which key it makes are not said.
/// Its source records the camera id it was given; makes the Schnorr key with
/// k256, whose public key is the x-coordinate of a curve point with even y
/// (so a valid BIP-340 key); writes that key's 32 bytes with `hex::encode`;
/// and writes the npub with `bech32::encode` under the part `npub`, which
/// begins the text with `npub1`.
#[verifier::external_body]
fn open_device_identity(camera_id: Option<String>) -> (opened: Result<
    (DeviceIdentity, String, String),
    IdentityError,
>)
    ensures
        opened.is_ok() ==> {
            let (identity, pubkey_hex, npub) = opened.unwrap();
            &&& device_camera_id(identity) == camera_id.deep_view()
            &&& device_nostr_key(identity).len() == 32
            &&& xonly_key_valid(device_nostr_key(identity))
            &&& pubkey_hex@ == hex_lower(device_nostr_key(identity))
            &&& npub@ == npub_bech32(device_nostr_key(identity))
            &&& has_prefix(npub@, "npub1"@)
        },
{
    let identity = DeviceIdentity::new(camera_id)?;
    let pubkey_hex = identity.info.nostr_pubkey_hex.clone();
    let npub = identity.info.nostr_npub.clone();
    Ok((identity, pubkey_hex, npub))
}

/// `DeviceIdentity::sign_nostr_event`: k256's BIP-340 `sign_prehash` of the
/// digest under the device's Schnorr key (no auxiliary randomness, so the
/// signature depends on the key and the digest alone), written with
/// `hex::encode`. A BIP-340 signature so made verifies under the key's public
/// key.
#[verifier::external_body]
fn sign_nostr_digest(identity: &DeviceIdentity, digest: &[u8; 32]) -> (sig: Result<
    String,
    IdentityError,
>)
    ensures
        sig.is_ok() == device_schnorr_signature(*identity, digest@) is Some,
        sig.is_ok() ==> {
            let bytes = device_schnorr_signature(*identity, digest@)->0;
            &&& sig.unwrap()@ == hex_lower(bytes)
            &&& bytes.len() == 64
            &&& schnorr_verify(bytes, digest@, device_nostr_key(*identity))
        },
{
    identity.sign_nostr_event(digest)
}

/// `DeviceIdentity::sign_hash_ecdsa`: the ecdsa crate's `sign_prehash` of the
/// digest under the device's ECDSA key (RFC 6979 nonce, so the signature
/// depends on the key and the digest alone), normalised to low `s` and
/// written with `hex::encode` of its 64 bytes.
#[verifier::external_body]
fn sign_ecdsa_digest(identity: &DeviceIdentity, digest: &[u8; 32]) -> (sig: Result<
    String,
    IdentityError,
>)
    ensures
        sig.is_ok() == device_ecdsa_signature(*identity, digest@) is Some,
        sig.is_ok() ==> sig.unwrap()@ == hex_lower(device_ecdsa_signature(*identity, digest@)->0)
            && device_ecdsa_signature(*identity, digest@)->0.len() == 64,
{
    identity.sign_hash_ecdsa(digest)
}

/// The `Debug` text of a `nostr::Tag` (`format!("{:?}", tag)`): the source's
/// `Debug` writes the tag's strings alone, as a tuple `Tag(..)` around them.
#[verifier::external_body]
fn tag_debug_text(tag: &Tag) -> (text: String)
    ensures
        text@ == tag_debug(tag_strings(*tag)),
{
    format!("{:?}", tag)
}

/// The current Unix time in whole seconds, or `None` when the clock reads a
/// time before the epoch.
pub fn unix_time_now() -> Option<u64> {
    let now = SystemTime::now();
    match duration_since_unix_epoch(&now) {
        Some(d) => Some(d.as_secs()),
        None => None,
    }
}

/// A signed Nostr event.
#[derive(Debug, Clone)]
pub struct SignedEvent {
    pub id: String,
    pub pubkey: String,
    pub created_at: u64,
    pub kind: u64,
    pub content: String,
    pub sig: String,
    /// The event object, pretty-printed.
    pub json: String,
}

/// Why signing or checking an event failed.
#[derive(Debug, Clone, Copy, PartialEq, Eq)]
pub enum SignerError {
    /// The device identity could not be set up.
    Identity,
    /// The clock reads a time before the Unix epoch, or too late to add to.
    Clock,
    /// The device key refused to sign.
    Signing,
    /// `serde_json` could not read or write the event's JSON.
    Json,
    /// The event's JSON holds no list of string tags.
    InvalidTags,
    /// The event's public key is not hex for 32 bytes.
    InvalidPublicKey,
    /// The event's id is not hex for 32 bytes.
    InvalidEventId,
    /// The event's signature is not hex.
    InvalidSignatureHex,
    /// The event's signature is not 64 bytes.
    InvalidSignatureBytes,
}

/// The SHA-256 of an event's UTF-8 commitment: the 32 bytes that its id
/// writes in hex and that its signature signs.
pub open spec fn event_digest(
    pubkey: Seq<char>,
    created_at: u64,
    kind: u64,
    tags: Seq<Seq<Seq<char>>>,
    content: Seq<char>,
) -> Seq<u8> {
    sha256(encode_utf8(commitment_text(pubkey, created_at, kind, tags, content)))
}

/// The NIP-01 event id: lowercase hex of the SHA-256 of the UTF-8 commitment.
pub open spec fn event_id_text(
    pubkey: Seq<char>,
    created_at: u64,
    kind: u64,
    tags: Seq<Seq<Seq<char>>>,
    content: Seq<char>,
) -> Seq<char> {
    hex_lower(event_digest(pubkey, created_at, kind, tags, content))
}

/// The JSON that an event carries: the event object read by `serde_json`
/// and written again pretty-printed, or `None` where `serde_json` cannot read
/// it.
pub open spec fn event_json_text(
    id: Seq<char>,
    pubkey: Seq<char>,
    created_at: u64,
    kind: u64,
    tags: Seq<Seq<Seq<char>>>,
    content: Seq<char>,
    sig: Seq<char>,
) -> Option<Seq<char>> {
    json_value_pretty(compact_event_text(id, pubkey, created_at, kind, tags, content, sig))
}

/// `event` is the event of `pubkey` at `created_at` of this kind and content,
/// its id computed over `committed` tags, its JSON listing `listed` tags, and
/// carrying the signature `sig`.
pub open spec fn signed_event_ok(
    event: SignedEvent,
    pubkey: Seq<char>,
    created_at: u64,
    kind: u64,
    committed: Seq<Seq<Seq<char>>>,
    listed: Seq<Seq<Seq<char>>>,
    content: Seq<char>,
    sig: Seq<char>,
) -> bool {
    &&& event.id@ == event_id_text(pubkey, created_at, kind, committed, content)
    &&& event.pubkey@ == pubkey
    &&& event.created_at == created_at
    &&& event.kind == kind
    &&& event.content@ == content
    &&& event.sig@ == sig
    &&& Some(event.json@) == event_json_text(event.id@, pubkey, created_at, kind, listed, content, sig)
}

/// Put a signed event together from its parts and its signature, its JSON
/// written by `serde_json` pretty-printed; `None` where `serde_json` cannot
/// read the event object.
pub fn assemble_event(
    id: String,
    pubkey: String,
    created_at: u64,
    kind: u64,
    content: &str,
    tags: &Vec<Vec<String>>,
    sig: String,
) -> (event: Option<SignedEvent>)
    ensures
        event.is_some() == event_json_text(
            id@,
            pubkey@,
            created_at,
            kind,
            tags.deep_view(),
            content@,
            sig@,
        ) is Some,
        event.is_some() ==> {
            let e = event.unwrap();
            &&& e.id@ == id@
            &&& e.pubkey@ == pubkey@
            &&& e.created_at == created_at
            &&& e.kind == kind
            &&& e.content@ == content@
            &&& e.sig@ == sig@
            &&& Some(e.json@) == event_json_text(
                id@,
                pubkey@,
                created_at,
                kind,
                tags.deep_view(),
                content@,
                sig@,
            )
        },
{
    let object = compact_event_json(
        id.as_str(),
        pubkey.as_str(),
        created_at,
        kind,
        tags,
        content,
        sig.as_str(),
    );
    match json_pretty(object.as_str()) {
        Some(json) => Some(
            SignedEvent { id, pubkey, created_at, kind, content: content.to_owned(), sig, json },
        ),
        None => None,
    }
}

/// The NIP-01 id of an event: lowercase hex of the SHA-256 of its commitment.
pub fn compute_event_id(
    pubkey: &str,
    created_at: u64,
    kind: u64,
    tags: &Vec<Vec<String>>,
    content: &str,
) -> (id: String)
    ensures
        id@ == event_id_text(pubkey@, created_at, kind, tags.deep_view(), content@),
{
    let commitment = commitment_json(pubkey, created_at, kind, tags, content);
    let digest = sha256_digest(commitment.as_str().as_bytes());
    hex_encode(&digest)
}

/// A tag of two strings.
pub fn tag_pair(name: &str, value: String) -> (tag: Vec<String>)
    ensures
        tag.deep_view() == seq![name@, value@],
{
    let mut tag: Vec<String> = Vec::new();
    tag.push(name.to_owned());
    tag.push(value);
    assert(tag.deep_view() =~= seq![name@, value@]);
    tag
}

/// The tags of a Blossom upload authorization (BUD-01).
pub open spec fn blossom_auth_tag_list(sha256_hex: Seq<char>, size: u64, expiration: u64) -> Seq<
    Seq<Seq<char>>,
> {
    seq![
        seq!["t"@, "upload"@],
        seq!["x"@, sha256_hex],
        seq!["size"@, decimal(size as nat)],
        seq!["expiration"@, decimal(expiration as nat)],
    ]
}

/// The tags of a Blossom upload authorization: `t` = `upload`, `x` = the
/// file's SHA-256 in hex, `size` in bytes, and the `expiration` time.
pub fn blossom_auth_tags(sha256_hex: &str, size: u64, expiration: u64) -> (tags: Vec<Vec<String>>)
    ensures
        tags.deep_view() == blossom_auth_tag_list(sha256_hex@, size, expiration),
{
    let mut tags: Vec<Vec<String>> = Vec::new();
    tags.push(tag_pair("t", "upload".to_owned()));
    tags.push(tag_pair("x", sha256_hex.to_owned()));
    tags.push(tag_pair("size", decimal_string(size)));
    tags.push(tag_pair("expiration", decimal_string(expiration)));
    assert(tags.deep_view() =~= blossom_auth_tag_list(sha256_hex@, size, expiration));
    tags
}

/// The result of checking an event's id, recomputed over the tags that its
/// JSON lists, and its signature; or `None` where the check cannot go on:
/// the key's bytes are not a valid x-only key.
pub open spec fn verify_event_result(event: SignedEvent) -> Option<Result<bool, SignerError>> {
    match json_field_string_lists_of(event.json@, "tags"@) {
        Some(Some(tags)) => if event_id_text(
            event.pubkey@,
            event.created_at,
            event.kind,
            tags,
            event.content@,
        ) != event.id@ {
            Some(Ok(false))
        } else {
            match hex_32_prefix(event.pubkey@) {
                None => Some(Err(SignerError::InvalidPublicKey)),
                Some(key) => match hex_32_prefix(event.id@) {
                    None => Some(Err(SignerError::InvalidEventId)),
                    Some(id) => if !is_hex_text(event.sig@) {
                        Some(Err(SignerError::InvalidSignatureHex))
                    } else if hex_bytes(event.sig@).len() != 64 {
                        Some(Err(SignerError::InvalidSignatureBytes))
                    } else if !xonly_key_valid(key) {
                        None
                    } else {
                        Some(Ok(schnorr_verify(hex_bytes(event.sig@), id, key)))
                    },
                },
            }
        },
        _ => Some(Err(SignerError::InvalidTags)),
    }
}

/// Signs Nostr events with the camera's hardware-linked key.
pub struct NostreyeSigner {
    identity: DeviceIdentity,
    pubkey_hex: String,
    npub: String,
}

impl NostreyeSigner {
    /// The key texts kept beside the identity are those of its Schnorr key,
    /// which is a valid BIP-340 key.
    #[verifier::type_invariant]
    spec fn keys_match(self) -> bool {
        let key = device_nostr_key(self.identity);
        &&& key.len() == 32
        &&& xonly_key_valid(key)
        &&& self.pubkey_hex@ == hex_lower(key)
        &&& self.npub@ == npub_bech32(key)
        &&& has_prefix(self.npub@, "npub1"@)
    }

    /// The device's 32-byte Nostr (BIP-340) public key.
    pub closed spec fn key(&self) -> Seq<u8> {
        device_nostr_key(self.identity)
    }

    /// The device's Nostr public key as lowercase hex.
    pub open spec fn pubkey(&self) -> Seq<char> {
        hex_lower(self.key())
    }

    /// The device's Nostr public key in `npub1…` form.
    pub open spec fn npub_text(&self) -> Seq<char> {
        npub_bech32(self.key())
    }

    /// The camera id that the identity was set up with.
    pub closed spec fn camera_id(&self) -> Option<Seq<char>> {
        device_camera_id(self.identity)
    }

    /// The device's Schnorr signature of a digest, if it can make one.
    pub closed spec fn schnorr_signature(&self, digest: Seq<u8>) -> Option<Seq<u8>> {
        device_schnorr_signature(self.identity, digest)
    }

    /// The device's ECDSA signature of a digest, if it can make one.
    pub closed spec fn ecdsa_signature(&self, digest: Seq<u8>) -> Option<Seq<u8>> {
        device_ecdsa_signature(self.identity, digest)
    }

    /// The device's key is a valid 32-byte BIP-340 key.
    pub open spec fn key_valid(&self) -> bool {
        self.key().len() == 32 && xonly_key_valid(self.key())
    }

    /// The JSON that this signer's event dated `created_at` carries, its id
    /// committing to `committed` tags and its JSON listing `listed` tags; or
    /// `None` where the device cannot sign it or `serde_json` cannot write it.
    pub open spec fn event_json(
        &self,
        created_at: u64,
        kind: u64,
        committed: Seq<Seq<Seq<char>>>,
        listed: Seq<Seq<Seq<char>>>,
        content: Seq<char>,
    ) -> Option<Seq<char>> {
        let digest = event_digest(self.pubkey(), created_at, kind, committed, content);
        match self.schnorr_signature(digest) {
            Some(sig) => event_json_text(
                hex_lower(digest),
                self.pubkey(),
                created_at,
                kind,
                listed,
                content,
                hex_lower(sig),
            ),
            None => None,
        }
    }

    /// Why signing such an event fails where it does: the device cannot sign
    /// its id, or else `serde_json` cannot write it.
    pub open spec fn sign_failure(
        &self,
        created_at: u64,
        kind: u64,
        committed: Seq<Seq<Seq<char>>>,
        content: Seq<char>,
    ) -> SignerError {
        if self.schnorr_signature(
            event_digest(self.pubkey(), created_at, kind, committed, content),
        ) is None {
            SignerError::Signing
        } else {
            SignerError::Json
        }
    }

    /// `event` is what this signer makes of an event dated `created_at`: its
    /// id commits to `committed` tags, its JSON lists `listed` tags, and its
    /// signature is the device's Schnorr signature of the id's 32 bytes,
    /// which verifies under the device's valid key.
    pub open spec fn signs(
        &self,
        event: SignedEvent,
        created_at: u64,
        kind: u64,
        committed: Seq<Seq<Seq<char>>>,
        listed: Seq<Seq<Seq<char>>>,
        content: Seq<char>,
    ) -> bool {
        let digest = event_digest(self.pubkey(), created_at, kind, committed, content);
        let sig = self.schnorr_signature(digest);
        &&& sig is Some
        &&& signed_event_ok(
            event,
            self.pubkey(),
            created_at,
            kind,
            committed,
            listed,
            content,
            hex_lower(sig->0),
        )
        &&& digest.len() == 32
        &&& sig->0.len() == 64
        &&& event.id@.len() == 64
        &&& is_lower_hex(event.id@)
        &&& event.sig@.len() == 128
        &&& is_lower_hex(event.sig@)
        &&& self.key_valid()
        &&& schnorr_verify(sig->0, digest, self.key())
    }

    /// Set up the hardware-linked identity (optionally salted with a camera id).
    pub fn new(camera_id: Option<String>) -> (signer: Result<NostreyeSigner, SignerError>)
        ensures
            signer.is_ok() ==> signer.unwrap().camera_id() == camera_id.deep_view(),
            signer.is_err() ==> signer == Err::<NostreyeSigner, SignerError>(SignerError::Identity),
    {
        match open_device_identity(camera_id) {
            Ok((identity, pubkey_hex, npub)) => Ok(NostreyeSigner { identity, pubkey_hex, npub }),
            Err(_) => Err(SignerError::Identity),
        }
    }

    /// The device's Nostr public key in `npub1…` bech32 form.
    pub fn npub(&self) -> (s: &str)
        ensures
            s@ == self.npub_text(),
            has_prefix(s@, "npub1"@),
    {
        proof {
            use_type_invariant(self);
        }
        self.npub.as_str()
    }

    /// The device's Nostr public key as lowercase hex.
    pub fn pubkey_hex(&self) -> (s: &str)
        ensures
            s@ == self.pubkey(),
            s@.len() == 64,
            is_lower_hex(s@),
            self.key_valid(),
    {
        proof {
            use_type_invariant(self);
            lemma_hex_lower_round_trip(self.key());
        }
        self.pubkey_hex.as_str()
    }

    /// Sign an event whose id commits to `committed` tags and whose JSON
    /// lists `listed` tags.
    fn sign_with_tags(
        &self,
        kind: u64,
        content: &str,
        committed: &Vec<Vec<String>>,
        listed: &Vec<Vec<String>>,
        created_at: u64,
    ) -> (signed: Result<SignedEvent, SignerError>)
        ensures
            signed.is_ok() == self.event_json(
                created_at,
                kind,
                committed.deep_view(),
                listed.deep_view(),
                content@,
            ) is Some,
            signed.is_ok() ==> self.signs(
                signed.unwrap(),
                created_at,
                kind,
                committed.deep_view(),
                listed.deep_view(),
                content@,
            ),
            signed.is_err() ==> signed == Err::<SignedEvent, SignerError>(
                self.sign_failure(created_at, kind, committed.deep_view(), content@),
            ),
    {
        proof {
            use_type_invariant(self);
        }
        let commitment = commitment_json(self.pubkey_hex.as_str(), created_at, kind, committed, content);
        let digest = sha256_digest(commitment.as_str().as_bytes());
        let id = hex_encode(&digest);
        let sig = match sign_nostr_digest(&self.identity, &digest) {
            Ok(sig) => sig,
            Err(_) => return Err(SignerError::Signing),
        };
        proof {
            lemma_hex_lower_round_trip(digest@);
            lemma_hex_lower_round_trip(self.schnorr_signature(digest@)->0);
        }
        match assemble_event(id, self.pubkey_hex.clone(), created_at, kind, content, listed, sig) {
            Some(event) => Ok(event),
            None => Err(SignerError::Json),
        }
    }

    /// Sign a NIP-01 event of any kind at the given Unix time; `tags` are
    /// tag arrays such as `[["url", "https://…"], ["m", "image/jpeg"]]`.
    pub fn sign_event_at(
        &self,
        kind: u64,
        content: &str,
        tags: Vec<Vec<String>>,
        created_at: u64,
    ) -> (signed: Result<SignedEvent, SignerError>)
        ensures
            signed.is_ok() == self.event_json(
                created_at,
                kind,
                tags.deep_view(),
                tags.deep_view(),
                content@,
            ) is Some,
            signed.is_ok() ==> self.signs(
                signed.unwrap(),
                created_at,
                kind,
                tags.deep_view(),
                tags.deep_view(),
                content@,
            ),
            signed.is_err() ==> signed == Err::<SignedEvent, SignerError>(
                self.sign_failure(created_at, kind, tags.deep_view(), content@),
            ),
    {
        self.sign_with_tags(kind, content, &tags, &tags, created_at)
    }

    /// Sign a NIP-01 event of any kind, dated now.
    pub fn sign_event(&self, kind: u64, content: &str, tags: Vec<Vec<String>>) -> (signed: Result<
        SignedEvent,
        SignerError,
    >)
        ensures
            signed.is_ok() ==> self.signs(
                signed.unwrap(),
                signed.unwrap().created_at,
                kind,
                tags.deep_view(),
                tags.deep_view(),
                content@,
            ),
            signed.is_err() ==> signed == Err::<SignedEvent, SignerError>(SignerError::Clock)
                || exists|t: u64|
                #![trigger self.event_json(t, kind, tags.deep_view(), tags.deep_view(), content@)]
                {
                    &&& self.event_json(t, kind, tags.deep_view(), tags.deep_view(), content@) is None
                    &&& signed == Err::<SignedEvent, SignerError>(
                        self.sign_failure(t, kind, tags.deep_view(), content@),
                    )
                },
    {
        let created_at = match unix_time_now() {
            Some(t) => t,
            None => return Err(SignerError::Clock),
        };
        self.sign_event_at(kind, content, tags, created_at)
    }

    /// The content of a kind-0 profile event: the object of name, display
    /// name, about and picture, read and written again by `serde_json`.
    pub open spec fn metadata_content(
        name: Seq<char>,
        display_name: Seq<char>,
        about: Seq<char>,
        picture: Seq<char>,
    ) -> Option<Seq<char>> {
        json_value_compact(metadata_text(name, display_name, about, picture))
    }

    /// Sign a kind-0 profile event whose content is the JSON object of name,
    /// display name, about and picture.
    pub fn sign_metadata(
        &self,
        name: &str,
        display_name: &str,
        about: &str,
        picture: &str,
    ) -> (signed: Result<SignedEvent, SignerError>)
        ensures
            signed.is_ok() ==> Self::metadata_content(name@, display_name@, about@, picture@) is Some
                && self.signs(
                signed.unwrap(),
                signed.unwrap().created_at,
                0,
                Seq::empty(),
                Seq::empty(),
                Self::metadata_content(name@, display_name@, about@, picture@)->0,
            ),
            Self::metadata_content(name@, display_name@, about@, picture@) is None ==> signed
                == Err::<SignedEvent, SignerError>(SignerError::Json),
            signed.is_err() && Self::metadata_content(name@, display_name@, about@, picture@) is Some
                ==> signed == Err::<SignedEvent, SignerError>(SignerError::Clock) || exists|t: u64|
                #![trigger self.event_json(t, 0, Seq::empty(), Seq::empty(), Self::metadata_content(name@, display_name@, about@, picture@)->0)]
                {
                    let content = Self::metadata_content(name@, display_name@, about@, picture@)->0;
                    &&& self.event_json(t, 0, Seq::empty(), Seq::empty(), content) is None
                    &&& signed == Err::<SignedEvent, SignerError>(
                        self.sign_failure(t, 0, Seq::empty(), content),
                    )
                },
    {
        let object = metadata_json(name, display_name, about, picture);
        let content = match json_compact(object.as_str()) {
            Some(c) => c,
            None => return Err(SignerError::Json),
        };
        assert(content@ == Self::metadata_content(name@, display_name@, about@, picture@)->0);
        let no_tags: Vec<Vec<String>> = Vec::new();
        assert(no_tags.deep_view() =~= Seq::<Seq<Seq<char>>>::empty());
        let signed = self.sign_event(0, content.as_str(), no_tags);
        proof {
            if signed.is_err() && signed != Err::<SignedEvent, SignerError>(SignerError::Clock) {
                let empty = Seq::<Seq<Seq<char>>>::empty();
                let t = choose|t: u64|
                    #![trigger self.event_json(t, 0, empty, empty, content@)]
                    {
                        &&& self.event_json(t, 0, empty, empty, content@) is None
                        &&& signed == Err::<SignedEvent, SignerError>(
                            self.sign_failure(t, 0, empty, content@),
                        )
                    };
                assert(self.event_json(t, 0, empty, empty, content@) is None);
            }
        }
        signed
    }

    /// The tags that a text note's id commits to: for each given tag, a tag
    /// of one string, that tag's `Debug` text.
    pub open spec fn note_commitment_tags(extra_tags: Seq<Tag>) -> Seq<Seq<Seq<char>>> {
        extra_tags.map_values(|t: Tag| seq![tag_debug(tag_strings(t))])
    }

    /// Sign a kind-1 text note dated now. Its id commits to one tag per given
    /// tag, holding that tag's `Debug` text; its JSON lists no tags.
    pub fn sign_text_note(&self, content: &str, extra_tags: Vec<Tag>) -> (signed: Result<
        SignedEvent,
        SignerError,
    >)
        ensures
            signed.is_ok() ==> self.signs(
                signed.unwrap(),
                signed.unwrap().created_at,
                1,
                Self::note_commitment_tags(extra_tags@),
                Seq::empty(),
                content@,
            ),
            signed.is_err() ==> signed == Err::<SignedEvent, SignerError>(SignerError::Clock)
                || exists|t: u64|
                #![trigger self.event_json(t, 1, Self::note_commitment_tags(extra_tags@), Seq::empty(), content@)]
                {
                    &&& self.event_json(
                        t,
                        1,
                        Self::note_commitment_tags(extra_tags@),
                        Seq::empty(),
                        content@,
                    ) is None
                    &&& signed == Err::<SignedEvent, SignerError>(
                        self.sign_failure(t, 1, Self::note_commitment_tags(extra_tags@), content@),
                    )
                },
    {
        let created_at = match unix_time_now() {
            Some(t) => t,
            None => return Err(SignerError::Clock),
        };
        let mut committed: Vec<Vec<String>> = Vec::new();
        let n = extra_tags.len();
        for i in 0..n
            invariant
                n == extra_tags@.len(),
                committed.deep_view() == Self::note_commitment_tags(extra_tags@.take(i as int)),
        {
            let mut one: Vec<String> = Vec::new();
            one.push(tag_debug_text(&extra_tags[i]));
            proof {
                assert(one.deep_view() =~= seq![tag_debug(tag_strings(extra_tags@[i as int]))]);
            }
            let ghost before = committed.deep_view();
            committed.push(one);
            proof {
                assert(extra_tags@.take(i + 1) =~= extra_tags@.take(i as int).push(
                    extra_tags@[i as int],
                ));
                assert(committed.deep_view() =~= before.push(one.deep_view()));
                assert(committed.deep_view() =~= Self::note_commitment_tags(
                    extra_tags@.take(i + 1),
                ));
            }
        }
        assert(extra_tags@.take(n as int) =~= extra_tags@);
        let listed: Vec<Vec<String>> = Vec::new();
        assert(listed.deep_view() =~= Seq::<Seq<Seq<char>>>::empty());
        self.sign_with_tags(1, content, &committed, &listed, created_at)
    }

    /// The compact JSON of the Blossom upload authorization that this signer
    /// makes for a file with this SHA-256 and size, expiring at `expiration`
    /// and dated `created_at`: the signed event's JSON read and written again
    /// by `serde_json`; `None` where the device cannot sign it or
    /// `serde_json` cannot write it.
    pub open spec fn blossom_auth(
        &self,
        sha256_hex: Seq<char>,
        size: u64,
        expiration: u64,
        created_at: u64,
    ) -> Option<Seq<char>> {
        let tags = blossom_auth_tag_list(sha256_hex, size, expiration);
        match self.event_json(created_at, 24242, tags, tags, "Upload image"@) {
            Some(json) => json_value_compact(json),
            None => None,
        }
    }

    /// Why making that authorization fails where it does.
    pub open spec fn blossom_auth_failure(
        &self,
        sha256_hex: Seq<char>,
        size: u64,
        expiration: u64,
        created_at: u64,
    ) -> SignerError {
        self.sign_failure(
            created_at,
            24242,
            blossom_auth_tag_list(sha256_hex, size, expiration),
            "Upload image"@,
        )
    }

    /// The Blossom upload authorization (kind 24242, BUD-01) for a file with
    /// this SHA-256 and size, expiring at `expiration` and dated
    /// `created_at`, as compact JSON for the `Authorization` header.
    pub fn sign_blossom_auth_at(
        &self,
        sha256_hex: &str,
        size: u64,
        expiration: u64,
        created_at: u64,
    ) -> (auth: Result<String, SignerError>)
        ensures
            auth.is_ok() == self.blossom_auth(sha256_hex@, size, expiration, created_at) is Some,
            auth.is_ok() ==> Some(auth.unwrap()@) == self.blossom_auth(
                sha256_hex@,
                size,
                expiration,
                created_at,
            ),
            auth.is_err() ==> auth == Err::<String, SignerError>(
                self.blossom_auth_failure(sha256_hex@, size, expiration, created_at),
            ),
    {
        let event = match self.sign_event_at(24242, "Upload image", blossom_auth_tags(sha256_hex, size, expiration), created_at) {
            Ok(e) => e,
            Err(e) => return Err(e),
        };
        match json_compact(event.json.as_str()) {
            Some(text) => Ok(text),
            None => Err(SignerError::Json),
        }
    }

    /// The Blossom upload authorization for a file, valid for ten minutes
    /// from now.
    pub fn sign_blossom_auth(&self, sha256_hex: &str, size: u64) -> (auth: Result<
        String,
        SignerError,
    >)
        ensures
            auth.is_ok() ==> exists|expiration: u64, created_at: u64|
                expiration >= 600 && #[trigger] self.blossom_auth(
                    sha256_hex@,
                    size,
                    expiration,
                    created_at,
                ) == Some(auth.unwrap()@),
            auth.is_err() ==> auth == Err::<String, SignerError>(SignerError::Clock) || exists|
                expiration: u64,
                created_at: u64,
            |
                {
                    &&& expiration >= 600
                    &&& #[trigger] self.blossom_auth(sha256_hex@, size, expiration, created_at) is None
                    &&& auth == Err::<String, SignerError>(
                        self.blossom_auth_failure(sha256_hex@, size, expiration, created_at),
                    )
                },
    {
        let now = match unix_time_now() {
            Some(t) => t,
            None => return Err(SignerError::Clock),
        };
        let expiration = match now.checked_add(600) {
            Some(t) => t,
            None => return Err(SignerError::Clock),
        };
        let created_at = match unix_time_now() {
            Some(t) => t,
            None => return Err(SignerError::Clock),
        };
        self.sign_blossom_auth_at(sha256_hex, size, expiration, created_at)
    }

    /// ECDSA-sign the SHA-256 of a captured frame with the device key, as hex.
    pub fn sign_frame_hash(&self, frame_data: &[u8]) -> (sig: Result<String, SignerError>)
        ensures
            sig.is_ok() == self.ecdsa_signature(sha256(frame_data@)) is Some,
            sig.is_ok() ==> sig.unwrap()@ == hex_lower(self.ecdsa_signature(sha256(frame_data@))->0),
            sig.is_ok() ==> sig.unwrap()@.len() == 128 && is_lower_hex(sig.unwrap()@),
            sig.is_err() ==> sig == Err::<String, SignerError>(SignerError::Signing),
    {
        let hash = sha256_digest(frame_data);
        match sign_ecdsa_digest(&self.identity, &hash) {
            Ok(s) => {
                proof {
                    lemma_hex_lower_round_trip(self.ecdsa_signature(sha256(frame_data@))->0);
                }
                Ok(s)
            },
            Err(_) => Err(SignerError::Signing),
        }
    }

    /// Check an event's id against its fields and the tags that its JSON
    /// lists, and its signature against its public key.
    pub fn verify_event(event: &SignedEvent) -> (checked: Result<bool, SignerError>)
        requires
            verify_event_result(*event) is Some,
        ensures
            verify_event_result(*event) == Some(checked),
    {
        match Self::verify_event_checked(event) {
            Some(r) => r,
            None => Ok(false),
        }
    }

    /// `verify_event` where it can run: `None` when the check reaches an
    /// event key whose bytes are not a valid x-only key.
    pub fn verify_event_checked(event: &SignedEvent) -> (checked: Option<Result<bool, SignerError>>)
        ensures
            checked == verify_event_result(*event),
    {
        let tags = match json_field_string_lists(event.json.as_str(), "tags") {
            Some(Some(t)) => t,
            _ => return Some(Err(SignerError::InvalidTags)),
        };
        let computed = compute_event_id(
            event.pubkey.as_str(),
            event.created_at,
            event.kind,
            &tags,
            event.content.as_str(),
        );
        if !(computed == event.id) {
            return Some(Ok(false));
        }
        let key = match public_key_from_hex(event.pubkey.as_str()) {
            Some(k) => k,
            None => return Some(Err(SignerError::InvalidPublicKey)),
        };
        let id = match event_id_from_hex(event.id.as_str()) {
            Some(i) => i,
            None => return Some(Err(SignerError::InvalidEventId)),
        };
        let sig_bytes = match hex_decode(event.sig.as_str()) {
            Some(b) => b,
            None => return Some(Err(SignerError::InvalidSignatureHex)),
        };
        let sig = match schnorr_signature_from_slice(sig_bytes.as_slice()) {
            Some(s) => s,
            None => return Some(Err(SignerError::InvalidSignatureBytes)),
        };
        if !is_valid_xonly_key(&key) {
            return None;
        }
        Some(Ok(verify_schnorr(&sig, &id, &key)))
    }
}

} // verus!
