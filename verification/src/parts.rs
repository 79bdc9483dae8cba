//! Request-part assembly for one asset: pass-through links, inline payloads
//! below the size threshold, cached uploads, and the decision to start a
//! fresh resumable upload. The encodings come from outside crates behind
//! trusted wrappers; the decisions are verified.

use vstd::prelude::*;
use vstd::string::StringExecFns;
use crate::model::Asset;

verus! {

/// Payloads at most this large ride inline in the request body; anything
/// larger goes through the resumable-upload protocol.
pub const INLINE_THRESHOLD_BYTES: usize = 20 * 1024 * 1024;

/// The standard base64 encoding (with padding) of a byte string.
pub uninterp spec fn base64_of(bytes: Seq<u8>) -> Seq<char>;

/// Relies on base64's standard engine encode: four output characters for
/// every three input bytes, rounded up, always the same for the same bytes.
#[verifier::external_body]
pub fn encode_base64(bytes: &Vec<u8>) -> (r: String)
    ensures
        r@ == base64_of(bytes@),
        r@.len() == 4 * ((bytes@.len() + 2) / 3),
{
    base64::engine::Engine::encode(&base64::engine::general_purpose::STANDARD, bytes.as_slice())
}

/// The lowercase hexadecimal digit of a value below sixteen.
pub open spec fn spec_hex_digit(d: int) -> char {
    if d == 0 {
        '0'
    } else if d == 1 {
        '1'
    } else if d == 2 {
        '2'
    } else if d == 3 {
        '3'
    } else if d == 4 {
        '4'
    } else if d == 5 {
        '5'
    } else if d == 6 {
        '6'
    } else if d == 7 {
        '7'
    } else if d == 8 {
        '8'
    } else if d == 9 {
        '9'
    } else if d == 10 {
        'a'
    } else if d == 11 {
        'b'
    } else if d == 12 {
        'c'
    } else if d == 13 {
        'd'
    } else if d == 14 {
        'e'
    } else {
        'f'
    }
}

/// The lowercase hexadecimal rendering of a byte string: two digits per
/// byte, high nibble first.
pub open spec fn hex_of(bytes: Seq<u8>) -> Seq<char> {
    Seq::new(
        bytes.len() * 2,
        |i: int|
            if i % 2 == 0 {
                spec_hex_digit(bytes[i / 2] as int / 16)
            } else {
                spec_hex_digit(bytes[i / 2] as int % 16)
            },
    )
}

/// Relies on hex::encode: the lowercase hexadecimal rendering of the bytes,
/// two digits per byte.
#[verifier::external_body]
pub fn encode_hex(bytes: &Vec<u8>) -> (r: String)
    ensures
        r@ == hex_of(bytes@),
{
    hex::encode(bytes.as_slice())
}

/// The SHA-256 digest of a byte string.
pub uninterp spec fn sha256_of(bytes: Seq<u8>) -> Seq<u8>;

/// Relies on sha2::Sha256: the 32-byte SHA-256 digest of the input, always
/// the same for the same bytes.
#[verifier::external_body]
pub fn sha256(bytes: &Vec<u8>) -> (r: Vec<u8>)
    ensures
        r@ == sha256_of(bytes@),
        r@.len() == 32,
{
    <sha2::Sha256 as sha2::Digest>::digest(bytes.as_slice()).to_vec()
}

/// The MIME type guessed from a path's extension, when the table knows one.
pub uninterp spec fn guessed_mime(path: Seq<char>) -> Option<Seq<char>>;

/// Relies on mime_guess::from_path followed by first_raw: the first MIME
/// type its static extension table associates with the path, a function of
/// the path alone.
#[verifier::external_body]
pub fn guess_mime_for_path(path: &str) -> (r: Option<String>)
    ensures
        match r {
            Some(m) => guessed_mime(path@) == Some(m@),
            None => guessed_mime(path@) is None,
        },
{
    mime_guess::from_path(path).first_raw().map(|s| s.to_string())
}

/// The cache key an upload is remembered under for reuse within a run: the
/// lowercase hexadecimal SHA-256 of the source identifier.
pub open spec fn spec_cache_key(id: Seq<u8>) -> Seq<char> {
    hex_of(sha256_of(id))
}

/// The cache key an upload is remembered under for reuse within a run.
pub fn cache_key(id: &Vec<u8>) -> (r: String)
    ensures
        r@ == spec_cache_key(id@),
        r@.len() == 64,
{
    let digest = sha256(id);
    encode_hex(&digest)
}

/// One remembered upload.
#[derive(Debug, Clone)]
pub struct CachedUpload {
    pub uri: String,
    pub mime_type: String,
    pub name: Option<String>,
}

/// One part of a generation request.
#[derive(Debug, Clone)]
pub enum AssetPart {
    /// A remote file reference.
    FileData { file_uri: String, mime_type: String },
    /// An inline base64 payload.
    InlineData { data: String, mime_type: String },
}

/// What an asset needs before its part can be built.
#[derive(Debug, Clone)]
pub enum PartDecision {
    /// The part is ready.
    Ready { part: AssetPart },
    /// The payload is too large to inline and no upload is cached: the
    /// resumable-upload protocol must run first.
    NeedsUpload { mime_type: String },
}

/// The MIME type an asset is sent under: its own, the guess from its path,
/// or the opaque byte type.
pub open spec fn spec_resolved_mime(asset: Asset) -> Seq<char> {
    if asset.mime is Some {
        asset.mime->0@
    } else if guessed_mime(asset.path@) is Some {
        guessed_mime(asset.path@)->0
    } else {
        "application/octet-stream"@
    }
}

/// The MIME type an asset is sent under.
pub fn resolve_mime(asset: &Asset) -> (r: String)
    ensures
        r@ == spec_resolved_mime(*asset),
{
    match &asset.mime {
        Some(m) => m.clone(),
        None => {
            match guess_mime_for_path(asset.path.as_str()) {
                Some(m) => m,
                None => String::from_str("application/octet-stream"),
            }
        },
    }
}

/// Decide how one asset rides in the request. The shell reads the payload
/// (`bytes`) only for assets that are not pass-through and carry no inline
/// payload from upstream; `cached` is the run's remembered upload for the
/// asset's cache key, if any.
pub fn part_for_asset(asset: &Asset, bytes: Option<&Vec<u8>>, cached: Option<&CachedUpload>) -> (r:
    PartDecision)
    ensures
        ({
            let mime = spec_resolved_mime(*asset);
            if asset.source_kind == crate::model::SourceKind::Youtube && asset.meta.pass_through
                == Some(true) && asset.meta.source_url is Some {
                r matches PartDecision::Ready { part: AssetPart::FileData { file_uri, mime_type } }
                    && file_uri@ == asset.meta.source_url->0@ && mime_type@ == mime
            } else if asset.meta.inline_bytes is Some {
                r matches PartDecision::Ready { part: AssetPart::InlineData { data, mime_type } }
                    && data@ == asset.meta.inline_bytes->0@ && mime_type@ == mime
            } else if bytes is Some && bytes->0@.len() <= INLINE_THRESHOLD_BYTES {
                r matches PartDecision::Ready { part: AssetPart::InlineData { data, mime_type } }
                    && data@ == base64_of(bytes->0@) && mime_type@ == mime
            } else if cached is Some {
                r matches PartDecision::Ready { part: AssetPart::FileData { file_uri, mime_type } }
                    && file_uri@ == cached->0.uri@ && mime_type@ == cached->0.mime_type@
            } else {
                r matches PartDecision::NeedsUpload { mime_type } && mime_type@ == mime
            }
        }),
{
    let mime = resolve_mime(asset);
    let is_youtube = matches!(asset.source_kind, crate::model::SourceKind::Youtube);
    let pass_through = matches!(asset.meta.pass_through, Some(true));
    if is_youtube && pass_through {
        if let Some(url) = &asset.meta.source_url {
            return PartDecision::Ready {
                part: AssetPart::FileData { file_uri: url.clone(), mime_type: mime },
            };
        }
    }
    if let Some(inline) = &asset.meta.inline_bytes {
        return PartDecision::Ready {
            part: AssetPart::InlineData { data: inline.clone(), mime_type: mime },
        };
    }
    if let Some(payload) = bytes {
        if payload.len() <= INLINE_THRESHOLD_BYTES {
            let encoded = encode_base64(payload);
            return PartDecision::Ready {
                part: AssetPart::InlineData { data: encoded, mime_type: mime },
            };
        }
    }
    if let Some(hit) = cached {
        return PartDecision::Ready {
            part: AssetPart::FileData {
                file_uri: hit.uri.clone(),
                mime_type: hit.mime_type.clone(),
            },
        };
    }
    PartDecision::NeedsUpload { mime_type: mime }
}

} // verus!
