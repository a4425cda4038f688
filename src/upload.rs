//! The parts of a media upload that do not touch the network: the account, the
//! request signature, the endpoint and the resource type chosen from a file name.

use vstd::prelude::*;
use sha1::Digest;
use crate::text::{decimal, ends_with_ignore_ascii_case, ends_with_keyword, owned, push_decimal, push_str};

verus! {

/// The credentials of the media host's account.
#[derive(Debug, Clone, PartialEq)]
pub struct CloudinaryConfig {
    pub cloud_name: String,
    pub api_key: String,
    pub api_secret: String,
}

/// The lower-case hexadecimal SHA-1 digest of the UTF-8 encoding of `data`.
pub uninterp spec fn sha1_hex_of(data: Seq<char>) -> Seq<char>;

/// Relies on `sha1::Sha1` and the `LowerHex` formatting of its digest: the result
/// depends on the text alone.
#[verifier::external_body]
fn sha1_hex(data: &str) -> (r: String)
    ensures
        r@ == sha1_hex_of(data@),
{
    let mut hasher = sha1::Sha1::new();
    hasher.update(data);
    format!("{:x}", hasher.finalize())
}

/// The text that an upload request signs.
pub open spec fn signature_payload_spec(timestamp: u64, api_secret: Seq<char>) -> Seq<char> {
    "timestamp="@ + decimal(timestamp as nat) + api_secret
}

/// The text that an upload request at `timestamp` signs with `api_secret`.
pub fn signature_payload(timestamp: u64, api_secret: &str) -> (r: String)
    ensures
        r@ == signature_payload_spec(timestamp, api_secret@),
{
    let mut out = owned("timestamp=");
    push_decimal(&mut out, timestamp);
    push_str(&mut out, api_secret);
    out
}

/// The resource type under which the host stores a file: `video` for audio files
/// (the host treats audio as video), `raw` for PDF documents, `auto` otherwise. The
/// extension is matched ignoring ASCII case.
pub open spec fn resource_type_spec(filename: Seq<char>) -> Seq<char> {
    if ends_with_ignore_ascii_case(filename, ".mp3"@) || ends_with_ignore_ascii_case(filename, ".wav"@)
        || ends_with_ignore_ascii_case(filename, ".ogg"@) || ends_with_ignore_ascii_case(filename, ".m4a"@)
        || ends_with_ignore_ascii_case(filename, ".aac"@) {
        "video"@
    } else if ends_with_ignore_ascii_case(filename, ".pdf"@) {
        "raw"@
    } else {
        "auto"@
    }
}

/// The resource type under which the host stores the file named `filename`.
pub fn resource_type_for(filename: &str) -> (r: String)
    ensures
        r@ == resource_type_spec(filename@),
{
    if ends_with_keyword(filename, ".mp3") || ends_with_keyword(filename, ".wav")
        || ends_with_keyword(filename, ".ogg") || ends_with_keyword(filename, ".m4a")
        || ends_with_keyword(filename, ".aac") {
        owned("video")
    } else if ends_with_keyword(filename, ".pdf") {
        owned("raw")
    } else {
        owned("auto")
    }
}

impl CloudinaryConfig {
    /// An account from its three credentials.
    pub fn new(cloud_name: String, api_key: String, api_secret: String) -> (r: Self)
        ensures
            r.cloud_name == cloud_name,
            r.api_key == api_key,
            r.api_secret == api_secret,
    {
        CloudinaryConfig { cloud_name, api_key, api_secret }
    }

    /// The endpoint that takes uploads of `resource_type`.
    pub fn upload_url(&self, resource_type: &str) -> (r: String)
        ensures
            r@ == "https://api.cloudinary.com/v1_1/"@ + self.cloud_name@ + "/"@ + resource_type@
                + "/upload"@,
    {
        let mut out = owned("https://api.cloudinary.com/v1_1/");
        push_str(&mut out, self.cloud_name.as_str());
        push_str(&mut out, "/");
        push_str(&mut out, resource_type);
        push_str(&mut out, "/upload");
        out
    }

    /// The signature of an upload request made at `timestamp` (seconds since the
    /// Unix epoch).
    pub fn signature(&self, timestamp: u64) -> (r: String)
        ensures
            r@ == sha1_hex_of(signature_payload_spec(timestamp, self.api_secret@)),
    {
        let payload = signature_payload(timestamp, self.api_secret.as_str());
        sha1_hex(payload.as_str())
    }
}

} // verus!
