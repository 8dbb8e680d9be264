//! Canonical request strings and RSA-SHA256 signed URLs for object storage.

use crate::text::{push_signed_decimal, signed_decimal_spec};
use rsa::pkcs1v15::SigningKey;
use rsa::pkcs8::DecodePrivateKey;
use rsa::sha2::Sha256;
use rsa::signature::{SignatureEncoding, Signer};
use rsa::RsaPrivateKey;
use vstd::prelude::*;
use vstd::string::{StrSliceExecFns, StringExecFns};
use base64::Engine;

verus! {

/// What a signed URL lets its holder do with the object.
pub enum UrlOperation {
    /// Upload a JPEG image with PUT; the URL lasts 900 seconds.
    Write,
    /// Download with GET; the URL lasts 600 seconds.
    Read,
}

/// A service account's signing material.
pub struct ServiceCredential {
    /// PEM-encoded PKCS#8 private key, possibly with line breaks written as `\n`.
    pub private_key: String,
    /// The signer identity sent as `GoogleAccessId`.
    pub client_email: String,
}

/// Why a signed URL could not be produced.
pub enum SignError {
    /// The clock reading is so large that the expiry time cannot be represented.
    ClockOutOfRange,
    /// The private key is not a valid PEM-encoded PKCS#8 RSA key.
    InvalidKey,
    /// The RSA signing operation failed.
    SigningFailed,
}

impl SignError {
    /// A description of the error for the user.
    pub fn message(&self) -> String {
        match self {
            SignError::ClockOutOfRange => String::from_str("Clock reading is out of range"),
            SignError::InvalidKey => String::from_str("Failed to parse private key"),
            SignError::SigningFailed => String::from_str("Failed to sign the request"),
        }
    }
}

/// HTTP verb of the operation.
pub open spec fn verb_spec(op: UrlOperation) -> Seq<char> {
    match op {
        UrlOperation::Write => "PUT"@,
        UrlOperation::Read => "GET"@,
    }
}

/// Content type that is signed: JPEG for uploads, empty for downloads.
pub open spec fn content_type_spec(op: UrlOperation) -> Seq<char> {
    match op {
        UrlOperation::Write => "image/jpeg"@,
        UrlOperation::Read => ""@,
    }
}

/// How many seconds a URL for the operation stays valid.
pub open spec fn lifetime_spec(op: UrlOperation) -> int {
    match op {
        UrlOperation::Write => 900,
        UrlOperation::Read => 600,
    }
}

/// The resource path `/bucket/object`.
pub open spec fn resource_spec(bucket: Seq<char>, object: Seq<char>) -> Seq<char> {
    "/"@ + bucket + "/"@ + object
}

/// The exact text that is signed: verb, an empty content digest, content type, expiry and
/// resource, one per line.
pub open spec fn string_to_sign_spec(
    op: UrlOperation,
    bucket: Seq<char>,
    object: Seq<char>,
    expiration: int,
) -> Seq<char> {
    verb_spec(op) + "\n\n"@ + content_type_spec(op) + "\n"@ + signed_decimal_spec(expiration) + "\n"@
        + resource_spec(bucket, object)
}

/// A signed URL, given the already encoded signer identity and signature.
pub open spec fn signed_url_spec(
    bucket: Seq<char>,
    object: Seq<char>,
    encoded_email: Seq<char>,
    expiration: int,
    encoded_signature: Seq<char>,
) -> Seq<char> {
    "https://storage.googleapis.com"@ + resource_spec(bucket, object) + "?GoogleAccessId="@
        + encoded_email + "&Expires="@ + signed_decimal_spec(expiration) + "&Signature="@
        + encoded_signature
}

/// The standard base64 digit for a 6-bit value.
pub open spec fn base64_digit(v: int) -> char {
    "ABCDEFGHIJKLMNOPQRSTUVWXYZabcdefghijklmnopqrstuvwxyz0123456789+/"@[v]
}

/// Standard base64 of some bytes: each group of three bytes gives four digits, and a last
/// group of one or two bytes is padded with `=` to four characters.
pub open spec fn base64_standard(bytes: Seq<u8>) -> Seq<char>
    decreases bytes.len(),
{
    if bytes.len() == 0 {
        seq![]
    } else if bytes.len() == 1 {
        let a = bytes[0] as int;
        seq![base64_digit(a / 4), base64_digit((a % 4) * 16), '=', '=']
    } else if bytes.len() == 2 {
        let a = bytes[0] as int;
        let b = bytes[1] as int;
        seq![base64_digit(a / 4), base64_digit((a % 4) * 16 + b / 16), base64_digit((b % 16) * 4), '=']
    } else {
        let a = bytes[0] as int;
        let b = bytes[1] as int;
        let c = bytes[2] as int;
        seq![
            base64_digit(a / 4),
            base64_digit((a % 4) * 16 + b / 16),
            base64_digit((b % 16) * 4 + c / 64),
            base64_digit(c % 64),
        ] + base64_standard(bytes.subrange(3, bytes.len() as int))
    }
}

/// Percent-encoding of a string's UTF-8 bytes, leaving alphanumerics and `-._~` as they are.
pub uninterp spec fn url_encoded(s: Seq<char>) -> Seq<char>;

/// The PEM text with every two-character sequence `\n` replaced by a line break,
/// scanning left to right.
pub open spec fn unescape_newlines_spec(s: Seq<char>) -> Seq<char>
    decreases s.len(),
{
    if s.len() == 0 {
        seq![]
    } else if s.len() >= 2 && s[0] == '\\' && s[1] == 'n' {
        seq!['\n'] + unescape_newlines_spec(s.subrange(2, s.len() as int))
    } else {
        seq![s[0]] + unescape_newlines_spec(s.subrange(1, s.len() as int))
    }
}

/// The expiry of a URL issued at `now`, when it fits in an `i64`.
pub open spec fn expiration_spec(op: UrlOperation, now: int) -> Option<int> {
    if now + lifetime_spec(op) <= i64::MAX {
        Some(now + lifetime_spec(op))
    } else {
        None
    }
}

#[verifier::external_type_specification]
#[verifier::external_body]
pub struct ExRsaPrivateKey(RsaPrivateKey);

#[verifier::external_type_specification]
#[verifier::external_body]
pub struct ExPkcs8Error(rsa::pkcs8::Error);

#[verifier::external_type_specification]
#[verifier::external_body]
pub struct ExSignatureError(rsa::signature::Error);

/// The RSA key that a PKCS#8 PEM text encodes, or `None` when it encodes none.
pub uninterp spec fn pkcs8_rsa_key(pem: Seq<char>) -> Option<RsaPrivateKey>;

/// The RSASSA-PKCS1-v1_5 signature with SHA-256 of the UTF-8 bytes of `message` under
/// `key`, or `None` when signing fails.
pub uninterp spec fn rsa_sha256_signature(key: RsaPrivateKey, message: Seq<char>) -> Option<Seq<u8>>;

/// Relies on `RsaPrivateKey::from_pkcs8_pem`, whose result depends on the PEM text alone.
#[verifier::external_body]
fn parse_private_key(pem: &str) -> (r: Result<RsaPrivateKey, rsa::pkcs8::Error>)
    ensures
        r is Ok <==> pkcs8_rsa_key(pem@) is Some,
        r matches Ok(key) ==> pkcs8_rsa_key(pem@) == Some(key),
{
    RsaPrivateKey::from_pkcs8_pem(pem)
}

/// Relies on `pkcs1v15::SigningKey::<Sha256>::new` and `Signer::try_sign`, which signs the
/// message bytes without randomness, and `SignatureEncoding::to_vec` for its bytes.
#[verifier::external_body]
fn sign_pkcs1v15_sha256(key: RsaPrivateKey, message: &str) -> (r: Result<Vec<u8>, rsa::signature::Error>)
    ensures
        r is Ok <==> rsa_sha256_signature(key, message@) is Some,
        r matches Ok(signature) ==> rsa_sha256_signature(key, message@) == Some(signature@),
{
    match SigningKey::<Sha256>::new(key).try_sign(message.as_bytes()) {
        Ok(signature) => Ok(signature.to_vec()),
        Err(e) => Err(e),
    }
}

/// Relies on base64's `STANDARD` engine `encode`: the padded standard base64 text of `bytes`
/// (RFC 4648 alphabet); it panics only when the output length overflows `usize`.
#[verifier::external_body]
pub(crate) fn encode_base64(bytes: &[u8]) -> (r: String)
    requires
        bytes@.len() <= usize::MAX / 2,
    ensures
        r@ == base64_standard(bytes@),
{
    base64::engine::general_purpose::STANDARD.encode(bytes)
}

/// Relies on `urlencoding::encode`: percent-encodes every byte but alphanumerics and `-._~`.
#[verifier::external_body]
fn encode_url_component(s: &str) -> (r: String)
    ensures
        r@ == url_encoded(s@),
{
    urlencoding::encode(s).into_owned()
}

/// Relies on `chrono::Utc::now` and `DateTime::timestamp`: seconds since the Unix epoch.
#[verifier::external_body]
fn unix_now() -> (r: i64) {
    chrono::Utc::now().timestamp()
}

/// Replaces each two-character sequence `\n` in a PEM text by a line break.
pub fn unescape_newlines(s: &str) -> (r: String)
    ensures
        r@ == unescape_newlines_spec(s@),
{
    let len = s.unicode_len();
    let mut out = String::new();
    let mut i: usize = 0;
    assert(s@.subrange(0, len as int) =~= s@);
    assert(out@ + s@ =~= s@);
    while i < len
        invariant
            len == s@.len(),
            i <= len,
            out@ + unescape_newlines_spec(s@.subrange(i as int, len as int)) == unescape_newlines_spec(s@),
        decreases len - i,
    {
        let ghost rest = s@.subrange(i as int, len as int);
        if i + 1 < len && s.get_char(i) == '\\' && s.get_char(i + 1) == 'n' {
            let ghost before = out@;
            out.append("\n");
            proof {
                reveal_strlit("\n");
            }
            assert(rest.subrange(2, rest.len() as int) =~= s@.subrange(i + 2, len as int));
            assert(unescape_newlines_spec(rest) == seq!['\n'] + unescape_newlines_spec(
                s@.subrange(i + 2, len as int),
            ));
            assert(out@ =~= before + seq!['\n']);
            i = i + 2;
        } else {
            let ghost before = out@;
            out.append(s.substring_char(i, i + 1));
            assert(rest.subrange(1, rest.len() as int) =~= s@.subrange(i + 1, len as int));
            assert(s@.subrange(i as int, i + 1) =~= seq![rest[0]]);
            assert(unescape_newlines_spec(rest) == seq![rest[0]] + unescape_newlines_spec(
                s@.subrange(i + 1, len as int),
            ));
            i = i + 1;
        }
    }
    assert(s@.subrange(len as int, len as int) =~= Seq::<char>::empty());
    out
}

/// The expiry time of a URL for `op` issued at `now`, or `None` when it does not fit.
pub fn expiration_for(op: &UrlOperation, now: i64) -> (r: Option<i64>)
    ensures
        r matches Some(e) ==> expiration_spec(*op, now as int) == Some(e as int),
        r is None ==> expiration_spec(*op, now as int) is None,
{
    let lifetime: i64 = match op {
        UrlOperation::Write => 900,
        UrlOperation::Read => 600,
    };
    if now <= i64::MAX - lifetime {
        Some(now + lifetime)
    } else {
        None
    }
}

/// Builds the canonical string that is signed for `op` on `/bucket/object`.
pub fn string_to_sign(op: &UrlOperation, bucket: &str, object: &str, expiration: i64) -> (r: String)
    ensures
        r@ == string_to_sign_spec(*op, bucket@, object@, expiration as int),
{
    let mut out = String::new();
    match op {
        UrlOperation::Write => {
            out.append("PUT");
            out.append("\n\n");
            out.append("image/jpeg");
        },
        UrlOperation::Read => {
            out.append("GET");
            out.append("\n\n");
            out.append("");
        },
    }
    out.append("\n");
    push_signed_decimal(&mut out, expiration);
    out.append("\n");
    out.append("/");
    out.append(bucket);
    out.append("/");
    out.append(object);
    assert(out@ =~= string_to_sign_spec(*op, bucket@, object@, expiration as int));
    out
}

/// Assembles a signed URL from its parts; the identity and signature are encoded here.
pub fn assemble_signed_url(
    bucket: &str,
    object: &str,
    client_email: &str,
    expiration: i64,
    signature: &[u8],
) -> (r: String)
    requires
        signature@.len() <= usize::MAX / 2,
    ensures
        r@ == signed_url_spec(
            bucket@,
            object@,
            url_encoded(client_email@),
            expiration as int,
            url_encoded(base64_standard(signature@)),
        ),
{
    let encoded_email = encode_url_component(client_email);
    let signature_base64 = encode_base64(signature);
    let encoded_signature = encode_url_component(signature_base64.as_str());
    let mut out = String::new();
    out.append("https://storage.googleapis.com");
    out.append("/");
    out.append(bucket);
    out.append("/");
    out.append(object);
    out.append("?GoogleAccessId=");
    out.append(encoded_email.as_str());
    out.append("&Expires=");
    push_signed_decimal(&mut out, expiration);
    out.append("&Signature=");
    out.append(encoded_signature.as_str());
    assert(out@ =~= signed_url_spec(
        bucket@,
        object@,
        url_encoded(client_email@),
        expiration as int,
        url_encoded(base64_standard(signature@)),
    ));
    out
}

/// What signing a URL for `op` on `/bucket/object` that expires at `expiration` gives:
/// `InvalidKey` when the unescaped key text encodes no RSA key, `SigningFailed` when
/// signing the canonical string fails (or the signature is too long to encode), and
/// otherwise the URL carrying that signature.
pub open spec fn sign_url_spec(
    op: UrlOperation,
    bucket: Seq<char>,
    object: Seq<char>,
    private_key: Seq<char>,
    client_email: Seq<char>,
    expiration: int,
) -> Result<Seq<char>, SignError> {
    match pkcs8_rsa_key(unescape_newlines_spec(private_key)) {
        None => Err(SignError::InvalidKey),
        Some(key) => match rsa_sha256_signature(
            key,
            string_to_sign_spec(op, bucket, object, expiration),
        ) {
            None => Err(SignError::SigningFailed),
            Some(signature) => if signature.len() <= usize::MAX / 2 {
                Ok(
                    signed_url_spec(
                        bucket,
                        object,
                        url_encoded(client_email),
                        expiration,
                        url_encoded(base64_standard(signature)),
                    ),
                )
            } else {
                Err(SignError::SigningFailed)
            },
        },
    }
}

/// What signing a URL for `op` issued at `now` gives: `ClockOutOfRange` when the expiry
/// does not fit, otherwise the URL expiring after the operation's lifetime.
pub open spec fn signed_url_at_spec(
    op: UrlOperation,
    bucket: Seq<char>,
    object: Seq<char>,
    private_key: Seq<char>,
    client_email: Seq<char>,
    now: int,
) -> Result<Seq<char>, SignError> {
    match expiration_spec(op, now) {
        None => Err(SignError::ClockOutOfRange),
        Some(expiration) => sign_url_spec(op, bucket, object, private_key, client_email, expiration),
    }
}

/// A result whose URL is given by its view.
pub open spec fn result_view(r: Result<String, SignError>) -> Result<Seq<char>, SignError> {
    match r {
        Ok(url) => Ok(url@),
        Err(e) => Err(e),
    }
}

/// The start of every signed URL for `/bucket/object` under a signer identity, up to
/// the expiry value; uploads and downloads share it.
pub open spec fn url_prefix_spec(bucket: Seq<char>, object: Seq<char>, client_email: Seq<char>) -> Seq<
    char,
> {
    "https://storage.googleapis.com"@ + resource_spec(bucket, object) + "?GoogleAccessId="@
        + url_encoded(client_email) + "&Expires="@
}

/// A URL signed at `now` starts with the prefix shared by all operations, continues with
/// the expiry `now` plus the operation's lifetime, and ends with an encoded signature of
/// the operation's canonical string.
pub proof fn lemma_signed_url_shape(
    op: UrlOperation,
    bucket: Seq<char>,
    object: Seq<char>,
    private_key: Seq<char>,
    client_email: Seq<char>,
    now: int,
)
    requires
        signed_url_at_spec(op, bucket, object, private_key, client_email, now) is Ok,
    ensures
        ({
            let url = signed_url_at_spec(op, bucket, object, private_key, client_email, now)->Ok_0;
            let prefix = url_prefix_spec(bucket, object, client_email);
            let key = pkcs8_rsa_key(unescape_newlines_spec(private_key))->Some_0;
            let signature = rsa_sha256_signature(
                key,
                string_to_sign_spec(op, bucket, object, now + lifetime_spec(op)),
            )->Some_0;
            &&& pkcs8_rsa_key(unescape_newlines_spec(private_key)) is Some
            &&& url == prefix + signed_decimal_spec(now + lifetime_spec(op)) + "&Signature="@
                + url_encoded(base64_standard(signature))
            &&& url.subrange(0, prefix.len() as int) == prefix
        }),
{
    let url = signed_url_at_spec(op, bucket, object, private_key, client_email, now)->Ok_0;
    let prefix = url_prefix_spec(bucket, object, client_email);
    let key = pkcs8_rsa_key(unescape_newlines_spec(private_key))->Some_0;
    let signature = rsa_sha256_signature(
        key,
        string_to_sign_spec(op, bucket, object, now + lifetime_spec(op)),
    )->Some_0;
    let rest = signed_decimal_spec(now + lifetime_spec(op)) + "&Signature="@ + url_encoded(
        base64_standard(signature),
    );
    assert(url =~= prefix + rest);
    assert((prefix + rest).subrange(0, prefix.len() as int) =~= prefix);
}

/// Signs a URL for `op` on `/bucket/object` that expires at `expiration`, with the
/// RSA-SHA256 signature of the canonical string under the credential's key.
pub fn sign_url(
    op: &UrlOperation,
    bucket: &str,
    object: &str,
    credential: &ServiceCredential,
    expiration: i64,
) -> (r: Result<String, SignError>)
    ensures
        result_view(r) == sign_url_spec(
            *op,
            bucket@,
            object@,
            credential.private_key@,
            credential.client_email@,
            expiration as int,
        ),
{
    let message = string_to_sign(op, bucket, object, expiration);
    let pem = unescape_newlines(credential.private_key.as_str());
    let key = match parse_private_key(pem.as_str()) {
        Ok(key) => key,
        Err(_) => {
            return Err(SignError::InvalidKey);
        },
    };
    let signature = match sign_pkcs1v15_sha256(key, message.as_str()) {
        Ok(signature) => signature,
        Err(_) => {
            return Err(SignError::SigningFailed);
        },
    };
    if signature.len() > usize::MAX / 2 {
        return Err(SignError::SigningFailed);
    }
    Ok(assemble_signed_url(
        bucket,
        object,
        credential.client_email.as_str(),
        expiration,
        signature.as_slice(),
    ))
}

/// Signs a URL for `op` on `/bucket/object` issued at `now`, valid for the operation's
/// lifetime (900 seconds for uploads, 600 for downloads).
pub fn signed_url_at(
    op: &UrlOperation,
    bucket: &str,
    object: &str,
    credential: &ServiceCredential,
    now: i64,
) -> (r: Result<String, SignError>)
    ensures
        result_view(r) == signed_url_at_spec(
            *op,
            bucket@,
            object@,
            credential.private_key@,
            credential.client_email@,
            now as int,
        ),
{
    match expiration_for(op, now) {
        Some(expiration) => sign_url(op, bucket, object, credential, expiration),
        None => Err(SignError::ClockOutOfRange),
    }
}

/// A signed URL for uploading a JPEG to `/bucket/object`, valid for 900 seconds from the
/// current clock reading.
pub fn generate_gcs_signed_url(bucket_name: &str, filename: &str, credential: &ServiceCredential) -> (r:
    Result<String, SignError>)
    ensures
        exists|now: i64|
            result_view(r) == #[trigger] signed_url_at_spec(
                UrlOperation::Write,
                bucket_name@,
                filename@,
                credential.private_key@,
                credential.client_email@,
                now as int,
            ),
{
    let now = unix_now();
    signed_url_at(&UrlOperation::Write, bucket_name, filename, credential, now)
}

/// A signed URL for downloading `/bucket/object`, valid for 600 seconds from the current
/// clock reading.
pub fn get_read_signed_url(bucket_name: &str, filename: &str, credential: &ServiceCredential) -> (r:
    Result<String, SignError>)
    ensures
        exists|now: i64|
            result_view(r) == #[trigger] signed_url_at_spec(
                UrlOperation::Read,
                bucket_name@,
                filename@,
                credential.private_key@,
                credential.client_email@,
                now as int,
            ),
{
    let now = unix_now();
    signed_url_at(&UrlOperation::Read, bucket_name, filename, credential, now)
}

} // verus!
