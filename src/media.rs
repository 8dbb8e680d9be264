//! Content types and data URIs for photo files, and which file extensions count as photos.

use crate::signing::{base64_standard, encode_base64};
use vstd::prelude::*;
use vstd::string::{StrSliceExecFns, StringExecFns};

verus! {

/// The lower-case form of a string, as Unicode defines it.
pub uninterp spec fn lower_of(s: Seq<char>) -> Seq<char>;

/// Relies on `str::to_lowercase`: the result depends on the characters alone.
#[verifier::external_body]
fn lowercase(s: &str) -> (r: String)
    ensures
        r@ == lower_of(s@),
{
    s.to_lowercase()
}

/// `s` ends with `suffix`.
pub open spec fn has_suffix(s: Seq<char>, suffix: Seq<char>) -> bool {
    s.len() >= suffix.len() && s.subrange(s.len() - suffix.len(), s.len() as int) == suffix
}

/// Whether `s` ends with `suffix`.
pub fn ends_with(s: &str, suffix: &str) -> (r: bool)
    ensures
        r == has_suffix(s@, suffix@),
{
    let n = s.unicode_len();
    let k = suffix.unicode_len();
    if n < k {
        return false;
    }
    let offset = n - k;
    let mut i: usize = 0;
    while i < k
        invariant
            n == s@.len(),
            k == suffix@.len(),
            offset == n - k,
            i <= k,
            forall|t: int| 0 <= t < i ==> s@[offset + t] == suffix@[t],
        decreases k - i,
    {
        if s.get_char(offset + i) != suffix.get_char(i) {
            assert(s@.subrange(offset as int, n as int)[i as int] != suffix@[i as int]);
            return false;
        }
        i = i + 1;
    }
    assert(s@.subrange(offset as int, n as int) =~= suffix@);
    true
}

/// Content type of a photo whose lower-cased path is `lower`: PNG and GIF by their
/// extension, JPEG for everything else.
pub open spec fn mime_type_spec(lower: Seq<char>) -> Seq<char> {
    if has_suffix(lower, ".png"@) {
        "image/png"@
    } else if has_suffix(lower, ".gif"@) {
        "image/gif"@
    } else {
        "image/jpeg"@
    }
}

/// Content type for a path that is already lower-cased.
pub fn mime_type_for_lowered(lower: &str) -> (r: &'static str)
    ensures
        r@ == mime_type_spec(lower@),
{
    if ends_with(lower, ".png") {
        "image/png"
    } else if ends_with(lower, ".gif") {
        "image/gif"
    } else {
        "image/jpeg"
    }
}

/// Content type of a photo file, judged by its extension in any letter case.
pub fn mime_type_for(file_path: &str) -> (r: &'static str)
    ensures
        r@ == mime_type_spec(lower_of(file_path@)),
{
    let lower = lowercase(file_path);
    mime_type_for_lowered(lower.as_str())
}

/// A `data:` URI holding a photo's bytes in base64, with the content type from its path.
pub fn image_data_uri(file_path: &str, data: &[u8]) -> (r: String)
    requires
        data@.len() <= usize::MAX / 2,
    ensures
        r@ == "data:"@ + mime_type_spec(lower_of(file_path@)) + ";base64,"@ + base64_standard(data@),
{
    let encoded = encode_base64(data);
    let mut out = String::from_str("data:");
    out.append(mime_type_for(file_path));
    out.append(";base64,");
    out.append(encoded.as_str());
    out
}

/// Extensions, in lower case, of the files a folder listing offers as photos.
pub open spec fn is_listed_extension_spec(lower: Seq<char>) -> bool {
    lower == "jpg"@ || lower == "jpeg"@ || lower == "png"@ || lower == "heic"@
}

/// Whether a file extension, in any letter case, marks a photo for folder listings.
pub fn is_listed_image_extension(ext: &str) -> (r: bool)
    ensures
        r == is_listed_extension_spec(lower_of(ext@)),
{
    let lower = lowercase(ext);
    is_listed_lowered_extension(&lower)
}

/// Whether an already lower-cased file extension marks a photo for folder listings.
pub fn is_listed_lowered_extension(lower: &String) -> (r: bool)
    ensures
        r == is_listed_extension_spec(lower@),
{
    *lower == String::from_str("jpg") || *lower == String::from_str("jpeg") || *lower
        == String::from_str("png") || *lower == String::from_str("heic")
}

} // verus!
