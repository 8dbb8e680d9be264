//! Difference-hash fingerprints and the bit-level similarity between them.

use crate::text::{decimal_spec, push_decimal};
use vstd::prelude::*;

verus! {

/// Width of the grayscale thumbnail a fingerprint is taken from.
pub const GRID_WIDTH: usize = 9;

/// Height of the grayscale thumbnail a fingerprint is taken from.
pub const GRID_HEIGHT: usize = 8;

/// Number of bits in a fingerprint.
pub const FINGERPRINT_BITS: u32 = 64;

/// Luminance at column `x`, row `y` of a row-major 9x8 grid.
pub open spec fn luma_at(grid: Seq<u8>, x: int, y: int) -> u8 {
    grid[y * 9 + x]
}

/// Bit `k` of the fingerprint: the cell left of the `k`-th gradient is strictly brighter.
pub open spec fn gradient_bit(grid: Seq<u8>, k: int) -> bool {
    luma_at(grid, k % 8, k / 8) > luma_at(grid, k % 8 + 1, k / 8)
}

/// The fingerprint with only its lowest `n` gradient bits filled in.
pub open spec fn dhash_prefix(grid: Seq<u8>, n: nat) -> u64
    decreases n,
{
    if n == 0 {
        0
    } else {
        let prev = dhash_prefix(grid, (n - 1) as nat);
        if gradient_bit(grid, n - 1) {
            prev | (1u64 << ((n - 1) as u64))
        } else {
            prev
        }
    }
}

/// The difference hash of a 9x8 luminance grid.
pub open spec fn dhash_spec(grid: Seq<u8>) -> u64 {
    dhash_prefix(grid, 64)
}

/// Whether bit `k` of `h` is set.
pub open spec fn bit_set(h: u64, k: u64) -> bool {
    (h >> k) & 1u64 == 1u64
}

proof fn lemma_or_bit(h: u64, n: u64, k: u64)
    requires
        n < 64,
        k < 64,
    ensures
        bit_set(h | (1u64 << n), k) == (k == n || bit_set(h, k)),
{
    assert(((h | (1u64 << n)) >> k) & 1u64 == 1u64 <==> (k == n || (h >> k) & 1u64 == 1u64))
        by (bit_vector)
        requires
            n < 64,
            k < 64,
    ;
}

proof fn lemma_zero_bit(k: u64)
    requires
        k < 64,
    ensures
        !bit_set(0u64, k),
{
    assert((0u64 >> k) & 1u64 != 1u64) by (bit_vector);
}

/// Bit `k` of the partial hash is the `k`-th gradient bit when `k < n`, and clear otherwise.
proof fn lemma_dhash_prefix_bits(grid: Seq<u8>, n: nat, k: u64)
    requires
        n <= 64,
        k < 64,
    ensures
        bit_set(dhash_prefix(grid, n), k) == (k < n && gradient_bit(grid, k as int)),
    decreases n,
{
    if n == 0 {
        lemma_zero_bit(k);
    } else {
        lemma_dhash_prefix_bits(grid, (n - 1) as nat, k);
        if gradient_bit(grid, n - 1) {
            lemma_or_bit(dhash_prefix(grid, (n - 1) as nat), (n - 1) as u64, k);
        }
    }
}

/// Each bit `y * 8 + x` of the difference hash is set exactly when the pixel at `(x, y)`
/// is strictly brighter than its right neighbour.
pub proof fn lemma_dhash_bits(grid: Seq<u8>)
    ensures
        forall|k: u64| k < 64 ==> #[trigger] bit_set(dhash_spec(grid), k) == gradient_bit(grid, k as int),
{
    assert forall|k: u64| k < 64 implies #[trigger] bit_set(dhash_spec(grid), k) == gradient_bit(grid, k as int) by {
        lemma_dhash_prefix_bits(grid, 64, k);
    }
}

/// Computes the difference hash of a row-major 9x8 luminance grid.
pub fn dhash_from_luma(grid: &Vec<u8>) -> (r: u64)
    requires
        grid@.len() == 72,
    ensures
        r == dhash_spec(grid@),
        forall|k: u64| k < 64 ==> #[trigger] bit_set(r, k) == gradient_bit(grid@, k as int),
{
    let mut hash: u64 = 0;
    let mut y: usize = 0;
    while y < 8
        invariant
            grid@.len() == 72,
            y <= 8,
            hash == dhash_prefix(grid@, (y * 8) as nat),
        decreases 8 - y,
    {
        let mut x: usize = 0;
        while x < 8
            invariant
                grid@.len() == 72,
                y < 8,
                x <= 8,
                hash == dhash_prefix(grid@, (y * 8 + x) as nat),
            decreases 8 - x,
        {
            let k: usize = y * 8 + x;
            let left = grid[y * 9 + x];
            let right = grid[y * 9 + x + 1];
            assert(k % 8 == x && k / 8 == y) by (nonlinear_arith)
                requires
                    k == y * 8 + x,
                    x < 8,
            ;
            if left > right {
                hash = hash | (1u64 << (k as u64));
            }
            x = x + 1;
        }
        y = y + 1;
    }
    proof {
        lemma_dhash_bits(grid@);
    }
    hash
}

/// Two grids whose gradient comparisons agree have the same fingerprint; in particular
/// hashing the same grid twice gives the same value.
pub proof fn lemma_dhash_deterministic(a: Seq<u8>, b: Seq<u8>)
    requires
        forall|k: int| 0 <= k < 64 ==> #[trigger] gradient_bit(a, k) == gradient_bit(b, k),
    ensures
        dhash_spec(a) == dhash_spec(b),
{
    lemma_dhash_prefix_agree(a, b, 64);
}

proof fn lemma_dhash_prefix_agree(a: Seq<u8>, b: Seq<u8>, n: nat)
    requires
        n <= 64,
        forall|k: int| 0 <= k < 64 ==> #[trigger] gradient_bit(a, k) == gradient_bit(b, k),
    ensures
        dhash_prefix(a, n) == dhash_prefix(b, n),
    decreases n,
{
    if n > 0 {
        lemma_dhash_prefix_agree(a, b, (n - 1) as nat);
        assert(gradient_bit(a, n - 1) == gradient_bit(b, n - 1));
    }
}

/// A decoded photo as 8-bit luminance, one byte per pixel, stored row-major.
pub struct LumaImage {
    pub width: u32,
    pub height: u32,
    pub pixels: Vec<u8>,
}

impl LumaImage {
    /// The image has pixels, and exactly one byte for each of them.
    pub open spec fn wf(&self) -> bool {
        &&& self.width > 0
        &&& self.height > 0
        &&& self.pixels@.len() == self.width as int * self.height as int
    }

    /// An image of the given size, or `None` when it is empty or the pixel count differs.
    pub fn new(width: u32, height: u32, pixels: Vec<u8>) -> (r: Option<LumaImage>)
        ensures
            r is Some <==> (width > 0 && height > 0 && pixels@.len() == width as int * height as int),
            r matches Some(img) ==> img.width == width && img.height == height && img.pixels@ == pixels@,
    {
        if width == 0 || height == 0 {
            return None;
        }
        proof {
            assert(width as int * height as int <= u32::MAX as int * u32::MAX as int) by (nonlinear_arith)
                requires
                    width <= u32::MAX,
                    height <= u32::MAX,
            ;
        }
        let count: u64 = width as u64 * height as u64;
        if pixels.len() as u64 != count {
            return None;
        }
        Some(LumaImage { width, height, pixels })
    }
}

/// The 9x8 luminance thumbnail, row-major, that a `width` x `height` luminance image is
/// reduced to.
pub uninterp spec fn luma_grid_of(pixels: Seq<u8>, width: nat, height: nat) -> Seq<u8>;

/// Relies on `ImageBuffer::from_raw` to view the pixels as a luminance image (it accepts
/// exactly one byte per pixel) and on `imageops::resize` with the Lanczos3 filter to
/// give a 9x8 luminance image, whose raw buffer is row-major with one byte per pixel.
#[verifier::external_body]
fn luma_thumbnail(img: &LumaImage) -> (r: Vec<u8>)
    requires
        img.wf(),
    ensures
        r@ == luma_grid_of(img.pixels@, img.width as nat, img.height as nat),
        r@.len() == 72,
{
    let buffer = image::GrayImage::from_raw(img.width, img.height, img.pixels.clone()).unwrap();
    image::imageops::resize(&buffer, 9, 8, image::imageops::FilterType::Lanczos3).into_raw()
}

/// The fingerprint of an image: the difference hash of its 9x8 luminance thumbnail.
pub open spec fn fingerprint_spec(img: LumaImage) -> u64 {
    dhash_spec(luma_grid_of(img.pixels@, img.width as nat, img.height as nat))
}

/// The difference hash of a photo: the image is reduced to a 9x8 luminance thumbnail,
/// whose horizontal gradients give the 64 bits.
pub fn generate_dhash(img: &LumaImage) -> (r: u64)
    requires
        img.wf(),
    ensures
        r == fingerprint_spec(*img),
{
    let grid = luma_thumbnail(img);
    dhash_from_luma(&grid)
}

/// An image's fingerprint depends on its size and pixels alone, so hashing it twice gives
/// the same value.
pub proof fn lemma_fingerprint_deterministic(a: LumaImage, b: LumaImage)
    requires
        a.width == b.width,
        a.height == b.height,
        a.pixels@ == b.pixels@,
    ensures
        fingerprint_spec(a) == fingerprint_spec(b),
{
}

/// The fingerprint of a photo as decimal text, which keeps all 64 bits exact for callers
/// whose numbers are doubles.
pub fn generate_perceptual_hash(img: &LumaImage) -> (r: String)
    requires
        img.wf(),
    ensures
        r@ == decimal_spec(fingerprint_spec(*img) as nat),
{
    let hash = generate_dhash(img);
    let mut out = String::new();
    push_decimal(&mut out, hash);
    out
}

/// Number of set bits among the lowest `n` bits of `x`.
pub open spec fn popcount_below(x: u64, n: nat) -> nat
    decreases n,
{
    if n == 0 {
        0
    } else {
        popcount_below(x, (n - 1) as nat) + if bit_set(x, (n - 1) as u64) {
            1nat
        } else {
            0nat
        }
    }
}

/// Number of set bits of `x`.
pub open spec fn popcount(x: u64) -> nat {
    popcount_below(x, 64)
}

/// Number of bit positions in which two fingerprints differ.
pub open spec fn hamming_spec(a: u64, b: u64) -> nat {
    popcount(a ^ b)
}

/// Number of bit positions in which two fingerprints agree: their similarity in 64ths.
pub open spec fn similarity_spec(a: u64, b: u64) -> nat {
    (64 - hamming_spec(a, b)) as nat
}

/// Relies on `u64::count_ones`: the number of ones in the binary representation.
#[verifier::external_body]
fn count_ones(x: u64) -> (r: u32)
    ensures
        r as nat == popcount(x),
{
    x.count_ones()
}

proof fn lemma_popcount_below_bound(x: u64, n: nat)
    ensures
        popcount_below(x, n) <= n,
    decreases n,
{
    if n > 0 {
        lemma_popcount_below_bound(x, (n - 1) as nat);
    }
}

proof fn lemma_popcount_below_zero(n: nat)
    requires
        n <= 64,
    ensures
        popcount_below(0u64, n) == 0,
    decreases n,
{
    if n > 0 {
        lemma_popcount_below_zero((n - 1) as nat);
        lemma_zero_bit((n - 1) as u64);
    }
}

/// Number of bit positions in which two fingerprints differ.
pub fn hamming_distance(hash1: u64, hash2: u64) -> (r: u32)
    ensures
        r as nat == hamming_spec(hash1, hash2),
        r <= 64,
{
    proof {
        lemma_popcount_below_bound(hash1 ^ hash2, 64);
    }
    count_ones(hash1 ^ hash2)
}

/// Similarity of two fingerprints in 64ths: 64 minus their Hamming distance, so 64 means
/// identical and 0 means every bit differs.
pub fn calculate_similarity(hash1: u64, hash2: u64) -> (r: u32)
    ensures
        r as nat == similarity_spec(hash1, hash2),
        r <= 64,
{
    let distance = hamming_distance(hash1, hash2);
    64 - distance
}

/// Similarity does not depend on the order of its arguments.
pub proof fn lemma_similarity_symmetric(a: u64, b: u64)
    ensures
        similarity_spec(a, b) == similarity_spec(b, a),
        hamming_spec(a, b) == hamming_spec(b, a),
{
    assert(a ^ b == b ^ a) by (bit_vector);
}

/// Similarity lies between 0 and 64 (the fractions 0 and 1), and a fingerprint is
/// fully similar to itself.
pub proof fn lemma_similarity_bounds(a: u64, b: u64)
    ensures
        0 <= similarity_spec(a, b) <= 64,
        hamming_spec(a, b) <= 64,
        similarity_spec(a, a) == 64,
{
    lemma_popcount_below_bound(a ^ b, 64);
    assert(a ^ a == 0) by (bit_vector);
    lemma_popcount_below_zero(64);
}

/// Fingerprints are fully similar exactly when they are identical.
pub proof fn lemma_full_similarity_iff_equal(a: u64, b: u64)
    ensures
        (similarity_spec(a, b) == 64) == (a == b),
{
    lemma_similarity_bounds(a, b);
    if a != b {
        lemma_popcount_positive(a ^ b);
        assert(a ^ b != 0) by (bit_vector)
            requires
                a != b,
        ;
    }
}

proof fn lemma_popcount_positive(x: u64)
    ensures
        x != 0 ==> popcount(x) > 0,
{
    if x != 0 {
        if popcount(x) == 0 {
            assert forall|k: u64| k < 64 implies !bit_set(x, k) by {
                lemma_popcount_zero_bits(x, 64, k);
            }
            lemma_no_bits_zero(x);
        }
    }
}

proof fn lemma_popcount_zero_bits(x: u64, n: nat, k: u64)
    requires
        popcount_below(x, n) == 0,
        k < n,
        n <= 64,
    ensures
        !bit_set(x, k),
    decreases n,
{
    if k < n - 1 {
        lemma_popcount_zero_bits(x, (n - 1) as nat, k);
    }
}

proof fn lemma_no_bits_zero(x: u64)
    requires
        forall|k: u64| k < 64 ==> !#[trigger] bit_set(x, k),
    ensures
        x == 0,
{
    assert(x != 0 ==> (
        (x >> 0u64) & 1u64 == 1u64 || (x >> 1u64) & 1u64 == 1u64 || (x >> 2u64) & 1u64 == 1u64 || (x >> 3u64) & 1u64 == 1u64 ||
        (x >> 4u64) & 1u64 == 1u64 || (x >> 5u64) & 1u64 == 1u64 || (x >> 6u64) & 1u64 == 1u64 || (x >> 7u64) & 1u64 == 1u64 ||
        (x >> 8u64) & 1u64 == 1u64 || (x >> 9u64) & 1u64 == 1u64 || (x >> 10u64) & 1u64 == 1u64 || (x >> 11u64) & 1u64 == 1u64 ||
        (x >> 12u64) & 1u64 == 1u64 || (x >> 13u64) & 1u64 == 1u64 || (x >> 14u64) & 1u64 == 1u64 || (x >> 15u64) & 1u64 == 1u64 ||
        (x >> 16u64) & 1u64 == 1u64 || (x >> 17u64) & 1u64 == 1u64 || (x >> 18u64) & 1u64 == 1u64 || (x >> 19u64) & 1u64 == 1u64 ||
        (x >> 20u64) & 1u64 == 1u64 || (x >> 21u64) & 1u64 == 1u64 || (x >> 22u64) & 1u64 == 1u64 || (x >> 23u64) & 1u64 == 1u64 ||
        (x >> 24u64) & 1u64 == 1u64 || (x >> 25u64) & 1u64 == 1u64 || (x >> 26u64) & 1u64 == 1u64 || (x >> 27u64) & 1u64 == 1u64 ||
        (x >> 28u64) & 1u64 == 1u64 || (x >> 29u64) & 1u64 == 1u64 || (x >> 30u64) & 1u64 == 1u64 || (x >> 31u64) & 1u64 == 1u64 ||
        (x >> 32u64) & 1u64 == 1u64 || (x >> 33u64) & 1u64 == 1u64 || (x >> 34u64) & 1u64 == 1u64 || (x >> 35u64) & 1u64 == 1u64 ||
        (x >> 36u64) & 1u64 == 1u64 || (x >> 37u64) & 1u64 == 1u64 || (x >> 38u64) & 1u64 == 1u64 || (x >> 39u64) & 1u64 == 1u64 ||
        (x >> 40u64) & 1u64 == 1u64 || (x >> 41u64) & 1u64 == 1u64 || (x >> 42u64) & 1u64 == 1u64 || (x >> 43u64) & 1u64 == 1u64 ||
        (x >> 44u64) & 1u64 == 1u64 || (x >> 45u64) & 1u64 == 1u64 || (x >> 46u64) & 1u64 == 1u64 || (x >> 47u64) & 1u64 == 1u64 ||
        (x >> 48u64) & 1u64 == 1u64 || (x >> 49u64) & 1u64 == 1u64 || (x >> 50u64) & 1u64 == 1u64 || (x >> 51u64) & 1u64 == 1u64 ||
        (x >> 52u64) & 1u64 == 1u64 || (x >> 53u64) & 1u64 == 1u64 || (x >> 54u64) & 1u64 == 1u64 || (x >> 55u64) & 1u64 == 1u64 ||
        (x >> 56u64) & 1u64 == 1u64 || (x >> 57u64) & 1u64 == 1u64 || (x >> 58u64) & 1u64 == 1u64 || (x >> 59u64) & 1u64 == 1u64 ||
        (x >> 60u64) & 1u64 == 1u64 || (x >> 61u64) & 1u64 == 1u64 || (x >> 62u64) & 1u64 == 1u64 || (x >> 63u64) & 1u64 == 1u64
    )) by (bit_vector);
    assert(x != 0 ==> (
        bit_set(x, 0u64) || bit_set(x, 1u64) || bit_set(x, 2u64) || bit_set(x, 3u64) || bit_set(x, 4u64) || bit_set(x, 5u64) || bit_set(x, 6u64) || bit_set(x, 7u64) ||
        bit_set(x, 8u64) || bit_set(x, 9u64) || bit_set(x, 10u64) || bit_set(x, 11u64) || bit_set(x, 12u64) || bit_set(x, 13u64) || bit_set(x, 14u64) || bit_set(x, 15u64) ||
        bit_set(x, 16u64) || bit_set(x, 17u64) || bit_set(x, 18u64) || bit_set(x, 19u64) || bit_set(x, 20u64) || bit_set(x, 21u64) || bit_set(x, 22u64) || bit_set(x, 23u64) ||
        bit_set(x, 24u64) || bit_set(x, 25u64) || bit_set(x, 26u64) || bit_set(x, 27u64) || bit_set(x, 28u64) || bit_set(x, 29u64) || bit_set(x, 30u64) || bit_set(x, 31u64) ||
        bit_set(x, 32u64) || bit_set(x, 33u64) || bit_set(x, 34u64) || bit_set(x, 35u64) || bit_set(x, 36u64) || bit_set(x, 37u64) || bit_set(x, 38u64) || bit_set(x, 39u64) ||
        bit_set(x, 40u64) || bit_set(x, 41u64) || bit_set(x, 42u64) || bit_set(x, 43u64) || bit_set(x, 44u64) || bit_set(x, 45u64) || bit_set(x, 46u64) || bit_set(x, 47u64) ||
        bit_set(x, 48u64) || bit_set(x, 49u64) || bit_set(x, 50u64) || bit_set(x, 51u64) || bit_set(x, 52u64) || bit_set(x, 53u64) || bit_set(x, 54u64) || bit_set(x, 55u64) ||
        bit_set(x, 56u64) || bit_set(x, 57u64) || bit_set(x, 58u64) || bit_set(x, 59u64) || bit_set(x, 60u64) || bit_set(x, 61u64) || bit_set(x, 62u64) || bit_set(x, 63u64)
    ));
}

} // verus!
