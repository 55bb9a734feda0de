//! Artwork: bounded decoding into small textures, and the rules of the on-disk cache of
//! resized images.
use vstd::prelude::*;
use crate::player::hex_of;
use crate::server::{sha256, sha256_of};
use crate::text::{chars_of, decimal, decimal_chars, extend_chars, string_of};

verus! {

/// Decoded artwork: RGBA bytes, four per pixel, row by row.
#[derive(Debug)]
pub struct Pixels {
    pub data: Vec<u8>,
    pub width: u32,
    pub height: u32,
}

/// Why artwork could not be decoded.
#[derive(Clone, Copy, Debug, PartialEq, Eq)]
pub enum ArtworkError {
    /// The bytes could not be read to guess their format.
    UnknownFormat,
    /// The image is of no known format, broken, or larger than the decoding limits allow.
    Invalid,
}

impl ArtworkError {
    /// The message shown for the failure.
    pub fn message(&self) -> (m: &'static str)
        ensures
            m@ == match self {
                ArtworkError::UnknownFormat => "Unknown image format"@,
                ArtworkError::Invalid => "Artwork is invalid or exceeds image limits"@,
            },
    {
        match self {
            ArtworkError::UnknownFormat => "Unknown image format",
            ArtworkError::Invalid => "Artwork is invalid or exceeds image limits",
        }
    }
}

/// The most memory the image decoder may allocate, in bytes.
pub const DECODE_ALLOCATION_LIMIT: u64 = 33_554_432;

/// The widest and tallest image the decoder accepts, in pixels.
pub const DECODE_SIDE_LIMIT: u32 = 8192;

/// The thumbnail the `image` crate makes of `bytes`: the image is decoded in the format
/// guessed from its first bytes, within `max_alloc` bytes of allocations and `max_side` pixels
/// a side, shrunk to fit `edge` × `edge` and converted to RGBA8; its width, height and
/// row-major RGBA bytes. `None` when the bytes do not decode within those limits.
pub uninterp spec fn image_thumbnail(bytes: Seq<u8>, edge: u32, max_alloc: u64, max_side: u32) -> Option<(u32, u32, Seq<u8>)>;

/// The thumbnail fits within `edge` × `edge`, at least one pixel each way (one by one for an
/// edge of zero), with four bytes per pixel.
pub open spec fn fits_edge(width: u32, height: u32, data: Seq<u8>, edge: u32) -> bool {
    let side = if edge == 0 { 1 } else { edge };
    1 <= width <= side && 1 <= height <= side && data.len() == 4 * width * height
}

/// Decodes with the `image` crate: `ImageReader::new` over the bytes, `with_guessed_format`,
/// the given allocation and side limits, `decode`, then `thumbnail(edge, edge)` and
/// `into_rgba8`. The result is named `image_thumbnail`. Also claimed: a thumbnail fits within
/// `edge` × `edge` (as `resize_dimensions` rounds, at least one pixel each way) with four bytes
/// per pixel; and a failure is always `Invalid`, since guessing the format only reads and seeks
/// an in-memory cursor, which cannot fail. The guess looks at the crate's format hooks, which
/// nothing in this program registers.
#[verifier::external_body]
fn decode_thumbnail(bytes: &[u8], edge: u32, max_alloc: u64, max_side: u32) -> (r: Result<Pixels, ArtworkError>)
    ensures
        match r {
            Ok(p) => image_thumbnail(bytes@, edge, max_alloc, max_side) == Some((p.width, p.height, p.data@))
                && fits_edge(p.width, p.height, p.data@, edge),
            Err(e) => image_thumbnail(bytes@, edge, max_alloc, max_side) is None && e == ArtworkError::Invalid,
        },
{
    let reader = image::ImageReader::new(std::io::Cursor::new(bytes)).with_guessed_format();
    let mut reader = reader.map_err(|_| ArtworkError::UnknownFormat)?;
    let mut limits = image::Limits::default();
    limits.max_alloc = Some(max_alloc);
    limits.max_image_width = Some(max_side);
    limits.max_image_height = Some(max_side);
    reader.limits(limits);
    let rgba = reader.decode().map_err(|_| ArtworkError::Invalid)?.thumbnail(edge, edge).into_rgba8();
    let (width, height) = rgba.dimensions();
    Ok(Pixels { data: rgba.into_raw(), width, height })
}

/// Decode artwork into a texture no larger than `edge` pixels either way, within the decoding
/// limits (32 MiB of allocations, 8192 pixels a side): the `image` crate's thumbnail when the
/// bytes decode, else `Invalid`.
pub fn decode(bytes: &[u8], edge: u32) -> (r: Result<Pixels, ArtworkError>)
    ensures
        match r {
            Ok(p) => image_thumbnail(bytes@, edge, DECODE_ALLOCATION_LIMIT, DECODE_SIDE_LIMIT)
                == Some((p.width, p.height, p.data@)) && fits_edge(p.width, p.height, p.data@, edge),
            Err(e) => image_thumbnail(bytes@, edge, DECODE_ALLOCATION_LIMIT, DECODE_SIDE_LIMIT) is None
                && e == ArtworkError::Invalid,
        },
{
    decode_thumbnail(bytes, edge, DECODE_ALLOCATION_LIMIT, DECODE_SIDE_LIMIT)
}

/// The edge artwork is requested at: between 180 and 1600 pixels.
pub fn artwork_edge(edge: u32) -> (r: u32)
    ensures
        r == if edge < 180 { 180 } else if edge > 1600 { 1600 } else { edge },
{
    if edge < 180 {
        180
    } else if edge > 1600 {
        1600
    } else {
        edge
    }
}

/// The text whose digest names a cached derivative: version, local-access permission, edge
/// and URL.
pub open spec fn cache_key(allow_local: bool, edge: u32, url: Seq<char>) -> Seq<char> {
    "v1:"@ + (if allow_local { "true"@ } else { "false"@ }) + ":"@ + decimal(edge as nat) + ":"@ + url
}

/// The file name of a cached derivative: the SHA-256 digest of its key in hexadecimal,
/// with the `png` extension.
pub open spec fn cache_name_of(allow_local: bool, edge: u32, url: Seq<char>) -> Seq<char> {
    hex_of(sha256_of(vstd::utf8::encode_utf8(cache_key(allow_local, edge, url)))) + ".png"@
}

fn hex_char(n: u8) -> (c: char)
    requires
        n < 16,
    ensures
        c == crate::player::hex_digit(n as nat),
{
    if n < 10 {
        (n + 48) as char
    } else {
        (n + 87) as char
    }
}

/// The cache file name for artwork at `url`, requested at `edge` pixels.
pub fn cache_name(allow_local: bool, edge: u32, url: &str) -> (r: String)
    ensures
        r@ == cache_name_of(allow_local, edge, url@),
{
    let mut key = chars_of("v1:");
    extend_chars(&mut key, chars_of(if allow_local { "true" } else { "false" }).as_slice());
    extend_chars(&mut key, chars_of(":").as_slice());
    extend_chars(&mut key, decimal_chars(edge as u64).as_slice());
    extend_chars(&mut key, chars_of(":").as_slice());
    extend_chars(&mut key, chars_of(url).as_slice());
    let text = string_of(key.as_slice());
    let digest = sha256(text.as_str().as_bytes());
    let mut out: Vec<char> = Vec::new();
    let mut i: usize = 0;
    while i < digest.len()
        invariant
            i <= digest@.len(),
            out@ == hex_of(digest@.subrange(0, i as int)),
        decreases digest@.len() - i,
    {
        let b = digest[i];
        out.push(hex_char(b / 16));
        out.push(hex_char(b % 16));
        assert(digest@.subrange(0, i + 1).drop_last() =~= digest@.subrange(0, i as int));
        i = i + 1;
    }
    assert(digest@.subrange(0, digest@.len() as int) =~= digest@);
    extend_chars(&mut out, chars_of(".png").as_slice());
    string_of(out.as_slice())
}

/// Cached files at least this large are not read back, in bytes.
pub const CACHE_FILE_LIMIT: u64 = 16_777_216;

/// How long a cached derivative stays fresh: seven days, in milliseconds.
pub const CACHE_LIFETIME_MS: u64 = 604_800_000;

/// A cached derivative is used when it is smaller than 16 MiB and younger than seven days;
/// one whose age cannot be told is fetched again.
pub fn cache_fresh(size: u64, age_ms: Option<u64>) -> (b: bool)
    ensures
        b == (size < CACHE_FILE_LIMIT && match age_ms {
            Some(a) => a < CACHE_LIFETIME_MS,
            None => false,
        }),
{
    size < CACHE_FILE_LIMIT && match age_ms {
        Some(a) => a < CACHE_LIFETIME_MS,
        None => false,
    }
}

/// The disk budget of the artwork cache: 192 MiB.
pub const DISK_LIMIT: u64 = 201_326_592;

/// Pruning stops once the cache is down to three quarters of its budget.
pub const PRUNE_TARGET: u64 = 150_994_944;

/// The total size of the cached files.
pub open spec fn total_size(files: Seq<(u128, u64)>) -> nat
    decreases files.len(),
{
    if files.len() == 0 {
        0
    } else {
        total_size(files.drop_last()) + (files.last().1 as nat)
    }
}

/// File `a` is removed before file `b`: older first, in listing order among equals.
pub open spec fn older_first(files: Seq<(u128, u64)>, a: int, b: int) -> bool {
    files[a].0 < files[b].0 || (files[a].0 == files[b].0 && a < b)
}

proof fn lemma_older_first(files: Seq<(u128, u64)>, a: int, b: int, c: int)
    ensures
        a != b ==> older_first(files, a, b) || older_first(files, b, a),
        !older_first(files, a, a),
        older_first(files, a, b) && older_first(files, b, c) ==> older_first(files, a, c),
{
}

/// The order in which to remove cached files `(modified, size)` when they exceed the disk
/// budget: all of them, oldest first; nothing while the cache is within budget.
pub fn prune_order(files: &Vec<(u128, u64)>) -> (r: Option<Vec<usize>>)
    requires
        total_size(files@) <= u64::MAX,
    ensures
        r is None <==> total_size(files@) <= DISK_LIMIT,
        r matches Some(order) ==> (forall|i: int| 0 <= i < order@.len() ==> (#[trigger] order@[i]) < files@.len())
            && (forall|k: usize| k < files@.len() ==> #[trigger] order@.contains(k))
            && (forall|i: int, j: int| 0 <= i < j < order@.len() ==> older_first(files@, #[trigger] order@[i] as int, #[trigger] order@[j] as int)),
{
    let mut total: u64 = 0;
    let mut i: usize = 0;
    while i < files.len()
        invariant
            i <= files@.len(),
            total_size(files@) <= u64::MAX,
            total == total_size(files@.subrange(0, i as int)),
        decreases files@.len() - i,
    {
        assert(files@.subrange(0, i + 1).drop_last() =~= files@.subrange(0, i as int));
        proof {
            lemma_prefix_total(files@, i + 1);
        }
        total = total + files[i].1;
        i = i + 1;
    }
    assert(files@.subrange(0, files@.len() as int) =~= files@);
    if total <= DISK_LIMIT {
        return None;
    }
    let mut order: Vec<usize> = Vec::new();
    let mut k: usize = 0;
    while k < files.len()
        invariant
            k <= files@.len(),
            forall|i: int| 0 <= i < order@.len() ==> (#[trigger] order@[i]) < k,
            forall|q: usize| q < k ==> #[trigger] order@.contains(q),
            forall|i: int, j: int| 0 <= i < j < order@.len() ==> older_first(files@, #[trigger] order@[i] as int, #[trigger] order@[j] as int),
        decreases files@.len() - k,
    {
        let mut p: usize = 0;
        while p < order.len() && files[order[p]].0 <= files[k].0
            invariant
                k < files@.len(),
                p <= order@.len(),
                forall|i: int| 0 <= i < order@.len() ==> (#[trigger] order@[i]) < k,
                forall|q: int| 0 <= q < p ==> older_first(files@, #[trigger] order@[q] as int, k as int),
            decreases order@.len() - p,
        {
            p = p + 1;
        }
        let ghost before = order@;
        proof {
            assert forall|q: int| p <= q < before.len() implies older_first(files@, k as int, #[trigger] before[q] as int) by {
                lemma_older_first(files@, before[p as int] as int, k as int, k as int);
                if q > p {
                    lemma_older_first(files@, k as int, before[p as int] as int, before[q] as int);
                }
            }
        }
        order.insert(p, k);
        assert(order@ == before.insert(p as int, k));
        assert forall|a: int, b: int| 0 <= a < b < order@.len() implies older_first(files@, #[trigger] order@[a] as int, #[trigger] order@[b] as int) by {
            if b < p {
            } else if a < p && b == p {
            } else if a < p && b > p {
                assert(order@[b] == before[b - 1]);
                lemma_older_first(files@, order@[a] as int, k as int, order@[b] as int);
            } else if a == p {
                assert(order@[b] == before[b - 1]);
            } else {
                assert(order@[a] == before[a - 1] && order@[b] == before[b - 1]);
            }
        }
        assert forall|i: int| 0 <= i < order@.len() implies (#[trigger] order@[i]) < k + 1 by {
            if i < p {
                assert(order@[i] == before[i]);
            } else if i > p {
                assert(order@[i] == before[i - 1]);
            }
        }
        assert forall|q: usize| q < k + 1 implies #[trigger] order@.contains(q) by {
            if q < k {
                assert(before.contains(q));
                let i = choose|i: int| 0 <= i < before.len() && before[i] == q;
                if i < p {
                    assert(order@[i] == q);
                } else {
                    assert(order@[i + 1] == q);
                }
            } else {
                assert(order@[p as int] == k);
            }
        }
        k = k + 1;
    }
    Some(order)
}

proof fn lemma_prefix_total(files: Seq<(u128, u64)>, i: int)
    requires
        0 <= i <= files.len(),
    ensures
        total_size(files.subrange(0, i)) <= total_size(files),
    decreases files.len() - i,
{
    if i < files.len() {
        lemma_prefix_total(files, i + 1);
        assert(files.subrange(0, i + 1).drop_last() =~= files.subrange(0, i));
    } else {
        assert(files.subrange(0, i) =~= files);
    }
}

/// Pruning goes on while the cache is above three quarters of its budget.
pub fn keep_pruning(total: u64) -> (b: bool)
    ensures
        b == (total > PRUNE_TARGET),
{
    total > PRUNE_TARGET
}

/// The cache's size after trying to remove a file of `size` bytes.
pub fn after_removal(total: u64, size: u64, removed: bool) -> (r: u64)
    ensures
        r == if removed { if size <= total { (total - size) as u64 } else { 0 } } else { total },
{
    if removed {
        total.saturating_sub(size)
    } else {
        total
    }
}

} // verus!
