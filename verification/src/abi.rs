//! Verified decoder for the fixed wire schema of a deposit batch.
//!
//! A batch arrives as one opaque byte buffer holding six consecutive
//! dynamically-sized arrays, in this exact order and shape:
//! 32-byte words (output commitments), 32-byte words (asset identifiers),
//! 256-bit unsigned integers (amounts), byte blobs (proofs), byte blobs
//! (owner memos), 32-byte words (binding hashes).
//!
//! The head of the buffer holds one 32-byte big-endian offset word per
//! array; each array starts with a 32-byte big-endian length word. An array
//! of blobs holds, after its length word, one relative offset word per blob,
//! each pointing at that blob's own length word followed by its bytes.
//! Every offset and length must fit four bytes: the upper 28 bytes of its
//! word must be zero. Bytes past the encoded arrays are ignored.
//!
//! [`spec_decode`] is the mathematical meaning of the format: decoding
//! either fails, or yields six sequences that are pure functions of the
//! input bytes. The executable functions here are proved to return exactly
//! that, and in particular never to read out of bounds or panic, however
//! adversarial the input.

use crate::amount::be_val;
use vstd::prelude::*;
use vstd::slice::slice_index_get;

verus! {

/// The 32-byte word at `off` lies inside the buffer.
pub open spec fn word_ok(data: Seq<u8>, off: int) -> bool {
    0 <= off && off + 32 <= data.len()
}

/// The word at `off` can serve as an offset or length: it is in bounds and
/// its upper 28 bytes are zero, so its value fits four bytes.
pub open spec fn head_ok(data: Seq<u8>, off: int) -> bool {
    word_ok(data, off) && (forall|k: int| off <= k < off + 28 ==> data[k] == 0)
}

/// The value of the offset or length word at `off`: its last four bytes
/// read big-endian.
pub open spec fn head_val(data: Seq<u8>, off: int) -> int {
    data[off + 28] * 0x1000000 + data[off + 29] * 0x10000 + data[off + 30] * 0x100 + data[off + 31]
}

/// The element count of the array whose offset word sits at `hoff`.
pub open spec fn arr_len(data: Seq<u8>, hoff: int) -> int {
    head_val(data, head_val(data, hoff))
}

/// A well-formed array of 32-byte elements at head position `hoff`: a clean
/// offset word, a clean length word at that offset, and all elements inside
/// the buffer.
pub open spec fn warr_ok(data: Seq<u8>, hoff: int) -> bool {
    &&& head_ok(data, hoff)
    &&& head_ok(data, head_val(data, hoff))
    &&& head_val(data, hoff) + 32 + 32 * arr_len(data, hoff) <= data.len()
}

/// Element `j` of the array of 32-byte elements at head position `hoff`.
pub open spec fn warr_item(data: Seq<u8>, hoff: int, j: int) -> Seq<u8> {
    let base = head_val(data, hoff) + 32;
    data.subrange(base + 32 * j, base + 32 * j + 32)
}

/// All elements of the array of 32-byte elements at head position `hoff`.
pub open spec fn warr_items(data: Seq<u8>, hoff: int) -> Seq<Seq<u8>> {
    Seq::new(arr_len(data, hoff) as nat, |j: int| warr_item(data, hoff, j))
}

/// Blob `j` of a blob array whose elements start at `tb` is well formed:
/// its relative offset word is clean, the length word it points at is
/// clean, and the blob's bytes lie inside the buffer.
pub open spec fn belem_ok(data: Seq<u8>, tb: int, j: int) -> bool {
    &&& head_ok(data, tb + 32 * j)
    &&& head_ok(data, tb + head_val(data, tb + 32 * j))
    &&& tb + head_val(data, tb + 32 * j) + 32 + head_val(data, tb + head_val(data, tb + 32 * j))
        <= data.len()
}

/// The bytes of blob `j` of a blob array whose elements start at `tb`.
pub open spec fn belem_at(data: Seq<u8>, tb: int, j: int) -> Seq<u8> {
    let lenpos = tb + head_val(data, tb + 32 * j);
    data.subrange(lenpos + 32, lenpos + 32 + head_val(data, lenpos))
}

/// A well-formed array of byte blobs at head position `hoff`.
pub open spec fn barr_ok(data: Seq<u8>, hoff: int) -> bool {
    &&& head_ok(data, hoff)
    &&& head_ok(data, head_val(data, hoff))
    &&& forall|j: int|
        0 <= j < arr_len(data, hoff) ==> #[trigger] belem_ok(data, head_val(data, hoff) + 32, j)
}

/// Blob `j` of the blob array at head position `hoff`.
pub open spec fn barr_item(data: Seq<u8>, hoff: int, j: int) -> Seq<u8> {
    belem_at(data, head_val(data, hoff) + 32, j)
}

/// All blobs of the blob array at head position `hoff`.
pub open spec fn barr_items(data: Seq<u8>, hoff: int) -> Seq<Seq<u8>> {
    Seq::new(arr_len(data, hoff) as nat, |j: int| barr_item(data, hoff, j))
}

/// The decoded content of a deposit batch: six parallel sequences, one
/// entry per request. Amounts are mathematical integers (each below
/// `2^256`); all other fields are byte strings.
#[verifier::ext_equal]
pub ghost struct BatchView {
    pub outputs: Seq<Seq<u8>>,
    pub assets: Seq<Seq<u8>>,
    pub amounts: Seq<nat>,
    pub proofs: Seq<Seq<u8>>,
    pub memos: Seq<Seq<u8>>,
    pub binding_hashes: Seq<Seq<u8>>,
}

impl BatchView {
    /// The structural invariant of a batch: all six sequences share one
    /// length.
    pub open spec fn balanced(&self) -> bool {
        &&& self.assets.len() == self.outputs.len()
        &&& self.amounts.len() == self.outputs.len()
        &&& self.proofs.len() == self.outputs.len()
        &&& self.memos.len() == self.outputs.len()
        &&& self.binding_hashes.len() == self.outputs.len()
    }
}

/// What decoding a payload means: `None` when the bytes do not conform to
/// the six-array schema, and otherwise the six decoded sequences, a pure
/// function of the input bytes. The six head words sit at byte positions
/// 0, 32, 64, 96, 128 and 160, one per array, in schema order.
pub open spec fn spec_decode(data: Seq<u8>) -> Option<BatchView> {
    if warr_ok(data, 0) && warr_ok(data, 32) && warr_ok(data, 64) && barr_ok(data, 96) && barr_ok(
        data,
        128,
    ) && warr_ok(data, 160) {
        Some(
            BatchView {
                outputs: warr_items(data, 0),
                assets: warr_items(data, 32),
                amounts: warr_items(data, 64).map_values(|w: Seq<u8>| be_val(w)),
                proofs: barr_items(data, 96),
                memos: barr_items(data, 128),
                binding_hashes: warr_items(data, 160),
            },
        )
    } else {
        None
    }
}

/// Reads the word at `off` as an offset or length: `None` unless the word
/// is in bounds with its upper 28 bytes zero. The value fits four bytes.
fn read_head(data: &[u8], off: u64) -> (r: Option<u64>)
    ensures
        r is Some <==> head_ok(data@, off as int),
        r matches Some(v) ==> v == head_val(data@, off as int) && v <= 0xFFFF_FFFF,
{
    let n = data.len();
    if n < 32 || off > (n as u64) - 32 {
        return None;
    }
    let mut k: u64 = 0;
    while k < 28
        invariant
            k <= 28,
            off + 32 <= n as u64,
            n == data@.len(),
            forall|t: int| off <= t < off + k ==> data@[t] == 0,
        decreases 28 - k,
    {
        if *slice_index_get(data, (off + k) as usize) != 0 {
            return None;
        }
        k += 1;
    }
    let b0 = *slice_index_get(data, (off + 28) as usize) as u64;
    let b1 = *slice_index_get(data, (off + 29) as usize) as u64;
    let b2 = *slice_index_get(data, (off + 30) as usize) as u64;
    let b3 = *slice_index_get(data, (off + 31) as usize) as u64;
    Some(b0 * 0x1000000 + b1 * 0x10000 + b2 * 0x100 + b3)
}

/// Copies `count` bytes of `data`, starting at `start`, into a fresh
/// vector.
fn copy_bytes(data: &[u8], start: u64, count: u64) -> (r: Vec<u8>)
    requires
        start + count <= data@.len(),
    ensures
        r@ == data@.subrange(start as int, start as int + count as int),
{
    let n = data.len();
    let mut out: Vec<u8> = Vec::new();
    let mut k: u64 = 0;
    proof {
        assert(out@ =~= data@.subrange(start as int, start as int));
    }
    while k < count
        invariant
            k <= count,
            start + count <= n as u64,
            n == data@.len(),
            out@ == data@.subrange(start as int, start as int + k as int),
        decreases count - k,
    {
        let b = *slice_index_get(data, (start + k) as usize);
        out.push(b);
        proof {
            assert(out@ =~= data@.subrange(start as int, start as int + (k + 1) as int));
        }
        k += 1;
    }
    out
}

/// Decodes the array of 32-byte elements whose offset word sits at `hoff`.
/// Returns `None` exactly when that array is malformed, and otherwise its
/// elements, each 32 bytes.
pub(crate) fn decode_word_array(data: &[u8], hoff: u64) -> (r: Option<Vec<Vec<u8>>>)
    ensures
        r is Some <==> warr_ok(data@, hoff as int),
        r matches Some(v) ==> {
            &&& v@.len() == arr_len(data@, hoff as int)
            &&& forall|j: int| 0 <= j < v@.len() ==> (#[trigger] v@[j])@ == warr_item(data@, hoff as int, j)
            &&& forall|j: int| 0 <= j < v@.len() ==> (#[trigger] v@[j])@.len() == 32
        },
{
    let o = match read_head(data, hoff) {
        None => {
            return None;
        },
        Some(x) => x,
    };
    let n = match read_head(data, o) {
        None => {
            return None;
        },
        Some(x) => x,
    };
    if (data.len() as u64) < 32 || o + 32 + 32 * n > data.len() as u64 {
        return None;
    }
    let mut out: Vec<Vec<u8>> = Vec::new();
    let mut j: u64 = 0;
    while j < n
        invariant
            j <= n,
            warr_ok(data@, hoff as int),
            o == head_val(data@, hoff as int),
            n == arr_len(data@, hoff as int),
            o <= 0xFFFF_FFFF,
            n <= 0xFFFF_FFFF,
            o + 32 + 32 * n <= data@.len(),
            out@.len() == j,
            forall|t: int| 0 <= t < j ==> (#[trigger] out@[t])@ == warr_item(data@, hoff as int, t),
            forall|t: int| 0 <= t < j ==> (#[trigger] out@[t])@.len() == 32,
        decreases n - j,
    {
        let start = o + 32 + 32 * j;
        let w = copy_bytes(data, start, 32);
        out.push(w);
        j += 1;
    }
    Some(out)
}

/// Decodes the array of byte blobs whose offset word sits at `hoff`.
/// Returns `None` exactly when that array is malformed, and otherwise its
/// blobs.
pub(crate) fn decode_bytes_array(data: &[u8], hoff: u64) -> (r: Option<Vec<Vec<u8>>>)
    ensures
        r is Some <==> barr_ok(data@, hoff as int),
        r matches Some(v) ==> {
            &&& v@.len() == arr_len(data@, hoff as int)
            &&& forall|j: int| 0 <= j < v@.len() ==> (#[trigger] v@[j])@ == barr_item(data@, hoff as int, j)
        },
{
    let o = match read_head(data, hoff) {
        None => {
            return None;
        },
        Some(x) => x,
    };
    let n = match read_head(data, o) {
        None => {
            return None;
        },
        Some(x) => x,
    };
    let tb = o + 32;
    let mut out: Vec<Vec<u8>> = Vec::new();
    let mut j: u64 = 0;
    while j < n
        invariant
            j <= n,
            head_ok(data@, hoff as int),
            head_ok(data@, o as int),
            o == head_val(data@, hoff as int),
            n == arr_len(data@, hoff as int),
            tb == o + 32,
            o <= 0xFFFF_FFFF,
            n <= 0xFFFF_FFFF,
            out@.len() == j,
            forall|t: int| 0 <= t < j ==> belem_ok(data@, tb as int, t),
            forall|t: int| 0 <= t < j ==> (#[trigger] out@[t])@ == belem_at(data@, tb as int, t),
        decreases n - j,
    {
        let rel = match read_head(data, tb + 32 * j) {
            None => {
                proof {
                    assert(!belem_ok(data@, tb as int, j as int));
                }
                return None;
            },
            Some(x) => x,
        };
        let m = match read_head(data, tb + rel) {
            None => {
                proof {
                    assert(!belem_ok(data@, tb as int, j as int));
                }
                return None;
            },
            Some(x) => x,
        };
        if tb + rel + 32 + m > data.len() as u64 {
            proof {
                assert(!belem_ok(data@, tb as int, j as int));
            }
            return None;
        }
        let item = copy_bytes(data, tb + rel + 32, m);
        out.push(item);
        j += 1;
    }
    Some(out)
}

} // verus!
