//! Layout of a collection file read back from the SD card: packages of
//! `AXL_POSTCARD_SZ` bytes (a serialized package, COBS-framed), or, where raw
//! values are stored too, packages of `RAW_PACKAGE_SZ` bytes: the serialized
//! package followed by the raw IMU values as little-endian `u16`s.
use vstd::prelude::*;
use vstd::slice::{slice_subrange, slice_to_vec};

use crate::axl::{base64_decode, base64_standard, le_bytes, lemma_base64_round_trip, lemma_le_bytes_len, AXL_POSTCARD_SZ, AXL_SZ};
use crate::fir::DECIMATE;

verus! {

/// Number of raw values stored with a package: gyro and acceleration for every
/// IMU sample that the decimation reduces to one output sample.
pub const RAW_AXL_SZ: usize = 98304;

/// Bytes of the raw values stored with a package.
pub const RAW_AXL_BYTE_SZ: usize = 196608;

/// Bytes of a package stored with its raw values.
pub const RAW_PACKAGE_SZ: usize = 206848;

/// The sizes are those of a package of `AXL_SZ` values decimated by
/// `DECIMATE`.
pub proof fn lemma_raw_sizes()
    ensures
        RAW_AXL_SZ == 2 * AXL_SZ * (DECIMATE as int),
        RAW_AXL_BYTE_SZ == 2 * RAW_AXL_SZ,
        RAW_PACKAGE_SZ == AXL_POSTCARD_SZ + RAW_AXL_BYTE_SZ,
{
}

/// The `u16`s whose little-endian bytes are `b` (a trailing odd byte is left
/// out).
pub open spec fn le_u16s(b: Seq<u8>) -> Seq<u16> {
    Seq::new(b.len() / 2, |i: int| (b[2 * i] as int + 256 * (b[2 * i + 1] as int)) as u16)
}

/// The `u16`s stored little-endian in `b[start..end]`.
pub fn read_le_u16s(b: &[u8], start: usize, end: usize) -> (r: Vec<u16>)
    requires
        start <= end <= b@.len(),
    ensures
        r@ == le_u16s(b@.subrange(start as int, end as int)),
{
    let ghost s = b@.subrange(start as int, end as int);
    let n = (end - start) / 2;
    let mut r: Vec<u16> = Vec::new();
    let mut j: usize = 0;
    while j < n
        invariant
            start <= end <= b@.len(),
            n == (end - start) / 2,
            s == b@.subrange(start as int, end as int),
            j <= n,
            r@.len() == j,
            forall|i: int| 0 <= i < j ==> r@[i] == le_u16s(s)[i],
        decreases n - j,
    {
        let lo = b[start + 2 * j];
        let hi = b[start + 2 * j + 1];
        let v: u16 = lo as u16 + (hi as u16) * 256;
        assert(s[2 * j as int] == lo && s[2 * j + 1] == hi);
        r.push(v);
        j = j + 1;
    }
    assert(r@ =~= le_u16s(s));
    r
}

/// The packages of a collection file: its whole `AXL_POSTCARD_SZ`-byte chunks,
/// in order (a trailing partial chunk is left out).
pub fn split_packages(bytes: &[u8]) -> (r: Vec<Vec<u8>>)
    ensures
        r@.len() == bytes@.len() / (AXL_POSTCARD_SZ as nat),
        forall|i: int| 0 <= i < r@.len() ==> #[trigger] r@[i]@ == bytes@.subrange(
            i * AXL_POSTCARD_SZ,
            (i + 1) * AXL_POSTCARD_SZ,
        ),
{
    let len = bytes.len();
    let n = len / AXL_POSTCARD_SZ;
    let mut r: Vec<Vec<u8>> = Vec::new();
    let mut k: usize = 0;
    while k < n
        invariant
            len == bytes@.len(),
            n == bytes@.len() / (AXL_POSTCARD_SZ as nat),
            k <= n,
            r@.len() == k,
            forall|i: int| 0 <= i < k ==> #[trigger] r@[i]@ == bytes@.subrange(
                i * AXL_POSTCARD_SZ,
                (i + 1) * AXL_POSTCARD_SZ,
            ),
        decreases n - k,
    {
        assert((k + 1) * AXL_POSTCARD_SZ <= n * AXL_POSTCARD_SZ <= len) by (nonlinear_arith)
            requires
                k < n,
                n == len / AXL_POSTCARD_SZ,
        ;
        let p = slice_to_vec(slice_subrange(bytes, k * AXL_POSTCARD_SZ, (k + 1) * AXL_POSTCARD_SZ));
        r.push(p);
        k = k + 1;
    }
    r
}

/// The packages of a collection file stored with raw values: for each whole
/// `RAW_PACKAGE_SZ`-byte chunk, in order, the serialized package (its first
/// `AXL_POSTCARD_SZ` bytes) and the raw values (the rest, as little-endian
/// `u16`s). A trailing partial chunk is left out.
pub fn split_raw_packages(bytes: &[u8]) -> (r: Vec<(Vec<u8>, Vec<u16>)>)
    ensures
        r@.len() == bytes@.len() / (RAW_PACKAGE_SZ as nat),
        forall|i: int| 0 <= i < r@.len() ==> {
            &&& (#[trigger] r@[i]).0@ == bytes@.subrange(i * RAW_PACKAGE_SZ, i * RAW_PACKAGE_SZ + AXL_POSTCARD_SZ)
            &&& r@[i].1@ == le_u16s(
                bytes@.subrange(i * RAW_PACKAGE_SZ + AXL_POSTCARD_SZ, (i + 1) * RAW_PACKAGE_SZ),
            )
            &&& r@[i].1@.len() == RAW_AXL_SZ
        },
{
    let len = bytes.len();
    let n = len / RAW_PACKAGE_SZ;
    let mut r: Vec<(Vec<u8>, Vec<u16>)> = Vec::new();
    let mut k: usize = 0;
    while k < n
        invariant
            len == bytes@.len(),
            n == bytes@.len() / (RAW_PACKAGE_SZ as nat),
            k <= n,
            r@.len() == k,
            forall|i: int| 0 <= i < k ==> {
                &&& (#[trigger] r@[i]).0@ == bytes@.subrange(i * RAW_PACKAGE_SZ, i * RAW_PACKAGE_SZ + AXL_POSTCARD_SZ)
                &&& r@[i].1@ == le_u16s(
                    bytes@.subrange(i * RAW_PACKAGE_SZ + AXL_POSTCARD_SZ, (i + 1) * RAW_PACKAGE_SZ),
                )
                &&& r@[i].1@.len() == RAW_AXL_SZ
            },
        decreases n - k,
    {
        assert((k + 1) * RAW_PACKAGE_SZ <= n * RAW_PACKAGE_SZ <= len) by (nonlinear_arith)
            requires
                k < n,
                n == len / RAW_PACKAGE_SZ,
        ;
        let start = k * RAW_PACKAGE_SZ;
        let mid = start + AXL_POSTCARD_SZ;
        let end = (k + 1) * RAW_PACKAGE_SZ;
        let p = slice_to_vec(slice_subrange(bytes, start, mid));
        let raw = read_le_u16s(bytes, mid, end);
        r.push((p, raw));
        k = k + 1;
    }
    r
}

/// Reading back the little-endian bytes of values gives the values.
pub proof fn lemma_le_u16s_round_trip(v: Seq<u16>)
    ensures
        le_u16s(le_bytes(v)) == v,
{
    lemma_le_bytes_len(v);
    let b = le_bytes(v);
    assert forall|i: int| 0 <= i < v.len() implies #[trigger] le_u16s(b)[i] == v[i] by {
        assert(b[2 * i] == (v[i] % 256) as u8);
        assert(b[2 * i + 1] == (v[i] / 256) as u8);
    }
    assert(le_u16s(b) =~= v);
}

/// Decoding the payload of a package (the base64 of the little-endian bytes
/// of its values) gives back the values.
pub proof fn lemma_payload_decodes(data: Seq<u16>)
    ensures
        le_u16s(base64_decode(base64_standard(le_bytes(data)))) == data,
{
    lemma_base64_round_trip(le_bytes(data));
    lemma_le_u16s_round_trip(data);
}

} // verus!
