//! Data packages of accelerometer time series.
use vstd::prelude::*;

verus! {

/// Number of samples (of `SAMPLE_SZ` values) in a package.
pub const SAMPLE_NO: usize = 1024;

/// Number of values in one sample (x, y, z).
pub const SAMPLE_SZ: usize = 3;

/// Number of values in the data of a package.
pub const AXL_SZ: usize = 3072;

/// Version of the package format.
pub const VERSION: u32 = 6;

/// Maximum length of the base64 string of the package data (`AXL_SZ` values of
/// two bytes).
pub const AXL_OUTN: usize = 8196;

/// Maximum size of a package serialized with postcard and COBS (with some
/// margin, since postcard messages are not fixed size).
pub const AXL_POSTCARD_SZ: usize = 10240;

/// The character of the standard base64 alphabet for the 6-bit value `i`.
pub open spec fn b64_char(i: int) -> u8 {
    if i < 26 {
        (65 + i) as u8
    } else if i < 52 {
        (97 + i - 26) as u8
    } else if i < 62 {
        (48 + i - 52) as u8
    } else if i == 62 {
        43u8
    } else {
        47u8
    }
}

/// The padding character `=`.
pub open spec fn b64_pad() -> u8 {
    61u8
}

/// The four characters encoding the three bytes `b0`, `b1`, `b2`.
pub open spec fn b64_group(b0: u8, b1: u8, b2: u8) -> Seq<u8> {
    let n: int = b0 * 65536 + b1 * 256 + b2;
    seq![b64_char(n / 262144), b64_char(n / 4096 % 64), b64_char(n / 64 % 64), b64_char(n % 64)]
}

/// The standard base64 encoding (with padding) of `bytes`: four characters
/// for every group of three bytes, the last group padded with `=`.
pub open spec fn base64_standard(bytes: Seq<u8>) -> Seq<u8>
    decreases bytes.len(),
{
    if bytes.len() == 0 {
        Seq::empty()
    } else if bytes.len() == 1 {
        let g = b64_group(bytes[0], 0, 0);
        seq![g[0], g[1], b64_pad(), b64_pad()]
    } else if bytes.len() == 2 {
        let g = b64_group(bytes[0], bytes[1], 0);
        seq![g[0], g[1], g[2], b64_pad()]
    } else {
        b64_group(bytes[0], bytes[1], bytes[2]) + base64_standard(bytes.subrange(3, bytes.len() as int))
    }
}

/// The 6-bit value of a base64 character (0 for any other character).
pub open spec fn b64_value(c: u8) -> int {
    if 65 <= c <= 90 {
        c - 65
    } else if 97 <= c <= 122 {
        c - 71
    } else if 48 <= c <= 57 {
        c + 4
    } else if c == 43 {
        62
    } else if c == 47 {
        63
    } else {
        0
    }
}

/// The bytes of one group of four base64 characters (one to three bytes,
/// depending on the padding).
pub open spec fn b64_decode_group(s: Seq<u8>) -> Seq<u8> {
    let n: int = b64_value(s[0]) * 262144 + b64_value(s[1]) * 4096 + b64_value(s[2]) * 64 + b64_value(s[3]);
    if s[2] == b64_pad() {
        seq![(n / 65536) as u8]
    } else if s[3] == b64_pad() {
        seq![(n / 65536) as u8, (n / 256 % 256) as u8]
    } else {
        seq![(n / 65536) as u8, (n / 256 % 256) as u8, (n % 256) as u8]
    }
}

/// Decoding of standard base64: the bytes of each group of four characters.
pub open spec fn base64_decode(s: Seq<u8>) -> Seq<u8>
    decreases s.len(),
{
    if s.len() < 4 {
        Seq::empty()
    } else {
        b64_decode_group(s.subrange(0, 4)) + base64_decode(s.subrange(4, s.len() as int))
    }
}

proof fn lemma_b64_char_value(i: int)
    requires
        0 <= i < 64,
    ensures
        b64_value(b64_char(i)) == i,
        b64_char(i) != b64_pad(),
{
}

proof fn lemma_b64_group_bits(b0: u8, b1: u8, b2: u8)
    by (bit_vector)
    ensures
        ({
            let n = b0 * 65536 + b1 * 256 + b2;
            let m = (n / 262144) * 262144 + (n / 4096 % 64) * 4096 + (n / 64 % 64) * 64 + n % 64;
            &&& 0 <= n < 16777216
            &&& n / 262144 < 64
            &&& m / 65536 == b0
            &&& m / 256 % 256 == b1
            &&& m % 256 == b2
            &&& (b2 == 0 ==> n % 64 == 0)
            &&& (b1 == 0 && b2 == 0 ==> n / 64 % 64 == 0)
        }),
{
}

proof fn lemma_b64_group_round_trip(b0: u8, b1: u8, b2: u8)
    ensures
        ({
            let g = b64_group(b0, b1, b2);
            let n: int = b64_value(g[0]) * 262144 + b64_value(g[1]) * 4096 + b64_value(g[2]) * 64 + b64_value(g[3]);
            &&& g.len() == 4
            &&& g[0] != b64_pad() && g[1] != b64_pad() && g[2] != b64_pad() && g[3] != b64_pad()
            &&& (n / 65536) as u8 == b0
            &&& (n / 256 % 256) as u8 == b1
            &&& (n % 256) as u8 == b2
            &&& (b2 == 0 ==> b64_value(g[3]) == 0)
            &&& (b1 == 0 && b2 == 0 ==> b64_value(g[2]) == 0)
        }),
{
    lemma_b64_group_bits(b0, b1, b2);
    let n: int = b0 * 65536 + b1 * 256 + b2;
    lemma_b64_char_value(n / 262144);
    lemma_b64_char_value(n / 4096 % 64);
    lemma_b64_char_value(n / 64 % 64);
    lemma_b64_char_value(n % 64);
}

proof fn lemma_decode_cons(g: Seq<u8>, r: Seq<u8>)
    requires
        g.len() == 4,
    ensures
        base64_decode(g + r) == b64_decode_group(g) + base64_decode(r),
{
    let s = g + r;
    assert(s.subrange(0, 4) =~= g);
    assert(s.subrange(4, s.len() as int) =~= r);
}

proof fn lemma_short_round_trip(bytes: Seq<u8>)
    requires
        1 <= bytes.len() <= 2,
    ensures
        base64_standard(bytes).len() == 4,
        b64_decode_group(base64_standard(bytes)) == bytes,
{
    let e = base64_standard(bytes);
    if bytes.len() == 1 {
        lemma_b64_group_round_trip(bytes[0], 0, 0);
        let g = b64_group(bytes[0], 0, 0);
        assert(e == seq![g[0], g[1], b64_pad(), b64_pad()]);
        assert(b64_decode_group(e) =~= bytes);
    } else {
        lemma_b64_group_round_trip(bytes[0], bytes[1], 0);
        let g = b64_group(bytes[0], bytes[1], 0);
        assert(e == seq![g[0], g[1], g[2], b64_pad()]);
        assert(b64_decode_group(e) =~= bytes);
    }
}

/// Decoding the base64 encoding of `bytes` gives back `bytes`; the encoding
/// has four characters for every started group of three bytes.
pub proof fn lemma_base64_round_trip(bytes: Seq<u8>)
    ensures
        base64_decode(base64_standard(bytes)) == bytes,
        base64_standard(bytes).len() == 4 * ((bytes.len() + 2) / 3),
    decreases bytes.len(),
{
    let e = base64_standard(bytes);
    if bytes.len() == 0 {
        assert(base64_decode(e) =~= Seq::<u8>::empty());
    } else if bytes.len() <= 2 {
        lemma_short_round_trip(bytes);
        lemma_decode_cons(e, Seq::empty());
        assert(e + Seq::<u8>::empty() =~= e);
        assert(base64_decode(Seq::<u8>::empty()) =~= Seq::<u8>::empty());
        assert(b64_decode_group(e) + Seq::<u8>::empty() =~= bytes);
    } else {
        let rest = bytes.subrange(3, bytes.len() as int);
        lemma_base64_round_trip(rest);
        lemma_b64_group_round_trip(bytes[0], bytes[1], bytes[2]);
        let g = b64_group(bytes[0], bytes[1], bytes[2]);
        assert(e == g + base64_standard(rest));
        lemma_decode_cons(g, base64_standard(rest));
        assert(b64_decode_group(g) =~= bytes.subrange(0, 3));
        assert(bytes =~= bytes.subrange(0, 3) + rest);
    }
}

/// `base64::encode_config` with `base64::STANDARD`: the padded base64 encoding
/// of `data` (standard alphabet `A`-`Z`, `a`-`z`, `0`-`9`, `+`, `/`, and `=`
/// for padding).
#[verifier::external_body]
fn encode_base64(data: &[u8]) -> (r: Vec<u8>)
    ensures
        r@ == base64_standard(data@),
{
    base64::encode_config(data, base64::STANDARD).into_bytes()
}

/// The little-endian bytes of a sequence of `u16`.
pub open spec fn le_bytes(v: Seq<u16>) -> Seq<u8>
    decreases v.len(),
{
    if v.len() == 0 {
        Seq::empty()
    } else {
        le_bytes(v.drop_last()) + seq![(v.last() % 256) as u8, (v.last() / 256) as u8]
    }
}

/// `le_bytes(v)` has two bytes for each value: its low byte, then its high
/// byte.
pub proof fn lemma_le_bytes_len(v: Seq<u16>)
    ensures
        le_bytes(v).len() == 2 * v.len(),
        forall|i: int| 0 <= i < v.len() ==> #[trigger] le_bytes(v)[2 * i] == (v[i] % 256) as u8
            && le_bytes(v)[2 * i + 1] == (v[i] / 256) as u8,
    decreases v.len(),
{
    if v.len() > 0 {
        let p = v.drop_last();
        lemma_le_bytes_len(p);
        assert forall|i: int| 0 <= i < v.len() implies #[trigger] le_bytes(v)[2 * i] == (v[i] % 256) as u8
            && le_bytes(v)[2 * i + 1] == (v[i] / 256) as u8 by {
            if i < p.len() {
                assert(le_bytes(p)[2 * i] == (p[i] % 256) as u8);
            }
        }
    }
}

/// The bytes of the values, little-endian, as they are stored and sent.
pub fn to_le_bytes(v: &[u16]) -> (r: Vec<u8>)
    ensures
        r@ == le_bytes(v@),
{
    let mut out: Vec<u8> = Vec::new();
    let mut i: usize = 0;
    while i < v.len()
        invariant
            i <= v.len(),
            out@ == le_bytes(v@.subrange(0, i as int)),
        decreases v.len() - i,
    {
        let x = v[i];
        out.push((x % 256) as u8);
        out.push((x / 256) as u8);
        proof {
            let p = v@.subrange(0, i + 1);
            assert(p.drop_last() =~= v@.subrange(0, i as int));
            assert(p.last() == x);
        }
        i = i + 1;
    }
    proof {
        assert(v@.subrange(0, v@.len() as int) =~= v@);
    }
    out
}

/// The payload of a package: the base64 encoding of the little-endian bytes of
/// its values.
pub fn payload(data: &[u16]) -> (r: Vec<u8>)
    ensures
        r@ == base64_standard(le_bytes(data@)),
        r@.len() == 4 * ((2 * data@.len() + 2) / 3),
{
    let bytes = to_le_bytes(data);
    proof {
        lemma_le_bytes_len(data@);
        lemma_base64_round_trip(bytes@);
    }
    encode_base64(bytes.as_slice())
}

/// The payload of a full package always fits in `AXL_OUTN` bytes.
pub proof fn lemma_payload_fits(n: nat)
    requires
        n <= AXL_SZ,
    ensures
        4 * ((2 * n + 2) / 3) <= AXL_OUTN,
{
}

/// The name of a posted data event: `post-event-`, the device name (or
/// `unknown`) and the timestamp.
pub open spec fn spec_post_event(device: Option<Seq<char>>, timestamp: int) -> Seq<char> {
    seq!['p', 'o', 's', 't', '-', 'e', 'v', 'e', 'n', 't', '-'] + (if device is Some {
        device->0
    } else {
        seq!['u', 'n', 'k', 'n', 'o', 'w', 'n']
    }) + crate::decimal::dec_signed(timestamp)
}

/// The name of a posted data event (see `spec_post_event`).
pub fn post_event(device: &Option<String>, timestamp: i64) -> (r: String)
    ensures
        r@ == spec_post_event(match device {
            Some(d) => Some(d@),
            None => None,
        }, timestamp as int),
{
    proof {
        reveal_strlit("post-event-");
        reveal_strlit("unknown");
        assert("post-event-"@ =~= seq!['p', 'o', 's', 't', '-', 'e', 'v', 'e', 'n', 't', '-']);
        assert("unknown"@ =~= seq!['u', 'n', 'k', 'n', 'o', 'w', 'n']);
    }
    let mut e = String::from_str("post-event-");
    match device {
        Some(d) => e.append(d.as_str()),
        None => e.append("unknown"),
    }
    crate::decimal::push_decimal_signed(&mut e, timestamp);
    e
}

} // verus!
