//! Sector naming for storage directories.
//!
//! A sector's stable name is its three coordinates, each serialised as
//! eight little-endian bytes and encoded in unpadded base64, joined by
//! `=` separators.

use vstd::prelude::*;
use vstd::string::StringExecFns;

verus! {

/// Byte `k` of the little-endian encoding of a coordinate.
pub open spec fn le_byte(v: i64, k: int) -> u8 {
    (((v as u64) >> (8 * k) as u64) & 0xff) as u8
}

/// The eight little-endian bytes of a coordinate.
pub open spec fn le_bytes(v: i64) -> Seq<u8> {
    Seq::new(8, |k: int| le_byte(v, k))
}

/// What base64 without padding makes of a byte string.
pub uninterp spec fn b64_nopad(bytes: Seq<u8>) -> Seq<char>;

/// Relies on base64's `STANDARD_NO_PAD` engine: `encode` is a pure
/// function of the input bytes, and an unpadded encoding of `n` bytes
/// has exactly `(4 * n + 2) / 3` characters.
#[verifier::external_body]
fn encode_b64_nopad(bytes: &[u8]) -> (r: String)
    ensures
        r@ == b64_nopad(bytes@),
        r@.len() == (4 * bytes@.len() + 2) / 3,
{
    base64::Engine::encode(&base64::prelude::BASE64_STANDARD_NO_PAD, bytes)
}

/// Serialises a coordinate as eight little-endian bytes.
fn i64_le_bytes(v: i64) -> (r: Vec<u8>)
    ensures
        r@ == le_bytes(v),
{
    let u: u64 = #[verifier::truncate] (v as u64);
    let mut r: Vec<u8> = Vec::new();
    let mut k: u64 = 0;
    while k < 8
        invariant
            k <= 8,
            u == #[verifier::truncate] (v as u64),
            r@ =~= le_bytes(v).take(k as int),
        decreases 8 - k,
    {
        let b: u8 = #[verifier::truncate] (((u >> (8 * k)) & 0xff) as u8);
        proof {
            assert(le_bytes(v).take(k as int).push(le_byte(v, k as int)) =~= le_bytes(v).take(
                k + 1,
            ));
        }
        r.push(b);
        k = k + 1;
    }
    proof {
        assert(le_bytes(v).take(8) =~= le_bytes(v));
    }
    r
}

/// The name of a sector at coordinates `(x, y, z)`: the three unpadded
/// base64 codes of the little-endian coordinate bytes, joined by `=`.
pub open spec fn sector_name(x: i64, y: i64, z: i64) -> Seq<char> {
    b64_nopad(le_bytes(x)) + seq!['='] + b64_nopad(le_bytes(y)) + seq!['='] + b64_nopad(
        le_bytes(z),
    )
}

/// The sector naming service.
pub struct SectorServer {}

/// A sector as the naming service sees it: its position only.
pub struct Sector {
    pub pos: [i64; 3],
}

impl Sector {
    /// Builds a sector stub at a position.
    pub fn new(pos: [i64; 3]) -> (r: Self)
        ensures
            r.pos == pos,
    {
        Self { pos }
    }

    /// The sector's stable name.
    pub fn generate_name(&self) -> (r: String)
        ensures
            r@ == sector_name(self.pos[0], self.pos[1], self.pos[2]),
    {
        let bx = i64_le_bytes(self.pos[0]);
        let by = i64_le_bytes(self.pos[1]);
        let bz = i64_le_bytes(self.pos[2]);
        let mut out = encode_b64_nopad(bx.as_slice());
        out.append("=");
        let ey = encode_b64_nopad(by.as_slice());
        out.append(ey.as_str());
        out.append("=");
        let ez = encode_b64_nopad(bz.as_slice());
        out.append(ez.as_str());
        proof {
            reveal_strlit("=");
            assert(out@ =~= sector_name(self.pos[0], self.pos[1], self.pos[2]));
        }
        out
    }
}

} // verus!
