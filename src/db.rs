//! Record ids of the document store and their text forms: hex in tokens,
//! URL-safe base64 in paths.
use vstd::prelude::*;

verus! {

/// Whether `c` is a hexadecimal digit, in either case.
pub open spec fn is_hex_digit(c: char) -> bool {
    ('0' <= c && c <= '9') || ('a' <= c && c <= 'f') || ('A' <= c && c <= 'F')
}

/// The value of the hexadecimal digit `c`.
pub open spec fn hex_value(c: char) -> int {
    if '0' <= c && c <= '9' {
        c as int - '0' as int
    } else if 'a' <= c && c <= 'f' {
        c as int - 'a' as int + 10
    } else {
        c as int - 'A' as int + 10
    }
}

/// Whether `s` is the hex text of a twelve-byte record id.
pub open spec fn oid_hex_text(s: Seq<char>) -> bool {
    s.len() == 24 && forall|i: int| 0 <= i < 24 ==> is_hex_digit(#[trigger] s[i])
}

/// The twelve bytes that the hex text `s` spells.
pub open spec fn oid_bytes_of_hex(s: Seq<char>) -> Seq<u8> {
    Seq::new(12, |i: int| (hex_value(s[2 * i]) * 16 + hex_value(s[2 * i + 1])) as u8)
}

/// The value of a URL-safe base64 digit, or -1 for any other character.
pub open spec fn base64_url_value(c: char) -> int {
    if 'A' <= c && c <= 'Z' {
        c as int - 'A' as int
    } else if 'a' <= c && c <= 'z' {
        c as int - 'a' as int + 26
    } else if '0' <= c && c <= '9' {
        c as int - '0' as int + 52
    } else if c == '-' {
        62
    } else if c == '_' {
        63
    } else {
        -1
    }
}

/// The `k`-th six-bit group of `b`, read from the most significant bit of
/// each group of three bytes.
pub open spec fn sextet(b: Seq<u8>, k: int) -> int {
    let g = k / 4;
    let v = b[3 * g] as int * 65536 + b[3 * g + 1] as int * 256 + b[3 * g + 2] as int;
    if k % 4 == 0 {
        v / 262144
    } else if k % 4 == 1 {
        (v / 4096) % 64
    } else if k % 4 == 2 {
        (v / 64) % 64
    } else {
        v % 64
    }
}

/// `s` is the URL-safe base64 text of the twelve bytes `b`: sixteen digits,
/// one per six-bit group, and no padding, since twelve is a multiple of
/// three.
pub open spec fn is_base64_url_of(s: Seq<char>, b: Seq<u8>) -> bool {
    &&& b.len() == 12
    &&& s.len() == 16
    &&& forall|k: int| 0 <= k < 16 ==> base64_url_value(#[trigger] s[k]) == sextet(b, k)
}

/// Relies on `base64`'s `BASE64_URL_SAFE` engine, `encode`: the standard
/// encoding with the URL-safe alphabet.
#[verifier::external_body]
fn base64_url_encode(b: &[u8; 12]) -> (r: String)
    ensures
        is_base64_url_of(r@, b@),
{
    base64::Engine::encode(&base64::prelude::BASE64_URL_SAFE, b)
}

/// Relies on `base64`'s `BASE64_URL_SAFE` engine, `decode`: sixteen
/// URL-safe digits decode to the twelve bytes they spell, and a result of
/// twelve bytes comes only from such text.
#[verifier::external_body]
fn base64_url_decode(s: &String) -> (r: Option<Vec<u8>>)
    ensures
        r is None ==> forall|b: Seq<u8>| !is_base64_url_of(s@, b),
        r matches Some(v) ==> (v@.len() == 12 ==> is_base64_url_of(s@, v@)),
        r matches Some(v) ==> (v@.len() != 12 ==> forall|b: Seq<u8>| !is_base64_url_of(s@, b)),
{
    match base64::Engine::decode(&base64::prelude::BASE64_URL_SAFE, s.as_bytes()) {
        Ok(v) => Some(v),
        Err(_) => None,
    }
}

/// The path form of a record id.
pub fn encode_oid(oid: [u8; 12]) -> (r: String)
    ensures
        is_base64_url_of(r@, oid@),
{
    base64_url_encode(&oid)
}

/// The record id that the path form `enc` spells, where it is the
/// URL-safe base64 text of twelve bytes.
pub fn decode_oid(enc: &String) -> (r: Option<[u8; 12]>)
    ensures
        match r {
            Some(a) => is_base64_url_of(enc@, a@),
            None => forall|b: Seq<u8>| !is_base64_url_of(enc@, b),
        },
{
    match base64_url_decode(enc) {
        Some(d) => {
            if d.len() != 12 {
                return None;
            }
            let mut arr: [u8; 12] = [0u8; 12];
            let mut i: usize = 0;
            while i < 12
                invariant
                    0 <= i <= 12,
                    d.len() == 12,
                    forall|j: int| 0 <= j < i ==> arr@[j] == d@[j],
                decreases 12 - i,
            {
                arr[i] = d[i];
                i += 1;
            }
            assert(arr@ =~= d@);
            Some(arr)
        },
        None => None,
    }
}

} // verus!
