use vstd::prelude::*;

verus! {

/// A byte that is an ASCII hexadecimal digit (0-9, a-f, A-F).
pub open spec fn is_hex_digit(b: u8) -> bool {
    (48 <= b <= 57) || (97 <= b <= 102) || (65 <= b <= 70)
}

/// The numeric value of an ASCII hexadecimal digit.
pub open spec fn hex_val(b: u8) -> u8
    recommends
        is_hex_digit(b),
{
    if 48 <= b <= 57 {
        (b - 48) as u8
    } else if 97 <= b <= 102 {
        (b - 87) as u8
    } else {
        (b - 55) as u8
    }
}

/// A byte string is valid hex when it has even length and every byte is a
/// hexadecimal digit.
pub open spec fn valid_hex(s: Seq<u8>) -> bool {
    s.len() % 2 == 0 && forall|j: int| 0 <= j < s.len() ==> is_hex_digit(#[trigger] s[j])
}

/// The bytes that a valid hex string denotes: each pair of digits is one byte,
/// high digit first.
pub open spec fn hex_decoded(s: Seq<u8>) -> Seq<u8>
    recommends
        valid_hex(s),
{
    Seq::new((s.len() / 2) as nat, |i: int| (hex_val(s[2 * i]) * 16 + hex_val(s[2 * i + 1])) as u8)
}

/// The lower-case ASCII digit for a value below 16.
pub open spec fn hex_digit_char(v: u8) -> u8
    recommends
        v < 16,
{
    if v < 10 {
        (v + 48) as u8
    } else {
        (v + 87) as u8
    }
}

/// The lower-case hex encoding of a byte string: two digits per byte, high
/// digit first.
pub open spec fn hex_encoded(b: Seq<u8>) -> Seq<u8> {
    Seq::new(
        2 * b.len(),
        |i: int|
            if i % 2 == 0 {
                hex_digit_char((b[i / 2] / 16) as u8)
            } else {
                hex_digit_char((b[i / 2] % 16) as u8)
            },
    )
}

/// The value of one hex digit byte; `None` when the byte is not a hex digit.
pub fn hex_val_exec(b: u8) -> (r: Option<u8>)
    ensures
        r is Some <==> is_hex_digit(b),
        r is Some ==> r == Some(hex_val(b)) && hex_val(b) <= 15,
{
    if 48 <= b && b <= 57 {
        Some(b - 48)
    } else if 97 <= b && b <= 102 {
        Some(b - 87)
    } else if 65 <= b && b <= 70 {
        Some(b - 55)
    } else {
        None
    }
}

/// Decodes a hex byte string; `None` exactly when the input is not valid hex
/// (odd length or a non-digit byte).
pub fn hex_decode(s: &[u8]) -> (r: Option<Vec<u8>>)
    ensures
        match r {
            Some(v) => valid_hex(s@) && v@ == hex_decoded(s@),
            None => !valid_hex(s@),
        },
{
    if s.len() % 2 != 0 {
        return None;
    }
    let len: usize = s.len();
    let n = len / 2;
    let mut out: Vec<u8> = Vec::new();
    let mut i: usize = 0;
    while i < n
        invariant
            len == s@.len(),
            s@.len() % 2 == 0,
            n == s@.len() / 2,
            2 * (n as int) == len as int,
            i <= n,
            forall|j: int| 0 <= j < 2 * i ==> is_hex_digit(#[trigger] s@[j]),
            out@.len() == i,
            forall|j: int|
                0 <= j < i ==> out@[j] == (hex_val(s@[2 * j]) * 16 + hex_val(s@[2 * j + 1])) as u8,
        decreases n - i,
    {
        let hi = match hex_val_exec(s[2 * i]) {
            Some(v) => v,
            None => {
                return None;
            },
        };
        let lo = match hex_val_exec(s[2 * i + 1]) {
            Some(v) => v,
            None => {
                return None;
            },
        };
        out.push(hi * 16 + lo);
        i += 1;
    }
    proof {
        assert(out@ =~= hex_decoded(s@));
    }
    Some(out)
}

/// The exec digit for a value below 16.
fn hex_digit_exec(v: u8) -> (r: u8)
    requires
        v < 16,
    ensures
        r == hex_digit_char(v),
{
    if v < 10 {
        v + 48
    } else {
        v + 87
    }
}

/// Encodes bytes as lower-case hex, two digits per byte.
pub fn hex_encode(b: &[u8]) -> (r: Vec<u8>)
    ensures
        r@ == hex_encoded(b@),
{
    let mut out: Vec<u8> = Vec::new();
    let mut i: usize = 0;
    while i < b.len()
        invariant
            i <= b@.len(),
            out@.len() == 2 * i,
            forall|j: int| 0 <= j < 2 * i ==> out@[j] == hex_encoded(b@)[j],
        decreases b@.len() - i,
    {
        out.push(hex_digit_exec(b[i] / 16));
        out.push(hex_digit_exec(b[i] % 16));
        i += 1;
    }
    proof {
        assert(out@ =~= hex_encoded(b@));
    }
    out
}

/// The numeric value of the digit byte for `v` is `v` again.
proof fn lemma_hex_digit_char_val(v: u8)
    requires
        v < 16,
    ensures
        is_hex_digit(hex_digit_char(v)),
        hex_val(hex_digit_char(v)) == v,
{
}

/// Encoding then decoding gives the original bytes back, and every encoding
/// is valid hex.
pub proof fn lemma_hex_round_trip(b: Seq<u8>)
    ensures
        valid_hex(hex_encoded(b)),
        hex_decoded(hex_encoded(b)) == b,
{
    let e = hex_encoded(b);
    assert forall|j: int| 0 <= j < e.len() implies is_hex_digit(#[trigger] e[j]) by {
        if j % 2 == 0 {
            lemma_hex_digit_char_val((b[j / 2] / 16) as u8);
        } else {
            lemma_hex_digit_char_val((b[j / 2] % 16) as u8);
        }
    }
    assert forall|i: int| 0 <= i < b.len() implies hex_decoded(e)[i] == b[i] by {
        assert(e[2 * i] == hex_digit_char((b[i] / 16) as u8));
        assert(e[2 * i + 1] == hex_digit_char((b[i] % 16) as u8));
        lemma_hex_digit_char_val((b[i] / 16) as u8);
        lemma_hex_digit_char_val((b[i] % 16) as u8);
    }
    assert(hex_decoded(e) =~= b);
}

} // verus!
