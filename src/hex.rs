//! Uppercase hexadecimal rendering of byte sequences.

use vstd::prelude::*;

verus! {

/// The uppercase hexadecimal digit for a value below 16.
pub open spec fn hex_digit(n: int) -> char {
    if n < 10 {
        ('0' as int + n) as char
    } else {
        ('A' as int + (n - 10)) as char
    }
}

/// Whether `c` is one of `0-9` or `A-F`.
pub open spec fn is_upper_hex_char(c: char) -> bool {
    ('0' <= c && c <= '9') || ('A' <= c && c <= 'F')
}

/// Two digits per byte, high nibble first.
pub open spec fn upper_hex(bytes: Seq<u8>) -> Seq<char> {
    Seq::new(
        (2 * bytes.len()) as nat,
        |i: int|
            if i % 2 == 0 {
                hex_digit(bytes[i / 2] as int / 16)
            } else {
                hex_digit(bytes[i / 2] as int % 16)
            },
    )
}

/// Renders `bytes` as uppercase hexadecimal text, two digits per byte.
pub fn upper_hex_of_bytes(bytes: &[u8]) -> (r: String)
    ensures
        r@ == upper_hex(bytes@),
{
    let digits = "0123456789ABCDEF";
    proof {
        reveal_strlit("0123456789ABCDEF");
        assert forall|k: int| 0 <= k < 16 implies digits@[k] == hex_digit(k) by {}
    }
    let mut out = String::new();
    let mut i: usize = 0;
    while i < bytes.len()
        invariant
            i <= bytes@.len(),
            digits@.len() == 16,
            forall|k: int| 0 <= k < 16 ==> digits@[k] == hex_digit(k),
            digits.is_ascii(),
            out@ =~= upper_hex(bytes@).subrange(0, 2 * i as int),
        decreases bytes@.len() - i,
    {
        let b: u8 = bytes[i];
        let hi: usize = (b / 16) as usize;
        let lo: usize = (b % 16) as usize;
        out.append(digits.substring_ascii(hi, hi + 1));
        out.append(digits.substring_ascii(lo, lo + 1));
        i = i + 1;
    }
    out
}

/// Every byte sequence renders to exactly two characters per byte, each one
/// of `0-9` or `A-F`.
pub proof fn lemma_upper_hex_format(bytes: Seq<u8>)
    ensures
        upper_hex(bytes).len() == 2 * bytes.len(),
        forall|i: int|
            0 <= i < upper_hex(bytes).len() ==> is_upper_hex_char(#[trigger] upper_hex(bytes)[i]),
{
    assert forall|i: int| 0 <= i < upper_hex(bytes).len() implies is_upper_hex_char(
        #[trigger] upper_hex(bytes)[i],
    ) by {
        let b = bytes[i / 2] as int;
        assert(0 <= b / 16 < 16 && 0 <= b % 16 < 16);
    }
}

/// Distinct values below 16 have distinct digits.
proof fn lemma_hex_digit_injective(m: int, n: int)
    requires
        0 <= m < 16,
        0 <= n < 16,
        hex_digit(m) == hex_digit(n),
    ensures
        m == n,
{
}

/// Rendering loses nothing: two byte sequences with the same text are equal.
pub proof fn lemma_upper_hex_injective(a: Seq<u8>, b: Seq<u8>)
    requires
        upper_hex(a) == upper_hex(b),
    ensures
        a == b,
{
    assert(a.len() == b.len()) by {
        assert(upper_hex(a).len() == 2 * a.len());
        assert(upper_hex(b).len() == 2 * b.len());
    }
    assert forall|k: int| 0 <= k < a.len() implies a[k] == b[k] by {
        assert(upper_hex(a)[2 * k] == upper_hex(b)[2 * k]);
        assert(upper_hex(a)[2 * k + 1] == upper_hex(b)[2 * k + 1]);
        assert((2 * k) / 2 == k && (2 * k) % 2 == 0);
        assert((2 * k + 1) / 2 == k && (2 * k + 1) % 2 == 1);
        let (x, y) = (a[k] as int, b[k] as int);
        assert(upper_hex(a)[2 * k] == hex_digit(x / 16));
        assert(upper_hex(b)[2 * k] == hex_digit(y / 16));
        assert(upper_hex(a)[2 * k + 1] == hex_digit(x % 16));
        assert(upper_hex(b)[2 * k + 1] == hex_digit(y % 16));
        assert(0 <= x / 16 < 16 && 0 <= y / 16 < 16 && 0 <= x % 16 < 16 && 0 <= y % 16 < 16);
        lemma_hex_digit_injective(x / 16, y / 16);
        lemma_hex_digit_injective(x % 16, y % 16);
        assert(x == 16 * (x / 16) + x % 16 && y == 16 * (y / 16) + y % 16) by (nonlinear_arith)
            requires
                0 <= x,
                0 <= y,
        ;
    }
    assert(a =~= b);
}

} // verus!
