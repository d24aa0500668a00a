//! Byte- and character-level text utilities shared by the message formatter
//! and the request interpreter: ASCII bridging between `Seq<char>` and
//! `Seq<u8>`, case-insensitive comparison, and decimal numerals.
use vstd::prelude::*;

verus! {

/// The bytes of an ASCII character sequence, one byte per character.
pub open spec fn bytes_of(s: Seq<char>) -> Seq<u8> {
    Seq::new(s.len(), |i: int| s[i] as u8)
}

/// Every character is printable ASCII (so in particular not CR, LF or NUL).
pub open spec fn printable_ascii(s: Seq<char>) -> bool {
    forall|i: int| 0 <= i < s.len() ==> 32 <= #[trigger] s[i] as int <= 126
}

/// Carriage return.
pub const CR: u8 = 13;

/// Line feed.
pub const LF: u8 = 10;

/// A byte sequence free of carriage returns and line feeds.
pub open spec fn line_clean(b: Seq<u8>) -> bool {
    forall|i: int| 0 <= i < b.len() ==> #[trigger] b[i] != CR && b[i] != LF
}

/// ASCII lower-casing of one byte.
pub open spec fn lower_byte(b: u8) -> u8 {
    if 65 <= b <= 90 {
        (b + 32) as u8
    } else {
        b
    }
}

/// ASCII lower-casing of a byte sequence.
pub open spec fn lower_bytes(b: Seq<u8>) -> Seq<u8> {
    b.map_values(|x: u8| lower_byte(x))
}

/// Byte-for-byte equality of two slices.
pub fn bytes_eq(a: &[u8], b: &[u8]) -> (r: bool)
    ensures
        r == (a@ == b@),
{
    if a.len() != b.len() {
        proof {
            assert(a@ != b@);
        }
        return false;
    }
    let n = a.len();
    let mut i: usize = 0;
    while i < n
        invariant
            n == a@.len() == b@.len(),
            0 <= i <= n,
            forall|j: int| 0 <= j < i ==> a@[j] == b@[j],
        decreases n - i,
    {
        if a[i] != b[i] {
            proof {
                assert(a@ != b@);
            }
            return false;
        }
        i += 1;
    }
    proof {
        assert(a@ =~= b@);
    }
    true
}

/// Case-insensitive ASCII equality of two byte slices.
pub fn bytes_eq_ignore_case(a: &[u8], b: &[u8]) -> (r: bool)
    ensures
        r == (lower_bytes(a@) == lower_bytes(b@)),
{
    if a.len() != b.len() {
        proof {
            assert(lower_bytes(a@).len() != lower_bytes(b@).len());
        }
        return false;
    }
    let n = a.len();
    let mut i: usize = 0;
    while i < n
        invariant
            n == a@.len() == b@.len(),
            0 <= i <= n,
            forall|j: int| 0 <= j < i ==> lower_byte(a@[j]) == lower_byte(b@[j]),
        decreases n - i,
    {
        let x = a[i];
        let y = b[i];
        let xl = if 65 <= x && x <= 90 { x + 32 } else { x };
        let yl = if 65 <= y && y <= 90 { y + 32 } else { y };
        if xl != yl {
            proof {
                assert(lower_bytes(a@)[i as int] != lower_bytes(b@)[i as int]);
            }
            return false;
        }
        i += 1;
    }
    proof {
        assert(lower_bytes(a@) =~= lower_bytes(b@));
    }
    true
}

/// A copy of `buf[i..j]`.
pub fn bytes_range(buf: &[u8], i: usize, j: usize) -> (r: Vec<u8>)
    requires
        i <= j <= buf@.len(),
    ensures
        r@ == buf@.subrange(i as int, j as int),
{
    let mut r: Vec<u8> = Vec::new();
    let mut k: usize = i;
    while k < j
        invariant
            i <= k <= j <= buf@.len(),
            r@ == buf@.subrange(i as int, k as int),
        decreases j - k,
    {
        r.push(buf[k]);
        proof {
            assert(r@ =~= buf@.subrange(i as int, k + 1));
        }
        k += 1;
    }
    r
}

/// The bytes of an ASCII string slice.
pub fn ascii_str_bytes(s: &str) -> (r: &[u8])
    requires
        vstd::string::is_ascii(s),
    ensures
        r@ == bytes_of(s@),
{
    let r = s.as_bytes();
    proof {
        broadcast use vstd::string::is_ascii_spec_bytes;

        assert(r@ =~= bytes_of(s@));
    }
    r
}

/// The decimal digit character for a value below ten.
pub open spec fn dec_digit(d: int) -> char {
    if d == 0 {
        '0'
    } else if d == 1 {
        '1'
    } else if d == 2 {
        '2'
    } else if d == 3 {
        '3'
    } else if d == 4 {
        '4'
    } else if d == 5 {
        '5'
    } else if d == 6 {
        '6'
    } else if d == 7 {
        '7'
    } else if d == 8 {
        '8'
    } else {
        '9'
    }
}

/// The decimal numeral of a natural number, most significant digit first.
pub open spec fn dec_text(n: nat) -> Seq<char>
    decreases n,
{
    if n < 10 {
        seq![dec_digit(n as int)]
    } else {
        dec_text(n / 10) + seq![dec_digit((n % 10) as int)]
    }
}

/// The string slice holding one decimal digit.
fn dec_digit_str(d: u64) -> (r: &'static str)
    requires
        d < 10,
    ensures
        r@ == seq![dec_digit(d as int)],
{
    proof {
        reveal_strlit("0");
        reveal_strlit("1");
        reveal_strlit("2");
        reveal_strlit("3");
        reveal_strlit("4");
        reveal_strlit("5");
        reveal_strlit("6");
        reveal_strlit("7");
        reveal_strlit("8");
        reveal_strlit("9");
    }
    if d == 0 {
        "0"
    } else if d == 1 {
        "1"
    } else if d == 2 {
        "2"
    } else if d == 3 {
        "3"
    } else if d == 4 {
        "4"
    } else if d == 5 {
        "5"
    } else if d == 6 {
        "6"
    } else if d == 7 {
        "7"
    } else if d == 8 {
        "8"
    } else {
        "9"
    }
}

/// The decimal numeral of `n` as a string.
pub fn u64_to_string(n: u64) -> (r: String)
    ensures
        r@ == dec_text(n as nat),
    decreases n,
{
    if n < 10 {
        dec_digit_str(n).to_owned()
    } else {
        let mut s = u64_to_string(n / 10);
        s.append(dec_digit_str(n % 10));
        s
    }
}

/// The value of an ASCII digit byte, if it is one.
pub open spec fn digit_val(b: u8) -> Option<u32> {
    if 48 <= b <= 57 {
        Some((b - 48) as u32)
    } else {
        None
    }
}

/// The value of a non-empty run of ASCII digit bytes, or `None` when some
/// byte is not a digit or the value does not fit in 32 bits.
pub open spec fn dec_val(b: Seq<u8>) -> Option<u32>
    decreases b.len(),
{
    if b.len() == 0 {
        None
    } else if b.len() == 1 {
        digit_val(b[0])
    } else {
        match (dec_val(b.drop_last()), digit_val(b.last())) {
            (Some(hi), Some(lo)) => {
                if hi <= (u32::MAX - lo) / 10 {
                    Some((hi * 10 + lo) as u32)
                } else {
                    None
                }
            },
            _ => None,
        }
    }
}

/// The unsigned decimal value of a byte sequence: digits with an optional
/// leading plus sign, as `u32` text parses it.
pub open spec fn spec_parse_u32(b: Seq<u8>) -> Option<u32> {
    if b.len() > 0 && b[0] == 43 {
        dec_val(b.drop_first())
    } else {
        dec_val(b)
    }
}

/// Parse an unsigned decimal numeral, accepting one leading `+`.
pub fn parse_u32_ascii(b: &[u8]) -> (r: Option<u32>)
    ensures
        r == spec_parse_u32(b@),
{
    let n = b.len();
    let start: usize = if n > 0 && b[0] == 43 {
        1
    } else {
        0
    };
    let ghost digits = if start == 1 {
        b@.drop_first()
    } else {
        b@
    };
    if n == start {
        proof {
            assert(digits.len() == 0);
        }
        return None;
    }
    proof {
        assert(digits.len() == n - start);
        assert(forall|j: int| 0 <= j < digits.len() ==> digits[j] == b@[j + start]);
    }
    let mut acc: u32 = 0;
    let mut i: usize = start;
    while i < n
        invariant
            start <= i <= n,
            n == b@.len(),
            start == 0 || start == 1,
            n > start,
            start == 1 ==> digits == b@.drop_first(),
            start == 0 ==> digits == b@,
            spec_parse_u32(b@) == dec_val(digits),
            digits.len() == n - start,
            forall|j: int| 0 <= j < digits.len() ==> digits[j] == b@[j + start],
            i == start ==> acc == 0,
            i > start ==> dec_val(digits.subrange(0, i - start)) == Some(acc),
        decreases n - i,
    {
        let x = b[i];
        if x < 48 || x > 57 {
            proof {
                lemma_dec_val_bad_digit(digits, i - start);
            }
            return None;
        }
        let d: u32 = (x - 48) as u32;
        if acc > (u32::MAX - d) / 10 {
            proof {
                assert(i > start);
                lemma_dec_val_overflow(digits, i - start, acc, d);
            }
            return None;
        }
        proof {
            let k = i - start;
            if k == 0 {
                assert(digits.subrange(0, 1).len() == 1);
                assert(digits.subrange(0, 1)[0] == digits[0]);
            } else {
                assert(digits.subrange(0, k + 1).drop_last() =~= digits.subrange(0, k));
                assert(digits.subrange(0, k + 1).last() == digits[k]);
            }
        }
        acc = acc * 10 + d;
        i += 1;
    }
    proof {
        assert(digits.subrange(0, n - start) =~= digits);
    }
    Some(acc)
}

proof fn lemma_dec_val_extend_none(digits: Seq<u8>, k: int)
    requires
        0 <= k < digits.len(),
        dec_val(digits.subrange(0, k + 1)) is None,
    ensures
        dec_val(digits) is None,
    decreases digits.len() - k,
{
    if k + 1 == digits.len() {
        assert(digits.subrange(0, k + 1) =~= digits);
    } else {
        assert(digits.subrange(0, k + 2).drop_last() =~= digits.subrange(0, k + 1));
        lemma_dec_val_extend_none(digits, k + 1);
    }
}

proof fn lemma_dec_val_bad_digit(digits: Seq<u8>, k: int)
    requires
        0 <= k < digits.len(),
        digit_val(digits[k]) is None,
    ensures
        dec_val(digits) is None,
{
    assert(digits.subrange(0, k + 1).last() == digits[k]);
    if k == 0 {
        if digits.len() == 1 {
            assert(digits.subrange(0, 1) =~= digits);
        }
        assert(dec_val(digits.subrange(0, k + 1)) is None);
    } else {
        assert(digits.subrange(0, k + 1).drop_last() =~= digits.subrange(0, k));
        assert(dec_val(digits.subrange(0, k + 1)) is None);
    }
    lemma_dec_val_extend_none(digits, k);
}

proof fn lemma_dec_val_overflow(digits: Seq<u8>, k: int, acc: u32, d: u32)
    requires
        0 <= k < digits.len(),
        k > 0,
        dec_val(digits.subrange(0, k)) == Some(acc),
        digit_val(digits[k]) == Some(d),
        acc > (u32::MAX - d) / 10,
    ensures
        dec_val(digits) is None,
{
    assert(digits.subrange(0, k + 1).drop_last() =~= digits.subrange(0, k));
    assert(digits.subrange(0, k + 1).last() == digits[k]);
    assert(dec_val(digits.subrange(0, k + 1)) is None);
    lemma_dec_val_extend_none(digits, k);
}

/// Every character of a decimal numeral is a printable ASCII digit.
pub proof fn lemma_dec_text_printable(n: nat)
    ensures
        printable_ascii(dec_text(n)),
        dec_text(n).len() >= 1,
    decreases n,
{
    if n >= 10 {
        lemma_dec_text_printable(n / 10);
    }
}

} // verus!
