//! Text helpers: query-string encoding and decimal numbers.
use vstd::prelude::*;
use vstd::string::StringSliceAdditionalSpecFns;

verus! {

/// A byte that form encoding leaves as it is.
pub open spec fn is_unreserved(b: u8) -> bool {
    b == 42 || b == 45 || b == 46 || b == 95 || (48 <= b && b <= 57) || (65 <= b && b <= 90) || (
    97 <= b && b <= 122)
}

/// The upper-case hexadecimal digit for a value below sixteen.
pub open spec fn hex_digit(d: u8) -> char {
    if d < 10 {
        (d + 48) as char
    } else {
        (d + 55) as char
    }
}

/// How one byte is written in a form-encoded query value.
pub open spec fn encoded_byte(b: u8) -> Seq<char> {
    if is_unreserved(b) {
        seq![b as char]
    } else if b == 32 {
        seq!['+']
    } else {
        seq!['%', hex_digit(b / 16), hex_digit(b % 16)]
    }
}

/// The form encoding (`application/x-www-form-urlencoded`) of a byte string.
pub open spec fn form_encoded(bytes: Seq<u8>) -> Seq<char>
    decreases bytes.len(),
{
    if bytes.len() == 0 {
        Seq::empty()
    } else {
        form_encoded(bytes.drop_last()) + encoded_byte(bytes.last())
    }
}

/// The value of a hexadecimal digit.
pub open spec fn hex_value(c: char) -> int {
    if '0' <= c && c <= '9' {
        c as int - 48
    } else if 'A' <= c && c <= 'F' {
        c as int - 55
    } else if 'a' <= c && c <= 'f' {
        c as int - 87
    } else {
        0
    }
}

/// Form decoding, as a server reads a query value: `+` is a space, `%`
/// with two hex digits is that byte, any other character is its own code.
pub open spec fn form_decoded(cs: Seq<char>) -> Seq<u8>
    decreases cs.len(),
{
    if cs.len() == 0 {
        Seq::empty()
    } else if cs[0] == '+' {
        seq![32u8] + form_decoded(cs.drop_first())
    } else if cs[0] == '%' && cs.len() >= 3 {
        seq![(hex_value(cs[1]) * 16 + hex_value(cs[2])) as u8] + form_decoded(
            cs.subrange(3, cs.len() as int),
        )
    } else {
        seq![cs[0] as u8] + form_decoded(cs.drop_first())
    }
}

/// Form encoding read from the front: the first byte's encoding, then the rest.
proof fn lemma_form_encoded_front(bytes: Seq<u8>)
    requires
        bytes.len() > 0,
    ensures
        form_encoded(bytes) == encoded_byte(bytes[0]) + form_encoded(bytes.drop_first()),
    decreases bytes.len(),
{
    if bytes.len() == 1 {
        assert(bytes.drop_last() =~= Seq::<u8>::empty());
        assert(bytes.drop_first() =~= Seq::<u8>::empty());
        assert(form_encoded(Seq::<u8>::empty()) =~= Seq::<char>::empty());
        assert(form_encoded(bytes) =~= encoded_byte(bytes[0]));
    } else {
        lemma_form_encoded_front(bytes.drop_last());
        assert(bytes.drop_last().drop_first() =~= bytes.drop_first().drop_last());
        assert(bytes.drop_first().last() == bytes.last());
        assert(bytes.drop_last()[0] == bytes[0]);
        assert(form_encoded(bytes) =~= encoded_byte(bytes[0]) + form_encoded(bytes.drop_first()));
    }
}

/// Decoding one encoded byte in front of more text.
proof fn lemma_decode_one(b: u8, rest: Seq<char>)
    ensures
        form_decoded(encoded_byte(b) + rest) == seq![b] + form_decoded(rest),
{
    let cs = encoded_byte(b) + rest;
    if is_unreserved(b) {
        assert(cs[0] == b as char);
        assert(cs.drop_first() =~= rest);
        assert((b as char) as u8 == b);
    } else if b == 32 {
        assert(cs[0] == '+');
        assert(cs.drop_first() =~= rest);
    } else {
        let hi = b / 16;
        let lo = b % 16;
        assert(cs[0] == '%');
        assert(cs[1] == hex_digit(hi));
        assert(cs[2] == hex_digit(lo));
        assert(cs.subrange(3, cs.len() as int) =~= rest);
        assert(hex_value(hex_digit(hi)) == hi as int);
        assert(hex_value(hex_digit(lo)) == lo as int);
        assert(hi as int * 16 + lo as int == b as int);
    }
}

/// Decoding undoes encoding: the server reads back exactly the bytes sent.
pub proof fn lemma_form_round_trip(bytes: Seq<u8>)
    ensures
        form_decoded(form_encoded(bytes)) == bytes,
    decreases bytes.len(),
{
    if bytes.len() == 0 {
        assert(form_decoded(form_encoded(bytes)) =~= bytes);
    } else {
        lemma_form_encoded_front(bytes);
        lemma_form_round_trip(bytes.drop_first());
        lemma_decode_one(bytes[0], form_encoded(bytes.drop_first()));
        assert(seq![bytes[0]] + bytes.drop_first() =~= bytes);
    }
}

/// Relies on String::push: the character is appended.
#[verifier::external_body]
pub(crate) fn push_char(s: &mut String, c: char)
    ensures
        final(s)@ == old(s)@.push(c),
{
    s.push(c);
}

fn hex_char(d: u8) -> (c: char)
    requires
        d < 16,
    ensures
        c == hex_digit(d),
{
    if d < 10 {
        (d + 48) as char
    } else {
        (d + 55) as char
    }
}

/// Appends the form encoding of the UTF-8 bytes of `value` to `out`.
pub fn push_form_encoded(out: &mut String, value: &str)
    ensures
        final(out)@ == old(out)@ + form_encoded(value.spec_bytes()),
{
    let bytes = value.as_bytes();
    let n = bytes.len();
    let mut i: usize = 0;
    while i < n
        invariant
            n == bytes@.len(),
            bytes@ == value.spec_bytes(),
            i <= n,
            out@ == old(out)@ + form_encoded(bytes@.take(i as int)),
        decreases n - i,
    {
        let b = bytes[i];
        let ghost before = out@;
        if b == 42 || b == 45 || b == 46 || b == 95 || (48 <= b && b <= 57) || (65 <= b && b
            <= 90) || (97 <= b && b <= 122) {
            push_char(out, b as char);
        } else if b == 32 {
            push_char(out, '+');
        } else {
            push_char(out, '%');
            push_char(out, hex_char(b / 16));
            push_char(out, hex_char(b % 16));
        }
        proof {
            let t = bytes@.take(i as int + 1);
            assert(t.drop_last() =~= bytes@.take(i as int));
            assert(t.last() == b);
            assert(out@ =~= before + encoded_byte(b));
        }
        i = i + 1;
    }
    proof {
        assert(bytes@.take(n as int) =~= bytes@);
    }
}

/// The character of a decimal digit.
pub open spec fn digit_char(d: nat) -> char {
    (d + 48) as char
}

/// The decimal digits of a number, most significant first, without leading zeros.
pub open spec fn decimal(n: nat) -> Seq<char>
    decreases n,
{
    if n < 10 {
        seq![digit_char(n)]
    } else {
        decimal(n / 10).push(digit_char(n % 10))
    }
}

/// Appends the decimal digits of `n` to `out`.
pub fn push_decimal(out: &mut String, n: u32)
    ensures
        final(out)@ == old(out)@ + decimal(n as nat),
    decreases n,
{
    if n >= 10 {
        push_decimal(out, n / 10);
    }
    push_char(out, ((n % 10) as u8 + 48) as char);
    assert(out@ =~= old(out)@ + decimal(n as nat));
}

/// The decimal text of `n`.
pub fn decimal_text(n: u32) -> (r: String)
    ensures
        r@ == decimal(n as nat),
{
    let mut s = String::new();
    push_decimal(&mut s, n);
    proof {
        assert(s@ =~= decimal(n as nat));
    }
    s
}

/// An ASCII decimal digit.
pub open spec fn is_digit(b: u8) -> bool {
    48 <= b && b <= 57
}

/// The value of a string of decimal digits.
pub open spec fn digits_value(ds: Seq<u8>) -> int
    decreases ds.len(),
{
    if ds.len() == 0 {
        0
    } else {
        digits_value(ds.drop_last()) * 10 + (ds.last() - 48)
    }
}

/// The digits after an optional leading `+`.
pub open spec fn unsigned_digits(bs: Seq<u8>) -> Seq<u8> {
    if bs.len() > 0 && bs[0] == 43 {
        bs.drop_first()
    } else {
        bs
    }
}

/// The `u32` written in `bs`: an optional `+`, then one or more decimal
/// digits whose value fits in 32 bits; `None` for anything else.
pub open spec fn unsigned_of(bs: Seq<u8>) -> Option<u32> {
    let ds = unsigned_digits(bs);
    if ds.len() > 0 && (forall|i: int| 0 <= i < ds.len() ==> is_digit(#[trigger] ds[i]))
        && digits_value(ds) <= u32::MAX {
        Some(digits_value(ds) as u32)
    } else {
        None
    }
}

/// Reads a `u32` written in decimal, with an optional leading `+`.
pub fn parse_u32(s: &str) -> (r: Option<u32>)
    ensures
        r == unsigned_of(s.spec_bytes()),
{
    let bytes = s.as_bytes();
    let n = bytes.len();
    let start: usize = if n > 0 && bytes[0] == 43 {
        1
    } else {
        0
    };
    let ghost ds = unsigned_digits(bytes@);
    proof {
        if start == 1 {
            assert(ds =~= bytes@.subrange(1, n as int));
        } else {
            assert(ds =~= bytes@);
        }
    }
    if start == n {
        return None;
    }
    let mut acc: u64 = 0;
    let mut over = false;
    let mut i: usize = start;
    while i < n
        invariant
            n == bytes@.len(),
            start <= i <= n,
            ds == bytes@.subrange(start as int, n as int),
            ds == unsigned_digits(s.spec_bytes()),
            forall|j: int| 0 <= j < i - start ==> is_digit(#[trigger] ds[j]),
            over ==> digits_value(ds.take(i - start)) > u32::MAX,
            !over ==> acc == digits_value(ds.take(i - start)),
            !over ==> acc <= u32::MAX,
            digits_value(ds.take(i - start)) >= 0,
        decreases n - i,
    {
        let b = bytes[i];
        if !(48 <= b && b <= 57) {
            assert(ds[i - start] == b);
            assert(!is_digit(ds[i - start]));
            assert(!(forall|j: int| 0 <= j < ds.len() ==> is_digit(#[trigger] ds[j])));
            return None;
        }
        let ghost k = i - start;
        proof {
            assert(ds.take(k + 1).drop_last() =~= ds.take(k));
            assert(ds.take(k + 1).last() == b);
        }
        let ghost prev = digits_value(ds.take(k));
        assert(digits_value(ds.take(k + 1)) == prev * 10 + (b - 48));
        if !over {
            let next = acc * 10 + (b - 48) as u64;
            if next > 4294967295 {
                over = true;
            } else {
                acc = next;
            }
        } else {
            assert(prev * 10 + (b - 48) >= prev) by (nonlinear_arith)
                requires
                    prev >= 0,
                    b >= 48,
            ;
        }
        i = i + 1;
    }
    proof {
        assert(ds.take(n - start) =~= ds);
    }
    if over {
        None
    } else {
        Some(acc as u32)
    }
}

} // verus!
