//! A value made of bytes, with its renderings as binary text, hexadecimal text
//! and a 128-bit integer.

use crate::vector::Vector;
use vstd::prelude::*;

verus! {

/// A byte as text: eight binary digits.
pub type Bin = String;

/// A run of bytes.
#[derive(Debug)]
pub struct Bytes {
    pub vec: Vector<u8>,
}

/// Bytes as hexadecimal text, two digits for each byte.
#[derive(Clone, Debug)]
pub struct Hex(pub String);

/// Bytes as binary text, one string of eight digits for each byte.
#[derive(Debug)]
pub struct Bins(pub Vector<Bin>);

/// Character codes of the digits `0`, `1` and `9` and of the letters that
/// bound the hexadecimal digits in either case.
const CODE_0: u8 = 48;

const CODE_1: u8 = 49;

const CODE_9: u8 = 57;

const CODE_UPPER_A: u8 = 65;

const CODE_UPPER_F: u8 = 70;

const CODE_LOWER_A: u8 = 97;

const CODE_LOWER_F: u8 = 102;

/// The binary digit of `n` at place `j`, counted from the most significant
/// bit, which is place 0.
pub open spec fn bin_digit(n: u8, j: int) -> char {
    if (n as int / vstd::arithmetic::power2::pow2((7 - j) as nat) as int) % 2 == 1 {
        '1'
    } else {
        '0'
    }
}

/// A byte as eight binary digits, most significant bit first.
pub open spec fn bin_text(n: u8) -> Seq<char> {
    Seq::new(8, |j: int| bin_digit(n, j))
}

/// The hexadecimal digit, in lower case, of a value below 16.
pub open spec fn hex_digit(v: int) -> char {
    if v < 10 {
        ((48 + v) as u8) as char
    } else {
        ((87 + v) as u8) as char
    }
}

/// Bytes as hexadecimal text: for each byte its high and then its low four
/// bits, as lower-case digits.
pub open spec fn hex_text(bytes: Seq<u8>) -> Seq<char> {
    Seq::new(
        2 * bytes.len(),
        |i: int|
            if i % 2 == 0 {
                hex_digit(bytes[i / 2] as int / 16)
            } else {
                hex_digit(bytes[i / 2] as int % 16)
            },
    )
}

/// `String::push`: appends one character at the end of the string.
#[verifier::external_body]
fn string_push(s: &mut String, c: char)
    ensures
        final(s)@ == old(s)@.push(c),
{
    s.push(c);
}

/// The digit of a value below 16, as a character.
fn hex_digit_of(v: u8) -> (c: char)
    requires
        v < 16,
    ensures
        c == hex_digit(v as int),
{
    if v < 10 {
        (CODE_0 + v) as char
    } else {
        (CODE_LOWER_A + (v - 10)) as char
    }
}

/// Renders a byte as eight binary digits, most significant bit first.
pub fn u8_to_bin(n: &u8) -> (s: Bin)
    ensures
        s@ == bin_text(*n),
{
    let mut s: String = String::new();
    let mut j: u8 = 0;
    while j < 8
        invariant
            j <= 8,
            s@.len() == j,
            forall|k: int| 0 <= k < j ==> s@[k] == bin_digit(*n, k),
        decreases 8 - j,
    {
        let place: u8 = 7 - j;
        let bit: u8 = (*n >> place) & 1;
        proof {
            lemma_bit_is_digit(*n, place);
        }
        string_push(
            &mut s,
            if bit == 1 {
                '1'
            } else {
                '0'
            },
        );
        j += 1;
    }
    assert(s@ =~= bin_text(*n));
    s
}

/// The bit that a shift and a mask pick is the digit that division picks.
proof fn lemma_bit_is_digit(n: u8, place: u8)
    requires
        place < 8,
    ensures
        ((n >> place) & 1) as int == (n as int / vstd::arithmetic::power2::pow2(place as nat) as int)
            % 2,
{
    vstd::arithmetic::power2::lemma2_to64();
    assert(((n >> place) & 1) == (n / (1u8 << place)) % 2) by (bit_vector)
        requires
            place < 8,
    ;
    assert((1u8 << place) as int == vstd::arithmetic::power2::pow2(place as nat)) by {
        assert(1u8 << 0u8 == 1u8) by (bit_vector);
        assert(1u8 << 1u8 == 2u8) by (bit_vector);
        assert(1u8 << 2u8 == 4u8) by (bit_vector);
        assert(1u8 << 3u8 == 8u8) by (bit_vector);
        assert(1u8 << 4u8 == 16u8) by (bit_vector);
        assert(1u8 << 5u8 == 32u8) by (bit_vector);
        assert(1u8 << 6u8 == 64u8) by (bit_vector);
        assert(1u8 << 7u8 == 128u8) by (bit_vector);
    }
}

/// Renders a byte as two hexadecimal digits in lower case, high four bits
/// first.
pub fn u8_to_hex(n: &u8) -> (s: String)
    ensures
        s@ == seq![hex_digit(*n as int / 16), hex_digit(*n as int % 16)],
{
    let mut s: String = String::new();
    string_push(&mut s, hex_digit_of(*n / 16));
    string_push(&mut s, hex_digit_of(*n % 16));
    assert(s@ =~= seq![hex_digit(*n as int / 16), hex_digit(*n as int % 16)]);
    s
}

/// Binary text that stands for a byte: one to eight characters, each `0` or
/// `1`.
pub open spec fn is_bin_text(text: Seq<char>) -> bool {
    &&& 0 < text.len() <= 8
    &&& forall|i: int| 0 <= i < text.len() ==> #[trigger] text[i] == '0' || text[i] == '1'
}

/// The number that binary text stands for, most significant digit first.
pub open spec fn bin_value(text: Seq<char>) -> nat
    decreases text.len(),
{
    if text.len() == 0 {
        0
    } else {
        2 * bin_value(text.drop_last()) + if text.last() == '1' {
            1nat
        } else {
            0nat
        }
    }
}

/// The value of a hexadecimal digit, in either case; `None` for any other
/// character.
pub open spec fn hex_value(c: char) -> Option<u8> {
    if '0' <= c <= '9' {
        Some((c as u8 - 48) as u8)
    } else if 'a' <= c <= 'f' {
        Some((c as u8 - 87) as u8)
    } else if 'A' <= c <= 'F' {
        Some((c as u8 - 55) as u8)
    } else {
        None
    }
}

/// Hexadecimal text that stands for bytes: digits only, two for each byte.
pub open spec fn is_hex_text(text: Seq<char>) -> bool {
    &&& text.len() % 2 == 0
    &&& forall|i: int| 0 <= i < text.len() ==> hex_value(#[trigger] text[i]) is Some
}

/// The byte that two hexadecimal digits stand for, high digit first.
pub open spec fn hex_pair_value(hi: char, lo: char) -> u8 {
    (16 * hex_value(hi).unwrap() + hex_value(lo).unwrap()) as u8
}

/// The bytes that hexadecimal text stands for.
pub open spec fn bytes_of_hex(text: Seq<char>) -> Seq<u8> {
    Seq::new((text.len() / 2) as nat, |i: int| hex_pair_value(text[2 * i], text[2 * i + 1]))
}

/// Binary text of up to `n` digits stands for a number below `2^n`.
proof fn lemma_bin_value_bound(text: Seq<char>)
    ensures
        bin_value(text) < vstd::arithmetic::power2::pow2(text.len()),
    decreases text.len(),
{
    vstd::arithmetic::power2::lemma2_to64();
    if text.len() > 0 {
        lemma_bin_value_bound(text.drop_last());
        vstd::arithmetic::power2::lemma_pow2_unfold(text.len());
    }
}

/// Whether `text` is binary text that stands for a byte.
pub fn is_bin(text: &str) -> (r: bool)
    ensures
        r == is_bin_text(text@),
{
    if !text.is_ascii() {
        return false;
    }
    broadcast use vstd::string::is_ascii_spec_bytes;

    let bytes: &[u8] = text.as_bytes();
    let len: usize = bytes.len();
    if len == 0 || len > 8 {
        return false;
    }
    let mut i: usize = 0;
    while i < len
        invariant
            i <= len,
            len == text@.len(),
            bytes@ == Seq::new(text@.len(), |k: int| text@[k] as u8),
            vstd::string::is_ascii(text),
            forall|k: int| 0 <= k < i ==> #[trigger] text@[k] == '0' || text@[k] == '1',
        decreases len - i,
    {
        if bytes[i] != CODE_0 && bytes[i] != CODE_1 {
            assert(text@[i as int] != '0' && text@[i as int] != '1');
            return false;
        }
        assert(text@[i as int] as u8 == bytes@[i as int]);
        i += 1;
    }
    true
}

/// The byte that binary text stands for.
pub fn bin_to_u8(b: &Bin) -> (r: u8)
    requires
        is_bin_text(b@),
    ensures
        r == bin_value(b@),
{
    broadcast use vstd::string::is_ascii_spec_bytes;

    let text: &str = b.as_str();
    assert(vstd::string::is_ascii(text));
    let bytes: &[u8] = text.as_bytes();
    let len: usize = bytes.len();
    let mut acc: u8 = 0;
    let mut i: usize = 0;
    while i < len
        invariant
            i <= len,
            len == text@.len(),
            len <= 8,
            text@ == b@,
            is_bin_text(text@),
            bytes@ == Seq::new(text@.len(), |k: int| text@[k] as u8),
            acc == bin_value(text@.take(i as int)),
        decreases len - i,
    {
        let digit: u8 = if bytes[i] == CODE_1 {
            1
        } else {
            0
        };
        proof {
            let upto = text@.take(i as int + 1);
            assert(upto.drop_last() =~= text@.take(i as int));
            assert(upto.last() == text@[i as int]);
            assert(text@[i as int] as u8 == bytes@[i as int]);
            lemma_bin_value_bound(upto);
            assert(vstd::arithmetic::power2::pow2(upto.len()) <= 256) by {
                vstd::arithmetic::power2::lemma2_to64();
                if upto.len() < 8 {
                    vstd::arithmetic::power2::lemma_pow2_strictly_increases(upto.len(), 8);
                }
            }
        }
        acc = acc * 2 + digit;
        i += 1;
    }
    assert(text@.take(len as int) =~= text@);
    acc
}

/// The value of the hexadecimal digit with character code `b`, if it is one.
fn hex_value_of(b: u8) -> (r: Option<u8>)
    ensures
        r == hex_value(b as char),
{
    if CODE_0 <= b && b <= CODE_9 {
        Some(b - CODE_0)
    } else if CODE_LOWER_A <= b && b <= CODE_LOWER_F {
        Some(b - CODE_LOWER_A + 10)
    } else if CODE_UPPER_A <= b && b <= CODE_UPPER_F {
        Some(b - CODE_UPPER_A + 10)
    } else {
        None
    }
}

/// Whether `text` is hexadecimal text that stands for bytes.
pub fn is_hex(text: &str) -> (r: bool)
    ensures
        r == is_hex_text(text@),
{
    if !text.is_ascii() {
        assert(!is_hex_text(text@));
        return false;
    }
    broadcast use vstd::string::is_ascii_spec_bytes;

    let bytes: &[u8] = text.as_bytes();
    let len: usize = bytes.len();
    if len % 2 != 0 {
        return false;
    }
    let mut i: usize = 0;
    while i < len
        invariant
            i <= len,
            len == text@.len(),
            bytes@ == Seq::new(text@.len(), |k: int| text@[k] as u8),
            vstd::string::is_ascii(text),
            forall|k: int| 0 <= k < i ==> hex_value(#[trigger] text@[k]) is Some,
        decreases len - i,
    {
        assert(text@[i as int] as u8 == bytes@[i as int]);
        assert(bytes@[i as int] as char == text@[i as int]);
        if hex_value_of(bytes[i]).is_none() {
            return false;
        }
        i += 1;
    }
    true
}

/// The byte that a pair of hexadecimal digits stands for.
pub fn hex_to_u8(h: &str) -> (r: u8)
    requires
        h@.len() == 2,
        is_hex_text(h@),
    ensures
        r == hex_pair_value(h@[0], h@[1]),
{
    broadcast use vstd::string::is_ascii_spec_bytes;

    assert(vstd::string::is_ascii(h)) by {
        assert forall|i: int| 0 <= i < h@.len() implies '\0' <= #[trigger] h@[i] <= '\u{7f}' by {
            assert(hex_value(h@[i]) is Some);
        }
    }
    let bytes: &[u8] = h.as_bytes();
    assert(bytes@[0] as char == h@[0]);
    assert(bytes@[1] as char == h@[1]);
    assert(hex_value(h@[0]) is Some);
    assert(hex_value(h@[1]) is Some);
    let hi: u8 = hex_value_of(bytes[0]).unwrap();
    let lo: u8 = hex_value_of(bytes[1]).unwrap();
    16 * hi + lo
}


/// The first `k` binary digits of a byte stand for the byte without its low
/// `8 - k` bits.
proof fn lemma_bin_prefix_value(n: u8, k: nat)
    requires
        k <= 8,
    ensures
        bin_value(bin_text(n).take(k as int)) == n as int / vstd::arithmetic::power2::pow2(
            (8 - k) as nat,
        ) as int,
    decreases k,
{
    vstd::arithmetic::power2::lemma2_to64();
    let text = bin_text(n);
    if k == 0 {
        assert(text.take(0).len() == 0);
        assert(n as int / 256 == 0);
    } else {
        let j = (k - 1) as nat;
        lemma_bin_prefix_value(n, j);
        let upto = text.take(k as int);
        assert(upto.len() == k);
        assert(upto.drop_last() =~= text.take(j as int));
        assert(upto.last() == bin_digit(n, j as int));
        let low = vstd::arithmetic::power2::pow2((8 - k) as nat) as int;
        let high = vstd::arithmetic::power2::pow2((8 - j) as nat) as int;
        assert((8 - j) as nat == (8 - k) as nat + 1);
        assert((7 - j) as nat == (8 - k) as nat);
        vstd::arithmetic::power2::lemma_pow2_unfold((8 - j) as nat);
        vstd::arithmetic::power2::lemma_pow2_pos((8 - k) as nat);
        assert(high == low * 2);
        vstd::arithmetic::div_mod::lemma_div_denominator(n as int, low, 2);
        let q = n as int / low;
        assert(n as int / high == q / 2);
        assert(q == 2 * (q / 2) + q % 2) by {
            vstd::arithmetic::div_mod::lemma_fundamental_div_mod(q, 2);
        }
        assert(bin_value(text.take(j as int)) == q / 2);
        assert(upto.last() == if q % 2 == 1 {
            '1'
        } else {
            '0'
        });
        assert(0 <= q % 2 < 2);
        assert(bin_value(upto) == 2 * bin_value(upto.drop_last()) + if upto.last() == '1' {
            1nat
        } else {
            0nat
        });
    }
}

/// Binary text written for a byte is binary text, and stands for that byte.
pub proof fn lemma_bin_round_trip(n: u8)
    ensures
        is_bin_text(bin_text(n)),
        bin_value(bin_text(n)) == n,
{
    vstd::arithmetic::power2::lemma2_to64();
    lemma_bin_prefix_value(n, 8);
    assert(bin_text(n).take(8) =~= bin_text(n));
    assert(bin_value(bin_text(n).take(8)) == n as int / 1);
    assert forall|i: int| 0 <= i < bin_text(n).len() implies #[trigger] bin_text(n)[i] == '0'
        || bin_text(n)[i] == '1' by {
        assert(bin_text(n)[i] == bin_digit(n, i));
    }
}

/// Hexadecimal text written for bytes is hexadecimal text, and stands for
/// those bytes.
pub proof fn lemma_hex_round_trip(bytes: Seq<u8>)
    ensures
        is_hex_text(hex_text(bytes)),
        bytes_of_hex(hex_text(bytes)) == bytes,
{
    let text = hex_text(bytes);
    assert forall|v: int| 0 <= v < 16 implies hex_value(#[trigger] hex_digit(v)) == Some(
        v as u8,
    ) by {}
    assert forall|i: int| 0 <= i < text.len() implies hex_value(#[trigger] text[i]) is Some by {
        let b = bytes[i / 2] as int;
        assert(0 <= b / 16 < 16 && 0 <= b % 16 < 16);
    }
    assert forall|i: int| 0 <= i < bytes.len() implies bytes_of_hex(text)[i] == bytes[i] by {
        let b = bytes[i] as int;
        assert((2 * i) / 2 == i && (2 * i + 1) / 2 == i);
        assert((2 * i) % 2 == 0 && (2 * i + 1) % 2 == 1);
        assert(text[2 * i] == hex_digit(b / 16));
        assert(text[2 * i + 1] == hex_digit(b % 16));
        assert(0 <= b / 16 < 16 && 0 <= b % 16 < 16);
        assert(16 * (b / 16) + b % 16 == b);
    }
    assert(bytes_of_hex(text) =~= bytes);
}

/// Texts joined into one, with `sep` between neighbours.
pub open spec fn joined(texts: Seq<Seq<char>>, sep: char) -> Seq<char>
    decreases texts.len(),
{
    if texts.len() == 0 {
        Seq::<char>::empty()
    } else if texts.len() == 1 {
        texts[0]
    } else {
        joined(texts.drop_last(), sep).push(sep) + texts.last()
    }
}

impl Bins {
    /// The texts of the bytes, as sequences of characters.
    pub open spec fn texts(&self) -> Seq<Seq<char>> {
        self.0@.map_values(|text: Bin| text@)
    }

    /// The binary text of all bytes in one string, a space between
    /// neighbours.
    pub fn to_text(&self) -> (r: String)
        ensures
            r@ == joined(self.texts(), ' '),
    {
        let texts: &[Bin] = self.0.as_slice();
        let len: usize = texts.len();
        let mut out: String = String::new();
        let mut i: usize = 0;
        while i < len
            invariant
                i <= len,
                len == texts@.len(),
                texts@ == self.0@,
                out@ == joined(self.texts().take(i as int), ' '),
            decreases len - i,
        {
            proof {
                let upto = self.texts().take(i as int + 1);
                assert(upto.drop_last() =~= self.texts().take(i as int));
                assert(upto.last() == texts@[i as int]@);
                assert(Seq::<char>::empty() + upto.last() =~= upto.last());
            }
            if i > 0 {
                string_push(&mut out, ' ');
            }
            out.append(texts[i].as_str());
            i += 1;
        }
        assert(self.texts().take(len as int) =~= self.texts());
        out
    }
}

impl View for Bytes {
    type V = Seq<u8>;

    /// The bytes, in order.
    open spec fn view(&self) -> Seq<u8> {
        self.vec@
    }
}

impl Bytes {
    /// The bytes as a borrowed window.
    pub fn as_slice(&self) -> (r: &[u8])
        ensures
            r@ == self@,
    {
        self.vec.as_slice()
    }

    /// A value holding a copy of `from`.
    pub fn from_bytes(from: &[u8]) -> (r: Self)
        ensures
            r.vec.wf(),
            r@ == from@,
    {
        Bytes { vec: Vector::from(vstd::slice::slice_to_vec(from)) }
    }

    /// The bytes as hexadecimal text: two lower-case digits for each byte, high
    /// four bits first.
    pub fn to_hex(&self) -> (r: Hex)
        ensures
            r.0@ == hex_text(self@),
    {
        let bytes: &[u8] = self.vec.as_slice();
        let len: usize = bytes.len();
        let mut text: String = String::new();
        let mut i: usize = 0;
        while i < len
            invariant
                i <= len,
                len == bytes@.len(),
                bytes@ == self@,
                text@ == hex_text(self@.take(i as int)),
            decreases len - i,
        {
            let b: u8 = bytes[i];
            string_push(&mut text, hex_digit_of(b / 16));
            string_push(&mut text, hex_digit_of(b % 16));
            i += 1;
            assert(text@ =~= hex_text(self@.take(i as int)));
        }
        assert(self@.take(len as int) =~= self@);
        Hex(text)
    }

    /// The bytes as binary text: for each byte one string of eight digits, most
    /// significant bit first.
    pub fn to_bin(&self) -> (r: Bins)
        ensures
            r.0.wf(),
            r.0@.len() == self@.len(),
            forall|i: int| 0 <= i < self@.len() ==> (#[trigger] r.0@[i])@ == bin_text(self@[i]),
    {
        let bytes: &[u8] = self.vec.as_slice();
        let len: usize = bytes.len();
        let mut texts: Vec<Bin> = Vec::new();
        let mut i: usize = 0;
        while i < len
            invariant
                i <= len,
                len == bytes@.len(),
                bytes@ == self@,
                texts@.len() == i,
                forall|k: int| 0 <= k < i ==> (#[trigger] texts@[k])@ == bin_text(self@[k]),
            decreases len - i,
        {
            let text: Bin = u8_to_bin(&bytes[i]);
            texts.push(text);
            i += 1;
        }
        Bins(Vector::from(texts))
    }

    /// The bytes that binary text stands for, one for each string.
    pub fn from_bins(from: &Bins) -> (r: Self)
        requires
            forall|i: int| 0 <= i < from.0@.len() ==> is_bin_text((#[trigger] from.0@[i])@),
        ensures
            r.vec.wf(),
            r@.len() == from.0@.len(),
            forall|i: int| 0 <= i < r@.len() ==> #[trigger] r@[i] == bin_value(from.0@[i]@),
    {
        let texts: &[Bin] = from.0.as_slice();
        let len: usize = texts.len();
        let mut bytes: Vec<u8> = Vec::new();
        let mut i: usize = 0;
        while i < len
            invariant
                i <= len,
                len == texts@.len(),
                texts@ == from.0@,
                forall|k: int| 0 <= k < texts@.len() ==> is_bin_text((#[trigger] texts@[k])@),
                bytes@.len() == i,
                forall|k: int| 0 <= k < i ==> #[trigger] bytes@[k] == bin_value(texts@[k]@),
            decreases len - i,
        {
            let b: u8 = bin_to_u8(&texts[i]);
            bytes.push(b);
            i += 1;
        }
        Bytes { vec: Vector::from(bytes) }
    }

    /// The bytes that hexadecimal text stands for, one for each pair of
    /// digits.
    pub fn from_hex(from: &Hex) -> (r: Self)
        requires
            is_hex_text(from.0@),
        ensures
            r.vec.wf(),
            r@ == bytes_of_hex(from.0@),
    {
        broadcast use vstd::string::is_ascii_spec_bytes;

        let text: &str = from.0.as_str();
        assert(vstd::string::is_ascii(text)) by {
            assert forall|i: int| 0 <= i < text@.len() implies '\0' <= #[trigger] text@[i]
                <= '\u{7f}' by {
                assert(hex_value(text@[i]) is Some);
            }
        }
        let digits: &[u8] = text.as_bytes();
        let len: usize = digits.len();
        let mut bytes: Vec<u8> = Vec::new();
        let mut i: usize = 0;
        while i < len
            invariant
                i <= len,
                i % 2 == 0,
                len % 2 == 0,
                len == text@.len(),
                text@ == from.0@,
                is_hex_text(text@),
                digits@ == Seq::new(text@.len(), |k: int| text@[k] as u8),
                bytes@.len() == i / 2,
                bytes@ == bytes_of_hex(text@.take(i as int)),
            decreases len - i,
        {
            assert(digits@[i as int] as char == text@[i as int]);
            assert(digits@[i as int + 1] as char == text@[i as int + 1]);
            assert(hex_value(text@[i as int]) is Some);
            assert(hex_value(text@[i as int + 1]) is Some);
            let hi: u8 = hex_value_of(digits[i]).unwrap();
            let lo: u8 = hex_value_of(digits[i + 1]).unwrap();
            bytes.push(16 * hi + lo);
            i += 2;
            assert(bytes@ =~= bytes_of_hex(text@.take(i as int)));
        }
        assert(text@.take(len as int) =~= text@);
        Bytes { vec: Vector::from(bytes) }
    }
}


/// `256^n`.
pub open spec fn pow256(n: nat) -> nat
    decreases n,
{
    if n == 0 {
        1
    } else {
        256 * pow256((n - 1) as nat)
    }
}

/// The number that bytes stand for, least significant byte first.
pub open spec fn le_value(bytes: Seq<u8>) -> nat
    decreases bytes.len(),
{
    if bytes.len() == 0 {
        0
    } else {
        bytes[0] as nat + 256 * le_value(bytes.drop_first())
    }
}

/// The `n` low bytes of a number, least significant byte first.
pub open spec fn le_bytes(u: nat, n: nat) -> Seq<u8>
    decreases n,
{
    if n == 0 {
        Seq::<u8>::empty()
    } else {
        seq![(u % 256) as u8] + le_bytes(u / 256, (n - 1) as nat)
    }
}

/// A number below `2^128` read as a signed integer in two's complement.
pub open spec fn as_signed(u: nat) -> int {
    if u < 0x8000_0000_0000_0000_0000_0000_0000_0000 {
        u as int
    } else {
        u - 0x1_0000_0000_0000_0000_0000_0000_0000_0000
    }
}

/// A signed integer as the number below `2^128` that stands for it in two's
/// complement.
pub open spec fn as_unsigned(x: i128) -> nat {
    if x >= 0 {
        x as nat
    } else {
        (x + 0x1_0000_0000_0000_0000_0000_0000_0000_0000) as nat
    }
}

/// `256^16` is `2^128`, and the powers below it are smaller.
pub proof fn lemma_pow256_values(n: nat)
    requires
        n <= 16,
    ensures
        pow256(16) == 0x1_0000_0000_0000_0000_0000_0000_0000_0000,
        0 < pow256(n) <= pow256(16),
        n < 16 ==> 256 * pow256(n) <= pow256(16),
{
    reveal_with_fuel(pow256, 18);
}

/// Bytes stand for a number below `256^len`.
pub proof fn lemma_le_value_bound(bytes: Seq<u8>)
    ensures
        le_value(bytes) < pow256(bytes.len()),
    decreases bytes.len(),
{
    if bytes.len() > 0 {
        lemma_le_value_bound(bytes.drop_first());
    }
}

/// The `n` low bytes of a number are `n` bytes and stand for the number
/// modulo `256^n`.
pub proof fn lemma_le_bytes_value(u: nat, n: nat)
    ensures
        le_bytes(u, n).len() == n,
        pow256(n) > 0,
        le_value(le_bytes(u, n)) == u % pow256(n),
    decreases n,
{
    if n > 0 {
        let m = (n - 1) as nat;
        lemma_le_bytes_value(u / 256, m);
        let bytes = le_bytes(u, n);
        assert(bytes.drop_first() =~= le_bytes(u / 256, m));
        assert(bytes[0] == (u % 256) as u8);
        vstd::arithmetic::div_mod::lemma_mod_breakdown(u as int, 256, pow256(m) as int);
    }
}

/// A signed integer written as sixteen bytes and read back is the same
/// integer.
pub proof fn lemma_int_round_trip(x: i128)
    ensures
        le_bytes(as_unsigned(x), 16).len() == 16,
        as_signed(le_value(le_bytes(as_unsigned(x), 16))) == x,
{
    lemma_pow256_values(16);
    lemma_le_bytes_value(as_unsigned(x), 16);
    vstd::arithmetic::div_mod::lemma_small_mod(as_unsigned(x), pow256(16));
}

impl Bytes {
    /// The bytes read as a signed integer, least significant byte first, with
    /// the bytes that are missing up to sixteen taken as zero. More than
    /// sixteen bytes do not fit.
    pub fn to_int128(&self) -> (r: Result<i128, String>)
        ensures
            self@.len() > 16 ==> r is Err && r.unwrap_err()@ == "Bytes length is too big"@,
            self@.len() <= 16 ==> r is Ok && r.unwrap() as int == as_signed(le_value(self@)),
    {
        broadcast use vstd::layout::layout_of_primitives;

        let bytes: &[u8] = self.vec.as_slice();
        let len: usize = bytes.len();
        if self.vec.len_bytes() > 16 {
            return Err(String::from_str("Bytes length is too big"));
        }
        let mut acc: u128 = 0;
        let mut i: usize = len;
        assert(self@.skip(len as int) =~= Seq::<u8>::empty());
        while i > 0
            invariant
                i <= len,
                len <= 16,
                len == bytes@.len(),
                bytes@ == self@,
                acc == le_value(self@.skip(i as int)),
            decreases i,
        {
            proof {
                let rest = self@.skip(i as int);
                let more = self@.skip(i as int - 1);
                assert(more.drop_first() =~= rest);
                assert(more[0] == self@[i as int - 1]);
                lemma_le_value_bound(rest);
                lemma_le_value_bound(more);
                lemma_pow256_values(rest.len());
                lemma_pow256_values(more.len());
            }
            i -= 1;
            acc = acc * 256 + bytes[i] as u128;
        }
        assert(self@.skip(0) =~= self@);
        proof {
            lemma_le_value_bound(self@);
            lemma_pow256_values(self@.len());
        }
        let half: u128 = 0x8000_0000_0000_0000_0000_0000_0000_0000;
        if acc < half {
            Ok(acc as i128)
        } else {
            Ok((acc - half) as i128 + i128::MIN)
        }
    }

    /// The sixteen bytes of a signed integer in two's complement, least
    /// significant byte first.
    pub fn from_int(from: &i128) -> (r: Self)
        ensures
            r.vec.wf(),
            r@ == le_bytes(as_unsigned(*from), 16),
    {
        let half: u128 = 0x8000_0000_0000_0000_0000_0000_0000_0000;
        let unsigned: u128 = if *from >= 0 {
            *from as u128
        } else {
            (*from - i128::MIN) as u128 + half
        };
        let mut rest: u128 = unsigned;
        let mut buf: Vec<u8> = Vec::new();
        let mut i: usize = 0;
        while i < 16
            invariant
                i <= 16,
                unsigned == as_unsigned(*from),
                buf@.len() == i,
                buf@ + le_bytes(rest as nat, (16 - i) as nat) == le_bytes(unsigned as nat, 16),
            decreases 16 - i,
        {
            let b: u8 = (rest % 256) as u8;
            proof {
                let tail = le_bytes(rest as nat / 256, (16 - i - 1) as nat);
                assert(le_bytes(rest as nat, (16 - i) as nat) == seq![b] + tail);
                assert(buf@.push(b) + tail =~= buf@ + (seq![b] + tail));
            }
            buf.push(b);
            rest = rest / 256;
            i += 1;
        }
        assert(buf@ + le_bytes(rest as nat, 0) =~= buf@);
        Bytes { vec: Vector::from(buf) }
    }
}


impl From<Vector<u8>> for Bytes {
    /// Wraps a container of bytes.
    fn from(value: Vector<u8>) -> (r: Self)
        ensures
            r.vec == value,
    {
        Bytes { vec: value }
    }
}

impl vstd::std_specs::convert::FromSpecImpl<Vector<u8>> for Bytes {
    open spec fn obeys_from_spec() -> bool {
        true
    }

    open spec fn from_spec(v: Vector<u8>) -> Self {
        Bytes { vec: v }
    }
}

impl From<Bytes> for Vector<u8> {
    /// Unwraps the container of bytes.
    fn from(value: Bytes) -> (r: Self)
        ensures
            r == value.vec,
    {
        value.vec
    }
}

impl vstd::std_specs::convert::FromSpecImpl<Bytes> for Vector<u8> {
    open spec fn obeys_from_spec() -> bool {
        true
    }

    open spec fn from_spec(v: Bytes) -> Self {
        v.vec
    }
}

impl From<Vec<u8>> for Bytes {
    /// Takes over a native vector of bytes. Nothing is copied.
    fn from(value: Vec<u8>) -> (r: Self)
        ensures
            r.vec.wf(),
            r@ == value@,
    {
        Bytes { vec: Vector::from(value) }
    }
}

impl vstd::std_specs::convert::FromSpecImpl<Vec<u8>> for Bytes {
    open spec fn obeys_from_spec() -> bool {
        false
    }

    open spec fn from_spec(v: Vec<u8>) -> Self {
        choose|r: Self| r@ == v@
    }
}

impl From<Bytes> for Vec<u8> {
    /// Hands the bytes over as a native vector. Nothing is copied.
    fn from(value: Bytes) -> (r: Self)
        ensures
            r@ == value@,
    {
        value.vec.into_vec()
    }
}

impl vstd::std_specs::convert::FromSpecImpl<Bytes> for Vec<u8> {
    open spec fn obeys_from_spec() -> bool {
        false
    }

    open spec fn from_spec(v: Bytes) -> Self {
        choose|r: Self| r@ == v@
    }
}

impl Default for Bytes {
    /// No bytes.
    fn default() -> (r: Self)
        ensures
            r.vec.wf(),
            r@ == Seq::<u8>::empty(),
    {
        broadcast use vstd::layout::layout_of_primitives;

        Bytes { vec: Vector::new() }
    }
}

} // verus!
