use byteorder::ByteOrder;
use sha2::Digest;
use vstd::prelude::*;
use vstd::string::*;

verus! {

/// The SHA-256 digest of a byte sequence.
pub uninterp spec fn sha256_of(data: Seq<u8>) -> Seq<u8>;

/// The `len` low-order bytes of `n`, most significant first.
pub open spec fn be_bytes(n: nat, len: nat) -> Seq<u8>
    decreases len,
{
    if len == 0 {
        Seq::empty()
    } else {
        be_bytes(n / 256, (len - 1) as nat).push((n % 256) as u8)
    }
}

/// Performs a SHA-256 hash of arbitrary binary data.
///
/// Relies on `sha2::Sha256::digest`: the 32-byte SHA-256 digest of the input.
#[verifier::external_body]
pub fn hash(binary: &Vec<u8>) -> (r: [u8; 32])
    ensures
        r@ == sha256_of(binary@),
{
    sha2::Sha256::digest(binary.as_slice()).into()
}

/// Relies on `byteorder::BigEndian::write_u128`: the sixteen bytes of `n`,
/// most significant first.
#[verifier::external_body]
pub(crate) fn u128_to_be(n: u128) -> (r: [u8; 16])
    ensures
        r@ == be_bytes(n as nat, 16),
{
    let mut buf = [0u8; 16];
    byteorder::BigEndian::write_u128(&mut buf, n);
    buf
}

/// Appends the bytes of `src` to `dst`.
pub fn append_bytes(dst: &mut Vec<u8>, src: &[u8])
    ensures
        final(dst)@ == old(dst)@ + src@,
{
    let mut i: usize = 0;
    while i < src.len()
        invariant
            i <= src@.len(),
            dst@ == old(dst)@ + src@.subrange(0, i as int),
        decreases src@.len() - i,
    {
        dst.push(src[i]);
        i = i + 1;
        assert(src@.subrange(0, i as int) == src@.subrange(0, (i - 1) as int).push(src@[i - 1]));
    }
    assert(src@.subrange(0, src@.len() as int) == src@);
}

/// The text of a hexadecimal digit, lower case.
pub open spec fn hex_digit_text(n: u8) -> Seq<char> {
    if n == 0 { "0"@ } else if n == 1 { "1"@ } else if n == 2 { "2"@ } else if n == 3 { "3"@ }
    else if n == 4 { "4"@ } else if n == 5 { "5"@ } else if n == 6 { "6"@ } else if n == 7 { "7"@ }
    else if n == 8 { "8"@ } else if n == 9 { "9"@ } else if n == 10 { "a"@ } else if n == 11 { "b"@ }
    else if n == 12 { "c"@ } else if n == 13 { "d"@ } else if n == 14 { "e"@ } else { "f"@ }
}

/// The text of a byte in lower-case hexadecimal, without leading zero.
pub open spec fn hex_byte_text(b: u8) -> Seq<char> {
    if b < 16 {
        hex_digit_text(b)
    } else {
        hex_digit_text(b / 16) + hex_digit_text(b % 16)
    }
}

/// The bytes in hexadecimal, separated by `", "`.
pub open spec fn hex_items_text(s: Seq<u8>) -> Seq<char>
    decreases s.len(),
{
    if s.len() == 0 {
        Seq::empty()
    } else if s.len() == 1 {
        hex_byte_text(s[0])
    } else {
        hex_items_text(s.drop_last()) + ", "@ + hex_byte_text(s.last())
    }
}

/// The text of a byte list: the bytes in hexadecimal, in brackets.
pub open spec fn hex_list_text(s: Seq<u8>) -> Seq<char> {
    "["@ + hex_items_text(s) + "]"@
}

/// The text of one hexadecimal digit.
fn hex_digit_str(n: u8) -> (r: &'static str)
    requires
        n < 16,
    ensures
        r@ == hex_digit_text(n),
{
    if n == 0 { "0" } else if n == 1 { "1" } else if n == 2 { "2" } else if n == 3 { "3" }
    else if n == 4 { "4" } else if n == 5 { "5" } else if n == 6 { "6" } else if n == 7 { "7" }
    else if n == 8 { "8" } else if n == 9 { "9" } else if n == 10 { "a" } else if n == 11 { "b" }
    else if n == 12 { "c" } else if n == 13 { "d" } else if n == 14 { "e" } else { "f" }
}

/// Appends a byte in hexadecimal to `text`.
fn push_hex_byte(text: &mut String, b: u8)
    ensures
        final(text)@ == old(text)@ + hex_byte_text(b),
{
    if b < 16 {
        text.append(hex_digit_str(b));
    } else {
        text.append(hex_digit_str(b / 16));
        text.append(hex_digit_str(b % 16));
    }
}

/// The text of a byte in lower-case hexadecimal.
pub fn hex_byte(b: u8) -> (r: String)
    ensures
        r@ == hex_byte_text(b),
{
    let mut text = String::new();
    push_hex_byte(&mut text, b);
    text
}

/// The text of a byte list: the bytes in lower-case hexadecimal, separated
/// by `", "` and in brackets.
pub fn hex_list(bytes: &[u8]) -> (r: String)
    ensures
        r@ == hex_list_text(bytes@),
{
    let mut text = String::from_str("[");
    let mut i: usize = 0;
    while i < bytes.len()
        invariant
            i <= bytes@.len(),
            text@ == "["@ + hex_items_text(bytes@.subrange(0, i as int)),
        decreases bytes@.len() - i,
    {
        let ghost before = text@;
        let ghost prefix = bytes@.subrange(0, i + 1);
        assert(prefix.drop_last() =~= bytes@.subrange(0, i as int));
        if i > 0 {
            text.append(", ");
        }
        push_hex_byte(&mut text, bytes[i]);
        proof {
            if i == 0 {
                assert(bytes@.subrange(0, 0) =~= Seq::<u8>::empty());
            }
            assert(text@ =~= "["@ + hex_items_text(prefix));
        }
        i = i + 1;
    }
    assert(bytes@.subrange(0, bytes@.len() as int) =~= bytes@);
    text.append("]");
    text
}

} // verus!
