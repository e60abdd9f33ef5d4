use crate::util::append_bytes;
use vstd::prelude::*;

verus! {

/// The value of a byte sequence read as a big-endian unsigned integer.
pub open spec fn be_value(s: Seq<u8>) -> nat
    decreases s.len(),
{
    if s.len() == 0 {
        0
    } else {
        be_value(s.drop_last()) * 256 + s.last() as nat
    }
}

/// `256` to the power `n`.
pub open spec fn pow256(n: nat) -> nat
    decreases n,
{
    if n == 0 {
        1
    } else {
        256 * pow256((n - 1) as nat)
    }
}

/// The ASN.1 integer header at `pos`: the index where its content starts
/// and the content's length. The header is the tag `0x02` and a length,
/// either one byte below 128 or `0x80 + n` followed by an `n`-byte
/// big-endian length, `n` at most four.
pub open spec fn separator(data: Seq<u8>, pos: int) -> Option<(int, int)> {
    if pos < 0 || pos + 1 >= data.len() || data[pos] != 0x02 {
        None
    } else if data[pos + 1] < 128 {
        Some((pos + 2, data[pos + 1] as int))
    } else {
        let n = data[pos + 1] - 128;
        if n > 4 || pos + 2 + n > data.len() {
            None
        } else {
            Some((pos + 2 + n, be_value(data.subrange(pos + 2, pos + 2 + n)) as int))
        }
    }
}

/// The ASN.1 integer at `pos`, as the range of its content, when the whole
/// content lies within the data.
pub open spec fn section(data: Seq<u8>, pos: int) -> Option<(int, int)> {
    match separator(data, pos) {
        Some((start, len)) => if start + len <= data.len() {
            Some((start, start + len))
        } else {
            None
        },
        None => None,
    }
}

/// The position after `count` consecutive ASN.1 integers from `pos`.
pub open spec fn skip_sections(data: Seq<u8>, pos: int, count: nat) -> Option<int>
    decreases count,
{
    if count == 0 {
        Some(pos)
    } else {
        match section(data, pos) {
            Some((_start, end)) => skip_sections(data, end, (count - 1) as nat),
            None => None,
        }
    }
}

/// A DER length: one byte below 128, else `0x82` and two bytes.
pub open spec fn der_length(len: nat) -> Seq<u8> {
    if len >= 128 {
        seq![0x82u8, (len / 256) as u8, (len % 256) as u8]
    } else {
        seq![len as u8]
    }
}

/// The DER header of an integer whose content is `len` bytes long.
pub open spec fn der_int_header(len: nat) -> Seq<u8> {
    seq![0x02u8] + der_length(len)
}

/// The length of the content of the public key sequence.
pub open spec fn public_content_len(modulus: Seq<u8>, pub_exp: Seq<u8>) -> nat {
    der_int_header(modulus.len()).len() + modulus.len() + der_int_header(pub_exp.len()).len()
        + pub_exp.len()
}

/// The DER encoding of an RSA public key: a sequence of the modulus and
/// the public exponent.
pub open spec fn public_der_of(modulus: Seq<u8>, pub_exp: Seq<u8>) -> Seq<u8> {
    seq![0x30u8] + der_length(public_content_len(modulus, pub_exp)) + der_int_header(modulus.len())
        + modulus + der_int_header(pub_exp.len()) + pub_exp
}

/// The public key, in DER, of a DER RSA private key: the second and third
/// of the nine integers that follow the four-byte sequence header (modulus
/// and public exponent). Nothing when the nine integers are not all there
/// or the public key would not fit a two-byte DER length.
pub open spec fn public_der(data: Seq<u8>) -> Option<Seq<u8>> {
    if data.len() < 4 || skip_sections(data, 4, 9) is None {
        None
    } else {
        let m_at = skip_sections(data, 4, 1)->Some_0;
        let e_at = skip_sections(data, 4, 2)->Some_0;
        let (m_start, m_end) = section(data, m_at)->Some_0;
        let (e_start, e_end) = section(data, e_at)->Some_0;
        let modulus = data.subrange(m_start, m_end);
        let pub_exp = data.subrange(e_start, e_end);
        if public_content_len(modulus, pub_exp) > 0xffff {
            None
        } else {
            Some(public_der_of(modulus, pub_exp))
        }
    }
}

/// Parses an ASN.1 integer header at `pos`. Returns the index where its
/// content starts and the content's length in bytes.
fn parse_separator(data: &Vec<u8>, pos: usize) -> (r: Option<(usize, u32)>)
    ensures
        match separator(data@, pos as int) {
            Some((start, len)) => r == Some((start as usize, len as u32)) && len < 0x1_0000_0000,
            None => r is None,
        },
{
    if pos >= data.len() || data.len() - pos < 2 || data[pos] != 0x02 {
        return None;
    }
    let first = data[pos + 1];
    if first < 128 {
        return Some((pos + 2, first as u32));
    }
    let total_bytes: usize = (first - 128) as usize;
    if total_bytes > 4 || data.len() - (pos + 2) < total_bytes {
        return None;
    }
    let mut acc: u32 = 0;
    let mut i: usize = 0;
    while i < total_bytes
        invariant
            total_bytes <= 4,
            pos + 2 + total_bytes <= data@.len() <= usize::MAX,
            i <= total_bytes,
            acc == be_value(data@.subrange(pos + 2, pos + 2 + i)),
            acc < pow256(i as nat),
        decreases total_bytes - i,
    {
        let val: u32 = data[pos + 2 + i] as u32;
        let ghost prefix = data@.subrange(pos + 2, pos + 2 + i + 1);
        assert(prefix.drop_last() == data@.subrange(pos + 2, pos + 2 + i));
        assert(pow256((i + 1) as nat) == 256 * pow256(i as nat));
        proof {
            lemma_pow256_four();
        }
        assert(pow256((i + 1) as nat) <= 0x1_0000_0000) by {
            lemma_pow256_monotone((i + 1) as nat, 4);
        }
        assert(acc * 256 + val < pow256((i + 1) as nat)) by (nonlinear_arith)
            requires
                acc < pow256(i as nat),
                val < 256,
                pow256((i + 1) as nat) == 256 * pow256(i as nat),
        ;
        acc = acc * 256 + val;
        i = i + 1;
    }
    Some((pos + 2 + total_bytes, acc))
}

proof fn lemma_pow256_four()
    ensures
        pow256(4) == 0x1_0000_0000,
{
    assert(pow256(0) == 1);
    assert(pow256(1) == 256);
    assert(pow256(2) == 0x1_0000);
    assert(pow256(3) == 0x100_0000);
}

proof fn lemma_pow256_monotone(a: nat, b: nat)
    requires
        a <= b,
    ensures
        pow256(a) <= pow256(b),
    decreases b,
{
    if a < b {
        lemma_pow256_monotone(a, (b - 1) as nat);
    }
}

/// Reads the ASN.1 integer at `*pos` and moves `*pos` past it. Returns the
/// range of its content.
fn next_section(data: &Vec<u8>, pos: &mut usize) -> (r: Option<(usize, usize)>)
    ensures
        match section(data@, *old(pos) as int) {
            Some((start, end)) => r == Some((start as usize, end as usize)) && *final(pos) == end,
            None => r is None,
        },
{
    match parse_separator(data, *pos) {
        None => None,
        Some((start, len)) => {
            if data.len() - start < len as usize {
                None
            } else {
                let end = start + len as usize;
                *pos = end;
                Some((start, end))
            }
        },
    }
}

/// Copies `data[start..end]` into a new vector.
fn copy_range(data: &Vec<u8>, start: usize, end: usize) -> (r: Vec<u8>)
    requires
        start <= end <= data@.len(),
    ensures
        r@ == data@.subrange(start as int, end as int),
{
    let mut out: Vec<u8> = Vec::new();
    let mut i: usize = start;
    while i < end
        invariant
            start <= i <= end <= data@.len(),
            out@ == data@.subrange(start as int, i as int),
        decreases end - i,
    {
        out.push(data[i]);
        i = i + 1;
        assert(out@ =~= data@.subrange(start as int, i as int));
    }
    out
}

/// Parses a DER RSA private key (as `openssl genpkey -outform DER` writes
/// it) and returns its public key in DER. Returns `None` when the key is
/// malformed, or its public key does not fit a two-byte DER length.
pub fn get_public_der(key_data: &Vec<u8>) -> (r: Option<Vec<u8>>)
    ensures
        match public_der(key_data@) {
            Some(der) => r matches Some(v) && v@ == der,
            None => r is None,
        },
{
    if key_data.len() < 4 {
        return None;
    }
    let mut pos: usize = 4;
    let ghost data = key_data@;
    let alg = next_section(key_data, &mut pos);
    if alg.is_none() {
        return None;
    }
    let ghost p1 = pos;
    assert(skip_sections(data, 4, 9) == skip_sections(data, p1 as int, 8));
    let modulus_range = next_section(key_data, &mut pos);
    let (m_start, m_end) = match modulus_range {
        None => {
            assert(skip_sections(data, p1 as int, 8) is None);
            return None;
        },
        Some(range) => range,
    };
    let ghost p2 = pos;
    assert(skip_sections(data, 4, 9) == skip_sections(data, p2 as int, 7));
    let pub_exp_range = next_section(key_data, &mut pos);
    let (e_start, e_end) = match pub_exp_range {
        None => {
            assert(skip_sections(data, p2 as int, 7) is None);
            return None;
        },
        Some(range) => range,
    };
    assert(skip_sections(data, 4, 1) == skip_sections(data, p1 as int, 0));
    assert(skip_sections(data, 4, 2) == skip_sections(data, p1 as int, 1));
    assert(skip_sections(data, p1 as int, 1) == skip_sections(data, p2 as int, 0));
    assert(skip_sections(data, 4, 9) == skip_sections(data, pos as int, 6));
    let mut remaining: usize = 6;
    while remaining > 0
        invariant
            remaining <= 6,
            skip_sections(data, 4, 9) == skip_sections(data, pos as int, remaining as nat),
            key_data@ == data,
        decreases remaining,
    {
        let before = pos;
        if next_section(key_data, &mut pos).is_none() {
            assert(skip_sections(data, before as int, remaining as nat) is None);
            return None;
        }
        remaining = remaining - 1;
    }
    let modulus = copy_range(key_data, m_start, m_end);
    let pub_exp = copy_range(key_data, e_start, e_end);
    let m_header: usize = if modulus.len() >= 128 { 4 } else { 2 };
    let e_header: usize = if pub_exp.len() >= 128 { 4 } else { 2 };
    assert(der_int_header(modulus@.len()).len() == m_header);
    assert(der_int_header(pub_exp@.len()).len() == e_header);
    if modulus.len() > 0xffff || pub_exp.len() > 0xffff || m_header + modulus.len() + e_header + pub_exp.len() > 0xffff {
        return None;
    }
    Some(export_public_der(&modulus, &pub_exp))
}

/// Appends the DER length `len` to `out`.
fn push_der_length(out: &mut Vec<u8>, len: usize)
    requires
        len <= 0xffff,
    ensures
        final(out)@ == old(out)@ + der_length(len as nat),
{
    if len >= 128 {
        out.push(0x82);
        out.push((len / 256) as u8);
        out.push((len % 256) as u8);
    } else {
        out.push(len as u8);
    }
    assert(final(out)@ =~= old(out)@ + der_length(len as nat));
}

/// Encodes an RSA public key, from its modulus and public exponent, in DER.
fn export_public_der(modulus: &Vec<u8>, pub_exp: &Vec<u8>) -> (r: Vec<u8>)
    requires
        public_content_len(modulus@, pub_exp@) <= 0xffff,
    ensures
        r@ == public_der_of(modulus@, pub_exp@),
{
    let m_header: usize = if modulus.len() >= 128 { 4 } else { 2 };
    let e_header: usize = if pub_exp.len() >= 128 { 4 } else { 2 };
    assert(der_int_header(modulus@.len()).len() == m_header);
    assert(der_int_header(pub_exp@.len()).len() == e_header);
    let total_len: usize = m_header + modulus.len() + e_header + pub_exp.len();
    let mut public_der: Vec<u8> = Vec::new();
    public_der.push(0x30);
    push_der_length(&mut public_der, total_len);
    public_der.push(0x02);
    push_der_length(&mut public_der, modulus.len());
    append_bytes(&mut public_der, modulus.as_slice());
    public_der.push(0x02);
    push_der_length(&mut public_der, pub_exp.len());
    append_bytes(&mut public_der, pub_exp.as_slice());
    assert(public_der@ =~= public_der_of(modulus@, pub_exp@));
    public_der
}

} // verus!
