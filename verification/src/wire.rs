//! Byte-level building blocks of the iAP2 wire format: big-endian 16-bit
//! fields and the two's-complement byte checksums.

use vstd::prelude::*;

verus! {

/// Big-endian encoding of the low 16 bits of `v`.
pub open spec fn be16(v: int) -> Seq<u8> {
    seq![((v / 256) % 256) as u8, (v % 256) as u8]
}

/// The value of a big-endian 16-bit field.
pub open spec fn be16_value(hi: u8, lo: u8) -> int {
    hi as int * 256 + lo as int
}

/// The plain sum of the bytes of `s`.
pub open spec fn sum_of(s: Seq<u8>) -> int
    decreases s.len(),
{
    if s.len() == 0 {
        0
    } else {
        sum_of(s.drop_last()) + s.last() as int
    }
}

/// The byte that makes the bytes of `s` followed by it sum to zero modulo 256.
pub open spec fn checksum(s: Seq<u8>) -> u8 {
    ((256 - sum_of(s) % 256) % 256) as u8
}

pub proof fn lemma_sum_of_nonneg(s: Seq<u8>)
    ensures
        sum_of(s) >= 0,
    decreases s.len(),
{
    if s.len() > 0 {
        lemma_sum_of_nonneg(s.drop_last());
    }
}

/// Bytes followed by their checksum sum to zero modulo 256.
pub proof fn lemma_checksum_closes(s: Seq<u8>)
    ensures
        sum_of(s.push(checksum(s))) % 256 == 0,
{
    lemma_sum_of_nonneg(s);
    assert(s.push(checksum(s)).drop_last() =~= s);
}

/// Sums `data` with wrapping 8-bit addition.
pub fn wrapping_sum(data: &[u8]) -> (r: u8)
    ensures
        r as int == sum_of(data@) % 256,
{
    let mut sum: u8 = 0;
    let mut i: usize = 0;
    while i < data.len()
        invariant
            i <= data@.len(),
            sum as int == sum_of(data@.take(i as int)) % 256,
        decreases data@.len() - i,
    {
        proof {
            assert(data@.take(i + 1).drop_last() =~= data@.take(i as int));
            lemma_sum_of_nonneg(data@.take(i as int));
        }
        sum = sum.wrapping_add(data[i]);
        i = i + 1;
    }
    assert(data@.take(i as int) =~= data@);
    sum
}

/// The two's-complement checksum of `data`: the negated wrapping sum.
pub fn checksum_of(data: &[u8]) -> (r: u8)
    ensures
        r == checksum(data@),
{
    let sum = wrapping_sum(data);
    let inverted: u8 = !sum;
    assert(!sum == 255 - sum) by (bit_vector);
    inverted.wrapping_add(1)
}

/// Reads a big-endian 16-bit field.
pub fn read_be16(hi: u8, lo: u8) -> (r: u16)
    ensures
        r as int == be16_value(hi, lo),
{
    (hi as u16) * 256 + (lo as u16)
}

/// Appends the big-endian encoding of `v`.
pub fn push_be16(buf: &mut Vec<u8>, v: u16)
    ensures
        final(buf)@ == old(buf)@ + be16(v as int),
{
    buf.push((v / 256) as u8);
    buf.push((v % 256) as u8);
}

/// Appends the bytes of `s`.
pub fn push_bytes(buf: &mut Vec<u8>, s: &[u8])
    ensures
        final(buf)@ == old(buf)@ + s@,
{
    let ghost start = buf@;
    let mut i: usize = 0;
    while i < s.len()
        invariant
            i <= s@.len(),
            buf@ == start + s@.take(i as int),
        decreases s@.len() - i,
    {
        buf.push(s[i]);
        i = i + 1;
        proof {
            assert(s@.take(i as int) =~= s@.take(i - 1).push(s@[i - 1]));
        }
    }
    assert(s@.take(i as int) =~= s@);
}

/// A parameter of a control message: a 16-bit length that counts the four
/// header bytes and is truncated to 16 bits, a 16-bit id, and the data.
pub open spec fn param(id: u16, data: Seq<u8>) -> Seq<u8> {
    be16(((data.len() + 4) % 65536) as int) + be16(id as int) + data
}

/// The bytes of a string followed by a terminating zero byte.
pub open spec fn cstr(s: Seq<char>) -> Seq<u8> {
    vstd::utf8::encode_utf8(s).push(0)
}

/// The big-endian encodings of a list of 16-bit values, one after another.
pub open spec fn u16_list(s: Seq<u16>) -> Seq<u8>
    decreases s.len(),
{
    if s.len() == 0 {
        Seq::empty()
    } else {
        u16_list(s.drop_last()) + be16(s.last() as int)
    }
}

/// A control session message: the start bytes `40 40`, the 16-bit message
/// length (the four header bytes, the message id and the parameters, with
/// the id and parameters truncated to 16 bits), the message id and the
/// parameters.
pub open spec fn control_message(msg_id: u16, params: Seq<u8>) -> Seq<u8> {
    seq![0x40u8, 0x40u8] + be16(4 + ((2 + params.len()) % 65536) as int) + be16(msg_id as int) + params
}

/// Whether the length of a control message with `params_len` parameter
/// bytes can be added up in 16 bits.
pub open spec fn control_message_fits(params_len: int) -> bool {
    (2 + params_len) % 65536 + 4 <= 65535
}

/// Whether the length of a control message with `params_len` parameter
/// bytes can be added up in 16 bits.
pub fn fits_control_message(params_len: usize) -> (r: bool)
    ensures
        r == control_message_fits(params_len as int),
{
    let body = (params_len % 65536 + 2) % 65536;
    body + 4 <= 65535
}

/// Adding a small number commutes with reducing modulo 65536.
pub(crate) proof fn lemma_mod_shift(n: int, k: int)
    requires
        0 <= k < 65536,
    ensures
        (n % 65536 + k) % 65536 == (n + k) % 65536,
{
    vstd::arithmetic::div_mod::lemma_add_mod_noop(n, k, 65536);
    vstd::arithmetic::div_mod::lemma_small_mod(k as nat, 65536);
}

/// Frames a control session message around its id and parameters.
pub fn frame_control_message(msg_id: u16, params: &[u8]) -> (r: Vec<u8>)
    requires
        control_message_fits(params@.len() as int),
    ensures
        r@ == control_message(msg_id, params@),
{
    proof {
        lemma_mod_shift(params@.len() as int, 2);
    }
    let mut ctrl: Vec<u8> = Vec::new();
    ctrl.push(0x40);
    ctrl.push(0x40);
    let body_len: u16 = ((params.len() % 65536 + 2) % 65536) as u16;
    let msg_len: u16 = 2 + 2 + body_len;
    push_be16(&mut ctrl, msg_len);
    push_be16(&mut ctrl, msg_id);
    push_bytes(&mut ctrl, params);
    assert(ctrl@ =~= control_message(msg_id, params@));
    ctrl
}

/// Appends a parameter.
pub fn push_param(buf: &mut Vec<u8>, id: u16, data: &[u8])
    ensures
        final(buf)@ == old(buf)@ + param(id, data@),
{
    proof {
        lemma_mod_shift(data@.len() as int, 4);
    }
    let ghost start = buf@;
    let len: u16 = ((data.len() % 65536 + 4) % 65536) as u16;
    push_be16(buf, len);
    push_be16(buf, id);
    push_bytes(buf, data);
    assert(buf@ =~= start + param(id, data@));
}

/// The bytes of a string and a terminating zero byte.
pub fn cstr_bytes(s: &str) -> (r: Vec<u8>)
    ensures
        r@ == cstr(s@),
{
    let mut v: Vec<u8> = Vec::new();
    push_bytes(&mut v, s.as_bytes());
    v.push(0);
    assert(v@ =~= cstr(s@));
    v
}

/// Appends the big-endian encodings of a list of 16-bit values.
pub fn push_u16_list(buf: &mut Vec<u8>, list: &[u16])
    ensures
        final(buf)@ == old(buf)@ + u16_list(list@),
{
    let ghost start = buf@;
    let mut i: usize = 0;
    assert(list@.take(0) =~= Seq::<u16>::empty());
    while i < list.len()
        invariant
            i <= list@.len(),
            buf@ == start + u16_list(list@.take(i as int)),
        decreases list@.len() - i,
    {
        push_be16(buf, list[i]);
        proof {
            assert(list@.take(i + 1).drop_last() =~= list@.take(i as int));
        }
        i = i + 1;
        assert(buf@ =~= start + u16_list(list@.take(i as int)));
    }
    assert(list@.take(i as int) =~= list@);
}

/// A 16-bit value reads back from its big-endian encoding.
pub proof fn lemma_be16_reads_back(v: int)
    requires
        0 <= v < 65536,
    ensures
        be16(v).len() == 2,
        be16_value(be16(v)[0], be16(v)[1]) == v,
{
}

} // verus!
