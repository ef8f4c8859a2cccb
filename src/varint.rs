//! Variable-length integers: big-endian, with the length in the two high bits
//! of the first byte (1, 2, 4 or 8 bytes), holding values below 2^62.
use vstd::arithmetic::div_mod::{
    lemma_breakdown, lemma_div_denominator, lemma_multiply_divide_lt, lemma_small_mod,
};
use vstd::prelude::*;
use vstd::slice::slice_subrange;

verus! {

/// The largest value a variable-length integer can hold, 2^62 - 1.
pub const VARINT_MAX: u64 = 0x3fff_ffff_ffff_ffff;

/// 256 raised to the power `k`.
pub open spec fn pow256(k: nat) -> nat
    decreases k,
{
    if k == 0 {
        1
    } else {
        256 * pow256((k - 1) as nat)
    }
}

/// Number of bytes of the shortest encoding of `v`.
pub open spec fn varint_len(v: nat) -> nat {
    if v < 0x40 {
        1
    } else if v < 0x4000 {
        2
    } else if v < 0x4000_0000 {
        4
    } else {
        8
    }
}

/// Length of an encoding, as its first byte announces it.
pub open spec fn varint_len_from_first(b: u8) -> nat {
    if b < 0x40 {
        1
    } else if b < 0x80 {
        2
    } else if b < 0xc0 {
        4
    } else {
        8
    }
}

/// The two high bits that mark an encoding of `n` bytes.
pub open spec fn len_marker(n: nat) -> u8 {
    if n == 1 {
        0x00
    } else if n == 2 {
        0x40
    } else if n == 4 {
        0x80
    } else {
        0xc0
    }
}

/// Byte `i` of the `n`-byte big-endian form of `v`.
pub open spec fn be_byte(v: nat, n: nat, i: nat) -> u8 {
    ((v / pow256((n - 1 - i) as nat)) % 256) as u8
}

/// The shortest encoding of `v`: its big-endian bytes, the length marked in
/// the first one.
pub open spec fn encode_varint(v: nat) -> Seq<u8> {
    let n = varint_len(v);
    Seq::new(
        n,
        |i: int|
            if i == 0 {
                be_byte(v, n, 0) | len_marker(n)
            } else {
                be_byte(v, n, i as nat)
            },
    )
}

/// Big-endian value of a byte string.
pub open spec fn be_value(s: Seq<u8>) -> nat
    decreases s.len(),
{
    if s.len() == 0 {
        0
    } else {
        be_value(s.drop_last()) * 256 + s.last() as nat
    }
}

/// Whether `s` starts with a whole encoding.
pub open spec fn varint_complete(s: Seq<u8>) -> bool {
    s.len() > 0 && s.len() >= varint_len_from_first(s[0])
}

/// The value encoded at the start of `s`, when `varint_complete(s)`.
pub open spec fn decode_varint(s: Seq<u8>) -> nat {
    let n = varint_len_from_first(s[0]);
    be_value(s.subrange(0, n as int).update(0, s[0] & 0x3f))
}

proof fn lemma_pow256_facts()
    ensures
        pow256(0) == 1,
        pow256(1) == 0x100,
        pow256(3) == 0x100_0000,
        pow256(7) == 0x0100_0000_0000_0000,
{
    reveal_with_fuel(pow256, 8);
}

proof fn lemma_pow256_mono(a: nat, b: nat)
    requires
        a <= b,
    ensures
        1 <= pow256(a) <= pow256(b),
    decreases b,
{
    if b > 0 && a < b {
        lemma_pow256_mono(a, (b - 1) as nat);
    } else if b > 0 {
        lemma_pow256_mono((a - 1) as nat, (b - 1) as nat);
    }
}

/// Every value of up to six bits is encoded as the one byte that holds it,
/// and that byte decodes back to it.
pub proof fn lemma_small_varint(v: nat)
    requires
        v < 0x40,
    ensures
        encode_varint(v) == seq![v as u8],
        varint_complete(encode_varint(v)),
        varint_len_from_first(encode_varint(v)[0]) == 1,
        decode_varint(encode_varint(v)) == v,
{
    let e = encode_varint(v);
    lemma_pow256_facts();
    let b = v as u8;
    assert(b | 0x00 == b) by (bit_vector);
    assert(v / pow256(0) == v);
    assert(v % 256 == v);
    assert(be_byte(v, 1, 0) == b);
    assert(len_marker(1) == 0);
    reveal_with_fuel(be_value, 2);
    assert(b < 0x40 ==> b & 0x3f == b) by (bit_vector);
    assert(e =~= seq![b]);
    let s = e.subrange(0, 1).update(0, e[0] & 0x3f);
    assert(s =~= seq![b]);
    assert(s.drop_last() =~= Seq::<u8>::empty());
}

/// The big-endian value of the `k` low bytes of `v` is `v` modulo 256^k.
proof fn lemma_be_value_of_bytes(v: nat, k: nat)
    ensures
        be_value(Seq::new(k, |i: int| be_byte(v, k, i as nat))) == v % pow256(k),
    decreases k,
{
    let s = Seq::new(k, |i: int| be_byte(v, k, i as nat));
    if k > 0 {
        let k1 = (k - 1) as nat;
        let t = Seq::new(k1, |i: int| be_byte(v / 256, k1, i as nat));
        assert forall|i: int| 0 <= i < k1 implies s.drop_last()[i] == t[i] by {
            let j = (k1 - 1 - i) as nat;
            lemma_pow256_mono(0, j);
            lemma_div_denominator(v as int, 256, pow256(j) as int);
            assert(pow256((k - 1 - i) as nat) == 256 * pow256(j));
        }
        assert(s.drop_last() =~= t);
        lemma_be_value_of_bytes(v / 256, k1);
        lemma_pow256_mono(0, k1);
        lemma_breakdown(v as int, 256, pow256(k1) as int);
        assert(pow256(0) == 1);
        assert(v / 1 == v);
        assert(s.last() == be_byte(v, k, k1));
        assert(s.last() as nat == v % 256);
        assert(pow256(k) == 256 * pow256(k1));
        assert(be_value(s) == be_value(t) * 256 + v % 256);
    } else {
        assert(pow256(0) == 1);
        assert(v % 1 == 0);
    }
}

/// Decoding the encoding of any value that a variable-length integer can hold
/// gives the value back, and the first byte announces the encoding's length.
pub proof fn lemma_varint_round_trip(v: nat)
    requires
        v <= VARINT_MAX,
    ensures
        varint_complete(encode_varint(v)),
        varint_len_from_first(encode_varint(v)[0]) == varint_len(v),
        decode_varint(encode_varint(v)) == v,
{
    let n = varint_len(v);
    let e = encode_varint(v);
    lemma_pow256_facts();
    let p = pow256((n - 1) as nat);
    assert(v < 64 * p);
    lemma_multiply_divide_lt(v as int, p as int, 64);
    lemma_small_mod(v / p, 256);
    let b0 = be_byte(v, n, 0);
    assert(b0 < 64);
    let m = len_marker(n);
    assert((b0 | m) & 0x3f == b0) by (bit_vector)
        requires
            b0 < 64,
            m == 0 || m == 0x40 || m == 0x80 || m == 0xc0,
    ;
    assert(m == 0 ==> b0 | m < 0x40) by (bit_vector)
        requires
            b0 < 64,
    ;
    assert(m == 0x40 ==> 0x40 <= b0 | m < 0x80) by (bit_vector)
        requires
            b0 < 64,
    ;
    assert(m == 0x80 ==> 0x80 <= b0 | m < 0xc0) by (bit_vector)
        requires
            b0 < 64,
    ;
    assert(m == 0xc0 ==> 0xc0 <= b0 | m) by (bit_vector)
        requires
            b0 < 64,
    ;
    let s = e.subrange(0, n as int).update(0, e[0] & 0x3f);
    assert(s =~= Seq::new(n, |i: int| be_byte(v, n, i as nat)));
    lemma_be_value_of_bytes(v, n);
    assert(v < pow256(n));
    lemma_small_mod(v, pow256(n));
}

/// A variable-length integer: a value of at most `VARINT_MAX`.
#[derive(Clone, Copy, Debug, PartialEq, Eq, Structural)]
pub struct VarInt(u64);

impl View for VarInt {
    type V = nat;

    closed spec fn view(&self) -> nat {
        self.0 as nat
    }
}

impl VarInt {
    #[verifier::type_invariant]
    spec fn inv(self) -> bool {
        self.0 <= VARINT_MAX
    }

    /// A varint of a value that fits in six bits.
    pub(crate) fn from_u8_small(v: u8) -> (r: VarInt)
        requires
            v < 0x40,
        ensures
            r@ == v as nat,
    {
        VarInt(v as u64)
    }

    /// The value held.
    pub fn into_inner(self) -> (r: u64)
        ensures
            r as nat == self@,
            r <= VARINT_MAX,
    {
        proof {
            use_type_invariant(&self);
        }
        self.0
    }

    /// Number of bytes of the shortest encoding.
    pub fn encoding_size(&self) -> (r: usize)
        ensures
            r as nat == varint_len(self@),
            r as nat == encode_varint(self@).len(),
    {
        if self.0 < 0x40 {
            1
        } else if self.0 < 0x4000 {
            2
        } else if self.0 < 0x4000_0000 {
            4
        } else {
            8
        }
    }
}

/// Relies on `bytes::BufMut::put_slice` for `Vec<u8>`, which appends the slice
/// to the vector (through `extend_from_slice`).
#[verifier::external_body]
pub(crate) fn put_slice(buf: &mut Vec<u8>, src: &[u8])
    requires
        old(buf)@.len() + src@.len() <= isize::MAX,
    ensures
        final(buf)@ == old(buf)@ + src@,
{
    bytes::BufMut::put_slice(buf, src)
}

/// Appends the shortest encoding of `v` to `buf`.
pub fn put_varint(buf: &mut Vec<u8>, v: &VarInt)
    requires
        old(buf)@.len() + encode_varint(v@).len() <= isize::MAX,
    ensures
        final(buf)@ == old(buf)@ + encode_varint(v@),
{
    proof {
        use_type_invariant(v);
    }
    let value = v.0;
    let n = v.encoding_size();
    let marker: u8 = if n == 1 {
        0x00
    } else if n == 2 {
        0x40
    } else if n == 4 {
        0x80
    } else {
        0xc0
    };
    // the bytes, least significant first
    let mut le: Vec<u8> = Vec::new();
    let mut x: u64 = value;
    let mut k: usize = 0;
    proof {
        lemma_pow256_facts();
    }
    while k < n
        invariant
            k <= n <= 8,
            le@.len() == k,
            x as nat == value as nat / pow256(k as nat),
            forall|j: int| 0 <= j < k ==> le@[j] == ((value as nat / pow256(j as nat)) % 256) as u8,
        decreases n - k,
    {
        le.push((x % 256) as u8);
        proof {
            lemma_pow256_mono(0, k as nat);
            lemma_div_denominator(value as int, pow256(k as nat) as int, 256);
            assert(pow256((k + 1) as nat) == pow256(k as nat) * 256);
        }
        x = x / 256;
        k = k + 1;
    }
    let mut out: Vec<u8> = Vec::new();
    let mut i: usize = 0;
    while i < n
        invariant
            i <= n <= 8,
            n as nat == varint_len(value as nat),
            le@.len() == n,
            forall|j: int| 0 <= j < n ==> le@[j] == ((value as nat / pow256(j as nat)) % 256) as u8,
            out@.len() == i,
            forall|j: int| 0 <= j < i ==> out@[j] == encode_varint(value as nat)[j],
            marker == len_marker(n as nat),
        decreases n - i,
    {
        let b = le[n - 1 - i];
        if i == 0 {
            out.push(b | marker);
        } else {
            out.push(b);
        }
        i = i + 1;
    }
    assert(out@ =~= encode_varint(v@));
    put_slice(buf, out.as_slice());
}

/// Reads a variable-length integer from the start of `input`; `None` when
/// `input` ends before the encoding does.
pub fn be_varint(input: &[u8]) -> (r: Option<(&[u8], VarInt)>)
    ensures
        match r {
            Some((rest, v)) => {
                &&& varint_complete(input@)
                &&& v@ == decode_varint(input@)
                &&& rest@ == input@.subrange(
                    varint_len_from_first(input@[0]) as int,
                    input@.len() as int,
                )
            },
            None => !varint_complete(input@),
        },
{
    if input.len() == 0 {
        return None;
    }
    let first = input[0];
    let n: usize = if first < 0x40 {
        1
    } else if first < 0x80 {
        2
    } else if first < 0xc0 {
        4
    } else {
        8
    };
    if input.len() < n {
        return None;
    }
    let ghost s = input@.subrange(0, n as int).update(0, first & 0x3f);
    let mut acc: u64 = (first & 0x3f) as u64;
    proof {
        lemma_pow256_facts();
        assert(first & 0x3f < 0x40) by (bit_vector);
        assert(s.subrange(0, 1).drop_last() =~= Seq::<u8>::empty());
        assert(s.subrange(0, 1) =~= seq![first & 0x3f]);
        reveal_with_fuel(be_value, 2);
    }
    let mut i: usize = 1;
    while i < n
        invariant
            1 <= i <= n <= 8,
            n <= input@.len(),
            s == input@.subrange(0, n as int).update(0, first & 0x3f),
            acc as nat == be_value(s.subrange(0, i as int)),
            acc < 0x40 * pow256((i - 1) as nat),
        decreases n - i,
    {
        proof {
            assert(s.subrange(0, i + 1).drop_last() =~= s.subrange(0, i as int));
            lemma_pow256_mono(i as nat, 7);
            lemma_pow256_facts();
            let p = pow256((i - 1) as nat);
            assert(pow256(i as nat) == 256 * p);
            assert(acc * 256 + 255 < 0x40 * pow256(i as nat));
            assert(0x40 * pow256(i as nat) <= 0x40 * pow256(7));
        }
        acc = acc * 256 + input[i] as u64;
        i = i + 1;
    }
    proof {
        lemma_pow256_mono((n - 1) as nat, 7);
        assert(s.subrange(0, n as int) =~= s);
    }
    Some((slice_subrange(input, n, input.len()), VarInt(acc)))
}

} // verus!
