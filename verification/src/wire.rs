//! Numbers as they stand in byte sequences.

use vstd::prelude::*;

verus! {

/// The number that `s` writes with its most significant byte first.
pub open spec fn be(s: Seq<u8>) -> nat
    decreases s.len(),
{
    if s.len() == 0 {
        0
    } else {
        be(s.drop_last()) * 256 + s.last() as nat
    }
}

/// The two bytes of `x`, most significant first.
pub open spec fn be16(x: u16) -> Seq<u8> {
    seq![(x / 256) as u8, (x % 256) as u8]
}

/// The four bytes of `x`, most significant first.
pub open spec fn be32(x: u32) -> Seq<u8> {
    seq![
        (x / 0x100_0000) as u8,
        (x / 0x1_0000 % 256) as u8,
        (x / 256 % 256) as u8,
        (x % 256) as u8,
    ]
}

/// How many numbers `n` bytes can write.
pub open spec fn numbers(n: nat) -> nat
    decreases n,
{
    if n == 0 {
        1
    } else {
        256 * numbers((n - 1) as nat)
    }
}

/// The last `n` bytes of `x`, most significant first.
pub open spec fn be_bytes(x: nat, n: nat) -> Seq<u8>
    decreases n,
{
    if n == 0 {
        Seq::empty()
    } else {
        be_bytes(x / 256, (n - 1) as nat).push((x % 256) as u8)
    }
}

/// The sixteen bytes of `x`, most significant first.
pub open spec fn be128(x: u128) -> Seq<u8> {
    be_bytes(x as nat, 16)
}

/// The two bytes of `x`, least significant first.
pub open spec fn le16(x: u16) -> Seq<u8> {
    seq![(x % 256) as u8, (x / 256) as u8]
}

/// The four bytes of `x`, least significant first.
pub open spec fn le32(x: u32) -> Seq<u8> {
    seq![
        (x % 256) as u8,
        (x / 256 % 256) as u8,
        (x / 0x1_0000 % 256) as u8,
        (x / 0x100_0000) as u8,
    ]
}

/// The number of two bytes, most significant first.
pub fn read_be16(hi: u8, lo: u8) -> (x: u16)
    ensures
        x == be(seq![hi, lo]),
        be16(x) == seq![hi, lo],
{
    let x: u16 = (hi as u16) * 256 + lo as u16;
    proof {
        lemma_be2(seq![hi, lo]);
        assert(be16(x) =~= seq![hi, lo]);
    }
    x
}

/// The four bytes of a number, most significant first.
pub fn write_be32(x: u32) -> (bytes: [u8; 4])
    ensures
        bytes@ == be32(x),
{
    let bytes: [u8; 4] = [
        (x / 0x100_0000) as u8,
        (x / 0x1_0000 % 256) as u8,
        (x / 256 % 256) as u8,
        (x % 256) as u8,
    ];
    proof {
        assert(bytes@ =~= be32(x));
    }
    bytes
}

/// The sixteen bytes of a number, most significant first.
pub fn write_be128(x: u128) -> (bytes: Vec<u8>)
    ensures
        bytes@ == be128(x),
{
    let mut bytes: Vec<u8> = vec![0u8; 16];
    let mut rest: u128 = x;
    let mut left: usize = 16;
    proof {
        assert(be_bytes(rest as nat, 16) + bytes@.skip(16) =~= be128(x));
    }
    while left > 0
        invariant
            left <= 16,
            bytes@.len() == 16,
            be_bytes(rest as nat, left as nat) + bytes@.skip(left as int) == be128(x),
        decreases left,
    {
        let ghost before = bytes@;
        let ghost whole = rest as nat;
        let ghost n = left as nat;
        left = left - 1;
        bytes[left] = (rest % 256) as u8;
        rest = rest / 256;
        proof {
            assert(bytes@.skip(left as int) =~= seq![(whole % 256) as u8] + before.skip(n as int));
            assert(be_bytes(whole, n) =~= be_bytes(rest as nat, left as nat).push(
                (whole % 256) as u8,
            ));
            assert(be_bytes(rest as nat, left as nat) + bytes@.skip(left as int) =~= be_bytes(
                whole,
                n,
            ) + before.skip(n as int));
        }
    }
    proof {
        assert(bytes@ =~= be_bytes(rest as nat, 0) + bytes@.skip(0));
    }
    bytes
}

/// The number of four bytes, most significant first.
pub fn read_be32(b0: u8, b1: u8, b2: u8, b3: u8) -> (x: u32)
    ensures
        x == be(seq![b0, b1, b2, b3]),
        be32(x) == seq![b0, b1, b2, b3],
{
    let x: u32 = (b0 as u32) * 0x100_0000 + (b1 as u32) * 0x1_0000 + (b2 as u32) * 256
        + b3 as u32;
    proof {
        lemma_be4(seq![b0, b1, b2, b3]);
        assert(x % 256 == b3 && x / 256 % 256 == b2 && x / 0x1_0000 % 256 == b1 && x / 0x100_0000
            == b0) by (bit_vector)
            requires
                x == b0 * 0x100_0000 + b1 * 0x1_0000 + b2 * 256 + b3,
        ;
        assert(be32(x) =~= seq![b0, b1, b2, b3]);
    }
    x
}

/// The number of sixteen bytes, most significant first.
pub fn read_be128(bytes: &[u8]) -> (x: u128)
    requires
        bytes@.len() == 16,
    ensures
        x == be(bytes@),
{
    let mut x: u128 = 0;
    let mut i: usize = 0;
    while i < 16
        invariant
            i <= 16,
            bytes@.len() == 16,
            x == be(bytes@.take(i as int)),
        decreases 16 - i,
    {
        proof {
            let more = bytes@.take(i + 1);
            assert(more.drop_last() =~= bytes@.take(i as int));
            lemma_be_bound(more);
            lemma_numbers_grow((i + 1) as nat, 16);
            reveal_with_fuel(numbers, 17);
        }
        x = x * 256 + bytes[i] as u128;
        i = i + 1;
    }
    proof {
        assert(bytes@.take(16) =~= bytes@);
    }
    x
}

/// The number of two bytes, least significant first.
pub fn read_le16(lo: u8, hi: u8) -> (x: u16)
    ensures
        x == hi * 256 + lo,
        le16(x) == seq![lo, hi],
{
    let x: u16 = (hi as u16) * 256 + lo as u16;
    proof {
        assert(le16(x) =~= seq![lo, hi]);
    }
    x
}

/// The number of four bytes, least significant first.
pub fn read_le32(b0: u8, b1: u8, b2: u8, b3: u8) -> (x: u32)
    ensures
        x == b3 * 0x100_0000 + b2 * 0x1_0000 + b1 * 256 + b0,
        le32(x) == seq![b0, b1, b2, b3],
{
    let x: u32 = (b3 as u32) * 0x100_0000 + (b2 as u32) * 0x1_0000 + (b1 as u32) * 256
        + b0 as u32;
    proof {
        assert(x % 256 == b0 && x / 256 % 256 == b1 && x / 0x1_0000 % 256 == b2 && x / 0x100_0000
            == b3) by (bit_vector)
            requires
                x == b3 * 0x100_0000 + b2 * 0x1_0000 + b1 * 256 + b0,
        ;
        assert(le32(x) =~= seq![b0, b1, b2, b3]);
    }
    x
}

/// Writing a number and reading it back gives the number.
pub proof fn law_le16_reads_back(x: u16)
    ensures
        le16(x)[1] * 256 + le16(x)[0] == x,
{
}

/// Writing a number and reading it back gives the number.
pub proof fn law_le32_reads_back(x: u32)
    ensures
        le32(x)[3] * 0x100_0000 + le32(x)[2] * 0x1_0000 + le32(x)[1] * 256 + le32(x)[0] == x,
{
}

/// The number of two bytes.
pub proof fn lemma_be2(s: Seq<u8>)
    requires
        s.len() == 2,
    ensures
        be(s) == s[0] * 256 + s[1],
{
    reveal_with_fuel(be, 3);
    assert(s.drop_last().drop_last() =~= Seq::<u8>::empty());
}

/// The number of four bytes.
pub proof fn lemma_be4(s: Seq<u8>)
    requires
        s.len() == 4,
    ensures
        be(s) == s[0] * 0x100_0000 + s[1] * 0x1_0000 + s[2] * 256 + s[3],
{
    lemma_be2(s.take(2));
    reveal_with_fuel(be, 3);
    assert(s.drop_last().drop_last() =~= s.take(2));
}

/// Writing a number and reading it back gives the number.
pub proof fn law_be16_reads_back(x: u16)
    ensures
        be(be16(x)) == x,
{
    lemma_be2(be16(x));
}

/// Writing a number and reading it back gives the number.
pub proof fn law_be32_reads_back(x: u32)
    ensures
        be(be32(x)) == x,
{
    lemma_be4(be32(x));
}

/// Bytes write a number that so many bytes can write.
pub proof fn lemma_be_bound(s: Seq<u8>)
    ensures
        be(s) < numbers(s.len()),
    decreases s.len(),
{
    if s.len() > 0 {
        lemma_be_bound(s.drop_last());
    }
}

/// More bytes can write more numbers.
proof fn lemma_numbers_grow(m: nat, n: nat)
    requires
        m <= n,
    ensures
        numbers(m) <= numbers(n),
    decreases n - m,
{
    if m < n {
        lemma_numbers_grow(m, (n - 1) as nat);
    }
}

/// Writing a number in `n` bytes gives that many, and reading them back gives the number where it
/// can be written in so many.
pub proof fn law_be_bytes_reads_back(x: nat, n: nat)
    ensures
        be_bytes(x, n).len() == n,
        x < numbers(n) ==> be(be_bytes(x, n)) == x,
    decreases n,
{
    if n > 0 {
        law_be_bytes_reads_back(x / 256, (n - 1) as nat);
        assert(be_bytes(x, n).drop_last() =~= be_bytes(x / 256, (n - 1) as nat));
    }
}

/// Writing a number and reading it back gives the number.
pub proof fn law_be128_reads_back(x: u128)
    ensures
        be128(x).len() == 16,
        be(be128(x)) == x,
{
    reveal_with_fuel(numbers, 17);
    law_be_bytes_reads_back(x as nat, 16);
}

/// A byte behind others makes their number 256 times as large and adds its own: the byte in front
/// weighs most. No bytes make zero.
pub proof fn law_the_first_byte_weighs_most(s: Seq<u8>, b: u8)
    ensures
        be(Seq::empty()) == 0,
        be(s.push(b)) == be(s) * 256 + b,
{
    assert(s.push(b).drop_last() =~= s);
}

/// Two byte sequences of one length that make one number are the same.
pub proof fn law_numbers_tell_bytes_apart(s: Seq<u8>, t: Seq<u8>)
    requires
        s.len() == t.len(),
        be(s) == be(t),
    ensures
        s == t,
    decreases s.len(),
{
    if s.len() > 0 {
        assert(s.last() == be(s) % 256 && t.last() == be(t) % 256);
        law_numbers_tell_bytes_apart(s.drop_last(), t.drop_last());
        assert(s =~= s.drop_last().push(s.last()));
        assert(t =~= t.drop_last().push(t.last()));
    }
    assert(s =~= t);
}

/// The bytes of a number stand in order of their weight: the least significant first in one kind
/// of writing, and last in the other.
pub proof fn law_bytes_stand_by_weight(x: u16, y: u32)
    ensures
        be16(x).len() == 2 && le16(x).len() == 2 && be32(y).len() == 4 && le32(y).len() == 4,
        be16(x)[0] * 256 + be16(x)[1] == x,
        le16(x)[0] + le16(x)[1] * 256 == x,
        be32(y)[0] * 0x100_0000 + be32(y)[1] * 0x1_0000 + be32(y)[2] * 256 + be32(y)[3] == y,
        forall|i: int| 0 <= i < 2 ==> #[trigger] le16(x)[i] == be16(x)[1 - i],
        forall|i: int| 0 <= i < 4 ==> #[trigger] le32(y)[i] == be32(y)[3 - i],
{
}

} // verus!
