//! The protocol's base-128 variable-length integer codec: each byte carries
//! seven data bits, and the high bit marks that another byte follows. A
//! 32-bit value therefore occupies one to five bytes, and a decode that sees
//! five continuation bytes in a row rejects the stream.

use crate::status::StatusError;
use vstd::prelude::*;

verus! {

/// The encoding of `n`: seven data bits per byte, least significant group
/// first, the high bit set on every byte but the last.
pub open spec fn varint_bytes(n: u32) -> Seq<u8>
    decreases n,
{
    if n < 0x80 {
        seq![n as u8]
    } else {
        seq![((n % 0x80) + 0x80) as u8] + varint_bytes(n / 0x80)
    }
}

/// 128 raised to `k`: the weight of the `k`-th byte of an encoding.
pub open spec fn pow128(k: nat) -> nat
    decreases k,
{
    if k == 0 {
        1
    } else {
        128 * pow128((k - 1) as nat)
    }
}

/// The integer denoted by the data bits of `s`, least significant group
/// first, with every byte read as if its continuation bit were stripped.
pub open spec fn varint_nat(s: Seq<u8>) -> nat
    decreases s.len(),
{
    if s.len() == 0 {
        0
    } else {
        ((s[0] % 0x80) + 0x80 * varint_nat(s.drop_first())) as nat
    }
}

/// Whether a decode that starts at the front of `s` reaches a byte without
/// the continuation bit before running past the five-byte cap.
pub open spec fn varint_terminates(s: Seq<u8>) -> bool {
    exists|i: int| 0 <= i < 5 && i < s.len() && s[i] < 0x80
}

/// How many bytes such a decode consumes: everything up to and including the
/// first byte without the continuation bit.
pub open spec fn varint_size(s: Seq<u8>) -> int
    decreases s.len(),
{
    if s.len() == 0 {
        0
    } else if s[0] < 0x80 {
        1
    } else {
        1 + varint_size(s.drop_first())
    }
}

/// The value such a decode yields: the low 32 bits of the integer denoted by
/// the consumed bytes.
pub open spec fn varint_decoded(s: Seq<u8>) -> u32 {
    (varint_nat(s.take(varint_size(s))) % 0x1_0000_0000) as u32
}

proof fn lemma_pow128_values()
    ensures
        pow128(0) == 1,
        pow128(1) == 0x80,
        pow128(2) == 0x4000,
        pow128(3) == 0x20_0000,
        pow128(4) == 0x1000_0000,
        pow128(5) == 0x8_0000_0000,
{
    assert(pow128(0) == 1);
    assert(pow128(1) == 0x80);
    assert(pow128(2) == 0x4000);
    assert(pow128(3) == 0x20_0000);
    assert(pow128(4) == 0x1000_0000);
    assert(pow128(5) == 0x8_0000_0000);
}

proof fn lemma_pow128_le_5(k: nat)
    requires
        k <= 5,
    ensures
        pow128(k) <= 0x8_0000_0000,
{
    lemma_pow128_values();
}

proof fn lemma_varint_nat_push(s: Seq<u8>, b: u8)
    ensures
        varint_nat(s.push(b)) == varint_nat(s) + (b % 0x80) * pow128(s.len()),
    decreases s.len(),
{
    reveal_with_fuel(varint_nat, 3);
    if s.len() == 0 {
        assert(s.push(b).len() == 1);
        assert(s.push(b)[0] == b);
        assert(s.push(b).drop_first() =~= Seq::<u8>::empty());
        assert(pow128(0) == 1);
    } else {
        let d = s.drop_first();
        assert(varint_nat(s) == (s[0] % 0x80) + 0x80 * varint_nat(d));
        assert(s.push(b).len() == s.len() + 1);
        assert(s.push(b)[0] == s[0]);
        assert(s.push(b).drop_first() =~= d.push(b));
        lemma_varint_nat_push(d, b);
        assert(varint_nat(s.push(b)) == (s[0] % 0x80) + 0x80 * varint_nat(d.push(b)));
        assert(varint_nat(s.push(b)) == (s[0] % 0x80) + 0x80 * varint_nat(d) + 0x80 * ((b % 0x80)
            * pow128(d.len())));
        assert(0x80 * ((b % 0x80) * pow128(d.len())) == (b % 0x80) * (128 * pow128(d.len())))
            by (nonlinear_arith);
        assert(pow128(s.len()) == 128 * pow128(d.len()));
        assert((b % 0x80) * (128 * pow128(d.len())) == (b % 0x80) * pow128(s.len()))
            by (nonlinear_arith)
            requires
                pow128(s.len()) == 128 * pow128(d.len()),
        ;
    }
}

proof fn lemma_varint_nat_bound(s: Seq<u8>)
    ensures
        varint_nat(s) < pow128(s.len()),
    decreases s.len(),
{
    if s.len() > 0 {
        lemma_varint_nat_bound(s.drop_first());
        assert(0x80 * varint_nat(s.drop_first()) <= 0x80 * (pow128(s.drop_first().len()) - 1))
            by (nonlinear_arith)
            requires
                varint_nat(s.drop_first()) <= pow128(s.drop_first().len()) - 1,
        ;
    }
}

proof fn lemma_varint_size_prefix(s: Seq<u8>, i: int)
    requires
        0 <= i < s.len(),
        forall|j: int| 0 <= j < i ==> s[j] >= 0x80,
        s[i] < 0x80,
    ensures
        varint_size(s) == i + 1,
    decreases i,
{
    if i > 0 {
        lemma_varint_size_prefix(s.drop_first(), i - 1);
    }
}

/// An overlong run — six or more bytes, every one with the continuation bit
/// set — never terminates within the five-byte cap, so a decode of it ends
/// in the protocol error and nothing else.
pub proof fn lemma_varint_overlong(s: Seq<u8>)
    requires
        s.len() >= 6,
        forall|i: int| 0 <= i < s.len() ==> s[i] >= 0x80,
    ensures
        !varint_terminates(s),
{
}

/// A decode that terminates consumes at least one byte, at most five, and
/// never more than the input holds.
pub proof fn lemma_varint_size_le(s: Seq<u8>)
    requires
        varint_terminates(s),
    ensures
        1 <= varint_size(s),
        varint_size(s) <= s.len(),
        varint_size(s) <= 5,
{
    let i = choose|i: int| 0 <= i < 5 && i < s.len() && s[i] < 0x80;
    lemma_varint_size_bound(s, i);
}

proof fn lemma_varint_size_bound(s: Seq<u8>, i: int)
    requires
        0 <= i < s.len(),
        s[i] < 0x80,
        i < 5,
    ensures
        1 <= varint_size(s) <= i + 1,
        varint_size(s) <= s.len(),
    decreases i,
{
    if s[0] >= 0x80 {
        lemma_varint_size_bound(s.drop_first(), i - 1);
    }
}

/// Decodes a variable-length integer from `bytes`, starting at `start` and
/// consuming one byte at a time, exactly as a stream read would. Rejects the
/// input with a protocol error once five continuation bytes have gone by,
/// and with a read error when the bytes run out first.
pub fn var_int_decode(bytes: &Vec<u8>, start: usize) -> (r: Result<(i32, usize), StatusError>)
    requires
        start <= bytes@.len(),
    ensures
        ({
            let s = bytes@.skip(start as int);
            match r {
                Ok(p) => {
                    &&& varint_terminates(s)
                    &&& p.1 == start + varint_size(s)
                    &&& p.0 as u32 == varint_decoded(s)
                },
                Err(e) => {
                    &&& !varint_terminates(s)
                    &&& e == if s.len() >= 6 {
                        StatusError::Protocol
                    } else {
                        StatusError::Io
                    }
                },
            }
        }),
{
    let ghost s: Seq<u8> = bytes@.skip(start as int);
    let mut value: u64 = 0;
    let mut pow: u64 = 1;
    let mut i: usize = 0;
    while i < 5
        invariant
            start <= bytes@.len(),
            s == bytes@.skip(start as int),
            i <= 5,
            start + i <= bytes@.len(),
            pow == pow128(i as nat),
            value == varint_nat(s.take(i as int)),
            forall|j: int| 0 <= j < i ==> s[j] >= 0x80,
        decreases 5 - i,
    {
        proof {
            lemma_pow128_le_5(i as nat);
            lemma_varint_nat_bound(s.take(i as int));
        }
        if bytes.len() - start <= i {
            return Err(StatusError::Io);
        }
        let b: u8 = bytes[start + i];
        assert(b == s[i as int]);
        proof {
            lemma_varint_nat_push(s.take(i as int), b);
            assert(s.take(i as int).push(b) =~= s.take(i + 1));
            assert((b % 0x80) as u64 * pow <= 127 * pow) by (nonlinear_arith)
                requires
                    pow >= 0,
            ;
        }
        value = value + (b % 0x80) as u64 * pow;
        if b < 0x80 {
            proof {
                lemma_varint_size_prefix(s, i as int);
            }
            let low: u64 = value % 0x1_0000_0000;
            let decoded: i32 = low as u32 as i32;
            assert(low as u32 as i32 as u32 == low as u32) by (bit_vector);
            return Ok((decoded, start + i + 1));
        }
        pow = pow * 0x80;
        i = i + 1;
    }
    if bytes.len() - start <= 5 {
        Err(StatusError::Io)
    } else {
        Err(StatusError::Protocol)
    }
}

/// Shape of an encoding: one to five bytes, the continuation bit set on all
/// but the last, and the data bits denoting `n` itself.
pub open spec fn varint_bytes_wf(n: u32) -> bool {
    &&& 1 <= varint_bytes(n).len() <= 5
    &&& varint_nat(varint_bytes(n)) == n
    &&& forall|j: int| 0 <= j < varint_bytes(n).len() - 1 ==> varint_bytes(n)[j] >= 0x80
    &&& varint_bytes(n).last() < 0x80
}

proof fn lemma_varint_bytes_len(n: u32, k: nat)
    requires
        1 <= k,
        n < pow128(k),
    ensures
        varint_bytes(n).len() <= k,
    decreases n,
{
    if n >= 0x80 {
        assert(n / 0x80 < pow128((k - 1) as nat)) by (nonlinear_arith)
            requires
                n < pow128(k),
                pow128(k) == 128 * pow128((k - 1) as nat),
        ;
        lemma_varint_bytes_len(n / 0x80, (k - 1) as nat);
    }
}

proof fn lemma_varint_bytes_spec(n: u32)
    ensures
        varint_bytes_wf(n),
    decreases n,
{
    reveal_with_fuel(varint_nat, 3);
    lemma_pow128_values();
    lemma_varint_bytes_len(n, 5);
    if n >= 0x80 {
        lemma_varint_bytes_spec(n / 0x80);
        let h: u8 = ((n % 0x80) + 0x80) as u8;
        let rest = varint_bytes(n / 0x80);
        let b = seq![h] + rest;
        assert(b == varint_bytes(n));
        assert(b.drop_first() =~= rest);
        assert(b[0] == h && h >= 0x80 && h % 0x80 == n % 0x80);
        assert(b.last() == rest.last());
        assert forall|j: int| 0 <= j < b.len() - 1 implies b[j] >= 0x80 by {
            if j > 0 {
                assert(b[j] == rest[j - 1]);
            }
        }
        assert(varint_nat(b) == (n % 0x80) + 0x80 * (n / 0x80));
        assert(n == 0x80 * (n / 0x80) + n % 0x80) by (nonlinear_arith);
    } else {
        let b = seq![n as u8];
        assert(b == varint_bytes(n));
        assert(b.len() == 1);
        assert(b[0] == n as u8);
        assert(b.drop_first() =~= Seq::<u8>::empty());
        assert(varint_nat(b) == (n as u8) % 0x80);
    }
}

proof fn lemma_varint_bytes_last_nonzero(n: u32)
    requires
        n >= 1,
    ensures
        varint_bytes(n).last() != 0,
    decreases n,
{
    if n >= 0x80 {
        lemma_varint_bytes_spec(n / 0x80);
        lemma_varint_bytes_last_nonzero(n / 0x80);
        let h: u8 = ((n % 0x80) + 0x80) as u8;
        assert((seq![h] + varint_bytes(n / 0x80)).last() == varint_bytes(n / 0x80).last());
    }
}

/// An encoding never exceeds five bytes, ends on a byte without the
/// continuation bit, and carries no superfluous trailing byte: whenever more
/// than one byte is emitted, the last holds a nonzero data group.
pub proof fn lemma_varint_minimal(n: u32)
    ensures
        1 <= varint_bytes(n).len() <= 5,
        varint_bytes(n).last() < 0x80,
        varint_bytes(n).len() > 1 ==> varint_bytes(n).last() != 0,
{
    lemma_varint_bytes_spec(n);
    if varint_bytes(n).len() > 1 {
        lemma_varint_bytes_last_nonzero(n);
    }
}

/// Round trip: a decode that starts on an encoding of `n`, whatever follows
/// it, consumes exactly the encoding and yields `n` back.
pub proof fn lemma_varint_round_trip(n: u32, rest: Seq<u8>)
    ensures
        ({
            let s = varint_bytes(n) + rest;
            &&& varint_terminates(s)
            &&& varint_size(s) == varint_bytes(n).len()
            &&& varint_decoded(s) == n
        }),
{
    lemma_varint_bytes_spec(n);
    let b = varint_bytes(n);
    let s = b + rest;
    let last: int = b.len() - 1;
    assert(s[last] == b[last]);
    lemma_varint_size_prefix(s, last);
    assert(s.take(b.len() as int) =~= b);
}

/// Encodes a 32-bit integer in the variable-length format, reading its bits
/// as unsigned so that negative inputs spread over the full five bytes.
pub fn var_int_encode(num: i32) -> (r: Vec<u8>)
    ensures
        r@ == varint_bytes(num as u32),
{
    let mut var_int: Vec<u8> = Vec::new();
    let mut value: u32 = num as u32;
    while value >= 0x80
        invariant
            var_int@ + varint_bytes(value) == varint_bytes(num as u32),
        decreases value,
    {
        var_int.push(((value % 0x80) + 0x80) as u8);
        value = value / 0x80;
    }
    var_int.push(value as u8);
    proof {
        assert(var_int@ =~= varint_bytes(num as u32));
    }
    var_int
}

} // verus!
