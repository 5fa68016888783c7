//! SQLite's variable-length integers: one to nine bytes, seven bits from each
//! of the first eight (high bit set means "more follows"), all eight bits of
//! the ninth.
use vstd::arithmetic::div_mod::lemma_mod_breakdown;
use vstd::prelude::*;

use crate::error::Error;

verus! {

/// Number of bytes of the varint that starts at index 0 of `b`, scanning from `i`.
pub open spec fn varint_end(b: Seq<u8>, i: nat) -> Option<nat>
    decreases 9 - i,
{
    if i >= 9 || i >= b.len() {
        None
    } else if i == 8 || b[i as int] < 128 {
        Some(i + 1)
    } else {
        varint_end(b, i + 1)
    }
}

/// Value of the first `n` bytes of `b` read as a varint.
pub open spec fn varint_acc(b: Seq<u8>, n: nat) -> nat
    decreases n,
{
    if n == 0 {
        0
    } else if n == 9 {
        (varint_acc(b, 8) * 256 + b[8]) as nat
    } else {
        (varint_acc(b, (n - 1) as nat) * 128 + b[n - 1] % 128) as nat
    }
}

/// The varint at the start of `b`: its value and its length in bytes.
pub open spec fn decode_varint(b: Seq<u8>) -> Option<(u64, nat)> {
    match varint_end(b, 0) {
        Some(n) => Some((varint_acc(b, n) as u64, n)),
        None => None,
    }
}

/// What reading a varint at the start of `b` gives.
pub open spec fn varint_result(b: Seq<u8>) -> Result<(u64, usize), Error> {
    match decode_varint(b) {
        Some((v, n)) => Ok((v, n as usize)),
        None => Err(Error::TruncatedVarint),
    }
}

/// What reading a varint at `offset` of `b` gives.
pub open spec fn varint_at(b: Seq<u8>, offset: int) -> Result<(u64, usize), Error> {
    if 0 <= offset <= b.len() {
        varint_result(b.subrange(offset, b.len() as int))
    } else {
        Err(Error::TruncatedVarint)
    }
}

/// 128 to the power `n`.
pub open spec fn septet_bound(n: nat) -> nat
    decreases n,
{
    if n == 0 {
        1
    } else {
        128 * septet_bound((n - 1) as nat)
    }
}

/// The low `n` base-128 digits of `v`, most significant first.
pub open spec fn septets(v: nat, n: nat) -> Seq<u8>
    decreases n,
{
    if n == 0 {
        seq![]
    } else {
        septets(v / 128, (n - 1) as nat).push((v % 128) as u8)
    }
}

/// `s` with the continuation bit set on every byte but the last `unmarked`.
pub open spec fn with_continuation(s: Seq<u8>, unmarked: nat) -> Seq<u8> {
    Seq::new(
        s.len(),
        |i: int|
            if i + unmarked < s.len() {
                (s[i] + 128) as u8
            } else {
                s[i]
            },
    )
}

/// Number of bytes that SQLite's encoder spends on `v`.
pub open spec fn varint_len(v: u64) -> nat {
    if v < 0x80 {
        1
    } else if v < 0x4000 {
        2
    } else if v < 0x20_0000 {
        3
    } else if v < 0x1000_0000 {
        4
    } else if v < 0x8_0000_0000 {
        5
    } else if v < 0x400_0000_0000 {
        6
    } else if v < 0x2_0000_0000_0000 {
        7
    } else if v < 0x100_0000_0000_0000 {
        8
    } else {
        9
    }
}

/// SQLite's varint encoding of `v`: the shortest form, or nine bytes whose
/// last carries the low eight bits.
pub open spec fn varint_encoding(v: u64) -> Seq<u8> {
    let n = varint_len(v);
    if n <= 8 {
        with_continuation(septets(v as nat, n), 1)
    } else {
        with_continuation(septets((v / 256) as nat, 8), 0).push((v % 256) as u8)
    }
}

proof fn lemma_septet_bound_values()
    ensures
        septet_bound(1) == 0x80,
        septet_bound(2) == 0x4000,
        septet_bound(3) == 0x20_0000,
        septet_bound(4) == 0x1000_0000,
        septet_bound(5) == 0x8_0000_0000,
        septet_bound(6) == 0x400_0000_0000,
        septet_bound(7) == 0x2_0000_0000_0000,
        septet_bound(8) == 0x100_0000_0000_0000,
{
    reveal_with_fuel(septet_bound, 9);
}

proof fn lemma_septet_bound_positive(n: nat)
    ensures
        septet_bound(n) > 0,
    decreases n,
{
    if n > 0 {
        lemma_septet_bound_positive((n - 1) as nat);
    }
}

proof fn lemma_septets_len(v: nat, n: nat)
    ensures
        septets(v, n).len() == n,
        forall|i: int| 0 <= i < n ==> #[trigger] septets(v, n)[i] < 128,
    decreases n,
{
    if n > 0 {
        lemma_septets_len(v / 128, (n - 1) as nat);
    }
}

/// Reading back `n <= 8` base-128 digits (continuation bits or not) gives `v`
/// modulo `128^n`.
proof fn lemma_acc_septets(v: nat, n: nat, e: Seq<u8>)
    requires
        n <= 8,
        n <= e.len(),
        forall|i: int| 0 <= i < n ==> #[trigger] (e[i] % 128) == septets(v, n)[i],
    ensures
        varint_acc(e, n) == v % septet_bound(n),
    decreases n,
{
    lemma_septets_len(v, n);
    if n > 0 {
        let m = (n - 1) as nat;
        lemma_septets_len(v / 128, m);
        assert forall|i: int| 0 <= i < m implies #[trigger] (e[i] % 128) == septets(v / 128, m)[i] by {
            assert(septets(v, n)[i] == septets(v / 128, m)[i]);
        }
        lemma_acc_septets(v / 128, m, e);
        assert(e[m as int] % 128 == v % 128);
        lemma_septet_bound_positive(m);
        lemma_mod_breakdown(v as int, 128, septet_bound(m) as int);
    }
}

proof fn lemma_end_of_marked(b: Seq<u8>, i: nat, n: nat)
    requires
        1 <= n <= 9,
        i < n,
        n <= b.len(),
        forall|j: int| i <= j < n - 1 ==> b[j] >= 128,
        n == 9 || b[n - 1] < 128,
    ensures
        varint_end(b, i) == Some(n),
    decreases n - i,
{
    if i + 1 < n {
        lemma_end_of_marked(b, i + 1, n);
    }
}

/// Round trip: reading SQLite's encoding of any `v`, whatever follows it,
/// gives back `v` and the encoding's length.
pub proof fn lemma_varint_round_trip(v: u64, rest: Seq<u8>)
    ensures
        decode_varint(varint_encoding(v) + rest) == Some((v, varint_encoding(v).len())),
        varint_encoding(v).len() == varint_len(v),
{
    let n = varint_len(v);
    let e = varint_encoding(v) + rest;
    lemma_septet_bound_values();
    if n <= 8 {
        let s = septets(v as nat, n);
        lemma_septets_len(v as nat, n);
        assert forall|i: int| 0 <= i < n implies #[trigger] (e[i] % 128) == s[i] by {
            if i + 1 < n {
                assert(e[i] == (s[i] + 128) as u8);
            }
        }
        lemma_acc_septets(v as nat, n, e);
        assert forall|j: int| 0 <= j < n - 1 implies e[j] >= 128 by {
            assert(e[j] == (s[j] + 128) as u8);
        }
        assert(e[n - 1] == s[n - 1]);
        lemma_end_of_marked(e, 0, n);
        assert(v < septet_bound(n));
        vstd::arithmetic::div_mod::lemma_small_mod(v as nat, septet_bound(n));
        assert(varint_acc(e, n) == v);
    } else {
        let w = (v / 256) as nat;
        let s = septets(w, 8);
        lemma_septets_len(w, 8);
        assert forall|i: int| 0 <= i < 8 implies #[trigger] (e[i] % 128) == s[i] by {
            assert(e[i] == (s[i] + 128) as u8);
        }
        lemma_acc_septets(w, 8, e);
        assert(w < 0x100_0000_0000_0000);
        assert(w % septet_bound(8) == w);
        assert forall|j: int| 0 <= j < 8 implies e[j] >= 128 by {
            assert(e[j] == (s[j] + 128) as u8);
        }
        lemma_end_of_marked(e, 0, 9);
        assert(e[8] == (v % 256) as u8);
        vstd::arithmetic::div_mod::lemma_small_mod(w, septet_bound(8));
        assert(varint_acc(e, 8) == w);
        assert(varint_acc(e, 9) == w * 256 + v % 256);
        vstd::arithmetic::div_mod::lemma_fundamental_div_mod(v as int, 256);
    }
}

proof fn lemma_varint_end_bounds(b: Seq<u8>, i: nat)
    ensures
        varint_end(b, i) is Some ==> i < varint_end(b, i)->0 <= b.len() && varint_end(b, i)->0 <= 9,
    decreases 9 - i,
{
    if i < 9 && i < b.len() && i != 8 && b[i as int] >= 128 {
        lemma_varint_end_bounds(b, i + 1);
    }
}

/// A varint that was read takes one to nine bytes, all inside the buffer.
pub proof fn lemma_varint_at_bounds(b: Seq<u8>, offset: int)
    ensures
        varint_at(b, offset) is Ok ==> 1 <= varint_at(b, offset)->Ok_0.1 <= 9 && offset
            + varint_at(b, offset)->Ok_0.1 <= b.len(),
{
    if 0 <= offset <= b.len() {
        lemma_varint_end_bounds(b.subrange(offset, b.len() as int), 0);
    }
}

/// Reads the varint at `offset` of `buffer`: its value and how many bytes it took.
pub(crate) fn read_varint_at(buffer: &[u8], offset: usize) -> (r: Result<(u64, usize), Error>)
    ensures
        r == varint_at(buffer@, offset as int),
{
    if offset >= buffer.len() {
        return Err(Error::TruncatedVarint);
    }
    let ghost t = buffer@.subrange(offset as int, buffer@.len() as int);
    proof {
        lemma_septet_bound_values();
    }
    let mut result: u64 = 0;
    let mut i: usize = 0;
    loop
        invariant
            offset < buffer.len(),
            t == buffer@.subrange(offset as int, buffer@.len() as int),
            i <= 8,
            result == varint_acc(t, i as nat),
            result < septet_bound(i as nat),
            septet_bound(8) == 0x100_0000_0000_0000,
            i < 8 ==> septet_bound(i as nat) <= 0x2_0000_0000_0000,
            varint_end(t, 0) == varint_end(t, i as nat),
        decreases 9 - i,
    {
        if i >= buffer.len() - offset {
            return Err(Error::TruncatedVarint);
        }
        let byte = buffer[offset + i];
        assert(byte == t[i as int]);
        if i == 8 {
            result = result * 256 + byte as u64;
            return Ok((result, 9));
        }
        result = result * 128 + (byte % 128) as u64;
        if byte < 128 {
            return Ok((result, i + 1));
        }
        proof {
            if i + 1 < 8 {
                lemma_septet_bound_values();
                assert(septet_bound((i + 1) as nat) <= 0x2_0000_0000_0000) by {
                    if i + 1 == 1 {} else if i + 1 == 2 {} else if i + 1 == 3 {} else if i + 1
                        == 4 {} else if i + 1 == 5 {} else if i + 1 == 6 {} else {}
                }
            }
        }
        i = i + 1;
    }
}

/// Reads the varint at the start of `buffer`: its value and how many bytes it
/// took. Fails with `TruncatedVarint` when the buffer ends first.
pub fn read_varint(buffer: &[u8]) -> (r: Result<(u64, usize), Error>)
    ensures
        r == varint_result(buffer@),
{
    let r = read_varint_at(buffer, 0);
    assert(buffer@.subrange(0, buffer@.len() as int) == buffer@);
    r
}

} // verus!
