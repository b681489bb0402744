//! The binary codec ("modem") between the value domain — signed integers and
//! nested cons/nil lists — and a flat bit sequence.
//!
//! Format: `nil` is `00`; a pair is `11` followed by the encodings of both
//! components; a number is a 2-bit sign (`01` for n >= 0, `10` for n < 0),
//! a unary length prefix (`k` one-bits then a zero-bit, `k` the number of
//! 4-bit groups needed for the magnitude, `k = 0` only for 0), then the
//! `4k`-bit magnitude, most-significant bit first.

use vstd::prelude::*;

verus! {

/// A decoded value: nothing, a number, or a pair of two further values.
#[derive(Debug, PartialEq)]
pub enum NestedList {
    Nil,
    Number(i64),
    Cons(Box<NestedList>, Box<NestedList>),
}

/// Why a bitstream failed to decode.
#[derive(Debug, Clone, Copy, PartialEq, Eq, Structural)]
pub enum DecodeError {
    /// The stream ended before the value it announces was complete.
    UnexpectedEnd,
    /// The magnitude bits name a number outside the signed 64-bit range.
    NumberOutOfRange,
}

pub open spec fn pow2(e: nat) -> nat
    decreases e,
{
    if e == 0 {
        1
    } else {
        2 * pow2((e - 1) as nat)
    }
}

/// The magnitude of an integer.
pub open spec fn abs_of(n: int) -> nat {
    if n >= 0 {
        n as nat
    } else {
        (-n) as nat
    }
}

/// How many 4-bit groups are needed to hold `m`, with no leading group
/// entirely zero: 0 only for m = 0.
pub open spec fn nibble_count(m: nat) -> nat
    decreases m,
{
    if m == 0 {
        0
    } else {
        1 + nibble_count(m / 16)
    }
}

/// The unary length prefix: `k` one-bits followed by a terminating zero-bit.
pub open spec fn unary(k: nat) -> Seq<bool> {
    Seq::new(k + 1, |i: int| i < k)
}

/// The value `m` written in `width` bits, most-significant bit first.
pub open spec fn bits_of(m: nat, width: nat) -> Seq<bool>
    decreases width,
{
    if width == 0 {
        Seq::empty()
    } else {
        bits_of(m / 2, (width - 1) as nat).push(m % 2 == 1)
    }
}

/// The number read from a bit sequence, most-significant bit first.
pub open spec fn bits_val(s: Seq<bool>) -> nat
    decreases s.len(),
{
    if s.len() == 0 {
        0
    } else {
        2 * bits_val(s.drop_last()) + (if s.last() {
            1nat
        } else {
            0nat
        })
    }
}

/// The encoding of the number `n`: sign, unary group count, magnitude.
pub open spec fn encode_num_spec(n: int) -> Seq<bool> {
    let sign: Seq<bool> = if n >= 0 {
        seq![false, true]
    } else {
        seq![true, false]
    };
    let k = nibble_count(abs_of(n));
    sign + unary(k) + bits_of(abs_of(n), 4 * k)
}

/// The encoding of a whole value, all three shapes.
pub open spec fn encode_list_spec(l: NestedList) -> Seq<bool>
    decreases l,
{
    match l {
        NestedList::Nil => seq![false, false],
        NestedList::Number(n) => encode_num_spec(n as int),
        NestedList::Cons(a, b) => seq![true, true] + encode_list_spec(*a) + encode_list_spec(*b),
    }
}

/// The index of the first `false` in `s`, if any.
pub open spec fn first_zero(s: Seq<bool>) -> Option<nat>
    decreases s.len(),
{
    if s.len() == 0 {
        None
    } else if !s[0] {
        Some(0)
    } else {
        match first_zero(s.skip(1)) {
            Some(k) => Some(k + 1),
            None => None,
        }
    }
}

/// Decoding one value from the front of `bits`: the value and how many bits
/// it occupied, or the error. The decode is the exact structural inverse of
/// the encode: `00` is nil, `11` a pair of two recursively decoded values,
/// `01`/`10` a sign followed by a unary group count and the magnitude bits.
pub open spec fn decode_spec(bits: Seq<bool>) -> Result<(NestedList, nat), DecodeError>
    decreases bits.len(),
{
    if bits.len() < 2 {
        Err(DecodeError::UnexpectedEnd)
    } else if !bits[0] && !bits[1] {
        Ok((NestedList::Nil, 2))
    } else if bits[0] && bits[1] {
        match decode_spec(bits.skip(2)) {
            Ok((a, c1)) => {
                if 2 + c1 <= bits.len() {
                    match decode_spec(bits.skip(2 + c1 as int)) {
                        Ok((b, c2)) => Ok(
                            (NestedList::Cons(Box::new(a), Box::new(b)), 2 + c1 + c2),
                        ),
                        Err(e) => Err(e),
                    }
                } else {
                    Err(DecodeError::UnexpectedEnd)
                }
            },
            Err(e) => Err(e),
        }
    } else {
        let rest = bits.skip(2);
        match first_zero(rest) {
            Some(k) => {
                if k + 1 + 4 * k <= rest.len() {
                    let val = bits_val(rest.subrange(k + 1 as int, k + 1 + 4 * k as int));
                    let consumed: nat = 2 + (k + 1) + 4 * k;
                    if bits[1] {
                        if val <= i64::MAX as nat {
                            Ok((NestedList::Number(val as i64), consumed))
                        } else {
                            Err(DecodeError::NumberOutOfRange)
                        }
                    } else {
                        if val <= 0x8000_0000_0000_0000u64 as nat {
                            Ok((NestedList::Number((-(val as int)) as i64), consumed))
                        } else {
                            Err(DecodeError::NumberOutOfRange)
                        }
                    }
                } else {
                    Err(DecodeError::UnexpectedEnd)
                }
            },
            None => Err(DecodeError::UnexpectedEnd),
        }
    }
}

/// Appends the `width`-bit big-endian form of `m` to `out`.
fn push_bits(out: &mut Vec<bool>, m: u64, width: usize)
    ensures
        final(out)@ == old(out)@ + bits_of(m as nat, width as nat),
    decreases width,
{
    if width == 0 {
        assert(out@ =~= old(out)@ + bits_of(m as nat, 0));
    } else {
        push_bits(out, m / 2, width - 1);
        out.push(m % 2 == 1);
        assert(out@ =~= old(out)@ + bits_of(m as nat, width as nat));
    }
}

/// Encodes the number `n` as a bitstream.
pub fn encode_number(n: i64) -> (r: Vec<bool>)
    ensures
        r@ == encode_num_spec(n as int),
{
    let mut out: Vec<bool> = Vec::new();
    if n >= 0 {
        out.push(false);
        out.push(true);
    } else {
        out.push(true);
        out.push(false);
    }
    let mag: u64 = if n >= 0 {
        n as u64
    } else {
        ((-(n + 1)) as u64) + 1
    };
    assert(mag as nat == abs_of(n as int));
    // count the 4-bit groups of the magnitude
    proof {
        lemma_pow2_64();
        lemma_nibble_small(mag as nat, 16);
    }
    let mut k: usize = 0;
    let mut tmp: u64 = mag;
    while tmp > 0
        invariant
            nibble_count(mag as nat) == k + nibble_count(tmp as nat),
            nibble_count(mag as nat) <= 16,
        decreases tmp,
    {
        k = k + 1;
        tmp = tmp / 16;
    }
    assert(nibble_count(mag as nat) == k as nat);
    assert(k <= 16);
    // unary group count: k ones, then a zero
    let mut i: usize = 0;
    while i < k
        invariant
            i <= k,
            out@ == encode_num_spec(n as int).subrange(0, 2) + Seq::new(i as nat, |j: int| true),
        decreases k - i,
    {
        out.push(true);
        i = i + 1;
    }
    out.push(false);
    assert(out@ =~= encode_num_spec(n as int).subrange(0, 2) + unary(k as nat));
    push_bits(&mut out, mag, 4 * k);
    proof {
        let s = encode_num_spec(n as int);
        assert(s.subrange(0, 2) =~= if n >= 0 {
            seq![false, true]
        } else {
            seq![true, false]
        });
        assert(out@ =~= s);
    }
    out
}

/// Encodes a whole value — nil, number, or pair — as a bitstream.
pub fn encode(l: &NestedList) -> (r: Vec<bool>)
    ensures
        r@ == encode_list_spec(*l),
    decreases *l,
{
    match l {
        NestedList::Nil => {
            let mut out: Vec<bool> = Vec::new();
            out.push(false);
            out.push(false);
            assert(out@ =~= encode_list_spec(NestedList::Nil));
            out
        },
        NestedList::Number(n) => encode_number(*n),
        NestedList::Cons(a, b) => {
            let mut out: Vec<bool> = Vec::new();
            out.push(true);
            out.push(true);
            let mut ea = encode(a);
            let mut eb = encode(b);
            out.append(&mut ea);
            out.append(&mut eb);
            proof {
                assert(out@ =~= encode_list_spec(*l));
            }
            out
        },
    }
}

proof fn lemma_nibble_count_bound(m: nat)
    ensures
        m < pow2(4 * nibble_count(m)),
    decreases m,
{
    if m == 0 {
        assert(pow2(0) == 1);
    } else {
        lemma_nibble_count_bound(m / 16);
        let k = nibble_count(m);
        assert(pow2(4 * k) == 16 * pow2((4 * k - 4) as nat)) by {
            assert(pow2(4 * k) == 2 * pow2((4 * k - 1) as nat));
            assert(pow2((4 * k - 1) as nat) == 2 * pow2((4 * k - 2) as nat));
            assert(pow2((4 * k - 2) as nat) == 2 * pow2((4 * k - 3) as nat));
            assert(pow2((4 * k - 3) as nat) == 2 * pow2((4 * k - 4) as nat));
        }
        assert(m / 16 < pow2((4 * k - 4) as nat));
        assert(m < 16 * (m / 16) + 16) by (nonlinear_arith);
        assert(16 * (m / 16) + 16 <= 16 * pow2((4 * k - 4) as nat)) by (nonlinear_arith)
            requires
                m / 16 < pow2((4 * k - 4) as nat),
        ;
    }
}

proof fn lemma_pow2_64()
    ensures
        pow2(64) == 0x1_0000_0000_0000_0000nat,
{
    reveal_with_fuel(pow2, 65);
}

/// The value of two raised to the sixty-third power.
pub proof fn lemma_pow2_63()
    ensures
        pow2(63) == 0x8000_0000_0000_0000nat,
{
    reveal_with_fuel(pow2, 64);
}

/// A value below `16^k` needs at most `k` groups.
proof fn lemma_nibble_small(m: nat, k: nat)
    requires
        m < pow2(4 * k),
    ensures
        nibble_count(m) <= k,
    decreases m,
{
    if m == 0 {
    } else {
        assert(k > 0) by {
            if k == 0 {
                assert(pow2(0) == 1);
            }
        }
        assert(pow2(4 * k) == 16 * pow2((4 * (k - 1)) as nat)) by {
            assert(pow2(4 * k) == 2 * pow2((4 * k - 1) as nat));
            assert(pow2((4 * k - 1) as nat) == 2 * pow2((4 * k - 2) as nat));
            assert(pow2((4 * k - 2) as nat) == 2 * pow2((4 * k - 3) as nat));
            assert(pow2((4 * k - 3) as nat) == 2 * pow2((4 * (k - 1)) as nat));
        }
        assert(m / 16 < pow2((4 * (k - 1)) as nat)) by (nonlinear_arith)
            requires
                m < 16 * pow2((4 * (k - 1)) as nat),
        ;
        lemma_nibble_small(m / 16, (k - 1) as nat);
    }
}

pub proof fn lemma_pow2_increases(a: nat, b: nat)
    requires
        a <= b,
    ensures
        pow2(a) <= pow2(b),
    decreases b,
{
    if a < b {
        lemma_pow2_increases(a, (b - 1) as nat);
        assert(pow2(b) == 2 * pow2((b - 1) as nat));
        assert(pow2((b - 1) as nat) >= 1) by {
            lemma_pow2_pos((b - 1) as nat);
        }
    }
}

proof fn lemma_pow2_pos(e: nat)
    ensures
        pow2(e) >= 1,
    decreases e,
{
    if e > 0 {
        lemma_pow2_pos((e - 1) as nat);
    }
}

/// Reading back the `width`-bit form of `m` yields `m`, provided `m` fits.
proof fn lemma_bits_val_of(m: nat, width: nat)
    requires
        m < pow2(width),
    ensures
        bits_val(bits_of(m, width)) == m,
    decreases width,
{
    if width == 0 {
        assert(pow2(0) == 1);
    } else {
        assert(m / 2 < pow2((width - 1) as nat)) by (nonlinear_arith)
            requires
                m < 2 * pow2((width - 1) as nat),
        ;
        lemma_bits_val_of(m / 2, (width - 1) as nat);
        let s = bits_of(m / 2, (width - 1) as nat);
        let b = m % 2 == 1;
        assert(bits_of(m, width) == s.push(b));
        assert(s.push(b).drop_last() =~= s);
        assert(s.push(b).last() == b);
        assert(m == 2 * (m / 2) + m % 2) by (nonlinear_arith);
    }
}

proof fn lemma_bits_of_len(m: nat, width: nat)
    ensures
        bits_of(m, width).len() == width,
    decreases width,
{
    if width > 0 {
        lemma_bits_of_len(m / 2, (width - 1) as nat);
    }
}

/// `first_zero` finds the first `false`.
proof fn lemma_first_zero_at(s: Seq<bool>, i: int)
    requires
        0 <= i < s.len(),
        forall|j: int| 0 <= j < i ==> s[j],
        !s[i],
    ensures
        first_zero(s) == Some(i as nat),
    decreases i,
{
    if i == 0 {
    } else {
        let t = s.skip(1);
        assert(forall|j: int| 0 <= j < i - 1 ==> t[j] == s[j + 1]);
        lemma_first_zero_at(t, i - 1);
    }
}

/// The number encoding decodes back to the number, whatever follows it.
proof fn lemma_decode_number(n: i64, rest: Seq<bool>)
    ensures
        decode_spec(encode_num_spec(n as int) + rest) == Ok::<(NestedList, nat), DecodeError>(
            (NestedList::Number(n), encode_num_spec(n as int).len() as nat),
        ),
{
    let enc = encode_num_spec(n as int);
    let s = enc + rest;
    let mag = abs_of(n as int);
    let k = nibble_count(mag);
    let sign: Seq<bool> = if n >= 0 {
        seq![false, true]
    } else {
        seq![true, false]
    };
    lemma_bits_of_len(mag, 4 * k);
    assert(enc.len() == 2 + (k + 1) + 4 * k);
    assert(s.len() >= 2);
    assert(s[0] == sign[0] && s[1] == sign[1]);
    let body = s.skip(2);
    assert(body =~= unary(k) + bits_of(mag, 4 * k) + rest);
    assert(forall|j: int| 0 <= j < k ==> body[j]);
    assert(!body[k as int]);
    lemma_first_zero_at(body, k as int);
    assert(k + 1 + 4 * k <= body.len());
    assert(body.subrange(k + 1 as int, k + 1 + 4 * k as int) =~= bits_of(mag, 4 * k));
    assert(mag < pow2(4 * k)) by {
        lemma_nibble_count_bound(mag);
    }
    lemma_bits_val_of(mag, 4 * k);
    assert(bits_val(body.subrange(k + 1 as int, k + 1 + 4 * k as int)) == mag);
    if n >= 0 {
        assert(mag <= i64::MAX as nat);
        assert(mag as i64 == n);
    } else {
        assert(mag <= 0x8000_0000_0000_0000u64 as nat);
        assert((-(mag as int)) as i64 == n);
    }
}

proof fn lemma_first_zero_none(s: Seq<bool>)
    requires
        forall|j: int| 0 <= j < s.len() ==> s[j],
    ensures
        first_zero(s) == None::<nat>,
    decreases s.len(),
{
    if s.len() > 0 {
        let t = s.skip(1);
        assert(forall|j: int| 0 <= j < t.len() ==> t[j] == s[j + 1]);
        lemma_first_zero_none(t);
    }
}

/// Decodes one value starting at `pos`, returning the value and the position
/// just past it.
#[verifier::rlimit(100)]
fn decode_at(bits: &Vec<bool>, pos: usize) -> (r: Result<(NestedList, usize), DecodeError>)
    requires
        pos <= bits@.len(),
    ensures
        match decode_spec(bits@.skip(pos as int)) {
            Ok(vc) => r matches Ok(p) && p.0 == vc.0 && p.1 as nat == pos + vc.1 && pos + vc.1
                <= bits@.len(),
            Err(e) => r matches Err(e2) && e2 == e,
        },
    decreases bits@.len() - pos,
{
    let n = bits.len();
    let ghost s = bits@.skip(pos as int);
    if n - pos < 2 {
        return Err(DecodeError::UnexpectedEnd);
    }
    let b0 = bits[pos];
    let b1 = bits[pos + 1];
    if !b0 && !b1 {
        Ok((NestedList::Nil, pos + 2))
    } else if b0 && b1 {
        proof {
            assert(s.skip(2) =~= bits@.skip(pos + 2));
        }
        match decode_at(bits, pos + 2) {
            Ok(first) => {
                let (a, p1) = first;
                proof {
                    let c1 = (p1 - pos - 2) as nat;
                    assert(s.skip(2 + c1 as int) =~= bits@.skip(p1 as int));
                }
                match decode_at(bits, p1) {
                    Ok(second) => {
                        let (b, p2) = second;
                        Ok((NestedList::Cons(Box::new(a), Box::new(b)), p2))
                    },
                    Err(e) => Err(e),
                }
            },
            Err(e) => Err(e),
        }
    } else {
        let ghost rest = s.skip(2);
        proof {
            assert(rest =~= bits@.skip(pos + 2));
        }
        // scan the unary group count: ones up to the terminating zero
        let mut q: usize = pos + 2;
        while q < n && bits[q]
            invariant
                pos + 2 <= q <= n,
                n == bits@.len(),
                forall|j: int| pos + 2 <= j < q ==> bits@[j],
            decreases n - q,
        {
            q = q + 1;
        }
        if q == n {
            proof {
                lemma_first_zero_none(rest);
            }
            return Err(DecodeError::UnexpectedEnd);
        }
        let k = q - (pos + 2);
        proof {
            assert(forall|j: int| 0 <= j < k ==> rest[j] == bits@[pos + 2 + j]);
            assert(!rest[k as int]);
            lemma_first_zero_at(rest, k as int);
        }
        // the 4k magnitude bits must all be present
        if k > (n - (q + 1)) / 4 {
            assert(k + 1 + 4 * k > rest.len());
            return Err(DecodeError::UnexpectedEnd);
        }
        let start = q + 1;
        let width = 4 * k;
        let ghost mb = rest.subrange(k + 1 as int, k + 1 + 4 * (k as int));
        proof {
            assert(mb =~= bits@.subrange(start as int, (start + width) as int));
        }
        let mut val: u64 = 0;
        let mut too_big = false;
        let mut j: usize = 0;
        while j < width
            invariant
                0 <= j <= width,
                start + width <= n,
                n == bits@.len(),
                mb == bits@.subrange(start as int, (start + width) as int),
                mb.len() == width,
                !too_big ==> val as nat == bits_val(mb.take(j as int)) && val as nat <= u64::MAX,
                too_big ==> bits_val(mb.take(j as int)) > 0x8000_0000_0000_0000u64 as nat,
            decreases width - j,
        {
            let bit = bits[start + j];
            proof {
                assert(mb.take(j + 1).drop_last() =~= mb.take(j as int));
                assert(mb.take(j + 1).last() == mb[j as int]);
                assert(mb[j as int] == bit);
            }
            if !too_big {
                if val >= 0x8000_0000_0000_0000u64 {
                    too_big = true;
                } else {
                    val = val * 2 + (if bit {
                        1u64
                    } else {
                        0u64
                    });
                }
            }
            j = j + 1;
        }
        proof {
            assert(mb.take(width as int) =~= mb);
        }
        let consumed_end = start + width;
        if b1 {
            // non-negative
            if too_big {
                Err(DecodeError::NumberOutOfRange)
            } else if val <= i64::MAX as u64 {
                Ok((NestedList::Number(val as i64), consumed_end))
            } else {
                Err(DecodeError::NumberOutOfRange)
            }
        } else {
            // negative
            if too_big {
                Err(DecodeError::NumberOutOfRange)
            } else if val <= 0x8000_0000_0000_0000u64 {
                let num: i64 = if val == 0x8000_0000_0000_0000u64 {
                    i64::MIN
                } else {
                    -(val as i64)
                };
                Ok((NestedList::Number(num), consumed_end))
            } else {
                Err(DecodeError::NumberOutOfRange)
            }
        }
    }
}

/// Decodes one value from the front of `bits`, reporting how many bits of the
/// stream it consumed so that concatenated values can be decoded in turn.
pub fn decode(bits: &Vec<bool>) -> (r: Result<(NestedList, usize), DecodeError>)
    ensures
        match decode_spec(bits@) {
            Ok(vc) => r matches Ok(p) && p.0 == vc.0 && p.1 as nat == vc.1 && vc.1 <= bits@.len(),
            Err(e) => r matches Err(e2) && e2 == e,
        },
{
    proof {
        assert(bits@.skip(0) =~= bits@);
    }
    decode_at(bits, 0)
}

/// Round trip: decoding an encoded value yields that value back and consumes
/// exactly its encoding, whatever bits follow it in the stream.
pub proof fn lemma_decode_encode(l: NestedList, rest: Seq<bool>)
    ensures
        decode_spec(encode_list_spec(l) + rest) == Ok::<(NestedList, nat), DecodeError>(
            (l, encode_list_spec(l).len() as nat),
        ),
    decreases l,
{
    let enc = encode_list_spec(l);
    let s = enc + rest;
    match l {
        NestedList::Nil => {
            assert(s.len() >= 2 && !s[0] && !s[1]);
        },
        NestedList::Number(n) => {
            lemma_decode_number(n, rest);
        },
        NestedList::Cons(a, b) => {
            let ea = encode_list_spec(*a);
            let eb = encode_list_spec(*b);
            assert(s.len() >= 2 && s[0] && s[1]) by {
                lemma_encode_len(*a);
            }
            assert(s.skip(2) =~= ea + (eb + rest));
            lemma_decode_encode(*a, eb + rest);
            let c1 = ea.len() as nat;
            lemma_encode_len(*a);
            lemma_encode_len(*b);
            assert(2 + c1 <= s.len());
            assert(s.skip(2 + c1 as int) =~= eb + rest);
            lemma_decode_encode(*b, rest);
        },
    }
}

/// Every encoding is at least two bits long.
pub proof fn lemma_encode_len(l: NestedList)
    ensures
        encode_list_spec(l).len() >= 2,
{
    match l {
        NestedList::Nil => {},
        NestedList::Number(n) => {
            let mag = abs_of(n as int);
            lemma_bits_of_len(mag, 4 * nibble_count(mag));
        },
        NestedList::Cons(a, b) => {},
    }
}

/// Round trip for a lone number: `decode` after `encode_number` gives the
/// number back and consumes the whole stream.
pub proof fn lemma_number_round_trip(n: i64)
    ensures
        decode_spec(encode_num_spec(n as int)) == Ok::<(NestedList, nat), DecodeError>(
            (NestedList::Number(n), encode_num_spec(n as int).len() as nat),
        ),
{
    let enc = encode_num_spec(n as int);
    assert(enc + Seq::<bool>::empty() =~= enc);
    lemma_decode_number(n, Seq::empty());
}

} // verus!
