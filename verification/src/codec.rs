//! Length-prefixed frames over a byte stream.
//!
//! A frame is the payload's length as a variable-length integer, then the
//! payload itself. The length is written in base 128, lowest digit first,
//! one digit per byte, with the top bit set on every byte but the last and
//! no superfluous zero digit. A payload is the archived form of one packet;
//! this module neither produces nor inspects it.
//!
//! Decoding is defined by encoding: a buffer holds a frame exactly when it
//! starts with the encoding of some payload, it is incomplete exactly when
//! more bytes could still turn it into one, and it is corrupt otherwise.

use vstd::prelude::*;

verus! {

/// Largest payload length that a frame can announce.
pub const MAX_PAYLOAD_LEN: u64 = u64::MAX;

/// Most bytes that a length prefix can take.
pub const MAX_PREFIX_LEN: usize = 10;

/// The length prefix of a payload of `n` bytes.
pub open spec fn varint(n: nat) -> Seq<u8>
    decreases n,
{
    if n < 128 {
        seq![n as u8]
    } else {
        seq![(128 + n % 128) as u8] + varint(n / 128)
    }
}

/// The bytes that carry `payload` on the wire.
pub open spec fn frame(payload: Seq<u8>) -> Seq<u8> {
    varint(payload.len()) + payload
}

/// `bytes` starts with the whole frame of `payload`.
pub open spec fn holds_frame(bytes: Seq<u8>, payload: Seq<u8>) -> bool {
    payload.len() <= MAX_PAYLOAD_LEN && frame(payload).is_prefix_of(bytes)
}

/// `bytes` is a beginning of the frame of `payload`, and not all of it.
pub open spec fn starts_frame(bytes: Seq<u8>, payload: Seq<u8>) -> bool {
    payload.len() <= MAX_PAYLOAD_LEN && bytes.len() < frame(payload).len() && bytes.is_prefix_of(
        frame(payload),
    )
}

/// What a buffer holds at its front.
pub enum Decoded {
    /// A whole frame, with this payload.
    Frame { payload: Seq<u8> },
    /// The beginning of a frame: more bytes are needed.
    Incomplete,
    /// Bytes that no frame begins with.
    Corrupt,
}

/// What the front of `bytes` decodes to.
pub open spec fn decoded(bytes: Seq<u8>) -> Decoded {
    if exists|payload: Seq<u8>| holds_frame(bytes, payload) {
        Decoded::Frame { payload: choose|payload: Seq<u8>| holds_frame(bytes, payload) }
    } else if exists|payload: Seq<u8>| starts_frame(bytes, payload) {
        Decoded::Incomplete
    } else {
        Decoded::Corrupt
    }
}

/// Why a buffer cannot be decoded. Such a connection must be closed.
#[derive(Clone, Copy, Debug, PartialEq, Eq, Structural)]
pub enum CodecError {
    /// The buffer begins with bytes that no frame begins with.
    CorruptFrame,
}

impl CodecError {
    pub open spec fn spec_message(self) -> Seq<char> {
        "corrupt frame"@
    }

    /// The text shown for this error.
    pub fn message(&self) -> (text: &'static str)
        ensures
            text@ == self.spec_message(),
    {
        "corrupt frame"
    }
}

spec fn pow128(i: nat) -> nat
    decreases i,
{
    if i == 0 {
        1
    } else {
        128 * pow128((i - 1) as nat)
    }
}

/// Every byte announces a further byte.
spec fn all_continue(digits: Seq<u8>) -> bool {
    forall|j: int| 0 <= j < digits.len() ==> digits[j] >= 128
}

/// The number that a run of continuation bytes contributes to a length.
spec fn digits_value(digits: Seq<u8>) -> nat
    decreases digits.len(),
{
    if digits.len() == 0 {
        0
    } else {
        (digits[0] - 128) as nat + 128 * digits_value(digits.skip(1))
    }
}

/// One of the two sequences begins with the other.
spec fn comparable(a: Seq<u8>, b: Seq<u8>) -> bool {
    a.is_prefix_of(b) || b.is_prefix_of(a)
}

proof fn lemma_pow128_values()
    ensures
        pow128(0) == 1,
        pow128(1) == 0x80,
        pow128(2) == 0x4000,
        pow128(3) == 0x20_0000,
        pow128(4) == 0x1000_0000,
        pow128(5) == 0x8_0000_0000,
        pow128(6) == 0x400_0000_0000,
        pow128(7) == 0x2_0000_0000_0000,
        pow128(8) == 0x100_0000_0000_0000,
        pow128(9) == 0x8000_0000_0000_0000,
        pow128(10) == 0x40_0000_0000_0000_0000,
{
    reveal_with_fuel(pow128, 11);
}

proof fn lemma_pow128_bound(i: nat)
    requires
        i <= 9,
    ensures
        pow128(i) <= 0x8000_0000_0000_0000,
        i <= 8 ==> pow128(i) <= 0x100_0000_0000_0000,
{
    lemma_pow128_values();
    assert(i == 0 || i == 1 || i == 2 || i == 3 || i == 4 || i == 5 || i == 6 || i == 7 || i == 8
        || i == 9);
}

proof fn lemma_pow128_step(i: nat, rest: nat)
    ensures
        pow128(i + 1) * rest == 128 * (pow128(i) * rest),
        pow128(i + 1) == 128 * pow128(i),
{
    assert(pow128(i + 1) == 128 * pow128(i));
    assert((128 * pow128(i)) * rest == 128 * (pow128(i) * rest)) by (nonlinear_arith);
}

/// A length prefix is never empty, sets the top bit on every byte but the
/// last, and ends in a zero byte only when it is the single byte zero.
proof fn lemma_varint_shape(n: nat)
    ensures
        varint(n).len() >= 1,
        all_continue(varint(n).take(varint(n).len() - 1)),
        varint(n).last() < 128,
        varint(n).len() > 1 ==> varint(n).last() >= 1,
        n < 128 <==> varint(n)[0] < 128,
        n < 128 ==> varint(n) == seq![n as u8],
    decreases n,
{
    if n >= 128 {
        lemma_varint_shape(n / 128);
        let head = seq![(128 + n % 128) as u8];
        let tail = varint(n / 128);
        let whole = varint(n);
        assert(whole == head + tail);
        assert(whole.last() == tail.last());
        let lead = whole.take(whole.len() - 1);
        let tail_lead = tail.take(tail.len() - 1);
        assert forall|j: int| 0 <= j < lead.len() implies lead[j] >= 128 by {
            if j > 0 {
                assert(whole[j] == tail[j - 1]);
                assert(tail_lead[j - 1] == tail[j - 1]);
            }
        }
    }
}

/// A run of continuation bytes followed by the prefix of `rest` is the
/// prefix of the number that they spell together.
proof fn lemma_digits_then_rest(digits: Seq<u8>, rest: nat)
    requires
        all_continue(digits),
        digits.len() == 0 || rest >= 1,
    ensures
        varint(digits_value(digits) + pow128(digits.len()) * rest) == digits + varint(rest),
    decreases digits.len(),
{
    if digits.len() == 0 {
        assert(pow128(0) * rest == rest) by (nonlinear_arith)
            requires
                pow128(0) == 1,
        ;
        assert(digits + varint(rest) =~= varint(rest));
    } else {
        let tail = digits.skip(1);
        let inner = digits_value(tail) + pow128(tail.len()) * rest;
        lemma_digits_then_rest(tail, rest);
        lemma_pow128_step(tail.len(), rest);
        lemma_pow128_positive(tail.len());
        assert(pow128(tail.len()) * rest >= 1) by (nonlinear_arith)
            requires
                pow128(tail.len()) >= 1,
                rest >= 1,
        ;
        let n = digits_value(digits) + pow128(digits.len()) * rest;
        assert(n == (digits[0] - 128) + 128 * inner);
        assert(n >= 128);
        assert(n % 128 == digits[0] - 128);
        assert(n / 128 == inner);
        assert(varint(n) == seq![digits[0]] + varint(inner));
        assert(seq![digits[0]] + (tail + varint(rest)) =~= digits + varint(rest));
    }
}

proof fn lemma_pow128_positive(i: nat)
    ensures
        pow128(i) >= 1,
    decreases i,
{
    if i > 0 {
        lemma_pow128_positive((i - 1) as nat);
    }
}

/// Appending one continuation byte adds its digit at the next place.
proof fn lemma_digits_push(digits: Seq<u8>, byte: u8)
    requires
        all_continue(digits),
        byte >= 128,
    ensures
        digits_value(digits.push(byte)) == digits_value(digits) + (byte - 128) * pow128(
            digits.len(),
        ),
        digits_value(digits) < pow128(digits.len()),
    decreases digits.len(),
{
    let longer = digits.push(byte);
    if digits.len() == 0 {
        assert(longer.skip(1) =~= Seq::<u8>::empty());
        assert(digits_value(longer.skip(1)) == 0);
        assert(digits_value(longer) == (longer[0] - 128) + 128 * digits_value(longer.skip(1)));
        assert((byte - 128) * pow128(0) == byte - 128) by (nonlinear_arith)
            requires
                pow128(0) == 1,
        ;
    } else {
        let tail = digits.skip(1);
        lemma_digits_push(tail, byte);
        assert(longer.skip(1) =~= tail.push(byte));
        assert(digits_value(longer) == (longer[0] - 128) + 128 * digits_value(longer.skip(1)));
        assert(digits_value(digits) == (digits[0] - 128) + 128 * digits_value(tail));
        assert(pow128(digits.len()) == 128 * pow128(tail.len()));
        assert((byte - 128) * pow128(digits.len()) == 128 * ((byte - 128) * pow128(tail.len())))
            by (nonlinear_arith)
            requires
                pow128(digits.len()) == 128 * pow128(tail.len()),
        ;
    }
}

/// If the prefix of `n` and `bytes` agree as far as both reach, and `bytes`
/// opens with `count` continuation bytes, then those bytes are the low
/// digits of `n`. Returns what is left of `n` above them.
proof fn lemma_shared_digits(bytes: Seq<u8>, count: nat, n: nat) -> (rest: nat)
    requires
        count <= bytes.len(),
        all_continue(bytes.take(count as int)),
        comparable(varint(n), bytes),
    ensures
        n == digits_value(bytes.take(count as int)) + pow128(count) * rest,
        count > 0 ==> rest >= 1,
        varint(n) == bytes.take(count as int) + varint(rest),
        comparable(varint(rest), bytes.skip(count as int)),
    decreases count,
{
    if count == 0 {
        assert(pow128(0) * n == n) by (nonlinear_arith)
            requires
                pow128(0) == 1,
        ;
        assert(bytes.take(0) + varint(n) =~= varint(n));
        assert(bytes.skip(0) =~= bytes);
        n
    } else {
        lemma_varint_shape(n);
        let digits = bytes.take(count as int);
        assert(digits[0] >= 128);
        assert(varint(n)[0] == bytes[0]);
        let below = bytes.skip(1);
        let inner = n / 128;
        assert(varint(n) == seq![bytes[0]] + varint(inner));
        assert(comparable(varint(inner), below)) by {
            if varint(n).is_prefix_of(bytes) {
                assert(varint(inner) =~= below.subrange(0, varint(inner).len() as int)) by {
                    assert forall|j: int| 0 <= j < varint(inner).len() implies varint(inner)[j]
                        == below[j] by {
                        assert(varint(n)[j + 1] == varint(inner)[j]);
                        assert(bytes.subrange(0, varint(n).len() as int)[j + 1] == bytes[j + 1]);
                    }
                }
            } else {
                assert(below =~= varint(inner).subrange(0, below.len() as int)) by {
                    assert forall|j: int| 0 <= j < below.len() implies below[j] == varint(
                        inner,
                    )[j] by {
                        assert(varint(n)[j + 1] == varint(inner)[j]);
                        assert(varint(n).subrange(0, bytes.len() as int)[j + 1] == bytes[j + 1]);
                    }
                }
            }
        }
        let below_digits = below.take(count - 1);
        assert(below_digits =~= digits.skip(1));
        assert forall|j: int| 0 <= j < below_digits.len() implies below_digits[j] >= 128 by {
            assert(digits[j + 1] >= 128);
        }
        let rest = lemma_shared_digits(below, (count - 1) as nat, inner);
        lemma_pow128_step((count - 1) as nat, rest);
        assert(seq![bytes[0]] + (digits.skip(1) + varint(rest)) =~= digits + varint(rest));
        assert(below.skip(count - 1) =~= bytes.skip(count as int));
        rest
    }
}

/// No two lengths have prefixes of which one continues the other.
proof fn lemma_varint_unique(bytes: Seq<u8>, a: nat, b: nat)
    requires
        varint(a).is_prefix_of(bytes),
        comparable(varint(b), bytes),
    ensures
        a == b,
{
    lemma_varint_shape(a);
    let count = (varint(a).len() - 1) as nat;
    assert(bytes.take(count as int) =~= varint(a).take(count as int));
    assert(comparable(varint(a), bytes));
    let rest_a = lemma_shared_digits(bytes, count, a);
    let rest_b = lemma_shared_digits(bytes, count, b);
    lemma_varint_shape(rest_a);
    lemma_varint_shape(rest_b);
    let last = bytes[count as int];
    assert(varint(a)[count as int] == last);
    assert(last < 128);
    assert(bytes.skip(count as int)[0] == last);
    assert(varint(rest_a).len() == 1);
    assert(varint(rest_a)[0] == last) by {
        assert((bytes.take(count as int) + varint(rest_a))[count as int] == varint(rest_a)[0]);
    }
    assert(varint(rest_b)[0] == last);
    assert(rest_a == last);
    assert(rest_b == last);
}

/// Appends the length prefix of `value`.
fn put_varint(value: u64, out: &mut Vec<u8>)
    ensures
        final(out)@ == old(out)@ + varint(value as nat),
{
    let mut n: u64 = value;
    while n >= 128
        invariant
            old(out)@ + varint(value as nat) == out@ + varint(n as nat),
        decreases n,
    {
        let ghost before = out@;
        let byte: u8 = (128 + n % 128) as u8;
        out.push(byte);
        proof {
            assert(varint(n as nat) == seq![byte] + varint((n / 128) as nat));
            assert(before + (seq![byte] + varint((n / 128) as nat)) =~= before.push(byte) + varint(
                (n / 128) as nat,
            ));
        }
        n = n / 128;
    }
    let ghost before = out@;
    out.push(n as u8);
    proof {
        assert(before + varint(n as nat) =~= before.push(n as u8));
    }
}

/// Appends the frame of `payload` to `out`.
///
/// Nothing but `out` is touched, and nothing already in it is changed.
pub fn encode(payload: &[u8], out: &mut Vec<u8>)
    ensures
        final(out)@ == old(out)@ + frame(payload@),
{
    put_varint(payload.len() as u64, out);
    let ghost with_prefix = out@;
    out.extend_from_slice(payload);
    proof {
        assert(out@ =~= with_prefix + payload@);
        assert(old(out)@ + frame(payload@) =~= with_prefix + payload@);
    }
}

/// What the first bytes of a buffer say as a length prefix.
enum Prefix {
    /// A whole prefix of `len` bytes that announces `value`.
    Length { value: u64, len: usize },
    /// Continuation bytes only, and fewer than a prefix may take.
    Short,
    /// Bytes that no prefix begins with.
    Malformed,
}

/// Reads the length prefix at the front of `buf`.
fn read_prefix(buf: &Vec<u8>) -> (prefix: Prefix)
    ensures
        match prefix {
            Prefix::Length { value, len } => {
                &&& 1 <= len <= MAX_PREFIX_LEN
                &&& len <= buf@.len()
                &&& buf@.take(len as int) == varint(value as nat)
            },
            Prefix::Short => buf@.len() < MAX_PREFIX_LEN && all_continue(buf@),
            Prefix::Malformed => forall|n: nat|
                n <= MAX_PAYLOAD_LEN ==> !comparable(#[trigger] varint(n), buf@),
        },
{
    let mut value: u64 = 0;
    let mut scale: u64 = 1;
    let mut i: usize = 0;
    proof {
        lemma_pow128_values();
    }
    while i < buf.len()
        invariant
            i <= buf@.len(),
            i < MAX_PREFIX_LEN,
            all_continue(buf@.take(i as int)),
            value == digits_value(buf@.take(i as int)),
            value < scale,
            scale == pow128(i as nat),
        decreases buf@.len() - i,
    {
        let byte: u8 = buf[i];
        let ghost digits = buf@.take(i as int);
        proof {
            lemma_pow128_values();
            lemma_pow128_bound(i as nat);
            assert(buf@.skip(i as int)[0] == byte);
        }
        if byte >= 128 {
            proof {
                assert(buf@.take(i + 1) =~= digits.push(byte));
                lemma_digits_push(digits, byte);
            }
            if i == 9 {
                proof {
                    assert forall|n: nat| n <= MAX_PAYLOAD_LEN implies !comparable(
                        #[trigger] varint(n),
                        buf@,
                    ) by {
                        if comparable(varint(n), buf@) {
                            let rest = lemma_shared_digits(buf@, 10, n);
                            assert(pow128(10) * rest >= pow128(10)) by (nonlinear_arith)
                                requires
                                    rest >= 1,
                            ;
                        }
                    }
                }
                return Prefix::Malformed;
            }
            proof {
                assert((byte - 128) * scale <= 127 * scale) by (nonlinear_arith)
                    requires
                        byte - 128 <= 127,
                ;
                assert(pow128((i + 1) as nat) == 128 * pow128(i as nat));
            }
            value = value + ((byte - 128) as u64) * scale;
            scale = scale * 128;
            i = i + 1;
        } else {
            if (i > 0 && byte == 0) || (i == 9 && byte >= 2) {
                proof {
                    assert forall|n: nat| n <= MAX_PAYLOAD_LEN implies !comparable(
                        #[trigger] varint(n),
                        buf@,
                    ) by {
                        if comparable(varint(n), buf@) {
                            let rest = lemma_shared_digits(buf@, i as nat, n);
                            lemma_varint_shape(rest);
                            assert(varint(rest)[0] == byte);
                            assert(rest == byte);
                            if i == 9 {
                                assert(pow128(9) * rest >= pow128(9) * 2) by (nonlinear_arith)
                                    requires
                                        rest >= 2,
                                ;
                            }
                        }
                    }
                }
                return Prefix::Malformed;
            }
            proof {
                lemma_digits_then_rest(digits, byte as nat);
                assert(digits + varint(byte as nat) =~= buf@.take(i + 1));
                assert(byte * scale <= 127 * scale) by (nonlinear_arith)
                    requires
                        byte <= 127,
                ;
                if i == 9 {
                    assert(byte * scale <= scale) by (nonlinear_arith)
                        requires
                            byte <= 1,
                    ;
                }
                assert(pow128(i as nat) * (byte as nat) == byte * scale) by (nonlinear_arith)
                    requires
                        scale == pow128(i as nat),
                ;
            }
            let total: u64 = value + (byte as u64) * scale;
            return Prefix::Length { value: total, len: i + 1 };
        }
    }
    proof {
        assert(buf@.take(i as int) =~= buf@);
    }
    Prefix::Short
}

/// A buffer that starts with a whole length prefix holds at most one
/// payload, and can only grow into the frame of one length.
proof fn lemma_prefix_fixes_payload(bytes: Seq<u8>, value: nat, len: nat, payload: Seq<u8>)
    requires
        len <= bytes.len(),
        bytes.take(len as int) == varint(value),
        holds_frame(bytes, payload) || starts_frame(bytes, payload),
    ensures
        payload.len() == value,
        holds_frame(bytes, payload) ==> len + value <= bytes.len() && payload == bytes.subrange(
            len as int,
            (len + value) as int,
        ),
        starts_frame(bytes, payload) ==> bytes.len() < len + value,
{
    assert(varint(value).is_prefix_of(bytes));
    lemma_frame_comparable(bytes, payload);
    lemma_varint_unique(bytes, value, payload.len());
    assert(varint(value).len() == len);
    if holds_frame(bytes, payload) {
        assert(payload =~= bytes.subrange(len as int, (len + value) as int)) by {
            assert forall|j: int| 0 <= j < payload.len() implies payload[j] == bytes[len + j] by {
                assert(frame(payload)[len + j] == payload[j]);
                assert(bytes.subrange(0, frame(payload).len() as int)[len + j] == bytes[len + j]);
            }
        }
    }
}

/// Takes the first frame off the front of `buf`.
///
/// With a whole frame at its front, `buf` loses that frame and the payload
/// is returned. With only the beginning of a frame, `Ok(None)` asks for more
/// bytes; with bytes that no frame begins with, the error reports it. In
/// both of these cases `buf` is left as it was, so that the same call can be
/// made again once more bytes have been appended.
pub fn decode(buf: &mut Vec<u8>) -> (result: Result<Option<Vec<u8>>, CodecError>)
    ensures
        match decoded(old(buf)@) {
            Decoded::Frame { payload } => {
                &&& result matches Ok(Some(taken))
                &&& taken@ == payload
                &&& final(buf)@ == old(buf)@.skip(frame(payload).len() as int)
            },
            Decoded::Incomplete => result == Ok::<Option<Vec<u8>>, CodecError>(None) && final(buf)@
                == old(buf)@,
            Decoded::Corrupt => result == Err::<Option<Vec<u8>>, CodecError>(
                CodecError::CorruptFrame,
            ) && final(buf)@ == old(buf)@,
        },
{
    let ghost bytes = buf@;
    match read_prefix(buf) {
        Prefix::Malformed => {
            proof {
                assert forall|payload: Seq<u8>|
                    !holds_frame(bytes, payload) && !starts_frame(bytes, payload) by {
                    if holds_frame(bytes, payload) || starts_frame(bytes, payload) {
                        lemma_frame_comparable(bytes, payload);
                    }
                }
            }
            Err(CodecError::CorruptFrame)
        },
        Prefix::Short => {
            proof {
                assert forall|payload: Seq<u8>| !holds_frame(bytes, payload) by {
                    if holds_frame(bytes, payload) {
                        lemma_frame_comparable(bytes, payload);
                        lemma_varint_shape(payload.len());
                        let theirs = varint(payload.len());
                        assert(theirs.is_prefix_of(bytes));
                        assert(bytes.subrange(0, theirs.len() as int)[theirs.len() - 1]
                            == theirs.last());
                    }
                }
                lemma_pow128_values();
                lemma_short_can_grow(bytes);
            }
            Ok(None)
        },
        Prefix::Length { value, len } => {
            let available: usize = buf.len() - len;
            if value > available as u64 {
                proof {
                    assert forall|payload: Seq<u8>| !holds_frame(bytes, payload) by {
                        if holds_frame(bytes, payload) {
                            lemma_prefix_fixes_payload(bytes, value as nat, len as nat, payload);
                        }
                    }
                    let filler = Seq::new((value - available) as nat, |j: int| 0u8);
                    let payload = bytes.skip(len as int) + filler;
                    assert(bytes =~= frame(payload).subrange(0, bytes.len() as int));
                    assert(starts_frame(bytes, payload));
                }
                Ok(None)
            } else {
                let size: usize = value as usize;
                let rest = buf.split_off(len + size);
                let payload = buf.split_off(len);
                *buf = rest;
                proof {
                    assert(frame(payload@) =~= bytes.subrange(0, len + size));
                    assert(holds_frame(bytes, payload@));
                    let chosen = choose|chosen: Seq<u8>| holds_frame(bytes, chosen);
                    lemma_prefix_fixes_payload(bytes, value as nat, len as nat, chosen);
                    assert(chosen == payload@);
                    assert(rest@ =~= bytes.skip(frame(payload@).len() as int));
                }
                Ok(Some(payload))
            }
        },
    }
}

/// The length prefix of a frame that `bytes` holds or starts agrees with
/// `bytes` as far as both reach.
proof fn lemma_frame_comparable(bytes: Seq<u8>, payload: Seq<u8>)
    requires
        holds_frame(bytes, payload) || starts_frame(bytes, payload),
    ensures
        comparable(varint(payload.len()), bytes),
        payload.len() <= MAX_PAYLOAD_LEN,
{
    let theirs = varint(payload.len());
    if holds_frame(bytes, payload) {
        assert(theirs =~= bytes.subrange(0, theirs.len() as int)) by {
            assert forall|j: int| 0 <= j < theirs.len() implies theirs[j] == bytes[j] by {
                assert(frame(payload)[j] == theirs[j]);
                assert(bytes.subrange(0, frame(payload).len() as int)[j] == bytes[j]);
            }
        }
    } else if bytes.len() <= theirs.len() {
        assert(bytes =~= theirs.subrange(0, bytes.len() as int)) by {
            assert forall|j: int| 0 <= j < bytes.len() implies bytes[j] == theirs[j] by {
                assert(frame(payload).subrange(0, bytes.len() as int)[j] == frame(payload)[j]);
            }
        }
    } else {
        assert(theirs =~= bytes.subrange(0, theirs.len() as int)) by {
            assert forall|j: int| 0 <= j < theirs.len() implies theirs[j] == bytes[j] by {
                assert(frame(payload).subrange(0, bytes.len() as int)[j] == frame(payload)[j]);
            }
        }
    }
}

/// Fewer continuation bytes than a prefix may take are the beginning of
/// some frame.
proof fn lemma_short_can_grow(bytes: Seq<u8>)
    requires
        bytes.len() < MAX_PREFIX_LEN,
        all_continue(bytes),
    ensures
        exists|payload: Seq<u8>| starts_frame(bytes, payload),
{
    lemma_pow128_values();
    lemma_digits_then_rest(bytes, 1);
    if bytes.len() > 0 {
        let lead = bytes.take(bytes.len() - 1);
        assert(bytes =~= lead.push(bytes.last()));
        lemma_digits_push(lead, bytes.last());
        assert((bytes.last() - 128) * pow128(lead.len()) <= 127 * pow128(lead.len()))
            by (nonlinear_arith)
            requires
                bytes.last() - 128 <= 127,
        ;
    }
    let length = digits_value(bytes) + pow128(bytes.len()) * 1;
    assert(digits_value(bytes) < pow128(bytes.len()));
    assert(length <= MAX_PAYLOAD_LEN);
    let payload = Seq::new(length, |j: int| 0u8);
    assert(varint(length) == bytes + varint(1));
    assert(bytes =~= frame(payload).subrange(0, bytes.len() as int));
    assert(starts_frame(bytes, payload));
}

/// Decoding undoes encoding: a buffer that starts with the frame of a
/// payload decodes to that payload, whatever follows the frame.
pub proof fn decode_inverts_encode(payload: Seq<u8>, rest: Seq<u8>)
    requires
        payload.len() <= MAX_PAYLOAD_LEN,
    ensures
        decoded(frame(payload) + rest) == (Decoded::Frame { payload }),
{
    let bytes = frame(payload) + rest;
    let len = varint(payload.len()).len();
    assert(frame(payload) =~= bytes.subrange(0, frame(payload).len() as int));
    assert(holds_frame(bytes, payload));
    assert(bytes.take(len as int) =~= varint(payload.len()));
    let chosen = choose|chosen: Seq<u8>| holds_frame(bytes, chosen);
    lemma_prefix_fixes_payload(bytes, payload.len(), len, chosen);
    lemma_prefix_fixes_payload(bytes, payload.len(), len, payload);
}

/// A frame cut short is incomplete: every beginning of a frame that is
/// shorter than the frame decodes to a request for more bytes, never to a
/// payload and never to an error.
pub proof fn cut_frame_is_incomplete(payload: Seq<u8>, kept: int)
    requires
        payload.len() <= MAX_PAYLOAD_LEN,
        0 <= kept < frame(payload).len(),
    ensures
        decoded(frame(payload).take(kept)) == Decoded::Incomplete,
{
    let whole = frame(payload);
    let bytes = whole.take(kept);
    let len = varint(payload.len()).len();
    assert(bytes =~= whole.subrange(0, bytes.len() as int));
    assert(starts_frame(bytes, payload));
    assert(whole =~= whole.subrange(0, whole.len() as int));
    assert(holds_frame(whole, payload));
    assert(whole.take(len as int) =~= varint(payload.len()));
    assert forall|other: Seq<u8>| !holds_frame(bytes, other) by {
        if holds_frame(bytes, other) {
            assert(frame(other) =~= whole.subrange(0, frame(other).len() as int)) by {
                assert forall|j: int| 0 <= j < frame(other).len() implies frame(other)[j]
                    == whole[j] by {
                    assert(bytes.subrange(0, frame(other).len() as int)[j] == bytes[j]);
                }
            }
            assert(holds_frame(whole, other));
            lemma_prefix_fixes_payload(whole, payload.len(), len, other);
        }
    }
}

} // verus!
