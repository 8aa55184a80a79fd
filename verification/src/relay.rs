//! The relay's framed protocol: each message is a 4-byte little-endian
//! length prefix followed by that many bytes of UTF-8 JSON. This module
//! holds the frame codec, the fixed-shape reply bodies, and the parsing of
//! the detector's decimal output.

use vstd::prelude::*;

verus! {

/// The little-endian reading of four bytes.
pub open spec fn le_value(b0: u8, b1: u8, b2: u8, b3: u8) -> int {
    b0 + b1 * 0x100 + b2 * 0x10000 + b3 * 0x1000000
}

/// The four little-endian bytes of a 32-bit value.
pub open spec fn le_bytes(n: u32) -> Seq<u8> {
    seq![
        (n % 0x100) as u8,
        ((n / 0x100) % 0x100) as u8,
        ((n / 0x10000) % 0x100) as u8,
        ((n / 0x1000000) % 0x100) as u8,
    ]
}

/// Reads a 32-bit value from its four little-endian bytes, as the length
/// prefix of a frame is read.
pub fn le_u32(b0: u8, b1: u8, b2: u8, b3: u8) -> (r: u32)
    ensures
        r == le_value(b0, b1, b2, b3),
{
    b0 as u32 + b1 as u32 * 0x100 + b2 as u32 * 0x10000 + b3 as u32 * 0x1000000
}

/// A payload behind its 4-byte little-endian length prefix.
pub open spec fn framed(payload: Seq<u8>) -> Seq<u8> {
    le_bytes(payload.len() as u32) + payload
}

/// Frames a payload for the wire.
pub fn encode_frame(payload: Vec<u8>) -> (r: Vec<u8>)
    requires
        payload@.len() <= u32::MAX,
    ensures
        r@ == framed(payload@),
{
    let ghost p0 = payload@;
    let len: u32 = payload.len() as u32;
    let mut r: Vec<u8> = Vec::new();
    r.push((len % 0x100) as u8);
    r.push(((len / 0x100) % 0x100) as u8);
    r.push(((len / 0x10000) % 0x100) as u8);
    r.push(((len / 0x1000000) % 0x100) as u8);
    let mut rest = payload;
    r.append(&mut rest);
    proof {
        assert(r@ =~= framed(p0));
    }
    r
}

/// Reading back the four little-endian bytes of a value gives the value.
pub proof fn lemma_le_round_trip(n: u32)
    ensures
        le_value(le_bytes(n)[0], le_bytes(n)[1], le_bytes(n)[2], le_bytes(n)[3]) == n,
{
    assert(n % 0x100 + ((n / 0x100) % 0x100) * 0x100 + ((n / 0x10000) % 0x100) * 0x10000 + ((n
        / 0x1000000) % 0x100) * 0x1000000 == n) by (bit_vector);
}

/// A framed payload decodes back to itself: the prefix reads as its length,
/// and the bytes after the prefix are the payload.
pub proof fn lemma_frame_round_trip(payload: Seq<u8>)
    requires
        payload.len() <= u32::MAX,
    ensures
        framed(payload).len() == 4 + payload.len(),
        le_value(framed(payload)[0], framed(payload)[1], framed(payload)[2], framed(payload)[3])
            == payload.len(),
        framed(payload).subrange(4, framed(payload).len() as int) == payload,
{
    let w = framed(payload);
    lemma_le_round_trip(payload.len() as u32);
    assert(w.subrange(4, w.len() as int) =~= payload);
}

/// What a buffer of available input bytes starts with.
pub enum FrameDecode {
    /// No bytes at all: the input is exhausted, a clean end.
    End,
    /// Some bytes, but fewer than the prefix plus its declared length: a
    /// truncated frame, surfaced as a read failure.
    Truncated,
    /// One whole frame: its payload, and how many bytes it consumed.
    Frame { payload: Vec<u8>, consumed: usize },
}

/// Decodes the frame at the front of a buffer. An empty buffer is a clean
/// end of input; a buffer shorter than the declared frame is a truncated,
/// malformed message.
pub fn decode_frame(buf: &Vec<u8>) -> (r: FrameDecode)
    ensures
        buf@.len() == 0 ==> r is End,
        0 < buf@.len() < 4 ==> r is Truncated,
        buf@.len() >= 4 ==> {
            let declared = le_value(buf@[0], buf@[1], buf@[2], buf@[3]);
            if buf@.len() < 4 + declared {
                r is Truncated
            } else {
                r matches FrameDecode::Frame { payload, consumed }
                    && payload@ == buf@.subrange(4, 4 + declared)
                    && consumed == 4 + declared
            }
        },
{
    let n = buf.len();
    if n == 0 {
        return FrameDecode::End;
    }
    if n < 4 {
        return FrameDecode::Truncated;
    }
    let declared: u32 = le_u32(buf[0], buf[1], buf[2], buf[3]);
    let declared: usize = declared as usize;
    if n < 4 || n - 4 < declared {
        return FrameDecode::Truncated;
    }
    let mut payload: Vec<u8> = Vec::new();
    let mut k: usize = 0;
    while k < declared
        invariant
            n == buf@.len(),
            4 + declared <= n,
            0 <= k <= declared,
            payload@ == buf@.subrange(4, 4 + k),
        decreases declared - k,
    {
        payload.push(buf[4 + k]);
        proof {
            assert(payload@ =~= buf@.subrange(4, 4 + k + 1));
        }
        k = k + 1;
    }
    FrameDecode::Frame { payload, consumed: 4 + declared }
}

/// The decimal digits of a value, most significant first.
pub open spec fn dec_rep(n: nat) -> Seq<u8>
    decreases n,
{
    if n < 10 {
        seq![(48 + n) as u8]
    } else {
        dec_rep(n / 10).push((48 + n % 10) as u8)
    }
}

/// Renders a value in decimal, as the detector prints its answer.
pub fn format_u32(n: u32) -> (r: Vec<u8>)
    ensures
        r@ == dec_rep(n as nat),
    decreases n,
{
    if n < 10 {
        let mut r: Vec<u8> = Vec::new();
        r.push(48 + n as u8);
        proof {
            assert(r@ =~= dec_rep(n as nat));
        }
        r
    } else {
        let mut r = format_u32(n / 10);
        r.push(48 + (n % 10) as u8);
        r
    }
}

/// Decimal rendering is faithful: the digit string of a value is nonempty,
/// all digits, and reads back as the value.
pub proof fn lemma_dec_round_trip(n: nat)
    ensures
        dec_rep(n).len() >= 1,
        all_digits(dec_rep(n)),
        dec_value(dec_rep(n)) == n,
    decreases n,
{
    if n < 10 {
        let s = dec_rep(n);
        assert(s.drop_last() =~= Seq::<u8>::empty());
        assert(dec_value(Seq::<u8>::empty()) == 0);
        assert(dec_value(s) == n);
    } else {
        lemma_dec_round_trip(n / 10);
        let s = dec_rep(n);
        assert(s.drop_last() =~= dec_rep(n / 10));
        assert(s.last() == (48 + n % 10) as u8);
        assert(dec_value(s) == (n / 10) * 10 + n % 10);
        assert(forall|i: int| 0 <= i < s.len() - 1 ==> 48 <= #[trigger] s[i] <= 57);
    }
}

/// ASCII whitespace, as trimmed from the detector's output.
pub open spec fn is_ws(b: u8) -> bool {
    b == 32 || b == 9 || b == 10 || b == 13
}

pub open spec fn all_digits(s: Seq<u8>) -> bool {
    forall|i: int| 0 <= i < s.len() ==> 48 <= #[trigger] s[i] <= 57
}

/// The value of a digit string, most significant first.
pub open spec fn dec_value(s: Seq<u8>) -> nat
    decreases s.len(),
{
    if s.len() == 0 {
        0
    } else {
        (dec_value(s.drop_last()) * 10 + (s.last() - 48)) as nat
    }
}

/// What parsing the detector's primary output means: strip ASCII whitespace
/// at both ends, allow one leading plus sign, then demand at least one
/// digit, nothing but digits, and a value that fits in 32 bits.
pub open spec fn parse_u32_spec(s: Seq<u8>) -> Option<u32> {
    if exists|a: int, b: int| trim_bounds(s, a, b) {
        let (a, b) = choose|a: int, b: int| trim_bounds(s, a, b);
        let t = s.subrange(a, b);
        let d = if t.len() > 0 && t[0] == 43 {
            t.drop_first()
        } else {
            t
        };
        if d.len() > 0 && all_digits(d) && dec_value(d) <= u32::MAX {
            Some(dec_value(d) as u32)
        } else {
            None
        }
    } else {
        None
    }
}

/// `[a, b)` is the whitespace-trimmed core of `s`.
pub open spec fn trim_bounds(s: Seq<u8>, a: int, b: int) -> bool {
    &&& 0 <= a <= b <= s.len()
    &&& forall|k: int| 0 <= k < a ==> is_ws(#[trigger] s[k])
    &&& forall|k: int| b <= k < s.len() ==> is_ws(#[trigger] s[k])
    &&& (a < b ==> !is_ws(s[a]) && !is_ws(s[b - 1]))
    &&& (a == b ==> a == 0)
}

/// Trim bounds are unique, so `parse_u32_spec` picks out one well-defined
/// trimmed core.
pub proof fn lemma_trim_bounds_unique(s: Seq<u8>, a1: int, b1: int, a2: int, b2: int)
    requires
        trim_bounds(s, a1, b1),
        trim_bounds(s, a2, b2),
    ensures
        a1 == a2,
        b1 == b2,
{
    if a1 < b1 && a2 < b2 {
        assert(!is_ws(s[a1]) && !is_ws(s[b1 - 1]));
        assert(!is_ws(s[a2]) && !is_ws(s[b2 - 1]));
        if a1 < a2 {
            assert(is_ws(s[a1]));
        }
        if a2 < a1 {
            assert(is_ws(s[a2]));
        }
        if b1 < b2 {
            assert(is_ws(s[b2 - 1]));
        }
        if b2 < b1 {
            assert(is_ws(s[b1 - 1]));
        }
    } else if a1 < b1 {
        assert(is_ws(s[a1]));
    } else if a2 < b2 {
        assert(is_ws(s[a2]));
    }
}

/// Parses the detector's primary output as an unsigned decimal integer:
/// whitespace-trimmed, optionally plus-signed digits that fit in 32 bits.
pub fn parse_u32(s: &Vec<u8>) -> (r: Option<u32>)
    ensures
        r == parse_u32_spec(s@),
{
    let n = s.len();
    // Find the trimmed core [a, b).
    let mut a: usize = 0;
    while a < n && is_ws_exec(s[a])
        invariant
            n == s@.len(),
            0 <= a <= n,
            forall|k: int| 0 <= k < a ==> is_ws(#[trigger] s@[k]),
        decreases n - a,
    {
        a = a + 1;
    }
    if a == n {
        // All whitespace: the trimmed core is empty.
        proof {
            assert(trim_bounds(s@, 0, 0));
            lemma_parse_is(s@, 0, 0, None);
        }
        return None;
    }
    let mut b: usize = n;
    while b > a && is_ws_exec(s[b - 1])
        invariant
            n == s@.len(),
            0 <= a < b <= n,
            !is_ws(s@[a as int]),
            forall|k: int| 0 <= k < a ==> is_ws(#[trigger] s@[k]),
            forall|k: int| b <= k < n ==> is_ws(#[trigger] s@[k]),
        decreases b,
    {
        b = b - 1;
    }
    proof {
        assert(a < b);
        assert(trim_bounds(s@, a as int, b as int));
    }
    let ghost t = s@.subrange(a as int, b as int);
    // Skip one leading plus sign.
    let mut p: usize = a;
    if s[a] == 43 {
        p = a + 1;
    }
    let ghost d = if t.len() > 0 && t[0] == 43 { t.drop_first() } else { t };
    proof {
        assert(d =~= s@.subrange(p as int, b as int));
    }
    if p == b {
        proof {
            lemma_parse_is(s@, a as int, b as int, None);
        }
        return None;
    }
    // Accumulate the digits, watching for overflow past 32 bits.
    let mut acc: u64 = 0;
    let mut over = false;
    let mut k: usize = p;
    while k < b
        invariant
            n == s@.len(),
            trim_bounds(s@, a as int, b as int),
            t == s@.subrange(a as int, b as int),
            d == (if t.len() > 0 && t[0] == 43 { t.drop_first() } else { t }),
            d =~= s@.subrange(p as int, b as int),
            a <= p < b <= n,
            p <= k <= b,
            all_digits(s@.subrange(p as int, k as int)),
            !over ==> acc <= u32::MAX && acc == dec_value(s@.subrange(p as int, k as int)),
            over ==> dec_value(s@.subrange(p as int, k as int)) > u32::MAX,
        decreases b - k,
    {
        let c = s[k];
        if !(48 <= c && c <= 57) {
            proof {
                assert(d[k - p] == c);
                assert(!all_digits(d));
                lemma_parse_is(s@, a as int, b as int, None);
            }
            return None;
        }
        proof {
            assert(s@.subrange(p as int, k + 1).drop_last() =~= s@.subrange(p as int, k as int));
            assert(s@.subrange(p as int, k + 1).last() == c);
            if over {
                let v = dec_value(s@.subrange(p as int, k as int));
                assert(v * 10 >= v) by (nonlinear_arith)
                    requires v >= 0,
                ;
            }
        }
        if !over {
            acc = acc * 10 + (c - 48) as u64;
            if acc > 0xFFFF_FFFFu64 {
                over = true;
            }
        }
        k = k + 1;
    }
    if over {
        proof {
            assert(s@.subrange(p as int, b as int) =~= d);
            lemma_parse_is(s@, a as int, b as int, None);
        }
        return None;
    }
    proof {
        assert(s@.subrange(p as int, b as int) =~= d);
        lemma_parse_is(s@, a as int, b as int, Some(acc as u32));
    }
    Some(acc as u32)
}

/// What the detector prints, the relay parses back unchanged: rendering a
/// 32-bit value in decimal and parsing the digits yields the value again.
pub proof fn lemma_print_parse_round_trip(n: u32)
    ensures
        parse_u32_spec(dec_rep(n as nat)) == Some(n),
{
    let s = dec_rep(n as nat);
    lemma_dec_round_trip(n as nat);
    assert(!is_ws(s[0]) && !is_ws(s[s.len() - 1]));
    assert(trim_bounds(s, 0, s.len() as int));
    let t = s.subrange(0, s.len() as int);
    assert(t =~= s);
    assert(t[0] != 43);
    lemma_parse_is(s, 0, s.len() as int, Some(n));
}

fn is_ws_exec(b: u8) -> (r: bool)
    ensures
        r == is_ws(b),
{
    b == 32 || b == 9 || b == 10 || b == 13
}

/// Connects an established trimmed core to the parse's defined result.
proof fn lemma_parse_is(s: Seq<u8>, a: int, b: int, r: Option<u32>)
    requires
        trim_bounds(s, a, b),
        ({
            let t = s.subrange(a, b);
            let d = if t.len() > 0 && t[0] == 43 { t.drop_first() } else { t };
            if d.len() > 0 && all_digits(d) && dec_value(d) <= u32::MAX {
                r == Some((dec_value(d) as u32))
            } else {
                r is None
            }
        }),
    ensures
        parse_u32_spec(s) == r,
{
    assert(exists|a2: int, b2: int| trim_bounds(s, a2, b2));
    let (a2, b2) = choose|a2: int, b2: int| trim_bounds(s, a2, b2);
    lemma_trim_bounds_unique(s, a, b, a2, b2);
}

/// A lowercase hex digit.
pub open spec fn hex_digit(n: int) -> u8 {
    if n < 10 {
        (48 + n) as u8
    } else {
        (87 + n) as u8
    }
}

/// How one byte of a message appears inside a JSON string: quote, backslash
/// and the common control characters escaped, other control characters as
/// \u00XX, everything else as itself.
pub open spec fn escape_byte(b: u8) -> Seq<u8> {
    if b == 34 {
        seq![92u8, 34u8]
    } else if b == 92 {
        seq![92u8, 92u8]
    } else if b == 10 {
        seq![92u8, 110u8]
    } else if b == 13 {
        seq![92u8, 114u8]
    } else if b == 9 {
        seq![92u8, 116u8]
    } else if b < 32 {
        seq![92u8, 117u8, 48u8, 48u8, hex_digit(b as int / 16), hex_digit(b as int % 16)]
    } else {
        seq![b]
    }
}

/// A whole message escaped for a JSON string.
pub open spec fn escaped(s: Seq<u8>) -> Seq<u8>
    decreases s.len(),
{
    if s.len() == 0 {
        Seq::empty()
    } else {
        escaped(s.drop_last()) + escape_byte(s.last())
    }
}

fn hex(n: u8) -> (r: u8)
    requires
        n < 16,
    ensures
        r == hex_digit(n as int),
{
    if n < 10 {
        48 + n
    } else {
        87 + n
    }
}

/// Escapes a message for embedding in a JSON string.
pub fn escape_json(s: &Vec<u8>) -> (r: Vec<u8>)
    ensures
        r@ == escaped(s@),
        r@.len() <= 6 * s@.len(),
{
    let n = s.len();
    let mut r: Vec<u8> = Vec::new();
    let mut i: usize = 0;
    while i < n
        invariant
            n == s@.len(),
            0 <= i <= n,
            r@ == escaped(s@.take(i as int)),
            r@.len() <= 6 * i,
        decreases n - i,
    {
        let b = s[i];
        proof {
            assert(s@.take(i + 1).drop_last() =~= s@.take(i as int));
            assert(s@.take(i + 1).last() == s@[i as int]);
        }
        if b == 34 {
            r.push(92);
            r.push(34);
        } else if b == 92 {
            r.push(92);
            r.push(92);
        } else if b == 10 {
            r.push(92);
            r.push(110);
        } else if b == 13 {
            r.push(92);
            r.push(114);
        } else if b == 9 {
            r.push(92);
            r.push(116);
        } else if b < 32 {
            r.push(92);
            r.push(117);
            r.push(48);
            r.push(48);
            r.push(hex(b / 16));
            r.push(hex(b % 16));
        } else {
            r.push(b);
        }
        proof {
            assert(r@ =~= escaped(s@.take(i + 1)));
        }
        i = i + 1;
    }
    proof {
        assert(s@.take(n as int) =~= s@);
    }
    r
}

spec fn pow10(k: nat) -> nat
    decreases k,
{
    if k == 0 {
        1
    } else {
        10 * pow10((k - 1) as nat)
    }
}

proof fn lemma_dec_rep_len(n: nat, k: nat)
    requires
        k >= 1,
        n < pow10(k),
    ensures
        dec_rep(n).len() <= k,
    decreases k,
{
    if n >= 10 {
        assert(pow10(k) == 10 * pow10((k - 1) as nat));
        assert(pow10((k - 1) as nat) >= 1) by {
            lemma_pow10_pos((k - 1) as nat);
        }
        assert(n / 10 < pow10((k - 1) as nat)) by (nonlinear_arith)
            requires
                n < 10 * pow10((k - 1) as nat),
                pow10((k - 1) as nat) >= 1,
        ;
        lemma_dec_rep_len(n / 10, (k - 1) as nat);
    }
}

proof fn lemma_pow10_pos(k: nat)
    ensures
        pow10(k) >= 1,
    decreases k,
{
    if k > 0 {
        lemma_pow10_pos((k - 1) as nat);
    }
}

/// The decimal digits of a 32-bit value take at most ten bytes.
proof fn lemma_dec_rep_len_u32(n: nat)
    requires
        n <= u32::MAX,
    ensures
        dec_rep(n).len() <= 10,
{
    assert(pow10(0) == 1);
    assert(pow10(1) == 10);
    assert(pow10(2) == 100);
    assert(pow10(3) == 1000);
    assert(pow10(4) == 10000);
    assert(pow10(5) == 100000);
    assert(pow10(6) == 1000000);
    assert(pow10(7) == 10000000);
    assert(pow10(8) == 100000000);
    assert(pow10(9) == 1000000000);
    assert(pow10(10) == 10000000000);
    lemma_dec_rep_len(n, 10);
}

/// The opening of a successful reply's JSON body, up to the ordinal:
/// a "hover_result" envelope whose data carries the ordinal under "index".
pub open spec fn hover_reply_prefix() -> Seq<u8> {
    seq![
        123u8, 34u8, 116u8, 121u8, 112u8, 101u8, 34u8, 58u8, 34u8, 104u8, 111u8, 118u8, 101u8,
        114u8, 95u8, 114u8, 101u8, 115u8, 117u8, 108u8, 116u8, 34u8, 44u8, 34u8, 100u8, 97u8,
        116u8, 97u8, 34u8, 58u8, 123u8, 34u8, 105u8, 110u8, 100u8, 101u8, 120u8, 34u8, 58u8,
    ]
}

/// The JSON body of a successful reply.
pub open spec fn hover_reply_payload(index: u32) -> Seq<u8> {
    hover_reply_prefix() + dec_rep(index as nat) + seq![125u8, 125u8]
}

/// The opening of an error reply's JSON body, up to the message text: an
/// "error" envelope whose data carries the text under "message".
pub open spec fn error_reply_prefix() -> Seq<u8> {
    seq![
        123u8, 34u8, 116u8, 121u8, 112u8, 101u8, 34u8, 58u8, 34u8, 101u8, 114u8, 114u8, 111u8,
        114u8, 34u8, 44u8, 34u8, 100u8, 97u8, 116u8, 97u8, 34u8, 58u8, 123u8, 34u8, 109u8,
        101u8, 115u8, 115u8, 97u8, 103u8, 101u8, 34u8, 58u8, 34u8,
    ]
}

/// The JSON body of an error reply carrying a diagnostic message.
pub open spec fn error_reply_payload(msg: Seq<u8>) -> Seq<u8> {
    error_reply_prefix() + escaped(msg) + seq![34u8, 125u8, 125u8]
}

/// Builds the framed reply that reports a hover answer.
pub fn hover_reply(index: u32) -> (r: Vec<u8>)
    ensures
        r@ == framed(hover_reply_payload(index)),
{
    let mut payload: Vec<u8> = vec![
        123, 34, 116, 121, 112, 101, 34, 58, 34, 104, 111, 118, 101, 114, 95, 114, 101, 115,
        117, 108, 116, 34, 44, 34, 100, 97, 116, 97, 34, 58, 123, 34, 105, 110, 100, 101, 120,
        34, 58,
    ];
    proof {
        assert(payload@ =~= hover_reply_prefix());
    }
    let mut digits = format_u32(index);
    payload.append(&mut digits);
    payload.push(125);
    payload.push(125);
    proof {
        assert(payload@ =~= hover_reply_payload(index));
        lemma_dec_rep_len_u32(index as nat);
    }
    encode_frame(payload)
}

/// Builds the framed reply that reports a failure with a diagnostic
/// message. The message must leave the framed length within its 32-bit
/// prefix; far smaller messages than that bound are the rule.
pub fn error_reply(msg: &Vec<u8>) -> (r: Vec<u8>)
    requires
        msg@.len() <= 0x100_0000,
    ensures
        r@ == framed(error_reply_payload(msg@)),
{
    let mut payload: Vec<u8> = vec![
        123, 34, 116, 121, 112, 101, 34, 58, 34, 101, 114, 114, 111, 114, 34, 44, 34, 100, 97,
        116, 97, 34, 58, 123, 34, 109, 101, 115, 115, 97, 103, 101, 34, 58, 34,
    ];
    proof {
        assert(payload@ =~= error_reply_prefix());
    }
    let mut esc = escape_json(msg);
    payload.append(&mut esc);
    payload.push(34);
    payload.push(125);
    payload.push(125);
    proof {
        assert(payload@ =~= error_reply_payload(msg@));
    }
    encode_frame(payload)
}

/// The diagnostic text of the reply to a payload that is not a well-formed
/// envelope: "Malformed message".
pub open spec fn malformed_text() -> Seq<u8> {
    seq![
        77u8, 97u8, 108u8, 102u8, 111u8, 114u8, 109u8, 101u8, 100u8, 32u8, 109u8, 101u8, 115u8,
        115u8, 97u8, 103u8, 101u8,
    ]
}

/// Builds the error reply for a malformed payload.
pub fn reply_for_malformed() -> (r: Vec<u8>)
    ensures
        r@ == framed(error_reply_payload(malformed_text())),
{
    let msg: Vec<u8> = vec![
        77, 97, 108, 102, 111, 114, 109, 101, 100, 32, 109, 101, 115, 115, 97, 103, 101,
    ];
    proof {
        assert(msg@ =~= malformed_text());
    }
    error_reply(&msg)
}

/// The opening of the diagnostic for an unrecognized request type:
/// "Unknown message type: ".
pub open spec fn unknown_type_prefix() -> Seq<u8> {
    seq![
        85u8, 110u8, 107u8, 110u8, 111u8, 119u8, 110u8, 32u8, 109u8, 101u8, 115u8, 115u8, 97u8,
        103u8, 101u8, 32u8, 116u8, 121u8, 112u8, 101u8, 58u8, 32u8,
    ]
}

/// Builds the error reply for an envelope of an unrecognized type, naming
/// the type in the diagnostic.
pub fn reply_for_unknown(msg_type: &Vec<u8>) -> (r: Vec<u8>)
    requires
        msg_type@.len() <= 0x10_0000,
    ensures
        r@ == framed(error_reply_payload(unknown_type_prefix() + msg_type@)),
{
    let mut msg: Vec<u8> = vec![
        85, 110, 107, 110, 111, 119, 110, 32, 109, 101, 115, 115, 97, 103, 101, 32, 116, 121,
        112, 101, 58, 32,
    ];
    proof {
        assert(msg@ =~= unknown_type_prefix());
    }
    let mut t = msg_type.clone();
    msg.append(&mut t);
    proof {
        assert(msg@ =~= unknown_type_prefix() + msg_type@);
    }
    error_reply(&msg)
}

/// The opening of the diagnostic for a failed hover check:
/// "Failed to check hover: ".
pub open spec fn check_failed_prefix() -> Seq<u8> {
    seq![
        70u8, 97u8, 105u8, 108u8, 101u8, 100u8, 32u8, 116u8, 111u8, 32u8, 99u8, 104u8, 101u8,
        99u8, 107u8, 32u8, 104u8, 111u8, 118u8, 101u8, 114u8, 58u8, 32u8,
    ]
}

/// Builds the error reply for a hover check that failed, naming the cause.
pub fn reply_for_failure(detail: &Vec<u8>) -> (r: Vec<u8>)
    requires
        detail@.len() <= 0x10_0000,
    ensures
        r@ == framed(error_reply_payload(check_failed_prefix() + detail@)),
{
    let mut msg: Vec<u8> = vec![
        70, 97, 105, 108, 101, 100, 32, 116, 111, 32, 99, 104, 101, 99, 107, 32, 104, 111, 118,
        101, 114, 58, 32,
    ];
    proof {
        assert(msg@ =~= check_failed_prefix());
    }
    let mut t = detail.clone();
    msg.append(&mut t);
    proof {
        assert(msg@ =~= check_failed_prefix() + detail@);
    }
    error_reply(&msg)
}

} // verus!
