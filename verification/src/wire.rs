//! Wire payloads: the `update_step` snapshot text and the control-plane
//! response bodies, built character-exactly against their specifications.
//!
//! Coordinates and radii arrive in micro-units and are rendered as signed
//! fixed-point decimals with six fractional digits, so every field in the
//! emitted text is a JSON number.

use vstd::prelude::*;

use crate::sim::BodyDot;

verus! {

/// The decimal digit character for `d` (meaningful for `0 <= d <= 9`).
pub open spec fn spec_digit(d: int) -> char {
    if d == 0 {
        '0'
    } else if d == 1 {
        '1'
    } else if d == 2 {
        '2'
    } else if d == 3 {
        '3'
    } else if d == 4 {
        '4'
    } else if d == 5 {
        '5'
    } else if d == 6 {
        '6'
    } else if d == 7 {
        '7'
    } else if d == 8 {
        '8'
    } else {
        '9'
    }
}

/// The canonical decimal rendering of a nonnegative integer.
pub open spec fn spec_digits(n: int) -> Seq<char>
    decreases n,
{
    if n < 10 {
        seq![spec_digit(n)]
    } else {
        spec_digits(n / 10).push(spec_digit(n % 10))
    }
}

/// The last `width` decimal digits of `n`, zero-padded.
pub open spec fn spec_padded(n: int, width: nat) -> Seq<char>
    decreases width,
{
    if width == 0 {
        Seq::<char>::empty()
    } else {
        spec_padded(n / 10, (width - 1) as nat).push(spec_digit(n % 10))
    }
}

/// The fixed-point rendering of a micro-unit value: sign, whole part, a
/// point, and exactly six fractional digits.
pub open spec fn spec_micro(v: int) -> Seq<char> {
    let mag: int = if v < 0 {
        -v
    } else {
        v
    };
    (if v < 0 {
        "-"@
    } else {
        Seq::<char>::empty()
    }) + spec_digits(mag / 1_000_000) + "."@ + spec_padded(mag % 1_000_000, 6)
}

/// The decimal string for one digit.
fn digit_str(d: u64) -> (r: &'static str)
    requires
        d < 10,
    ensures
        r@ == seq![spec_digit(d as int)],
{
    let r: &'static str = if d == 0 {
        "0"
    } else if d == 1 {
        "1"
    } else if d == 2 {
        "2"
    } else if d == 3 {
        "3"
    } else if d == 4 {
        "4"
    } else if d == 5 {
        "5"
    } else if d == 6 {
        "6"
    } else if d == 7 {
        "7"
    } else if d == 8 {
        "8"
    } else {
        "9"
    };
    proof {
        reveal_strlit("0");
        reveal_strlit("1");
        reveal_strlit("2");
        reveal_strlit("3");
        reveal_strlit("4");
        reveal_strlit("5");
        reveal_strlit("6");
        reveal_strlit("7");
        reveal_strlit("8");
        reveal_strlit("9");
    }
    r
}

/// Appends the canonical decimal rendering of `n`.
pub fn push_u64(out: &mut String, n: u64)
    ensures
        final(out)@ == old(out)@ + spec_digits(n as int),
    decreases n,
{
    if n < 10 {
        out.append(digit_str(n));
        proof {
            assert(final(out)@ =~= old(out)@ + spec_digits(n as int));
        }
    } else {
        push_u64(out, n / 10);
        out.append(digit_str(n % 10));
        proof {
            assert(final(out)@ =~= old(out)@ + spec_digits(n as int));
        }
    }
}

/// Appends the last `width` digits of `n`, zero-padded.
pub fn push_padded(out: &mut String, n: u64, width: u64)
    ensures
        final(out)@ == old(out)@ + spec_padded(n as int, width as nat),
    decreases width,
{
    if width == 0 {
        proof {
            assert(final(out)@ =~= old(out)@ + spec_padded(n as int, 0));
        }
    } else {
        push_padded(out, n / 10, width - 1);
        out.append(digit_str(n % 10));
        proof {
            assert(final(out)@ =~= old(out)@ + spec_padded(n as int, width as nat));
        }
    }
}

/// Appends the fixed-point rendering of a micro-unit value.
pub fn push_micro(out: &mut String, v: i64)
    ensures
        final(out)@ == old(out)@ + spec_micro(v as int),
{
    let mag: u64 = if v >= 0 {
        v as u64
    } else {
        (-(v + 1)) as u64 + 1
    };
    proof {
        assert(mag == if (v as int) < 0 {
            -(v as int)
        } else {
            v as int
        });
    }
    if v < 0 {
        out.append("-");
    }
    push_u64(out, mag / 1_000_000);
    out.append(".");
    push_padded(out, mag % 1_000_000, 6);
    proof {
        assert(final(out)@ =~= old(out)@ + spec_micro(v as int));
    }
}

/// One snapshot element: a single-key object, the key being the body's
/// index, the value its coordinates and radius.
pub open spec fn spec_entry(i: int, d: BodyDot) -> Seq<char> {
    "{\""@ + spec_digits(i) + "\":{\"x\":"@ + spec_micro(d.x_micro as int) + ",\"y\":"@
        + spec_micro(d.y_micro as int) + ",\"radius\":"@ + spec_micro(d.radius_micro as int)
        + "}}"@
}

/// The comma-joined snapshot elements, in body order.
pub open spec fn spec_entries(dots: Seq<BodyDot>) -> Seq<char>
    decreases dots.len(),
{
    if dots.len() == 0 {
        Seq::<char>::empty()
    } else if dots.len() == 1 {
        spec_entry(0, dots[0])
    } else {
        spec_entries(dots.drop_last()) + ","@ + spec_entry(dots.len() - 1, dots.last())
    }
}

/// The full `update_step` payload: the elements, bracketed as an array.
pub open spec fn spec_payload(dots: Seq<BodyDot>) -> Seq<char> {
    "["@ + spec_entries(dots) + "]"@
}

/// Appends one snapshot element for the body with index `i`.
fn push_entry(out: &mut String, i: usize, d: BodyDot)
    ensures
        final(out)@ == old(out)@ + spec_entry(i as int, d),
{
    out.append("{\"");
    push_u64(out, i as u64);
    out.append("\":{\"x\":");
    push_micro(out, d.x_micro);
    out.append(",\"y\":");
    push_micro(out, d.y_micro);
    out.append(",\"radius\":");
    push_micro(out, d.radius_micro);
    out.append("}}");
    proof {
        assert(final(out)@ =~= old(out)@ + spec_entry(i as int, d));
    }
}

/// Renders the `update_step` payload for one snapshot, element `i` carrying
/// the projection of body `i`.
pub fn update_step_payload(dots: &Vec<BodyDot>) -> (r: String)
    ensures
        r@ == spec_payload(dots@),
{
    let mut out = String::new();
    out.append("[");
    let mut i: usize = 0;
    while i < dots.len()
        invariant
            0 <= i <= dots@.len(),
            out@ == "["@ + spec_entries(dots@.take(i as int)),
        decreases dots@.len() - i,
    {
        if i > 0 {
            out.append(",");
        }
        push_entry(&mut out, i, dots[i]);
        proof {
            let taken = dots@.take(i + 1);
            assert(taken.drop_last() =~= dots@.take(i as int));
            assert(taken.last() == dots@[i as int]);
            assert(out@ =~= "["@ + spec_entries(taken));
        }
        i += 1;
    }
    out.append("]");
    proof {
        assert(dots@.take(dots@.len() as int) =~= dots@);
        assert(out@ =~= "["@ + spec_entries(dots@) + "]"@);
    }
    out
}

/// The value of a decimal digit character, or -1 for any other character.
pub open spec fn char_digit_value(c: char) -> int {
    if c == '0' {
        0
    } else if c == '1' {
        1
    } else if c == '2' {
        2
    } else if c == '3' {
        3
    } else if c == '4' {
        4
    } else if c == '5' {
        5
    } else if c == '6' {
        6
    } else if c == '7' {
        7
    } else if c == '8' {
        8
    } else if c == '9' {
        9
    } else {
        -1
    }
}

pub open spec fn is_digit(c: char) -> bool {
    char_digit_value(c) >= 0
}

/// The number a run of digit characters denotes.
pub open spec fn digits_value(s: Seq<char>) -> int
    decreases s.len(),
{
    if s.len() == 0 {
        0
    } else {
        digits_value(s.drop_last()) * 10 + char_digit_value(s.last())
    }
}

pub open spec fn pow10(w: nat) -> int
    decreases w,
{
    if w == 0 {
        1
    } else {
        10 * pow10((w - 1) as nat)
    }
}

/// The canonical rendering of `n` is nonempty, all digits, without a
/// leading zero (unless it is exactly "0"), and denotes `n`.
proof fn lemma_digits_exact(n: int)
    requires
        n >= 0,
    ensures
        spec_digits(n).len() >= 1,
        forall|i: int| 0 <= i < spec_digits(n).len() ==> is_digit(spec_digits(n)[i]),
        digits_value(spec_digits(n)) == n,
        n >= 1 ==> spec_digits(n)[0] != '0',
        n < 10 ==> spec_digits(n).len() == 1,
    decreases n,
{
    if n < 10 {
        assert(spec_digits(n).drop_last() =~= Seq::<char>::empty());
        assert(digits_value(Seq::<char>::empty()) == 0);
        assert(digits_value(spec_digits(n)) == digits_value(spec_digits(n).drop_last()) * 10
            + char_digit_value(spec_digits(n).last()));
        assert(spec_digits(n).last() == spec_digit(n));
        assert(char_digit_value(spec_digit(n)) == n);
    } else {
        lemma_digits_exact(n / 10);
        let prefix = spec_digits(n / 10);
        assert(spec_digits(n).drop_last() =~= prefix);
        assert(spec_digits(n).last() == spec_digit(n % 10));
        assert(char_digit_value(spec_digit(n % 10)) == n % 10);
        assert(digits_value(spec_digits(n)) == (n / 10) * 10 + n % 10);
        assert(spec_digits(n)[0] == prefix[0]);
    }
}

/// The zero-padded rendering of `n < 10^w` has exactly `w` digit
/// characters and denotes `n`.
proof fn lemma_padded_exact(n: int, w: nat)
    requires
        0 <= n < pow10(w),
    ensures
        spec_padded(n, w).len() == w,
        forall|i: int| 0 <= i < w ==> is_digit(spec_padded(n, w)[i]),
        digits_value(spec_padded(n, w)) == n,
    decreases w,
{
    if w == 0 {
    } else {
        assert(pow10(w) == 10 * pow10((w - 1) as nat));
        assert(pow10((w - 1) as nat) >= 1) by {
            lemma_pow10_pos((w - 1) as nat);
        }
        assert(n / 10 < pow10((w - 1) as nat)) by (nonlinear_arith)
            requires
                0 <= n < 10 * pow10((w - 1) as nat),
                pow10((w - 1) as nat) >= 1,
        ;
        lemma_padded_exact(n / 10, (w - 1) as nat);
        let prefix = spec_padded(n / 10, (w - 1) as nat);
        assert(spec_padded(n, w).drop_last() =~= prefix);
    }
}

proof fn lemma_pow10_pos(w: nat)
    ensures
        pow10(w) >= 1,
    decreases w,
{
    if w > 0 {
        lemma_pow10_pos((w - 1) as nat);
    }
}

/// The longest digit prefix of `s`, and what follows it.
pub open spec fn spec_take_digits(s: Seq<char>) -> (Seq<char>, Seq<char>)
    decreases s.len(),
{
    if s.len() == 0 || !is_digit(s[0]) {
        (Seq::<char>::empty(), s)
    } else {
        let tail = spec_take_digits(s.drop_first());
        (seq![s[0]] + tail.0, tail.1)
    }
}

/// Splitting at a non-digit boundary recovers exactly the digit run.
proof fn lemma_take_digits(a: Seq<char>, b: Seq<char>)
    requires
        forall|i: int| 0 <= i < a.len() ==> is_digit(a[i]),
        b.len() == 0 || !is_digit(b[0]),
    ensures
        spec_take_digits(a + b).0 == a,
        spec_take_digits(a + b).1 == b,
    decreases a.len(),
{
    if a.len() == 0 {
        assert(a + b =~= b);
    } else {
        assert((a + b)[0] == a[0]);
        assert((a + b).drop_first() =~= a.drop_first() + b);
        lemma_take_digits(a.drop_first(), b);
        assert(seq![(a + b)[0]] + a.drop_first() =~= a);
    }
}

/// Reads a canonical (no leading zero) decimal number prefix.
pub open spec fn spec_parse_number(s: Seq<char>) -> Option<(int, Seq<char>)> {
    let split = spec_take_digits(s);
    if split.0.len() >= 1 && (split.0.len() == 1 || split.0[0] != '0') {
        Some((digits_value(split.0), split.1))
    } else {
        None
    }
}

proof fn lemma_number_parse(n: int, rest: Seq<char>)
    requires
        n >= 0,
        rest.len() == 0 || !is_digit(rest[0]),
    ensures
        spec_parse_number(spec_digits(n) + rest) == Some((n, rest)),
{
    lemma_digits_exact(n);
    lemma_take_digits(spec_digits(n), rest);
}

/// Reads a fixed-point number prefix: an optional sign, a canonical whole
/// part, a point, and exactly six fractional digits.
pub open spec fn spec_parse_unsigned_prefix(s: Seq<char>) -> Option<(int, Seq<char>)> {
    match spec_parse_number(s) {
        Some((w, r)) => if r.len() >= 7 && r[0] == '.' && (forall|i: int|
            1 <= i < 7 ==> is_digit(r[i])) {
            Some((w * 1_000_000 + digits_value(r.subrange(1, 7)), r.skip(7)))
        } else {
            None
        },
        None => None,
    }
}

pub open spec fn spec_parse_micro_prefix(s: Seq<char>) -> Option<(int, Seq<char>)> {
    if s.len() >= 1 && s[0] == '-' {
        match spec_parse_unsigned_prefix(s.drop_first()) {
            Some((m, r)) => if m > 0 {
                Some((-m, r))
            } else {
                None
            },
            None => None,
        }
    } else {
        spec_parse_unsigned_prefix(s)
    }
}

/// Every rendered micro-unit value parses back to exactly itself, whatever
/// text follows it.
proof fn lemma_micro_prefix_parse(v: i64, rest: Seq<char>)
    ensures
        spec_parse_micro_prefix(spec_micro(v as int) + rest) == Some((v as int, rest)),
{
    reveal_strlit(".");
    reveal_strlit("-");
    let mag: int = if v < 0 {
        -(v as int)
    } else {
        v as int
    };
    let whole = mag / 1_000_000;
    let frac = mag % 1_000_000;
    assert(pow10(6) == 1_000_000) by {
        assert(pow10(0) == 1);
        assert(pow10(1) == 10);
        assert(pow10(2) == 100);
        assert(pow10(3) == 1_000);
        assert(pow10(4) == 10_000);
        assert(pow10(5) == 100_000);
        assert(pow10(6) == 1_000_000);
    }
    lemma_digits_exact(whole);
    lemma_padded_exact(frac, 6);
    let digits = spec_digits(whole);
    let padded = spec_padded(frac, 6);
    let after_digits = "."@ + padded + rest;
    assert(!is_digit(after_digits[0]));
    lemma_number_parse(whole, after_digits);
    assert(after_digits.subrange(1, 7) =~= padded);
    assert(after_digits.skip(7) =~= rest);
    assert(spec_parse_unsigned_prefix(digits + after_digits) == Some((mag, rest))) by {
        assert(whole * 1_000_000 + frac == mag);
    }
    if v < 0 {
        let signed = "-"@ + (digits + after_digits);
        assert(spec_micro(v as int) + rest =~= signed);
        assert(signed[0] == '-');
        assert(signed.drop_first() =~= digits + after_digits);
        assert(mag > 0);
    } else {
        assert(spec_micro(v as int) + rest =~= digits + after_digits);
        assert((digits + after_digits)[0] == digits[0]);
        assert(is_digit(digits[0]));
        assert((digits + after_digits)[0] != '-');
    }
}

/// Consumes an expected literal prefix.
pub open spec fn spec_expect(s: Seq<char>, lit: Seq<char>) -> Option<Seq<char>> {
    if s.len() >= lit.len() && s.take(lit.len() as int) == lit {
        Some(s.skip(lit.len() as int))
    } else {
        None
    }
}

proof fn lemma_expect(lit: Seq<char>, rest: Seq<char>)
    ensures
        spec_expect(lit + rest, lit) == Some(rest),
{
    assert((lit + rest).take(lit.len() as int) =~= lit);
    assert((lit + rest).skip(lit.len() as int) =~= rest);
}

/// Reads one snapshot element: the key, then the three numeric fields.
pub open spec fn spec_parse_entry(s: Seq<char>) -> Option<((int, int, int, int), Seq<char>)> {
    match spec_expect(s, "{\""@) {
        Some(s1) => match spec_parse_number(s1) {
            Some((idx, s2)) => match spec_expect(s2, "\":{\"x\":"@) {
                Some(s3) => match spec_parse_micro_prefix(s3) {
                    Some((x, s4)) => match spec_expect(s4, ",\"y\":"@) {
                        Some(s5) => match spec_parse_micro_prefix(s5) {
                            Some((y, s6)) => match spec_expect(s6, ",\"radius\":"@) {
                                Some(s7) => match spec_parse_micro_prefix(s7) {
                                    Some((radius, s8)) => match spec_expect(s8, "}}"@) {
                                        Some(s9) => Some(((idx, x, y, radius), s9)),
                                        None => None,
                                    },
                                    None => None,
                                },
                                None => None,
                            },
                            None => None,
                        },
                        None => None,
                    },
                    None => None,
                },
                None => None,
            },
            None => None,
        },
        None => None,
    }
}

/// A rendered element parses back to its index and micro-unit fields,
/// whatever text follows it.
#[verifier::rlimit(80)]
proof fn lemma_entry_parse(i: int, d: BodyDot, rest: Seq<char>)
    requires
        i >= 0,
    ensures
        spec_parse_entry(spec_entry(i, d) + rest) == Some(
            (
                (i, d.x_micro as int, d.y_micro as int, d.radius_micro as int),
                rest,
            ),
        ),
{
    reveal_strlit("\":{\"x\":");
    let digits = spec_digits(i);
    let x = spec_micro(d.x_micro as int);
    let y = spec_micro(d.y_micro as int);
    let radius = spec_micro(d.radius_micro as int);
    let t2 = digits + ("\":{\"x\":"@ + (x + (",\"y\":"@ + (y + (",\"radius\":"@ + (radius + (
    "}}"@ + rest)))))));
    assert(spec_entry(i, d) + rest =~= "{\""@ + t2);
    lemma_expect("{\""@, t2);
    let t3 = "\":{\"x\":"@ + (x + (",\"y\":"@ + (y + (",\"radius\":"@ + (radius + ("}}"@
        + rest))))));
    assert(t3[0] == '"');
    assert(!is_digit(t3[0]));
    lemma_number_parse(i, t3);
    lemma_digits_exact(i);
    let t4 = x + (",\"y\":"@ + (y + (",\"radius\":"@ + (radius + ("}}"@ + rest)))));
    lemma_expect("\":{\"x\":"@, t4);
    let t5 = ",\"y\":"@ + (y + (",\"radius\":"@ + (radius + ("}}"@ + rest))));
    assert(x + t5 =~= t4);
    lemma_micro_prefix_parse(d.x_micro, t5);
    let t6 = y + (",\"radius\":"@ + (radius + ("}}"@ + rest)));
    lemma_expect(",\"y\":"@, t6);
    let t7 = ",\"radius\":"@ + (radius + ("}}"@ + rest));
    assert(y + t7 =~= t6);
    lemma_micro_prefix_parse(d.y_micro, t7);
    let t8 = radius + ("}}"@ + rest);
    lemma_expect(",\"radius\":"@, t8);
    lemma_micro_prefix_parse(d.radius_micro, "}}"@ + rest);
    lemma_expect("}}"@, rest);
}

/// Reads exactly `n` comma-separated elements.
pub open spec fn spec_parse_entries(s: Seq<char>, n: nat) -> Option<
    (Seq<(int, int, int, int)>, Seq<char>),
>
    decreases n,
{
    if n == 0 {
        Some((Seq::<(int, int, int, int)>::empty(), s))
    } else {
        match spec_parse_entry(s) {
            Some((e, r)) => if n == 1 {
                Some((seq![e], r))
            } else {
                match spec_expect(r, ","@) {
                    Some(r2) => match spec_parse_entries(r2, (n - 1) as nat) {
                        Some((es, r3)) => Some((seq![e] + es, r3)),
                        None => None,
                    },
                    None => None,
                }
            },
            None => None,
        }
    }
}

/// The element texts from `base` on, joined from the left.
spec fn entries_text(dots: Seq<BodyDot>, base: int) -> Seq<char>
    decreases dots.len(),
{
    if dots.len() == 0 {
        Seq::<char>::empty()
    } else if dots.len() == 1 {
        spec_entry(base, dots[0])
    } else {
        spec_entry(base, dots[0]) + ","@ + entries_text(dots.drop_first(), base + 1)
    }
}

proof fn lemma_entries_text_push(dots: Seq<BodyDot>, base: int, d: BodyDot)
    ensures
        entries_text(dots.push(d), base) == if dots.len() == 0 {
            spec_entry(base, d)
        } else {
            entries_text(dots, base) + ","@ + spec_entry(base + dots.len(), d)
        },
    decreases dots.len(),
{
    let pushed = dots.push(d);
    if dots.len() == 0 {
        assert(pushed[0] == d);
    } else {
        assert(pushed[0] == dots[0]);
        assert(pushed.drop_first() =~= dots.drop_first().push(d));
        lemma_entries_text_push(dots.drop_first(), base + 1, d);
        if dots.len() == 1 {
            assert(entries_text(pushed, base) == spec_entry(base, dots[0]) + ","@ + spec_entry(
                base + 1,
                d,
            ));
        } else {
            assert(entries_text(pushed, base) =~= entries_text(dots, base) + ","@ + spec_entry(
                base + dots.len(),
                d,
            ));
        }
    }
}

/// The left-joined element texts agree with the payload's `spec_entries`.
proof fn lemma_entries_text_agrees(dots: Seq<BodyDot>)
    ensures
        entries_text(dots, 0) == spec_entries(dots),
    decreases dots.len(),
{
    if dots.len() <= 1 {
    } else {
        lemma_entries_text_agrees(dots.drop_last());
        assert(dots.drop_last().push(dots.last()) =~= dots);
        lemma_entries_text_push(dots.drop_last(), 0, dots.last());
    }
}

/// A rendered run of elements parses back to its keys and fields in order,
/// whatever text follows it.
#[verifier::rlimit(80)]
proof fn lemma_entries_parse(dots: Seq<BodyDot>, base: int, rest: Seq<char>)
    requires
        dots.len() >= 1,
        base >= 0,
    ensures
        ({
            let p = spec_parse_entries(entries_text(dots, base) + rest, dots.len() as nat);
            &&& p is Some
            &&& (p->0).0.len() == dots.len()
            &&& forall|i: int|
                0 <= i < dots.len() ==> (p->0).0[i] == (
                    base + i,
                    dots[i].x_micro as int,
                    dots[i].y_micro as int,
                    dots[i].radius_micro as int,
                )
            &&& (p->0).1 == rest
        }),
    decreases dots.len(),
{
    if dots.len() == 1 {
        lemma_entry_parse(base, dots[0], rest);
    } else {
        let inner = entries_text(dots.drop_first(), base + 1) + rest;
        let tail = ","@ + inner;
        assert(entries_text(dots, base) + rest =~= spec_entry(base, dots[0]) + tail);
        lemma_entry_parse(base, dots[0], tail);
        lemma_expect(","@, inner);
        lemma_entries_parse(dots.drop_first(), base + 1, rest);
        let p = spec_parse_entries(entries_text(dots, base) + rest, dots.len() as nat);
        let sub = spec_parse_entries(inner, (dots.len() - 1) as nat);
        assert forall|i: int| 0 <= i < dots.len() implies (p->0).0[i] == (
            base + i,
            dots[i].x_micro as int,
            dots[i].y_micro as int,
            dots[i].radius_micro as int,
        ) by {
            if i > 0 {
                assert((p->0).0[i] == (sub->0).0[i - 1]);
                assert(dots.drop_first()[i - 1] == dots[i]);
            }
        }
    }
}

/// Reads a whole payload as exactly `n` bracketed elements.
pub open spec fn spec_parse_payload(s: Seq<char>, n: nat) -> Option<Seq<(int, int, int, int)>> {
    match spec_expect(s, "["@) {
        Some(s1) => match spec_parse_entries(s1, n) {
            Some((es, r)) => if r == "]"@ {
                Some(es)
            } else {
                None
            },
            None => None,
        },
        None => None,
    }
}

/// Snapshot round trip: the `update_step` payload for `n` bodies parses
/// back as an ordered sequence of exactly `n` elements, element `i` keyed
/// by `i` and carrying body `i`'s coordinates and radius.
pub proof fn lemma_payload_parses_back(dots: Seq<BodyDot>)
    ensures
        ({
            let p = spec_parse_payload(spec_payload(dots), dots.len() as nat);
            &&& p is Some
            &&& p->0.len() == dots.len()
            &&& forall|i: int|
                0 <= i < dots.len() ==> p->0[i] == (
                    i,
                    dots[i].x_micro as int,
                    dots[i].y_micro as int,
                    dots[i].radius_micro as int,
                )
        }),
{
    lemma_entries_text_agrees(dots);
    let inner = spec_entries(dots) + "]"@;
    assert(spec_payload(dots) =~= "["@ + inner);
    lemma_expect("["@, inner);
    if dots.len() == 0 {
        assert(inner =~= "]"@);
    } else {
        lemma_entries_parse(dots, 0, "]"@);
    }
}

/// The body of every successful control-plane response.
pub open spec fn spec_success_body() -> Seq<char> {
    "{\"status\":\"success\"}"@
}

pub fn success_body() -> (r: String)
    ensures
        r@ == spec_success_body(),
{
    String::from_str("{\"status\":\"success\"}")
}

/// The body of an error response wrapping the given message.  The library's
/// own messages contain no character that JSON would escape.
pub open spec fn spec_error_body(msg: Seq<char>) -> Seq<char> {
    "{\"status\":\"error\",\"message\":\""@ + msg + "\"}"@
}

pub fn error_body(msg: &str) -> (r: String)
    ensures
        r@ == spec_error_body(msg@),
{
    let mut out = String::from_str("{\"status\":\"error\",\"message\":\"");
    out.append(msg);
    out.append("\"}");
    proof {
        assert(out@ =~= spec_error_body(msg@));
    }
    out
}

} // verus!
