//! Decimal numerals on the wire.
//!
//! The controller's protocol renders every numeric field as ASCII decimal
//! digits, and temperatures and volumes as decimals with up to two fractional
//! digits.  Fractional quantities are held throughout the crate as integer
//! counts of hundredths (`i32`), so rendering and parsing are exact integer
//! arithmetic.

use vstd::prelude::*;

verus! {

/// The byte holding the ASCII digit for `d`.
pub open spec fn digit_byte(d: int) -> u8
    recommends
        0 <= d < 10,
{
    (48 + d) as u8
}

/// The ASCII decimal numeral of `n`, most significant digit first.
pub open spec fn dec_bytes(n: nat) -> Seq<u8>
    decreases n,
{
    if n < 10 {
        seq![digit_byte(n as int)]
    } else {
        dec_bytes(n / 10) + seq![digit_byte(n as int % 10)]
    }
}

/// Appends the decimal numeral of `n`.
pub fn push_dec(out: &mut Vec<u8>, n: u64)
    ensures
        final(out)@ == old(out)@ + dec_bytes(n as nat),
    decreases n,
{
    if n < 10 {
        out.push((48 + n) as u8);
    } else {
        push_dec(out, n / 10);
        out.push((48 + (n % 10)) as u8);
    }
}

/// `10^k`, for digit-count bounds.
pub open spec fn pow10(k: nat) -> nat
    decreases k,
{
    if k == 0 {
        1
    } else {
        10 * pow10((k - 1) as nat)
    }
}

/// A numeral is never empty.
pub proof fn lemma_dec_bytes_min_len(n: nat)
    ensures
        dec_bytes(n).len() >= 1,
    decreases n,
{
    if n >= 10 {
        lemma_dec_bytes_min_len(n / 10);
    }
}

/// Bounded values have short numerals: below `10^k` means at most `k` digits.
pub proof fn lemma_dec_bytes_len(n: nat, k: nat)
    requires
        1 <= k,
        n < pow10(k),
    ensures
        dec_bytes(n).len() <= k,
    decreases n,
{
    if n < 10 {
    } else {
        assert(k >= 2) by {
            if k == 1 {
                assert(pow10(0) == 1);
                assert(pow10(1) == 10);
            }
        }
        let p = pow10((k - 1) as nat);
        assert(p >= 1) by {
            lemma_pow10_pos((k - 1) as nat);
        }
        assert(n / 10 < p) by (nonlinear_arith)
            requires
                n < 10 * p,
                p >= 1,
        ;
        lemma_dec_bytes_len(n / 10, (k - 1) as nat);
    }
}

proof fn lemma_pow10_pos(k: nat)
    ensures
        pow10(k) >= 1,
    decreases k,
{
    if k > 0 {
        lemma_pow10_pos((k - 1) as nat);
    }
}

/// The fractional digits of a count of hundredths, rendered the way the
/// controller expects command fields: nothing for a whole number, one digit
/// when the second fractional digit would be zero, two digits otherwise.
pub open spec fn centi_frac_bytes(fr: int) -> Seq<u8>
    recommends
        0 <= fr < 100,
{
    if fr == 0 {
        Seq::empty()
    } else if fr % 10 == 0 {
        seq![46u8, digit_byte(fr / 10)]
    } else {
        seq![46u8, digit_byte(fr / 10), digit_byte(fr % 10)]
    }
}

/// A count of hundredths rendered as a decimal with the shortest fraction,
/// e.g. hundredths 6850 render as `68.5` and 6800 as `68`.
pub open spec fn centi_bytes(v: int) -> Seq<u8> {
    let m = if v < 0 {
        -v
    } else {
        v
    };
    (if v < 0 {
        seq![45u8]
    } else {
        Seq::<u8>::empty()
    }) + dec_bytes((m / 100) as nat) + centi_frac_bytes(m % 100)
}

/// A count of hundredths rendered with exactly two fractional digits,
/// e.g. hundredths 1325 render as `13.25` and 1300 as `13.00`.
pub open spec fn centi_2dp_bytes(v: int) -> Seq<u8> {
    let m = if v < 0 {
        -v
    } else {
        v
    };
    (if v < 0 {
        seq![45u8]
    } else {
        Seq::<u8>::empty()
    }) + dec_bytes((m / 100) as nat) + seq![
        46u8,
        digit_byte((m % 100) / 10),
        digit_byte(m % 10),
    ]
}

/// Appends the shortest-fraction rendering of `v` hundredths.
pub fn push_centi(out: &mut Vec<u8>, v: i32)
    ensures
        final(out)@ == old(out)@ + centi_bytes(v as int),
{
    let m: u64 = if v < 0 {
        out.push(45);
        (-(v as i64)) as u64
    } else {
        v as u64
    };
    push_dec(out, m / 100);
    let fr: u64 = m % 100;
    if fr != 0 {
        out.push(46);
        out.push((48 + fr / 10) as u8);
        if fr % 10 != 0 {
            out.push((48 + fr % 10) as u8);
        }
    }
    proof {
        assert(final(out)@ =~= old(out)@ + centi_bytes(v as int));
    }
}

/// Appends the two-fractional-digit rendering of `v` hundredths.
pub fn push_centi_2dp(out: &mut Vec<u8>, v: i32)
    ensures
        final(out)@ == old(out)@ + centi_2dp_bytes(v as int),
{
    let m: u64 = if v < 0 {
        out.push(45);
        (-(v as i64)) as u64
    } else {
        v as u64
    };
    push_dec(out, m / 100);
    out.push(46);
    out.push((48 + (m % 100) / 10) as u8);
    out.push((48 + m % 10) as u8);
    proof {
        assert(final(out)@ =~= old(out)@ + centi_2dp_bytes(v as int));
    }
}

/// Every `i32` count of hundredths renders in at most twelve bytes, in
/// either rendering.
pub proof fn lemma_centi_bytes_len(v: int)
    requires
        -0x8000_0000 <= v <= 0x7FFF_FFFF,
    ensures
        centi_bytes(v).len() <= 12,
        centi_2dp_bytes(v).len() <= 12,
{
    let m = if v < 0 {
        -v
    } else {
        v
    };
    assert(pow10(8) == 100000000) by {
        assert(pow10(0) == 1);
        assert(pow10(1) == 10);
        assert(pow10(2) == 100);
        assert(pow10(3) == 1000);
        assert(pow10(4) == 10000);
        assert(pow10(5) == 100000);
        assert(pow10(6) == 1000000);
        assert(pow10(7) == 10000000);
        assert(pow10(8) == 100000000);
    }
    lemma_dec_bytes_len((m / 100) as nat, 8);
}

/// A count of hundredths up to one hundred thousand units renders in at
/// most nine bytes.
pub proof fn lemma_centi_bytes_len_small(v: int)
    requires
        -9999999 <= v <= 9999999,
    ensures
        centi_bytes(v).len() <= 9,
{
    let m = if v < 0 {
        -v
    } else {
        v
    };
    assert(pow10(5) == 100000) by {
        assert(pow10(0) == 1);
        assert(pow10(1) == 10);
        assert(pow10(2) == 100);
        assert(pow10(3) == 1000);
        assert(pow10(4) == 10000);
        assert(pow10(5) == 100000);
    }
    lemma_dec_bytes_len((m / 100) as nat, 5);
}

/// Whether `c` is an ASCII decimal digit.
pub open spec fn is_digit(c: char) -> bool {
    48 <= c as u32 <= 57
}

/// The value of the digit `c`.
pub open spec fn digit_val(c: char) -> int
    recommends
        is_digit(c),
{
    c as u32 - 48
}

/// Whether every character of `f` is a decimal digit.
pub open spec fn all_digits(f: Seq<char>) -> bool {
    forall|i: int| 0 <= i < f.len() ==> is_digit(#[trigger] f[i])
}

/// The value of the digit string `f`, read most significant digit first.
pub open spec fn dec_val(f: Seq<char>) -> int
    decreases f.len(),
{
    if f.len() == 0 {
        0
    } else {
        dec_val(f.drop_last()) * 10 + digit_val(f.last())
    }
}

/// `f` with its trailing spaces removed.  Notification frames are padded
/// with spaces on the right, so every field parser ignores them.
pub open spec fn strip_spaces(f: Seq<char>) -> Seq<char>
    decreases f.len(),
{
    if f.len() > 0 && f.last() == ' ' {
        strip_spaces(f.drop_last())
    } else {
        f
    }
}

/// The value of a field holding an unsigned decimal numeral, after padding
/// is stripped; `None` when the field is empty or holds a non-digit.
pub open spec fn parse_dec(f: Seq<char>) -> Option<int> {
    let g = strip_spaces(f);
    if g.len() > 0 && all_digits(g) {
        Some(dec_val(g))
    } else {
        None
    }
}

/// `parse_dec`, rejecting values above `max`.
pub open spec fn parse_dec_bounded(f: Seq<char>, max: int) -> Option<int> {
    match parse_dec(f) {
        Some(v) => if v <= max {
            Some(v)
        } else {
            None
        },
        None => None,
    }
}

proof fn lemma_dec_val_nonneg(f: Seq<char>)
    requires
        all_digits(f),
    ensures
        dec_val(f) >= 0,
    decreases f.len(),
{
    if f.len() > 0 {
        assert(all_digits(f.drop_last())) by {
            assert(forall|i: int|
                0 <= i < f.len() - 1 ==> #[trigger] f.drop_last()[i] == f[i]);
        }
        lemma_dec_val_nonneg(f.drop_last());
    }
}

proof fn lemma_strip_spaces_take(f: Seq<char>, k: int)
    requires
        0 <= k <= f.len(),
        forall|i: int| k <= i < f.len() ==> #[trigger] f[i] == ' ',
        k == 0 || f[k - 1] != ' ',
    ensures
        strip_spaces(f) == f.take(k),
    decreases f.len(),
{
    if f.len() > k {
        assert(f.last() == ' ');
        lemma_strip_spaces_take(f.drop_last(), k);
        assert(f.drop_last().take(k) =~= f.take(k));
    } else {
        assert(f.take(k) =~= f);
    }
}

/// Parses the unsigned decimal field `s[from..to]`, treating any value
/// above `max` like a malformed field.
pub fn parse_dec_field(s: &str, from: usize, to: usize, max: u64) -> (r: Option<u64>)
    requires
        from <= to <= s@.len(),
        max <= 0xFFFF_FFFF,
    ensures
        match r {
            Some(u) => parse_dec_bounded(s@.subrange(from as int, to as int), max as int)
                == Some(u as int),
            None => parse_dec_bounded(s@.subrange(from as int, to as int), max as int) is None,
        },
{
    let ghost f = s@.subrange(from as int, to as int);
    let mut end = to;
    while end > from && s.get_char(end - 1) == ' '
        invariant
            from <= end <= to <= s@.len(),
            forall|i: int| end <= i < to ==> #[trigger] s@[i] == ' ',
        decreases end,
    {
        end = end - 1;
    }
    let ghost k = end - from;
    proof {
        lemma_strip_spaces_take(f, k);
    }
    let ghost g = strip_spaces(f);
    assert(g =~= s@.subrange(from as int, end as int));
    if end == from {
        return None;
    }
    let mut val: u64 = 0;
    let mut i = from;
    while i < end
        invariant
            from <= i <= end <= s@.len(),
            g == strip_spaces(s@.subrange(from as int, to as int)),
            g == s@.subrange(from as int, end as int),
            end > from,
            max <= 0xFFFF_FFFF,
            all_digits(g.take(i - from)),
            dec_val(g.take(i - from)) <= max ==> val == dec_val(g.take(i - from)),
            dec_val(g.take(i - from)) > max ==> val > max,
            val <= 0xFFFF_FFFF * 10 + 9,
        decreases end - i,
    {
        let c = s.get_char(i);
        let cv = c as u32;
        if cv < 48 || cv > 57 {
            assert(!is_digit(g[i - from]));
            assert(!all_digits(g));
            return None;
        }
        let d = (cv - 48) as u64;
        proof {
            assert(g.take(i - from + 1).drop_last() =~= g.take(i - from));
            assert(g.take(i - from + 1).last() == g[i - from]);
            lemma_dec_val_nonneg(g.take(i - from));
        }
        val = if val > max {
            val
        } else {
            val * 10 + d
        };
        i = i + 1;
    }
    assert(g.take(end - from) =~= g);
    if val <= max {
        Some(val)
    } else {
        None
    }
}

/// The hundredths contributed by the fractional digits of a decimal: only
/// the first two count, further digits are truncated away.
pub open spec fn frac_centi(f: Seq<char>) -> int
    recommends
        all_digits(f),
{
    if f.len() == 0 {
        0
    } else if f.len() == 1 {
        digit_val(f[0]) * 10
    } else {
        digit_val(f[0]) * 10 + digit_val(f[1])
    }
}

/// The index of the first `.` in `f`, or `f.len()` when there is none.
pub open spec fn first_dot(f: Seq<char>) -> int
    decreases f.len(),
{
    if f.len() == 0 {
        0
    } else if f[0] == '.' {
        0
    } else {
        1 + first_dot(f.skip(1))
    }
}

proof fn lemma_first_dot_is(f: Seq<char>, d: int)
    requires
        0 <= d <= f.len(),
        forall|j: int| 0 <= j < d ==> #[trigger] f[j] != '.',
        d < f.len() ==> f[d] == '.',
    ensures
        first_dot(f) == d,
    decreases f.len(),
{
    if f.len() == 0 {
    } else if f[0] == '.' {
        assert(d == 0);
    } else {
        assert(d >= 1);
        let t = f.skip(1);
        assert(forall|j: int| 0 <= j < d - 1 ==> #[trigger] t[j] == f[j + 1]);
        lemma_first_dot_is(t, d - 1);
    }
}

/// The value, in hundredths, of an unsigned decimal with an optional
/// fraction: digits, then optionally a dot and more digits.  Fractional
/// digits beyond the second are truncated away, matching how the state
/// tracker stores temperatures.
pub open spec fn parse_centi_mag(h: Seq<char>) -> Option<int> {
    let d = first_dot(h);
    let ip = h.take(d);
    let fr = if d < h.len() {
        h.skip(d + 1)
    } else {
        Seq::<char>::empty()
    };
    if ip.len() > 0 && all_digits(ip) && all_digits(fr) {
        Some(dec_val(ip) * 100 + frac_centi(fr))
    } else {
        None
    }
}

/// The value, in hundredths, of a signed decimal field, after padding is
/// stripped.
pub open spec fn parse_centi(f: Seq<char>) -> Option<int> {
    let g = strip_spaces(f);
    if g.len() > 0 && g[0] == '-' {
        match parse_centi_mag(g.skip(1)) {
            Some(v) => Some(-v),
            None => None,
        }
    } else {
        parse_centi_mag(g)
    }
}

/// `parse_centi`, rejecting values outside the range held by an `i32`
/// count of hundredths.
pub open spec fn parse_centi_i32(f: Seq<char>) -> Option<int> {
    match parse_centi(f) {
        Some(v) => if -0x8000_0000 <= v <= 0x7FFF_FFFF {
            Some(v)
        } else {
            None
        },
        None => None,
    }
}

proof fn lemma_frac_centi_range(f: Seq<char>)
    requires
        all_digits(f),
    ensures
        0 <= frac_centi(f) <= 99,
{
}

/// Finds where the content of `s[from..to]` ends once trailing spaces are
/// stripped.
fn stripped_end(s: &str, from: usize, to: usize) -> (end: usize)
    requires
        from <= to <= s@.len(),
    ensures
        from <= end <= to,
        strip_spaces(s@.subrange(from as int, to as int)) == s@.subrange(
            from as int,
            end as int,
        ),
{
    let ghost f = s@.subrange(from as int, to as int);
    let mut end = to;
    while end > from && s.get_char(end - 1) == ' '
        invariant
            from <= end <= to <= s@.len(),
            forall|i: int| end <= i < to ==> #[trigger] s@[i] == ' ',
        decreases end,
    {
        end = end - 1;
    }
    proof {
        lemma_strip_spaces_take(f, end - from);
        assert(strip_spaces(f) =~= s@.subrange(from as int, end as int));
    }
    end
}

/// Whether `s[from..to]` is all decimal digits.
fn all_digits_range(s: &str, from: usize, to: usize) -> (r: bool)
    requires
        from <= to <= s@.len(),
    ensures
        r == all_digits(s@.subrange(from as int, to as int)),
{
    let ghost f = s@.subrange(from as int, to as int);
    let mut j = from;
    while j < to
        invariant
            from <= j <= to <= s@.len(),
            f == s@.subrange(from as int, to as int),
            forall|k: int| from <= k < j ==> is_digit(#[trigger] s@[k]),
        decreases to - j,
    {
        let c = s.get_char(j);
        let cv = c as u32;
        if cv < 48 || cv > 57 {
            assert(!is_digit(f[j - from]));
            return false;
        }
        j = j + 1;
    }
    true
}

/// Parses the signed decimal field `s[from..to]` into hundredths.
#[verifier::rlimit(30)]
pub fn parse_centi_field(s: &str, from: usize, to: usize) -> (r: Option<i32>)
    requires
        from <= to <= s@.len(),
    ensures
        match r {
            Some(v) => parse_centi_i32(s@.subrange(from as int, to as int)) == Some(v as int),
            None => parse_centi_i32(s@.subrange(from as int, to as int)) is None,
        },
{
    let ghost f = s@.subrange(from as int, to as int);
    let end = stripped_end(s, from, to);
    let ghost g = strip_spaces(f);
    assert(g =~= s@.subrange(from as int, end as int));
    if end == from {
        return None;
    }
    let neg = s.get_char(from) == '-';
    let start = if neg {
        from + 1
    } else {
        from
    };
    let ghost h = if neg {
        g.skip(1)
    } else {
        g
    };
    assert(h =~= s@.subrange(start as int, end as int));
    let ghost mag = parse_centi_mag(h);
    proof {
        if neg {
            assert(parse_centi(f) == (match mag {
                Some(v) => Some(-v),
                None => None,
            }));
        } else {
            assert(parse_centi(f) == mag);
        }
    }
    let mut i = start;
    while i < end && s.get_char(i) != '.'
        invariant
            start <= i <= end <= s@.len(),
            forall|j: int| start <= j < i ==> #[trigger] s@[j] != '.',
        decreases end - i,
    {
        i = i + 1;
    }
    let dot = i;
    let ghost d = dot - start;
    proof {
        lemma_first_dot_is(h, d);
    }
    let ghost ip = h.take(d);
    let ghost fr = if d < h.len() {
        h.skip(d + 1)
    } else {
        Seq::<char>::empty()
    };
    assert(ip =~= s@.subrange(start as int, dot as int));
    if dot > start && s.get_char(dot - 1) == ' ' {
        assert(!is_digit(ip[d - 1]));
        return None;
    }
    proof {
        if ip.len() > 0 {
            assert(ip.last() != ' ');
        }
        assert(strip_spaces(ip) == ip);
    }
    let ip_val = match parse_dec_field(s, start, dot, 0xFFFF_FFFF) {
        Some(v) => v,
        None => {
            proof {
                if mag is Some {
                    let m = mag->Some_0;
                    assert(parse_dec(ip) == Some(dec_val(ip)));
                    assert(dec_val(ip) > 0xFFFF_FFFF);
                    lemma_frac_centi_range(fr);
                    assert(m > 0x7FFF_FFFF) by (nonlinear_arith)
                        requires
                            m == dec_val(ip) * 100 + frac_centi(fr),
                            dec_val(ip) > 0xFFFF_FFFF,
                            frac_centi(fr) >= 0,
                    ;
                }
            }
            return None;
        },
    };
    proof {
        assert(parse_dec(ip) == Some(dec_val(ip)));
        assert(ip_val == dec_val(ip));
    }
    let mut fr_val: u64 = 0;
    if dot < end {
        assert(fr =~= s@.subrange(dot + 1, end as int));
        if !all_digits_range(s, dot + 1, end) {
            return None;
        }
        assert(all_digits(fr));
        if dot + 1 < end {
            let c0 = s.get_char(dot + 1) as u32;
            fr_val = ((c0 - 48) * 10) as u64;
            if dot + 2 < end {
                let c1 = s.get_char(dot + 2) as u32;
                fr_val = fr_val + (c1 - 48) as u64;
            }
        }
        proof {
            assert(fr_val == frac_centi(fr));
        }
    } else {
        proof {
            assert(fr.len() == 0);
        }
    }
    let total: u64 = ip_val * 100 + fr_val;
    proof {
        assert(mag == Some(total as int));
    }
    if neg {
        if total <= 0x8000_0000 {
            let v = (-(total as i64)) as i32;
            Some(v)
        } else {
            None
        }
    } else {
        if total <= 0x7FFF_FFFF {
            Some(total as i32)
        } else {
            None
        }
    }
}

} // verus!
