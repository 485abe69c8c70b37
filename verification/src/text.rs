//! Text rendering used in verdicts: decimal numerals and the substitution of
//! the `{reason}` marker in a correction template.

use vstd::prelude::*;

verus! {

/// The decimal digit character for `d`, for `d < 10`.
pub open spec fn digit_char(d: nat) -> char {
    ((d + 48) as u32) as char
}

/// The decimal numeral of `n`, without sign or leading zeros.
pub open spec fn decimal(n: nat) -> Seq<char>
    decreases n,
{
    if n < 10 {
        seq![digit_char(n)]
    } else {
        decimal(n / 10) + seq![digit_char(n % 10)]
    }
}

/// The decimal numeral of a signed integer: a leading `-` for negatives.
pub open spec fn signed_decimal(n: int) -> Seq<char> {
    if n < 0 {
        seq!['-'] + decimal((-n) as nat)
    } else {
        decimal(n as nat)
    }
}

/// The value of a string of decimal digits, most significant first.
pub open spec fn digits_value(s: Seq<char>) -> int
    decreases s.len(),
{
    if s.len() == 0 {
        0
    } else {
        digits_value(s.drop_last()) * 10 + (s.last() as u32 - 48)
    }
}

/// Whether `c` is one of `0` to `9`.
pub open spec fn is_digit(c: char) -> bool {
    48 <= c as u32 <= 57
}

/// The numeral of `n` is a non-empty string of digits, without a leading
/// zero unless it is `0`, that reads back as `n`.
pub proof fn law_decimal_reads_back(n: nat)
    ensures
        decimal(n).len() > 0,
        forall|i: int| 0 <= i < decimal(n).len() ==> is_digit(#[trigger] decimal(n)[i]),
        decimal(n)[0] == '0' ==> n == 0,
        digits_value(decimal(n)) == n,
    decreases n,
{
    if n < 10 {
        assert(decimal(n).drop_last() =~= Seq::<char>::empty());
        assert(digit_char(n) as u32 == n + 48);
        assert(decimal(n).last() == digit_char(n));
        assert(digits_value(decimal(n)) == digits_value(decimal(n).drop_last()) * 10 + (digit_char(
            n,
        ) as u32 - 48));
    } else {
        law_decimal_reads_back(n / 10);
        let d = decimal(n);
        let head = decimal((n / 10) as nat);
        assert(d == head + seq![digit_char(n % 10)]);
        assert(d.drop_last() =~= head);
        assert(digit_char(n % 10) as u32 == n % 10 + 48);
        assert(d[0] == head[0]);
        assert(d.last() == digit_char(n % 10));
        assert(digits_value(d) == digits_value(head) * 10 + (n % 10));
        assert forall|i: int| 0 <= i < d.len() implies is_digit(#[trigger] d[i]) by {
            if i < head.len() {
                assert(d[i] == head[i]);
            }
        }
        assert((n / 10) * 10 + n % 10 == n) by (nonlinear_arith);
    }
}

/// A signed numeral is `-` and the magnitude's numeral for a negative
/// number, and the plain numeral otherwise.
pub proof fn law_signed_decimal_reads_back(n: int)
    ensures
        n < 0 ==> signed_decimal(n)[0] == '-' && digits_value(signed_decimal(n).skip(1)) == -n,
        n >= 0 ==> digits_value(signed_decimal(n)) == n && is_digit(signed_decimal(n)[0]),
{
    if n < 0 {
        law_decimal_reads_back((-n) as nat);
        assert(signed_decimal(n).skip(1) =~= decimal((-n) as nat));
    } else {
        law_decimal_reads_back(n as nat);
    }
}

fn digit_str(d: u64) -> (s: &'static str)
    requires
        d < 10,
    ensures
        s@ == seq![digit_char(d as nat)],
{
    proof {
        reveal_strlit("0");
        reveal_strlit("1");
        reveal_strlit("2");
        reveal_strlit("3");
        reveal_strlit("4");
        reveal_strlit("5");
        reveal_strlit("6");
        reveal_strlit("7");
        reveal_strlit("8");
        reveal_strlit("9");
    }
    match d {
        0 => "0",
        1 => "1",
        2 => "2",
        3 => "3",
        4 => "4",
        5 => "5",
        6 => "6",
        7 => "7",
        8 => "8",
        _ => "9",
    }
}

/// Renders `n` in decimal, as `{}` formatting of an unsigned integer does.
pub fn render_unsigned(n: u64) -> (s: String)
    ensures
        s@ == decimal(n as nat),
    decreases n,
{
    if n < 10 {
        String::from_str(digit_str(n))
    } else {
        let mut s = render_unsigned(n / 10);
        s.append(digit_str(n % 10));
        s
    }
}

/// Renders `n` in decimal, as `{}` formatting of a signed integer does.
pub fn render_signed(n: i64) -> (s: String)
    ensures
        s@ == signed_decimal(n as int),
{
    if n < 0 {
        let magnitude: u64 = (0i128 - n as i128) as u64;
        let digits = render_unsigned(magnitude);
        let mut s = String::from_str("-");
        proof {
            reveal_strlit("-");
        }
        s.append(digits.as_str());
        s
    } else {
        render_unsigned(n as u64)
    }
}

/// The characters of `s`, in order.
fn chars_of(s: &str) -> (v: Vec<char>)
    ensures
        v@ == s@,
{
    let mut v: Vec<char> = Vec::new();
    for c in it: s.chars()
        invariant
            v@ == it.seq().take(it.index()),
    {
        v.push(c);
    }
    assert(v@ =~= s@);
    v
}

/// The placeholder that a correction template carries for the reason.
pub open spec fn reason_marker() -> Seq<char> {
    seq!['{', 'r', 'e', 'a', 's', 'o', 'n', '}']
}

/// `template` with every occurrence of the reason marker replaced by
/// `reason`, occurrences taken from left to right without overlap (as
/// `str::replace` does).
pub open spec fn fill_reason(template: Seq<char>, reason: Seq<char>) -> Seq<char>
    decreases template.len(),
{
    if template.len() < reason_marker().len() {
        template
    } else if template.take(reason_marker().len() as int) == reason_marker() {
        reason + fill_reason(template.skip(reason_marker().len() as int), reason)
    } else {
        seq![template[0]] + fill_reason(template.skip(1), reason)
    }
}

/// Whether the reason marker starts at position `i` of `t`.
pub open spec fn marker_starts_at(t: Seq<char>, i: int) -> bool {
    t.subrange(i, i + 8) == reason_marker()
}

/// Whether `t` holds the reason marker anywhere.
pub open spec fn has_marker(t: Seq<char>) -> bool {
    exists|i: int| 0 <= i && i + 8 <= t.len() && #[trigger] marker_starts_at(t, i)
}

/// A template without the marker comes back unchanged.
pub proof fn law_fill_without_marker(template: Seq<char>, reason: Seq<char>)
    requires
        !has_marker(template),
    ensures
        fill_reason(template, reason) == template,
    decreases template.len(),
{
    if template.len() >= reason_marker().len() {
        assert(!marker_starts_at(template, 0));
        assert(template.take(8) == template.subrange(0, 8));
        let rest = template.skip(1);
        assert forall|i: int| 0 <= i && i + 8 <= rest.len() implies !#[trigger] marker_starts_at(
            rest,
            i,
        ) by {
            assert(rest.subrange(i, i + 8) == template.subrange(i + 1, i + 9));
            assert(!marker_starts_at(template, i + 1));
        }
        law_fill_without_marker(rest, reason);
        assert(seq![template[0]] + rest == template);
    }
}

/// The leftmost marker is replaced by the reason, and the rest of the
/// template is filled on its own: when no marker starts inside `prefix`
/// (which may hold other `{` characters),
/// `fill(prefix + marker + suffix) == prefix + reason + fill(suffix)`.
/// Together with `law_fill_without_marker` this pins the fill down to
/// `str::replace` of the marker.
pub proof fn law_fill_leftmost_marker(prefix: Seq<char>, suffix: Seq<char>, reason: Seq<char>)
    requires
        forall|i: int|
            0 <= i < prefix.len() ==> !marker_starts_at(prefix + reason_marker() + suffix, i),
    ensures
        fill_reason(prefix + reason_marker() + suffix, reason) == prefix + reason + fill_reason(
            suffix,
            reason,
        ),
    decreases prefix.len(),
{
    let t = prefix + reason_marker() + suffix;
    if prefix.len() == 0 {
        assert(t.take(8) =~= reason_marker());
        assert(t.skip(8) =~= suffix);
        assert(prefix + reason + fill_reason(suffix, reason) =~= reason + fill_reason(
            suffix,
            reason,
        ));
    } else {
        assert(!marker_starts_at(t, 0));
        assert(t.take(8) == t.subrange(0, 8));
        let rest = prefix.skip(1);
        assert(t.skip(1) =~= rest + reason_marker() + suffix);
        assert forall|i: int| 0 <= i < rest.len() implies !marker_starts_at(
            rest + reason_marker() + suffix,
            i,
        ) by {
            assert(!marker_starts_at(t, i + 1));
            assert((rest + reason_marker() + suffix).subrange(i, i + 8) =~= t.subrange(
                i + 1,
                i + 9,
            ));
        }
        law_fill_leftmost_marker(rest, suffix, reason);
        assert(seq![t[0]] + (rest + reason + fill_reason(suffix, reason)) =~= prefix + reason
            + fill_reason(suffix, reason));
    }
}

/// A template with one marker, and no `{` elsewhere, gets the reason in the
/// marker's place.
pub proof fn law_fill_single_marker(
    prefix: Seq<char>,
    suffix: Seq<char>,
    reason: Seq<char>,
)
    requires
        !prefix.contains('{'),
        !suffix.contains('{'),
    ensures
        fill_reason(prefix + reason_marker() + suffix, reason) == prefix + reason + suffix,
    decreases prefix.len(),
{
    let t = prefix + reason_marker() + suffix;
    if prefix.len() == 0 {
        assert(t.take(8) == reason_marker());
        assert(t.skip(8) == suffix);
        assert forall|i: int| 0 <= i && i + 8 <= suffix.len() implies !#[trigger] marker_starts_at(
            suffix,
            i,
        ) by {
            if marker_starts_at(suffix, i) {
                assert(suffix.subrange(i, i + 8)[0] == suffix[i]);
            }
        }
        law_fill_without_marker(suffix, reason);
        assert(prefix + reason + suffix == reason + suffix);
    } else {
        assert(t.take(8)[0] == prefix[0]);
        assert(t.take(8) != reason_marker());
        let rest = prefix.skip(1);
        assert(!rest.contains('{')) by {
            if rest.contains('{') {
                let k = choose|k: int| 0 <= k < rest.len() && rest[k] == '{';
                assert(prefix[k + 1] == '{');
            }
        }
        law_fill_single_marker(rest, suffix, reason);
        assert(t.skip(1) == rest + reason_marker() + suffix);
        assert(seq![prefix[0]] + (rest + reason + suffix) == prefix + reason + suffix);
    }
}

/// Tests for the reason marker at position `i` of `t`.
fn marker_at(t: &Vec<char>, i: usize) -> (b: bool)
    requires
        i + 8 <= t.len(),
    ensures
        b == marker_starts_at(t@, i as int),
{
    let b = t[i] == '{' && t[i + 1] == 'r' && t[i + 2] == 'e' && t[i + 3] == 'a' && t[i + 4]
        == 's' && t[i + 5] == 'o' && t[i + 6] == 'n' && t[i + 7] == '}';
    proof {
        let w = t@.subrange(i as int, i + 8);
        if b {
            assert(w =~= reason_marker());
        } else if w == reason_marker() {
            assert(w[0] == t@[i as int] && w[1] == t@[i + 1] && w[2] == t@[i + 2] && w[3] == t@[i
                + 3]);
            assert(w[4] == t@[i + 4] && w[5] == t@[i + 5] && w[6] == t@[i + 6] && w[7] == t@[i
                + 7]);
        }
    }
    b
}

/// Replaces every `{reason}` marker of `template` by `reason`.
pub fn fill_reason_marker(template: &str, reason: &str) -> (out: String)
    ensures
        out@ == fill_reason(template@, reason@),
{
    let t = chars_of(template);
    let n = t.len();
    let mut out = String::new();
    let mut start: usize = 0;
    let mut i: usize = 0;
    assert(template@.skip(0) =~= template@);
    assert(out@ + template@.subrange(0, 0) =~= Seq::<char>::empty());
    while i < n && n - i >= 8
        invariant
            t@ == template@,
            n == t.len(),
            start <= i <= n,
            out@ + template@.subrange(start as int, i as int) + fill_reason(
                template@.skip(i as int),
                reason@,
            ) == fill_reason(template@, reason@),
        decreases n - i,
    {
        let ghost rest = template@.skip(i as int);
        assert(rest.take(8) =~= template@.subrange(i as int, i + 8));
        if marker_at(&t, i) {
            assert(rest.skip(8) =~= template@.skip(i + 8));
            let piece = template.substring_char(start, i);
            out.append(piece);
            out.append(reason);
            i = i + 8;
            start = i;
            assert(template@.subrange(start as int, i as int) =~= Seq::<char>::empty());
        } else {
            assert(rest.skip(1) =~= template@.skip(i + 1));
            assert(template@.subrange(start as int, i + 1) =~= template@.subrange(
                start as int,
                i as int,
            ).push(template@[i as int]));
            i = i + 1;
        }
    }
    let ghost rest = template@.skip(i as int);
    assert(fill_reason(rest, reason@) == rest);
    assert(template@.subrange(start as int, i as int) + rest =~= template@.subrange(
        start as int,
        n as int,
    ));
    let tail = template.substring_char(start, n);
    out.append(tail);
    out
}

} // verus!
