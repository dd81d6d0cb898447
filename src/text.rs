use vstd::prelude::*;

verus! {

/// The decimal digit for `d` (`0 <= d < 10`).
pub open spec fn digit_char(d: int) -> char {
    if d == 0 {
        '0'
    } else if d == 1 {
        '1'
    } else if d == 2 {
        '2'
    } else if d == 3 {
        '3'
    } else if d == 4 {
        '4'
    } else if d == 5 {
        '5'
    } else if d == 6 {
        '6'
    } else if d == 7 {
        '7'
    } else if d == 8 {
        '8'
    } else {
        '9'
    }
}

/// Decimal digits of `n`, without leading zeros (`"0"` for zero).
pub open spec fn digits(n: nat) -> Seq<char>
    decreases n,
{
    if n < 10 {
        seq![digit_char(n as int)]
    } else {
        digits(n / 10).push(digit_char((n % 10) as int))
    }
}

/// The last `width` decimal digits of `n`, padded with leading zeros.
pub open spec fn padded(n: nat, width: nat) -> Seq<char>
    decreases width,
{
    if width == 0 {
        Seq::empty()
    } else {
        padded(n / 10, (width - 1) as nat).push(digit_char((n % 10) as int))
    }
}

/// `s` without its trailing `'0'` characters.
pub open spec fn trim_zeros(s: Seq<char>) -> Seq<char>
    decreases s.len(),
{
    if s.len() > 0 && s.last() == '0' {
        trim_zeros(s.drop_last())
    } else {
        s
    }
}

/// `n` with at least four digits, zero-padded.
pub open spec fn four_or_more(n: nat) -> Seq<char> {
    if n < 10000 {
        padded(n, 4)
    } else {
        digits(n)
    }
}

/// Decimal text of `seconds / 86400` (a day count held in seconds): the whole
/// days, then up to nine decimals truncated towards zero with trailing zeros
/// dropped (no point when none is left), and a leading `-` when negative.
pub open spec fn day_text(seconds: int) -> Seq<char> {
    let mag = if seconds < 0 {
        -seconds
    } else {
        seconds
    };
    let whole = digits((mag / 86400) as nat);
    let decimals = trim_zeros(padded((((mag % 86400) * 312500) / 27) as nat, 9));
    let body = if decimals.len() == 0 {
        whole
    } else {
        whole + seq!['.'] + decimals
    };
    if seconds < 0 {
        seq!['-'] + body
    } else {
        body
    }
}

/// Relies on `String::push`: appends one character.
#[verifier::external_body]
pub(crate) fn push_char(s: &mut String, c: char)
    ensures
        final(s)@ == old(s)@.push(c),
{
    s.push(c)
}

fn digit_to_char(d: u64) -> (c: char)
    requires
        d < 10,
    ensures
        c == digit_char(d as int),
{
    if d == 0 {
        '0'
    } else if d == 1 {
        '1'
    } else if d == 2 {
        '2'
    } else if d == 3 {
        '3'
    } else if d == 4 {
        '4'
    } else if d == 5 {
        '5'
    } else if d == 6 {
        '6'
    } else if d == 7 {
        '7'
    } else if d == 8 {
        '8'
    } else {
        '9'
    }
}

/// Appends the decimal digits of `n`.
pub(crate) fn push_digits(s: &mut String, n: u64)
    ensures
        final(s)@ == old(s)@ + digits(n as nat),
    decreases n,
{
    if n >= 10 {
        push_digits(s, n / 10);
    }
    push_char(s, digit_to_char(n % 10));
    assert(final(s)@ =~= old(s)@ + digits(n as nat));
}

/// Appends the last `width` digits of `n`, zero-padded.
pub(crate) fn push_padded(s: &mut String, n: u64, width: u64)
    ensures
        final(s)@ == old(s)@ + padded(n as nat, width as nat),
    decreases width,
{
    if width > 0 {
        push_padded(s, n / 10, width - 1);
        push_char(s, digit_to_char(n % 10));
    }
    assert(final(s)@ =~= old(s)@ + padded(n as nat, width as nat));
}

proof fn lemma_trim_padded(n: nat, width: nat)
    requires
        width > 0,
        n % 10 == 0,
    ensures
        trim_zeros(padded(n, width)) == trim_zeros(padded(n / 10, (width - 1) as nat)),
{
    assert(padded(n, width).drop_last() =~= padded(n / 10, (width - 1) as nat));
}

proof fn lemma_trim_stops(n: nat, width: nat)
    requires
        width == 0 || n % 10 != 0,
    ensures
        trim_zeros(padded(n, width)) == padded(n, width),
{
    if width > 0 {
        assert(digit_char((n % 10) as int) != '0');
    }
}

proof fn lemma_padded_len(n: nat, width: nat)
    ensures
        padded(n, width).len() == width,
    decreases width,
{
    if width > 0 {
        lemma_padded_len(n / 10, (width - 1) as nat);
    }
}

/// The digits left of `padded(n, width)` once its trailing zeros are dropped:
/// `padded(v, w) == trim_zeros(padded(n, width))`.
fn trimmed(n: u64, width: u64) -> (r: (u64, u64))
    ensures
        padded(r.0 as nat, r.1 as nat) == trim_zeros(padded(n as nat, width as nat)),
        r.1 <= width,
{
    let mut v = n;
    let mut w = width;
    while w > 0 && v % 10 == 0
        invariant
            trim_zeros(padded(v as nat, w as nat)) == trim_zeros(padded(n as nat, width as nat)),
            w <= width,
        decreases w,
    {
        proof {
            lemma_trim_padded(v as nat, w as nat);
        }
        v = v / 10;
        w = w - 1;
    }
    proof {
        lemma_trim_stops(v as nat, w as nat);
    }
    (v, w)
}

/// Appends `day_text(seconds)`.
pub(crate) fn push_day_text(s: &mut String, seconds: i64)
    ensures
        final(s)@ == old(s)@ + day_text(seconds as int),
{
    let mag: u64 = if seconds < 0 {
        (-(seconds + 1)) as u64 + 1
    } else {
        seconds as u64
    };
    if seconds < 0 {
        push_char(s, '-');
    }
    push_digits(s, mag / 86400);
    let (v, w) = trimmed((mag % 86400) * 312500 / 27, 9);
    proof {
        lemma_padded_len(v as nat, w as nat);
    }
    if w > 0 {
        push_char(s, '.');
        push_padded(s, v, w);
    }
    assert(final(s)@ =~= old(s)@ + day_text(seconds as int));
}

/// Whether two strings hold the same characters.
pub(crate) fn same_text(a: &str, b: &str) -> (r: bool)
    ensures
        r == (a@ == b@),
{
    let n = a.unicode_len();
    if n != b.unicode_len() {
        return false;
    }
    let mut i: usize = 0;
    while i < n
        invariant
            n == a@.len(),
            n == b@.len(),
            i <= n,
            a@.subrange(0, i as int) == b@.subrange(0, i as int),
        decreases n - i,
    {
        if a.get_char(i) != b.get_char(i) {
            return false;
        }
        assert(a@.subrange(0, i + 1) =~= a@.subrange(0, i as int).push(a@[i as int]));
        assert(b@.subrange(0, i + 1) =~= b@.subrange(0, i as int).push(b@[i as int]));
        i = i + 1;
    }
    assert(a@ =~= a@.subrange(0, n as int));
    assert(b@ =~= b@.subrange(0, n as int));
    true
}

} // verus!
