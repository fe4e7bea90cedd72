//! Character-level helpers shared by the formatting code. Strings are reasoned
//! about through their character sequences (`s@`).

use vstd::prelude::*;
use vstd::string::*;

verus! {

/// The character of a decimal digit.
pub open spec fn digit_char(d: int) -> char {
    seq!['0', '1', '2', '3', '4', '5', '6', '7', '8', '9'][d]
}

/// Decimal representation of a natural number, without leading zeros.
pub open spec fn decimal(n: nat) -> Seq<char>
    decreases n,
{
    if n < 10 {
        seq![digit_char(n as int)]
    } else {
        decimal(n / 10).push(digit_char((n % 10) as int))
    }
}

/// `n` spaces.
pub open spec fn spaces(n: nat) -> Seq<char> {
    Seq::new(n, |_i: int| ' ')
}

/// Left-aligned in a field of `width` characters (as `{:<width$}`).
pub open spec fn pad_right(s: Seq<char>, width: nat) -> Seq<char> {
    if s.len() >= width {
        s
    } else {
        s + spaces((width - s.len()) as nat)
    }
}

/// Centered in a field of `width` characters (as `{:^width$}`): the odd space
/// goes to the right.
pub open spec fn center(s: Seq<char>, width: nat) -> Seq<char> {
    if s.len() >= width {
        s
    } else {
        let pad = (width - s.len()) as nat;
        spaces(pad / 2) + s + spaces((pad - pad / 2) as nat)
    }
}

pub fn digit(d: u64) -> (c: char)
    requires
        d < 10,
    ensures
        c == digit_char(d as int),
{
    match d {
        0 => '0',
        1 => '1',
        2 => '2',
        3 => '3',
        4 => '4',
        5 => '5',
        6 => '6',
        7 => '7',
        8 => '8',
        _ => '9',
    }
}

/// Appends the decimal digits of `n`.
pub fn push_decimal(out: &mut Vec<char>, n: u64)
    ensures
        final(out)@ == old(out)@ + decimal(n as nat),
    decreases n,
{
    if n >= 10 {
        push_decimal(out, n / 10);
    }
    out.push(digit(n % 10));
    proof {
        if n >= 10 {
            assert(decimal(n as nat) == decimal((n / 10) as nat).push(digit_char((n % 10) as int)));
        }
    }
    assert(final(out)@ =~= old(out)@ + decimal(n as nat));
}

/// Appends the characters of `s`.
pub fn push_str(out: &mut Vec<char>, s: &str)
    ensures
        final(out)@ == old(out)@ + s@,
{
    let n = s.unicode_len();
    let mut i: usize = 0;
    while i < n
        invariant
            n == s@.len(),
            i <= n,
            out@ == old(out)@ + s@.subrange(0, i as int),
        decreases n - i,
    {
        out.push(s.get_char(i));
        i = i + 1;
        assert(out@ =~= old(out)@ + s@.subrange(0, i as int));
    }
    assert(s@.subrange(0, n as int) =~= s@);
}

/// Appends the characters of `v` from `from` up to `to`.
pub fn push_range(out: &mut Vec<char>, v: &Vec<char>, from: usize, to: usize)
    requires
        from <= to <= v@.len(),
    ensures
        final(out)@ == old(out)@ + v@.subrange(from as int, to as int),
{
    let mut i: usize = from;
    while i < to
        invariant
            from <= i <= to,
            to <= v@.len(),
            out@ == old(out)@ + v@.subrange(from as int, i as int),
        decreases to - i,
    {
        out.push(v[i]);
        i = i + 1;
        assert(out@ =~= old(out)@ + v@.subrange(from as int, i as int));
    }
}

/// Appends all of `v`.
pub fn push_all(out: &mut Vec<char>, v: &Vec<char>)
    ensures
        final(out)@ == old(out)@ + v@,
{
    push_range(out, v, 0, v.len());
    assert(v@.subrange(0, v@.len() as int) =~= v@);
}

/// Appends `n` spaces.
pub fn push_spaces(out: &mut Vec<char>, n: usize)
    ensures
        final(out)@ == old(out)@ + spaces(n as nat),
{
    let mut i: usize = 0;
    while i < n
        invariant
            i <= n,
            out@ == old(out)@ + spaces(i as nat),
        decreases n - i,
    {
        out.push(' ');
        i = i + 1;
        assert(out@ =~= old(out)@ + spaces(i as nat));
    }
}

/// The characters of `s`, in order.
pub fn chars_of(s: &str) -> (r: Vec<char>)
    ensures
        r@ == s@,
{
    let mut out: Vec<char> = Vec::new();
    push_str(&mut out, s);
    assert(out@ =~= s@);
    out
}

/// Relies on `String`'s `FromIterator<char>`: the string holds exactly the
/// given characters, in order.
#[verifier::external_body]
pub(crate) fn string_from_chars(v: &Vec<char>) -> (r: String)
    ensures
        r@ == v@,
{
    v.iter().collect()
}

/// Whether two strings hold the same characters.
pub fn same_text(a: &str, b: &str) -> (r: bool)
    ensures
        r == (a@ == b@),
{
    let n = a.unicode_len();
    let m = b.unicode_len();
    if n != m {
        return false;
    }
    let mut i: usize = 0;
    while i < n
        invariant
            n == a@.len(),
            m == b@.len(),
            n == m,
            i <= n,
            a@.subrange(0, i as int) == b@.subrange(0, i as int),
        decreases n - i,
    {
        if a.get_char(i) != b.get_char(i) {
            assert(a@[i as int] != b@[i as int]);
            return false;
        }
        assert(a@.subrange(0, i + 1) =~= a@.subrange(0, i as int).push(a@[i as int]));
        assert(b@.subrange(0, i + 1) =~= b@.subrange(0, i as int).push(b@[i as int]));
        i = i + 1;
    }
    assert(a@ =~= a@.subrange(0, n as int));
    assert(b@ =~= b@.subrange(0, n as int));
    true
}

/// Appends `s` left-aligned in a field of `width` characters.
pub fn push_padded(out: &mut Vec<char>, s: &Vec<char>, width: usize)
    ensures
        final(out)@ == old(out)@ + pad_right(s@, width as nat),
{
    let ghost start = out@;
    push_all(out, s);
    if s.len() < width {
        push_spaces(out, width - s.len());
    }
    assert(out@ =~= start + pad_right(s@, width as nat));
}

/// Appends `s` centered in a field of `width` characters.
pub fn push_centered(out: &mut Vec<char>, s: &Vec<char>, width: usize)
    ensures
        final(out)@ == old(out)@ + center(s@, width as nat),
{
    let ghost start = out@;
    if s.len() < width {
        let pad = width - s.len();
        push_spaces(out, pad / 2);
        push_range(out, s, 0, s.len());
        push_spaces(out, pad - pad / 2);
    } else {
        push_range(out, s, 0, s.len());
    }
    assert(s@.subrange(0, s@.len() as int) =~= s@);
    assert(out@ =~= start + center(s@, width as nat));
}

/// The text without its last line: everything from the last newline on is
/// removed (all of it when there is no newline).
pub open spec fn drop_last_line(s: Seq<char>) -> Seq<char>
    decreases s.len(),
{
    if s.len() == 0 {
        s
    } else if s.last() == '\n' {
        s.drop_last()
    } else {
        drop_last_line(s.drop_last())
    }
}

pub proof fn lemma_drop_last_line_prefix(s: Seq<char>)
    ensures
        s.len() > 0 ==> drop_last_line(s).len() < s.len(),
        drop_last_line(s).len() <= s.len(),
        drop_last_line(s) == s.take(drop_last_line(s).len() as int),
    decreases s.len(),
{
    if s.len() > 0 {
        lemma_drop_last_line_prefix(s.drop_last());
        if s.last() == '\n' {
            assert(s.drop_last() =~= s.take(s.len() - 1));
        } else {
            let d = drop_last_line(s.drop_last());
            assert(s.drop_last().take(d.len() as int) =~= s.take(d.len() as int));
        }
    }
}

/// Trailing lines dropped one at a time until at most `max` characters are left.
pub open spec fn fit_lines(s: Seq<char>, max: nat) -> Seq<char>
    decreases s.len(),
    via fit_lines_decreases
{
    if s.len() <= max {
        s
    } else {
        fit_lines(drop_last_line(s), max)
    }
}

#[via_fn]
proof fn fit_lines_decreases(s: Seq<char>, max: nat) {
    lemma_drop_last_line_prefix(s);
}

/// What is kept is a beginning of the text and fits.
pub proof fn lemma_fit_lines(s: Seq<char>, max: nat)
    ensures
        fit_lines(s, max).len() <= max,
        fit_lines(s, max) == s.take(fit_lines(s, max).len() as int),
    decreases s.len(),
{
    if s.len() > max {
        lemma_drop_last_line_prefix(s);
        let d = drop_last_line(s);
        lemma_fit_lines(d, max);
        let f = fit_lines(d, max);
        assert(s.take(f.len() as int) =~= d.take(f.len() as int));
    } else {
        assert(s.take(s.len() as int) =~= s);
    }
}

/// Removes the last line, as `drop_last_line` says.
pub fn remove_last_line(out: &mut Vec<char>)
    ensures
        final(out)@ == drop_last_line(old(out)@),
{
    loop
        invariant
            drop_last_line(out@) == drop_last_line(old(out)@),
        decreases out@.len(),
    {
        let ghost before = out@;
        match out.pop() {
            None => {
                return;
            },
            Some(c) => {
                assert(out@ == before.drop_last());
                if c == '\n' {
                    return;
                }
            },
        }
    }
}

/// Drops trailing lines until at most `max` characters are left.
pub fn fit_to(out: &mut Vec<char>, max: usize)
    ensures
        final(out)@ == fit_lines(old(out)@, max as nat),
{
    while out.len() > max
        invariant
            fit_lines(out@, max as nat) == fit_lines(old(out)@, max as nat),
        decreases out@.len(),
    {
        proof {
            lemma_drop_last_line_prefix(out@);
        }
        remove_last_line(out);
    }
}

} // verus!
