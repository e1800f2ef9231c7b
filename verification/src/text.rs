use vstd::prelude::*;

verus! {

/// `String::push`: appends one character.
#[verifier::external_body]
pub(crate) fn push_char(s: &mut String, c: char)
    ensures
        final(s)@ == old(s)@.push(c),
{
    s.push(c);
}

/// The Unicode `White_Space` characters (what `char::is_whitespace` tests).
pub open spec fn is_unicode_whitespace(c: char) -> bool {
    let u = c as u32;
    (0x9 <= u <= 0xD) || u == 0x20 || u == 0x85 || u == 0xA0 || u == 0x1680
        || (0x2000 <= u <= 0x200A) || u == 0x2028 || u == 0x2029 || u == 0x202F
        || u == 0x205F || u == 0x3000
}

/// Whether `c` is Unicode white space.
pub fn is_whitespace(c: char) -> (b: bool)
    ensures
        b == is_unicode_whitespace(c),
{
    let u = c as u32;
    (0x9 <= u && u <= 0xD) || u == 0x20 || u == 0x85 || u == 0xA0 || u == 0x1680
        || (0x2000 <= u && u <= 0x200A) || u == 0x2028 || u == 0x2029 || u == 0x202F
        || u == 0x205F || u == 0x3000
}

pub open spec fn trim_start_seq(s: Seq<char>) -> Seq<char>
    decreases s.len(),
{
    if s.len() > 0 && is_unicode_whitespace(s[0]) { trim_start_seq(s.drop_first()) } else { s }
}

pub open spec fn trim_end_seq(s: Seq<char>) -> Seq<char>
    decreases s.len(),
{
    if s.len() > 0 && is_unicode_whitespace(s.last()) { trim_end_seq(s.drop_last()) } else { s }
}

/// `s` without leading and trailing white space.
pub open spec fn trim_seq(s: Seq<char>) -> Seq<char> {
    trim_end_seq(trim_start_seq(s))
}

/// The first `n` characters (all of them when there are fewer).
pub open spec fn take_seq(s: Seq<char>, n: int) -> Seq<char> {
    if s.len() <= n { s } else { s.subrange(0, n) }
}

proof fn lemma_trim_start_from(s: Seq<char>, i: int)
    requires
        0 <= i <= s.len(),
        forall|k: int| 0 <= k < i ==> is_unicode_whitespace(#[trigger] s[k]),
    ensures
        trim_start_seq(s) == trim_start_seq(s.subrange(i, s.len() as int)),
    decreases i,
{
    if i > 0 {
        assert(is_unicode_whitespace(s[0]));
        assert(s.drop_first().subrange(i - 1, s.drop_first().len() as int) =~= s.subrange(i, s.len() as int));
        assert forall|k: int| 0 <= k < i - 1 implies is_unicode_whitespace(#[trigger] s.drop_first()[k]) by {
            assert(s.drop_first()[k] == s[k + 1]);
        }
        lemma_trim_start_from(s.drop_first(), i - 1);
    } else {
        assert(s.subrange(0, s.len() as int) =~= s);
    }
}

proof fn lemma_trim_end_to(s: Seq<char>, j: int)
    requires
        0 <= j <= s.len(),
        forall|k: int| j <= k < s.len() ==> is_unicode_whitespace(#[trigger] s[k]),
    ensures
        trim_end_seq(s) == trim_end_seq(s.subrange(0, j)),
    decreases s.len() - j,
{
    if j < s.len() {
        assert(is_unicode_whitespace(s[s.len() - 1]));
        assert(s.drop_last().subrange(0, j) =~= s.subrange(0, j));
        lemma_trim_end_to(s.drop_last(), j);
    } else {
        assert(s.subrange(0, j) =~= s);
    }
}

/// The characters of `s` without leading and trailing white space.
pub fn trim(s: &str) -> (t: String)
    ensures
        t@ == trim_seq(s@),
{
    let n = s.unicode_len();
    let mut lo: usize = 0;
    while lo < n && is_whitespace(s.get_char(lo))
        invariant
            n == s@.len(),
            lo <= n,
            forall|k: int| 0 <= k < lo ==> is_unicode_whitespace(#[trigger] s@[k]),
        decreases n - lo,
    {
        lo = lo + 1;
    }
    proof {
        lemma_trim_start_from(s@, lo as int);
    }
    let ghost rest = s@.subrange(lo as int, n as int);
    assert(trim_start_seq(rest) == rest);
    let mut hi: usize = n;
    while hi > lo && is_whitespace(s.get_char(hi - 1))
        invariant
            n == s@.len(),
            lo <= hi <= n,
            forall|k: int| hi <= k < n ==> is_unicode_whitespace(#[trigger] s@[k]),
        decreases hi,
    {
        hi = hi - 1;
    }
    proof {
        let r = s@.subrange(lo as int, n as int);
        assert forall|k: int| (hi - lo) <= k < r.len() implies is_unicode_whitespace(#[trigger] r[k]) by {
            assert(r[k] == s@[k + lo]);
        }
        lemma_trim_end_to(r, hi - lo);
        assert(r.subrange(0, hi - lo) =~= s@.subrange(lo as int, hi as int));
        let m = s@.subrange(lo as int, hi as int);
        if m.len() > 0 {
            assert(m.last() == s@[hi - 1]);
        }
    }
    let mut t = String::new();
    let mut i: usize = lo;
    while i < hi
        invariant
            n == s@.len(),
            lo <= i <= hi <= n,
            t@ == s@.subrange(lo as int, i as int),
        decreases hi - i,
    {
        let c = s.get_char(i);
        push_char(&mut t, c);
        proof {
            assert(s@.subrange(lo as int, i + 1) =~= s@.subrange(lo as int, i as int).push(c));
        }
        i = i + 1;
    }
    t
}

/// The first `n` characters of `s`.
pub fn take_chars(s: &str, n: usize) -> (t: String)
    ensures
        t@ == take_seq(s@, n as int),
{
    let len = s.unicode_len();
    let end = if len <= n { len } else { n };
    let mut t = String::new();
    let mut i: usize = 0;
    while i < end
        invariant
            len == s@.len(),
            end <= len,
            i <= end,
            t@ == s@.subrange(0, i as int),
        decreases end - i,
    {
        let c = s.get_char(i);
        push_char(&mut t, c);
        proof {
            assert(s@.subrange(0, i + 1) =~= s@.subrange(0, i as int).push(c));
        }
        i = i + 1;
    }
    proof {
        if len <= n {
            assert(s@.subrange(0, len as int) =~= s@);
        }
    }
    t
}

/// Decimal digit character for `d < 10`.
pub open spec fn digit_char(d: int) -> char {
    if d == 0 { '0' } else if d == 1 { '1' } else if d == 2 { '2' } else if d == 3 { '3' }
    else if d == 4 { '4' } else if d == 5 { '5' } else if d == 6 { '6' } else if d == 7 { '7' }
    else if d == 8 { '8' } else { '9' }
}

/// Decimal representation of `n`, without leading zeros ("0" for zero).
pub open spec fn decimal(n: nat) -> Seq<char>
    decreases n,
{
    if n < 10 { seq![digit_char(n as int)] } else { decimal(n / 10).push(digit_char((n % 10) as int)) }
}

/// The character of decimal digit `d`.
pub fn digit(d: u64) -> (c: char)
    requires
        d < 10,
    ensures
        c == digit_char(d as int),
{
    if d == 0 { '0' } else if d == 1 { '1' } else if d == 2 { '2' } else if d == 3 { '3' }
    else if d == 4 { '4' } else if d == 5 { '5' } else if d == 6 { '6' } else if d == 7 { '7' }
    else if d == 8 { '8' } else { '9' }
}

/// Appends the decimal representation of `n`.
pub fn push_decimal(s: &mut String, n: u64)
    ensures
        final(s)@ == old(s)@ + decimal(n as nat),
    decreases n,
{
    if n < 10 {
        push_char(s, digit(n));
        assert(decimal(n as nat) =~= seq![digit_char(n as int)]);
    } else {
        push_decimal(s, n / 10);
        push_char(s, digit(n % 10));
        assert(old(s)@ + decimal(n as nat) =~= old(s)@ + decimal((n / 10) as nat) + seq![digit_char((n % 10) as int)]);
    }
}

/// Appends `tail`.
pub fn push_str(s: &mut String, tail: &str)
    ensures
        final(s)@ == old(s)@ + tail@,
{
    s.append(tail);
}

} // verus!
