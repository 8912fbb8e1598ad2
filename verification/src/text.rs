//! Character-level helpers: white space, trimming, line boundaries, and
//! conversion between strings and character slices.

use vstd::prelude::*;
use vstd::slice::slice_subrange;

verus! {

/// Assumed of `String::push`, as its documentation says: it appends the
/// character to the end of the string.
pub assume_specification[ String::push ](s: &mut String, c: char)
    ensures
        final(s)@ == old(s)@.push(c),
;

/// Assumed of `String::pop`, as its documentation says: it removes the last
/// character and returns it; on an empty string it returns `None` and leaves
/// the string as it is.
pub assume_specification[ String::pop ](s: &mut String) -> (r: Option<char>)
    ensures
        old(s)@.len() == 0 ==> r is None && final(s)@ == old(s)@,
        old(s)@.len() > 0 ==> r == Some(old(s)@.last()) && final(s)@ == old(s)@.drop_last(),
;

/// Whether `c` is white space: a character with the Unicode `White_Space`
/// property.
pub open spec fn is_space(c: char) -> bool {
    let u = c as u32;
    ||| 0x09 <= u <= 0x0D
    ||| u == 0x20
    ||| u == 0x85
    ||| u == 0xA0
    ||| u == 0x1680
    ||| 0x2000 <= u <= 0x200A
    ||| u == 0x2028
    ||| u == 0x2029
    ||| u == 0x202F
    ||| u == 0x205F
    ||| u == 0x3000
}

/// The number of white-space characters at the start of `s`.
pub open spec fn leading_spaces(s: Seq<char>) -> nat
    decreases s.len(),
{
    if s.len() > 0 && is_space(s[0]) {
        1 + leading_spaces(s.skip(1))
    } else {
        0
    }
}

/// The number of white-space characters at the end of `s`.
pub open spec fn trailing_spaces(s: Seq<char>) -> nat
    decreases s.len(),
{
    if s.len() > 0 && is_space(s.last()) {
        1 + trailing_spaces(s.drop_last())
    } else {
        0
    }
}

/// `s` without its leading and trailing white space.
pub open spec fn trim(s: Seq<char>) -> Seq<char> {
    let t = s.skip(leading_spaces(s) as int);
    t.take(t.len() - trailing_spaces(t))
}

/// The length of the first line of `text`: the index of its first line feed,
/// or its length where it has none.
pub open spec fn line_end(text: Seq<char>) -> nat
    decreases text.len(),
{
    if text.len() == 0 || text[0] == '\n' {
        0
    } else {
        1 + line_end(text.skip(1))
    }
}

/// Whether `s` begins with `p`.
pub open spec fn has_prefix(s: Seq<char>, p: Seq<char>) -> bool {
    p.len() <= s.len() && s.take(p.len() as int) == p
}

/// `leading_spaces(s)` is the one `n` with white space before it and none at it.
pub proof fn lemma_leading_spaces(s: Seq<char>, n: int)
    requires
        0 <= n <= s.len(),
        forall|j: int| 0 <= j < n ==> is_space(#[trigger] s[j]),
        n == s.len() || !is_space(s[n]),
    ensures
        leading_spaces(s) == n,
    decreases n,
{
    if n > 0 {
        let t = s.skip(1);
        assert forall|j: int| 0 <= j < n - 1 implies is_space(#[trigger] t[j]) by {
            assert(t[j] == s[j + 1]);
        }
        lemma_leading_spaces(t, n - 1);
    }
}

/// `trailing_spaces(s)` is the one `n` with white space in the last `n`
/// places and none just before them.
pub proof fn lemma_trailing_spaces(s: Seq<char>, n: int)
    requires
        0 <= n <= s.len(),
        forall|j: int| s.len() - n <= j < s.len() ==> is_space(#[trigger] s[j]),
        n == s.len() || !is_space(s[s.len() - n - 1]),
    ensures
        trailing_spaces(s) == n,
    decreases n,
{
    if n > 0 {
        let t = s.drop_last();
        assert forall|j: int| t.len() - (n - 1) <= j < t.len() implies is_space(#[trigger] t[j]) by {
            assert(t[j] == s[j]);
        }
        lemma_trailing_spaces(t, n - 1);
    }
}

/// `line_end(text)` is the one `n` with no line feed before it and one at it,
/// or the end of the text.
pub proof fn lemma_line_end(text: Seq<char>, n: int)
    requires
        0 <= n <= text.len(),
        forall|j: int| 0 <= j < n ==> #[trigger] text[j] != '\n',
        n == text.len() || text[n] == '\n',
    ensures
        line_end(text) == n,
    decreases n,
{
    if n > 0 {
        let t = text.skip(1);
        assert forall|j: int| 0 <= j < n - 1 implies #[trigger] t[j] != '\n' by {
            assert(t[j] == text[j + 1]);
        }
        lemma_line_end(t, n - 1);
    }
}

/// What `leading_spaces` counts: it stops at the first character that is not
/// white space, or at the end.
pub proof fn lemma_leading_spaces_stops(s: Seq<char>)
    ensures
        leading_spaces(s) <= s.len(),
        forall|j: int| 0 <= j < leading_spaces(s) ==> is_space(#[trigger] s[j]),
        leading_spaces(s) < s.len() ==> !is_space(s[leading_spaces(s) as int]),
    decreases s.len(),
{
    if s.len() > 0 && is_space(s[0]) {
        let t = s.skip(1);
        lemma_leading_spaces_stops(t);
        assert forall|j: int| 0 <= j < leading_spaces(s) implies is_space(#[trigger] s[j]) by {
            if j > 0 {
                assert(s[j] == t[j - 1]);
            }
        }
        if leading_spaces(s) < s.len() {
            assert(s[leading_spaces(s) as int] == t[leading_spaces(t) as int]);
        }
    }
}

/// What `trailing_spaces` counts: it stops at the last character that is not
/// white space, or at the start.
pub proof fn lemma_trailing_spaces_stops(s: Seq<char>)
    ensures
        trailing_spaces(s) <= s.len(),
        forall|j: int| s.len() - trailing_spaces(s) <= j < s.len() ==> is_space(#[trigger] s[j]),
        trailing_spaces(s) < s.len() ==> !is_space(s[s.len() - trailing_spaces(s) - 1]),
    decreases s.len(),
{
    if s.len() > 0 && is_space(s.last()) {
        let t = s.drop_last();
        lemma_trailing_spaces_stops(t);
        assert forall|j: int| s.len() - trailing_spaces(s) <= j < s.len() implies is_space(
            #[trigger] s[j],
        ) by {
            if j < s.len() - 1 {
                assert(s[j] == t[j]);
            }
        }
        if trailing_spaces(s) < s.len() {
            assert(s[s.len() - trailing_spaces(s) - 1] == t[t.len() - trailing_spaces(t) - 1]);
        }
    }
}

/// Whether `s` has a character that is not white space at each end.
pub open spec fn has_solid_ends(s: Seq<char>) -> bool {
    s.len() > 0 && !is_space(s[0]) && !is_space(s.last())
}

/// Trimming leaves a text with solid ends as it is.
pub proof fn lemma_trim_solid(s: Seq<char>)
    requires
        has_solid_ends(s),
    ensures
        trim(s) == s,
{
    assert(s.skip(0) =~= s);
    assert(trim(s) =~= s);
}

/// Trimming removes white space in front of a text with solid ends.
pub proof fn lemma_trim_padded(pad: Seq<char>, s: Seq<char>)
    requires
        forall|j: int| 0 <= j < pad.len() ==> is_space(#[trigger] pad[j]),
        has_solid_ends(s),
    ensures
        trim(pad + s) == s,
{
    let whole = pad + s;
    assert forall|j: int| 0 <= j < pad.len() implies is_space(#[trigger] whole[j]) by {
        assert(whole[j] == pad[j]);
    }
    assert(whole[pad.len() as int] == s[0]);
    lemma_leading_spaces(whole, pad.len() as int);
    assert(whole.skip(pad.len() as int) =~= s);
    lemma_trim_solid(s);
    assert(s.skip(0) =~= s);
}

/// A trimmed text is empty or has solid ends; it is empty only where the
/// text holds nothing but white space.
pub proof fn lemma_trim_ends(s: Seq<char>)
    ensures
        trim(s).len() == 0 || has_solid_ends(trim(s)),
        trim(s).len() == 0 ==> forall|j: int| 0 <= j < s.len() ==> is_space(#[trigger] s[j]),
{
    let lo = leading_spaces(s) as int;
    lemma_leading_spaces_stops(s);
    let t = s.skip(lo);
    lemma_trailing_spaces_stops(t);
    let r = trim(s);
    if lo < s.len() {
        assert(t[0] == s[lo]);
        assert(trailing_spaces(t) < t.len()) by {
            if trailing_spaces(t) >= t.len() {
                assert(is_space(t[0]));
            }
        }
        assert(r.len() > 0);
        assert(r[0] == t[0]);
        assert(r.last() == t[t.len() - trailing_spaces(t) - 1]);
    } else {
        assert(r.len() == 0);
    }
}

/// What `line_end` counts: it stops at the first line feed, or at the end.
pub proof fn lemma_line_end_stops(text: Seq<char>)
    ensures
        line_end(text) <= text.len(),
        forall|j: int| 0 <= j < line_end(text) ==> #[trigger] text[j] != '\n',
        line_end(text) < text.len() ==> text[line_end(text) as int] == '\n',
    decreases text.len(),
{
    if !(text.len() == 0 || text[0] == '\n') {
        let t = text.skip(1);
        lemma_line_end_stops(t);
        assert forall|j: int| 0 <= j < line_end(text) implies #[trigger] text[j] != '\n' by {
            if j > 0 {
                assert(text[j] == t[j - 1]);
            }
        }
        if line_end(text) < text.len() {
            assert(text[line_end(text) as int] == t[line_end(t) as int]);
        }
    }
}

/// Tests a character for white space.
pub fn is_space_char(c: char) -> (r: bool)
    ensures
        r == is_space(c),
{
    let u: u32 = c as u32;
    (0x09 <= u && u <= 0x0D) || u == 0x20 || u == 0x85 || u == 0xA0 || u == 0x1680 || (0x2000 <= u
        && u <= 0x200A) || u == 0x2028 || u == 0x2029 || u == 0x202F || u == 0x205F || u == 0x3000
}

/// The characters of a string, in order.
pub fn to_chars(s: &str) -> (v: Vec<char>)
    ensures
        v@ == s@,
{
    let mut v: Vec<char> = Vec::new();
    for c in it: s.chars()
        invariant
            it.seq() == s@,
            v@ == it.seq().take(it.index()),
    {
        v.push(c);
    }
    v
}

/// The string made of the given characters, in order.
pub fn string_of(s: &[char]) -> (r: String)
    ensures
        r@ == s@,
{
    let mut r = String::new();
    let mut i: usize = 0;
    while i < s.len()
        invariant
            i <= s.len(),
            r@ == s@.take(i as int),
        decreases s.len() - i,
    {
        r.push(s[i]);
        i += 1;
    }
    r
}

/// The part of `s` that is left when leading and trailing white space is removed.
pub fn trim_slice<'a>(s: &'a [char]) -> (r: &'a [char])
    ensures
        r@ == trim(s@),
{
    let mut lo: usize = 0;
    while lo < s.len() && is_space_char(s[lo])
        invariant
            lo <= s.len(),
            forall|j: int| 0 <= j < lo ==> is_space(#[trigger] s@[j]),
        decreases s.len() - lo,
    {
        lo += 1;
    }
    let mut hi: usize = s.len();
    while hi > lo && is_space_char(s[hi - 1])
        invariant
            lo <= hi <= s.len(),
            forall|j: int| hi <= j < s.len() ==> is_space(#[trigger] s@[j]),
        decreases hi,
    {
        hi -= 1;
    }
    proof {
        lemma_leading_spaces(s@, lo as int);
        let t = s@.skip(lo as int);
        assert forall|j: int| t.len() - (s.len() - hi) <= j < t.len() implies is_space(
            #[trigger] t[j],
        ) by {
            assert(t[j] == s@[j + lo]);
        }
        lemma_trailing_spaces(t, s.len() - hi);
        assert(s@.subrange(lo as int, hi as int) =~= trim(s@));
    }
    slice_subrange(s, lo, hi)
}

/// The length of the first line of `s`.
pub fn find_line_end(s: &[char]) -> (n: usize)
    ensures
        n == line_end(s@),
        n <= s.len(),
{
    let mut n: usize = 0;
    while n < s.len() && s[n] != '\n'
        invariant
            n <= s.len(),
            forall|j: int| 0 <= j < n ==> #[trigger] s@[j] != '\n',
        decreases s.len() - n,
    {
        n += 1;
    }
    proof {
        lemma_line_end(s@, n as int);
    }
    n
}

/// What follows `prefix` in `s`, where `s` begins with it.
pub fn strip_prefix<'a>(s: &'a [char], prefix: &str) -> (r: Option<&'a [char]>)
    ensures
        match r {
            Some(rest) => has_prefix(s@, prefix@) && rest@ == s@.skip(prefix@.len() as int),
            None => !has_prefix(s@, prefix@),
        },
{
    let mut i: usize = 0;
    for c in it: prefix.chars()
        invariant
            it.seq() == prefix@,
            i == it.index(),
            i <= s.len(),
            s@.take(i as int) == prefix@.take(i as int),
    {
        if i >= s.len() || s[i] != c {
            proof {
                if has_prefix(s@, prefix@) {
                    assert(s@.take(prefix@.len() as int)[i as int] == prefix@[i as int]);
                }
            }
            return None;
        }
        proof {
            assert(s@.take(i + 1) =~= s@.take(i as int).push(s@[i as int]));
            assert(prefix@.take(i + 1) =~= prefix@.take(i as int).push(prefix@[i as int]));
        }
        i += 1;
    }
    proof {
        assert(prefix@.take(i as int) =~= prefix@);
    }
    Some(slice_subrange(s, i, s.len()))
}

/// The character of a decimal digit.
pub open spec fn digit(d: int) -> char {
    (d + 48) as u8 as char
}

/// The decimal digits of a natural number, without leading zeros.
pub open spec fn decimal_digits(n: nat) -> Seq<char>
    decreases n,
{
    if n < 10 {
        seq![digit(n as int)]
    } else {
        decimal_digits(n / 10).push(digit((n % 10) as int))
    }
}

/// The decimal text of an integer: a minus sign where it is negative, and
/// its digits.
pub open spec fn decimal(v: int) -> Seq<char> {
    if v < 0 {
        seq!['-'] + decimal_digits((-v) as nat)
    } else {
        decimal_digits(v as nat)
    }
}

/// Appends the decimal digits of `n`.
fn push_digits(out: &mut String, n: u32)
    ensures
        final(out)@ == old(out)@ + decimal_digits(n as nat),
    decreases n,
{
    if n >= 10 {
        push_digits(out, n / 10);
    }
    let d: u8 = (n % 10) as u8;
    out.push((48 + d) as char);
    proof {
        if n >= 10 {
            assert(out@ =~= old(out)@ + decimal_digits((n / 10) as nat).push(
                digit((n % 10) as int),
            ));
        } else {
            assert(out@ =~= old(out)@ + seq![digit(n as int)]);
        }
    }
}

/// The decimal text of an integer.
pub fn decimal_text(v: i32) -> (r: String)
    ensures
        r@ == decimal(v as int),
{
    let mut r = String::new();
    if v < 0 {
        r.push('-');
        let wide: i64 = v as i64;
        let magnitude: u32 = (-wide) as u32;
        push_digits(&mut r, magnitude);
        assert(r@ =~= seq!['-'] + decimal_digits((-v) as nat));
    } else {
        push_digits(&mut r, v as u32);
        assert(r@ =~= decimal_digits(v as nat));
    }
    r
}

} // verus!
