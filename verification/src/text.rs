//! Characters of a string slice, and the trimming of white space at its ends.

use vstd::prelude::*;

verus! {

/// Whether `c` has the Unicode property `White_Space`.
pub open spec fn white_space(c: char) -> bool {
    let u = c as u32;
    ||| 0x09 <= u <= 0x0D
    ||| u == 0x20
    ||| u == 0x85
    ||| u == 0xA0
    ||| u == 0x1680
    ||| 0x2000 <= u <= 0x200A
    ||| u == 0x2028
    ||| u == 0x2029
    ||| u == 0x202F
    ||| u == 0x205F
    ||| u == 0x3000
}

/// Whether every character of `s` is white space.
pub open spec fn all_white_space(s: Seq<char>) -> bool {
    forall|i: int| 0 <= i < s.len() ==> white_space(#[trigger] s[i])
}

/// How many white-space characters `s` starts with.
pub open spec fn leading_white_space(s: Seq<char>) -> nat
    decreases s.len(),
{
    if s.len() > 0 && white_space(s[0]) {
        1 + leading_white_space(s.drop_first())
    } else {
        0
    }
}

/// How many white-space characters `s` ends with.
pub open spec fn trailing_white_space(s: Seq<char>) -> nat
    decreases s.len(),
{
    if s.len() > 0 && white_space(s.last()) {
        1 + trailing_white_space(s.drop_last())
    } else {
        0
    }
}

/// `s` without the white space at its two ends.
pub open spec fn trimmed(s: Seq<char>) -> Seq<char> {
    let a = leading_white_space(s);
    if a == s.len() {
        Seq::empty()
    } else {
        s.subrange(a as int, s.len() - trailing_white_space(s))
    }
}

/// The characters of `text`, in order.
pub fn chars_of(text: &str) -> (chars: Vec<char>)
    ensures
        chars@ == text@,
{
    let mut chars: Vec<char> = Vec::new();
    for c in it: text.chars()
        invariant
            chars@ == it.seq().take(it.index()),
            it.seq() == text@,
    {
        chars.push(c);
    }
    chars
}

/// Tells whether `c` is white space.
pub fn is_white_space(c: char) -> (b: bool)
    ensures
        b == white_space(c),
{
    let u: u32 = c as u32;
    (0x09 <= u && u <= 0x0D) || u == 0x20 || u == 0x85 || u == 0xA0 || u == 0x1680 || (0x2000 <= u
        && u <= 0x200A) || u == 0x2028 || u == 0x2029 || u == 0x202F || u == 0x205F || u == 0x3000
}

/// The first `a` characters of `s` are white space and the next one, if there
/// is one, is not: then `s` starts with exactly `a` white-space characters.
pub proof fn lemma_leading_white_space(s: Seq<char>, a: int)
    requires
        0 <= a <= s.len(),
        forall|i: int| 0 <= i < a ==> white_space(#[trigger] s[i]),
        a < s.len() ==> !white_space(s[a]),
    ensures
        leading_white_space(s) == a,
    decreases a,
{
    if a > 0 {
        let rest = s.drop_first();
        assert forall|i: int| 0 <= i < a - 1 implies white_space(#[trigger] rest[i]) by {
            assert(rest[i] == s[i + 1]);
        }
        lemma_leading_white_space(rest, a - 1);
    }
}

/// The last `b` characters of `s` are white space and the one before them, if
/// there is one, is not: then `s` ends with exactly `b` white-space characters.
pub proof fn lemma_trailing_white_space(s: Seq<char>, b: int)
    requires
        0 <= b <= s.len(),
        forall|i: int| s.len() - b <= i < s.len() ==> white_space(#[trigger] s[i]),
        b < s.len() ==> !white_space(s[s.len() - b - 1]),
    ensures
        trailing_white_space(s) == b,
    decreases b,
{
    if b > 0 {
        let rest = s.drop_last();
        assert forall|i: int| rest.len() - (b - 1) <= i < rest.len() implies white_space(
            #[trigger] rest[i],
        ) by {
            assert(rest[i] == s[i]);
        }
        lemma_trailing_white_space(rest, b - 1);
    }
}

/// The white space that `s` starts with is followed by the end of `s` or by
/// a character that is no white space.
pub proof fn lemma_leading_white_space_ends(s: Seq<char>)
    ensures
        leading_white_space(s) <= s.len(),
        forall|i: int| 0 <= i < leading_white_space(s) ==> white_space(#[trigger] s[i]),
        leading_white_space(s) < s.len() ==> !white_space(s[leading_white_space(s) as int]),
    decreases s.len(),
{
    if s.len() > 0 && white_space(s[0]) {
        let rest = s.drop_first();
        lemma_leading_white_space_ends(rest);
        assert forall|i: int| 0 <= i < leading_white_space(s) implies white_space(
            #[trigger] s[i],
        ) by {
            if i > 0 {
                assert(s[i] == rest[i - 1]);
            }
        }
    }
}

/// The white space that `s` ends with is preceded by the start of `s` or by
/// a character that is no white space.
pub proof fn lemma_trailing_white_space_starts(s: Seq<char>)
    ensures
        trailing_white_space(s) <= s.len(),
        forall|i: int|
            s.len() - trailing_white_space(s) <= i < s.len() ==> white_space(#[trigger] s[i]),
        trailing_white_space(s) < s.len() ==> !white_space(
            s[s.len() - trailing_white_space(s) - 1],
        ),
    decreases s.len(),
{
    if s.len() > 0 && white_space(s.last()) {
        let rest = s.drop_last();
        lemma_trailing_white_space_starts(rest);
        assert forall|i: int|
            s.len() - trailing_white_space(s) <= i < s.len() implies white_space(
            #[trigger] s[i],
        ) by {
            if i < s.len() - 1 {
                assert(s[i] == rest[i]);
            }
        }
    }
}

/// Trimming leaves nothing of white space alone, and of any other text a part
/// that neither starts nor ends with white space, with only white space cut
/// off on either side.
pub proof fn lemma_trimmed_is_clean(s: Seq<char>)
    ensures
        all_white_space(s) <==> trimmed(s).len() == 0,
        trimmed(s).len() > 0 ==> !white_space(trimmed(s)[0]) && !white_space(trimmed(s).last()),
        exists|before: Seq<char>, after: Seq<char>|
            all_white_space(before) && all_white_space(after) && s == before + trimmed(s) + after,
{
    lemma_leading_white_space_ends(s);
    lemma_trailing_white_space_starts(s);
    let a = leading_white_space(s) as int;
    let b = trailing_white_space(s) as int;
    if a == s.len() {
        assert(s == s + trimmed(s) + Seq::<char>::empty());
    } else {
        assert(!all_white_space(s)) by {
            assert(!white_space(s[a]));
        }
        let before = s.subrange(0, a);
        let after = s.subrange(s.len() - b, s.len() as int);
        assert(s == before + trimmed(s) + after);
    }
}

/// A text that neither starts nor ends with white space is left as it is.
pub proof fn lemma_trimmed_unchanged(s: Seq<char>)
    requires
        s.len() > 0 ==> !white_space(s[0]) && !white_space(s.last()),
    ensures
        trimmed(s) == s,
{
    if s.len() > 0 {
        assert(s.subrange(0, s.len() as int) == s);
    }
}

/// White space added before and after a text does not change what is left of
/// it after trimming.
pub proof fn lemma_trimmed_padded(before: Seq<char>, s: Seq<char>, after: Seq<char>)
    requires
        all_white_space(before),
        all_white_space(after),
    ensures
        trimmed(before + s + after) == trimmed(s),
{
    let padded = before + s + after;
    lemma_leading_white_space_ends(s);
    lemma_trailing_white_space_starts(s);
    let a = leading_white_space(s) as int;
    let b = trailing_white_space(s) as int;
    if a == s.len() {
        lemma_leading_white_space(padded, padded.len() as int);
    } else {
        assert(padded[before.len() + a] == s[a]);
        assert(padded[before.len() + s.len() - b - 1] == s[s.len() - b - 1]);
        lemma_leading_white_space(padded, before.len() + a);
        lemma_trailing_white_space(padded, after.len() + b);
        assert(padded.subrange(before.len() + a, padded.len() - (after.len() + b)) == s.subrange(
            a,
            s.len() - b,
        ));
    }
}

/// Trimming twice is trimming once.
pub proof fn lemma_trimmed_twice(s: Seq<char>)
    ensures
        trimmed(trimmed(s)) == trimmed(s),
{
    lemma_trimmed_is_clean(s);
    lemma_trimmed_unchanged(trimmed(s));
}

/// `text` without the white space at its two ends.
pub fn trim(text: &str) -> (r: &str)
    ensures
        r@ == trimmed(text@),
{
    let chars = chars_of(text);
    let n = chars.len();
    let mut start: usize = 0;
    while start < n && is_white_space(chars[start])
        invariant
            start <= n,
            n == chars.len(),
            forall|i: int| 0 <= i < start ==> white_space(#[trigger] chars@[i]),
        decreases n - start,
    {
        start += 1;
    }
    let mut end: usize = n;
    while end > start && is_white_space(chars[end - 1])
        invariant
            start <= end <= n,
            n == chars.len(),
            forall|i: int| end <= i < n ==> white_space(#[trigger] chars@[i]),
        decreases end,
    {
        end -= 1;
    }
    proof {
        lemma_leading_white_space(chars@, start as int);
        if start < n {
            lemma_trailing_white_space(chars@, n - end);
        }
    }
    text.substring_char(start, end)
}

} // verus!
