//! Text helpers over the character model of strings: whitespace trimming,
//! UTF-8 widths, lower-casing and building strings from characters.
use vstd::prelude::*;

verus! {

/// The characters of `s`, in order.
pub fn chars_of(s: &str) -> (chars: Vec<char>)
    ensures
        chars@ == s@,
{
    let mut chars: Vec<char> = Vec::new();
    for c in it: s.chars()
        invariant
            chars@ == it.seq().take(it.index()),
    {
        chars.push(c);
    }
    chars
}

/// Appends `c` to `s` (`String::push`).
#[verifier::external_body]
pub(crate) fn string_push(s: &mut String, c: char)
    ensures
        final(s)@ == old(s)@.push(c),
{
    s.push(c)
}

/// Appends the characters of `t` to `s`.
pub fn push_text(s: &mut String, t: &str)
    ensures
        final(s)@ == old(s)@ + t@,
{
    let chars = chars_of(t);
    let mut i: usize = 0;
    while i < chars.len()
        invariant
            i <= chars@.len(),
            chars@ == t@,
            s@ == old(s)@ + t@.take(i as int),
        decreases chars.len() - i,
    {
        string_push(s, chars[i]);
        i = i + 1;
        assert(s@ =~= old(s)@ + t@.take(i as int));
    }
    assert(t@.take(i as int) =~= t@);
}

/// The string made of `chars[from..to]`.
pub fn string_from_chars(chars: &Vec<char>, from: usize, to: usize) -> (s: String)
    requires
        from <= to <= chars@.len(),
    ensures
        s@ == chars@.subrange(from as int, to as int),
{
    let mut s = String::new();
    let mut i = from;
    while i < to
        invariant
            from <= i <= to,
            to <= chars@.len(),
            s@ =~= chars@.subrange(from as int, i as int),
        decreases to - i,
    {
        string_push(&mut s, chars[i]);
        i = i + 1;
    }
    s
}

/// The Unicode `White_Space` characters.
pub open spec fn is_white_space(c: char) -> bool {
    let u = c as u32;
    (0x09 <= u <= 0x0d) || u == 0x20 || u == 0x85 || u == 0xa0 || u == 0x1680 || (0x2000 <= u
        <= 0x200a) || u == 0x2028 || u == 0x2029 || u == 0x202f || u == 0x205f || u == 0x3000
}

/// Whether `c` is white space: the Unicode `White_Space` property (as
/// `char::is_whitespace` tests it), see `is_white_space`.
pub(crate) fn char_is_whitespace(c: char) -> (b: bool)
    ensures
        b == is_white_space(c),
{
    let u = c as u32;
    (0x09 <= u && u <= 0x0d) || u == 0x20 || u == 0x85 || u == 0xa0 || u == 0x1680 || (0x2000 <= u
        && u <= 0x200a) || u == 0x2028 || u == 0x2029 || u == 0x202f || u == 0x205f || u == 0x3000
}

/// `s` without its leading white space.
pub open spec fn trim_start(s: Seq<char>) -> Seq<char>
    decreases s.len(),
{
    if s.len() > 0 && is_white_space(s[0]) {
        trim_start(s.drop_first())
    } else {
        s
    }
}

/// `s` without its trailing white space.
pub open spec fn trim_end(s: Seq<char>) -> Seq<char>
    decreases s.len(),
{
    if s.len() > 0 && is_white_space(s.last()) {
        trim_end(s.drop_last())
    } else {
        s
    }
}

/// `s` without white space at either end (`str::trim`).
pub open spec fn trim(s: Seq<char>) -> Seq<char> {
    trim_end(trim_start(s))
}

proof fn lemma_trim_start_at(s: Seq<char>, lo: int, a: int, hi: int)
    requires
        0 <= lo <= a <= hi <= s.len(),
        forall|k: int| lo <= k < a ==> is_white_space(s[k]),
        a == hi || !is_white_space(s[a]),
    ensures
        trim_start(s.subrange(lo, hi)) == s.subrange(a, hi),
    decreases a - lo,
{
    if lo < a {
        assert(s.subrange(lo, hi).drop_first() =~= s.subrange(lo + 1, hi));
        lemma_trim_start_at(s, lo + 1, a, hi);
    } else {
        if a < hi {
            assert(s.subrange(lo, hi)[0] == s[a]);
        }
    }
}

proof fn lemma_trim_end_at(s: Seq<char>, lo: int, b: int, hi: int)
    requires
        0 <= lo <= b <= hi <= s.len(),
        forall|k: int| b <= k < hi ==> is_white_space(s[k]),
        b == lo || !is_white_space(s[b - 1]),
    ensures
        trim_end(s.subrange(lo, hi)) == s.subrange(lo, b),
    decreases hi - b,
{
    if b < hi {
        assert(s.subrange(lo, hi).drop_last() =~= s.subrange(lo, hi - 1));
        lemma_trim_end_at(s, lo, b, hi - 1);
    } else {
        if lo < b {
            assert(s.subrange(lo, hi).last() == s[b - 1]);
        }
    }
}

/// The first index in `[lo, hi)` that is not white space, or `hi`.
pub fn skip_white_space(chars: &Vec<char>, lo: usize, hi: usize) -> (a: usize)
    requires
        lo <= hi <= chars@.len(),
    ensures
        lo <= a <= hi,
        trim_start(chars@.subrange(lo as int, hi as int)) == chars@.subrange(a as int, hi as int),
{
    let mut a = lo;
    while a < hi && char_is_whitespace(chars[a])
        invariant
            lo <= a <= hi,
            hi <= chars@.len(),
            forall|k: int| lo <= k < a ==> is_white_space(chars@[k]),
        decreases hi - a,
    {
        a = a + 1;
    }
    proof {
        lemma_trim_start_at(chars@, lo as int, a as int, hi as int);
    }
    a
}

/// The end of `[lo, hi)` once trailing white space is dropped.
pub fn drop_white_space_end(chars: &Vec<char>, lo: usize, hi: usize) -> (b: usize)
    requires
        lo <= hi <= chars@.len(),
    ensures
        lo <= b <= hi,
        trim_end(chars@.subrange(lo as int, hi as int)) == chars@.subrange(lo as int, b as int),
{
    let mut b = hi;
    while b > lo && char_is_whitespace(chars[b - 1])
        invariant
            lo <= b <= hi,
            hi <= chars@.len(),
            forall|k: int| b <= k < hi ==> is_white_space(chars@[k]),
        decreases b - lo,
    {
        b = b - 1;
    }
    proof {
        lemma_trim_end_at(chars@, lo as int, b as int, hi as int);
    }
    b
}

/// The number of bytes that `c` takes in UTF-8.
pub open spec fn utf8_width(c: char) -> nat {
    let u = c as u32;
    if u < 0x80 {
        1
    } else if u < 0x800 {
        2
    } else if u < 0x10000 {
        3
    } else {
        4
    }
}

/// The number of bytes that `s` takes in UTF-8 (`str::len`).
pub open spec fn utf8_len(s: Seq<char>) -> nat
    decreases s.len(),
{
    if s.len() == 0 {
        0
    } else {
        utf8_len(s.drop_last()) + utf8_width(s.last())
    }
}

/// The UTF-8 length of `chars[lo..hi]`, or `None` once it passes `limit`.
pub fn utf8_len_within(chars: &Vec<char>, lo: usize, hi: usize, limit: usize) -> (n: Option<usize>)
    requires
        lo <= hi <= chars@.len(),
        limit < 0x1000_0000,
    ensures
        match n {
            Some(k) => k == utf8_len(chars@.subrange(lo as int, hi as int)) && k <= limit,
            None => utf8_len(chars@.subrange(lo as int, hi as int)) > limit,
        },
{
    let mut total: usize = 0;
    let mut i = lo;
    while i < hi
        invariant
            lo <= i <= hi,
            hi <= chars@.len(),
            total <= limit,
            limit < 0x1000_0000,
            total == utf8_len(chars@.subrange(lo as int, i as int)),
        decreases hi - i,
    {
        let u = chars[i] as u32;
        let w: usize = if u < 0x80 {
            1
        } else if u < 0x800 {
            2
        } else if u < 0x10000 {
            3
        } else {
            4
        };
        proof {
            assert(chars@.subrange(lo as int, i + 1).drop_last() =~= chars@.subrange(lo as int, i as int));
        }
        total = total + w;
        i = i + 1;
        if total > limit {
            proof {
                lemma_utf8_len_grows(chars@, lo as int, i as int, hi as int);
            }
            return None;
        }
    }
    Some(total)
}

proof fn lemma_utf8_len_grows(s: Seq<char>, lo: int, i: int, hi: int)
    requires
        0 <= lo <= i <= hi <= s.len(),
    ensures
        utf8_len(s.subrange(lo, i)) <= utf8_len(s.subrange(lo, hi)),
    decreases hi - i,
{
    if i < hi {
        assert(s.subrange(lo, hi).drop_last() =~= s.subrange(lo, hi - 1));
        lemma_utf8_len_grows(s, lo, i, hi - 1);
    }
}

/// The lower-case form of a string (`str::to_lowercase`), a function of the
/// string alone.
pub uninterp spec fn lowercase(s: Seq<char>) -> Seq<char>;

/// The lower-case form of `s` (`str::to_lowercase`); its result is named,
/// not spelled out, since the Unicode case tables are not modelled here.
#[verifier::external_body]
pub(crate) fn to_lowercase(s: &str) -> (lower: String)
    ensures
        lower@ == lowercase(s@),
{
    s.to_lowercase()
}

/// The upper-case form of a string (`str::to_uppercase`), a function of the
/// string alone.
pub uninterp spec fn uppercase(s: Seq<char>) -> Seq<char>;

/// The upper-case form of `s` (`str::to_uppercase`); its result is named,
/// not spelled out, since the Unicode case tables are not modelled here.
#[verifier::external_body]
pub(crate) fn to_uppercase(s: &str) -> (upper: String)
    ensures
        upper@ == uppercase(s@),
{
    s.to_uppercase()
}

/// The code of `c` with ASCII upper-case letters lowered.
pub open spec fn ascii_lower_code(c: char) -> u32 {
    let u = c as u32;
    if 0x41 <= u <= 0x5a {
        (u + 32) as u32
    } else {
        u
    }
}

/// Whether two strings are equal when ASCII letters are compared without
/// regard to case (`str::eq_ignore_ascii_case`: other characters must
/// match exactly).
pub open spec fn ascii_case_equal(a: Seq<char>, b: Seq<char>) -> bool {
    a.len() == b.len() && forall|i: int| 0 <= i < a.len() ==> ascii_lower_code(#[trigger] a[i])
        == ascii_lower_code(b[i])
}

fn char_ascii_lower_code(c: char) -> (u: u32)
    ensures
        u == ascii_lower_code(c),
{
    let u = c as u32;
    if 0x41 <= u && u <= 0x5a {
        u + 32
    } else {
        u
    }
}

/// Whether `a` and `b` are equal up to the case of ASCII letters.
pub fn eq_ignore_ascii_case(a: &str, b: &str) -> (r: bool)
    ensures
        r == ascii_case_equal(a@, b@),
{
    let ac = chars_of(a);
    let bc = chars_of(b);
    if ac.len() != bc.len() {
        return false;
    }
    let mut i: usize = 0;
    while i < ac.len()
        invariant
            ac@ == a@,
            bc@ == b@,
            ac@.len() == bc@.len(),
            i <= ac@.len(),
            forall|j: int| 0 <= j < i ==> ascii_lower_code(#[trigger] a@[j]) == ascii_lower_code(b@[j]),
        decreases ac@.len() - i,
    {
        if char_ascii_lower_code(ac[i]) != char_ascii_lower_code(bc[i]) {
            return false;
        }
        i = i + 1;
    }
    true
}

/// Comparing without regard to ASCII case is reflexive and symmetric.
pub proof fn law_ascii_case_equal_equivalence(a: Seq<char>, b: Seq<char>)
    ensures
        ascii_case_equal(a, a),
        ascii_case_equal(a, b) == ascii_case_equal(b, a),
{
}

/// Whether two strings are equal.
pub fn str_eq(a: &str, b: &str) -> (r: bool)
    ensures
        r == (a@ == b@),
{
    let ac = chars_of(a);
    let bc = chars_of(b);
    if ac.len() != bc.len() {
        return false;
    }
    let mut i: usize = 0;
    while i < ac.len()
        invariant
            ac@ == a@,
            bc@ == b@,
            ac@.len() == bc@.len(),
            i <= ac@.len(),
            forall|j: int| 0 <= j < i ==> a@[j] == b@[j],
        decreases ac@.len() - i,
    {
        if ac[i] != bc[i] {
            return false;
        }
        i = i + 1;
    }
    assert(a@ =~= b@);
    true
}

/// The spellings of "yes" that data files use for a true flag.
pub open spec fn is_tfs_true(t: Seq<char>) -> bool {
    ||| t == "1"@
    ||| t == "true"@
    ||| t == "yes"@
    ||| t == "TRUE"@
    ||| t == "YES"@
    ||| t == "True"@
    ||| t == "Yes"@
}

/// Whether a data file's flag text means true: one of the spellings of
/// "yes" once surrounding white space is removed.
pub fn parse_tfs_bool(s: &str) -> (r: bool)
    ensures
        r == is_tfs_true(trim(s@)),
{
    let chars = chars_of(s);
    let a = skip_white_space(&chars, 0, chars.len());
    let b = drop_white_space_end(&chars, a, chars.len());
    let t = string_from_chars(&chars, a, b);
    proof {
        assert(chars@.subrange(0, chars@.len() as int) =~= s@);
    }
    let t = t.as_str();
    str_eq(t, "1") || str_eq(t, "true") || str_eq(t, "yes") || str_eq(t, "TRUE") || str_eq(t, "YES")
        || str_eq(t, "True") || str_eq(t, "Yes")
}

} // verus!

