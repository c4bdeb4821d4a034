//! Character-level helpers over `str`, specified on `Seq<char>`.

use vstd::prelude::*;
use vstd::string::*;

verus! {

/// Index of the first occurrence of `c` in `s`, or -1.
pub open spec fn first_index_of(s: Seq<char>, c: char) -> int
    decreases s.len(),
{
    if s.len() == 0 {
        -1
    } else if s[0] == c {
        0
    } else {
        let r = first_index_of(s.drop_first(), c);
        if r < 0 {
            -1
        } else {
            r + 1
        }
    }
}

/// Index of the last occurrence of `c` in `s`, or -1.
pub open spec fn last_index_of(s: Seq<char>, c: char) -> int
    decreases s.len(),
{
    if s.len() == 0 {
        -1
    } else if s.last() == c {
        s.len() - 1
    } else {
        last_index_of(s.drop_last(), c)
    }
}

pub open spec fn is_ascii_digit(c: char) -> bool {
    '0' <= c && c <= '9'
}

pub open spec fn all_ascii_digits(s: Seq<char>) -> bool {
    forall|i: int| 0 <= i < s.len() ==> is_ascii_digit(#[trigger] s[i])
}

/// The decimal value of a string of ASCII digits.
pub open spec fn decimal_value(s: Seq<char>) -> nat
    decreases s.len(),
{
    if s.len() == 0 {
        0
    } else {
        decimal_value(s.drop_last()) * 10 + ((s.last() as u32) - ('0' as u32)) as nat
    }
}

proof fn lemma_first_index_of(s: Seq<char>, c: char, i: int)
    requires
        0 <= i <= s.len(),
        i < s.len() ==> s[i] == c,
        forall|j: int| 0 <= j < i ==> s[j] != c,
    ensures
        first_index_of(s, c) == (if i == s.len() { -1 } else { i }),
    decreases s.len(),
{
    if s.len() > 0 && s[0] != c {
        let t = s.drop_first();
        assert forall|j: int| 0 <= j < i - 1 implies t[j] != c by {
            assert(t[j] == s[j + 1]);
        }
        lemma_first_index_of(t, c, i - 1);
    }
}

proof fn lemma_last_index_of(s: Seq<char>, c: char, i: int)
    requires
        -1 <= i < s.len(),
        i >= 0 ==> s[i] == c,
        forall|j: int| i < j < s.len() ==> s[j] != c,
    ensures
        last_index_of(s, c) == i,
    decreases s.len(),
{
    if s.len() > 0 && s.last() != c {
        let t = s.drop_last();
        assert forall|j: int| i < j < t.len() implies t[j] != c by {
            assert(t[j] == s[j]);
        }
        lemma_last_index_of(t, c, i);
    }
}

pub proof fn lemma_first_index_bounds(s: Seq<char>, c: char)
    ensures
        -1 <= first_index_of(s, c) < s.len(),
        first_index_of(s, c) >= 0 ==> s[first_index_of(s, c)] == c,
    decreases s.len(),
{
    if s.len() > 0 && s[0] != c {
        lemma_first_index_bounds(s.drop_first(), c);
    }
}

pub proof fn lemma_last_index_bounds(s: Seq<char>, c: char)
    ensures
        -1 <= last_index_of(s, c) < s.len(),
    decreases s.len(),
{
    if s.len() > 0 && s.last() != c {
        lemma_last_index_bounds(s.drop_last(), c);
    }
}

/// Position of the first `c` in `s`, in characters.
pub fn find_first_char(s: &str, c: char) -> (r: Option<usize>)
    ensures
        match r {
            Some(i) => i as int == first_index_of(s@, c),
            None => first_index_of(s@, c) == -1,
        },
{
    let n = s.unicode_len();
    let mut i: usize = 0;
    while i < n
        invariant
            n == s@.len(),
            i <= n,
            forall|j: int| 0 <= j < i ==> s@[j] != c,
        decreases n - i,
    {
        if s.get_char(i) == c {
            proof {
                lemma_first_index_of(s@, c, i as int);
            }
            return Some(i);
        }
        i = i + 1;
    }
    proof {
        lemma_first_index_of(s@, c, n as int);
    }
    None
}

/// Position of the last `c` in `s`, in characters.
pub fn find_last_char(s: &str, c: char) -> (r: Option<usize>)
    ensures
        match r {
            Some(i) => i as int == last_index_of(s@, c),
            None => last_index_of(s@, c) == -1,
        },
{
    let n = s.unicode_len();
    let mut i: usize = n;
    while i > 0
        invariant
            n == s@.len(),
            i <= n,
            forall|j: int| i <= j < n ==> s@[j] != c,
        decreases i,
    {
        if s.get_char(i - 1) == c {
            proof {
                lemma_last_index_of(s@, c, i - 1);
            }
            return Some(i - 1);
        }
        i = i - 1;
    }
    proof {
        lemma_last_index_of(s@, c, -1);
    }
    None
}

proof fn lemma_decimal_value_grows(s: Seq<char>, i: int, j: int)
    requires
        0 <= i <= j <= s.len(),
        all_ascii_digits(s),
    ensures
        decimal_value(s.subrange(0, i)) <= decimal_value(s.subrange(0, j)),
    decreases j - i,
{
    if i < j {
        lemma_decimal_value_grows(s, i, j - 1);
        assert(s.subrange(0, j).drop_last() == s.subrange(0, j - 1));
        assert(is_ascii_digit(s[j - 1]));
    }
}

/// Reads `s` as an unsigned decimal number that fits in a `u32`.
/// Succeeds exactly when `s` is a non-empty string of ASCII digits whose
/// value is at most `u32::MAX`; leading zeros are accepted.
pub fn parse_decimal_u32(s: &str) -> (r: Option<u32>)
    ensures
        r.is_some() <==> (s@.len() > 0 && all_ascii_digits(s@) && decimal_value(s@) <= u32::MAX),
        r.is_some() ==> r.unwrap() as nat == decimal_value(s@),
{
    let n = s.unicode_len();
    if n == 0 {
        return None;
    }
    let mut i: usize = 0;
    while i < n
        invariant
            n == s@.len(),
            i <= n,
            forall|j: int| 0 <= j < i ==> is_ascii_digit(#[trigger] s@[j]),
        decreases n - i,
    {
        let c = s.get_char(i);
        if !('0' <= c && c <= '9') {
            return None;
        }
        i = i + 1;
    }
    let mut value: u64 = 0;
    let mut k: usize = 0;
    while k < n
        invariant
            n == s@.len(),
            k <= n,
            all_ascii_digits(s@),
            value as nat == decimal_value(s@.subrange(0, k as int)),
            value <= u32::MAX,
        decreases n - k,
    {
        let c = s.get_char(k);
        let d = (c as u32 - '0' as u32) as u64;
        proof {
            assert(is_ascii_digit(s@[k as int]));
            assert(s@.subrange(0, k + 1).drop_last() == s@.subrange(0, k as int));
        }
        value = value * 10 + d;
        k = k + 1;
        if value > u32::MAX as u64 {
            proof {
                lemma_decimal_value_grows(s@, k as int, n as int);
                assert(s@.subrange(0, n as int) == s@);
            }
            return None;
        }
    }
    assert(s@.subrange(0, n as int) == s@);
    Some(value as u32)
}


/// Unicode white space, the characters `char::is_whitespace` accepts.
pub open spec fn is_whitespace(c: char) -> bool {
    ('\u{9}' <= c && c <= '\u{d}') || c == ' ' || c == '\u{85}' || c == '\u{a0}'
        || c == '\u{1680}' || ('\u{2000}' <= c && c <= '\u{200a}') || c == '\u{2028}'
        || c == '\u{2029}' || c == '\u{202f}' || c == '\u{205f}' || c == '\u{3000}'
}

/// `s` begins with `p`.
pub open spec fn starts_with_text(s: Seq<char>, p: Seq<char>) -> bool {
    p.len() <= s.len() && s.subrange(0, p.len() as int) == p
}

/// `head` followed by `tail`.
pub fn prefixed(head: &str, tail: &str) -> (r: String)
    ensures
        r@ == head@ + tail@,
        starts_with_text(r@, head@),
{
    let mut r = head.to_owned();
    r.append(tail);
    assert(r@.subrange(0, head@.len() as int) =~= head@);
    r
}

/// `a`, then `b`, then `c`.
pub fn joined3(a: &str, b: &str, c: &str) -> (r: String)
    ensures
        r@ == a@ + b@ + c@,
        starts_with_text(r@, a@),
{
    let mut r = a.to_owned();
    r.append(b);
    r.append(c);
    assert(r@.subrange(0, a@.len() as int) =~= a@);
    r
}

/// Whether `c` is Unicode white space.
pub fn is_whitespace_char(c: char) -> (r: bool)
    ensures
        r == is_whitespace(c),
{
    ('\u{9}' <= c && c <= '\u{d}') || c == ' ' || c == '\u{85}' || c == '\u{a0}'
        || c == '\u{1680}' || ('\u{2000}' <= c && c <= '\u{200a}') || c == '\u{2028}'
        || c == '\u{2029}' || c == '\u{202f}' || c == '\u{205f}' || c == '\u{3000}'
}

/// The maximal runs of non-white-space characters of `s`, in order.
pub open spec fn tokens(s: Seq<char>) -> Seq<Seq<char>>
    decreases s.len(),
{
    if s.len() == 0 {
        Seq::empty()
    } else {
        let t = tokens(s.drop_last());
        let c = s.last();
        if is_whitespace(c) {
            t
        } else if s.len() == 1 || is_whitespace(s[s.len() - 2]) {
            t.push(seq![c])
        } else {
            t.update(t.len() - 1, t.last().push(c))
        }
    }
}

/// Splits `s` at white space, dropping the white space.
pub fn split_whitespace(s: &str) -> (r: Vec<String>)
    ensures
        r@.map_values(|x: String| x@) == tokens(s@),
{
    let n = s.unicode_len();
    let mut out: Vec<String> = Vec::new();
    let mut start: usize = 0;
    let mut in_token = false;
    let mut i: usize = 0;
    while i < n
        invariant
            n == s@.len(),
            i <= n,
            in_token ==> start < i,
            in_token ==> (start == 0 || is_whitespace(s@[start - 1])),
            in_token ==> forall|k: int| start <= k < i ==> !is_whitespace(#[trigger] s@[k]),
            !in_token ==> (i == 0 || is_whitespace(s@[i - 1])),
            in_token ==> out@.map_values(|x: String| x@).push(s@.subrange(start as int, i as int)) == tokens(s@.subrange(0, i as int)),
            !in_token ==> out@.map_values(|x: String| x@) == tokens(s@.subrange(0, i as int)),
        decreases n - i,
    {
        let c = s.get_char(i);
        let ghost pre = s@.subrange(0, i as int);
        let ghost next = s@.subrange(0, i + 1);
        assert(next.drop_last() == pre);
        assert(next.last() == c);
        if is_whitespace_char(c) {
            if in_token {
                let ghost before = out@.map_values(|x: String| x@);
                out.push(s.substring_char(start, i).to_owned());
                assert(out@.map_values(|x: String| x@) =~= before.push(s@.subrange(start as int, i as int)));
                in_token = false;
            }
        } else {
            if in_token {
                assert(!is_whitespace(s@[i - 1]));
                assert(next[next.len() - 2] == s@[i - 1]);
                let ghost done = out@.map_values(|x: String| x@);
                assert(tokens(pre) == done.push(s@.subrange(start as int, i as int)));
                assert(s@.subrange(start as int, i as int).push(c) =~= s@.subrange(start as int, i + 1));
                assert(done.push(s@.subrange(start as int, i + 1)) =~= tokens(pre).update(tokens(pre).len() - 1, tokens(pre).last().push(c)));
            } else {
                if i > 0 {
                    assert(next[next.len() - 2] == s@[i - 1]);
                }
                assert(s@.subrange(i as int, i + 1) =~= seq![c]);
                start = i;
                in_token = true;
            }
        }
        i = i + 1;
    }
    assert(s@.subrange(0, n as int) == s@);
    if in_token {
        let ghost before = out@.map_values(|x: String| x@);
        out.push(s.substring_char(start, n).to_owned());
        assert(out@.map_values(|x: String| x@) =~= before.push(s@.subrange(start as int, n as int)));
    }
    out
}

} // verus!
