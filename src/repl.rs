//! The line-oriented prompt's decisions: what to answer to one input line.

use vstd::prelude::*;
use vstd::string::*;
use crate::text::{is_whitespace, is_whitespace_char};

verus! {

/// Number of white-space characters that `s` starts with.
pub open spec fn leading_space(s: Seq<char>) -> nat
    decreases s.len(),
{
    if s.len() > 0 && is_whitespace(s[0]) {
        1 + leading_space(s.drop_first())
    } else {
        0
    }
}

/// Number of white-space characters that `s` ends with.
pub open spec fn trailing_space(s: Seq<char>) -> nat
    decreases s.len(),
{
    if s.len() > 0 && is_whitespace(s.last()) {
        1 + trailing_space(s.drop_last())
    } else {
        0
    }
}

/// `s` without leading and trailing white space.
pub open spec fn trimmed(s: Seq<char>) -> Seq<char> {
    let t = s.subrange(leading_space(s) as int, s.len() as int);
    t.subrange(0, t.len() - trailing_space(t))
}

/// `c` is `lower`, or its ASCII capital.
pub open spec fn ascii_matches(c: char, lower: char) -> bool {
    c == lower || ('A' <= c && c <= 'Z' && (c as u32) + 32 == (lower as u32))
}

/// `s` is `exit` or `quit`, in any ASCII letter case.
pub open spec fn is_exit_word(s: Seq<char>) -> bool {
    s.len() == 4 && ((ascii_matches(s[0], 'e') && ascii_matches(s[1], 'x') && ascii_matches(s[2], 'i') && ascii_matches(s[3], 't'))
        || (ascii_matches(s[0], 'q') && ascii_matches(s[1], 'u') && ascii_matches(s[2], 'i') && ascii_matches(s[3], 't')))
}

/// The answer to one line.
#[derive(Debug, PartialEq, Eq)]
pub enum ReplReply {
    /// Stop reading.
    Exit,
    /// Print this line.
    Echo(String),
}

/// A prompt that echoes what it is given until told to stop.
pub struct Repl;

proof fn lemma_leading_space(s: Seq<char>, i: int)
    requires
        0 <= i <= s.len(),
        forall|j: int| 0 <= j < i ==> is_whitespace(#[trigger] s[j]),
        i < s.len() ==> !is_whitespace(s[i]),
    ensures
        leading_space(s) == i,
    decreases i,
{
    if i > 0 {
        let t = s.drop_first();
        assert forall|j: int| 0 <= j < i - 1 implies is_whitespace(#[trigger] t[j]) by {
            assert(t[j] == s[j + 1]);
        }
        if i < s.len() {
            assert(t[i - 1] == s[i]);
        }
        lemma_leading_space(t, i - 1);
    }
}

proof fn lemma_trailing_space(s: Seq<char>, k: int)
    requires
        0 <= k <= s.len(),
        forall|j: int| s.len() - k <= j < s.len() ==> is_whitespace(#[trigger] s[j]),
        k < s.len() ==> !is_whitespace(s[s.len() - k - 1]),
    ensures
        trailing_space(s) == k,
    decreases k,
{
    if k > 0 {
        let t = s.drop_last();
        assert forall|j: int| t.len() - (k - 1) <= j < t.len() implies is_whitespace(#[trigger] t[j]) by {
            assert(t[j] == s[j]);
        }
        if k < s.len() {
            assert(t[t.len() - (k - 1) - 1] == s[s.len() - k - 1]);
        }
        lemma_trailing_space(t, k - 1);
    }
}

fn trim_text(s: &str) -> (r: &str)
    ensures
        r@ == trimmed(s@),
{
    let n = s.unicode_len();
    let mut a: usize = 0;
    while a < n && is_whitespace_char(s.get_char(a))
        invariant
            n == s@.len(),
            a <= n,
            forall|j: int| 0 <= j < a ==> is_whitespace(#[trigger] s@[j]),
        decreases n - a,
    {
        a = a + 1;
    }
    proof {
        lemma_leading_space(s@, a as int);
    }
    let t = s.substring_char(a, n);
    let m = t.unicode_len();
    let mut k: usize = 0;
    while k < m && is_whitespace_char(t.get_char(m - k - 1))
        invariant
            m == t@.len(),
            k <= m,
            forall|j: int| m - k <= j < m ==> is_whitespace(#[trigger] t@[j]),
        decreases m - k,
    {
        k = k + 1;
    }
    proof {
        lemma_trailing_space(t@, k as int);
    }
    t.substring_char(0, m - k)
}

fn ascii_matches_exec(c: char, lower: char) -> (r: bool)
    requires
        'a' <= lower && lower <= 'z',
    ensures
        r == ascii_matches(c, lower),
{
    c == lower || ('A' <= c && c <= 'Z' && (c as u32) + 32 == (lower as u32))
}

impl Repl {
    pub fn new() -> (r: Repl) {
        Repl
    }

    /// The answer to the input line `line`: with surrounding white space
    /// removed, `exit` or `quit` in any letter case stops the prompt, and
    /// anything else is echoed back.
    pub fn respond(&self, line: &str) -> (r: ReplReply)
        ensures
            is_exit_word(trimmed(line@)) ==> r is Exit,
            !is_exit_word(trimmed(line@)) ==> (r matches ReplReply::Echo(t) && t@ == "echo: "@ + trimmed(line@)),
    {
        let input = trim_text(line);
        if input.unicode_len() == 4 {
            let c0 = input.get_char(0);
            let c1 = input.get_char(1);
            let c2 = input.get_char(2);
            let c3 = input.get_char(3);
            let is_exit = ascii_matches_exec(c0, 'e') && ascii_matches_exec(c1, 'x') && ascii_matches_exec(c2, 'i')
                && ascii_matches_exec(c3, 't');
            let is_quit = ascii_matches_exec(c0, 'q') && ascii_matches_exec(c1, 'u') && ascii_matches_exec(c2, 'i')
                && ascii_matches_exec(c3, 't');
            if is_exit || is_quit {
                return ReplReply::Exit;
            }
        }
        let mut out = "echo: ".to_owned();
        out.append(input);
        ReplReply::Echo(out)
    }
}

} // verus!
