//! A trie keyed by whitespace-separated token paths, with completion of the
//! last, partial token.

use vstd::prelude::*;
use crate::interner::{StringInterner, id_of, lemma_id_of_push, lemma_id_of_sound};
use crate::text::{is_whitespace, split_whitespace, starts_with_text, tokens};

verus! {

struct TrieNode {
    value: Option<u32>,
    children: Vec<(u32, usize)>,
}

/// Maps token paths to values. Node 0 is the root; each edge is labelled by
/// the interned id of one token.
pub struct Trie {
    string_interner: StringInterner,
    nodes: Vec<TrieNode>,
    /// The token path from the root to each node.
    paths: Ghost<Seq<Seq<Seq<char>>>>,
}

/// The child reached from an edge list by the first edge labelled `e`.
pub open spec fn child_of(cs: Seq<(u32, usize)>, e: u32) -> Option<usize>
    decreases cs.len(),
{
    if cs.len() == 0 {
        None
    } else {
        match child_of(cs.drop_last(), e) {
            Some(c) => Some(c),
            None => if cs.last().0 == e {
                Some(cs.last().1)
            } else {
                None
            },
        }
    }
}

/// The complete tokens of a completion query and its partial last token:
/// after trailing white space the partial token is empty.
pub open spec fn completion_query(s: Seq<char>) -> (Seq<Seq<char>>, Seq<char>) {
    let ts = tokens(s);
    if (s.len() > 0 && is_whitespace(s.last())) || ts.len() == 0 {
        (ts, Seq::empty())
    } else {
        (ts.drop_last(), ts.last())
    }
}

proof fn lemma_child_of_index(cs: Seq<(u32, usize)>, e: u32, i: int)
    requires
        0 <= i < cs.len(),
        cs[i].0 == e,
        forall|j: int| 0 <= j < i ==> cs[j].0 != e,
    ensures
        child_of(cs, e) == Some(cs[i].1),
    decreases cs.len(),
{
    if i < cs.len() - 1 {
        lemma_child_of_index(cs.drop_last(), e, i);
    } else {
        lemma_child_of_absent(cs.drop_last(), e);
    }
}

proof fn lemma_child_of_absent(cs: Seq<(u32, usize)>, e: u32)
    requires
        forall|j: int| 0 <= j < cs.len() ==> cs[j].0 != e,
    ensures
        child_of(cs, e) is None,
    decreases cs.len(),
{
    if cs.len() > 0 {
        lemma_child_of_absent(cs.drop_last(), e);
    }
}

proof fn lemma_child_of_member(cs: Seq<(u32, usize)>, e: u32)
    ensures
        child_of(cs, e) is Some ==> exists|j: int| 0 <= j < cs.len() && cs[j].1 == child_of(cs, e).unwrap() && cs[j].0 == e,
    decreases cs.len(),
{
    if cs.len() > 0 {
        let t = cs.drop_last();
        lemma_child_of_member(t, e);
        if child_of(t, e) is Some {
            let j = choose|j: int| 0 <= j < t.len() && t[j].1 == child_of(t, e).unwrap() && t[j].0 == e;
            assert(cs[j] == t[j]);
        } else if cs.last().0 == e {
            assert(cs[cs.len() - 1].1 == child_of(cs, e).unwrap());
        }
    }
}

fn find_child(cs: &Vec<(u32, usize)>, e: u32) -> (r: Option<usize>)
    ensures
        r == child_of(cs@, e),
{
    let n = cs.len();
    let mut i: usize = 0;
    while i < n
        invariant
            n == cs@.len(),
            i <= n,
            forall|j: int| 0 <= j < i ==> cs@[j].0 != e,
        decreases n - i,
    {
        if cs[i].0 == e {
            proof {
                lemma_child_of_index(cs@, e, i as int);
            }
            return Some(cs[i].1);
        }
        i = i + 1;
    }
    proof {
        lemma_child_of_absent(cs@, e);
    }
    None
}

fn text_starts_with(t: &str, p: &str) -> (r: bool)
    ensures
        r == starts_with_text(t@, p@),
{
    let tn = t.unicode_len();
    let pn = p.unicode_len();
    if pn > tn {
        return false;
    }
    let mut i: usize = 0;
    while i < pn
        invariant
            tn == t@.len(),
            pn == p@.len(),
            pn <= tn,
            i <= pn,
            forall|j: int| 0 <= j < i ==> t@[j] == p@[j],
        decreases pn - i,
    {
        if t.get_char(i) != p.get_char(i) {
            proof {
                assert(t@.subrange(0, pn as int)[i as int] != p@[i as int]);
            }
            return false;
        }
        i = i + 1;
    }
    assert(t@.subrange(0, pn as int) =~= p@);
    true
}

proof fn lemma_tokens_len(s: Seq<char>)
    ensures
        tokens(s).len() <= s.len(),
        s.len() > 0 && !is_whitespace(s.last()) ==> tokens(s).len() > 0,
    decreases s.len(),
{
    if s.len() > 0 {
        lemma_tokens_len(s.drop_last());
        if s.len() > 1 {
            assert(s.drop_last().last() == s[s.len() - 2]);
        }
    }
}

impl Trie {
    /// The node reached from the root along the edges of `toks`.
    pub closed spec fn node_at(&self, toks: Seq<Seq<char>>) -> Option<int>
        decreases toks.len(),
    {
        if toks.len() == 0 {
            Some(0)
        } else {
            match self.node_at(toks.drop_last()) {
                None => None,
                Some(n) => match id_of(self.string_interner.view(), toks.last()) {
                    None => None,
                    Some(e) => match child_of(self.nodes@[n].children@, e) {
                        None => None,
                        Some(c) => Some(c as int),
                    },
                },
            }
        }
    }

    /// The value stored under the token path `toks`.
    pub closed spec fn lookup(&self, toks: Seq<Seq<char>>) -> Option<u32> {
        match self.node_at(toks) {
            Some(n) => self.nodes@[n].value,
            None => None,
        }
    }

    /// The interned tokens, by id.
    pub closed spec fn tokens_seen(&self) -> Seq<Seq<char>> {
        self.string_interner.view()
    }

    /// What `get_completions` returns for the edges `cs` of a node: the
    /// tokens of those that start with `partial`, each with its child's value.
    pub closed spec fn matching_children(&self, cs: Seq<(u32, usize)>, partial: Seq<char>) -> Seq<(Seq<char>, Option<u32>)>
        decreases cs.len(),
    {
        if cs.len() == 0 {
            Seq::empty()
        } else {
            let r = self.matching_children(cs.drop_last(), partial);
            let t = self.string_interner.view()[cs.last().0 as int];
            if starts_with_text(t, partial) {
                r.push((t, self.nodes@[cs.last().1 as int].value))
            } else {
                r
            }
        }
    }

    /// The completions of the query `s`.
    pub closed spec fn completions(&self, s: Seq<char>) -> Seq<(Seq<char>, Option<u32>)> {
        let (exact, partial) = completion_query(s);
        match self.node_at(exact) {
            None => Seq::empty(),
            Some(n) => self.matching_children(self.nodes@[n].children@, partial),
        }
    }

    /// Every edge points at a node and is labelled by an interned id; there
    /// is a root; each node has one token path, which leads to it: the path
    /// of an edge's target is its source's path and the edge's token.
    pub closed spec fn wf(&self) -> bool {
        &&& self.nodes@.len() >= 1
        &&& self.string_interner.wf()
        &&& self.paths@.len() == self.nodes@.len()
        &&& self.paths@[0] == Seq::<Seq<char>>::empty()
        &&& forall|n: int, k: int| 0 <= n < self.nodes@.len() && 0 <= k < self.nodes@[n].children@.len()
            ==> (#[trigger] self.nodes@[n].children@[k]).1 < self.nodes@.len()
                && (self.nodes@[n].children@[k].0 as int) < self.string_interner.view().len()
                && self.paths@[self.nodes@[n].children@[k].1 as int]
                    == self.paths@[n].push(self.string_interner.view()[self.nodes@[n].children@[k].0 as int])
        &&& forall|n: int| 0 <= n < self.nodes@.len() ==> self.node_at(#[trigger] self.paths@[n]) == Some(n)
    }

    /// The node that a token path reaches has that path: different paths
    /// reach different nodes.
    proof fn lemma_node_at_path(&self, toks: Seq<Seq<char>>)
        requires
            self.wf(),
        ensures
            self.node_at(toks) is Some ==> self.paths@[self.node_at(toks).unwrap()] == toks,
        decreases toks.len(),
    {
        if toks.len() > 0 {
            let p = toks.drop_last();
            self.lemma_node_at_path(p);
            self.lemma_node_at_in_range(p);
            if let Some(n) = self.node_at(p) {
                if let Some(e) = id_of(self.string_interner.view(), toks.last()) {
                    let cs = self.nodes@[n].children@;
                    lemma_child_of_member(cs, e);
                    lemma_id_of_sound(self.string_interner.view(), toks.last());
                    if let Some(c) = child_of(cs, e) {
                        let j = choose|j: int| 0 <= j < cs.len() && cs[j].1 == c && cs[j].0 == e;
                        assert(self.nodes@[n].children@[j] == cs[j]);
                        assert(p.push(toks.last()) == toks);
                    }
                }
            }
        }
    }

    /// `new` keeps what `self` had: interned ids, nodes, and edges.
    closed spec fn extended_by(&self, new: &Trie) -> bool {
        &&& forall|t: Seq<char>| #[trigger] id_of(self.string_interner.view(), t) is Some
            ==> id_of(new.string_interner.view(), t) == id_of(self.string_interner.view(), t)
        &&& new.nodes@.len() >= self.nodes@.len()
        &&& forall|n: int, e: u32| 0 <= n < self.nodes@.len() && (#[trigger] child_of(self.nodes@[n].children@, e)) is Some
            ==> child_of(new.nodes@[n].children@, e) == child_of(self.nodes@[n].children@, e)
    }

    proof fn lemma_extended_by_trans(&self, mid: &Trie, new: &Trie)
        requires
            self.extended_by(mid),
            mid.extended_by(new),
        ensures
            self.extended_by(new),
    {
        assert forall|t: Seq<char>| #[trigger] id_of(self.string_interner.view(), t) is Some
            implies id_of(new.string_interner.view(), t) == id_of(self.string_interner.view(), t) by {
            assert(id_of(mid.string_interner.view(), t) is Some);
        }
        assert forall|n: int, e: u32| 0 <= n < self.nodes@.len() && (#[trigger] child_of(self.nodes@[n].children@, e)) is Some
            implies child_of(new.nodes@[n].children@, e) == child_of(self.nodes@[n].children@, e) by {
            assert(child_of(mid.nodes@[n].children@, e) is Some);
        }
    }

    proof fn lemma_node_at_in_range(&self, toks: Seq<Seq<char>>)
        requires
            self.wf(),
        ensures
            self.node_at(toks) is Some ==> 0 <= self.node_at(toks).unwrap() < self.nodes@.len(),
        decreases toks.len(),
    {
        if toks.len() > 0 {
            self.lemma_node_at_in_range(toks.drop_last());
            if let Some(n) = self.node_at(toks.drop_last()) {
                if let Some(e) = id_of(self.string_interner.view(), toks.last()) {
                    lemma_child_of_member(self.nodes@[n].children@, e);
                }
            }
        }
    }

    proof fn lemma_node_at_dead_end(&self, toks: Seq<Seq<char>>, i: int, j: int)
        requires
            0 <= i <= j <= toks.len(),
            self.node_at(toks.subrange(0, i)) is None,
        ensures
            self.node_at(toks.subrange(0, j)) is None,
        decreases j - i,
    {
        if i < j {
            self.lemma_node_at_dead_end(toks, i, j - 1);
            assert(toks.subrange(0, j).drop_last() == toks.subrange(0, j - 1));
        }
    }

    proof fn lemma_node_at_kept(&self, new: &Trie, toks: Seq<Seq<char>>)
        requires
            self.wf(),
            self.extended_by(new),
            self.node_at(toks) is Some,
        ensures
            new.node_at(toks) == self.node_at(toks),
        decreases toks.len(),
    {
        if toks.len() > 0 {
            let p = toks.drop_last();
            self.lemma_node_at_kept(new, p);
            self.lemma_node_at_in_range(p);
            let n = self.node_at(p).unwrap();
            let e = id_of(self.string_interner.view(), toks.last()).unwrap();
            assert(id_of(new.string_interner.view(), toks.last()) == Some(e));
            assert(child_of(self.nodes@[n].children@, e) is Some);
        }
    }

    pub fn new() -> (r: Trie)
        ensures
            r.wf(),
            r.tokens_seen() == Seq::<Seq<char>>::empty(),
            forall|toks: Seq<Seq<char>>| #[trigger] r.lookup(toks) is None,
    {
        let mut nodes: Vec<TrieNode> = Vec::new();
        nodes.push(TrieNode { value: None, children: Vec::new() });
        let r = Trie { string_interner: StringInterner::new(), nodes, paths: Ghost(Seq::<Seq<Seq<char>>>::empty().push(Seq::<Seq<char>>::empty())) };
        proof {
            assert(r.node_at(r.paths@[0]) == Some(0int));
            assert forall|toks: Seq<Seq<char>>| #[trigger] r.lookup(toks) is None by {
                r.lemma_node_at_root_only(toks);
            }
        }
        r
    }

    proof fn lemma_node_at_root_only(&self, toks: Seq<Seq<char>>)
        requires
            self.nodes@.len() == 1,
            self.nodes@[0].children@.len() == 0,
            self.nodes@[0].value is None,
        ensures
            self.lookup(toks) is None,
        decreases toks.len(),
    {
        if toks.len() > 0 {
            self.lemma_node_at_root_only(toks.drop_last());
            self.lemma_node_at_is_root(toks.drop_last());
        }
    }

    proof fn lemma_node_at_is_root(&self, toks: Seq<Seq<char>>)
        requires
            self.nodes@.len() == 1,
            self.nodes@[0].children@.len() == 0,
        ensures
            self.node_at(toks) is Some ==> self.node_at(toks) == Some(0int),
            toks.len() > 0 ==> self.node_at(toks) is None,
        decreases toks.len(),
    {
        if toks.len() > 0 {
            self.lemma_node_at_is_root(toks.drop_last());
        }
    }

    /// Stores `value` under the token path of `s` (its whitespace-separated
    /// tokens), replacing any value there; the empty path is the root's.
    pub fn add_string(&mut self, s: &str, value: u32)
        requires
            old(self).wf(),
            old(self).tokens_seen().len() + s@.len() < u32::MAX,
        ensures
            final(self).wf(),
            final(self).lookup(tokens(s@)) == Some(value),
            // Every other token path keeps its value, or its absence.
            forall|k: Seq<Seq<char>>| k != tokens(s@) ==> #[trigger] final(self).lookup(k) == old(self).lookup(k),
    {
        let ghost initial = *self;
        let toks = split_whitespace(s);
        let ghost tv = toks@.map_values(|x: String| x@);
        proof {
            lemma_tokens_len(s@);
        }
        let ghost start_len = self.string_interner.view().len();
        let mut current: usize = 0;
        let n = toks.len();
        let mut i: usize = 0;
        while i < n
            invariant
                n == toks@.len(),
                tv == toks@.map_values(|x: String| x@),
                tv == tokens(s@),
                n <= s@.len(),
                i <= n,
                self.wf(),
                self.string_interner.view().len() <= start_len + i,
                start_len + s@.len() < u32::MAX,
                current < self.nodes@.len(),
                self.node_at(tv.subrange(0, i as int)) == Some(current as int),
                initial.wf(),
                initial.extended_by(self),
                forall|m: int| 0 <= m < initial.nodes@.len() ==> #[trigger] self.nodes@[m].value == initial.nodes@[m].value,
                forall|m: int| initial.nodes@.len() <= m < self.nodes@.len() ==> (#[trigger] self.nodes@[m].value) is None,
                forall|m: int| 0 <= m < initial.nodes@.len() ==> #[trigger] self.paths@[m] == initial.paths@[m],
            decreases n - i,
        {
            let ghost before = *self;
            let id = self.string_interner.intern(toks[i].as_str());
            proof {
                assert(toks@[i as int]@ == tv[i as int]);
                assert forall|t: Seq<char>| #[trigger] id_of(before.string_interner.view(), t) is Some
                    implies id_of(self.string_interner.view(), t) == id_of(before.string_interner.view(), t) by {
                    if self.string_interner.view() != before.string_interner.view() {
                        lemma_id_of_push(before.string_interner.view(), t, tv[i as int]);
                    }
                }
                lemma_id_of_sound(self.string_interner.view(), tv[i as int]);
                assert(before.extended_by(self));
                before.lemma_node_at_kept(self, tv.subrange(0, i as int));
                initial.lemma_extended_by_trans(&before, self);
                assert forall|e: int| 0 <= e < before.string_interner.view().len()
                    implies self.string_interner.view()[e] == before.string_interner.view()[e] by {
                    if self.string_interner.view() != before.string_interner.view() {
                        assert(self.string_interner.view() == before.string_interner.view().push(tv[i as int]));
                    }
                }
                assert forall|m: int| 0 <= m < self.nodes@.len() implies self.node_at(#[trigger] self.paths@[m]) == Some(m) by {
                    before.lemma_node_at_kept(self, self.paths@[m]);
                }
                before.lemma_node_at_path(tv.subrange(0, i as int));
            }
            let next = match find_child(&self.nodes[current].children, id) {
                Some(c) => {
                    proof {
                        lemma_child_of_member(self.nodes@[current as int].children@, id);
                    }
                    c
                },
                None => {
                    let ghost mid = *self;
                    let new_idx = self.nodes.len();
                    self.nodes.push(TrieNode { value: None, children: Vec::new() });
                    self.nodes[current].children.push((id, new_idx));
                    self.paths = Ghost(self.paths@.push(tv.subrange(0, i + 1)));
                    proof {
                        let p = tv.subrange(0, i + 1);
                        assert(p.drop_last() == tv.subrange(0, i as int));
                        assert(p.last() == tv[i as int]);
                        assert(p == mid.paths@[current as int].push(self.string_interner.view()[id as int]));
                        assert(mid.nodes@[current as int].children@.push((id, new_idx))
                            == self.nodes@[current as int].children@);
                        assert(self.nodes@[current as int].children@.drop_last()
                            == mid.nodes@[current as int].children@);
                        assert forall|m: int, e: u32| 0 <= m < mid.nodes@.len()
                            && (#[trigger] child_of(mid.nodes@[m].children@, e)) is Some
                            implies child_of(self.nodes@[m].children@, e) == child_of(mid.nodes@[m].children@, e) by {
                            if m != current {
                                assert(self.nodes@[m] == mid.nodes@[m]);
                            }
                        }
                        assert(mid.extended_by(self));
                        mid.lemma_node_at_kept(self, tv.subrange(0, i as int));
                        initial.lemma_extended_by_trans(&mid, self);
                        assert forall|m: int| 0 <= m < initial.nodes@.len() implies #[trigger] self.nodes@[m].value == initial.nodes@[m].value by {
                            assert(self.nodes@[m].value == mid.nodes@[m].value);
                        }
                        assert forall|m: int| initial.nodes@.len() <= m < self.nodes@.len() implies (#[trigger] self.nodes@[m].value) is None by {
                            if m < mid.nodes@.len() {
                                assert(self.nodes@[m].value == mid.nodes@[m].value);
                            }
                        }
                        assert(child_of(self.nodes@[current as int].children@, id) == Some(new_idx));
                        assert(self.node_at(p) == Some(new_idx as int));
                        assert forall|m: int| 0 <= m < self.nodes@.len() implies self.node_at(#[trigger] self.paths@[m]) == Some(m) by {
                            if m < mid.nodes@.len() {
                                assert(self.paths@[m] == mid.paths@[m]);
                                mid.lemma_node_at_kept(self, mid.paths@[m]);
                            }
                        }
                        assert forall|m: int, k: int| 0 <= m < self.nodes@.len() && 0 <= k < self.nodes@[m].children@.len()
                            implies (#[trigger] self.nodes@[m].children@[k]).1 < self.nodes@.len()
                                && (self.nodes@[m].children@[k].0 as int) < self.string_interner.view().len() by {
                            if m == new_idx {
                            } else if m == current {
                                if k < mid.nodes@[m].children@.len() {
                                    assert(self.nodes@[m].children@[k] == mid.nodes@[m].children@[k]);
                                }
                            } else {
                                assert(self.nodes@[m] == mid.nodes@[m]);
                            }
                            if m != new_idx {
                                let c = self.nodes@[m].children@[k];
                                if !(m == current && k == mid.nodes@[m].children@.len()) {
                                    assert(mid.nodes@[m].children@[k] == c);
                                    assert(self.paths@[c.1 as int] == mid.paths@[c.1 as int]);
                                }
                            }
                        }
                    }
                    new_idx
                },
            };
            proof {
                let p = tv.subrange(0, i + 1);
                assert(p.drop_last() == tv.subrange(0, i as int));
                assert(p.last() == tv[i as int]);
            }
            current = next;
            i = i + 1;
        }
        assert(tv.subrange(0, n as int) == tv);
        let ghost before = *self;
        self.nodes[current].value = Some(value);
        proof {
            assert forall|m: int, e: u32| 0 <= m < before.nodes@.len()
                && (#[trigger] child_of(before.nodes@[m].children@, e)) is Some
                implies child_of(self.nodes@[m].children@, e) == child_of(before.nodes@[m].children@, e) by {
                if m != current {
                    assert(self.nodes@[m] == before.nodes@[m]);
                }
            }
            assert(before.extended_by(self));
            before.lemma_node_at_kept(self, tv);
            initial.lemma_extended_by_trans(&before, self);
            assert forall|m: int, k: int| 0 <= m < self.nodes@.len() && 0 <= k < self.nodes@[m].children@.len()
                implies (#[trigger] self.nodes@[m].children@[k]).1 < self.nodes@.len()
                    && (self.nodes@[m].children@[k].0 as int) < self.string_interner.view().len()
                    && self.paths@[self.nodes@[m].children@[k].1 as int]
                        == self.paths@[m].push(self.string_interner.view()[self.nodes@[m].children@[k].0 as int]) by {
                assert(self.nodes@[m].children@ == before.nodes@[m].children@);
            }
            assert forall|m: int| 0 <= m < self.nodes@.len() implies self.node_at(#[trigger] self.paths@[m]) == Some(m) by {
                before.lemma_node_at_kept(self, self.paths@[m]);
            }
            before.lemma_node_at_path(tv);
            assert forall|k: Seq<Seq<char>>| k != tokens(s@) implies #[trigger] self.lookup(k) == initial.lookup(k) by {
                self.lemma_node_at_path(k);
                self.lemma_node_at_in_range(k);
                initial.lemma_node_at_in_range(k);
                if let Some(m) = initial.node_at(k) {
                    initial.lemma_node_at_kept(self, k);
                    assert(self.nodes@[m].value == before.nodes@[m].value);
                } else if let Some(m) = self.node_at(k) {
                    if m < initial.nodes@.len() {
                        assert(initial.node_at(initial.paths@[m]) == Some(m));
                    } else {
                        assert(self.nodes@[m].value == before.nodes@[m].value);
                    }
                }
            }
        }
    }

    /// The value stored under the token path of `s`.
    pub fn get(&self, s: &str) -> (r: Option<u32>)
        requires
            self.wf(),
        ensures
            r == self.lookup(tokens(s@)),
    {
        let toks = split_whitespace(s);
        let ghost tv = toks@.map_values(|x: String| x@);
        match self.walk(&toks, toks.len()) {
            Some(n) => {
                assert(tv.subrange(0, toks@.len() as int) == tv);
                self.nodes[n].value
            },
            None => {
                assert(tv.subrange(0, toks@.len() as int) == tv);
                None
            },
        }
    }

    /// The node reached along the first `upto` tokens of `toks`.
    fn walk(&self, toks: &Vec<String>, upto: usize) -> (r: Option<usize>)
        requires
            self.wf(),
            upto <= toks@.len(),
        ensures
            match r {
                Some(n) => (n as int) < self.nodes@.len()
                    && self.node_at(toks@.map_values(|x: String| x@).subrange(0, upto as int)) == Some(n as int),
                None => self.node_at(toks@.map_values(|x: String| x@).subrange(0, upto as int)) is None,
            },
    {
        let ghost tv = toks@.map_values(|x: String| x@);
        let mut current: usize = 0;
        let mut i: usize = 0;
        while i < upto
            invariant
                upto <= toks@.len(),
                tv == toks@.map_values(|x: String| x@),
                i <= upto,
                self.wf(),
                current < self.nodes@.len(),
                self.node_at(tv.subrange(0, i as int)) == Some(current as int),
            decreases upto - i,
        {
            let ghost p = tv.subrange(0, i + 1);
            proof {
                assert(p.drop_last() == tv.subrange(0, i as int));
                assert(p.last() == toks@[i as int]@);
            }
            let id = match self.string_interner.get_interned(toks[i].as_str()) {
                Some(id) => id,
                None => {
                    proof {
                        self.lemma_node_at_dead_end(tv, i + 1, upto as int);
                    }
                    return None;
                },
            };
            current = match find_child(&self.nodes[current].children, id) {
                Some(c) => {
                    proof {
                        lemma_child_of_member(self.nodes@[current as int].children@, id);
                    }
                    c
                },
                None => {
                    proof {
                        self.lemma_node_at_dead_end(tv, i + 1, upto as int);
                    }
                    return None;
                },
            };
            i = i + 1;
        }
        Some(current)
    }

    /// The tokens that can follow the complete tokens of `s` and start with
    /// its partial last token, each with the value stored at it; after
    /// trailing white space, every next token. Edges keep insertion order.
    pub fn get_completions(&self, s: &str) -> (r: Vec<(String, Option<u32>)>)
        requires
            self.wf(),
        ensures
            r@.map_values(|p: (String, Option<u32>)| (p.0@, p.1)) == self.completions(s@),
    {
        let n = s.unicode_len();
        let ends_with_whitespace = n > 0 && crate::text::is_whitespace_char(s.get_char(n - 1));
        let toks = split_whitespace(s);
        let ghost tv = toks@.map_values(|x: String| x@);
        let tn = toks.len();
        let (exact_len, partial) = if ends_with_whitespace || tn == 0 {
            (tn, String::new())
        } else {
            (tn - 1, toks[tn - 1].clone())
        };
        proof {
            if !(ends_with_whitespace || tn == 0) {
                assert(tv.subrange(0, (tn - 1) as int) == tv.drop_last());
                assert(partial@ == toks@[tn - 1]@);
            } else {
                assert(tv.subrange(0, tn as int) == tv);
                assert(partial@ =~= Seq::<char>::empty());
            }
        }
        let mut out: Vec<(String, Option<u32>)> = Vec::new();
        let node = match self.walk(&toks, exact_len) {
            Some(node) => node,
            None => {
                assert(out@.map_values(|p: (String, Option<u32>)| (p.0@, p.1)) =~= Seq::<(Seq<char>, Option<u32>)>::empty());
                return out;
            },
        };
        let cs = &self.nodes[node].children;
        let cn = cs.len();
        let mut k: usize = 0;
        while k < cn
            invariant
                self.wf(),
                (node as int) < self.nodes@.len(),
                cs@ == self.nodes@[node as int].children@,
                cn == cs@.len(),
                k <= cn,
                out@.map_values(|p: (String, Option<u32>)| (p.0@, p.1)) == self.matching_children(cs@.subrange(0, k as int), partial@),
            decreases cn - k,
        {
            let (e, c) = cs[k];
            let ghost pre = cs@.subrange(0, k as int);
            proof {
                assert(cs@.subrange(0, k + 1).drop_last() == pre);
                assert(cs@[k as int] == self.nodes@[node as int].children@[k as int]);
            }
            let token = match self.string_interner.resolve(e) {
                Some(t) => t,
                None => {
                    proof {
                        assert(false);
                    }
                    return out;
                },
            };
            if text_starts_with(token, partial.as_str()) {
                let ghost before = out@.map_values(|p: (String, Option<u32>)| (p.0@, p.1));
                out.push((token.to_owned(), self.nodes[c].value));
                assert(out@.map_values(|p: (String, Option<u32>)| (p.0@, p.1))
                    =~= before.push((token@, self.nodes@[c as int].value)));
            }
            k = k + 1;
        }
        assert(cs@.subrange(0, cn as int) == cs@);
        out
    }
}

} // verus!
