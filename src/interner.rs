//! Interning strings as small integer ids.

use vstd::prelude::*;

verus! {

/// The id of the first entry of `v` equal to `s`, if any.
pub open spec fn id_of(v: Seq<Seq<char>>, s: Seq<char>) -> Option<u32>
    decreases v.len(),
{
    if v.len() == 0 {
        None
    } else {
        match id_of(v.drop_last(), s) {
            Some(i) => Some(i),
            None => if v.last() == s {
                Some((v.len() - 1) as u32)
            } else {
                None
            },
        }
    }
}

/// Assigns each distinct string an id, counting from 0 in order of first
/// appearance, and maps ids back to strings.
pub struct StringInterner {
    interned_value_to_string: Vec<String>,
}

pub proof fn lemma_id_of_index(v: Seq<Seq<char>>, s: Seq<char>, i: int)
    requires
        v.len() <= u32::MAX,
        0 <= i < v.len(),
        v[i] == s,
        forall|j: int| 0 <= j < i ==> v[j] != s,
    ensures
        id_of(v, s) == Some(i as u32),
    decreases v.len(),
{
    if i < v.len() - 1 {
        lemma_id_of_index(v.drop_last(), s, i);
    } else {
        lemma_id_of_absent(v.drop_last(), s);
    }
}

pub proof fn lemma_id_of_absent(v: Seq<Seq<char>>, s: Seq<char>)
    requires
        forall|j: int| 0 <= j < v.len() ==> v[j] != s,
    ensures
        id_of(v, s) is None,
    decreases v.len(),
{
    if v.len() > 0 {
        lemma_id_of_absent(v.drop_last(), s);
    }
}

pub proof fn lemma_id_of_sound(v: Seq<Seq<char>>, s: Seq<char>)
    requires
        v.len() <= u32::MAX + 1,
    ensures
        match id_of(v, s) {
            Some(i) => (i as int) < v.len() && v[i as int] == s,
            None => forall|j: int| 0 <= j < v.len() ==> v[j] != s,
        },
    decreases v.len(),
{
    if v.len() > 0 {
        let t = v.drop_last();
        lemma_id_of_sound(t, s);
        match id_of(t, s) {
            Some(i) => {
                assert(v[i as int] == t[i as int]);
            },
            None => {
                if v.last() != s {
                    assert forall|j: int| 0 <= j < v.len() implies v[j] != s by {
                        if j < t.len() {
                            assert(v[j] == t[j]);
                        }
                    }
                }
            },
        }
    }
}

/// Growing the table keeps every id it gave.
pub proof fn lemma_id_of_push(v: Seq<Seq<char>>, s: Seq<char>, t: Seq<char>)
    requires
        id_of(v, s) is Some,
    ensures
        id_of(v.push(t), s) == id_of(v, s),
{
    assert(v.push(t).drop_last() == v);
}

impl StringInterner {
    /// The interned strings, by id.
    pub closed spec fn view(&self) -> Seq<Seq<char>> {
        self.interned_value_to_string@.map_values(|s: String| s@)
    }

    /// No string has two ids, and every id fits in a `u32`.
    pub open spec fn wf(&self) -> bool {
        &&& self.view().len() <= u32::MAX
        &&& forall|i: int, j: int| 0 <= i < j < self.view().len() ==> self.view()[i] != self.view()[j]
    }

    pub fn new() -> (r: StringInterner)
        ensures
            r.wf(),
            r.view() == Seq::<Seq<char>>::empty(),
    {
        let r = StringInterner { interned_value_to_string: Vec::new() };
        assert(r.view() =~= Seq::<Seq<char>>::empty());
        r
    }

    /// How many distinct strings have been interned.
    pub fn len(&self) -> (r: usize)
        ensures
            r == self.view().len(),
    {
        self.interned_value_to_string.len()
    }

    /// The id of `s`: the one it already has, or the next one.
    pub fn intern(&mut self, s: &str) -> (r: u32)
        requires
            old(self).wf(),
            old(self).view().len() < u32::MAX,
        ensures
            final(self).wf(),
            match id_of(old(self).view(), s@) {
                Some(i) => r == i && final(self).view() == old(self).view(),
                None => r == old(self).view().len() && final(self).view() == old(self).view().push(s@),
            },
            id_of(final(self).view(), s@) == Some(r),
    {
        match self.get_interned(s) {
            Some(id) => {
                proof {
                    lemma_id_of_sound(self.view(), s@);
                }
                id
            },
            None => {
                let id = self.interned_value_to_string.len() as u32;
                let ghost before = self.view();
                proof {
                    lemma_id_of_sound(before, s@);
                }
                self.interned_value_to_string.push(s.to_owned());
                proof {
                    assert(self.view() =~= before.push(s@));
                    assert(self.view().drop_last() == before);
                }
                id
            },
        }
    }

    /// The id of `s`, if it was interned.
    pub fn get_interned(&self, s: &str) -> (r: Option<u32>)
        requires
            self.wf(),
        ensures
            r == id_of(self.view(), s@),
    {
        let wanted = s.to_owned();
        let n = self.interned_value_to_string.len();
        let mut i: usize = 0;
        while i < n
            invariant
                n == self.view().len(),
                self.wf(),
                i <= n,
                wanted@ == s@,
                forall|j: int| 0 <= j < i ==> self.view()[j] != s@,
            decreases n - i,
        {
            if self.interned_value_to_string[i] == wanted {
                proof {
                    lemma_id_of_index(self.view(), s@, i as int);
                }
                return Some(i as u32);
            }
            i = i + 1;
        }
        proof {
            lemma_id_of_absent(self.view(), s@);
        }
        None
    }

    /// The string with id `id`, if that id was given.
    pub fn resolve(&self, id: u32) -> (r: Option<&str>)
        ensures
            match r {
                Some(t) => (id as int) < self.view().len() && t@ == self.view()[id as int],
                None => id as int >= self.view().len(),
            },
    {
        if (id as usize) < self.interned_value_to_string.len() {
            Some(self.interned_value_to_string[id as usize].as_str())
        } else {
            None
        }
    }
}

} // verus!
