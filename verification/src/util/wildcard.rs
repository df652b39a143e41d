//! A character trie of online player names that completes a unique prefix
//! to the full name.
use vstd::prelude::*;
use crate::util::text::{chars_of, string_push};

verus! {

/// The outcome of a name lookup.
#[derive(Debug, Clone, Copy, PartialEq, Eq, Structural)]
pub enum ReturnValue {
    NoError,
    PlayerWithThisNameIsNotOnline,
    NameIsTooAmbiguous,
}

/// A trie node: the children by character and whether a name ends here.
#[derive(Debug)]
pub struct WildcardTreeNode {
    children: Vec<(char, WildcardTreeNode)>,
    breakpoint: bool,
}

impl WildcardTreeNode {
    /// No two children share a character.
    pub closed spec fn keys_distinct(self) -> bool {
        forall|i: int, j: int|
            0 <= i < j < self.children@.len() ==> self.children@[i].0 != self.children@[j].0
    }

    /// Keys are distinct here and below, and every node below this one ends
    /// a name or leads to one.
    pub closed spec fn wf(self) -> bool
        decreases self,
    {
        &&& self.keys_distinct()
        &&& forall|i: int|
            0 <= i < self.children@.len() ==> {
                let c = (#[trigger] self.children@[i]).1;
                &&& (c.breakpoint || c.children@.len() > 0)
                &&& c.wf()
            }
    }

    /// Whether the name `s` is stored below this node.
    pub closed spec fn has_name(self, s: Seq<char>) -> bool
        decreases s.len(),
    {
        if s.len() == 0 {
            self.breakpoint
        } else {
            exists|i: int|
                0 <= i < self.children@.len() && (#[trigger] self.children@[i]).0 == s[0]
                    && self.children@[i].1.has_name(s.drop_first())
        }
    }

    proof fn lemma_via_child(self, i: int, s: Seq<char>)
        requires
            self.keys_distinct(),
            0 <= i < self.children@.len(),
            s.len() > 0,
            self.children@[i].0 == s[0],
        ensures
            self.has_name(s) == self.children@[i].1.has_name(s.drop_first()),
    {
    }

    proof fn lemma_no_child(self, s: Seq<char>)
        requires
            s.len() > 0,
            forall|i: int| 0 <= i < self.children@.len() ==> self.children@[i].0 != s[0],
        ensures
            !self.has_name(s),
    {
    }

    /// A node below the root of a well-formed trie stores some name.
    proof fn lemma_nonempty(self) -> (t: Seq<char>)
        requires
            self.wf(),
            self.breakpoint || self.children@.len() > 0,
        ensures
            self.has_name(t),
        decreases self,
    {
        if self.breakpoint {
            Seq::empty()
        } else {
            let c = self.children@[0];
            assert(c.1.breakpoint || c.1.children@.len() > 0);
            let u = c.1.lemma_nonempty();
            let t = seq![c.0] + u;
            assert(t.drop_first() =~= u);
            assert(self.children@[0].0 == t[0]);
            t
        }
    }

    /// The names stored below this node.
    pub closed spec fn names(self) -> Set<Seq<char>> {
        Set::new(|s: Seq<char>| self.has_name(s))
    }

    /// An empty node that does or does not end a name.
    pub fn new(breakpoint: bool) -> (node: Self)
        ensures
            node.wf(),
            node@ == (if breakpoint { set![Seq::<char>::empty()] } else { Set::<Seq<char>>::empty() }),
    {
        let node = WildcardTreeNode { children: Vec::new(), breakpoint };
        proof {
            let expected = if breakpoint { set![Seq::<char>::empty()] } else { Set::<Seq<char>>::empty() };
            assert forall|s: Seq<char>| node.has_name(s) == expected.contains(s) by {
                if s.len() > 0 {
                    node.lemma_no_child(s);
                } else {
                    assert(s =~= Seq::<char>::empty());
                }
            }
            assert(node@ =~= expected);
        }
        node
    }

    fn find_child(&self, c: char) -> (index: Option<usize>)
        ensures
            match index {
                Some(i) => i < self.children@.len() && self.children@[i as int].0 == c,
                None => forall|i: int| 0 <= i < self.children@.len() ==> self.children@[i].0 != c,
            },
    {
        let mut i: usize = 0;
        while i < self.children.len()
            invariant
                i <= self.children@.len(),
                forall|j: int| 0 <= j < i ==> self.children@[j].0 != c,
            decreases self.children@.len() - i,
        {
            if self.children[i].0 == c {
                return Some(i);
            }
            i = i + 1;
        }
        None
    }
}

/// The names of `names` that extend `prefix`, with the prefix taken off.
pub open spec fn extensions(names: Set<Seq<char>>, prefix: Seq<char>) -> Set<Seq<char>> {
    Set::new(|t: Seq<char>| names.contains(prefix + t))
}

/// `u` is the only completion in `completions`, or there is none and `u` is empty.
pub open spec fn unique_completion(completions: Set<Seq<char>>, u: Seq<char>) -> bool {
    &&& forall|t: Seq<char>| completions.contains(t) ==> t == u
    &&& (completions.contains(u) || u.len() == 0)
}

/// Every completion extends `u`, and `u` is as long as that allows: either
/// `u` is itself a completion and another one extends it, or two completions
/// part ways right after `u`.
pub open spec fn ambiguous_at(completions: Set<Seq<char>>, u: Seq<char>) -> bool {
    &&& forall|t: Seq<char>| completions.contains(t) ==> u.is_prefix_of(t)
    &&& ((completions.contains(u) && exists|t: Seq<char>| completions.contains(t) && t != u)
        || exists|t1: Seq<char>, t2: Seq<char>|
        completions.contains(t1) && completions.contains(t2) && u.len() < t1.len() && u.len()
            < t2.len() && t1[u.len() as int] != t2[u.len() as int])
}

/// What a lookup of `query` among `names` answers: "not online" with an
/// empty string exactly when the query is not empty and no name extends
/// it; otherwise a string that extends the query by `u`, where "no error"
/// means `u` is the unique completion and "too ambiguous" means the
/// completions part ways right after `u`.
pub open spec fn lookup_result(names: Set<Seq<char>>, query: Seq<char>, rv: ReturnValue, out: Seq<char>) -> bool {
    let u = out.skip(query.len() as int);
    &&& (rv == ReturnValue::PlayerWithThisNameIsNotOnline) == (query.len() > 0 && extensions(
        names,
        query,
    ) == Set::<Seq<char>>::empty())
    &&& rv == ReturnValue::PlayerWithThisNameIsNotOnline ==> out == Seq::<char>::empty()
    &&& rv != ReturnValue::PlayerWithThisNameIsNotOnline ==> query.is_prefix_of(out)
    &&& rv == ReturnValue::NoError ==> unique_completion(extensions(names, query), u)
    &&& rv == ReturnValue::NameIsTooAmbiguous ==> ambiguous_at(extensions(names, query), u)
}

proof fn lemma_ambiguous_shortest(c: Set<Seq<char>>, u1: Seq<char>, u2: Seq<char>)
    requires
        ambiguous_at(c, u1),
        ambiguous_at(c, u2),
        u1.len() <= u2.len(),
    ensures
        u1 == u2,
{
    let t: Seq<char> = if c.contains(u1) {
        u1
    } else {
        let (t1, t2) = choose|t1: Seq<char>, t2: Seq<char>|
            c.contains(t1) && c.contains(t2) && u1.len() < t1.len() && u1.len() < t2.len()
                && t1[u1.len() as int] != t2[u1.len() as int];
        t1
    };
    assert(c.contains(t));
    assert(u1.is_prefix_of(t) && u2.is_prefix_of(t));
    if u1.len() < u2.len() {
        if c.contains(u1) {
            assert(u2.is_prefix_of(u1));
        } else {
            let (t1, t2) = choose|t1: Seq<char>, t2: Seq<char>|
                c.contains(t1) && c.contains(t2) && u1.len() < t1.len() && u1.len() < t2.len()
                    && t1[u1.len() as int] != t2[u1.len() as int];
            assert(u2.is_prefix_of(t1) && u2.is_prefix_of(t2));
            assert(t1[u1.len() as int] == u2[u1.len() as int]);
            assert(t2[u1.len() as int] == u2[u1.len() as int]);
        }
    }
    assert(u1 =~= u2);
}

/// A lookup's answer is a function of the stored names and the query: two
/// answers to the same lookup among the same names are equal.
pub proof fn law_lookup_determined(
    names: Set<Seq<char>>,
    query: Seq<char>,
    rv1: ReturnValue,
    out1: Seq<char>,
    rv2: ReturnValue,
    out2: Seq<char>,
)
    requires
        lookup_result(names, query, rv1, out1),
        lookup_result(names, query, rv2, out2),
    ensures
        rv1 == rv2,
        out1 == out2,
{
    let c = extensions(names, query);
    let u1 = out1.skip(query.len() as int);
    let u2 = out2.skip(query.len() as int);
    if rv1 == ReturnValue::NoError && rv2 == ReturnValue::NameIsTooAmbiguous {
        law_outcomes_exclusive(c, u1, u2);
    }
    if rv2 == ReturnValue::NoError && rv1 == ReturnValue::NameIsTooAmbiguous {
        law_outcomes_exclusive(c, u2, u1);
    }
    assert(rv1 == rv2);
    if rv1 != ReturnValue::PlayerWithThisNameIsNotOnline {
        if rv1 == ReturnValue::NoError {
            if exists|t: Seq<char>| c.contains(t) {
                let t = choose|t: Seq<char>| c.contains(t);
                assert(t == u1 && t == u2);
            } else {
                assert(!c.contains(u1) && !c.contains(u2));
                assert(u1 =~= u2);
            }
        } else if u1.len() <= u2.len() {
            lemma_ambiguous_shortest(c, u1, u2);
        } else {
            lemma_ambiguous_shortest(c, u2, u1);
        }
        assert(out1 =~= query + u1);
        assert(out2 =~= query + u2);
    }
}

/// Removing a freshly inserted name restores every lookup: where `name` was
/// not stored, a lookup after inserting and then removing it answers as it
/// did before.
pub proof fn law_remove_undoes_insert(
    names: Set<Seq<char>>,
    name: Seq<char>,
    query: Seq<char>,
    rv0: ReturnValue,
    out0: Seq<char>,
    rv1: ReturnValue,
    out1: Seq<char>,
)
    requires
        !names.contains(name),
        lookup_result(names, query, rv0, out0),
        lookup_result(names.insert(name).remove(name), query, rv1, out1),
    ensures
        rv0 == rv1,
        out0 == out1,
{
    assert(names.insert(name).remove(name) =~= names);
    law_lookup_determined(names, query, rv0, out0, rv1, out1);
}

/// No set of completions is both uniquely completed and ambiguous, so the
/// outcome of a lookup is determined by the stored names.
pub proof fn law_outcomes_exclusive(completions: Set<Seq<char>>, u1: Seq<char>, u2: Seq<char>)
    ensures
        !(unique_completion(completions, u1) && ambiguous_at(completions, u2)),
{
    if unique_completion(completions, u1) && ambiguous_at(completions, u2) {
        if completions.contains(u2) && exists|t: Seq<char>| completions.contains(t) && t != u2 {
            let t = choose|t: Seq<char>| completions.contains(t) && t != u2;
            assert(t == u1 && u2 == u1);
        } else {
            let (t1, t2) = choose|t1: Seq<char>, t2: Seq<char>|
                completions.contains(t1) && completions.contains(t2) && u2.len() < t1.len()
                    && u2.len() < t2.len() && t1[u2.len() as int] != t2[u2.len() as int];
            assert(t1 == u1 && t2 == u1);
        }
    }
}

impl WildcardTreeNode {
    proof fn lemma_empty_node(self, t: Seq<char>)
        requires
            !self.breakpoint,
            self.children@.len() == 0,
        ensures
            !self.has_name(t),
    {
    }

    /// With a single child and no name ending here, the names are those of
    /// the child behind its character.
    proof fn lemma_single_child(self, t: Seq<char>)
        requires
            !self.breakpoint,
            self.children@.len() == 1,
        ensures
            self.has_name(t) == (t.len() > 0 && t[0] == self.children@[0].0
                && self.children@[0].1.has_name(t.drop_first())),
    {
    }

    fn insert_chars(&mut self, chars: &Vec<char>, i: usize)
        requires
            old(self).wf(),
            i <= chars@.len(),
        ensures
            final(self).wf(),
            final(self).breakpoint || final(self).children@.len() > 0,
            forall|t: Seq<char>|
                final(self).has_name(t) == (old(self).has_name(t) || t == chars@.skip(i as int)),
        decreases chars@.len() - i,
    {
        if i == chars.len() {
            self.breakpoint = true;
            proof {
                assert forall|t: Seq<char>|
                    self.has_name(t) == (old(self).has_name(t) || t == chars@.skip(i as int)) by {
                    if t.len() == 0 {
                        assert(t =~= chars@.skip(i as int));
                    } else {
                        if exists|k: int|
                            0 <= k < old(self).children@.len() && (#[trigger] old(self).children@[k]).0
                                == t[0] {
                            let k = choose|k: int|
                                0 <= k < old(self).children@.len() && (#[trigger] old(self).children@[k]).0
                                    == t[0];
                            old(self).lemma_via_child(k, t);
                            self.lemma_via_child(k, t);
                        }
                    }
                }
            }
            return;
        }
        let c = chars[i];
        let ghost rest = chars@.skip(i as int);
        proof {
            assert(rest.drop_first() =~= chars@.skip(i + 1));
            assert(rest[0] == c);
        }
        match self.find_child(c) {
            Some(idx) => {
                let ghost old_children = self.children@;
                let mut entry = self.children.remove(idx);
                proof {
                    assert(entry == old_children[idx as int]);
                    assert(entry.1.wf());
                }
                entry.1.insert_chars(chars, i + 1);
                let ghost new_entry = entry;
                self.children.insert(idx, entry);
                proof {
                    assert(self.children@ =~= old_children.update(idx as int, new_entry));
                    assert forall|t: Seq<char>|
                        self.has_name(t) == (old(self).has_name(t) || t == rest) by {
                        if t.len() > 0 {
                            if t[0] == c {
                                old(self).lemma_via_child(idx as int, t);
                                self.lemma_via_child(idx as int, t);
                                if t.drop_first() == chars@.skip(i + 1) {
                                    assert(t =~= seq![c] + t.drop_first());
                                    assert(rest =~= seq![c] + chars@.skip(i + 1));
                                }
                            } else {
                                assert(t != rest);
                                if exists|k: int|
                                    0 <= k < old_children.len() && (#[trigger] old_children[k]).0
                                        == t[0] {
                                    let k = choose|k: int|
                                        0 <= k < old_children.len() && (#[trigger] old_children[k]).0
                                            == t[0];
                                    old(self).lemma_via_child(k, t);
                                    self.lemma_via_child(k, t);
                                } else {
                                    old(self).lemma_no_child(t);
                                    self.lemma_no_child(t);
                                }
                            }
                        } else {
                            assert(t != rest);
                        }
                    }
                }
            },
            None => {
                let mut child = WildcardTreeNode::new(false);
                let ghost fresh = child;
                child.insert_chars(chars, i + 1);
                let ghost old_children = self.children@;
                let ghost new_child = child;
                self.children.push((c, child));
                proof {
                    assert(self.children@ =~= old_children.push((c, new_child)));
                    let n = old_children.len() as int;
                    assert forall|t: Seq<char>|
                        self.has_name(t) == (old(self).has_name(t) || t == rest) by {
                        if t.len() > 0 {
                            if t[0] == c {
                                old(self).lemma_no_child(t);
                                self.lemma_via_child(n, t);
                                assert(!fresh@.contains(t.drop_first()));
                                if t.drop_first() == chars@.skip(i + 1) {
                                    assert(t =~= seq![c] + t.drop_first());
                                    assert(rest =~= seq![c] + chars@.skip(i + 1));
                                }
                                if t == rest {
                                    assert(t.drop_first() =~= chars@.skip(i + 1));
                                }
                            } else {
                                assert(t != rest);
                                if exists|k: int|
                                    0 <= k < old_children.len() && (#[trigger] old_children[k]).0
                                        == t[0] {
                                    let k = choose|k: int|
                                        0 <= k < old_children.len() && (#[trigger] old_children[k]).0
                                            == t[0];
                                    old(self).lemma_via_child(k, t);
                                    self.lemma_via_child(k, t);
                                } else {
                                    old(self).lemma_no_child(t);
                                    self.lemma_no_child(t);
                                }
                            }
                        } else {
                            assert(t != rest);
                        }
                    }
                }
            },
        }
    }

    fn remove_internal(&mut self, chars: &Vec<char>, index: usize) -> (prune: bool)
        requires
            old(self).wf(),
            index <= chars@.len(),
        ensures
            final(self).wf(),
            forall|t: Seq<char>|
                final(self).has_name(t) == (old(self).has_name(t) && t != chars@.skip(
                    index as int,
                )),
            prune ==> !final(self).breakpoint && final(self).children@.len() == 0,
            !prune && (old(self).breakpoint || old(self).children@.len() > 0) ==> (
            final(self).breakpoint || final(self).children@.len() > 0),
        decreases chars@.len() - index,
    {
        let ghost rest = chars@.skip(index as int);
        if index == chars.len() {
            self.breakpoint = false;
            proof {
                assert forall|t: Seq<char>|
                    self.has_name(t) == (old(self).has_name(t) && t != rest) by {
                    if t.len() == 0 {
                        assert(t =~= rest);
                    } else {
                        assert(t != rest);
                        if exists|k: int|
                            0 <= k < old(self).children@.len() && (#[trigger] old(self).children@[k]).0
                                == t[0] {
                            let k = choose|k: int|
                                0 <= k < old(self).children@.len() && (#[trigger] old(self).children@[k]).0
                                    == t[0];
                            old(self).lemma_via_child(k, t);
                            self.lemma_via_child(k, t);
                        }
                    }
                }
            }
        } else {
            let c = chars[index];
            proof {
                assert(rest.drop_first() =~= chars@.skip(index + 1));
                assert(rest[0] == c);
            }
            match self.find_child(c) {
                None => {
                    proof {
                        assert forall|t: Seq<char>|
                            self.has_name(t) == (old(self).has_name(t) && t != rest) by {
                            if t == rest {
                                self.lemma_no_child(t);
                            }
                        }
                    }
                    return false;
                },
                Some(idx) => {
                    let ghost old_children = self.children@;
                    let mut entry = self.children.remove(idx);
                    proof {
                        assert(entry == old_children[idx as int]);
                        assert(self.children@ =~= old_children.remove(idx as int));
                    }
                    let ghost before_entry = entry;
                    let should_remove = entry.1.remove_internal(chars, index + 1);
                    let ghost new_entry = entry;
                    if !should_remove {
                        self.children.insert(idx, entry);
                        proof {
                            assert(self.children@ =~= old_children.update(idx as int, new_entry));
                        }
                    }
                    proof {
                        assert forall|t: Seq<char>|
                            self.has_name(t) == (old(self).has_name(t) && t != rest) by {
                            if t.len() > 0 {
                                if t[0] == c {
                                    old(self).lemma_via_child(idx as int, t);
                                    if !should_remove {
                                        self.lemma_via_child(idx as int, t);
                                    } else {
                                        self.lemma_no_child(t);
                                        new_entry.1.lemma_empty_node(t.drop_first());
                                    }
                                    if t.drop_first() == chars@.skip(index + 1) {
                                        assert(t =~= seq![c] + t.drop_first());
                                        assert(rest =~= seq![c] + chars@.skip(index + 1));
                                    }
                                    if t == rest {
                                        assert(t.drop_first() =~= chars@.skip(index + 1));
                                    }
                                } else {
                                    assert(t != rest);
                                    if exists|k: int|
                                        0 <= k < old_children.len()
                                            && (#[trigger] old_children[k]).0 == t[0] {
                                        let k = choose|k: int|
                                            0 <= k < old_children.len()
                                                && (#[trigger] old_children[k]).0 == t[0];
                                        old(self).lemma_via_child(k, t);
                                        if !should_remove {
                                            self.lemma_via_child(k, t);
                                        } else {
                                            assert(k != idx);
                                            if k < idx {
                                                assert(self.children@[k] == old_children[k]);
                                                self.lemma_via_child(k, t);
                                            } else {
                                                assert(self.children@[k - 1] == old_children[k]);
                                                self.lemma_via_child(k - 1, t);
                                            }
                                        }
                                    } else {
                                        old(self).lemma_no_child(t);
                                        self.lemma_no_child(t);
                                    }
                                }
                            } else {
                                assert(t != rest);
                            }
                        }
                    }
                },
            }
        }
        self.children.len() == 0 && !self.breakpoint
    }

    /// Forgets the name `value`, pruning the nodes that no longer lead to a name.
    pub fn remove(&mut self, value: &str)
        requires
            old(self).wf(),
        ensures
            final(self).wf(),
            final(self)@ == old(self)@.remove(value@),
    {
        let chars = chars_of(value);
        self.remove_internal(&chars, 0);
        proof {
            assert(chars@.skip(0) =~= value@);
            assert(self@ =~= old(self)@.remove(value@));
        }
    }

    fn complete(&self, result: &mut String) -> (rv: ReturnValue)
        requires
            self.wf(),
        ensures
            old(result)@.is_prefix_of(final(result)@),
            rv != ReturnValue::PlayerWithThisNameIsNotOnline,
            rv == ReturnValue::NoError ==> unique_completion(
                self.names(),
                final(result)@.skip(old(result)@.len() as int),
            ),
            rv == ReturnValue::NameIsTooAmbiguous ==> ambiguous_at(
                self.names(),
                final(result)@.skip(old(result)@.len() as int),
            ),
        decreases self,
    {
        let ghost u0 = old(result)@;
        proof {
            assert(u0.skip(u0.len() as int) =~= Seq::<char>::empty());
        }
        let size = self.children.len();
        if size == 0 {
            proof {
                assert forall|t: Seq<char>| self.names().contains(t) implies t == Seq::<char>::empty() by {
                    if t.len() > 0 {
                        self.lemma_no_child(t);
                    } else {
                        assert(t =~= Seq::<char>::empty());
                    }
                }
            }
            return ReturnValue::NoError;
        }
        if size > 1 || self.breakpoint {
            proof {
                let e = Seq::<char>::empty();
                assert forall|t: Seq<char>| self.names().contains(t) implies e.is_prefix_of(t) by {}
                if self.breakpoint {
                    let c = self.children@[0];
                    let u = c.1.lemma_nonempty();
                    let t = seq![c.0] + u;
                    assert(t.drop_first() =~= u);
                    self.lemma_via_child(0, t);
                    assert(self.names().contains(t));
                    assert(self.names().contains(e));
                    assert(t != e);
                } else {
                    let c0 = self.children@[0];
                    let c1 = self.children@[1];
                    let u0 = c0.1.lemma_nonempty();
                    let u1 = c1.1.lemma_nonempty();
                    let t0 = seq![c0.0] + u0;
                    let t1 = seq![c1.0] + u1;
                    assert(t0.drop_first() =~= u0);
                    assert(t1.drop_first() =~= u1);
                    self.lemma_via_child(0, t0);
                    self.lemma_via_child(1, t1);
                    assert(self.names().contains(t0));
                    assert(self.names().contains(t1));
                    assert(t0[0] != t1[0]);
                }
            }
            return ReturnValue::NameIsTooAmbiguous;
        }
        let c = self.children[0].0;
        string_push(result, c);
        let ghost mid = result@;
        let child = &self.children[0].1;
        let rv = child.complete(result);
        proof {
            let u = result@.skip(u0.len() as int);
            let v = result@.skip(mid.len() as int);
            assert(mid == u0.push(c));
            assert(mid =~= result@.subrange(0, mid.len() as int));
            assert(mid[u0.len() as int] == c);
            assert(result@[u0.len() as int] == c);
            assert(u =~= seq![c] + v);
            assert(u.drop_first() =~= v);
            assert(u0.is_prefix_of(result@)) by {
                assert(result@.subrange(0, u0.len() as int) =~= mid.subrange(0, u0.len() as int));
            }
            assert forall|t: Seq<char>| self.names().contains(t) <==> (t.len() > 0 && t[0] == c
                && child.names().contains(t.drop_first())) by {
                self.lemma_single_child(t);
            }
            if rv == ReturnValue::NoError {
                assert forall|t: Seq<char>| self.names().contains(t) implies t == u by {
                    assert(t.drop_first() == v);
                    assert(t =~= seq![c] + t.drop_first());
                }
                if child.names().contains(v) {
                    assert(self.names().contains(u));
                } else {
                    assert(v.len() == 0);
                    let w = child.lemma_nonempty();
                    assert(child.names().contains(w));
                    assert(w == v);
                }
            } else {
                assert forall|t: Seq<char>| self.names().contains(t) implies u.is_prefix_of(t) by {
                    let d = t.drop_first();
                    assert(v.is_prefix_of(d));
                    assert(t =~= seq![c] + d);
                    assert(t.subrange(0, u.len() as int) =~= seq![c] + d.subrange(0, v.len() as int));
                }
                if child.names().contains(v) && exists|t: Seq<char>| child.names().contains(t) && t != v {
                    let t = choose|t: Seq<char>| child.names().contains(t) && t != v;
                    let tt = seq![c] + t;
                    assert(tt.drop_first() =~= t);
                    assert(self.names().contains(tt));
                    assert(self.names().contains(u));
                    assert(tt != u) by {
                        if tt == u {
                            assert(tt.drop_first() == u.drop_first());
                        }
                    }
                } else {
                    let (t1, t2) = choose|t1: Seq<char>, t2: Seq<char>|
                        child.names().contains(t1) && child.names().contains(t2) && v.len()
                            < t1.len() && v.len() < t2.len() && t1[v.len() as int] != t2[v.len() as int];
                    let s1 = seq![c] + t1;
                    let s2 = seq![c] + t2;
                    assert(s1.drop_first() =~= t1);
                    assert(s2.drop_first() =~= t2);
                    assert(self.names().contains(s1));
                    assert(self.names().contains(s2));
                    assert(s1[u.len() as int] == t1[v.len() as int]);
                    assert(s2[u.len() as int] == t2[v.len() as int]);
                }
            }
        }
        rv
    }

    /// Looks up the names that start with `query`: none (and `query` not
    /// empty) gives "not online" and an empty string; otherwise the result
    /// extends `query` as far as the stored names agree, and the outcome is
    /// "no error" when a single name (or, for an empty query, none) remains,
    /// "too ambiguous" otherwise.
    pub fn find_one(&self, query: &str) -> (out: (ReturnValue, String))
        requires
            self.wf(),
        ensures
            lookup_result(self@, query@, out.0, out.1@),
    {
        let q = chars_of(query);
        let mut current = self;
        let mut i: usize = 0;
        while i < q.len()
            invariant
                i <= q@.len(),
                q@ == query@,
                current.wf(),
                i > 0 ==> (current.breakpoint || current.children@.len() > 0),
                forall|t: Seq<char>| #[trigger]
                    self.has_name(q@.take(i as int) + t) == current.has_name(t),
            decreases q@.len() - i,
        {
            match current.find_child(q[i]) {
                None => {
                    proof {
                        assert forall|t: Seq<char>| !#[trigger] extensions(self@, query@).contains(t) by {
                            let rest = q@.skip(i as int) + t;
                            assert(q@ + t =~= q@.take(i as int) + rest);
                            current.lemma_no_child(rest);
                        }
                        assert(extensions(self@, query@) =~= Set::<Seq<char>>::empty());
                    }
                    return (ReturnValue::PlayerWithThisNameIsNotOnline, String::new());
                },
                Some(j) => {
                    let ghost prev = current;
                    current = &current.children[j].1;
                    proof {
                        assert forall|t: Seq<char>|
                            #[trigger] self.has_name(q@.take(i + 1) + t) == current.has_name(t) by {
                            let s = seq![q@[i as int]] + t;
                            assert(q@.take(i + 1) + t =~= q@.take(i as int) + s);
                            assert(s.drop_first() =~= t);
                            prev.lemma_via_child(j as int, s);
                        }
                    }
                },
            }
            i = i + 1;
        }
        proof {
            assert(q@.take(q@.len() as int) =~= q@);
            assert forall|t: Seq<char>|
                extensions(self@, query@).contains(t) == current.names().contains(t) by {
                assert(self.has_name(q@.take(q@.len() as int) + t) == current.has_name(t));
            }
            assert(extensions(self@, query@) =~= current.names());
            if query@.len() > 0 {
                let w = current.lemma_nonempty();
                assert(extensions(self@, query@).contains(w));
            }
        }
        let mut result = query.to_owned();
        let rv = current.complete(&mut result);
        (rv, result)
    }

    /// Stores the name `value`; the empty name is ignored.
    pub fn insert(&mut self, value: &str)
        requires
            old(self).wf(),
        ensures
            final(self).wf(),
            value@.len() == 0 ==> final(self)@ == old(self)@,
            value@.len() > 0 ==> final(self)@ == old(self)@.insert(value@),
    {
        if value.is_empty() {
            return;
        }
        let chars = chars_of(value);
        self.insert_chars(&chars, 0);
        proof {
            assert(chars@.skip(0) =~= value@);
            assert(self@ =~= old(self)@.insert(value@));
        }
    }
}

impl Default for WildcardTreeNode {
    fn default() -> (node: Self)
        ensures
            node.wf(),
            node@ == Set::<Seq<char>>::empty(),
    {
        Self::new(false)
    }
}

/// A stored name is always found again: a non-empty name that has been
/// inserted has at least one completion (itself), so a lookup of it is never
/// answered with "not online".
pub proof fn law_inserted_name_is_found(names: Set<Seq<char>>, name: Seq<char>)
    ensures
        extensions(names.insert(name), name).contains(Seq::<char>::empty()),
{
    assert(name + Seq::<char>::empty() =~= name);
}

/// When exactly one stored name extends the query, that name is the unique
/// completion, and the lookup cannot be judged ambiguous.
pub proof fn law_unique_prefix_completes(names: Set<Seq<char>>, query: Seq<char>, name: Seq<char>, u: Seq<char>)
    requires
        names.contains(name),
        query.is_prefix_of(name),
        forall|m: Seq<char>| names.contains(m) && query.is_prefix_of(m) ==> m == name,
    ensures
        unique_completion(extensions(names, query), name.skip(query.len() as int)),
        !ambiguous_at(extensions(names, query), u),
{
    let e = extensions(names, query);
    let rest = name.skip(query.len() as int);
    assert(query + rest =~= name);
    assert forall|t: Seq<char>| e.contains(t) implies t == rest by {
        let m = query + t;
        assert(m.subrange(0, query.len() as int) =~= query);
        assert(m == name);
        assert(t =~= m.skip(query.len() as int));
    }
    law_outcomes_exclusive(e, rest, u);
}

impl View for WildcardTreeNode {
    type V = Set<Seq<char>>;

    closed spec fn view(&self) -> Set<Seq<char>> {
        self.names()
    }
}

} // verus!
