//! Model of the live document tree that the runtime renders into.
//!
//! The real document tree is an external, mutable structure owned by the
//! host environment; the runtime only ever reads and writes the parts of it
//! that the reconciler touches.  This module holds those parts as plain
//! values: an element carries its tag, its two intrinsic, user-mutable
//! fields (`checked` and `value`), the remaining named properties, the
//! names of the events it currently listens for, and its children.

use vstd::prelude::*;

use crate::property::Value;

verus! {

/// A node of the live document tree: an element or a text leaf.
pub enum LiveNode {
    Element(LiveElement),
    Text(String),
}

/// A live element.
///
/// `checked` and `value` exist on every element and may be changed by the
/// user between renders (a click toggles `checked`, typing rewrites
/// `value`); every other property lives in `props` and is only ever
/// written by the reconciler.
pub struct LiveElement {
    pub tag: String,
    pub checked: bool,
    pub value: String,
    pub props: Vec<(String, Value)>,
    pub listeners: Vec<String>,
    pub children: Vec<LiveNode>,
}

/// The value stored in an association list under `name`, if any.
pub open spec fn live_find(entries: Seq<(String, Value)>, name: Seq<char>) -> Option<Value>
    decreases entries.len(),
{
    if entries.len() == 0 {
        None
    } else if entries[0].0@ == name {
        Some(entries[0].1)
    } else {
        live_find(entries.skip(1), name)
    }
}

/// Property names stored in `props` are pairwise distinct.
pub open spec fn names_unique(entries: Seq<(String, Value)>) -> bool {
    forall|i: int, j: int|
        0 <= i < j < entries.len() ==> entries[i].0@ != entries[j].0@
}

/// Well-formed stored properties: unique names, and neither of the two
/// intrinsic names, which live in their own fields.
pub open spec fn props_wf(entries: Seq<(String, Value)>) -> bool {
    &&& names_unique(entries)
    &&& forall|i: int|
        0 <= i < entries.len() ==> entries[i].0@ != "checked"@ && entries[i].0@ != "value"@
}

/// Looking a name up after appending an entry: an earlier entry still wins;
/// otherwise the new entry is found under its own name.
pub proof fn lemma_find_push(entries: Seq<(String, Value)>, p: (String, Value), m: Seq<char>)
    ensures
        live_find(entries.push(p), m) == (if live_find(entries, m) is Some {
            live_find(entries, m)
        } else if m == p.0@ {
            Some(p.1)
        } else {
            None
        }),
    decreases entries.len(),
{
    if entries.len() == 0 {
        assert(entries.push(p)[0] == p);
        assert(entries.push(p).skip(1) =~= Seq::<(String, Value)>::empty());
        assert(live_find(Seq::<(String, Value)>::empty(), m) is None);
    } else {
        assert(entries.push(p)[0] == entries[0]);
        assert(entries.push(p).skip(1) =~= entries.skip(1).push(p));
        lemma_find_push(entries.skip(1), p, m);
    }
}

/// Looking a name up after replacing the entry at `i` by one with the same
/// name: that name now maps to the new value, every other name is unmoved.
pub proof fn lemma_find_update(entries: Seq<(String, Value)>, i: int, p: (String, Value), m: Seq<char>)
    requires
        0 <= i < entries.len(),
        names_unique(entries),
        entries[i].0@ == p.0@,
    ensures
        live_find(entries.update(i, p), m) == (if m == p.0@ {
            Some(p.1)
        } else {
            live_find(entries, m)
        }),
    decreases entries.len(),
{
    let updated = entries.update(i, p);
    if i == 0 {
        assert(updated.skip(1) =~= entries.skip(1));
        if m != p.0@ {
        }
    } else {
        assert(updated.skip(1) =~= entries.skip(1).update(i - 1, p));
        assert(names_unique(entries.skip(1))) by {
            assert forall|a: int, b: int|
                0 <= a < b < entries.skip(1).len() implies entries.skip(1)[a].0@ != entries.skip(
                1,
            )[b].0@ by {
                assert(entries.skip(1)[a] == entries[a + 1]);
                assert(entries.skip(1)[b] == entries[b + 1]);
            }
        }
        lemma_find_update(entries.skip(1), i - 1, p, m);
        assert(entries[0].0@ != p.0@);
    }
}

/// Looking a name up after removing the entry at `i`: under unique names
/// that name is gone, every other name is unmoved.
pub proof fn lemma_find_remove(entries: Seq<(String, Value)>, i: int, m: Seq<char>)
    requires
        0 <= i < entries.len(),
        names_unique(entries),
    ensures
        live_find(entries.remove(i), m) == (if m == entries[i].0@ {
            None
        } else {
            live_find(entries, m)
        }),
    decreases entries.len(),
{
    let shrunk = entries.remove(i);
    if i == 0 {
        assert(shrunk =~= entries.skip(1));
        if m == entries[0].0@ {
            assert forall|j: int| 0 <= j < entries.skip(1).len() implies entries.skip(1)[j].0@ != m by {
                assert(entries.skip(1)[j] == entries[j + 1]);
            }
            lemma_find_absent(entries.skip(1), m);
        }
    } else {
        assert(shrunk.skip(1) =~= entries.skip(1).remove(i - 1));
        assert(names_unique(entries.skip(1))) by {
            assert forall|a: int, b: int|
                0 <= a < b < entries.skip(1).len() implies entries.skip(1)[a].0@ != entries.skip(
                1,
            )[b].0@ by {
                assert(entries.skip(1)[a] == entries[a + 1]);
                assert(entries.skip(1)[b] == entries[b + 1]);
            }
        }
        lemma_find_remove(entries.skip(1), i - 1, m);
    }
}

/// A name that no entry carries is not found.
pub proof fn lemma_find_absent(entries: Seq<(String, Value)>, m: Seq<char>)
    requires
        forall|j: int| 0 <= j < entries.len() ==> (#[trigger] entries[j]).0@ != m,
    ensures
        live_find(entries, m) is None,
    decreases entries.len(),
{
    if entries.len() > 0 {
        assert forall|j: int| 0 <= j < entries.skip(1).len() implies (#[trigger] entries.skip(1)[j]).0@
            != m by {
            assert(entries.skip(1)[j] == entries[j + 1]);
        }
        lemma_find_absent(entries.skip(1), m);
    }
}

/// Well-formed live tree.
pub open spec fn live_wf(node: LiveNode) -> bool
    decreases node,
{
    match node {
        LiveNode::Text(_) => true,
        LiveNode::Element(e) => {
            &&& props_wf(e.props@)
            &&& forall|i: int| 0 <= i < e.children@.len() ==> live_wf(#[trigger] e.children@[i])
        },
    }
}

impl LiveElement {
    /// Write a stored property, overwriting an entry of the same name.
    #[verifier::loop_isolation(false)]
    pub fn set_prop(&mut self, name: &String, value: Value)
        requires
            props_wf(old(self).props@),
            name@ != "checked"@,
            name@ != "value"@,
        ensures
            props_wf(final (self).props@),
            live_find(final (self).props@, name@) == Some(value),
            forall|m: Seq<char>|
                m != name@ ==> live_find(final (self).props@, m) == live_find(
                    old(self).props@,
                    m,
                ),
            final (self).tag == old(self).tag,
            final (self).checked == old(self).checked,
            final (self).value == old(self).value,
            final (self).listeners == old(self).listeners,
            final (self).children == old(self).children,
    {
        let ghost entries = self.props@;
        let mut i: usize = 0;
        while i < self.props.len()
            invariant
                self == old(self),
                entries == self.props@,
                i <= entries.len(),
                forall|j: int| 0 <= j < i ==> (#[trigger] entries[j]).0@ != name@,
            decreases entries.len() - i,
        {
            if self.props[i].0 == *name {
                let p = (self.props[i].0.clone(), value);
                self.props.set(i, p);
                proof {
                    lemma_find_update_all(entries, i as int, (self.props@[i as int]));
                    assert forall|a: int, b: int|
                        0 <= a < b < self.props@.len() implies self.props@[a].0@
                        != self.props@[b].0@ by {
                        assert(entries[a].0@ != entries[b].0@);
                    }
                }
                return ;
            }
            i += 1;
        }
        self.props.push((name.clone(), value));
        proof {
            lemma_find_push_all(entries, self.props@[entries.len() as int]);
            lemma_find_absent(entries, name@);
            assert forall|a: int, b: int|
                0 <= a < b < self.props@.len() implies self.props@[a].0@ != self.props@[b].0@ by {
                if b < entries.len() {
                    assert(entries[a].0@ != entries[b].0@);
                } else {
                    assert(entries[a].0@ != name@);
                }
            }
        }
    }

    /// Clear a stored property; the two intrinsic names fall back to their
    /// defaults instead of disappearing.
    #[verifier::loop_isolation(false)]
    pub fn remove_prop(&mut self, name: &String)
        requires
            props_wf(old(self).props@),
        ensures
            props_wf(final (self).props@),
            name@ == "checked"@ ==> {
                &&& final (self).checked == false
                &&& final (self).value == old(self).value
                &&& final (self).props == old(self).props
                &&& final (self).tag == old(self).tag
                &&& final (self).listeners == old(self).listeners
                &&& final (self).children == old(self).children
            },
            name@ == "value"@ ==> {
                &&& final (self).value@ == Seq::<char>::empty()
                &&& final (self).checked == old(self).checked
                &&& final (self).props == old(self).props
                &&& final (self).tag == old(self).tag
                &&& final (self).listeners == old(self).listeners
                &&& final (self).children == old(self).children
            },
            name@ != "checked"@ && name@ != "value"@ ==> {
                &&& live_find(final (self).props@, name@) is None
                &&& forall|m: Seq<char>|
                    m != name@ ==> live_find(final (self).props@, m) == live_find(
                        old(self).props@,
                        m,
                    )
                &&& final (self).tag == old(self).tag
                &&& final (self).checked == old(self).checked
                &&& final (self).value == old(self).value
                &&& final (self).listeners == old(self).listeners
                &&& final (self).children == old(self).children
            },
    {
        proof {
            crate::property::lemma_intrinsic_names_distinct();
        }
        if *name == crate::property::checked_name() {
            self.checked = false;
            return ;
        }
        if *name == crate::property::value_name() {
            self.value = String::new();
            return ;
        }
        proof {
            assert(name@ != "checked"@ && name@ != "value"@);
        }
        let ghost entries = self.props@;
        let mut i: usize = 0;
        while i < self.props.len()
            invariant
                self == old(self),
                entries == self.props@,
                i <= entries.len(),
                forall|j: int| 0 <= j < i ==> (#[trigger] entries[j]).0@ != name@,
            decreases entries.len() - i,
        {
            if self.props[i].0 == *name {
                self.props.remove(i);
                proof {
                    lemma_find_remove_all(entries, i as int);
                    assert forall|a: int, b: int|
                        0 <= a < b < self.props@.len() implies self.props@[a].0@
                        != self.props@[b].0@ by {
                        let pa = if a < i { a } else { a + 1 };
                        let pb = if b < i { b } else { b + 1 };
                        assert(self.props@[a] == entries[pa]);
                        assert(self.props@[b] == entries[pb]);
                    }
                    assert forall|j: int|
                        0 <= j < self.props@.len() implies (#[trigger] self.props@[j]).0@
                        != "checked"@ && self.props@[j].0@ != "value"@ by {
                        let pj = if j < i { j } else { j + 1 };
                        assert(self.props@[j] == entries[pj]);
                    }
                }
                return ;
            }
            i += 1;
        }
        proof {
            lemma_find_absent(entries, name@);
        }
    }
}

/// `lemma_find_update`, stated for every name at once.
pub proof fn lemma_find_update_all(entries: Seq<(String, Value)>, i: int, p: (String, Value))
    requires
        0 <= i < entries.len(),
        names_unique(entries),
        entries[i].0@ == p.0@,
    ensures
        live_find(entries.update(i, p), p.0@) == Some(p.1),
        forall|m: Seq<char>|
            m != p.0@ ==> live_find(entries.update(i, p), m) == live_find(entries, m),
{
    lemma_find_update(entries, i, p, p.0@);
    assert forall|m: Seq<char>| m != p.0@ implies live_find(entries.update(i, p), m) == live_find(
        entries,
        m,
    ) by {
        lemma_find_update(entries, i, p, m);
    }
}

/// `lemma_find_push`, stated for every name at once.
pub proof fn lemma_find_push_all(entries: Seq<(String, Value)>, p: (String, Value))
    ensures
        forall|m: Seq<char>|
            live_find(entries.push(p), m) == (if live_find(entries, m) is Some {
                live_find(entries, m)
            } else if m == p.0@ {
                Some(p.1)
            } else {
                None
            }),
{
    assert forall|m: Seq<char>|
        live_find(entries.push(p), m) == (if live_find(entries, m) is Some {
            live_find(entries, m)
        } else if m == p.0@ {
            Some(p.1)
        } else {
            None
        }) by {
        lemma_find_push(entries, p, m);
    }
}

/// `lemma_find_remove`, stated for every name at once.
pub proof fn lemma_find_remove_all(entries: Seq<(String, Value)>, i: int)
    requires
        0 <= i < entries.len(),
        names_unique(entries),
    ensures
        live_find(entries.remove(i), entries[i].0@) is None,
        forall|m: Seq<char>|
            m != entries[i].0@ ==> live_find(entries.remove(i), m) == live_find(entries, m),
{
    lemma_find_remove(entries, i, entries[i].0@);
    assert forall|m: Seq<char>|
        m != entries[i].0@ implies live_find(entries.remove(i), m) == live_find(entries, m) by {
        lemma_find_remove(entries, i, m);
    }
}

} // verus!
