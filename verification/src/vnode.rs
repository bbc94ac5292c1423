//! Declarative tree descriptions and the tree reconciler.

use vstd::prelude::*;

use crate::dom::{live_find, live_wf, props_wf, LiveElement, LiveNode};
use crate::property::{
    checked_name, lemma_intrinsic_names_distinct, opt_value_matches, prop_kinded,
    prop_writes, value_matches, value_name, Property, Value,
};

verus! {

/// An event binding on a declared element: when the named interaction
/// fires on the live element, `message` is sent to the instance.
pub struct Listener<M> {
    pub event: String,
    pub message: M,
}

/// A declared tree node: an element or a text leaf.
pub enum VNode<M> {
    Element(VElement<M>),
    Text(String),
}

/// A declared element: tag, named properties, event bindings, children.
pub struct VElement<M> {
    pub tag: String,
    pub props: Vec<Property>,
    pub listeners: Vec<Listener<M>>,
    pub children: Vec<VNode<M>>,
}

/// The declared value under `name`, if the element declares one.
pub open spec fn find_decl(props: Seq<Property>, name: Seq<char>) -> Option<Value>
    decreases props.len(),
{
    if props.len() == 0 {
        None
    } else if props[0].name@ == name {
        Some(props[0].value)
    } else {
        find_decl(props.skip(1), name)
    }
}

/// Declared properties are well formed: at most one property per name, and
/// the two intrinsic names carry their intrinsic kind.
pub open spec fn decl_props_wf(props: Seq<Property>) -> bool {
    &&& forall|i: int, j: int| 0 <= i < j < props.len() ==> props[i].name@ != props[j].name@
    &&& forall|i: int| 0 <= i < props.len() ==> prop_kinded(#[trigger] props[i])
}

/// Well-formed declared tree.
pub open spec fn vn_wf<M>(vn: VNode<M>) -> bool
    decreases vn,
{
    match vn {
        VNode::Text(_) => true,
        VNode::Element(e) => {
            &&& decl_props_wf(e.props@)
            &&& forall|i: int| 0 <= i < e.children@.len() ==> vn_wf(#[trigger] e.children@[i])
        },
    }
}

/// Looking a declared name up after appending a declaration.
pub proof fn lemma_decl_push(props: Seq<Property>, p: Property, m: Seq<char>)
    ensures
        find_decl(props.push(p), m) == (if find_decl(props, m) is Some {
            find_decl(props, m)
        } else if m == p.name@ {
            Some(p.value)
        } else {
            None
        }),
    decreases props.len(),
{
    if props.len() == 0 {
        assert(props.push(p)[0] == p);
        assert(props.push(p).skip(1) =~= Seq::<Property>::empty());
        assert(find_decl(Seq::<Property>::empty(), m) is None);
    } else {
        assert(props.push(p)[0] == props[0]);
        assert(props.push(p).skip(1) =~= props.skip(1).push(p));
        lemma_decl_push(props.skip(1), p, m);
    }
}

/// A declared name that no declaration carries is not found.
pub proof fn lemma_decl_absent(props: Seq<Property>, m: Seq<char>)
    requires
        forall|j: int| 0 <= j < props.len() ==> (#[trigger] props[j]).name@ != m,
    ensures
        find_decl(props, m) is None,
    decreases props.len(),
{
    if props.len() > 0 {
        assert forall|j: int| 0 <= j < props.skip(1).len() implies (#[trigger] props.skip(
            1,
        )[j]).name@ != m by {
            assert(props.skip(1)[j] == props[j + 1]);
        }
        lemma_decl_absent(props.skip(1), m);
    }
}

/// A found declared name is carried by some declaration.
pub proof fn lemma_decl_present(props: Seq<Property>, m: Seq<char>)
    requires
        find_decl(props, m) is Some,
    ensures
        exists|j: int|
            0 <= j < props.len() && (#[trigger] props[j]).name@ == m && props[j].value
                == find_decl(props, m)->Some_0,
    decreases props.len(),
{
    if props.len() > 0 && props[0].name@ != m {
        lemma_decl_present(props.skip(1), m);
        let j = choose|j: int|
            0 <= j < props.skip(1).len() && (#[trigger] props.skip(1)[j]).name@ == m && props.skip(
                1,
            )[j].value == find_decl(props.skip(1), m)->Some_0;
        assert(props[j + 1] == props.skip(1)[j]);
    }
}

/// The declared `checked` value, or the intrinsic default.
pub open spec fn decl_checked(props: Seq<Property>) -> bool {
    match find_decl(props, "checked"@) {
        Some(Value::Bool(b)) => b,
        _ => false,
    }
}

/// The declared `value` value, or the intrinsic default.
pub open spec fn decl_value(props: Seq<Property>) -> Seq<char> {
    match find_decl(props, "value"@) {
        Some(Value::String(s)) => s@,
        _ => Seq::<char>::empty(),
    }
}

/// The message bound to the first listener for `event`, if any.
pub open spec fn find_listener<M>(listeners: Seq<Listener<M>>, event: Seq<char>) -> Option<M>
    decreases listeners.len(),
{
    if listeners.len() == 0 {
        None
    } else if listeners[0].event@ == event {
        Some(listeners[0].message)
    } else {
        find_listener(listeners.skip(1), event)
    }
}

impl<M> VElement<M> {
    /// The message that firing `event` on this element's live counterpart
    /// produces: what an attached interaction handler hands to the
    /// instance's mailbox.
    #[verifier::loop_isolation(false)]
    pub fn listener_for(&self, event: &String) -> (r: Option<&M>)
        ensures
            match r {
                Some(m) => find_listener(self.listeners@, event@) == Some(*m),
                None => find_listener(self.listeners@, event@) is None,
            },
    {
        let mut i: usize = 0;
        while i < self.listeners.len()
            invariant
                i <= self.listeners@.len(),
                forall|j: int| 0 <= j < i ==> (#[trigger] self.listeners@[j]).event@ != event@,
            decreases self.listeners@.len() - i,
        {
            if self.listeners[i].event == *event {
                proof {
                    lemma_listener_at(self.listeners@, i as int);
                }
                return Some(&self.listeners[i].message);
            }
            i += 1;
        }
        proof {
            lemma_listener_absent(self.listeners@, event@);
        }
        None
    }
}

/// An event that no listener carries finds no message.
proof fn lemma_listener_absent<M>(listeners: Seq<Listener<M>>, event: Seq<char>)
    requires
        forall|j: int| 0 <= j < listeners.len() ==> (#[trigger] listeners[j]).event@ != event,
    ensures
        find_listener(listeners, event) is None,
    decreases listeners.len(),
{
    if listeners.len() > 0 {
        assert forall|j: int| 0 <= j < listeners.skip(1).len() implies (#[trigger] listeners.skip(
            1,
        )[j]).event@ != event by {
            assert(listeners.skip(1)[j] == listeners[j + 1]);
        }
        lemma_listener_absent(listeners.skip(1), event);
    }
}

/// The listener found at an index whose event no earlier listener carries
/// is the one the lookup yields.
proof fn lemma_listener_at<M>(listeners: Seq<Listener<M>>, i: int)
    requires
        0 <= i < listeners.len(),
        forall|j: int| 0 <= j < i ==> (#[trigger] listeners[j]).event@ != listeners[i].event@,
    ensures
        find_listener(listeners, listeners[i].event@) == Some(listeners[i].message),
    decreases listeners.len(),
{
    if i > 0 {
        assert forall|j: int| 0 <= j < i - 1 implies (#[trigger] listeners.skip(1)[j]).event@
            != listeners.skip(1)[i - 1].event@ by {
            assert(listeners.skip(1)[j] == listeners[j + 1]);
            assert(listeners.skip(1)[i - 1] == listeners[i]);
        }
        assert(listeners.skip(1)[i - 1] == listeners[i]);
        lemma_listener_at(listeners.skip(1), i - 1);
    }
}

/// The live element listens for exactly the declared events, in order.
pub open spec fn listeners_bound<M>(decl: Seq<Listener<M>>, live: Seq<String>) -> bool {
    &&& live.len() == decl.len()
    &&& forall|i: int| 0 <= i < decl.len() ==> live[i]@ == (#[trigger] decl[i]).event@
}

/// A freshly created live subtree for `vn`: every declared value written,
/// the two intrinsic fields at their declared value or their default.
pub open spec fn created<M>(vn: VNode<M>, live: LiveNode) -> bool
    decreases vn,
{
    match vn {
        VNode::Text(t) => live matches LiveNode::Text(lt) && lt@ == t@,
        VNode::Element(e) => live matches LiveNode::Element(le) && {
            &&& le.tag@ == e.tag@
            &&& le.checked == decl_checked(e.props@)
            &&& le.value@ == decl_value(e.props@)
            &&& forall|m: Seq<char>|
                m != "checked"@ && m != "value"@ ==> live_find(le.props@, m) == find_decl(
                    e.props@,
                    m,
                )
            &&& listeners_bound(e.listeners@, le.listeners@)
            &&& le.children@.len() == e.children@.len()
            &&& forall|i: int|
                0 <= i < e.children@.len() ==> created(#[trigger] e.children@[i], le.children@[i])
        },
    }
}

/// The live tree is in sync with a declared tree: same shape, same tags,
/// same stored properties and bound events.  The two intrinsic fields are
/// left free: the user may have changed them since the last render.
pub open spec fn vsync<M>(vn: VNode<M>, live: LiveNode) -> bool
    decreases vn,
{
    match vn {
        VNode::Text(t) => live matches LiveNode::Text(lt) && lt@ == t@,
        VNode::Element(e) => live matches LiveNode::Element(le) && {
            &&& le.tag@ == e.tag@
            &&& forall|m: Seq<char>|
                m != "checked"@ && m != "value"@ ==> opt_value_matches(
                    live_find(le.props@, m),
                    find_decl(e.props@, m),
                )
            &&& listeners_bound(e.listeners@, le.listeners@)
            &&& le.children@.len() == e.children@.len()
            &&& forall|i: int|
                0 <= i < e.children@.len() ==> vsync(#[trigger] e.children@[i], le.children@[i])
        },
    }
}

/// The intrinsic `checked` field once every new declaration is applied.
pub open spec fn added_checked(prefix: Seq<Property>, live0: bool) -> bool {
    match find_decl(prefix, "checked"@) {
        Some(Value::Bool(b)) => b,
        _ => live0,
    }
}

/// The intrinsic `value` field once every new declaration is applied.
pub open spec fn added_value(prefix: Seq<Property>, live0: Seq<char>) -> Seq<char> {
    match find_decl(prefix, "value"@) {
        Some(Value::String(s)) => s@,
        _ => live0,
    }
}

/// The stored property at `m` once every new declaration is applied,
/// before stale declarations are cleared.
pub open spec fn added_prop(
    prefix: Seq<Property>,
    oldp: Seq<Property>,
    live0: Seq<(String, Value)>,
    m: Seq<char>,
) -> Option<Value> {
    match find_decl(prefix, m) {
        Some(v) => {
            if find_decl(oldp, m) matches Some(ov) && value_matches(v, ov) {
                live_find(live0, m)
            } else {
                Some(v)
            }
        },
        None => live_find(live0, m),
    }
}

/// The intrinsic `checked` field after a full property reconciliation.
pub open spec fn patched_checked(newp: Seq<Property>, oldp: Seq<Property>, live0: bool) -> bool {
    match find_decl(newp, "checked"@) {
        Some(Value::Bool(b)) => b,
        Some(_) => live0,
        None => if find_decl(oldp, "checked"@) is Some {
            false
        } else {
            live0
        },
    }
}

/// The intrinsic `value` field after a full property reconciliation.
pub open spec fn patched_value(
    newp: Seq<Property>,
    oldp: Seq<Property>,
    live0: Seq<char>,
) -> Seq<char> {
    match find_decl(newp, "value"@) {
        Some(Value::String(s)) => s@,
        Some(_) => live0,
        None => if find_decl(oldp, "value"@) is Some {
            Seq::<char>::empty()
        } else {
            live0
        },
    }
}

/// The stored property at `m` after a full property reconciliation.
pub open spec fn patched_prop(
    newp: Seq<Property>,
    oldp: Seq<Property>,
    live0: Seq<(String, Value)>,
    m: Seq<char>,
) -> Option<Value> {
    match find_decl(newp, m) {
        Some(v) => {
            if find_decl(oldp, m) matches Some(ov) && value_matches(v, ov) {
                live_find(live0, m)
            } else {
                Some(v)
            }
        },
        None => if find_decl(oldp, m) is Some {
            None
        } else {
            live_find(live0, m)
        },
    }
}

/// Whether reconciling the declared properties issues any write: a new
/// declaration that differs per the property reconciler's policy, or a
/// stale declaration to clear.
pub open spec fn props_mutates(newp: Seq<Property>, oldp: Seq<Property>, e0: LiveElement) -> bool {
    ||| exists|i: int|
        0 <= i < newp.len() && prop_writes(
            #[trigger] newp[i],
            find_decl(oldp, newp[i].name@),
            e0,
        )
    ||| exists|j: int| 0 <= j < oldp.len() && find_decl(newp, (#[trigger] oldp[j]).name@) is None
}

/// Whether reconciling `new` against `prev` over live tree `live` issues
/// any mutation.  Rebinding event listeners is not counted: bindings are
/// rebuilt on every pass.
pub open spec fn patch_mutates<M>(new: VNode<M>, prev: VNode<M>, live: LiveNode) -> bool
    decreases new,
{
    match (new, prev) {
        (VNode::Text(t), VNode::Text(pt)) => t@ != pt@,
        (VNode::Element(ne), VNode::Element(pe)) => {
            if ne.tag@ != pe.tag@ || !(live matches LiveNode::Element(_)) {
                true
            } else {
                let le = live->Element_0;
                ||| props_mutates(ne.props@, pe.props@, le)
                ||| ne.children@.len() != pe.children@.len()
                ||| exists|i: int|
                    0 <= i < ne.children@.len() && i < pe.children@.len() && i
                        < le.children@.len() && patch_mutates(
                        #[trigger] ne.children@[i],
                        pe.children@[i],
                        le.children@[i],
                    )
            }
        },
        _ => true,
    }
}

/// The live tree after reconciling `new` against `prev`: patched in place
/// where the node kinds and tags match, replaced by a fresh subtree where
/// they differ.
pub open spec fn patched<M>(
    new: VNode<M>,
    prev: VNode<M>,
    live0: LiveNode,
    live1: LiveNode,
) -> bool
    decreases new,
{
    match (new, prev) {
        (VNode::Text(t), VNode::Text(pt)) => {
            if t@ == pt@ {
                live1 == live0
            } else {
                live1 matches LiveNode::Text(s) && s@ == t@
            }
        },
        (VNode::Element(ne), VNode::Element(pe)) => {
            if ne.tag@ == pe.tag@ && (live0 matches LiveNode::Element(_)) {
                live1 matches LiveNode::Element(le1) && {
                    let le0 = live0->Element_0;
                    &&& le1.tag == le0.tag
                    &&& le1.checked == patched_checked(ne.props@, pe.props@, le0.checked)
                    &&& le1.value@ == patched_value(ne.props@, pe.props@, le0.value@)
                    &&& forall|m: Seq<char>|
                        m != "checked"@ && m != "value"@ ==> live_find(le1.props@, m)
                            == patched_prop(ne.props@, pe.props@, le0.props@, m)
                    &&& listeners_bound(ne.listeners@, le1.listeners@)
                    &&& le1.children@.len() == ne.children@.len()
                    &&& forall|i: int|
                        0 <= i < ne.children@.len() ==> if i < pe.children@.len() && i
                            < le0.children@.len() {
                            patched(
                                #[trigger] ne.children@[i],
                                pe.children@[i],
                                le0.children@[i],
                                le1.children@[i],
                            )
                        } else {
                            created(ne.children@[i], le1.children@[i])
                        }
                }
            } else {
                created(new, live1)
            }
        },
        _ => created(new, live1),
    }
}

impl<M> VNode<M> {
    /// Materialize a brand-new live subtree for this declared node.
    #[verifier::loop_isolation(false)]
    pub fn create(&self) -> (live: LiveNode)
        requires
            vn_wf(*self),
        ensures
            created(*self, live),
            live_wf(live),
        decreases *self,
    {
        match self {
            VNode::Text(t) => LiveNode::Text(t.clone()),
            VNode::Element(e) => {
                let mut le = LiveElement {
                    tag: e.tag.clone(),
                    checked: false,
                    value: String::new(),
                    props: Vec::new(),
                    listeners: Vec::new(),
                    children: Vec::new(),
                };
                let mut k: usize = 0;
                while k < e.props.len()
                    invariant
                        decl_props_wf(e.props@),
                        k <= e.props@.len(),
                        props_wf(le.props@),
                        le.checked == decl_checked(e.props@.take(k as int)),
                        le.value@ == decl_value(e.props@.take(k as int)),
                        forall|m: Seq<char>|
                            m != "checked"@ && m != "value"@ ==> live_find(le.props@, m)
                                == find_decl(e.props@.take(k as int), m),
                        le.tag@ == e.tag@,
                        le.listeners@.len() == 0,
                        le.children@.len() == 0,
                    decreases e.props@.len() - k,
                {
                    let ghost before = e.props@.take(k as int);
                    let p = &e.props[k];
                    proof {
                        assert(e.props@.take(k + 1) =~= before.push(e.props@[k as int]));
                        assert forall|j: int| 0 <= j < before.len() implies (#[trigger] before[j]).name@
                            != p.name@ by {
                            assert(before[j] == e.props@[j]);
                        }
                        lemma_decl_absent(before, p.name@);
                        lemma_decl_push(before, e.props@[k as int], "checked"@);
                        lemma_decl_push(before, e.props@[k as int], "value"@);
                    }
                    if p.name == checked_name() {
                        match &p.value {
                            Value::Bool(b) => {
                                le.checked = *b;
                            },
                            Value::String(_) => {
                                // excluded by well-formedness of the declaration
                            },
                        }
                        proof {
                            assert forall|m: Seq<char>| m != "checked"@ && m != "value"@ implies
                                live_find(le.props@, m) == find_decl(
                                e.props@.take(k + 1),
                                m,
                            ) by {
                                lemma_decl_push(before, e.props@[k as int], m);
                            }
                        }
                    } else if p.name == value_name() {
                        match &p.value {
                            Value::String(s) => {
                                le.value = s.clone();
                            },
                            Value::Bool(_) => {
                                // excluded by well-formedness of the declaration
                            },
                        }
                        proof {
                            assert forall|m: Seq<char>| m != "checked"@ && m != "value"@ implies
                                live_find(le.props@, m) == find_decl(
                                e.props@.take(k + 1),
                                m,
                            ) by {
                                lemma_decl_push(before, e.props@[k as int], m);
                            }
                        }
                    } else {
                        let v = p.value.clone();
                        le.set_prop(&p.name, v);
                        proof {
                            assert forall|m: Seq<char>| m != "checked"@ && m != "value"@ implies
                                live_find(le.props@, m) == find_decl(
                                e.props@.take(k + 1),
                                m,
                            ) by {
                                lemma_decl_push(before, e.props@[k as int], m);
                            }
                        }
                    }
                    k += 1;
                }
                proof {
                    assert(e.props@.take(e.props@.len() as int) =~= e.props@);
                }
                let ghost props_done = le.props@;
                let mut k: usize = 0;
                while k < e.listeners.len()
                    invariant
                        k <= e.listeners@.len(),
                        le.listeners@.len() == k,
                        forall|i: int|
                            0 <= i < k ==> le.listeners@[i]@ == (#[trigger] e.listeners@[i]).event@,
                        le.props@ == props_done,
                        le.checked == decl_checked(e.props@),
                        le.value@ == decl_value(e.props@),
                        le.tag@ == e.tag@,
                        le.children@.len() == 0,
                    decreases e.listeners@.len() - k,
                {
                    le.listeners.push(e.listeners[k].event.clone());
                    k += 1;
                }
                let ghost listeners_done = le.listeners@;
                let mut k: usize = 0;
                while k < e.children.len()
                    invariant
                        k <= e.children@.len(),
                        le.children@.len() == k,
                        le.props@ == props_done,
                        le.checked == decl_checked(e.props@),
                        le.value@ == decl_value(e.props@),
                        le.tag@ == e.tag@,
                        le.listeners@ == listeners_done,
                        forall|j: int|
                            0 <= j < k ==> created(#[trigger] e.children@[j], le.children@[j])
                                && live_wf(le.children@[j]),
                    decreases e.children@.len() - k,
                {
                    let child = e.children[k].create();
                    le.children.push(child);
                    k += 1;
                }
                proof {
                    assert forall|i: int| 0 <= i < le.children@.len() implies live_wf(
                        le.children@[i],
                    ) by {
                        assert(created(e.children@[i], le.children@[i]) && live_wf(
                            le.children@[i],
                        ));
                    }
                    assert(live_wf(LiveNode::Element(le)));
                }
                LiveNode::Element(le)
            },
        }
    }

    /// Reconcile this declared node against the previous declaration,
    /// mutating the corresponding live subtree in place where the node
    /// kinds and tags match, and replacing it where they differ.
    #[verifier::loop_isolation(false)]
    pub fn patch(&self, prev: &VNode<M>, live: &mut LiveNode) -> (mutated: bool)
        requires
            vn_wf(*self),
            vn_wf(*prev),
            vsync(*prev, *old(live)),
            live_wf(*old(live)),
        ensures
            patched(*self, *prev, *old(live), *final (live)),
            mutated == patch_mutates(*self, *prev, *old(live)),
            live_wf(*final (live)),
            vsync(*self, *final (live)),
        decreases *self, 1int,
    {
        match (self, prev) {
            (VNode::Text(t), VNode::Text(pt)) => {
                if *t == *pt {
                    false
                } else {
                    *live = LiveNode::Text(t.clone());
                    true
                }
            },
            (VNode::Element(ne), VNode::Element(pe)) => {
                if !(ne.tag == pe.tag) {
                    let fresh = self.create();
                    *live = fresh;
                    proof {
                        lemma_created_vsync(*self, *final (live));
                    }
                    true
                } else {
                    match live {
                        LiveNode::Element(le) => patch_element(ne, pe, le),
                        LiveNode::Text(_) => {
                            // excluded: the live tree is in sync with `prev`
                            proof {
                                assert(false);
                            }
                            false
                        },
                    }
                }
            },
            _ => {
                let fresh = self.create();
                *live = fresh;
                proof {
                    lemma_created_vsync(*self, *final (live));
                }
                true
            },
        }
    }
}

/// The live tree's intrinsic fields match every declared intrinsic value:
/// no user interaction has moved them off the declaration.
pub open spec fn specials_match<M>(vn: VNode<M>, live: LiveNode) -> bool
    decreases vn,
{
    match vn {
        VNode::Text(_) => true,
        VNode::Element(e) => live matches LiveNode::Element(le) && {
            &&& match find_decl(e.props@, "checked"@) {
                Some(Value::Bool(b)) => le.checked == b,
                _ => true,
            }
            &&& match find_decl(e.props@, "value"@) {
                Some(Value::String(s)) => le.value@ == s@,
                _ => true,
            }
            &&& le.children@.len() == e.children@.len()
            &&& forall|i: int|
                0 <= i < e.children@.len() ==> specials_match(
                    #[trigger] e.children@[i],
                    le.children@[i],
                )
        },
    }
}

/// A freshly created subtree matches its declared intrinsic values.
pub proof fn lemma_created_specials<M>(vn: VNode<M>, live: LiveNode)
    requires
        created(vn, live),
    ensures
        specials_match(vn, live),
    decreases vn,
{
    match vn {
        VNode::Text(_) => {},
        VNode::Element(e) => {
            let le = live->Element_0;
            assert forall|i: int| 0 <= i < e.children@.len() implies specials_match(
                #[trigger] e.children@[i],
                le.children@[i],
            ) by {
                assert(created(e.children@[i], le.children@[i]));
                lemma_created_specials(e.children@[i], le.children@[i]);
            }
        },
    }
}

/// Idempotence: reconciling a declaration against an identical previous
/// declaration, over a live tree in sync with it whose intrinsic fields
/// match every declared value, issues zero mutations.
pub proof fn lemma_idempotent<M>(vn: VNode<M>, live: LiveNode)
    requires
        vn_wf(vn),
        vsync(vn, live),
        specials_match(vn, live),
    ensures
        !patch_mutates(vn, vn, live),
    decreases vn,
{
    match vn {
        VNode::Text(_) => {},
        VNode::Element(e) => {
            let le = live->Element_0;
            assert forall|i: int| 0 <= i < e.props@.len() implies !prop_writes(
                #[trigger] e.props@[i],
                find_decl(e.props@, e.props@[i].name@),
                le,
            ) by {
                lemma_decl_at(e.props@, i);
            }
            assert forall|j: int|
                0 <= j < e.props@.len() implies find_decl(
                e.props@,
                (#[trigger] e.props@[j]).name@,
            ) is Some by {
                lemma_decl_at(e.props@, j);
            }
            assert(!props_mutates(e.props@, e.props@, le));
            assert forall|i: int|
                0 <= i < e.children@.len() && i < le.children@.len() implies !patch_mutates(
                #[trigger] e.children@[i],
                e.children@[i],
                le.children@[i],
            ) by {
                assert(vsync(e.children@[i], le.children@[i]));
                assert(specials_match(e.children@[i], le.children@[i]));
                assert(vn_wf(e.children@[i]));
                lemma_idempotent(e.children@[i], le.children@[i]);
            }
        },
    }
}

/// Re-rendering an unchanged declaration over its freshly created
/// subtree issues zero mutations.
pub proof fn lemma_fresh_idempotent<M>(vn: VNode<M>, live: LiveNode)
    requires
        vn_wf(vn),
        created(vn, live),
    ensures
        !patch_mutates(vn, vn, live),
{
    lemma_created_vsync(vn, live);
    lemma_created_specials(vn, live);
    lemma_idempotent(vn, live);
}

/// The declaration found at an index whose name no earlier declaration
/// carries is the one the lookup yields.
pub proof fn lemma_decl_at(props: Seq<Property>, i: int)
    requires
        0 <= i < props.len(),
        forall|j: int| 0 <= j < i ==> (#[trigger] props[j]).name@ != props[i].name@,
    ensures
        find_decl(props, props[i].name@) == Some(props[i].value),
    decreases props.len(),
{
    if i > 0 {
        assert forall|j: int| 0 <= j < i - 1 implies (#[trigger] props.skip(1)[j]).name@
            != props.skip(1)[i - 1].name@ by {
            assert(props.skip(1)[j] == props[j + 1]);
            assert(props.skip(1)[i - 1] == props[i]);
        }
        assert(props.skip(1)[i - 1] == props[i]);
        lemma_decl_at(props.skip(1), i - 1);
    }
}

/// A freshly created subtree is in sync with its declaration.
pub proof fn lemma_created_vsync<M>(vn: VNode<M>, live: LiveNode)
    requires
        created(vn, live),
    ensures
        vsync(vn, live),
    decreases vn,
{
    match vn {
        VNode::Text(_) => {},
        VNode::Element(e) => {
            let le = live->Element_0;
            assert forall|i: int| 0 <= i < e.children@.len() implies vsync(
                #[trigger] e.children@[i],
                le.children@[i],
            ) by {
                assert(created(e.children@[i], le.children@[i]));
                lemma_created_vsync(e.children@[i], le.children@[i]);
            }
            assert forall|m: Seq<char>| m != "checked"@ && m != "value"@ implies opt_value_matches(
                live_find(le.props@, m),
                find_decl(e.props@, m),
            ) by {
                assert(live_find(le.props@, m) == find_decl(e.props@, m));
            }
        },
    }
}

/// The previous declaration at the same name, if any.
#[verifier::loop_isolation(false)]
fn find_property<'a>(props: &'a Vec<Property>, name: &String) -> (r: Option<&'a Property>)
    ensures
        match r {
            Some(p) => find_decl(props@, name@) == Some(p.value) && p.name@ == name@,
            None => find_decl(props@, name@) is None,
        },
{
    let mut i: usize = 0;
    while i < props.len()
        invariant
            i <= props@.len(),
            forall|j: int| 0 <= j < i ==> (#[trigger] props@[j]).name@ != name@,
        decreases props@.len() - i,
    {
        if props[i].name == *name {
            proof {
                lemma_decl_at(props@, i as int);
            }
            return Some(&props[i]);
        }
        i += 1;
    }
    proof {
        lemma_decl_absent(props@, name@);
    }
    None
}

/// Reconcile one declared element against the previous declaration with
/// the same tag, mutating the live element in place: apply every new
/// declaration, clear every stale one, rebind the event listeners, and
/// reconcile the children positionally.
#[verifier::loop_isolation(false)]
#[verifier::rlimit(60)]
fn patch_element<M>(ne: &VElement<M>, pe: &VElement<M>, le: &mut LiveElement) -> (mutated: bool)
    requires
        vn_wf(VNode::Element(*ne)),
        vn_wf(VNode::Element(*pe)),
        ne.tag@ == pe.tag@,
        vsync(VNode::Element(*pe), LiveNode::Element(*old(le))),
        live_wf(LiveNode::Element(*old(le))),
    ensures
        patched(
            VNode::Element(*ne),
            VNode::Element(*pe),
            LiveNode::Element(*old(le)),
            LiveNode::Element(*final (le)),
        ),
        mutated == patch_mutates(
            VNode::Element(*ne),
            VNode::Element(*pe),
            LiveNode::Element(*old(le)),
        ),
        live_wf(LiveNode::Element(*final (le))),
        vsync(VNode::Element(*ne), LiveNode::Element(*final (le))),
    decreases VNode::Element(*ne), 0int,
{
    proof {
        lemma_intrinsic_names_distinct();
    }
    let ghost le0 = *le;
    let mut mutated = false;
    // apply every new declaration
    let mut k: usize = 0;
    while k < ne.props.len()
        invariant
            k <= ne.props@.len(),
            props_wf(le.props@),
            le.tag == le0.tag,
            le.listeners == le0.listeners,
            le.children == le0.children,
            le.checked == added_checked(ne.props@.take(k as int), le0.checked),
            le.value@ == added_value(ne.props@.take(k as int), le0.value@),
            forall|m: Seq<char>|
                m != "checked"@ && m != "value"@ ==> live_find(le.props@, m) == added_prop(
                    ne.props@.take(k as int),
                    pe.props@,
                    le0.props@,
                    m,
                ),
            mutated == exists|i: int|
                0 <= i < k && prop_writes(
                    #[trigger] ne.props@[i],
                    find_decl(pe.props@, ne.props@[i].name@),
                    le0,
                ),
        decreases ne.props@.len() - k,
    {
        let ghost before = ne.props@.take(k as int);
        let p = &ne.props[k];
        proof {
            assert(ne.props@.take(k + 1) =~= before.push(ne.props@[k as int]));
            assert forall|j: int| 0 <= j < before.len() implies (#[trigger] before[j]).name@
                != p.name@ by {
                assert(before[j] == ne.props@[j]);
            }
            lemma_decl_absent(before, p.name@);
            lemma_decl_push(before, ne.props@[k as int], "checked"@);
            lemma_decl_push(before, ne.props@[k as int], "value"@);
        }
        let oldp = find_property(&pe.props, &p.name);
        let wrote = p.patch(oldp, le);
        proof {
            // the write decision reads only this name's live state, which no
            // earlier declaration touched
            assert(wrote == prop_writes(
                ne.props@[k as int],
                find_decl(pe.props@, p.name@),
                le0,
            ));
            assert forall|m: Seq<char>| m != "checked"@ && m != "value"@ implies live_find(
                le.props@,
                m,
            ) == added_prop(ne.props@.take(k + 1), pe.props@, le0.props@, m) by {
                lemma_decl_push(before, ne.props@[k as int], m);
            }
            if wrote {
                assert(prop_writes(
                    ne.props@[k as int],
                    find_decl(pe.props@, ne.props@[k as int].name@),
                    le0,
                ));
            }
        }
        mutated = mutated || wrote;
        k += 1;
    }
    proof {
        assert(ne.props@.take(ne.props@.len() as int) =~= ne.props@);
    }
    let ghost base_mut = mutated;
    // clear every stale declaration
    let mut j: usize = 0;
    while j < pe.props.len()
        invariant
            j <= pe.props@.len(),
            props_wf(le.props@),
            le.tag == le0.tag,
            le.listeners == le0.listeners,
            le.children == le0.children,
            le.checked == (if find_decl(pe.props@.take(j as int), "checked"@) is Some
                && find_decl(ne.props@, "checked"@) is None {
                false
            } else {
                added_checked(ne.props@, le0.checked)
            }),
            le.value@ == (if find_decl(pe.props@.take(j as int), "value"@) is Some && find_decl(
                ne.props@,
                "value"@,
            ) is None {
                Seq::<char>::empty()
            } else {
                added_value(ne.props@, le0.value@)
            }),
            forall|m: Seq<char>|
                m != "checked"@ && m != "value"@ ==> live_find(le.props@, m) == (if find_decl(
                    pe.props@.take(j as int),
                    m,
                ) is Some && find_decl(ne.props@, m) is None {
                    None
                } else {
                    added_prop(ne.props@, pe.props@, le0.props@, m)
                }),
            mutated == (base_mut || exists|i: int|
                0 <= i < j && find_decl(ne.props@, (#[trigger] pe.props@[i]).name@) is None),
        decreases pe.props@.len() - j,
    {
        let ghost beforep = pe.props@.take(j as int);
        let q = &pe.props[j];
        proof {
            assert(pe.props@.take(j + 1) =~= beforep.push(pe.props@[j as int]));
            assert forall|x: int| 0 <= x < beforep.len() implies (#[trigger] beforep[x]).name@
                != q.name@ by {
                assert(beforep[x] == pe.props@[x]);
            }
            lemma_decl_absent(beforep, q.name@);
            lemma_decl_push(beforep, pe.props@[j as int], "checked"@);
            lemma_decl_push(beforep, pe.props@[j as int], "value"@);
        }
        let still = find_property(&ne.props, &q.name);
        if still.is_none() {
            q.remove(le);
            mutated = true;
            proof {
                assert(find_decl(ne.props@, (pe.props@[j as int]).name@) is None);
            }
        }
        proof {
            assert forall|m: Seq<char>| m != "checked"@ && m != "value"@ implies live_find(
                le.props@,
                m,
            ) == (if find_decl(pe.props@.take(j + 1), m) is Some && find_decl(ne.props@, m)
                is None {
                None
            } else {
                added_prop(ne.props@, pe.props@, le0.props@, m)
            }) by {
                lemma_decl_push(beforep, pe.props@[j as int], m);
            }
        }
        j += 1;
    }
    proof {
        assert(pe.props@.take(pe.props@.len() as int) =~= pe.props@);
        assert(le.checked == patched_checked(ne.props@, pe.props@, le0.checked));
        assert(le.value@ == patched_value(ne.props@, pe.props@, le0.value@));
        assert forall|m: Seq<char>| m != "checked"@ && m != "value"@ implies live_find(
            le.props@,
            m,
        ) == patched_prop(ne.props@, pe.props@, le0.props@, m) by {
            if find_decl(pe.props@, m) is Some {
                lemma_decl_present(pe.props@, m);
            }
        }
        assert(mutated == props_mutates(ne.props@, pe.props@, le0));
    }
    let ghost props_mut = mutated;
    // rebind the event listeners
    let mut ls: Vec<String> = Vec::new();
    let mut k2: usize = 0;
    while k2 < ne.listeners.len()
        invariant
            k2 <= ne.listeners@.len(),
            ls@.len() == k2,
            forall|i: int| 0 <= i < k2 ==> ls@[i]@ == (#[trigger] ne.listeners@[i]).event@,
        decreases ne.listeners@.len() - k2,
    {
        ls.push(ne.listeners[k2].event.clone());
        k2 += 1;
    }
    le.listeners = ls;
    // reconcile the children positionally
    proof {
        assert(le0.children@.len() == pe.children@.len());
        assert forall|i: int| 0 <= i < pe.children@.len() implies vsync(
            #[trigger] pe.children@[i],
            le0.children@[i],
        ) by {}
        assert forall|i: int| 0 <= i < le0.children@.len() implies live_wf(
            #[trigger] le0.children@[i],
        ) by {}
        assert forall|i: int| 0 <= i < ne.children@.len() implies vn_wf(
            #[trigger] ne.children@[i],
        ) by {}
        assert forall|i: int| 0 <= i < pe.children@.len() implies vn_wf(
            #[trigger] pe.children@[i],
        ) by {}
    }
    let new_n = ne.children.len();
    let prev_n = pe.children.len();
    let shared = if new_n < prev_n {
        new_n
    } else {
        prev_n
    };
    let ghost mid_props = le.props@;
    let ghost mid_checked = le.checked;
    let ghost mid_value = le.value;
    let ghost mid_listeners = le.listeners@;
    let mut i: usize = 0;
    while i < shared
        invariant
            i <= shared,
            le.children@.len() == prev_n,
            le.props@ == mid_props,
            le.checked == mid_checked,
            le.value == mid_value,
            le.listeners@ == mid_listeners,
            le.tag == le0.tag,
            forall|jj: int| i <= jj < prev_n ==> le.children@[jj] == le0.children@[jj],
            forall|jj: int|
                0 <= jj < i ==> patched(
                    #[trigger] ne.children@[jj],
                    pe.children@[jj],
                    le0.children@[jj],
                    le.children@[jj],
                ) && live_wf(le.children@[jj]) && vsync(ne.children@[jj], le.children@[jj]),
            mutated == (props_mut || exists|jj: int|
                0 <= jj < i && patch_mutates(
                    #[trigger] ne.children@[jj],
                    pe.children@[jj],
                    le0.children@[jj],
                )),
        decreases shared - i,
    {
        let ghost cs = le.children@;
        let mut child = le.children.remove(i);
        proof {
            assert(child == le0.children@[i as int]);
            assert(vn_wf(ne.children@[i as int]));
        }
        let m = ne.children[i].patch(&pe.children[i], &mut child);
        le.children.insert(i, child);
        proof {
            assert(le.children@ =~= cs.update(i as int, le.children@[i as int]));
            if m {
                assert(patch_mutates(
                    ne.children@[i as int],
                    pe.children@[i as int],
                    le0.children@[i as int],
                ));
            }
        }
        mutated = mutated || m;
        i += 1;
    }
    if new_n < prev_n {
        // drop live children beyond the new declaration
        let ghost entry_children = le.children@;
        while le.children.len() > new_n
            invariant
                new_n <= le.children@.len(),
                le.children@.len() <= prev_n,
                le.children@ == entry_children.take(le.children@.len() as int),
                le.props@ == mid_props,
                le.checked == mid_checked,
                le.value == mid_value,
                le.listeners@ == mid_listeners,
                le.tag == le0.tag,
            decreases le.children@.len(),
        {
            le.children.pop();
            proof {
                assert(le.children@ =~= entry_children.take(le.children@.len() as int));
            }
        }
        mutated = true;
        proof {
            assert forall|jj: int| 0 <= jj < new_n implies le.children@[jj]
                == entry_children[jj] by {}
        }
    } else if new_n > prev_n {
        // materialize the extra declared children
        let mut i2: usize = prev_n;
        while i2 < new_n
            invariant
                prev_n <= i2 <= new_n,
                le.children@.len() == i2,
                le.props@ == mid_props,
                le.checked == mid_checked,
                le.value == mid_value,
                le.listeners@ == mid_listeners,
                le.tag == le0.tag,
                forall|jj: int|
                    0 <= jj < prev_n ==> patched(
                        #[trigger] ne.children@[jj],
                        pe.children@[jj],
                        le0.children@[jj],
                        le.children@[jj],
                    ) && live_wf(le.children@[jj]) && vsync(ne.children@[jj], le.children@[jj]),
                forall|jj: int|
                    prev_n <= jj < i2 ==> created(#[trigger] ne.children@[jj], le.children@[jj])
                        && live_wf(le.children@[jj]) && vsync(ne.children@[jj], le.children@[jj]),
            decreases new_n - i2,
        {
            proof {
                assert(vn_wf(ne.children@[i2 as int]));
            }
            let c = ne.children[i2].create();
            le.children.push(c);
            proof {
                lemma_created_vsync(ne.children@[i2 as int], le.children@[i2 as int]);
            }
            i2 += 1;
        }
        mutated = true;
    }
    proof {
        assert forall|jj: int| 0 <= jj < le.children@.len() implies live_wf(
            le.children@[jj],
        ) by {
            if jj < shared {
                assert(patched(
                    ne.children@[jj],
                    pe.children@[jj],
                    le0.children@[jj],
                    le.children@[jj],
                ));
                assert(live_wf(le.children@[jj]));
            } else {
                assert(created(ne.children@[jj], le.children@[jj]));
                assert(live_wf(le.children@[jj]));
            }
        }
        assert(live_wf(LiveNode::Element(*le)));
        assert(vsync(VNode::Element(*ne), LiveNode::Element(*le)));
        assert(patched(
            VNode::Element(*ne),
            VNode::Element(*pe),
            LiveNode::Element(le0),
            LiveNode::Element(*le),
        ));
        assert(mutated == patch_mutates(
            VNode::Element(*ne),
            VNode::Element(*pe),
            LiveNode::Element(le0),
        ));
    }
    mutated
}

} // verus!
