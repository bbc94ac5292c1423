//! The reactive instance lifecycle: message queue, reentrancy gates and
//! render scheduling.

use vstd::prelude::*;
use vstd::string::StringExecFns;

use crate::dom::{live_wf, LiveNode};
use crate::vnode::{created, patched, vn_wf, vsync, VNode};

verus! {

/// An application: a state value, an `update` that folds a message into
/// the state (and may send further messages through the mailbox), and a
/// pure `view` that describes the desired tree for the current state.
///
/// The two specification members give the runtime something to promise:
/// `transition` is what folding one message does, `view_spec` is the tree
/// a state describes, and the executable members must agree with them.
pub trait Application: Sized {
    type Message;

    /// The effect of folding one message: the state afterwards, and the
    /// messages sent through the mailbox while folding, oldest first.
    /// The default says a message changes nothing; an application whose
    /// `update` does work overrides it to say what.
    open spec fn transition(self, message: Self::Message) -> (Self, Seq<Self::Message>) {
        (self, Seq::empty())
    }

    /// The declared tree describing a state.  The default leaves it
    /// unconstrained; an application overrides it to pin `view` down.
    open spec fn view_spec(self) -> VNode<Self::Message> {
        arbitrary()
    }

    fn update(&mut self, message: Self::Message, mailbox: &mut Mailbox<Self::Message>)
        ensures
            *final (self) == old(self).transition(message).0,
            final (mailbox).msgs() == old(mailbox).msgs() + old(self).transition(message).1,
    ;

    fn view(&self) -> (vn: VNode<Self::Message>)
        ensures
            vn == self.view_spec(),
            vn_wf(vn),
    ;
}

/// The application state reached by folding a sequence of messages,
/// oldest first.
pub open spec fn deliver<A: Application>(app: A, messages: Seq<A::Message>) -> A
    decreases messages.len(),
{
    if messages.len() == 0 {
        app
    } else {
        deliver(app.transition(messages[0]).0, messages.skip(1))
    }
}

/// Folding one more message continues the fold.
pub proof fn lemma_deliver_push<A: Application>(app: A, messages: Seq<A::Message>, m: A::Message)
    ensures
        deliver(app, messages.push(m)) == deliver(app, messages).transition(m).0,
    decreases messages.len(),
{
    if messages.len() == 0 {
        assert(messages.push(m)[0] == m);
        assert(messages.push(m).skip(1) =~= Seq::<A::Message>::empty());
        assert(deliver(app.transition(m).0, Seq::<A::Message>::empty()) == app.transition(m).0);
        assert(deliver(app, messages) == app);
    } else {
        assert(messages.push(m)[0] == messages[0]);
        assert(messages.push(m).skip(1) =~= messages.skip(1).push(m));
        lemma_deliver_push(app.transition(messages[0]).0, messages.skip(1), m);
    }
}

/// A send-only handle for injecting messages into an instance.  Sends
/// never fail; messages are handed to the owning instance when the
/// current step of the cycle returns control to it.
pub struct Mailbox<M> {
    messages: Vec<M>,
}

impl<M> Mailbox<M> {
    /// The messages sent through this handle, oldest first.
    pub closed spec fn msgs(self) -> Seq<M> {
        self.messages@
    }

    pub fn new() -> (mb: Mailbox<M>)
        ensures
            mb.msgs() == Seq::<M>::empty(),
    {
        Mailbox { messages: Vec::new() }
    }

    /// Enqueue a message for the owning instance.
    pub fn send(&mut self, message: M)
        ensures
            final (self).msgs() == old(self).msgs().push(message),
    {
        self.messages.push(message);
    }

    /// Hand the collected messages over, leaving the mailbox empty.
    fn take(&mut self) -> (v: Vec<M>)
        ensures
            v@ == old(self).msgs(),
            final (self).msgs() == Seq::<M>::empty(),
    {
        let mut out: Vec<M> = Vec::new();
        core::mem::swap(&mut out, &mut self.messages);
        out
    }
}

/// A mounted reactive instance: it owns the application state, the live
/// message queue, the previously rendered declaration and the live
/// subtree, and drives the update-then-render cycle.
pub struct Instance<A: Application> {
    app: A,
    node: LiveNode,
    vnode: VNode<A::Message>,
    queue: Vec<A::Message>,
    is_updating: bool,
    is_rendering: bool,
    history: Ghost<Seq<A::Message>>,
    enqueued: Ghost<Seq<A::Message>>,
    renders: Ghost<int>,
}

impl<A: Application> Instance<A> {
    /// Every message ever accepted, oldest first.
    pub closed spec fn enqueued(self) -> Seq<A::Message> {
        self.enqueued@
    }

    /// Every message already delivered to the application's `update`,
    /// oldest first.
    pub closed spec fn history(self) -> Seq<A::Message> {
        self.history@
    }

    /// The messages accepted but not yet delivered, oldest first.
    pub closed spec fn pending(self) -> Seq<A::Message> {
        self.queue@
    }

    /// How many render passes have completed.
    pub closed spec fn renders(self) -> int {
        self.renders@
    }

    /// The application state the instance owns.
    pub closed spec fn state(self) -> A {
        self.app
    }

    /// The previously rendered declaration.
    pub closed spec fn tree(self) -> VNode<A::Message> {
        self.vnode
    }

    /// The live subtree currently mounted.
    pub closed spec fn live(self) -> LiveNode {
        self.node
    }

    /// Whether one of the two reentrancy gates is closed.
    pub closed spec fn gated(self) -> bool {
        self.is_updating || self.is_rendering
    }

    /// The instance invariant: the rendered declaration is well formed,
    /// the live subtree is in sync with it, and the delivered history
    /// followed by the pending queue is exactly the accepted sequence --
    /// every message is delivered exactly once, in order.
    pub closed spec fn inv(self) -> bool {
        &&& vn_wf(self.vnode)
        &&& vsync(self.vnode, self.node)
        &&& live_wf(self.node)
        &&& self.history@ + self.queue@ == self.enqueued@
    }

    /// The resting state between stimuli: the invariant holds and both
    /// gates are open.
    pub closed spec fn wf(self) -> bool {
        &&& self.inv()
        &&& !self.is_updating
        &&& !self.is_rendering
    }

    /// The live subtree currently mounted.
    pub fn node(&self) -> (n: &LiveNode)
        ensures
            *n == self.live(),
    {
        &self.node
    }

    /// The previously rendered declaration.
    pub fn vnode(&self) -> (vn: &VNode<A::Message>)
        ensures
            *vn == self.tree(),
    {
        &self.vnode
    }

    /// How many messages are queued and not yet delivered.
    pub fn pending_len(&self) -> (n: usize)
        ensures
            n == self.pending().len(),
    {
        self.queue.len()
    }

    /// Enqueue a message and run the update-then-render cycle; if a cycle
    /// is already running, only enqueue -- the running cycle delivers it.
    pub fn send(&mut self, message: A::Message)
        requires
            old(self).inv(),
        ensures
            final (self).inv(),
            old(self).enqueued().push(message).is_prefix_of(final (self).enqueued()),
            old(self).gated() ==> {
                &&& final (self).enqueued() == old(self).enqueued().push(message)
                &&& final (self).pending() == old(self).pending().push(message)
                &&& final (self).history() == old(self).history()
                &&& final (self).state() == old(self).state()
                &&& final (self).renders() == old(self).renders()
                &&& final (self).tree() == old(self).tree()
                &&& final (self).live() == old(self).live()
                &&& final (self).gated() == old(self).gated()
            },
            !old(self).gated() ==> {
                &&& final (self).wf()
                &&& old(self).history().is_prefix_of(final (self).history())
                &&& final (self).state() == deliver(
                    old(self).state(),
                    final (self).history().skip(old(self).history().len() as int),
                )
                &&& if final (self).pending().len() == 0 {
                    &&& final (self).history() == final (self).enqueued()
                    &&& final (self).renders() == old(self).renders() + 1
                    &&& final (self).tree() == final (self).state().view_spec()
                    &&& patched(
                        final (self).tree(),
                        old(self).tree(),
                        old(self).live(),
                        final (self).live(),
                    )
                } else {
                    &&& final (self).history().len() >= old(self).history().len()
                        + u64::MAX as int
                    &&& final (self).renders() == old(self).renders()
                    &&& final (self).tree() == old(self).tree()
                    &&& final (self).live() == old(self).live()
                }
            },
    {
        self.push(message);
        self.update();
    }

    /// Enqueue a message without starting a cycle.
    pub fn push(&mut self, message: A::Message)
        requires
            old(self).inv(),
        ensures
            final (self).inv(),
            final (self).enqueued() == old(self).enqueued().push(message),
            final (self).pending() == old(self).pending().push(message),
            final (self).history() == old(self).history(),
            final (self).state() == old(self).state(),
            final (self).renders() == old(self).renders(),
            final (self).tree() == old(self).tree(),
            final (self).live() == old(self).live(),
            final (self).gated() == old(self).gated(),
            old(self).wf() ==> final (self).wf(),
    {
        self.queue.push(message);
        proof {
            self.enqueued@ = self.enqueued@.push(message);
            assert(self.history@ + self.queue@ =~= self.enqueued@);
        }
    }

    /// Drain the queue through the application's `update` in first-in,
    /// first-out order, then render once.  A message sent while draining
    /// is appended and delivered by this same drain, never by a nested
    /// one; a call while a cycle is already running does nothing, so the
    /// view is never computed while a render is already active: the
    /// gated clause changes nothing, and the ungated clause counts
    /// exactly one render for the whole batch.
    ///
    /// Draining carries a formal bound of `u64::MAX` deliveries per
    /// cycle so that the loop provably terminates; short of that bound,
    /// the queue is empty when the render runs.
    #[verifier::loop_isolation(false)]
    pub fn update(&mut self)
        requires
            old(self).inv(),
        ensures
            final (self).inv(),
            old(self).enqueued().is_prefix_of(final (self).enqueued()),
            old(self).gated() ==> *final (self) == *old(self),
            !old(self).gated() ==> {
                &&& final (self).wf()
                &&& old(self).history().is_prefix_of(final (self).history())
                &&& final (self).state() == deliver(
                    old(self).state(),
                    final (self).history().skip(old(self).history().len() as int),
                )
                &&& if final (self).pending().len() == 0 {
                    &&& final (self).history() == final (self).enqueued()
                    &&& final (self).renders() == old(self).renders() + 1
                    &&& final (self).tree() == final (self).state().view_spec()
                    &&& patched(
                        final (self).tree(),
                        old(self).tree(),
                        old(self).live(),
                        final (self).live(),
                    )
                } else {
                    &&& final (self).history().len() >= old(self).history().len()
                        + u64::MAX as int
                    &&& final (self).renders() == old(self).renders()
                    &&& final (self).tree() == old(self).tree()
                    &&& final (self).live() == old(self).live()
                }
            },
    {
        if self.is_rendering {
            return ;
        }
        // a recursive call while draining only observes the queue; the
        // messages it would have delivered are consumed by the outer loop
        if self.is_updating {
            return ;
        }
        self.is_updating = true;
        let mut processed: u64 = 0;
        while !self.queue.is_empty() && processed < u64::MAX
            invariant
                self.inv(),
                self.is_updating,
                !self.is_rendering,
                self.history@.len() == old(self).history@.len() + processed,
                old(self).enqueued@.is_prefix_of(self.enqueued@),
                old(self).history@.is_prefix_of(self.history@),
                self.app == deliver(
                    old(self).app,
                    self.history@.skip(old(self).history@.len() as int),
                ),
                self.vnode == old(self).vnode,
                self.node == old(self).node,
                self.renders@ == old(self).renders@,
            decreases u64::MAX - processed,
        {
            let ghost h0 = self.history@;
            let ghost q0 = self.queue@;
            let ghost app0 = self.app;
            let message = self.queue.remove(0);
            proof {
                self.history@ = self.history@.push(message);
                assert(self.history@ + self.queue@ =~= h0 + q0);
                assert(self.history@.skip(old(self).history@.len() as int) =~= h0.skip(
                    old(self).history@.len() as int,
                ).push(message));
                lemma_deliver_push(
                    old(self).app,
                    h0.skip(old(self).history@.len() as int),
                    message,
                );
            }
            let mut mailbox = Mailbox::new();
            self.app.update(message, &mut mailbox);
            let mut sent = mailbox.take();
            let ghost s = sent@;
            let ghost q1 = self.queue@;
            self.queue.append(&mut sent);
            proof {
                self.enqueued@ = self.enqueued@ + s;
                assert(self.history@ + self.queue@ =~= (self.history@ + q1) + s);
            }
            processed += 1;
        }
        self.is_updating = false;
        if self.queue.is_empty() {
            proof {
                assert(self.history@ =~= self.history@ + self.queue@);
            }
            self.render();
        }
    }

    /// Compute the new declaration from the current state, reconcile it
    /// against the previous one, and store the results for the next
    /// cycle.  Exactly one render pass runs per call; a send arriving
    /// while it runs is queued, never rendered reentrantly.  A render
    /// runs only once the queue is confirmed empty, so the state it
    /// renders is a consistent snapshot; in this model no message can
    /// arrive while it runs, so no follow-up cycle is ever owed.
    pub fn render(&mut self)
        requires
            old(self).inv(),
            !old(self).gated(),
            old(self).pending().len() == 0,
        ensures
            final (self).inv(),
            !final (self).gated(),
            final (self).renders() == old(self).renders() + 1,
            final (self).history() == old(self).history(),
            final (self).pending() == old(self).pending(),
            final (self).enqueued() == old(self).enqueued(),
            final (self).state() == old(self).state(),
            final (self).tree() == old(self).state().view_spec(),
            patched(final (self).tree(), old(self).tree(), old(self).live(), final (self).live()),
    {
        self.is_rendering = true;
        let new_vnode = self.app.view();
        let _mutated = new_vnode.patch(&self.vnode, &mut self.node);
        self.vnode = new_vnode;
        self.is_rendering = false;
        proof {
            self.renders@ = self.renders@ + 1;
        }
    }
}

/// Every reachable instance delivers its messages exactly once and in
/// the order they were accepted: the delivered history followed by the
/// pending queue is exactly the accepted sequence.
pub proof fn lemma_fifo_delivery<A: Application>(instance: Instance<A>)
    requires
        instance.inv(),
    ensures
        instance.history() + instance.pending() == instance.enqueued(),
{
}

/// The resting state satisfies the instance invariant with both gates
/// open, so a caller may chain one cycle into the next.
pub proof fn lemma_wf_inv<A: Application>(instance: Instance<A>)
    requires
        instance.wf(),
    ensures
        instance.inv(),
        !instance.gated(),
{
}

/// Mount an application: build the placeholder text node, create its
/// live counterpart, and run the first cycle.  The caller keeps the
/// returned instance and injects messages through [`Instance::send`].
pub fn start<A: Application>(app: A) -> (instance: Instance<A>)
    ensures
        instance.wf(),
        instance.inv(),
        instance.pending().len() == 0,
        instance.history().len() == 0,
        instance.enqueued().len() == 0,
        instance.renders() == 1,
        instance.state() == app,
        instance.tree() == app.view_spec(),
        created(instance.tree(), instance.live()),
{
    let vnode: VNode<A::Message> = VNode::Text(String::from_str("!"));
    let node = vnode.create();
    let ghost placeholder = vnode;
    let ghost placeholder_node = node;
    let mut instance = Instance {
        app,
        node,
        vnode,
        queue: Vec::new(),
        is_updating: false,
        is_rendering: false,
        history: Ghost(Seq::empty()),
        enqueued: Ghost(Seq::empty()),
        renders: Ghost(0),
    };
    proof {
        assert(instance.history@ + instance.queue@ =~= instance.enqueued@);
    }
    instance.render();
    proof {
        // the first render replaces the placeholder: whatever the view
        // describes, the mounted subtree is a fresh creation of it
        assert(patched(instance.vnode, placeholder, placeholder_node, instance.node));
        match &instance.vnode {
            VNode::Text(t) => {
                if t@ == placeholder->Text_0@ {
                    assert(instance.node == placeholder_node);
                }
                assert(created(instance.vnode, instance.node));
            },
            VNode::Element(_) => {
                assert(created(instance.vnode, instance.node));
            },
        }
    }
    instance
}

} // verus!
