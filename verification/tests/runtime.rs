use draco::application::{start, Application, Mailbox};
use draco::dom::LiveNode;
use draco::vnode::{VElement, VNode};

/// Records every message it is handed, in order; its view shows the log.
struct Recorder {
    log: Vec<u32>,
}

impl Application for Recorder {
    type Message = u32;

    fn update(&mut self, message: u32, mailbox: &mut Mailbox<u32>) {
        self.log.push(message);
        // a message handled during the drain may enqueue follow-ups: they
        // must be delivered by the same drain, after everything already
        // queued, and without a second drain starting
        if message == 1 {
            mailbox.send(2);
            mailbox.send(3);
        }
    }

    fn view(&self) -> VNode<u32> {
        let items = self
            .log
            .iter()
            .map(|n| VNode::Text(n.to_string()))
            .collect::<Vec<_>>();
        VNode::Element(VElement {
            tag: String::from("ul"),
            props: Vec::new(),
            listeners: Vec::new(),
            children: items,
        })
    }
}

fn texts(node: &LiveNode) -> Vec<String> {
    match node {
        LiveNode::Element(el) => el
            .children
            .iter()
            .map(|c| match c {
                LiveNode::Text(t) => t.clone(),
                LiveNode::Element(_) => panic!("expected a live text node"),
            })
            .collect(),
        LiveNode::Text(_) => panic!("expected a live element"),
    }
}

#[test]
fn start_runs_the_first_render() {
    let instance = start(Recorder { log: Vec::new() });
    assert_eq!(texts(instance.node()), Vec::<String>::new());
    assert_eq!(instance.pending_len(), 0);
}

#[test]
fn batched_messages_are_delivered_in_order_with_one_render() {
    let mut instance = start(Recorder { log: Vec::new() });
    // messages sent before any cycle runs are queued...
    instance.push(10);
    instance.push(20);
    instance.push(30);
    assert_eq!(instance.pending_len(), 3);
    assert_eq!(texts(instance.node()), Vec::<String>::new());
    // ...and one cycle delivers all of them, oldest first, then renders
    instance.update();
    assert_eq!(instance.pending_len(), 0);
    assert_eq!(
        texts(instance.node()),
        vec![String::from("10"), String::from("20"), String::from("30")]
    );
}

#[test]
fn messages_sent_by_update_join_the_same_drain() {
    let mut instance = start(Recorder { log: Vec::new() });
    instance.push(1);
    instance.push(9);
    instance.send(5);
    // 1 triggers sends of 2 and 3; they are appended behind 9 and 5 and
    // delivered by the same drain, so the render sees the full log
    assert_eq!(instance.pending_len(), 0);
    assert_eq!(
        texts(instance.node()),
        vec![
            String::from("1"),
            String::from("9"),
            String::from("5"),
            String::from("2"),
            String::from("3"),
        ]
    );
}

/// Shows one button whose click event is bound to the message 42.
struct Clicker {
    clicks: u32,
}

impl Application for Clicker {
    type Message = u32;

    fn update(&mut self, message: u32, _mailbox: &mut Mailbox<u32>) {
        if message == 42 {
            self.clicks += 1;
        }
    }

    fn view(&self) -> VNode<u32> {
        VNode::Element(VElement {
            tag: String::from("button"),
            props: Vec::new(),
            listeners: vec![draco::vnode::Listener {
                event: String::from("click"),
                message: 42,
            }],
            children: vec![VNode::Text(self.clicks.to_string())],
        })
    }
}

#[test]
fn firing_a_bound_event_sends_its_message() {
    let mut instance = start(Clicker { clicks: 0 });
    // a host that sees "click" fire on the button looks its message up in
    // the declared tree and hands it to the instance
    let message = match instance.vnode() {
        VNode::Element(el) => *el
            .listener_for(&String::from("click"))
            .expect("the button is bound to click"),
        VNode::Text(_) => panic!("expected a declared element"),
    };
    instance.send(message);
    assert_eq!(texts(instance.node()), vec![String::from("1")]);
    match instance.node() {
        LiveNode::Element(el) => assert_eq!(el.listeners, vec![String::from("click")]),
        LiveNode::Text(_) => panic!("expected a live element"),
    }
}

#[test]
fn each_send_outside_a_cycle_renders_once() {
    let mut instance = start(Recorder { log: Vec::new() });
    instance.send(7);
    assert_eq!(texts(instance.node()), vec![String::from("7")]);
    instance.send(8);
    assert_eq!(
        texts(instance.node()),
        vec![String::from("7"), String::from("8")]
    );
}
