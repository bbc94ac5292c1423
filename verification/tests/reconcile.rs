use draco::dom::{LiveElement, LiveNode};
use draco::property::{Property, Value};
use draco::vnode::{Listener, VElement, VNode};

type Msg = u32;

fn text(s: &str) -> VNode<Msg> {
    VNode::Text(String::from(s))
}

fn element(tag: &str, props: Vec<Property>, children: Vec<VNode<Msg>>) -> VNode<Msg> {
    VNode::Element(VElement {
        tag: String::from(tag),
        props,
        listeners: Vec::new(),
        children,
    })
}

fn prop(name: &str, value: Value) -> Property {
    Property::new(String::from(name), value)
}

fn live_element(node: &LiveNode) -> &LiveElement {
    match node {
        LiveNode::Element(el) => el,
        LiveNode::Text(_) => panic!("expected a live element"),
    }
}

fn stored<'a>(el: &'a LiveElement, name: &str) -> Option<&'a Value> {
    el.props
        .iter()
        .find(|(n, _)| n == name)
        .map(|(_, v)| v)
}

#[test]
fn ordinary_property_written_when_no_previous() {
    let tree = element("div", vec![prop("title", Value::String(String::from("a")))], vec![]);
    let mut live = tree.create();
    let el = live_element(&live);
    assert_eq!(stored(el, "title"), Some(&Value::String(String::from("a"))));

    // same declared value on both sides: no write
    let p = prop("title", Value::String(String::from("a")));
    let old = prop("title", Value::String(String::from("a")));
    let el = match &mut live {
        LiveNode::Element(el) => el,
        LiveNode::Text(_) => panic!("expected a live element"),
    };
    let wrote = p.patch(Some(&old), el);
    assert!(!wrote);

    // differing declared values: exactly one write
    let p2 = prop("title", Value::String(String::from("b")));
    let wrote2 = p2.patch(Some(&old), el);
    assert!(wrote2);
    assert_eq!(stored(el, "title"), Some(&Value::String(String::from("b"))));
}

#[test]
fn checked_compares_against_live_value() {
    let tree = element("input", vec![prop("checked", Value::Bool(true))], vec![]);
    let mut live = tree.create();
    let el = match &mut live {
        LiveNode::Element(el) => el,
        LiveNode::Text(_) => panic!("expected a live element"),
    };
    assert!(el.checked);

    // live already equals the new declaration: no write, even though the
    // previous declaration differed
    let p = prop("checked", Value::Bool(true));
    let old = prop("checked", Value::Bool(false));
    assert!(!p.patch(Some(&old), el));

    // live differs from the new declaration: one write
    let p2 = prop("checked", Value::Bool(false));
    let old2 = prop("checked", Value::Bool(false));
    assert!(p2.patch(Some(&old2), el));
    assert!(!el.checked);
}

#[test]
fn value_compares_against_live_value() {
    let tree = element("input", vec![prop("value", Value::String(String::from("abc")))], vec![]);
    let mut live = tree.create();
    let el = match &mut live {
        LiveNode::Element(el) => el,
        LiveNode::Text(_) => panic!("expected a live element"),
    };
    assert_eq!(el.value, "abc");

    // the user typed the same text the new render declares: no write
    let p = prop("value", Value::String(String::from("abc")));
    let old = prop("value", Value::String(String::from("stale")));
    assert!(!p.patch(Some(&old), el));
    assert_eq!(el.value, "abc");

    let p2 = prop("value", Value::String(String::from("xyz")));
    assert!(p2.patch(Some(&old), el));
    assert_eq!(el.value, "xyz");
}

#[test]
fn removed_property_is_cleared() {
    let prev = element(
        "div",
        vec![
            prop("title", Value::String(String::from("a"))),
            prop("hidden", Value::Bool(true)),
        ],
        vec![],
    );
    let mut live = prev.create();
    let next = element("div", vec![prop("title", Value::String(String::from("a")))], vec![]);
    let mutated = next.patch(&prev, &mut live);
    assert!(mutated);
    let el = live_element(&live);
    assert_eq!(stored(el, "hidden"), None);
    assert_eq!(stored(el, "title"), Some(&Value::String(String::from("a"))));
}

#[test]
fn removed_intrinsic_names_fall_back_to_defaults() {
    let prev = element(
        "input",
        vec![
            prop("checked", Value::Bool(true)),
            prop("value", Value::String(String::from("abc"))),
        ],
        vec![],
    );
    let mut live = prev.create();
    let next = element("input", vec![], vec![]);
    let mutated = next.patch(&prev, &mut live);
    assert!(mutated);
    let el = live_element(&live);
    assert!(!el.checked);
    assert_eq!(el.value, "");
}

#[test]
fn identical_trees_issue_zero_mutations() {
    let make = || {
        element(
            "form",
            vec![prop("title", Value::String(String::from("t")))],
            vec![
                element(
                    "input",
                    vec![
                        prop("value", Value::String(String::from("abc"))),
                        prop("checked", Value::Bool(true)),
                    ],
                    vec![],
                ),
                element("button", vec![], vec![text("Fetch")]),
            ],
        )
    };
    let prev = make();
    let mut live = prev.create();
    let next = make();
    let mutated = next.patch(&prev, &mut live);
    assert!(!mutated);
}

#[test]
fn user_toggle_is_not_overwritten() {
    // the previous render declared the box unchecked; the user clicked it,
    // and the application state caught up, so the new render declares it
    // checked; the reconciler compares against the live value, which
    // already matches, and must not touch it
    let prev = element("input", vec![prop("checked", Value::Bool(false))], vec![]);
    let mut live = prev.create();
    match &mut live {
        LiveNode::Element(el) => {
            assert!(!el.checked);
            // simulated user click
            el.checked = true;
        },
        LiveNode::Text(_) => panic!("expected a live element"),
    }
    let next = element("input", vec![prop("checked", Value::Bool(true))], vec![]);
    let mutated = next.patch(&prev, &mut live);
    assert!(!mutated);
    assert!(live_element(&live).checked);
}

#[test]
fn changed_text_is_replaced() {
    let prev = text("old");
    let mut live = prev.create();
    let next = text("new");
    assert!(next.patch(&prev, &mut live));
    match &live {
        LiveNode::Text(t) => assert_eq!(t, "new"),
        LiveNode::Element(_) => panic!("expected a live text node"),
    }
    // identical text: untouched
    let again = text("new");
    assert!(!again.patch(&next, &mut live));
}

#[test]
fn different_tags_replace_the_subtree() {
    let prev = element("div", vec![], vec![text("x")]);
    let mut live = prev.create();
    let next = element("span", vec![], vec![text("y")]);
    assert!(next.patch(&prev, &mut live));
    let el = live_element(&live);
    assert_eq!(el.tag, "span");
    match &el.children[0] {
        LiveNode::Text(t) => assert_eq!(t, "y"),
        LiveNode::Element(_) => panic!("expected a live text node"),
    }
}

#[test]
fn children_are_added_and_removed_positionally() {
    let prev = element("ul", vec![], vec![text("a"), text("b")]);
    let mut live = prev.create();

    let grown = element("ul", vec![], vec![text("a"), text("b"), text("c")]);
    assert!(grown.patch(&prev, &mut live));
    assert_eq!(live_element(&live).children.len(), 3);

    let shrunk = element("ul", vec![], vec![text("a")]);
    assert!(shrunk.patch(&grown, &mut live));
    let el = live_element(&live);
    assert_eq!(el.children.len(), 1);
    match &el.children[0] {
        LiveNode::Text(t) => assert_eq!(t, "a"),
        LiveNode::Element(_) => panic!("expected a live text node"),
    }
}

#[test]
fn listeners_are_rebound_on_every_patch() {
    let prev = VNode::Element(VElement {
        tag: String::from("button"),
        props: vec![],
        listeners: vec![Listener { event: String::from("click"), message: 1 as Msg }],
        children: vec![],
    });
    let mut live = prev.create();
    assert_eq!(live_element(&live).listeners, vec![String::from("click")]);

    let next = VNode::Element(VElement {
        tag: String::from("button"),
        props: vec![],
        listeners: vec![
            Listener { event: String::from("click"), message: 2 as Msg },
            Listener { event: String::from("focus"), message: 3 as Msg },
        ],
        children: vec![],
    });
    next.patch(&prev, &mut live);
    assert_eq!(
        live_element(&live).listeners,
        vec![String::from("click"), String::from("focus")]
    );
}

#[test]
fn property_accessors_round_trip() {
    let p = Property::new(String::from("href"), Value::String(String::from("x")));
    assert_eq!(p.name(), "href");
    assert_eq!(p.value(), &Value::String(String::from("x")));
    let q = Property::new(String::from("hidden"), Value::from(true));
    assert_eq!(q.value(), &Value::Bool(true));
    let r = Property::new(String::from("id"), Value::from(String::from("main")));
    assert_eq!(r.value(), &Value::String(String::from("main")));
    let s = Property::new(String::from("rel"), Value::from("nofollow"));
    assert_eq!(s.value(), &Value::String(String::from("nofollow")));
}
