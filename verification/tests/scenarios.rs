use draco::application::{start, Application, Mailbox};
use draco::dom::{LiveElement, LiveNode};
use draco::property::{Property, Value};
use draco::vnode::{Listener, VElement, VNode};

/// A small application that fetches the commits of a repository: the
/// fetch itself is background work outside the runtime; its completion
/// comes back as a message carrying a result.
struct GitHubCommits {
    repo: String,
    response: Option<Result<Vec<Record>, String>>,
}

#[derive(Clone)]
struct Record {
    html_url: String,
    sha: String,
    message: String,
}

enum Message {
    Fetch,
    UpdateRepo(String),
    UpdateResponse(Result<Vec<Record>, String>),
}

impl GitHubCommits {
    fn new() -> Self {
        GitHubCommits {
            repo: String::from("rust-lang/rust"),
            response: None,
        }
    }
}

impl Application for GitHubCommits {
    type Message = Message;

    fn update(&mut self, message: Message, _mailbox: &mut Mailbox<Message>) {
        match message {
            // the fetch is scheduled outside; its completion arrives as
            // an UpdateResponse message
            Message::Fetch => {},
            Message::UpdateRepo(repo) => self.repo = repo,
            Message::UpdateResponse(response) => self.response = Some(response),
        }
    }

    fn view(&self) -> VNode<Message> {
        let input = VNode::Element(VElement {
            tag: String::from("input"),
            props: vec![Property::new(
                String::from("value"),
                Value::String(self.repo.clone()),
            )],
            listeners: Vec::new(),
            children: Vec::new(),
        });
        let button = VNode::Element(VElement {
            tag: String::from("button"),
            props: Vec::new(),
            listeners: vec![Listener {
                event: String::from("click"),
                message: Message::Fetch,
            }],
            children: vec![VNode::Text(String::from("Fetch"))],
        });
        let results = match &self.response {
            Some(Ok(records)) => VNode::Element(VElement {
                tag: String::from("ul"),
                props: Vec::new(),
                listeners: Vec::new(),
                children: records
                    .iter()
                    .map(|record| {
                        let line = format!(
                            "{} {}",
                            &record.sha[0..8],
                            record.message.lines().next().unwrap_or("")
                        );
                        VNode::Element(VElement {
                            tag: String::from("li"),
                            props: vec![Property::new(
                                String::from("data-url"),
                                Value::String(record.html_url.clone()),
                            )],
                            listeners: Vec::new(),
                            children: vec![VNode::Text(line)],
                        })
                    })
                    .collect(),
            }),
            Some(Err(err)) => VNode::Element(VElement {
                tag: String::from("pre"),
                props: Vec::new(),
                listeners: Vec::new(),
                children: vec![VNode::Text(format!("error: {}", err))],
            }),
            None => VNode::Element(VElement {
                tag: String::from("div"),
                props: Vec::new(),
                listeners: Vec::new(),
                children: Vec::new(),
            }),
        };
        VNode::Element(VElement {
            tag: String::from("form"),
            props: Vec::new(),
            listeners: vec![Listener {
                event: String::from("submit"),
                message: Message::Fetch,
            }],
            children: vec![input, button, results],
        })
    }
}

fn live_element(node: &LiveNode) -> &LiveElement {
    match node {
        LiveNode::Element(el) => el,
        LiveNode::Text(_) => panic!("expected a live element"),
    }
}

fn records(n: usize) -> Vec<Record> {
    (0..n)
        .map(|i| Record {
            html_url: format!("https://example.invalid/commit/{}", i),
            sha: format!("{:040}", i),
            message: format!("commit number {}\n\nlong body text", i),
        })
        .collect()
}

#[test]
fn initial_render_shows_the_form() {
    let instance = start(GitHubCommits::new());
    let form = live_element(instance.node());
    assert_eq!(form.tag, "form");
    assert_eq!(form.listeners, vec![String::from("submit")]);
    assert_eq!(form.children.len(), 3);
    let input = live_element(&form.children[0]);
    assert_eq!(input.tag, "input");
    assert_eq!(input.value, "rust-lang/rust");
    // no results list yet
    let results = live_element(&form.children[2]);
    assert_eq!(results.tag, "div");
    assert_eq!(results.children.len(), 0);
}

#[test]
fn successful_fetch_renders_ten_items() {
    let mut instance = start(GitHubCommits::new());
    instance.send(Message::Fetch);
    // background work resolves and folds its result into a message
    instance.send(Message::UpdateResponse(Ok(records(10))));
    let form = live_element(instance.node());
    let list = live_element(&form.children[2]);
    assert_eq!(list.tag, "ul");
    assert_eq!(list.children.len(), 10);
    for (i, item) in list.children.iter().enumerate() {
        let li = live_element(item);
        assert_eq!(li.tag, "li");
        match &li.children[0] {
            LiveNode::Text(t) => {
                let sha = format!("{:040}", i);
                let expected = format!("{} commit number {}", &sha[0..8], i);
                assert_eq!(t, &expected);
            },
            LiveNode::Element(_) => panic!("expected a live text node"),
        }
    }
}

#[test]
fn failed_fetch_renders_the_error_text() {
    let mut instance = start(GitHubCommits::new());
    instance.send(Message::UpdateResponse(Err(String::from("connection refused"))));
    let form = live_element(instance.node());
    let results = live_element(&form.children[2]);
    assert_eq!(results.tag, "pre");
    match &results.children[0] {
        LiveNode::Text(t) => assert_eq!(t, "error: connection refused"),
        LiveNode::Element(_) => panic!("expected a live text node"),
    }
}

#[test]
fn editing_the_repository_updates_the_input() {
    let mut instance = start(GitHubCommits::new());
    instance.send(Message::UpdateRepo(String::from("verus-lang/verus")));
    let form = live_element(instance.node());
    let input = live_element(&form.children[0]);
    assert_eq!(input.value, "verus-lang/verus");
}
