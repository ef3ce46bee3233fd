use indrajala::event::IndraEvent;
use indrajala::router::{Router, TaskDescriptor};

fn strings(xs: &[&str]) -> Vec<String> {
    xs.iter().map(|x| x.to_string()).collect()
}

fn task(name: &str, active: bool, subs: &[&str]) -> TaskDescriptor {
    TaskDescriptor { name: name.to_string(), active, subs: strings(subs) }
}

fn event(domain: &str, from_id: &str, data: &str) -> IndraEvent {
    let mut e = IndraEvent::at(0);
    e.domain = domain.to_string();
    e.from_id = from_id.to_string();
    e.data = data.to_string();
    e
}

#[test]
fn event_reaches_subscriber_only() {
    let mut r = Router::new(vec![
        task("Mqtt.1", true, &["Mqtt.1/#"]),
        task("Storage.1", true, &["$event/#"]),
        task("Web.1", true, &["Web.1/#"]),
    ]);
    let d = r.dispatch(&event("$event/sensor/temp", "Mqtt.1/broker", "21.5"));
    assert_eq!(d.recipients, vec![1]);
    assert!(d.origin_known);
    assert!(!d.quit);
    assert!(!r.quitting);
}

#[test]
fn quit_reaches_every_active_task_once() {
    let mut r = Router::new(vec![
        task("A", true, &["A/#"]),
        task("B", false, &["B/#"]),
        task("C", true, &[]),
        task("D", true, &["$cmd/#", "$cmd/quit"]),
    ]);
    let d = r.dispatch(&event("$cmd/quit", "A/main", ""));
    assert_eq!(d.recipients, vec![0, 2, 3]);
    assert!(d.quit);
    assert!(r.quitting);
}

#[test]
fn quit_from_unknown_origin_does_not_stop_router() {
    let mut r = Router::new(vec![task("A", true, &["A/#"])]);
    let d = r.dispatch(&event("$cmd/quit", "Nobody/x", ""));
    assert_eq!(d.recipients, vec![0]);
    assert!(!d.quit);
    assert!(!d.origin_known);
    assert!(!r.quitting);
}

#[test]
fn no_implicit_self_delivery() {
    let mut r = Router::new(vec![task("A", true, &["A/#"]), task("B", true, &["x/#"])]);
    let d = r.dispatch(&event("x/y", "A/1", ""));
    assert_eq!(d.recipients, vec![1]);
    let mut r = Router::new(vec![task("A", true, &["A/#", "x/#"])]);
    let d = r.dispatch(&event("x/y", "A/1", ""));
    assert_eq!(d.recipients, vec![0]);
}

#[test]
fn subscribe_then_publish() {
    let mut r = Router::new(vec![task("A", true, &["A/#"]), task("B", true, &["B/#"])]);
    let d = r.dispatch(&event("$cmd/subs", "B/ws", "[\"news/#\", \"x\"]"));
    assert!(d.recipients.is_empty());
    assert_eq!(r.tasks[1].subs, strings(&["B/#", "news/#", "x"]));
    assert_eq!(r.tasks[0].subs, strings(&["A/#"]));
    let d = r.dispatch(&event("news/today", "A/1", "hello"));
    assert_eq!(d.recipients, vec![1]);
}

#[test]
fn unsubscribe_removes_one_entry_and_keeps_duplicates() {
    let mut r = Router::new(vec![task("A", true, &["A/#", "x", "y", "x"])]);
    r.dispatch(&event("$cmd/unsubs", "A/1", "[\"x\", \"absent\"]"));
    assert_eq!(r.tasks[0].subs, strings(&["A/#", "y", "x"]));
    r.dispatch(&event("$cmd/unsubs", "A/1", "[\"x\"]"));
    assert_eq!(r.tasks[0].subs, strings(&["A/#", "y"]));
}

#[test]
fn malformed_subscription_payload_changes_nothing() {
    let mut r = Router::new(vec![task("A", true, &["A/#"])]);
    r.dispatch(&event("$cmd/subs", "A/1", "not json"));
    assert_eq!(r.tasks[0].subs, strings(&["A/#"]));
    r.dispatch(&event("$cmd/subs", "A/1", "[1, 2]"));
    assert_eq!(r.tasks[0].subs, strings(&["A/#"]));
}

#[test]
fn subscription_command_of_inactive_task_is_ignored() {
    let mut r = Router::new(vec![task("A", false, &["A/#"])]);
    r.dispatch(&event("$cmd/subs", "A/1", "[\"n\"]"));
    assert_eq!(r.tasks[0].subs, strings(&["A/#"]));
}

#[test]
fn echo_goes_back_to_requester_only() {
    let mut r = Router::new(vec![
        task("A", true, &["A/#", "$trx/#"]),
        task("B", true, &["B/#", "A/#"]),
    ]);
    let d = r.dispatch(&event("B/reply", "$trx/echo", ""));
    assert_eq!(d.recipients, vec![1]);
    assert!(d.origin_known);
}

#[test]
fn inactive_task_gets_nothing() {
    let mut r = Router::new(vec![task("A", false, &["x/#"]), task("B", true, &["x/#"])]);
    let d = r.dispatch(&event("x/1", "C/1", ""));
    assert_eq!(d.recipients, vec![1]);
    assert!(!d.origin_known);
}

#[test]
fn dispatch_with_given_payload() {
    let mut r = Router::new(vec![task("A", true, &["A/#"])]);
    r.dispatch_with(&event("$cmd/subs", "A/1", "ignored"), Some(strings(&["p/#"])));
    assert_eq!(r.tasks[0].subs, strings(&["A/#", "p/#"]));
    let d = r.dispatch_with(&event("$cmd/subs", "A/1", "[\"q\"]"), None);
    assert_eq!(r.tasks[0].subs, strings(&["A/#", "p/#"]));
    assert!(d.recipients.is_empty());
}

#[test]
fn task_descriptor_default_subscription() {
    let t = TaskDescriptor::new("Ws.1".to_string(), true, &strings(&["$event/#"]));
    assert_eq!(t.subs, strings(&["Ws.1/#", "$event/#"]));
    assert!(t.has_default_subscription());
    let t = task("Ws.1", true, &["$event/#"]);
    assert!(!t.has_default_subscription());
}

#[test]
fn malformed_subscription_command_is_dropped() {
    let mut r = Router::new(vec![task("A", true, &["#"]), task("B", true, &["$cmd/#"])]);
    let d = r.dispatch(&event("$cmd/subs", "A/1", "{not a list"));
    assert!(d.recipients.is_empty());
    assert_eq!(r.tasks[0].subs, strings(&["#"]));
    let d = r.dispatch(&event("$cmd/unsubs", "A/1", "17"));
    assert!(d.recipients.is_empty());
    let d = r.dispatch(&event("$cmd/subs", "A/1", "[\"z\"]"));
    assert_eq!(d.recipients, vec![0, 1]);
    assert_eq!(r.tasks[0].subs, strings(&["#", "z"]));
}

#[test]
fn echo_is_forwarded_whatever_its_data() {
    let mut r = Router::new(vec![task("$cmd", true, &["x/#"]), task("B", true, &["#"])]);
    let d = r.dispatch(&event("$cmd/subs", "$trx/echo", "not a list"));
    assert_eq!(d.recipients, vec![0]);
    assert_eq!(r.tasks[0].subs, strings(&["x/#"]));
}
