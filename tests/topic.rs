use indrajala::event::IndraEvent;
use indrajala::topic::{first_segment_of, str_equal};

fn strings(xs: &[&str]) -> Vec<String> {
    xs.iter().map(|x| x.to_string()).collect()
}

#[test]
fn plus_matches_one_segment() {
    assert!(IndraEvent::mqcmp("a/b/c", "a/+/c"));
    assert!(!IndraEvent::mqcmp("a/b/c", "a/+/d"));
    assert!(IndraEvent::mqcmp("x/y", "+/y"));
}

#[test]
fn hash_matches_the_rest() {
    assert!(IndraEvent::mqcmp("a/b/c", "a/#"));
    assert!(IndraEvent::mqcmp("a", "a/#"));
    assert!(IndraEvent::mqcmp("$event/sensor/temp", "$event/#"));
}

#[test]
fn shorter_pattern_does_not_match() {
    assert!(!IndraEvent::mqcmp("a/b", "a"));
    assert!(!IndraEvent::mqcmp("a", "a/b"));
}

#[test]
fn literal_topics_match_exactly() {
    assert!(IndraEvent::mqcmp("a/b", "a/b"));
    assert!(!IndraEvent::mqcmp("a/b", "a/c"));
    assert!(IndraEvent::mqcmp("", ""));
    assert!(IndraEvent::mqcmp("", "#"));
}

#[test]
fn trailing_plus_matches_last_segment() {
    assert!(IndraEvent::mqcmp("a/b", "a/+"));
    assert!(!IndraEvent::mqcmp("a/b/c", "a/+"));
    assert!(!IndraEvent::mqcmp("a", "a/+"));
}

#[test]
fn wildcard_in_topic_never_matches() {
    assert!(!IndraEvent::mqcmp("a/+/c", "a/+/c"));
    assert!(!IndraEvent::mqcmp("a/#", "a/#"));
    assert!(!IndraEvent::mqcmp("#", "#"));
    assert!(!IndraEvent::mqcmp("+", "+"));
}

#[test]
fn non_ascii_topics_do_not_panic() {
    assert!(!IndraEvent::mqcmp("éa", "é"));
    assert!(IndraEvent::mqcmp("é/a", "é/+"));
}

#[test]
fn block_vetoes_a_matching_subscription() {
    let subs = strings(&["a/#"]);
    let blocks = strings(&["a/b/#"]);
    assert!(!IndraEvent::check_route("a/b/c", "T", &subs, Some(&blocks)));
    assert!(IndraEvent::check_route("a/x/c", "T", &subs, Some(&blocks)));
}

#[test]
fn two_matching_subscriptions_route() {
    let subs = strings(&["a/#", "a/+/c"]);
    let blocks = strings(&["z/#"]);
    assert!(IndraEvent::check_route("a/b/c", "T", &subs, Some(&blocks)));
    assert!(IndraEvent::check_route("a/b/c", "T", &subs, None));
}

#[test]
fn no_subscription_no_route() {
    let subs: Vec<String> = Vec::new();
    assert!(!IndraEvent::check_route("a/b/c", "T", &subs, None));
    let subs = strings(&["b/#"]);
    assert!(!IndraEvent::check_route("a/b/c", "T", &subs, None));
}

#[test]
fn first_segment_stops_at_separator() {
    assert_eq!(first_segment_of("Mqtt.1/broker", '/'), "Mqtt.1");
    assert_eq!(first_segment_of("plain", '/'), "plain");
    assert_eq!(first_segment_of("/lead", '/'), "");
    assert_eq!(first_segment_of("host.example.org", '.'), "host");
}

#[test]
fn string_equality() {
    assert!(str_equal("abc", "abc"));
    assert!(!str_equal("abc", "abd"));
    assert!(!str_equal("abc", "ab"));
}
