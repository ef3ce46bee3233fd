use indrajala::config::LastState;
use indrajala::event::{IndraHistoryRequest, IndraHistoryRequestMode, IndraUniqueDomainsRequest};
use indrajala::event::IndraEvent;
use indrajala::storage::{
    history_query, history_reply, last_reply, storage_action, storage_subscriptions, unique_domains_query,
    unique_domains_reply, StorageAction,
};

fn history(mode: IndraHistoryRequestMode, domain: &str, start: Option<i64>, limit: Option<u32>) -> IndraHistoryRequest {
    IndraHistoryRequest {
        domain: domain.to_string(),
        mode,
        data_type: "number/float".to_string(),
        time_jd_start: start,
        time_jd_end: None,
        limit,
    }
}

#[test]
fn history_sample_query_text() {
    let q = history_query(&history(IndraHistoryRequestMode::Sample, "$event/temp/%", Some(1), Some(100)));
    assert_eq!(
        q.unwrap(),
        "SELECT id, time_jd_start, data FROM (SELECT * FROM indra_events WHERE domain LIKE ? AND data_type = ? AND time_jd_start >= ? ORDER BY RANDOM() LIMIT ?) ORDER BY time_jd_start ASC"
    );
    let q = history_query(&history(IndraHistoryRequestMode::Sample, "$event/temp", None, None));
    assert_eq!(
        q.unwrap(),
        "SELECT id, time_jd_start, data FROM (SELECT * FROM indra_events WHERE domain = ? AND data_type = ?) ORDER BY time_jd_start ASC"
    );
}

#[test]
fn history_other_modes_are_not_served() {
    assert!(history_query(&history(IndraHistoryRequestMode::Single, "a", None, None)).is_none());
    assert!(history_query(&history(IndraHistoryRequestMode::Interval, "a", None, None)).is_none());
}

#[test]
fn unique_domains_query_text() {
    let q = unique_domains_query(&IndraUniqueDomainsRequest { domain: None, data_type: None });
    assert_eq!(q, "SELECT DISTINCT domain FROM indra_events");
    let q = unique_domains_query(&IndraUniqueDomainsRequest { domain: Some("%".to_string()), data_type: Some("n%".to_string()) });
    assert_eq!(q, "SELECT DISTINCT domain FROM indra_events WHERE domain LIKE ? AND data_type LIKE ?");
    let q = unique_domains_query(&IndraUniqueDomainsRequest { domain: None, data_type: Some("n%".to_string()) });
    assert_eq!(q, "SELECT DISTINCT domain FROM indra_events WHERE data_type LIKE ?");
}

#[test]
fn storage_actions() {
    let p = vec!["$event/#".to_string(), "home/+/temp".to_string()];
    assert_eq!(storage_action("$cmd/quit", &p), StorageAction::Quit);
    assert_eq!(storage_action("$trx/db/req/history", &p), StorageAction::History);
    assert_eq!(storage_action("$trx/db/req/uniquedomains", &p), StorageAction::UniqueDomains);
    assert_eq!(storage_action("$trx/db/req/last", &p), StorageAction::Last);
    assert_eq!(storage_action("$trx/db/req/other", &p), StorageAction::UnknownRequest);
    assert_eq!(storage_action("$event/sensor/temp", &p), StorageAction::Store);
    assert_eq!(storage_action("home/kitchen/temp", &p), StorageAction::Store);
    assert_eq!(storage_action("home/kitchen/hum", &p), StorageAction::Ignore);
    assert_eq!(storage_action("Web.1/x", &p), StorageAction::Ignore);
    assert_eq!(storage_action("$event/x", &Vec::new()), StorageAction::Ignore);
}

#[test]
fn sequence_numbers_increase() {
    let mut s = LastState::resume(5, Some(3));
    assert_eq!(s.last_seq_no, 5);
    assert_eq!(s.next_seq_no(), Some(6));
    assert_eq!(s.next_seq_no(), Some(7));
    assert_eq!(LastState::resume(5, Some(9)).last_seq_no, 9);
    assert_eq!(LastState::resume(5, None).last_seq_no, 5);
    let mut full = LastState { last_seq_no: i64::MAX };
    assert_eq!(full.next_seq_no(), None);
    assert_eq!(full.last_seq_no, i64::MAX);
}

fn request() -> IndraEvent {
    let mut e = IndraEvent::at(5);
    e.domain = "$trx/db/req/history".to_string();
    e.from_id = "Web.1/session7".to_string();
    e.uuid4 = "u-1".to_string();
    e
}

#[test]
fn replies_go_back_to_the_requester() {
    let r = history_reply(&request(), "SQLx.1", "$event/temp", "[[1.0,2.0]]".to_string(), 10, 11);
    assert_eq!(r.domain, "Web.1/session7");
    assert_eq!(r.from_id, "SQLx.1");
    assert_eq!(r.uuid4, "u-1");
    assert_eq!(r.parent_uuid4, Some("u-1".to_string()));
    assert_eq!(r.to_scope, "$event/temp");
    assert_eq!(r.data_type, "vector/tuple/jd/float");
    assert_eq!(r.data, "[[1.0,2.0]]");
    assert_eq!((r.time_jd_start, r.time_jd_end), (10, Some(11)));
    let u = unique_domains_reply(&request(), "SQLx.1", "[\"a\"]".to_string(), 1, 2);
    assert_eq!(u.data_type, "vector/string/uniquedomains");
    assert_eq!(u.domain, "Web.1/session7");
    assert_eq!(u.to_scope, "");
}

#[test]
fn last_reply_found_and_not_found() {
    let f = last_reply(&request(), "SQLx.1", Some("{}".to_string()), 1, 2);
    assert_eq!(f.data_type, "json/indraevent");
    assert_eq!(f.data, "{}");
    let n = last_reply(&request(), "SQLx.1", None, 1, 2);
    assert_eq!(n.data_type, "error/notfound");
    assert_eq!(n.data, "");
    assert_eq!(n.domain, "Web.1/session7");
}

#[test]
fn storage_subscription_list() {
    let s = |xs: &[&str]| xs.iter().map(|x| x.to_string()).collect::<Vec<String>>();
    let subs = storage_subscriptions(&"SQLx.1".to_string(), &s(&["$event/#", "$trx/db/#", "$event/#"]), &s(&["$forecast/#", "SQLx.1/#"]));
    assert_eq!(subs, s(&["$trx/db/#", "SQLx.1/#", "$event/#", "$forecast/#"]));
}
