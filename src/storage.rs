//! The persistence task's own decisions: the SQL text of its two queries and
//! the sequence numbers it hands out. Running the queries is left to the task.

use vstd::prelude::*;
use vstd::string::StringExecFns;
use crate::config::LastState;
use crate::topic::{any_match, any_matches, has_prefix, starts_with, str_equal, strings_view};
use crate::event::{IndraEvent, IndraHistoryRequest, IndraHistoryRequestMode, IndraUniqueDomainsRequest};

verus! {

/// Whether `s` holds the SQL wildcard `%`.
pub open spec fn has_percent(s: Seq<char>) -> bool {
    exists|i: int| 0 <= i < s.len() && s[i] == '%'
}

/// The comparison for a pattern: `LIKE` where it holds a wildcard, else `=`.
pub open spec fn comparison_of(s: Seq<char>) -> Seq<char> {
    if has_percent(s) {
        "LIKE"@
    } else {
        "="@
    }
}

/// The SQL text of a sampling history request: the matching rows, within the
/// time window where one is given, a random sample of at most `limit` of them
/// where a limit is given, in time order.
pub open spec fn history_sql(
    domain: Seq<char>,
    data_type: Seq<char>,
    has_start: bool,
    has_end: bool,
    has_limit: bool,
) -> Seq<char> {
    "SELECT id, time_jd_start, data FROM (SELECT * FROM indra_events WHERE domain "@
        + comparison_of(domain) + " ? AND data_type "@ + comparison_of(data_type) + " ?"@ + (
    if has_start {
        " AND time_jd_start >= ?"@
    } else {
        ""@
    }) + (if has_end {
        " AND time_jd_start <= ?"@
    } else {
        ""@
    }) + (if has_limit {
        " ORDER BY RANDOM() LIMIT ?"@
    } else {
        ""@
    }) + ") ORDER BY time_jd_start ASC"@
}

/// The SQL text of a unique-domains request, filtered by the patterns given.
pub open spec fn unique_domains_sql(has_domain: bool, has_data_type: bool) -> Seq<char> {
    "SELECT DISTINCT domain FROM indra_events"@ + if has_domain {
        if has_data_type {
            " WHERE domain LIKE ? AND data_type LIKE ?"@
        } else {
            " WHERE domain LIKE ?"@
        }
    } else if has_data_type {
        " WHERE data_type LIKE ?"@
    } else {
        ""@
    }
}

/// Whether `s` holds `%`.
fn contains_percent(s: &str) -> (r: bool)
    ensures
        r == has_percent(s@),
{
    let n = s.unicode_len();
    let mut i: usize = 0;
    while i < n
        invariant
            n == s@.len(),
            i <= n,
            forall|j: int| 0 <= j < i ==> s@[j] != '%',
        decreases n - i,
    {
        if s.get_char(i) == '%' {
            return true;
        }
        i = i + 1;
    }
    false
}

/// The comparison for a pattern.
fn comparison(s: &str) -> (r: &'static str)
    ensures
        r@ == comparison_of(s@),
{
    if contains_percent(s) {
        "LIKE"
    } else {
        "="
    }
}

/// The SQL text of a history request; `None` for the modes that are not
/// served (only sampling is).
pub fn history_query(req: &IndraHistoryRequest) -> (r: Option<String>)
    ensures
        match r {
            Some(q) => req.mode == IndraHistoryRequestMode::Sample && q@ == history_sql(
                req.domain@,
                req.data_type@,
                req.time_jd_start is Some,
                req.time_jd_end is Some,
                req.limit is Some,
            ),
            None => req.mode != IndraHistoryRequestMode::Sample,
        },
{
    match req.mode {
        IndraHistoryRequestMode::Sample => {},
        _ => {
            return None;
        },
    }
    let mut q = String::from_str(
        "SELECT id, time_jd_start, data FROM (SELECT * FROM indra_events WHERE domain ",
    );
    q = q.concat(comparison(req.domain.as_str()));
    q = q.concat(" ? AND data_type ");
    q = q.concat(comparison(req.data_type.as_str()));
    q = q.concat(" ?");
    q = q.concat(
        if req.time_jd_start.is_some() {
            " AND time_jd_start >= ?"
        } else {
            ""
        },
    );
    q = q.concat(
        if req.time_jd_end.is_some() {
            " AND time_jd_start <= ?"
        } else {
            ""
        },
    );
    q = q.concat(
        if req.limit.is_some() {
            " ORDER BY RANDOM() LIMIT ?"
        } else {
            ""
        },
    );
    q = q.concat(") ORDER BY time_jd_start ASC");
    Some(q)
}

/// The SQL text of a unique-domains request.
pub fn unique_domains_query(req: &IndraUniqueDomainsRequest) -> (r: String)
    ensures
        r@ == unique_domains_sql(req.domain is Some, req.data_type is Some),
{
    let q = String::from_str("SELECT DISTINCT domain FROM indra_events");
    let filter = if req.domain.is_some() {
        if req.data_type.is_some() {
            " WHERE domain LIKE ? AND data_type LIKE ?"
        } else {
            " WHERE domain LIKE ?"
        }
    } else if req.data_type.is_some() {
        " WHERE data_type LIKE ?"
    } else {
        ""
    };
    q.concat(filter)
}

impl LastState {
    /// The state to start from: the highest sequence number in the database,
    /// where it could be read, but never below the saved one.
    pub fn resume(saved: i64, in_database: Option<i64>) -> (r: LastState)
        ensures
            r.last_seq_no == match in_database {
                Some(d) => if d < saved {
                    saved
                } else {
                    d
                },
                None => saved,
            },
    {
        match in_database {
            Some(d) => if d < saved {
                LastState { last_seq_no: saved }
            } else {
                LastState { last_seq_no: d }
            },
            None => LastState { last_seq_no: saved },
        }
    }

    /// Hands out the next sequence number: one above the last, which it
    /// becomes; `None`, with nothing changed, once the numbers are used up.
    pub fn next_seq_no(&mut self) -> (r: Option<i64>)
        ensures
            old(self).last_seq_no < i64::MAX ==> r == Some((old(self).last_seq_no + 1) as i64)
                && final(self).last_seq_no == old(self).last_seq_no + 1,
            old(self).last_seq_no == i64::MAX ==> r is None && final(self).last_seq_no
                == old(self).last_seq_no,
    {
        if self.last_seq_no == i64::MAX {
            None
        } else {
            self.last_seq_no = self.last_seq_no + 1;
            Some(self.last_seq_no)
        }
    }
}

/// What the persistence task does with an event it receives.
#[derive(Clone, Copy, Debug, PartialEq, Eq, Structural)]
pub enum StorageAction {
    /// Save the state and stop.
    Quit,
    /// Answer a history request.
    History,
    /// Answer a unique-domains request.
    UniqueDomains,
    /// Answer a request for the latest event of a domain.
    Last,
    /// A request of the persistence namespace that is not served.
    UnknownRequest,
    /// Store the event (its domain is persistent) with the next sequence number.
    Store,
    /// Not for the persistence task.
    Ignore,
}

/// The action for an event of domain `d`, where `persistent` are the patterns
/// of the domains that are stored.
pub open spec fn storage_action_of(d: Seq<char>, persistent: Seq<Seq<char>>) -> StorageAction {
    if d == "$cmd/quit"@ {
        StorageAction::Quit
    } else if starts_with(d, "$trx/db/"@) {
        if d == "$trx/db/req/history"@ {
            StorageAction::History
        } else if starts_with(d, "$trx/db/req/uniquedomains"@) {
            StorageAction::UniqueDomains
        } else if starts_with(d, "$trx/db/req/last"@) {
            StorageAction::Last
        } else {
            StorageAction::UnknownRequest
        }
    } else if any_matches(d, persistent) {
        StorageAction::Store
    } else {
        StorageAction::Ignore
    }
}

/// What the persistence task does with an event of domain `domain`, given the
/// patterns of the persistent domains.
pub fn storage_action(domain: &str, persistent_domains: &Vec<String>) -> (r: StorageAction)
    ensures
        r == storage_action_of(domain@, strings_view(persistent_domains@)),
{
    if str_equal(domain, "$cmd/quit") {
        StorageAction::Quit
    } else if has_prefix(domain, "$trx/db/") {
        if str_equal(domain, "$trx/db/req/history") {
            StorageAction::History
        } else if has_prefix(domain, "$trx/db/req/uniquedomains") {
            StorageAction::UniqueDomains
        } else if has_prefix(domain, "$trx/db/req/last") {
            StorageAction::Last
        } else {
            StorageAction::UnknownRequest
        }
    } else if any_match(domain, persistent_domains) {
        StorageAction::Store
    } else {
        StorageAction::Ignore
    }
}

/// `r` is the persistence task's reply to `request`: addressed to the
/// requester's origin identity, sent as `task_name`, carrying the request's id
/// and linked to the request as its parent, stamped with the given times.
pub open spec fn is_reply_to(
    r: IndraEvent,
    request: IndraEvent,
    task_name: Seq<char>,
    time_jd_start: i64,
    time_jd_end: i64,
) -> bool {
    &&& r.domain@ == request.from_id@
    &&& r.from_id@ == task_name
    &&& r.uuid4@ == request.uuid4@
    &&& r.parent_uuid4 matches Some(p) && p@ == request.uuid4@
    &&& r.seq_no is None
    &&& r.auth_hash is None
    &&& r.time_jd_start == time_jd_start
    &&& r.time_jd_end == Some(time_jd_end)
}

/// A reply to `request` with the given scope, data type and data.
fn reply(
    request: &IndraEvent,
    task_name: &str,
    to_scope: &str,
    data_type: &str,
    data: String,
    time_jd_start: i64,
    time_jd_end: i64,
) -> (r: IndraEvent)
    ensures
        is_reply_to(r, *request, task_name@, time_jd_start, time_jd_end),
        r.to_scope@ == to_scope@,
        r.data_type@ == data_type@,
        r.data@ == data@,
{
    IndraEvent {
        domain: request.from_id.clone(),
        from_id: String::from_str(task_name),
        uuid4: request.uuid4.clone(),
        parent_uuid4: Some(request.uuid4.clone()),
        seq_no: None,
        to_scope: String::from_str(to_scope),
        time_jd_start,
        data_type: String::from_str(data_type),
        data,
        auth_hash: None,
        time_jd_end: Some(time_jd_end),
    }
}

/// The reply to a history request for `domain`: `samples` is the JSON array of
/// `(time_jd, value)` pairs, in time order.
pub fn history_reply(
    request: &IndraEvent,
    task_name: &str,
    domain: &str,
    samples: String,
    time_jd_start: i64,
    time_jd_end: i64,
) -> (r: IndraEvent)
    ensures
        is_reply_to(r, *request, task_name@, time_jd_start, time_jd_end),
        r.to_scope@ == domain@,
        r.data_type@ == "vector/tuple/jd/float"@,
        r.data@ == samples@,
{
    reply(request, task_name, domain, "vector/tuple/jd/float", samples, time_jd_start, time_jd_end)
}

/// The reply to a unique-domains request: `domains` is the JSON array of the
/// distinct domains found.
pub fn unique_domains_reply(
    request: &IndraEvent,
    task_name: &str,
    domains: String,
    time_jd_start: i64,
    time_jd_end: i64,
) -> (r: IndraEvent)
    ensures
        is_reply_to(r, *request, task_name@, time_jd_start, time_jd_end),
        r.to_scope@ == ""@,
        r.data_type@ == "vector/string/uniquedomains"@,
        r.data@ == domains@,
{
    reply(
        request,
        task_name,
        "",
        "vector/string/uniquedomains",
        domains,
        time_jd_start,
        time_jd_end,
    )
}

/// The reply to a request for the latest event of a domain: `found` is that
/// event as JSON, or `None` when the domain has none, which the reply reports
/// as `error/notfound` with empty data.
pub fn last_reply(
    request: &IndraEvent,
    task_name: &str,
    found: Option<String>,
    time_jd_start: i64,
    time_jd_end: i64,
) -> (r: IndraEvent)
    ensures
        is_reply_to(r, *request, task_name@, time_jd_start, time_jd_end),
        r.to_scope@ == ""@,
        match found {
            Some(j) => r.data_type@ == "json/indraevent"@ && r.data@ == j@,
            None => r.data_type@ == "error/notfound"@ && r.data@ == ""@,
        },
{
    match found {
        Some(j) => reply(request, task_name, "", "json/indraevent", j, time_jd_start, time_jd_end),
        None => reply(
            request,
            task_name,
            "",
            "error/notfound",
            String::from_str(""),
            time_jd_start,
            time_jd_end,
        ),
    }
}

/// `s` with each entry of `xs` appended in turn, unless it is already there.
pub open spec fn add_missing(s: Seq<Seq<char>>, xs: Seq<Seq<char>>) -> Seq<Seq<char>>
    decreases xs.len(),
{
    if xs.len() == 0 {
        s
    } else {
        add_missing(
            if s.contains(xs[0]) {
                s
            } else {
                s.push(xs[0])
            },
            xs.drop_first(),
        )
    }
}

/// The persistence task's subscriptions: its request namespace, its own
/// namespace, then each persistent and each volatile domain not yet listed.
pub open spec fn storage_subscriptions_of(
    name: Seq<char>,
    persistent: Seq<Seq<char>>,
    volatile: Seq<Seq<char>>,
) -> Seq<Seq<char>> {
    add_missing(add_missing(seq!["$trx/db/#"@, name + "/#"@], persistent), volatile)
}

/// Whether `v` holds an entry equal to `x`.
fn contains_string(v: &Vec<String>, x: &String) -> (r: bool)
    ensures
        r == strings_view(v@).contains(x@),
{
    let ghost sv = strings_view(v@);
    let mut j: usize = 0;
    while j < v.len()
        invariant
            sv == strings_view(v@),
            sv.len() == v.len(),
            j <= v.len(),
            forall|q: int| 0 <= q < j ==> sv[q] != x@,
        decreases v.len() - j,
    {
        if v[j] == *x {
            assert(sv[j as int] == x@);
            return true;
        }
        j = j + 1;
    }
    false
}

/// Appends each entry of `xs` that `subs` does not hold yet.
fn add_missing_entries(subs: &mut Vec<String>, xs: &Vec<String>)
    ensures
        strings_view(final(subs)@) == add_missing(strings_view(old(subs)@), strings_view(xs@)),
{
    let ghost xv = strings_view(xs@);
    let ghost goal = add_missing(strings_view(subs@), xv);
    let mut i: usize = 0;
    assert(xv.skip(0) =~= xv);
    while i < xs.len()
        invariant
            xv == strings_view(xs@),
            xv.len() == xs.len(),
            i <= xs.len(),
            add_missing(strings_view(subs@), xv.skip(i as int)) == goal,
        decreases xs.len() - i,
    {
        assert(xv.skip(i as int).drop_first() =~= xv.skip(i + 1));
        assert(xv.skip(i as int)[0] == xv[i as int]);
        if !contains_string(subs, &xs[i]) {
            let ghost before = subs@;
            subs.push(xs[i].clone());
            assert(strings_view(subs@) =~= strings_view(before).push(xv[i as int]));
        }
        i = i + 1;
    }
    assert(xv.skip(i as int) =~= Seq::<Seq<char>>::empty());
}

/// The subscriptions of the persistence task named `name`.
pub fn storage_subscriptions(name: &String, persistent: &Vec<String>, volatile: &Vec<String>) -> (r:
    Vec<String>)
    ensures
        strings_view(r@) == storage_subscriptions_of(
            name@,
            strings_view(persistent@),
            strings_view(volatile@),
        ),
{
    let mut subs: Vec<String> = Vec::new();
    subs.push(String::from_str("$trx/db/#"));
    subs.push(name.clone().concat("/#"));
    assert(strings_view(subs@) =~= seq!["$trx/db/#"@, name@ + "/#"@]);
    add_missing_entries(&mut subs, persistent);
    add_missing_entries(&mut subs, volatile);
    subs
}

} // verus!
