//! The router: the one place that sees every event, decides which tasks get a
//! copy, applies subscription changes that tasks send about themselves, and
//! notices the shutdown command.

use vstd::prelude::*;
use vstd::string::StringExecFns;
use crate::event::IndraEvent;
use crate::topic::{
    any_matches, first_segment, first_segment_of, route_accepts, str_equal, strings_view,
    topic_matches,
};

verus! {

/// Shutdown command, fanned out to every active task.
pub const QUIT_TOPIC: &'static str = "$cmd/quit";

/// Adds the topics of a JSON array of strings to the sender's subscriptions.
pub const SUBS_TOPIC: &'static str = "$cmd/subs";

/// Removes the first matching entry for each topic of a JSON array of strings.
pub const UNSUBS_TOPIC: &'static str = "$cmd/unsubs";

/// Origin of a round-trip probe; the reply goes back to the task named by the
/// first segment of the domain.
pub const ECHO_ID: &'static str = "$trx/echo";

/// What the JSON array of strings in `s` reads as, or `None` when `s` is not one.
pub uninterp spec fn json_string_list(s: Seq<char>) -> Option<Seq<Seq<char>>>;

/// Relies on `serde_json::from_str` reading a JSON array of strings; the
/// outcome depends on the text alone.
#[verifier::external_body]
fn parse_string_list(s: &str) -> (r: Option<Vec<String>>)
    ensures
        match r {
            Some(v) => json_string_list(s@) == Some(strings_view(v@)),
            None => json_string_list(s@) is None,
        },
{
    serde_json::from_str::<Vec<String>>(s).ok()
}

/// A task as the router sees it.
#[derive(Clone, Debug)]
pub struct TaskDescriptor {
    /// Stable identity; its default subscription is `<name>/#`.
    pub name: String,
    /// An inactive task takes no part in dispatch.
    pub active: bool,
    /// Subscription patterns, in order.
    pub subs: Vec<String>,
}

/// The abstract value of a task descriptor.
pub ghost struct TaskModel {
    pub name: Seq<char>,
    pub active: bool,
    pub subs: Seq<Seq<char>>,
}

impl View for TaskDescriptor {
    type V = TaskModel;

    open spec fn view(&self) -> TaskModel {
        TaskModel { name: self.name@, active: self.active, subs: strings_view(self.subs@) }
    }
}

/// A task's default subscription: everything under its own name.
pub open spec fn default_subscription(name: Seq<char>) -> Seq<char> {
    name + "/#"@
}

impl TaskDescriptor {
    /// A task subscribed to `<name>/#` and then to `topics`.
    pub fn new(name: String, active: bool, topics: &Vec<String>) -> (r: TaskDescriptor)
        ensures
            r.name@ == name@,
            r.active == active,
            r@.subs == seq![default_subscription(name@)] + strings_view(topics@),
    {
        let own = name.clone().concat("/#");
        let mut subs: Vec<String> = Vec::new();
        subs.push(own);
        append_entries(&mut subs, topics);
        assert(strings_view(seq![own]) =~= seq![default_subscription(name@)]);
        TaskDescriptor { name, active, subs }
    }

    /// Whether the task holds its default subscription; the router warns of a
    /// task that does not.
    pub fn has_default_subscription(&self) -> (r: bool)
        ensures
            r == self@.subs.contains(default_subscription(self@.name)),
    {
        let own = self.name.clone().concat("/#");
        let ghost sv = strings_view(self.subs@);
        let mut j: usize = 0;
        while j < self.subs.len()
            invariant
                sv == strings_view(self.subs@),
                own@ == default_subscription(self.name@),
                j <= self.subs.len(),
                forall|q: int| 0 <= q < j ==> sv[q] != own@,
            decreases self.subs.len() - j,
        {
            if self.subs[j] == own {
                assert(sv[j as int] == own@);
                return true;
            }
            j = j + 1;
        }
        false
    }
}

/// The name of the task an event comes from: the first segment of its domain for
/// an echo, else the first segment of its origin identity.
pub open spec fn origin_name(domain: Seq<char>, from_id: Seq<char>) -> Seq<char> {
    if from_id == ECHO_ID@ {
        first_segment(domain, '/')
    } else {
        first_segment(from_id, '/')
    }
}

/// The task is active and is the one the event comes from.
pub open spec fn is_origin(t: TaskModel, domain: Seq<char>, from_id: Seq<char>) -> bool {
    t.active && t.name == origin_name(domain, from_id)
}

/// `s` without its first entry equal to `x` (unchanged when there is none).
pub open spec fn remove_first(s: Seq<Seq<char>>, x: Seq<char>) -> Seq<Seq<char>>
    decreases s.len(),
{
    if s.len() == 0 {
        s
    } else if s[0] == x {
        s.drop_first()
    } else {
        seq![s[0]] + remove_first(s.drop_first(), x)
    }
}

/// `remove_first` for each entry of `xs`, in order.
pub open spec fn remove_each(s: Seq<Seq<char>>, xs: Seq<Seq<char>>) -> Seq<Seq<char>>
    decreases xs.len(),
{
    if xs.len() == 0 {
        s
    } else {
        remove_each(remove_first(s, xs[0]), xs.drop_first())
    }
}

/// A task's subscriptions after the event, where `payload` is what the event's
/// data reads as. Only a subscription command that the task sends itself (not
/// an echo) changes them.
pub open spec fn next_subs(
    t: TaskModel,
    domain: Seq<char>,
    from_id: Seq<char>,
    payload: Option<Seq<Seq<char>>>,
) -> Seq<Seq<char>> {
    if is_origin(t, domain, from_id) && from_id != ECHO_ID@ && payload is Some {
        if domain == SUBS_TOPIC@ {
            t.subs + payload->0
        } else if domain == UNSUBS_TOPIC@ {
            remove_each(t.subs, payload->0)
        } else {
            t.subs
        }
    } else {
        t.subs
    }
}

/// The task after the event.
pub open spec fn next_task(
    t: TaskModel,
    domain: Seq<char>,
    from_id: Seq<char>,
    payload: Option<Seq<Seq<char>>>,
) -> TaskModel {
    TaskModel { subs: next_subs(t, domain, from_id, payload), ..t }
}

/// A subscription command whose data is not a list of topics: it is dropped.
pub open spec fn is_malformed_command(domain: Seq<char>, payload: Option<Seq<Seq<char>>>) -> bool {
    (domain == SUBS_TOPIC@ || domain == UNSUBS_TOPIC@) && payload is None
}

/// The task gets a copy of the event: an echo goes back to its origin only,
/// whatever its data; a malformed subscription command goes nowhere; anything
/// else goes where the task's subscriptions (as they were before the event)
/// route it, and the shutdown command goes everywhere.
pub open spec fn delivers(
    t: TaskModel,
    domain: Seq<char>,
    from_id: Seq<char>,
    payload: Option<Seq<Seq<char>>>,
) -> bool {
    t.active && if from_id == ECHO_ID@ {
        t.name == first_segment(domain, '/')
    } else {
        !is_malformed_command(domain, payload) && (route_accepts(domain, t.subs, None) || domain
            == QUIT_TOPIC@)
    }
}

/// The indices, below `n` and in increasing order, of the tasks that get a copy.
pub open spec fn delivery_list(
    ts: Seq<TaskModel>,
    domain: Seq<char>,
    from_id: Seq<char>,
    payload: Option<Seq<Seq<char>>>,
    n: int,
) -> Seq<usize>
    decreases n,
{
    if n <= 0 {
        Seq::empty()
    } else if delivers(ts[n - 1], domain, from_id, payload) {
        delivery_list(ts, domain, from_id, payload, n - 1).push((n - 1) as usize)
    } else {
        delivery_list(ts, domain, from_id, payload, n - 1)
    }
}

/// Some task (active or not) bears the origin name of the event.
pub open spec fn origin_known(ts: Seq<TaskModel>, domain: Seq<char>, from_id: Seq<char>) -> bool {
    exists|k: int| 0 <= k < ts.len() && #[trigger] ts[k].name == origin_name(domain, from_id)
}

/// The event is the shutdown command, sent by an active task.
pub open spec fn quit_requested(ts: Seq<TaskModel>, domain: Seq<char>, from_id: Seq<char>) -> bool {
    domain == QUIT_TOPIC@ && exists|k: int|
        0 <= k < ts.len() && #[trigger] is_origin(ts[k], domain, from_id)
}

/// Removing the first entry equal to `x` where it stands at `j`.
proof fn lemma_remove_first_at(s: Seq<Seq<char>>, x: Seq<char>, j: int)
    requires
        0 <= j < s.len(),
        s[j] == x,
        forall|i: int| 0 <= i < j ==> s[i] != x,
    ensures
        remove_first(s, x) == s.remove(j),
    decreases j,
{
    if j == 0 {
        assert(s.drop_first() =~= s.remove(0));
    } else {
        let t = s.drop_first();
        assert forall|i: int| 0 <= i < j - 1 implies t[i] != x by {
            assert(t[i] == s[i + 1]);
        }
        lemma_remove_first_at(t, x, j - 1);
        assert(seq![s[0]] + t.remove(j - 1) =~= s.remove(j));
    }
}

/// Removing an entry that is not there changes nothing.
proof fn lemma_remove_first_absent(s: Seq<Seq<char>>, x: Seq<char>)
    requires
        forall|i: int| 0 <= i < s.len() ==> s[i] != x,
    ensures
        remove_first(s, x) == s,
    decreases s.len(),
{
    if s.len() > 0 {
        let t = s.drop_first();
        assert forall|i: int| 0 <= i < t.len() implies t[i] != x by {
            assert(t[i] == s[i + 1]);
        }
        lemma_remove_first_absent(t, x);
        assert(seq![s[0]] + t =~= s);
    }
}

/// Removes the first entry of `subs` equal to `x`, if any.
fn remove_first_entry(subs: &mut Vec<String>, x: &String)
    ensures
        strings_view(final(subs)@) == remove_first(strings_view(old(subs)@), x@),
{
    let ghost orig = subs@;
    let ghost sv = strings_view(subs@);
    let mut j: usize = 0;
    while j < subs.len()
        invariant
            subs@ == orig,
            orig == old(subs)@,
            sv == strings_view(orig),
            sv.len() == subs.len(),
            j <= subs.len(),
            forall|i: int| 0 <= i < j ==> sv[i] != x@,
        decreases subs.len() - j,
    {
        if subs[j] == *x {
            proof {
                lemma_remove_first_at(sv, x@, j as int);
            }
            subs.remove(j);
            assert(strings_view(subs@) =~= sv.remove(j as int));
            return;
        }
        j = j + 1;
    }
    proof {
        lemma_remove_first_absent(sv, x@);
    }
}

/// Removes, for each entry of `xs` in turn, the first equal entry of `subs`.
fn remove_entries(subs: &mut Vec<String>, xs: &Vec<String>)
    ensures
        strings_view(final(subs)@) == remove_each(strings_view(old(subs)@), strings_view(xs@)),
{
    let ghost xv = strings_view(xs@);
    let ghost goal = remove_each(strings_view(subs@), xv);
    let mut i: usize = 0;
    assert(xv.skip(0) =~= xv);
    while i < xs.len()
        invariant
            xv == strings_view(xs@),
            xv.len() == xs.len(),
            i <= xs.len(),
            remove_each(strings_view(subs@), xv.skip(i as int)) == goal,
        decreases xs.len() - i,
    {
        assert(xv.skip(i as int).drop_first() =~= xv.skip(i + 1));
        assert(xv.skip(i as int)[0] == xv[i as int]);
        remove_first_entry(subs, &xs[i]);
        i = i + 1;
    }
    assert(xv.skip(i as int) =~= Seq::<Seq<char>>::empty());
}

/// Appends the entries of `xs` to `subs`.
fn append_entries(subs: &mut Vec<String>, xs: &Vec<String>)
    ensures
        strings_view(final(subs)@) == strings_view(old(subs)@) + strings_view(xs@),
{
    let ghost orig = subs@;
    let mut i: usize = 0;
    while i < xs.len()
        invariant
            orig == old(subs)@,
            i <= xs.len(),
            subs@ == orig + xs@.take(i as int),
        decreases xs.len() - i,
    {
        let c = xs[i].clone();
        subs.push(c);
        assert(xs@.take(i + 1) =~= xs@.take(i as int).push(xs@[i as int]));
        assert(subs@ =~= orig + xs@.take(i + 1));
        i = i + 1;
    }
    assert(xs@.take(i as int) =~= xs@);
    assert(strings_view(subs@) =~= strings_view(orig) + strings_view(xs@));
}

/// The task table after the event.
pub open spec fn next_tasks(
    ts: Seq<TaskModel>,
    domain: Seq<char>,
    from_id: Seq<char>,
    payload: Option<Seq<Seq<char>>>,
) -> Seq<TaskModel> {
    ts.map_values(|t: TaskModel| next_task(t, domain, from_id, payload))
}

/// What one dispatch pass decided.
#[derive(Clone, Debug)]
pub struct Dispatch {
    /// Indices of the tasks that get a copy, in task order.
    pub recipients: Vec<usize>,
    /// Some task bears the event's origin name.
    pub origin_known: bool,
    /// The pass saw the shutdown command from an active task.
    pub quit: bool,
}

/// Holds the tasks and their live subscription table.
pub struct Router {
    pub tasks: Vec<TaskDescriptor>,
    /// Set once the shutdown command has been seen; the router loop then ends.
    pub quitting: bool,
}

impl Router {
    /// The abstract value of the task table.
    pub open spec fn model(&self) -> Seq<TaskModel> {
        self.tasks@.map_values(|t: TaskDescriptor| t@)
    }
}

/// The abstract value of a parsed payload.
pub open spec fn payload_view(p: Option<Vec<String>>) -> Option<Seq<Seq<char>>> {
    match p {
        Some(v) => Some(strings_view(v@)),
        None => None,
    }
}

/// What the data of an event reads as, where its domain is a subscription
/// command; `None` for any other event.
pub open spec fn control_payload(domain: Seq<char>, data: Seq<char>) -> Option<Seq<Seq<char>>> {
    if domain == SUBS_TOPIC@ || domain == UNSUBS_TOPIC@ {
        json_string_list(data)
    } else {
        None
    }
}

/// The delivery list holds, in increasing order and once each, exactly the
/// indices below `n` of the tasks that get a copy.
pub proof fn lemma_delivery_list(
    ts: Seq<TaskModel>,
    domain: Seq<char>,
    from_id: Seq<char>,
    payload: Option<Seq<Seq<char>>>,
    n: int,
)
    requires
        0 <= n <= ts.len(),
        ts.len() <= usize::MAX,
    ensures
        forall|i: int, j: int|
            0 <= i < j < delivery_list(ts, domain, from_id, payload, n).len() ==> delivery_list(
                ts,
                domain,
                from_id,
                payload,
                n,
            )[i] < delivery_list(ts, domain, from_id, payload, n)[j],
        forall|i: int|
            0 <= i < delivery_list(ts, domain, from_id, payload, n).len() ==> delivery_list(
                ts,
                domain,
                from_id,
                payload,
                n,
            )[i] < n,
        delivery_list(ts, domain, from_id, payload, n).no_duplicates(),
        forall|k: int|
            0 <= k < n ==> (delivery_list(ts, domain, from_id, payload, n).contains(k as usize) <==> delivers(
                #[trigger] ts[k],
                domain,
                from_id,
                payload,
            )),
    decreases n,
{
    if n > 0 {
        lemma_delivery_list(ts, domain, from_id, payload, n - 1);
        let prev = delivery_list(ts, domain, from_id, payload, n - 1);
        let cur = delivery_list(ts, domain, from_id, payload, n);
        assert forall|k: int| 0 <= k < n implies (cur.contains(k as usize) <==> delivers(
            #[trigger] ts[k],
            domain,
            from_id,
            payload,
        )) by {
            if k < n - 1 {
                if cur.contains(k as usize) {
                    let i = choose|i: int| 0 <= i < cur.len() && cur[i] == k as usize;
                    if i < prev.len() {
                        assert(prev[i] == cur[i]);
                    }
                }
                if prev.contains(k as usize) {
                    let i = choose|i: int| 0 <= i < prev.len() && prev[i] == k as usize;
                    assert(cur[i] == prev[i]);
                }
            } else {
                if delivers(ts[k], domain, from_id, payload) {
                    assert(cur[cur.len() - 1] == k as usize);
                } else if cur.contains(k as usize) {
                    let i = choose|i: int| 0 <= i < cur.len() && cur[i] == k as usize;
                    assert(cur[i] == prev[i]);
                }
            }
        }
        assert forall|i: int, j: int| 0 <= i < j < cur.len() implies cur[i] < cur[j] by {
            if j < prev.len() {
                assert(cur[i] == prev[i] && cur[j] == prev[j]);
            } else {
                assert(cur[i] == prev[i]);
            }
        }
        assert forall|i: int| 0 <= i < cur.len() implies cur[i] < n by {
            if i < prev.len() {
                assert(cur[i] == prev[i]);
            }
        }
    }
}

/// The shutdown command, unless it is an echo, reaches every active task exactly
/// once, whatever its subscriptions, and no inactive task.
pub proof fn lemma_quit_reaches_every_active_task(
    ts: Seq<TaskModel>,
    from_id: Seq<char>,
    payload: Option<Seq<Seq<char>>>,
)
    requires
        from_id != ECHO_ID@,
        ts.len() <= usize::MAX,
    ensures
        delivery_list(ts, QUIT_TOPIC@, from_id, payload, ts.len() as int).no_duplicates(),
        forall|k: int|
            0 <= k < ts.len() ==> (delivery_list(
                ts,
                QUIT_TOPIC@,
                from_id,
                payload,
                ts.len() as int,
            ).contains(k as usize) <==> #[trigger] ts[k].active),
{
    lemma_commands_differ();
    lemma_delivery_list(ts, QUIT_TOPIC@, from_id, payload, ts.len() as int);
    assert forall|k: int| 0 <= k < ts.len() implies delivers(
        #[trigger] ts[k],
        QUIT_TOPIC@,
        from_id,
        payload,
    ) == ts[k].active by {}
}

/// The three command topics are distinct.
proof fn lemma_commands_differ()
    ensures
        QUIT_TOPIC@ != SUBS_TOPIC@,
        QUIT_TOPIC@ != UNSUBS_TOPIC@,
        SUBS_TOPIC@ != UNSUBS_TOPIC@,
{
    reveal_strlit("$cmd/quit");
    reveal_strlit("$cmd/subs");
    reveal_strlit("$cmd/unsubs");
    assert(QUIT_TOPIC@[5] != SUBS_TOPIC@[5]);
    assert(QUIT_TOPIC@.len() != UNSUBS_TOPIC@.len());
    assert(SUBS_TOPIC@.len() != UNSUBS_TOPIC@.len());
}

/// A task gets no copy of its own publication (neither an echo nor the shutdown
/// command) unless one of its own subscriptions matches the domain.
pub proof fn lemma_no_implicit_self_delivery(
    ts: Seq<TaskModel>,
    domain: Seq<char>,
    from_id: Seq<char>,
    payload: Option<Seq<Seq<char>>>,
    k: int,
)
    requires
        0 <= k < ts.len(),
        ts.len() <= usize::MAX,
        is_origin(ts[k], domain, from_id),
        from_id != ECHO_ID@,
        domain != QUIT_TOPIC@,
        !any_matches(domain, ts[k].subs),
    ensures
        !delivery_list(ts, domain, from_id, payload, ts.len() as int).contains(k as usize),
{
    lemma_delivery_list(ts, domain, from_id, payload, ts.len() as int);
}

/// A task named `name` (with no `/` in it) is the origin of an event sent as
/// `<name>/<instance>`.
pub proof fn lemma_qualified_origin(name: Seq<char>, instance: Seq<char>)
    requires
        forall|i: int| 0 <= i < name.len() ==> name[i] != '/',
    ensures
        first_segment(name + seq!['/'] + instance, '/') == name,
    decreases name.len(),
{
    let s = name + seq!['/'] + instance;
    if name.len() == 0 {
        assert(s[0] == '/');
    } else {
        let rest = name.drop_first();
        assert forall|i: int| 0 <= i < rest.len() implies rest[i] != '/' by {
            assert(rest[i] == name[i + 1]);
        }
        lemma_qualified_origin(rest, instance);
        assert(s.drop_first() =~= rest + seq!['/'] + instance);
        assert(seq![name[0]] + rest =~= name);
    }
}

/// Once a task has subscribed to `p` by a subscription command that it sent
/// itself (any list of topics that holds `p`), the next ordinary event whose
/// domain matches `p`, unless it is an echo, reaches that task.
pub proof fn lemma_subscribe_then_deliver(
    ts: Seq<TaskModel>,
    from_id: Seq<char>,
    topics: Seq<Seq<char>>,
    p: Seq<char>,
    k: int,
    domain: Seq<char>,
    next_from_id: Seq<char>,
    next_payload: Option<Seq<Seq<char>>>,
)
    requires
        0 <= k < ts.len(),
        ts.len() <= usize::MAX,
        is_origin(ts[k], SUBS_TOPIC@, from_id),
        from_id != ECHO_ID@,
        topics.contains(p),
        topic_matches(domain, p),
        domain != SUBS_TOPIC@,
        domain != UNSUBS_TOPIC@,
        next_from_id != ECHO_ID@,
    ensures
        delivery_list(
            next_tasks(ts, SUBS_TOPIC@, from_id, Some(topics)),
            domain,
            next_from_id,
            next_payload,
            ts.len() as int,
        ).contains(k as usize),
{
    let ts2 = next_tasks(ts, SUBS_TOPIC@, from_id, Some(topics));
    let t = ts2[k];
    assert(t.subs == ts[k].subs + topics);
    let i = choose|i: int| 0 <= i < topics.len() && topics[i] == p;
    assert(t.subs[ts[k].subs.len() + i] == p);
    assert(any_matches(domain, t.subs));
    assert(delivers(t, domain, next_from_id, next_payload));
    lemma_delivery_list(ts2, domain, next_from_id, next_payload, ts.len() as int);
}

/// Unsubscribing from `x` removes exactly one entry equal to `x`, the first,
/// and keeps every other entry in order, other copies of `x` included.
pub proof fn lemma_unsubscribe_removes_one(t: TaskModel, from_id: Seq<char>, x: Seq<char>)
    requires
        is_origin(t, UNSUBS_TOPIC@, from_id),
        from_id != ECHO_ID@,
        t.subs.contains(x),
    ensures
        exists|j: int|
            0 <= j < t.subs.len() && t.subs[j] == x && (forall|i: int| 0 <= i < j ==> t.subs[i] != x)
                && next_subs(t, UNSUBS_TOPIC@, from_id, Some(seq![x])) == t.subs.remove(j),
{
    reveal_strlit("$cmd/subs");
    reveal_strlit("$cmd/unsubs");
    assert(SUBS_TOPIC@ != UNSUBS_TOPIC@) by {
        assert(SUBS_TOPIC@.len() != UNSUBS_TOPIC@.len());
    }
    let j = lemma_first_occurrence(t.subs, x);
    lemma_remove_first_at(t.subs, x, j);
    let one = seq![x];
    assert(one.drop_first() =~= Seq::<Seq<char>>::empty());
    assert(remove_each(t.subs, one) == remove_each(remove_first(t.subs, x), one.drop_first()));
}

/// The first index at which `x` stands in `s`.
proof fn lemma_first_occurrence(s: Seq<Seq<char>>, x: Seq<char>) -> (j: int)
    requires
        s.contains(x),
    ensures
        0 <= j < s.len(),
        s[j] == x,
        forall|i: int| 0 <= i < j ==> s[i] != x,
    decreases s.len(),
{
    if s[0] == x {
        0
    } else {
        let t = s.drop_first();
        let w = choose|w: int| 0 <= w < s.len() && s[w] == x;
        assert(t[w - 1] == x);
        let j = lemma_first_occurrence(t, x);
        assert forall|i: int| 0 <= i < j + 1 implies s[i] != x by {
            if i > 0 {
                assert(s[i] == t[i - 1]);
            }
        }
        j + 1
    }
}

impl Router {
    /// A router over `tasks`, not quitting.
    pub fn new(tasks: Vec<TaskDescriptor>) -> (r: Router)
        ensures
            r.tasks@ == tasks@,
            !r.quitting,
    {
        Router { tasks, quitting: false }
    }

    /// One dispatch pass, where `payload` is what the event's data reads as.
    /// Returns the tasks that get a copy; the origin task's subscriptions change
    /// by a subscription command with a payload, and a subscription command
    /// without one is dropped.
    pub fn dispatch_with(&mut self, ie: &IndraEvent, payload: Option<Vec<String>>) -> (r: Dispatch)
        ensures
            final(self).model() == next_tasks(
                old(self).model(),
                ie.domain@,
                ie.from_id@,
                payload_view(payload),
            ),
            r.recipients@ == delivery_list(
                old(self).model(),
                ie.domain@,
                ie.from_id@,
                payload_view(payload),
                old(self).model().len() as int,
            ),
            r.origin_known == origin_known(old(self).model(), ie.domain@, ie.from_id@),
            r.quit == quit_requested(old(self).model(), ie.domain@, ie.from_id@),
            final(self).quitting == (old(self).quitting || r.quit),
    {
        let ghost m0 = self.model();
        let ghost d = ie.domain@;
        let ghost f = ie.from_id@;
        let ghost pv = payload_view(payload);
        let is_echo = str_equal(ie.from_id.as_str(), ECHO_ID);
        let is_quit = str_equal(ie.domain.as_str(), QUIT_TOPIC);
        let is_subs = str_equal(ie.domain.as_str(), SUBS_TOPIC);
        let is_unsubs = str_equal(ie.domain.as_str(), UNSUBS_TOPIC);
        let origin = if is_echo {
            first_segment_of(ie.domain.as_str(), '/')
        } else {
            first_segment_of(ie.from_id.as_str(), '/')
        };
        assert(origin@ == origin_name(d, f));
        let malformed = (is_subs || is_unsubs) && payload.is_none();
        let n = self.tasks.len();
        let mut recipients: Vec<usize> = Vec::new();
        let mut known = false;
        let mut quit = false;
        let mut k: usize = 0;
        while k < n
            invariant
                m0 == old(self).model(),
                self.quitting == old(self).quitting,
                n == m0.len(),
                self.tasks.len() == n,
                k <= n,
                d == ie.domain@,
                f == ie.from_id@,
                pv == payload_view(payload),
                origin@ == origin_name(d, f),
                is_echo == (f == ECHO_ID@),
                is_quit == (d == QUIT_TOPIC@),
                is_subs == (d == SUBS_TOPIC@),
                is_unsubs == (d == UNSUBS_TOPIC@),
                malformed == is_malformed_command(d, pv),
                forall|j: int| 0 <= j < k ==> #[trigger] self.model()[j] == next_task(m0[j], d, f, pv),
                forall|j: int| k <= j < n ==> #[trigger] self.model()[j] == m0[j],
                recipients@ == delivery_list(m0, d, f, pv, k as int),
                known == exists|j: int| 0 <= j < k && #[trigger] m0[j].name == origin_name(d, f),
                quit == (is_quit && exists|j: int| 0 <= j < k && #[trigger] is_origin(m0[j], d, f)),
            decreases n - k,
        {
            let ghost t0 = m0[k as int];
            let ghost before = self.tasks@;
            let ghost mb = self.model();
            assert(self.model()[k as int] == t0);
            assert(self.tasks@[k as int]@ == t0);
            let named = str_equal(self.tasks[k].name.as_str(), origin);
            if named {
                known = true;
            }
            if self.tasks[k].active {
                let deliver = if is_echo {
                    named
                } else if malformed {
                    false
                } else {
                    is_quit || IndraEvent::check_route(
                        ie.domain.as_str(),
                        self.tasks[k].name.as_str(),
                        &self.tasks[k].subs,
                        None,
                    )
                };
                assert(deliver == delivers(t0, d, f, pv));
                if deliver {
                    recipients.push(k);
                }
                if named {
                    if is_quit {
                        quit = true;
                    }
                }
                if named && !is_echo {
                    match &payload {
                        Some(list) => {
                            if is_subs {
                                append_entries(&mut self.tasks[k].subs, list);
                            } else if is_unsubs {
                                remove_entries(&mut self.tasks[k].subs, list);
                            }
                        },
                        None => {},
                    }
                }
            }
            assert(self.model()[k as int] == next_task(t0, d, f, pv));
            assert forall|j: int| 0 <= j < n && j != k implies #[trigger] self.model()[j]
                == mb[j] by {
                assert(self.tasks@[j] == before[j]);
                assert(mb[j] == before[j]@);
            }
            assert(recipients@ == delivery_list(m0, d, f, pv, k + 1));
            assert(quit == (is_quit && exists|j: int| 0 <= j < k + 1 && #[trigger] is_origin(m0[j], d, f))) by {
                if is_quit && is_origin(m0[k as int], d, f) {
                    assert(is_origin(m0[k as int], d, f));
                }
            }
            k = k + 1;
        }
        let ghost mfin = self.model();
        if quit {
            self.quitting = true;
        }
        assert(self.model() =~= mfin);
        assert(self.model() =~= next_tasks(m0, d, f, pv));
        Dispatch { recipients, origin_known: known, quit }
    }

    /// One dispatch pass over an event: reads the payload of a subscription
    /// command, then decides as `dispatch_with` does.
    pub fn dispatch(&mut self, ie: &IndraEvent) -> (r: Dispatch)
        ensures
            final(self).model() == next_tasks(
                old(self).model(),
                ie.domain@,
                ie.from_id@,
                control_payload(ie.domain@, ie.data@),
            ),
            r.recipients@ == delivery_list(
                old(self).model(),
                ie.domain@,
                ie.from_id@,
                control_payload(ie.domain@, ie.data@),
                old(self).model().len() as int,
            ),
            r.origin_known == origin_known(old(self).model(), ie.domain@, ie.from_id@),
            r.quit == quit_requested(old(self).model(), ie.domain@, ie.from_id@),
            final(self).quitting == (old(self).quitting || r.quit),
    {
        let control = str_equal(ie.domain.as_str(), SUBS_TOPIC) || str_equal(
            ie.domain.as_str(),
            UNSUBS_TOPIC,
        );
        let payload = if control {
            parse_string_list(ie.data.as_str())
        } else {
            None
        };
        assert(payload_view(payload) == control_payload(ie.domain@, ie.data@));
        self.dispatch_with(ie, payload)
    }
}

} // verus!
