//! The in-process dispatch engine: consumer groups keyed by (channel, tag),
//! multicast across the tags of a channel and round-robin within a tag.
use vstd::prelude::*;

use futures::channel::mpsc::{UnboundedReceiver, UnboundedSender};

use crate::error::Error;
use crate::event::{Event, EventView};

verus! {

#[verifier::external_type_specification]
#[verifier::external_body]
#[verifier::reject_recursive_types(T)]
pub struct ExUnboundedSender<T>(UnboundedSender<T>);

#[verifier::external_type_specification]
#[verifier::external_body]
#[verifier::reject_recursive_types(T)]
pub struct ExUnboundedReceiver<T>(UnboundedReceiver<T>);

/// Relies on `futures::channel::mpsc::unbounded`: a fresh unbounded channel
/// whose sender feeds its receiver.
#[verifier::external_body]
fn open_endpoint() -> (r: (UnboundedSender<Event>, UnboundedReceiver<Event>)) {
    futures::channel::mpsc::unbounded()
}

/// Relies on `UnboundedSender::unbounded_send`: queues the event for the
/// receiver, and fails when the receiver is gone.
#[verifier::external_body]
fn send_event(tx: &UnboundedSender<Event>, event: Event) -> (r: Result<(), String>) {
    tx.unbounded_send(event).map_err(|e| e.to_string())
}

/// The model of a consumer group: its key, its round-robin cursor, and for
/// each subscriber (in registration order) the events handed to it.
pub ghost struct GroupView {
    pub channel: Seq<char>,
    pub tag: Seq<char>,
    pub cursor: nat,
    pub sent: Seq<Seq<EventView>>,
}

/// The cursor points at a subscriber, or is 0 when there is none.
pub open spec fn group_ok(g: GroupView) -> bool {
    if g.sent.len() == 0 {
        g.cursor == 0
    } else {
        g.cursor < g.sent.len()
    }
}

/// No two groups share a (channel, tag) key.
pub open spec fn distinct_keys(groups: Seq<GroupView>) -> bool {
    forall|i: int, j: int|
        0 <= i < groups.len() && 0 <= j < groups.len() && i != j ==> !(#[trigger] groups[i].channel
            == #[trigger] groups[j].channel && groups[i].tag == groups[j].tag)
}

pub open spec fn group_of(groups: Seq<GroupView>, channel: Seq<char>, tag: Seq<char>, i: int) -> bool {
    0 <= i < groups.len() && groups[i].channel == channel && groups[i].tag == tag
}

/// A group with one more subscriber, which has received nothing.
pub open spec fn add_subscriber(g: GroupView) -> GroupView {
    GroupView { sent: g.sent.push(Seq::empty()), ..g }
}

/// The groups after a subscriber registers under (channel, tag): appended to
/// that group, or to a new group created for it.
pub open spec fn register_model(groups: Seq<GroupView>, channel: Seq<char>, tag: Seq<char>) -> Seq<
    GroupView,
> {
    if exists|i: int| group_of(groups, channel, tag, i) {
        let i = choose|i: int| group_of(groups, channel, tag, i);
        groups.update(i, add_subscriber(groups[i]))
    } else {
        groups.push(add_subscriber(GroupView { channel, tag, cursor: 0, sent: Seq::empty() }))
    }
}

/// The cursor moved on to the next subscriber, wrapping.
pub open spec fn advance(g: GroupView) -> GroupView {
    if g.sent.len() == 0 {
        g
    } else {
        GroupView { cursor: (g.cursor + 1) % g.sent.len(), ..g }
    }
}

/// One dispatch: the event goes to the subscriber under the cursor, and the
/// cursor moves on; a group without subscribers drops it.
pub open spec fn dispatch_model(g: GroupView, e: EventView) -> GroupView {
    if g.sent.len() == 0 {
        g
    } else {
        GroupView {
            sent: g.sent.update(g.cursor as int, g.sent[g.cursor as int].push(e)),
            ..advance(g)
        }
    }
}

/// The groups after the first `k` have each dispatched the event if they
/// belong to the channel.
pub open spec fn publish_until(groups: Seq<GroupView>, channel: Seq<char>, e: EventView, k: int) -> Seq<
    GroupView,
> {
    Seq::new(
        groups.len(),
        |i: int|
            if i < k && groups[i].channel == channel {
                dispatch_model(groups[i], e)
            } else {
                groups[i]
            },
    )
}

/// The groups after a publish: every group of the channel dispatches the
/// event, the others are untouched.
pub open spec fn publish_model(groups: Seq<GroupView>, channel: Seq<char>, e: EventView) -> Seq<
    GroupView,
> {
    publish_until(groups, channel, e, groups.len() as int)
}

/// A publish that stopped at a group of the channel whose subscriber under the
/// cursor could not take the event: the groups before it have dispatched, its
/// cursor has moved on, and the groups after it are untouched.
pub open spec fn publish_stopped(
    groups: Seq<GroupView>,
    channel: Seq<char>,
    e: EventView,
    after: Seq<GroupView>,
) -> bool {
    exists|k: int|
        0 <= k < groups.len() && groups[k].channel == channel && groups[k].sent.len() > 0 && after
            == #[trigger] publish_until(groups, channel, e, k).update(k, advance(groups[k]))
}

/// A subscriber endpoint group: the senders in registration order and the
/// round-robin cursor.
pub struct ConsumerGroup {
    channel: String,
    tag: String,
    consumers: Vec<UnboundedSender<Event>>,
    idx: usize,
    sent: Ghost<Seq<Seq<EventView>>>,
}

impl View for ConsumerGroup {
    type V = GroupView;

    closed spec fn view(&self) -> GroupView {
        GroupView { channel: self.channel@, tag: self.tag@, cursor: self.idx as nat, sent: self.sent@ }
    }
}

impl ConsumerGroup {
    pub closed spec fn wf(&self) -> bool {
        &&& self.consumers.len() == self.sent@.len()
        &&& group_ok(self@)
    }

    fn new(channel: String, tag: String) -> (r: ConsumerGroup)
        ensures
            r.wf(),
            r@ == (GroupView { channel: channel@, tag: tag@, cursor: 0, sent: Seq::empty() }),
    {
        ConsumerGroup { channel, tag, consumers: Vec::new(), idx: 0, sent: Ghost(Seq::empty()) }
    }

    fn add_consumer(&mut self) -> (r: UnboundedReceiver<Event>)
        requires
            old(self).wf(),
        ensures
            final(self).wf(),
            final(self)@ == add_subscriber(old(self)@),
    {
        let (tx, rx) = open_endpoint();
        self.consumers.push(tx);
        self.sent = Ghost(self.sent@.push(Seq::empty()));
        rx
    }

    fn dispatch(&mut self, event: &Event) -> (r: Result<(), Error>)
        requires
            old(self).wf(),
        ensures
            final(self).wf(),
            r is Ok ==> final(self)@ == dispatch_model(old(self)@, event@),
            r matches Err(e) ==> e is Unknown && old(self)@.sent.len() > 0 && final(self)@ == advance(
                old(self)@,
            ),
            old(self)@.sent.len() == 0 ==> r is Ok && final(self)@ == old(self)@,
    {
        if self.consumers.len() == 0 {
            return Ok(());
        }
        let n = self.consumers.len();
        proof {
            vstd::arithmetic::div_mod::lemma_small_mod(self.idx as nat, n as nat);
        }
        let idx = self.idx % n;
        self.idx = (self.idx + 1) % n;
        match send_event(&self.consumers[idx], event.clone()) {
            Ok(()) => {
                self.sent = Ghost(self.sent@.update(idx as int, self.sent@[idx as int].push(event@)));
                assert(self@ =~= dispatch_model(old(self)@, event@));
                Ok(())
            },
            Err(m) => Err(Error::Unknown(m)),
        }
    }
}

/// The registry of consumer groups.
pub struct BrokerInner {
    groups: Vec<ConsumerGroup>,
}

impl View for BrokerInner {
    type V = Seq<GroupView>;

    closed spec fn view(&self) -> Seq<GroupView> {
        self.groups@.map_values(|g: ConsumerGroup| g@)
    }
}

impl BrokerInner {
    pub closed spec fn wf(&self) -> bool {
        &&& forall|i: int| 0 <= i < self.groups.len() ==> (#[trigger] self.groups@[i]).wf()
        &&& distinct_keys(self@)
    }

    /// An engine without consumer groups.
    pub fn new() -> (r: BrokerInner)
        ensures
            r.wf(),
            r@ == Seq::<GroupView>::empty(),
    {
        let r = BrokerInner { groups: Vec::new() };
        assert(r@ =~= Seq::<GroupView>::empty());
        r
    }

    /// Registers a subscriber under (channel, tag) and returns the endpoint
    /// it receives from; it takes the next round-robin position in its group.
    pub fn register_consumer(&mut self, channel: &str, consumer_tag: &str) -> (r: UnboundedReceiver<
        Event,
    >)
        requires
            old(self).wf(),
        ensures
            final(self).wf(),
            final(self)@ == register_model(old(self)@, channel@, consumer_tag@),
    {
        let c = channel.to_owned();
        let t = consumer_tag.to_owned();
        let ghost start = self@;
        let mut i: usize = 0;
        while i < self.groups.len()
            invariant
                i <= self.groups.len(),
                self.wf(),
                self@ == start,
                start == old(self)@,
                c@ == channel@,
                t@ == consumer_tag@,
                forall|j: int| 0 <= j < i ==> !group_of(start, c@, t@, j),
            decreases self.groups.len() - i,
        {
            if self.groups[i].channel == c && self.groups[i].tag == t {
                assert(group_of(start, c@, t@, i as int));
                let ghost old_groups = self.groups@;
                let rx = self.groups[i].add_consumer();
                proof {
                    assert(group_of(start, channel@, consumer_tag@, i as int));
                    let k = choose|k: int| group_of(start, channel@, consumer_tag@, k);
                    assert(k == i) by {
                        if k != i {
                            assert(!(start[k].channel == start[i as int].channel && start[k].tag
                                == start[i as int].tag));
                        }
                    }
                    assert(self@ =~= start.update(i as int, add_subscriber(start[i as int])));
                    assert forall|j: int| 0 <= j < self.groups.len() implies (
                    #[trigger] self.groups@[j]).wf() by {
                        if j != i {
                            assert(self.groups@[j] == old_groups[j]);
                        }
                    }
                    assert forall|x: int, y: int|
                        0 <= x < self@.len() && 0 <= y < self@.len() && x != y implies !(
                    #[trigger] self@[x].channel == #[trigger] self@[y].channel && self@[x].tag
                        == self@[y].tag) by {
                        assert(!(start[x].channel == start[y].channel && start[x].tag == start[y].tag));
                    }
                }
                return rx;
            }
            i = i + 1;
        }
        let mut group = ConsumerGroup::new(c, t);
        let rx = group.add_consumer();
        self.groups.push(group);
        proof {
            assert(self@ =~= register_model(start, channel@, consumer_tag@));
            assert forall|x: int, y: int|
                0 <= x < self@.len() && 0 <= y < self@.len() && x != y implies !(
            #[trigger] self@[x].channel == #[trigger] self@[y].channel && self@[x].tag == self@[y].tag) by {
                if x < start.len() && y < start.len() {
                    assert(!(start[x].channel == start[y].channel && start[x].tag == start[y].tag));
                } else if x < start.len() {
                    assert(!group_of(start, c@, t@, x));
                } else if y < start.len() {
                    assert(!group_of(start, c@, t@, y));
                }
            }
        }
        rx
    }

    /// Publishes an event to a channel: each consumer group of the channel
    /// hands it to the subscriber under its cursor. A channel without groups,
    /// or a group without subscribers, drops it. A failed hand-over stops the
    /// publish with an Unknown error; the groups before it have dispatched.
    pub fn publish(&mut self, channel: &str, event: &Event) -> (r: Result<(), Error>)
        requires
            old(self).wf(),
        ensures
            final(self).wf(),
            r is Ok ==> final(self)@ == publish_model(old(self)@, channel@, event@),
            r is Err ==> r->Err_0 is Unknown && publish_stopped(
                old(self)@,
                channel@,
                event@,
                final(self)@,
            ),
            (forall|i: int|
                0 <= i < old(self)@.len() && (#[trigger] old(self)@[i]).channel == channel@
                    ==> old(self)@[i].sent.len() == 0) ==> r is Ok,
    {
        let c = channel.to_owned();
        let ghost start = self@;
        let mut i: usize = 0;
        while i < self.groups.len()
            invariant
                i <= self.groups.len(),
                self.groups.len() == start.len(),
                self.wf(),
                c@ == channel@,
                start == old(self)@,
                distinct_keys(start),
                forall|j: int| 0 <= j < start.len() ==> group_ok(#[trigger] start[j]),
                self@ == publish_until(start, c@, event@, i as int),
                (forall|j: int|
                    0 <= j < start.len() && (#[trigger] start[j]).channel == channel@
                        ==> start[j].sent.len() == 0) ==> self@ == start,
            decreases self.groups.len() - i,
        {
            if self.groups[i].channel == c {
                assert(self@[i as int] == start[i as int]);
                let ghost before = self.groups@;
                let ghost old_view = self@;
                let res = self.groups[i].dispatch(event);
                assert forall|j: int| 0 <= j < self@.len() && j != i implies self@[j] == old_view[j] by {
                    assert(self.groups@[j] == before[j]);
                }
                proof {
                    assert forall|j: int| 0 <= j < self.groups.len() implies (
                    #[trigger] self.groups@[j]).wf() by {
                        if j != i {
                            assert(self.groups@[j] == before[j]);
                        }
                    }
                    assert forall|x: int, y: int|
                        0 <= x < self@.len() && 0 <= y < self@.len() && x != y implies !(
                    #[trigger] self@[x].channel == #[trigger] self@[y].channel && self@[x].tag
                        == self@[y].tag) by {
                        assert(self@[x].channel == start[x].channel && self@[x].tag == start[x].tag) by {
                            if x != i {
                                assert(self@[x] == old_view[x]);
                            }
                        }
                        assert(self@[y].channel == start[y].channel && self@[y].tag == start[y].tag) by {
                            if y != i {
                                assert(self@[y] == old_view[y]);
                            }
                        }
                        assert(!(start[x].channel == start[y].channel && start[x].tag == start[y].tag));
                    }
                }
                match res {
                    Ok(()) => {
                        assert(self@ =~= publish_until(start, c@, event@, i + 1));
                    },
                    Err(e) => {
                        assert(self@ =~= publish_until(start, c@, event@, i as int).update(
                            i as int,
                            advance(start[i as int]),
                        ));
                        return Err(e);
                    },
                }
            } else {
                assert(self@ =~= publish_until(start, c@, event@, i + 1));
            }
            i = i + 1;
        }
        Ok(())
    }
}

/// The model of a well-formed engine: no two groups share a key, and every
/// group's cursor points at one of its subscribers (or is 0 when it has
/// none).
pub proof fn lemma_engine_model(engine: &BrokerInner)
    requires
        engine.wf(),
    ensures
        distinct_keys(engine@),
        forall|g: int| 0 <= g < engine@.len() ==> group_ok(#[trigger] engine@[g]),
{
    assert forall|g: int| 0 <= g < engine@.len() implies group_ok(#[trigger] engine@[g]) by {
        assert(engine.groups@[g].wf());
    }
}

/// The groups after publishing each event of `es` to the channel, in order,
/// every publish succeeding.
pub open spec fn publish_all(groups: Seq<GroupView>, channel: Seq<char>, es: Seq<EventView>) -> Seq<
    GroupView,
>
    decreases es.len(),
{
    if es.len() == 0 {
        groups
    } else {
        publish_model(publish_all(groups, channel, es.drop_last()), channel, es.last())
    }
}

/// The events of `es` whose position is congruent to `i` modulo `n`, in
/// their order.
pub open spec fn round_robin_share(es: Seq<EventView>, n: nat, i: nat) -> Seq<EventView>
    decreases es.len(),
{
    if es.len() == 0 {
        Seq::empty()
    } else {
        let before = round_robin_share(es.drop_last(), n, i);
        if (es.len() - 1) % (n as int) == i {
            before.push(es.last())
        } else {
            before
        }
    }
}

/// A group whose cursor is at its first subscriber and whose subscribers
/// have received nothing: as registration leaves it before any publish.
pub open spec fn fresh(g: GroupView) -> bool {
    &&& g.cursor == 0
    &&& forall|j: int| 0 <= j < g.sent.len() ==> (#[trigger] g.sent[j]).len() == 0
}

proof fn lemma_publish_all_shape(groups: Seq<GroupView>, channel: Seq<char>, es: Seq<EventView>, g: int)
    requires
        0 <= g < groups.len(),
        group_ok(groups[g]),
    ensures
        group_ok(publish_all(groups, channel, es)[g]),
        publish_all(groups, channel, es).len() == groups.len(),
        publish_all(groups, channel, es)[g].channel == groups[g].channel,
        publish_all(groups, channel, es)[g].tag == groups[g].tag,
        publish_all(groups, channel, es)[g].sent.len() == groups[g].sent.len(),
    decreases es.len(),
{
    if es.len() > 0 {
        lemma_publish_all_shape(groups, channel, es.drop_last(), g);
    }
}

proof fn lemma_round_robin_run(groups: Seq<GroupView>, g: int, es: Seq<EventView>)
    requires
        0 <= g < groups.len(),
        groups[g].sent.len() > 0,
        fresh(groups[g]),
    ensures
        publish_all(groups, groups[g].channel, es)[g].cursor == es.len() % groups[g].sent.len(),
        forall|i: int|
            0 <= i < groups[g].sent.len() ==> (#[trigger] publish_all(
                groups,
                groups[g].channel,
                es,
            )[g].sent[i]) == round_robin_share(es, groups[g].sent.len(), i as nat),
    decreases es.len(),
{
    let c = groups[g].channel;
    let n = groups[g].sent.len();
    lemma_publish_all_shape(groups, c, es, g);
    if es.len() == 0 {
        vstd::arithmetic::div_mod::lemma_small_mod(0, n);
    } else {
        let init = es.drop_last();
        lemma_round_robin_run(groups, g, init);
        lemma_publish_all_shape(groups, c, init, g);
        let prev = publish_all(groups, c, init)[g];
        let m = init.len();
        assert(prev.cursor == m % n);
        vstd::arithmetic::div_mod::lemma_add_mod_noop(m as int, 1, n as int);
        if n == 1 {
            assert((m + 1) % 1 == 0);
            assert(((m % 1) + 1) % 1 == 0);
        } else {
            vstd::arithmetic::div_mod::lemma_small_mod(1, n);
        }
        let after = publish_all(groups, c, es)[g];
        assert(after == dispatch_model(prev, es.last()));
        assert(after.cursor == es.len() % n);
        assert forall|i: int| 0 <= i < n implies (#[trigger] publish_all(groups, c, es)[g].sent[i])
            == round_robin_share(es, n, i as nat) by {
            assert(es.drop_last() == init);
        }
    }
}

/// Round-robin fairness: in a group of `n` subscribers that has just been
/// registered, after a run of successful publishes to its channel, the
/// subscriber at registration index `i` has been handed exactly the events at
/// the positions congruent to `i` modulo `n`, in publish order.
pub proof fn lemma_round_robin_fairness(groups: Seq<GroupView>, g: int, es: Seq<EventView>, i: int)
    requires
        0 <= g < groups.len(),
        fresh(groups[g]),
        0 <= i < groups[g].sent.len(),
    ensures
        publish_all(groups, groups[g].channel, es)[g].sent[i] == round_robin_share(
            es,
            groups[g].sent.len(),
            i as nat,
        ),
{
    lemma_round_robin_run(groups, g, es);
}

/// Registration keeps a group fresh: registering under a key that has no
/// group yet makes a fresh group of one subscriber at the end, and registering
/// under the key of a fresh group adds a subscriber to it, last in its
/// round-robin order, and leaves it fresh.
pub proof fn lemma_register_fresh(groups: Seq<GroupView>, channel: Seq<char>, tag: Seq<char>)
    requires
        distinct_keys(groups),
    ensures
        (forall|i: int| !group_of(groups, channel, tag, i)) ==> {
            &&& register_model(groups, channel, tag).len() == groups.len() + 1
            &&& group_of(register_model(groups, channel, tag), channel, tag, groups.len() as int)
            &&& register_model(groups, channel, tag)[groups.len() as int].sent.len() == 1
            &&& fresh(register_model(groups, channel, tag)[groups.len() as int])
        },
        forall|i: int|
            #![trigger group_of(groups, channel, tag, i)]
            group_of(groups, channel, tag, i) && fresh(groups[i]) ==> {
                &&& register_model(groups, channel, tag).len() == groups.len()
                &&& group_of(register_model(groups, channel, tag), channel, tag, i)
                &&& register_model(groups, channel, tag)[i].sent.len() == groups[i].sent.len() + 1
                &&& fresh(register_model(groups, channel, tag)[i])
            },
{
    let after = register_model(groups, channel, tag);
    assert forall|i: int|
        #![trigger group_of(groups, channel, tag, i)]
        group_of(groups, channel, tag, i) && fresh(groups[i]) implies {
        &&& after.len() == groups.len()
        &&& group_of(after, channel, tag, i)
        &&& after[i].sent.len() == groups[i].sent.len() + 1
        &&& fresh(after[i])
    } by {
        let k = choose|k: int| group_of(groups, channel, tag, k);
        if k != i {
            assert(!(groups[k].channel == groups[i].channel && groups[k].tag == groups[i].tag));
        }
        assert forall|j: int| 0 <= j < after[i].sent.len() implies (#[trigger] after[i].sent[j]).len()
            == 0 by {
            if j < groups[i].sent.len() {
                assert(groups[i].sent[j].len() == 0);
            }
        }
    }
    if forall|i: int| !group_of(groups, channel, tag, i) {
        assert(after[groups.len() as int].sent =~= seq![Seq::<EventView>::empty()]);
    }
}

/// Tag multicast: one publish hands the event to exactly one subscriber of
/// each group of the channel that has subscribers, the one under that group's
/// own cursor; every group's new state depends on its own old state alone,
/// and groups of other channels are untouched.
pub proof fn lemma_tag_multicast(groups: Seq<GroupView>, channel: Seq<char>, e: EventView)
    requires
        forall|g: int| 0 <= g < groups.len() ==> group_ok(#[trigger] groups[g]),
    ensures
        publish_model(groups, channel, e).len() == groups.len(),
        forall|g: int|
            0 <= g < groups.len() ==> (#[trigger] publish_model(groups, channel, e)[g]) == (if groups[g].channel
                == channel {
                dispatch_model(groups[g], e)
            } else {
                groups[g]
            }),
        forall|g: int, j: int|
            0 <= g < groups.len() && groups[g].channel == channel && 0 <= j
                < groups[g].sent.len() ==> (#[trigger] publish_model(groups, channel, e)[g].sent[j])
                == if j == groups[g].cursor {
                groups[g].sent[j].push(e)
            } else {
                groups[g].sent[j]
            },
{
}

/// Publishing where the channel has no group with subscribers hands the event
/// to nobody and leaves every group as it was.
pub proof fn lemma_publish_without_subscribers(groups: Seq<GroupView>, channel: Seq<char>, e: EventView)
    requires
        forall|g: int|
            0 <= g < groups.len() && (#[trigger] groups[g]).channel == channel ==> groups[g].sent.len()
                == 0,
    ensures
        publish_model(groups, channel, e) == groups,
{
    assert(publish_model(groups, channel, e) =~= groups);
}

} // verus!
