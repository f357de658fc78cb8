//! The task manager: the one owner of the object registry and of the event
//! subscriptions, and what it does with each work item.

use crate::client::error::Error;
use crate::client::message::{
    encoded, strings_view, CallObjectRequest, Envelope, ListObjects, StaticReplies, Success,
};
use crate::message::{IpcMessage, Message, SocketHolder};
use crate::table::{
    distinct, has_key, index_of, lemma_take_lacks, lemma_to_map_absent, lemma_to_map_at,
    lemma_to_map_push, lemma_to_map_update, to_map,
};
use crate::value::{ElemTree, JsonElem};
use vstd::prelude::*;

verus! {

broadcast use {
    vstd::std_specs::vec::group_vec_axioms,
    vstd::seq::group_seq_axioms,
    vstd::seq_lib::group_filter_ensures,
    vstd::map::group_map_axioms,
};

/// The registry without the objects that a peer owns.
pub open spec fn without_owner(
    objects: Map<Seq<char>, Seq<char>>,
    peer: Seq<char>,
) -> Map<Seq<char>, Seq<char>> {
    Map::new(
        |name: Seq<char>| objects.contains_key(name) && objects[name] != peer,
        |name: Seq<char>| objects[name],
    )
}

/// The registry: the peer that owns each registered object name.
pub struct ObjectTable {
    entries: Vec<(String, SocketHolder)>,
}

impl ObjectTable {
    /// The entries as pairs of an object name and a peer.
    pub closed spec fn pairs(&self) -> Seq<(Seq<char>, Seq<char>)> {
        Seq::new(self.entries@.len(), |i: int| (self.entries@[i].0@, self.entries@[i].1@))
    }

    /// No object name is listed twice.
    pub closed spec fn wf(&self) -> bool {
        distinct(self.pairs())
    }

    /// The registry as a map from object names to peers.
    pub closed spec fn view(&self) -> Map<Seq<char>, Seq<char>> {
        to_map(self.pairs())
    }

    /// Whether the registry lists `peer` as an owner of `name`.
    pub closed spec fn owns(&self, peer: Seq<char>, name: Seq<char>) -> bool {
        exists|i: int| 0 <= i < self.pairs().len() && #[trigger] self.pairs()[i] == (name, peer)
    }

    /// An empty registry.
    pub fn new() -> (r: Self)
        ensures
            r.wf(),
            r@ == Map::<Seq<char>, Seq<char>>::empty(),
    {
        let r = Self { entries: Vec::new() };
        assert(r@ =~= Map::<Seq<char>, Seq<char>>::empty());
        r
    }

    fn find(&self, name: &String) -> (r: Option<usize>)
        ensures
            match r {
                Some(i) => i < self.pairs().len() && self.pairs()[i as int].0 == name@,
                None => forall|j: int|
                    0 <= j < self.pairs().len() ==> (#[trigger] self.pairs()[j]).0 != name@,
            },
    {
        let mut i: usize = 0;
        while i < self.entries.len()
            invariant
                i <= self.entries.len(),
                forall|j: int| 0 <= j < i ==> (#[trigger] self.pairs()[j]).0 != name@,
            decreases self.entries.len() - i,
        {
            if self.entries[i].0 == *name {
                return Some(i);
            }
            i += 1;
        }
        None
    }

    /// The peer that owns `name`, if the name is registered.
    pub fn get(&self, name: &str) -> (r: Option<&SocketHolder>)
        requires
            self.wf(),
        ensures
            match r {
                Some(holder) => self@.contains_key(name@) && self@[name@] == holder@,
                None => !self@.contains_key(name@),
            },
    {
        let wanted: String = name.to_owned();
        match self.find(&wanted) {
            Some(i) => {
                proof {
                    lemma_to_map_at(self.pairs(), i as int);
                }
                Some(&self.entries[i].1)
            },
            None => {
                proof {
                    lemma_to_map_absent(self.pairs(), name@);
                }
                None
            },
        }
    }

    /// Lists `holder` as the owner of `name`, in place of any other owner.
    pub fn insert(&mut self, name: String, holder: SocketHolder)
        requires
            old(self).wf(),
        ensures
            final(self).wf(),
            final(self)@ == old(self)@.insert(name@, holder@),
    {
        match self.find(&name) {
            Some(i) => {
                proof {
                    lemma_to_map_update(self.pairs(), i as int, holder@);
                }
                self.entries.set(i, (name, holder));
                assert(self.pairs() =~= old(self).pairs().update(
                    i as int,
                    (old(self).pairs()[i as int].0, holder@),
                ));
            },
            None => {
                proof {
                    lemma_to_map_push(self.pairs(), name@, holder@);
                }
                self.entries.push((name, holder));
                assert(self.pairs() =~= old(self).pairs().push((name@, holder@)));
            },
        }
    }

    /// Drops every object that the peer at `ip_address` owns.
    pub fn retain_others(&mut self, ip_address: &str)
        requires
            old(self).wf(),
        ensures
            final(self).wf(),
            final(self)@ == without_owner(old(self)@, ip_address@),
    {
        let wanted: String = ip_address.to_owned();
        let mut kept = ObjectTable { entries: Vec::new() };
        let mut i: usize = 0;
        assert(kept@ =~= without_owner(to_map(self.pairs().take(0)), ip_address@));
        while i < self.entries.len()
            invariant
                i <= self.entries.len(),
                self.wf(),
                kept.wf(),
                wanted@ == ip_address@,
                kept@ == without_owner(to_map(self.pairs().take(i as int)), ip_address@),
            decreases self.entries.len() - i,
        {
            proof {
                lemma_take_lacks(self.pairs(), i as int);
                lemma_to_map_push(
                    self.pairs().take(i as int),
                    self.pairs()[i as int].0,
                    self.pairs()[i as int].1,
                );
            }
            let ghost before = to_map(self.pairs().take(i as int));
            let ghost name = self.pairs()[i as int].0;
            let ghost owner = self.pairs()[i as int].1;
            if self.entries[i].1.name != wanted {
                proof {
                    if has_key(kept.pairs(), name) {
                        assert(kept@.contains_key(name));
                        assert(before.contains_key(name));
                    }
                    lemma_to_map_push(kept.pairs(), name, owner);
                }
                let ghost old_kept = kept.pairs();
                kept.entries.push((self.entries[i].0.clone(), self.entries[i].1.clone()));
                assert(kept.pairs() =~= old_kept.push((name, owner)));
                assert(kept@ =~= without_owner(before.insert(name, owner), ip_address@));
            } else {
                assert(kept@ =~= without_owner(before.insert(name, owner), ip_address@));
            }
            i += 1;
        }
        assert(self.pairs().take(i as int) =~= self.pairs());
        self.entries = kept.entries;
    }

    /// Whether every name of `list` is registered.
    pub fn contains_all(&self, list: &Vec<String>) -> (r: bool)
        requires
            self.wf(),
        ensures
            r == forall|i: int| 0 <= i < list@.len() ==> self@.contains_key(#[trigger] list@[i]@),
    {
        let mut i: usize = 0;
        while i < list.len()
            invariant
                i <= list.len(),
                self.wf(),
                forall|j: int| 0 <= j < i ==> self@.contains_key(#[trigger] list@[j]@),
            decreases list.len() - i,
        {
            match self.find(&list[i]) {
                Some(at) => {
                    proof {
                        lemma_to_map_at(self.pairs(), at as int);
                    }
                },
                None => {
                    proof {
                        lemma_to_map_absent(self.pairs(), list@[i as int]@);
                    }
                    return false;
                },
            }
            i += 1;
        }
        true
    }

    /// Each registered name has one owner: the peer that the map gives.
    pub proof fn lemma_owner(&self, peer: Seq<char>, name: Seq<char>)
        requires
            self.wf(),
        ensures
            self.owns(peer, name) <==> self@.contains_key(name) && self@[name] == peer,
    {
        if self.owns(peer, name) {
            let i = choose|i: int|
                0 <= i < self.pairs().len() && #[trigger] self.pairs()[i] == (name, peer);
            lemma_to_map_at(self.pairs(), i);
        }
        if self@.contains_key(name) && self@[name] == peer {
            let i = index_of(self.pairs(), name);
            lemma_to_map_at(self.pairs(), i);
            assert(self.pairs()[i] == (name, peer));
        }
    }
}

/// The test that keeps every peer but one.
pub open spec fn other_than(peer: Seq<char>) -> spec_fn(Seq<char>) -> bool {
    |q: Seq<char>| q != peer
}

/// The subscribers of an event without a peer, in their order.
pub open spec fn without_peer(list: Seq<Seq<char>>, peer: Seq<char>) -> Seq<Seq<char>> {
    list.filter(other_than(peer))
}

/// The subscriptions after a peer asked for an event: the peer comes last
/// among the event's subscribers, unless it is among them already.
pub open spec fn subscribe(
    events: Map<Seq<char>, Seq<Seq<char>>>,
    event: Seq<char>,
    peer: Seq<char>,
) -> Map<Seq<char>, Seq<Seq<char>>> {
    if !events.contains_key(event) {
        events.insert(event, seq![peer])
    } else if events[event].contains(peer) {
        events
    } else {
        events.insert(event, events[event].push(peer))
    }
}

/// The subscriptions without a peer: it leaves every event, and an event
/// that nobody is left for leaves the table.
pub open spec fn unsubscribe(
    events: Map<Seq<char>, Seq<Seq<char>>>,
    peer: Seq<char>,
) -> Map<Seq<char>, Seq<Seq<char>>> {
    Map::new(
        |event: Seq<char>| events.contains_key(event) && without_peer(events[event], peer).len() > 0,
        |event: Seq<char>| without_peer(events[event], peer),
    )
}

/// Every event has a subscriber, and none has a subscriber twice.
pub open spec fn subscriptions_wf(events: Map<Seq<char>, Seq<Seq<char>>>) -> bool {
    forall|event: Seq<char>| #[trigger]
        events.contains_key(event) ==> events[event].len() > 0 && events[event].no_duplicates()
}

/// The addresses of a list of peers, item by item.
pub open spec fn names(list: Seq<SocketHolder>) -> Seq<Seq<char>> {
    Seq::new(list.len(), |i: int| list[i]@)
}

/// A list without duplicates has none after a filter.
pub proof fn lemma_filter_no_duplicates<A>(s: Seq<A>, pred: spec_fn(A) -> bool)
    requires
        s.no_duplicates(),
    ensures
        s.filter(pred).no_duplicates(),
    decreases s.len(),
{
    reveal(Seq::filter);
    if s.len() > 0 {
        let rest = s.drop_last();
        lemma_filter_no_duplicates(rest, pred);
        if pred(s.last()) {
            let f = rest.filter(pred);
            if f.contains(s.last()) {
                rest.lemma_filter_contains_rev(pred, s.last());
                let j = choose|j: int| 0 <= j < rest.len() && rest[j] == s.last();
                assert(s[j] == s[s.len() - 1]);
            }
            assert forall|a: int, b: int| 0 <= a < f.push(s.last()).len() && 0 <= b < f.push(
                s.last(),
            ).len() && a != b implies f.push(s.last())[a] != f.push(s.last())[b] by {
                if a < f.len() && b < f.len() {
                } else if a < f.len() {
                    assert(f.contains(f[a]));
                } else if b < f.len() {
                    assert(f.contains(f[b]));
                }
            }
        }
    }
}

/// The peer is not among the subscribers that are left without it.
pub proof fn lemma_without_peer(list: Seq<Seq<char>>, peer: Seq<char>)
    ensures
        !without_peer(list, peer).contains(peer),
        forall|q: Seq<char>| q != peer && list.contains(q) ==> without_peer(list, peer).contains(q),
        forall|q: Seq<char>| without_peer(list, peer).contains(q) ==> list.contains(q),
{
    let rest = without_peer(list, peer);
    if rest.contains(peer) {
        let j = choose|j: int| 0 <= j < rest.len() && rest[j] == peer;
        list.lemma_filter_pred(other_than(peer), j);
    }
    assert forall|q: Seq<char>| q != peer && list.contains(q) implies rest.contains(q) by {
        let j = choose|j: int| 0 <= j < list.len() && list[j] == q;
        list.lemma_filter_contains(other_than(peer), j);
    }
    assert forall|q: Seq<char>| rest.contains(q) implies list.contains(q) by {
        list.lemma_filter_contains_rev(other_than(peer), q);
    }
}

/// The peers of a list but the one at `ip_address`, in their order.
fn drop_peer(list: &Vec<SocketHolder>, ip_address: &String) -> (rest: Vec<SocketHolder>)
    ensures
        names(rest@) == without_peer(names(list@), ip_address@),
{
    let ghost pred = other_than(ip_address@);
    let mut rest: Vec<SocketHolder> = Vec::new();
    let mut i: usize = 0;
    proof {
        reveal(Seq::filter);
        assert(names(list@).take(0).filter(pred) =~= names(rest@));
    }
    while i < list.len()
        invariant
            i <= list.len(),
            pred == other_than(ip_address@),
            names(rest@) == names(list@).take(i as int).filter(pred),
        decreases list.len() - i,
    {
        proof {
            assert(names(list@).take(i + 1) =~= names(list@).take(i as int).push(list@[i as int]@));
            names(list@).take(i as int).lemma_filter_push(list@[i as int]@, pred);
        }
        if list[i].name != *ip_address {
            let ghost before = names(rest@);
            rest.push(list[i].clone());
            assert(names(rest@) =~= before.push(list@[i as int]@));
        }
        i += 1;
    }
    assert(names(list@).take(i as int) =~= names(list@));
    rest
}

/// The subscriptions: the peers that asked for each event, in the order in
/// which they asked.
pub struct EventTable {
    entries: Vec<(String, Vec<SocketHolder>)>,
}

impl EventTable {
    /// The entries as pairs of an event name and its subscribers.
    pub closed spec fn pairs(&self) -> Seq<(Seq<char>, Seq<Seq<char>>)> {
        Seq::new(self.entries@.len(), |i: int| (self.entries@[i].0@, names(self.entries@[i].1@)))
    }

    /// No event is listed twice, each has a subscriber, and none has a
    /// subscriber twice.
    pub closed spec fn wf(&self) -> bool {
        &&& distinct(self.pairs())
        &&& forall|i: int|
            0 <= i < self.pairs().len() ==> (#[trigger] self.pairs()[i]).1.len() > 0
                && self.pairs()[i].1.no_duplicates()
    }

    /// The subscriptions as a map from event names to subscribers.
    pub closed spec fn view(&self) -> Map<Seq<char>, Seq<Seq<char>>> {
        to_map(self.pairs())
    }

    /// An empty table.
    pub fn new() -> (r: Self)
        ensures
            r.wf(),
            r@ == Map::<Seq<char>, Seq<Seq<char>>>::empty(),
    {
        let r = Self { entries: Vec::new() };
        assert(r@ =~= Map::<Seq<char>, Seq<Seq<char>>>::empty());
        r
    }

    fn find(&self, event: &String) -> (r: Option<usize>)
        ensures
            match r {
                Some(i) => i < self.pairs().len() && self.pairs()[i as int].0 == event@,
                None => forall|j: int|
                    0 <= j < self.pairs().len() ==> (#[trigger] self.pairs()[j]).0 != event@,
            },
    {
        let mut i: usize = 0;
        while i < self.entries.len()
            invariant
                i <= self.entries.len(),
                forall|j: int| 0 <= j < i ==> (#[trigger] self.pairs()[j]).0 != event@,
            decreases self.entries.len() - i,
        {
            if self.entries[i].0 == *event {
                return Some(i);
            }
            i += 1;
        }
        None
    }

    /// The subscribers of `event`, in the order in which they asked, if
    /// there are any.
    pub fn get(&self, event: &str) -> (r: Option<&Vec<SocketHolder>>)
        requires
            self.wf(),
        ensures
            match r {
                Some(list) => self@.contains_key(event@) && self@[event@] == names(list@),
                None => !self@.contains_key(event@),
            },
    {
        let wanted: String = event.to_owned();
        match self.find(&wanted) {
            Some(i) => {
                proof {
                    lemma_to_map_at(self.pairs(), i as int);
                }
                Some(&self.entries[i].1)
            },
            None => {
                proof {
                    lemma_to_map_absent(self.pairs(), event@);
                }
                None
            },
        }
    }

    /// Every event of the table has a subscriber, and none has one twice.
    pub proof fn lemma_wf(&self)
        requires
            self.wf(),
        ensures
            subscriptions_wf(self@),
    {
        assert forall|event: Seq<char>| #[trigger] self@.contains_key(event) implies self@[event].len()
            > 0 && self@[event].no_duplicates() by {
            let i = index_of(self.pairs(), event);
            lemma_to_map_at(self.pairs(), i);
        }
    }
}

/// Whether a peer with this address is in the list.
fn has_peer(list: &Vec<SocketHolder>, name: &String) -> (r: bool)
    ensures
        r == names(list@).contains(name@),
{
    let mut i: usize = 0;
    while i < list.len()
        invariant
            i <= list.len(),
            forall|j: int| 0 <= j < i ==> names(list@)[j] != name@,
        decreases list.len() - i,
    {
        if list[i].name == *name {
            assert(names(list@)[i as int] == name@);
            return true;
        }
        i += 1;
    }
    false
}

/// Adds the peer `value` to the subscribers of the event `key`, unless it is
/// among them already.
pub fn insert_or_update(map: &mut EventTable, key: &str, value: SocketHolder)
    requires
        old(map).wf(),
    ensures
        final(map).wf(),
        final(map)@ == subscribe(old(map)@, key@, value@),
{
    let event: String = key.to_owned();
    match map.find(&event) {
        Some(i) => {
            proof {
                lemma_to_map_at(map.pairs(), i as int);
            }
            if !has_peer(&map.entries[i].1, &value.name) {
                let ghost before = map.pairs();
                let ghost list = before[i as int].1;
                proof {
                    lemma_to_map_update(before, i as int, list.push(value@));
                }
                let (name, mut subscribers) = map.entries.remove(i);
                subscribers.push(value);
                map.entries.insert(i, (name, subscribers));
                assert(map.pairs() =~= before.update(i as int, (before[i as int].0, list.push(value@)))) by {
                    assert(names(subscribers@) =~= list.push(value@));
                    assert(map.entries@ =~= old(map).entries@.update(i as int, (name, subscribers)));
                }
                assert forall|j: int| 0 <= j < map.pairs().len() implies (
                #[trigger] map.pairs()[j]).1.len() > 0 && map.pairs()[j].1.no_duplicates() by {
                    if j != i {
                        assert(map.pairs()[j] == before[j]);
                    }
                }
            }
        },
        None => {
            let ghost before = map.pairs();
            proof {
                lemma_to_map_absent(before, key@);
                lemma_to_map_push(before, key@, seq![value@]);
            }
            let mut subscribers: Vec<SocketHolder> = Vec::new();
            subscribers.push(value);
            map.entries.push((event, subscribers));
            assert(map.pairs() =~= before.push((key@, seq![value@]))) by {
                assert(names(subscribers@) =~= seq![value@]);
            }
            assert forall|j: int| 0 <= j < map.pairs().len() implies (
            #[trigger] map.pairs()[j]).1.len() > 0 && map.pairs()[j].1.no_duplicates() by {
                if j < before.len() {
                    assert(map.pairs()[j] == before[j]);
                }
            }
        },
    }
}

/// Takes the peer at `ip_address` out of every event, and every event that
/// nobody is left for out of the table.
pub fn remove_socket(map: &mut EventTable, ip_address: &str)
    requires
        old(map).wf(),
    ensures
        final(map).wf(),
        final(map)@ == unsubscribe(old(map)@, ip_address@),
{
    let wanted: String = ip_address.to_owned();
    let mut kept = EventTable { entries: Vec::new() };
    let mut i: usize = 0;
    assert(kept@ =~= unsubscribe(to_map(map.pairs().take(0)), ip_address@));
    while i < map.entries.len()
        invariant
            i <= map.entries.len(),
            map.wf(),
            kept.wf(),
            wanted@ == ip_address@,
            kept@ == unsubscribe(to_map(map.pairs().take(i as int)), ip_address@),
        decreases map.entries.len() - i,
    {
        let ghost before = to_map(map.pairs().take(i as int));
        let ghost event = map.pairs()[i as int].0;
        let ghost list = map.pairs()[i as int].1;
        proof {
            lemma_take_lacks(map.pairs(), i as int);
            lemma_to_map_push(map.pairs().take(i as int), event, list);
            lemma_filter_no_duplicates(list, other_than(ip_address@));
        }
        let rest = drop_peer(&map.entries[i].1, &wanted);
        if rest.len() > 0 {
            proof {
                if has_key(kept.pairs(), event) {
                    assert(kept@.contains_key(event));
                    assert(before.contains_key(event));
                }
                lemma_to_map_push(kept.pairs(), event, names(rest@));
            }
            let ghost old_kept = kept.pairs();
            kept.entries.push((map.entries[i].0.clone(), rest));
            assert(kept.pairs() =~= old_kept.push((event, without_peer(list, ip_address@))));
            assert forall|j: int| 0 <= j < kept.pairs().len() implies (
            #[trigger] kept.pairs()[j]).1.len() > 0 && kept.pairs()[j].1.no_duplicates() by {
                if j < old_kept.len() {
                    assert(kept.pairs()[j] == old_kept[j]);
                }
            }
            assert(kept@ =~= unsubscribe(before.insert(event, list), ip_address@));
        } else {
            assert(kept@ =~= unsubscribe(before.insert(event, list), ip_address@));
        }
        i += 1;
    }
    assert(map.pairs().take(i as int) =~= map.pairs());
    map.entries = kept.entries;
}

/// A call that the broker has forwarded and whose answer is not in yet.
pub ghost struct InFlight {
    pub caller: Seq<char>,
    pub provider: Seq<char>,
}

/// The mathematical model of the broker's state.
pub ghost struct Broker {
    /// The peer that owns each registered object name.
    pub objects: Map<Seq<char>, Seq<char>>,
    /// The subscribers of each event, in the order in which they asked.
    pub events: Map<Seq<char>, Seq<Seq<char>>>,
    /// The call that is under way, if one is.
    pub in_flight: Option<InFlight>,
}

/// The model of a work item: a message from a peer, or the news that a peer
/// is gone.
pub ghost enum WorkItem {
    ProcessInput { peer: Seq<char>, message: Envelope },
    RemoveRegistered { peer: Seq<char> },
}

/// The model of an answer on a reply channel: a record, or bytes that are
/// passed on as they came.
pub ghost enum ReplyView {
    Record(Envelope),
    Bytes(Seq<u8>),
}

/// The model of what the broker has to do for a work item.
pub ghost enum ActionView {
    /// Send the answer to the peer that asked.
    Reply(ReplyView),
    /// Write the call to the provider and read one answer from it.
    Forward { provider: Seq<char>, request: Envelope },
    /// Write the value to each subscriber in turn, then send the answer.
    Broadcast { subscribers: Seq<Seq<char>>, result: ElemTree, reply: ReplyView },
    /// Send nothing.
    Nothing,
}

/// The model of how a forwarded call ended.
pub ghost enum OutcomeView {
    NotSerialized { error: ElemTree },
    NotWritten { message: Seq<char> },
    Replied { bytes: Seq<u8> },
    Closed,
    NotRead,
}

/// The answer `{"success":"OK"}`.
pub open spec fn success_reply() -> ReplyView {
    ReplyView::Record(Envelope::Success { success: StaticReplies::Okay.text() })
}

/// The answer `{"error": text}`.
pub open spec fn error_reply(text: Seq<char>) -> ReplyView {
    ReplyView::Record(Envelope::Error { error: ElemTree::String(text) })
}

/// Whether a peer's registration of a name is rejected: it is where another
/// peer owns the name.
pub open spec fn rejected(
    objects: Map<Seq<char>, Seq<char>>,
    name: Seq<char>,
    peer: Seq<char>,
) -> bool {
    objects.contains_key(name) && objects[name] != peer
}

/// The registry after a peer asked for a name: the peer owns the name,
/// unless the registration is rejected.
pub open spec fn register(
    objects: Map<Seq<char>, Seq<char>>,
    name: Seq<char>,
    peer: Seq<char>,
) -> Map<Seq<char>, Seq<char>> {
    if rejected(objects, name, peer) {
        objects
    } else {
        objects.insert(name, peer)
    }
}

/// The names a peer waits for, if all of them are registered, else none.
pub open spec fn available(objects: Map<Seq<char>, Seq<char>>, list: Seq<Seq<char>>) -> Seq<
    Seq<char>,
> {
    if forall|i: int| 0 <= i < list.len() ==> objects.contains_key(#[trigger] list[i]) {
        list
    } else {
        Seq::empty()
    }
}

/// The subscribers of an event, in the order in which they asked.
pub open spec fn subscribers(events: Map<Seq<char>, Seq<Seq<char>>>, event: Seq<char>) -> Seq<
    Seq<char>,
> {
    if events.contains_key(event) {
        events[event]
    } else {
        Seq::empty()
    }
}

/// The broker's state after a work item. A registration that is not
/// rejected gives the name to the peer; a call of a registered object is
/// under way from then on; a subscription adds the peer to the event; and a
/// peer that is gone leaves the registry and every event. Nothing else
/// changes the state.
pub open spec fn next_state(b: Broker, item: WorkItem) -> Broker {
    match item {
        WorkItem::ProcessInput { peer, message } => match message {
            Envelope::RegisterObject { reg_object } => Broker {
                objects: register(b.objects, reg_object, peer),
                ..b
            },
            Envelope::CallObjectRequest { object, .. } => if b.objects.contains_key(object) {
                Broker {
                    in_flight: Some(InFlight { caller: peer, provider: b.objects[object] }),
                    ..b
                }
            } else {
                b
            },
            Envelope::SubscribeToEvent { event_name } => Broker {
                events: subscribe(b.events, event_name, peer),
                ..b
            },
            _ => b,
        },
        WorkItem::RemoveRegistered { peer } => Broker {
            objects: without_owner(b.objects, peer),
            events: unsubscribe(b.events, peer),
            ..b
        },
    }
}

/// What the broker has to do for a work item. A registration and a
/// subscription are answered with success; a registration is so whether it
/// was taken or rejected. A call goes to the owner of the object, or is
/// answered with the error of `StaticReplies::ObjectNotFound`. A peer that
/// waits is told the names that are there. An event goes to its
/// subscribers, and is then answered with success. Nothing is sent for any
/// other message, nor for the news that a peer is gone.
pub open spec fn next_action(b: Broker, item: WorkItem) -> ActionView {
    match item {
        WorkItem::ProcessInput { peer, message } => match message {
            Envelope::RegisterObject { .. } => ActionView::Reply(success_reply()),
            Envelope::CallObjectRequest { object, .. } => if b.objects.contains_key(object) {
                ActionView::Forward { provider: b.objects[object], request: message }
            } else {
                ActionView::Reply(error_reply(StaticReplies::ObjectNotFound.text()))
            },
            Envelope::ListObjects { list } => ActionView::Reply(
                ReplyView::Record(Envelope::ListObjects { list: available(b.objects, list) }),
            ),
            Envelope::SubscribeToEvent { .. } => ActionView::Reply(success_reply()),
            Envelope::Event { event, result } => ActionView::Broadcast {
                subscribers: subscribers(b.events, event),
                result,
                reply: success_reply(),
            },
            _ => ActionView::Nothing,
        },
        WorkItem::RemoveRegistered { .. } => ActionView::Nothing,
    }
}

/// Whether the end of a forwarded call shows that the provider is gone: it
/// does where the provider's socket took no bytes, was at its end, could not
/// be read, or gave an answer of no bytes.
pub open spec fn provider_lost(outcome: OutcomeView) -> bool {
    match outcome {
        OutcomeView::NotSerialized { .. } => false,
        OutcomeView::NotWritten { .. } => true,
        OutcomeView::Replied { bytes } => bytes.len() == 0,
        OutcomeView::Closed => true,
        OutcomeView::NotRead => true,
    }
}

/// The broker's state after a forwarded call ended: no call is under way,
/// and a provider that is gone owns no object and is subscribed to no event
/// any more, as if the broker had been told so.
pub open spec fn state_after_call(b: Broker, outcome: OutcomeView) -> Broker {
    if provider_lost(outcome) {
        Broker {
            in_flight: None,
            ..next_state(b, WorkItem::RemoveRegistered { peer: b.in_flight->Some_0.provider })
        }
    } else {
        Broker { in_flight: None, ..b }
    }
}

/// The answer to the caller after a forwarded call ended: the provider's
/// bytes as they came, or an error.
pub open spec fn reply_after_call(outcome: OutcomeView) -> ReplyView {
    match outcome {
        OutcomeView::NotSerialized { error } => ReplyView::Record(Envelope::Error { error }),
        OutcomeView::NotWritten { message } => error_reply(message),
        OutcomeView::Replied { bytes } => if bytes.len() > 0 {
            ReplyView::Bytes(bytes)
        } else {
            error_reply(StaticReplies::ClientConnectionError.text())
        },
        OutcomeView::Closed => error_reply(StaticReplies::ClientConnectionError.text()),
        OutcomeView::NotRead => error_reply(StaticReplies::ClientConnectionError.text()),
    }
}

/// An answer on a reply channel.
#[derive(Debug)]
pub enum Reply {
    Success(Success),
    Error(Error),
    List(ListObjects),
    /// Bytes that are passed on as they came.
    Bytes(Vec<u8>),
}

impl Reply {
    pub open spec fn view(&self) -> ReplyView {
        match self {
            Reply::Success(m) => ReplyView::Record(m@),
            Reply::Error(m) => ReplyView::Record(m@),
            Reply::List(m) => ReplyView::Record(m@),
            Reply::Bytes(bytes) => ReplyView::Bytes(bytes@),
        }
    }

    /// The bytes to send: the JSON text of a record, or the bytes as they
    /// are.
    pub fn serialize(self) -> (r: Result<Vec<u8>, Error>)
        ensures
            match self@ {
                ReplyView::Record(e) => {
                    &&& r matches Ok(bytes) ==> encoded(e) == Ok::<_, ElemTree>(bytes@)
                    &&& r matches Err(error) ==> encoded(e) == Err::<Seq<u8>, _>(error.error@)
                },
                ReplyView::Bytes(bytes) => r matches Ok(sent) && sent@ == bytes,
            },
    {
        match self {
            Reply::Success(m) => m.serialize(),
            Reply::Error(m) => m.serialize(),
            Reply::List(m) => m.serialize(),
            Reply::Bytes(bytes) => Ok(bytes),
        }
    }
}

/// What the broker has to do for a work item.
#[derive(Debug)]
pub enum Action {
    /// Send the answer to the peer that asked.
    Reply(Reply),
    /// Write the call to the provider and read one answer from it, then
    /// report how that ended.
    Forward { provider: SocketHolder, request: CallObjectRequest },
    /// Write the value to each subscriber in turn, then send the answer.
    Broadcast { subscribers: Vec<SocketHolder>, result: JsonElem, reply: Reply },
    /// Send nothing.
    Nothing,
}

impl Action {
    pub open spec fn view(&self) -> ActionView {
        match self {
            Action::Reply(reply) => ActionView::Reply(reply@),
            Action::Forward { provider, request } => ActionView::Forward {
                provider: provider@,
                request: request@,
            },
            Action::Broadcast { subscribers, result, reply } => ActionView::Broadcast {
                subscribers: names(subscribers@),
                result: result@,
                reply: reply@,
            },
            Action::Nothing => ActionView::Nothing,
        }
    }
}

/// How a forwarded call ended.
#[derive(Debug)]
pub enum CallOutcome {
    /// The call could not be written as JSON.
    NotSerialized(Error),
    /// The provider's socket took no bytes; the message says why.
    NotWritten(String),
    /// The provider answered with these bytes.
    Replied(Vec<u8>),
    /// The provider's socket was at its end.
    Closed,
    /// The provider's socket could not be read.
    NotRead,
}

impl CallOutcome {
    pub open spec fn view(&self) -> OutcomeView {
        match self {
            CallOutcome::NotSerialized(error) => OutcomeView::NotSerialized { error: error.error@ },
            CallOutcome::NotWritten(message) => OutcomeView::NotWritten { message: message@ },
            CallOutcome::Replied(bytes) => OutcomeView::Replied { bytes: bytes@ },
            CallOutcome::Closed => OutcomeView::Closed,
            CallOutcome::NotRead => OutcomeView::NotRead,
        }
    }
}

impl Message {
    pub open spec fn view(&self) -> WorkItem {
        match self {
            Message::ProcessInput(session) => WorkItem::ProcessInput {
                peer: session.socket_holder@,
                message: session.msg@,
            },
            Message::RemoveRegistered(session) => WorkItem::RemoveRegistered {
                peer: session.socket_holder@,
            },
        }
    }
}

/// The task manager: the registry, the subscriptions, and the call that is
/// under way.
pub struct TaskManager {
    list_session: ObjectTable,
    list_subscriber_for_event: EventTable,
    in_flight: Option<(SocketHolder, SocketHolder)>,
}

impl TaskManager {
    /// Both tables are well formed.
    pub closed spec fn wf(&self) -> bool {
        self.list_session.wf() && self.list_subscriber_for_event.wf()
    }

    /// The model of this state.
    pub closed spec fn view(&self) -> Broker {
        Broker {
            objects: self.list_session@,
            events: self.list_subscriber_for_event@,
            in_flight: match self.in_flight {
                Some((caller, provider)) => Some(
                    InFlight { caller: caller@, provider: provider@ },
                ),
                None => None,
            },
        }
    }

    /// A task manager that knows no object and no subscriber.
    pub fn new() -> (r: Self)
        ensures
            r.wf(),
            r@ == (Broker { objects: Map::empty(), events: Map::empty(), in_flight: None }),
    {
        Self {
            list_session: ObjectTable::new(),
            list_subscriber_for_event: EventTable::new(),
            in_flight: None,
        }
    }

    /// The peer that owns `name`, if the name is registered.
    pub fn owner(&self, name: &str) -> (r: Option<&SocketHolder>)
        requires
            self.wf(),
        ensures
            match r {
                Some(holder) => self@.objects.contains_key(name@) && self@.objects[name@]
                    == holder@,
                None => !self@.objects.contains_key(name@),
            },
    {
        self.list_session.get(name)
    }

    /// The subscribers of `event`, in the order in which they asked.
    pub fn subscribers(&self, event: &str) -> (r: Vec<SocketHolder>)
        requires
            self.wf(),
        ensures
            names(r@) == subscribers(self@.events, event@),
    {
        match self.list_subscriber_for_event.get(event) {
            Some(list) => {
                let mut copies: Vec<SocketHolder> = Vec::new();
                let mut i: usize = 0;
                while i < list.len()
                    invariant
                        i <= list.len(),
                        copies.len() == i,
                        forall|j: int| 0 <= j < i ==> copies@[j]@ == list@[j]@,
                    decreases list.len() - i,
                {
                    copies.push(list[i].clone());
                    i += 1;
                }
                assert(names(copies@) =~= names(list@));
                copies
            },
            None => {
                let none: Vec<SocketHolder> = Vec::new();
                assert(names(none@) =~= Seq::empty());
                none
            },
        }
    }

    /// Whether a forwarded call is under way.
    pub fn is_busy(&self) -> (r: bool)
        ensures
            r == self@.in_flight is Some,
    {
        self.in_flight.is_some()
    }

    /// Lists `holder` as the owner of `name`, unless another peer owns the
    /// name: then the registration is rejected and nothing changes. Says
    /// whether the registration was taken.
    pub fn register(&mut self, name: String, holder: SocketHolder) -> (taken: bool)
        requires
            old(self).wf(),
        ensures
            final(self).wf(),
            taken == !rejected(old(self)@.objects, name@, holder@),
            final(self)@ == (Broker {
                objects: register(old(self)@.objects, name@, holder@),
                ..old(self)@
            }),
    {
        let free = match self.list_session.get(name.as_str()) {
            Some(owner) => owner.name == holder.name,
            None => true,
        };
        if free {
            self.list_session.insert(name, holder);
        }
        free
    }

    /// The answer for a peer that waits for objects: the names it asked
    /// for, if all of them are registered, else no name.
    pub fn wait_for_objects(&self, request: ListObjects) -> (reply: ListObjects)
        requires
            self.wf(),
        ensures
            strings_view(reply.list@) == available(self@.objects, strings_view(request.list@)),
    {
        let all = self.list_session.contains_all(&request.list);
        proof {
            let list = strings_view(request.list@);
            if all {
                assert forall|i: int| 0 <= i < list.len() implies self@.objects.contains_key(
                    #[trigger] list[i],
                ) by {
                    assert(list[i] == request.list@[i]@);
                }
            } else {
                let i = choose|i: int|
                    0 <= i < request.list@.len() && !self@.objects.contains_key(
                        #[trigger] request.list@[i]@,
                    );
                assert(list[i] == request.list@[i]@);
            }
        }
        if all {
            request
        } else {
            let reply = ListObjects::new(Vec::new());
            assert(strings_view(reply.list@) =~= Seq::empty());
            reply
        }
    }

    /// Looks up the provider of a call. Where the object is registered the
    /// call is to be forwarded to its owner, and is under way from now on;
    /// where it is not, the answer is the error of
    /// `StaticReplies::ObjectNotFound`.
    pub fn handle_call_request(&mut self, caller: SocketHolder, request: CallObjectRequest) -> (action:
        Action)
        requires
            old(self).wf(),
            old(self)@.in_flight is None,
        ensures
            final(self).wf(),
            final(self)@ == next_state(
                old(self)@,
                WorkItem::ProcessInput { peer: caller@, message: request@ },
            ),
            action@ == next_action(
                old(self)@,
                WorkItem::ProcessInput { peer: caller@, message: request@ },
            ),
    {
        match self.list_session.get(request.object.as_str()) {
            Some(holder) => {
                let provider = holder.clone();
                self.in_flight = Some((caller, provider.clone()));
                Action::Forward { provider, request }
            },
            None => Action::Reply(Reply::Error(StaticReplies::ObjectNotFound.error())),
        }
    }

    /// Ends the call that is under way. A provider that is gone (its socket
    /// took no bytes, was at its end, could not be read, or gave an answer of
    /// no bytes) loses every object it owns and every subscription. The
    /// caller gets the provider's bytes as they came, or an error: the one
    /// that kept the call from being written, or that of
    /// `StaticReplies::ClientConnectionError` where no answer could be read.
    pub fn complete_call(&mut self, outcome: CallOutcome) -> (reply: Reply)
        requires
            old(self).wf(),
            old(self)@.in_flight is Some,
        ensures
            final(self).wf(),
            final(self)@ == state_after_call(old(self)@, outcome@),
            reply@ == reply_after_call(outcome@),
    {
        let in_flight = self.in_flight.take();
        let lost = match &outcome {
            CallOutcome::NotSerialized(_) => false,
            CallOutcome::NotWritten(_) => true,
            CallOutcome::Replied(bytes) => bytes.len() == 0,
            CallOutcome::Closed => true,
            CallOutcome::NotRead => true,
        };
        if lost {
            match in_flight {
                Some((_, provider)) => {
                    self.remove_registered(provider.name.as_str());
                },
                None => {},
            }
        }
        match outcome {
            CallOutcome::NotSerialized(error) => Reply::Error(error),
            CallOutcome::NotWritten(message) => Reply::Error(
                Error::new(JsonElem::String(message)),
            ),
            CallOutcome::Replied(bytes) => if bytes.len() > 0 {
                Reply::Bytes(bytes)
            } else {
                Reply::Error(StaticReplies::ClientConnectionError.error())
            },
            CallOutcome::Closed => Reply::Error(StaticReplies::ClientConnectionError.error()),
            CallOutcome::NotRead => Reply::Error(StaticReplies::ClientConnectionError.error()),
        }
    }

    /// Forgets a peer that is gone: it owns no object and is subscribed to
    /// no event any more.
    pub fn remove_registered(&mut self, ip_address: &str)
        requires
            old(self).wf(),
        ensures
            final(self).wf(),
            final(self)@ == next_state(
                old(self)@,
                WorkItem::RemoveRegistered { peer: ip_address@ },
            ),
    {
        self.list_session.retain_others(ip_address);
        remove_socket(&mut self.list_subscriber_for_event, ip_address);
    }

    /// Does one work item: changes the registry and the subscriptions as the
    /// item asks, and says what is to be sent to whom.
    pub fn handle(&mut self, message: Message) -> (action: Action)
        requires
            old(self).wf(),
            old(self)@.in_flight is None,
        ensures
            final(self).wf(),
            final(self)@ == next_state(old(self)@, message@),
            action@ == next_action(old(self)@, message@),
    {
        match message {
            Message::ProcessInput(session) => {
                let peer = session.socket_holder;
                match session.msg {
                    IpcMessage::Register(data) => {
                        let _ = self.register(data.reg_object, peer);
                        Action::Reply(Reply::Success(Success::new(StaticReplies::Okay.as_ref())))
                    },
                    IpcMessage::Call(request) => self.handle_call_request(peer, request),
                    IpcMessage::WaitForObjects(request) => Action::Reply(
                        Reply::List(self.wait_for_objects(request)),
                    ),
                    IpcMessage::AddToEventList(add_to_event) => {
                        insert_or_update(
                            &mut self.list_subscriber_for_event,
                            add_to_event.event_name.as_str(),
                            peer,
                        );
                        Action::Reply(Reply::Success(Success::new(StaticReplies::Okay.as_ref())))
                    },
                    IpcMessage::BroadCastEvent(event) => {
                        let subscribers = self.subscribers(event.event.as_str());
                        Action::Broadcast {
                            subscribers,
                            result: event.result,
                            reply: Reply::Success(Success::new(StaticReplies::Okay.as_ref())),
                        }
                    },
                    _ => Action::Nothing,
                }
            },
            Message::RemoveRegistered(session) => {
                self.remove_registered(session.socket_holder.name.as_str());
                Action::Nothing
            },
        }
    }
}

impl ObjectTable {
    /// At most one peer owns a registered object name.
    pub proof fn lemma_single_owner(&self, first: Seq<char>, second: Seq<char>, name: Seq<char>)
        requires
            self.wf(),
            self.owns(first, name),
            self.owns(second, name),
        ensures
            first == second,
    {
        self.lemma_owner(first, name);
        self.lemma_owner(second, name);
    }
}

impl TaskManager {
    /// In every state of the task manager each event has a subscriber, and
    /// no event has a subscriber twice.
    pub proof fn lemma_wf(&self)
        requires
            self.wf(),
        ensures
            subscriptions_wf(self@.events),
    {
        self.list_subscriber_for_event.lemma_wf();
    }
}

/// After the broker was told that a peer is gone, the peer owns no object
/// and is subscribed to no event.
pub proof fn lemma_removed_peer_is_gone(b: Broker, peer: Seq<char>)
    ensures
        forall|name: Seq<char>| #[trigger]
            next_state(b, WorkItem::RemoveRegistered { peer }).objects.contains_key(name)
                ==> next_state(b, WorkItem::RemoveRegistered { peer }).objects[name] != peer,
        forall|event: Seq<char>| #[trigger]
            next_state(b, WorkItem::RemoveRegistered { peer }).events.contains_key(event)
                ==> !next_state(b, WorkItem::RemoveRegistered { peer }).events[event].contains(
                peer,
            ),
{
    let after = next_state(b, WorkItem::RemoveRegistered { peer });
    assert forall|event: Seq<char>| #[trigger] after.events.contains_key(event) implies !after.events[event].contains(
        peer,
    ) by {
        lemma_without_peer(b.events[event], peer);
    }
}

/// A subscription keeps every event with a subscriber and without a
/// subscriber twice.
pub proof fn lemma_subscribe_wf(
    events: Map<Seq<char>, Seq<Seq<char>>>,
    event: Seq<char>,
    peer: Seq<char>,
)
    requires
        subscriptions_wf(events),
    ensures
        subscriptions_wf(subscribe(events, event, peer)),
        subscribe(events, event, peer).contains_key(event),
        subscribe(events, event, peer)[event].contains(peer),
{
    let after = subscribe(events, event, peer);
    if !events.contains_key(event) {
        assert(seq![peer][0] == peer);
    } else if !events[event].contains(peer) {
        let list = events[event];
        assert(list.push(peer)[list.len() as int] == peer);
        assert(events.contains_key(event));
        assert forall|a: int, b: int|
            0 <= a < list.push(peer).len() && 0 <= b < list.push(peer).len() && a
                != b implies list.push(peer)[a] != list.push(peer)[b] by {
            if a < list.len() && b < list.len() {
            } else if a < list.len() {
                assert(list.contains(list[a]));
            } else if b < list.len() {
                assert(list.contains(list[b]));
            }
        }
    }
    assert forall|e: Seq<char>| #[trigger] after.contains_key(e) implies after[e].len() > 0
        && after[e].no_duplicates() by {
        if e != event {
            assert(events.contains_key(e));
        }
    }
}

/// Taking a peer out keeps every event with a subscriber and without a
/// subscriber twice.
pub proof fn lemma_unsubscribe_wf(events: Map<Seq<char>, Seq<Seq<char>>>, peer: Seq<char>)
    requires
        subscriptions_wf(events),
    ensures
        subscriptions_wf(unsubscribe(events, peer)),
{
    let after = unsubscribe(events, peer);
    assert forall|e: Seq<char>| #[trigger] after.contains_key(e) implies after[e].len() > 0
        && after[e].no_duplicates() by {
        assert(events.contains_key(e));
        lemma_filter_no_duplicates(events[e], other_than(peer));
    }
}

/// Whatever work item the broker does, and however a forwarded call ends,
/// each event keeps a subscriber and has no subscriber twice.
pub proof fn lemma_subscriptions_stay_wf(b: Broker, item: WorkItem, outcome: OutcomeView)
    requires
        subscriptions_wf(b.events),
    ensures
        subscriptions_wf(next_state(b, item).events),
        subscriptions_wf(state_after_call(b, outcome).events),
{
    if provider_lost(outcome) {
        lemma_unsubscribe_wf(b.events, b.in_flight->Some_0.provider);
    }
    match item {
        WorkItem::ProcessInput { peer, message } => match message {
            Envelope::SubscribeToEvent { event_name } => {
                lemma_subscribe_wf(b.events, event_name, peer);
            },
            _ => {},
        },
        WorkItem::RemoveRegistered { peer } => {
            lemma_unsubscribe_wf(b.events, peer);
        },
    }
}

/// A call of a registered object goes to the peer that owns the object, once
/// and as it came; and the caller gets one answer, which is the bytes that
/// the provider answered with, or an error record.
pub proof fn lemma_call_is_forwarded(
    b: Broker,
    caller: Seq<char>,
    object: Seq<char>,
    method: Seq<char>,
    param: Option<ElemTree>,
    outcome: OutcomeView,
)
    requires
        b.objects.contains_key(object),
    ensures
        next_action(
            b,
            WorkItem::ProcessInput {
                peer: caller,
                message: Envelope::CallObjectRequest { object, method, param },
            },
        ) == (ActionView::Forward {
            provider: b.objects[object],
            request: Envelope::CallObjectRequest { object, method, param },
        }),
        next_state(
            b,
            WorkItem::ProcessInput {
                peer: caller,
                message: Envelope::CallObjectRequest { object, method, param },
            },
        ).in_flight == Some(InFlight { caller, provider: b.objects[object] }),
        match outcome {
            OutcomeView::Replied { bytes } if bytes.len() > 0 => reply_after_call(outcome)
                == ReplyView::Bytes(bytes),
            _ => reply_after_call(outcome) matches ReplyView::Record(e) && e is Error,
        },
        state_after_call(b, outcome).in_flight is None,
{
}

/// A peer that waits for objects is told the names it asked for if each of
/// them is registered, and no name if one of them is not.
pub proof fn lemma_wait_for_objects(b: Broker, peer: Seq<char>, list: Seq<Seq<char>>)
    ensures
        (forall|i: int| 0 <= i < list.len() ==> b.objects.contains_key(#[trigger] list[i]))
            ==> next_action(
            b,
            WorkItem::ProcessInput { peer, message: Envelope::ListObjects { list } },
        ) == ActionView::Reply(ReplyView::Record(Envelope::ListObjects { list })),
        !(forall|i: int| 0 <= i < list.len() ==> b.objects.contains_key(#[trigger] list[i]))
            ==> next_action(
            b,
            WorkItem::ProcessInput { peer, message: Envelope::ListObjects { list } },
        ) == ActionView::Reply(
            ReplyView::Record(Envelope::ListObjects { list: Seq::empty() }),
        ),
        next_state(b, WorkItem::ProcessInput { peer, message: Envelope::ListObjects { list } })
            == b,
{
}

/// A peer that asks twice for an event is subscribed as if it had asked
/// once.
pub proof fn lemma_subscribe_twice(
    events: Map<Seq<char>, Seq<Seq<char>>>,
    event: Seq<char>,
    peer: Seq<char>,
)
    ensures
        subscribe(subscribe(events, event, peer), event, peer) == subscribe(events, event, peer),
{
    let once = subscribe(events, event, peer);
    if !events.contains_key(event) {
        assert(seq![peer][0] == peer);
    } else if !events[event].contains(peer) {
        assert(events[event].push(peer)[events[event].len() as int] == peer);
    }
    assert(once.contains_key(event) && once[event].contains(peer));
}

/// A peer that asks for an event comes behind the peers that asked before
/// it, and these keep their order.
pub proof fn lemma_subscribe_keeps_order(
    events: Map<Seq<char>, Seq<Seq<char>>>,
    event: Seq<char>,
    peer: Seq<char>,
)
    requires
        !subscribers(events, event).contains(peer),
    ensures
        subscribers(subscribe(events, event, peer), event) == subscribers(events, event).push(peer),
        forall|other: Seq<char>|
            other != event ==> subscribers(subscribe(events, event, peer), other) == subscribers(
                events,
                other,
            ),
{
    if !events.contains_key(event) {
        assert(seq![peer] =~= Seq::<Seq<char>>::empty().push(peer));
    }
}

/// Once a peer has registered a name that was free or its own, a call of the
/// name goes to that peer.
pub proof fn lemma_register_then_call(
    b: Broker,
    provider: Seq<char>,
    caller: Seq<char>,
    object: Seq<char>,
    method: Seq<char>,
    param: Option<ElemTree>,
)
    requires
        !b.objects.contains_key(object) || b.objects[object] == provider,
    ensures
        next_action(
            next_state(
                b,
                WorkItem::ProcessInput {
                    peer: provider,
                    message: Envelope::RegisterObject { reg_object: object },
                },
            ),
            WorkItem::ProcessInput {
                peer: caller,
                message: Envelope::CallObjectRequest { object, method, param },
            },
        ) == (ActionView::Forward {
            provider,
            request: Envelope::CallObjectRequest { object, method, param },
        }),
{
}

/// A name that another peer owns stays with that peer, whoever asks for it.
pub proof fn lemma_register_keeps_owner(
    b: Broker,
    peer: Seq<char>,
    object: Seq<char>,
)
    requires
        b.objects.contains_key(object),
        b.objects[object] != peer,
    ensures
        next_state(
            b,
            WorkItem::ProcessInput {
                peer,
                message: Envelope::RegisterObject { reg_object: object },
            },
        ) == b,
{
}

/// Once the broker was told that a peer is gone, a call of a name that the
/// peer owned is answered with the error of `StaticReplies::ObjectNotFound`.
pub proof fn lemma_call_after_removal(
    b: Broker,
    provider: Seq<char>,
    caller: Seq<char>,
    object: Seq<char>,
    method: Seq<char>,
    param: Option<ElemTree>,
)
    requires
        b.objects.contains_key(object),
        b.objects[object] == provider,
    ensures
        next_action(
            next_state(b, WorkItem::RemoveRegistered { peer: provider }),
            WorkItem::ProcessInput {
                peer: caller,
                message: Envelope::CallObjectRequest { object, method, param },
            },
        ) == ActionView::Reply(error_reply(StaticReplies::ObjectNotFound.text())),
{
}

/// An event goes to the peers that asked for it before it came, and to no
/// other.
pub proof fn lemma_broadcast_reaches_subscribers(
    b: Broker,
    publisher: Seq<char>,
    event: Seq<char>,
    result: ElemTree,
    peer: Seq<char>,
)
    requires
        subscriptions_wf(b.events),
    ensures
        next_action(
            b,
            WorkItem::ProcessInput { peer: publisher, message: Envelope::Event { event, result } },
        ) matches ActionView::Broadcast { subscribers: to, result: sent, reply }
            && sent == result && reply == success_reply() && to.no_duplicates() && (to.contains(
            peer,
        ) <==> b.events.contains_key(event) && b.events[event].contains(peer)),
{
}

/// Once a forwarded call ended with the provider gone, the provider owns no
/// object and is subscribed to no event, what other peers own is as it was,
/// and a call of any name that the provider owned is answered with the
/// error of `StaticReplies::ObjectNotFound`.
pub proof fn lemma_call_after_lost_provider(
    b: Broker,
    outcome: OutcomeView,
    caller: Seq<char>,
    object: Seq<char>,
    method: Seq<char>,
    param: Option<ElemTree>,
)
    requires
        b.in_flight is Some,
        provider_lost(outcome),
        b.objects.contains_key(object),
        b.objects[object] == b.in_flight->Some_0.provider,
    ensures
        next_action(
            state_after_call(b, outcome),
            WorkItem::ProcessInput {
                peer: caller,
                message: Envelope::CallObjectRequest { object, method, param },
            },
        ) == ActionView::Reply(error_reply(StaticReplies::ObjectNotFound.text())),
        forall|name: Seq<char>| #[trigger]
            state_after_call(b, outcome).objects.contains_key(name) <==> b.objects.contains_key(
                name,
            ) && b.objects[name] != b.in_flight->Some_0.provider,
        forall|name: Seq<char>| #[trigger]
            state_after_call(b, outcome).objects.contains_key(name) ==> state_after_call(
                b,
                outcome,
            ).objects[name] == b.objects[name],
        forall|event: Seq<char>| #[trigger]
            state_after_call(b, outcome).events.contains_key(event) ==> !state_after_call(
                b,
                outcome,
            ).events[event].contains(b.in_flight->Some_0.provider),
{
    lemma_removed_peer_is_gone(b, b.in_flight->Some_0.provider);
}

/// A forwarded call that ended with the provider still there changes
/// neither the registry nor the subscriptions.
pub proof fn lemma_call_with_provider_there(b: Broker, outcome: OutcomeView)
    requires
        !provider_lost(outcome),
    ensures
        state_after_call(b, outcome) == (Broker { in_flight: None, ..b }),
{
}

} // verus!
