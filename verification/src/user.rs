use crate::client::{ClientView, GatewayClient};
use crate::wire::{Event, EventView, ServerFrame, ServerFrameView};
use vstd::prelude::*;

verus! {

/// Mathematical value of a [`GatewayUser`].
pub struct UserView {
    pub id: u64,
    /// The sessions of the user, in the order in which they were attached.
    pub clients: Seq<ClientView>,
    /// The topics whose events the user's sessions receive.
    pub subscriptions: Set<u64>,
}

/// Whether no two of `clients` share a session id.
pub open spec fn distinct_sessions(clients: Seq<ClientView>) -> bool {
    forall|i: int, j: int|
        0 <= i < j < clients.len() ==> (#[trigger] clients[i]).session_id != (
        #[trigger] clients[j]).session_id
}

/// Whether one of `clients` has the session id `session_id`.
pub open spec fn has_session(clients: Seq<ClientView>, session_id: Seq<char>) -> bool {
    exists|i: int| 0 <= i < clients.len() && (#[trigger] clients[i]).session_id == session_id
}

/// The position of the first of `clients` with the session id `session_id`;
/// the length of `clients` where there is none.
pub open spec fn position(clients: Seq<ClientView>, session_id: Seq<char>) -> int
    decreases clients.len(),
{
    if clients.len() == 0 {
        0
    } else if position(clients.drop_last(), session_id) < clients.len() - 1 {
        position(clients.drop_last(), session_id)
    } else if clients.last().session_id == session_id {
        clients.len() - 1
    } else {
        clients.len() as int
    }
}

/// `position` finds the first session with the id, and only where there is
/// none does it give the length.
pub proof fn lemma_position(clients: Seq<ClientView>, session_id: Seq<char>)
    ensures
        0 <= position(clients, session_id) <= clients.len(),
        position(clients, session_id) < clients.len() ==> clients[position(
            clients,
            session_id,
        )].session_id == session_id,
        forall|k: int|
            0 <= k < position(clients, session_id) ==> (#[trigger] clients[k]).session_id
                != session_id,
        has_session(clients, session_id) <==> position(clients, session_id) < clients.len(),
    decreases clients.len(),
{
    if clients.len() > 0 {
        lemma_position(clients.drop_last(), session_id);
        let p = position(clients.drop_last(), session_id);
        assert forall|k: int| 0 <= k < position(clients, session_id) implies (
        #[trigger] clients[k]).session_id != session_id by {
            if k < clients.len() - 1 {
                assert(clients.drop_last()[k] == clients[k]);
            }
        }
        if p < clients.len() - 1 {
            assert(clients.drop_last()[p] == clients[p]);
        }
    }
}

impl UserView {
    /// The invariant of a user: every session is sound and refers back to
    /// this user, no two sessions share an id, and the topics are finitely
    /// many.
    pub open spec fn wf(self) -> bool {
        &&& forall|i: int|
            0 <= i < self.clients.len() ==> (#[trigger] self.clients[i]).wf()
                && self.clients[i].parent == self.id
        &&& distinct_sessions(self.clients)
        &&& self.subscriptions.finite()
    }
}

/// The mathematical values of a list of sessions.
pub open spec fn clients_view(clients: Seq<GatewayClient>) -> Seq<ClientView> {
    clients.map_values(|c: GatewayClient| c@)
}

/// All sessions of one user, and the topics they listen to.
pub struct GatewayUser {
    id: u64,
    clients: Vec<GatewayClient>,
    subscriptions: Vec<u64>,
}

impl View for GatewayUser {
    type V = UserView;

    closed spec fn view(&self) -> UserView {
        UserView {
            id: self.id,
            clients: clients_view(self.clients@),
            subscriptions: self.subscriptions@.to_set(),
        }
    }
}

impl GatewayUser {
    /// That no topic is stored twice.
    pub closed spec fn topics_stored_once(&self) -> bool {
        self.subscriptions@.no_duplicates()
    }

    /// The invariant of the user.
    pub open spec fn wf(&self) -> bool {
        &&& self@.wf()
        &&& self.topics_stored_once()
    }

    /// The user `id`, without sessions and without topics.
    pub fn new(id: u64) -> (user: GatewayUser)
        ensures
            user.wf(),
            user@ == (UserView { id, clients: Seq::empty(), subscriptions: Set::empty() }),
    {
        let user = GatewayUser { id, clients: Vec::new(), subscriptions: Vec::new() };
        assert(user@.clients =~= Seq::<ClientView>::empty());
        assert(user@.subscriptions =~= Set::<u64>::empty());
        user
    }

    /// The id of the user.
    pub fn id(&self) -> (id: u64)
        ensures
            id == self@.id,
    {
        self.id
    }

    /// How many sessions the user has, those that wait for a resume
    /// included.
    pub fn client_count(&self) -> (n: usize)
        ensures
            n == self@.clients.len(),
    {
        self.clients.len()
    }

    /// The session at position `index`.
    pub fn client(&self, index: usize) -> (client: &GatewayClient)
        requires
            index < self@.clients.len(),
        ensures
            client@ == self@.clients[index as int],
            self.wf() ==> client.wf(),
    {
        &self.clients[index]
    }

    /// How many topics the user is subscribed to.
    pub fn subscription_count(&self) -> (n: usize)
        requires
            self.wf(),
        ensures
            n == self@.subscriptions.len(),
    {
        proof {
            self.subscriptions@.unique_seq_to_set();
        }
        self.subscriptions.len()
    }

    /// Whether the user is subscribed to `topic`.
    pub fn is_subscribed(&self, topic: u64) -> (yes: bool)
        ensures
            yes == self@.subscriptions.contains(topic),
    {
        let mut i: usize = 0;
        while i < self.subscriptions.len()
            invariant
                i <= self.subscriptions@.len(),
                forall|k: int| 0 <= k < i ==> self.subscriptions@[k] != topic,
            decreases self.subscriptions@.len() - i,
        {
            if self.subscriptions[i] == topic {
                assert(self.subscriptions@.contains(topic));
                return true;
            }
            i = i + 1;
        }
        assert(!self.subscriptions@.contains(topic));
        false
    }

    /// Subscribes the user to `topic`.
    pub fn subscribe(&mut self, topic: u64)
        requires
            old(self).wf(),
        ensures
            final(self).wf(),
            final(self)@ == (UserView {
                subscriptions: old(self)@.subscriptions.insert(topic),
                ..old(self)@
            }),
    {
        if !self.is_subscribed(topic) {
            let ghost before = self.subscriptions@;
            self.subscriptions.push(topic);
            proof {
                assert(self.subscriptions@ == before.push(topic));
                assert forall|x: u64| #[trigger]
                    before.push(topic).to_set().contains(x) == before.to_set().insert(
                        topic,
                    ).contains(x) by {
                    if before.push(topic).contains(x) {
                        let k = choose|k: int|
                            0 <= k < before.push(topic).len() && before.push(topic)[k] == x;
                        if k < before.len() {
                            assert(before[k] == x);
                        }
                    }
                    if before.contains(x) {
                        let k = choose|k: int| 0 <= k < before.len() && before[k] == x;
                        assert(before.push(topic)[k] == x);
                    }
                    if x == topic {
                        assert(before.push(topic)[before.len() as int] == x);
                    }
                }
                assert(self@.subscriptions =~= old(self)@.subscriptions.insert(topic));
            }
        } else {
            assert(self@.subscriptions =~= old(self)@.subscriptions.insert(topic));
        }
    }

    /// Ends the user's subscription to `topic`.
    pub fn unsubscribe(&mut self, topic: u64)
        requires
            old(self).wf(),
        ensures
            final(self).wf(),
            final(self)@ == (UserView {
                subscriptions: old(self)@.subscriptions.remove(topic),
                ..old(self)@
            }),
    {
        let mut i: usize = 0;
        while i < self.subscriptions.len()
            invariant
                *self == *old(self),
                self.wf(),
                i <= self.subscriptions@.len(),
                forall|k: int| 0 <= k < i ==> self.subscriptions@[k] != topic,
            decreases self.subscriptions@.len() - i,
        {
            if self.subscriptions[i] == topic {
                let ghost before = self.subscriptions@;
                let _ = self.subscriptions.remove(i);
                proof {
                    let after = before.remove(i as int);
                    assert(self.subscriptions@ == after);
                    assert(before.no_duplicates());
                    assert(before[i as int] == topic);
                    assert forall|a: int, b: int|
                        0 <= a < after.len() && 0 <= b < after.len() && a != b implies after[a]
                        != after[b] by {
                        let a0 = if a < i { a } else { a + 1 };
                        let b0 = if b < i { b } else { b + 1 };
                        assert(after[a] == before[a0] && after[b] == before[b0]);
                    }
                    assert forall|x: u64| #[trigger]
                        after.to_set().contains(x) == before.to_set().remove(topic).contains(
                            x,
                        ) by {
                        if after.contains(x) {
                            let k = choose|k: int| 0 <= k < after.len() && after[k] == x;
                            let k0 = if k < i { k } else { k + 1 };
                            assert(before[k0] == x);
                            assert(k0 != i);
                            assert(before.contains(x));
                        }
                        if before.contains(x) && x != topic {
                            let k = choose|k: int| 0 <= k < before.len() && before[k] == x;
                            let k1 = if k < i { k } else { k - 1 };
                            assert(after[k1] == x);
                            assert(after.contains(x));
                        }
                    }
                    assert(self@.subscriptions =~= old(self)@.subscriptions.remove(topic));
                }
                return ;
            }
            i = i + 1;
        }
        assert(!self.subscriptions@.contains(topic));
        assert(self@.subscriptions =~= old(self)@.subscriptions.remove(topic));
    }

    /// The position of the session with the id `session_id`.
    pub fn find(&self, session_id: &String) -> (found: Option<usize>)
        ensures
            match found {
                Some(index) => index == position(self@.clients, session_id@) && index
                    < self@.clients.len() && self@.clients[index as int].session_id
                    == session_id@,
                None => position(self@.clients, session_id@) == self@.clients.len(),
            },
    {
        proof {
            lemma_position(self@.clients, session_id@);
        }
        let mut i: usize = 0;
        while i < self.clients.len()
            invariant
                i <= self.clients@.len(),
                self@.clients == clients_view(self.clients@),
                forall|k: int| 0 <= k < i ==> (#[trigger] self@.clients[k]).session_id != session_id@,
                0 <= position(self@.clients, session_id@) <= self@.clients.len(),
                position(self@.clients, session_id@) < self@.clients.len() ==> self@.clients[position(
                    self@.clients,
                    session_id@,
                )].session_id == session_id@,
                forall|k: int|
                    0 <= k < position(self@.clients, session_id@) ==> (
                    #[trigger] self@.clients[k]).session_id != session_id@,
            decreases self.clients@.len() - i,
        {
            if self.clients[i].has_session_id(session_id) {
                assert(self@.clients[i as int].session_id == session_id@);
                return Some(i);
            }
            i = i + 1;
        }
        None
    }

    /// Whether the user has a session with the id `session_id`.
    pub fn has_session(&self, session_id: &String) -> (yes: bool)
        ensures
            yes == has_session(self@.clients, session_id@),
    {
        proof {
            lemma_position(self@.clients, session_id@);
        }
        self.find(session_id).is_some()
    }

    /// Attaches a session to the user.
    pub fn attach(&mut self, client: GatewayClient)
        requires
            old(self).wf(),
            client.wf(),
            client@.parent == old(self)@.id,
            !has_session(old(self)@.clients, client@.session_id),
        ensures
            final(self).wf(),
            final(self)@ == (UserView {
                clients: old(self)@.clients.push(client@),
                ..old(self)@
            }),
    {
        let ghost before = self.clients@;
        self.clients.push(client);
        assert(clients_view(self.clients@) =~= clients_view(before).push(client@));
    }
}

/// One frame of a broadcast and the session it goes to.
#[derive(Clone, Debug, PartialEq, Eq)]
pub struct Delivery {
    /// The position of the session among the user's sessions.
    pub index: usize,
    /// The id of the session.
    pub session_id: String,
    /// The frame to send over the session's transport.
    pub frame: ServerFrame,
}

/// Mathematical value of a [`Delivery`].
pub struct DeliveryView {
    pub index: int,
    pub session_id: Seq<char>,
    pub frame: ServerFrameView,
}

impl View for Delivery {
    type V = DeliveryView;

    open spec fn view(&self) -> DeliveryView {
        DeliveryView { index: self.index as int, session_id: self.session_id@, frame: self.frame@ }
    }
}

/// The mathematical values of a list of deliveries.
pub open spec fn deliveries_view(deliveries: Seq<Delivery>) -> Seq<DeliveryView> {
    deliveries.map_values(|d: Delivery| d@)
}

/// A session after a broadcast of `event`: a live one has it dispatched, one
/// that waits for a resume is passed over.
pub open spec fn after_broadcast(client: ClientView, event: EventView) -> ClientView {
    if client.live() {
        client.dispatched(event)
    } else {
        client
    }
}

/// The sessions of a user after a broadcast of `event`.
pub open spec fn broadcast_clients(clients: Seq<ClientView>, event: EventView) -> Seq<ClientView> {
    Seq::new(clients.len(), |i: int| after_broadcast(clients[i], event))
}

/// What a broadcast of `event` sends: one frame for each live session, in
/// the order of the sessions.
pub open spec fn deliveries_of(clients: Seq<ClientView>, event: EventView) -> Seq<DeliveryView>
    decreases clients.len(),
{
    if clients.len() == 0 {
        Seq::empty()
    } else if clients.last().live() {
        deliveries_of(clients.drop_last(), event).push(
            DeliveryView {
                index: clients.len() - 1,
                session_id: clients.last().session_id,
                frame: clients.last().next_frame(event),
            },
        )
    } else {
        deliveries_of(clients.drop_last(), event)
    }
}

/// Whether every live session can still count one more event.
pub open spec fn room_for_event(clients: Seq<ClientView>) -> bool {
    forall|i: int|
        0 <= i < clients.len() && (#[trigger] clients[i]).live() ==> clients[i].sequence()
            < u64::MAX
}

/// The sessions that stay when those whose grace window has closed at `now`
/// are dropped, in their order.
pub open spec fn kept(clients: Seq<ClientView>, now: u64, grace_secs: u64) -> Seq<ClientView>
    decreases clients.len(),
{
    if clients.len() == 0 {
        Seq::empty()
    } else if clients.last().lapsed(now, grace_secs) {
        kept(clients.drop_last(), now, grace_secs)
    } else {
        kept(clients.drop_last(), now, grace_secs).push(clients.last())
    }
}

/// The sessions whose grace window has closed at `now`, in their order.
pub open spec fn lapsed_of(clients: Seq<ClientView>, now: u64, grace_secs: u64) -> Seq<ClientView>
    decreases clients.len(),
{
    if clients.len() == 0 {
        Seq::empty()
    } else if clients.last().lapsed(now, grace_secs) {
        lapsed_of(clients.drop_last(), now, grace_secs).push(clients.last())
    } else {
        lapsed_of(clients.drop_last(), now, grace_secs)
    }
}

/// What `kept` keeps: exactly the sessions whose window has not closed, each
/// of them one of the given sessions, and no two with one id where the given
/// ones had none.
pub proof fn lemma_kept(clients: Seq<ClientView>, now: u64, grace_secs: u64)
    ensures
        kept(clients, now, grace_secs).len() <= clients.len(),
        forall|k: int|
            0 <= k < kept(clients, now, grace_secs).len() ==> !(#[trigger] kept(
                clients,
                now,
                grace_secs,
            )[k]).lapsed(now, grace_secs) && clients.contains(kept(clients, now, grace_secs)[k]),
        forall|j: int|
            0 <= j < clients.len() && !(#[trigger] clients[j]).lapsed(now, grace_secs) ==> kept(
                clients,
                now,
                grace_secs,
            ).contains(clients[j]),
        distinct_sessions(clients) ==> distinct_sessions(kept(clients, now, grace_secs)),
    decreases clients.len(),
{
    if clients.len() > 0 {
        let rest = clients.drop_last();
        lemma_kept(rest, now, grace_secs);
        let k_rest = kept(rest, now, grace_secs);
        let k_all = kept(clients, now, grace_secs);
        assert forall|k: int| 0 <= k < k_all.len() implies !(#[trigger] k_all[k]).lapsed(
            now,
            grace_secs,
        ) && clients.contains(k_all[k]) by {
            if k < k_rest.len() {
                assert(k_all[k] == k_rest[k]);
                let j = choose|j: int| 0 <= j < rest.len() && rest[j] == k_rest[k];
                assert(clients[j] == k_rest[k]);
            } else {
                assert(k_all[k] == clients[clients.len() - 1]);
            }
        }
        assert forall|j: int|
            0 <= j < clients.len() && !(#[trigger] clients[j]).lapsed(
                now,
                grace_secs,
            ) implies k_all.contains(clients[j]) by {
            if j < rest.len() {
                assert(rest[j] == clients[j]);
                let k = choose|k: int| 0 <= k < k_rest.len() && k_rest[k] == rest[j];
                assert(k_all[k] == clients[j]);
            } else {
                assert(k_all[k_all.len() - 1] == clients[j]);
            }
        }
        if distinct_sessions(clients) {
            assert(distinct_sessions(rest)) by {
                assert forall|i: int, j: int| 0 <= i < j < rest.len() implies (
                #[trigger] rest[i]).session_id != (#[trigger] rest[j]).session_id by {
                    assert(rest[i] == clients[i] && rest[j] == clients[j]);
                }
            }
            assert forall|i: int, j: int| 0 <= i < j < k_all.len() implies (
            #[trigger] k_all[i]).session_id != (#[trigger] k_all[j]).session_id by {
                if j < k_rest.len() {
                    assert(k_all[i] == k_rest[i] && k_all[j] == k_rest[j]);
                } else {
                    assert(k_all[i] == k_rest[i]);
                    let m = choose|m: int| 0 <= m < rest.len() && rest[m] == k_rest[i];
                    assert(clients[m] == k_rest[i]);
                    assert(k_all[j] == clients[clients.len() - 1]);
                }
            }
        }
    }
}

impl GatewayUser {
    /// Sends `event` to every session of the user. Each live session gets it
    /// under its own next sequence number and keeps it for replay; a session
    /// that waits for a resume is passed over and stays. The result holds
    /// the frames to send; how the sending of one ends does not touch the
    /// others.
    pub fn broadcast(&mut self, event: &Event) -> (deliveries: Vec<Delivery>)
        requires
            old(self).wf(),
            room_for_event(old(self)@.clients),
        ensures
            final(self).wf(),
            final(self)@ == (UserView {
                clients: broadcast_clients(old(self)@.clients, event@),
                ..old(self)@
            }),
            deliveries_view(deliveries@) == deliveries_of(old(self)@.clients, event@),
    {
        let n: usize = self.clients.len();
        let mut deliveries: Vec<Delivery> = Vec::new();
        let ghost before = old(self)@.clients;
        let mut i: usize = 0;
        assert(deliveries_view(deliveries@) =~= deliveries_of(before.take(0), event@));
        assert forall|k: int| 0 <= k < n implies (#[trigger] self.clients@[k]).wf() by {
            assert(before[k].wf());
        }
        while i < n
            invariant
                i <= n,
                n == self.clients@.len(),
                n == before.len(),
                before == old(self)@.clients,
                old(self).wf(),
                room_for_event(before),
                self.id == old(self).id,
                self.subscriptions == old(self).subscriptions,
                forall|k: int|
                    0 <= k < i ==> (#[trigger] self.clients@[k])@ == after_broadcast(
                        before[k],
                        event@,
                    ),
                forall|k: int| i <= k < n ==> (#[trigger] self.clients@[k])@ == before[k],
                forall|k: int| 0 <= k < n ==> (#[trigger] self.clients@[k]).wf(),
                deliveries_view(deliveries@) == deliveries_of(before.take(i as int), event@),
            decreases n - i,
        {
            let ghost sent = deliveries@;
            assert(before.take(i as int + 1).drop_last() =~= before.take(i as int));
            assert(before.take(i as int + 1).last() == before[i as int]);
            if self.clients[i].is_live() {
                let copy = event.duplicate();
                let result = self.clients[i].dispatch(copy);
                if let Ok(frame) = result {
                    let session_id = self.clients[i].session_id().clone();
                    let delivery = Delivery { index: i, session_id, frame };
                    deliveries.push(delivery);
                    assert(deliveries_view(deliveries@) =~= deliveries_view(sent).push(delivery@));
                }
            }
            i = i + 1;
        }
        assert(before.take(n as int) =~= before);
        assert(clients_view(self.clients@) =~= broadcast_clients(before, event@));
        deliveries
    }

    /// Records that the frame for the session at `index` could not be sent
    /// at `now`: that session loses its transport and waits for a resume.
    /// No other session is touched.
    pub fn delivery_failed(&mut self, index: usize, now: u64)
        requires
            old(self).wf(),
            index < old(self)@.clients.len(),
        ensures
            final(self).wf(),
            final(self)@ == (UserView {
                clients: old(self)@.clients.update(
                    index as int,
                    old(self)@.clients[index as int].disconnected(now),
                ),
                ..old(self)@
            }),
    {
        self.clients[index].into_disconnected(now);
        assert(clients_view(self.clients@) =~= old(self)@.clients.update(
            index as int,
            old(self)@.clients[index as int].disconnected(now),
        ));
    }

    /// Gives the session at `index` a new transport.
    pub fn reattach(&mut self, index: usize)
        requires
            old(self).wf(),
            index < old(self)@.clients.len(),
        ensures
            final(self).wf(),
            final(self)@ == (UserView {
                clients: old(self)@.clients.update(
                    index as int,
                    old(self)@.clients[index as int].reattached(),
                ),
                ..old(self)@
            }),
    {
        self.clients[index].reattach();
        assert(clients_view(self.clients@) =~= old(self)@.clients.update(
            index as int,
            old(self)@.clients[index as int].reattached(),
        ));
    }

    /// Detaches the session with the id `session_id` and hands it out;
    /// `None` where the user has no such session.
    pub fn close(&mut self, session_id: &String) -> (closed: Option<GatewayClient>)
        requires
            old(self).wf(),
        ensures
            final(self).wf(),
            position(old(self)@.clients, session_id@) < old(self)@.clients.len() ==> closed
                is Some && closed->0@ == old(self)@.clients[position(
                old(self)@.clients,
                session_id@,
            )] && closed->0.wf() && final(self)@ == (UserView {
                clients: old(self)@.clients.remove(position(old(self)@.clients, session_id@)),
                ..old(self)@
            }),
            position(old(self)@.clients, session_id@) == old(self)@.clients.len() ==> closed
                is None && final(self)@ == old(self)@,
    {
        proof {
            lemma_position(self@.clients, session_id@);
        }
        match self.find(session_id) {
            Some(index) => {
                let ghost before = self.clients@;
                let client = self.clients.remove(index);
                proof {
                    let after = clients_view(before).remove(index as int);
                    assert(clients_view(self.clients@) =~= after);
                    assert(client@ == clients_view(before)[index as int]);
                    assert(clients_view(before)[index as int].wf());
                    assert(old(self)@.clients.len() == before.len());
                    assert(index as int == position(old(self)@.clients, session_id@));
                    assert forall|i: int| 0 <= i < after.len() implies (#[trigger] after[i]).wf()
                        && after[i].parent == self.id by {
                        let i0 = if i < index { i } else { i + 1 };
                        assert(after[i] == clients_view(before)[i0]);
                    }
                    assert forall|i: int, j: int| 0 <= i < j < after.len() implies (
                    #[trigger] after[i]).session_id != (#[trigger] after[j]).session_id by {
                        let i0 = if i < index { i } else { i + 1 };
                        let j0 = if j < index { j } else { j + 1 };
                        assert(after[i] == clients_view(before)[i0]);
                        assert(after[j] == clients_view(before)[j0]);
                    }
                }
                Some(client)
            },
            None => None,
        }
    }

    /// Drops every session whose grace window of `grace_secs` seconds has
    /// closed at `now`, and hands the dropped sessions out in their order.
    pub fn expire(&mut self, now: u64, grace_secs: u64) -> (gone: Vec<GatewayClient>)
        requires
            old(self).wf(),
        ensures
            final(self).wf(),
            final(self)@ == (UserView {
                clients: kept(old(self)@.clients, now, grace_secs),
                ..old(self)@
            }),
            clients_view(gone@) == lapsed_of(old(self)@.clients, now, grace_secs),
    {
        let ghost before = old(self)@.clients;
        let mut gone: Vec<GatewayClient> = Vec::new();
        let mut i: usize = 0;
        let ghost mut done: int = 0;
        assert(clients_view(gone@) =~= lapsed_of(before.take(0), now, grace_secs));
        assert(clients_view(self.clients@) =~= kept(before.take(0), now, grace_secs)
            + before.skip(0));
        while i < self.clients.len()
            invariant
                before == old(self)@.clients,
                old(self).wf(),
                self.id == old(self).id,
                self.subscriptions == old(self).subscriptions,
                0 <= done <= before.len(),
                i == kept(before.take(done), now, grace_secs).len(),
                clients_view(self.clients@) == kept(before.take(done), now, grace_secs)
                    + before.skip(done),
                clients_view(gone@) == lapsed_of(before.take(done), now, grace_secs),
            decreases before.len() - done,
        {
            let ghost current = clients_view(self.clients@);
            let ghost left = clients_view(gone@);
            let ghost stayed = kept(before.take(done), now, grace_secs);
            assert(current.len() == stayed.len() + before.skip(done).len());
            assert(done < before.len());
            assert(current[i as int] == before.skip(done)[0]);
            assert(before.skip(done)[0] == before[done]);
            assert(before.take(done + 1).drop_last() =~= before.take(done));
            assert(before.take(done + 1).last() == before[done]);
            if self.clients[i].is_lapsed(now, grace_secs) {
                let client = self.clients.remove(i);
                gone.push(client);
                assert(kept(before.take(done + 1), now, grace_secs) == stayed);
                assert(clients_view(self.clients@) =~= current.remove(i as int));
                assert forall|k: int| 0 <= k < current.len() - 1 implies current.remove(
                    i as int,
                )[k] == (stayed + before.skip(done + 1))[k] by {
                    if k >= i {
                        assert(current[k + 1] == before.skip(done)[k + 1 - i]);
                    } else {
                        assert(current[k] == stayed[k]);
                    }
                }
                assert(clients_view(self.clients@) =~= stayed + before.skip(done + 1));
                assert(clients_view(gone@) =~= left.push(before[done]));
            } else {
                i = i + 1;
                assert(kept(before.take(done + 1), now, grace_secs) == stayed.push(before[done]));
                assert forall|k: int| 0 <= k < current.len() implies current[k] == (stayed.push(
                    before[done],
                ) + before.skip(done + 1))[k] by {
                    if k >= i {
                        assert(current[k] == before.skip(done)[k + 1 - i]);
                    } else if k < i - 1 {
                        assert(current[k] == stayed[k]);
                    }
                }
                assert(clients_view(self.clients@) =~= stayed.push(before[done]) + before.skip(
                    done + 1,
                ));
            }
            proof {
                done = done + 1;
            }
        }
        proof {
            lemma_kept(before.take(done), now, grace_secs);
            assert(done == before.len()) by {
                assert(clients_view(self.clients@).len() == i + before.skip(done).len());
            }
            assert(before.take(done) =~= before);
            assert(clients_view(self.clients@) =~= kept(before, now, grace_secs));
            lemma_kept(before, now, grace_secs);
            let after = kept(before, now, grace_secs);
            assert forall|k: int| 0 <= k < after.len() implies (#[trigger] after[k]).wf()
                && after[k].parent == self.id by {
                let j = choose|j: int| 0 <= j < before.len() && before[j] == after[k];
                assert(before[j].wf());
            }
        }
        gone
    }
}

/// A broadcast holds one frame for every live session: the frame of the
/// event under that session's next sequence number.
pub proof fn lemma_every_live_session_is_served(
    clients: Seq<ClientView>,
    event: EventView,
    index: int,
)
    requires
        0 <= index < clients.len(),
        clients[index].live(),
    ensures
        deliveries_of(clients, event).contains(
            DeliveryView {
                index,
                session_id: clients[index].session_id,
                frame: clients[index].next_frame(event),
            },
        ),
    decreases clients.len(),
{
    let wanted = DeliveryView {
        index,
        session_id: clients[index].session_id,
        frame: clients[index].next_frame(event),
    };
    let rest = deliveries_of(clients.drop_last(), event);
    if index == clients.len() - 1 {
        assert(deliveries_of(clients, event) == rest.push(wanted));
        assert(rest.push(wanted)[rest.len() as int] == wanted);
    } else {
        lemma_every_live_session_is_served(clients.drop_last(), event, index);
        assert(clients.drop_last()[index] == clients[index]);
        let k = choose|k: int| 0 <= k < rest.len() && rest[k] == wanted;
        assert(deliveries_of(clients, event)[k] == wanted);
    }
}

/// Fan-out isolation: when an event is broadcast and the frame for the
/// session at `failed` cannot be sent, every other live session has the
/// event all the same. Its frame is among those to send, it has the event
/// under its next sequence number, and it is still live.
pub proof fn lemma_fan_out_isolation(
    clients: Seq<ClientView>,
    event: EventView,
    failed: int,
    now: u64,
    other: int,
)
    requires
        0 <= failed < clients.len(),
        0 <= other < clients.len(),
        other != failed,
        clients[other].live(),
    ensures
        deliveries_of(clients, event).contains(
            DeliveryView {
                index: other,
                session_id: clients[other].session_id,
                frame: clients[other].next_frame(event),
            },
        ),
        broadcast_clients(clients, event).update(
            failed,
            broadcast_clients(clients, event)[failed].disconnected(now),
        )[other] == clients[other].dispatched(event),
        clients[other].dispatched(event).live(),
{
    lemma_every_live_session_is_served(clients, event, other);
}

} // verus!
