use crate::client::{ClientView, CloseNotice, GatewayClient};
use crate::error::GatewayError;
use crate::user::{
    broadcast_clients, clients_view, deliveries_of, deliveries_view, has_session, kept, lapsed_of,
    lemma_kept, lemma_position, position, room_for_event, Delivery, DeliveryView, GatewayUser,
    UserView,
};
use crate::wire::{Event, EventView};
use vstd::prelude::*;

verus! {

/// Mathematical value of a [`GatewayUsersStore`]: the users it holds, in the
/// order in which they were created.
pub struct StoreState {
    pub users: Seq<UserView>,
}

/// The position of the user `id` among `users`; their number where there is
/// none.
pub open spec fn user_position(users: Seq<UserView>, id: u64) -> int
    decreases users.len(),
{
    if users.len() == 0 {
        0
    } else if user_position(users.drop_last(), id) < users.len() - 1 {
        user_position(users.drop_last(), id)
    } else if users.last().id == id {
        users.len() - 1
    } else {
        users.len() as int
    }
}

/// The position of the first of `users` who has a session with the id
/// `session_id`; their number where nobody has.
pub open spec fn session_owner(users: Seq<UserView>, session_id: Seq<char>) -> int
    decreases users.len(),
{
    if users.len() == 0 {
        0
    } else if session_owner(users.drop_last(), session_id) < users.len() - 1 {
        session_owner(users.drop_last(), session_id)
    } else if has_session(users.last().clients, session_id) {
        users.len() - 1
    } else {
        users.len() as int
    }
}

/// `user_position` finds the first user with the id, and only where there
/// is none does it give the number of users.
pub proof fn lemma_user_position(users: Seq<UserView>, id: u64)
    ensures
        0 <= user_position(users, id) <= users.len(),
        user_position(users, id) < users.len() ==> users[user_position(users, id)].id == id,
        forall|k: int| 0 <= k < user_position(users, id) ==> (#[trigger] users[k]).id != id,
    decreases users.len(),
{
    if users.len() > 0 {
        lemma_user_position(users.drop_last(), id);
        let p = user_position(users.drop_last(), id);
        assert forall|k: int| 0 <= k < user_position(users, id) implies (#[trigger] users[k]).id
            != id by {
            if k < users.len() - 1 {
                assert(users.drop_last()[k] == users[k]);
            }
        }
        if p < users.len() - 1 {
            assert(users.drop_last()[p] == users[p]);
        }
    }
}

/// `session_owner` finds the first user with such a session, and only where
/// nobody has one does it give the number of users.
pub proof fn lemma_session_owner(users: Seq<UserView>, session_id: Seq<char>)
    ensures
        0 <= session_owner(users, session_id) <= users.len(),
        session_owner(users, session_id) < users.len() ==> has_session(
            users[session_owner(users, session_id)].clients,
            session_id,
        ),
        forall|k: int|
            0 <= k < session_owner(users, session_id) ==> !has_session(
                (#[trigger] users[k]).clients,
                session_id,
            ),
    decreases users.len(),
{
    if users.len() > 0 {
        lemma_session_owner(users.drop_last(), session_id);
        let p = session_owner(users.drop_last(), session_id);
        assert forall|k: int| 0 <= k < session_owner(users, session_id) implies !has_session(
            (#[trigger] users[k]).clients,
            session_id,
        ) by {
            if k < users.len() - 1 {
                assert(users.drop_last()[k] == users[k]);
            }
        }
        if p < users.len() - 1 {
            assert(users.drop_last()[p] == users[p]);
        }
    }
}

/// A user without sessions and without topics.
pub open spec fn fresh_user(id: u64) -> UserView {
    UserView { id, clients: Seq::empty(), subscriptions: Set::empty() }
}

impl StoreState {
    /// The invariant of the store: every user is sound, no two users share
    /// an id, and no two sessions share an id, whoever they belong to.
    pub open spec fn wf(self) -> bool {
        &&& forall|u: int| 0 <= u < self.users.len() ==> (#[trigger] self.users[u]).wf()
        &&& forall|u: int, v: int|
            0 <= u < v < self.users.len() ==> (#[trigger] self.users[u]).id != (
            #[trigger] self.users[v]).id
        &&& forall|u: int, v: int, i: int, j: int|
            0 <= u < v < self.users.len() && 0 <= i < self.users[u].clients.len() && 0 <= j
                < self.users[v].clients.len() ==> (#[trigger] self.users[u].clients[i]).session_id
                != (#[trigger] self.users[v].clients[j]).session_id
    }

    /// Whether the store holds the user `id`.
    pub open spec fn contains(self, id: u64) -> bool {
        user_position(self.users, id) < self.users.len()
    }

    /// Whether some user has a session with the id `session_id`.
    pub open spec fn has_session(self, session_id: Seq<char>) -> bool {
        session_owner(self.users, session_id) < self.users.len()
    }

    /// The session with the id `session_id`, where there is one.
    pub open spec fn session(self, session_id: Seq<char>) -> ClientView
        recommends
            self.has_session(session_id),
    {
        let user = self.users[session_owner(self.users, session_id)];
        user.clients[position(user.clients, session_id)]
    }

    /// The store once the user `id` has been looked up or created: as it
    /// was where it held the user, else with a fresh user at the end.
    pub open spec fn with_user(self, id: u64) -> StoreState {
        if self.contains(id) {
            self
        } else {
            StoreState { users: self.users.push(fresh_user(id)) }
        }
    }

    /// The store after the user `id` was subscribed to `topic`; as it was
    /// where it does not hold that user.
    pub open spec fn with_subscription(self, id: u64, topic: u64) -> StoreState {
        if self.contains(id) {
            let place = user_position(self.users, id);
            StoreState {
                users: self.users.update(
                    place,
                    UserView {
                        subscriptions: self.users[place].subscriptions.insert(topic),
                        ..self.users[place]
                    },
                ),
            }
        } else {
            self
        }
    }

    /// The store after the subscription of the user `id` to `topic` has
    /// ended; as it was where it does not hold that user.
    pub open spec fn without_subscription(self, id: u64, topic: u64) -> StoreState {
        if self.contains(id) {
            let place = user_position(self.users, id);
            StoreState {
                users: self.users.update(
                    place,
                    UserView {
                        subscriptions: self.users[place].subscriptions.remove(topic),
                        ..self.users[place]
                    },
                ),
            }
        } else {
            self
        }
    }

    /// The store once the removal of the user `id` has been asked for: the
    /// user leaves only where it has no session left, those that wait for a
    /// resume counted.
    pub open spec fn without_user(self, id: u64) -> StoreState {
        if self.contains(id) && self.users[user_position(self.users, id)].clients.len() == 0 {
            StoreState { users: self.users.remove(user_position(self.users, id)) }
        } else {
            self
        }
    }
}

/// The mathematical values of a list of users.
pub open spec fn users_view(users: Seq<GatewayUser>) -> Seq<UserView> {
    users.map_values(|u: GatewayUser| u@)
}

/// The registry of the users that have a session.
pub struct GatewayUsersStore {
    users: Vec<GatewayUser>,
}

impl View for GatewayUsersStore {
    type V = StoreState;

    closed spec fn view(&self) -> StoreState {
        StoreState { users: users_view(self.users@) }
    }
}

impl GatewayUsersStore {
    /// That every user stores each of its topics once.
    pub closed spec fn topics_stored_once(&self) -> bool {
        forall|u: int| 0 <= u < self.users@.len() ==> (#[trigger] self.users@[u]).topics_stored_once()
    }

    /// The invariant of the store.
    pub open spec fn wf(&self) -> bool {
        &&& self@.wf()
        &&& self.topics_stored_once()
    }

    /// An empty store.
    pub fn new() -> (store: GatewayUsersStore)
        ensures
            store.wf(),
            store@.users == Seq::<UserView>::empty(),
    {
        let store = GatewayUsersStore { users: Vec::new() };
        assert(store@.users =~= Seq::<UserView>::empty());
        store
    }

    /// How many users the store holds.
    pub fn user_count(&self) -> (n: usize)
        ensures
            n == self@.users.len(),
    {
        self.users.len()
    }

    /// The user at position `index`.
    pub fn user(&self, index: usize) -> (user: &GatewayUser)
        requires
            self.wf(),
            index < self@.users.len(),
        ensures
            user@ == self@.users[index as int],
            user.wf(),
    {
        assert(self@.users[index as int] == self.users@[index as int]@);
        assert(self@.users[index as int].wf());
        &self.users[index]
    }

    /// The position of the user `id`.
    pub fn find_user(&self, id: u64) -> (found: Option<usize>)
        ensures
            match found {
                Some(index) => index == user_position(self@.users, id) && index
                    < self@.users.len(),
                None => user_position(self@.users, id) == self@.users.len(),
            },
    {
        proof {
            lemma_user_position(self@.users, id);
        }
        let mut i: usize = 0;
        while i < self.users.len()
            invariant
                i <= self.users@.len(),
                self@.users == users_view(self.users@),
                forall|k: int| 0 <= k < i ==> (#[trigger] self@.users[k]).id != id,
                0 <= user_position(self@.users, id) <= self@.users.len(),
                user_position(self@.users, id) < self@.users.len() ==> self@.users[user_position(
                    self@.users,
                    id,
                )].id == id,
                forall|k: int|
                    0 <= k < user_position(self@.users, id) ==> (#[trigger] self@.users[k]).id
                        != id,
            decreases self.users@.len() - i,
        {
            if self.users[i].id() == id {
                assert(self@.users[i as int].id == id);
                return Some(i);
            }
            i = i + 1;
        }
        None
    }

    /// Whether the store holds the user `id`.
    pub fn contains(&self, id: u64) -> (yes: bool)
        ensures
            yes == self@.contains(id),
    {
        self.find_user(id).is_some()
    }

    /// Looks the user `user_id` up, creating it where the store does not
    /// hold it, and gives its position. This is the only way in which a user
    /// comes into the store.
    pub fn get_or_create(&mut self, user_id: u64) -> (index: usize)
        requires
            old(self).wf(),
        ensures
            final(self).wf(),
            final(self)@ == old(self)@.with_user(user_id),
            index == user_position(old(self)@.users, user_id),
            index == user_position(final(self)@.users, user_id),
            index < final(self)@.users.len(),
            final(self)@.users[index as int].id == user_id,
    {
        proof {
            lemma_user_position(self@.users, user_id);
        }
        match self.find_user(user_id) {
            Some(index) => index,
            None => {
                let ghost before = self.users@;
                let index: usize = self.users.len();
                let user = GatewayUser::new(user_id);
                self.users.push(user);
                proof {
                    assert(users_view(self.users@) =~= users_view(before).push(
                        fresh_user(user_id),
                    ));
                    let after = users_view(self.users@);
                    assert forall|u: int| 0 <= u < after.len() implies (#[trigger] after[u]).wf(
                    ) by {
                        if u < before.len() {
                            assert(after[u] == old(self)@.users[u]);
                        }
                    }
                    assert forall|u: int, v: int| 0 <= u < v < after.len() implies (
                    #[trigger] after[u]).id != (#[trigger] after[v]).id by {
                        assert(after[u] == old(self)@.users[u]);
                        if v < before.len() {
                            assert(after[v] == old(self)@.users[v]);
                        }
                    }
                    assert forall|u: int, v: int, i: int, j: int|
                        0 <= u < v < after.len() && 0 <= i < after[u].clients.len() && 0 <= j
                            < after[v].clients.len() implies (
                    #[trigger] after[u].clients[i]).session_id != (
                    #[trigger] after[v].clients[j]).session_id by {
                        assert(after[u] == old(self)@.users[u]);
                        assert(after[v] == old(self)@.users[v]);
                    }
                    assert forall|u: int| 0 <= u < self.users@.len() implies (
                    #[trigger] self.users@[u]).topics_stored_once() by {
                        if u < before.len() {
                            assert(self.users@[u] == before[u]);
                        }
                    }
                    lemma_user_position(after, user_id);
                    assert(after.drop_last() =~= old(self)@.users);
                }
                index
            },
        }
    }

    /// Removes the user `user_id` where it has no session left, those that
    /// wait for a resume counted; says whether it did.
    pub fn remove(&mut self, user_id: u64) -> (removed: bool)
        requires
            old(self).wf(),
        ensures
            final(self).wf(),
            final(self)@ == old(self)@.without_user(user_id),
            removed == (old(self)@.contains(user_id) && old(self)@.users[user_position(
                old(self)@.users,
                user_id,
            )].clients.len() == 0),
    {
        match self.find_user(user_id) {
            Some(index) => {
                if self.users[index].client_count() == 0 {
                    self.drop_user(index);
                    true
                } else {
                    false
                }
            },
            None => false,
        }
    }

    /// Takes the user at position `index` out of the store.
    fn drop_user(&mut self, index: usize)
        requires
            old(self).wf(),
            index < old(self)@.users.len(),
        ensures
            final(self).wf(),
            final(self)@.users == old(self)@.users.remove(index as int),
    {
        let ghost before = self.users@;
        let _ = self.users.remove(index);
        proof {
            let was = old(self)@.users;
            let after = was.remove(index as int);
            assert(users_view(self.users@) =~= after);
            assert forall|u: int| 0 <= u < after.len() implies (#[trigger] after[u]).wf() by {
                let u0 = if u < index { u } else { u + 1 };
                assert(after[u] == was[u0]);
            }
            assert forall|u: int, v: int| 0 <= u < v < after.len() implies (#[trigger] after[u]).id
                != (#[trigger] after[v]).id by {
                let u0 = if u < index { u } else { u + 1 };
                let v0 = if v < index { v } else { v + 1 };
                assert(after[u] == was[u0] && after[v] == was[v0]);
            }
            assert forall|u: int, v: int, i: int, j: int|
                0 <= u < v < after.len() && 0 <= i < after[u].clients.len() && 0 <= j
                    < after[v].clients.len() implies (#[trigger] after[u].clients[i]).session_id
                != (#[trigger] after[v].clients[j]).session_id by {
                let u0 = if u < index { u } else { u + 1 };
                let v0 = if v < index { v } else { v + 1 };
                assert(after[u] == was[u0] && after[v] == was[v0]);
                assert(was[u0].clients[i].session_id != was[v0].clients[j].session_id);
            }
            assert forall|u: int| 0 <= u < self.users@.len() implies (
            #[trigger] self.users@[u]).topics_stored_once() by {
                let u0 = if u < index { u } else { u + 1 };
                assert(self.users@[u] == before[u0]);
            }
        }
    }

    /// Where the session with the id `session_id` is: the position of its
    /// user, and its position among that user's sessions.
    pub fn find_session(&self, session_id: &String) -> (found: Option<(usize, usize)>)
        requires
            self.wf(),
        ensures
            match found {
                Some((owner, index)) => owner == session_owner(self@.users, session_id@) && owner
                    < self@.users.len() && index == position(
                    self@.users[owner as int].clients,
                    session_id@,
                ) && index < self@.users[owner as int].clients.len()
                    && self@.users[owner as int].clients[index as int].session_id
                    == session_id@,
                None => session_owner(self@.users, session_id@) == self@.users.len(),
            },
    {
        proof {
            lemma_session_owner(self@.users, session_id@);
        }
        let mut u: usize = 0;
        while u < self.users.len()
            invariant
                u <= self.users@.len(),
                self@.users == users_view(self.users@),
                forall|k: int|
                    0 <= k < u ==> !has_session((#[trigger] self@.users[k]).clients, session_id@),
                0 <= session_owner(self@.users, session_id@) <= self@.users.len(),
                session_owner(self@.users, session_id@) < self@.users.len() ==> has_session(
                    self@.users[session_owner(self@.users, session_id@)].clients,
                    session_id@,
                ),
                forall|k: int|
                    0 <= k < session_owner(self@.users, session_id@) ==> !has_session(
                        (#[trigger] self@.users[k]).clients,
                        session_id@,
                    ),
            decreases self.users@.len() - u,
        {
            proof {
                lemma_position(self@.users[u as int].clients, session_id@);
            }
            if let Some(index) = self.users[u].find(session_id) {
                return Some((u, index));
            }
            u = u + 1;
        }
        None
    }

    /// Whether some user has a session with the id `session_id`.
    pub fn has_session(&self, session_id: &String) -> (yes: bool)
        requires
            self.wf(),
        ensures
            yes == self@.has_session(session_id@),
    {
        self.find_session(session_id).is_some()
    }
}

/// Whether every session of `new` has the id of a session of `old`.
pub open spec fn sessions_within(new: Seq<ClientView>, old: Seq<ClientView>) -> bool {
    forall|j: int| 0 <= j < new.len() ==> has_session(old, (#[trigger] new[j]).session_id)
}

/// A sound store stays sound when one user is replaced by a sound user of
/// the same id whose sessions bear no ids but those of the user replaced.
pub proof fn lemma_replace_user(users: Seq<UserView>, index: int, user: UserView)
    requires
        (StoreState { users }).wf(),
        0 <= index < users.len(),
        user.wf(),
        user.id == users[index].id,
        sessions_within(user.clients, users[index].clients),
    ensures
        (StoreState { users: users.update(index, user) }).wf(),
{
    let after = users.update(index, user);
    assert forall|u: int, v: int, i: int, j: int|
        0 <= u < v < after.len() && 0 <= i < after[u].clients.len() && 0 <= j
            < after[v].clients.len() implies (#[trigger] after[u].clients[i]).session_id != (
    #[trigger] after[v].clients[j]).session_id by {
        if u == index {
            let i0 = choose|i0: int|
                0 <= i0 < users[u].clients.len() && (#[trigger] users[u].clients[i0]).session_id
                    == user.clients[i].session_id;
            assert(users[u].clients[i0].session_id != users[v].clients[j].session_id);
        } else if v == index {
            let j0 = choose|j0: int|
                0 <= j0 < users[v].clients.len() && (#[trigger] users[v].clients[j0]).session_id
                    == user.clients[j].session_id;
            assert(users[u].clients[i].session_id != users[v].clients[j0].session_id);
        } else {
            assert(users[u].clients[i].session_id != users[v].clients[j].session_id);
        }
    }
}

/// Where the owner of a session is known, no other user has a session with
/// that id.
pub proof fn lemma_owner_is_unique(users: Seq<UserView>, session_id: Seq<char>, other: int)
    requires
        (StoreState { users }).wf(),
        0 <= other < users.len(),
        other != session_owner(users, session_id),
    ensures
        !has_session(users[other].clients, session_id),
{
    lemma_session_owner(users, session_id);
    let owner = session_owner(users, session_id);
    if has_session(users[other].clients, session_id) {
        let j = choose|j: int|
            0 <= j < users[other].clients.len() && (#[trigger] users[other].clients[j]).session_id
                == session_id;
        assert(owner < users.len());
        let i = choose|i: int|
            0 <= i < users[owner].clients.len() && (#[trigger] users[owner].clients[i]).session_id
                == session_id;
        if owner < other {
            assert(users[owner].clients[i].session_id != users[other].clients[j].session_id);
        } else {
            assert(users[other].clients[j].session_id != users[owner].clients[i].session_id);
        }
    }
}

/// In a sound store a session is found where it is: its id leads to its
/// user and to its place among that user's sessions.
pub proof fn lemma_session_found(users: Seq<UserView>, owner: int, index: int)
    requires
        (StoreState { users }).wf(),
        0 <= owner < users.len(),
        0 <= index < users[owner].clients.len(),
    ensures
        session_owner(users, users[owner].clients[index].session_id) == owner,
        position(users[owner].clients, users[owner].clients[index].session_id) == index,
{
    let session_id = users[owner].clients[index].session_id;
    let clients = users[owner].clients;
    assert(has_session(clients, session_id));
    lemma_session_owner(users, session_id);
    if session_owner(users, session_id) != owner {
        lemma_owner_is_unique(users, session_id, owner);
    }
    lemma_position(clients, session_id);
    assert(users[owner].wf());
    let place = position(clients, session_id);
    if place < index {
        assert(clients[place].session_id != clients[index].session_id);
    }
}

/// A user with its sessions replaced.
pub open spec fn with_clients(user: UserView, clients: Seq<ClientView>) -> UserView {
    UserView { clients, ..user }
}

/// A user after the event `event` was published under `topic`: where the
/// user is subscribed to the topic, the event was broadcast to its sessions.
pub open spec fn after_publish(user: UserView, topic: u64, event: EventView) -> UserView {
    if user.subscriptions.contains(topic) {
        with_clients(user, broadcast_clients(user.clients, event))
    } else {
        user
    }
}

/// The users after the event `event` was published under `topic`.
pub open spec fn published_users(users: Seq<UserView>, topic: u64, event: EventView) -> Seq<
    UserView,
> {
    Seq::new(users.len(), |u: int| after_publish(users[u], topic, event))
}

/// What publishing `event` under `topic` sends: the frames of a broadcast
/// for every subscribed user, user after user.
pub open spec fn publication(users: Seq<UserView>, topic: u64, event: EventView) -> Seq<
    DeliveryView,
>
    decreases users.len(),
{
    if users.len() == 0 {
        Seq::empty()
    } else if users.last().subscriptions.contains(topic) {
        publication(users.drop_last(), topic, event) + deliveries_of(users.last().clients, event)
    } else {
        publication(users.drop_last(), topic, event)
    }
}

/// Whether every live session of every user subscribed to `topic` can still
/// count one more event.
pub open spec fn room_for_publish(users: Seq<UserView>, topic: u64) -> bool {
    forall|u: int|
        0 <= u < users.len() && (#[trigger] users[u]).subscriptions.contains(topic)
            ==> room_for_event(users[u].clients)
}

/// The users that stay when every session whose grace window has closed at
/// `now` is dropped, and with it every user that is left without a session.
pub open spec fn reaped(users: Seq<UserView>, now: u64, grace_secs: u64) -> Seq<UserView>
    decreases users.len(),
{
    if users.len() == 0 {
        Seq::empty()
    } else if kept(users.last().clients, now, grace_secs).len() == 0 {
        reaped(users.drop_last(), now, grace_secs)
    } else {
        reaped(users.drop_last(), now, grace_secs).push(
            with_clients(users.last(), kept(users.last().clients, now, grace_secs)),
        )
    }
}

/// The sessions whose grace window has closed at `now`, user after user.
pub open spec fn reaped_sessions(users: Seq<UserView>, now: u64, grace_secs: u64) -> Seq<
    ClientView,
>
    decreases users.len(),
{
    if users.len() == 0 {
        Seq::empty()
    } else {
        reaped_sessions(users.drop_last(), now, grace_secs) + lapsed_of(
            users.last().clients,
            now,
            grace_secs,
        )
    }
}

impl StoreState {
    /// The store after the session `session_id` was detached: its user has
    /// one session less, and leaves the store where that was its last.
    pub open spec fn without_session(self, session_id: Seq<char>) -> StoreState {
        let owner = session_owner(self.users, session_id);
        if owner < self.users.len() {
            let user = self.users[owner];
            let rest = user.clients.remove(position(user.clients, session_id));
            if rest.len() == 0 {
                StoreState { users: self.users.remove(owner) }
            } else {
                StoreState { users: self.users.update(owner, with_clients(user, rest)) }
            }
        } else {
            self
        }
    }

    /// The store after the session `session_id` lost its transport at `now`.
    pub open spec fn with_disconnected(self, session_id: Seq<char>, now: u64) -> StoreState {
        let owner = session_owner(self.users, session_id);
        if owner < self.users.len() {
            let user = self.users[owner];
            let index = position(user.clients, session_id);
            StoreState {
                users: self.users.update(
                    owner,
                    with_clients(
                        user,
                        user.clients.update(index, user.clients[index].disconnected(now)),
                    ),
                ),
            }
        } else {
            self
        }
    }
}

impl GatewayUsersStore {
    /// Puts the user `user` in the place of the one at `index`.
    proof fn lemma_user_replaced(&self, was: &GatewayUsersStore, index: int)
        requires
            was.wf(),
            0 <= index < was.users@.len(),
            self.users@.len() == was.users@.len(),
            forall|u: int| 0 <= u < was.users@.len() && u != index ==> self.users@[u] == was.users@[u],
            self.users@[index].wf(),
            self.users@[index]@.id == was.users@[index]@.id,
            sessions_within(self.users@[index]@.clients, was.users@[index]@.clients),
        ensures
            self.wf(),
            self@.users == was@.users.update(index, self.users@[index]@),
    {
        assert(was@.users[index] == was.users@[index]@);
        lemma_replace_user(was@.users, index, self.users@[index]@);
        assert(self@.users =~= was@.users.update(index, self.users@[index]@));
    }

    /// The session at position `index` of the user at position `owner`.
    pub fn client(&self, owner: usize, index: usize) -> (client: &GatewayClient)
        requires
            self.wf(),
            owner < self@.users.len(),
            index < self@.users[owner as int].clients.len(),
        ensures
            client@ == self@.users[owner as int].clients[index as int],
            client.wf(),
    {
        assert(self@.users[owner as int] == self.users@[owner as int]@);
        assert(self@.users[owner as int].wf());
        self.users[owner].client(index)
    }

    /// Attaches a session to the user at position `owner`.
    pub fn attach(&mut self, owner: usize, client: GatewayClient)
        requires
            old(self).wf(),
            owner < old(self)@.users.len(),
            client.wf(),
            client@.parent == old(self)@.users[owner as int].id,
            !old(self)@.has_session(client@.session_id),
        ensures
            final(self).wf(),
            final(self)@.users == old(self)@.users.update(
                owner as int,
                with_clients(
                    old(self)@.users[owner as int],
                    old(self)@.users[owner as int].clients.push(client@),
                ),
            ),
            final(self)@.has_session(client@.session_id),
            final(self)@.session(client@.session_id) == client@,
    {
        let ghost was = old(self)@.users;
        proof {
            lemma_session_owner(was, client@.session_id);
            assert(was[owner as int] == self.users@[owner as int]@);
            assert(was[owner as int].wf());
        }
        self.users[owner].attach(client);
        proof {
            let user = self.users@[owner as int]@;
            let after = was.update(owner as int, user);
            assert(users_view(self.users@) =~= after);
            assert forall|u: int| 0 <= u < after.len() implies (#[trigger] after[u]).wf() by {
                if u != owner {
                    assert(after[u] == was[u]);
                }
            }
            assert forall|u: int, v: int| 0 <= u < v < after.len() implies (#[trigger] after[u]).id
                != (#[trigger] after[v]).id by {
                assert(after[u].id == was[u].id && after[v].id == was[v].id);
            }
            assert forall|u: int, v: int, i: int, j: int|
                0 <= u < v < after.len() && 0 <= i < after[u].clients.len() && 0 <= j
                    < after[v].clients.len() implies (#[trigger] after[u].clients[i]).session_id
                != (#[trigger] after[v].clients[j]).session_id by {
                if u == owner && i == was[u].clients.len() {
                    assert(!has_session(was[v].clients, client@.session_id));
                } else if v == owner && j == was[v].clients.len() {
                    assert(!has_session(was[u].clients, client@.session_id));
                } else {
                    assert(was[u].clients[i].session_id != was[v].clients[j].session_id);
                }
            }
            assert forall|u: int| 0 <= u < self.users@.len() implies (
            #[trigger] self.users@[u]).topics_stored_once() by {
                if u != owner {
                    assert(self.users@[u] == old(self).users@[u]);
                }
            }
            assert(after[owner as int].clients[was[owner as int].clients.len() as int] == client@);
            lemma_session_found(after, owner as int, was[owner as int].clients.len() as int);
        }
    }

    /// Subscribes the user `user_id` to `topic`; says whether the store holds
    /// that user.
    pub fn subscribe(&mut self, user_id: u64, topic: u64) -> (known: bool)
        requires
            old(self).wf(),
        ensures
            final(self).wf(),
            known == old(self)@.contains(user_id),
            final(self)@ == old(self)@.with_subscription(user_id, topic),
    {
        match self.find_user(user_id) {
            Some(index) => {
                let ghost was = *self;
                assert(self@.users[index as int] == self.users@[index as int]@);
                assert(self@.users[index as int].wf());
                self.users[index].subscribe(topic);
                proof {
                    let user = self.users@[index as int]@;
                    assert forall|j: int| 0 <= j < user.clients.len() implies has_session(
                        was.users@[index as int]@.clients,
                        (#[trigger] user.clients[j]).session_id,
                    ) by {
                        assert(was.users@[index as int]@.clients[j].session_id
                            == user.clients[j].session_id);
                    }
                    self.lemma_user_replaced(&was, index as int);
                }
                true
            },
            None => false,
        }
    }

    /// Ends the subscription of the user `user_id` to `topic`; says whether
    /// the store holds that user.
    pub fn unsubscribe(&mut self, user_id: u64, topic: u64) -> (known: bool)
        requires
            old(self).wf(),
        ensures
            final(self).wf(),
            known == old(self)@.contains(user_id),
            final(self)@ == old(self)@.without_subscription(user_id, topic),
    {
        match self.find_user(user_id) {
            Some(index) => {
                let ghost was = *self;
                assert(self@.users[index as int] == self.users@[index as int]@);
                assert(self@.users[index as int].wf());
                self.users[index].unsubscribe(topic);
                proof {
                    let user = self.users@[index as int]@;
                    assert forall|j: int| 0 <= j < user.clients.len() implies has_session(
                        was.users@[index as int]@.clients,
                        (#[trigger] user.clients[j]).session_id,
                    ) by {
                        assert(was.users@[index as int]@.clients[j].session_id
                            == user.clients[j].session_id);
                    }
                    self.lemma_user_replaced(&was, index as int);
                }
                true
            },
            None => false,
        }
    }

    /// Records that the session `session_id` lost its transport at `now`: it
    /// now waits for a resume, and its tasks are to be killed. Says whether
    /// there is such a session.
    pub fn disconnect(&mut self, session_id: &String, now: u64) -> (known: bool)
        requires
            old(self).wf(),
        ensures
            final(self).wf(),
            known == old(self)@.has_session(session_id@),
            final(self)@ == old(self)@.with_disconnected(session_id@, now),
            known ==> final(self)@.has_session(session_id@) && final(self)@.session(session_id@)
                == old(self)@.session(session_id@).disconnected(now),
    {
        match self.find_session(session_id) {
            Some((owner, index)) => {
                let ghost was = *self;
                assert(self@.users[owner as int] == self.users@[owner as int]@);
                assert(self@.users[owner as int].wf());
                self.users[owner].delivery_failed(index, now);
                proof {
                    let user = self.users@[owner as int]@;
                    assert forall|j: int| 0 <= j < user.clients.len() implies has_session(
                        was.users@[owner as int]@.clients,
                        (#[trigger] user.clients[j]).session_id,
                    ) by {
                        assert(was.users@[owner as int]@.clients[j].session_id
                            == user.clients[j].session_id);
                    }
                    self.lemma_user_replaced(&was, owner as int);
                    assert(self@.users[owner as int].clients[index as int]
                        == was@.users[owner as int].clients[index as int].disconnected(now));
                    lemma_session_found(self@.users, owner as int, index as int);
                }
                true
            },
            None => false,
        }
    }

    /// Gives the session at position `index` of the user at position `owner`
    /// a new transport.
    pub fn reattach(&mut self, owner: usize, index: usize)
        requires
            old(self).wf(),
            owner < old(self)@.users.len(),
            index < old(self)@.users[owner as int].clients.len(),
        ensures
            final(self).wf(),
            final(self)@.users == old(self)@.users.update(
                owner as int,
                with_clients(
                    old(self)@.users[owner as int],
                    old(self)@.users[owner as int].clients.update(
                        index as int,
                        old(self)@.users[owner as int].clients[index as int].reattached(),
                    ),
                ),
            ),
            final(self)@.users[owner as int].clients[index as int] == old(
                self,
            )@.users[owner as int].clients[index as int].reattached(),
    {
        let ghost was = *self;
        assert(self@.users[owner as int] == self.users@[owner as int]@);
        assert(self@.users[owner as int].wf());
        self.users[owner].reattach(index);
        proof {
            let user = self.users@[owner as int]@;
            assert forall|j: int| 0 <= j < user.clients.len() implies has_session(
                was.users@[owner as int]@.clients,
                (#[trigger] user.clients[j]).session_id,
            ) by {
                assert(was.users@[owner as int]@.clients[j].session_id
                    == user.clients[j].session_id);
            }
            self.lemma_user_replaced(&was, owner as int);
        }
    }

    /// Detaches the session `session_id` for the reason `reason`; its user
    /// leaves the store where that was its last session. The result says
    /// whose tasks are to be killed and what the peer is told; `None` where
    /// there is no such session.
    pub fn close_client(&mut self, session_id: &String, reason: GatewayError) -> (notice: Option<
        CloseNotice,
    >)
        requires
            old(self).wf(),
        ensures
            final(self).wf(),
            final(self)@ == old(self)@.without_session(session_id@),
            match notice {
                Some(n) => old(self)@.has_session(session_id@) && n.session_id@ == session_id@
                    && n.parent == old(self)@.users[session_owner(
                    old(self)@.users,
                    session_id@,
                )].id && n.code == reason.spec_close_code(),
                None => !old(self)@.has_session(session_id@),
            },
    {
        match self.find_session(session_id) {
            Some((owner, index)) => {
                let ghost was = *self;
                assert(self@.users[owner as int] == self.users@[owner as int]@);
                assert(self@.users[owner as int].wf());
                proof {
                    lemma_position(self@.users[owner as int].clients, session_id@);
                }
                let closed = self.users[owner].close(session_id);
                proof {
                    let user = self.users@[owner as int]@;
                    let old_clients = was.users@[owner as int]@.clients;
                    assert forall|j: int| 0 <= j < user.clients.len() implies has_session(
                        old_clients,
                        (#[trigger] user.clients[j]).session_id,
                    ) by {
                        let j0 = if j < index { j } else { j + 1 };
                        assert(old_clients[j0].session_id == user.clients[j].session_id);
                    }
                    self.lemma_user_replaced(&was, owner as int);
                }
                if self.users[owner].client_count() == 0 {
                    self.drop_user(owner);
                    assert(self@.users =~= was@.users.remove(owner as int));
                }
                match closed {
                    Some(client) => Some(client.close(reason)),
                    None => None,
                }
            },
            None => None,
        }
    }
}

impl GatewayUsersStore {
    /// Publishes `event` under `topic`: it is broadcast to the sessions of
    /// every user subscribed to the topic. The result holds the frames to
    /// send, user after user.
    pub fn publish(&mut self, topic: u64, event: &Event) -> (deliveries: Vec<Delivery>)
        requires
            old(self).wf(),
            room_for_publish(old(self)@.users, topic),
        ensures
            final(self).wf(),
            final(self)@.users == published_users(old(self)@.users, topic, event@),
            deliveries_view(deliveries@) == publication(old(self)@.users, topic, event@),
    {
        let n: usize = self.users.len();
        let mut deliveries: Vec<Delivery> = Vec::new();
        let ghost before = old(self)@.users;
        let mut u: usize = 0;
        assert(deliveries_view(deliveries@) =~= publication(before.take(0), topic, event@));
        while u < n
            invariant
                u <= n,
                n == self.users@.len(),
                n == before.len(),
                before == old(self)@.users,
                room_for_publish(before, topic),
                self.wf(),
                forall|k: int|
                    0 <= k < u ==> (#[trigger] self@.users[k]) == after_publish(
                        before[k],
                        topic,
                        event@,
                    ),
                forall|k: int| u <= k < n ==> (#[trigger] self@.users[k]) == before[k],
                deliveries_view(deliveries@) == publication(before.take(u as int), topic, event@),
            decreases n - u,
        {
            let ghost sent = deliveries@;
            let ghost was = *self;
            assert(before.take(u as int + 1).drop_last() =~= before.take(u as int));
            assert(before.take(u as int + 1).last() == before[u as int]);
            assert(self@.users[u as int] == self.users@[u as int]@);
            assert(self@.users[u as int].wf());
            if self.users[u].is_subscribed(topic) {
                let mut frames = self.users[u].broadcast(event);
                proof {
                    let user = self.users@[u as int]@;
                    assert forall|j: int| 0 <= j < user.clients.len() implies has_session(
                        before[u as int].clients,
                        (#[trigger] user.clients[j]).session_id,
                    ) by {
                        assert(before[u as int].clients[j].session_id
                            == user.clients[j].session_id);
                    }
                    self.lemma_user_replaced(&was, u as int);
                }
                let ghost added = frames@;
                deliveries.append(&mut frames);
                assert(deliveries_view(deliveries@) =~= deliveries_view(sent) + deliveries_view(
                    added,
                ));
            }
            u = u + 1;
        }
        assert(before.take(n as int) =~= before);
        assert(self@.users =~= published_users(before, topic, event@));
        deliveries
    }

    /// Drops every session whose grace window of `grace_secs` seconds has
    /// closed at `now`, and every user that is left without a session. The
    /// dropped sessions are handed out, user after user.
    pub fn reap(&mut self, now: u64, grace_secs: u64) -> (gone: Vec<GatewayClient>)
        requires
            old(self).wf(),
        ensures
            final(self).wf(),
            final(self)@.users == reaped(old(self)@.users, now, grace_secs),
            clients_view(gone@) == reaped_sessions(old(self)@.users, now, grace_secs),
    {
        let ghost before = old(self)@.users;
        let mut gone: Vec<GatewayClient> = Vec::new();
        let mut u: usize = 0;
        let ghost mut done: int = 0;
        assert(clients_view(gone@) =~= reaped_sessions(before.take(0), now, grace_secs));
        assert(self@.users =~= reaped(before.take(0), now, grace_secs) + before.skip(0));
        while u < self.users.len()
            invariant
                before == old(self)@.users,
                self.wf(),
                0 <= done <= before.len(),
                u == reaped(before.take(done), now, grace_secs).len(),
                self@.users == reaped(before.take(done), now, grace_secs) + before.skip(done),
                clients_view(gone@) == reaped_sessions(before.take(done), now, grace_secs),
            decreases before.len() - done,
        {
            let ghost was = *self;
            let ghost current = self@.users;
            let ghost left = gone@;
            let ghost stayed = reaped(before.take(done), now, grace_secs);
            assert(current.len() == stayed.len() + before.skip(done).len());
            assert(done < before.len());
            assert(current[u as int] == before.skip(done)[0]);
            assert(before.skip(done)[0] == before[done]);
            assert(before.take(done + 1).drop_last() =~= before.take(done));
            assert(before.take(done + 1).last() == before[done]);
            assert(self@.users[u as int] == self.users@[u as int]@);
            assert(self@.users[u as int].wf());
            let mut dropped = self.users[u].expire(now, grace_secs);
            proof {
                let user = self.users@[u as int]@;
                lemma_kept(before[done].clients, now, grace_secs);
                assert forall|j: int| 0 <= j < user.clients.len() implies has_session(
                    before[done].clients,
                    (#[trigger] user.clients[j]).session_id,
                ) by {
                    let j0 = choose|j0: int|
                        0 <= j0 < before[done].clients.len() && before[done].clients[j0]
                            == user.clients[j];
                    assert(before[done].clients[j0].session_id == user.clients[j].session_id);
                }
                self.lemma_user_replaced(&was, u as int);
                assert(user == with_clients(
                    before[done],
                    kept(before[done].clients, now, grace_secs),
                ));
            }
            let ghost lapsed = dropped@;
            gone.append(&mut dropped);
            assert(clients_view(gone@) =~= clients_view(left) + clients_view(lapsed));
            if self.users[u].client_count() == 0 {
                self.drop_user(u);
                assert(reaped(before.take(done + 1), now, grace_secs) == stayed);
                assert forall|k: int| 0 <= k < current.len() - 1 implies current.remove(
                    u as int,
                )[k] == (stayed + before.skip(done + 1))[k] by {
                    if k >= u {
                        assert(current[k + 1] == before.skip(done)[k + 1 - u]);
                    } else {
                        assert(current[k] == stayed[k]);
                    }
                }
                assert(self@.users =~= stayed + before.skip(done + 1));
            } else {
                let ghost user = self@.users[u as int];
                u = u + 1;
                assert(reaped(before.take(done + 1), now, grace_secs) == stayed.push(user));
                assert forall|k: int| 0 <= k < current.len() implies self@.users[k] == (
                stayed.push(user) + before.skip(done + 1))[k] by {
                    if k >= u {
                        assert(current[k] == before.skip(done)[k + 1 - u]);
                    } else if k < u - 1 {
                        assert(current[k] == stayed[k]);
                    }
                }
                assert(self@.users =~= stayed.push(user) + before.skip(done + 1));
            }
            proof {
                done = done + 1;
            }
        }
        proof {
            assert(done == before.len()) by {
                assert(self@.users.len() == u + before.skip(done).len());
            }
            assert(before.take(done) =~= before);
            assert(self@.users =~= reaped(before, now, grace_secs));
        }
        gone
    }
}

/// Looking a user up or creating it is idempotent: after the first time the
/// store holds the user, and a second time changes nothing.
pub proof fn lemma_get_or_create_is_idempotent(store: StoreState, id: u64)
    ensures
        store.with_user(id).contains(id),
        store.with_user(id).with_user(id) == store.with_user(id),
        store.contains(id) ==> store.with_user(id) == store,
{
    lemma_user_position(store.users, id);
    if !store.contains(id) {
        let after = store.users.push(fresh_user(id));
        assert(after.drop_last() =~= store.users);
        lemma_user_position(after, id);
    }
}

/// Every user that stays after reaping was there before, under the same id,
/// and has a session whose grace window has not closed.
pub proof fn lemma_reaped(users: Seq<UserView>, now: u64, grace_secs: u64)
    ensures
        forall|k: int|
            0 <= k < reaped(users, now, grace_secs).len() ==> exists|j: int|
                0 <= j < users.len() && (#[trigger] users[j]).id == (#[trigger] reaped(
                    users,
                    now,
                    grace_secs,
                )[k]).id && kept(users[j].clients, now, grace_secs).len() > 0,
    decreases users.len(),
{
    if users.len() > 0 {
        let rest = users.drop_last();
        lemma_reaped(rest, now, grace_secs);
        let r_rest = reaped(rest, now, grace_secs);
        let r_all = reaped(users, now, grace_secs);
        assert forall|k: int| 0 <= k < r_all.len() implies exists|j: int|
            0 <= j < users.len() && (#[trigger] users[j]).id == (#[trigger] r_all[k]).id && kept(
                users[j].clients,
                now,
                grace_secs,
            ).len() > 0 by {
            if k < r_rest.len() {
                assert(r_all[k] == r_rest[k]);
                let j = choose|j: int|
                    0 <= j < rest.len() && (#[trigger] rest[j]).id == r_rest[k].id && kept(
                        rest[j].clients,
                        now,
                        grace_secs,
                    ).len() > 0;
                assert(users[j] == rest[j]);
            } else {
                assert(r_all[k].id == users[users.len() - 1].id);
            }
        }
    }
}

/// User reclamation: once every session of a user has waited for a resume
/// for longer than the grace window, reaping leaves the store without that
/// user. A user without any session is reclaimed likewise.
pub proof fn lemma_user_is_reclaimed(store: StoreState, id: u64, now: u64, grace_secs: u64)
    requires
        store.wf(),
        forall|u: int, i: int|
            0 <= u < store.users.len() && store.users[u].id == id && 0 <= i
                < store.users[u].clients.len() ==> (#[trigger] store.users[u].clients[i]).lapsed(
                now,
                grace_secs,
            ),
    ensures
        !(StoreState { users: reaped(store.users, now, grace_secs) }).contains(id),
{
    let after = reaped(store.users, now, grace_secs);
    lemma_user_position(after, id);
    lemma_reaped(store.users, now, grace_secs);
    let p = user_position(after, id);
    if p < after.len() {
        let j = choose|j: int|
            0 <= j < store.users.len() && (#[trigger] store.users[j]).id == after[p].id && kept(
                store.users[j].clients,
                now,
                grace_secs,
            ).len() > 0;
        let clients = store.users[j].clients;
        lemma_kept(clients, now, grace_secs);
        let first = kept(clients, now, grace_secs)[0];
        assert(clients.contains(first));
        let i = choose|i: int| 0 <= i < clients.len() && clients[i] == first;
        assert(store.users[j].clients[i].lapsed(now, grace_secs));
    }
}

/// User reclamation on close: when the only session of a user is closed,
/// the store is left without that user.
pub proof fn lemma_last_close_reclaims(store: StoreState, session_id: Seq<char>)
    requires
        store.wf(),
        store.has_session(session_id),
        store.users[session_owner(store.users, session_id)].clients.len() == 1,
    ensures
        !store.without_session(session_id).contains(
            store.users[session_owner(store.users, session_id)].id,
        ),
{
    let owner = session_owner(store.users, session_id);
    let id = store.users[owner].id;
    lemma_session_owner(store.users, session_id);
    lemma_position(store.users[owner].clients, session_id);
    let after = store.users.remove(owner);
    assert(store.without_session(session_id).users == after);
    lemma_user_position(after, id);
    let p = user_position(after, id);
    if p < after.len() {
        let p0 = if p < owner { p } else { p + 1 };
        assert(after[p] == store.users[p0]);
        if p0 < owner {
            assert(store.users[p0].id != store.users[owner].id);
        } else {
            assert(store.users[owner].id != store.users[p0].id);
        }
    }
}

} // verus!
