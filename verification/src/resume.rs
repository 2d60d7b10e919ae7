use crate::client::ClientView;
use crate::config::GatewayConfig;
use crate::error::GatewayError;
use crate::replay::{frames_view, lemma_replay_is_contiguous};
use crate::store::{
    lemma_replace_user, lemma_session_found, lemma_session_owner, session_owner, with_clients,
    GatewayUsersStore, StoreState,
};
use crate::user::{lemma_position, position};
use crate::wire::{Resume, ServerFrame, ServerFrameView};
use vstd::prelude::*;

verus! {

/// A session that was taken up again.
#[derive(Debug, PartialEq, Eq)]
pub struct Resumed {
    /// The id of the user that the session belongs to.
    pub user_id: u64,
    /// The id of the session.
    pub session_id: String,
    /// The frames that the peer has missed, to send in this order before
    /// anything else.
    pub replay: Vec<ServerFrame>,
}

impl StoreState {
    /// Why a resume of the session `session_id` by a peer that has seen
    /// everything up to `last_seq` cannot go ahead at `now`, if it cannot. A
    /// token that did not verify comes first. Then the session must be there,
    /// wait for a resume and be within its grace window of `grace_secs`
    /// seconds, and must still hold what the peer has missed.
    pub open spec fn resume_obstacle(
        self,
        session_id: Seq<char>,
        last_seq: u64,
        token_valid: bool,
        now: u64,
        grace_secs: u64,
    ) -> Option<GatewayError> {
        if !token_valid {
            Some(GatewayError::InvalidToken)
        } else if !self.has_session(session_id) {
            Some(GatewayError::CannotResume)
        } else if !self.session(session_id).resumable(now, grace_secs) {
            Some(GatewayError::CannotResume)
        } else if !self.session(session_id).replay.can_replay(last_seq as int) {
            Some(GatewayError::CannotResume)
        } else {
            None
        }
    }

    /// The store after the session `session_id` got a new transport.
    pub open spec fn with_reattached(self, session_id: Seq<char>) -> StoreState {
        let owner = session_owner(self.users, session_id);
        let user = self.users[owner];
        let index = position(user.clients, session_id);
        StoreState {
            users: self.users.update(
                owner,
                with_clients(user, user.clients.update(index, user.clients[index].reattached())),
            ),
        }
    }
}

/// Takes up the session that `resume` names, for a peer whose token did or
/// did not verify. Where nothing stands against it the session gets the new
/// transport, and the result holds the frames that the peer has missed.
/// Otherwise the store stays as it is. The error is `InvalidToken` for a token
/// that did not verify; else `CannotResume`, which is answered with an invalid
/// session frame, for a session that is gone, does not wait for a resume, has
/// waited for longer than the grace window, or no longer holds what the peer
/// has missed.
pub fn resume_connection(
    store: &mut GatewayUsersStore,
    config: &GatewayConfig,
    resume: &Resume,
    token_valid: bool,
    now: u64,
) -> (result: Result<Resumed, GatewayError>)
    requires
        old(store).wf(),
    ensures
        final(store).wf(),
        match result {
            Ok(resumed) => {
                &&& old(store)@.resume_obstacle(
                    resume.session_id@,
                    resume.seq,
                    token_valid,
                    now,
                    config.resume_grace_secs,
                ) is None
                &&& final(store)@ == old(store)@.with_reattached(resume.session_id@)
                &&& final(store)@.has_session(resume.session_id@)
                &&& final(store)@.session(resume.session_id@) == old(store)@.session(
                    resume.session_id@,
                ).reattached()
                &&& resumed.session_id@ == resume.session_id@
                &&& resumed.user_id == old(store)@.session(resume.session_id@).parent
                &&& frames_view(resumed.replay@) == old(store)@.session(
                    resume.session_id@,
                ).replay.frames_after(resume.seq as int)
            },
            Err(error) => {
                &&& old(store)@.resume_obstacle(
                    resume.session_id@,
                    resume.seq,
                    token_valid,
                    now,
                    config.resume_grace_secs,
                ) == Some(error)
                &&& final(store)@ == old(store)@
            },
        },
{
    if !token_valid {
        return Err(GatewayError::InvalidToken);
    }
    let (owner, index) = match store.find_session(&resume.session_id) {
        Some(place) => place,
        None => {
            return Err(GatewayError::CannotResume);
        },
    };
    let client = store.client(owner, index);
    if !client.is_resumable(now, config.resume_grace_secs) {
        return Err(GatewayError::CannotResume);
    }
    if !client.can_replay(resume.seq) {
        return Err(GatewayError::CannotResume);
    }
    let replay = client.frames_after(resume.seq);
    let user_id = client.parent();
    let session_id = resume.session_id.clone();
    let ghost before = store@;
    store.reattach(owner, index);
    proof {
        assert(store@.users[owner as int].clients[index as int].session_id
            == resume.session_id@);
        lemma_session_found(store@.users, owner as int, index as int);
    }
    Ok(Resumed { user_id, session_id, replay })
}

/// Resume grace: with a token that verifies and a buffer that still holds
/// what the peer has missed, the resume of a session that lost its transport
/// at `since` goes ahead as long as no more than the grace window has passed,
/// and is refused with `CannotResume` afterwards.
pub proof fn lemma_resume_within_grace(
    store: StoreState,
    session_id: Seq<char>,
    last_seq: u64,
    since: u64,
    now: u64,
    grace_secs: u64,
)
    requires
        store.has_session(session_id),
        store.session(session_id).disconnect_info == Some(since),
        store.session(session_id).replay.can_replay(last_seq as int),
    ensures
        crate::clock::elapsed_ms(since, now) <= grace_secs * 1000 ==> store.resume_obstacle(
            session_id,
            last_seq,
            true,
            now,
            grace_secs,
        ) is None,
        crate::clock::elapsed_ms(since, now) > grace_secs * 1000 ==> store.resume_obstacle(
            session_id,
            last_seq,
            true,
            now,
            grace_secs,
        ) == Some(GatewayError::CannotResume),
{
}

/// Replay correctness: where a resume from `last_seq` goes ahead, the frames
/// replayed are those of the sequence numbers `last_seq + 1` up to the last
/// one dispatched, each once and in order; and the session, live again, gives
/// the next event the sequence number after that.
pub proof fn lemma_resume_replays_what_was_missed(
    store: StoreState,
    session_id: Seq<char>,
    last_seq: u64,
    now: u64,
    grace_secs: u64,
)
    requires
        store.wf(),
        store.resume_obstacle(session_id, last_seq, true, now, grace_secs) is None,
    ensures
        ({
            let session = store.session(session_id);
            let frames = session.replay.frames_after(last_seq as int);
            &&& frames.len() == if last_seq < session.sequence() {
                session.sequence() - last_seq
            } else {
                0
            }
            &&& forall|i: int|
                0 <= i < frames.len() ==> #[trigger] frames[i] == (ServerFrameView::Dispatch {
                    seq: (last_seq + 1 + i) as u64,
                    event: session.replay.event_at(last_seq + 1 + i),
                })
            &&& store.with_reattached(session_id).session(session_id) == session.reattached()
            &&& session.reattached().live()
            &&& session.reattached().sequence() == session.sequence()
        }),
{
    let owner = session_owner(store.users, session_id);
    lemma_session_owner(store.users, session_id);
    let user = store.users[owner];
    lemma_position(user.clients, session_id);
    let index = position(user.clients, session_id);
    let session = user.clients[index];
    assert(user.wf());
    assert(session.wf());
    lemma_replay_is_contiguous(session.replay, last_seq as int);
    let after = store.with_reattached(session_id);
    let renewed = with_clients(user, user.clients.update(index, session.reattached()));
    assert forall|j: int| 0 <= j < renewed.clients.len() implies crate::user::has_session(
        user.clients,
        (#[trigger] renewed.clients[j]).session_id,
    ) by {
        assert(user.clients[j].session_id == renewed.clients[j].session_id);
    }
    assert(renewed.wf()) by {
        assert forall|i: int| 0 <= i < renewed.clients.len() implies (
        #[trigger] renewed.clients[i]).wf() && renewed.clients[i].parent == renewed.id by {
            assert(user.clients[i].wf());
        }
        assert forall|i: int, j: int| 0 <= i < j < renewed.clients.len() implies (
        #[trigger] renewed.clients[i]).session_id != (#[trigger] renewed.clients[j]).session_id by {
            assert(user.clients[i].session_id != user.clients[j].session_id);
        }
    }
    lemma_replace_user(store.users, owner, renewed);
    lemma_session_found(after.users, owner, index);
}

} // verus!
