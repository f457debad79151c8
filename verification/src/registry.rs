//! The session registry and the request dispatcher over it.
//!
//! A [`WorldState`] maps session identifiers to sessions; it is created empty
//! and entries are created on first join, never removed. [`MGNServer`] turns
//! one decoded [`Operation`] into a mutation or query of the registry and the
//! [`Response`] to answer with. Every outcome — including every `Error` — is
//! pinned by the `*_outcome` predicates the contracts use.

use vstd::prelude::*;

use crate::protocol::{GamerIdType, Operation, OperationView, Response, ResponseView, SessionIdType};
use crate::session::{GameSession, GameState, SessionView};

verus! {

/// One registered session together with its identifier.
#[derive(Debug)]
pub struct SessionEntry {
    pub session_id: SessionIdType,
    pub session: GameSession,
}

/// Mathematical value of a [`SessionEntry`].
#[verifier::ext_equal]
pub struct SessionEntryView {
    pub session_id: Seq<char>,
    pub session: SessionView,
}

impl View for SessionEntry {
    type V = SessionEntryView;

    open spec fn view(&self) -> SessionEntryView {
        SessionEntryView { session_id: self.session_id@, session: self.session@ }
    }
}

/// Mathematical value of a sequence of registered sessions.
pub open spec fn sessions_view(v: Seq<SessionEntry>) -> Seq<SessionEntryView> {
    v.map_values(|e: SessionEntry| e@)
}

/// The registry of all sessions: the single source of truth a server guards
/// with one exclusive lock. Entries are created by join and never removed.
#[derive(Debug)]
pub struct WorldState {
    pub sessions: Vec<SessionEntry>,
}

impl View for WorldState {
    type V = Seq<SessionEntryView>;

    open spec fn view(&self) -> Seq<SessionEntryView> {
        sessions_view(self.sessions@)
    }
}

/// Registry well-formedness: session identifiers are unique, every stored
/// session is well-formed, and every stored session has at least one
/// participant (only a join, which registers its gamer, creates one).
pub open spec fn world_wf(w: Seq<SessionEntryView>) -> bool {
    &&& forall|i: int, j: int|
        0 <= i < j < w.len() ==> w[i].session_id != w[j].session_id
    &&& forall|i: int|
        0 <= i < w.len() ==> (#[trigger] w[i]).session.wf() && w[i].session.gamers.len() > 0
}

/// Whether the registry holds a session named `id`.
pub open spec fn has_session(w: Seq<SessionEntryView>, id: Seq<char>) -> bool {
    exists|i: int| 0 <= i < w.len() && w[i].session_id == id
}

/// The position of the session named `id`; meaningful only when
/// `has_session(w, id)` holds (and then unique, by well-formedness).
pub open spec fn session_index(w: Seq<SessionEntryView>, id: Seq<char>) -> int {
    choose|i: int| 0 <= i < w.len() && w[i].session_id == id
}

/// `w` with the session at position `i` replaced by `s`, under its old name.
pub open spec fn world_update(w: Seq<SessionEntryView>, i: int, s: SessionView) -> Seq<
    SessionEntryView,
> {
    w.update(i, SessionEntryView { session_id: w[i].session_id, session: s })
}

/// Under well-formedness, a position holding `id` is the only one, so it is
/// the position that `session_index` denotes.
pub proof fn lemma_session_index_unique(w: Seq<SessionEntryView>, id: Seq<char>, i: int)
    requires
        world_wf(w),
        0 <= i < w.len(),
        w[i].session_id == id,
    ensures
        has_session(w, id),
        session_index(w, id) == i,
{
    assert(has_session(w, id));
    let j = session_index(w, id);
    if i != j {
        if i < j {
            assert(w[i].session_id != w[j].session_id);
        } else {
            assert(w[j].session_id != w[i].session_id);
        }
    }
}

/// Replacing one session by a well-formed, non-empty one keeps the registry
/// well-formed.
proof fn lemma_world_update_wf(w: Seq<SessionEntryView>, i: int, s: SessionView)
    requires
        world_wf(w),
        0 <= i < w.len(),
        s.wf(),
        s.gamers.len() > 0,
    ensures
        world_wf(world_update(w, i, s)),
{
    let post = world_update(w, i, s);
    assert forall|a: int, b: int|
        0 <= a < b < post.len() implies post[a].session_id != post[b].session_id by {
        assert(w[a].session_id != w[b].session_id);
    }
    assert forall|k: int|
        0 <= k < post.len() implies (#[trigger] post[k]).session.wf()
        && post[k].session.gamers.len() > 0 by {
        if k != i {
            assert(post[k] == w[k]);
        }
    }
}

impl WorldState {
    /// An empty registry.
    pub fn new() -> (r: Self)
        ensures
            r@ == Seq::<SessionEntryView>::empty(),
            world_wf(r@),
    {
        let r = WorldState { sessions: Vec::new() };
        proof {
            assert(r@ =~= Seq::<SessionEntryView>::empty());
        }
        r
    }

    /// The position of the session named `session_id`, if one is registered.
    fn find_session(&self, session_id: &SessionIdType) -> (r: Option<usize>)
        requires
            world_wf(self@),
        ensures
            match r {
                Some(i) => {
                    &&& 0 <= i < self@.len()
                    &&& self@[i as int].session_id == session_id@
                    &&& has_session(self@, session_id@)
                    &&& i == session_index(self@, session_id@)
                },
                None => !has_session(self@, session_id@),
            },
    {
        let n = self.sessions.len();
        let mut i: usize = 0;
        while i < n
            invariant
                n == self@.len(),
                0 <= i <= n,
                world_wf(self@),
                forall|k: int| 0 <= k < i ==> self@[k].session_id != session_id@,
            decreases n - i,
        {
            if self.sessions[i].session_id == *session_id {
                proof {
                    lemma_session_index_unique(self@, session_id@, i as int);
                }
                return Some(i);
            }
            i += 1;
        }
        None
    }
}

/// What join leaves behind and answers: always `Okay`; the named session is
/// created on first join, and the gamer registered by the session's own join
/// step.
pub open spec fn join_outcome(
    pre: Seq<SessionEntryView>,
    sid: Seq<char>,
    gid: Seq<char>,
    post: Seq<SessionEntryView>,
    r: ResponseView,
) -> bool {
    &&& r is Okay
    &&& if has_session(pre, sid) {
        let i = session_index(pre, sid);
        post == world_update(pre, i, pre[i].session.join_step(gid))
    } else {
        post == pre.push(
            SessionEntryView { session_id: sid, session: SessionView::init().join_step(gid) },
        )
    }
}

/// What reset leaves behind and answers: `Error` against an unknown session
/// (registry unchanged), else `Okay` with the session rewound.
pub open spec fn reset_outcome(
    pre: Seq<SessionEntryView>,
    sid: Seq<char>,
    post: Seq<SessionEntryView>,
    r: ResponseView,
) -> bool {
    if has_session(pre, sid) {
        let i = session_index(pre, sid);
        &&& post == world_update(pre, i, pre[i].session.reset_step())
        &&& r is Okay
    } else {
        &&& post == pre
        &&& r is Error
    }
}

/// What start leaves behind and answers: `Error` against an unknown session
/// or a session not gathering (state unchanged), else `Okay` with the session
/// in play.
pub open spec fn start_outcome(
    pre: Seq<SessionEntryView>,
    sid: Seq<char>,
    post: Seq<SessionEntryView>,
    r: ResponseView,
) -> bool {
    if has_session(pre, sid) {
        let i = session_index(pre, sid);
        &&& post == world_update(pre, i, pre[i].session.start_step())
        &&& r == if pre[i].session.start_allowed() {
            ResponseView::Okay
        } else {
            ResponseView::Error
        }
    } else {
        &&& post == pre
        &&& r is Error
    }
}

/// What end leaves behind and answers: `Error` against an unknown session or
/// a session not in play (state unchanged), else `Okay` with the session
/// finished.
pub open spec fn end_outcome(
    pre: Seq<SessionEntryView>,
    sid: Seq<char>,
    post: Seq<SessionEntryView>,
    r: ResponseView,
) -> bool {
    if has_session(pre, sid) {
        let i = session_index(pre, sid);
        &&& post == world_update(pre, i, pre[i].session.end_step())
        &&& r == if pre[i].session.end_allowed() {
            ResponseView::Okay
        } else {
            ResponseView::Error
        }
    } else {
        &&& post == pre
        &&& r is Error
    }
}

/// What a turn query answers: whether the named gamer holds the turn of the
/// named session; `Error` against an unknown session.
pub open spec fn is_gamer_turn_outcome(
    w: Seq<SessionEntryView>,
    sid: Seq<char>,
    gid: Seq<char>,
    r: ResponseView,
) -> bool {
    if has_session(w, sid) {
        r == ResponseView::OkWithBool(w[session_index(w, sid)].session.is_gamer_turn_spec(gid))
    } else {
        r is Error
    }
}

/// What a play query answers: whether the named session is in play; `Error`
/// against an unknown session.
pub open spec fn is_game_on_outcome(
    w: Seq<SessionEntryView>,
    sid: Seq<char>,
    r: ResponseView,
) -> bool {
    if has_session(w, sid) {
        r == ResponseView::OkWithBool(w[session_index(w, sid)].session.state is Game)
    } else {
        r is Error
    }
}

/// What advancing the turn leaves behind and answers: `Error` against an
/// unknown session (registry unchanged), else `Okay` with the turn handed on.
pub open spec fn next_gamer_outcome(
    pre: Seq<SessionEntryView>,
    sid: Seq<char>,
    post: Seq<SessionEntryView>,
    r: ResponseView,
) -> bool {
    if has_session(pre, sid) {
        let i = session_index(pre, sid);
        &&& post == world_update(pre, i, pre[i].session.next_step())
        &&& r is Okay
    } else {
        &&& post == pre
        &&& r is Error
    }
}

/// What recording an update leaves behind and answers: `Error` against an
/// unknown session or an unknown gamer (registry unchanged in either case),
/// else `Okay` with the update appended to the gamer's history.
pub open spec fn send_update_outcome(
    pre: Seq<SessionEntryView>,
    sid: Seq<char>,
    gid: Seq<char>,
    update: Seq<u8>,
    post: Seq<SessionEntryView>,
    r: ResponseView,
) -> bool {
    if has_session(pre, sid) {
        let i = session_index(pre, sid);
        &&& post == world_update(pre, i, pre[i].session.add_update_step(gid, update))
        &&& r == if pre[i].session.has_gamer(gid) {
            ResponseView::Okay
        } else {
            ResponseView::Error
        }
    } else {
        &&& post == pre
        &&& r is Error
    }
}

/// What a latest-updates query answers: every joined gamer of the named
/// session with their most recent update, absent where nothing was ever
/// submitted; `Error` against an unknown session.
pub open spec fn previous_round_updates_outcome(
    w: Seq<SessionEntryView>,
    sid: Seq<char>,
    r: ResponseView,
) -> bool {
    if has_session(w, sid) {
        r == ResponseView::OkWithPreviousRoundUpdates(
            w[session_index(w, sid)].session.latest_updates_spec(),
        )
    } else {
        r is Error
    }
}

/// What delivering a message leaves behind and answers: `Error` against an
/// unknown session or a point-to-point message to an unknown gamer (registry
/// unchanged in either case), else `Okay` with the session's mailboxes
/// holding the message.
pub open spec fn send_message_outcome(
    pre: Seq<SessionEntryView>,
    sid: Seq<char>,
    m: crate::protocol::MessageView,
    post: Seq<SessionEntryView>,
    r: ResponseView,
) -> bool {
    if has_session(pre, sid) {
        let i = session_index(pre, sid);
        &&& post == world_update(pre, i, pre[i].session.save_message_step(m))
        &&& r == if pre[i].session.save_allowed(m) {
            ResponseView::Okay
        } else {
            ResponseView::Error
        }
    } else {
        &&& post == pre
        &&& r is Error
    }
}

/// What a mailbox fetch leaves behind and answers: `Error` against an unknown
/// session or an unknown gamer (registry unchanged in either case), else the
/// gamer's entire pending mailbox, oldest first, with the mailbox emptied.
pub open spec fn fetch_all_messages_outcome(
    pre: Seq<SessionEntryView>,
    sid: Seq<char>,
    gid: Seq<char>,
    post: Seq<SessionEntryView>,
    r: ResponseView,
) -> bool {
    if has_session(pre, sid) {
        let i = session_index(pre, sid);
        &&& post == world_update(pre, i, pre[i].session.pop_step(gid))
        &&& r == if pre[i].session.has_gamer(gid) {
            ResponseView::OkWithMessages(pre[i].session.pop_result(gid))
        } else {
            ResponseView::Error
        }
    } else {
        &&& post == pre
        &&& r is Error
    }
}

/// What one dispatched operation leaves behind and answers, by request tag.
pub open spec fn dispatch_outcome(
    pre: Seq<SessionEntryView>,
    op: OperationView,
    post: Seq<SessionEntryView>,
    r: ResponseView,
) -> bool {
    match op {
        OperationView::JoinSession(sid, gid) => join_outcome(pre, sid, gid, post, r),
        OperationView::ResetSession(sid) => reset_outcome(pre, sid, post, r),
        OperationView::StartSession(sid) => start_outcome(pre, sid, post, r),
        OperationView::EndSession(sid) => end_outcome(pre, sid, post, r),
        OperationView::IsGamerTurn(sid, gid) => post == pre && is_gamer_turn_outcome(
            pre,
            sid,
            gid,
            r,
        ),
        OperationView::NextGamer(sid) => next_gamer_outcome(pre, sid, post, r),
        OperationView::IsGameOn(sid) => post == pre && is_game_on_outcome(pre, sid, r),
        OperationView::SendUpdate(sid, gid, u) => send_update_outcome(pre, sid, gid, u, post, r),
        OperationView::GetPreviousRoundUpdates(sid) => post == pre
            && previous_round_updates_outcome(pre, sid, r),
        OperationView::SendMessage(sid, m) => send_message_outcome(pre, sid, m, post, r),
        OperationView::FetchAllMessages(sid, gid) => fetch_all_messages_outcome(
            pre,
            sid,
            gid,
            post,
            r,
        ),
    }
}

/// The request dispatcher. It owns no state of its own: a server constructs
/// one registry, and every connection handler funnels its decoded operation
/// through [`MGNServer::process`] under one exclusive critical section.
pub struct MGNServer {}

impl MGNServer {
    /// A dispatcher.
    pub fn new() -> (r: Self) {
        MGNServer {  }
    }

    /// Registers `gamer_id` in the named session, creating the session first
    /// if this identifier was never joined before. Always answers `Okay`.
    pub fn process_join_session(
        world_state: &mut WorldState,
        session_id: SessionIdType,
        gamer_id: GamerIdType,
    ) -> (r: Response)
        requires
            world_wf(old(world_state)@),
        ensures
            world_wf(final(world_state)@),
            join_outcome(old(world_state)@, session_id@, gamer_id@, final(world_state)@, r@),
    {
        let ghost sid = session_id@;
        let ghost gid = gamer_id@;
        match world_state.find_session(&session_id) {
            Some(i) => {
                let ghost prev = world_state.sessions@;
                let mut entry = world_state.sessions.remove(i);
                entry.session.join(gamer_id);
                let ghost e2 = entry@;
                world_state.sessions.insert(i, entry);
                proof {
                    assert(world_state.sessions@ =~= prev.update(
                        i as int,
                        world_state.sessions@[i as int],
                    ));
                    assert(world_state@ =~= world_update(old(world_state)@, i as int, e2.session));
                    lemma_world_update_wf(old(world_state)@, i as int, e2.session);
                }
            },
            None => {
                let mut session = GameSession::new();
                session.join(gamer_id);
                let ghost s2 = session@;
                world_state.sessions.push(SessionEntry { session_id, session });
                proof {
                    assert(world_state@ =~= old(world_state)@.push(
                        SessionEntryView { session_id: sid, session: s2 },
                    ));
                    assert(s2.gamers.len() == 1);
                    assert forall|a: int, b: int|
                        0 <= a < b < world_state@.len() implies world_state@[a].session_id
                        != world_state@[b].session_id by {
                        if b < old(world_state)@.len() {
                            assert(old(world_state)@[a].session_id != old(
                                world_state,
                            )@[b].session_id);
                        } else {
                            assert(!has_session(old(world_state)@, sid));
                        }
                    }
                    assert forall|k: int|
                        0 <= k < world_state@.len() implies (#[trigger] world_state@[k]).session.wf()
                        && world_state@[k].session.gamers.len() > 0 by {
                        if k < old(world_state)@.len() {
                            assert(world_state@[k] == old(world_state)@[k]);
                        }
                    }
                }
            },
        }
        Response::Okay
    }

    /// Rewinds the named session to gathering; `Error` against an unknown
    /// session.
    pub fn process_reset_session(
        world_state: &mut WorldState,
        session_id: SessionIdType,
    ) -> (r: Response)
        requires
            world_wf(old(world_state)@),
        ensures
            world_wf(final(world_state)@),
            reset_outcome(old(world_state)@, session_id@, final(world_state)@, r@),
    {
        match world_state.find_session(&session_id) {
            Some(i) => {
                let ghost prev = world_state.sessions@;
                let mut entry = world_state.sessions.remove(i);
                entry.session.reset();
                let ghost e2 = entry@;
                world_state.sessions.insert(i, entry);
                proof {
                    assert(world_state.sessions@ =~= prev.update(
                        i as int,
                        world_state.sessions@[i as int],
                    ));
                    assert(world_state@ =~= world_update(old(world_state)@, i as int, e2.session));
                    lemma_world_update_wf(old(world_state)@, i as int, e2.session);
                }
                Response::Okay
            },
            None => Response::Error,
        }
    }

    /// Moves the named session from gathering into play; `Error` against an
    /// unknown session or a session not gathering.
    pub fn process_start_session(
        world_state: &mut WorldState,
        session_id: SessionIdType,
    ) -> (r: Response)
        requires
            world_wf(old(world_state)@),
        ensures
            world_wf(final(world_state)@),
            start_outcome(old(world_state)@, session_id@, final(world_state)@, r@),
    {
        match world_state.find_session(&session_id) {
            Some(i) => {
                let ghost prev = world_state.sessions@;
                let mut entry = world_state.sessions.remove(i);
                let allowed = entry.session.start();
                let ghost e2 = entry@;
                world_state.sessions.insert(i, entry);
                proof {
                    assert(world_state.sessions@ =~= prev.update(
                        i as int,
                        world_state.sessions@[i as int],
                    ));
                    assert(world_state@ =~= world_update(old(world_state)@, i as int, e2.session));
                    lemma_world_update_wf(old(world_state)@, i as int, e2.session);
                }
                if allowed {
                    Response::Okay
                } else {
                    Response::Error
                }
            },
            None => Response::Error,
        }
    }

    /// Moves the named session from play to finished; `Error` against an
    /// unknown session or a session not in play.
    pub fn process_end_session(
        world_state: &mut WorldState,
        session_id: SessionIdType,
    ) -> (r: Response)
        requires
            world_wf(old(world_state)@),
        ensures
            world_wf(final(world_state)@),
            end_outcome(old(world_state)@, session_id@, final(world_state)@, r@),
    {
        match world_state.find_session(&session_id) {
            Some(i) => {
                let ghost prev = world_state.sessions@;
                let mut entry = world_state.sessions.remove(i);
                let allowed = entry.session.end();
                let ghost e2 = entry@;
                world_state.sessions.insert(i, entry);
                proof {
                    assert(world_state.sessions@ =~= prev.update(
                        i as int,
                        world_state.sessions@[i as int],
                    ));
                    assert(world_state@ =~= world_update(old(world_state)@, i as int, e2.session));
                    lemma_world_update_wf(old(world_state)@, i as int, e2.session);
                }
                if allowed {
                    Response::Okay
                } else {
                    Response::Error
                }
            },
            None => Response::Error,
        }
    }

    /// Answers whether the named session is in play; `Error` against an
    /// unknown session.
    pub fn process_is_game_on(world_state: &WorldState, session_id: SessionIdType) -> (r: Response)
        requires
            world_wf(world_state@),
        ensures
            is_game_on_outcome(world_state@, session_id@, r@),
    {
        match world_state.find_session(&session_id) {
            Some(i) => Response::OkWithBool(world_state.sessions[i].session.is_game_on()),
            None => Response::Error,
        }
    }

    /// Answers whether `gamer_id` holds the turn of the named session;
    /// `Error` against an unknown session.
    pub fn process_is_gamer_turn(
        world_state: &WorldState,
        session_id: SessionIdType,
        gamer_id: GamerIdType,
    ) -> (r: Response)
        requires
            world_wf(world_state@),
        ensures
            is_gamer_turn_outcome(world_state@, session_id@, gamer_id@, r@),
    {
        match world_state.find_session(&session_id) {
            Some(i) => Response::OkWithBool(
                world_state.sessions[i].session.is_gamer_turn(gamer_id),
            ),
            None => Response::Error,
        }
    }

    /// Appends a submitted round update to `gamer_id`'s history in the named
    /// session; `Error` against an unknown session or an unknown gamer.
    pub fn process_send_update(
        world_state: &mut WorldState,
        session_id: SessionIdType,
        gamer_id: GamerIdType,
        update: Vec<u8>,
    ) -> (r: Response)
        requires
            world_wf(old(world_state)@),
        ensures
            world_wf(final(world_state)@),
            send_update_outcome(
                old(world_state)@,
                session_id@,
                gamer_id@,
                update@,
                final(world_state)@,
                r@,
            ),
    {
        match world_state.find_session(&session_id) {
            Some(i) => {
                let ghost prev = world_state.sessions@;
                let mut entry = world_state.sessions.remove(i);
                let known = entry.session.add_update(gamer_id, update);
                let ghost e2 = entry@;
                world_state.sessions.insert(i, entry);
                proof {
                    assert(world_state.sessions@ =~= prev.update(
                        i as int,
                        world_state.sessions@[i as int],
                    ));
                    assert(world_state@ =~= world_update(old(world_state)@, i as int, e2.session));
                    lemma_world_update_wf(old(world_state)@, i as int, e2.session);
                }
                if known {
                    Response::Okay
                } else {
                    Response::Error
                }
            },
            None => Response::Error,
        }
    }

    /// Answers every joined gamer of the named session with their most recent
    /// submitted update; `Error` against an unknown session.
    pub fn process_get_previous_round_updates(
        world_state: &WorldState,
        session_id: SessionIdType,
    ) -> (r: Response)
        requires
            world_wf(world_state@),
        ensures
            previous_round_updates_outcome(world_state@, session_id@, r@),
    {
        match world_state.find_session(&session_id) {
            Some(i) => Response::OkWithPreviousRoundUpdates(
                world_state.sessions[i].session.latest_updates(),
            ),
            None => Response::Error,
        }
    }

    /// Delivers a message within the named session; `Error` against an
    /// unknown session or a point-to-point message to an unknown gamer.
    pub fn process_send_message(
        world_state: &mut WorldState,
        session_id: SessionIdType,
        message: crate::protocol::Message,
    ) -> (r: Response)
        requires
            world_wf(old(world_state)@),
        ensures
            world_wf(final(world_state)@),
            send_message_outcome(
                old(world_state)@,
                session_id@,
                message@,
                final(world_state)@,
                r@,
            ),
    {
        match world_state.find_session(&session_id) {
            Some(i) => {
                let ghost prev = world_state.sessions@;
                let mut entry = world_state.sessions.remove(i);
                let allowed = entry.session.save_message(message);
                let ghost e2 = entry@;
                world_state.sessions.insert(i, entry);
                proof {
                    assert(world_state.sessions@ =~= prev.update(
                        i as int,
                        world_state.sessions@[i as int],
                    ));
                    assert(world_state@ =~= world_update(old(world_state)@, i as int, e2.session));
                    lemma_world_update_wf(old(world_state)@, i as int, e2.session);
                }
                if allowed {
                    Response::Okay
                } else {
                    Response::Error
                }
            },
            None => Response::Error,
        }
    }

    /// Hands `gamer_id` its entire pending mailbox in the named session and
    /// leaves the mailbox empty; `Error` against an unknown session or an
    /// unknown gamer.
    pub fn process_fetch_all_messages(
        world_state: &mut WorldState,
        session_id: SessionIdType,
        gamer_id: GamerIdType,
    ) -> (r: Response)
        requires
            world_wf(old(world_state)@),
        ensures
            world_wf(final(world_state)@),
            fetch_all_messages_outcome(
                old(world_state)@,
                session_id@,
                gamer_id@,
                final(world_state)@,
                r@,
            ),
    {
        match world_state.find_session(&session_id) {
            Some(i) => {
                let ghost prev = world_state.sessions@;
                let mut entry = world_state.sessions.remove(i);
                let popped = entry.session.pop_gamer_messages(gamer_id);
                let ghost e2 = entry@;
                world_state.sessions.insert(i, entry);
                proof {
                    assert(world_state.sessions@ =~= prev.update(
                        i as int,
                        world_state.sessions@[i as int],
                    ));
                    assert(world_state@ =~= world_update(old(world_state)@, i as int, e2.session));
                    lemma_world_update_wf(old(world_state)@, i as int, e2.session);
                }
                match popped {
                    Some(messages) => Response::OkWithMessages(messages),
                    None => Response::Error,
                }
            },
            None => Response::Error,
        }
    }

    /// Advances the turn of the named session; `Error` against an unknown
    /// session. A registered session always has a participant, so the turn
    /// index always has somewhere to go.
    pub fn process_next_gamer(
        world_state: &mut WorldState,
        session_id: SessionIdType,
    ) -> (r: Response)
        requires
            world_wf(old(world_state)@),
        ensures
            world_wf(final(world_state)@),
            next_gamer_outcome(old(world_state)@, session_id@, final(world_state)@, r@),
    {
        match world_state.find_session(&session_id) {
            Some(i) => {
                let ghost prev = world_state.sessions@;
                let mut entry = world_state.sessions.remove(i);
                entry.session.next_gamer();
                let ghost e2 = entry@;
                world_state.sessions.insert(i, entry);
                proof {
                    assert(world_state.sessions@ =~= prev.update(
                        i as int,
                        world_state.sessions@[i as int],
                    ));
                    assert(world_state@ =~= world_update(old(world_state)@, i as int, e2.session));
                    lemma_world_update_wf(old(world_state)@, i as int, e2.session);
                }
                Response::Okay
            },
            None => Response::Error,
        }
    }

    /// Applies one decoded operation to the registry and produces the
    /// response to answer with.
    pub fn process(world_state: &mut WorldState, operation: Operation) -> (r: Response)
        requires
            world_wf(old(world_state)@),
        ensures
            world_wf(final(world_state)@),
            dispatch_outcome(old(world_state)@, operation@, final(world_state)@, r@),
    {
        match operation {
            Operation::JoinSession(session_id, gamer_id) => MGNServer::process_join_session(
                world_state,
                session_id,
                gamer_id,
            ),
            Operation::ResetSession(session_id) => MGNServer::process_reset_session(
                world_state,
                session_id,
            ),
            Operation::StartSession(session_id) => MGNServer::process_start_session(
                world_state,
                session_id,
            ),
            Operation::EndSession(session_id) => MGNServer::process_end_session(
                world_state,
                session_id,
            ),
            Operation::IsGamerTurn(session_id, gamer_id) => MGNServer::process_is_gamer_turn(
                world_state,
                session_id,
                gamer_id,
            ),
            Operation::NextGamer(session_id) => MGNServer::process_next_gamer(
                world_state,
                session_id,
            ),
            Operation::IsGameOn(session_id) => MGNServer::process_is_game_on(
                world_state,
                session_id,
            ),
            Operation::SendUpdate(session_id, gamer_id, update) => MGNServer::process_send_update(
                world_state,
                session_id,
                gamer_id,
                update,
            ),
            Operation::GetPreviousRoundUpdates(session_id) => {
                MGNServer::process_get_previous_round_updates(world_state, session_id)
            },
            Operation::SendMessage(session_id, message) => MGNServer::process_send_message(
                world_state,
                session_id,
                message,
            ),
            Operation::FetchAllMessages(session_id, gamer_id) => {
                MGNServer::process_fetch_all_messages(world_state, session_id, gamer_id)
            },
        }
    }
}

} // verus!
