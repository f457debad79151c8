//! One game session: participants in join order, the turn/state machine over
//! them, and per-participant round-update histories and message mailboxes.
//!
//! The session's mathematical value is a [`SessionView`]; every operation's
//! contract says exactly which [`SessionView`] comes out of which, through the
//! pure step functions defined alongside the view.

use vstd::prelude::*;

use crate::protocol::{
    blobs_view, clone_bytes, msgs_view, AddressView, GamerIdType, Message, MessageAddress,
    MessageView,
};

verus! {

/// Lifecycle of one session: gathering participants, playing, finished.
#[derive(Debug, Clone, Copy, PartialEq, Eq, Structural)]
pub enum GameState {
    Join,
    Game,
    Over,
}

/// Per-participant store: the append-only history of submitted round updates
/// and the mailbox of messages awaiting delivery.
#[derive(Debug)]
pub struct UserState {
    pub updates: Vec<Vec<u8>>,
    pub awaiting_messages: Vec<Message>,
}

/// Mathematical value of a [`UserState`].
#[verifier::ext_equal]
pub struct UserStateView {
    pub updates: Seq<Seq<u8>>,
    pub mailbox: Seq<MessageView>,
}

impl UserStateView {
    /// The store a participant begins with: nothing submitted, nothing pending.
    pub open spec fn empty() -> UserStateView {
        UserStateView { updates: Seq::empty(), mailbox: Seq::empty() }
    }
}

impl View for UserState {
    type V = UserStateView;

    open spec fn view(&self) -> UserStateView {
        UserStateView {
            updates: blobs_view(self.updates@),
            mailbox: msgs_view(self.awaiting_messages@),
        }
    }
}

impl UserState {
    /// A fresh store with no updates and an empty mailbox.
    pub fn new() -> (s: Self)
        ensures
            s@ == UserStateView::empty(),
    {
        let s = UserState { updates: Vec::new(), awaiting_messages: Vec::new() };
        proof {
            assert(s@.updates =~= Seq::<Seq<u8>>::empty());
            assert(s@.mailbox =~= Seq::<MessageView>::empty());
            assert(s@ =~= UserStateView::empty());
        }
        s
    }

    /// Appends one submitted update to the history; the mailbox is untouched.
    pub fn add_update(&mut self, update: Vec<u8>)
        ensures
            final(self)@.updates == old(self)@.updates.push(update@),
            final(self)@.mailbox == old(self)@.mailbox,
    {
        let ghost pre = self@.updates;
        self.updates.push(update);
        proof {
            assert(self@.updates =~= pre.push(update@));
        }
    }

    /// Clears the update history; pending messages are untouched.
    pub fn reset(&mut self)
        ensures
            final(self)@.updates == Seq::<Seq<u8>>::empty(),
            final(self)@.mailbox == old(self)@.mailbox,
    {
        self.updates.clear();
        proof {
            assert(self@.updates =~= Seq::<Seq<u8>>::empty());
        }
    }
}

/// One participant of a session: identifier plus the stored per-participant
/// state. The position of the entry in the session's sequence is the
/// participant's place in the turn order.
#[derive(Debug)]
pub struct UserEntry {
    pub gamer_id: GamerIdType,
    pub user_state: UserState,
}

/// Mathematical value of a [`UserEntry`].
#[verifier::ext_equal]
pub struct GamerView {
    pub gamer_id: Seq<char>,
    pub user_state: UserStateView,
}

impl View for UserEntry {
    type V = GamerView;

    open spec fn view(&self) -> GamerView {
        GamerView { gamer_id: self.gamer_id@, user_state: self.user_state@ }
    }
}

/// Mathematical value of a sequence of participants.
pub open spec fn gamers_view(v: Seq<UserEntry>) -> Seq<GamerView> {
    v.map_values(|e: UserEntry| e@)
}

/// Mathematical value of a [`GameSession`]: the participants in join order,
/// the lifecycle state, and the index of the participant whose turn it is.
#[verifier::ext_equal]
pub struct SessionView {
    pub gamers: Seq<GamerView>,
    pub state: GameState,
    pub current: int,
}

impl SessionView {
    /// The session a first join creates: no participants, gathering, turn index zero.
    pub open spec fn init() -> SessionView {
        SessionView { gamers: Seq::empty(), state: GameState::Join, current: 0 }
    }

    /// Whether `id` has joined this session.
    pub open spec fn has_gamer(self, id: Seq<char>) -> bool {
        exists|i: int| 0 <= i < self.gamers.len() && self.gamers[i].gamer_id == id
    }

    /// The position of `id` in the turn order; meaningful only when
    /// `has_gamer(id)` holds (and then unique, by well-formedness).
    pub open spec fn gamer_index(self, id: Seq<char>) -> int {
        choose|i: int| 0 <= i < self.gamers.len() && self.gamers[i].gamer_id == id
    }

    /// How many times `id` occurs among the participants.
    pub open spec fn count_of(self, id: Seq<char>) -> nat {
        count_ids(self.gamers, id)
    }

    /// Well-formedness: no participant appears twice, and the turn index is a
    /// valid position (zero while nobody has joined).
    pub open spec fn wf(self) -> bool {
        &&& forall|i: int, j: int|
            0 <= i < j < self.gamers.len() ==> self.gamers[i].gamer_id != self.gamers[j].gamer_id
        &&& (self.gamers.len() == 0 ==> self.current == 0)
        &&& (self.gamers.len() > 0 ==> 0 <= self.current < self.gamers.len())
    }

    /// What join leaves behind: a no-op for a known participant, otherwise the
    /// newcomer appended with an empty store, everything else untouched.
    pub open spec fn join_step(self, id: Seq<char>) -> SessionView {
        if self.has_gamer(id) {
            self
        } else {
            SessionView {
                gamers: self.gamers.push(GamerView { gamer_id: id, user_state: UserStateView::empty() }),
                ..self
            }
        }
    }

    /// Start moves a gathering session into play and nothing else.
    pub open spec fn start_allowed(self) -> bool {
        self.state is Join
    }

    /// What start leaves behind.
    pub open spec fn start_step(self) -> SessionView {
        if self.start_allowed() {
            SessionView { state: GameState::Game, ..self }
        } else {
            self
        }
    }

    /// End moves a playing session to finished and nothing else.
    pub open spec fn end_allowed(self) -> bool {
        self.state is Game
    }

    /// What end leaves behind.
    pub open spec fn end_step(self) -> SessionView {
        if self.end_allowed() {
            SessionView { state: GameState::Over, ..self }
        } else {
            self
        }
    }

    /// What reset leaves behind: back to gathering, turn index zero, every
    /// update history cleared. Participants, their order and their pending
    /// mailboxes are all kept.
    pub open spec fn reset_step(self) -> SessionView {
        SessionView {
            gamers: self.gamers.map_values(
                |g: GamerView|
                    GamerView {
                        gamer_id: g.gamer_id,
                        user_state: UserStateView {
                            updates: Seq::empty(),
                            mailbox: g.user_state.mailbox,
                        },
                    },
            ),
            state: GameState::Join,
            current: 0,
        }
    }

    /// What advancing the turn leaves behind: the index moves one place and
    /// wraps around. Meaningful only with at least one participant.
    pub open spec fn next_step(self) -> SessionView {
        SessionView { current: (self.current + 1) % (self.gamers.len() as int), ..self }
    }

    /// Whether it is `id`'s turn: the session must be in play and `id` must
    /// occupy exactly the current position of the turn order.
    pub open spec fn is_gamer_turn_spec(self, id: Seq<char>) -> bool {
        &&& self.state is Game
        &&& 0 <= self.current < self.gamers.len()
        &&& self.gamers[self.current].gamer_id == id
    }

    /// What recording a round update leaves behind: appended to the one
    /// submitting participant's history, a no-op for an unknown submitter.
    pub open spec fn add_update_step(self, id: Seq<char>, update: Seq<u8>) -> SessionView {
        if self.has_gamer(id) {
            let i = self.gamer_index(id);
            let g = self.gamers[i];
            SessionView {
                gamers: self.gamers.update(
                    i,
                    GamerView {
                        gamer_id: g.gamer_id,
                        user_state: UserStateView {
                            updates: g.user_state.updates.push(update),
                            mailbox: g.user_state.mailbox,
                        },
                    },
                ),
                ..self
            }
        } else {
            self
        }
    }

    /// Each participant's most recent submitted update, in join order; absent
    /// for a participant who has submitted nothing.
    pub open spec fn latest_updates_spec(self) -> Seq<(Seq<char>, Option<Seq<u8>>)> {
        self.gamers.map_values(
            |g: GamerView|
                (
                    g.gamer_id,
                    if g.user_state.updates.len() == 0 {
                        None
                    } else {
                        Some(g.user_state.updates.last())
                    },
                ),
        )
    }

    /// Whether delivering `m` can succeed: a broadcast always can, a
    /// point-to-point message only to a known participant.
    pub open spec fn save_allowed(self, m: MessageView) -> bool {
        match m.to {
            AddressView::All => true,
            AddressView::One(target) => self.has_gamer(target),
        }
    }

    /// What delivering `m` leaves behind: appended to every other
    /// participant's mailbox for a broadcast, to exactly the addressee's for a
    /// point-to-point message; a no-op when delivery is not allowed.
    pub open spec fn save_message_step(self, m: MessageView) -> SessionView {
        match m.to {
            AddressView::All => SessionView {
                gamers: self.gamers.map_values(|g: GamerView| deliver_to(g, m)),
                ..self
            },
            AddressView::One(target) => if self.has_gamer(target) {
                let i = self.gamer_index(target);
                SessionView {
                    gamers: self.gamers.update(i, with_mail(self.gamers[i], m)),
                    ..self
                }
            } else {
                self
            },
        }
    }

    /// What a mailbox fetch returns: the addressed participant's entire
    /// pending mailbox, oldest first.
    pub open spec fn pop_result(self, id: Seq<char>) -> Seq<MessageView> {
        self.gamers[self.gamer_index(id)].user_state.mailbox
    }

    /// What a mailbox fetch leaves behind: the addressed participant's mailbox
    /// emptied, a no-op for an unknown participant.
    pub open spec fn pop_step(self, id: Seq<char>) -> SessionView {
        if self.has_gamer(id) {
            let i = self.gamer_index(id);
            let g = self.gamers[i];
            SessionView {
                gamers: self.gamers.update(
                    i,
                    GamerView {
                        gamer_id: g.gamer_id,
                        user_state: UserStateView {
                            updates: g.user_state.updates,
                            mailbox: Seq::empty(),
                        },
                    },
                ),
                ..self
            }
        } else {
            self
        }
    }
}

/// `g` with `m` appended to its mailbox.
pub open spec fn with_mail(g: GamerView, m: MessageView) -> GamerView {
    GamerView {
        gamer_id: g.gamer_id,
        user_state: UserStateView {
            updates: g.user_state.updates,
            mailbox: g.user_state.mailbox.push(m),
        },
    }
}

/// What a broadcast does to one participant: the sender keeps its mailbox,
/// everyone else receives `m`.
pub open spec fn deliver_to(g: GamerView, m: MessageView) -> GamerView {
    if g.gamer_id == m.from {
        g
    } else {
        with_mail(g, m)
    }
}

/// How many entries of `gs` carry the identifier `id`.
pub open spec fn count_ids(gs: Seq<GamerView>, id: Seq<char>) -> nat
    decreases gs.len(),
{
    if gs.len() == 0 {
        0
    } else {
        count_ids(gs.drop_last(), id) + if gs.last().gamer_id == id {
            1nat
        } else {
            0nat
        }
    }
}

/// The turn/state machine of one session.
#[derive(Debug)]
pub struct GameSession {
    pub user_states: Vec<UserEntry>,
    pub current_gamer_index: usize,
    pub state: GameState,
}

impl View for GameSession {
    type V = SessionView;

    open spec fn view(&self) -> SessionView {
        SessionView {
            gamers: gamers_view(self.user_states@),
            state: self.state,
            current: self.current_gamer_index as int,
        }
    }
}

impl GameSession {
    /// An empty session, gathering participants.
    pub fn new() -> (s: Self)
        ensures
            s@ == SessionView::init(),
            s@.wf(),
    {
        let s = GameSession {
            user_states: Vec::new(),
            current_gamer_index: 0,
            state: GameState::Join,
        };
        proof {
            assert(s@.gamers =~= Seq::<GamerView>::empty());
            assert(s@ =~= SessionView::init());
        }
        s
    }

    /// The position of `gamer_id` in the turn order, if it has joined.
    fn find_gamer(&self, gamer_id: &GamerIdType) -> (r: Option<usize>)
        requires
            self@.wf(),
        ensures
            match r {
                Some(i) => {
                    &&& 0 <= i < self@.gamers.len()
                    &&& self@.gamers[i as int].gamer_id == gamer_id@
                    &&& self@.has_gamer(gamer_id@)
                    &&& i == self@.gamer_index(gamer_id@)
                },
                None => !self@.has_gamer(gamer_id@),
            },
    {
        let n = self.user_states.len();
        let mut i: usize = 0;
        while i < n
            invariant
                n == self@.gamers.len(),
                0 <= i <= n,
                self@.wf(),
                forall|k: int| 0 <= k < i ==> self@.gamers[k].gamer_id != gamer_id@,
            decreases n - i,
        {
            if self.user_states[i].gamer_id == *gamer_id {
                proof {
                    lemma_index_unique(self@, gamer_id@, i as int);
                }
                return Some(i);
            }
            i += 1;
        }
        None
    }

    /// True exactly while the session is in play.
    pub fn is_game_on(&self) -> (r: bool)
        ensures
            r == (self@.state is Game),
    {
        self.state == GameState::Game
    }

    /// Moves a gathering session into play; reports whether the transition
    /// was allowed, and changes nothing when it was not.
    pub fn start(&mut self) -> (r: bool)
        requires
            old(self)@.wf(),
        ensures
            r == old(self)@.start_allowed(),
            final(self)@ == old(self)@.start_step(),
            final(self)@.wf(),
    {
        if self.state == GameState::Join {
            self.state = GameState::Game;
            proof {
                assert(self@ =~= old(self)@.start_step());
            }
            true
        } else {
            false
        }
    }

    /// Moves a playing session to finished; reports whether the transition
    /// was allowed, and changes nothing when it was not.
    pub fn end(&mut self) -> (r: bool)
        requires
            old(self)@.wf(),
        ensures
            r == old(self)@.end_allowed(),
            final(self)@ == old(self)@.end_step(),
            final(self)@.wf(),
    {
        if self.state == GameState::Game {
            self.state = GameState::Over;
            proof {
                assert(self@ =~= old(self)@.end_step());
            }
            true
        } else {
            false
        }
    }

    /// Hands the turn to the next participant in join order, wrapping around.
    pub fn next_gamer(&mut self)
        requires
            old(self)@.wf(),
            old(self)@.gamers.len() > 0,
        ensures
            final(self)@ == old(self)@.next_step(),
            final(self)@.wf(),
    {
        let n = self.user_states.len();
        self.current_gamer_index = (self.current_gamer_index + 1) % n;
        proof {
            assert(self@ =~= old(self)@.next_step());
        }
    }

    /// Registers `gamer_id` at the end of the turn order with an empty store;
    /// a no-op when it has already joined.
    pub fn join(&mut self, gamer_id: GamerIdType)
        requires
            old(self)@.wf(),
        ensures
            final(self)@ == old(self)@.join_step(gamer_id@),
            final(self)@.wf(),
    {
        let ghost gid = gamer_id@;
        if self.find_gamer(&gamer_id).is_some() {
            return;
        }
        self.user_states.push(UserEntry { gamer_id, user_state: UserState::new() });
        proof {
            let entry_view = GamerView { gamer_id: gid, user_state: UserStateView::empty() };
            assert(self@.gamers =~= old(self)@.gamers.push(entry_view));
            assert(self@ =~= old(self)@.join_step(gid));
            assert forall|i: int, j: int|
                0 <= i < j < self@.gamers.len() implies self@.gamers[i].gamer_id
                != self@.gamers[j].gamer_id by {
                if j < old(self)@.gamers.len() {
                    assert(old(self)@.gamers[i].gamer_id != old(self)@.gamers[j].gamer_id);
                } else {
                    assert(!old(self)@.has_gamer(gid));
                }
            }
        }
    }

    /// True exactly when the session is in play and `gamer_id` holds the turn.
    pub fn is_gamer_turn(&self, gamer_id: GamerIdType) -> (r: bool)
        requires
            self@.wf(),
        ensures
            r == self@.is_gamer_turn_spec(gamer_id@),
    {
        if !(self.state == GameState::Game) {
            return false;
        }
        match self.find_gamer(&gamer_id) {
            Some(i) => {
                let r = i == self.current_gamer_index;
                proof {
                    if !r && self@.is_gamer_turn_spec(gamer_id@) {
                        lemma_index_unique(self@, gamer_id@, self@.current);
                    }
                }
                r
            },
            None => {
                proof {
                    if self@.is_gamer_turn_spec(gamer_id@) {
                        assert(0 <= self@.current < self@.gamers.len()
                            && self@.gamers[self@.current].gamer_id == gamer_id@);
                    }
                }
                false
            },
        }
    }

    /// Rewinds the session to gathering: turn index zero, every update
    /// history cleared, participants and pending mailboxes kept.
    pub fn reset(&mut self)
        requires
            old(self)@.wf(),
        ensures
            final(self)@ == old(self)@.reset_step(),
            final(self)@.wf(),
    {
        self.state = GameState::Join;
        self.current_gamer_index = 0;
        let n = self.user_states.len();
        let mut i: usize = 0;
        while i < n
            invariant
                n == self.user_states@.len(),
                0 <= i <= n,
                self@.state is Join,
                self@.current == 0,
                self@.gamers.len() == old(self)@.gamers.len(),
                forall|k: int| 0 <= k < i ==> self@.gamers[k] == old(self)@.reset_step().gamers[k],
                forall|k: int| i <= k < n ==> self@.gamers[k] == old(self)@.gamers[k],
            decreases n - i,
        {
            let ghost prev = self.user_states@;
            let mut entry = self.user_states.remove(i);
            entry.user_state.reset();
            let ghost e2 = entry@;
            self.user_states.insert(i, entry);
            proof {
                assert(self.user_states@ =~= prev.update(i as int, prev[i as int]).update(
                    i as int,
                    self.user_states@[i as int],
                ));
                assert(self@.gamers =~= gamers_view(prev).update(i as int, e2));
                assert(self@.gamers[i as int] == old(self)@.reset_step().gamers[i as int]);
            }
            i += 1;
        }
        proof {
            assert(self@.gamers =~= old(self)@.reset_step().gamers);
            assert(self@ =~= old(self)@.reset_step());
        }
    }

    /// Appends a submitted round update to `gamer_id`'s history; reports
    /// whether the submitter is known, and changes nothing when it is not.
    pub fn add_update(&mut self, gamer_id: GamerIdType, update: Vec<u8>) -> (r: bool)
        requires
            old(self)@.wf(),
        ensures
            r == old(self)@.has_gamer(gamer_id@),
            final(self)@ == old(self)@.add_update_step(gamer_id@, update@),
            final(self)@.wf(),
    {
        let ghost gid = gamer_id@;
        let ghost u = update@;
        match self.find_gamer(&gamer_id) {
            Some(i) => {
                let ghost prev = self.user_states@;
                let mut entry = self.user_states.remove(i);
                entry.user_state.add_update(update);
                let ghost e2 = entry@;
                self.user_states.insert(i, entry);
                proof {
                    assert(self.user_states@ =~= prev.update(i as int, self.user_states@[i as int]));
                    assert(self@.gamers =~= gamers_view(prev).update(i as int, e2));
                    assert(self@.gamers =~= old(self)@.add_update_step(gid, u).gamers);
                    assert(self@ =~= old(self)@.add_update_step(gid, u));
                }
                true
            },
            None => false,
        }
    }

    /// Each joined participant's most recent submitted update, in join order;
    /// absent for a participant who has submitted nothing.
    pub fn latest_updates(&self) -> (r: Vec<(GamerIdType, Option<Vec<u8>>)>)
        ensures
            crate::protocol::updates_view(r@) == self@.latest_updates_spec(),
    {
        let mut r: Vec<(GamerIdType, Option<Vec<u8>>)> = Vec::new();
        let n = self.user_states.len();
        let mut i: usize = 0;
        while i < n
            invariant
                n == self.user_states@.len(),
                0 <= i <= n,
                r@.len() == i,
                forall|k: int|
                    0 <= k < i ==> crate::protocol::updates_view(r@)[k]
                        == self@.latest_updates_spec()[k],
            decreases n - i,
        {
            let entry = &self.user_states[i];
            let m = entry.user_state.updates.len();
            let latest: Option<Vec<u8>> = if m == 0 {
                None
            } else {
                Some(clone_bytes(&entry.user_state.updates[m - 1]))
            };
            r.push((entry.gamer_id.clone(), latest));
            i += 1;
        }
        proof {
            assert(crate::protocol::updates_view(r@) =~= self@.latest_updates_spec());
        }
        r
    }

    /// Delivers `message`: to every other participant's mailbox for a
    /// broadcast, to exactly the addressee's for a point-to-point message.
    /// Reports whether delivery was allowed, and changes nothing when it was
    /// not (a point-to-point message to an unknown participant).
    pub fn save_message(&mut self, message: Message) -> (r: bool)
        requires
            old(self)@.wf(),
        ensures
            r == old(self)@.save_allowed(message@),
            final(self)@ == old(self)@.save_message_step(message@),
            final(self)@.wf(),
    {
        let ghost m = message@;
        match &message.to {
            MessageAddress::All => {
                let n = self.user_states.len();
                let mut i: usize = 0;
                while i < n
                    invariant
                        n == self.user_states@.len(),
                        0 <= i <= n,
                        message@ == m,
                        m.to is All,
                        self@.state == old(self)@.state,
                        self@.current == old(self)@.current,
                        self@.gamers.len() == old(self)@.gamers.len(),
                        forall|k: int|
                            0 <= k < i ==> self@.gamers[k] == deliver_to(old(self)@.gamers[k], m),
                        forall|k: int| i <= k < n ==> self@.gamers[k] == old(self)@.gamers[k],
                    decreases n - i,
                {
                    if !(self.user_states[i].gamer_id == message.from) {
                        let ghost prev = self.user_states@;
                        let mut entry = self.user_states.remove(i);
                        let mcopy = message.clone();
                        entry.user_state.awaiting_messages.push(mcopy);
                        let ghost e2 = entry@;
                        self.user_states.insert(i, entry);
                        proof {
                            assert(e2.user_state.mailbox =~= prev[i as int]@.user_state.mailbox.push(
                                m,
                            ));
                            assert(self.user_states@ =~= prev.update(
                                i as int,
                                self.user_states@[i as int],
                            ));
                            assert(self@.gamers =~= gamers_view(prev).update(i as int, e2));
                            assert(self@.gamers[i as int] == deliver_to(
                                old(self)@.gamers[i as int],
                                m,
                            ));
                        }
                    }
                    i += 1;
                }
                proof {
                    assert(self@.gamers =~= old(self)@.gamers.map_values(
                        |g: GamerView| deliver_to(g, m),
                    ));
                    assert(self@ =~= old(self)@.save_message_step(m));
                }
                true
            },
            MessageAddress::One(target) => {
                match self.find_gamer(target) {
                    Some(i) => {
                        let ghost prev = self.user_states@;
                        let mut entry = self.user_states.remove(i);
                        let mcopy = message.clone();
                        entry.user_state.awaiting_messages.push(mcopy);
                        let ghost e2 = entry@;
                        self.user_states.insert(i, entry);
                        proof {
                            assert(e2.user_state.mailbox =~= prev[i as int]@.user_state.mailbox.push(
                                m,
                            ));
                            assert(e2 == with_mail(old(self)@.gamers[i as int], m));
                            assert(self.user_states@ =~= prev.update(
                                i as int,
                                self.user_states@[i as int],
                            ));
                            assert(self@.gamers =~= gamers_view(prev).update(i as int, e2));
                            assert(self@ =~= old(self)@.save_message_step(m));
                        }
                        true
                    },
                    None => false,
                }
            },
        }
    }

    /// Hands `gamer_id` its entire pending mailbox, oldest first, and leaves
    /// the mailbox empty; refuses an unknown participant and changes nothing.
    pub fn pop_gamer_messages(&mut self, gamer_id: GamerIdType) -> (r: Option<Vec<Message>>)
        requires
            old(self)@.wf(),
        ensures
            final(self)@ == old(self)@.pop_step(gamer_id@),
            final(self)@.wf(),
            match r {
                Some(msgs) => old(self)@.has_gamer(gamer_id@) && msgs_view(msgs@) == old(
                    self,
                )@.pop_result(gamer_id@),
                None => !old(self)@.has_gamer(gamer_id@),
            },
    {
        let ghost gid = gamer_id@;
        match self.find_gamer(&gamer_id) {
            Some(i) => {
                let ghost prev = self.user_states@;
                let mut entry = self.user_states.remove(i);
                let mut out: Vec<Message> = Vec::new();
                core::mem::swap(&mut out, &mut entry.user_state.awaiting_messages);
                let ghost e2 = entry@;
                self.user_states.insert(i, entry);
                proof {
                    assert(e2.user_state.mailbox =~= Seq::<MessageView>::empty());
                    assert(self.user_states@ =~= prev.update(i as int, self.user_states@[i as int]));
                    assert(self@.gamers =~= gamers_view(prev).update(i as int, e2));
                    assert(self@ =~= old(self)@.pop_step(gid));
                }
                Some(out)
            },
            None => None,
        }
    }
}

/// Under well-formedness, an index holding `id` is the only one, so it is the
/// index that `gamer_index` denotes.
pub proof fn lemma_index_unique(s: SessionView, id: Seq<char>, i: int)
    requires
        s.wf(),
        0 <= i < s.gamers.len(),
        s.gamers[i].gamer_id == id,
    ensures
        s.has_gamer(id),
        s.gamer_index(id) == i,
{
    assert(s.has_gamer(id));
    let j = s.gamer_index(id);
    if i != j {
        if i < j {
            assert(s.gamers[i].gamer_id != s.gamers[j].gamer_id);
        } else {
            assert(s.gamers[j].gamer_id != s.gamers[i].gamer_id);
        }
    }
}

} // verus!
