use minignet::protocol::{Message, MessageAddress};
use minignet::session::{GameSession, UserState};

fn bytes(s: &str) -> Vec<u8> {
    s.as_bytes().to_vec()
}

#[test]
fn join_same_gamer_twice_registers_once() {
    let mut session = GameSession::new();
    session.join("alice".to_owned());
    session.join("alice".to_owned());
    session.join("alice".to_owned());
    // Exactly one participant: one row in the latest-updates listing.
    let updates = session.latest_updates();
    assert_eq!(updates.len(), 1);
    assert_eq!(updates[0].0, "alice".to_owned());
}

#[test]
fn rejoin_does_not_disturb_turn_order() {
    let mut session = GameSession::new();
    session.join("alice".to_owned());
    session.join("bob".to_owned());
    let started = session.start();
    assert!(started);
    // A re-join of the first participant must not re-append them.
    session.join("alice".to_owned());
    assert!(session.is_gamer_turn("alice".to_owned()));
    session.next_gamer();
    assert!(session.is_gamer_turn("bob".to_owned()));
    session.next_gamer();
    assert!(session.is_gamer_turn("alice".to_owned()));
}

#[test]
fn no_turn_when_not_in_game() {
    let mut session = GameSession::new();
    session.join("alice".to_owned());
    session.join("bob".to_owned());
    // Still gathering: nobody holds a turn.
    assert!(!session.is_gamer_turn("alice".to_owned()));
    assert!(!session.is_gamer_turn("bob".to_owned()));
    assert!(session.start());
    assert!(session.is_gamer_turn("alice".to_owned()));
    assert!(session.end());
    // Finished: nobody holds a turn, whatever the index says.
    assert!(!session.is_gamer_turn("alice".to_owned()));
    assert!(!session.is_gamer_turn("bob".to_owned()));
}

#[test]
fn unknown_gamer_never_holds_a_turn() {
    let mut session = GameSession::new();
    session.join("alice".to_owned());
    assert!(session.start());
    assert!(!session.is_gamer_turn("mallory".to_owned()));
}

#[test]
fn turn_index_rotates_modulo() {
    let mut session = GameSession::new();
    session.join("a".to_owned());
    session.join("b".to_owned());
    session.join("c".to_owned());
    assert!(session.start());
    let names = ["a", "b", "c"];
    // After k advances the turn sits at position k mod 3.
    for k in 0..10usize {
        assert!(session.is_gamer_turn(names[k % 3].to_owned()));
        session.next_gamer();
    }
}

#[test]
fn empty_session_is_not_playing() {
    let session = GameSession::new();
    assert!(!session.is_game_on());
    assert_eq!(session.latest_updates().len(), 0);
}

#[test]
fn start_outside_gathering_is_refused() {
    let mut session = GameSession::new();
    session.join("alice".to_owned());
    assert!(session.start());
    assert!(!session.start());
    assert!(session.is_game_on());
    assert!(session.end());
    assert!(!session.start());
    assert!(!session.is_game_on());
}

#[test]
fn end_outside_play_is_refused() {
    let mut session = GameSession::new();
    session.join("alice".to_owned());
    assert!(!session.end());
    assert!(session.start());
    assert!(session.end());
    assert!(!session.end());
}

#[test]
fn second_fetch_returns_empty() {
    let mut session = GameSession::new();
    session.join("alice".to_owned());
    session.join("bob".to_owned());
    let delivered = session.save_message(Message {
        from: "alice".to_owned(),
        to: MessageAddress::One("bob".to_owned()),
        payload: bytes("hi"),
    });
    assert!(delivered);
    let first = session.pop_gamer_messages("bob".to_owned()).unwrap();
    assert_eq!(first.len(), 1);
    assert_eq!(first[0].payload, bytes("hi"));
    let second = session.pop_gamer_messages("bob".to_owned()).unwrap();
    assert!(second.is_empty());
}

#[test]
fn fetch_for_unknown_gamer_is_refused() {
    let mut session = GameSession::new();
    session.join("alice".to_owned());
    assert!(session.pop_gamer_messages("mallory".to_owned()).is_none());
}

#[test]
fn broadcast_reaches_all_but_sender() {
    let mut session = GameSession::new();
    session.join("a".to_owned());
    session.join("b".to_owned());
    session.join("c".to_owned());
    let delivered = session.save_message(Message {
        from: "a".to_owned(),
        to: MessageAddress::All,
        payload: bytes("payload"),
    });
    assert!(delivered);
    let for_a = session.pop_gamer_messages("a".to_owned()).unwrap();
    assert!(for_a.is_empty());
    for name in ["b", "c"] {
        let got = session.pop_gamer_messages(name.to_owned()).unwrap();
        assert_eq!(got.len(), 1);
        assert_eq!(got[0].from, "a".to_owned());
        assert_eq!(got[0].payload, bytes("payload"));
    }
}

#[test]
fn direct_message_to_unknown_gamer_is_refused() {
    let mut session = GameSession::new();
    session.join("alice".to_owned());
    let delivered = session.save_message(Message {
        from: "alice".to_owned(),
        to: MessageAddress::One("mallory".to_owned()),
        payload: bytes("x"),
    });
    assert!(!delivered);
    assert!(session.pop_gamer_messages("alice".to_owned()).unwrap().is_empty());
}

#[test]
fn direct_message_to_self_is_delivered() {
    let mut session = GameSession::new();
    session.join("alice".to_owned());
    let delivered = session.save_message(Message {
        from: "alice".to_owned(),
        to: MessageAddress::One("alice".to_owned()),
        payload: bytes("note"),
    });
    assert!(delivered);
    let got = session.pop_gamer_messages("alice".to_owned()).unwrap();
    assert_eq!(got.len(), 1);
    assert_eq!(got[0].payload, bytes("note"));
}

#[test]
fn mailbox_keeps_arrival_order() {
    let mut session = GameSession::new();
    session.join("alice".to_owned());
    session.join("bob".to_owned());
    for p in ["one", "two", "three"] {
        assert!(session.save_message(Message {
            from: "alice".to_owned(),
            to: MessageAddress::One("bob".to_owned()),
            payload: bytes(p),
        }));
    }
    let got = session.pop_gamer_messages("bob".to_owned()).unwrap();
    let payloads: Vec<Vec<u8>> = got.into_iter().map(|m| m.payload).collect();
    assert_eq!(payloads, vec![bytes("one"), bytes("two"), bytes("three")]);
}

#[test]
fn latest_updates_expose_most_recent_only() {
    let mut session = GameSession::new();
    session.join("alice".to_owned());
    session.join("bob".to_owned());
    assert!(session.add_update("alice".to_owned(), bytes("a1")));
    assert!(session.add_update("alice".to_owned(), bytes("a2")));
    let listing = session.latest_updates();
    assert_eq!(
        listing,
        vec![
            ("alice".to_owned(), Some(bytes("a2"))),
            ("bob".to_owned(), None),
        ]
    );
}

#[test]
fn update_for_unknown_gamer_is_refused() {
    let mut session = GameSession::new();
    session.join("alice".to_owned());
    assert!(!session.add_update("mallory".to_owned(), bytes("u")));
    assert_eq!(
        session.latest_updates(),
        vec![("alice".to_owned(), None)]
    );
}

#[test]
fn reset_clears_updates_and_keeps_mailboxes() {
    let mut session = GameSession::new();
    session.join("alice".to_owned());
    session.join("bob".to_owned());
    assert!(session.start());
    assert!(session.add_update("alice".to_owned(), bytes("a1")));
    assert!(session.save_message(Message {
        from: "alice".to_owned(),
        to: MessageAddress::One("bob".to_owned()),
        payload: bytes("kept"),
    }));
    session.next_gamer();
    session.reset();
    // Back to gathering, turn index rewound, histories cleared.
    assert!(!session.is_game_on());
    assert_eq!(
        session.latest_updates(),
        vec![("alice".to_owned(), None), ("bob".to_owned(), None)]
    );
    assert!(session.start());
    assert!(session.is_gamer_turn("alice".to_owned()));
    // Pending messages survive a reset.
    let got = session.pop_gamer_messages("bob".to_owned()).unwrap();
    assert_eq!(got.len(), 1);
    assert_eq!(got[0].payload, bytes("kept"));
}

#[test]
fn user_state_add_and_reset() {
    let mut state = UserState::new();
    state.add_update(bytes("u1"));
    state.add_update(bytes("u2"));
    assert_eq!(state.updates, vec![bytes("u1"), bytes("u2")]);
    state.reset();
    assert!(state.updates.is_empty());
}
