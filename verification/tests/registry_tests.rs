use minignet::protocol::{Message, MessageAddress, Operation, Response};
use minignet::registry::{MGNServer, WorldState};

fn bytes(s: &str) -> Vec<u8> {
    s.as_bytes().to_vec()
}

#[test]
fn start_missing_session_errors_and_registry_unchanged() {
    let mut world = WorldState::new();
    let r = MGNServer::process_start_session(&mut world, "missing-session".to_owned());
    assert_eq!(r, Response::Error);
    assert!(world.sessions.is_empty());
}

#[test]
fn every_operation_on_missing_session_errors() {
    let mut world = WorldState::new();
    let sid = || "nowhere".to_owned();
    let gid = || "alice".to_owned();
    assert_eq!(MGNServer::process_reset_session(&mut world, sid()), Response::Error);
    assert_eq!(MGNServer::process_start_session(&mut world, sid()), Response::Error);
    assert_eq!(MGNServer::process_end_session(&mut world, sid()), Response::Error);
    assert_eq!(MGNServer::process_is_game_on(&world, sid()), Response::Error);
    assert_eq!(MGNServer::process_is_gamer_turn(&world, sid(), gid()), Response::Error);
    assert_eq!(
        MGNServer::process_send_update(&mut world, sid(), gid(), bytes("u")),
        Response::Error
    );
    assert_eq!(
        MGNServer::process_get_previous_round_updates(&world, sid()),
        Response::Error
    );
    assert_eq!(
        MGNServer::process_send_message(
            &mut world,
            sid(),
            Message { from: gid(), to: MessageAddress::All, payload: bytes("p") },
        ),
        Response::Error
    );
    assert_eq!(
        MGNServer::process_fetch_all_messages(&mut world, sid(), gid()),
        Response::Error
    );
    assert_eq!(MGNServer::process_next_gamer(&mut world, sid()), Response::Error);
    assert!(world.sessions.is_empty());
}

#[test]
fn join_then_start_gives_turns_in_join_order() {
    let mut world = WorldState::new();
    let s1 = || "s1".to_owned();
    assert_eq!(
        MGNServer::process_join_session(&mut world, s1(), "alice".to_owned()),
        Response::Okay
    );
    assert_eq!(
        MGNServer::process_join_session(&mut world, s1(), "bob".to_owned()),
        Response::Okay
    );
    assert_eq!(MGNServer::process_start_session(&mut world, s1()), Response::Okay);
    assert_eq!(MGNServer::process_is_game_on(&world, s1()), Response::OkWithBool(true));
    assert_eq!(
        MGNServer::process_is_gamer_turn(&world, s1(), "alice".to_owned()),
        Response::OkWithBool(true)
    );
    assert_eq!(
        MGNServer::process_is_gamer_turn(&world, s1(), "bob".to_owned()),
        Response::OkWithBool(false)
    );
    assert_eq!(MGNServer::process_next_gamer(&mut world, s1()), Response::Okay);
    assert_eq!(
        MGNServer::process_is_gamer_turn(&world, s1(), "bob".to_owned()),
        Response::OkWithBool(true)
    );
}

#[test]
fn previous_round_updates_before_any_send_are_absent() {
    let mut world = WorldState::new();
    let s1 = || "s1".to_owned();
    MGNServer::process_join_session(&mut world, s1(), "alice".to_owned());
    MGNServer::process_join_session(&mut world, s1(), "bob".to_owned());
    let r = MGNServer::process_get_previous_round_updates(&world, s1());
    assert_eq!(
        r,
        Response::OkWithPreviousRoundUpdates(vec![
            ("alice".to_owned(), None),
            ("bob".to_owned(), None),
        ])
    );
}

#[test]
fn send_update_then_latest_updates_round_trip() {
    let mut world = WorldState::new();
    let s1 = || "s1".to_owned();
    MGNServer::process_join_session(&mut world, s1(), "alice".to_owned());
    MGNServer::process_join_session(&mut world, s1(), "bob".to_owned());
    assert_eq!(
        MGNServer::process_send_update(&mut world, s1(), "alice".to_owned(), bytes("v1")),
        Response::Okay
    );
    assert_eq!(
        MGNServer::process_send_update(&mut world, s1(), "alice".to_owned(), bytes("v2")),
        Response::Okay
    );
    assert_eq!(
        MGNServer::process_send_update(&mut world, s1(), "mallory".to_owned(), bytes("x")),
        Response::Error
    );
    assert_eq!(
        MGNServer::process_get_previous_round_updates(&world, s1()),
        Response::OkWithPreviousRoundUpdates(vec![
            ("alice".to_owned(), Some(bytes("v2"))),
            ("bob".to_owned(), None),
        ])
    );
}

#[test]
fn sessions_are_independent() {
    let mut world = WorldState::new();
    MGNServer::process_join_session(&mut world, "s1".to_owned(), "alice".to_owned());
    MGNServer::process_join_session(&mut world, "s2".to_owned(), "bob".to_owned());
    assert_eq!(
        MGNServer::process_start_session(&mut world, "s1".to_owned()),
        Response::Okay
    );
    assert_eq!(MGNServer::process_is_game_on(&world, "s1".to_owned()), Response::OkWithBool(true));
    assert_eq!(MGNServer::process_is_game_on(&world, "s2".to_owned()), Response::OkWithBool(false));
}

#[test]
fn invalid_transition_answers_error() {
    let mut world = WorldState::new();
    MGNServer::process_join_session(&mut world, "s1".to_owned(), "alice".to_owned());
    assert_eq!(MGNServer::process_end_session(&mut world, "s1".to_owned()), Response::Error);
    assert_eq!(MGNServer::process_start_session(&mut world, "s1".to_owned()), Response::Okay);
    assert_eq!(MGNServer::process_start_session(&mut world, "s1".to_owned()), Response::Error);
    assert_eq!(MGNServer::process_end_session(&mut world, "s1".to_owned()), Response::Okay);
    assert_eq!(MGNServer::process_end_session(&mut world, "s1".to_owned()), Response::Error);
}

#[test]
fn dispatch_matches_the_operation() {
    let mut world = WorldState::new();
    let s1 = || "s1".to_owned();
    assert_eq!(
        MGNServer::process(&mut world, Operation::JoinSession(s1(), "alice".to_owned())),
        Response::Okay
    );
    assert_eq!(
        MGNServer::process(&mut world, Operation::JoinSession(s1(), "bob".to_owned())),
        Response::Okay
    );
    assert_eq!(
        MGNServer::process(&mut world, Operation::StartSession(s1())),
        Response::Okay
    );
    assert_eq!(
        MGNServer::process(&mut world, Operation::IsGameOn(s1())),
        Response::OkWithBool(true)
    );
    assert_eq!(
        MGNServer::process(
            &mut world,
            Operation::SendMessage(
                s1(),
                Message {
                    from: "alice".to_owned(),
                    to: MessageAddress::All,
                    payload: bytes("shot"),
                },
            ),
        ),
        Response::Okay
    );
    let fetched = MGNServer::process(
        &mut world,
        Operation::FetchAllMessages(s1(), "bob".to_owned()),
    );
    match fetched {
        Response::OkWithMessages(messages) => {
            assert_eq!(messages.len(), 1);
            assert_eq!(messages[0].from, "alice".to_owned());
            assert_eq!(messages[0].payload, bytes("shot"));
        }
        other => panic!("unexpected response: {:?}", other),
    }
    assert_eq!(
        MGNServer::process(&mut world, Operation::FetchAllMessages(s1(), "bob".to_owned())),
        Response::OkWithMessages(vec![])
    );
    assert_eq!(
        MGNServer::process(&mut world, Operation::NextGamer(s1())),
        Response::Okay
    );
    assert_eq!(
        MGNServer::process(&mut world, Operation::IsGamerTurn(s1(), "bob".to_owned())),
        Response::OkWithBool(true)
    );
    assert_eq!(
        MGNServer::process(&mut world, Operation::ResetSession(s1())),
        Response::Okay
    );
    assert_eq!(
        MGNServer::process(&mut world, Operation::IsGameOn(s1())),
        Response::OkWithBool(false)
    );
    assert_eq!(
        MGNServer::process(&mut world, Operation::GetPreviousRoundUpdates(s1())),
        Response::OkWithPreviousRoundUpdates(vec![
            ("alice".to_owned(), None),
            ("bob".to_owned(), None),
        ])
    );
    assert_eq!(
        MGNServer::process(&mut world, Operation::EndSession("absent".to_owned())),
        Response::Error
    );
}

#[test]
fn join_mid_game_is_accepted() {
    let mut world = WorldState::new();
    let s1 = || "s1".to_owned();
    MGNServer::process_join_session(&mut world, s1(), "alice".to_owned());
    assert_eq!(MGNServer::process_start_session(&mut world, s1()), Response::Okay);
    assert_eq!(
        MGNServer::process_join_session(&mut world, s1(), "late".to_owned()),
        Response::Okay
    );
    assert_eq!(
        MGNServer::process_is_gamer_turn(&world, s1(), "late".to_owned()),
        Response::OkWithBool(false)
    );
    assert_eq!(MGNServer::process_next_gamer(&mut world, s1()), Response::Okay);
    assert_eq!(
        MGNServer::process_is_gamer_turn(&world, s1(), "late".to_owned()),
        Response::OkWithBool(true)
    );
}
