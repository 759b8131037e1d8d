//! The lobby: finding, inviting and gathering players.
use misterdrillerterm::agreement::{BattleConfig, Expected, NetError, PROTOCOL_VERSION};
use misterdrillerterm::discovery::{
    DiscoveryPacket, PacketType, PeerId, INVITE_TIMEOUT_MS, TCP_CONNECT_TIMEOUT_MS,
};
use misterdrillerterm::game::InputAction;
use misterdrillerterm::lobby::{
    names_of_others, read_join_room, DiscoveredPeer, HostedGuest, LobbyOutcome, LobbyPhase, LobbyProgress,
    LobbyRequest, LobbyState, NOTICE_DISPLAY_MS,
};
use misterdrillerterm::messages::{GameMessage, HandshakeResult, PeerAddr, PeerHost, RoomMember};
use misterdrillerterm::settings::Settings;

const LOCALHOST: PeerHost = PeerHost::V4([127, 0, 0, 1]);

/// The settings of a match on a short course.
fn test_config() -> BattleConfig {
    BattleConfig::from_settings(&Settings::default(), 20)
}

fn test_handshake() -> HandshakeResult {
    HandshakeResult {
        opponent_name: "host".to_string(),
        config: test_config(),
        seed: 5,
        ai_seeds: Vec::new(),
    }
}

fn test_guest(name: &str) -> HostedGuest {
    HostedGuest {
        connection: 1,
        name: name.to_string(),
        mesh_addr: PeerAddr { host: LOCALHOST, port: 40000 },
    }
}

/// A lobby, who its player is, and the packets that are on their way to it.
struct Node {
    id: PeerId,
    lobby: LobbyState,
    inbox: Vec<DiscoveryPacket>,
}

fn node(number: u8, name: &str) -> Node {
    Node {
        id: PeerId { bytes: [number; 16] },
        lobby: LobbyState::new(name.to_string()),
        inbox: Vec::new(),
    }
}

/// Lobbies whose players have heard of each other.
fn facing_lobbies_of(names: &[&str]) -> Vec<Node> {
    let mut nodes: Vec<Node> = names
        .iter()
        .enumerate()
        .map(|(i, name)| node(i as u8 + 1, name))
        .collect();
    for i in 0..nodes.len() {
        for j in 0..nodes.len() {
            if i != j {
                let peer = DiscoveredPeer {
                    sender_id: nodes[j].id,
                    player_name: names[j].to_string(),
                    addr: LOCALHOST,
                    tcp_port: 39394 + j as u16,
                };
                nodes[i].lobby.peers.push(peer);
            }
        }
    }
    nodes
}

/// Runs a frame of the lobby at an index, and delivers what it sends.
fn update(
    nodes: &mut [Node],
    index: usize,
    actions: &[InputAction],
    progress: LobbyProgress,
    now_ms: u64,
) -> LobbyOutcome {
    let mut sends: Vec<(PeerId, PacketType)> = Vec::new();
    let inbox = std::mem::take(&mut nodes[index].inbox);
    for peer in nodes[index].lobby.apply_packets(&inbox, now_ms) {
        sends.push((peer.sender_id, PacketType::Decline));
    }
    nodes[index].lobby.clamp_selection();
    let mut outcome = None;
    for &action in actions {
        match nodes[index].lobby.request_for(action) {
            LobbyRequest::Nothing => {}
            LobbyRequest::SendInvite(peer) => sends.push((peer.sender_id, PacketType::Invite)),
            LobbyRequest::SendAccept(peer) => sends.push((peer.sender_id, PacketType::Accept)),
            LobbyRequest::SendDecline(peer) => sends.push((peer.sender_id, PacketType::Decline)),
            LobbyRequest::SendBye => sends.push((PeerId::nil(), PacketType::Bye)),
        }
        outcome = outcome.or(nodes[index].lobby.apply_action(action, true, now_ms));
    }
    for (to, packet_type) in sends {
        let packet = DiscoveryPacket {
            packet_type,
            sender_id: nodes[index].id,
            target_id: to,
            player_name: nodes[index].lobby.my_name().to_string(),
            tcp_port: 39394 + index as u16,
        };
        for other in nodes.iter_mut().filter(|other| other.id == to) {
            other.inbox.push(packet.clone());
        }
    }
    match outcome {
        Some(outcome) => outcome,
        None => nodes[index].lobby.advance_phase(now_ms, progress),
    }
}

/// Runs a frame without anything to report.
fn frame(nodes: &mut [Node], index: usize, actions: &[InputAction]) -> LobbyOutcome {
    update(nodes, index, actions, LobbyProgress::Nothing, 0)
}

/// The first invites the player with a name.
fn invite_by_name(nodes: &mut [Node], index: usize, name: &str) {
    let lobby = &mut nodes[index].lobby;
    lobby.selection = lobby.peers().iter().position(|p| p.player_name == name).unwrap();
    frame(nodes, index, &[InputAction::Confirm]);
    assert!(
        matches!(nodes[index].lobby.phase(), LobbyPhase::AwaitingInviteResponse { target, .. } if target.player_name == name)
    );
}

/// Gathers a room and starts the match; the names as everyone sees them.
fn run_room_of(names: &[&str]) -> Vec<Vec<String>> {
    let mut nodes = facing_lobbies_of(names);
    for index in 1..names.len() {
        invite_by_name(&mut nodes, 0, names[index]);
        frame(&mut nodes, index, &[]);
        assert!(matches!(nodes[index].lobby.phase(), LobbyPhase::IncomingInvite { .. }));
        frame(&mut nodes, index, &[InputAction::Confirm]);
        assert!(
            matches!(nodes[index].lobby.phase(), LobbyPhase::ConnectingToHost { addr, host_name } if host_name == names[0] && addr.port == 39394)
        );
        frame(&mut nodes, 0, &[]);
        assert!(
            matches!(nodes[0].lobby.phase(), LobbyPhase::AcceptingGuestConnection { guest_name, .. } if guest_name == names[index])
        );
        update(&mut nodes, 0, &[], LobbyProgress::GuestJoined(test_guest(names[index])), 0);
        update(&mut nodes, index, &[], LobbyProgress::HostReached, 0);
        assert!(matches!(nodes[index].lobby.phase(), LobbyPhase::WaitingForRoomStart));
    }
    let joined: Vec<&str> = nodes[0].lobby.hosted_guests().iter().map(|g| g.name()).collect();
    assert_eq!(joined, names[1..]);

    let guests = match frame(&mut nodes, 0, &[InputAction::StartRoom]) {
        LobbyOutcome::StartRoom { guests } => guests,
        other => panic!("{other:?}"),
    };
    let mut members = vec![RoomMember { name: names[0].to_string(), mesh_addr: None }];
    members.extend(guests.iter().map(|guest| RoomMember {
        name: guest.name().to_string(),
        mesh_addr: Some(guest.mesh_addr),
    }));
    let mut all = vec![nodes[0]
        .lobby
        .battle_from_room(names_of_others(&members, 0), test_handshake())
        .player_names];
    for index in 1..names.len() {
        let progress = LobbyProgress::RoomStarted {
            other_names: names_of_others(&members, index),
            handshake: test_handshake(),
        };
        match update(&mut nodes, index, &[], progress, 0) {
            LobbyOutcome::Battle(start) => {
                assert_eq!(start.games.len(), names.len());
                all.push(start.player_names);
            }
            other => panic!("{other:?}"),
        }
    }
    all
}

#[test]
fn a_lobby_starts_out_discovering_with_no_candidates() {
    let lobby = LobbyState::new("me".to_string());

    assert!(matches!(lobby.phase(), LobbyPhase::Discovering { .. }));
    assert!(lobby.peers().is_empty());
    assert!(lobby.hosted_guests().is_empty());
    assert_eq!(lobby.selection(), 0);
}

#[test]
fn confirming_without_any_candidate_keeps_the_lobby_discovering() {
    let mut nodes = [node(1, "me")];

    let outcome = frame(&mut nodes, 0, &[InputAction::Confirm]);

    assert!(matches!(outcome, LobbyOutcome::Stay));
    assert!(matches!(nodes[0].lobby.phase(), LobbyPhase::Discovering { .. }));
}

#[test]
fn starting_a_room_without_any_guest_does_nothing() {
    let mut nodes = [node(1, "me")];

    let outcome = frame(&mut nodes, 0, &[InputAction::StartRoom]);

    assert!(matches!(outcome, LobbyOutcome::Stay));
    assert!(matches!(nodes[0].lobby.phase(), LobbyPhase::Discovering { .. }));
}

#[test]
fn inviting_a_candidate_does_nothing_once_the_room_is_already_full() {
    let mut nodes = [node(1, "me")];
    nodes[0].lobby.peers.push(DiscoveredPeer {
        sender_id: PeerId { bytes: [9; 16] },
        player_name: "candidate".to_string(),
        addr: PeerHost::V4([192, 168, 0, 9]),
        tcp_port: 39399,
    });
    nodes[0].lobby.phase = LobbyPhase::Discovering {
        guests: vec![test_guest("g1"), test_guest("g2"), test_guest("g3")],
    };

    frame(&mut nodes, 0, &[InputAction::Confirm]);

    assert!(
        matches!(nodes[0].lobby.phase(), LobbyPhase::Discovering { guests } if guests.len() == 3)
    );
}

#[test]
fn escape_while_discovering_leaves_the_lobby() {
    let mut nodes = [node(1, "me")];

    let outcome = frame(&mut nodes, 0, &[InputAction::Quit]);

    assert!(matches!(outcome, LobbyOutcome::Leave));
}

#[test]
fn the_selection_cycles_through_the_candidates_in_both_directions() {
    let mut nodes = facing_lobbies_of(&["host", "guest"]);
    assert_eq!(nodes[0].lobby.peers().len(), 1);

    frame(&mut nodes, 0, &[InputAction::FaceDown]);
    assert_eq!(nodes[0].lobby.selection(), 0);
    frame(&mut nodes, 0, &[InputAction::FaceUp]);
    assert_eq!(nodes[0].lobby.selection(), 0);

    let mut three = facing_lobbies_of(&["host", "a", "b", "c"]);
    frame(&mut three, 0, &[InputAction::FaceUp]);
    assert_eq!(three[0].lobby.selection(), 2);
    frame(&mut three, 0, &[InputAction::FaceDown]);
    assert_eq!(three[0].lobby.selection(), 0);
}

#[test]
fn inviting_a_candidate_moves_to_awaiting_and_shows_up_as_an_incoming_invite() {
    let mut nodes = facing_lobbies_of(&["host", "guest"]);

    frame(&mut nodes, 0, &[InputAction::Confirm]);
    assert!(
        matches!(nodes[0].lobby.phase(), LobbyPhase::AwaitingInviteResponse { target, .. } if target.player_name == "guest")
    );

    frame(&mut nodes, 1, &[]);
    assert!(
        matches!(nodes[1].lobby.phase(), LobbyPhase::IncomingInvite { from } if from.player_name == "host")
    );
}

#[test]
fn declining_an_invite_sends_both_sides_back_toward_discovering() {
    let mut nodes = facing_lobbies_of(&["host", "guest"]);
    frame(&mut nodes, 0, &[InputAction::Confirm]);
    frame(&mut nodes, 1, &[]);
    assert!(matches!(nodes[1].lobby.phase(), LobbyPhase::IncomingInvite { .. }));

    frame(&mut nodes, 1, &[InputAction::Quit]);
    assert!(matches!(nodes[1].lobby.phase(), LobbyPhase::Discovering { .. }));

    frame(&mut nodes, 0, &[]);
    assert!(
        matches!(nodes[0].lobby.phase(), LobbyPhase::Notice { message, .. } if message == "相手に断られました")
    );
}

#[test]
fn an_invite_that_is_never_answered_times_out_into_a_notice() {
    let mut nodes = facing_lobbies_of(&["host", "guest"]);
    frame(&mut nodes, 0, &[InputAction::Confirm]);

    update(&mut nodes, 0, &[], LobbyProgress::Nothing, INVITE_TIMEOUT_MS - 1);
    assert!(matches!(nodes[0].lobby.phase(), LobbyPhase::AwaitingInviteResponse { .. }));
    update(&mut nodes, 0, &[], LobbyProgress::Nothing, INVITE_TIMEOUT_MS);
    assert!(
        matches!(nodes[0].lobby.phase(), LobbyPhase::Notice { message, .. } if message == "応答がありませんでした")
    );
}

#[test]
fn an_invite_that_arrives_while_hosting_a_room_is_declined_automatically() {
    let mut nodes = facing_lobbies_of(&["host", "other"]);
    nodes[0].lobby.phase = LobbyPhase::Discovering { guests: vec![test_guest("joined")] };

    invite_by_name(&mut nodes, 1, "host");
    frame(&mut nodes, 0, &[]);
    frame(&mut nodes, 1, &[]);

    assert!(
        matches!(nodes[0].lobby.phase(), LobbyPhase::Discovering { guests } if guests.len() == 1)
    );
    assert!(
        matches!(nodes[1].lobby.phase(), LobbyPhase::Notice { message, .. } if message == "相手に断られました")
    );
}

#[test]
fn a_notice_returns_to_discovering_once_it_has_been_shown_long_enough() {
    let mut nodes = [node(1, "me")];
    nodes[0].lobby.phase = LobbyPhase::Notice {
        message: "テスト".to_string(),
        shown_at_ms: 0,
        guests: Vec::new(),
    };

    update(&mut nodes, 0, &[], LobbyProgress::Nothing, NOTICE_DISPLAY_MS - 1);
    assert!(matches!(nodes[0].lobby.phase(), LobbyPhase::Notice { .. }));
    update(&mut nodes, 0, &[], LobbyProgress::Nothing, NOTICE_DISPLAY_MS);
    assert!(matches!(nodes[0].lobby.phase(), LobbyPhase::Discovering { .. }));
}

#[test]
fn a_notice_carries_the_already_hosted_guests_back_to_discovering() {
    let mut nodes = [node(1, "me")];
    nodes[0].lobby.phase = LobbyPhase::Notice {
        message: "テスト".to_string(),
        shown_at_ms: 0,
        guests: vec![test_guest("already-joined")],
    };

    update(&mut nodes, 0, &[], LobbyProgress::Nothing, NOTICE_DISPLAY_MS);

    assert!(
        matches!(nodes[0].lobby.phase(), LobbyPhase::Discovering { guests } if guests.len() == 1 && guests[0].name() == "already-joined")
    );
}

#[test]
fn accepting_an_invite_connects_both_sides_and_starts_a_battle() {
    let names = run_room_of(&["host", "guest"]);

    assert_eq!(names[0], vec!["host".to_string(), "guest".to_string()]);
    assert_eq!(names[1], vec!["guest".to_string(), "host".to_string()]);
}

#[test]
fn a_room_of_three_players_starts_a_battle_for_everyone() {
    let names = run_room_of(&["host", "guest-1", "guest-2"]);

    assert_eq!(names[0], vec!["host", "guest-1", "guest-2"]);
    assert_eq!(names[1], vec!["guest-1", "host", "guest-2"]);
    assert_eq!(names[2], vec!["guest-2", "host", "guest-1"]);
}

#[test]
fn a_room_of_four_players_starts_a_battle_for_everyone() {
    let names = run_room_of(&["host", "guest-1", "guest-2", "guest-3"]);

    assert_eq!(names[0], vec!["host", "guest-1", "guest-2", "guest-3"]);
    assert_eq!(names[1], vec!["guest-1", "host", "guest-2", "guest-3"]);
    assert_eq!(names[2], vec!["guest-2", "host", "guest-1", "guest-3"]);
    assert_eq!(names[3], vec!["guest-3", "host", "guest-1", "guest-2"]);
}

#[test]
fn a_guest_who_does_not_connect_in_time_leaves_the_room_as_it_was() {
    let mut nodes = facing_lobbies_of(&["host", "guest"]);
    nodes[0].lobby.phase = LobbyPhase::AcceptingGuestConnection {
        guest_name: "guest".to_string(),
        started_ms: 100,
        guests: vec![test_guest("joined")],
    };

    update(&mut nodes, 0, &[], LobbyProgress::Nothing, 100 + TCP_CONNECT_TIMEOUT_MS);

    assert!(
        matches!(nodes[0].lobby.phase(), LobbyPhase::Notice { message, guests, .. } if message == "接続できませんでした" && guests.len() == 1)
    );
    let names: Vec<&str> = nodes[0].lobby.hosted_guests().iter().map(|g| g.name()).collect();
    assert_eq!(names, vec!["joined"]);
}

#[test]
fn a_host_that_cannot_be_reached_is_reported() {
    let mut lobby = LobbyState::new("me".to_string());
    lobby.phase = LobbyPhase::ConnectingToHost {
        addr: PeerAddr { host: LOCALHOST, port: 1 },
        host_name: "host".to_string(),
    };

    lobby.advance_phase(7, LobbyProgress::HostFailed);

    assert!(
        matches!(lobby.phase(), LobbyPhase::Notice { message, shown_at_ms: 7, guests } if message == "接続できませんでした" && guests.is_empty())
    );
}

#[test]
fn a_room_that_cannot_be_started_is_reported() {
    let mut lobby = LobbyState::new("me".to_string());
    lobby.phase = LobbyPhase::WaitingForRoomStart;
    lobby.advance_phase(3, LobbyProgress::RoomFailed);
    assert!(matches!(lobby.phase(), LobbyPhase::Notice { shown_at_ms: 3, .. }));

    let mut lobby = LobbyState::new("me".to_string());
    lobby.room_failed(4);
    assert!(matches!(lobby.phase(), LobbyPhase::Notice { shown_at_ms: 4, .. }));
}

#[test]
fn an_invitation_that_cannot_be_sent_leaves_the_lobby_as_it_was() {
    let mut nodes = facing_lobbies_of(&["host", "guest"]);

    assert!(nodes[0].lobby.apply_action(InputAction::Confirm, false, 0).is_none());

    assert!(matches!(nodes[0].lobby.phase(), LobbyPhase::Discovering { .. }));
}

#[test]
fn an_invitation_from_a_stranger_is_ignored() {
    let mut lobby = LobbyState::new("me".to_string());
    let packet = DiscoveryPacket {
        packet_type: PacketType::Invite,
        sender_id: PeerId { bytes: [9; 16] },
        target_id: PeerId { bytes: [1; 16] },
        player_name: "stranger".to_string(),
        tcp_port: 1,
    };

    assert!(lobby.apply_packet(&packet, 0).is_none());

    assert!(matches!(lobby.phase(), LobbyPhase::Discovering { .. }));
}

#[test]
fn a_guest_joins_with_a_request_in_the_same_version() {
    let request = |protocol_version| GameMessage::JoinRoom {
        name: "guest".to_string(),
        mesh_port: 39395,
        protocol_version,
    };

    let guest = read_join_room(4, LOCALHOST, request(PROTOCOL_VERSION)).unwrap();
    assert_eq!(guest.name(), "guest");
    assert_eq!(guest.connection, 4);
    assert_eq!(guest.mesh_addr, PeerAddr { host: LOCALHOST, port: 39395 });

    let err = read_join_room(4, LOCALHOST, request(PROTOCOL_VERSION + 1)).unwrap_err();
    assert_eq!(err, NetError::VersionMismatch { peer: PROTOCOL_VERSION + 1 });
    let err = read_join_room(4, LOCALHOST, GameMessage::Bye).unwrap_err();
    assert_eq!(err, NetError::UnexpectedMessage { expected: Expected::JoinRoom });
}
