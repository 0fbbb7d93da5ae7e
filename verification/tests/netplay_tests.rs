use code_termination::netplay::{
    address_candidates, advertised_address, client_room_code, code_display, direct_room_label,
    generate_room_code, host_address_text, host_code_text, host_waiting_datagram, hosted_room_label,
    ip_with_port, is_direct_address, join_hint, joined_room_label, on_datagram, play_screen,
    public_ip_or_loopback, react_to_link_event, read_room_lookup, read_room_store, room_url, rooms_to_close,
    split_battle_marker, state_payload, status_line, DatagramAction, DigitKey, JoinCommand, JoinKeys, LinkEvent,
    LinkReaction, LinkState, RoomCodeInput,
};
use code_termination::resources::AppState;

fn digit_key(c: char) -> DigitKey {
    match c {
        '0' => DigitKey::Zero,
        '1' => DigitKey::One,
        '2' => DigitKey::Two,
        '3' => DigitKey::Three,
        '4' => DigitKey::Four,
        '5' => DigitKey::Five,
        '6' => DigitKey::Six,
        '7' => DigitKey::Seven,
        '8' => DigitKey::Eight,
        _ => DigitKey::Nine,
    }
}

fn keys(digits: &str) -> JoinKeys {
    JoinKeys {
        escape: false,
        digits: digits.chars().map(digit_key).collect(),
        dot: false,
        colon: false,
        backspace: false,
        enter: false,
    }
}

#[test]
fn room_codes_have_four_digits() {
    assert_eq!(generate_room_code(0), "1000");
    assert_eq!(generate_room_code(8999), "9999");
    assert_eq!(generate_room_code(9000), "1000");
    assert_eq!(generate_room_code(123456789), "4789");
    for n in [1u128, 77, 4242, 99999999999999, u128::MAX] {
        let c = generate_room_code(n);
        assert_eq!(c.len(), 4);
        let v: u32 = c.parse().unwrap();
        assert!((1000..=9999).contains(&v));
    }
}

#[test]
fn registry_addresses() {
    assert_eq!(room_url("1234"), "https://code-termination-proxy.gideon-a-e-laurie.workers.dev/rooms/1234");
    assert_eq!(client_room_code("1234"), "1234_client");
}

#[test]
fn rooms_closed_when_leaving() {
    assert_eq!(rooms_to_close("1234", true), vec!["1234", "1234_client"]);
    assert_eq!(rooms_to_close("1234", false), vec!["1234_client"]);
    assert!(rooms_to_close("DIRECT (1.2.3.4:50505)", true).is_empty());
    assert!(rooms_to_close("DIRECT (1.2.3.4:50505)", false).is_empty());
}

#[test]
fn room_lookup_replies() {
    assert_eq!(read_room_lookup(true, " 1.2.3.4:50505\n"), Ok("1.2.3.4:50505".to_string()));
    assert_eq!(read_room_lookup(true, "1.2.3.4:50505|BATTLE"), Ok("1.2.3.4:50505|BATTLE".to_string()));
    assert_eq!(read_room_lookup(true, "404 page"), Err("Room not found".to_string()));
    assert_eq!(read_room_lookup(true, "  \n"), Err("Room not found".to_string()));
    assert_eq!(read_room_lookup(true, "Not Found"), Err("Room not found".to_string()));
    assert_eq!(read_room_lookup(true, "Error: bad"), Err("Room not found".to_string()));
    assert_eq!(read_room_lookup(false, "1.2.3.4"), Err("Failed to fetch room code from proxy".to_string()));
}

#[test]
fn room_store_replies() {
    assert_eq!(read_room_store(true, "", ""), Ok(()));
    assert_eq!(read_room_store(false, "err", "body"), Err("Proxy error: err body".to_string()));
}

#[test]
fn host_addresses() {
    assert_eq!(public_ip_or_loopback(Some(" 203.0.113.9\n")), "203.0.113.9");
    assert_eq!(public_ip_or_loopback(None), "127.0.0.1");
    assert_eq!(ip_with_port("203.0.113.9", 50505), "203.0.113.9:50505");
    assert_eq!(advertised_address("1.2.3.4:5", true), "1.2.3.4:5|BATTLE");
    assert_eq!(advertised_address("1.2.3.4:5", false), "1.2.3.4:5");
    assert_eq!(direct_room_label("1.2.3.4:5"), "DIRECT (1.2.3.4:5)");
    assert_eq!(hosted_room_label(true, "1234", "1.2.3.4:5"), "1234");
    assert_eq!(hosted_room_label(false, "1234", "1.2.3.4:5"), "DIRECT (1.2.3.4:5)");
}

#[test]
fn client_addresses() {
    assert!(is_direct_address("1.2.3.4"));
    assert!(is_direct_address("host:50505"));
    assert!(!is_direct_address("1234"));
    assert_eq!(split_battle_marker("1.2.3.4:5|BATTLE"), ("1.2.3.4:5".to_string(), true));
    assert_eq!(split_battle_marker("1.2.3.4:5"), ("1.2.3.4:5".to_string(), false));
    assert_eq!(address_candidates(" 1.2.3.4 "), (" 1.2.3.4 ".to_string(), "1.2.3.4:50505".to_string()));
    assert_eq!(joined_room_label(true, "1.2.3.4", "x"), "1.2.3.4");
    assert_eq!(joined_room_label(false, "1234", "1.2.3.4:5"), "1.2.3.4:5");
}

#[test]
fn battle_marker_round_trip() {
    for addr in ["203.0.113.9:50505", "10.0.0.1:1"] {
        for battle in [true, false] {
            let stored = advertised_address(addr, battle);
            assert_eq!(split_battle_marker(&stored), (addr.to_string(), battle));
        }
    }
}

#[test]
fn typing_a_room_code() {
    let mut input = RoomCodeInput::default();
    input.error_message = "ERROR: OLD".to_string();
    assert!(matches!(input.apply_join_keys(&keys("12")), JoinCommand::Stay));
    assert_eq!(input.code, "12");
    assert_eq!(input.error_message, "");
    let mut k = keys("");
    k.backspace = true;
    input.apply_join_keys(&k);
    assert_eq!(input.code, "1");
    input.apply_join_keys(&keys("234"));
    let mut k = keys("");
    k.enter = true;
    match input.apply_join_keys(&k) {
        JoinCommand::Connect(c) => assert_eq!(c, "1234"),
        _ => panic!("expected a connection"),
    }
    assert!(input.is_connecting);
    assert_eq!(input.status_message, "FETCHING ROOM ADDRESS...");
    assert!(matches!(input.apply_join_keys(&keys("5")), JoinCommand::Stay));
    assert_eq!(input.code, "1234");
}

#[test]
fn typing_an_address() {
    let mut input = RoomCodeInput::default();
    let mut k = keys("1");
    k.dot = true;
    k.colon = true;
    input.apply_join_keys(&k);
    assert_eq!(input.code, "1.:");
    let mut k = keys("");
    k.enter = true;
    assert!(matches!(input.apply_join_keys(&k), JoinCommand::Connect(_)));
    assert_eq!(input.status_message, "CONNECTING DIRECTLY...");
}

#[test]
fn code_stops_at_22_characters() {
    let mut input = RoomCodeInput::default();
    input.apply_join_keys(&keys("12345678901234567890"));
    input.apply_join_keys(&keys("12345"));
    assert_eq!(input.code, "1234567890123456789012");
    let mut k = keys("");
    k.dot = true;
    input.apply_join_keys(&k);
    assert_eq!(input.code.len(), 22);
}

#[test]
fn escape_and_empty_enter() {
    let mut input = RoomCodeInput::default();
    let mut k = keys("7");
    k.escape = true;
    assert!(matches!(input.apply_join_keys(&k), JoinCommand::BackToMenu));
    assert_eq!(input.code, "");
    let mut k = keys("");
    k.enter = true;
    k.backspace = true;
    assert!(matches!(input.apply_join_keys(&k), JoinCommand::Stay));
    assert!(!input.is_connecting);
}

#[test]
fn failed_join_shows_error_in_capitals() {
    let mut input = RoomCodeInput::default();
    input.code = "1234".to_string();
    input.is_connecting = true;
    input.status_message = "FETCHING ROOM ADDRESS...".to_string();
    let r = react_to_link_event(&mut input, &LinkEvent::JoinFailed("Room not found".to_string()));
    assert_eq!(r, LinkReaction::ShowError);
    assert_eq!(input.error_message, "ERROR: ROOM NOT FOUND");
    assert!(!input.is_connecting);
    assert_eq!(input.status_message, "");
    assert_eq!(input.code, "1234");
}

#[test]
fn link_events() {
    let mut input = RoomCodeInput::default();
    assert_eq!(
        react_to_link_event(&mut input, &LinkEvent::HostSucceeded { room_code: "1234".to_string(), is_battle: false }),
        LinkReaction::Hosting { poll_for_client: true }
    );
    assert_eq!(
        react_to_link_event(
            &mut input,
            &LinkEvent::HostSucceeded { room_code: "DIRECT (1.2.3.4:5)".to_string(), is_battle: true }
        ),
        LinkReaction::Hosting { poll_for_client: false }
    );
    assert_eq!(
        react_to_link_event(&mut input, &LinkEvent::HostFailed("x".to_string())),
        LinkReaction::Show(AppState::MultiplayerMenu)
    );
    assert_eq!(
        react_to_link_event(&mut input, &LinkEvent::JoinSucceeded { is_battle: true }),
        LinkReaction::Show(AppState::BattleArena)
    );
    assert_eq!(
        react_to_link_event(&mut input, &LinkEvent::JoinSucceeded { is_battle: false }),
        LinkReaction::Show(AppState::Game)
    );
    assert_eq!(play_screen(true), AppState::BattleArena);
}

#[test]
fn join_screen_display() {
    assert_eq!(code_display(""), "_ _ _ _");
    assert_eq!(code_display("12"), "1 2 _ _");
    assert_eq!(code_display("1234"), "1 2 3 4");
    assert_eq!(code_display("12345"), "12345");
    assert_eq!(code_display("1.2"), "1.2");
    assert_eq!(code_display("1:"), "1:");
}

#[test]
fn join_screen_hints() {
    let mut input = RoomCodeInput::default();
    assert_eq!(join_hint(&input), "Type code or host IP/port");
    input.code = "1234".to_string();
    assert_eq!(join_hint(&input), "Press ENTER to fetch room details");
    input.code = "1.2".to_string();
    assert_eq!(join_hint(&input), "Press ENTER to connect directly");
    input.status_message = "CONNECTING DIRECTLY...".to_string();
    assert_eq!(join_hint(&input), "CONNECTING DIRECTLY...");
    input.error_message = "ERROR: X".to_string();
    assert_eq!(join_hint(&input), "ERROR: X");
}

#[test]
fn host_waiting_texts() {
    assert_eq!(host_code_text("DIRECT (1.2.3.4:50505)"), "DIRECT CONNECT");
    assert_eq!(host_code_text("4321"), "4321");
    assert_eq!(host_address_text("DIRECT (1.2.3.4:50505)"), "Share this address with peer:\n1.2.3.4:50505");
    assert_eq!(host_address_text("DIRECT (1.2.3.4:50505|BATTLE)"), "Share this address with peer:\n1.2.3.4:50505");
    assert_eq!(host_address_text("4321"), "Waiting for peer to join...");
}

#[test]
fn status_lines() {
    assert_eq!(status_line("4321", false, true, Some(3)), "MULTIPLAYER: CONNECTED | ROOM: 4321 | PEER LEVEL: 3");
    assert_eq!(status_line("4321", false, true, None), "MULTIPLAYER: CONNECTED | ROOM: 4321 | PEER LEVEL: 1");
    assert_eq!(status_line("DIRECT (1.2.3.4:5)", true, true, None), "MULTIPLAYER BATTLE: CONNECTED | ROOM: DIRECT");
    assert_eq!(status_line("4321", true, false, None), "MULTIPLAYER BATTLE: WAITING FOR PEER | ROOM: 4321");
    assert_eq!(status_line("4321", false, false, Some(2)), "MULTIPLAYER: WAITING FOR PEER | ROOM: 4321");
}

#[test]
fn join_and_ack_datagrams() {
    let mut host = LinkState { is_host: true, is_connected: false };
    assert!(matches!(on_datagram(&mut host, "JOIN", 1), DatagramAction::AcceptPeer));
    assert!(host.is_connected);
    let mut client = LinkState { is_host: false, is_connected: false };
    assert!(matches!(on_datagram(&mut client, "JOIN", 1), DatagramAction::Ignore));
    assert!(!client.is_connected);
    assert!(matches!(on_datagram(&mut client, " ACK\n", 1), DatagramAction::Ignore));
    assert!(client.is_connected);
    let mut host = LinkState { is_host: true, is_connected: false };
    on_datagram(&mut host, "ACK", 1);
    assert!(!host.is_connected);
    assert!(matches!(on_datagram(&mut host, "   ", 1), DatagramAction::Ignore));
    assert!(matches!(on_datagram(&mut host, "HELLO", 1), DatagramAction::Ignore));
}

#[test]
fn state_datagrams() {
    let mut link = LinkState { is_host: false, is_connected: true };
    match on_datagram(&mut link, "STATE 12.50 -3.00 2 0 1 neo", 2) {
        DatagramAction::Remote(u) => {
            assert_eq!(u.x_text, "12.50");
            assert_eq!(u.y_text, "-3.00");
            assert_eq!(u.level, 2);
            assert!(u.active);
            assert_eq!(u.username, "neo");
            assert!(u.visible);
        },
        _ => panic!("expected a state update"),
    }
    match on_datagram(&mut link, "STATE 1 2 x 0 0", 1) {
        DatagramAction::Remote(u) => {
            assert_eq!(u.level, 1);
            assert!(!u.active);
            assert_eq!(u.username, "Player");
            assert!(!u.visible);
        },
        _ => panic!("expected a state update"),
    }
    match on_datagram(&mut link, "STATE 1 2 3 0 1 p", 1) {
        DatagramAction::Remote(u) => assert!(!u.visible),
        _ => panic!("expected a state update"),
    }
    assert!(matches!(on_datagram(&mut link, "STATE 1 2 3 0", 1), DatagramAction::Ignore));
}

#[test]
fn state_message_round_trip() {
    let p = state_payload("1.50", "2.00", 3, "neo");
    assert_eq!(p, "STATE 1.50 2.00 3 0 1 neo");
    let mut link = LinkState { is_host: true, is_connected: true };
    match on_datagram(&mut link, &p, 3) {
        DatagramAction::Remote(u) => {
            assert_eq!((u.x_text.as_str(), u.y_text.as_str(), u.level, u.active, u.username.as_str(), u.visible), ("1.50", "2.00", 3, true, "neo", true));
        },
        _ => panic!("expected a state update"),
    }
}

#[test]
fn host_waiting_join() {
    assert_eq!(host_waiting_datagram(" JOIN\n", true), Some(AppState::BattleArena));
    assert_eq!(host_waiting_datagram("JOIN", false), Some(AppState::Game));
    assert_eq!(host_waiting_datagram("JOIN x", false), None);
    assert_eq!(host_waiting_datagram("ACK", false), None);
}

#[test]
fn digit_keys_type_their_digit() {
    let all = [
        DigitKey::Zero, DigitKey::One, DigitKey::Two, DigitKey::Three, DigitKey::Four,
        DigitKey::Five, DigitKey::Six, DigitKey::Seven, DigitKey::Eight, DigitKey::Nine,
    ];
    let typed: String = all.iter().map(|d| d.typed_char()).collect();
    assert_eq!(typed, "0123456789");
}

#[test]
fn battle_room_address_is_shared_without_marker() {
    let label = hosted_room_label(false, "1234", &advertised_address("203.0.113.7:50505", true));
    assert_eq!(label, "DIRECT (203.0.113.7:50505|BATTLE)");
    assert_eq!(host_address_text(&label), "Share this address with peer:\n203.0.113.7:50505");
    assert_eq!(host_code_text(&label), "DIRECT CONNECT");
}
