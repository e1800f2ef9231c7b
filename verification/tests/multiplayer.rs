use geode_td::board::Board;
use geode_td::client::{
    max_input_chars, sanitize_lobby_name, sanitize_name, sort_lobbies_by_name, text_input_value, type_into,
    MultiplayerClient, NameIntent, TextInputField,
};
use geode_td::field::Field;
use geode_td::game::{AppScreen, Game};
use geode_td::lobby::{lists_id, short_id, without_id_exec, Outgoing, ServerState};
use geode_td::menu::{
    handle_escape_menu_action, handle_menu_action, join_lobby_row, layout_points_fit, start_multiplayer_game_from_layout,
    toggle_escape_menu, EscapeMenuAction, MenuAction,
};
use geode_td::protocol::{
    BoardSnapshot, ClientMessage, GameMode, GridPoint, LobbyState, LobbyStatus, LobbySummary, PhaseSnapshot,
    ServerMessage, SharedBoardLayout,
};
use geode_td::shared_layout::{
    finish_point, scaled_grid_point, server_random_checkpoints, server_standard_checkpoints, shared_layout, start_point,
};

fn connect(server: &mut ServerState, id: &str) -> Vec<Outgoing> {
    let mut out = Vec::new();
    server.connect_player(&mut out, id.to_string());
    out
}

fn create(server: &mut ServerState, host: &str, name: &str, lobby: &str) -> Vec<Outgoing> {
    server.handle_client_message(
        host,
        ClientMessage::CreateLobby { player_name: name.to_string(), lobby_name: lobby.to_string() },
    )
}

fn join(server: &mut ServerState, who: &str, lobby_id: &str, name: &str) -> Vec<Outgoing> {
    server.handle_client_message(
        who,
        ClientMessage::JoinLobby { lobby_id: lobby_id.to_string(), player_name: name.to_string() },
    )
}

fn errors_to(out: &[Outgoing], to: &str) -> Vec<String> {
    out.iter()
        .filter(|o| o.to == to)
        .filter_map(|o| match &o.message {
            ServerMessage::Error { message } => Some(message.clone()),
            _ => None,
        })
        .collect()
}

fn snapshot(round: u32) -> BoardSnapshot {
    BoardSnapshot { round, lives: 20, coins: 3, phase: PhaseSnapshot::Build, towers: vec![], walls: vec![] }
}

#[test]
fn connect_welcomes_the_player() {
    let mut server = ServerState::new();
    let out = connect(&mut server, "p1");
    assert_eq!(out.len(), 1);
    assert_eq!(out[0].to, "p1");
    assert!(matches!(&out[0].message, ServerMessage::Welcome { player_id } if player_id == "p1"));
    assert_eq!(server.players.len(), 1);
    assert_eq!(server.players[0].name, "Player");
    assert!(server.players[0].lobby_id.is_none());
}

#[test]
fn create_lobby_makes_the_player_host() {
    let mut server = ServerState::new();
    connect(&mut server, "p1");
    connect(&mut server, "p2");
    let out = create(&mut server, "p1", "  Alice  ", "");
    assert_eq!(server.lobbies.len(), 1);
    let lobby = &server.lobbies[0];
    assert_eq!(lobby.id.chars().count(), 8);
    assert!(lobby.id.chars().all(|c| c.is_ascii_hexdigit() && !c.is_ascii_uppercase()));
    assert_eq!(lobby.name, "Alice's Lobby");
    assert_eq!(lobby.host_player_id, "p1");
    assert_eq!(lobby.player_ids, vec!["p1".to_string()]);
    assert_eq!(lobby.status, LobbyStatus::Waiting);
    assert_eq!(lobby.mode, Some(GameMode::Standard));
    assert_eq!(server.player_lobby_id("p1"), Some(lobby.id.clone()));
    // the host gets the lobby state, everyone the new list
    assert!(out.iter().any(|o| o.to == "p1" && matches!(o.message, ServerMessage::LobbyState { .. })));
    assert!(out.iter().any(|o| o.to == "p2" && matches!(&o.message, ServerMessage::LobbyList { lobbies } if lobbies.len() == 1)));
    let summaries = server.lobby_summaries();
    assert_eq!(summaries[0].host_name, "Alice");
    assert_eq!(summaries[0].player_count, 1);
    assert_eq!(summaries[0].max_players, 8);
}

#[test]
fn join_start_and_share_snapshots() {
    let mut server = ServerState::new();
    connect(&mut server, "p1");
    connect(&mut server, "p2");
    create(&mut server, "p1", "Alice", "Fun Room");
    let lobby_id = server.lobbies[0].id.clone();
    assert_eq!(server.lobbies[0].name, "Fun Room");
    let out = join(&mut server, "p2", &lobby_id, "Bob");
    assert_eq!(server.lobbies[0].player_ids, vec!["p1".to_string(), "p2".to_string()]);
    assert!(out.iter().any(|o| o.to == "p1"
        && matches!(&o.message, ServerMessage::PlayerJoined { player } if player.name == "Bob" && !player.is_host)));
    let state = server.lobby_state(&lobby_id).unwrap();
    assert_eq!(state.players.len(), 2);
    assert!(state.players[0].is_host);

    let out = server.handle_client_message("p2", ClientMessage::StartGame);
    assert_eq!(errors_to(&out, "p2"), vec!["Only the host can start the game.".to_string()]);
    let out = server.handle_client_message("p2", ClientMessage::SetMode { mode: GameMode::Random });
    assert_eq!(errors_to(&out, "p2"), vec!["Only the host can set the mode.".to_string()]);
    let out = server.handle_client_message("p1", ClientMessage::BoardSnapshot { snapshot: snapshot(1) });
    assert_eq!(errors_to(&out, "p1"), vec!["The game has not started.".to_string()]);

    let out = server.handle_client_message("p1", ClientMessage::StartGame);
    assert_eq!(server.lobbies[0].status, LobbyStatus::InGame);
    for who in ["p1", "p2"] {
        assert!(out.iter().any(|o| o.to == who && matches!(&o.message,
            ServerMessage::GameStarted { layout } if layout.mode == GameMode::Standard && layout.checkpoints.len() == 4)));
    }
    let out = server.handle_client_message("p1", ClientMessage::SetMode { mode: GameMode::Random });
    assert_eq!(errors_to(&out, "p1"), vec!["The game has already started.".to_string()]);

    let out = server.handle_client_message("p2", ClientMessage::BoardSnapshot { snapshot: snapshot(4) });
    assert_eq!(out.len(), 1);
    assert_eq!(out[0].to, "p1");
    assert!(matches!(&out[0].message, ServerMessage::PlayerSnapshot { player_id, snapshot } if player_id == "p2" && snapshot.round == 4));
    assert_eq!(server.lobbies[0].snapshots.len(), 1);

    connect(&mut server, "p3");
    let out = join(&mut server, "p3", &lobby_id, "Cy");
    assert_eq!(errors_to(&out, "p3"), vec!["That lobby has already started.".to_string()]);
}

#[test]
fn random_mode_start_sends_a_seeded_layout() {
    let mut server = ServerState::new();
    connect(&mut server, "p1");
    create(&mut server, "p1", "Alice", "R");
    server.handle_client_message("p1", ClientMessage::SetMode { mode: GameMode::Random });
    assert_eq!(server.lobbies[0].mode, Some(GameMode::Random));
    let out = server.handle_client_message("p1", ClientMessage::StartGame);
    let layout = out
        .iter()
        .find_map(|o| match &o.message {
            ServerMessage::GameStarted { layout } => Some(layout.clone()),
            _ => None,
        })
        .expect("started");
    assert_eq!(layout.mode, GameMode::Random);
    let seed = layout.seed.expect("seeded");
    let again = server_random_checkpoints(seed);
    assert_eq!(layout.checkpoints, again);
    assert_eq!(layout.checkpoints.len(), 4);
}

#[test]
fn full_lobby_refuses_a_ninth_player() {
    let mut server = ServerState::new();
    connect(&mut server, "h");
    create(&mut server, "h", "Host", "Big");
    let lobby_id = server.lobbies[0].id.clone();
    for k in 1..8 {
        let id = format!("p{}", k);
        connect(&mut server, &id);
        join(&mut server, &id, &lobby_id, "x");
    }
    assert_eq!(server.lobbies[0].player_ids.len(), 8);
    connect(&mut server, "late");
    let out = join(&mut server, "late", &lobby_id, "Late");
    assert_eq!(errors_to(&out, "late"), vec!["That lobby is full.".to_string()]);
    let out = join(&mut server, "late", "nope0000", "Late");
    assert_eq!(errors_to(&out, "late"), vec!["Lobby not found.".to_string()]);
}

#[test]
fn host_leaving_hands_over_and_last_leaving_closes() {
    let mut server = ServerState::new();
    connect(&mut server, "p1");
    connect(&mut server, "p2");
    create(&mut server, "p1", "Alice", "L");
    let lobby_id = server.lobbies[0].id.clone();
    join(&mut server, "p2", &lobby_id, "Bob");
    let out = server.handle_client_message("p1", ClientMessage::LeaveLobby);
    assert_eq!(server.lobbies[0].host_player_id, "p2");
    assert_eq!(server.lobbies[0].player_ids, vec!["p2".to_string()]);
    assert!(server.player_lobby_id("p1").is_none());
    assert!(out.iter().any(|o| o.to == "p2" && matches!(&o.message, ServerMessage::PlayerLeft { player_id } if player_id == "p1")));
    assert!(out.iter().any(|o| o.to == "p1" && matches!(o.message, ServerMessage::LobbyList { .. })));
    let mut out = Vec::new();
    server.disconnect_player(&mut out, "p2");
    assert!(server.lobbies.is_empty());
    assert_eq!(server.players.len(), 1);
    let out = server.handle_client_message("p1", ClientMessage::StartGame);
    assert_eq!(errors_to(&out, "p1"), vec!["You are not in a lobby.".to_string()]);
}

#[test]
fn list_lobbies_replies_to_the_asker() {
    let mut server = ServerState::new();
    connect(&mut server, "p1");
    connect(&mut server, "p2");
    let out = server.handle_client_message("p2", ClientMessage::ListLobbies);
    assert_eq!(out.len(), 1);
    assert_eq!(out[0].to, "p2");
    assert!(matches!(&out[0].message, ServerMessage::LobbyList { lobbies } if lobbies.is_empty()));
}

#[test]
fn id_lists() {
    let ids = vec!["a".to_string(), "b".to_string(), "c".to_string()];
    assert!(lists_id(&ids, "b"));
    assert!(!lists_id(&ids, "z"));
    assert_eq!(without_id_exec(&ids, "b"), vec!["a".to_string(), "c".to_string()]);
    let id = short_id();
    assert_eq!(id.len(), 8);
    assert!(id.chars().all(|c| matches!(c, '0'..='9' | 'a'..='f')));
}

#[test]
fn shared_layout_points() {
    assert_eq!(start_point(), (4, 32));
    assert_eq!(finish_point(), (108, 32));
    assert_eq!(scaled_grid_point(22, 13), GridPoint { col: 88, row: 52 });
    assert_eq!(
        server_standard_checkpoints(),
        vec![
            GridPoint { col: 24, row: 52 },
            GridPoint { col: 24, row: 12 },
            GridPoint { col: 88, row: 12 },
            GridPoint { col: 88, row: 52 },
        ]
    );
    let standard = shared_layout(GameMode::Standard);
    assert_eq!(standard.seed, None);
    assert_eq!(standard.checkpoints.len(), 4);
    assert_eq!(server_random_checkpoints(12345), server_random_checkpoints(12345));
    assert_eq!(server_random_checkpoints(12345).len(), 4);
    assert_eq!(server_random_checkpoints(7).len(), 4);
    for p in server_random_checkpoints(12345) {
        assert!(p.col >= 16 && p.col < 100 && p.row >= 8 && p.row < 60);
    }
}

#[test]
fn names_are_trimmed_and_capped() {
    assert_eq!(sanitize_name("  Zed  "), "Zed");
    assert_eq!(sanitize_name("   "), "Player");
    assert_eq!(sanitize_name(&"x".repeat(50)).chars().count(), 32);
    assert_eq!(sanitize_lobby_name("", " Ann "), "Ann's Lobby");
    assert_eq!(sanitize_lobby_name("  ", ""), "Player's Lobby");
    assert_eq!(sanitize_lobby_name(&"y".repeat(60), "Ann").chars().count(), 40);
}

#[test]
fn typing_skips_control_characters_and_stops_at_the_cap() {
    let mut s = String::from("ab");
    type_into(&mut s, "c\u{8}d\ne", 4);
    assert_eq!(s, "abcd");
    assert_eq!(max_input_chars(TextInputField::DisplayName), 32);
    assert_eq!(max_input_chars(TextInputField::LobbyName), 40);
    assert_eq!(text_input_value("Ann"), "Ann|");
}

fn summary(id: &str, name: &str) -> LobbySummary {
    LobbySummary {
        id: id.to_string(),
        name: name.to_string(),
        host_player_id: "h".to_string(),
        host_name: "H".to_string(),
        player_count: 1,
        max_players: 8,
        status: LobbyStatus::Waiting,
        mode: None,
    }
}

#[test]
fn lobbies_sort_by_name_stably() {
    let sorted = sort_lobbies_by_name(vec![summary("1", "b"), summary("2", "a"), summary("3", "b"), summary("4", "A")]);
    let ids: Vec<&str> = sorted.iter().map(|l| l.id.as_str()).collect();
    assert_eq!(ids, vec!["4", "2", "1", "3"]);
}

#[test]
fn client_handles_server_messages() {
    let mut client = MultiplayerClient::new("ws://localhost:3000/ws".to_string(), String::new());
    assert!(!client.connected);
    assert!(!client.has_display_name());
    let reply = client.receive(ServerMessage::Welcome { player_id: "p9".to_string() });
    assert!(matches!(reply, Some(ClientMessage::ListLobbies)));
    assert_eq!(client.player_id.as_deref(), Some("p9"));
    assert!(client.connected);
    assert!(client
        .receive(ServerMessage::LobbyList { lobbies: vec![summary("1", "z"), summary("2", "m")] })
        .is_none());
    assert_eq!(client.lobbies[0].name, "m");
    assert_eq!(client.list_revision, 1);
    client.receive(ServerMessage::Error { message: "Lobby not found.".to_string() });
    assert_eq!(client.status, "Lobby not found.");
    let state = LobbyState {
        id: "1".to_string(),
        name: "Den".to_string(),
        host_player_id: "p9".to_string(),
        players: vec![],
        max_players: 8,
        status: LobbyStatus::Waiting,
        mode: Some(GameMode::Standard),
        layout: None,
    };
    client.receive(ServerMessage::LobbyState { lobby: state });
    assert_eq!(client.status, "In lobby: Den");
    client.receive(ServerMessage::GameStarted {
        layout: SharedBoardLayout { mode: GameMode::Standard, seed: None, checkpoints: vec![] },
    });
    assert_eq!(client.status, "Game starting...");
    assert!(client.pending_layout.is_some());
    client.connection_lost();
    assert!(!client.connected);
    assert_eq!(client.status, "Connection closed. Reopen Multiplayer to reconnect.");
}

#[test]
fn menu_flow_to_a_hosted_lobby() {
    let mut game = Game::with_seed(1);
    let mut field = Field::from_board(Board::for_mode_seeded(GameMode::Standard, 1));
    let mut client = MultiplayerClient::new("ws://server/ws".to_string(), String::new());
    let r = handle_menu_action(&mut game, &mut field, &mut client, MenuAction::Play);
    assert_eq!(game.screen, AppScreen::PlayType);
    assert!(r.requests.is_empty() && !r.quit);
    let r = handle_menu_action(&mut game, &mut field, &mut client, MenuAction::Multiplayer);
    assert_eq!(game.screen, AppScreen::MultiplayerMenu);
    assert!(matches!(r.requests.as_slice(), [ClientMessage::ListLobbies]));
    assert!(client.connected);
    handle_menu_action(&mut game, &mut field, &mut client, MenuAction::Host);
    assert_eq!(game.screen, AppScreen::DisplayName);
    assert_eq!(client.pending_name_intent, Some(NameIntent::Host));
    client.display_name_input = "  Quinn ".to_string();
    handle_menu_action(&mut game, &mut field, &mut client, MenuAction::SubmitDisplayName);
    assert_eq!(game.screen, AppScreen::HostLobby);
    assert_eq!(client.display_name, "Quinn");
    let r = handle_menu_action(&mut game, &mut field, &mut client, MenuAction::CreateLobby);
    assert_eq!(game.screen, AppScreen::WaitingLobby);
    assert!(matches!(r.requests.as_slice(),
        [ClientMessage::CreateLobby { player_name, lobby_name }] if player_name == "Quinn" && lobby_name == "Quinn's Lobby"));
    let r = handle_menu_action(&mut game, &mut field, &mut client, MenuAction::LeaveLobby);
    assert_eq!(game.screen, AppScreen::MultiplayerMenu);
    assert!(matches!(r.requests.as_slice(), [ClientMessage::LeaveLobby]));
    let r = handle_menu_action(&mut game, &mut field, &mut client, MenuAction::Quit);
    assert!(r.quit);
}

#[test]
fn menu_starts_single_player_runs() {
    let mut game = Game::with_seed(1);
    let mut field = Field::from_board(Board::for_mode_seeded(GameMode::Standard, 1));
    let mut client = MultiplayerClient::new("ws://server/ws".to_string(), "Ann".to_string());
    handle_menu_action(&mut game, &mut field, &mut client, MenuAction::Random);
    assert_eq!(game.screen, AppScreen::Playing);
    assert_eq!(game.mode, GameMode::Random);
    assert!(field.towers.is_empty());
    toggle_escape_menu(&mut game, false);
    assert!(game.paused);
    toggle_escape_menu(&mut game, true);
    assert!(!game.paused);
    handle_escape_menu_action(&mut game, &mut field, EscapeMenuAction::Home);
    assert_eq!(game.screen, AppScreen::Home);
    let overlay = game.show_path_overlay;
    handle_menu_action(&mut game, &mut field, &mut client, MenuAction::TogglePathOverlay);
    assert_eq!(game.show_path_overlay, !overlay);
    assert_eq!(game.screen, AppScreen::Settings);
}

#[test]
fn joining_a_row_and_starting_from_a_layout() {
    let mut game = Game::with_seed(1);
    let mut field = Field::from_board(Board::for_mode_seeded(GameMode::Standard, 1));
    let mut client = MultiplayerClient::new("ws://server/ws".to_string(), "Ann".to_string());
    let req = join_lobby_row(&mut game, &mut client, "abcd1234".to_string());
    assert!(matches!(req, ClientMessage::JoinLobby { lobby_id, player_name } if lobby_id == "abcd1234" && player_name == "Ann"));
    assert_eq!(game.screen, AppScreen::WaitingLobby);
    assert!(client.connected);
    assert_eq!(client.status, "Connecting to ws://server/ws");
    assert!(!start_multiplayer_game_from_layout(&mut game, &mut field, &mut client));
    client.pending_layout = Some(shared_layout(GameMode::Standard));
    assert!(start_multiplayer_game_from_layout(&mut game, &mut field, &mut client));
    assert_eq!(game.screen, AppScreen::Playing);
    assert_eq!(game.message, "Multiplayer Standard mode: place all five chipped gems, then choose one to keep.");
    assert_eq!(field.board.checkpoints.len(), 4);
    assert!(client.pending_layout.is_none());
}

fn assert_consistent(server: &ServerState) {
    for lobby in &server.lobbies {
        assert!(!lobby.player_ids.is_empty() && lobby.player_ids.len() <= 8);
        assert!(lobby.player_ids.contains(&lobby.host_player_id));
        for (i, id) in lobby.player_ids.iter().enumerate() {
            assert!(!lobby.player_ids[i + 1..].contains(id));
            let player = server.players.iter().find(|p| &p.id == id).expect("member is connected");
            assert_eq!(player.lobby_id.as_deref(), Some(lobby.id.as_str()));
        }
    }
    for player in &server.players {
        if let Some(lid) = &player.lobby_id {
            let lobby = server.lobbies.iter().find(|l| &l.id == lid).expect("recorded lobby exists");
            assert!(lobby.player_ids.contains(&player.id));
        }
    }
}

#[test]
fn requests_keep_lobbies_consistent() {
    let mut server = ServerState::new();
    for id in ["a", "b", "c", "d"] {
        connect(&mut server, id);
        assert_consistent(&server);
    }
    create(&mut server, "a", "A", "one");
    assert_consistent(&server);
    create(&mut server, "b", "B", "two");
    assert_consistent(&server);
    let first = server.player_lobby_id("a").unwrap();
    let second = server.player_lobby_id("b").unwrap();
    join(&mut server, "c", &first, "C");
    assert_consistent(&server);
    join(&mut server, "c", &second, "C");
    assert_consistent(&server);
    assert_eq!(server.lobby_state(&first).unwrap().players.len(), 1);
    join(&mut server, "d", &second, "D");
    server.handle_client_message("b", ClientMessage::LeaveLobby);
    assert_consistent(&server);
    assert_eq!(server.lobby_state(&second).unwrap().host_player_id, "c");
    create(&mut server, "c", "C", "three");
    assert_consistent(&server);
    let mut out = Vec::new();
    server.disconnect_player(&mut out, "d");
    assert_consistent(&server);
    assert!(server.lobby_state(&second).is_none());
}

#[test]
fn a_leavers_snapshot_leaves_with_it() {
    let mut server = ServerState::new();
    for id in ["p1", "p2", "p3"] {
        connect(&mut server, id);
    }
    create(&mut server, "p1", "A", "room");
    let lobby_id = server.lobbies[0].id.clone();
    join(&mut server, "p2", &lobby_id, "B");
    join(&mut server, "p3", &lobby_id, "C");
    server.handle_client_message("p1", ClientMessage::StartGame);
    for who in ["p1", "p2", "p3"] {
        server.handle_client_message(who, ClientMessage::BoardSnapshot { snapshot: snapshot(2) });
    }
    assert_eq!(server.lobbies[0].snapshots.len(), 3);
    server.handle_client_message("p2", ClientMessage::LeaveLobby);
    let keys: Vec<&str> = server.lobbies[0].snapshots.iter().map(|(k, _)| k.as_str()).collect();
    assert_eq!(keys, vec!["p1", "p3"]);
    let mut out = Vec::new();
    server.disconnect_player(&mut out, "p3");
    let keys: Vec<&str> = server.lobbies[0].snapshots.iter().map(|(k, _)| k.as_str()).collect();
    assert_eq!(keys, vec!["p1"]);
    for lobby in &server.lobbies {
        for (key, _) in &lobby.snapshots {
            assert!(lobby.player_ids.contains(key));
        }
    }
}

#[test]
fn random_checkpoints_follow_the_seed() {
    let a = server_random_checkpoints(1);
    let b = server_random_checkpoints(2);
    let c = server_random_checkpoints(3);
    assert!(a != b || b != c);
    assert_eq!(a, server_random_checkpoints(1));
    let spares = vec![
        GridPoint { col: 16, row: 8 },
        GridPoint { col: 16, row: 9 },
        GridPoint { col: 16, row: 10 },
        GridPoint { col: 16, row: 11 },
    ];
    assert_ne!(a, spares);
}

#[test]
fn received_layouts_are_checked_before_use() {
    assert!(layout_points_fit(&server_random_checkpoints(99)));
    assert!(layout_points_fit(&vec![GridPoint { col: 0, row: 0 }, GridPoint { col: 115, row: 67 }]));
    assert!(!layout_points_fit(&vec![GridPoint { col: 24, row: 12 }, GridPoint { col: 116, row: 10 }]));
    assert!(!layout_points_fit(&vec![GridPoint { col: -1, row: 10 }]));
}
