use vstd::prelude::*;

use crate::board::{Board, random_layout, spec_standard_checkpoints};
use crate::client::{ClientView, MultiplayerClient, NameIntent, connecting, requested_lobby_name};
use crate::field::{Field, field_wf};
use crate::game::{AppScreen, Game, GameView, msg_mode, reset_run, spec_mode_name};
use crate::grid::spec_in_bounds;
use crate::route::planned_route;
use crate::lobby::clean_player_name;
use crate::protocol::{ClientMessage, GameMode, GridPoint, RequestView};
use crate::text::{push_str, trim_seq};

verus! {

/// What a menu button does.
#[derive(Clone, Copy, PartialEq, Eq, Structural, Debug)]
pub enum MenuAction {
    Play,
    SinglePlayer,
    Multiplayer,
    Host,
    Join,
    SubmitDisplayName,
    CreateLobby,
    StartMultiplayerGame,
    LeaveLobby,
    Standard,
    Random,
    HowToPlay,
    Settings,
    TogglePathOverlay,
    Quit,
    Home,
}

/// What the caller has to do after a menu click: send `requests` (opening
/// the connection first when the client was not connected) and, on Quit,
/// close the application.
pub struct MenuResponse {
    pub requests: Vec<ClientMessage>,
    pub quit: bool,
}

pub open spec fn requests_view(v: Seq<ClientMessage>) -> Seq<RequestView> {
    v.map_values(|m: ClientMessage| m@)
}

/// The screen a menu button leads to (the game screen for a new run; the
/// same screen for Start and Quit).
pub open spec fn menu_screen(g: GameView, c: ClientView, action: MenuAction) -> AppScreen {
    let named = trim_seq(c.display_name).len() > 0;
    match action {
        MenuAction::Play => AppScreen::PlayType,
        MenuAction::SinglePlayer => AppScreen::ModeSelect,
        MenuAction::Multiplayer => AppScreen::MultiplayerMenu,
        MenuAction::Host => if named { AppScreen::HostLobby } else { AppScreen::DisplayName },
        MenuAction::Join => if named { AppScreen::JoinLobby } else { AppScreen::DisplayName },
        MenuAction::SubmitDisplayName => match c.pending_name_intent {
            Some(NameIntent::Host) => AppScreen::HostLobby,
            Some(NameIntent::Join) => AppScreen::JoinLobby,
            None => AppScreen::MultiplayerMenu,
        },
        MenuAction::CreateLobby => AppScreen::WaitingLobby,
        MenuAction::StartMultiplayerGame => g.screen,
        MenuAction::LeaveLobby => AppScreen::MultiplayerMenu,
        MenuAction::Standard => AppScreen::Playing,
        MenuAction::Random => AppScreen::Playing,
        MenuAction::HowToPlay => AppScreen::HowToPlay,
        MenuAction::Settings => AppScreen::Settings,
        MenuAction::TogglePathOverlay => AppScreen::Settings,
        MenuAction::Quit => g.screen,
        MenuAction::Home => AppScreen::Home,
    }
}

/// What a menu button does to the multiplayer client, and the requests it
/// sends.
pub open spec fn menu_client(c: ClientView, action: MenuAction) -> (ClientView, Seq<RequestView>) {
    let named = trim_seq(c.display_name).len() > 0;
    let left = ClientView { lobby: None, lobby_revision: (c.lobby_revision + 1) as u64, ..c };
    let leave_requests = if c.connected { seq![RequestView::LeaveLobby] } else { Seq::empty() };
    match action {
        MenuAction::Multiplayer => (connecting(c), seq![RequestView::ListLobbies]),
        MenuAction::Host => if named { (c, Seq::empty()) } else { (ClientView { pending_name_intent: Some(NameIntent::Host), ..c }, Seq::empty()) },
        MenuAction::Join => if named {
            (connecting(c), seq![RequestView::ListLobbies])
        } else {
            (ClientView { pending_name_intent: Some(NameIntent::Join), ..c }, Seq::empty())
        },
        MenuAction::SubmitDisplayName => {
            let name = clean_player_name(c.display_name_input);
            let saved = ClientView { display_name: name, display_name_input: name, pending_name_intent: None, ..c };
            if c.pending_name_intent == Some(NameIntent::Join) {
                (connecting(saved), seq![RequestView::ListLobbies])
            } else {
                (saved, Seq::empty())
            }
        },
        MenuAction::CreateLobby => {
            let name = requested_lobby_name(c.lobby_name_input, c.display_name);
            (
                ClientView { lobby_name_input: name, lobby: None, status: "Creating lobby..."@, ..connecting(c) },
                seq![RequestView::CreateLobby { player_name: c.display_name, lobby_name: name }],
            )
        },
        MenuAction::StartMultiplayerGame => (connecting(c), seq![RequestView::StartGame]),
        MenuAction::LeaveLobby => (left, leave_requests),
        MenuAction::Home => (left, leave_requests),
        _ => (c, Seq::empty()),
    }
}


/// What a menu button does to the run's state.
pub open spec fn menu_game(g: GameView, c: ClientView, action: MenuAction) -> GameView {
    let screen = menu_screen(g, c, action);
    match action {
        MenuAction::Standard => GameView { screen, ..reset_run(g, GameMode::Standard) },
        MenuAction::Random => GameView { screen, ..reset_run(g, GameMode::Random) },
        MenuAction::TogglePathOverlay => GameView { show_path_overlay: !g.show_path_overlay, paused: false, screen, ..g },
        MenuAction::Play | MenuAction::SinglePlayer | MenuAction::Multiplayer | MenuAction::HowToPlay
        | MenuAction::Settings | MenuAction::Home => GameView { paused: false, screen, ..g },
        _ => GameView { screen, ..g },
    }
}

/// A field for a new run is empty of towers and walls.
pub open spec fn fresh_field(f: &Field) -> bool {
    &&& field_wf(f)
    &&& f@.towers.len() == 0
    &&& f@.board_towers.len() == 0
    &&& f@.walls == Set::<crate::grid::GridPos>::empty()
    &&& planned_route(f@.path, f@.checkpoints, Set::empty())
}

/// Runs a menu button: the screen changes, a new run starts (on a fresh
/// board) for Standard and Random, and the multiplayer client acts.
pub fn handle_menu_action(game: &mut Game, field: &mut Field, client: &mut MultiplayerClient, action: MenuAction) -> (response: MenuResponse)
    requires
        old(game).wf(),
        field_wf(old(field)),
        old(client).lobby_revision < u64::MAX,
    ensures
        final(game).wf(),
        field_wf(final(field)),
        final(game)@ == menu_game(old(game)@, old(client)@, action),
        final(client)@ == menu_client(old(client)@, action).0,
        requests_view(response.requests@) == menu_client(old(client)@, action).1,
        response.quit == (action == MenuAction::Quit),
        action == MenuAction::Standard || action == MenuAction::Random ==> fresh_field(final(field)),
        action == MenuAction::Standard ==> final(field)@.checkpoints == spec_standard_checkpoints(),
        action == MenuAction::Random ==> exists|seed: u64| final(field)@.checkpoints == #[trigger] random_layout(seed),
        !(action == MenuAction::Standard || action == MenuAction::Random) ==> final(field)@ == old(field)@,
{
    let ghost g0 = game@;
    let ghost c0 = client@;
    let mut requests: Vec<ClientMessage> = Vec::new();
    let mut quit = false;
    match action {
        MenuAction::Play => {
            game.paused = false;
            game.screen = AppScreen::PlayType;
        },
        MenuAction::SinglePlayer => {
            game.paused = false;
            game.screen = AppScreen::ModeSelect;
        },
        MenuAction::Multiplayer => {
            client.ensure_connected();
            requests.push(client.request_lobbies());
            game.paused = false;
            game.screen = AppScreen::MultiplayerMenu;
        },
        MenuAction::Host => {
            if client.has_display_name() {
                game.screen = AppScreen::HostLobby;
            } else {
                client.pending_name_intent = Some(NameIntent::Host);
                game.screen = AppScreen::DisplayName;
            }
        },
        MenuAction::Join => {
            if client.has_display_name() {
                client.ensure_connected();
                requests.push(client.request_lobbies());
                game.screen = AppScreen::JoinLobby;
            } else {
                client.pending_name_intent = Some(NameIntent::Join);
                game.screen = AppScreen::DisplayName;
            }
        },
        MenuAction::SubmitDisplayName => {
            client.save_display_name_from_input();
            let intent = client.pending_name_intent;
            client.pending_name_intent = None;
            match intent {
                Some(NameIntent::Host) => {
                    game.screen = AppScreen::HostLobby;
                },
                Some(NameIntent::Join) => {
                    client.ensure_connected();
                    requests.push(client.request_lobbies());
                    game.screen = AppScreen::JoinLobby;
                },
                None => {
                    game.screen = AppScreen::MultiplayerMenu;
                },
            }
        },
        MenuAction::CreateLobby => {
            client.ensure_connected();
            requests.push(client.create_lobby());
            game.screen = AppScreen::WaitingLobby;
        },
        MenuAction::StartMultiplayerGame => {
            requests.push(client.start_game());
        },
        MenuAction::LeaveLobby => {
            if let Some(request) = client.leave_lobby() {
                requests.push(request);
            }
            game.screen = AppScreen::MultiplayerMenu;
        },
        MenuAction::Standard => {
            field.board.reset_for_mode(GameMode::Standard);
            field.towers = Vec::new();
            game.reset_for_mode(GameMode::Standard);
            game.screen = AppScreen::Playing;
        },
        MenuAction::Random => {
            field.board.reset_for_mode(GameMode::Random);
            field.towers = Vec::new();
            game.reset_for_mode(GameMode::Random);
            game.screen = AppScreen::Playing;
        },
        MenuAction::HowToPlay => {
            game.paused = false;
            game.screen = AppScreen::HowToPlay;
        },
        MenuAction::Settings => {
            game.paused = false;
            game.screen = AppScreen::Settings;
        },
        MenuAction::TogglePathOverlay => {
            game.show_path_overlay = !game.show_path_overlay;
            game.paused = false;
            game.screen = AppScreen::Settings;
        },
        MenuAction::Quit => {
            quit = true;
        },
        MenuAction::Home => {
            if let Some(request) = client.leave_lobby() {
                requests.push(request);
            }
            game.paused = false;
            game.screen = AppScreen::Home;
        },
    }
    proof {
        assert(requests_view(requests@) =~= menu_client(c0, action).1);
    }
    MenuResponse { requests, quit }
}

/// Clicking a lobby row on the lobby browser: ask to join it and wait.
pub fn join_lobby_row(game: &mut Game, client: &mut MultiplayerClient, lobby_id: String) -> (request: ClientMessage)
    requires
        old(game).wf(),
    ensures
        final(game).wf(),
        final(game)@ == (GameView { screen: AppScreen::WaitingLobby, ..old(game)@ }),
        final(client)@ == connecting(ClientView { lobby: None, status: "Joining lobby..."@, ..old(client)@ }),
        request@ == (RequestView::JoinLobby { lobby_id: lobby_id@, player_name: old(client)@.display_name }),
{
    let request = client.join_lobby(lobby_id);
    game.screen = AppScreen::WaitingLobby;
    request
}

/// What the escape menu offers during a run.
#[derive(Clone, Copy, PartialEq, Eq, Structural, Debug)]
pub enum EscapeMenuAction {
    Reset,
    Home,
    HowToPlay,
}

/// Runs an escape-menu button during a run: Reset starts the run over in
/// the same mode on a fresh board, Home leaves for the home screen, and
/// How to Play only toggles an info panel (nothing changes here).
pub fn handle_escape_menu_action(game: &mut Game, field: &mut Field, action: EscapeMenuAction)
    requires
        old(game).wf(),
        field_wf(old(field)),
    ensures
        final(game).wf(),
        field_wf(final(field)),
        old(game).screen != AppScreen::Playing ==> final(game)@ == old(game)@ && final(field)@ == old(field)@,
        old(game).screen == AppScreen::Playing ==> match action {
            EscapeMenuAction::Reset => final(game)@ == reset_run(old(game)@, old(game).mode) && fresh_field(final(field))
                && (old(game).mode == GameMode::Standard ==> final(field)@.checkpoints == spec_standard_checkpoints())
                && (old(game).mode == GameMode::Random ==> exists|seed: u64| final(field)@.checkpoints == #[trigger] random_layout(seed)),
            EscapeMenuAction::Home => final(game)@ == (GameView { paused: false, screen: AppScreen::Home, ..old(game)@ })
                && final(field)@ == old(field)@,
            EscapeMenuAction::HowToPlay => final(game)@ == old(game)@ && final(field)@ == old(field)@,
        },
{
    if game.screen != AppScreen::Playing {
        return;
    }
    match action {
        EscapeMenuAction::Reset => {
            let mode = game.mode;
            field.board.reset_for_mode(mode);
            field.towers = Vec::new();
            game.reset_for_mode(mode);
        },
        EscapeMenuAction::Home => {
            game.paused = false;
            game.screen = AppScreen::Home;
        },
        EscapeMenuAction::HowToPlay => {},
    }
}

/// Escape during a run opens the escape menu (pausing) or closes it
/// (resuming).
pub fn toggle_escape_menu(game: &mut Game, menu_open: bool)
    requires
        old(game).wf(),
    ensures
        final(game).wf(),
        old(game).screen != AppScreen::Playing ==> final(game)@ == old(game)@,
        old(game).screen == AppScreen::Playing ==> final(game)@ == (GameView { paused: !menu_open, ..old(game)@ }),
{
    if game.screen != AppScreen::Playing {
        return;
    }
    game.paused = !menu_open;
}

pub open spec fn msg_multiplayer_mode(mode: GameMode) -> Seq<char> {
    "Multiplayer "@ + spec_mode_name(mode) + " mode: place all five chipped gems, then choose one to keep."@
}

/// A cell list the board can be built on: every cell on the board.
pub open spec fn layout_points_ok(points: Seq<GridPoint>) -> bool {
    forall|i: int| 0 <= i < points.len() ==> spec_in_bounds(
        crate::grid::GridPos { col: (#[trigger] points[i]).col, row: points[i].row })
}

/// Whether a received layout's cells all lie on the board, as starting a
/// run from it needs (the route across an empty board then always exists).
pub fn layout_points_fit(points: &Vec<GridPoint>) -> (ok: bool)
    ensures
        ok == layout_points_ok(points@),
{
    let mut i: usize = 0;
    while i < points.len()
        invariant
            i <= points@.len(),
            forall|t: int| 0 <= t < i ==> spec_in_bounds(
                crate::grid::GridPos { col: (#[trigger] points@[t]).col, row: points@[t].row }),
        decreases points@.len() - i,
    {
        let cell = crate::grid::GridPos::new(points[i].col, points[i].row);
        if !cell.in_bounds() {
            return false;
        }
        i = i + 1;
    }
    true
}

/// Starts the multiplayer run the server announced, if one is pending: a
/// fresh board on the shared checkpoints and a fresh run in its mode.
pub fn start_multiplayer_game_from_layout(game: &mut Game, field: &mut Field, client: &mut MultiplayerClient) -> (started: bool)
    requires
        old(game).wf(),
        field_wf(old(field)),
        old(client).pending_layout matches Some(l) ==> layout_points_ok(l.checkpoints@),
    ensures
        final(game).wf(),
        field_wf(final(field)),
        started == old(client).pending_layout is Some,
        final(client)@ == (ClientView { pending_layout: None, ..old(client)@ }),
        !started ==> final(game)@ == old(game)@ && final(field)@ == old(field)@,
        started ==> ({
            let mode = old(client).pending_layout->0.mode;
            &&& final(game)@ == (GameView { screen: AppScreen::Playing, message: msg_multiplayer_mode(mode), ..reset_run(old(game)@, mode) })
            &&& fresh_field(final(field))
            &&& final(field)@.checkpoints.len() == old(client).pending_layout->0.checkpoints@.len()
            &&& forall|i: int| 0 <= i < final(field)@.checkpoints.len() ==> (#[trigger] final(field)@.checkpoints[i]).col
                == old(client).pending_layout->0.checkpoints@[i].col
                && final(field)@.checkpoints[i].row == old(client).pending_layout->0.checkpoints@[i].row
        }),
{
    let layout = match client.pending_layout.take() {
        Some(l) => l,
        None => return false,
    };
    field.board.reset_for_shared_layout(&layout.checkpoints);
    field.towers = Vec::new();
    game.reset_for_mode(layout.mode);
    let mut message = String::new();
    push_str(&mut message, "Multiplayer ");
    push_str(&mut message, layout.mode.name());
    push_str(&mut message, " mode: place all five chipped gems, then choose one to keep.");
    game.message = message;
    game.screen = AppScreen::Playing;
    true
}

} // verus!
