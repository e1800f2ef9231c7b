use vstd::prelude::*;

use crate::protocol::{
    BoardSnapshot, BoardSnapshotView, ClientMessage, GameMode, RequestView, LayoutView, LobbyPlayer, LobbyPlayerView, LobbyState,
    LobbyStateView, LobbyStatus, LobbySummary, MAX_LOBBY_PLAYERS, MessageView, ServerMessage,
    SharedBoardLayout, SummaryView, duplicate_layout_opt, layout_opt_view, lobby_players_view,
    summaries_view,
};
use crate::external::{is_lower_hex, new_uuid_simple};
use crate::shared_layout::{layout_fits, shared_layout, spec_server_standard_checkpoints};
use crate::text::{push_str, take_chars, take_seq, trim, trim_seq};
use crate::textorder::{
    lemma_seq_lt_asymmetric, lemma_seq_lt_irreflexive, lemma_seq_lt_total, lemma_seq_lt_transitive,
    same_text, seq_lt, str_lt,
};

verus! {

/// Longest display name a player keeps.
pub const MAX_PLAYER_NAME_CHARS: usize = 32;
/// Longest lobby name kept.
pub const MAX_LOBBY_NAME_CHARS: usize = 40;

/// A connected client.
pub struct ConnectedPlayer {
    pub id: String,
    pub name: String,
    pub lobby_id: Option<String>,
}

/// A lobby and the game it hosts.
pub struct Lobby {
    pub id: String,
    pub name: String,
    pub host_player_id: String,
    pub player_ids: Vec<String>,
    pub status: LobbyStatus,
    pub mode: Option<GameMode>,
    pub layout: Option<SharedBoardLayout>,
    pub snapshots: Vec<(String, BoardSnapshot)>,
}

/// Every connected player and every lobby. Lobbies are kept in id order.
pub struct ServerState {
    pub players: Vec<ConnectedPlayer>,
    pub lobbies: Vec<Lobby>,
}

/// A message for one player.
pub struct Outgoing {
    pub to: String,
    pub message: ServerMessage,
}

pub open spec fn opt_text_view(o: Option<String>) -> Option<Seq<char>> {
    match o {
        Some(s) => Some(s@),
        None => None,
    }
}

pub open spec fn texts_view(v: Seq<String>) -> Seq<Seq<char>> {
    v.map_values(|s: String| s@)
}

pub struct PlayerView {
    pub id: Seq<char>,
    pub name: Seq<char>,
    pub lobby_id: Option<Seq<char>>,
}

impl View for ConnectedPlayer {
    type V = PlayerView;

    open spec fn view(&self) -> PlayerView {
        PlayerView { id: self.id@, name: self.name@, lobby_id: opt_text_view(self.lobby_id) }
    }
}

pub open spec fn snapshots_view(v: Seq<(String, BoardSnapshot)>) -> Seq<(Seq<char>, BoardSnapshotView)> {
    v.map_values(|e: (String, BoardSnapshot)| (e.0@, e.1@))
}

pub struct LobbyView {
    pub id: Seq<char>,
    pub name: Seq<char>,
    pub host_player_id: Seq<char>,
    pub player_ids: Seq<Seq<char>>,
    pub status: LobbyStatus,
    pub mode: Option<GameMode>,
    pub layout: Option<LayoutView>,
    pub snapshots: Seq<(Seq<char>, BoardSnapshotView)>,
}

impl View for Lobby {
    type V = LobbyView;

    open spec fn view(&self) -> LobbyView {
        LobbyView {
            id: self.id@,
            name: self.name@,
            host_player_id: self.host_player_id@,
            player_ids: texts_view(self.player_ids@),
            status: self.status,
            mode: self.mode,
            layout: layout_opt_view(self.layout),
            snapshots: snapshots_view(self.snapshots@),
        }
    }
}

pub struct ServerView {
    pub players: Seq<PlayerView>,
    pub lobbies: Seq<LobbyView>,
}

impl View for ServerState {
    type V = ServerView;

    open spec fn view(&self) -> ServerView {
        ServerView {
            players: self.players@.map_values(|p: ConnectedPlayer| p@),
            lobbies: self.lobbies@.map_values(|l: Lobby| l@),
        }
    }
}

pub struct OutView {
    pub to: Seq<char>,
    pub message: MessageView,
}

impl View for Outgoing {
    type V = OutView;

    open spec fn view(&self) -> OutView {
        OutView { to: self.to@, message: self.message@ }
    }
}

pub open spec fn outbox_view(v: Seq<Outgoing>) -> Seq<OutView> {
    v.map_values(|o: Outgoing| o@)
}

/// Player ids are distinct, lobbies are in strictly increasing id order, and
/// each lobby keeps at most one snapshot per player.
pub open spec fn server_wf(s: ServerView) -> bool {
    &&& forall|i: int, j: int| 0 <= i < s.players.len() && 0 <= j < s.players.len() && i != j
        ==> (#[trigger] s.players[i]).id != (#[trigger] s.players[j]).id
    &&& forall|i: int, j: int| 0 <= i < j < s.lobbies.len()
        ==> seq_lt((#[trigger] s.lobbies[i]).id, (#[trigger] s.lobbies[j]).id)
    &&& forall|i: int| 0 <= i < s.lobbies.len() ==> keys_distinct((#[trigger] s.lobbies[i]).snapshots)
}

pub open spec fn keys_distinct(v: Seq<(Seq<char>, BoardSnapshotView)>) -> bool {
    forall|i: int, j: int| 0 <= i < v.len() && 0 <= j < v.len() && i != j ==> (#[trigger] v[i]).0 != (#[trigger] v[j]).0
}

/// The index of the player with id `id`.
pub open spec fn find_player(ps: Seq<PlayerView>, id: Seq<char>) -> Option<int> {
    if exists|i: int| 0 <= i < ps.len() && (#[trigger] ps[i]).id == id {
        Some(choose|i: int| 0 <= i < ps.len() && (#[trigger] ps[i]).id == id)
    } else {
        None
    }
}

/// The index of the lobby with id `id`.
pub open spec fn find_lobby(ls: Seq<LobbyView>, id: Seq<char>) -> Option<int> {
    if exists|i: int| 0 <= i < ls.len() && (#[trigger] ls[i]).id == id {
        Some(choose|i: int| 0 <= i < ls.len() && (#[trigger] ls[i]).id == id)
    } else {
        None
    }
}

/// The display name kept for a requested one: trimmed, at most 32
/// characters, "Player" when nothing is left.
pub open spec fn clean_player_name(raw: Seq<char>) -> Seq<char> {
    let t = trim_seq(raw);
    if t.len() == 0 { "Player"@ } else { take_seq(t, MAX_PLAYER_NAME_CHARS as int) }
}

/// The name a new lobby gets: the trimmed request cut to 40 characters, or
/// "<host name>'s Lobby" when the request is blank.
pub open spec fn clean_lobby_name(s: ServerView, player_id: Seq<char>, raw: Seq<char>) -> Seq<char> {
    let t = trim_seq(raw);
    if t.len() == 0 {
        let host = match find_player(s.players, player_id) {
            Some(i) => s.players[i].name,
            None => "Player"@,
        };
        host + "'s Lobby"@
    } else {
        take_seq(t, MAX_LOBBY_NAME_CHARS as int)
    }
}

pub open spec fn with_player(s: ServerView, i: int, p: PlayerView) -> ServerView {
    ServerView { players: s.players.update(i, p), lobbies: s.lobbies }
}

pub open spec fn with_lobby(s: ServerView, i: int, l: LobbyView) -> ServerView {
    ServerView { players: s.players, lobbies: s.lobbies.update(i, l) }
}

/// `s` with the named player's recorded lobby set to `lobby_id`.
pub open spec fn set_player_lobby(s: ServerView, player_id: Seq<char>, lobby_id: Option<Seq<char>>) -> ServerView {
    match find_player(s.players, player_id) {
        Some(i) => with_player(s, i, PlayerView { lobby_id, ..s.players[i] }),
        None => s,
    }
}

/// `s` with the named player's display name set from `raw`.
pub open spec fn set_player_name(s: ServerView, player_id: Seq<char>, raw: Seq<char>) -> ServerView {
    match find_player(s.players, player_id) {
        Some(i) => with_player(s, i, PlayerView { name: clean_player_name(raw), ..s.players[i] }),
        None => s,
    }
}

/// The lobby the player has recorded, if the player is connected.
pub open spec fn player_lobby_id(s: ServerView, player_id: Seq<char>) -> Option<Seq<char>> {
    match find_player(s.players, player_id) {
        Some(i) => s.players[i].lobby_id,
        None => None,
    }
}

/// The roster entry of a player: connected, in a lobby that exists.
pub open spec fn lobby_player(s: ServerView, player_id: Seq<char>) -> Option<LobbyPlayerView> {
    match find_player(s.players, player_id) {
        Some(pi) => match s.players[pi].lobby_id {
            Some(lid) => match find_lobby(s.lobbies, lid) {
                Some(li) => Some(LobbyPlayerView {
                    id: player_id,
                    name: s.players[pi].name,
                    is_host: s.lobbies[li].host_player_id == player_id,
                }),
                None => None,
            },
            None => None,
        },
        None => None,
    }
}

/// Roster entries for the ids that have one, in order.
pub open spec fn roster(s: ServerView, ids: Seq<Seq<char>>) -> Seq<LobbyPlayerView>
    decreases ids.len(),
{
    if ids.len() == 0 {
        Seq::empty()
    } else {
        let rest = roster(s, ids.drop_last());
        match lobby_player(s, ids.last()) {
            Some(p) => rest.push(p),
            None => rest,
        }
    }
}

pub open spec fn lobby_state(s: ServerView, li: int) -> LobbyStateView {
    let l = s.lobbies[li];
    LobbyStateView {
        id: l.id,
        name: l.name,
        host_player_id: l.host_player_id,
        players: roster(s, l.player_ids),
        max_players: MAX_LOBBY_PLAYERS,
        status: l.status,
        mode: l.mode,
        layout: l.layout,
    }
}

pub open spec fn summary(s: ServerView, l: LobbyView) -> SummaryView {
    SummaryView {
        id: l.id,
        name: l.name,
        host_player_id: l.host_player_id,
        host_name: match find_player(s.players, l.host_player_id) {
            Some(i) => s.players[i].name,
            None => "Host"@,
        },
        player_count: l.player_ids.len() as usize,
        max_players: MAX_LOBBY_PLAYERS,
        status: l.status,
        mode: l.mode,
    }
}

/// One summary per lobby, in id order.
pub open spec fn summaries(s: ServerView) -> Seq<SummaryView> {
    s.lobbies.map_values(|l: LobbyView| summary(s, l))
}

/// `message` for each listed id that belongs to a connected player, in order,
/// skipping `except`.
pub open spec fn deliver(s: ServerView, ids: Seq<Seq<char>>, except: Option<Seq<char>>, message: MessageView) -> Seq<OutView>
    decreases ids.len(),
{
    if ids.len() == 0 {
        Seq::empty()
    } else {
        let rest = deliver(s, ids.drop_last(), except, message);
        let id = ids.last();
        if find_player(s.players, id) is Some && except != Some(id) {
            rest.push(OutView { to: id, message })
        } else {
            rest
        }
    }
}

/// `message` to the player, if connected.
pub open spec fn reply(s: ServerView, player_id: Seq<char>, message: MessageView) -> Seq<OutView> {
    deliver(s, seq![player_id], None, message)
}

/// `message` to the members of the lobby `lobby_id`, if it exists.
pub open spec fn to_lobby(s: ServerView, lobby_id: Seq<char>, except: Option<Seq<char>>, message: MessageView) -> Seq<OutView> {
    match find_lobby(s.lobbies, lobby_id) {
        Some(li) => deliver(s, s.lobbies[li].player_ids, except, message),
        None => Seq::empty(),
    }
}

/// The lobby's state to its members.
pub open spec fn lobby_state_out(s: ServerView, lobby_id: Seq<char>) -> Seq<OutView> {
    match find_lobby(s.lobbies, lobby_id) {
        Some(li) => to_lobby(s, lobby_id, None, MessageView::LobbyState { lobby: lobby_state(s, li) }),
        None => Seq::empty(),
    }
}

/// The lobby list to every connected player.
pub open spec fn lobby_list_out(s: ServerView) -> Seq<OutView> {
    s.players.map_values(|p: PlayerView| OutView { to: p.id, message: MessageView::LobbyList { lobbies: summaries(s) } })
}

pub open spec fn error_out(s: ServerView, player_id: Seq<char>, text: Seq<char>) -> Seq<OutView> {
    reply(s, player_id, MessageView::Error { message: text })
}

/// `ids` without `id`.
pub open spec fn without_id(ids: Seq<Seq<char>>, id: Seq<char>) -> Seq<Seq<char>>
    decreases ids.len(),
{
    if ids.len() == 0 {
        ids
    } else {
        let rest = without_id(ids.drop_last(), id);
        if ids.last() == id { rest } else { rest.push(ids.last()) }
    }
}

/// `snapshots` without the one keyed by `id`.
pub open spec fn without_snapshot(v: Seq<(Seq<char>, BoardSnapshotView)>, id: Seq<char>) -> Seq<(Seq<char>, BoardSnapshotView)>
    decreases v.len(),
{
    if v.len() == 0 {
        v
    } else {
        let rest = without_snapshot(v.drop_last(), id);
        if v.last().0 == id { rest } else { rest.push(v.last()) }
    }
}

/// The player leaves the lobby it recorded: it is taken off the roster and
/// its snapshot dropped; an emptied lobby is closed, otherwise a departing
/// host hands over to the first remaining member.
#[verifier::opaque]
pub open spec fn leave_state(s: ServerView, player_id: Seq<char>) -> ServerView {
    match find_player(s.players, player_id) {
        None => s,
        Some(pi) => match s.players[pi].lobby_id {
            None => s,
            Some(lid) => {
                let s1 = with_player(s, pi, PlayerView { lobby_id: None, ..s.players[pi] });
                match find_lobby(s1.lobbies, lid) {
                    None => s1,
                    Some(li) => {
                        let l = s1.lobbies[li];
                        let members = without_id(l.player_ids, player_id);
                        if members.len() == 0 {
                            ServerView { players: s1.players, lobbies: s1.lobbies.remove(li) }
                        } else {
                            let host = if l.host_player_id == player_id { members[0] } else { l.host_player_id };
                            with_lobby(s1, li, LobbyView {
                                player_ids: members,
                                snapshots: without_snapshot(l.snapshots, player_id),
                                host_player_id: host,
                                ..l
                            })
                        }
                    },
                }
            },
        },
    }
}

/// What leaving announces: the remaining members of a lobby that stays
/// hear who left and get its new state; everyone gets the new lobby list.
pub open spec fn leave_messages(s: ServerView, player_id: Seq<char>) -> Seq<OutView> {
    let t = leave_state(s, player_id);
    match find_player(s.players, player_id) {
        None => Seq::empty(),
        Some(pi) => match s.players[pi].lobby_id {
            None => Seq::empty(),
            Some(lid) => match find_lobby(s.lobbies, lid) {
                None => lobby_list_out(t),
                Some(li) => if without_id(s.lobbies[li].player_ids, player_id).len() == 0 {
                    lobby_list_out(t)
                } else {
                    to_lobby(t, lid, None, MessageView::PlayerLeft { player_id }) + lobby_state_out(t, lid) + lobby_list_out(t)
                },
            },
        },
    }
}

pub open spec fn leave(s: ServerView, player_id: Seq<char>) -> (ServerView, Seq<OutView>) {
    (leave_state(s, player_id), leave_messages(s, player_id))
}

/// `ls` with `l` in its place by id: replacing a lobby with the same id, or
/// inserted before the first lobby whose id sorts after it.
pub open spec fn put_lobby(ls: Seq<LobbyView>, l: LobbyView) -> Seq<LobbyView>
    decreases ls.len(),
{
    if ls.len() == 0 {
        seq![l]
    } else if ls[0].id == l.id {
        ls.update(0, l)
    } else if seq_lt(l.id, ls[0].id) {
        seq![l] + ls
    } else {
        seq![ls[0]] + put_lobby(ls.drop_first(), l)
    }
}

/// The index of the snapshot keyed by `id`.
pub open spec fn find_snapshot(v: Seq<(Seq<char>, BoardSnapshotView)>, id: Seq<char>) -> Option<int> {
    if exists|i: int| 0 <= i < v.len() && (#[trigger] v[i]).0 == id {
        Some(choose|i: int| 0 <= i < v.len() && (#[trigger] v[i]).0 == id)
    } else {
        None
    }
}

/// `v` with the snapshot for `id` replaced, or added at the end.
pub open spec fn put_snapshot(v: Seq<(Seq<char>, BoardSnapshotView)>, id: Seq<char>, snapshot: BoardSnapshotView) -> Seq<(Seq<char>, BoardSnapshotView)> {
    match find_snapshot(v, id) {
        Some(i) => v.update(i, (id, snapshot)),
        None => v.push((id, snapshot)),
    }
}

/// A new connection: the player is registered as "Player" in no lobby (a
/// player with the same id is replaced) and welcomed.
pub open spec fn connect(s: ServerView, player_id: Seq<char>) -> (ServerView, Seq<OutView>) {
    let p = PlayerView { id: player_id, name: "Player"@, lobby_id: None };
    let players = match find_player(s.players, player_id) {
        Some(i) => s.players.update(i, p),
        None => s.players.push(p),
    };
    (ServerView { players, lobbies: s.lobbies }, seq![OutView { to: player_id, message: MessageView::Welcome { player_id } }])
}

/// A closed connection: the player leaves its lobby and is forgotten.
pub open spec fn disconnect(s: ServerView, player_id: Seq<char>) -> (ServerView, Seq<OutView>) {
    let (s1, out) = leave(s, player_id);
    match find_player(s1.players, player_id) {
        Some(i) => (ServerView { players: s1.players.remove(i), lobbies: s1.lobbies }, out),
        None => (s1, out),
    }
}

pub open spec fn list_lobbies(s: ServerView, player_id: Seq<char>) -> (ServerView, Seq<OutView>) {
    (s, reply(s, player_id, MessageView::LobbyList { lobbies: summaries(s) }))
}

/// The player leaves its lobby and gets the list again.
pub open spec fn leave_request(s: ServerView, player_id: Seq<char>) -> (ServerView, Seq<OutView>) {
    let (s1, out) = leave(s, player_id);
    (s1, out + lobby_list_out(s1))
}

/// The player leaves its lobby, takes the name, and opens a new lobby with
/// id `lobby_id`, hosting it alone in Standard mode.
pub open spec fn create_lobby(s: ServerView, player_id: Seq<char>, player_name: Seq<char>, lobby_name: Seq<char>, lobby_id: Seq<char>) -> (ServerView, Seq<OutView>) {
    let (s1, o1) = leave(s, player_id);
    let s2 = set_player_name(s1, player_id, player_name);
    let lobby = LobbyView {
        id: lobby_id,
        name: clean_lobby_name(s2, player_id, lobby_name),
        host_player_id: player_id,
        player_ids: seq![player_id],
        status: LobbyStatus::Waiting,
        mode: Some(GameMode::Standard),
        layout: None,
        snapshots: Seq::empty(),
    };
    let s3 = ServerView { players: s2.players, lobbies: put_lobby(s2.lobbies, lobby) };
    let s4 = set_player_lobby(s3, player_id, Some(lobby_id));
    (s4, o1 + lobby_state_out(s4, lobby_id) + lobby_list_out(s4))
}

/// The player enters `lobby_id` unless it does not exist, has
/// started, or is full; the lobby hears of it and everyone gets the list.
pub open spec fn enter_lobby(s: ServerView, player_id: Seq<char>, lobby_id: Seq<char>) -> (ServerView, Seq<OutView>) {
    match find_lobby(s.lobbies, lobby_id) {
        None => (s, error_out(s, player_id, "Lobby not found."@)),
        Some(li) => {
            let l = s.lobbies[li];
            if l.status != LobbyStatus::Waiting {
                (s, error_out(s, player_id, "That lobby has already started."@))
            } else if l.player_ids.len() >= MAX_LOBBY_PLAYERS && !l.player_ids.contains(player_id) {
                (s, error_out(s, player_id, "That lobby is full."@))
            } else {
                let s3 = if l.player_ids.contains(player_id) {
                    s
                } else {
                    with_lobby(s, li, LobbyView { player_ids: l.player_ids.push(player_id), ..l })
                };
                let s4 = set_player_lobby(s3, player_id, Some(lobby_id));
                let joined = match lobby_player(s4, player_id) {
                    Some(p) => to_lobby(s4, lobby_id, None, MessageView::PlayerJoined { player: p }),
                    None => Seq::empty(),
                };
                (s4, joined + lobby_state_out(s4, lobby_id) + lobby_list_out(s4))
            }
        },
    }
}

/// The player leaves its lobby, takes the name, and asks to join `lobby_id`.
pub open spec fn join_lobby(s: ServerView, player_id: Seq<char>, lobby_id: Seq<char>, player_name: Seq<char>) -> (ServerView, Seq<OutView>) {
    let (s1, o1) = leave(s, player_id);
    let s2 = set_player_name(s1, player_id, player_name);
    let (s3, o2) = enter_lobby(s2, player_id, lobby_id);
    (s3, o1 + o2)
}

/// The host of a waiting lobby picks its mode.
pub open spec fn set_mode(s: ServerView, player_id: Seq<char>, mode: GameMode) -> (ServerView, Seq<OutView>) {
    match player_lobby_id(s, player_id) {
        None => (s, error_out(s, player_id, "You are not in a lobby."@)),
        Some(lid) => match find_lobby(s.lobbies, lid) {
            None => (s, error_out(s, player_id, "Lobby not found."@)),
            Some(li) => {
                let l = s.lobbies[li];
                if l.host_player_id != player_id {
                    (s, error_out(s, player_id, "Only the host can set the mode."@))
                } else if l.status != LobbyStatus::Waiting {
                    (s, error_out(s, player_id, "The game has already started."@))
                } else {
                    let s1 = with_lobby(s, li, LobbyView { mode: Some(mode), ..l });
                    (s1, lobby_state_out(s1, lid))
                }
            },
        },
    }
}

/// The mode a lobby's game starts in: its chosen mode, Standard when unset.
pub open spec fn start_mode(s: ServerView, player_id: Seq<char>) -> GameMode {
    match player_lobby_id(s, player_id) {
        Some(lid) => match find_lobby(s.lobbies, lid) {
            Some(li) => match s.lobbies[li].mode {
                Some(m) => m,
                None => GameMode::Standard,
            },
            None => GameMode::Standard,
        },
        None => GameMode::Standard,
    }
}

/// The host starts the game on `layout`: the lobby is in game with that
/// layout and every member is told.
pub open spec fn start_game(s: ServerView, player_id: Seq<char>, layout: LayoutView) -> (ServerView, Seq<OutView>) {
    match player_lobby_id(s, player_id) {
        None => (s, error_out(s, player_id, "You are not in a lobby."@)),
        Some(lid) => match find_lobby(s.lobbies, lid) {
            None => (s, error_out(s, player_id, "Lobby not found."@)),
            Some(li) => {
                let l = s.lobbies[li];
                if l.host_player_id != player_id {
                    (s, error_out(s, player_id, "Only the host can start the game."@))
                } else {
                    let s1 = with_lobby(s, li, LobbyView { status: LobbyStatus::InGame, layout: Some(layout), ..l });
                    (s1, to_lobby(s1, lid, None, MessageView::GameStarted { layout }) + lobby_state_out(s1, lid))
                }
            },
        },
    }
}

/// A player in a running game shares its board: it is kept and relayed to
/// the other members.
pub open spec fn board_snapshot(s: ServerView, player_id: Seq<char>, snapshot: BoardSnapshotView) -> (ServerView, Seq<OutView>) {
    match player_lobby_id(s, player_id) {
        None => (s, error_out(s, player_id, "You are not in a lobby."@)),
        Some(lid) => match find_lobby(s.lobbies, lid) {
            None => (s, error_out(s, player_id, "Lobby not found."@)),
            Some(li) => {
                let l = s.lobbies[li];
                if l.status != LobbyStatus::InGame {
                    (s, error_out(s, player_id, "The game has not started."@))
                } else {
                    let s1 = with_lobby(s, li, LobbyView { snapshots: put_snapshot(l.snapshots, player_id, snapshot), ..l });
                    (s1, to_lobby(s1, lid, Some(player_id), MessageView::PlayerSnapshot { player_id, snapshot }))
                }
            },
        },
    }
}

/// A lobby id as `short_id` makes them: eight lowercase hex digits.
pub open spec fn is_short_id(id: Seq<char>) -> bool {
    id.len() == 8 && forall|i: int| 0 <= i < 8 ==> is_lower_hex(#[trigger] id[i])
}

/// The layout passed along with requests that start no game; they do not
/// read it.
pub open spec fn idle_layout(mode: GameMode) -> LayoutView {
    LayoutView { mode, seed: None, checkpoints: spec_server_standard_checkpoints() }
}

/// What a request does, given the lobby id a new lobby gets and the layout a
/// started game gets.
pub open spec fn handle(s: ServerView, player_id: Seq<char>, request: RequestView, new_lobby_id: Seq<char>, layout: LayoutView) -> (ServerView, Seq<OutView>) {
    match request {
        RequestView::ListLobbies => list_lobbies(s, player_id),
        RequestView::CreateLobby { player_name, lobby_name } => create_lobby(s, player_id, player_name, lobby_name, new_lobby_id),
        RequestView::JoinLobby { lobby_id, player_name } => join_lobby(s, player_id, lobby_id, player_name),
        RequestView::LeaveLobby => leave_request(s, player_id),
        RequestView::SetMode { mode } => set_mode(s, player_id, mode),
        RequestView::StartGame => start_game(s, player_id, layout),
        RequestView::BoardSnapshot { snapshot } => board_snapshot(s, player_id, snapshot),
    }
}

pub open spec fn except_view(except: Option<&str>) -> Option<Seq<char>> {
    match except {
        Some(e) => Some(e@),
        None => None,
    }
}

pub proof fn lemma_outbox_push(v: Seq<Outgoing>, o: Outgoing)
    ensures
        outbox_view(v.push(o)) == outbox_view(v).push(o@),
{
    assert(outbox_view(v.push(o)) =~= outbox_view(v).push(o@));
}

/// `ids` without `id`, in order.
pub fn without_id_exec(ids: &Vec<String>, id: &str) -> (rest: Vec<String>)
    ensures
        texts_view(rest@) == without_id(texts_view(ids@), id@),
{
    let ghost all = texts_view(ids@);
    let mut rest: Vec<String> = Vec::new();
    let mut i: usize = 0;
    while i < ids.len()
        invariant
            i <= ids@.len(),
            all == texts_view(ids@),
            texts_view(rest@) == without_id(all.subrange(0, i as int), id@),
        decreases ids@.len() - i,
    {
        proof {
            assert(all.subrange(0, i + 1).drop_last() =~= all.subrange(0, i as int));
            assert(all.subrange(0, i + 1).last() == ids@[i as int]@);
        }
        if !same_text(ids[i].as_str(), id) {
            let ghost before = rest@;
            rest.push(ids[i].clone());
            proof {
                assert(texts_view(rest@) =~= texts_view(before).push(ids@[i as int]@));
            }
        }
        i = i + 1;
    }
    proof {
        assert(all.subrange(0, all.len() as int) =~= all);
    }
    rest
}

/// `v` without the snapshot keyed by `id`, in order.
pub fn without_snapshot_exec(v: &Vec<(String, BoardSnapshot)>, id: &str) -> (rest: Vec<(String, BoardSnapshot)>)
    ensures
        snapshots_view(rest@) == without_snapshot(snapshots_view(v@), id@),
{
    let ghost all = snapshots_view(v@);
    let mut kept: Vec<(String, BoardSnapshot)> = Vec::new();
    let mut i: usize = 0;
    while i < v.len()
        invariant
            i <= v@.len(),
            all == snapshots_view(v@),
            snapshots_view(kept@) == without_snapshot(all.subrange(0, i as int), id@),
        decreases v@.len() - i,
    {
        proof {
            assert(all.subrange(0, i + 1).drop_last() =~= all.subrange(0, i as int));
            assert(all.subrange(0, i + 1).last() == (v@[i as int].0@, v@[i as int].1@));
        }
        let entry = &v[i];
        if !same_text(entry.0.as_str(), id) {
            let ghost before = kept@;
            let copy = (entry.0.clone(), entry.1.duplicate());
            kept.push(copy);
            proof {
                assert(snapshots_view(kept@) =~= snapshots_view(before).push((entry.0@, entry.1@)));
            }
        }
        i = i + 1;
    }
    proof {
        assert(all.subrange(0, all.len() as int) =~= all);
    }
    kept
}

proof fn lemma_without_snapshot(v: Seq<(Seq<char>, BoardSnapshotView)>, id: Seq<char>)
    requires
        keys_distinct(v),
    ensures
        keys_distinct(without_snapshot(v, id)),
        forall|k: int| 0 <= k < without_snapshot(v, id).len() ==> v.contains(#[trigger] without_snapshot(v, id)[k]),
    decreases v.len(),
{
    if v.len() > 0 {
        let d = v.drop_last();
        assert(keys_distinct(d)) by {
            assert forall|i: int, j: int| 0 <= i < d.len() && 0 <= j < d.len() && i != j implies (#[trigger] d[i]).0 != (#[trigger] d[j]).0 by {
                assert(d[i] == v[i] && d[j] == v[j]);
            }
        }
        lemma_without_snapshot(d, id);
        let rest = without_snapshot(d, id);
        let r = without_snapshot(v, id);
        assert forall|k: int| 0 <= k < rest.len() implies v.contains(#[trigger] rest[k]) by {
            assert(d.contains(rest[k]));
            let j = choose|j: int| 0 <= j < d.len() && d[j] == rest[k];
            assert(v[j] == rest[k]);
        }
        if v.last().0 != id {
            assert forall|k: int| 0 <= k < rest.len() implies (#[trigger] rest[k]).0 != v.last().0 by {
                assert(d.contains(rest[k]));
                let j = choose|j: int| 0 <= j < d.len() && d[j] == rest[k];
                assert(v[j] == rest[k]);
                assert(j != v.len() - 1);
            }
            assert(r == rest.push(v.last()));
            assert forall|k: int| 0 <= k < r.len() implies v.contains(#[trigger] r[k]) by {
                if k < rest.len() {
                    assert(r[k] == rest[k]);
                } else {
                    assert(r[k] == v[v.len() - 1]);
                }
            }
            assert forall|i: int, j: int| 0 <= i < r.len() && 0 <= j < r.len() && i != j implies (#[trigger] r[i]).0 != (#[trigger] r[j]).0 by {
                if i < rest.len() && j < rest.len() {
                    assert(r[i] == rest[i] && r[j] == rest[j]);
                } else if i < rest.len() {
                    assert(r[i] == rest[i] && r[j] == v.last());
                } else {
                    assert(r[j] == rest[j] && r[i] == v.last());
                }
            }
        }
    }
}

pub open spec fn ids_sorted(ls: Seq<LobbyView>) -> bool {
    forall|i: int, j: int| 0 <= i < j < ls.len() ==> seq_lt((#[trigger] ls[i]).id, (#[trigger] ls[j]).id)
}

proof fn lemma_put_lobby_at(ls: Seq<LobbyView>, l: LobbyView, i: int)
    requires
        ids_sorted(ls),
        0 <= i <= ls.len(),
        forall|k: int| 0 <= k < i ==> seq_lt((#[trigger] ls[k]).id, l.id),
        i < ls.len() ==> !seq_lt(ls[i].id, l.id),
    ensures
        put_lobby(ls, l) == (if i < ls.len() && ls[i].id == l.id { ls.update(i, l) } else { ls.insert(i, l) }),
        ids_sorted(put_lobby(ls, l)),
    decreases i,
{
    if i == 0 {
        if ls.len() == 0 {
            assert(seq![l] =~= ls.insert(0, l));
        } else if ls[0].id == l.id {
        } else {
            lemma_seq_lt_total(l.id, ls[0].id);
            assert(seq![l] + ls =~= ls.insert(0, l));
            let r = ls.insert(0, l);
            assert forall|a: int, b: int| 0 <= a < b < r.len() implies seq_lt((#[trigger] r[a]).id, (#[trigger] r[b]).id) by {
                if a == 0 {
                    if b > 1 {
                        lemma_seq_lt_transitive(l.id, ls[0].id, ls[b - 1].id);
                    }
                } else {
                    assert(r[a] == ls[a - 1] && r[b] == ls[b - 1]);
                }
            }
        }
    } else {
        let d = ls.drop_first();
        lemma_seq_lt_irreflexive(l.id);
        lemma_seq_lt_asymmetric(ls[0].id, l.id);
        assert(ids_sorted(d)) by {
            assert forall|a: int, b: int| 0 <= a < b < d.len() implies seq_lt((#[trigger] d[a]).id, (#[trigger] d[b]).id) by {
                assert(d[a] == ls[a + 1] && d[b] == ls[b + 1]);
            }
        }
        assert forall|k: int| 0 <= k < i - 1 implies seq_lt((#[trigger] d[k]).id, l.id) by {
            assert(d[k] == ls[k + 1]);
        }
        lemma_put_lobby_at(d, l, i - 1);
        assert(ls[0].id != l.id);
        if i < ls.len() && ls[i].id == l.id {
            assert(seq![ls[0]] + d.update(i - 1, l) =~= ls.update(i, l));
        } else {
            assert(seq![ls[0]] + d.insert(i - 1, l) =~= ls.insert(i, l));
        }
        let r = put_lobby(ls, l);
        let rd = put_lobby(d, l);
        assert(r == seq![ls[0]] + rd);
        assert forall|a: int, b: int| 0 <= a < b < r.len() implies seq_lt((#[trigger] r[a]).id, (#[trigger] r[b]).id) by {
            if a == 0 {
                assert(r[b] == rd[b - 1]);
                if i < ls.len() && ls[i].id == l.id {
                    assert(rd == d.update(i - 1, l));
                    if b - 1 == i - 1 {
                        assert(seq_lt(ls[0].id, l.id));
                    } else {
                        assert(rd[b - 1] == d[b - 1]);
                        assert(d[b - 1] == ls[b]);
                    }
                } else {
                    assert(rd == d.insert(i - 1, l));
                    if b - 1 < i - 1 {
                        assert(rd[b - 1] == d[b - 1]);
                        assert(d[b - 1] == ls[b]);
                    } else if b - 1 == i - 1 {
                        assert(rd[b - 1] == l);
                    } else {
                        assert(rd[b - 1] == d[b - 2]);
                        assert(d[b - 2] == ls[b - 1]);
                    }
                }
            } else {
                assert(r[a] == rd[a - 1] && r[b] == rd[b - 1]);
            }
        }
    }
}

/// Whether `id` is listed in `ids`.
pub fn lists_id(ids: &Vec<String>, id: &str) -> (found: bool)
    ensures
        found == texts_view(ids@).contains(id@),
{
    let mut i: usize = 0;
    while i < ids.len()
        invariant
            i <= ids@.len(),
            forall|k: int| 0 <= k < i ==> (#[trigger] ids@[k])@ != id@,
        decreases ids@.len() - i,
    {
        if same_text(ids[i].as_str(), id) {
            assert(texts_view(ids@)[i as int] == id@);
            return true;
        }
        i = i + 1;
    }
    proof {
        if texts_view(ids@).contains(id@) {
            let k = choose|k: int| 0 <= k < texts_view(ids@).len() && texts_view(ids@)[k] == id@;
            assert(ids@[k]@ == id@);
        }
    }
    false
}

/// The name of a new lobby: the trimmed request cut to 40 characters, or
/// "<host name>'s Lobby" when blank.
pub fn sanitize_lobby_name(lobby_name: String, player_id: &str, server: &ServerState) -> (name: String)
    requires
        server_wf(server@),
    ensures
        name@ == clean_lobby_name(server@, player_id@, lobby_name@),
{
    let trimmed = trim(lobby_name.as_str());
    if trimmed.as_str().unicode_len() == 0 {
        let mut name = match server.player_index(player_id) {
            Some(i) => server.players[i].name.clone(),
            None => {
                let mut p = String::new();
                push_str(&mut p, "Player");
                p
            },
        };
        push_str(&mut name, "'s Lobby");
        name
    } else {
        take_chars(trimmed.as_str(), MAX_LOBBY_NAME_CHARS)
    }
}

proof fn lemma_with_lobby_wf(s: ServerView, li: int, l: LobbyView)
    requires
        server_wf(s),
        0 <= li < s.lobbies.len(),
        l.id == s.lobbies[li].id,
        keys_distinct(l.snapshots),
    ensures
        server_wf(with_lobby(s, li, l)),
{
    let ls = with_lobby(s, li, l).lobbies;
    assert forall|a: int, b: int| 0 <= a < b < ls.len() implies seq_lt((#[trigger] ls[a]).id, (#[trigger] ls[b]).id) by {
        assert(ls[a].id == s.lobbies[a].id && ls[b].id == s.lobbies[b].id);
    }
    assert forall|k: int| 0 <= k < ls.len() implies keys_distinct((#[trigger] ls[k]).snapshots) by {
        if k != li {
            assert(ls[k] == s.lobbies[k]);
        }
    }
}

/// A fresh lobby id: the first eight hex digits of a random UUID.
pub fn short_id() -> (id: String)
    ensures
        is_short_id(id@),
{
    let full = new_uuid_simple();
    take_chars(full.as_str(), 8)
}

impl ServerState {
    /// No players and no lobbies.
    pub fn new() -> (server: ServerState)
        ensures
            server_wf(server@),
            server@.players.len() == 0,
            server@.lobbies.len() == 0,
    {
        ServerState { players: Vec::new(), lobbies: Vec::new() }
    }

    fn player_index(&self, id: &str) -> (r: Option<usize>)
        requires
            server_wf(self@),
        ensures
            r matches Some(i) ==> i < self.players@.len() && find_player(self@.players, id@) == Some(i as int),
            r is None ==> find_player(self@.players, id@) is None,
    {
        let mut i: usize = 0;
        while i < self.players.len()
            invariant
                server_wf(self@),
                i <= self.players@.len(),
                forall|k: int| 0 <= k < i ==> (#[trigger] self@.players[k]).id != id@,
            decreases self.players@.len() - i,
        {
            if same_text(self.players[i].id.as_str(), id) {
                proof {
                    assert(self@.players[i as int].id == id@);
                    let k = choose|k: int| 0 <= k < self@.players.len() && (#[trigger] self@.players[k]).id == id@;
                    assert(k == i);
                }
                return Some(i);
            }
            i = i + 1;
        }
        None
    }

    fn lobby_index(&self, id: &str) -> (r: Option<usize>)
        requires
            server_wf(self@),
        ensures
            r matches Some(i) ==> i < self.lobbies@.len() && find_lobby(self@.lobbies, id@) == Some(i as int),
            r is None ==> find_lobby(self@.lobbies, id@) is None,
    {
        let mut i: usize = 0;
        while i < self.lobbies.len()
            invariant
                server_wf(self@),
                i <= self.lobbies@.len(),
                forall|k: int| 0 <= k < i ==> (#[trigger] self@.lobbies[k]).id != id@,
            decreases self.lobbies@.len() - i,
        {
            if same_text(self.lobbies[i].id.as_str(), id) {
                proof {
                    assert(self@.lobbies[i as int].id == id@);
                    let k = choose|k: int| 0 <= k < self@.lobbies.len() && (#[trigger] self@.lobbies[k]).id == id@;
                    if k != i {
                        lemma_seq_lt_irreflexive(id@);
                        if k < i {
                            assert(seq_lt(self@.lobbies[k].id, self@.lobbies[i as int].id));
                        } else {
                            assert(seq_lt(self@.lobbies[i as int].id, self@.lobbies[k].id));
                        }
                    }
                }
                return Some(i);
            }
            i = i + 1;
        }
        None
    }

    /// The lobby the player has recorded.
    pub fn player_lobby_id(&self, player_id: &str) -> (lobby_id: Option<String>)
        requires
            server_wf(self@),
        ensures
            opt_text_view(lobby_id) == player_lobby_id(self@, player_id@),
    {
        match self.player_index(player_id) {
            Some(i) => match &self.players[i].lobby_id {
                Some(l) => Some(l.clone()),
                None => None,
            },
            None => None,
        }
    }

    /// The player's roster entry, if it is in a lobby that exists.
    pub fn lobby_player(&self, player_id: &str) -> (player: Option<LobbyPlayer>)
        requires
            server_wf(self@),
        ensures
            match player {
                Some(p) => lobby_player(self@, player_id@) == Some(p@),
                None => lobby_player(self@, player_id@) is None,
            },
    {
        let pi = match self.player_index(player_id) {
            Some(i) => i,
            None => return None,
        };
        let player = &self.players[pi];
        let lobby_id = match &player.lobby_id {
            Some(l) => l,
            None => return None,
        };
        let li = match self.lobby_index(lobby_id.as_str()) {
            Some(i) => i,
            None => return None,
        };
        let is_host = same_text(self.lobbies[li].host_player_id.as_str(), player_id);
        Some(LobbyPlayer { id: player_id.to_owned(), name: player.name.clone(), is_host })
    }

    /// One summary per lobby, in id order.
    pub fn lobby_summaries(&self) -> (list: Vec<LobbySummary>)
        requires
            server_wf(self@),
        ensures
            summaries_view(list@) == summaries(self@),
    {
        let mut list: Vec<LobbySummary> = Vec::new();
        let mut i: usize = 0;
        while i < self.lobbies.len()
            invariant
                server_wf(self@),
                i <= self.lobbies@.len(),
                list@.len() == i,
                forall|k: int| 0 <= k < i ==> (#[trigger] list@[k])@ == summary(self@, self@.lobbies[k]),
            decreases self.lobbies@.len() - i,
        {
            let lobby = &self.lobbies[i];
            let host_name = match self.player_index(lobby.host_player_id.as_str()) {
                Some(pi) => self.players[pi].name.clone(),
                None => {
                    let mut h = String::new();
                    push_str(&mut h, "Host");
                    h
                },
            };
            let item = LobbySummary {
                id: lobby.id.clone(),
                name: lobby.name.clone(),
                host_player_id: lobby.host_player_id.clone(),
                host_name,
                player_count: lobby.player_ids.len(),
                max_players: MAX_LOBBY_PLAYERS,
                status: lobby.status,
                mode: lobby.mode,
            };
            list.push(item);
            i = i + 1;
        }
        assert(summaries_view(list@) =~= summaries(self@));
        list
    }

    /// The full state of the lobby `lobby_id`, if it exists.
    pub fn lobby_state(&self, lobby_id: &str) -> (state: Option<LobbyState>)
        requires
            server_wf(self@),
        ensures
            match find_lobby(self@.lobbies, lobby_id@) {
                Some(li) => state matches Some(st) && st@ == lobby_state(self@, li),
                None => state is None,
            },
    {
        let li = match self.lobby_index(lobby_id) {
            Some(i) => i,
            None => return None,
        };
        let lobby = &self.lobbies[li];
        let ghost ids = self@.lobbies[li as int].player_ids;
        let mut players: Vec<LobbyPlayer> = Vec::new();
        let mut i: usize = 0;
        while i < lobby.player_ids.len()
            invariant
                server_wf(self@),
                li < self.lobbies@.len(),
                *lobby == self.lobbies@[li as int],
                ids == texts_view(lobby.player_ids@),
                i <= lobby.player_ids@.len(),
                lobby_players_view(players@) == roster(self@, ids.subrange(0, i as int)),
            decreases lobby.player_ids@.len() - i,
        {
            let entry = self.lobby_player(lobby.player_ids[i].as_str());
            proof {
                assert(ids.subrange(0, i + 1).drop_last() =~= ids.subrange(0, i as int));
                assert(ids.subrange(0, i + 1).last() == lobby.player_ids@[i as int]@);
            }
            match entry {
                Some(p) => {
                    let ghost before = players@;
                    players.push(p);
                    proof {
                        assert(lobby_players_view(players@) =~= lobby_players_view(before).push(p@));
                    }
                },
                None => {},
            }
            i = i + 1;
        }
        proof {
            assert(ids.subrange(0, ids.len() as int) =~= ids);
        }
        Some(LobbyState {
            id: lobby.id.clone(),
            name: lobby.name.clone(),
            host_player_id: lobby.host_player_id.clone(),
            players,
            max_players: MAX_LOBBY_PLAYERS,
            status: lobby.status,
            mode: lobby.mode,
            layout: duplicate_layout_opt(&lobby.layout),
        })
    }

    fn deliver(&self, out: &mut Vec<Outgoing>, ids: &Vec<String>, except: Option<&str>, message: &ServerMessage)
        requires
            server_wf(self@),
        ensures
            outbox_view(final(out)@) == outbox_view(old(out)@) + deliver(self@, texts_view(ids@), except_view(except), message@),
    {
        let ghost start = outbox_view(out@);
        let ghost all = texts_view(ids@);
        let mut i: usize = 0;
        while i < ids.len()
            invariant
                server_wf(self@),
                i <= ids@.len(),
                all == texts_view(ids@),
                outbox_view(out@) == start + deliver(self@, all.subrange(0, i as int), except_view(except), message@),
            decreases ids@.len() - i,
        {
            let id = ids[i].as_str();
            proof {
                assert(all.subrange(0, i + 1).drop_last() =~= all.subrange(0, i as int));
                assert(all.subrange(0, i + 1).last() == id@);
            }
            let excluded = match except {
                Some(e) => same_text(e, id),
                None => false,
            };
            let connected = self.player_index(id).is_some();
            if connected && !excluded {
                let item = Outgoing { to: ids[i].clone(), message: message.duplicate() };
                proof {
                    lemma_outbox_push(out@, item);
                }
                out.push(item);
                proof {
                    assert(start + deliver(self@, all.subrange(0, i + 1), except_view(except), message@)
                        =~= (start + deliver(self@, all.subrange(0, i as int), except_view(except), message@)).push(item@));
                }
            }
            i = i + 1;
        }
        proof {
            assert(all.subrange(0, all.len() as int) =~= all);
        }
    }

    /// Queues `message` for the player, if connected.
    pub fn send_to_player(&self, out: &mut Vec<Outgoing>, player_id: &str, message: ServerMessage)
        requires
            server_wf(self@),
        ensures
            outbox_view(final(out)@) == outbox_view(old(out)@) + reply(self@, player_id@, message@),
    {
        proof {
            assert(seq![player_id@].drop_last() =~= Seq::<Seq<char>>::empty());
            assert(deliver(self@, Seq::<Seq<char>>::empty(), None, message@) == Seq::<OutView>::empty());
        }
        if self.player_index(player_id).is_some() {
            let item = Outgoing { to: player_id.to_owned(), message };
            proof {
                lemma_outbox_push(out@, item);
            }
            out.push(item);
            proof {
                assert(outbox_view(out@) =~= outbox_view(old(out)@) + reply(self@, player_id@, message@));
            }
        } else {
            assert(outbox_view(out@) =~= outbox_view(old(out)@) + reply(self@, player_id@, message@));
        }
    }

    /// Queues an error message for the player.
    pub fn send_error(&self, out: &mut Vec<Outgoing>, player_id: &str, text: &str)
        requires
            server_wf(self@),
        ensures
            outbox_view(final(out)@) == outbox_view(old(out)@) + error_out(self@, player_id@, text@),
    {
        self.send_to_player(out, player_id, ServerMessage::Error { message: text.to_owned() });
    }

    /// Queues the lobby list for every connected player.
    pub fn broadcast_lobby_list(&self, out: &mut Vec<Outgoing>)
        requires
            server_wf(self@),
        ensures
            outbox_view(final(out)@) == outbox_view(old(out)@) + lobby_list_out(self@),
    {
        let lobbies = self.lobby_summaries();
        let ghost start = outbox_view(out@);
        let mut i: usize = 0;
        while i < self.players.len()
            invariant
                server_wf(self@),
                i <= self.players@.len(),
                summaries_view(lobbies@) == summaries(self@),
                outbox_view(out@) == start + lobby_list_out(self@).subrange(0, i as int),
            decreases self.players@.len() - i,
        {
            let item = Outgoing {
                to: self.players[i].id.clone(),
                message: ServerMessage::LobbyList { lobbies: crate::protocol::duplicate_summaries(&lobbies) },
            };
            proof {
                lemma_outbox_push(out@, item);
            }
            out.push(item);
            proof {
                assert(lobby_list_out(self@).subrange(0, i + 1) =~= lobby_list_out(self@).subrange(0, i as int).push(item@));
                assert(start + lobby_list_out(self@).subrange(0, i + 1) =~= (start + lobby_list_out(self@).subrange(0, i as int)).push(item@));
            }
            i = i + 1;
        }
        proof {
            assert(lobby_list_out(self@).subrange(0, self.players@.len() as int) =~= lobby_list_out(self@));
        }
    }

    /// Queues `message` for the members of the lobby, skipping `except`.
    pub fn broadcast_to_lobby(&self, out: &mut Vec<Outgoing>, lobby_id: &str, except: Option<&str>, message: &ServerMessage)
        requires
            server_wf(self@),
        ensures
            outbox_view(final(out)@) == outbox_view(old(out)@) + to_lobby(self@, lobby_id@, except_view(except), message@),
    {
        match self.lobby_index(lobby_id) {
            Some(li) => self.deliver(out, &self.lobbies[li].player_ids, except, message),
            None => {
                assert(outbox_view(out@) =~= outbox_view(old(out)@) + to_lobby(self@, lobby_id@, except_view(except), message@));
            },
        }
    }

    /// Queues the lobby's state for its members.
    pub fn broadcast_lobby_state(&self, out: &mut Vec<Outgoing>, lobby_id: &str)
        requires
            server_wf(self@),
        ensures
            outbox_view(final(out)@) == outbox_view(old(out)@) + lobby_state_out(self@, lobby_id@),
    {
        match self.lobby_state(lobby_id) {
            Some(lobby) => {
                let message = ServerMessage::LobbyState { lobby };
                self.broadcast_to_lobby(out, lobby_id, None, &message);
            },
            None => {
                assert(outbox_view(out@) =~= outbox_view(old(out)@) + lobby_state_out(self@, lobby_id@));
            },
        }
    }

    /// Records the player's display name: trimmed, cut to 32 characters,
    /// "Player" when blank.
    pub fn set_player_name(&mut self, player_id: &str, name: String)
        requires
            server_wf(old(self)@),
        ensures
            server_wf(final(self)@),
            final(self)@ == set_player_name(old(self)@, player_id@, name@),
    {
        if let Some(i) = self.player_index(player_id) {
            let trimmed = trim(name.as_str());
            let clean = if trimmed.as_str().unicode_len() == 0 {
                let mut p = String::new();
                push_str(&mut p, "Player");
                p
            } else {
                take_chars(trimmed.as_str(), MAX_PLAYER_NAME_CHARS)
            };
            let old_player = &self.players[i];
            let updated = ConnectedPlayer {
                id: old_player.id.clone(),
                name: clean,
                lobby_id: match &old_player.lobby_id {
                    Some(l) => Some(l.clone()),
                    None => None,
                },
            };
            let ghost before = self@;
            self.players.set(i, updated);
            proof {
                assert(self@.players =~= before.players.update(i as int, PlayerView { name: clean_player_name(name@), ..before.players[i as int] }));
                assert(self@.lobbies =~= before.lobbies);
            }
        }
    }

    /// Sets the player's recorded lobby.
    fn set_player_lobby(&mut self, player_id: &str, lobby_id: Option<String>)
        requires
            server_wf(old(self)@),
        ensures
            server_wf(final(self)@),
            final(self)@ == set_player_lobby(old(self)@, player_id@, opt_text_view(lobby_id)),
    {
        if let Some(i) = self.player_index(player_id) {
            let old_player = &self.players[i];
            let updated = ConnectedPlayer { id: old_player.id.clone(), name: old_player.name.clone(), lobby_id };
            let ghost before = self@;
            self.players.set(i, updated);
            proof {
                assert(self@.players =~= before.players.update(i as int, PlayerView { lobby_id: opt_text_view(lobby_id), ..before.players[i as int] }));
                assert(self@.lobbies =~= before.lobbies);
            }
        }
    }

    /// The player leaves the lobby it recorded; see `leave`.
    pub fn leave_lobby(&mut self, out: &mut Vec<Outgoing>, player_id: &str)
        requires
            server_wf(old(self)@),
        ensures
            server_wf(final(self)@),
            final(self)@ == leave(old(self)@, player_id@).0,
            outbox_view(final(out)@) == outbox_view(old(out)@) + leave(old(self)@, player_id@).1,
    {
        reveal(leave_state);
        let ghost s0 = self@;
        let pi = match self.player_index(player_id) {
            Some(i) => i,
            None => {
                assert(outbox_view(out@) =~= outbox_view(old(out)@) + leave(s0, player_id@).1);
                return;
            },
        };
        let lobby_id = match &self.players[pi].lobby_id {
            Some(l) => l.clone(),
            None => {
                assert(outbox_view(out@) =~= outbox_view(old(out)@) + leave(s0, player_id@).1);
                return;
            },
        };
        self.set_player_lobby(player_id, None);
        let ghost s1 = self@;
        assert(s1 == with_player(s0, pi as int, PlayerView { lobby_id: None, ..s0.players[pi as int] }));
        match self.lobby_index(lobby_id.as_str()) {
            None => {
                self.broadcast_lobby_list(out);
            },
            Some(li) => {
                let lobby = self.lobbies.remove(li);
                let ghost removed = self@;
                proof {
                    assert(removed.lobbies =~= s1.lobbies.remove(li as int));
                    assert(lobby@ == s1.lobbies[li as int]);
                }
                let members = without_id_exec(&lobby.player_ids, player_id);
                if members.len() == 0 {
                    proof {
                        assert(removed.players == s1.players);
                        assert forall|i: int, j: int| 0 <= i < j < removed.lobbies.len()
                            implies seq_lt((#[trigger] removed.lobbies[i]).id, (#[trigger] removed.lobbies[j]).id) by {
                            let i2 = if i < li { i } else { i + 1 };
                            let j2 = if j < li { j } else { j + 1 };
                            assert(removed.lobbies[i] == s1.lobbies[i2]);
                            assert(removed.lobbies[j] == s1.lobbies[j2]);
                        }
                        assert forall|i: int| 0 <= i < removed.lobbies.len()
                            implies keys_distinct((#[trigger] removed.lobbies[i]).snapshots) by {
                            let i2 = if i < li { i } else { i + 1 };
                            assert(removed.lobbies[i] == s1.lobbies[i2]);
                        }
                    }
                    self.broadcast_lobby_list(out);
                } else {
                    let snapshots = without_snapshot_exec(&lobby.snapshots, player_id);
                    proof {
                        lemma_without_snapshot(s1.lobbies[li as int].snapshots, player_id@);
                    }
                    let host = if same_text(lobby.host_player_id.as_str(), player_id) {
                        members[0].clone()
                    } else {
                        lobby.host_player_id
                    };
                    let updated = Lobby {
                        id: lobby.id,
                        name: lobby.name,
                        host_player_id: host,
                        player_ids: members,
                        status: lobby.status,
                        mode: lobby.mode,
                        layout: lobby.layout,
                        snapshots,
                    };
                    self.lobbies.insert(li, updated);
                    let ghost s2 = self@;
                    proof {
                        let l = s1.lobbies[li as int];
                        let nl = LobbyView {
                            player_ids: without_id(l.player_ids, player_id@),
                            snapshots: without_snapshot(l.snapshots, player_id@),
                            host_player_id: if l.host_player_id == player_id@ { without_id(l.player_ids, player_id@)[0] } else { l.host_player_id },
                            ..l
                        };
                        assert(s2.lobbies =~= s1.lobbies.update(li as int, nl));
                        assert(s2.players =~= s1.players);
                        assert(s2 == with_lobby(s1, li as int, nl));
                        assert forall|i: int| 0 <= i < s2.lobbies.len()
                            implies keys_distinct((#[trigger] s2.lobbies[i]).snapshots) by {
                            if i != li {
                                assert(s2.lobbies[i] == s1.lobbies[i]);
                            }
                        }
                        assert forall|i: int, j: int| 0 <= i < j < s2.lobbies.len()
                            implies seq_lt((#[trigger] s2.lobbies[i]).id, (#[trigger] s2.lobbies[j]).id) by {
                            assert(s2.lobbies[i].id == s1.lobbies[i].id);
                            assert(s2.lobbies[j].id == s1.lobbies[j].id);
                        }
                    }
                    let left = ServerMessage::PlayerLeft { player_id: player_id.to_owned() };
                    self.broadcast_to_lobby(out, lobby_id.as_str(), None, &left);
                    self.broadcast_lobby_state(out, lobby_id.as_str());
                    self.broadcast_lobby_list(out);
                }
            },
        }
        proof {
            assert(outbox_view(out@) =~= outbox_view(old(out)@) + leave(s0, player_id@).1);
        }
    }

    fn put_lobby(&mut self, lobby: Lobby)
        requires
            server_wf(old(self)@),
            keys_distinct(lobby@.snapshots),
        ensures
            server_wf(final(self)@),
            final(self)@ == (ServerView { players: old(self)@.players, lobbies: put_lobby(old(self)@.lobbies, lobby@) }),
    {
        let ghost s0 = self@;
        let mut i: usize = 0;
        while i < self.lobbies.len() && str_lt(self.lobbies[i].id.as_str(), lobby.id.as_str())
            invariant
                self@ == s0,
                server_wf(s0),
                i <= self.lobbies@.len(),
                forall|k: int| 0 <= k < i ==> seq_lt((#[trigger] s0.lobbies[k]).id, lobby@.id),
            decreases self.lobbies@.len() - i,
        {
            i = i + 1;
        }
        proof {
            lemma_put_lobby_at(s0.lobbies, lobby@, i as int);
        }
        if i < self.lobbies.len() && same_text(self.lobbies[i].id.as_str(), lobby.id.as_str()) {
            self.lobbies.set(i, lobby);
            proof {
                assert(self@.lobbies =~= s0.lobbies.update(i as int, lobby@));
            }
        } else {
            self.lobbies.insert(i, lobby);
            proof {
                assert(self@.lobbies =~= s0.lobbies.insert(i as int, lobby@));
            }
        }
        proof {
            assert(self@.players =~= s0.players);
            let ls = self@.lobbies;
            assert forall|k: int| 0 <= k < ls.len() implies keys_distinct((#[trigger] ls[k]).snapshots) by {
                if ls[k] != lobby@ {
                    assert(s0.lobbies.contains(ls[k]));
                    let j = choose|j: int| 0 <= j < s0.lobbies.len() && s0.lobbies[j] == ls[k];
                    assert(keys_distinct(s0.lobbies[j].snapshots));
                }
            }
        }
    }

    /// Replaces lobby `li` by `lobby`, which has the same id.
    fn replace_lobby(&mut self, li: usize, lobby: Lobby)
        requires
            server_wf(old(self)@),
            li < old(self)@.lobbies.len(),
            lobby@.id == old(self)@.lobbies[li as int].id,
            keys_distinct(lobby@.snapshots),
        ensures
            server_wf(final(self)@),
            final(self)@ == with_lobby(old(self)@, li as int, lobby@),
    {
        let ghost s0 = self@;
        self.lobbies.set(li, lobby);
        proof {
            assert(self@.lobbies =~= s0.lobbies.update(li as int, lobby@));
            assert(self@.players =~= s0.players);
            lemma_with_lobby_wf(s0, li as int, lobby@);
        }
    }

    /// Registers a new connection as "Player", in no lobby, and welcomes it.
    pub fn connect_player(&mut self, out: &mut Vec<Outgoing>, player_id: String)
        requires
            server_wf(old(self)@),
        ensures
            server_wf(final(self)@),
            final(self)@ == connect(old(self)@, player_id@).0,
            outbox_view(final(out)@) == outbox_view(old(out)@) + connect(old(self)@, player_id@).1,
    {
        let ghost s0 = self@;
        let mut name = String::new();
        push_str(&mut name, "Player");
        let player = ConnectedPlayer { id: player_id.clone(), name, lobby_id: None };
        match self.player_index(player_id.as_str()) {
            Some(i) => {
                self.players.set(i, player);
                proof {
                    assert(self@.players =~= s0.players.update(i as int, player@));
                }
            },
            None => {
                self.players.push(player);
                proof {
                    assert(self@.players =~= s0.players.push(player@));
                    assert forall|a: int, b: int| 0 <= a < self@.players.len() && 0 <= b < self@.players.len() && a != b
                        implies (#[trigger] self@.players[a]).id != (#[trigger] self@.players[b]).id by {
                        if a < s0.players.len() && b < s0.players.len() {
                        } else if a < s0.players.len() {
                            assert(s0.players[a].id != player_id@);
                        } else {
                            assert(s0.players[b].id != player_id@);
                        }
                    }
                }
            },
        }
        proof {
            assert(self@.lobbies =~= s0.lobbies);
        }
        let item = Outgoing { to: player_id.clone(), message: ServerMessage::Welcome { player_id } };
        proof {
            lemma_outbox_push(out@, item);
        }
        out.push(item);
        proof {
            assert(outbox_view(out@) =~= outbox_view(old(out)@) + connect(s0, item.to@).1);
        }
    }

    /// A closed connection: the player leaves its lobby and is forgotten.
    pub fn disconnect_player(&mut self, out: &mut Vec<Outgoing>, player_id: &str)
        requires
            server_wf(old(self)@),
        ensures
            server_wf(final(self)@),
            final(self)@ == disconnect(old(self)@, player_id@).0,
            outbox_view(final(out)@) == outbox_view(old(out)@) + disconnect(old(self)@, player_id@).1,
    {
        self.leave_lobby(out, player_id);
        let ghost s1 = self@;
        if let Some(i) = self.player_index(player_id) {
            self.players.remove(i);
            proof {
                assert(self@.players =~= s1.players.remove(i as int));
                assert(self@.lobbies =~= s1.lobbies);
                assert forall|a: int, b: int| 0 <= a < self@.players.len() && 0 <= b < self@.players.len() && a != b
                    implies (#[trigger] self@.players[a]).id != (#[trigger] self@.players[b]).id by {
                    let a2 = if a < i { a } else { a + 1 };
                    let b2 = if b < i { b } else { b + 1 };
                    assert(self@.players[a] == s1.players[a2]);
                    assert(self@.players[b] == s1.players[b2]);
                }
            }
        }
    }

    /// Sends the lobby list to the player.
    pub fn list_lobbies(&self, out: &mut Vec<Outgoing>, player_id: &str)
        requires
            server_wf(self@),
        ensures
            outbox_view(final(out)@) == outbox_view(old(out)@) + list_lobbies(self@, player_id@).1,
    {
        let lobbies = self.lobby_summaries();
        self.send_to_player(out, player_id, ServerMessage::LobbyList { lobbies });
    }

    /// The player leaves its lobby on request and gets the list again.
    pub fn leave_request(&mut self, out: &mut Vec<Outgoing>, player_id: &str)
        requires
            server_wf(old(self)@),
        ensures
            server_wf(final(self)@),
            final(self)@ == leave_request(old(self)@, player_id@).0,
            outbox_view(final(out)@) == outbox_view(old(out)@) + leave_request(old(self)@, player_id@).1,
    {
        self.leave_lobby(out, player_id);
        self.broadcast_lobby_list(out);
        proof {
            assert(outbox_view(out@) =~= outbox_view(old(out)@) + leave_request(old(self)@, player_id@).1);
        }
    }

    /// Opens the lobby `lobby_id` for the player; see `create_lobby`.
    pub fn create_lobby_with_id(&mut self, out: &mut Vec<Outgoing>, player_id: &str, player_name: String, lobby_name: String, lobby_id: String)
        requires
            server_wf(old(self)@),
        ensures
            server_wf(final(self)@),
            final(self)@ == create_lobby(old(self)@, player_id@, player_name@, lobby_name@, lobby_id@).0,
            outbox_view(final(out)@) == outbox_view(old(out)@) + create_lobby(old(self)@, player_id@, player_name@, lobby_name@, lobby_id@).1,
    {
        let ghost s0 = self@;
        let ghost pname = player_name@;
        let ghost lname = lobby_name@;
        self.leave_lobby(out, player_id);
        self.set_player_name(player_id, player_name);
        let name = sanitize_lobby_name(lobby_name, player_id, self);
        let host_player_id = player_id.to_owned();
        let player_ids = vec![player_id.to_owned()];
        let lobby = Lobby {
            id: lobby_id.clone(),
            name,
            host_player_id,
            player_ids,
            status: LobbyStatus::Waiting,
            mode: Some(GameMode::Standard),
            layout: None,
            snapshots: Vec::new(),
        };
        proof {
            assert(texts_view(lobby.player_ids@) =~= seq![player_id@]);
            assert(snapshots_view(lobby.snapshots@) =~= Seq::empty());
        }
        self.put_lobby(lobby);
        self.set_player_lobby(player_id, Some(lobby_id.clone()));
        self.broadcast_lobby_state(out, lobby_id.as_str());
        self.broadcast_lobby_list(out);
        proof {
            assert(outbox_view(out@) =~= outbox_view(old(out)@) + create_lobby(s0, player_id@, pname, lname, lobby_id@).1);
        }
    }

    /// The player joins `lobby_id`; see `join_lobby`.
    pub fn join_lobby(&mut self, out: &mut Vec<Outgoing>, player_id: &str, lobby_id: String, player_name: String)
        requires
            server_wf(old(self)@),
        ensures
            server_wf(final(self)@),
            final(self)@ == join_lobby(old(self)@, player_id@, lobby_id@, player_name@).0,
            outbox_view(final(out)@) == outbox_view(old(out)@) + join_lobby(old(self)@, player_id@, lobby_id@, player_name@).1,
    {
        let ghost s0 = self@;
        let ghost pname = player_name@;
        self.leave_lobby(out, player_id);
        let ghost o1 = outbox_view(out@);
        self.set_player_name(player_id, player_name);
        self.enter_lobby(out, player_id, lobby_id);
        proof {
            assert(outbox_view(out@) =~= outbox_view(old(out)@) + join_lobby(s0, player_id@, lobby_id@, pname).1);
        }
    }

    fn enter_lobby(&mut self, out: &mut Vec<Outgoing>, player_id: &str, lobby_id: String)
        requires
            server_wf(old(self)@),
        ensures
            server_wf(final(self)@),
            final(self)@ == enter_lobby(old(self)@, player_id@, lobby_id@).0,
            outbox_view(final(out)@) == outbox_view(old(out)@) + enter_lobby(old(self)@, player_id@, lobby_id@).1,
    {
        let ghost s2 = self@;
        let li = match self.lobby_index(lobby_id.as_str()) {
            Some(i) => i,
            None => {
                self.send_error(out, player_id, "Lobby not found.");
                return;
            },
        };
        if self.lobbies[li].status != LobbyStatus::Waiting {
            self.send_error(out, player_id, "That lobby has already started.");
            return;
        }
        let member = lists_id(&self.lobbies[li].player_ids, player_id);
        if self.lobbies[li].player_ids.len() >= MAX_LOBBY_PLAYERS && !member {
            self.send_error(out, player_id, "That lobby is full.");
            return;
        }
        if !member {
            self.add_member(li, player_id);
        }
        let ghost s3 = self@;
        self.set_player_lobby(player_id, Some(lobby_id.clone()));
        let ghost start = outbox_view(out@);
        if let Some(player) = self.lobby_player(player_id) {
            let joined = ServerMessage::PlayerJoined { player };
            self.broadcast_to_lobby(out, lobby_id.as_str(), None, &joined);
        }
        self.broadcast_lobby_state(out, lobby_id.as_str());
        self.broadcast_lobby_list(out);
        proof {
            assert(outbox_view(out@) =~= outbox_view(old(out)@) + enter_lobby(s2, player_id@, lobby_id@).1);
        }
    }

    fn add_member(&mut self, li: usize, player_id: &str)
        requires
            server_wf(old(self)@),
            li < old(self)@.lobbies.len(),
        ensures
            server_wf(final(self)@),
            final(self)@ == with_lobby(old(self)@, li as int, LobbyView {
                player_ids: old(self)@.lobbies[li as int].player_ids.push(player_id@),
                ..old(self)@.lobbies[li as int]
            }),
    {
        let ghost s2 = self@;
        let mut lobby = self.lobbies.remove(li);
        let ghost lv = lobby@;
        proof {
            assert(lv == s2.lobbies[li as int]);
        }
        lobby.player_ids.push(player_id.to_owned());
        let ghost nv = lobby@;
        proof {
            assert(nv.player_ids =~= lv.player_ids.push(player_id@));
            assert(nv == LobbyView { player_ids: lv.player_ids.push(player_id@), ..lv });
        }
        self.lobbies.insert(li, lobby);
        proof {
            assert(self@.lobbies =~= s2.lobbies.update(li as int, nv));
            assert(self@.players =~= s2.players);
            lemma_with_lobby_wf(s2, li as int, nv);
        }
    }

    /// The host of a waiting lobby sets its mode; see `set_mode`.
    pub fn set_mode(&mut self, out: &mut Vec<Outgoing>, player_id: &str, mode: GameMode)
        requires
            server_wf(old(self)@),
        ensures
            server_wf(final(self)@),
            final(self)@ == set_mode(old(self)@, player_id@, mode).0,
            outbox_view(final(out)@) == outbox_view(old(out)@) + set_mode(old(self)@, player_id@, mode).1,
    {
        let ghost s0 = self@;
        let lobby_id = match self.player_lobby_id(player_id) {
            Some(l) => l,
            None => {
                self.send_error(out, player_id, "You are not in a lobby.");
                return;
            },
        };
        let li = match self.lobby_index(lobby_id.as_str()) {
            Some(i) => i,
            None => {
                self.send_error(out, player_id, "Lobby not found.");
                return;
            },
        };
        if !same_text(self.lobbies[li].host_player_id.as_str(), player_id) {
            self.send_error(out, player_id, "Only the host can set the mode.");
            return;
        }
        if self.lobbies[li].status != LobbyStatus::Waiting {
            self.send_error(out, player_id, "The game has already started.");
            return;
        }
        let mut lobby = self.lobbies.remove(li);
        let ghost lv = lobby@;
        lobby.mode = Some(mode);
        let ghost nv = lobby@;
        self.lobbies.insert(li, lobby);
        proof {
            assert(lv == s0.lobbies[li as int]);
            assert(nv == LobbyView { mode: Some(mode), ..lv });
            assert(self@.lobbies =~= s0.lobbies.update(li as int, nv));
            assert(self@.players =~= s0.players);
            lemma_with_lobby_wf(s0, li as int, nv);
        }
        self.broadcast_lobby_state(out, lobby_id.as_str());
    }

    /// The mode the player's lobby would start in.
    pub fn start_mode(&self, player_id: &str) -> (mode: GameMode)
        requires
            server_wf(self@),
        ensures
            mode == start_mode(self@, player_id@),
    {
        match self.player_lobby_id(player_id) {
            Some(lobby_id) => match self.lobby_index(lobby_id.as_str()) {
                Some(li) => match self.lobbies[li].mode {
                    Some(m) => m,
                    None => GameMode::Standard,
                },
                None => GameMode::Standard,
            },
            None => GameMode::Standard,
        }
    }

    /// The host starts the game on `layout`; see `start_game`.
    pub fn start_game_on(&mut self, out: &mut Vec<Outgoing>, player_id: &str, layout: SharedBoardLayout)
        requires
            server_wf(old(self)@),
        ensures
            server_wf(final(self)@),
            final(self)@ == start_game(old(self)@, player_id@, layout@).0,
            outbox_view(final(out)@) == outbox_view(old(out)@) + start_game(old(self)@, player_id@, layout@).1,
    {
        let ghost s0 = self@;
        let lobby_id = match self.player_lobby_id(player_id) {
            Some(l) => l,
            None => {
                self.send_error(out, player_id, "You are not in a lobby.");
                return;
            },
        };
        let li = match self.lobby_index(lobby_id.as_str()) {
            Some(i) => i,
            None => {
                self.send_error(out, player_id, "Lobby not found.");
                return;
            },
        };
        if !same_text(self.lobbies[li].host_player_id.as_str(), player_id) {
            self.send_error(out, player_id, "Only the host can start the game.");
            return;
        }
        let announced = ServerMessage::GameStarted { layout: layout.duplicate() };
        let mut lobby = self.lobbies.remove(li);
        let ghost lv = lobby@;
        lobby.status = LobbyStatus::InGame;
        lobby.layout = Some(layout);
        let ghost nv = lobby@;
        self.lobbies.insert(li, lobby);
        proof {
            assert(lv == s0.lobbies[li as int]);
            assert(nv == LobbyView { status: LobbyStatus::InGame, layout: Some(layout@), ..lv });
            assert(self@.lobbies =~= s0.lobbies.update(li as int, nv));
            assert(self@.players =~= s0.players);
            lemma_with_lobby_wf(s0, li as int, nv);
        }
        let ghost mid = outbox_view(out@);
        self.broadcast_to_lobby(out, lobby_id.as_str(), None, &announced);
        self.broadcast_lobby_state(out, lobby_id.as_str());
        proof {
            assert(outbox_view(out@) =~= outbox_view(old(out)@) + start_game(s0, player_id@, layout@).1);
        }
    }

    /// The host starts the game on a layout for the lobby's mode (a random
    /// one in Random mode).
    pub fn start_game(&mut self, out: &mut Vec<Outgoing>, player_id: &str)
        requires
            server_wf(old(self)@),
        ensures
            server_wf(final(self)@),
            exists|layout: LayoutView|
                layout_fits(layout, start_mode(old(self)@, player_id@))
                && final(self)@ == #[trigger] start_game(old(self)@, player_id@, layout).0
                && outbox_view(final(out)@) == outbox_view(old(out)@) + start_game(old(self)@, player_id@, layout).1,
    {
        let mode = self.start_mode(player_id);
        let layout = shared_layout(mode);
        let ghost lv = layout@;
        self.start_game_on(out, player_id, layout);
    }

    /// A player in a running game shares its board; see `board_snapshot`.
    pub fn share_snapshot(&mut self, out: &mut Vec<Outgoing>, player_id: &str, snapshot: BoardSnapshot)
        requires
            server_wf(old(self)@),
        ensures
            server_wf(final(self)@),
            final(self)@ == board_snapshot(old(self)@, player_id@, snapshot@).0,
            outbox_view(final(out)@) == outbox_view(old(out)@) + board_snapshot(old(self)@, player_id@, snapshot@).1,
    {
        let ghost s0 = self@;
        let lobby_id = match self.player_lobby_id(player_id) {
            Some(l) => l,
            None => {
                self.send_error(out, player_id, "You are not in a lobby.");
                return;
            },
        };
        let li = match self.lobby_index(lobby_id.as_str()) {
            Some(i) => i,
            None => {
                self.send_error(out, player_id, "Lobby not found.");
                return;
            },
        };
        if self.lobbies[li].status != LobbyStatus::InGame {
            self.send_error(out, player_id, "The game has not started.");
            return;
        }
        let relayed = ServerMessage::PlayerSnapshot { player_id: player_id.to_owned(), snapshot: snapshot.duplicate() };
        let mut lobby = self.lobbies.remove(li);
        let ghost lv = lobby@;
        proof {
            assert(lv == s0.lobbies[li as int]);
            assert(keys_distinct(lv.snapshots));
        }
        let mut k: usize = 0;
        let mut found = false;
        while k < lobby.snapshots.len() && !found
            invariant
                lobby@ == lv,
                k <= lobby.snapshots@.len(),
                found ==> k < lobby.snapshots@.len() && lobby.snapshots@[k as int].0@ == player_id@,
                !found ==> forall|t: int| 0 <= t < k ==> (#[trigger] lobby.snapshots@[t]).0@ != player_id@,
            decreases lobby.snapshots@.len() - k + (if found { 0int } else { 1int }),
        {
            if same_text(lobby.snapshots[k].0.as_str(), player_id) {
                found = true;
            } else {
                k = k + 1;
            }
        }
        let ghost sv = snapshots_view(lobby.snapshots@);
        let entry = (player_id.to_owned(), snapshot);
        if found {
            lobby.snapshots.set(k, entry);
            proof {
                assert(sv[k as int].0 == player_id@);
                let c = choose|i: int| 0 <= i < sv.len() && (#[trigger] sv[i]).0 == player_id@;
                assert(c == k);
                assert(snapshots_view(lobby.snapshots@) =~= sv.update(k as int, (player_id@, snapshot@)));
            }
        } else {
            lobby.snapshots.push(entry);
            proof {
                assert forall|i: int| 0 <= i < sv.len() implies (#[trigger] sv[i]).0 != player_id@ by {
                    assert(sv[i].0 == lobby.snapshots@[i].0@);
                }
                assert(snapshots_view(lobby.snapshots@) =~= sv.push((player_id@, snapshot@)));
            }
        }
        let ghost nv = lobby@;
        proof {
            assert(nv == LobbyView { snapshots: put_snapshot(lv.snapshots, player_id@, snapshot@), ..lv });
            let ns = nv.snapshots;
            assert forall|a: int, b: int| 0 <= a < ns.len() && 0 <= b < ns.len() && a != b implies (#[trigger] ns[a]).0 != (#[trigger] ns[b]).0 by {
                if found {
                    if a != k && b != k {
                        assert(ns[a] == sv[a] && ns[b] == sv[b]);
                    } else if a == k {
                        assert(ns[b] == sv[b]);
                        assert(sv[k as int].0 == player_id@);
                    } else {
                        assert(ns[a] == sv[a]);
                        assert(sv[k as int].0 == player_id@);
                    }
                } else {
                    if a < sv.len() && b < sv.len() {
                        assert(ns[a] == sv[a] && ns[b] == sv[b]);
                    } else if a < sv.len() {
                        assert(ns[a] == sv[a]);
                        assert(sv[a].0 == lobby.snapshots@[a].0@);
                    } else {
                        assert(ns[b] == sv[b]);
                        assert(sv[b].0 == lobby.snapshots@[b].0@);
                    }
                }
            }
        }
        self.lobbies.insert(li, lobby);
        proof {
            assert(self@.lobbies =~= s0.lobbies.update(li as int, nv));
            assert(self@.players =~= s0.players);
            lemma_with_lobby_wf(s0, li as int, nv);
        }
        self.broadcast_to_lobby(out, lobby_id.as_str(), Some(player_id), &relayed);
    }

    /// Applies one client request from `player_id` and returns the messages
    /// to deliver. A new lobby gets a fresh short id and a Random game a
    /// random layout; everything else is determined by the state and the
    /// request.
    pub fn handle_client_message(&mut self, player_id: &str, message: ClientMessage) -> (out: Vec<Outgoing>)
        requires
            server_wf(old(self)@),
        ensures
            server_wf(final(self)@),
            exists|new_lobby_id: Seq<char>, layout: LayoutView|
                is_short_id(new_lobby_id)
                && (message@ is StartGame ==> layout_fits(layout, start_mode(old(self)@, player_id@)))
                && (final(self)@, outbox_view(out@)) == #[trigger] handle(old(self)@, player_id@, message@, new_lobby_id, layout),
    {
        let ghost s0 = self@;
        let ghost request = message@;
        let ghost mode = start_mode(s0, player_id@);
        let mut out: Vec<Outgoing> = Vec::new();
        proof {
            assert(outbox_view(out@) =~= Seq::<OutView>::empty());
        }
        match message {
            ClientMessage::ListLobbies => {
                self.list_lobbies(&mut out, player_id);
                proof {
                    assert(outbox_view(out@) =~= handle(s0, player_id@, request, "00000000"@, idle_layout(mode)).1);
                    reveal_strlit("00000000");
                    assert(is_short_id("00000000"@));
                }
            },
            ClientMessage::CreateLobby { player_name, lobby_name } => {
                let lobby_id = short_id();
                let ghost id = lobby_id@;
                self.create_lobby_with_id(&mut out, player_id, player_name, lobby_name, lobby_id);
                proof {
                    assert(outbox_view(out@) =~= handle(s0, player_id@, request, id, idle_layout(mode)).1);
                }
            },
            ClientMessage::JoinLobby { lobby_id, player_name } => {
                self.join_lobby(&mut out, player_id, lobby_id, player_name);
                proof {
                    assert(outbox_view(out@) =~= handle(s0, player_id@, request, "00000000"@, idle_layout(mode)).1);
                    reveal_strlit("00000000");
                    assert(is_short_id("00000000"@));
                }
            },
            ClientMessage::LeaveLobby => {
                self.leave_request(&mut out, player_id);
                proof {
                    assert(outbox_view(out@) =~= handle(s0, player_id@, request, "00000000"@, idle_layout(mode)).1);
                    reveal_strlit("00000000");
                    assert(is_short_id("00000000"@));
                }
            },
            ClientMessage::SetMode { mode: m } => {
                self.set_mode(&mut out, player_id, m);
                proof {
                    assert(outbox_view(out@) =~= handle(s0, player_id@, request, "00000000"@, idle_layout(mode)).1);
                    reveal_strlit("00000000");
                    assert(is_short_id("00000000"@));
                }
            },
            ClientMessage::StartGame => {
                self.start_game(&mut out, player_id);
                proof {
                    let lv = choose|layout: LayoutView|
                        layout_fits(layout, start_mode(s0, player_id@))
                        && self@ == #[trigger] start_game(s0, player_id@, layout).0
                        && outbox_view(out@) == Seq::<OutView>::empty() + start_game(s0, player_id@, layout).1;
                    assert(outbox_view(out@) =~= handle(s0, player_id@, request, "00000000"@, lv).1);
                    reveal_strlit("00000000");
                    assert(is_short_id("00000000"@));
                }
            },
            ClientMessage::BoardSnapshot { snapshot } => {
                self.share_snapshot(&mut out, player_id, snapshot);
                proof {
                    assert(outbox_view(out@) =~= handle(s0, player_id@, request, "00000000"@, idle_layout(mode)).1);
                    reveal_strlit("00000000");
                    assert(is_short_id("00000000"@));
                }
            },
        }
        out
    }
}

} // verus!
