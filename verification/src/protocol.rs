use vstd::prelude::*;

verus! {

/// Most players a lobby admits.
pub const MAX_LOBBY_PLAYERS: usize = 8;

/// How checkpoints are chosen: a fixed layout, or drawn from a seed.
#[derive(Clone, Copy, PartialEq, Eq, Structural, Debug)]
pub enum GameMode {
    Standard,
    Random,
}

#[derive(Clone, Copy, PartialEq, Eq, Structural, Debug)]
pub enum LobbyStatus {
    Waiting,
    InGame,
}

#[derive(Clone, Copy, PartialEq, Eq, Structural, Debug)]
pub enum PhaseSnapshot {
    Build,
    Countdown,
    Wave,
}

/// A board cell as sent over the wire.
#[derive(Clone, Copy, PartialEq, Eq, Structural, Debug)]
pub struct GridPoint {
    pub col: i32,
    pub row: i32,
}

/// The checkpoint layout every player of a multiplayer game builds on.
#[derive(Clone, Debug)]
pub struct SharedBoardLayout {
    pub mode: GameMode,
    pub seed: Option<u64>,
    pub checkpoints: Vec<GridPoint>,
}

#[derive(Clone, Debug)]
pub struct LobbySummary {
    pub id: String,
    pub name: String,
    pub host_player_id: String,
    pub host_name: String,
    pub player_count: usize,
    pub max_players: usize,
    pub status: LobbyStatus,
    pub mode: Option<GameMode>,
}

#[derive(Clone, Debug)]
pub struct LobbyPlayer {
    pub id: String,
    pub name: String,
    pub is_host: bool,
}

#[derive(Clone, Debug)]
pub struct LobbyState {
    pub id: String,
    pub name: String,
    pub host_player_id: String,
    pub players: Vec<LobbyPlayer>,
    pub max_players: usize,
    pub status: LobbyStatus,
    pub mode: Option<GameMode>,
    pub layout: Option<SharedBoardLayout>,
}

#[derive(Clone, Debug)]
pub struct TowerSnapshot {
    pub col: i32,
    pub row: i32,
    pub gem: String,
    pub grade: String,
}

#[derive(Clone, Copy, PartialEq, Eq, Structural, Debug)]
pub struct WallSnapshot {
    pub col: i32,
    pub row: i32,
}

#[derive(Clone, Debug)]
pub struct BoardSnapshot {
    pub round: u32,
    pub lives: i32,
    pub coins: u32,
    pub phase: PhaseSnapshot,
    pub towers: Vec<TowerSnapshot>,
    pub walls: Vec<WallSnapshot>,
}

/// Requests a client sends to the lobby server.
#[derive(Clone, Debug)]
pub enum ClientMessage {
    ListLobbies,
    CreateLobby { player_name: String, lobby_name: String },
    JoinLobby { lobby_id: String, player_name: String },
    LeaveLobby,
    SetMode { mode: GameMode },
    StartGame,
    BoardSnapshot { snapshot: BoardSnapshot },
}

/// Messages the lobby server sends to a client.
#[derive(Clone, Debug)]
pub enum ServerMessage {
    Welcome { player_id: String },
    LobbyList { lobbies: Vec<LobbySummary> },
    LobbyState { lobby: LobbyState },
    GameStarted { layout: SharedBoardLayout },
    PlayerSnapshot { player_id: String, snapshot: BoardSnapshot },
    PlayerJoined { player: LobbyPlayer },
    PlayerLeft { player_id: String },
    Error { message: String },
}


/// The content of a shared layout.
pub struct LayoutView {
    pub mode: GameMode,
    pub seed: Option<u64>,
    pub checkpoints: Seq<GridPoint>,
}

impl View for SharedBoardLayout {
    type V = LayoutView;

    open spec fn view(&self) -> LayoutView {
        LayoutView { mode: self.mode, seed: self.seed, checkpoints: self.checkpoints@ }
    }
}

pub open spec fn layout_opt_view(layout: Option<SharedBoardLayout>) -> Option<LayoutView> {
    match layout {
        Some(l) => Some(l@),
        None => None,
    }
}

impl SharedBoardLayout {
    /// A copy with the same content.
    pub fn duplicate(&self) -> (copy: SharedBoardLayout)
        ensures
            copy@ == self@,
    {
        let mut checkpoints: Vec<GridPoint> = Vec::new();
        let mut i: usize = 0;
        while i < self.checkpoints.len()
            invariant
                i <= self.checkpoints@.len(),
                checkpoints@ == self.checkpoints@.subrange(0, i as int),
            decreases self.checkpoints@.len() - i,
        {
            checkpoints.push(self.checkpoints[i]);
            proof {
                assert(self.checkpoints@.subrange(0, i + 1) =~= self.checkpoints@.subrange(0, i as int).push(self.checkpoints@[i as int]));
            }
            i = i + 1;
        }
        proof {
            assert(self.checkpoints@.subrange(0, self.checkpoints@.len() as int) =~= self.checkpoints@);
        }
        SharedBoardLayout { mode: self.mode, seed: self.seed, checkpoints }
    }
}

pub fn duplicate_layout_opt(layout: &Option<SharedBoardLayout>) -> (copy: Option<SharedBoardLayout>)
    ensures
        layout_opt_view(copy) == layout_opt_view(*layout),
{
    match layout {
        Some(l) => Some(l.duplicate()),
        None => None,
    }
}

/// The content of a lobby summary.
pub struct SummaryView {
    pub id: Seq<char>,
    pub name: Seq<char>,
    pub host_player_id: Seq<char>,
    pub host_name: Seq<char>,
    pub player_count: usize,
    pub max_players: usize,
    pub status: LobbyStatus,
    pub mode: Option<GameMode>,
}

impl View for LobbySummary {
    type V = SummaryView;

    open spec fn view(&self) -> SummaryView {
        SummaryView {
            id: self.id@,
            name: self.name@,
            host_player_id: self.host_player_id@,
            host_name: self.host_name@,
            player_count: self.player_count,
            max_players: self.max_players,
            status: self.status,
            mode: self.mode,
        }
    }
}

impl LobbySummary {
    /// A copy with the same content.
    pub fn duplicate(&self) -> (copy: LobbySummary)
        ensures
            copy@ == self@,
    {
        LobbySummary {
            id: self.id.clone(),
            name: self.name.clone(),
            host_player_id: self.host_player_id.clone(),
            host_name: self.host_name.clone(),
            player_count: self.player_count,
            max_players: self.max_players,
            status: self.status,
            mode: self.mode,
        }
    }
}

pub open spec fn summaries_view(s: Seq<LobbySummary>) -> Seq<SummaryView> {
    s.map_values(|x: LobbySummary| x@)
}

pub fn duplicate_summaries(v: &Vec<LobbySummary>) -> (copy: Vec<LobbySummary>)
    ensures
        summaries_view(copy@) == summaries_view(v@),
{
    let mut copy: Vec<LobbySummary> = Vec::new();
    let mut i: usize = 0;
    while i < v.len()
        invariant
            i <= v@.len(),
            copy@.len() == i,
            forall|k: int| 0 <= k < i ==> (#[trigger] copy@[k])@ == v@[k]@,
        decreases v@.len() - i,
    {
        let item = v[i].duplicate();
        copy.push(item);
        i = i + 1;
    }
    assert(summaries_view(copy@) =~= summaries_view(v@));
    copy
}

/// The content of a lobby player entry.
pub struct LobbyPlayerView {
    pub id: Seq<char>,
    pub name: Seq<char>,
    pub is_host: bool,
}

impl View for LobbyPlayer {
    type V = LobbyPlayerView;

    open spec fn view(&self) -> LobbyPlayerView {
        LobbyPlayerView { id: self.id@, name: self.name@, is_host: self.is_host }
    }
}

impl LobbyPlayer {
    /// A copy with the same content.
    pub fn duplicate(&self) -> (copy: LobbyPlayer)
        ensures
            copy@ == self@,
    {
        LobbyPlayer { id: self.id.clone(), name: self.name.clone(), is_host: self.is_host }
    }
}

pub open spec fn lobby_players_view(s: Seq<LobbyPlayer>) -> Seq<LobbyPlayerView> {
    s.map_values(|x: LobbyPlayer| x@)
}

/// The content of a full lobby state.
pub struct LobbyStateView {
    pub id: Seq<char>,
    pub name: Seq<char>,
    pub host_player_id: Seq<char>,
    pub players: Seq<LobbyPlayerView>,
    pub max_players: usize,
    pub status: LobbyStatus,
    pub mode: Option<GameMode>,
    pub layout: Option<LayoutView>,
}

impl View for LobbyState {
    type V = LobbyStateView;

    open spec fn view(&self) -> LobbyStateView {
        LobbyStateView {
            id: self.id@,
            name: self.name@,
            host_player_id: self.host_player_id@,
            players: lobby_players_view(self.players@),
            max_players: self.max_players,
            status: self.status,
            mode: self.mode,
            layout: layout_opt_view(self.layout),
        }
    }
}

impl LobbyState {
    /// A copy with the same content.
    pub fn duplicate(&self) -> (copy: LobbyState)
        ensures
            copy@ == self@,
    {
        let mut players: Vec<LobbyPlayer> = Vec::new();
        let mut i: usize = 0;
        while i < self.players.len()
            invariant
                i <= self.players@.len(),
                players@.len() == i,
                forall|k: int| 0 <= k < i ==> (#[trigger] players@[k])@ == self.players@[k]@,
            decreases self.players@.len() - i,
        {
            let item = self.players[i].duplicate();
            players.push(item);
            i = i + 1;
        }
        assert(lobby_players_view(players@) =~= lobby_players_view(self.players@));
        LobbyState {
            id: self.id.clone(),
            name: self.name.clone(),
            host_player_id: self.host_player_id.clone(),
            players,
            max_players: self.max_players,
            status: self.status,
            mode: self.mode,
            layout: duplicate_layout_opt(&self.layout),
        }
    }
}

/// The content of a tower snapshot.
pub struct TowerSnapshotView {
    pub col: i32,
    pub row: i32,
    pub gem: Seq<char>,
    pub grade: Seq<char>,
}

impl View for TowerSnapshot {
    type V = TowerSnapshotView;

    open spec fn view(&self) -> TowerSnapshotView {
        TowerSnapshotView { col: self.col, row: self.row, gem: self.gem@, grade: self.grade@ }
    }
}

/// The content of a board snapshot.
pub struct BoardSnapshotView {
    pub round: u32,
    pub lives: i32,
    pub coins: u32,
    pub phase: PhaseSnapshot,
    pub towers: Seq<TowerSnapshotView>,
    pub walls: Seq<WallSnapshot>,
}

impl View for BoardSnapshot {
    type V = BoardSnapshotView;

    open spec fn view(&self) -> BoardSnapshotView {
        BoardSnapshotView {
            round: self.round,
            lives: self.lives,
            coins: self.coins,
            phase: self.phase,
            towers: self.towers@.map_values(|t: TowerSnapshot| t@),
            walls: self.walls@,
        }
    }
}

impl BoardSnapshot {
    /// A copy with the same content.
    pub fn duplicate(&self) -> (copy: BoardSnapshot)
        ensures
            copy@ == self@,
    {
        let mut towers: Vec<TowerSnapshot> = Vec::new();
        let mut i: usize = 0;
        while i < self.towers.len()
            invariant
                i <= self.towers@.len(),
                towers@.len() == i,
                forall|k: int| 0 <= k < i ==> (#[trigger] towers@[k])@ == self.towers@[k]@,
            decreases self.towers@.len() - i,
        {
            let t = &self.towers[i];
            towers.push(TowerSnapshot { col: t.col, row: t.row, gem: t.gem.clone(), grade: t.grade.clone() });
            i = i + 1;
        }
        assert(towers@.map_values(|t: TowerSnapshot| t@) =~= self.towers@.map_values(|t: TowerSnapshot| t@));
        let mut walls: Vec<WallSnapshot> = Vec::new();
        let mut j: usize = 0;
        while j < self.walls.len()
            invariant
                j <= self.walls@.len(),
                walls@ == self.walls@.subrange(0, j as int),
            decreases self.walls@.len() - j,
        {
            walls.push(self.walls[j]);
            proof {
                assert(self.walls@.subrange(0, j + 1) =~= self.walls@.subrange(0, j as int).push(self.walls@[j as int]));
            }
            j = j + 1;
        }
        proof {
            assert(self.walls@.subrange(0, self.walls@.len() as int) =~= self.walls@);
        }
        BoardSnapshot { round: self.round, lives: self.lives, coins: self.coins, phase: self.phase, towers, walls }
    }
}

/// The content of a server message.
pub enum MessageView {
    Welcome { player_id: Seq<char> },
    LobbyList { lobbies: Seq<SummaryView> },
    LobbyState { lobby: LobbyStateView },
    GameStarted { layout: LayoutView },
    PlayerSnapshot { player_id: Seq<char>, snapshot: BoardSnapshotView },
    PlayerJoined { player: LobbyPlayerView },
    PlayerLeft { player_id: Seq<char> },
    Error { message: Seq<char> },
}

impl View for ServerMessage {
    type V = MessageView;

    open spec fn view(&self) -> MessageView {
        match self {
            ServerMessage::Welcome { player_id } => MessageView::Welcome { player_id: player_id@ },
            ServerMessage::LobbyList { lobbies } => MessageView::LobbyList { lobbies: summaries_view(lobbies@) },
            ServerMessage::LobbyState { lobby } => MessageView::LobbyState { lobby: lobby@ },
            ServerMessage::GameStarted { layout } => MessageView::GameStarted { layout: layout@ },
            ServerMessage::PlayerSnapshot { player_id, snapshot } => MessageView::PlayerSnapshot {
                player_id: player_id@,
                snapshot: snapshot@,
            },
            ServerMessage::PlayerJoined { player } => MessageView::PlayerJoined { player: player@ },
            ServerMessage::PlayerLeft { player_id } => MessageView::PlayerLeft { player_id: player_id@ },
            ServerMessage::Error { message } => MessageView::Error { message: message@ },
        }
    }
}

impl ServerMessage {
    /// A copy with the same content.
    pub fn duplicate(&self) -> (copy: ServerMessage)
        ensures
            copy@ == self@,
    {
        match self {
            ServerMessage::Welcome { player_id } => ServerMessage::Welcome { player_id: player_id.clone() },
            ServerMessage::LobbyList { lobbies } => ServerMessage::LobbyList { lobbies: duplicate_summaries(lobbies) },
            ServerMessage::LobbyState { lobby } => ServerMessage::LobbyState { lobby: lobby.duplicate() },
            ServerMessage::GameStarted { layout } => ServerMessage::GameStarted { layout: layout.duplicate() },
            ServerMessage::PlayerSnapshot { player_id, snapshot } => ServerMessage::PlayerSnapshot {
                player_id: player_id.clone(),
                snapshot: snapshot.duplicate(),
            },
            ServerMessage::PlayerJoined { player } => ServerMessage::PlayerJoined { player: player.duplicate() },
            ServerMessage::PlayerLeft { player_id } => ServerMessage::PlayerLeft { player_id: player_id.clone() },
            ServerMessage::Error { message } => ServerMessage::Error { message: message.clone() },
        }
    }
}

/// The content of a client request.
pub enum RequestView {
    ListLobbies,
    CreateLobby { player_name: Seq<char>, lobby_name: Seq<char> },
    JoinLobby { lobby_id: Seq<char>, player_name: Seq<char> },
    LeaveLobby,
    SetMode { mode: GameMode },
    StartGame,
    BoardSnapshot { snapshot: BoardSnapshotView },
}

impl View for ClientMessage {
    type V = RequestView;

    open spec fn view(&self) -> RequestView {
        match self {
            ClientMessage::ListLobbies => RequestView::ListLobbies,
            ClientMessage::CreateLobby { player_name, lobby_name } => RequestView::CreateLobby {
                player_name: player_name@,
                lobby_name: lobby_name@,
            },
            ClientMessage::JoinLobby { lobby_id, player_name } => RequestView::JoinLobby {
                lobby_id: lobby_id@,
                player_name: player_name@,
            },
            ClientMessage::LeaveLobby => RequestView::LeaveLobby,
            ClientMessage::SetMode { mode } => RequestView::SetMode { mode: *mode },
            ClientMessage::StartGame => RequestView::StartGame,
            ClientMessage::BoardSnapshot { snapshot } => RequestView::BoardSnapshot { snapshot: snapshot@ },
        }
    }
}

} // verus!
