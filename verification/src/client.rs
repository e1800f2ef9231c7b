use vstd::prelude::*;

use crate::lobby::{MAX_LOBBY_NAME_CHARS, MAX_PLAYER_NAME_CHARS, clean_player_name, opt_text_view};
use crate::protocol::{
    ClientMessage, LobbyState, LobbySummary, LobbyStateView, MessageView, RequestView, ServerMessage,
    SharedBoardLayout, SummaryView, LayoutView, layout_opt_view, summaries_view,
};
use crate::text::{push_char, push_str, take_chars, take_seq, trim, trim_seq};
use crate::textorder::{lemma_seq_lt_asymmetric, lemma_seq_lt_total, lemma_seq_lt_transitive, seq_lt, str_lt};

verus! {

/// What the player meant to do when asked for a display name.
#[derive(Clone, Copy, PartialEq, Eq, Structural, Debug)]
pub enum NameIntent {
    Host,
    Join,
}

/// The text field being typed into.
#[derive(Clone, Copy, PartialEq, Eq, Structural, Debug)]
pub enum TextInputField {
    DisplayName,
    LobbyName,
}

/// A display name as kept: trimmed, at most 32 characters, "Player" when
/// blank.
pub fn sanitize_name(input: &str) -> (name: String)
    ensures
        name@ == clean_player_name(input@),
{
    let trimmed = trim(input);
    if trimmed.as_str().unicode_len() == 0 {
        let mut p = String::new();
        push_str(&mut p, "Player");
        p
    } else {
        take_chars(trimmed.as_str(), MAX_PLAYER_NAME_CHARS)
    }
}

/// The name a hosted lobby is requested with.
pub open spec fn requested_lobby_name(input: Seq<char>, display_name: Seq<char>) -> Seq<char> {
    let t = trim_seq(input);
    if t.len() == 0 { clean_player_name(display_name) + "'s Lobby"@ } else { take_seq(t, MAX_LOBBY_NAME_CHARS as int) }
}

/// The lobby name to request: the trimmed input cut to 40 characters, or
/// "<name>'s Lobby" when blank.
pub fn sanitize_lobby_name(input: &str, display_name: &str) -> (name: String)
    ensures
        name@ == requested_lobby_name(input@, display_name@),
{
    let trimmed = trim(input);
    if trimmed.as_str().unicode_len() == 0 {
        let mut name = sanitize_name(display_name);
        push_str(&mut name, "'s Lobby");
        name
    } else {
        take_chars(trimmed.as_str(), MAX_LOBBY_NAME_CHARS)
    }
}

/// Characters of the Unicode control category (what `char::is_control` tests).
pub open spec fn is_control_char(c: char) -> bool {
    (c as u32) <= 0x1F || (0x7F <= (c as u32) && (c as u32) <= 0x9F)
}

/// `input` after typing `text`: control characters are skipped and typing
/// stops once the input holds `max` characters.
pub open spec fn typed(input: Seq<char>, text: Seq<char>, max: nat) -> Seq<char>
    decreases text.len(),
{
    if text.len() == 0 || input.len() >= max {
        input
    } else if is_control_char(text[0]) {
        typed(input, text.drop_first(), max)
    } else {
        typed(input.push(text[0]), text.drop_first(), max)
    }
}

/// Types `text` into `input`; see `typed`.
pub fn type_into(input: &mut String, text: &str, max: usize)
    ensures
        final(input)@ == typed(old(input)@, text@, max as nat),
{
    let n = text.unicode_len();
    let mut count = input.as_str().unicode_len();
    let mut i: usize = 0;
    proof {
        assert(text@.subrange(0, n as int) =~= text@);
    }
    while i < n && count < max
        invariant
            n == text@.len(),
            i <= n,
            count == input@.len(),
            typed(old(input)@, text@, max as nat) == typed(input@, text@.subrange(i as int, n as int), max as nat),
        decreases n - i,
    {
        let ghost rest = text@.subrange(i as int, n as int);
        proof {
            assert(rest[0] == text@[i as int]);
            assert(rest.drop_first() =~= text@.subrange(i + 1, n as int));
        }
        let c = text.get_char(i);
        let code = c as u32;
        if !(code <= 0x1F || (0x7F <= code && code <= 0x9F)) {
            push_char(input, c);
            count = count + 1;
        }
        i = i + 1;
    }
    proof {
        if i == n {
            assert(text@.subrange(n as int, n as int) =~= Seq::<char>::empty());
        }
    }
}

/// The longest input a field takes.
pub fn max_input_chars(field: TextInputField) -> (max: usize)
    ensures
        max == (match field {
            TextInputField::DisplayName => 32usize,
            TextInputField::LobbyName => 40usize,
        }),
{
    match field {
        TextInputField::DisplayName => 32,
        TextInputField::LobbyName => 40,
    }
}

/// An input shown with its cursor.
pub fn text_input_value(value: &str) -> (shown: String)
    ensures
        shown@ == value@ + "|"@,
{
    let mut shown = String::new();
    push_str(&mut shown, value);
    push_str(&mut shown, "|");
    shown
}

/// Inserts `x` after every summary whose name does not sort after its own.
pub open spec fn insert_by_name(sorted: Seq<SummaryView>, x: SummaryView) -> Seq<SummaryView>
    decreases sorted.len(),
{
    if sorted.len() == 0 {
        seq![x]
    } else if seq_lt(x.name, sorted.last().name) {
        insert_by_name(sorted.drop_last(), x).push(sorted.last())
    } else {
        sorted.push(x)
    }
}

/// The summaries sorted by name, equal names keeping their order.
pub open spec fn sort_by_name(s: Seq<SummaryView>) -> Seq<SummaryView>
    decreases s.len(),
{
    if s.len() == 0 { s } else { insert_by_name(sort_by_name(s.drop_last()), s.last()) }
}


/// No summary's name sorts before that of an earlier one.
pub open spec fn sorted_by_name(s: Seq<SummaryView>) -> bool {
    forall|i: int, j: int| 0 <= i < j < s.len() ==> !seq_lt(#[trigger] s[j].name, #[trigger] s[i].name)
}

proof fn lemma_name_le_trans(a: Seq<char>, b: Seq<char>, c: Seq<char>)
    ensures
        !seq_lt(b, a) && !seq_lt(c, b) ==> !seq_lt(c, a),
{
    lemma_seq_lt_total(a, b);
    lemma_seq_lt_total(b, c);
    lemma_seq_lt_transitive(c, a, b);
    lemma_seq_lt_transitive(c, b, a);
}

proof fn lemma_insert_by_name_sorted(s: Seq<SummaryView>, x: SummaryView)
    requires
        sorted_by_name(s),
    ensures
        sorted_by_name(insert_by_name(s, x)),
        insert_by_name(s, x).to_multiset() == s.to_multiset().insert(x),
    decreases s.len(),
{
    broadcast use vstd::seq_lib::group_to_multiset_ensures;
    if s.len() == 0 {
        assert(seq![x] =~= Seq::<SummaryView>::empty().push(x));
    } else if seq_lt(x.name, s.last().name) {
        let d = s.drop_last();
        let last = s.last();
        assert(sorted_by_name(d)) by {
            assert forall|i: int, j: int| 0 <= i < j < d.len() implies !seq_lt(#[trigger] d[j].name, #[trigger] d[i].name) by {
                assert(d[i] == s[i] && d[j] == s[j]);
            }
        }
        lemma_insert_by_name_sorted(d, x);
        let r1 = insert_by_name(d, x);
        let r = r1.push(last);
        assert(s =~= d.push(last));
        assert forall|i: int, j: int| 0 <= i < j < r.len() implies !seq_lt(#[trigger] r[j].name, #[trigger] r[i].name) by {
            if j < r1.len() {
                assert(r[i] == r1[i] && r[j] == r1[j]);
            } else {
                assert(r[j] == last);
                assert(r[i] == r1[i]);
                assert(r1.to_multiset().count(r1[i]) > 0);
                if r1[i] == x {
                    lemma_seq_lt_asymmetric(x.name, last.name);
                } else {
                    assert(d.to_multiset().count(r1[i]) > 0);
                    assert(d.contains(r1[i]));
                    let k = choose|k: int| 0 <= k < d.len() && d[k] == r1[i];
                    assert(s[k] == d[k]);
                    assert(!seq_lt(s[s.len() - 1].name, s[k].name));
                }
            }
        }
        assert(r.to_multiset() =~= s.to_multiset().insert(x));
    } else {
        let r = s.push(x);
        let last = s.last();
        assert forall|i: int, j: int| 0 <= i < j < r.len() implies !seq_lt(#[trigger] r[j].name, #[trigger] r[i].name) by {
            if j < s.len() {
                assert(r[i] == s[i] && r[j] == s[j]);
            } else {
                assert(r[j] == x);
                assert(r[i] == s[i]);
                if i < s.len() - 1 {
                    assert(!seq_lt(s[s.len() - 1].name, s[i].name));
                }
                lemma_name_le_trans(s[i].name, last.name, x.name);
            }
        }
    }
}

/// The lobby list as shown is sorted by name and holds exactly the lobbies
/// received.
pub proof fn law_sort_by_name(s: Seq<SummaryView>)
    ensures
        sorted_by_name(sort_by_name(s)),
        sort_by_name(s).to_multiset() == s.to_multiset(),
    decreases s.len(),
{
    broadcast use vstd::seq_lib::group_to_multiset_ensures;
    if s.len() > 0 {
        law_sort_by_name(s.drop_last());
        lemma_insert_by_name_sorted(sort_by_name(s.drop_last()), s.last());
        assert(s =~= s.drop_last().push(s.last()));
    }
}

proof fn lemma_insert_by_name_at(s: Seq<SummaryView>, x: SummaryView, j: int)
    requires
        0 <= j <= s.len(),
        forall|k: int| j <= k < s.len() ==> seq_lt(x.name, #[trigger] s[k].name),
        j > 0 ==> !seq_lt(x.name, s[j - 1].name),
    ensures
        insert_by_name(s, x) == s.insert(j, x),
    decreases s.len(),
{
    if s.len() == 0 {
        assert(seq![x] =~= s.insert(0, x));
    } else if j == s.len() {
        assert(s.push(x) =~= s.insert(j, x));
    } else {
        assert(seq_lt(x.name, s[s.len() - 1].name));
        let d = s.drop_last();
        assert forall|k: int| j <= k < d.len() implies seq_lt(x.name, #[trigger] d[k].name) by {
            assert(d[k] == s[k]);
        }
        if j > 0 {
            assert(d[j - 1] == s[j - 1]);
        }
        lemma_insert_by_name_at(d, x, j);
        assert(d.insert(j, x).push(s.last()) =~= s.insert(j, x));
    }
}

/// The lobby list sorted by name; lobbies with equal names keep their order.
pub fn sort_lobbies_by_name(lobbies: Vec<LobbySummary>) -> (sorted: Vec<LobbySummary>)
    ensures
        summaries_view(sorted@) == sort_by_name(summaries_view(lobbies@)),
{
    let ghost all = summaries_view(lobbies@);
    let ghost orig = lobbies@;
    let total = lobbies.len();
    let mut rest = lobbies;
    let mut sorted: Vec<LobbySummary> = Vec::new();
    let mut taken: usize = 0;
    while rest.len() > 0
        invariant
            all == summaries_view(orig),
            total == orig.len(),
            taken <= orig.len(),
            rest@ == orig.subrange(taken as int, orig.len() as int),
            summaries_view(sorted@) == sort_by_name(all.subrange(0, taken as int)),
        decreases rest@.len(),
    {
        let x = rest.remove(0);
        assert(x == orig[taken as int]);
        let ghost before = summaries_view(sorted@);
        let mut j: usize = sorted.len();
        while j > 0 && str_lt(x.name.as_str(), sorted[j - 1].name.as_str())
            invariant
                j <= sorted@.len(),
                summaries_view(sorted@) == before,
                forall|k: int| j <= k < sorted@.len() ==> seq_lt(x.name@, #[trigger] sorted@[k].name@),
            decreases j,
        {
            j = j - 1;
        }
        proof {
            assert forall|k: int| j <= k < before.len() implies seq_lt(x@.name, #[trigger] before[k].name) by {
                assert(before[k] == sorted@[k]@);
            }
            if j > 0 {
                assert(before[j - 1] == sorted@[j - 1]@);
            }
            lemma_insert_by_name_at(before, x@, j as int);
        }
        sorted.insert(j, x);
        proof {
            assert(summaries_view(sorted@) =~= before.insert(j as int, x@));
            let sub = all.subrange(0, taken + 1);
            assert(sub.drop_last() =~= all.subrange(0, taken as int));
            assert(sub.last() == x@);
            assert(rest@ =~= orig.subrange(taken + 1, orig.len() as int));
        }
        taken = taken + 1;
    }
    proof {
        assert(all.subrange(0, orig.len() as int) =~= all);
    }
    sorted
}


/// The multiplayer side of the game client: what the player typed, what the
/// server last said, and whether a connection is open. The socket itself is
/// the caller's; the methods return the requests to send on it.
pub struct MultiplayerClient {
    pub server_url: String,
    pub display_name: String,
    pub display_name_input: String,
    pub lobby_name_input: String,
    pub pending_name_intent: Option<NameIntent>,
    pub player_id: Option<String>,
    pub lobbies: Vec<LobbySummary>,
    pub lobby: Option<LobbyState>,
    pub pending_layout: Option<SharedBoardLayout>,
    pub status: String,
    pub list_revision: u64,
    pub lobby_revision: u64,
    pub connected: bool,
}

pub struct ClientView {
    pub server_url: Seq<char>,
    pub display_name: Seq<char>,
    pub display_name_input: Seq<char>,
    pub lobby_name_input: Seq<char>,
    pub pending_name_intent: Option<NameIntent>,
    pub player_id: Option<Seq<char>>,
    pub lobbies: Seq<SummaryView>,
    pub lobby: Option<LobbyStateView>,
    pub pending_layout: Option<LayoutView>,
    pub status: Seq<char>,
    pub list_revision: u64,
    pub lobby_revision: u64,
    pub connected: bool,
}

pub open spec fn lobby_opt_view(l: Option<LobbyState>) -> Option<LobbyStateView> {
    match l {
        Some(x) => Some(x@),
        None => None,
    }
}

impl View for MultiplayerClient {
    type V = ClientView;

    open spec fn view(&self) -> ClientView {
        ClientView {
            server_url: self.server_url@,
            display_name: self.display_name@,
            display_name_input: self.display_name_input@,
            lobby_name_input: self.lobby_name_input@,
            pending_name_intent: self.pending_name_intent,
            player_id: opt_text_view(self.player_id),
            lobbies: summaries_view(self.lobbies@),
            lobby: lobby_opt_view(self.lobby),
            pending_layout: layout_opt_view(self.pending_layout),
            status: self.status@,
            list_revision: self.list_revision,
            lobby_revision: self.lobby_revision,
            connected: self.connected,
        }
    }
}

/// `c` with a connection requested: unchanged when one is open, otherwise
/// marked connected with a "Connecting to <url>" status.
pub open spec fn connecting(c: ClientView) -> ClientView {
    if c.connected { c } else { ClientView { connected: true, status: "Connecting to "@ + c.server_url, ..c } }
}

pub open spec fn msg_connection_closed() -> Seq<char> {
    "Connection closed. Reopen Multiplayer to reconnect."@
}

/// What a message from the server does to the client, and the request it
/// answers with (the lobby list after a welcome).
pub open spec fn received(c: ClientView, m: MessageView) -> (ClientView, Option<RequestView>) {
    match m {
        MessageView::Welcome { player_id } => (
            connecting(ClientView { player_id: Some(player_id), status: "Connected"@, ..c }),
            Some(RequestView::ListLobbies),
        ),
        MessageView::LobbyList { lobbies } => (
            ClientView { lobbies: sort_by_name(lobbies), list_revision: (c.list_revision + 1) as u64, ..c },
            None,
        ),
        MessageView::LobbyState { lobby } => (
            ClientView {
                status: "In lobby: "@ + lobby.name,
                lobby: Some(lobby),
                lobby_revision: (c.lobby_revision + 1) as u64,
                ..c
            },
            None,
        ),
        MessageView::GameStarted { layout } => (
            ClientView {
                status: "Game starting..."@,
                pending_layout: Some(layout),
                lobby_revision: (c.lobby_revision + 1) as u64,
                ..c
            },
            None,
        ),
        MessageView::Error { message } => (ClientView { status: message, ..c }, None),
        _ => (c, None),
    }
}

impl MultiplayerClient {
    /// A disconnected client for `server_url`, remembering `display_name`.
    pub fn new(server_url: String, display_name: String) -> (client: MultiplayerClient)
        ensures
            client@ == (ClientView {
                server_url: server_url@,
                display_name: display_name@,
                display_name_input: display_name@,
                lobby_name_input: Seq::empty(),
                pending_name_intent: None,
                player_id: None,
                lobbies: Seq::empty(),
                lobby: None,
                pending_layout: None,
                status: "Disconnected"@,
                list_revision: 0,
                lobby_revision: 0,
                connected: false,
            }),
    {
        let mut status = String::new();
        push_str(&mut status, "Disconnected");
        let lobbies: Vec<LobbySummary> = Vec::new();
        let client = MultiplayerClient {
            server_url,
            display_name_input: display_name.clone(),
            display_name,
            lobby_name_input: String::new(),
            pending_name_intent: None,
            player_id: None,
            lobbies,
            lobby: None,
            pending_layout: None,
            status,
            list_revision: 0,
            lobby_revision: 0,
            connected: false,
        };
        assert(summaries_view(client.lobbies@) =~= Seq::empty());
        client
    }

    /// Whether a non-blank display name is set.
    pub fn has_display_name(&self) -> (has: bool)
        ensures
            has == (trim_seq(self.display_name@).len() > 0),
    {
        let trimmed = trim(self.display_name.as_str());
        trimmed.as_str().unicode_len() > 0
    }

    /// Takes the typed display name, cleaned, as the display name.
    pub fn save_display_name_from_input(&mut self)
        ensures
            final(self)@ == (ClientView {
                display_name: clean_player_name(old(self)@.display_name_input),
                display_name_input: clean_player_name(old(self)@.display_name_input),
                ..old(self)@
            }),
    {
        let name = sanitize_name(self.display_name_input.as_str());
        self.display_name_input = name.clone();
        self.display_name = name;
    }

    /// Requests a connection; returns whether one must be opened.
    pub fn ensure_connected(&mut self) -> (open: bool)
        ensures
            open == !old(self).connected,
            final(self)@ == connecting(old(self)@),
    {
        if self.connected {
            return false;
        }
        let mut status = String::new();
        push_str(&mut status, "Connecting to ");
        push_str(&mut status, self.server_url.as_str());
        self.status = status;
        self.connected = true;
        true
    }

    /// The lobby list request (connecting first).
    pub fn request_lobbies(&mut self) -> (request: ClientMessage)
        ensures
            final(self)@ == connecting(old(self)@),
            request@ == RequestView::ListLobbies,
    {
        self.ensure_connected();
        ClientMessage::ListLobbies
    }

    /// Asks to host a lobby under the typed (or default) name.
    pub fn create_lobby(&mut self) -> (request: ClientMessage)
        ensures
            ({
                let name = requested_lobby_name(old(self)@.lobby_name_input, old(self)@.display_name);
                &&& final(self)@ == connecting(ClientView { lobby_name_input: name, lobby: None, status: "Creating lobby..."@, ..old(self)@ })
                &&& request@ == (RequestView::CreateLobby { player_name: old(self)@.display_name, lobby_name: name })
            }),
    {
        let lobby_name = sanitize_lobby_name(self.lobby_name_input.as_str(), self.display_name.as_str());
        self.lobby_name_input = lobby_name.clone();
        self.lobby = None;
        let mut status = String::new();
        push_str(&mut status, "Creating lobby...");
        self.status = status;
        self.ensure_connected();
        ClientMessage::CreateLobby { player_name: self.display_name.clone(), lobby_name }
    }

    /// Asks to join lobby `lobby_id`.
    pub fn join_lobby(&mut self, lobby_id: String) -> (request: ClientMessage)
        ensures
            final(self)@ == connecting(ClientView { lobby: None, status: "Joining lobby..."@, ..old(self)@ }),
            request@ == (RequestView::JoinLobby { lobby_id: lobby_id@, player_name: old(self)@.display_name }),
    {
        self.lobby = None;
        let mut status = String::new();
        push_str(&mut status, "Joining lobby...");
        self.status = status;
        self.ensure_connected();
        ClientMessage::JoinLobby { lobby_id, player_name: self.display_name.clone() }
    }

    /// Forgets the lobby; the leave request goes out only on an open
    /// connection.
    pub fn leave_lobby(&mut self) -> (request: Option<ClientMessage>)
        requires
            old(self).lobby_revision < u64::MAX,
        ensures
            final(self)@ == (ClientView { lobby: None, lobby_revision: (old(self).lobby_revision + 1) as u64, ..old(self)@ }),
            match request {
                Some(r) => old(self).connected && r@ == RequestView::LeaveLobby,
                None => !old(self).connected,
            },
    {
        self.lobby = None;
        self.lobby_revision = self.lobby_revision + 1;
        if self.connected {
            Some(ClientMessage::LeaveLobby)
        } else {
            None
        }
    }

    /// Asks the server to start the lobby's game.
    pub fn start_game(&mut self) -> (request: ClientMessage)
        ensures
            final(self)@ == connecting(old(self)@),
            request@ == RequestView::StartGame,
    {
        self.ensure_connected();
        ClientMessage::StartGame
    }

    /// On the lobby browser the list is refreshed whenever the refresh
    /// timer fires.
    pub fn tick_join_refresh(&mut self, refresh_due: bool) -> (request: Option<ClientMessage>)
        ensures
            refresh_due ==> final(self)@ == connecting(old(self)@) && (request matches Some(r) && r@ == RequestView::ListLobbies),
            !refresh_due ==> final(self)@ == old(self)@ && request is None,
    {
        if refresh_due {
            Some(self.request_lobbies())
        } else {
            None
        }
    }

    /// The connection failed while sending: it is dropped.
    pub fn connection_lost(&mut self)
        ensures
            final(self)@ == (ClientView { status: msg_connection_closed(), connected: false, ..old(self)@ }),
    {
        let mut status = String::new();
        push_str(&mut status, "Connection closed. Reopen Multiplayer to reconnect.");
        self.status = status;
        self.connected = false;
    }

    /// Takes in one message from the server; see `received`.
    pub fn receive(&mut self, message: ServerMessage) -> (request: Option<ClientMessage>)
        requires
            old(self).list_revision < u64::MAX,
            old(self).lobby_revision < u64::MAX,
        ensures
            final(self)@ == received(old(self)@, message@).0,
            match request {
                Some(r) => received(old(self)@, message@).1 == Some(r@),
                None => received(old(self)@, message@).1 is None,
            },
    {
        match message {
            ServerMessage::Welcome { player_id } => {
                self.player_id = Some(player_id);
                let mut status = String::new();
                push_str(&mut status, "Connected");
                self.status = status;
                Some(self.request_lobbies())
            },
            ServerMessage::LobbyList { lobbies } => {
                self.lobbies = sort_lobbies_by_name(lobbies);
                self.list_revision = self.list_revision + 1;
                None
            },
            ServerMessage::LobbyState { lobby } => {
                let mut status = String::new();
                push_str(&mut status, "In lobby: ");
                push_str(&mut status, lobby.name.as_str());
                self.status = status;
                self.lobby = Some(lobby);
                self.lobby_revision = self.lobby_revision + 1;
                None
            },
            ServerMessage::GameStarted { layout } => {
                let mut status = String::new();
                push_str(&mut status, "Game starting...");
                self.status = status;
                self.pending_layout = Some(layout);
                self.lobby_revision = self.lobby_revision + 1;
                None
            },
            ServerMessage::Error { message } => {
                self.status = message;
                None
            },
            _ => None,
        }
    }
}

} // verus!
