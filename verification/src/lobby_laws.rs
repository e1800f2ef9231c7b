use vstd::prelude::*;

use crate::lobby::{
    LobbyView, PlayerView, ServerView, create_lobby, enter_lobby, find_lobby, find_player, handle, join_lobby,
    leave, leave_state, leave_request, list_lobbies, server_wf, set_mode, set_player_lobby, set_player_name, start_game,
    board_snapshot, with_lobby, with_player, without_id, without_snapshot, put_lobby, connect, disconnect, player_lobby_id,
};
use crate::protocol::{LayoutView, MAX_LOBBY_PLAYERS, RequestView};

verus! {

/// The player with id `id` is connected and records lobby `lobby_id`.
pub open spec fn records(s: ServerView, id: Seq<char>, lobby_id: Seq<char>) -> bool {
    exists|pi: int| 0 <= pi < s.players.len() && (#[trigger] s.players[pi]).id == id && s.players[pi].lobby_id == Some(lobby_id)
}

/// A lobby with id `lobby_id` lists `id`.
pub open spec fn lists(s: ServerView, lobby_id: Seq<char>, id: Seq<char>) -> bool {
    exists|li: int| 0 <= li < s.lobbies.len() && (#[trigger] s.lobbies[li]).id == lobby_id && s.lobbies[li].player_ids.contains(id)
}

/// A player who records a lobby is listed in it.
pub open spec fn player_listed(s: ServerView, p: PlayerView) -> bool {
    match p.lobby_id {
        Some(lid) => lists(s, lid, p.id),
        None => true,
    }
}

pub open spec fn lobby_ok(s: ServerView, l: LobbyView) -> bool {
    &&& 0 < l.player_ids.len() <= MAX_LOBBY_PLAYERS
    &&& l.player_ids.no_duplicates()
    &&& l.player_ids.contains(l.host_player_id)
    &&& forall|k: int| 0 <= k < l.player_ids.len() ==> records(s, #[trigger] l.player_ids[k], l.id)
}

/// Every lobby has between one and eight members, none twice, the host
/// among them; every member is a connected player who records that lobby;
/// and every player who records a lobby is listed in it.
#[verifier::opaque]
pub open spec fn lobbies_consistent(s: ServerView) -> bool {
    &&& forall|li: int| 0 <= li < s.lobbies.len() ==> lobby_ok(s, #[trigger] s.lobbies[li])
    &&& forall|pi: int| 0 <= pi < s.players.len() ==> player_listed(s, #[trigger] s.players[pi])
}

proof fn lemma_find_player_at(ps: Seq<PlayerView>, id: Seq<char>, i: int)
    requires
        forall|a: int, b: int| 0 <= a < ps.len() && 0 <= b < ps.len() && a != b ==> (#[trigger] ps[a]).id != (#[trigger] ps[b]).id,
        0 <= i < ps.len(),
        ps[i].id == id,
    ensures
        find_player(ps, id) == Some(i),
{
    let k = choose|k: int| 0 <= k < ps.len() && (#[trigger] ps[k]).id == id;
    assert(k == i);
}

proof fn lemma_without_id(ids: Seq<Seq<char>>, id: Seq<char>)
    ensures
        without_id(ids, id).len() <= ids.len(),
        forall|x: Seq<char>| #[trigger] without_id(ids, id).contains(x) <==> (ids.contains(x) && x != id),
        ids.no_duplicates() ==> without_id(ids, id).no_duplicates(),
    decreases ids.len(),
{
    if ids.len() > 0 {
        let d = ids.drop_last();
        lemma_without_id(d, id);
        let rest = without_id(d, id);
        let r = without_id(ids, id);
        assert forall|x: Seq<char>| r.contains(x) <==> (ids.contains(x) && x != id) by {
            if r.contains(x) {
                let j = choose|j: int| 0 <= j < r.len() && r[j] == x;
                if j < rest.len() {
                    assert(r[j] == rest[j]);
                    assert(rest.contains(x));
                    assert(without_id(d, id).contains(x));
                    assert(d.contains(x));
                    let t = choose|t: int| 0 <= t < d.len() && d[t] == x;
                    assert(ids[t] == x);
                } else {
                    assert(ids[ids.len() - 1] == x);
                }
            }
            if ids.contains(x) && x != id {
                let j = choose|j: int| 0 <= j < ids.len() && ids[j] == x;
                if j < ids.len() - 1 {
                    assert(d[j] == x);
                    assert(d.contains(x));
                    assert(without_id(d, id).contains(x));
                    let t = choose|t: int| 0 <= t < rest.len() && rest[t] == x;
                    if ids.last() != id {
                        assert(r[t] == x);
                    }
                } else {
                    assert(r[rest.len() as int] == x);
                }
            }
        }
        if ids.no_duplicates() {
            assert(d.no_duplicates()) by {
                assert forall|a: int, b: int| 0 <= a < b < d.len() implies d[a] != d[b] by {
                    assert(d[a] == ids[a] && d[b] == ids[b]);
                }
            }
            if ids.last() != id {
                assert(!rest.contains(ids.last())) by {
                    if rest.contains(ids.last()) {
                        let t = choose|t: int| 0 <= t < d.len() && d[t] == ids.last();
                        assert(ids[t] == ids[ids.len() - 1]);
                    }
                }
                assert forall|a: int, b: int| 0 <= a < b < r.len() implies r[a] != r[b] by {
                    if b == rest.len() {
                        assert(r[a] == rest[a]);
                        assert(rest.contains(r[a]));
                        assert(without_id(d, id).contains(r[a]));
                    } else {
                        assert(r[a] == rest[a] && r[b] == rest[b]);
                    }
                }
            }
        }
    }
}

proof fn lemma_put_lobby_fresh(ls: Seq<LobbyView>, l: LobbyView) -> (j: int)
    requires
        forall|i: int| 0 <= i < ls.len() ==> (#[trigger] ls[i]).id != l.id,
    ensures
        0 <= j <= ls.len(),
        put_lobby(ls, l) == ls.insert(j, l),
    decreases ls.len(),
{
    if ls.len() == 0 {
        assert(seq![l] =~= ls.insert(0, l));
        0
    } else {
        assert(ls[0].id != l.id);
        if crate::textorder::seq_lt(l.id, ls[0].id) {
            assert(seq![l] + ls =~= ls.insert(0, l));
            0
        } else {
            let d = ls.drop_first();
            assert forall|i: int| 0 <= i < d.len() implies (#[trigger] d[i]).id != l.id by {
                assert(d[i] == ls[i + 1]);
            }
            let j2 = lemma_put_lobby_fresh(d, l);
            assert(seq![ls[0]] + d.insert(j2, l) =~= ls.insert(j2 + 1, l));
            j2 + 1
        }
    }
}


/// Player ids are distinct and lobby ids are distinct.
pub open spec fn ids_distinct(s: ServerView) -> bool {
    &&& forall|a: int, b: int| 0 <= a < s.players.len() && 0 <= b < s.players.len() && a != b
        ==> (#[trigger] s.players[a]).id != (#[trigger] s.players[b]).id
    &&& forall|a: int, b: int| 0 <= a < s.lobbies.len() && 0 <= b < s.lobbies.len() && a != b
        ==> (#[trigger] s.lobbies[a]).id != (#[trigger] s.lobbies[b]).id
}

proof fn lemma_wf_ids_distinct(s: ServerView)
    requires
        server_wf(s),
    ensures
        ids_distinct(s),
{
    assert forall|a: int, b: int| 0 <= a < s.lobbies.len() && 0 <= b < s.lobbies.len() && a != b
        implies (#[trigger] s.lobbies[a]).id != (#[trigger] s.lobbies[b]).id by {
        crate::textorder::lemma_seq_lt_irreflexive(s.lobbies[a].id);
        if a < b {
            assert(crate::textorder::seq_lt(s.lobbies[a].id, s.lobbies[b].id));
        } else {
            assert(crate::textorder::seq_lt(s.lobbies[b].id, s.lobbies[a].id));
        }
    }
}

/// Changing only names (ids and recorded lobbies stay) keeps consistency.
proof fn lemma_frame_players(s: ServerView, t: ServerView)
    requires
        lobbies_consistent(s),
        t.lobbies == s.lobbies,
        t.players.len() == s.players.len(),
        forall|i: int| 0 <= i < s.players.len() ==> (#[trigger] t.players[i]).id == s.players[i].id
            && t.players[i].lobby_id == s.players[i].lobby_id,
    ensures
        lobbies_consistent(t),
{
    reveal(lobbies_consistent);
    assert forall|m: Seq<char>, l: Seq<char>| records(s, m, l) implies records(t, m, l) by {
        let pi = choose|pi: int| 0 <= pi < s.players.len() && (#[trigger] s.players[pi]).id == m && s.players[pi].lobby_id == Some(l);
        assert(t.players[pi].id == m);
    }
    assert forall|li: int| 0 <= li < t.lobbies.len() implies lobby_ok(t, #[trigger] t.lobbies[li]) by {
        assert(lobby_ok(s, s.lobbies[li]));
        let l = t.lobbies[li];
        assert forall|k: int| 0 <= k < l.player_ids.len() implies records(t, #[trigger] l.player_ids[k], l.id) by {
            assert(records(s, l.player_ids[k], l.id));
        }
    }
    assert forall|pi: int| 0 <= pi < t.players.len() implies player_listed(t, #[trigger] t.players[pi]) by {
        assert(player_listed(s, s.players[pi]));
        if let Some(lid) = t.players[pi].lobby_id {
            assert(lists(s, lid, s.players[pi].id));
            let li = choose|li: int| 0 <= li < s.lobbies.len() && (#[trigger] s.lobbies[li]).id == lid && s.lobbies[li].player_ids.contains(s.players[pi].id);
            assert(t.lobbies[li].id == lid);
        }
    }
}

/// Changing lobbies but not their ids, members or hosts keeps consistency.
proof fn lemma_frame_lobbies(s: ServerView, t: ServerView)
    requires
        lobbies_consistent(s),
        t.players == s.players,
        t.lobbies.len() == s.lobbies.len(),
        forall|i: int| 0 <= i < s.lobbies.len() ==> (#[trigger] t.lobbies[i]).id == s.lobbies[i].id
            && t.lobbies[i].player_ids == s.lobbies[i].player_ids
            && t.lobbies[i].host_player_id == s.lobbies[i].host_player_id,
    ensures
        lobbies_consistent(t),
{
    reveal(lobbies_consistent);
    assert forall|m: Seq<char>, l: Seq<char>| records(s, m, l) implies records(t, m, l) by {
        let pi = choose|pi: int| 0 <= pi < s.players.len() && (#[trigger] s.players[pi]).id == m && s.players[pi].lobby_id == Some(l);
        assert(t.players[pi].id == m);
    }
    assert forall|li: int| 0 <= li < t.lobbies.len() implies lobby_ok(t, #[trigger] t.lobbies[li]) by {
        assert(lobby_ok(s, s.lobbies[li]));
        let l = t.lobbies[li];
        assert forall|k: int| 0 <= k < l.player_ids.len() implies records(t, #[trigger] l.player_ids[k], l.id) by {
            assert(l.player_ids[k] == s.lobbies[li].player_ids[k]);
            assert(records(s, s.lobbies[li].player_ids[k], s.lobbies[li].id));
        }
    }
    assert forall|pi: int| 0 <= pi < t.players.len() implies player_listed(t, #[trigger] t.players[pi]) by {
        assert(player_listed(s, s.players[pi]));
        if let Some(lid) = t.players[pi].lobby_id {
            let li = choose|li: int| 0 <= li < s.lobbies.len() && (#[trigger] s.lobbies[li]).id == lid && s.lobbies[li].player_ids.contains(s.players[pi].id);
            assert(t.lobbies[li].id == lid);
            assert(t.lobbies[li].player_ids == s.lobbies[li].player_ids);
        }
    }
}


/// Facts about a consistent state: the lobby a member records is the lobby
/// that lists it.
proof fn lemma_member_records(s: ServerView, li: int, k: int, pi: int)
    requires
        ids_distinct(s),
        lobbies_consistent(s),
        0 <= li < s.lobbies.len(),
        0 <= k < s.lobbies[li].player_ids.len(),
        0 <= pi < s.players.len(),
        s.players[pi].id == s.lobbies[li].player_ids[k],
    ensures
        s.players[pi].lobby_id == Some(s.lobbies[li].id),
{
    reveal(lobbies_consistent);
    assert(lobby_ok(s, s.lobbies[li]));
    assert(records(s, s.lobbies[li].player_ids[k], s.lobbies[li].id));
    let pj = choose|pj: int| 0 <= pj < s.players.len() && (#[trigger] s.players[pj]).id == s.lobbies[li].player_ids[k]
        && s.players[pj].lobby_id == Some(s.lobbies[li].id);
    assert(pj == pi);
}

pub open spec fn same_ids(s: ServerView, t: ServerView) -> bool {
    &&& t.players.len() == s.players.len()
    &&& forall|i: int| 0 <= i < s.players.len() ==> (#[trigger] t.players[i]).id == s.players[i].id
}

pub open spec fn lobby_ids_within(s: ServerView, t: ServerView) -> bool {
    forall|k: int| 0 <= k < t.lobbies.len() ==> exists|k2: int| 0 <= k2 < s.lobbies.len() && (#[trigger] s.lobbies[k2]).id == (#[trigger] t.lobbies[k]).id
}

/// The context of a player `pid` (at `pi`) leaving lobby `li`.
pub open spec fn leaving(s: ServerView, pid: Seq<char>, pi: int, li: int) -> bool {
    &&& ids_distinct(s)
    &&& lobbies_consistent(s)
    &&& 0 <= pi < s.players.len()
    &&& s.players[pi].id == pid
    &&& 0 <= li < s.lobbies.len()
    &&& s.players[pi].lobby_id == Some(s.lobbies[li].id)
    &&& s.lobbies[li].player_ids.contains(pid)
}

proof fn lemma_leaving_facts(s: ServerView, pid: Seq<char>, pi: int, li: int)
    requires
        leaving(s, pid, pi, li),
    ensures
        forall|k: int| 0 <= k < s.lobbies.len() && k != li ==> !(#[trigger] s.lobbies[k]).player_ids.contains(pid),
        forall|m: Seq<char>, lobby: Seq<char>| m != pid && #[trigger] records(s, m, lobby) ==> exists|pj: int|
            0 <= pj < s.players.len() && pj != pi && (#[trigger] s.players[pj]).id == m && s.players[pj].lobby_id == Some(lobby),
{
    reveal(lobbies_consistent);
    assert forall|k: int| 0 <= k < s.lobbies.len() && k != li implies !(#[trigger] s.lobbies[k]).player_ids.contains(pid) by {
        if s.lobbies[k].player_ids.contains(pid) {
            let x = choose|x: int| 0 <= x < s.lobbies[k].player_ids.len() && s.lobbies[k].player_ids[x] == pid;
            lemma_member_records(s, k, x, pi);
        }
    }
    assert forall|m: Seq<char>, lobby: Seq<char>| m != pid && #[trigger] records(s, m, lobby) implies exists|pj: int|
        0 <= pj < s.players.len() && pj != pi && (#[trigger] s.players[pj]).id == m && s.players[pj].lobby_id == Some(lobby) by {
        let pj = choose|pj: int| 0 <= pj < s.players.len() && (#[trigger] s.players[pj]).id == m && s.players[pj].lobby_id == Some(lobby);
        assert(pj != pi);
    }
}

pub open spec fn cleared(s: ServerView, pi: int) -> Seq<PlayerView> {
    s.players.update(pi, PlayerView { lobby_id: None, ..s.players[pi] })
}

/// The last member leaves: the lobby closes.
proof fn lemma_leave_closes(s: ServerView, pid: Seq<char>, pi: int, li: int)
    requires
        leaving(s, pid, pi, li),
        without_id(s.lobbies[li].player_ids, pid).len() == 0,
    ensures
        lobbies_consistent(ServerView { players: cleared(s, pi), lobbies: s.lobbies.remove(li) }),
        ids_distinct(ServerView { players: cleared(s, pi), lobbies: s.lobbies.remove(li) }),
        lobby_ids_within(s, ServerView { players: cleared(s, pi), lobbies: s.lobbies.remove(li) }),
{
    reveal(lobbies_consistent);
    let t = ServerView { players: cleared(s, pi), lobbies: s.lobbies.remove(li) };
    let l = s.lobbies[li];
    lemma_leaving_facts(s, pid, pi, li);
    lemma_without_id(l.player_ids, pid);
    assert forall|k: int| 0 <= k < t.lobbies.len() implies lobby_ok(t, #[trigger] t.lobbies[k]) by {
        let k2 = if k < li { k } else { k + 1 };
        assert(t.lobbies[k] == s.lobbies[k2]);
        assert(lobby_ok(s, s.lobbies[k2]));
        let lk = t.lobbies[k];
        assert forall|x: int| 0 <= x < lk.player_ids.len() implies records(t, #[trigger] lk.player_ids[x], lk.id) by {
            assert(records(s, lk.player_ids[x], lk.id));
            assert(lk.player_ids[x] != pid) by {
                if lk.player_ids[x] == pid {
                    assert(s.lobbies[k2].player_ids.contains(pid));
                }
            }
            let pj = choose|pj: int| 0 <= pj < s.players.len() && pj != pi && (#[trigger] s.players[pj]).id == lk.player_ids[x]
                && s.players[pj].lobby_id == Some(lk.id);
            assert(t.players[pj] == s.players[pj]);
        }
    }
    assert forall|q: int| 0 <= q < t.players.len() implies player_listed(t, #[trigger] t.players[q]) by {
        if q != pi {
            assert(t.players[q] == s.players[q]);
            assert(player_listed(s, s.players[q]));
            if let Some(ql) = s.players[q].lobby_id {
                let lk = choose|lk: int| 0 <= lk < s.lobbies.len() && (#[trigger] s.lobbies[lk]).id == ql && s.lobbies[lk].player_ids.contains(s.players[q].id);
                if lk == li {
                    assert(s.players[q].id != pid);
                    assert(without_id(l.player_ids, pid).contains(s.players[q].id));
                } else {
                    let k = if lk < li { lk } else { lk - 1 };
                    assert(t.lobbies[k] == s.lobbies[lk]);
                }
            }
        }
    }
    assert forall|k: int| 0 <= k < t.lobbies.len() implies exists|k2: int| 0 <= k2 < s.lobbies.len() && (#[trigger] s.lobbies[k2]).id == (#[trigger] t.lobbies[k]).id by {
        let k2 = if k < li { k } else { k + 1 };
        assert(t.lobbies[k] == s.lobbies[k2]);
    }
    assert forall|a: int, b: int| 0 <= a < t.lobbies.len() && 0 <= b < t.lobbies.len() && a != b
        implies (#[trigger] t.lobbies[a]).id != (#[trigger] t.lobbies[b]).id by {
        let a2 = if a < li { a } else { a + 1 };
        let b2 = if b < li { b } else { b + 1 };
        assert(t.lobbies[a] == s.lobbies[a2] && t.lobbies[b] == s.lobbies[b2]);
    }
}

/// A member leaves a lobby that keeps others: it stays, with a new host if
/// the host left.
proof fn lemma_leave_keeps(s: ServerView, pid: Seq<char>, pi: int, li: int, nl: LobbyView)
    requires
        leaving(s, pid, pi, li),
        nl.id == s.lobbies[li].id,
        nl.player_ids == without_id(s.lobbies[li].player_ids, pid),
        nl.player_ids.len() > 0,
        nl.host_player_id == (if s.lobbies[li].host_player_id == pid { nl.player_ids[0] } else { s.lobbies[li].host_player_id }),
    ensures
        lobbies_consistent(ServerView { players: cleared(s, pi), lobbies: s.lobbies.update(li, nl) }),
        ids_distinct(ServerView { players: cleared(s, pi), lobbies: s.lobbies.update(li, nl) }),
        lobby_ids_within(s, ServerView { players: cleared(s, pi), lobbies: s.lobbies.update(li, nl) }),
{
    reveal(lobbies_consistent);
    let t = ServerView { players: cleared(s, pi), lobbies: s.lobbies.update(li, nl) };
    let l = s.lobbies[li];
    let members = nl.player_ids;
    lemma_leaving_facts(s, pid, pi, li);
    lemma_without_id(l.player_ids, pid);
    assert(lobby_ok(s, l));
    assert(members.contains(nl.host_player_id)) by {
        if l.host_player_id == pid {
            assert(members[0] == members[0]);
        } else {
            assert(l.player_ids.contains(l.host_player_id));
        }
    }
    assert forall|k: int| 0 <= k < t.lobbies.len() implies lobby_ok(t, #[trigger] t.lobbies[k]) by {
        let lk = t.lobbies[k];
        if k == li {
            assert forall|x: int| 0 <= x < members.len() implies records(t, #[trigger] members[x], l.id) by {
                assert(members.contains(members[x]));
                assert(l.player_ids.contains(members[x]));
                let y = choose|y: int| 0 <= y < l.player_ids.len() && l.player_ids[y] == members[x];
                assert(records(s, l.player_ids[y], l.id));
                let pj = choose|pj: int| 0 <= pj < s.players.len() && pj != pi && (#[trigger] s.players[pj]).id == members[x]
                    && s.players[pj].lobby_id == Some(l.id);
                assert(t.players[pj] == s.players[pj]);
            }
        } else {
            assert(lk == s.lobbies[k]);
            assert(lobby_ok(s, s.lobbies[k]));
            assert forall|x: int| 0 <= x < lk.player_ids.len() implies records(t, #[trigger] lk.player_ids[x], lk.id) by {
                assert(records(s, lk.player_ids[x], lk.id));
                assert(lk.player_ids[x] != pid) by {
                    if lk.player_ids[x] == pid {
                        assert(s.lobbies[k].player_ids.contains(pid));
                    }
                }
                let pj = choose|pj: int| 0 <= pj < s.players.len() && pj != pi && (#[trigger] s.players[pj]).id == lk.player_ids[x]
                    && s.players[pj].lobby_id == Some(lk.id);
                assert(t.players[pj] == s.players[pj]);
            }
        }
    }
    assert forall|q: int| 0 <= q < t.players.len() implies player_listed(t, #[trigger] t.players[q]) by {
        if q != pi {
            assert(t.players[q] == s.players[q]);
            assert(player_listed(s, s.players[q]));
            if let Some(ql) = s.players[q].lobby_id {
                let lk = choose|lk: int| 0 <= lk < s.lobbies.len() && (#[trigger] s.lobbies[lk]).id == ql && s.lobbies[lk].player_ids.contains(s.players[q].id);
                if lk == li {
                    assert(s.players[q].id != pid);
                    assert(members.contains(s.players[q].id));
                    assert(t.lobbies[li].id == ql);
                } else {
                    assert(t.lobbies[lk] == s.lobbies[lk]);
                }
            }
        }
    }
    assert forall|k: int| 0 <= k < t.lobbies.len() implies exists|k2: int| 0 <= k2 < s.lobbies.len() && (#[trigger] s.lobbies[k2]).id == (#[trigger] t.lobbies[k]).id by {
        assert(s.lobbies[k].id == t.lobbies[k].id);
    }
    assert forall|a: int, b: int| 0 <= a < t.lobbies.len() && 0 <= b < t.lobbies.len() && a != b
        implies (#[trigger] t.lobbies[a]).id != (#[trigger] t.lobbies[b]).id by {
        assert(t.lobbies[a].id == s.lobbies[a].id && t.lobbies[b].id == s.lobbies[b].id);
    }
}

/// After `leave`, the state is still consistent, the player records no
/// lobby, and nobody else changed.
proof fn lemma_leave(s: ServerView, pid: Seq<char>)
    requires
        ids_distinct(s),
        lobbies_consistent(s),
    ensures
        lobbies_consistent(leave_state(s, pid)),
        ids_distinct(leave_state(s, pid)),
        same_ids(s, leave_state(s, pid)),
        lobby_ids_within(s, leave_state(s, pid)),
        forall|i: int| 0 <= i < s.players.len() && s.players[i].id != pid ==> (#[trigger] leave_state(s, pid).players[i]) == s.players[i],
        forall|i: int| 0 <= i < s.players.len() && s.players[i].id == pid ==> (#[trigger] leave_state(s, pid).players[i]).lobby_id is None,
{
    reveal(leave_state);
    let t = leave_state(s, pid);
    if find_player(s.players, pid) is Some && s.players[find_player(s.players, pid)->0].lobby_id is Some {
        let pi = find_player(s.players, pid)->0;
        let lid = s.players[pi].lobby_id->0;
        assert(s.players[pi].id == pid);
        assert(player_listed(s, s.players[pi])) by {
            reveal(lobbies_consistent);
        }
        let li = choose|li: int| 0 <= li < s.lobbies.len() && (#[trigger] s.lobbies[li]).id == lid && s.lobbies[li].player_ids.contains(pid);
        assert(find_lobby(s.lobbies, lid) == Some(li)) by {
            let c = choose|c: int| 0 <= c < s.lobbies.len() && (#[trigger] s.lobbies[c]).id == lid;
            assert(c == li);
        }
        lemma_leave_from(s, pid, pi, li);
    } else {
        lemma_leave_noop(s, pid);
    }
}

proof fn lemma_leave_noop(s: ServerView, pid: Seq<char>)
    requires
        ids_distinct(s),
        lobbies_consistent(s),
        !(find_player(s.players, pid) is Some && s.players[find_player(s.players, pid)->0].lobby_id is Some),
    ensures
        leave_state(s, pid) == s,
        lobby_ids_within(s, s),
        forall|i: int| 0 <= i < s.players.len() && s.players[i].id == pid ==> (#[trigger] s.players[i]).lobby_id is None,
{
    reveal(leave_state);
    assert forall|k: int| 0 <= k < s.lobbies.len() implies exists|k2: int| 0 <= k2 < s.lobbies.len() && (#[trigger] s.lobbies[k2]).id == (#[trigger] s.lobbies[k]).id by {
    }
    if find_player(s.players, pid) is Some {
        let pi = find_player(s.players, pid)->0;
        assert forall|i: int| 0 <= i < s.players.len() && s.players[i].id == pid implies i == pi by {}
    }
}

proof fn lemma_leave_from(s: ServerView, pid: Seq<char>, pi: int, li: int)
    requires
        leaving(s, pid, pi, li),
        find_player(s.players, pid) == Some(pi),
        find_lobby(s.lobbies, s.lobbies[li].id) == Some(li),
    ensures
        lobbies_consistent(leave_state(s, pid)),
        ids_distinct(leave_state(s, pid)),
        same_ids(s, leave_state(s, pid)),
        lobby_ids_within(s, leave_state(s, pid)),
        forall|i: int| 0 <= i < s.players.len() && s.players[i].id != pid ==> (#[trigger] leave_state(s, pid).players[i]) == s.players[i],
        forall|i: int| 0 <= i < s.players.len() && s.players[i].id == pid ==> (#[trigger] leave_state(s, pid).players[i]).lobby_id is None,
{
    reveal(leave_state);
    let t = leave_state(s, pid);
    let l = s.lobbies[li];
    let members = without_id(l.player_ids, pid);
    if members.len() == 0 {
        lemma_leave_closes(s, pid, pi, li);
        assert(t == ServerView { players: cleared(s, pi), lobbies: s.lobbies.remove(li) });
    } else {
        let host = if l.host_player_id == pid { members[0] } else { l.host_player_id };
        let nl = LobbyView {
            player_ids: members,
            snapshots: crate::lobby::without_snapshot(l.snapshots, pid),
            host_player_id: host,
            ..l
        };
        lemma_leave_keeps(s, pid, pi, li, nl);
        assert(t == ServerView { players: cleared(s, pi), lobbies: s.lobbies.update(li, nl) });
    }
    assert forall|i: int| 0 <= i < s.players.len() && s.players[i].id == pid implies i == pi by {}
}


/// A player with no recorded lobby is listed in no lobby.
proof fn lemma_unlisted(s: ServerView, pid: Seq<char>, pi: int)
    requires
        ids_distinct(s),
        lobbies_consistent(s),
        0 <= pi < s.players.len(),
        s.players[pi].id == pid,
        s.players[pi].lobby_id is None,
    ensures
        forall|k: int| 0 <= k < s.lobbies.len() ==> !(#[trigger] s.lobbies[k]).player_ids.contains(pid),
{
    assert forall|k: int| 0 <= k < s.lobbies.len() implies !(#[trigger] s.lobbies[k]).player_ids.contains(pid) by {
        if s.lobbies[k].player_ids.contains(pid) {
            let x = choose|x: int| 0 <= x < s.lobbies[k].player_ids.len() && s.lobbies[k].player_ids[x] == pid;
            lemma_member_records(s, k, x, pi);
        }
    }
}

/// The unlisted player `pid` (at `pi`) joins lobby `li`, whose members it
/// becomes the last of, and records it.
proof fn lemma_add_member(s: ServerView, pid: Seq<char>, pi: int, li: int, nl: LobbyView)
    requires
        ids_distinct(s),
        lobbies_consistent(s),
        0 <= pi < s.players.len(),
        s.players[pi].id == pid,
        s.players[pi].lobby_id is None,
        0 <= li < s.lobbies.len(),
        s.lobbies[li].player_ids.len() < MAX_LOBBY_PLAYERS,
        nl == (LobbyView { player_ids: s.lobbies[li].player_ids.push(pid), ..s.lobbies[li] }),
    ensures
        lobbies_consistent(ServerView {
            players: s.players.update(pi, PlayerView { lobby_id: Some(s.lobbies[li].id), ..s.players[pi] }),
            lobbies: s.lobbies.update(li, nl),
        }),
        ids_distinct(ServerView {
            players: s.players.update(pi, PlayerView { lobby_id: Some(s.lobbies[li].id), ..s.players[pi] }),
            lobbies: s.lobbies.update(li, nl),
        }),
{
    reveal(lobbies_consistent);
    let t = ServerView {
        players: s.players.update(pi, PlayerView { lobby_id: Some(s.lobbies[li].id), ..s.players[pi] }),
        lobbies: s.lobbies.update(li, nl),
    };
    let l = s.lobbies[li];
    lemma_unlisted(s, pid, pi);
    assert forall|m: Seq<char>, lobby: Seq<char>| m != pid && records(s, m, lobby) implies records(t, m, lobby) by {
        let pj = choose|pj: int| 0 <= pj < s.players.len() && (#[trigger] s.players[pj]).id == m && s.players[pj].lobby_id == Some(lobby);
        assert(pj != pi);
        assert(t.players[pj] == s.players[pj]);
    }
    assert(records(t, pid, l.id)) by {
        assert(t.players[pi].id == pid);
    }
    assert forall|k: int| 0 <= k < t.lobbies.len() implies lobby_ok(t, #[trigger] t.lobbies[k]) by {
        assert(lobby_ok(s, s.lobbies[k]));
        if k == li {
            assert(!l.player_ids.contains(pid));
            assert(nl.player_ids.no_duplicates()) by {
                assert forall|a: int, b: int| 0 <= a < b < nl.player_ids.len() implies nl.player_ids[a] != nl.player_ids[b] by {
                    if b == l.player_ids.len() {
                        assert(nl.player_ids[a] == l.player_ids[a]);
                    } else {
                        assert(nl.player_ids[a] == l.player_ids[a] && nl.player_ids[b] == l.player_ids[b]);
                    }
                }
            }
            assert(nl.player_ids.contains(nl.host_player_id)) by {
                let h = choose|h: int| 0 <= h < l.player_ids.len() && l.player_ids[h] == l.host_player_id;
                assert(nl.player_ids[h] == l.host_player_id);
            }
            assert forall|x: int| 0 <= x < nl.player_ids.len() implies records(t, #[trigger] nl.player_ids[x], nl.id) by {
                if x < l.player_ids.len() {
                    assert(nl.player_ids[x] == l.player_ids[x]);
                    assert(records(s, l.player_ids[x], l.id));
                    assert(l.player_ids[x] != pid) by {
                        if l.player_ids[x] == pid {
                            assert(l.player_ids.contains(pid));
                        }
                    }
                }
            }
        } else {
            let lk = t.lobbies[k];
            assert(lk == s.lobbies[k]);
            assert forall|x: int| 0 <= x < lk.player_ids.len() implies records(t, #[trigger] lk.player_ids[x], lk.id) by {
                assert(records(s, lk.player_ids[x], lk.id));
                assert(lk.player_ids[x] != pid) by {
                    if lk.player_ids[x] == pid {
                        assert(s.lobbies[k].player_ids.contains(pid));
                    }
                }
            }
        }
    }
    assert forall|q: int| 0 <= q < t.players.len() implies player_listed(t, #[trigger] t.players[q]) by {
        if q == pi {
            assert(t.lobbies[li].id == l.id);
            assert(nl.player_ids[l.player_ids.len() as int] == pid);
            assert(t.lobbies[li].player_ids.contains(pid));
        } else {
            assert(t.players[q] == s.players[q]);
            assert(player_listed(s, s.players[q]));
            if let Some(ql) = s.players[q].lobby_id {
                let lk = choose|lk: int| 0 <= lk < s.lobbies.len() && (#[trigger] s.lobbies[lk]).id == ql && s.lobbies[lk].player_ids.contains(s.players[q].id);
                if lk == li {
                    let y = choose|y: int| 0 <= y < l.player_ids.len() && l.player_ids[y] == s.players[q].id;
                    assert(nl.player_ids[y] == s.players[q].id);
                    assert(t.lobbies[li].player_ids.contains(s.players[q].id));
                } else {
                    assert(t.lobbies[lk] == s.lobbies[lk]);
                }
            }
        }
    }
    assert forall|a: int, b: int| 0 <= a < t.lobbies.len() && 0 <= b < t.lobbies.len() && a != b
        implies (#[trigger] t.lobbies[a]).id != (#[trigger] t.lobbies[b]).id by {
        assert(t.lobbies[a].id == s.lobbies[a].id && t.lobbies[b].id == s.lobbies[b].id);
    }
}

/// The unlisted player `pid` (at `pi`) opens a new lobby `l` (inserted at
/// `j`) as its only member and records it.
proof fn lemma_open_lobby(s: ServerView, pid: Seq<char>, pi: int, j: int, l: LobbyView)
    requires
        ids_distinct(s),
        lobbies_consistent(s),
        0 <= pi < s.players.len(),
        s.players[pi].id == pid,
        s.players[pi].lobby_id is None,
        0 <= j <= s.lobbies.len(),
        forall|k: int| 0 <= k < s.lobbies.len() ==> (#[trigger] s.lobbies[k]).id != l.id,
        l.player_ids == seq![pid],
        l.host_player_id == pid,
    ensures
        lobbies_consistent(ServerView {
            players: s.players.update(pi, PlayerView { lobby_id: Some(l.id), ..s.players[pi] }),
            lobbies: s.lobbies.insert(j, l),
        }),
        ids_distinct(ServerView {
            players: s.players.update(pi, PlayerView { lobby_id: Some(l.id), ..s.players[pi] }),
            lobbies: s.lobbies.insert(j, l),
        }),
{
    reveal(lobbies_consistent);
    let t = ServerView {
        players: s.players.update(pi, PlayerView { lobby_id: Some(l.id), ..s.players[pi] }),
        lobbies: s.lobbies.insert(j, l),
    };
    lemma_unlisted(s, pid, pi);
    assert forall|m: Seq<char>, lobby: Seq<char>| m != pid && records(s, m, lobby) implies records(t, m, lobby) by {
        let pj = choose|pj: int| 0 <= pj < s.players.len() && (#[trigger] s.players[pj]).id == m && s.players[pj].lobby_id == Some(lobby);
        assert(pj != pi);
        assert(t.players[pj] == s.players[pj]);
    }
    assert(records(t, pid, l.id)) by {
        assert(t.players[pi].id == pid);
    }
    assert forall|k: int| 0 <= k < t.lobbies.len() implies lobby_ok(t, #[trigger] t.lobbies[k]) by {
        if k == j {
            assert(t.lobbies[k] == l);
            assert(l.player_ids.contains(pid)) by {
                assert(l.player_ids[0] == pid);
            }
            assert forall|x: int| 0 <= x < l.player_ids.len() implies records(t, #[trigger] l.player_ids[x], l.id) by {
                assert(l.player_ids[x] == pid);
            }
        } else {
            let k2 = if k < j { k } else { k - 1 };
            assert(t.lobbies[k] == s.lobbies[k2]);
            assert(lobby_ok(s, s.lobbies[k2]));
            let lk = t.lobbies[k];
            assert forall|x: int| 0 <= x < lk.player_ids.len() implies records(t, #[trigger] lk.player_ids[x], lk.id) by {
                assert(records(s, lk.player_ids[x], lk.id));
                assert(lk.player_ids[x] != pid) by {
                    if lk.player_ids[x] == pid {
                        assert(s.lobbies[k2].player_ids.contains(pid));
                    }
                }
            }
        }
    }
    assert forall|q: int| 0 <= q < t.players.len() implies player_listed(t, #[trigger] t.players[q]) by {
        if q == pi {
            assert(t.lobbies[j] == l);
            assert(l.player_ids[0] == pid);
            assert(t.lobbies[j].player_ids.contains(pid));
        } else {
            assert(t.players[q] == s.players[q]);
            assert(player_listed(s, s.players[q]));
            if let Some(ql) = s.players[q].lobby_id {
                let lk = choose|lk: int| 0 <= lk < s.lobbies.len() && (#[trigger] s.lobbies[lk]).id == ql && s.lobbies[lk].player_ids.contains(s.players[q].id);
                let k = if lk < j { lk } else { lk + 1 };
                assert(t.lobbies[k] == s.lobbies[lk]);
            }
        }
    }
    assert forall|a: int, b: int| 0 <= a < t.lobbies.len() && 0 <= b < t.lobbies.len() && a != b
        implies (#[trigger] t.lobbies[a]).id != (#[trigger] t.lobbies[b]).id by {
        if a == j {
            let b2 = if b < j { b } else { b - 1 };
            assert(t.lobbies[b] == s.lobbies[b2]);
        } else if b == j {
            let a2 = if a < j { a } else { a - 1 };
            assert(t.lobbies[a] == s.lobbies[a2]);
        } else {
            let a2 = if a < j { a } else { a - 1 };
            let b2 = if b < j { b } else { b - 1 };
            assert(t.lobbies[a] == s.lobbies[a2] && t.lobbies[b] == s.lobbies[b2]);
        }
    }
}


proof fn lemma_named(s: ServerView, pid: Seq<char>, raw: Seq<char>)
    requires
        ids_distinct(s),
        lobbies_consistent(s),
    ensures
        lobbies_consistent(set_player_name(s, pid, raw)),
        ids_distinct(set_player_name(s, pid, raw)),
        set_player_name(s, pid, raw).lobbies == s.lobbies,
        same_ids(s, set_player_name(s, pid, raw)),
        forall|i: int| 0 <= i < s.players.len() ==> (#[trigger] set_player_name(s, pid, raw).players[i]).lobby_id == s.players[i].lobby_id,
{
    let t = set_player_name(s, pid, raw);
    lemma_frame_players(s, t);
}

/// The sender (connected, at `pi`) after leaving and renaming: unlisted.
proof fn lemma_leave_and_name(s: ServerView, pid: Seq<char>, raw: Seq<char>) -> (pi: int)
    requires
        ids_distinct(s),
        lobbies_consistent(s),
        find_player(s.players, pid) is Some,
    ensures
        pi == find_player(s.players, pid)->0,
        lobbies_consistent(set_player_name(leave_state(s, pid), pid, raw)),
        ids_distinct(set_player_name(leave_state(s, pid), pid, raw)),
        lobby_ids_within(s, set_player_name(leave_state(s, pid), pid, raw)),
        0 <= pi < set_player_name(leave_state(s, pid), pid, raw).players.len(),
        set_player_name(leave_state(s, pid), pid, raw).players[pi].id == pid,
        set_player_name(leave_state(s, pid), pid, raw).players[pi].lobby_id is None,
        find_player(set_player_name(leave_state(s, pid), pid, raw).players, pid) == Some(pi),
{
    let pi = find_player(s.players, pid)->0;
    lemma_leave(s, pid);
    let s1 = leave_state(s, pid);
    lemma_named(s1, pid, raw);
    let s2 = set_player_name(s1, pid, raw);
    assert(s2.players[pi].id == pid);
    lemma_find_player_at(s2.players, pid, pi);
    assert forall|k: int| 0 <= k < s2.lobbies.len() implies exists|k2: int| 0 <= k2 < s.lobbies.len() && (#[trigger] s.lobbies[k2]).id == (#[trigger] s2.lobbies[k]).id by {
        assert(s2.lobbies[k] == s1.lobbies[k]);
    }
    pi
}

proof fn lemma_create(s: ServerView, pid: Seq<char>, pname: Seq<char>, lname: Seq<char>, new_id: Seq<char>)
    requires
        ids_distinct(s),
        lobbies_consistent(s),
        find_player(s.players, pid) is Some,
        find_lobby(s.lobbies, new_id) is None,
    ensures
        lobbies_consistent(create_lobby(s, pid, pname, lname, new_id).0),
        ids_distinct(create_lobby(s, pid, pname, lname, new_id).0),
{
    let pi = lemma_leave_and_name(s, pid, pname);
    let s2 = set_player_name(leave_state(s, pid), pid, pname);
    let l = LobbyView {
        id: new_id,
        name: crate::lobby::clean_lobby_name(s2, pid, lname),
        host_player_id: pid,
        player_ids: seq![pid],
        status: crate::protocol::LobbyStatus::Waiting,
        mode: Some(crate::protocol::GameMode::Standard),
        layout: None,
        snapshots: Seq::empty(),
    };
    assert forall|k: int| 0 <= k < s2.lobbies.len() implies (#[trigger] s2.lobbies[k]).id != new_id by {
        let k2 = choose|k2: int| 0 <= k2 < s.lobbies.len() && (#[trigger] s.lobbies[k2]).id == s2.lobbies[k].id;
    }
    let j = lemma_put_lobby_fresh(s2.lobbies, l);
    lemma_open_lobby(s2, pid, pi, j, l);
    let s3 = ServerView { players: s2.players, lobbies: put_lobby(s2.lobbies, l) };
    assert(find_player(s3.players, pid) == Some(pi));
    assert(create_lobby(s, pid, pname, lname, new_id).0 == ServerView {
        players: s2.players.update(pi, PlayerView { lobby_id: Some(l.id), ..s2.players[pi] }),
        lobbies: s2.lobbies.insert(j, l),
    });
}

proof fn lemma_enter(s: ServerView, pid: Seq<char>, pi: int, lid: Seq<char>)
    requires
        ids_distinct(s),
        lobbies_consistent(s),
        0 <= pi < s.players.len(),
        s.players[pi].id == pid,
        s.players[pi].lobby_id is None,
        find_player(s.players, pid) == Some(pi),
    ensures
        lobbies_consistent(enter_lobby(s, pid, lid).0),
        ids_distinct(enter_lobby(s, pid, lid).0),
{
    if let Some(li) = find_lobby(s.lobbies, lid) {
        let l = s.lobbies[li];
        lemma_unlisted(s, pid, pi);
        assert(!l.player_ids.contains(pid));
        if l.status == crate::protocol::LobbyStatus::Waiting && l.player_ids.len() < MAX_LOBBY_PLAYERS {
            let nl = LobbyView { player_ids: l.player_ids.push(pid), ..l };
            lemma_add_member(s, pid, pi, li, nl);
            let s3 = with_lobby(s, li, nl);
            assert(find_player(s3.players, pid) == Some(pi));
            assert(enter_lobby(s, pid, lid).0 == ServerView {
                players: s.players.update(pi, PlayerView { lobby_id: Some(l.id), ..s.players[pi] }),
                lobbies: s.lobbies.update(li, nl),
            });
        }
    }
}

/// A change to one lobby that keeps its id, members and host.
proof fn lemma_lobby_fields(s: ServerView, li: int, nl: LobbyView)
    requires
        ids_distinct(s),
        lobbies_consistent(s),
        0 <= li < s.lobbies.len(),
        nl.id == s.lobbies[li].id,
        nl.player_ids == s.lobbies[li].player_ids,
        nl.host_player_id == s.lobbies[li].host_player_id,
    ensures
        lobbies_consistent(with_lobby(s, li, nl)),
        ids_distinct(with_lobby(s, li, nl)),
{
    let t = with_lobby(s, li, nl);
    lemma_frame_lobbies(s, t);
    assert forall|a: int, b: int| 0 <= a < t.lobbies.len() && 0 <= b < t.lobbies.len() && a != b
        implies (#[trigger] t.lobbies[a]).id != (#[trigger] t.lobbies[b]).id by {
        assert(t.lobbies[a].id == s.lobbies[a].id && t.lobbies[b].id == s.lobbies[b].id);
    }
}

/// Requests from connected players keep the lobbies consistent: every lobby
/// keeps between one and eight distinct members including its host, each of
/// them connected and recording that lobby, and a player recording a lobby
/// is always listed in it. (A new lobby's id must not already be in use.)
pub proof fn law_requests_keep_lobbies_consistent(
    s: ServerView,
    pid: Seq<char>,
    request: RequestView,
    new_lobby_id: Seq<char>,
    layout: LayoutView,
)
    requires
        server_wf(s),
        lobbies_consistent(s),
        find_player(s.players, pid) is Some,
        find_lobby(s.lobbies, new_lobby_id) is None,
    ensures
        lobbies_consistent(handle(s, pid, request, new_lobby_id, layout).0),
{
    lemma_wf_ids_distinct(s);
    match request {
        RequestView::ListLobbies => {},
        RequestView::CreateLobby { player_name, lobby_name } => {
            lemma_create(s, pid, player_name, lobby_name, new_lobby_id);
        },
        RequestView::JoinLobby { lobby_id, player_name } => {
            let pi = lemma_leave_and_name(s, pid, player_name);
            lemma_enter(set_player_name(leave_state(s, pid), pid, player_name), pid, pi, lobby_id);
        },
        RequestView::LeaveLobby => {
            lemma_leave(s, pid);
        },
        RequestView::SetMode { mode } => {
            if let Some(lid) = player_lobby_id(s, pid) {
                if let Some(li) = find_lobby(s.lobbies, lid) {
                    lemma_lobby_fields(s, li, LobbyView { mode: Some(mode), ..s.lobbies[li] });
                }
            }
        },
        RequestView::StartGame => {
            if let Some(lid) = player_lobby_id(s, pid) {
                if let Some(li) = find_lobby(s.lobbies, lid) {
                    lemma_lobby_fields(s, li, LobbyView {
                        status: crate::protocol::LobbyStatus::InGame,
                        layout: Some(layout),
                        ..s.lobbies[li]
                    });
                }
            }
        },
        RequestView::BoardSnapshot { snapshot } => {
            if let Some(lid) = player_lobby_id(s, pid) {
                if let Some(li) = find_lobby(s.lobbies, lid) {
                    lemma_lobby_fields(s, li, LobbyView {
                        snapshots: crate::lobby::put_snapshot(s.lobbies[li].snapshots, pid, snapshot),
                        ..s.lobbies[li]
                    });
                }
            }
        },
    }
}


/// An empty server is consistent.
pub proof fn law_new_server_consistent()
    ensures
        lobbies_consistent(ServerView { players: Seq::empty(), lobbies: Seq::empty() }),
        snapshots_among_members(ServerView { players: Seq::empty(), lobbies: Seq::empty() }),
{
    reveal(lobbies_consistent);
}

/// A new connection with an unused id keeps the lobbies consistent.
pub proof fn law_connect_keeps_lobbies_consistent(s: ServerView, id: Seq<char>)
    requires
        server_wf(s),
        lobbies_consistent(s),
        find_player(s.players, id) is None,
    ensures
        lobbies_consistent(connect(s, id).0),
{
    reveal(lobbies_consistent);
    let t = connect(s, id).0;
    let p = PlayerView { id, name: "Player"@, lobby_id: None };
    assert(t.players == s.players.push(p));
    assert forall|m: Seq<char>, lobby: Seq<char>| records(s, m, lobby) implies records(t, m, lobby) by {
        let pj = choose|pj: int| 0 <= pj < s.players.len() && (#[trigger] s.players[pj]).id == m && s.players[pj].lobby_id == Some(lobby);
        assert(t.players[pj] == s.players[pj]);
    }
    assert forall|k: int| 0 <= k < t.lobbies.len() implies lobby_ok(t, #[trigger] t.lobbies[k]) by {
        assert(lobby_ok(s, s.lobbies[k]));
        let lk = t.lobbies[k];
        assert forall|x: int| 0 <= x < lk.player_ids.len() implies records(t, #[trigger] lk.player_ids[x], lk.id) by {
            assert(records(s, lk.player_ids[x], lk.id));
        }
    }
    assert forall|q: int| 0 <= q < t.players.len() implies player_listed(t, #[trigger] t.players[q]) by {
        if q < s.players.len() {
            assert(t.players[q] == s.players[q]);
            assert(player_listed(s, s.players[q]));
        }
    }
}

/// A closed connection keeps the lobbies consistent: the player leaves its
/// lobby first, so no lobby lists a player that is gone.
pub proof fn law_disconnect_keeps_lobbies_consistent(s: ServerView, id: Seq<char>)
    requires
        server_wf(s),
        lobbies_consistent(s),
    ensures
        lobbies_consistent(disconnect(s, id).0),
{
    lemma_wf_ids_distinct(s);
    lemma_leave(s, id);
    let s1 = leave_state(s, id);
    assert(leave(s, id).0 == s1);
    if let Some(pi) = find_player(s1.players, id) {
        assert(s1.players[pi].id == id);
        assert(s.players[pi].id == id);
        lemma_unlisted(s1, id, pi);
        let t = ServerView { players: s1.players.remove(pi), lobbies: s1.lobbies };
        assert(disconnect(s, id).0 == t);
        reveal(lobbies_consistent);
        assert forall|m: Seq<char>, lobby: Seq<char>| m != id && records(s1, m, lobby) implies records(t, m, lobby) by {
            let pj = choose|pj: int| 0 <= pj < s1.players.len() && (#[trigger] s1.players[pj]).id == m && s1.players[pj].lobby_id == Some(lobby);
            assert(pj != pi);
            let pk = if pj < pi { pj } else { pj - 1 };
            assert(t.players[pk] == s1.players[pj]);
        }
        assert forall|k: int| 0 <= k < t.lobbies.len() implies lobby_ok(t, #[trigger] t.lobbies[k]) by {
            assert(lobby_ok(s1, s1.lobbies[k]));
            let lk = t.lobbies[k];
            assert forall|x: int| 0 <= x < lk.player_ids.len() implies records(t, #[trigger] lk.player_ids[x], lk.id) by {
                assert(records(s1, lk.player_ids[x], lk.id));
                assert(lk.player_ids[x] != id) by {
                    if lk.player_ids[x] == id {
                        assert(s1.lobbies[k].player_ids.contains(id));
                    }
                }
            }
        }
        assert forall|q: int| 0 <= q < t.players.len() implies player_listed(t, #[trigger] t.players[q]) by {
            let q2 = if q < pi { q } else { q + 1 };
            assert(t.players[q] == s1.players[q2]);
            assert(player_listed(s1, s1.players[q2]));
        }
    }
}

/// Leaving frees the player: afterwards it records no lobby and no lobby
/// lists it.
pub proof fn law_leave_frees_player(s: ServerView, pid: Seq<char>)
    requires
        server_wf(s),
        lobbies_consistent(s),
        find_player(s.players, pid) is Some,
    ensures
        player_lobby_id(leave(s, pid).0, pid) is None,
        forall|k: int| 0 <= k < leave(s, pid).0.lobbies.len() ==> !(#[trigger] leave(s, pid).0.lobbies[k]).player_ids.contains(pid),
        lobbies_consistent(leave(s, pid).0),
{
    lemma_wf_ids_distinct(s);
    lemma_leave(s, pid);
    let pi = find_player(s.players, pid)->0;
    let t = leave(s, pid).0;
    assert(t.players[pi].id == pid);
    lemma_find_player_at(t.players, pid, pi);
    lemma_unlisted(t, pid, pi);
}


/// Every snapshot the lobby keeps is keyed by one of its members.
pub open spec fn snapshot_keys_listed(l: LobbyView) -> bool {
    forall|k: int| 0 <= k < l.snapshots.len() ==> l.player_ids.contains(#[trigger] l.snapshots[k].0)
}

/// In every lobby, the snapshots are keyed by members of that lobby.
pub open spec fn snapshots_among_members(s: ServerView) -> bool {
    forall|li: int| 0 <= li < s.lobbies.len() ==> snapshot_keys_listed(#[trigger] s.lobbies[li])
}

proof fn lemma_put_lobby_elems(ls: Seq<LobbyView>, l: LobbyView)
    ensures
        forall|j: int| 0 <= j < put_lobby(ls, l).len()
            ==> #[trigger] put_lobby(ls, l)[j] == l || ls.contains(put_lobby(ls, l)[j]),
    decreases ls.len(),
{
    let r = put_lobby(ls, l);
    if ls.len() == 0 {
    } else if ls[0].id == l.id {
        assert forall|j: int| 0 <= j < r.len() implies #[trigger] r[j] == l || ls.contains(r[j]) by {
            if j != 0 {
                assert(r[j] == ls[j]);
            }
        }
    } else if crate::textorder::seq_lt(l.id, ls[0].id) {
        assert forall|j: int| 0 <= j < r.len() implies #[trigger] r[j] == l || ls.contains(r[j]) by {
            if j != 0 {
                assert(r[j] == ls[j - 1]);
            }
        }
    } else {
        let d = ls.drop_first();
        lemma_put_lobby_elems(d, l);
        assert forall|j: int| 0 <= j < r.len() implies #[trigger] r[j] == l || ls.contains(r[j]) by {
            if j == 0 {
                assert(r[0] == ls[0]);
            } else {
                assert(r[j] == put_lobby(d, l)[j - 1]);
                if put_lobby(d, l)[j - 1] != l {
                    let t = choose|t: int| 0 <= t < d.len() && d[t] == put_lobby(d, l)[j - 1];
                    assert(ls[t + 1] == d[t]);
                }
            }
        }
    }
}

proof fn lemma_without_snapshot_keys(v: Seq<(Seq<char>, crate::protocol::BoardSnapshotView)>, id: Seq<char>)
    ensures
        forall|k: int| 0 <= k < without_snapshot(v, id).len()
            ==> (#[trigger] without_snapshot(v, id)[k]).0 != id && v.contains(without_snapshot(v, id)[k]),
    decreases v.len(),
{
    if v.len() > 0 {
        let d = v.drop_last();
        lemma_without_snapshot_keys(d, id);
        let rest = without_snapshot(d, id);
        let r = without_snapshot(v, id);
        assert forall|k: int| 0 <= k < r.len() implies (#[trigger] r[k]).0 != id && v.contains(r[k]) by {
            if k < rest.len() {
                assert(r[k] == rest[k]);
                let t = choose|t: int| 0 <= t < d.len() && d[t] == rest[k];
                assert(v[t] == d[t]);
            } else {
                assert(r[k] == v[v.len() - 1]);
            }
        }
    }
}

/// Leaving keeps the snapshots among the members: the leaver's snapshot goes
/// with it.
proof fn lemma_leave_snapshots(s: ServerView, pid: Seq<char>)
    requires
        snapshots_among_members(s),
    ensures
        snapshots_among_members(leave_state(s, pid)),
{
    reveal(leave_state);
    let t = leave_state(s, pid);
    if let Some(pi) = find_player(s.players, pid) {
        if let Some(lid) = s.players[pi].lobby_id {
            let s1 = with_player(s, pi, PlayerView { lobby_id: None, ..s.players[pi] });
            assert(s1.lobbies == s.lobbies);
            if let Some(li) = find_lobby(s1.lobbies, lid) {
                let l = s1.lobbies[li];
                let members = without_id(l.player_ids, pid);
                if members.len() == 0 {
                    assert(t.lobbies == s.lobbies.remove(li));
                    assert forall|j: int| 0 <= j < t.lobbies.len() implies snapshot_keys_listed(#[trigger] t.lobbies[j]) by {
                        let j2 = if j < li { j } else { j + 1 };
                        assert(t.lobbies[j] == s.lobbies[j2]);
                        assert(snapshot_keys_listed(s.lobbies[j2]));
                    }
                } else {
                    lemma_without_id(l.player_ids, pid);
                    lemma_without_snapshot_keys(l.snapshots, pid);
                    assert(snapshot_keys_listed(l));
                    assert forall|j: int| 0 <= j < t.lobbies.len() implies snapshot_keys_listed(#[trigger] t.lobbies[j]) by {
                        if j == li {
                            let nl = t.lobbies[j];
                            assert(nl.player_ids == members);
                            assert(nl.snapshots == without_snapshot(l.snapshots, pid));
                            assert forall|k: int| 0 <= k < nl.snapshots.len() implies nl.player_ids.contains(#[trigger] nl.snapshots[k].0) by {
                                let e = nl.snapshots[k];
                                assert(without_snapshot(l.snapshots, pid)[k] == e);
                                let x = choose|x: int| 0 <= x < l.snapshots.len() && l.snapshots[x] == e;
                                assert(l.player_ids.contains(l.snapshots[x].0));
                            }
                        } else {
                            assert(t.lobbies[j] == s.lobbies[j]);
                            assert(snapshot_keys_listed(s.lobbies[j]));
                        }
                    }
                }
            }
        }
    }
}

/// A change to one lobby that keeps its snapshots keyed by members.
proof fn lemma_one_lobby_snapshots(s: ServerView, li: int, nl: LobbyView)
    requires
        snapshots_among_members(s),
        0 <= li < s.lobbies.len(),
        snapshot_keys_listed(nl),
    ensures
        snapshots_among_members(with_lobby(s, li, nl)),
{
    let t = with_lobby(s, li, nl);
    assert forall|j: int| 0 <= j < t.lobbies.len() implies snapshot_keys_listed(#[trigger] t.lobbies[j]) by {
        if j != li {
            assert(t.lobbies[j] == s.lobbies[j]);
            assert(snapshot_keys_listed(s.lobbies[j]));
        }
    }
}

/// Requests keep each lobby's snapshots keyed by its own members: a
/// snapshot is only kept from a member, and a leaver's snapshot goes with it.
pub proof fn law_requests_keep_snapshots_among_members(
    s: ServerView,
    pid: Seq<char>,
    request: RequestView,
    new_lobby_id: Seq<char>,
    layout: LayoutView,
)
    requires
        server_wf(s),
        lobbies_consistent(s),
        snapshots_among_members(s),
    ensures
        snapshots_among_members(handle(s, pid, request, new_lobby_id, layout).0),
{
    lemma_wf_ids_distinct(s);
    match request {
        RequestView::ListLobbies => {},
        RequestView::CreateLobby { player_name, lobby_name } => {
            lemma_leave_snapshots(s, pid);
            let s1 = leave_state(s, pid);
            let s2 = set_player_name(s1, pid, player_name);
            assert(s2.lobbies == s1.lobbies);
            let t = create_lobby(s, pid, player_name, lobby_name, new_lobby_id).0;
            let lobby = LobbyView {
                id: new_lobby_id,
                name: crate::lobby::clean_lobby_name(s2, pid, lobby_name),
                host_player_id: pid,
                player_ids: seq![pid],
                status: crate::protocol::LobbyStatus::Waiting,
                mode: Some(crate::protocol::GameMode::Standard),
                layout: None,
                snapshots: Seq::empty(),
            };
            assert(t.lobbies == put_lobby(s1.lobbies, lobby));
            lemma_put_lobby_elems(s1.lobbies, lobby);
            assert forall|j: int| 0 <= j < t.lobbies.len() implies snapshot_keys_listed(#[trigger] t.lobbies[j]) by {
                if t.lobbies[j] != lobby {
                    let x = choose|x: int| 0 <= x < s1.lobbies.len() && s1.lobbies[x] == t.lobbies[j];
                    assert(snapshot_keys_listed(s1.lobbies[x]));
                }
            }
        },
        RequestView::JoinLobby { lobby_id, player_name } => {
            lemma_leave_snapshots(s, pid);
            let s1 = leave_state(s, pid);
            let s2 = set_player_name(s1, pid, player_name);
            assert(s2.lobbies == s1.lobbies);
            assert(snapshots_among_members(s2));
            if let Some(li) = find_lobby(s2.lobbies, lobby_id) {
                let l = s2.lobbies[li];
                if l.status == crate::protocol::LobbyStatus::Waiting && !l.player_ids.contains(pid)
                    && l.player_ids.len() < MAX_LOBBY_PLAYERS {
                    let nl = LobbyView { player_ids: l.player_ids.push(pid), ..l };
                    assert(snapshot_keys_listed(l));
                    assert forall|k: int| 0 <= k < nl.snapshots.len() implies nl.player_ids.contains(#[trigger] nl.snapshots[k].0) by {
                        let x = choose|x: int| 0 <= x < l.player_ids.len() && l.player_ids[x] == l.snapshots[k].0;
                        assert(nl.player_ids[x] == l.player_ids[x]);
                    }
                    lemma_one_lobby_snapshots(s2, li, nl);
                }
            }
        },
        RequestView::LeaveLobby => {
            lemma_leave_snapshots(s, pid);
        },
        RequestView::SetMode { mode } => {
            if let Some(lid) = player_lobby_id(s, pid) {
                if let Some(li) = find_lobby(s.lobbies, lid) {
                    assert(snapshot_keys_listed(s.lobbies[li]));
                    lemma_one_lobby_snapshots(s, li, LobbyView { mode: Some(mode), ..s.lobbies[li] });
                }
            }
        },
        RequestView::StartGame => {
            if let Some(lid) = player_lobby_id(s, pid) {
                if let Some(li) = find_lobby(s.lobbies, lid) {
                    assert(snapshot_keys_listed(s.lobbies[li]));
                    lemma_one_lobby_snapshots(s, li, LobbyView {
                        status: crate::protocol::LobbyStatus::InGame,
                        layout: Some(layout),
                        ..s.lobbies[li]
                    });
                }
            }
        },
        RequestView::BoardSnapshot { snapshot } => {
            if let Some(lid) = player_lobby_id(s, pid) {
                if let Some(li) = find_lobby(s.lobbies, lid) {
                    let l = s.lobbies[li];
                    let pi = find_player(s.players, pid)->0;
                    reveal(lobbies_consistent);
                    assert(player_listed(s, s.players[pi]));
                    let lj = choose|lj: int| 0 <= lj < s.lobbies.len() && (#[trigger] s.lobbies[lj]).id == lid
                        && s.lobbies[lj].player_ids.contains(pid);
                    assert(lj == li);
                    assert(snapshot_keys_listed(l));
                    let v = crate::lobby::put_snapshot(l.snapshots, pid, snapshot);
                    let nl = LobbyView { snapshots: v, ..l };
                    assert forall|k: int| 0 <= k < v.len() implies l.player_ids.contains(#[trigger] v[k].0) by {
                        match crate::lobby::find_snapshot(l.snapshots, pid) {
                            Some(i) => {
                                if k != i {
                                    assert(v[k] == l.snapshots[k]);
                                }
                            },
                            None => {
                                if k < l.snapshots.len() {
                                    assert(v[k] == l.snapshots[k]);
                                }
                            },
                        }
                    }
                    assert(snapshot_keys_listed(nl));
                    lemma_one_lobby_snapshots(s, li, nl);
                }
            }
        },
    }
}

/// Connecting and disconnecting keep each lobby's snapshots keyed by its
/// members.
pub proof fn law_connections_keep_snapshots_among_members(s: ServerView, id: Seq<char>)
    requires
        snapshots_among_members(s),
    ensures
        snapshots_among_members(connect(s, id).0),
        snapshots_among_members(disconnect(s, id).0),
{
    lemma_leave_snapshots(s, id);
    assert(disconnect(s, id).0.lobbies == leave_state(s, id).lobbies);
}

} // verus!
