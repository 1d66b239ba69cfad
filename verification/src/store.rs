//! The record store: the state every request reads and mutates, with the
//! invariants the storage layer guarantees (unique ids, referential
//! integrity) and the operations of the core flows — the atomic
//! scoreboard/team/player aggregate write, the ownership-gated mutations,
//! and the aggregate read assemblers.

use vstd::prelude::*;

use crate::errors::TalliiError;
use crate::records::CreateGamePayload;
use crate::records::CreateScoreboardPayload;
use crate::records::Game;
use crate::records::GameV;
use crate::records::Player;
use crate::records::PlayerV;
use crate::records::Scoreboard;
use crate::records::ScoreboardV;
use crate::records::TeamRow;
use crate::records::TeamV;
use crate::records::User;
use crate::records::UserV;
use crate::records::games_view;
use crate::records::players_view;
use crate::records::scoreboards_view;
use crate::records::teams_view;
use crate::records::users_view;

verus! {

broadcast use
    crate::records::lemma_users_view_push,
    crate::records::lemma_scoreboards_view_push,
    crate::records::lemma_teams_view_push,
    crate::records::lemma_players_view_push,
    crate::records::lemma_games_view_push,
    crate::records::lemma_player_rows_view_push,
;

/// Mathematical view of the record store: one sequence per table, in
/// storage order, plus the next generated id of each table.
pub ghost struct StoreV {
    pub users: Seq<UserV>,
    pub scoreboards: Seq<ScoreboardV>,
    pub teams: Seq<TeamV>,
    pub players: Seq<PlayerV>,
    pub games: Seq<GameV>,
    pub next_user_id: int,
    pub next_scoreboard_id: int,
    pub next_team_id: int,
    pub next_player_id: int,
    pub next_game_id: int,
}

/// Whether some user row carries `id`.
pub open spec fn has_user(s: StoreV, id: int) -> bool {
    exists|k: int| 0 <= k < s.users.len() && s.users[k].user_id == id
}

/// Whether some user row carries `email`.
pub open spec fn has_user_email(s: StoreV, email: Seq<char>) -> bool {
    exists|k: int| 0 <= k < s.users.len() && s.users[k].email == email
}

/// Whether `u` is the first user row carrying `email`: the row every lookup
/// by email answers with, also when later rows carry the same email.
pub open spec fn is_first_user_with_email(s: StoreV, email: Seq<char>, u: UserV) -> bool {
    exists|k: int|
        0 <= k < s.users.len() && s.users[k] == u && u.email == email && (forall|j: int|
            0 <= j < k ==> s.users[j].email != email)
}

/// Whether some scoreboard row carries `id`.
pub open spec fn has_scoreboard(s: StoreV, id: int) -> bool {
    exists|k: int| 0 <= k < s.scoreboards.len() && s.scoreboards[k].scoreboard_id == id
}

/// Whether some team row carries `id`.
pub open spec fn has_team(s: StoreV, id: int) -> bool {
    exists|k: int| 0 <= k < s.teams.len() && s.teams[k].team_id == id
}

/// Whether some game row carries `id`.
pub open spec fn has_game(s: StoreV, id: int) -> bool {
    exists|k: int| 0 <= k < s.games.len() && s.games[k].game_id == id
}

/// The user row carrying `id` (meaningful under `wf`, which makes it
/// unique).
pub open spec fn user_by_id(s: StoreV, id: int) -> UserV {
    choose|u: UserV| s.users.contains(u) && u.user_id == id
}

/// The scoreboard row carrying `id` (meaningful under `wf`).
pub open spec fn scoreboard_by_id(s: StoreV, id: int) -> ScoreboardV {
    choose|sb: ScoreboardV| s.scoreboards.contains(sb) && sb.scoreboard_id == id
}

/// The team row carrying `id` (meaningful under `wf`).
pub open spec fn team_by_id(s: StoreV, id: int) -> TeamV {
    choose|t: TeamV| s.teams.contains(t) && t.team_id == id
}

/// The owner of the scoreboard a team belongs to: the ownership anchor for
/// team mutation, reached through the parent scoreboard.
pub open spec fn team_owner(s: StoreV, team_id: int) -> int {
    scoreboard_by_id(s, team_by_id(s, team_id).scoreboard_id).created_by
}

/// Well-formedness of the store: ids are unique per table and below the
/// table's next id, and every reference lands on an existing row.
pub open spec fn wf(s: StoreV) -> bool {
    &&& forall|k1: int, k2: int|
        0 <= k1 < k2 < s.users.len() ==> s.users[k1].user_id != s.users[k2].user_id
    &&& forall|k1: int, k2: int|
        0 <= k1 < k2 < s.scoreboards.len() ==> s.scoreboards[k1].scoreboard_id
            != s.scoreboards[k2].scoreboard_id
    &&& forall|k1: int, k2: int|
        0 <= k1 < k2 < s.teams.len() ==> s.teams[k1].team_id != s.teams[k2].team_id
    &&& forall|k1: int, k2: int|
        0 <= k1 < k2 < s.players.len() ==> s.players[k1].team_player_id
            != s.players[k2].team_player_id
    &&& forall|k1: int, k2: int|
        0 <= k1 < k2 < s.games.len() ==> s.games[k1].game_id != s.games[k2].game_id
    &&& forall|k: int| 0 <= k < s.users.len() ==> 0 <= #[trigger] s.users[k].user_id < s.next_user_id
    &&& forall|k: int|
        0 <= k < s.scoreboards.len() ==> 0 <= #[trigger] s.scoreboards[k].scoreboard_id
            < s.next_scoreboard_id
    &&& forall|k: int| 0 <= k < s.teams.len() ==> 0 <= #[trigger] s.teams[k].team_id < s.next_team_id
    &&& forall|k: int|
        0 <= k < s.players.len() ==> 0 <= #[trigger] s.players[k].team_player_id
            < s.next_player_id
    &&& forall|k: int| 0 <= k < s.games.len() ==> 0 <= #[trigger] s.games[k].game_id < s.next_game_id
    &&& forall|k: int|
        0 <= k < s.scoreboards.len() ==> has_user(s, #[trigger] s.scoreboards[k].created_by)
    &&& forall|k: int|
        0 <= k < s.teams.len() ==> has_scoreboard(s, #[trigger] s.teams[k].scoreboard_id)
    &&& forall|k: int| 0 <= k < s.players.len() ==> has_team(s, #[trigger] s.players[k].team_id)
    &&& forall|k: int| 0 <= k < s.players.len() ==> has_user(s, #[trigger] s.players[k].user_id)
    &&& 0 < s.next_user_id <= i32::MAX
    &&& 0 < s.next_scoreboard_id <= i32::MAX
    &&& 0 < s.next_team_id <= i32::MAX
    &&& 0 < s.next_player_id <= i32::MAX
    &&& 0 < s.next_game_id <= i32::MAX
}

/// Under `wf`, a user row that carries `id` is `user_by_id(s, id)`.
pub proof fn lemma_user_by_id(s: StoreV, k: int)
    requires
        wf(s),
        0 <= k < s.users.len(),
    ensures
        user_by_id(s, s.users[k].user_id) == s.users[k],
{
    assert(s.users.contains(s.users[k]));
    let u = user_by_id(s, s.users[k].user_id);
    let k2 = choose|k2: int| 0 <= k2 < s.users.len() && s.users[k2] == u;
    assert(s.users.contains(u));
}

/// Under `wf`, a scoreboard row that carries `id` is
/// `scoreboard_by_id(s, id)`.
pub proof fn lemma_scoreboard_by_id(s: StoreV, k: int)
    requires
        wf(s),
        0 <= k < s.scoreboards.len(),
    ensures
        scoreboard_by_id(s, s.scoreboards[k].scoreboard_id) == s.scoreboards[k],
{
    assert(s.scoreboards.contains(s.scoreboards[k]));
    let sb = scoreboard_by_id(s, s.scoreboards[k].scoreboard_id);
    assert(s.scoreboards.contains(sb));
}

/// Under `wf`, a team row that carries `id` is `team_by_id(s, id)`.
pub proof fn lemma_team_by_id(s: StoreV, k: int)
    requires
        wf(s),
        0 <= k < s.teams.len(),
    ensures
        team_by_id(s, s.teams[k].team_id) == s.teams[k],
{
    assert(s.teams.contains(s.teams[k]));
    let t = team_by_id(s, s.teams[k].team_id);
    assert(s.teams.contains(t));
}

/// The predicate picking the teams of one scoreboard.
pub open spec fn team_in_scoreboard(sid: int) -> spec_fn(TeamV) -> bool {
    |t: TeamV| t.scoreboard_id == sid
}

/// The predicate picking the scoreboards one user owns.
pub open spec fn scoreboard_owned_by(uid: int) -> spec_fn(ScoreboardV) -> bool {
    |s: ScoreboardV| s.created_by == uid
}

/// The predicate picking the players of one team.
pub open spec fn player_in_team(tid: int) -> spec_fn(PlayerV) -> bool {
    |p: PlayerV| p.team_id == tid
}

/// The predicate picking the teams whose parent scoreboard `uid` owns.
pub open spec fn team_owned_by(s: StoreV, uid: int) -> spec_fn(TeamV) -> bool {
    |t: TeamV| scoreboard_by_id(s, t.scoreboard_id).created_by == uid
}

/// The join of one player row with the user row it references.
pub open spec fn join_player(s: StoreV) -> spec_fn(PlayerV) -> crate::records::PlayerRowV {
    |p: PlayerV| crate::records::player_row_of(p, user_by_id(s, p.user_id))
}

/// The players of one team, each joined with its user row.
pub open spec fn joined_players(s: StoreV, tid: int) -> Seq<crate::records::PlayerRowV> {
    s.players.filter(player_in_team(tid)).map_values(join_player(s))
}

/// The team group of one scoreboard in a grouped listing: absent (not an
/// empty list) when the scoreboard has no teams, mirroring how the listing
/// omits a group it never formed.
pub open spec fn group_of(teams: Seq<TeamV>, sid: int) -> Option<Seq<TeamV>> {
    let g = teams.filter(team_in_scoreboard(sid));
    if g.len() == 0 {
        None
    } else {
        Some(g)
    }
}

/// A team row as an update leaves it: name and score replaced, everything
/// else kept.
pub open spec fn team_updated(t: TeamV, name: Seq<char>, score: int) -> TeamV {
    TeamV { name, score, ..t }
}

/// A user row as a profile update leaves it: the name and avatar fields
/// replaced, everything else kept.
pub open spec fn profile_updated(
    u: UserV,
    username: Seq<char>,
    avatar_background: Seq<char>,
    avatar_emoji: Seq<char>,
) -> UserV {
    UserV { username, avatar_background, avatar_emoji, ..u }
}

/// The predicate keeping the scoreboards that survive deleting scoreboard
/// `sid`.
pub open spec fn scoreboard_survives(sid: int) -> spec_fn(ScoreboardV) -> bool {
    |s: ScoreboardV| s.scoreboard_id != sid
}

/// The predicate keeping the teams that survive deleting scoreboard `sid`.
pub open spec fn team_survives(sid: int) -> spec_fn(TeamV) -> bool {
    |t: TeamV| t.scoreboard_id != sid
}

/// Whether the team carrying `tid` belongs to scoreboard `sid`.
pub open spec fn team_linked(s: StoreV, tid: int, sid: int) -> bool {
    exists|k: int|
        0 <= k < s.teams.len() && s.teams[k].team_id == tid && s.teams[k].scoreboard_id == sid
}

/// The predicate keeping the players that survive deleting scoreboard
/// `sid`: those whose team does not belong to it.
pub open spec fn player_survives(s: StoreV, sid: int) -> spec_fn(PlayerV) -> bool {
    |p: PlayerV| !team_linked(s, p.team_id, sid)
}

/// The scoreboard row the aggregate write inserts.
pub open spec fn planned_scoreboard(
    p: crate::records::CreateScoreboardPayloadV,
    sid: int,
    creator: int,
    now: int,
) -> ScoreboardV {
    ScoreboardV {
        scoreboard_id: sid,
        name: p.name,
        game: p.game,
        created_by: creator,
        created_at: now,
        updated_at: now,
    }
}

/// The team row the aggregate write inserts for one team payload: bound to
/// the new scoreboard, score starting at zero.
pub open spec fn planned_team(
    t: crate::records::CreateTeamPayloadV,
    tid: int,
    sid: int,
    now: int,
) -> TeamV {
    TeamV { team_id: tid, scoreboard_id: sid, name: t.name, score: 0, created_at: now }
}

/// The team rows the aggregate write inserts, in payload order, with
/// consecutive ids from `tid0`.
pub open spec fn planned_teams(
    ts: Seq<crate::records::CreateTeamPayloadV>,
    tid0: int,
    sid: int,
    now: int,
) -> Seq<TeamV> {
    Seq::new(ts.len(), |k: int| planned_team(ts[k], tid0 + k, sid, now))
}

/// The player rows the aggregate write inserts for one team, in payload
/// order, with consecutive ids from `pid0`.
pub open spec fn planned_players_of_team(ids: Seq<int>, tid: int, pid0: int, now: int) -> Seq<
    PlayerV,
> {
    Seq::new(
        ids.len(),
        |k: int| PlayerV { team_player_id: pid0 + k, team_id: tid, user_id: ids[k], created_at: now },
    )
}

/// How many player rows the aggregate write inserts in all.
pub open spec fn player_count(ts: Seq<crate::records::CreateTeamPayloadV>) -> int
    decreases ts.len(),
{
    if ts.len() == 0 {
        0
    } else {
        player_count(ts.drop_last()) + ts.last().players.len()
    }
}

/// All player rows the aggregate write inserts, team by team in payload
/// order, with consecutive team ids from `tid0` and player ids from `pid0`.
pub open spec fn planned_players(
    ts: Seq<crate::records::CreateTeamPayloadV>,
    tid0: int,
    pid0: int,
    now: int,
) -> Seq<PlayerV>
    decreases ts.len(),
{
    if ts.len() == 0 {
        Seq::empty()
    } else {
        planned_players(ts.drop_last(), tid0, pid0, now) + planned_players_of_team(
            ts.last().players,
            tid0 + ts.len() - 1,
            pid0 + player_count(ts.drop_last()),
            now,
        )
    }
}

/// Whether every player id of every team payload references an existing
/// user: what the aggregate write demands before it touches anything.
pub open spec fn all_players_exist(
    s: StoreV,
    ts: Seq<crate::records::CreateTeamPayloadV>,
) -> bool {
    forall|i: int, j: int|
        0 <= i < ts.len() && 0 <= j < ts[i].players.len() ==> has_user(
            s,
            #[trigger] ts[i].players[j],
        )
}

proof fn lemma_player_count_take_succ(ts: Seq<crate::records::CreateTeamPayloadV>, i: int)
    requires
        0 <= i < ts.len(),
    ensures
        player_count(ts.take(i + 1)) == player_count(ts.take(i)) + ts[i].players.len(),
{
    assert(ts.take(i + 1).drop_last() =~= ts.take(i));
    assert(ts.take(i + 1).last() == ts[i]);
}

proof fn lemma_planned_players_take_succ(
    ts: Seq<crate::records::CreateTeamPayloadV>,
    tid0: int,
    pid0: int,
    now: int,
    i: int,
)
    requires
        0 <= i < ts.len(),
    ensures
        planned_players(ts.take(i + 1), tid0, pid0, now) == planned_players(
            ts.take(i),
            tid0,
            pid0,
            now,
        ) + planned_players_of_team(
            ts[i].players,
            tid0 + i,
            pid0 + player_count(ts.take(i)),
            now,
        ),
{
    assert(ts.take(i + 1).drop_last() =~= ts.take(i));
    assert(ts.take(i + 1).last() == ts[i]);
    assert(tid0 + ts.take(i + 1).len() - 1 == tid0 + i);
}

proof fn lemma_player_count_nonneg(ts: Seq<crate::records::CreateTeamPayloadV>)
    ensures
        player_count(ts) >= 0,
    decreases ts.len(),
{
    if ts.len() > 0 {
        lemma_player_count_nonneg(ts.drop_last());
    }
}

proof fn lemma_player_count_take_le(ts: Seq<crate::records::CreateTeamPayloadV>, i: int)
    requires
        0 <= i <= ts.len(),
    ensures
        player_count(ts.take(i)) <= player_count(ts),
    decreases ts.len() - i,
{
    if i == ts.len() {
        assert(ts.take(i) =~= ts);
    } else {
        lemma_player_count_take_succ(ts, i);
        lemma_player_count_take_le(ts, i + 1);
    }
}

/// A filter that keeps every element changes nothing.
proof fn lemma_filter_all_kept<A>(s: Seq<A>, pred: spec_fn(A) -> bool)
    requires
        forall|i: int| 0 <= i < s.len() ==> pred(#[trigger] s[i]),
    ensures
        s.filter(pred) == s,
    decreases s.len(),
{
    reveal_with_fuel(Seq::filter, 2);
    if s.len() > 0 {
        let d = s.drop_last();
        assert(forall|i: int| 0 <= i < d.len() ==> d[i] == s[i]);
        lemma_filter_all_kept(d, pred);
        assert(pred(s[s.len() - 1]));
        assert(d.push(s.last()) =~= s);
    }
}

/// Law (read-after-write): a successful aggregate write is observed in full
/// by a read that follows it. Against the state the write left behind,
/// reading the new scoreboard id finds exactly the just-written row, the
/// team filter for that id is exactly the written roster, and the creator's
/// own listing has grown by exactly that scoreboard.
pub proof fn lemma_read_after_write(
    s0: StoreV,
    s1: StoreV,
    p: crate::records::CreateScoreboardPayloadV,
    sid: int,
    creator: int,
    now: int,
)
    requires
        wf(s0),
        sid == s0.next_scoreboard_id,
        s1.scoreboards == s0.scoreboards.push(planned_scoreboard(p, sid, creator, now)),
        s1.teams == s0.teams + planned_teams(p.teams, s0.next_team_id, sid, now),
    ensures
        has_scoreboard(s1, sid),
        scoreboard_by_id(s1, sid) == planned_scoreboard(p, sid, creator, now),
        s1.teams.filter(team_in_scoreboard(sid)) == planned_teams(
            p.teams,
            s0.next_team_id,
            sid,
            now,
        ),
        s1.scoreboards.filter(scoreboard_owned_by(creator)) == s0.scoreboards.filter(
            scoreboard_owned_by(creator),
        ).push(planned_scoreboard(p, sid, creator, now)),
{
    let sb = planned_scoreboard(p, sid, creator, now);
    let planned = planned_teams(p.teams, s0.next_team_id, sid, now);
    assert(s1.scoreboards[s0.scoreboards.len() as int] == sb);
    assert(has_scoreboard(s1, sid));

    // The new id is fresh, so the row the read picks is the written one.
    let picked = scoreboard_by_id(s1, sid);
    assert(s1.scoreboards.contains(sb));
    assert(s1.scoreboards.contains(picked) && picked.scoreboard_id == sid);
    let k = choose|k: int| 0 <= k < s1.scoreboards.len() && s1.scoreboards[k] == picked;
    if k < s0.scoreboards.len() {
        assert(s0.scoreboards[k].scoreboard_id < s0.next_scoreboard_id);
    }
    assert(picked == sb);

    // No pre-existing team carries the fresh id, and every written one does.
    let pred = team_in_scoreboard(sid);
    assert forall|i: int| 0 <= i < s0.teams.len() implies !pred(#[trigger] s0.teams[i]) by {
        assert(has_scoreboard(s0, s0.teams[i].scoreboard_id));
        let j = choose|j: int|
            0 <= j < s0.scoreboards.len() && s0.scoreboards[j].scoreboard_id == s0.teams[
                i
            ].scoreboard_id;
        assert(s0.scoreboards[j].scoreboard_id < sid);
    }
    s0.teams.lemma_all_neg_filter_empty(pred);
    Seq::filter_distributes_over_add(s0.teams, planned, pred);
    assert(s0.teams.filter(pred) =~= Seq::<TeamV>::empty());
    lemma_filter_all_kept(planned, pred);
    assert(Seq::<TeamV>::empty() + planned =~= planned);

    // The creator's listing grows by exactly the new scoreboard.
    lemma_filter_push(s0.scoreboards, scoreboard_owned_by(creator), sb);
    assert(scoreboard_owned_by(creator)(sb));
}

/// Filtering commutes with pushing one element.
proof fn lemma_filter_push<A>(s: Seq<A>, pred: spec_fn(A) -> bool, x: A)
    ensures
        s.push(x).filter(pred) == if pred(x) {
            s.filter(pred).push(x)
        } else {
            s.filter(pred)
        },
{
    assert(s.push(x).drop_last() =~= s);
    assert(s.push(x).last() == x);
    reveal_with_fuel(Seq::filter, 2);
}

/// Every element of a filtered sequence satisfies the predicate and occurs
/// in the sequence it was filtered from.
proof fn lemma_filter_elements<A>(s: Seq<A>, pred: spec_fn(A) -> bool)
    ensures
        forall|i: int|
            0 <= i < s.filter(pred).len() ==> pred(#[trigger] s.filter(pred)[i]) && s.contains(
                s.filter(pred)[i],
            ),
    decreases s.len(),
{
    reveal_with_fuel(Seq::filter, 2);
    if s.len() == 0 {
    } else {
        let d = s.drop_last();
        lemma_filter_elements(d, pred);
        assert(forall|m: int| 0 <= m < d.len() ==> d[m] == s[m]);
        assert forall|i: int| 0 <= i < s.filter(pred).len() implies pred(
            #[trigger] s.filter(pred)[i],
        ) && s.contains(s.filter(pred)[i]) by {
            if i < d.filter(pred).len() {
                assert(s.filter(pred)[i] == d.filter(pred)[i]);
                let m = choose|m: int| 0 <= m < d.len() && d[m] == d.filter(pred)[i];
                assert(s[m] == s.filter(pred)[i]);
            } else {
                assert(s.filter(pred)[i] == s.last());
                assert(s[s.len() - 1] == s.last());
            }
        }
    }
}

/// Filtering a sequence whose elements carry pairwise-distinct keys yields
/// one whose elements do too.
proof fn lemma_filter_keeps_distinct<A>(s: Seq<A>, pred: spec_fn(A) -> bool, key: spec_fn(A) -> int)
    requires
        forall|i: int, j: int| 0 <= i < j < s.len() ==> key(s[i]) != key(s[j]),
    ensures
        forall|i: int, j: int|
            0 <= i < j < s.filter(pred).len() ==> key(s.filter(pred)[i]) != key(s.filter(pred)[j]),
    decreases s.len(),
{
    reveal_with_fuel(Seq::filter, 2);
    if s.len() == 0 {
    } else {
        let d = s.drop_last();
        assert(forall|m: int| 0 <= m < d.len() ==> d[m] == s[m]);
        lemma_filter_keeps_distinct(d, pred, key);
        lemma_filter_elements(d, pred);
        assert forall|i: int, j: int|
            0 <= i < j < s.filter(pred).len() implies key(s.filter(pred)[i]) != key(
            s.filter(pred)[j],
        ) by {
            if j < d.filter(pred).len() {
                assert(s.filter(pred)[i] == d.filter(pred)[i]);
                assert(s.filter(pred)[j] == d.filter(pred)[j]);
            } else {
                assert(s.filter(pred)[j] == s.last());
                assert(s.filter(pred)[i] == d.filter(pred)[i]);
                let m = choose|m: int| 0 <= m < d.len() && d[m] == d.filter(pred)[i];
                assert(key(s[m]) != key(s[s.len() - 1]));
            }
        }
    }
}

/// Filtering a scoreboard table keeps its ids pairwise distinct.
proof fn lemma_filter_scoreboards_distinct(s: Seq<ScoreboardV>, pred: spec_fn(ScoreboardV) -> bool)
    requires
        forall|i: int, j: int| 0 <= i < j < s.len() ==> s[i].scoreboard_id != s[j].scoreboard_id,
    ensures
        forall|i: int, j: int|
            0 <= i < j < s.filter(pred).len() ==> s.filter(pred)[i].scoreboard_id != s.filter(
                pred,
            )[j].scoreboard_id,
{
    let key = |sb: ScoreboardV| sb.scoreboard_id;
    assert forall|i: int, j: int| 0 <= i < j < s.len() implies key(s[i]) != key(s[j]) by {}
    lemma_filter_keeps_distinct(s, pred, key);
    assert forall|i: int, j: int|
        0 <= i < j < s.filter(pred).len() implies s.filter(pred)[i].scoreboard_id != s.filter(
        pred,
    )[j].scoreboard_id by {
        assert(key(s.filter(pred)[i]) != key(s.filter(pred)[j]));
    }
}

/// Filtering a team table keeps its ids pairwise distinct.
proof fn lemma_filter_teams_distinct(s: Seq<TeamV>, pred: spec_fn(TeamV) -> bool)
    requires
        forall|i: int, j: int| 0 <= i < j < s.len() ==> s[i].team_id != s[j].team_id,
    ensures
        forall|i: int, j: int|
            0 <= i < j < s.filter(pred).len() ==> s.filter(pred)[i].team_id != s.filter(
                pred,
            )[j].team_id,
{
    let key = |t: TeamV| t.team_id;
    assert forall|i: int, j: int| 0 <= i < j < s.len() implies key(s[i]) != key(s[j]) by {}
    lemma_filter_keeps_distinct(s, pred, key);
    assert forall|i: int, j: int|
        0 <= i < j < s.filter(pred).len() implies s.filter(pred)[i].team_id != s.filter(
        pred,
    )[j].team_id by {
        assert(key(s.filter(pred)[i]) != key(s.filter(pred)[j]));
    }
}

/// Filtering a player table keeps its ids pairwise distinct.
proof fn lemma_filter_players_distinct(s: Seq<PlayerV>, pred: spec_fn(PlayerV) -> bool)
    requires
        forall|i: int, j: int|
            0 <= i < j < s.len() ==> s[i].team_player_id != s[j].team_player_id,
    ensures
        forall|i: int, j: int|
            0 <= i < j < s.filter(pred).len() ==> s.filter(pred)[i].team_player_id != s.filter(
                pred,
            )[j].team_player_id,
{
    let key = |p: PlayerV| p.team_player_id;
    assert forall|i: int, j: int| 0 <= i < j < s.len() implies key(s[i]) != key(s[j]) by {}
    lemma_filter_keeps_distinct(s, pred, key);
    assert forall|i: int, j: int|
        0 <= i < j < s.filter(pred).len() implies s.filter(pred)[i].team_player_id != s.filter(
        pred,
    )[j].team_player_id by {
        assert(key(s.filter(pred)[i]) != key(s.filter(pred)[j]));
    }
}

/// Deleting one scoreboard together with its teams and their players
/// preserves well-formedness.
proof fn lemma_wf_delete_scoreboard(s0: StoreV, s1: StoreV, sid: int)
    requires
        wf(s0),
        s1.scoreboards == s0.scoreboards.filter(scoreboard_survives(sid)),
        s1.teams == s0.teams.filter(team_survives(sid)),
        s1.players == s0.players.filter(player_survives(s0, sid)),
        s1.users == s0.users,
        s1.games == s0.games,
        s1.next_user_id == s0.next_user_id,
        s1.next_scoreboard_id == s0.next_scoreboard_id,
        s1.next_team_id == s0.next_team_id,
        s1.next_player_id == s0.next_player_id,
        s1.next_game_id == s0.next_game_id,
    ensures
        wf(s1),
{
    broadcast use vstd::seq_lib::group_filter_ensures;

    lemma_filter_elements(s0.scoreboards, scoreboard_survives(sid));
    lemma_filter_elements(s0.teams, team_survives(sid));
    lemma_filter_elements(s0.players, player_survives(s0, sid));
    lemma_filter_scoreboards_distinct(s0.scoreboards, scoreboard_survives(sid));
    lemma_filter_teams_distinct(s0.teams, team_survives(sid));
    lemma_filter_players_distinct(s0.players, player_survives(s0, sid));
    assert forall|k: int| 0 <= k < s1.scoreboards.len() implies 0 <= (
    #[trigger] s1.scoreboards[k].scoreboard_id) < s1.next_scoreboard_id by {
        assert(s1.scoreboards[k] == s0.scoreboards.filter(scoreboard_survives(sid))[k]);
        assert(s0.scoreboards.contains(s1.scoreboards[k]));
        let m = choose|m: int| 0 <= m < s0.scoreboards.len() && s0.scoreboards[m] == s1.scoreboards[k];
        assert(0 <= s0.scoreboards[m].scoreboard_id < s0.next_scoreboard_id);
    }
    assert forall|k: int| 0 <= k < s1.scoreboards.len() implies has_user(
        s1,
        #[trigger] s1.scoreboards[k].created_by,
    ) by {
        assert(s1.scoreboards[k] == s0.scoreboards.filter(scoreboard_survives(sid))[k]);
        assert(s0.scoreboards.contains(s1.scoreboards[k]));
        let m = choose|m: int| 0 <= m < s0.scoreboards.len() && s0.scoreboards[m] == s1.scoreboards[k];
        assert(has_user(s0, s0.scoreboards[m].created_by));
    }
    assert forall|k: int| 0 <= k < s1.teams.len() implies 0 <= (#[trigger] s1.teams[k].team_id)
        < s1.next_team_id by {
        assert(s1.teams[k] == s0.teams.filter(team_survives(sid))[k]);
        assert(s0.teams.contains(s1.teams[k]));
        let m = choose|m: int| 0 <= m < s0.teams.len() && s0.teams[m] == s1.teams[k];
        assert(0 <= s0.teams[m].team_id < s0.next_team_id);
    }
    assert forall|k: int| 0 <= k < s1.teams.len() implies has_scoreboard(
        s1,
        #[trigger] s1.teams[k].scoreboard_id,
    ) by {
        let t = s1.teams[k];
        assert(t == s0.teams.filter(team_survives(sid))[k]);
        assert(s0.teams.contains(t));
        let m = choose|m: int| 0 <= m < s0.teams.len() && s0.teams[m] == t;
        assert(has_scoreboard(s0, s0.teams[m].scoreboard_id));
        let j = choose|j: int|
            0 <= j < s0.scoreboards.len() && s0.scoreboards[j].scoreboard_id == t.scoreboard_id;
        assert(scoreboard_survives(sid)(s0.scoreboards[j]));
        assert(s0.scoreboards.filter(scoreboard_survives(sid)).contains(s0.scoreboards[j]));
        let j1 = choose|j1: int|
            0 <= j1 < s1.scoreboards.len() && s1.scoreboards[j1] == s0.scoreboards[j];
        assert(s1.scoreboards[j1].scoreboard_id == t.scoreboard_id);
    }
    assert forall|k: int|
        0 <= k < s1.players.len() implies 0 <= (#[trigger] s1.players[k].team_player_id)
        < s1.next_player_id by {
        assert(s1.players[k] == s0.players.filter(player_survives(s0, sid))[k]);
        assert(s0.players.contains(s1.players[k]));
        let m = choose|m: int| 0 <= m < s0.players.len() && s0.players[m] == s1.players[k];
        assert(0 <= s0.players[m].team_player_id < s0.next_player_id);
    }
    assert forall|k: int| 0 <= k < s1.players.len() implies has_team(
        s1,
        #[trigger] s1.players[k].team_id,
    ) by {
        let p = s1.players[k];
        assert(p == s0.players.filter(player_survives(s0, sid))[k]);
        assert(s0.players.contains(p));
        let m = choose|m: int| 0 <= m < s0.players.len() && s0.players[m] == p;
        assert(has_team(s0, s0.players[m].team_id));
        let j = choose|j: int| 0 <= j < s0.teams.len() && s0.teams[j].team_id == p.team_id;
        assert(player_survives(s0, sid)(p));
        assert(!team_linked(s0, p.team_id, sid));
        assert(s0.teams[j].scoreboard_id != sid);
        assert(team_survives(sid)(s0.teams[j]));
        assert(s0.teams.filter(team_survives(sid)).contains(s0.teams[j]));
        let j1 = choose|j1: int| 0 <= j1 < s1.teams.len() && s1.teams[j1] == s0.teams[j];
        assert(s1.teams[j1].team_id == p.team_id);
    }
    assert forall|k: int| 0 <= k < s1.players.len() implies has_user(
        s1,
        #[trigger] s1.players[k].user_id,
    ) by {
        let p = s1.players[k];
        assert(p == s0.players.filter(player_survives(s0, sid))[k]);
        assert(s0.players.contains(p));
        let m = choose|m: int| 0 <= m < s0.players.len() && s0.players[m] == p;
        assert(has_user(s0, s0.players[m].user_id));
        let j = choose|j: int| 0 <= j < s0.users.len() && s0.users[j].user_id == p.user_id;
        assert(s1.users[j].user_id == p.user_id);
    }
}

/// Appending a fresh user row preserves well-formedness.
proof fn lemma_wf_push_user(s0: StoreV, s1: StoreV, u: UserV)
    requires
        wf(s0),
        s1.users == s0.users.push(u),
        u.user_id == s0.next_user_id,
        s1.next_user_id == s0.next_user_id + 1,
        s1.next_user_id <= i32::MAX,
        s1.scoreboards == s0.scoreboards,
        s1.teams == s0.teams,
        s1.players == s0.players,
        s1.games == s0.games,
        s1.next_scoreboard_id == s0.next_scoreboard_id,
        s1.next_team_id == s0.next_team_id,
        s1.next_player_id == s0.next_player_id,
        s1.next_game_id == s0.next_game_id,
    ensures
        wf(s1),
        forall|id: int| has_user(s1, id) <==> (has_user(s0, id) || id == u.user_id),
{
    assert(forall|k: int| 0 <= k < s0.users.len() ==> s1.users[k] == s0.users[k]);
    assert forall|id: int| has_user(s0, id) implies has_user(s1, id) by {
        let k = choose|k: int| 0 <= k < s0.users.len() && s0.users[k].user_id == id;
        assert(s1.users[k].user_id == id);
    }
    assert(s1.users[s0.users.len() as int] == u);
    assert forall|id: int| has_user(s1, id) implies (has_user(s0, id) || id == u.user_id) by {
        let k = choose|k: int| 0 <= k < s1.users.len() && s1.users[k].user_id == id;
        if k < s0.users.len() {
            assert(s0.users[k].user_id == id);
        }
    }
    assert forall|k: int|
        0 <= k < s1.scoreboards.len() implies has_user(
        s1,
        #[trigger] s1.scoreboards[k].created_by,
    ) by {
        assert(has_user(s0, s0.scoreboards[k].created_by));
    }
    assert forall|k: int| 0 <= k < s1.players.len() implies has_user(
        s1,
        #[trigger] s1.players[k].user_id,
    ) by {
        assert(has_user(s0, s0.players[k].user_id));
    }
}

/// Replacing a user row by one carrying the same id preserves
/// well-formedness.
proof fn lemma_wf_update_user(s0: StoreV, s1: StoreV, ix: int, u: UserV)
    requires
        wf(s0),
        0 <= ix < s0.users.len(),
        u.user_id == s0.users[ix].user_id,
        s1.users == s0.users.update(ix, u),
        s1.scoreboards == s0.scoreboards,
        s1.teams == s0.teams,
        s1.players == s0.players,
        s1.games == s0.games,
        s1.next_user_id == s0.next_user_id,
        s1.next_scoreboard_id == s0.next_scoreboard_id,
        s1.next_team_id == s0.next_team_id,
        s1.next_player_id == s0.next_player_id,
        s1.next_game_id == s0.next_game_id,
    ensures
        wf(s1),
        forall|id: int| has_user(s1, id) <==> has_user(s0, id),
{
    assert(forall|k: int| 0 <= k < s1.users.len() ==> s1.users[k].user_id == s0.users[k].user_id);
    assert forall|id: int| has_user(s0, id) implies has_user(s1, id) by {
        let k = choose|k: int| 0 <= k < s0.users.len() && s0.users[k].user_id == id;
        assert(s1.users[k].user_id == id);
    }
    assert forall|id: int| has_user(s1, id) implies has_user(s0, id) by {
        let k = choose|k: int| 0 <= k < s1.users.len() && s1.users[k].user_id == id;
        assert(s0.users[k].user_id == id);
    }
    assert forall|k: int|
        0 <= k < s1.scoreboards.len() implies has_user(
        s1,
        #[trigger] s1.scoreboards[k].created_by,
    ) by {
        assert(has_user(s0, s0.scoreboards[k].created_by));
    }
    assert forall|k: int| 0 <= k < s1.players.len() implies has_user(
        s1,
        #[trigger] s1.players[k].user_id,
    ) by {
        assert(has_user(s0, s0.players[k].user_id));
    }
}

/// Replacing a team row by one carrying the same id and parent scoreboard
/// preserves well-formedness.
proof fn lemma_wf_update_team(s0: StoreV, s1: StoreV, ix: int, t: TeamV)
    requires
        wf(s0),
        0 <= ix < s0.teams.len(),
        t.team_id == s0.teams[ix].team_id,
        t.scoreboard_id == s0.teams[ix].scoreboard_id,
        s1.teams == s0.teams.update(ix, t),
        s1.users == s0.users,
        s1.scoreboards == s0.scoreboards,
        s1.players == s0.players,
        s1.games == s0.games,
        s1.next_user_id == s0.next_user_id,
        s1.next_scoreboard_id == s0.next_scoreboard_id,
        s1.next_team_id == s0.next_team_id,
        s1.next_player_id == s0.next_player_id,
        s1.next_game_id == s0.next_game_id,
    ensures
        wf(s1),
        forall|id: int| has_team(s1, id) <==> has_team(s0, id),
{
    assert(forall|k: int| 0 <= k < s1.teams.len() ==> s1.teams[k].team_id == s0.teams[k].team_id);
    assert(forall|k: int|
        0 <= k < s1.teams.len() ==> s1.teams[k].scoreboard_id == s0.teams[k].scoreboard_id);
    assert forall|id: int| has_team(s0, id) implies has_team(s1, id) by {
        let k = choose|k: int| 0 <= k < s0.teams.len() && s0.teams[k].team_id == id;
        assert(s1.teams[k].team_id == id);
    }
    assert forall|id: int| has_team(s1, id) implies has_team(s0, id) by {
        let k = choose|k: int| 0 <= k < s1.teams.len() && s1.teams[k].team_id == id;
        assert(s0.teams[k].team_id == id);
    }
    assert forall|k: int|
        0 <= k < s1.teams.len() implies has_scoreboard(
        s1,
        #[trigger] s1.teams[k].scoreboard_id,
    ) by {
        assert(has_scoreboard(s0, s0.teams[k].scoreboard_id));
    }
    assert forall|k: int| 0 <= k < s1.players.len() implies has_team(
        s1,
        #[trigger] s1.players[k].team_id,
    ) by {
        assert(has_team(s0, s0.players[k].team_id));
    }
}

/// Appending a fresh game row preserves well-formedness.
proof fn lemma_wf_push_game(s0: StoreV, s1: StoreV, g: GameV)
    requires
        wf(s0),
        s1.games == s0.games.push(g),
        g.game_id == s0.next_game_id,
        s1.next_game_id == s0.next_game_id + 1,
        s1.next_game_id <= i32::MAX,
        s1.users == s0.users,
        s1.scoreboards == s0.scoreboards,
        s1.teams == s0.teams,
        s1.players == s0.players,
        s1.next_user_id == s0.next_user_id,
        s1.next_scoreboard_id == s0.next_scoreboard_id,
        s1.next_team_id == s0.next_team_id,
        s1.next_player_id == s0.next_player_id,
    ensures
        wf(s1),
{
    assert(forall|k: int| 0 <= k < s0.games.len() ==> s1.games[k] == s0.games[k]);
    assert(s1.games[s0.games.len() as int] == g);
}

/// Appending a fresh scoreboard row, owned by an existing user, preserves
/// well-formedness.
proof fn lemma_wf_push_scoreboard(s0: StoreV, s1: StoreV, sb: ScoreboardV)
    requires
        wf(s0),
        s1.scoreboards == s0.scoreboards.push(sb),
        sb.scoreboard_id == s0.next_scoreboard_id,
        has_user(s0, sb.created_by),
        s1.next_scoreboard_id == s0.next_scoreboard_id + 1,
        s1.next_scoreboard_id <= i32::MAX,
        s1.users == s0.users,
        s1.teams == s0.teams,
        s1.players == s0.players,
        s1.games == s0.games,
        s1.next_user_id == s0.next_user_id,
        s1.next_team_id == s0.next_team_id,
        s1.next_player_id == s0.next_player_id,
        s1.next_game_id == s0.next_game_id,
    ensures
        wf(s1),
        forall|id: int| has_scoreboard(s1, id) <==> (has_scoreboard(s0, id) || id == sb.scoreboard_id),
{
    assert(forall|k: int| 0 <= k < s0.scoreboards.len() ==> s1.scoreboards[k] == s0.scoreboards[k]);
    assert(s1.scoreboards[s0.scoreboards.len() as int] == sb);
    assert forall|id: int| has_scoreboard(s0, id) implies has_scoreboard(s1, id) by {
        let k = choose|k: int|
            0 <= k < s0.scoreboards.len() && s0.scoreboards[k].scoreboard_id == id;
        assert(s1.scoreboards[k].scoreboard_id == id);
    }
    assert forall|id: int| has_scoreboard(s1, id) implies (has_scoreboard(s0, id)
        || id == sb.scoreboard_id) by {
        let k = choose|k: int|
            0 <= k < s1.scoreboards.len() && s1.scoreboards[k].scoreboard_id == id;
        if k < s0.scoreboards.len() {
            assert(s0.scoreboards[k].scoreboard_id == id);
        }
    }
    assert forall|k: int|
        0 <= k < s1.teams.len() implies has_scoreboard(
        s1,
        #[trigger] s1.teams[k].scoreboard_id,
    ) by {
        assert(has_scoreboard(s0, s0.teams[k].scoreboard_id));
    }
}

/// Appending a fresh team row, bound to an existing scoreboard, preserves
/// well-formedness.
proof fn lemma_wf_push_team(s0: StoreV, s1: StoreV, t: TeamV)
    requires
        wf(s0),
        s1.teams == s0.teams.push(t),
        t.team_id == s0.next_team_id,
        has_scoreboard(s0, t.scoreboard_id),
        s1.next_team_id == s0.next_team_id + 1,
        s1.next_team_id <= i32::MAX,
        s1.users == s0.users,
        s1.scoreboards == s0.scoreboards,
        s1.players == s0.players,
        s1.games == s0.games,
        s1.next_user_id == s0.next_user_id,
        s1.next_scoreboard_id == s0.next_scoreboard_id,
        s1.next_player_id == s0.next_player_id,
        s1.next_game_id == s0.next_game_id,
    ensures
        wf(s1),
        forall|id: int| has_team(s1, id) <==> (has_team(s0, id) || id == t.team_id),
{
    assert(forall|k: int| 0 <= k < s0.teams.len() ==> s1.teams[k] == s0.teams[k]);
    assert(s1.teams[s0.teams.len() as int] == t);
    assert forall|id: int| has_team(s0, id) implies has_team(s1, id) by {
        let k = choose|k: int| 0 <= k < s0.teams.len() && s0.teams[k].team_id == id;
        assert(s1.teams[k].team_id == id);
    }
    assert forall|id: int| has_team(s1, id) implies (has_team(s0, id) || id == t.team_id) by {
        let k = choose|k: int| 0 <= k < s1.teams.len() && s1.teams[k].team_id == id;
        if k < s0.teams.len() {
            assert(s0.teams[k].team_id == id);
        }
    }
    assert forall|k: int| 0 <= k < s1.players.len() implies has_team(
        s1,
        #[trigger] s1.players[k].team_id,
    ) by {
        assert(has_team(s0, s0.players[k].team_id));
    }
}

/// Appending a fresh player row, bound to an existing team and user,
/// preserves well-formedness.
proof fn lemma_wf_push_player(s0: StoreV, s1: StoreV, p: PlayerV)
    requires
        wf(s0),
        s1.players == s0.players.push(p),
        p.team_player_id == s0.next_player_id,
        has_team(s0, p.team_id),
        has_user(s0, p.user_id),
        s1.next_player_id == s0.next_player_id + 1,
        s1.next_player_id <= i32::MAX,
        s1.users == s0.users,
        s1.scoreboards == s0.scoreboards,
        s1.teams == s0.teams,
        s1.games == s0.games,
        s1.next_user_id == s0.next_user_id,
        s1.next_scoreboard_id == s0.next_scoreboard_id,
        s1.next_team_id == s0.next_team_id,
        s1.next_game_id == s0.next_game_id,
    ensures
        wf(s1),
{
    assert(forall|k: int| 0 <= k < s0.players.len() ==> s1.players[k] == s0.players[k]);
    assert(s1.players[s0.players.len() as int] == p);
}

/// The in-memory record store.
pub struct Store {
    users: Vec<User>,
    scoreboards: Vec<Scoreboard>,
    teams: Vec<TeamRow>,
    players: Vec<Player>,
    games: Vec<Game>,
    next_user_id: i32,
    next_scoreboard_id: i32,
    next_team_id: i32,
    next_player_id: i32,
    next_game_id: i32,
}

impl View for Store {
    type V = StoreV;

    closed spec fn view(&self) -> StoreV {
        StoreV {
            users: users_view(self.users@),
            scoreboards: scoreboards_view(self.scoreboards@),
            teams: teams_view(self.teams@),
            players: players_view(self.players@),
            games: games_view(self.games@),
            next_user_id: self.next_user_id as int,
            next_scoreboard_id: self.next_scoreboard_id as int,
            next_team_id: self.next_team_id as int,
            next_player_id: self.next_player_id as int,
            next_game_id: self.next_game_id as int,
        }
    }
}

impl Store {
    /// An empty store: no rows, every id generator at its start.
    pub fn new() -> (r: Store)
        ensures
            wf(r@),
            r@.users == Seq::<UserV>::empty(),
            r@.scoreboards == Seq::<ScoreboardV>::empty(),
            r@.teams == Seq::<TeamV>::empty(),
            r@.players == Seq::<PlayerV>::empty(),
            r@.games == Seq::<GameV>::empty(),
            r@.next_user_id == 1,
            r@.next_scoreboard_id == 1,
            r@.next_team_id == 1,
            r@.next_player_id == 1,
            r@.next_game_id == 1,
    {
        let r = Store {
            users: Vec::new(),
            scoreboards: Vec::new(),
            teams: Vec::new(),
            players: Vec::new(),
            games: Vec::new(),
            next_user_id: 1,
            next_scoreboard_id: 1,
            next_team_id: 1,
            next_player_id: 1,
            next_game_id: 1,
        };
        proof {
            assert(r@.users =~= Seq::<UserV>::empty());
            assert(r@.scoreboards =~= Seq::<ScoreboardV>::empty());
            assert(r@.teams =~= Seq::<TeamV>::empty());
            assert(r@.players =~= Seq::<PlayerV>::empty());
            assert(r@.games =~= Seq::<GameV>::empty());
        }
        r
    }

    fn find_user_ix(&self, user_id: i32) -> (r: Option<usize>)
        ensures
            r matches Some(ix) ==> ix < self@.users.len() && self@.users[ix as int].user_id
                == user_id as int,
            r is None ==> !has_user(self@, user_id as int),
    {
        let n = self.users.len();
        let mut k: usize = 0;
        while k < n
            invariant
                k <= n,
                n == self.users.len(),
                forall|j: int| 0 <= j < k ==> self@.users[j].user_id != user_id as int,
            decreases n - k,
        {
            if self.users[k].user_id == user_id {
                return Some(k);
            }
            k = k + 1;
        }
        None
    }

    fn find_user_email_ix(&self, email: &String) -> (r: Option<usize>)
        ensures
            r matches Some(ix) ==> ix < self@.users.len() && self@.users[ix as int].email == email@
                && (forall|j: int| 0 <= j < ix ==> self@.users[j].email != email@),
            r is None ==> !has_user_email(self@, email@),
    {
        let n = self.users.len();
        let mut k: usize = 0;
        while k < n
            invariant
                k <= n,
                n == self.users.len(),
                forall|j: int| 0 <= j < k ==> self@.users[j].email != email@,
            decreases n - k,
        {
            if self.users[k].email == *email {
                return Some(k);
            }
            k = k + 1;
        }
        None
    }

    fn find_scoreboard_ix(&self, scoreboard_id: i32) -> (r: Option<usize>)
        ensures
            r matches Some(ix) ==> ix < self@.scoreboards.len() && self@.scoreboards[
                ix as int
            ].scoreboard_id == scoreboard_id as int,
            r is None ==> !has_scoreboard(self@, scoreboard_id as int),
    {
        let n = self.scoreboards.len();
        let mut k: usize = 0;
        while k < n
            invariant
                k <= n,
                n == self.scoreboards.len(),
                forall|j: int| 0 <= j < k ==> self@.scoreboards[j].scoreboard_id != scoreboard_id as int,
            decreases n - k,
        {
            if self.scoreboards[k].scoreboard_id == scoreboard_id {
                return Some(k);
            }
            k = k + 1;
        }
        None
    }

    fn find_team_ix(&self, team_id: i32) -> (r: Option<usize>)
        ensures
            r matches Some(ix) ==> ix < self@.teams.len() && self@.teams[ix as int].team_id
                == team_id as int,
            r is None ==> !has_team(self@, team_id as int),
    {
        let n = self.teams.len();
        let mut k: usize = 0;
        while k < n
            invariant
                k <= n,
                n == self.teams.len(),
                forall|j: int| 0 <= j < k ==> self@.teams[j].team_id != team_id as int,
            decreases n - k,
        {
            if self.teams[k].team_id == team_id {
                return Some(k);
            }
            k = k + 1;
        }
        None
    }

    fn find_game_ix(&self, game_id: i32) -> (r: Option<usize>)
        ensures
            r matches Some(ix) ==> ix < self@.games.len() && self@.games[ix as int].game_id
                == game_id as int,
            r is None ==> !has_game(self@, game_id as int),
    {
        let n = self.games.len();
        let mut k: usize = 0;
        while k < n
            invariant
                k <= n,
                n == self.games.len(),
                forall|j: int| 0 <= j < k ==> self@.games[j].game_id != game_id as int,
            decreases n - k,
        {
            if self.games[k].game_id == game_id {
                return Some(k);
            }
            k = k + 1;
        }
        None
    }

    /// Fetches the user row carrying `user_id`, or `NotFound`.
    pub fn get_user(&self, user_id: i32) -> (r: Result<User, TalliiError>)
        requires
            wf(self@),
        ensures
            r matches Ok(u) ==> u@ == user_by_id(self@, user_id as int) && u@.user_id
                == user_id as int && self@.users.contains(u@),
            r is Err <==> !has_user(self@, user_id as int),
            r matches Err(e) ==> e is NotFound,
    {
        match self.find_user_ix(user_id) {
            Some(ix) => {
                let u = self.users[ix].clone();
                proof {
                    lemma_user_by_id(self@, ix as int);
                }
                Ok(u)
            },
            None => Err(TalliiError::NotFound),
        }
    }

    /// Fetches the first user row carrying `email`, when there is one.
    pub fn find_user_by_email(&self, email: &String) -> (r: Option<User>)
        ensures
            r matches Some(u) ==> self@.users.contains(u@) && u@.email == email@
                && is_first_user_with_email(self@, email@, u@),
            r is None <==> !has_user_email(self@, email@),
    {
        match self.find_user_email_ix(email) {
            Some(ix) => {
                let u = self.users[ix].clone();
                Some(u)
            },
            None => None,
        }
    }

    /// Fetches the game row carrying `game_id`, or `NotFound`.
    pub fn get_game(&self, game_id: i32) -> (r: Result<Game, TalliiError>)
        ensures
            r matches Ok(g) ==> self@.games.contains(g@) && g@.game_id == game_id as int,
            r is Err <==> !has_game(self@, game_id as int),
            r matches Err(e) ==> e is NotFound,
    {
        match self.find_game_ix(game_id) {
            Some(ix) => Ok(self.games[ix].clone()),
            None => Err(TalliiError::NotFound),
        }
    }

    /// Fetches all game rows, in storage order.
    pub fn get_games(&self) -> (r: Vec<Game>)
        ensures
            games_view(r@) == self@.games,
    {
        let n = self.games.len();
        let mut out: Vec<Game> = Vec::new();
        let mut k: usize = 0;
        while k < n
            invariant
                k <= n,
                n == self.games.len(),
                games_view(out@) == self@.games.take(k as int),
            decreases n - k,
        {
            let ghost out0 = out@;
            let g = self.games[k].clone();
            out.push(g);
            proof {
                crate::records::lemma_games_view_push(out0, g);
                assert(games_view(out@) =~= self@.games.take(k + 1));
            }
            k = k + 1;
        }
        proof {
            assert(self@.games.take(n as int) =~= self@.games);
        }
        out
    }

    /// Fetches all team rows, in storage order.
    pub fn get_teams(&self) -> (r: Vec<TeamRow>)
        ensures
            teams_view(r@) == self@.teams,
    {
        let n = self.teams.len();
        let mut out: Vec<TeamRow> = Vec::new();
        let mut k: usize = 0;
        while k < n
            invariant
                k <= n,
                n == self.teams.len(),
                teams_view(out@) == self@.teams.take(k as int),
            decreases n - k,
        {
            let ghost out0 = out@;
            let t = self.teams[k].clone();
            out.push(t);
            proof {
                crate::records::lemma_teams_view_push(out0, t);
                assert(teams_view(out@) =~= self@.teams.take(k + 1));
            }
            k = k + 1;
        }
        proof {
            assert(self@.teams.take(n as int) =~= self@.teams);
        }
        out
    }

    /// Fetches the team row carrying `team_id`, or `NotFound`.
    pub fn get_team(&self, team_id: i32) -> (r: Result<TeamRow, TalliiError>)
        requires
            wf(self@),
        ensures
            r matches Ok(t) ==> t@ == team_by_id(self@, team_id as int) && t@.team_id
                == team_id as int && self@.teams.contains(t@),
            r is Err <==> !has_team(self@, team_id as int),
            r matches Err(e) ==> e is NotFound,
    {
        match self.find_team_ix(team_id) {
            Some(ix) => {
                let t = self.teams[ix].clone();
                proof {
                    lemma_team_by_id(self@, ix as int);
                }
                Ok(t)
            },
            None => Err(TalliiError::NotFound),
        }
    }

    /// Fetches the scoreboard row carrying `scoreboard_id`, or `NotFound`.
    pub fn get_scoreboard(&self, scoreboard_id: i32) -> (r: Result<Scoreboard, TalliiError>)
        requires
            wf(self@),
        ensures
            r matches Ok(s) ==> s@ == scoreboard_by_id(self@, scoreboard_id as int)
                && s@.scoreboard_id == scoreboard_id as int && self@.scoreboards.contains(s@),
            r is Err <==> !has_scoreboard(self@, scoreboard_id as int),
            r matches Err(e) ==> e is NotFound,
    {
        match self.find_scoreboard_ix(scoreboard_id) {
            Some(ix) => {
                let s = self.scoreboards[ix].clone();
                proof {
                    lemma_scoreboard_by_id(self@, ix as int);
                }
                Ok(s)
            },
            None => Err(TalliiError::NotFound),
        }
    }

    /// Inserts a user row with a fresh id; the avatar fields start empty.
    /// Fails with `DatabaseError` only when the id space is exhausted.
    pub fn create_user(
        &mut self,
        username: &String,
        email: &String,
        password_hash: &String,
        now: i64,
    ) -> (r: Result<User, TalliiError>)
        requires
            wf(old(self)@),
        ensures
            wf(final(self)@),
            r matches Ok(u) ==> u@ == (UserV {
                user_id: old(self)@.next_user_id,
                username: username@,
                email: email@,
                password: password_hash@,
                avatar_background: ""@,
                avatar_emoji: ""@,
                created_at: now as int,
            }) && final(self)@ == (StoreV {
                users: old(self)@.users.push(u@),
                next_user_id: old(self)@.next_user_id + 1,
                ..old(self)@
            }),
            r is Err <==> old(self)@.next_user_id == i32::MAX,
            r is Err ==> final(self)@ == old(self)@,
            r matches Err(e) ==> e is DatabaseError,
    {
        if self.next_user_id == i32::MAX {
            return Err(TalliiError::DatabaseError("user id space exhausted".to_owned()));
        }
        let u = User {
            user_id: self.next_user_id,
            username: username.clone(),
            email: email.clone(),
            password: password_hash.clone(),
            avatar_background: "".to_owned(),
            avatar_emoji: "".to_owned(),
            created_at: now,
        };
        let ghost s0 = self@;
        let ghost uv = u@;
        let out = u.clone();
        self.users.push(u);
        self.next_user_id = self.next_user_id + 1;
        proof {
            assert(self@.users == s0.users.push(uv));
            assert(self@ == (StoreV {
                users: s0.users.push(uv),
                next_user_id: s0.next_user_id + 1,
                ..s0
            }));
            lemma_wf_push_user(s0, self@, uv);
        }
        Ok(out)
    }

    /// Inserts a game row with a fresh id. Fails with `DatabaseError` only
    /// when the id space is exhausted.
    pub fn create_game(&mut self, payload: &CreateGamePayload, now: i64) -> (r: Result<
        Game,
        TalliiError,
    >)
        requires
            wf(old(self)@),
        ensures
            wf(final(self)@),
            r matches Ok(g) ==> g@ == (GameV {
                game_id: old(self)@.next_game_id,
                name: payload.name@,
                created_at: now as int,
            }) && final(self)@ == (StoreV {
                games: old(self)@.games.push(g@),
                next_game_id: old(self)@.next_game_id + 1,
                ..old(self)@
            }),
            r is Err <==> old(self)@.next_game_id == i32::MAX,
            r is Err ==> final(self)@ == old(self)@,
            r matches Err(e) ==> e is DatabaseError,
    {
        if self.next_game_id == i32::MAX {
            return Err(TalliiError::DatabaseError("game id space exhausted".to_owned()));
        }
        let g = Game { game_id: self.next_game_id, name: payload.name.clone(), created_at: now };
        let ghost s0 = self@;
        let ghost gv = g@;
        let out = g.clone();
        self.games.push(g);
        self.next_game_id = self.next_game_id + 1;
        proof {
            assert(self@.games == s0.games.push(gv));
            assert(self@ == (StoreV {
                games: s0.games.push(gv),
                next_game_id: s0.next_game_id + 1,
                ..s0
            }));
            lemma_wf_push_game(s0, self@, gv);
        }
        Ok(out)
    }

    /// Fetches the first user with `email`; when none exists, inserts one
    /// carrying only that email (name, hash and avatars start empty).
    pub fn get_or_create_user(&mut self, email: &String, now: i64) -> (r: Result<
        User,
        TalliiError,
    >)
        requires
            wf(old(self)@),
        ensures
            wf(final(self)@),
            has_user_email(old(self)@, email@) ==> final(self)@ == old(self)@ && (r matches Ok(u)
                && is_first_user_with_email(old(self)@, email@, u@)),
            r matches Ok(u) ==> !has_user_email(old(self)@, email@) ==> u@ == (UserV {
                user_id: old(self)@.next_user_id,
                username: ""@,
                email: email@,
                password: ""@,
                avatar_background: ""@,
                avatar_emoji: ""@,
                created_at: now as int,
            }) && final(self)@ == (StoreV {
                users: old(self)@.users.push(u@),
                next_user_id: old(self)@.next_user_id + 1,
                ..old(self)@
            }),
            r is Err <==> (!has_user_email(old(self)@, email@) && old(self)@.next_user_id
                == i32::MAX),
            r is Err ==> final(self)@ == old(self)@,
            r matches Err(e) ==> e is DatabaseError,
    {
        match self.find_user_by_email(email) {
            Some(u) => Ok(u),
            None => {
                let empty = "".to_owned();
                self.create_user(&empty, email, &empty, now)
            },
        }
    }

    /// Replaces the acting user's name and avatar fields, returning the
    /// updated row, or `NotFound` when no row carries `user_id`.
    pub fn update_user(
        &mut self,
        user_id: i32,
        username: &String,
        avatar_background: &String,
        avatar_emoji: &String,
    ) -> (r: Result<User, TalliiError>)
        requires
            wf(old(self)@),
        ensures
            wf(final(self)@),
            r is Err <==> !has_user(old(self)@, user_id as int),
            r is Err ==> final(self)@ == old(self)@,
            r matches Err(e) ==> e is NotFound,
            r matches Ok(u) ==> u@ == profile_updated(
                user_by_id(old(self)@, user_id as int),
                username@,
                avatar_background@,
                avatar_emoji@,
            ) && (exists|ix: int|
                0 <= ix < old(self)@.users.len() && old(self)@.users[ix].user_id == user_id as int
                    && final(self)@ == (StoreV { users: old(self)@.users.update(ix, u@), ..old(self)@ })),
    {
        match self.find_user_ix(user_id) {
            Some(ix) => {
                let ghost s0 = self@;
                let row = User {
                    user_id: self.users[ix].user_id,
                    username: username.clone(),
                    email: self.users[ix].email.clone(),
                    password: self.users[ix].password.clone(),
                    avatar_background: avatar_background.clone(),
                    avatar_emoji: avatar_emoji.clone(),
                    created_at: self.users[ix].created_at,
                };
                let out = row.clone();
                let ghost rv = row@;
                self.users[ix] = row;
                proof {
                    assert(self@.users =~= s0.users.update(ix as int, rv));
                    assert(self@ == (StoreV { users: s0.users.update(ix as int, rv), ..s0 }));
                    lemma_user_by_id(s0, ix as int);
                    lemma_wf_update_user(s0, self@, ix as int, rv);
                }
                Ok(out)
            },
            None => Err(TalliiError::NotFound),
        }
    }

    /// Replaces the acting user's own profile fields and answers with the
    /// updated profile, without password material.
    pub fn update_me(
        &mut self,
        subject_user_id: i32,
        payload: &crate::records::UpdateMeRequestPayload,
    ) -> (r: Result<crate::records::UserResponse, TalliiError>)
        requires
            wf(old(self)@),
        ensures
            wf(final(self)@),
            r is Err <==> !has_user(old(self)@, subject_user_id as int),
            r is Err ==> final(self)@ == old(self)@,
            r matches Err(e) ==> e is NotFound,
            r matches Ok(resp) ==> resp@ == crate::records::user_response_of(
                profile_updated(
                    user_by_id(old(self)@, subject_user_id as int),
                    payload.username@,
                    payload.avatar_background@,
                    payload.avatar_emoji@,
                ),
            ),
            r is Ok ==> (exists|ix: int|
                0 <= ix < old(self)@.users.len() && old(self)@.users[ix].user_id
                    == subject_user_id as int && final(self)@ == (StoreV {
                    users: old(self)@.users.update(
                        ix,
                        profile_updated(
                            user_by_id(old(self)@, subject_user_id as int),
                            payload.username@,
                            payload.avatar_background@,
                            payload.avatar_emoji@,
                        ),
                    ),
                    ..old(self)@
                })),
    {
        match self.update_user(
            subject_user_id,
            &payload.username,
            &payload.avatar_background,
            &payload.avatar_emoji,
        ) {
            Ok(u) => Ok(crate::records::user_response(&u)),
            Err(e) => Err(e),
        }
    }

    /// Fetches the acting user's own profile, without password material.
    pub fn get_me(&self, subject_user_id: i32) -> (r: Result<
        crate::records::UserResponse,
        TalliiError,
    >)
        requires
            wf(self@),
        ensures
            r matches Ok(u) ==> u@ == crate::records::user_response_of(
                user_by_id(self@, subject_user_id as int),
            ),
            r is Err <==> !has_user(self@, subject_user_id as int),
            r matches Err(e) ==> e is NotFound,
    {
        match self.get_user(subject_user_id) {
            Ok(u) => Ok(crate::records::user_response(&u)),
            Err(e) => Err(e),
        }
    }

    /// Fetches the teams of one scoreboard, in storage order.
    pub fn teams_of_scoreboard(&self, scoreboard_id: i32) -> (r: Vec<TeamRow>)
        ensures
            teams_view(r@) == self@.teams.filter(team_in_scoreboard(scoreboard_id as int)),
    {
        let ghost pred = team_in_scoreboard(scoreboard_id as int);
        let n = self.teams.len();
        let mut out: Vec<TeamRow> = Vec::new();
        let mut k: usize = 0;
        while k < n
            invariant
                k <= n,
                n == self.teams.len(),
                teams_view(out@) == self@.teams.take(k as int).filter(pred),
                pred == team_in_scoreboard(scoreboard_id as int),
            decreases n - k,
        {
            proof {
                lemma_filter_push(self@.teams.take(k as int), pred, self@.teams[k as int]);
                assert(self@.teams.take(k + 1) =~= self@.teams.take(k as int).push(
                    self@.teams[k as int],
                ));
            }
            if self.teams[k].scoreboard_id == scoreboard_id {
                let ghost out0 = out@;
                let t = self.teams[k].clone();
                out.push(t);
                proof {
                    assert(teams_view(out@) =~= self@.teams.take(k + 1).filter(pred));
                }
            }
            k = k + 1;
        }
        proof {
            assert(self@.teams.take(n as int) =~= self@.teams);
        }
        out
    }

    /// Fetches the scoreboards one user owns, in storage order.
    pub fn scoreboards_of_user(&self, user_id: i32) -> (r: Vec<Scoreboard>)
        ensures
            scoreboards_view(r@) == self@.scoreboards.filter(scoreboard_owned_by(user_id as int)),
    {
        let ghost pred = scoreboard_owned_by(user_id as int);
        let n = self.scoreboards.len();
        let mut out: Vec<Scoreboard> = Vec::new();
        let mut k: usize = 0;
        while k < n
            invariant
                k <= n,
                n == self.scoreboards.len(),
                scoreboards_view(out@) == self@.scoreboards.take(k as int).filter(pred),
                pred == scoreboard_owned_by(user_id as int),
            decreases n - k,
        {
            proof {
                lemma_filter_push(
                    self@.scoreboards.take(k as int),
                    pred,
                    self@.scoreboards[k as int],
                );
                assert(self@.scoreboards.take(k + 1) =~= self@.scoreboards.take(k as int).push(
                    self@.scoreboards[k as int],
                ));
            }
            if self.scoreboards[k].created_by == user_id {
                let s = self.scoreboards[k].clone();
                out.push(s);
                proof {
                    assert(scoreboards_view(out@) =~= self@.scoreboards.take(k + 1).filter(pred));
                }
            }
            k = k + 1;
        }
        proof {
            assert(self@.scoreboards.take(n as int) =~= self@.scoreboards);
        }
        out
    }

    /// Fetches every team whose parent scoreboard `user_id` owns, in
    /// storage order: what the grouped listing groups by scoreboard.
    pub fn teams_of_owner(&self, user_id: i32) -> (r: Vec<TeamRow>)
        requires
            wf(self@),
        ensures
            teams_view(r@) == self@.teams.filter(team_owned_by(self@, user_id as int)),
    {
        let ghost pred = team_owned_by(self@, user_id as int);
        let n = self.teams.len();
        let mut out: Vec<TeamRow> = Vec::new();
        let mut k: usize = 0;
        while k < n
            invariant
                wf(self@),
                k <= n,
                n == self.teams.len(),
                teams_view(out@) == self@.teams.take(k as int).filter(pred),
                pred == team_owned_by(self@, user_id as int),
            decreases n - k,
        {
            proof {
                lemma_filter_push(self@.teams.take(k as int), pred, self@.teams[k as int]);
                assert(self@.teams.take(k + 1) =~= self@.teams.take(k as int).push(
                    self@.teams[k as int],
                ));
                assert(has_scoreboard(self@, self@.teams[k as int].scoreboard_id));
            }
            let six = match self.find_scoreboard_ix(self.teams[k].scoreboard_id) {
                Some(six) => six,
                None => {
                    return vstd::pervasive::unreached();
                },
            };
            proof {
                lemma_scoreboard_by_id(self@, six as int);
            }
            if self.scoreboards[six].created_by == user_id {
                let t = self.teams[k].clone();
                out.push(t);
                proof {
                    assert(pred(self@.teams[k as int]));
                    assert(teams_view(out@) =~= self@.teams.take(k + 1).filter(pred));
                }
            } else {
                proof {
                    assert(!pred(self@.teams[k as int]));
                    assert(teams_view(out@) =~= self@.teams.take(k + 1).filter(pred));
                }
            }
            k = k + 1;
        }
        proof {
            assert(self@.teams.take(n as int) =~= self@.teams);
        }
        out
    }

    /// Fetches the players of one team, each joined with the user row it
    /// references, in storage order.
    pub fn players_of_team(&self, team_id: i32) -> (r: Vec<crate::records::PlayerRow>)
        requires
            wf(self@),
        ensures
            crate::records::player_rows_view(r@) == joined_players(self@, team_id as int),
    {
        let ghost pred = player_in_team(team_id as int);
        let ghost joinf = join_player(self@);
        let n = self.players.len();
        let mut out: Vec<crate::records::PlayerRow> = Vec::new();
        let mut k: usize = 0;
        while k < n
            invariant
                wf(self@),
                k <= n,
                n == self.players.len(),
                crate::records::player_rows_view(out@) == self@.players.take(k as int).filter(
                    pred,
                ).map_values(joinf),
                pred == player_in_team(team_id as int),
                joinf == join_player(self@),
            decreases n - k,
        {
            proof {
                lemma_filter_push(self@.players.take(k as int), pred, self@.players[k as int]);
                assert(self@.players.take(k + 1) =~= self@.players.take(k as int).push(
                    self@.players[k as int],
                ));
            }
            if self.players[k].team_id == team_id {
                let uix = match self.find_user_ix(self.players[k].user_id) {
                    Some(uix) => uix,
                    None => {
                        proof {
                            assert(has_user(self@, self@.players[k as int].user_id));
                        }
                        vstd::pervasive::unreached()
                    },
                };
                let row = crate::records::PlayerRow {
                    team_player_id: self.players[k].team_player_id,
                    team_id: self.players[k].team_id,
                    player_created_at: self.players[k].created_at,
                    user: crate::records::user_response(&self.users[uix]),
                };
                let ghost filtered0 = self@.players.take(k as int).filter(pred);
                out.push(row);
                proof {
                    lemma_user_by_id(self@, uix as int);
                    assert(row@ == joinf(self@.players[k as int]));
                    filtered0.lemma_push_map_commute(joinf, self@.players[k as int]);
                    assert(crate::records::player_rows_view(out@) =~= self@.players.take(
                        k + 1,
                    ).filter(pred).map_values(joinf));
                }
            }
            k = k + 1;
        }
        proof {
            assert(self@.players.take(n as int) =~= self@.players);
        }
        out
    }

    /// Assembles the denormalized view of one scoreboard: the row, its
    /// creator (sans password), and its teams. `NotFound` exactly when no
    /// scoreboard carries `scoreboard_id`.
    pub fn get_scoreboard_response(&self, scoreboard_id: i32) -> (r: Result<
        crate::records::ScoreboardResponse,
        TalliiError,
    >)
        requires
            wf(self@),
        ensures
            r is Err <==> !has_scoreboard(self@, scoreboard_id as int),
            r matches Err(e) ==> e is NotFound,
            r matches Ok(resp) ==> resp@ == crate::records::scoreboard_response_of(
                scoreboard_by_id(self@, scoreboard_id as int),
                user_by_id(self@, scoreboard_by_id(self@, scoreboard_id as int).created_by),
                Some(self@.teams.filter(team_in_scoreboard(scoreboard_id as int))),
            ),
    {
        let sb = match self.get_scoreboard(scoreboard_id) {
            Ok(sb) => sb,
            Err(e) => {
                return Err(e);
            },
        };
        let teams = self.teams_of_scoreboard(scoreboard_id);
        proof {
            let k = choose|k: int|
                0 <= k < self@.scoreboards.len() && self@.scoreboards[k] == sb@;
            assert(has_user(self@, self@.scoreboards[k].created_by));
        }
        let creator = match self.get_user(sb.created_by) {
            Ok(u) => u,
            Err(_) => {
                return vstd::pervasive::unreached();
            },
        };
        Ok(crate::records::assemble_scoreboard_response(&sb, &creator, teams))
    }

    /// Assembles the denormalized view of one team: the row and its players,
    /// each joined with its user. `NotFound` exactly when no team carries
    /// `team_id`.
    pub fn get_team_response(&self, team_id: i32) -> (r: Result<
        crate::records::TeamResponse,
        TalliiError,
    >)
        requires
            wf(self@),
        ensures
            r is Err <==> !has_team(self@, team_id as int),
            r matches Err(e) ==> e is NotFound,
            r matches Ok(resp) ==> resp@ == crate::records::team_response_of(
                team_by_id(self@, team_id as int),
                joined_players(self@, team_id as int),
            ),
    {
        let t = match self.get_team(team_id) {
            Ok(t) => t,
            Err(e) => {
                return Err(e);
            },
        };
        let players = self.players_of_team(team_id);
        Ok(crate::records::assemble_team_response(&t, players))
    }

    /// Assembles the scoreboard listing of one user: every scoreboard the
    /// user owns appears exactly once, in storage order, with its team group
    /// (absent when the scoreboard has no teams). `NotFound` exactly when
    /// the user does not exist — never an empty list for a missing user.
    pub fn get_user_scoreboards(&self, user_id: i32) -> (r: Result<
        Vec<crate::records::ScoreboardResponse>,
        TalliiError,
    >)
        requires
            wf(self@),
        ensures
            r is Err <==> !has_user(self@, user_id as int),
            r matches Err(e) ==> e is NotFound,
            r matches Ok(resps) ==> ({
                let owned = self@.scoreboards.filter(scoreboard_owned_by(user_id as int));
                &&& resps@.len() == owned.len()
                &&& forall|k: int|
                    0 <= k < owned.len() ==> (#[trigger] resps@[k])@
                        == crate::records::scoreboard_response_of(
                        owned[k],
                        user_by_id(self@, user_id as int),
                        group_of(self@.teams, owned[k].scoreboard_id),
                    )
            }),
    {
        let user = match self.get_user(user_id) {
            Ok(u) => u,
            Err(e) => {
                return Err(e);
            },
        };
        let scoreboards = self.scoreboards_of_user(user_id);
        let n = scoreboards.len();
        let ghost owned = self@.scoreboards.filter(scoreboard_owned_by(user_id as int));
        let mut out: Vec<crate::records::ScoreboardResponse> = Vec::new();
        let mut k: usize = 0;
        while k < n
            invariant
                wf(self@),
                k <= n,
                n == scoreboards@.len(),
                owned == self@.scoreboards.filter(scoreboard_owned_by(user_id as int)),
                scoreboards_view(scoreboards@) == owned,
                user@ == user_by_id(self@, user_id as int),
                out@.len() == k,
                forall|j: int|
                    0 <= j < k ==> (#[trigger] out@[j])@
                        == crate::records::scoreboard_response_of(
                        owned[j],
                        user@,
                        group_of(self@.teams, owned[j].scoreboard_id),
                    ),
            decreases n - k,
        {
            let teams = self.teams_of_scoreboard(scoreboards[k].scoreboard_id);
            let resp = if teams.len() == 0 {
                crate::records::ScoreboardResponse {
                    scoreboard_id: scoreboards[k].scoreboard_id,
                    name: scoreboards[k].name.clone(),
                    game: scoreboards[k].game.clone(),
                    created_by: crate::records::user_response(&user),
                    created_at: scoreboards[k].created_at,
                    updated_at: scoreboards[k].updated_at,
                    teams: None,
                }
            } else {
                crate::records::assemble_scoreboard_response(&scoreboards[k], &user, teams)
            };
            proof {
                assert(owned[k as int] == scoreboards@[k as int]@);
                assert(resp@ == crate::records::scoreboard_response_of(
                    owned[k as int],
                    user@,
                    group_of(self@.teams, owned[k as int].scoreboard_id),
                ));
            }
            out.push(resp);
            k = k + 1;
        }
        Ok(out)
    }

    /// Replaces one team's name and score, gated on ownership: the acting
    /// identity must be the creator of the team's parent scoreboard (teams
    /// carry no owner of their own). `NotFound` when the team does not
    /// exist; `Forbidden` when it exists but the actor does not own it; in
    /// both cases nothing changes.
    pub fn update_team(
        &mut self,
        claims: &crate::token::Claims,
        team_id: i32,
        payload: &crate::records::UpdateTeamRequest,
    ) -> (r: Result<TeamRow, TalliiError>)
        requires
            wf(old(self)@),
        ensures
            wf(final(self)@),
            r is Err ==> final(self)@ == old(self)@,
            r matches Err(e) ==> e is NotFound || e is Forbidden,
            (r matches Err(e) && e is NotFound) <==> !has_team(old(self)@, team_id as int),
            (r matches Err(e) && e is Forbidden) <==> (has_team(old(self)@, team_id as int)
                && team_owner(old(self)@, team_id as int) != claims.sub as int),
            r matches Ok(t) ==> ({
                &&& has_team(old(self)@, team_id as int)
                &&& team_owner(old(self)@, team_id as int) == claims.sub as int
                &&& t@ == team_updated(
                    team_by_id(old(self)@, team_id as int),
                    payload.name@,
                    payload.score as int,
                )
                &&& exists|ix: int|
                    0 <= ix < old(self)@.teams.len() && old(self)@.teams[ix].team_id
                        == team_id as int && final(self)@ == (StoreV {
                        teams: old(self)@.teams.update(ix, t@),
                        ..old(self)@
                    })
            }),
    {
        let ix = match self.find_team_ix(team_id) {
            Some(ix) => ix,
            None => {
                return Err(TalliiError::NotFound);
            },
        };
        proof {
            lemma_team_by_id(self@, ix as int);
            assert(has_scoreboard(self@, self@.teams[ix as int].scoreboard_id));
        }
        let six = match self.find_scoreboard_ix(self.teams[ix].scoreboard_id) {
            Some(six) => six,
            None => {
                return vstd::pervasive::unreached();
            },
        };
        proof {
            lemma_scoreboard_by_id(self@, six as int);
            assert(team_owner(self@, team_id as int) == self@.scoreboards[
                six as int
            ].created_by);
        }
        if self.scoreboards[six].created_by != claims.sub {
            return Err(TalliiError::Forbidden);
        }
        let ghost s0 = self@;
        let row = TeamRow {
            team_id: self.teams[ix].team_id,
            scoreboard_id: self.teams[ix].scoreboard_id,
            name: payload.name.clone(),
            score: payload.score,
            created_at: self.teams[ix].created_at,
        };
        let out = row.clone();
        let ghost rv = row@;
        self.teams[ix] = row;
        proof {
            assert(self@.teams =~= s0.teams.update(ix as int, rv));
            assert(self@ == (StoreV { teams: s0.teams.update(ix as int, rv), ..s0 }));
            lemma_wf_update_team(s0, self@, ix as int, rv);
        }
        Ok(out)
    }

    /// Whether the team carrying `team_id` belongs to scoreboard
    /// `scoreboard_id`.
    fn team_belongs_to(&self, team_id: i32, scoreboard_id: i32) -> (r: bool)
        requires
            wf(self@),
            has_team(self@, team_id as int),
        ensures
            r == team_linked(self@, team_id as int, scoreboard_id as int),
    {
        let ix = match self.find_team_ix(team_id) {
            Some(ix) => ix,
            None => {
                return vstd::pervasive::unreached();
            },
        };
        let r = self.teams[ix].scoreboard_id == scoreboard_id;
        proof {
            if !r {
                assert forall|k: int|
                    0 <= k < self@.teams.len() && self@.teams[k].team_id
                        == team_id as int implies k == ix as int by {
                    if k != ix as int {
                        assert(self@.teams[k].team_id != self@.teams[ix as int].team_id);
                    }
                }
            }
        }
        r
    }

    /// Deletes one scoreboard together with its teams and their players,
    /// gated on ownership. `NotFound` when the scoreboard does not exist;
    /// `Forbidden` when the acting identity is not its creator; in both
    /// cases nothing changes.
    pub fn delete_scoreboard(&mut self, claims: &crate::token::Claims, scoreboard_id: i32) -> (r:
        Result<(), TalliiError>)
        requires
            wf(old(self)@),
        ensures
            wf(final(self)@),
            r is Err ==> final(self)@ == old(self)@,
            r matches Err(e) ==> e is NotFound || e is Forbidden,
            (r matches Err(e) && e is NotFound) <==> !has_scoreboard(
                old(self)@,
                scoreboard_id as int,
            ),
            (r matches Err(e) && e is Forbidden) <==> (has_scoreboard(
                old(self)@,
                scoreboard_id as int,
            ) && scoreboard_by_id(old(self)@, scoreboard_id as int).created_by != claims.sub as int),
            r is Ok ==> has_scoreboard(old(self)@, scoreboard_id as int) && scoreboard_by_id(
                old(self)@,
                scoreboard_id as int,
            ).created_by == claims.sub as int,
            r is Ok ==> final(self)@ == (StoreV {
                scoreboards: old(self)@.scoreboards.filter(scoreboard_survives(scoreboard_id as int)),
                teams: old(self)@.teams.filter(team_survives(scoreboard_id as int)),
                players: old(self)@.players.filter(player_survives(old(self)@, scoreboard_id as int)),
                ..old(self)@
            }),
    {
        let six = match self.find_scoreboard_ix(scoreboard_id) {
            Some(six) => six,
            None => {
                return Err(TalliiError::NotFound);
            },
        };
        proof {
            lemma_scoreboard_by_id(self@, six as int);
        }
        if self.scoreboards[six].created_by != claims.sub {
            return Err(TalliiError::Forbidden);
        }
        let ghost s0 = self@;
        let ghost sid = scoreboard_id as int;

        // Collect the surviving players first: the test consults the team
        // table, which must still hold the doomed teams at that point.
        let ghost psurv = player_survives(s0, sid);
        let np = self.players.len();
        let mut kept_players: Vec<Player> = Vec::new();
        let mut k: usize = 0;
        while k < np
            invariant
                wf(self@),
                self@ == s0,
                k <= np,
                np == self.players.len(),
                sid == scoreboard_id as int,
                psurv == player_survives(s0, sid),
                players_view(kept_players@) == s0.players.take(k as int).filter(psurv),
            decreases np - k,
        {
            proof {
                lemma_filter_push(s0.players.take(k as int), psurv, s0.players[k as int]);
                assert(s0.players.take(k + 1) =~= s0.players.take(k as int).push(
                    s0.players[k as int],
                ));
                assert(has_team(s0, s0.players[k as int].team_id));
            }
            let doomed = self.team_belongs_to(self.players[k].team_id, scoreboard_id);
            if !doomed {
                let p = self.players[k].clone();
                kept_players.push(p);
                proof {
                    assert(psurv(s0.players[k as int]));
                    assert(players_view(kept_players@) =~= s0.players.take(k + 1).filter(psurv));
                }
            } else {
                proof {
                    assert(!psurv(s0.players[k as int]));
                    assert(players_view(kept_players@) =~= s0.players.take(k + 1).filter(psurv));
                }
            }
            k = k + 1;
        }
        proof {
            assert(s0.players.take(np as int) =~= s0.players);
        }

        let ghost tsurv = team_survives(sid);
        let nt = self.teams.len();
        let mut kept_teams: Vec<TeamRow> = Vec::new();
        let mut k2: usize = 0;
        while k2 < nt
            invariant
                self@ == s0,
                k2 <= nt,
                nt == self.teams.len(),
                sid == scoreboard_id as int,
                tsurv == team_survives(sid),
                teams_view(kept_teams@) == s0.teams.take(k2 as int).filter(tsurv),
            decreases nt - k2,
        {
            proof {
                lemma_filter_push(s0.teams.take(k2 as int), tsurv, s0.teams[k2 as int]);
                assert(s0.teams.take(k2 + 1) =~= s0.teams.take(k2 as int).push(
                    s0.teams[k2 as int],
                ));
            }
            if self.teams[k2].scoreboard_id != scoreboard_id {
                let t = self.teams[k2].clone();
                kept_teams.push(t);
                proof {
                    assert(tsurv(s0.teams[k2 as int]));
                    assert(teams_view(kept_teams@) =~= s0.teams.take(k2 + 1).filter(tsurv));
                }
            } else {
                proof {
                    assert(!tsurv(s0.teams[k2 as int]));
                    assert(teams_view(kept_teams@) =~= s0.teams.take(k2 + 1).filter(tsurv));
                }
            }
            k2 = k2 + 1;
        }
        proof {
            assert(s0.teams.take(nt as int) =~= s0.teams);
        }

        let ghost ssurv = scoreboard_survives(sid);
        let ns = self.scoreboards.len();
        let mut kept_scoreboards: Vec<Scoreboard> = Vec::new();
        let mut k3: usize = 0;
        while k3 < ns
            invariant
                self@ == s0,
                k3 <= ns,
                ns == self.scoreboards.len(),
                sid == scoreboard_id as int,
                ssurv == scoreboard_survives(sid),
                scoreboards_view(kept_scoreboards@) == s0.scoreboards.take(k3 as int).filter(ssurv),
            decreases ns - k3,
        {
            proof {
                lemma_filter_push(s0.scoreboards.take(k3 as int), ssurv, s0.scoreboards[k3 as int]);
                assert(s0.scoreboards.take(k3 + 1) =~= s0.scoreboards.take(k3 as int).push(
                    s0.scoreboards[k3 as int],
                ));
            }
            if self.scoreboards[k3].scoreboard_id != scoreboard_id {
                let s = self.scoreboards[k3].clone();
                kept_scoreboards.push(s);
                proof {
                    assert(ssurv(s0.scoreboards[k3 as int]));
                    assert(scoreboards_view(kept_scoreboards@) =~= s0.scoreboards.take(
                        k3 + 1,
                    ).filter(ssurv));
                }
            } else {
                proof {
                    assert(!ssurv(s0.scoreboards[k3 as int]));
                    assert(scoreboards_view(kept_scoreboards@) =~= s0.scoreboards.take(
                        k3 + 1,
                    ).filter(ssurv));
                }
            }
            k3 = k3 + 1;
        }
        proof {
            assert(s0.scoreboards.take(ns as int) =~= s0.scoreboards);
        }

        self.players = kept_players;
        self.teams = kept_teams;
        self.scoreboards = kept_scoreboards;
        proof {
            assert(self@ == (StoreV {
                scoreboards: s0.scoreboards.filter(ssurv),
                teams: s0.teams.filter(tsurv),
                players: s0.players.filter(psurv),
                ..s0
            }));
            lemma_wf_delete_scoreboard(s0, self@, sid);
        }
        Ok(())
    }

    /// The aggregate write: creates a scoreboard together with its full
    /// roster of teams and players as one all-or-nothing unit, owned by
    /// `creator_id`, and returns the new scoreboard id. Inserts happen in
    /// payload order, later ones bound to ids generated by earlier ones. A
    /// creator or player id that references no existing user — or a roster
    /// the id space cannot seat — fails the whole operation with
    /// `DatabaseError`, and then nothing at all changes.
    pub fn create_scoreboard_with_teams(
        &mut self,
        payload: &CreateScoreboardPayload,
        creator_id: i32,
        now: i64,
    ) -> (r: Result<i32, TalliiError>)
        requires
            wf(old(self)@),
        ensures
            wf(final(self)@),
            r is Err ==> final(self)@ == old(self)@,
            r matches Err(e) ==> e is DatabaseError,
            r is Err <==> (old(self)@.next_scoreboard_id == i32::MAX || old(self)@.next_team_id
                + payload@.teams.len() > i32::MAX || old(self)@.next_player_id + player_count(
                payload@.teams,
            ) > i32::MAX || !has_user(old(self)@, creator_id as int) || !all_players_exist(
                old(self)@,
                payload@.teams,
            )),
            r matches Ok(sid) ==> sid as int == old(self)@.next_scoreboard_id && final(self)@ == (
            StoreV {
                scoreboards: old(self)@.scoreboards.push(
                    planned_scoreboard(payload@, sid as int, creator_id as int, now as int),
                ),
                teams: old(self)@.teams + planned_teams(
                    payload@.teams,
                    old(self)@.next_team_id,
                    sid as int,
                    now as int,
                ),
                players: old(self)@.players + planned_players(
                    payload@.teams,
                    old(self)@.next_team_id,
                    old(self)@.next_player_id,
                    now as int,
                ),
                next_scoreboard_id: old(self)@.next_scoreboard_id + 1,
                next_team_id: old(self)@.next_team_id + payload@.teams.len(),
                next_player_id: old(self)@.next_player_id + player_count(payload@.teams),
                ..old(self)@
            }),
    {
        let ghost s0 = self@;
        // Everything is checked before the first insert — id headroom first,
        // then the foreign keys — so a failure leaves no partial team behind.
        if self.next_scoreboard_id == i32::MAX {
            return Err(TalliiError::DatabaseError("scoreboard id space exhausted".to_owned()));
        }
        let nteams = payload.teams.len();
        if nteams > (i32::MAX - self.next_team_id) as usize {
            return Err(TalliiError::DatabaseError("team id space exhausted".to_owned()));
        }
        let player_headroom: u64 = (i32::MAX - self.next_player_id) as u64;
        let mut total_players: u64 = 0;
        let mut c: usize = 0;
        while c < nteams
            invariant
                s0 == self@,
                wf(s0),
                c <= nteams,
                nteams == payload.teams@.len(),
                player_headroom == i32::MAX - s0.next_player_id,
                total_players == player_count(payload@.teams.take(c as int)),
                total_players <= player_headroom,
            decreases nteams - c,
        {
            proof {
                lemma_player_count_take_succ(payload@.teams, c as int);
            }
            let len = payload.teams[c].players.len();
            if (len as u64) > player_headroom - total_players {
                proof {
                    lemma_player_count_take_le(payload@.teams, c + 1);
                }
                return Err(TalliiError::DatabaseError("player id space exhausted".to_owned()));
            }
            total_players = total_players + (len as u64);
            c = c + 1;
        }
        proof {
            assert(payload@.teams.take(nteams as int) =~= payload@.teams);
        }
        if self.find_user_ix(creator_id).is_none() {
            return Err(
                TalliiError::DatabaseError("scoreboard creator references no user".to_owned()),
            );
        }
        let mut i: usize = 0;
        while i < nteams
            invariant
                wf(s0),
                s0 == self@,
                i <= nteams,
                nteams == payload.teams@.len(),
                forall|i2: int, j2: int|
                    0 <= i2 < i && 0 <= j2 < payload@.teams[i2].players.len() ==> has_user(
                        s0,
                        #[trigger] payload@.teams[i2].players[j2],
                    ),
            decreases nteams - i,
        {
            let nplayers = payload.teams[i].players.len();
            let mut j: usize = 0;
            while j < nplayers
                invariant
                    wf(s0),
                    s0 == self@,
                    i < nteams,
                    nteams == payload.teams@.len(),
                    j <= nplayers,
                    nplayers == payload@.teams[i as int].players.len(),
                    forall|j2: int|
                        0 <= j2 < j ==> has_user(s0, #[trigger] payload@.teams[i as int].players[j2]),
                decreases nplayers - j,
            {
                if self.find_user_ix(payload.teams[i].players[j]).is_none() {
                    proof {
                        assert(payload@.teams[i as int].players[j as int] == payload.teams@[
                            i as int
                        ].players@[j as int] as int);
                        assert(!has_user(s0, payload@.teams[i as int].players[j as int]));
                        assert(!all_players_exist(s0, payload@.teams));
                    }
                    return Err(
                        TalliiError::DatabaseError("team player references no user".to_owned()),
                    );
                }
                proof {
                    assert(payload@.teams[i as int].players[j as int] == payload.teams@[
                        i as int
                    ].players@[j as int] as int);
                }
                j = j + 1;
            }
            i = i + 1;
        }
        proof {
            assert(all_players_exist(s0, payload@.teams));
        }

        // Insert the scoreboard row and obtain its generated id.
        let sid = self.next_scoreboard_id;
        let sb = Scoreboard {
            scoreboard_id: sid,
            name: payload.name.clone(),
            game: payload.game.clone(),
            created_by: creator_id,
            created_at: now,
            updated_at: now,
        };
        let ghost sbv = sb@;
        self.scoreboards.push(sb);
        self.next_scoreboard_id = self.next_scoreboard_id + 1;
        proof {
            assert(self@.scoreboards == s0.scoreboards.push(sbv));
            assert(self@ == (StoreV {
                scoreboards: s0.scoreboards.push(sbv),
                next_scoreboard_id: s0.next_scoreboard_id + 1,
                ..s0
            }));
            assert(sbv == planned_scoreboard(payload@, sid as int, creator_id as int, now as int));
            lemma_wf_push_scoreboard(s0, self@, sbv);
        }
        let ghost s1 = self@;
        let ghost tid0 = self@.next_team_id;
        let ghost pid0 = self@.next_player_id;
        proof {
            assert forall|i2: int, j2: int|
                0 <= i2 < payload@.teams.len() && 0 <= j2 < payload@.teams[
                    i2
                ].players.len() implies has_user(s1, #[trigger] payload@.teams[i2].players[j2]) by {
                assert(has_user(s0, payload@.teams[i2].players[j2]));
                let k = choose|k: int|
                    0 <= k < s0.users.len() && s0.users[k].user_id == payload@.teams[i2].players[j2];
                assert(s1.users[k].user_id == payload@.teams[i2].players[j2]);
            }
        }

        // Insert each team in input order, and inside it each player in
        // input order, every row bound to the ids generated before it.
        let mut i2: usize = 0;
        while i2 < nteams
            invariant
                wf(self@),
                i2 <= nteams,
                nteams == payload.teams@.len(),
                tid0 == s1.next_team_id,
                pid0 == s1.next_player_id,
                tid0 + nteams <= i32::MAX,
                pid0 + player_count(payload@.teams) <= i32::MAX,
                has_scoreboard(s1, sid as int),
                all_players_exist(s1, payload@.teams),
                self@.users == s1.users,
                self@.scoreboards == s1.scoreboards,
                self@.games == s1.games,
                self@.next_user_id == s1.next_user_id,
                self@.next_scoreboard_id == s1.next_scoreboard_id,
                self@.next_game_id == s1.next_game_id,
                self@.teams == s1.teams + planned_teams(
                    payload@.teams.take(i2 as int),
                    tid0,
                    sid as int,
                    now as int,
                ),
                self@.players == s1.players + planned_players(
                    payload@.teams.take(i2 as int),
                    tid0,
                    pid0,
                    now as int,
                ),
                self@.next_team_id == tid0 + i2,
                self@.next_player_id == pid0 + player_count(payload@.teams.take(i2 as int)),
            decreases nteams - i2,
        {
            proof {
                lemma_player_count_take_le(payload@.teams, i2 + 1);
                lemma_player_count_take_succ(payload@.teams, i2 as int);
                lemma_player_count_nonneg(payload@.teams.take(i2 as int));
            }
            let tid = self.next_team_id;
            let team = TeamRow {
                team_id: tid,
                scoreboard_id: sid,
                name: payload.teams[i2].name.clone(),
                score: 0,
                created_at: now,
            };
            let ghost tv = team@;
            let ghost st = self@;
            self.teams.push(team);
            self.next_team_id = self.next_team_id + 1;
            proof {
                assert(self@.teams == st.teams.push(tv));
                assert(self@ == (StoreV {
                    teams: st.teams.push(tv),
                    next_team_id: st.next_team_id + 1,
                    ..st
                }));
                assert(has_scoreboard(st, sid as int));
                lemma_wf_push_team(st, self@, tv);
                assert(tv == planned_team(
                    payload@.teams[i2 as int],
                    tid0 + i2,
                    sid as int,
                    now as int,
                ));
                assert(planned_teams(
                    payload@.teams.take(i2 + 1),
                    tid0,
                    sid as int,
                    now as int,
                ) =~= planned_teams(payload@.teams.take(i2 as int), tid0, sid as int, now as int)
                    .push(tv));
                assert(self@.teams =~= s1.teams + planned_teams(
                    payload@.teams.take(i2 + 1),
                    tid0,
                    sid as int,
                    now as int,
                ));
            }
            let ghost pidbase = self@.next_player_id;
            let nplayers = payload.teams[i2].players.len();
            let mut j: usize = 0;
            while j < nplayers
                invariant
                    wf(self@),
                    i2 < nteams,
                    nteams == payload.teams@.len(),
                    j <= nplayers,
                    nplayers == payload@.teams[i2 as int].players.len(),
                    tid0 == s1.next_team_id,
                    pid0 == s1.next_player_id,
                    tid == tid0 + i2,
                    tid0 + nteams <= i32::MAX,
                    pidbase == pid0 + player_count(payload@.teams.take(i2 as int)),
                    pidbase + nplayers <= i32::MAX,
                    has_team(self@, tid as int),
                    all_players_exist(s1, payload@.teams),
                    self@.users == s1.users,
                    self@.scoreboards == s1.scoreboards,
                    self@.games == s1.games,
                    self@.next_user_id == s1.next_user_id,
                    self@.next_scoreboard_id == s1.next_scoreboard_id,
                    self@.next_game_id == s1.next_game_id,
                    self@.teams == s1.teams + planned_teams(
                        payload@.teams.take(i2 + 1),
                        tid0,
                        sid as int,
                        now as int,
                    ),
                    self@.next_team_id == tid0 + i2 + 1,
                    self@.players == s1.players + planned_players(
                        payload@.teams.take(i2 as int),
                        tid0,
                        pid0,
                        now as int,
                    ) + planned_players_of_team(
                        payload@.teams[i2 as int].players.take(j as int),
                        tid as int,
                        pidbase,
                        now as int,
                    ),
                    self@.next_player_id == pidbase + j,
                decreases nplayers - j,
            {
                let pid = self.next_player_id;
                let uid = payload.teams[i2].players[j];
                let player = Player {
                    team_player_id: pid,
                    team_id: tid,
                    user_id: uid,
                    created_at: now,
                };
                let ghost pv = player@;
                let ghost sp = self@;
                self.players.push(player);
                self.next_player_id = self.next_player_id + 1;
                proof {
                    assert(self@.players == sp.players.push(pv));
                    assert(self@ == (StoreV {
                        players: sp.players.push(pv),
                        next_player_id: sp.next_player_id + 1,
                        ..sp
                    }));
                    assert(uid as int == payload@.teams[i2 as int].players[j as int]);
                    assert(has_user(s1, uid as int));
                    lemma_wf_push_player(sp, self@, pv);
                    assert(self@.teams == sp.teams);
                    let kk = choose|kk: int|
                        0 <= kk < sp.teams.len() && sp.teams[kk].team_id == tid as int;
                    assert(self@.teams[kk].team_id == tid as int);
                    assert(planned_players_of_team(
                        payload@.teams[i2 as int].players.take(j + 1),
                        tid as int,
                        pidbase,
                        now as int,
                    ) =~= planned_players_of_team(
                        payload@.teams[i2 as int].players.take(j as int),
                        tid as int,
                        pidbase,
                        now as int,
                    ).push(pv));
                    assert(self@.players =~= s1.players + planned_players(
                        payload@.teams.take(i2 as int),
                        tid0,
                        pid0,
                        now as int,
                    ) + planned_players_of_team(
                        payload@.teams[i2 as int].players.take(j + 1),
                        tid as int,
                        pidbase,
                        now as int,
                    ));
                }
                j = j + 1;
            }
            proof {
                lemma_planned_players_take_succ(
                    payload@.teams,
                    tid0,
                    pid0,
                    now as int,
                    i2 as int,
                );
                lemma_player_count_take_succ(payload@.teams, i2 as int);
                assert(payload@.teams[i2 as int].players.take(nplayers as int)
                    =~= payload@.teams[i2 as int].players);
                assert(self@.players =~= s1.players + planned_players(
                    payload@.teams.take(i2 + 1),
                    tid0,
                    pid0,
                    now as int,
                ));
            }
            i2 = i2 + 1;
        }
        proof {
            assert(payload@.teams.take(nteams as int) =~= payload@.teams);
            assert(self@ == (StoreV {
                scoreboards: s0.scoreboards.push(
                    planned_scoreboard(payload@, sid as int, creator_id as int, now as int),
                ),
                teams: s0.teams + planned_teams(
                    payload@.teams,
                    s0.next_team_id,
                    sid as int,
                    now as int,
                ),
                players: s0.players + planned_players(
                    payload@.teams,
                    s0.next_team_id,
                    s0.next_player_id,
                    now as int,
                ),
                next_scoreboard_id: s0.next_scoreboard_id + 1,
                next_team_id: s0.next_team_id + payload@.teams.len(),
                next_player_id: s0.next_player_id + player_count(payload@.teams),
                ..s0
            }));
        }
        Ok(sid)
    }
}

} // verus!
