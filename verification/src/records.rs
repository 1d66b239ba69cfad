//! The persistent record shapes (users, scoreboards, teams, players, games),
//! their mathematical views, and the request/response shapes built over them.
//!
//! Timestamps are unix seconds throughout.

use vstd::prelude::*;

verus! {

/// A user row. `password` holds the encoded password hash and never leaves
/// the boundary: every response shape strips it.
pub struct User {
    pub user_id: i32,
    pub username: String,
    pub email: String,
    pub password: String,
    pub avatar_background: String,
    pub avatar_emoji: String,
    pub created_at: i64,
}

/// Mathematical view of a user row.
pub ghost struct UserV {
    pub user_id: int,
    pub username: Seq<char>,
    pub email: Seq<char>,
    pub password: Seq<char>,
    pub avatar_background: Seq<char>,
    pub avatar_emoji: Seq<char>,
    pub created_at: int,
}

impl View for User {
    type V = UserV;

    open spec fn view(&self) -> UserV {
        UserV {
            user_id: self.user_id as int,
            username: self.username@,
            email: self.email@,
            password: self.password@,
            avatar_background: self.avatar_background@,
            avatar_emoji: self.avatar_emoji@,
            created_at: self.created_at as int,
        }
    }
}

impl Clone for User {
    fn clone(&self) -> (r: Self)
        ensures
            r@ == self@,
    {
        User {
            user_id: self.user_id,
            username: self.username.clone(),
            email: self.email.clone(),
            password: self.password.clone(),
            avatar_background: self.avatar_background.clone(),
            avatar_emoji: self.avatar_emoji.clone(),
            created_at: self.created_at,
        }
    }
}

/// A user as responses carry it: the same row without password material.
pub struct UserResponse {
    pub user_id: i32,
    pub username: String,
    pub email: String,
    pub avatar_background: String,
    pub avatar_emoji: String,
    pub created_at: i64,
}

/// Mathematical view of a user response.
pub ghost struct UserResponseV {
    pub user_id: int,
    pub username: Seq<char>,
    pub email: Seq<char>,
    pub avatar_background: Seq<char>,
    pub avatar_emoji: Seq<char>,
    pub created_at: int,
}

impl View for UserResponse {
    type V = UserResponseV;

    open spec fn view(&self) -> UserResponseV {
        UserResponseV {
            user_id: self.user_id as int,
            username: self.username@,
            email: self.email@,
            avatar_background: self.avatar_background@,
            avatar_emoji: self.avatar_emoji@,
            created_at: self.created_at as int,
        }
    }
}

/// What a user row looks like with its password material stripped.
pub open spec fn user_response_of(u: UserV) -> UserResponseV {
    UserResponseV {
        user_id: u.user_id,
        username: u.username,
        email: u.email,
        avatar_background: u.avatar_background,
        avatar_emoji: u.avatar_emoji,
        created_at: u.created_at,
    }
}

/// Builds the response shape of a user row, leaving the password behind.
pub fn user_response(u: &User) -> (r: UserResponse)
    ensures
        r@ == user_response_of(u@),
{
    UserResponse {
        user_id: u.user_id,
        username: u.username.clone(),
        email: u.email.clone(),
        avatar_background: u.avatar_background.clone(),
        avatar_emoji: u.avatar_emoji.clone(),
        created_at: u.created_at,
    }
}

/// A scoreboard row. `created_by` is immutable after creation and is the
/// sole ownership anchor for authorization.
pub struct Scoreboard {
    pub scoreboard_id: i32,
    pub name: String,
    pub game: String,
    pub created_by: i32,
    pub created_at: i64,
    pub updated_at: i64,
}

/// Mathematical view of a scoreboard row.
pub ghost struct ScoreboardV {
    pub scoreboard_id: int,
    pub name: Seq<char>,
    pub game: Seq<char>,
    pub created_by: int,
    pub created_at: int,
    pub updated_at: int,
}

impl View for Scoreboard {
    type V = ScoreboardV;

    open spec fn view(&self) -> ScoreboardV {
        ScoreboardV {
            scoreboard_id: self.scoreboard_id as int,
            name: self.name@,
            game: self.game@,
            created_by: self.created_by as int,
            created_at: self.created_at as int,
            updated_at: self.updated_at as int,
        }
    }
}

impl Clone for Scoreboard {
    fn clone(&self) -> (r: Self)
        ensures
            r@ == self@,
    {
        Scoreboard {
            scoreboard_id: self.scoreboard_id,
            name: self.name.clone(),
            game: self.game.clone(),
            created_by: self.created_by,
            created_at: self.created_at,
            updated_at: self.updated_at,
        }
    }
}

/// A team row. A team belongs to exactly one scoreboard and has no owner
/// field of its own: authorization goes through the parent scoreboard.
pub struct TeamRow {
    pub team_id: i32,
    pub scoreboard_id: i32,
    pub name: String,
    pub score: i32,
    pub created_at: i64,
}

/// Mathematical view of a team row.
pub ghost struct TeamV {
    pub team_id: int,
    pub scoreboard_id: int,
    pub name: Seq<char>,
    pub score: int,
    pub created_at: int,
}

impl View for TeamRow {
    type V = TeamV;

    open spec fn view(&self) -> TeamV {
        TeamV {
            team_id: self.team_id as int,
            scoreboard_id: self.scoreboard_id as int,
            name: self.name@,
            score: self.score as int,
            created_at: self.created_at as int,
        }
    }
}

impl Clone for TeamRow {
    fn clone(&self) -> (r: Self)
        ensures
            r@ == self@,
    {
        TeamRow {
            team_id: self.team_id,
            scoreboard_id: self.scoreboard_id,
            name: self.name.clone(),
            score: self.score,
            created_at: self.created_at,
        }
    }
}

/// A player row: the associative entity linking a user to a team.
pub struct Player {
    pub team_player_id: i32,
    pub team_id: i32,
    pub user_id: i32,
    pub created_at: i64,
}

/// Mathematical view of a player row.
pub ghost struct PlayerV {
    pub team_player_id: int,
    pub team_id: int,
    pub user_id: int,
    pub created_at: int,
}

impl View for Player {
    type V = PlayerV;

    open spec fn view(&self) -> PlayerV {
        PlayerV {
            team_player_id: self.team_player_id as int,
            team_id: self.team_id as int,
            user_id: self.user_id as int,
            created_at: self.created_at as int,
        }
    }
}

impl Clone for Player {
    fn clone(&self) -> (r: Self)
        ensures
            r@ == self@,
    {
        Player {
            team_player_id: self.team_player_id,
            team_id: self.team_id,
            user_id: self.user_id,
            created_at: self.created_at,
        }
    }
}

/// A player joined with its user row, as the team read path returns it.
pub struct PlayerRow {
    pub team_player_id: i32,
    pub team_id: i32,
    pub player_created_at: i64,
    pub user: UserResponse,
}

/// Mathematical view of a joined player row.
pub ghost struct PlayerRowV {
    pub team_player_id: int,
    pub team_id: int,
    pub player_created_at: int,
    pub user: UserResponseV,
}

impl View for PlayerRow {
    type V = PlayerRowV;

    open spec fn view(&self) -> PlayerRowV {
        PlayerRowV {
            team_player_id: self.team_player_id as int,
            team_id: self.team_id as int,
            player_created_at: self.player_created_at as int,
            user: self.user@,
        }
    }
}

/// The joined shape of one player row and the user row it references.
pub open spec fn player_row_of(p: PlayerV, u: UserV) -> PlayerRowV {
    PlayerRowV {
        team_player_id: p.team_player_id,
        team_id: p.team_id,
        player_created_at: p.created_at,
        user: user_response_of(u),
    }
}

/// A game row.
pub struct Game {
    pub game_id: i32,
    pub name: String,
    pub created_at: i64,
}

/// Mathematical view of a game row.
pub ghost struct GameV {
    pub game_id: int,
    pub name: Seq<char>,
    pub created_at: int,
}

impl View for Game {
    type V = GameV;

    open spec fn view(&self) -> GameV {
        GameV { game_id: self.game_id as int, name: self.name@, created_at: self.created_at as int }
    }
}

impl Clone for Game {
    fn clone(&self) -> (r: Self)
        ensures
            r@ == self@,
    {
        Game { game_id: self.game_id, name: self.name.clone(), created_at: self.created_at }
    }
}

/// View of a user table: the rows' views, in order.
pub open spec fn users_view(s: Seq<User>) -> Seq<UserV> {
    s.map_values(|u: User| u@)
}

/// View of a scoreboard table: the rows' views, in order.
pub open spec fn scoreboards_view(s: Seq<Scoreboard>) -> Seq<ScoreboardV> {
    s.map_values(|x: Scoreboard| x@)
}

/// View of a team table: the rows' views, in order.
pub open spec fn teams_view(s: Seq<TeamRow>) -> Seq<TeamV> {
    s.map_values(|t: TeamRow| t@)
}

/// View of a player table: the rows' views, in order.
pub open spec fn players_view(s: Seq<Player>) -> Seq<PlayerV> {
    s.map_values(|p: Player| p@)
}

/// View of a game table: the rows' views, in order.
pub open spec fn games_view(s: Seq<Game>) -> Seq<GameV> {
    s.map_values(|g: Game| g@)
}

/// View of a joined player list: the rows' views, in order.
pub open spec fn player_rows_view(s: Seq<PlayerRow>) -> Seq<PlayerRowV> {
    s.map_values(|p: PlayerRow| p@)
}

pub broadcast proof fn lemma_users_view_push(s: Seq<User>, x: User)
    ensures
        #[trigger] users_view(s.push(x)) =~= users_view(s).push(x@),
{
}

pub broadcast proof fn lemma_scoreboards_view_push(s: Seq<Scoreboard>, x: Scoreboard)
    ensures
        #[trigger] scoreboards_view(s.push(x)) =~= scoreboards_view(s).push(x@),
{
}

pub broadcast proof fn lemma_teams_view_push(s: Seq<TeamRow>, x: TeamRow)
    ensures
        #[trigger] teams_view(s.push(x)) =~= teams_view(s).push(x@),
{
}

pub broadcast proof fn lemma_players_view_push(s: Seq<Player>, x: Player)
    ensures
        #[trigger] players_view(s.push(x)) =~= players_view(s).push(x@),
{
}

pub broadcast proof fn lemma_games_view_push(s: Seq<Game>, x: Game)
    ensures
        #[trigger] games_view(s.push(x)) =~= games_view(s).push(x@),
{
}

pub broadcast proof fn lemma_player_rows_view_push(s: Seq<PlayerRow>, x: PlayerRow)
    ensures
        #[trigger] player_rows_view(s.push(x)) =~= player_rows_view(s).push(x@),
{
}

/// Request body for creating one team inside a scoreboard: its name and the
/// user ids of its players.
pub struct CreateTeamPayload {
    pub name: String,
    pub players: Vec<i32>,
}

/// Mathematical view of a team payload.
pub ghost struct CreateTeamPayloadV {
    pub name: Seq<char>,
    pub players: Seq<int>,
}

/// View of a player id list.
pub open spec fn player_ids_view(s: Seq<i32>) -> Seq<int> {
    s.map_values(|p: i32| p as int)
}

impl View for CreateTeamPayload {
    type V = CreateTeamPayloadV;

    open spec fn view(&self) -> CreateTeamPayloadV {
        CreateTeamPayloadV { name: self.name@, players: player_ids_view(self.players@) }
    }
}

/// Request body for creating a scoreboard with its full roster.
pub struct CreateScoreboardPayload {
    pub name: String,
    pub game: String,
    pub teams: Vec<CreateTeamPayload>,
}

/// Mathematical view of a scoreboard payload.
pub ghost struct CreateScoreboardPayloadV {
    pub name: Seq<char>,
    pub game: Seq<char>,
    pub teams: Seq<CreateTeamPayloadV>,
}

/// View of a team payload list.
pub open spec fn team_payloads_view(s: Seq<CreateTeamPayload>) -> Seq<CreateTeamPayloadV> {
    s.map_values(|t: CreateTeamPayload| t@)
}

impl View for CreateScoreboardPayload {
    type V = CreateScoreboardPayloadV;

    open spec fn view(&self) -> CreateScoreboardPayloadV {
        CreateScoreboardPayloadV {
            name: self.name@,
            game: self.game@,
            teams: team_payloads_view(self.teams@),
        }
    }
}

/// Request body for updating one team's name and score.
pub struct UpdateTeamRequest {
    pub name: String,
    pub score: i32,
}

/// Request body for creating a game.
pub struct CreateGamePayload {
    pub name: String,
}

/// Request body for updating the acting user's own profile.
pub struct UpdateMeRequestPayload {
    pub username: String,
    pub avatar_background: String,
    pub avatar_emoji: String,
}

/// The denormalized view of one scoreboard: the row itself, its creator
/// without password material, and its teams (absent when the read path
/// found none).
pub struct ScoreboardResponse {
    pub scoreboard_id: i32,
    pub name: String,
    pub game: String,
    pub created_by: UserResponse,
    pub created_at: i64,
    pub updated_at: i64,
    pub teams: Option<Vec<TeamRow>>,
}

/// Mathematical view of a scoreboard response.
pub ghost struct ScoreboardResponseV {
    pub scoreboard_id: int,
    pub name: Seq<char>,
    pub game: Seq<char>,
    pub created_by: UserResponseV,
    pub created_at: int,
    pub updated_at: int,
    pub teams: Option<Seq<TeamV>>,
}

impl View for ScoreboardResponse {
    type V = ScoreboardResponseV;

    open spec fn view(&self) -> ScoreboardResponseV {
        ScoreboardResponseV {
            scoreboard_id: self.scoreboard_id as int,
            name: self.name@,
            game: self.game@,
            created_by: self.created_by@,
            created_at: self.created_at as int,
            updated_at: self.updated_at as int,
            teams: match self.teams {
                Some(ts) => Some(teams_view(ts@)),
                None => None,
            },
        }
    }
}

/// The response shape assembled from a scoreboard row, its creator's row,
/// and a team list.
pub open spec fn scoreboard_response_of(
    s: ScoreboardV,
    creator: UserV,
    teams: Option<Seq<TeamV>>,
) -> ScoreboardResponseV {
    ScoreboardResponseV {
        scoreboard_id: s.scoreboard_id,
        name: s.name,
        game: s.game,
        created_by: user_response_of(creator),
        created_at: s.created_at,
        updated_at: s.updated_at,
        teams: teams,
    }
}

/// The denormalized view of one team: the row and its players, each joined
/// with the user it references.
pub struct TeamResponse {
    pub team_id: i32,
    pub scoreboard_id: i32,
    pub name: String,
    pub score: i32,
    pub players: Vec<PlayerRow>,
    pub created_at: i64,
}

/// Mathematical view of a team response.
pub ghost struct TeamResponseV {
    pub team_id: int,
    pub scoreboard_id: int,
    pub name: Seq<char>,
    pub score: int,
    pub players: Seq<PlayerRowV>,
    pub created_at: int,
}

impl View for TeamResponse {
    type V = TeamResponseV;

    open spec fn view(&self) -> TeamResponseV {
        TeamResponseV {
            team_id: self.team_id as int,
            scoreboard_id: self.scoreboard_id as int,
            name: self.name@,
            score: self.score as int,
            players: player_rows_view(self.players@),
            created_at: self.created_at as int,
        }
    }
}

/// The response shape assembled from a team row and its joined player rows.
pub open spec fn team_response_of(t: TeamV, players: Seq<PlayerRowV>) -> TeamResponseV {
    TeamResponseV {
        team_id: t.team_id,
        scoreboard_id: t.scoreboard_id,
        name: t.name,
        score: t.score,
        players: players,
        created_at: t.created_at,
    }
}

/// Assembles the single-scoreboard response from the three fetched pieces.
pub fn assemble_scoreboard_response(
    scoreboard: &Scoreboard,
    creator: &User,
    teams: Vec<TeamRow>,
) -> (r: ScoreboardResponse)
    ensures
        r@ == scoreboard_response_of(scoreboard@, creator@, Some(teams_view(teams@))),
{
    ScoreboardResponse {
        scoreboard_id: scoreboard.scoreboard_id,
        name: scoreboard.name.clone(),
        game: scoreboard.game.clone(),
        created_by: user_response(creator),
        created_at: scoreboard.created_at,
        updated_at: scoreboard.updated_at,
        teams: Some(teams),
    }
}

/// Assembles the single-team response from the row and its joined players.
pub fn assemble_team_response(team: &TeamRow, players: Vec<PlayerRow>) -> (r: TeamResponse)
    ensures
        r@ == team_response_of(team@, player_rows_view(players@)),
{
    TeamResponse {
        team_id: team.team_id,
        scoreboard_id: team.scoreboard_id,
        name: team.name.clone(),
        score: team.score,
        players: players,
        created_at: team.created_at,
    }
}

} // verus!
