use tallii::Claims;
use tallii::CreateGamePayload;
use tallii::CreateScoreboardPayload;
use tallii::CreateTeamPayload;
use tallii::Store;
use tallii::TalliiError;
use tallii::UpdateMeRequestPayload;
use tallii::UpdateTeamRequest;
use tallii::error_to_response;

const NOW: i64 = 1_700_000_000;

fn claims_for(user_id: i32) -> Claims {
    Claims { sub: user_id, email: format!("u{}@example.com", user_id), exp: NOW + 900 }
}

/// A store with `n` users, whose ids are 1..=n.
fn store_with_users(n: usize) -> Store {
    let mut store = Store::new();
    for i in 0..n {
        let username = format!("user{}", i + 1);
        let email = format!("u{}@example.com", i + 1);
        let hash = "irrelevant-hash".to_owned();
        store.create_user(&username, &email, &hash, NOW).unwrap();
    }
    store
}

fn roster_payload() -> CreateScoreboardPayload {
    CreateScoreboardPayload {
        name: "office cup".to_owned(),
        game: "table tennis".to_owned(),
        teams: vec![
            CreateTeamPayload { name: "reds".to_owned(), players: vec![1, 2] },
            CreateTeamPayload { name: "blues".to_owned(), players: vec![3, 4] },
        ],
    }
}

#[test]
fn aggregate_write_makes_all_rows_visible_atomically() {
    let mut store = store_with_users(4);
    let sid = store.create_scoreboard_with_teams(&roster_payload(), 1, NOW).unwrap();

    // Exactly one scoreboard, two teams, and two players per team.
    let sb = store.get_scoreboard(sid).unwrap();
    assert_eq!(sb.name, "office cup");
    assert_eq!(sb.game, "table tennis");
    assert_eq!(sb.created_by, 1);
    let teams = store.teams_of_scoreboard(sid);
    assert_eq!(teams.len(), 2);
    assert_eq!(teams[0].name, "reds");
    assert_eq!(teams[1].name, "blues");
    assert_eq!(teams[0].score, 0);
    assert_eq!(teams[1].scoreboard_id, sid);
    let reds = store.get_team_response(teams[0].team_id).unwrap();
    assert_eq!(reds.players.len(), 2);
    assert_eq!(reds.players[0].user.user_id, 1);
    assert_eq!(reds.players[1].user.user_id, 2);
    let blues = store.get_team_response(teams[1].team_id).unwrap();
    assert_eq!(blues.players.len(), 2);
    assert_eq!(blues.players[0].user.user_id, 3);
    assert_eq!(blues.players[1].user.user_id, 4);
    assert_eq!(store.get_teams().len(), 2);
}

#[test]
fn aggregate_write_with_invalid_player_leaves_nothing_behind() {
    // Only three users exist, so the roster's fourth player id is dangling.
    let mut store = store_with_users(3);
    let r = store.create_scoreboard_with_teams(&roster_payload(), 1, NOW);
    assert!(matches!(r, Err(TalliiError::DatabaseError(_))));

    // Zero rows from the whole request remain visible.
    assert!(store.get_teams().is_empty());
    assert!(matches!(store.get_scoreboard(1), Err(TalliiError::NotFound)));
    let mine = store.get_user_scoreboards(1).unwrap();
    assert!(mine.is_empty());
}

#[test]
fn aggregate_write_with_unknown_creator_fails() {
    let mut store = store_with_users(4);
    let r = store.create_scoreboard_with_teams(&roster_payload(), 99, NOW);
    assert!(matches!(r, Err(TalliiError::DatabaseError(_))));
    assert!(store.get_teams().is_empty());
}

#[test]
fn creation_is_visible_to_the_read_assembler_immediately() {
    let mut store = store_with_users(4);
    let sid = store.create_scoreboard_with_teams(&roster_payload(), 1, NOW).unwrap();
    let resp = store.get_scoreboard_response(sid).unwrap();
    assert_eq!(resp.scoreboard_id, sid);
    assert_eq!(resp.name, "office cup");
    assert_eq!(resp.created_by.user_id, 1);
    assert_eq!(resp.created_by.username, "user1");
    let teams = resp.teams.unwrap();
    assert_eq!(teams.len(), 2);
}

#[test]
fn foreign_user_cannot_update_or_delete_a_scoreboard() {
    let mut store = store_with_users(4);
    let sid = store.create_scoreboard_with_teams(&roster_payload(), 1, NOW).unwrap();
    let team_id = store.teams_of_scoreboard(sid)[0].team_id;
    let intruder = claims_for(2);

    let update = UpdateTeamRequest { name: "hijacked".to_owned(), score: 99 };
    assert!(matches!(
        store.update_team(&intruder, team_id, &update),
        Err(TalliiError::Forbidden)
    ));
    assert!(matches!(
        store.delete_scoreboard(&intruder, sid),
        Err(TalliiError::Forbidden)
    ));

    // Nothing changed.
    let team = store.get_team(team_id).unwrap();
    assert_eq!(team.name, "reds");
    assert_eq!(team.score, 0);
    assert!(store.get_scoreboard(sid).is_ok());
}

#[test]
fn owner_updates_and_deletes_their_scoreboard() {
    let mut store = store_with_users(4);
    let sid = store.create_scoreboard_with_teams(&roster_payload(), 1, NOW).unwrap();
    let team_id = store.teams_of_scoreboard(sid)[0].team_id;
    let owner = claims_for(1);

    let update = UpdateTeamRequest { name: "crimson".to_owned(), score: 12 };
    let updated = store.update_team(&owner, team_id, &update).unwrap();
    assert_eq!(updated.name, "crimson");
    assert_eq!(updated.score, 12);
    assert_eq!(updated.team_id, team_id);
    assert_eq!(store.get_team(team_id).unwrap().name, "crimson");

    store.delete_scoreboard(&owner, sid).unwrap();
    assert!(matches!(store.get_scoreboard(sid), Err(TalliiError::NotFound)));
    // The cascade removed the teams and their players too.
    assert!(store.get_teams().is_empty());
    assert!(matches!(store.get_team(team_id), Err(TalliiError::NotFound)));
}

#[test]
fn deleting_one_scoreboard_spares_the_others() {
    let mut store = store_with_users(4);
    let first = store.create_scoreboard_with_teams(&roster_payload(), 1, NOW).unwrap();
    let second = store.create_scoreboard_with_teams(&roster_payload(), 2, NOW).unwrap();
    store.delete_scoreboard(&claims_for(1), first).unwrap();
    assert!(store.get_scoreboard(second).is_ok());
    assert_eq!(store.teams_of_scoreboard(second).len(), 2);
    assert_eq!(store.get_teams().len(), 2);
}

#[test]
fn update_of_a_missing_team_is_not_found() {
    let mut store = store_with_users(1);
    let update = UpdateTeamRequest { name: "ghost".to_owned(), score: 0 };
    assert!(matches!(
        store.update_team(&claims_for(1), 77, &update),
        Err(TalliiError::NotFound)
    ));
}

#[test]
fn listing_includes_a_scoreboard_with_zero_teams() {
    let mut store = store_with_users(1);
    let payload = CreateScoreboardPayload {
        name: "lonely".to_owned(),
        game: "darts".to_owned(),
        teams: vec![],
    };
    let sid = store.create_scoreboard_with_teams(&payload, 1, NOW).unwrap();
    let mine = store.get_user_scoreboards(1).unwrap();
    assert_eq!(mine.len(), 1);
    assert_eq!(mine[0].scoreboard_id, sid);
    assert_eq!(mine[0].name, "lonely");
    // Zero teams: the team list is absent, not an error and not an omission.
    assert!(mine[0].teams.is_none());
}

#[test]
fn listing_groups_teams_by_scoreboard() {
    let mut store = store_with_users(4);
    let with_teams = store.create_scoreboard_with_teams(&roster_payload(), 1, NOW).unwrap();
    let empty = store
        .create_scoreboard_with_teams(
            &CreateScoreboardPayload {
                name: "empty one".to_owned(),
                game: "chess".to_owned(),
                teams: vec![],
            },
            1,
            NOW,
        )
        .unwrap();
    let mine = store.get_user_scoreboards(1).unwrap();
    assert_eq!(mine.len(), 2);
    assert_eq!(mine[0].scoreboard_id, with_teams);
    assert_eq!(mine[0].teams.as_ref().unwrap().len(), 2);
    assert_eq!(mine[1].scoreboard_id, empty);
    assert!(mine[1].teams.is_none());
}

#[test]
fn listing_for_a_missing_user_is_not_found_not_empty() {
    let store = store_with_users(1);
    assert!(matches!(store.get_user_scoreboards(42), Err(TalliiError::NotFound)));
}

#[test]
fn owner_team_listing_spans_scoreboards() {
    let mut store = store_with_users(4);
    let first = store.create_scoreboard_with_teams(&roster_payload(), 1, NOW).unwrap();
    let second = store.create_scoreboard_with_teams(&roster_payload(), 1, NOW).unwrap();
    store.create_scoreboard_with_teams(&roster_payload(), 2, NOW).unwrap();
    let mine = store.teams_of_owner(1);
    assert_eq!(mine.len(), 4);
    assert!(mine.iter().all(|t| t.scoreboard_id == first || t.scoreboard_id == second));
    assert_eq!(store.teams_of_owner(2).len(), 2);
    assert_eq!(store.teams_of_owner(3).len(), 0);
}

#[test]
fn games_crud_round_trip() {
    let mut store = Store::new();
    let created = store
        .create_game(&CreateGamePayload { name: "snooker".to_owned() }, NOW)
        .unwrap();
    assert_eq!(created.name, "snooker");
    let fetched = store.get_game(created.game_id).unwrap();
    assert_eq!(fetched.name, "snooker");
    assert_eq!(store.get_games().len(), 1);
    assert!(matches!(store.get_game(99), Err(TalliiError::NotFound)));
}

#[test]
fn profile_fetch_strips_password_material() {
    let store = store_with_users(1);
    let me = store.get_me(1).unwrap();
    assert_eq!(me.user_id, 1);
    assert_eq!(me.username, "user1");
    assert_eq!(me.email, "u1@example.com");
}

#[test]
fn profile_update_replaces_name_and_avatar() {
    let mut store = store_with_users(1);
    let username = "renamed".to_owned();
    let background = "teal".to_owned();
    let emoji = "rocket".to_owned();
    let updated = store.update_user(1, &username, &background, &emoji).unwrap();
    assert_eq!(updated.username, "renamed");
    assert_eq!(updated.avatar_background, "teal");
    assert_eq!(updated.avatar_emoji, "rocket");
    assert_eq!(updated.email, "u1@example.com");
    assert_eq!(store.get_me(1).unwrap().username, "renamed");
    assert!(matches!(
        store.update_user(9, &username, &background, &emoji),
        Err(TalliiError::NotFound)
    ));
}

#[test]
fn own_profile_update_answers_with_the_new_profile() {
    let mut store = store_with_users(1);
    let payload = UpdateMeRequestPayload {
        username: "fresh".to_owned(),
        avatar_background: "plum".to_owned(),
        avatar_emoji: "trophy".to_owned(),
    };
    let me = store.update_me(1, &payload).unwrap();
    assert_eq!(me.username, "fresh");
    assert_eq!(me.avatar_background, "plum");
    assert_eq!(me.avatar_emoji, "trophy");
    assert_eq!(me.email, "u1@example.com");
    assert!(matches!(store.update_me(8, &payload), Err(TalliiError::NotFound)));
}

#[test]
fn error_codes_and_statuses_are_stable() {
    let cases = [
        (TalliiError::DatabaseError("boom".to_owned()), 500, "DATABASE_ERROR", "boom"),
        (
            TalliiError::InternalServerError("oops".to_owned()),
            500,
            "INTERNAL_SERVER_ERROR",
            "oops",
        ),
        (
            TalliiError::Unauthorized,
            401,
            "UNAUTHORIZED",
            "the provided credentials are invalid.",
        ),
        (TalliiError::Forbidden, 403, "FORBIDDEN", "not allowed to perform this action."),
        (
            TalliiError::UserEmailTaken,
            401,
            "USER_EMAIL_TAKEN",
            "the provided email has been taken.",
        ),
        (TalliiError::MissingBearerToken, 401, "UNAUTHORIZED", "missing bearer token."),
        (TalliiError::InvalidToken, 401, "UNAUTHORIZED", "the provided token is invalid."),
        (TalliiError::ValidationError("bad".to_owned()), 400, "VALIDATION_ERROR", "bad"),
        (TalliiError::NotFound, 404, "NOT_FOUND", "Not Found"),
        (
            TalliiError::ConfigurationError,
            500,
            "CONFIGURATION_ERROR",
            "the signing secret is not configured.",
        ),
    ];
    for (err, status, code, message) in cases {
        let (s, body) = error_to_response(&err);
        assert_eq!(s, status);
        assert_eq!(body.code, code);
        assert_eq!(body.message, message);
    }
}
