//! Core logic of a multi-tenant scoreboard service: session-token issuing
//! and verification, bearer-token extraction, ownership-gated mutation, and
//! the atomic scoreboard/team/player aggregate with its read assemblers.

mod account;
mod auth;
mod config;
mod errors;
mod records;
mod store;
mod token;

pub use account::LoginPayload;
pub use account::LoginResponse;
pub use account::SignupPayload;
pub use account::email_valid;
pub use account::hashed_password;
pub use account::login;
pub use account::login_payload_valid;
pub use account::password_matches;
pub use account::passwordless_login;
pub use account::signup;
pub use account::signup_payload_valid;
pub use account::signup_user;
pub use auth::authenticate;
pub use auth::can_mutate;
pub use auth::extract_token;
pub use auth::introspect;
pub use auth::spec_token_in;
pub use auth::trimmed;
pub use config::Config;
pub use errors::ErrorResponse;
pub use records::CreateGamePayload;
pub use records::CreateScoreboardPayload;
pub use records::CreateTeamPayload;
pub use records::Game;
pub use records::Player;
pub use records::PlayerRow;
pub use records::Scoreboard;
pub use records::ScoreboardResponse;
pub use records::TeamResponse;
pub use records::TeamRow;
pub use records::UpdateMeRequestPayload;
pub use records::UpdateTeamRequest;
pub use records::User;
pub use records::UserResponse;
pub use records::assemble_scoreboard_response;
pub use records::assemble_team_response;
pub use records::user_response;
pub use records::user_response_of;
pub use records::users_view;
pub use records::scoreboards_view;
pub use records::teams_view;
pub use records::players_view;
pub use records::games_view;
pub use records::player_rows_view;
pub use records::player_ids_view;
pub use records::team_payloads_view;
pub use records::scoreboard_response_of;
pub use records::team_response_of;
pub use records::player_row_of;
pub use errors::TalliiError;
pub use errors::error_to_response;
pub use store::Store;
pub use store::StoreV;
pub use store::all_players_exist;
pub use store::group_of;
pub use store::join_player;
pub use store::lemma_read_after_write;
pub use store::joined_players;
pub use store::planned_players;
pub use store::planned_players_of_team;
pub use store::planned_scoreboard;
pub use store::planned_team;
pub use store::planned_teams;
pub use store::player_count;
pub use store::player_in_team;
pub use store::player_survives;
pub use store::profile_updated;
pub use store::scoreboard_owned_by;
pub use store::scoreboard_survives;
pub use store::team_in_scoreboard;
pub use store::team_linked;
pub use store::team_owned_by;
pub use store::team_survives;
pub use store::team_updated;
pub use store::has_game;
pub use store::has_scoreboard;
pub use store::has_team;
pub use store::has_user;
pub use store::has_user_email;
pub use store::scoreboard_by_id;
pub use store::team_by_id;
pub use store::team_owner;
pub use store::user_by_id;
pub use store::wf;
pub use token::Claims;
pub use token::TokenCodec;
pub use token::TokenResponse;
pub use token::TOKEN_LIFETIME_SECONDS;
pub use token::spec_claims_of;
pub use token::well_signed;
