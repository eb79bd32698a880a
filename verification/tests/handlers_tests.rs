use score_gateway::error::JwtError;
use score_gateway::error::ServerError;
use score_gateway::handlers::LoginRequest;
use score_gateway::handlers::db_health_label;
use score_gateway::handlers::login;
use score_gateway::handlers::validate_user;
use score_gateway::scores::PlayerScore;
use score_gateway::scores::check_if_record_worthy;
use score_gateway::scores::is_sorted_descending;
use score_gateway::token::verify;

/// Every caller resolves to the default identity for now.
#[test]
fn validate_user_returns_default_identity() {
    let user = validate_user("anyone", "anything").expect("validation must succeed");
    assert_eq!(user.id, "default");
}

/// A login issues a token that verifies under the same secret and carries
/// the default identity and role.
#[test]
fn login_issues_verifiable_token() {
    let secret = "login_secret";
    let now: u64 = 1_700_000_000;
    let credentials = LoginRequest { username: "u".to_string(), password: "p".to_string() };

    let response = login(&credentials, secret, now).expect("login must succeed");
    let claims = verify(&response.token, secret, 60, now).expect("issued token must verify");
    assert_eq!(claims.sub, "default");
    assert_eq!(claims.role, "default");
    assert_eq!(claims.exp, now + 3600);
}

#[test]
fn health_labels() {
    assert_eq!(db_health_label(true), "OK");
    assert_eq!(db_health_label(false), "DOWN");
}

/// Each error kind carries its HTTP status and description.
#[test]
fn error_statuses_and_descriptions() {
    assert_eq!(ServerError::Validation("v".to_string()).status_code(), 400);
    assert_eq!(ServerError::Database("d".to_string()).status_code(), 500);
    assert_eq!(ServerError::Authentication("a".to_string()).status_code(), 401);
    assert_eq!(
        ServerError::Validation("bad field".to_string()).describe(),
        "Validation error: bad field"
    );
    assert_eq!(
        ServerError::Database("no pool".to_string()).describe(),
        "Database error: no pool"
    );
    assert_eq!(
        ServerError::Authentication("who?".to_string()).describe(),
        "Authentication error: who?"
    );

    assert_eq!(JwtError::MissingAuthHeader.status_code(), 401);
    assert_eq!(JwtError::InvalidTokenFormat.status_code(), 400);
    assert_eq!(JwtError::DecodeError.status_code(), 401);
    assert_eq!(JwtError::EncodingError.status_code(), 401);
    assert_eq!(JwtError::MissingAuthHeader.describe(), "Auth header is missing");
    assert_eq!(
        JwtError::InvalidTokenFormat.describe(),
        "Invalid token format. Expected: Bearer <token>"
    );
    assert_eq!(JwtError::DecodeError.describe(), "Invalid or expired token");
}

/// The record validation bounds: name three to twenty characters, score
/// between zero and one million.
#[test]
fn player_score_validation_bounds() {
    let ok = |name: &str, score: i32| PlayerScore {
        player_name: name.to_string(),
        player_score: score,
    };
    assert!(ok("Max", 0).validate());
    assert!(ok("Max", 1_000_000).validate());
    assert!(ok("MaximillianTheeighth", 10).validate());
    assert!(!ok("Mo", 10).validate(), "two characters are too few");
    assert!(!ok("MaximillianTheSeventh", 10).validate(), "twenty-one characters are too many");
    assert!(!ok("Max", -1).validate());
    assert!(!ok("Max", 1_000_001).validate());
}

/// The sortedness test the store's boards are held to before the
/// worthiness rule runs.
#[test]
fn sortedness_check() {
    let player = |score: i32| PlayerScore { player_name: "Max".to_string(), player_score: score };
    let empty: Vec<PlayerScore> = vec![];
    assert!(is_sorted_descending(&empty));
    let sorted: Vec<PlayerScore> = vec![player(5), player(5), player(3)];
    assert!(is_sorted_descending(&sorted));
    let unsorted: Vec<PlayerScore> = vec![player(3), player(5), player(1)];
    assert!(!is_sorted_descending(&unsorted));
}

/// The validation message names exactly the failing fields.
#[test]
fn validation_messages_name_failing_fields() {
    let record = |name: &str, score: i32| PlayerScore {
        player_name: name.to_string(),
        player_score: score,
    };
    assert_eq!(record("Max", 10).validation_message(), None);
    assert_eq!(
        record("Mo", 10).validation_message(),
        Some("player_name: length must be in 3..=20".to_string())
    );
    assert_eq!(
        record("Max", -1).validation_message(),
        Some("player_score: must be in 0..=1000000".to_string())
    );
    assert_eq!(
        record("Mo", 1_000_001).validation_message(),
        Some(
            "player_name: length must be in 3..=20; player_score: must be in 0..=1000000"
                .to_string()
        )
    );
}

/// The worthiness rule against an empty and a populated board, as the
/// store would hand it back (best first).
#[test]
fn record_worthiness_thresholds() {
    let player = |score: i32| PlayerScore { player_name: "Max".to_string(), player_score: score };
    let empty: Vec<PlayerScore> = vec![];
    assert!(!check_if_record_worthy(&empty, &player(0)), "zero never enters an empty board");
    assert!(check_if_record_worthy(&empty, &player(1)));

    // Scores ten down to one: the board is full, the lowest of the top ten is 1.
    let board: Vec<PlayerScore> = (1..11).rev().map(player).collect();
    assert!(!check_if_record_worthy(&board, &player(0)));
    assert!(check_if_record_worthy(&board, &player(1)));
    assert!(check_if_record_worthy(&board, &player(10)));
    assert!(check_if_record_worthy(&board, &player(11)));

    // With more than ten entries only the top ten set the threshold.
    let long_board: Vec<PlayerScore> = (1..15).rev().map(player).collect();
    assert!(!check_if_record_worthy(&long_board, &player(4)));
    assert!(check_if_record_worthy(&long_board, &player(5)));
}
