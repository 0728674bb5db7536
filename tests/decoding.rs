use pickem::decode::{int_to_bool, parse_u8, DecodeError, Record};
use pickem::models::{Game, Pick, Player, SqlValue, Table};
use pickem::seed::{read_games, read_matchups, read_picks, read_players, read_teams};

fn s(v: &str) -> String {
    v.to_string()
}

#[test]
fn grace_zero_is_true() {
    assert_eq!(int_to_bool("0"), Ok(true));
}

#[test]
fn grace_one_is_false() {
    assert_eq!(int_to_bool("1"), Ok(false));
}

#[test]
fn grace_other_tokens_are_invalid() {
    assert_eq!(int_to_bool("2"), Err(DecodeError::InvalidGraceIndicator(s("2"))));
    assert_eq!(int_to_bool("true"), Err(DecodeError::InvalidGraceIndicator(s("true"))));
    assert_eq!(int_to_bool(""), Err(DecodeError::InvalidGraceIndicator(s(""))));
    assert_eq!(int_to_bool("00"), Err(DecodeError::InvalidGraceIndicator(s("00"))));
}

#[test]
fn integers_decimal_and_hex() {
    assert_eq!(parse_u8("42"), Some(42));
    assert_eq!(parse_u8("0"), Some(0));
    assert_eq!(parse_u8("255"), Some(255));
    assert_eq!(parse_u8("+7"), Some(7));
    assert_eq!(parse_u8("0x1F"), Some(31));
    assert_eq!(parse_u8("0xff"), Some(255));
    assert_eq!(parse_u8("007"), Some(7));
}

#[test]
fn integers_rejected() {
    assert_eq!(parse_u8("256"), None);
    assert_eq!(parse_u8(""), None);
    assert_eq!(parse_u8("+"), None);
    assert_eq!(parse_u8("-1"), None);
    assert_eq!(parse_u8("0x"), None);
    assert_eq!(parse_u8("0x100"), None);
    assert_eq!(parse_u8(" 5"), None);
    assert_eq!(parse_u8("1a"), None);
    assert_eq!(parse_u8("1000"), None);
}

#[test]
fn player_rows_decode() {
    let rows = read_players("name\nalice\nbob\n");
    assert_eq!(rows.len(), 2);
    assert_eq!(rows[0].as_ref().unwrap().name, "alice");
    assert_eq!(rows[1].as_ref().unwrap().name, "bob");
}

#[test]
fn team_rows_decode_by_header_name() {
    let rows = read_teams("abbreviation,name\nKC,Chiefs\n");
    let t = rows[0].as_ref().unwrap();
    assert_eq!(t.name, "Chiefs");
    assert_eq!(t.abbreviation, "KC");
}

#[test]
fn missing_column_fails() {
    let rows = read_teams("name\nChiefs\n");
    assert_eq!(rows.len(), 1);
    assert_eq!(rows[0].as_ref().err(), Some(&DecodeError::MissingField(s("abbreviation"))));
}

#[test]
fn duplicate_column_fails() {
    let rows = read_players("name,name\na,b\n");
    assert_eq!(rows[0].as_ref().err(), Some(&DecodeError::DuplicateField(s("name"))));
}

#[test]
fn bad_integer_fails() {
    let rows = read_matchups("week,game_number,player_1,player_2\nx,1,a,b\n1,1,a,b\n");
    assert_eq!(rows.len(), 2);
    assert_eq!(rows[0].as_ref().err(), Some(&DecodeError::InvalidInteger(s("week"))));
    let m = rows[1].as_ref().unwrap();
    assert_eq!((m.week, m.game_number), (1, 1));
    assert_eq!((m.player_1.as_str(), m.player_2.as_str()), ("a", "b"));
}

#[test]
fn record_with_wrong_field_count_is_unreadable() {
    let rows = read_players("name\nalice,extra\nbob\n");
    assert_eq!(rows.len(), 2);
    assert_eq!(rows[0].as_ref().err(), Some(&DecodeError::Unreadable));
    assert_eq!(rows[1].as_ref().unwrap().name, "bob");
}

const GAMES: &str = "week,game_number,game_time,away_team,home_team,away_score,home_score\n1,1,2024-09-05 20:20,Ravens,Chiefs,20,27\n1,2,2024-09-06 20:15,Packers,Eagles,,\n0x02,3,2024-09-12 20:15,Bills,Dolphins,31,\n";

#[test]
fn blank_scores_are_absent() {
    let rows = read_games(GAMES);
    assert_eq!(rows.len(), 3);
    let g: &Game = rows[1].as_ref().unwrap();
    assert_eq!(g.away_score, None);
    assert_eq!(g.home_score, None);
    let p = g.params();
    assert_eq!(p[5], SqlValue::Null);
    assert_eq!(p[6], SqlValue::Null);
    let played = rows[0].as_ref().unwrap();
    assert_eq!(played.away_score, Some(20));
    assert_eq!(played.home_score, Some(27));
}

#[test]
fn hex_week_and_one_blank_score() {
    let rows = read_games(GAMES);
    let g = rows[2].as_ref().unwrap();
    assert_eq!(g.week, 2);
    assert_eq!(g.away_score, Some(31));
    assert_eq!(g.home_score, None);
}

#[test]
fn score_columns_may_be_left_out() {
    let rows = read_games("week,game_number,game_time,away_team,home_team\n3,4,t,A,B\n");
    let g = rows[0].as_ref().unwrap();
    assert_eq!(g.away_score, None);
    assert_eq!(g.home_score, None);
}

const PICKS: &str = "player_name,week,game_number,winning_team,confidence,method,submission_time_utc,grace_indicator\nalice,1,1,Chiefs,16,manual,2024-09-05T12:00:00Z,0\nbob,1,1,Ravens,3,random,2024-09-05T13:00:00Z,1\ncarol,1,1,Chiefs,5,manual,2024-09-05T14:00:00Z,2\ndave,1,1,Chiefs,7,manual,2024-09-05T15:00:00Z,true\n";

#[test]
fn pick_grace_indicator_rows() {
    let rows = read_picks(PICKS);
    assert_eq!(rows.len(), 4);
    let a: &Pick = rows[0].as_ref().unwrap();
    assert!(a.grace_indicator);
    assert_eq!(a.confidence, 16);
    assert_eq!(a.method, "manual");
    assert!(!rows[1].as_ref().unwrap().grace_indicator);
    assert_eq!(rows[2].as_ref().err(), Some(&DecodeError::InvalidGraceIndicator(s("2"))));
    assert_eq!(rows[3].as_ref().err(), Some(&DecodeError::InvalidGraceIndicator(s("true"))));
}

#[test]
fn invalid_grace_rows_dropped_from_batch() {
    let rows = Table::Pick.batch(PICKS);
    assert_eq!(rows.len(), 2);
    assert_eq!(rows[0][0], SqlValue::Text(s("alice")));
    assert_eq!(rows[0][7], SqlValue::Bool(true));
    assert_eq!(rows[1][0], SqlValue::Text(s("bob")));
    assert_eq!(rows[1][7], SqlValue::Bool(false));
}

#[test]
fn pick_params_in_column_order() {
    let rows = read_picks(PICKS);
    let p = rows[1].as_ref().unwrap().params();
    assert_eq!(
        p,
        vec![
            SqlValue::Text(s("bob")),
            SqlValue::Int(1),
            SqlValue::Int(1),
            SqlValue::Text(s("Ravens")),
            SqlValue::Int(3),
            SqlValue::Text(s("random")),
            SqlValue::Text(s("2024-09-05T13:00:00Z")),
            SqlValue::Bool(false),
        ]
    );
}

#[test]
fn player_params() {
    let p = Player { name: s("alice") };
    assert_eq!(p.params(), vec![SqlValue::Text(s("alice"))]);
}
