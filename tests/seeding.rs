use std::collections::HashMap;

use pickem::models::{SqlValue, Table};
use pickem::seed::{seed_order, GAMES_CSV, MATCHUPS_CSV, PICKS_CSV, PLAYERS_CSV, TEAMS_CSV};

fn key_len(t: Table) -> usize {
    match t {
        Table::Player | Table::Team => 1,
        Table::Game | Table::Matchup => 2,
        Table::Pick => 3,
    }
}

fn apply(t: Table, db: &mut HashMap<Vec<SqlValue>, Vec<SqlValue>>, rows: &[Vec<SqlValue>]) {
    for r in rows {
        db.insert(r[..key_len(t)].to_vec(), r.clone());
    }
}

const PICKS: &str = "player_name,week,game_number,winning_team,confidence,method,submission_time_utc,grace_indicator\nalice,1,1,Chiefs,16,manual,t1,0\nbob,1,1,Ravens,3,random,t2,1\nalice,1,2,Eagles,9,manual,t3,1\n";

#[test]
fn header_only_players_file_gives_no_rows() {
    assert!(Table::Player.batch("name\n").is_empty());
    assert!(Table::Player.batch("name").is_empty());
}

#[test]
fn seeding_order_is_fixed() {
    assert_eq!(
        seed_order(),
        vec![Table::Player, Table::Team, Table::Game, Table::Matchup, Table::Pick]
    );
}

#[test]
fn csv_paths() {
    assert_eq!(Table::Player.csv_path(), PLAYERS_CSV);
    assert_eq!(Table::Player.csv_path(), "./data/players.csv");
    assert_eq!(Table::Team.csv_path(), TEAMS_CSV);
    assert_eq!(Table::Game.csv_path(), GAMES_CSV);
    assert_eq!(Table::Matchup.csv_path(), MATCHUPS_CSV);
    assert_eq!(Table::Pick.csv_path(), PICKS_CSV);
    assert_eq!(Table::Pick.csv_path(), "./data/picks.csv");
}

#[test]
fn placeholders_match_bound_values() {
    let batches = [
        (Table::Player, "name\na\n"),
        (Table::Team, "name,abbreviation\nA,AA\n"),
        (Table::Game, "week,game_number,game_time,away_team,home_team,away_score,home_score\n1,1,t,A,B,,\n"),
        (Table::Matchup, "week,game_number,player_1,player_2\n1,1,a,b\n"),
        (Table::Pick, PICKS),
    ];
    for (t, text) in batches {
        let rows = t.batch(text);
        assert!(!rows.is_empty());
        assert_eq!(t.upsert_sql().matches('?').count(), rows[0].len());
        assert!(t.upsert_sql().starts_with("insert or replace into"));
    }
}

#[test]
fn seeding_twice_is_idempotent() {
    let rows = Table::Pick.batch(PICKS);
    let mut once = HashMap::new();
    apply(Table::Pick, &mut once, &rows);
    let mut twice = once.clone();
    apply(Table::Pick, &mut twice, &Table::Pick.batch(PICKS));
    assert_eq!(once, twice);
    assert_eq!(once.len(), 3);
}

#[test]
fn one_row_per_key_latest_wins() {
    let text = "name,abbreviation\nChiefs,KC\nEagles,PHI\nChiefs,KAN\n";
    let rows = Table::Team.batch(text);
    let mut db = HashMap::new();
    apply(Table::Team, &mut db, &rows);
    assert_eq!(db.len(), 2);
    let key = vec![SqlValue::Text("Chiefs".to_string())];
    assert_eq!(db[&key][1], SqlValue::Text("KAN".to_string()));
}

#[test]
fn changed_confidence_overwrites_only_that_pick() {
    let mut db = HashMap::new();
    apply(Table::Pick, &mut db, &Table::Pick.batch(PICKS));
    let before = db.clone();
    let changed = PICKS.replace("Ravens,3,", "Ravens,12,");
    apply(Table::Pick, &mut db, &Table::Pick.batch(&changed));
    assert_eq!(db.len(), before.len());
    let bob = vec![SqlValue::Text("bob".to_string()), SqlValue::Int(1), SqlValue::Int(1)];
    assert_eq!(db[&bob][4], SqlValue::Int(12));
    for (k, v) in &before {
        if *k != bob {
            assert_eq!(&db[k], v);
        }
    }
}

use pickem::run::{Action, Outcome, Phase, SeedRun};

#[test]
fn run_visits_tables_in_order_and_commits_each() {
    let mut run = SeedRun::new();
    let mut commits = Vec::new();
    loop {
        let o = match run.action() {
            Action::Read(_) => Outcome::Loaded(2),
            Action::Commit(t) => {
                commits.push(t);
                Outcome::Succeeded
            }
            Action::Finish => break,
            Action::Abort => panic!("no action failed"),
            _ => Outcome::Succeeded,
        };
        run.advance(o);
    }
    assert_eq!(commits, seed_order());
    assert_eq!(run.phase, Phase::Done);
}

#[test]
fn failed_pick_row_aborts_without_commit() {
    let mut run = SeedRun::new();
    let mut commits = Vec::new();
    let mut steps = 0;
    loop {
        steps += 1;
        assert!(steps < 100);
        let o = match run.action() {
            Action::Read(_) => Outcome::Loaded(3),
            Action::Execute(Table::Pick, 1) => Outcome::Failed,
            Action::Commit(t) => {
                commits.push(t);
                Outcome::Succeeded
            }
            Action::Finish => panic!("the pick batch failed"),
            Action::Abort => break,
            _ => Outcome::Succeeded,
        };
        run.advance(o);
    }
    assert_eq!(commits, vec![Table::Player, Table::Team, Table::Game, Table::Matchup]);
    assert_eq!(run.stage, 4);
    let stopped = run;
    run.advance(Outcome::Succeeded);
    assert_eq!(run, stopped);
    assert_eq!(run.action(), Action::Abort);
}

#[test]
fn empty_batch_commits_without_statements() {
    let mut run = SeedRun::new();
    run.advance(Outcome::Loaded(0));
    assert_eq!(run.action(), Action::Begin(Table::Player));
    run.advance(Outcome::Succeeded);
    assert_eq!(run.action(), Action::Commit(Table::Player));
    run.advance(Outcome::Succeeded);
    assert_eq!(run.action(), Action::Read(Table::Team));
}

#[test]
fn unreadable_file_aborts_before_begin() {
    let mut run = SeedRun::new();
    run.advance(Outcome::Failed);
    assert_eq!(run.action(), Action::Abort);
    assert_eq!(run.stage, 0);
}
