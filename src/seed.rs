//! The seeding pipeline: CSV text to the rows of one table's batch, and the
//! insert-or-replace store model that a batch is applied to.
use crate::csvtext::{csv_header, csv_header_of, csv_records, csv_records_of};
use crate::decode::{decode_as, result_view, DecodeError, Fault, Record};
use crate::models::{cells, Cell, Game, Matchup, Pick, Player, SqlValue, Table, Team};
use vstd::prelude::*;

verus! {

/// How one CSV record decodes as a row of table `t`: unreadable where the
/// header or the record could not be split into fields.
pub open spec fn decode_row(t: Table, header: Option<Seq<Seq<char>>>, rec: Option<Seq<Seq<char>>>) -> Result<Seq<Cell>, Fault> {
    match (header, rec) {
        (Some(h), Some(f)) => decode_as(t, h, f),
        _ => Err(Fault::Unreadable),
    }
}

/// How each data record of a CSV text decodes as a row of table `t`, in order.
pub open spec fn decoded_rows(t: Table, text: Seq<char>) -> Seq<Result<Seq<Cell>, Fault>> {
    csv_records_of(text).map(|_i: int, rec: Option<Seq<Seq<char>>>| decode_row(t, csv_header_of(text), rec))
}

/// The decoded rows in order, with the records that failed to decode dropped.
pub open spec fn kept(rows: Seq<Result<Seq<Cell>, Fault>>) -> Seq<Seq<Cell>>
    decreases rows.len(),
{
    if rows.len() == 0 {
        Seq::empty()
    } else {
        let prev = kept(rows.drop_last());
        match rows.last() {
            Ok(c) => prev.push(c),
            Err(_) => prev,
        }
    }
}

/// Decodes every data record of a CSV text as a record of type `R`, in order.
pub fn read_records<R: Record>(text: &str) -> (r: Vec<Result<R, DecodeError>>)
    ensures
        r@.len() == decoded_rows(R::table(), text@).len(),
        forall|i: int| 0 <= i < r@.len() ==> result_view(#[trigger] r@[i]) == decoded_rows(R::table(), text@)[i],
{
    let header = csv_header(text);
    let records = csv_records(text);
    let ghost want = decoded_rows(R::table(), text@);
    let mut out: Vec<Result<R, DecodeError>> = Vec::new();
    let mut i: usize = 0;
    while i < records.len()
        invariant
            i <= records@.len(),
            records.deep_view() == csv_records_of(text@),
            header.deep_view() == csv_header_of(text@),
            want == decoded_rows(R::table(), text@),
            want.len() == records@.len(),
            out@.len() == i,
            forall|j: int| 0 <= j < i ==> result_view(#[trigger] out@[j]) == want[j],
        decreases records@.len() - i,
    {
        let row = match (&header, &records[i]) {
            (Some(h), Some(f)) => R::from_record(h, f),
            _ => Err(DecodeError::Unreadable),
        };
        assert(records.deep_view()[i as int] == records@[i as int].deep_view());
        out.push(row);
        i = i + 1;
    }
    out
}

/// Decodes the records of a players CSV text.
pub fn read_players(text: &str) -> (r: Vec<Result<Player, DecodeError>>)
    ensures
        r@.len() == decoded_rows(Table::Player, text@).len(),
        forall|i: int| 0 <= i < r@.len() ==> result_view(#[trigger] r@[i]) == decoded_rows(Table::Player, text@)[i],
{
    read_records::<Player>(text)
}

/// Decodes the records of a teams CSV text.
pub fn read_teams(text: &str) -> (r: Vec<Result<Team, DecodeError>>)
    ensures
        r@.len() == decoded_rows(Table::Team, text@).len(),
        forall|i: int| 0 <= i < r@.len() ==> result_view(#[trigger] r@[i]) == decoded_rows(Table::Team, text@)[i],
{
    read_records::<Team>(text)
}

/// Decodes the records of a games CSV text.
pub fn read_games(text: &str) -> (r: Vec<Result<Game, DecodeError>>)
    ensures
        r@.len() == decoded_rows(Table::Game, text@).len(),
        forall|i: int| 0 <= i < r@.len() ==> result_view(#[trigger] r@[i]) == decoded_rows(Table::Game, text@)[i],
{
    read_records::<Game>(text)
}

/// Decodes the records of a matchups CSV text.
pub fn read_matchups(text: &str) -> (r: Vec<Result<Matchup, DecodeError>>)
    ensures
        r@.len() == decoded_rows(Table::Matchup, text@).len(),
        forall|i: int| 0 <= i < r@.len() ==> result_view(#[trigger] r@[i]) == decoded_rows(Table::Matchup, text@)[i],
{
    read_records::<Matchup>(text)
}

/// Decodes the records of a picks CSV text.
pub fn read_picks(text: &str) -> (r: Vec<Result<Pick, DecodeError>>)
    ensures
        r@.len() == decoded_rows(Table::Pick, text@).len(),
        forall|i: int| 0 <= i < r@.len() ==> result_view(#[trigger] r@[i]) == decoded_rows(Table::Pick, text@)[i],
{
    read_records::<Pick>(text)
}

/// The cells of each row of bound values.
pub open spec fn rows_cells(v: Seq<Vec<SqlValue>>) -> Seq<Seq<Cell>> {
    v.map_values(|p: Vec<SqlValue>| cells(p@))
}

/// The rows of one table's batch: the bound values of each record of the CSV
/// text that decodes, in order; records that fail to decode are skipped.
pub fn batch_rows<R: Record>(text: &str) -> (r: Vec<Vec<SqlValue>>)
    ensures
        rows_cells(r@) == kept(decoded_rows(R::table(), text@)),
{
    let decoded = read_records::<R>(text);
    let ghost want = decoded_rows(R::table(), text@);
    let mut out: Vec<Vec<SqlValue>> = Vec::new();
    let mut i: usize = 0;
    while i < decoded.len()
        invariant
            i <= decoded@.len(),
            want == decoded_rows(R::table(), text@),
            decoded@.len() == want.len(),
            forall|j: int| 0 <= j < decoded@.len() ==> result_view(#[trigger] decoded@[j]) == want[j],
            rows_cells(out@) == kept(want.subrange(0, i as int)),
        decreases decoded@.len() - i,
    {
        let ghost before = out@;
        assert(want.subrange(0, i + 1).drop_last() =~= want.subrange(0, i as int));
        assert(result_view(decoded@[i as int]) == want[i as int]);
        match &decoded[i] {
            Ok(rec) => {
                let p = rec.params();
                out.push(p);
                assert(rows_cells(out@) =~= rows_cells(before).push(cells(p@)));
            },
            Err(_) => {},
        }
        i = i + 1;
    }
    assert(want.subrange(0, i as int) =~= want);
    out
}

/// The tables in the order in which they are seeded, so that every foreign
/// key names a row of a table seeded before it.
pub open spec fn seed_order_spec() -> Seq<Table> {
    seq![Table::Player, Table::Team, Table::Game, Table::Matchup, Table::Pick]
}

/// The tables in seeding order: players and teams, then games, matchups, picks.
pub fn seed_order() -> (r: Vec<Table>)
    ensures
        r@ == seed_order_spec(),
{
    let r = vec![Table::Player, Table::Team, Table::Game, Table::Matchup, Table::Pick];
    assert(r@ =~= seed_order_spec());
    r
}

pub const PLAYERS_CSV: &'static str = "./data/players.csv";

pub const TEAMS_CSV: &'static str = "./data/teams.csv";

pub const GAMES_CSV: &'static str = "./data/games.csv";

pub const MATCHUPS_CSV: &'static str = "./data/matchups.csv";

pub const PICKS_CSV: &'static str = "./data/picks.csv";

pub const UPSERT_PLAYER: &'static str = "insert or replace into player (name) values (?);";

pub const UPSERT_TEAM: &'static str = "insert or replace into team (name, abbreviation) values (?, ?);";

pub const UPSERT_GAME: &'static str = "insert or replace into game (week, game_number, game_time, away_team, home_team, away_score, home_score) values (?, ?, ?, ?, ?, ?, ?);";

pub const UPSERT_MATCHUP: &'static str = "insert or replace into matchup (week, game_number, player_1, player_2) values (?, ?, ?, ?);";

pub const UPSERT_PICK: &'static str = "insert or replace into pick (player_name, week, game_number, winning_team, confidence, method, submission_time_utc, grace_indicator) values (?, ?, ?, ?, ?, ?, ?, ?);";

/// The schema: five tables, foreign keys to the rows that each refers to.
pub const SCHEMA: &'static str = "create table if not exists player (name text primary key not null); create table if not exists team (name text primary key not null, abbreviation text not null); create table if not exists game (week integer not null, game_number integer not null, game_time text not null, away_team text not null references team (name), home_team text not null references team (name), away_score integer, home_score integer, primary key (week, game_number)); create table if not exists matchup (week integer not null, game_number integer not null, player_1 text not null references player (name), player_2 text not null references player (name), primary key (week, game_number), foreign key (week, game_number) references game (week, game_number)); create table if not exists pick (player_name text not null references player (name), week integer not null, game_number integer not null, winning_team text not null references team (name), confidence integer not null, method text not null, submission_time_utc text not null, grace_indicator boolean not null, primary key (player_name, week, game_number), foreign key (week, game_number) references game (week, game_number));";

pub open spec fn csv_path_of(t: Table) -> &'static str {
    match t {
        Table::Player => PLAYERS_CSV,
        Table::Team => TEAMS_CSV,
        Table::Game => GAMES_CSV,
        Table::Matchup => MATCHUPS_CSV,
        Table::Pick => PICKS_CSV,
    }
}

pub open spec fn upsert_sql_of(t: Table) -> &'static str {
    match t {
        Table::Player => UPSERT_PLAYER,
        Table::Team => UPSERT_TEAM,
        Table::Game => UPSERT_GAME,
        Table::Matchup => UPSERT_MATCHUP,
        Table::Pick => UPSERT_PICK,
    }
}

impl Table {
    /// The relative path of the CSV file that this table is seeded from.
    pub fn csv_path(&self) -> (r: &'static str)
        ensures
            r == csv_path_of(*self),
    {
        match self {
            Table::Player => PLAYERS_CSV,
            Table::Team => TEAMS_CSV,
            Table::Game => GAMES_CSV,
            Table::Matchup => MATCHUPS_CSV,
            Table::Pick => PICKS_CSV,
        }
    }

    /// The insert-or-replace statement of this table, one `?` per column in
    /// the order of a record's bound values.
    pub fn upsert_sql(&self) -> (r: &'static str)
        ensures
            r == upsert_sql_of(*self),
    {
        match self {
            Table::Player => UPSERT_PLAYER,
            Table::Team => UPSERT_TEAM,
            Table::Game => UPSERT_GAME,
            Table::Matchup => UPSERT_MATCHUP,
            Table::Pick => UPSERT_PICK,
        }
    }

    /// The rows of this table's batch from the text of its CSV file.
    pub fn batch(&self, text: &str) -> (r: Vec<Vec<SqlValue>>)
        ensures
            rows_cells(r@) == kept(decoded_rows(*self, text@)),
    {
        match self {
            Table::Player => batch_rows::<Player>(text),
            Table::Team => batch_rows::<Team>(text),
            Table::Game => batch_rows::<Game>(text),
            Table::Matchup => batch_rows::<Matchup>(text),
            Table::Pick => batch_rows::<Pick>(text),
        }
    }
}

} // verus!
