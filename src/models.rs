//! Typed records of the pool and the column values they are stored as.
use vstd::prelude::*;

verus! {

/// The value of one column in a stored row, as the contracts see it.
pub enum Cell {
    Text(Seq<char>),
    Int(int),
    Flag(bool),
    Null,
}

/// A value bound to one column of an insert statement.
#[derive(Debug, Clone, PartialEq, Eq, Hash)]
pub enum SqlValue {
    Text(String),
    Int(u8),
    Bool(bool),
    Null,
}

impl View for SqlValue {
    type V = Cell;

    open spec fn view(&self) -> Cell {
        match self {
            SqlValue::Text(s) => Cell::Text(s@),
            SqlValue::Int(n) => Cell::Int(*n as int),
            SqlValue::Bool(b) => Cell::Flag(*b),
            SqlValue::Null => Cell::Null,
        }
    }
}

/// The cells of a row of bound values.
pub open spec fn cells(v: Seq<SqlValue>) -> Seq<Cell> {
    v.map_values(|x: SqlValue| x@)
}

pub open spec fn text_cell(s: String) -> Cell {
    Cell::Text(s@)
}

pub open spec fn int_cell(n: u8) -> Cell {
    Cell::Int(n as int)
}

/// An absent score is stored as NULL, never as zero.
pub open spec fn opt_cell(n: Option<u8>) -> Cell {
    match n {
        Some(v) => Cell::Int(v as int),
        None => Cell::Null,
    }
}

pub(crate) fn text_param(s: &String) -> (r: SqlValue)
    ensures
        r@ == text_cell(*s),
{
    SqlValue::Text(s.clone())
}

pub(crate) fn opt_param(n: Option<u8>) -> (r: SqlValue)
    ensures
        r@ == opt_cell(n),
{
    match n {
        Some(v) => SqlValue::Int(v),
        None => SqlValue::Null,
    }
}

/// The five tables, in the order in which they are seeded.
#[derive(Debug, Clone, Copy, PartialEq, Eq)]
pub enum Table {
    Player,
    Team,
    Game,
    Matchup,
    Pick,
}

/// A participant of the pool, keyed by name.
#[derive(Debug, Clone)]
pub struct Player {
    pub name: String,
}

/// A team, keyed by name.
#[derive(Debug, Clone)]
pub struct Team {
    pub name: String,
    pub abbreviation: String,
}

/// A game of a week, keyed by `(week, game_number)`; a score is absent until played.
#[derive(Debug, Clone)]
pub struct Game {
    pub week: u8,
    pub game_number: u8,
    pub game_time: String,
    pub away_team: String,
    pub home_team: String,
    pub away_score: Option<u8>,
    pub home_score: Option<u8>,
}

/// The two players facing off over one game, keyed by `(week, game_number)`.
#[derive(Debug, Clone)]
pub struct Matchup {
    pub week: u8,
    pub game_number: u8,
    pub player_1: String,
    pub player_2: String,
}

/// A player's pick for one game, keyed by `(player_name, week, game_number)`.
#[derive(Debug, Clone)]
pub struct Pick {
    pub player_name: String,
    pub week: u8,
    pub game_number: u8,
    pub winning_team: String,
    pub confidence: u8,
    pub method: String,
    pub submission_time_utc: String,
    pub grace_indicator: bool,
}

impl View for Player {
    type V = Seq<Cell>;

    open spec fn view(&self) -> Seq<Cell> {
        seq![text_cell(self.name)]
    }
}

impl View for Team {
    type V = Seq<Cell>;

    open spec fn view(&self) -> Seq<Cell> {
        seq![text_cell(self.name), text_cell(self.abbreviation)]
    }
}

impl View for Game {
    type V = Seq<Cell>;

    open spec fn view(&self) -> Seq<Cell> {
        seq![
            int_cell(self.week),
            int_cell(self.game_number),
            text_cell(self.game_time),
            text_cell(self.away_team),
            text_cell(self.home_team),
            opt_cell(self.away_score),
            opt_cell(self.home_score),
        ]
    }
}

impl View for Matchup {
    type V = Seq<Cell>;

    open spec fn view(&self) -> Seq<Cell> {
        seq![
            int_cell(self.week),
            int_cell(self.game_number),
            text_cell(self.player_1),
            text_cell(self.player_2),
        ]
    }
}

impl View for Pick {
    type V = Seq<Cell>;

    open spec fn view(&self) -> Seq<Cell> {
        seq![
            text_cell(self.player_name),
            int_cell(self.week),
            int_cell(self.game_number),
            text_cell(self.winning_team),
            int_cell(self.confidence),
            text_cell(self.method),
            text_cell(self.submission_time_utc),
            Cell::Flag(self.grace_indicator),
        ]
    }
}

} // verus!
