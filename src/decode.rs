//! Decoding of one CSV record, with the header that names its columns, into a
//! typed record.
use crate::models::{cells, int_cell, opt_cell, opt_param, text_param, Cell, Game, Matchup, Pick, Player, SqlValue, Table, Team};
use vstd::prelude::*;

verus! {

/// Why a record failed to decode, as the contracts see it.
pub enum Fault {
    MissingField(Seq<char>),
    DuplicateField(Seq<char>),
    InvalidInteger(Seq<char>),
    InvalidGraceIndicator(Seq<char>),
    Unreadable,
}

/// Why a record failed to decode.
#[derive(Debug, Clone, PartialEq)]
pub enum DecodeError {
    /// No column of the header has this field's name.
    MissingField(String),
    /// Two columns of the header have this field's name.
    DuplicateField(String),
    /// This field's text is not a `u8`.
    InvalidInteger(String),
    /// A grace indicator other than "0" or "1"; holds the offending token.
    InvalidGraceIndicator(String),
    /// The CSV reader could not split the record (or its header) into fields.
    Unreadable,
}

impl View for DecodeError {
    type V = Fault;

    open spec fn view(&self) -> Fault {
        match self {
            DecodeError::MissingField(s) => Fault::MissingField(s@),
            DecodeError::DuplicateField(s) => Fault::DuplicateField(s@),
            DecodeError::InvalidInteger(s) => Fault::InvalidInteger(s@),
            DecodeError::InvalidGraceIndicator(s) => Fault::InvalidGraceIndicator(s@),
            DecodeError::Unreadable => Fault::Unreadable,
        }
    }
}

pub open spec fn result_view<T: View>(r: Result<T, DecodeError>) -> Result<T::V, Fault> {
    match r {
        Ok(v) => Ok(v@),
        Err(e) => Err(e@),
    }
}

/// What the header says of one field name.
pub enum Column {
    Absent,
    Found(Seq<char>),
    Duplicate,
}

/// The column named `name` among the first `k` columns of header `h` and record `f`.
pub open spec fn lookup_upto(h: Seq<Seq<char>>, f: Seq<Seq<char>>, name: Seq<char>, k: int) -> Column
    decreases k,
{
    if k <= 0 {
        Column::Absent
    } else {
        let prev = lookup_upto(h, f, name, k - 1);
        if h[k - 1] == name {
            match prev {
                Column::Absent => Column::Found(f[k - 1]),
                _ => Column::Duplicate,
            }
        } else {
            prev
        }
    }
}

/// The column named `name`, over the columns that both header and record have.
pub open spec fn lookup(h: Seq<Seq<char>>, f: Seq<Seq<char>>, name: Seq<char>) -> Column {
    lookup_upto(h, f, name, if h.len() < f.len() { h.len() as int } else { f.len() as int })
}

proof fn lemma_duplicate_stays(h: Seq<Seq<char>>, f: Seq<Seq<char>>, name: Seq<char>, k: int, m: int)
    requires
        0 <= k <= m,
        lookup_upto(h, f, name, k) is Duplicate,
    ensures
        lookup_upto(h, f, name, m) is Duplicate,
    decreases m - k,
{
    if k < m {
        lemma_duplicate_stays(h, f, name, k, m - 1);
    }
}

/// Finds the field called `name`: `Ok(None)` where no column has that name.
fn find_field(h: &Vec<String>, f: &Vec<String>, name: &str) -> (r: Result<Option<String>, DecodeError>)
    ensures
        match lookup(h.deep_view(), f.deep_view(), name@) {
            Column::Absent => r matches Ok(None),
            Column::Found(v) => r matches Ok(Some(s)) && s@ == v,
            Column::Duplicate => r matches Err(e) && e@ == Fault::DuplicateField(name@),
        },
{
    let ghost hv = h.deep_view();
    let ghost fv = f.deep_view();
    let key = String::from_str(name);
    let n: usize = if h.len() < f.len() { h.len() } else { f.len() };
    let mut found: Option<usize> = None;
    let mut i: usize = 0;
    while i < n
        invariant
            i <= n,
            n == (if h@.len() < f@.len() { h@.len() } else { f@.len() }),
            hv == h.deep_view(),
            fv == f.deep_view(),
            key@ == name@,
            match lookup_upto(hv, fv, name@, i as int) {
                Column::Absent => found is None,
                Column::Found(v) => found matches Some(j) && j < i && fv[j as int] == v,
                Column::Duplicate => false,
            },
        decreases n - i,
    {
        if h[i] == key {
            if found.is_some() {
                proof {
                    lemma_duplicate_stays(hv, fv, name@, i + 1, n as int);
                }
                return Err(DecodeError::DuplicateField(key));
            }
            found = Some(i);
        }
        i = i + 1;
    }
    match found {
        Some(j) => Ok(Some(f[j].clone())),
        None => Ok(None),
    }
}

/// The value of a decimal or hexadecimal digit `c`.
pub open spec fn digit_of(c: char, radix: nat) -> Option<nat> {
    let u = c as u32;
    if 48 <= u <= 57 {
        Some((u - 48) as nat)
    } else if radix == 16 && 97 <= u <= 102 {
        Some((u - 87) as nat)
    } else if radix == 16 && 65 <= u <= 70 {
        Some((u - 55) as nat)
    } else {
        None
    }
}

/// The value of a string of digits, or `None` where one is no digit.
pub open spec fn digits_value(s: Seq<char>, radix: nat) -> Option<nat>
    decreases s.len(),
{
    if s.len() == 0 {
        Some(0)
    } else {
        match (digits_value(s.drop_last(), radix), digit_of(s.last(), radix)) {
            (Some(a), Some(d)) => Some(a * radix + d),
            _ => None,
        }
    }
}

/// `u8::from_str_radix`: an optional `+`, then one or more digits, of a value below 256.
pub open spec fn radix_u8(s: Seq<char>, radix: nat) -> Option<u8> {
    let body = if s.len() > 0 && s[0] == '+' { s.drop_first() } else { s };
    if body.len() == 0 {
        None
    } else {
        match digits_value(body, radix) {
            Some(v) => if v < 256 { Some(v as u8) } else { None },
            None => None,
        }
    }
}

/// An integer field as the CSV reader takes it: hexadecimal after `0x`, else decimal.
pub open spec fn field_u8(s: Seq<char>) -> Option<u8> {
    if s.len() >= 2 && s[0] == '0' && s[1] == 'x' {
        radix_u8(s.subrange(2, s.len() as int), 16)
    } else {
        radix_u8(s, 10)
    }
}

proof fn lemma_prefix_value(b: Seq<char>, radix: nat, i: int, j: int)
    requires
        radix >= 1,
        0 <= i <= j <= b.len(),
        digits_value(b.subrange(0, j), radix) is Some,
    ensures
        digits_value(b.subrange(0, i), radix) is Some,
        digits_value(b.subrange(0, i), radix)->0 <= digits_value(b.subrange(0, j), radix)->0,
    decreases j - i,
{
    if i < j {
        assert(b.subrange(0, j).drop_last() =~= b.subrange(0, j - 1));
        let a = digits_value(b.subrange(0, j - 1), radix)->0;
        let d = digit_of(b.subrange(0, j).last(), radix)->0;
        assert(a * radix + d >= a) by (nonlinear_arith)
            requires
                radix >= 1,
        ;
        lemma_prefix_value(b, radix, i, j - 1);
    }
}

fn digit(c: char, radix: u32) -> (r: Option<u32>)
    requires
        radix == 10 || radix == 16,
    ensures
        match digit_of(c, radix as nat) {
            Some(d) => r == Some(d as u32),
            None => r is None,
        },
{
    let u = c as u32;
    if 48 <= u && u <= 57 {
        Some(u - 48)
    } else if radix == 16 && 97 <= u && u <= 102 {
        Some(u - 87)
    } else if radix == 16 && 65 <= u && u <= 70 {
        Some(u - 55)
    } else {
        None
    }
}

/// Reads `s[start..]` as a `u8` in the given radix.
fn parse_radix(s: &str, start: usize, radix: u32) -> (r: Option<u8>)
    requires
        start <= s@.len(),
        radix == 10 || radix == 16,
    ensures
        r == radix_u8(s@.subrange(start as int, s@.len() as int), radix as nat),
{
    let ghost whole = s@.subrange(start as int, s@.len() as int);
    let len = s.unicode_len();
    let mut i = start;
    if i < len && s.get_char(i) == '+' {
        i = i + 1;
    }
    let first = i;
    let ghost body = s@.subrange(first as int, len as int);
    assert(body =~= (if whole.len() > 0 && whole[0] == '+' { whole.drop_first() } else { whole }));
    if i == len {
        return None;
    }
    let mut acc: u32 = 0;
    assert(body.subrange(0, 0) =~= Seq::<char>::empty());
    while i < len
        invariant
            first <= i <= len,
            len == s@.len(),
            radix == 10 || radix == 16,
            body == s@.subrange(first as int, len as int),
            whole == s@.subrange(start as int, s@.len() as int),
            body == (if whole.len() > 0 && whole[0] == '+' { whole.drop_first() } else { whole }),
            body.len() > 0,
            acc < 256,
            digits_value(body.subrange(0, i - first), radix as nat) == Some(acc as nat),
        decreases len - i,
    {
        let c = s.get_char(i);
        let ghost k = i - first + 1;
        assert(body.subrange(0, k).drop_last() =~= body.subrange(0, k - 1));
        assert(body.subrange(0, k).last() == c);
        match digit(c, radix) {
            None => {
                proof {
                    if digits_value(body, radix as nat) is Some {
                        assert(body.subrange(0, body.len() as int) =~= body);
                        lemma_prefix_value(body, radix as nat, k, body.len() as int);
                    }
                }
                return None;
            },
            Some(d) => {
                acc = acc * radix + d;
                if acc >= 256 {
                    proof {
                        if digits_value(body, radix as nat) is Some {
                            assert(body.subrange(0, body.len() as int) =~= body);
                            lemma_prefix_value(body, radix as nat, k, body.len() as int);
                        }
                    }
                    return None;
                }
            },
        }
        i = i + 1;
    }
    assert(body.subrange(0, i - first) =~= body);
    Some(acc as u8)
}

/// Reads an integer field: `0x` and hexadecimal digits, or decimal digits.
pub fn parse_u8(s: &str) -> (r: Option<u8>)
    ensures
        r == field_u8(s@),
{
    let len = s.unicode_len();
    if len >= 2 && s.get_char(0) == '0' && s.get_char(1) == 'x' {
        parse_radix(s, 2, 16)
    } else {
        let r = parse_radix(s, 0, 10);
        assert(s@.subrange(0, s@.len() as int) =~= s@);
        r
    }
}

/// The stored grace-indicator convention: "0" means true, "1" means false.
pub open spec fn grace_of(v: Seq<char>) -> Result<bool, Fault> {
    if v == seq!['0'] {
        Ok(true)
    } else if v == seq!['1'] {
        Ok(false)
    } else {
        Err(Fault::InvalidGraceIndicator(v))
    }
}

/// Decodes a grace indicator: "0" gives true, "1" gives false, any other
/// token is an invalid value naming that token.
pub fn int_to_bool(s: &str) -> (r: Result<bool, DecodeError>)
    ensures
        result_view(r) == grace_of(s@),
{
    if s.unicode_len() == 1 {
        let c = s.get_char(0);
        if c == '0' {
            assert(s@ =~= seq!['0']);
            return Ok(true);
        }
        if c == '1' {
            assert(s@ =~= seq!['1']);
            return Ok(false);
        }
    }
    Err(DecodeError::InvalidGraceIndicator(String::from_str(s)))
}

/// A text field: the column's text.
pub open spec fn text_field(h: Seq<Seq<char>>, f: Seq<Seq<char>>, name: Seq<char>) -> Result<Seq<char>, Fault> {
    match lookup(h, f, name) {
        Column::Absent => Err(Fault::MissingField(name)),
        Column::Found(v) => Ok(v),
        Column::Duplicate => Err(Fault::DuplicateField(name)),
    }
}

/// An integer field.
pub open spec fn u8_field(h: Seq<Seq<char>>, f: Seq<Seq<char>>, name: Seq<char>) -> Result<u8, Fault> {
    match text_field(h, f, name) {
        Ok(v) => match field_u8(v) {
            Some(n) => Ok(n),
            None => Err(Fault::InvalidInteger(name)),
        },
        Err(e) => Err(e),
    }
}

/// An optional integer field: a missing column or an empty field is absent.
pub open spec fn opt_u8_field(h: Seq<Seq<char>>, f: Seq<Seq<char>>, name: Seq<char>) -> Result<Option<u8>, Fault> {
    match lookup(h, f, name) {
        Column::Absent => Ok(None),
        Column::Duplicate => Err(Fault::DuplicateField(name)),
        Column::Found(v) => if v.len() == 0 {
            Ok(None)
        } else {
            match field_u8(v) {
                Some(n) => Ok(Some(n)),
                None => Err(Fault::InvalidInteger(name)),
            }
        },
    }
}

/// A grace-indicator field.
pub open spec fn grace_field(h: Seq<Seq<char>>, f: Seq<Seq<char>>, name: Seq<char>) -> Result<bool, Fault> {
    match text_field(h, f, name) {
        Ok(v) => grace_of(v),
        Err(e) => Err(e),
    }
}

fn text_value(h: &Vec<String>, f: &Vec<String>, name: &str) -> (r: Result<String, DecodeError>)
    ensures
        result_view(r) == text_field(h.deep_view(), f.deep_view(), name@),
{
    match find_field(h, f, name) {
        Ok(Some(v)) => Ok(v),
        Ok(None) => Err(DecodeError::MissingField(String::from_str(name))),
        Err(e) => Err(e),
    }
}

fn u8_value(h: &Vec<String>, f: &Vec<String>, name: &str) -> (r: Result<u8, DecodeError>)
    ensures
        result_view(r) == u8_field(h.deep_view(), f.deep_view(), name@),
{
    match text_value(h, f, name) {
        Ok(v) => match parse_u8(v.as_str()) {
            Some(n) => Ok(n),
            None => Err(DecodeError::InvalidInteger(String::from_str(name))),
        },
        Err(e) => Err(e),
    }
}

fn opt_u8_value(h: &Vec<String>, f: &Vec<String>, name: &str) -> (r: Result<Option<u8>, DecodeError>)
    ensures
        result_view(r) == opt_u8_field(h.deep_view(), f.deep_view(), name@),
{
    match find_field(h, f, name) {
        Ok(None) => Ok(None),
        Ok(Some(v)) => {
            if v.as_str().unicode_len() == 0 {
                Ok(None)
            } else {
                match parse_u8(v.as_str()) {
                    Some(n) => Ok(Some(n)),
                    None => Err(DecodeError::InvalidInteger(String::from_str(name))),
                }
            }
        },
        Err(e) => Err(e),
    }
}

fn grace_value(h: &Vec<String>, f: &Vec<String>, name: &str) -> (r: Result<bool, DecodeError>)
    ensures
        result_view(r) == grace_field(h.deep_view(), f.deep_view(), name@),
{
    match text_value(h, f, name) {
        Ok(v) => int_to_bool(v.as_str()),
        Err(e) => Err(e),
    }
}

pub open spec fn decode_player(h: Seq<Seq<char>>, f: Seq<Seq<char>>) -> Result<Seq<Cell>, Fault> {
    let name = text_field(h, f, "name"@);
    if name is Err {
        Err(name->Err_0)
    } else {
        Ok(seq![Cell::Text(name->Ok_0)])
    }
}

pub open spec fn decode_team(h: Seq<Seq<char>>, f: Seq<Seq<char>>) -> Result<Seq<Cell>, Fault> {
    let name = text_field(h, f, "name"@);
    let abbreviation = text_field(h, f, "abbreviation"@);
    if name is Err {
        Err(name->Err_0)
    } else if abbreviation is Err {
        Err(abbreviation->Err_0)
    } else {
        Ok(seq![Cell::Text(name->Ok_0), Cell::Text(abbreviation->Ok_0)])
    }
}

pub open spec fn decode_game(h: Seq<Seq<char>>, f: Seq<Seq<char>>) -> Result<Seq<Cell>, Fault> {
    let week = u8_field(h, f, "week"@);
    let game_number = u8_field(h, f, "game_number"@);
    let game_time = text_field(h, f, "game_time"@);
    let away_team = text_field(h, f, "away_team"@);
    let home_team = text_field(h, f, "home_team"@);
    let away_score = opt_u8_field(h, f, "away_score"@);
    let home_score = opt_u8_field(h, f, "home_score"@);
    if week is Err {
        Err(week->Err_0)
    } else if game_number is Err {
        Err(game_number->Err_0)
    } else if game_time is Err {
        Err(game_time->Err_0)
    } else if away_team is Err {
        Err(away_team->Err_0)
    } else if home_team is Err {
        Err(home_team->Err_0)
    } else if away_score is Err {
        Err(away_score->Err_0)
    } else if home_score is Err {
        Err(home_score->Err_0)
    } else {
        Ok(
            seq![
                int_cell(week->Ok_0),
                int_cell(game_number->Ok_0),
                Cell::Text(game_time->Ok_0),
                Cell::Text(away_team->Ok_0),
                Cell::Text(home_team->Ok_0),
                opt_cell(away_score->Ok_0),
                opt_cell(home_score->Ok_0),
            ],
        )
    }
}

pub open spec fn decode_matchup(h: Seq<Seq<char>>, f: Seq<Seq<char>>) -> Result<Seq<Cell>, Fault> {
    let week = u8_field(h, f, "week"@);
    let game_number = u8_field(h, f, "game_number"@);
    let player_1 = text_field(h, f, "player_1"@);
    let player_2 = text_field(h, f, "player_2"@);
    if week is Err {
        Err(week->Err_0)
    } else if game_number is Err {
        Err(game_number->Err_0)
    } else if player_1 is Err {
        Err(player_1->Err_0)
    } else if player_2 is Err {
        Err(player_2->Err_0)
    } else {
        Ok(
            seq![
                int_cell(week->Ok_0),
                int_cell(game_number->Ok_0),
                Cell::Text(player_1->Ok_0),
                Cell::Text(player_2->Ok_0),
            ],
        )
    }
}

pub open spec fn decode_pick(h: Seq<Seq<char>>, f: Seq<Seq<char>>) -> Result<Seq<Cell>, Fault> {
    let player_name = text_field(h, f, "player_name"@);
    let week = u8_field(h, f, "week"@);
    let game_number = u8_field(h, f, "game_number"@);
    let winning_team = text_field(h, f, "winning_team"@);
    let confidence = u8_field(h, f, "confidence"@);
    let method = text_field(h, f, "method"@);
    let submission_time_utc = text_field(h, f, "submission_time_utc"@);
    let grace_indicator = grace_field(h, f, "grace_indicator"@);
    if player_name is Err {
        Err(player_name->Err_0)
    } else if week is Err {
        Err(week->Err_0)
    } else if game_number is Err {
        Err(game_number->Err_0)
    } else if winning_team is Err {
        Err(winning_team->Err_0)
    } else if confidence is Err {
        Err(confidence->Err_0)
    } else if method is Err {
        Err(method->Err_0)
    } else if submission_time_utc is Err {
        Err(submission_time_utc->Err_0)
    } else if grace_indicator is Err {
        Err(grace_indicator->Err_0)
    } else {
        Ok(
            seq![
                Cell::Text(player_name->Ok_0),
                int_cell(week->Ok_0),
                int_cell(game_number->Ok_0),
                Cell::Text(winning_team->Ok_0),
                int_cell(confidence->Ok_0),
                Cell::Text(method->Ok_0),
                Cell::Text(submission_time_utc->Ok_0),
                Cell::Flag(grace_indicator->Ok_0),
            ],
        )
    }
}

/// How a record of the given table decodes under the given header.
pub open spec fn decode_as(t: Table, h: Seq<Seq<char>>, f: Seq<Seq<char>>) -> Result<Seq<Cell>, Fault> {
    match t {
        Table::Player => decode_player(h, f),
        Table::Team => decode_team(h, f),
        Table::Game => decode_game(h, f),
        Table::Matchup => decode_matchup(h, f),
        Table::Pick => decode_pick(h, f),
    }
}

/// A typed record that one CSV record decodes into and one table row stores.
pub trait Record: Sized + View<V = Seq<Cell>> {
    /// The table that holds records of this type.
    spec fn table() -> Table;

    /// Decodes one record, its fields named by the header `h`.
    fn from_record(h: &Vec<String>, f: &Vec<String>) -> (r: Result<Self, DecodeError>)
        ensures
            result_view(r) == decode_as(Self::table(), h.deep_view(), f.deep_view()),
    ;

    /// The values bound to the columns of the record's table, in column order.
    fn params(&self) -> (r: Vec<SqlValue>)
        ensures
            cells(r@) == self@,
    ;
}

impl Record for Player {
    open spec fn table() -> Table {
        Table::Player
    }

    fn from_record(h: &Vec<String>, f: &Vec<String>) -> (r: Result<Player, DecodeError>) {
        match text_value(h, f, "name") {
            Ok(name) => {
                let r = Player { name };
                assert(r@ =~= seq![Cell::Text(name@)]);
                Ok(r)
            },
            Err(e) => Err(e),
        }
    }

    fn params(&self) -> (r: Vec<SqlValue>) {
        let r = vec![text_param(&self.name)];
        assert(cells(r@) =~= self@);
        r
    }
}

impl Record for Team {
    open spec fn table() -> Table {
        Table::Team
    }

    fn from_record(h: &Vec<String>, f: &Vec<String>) -> (r: Result<Team, DecodeError>) {
        let name = match text_value(h, f, "name") {
            Ok(v) => v,
            Err(e) => return Err(e),
        };
        let abbreviation = match text_value(h, f, "abbreviation") {
            Ok(v) => v,
            Err(e) => return Err(e),
        };
        let r = Team { name, abbreviation };
        assert(r@ =~= seq![Cell::Text(name@), Cell::Text(abbreviation@)]);
        Ok(r)
    }

    fn params(&self) -> (r: Vec<SqlValue>) {
        let r = vec![text_param(&self.name), text_param(&self.abbreviation)];
        assert(cells(r@) =~= self@);
        r
    }
}

impl Record for Game {
    open spec fn table() -> Table {
        Table::Game
    }

    fn from_record(h: &Vec<String>, f: &Vec<String>) -> (r: Result<Game, DecodeError>) {
        let week = match u8_value(h, f, "week") {
            Ok(v) => v,
            Err(e) => return Err(e),
        };
        let game_number = match u8_value(h, f, "game_number") {
            Ok(v) => v,
            Err(e) => return Err(e),
        };
        let game_time = match text_value(h, f, "game_time") {
            Ok(v) => v,
            Err(e) => return Err(e),
        };
        let away_team = match text_value(h, f, "away_team") {
            Ok(v) => v,
            Err(e) => return Err(e),
        };
        let home_team = match text_value(h, f, "home_team") {
            Ok(v) => v,
            Err(e) => return Err(e),
        };
        let away_score = match opt_u8_value(h, f, "away_score") {
            Ok(v) => v,
            Err(e) => return Err(e),
        };
        let home_score = match opt_u8_value(h, f, "home_score") {
            Ok(v) => v,
            Err(e) => return Err(e),
        };
        let r = Game { week, game_number, game_time, away_team, home_team, away_score, home_score };
        assert(r@ =~= seq![
            int_cell(week),
            int_cell(game_number),
            Cell::Text(game_time@),
            Cell::Text(away_team@),
            Cell::Text(home_team@),
            opt_cell(away_score),
            opt_cell(home_score),
        ]);
        Ok(r)
    }

    fn params(&self) -> (r: Vec<SqlValue>) {
        let r = vec![
            SqlValue::Int(self.week),
            SqlValue::Int(self.game_number),
            text_param(&self.game_time),
            text_param(&self.away_team),
            text_param(&self.home_team),
            opt_param(self.away_score),
            opt_param(self.home_score),
        ];
        assert(cells(r@) =~= self@);
        r
    }
}

impl Record for Matchup {
    open spec fn table() -> Table {
        Table::Matchup
    }

    fn from_record(h: &Vec<String>, f: &Vec<String>) -> (r: Result<Matchup, DecodeError>) {
        let week = match u8_value(h, f, "week") {
            Ok(v) => v,
            Err(e) => return Err(e),
        };
        let game_number = match u8_value(h, f, "game_number") {
            Ok(v) => v,
            Err(e) => return Err(e),
        };
        let player_1 = match text_value(h, f, "player_1") {
            Ok(v) => v,
            Err(e) => return Err(e),
        };
        let player_2 = match text_value(h, f, "player_2") {
            Ok(v) => v,
            Err(e) => return Err(e),
        };
        let r = Matchup { week, game_number, player_1, player_2 };
        assert(r@ =~= seq![
            int_cell(week),
            int_cell(game_number),
            Cell::Text(player_1@),
            Cell::Text(player_2@),
        ]);
        Ok(r)
    }

    fn params(&self) -> (r: Vec<SqlValue>) {
        let r = vec![
            SqlValue::Int(self.week),
            SqlValue::Int(self.game_number),
            text_param(&self.player_1),
            text_param(&self.player_2),
        ];
        assert(cells(r@) =~= self@);
        r
    }
}

impl Record for Pick {
    open spec fn table() -> Table {
        Table::Pick
    }

    fn from_record(h: &Vec<String>, f: &Vec<String>) -> (r: Result<Pick, DecodeError>) {
        let player_name = match text_value(h, f, "player_name") {
            Ok(v) => v,
            Err(e) => return Err(e),
        };
        let week = match u8_value(h, f, "week") {
            Ok(v) => v,
            Err(e) => return Err(e),
        };
        let game_number = match u8_value(h, f, "game_number") {
            Ok(v) => v,
            Err(e) => return Err(e),
        };
        let winning_team = match text_value(h, f, "winning_team") {
            Ok(v) => v,
            Err(e) => return Err(e),
        };
        let confidence = match u8_value(h, f, "confidence") {
            Ok(v) => v,
            Err(e) => return Err(e),
        };
        let method = match text_value(h, f, "method") {
            Ok(v) => v,
            Err(e) => return Err(e),
        };
        let submission_time_utc = match text_value(h, f, "submission_time_utc") {
            Ok(v) => v,
            Err(e) => return Err(e),
        };
        let grace_indicator = match grace_value(h, f, "grace_indicator") {
            Ok(v) => v,
            Err(e) => return Err(e),
        };
        let r = Pick {
            player_name,
            week,
            game_number,
            winning_team,
            confidence,
            method,
            submission_time_utc,
            grace_indicator,
        };
        assert(r@ =~= seq![
            Cell::Text(player_name@),
            int_cell(week),
            int_cell(game_number),
            Cell::Text(winning_team@),
            int_cell(confidence),
            Cell::Text(method@),
            Cell::Text(submission_time_utc@),
            Cell::Flag(grace_indicator),
        ]);
        Ok(r)
    }

    fn params(&self) -> (r: Vec<SqlValue>) {
        let r = vec![
            text_param(&self.player_name),
            SqlValue::Int(self.week),
            SqlValue::Int(self.game_number),
            text_param(&self.winning_team),
            SqlValue::Int(self.confidence),
            text_param(&self.method),
            text_param(&self.submission_time_utc),
            SqlValue::Bool(self.grace_indicator),
        ];
        assert(cells(r@) =~= self@);
        r
    }
}

} // verus!
