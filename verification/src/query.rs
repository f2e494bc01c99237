//! Queries in pieces: runs of SQL text with values bound between them.

use vstd::prelude::*;
use crate::names::{copy_list, texts};
use crate::text::{lower_case, to_lower_case};

verus! {

/// One piece of a query.
#[derive(Debug)]
pub enum SqlPiece {
    /// SQL text.
    Text(&'static str),
    /// A bound identifier.
    Id(u128),
    /// A bound array of identifiers.
    Ids(Vec<u128>),
    /// A bound text.
    Value(String),
    /// A bound array of texts.
    Values(Vec<String>),
    /// A bound truth value.
    Bool(bool),
    /// A bound integer.
    Int(i64),
}

/// What a piece of a query is.
#[verifier::ext_equal]
pub enum Piece {
    Text(Seq<char>),
    Id(u128),
    Ids(Seq<u128>),
    Value(Seq<char>),
    Values(Seq<Seq<char>>),
    Bool(bool),
    Int(i64),
}

impl View for SqlPiece {
    type V = Piece;

    open spec fn view(&self) -> Piece {
        match *self {
            SqlPiece::Text(t) => Piece::Text(t@),
            SqlPiece::Id(id) => Piece::Id(id),
            SqlPiece::Ids(ids) => Piece::Ids(ids@),
            SqlPiece::Value(v) => Piece::Value(v@),
            SqlPiece::Values(vs) => Piece::Values(texts(vs@)),
            SqlPiece::Bool(b) => Piece::Bool(b),
            SqlPiece::Int(n) => Piece::Int(n),
        }
    }
}

/// A query, piece by piece.
#[derive(Debug)]
pub struct SqlQuery {
    pub pieces: Vec<SqlPiece>,
}

impl View for SqlQuery {
    type V = Seq<Piece>;

    open spec fn view(&self) -> Seq<Piece> {
        self.pieces@.map_values(|p: SqlPiece| p@)
    }
}

impl SqlQuery {
    /// A query that begins with a text.
    pub fn new(head: &'static str) -> (r: SqlQuery)
        ensures
            r@ == seq![Piece::Text(head@)],
    {
        let mut pieces: Vec<SqlPiece> = Vec::new();
        pieces.push(SqlPiece::Text(head));
        let r = SqlQuery { pieces };
        assert(r@ =~= seq![Piece::Text(head@)]);
        r
    }

    /// Adds a piece.
    pub fn add(&mut self, piece: SqlPiece)
        ensures
            final(self)@ == old(self)@.push(piece@),
    {
        let ghost before = self.pieces@;
        self.pieces.push(piece);
        assert(self@ =~= before.map_values(|p: SqlPiece| p@).push(piece@));
    }

    /// Adds text.
    pub fn push(&mut self, text: &'static str)
        ensures
            final(self)@ == old(self)@.push(Piece::Text(text@)),
    {
        self.add(SqlPiece::Text(text));
    }

    /// Adds a bound identifier.
    pub fn bind_id(&mut self, id: u128)
        ensures
            final(self)@ == old(self)@.push(Piece::Id(id)),
    {
        self.add(SqlPiece::Id(id));
    }

    /// Adds a bound array of identifiers.
    pub fn bind_ids(&mut self, ids: &Vec<u128>)
        ensures
            final(self)@ == old(self)@.push(Piece::Ids(ids@)),
    {
        let mut copy: Vec<u128> = Vec::new();
        copy.extend_from_slice(ids.as_slice());
        assert(copy@ =~= ids@);
        self.add(SqlPiece::Ids(copy));
    }

    /// Adds a bound text.
    pub fn bind_text(&mut self, text: &str)
        ensures
            final(self)@ == old(self)@.push(Piece::Value(text@)),
    {
        self.add(SqlPiece::Value(text.to_owned()));
    }

    /// Adds a bound array of texts.
    pub fn bind_texts(&mut self, list: &Vec<String>)
        ensures
            final(self)@ == old(self)@.push(Piece::Values(texts(list@))),
    {
        self.add(SqlPiece::Values(copy_list(list)));
    }

    /// Adds a bound truth value.
    pub fn bind_bool(&mut self, b: bool)
        ensures
            final(self)@ == old(self)@.push(Piece::Bool(b)),
    {
        self.add(SqlPiece::Bool(b));
    }

    /// Adds a bound integer.
    pub fn bind_int(&mut self, n: i64)
        ensures
            final(self)@ == old(self)@.push(Piece::Int(n)),
    {
        self.add(SqlPiece::Int(n));
    }
}

/// The pattern that finds a search anywhere in a lower-case text.
pub open spec fn like_pattern(search: Seq<char>) -> Seq<char> {
    "%"@ + lower_case(search) + "%"@
}

/// Puts a lower-case search between wildcards.
pub fn between_wildcards(lowered: &str) -> (r: String)
    ensures
        r@ == "%"@ + lowered@ + "%"@,
{
    "%".to_owned().concat(lowered).concat("%")
}

/// The pattern that finds a search anywhere in a lower-case text.
pub fn search_pattern(search: &str) -> (r: String)
    ensures
        r@ == like_pattern(search@),
{
    between_wildcards(to_lower_case(search).as_str())
}

/// What a `CASE WHEN flag THEN value ELSE column END` leaves in a column.
pub open spec fn case_when<T>(flag: bool, value: T, column: T) -> T {
    if flag {
        value
    } else {
        column
    }
}

/// What a three-state field leaves in a column: nothing given leaves it alone,
/// an empty value clears it, and a value sets it.
pub open spec fn three_state<T>(field: Option<Option<T>>, column: Option<T>) -> Option<T> {
    match field {
        None => column,
        Some(value) => value,
    }
}

/// The flag and the value of a three-state field, for `CASE WHEN`.
pub fn flagged<T: Copy>(field: Option<Option<T>>) -> (r: (bool, Option<T>))
    ensures
        r.0 == field is Some,
        r.1 == (match field {
            Some(value) => value,
            None => None,
        }),
{
    match field {
        Some(value) => (true, value),
        None => (false, None),
    }
}

/// The flag and the value of a three-state text, for `CASE WHEN`.
pub fn flagged_text<'a>(field: &'a Option<Option<String>>) -> (r: (bool, Option<&'a str>))
    ensures
        r.0 == field is Some,
        crate::names::str_or_none(r.1) == (match *field {
            Some(value) => crate::names::text_or_none(value),
            None => None,
        }),
{
    match field {
        Some(value) => (true, crate::names::borrowed(value)),
        None => (false, None),
    }
}

/// A flagged field does to a column what the three-state field says: leave,
/// clear or set it.
pub proof fn law_flagged_field_is_three_state<T>(
    field: Option<Option<T>>,
    flag: bool,
    value: Option<T>,
    column: Option<T>,
)
    requires
        flag == field is Some,
        value == (match field {
            Some(v) => v,
            None => None,
        }),
    ensures
        case_when(flag, value, column) == three_state(field, column),
{
}

/// A three-state field leaves the column alone, clears it or sets it.
pub proof fn law_three_states<T>(value: T, column: Option<T>)
    ensures
        three_state(None, column) == column,
        three_state(Some(None), column) is None,
        three_state(Some(Some(value)), column) == Some(value),
        case_when(true, Some(value), column) == Some(value),
        case_when(false, Some(value), column) == column,
{
}

/// A search is looked for anywhere, in lower case, between two wildcards.
pub proof fn law_search_is_found_anywhere(search: Seq<char>)
    ensures
        like_pattern(search).len() == lower_case(search).len() + 2,
        like_pattern(search)[0] == '%',
        like_pattern(search).last() == '%',
        like_pattern(search).subrange(1, like_pattern(search).len() - 1) == lower_case(search),
{
    reveal_strlit("%");
    assert(like_pattern(search).subrange(1, like_pattern(search).len() - 1) =~= lower_case(search));
}

/// What is asked of a column is what an update leaves in it: nothing asked leaves
/// the column, and anything else, nothing included, takes its place.
pub proof fn law_flagged_fields_are_written<T: Copy>(
    field: Option<Option<T>>,
    column: Option<T>,
    r: (bool, Option<T>),
)
    requires
        call_ensures(flagged::<T>, (field,), r),
    ensures
        field is None ==> (if r.0 {
            r.1
        } else {
            column
        }) == column,
        field is Some ==> (if r.0 {
            r.1
        } else {
            column
        }) == field->0,
{
}

}
