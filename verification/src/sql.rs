//! What the text of a statement means: which row it inserts, which rows it changes, deletes or reads.
//!
//! A statement is read piece by piece, at the places where its words stand. A row is known by its id
//! and holds a value for each column.
use vstd::prelude::*;

use crate::order::not_after;
use crate::statements::{StatementView, ValueView};
use crate::text::{ascii_lower, ascii_lower_char, has_word, lowercase};

verus! {

/// A row: the value of each column.
pub type Row = Map<Seq<char>, ValueView>;

/// The rows of a table, by their ids.
pub type Rows = Map<int, Row>;

// ---------------------------------------------------------------------------------------------
// Words
// ---------------------------------------------------------------------------------------------

/// A word stands in a text at a position.
pub open spec fn stands(text: Seq<char>, at: int, word: Seq<char>) -> bool {
    0 <= at && at + word.len() <= text.len() && text.subrange(at, at + word.len()) =~= word
}

/// A character that separates the words of a list.
pub open spec fn separates(c: char) -> bool {
    c == ' ' || c == '\n' || c == ',' || c == '('
}

/// Nothing but what separates words.
pub open spec fn is_gap(s: Seq<char>) -> bool {
    forall|i: int| 0 <= i < s.len() ==> separates(#[trigger] s[i])
}

/// Words of a list, each after a gap.
pub enum Words {
    End,
    Then { gap: Seq<char>, word: Seq<char>, rest: Box<Words> },
}

impl Words {
    /// Where the words end if they begin at a position; -1 if they do not stand there.
    pub open spec fn end_in(self, text: Seq<char>, at: int) -> int
        decreases self,
    {
        match self {
            Words::End => at,
            Words::Then { gap, word, rest } => if is_gap(gap) && stands(text, at, gap) && stands(
                text,
                at + gap.len(),
                word,
            ) {
                rest.end_in(text, at + gap.len() + word.len())
            } else {
                -1
            },
        }
    }

    /// The word at a place of the list, if there is one.
    pub open spec fn at(self, k: int) -> Option<Seq<char>>
        decreases self,
    {
        match self {
            Words::End => None,
            Words::Then { word, rest, .. } => if k == 0 {
                Some(word)
            } else {
                rest.at(k - 1)
            },
        }
    }

    /// How many words there are.
    pub open spec fn count(self) -> nat
        decreases self,
    {
        match self {
            Words::End => 0,
            Words::Then { rest, .. } => 1 + rest.count(),
        }
    }

    /// A word is among them.
    pub open spec fn has(self, w: Seq<char>) -> bool
        decreases self,
    {
        match self {
            Words::End => false,
            Words::Then { word, rest, .. } => word == w || rest.has(w),
        }
    }
}

/// The number that digits write.
pub open spec fn number_in(s: Seq<char>) -> int
    decreases s.len(),
{
    if s.len() == 0 {
        0
    } else {
        number_in(s.drop_last()) * 10 + (s.last() as int - '0' as int)
    }
}

/// The value of a term: `?3` is the third value that is bound, `'x'` a text, anything else a number.
pub open spec fn value_of(term: Seq<char>, params: Seq<ValueView>) -> ValueView {
    if term[0] == '?' {
        params[number_in(term.skip(1)) - 1]
    } else if term[0] == '\'' {
        ValueView::Text(term.subrange(1, term.len() - 1))
    } else if term[0] == '-' {
        ValueView::Int(-number_in(term.skip(1)))
    } else {
        ValueView::Int(number_in(term))
    }
}

// ---------------------------------------------------------------------------------------------
// Insertions
// ---------------------------------------------------------------------------------------------

/// `INSERT INTO table (columns) VALUES (terms)`, with something else behind it.
pub struct Insert {
    pub verb: Seq<char>,
    pub table: Seq<char>,
    pub columns: Words,
    pub middle: Seq<char>,
    pub terms: Words,
}

impl Insert {
    /// It is what a text says.
    pub open spec fn is_read(self, text: Seq<char>) -> bool {
        let a = self.verb.len() as int;
        let b = a + self.table.len();
        let c = self.columns.end_in(text, b);
        let d = c + self.middle.len();
        let e = self.terms.end_in(text, d);
        &&& self.verb == "INSERT INTO "@ || self.verb == "INSERT OR IGNORE INTO "@
        &&& stands(text, 0, self.verb)
        &&& stands(text, a, self.table)
        &&& c >= 0 && stands(text, c, self.middle)
        &&& e >= 0 && e < text.len() && text[e] == ')'
        &&& self.columns.count() == self.terms.count()
    }

    /// The value that a column gets.
    pub open spec fn gives(self, params: Seq<ValueView>, column: Seq<char>) -> Option<ValueView> {
        given(self.columns, self.terms, params, column)
    }
}

/// The value of the term that stands in the place of a column.
pub open spec fn given(
    columns: Words,
    terms: Words,
    params: Seq<ValueView>,
    column: Seq<char>,
) -> Option<ValueView>
    decreases columns,
{
    match (columns, terms) {
        (
            Words::Then { word: c, rest: cs, .. },
            Words::Then { word: t, rest: ts, .. },
        ) => if c == column {
            Some(value_of(t, params))
        } else {
            given(*cs, *ts, params, column)
        },
        _ => None,
    }
}

/// A statement inserts into a table a row with these values, where no other row is in the way.
pub open spec fn inserts(s: StatementView, table: Seq<char>, row: Row) -> bool {
    exists|p: Insert| #[trigger]
        p.is_read(s.sql) && p.table == table && forall|c: Seq<char>| #[trigger]
            row.contains_key(c) ==> p.gives(s.params, c) == Some(row[c])
}

// ---------------------------------------------------------------------------------------------
// Conditions
// ---------------------------------------------------------------------------------------------

/// Conditions that all have to hold, each after a gap: a column, a sign and a term; such a condition
/// where the case of letters does not matter; or that a column holds a text, whatever the case.
pub enum Tests {
    End,
    Test { gap: Seq<char>, column: Seq<char>, sign: Seq<char>, term: Seq<char>, rest: Box<Tests> },
    NoCase { gap: Seq<char>, column: Seq<char>, term: Seq<char>, rest: Box<Tests> },
    Within { gap: Seq<char>, column: Seq<char>, term: Seq<char>, rest: Box<Tests> },
}

/// Two texts are the same but for the case of letters of ASCII.
pub open spec fn same_letters(a: ValueView, b: ValueView) -> bool {
    a matches ValueView::Text(x) && b matches ValueView::Text(y) && ascii_lower(x) == ascii_lower(y)
}

/// A text stands in another, whatever the case of letters of ASCII.
pub open spec fn stands_within(a: ValueView, b: ValueView) -> bool {
    a matches ValueView::Text(x) && b matches ValueView::Text(y) && has_word(
        ascii_lower(x),
        ascii_lower(y),
    )
}

/// Two values compare as a sign says.
pub open spec fn compares(a: ValueView, sign: Seq<char>, b: ValueView) -> bool {
    if sign == "="@ || sign == " = "@ {
        a == b
    } else if sign == "!="@ {
        a != b
    } else if sign == " > "@ {
        a matches ValueView::Int(x) && b matches ValueView::Int(y) && x > y
    } else if sign == " < "@ {
        a matches ValueView::Int(x) && b matches ValueView::Int(y) && x < y
    } else if sign == " IS "@ {
        a == ValueView::Null
    } else {
        false
    }
}

impl Tests {
    /// Where the conditions end if they begin at a position; -1 if they do not stand there.
    pub open spec fn end_in(self, text: Seq<char>, at: int) -> int
        decreases self,
    {
        match self {
            Tests::End => at,
            Tests::Test { gap, column, sign, term, rest } => {
                let b = at + gap.len();
                let c = b + column.len();
                let d = c + sign.len();
                if stands(text, at, gap) && stands(text, b, column) && stands(text, c, sign)
                    && stands(text, d, term) {
                    rest.end_in(text, d + term.len())
                } else {
                    -1
                }
            },
            Tests::NoCase { gap, column, term, rest } => {
                let b = at + gap.len();
                let c = b + column.len();
                let d = c + 3;
                let e = d + term.len();
                if stands(text, at, gap) && stands(text, b, column) && stands(text, c, " = "@)
                    && stands(text, d, term) && stands(text, e, " COLLATE NOCASE"@) {
                    rest.end_in(text, e + 15)
                } else {
                    -1
                }
            },
            Tests::Within { gap, column, term, rest } => {
                let b = at + gap.len();
                let c = b + 12;
                let d = c + column.len();
                let e = d + 9;
                let f = e + term.len();
                if stands(text, at, gap) && stands(text, b, "INSTR(LOWER("@) && stands(
                    text,
                    c,
                    column,
                ) && stands(text, d, "), LOWER("@) && stands(text, e, term) && stands(
                    text,
                    f,
                    ")) > 0"@,
                ) {
                    rest.end_in(text, f + 6)
                } else {
                    -1
                }
            },
        }
    }

    /// What stands before the first condition.
    pub open spec fn gap(self) -> Seq<char> {
        match self {
            Tests::End => Seq::empty(),
            Tests::Test { gap, .. } => gap,
            Tests::NoCase { gap, .. } => gap,
            Tests::Within { gap, .. } => gap,
        }
    }

    /// The conditions after the first.
    pub open spec fn rest(self) -> Tests {
        match self {
            Tests::End => Tests::End,
            Tests::Test { rest, .. } => *rest,
            Tests::NoCase { rest, .. } => *rest,
            Tests::Within { rest, .. } => *rest,
        }
    }

    /// Each condition but the first is joined by `AND`.
    pub open spec fn all_joined(self) -> bool
        decreases self,
    {
        match self {
            Tests::End => true,
            Tests::Test { gap, rest, .. } => gap == " AND "@ && rest.all_joined(),
            Tests::NoCase { gap, rest, .. } => gap == " AND "@ && rest.all_joined(),
            Tests::Within { gap, rest, .. } => gap == " AND "@ && rest.all_joined(),
        }
    }

    /// They hold of a row.
    pub open spec fn hold(self, params: Seq<ValueView>, row: Row) -> bool
        decreases self,
    {
        match self {
            Tests::End => true,
            Tests::Test { column, sign, term, rest, .. } => compares(
                row[column],
                sign,
                value_of(term, params),
            ) && rest.hold(params, row),
            Tests::NoCase { column, term, rest, .. } => same_letters(
                row[column],
                value_of(term, params),
            ) && rest.hold(params, row),
            Tests::Within { column, term, rest, .. } => stands_within(
                row[column],
                value_of(term, params),
            ) && rest.hold(params, row),
        }
    }
}

/// The conditions behind `WHERE` are what a text says from a position to its end.
pub open spec fn wheres(text: Seq<char>, at: int, before: Seq<char>, tests: Tests, tail: Seq<char>) -> bool {
    &&& stands(text, at, before)
    &&& tests.gap() == "WHERE "@
    &&& tests.rest().all_joined()
    &&& {
        let e = tests.end_in(text, at + before.len());
        e >= 0 && stands(text, e, tail) && e + tail.len() == text.len()
    }
}

// ---------------------------------------------------------------------------------------------
// Changes
// ---------------------------------------------------------------------------------------------

/// Assignments, each after a gap: a column and a term.
pub enum Sets {
    End,
    Assign { gap: Seq<char>, column: Seq<char>, term: Seq<char>, rest: Box<Sets> },
}

impl Sets {
    /// Where the assignments end if they begin at a position; -1 if they do not stand there.
    pub open spec fn end_in(self, text: Seq<char>, at: int) -> int
        decreases self,
    {
        match self {
            Sets::End => at,
            Sets::Assign { gap, column, term, rest } => {
                let b = at + gap.len();
                let c = b + column.len();
                if is_gap(gap) && stands(text, at, gap) && stands(text, b, column) && stands(
                    text,
                    c,
                    "="@,
                ) && stands(text, c + 1, term) {
                    rest.end_in(text, c + 1 + term.len())
                } else {
                    -1
                }
            },
        }
    }

    /// A row after them.
    pub open spec fn made(self, params: Seq<ValueView>, row: Row) -> Row
        decreases self,
    {
        match self {
            Sets::End => row,
            Sets::Assign { column, term, rest, .. } => rest.made(params, row).insert(
                column,
                value_of(term, params),
            ),
        }
    }
}

/// `UPDATE table SET assignments WHERE conditions`.
pub struct Update {
    pub table: Seq<char>,
    pub sets: Sets,
    pub before: Seq<char>,
    pub tests: Tests,
}

impl Update {
    /// It is what a text says.
    pub open spec fn is_read(self, text: Seq<char>) -> bool {
        let b = 7int + self.table.len();
        let e = self.sets.end_in(text, b + 5);
        &&& stands(text, 0, "UPDATE "@)
        &&& stands(text, 7, self.table)
        &&& stands(text, b, " SET "@)
        &&& e >= 0 && is_gap(self.before) && wheres(text, e, self.before, self.tests, Seq::empty())
    }
}

/// A statement changes rows of a table: those that it picks out become what it makes of them.
pub open spec fn changes(
    s: StatementView,
    table: Seq<char>,
    picks: spec_fn(Row) -> bool,
    made: spec_fn(Row) -> Row,
) -> bool {
    exists|p: Update| #[trigger]
        p.is_read(s.sql) && p.table == table && forall|row: Row|
            #![trigger p.tests.hold(s.params, row)]
            #![trigger p.sets.made(s.params, row)]
            (p.tests.hold(s.params, row) <==> picks(row)) && p.sets.made(s.params, row) =~= made(row)
}

/// `ON CONFLICT(key) DO UPDATE SET assignments`, at the end of an insertion.
pub struct Conflict {
    pub at: int,
    pub start: Seq<char>,
    pub key: Seq<char>,
    pub sets: Sets,
}

impl Conflict {
    /// It is what the end of a text says.
    pub open spec fn is_read(self, text: Seq<char>) -> bool {
        let a = self.at + self.start.len();
        let b = a + self.key.len();
        &&& stands(text, self.at, self.start)
        &&& stands(text, a, self.key)
        &&& stands(text, b, ") DO UPDATE SET"@)
        &&& self.sets.end_in(text, b + 15) == text.len()
        &&& self.start.len() >= 12 && stands(self.start, self.start.len() - 12, "ON CONFLICT("@)
    }
}

/// The value of a column that a new value replaces unless it is the empty text.
pub open spec fn kept_unless_empty(old_value: ValueView, new_value: ValueView) -> ValueView {
    if new_value == ValueView::Text(Seq::empty()) {
        old_value
    } else {
        new_value
    }
}

/// The value that a term of such an assignment has: the one that was to be inserted, that one unless
/// it is empty, or a number.
pub open spec fn kept_value(column: Seq<char>, term: Seq<char>, old_row: Row, new_row: Row) -> ValueView {
    if term == "excluded."@ + column {
        new_row[column]
    } else if term == "CASE WHEN excluded."@ + column + "!='' THEN excluded."@ + column + " ELSE "@
        + column + " END"@ {
        kept_unless_empty(old_row[column], new_row[column])
    } else {
        value_of(term, Seq::empty())
    }
}

impl Sets {
    /// A row that was there, after a row with the same key was to be inserted.
    pub open spec fn merged(self, old_row: Row, new_row: Row) -> Row
        decreases self,
    {
        match self {
            Sets::End => old_row,
            Sets::Assign { column, term, rest, .. } => rest.merged(old_row, new_row).insert(
                column,
                kept_value(column, term, old_row, new_row),
            ),
        }
    }
}

/// Where a row with the same key is there already, a statement that inserts a row changes that one.
pub open spec fn merges(
    s: StatementView,
    key: Seq<char>,
    made: spec_fn(Row, Row) -> Row,
) -> bool {
    exists|p: Conflict| #[trigger]
        p.is_read(s.sql) && p.key == key && forall|old_row: Row, new_row: Row| #[trigger]
            p.sets.merged(old_row, new_row) =~= made(old_row, new_row)
}

// ---------------------------------------------------------------------------------------------
// Deletions
// ---------------------------------------------------------------------------------------------

/// `DELETE FROM table WHERE conditions`.
pub struct Delete {
    pub table: Seq<char>,
    pub tests: Tests,
}

impl Delete {
    /// It is what a text says.
    pub open spec fn is_read(self, text: Seq<char>) -> bool {
        &&& stands(text, 0, "DELETE FROM "@)
        &&& stands(text, 12, self.table)
        &&& wheres(text, 12int + self.table.len(), " "@, self.tests, Seq::empty())
    }
}

/// A statement deletes the rows of a table that it picks out.
pub open spec fn deletes(s: StatementView, table: Seq<char>, picks: spec_fn(Row) -> bool) -> bool {
    exists|p: Delete| #[trigger]
        p.is_read(s.sql) && p.table == table && forall|row: Row| #[trigger]
            p.tests.hold(s.params, row) <==> picks(row)
}

// ---------------------------------------------------------------------------------------------
// Questions
// ---------------------------------------------------------------------------------------------

/// `SELECT columns FROM table WHERE conditions`, with something else behind it.
pub struct Select {
    pub columns: Words,
    pub before_from: Seq<char>,
    pub table: Seq<char>,
    pub before: Seq<char>,
    pub tests: Tests,
    pub tail: Seq<char>,
}

impl Select {
    /// It is what a text says.
    pub open spec fn is_read(self, text: Seq<char>) -> bool {
        let a = self.columns.end_in(text, 6);
        let b = a + self.before_from.len();
        let c = b + 5;
        let d = c + self.table.len();
        &&& stands(text, 0, "SELECT"@)
        &&& a >= 0 && is_gap(self.before_from) && stands(text, a, self.before_from)
        &&& stands(text, b, "FROM "@)
        &&& stands(text, c, self.table)
        &&& is_gap(self.before)
        &&& wheres(text, d, self.before, self.tests, self.tail)
    }
}

/// A statement reads from the rows of a table that it picks out the values of columns, in the order
/// of the list; `tail` says in which order the rows come and how many.
pub open spec fn selects(
    s: StatementView,
    columns: Seq<Seq<char>>,
    table: Seq<char>,
    picks: spec_fn(Row) -> bool,
    tail: Seq<char>,
) -> bool {
    exists|p: Select| #[trigger]
        p.is_read(s.sql) && p.table == table && p.tail == tail && p.columns.count() == columns.len()
            && (forall|k: int|
            0 <= k < columns.len() ==> p.columns.at(k) == Some(#[trigger] columns[k])) && forall|
            row: Row,
        | #[trigger]
            p.tests.hold(s.params, row) <==> picks(row)
}

/// `SELECT columns FROM table`, with something else behind it but no conditions.
pub struct SelectAll {
    pub columns: Words,
    pub table: Seq<char>,
    pub tail: Seq<char>,
}

impl SelectAll {
    /// It is what a text says.
    pub open spec fn is_read(self, text: Seq<char>) -> bool {
        let a = self.columns.end_in(text, 6);
        let d = a + 6 + self.table.len();
        &&& stands(text, 0, "SELECT"@)
        &&& a >= 0 && stands(text, a, " FROM "@)
        &&& stands(text, a + 6, self.table)
        &&& stands(text, d, self.tail) && d + self.tail.len() == text.len()
    }
}

/// A statement reads from all rows of a table the values of columns, in the order of the list.
pub open spec fn selects_all(
    s: StatementView,
    columns: Seq<Seq<char>>,
    table: Seq<char>,
    tail: Seq<char>,
) -> bool {
    exists|p: SelectAll| #[trigger]
        p.is_read(s.sql) && p.table == table && p.tail == tail && p.columns.count() == columns.len()
            && forall|k: int|
            0 <= k < columns.len() ==> p.columns.at(k) == Some(#[trigger] columns[k])
}

// ---------------------------------------------------------------------------------------------
// Lists
// ---------------------------------------------------------------------------------------------

/// A text is like a pattern, in which `%` stands for any text and `_` for any character; the case of
/// letters of ASCII does not matter.
pub open spec fn like(t: Seq<char>, pattern: Seq<char>) -> bool
    decreases pattern.len(),
{
    if pattern.len() == 0 {
        t.len() == 0
    } else if pattern[0] == '%' {
        exists|k: int| 0 <= k <= t.len() && like(#[trigger] t.skip(k), pattern.skip(1))
    } else {
        t.len() > 0 && (pattern[0] == '_' || ascii_lower_char(t[0]) == ascii_lower_char(pattern[0]))
            && like(t.skip(1), pattern.skip(1))
    }
}

/// Conditions of which one has to hold, each after a gap: that a column, in lowercase, is like a
/// pattern.
pub enum Likes {
    End,
    Like { gap: Seq<char>, column: Seq<char>, pad: Seq<char>, term: Seq<char>, rest: Box<Likes> },
}

impl Likes {
    /// Where the conditions end if they begin at a position; -1 if they do not stand there.
    pub open spec fn end_in(self, text: Seq<char>, at: int) -> int
        decreases self,
    {
        match self {
            Likes::End => at,
            Likes::Like { gap, column, pad, term, rest } => {
                let b = at + gap.len();
                let c = b + 8;
                let d = c + column.len();
                let e = d + 1 + pad.len();
                if stands(text, at, gap) && stands(text, b, "u_lower("@) && stands(text, c, column)
                    && stands(text, d, ")"@) && is_gap(pad) && stands(text, d + 1, pad) && stands(
                    text,
                    e,
                    "LIKE "@,
                ) && stands(text, e + 5, term) {
                    rest.end_in(text, e + 5 + term.len())
                } else {
                    -1
                }
            },
        }
    }

    /// What stands before the first condition.
    pub open spec fn gap(self) -> Seq<char> {
        match self {
            Likes::End => Seq::empty(),
            Likes::Like { gap, .. } => gap,
        }
    }

    /// Each condition but the first is joined by `OR`.
    pub open spec fn all_joined(self) -> bool
        decreases self,
    {
        match self {
            Likes::End => true,
            Likes::Like { rest, .. } => (*rest is End || stands(rest.gap(), 0, " OR"@) && is_gap(
                rest.gap().skip(3),
            )) && rest.all_joined(),
        }
    }

    /// One of them holds of a row.
    pub open spec fn any(self, params: Seq<ValueView>, row: Row) -> bool
        decreases self,
    {
        match self {
            Likes::End => false,
            Likes::Like { column, term, rest, .. } => is_like(row[column], value_of(term, params))
                || rest.any(params, row),
        }
    }
}

/// A text, in lowercase, is like a pattern.
pub open spec fn is_like(v: ValueView, pattern: ValueView) -> bool {
    v matches ValueView::Text(t) && pattern matches ValueView::Text(p) && like(lowercase(t), p)
}

/// Further conditions of a list: they all have to hold, or one of them.
pub enum Filter {
    All(Tests),
    Any(Likes, Seq<char>),
}

impl Filter {
    /// It is what a text says.
    pub open spec fn is_read(self, text: Seq<char>) -> bool {
        match self {
            Filter::All(tests) => tests.all_joined() && tests.end_in(text, 0) == text.len(),
            Filter::Any(likes, gap) => {
                let e = likes.end_in(text, 6);
                &&& stands(text, 0, " AND ("@)
                &&& is_gap(likes.gap()) && likes.all_joined()
                &&& e >= 0 && is_gap(gap) && stands(text, e, gap)
                &&& stands(text, e + gap.len(), ")"@) && e + gap.len() + 1 == text.len()
            },
        }
    }

    /// It holds of a row.
    pub open spec fn holds(self, params: Seq<ValueView>, row: Row) -> bool {
        match self {
            Filter::All(tests) => tests.hold(params, row),
            Filter::Any(likes, _) => likes.any(params, row),
        }
    }
}

/// A value comes before another: nothing before numbers, numbers before texts.
pub open spec fn comes_before(a: ValueView, b: ValueView) -> bool {
    match (a, b) {
        (ValueView::Int(x), ValueView::Int(y)) => x < y,
        (ValueView::Text(x), ValueView::Text(y)) => !not_after(y, x),
        (ValueView::Null, ValueView::Null) => false,
        (ValueView::Null, _) => true,
        (ValueView::Int(_), ValueView::Text(_)) => true,
        _ => false,
    }
}

/// What a list is ordered by, each after a gap: a column, in lowercase or as it is, rising or falling.
pub enum Keys {
    End,
    Key { gap: Seq<char>, column: Seq<char>, lowered: bool, falls: bool, rest: Box<Keys> },
}

/// The value that a row is ordered by.
pub open spec fn key_of(row: Row, column: Seq<char>, lowered: bool) -> ValueView {
    match row[column] {
        ValueView::Text(t) if lowered => ValueView::Text(lowercase(t)),
        v => v,
    }
}

impl Keys {
    /// Where the keys end if they begin at a position; -1 if they do not stand there.
    pub open spec fn end_in(self, text: Seq<char>, at: int) -> int
        decreases self,
    {
        match self {
            Keys::End => at,
            Keys::Key { gap, column, lowered, falls, rest } => {
                let b = at + gap.len();
                let c = if lowered {
                    b + 8
                } else {
                    b
                };
                let d = c + column.len();
                let e = if lowered {
                    d + 1
                } else {
                    d
                };
                if is_gap(gap) && stands(text, at, gap) && (lowered ==> stands(text, b, "u_lower("@)
                    && stands(text, d, ")"@)) && stands(text, c, column) && stands(
                    text,
                    e,
                    if falls {
                        " DESC"@
                    } else {
                        " ASC"@
                    },
                ) {
                    rest.end_in(
                        text,
                        if falls {
                            e + 5
                        } else {
                            e + 4
                        },
                    )
                } else {
                    -1
                }
            },
        }
    }

    /// A row may stand before another.
    pub open spec fn allow(self, a: Row, b: Row) -> bool
        decreases self,
    {
        match self {
            Keys::End => true,
            Keys::Key { column, lowered, falls, rest, .. } => {
                let x = key_of(a, column, lowered);
                let y = key_of(b, column, lowered);
                if falls {
                    comes_before(y, x) || !comes_before(x, y) && rest.allow(a, b)
                } else {
                    comes_before(x, y) || !comes_before(y, x) && rest.allow(a, b)
                }
            },
        }
    }
}

/// `SELECT columns FROM table WHERE conditions ORDER BY keys LIMIT term OFFSET term`.
pub struct List {
    pub columns: Words,
    pub before_from: Seq<char>,
    pub table: Seq<char>,
    pub before: Seq<char>,
    pub tests: Tests,
    pub filter_text: Seq<char>,
    pub filter: Filter,
    pub before_order: Seq<char>,
    pub order_text: Seq<char>,
    pub keys: Keys,
    pub before_limit: Seq<char>,
    pub limit: Seq<char>,
    pub offset: Option<Seq<char>>,
}

impl List {
    /// It is what a text says.
    pub open spec fn is_read(self, text: Seq<char>) -> bool {
        let a = self.columns.end_in(text, 6);
        let b = a + self.before_from.len();
        let c = b + 5;
        let d = c + self.table.len();
        let e = self.tests.end_in(text, d + self.before.len());
        let f = e + self.filter_text.len();
        let g = f + self.before_order.len();
        let h = g + 9 + self.order_text.len();
        let i = h + self.before_limit.len();
        let j = i + 6 + self.limit.len();
        &&& stands(text, 0, "SELECT"@)
        &&& a >= 0 && is_gap(self.before_from) && stands(text, a, self.before_from)
        &&& stands(text, b, "FROM "@)
        &&& stands(text, c, self.table)
        &&& is_gap(self.before) && stands(text, d, self.before)
        &&& self.tests.gap() == "WHERE "@ && self.tests.rest().all_joined()
        &&& e >= 0 && stands(text, e, self.filter_text)
        &&& self.filter.is_read(self.filter_text)
        &&& is_gap(self.before_order) && stands(text, f, self.before_order)
        &&& stands(text, g, "ORDER BY "@)
        &&& stands(text, g + 9, self.order_text)
        &&& self.keys.end_in(self.order_text, 0) == self.order_text.len()
        &&& is_gap(self.before_limit) && stands(text, h, self.before_limit)
        &&& stands(text, i, "LIMIT "@)
        &&& stands(text, i + 6, self.limit)
        &&& match self.offset {
            Some(t) => stands(text, j, " OFFSET "@) && stands(text, j + 8, t) && j + 8 + t.len()
                == text.len(),
            None => j == text.len(),
        }
    }
}

/// A statement lists rows of a table: those that it picks out, in an order, at most `limit` of them
/// after the first `offset`.
pub open spec fn lists(
    s: StatementView,
    columns: Seq<Seq<char>>,
    table: Seq<char>,
    picks: spec_fn(Row) -> bool,
    before: spec_fn(Row, Row) -> bool,
    limit: int,
    offset: int,
) -> bool {
    exists|p: List| #[trigger]
        p.is_read(s.sql) && p.table == table && p.columns.count() == columns.len() && (forall|k: int|
            0 <= k < columns.len() ==> p.columns.at(k) == Some(#[trigger] columns[k])) && (forall|
            row: Row,
        |
            #![trigger p.filter.holds(s.params, row)]
            (p.tests.hold(s.params, row) && p.filter.holds(s.params, row)) <==> picks(row)) && (forall|
            a: Row,
            b: Row,
        | #[trigger]
            p.keys.allow(a, b) <==> before(a, b)) && value_of(p.limit, s.params) == ValueView::Int(limit)
            && match p.offset {
            Some(t) => value_of(t, s.params) == ValueView::Int(offset),
            None => offset == 0,
        }
}

/// A statement whose text is read so lists what its parts say.
pub proof fn lemma_lists(
    s: StatementView,
    p: List,
    columns: Seq<Seq<char>>,
    picks: spec_fn(Row) -> bool,
    before: spec_fn(Row, Row) -> bool,
    limit: int,
    offset: int,
)
    requires
        p.is_read(s.sql),
        p.columns.count() == columns.len(),
        forall|k: int| 0 <= k < columns.len() ==> p.columns.at(k) == Some(#[trigger] columns[k]),
        forall|row: Row| #[trigger]
            picks(row) <==> p.tests.hold(s.params, row) && p.filter.holds(s.params, row),
        forall|a: Row, b: Row| #[trigger] before(a, b) <==> p.keys.allow(a, b),
        value_of(p.limit, s.params) == ValueView::Int(limit),
        match p.offset {
            Some(t) => value_of(t, s.params) == ValueView::Int(offset),
            None => offset == 0,
        },
    ensures
        lists(s, columns, p.table, picks, before, limit, offset),
{
    assert forall|row: Row|
        #![trigger p.filter.holds(s.params, row)]
        (p.tests.hold(s.params, row) && p.filter.holds(s.params, row)) <==> picks(row) by {}
    assert forall|a: Row, b: Row| #[trigger] p.keys.allow(a, b) <==> before(a, b) by {}
}

/// The terms `?1` to `?15` are the values that are bound.
pub proof fn lemma_terms(params: Seq<ValueView>)
    ensures
        value_of("?1"@, params) == params[0],
        value_of("?2"@, params) == params[1],
        value_of("?3"@, params) == params[2],
        value_of("?4"@, params) == params[3],
        value_of("?5"@, params) == params[4],
        value_of("?6"@, params) == params[5],
        value_of("?7"@, params) == params[6],
        value_of("?8"@, params) == params[7],
        value_of("?9"@, params) == params[8],
        value_of("?10"@, params) == params[9],
        value_of("?11"@, params) == params[10],
        value_of("?12"@, params) == params[11],
        value_of("?13"@, params) == params[12],
        value_of("?14"@, params) == params[13],
        value_of("?15"@, params) == params[14],
{
    reveal_with_fuel(number_in, 4);
    reveal_strlit("?1");
    assert("?1"@.skip(1) =~= seq!['1']);
    reveal_strlit("?2");
    assert("?2"@.skip(1) =~= seq!['2']);
    reveal_strlit("?3");
    assert("?3"@.skip(1) =~= seq!['3']);
    reveal_strlit("?4");
    assert("?4"@.skip(1) =~= seq!['4']);
    reveal_strlit("?5");
    assert("?5"@.skip(1) =~= seq!['5']);
    reveal_strlit("?6");
    assert("?6"@.skip(1) =~= seq!['6']);
    reveal_strlit("?7");
    assert("?7"@.skip(1) =~= seq!['7']);
    reveal_strlit("?8");
    assert("?8"@.skip(1) =~= seq!['8']);
    reveal_strlit("?9");
    assert("?9"@.skip(1) =~= seq!['9']);
    reveal_strlit("?10");
    assert("?10"@.skip(1) =~= seq!['1', '0']);
    assert("?10"@.skip(1).drop_last() =~= seq!['1']);
    reveal_strlit("?11");
    assert("?11"@.skip(1) =~= seq!['1', '1']);
    assert("?11"@.skip(1).drop_last() =~= seq!['1']);
    reveal_strlit("?12");
    assert("?12"@.skip(1) =~= seq!['1', '2']);
    assert("?12"@.skip(1).drop_last() =~= seq!['1']);
    reveal_strlit("?13");
    assert("?13"@.skip(1) =~= seq!['1', '3']);
    assert("?13"@.skip(1).drop_last() =~= seq!['1']);
    reveal_strlit("?14");
    assert("?14"@.skip(1) =~= seq!['1', '4']);
    assert("?14"@.skip(1).drop_last() =~= seq!['1']);
    reveal_strlit("?15");
    assert("?15"@.skip(1) =~= seq!['1', '5']);
    assert("?15"@.skip(1).drop_last() =~= seq!['1']);
}

} // verus!
