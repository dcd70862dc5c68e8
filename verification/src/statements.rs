//! Statements for the database: a text with numbered places, and the values that go into them.
use vstd::prelude::*;

verus! {

/// A value bound to a place of a statement.
pub enum SqlValue {
    Int(i64),
    Text(String),
    Null,
}

/// What a bound value stands for.
#[verifier::ext_equal]
pub enum ValueView {
    Int(int),
    Text(Seq<char>),
    Null,
}

impl View for SqlValue {
    type V = ValueView;

    open spec fn view(&self) -> ValueView {
        match *self {
            SqlValue::Int(i) => ValueView::Int(i as int),
            SqlValue::Text(s) => ValueView::Text(s@),
            SqlValue::Null => ValueView::Null,
        }
    }
}

/// A statement and its values, the first of them bound to `?1`.
pub struct Statement {
    pub sql: String,
    pub params: Vec<SqlValue>,
}

/// What a statement says.
#[verifier::ext_equal]
pub struct StatementView {
    pub sql: Seq<char>,
    pub params: Seq<ValueView>,
}

/// What a list of values stands for.
pub open spec fn values(v: Seq<SqlValue>) -> Seq<ValueView> {
    Seq::new(v.len(), |i: int| v[i]@)
}

/// What a list of statements says.
pub open spec fn statement_views(v: Seq<Statement>) -> Seq<StatementView> {
    Seq::new(v.len(), |i: int| v[i]@)
}

impl View for Statement {
    type V = StatementView;

    open spec fn view(&self) -> StatementView {
        StatementView { sql: self.sql@, params: values(self.params@) }
    }
}

/// A statement without values.
pub open spec fn sql(text: Seq<char>) -> StatementView {
    StatementView { sql: text, params: Seq::empty() }
}

impl StatementView {
    /// The statement with one more value.
    pub open spec fn with(self, v: ValueView) -> StatementView {
        StatementView { sql: self.sql, params: self.params.push(v) }
    }

    /// The statement with one more number.
    pub open spec fn number(self, i: int) -> StatementView {
        self.with(ValueView::Int(i))
    }

    /// The statement with one more text.
    pub open spec fn text(self, s: Seq<char>) -> StatementView {
        self.with(ValueView::Text(s))
    }

    /// The statement with one more truth value, bound as 0 or 1.
    pub open spec fn flag(self, b: bool) -> StatementView {
        self.number(if b { 1 } else { 0 })
    }

    /// The statement with one more text that may be missing.
    pub open spec fn maybe_text(self, s: Option<Seq<char>>) -> StatementView {
        match s {
            Some(t) => self.text(t),
            None => self.with(ValueView::Null),
        }
    }

    /// The statement with one more number that may be missing.
    pub open spec fn maybe_int(self, i: Option<i64>) -> StatementView {
        match i {
            Some(n) => self.number(n as int),
            None => self.with(ValueView::Null),
        }
    }
}

/// What an optional text holds.
pub open spec fn maybe(s: Option<String>) -> Option<Seq<char>> {
    match s {
        Some(t) => Some(t@),
        None => None,
    }
}

impl Statement {
    /// A statement without values.
    pub fn new(text: &str) -> (r: Statement)
        ensures
            r@ == sql(text@),
    {
        let r = Statement { sql: text.to_owned(), params: Vec::new() };
        assert(values(r.params@) =~= Seq::<ValueView>::empty());
        r
    }

    fn with(self, v: SqlValue) -> (r: Statement)
        ensures
            r@ == self@.with(v@),
    {
        let Statement { sql, mut params } = self;
        let ghost before = params@;
        params.push(v);
        assert(values(params@) =~= values(before).push(v@));
        Statement { sql, params }
    }

    /// The statement with one more number.
    pub fn number(self, i: i64) -> (r: Statement)
        ensures
            r@ == self@.number(i as int),
    {
        self.with(SqlValue::Int(i))
    }

    /// The statement with one more text.
    pub fn text(self, s: &str) -> (r: Statement)
        ensures
            r@ == self@.text(s@),
    {
        self.with(SqlValue::Text(s.to_owned()))
    }

    /// The statement with one more truth value.
    pub fn flag(self, b: bool) -> (r: Statement)
        ensures
            r@ == self@.flag(b),
    {
        self.number(if b { 1 } else { 0 })
    }

    /// The statement with one more text that may be missing.
    pub fn maybe_text(self, s: &Option<String>) -> (r: Statement)
        ensures
            r@ == self@.maybe_text(maybe(*s)),
    {
        match s {
            Some(t) => self.text(t.as_str()),
            None => self.with(SqlValue::Null),
        }
    }

    /// The statement with one more number that may be missing.
    pub fn maybe_int(self, i: Option<i64>) -> (r: Statement)
        ensures
            r@ == self@.maybe_int(i),
    {
        match i {
            Some(n) => self.number(n),
            None => self.with(SqlValue::Null),
        }
    }
}

} // verus!
