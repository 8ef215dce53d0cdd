use vstd::prelude::*;

verus! {

/// A literal written in an expression.
#[derive(Debug, PartialEq)]
pub enum Literal {
    Number(i64),
    Boolean(bool),
    SingleQuotedString(String),
    Null,
}

/// The quotes a name was written between.
#[derive(Debug, Clone, Copy, PartialEq, Eq, Structural)]
pub enum QuoteStyle {
    /// `"name"`
    Double,
    /// `'name'`
    Single,
    /// `` `name` ``
    Backtick,
    /// `[name]`
    Bracket,
}

/// A name, with the quotes it was written between, if any.
#[derive(Debug, PartialEq)]
pub struct Ident {
    pub value: String,
    pub quote_style: Option<QuoteStyle>,
}

#[derive(Debug, Clone, Copy, PartialEq, Eq, Structural)]
pub enum BinaryOperator {
    Plus,
    Minus,
    Multiply,
    Divide,
    Eq,
    NotEq,
    Lt,
    LtEq,
    Gt,
    GtEq,
    And,
    Or,
}

/// An expression tree.
#[derive(Debug)]
pub enum Expr {
    Value(Literal),
    Identifier(Ident),
    CompoundIdentifier(Vec<Ident>),
    Nested(Box<Expr>),
    Subquery(Box<Query>),
    BinaryOp { left: Box<Expr>, op: BinaryOperator, right: Box<Expr> },
    Not(Box<Expr>),
    /// Any other shape (a function call, a cast, a list, ...), by its text.
    Other(String),
}

/// A scalar query: one column of the rows of one table that pass a predicate.
#[derive(Debug)]
pub struct Query {
    pub column: String,
    pub table_name: String,
    /// The name the table is known by inside the query, if not its own.
    pub alias: Option<String>,
    pub selection: Option<Expr>,
}

impl Query {
    /// The name that qualifies columns of the queried table.
    pub open spec fn alias_spec(&self) -> &String {
        match &self.alias {
            Some(a) => a,
            None => &self.table_name,
        }
    }

    pub fn table_alias(&self) -> (r: &String)
        ensures
            r == self.alias_spec(),
    {
        match &self.alias {
            Some(a) => a,
            None => &self.table_name,
        }
    }
}

/// The number of nodes in an expression tree, subqueries included.
pub open spec fn expr_size(e: Expr) -> nat
    decreases e,
{
    match e {
        Expr::Nested(inner) => 1 + expr_size(*inner),
        Expr::Not(inner) => 1 + expr_size(*inner),
        Expr::BinaryOp { left, op, right } => 1 + expr_size(*left) + expr_size(*right),
        Expr::Subquery(q) => 3 + predicate_size(q.selection),
        _ => 1,
    }
}

/// The size of an optional predicate.
pub open spec fn predicate_size(p: Option<Expr>) -> nat
    decreases p,
{
    match p {
        Some(e) => expr_size(e),
        None => 0,
    }
}

/// What sqlparser's `escape_quoted_string` makes of `s` inside quotes `quote`.
pub uninterp spec fn escaped(s: Seq<char>, quote: char) -> Seq<char>;

/// Relies on sqlparser::ast::escape_quoted_string, the escaping that
/// sqlparser prints a quoted name with: a function of its arguments alone.
#[verifier::external_body]
fn escape_quoted(s: &str, quote: char) -> (r: String)
    ensures
        r@ == escaped(s@, quote),
{
    sqlparser::ast::escape_quoted_string(s, quote).to_string()
}

/// A name as it is written: bare, between brackets, or between quotes with
/// the quote character escaped inside.
pub open spec fn ident_text(id: Ident) -> Seq<char> {
    match id.quote_style {
        None => id.value@,
        Some(QuoteStyle::Bracket) => seq!['['] + id.value@ + seq![']'],
        Some(QuoteStyle::Double) => seq!['"'] + escaped(id.value@, '"') + seq!['"'],
        Some(QuoteStyle::Single) => seq!['\''] + escaped(id.value@, '\'') + seq!['\''],
        Some(QuoteStyle::Backtick) => seq!['`'] + escaped(id.value@, '`') + seq!['`'],
    }
}

/// Writes a name as it is written in an expression.
pub fn ident_to_string(id: &Ident) -> (r: String)
    ensures
        r@ == ident_text(*id),
{
    match id.quote_style {
        None => id.value.clone(),
        Some(QuoteStyle::Bracket) => {
            let mut out = String::from_str("[");
            out.append(id.value.as_str());
            out.append("]");
            proof {
                reveal_strlit("[");
                reveal_strlit("]");
            }
            out
        },
        Some(QuoteStyle::Double) => {
            let mut out = String::from_str("\"");
            let inner = escape_quoted(id.value.as_str(), '"');
            out.append(inner.as_str());
            out.append("\"");
            proof {
                reveal_strlit("\"");
            }
            out
        },
        Some(QuoteStyle::Single) => {
            let mut out = String::from_str("'");
            let inner = escape_quoted(id.value.as_str(), '\'');
            out.append(inner.as_str());
            out.append("'");
            proof {
                reveal_strlit("'");
            }
            out
        },
        Some(QuoteStyle::Backtick) => {
            let mut out = String::from_str("`");
            let inner = escape_quoted(id.value.as_str(), '`');
            out.append(inner.as_str());
            out.append("`");
            proof {
                reveal_strlit("`");
            }
            out
        },
    }
}

/// The text of a compound identifier: its segments, as written, joined by dots.
pub open spec fn compound_text(idents: Seq<Ident>) -> Seq<char>
    decreases idents.len(),
{
    if idents.len() == 0 {
        Seq::empty()
    } else if idents.len() == 1 {
        ident_text(idents[0])
    } else {
        compound_text(idents.drop_last()) + seq!['.'] + ident_text(idents.last())
    }
}

/// Writes the text of a compound identifier.
pub fn compound_to_string(idents: &Vec<Ident>) -> (r: String)
    ensures
        r@ == compound_text(idents@),
{
    let mut out = String::new();
    let mut i: usize = 0;
    while i < idents.len()
        invariant
            0 <= i <= idents.len(),
            out@ == compound_text(idents@.take(i as int)),
        decreases idents.len() - i,
    {
        proof {
            assert(idents@.take(i as int + 1).drop_last() =~= idents@.take(i as int));
        }
        if i > 0 {
            out.append(".");
            proof {
                reveal_strlit(".");
            }
        }
        let segment = ident_to_string(&idents[i]);
        out.append(segment.as_str());
        i = i + 1;
    }
    proof {
        assert(idents@.take(i as int) =~= idents@);
    }
    out
}

} // verus!
