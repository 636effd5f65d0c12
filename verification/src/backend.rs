//! Per-dialect constants: placeholder syntax, identifier quoting, and
//! the reserved-word set that forces quoting.

use vstd::prelude::*;

use crate::strutil::{decimal_string, spec_decimal, spec_upper, upper_eq};

pub mod common;
pub mod mysql;
pub mod postgres;

verus! {

/// The SQL dialect that an emitted statement targets.
#[derive(Clone, Copy, PartialEq, Eq, Structural, Debug)]
pub enum Backend {
    MySql,
    Postgres,
}

/// The character a dialect wraps around quoted identifiers.
pub open spec fn spec_quote_char(b: Backend) -> char {
    match b {
        Backend::MySql => '`',
        Backend::Postgres => '"',
    }
}

/// Placeholder text for the value bound at position `i` (counting from
/// zero): `?` for MySQL-style dialects, `$i+1` for PostgreSQL-style ones.
pub open spec fn spec_placeholder(b: Backend, i: int) -> Seq<char> {
    match b {
        Backend::MySql => seq!['?'],
        Backend::Postgres => seq!['$'] + spec_decimal((i + 1) as nat),
    }
}

pub fn quote_char(b: Backend) -> (c: char)
    ensures
        c == spec_quote_char(b),
{
    match b {
        Backend::MySql => '`',
        Backend::Postgres => '"',
    }
}

pub fn placeholder(b: Backend, i: u64) -> (r: String)
    requires
        i < u64::MAX,
    ensures
        r@ == spec_placeholder(b, i as int),
{
    match b {
        Backend::MySql => {
            proof {
                reveal_strlit("?");
            }
            let r = "?".to_owned();
            proof {
                assert(r@ =~= seq!['?']);
            }
            r
        },
        Backend::Postgres => {
            proof {
                reveal_strlit("$");
            }
            let mut r = "$".to_owned();
            let d = decimal_string(i + 1);
            r.append(d.as_str());
            proof {
                assert(r@ =~= seq!['$'] + spec_decimal((i + 1) as nat));
            }
            r
        },
    }
}

/// The dialect's quote character as a one-character string slice.
pub fn quote_str(b: Backend) -> (r: &'static str)
    ensures
        r@ == seq![spec_quote_char(b)],
{
    match b {
        Backend::MySql => {
            proof {
                reveal_strlit("`");
            }
            let r = "`";
            proof {
                assert(r@ =~= seq!['`']);
            }
            r
        },
        Backend::Postgres => {
            proof {
                reveal_strlit("\"");
            }
            let r = "\"";
            proof {
                assert(r@ =~= seq!['"']);
            }
            r
        },
    }
}

/// The words a dialect reserves; identifiers matching one of them
/// (ignoring ASCII case) are always emitted quoted.
pub open spec fn spec_reserved_words(b: Backend) -> Seq<Seq<char>> {
    match b {
        Backend::MySql => Seq::empty(),
        Backend::Postgres => spec_pg_reserved_words(),
    }
}

/// Whether a dialect reserves `s`, compared ignoring ASCII case.
pub open spec fn spec_is_reserved(b: Backend, s: Seq<char>) -> bool {
    spec_reserved_words(b).contains(spec_upper(s))
}

pub open spec fn spec_pg_reserved_words() -> Seq<Seq<char>> {
    seq![
        "ALL"@,
        "ANALYSE"@,
        "ANALYZE"@,
        "AND"@,
        "ANY"@,
        "ARRAY"@,
        "AS"@,
        "ASC"@,
        "ASYMMETRIC"@,
        "AUTHORIZATION"@,
        "BETWEEN"@,
        "BINARY"@,
        "BOTH"@,
        "CASE"@,
        "CAST"@,
        "CHECK"@,
        "COLLATE"@,
        "COLUMN"@,
        "CONSTRAINT"@,
        "CREATE"@,
        "CROSS"@,
        "CURRENT_DATE"@,
        "CURRENT_ROLE"@,
        "CURRENT_TIME"@,
        "CURRENT_TIMESTAMP"@,
        "CURRENT_USER"@,
        "DEFAULT"@,
        "DEFERRABLE"@,
        "DESC"@,
        "DISTINCT"@,
        "DO"@,
        "ELSE"@,
        "END"@,
        "EXCEPT"@,
        "FALSE"@,
        "FETCH"@,
        "FOR"@,
        "FOREIGN"@,
        "FROM"@,
        "FREEZE"@,
        "FULL"@,
        "GRANT"@,
        "GROUP"@,
        "HAVING"@,
        "ILIKE"@,
        "IN"@,
        "INITIALLY"@,
        "INNER"@,
        "INTERSECT"@,
        "INTO"@,
        "IS"@,
        "ISNULL"@,
        "JOIN"@,
        "LATERAL"@,
        "LEADING"@,
        "LEFT"@,
        "LIMIT"@,
        "LIKE"@,
        "LOCALTIME"@,
        "LOCALTIMESTAMP"@,
        "NATURAL"@,
        "NOT"@,
        "NOTNULL"@,
        "NULL"@,
        "OFFSET"@,
        "ON"@,
        "ONLY"@,
        "OR"@,
        "ORDER"@,
        "OUTER"@,
        "OVERLAPS"@,
        "PLACING"@,
        "PRIMARY"@,
        "REFERENCES"@,
        "RETURNING"@,
        "RIGHT"@,
        "SELECT"@,
        "SESSION_USER"@,
        "SIMILAR"@,
        "SOME"@,
        "SYMMETRIC"@,
        "TABLE"@,
        "TABLESAMPLE"@,
        "THEN"@,
        "TO"@,
        "TRAILING"@,
        "TRUE"@,
        "UNION"@,
        "UNIQUE"@,
        "USER"@,
        "USING"@,
        "VARIADIC"@,
        "VERBOSE"@,
        "WHEN"@,
        "WHERE"@,
        "WINDOW"@,
        "WITH"@,
    ]
}

#[verifier::rlimit(60)]
fn pg_reserved_words() -> (v: Vec<String>)
    ensures
        v.deep_view() == spec_pg_reserved_words(),
{
    let mut v: Vec<String> = Vec::new();
    v.push("ALL".to_owned());
    v.push("ANALYSE".to_owned());
    v.push("ANALYZE".to_owned());
    v.push("AND".to_owned());
    v.push("ANY".to_owned());
    v.push("ARRAY".to_owned());
    v.push("AS".to_owned());
    v.push("ASC".to_owned());
    v.push("ASYMMETRIC".to_owned());
    v.push("AUTHORIZATION".to_owned());
    v.push("BETWEEN".to_owned());
    v.push("BINARY".to_owned());
    v.push("BOTH".to_owned());
    v.push("CASE".to_owned());
    v.push("CAST".to_owned());
    v.push("CHECK".to_owned());
    v.push("COLLATE".to_owned());
    v.push("COLUMN".to_owned());
    v.push("CONSTRAINT".to_owned());
    v.push("CREATE".to_owned());
    v.push("CROSS".to_owned());
    v.push("CURRENT_DATE".to_owned());
    v.push("CURRENT_ROLE".to_owned());
    v.push("CURRENT_TIME".to_owned());
    v.push("CURRENT_TIMESTAMP".to_owned());
    v.push("CURRENT_USER".to_owned());
    v.push("DEFAULT".to_owned());
    v.push("DEFERRABLE".to_owned());
    v.push("DESC".to_owned());
    v.push("DISTINCT".to_owned());
    v.push("DO".to_owned());
    v.push("ELSE".to_owned());
    v.push("END".to_owned());
    v.push("EXCEPT".to_owned());
    v.push("FALSE".to_owned());
    v.push("FETCH".to_owned());
    v.push("FOR".to_owned());
    v.push("FOREIGN".to_owned());
    v.push("FROM".to_owned());
    v.push("FREEZE".to_owned());
    v.push("FULL".to_owned());
    v.push("GRANT".to_owned());
    v.push("GROUP".to_owned());
    v.push("HAVING".to_owned());
    v.push("ILIKE".to_owned());
    v.push("IN".to_owned());
    v.push("INITIALLY".to_owned());
    v.push("INNER".to_owned());
    v.push("INTERSECT".to_owned());
    v.push("INTO".to_owned());
    v.push("IS".to_owned());
    v.push("ISNULL".to_owned());
    v.push("JOIN".to_owned());
    v.push("LATERAL".to_owned());
    v.push("LEADING".to_owned());
    v.push("LEFT".to_owned());
    v.push("LIMIT".to_owned());
    v.push("LIKE".to_owned());
    v.push("LOCALTIME".to_owned());
    v.push("LOCALTIMESTAMP".to_owned());
    v.push("NATURAL".to_owned());
    v.push("NOT".to_owned());
    v.push("NOTNULL".to_owned());
    v.push("NULL".to_owned());
    v.push("OFFSET".to_owned());
    v.push("ON".to_owned());
    v.push("ONLY".to_owned());
    v.push("OR".to_owned());
    v.push("ORDER".to_owned());
    v.push("OUTER".to_owned());
    v.push("OVERLAPS".to_owned());
    v.push("PLACING".to_owned());
    v.push("PRIMARY".to_owned());
    v.push("REFERENCES".to_owned());
    v.push("RETURNING".to_owned());
    v.push("RIGHT".to_owned());
    v.push("SELECT".to_owned());
    v.push("SESSION_USER".to_owned());
    v.push("SIMILAR".to_owned());
    v.push("SOME".to_owned());
    v.push("SYMMETRIC".to_owned());
    v.push("TABLE".to_owned());
    v.push("TABLESAMPLE".to_owned());
    v.push("THEN".to_owned());
    v.push("TO".to_owned());
    v.push("TRAILING".to_owned());
    v.push("TRUE".to_owned());
    v.push("UNION".to_owned());
    v.push("UNIQUE".to_owned());
    v.push("USER".to_owned());
    v.push("USING".to_owned());
    v.push("VARIADIC".to_owned());
    v.push("VERBOSE".to_owned());
    v.push("WHEN".to_owned());
    v.push("WHERE".to_owned());
    v.push("WINDOW".to_owned());
    v.push("WITH".to_owned());
    proof {
        assert(v.deep_view() =~= spec_pg_reserved_words());
    }
    v
}

/// Decides whether a dialect reserves the identifier `s`.
pub fn is_reserved(b: Backend, s: &str) -> (r: bool)
    ensures
        r == spec_is_reserved(b, s@),
{
    match b {
        Backend::MySql => {
            proof {
                assert(!spec_reserved_words(Backend::MySql).contains(spec_upper(s@)));
            }
            false
        },
        Backend::Postgres => {
            let words = pg_reserved_words();
            let n = words.len();
            let mut i: usize = 0;
            while i < n
                invariant
                    b is Postgres,
                    i <= n,
                    n == words@.len(),
                    words.deep_view() == spec_pg_reserved_words(),
                    forall|j: int| 0 <= j < i ==> spec_pg_reserved_words()[j] != spec_upper(s@),
                decreases n - i,
            {
                if upper_eq(s, words[i].as_str()) {
                    proof {
                        assert(spec_pg_reserved_words()[i as int] == spec_upper(s@));
                        assert(b is Postgres);
                        assert(spec_reserved_words(b) == spec_pg_reserved_words());
                        assert(spec_reserved_words(b).contains(spec_upper(s@)));
                    }
                    return true;
                }
                proof {
                    assert(spec_pg_reserved_words()[i as int] == words.deep_view()[i as int]);
                }
                i = i + 1;
            }
            proof {
                assert(!spec_pg_reserved_words().contains(spec_upper(s@))) by {
                    assert(forall|j: int|
                        0 <= j < spec_pg_reserved_words().len()
                            ==> spec_pg_reserved_words()[j] != spec_upper(s@));
                }
            }
            false
        },
    }
}

/// Descriptor of the MySQL-style dialect.
pub struct MySqlBackend;

impl MySqlBackend {
    /// The dialect this descriptor stands for.
    pub fn dialect() -> (b: Backend)
        ensures
            b == Backend::MySql,
    {
        Backend::MySql
    }

    pub fn quote() -> (c: char)
        ensures
            c == spec_quote_char(Backend::MySql),
    {
        quote_char(Backend::MySql)
    }
}

/// Descriptor of the PostgreSQL-style dialect.
pub struct PgBackend;

impl PgBackend {
    /// The dialect this descriptor stands for.
    pub fn dialect() -> (b: Backend)
        ensures
            b == Backend::Postgres,
    {
        Backend::Postgres
    }

    pub fn quote() -> (c: char)
        ensures
            c == spec_quote_char(Backend::Postgres),
    {
        quote_char(Backend::Postgres)
    }
}

/// Stateful placeholder generator for the MySQL dialect; every
/// placeholder it yields is `?`.
pub struct MySqlBindings;

impl MySqlBindings {
    pub fn next(&mut self) -> (r: String)
        ensures
            r@ == spec_placeholder(Backend::MySql, 0),
    {
        placeholder(Backend::MySql, 0)
    }
}

impl Default for MySqlBindings {
    fn default() -> MySqlBindings {
        MySqlBindings
    }
}

/// Stateful placeholder generator for the PostgreSQL dialect; it yields
/// `$1`, `$2`, ... in order. The field counts the placeholders already
/// handed out.
pub struct PgBindings(pub u64);

impl PgBindings {
    pub fn next(&mut self) -> (r: String)
        requires
            old(self).0 < u64::MAX,
        ensures
            final(self).0 == old(self).0 + 1,
            r@ == spec_placeholder(Backend::Postgres, old(self).0 as int),
    {
        let r = placeholder(Backend::Postgres, self.0);
        self.0 = self.0 + 1;
        r
    }
}

impl Default for PgBindings {
    fn default() -> (r: PgBindings)
        ensures
            r.0 == 0,
    {
        PgBindings(0)
    }
}

} // verus!
