//! Database configuration, SQL query building and connection-URL masking.
use vstd::prelude::*;
use crate::text::{
    chars_of, decimal, first_occurrence, joined, owned, push_all, push_decimal, push_str, string_of,
    strings_view, vec_find, vec_slice,
};

verus! {

/// A supported database engine.
#[derive(Debug, Clone, Copy, PartialEq, Eq, Hash, Structural)]
pub enum DatabaseType {
    PostgreSQL,
    MySQL,
    SQLite,
}

/// How to reach a database.
#[derive(Debug, Clone)]
pub struct DatabaseConfig {
    /// The engine.
    pub db_type: DatabaseType,
    /// The connection URL.
    pub url: String,
    /// The most connections.
    pub max_connections: u32,
    /// The fewest connections.
    pub min_connections: u32,
    /// Connection timeout, in seconds.
    pub connect_timeout_secs: u64,
    /// Idle timeout, in seconds.
    pub idle_timeout_secs: u64,
    /// Whether to use SSL.
    pub enable_ssl: bool,
}

impl Default for DatabaseConfig {
    /// The default configuration: a local SQLite file.
    fn default() -> (r: Self)
        ensures
            r.db_type == DatabaseType::SQLite,
            r.url@ == "sqlite://./acsa.db"@,
            r.max_connections == 10,
            r.min_connections == 2,
            r.connect_timeout_secs == 30,
            r.idle_timeout_secs == 600,
            !r.enable_ssl,
    {
        DatabaseConfig {
            db_type: DatabaseType::SQLite,
            url: owned("sqlite://./acsa.db"),
            max_connections: 10,
            min_connections: 2,
            connect_timeout_secs: 30,
            idle_timeout_secs: 600,
            enable_ssl: false,
        }
    }
}

/// `url` with the credentials hidden: when it has `://` and an `@`, the text between the
/// end of `://` and the first `@` becomes `***`.
pub open spec fn masked_url(url: Seq<char>) -> Seq<char> {
    match (first_occurrence(url, "://"@), first_occurrence(url, "@"@)) {
        (Some(pos), Some(at)) => url.subrange(0, pos + 3) + "***"@ + url.subrange(at, url.len() as int),
        _ => url,
    }
}

/// Hides the password in a connection URL; see `masked_url`.
pub fn mask_url(url: &str) -> (r: String)
    ensures
        r@ == masked_url(url@),
{
    proof {
        reveal_strlit("://");
        reveal_strlit("@");
    }
    let u = chars_of(url);
    let sep = chars_of("://");
    let at = chars_of("@");
    assert(sep@.len() == 3);
    match vec_find(&u, &sep) {
        Some(pos) => match vec_find(&u, &at) {
            Some(at_pos) => {
                let ulen = u.len();
                assert(pos + 3 <= ulen);
                let mut out = vec_slice(&u, 0, pos + 3);
                push_str(&mut out, "***");
                let tail = vec_slice(&u, at_pos, u.len());
                push_all(&mut out, &tail);
                string_of(&out)
            },
            None => owned(url),
        },
        None => owned(url),
    }
}

/// The parts of a query under construction.
pub struct QueryView {
    pub table: Seq<char>,
    pub select_columns: Seq<Seq<char>>,
    pub where_clauses: Seq<Seq<char>>,
    pub order_by: Seq<Seq<char>>,
    pub limit: Option<nat>,
    pub offset: Option<nat>,
}

/// Builds a `SELECT` statement step by step.
pub struct QueryBuilder {
    table: String,
    select_columns: Vec<String>,
    where_clauses: Vec<String>,
    order_by: Vec<String>,
    limit: Option<u64>,
    offset: Option<u64>,
}

impl View for QueryBuilder {
    type V = QueryView;

    closed spec fn view(&self) -> QueryView {
        QueryView {
            table: self.table@,
            select_columns: strings_view(self.select_columns@),
            where_clauses: strings_view(self.where_clauses@),
            order_by: strings_view(self.order_by@),
            limit: match self.limit {
                Some(l) => Some(l as nat),
                None => None,
            },
            offset: match self.offset {
                Some(o) => Some(o as nat),
                None => None,
            },
        }
    }
}

/// A clause introduced by `keyword` when `parts` is not empty.
pub open spec fn clause(keyword: Seq<char>, parts: Seq<Seq<char>>, sep: Seq<char>) -> Seq<char> {
    if parts.len() == 0 {
        seq![]
    } else {
        keyword + joined(parts, sep)
    }
}

/// A numeric clause introduced by `keyword` when there is a number.
pub open spec fn number_clause(keyword: Seq<char>, n: Option<nat>) -> Seq<char> {
    match n {
        Some(v) => keyword + decimal(v),
        None => seq![],
    }
}

/// The SQL text of a query.
pub open spec fn sql_of(q: QueryView) -> Seq<char> {
    "SELECT "@ + joined(q.select_columns, ", "@) + " FROM "@ + q.table + clause(" WHERE "@, q.where_clauses, " AND "@)
        + clause(" ORDER BY "@, q.order_by, ", "@) + number_clause(" LIMIT "@, q.limit) + number_clause(
        " OFFSET "@,
        q.offset,
    )
}

fn push_clause(out: &mut Vec<char>, keyword: &str, parts: &Vec<String>, sep: &str)
    ensures
        final(out)@ == old(out)@ + clause(keyword@, strings_view(parts@), sep@),
{
    if parts.len() > 0 {
        push_str(out, keyword);
        push_str(out, crate::text::join_strings(parts, sep).as_str());
        assert(out@ =~= old(out)@ + clause(keyword@, strings_view(parts@), sep@));
    } else {
        assert(out@ =~= old(out)@ + clause(keyword@, strings_view(parts@), sep@));
    }
}

impl QueryBuilder {
    /// A query of every column of `table`.
    pub fn new(table: &str) -> (r: Self)
        ensures
            r@ == (QueryView {
                table: table@,
                select_columns: seq!["*"@],
                where_clauses: seq![],
                order_by: seq![],
                limit: None,
                offset: None,
            }),
    {
        let mut cols: Vec<String> = Vec::new();
        cols.push(owned("*"));
        let r = QueryBuilder {
            table: owned(table),
            select_columns: cols,
            where_clauses: Vec::new(),
            order_by: Vec::new(),
            limit: None,
            offset: None,
        };
        assert(r@.select_columns =~= seq!["*"@]);
        assert(r@.where_clauses =~= seq![]);
        assert(r@.order_by =~= seq![]);
        r
    }

    /// Selects exactly `columns`.
    pub fn select(self, columns: Vec<&str>) -> (r: Self)
        ensures
            r@ == (QueryView { select_columns: Seq::new(columns@.len(), |i: int| columns@[i]@), ..self@ }),
    {
        let mut cols: Vec<String> = Vec::new();
        let n = columns.len();
        let mut i: usize = 0;
        while i < n
            invariant
                i <= n,
                n == columns@.len(),
                cols@.len() == i,
                forall|k: int| 0 <= k < i ==> #[trigger] cols@[k]@ == columns@[k]@,
            decreases n - i,
        {
            cols.push(owned(columns[i]));
            i = i + 1;
        }
        assert(strings_view(cols@) =~= Seq::new(columns@.len(), |i: int| columns@[i]@));
        let mut s = self;
        s.select_columns = cols;
        s
    }

    /// Adds a condition; conditions are joined with `AND`.
    pub fn where_clause(self, clause: &str) -> (r: Self)
        ensures
            r@ == (QueryView { where_clauses: self@.where_clauses.push(clause@), ..self@ }),
    {
        let mut s = self;
        s.where_clauses.push(owned(clause));
        assert(s@.where_clauses =~= self@.where_clauses.push(clause@));
        s
    }

    /// Adds an ordering column, descending when `desc`.
    pub fn order_by(self, column: &str, desc: bool) -> (r: Self)
        ensures
            r@ == (QueryView {
                order_by: self@.order_by.push(if desc { column@ + " DESC"@ } else { column@ }),
                ..self@
            }),
    {
        let mut o: Vec<char> = chars_of(column);
        if desc {
            push_str(&mut o, " DESC");
        }
        let mut s = self;
        s.order_by.push(string_of(&o));
        assert(s@.order_by =~= self@.order_by.push(if desc { column@ + " DESC"@ } else { column@ }));
        s
    }

    /// Sets the row limit.
    pub fn limit(self, limit: u64) -> (r: Self)
        ensures
            r@ == (QueryView { limit: Some(limit as nat), ..self@ }),
    {
        let mut s = self;
        s.limit = Some(limit);
        s
    }

    /// Sets the row offset.
    pub fn offset(self, offset: u64) -> (r: Self)
        ensures
            r@ == (QueryView { offset: Some(offset as nat), ..self@ }),
    {
        let mut s = self;
        s.offset = Some(offset);
        s
    }

    /// The SQL text; see `sql_of`.
    pub fn build(&self) -> (r: String)
        ensures
            r@ == sql_of(self@),
    {
        let mut sql: Vec<char> = Vec::new();
        push_str(&mut sql, "SELECT ");
        push_str(&mut sql, crate::text::join_strings(&self.select_columns, ", ").as_str());
        push_str(&mut sql, " FROM ");
        push_str(&mut sql, self.table.as_str());
        push_clause(&mut sql, " WHERE ", &self.where_clauses, " AND ");
        push_clause(&mut sql, " ORDER BY ", &self.order_by, ", ");
        match self.limit {
            Some(l) => {
                push_str(&mut sql, " LIMIT ");
                push_decimal(&mut sql, l);
            },
            None => {},
        }
        match self.offset {
            Some(o) => {
                push_str(&mut sql, " OFFSET ");
                push_decimal(&mut sql, o);
            },
            None => {},
        }
        assert(sql@ =~= sql_of(self@));
        string_of(&sql)
    }
}

} // verus!
