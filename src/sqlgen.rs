use vstd::prelude::*;
use vstd::string::*;
use crate::ast::{Statement, Expr, Op, texts};
use crate::lexer::{upper_of, uppercase, lead_ws, is_ws_exec};
use crate::text::{
    quote_ident, join, lemma_join_push, float_text, int_text, i64_text, text_of, chars_of,
    slice_of, is_float_text,
};

verus! {

/// What a statement lowers to: SQL text for storage, a line of text to print
/// at once, or nothing at all.
#[derive(Debug, PartialEq, Eq)]
pub enum Lowered {
    Sql(String),
    Literal(String),
    Nothing,
}

/// The view of a `Lowered`: its kind and its text.
pub enum LoweredText {
    Sql(Seq<char>),
    Literal(Seq<char>),
    Nothing,
}

impl View for Lowered {
    type V = LoweredText;

    open spec fn view(&self) -> LoweredText {
        match self {
            Lowered::Sql(s) => LoweredText::Sql(s@),
            Lowered::Literal(s) => LoweredText::Literal(s@),
            Lowered::Nothing => LoweredText::Nothing,
        }
    }
}

pub open spec fn op_symbol(op: Op) -> Seq<char> {
    match op {
        Op::Eq => "="@,
        Op::Neq => "<>"@,
        Op::Lt => "<"@,
        Op::Gt => ">"@,
        Op::Le => "<="@,
        Op::Ge => ">="@,
        Op::And => "AND"@,
        Op::Or => "OR"@,
    }
}

/// The SQL text of an expression.
pub open spec fn expr_sql(e: Expr) -> Seq<char>
    decreases e,
{
    match e {
        Expr::Identifier(s) => quote_ident(s@),
        Expr::String(s) => seq!['\''] + s@ + seq!['\''],
        Expr::Number(n) => int_text(n as int),
        Expr::Float(t) => t@,
        Expr::Group(x) => seq!['('] + expr_sql(*x) + seq![')'],
        Expr::BinOp { left, op, right } => expr_sql(*left) + seq![' '] + op_symbol(op) + seq![' ']
            + expr_sql(*right),
    }
}

/// The ` WHERE ...` suffix of a query, empty without a clause.
pub open spec fn where_sql(w: Option<Expr>) -> Seq<char> {
    match w {
        Some(e) => " WHERE "@ + expr_sql(e),
        None => Seq::empty(),
    }
}

pub open spec fn select_sql(cols: Seq<char>, table: Seq<char>, w: Option<Expr>) -> Seq<char> {
    "SELECT "@ + cols + " FROM "@ + quote_ident(table) + where_sql(w)
}

/// A display field that came from a quoted string.
pub open spec fn is_literal_field(f: Seq<char>) -> bool {
    f.len() > 0 && f[0] == '"' && f.last() == '"'
}

pub open spec fn all_literal(fs: Seq<Seq<char>>) -> bool {
    forall|i: int| 0 <= i < fs.len() ==> is_literal_field(#[trigger] fs[i])
}

pub open spec fn lead_quotes(s: Seq<char>, i: int) -> int
    decreases s.len() - i,
{
    if 0 <= i < s.len() && s[i] == '"' {
        lead_quotes(s, i + 1)
    } else {
        i
    }
}

pub open spec fn trail_quotes(s: Seq<char>, j: int, lo: int) -> int
    decreases j - lo,
{
    if lo < j <= s.len() && s[j - 1] == '"' {
        trail_quotes(s, j - 1, lo)
    } else {
        j
    }
}

/// `s` without the double quotes at either end.
pub open spec fn trim_quotes(s: Seq<char>) -> Seq<char> {
    let a = lead_quotes(s, 0);
    s.subrange(a, trail_quotes(s, s.len() as int, a))
}

/// The line that an all-literal display prints: its fields unquoted, space-separated.
pub open spec fn literal_text(fs: Seq<Seq<char>>) -> Seq<char> {
    join(unquoted(fs), " "@)
}

pub open spec fn unquoted(fs: Seq<Seq<char>>) -> Seq<Seq<char>> {
    fs.map_values(|f: Seq<char>| trim_quotes(f))
}

/// A display field that names a column: neither quoted nor a number.
pub open spec fn is_column_field(f: Seq<char>) -> bool {
    !(f.len() > 0 && f[0] == '"') && !float_text(f)
}

/// The quoted column fields of `fs`, comma-separated.
pub open spec fn column_list(fs: Seq<Seq<char>>) -> Seq<char>
    decreases fs.len(),
{
    if fs.len() == 0 {
        Seq::empty()
    } else {
        let p = column_list(fs.drop_last());
        if !is_column_field(fs.last()) {
            p
        } else if p.len() == 0 {
            quote_ident(fs.last())
        } else {
            p + ", "@ + quote_ident(fs.last())
        }
    }
}

/// The projection of a query: its columns, or `*` where there are none.
pub open spec fn projection(fs: Seq<Seq<char>>) -> Seq<char> {
    if column_list(fs).len() == 0 {
        "*"@
    } else {
        column_list(fs)
    }
}

/// The index of the first `Display` at or after `i`, or the length.
pub open spec fn first_display(body: Seq<Statement>, i: int) -> int
    decreases body.len() - i,
{
    if i < 0 || i >= body.len() {
        body.len() as int
    } else if body[i] is Display {
        i
    } else {
        first_display(body, i + 1)
    }
}

/// What a `Display` with these fields lowers to inside a `ForEach` over `table`.
pub open spec fn display_in_table(fs: Seq<Seq<char>>, table: Seq<char>, w: Option<Expr>) -> LoweredText {
    if fs.len() > 0 && all_literal(fs) {
        LoweredText::Literal(literal_text(fs))
    } else {
        LoweredText::Sql(select_sql(projection(fs), table, w))
    }
}

/// What a statement lowers to.
pub open spec fn lowering(s: Statement) -> LoweredText {
    match s {
        Statement::ForEach { table, where_clause, body } => {
            let d = first_display(body@, 0);
            if d < body@.len() {
                display_in_table(texts(body@[d]->Display_fields@), table@, where_clause)
            } else {
                LoweredText::Sql(select_sql("*"@, table@, where_clause))
            }
        },
        Statement::FindFirst { table, where_clause } => LoweredText::Sql(
            select_sql("*"@, table@, where_clause) + " LIMIT 1"@,
        ),
        Statement::Create { table } => LoweredText::Sql(
            "INSERT INTO "@ + quote_ident(table@) + " DEFAULT VALUES"@,
        ),
        Statement::Delete { table } => LoweredText::Sql("DELETE FROM "@ + quote_ident(table@)),
        Statement::Display { fields } => if all_literal(texts(fields@)) {
            LoweredText::Literal(literal_text(texts(fields@)))
        } else {
            LoweredText::Nothing
        },
    }
}

fn op_sql(op: Op) -> (r: &'static str)
    ensures
        r@ == op_symbol(op),
{
    match op {
        Op::Eq => "=",
        Op::Neq => "<>",
        Op::Lt => "<",
        Op::Gt => ">",
        Op::Le => "<=",
        Op::Ge => ">=",
        Op::And => "AND",
        Op::Or => "OR",
    }
}

fn quoted(s: &str) -> (r: String)
    ensures
        r@ == quote_ident(s@),
{
    proof {
        reveal_strlit("\"");
    }
    let mut r = String::from_str("\"");
    r.append(s);
    r.append("\"");
    r
}

/// Lowers an expression to SQL text.
pub fn expr_to_sql(expr: &Expr) -> (r: Option<String>)
    ensures
        r matches Some(s) && s@ == expr_sql(*expr),
    decreases expr,
{
    proof {
        reveal_strlit("'");
        reveal_strlit("(");
        reveal_strlit(")");
        reveal_strlit(" ");
    }
    match expr {
        Expr::Identifier(s) => Some(quoted(s.as_str())),
        Expr::String(s) => {
            let mut r = String::from_str("'");
            r.append(s.as_str());
            r.append("'");
            Some(r)
        },
        Expr::Number(n) => Some(i64_text(*n)),
        Expr::Float(t) => Some(t.clone()),
        Expr::Group(x) => {
            let inner = expr_to_sql(x)?;
            let mut r = String::from_str("(");
            r.append(inner.as_str());
            r.append(")");
            Some(r)
        },
        Expr::BinOp { left, op, right } => {
            let l = expr_to_sql(left)?;
            let rt = expr_to_sql(right)?;
            let mut r = l;
            r.append(" ");
            r.append(op_sql(*op));
            r.append(" ");
            r.append(rt.as_str());
            Some(r)
        },
    }
}

fn where_part(w: &Option<Expr>) -> (r: String)
    ensures
        r@ == where_sql(*w),
{
    match w {
        Some(e) => {
            let mut r = String::from_str(" WHERE ");
            let x = expr_to_sql(e);
            match x {
                Some(t) => {
                    r.append(t.as_str());
                },
                None => {},
            }
            r
        },
        None => String::new(),
    }
}

fn select_text(cols: &str, table: &String, w: &Option<Expr>) -> (r: String)
    ensures
        r@ == select_sql(cols@, table@, *w),
{
    let mut r = String::from_str("SELECT ");
    r.append(cols);
    r.append(" FROM ");
    let q = quoted(table.as_str());
    r.append(q.as_str());
    let wp = where_part(w);
    r.append(wp.as_str());
    r
}

fn is_literal_field_exec(f: &String) -> (r: bool)
    ensures
        r == is_literal_field(f@),
{
    let v = chars_of(f.as_str());
    v.len() > 0 && v[0] == '"' && v[v.len() - 1] == '"'
}

fn all_literal_exec(fields: &Vec<String>) -> (r: bool)
    ensures
        r == all_literal(texts(fields@)),
{
    let mut i: usize = 0;
    while i < fields.len()
        invariant
            i <= fields@.len(),
            forall|j: int| 0 <= j < i ==> is_literal_field(#[trigger] texts(fields@)[j]),
        decreases fields@.len() - i,
    {
        if !is_literal_field_exec(&fields[i]) {
            assert(!is_literal_field(texts(fields@)[i as int]));
            return false;
        }
        i = i + 1;
    }
    true
}

fn trim_quotes_exec(f: &String) -> (r: String)
    ensures
        r@ == trim_quotes(f@),
{
    let v = chars_of(f.as_str());
    let mut a: usize = 0;
    while a < v.len() && v[a] == '"'
        invariant
            a <= v@.len(),
            lead_quotes(v@, 0) == lead_quotes(v@, a as int),
        decreases v@.len() - a,
    {
        a = a + 1;
    }
    let mut b: usize = v.len();
    while b > a && v[b - 1] == '"'
        invariant
            a <= b <= v@.len(),
            trail_quotes(v@, v@.len() as int, a as int) == trail_quotes(v@, b as int, a as int),
        decreases b - a,
    {
        b = b - 1;
    }
    text_of(&slice_of(&v, a, b))
}

/// The line printed for display fields: each unquoted, joined by single spaces.
pub fn literal_line(fields: &Vec<String>) -> (r: String)
    ensures
        r@ == literal_text(texts(fields@)),
{
    proof {
        reveal_strlit(" ");
    }
    let ghost fs = texts(fields@);
    let mut r = String::new();
    let mut i: usize = 0;
    while i < fields.len()
        invariant
            i <= fields@.len(),
            fs == texts(fields@),
            r@ == join(unquoted(fs.subrange(0, i as int)), " "@),
        decreases fields@.len() - i,
    {
        let t = trim_quotes_exec(&fields[i]);
        proof {
            let p = unquoted(fs.subrange(0, i as int));
            assert(fs[i as int] == fields@[i as int]@);
            assert(unquoted(fs.subrange(0, i + 1)) =~= p.push(t@));
            lemma_join_push(p, " "@, t@);
        }
        if i > 0 {
            r.append(" ");
        }
        r.append(t.as_str());
        i = i + 1;
    }
    assert(fs.subrange(0, fields@.len() as int) == fs);
    r
}

fn is_column_field_exec(f: &String) -> (r: bool)
    ensures
        r == is_column_field(f@),
{
    let v = chars_of(f.as_str());
    !(v.len() > 0 && v[0] == '"') && !is_float_text(&v)
}

/// The projection of a query over these display fields: quoted column names,
/// comma-separated, or `*` where no field names a column.
pub fn projection_text(fields: &Vec<String>) -> (r: String)
    ensures
        r@ == projection(texts(fields@)),
{
    proof {
        reveal_strlit(", ");
        reveal_strlit("*");
    }
    let ghost fs = texts(fields@);
    let mut r = String::new();
    let mut i: usize = 0;
    while i < fields.len()
        invariant
            i <= fields@.len(),
            fs == texts(fields@),
            r@ == column_list(fs.subrange(0, i as int)),
        decreases fields@.len() - i,
    {
        proof {
            assert(fs.subrange(0, i + 1).drop_last() == fs.subrange(0, i as int));
        }
        if is_column_field_exec(&fields[i]) {
            if r.as_str().unicode_len() > 0 {
                r.append(", ");
            }
            let q = quoted(fields[i].as_str());
            r.append(q.as_str());
        }
        i = i + 1;
    }
    assert(fs.subrange(0, fields@.len() as int) == fs);
    if r.as_str().unicode_len() == 0 {
        String::from_str("*")
    } else {
        r
    }
}

/// Lowers one statement to SQL text, to a line to print, or to nothing.
pub fn statement_to_sql(stmt: &Statement) -> (r: Lowered)
    ensures
        r@ == lowering(*stmt),
{
    match stmt {
        Statement::ForEach { table, where_clause, body } => {
            let mut i: usize = 0;
            while i < body.len() && !matches!(body[i], Statement::Display { .. })
                invariant
                    i <= body@.len(),
                    first_display(body@, 0) == first_display(body@, i as int),
                decreases body@.len() - i,
            {
                i = i + 1;
            }
            if i < body.len() {
                match &body[i] {
                    Statement::Display { fields } => {
                        if fields.len() > 0 && all_literal_exec(fields) {
                            Lowered::Literal(literal_line(fields))
                        } else {
                            let cols = projection_text(fields);
                            Lowered::Sql(select_text(cols.as_str(), table, where_clause))
                        }
                    },
                    _ => Lowered::Nothing,
                }
            } else {
                proof {
                    reveal_strlit("*");
                }
                Lowered::Sql(select_text("*", table, where_clause))
            }
        },
        Statement::FindFirst { table, where_clause } => {
            proof {
                reveal_strlit("*");
            }
            let mut r = select_text("*", table, where_clause);
            r.append(" LIMIT 1");
            Lowered::Sql(r)
        },
        Statement::Create { table } => {
            let mut r = String::from_str("INSERT INTO ");
            let q = quoted(table.as_str());
            r.append(q.as_str());
            r.append(" DEFAULT VALUES");
            Lowered::Sql(r)
        },
        Statement::Delete { table } => {
            let mut r = String::from_str("DELETE FROM ");
            let q = quoted(table.as_str());
            r.append(q.as_str());
            Lowered::Sql(r)
        },
        Statement::Display { fields } => {
            if all_literal_exec(fields) {
                Lowered::Literal(literal_line(fields))
            } else {
                Lowered::Nothing
            }
        },
    }
}

/// `s` without its leading whitespace, as `str::trim_start` gives it.
pub open spec fn trim_start_ws(s: Seq<char>) -> Seq<char> {
    s.subrange(lead_ws(s, 0), s.len() as int)
}

/// SQL text that returns rows: after leading whitespace, it begins with
/// `SELECT` in any case.
pub open spec fn query_text(sql: Seq<char>) -> bool {
    let u = upper_of(trim_start_ws(sql));
    u.len() >= 6 && u.subrange(0, 6) == "SELECT"@
}

/// Whether generated SQL is a query (rows come back) rather than an update.
pub fn is_query(sql: &str) -> (r: bool)
    ensures
        r == query_text(sql@),
{
    let v = chars_of(sql);
    let mut a: usize = 0;
    while a < v.len() && is_ws_exec(v[a])
        invariant
            a <= v@.len(),
            lead_ws(v@, 0) == lead_ws(v@, a as int),
        decreases v@.len() - a,
    {
        a = a + 1;
    }
    let rest = text_of(&slice_of(&v, a, v.len()));
    let u = chars_of(uppercase(rest.as_str()).as_str());
    if u.len() < 6 {
        return false;
    }
    let head = text_of(&slice_of(&u, 0, 6));
    head == String::from_str("SELECT")
}

} // verus!
