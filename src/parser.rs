use vstd::prelude::*;
use vstd::string::*;
use crate::ast::{Statement, Expr, Op, texts, ExprView, StmtView, expr_view, opt_expr_view, stmt_view};
use crate::lexer::Token;
use crate::text::{int_text, i64_text};

verus! {

/// The text that a `Display` keeps for a field token.
pub open spec fn field_text(t: Token) -> Seq<char> {
    match t {
        Token::Identifier(s) => s@,
        Token::StringLit(s) => seq!['"'] + s@ + seq!['"'],
        Token::Number(n) => int_text(n as int),
        Token::Float(s) => s@,
        _ => Seq::empty(),
    }
}

pub open spec fn is_field_token(t: Token) -> bool {
    t is Identifier || t is StringLit || t is Number || t is Float
}

/// The field texts of the run of field tokens that starts at `i`.
pub open spec fn field_run(toks: Seq<Token>, i: int) -> Seq<Seq<char>>
    decreases toks.len() - i,
{
    if 0 <= i < toks.len() && is_field_token(toks[i]) {
        seq![field_text(toks[i])] + field_run(toks, i + 1)
    } else {
        Seq::empty()
    }
}

/// The operator that a token stands for, if any.
pub open spec fn op_of(t: Token) -> Option<Op> {
    match t {
        Token::Equals => Some(Op::Eq),
        Token::NotEquals => Some(Op::Neq),
        Token::LessThan => Some(Op::Lt),
        Token::GreaterThan => Some(Op::Gt),
        Token::LessOrEqual => Some(Op::Le),
        Token::GreaterOrEqual => Some(Op::Ge),
        Token::And => Some(Op::And),
        Token::Or => Some(Op::Or),
        _ => None,
    }
}

/// The `END` sentinel that closes a block body.
pub open spec fn is_end(t: Token) -> bool {
    t is Identifier && t->Identifier_0@ == "END"@
}

/// A statement keyword that the top level parses.
pub open spec fn starts_statement(t: Token) -> bool {
    t is ForEach || t is FindFirst || t is Create || t is Delete
}

/// The tokens of a parse: those given, closed by an end marker where they lack one.
pub open spec fn closed_tokens(toks: Seq<Token>) -> Seq<Token> {
    if toks.len() > 0 && toks.last() is Eof {
        toks
    } else {
        toks.push(Token::Eof)
    }
}

/// The text that a `Display` keeps for a field token, or `None` for any other token.
fn field_of(t: &Token) -> (r: Option<String>)
    ensures
        (r is Some) == is_field_token(*t),
        r is Some ==> r->0@ == field_text(*t),
{
    proof {
        reveal_strlit("\"");
    }
    match t {
        Token::Identifier(name) => Some(name.clone()),
        Token::StringLit(s) => {
            let mut q = String::from_str("\"");
            q.append(s.as_str());
            q.append("\"");
            Some(q)
        },
        Token::Number(n) => Some(i64_text(*n)),
        Token::Float(t) => Some(t.clone()),
        _ => None,
    }
}

/// A token that can start a primary expression.
pub open spec fn starts_primary(t: Token) -> bool {
    t is LParen || t is Identifier || t is StringLit || t is Number || t is Float
}

/// The name of the identifier at `i`, fused with `.field` where a dot and an
/// identifier follow it.
pub open spec fn dotted_name(toks: Seq<Token>, i: int) -> Seq<char> {
    if i + 2 < toks.len() && toks[i + 1] is Dot && toks[i + 2] is Identifier {
        toks[i]->Identifier_0@ + "."@ + toks[i + 2]->Identifier_0@
    } else {
        toks[i]->Identifier_0@
    }
}

/// The position after `i`; the last token is never passed.
pub open spec fn nxt(toks: Seq<Token>, i: int) -> int {
    if i + 1 < toks.len() { i + 1 } else { i }
}

/// A primary expression at `i`, and the position after it.
pub open spec fn p_primary(toks: Seq<Token>, i: int) -> (Option<ExprView>, int)
    decreases toks.len() - i, 0int,
{
    if i < 0 || i >= toks.len() {
        (None, i)
    } else {
        match toks[i] {
            Token::LParen => if nxt(toks, i) > i {
                let (e, j) = p_expr(toks, nxt(toks, i));
                match e {
                    None => (None, j),
                    Some(x) => (
                        Some(ExprView::Group(Box::new(x))),
                        if 0 <= j < toks.len() && toks[j] is RParen { nxt(toks, j) } else { j },
                    ),
                }
            } else {
                (None, i)
            },
            Token::Identifier(s) => {
                let j = nxt(toks, i);
                if toks[j] is Dot && j + 1 < toks.len() && toks[j + 1] is Identifier {
                    (
                        Some(ExprView::Identifier(s@ + "."@ + toks[j + 1]->Identifier_0@)),
                        nxt(toks, nxt(toks, j)),
                    )
                } else {
                    (Some(ExprView::Identifier(s@)), j)
                }
            },
            Token::StringLit(s) => (Some(ExprView::Str(s@)), nxt(toks, i)),
            Token::Number(n) => (Some(ExprView::Number(n)), nxt(toks, i)),
            Token::Float(s) => (Some(ExprView::Float(s@)), nxt(toks, i)),
            _ => (None, i),
        }
    }
}

/// Operators and primaries chained to the left onto `left`, from `i` on.
pub open spec fn p_chain(toks: Seq<Token>, i: int, left: ExprView) -> (Option<ExprView>, int)
    decreases toks.len() - i, 2int,
{
    if i < 0 || i >= toks.len() {
        (Some(left), i)
    } else {
        match op_of(toks[i]) {
            None => (Some(left), i),
            Some(op) => if nxt(toks, i) > i {
                let (r, j) = p_primary(toks, nxt(toks, i));
                match r {
                    None => (None, j),
                    Some(x) => if i < j <= toks.len() {
                        p_chain(toks, j, ExprView::BinOp(Box::new(left), op, Box::new(x)))
                    } else {
                        (None, j)
                    },
                }
            } else {
                (None, i)
            },
        }
    }
}

/// An expression at `i`: primaries joined left to right by operators.
pub open spec fn p_expr(toks: Seq<Token>, i: int) -> (Option<ExprView>, int)
    decreases toks.len() - i, 1int,
{
    if i < 0 || i >= toks.len() {
        (None, i)
    } else {
        let (l, j) = p_primary(toks, i);
        match l {
            None => (None, j),
            Some(x) => if i < j <= toks.len() {
                p_chain(toks, j, x)
            } else {
                (None, j)
            },
        }
    }
}

/// The table name after the keyword at `i`, and the position after it; where
/// no identifier follows, the position right after the keyword.
pub open spec fn p_table(toks: Seq<Token>, i: int) -> (Option<Seq<char>>, int) {
    let a = nxt(toks, i);
    if 0 <= a < toks.len() && toks[a] is Identifier {
        (Some(toks[a]->Identifier_0@), nxt(toks, a))
    } else {
        (None, a)
    }
}

/// Where parsing goes on after a statement attempt at `i` that ended at `j`
/// without a statement: at `j` where it consumed its keyword, else one token on.
pub open spec fn resume_at(toks: Seq<Token>, i: int, j: int) -> int {
    if j > i { j } else { nxt(toks, j) }
}

/// `j`, past a `.` where one stands there.
pub open spec fn skip_dot_at(toks: Seq<Token>, j: int) -> int {
    if 0 <= j < toks.len() && toks[j] is Dot { nxt(toks, j) } else { j }
}

/// `j`, past `END` and an optional `.` where they stand there.
pub open spec fn skip_end_at(toks: Seq<Token>, j: int) -> int {
    if 0 <= j < toks.len() && is_end(toks[j]) { skip_dot_at(toks, nxt(toks, j)) } else { j }
}

/// `j`, past a `:` where one stands there.
pub open spec fn skip_colon_at(toks: Seq<Token>, j: int) -> int {
    if 0 <= j < toks.len() && toks[j] is Colon { nxt(toks, j) } else { j }
}

/// The end of the run of field tokens that starts at `i`.
pub open spec fn run_end(toks: Seq<Token>, i: int) -> int
    decreases toks.len() - i,
{
    if 0 <= i < toks.len() && is_field_token(toks[i]) && i + 1 < toks.len() {
        run_end(toks, i + 1)
    } else {
        i
    }
}

/// The first `.` or end marker at or after `i`.
pub open spec fn dot_or_eof(toks: Seq<Token>, i: int) -> int
    decreases toks.len() - i,
{
    if 0 <= i < toks.len() && !(toks[i] is Dot || toks[i] is Eof) && i + 1 < toks.len() {
        dot_or_eof(toks, i + 1)
    } else {
        i
    }
}

pub open spec fn p_display(toks: Seq<Token>, i: int) -> (Option<StmtView>, int) {
    (
        Some(StmtView::Display(field_run(toks, nxt(toks, i)))),
        skip_dot_at(toks, run_end(toks, nxt(toks, i))),
    )
}

pub open spec fn p_create(toks: Seq<Token>, i: int) -> (Option<StmtView>, int) {
    match p_table(toks, i) {
        (None, j) => (None, j),
        (Some(n), j) => (Some(StmtView::Create(n)), skip_dot_at(toks, j)),
    }
}

pub open spec fn p_delete(toks: Seq<Token>, i: int) -> (Option<StmtView>, int) {
    match p_table(toks, i) {
        (None, j) => (None, j),
        (Some(n), j) => (Some(StmtView::Delete(n)), skip_dot_at(toks, j)),
    }
}

/// An optional `WHERE <expr>` at `i`.
pub open spec fn p_where(toks: Seq<Token>, i: int) -> (Option<ExprView>, int)
    decreases toks.len() - i, 3int,
{
    if 0 <= i < toks.len() && toks[i] is Where && nxt(toks, i) > i {
        p_expr(toks, nxt(toks, i))
    } else {
        (None, i)
    }
}

pub open spec fn p_findfirst(toks: Seq<Token>, i: int) -> (Option<StmtView>, int)
    decreases toks.len() - i, 4int,
{
    match p_table(toks, i) {
        (None, j) => (None, j),
        (Some(n), j) => if i <= j <= toks.len() {
            let (w, k) = p_where(toks, j);
            (Some(StmtView::FindFirst(n, w)), skip_end_at(toks, skip_colon_at(toks, k)))
        } else {
            (None, j)
        },
    }
}

pub open spec fn p_foreach(toks: Seq<Token>, i: int) -> (Option<StmtView>, int)
    decreases toks.len() - i, 4int,
{
    match p_table(toks, i) {
        (None, j) => (None, j),
        (Some(n), j) => if i <= j <= toks.len() {
            let (w, k) = p_where(toks, j);
            let k2 = skip_colon_at(toks, k);
            if i < k2 <= toks.len() {
                let (body, m) = p_body(toks, k2);
                (Some(StmtView::ForEach(n, w, body)), skip_end_at(toks, m))
            } else {
                (None, k2)
            }
        } else {
            (None, j)
        },
    }
}

/// The statements of a block body from `i` up to its `END` or the end marker.
pub open spec fn p_body(toks: Seq<Token>, i: int) -> (Seq<StmtView>, int)
    decreases toks.len() - i, 6int,
{
    if i < 0 || i >= toks.len() || is_end(toks[i]) || toks[i] is Eof {
        (Seq::empty(), i)
    } else {
        let (r, j) = p_stmt(toks, i);
        match r {
            Some(st) => if i < j <= toks.len() {
                let (rest, k) = p_body(toks, j);
                (seq![st] + rest, k)
            } else {
                (seq![st], j)
            },
            None => if i < resume_at(toks, i, j) <= toks.len() {
                p_body(toks, resume_at(toks, i, j))
            } else {
                (Seq::empty(), resume_at(toks, i, j))
            },
        }
    }
}

/// The statement that the token at `i` starts, if any.
pub open spec fn p_stmt(toks: Seq<Token>, i: int) -> (Option<StmtView>, int)
    decreases toks.len() - i, 5int,
{
    if i < 0 || i >= toks.len() {
        (None, i)
    } else {
        match toks[i] {
            Token::ForEach => p_foreach(toks, i),
            Token::FindFirst => p_findfirst(toks, i),
            Token::Create => p_create(toks, i),
            Token::Delete => p_delete(toks, i),
            Token::Display => p_display(toks, i),
            _ => (None, i),
        }
    }
}

/// The top-level statements from `i` to the end marker.
pub open spec fn p_statements(toks: Seq<Token>, i: int) -> Seq<StmtView>
    decreases toks.len() - i, 7int,
{
    if i < 0 || i >= toks.len() || toks[i] is Eof {
        Seq::empty()
    } else if starts_statement(toks[i]) {
        let (r, j) = p_stmt(toks, i);
        match r {
            Some(st) => if i < j <= toks.len() {
                seq![st] + p_statements(toks, j)
            } else {
                seq![st]
            },
            None => if i < resume_at(toks, i, j) <= toks.len() {
                p_statements(toks, resume_at(toks, i, j))
            } else {
                Seq::empty()
            },
        }
    } else if toks[i] is Display {
        let j = skip_dot_at(toks, dot_or_eof(toks, nxt(toks, i)));
        if i < j <= toks.len() {
            p_statements(toks, j)
        } else {
            Seq::empty()
        }
    } else if i < nxt(toks, i) {
        p_statements(toks, nxt(toks, i))
    } else {
        Seq::empty()
    }
}

/// What the parser makes of a token sequence, closed by an end marker.
pub open spec fn parse_spec(toks: Seq<Token>) -> Seq<StmtView> {
    p_statements(closed_tokens(toks), 0)
}

pub open spec fn stmt_views(v: Seq<Statement>) -> Seq<StmtView> {
    v.map_values(|s: Statement| stmt_view(s))
}

pub open spec fn opt_stmt_view(r: Option<Statement>) -> Option<StmtView> {
    match r {
        Some(s) => Some(stmt_view(s)),
        None => None,
    }
}

/// Parsing depends on the tokens alone: two parses of equal token sequences give
/// equal statements, and closing a sequence that already ends with its end
/// marker changes nothing.
pub proof fn lemma_parse_depends_on_tokens_only(t1: Seq<Token>, t2: Seq<Token>)
    requires
        t1 == t2,
    ensures
        parse_spec(t1) == parse_spec(t2),
        parse_spec(closed_tokens(t1)) == parse_spec(t1),
{
    assert(closed_tokens(closed_tokens(t1)) == closed_tokens(t1));
}

/// A recursive-descent parser over a token sequence.
pub struct Parser {
    tokens: Vec<Token>,
    pos: usize,
}

impl Parser {
    /// The tokens being parsed.
    pub closed spec fn toks(&self) -> Seq<Token> {
        self.tokens@
    }

    /// The index of the next token.
    pub closed spec fn at(&self) -> int {
        self.pos as int
    }

    /// The tokens end with one end marker, and the position lies on a token.
    pub open spec fn wf(&self) -> bool {
        &&& self.toks().len() > 0
        &&& self.toks().last() is Eof
        &&& 0 <= self.at() < self.toks().len()
    }

    /// The token at the position.
    pub open spec fn cur(&self) -> Token {
        self.toks()[self.at()]
    }

    /// The position after one step; the end marker is never passed.
    pub open spec fn step(&self, i: int) -> int {
        if i + 1 < self.toks().len() { i + 1 } else { i }
    }

    /// A parser at the start of `tokens`, closed by an end marker.
    pub fn new(tokens: Vec<Token>) -> (r: Parser)
        ensures
            r.wf(),
            r.at() == 0,
            r.toks() == closed_tokens(tokens@),
    {
        let mut tokens = tokens;
        let n = tokens.len();
        if n == 0 || !matches!(tokens[n - 1], Token::Eof) {
            tokens.push(Token::Eof);
        }
        Parser { tokens, pos: 0 }
    }

    fn peek(&self) -> (r: &Token)
        requires
            self.wf(),
        ensures
            *r == self.cur(),
    {
        &self.tokens[self.pos]
    }

    fn next(&mut self)
        requires
            old(self).wf(),
        ensures
            final(self).wf(),
            final(self).toks() == old(self).toks(),
            final(self).at() == old(self).step(old(self).at()),
    {
        if self.pos < self.tokens.len() - 1 {
            self.pos = self.pos + 1;
        }
    }

    fn peek_op(&self) -> (r: Option<Op>)
        requires
            self.wf(),
        ensures
            r == op_of(self.cur()),
    {
        match self.peek() {
            Token::Equals => Some(Op::Eq),
            Token::NotEquals => Some(Op::Neq),
            Token::LessThan => Some(Op::Lt),
            Token::GreaterThan => Some(Op::Gt),
            Token::LessOrEqual => Some(Op::Le),
            Token::GreaterOrEqual => Some(Op::Ge),
            Token::And => Some(Op::And),
            Token::Or => Some(Op::Or),
            _ => None,
        }
    }
    /// Whether the token closes a block body.
    fn at_end_sentinel(&self) -> (r: bool)
        requires
            self.wf(),
        ensures
            r == is_end(self.cur()),
    {
        proof {
            reveal_strlit("END");
        }
        match self.peek() {
            Token::Identifier(s) => {
                let end = String::from_str("END");
                *s == end
            },
            _ => false,
        }
    }

    /// Reads the table name after a statement keyword; `None` where it is no identifier.
    fn table_name(&mut self) -> (r: Option<String>)
        requires
            old(self).wf(),
            !(old(self).cur() is Eof),
        ensures
            final(self).wf(),
            final(self).toks() == old(self).toks(),
            final(self).at() == if r is Some { old(self).at() + 2 } else { old(self).at() + 1 },
            old(self).at() + 1 < old(self).toks().len(),
            (r is Some) == (old(self).toks()[old(self).at() + 1] is Identifier),
            r is Some ==> r->0@ == old(self).toks()[old(self).at() + 1]->Identifier_0@,
            (r is Some) == (p_table(old(self).toks(), old(self).at()).0 is Some),
            r is Some ==> r->0@ == p_table(old(self).toks(), old(self).at()).0->0,
            final(self).at() == p_table(old(self).toks(), old(self).at()).1,
    {
        self.next();
        let name = match self.peek() {
            Token::Identifier(name) => name.clone(),
            _ => return None,
        };
        self.next();
        Some(name)
    }

    /// Consumes a `.` where one comes next.
    fn skip_dot(&mut self)
        requires
            old(self).wf(),
        ensures
            final(self).wf(),
            final(self).toks() == old(self).toks(),
            final(self).at() == skip_dot_at(old(self).toks(), old(self).at()),
    {
        if let Token::Dot = self.peek() {
            self.next();
        }
    }

    fn parse_create(&mut self) -> (r: Option<Statement>)
        requires
            old(self).wf(),
            old(self).cur() is Create,
        ensures
            final(self).wf(),
            final(self).toks() == old(self).toks(),
            final(self).at() > old(self).at(),
            (r is Some) == (old(self).toks()[old(self).at() + 1] is Identifier),
            r is Some ==> (r matches Some(Statement::Create { table }) && table@ == old(
                self,
            ).toks()[old(self).at() + 1]->Identifier_0@),
            (opt_stmt_view(r), final(self).at()) == p_create(old(self).toks(), old(self).at()),
    {
        let table = match self.table_name() {
            Some(t) => t,
            None => return None,
        };
        self.skip_dot();
        Some(Statement::Create { table })
    }

    fn parse_delete(&mut self) -> (r: Option<Statement>)
        requires
            old(self).wf(),
            old(self).cur() is Delete,
        ensures
            final(self).wf(),
            final(self).toks() == old(self).toks(),
            final(self).at() > old(self).at(),
            (r is Some) == (old(self).toks()[old(self).at() + 1] is Identifier),
            r is Some ==> (r matches Some(Statement::Delete { table }) && table@ == old(
                self,
            ).toks()[old(self).at() + 1]->Identifier_0@),
            (opt_stmt_view(r), final(self).at()) == p_delete(old(self).toks(), old(self).at()),
    {
        let table = match self.table_name() {
            Some(t) => t,
            None => return None,
        };
        self.skip_dot();
        Some(Statement::Delete { table })
    }

    fn parse_display(&mut self) -> (r: Option<Statement>)
        requires
            old(self).wf(),
            old(self).cur() is Display,
        ensures
            final(self).wf(),
            final(self).toks() == old(self).toks(),
            final(self).at() > old(self).at(),
            r matches Some(Statement::Display { fields }) && texts(fields@) == field_run(
                old(self).toks(),
                old(self).at() + 1,
            ),
            (opt_stmt_view(r), final(self).at()) == p_display(old(self).toks(), old(self).at()),
    {
        proof {
            reveal_strlit("\"");
        }
        let ghost start = self.pos + 1;
        self.next();
        let mut fields: Vec<String> = Vec::new();
        loop
            invariant
                self.wf(),
                self.toks() == old(self).toks(),
                self.at() >= start,
                texts(fields@) + field_run(self.toks(), self.at()) == field_run(self.toks(), start),
                run_end(self.toks(), start) == run_end(self.toks(), self.at()),
            ensures
                !is_field_token(self.cur()),
            decreases self.toks().len() - self.at(),
        {
            let ghost before = self.at();
            let f = match field_of(self.peek()) {
                Some(f) => f,
                None => break,
            };
            proof {
                let toks = self.toks();
                assert(is_field_token(toks[before]));
                assert(field_text(toks[before]) == f@);
                assert(field_run(toks, before) == seq![f@] + field_run(toks, before + 1));
                assert(texts(fields@.push(f)) =~= texts(fields@) + seq![f@]);
                assert(texts(fields@) + seq![f@] + field_run(toks, before + 1) =~= texts(fields@)
                    + field_run(toks, before));
            }
            fields.push(f);
            self.next();
        }
        proof {
            assert(!is_field_token(self.cur()));
            assert(field_run(self.toks(), self.at()) == Seq::<Seq<char>>::empty());
            assert(texts(fields@) =~= texts(fields@) + field_run(self.toks(), self.at()));
        }
        self.skip_dot();
        Some(Statement::Display { fields })
    }
    fn parse_expr(&mut self) -> (r: Option<Expr>)
        requires
            old(self).wf(),
        ensures
            final(self).wf(),
            final(self).toks() == old(self).toks(),
            final(self).at() >= old(self).at(),
            r is Some ==> final(self).at() > old(self).at(),
            !starts_primary(old(self).cur()) ==> r is None && final(self).at() == old(self).at(),
            (opt_expr_view(r), final(self).at()) == p_expr(old(self).toks(), old(self).at()),
        decreases old(self).toks().len() - old(self).at(), 1int,
    {
        let ghost t = self.toks();
        let ghost s0 = self.at();
        let mut left = match self.parse_primary() {
            Some(e) => e,
            None => return None,
        };
        loop
            invariant
                self.wf(),
                self.toks() == old(self).toks(),
                t == old(self).toks(),
                s0 == old(self).at(),
                self.at() > old(self).at(),
                starts_primary(old(self).cur()),
                p_expr(t, s0) == p_chain(t, self.at(), expr_view(left)),
            ensures
                op_of(self.cur()) is None,
            decreases self.toks().len() - self.at(),
        {
            let op = match self.peek_op() {
                Some(op) => op,
                None => break,
            };
            self.next();
            let right = match self.parse_primary() {
                Some(r) => r,
                None => return None,
            };
            left = Expr::BinOp { left: Box::new(left), op, right: Box::new(right) };
        }
        Some(left)
    }

    fn parse_primary(&mut self) -> (r: Option<Expr>)
        requires
            old(self).wf(),
        ensures
            final(self).wf(),
            final(self).toks() == old(self).toks(),
            final(self).at() >= old(self).at(),
            r is Some ==> final(self).at() > old(self).at(),
            !starts_primary(old(self).cur()) ==> r is None && final(self).at() == old(self).at(),
            old(self).cur() is LParen ==> (r is Some ==> r->0 is Group),
            old(self).cur() is Identifier ==> (r matches Some(Expr::Identifier(x)) && x@
                == dotted_name(old(self).toks(), old(self).at())),
            old(self).cur() is StringLit ==> (r matches Some(Expr::String(x)) && x@ == old(
                self,
            ).cur()->StringLit_0@),
            old(self).cur() is Number ==> (r matches Some(Expr::Number(n)) && n == old(
                self,
            ).cur()->Number_0),
            old(self).cur() is Float ==> (r matches Some(Expr::Float(x)) && x@ == old(
                self,
            ).cur()->Float_0@),
            (opt_expr_view(r), final(self).at()) == p_primary(old(self).toks(), old(self).at()),
        decreases old(self).toks().len() - old(self).at(), 0int,
    {
        proof {
            reveal_strlit(".");
        }
        match self.peek() {
            Token::LParen => {
                self.next();
                let expr = self.parse_expr()?;
                if let Token::RParen = self.peek() {
                    self.next();
                }
                Some(Expr::Group(Box::new(expr)))
            },
            Token::Identifier(name) => {
                let mut full_name = name.clone();
                self.next();
                if let Token::Dot = self.peek() {
                    if self.pos < self.tokens.len() - 1 {
                        if let Token::Identifier(field) = &self.tokens[self.pos + 1] {
                            full_name.append(".");
                            full_name.append(field.as_str());
                            self.next();
                            self.next();
                        }
                    }
                }
                Some(Expr::Identifier(full_name))
            },
            Token::StringLit(s) => {
                let s = s.clone();
                self.next();
                Some(Expr::String(s))
            },
            Token::Number(n) => {
                let n = *n;
                self.next();
                Some(Expr::Number(n))
            },
            Token::Float(f) => {
                let f = f.clone();
                self.next();
                Some(Expr::Float(f))
            },
            _ => None,
        }
    }
    /// Reads an optional `WHERE <expr>`; `None` where no keyword comes or the
    /// expression is malformed (the keyword is still consumed).
    fn where_clause(&mut self) -> (r: Option<Expr>)
        requires
            old(self).wf(),
        ensures
            final(self).wf(),
            final(self).toks() == old(self).toks(),
            final(self).at() >= old(self).at(),
            r is Some ==> old(self).cur() is Where,
            !(old(self).cur() is Where) ==> final(self).at() == old(self).at(),
            (opt_expr_view(r), final(self).at()) == p_where(old(self).toks(), old(self).at()),
        decreases old(self).toks().len() - old(self).at(), 2int,
    {
        if let Token::Where = self.peek() {
            self.next();
            self.parse_expr()
        } else {
            None
        }
    }

    /// Consumes `END` and an optional `.` where they come next.
    fn skip_end(&mut self)
        requires
            old(self).wf(),
        ensures
            final(self).wf(),
            final(self).toks() == old(self).toks(),
            final(self).at() >= old(self).at(),
            !is_end(old(self).cur()) ==> final(self).at() == old(self).at(),
            final(self).at() == skip_end_at(old(self).toks(), old(self).at()),
    {
        if self.at_end_sentinel() {
            self.next();
            self.skip_dot();
        }
    }

    fn parse_foreach(&mut self) -> (r: Option<Statement>)
        requires
            old(self).wf(),
            old(self).cur() is ForEach,
        ensures
            final(self).wf(),
            final(self).toks() == old(self).toks(),
            final(self).at() > old(self).at(),
            (opt_stmt_view(r), final(self).at()) == p_foreach(old(self).toks(), old(self).at()),
        decreases old(self).toks().len() - old(self).at(), 3int,
    {
        let ghost t = self.toks();
        let ghost s0 = self.at();
        let table = match self.table_name() {
            Some(t) => t,
            None => return None,
        };
        let ghost j = self.at();
        let where_clause = self.where_clause();
        let ghost k = self.at();
        if let Token::Colon = self.peek() {
            self.next();
        }
        let ghost k2 = self.at();
        let mut body: Vec<Statement> = Vec::new();
        while !self.at_end_sentinel() && !matches!(self.peek(), Token::Eof)
            invariant
                self.wf(),
                self.toks() == old(self).toks(),
                t == old(self).toks(),
                self.at() > old(self).at(),
                s0 < k2 <= self.at(),
                s0 == old(self).at(),
                p_table(t, s0).0 == Some(table@),
                j == p_table(t, s0).1,
                s0 < j <= k2,
                (opt_expr_view(where_clause), k) == p_where(t, j),
                k2 == skip_colon_at(t, k),
                stmt_views(body@) + p_body(t, self.at()).0 == p_body(t, k2).0,
                p_body(t, self.at()).1 == p_body(t, k2).1,
            decreases self.toks().len() - self.at(),
        {
            let ghost i = self.at();
            let ghost bv = stmt_views(body@);
            let before = self.pos;
            match self.parse_statement() {
                Some(st) => {
                    body.push(st);
                    proof {
                        assert(stmt_views(body@) =~= bv.push(stmt_view(st)));
                        assert(bv.push(stmt_view(st)) + p_body(t, self.at()).0 =~= bv + (seq![stmt_view(st)] + p_body(t, self.at()).0));
                    }
                },
                None => if self.pos == before {
                    self.next();
                },
            }
        }
        proof {
            assert(stmt_views(body@) + p_body(t, self.at()).0 =~= stmt_views(body@));
        }
        self.skip_end();

        let ghost bodyv = stmt_views(body@);
        let res = Statement::ForEach { table, where_clause, body };
        proof {
            let sv = stmt_view(res);
            assert(sv->ForEach_2 =~= bodyv);
            assert(sv == StmtView::ForEach(res->ForEach_table@, opt_expr_view(res->ForEach_where_clause), bodyv));
        }
        Some(res)
    }

    fn parse_findfirst(&mut self) -> (r: Option<Statement>)
        requires
            old(self).wf(),
            old(self).cur() is FindFirst,
        ensures
            final(self).wf(),
            final(self).toks() == old(self).toks(),
            final(self).at() > old(self).at(),
            (opt_stmt_view(r), final(self).at()) == p_findfirst(old(self).toks(), old(self).at()),
        decreases old(self).toks().len() - old(self).at(), 3int,
    {
        let table = match self.table_name() {
            Some(t) => t,
            None => return None,
        };
        let where_clause = self.where_clause();
        if let Token::Colon = self.peek() {
            self.next();
        }
        self.skip_end();
        Some(Statement::FindFirst { table, where_clause })
    }

    /// Parses the statement that the next token starts; `None`, consuming
    /// nothing, where no statement starts there.
    fn parse_statement(&mut self) -> (r: Option<Statement>)
        requires
            old(self).wf(),
        ensures
            final(self).wf(),
            final(self).toks() == old(self).toks(),
            starts_statement(old(self).cur()) || old(self).cur() is Display ==> final(self).at()
                > old(self).at(),
            !(starts_statement(old(self).cur()) || old(self).cur() is Display) ==> r is None
                && final(self).at() == old(self).at(),
            (opt_stmt_view(r), final(self).at()) == p_stmt(old(self).toks(), old(self).at()),
        decreases old(self).toks().len() - old(self).at(), 4int,
    {
        match self.peek() {
            Token::ForEach => self.parse_foreach(),
            Token::FindFirst => self.parse_findfirst(),
            Token::Create => self.parse_create(),
            Token::Delete => self.parse_delete(),
            Token::Display => self.parse_display(),
            _ => None,
        }
    }

    /// Parses the whole token sequence into its top-level statements, skipping
    /// tokens that start none and discarding a top-level `DISPLAY` up to its `.`.
    pub fn parse_statements(&mut self) -> (r: Vec<Statement>)
        requires
            old(self).wf(),
        ensures
            final(self).wf(),
            final(self).toks() == old(self).toks(),
            final(self).cur() is Eof,
            stmt_views(r@) == p_statements(old(self).toks(), old(self).at()),
            forall|i: int| 0 <= i < r@.len() ==> !(#[trigger] r@[i] is Display),
    {
        let ghost t = self.toks();
        let ghost s0 = self.at();
        let mut stmts: Vec<Statement> = Vec::new();
        while !matches!(self.peek(), Token::Eof)
            invariant
                self.wf(),
                self.toks() == old(self).toks(),
                t == old(self).toks(),
                s0 == old(self).at(),
                forall|i: int| 0 <= i < stmts@.len() ==> !(#[trigger] stmts@[i] is Display),
                stmt_views(stmts@) + p_statements(t, self.at()) == p_statements(t, s0),
            decreases self.toks().len() - self.at(),
        {
            let ghost start = self.at();
            let ghost sv = stmt_views(stmts@);
            let before = self.pos;
            match self.peek() {
                Token::ForEach | Token::FindFirst | Token::Create | Token::Delete => {
                    match self.parse_statement() {
                        Some(stmt) => {
                            stmts.push(stmt);
                            proof {
                                assert(stmt_views(stmts@) =~= sv.push(stmt_view(stmt)));
                                assert(sv.push(stmt_view(stmt)) + p_statements(t, self.at()) =~= sv + (seq![stmt_view(stmt)] + p_statements(t, self.at())));
                            }
                        },
                        None => if self.pos == before {
                            self.next();
                        },
                    }
                },
                Token::Display => {
                    self.next();
                    let ghost a0 = self.at();
                    while !matches!(self.peek(), Token::Dot | Token::Eof)
                        invariant
                            self.wf(),
                            self.toks() == old(self).toks(),
                            t == old(self).toks(),
                            self.at() > start,
                            dot_or_eof(t, a0) == dot_or_eof(t, self.at()),
                        decreases self.toks().len() - self.at(),
                    {
                        self.next();
                    }
                    self.skip_dot();
                },
                _ => self.next(),
            }
        }
        proof {
            assert(stmt_views(stmts@) + p_statements(t, self.at()) =~= stmt_views(stmts@));
        }
        stmts
    }
}

} // verus!
