use vstd::prelude::*;
use vstd::string::*;
use crate::text::{parse_i64, float_text, parse_int, is_float_text, text_of, chars_of, slice_of};

verus! {

/// One lexical unit of a script. A floating-point literal keeps the text it
/// was written with.
#[derive(Debug, Clone, PartialEq)]
pub enum Token {
    ForEach,
    FindFirst,
    Where,
    Create,
    Delete,
    Display,
    Identifier(String),
    StringLit(String),
    Number(i64),
    Equals,
    NotEquals,
    LessThan,
    GreaterThan,
    LessOrEqual,
    GreaterOrEqual,
    And,
    Or,
    Dot,
    Colon,
    LParen,
    RParen,
    Float(String),
    Eof,
}

/// A token with its texts as character sequences.
pub enum TokenView {
    ForEach,
    FindFirst,
    Where,
    Create,
    Delete,
    Display,
    Identifier(Seq<char>),
    StringLit(Seq<char>),
    Number(i64),
    Equals,
    NotEquals,
    LessThan,
    GreaterThan,
    LessOrEqual,
    GreaterOrEqual,
    And,
    Or,
    Dot,
    Colon,
    LParen,
    RParen,
    Float(Seq<char>),
    Eof,
}

impl View for Token {
    type V = TokenView;

    open spec fn view(&self) -> TokenView {
        match self {
            Token::ForEach => TokenView::ForEach,
            Token::FindFirst => TokenView::FindFirst,
            Token::Where => TokenView::Where,
            Token::Create => TokenView::Create,
            Token::Delete => TokenView::Delete,
            Token::Display => TokenView::Display,
            Token::Identifier(s) => TokenView::Identifier(s@),
            Token::StringLit(s) => TokenView::StringLit(s@),
            Token::Number(n) => TokenView::Number(*n),
            Token::Equals => TokenView::Equals,
            Token::NotEquals => TokenView::NotEquals,
            Token::LessThan => TokenView::LessThan,
            Token::GreaterThan => TokenView::GreaterThan,
            Token::LessOrEqual => TokenView::LessOrEqual,
            Token::GreaterOrEqual => TokenView::GreaterOrEqual,
            Token::And => TokenView::And,
            Token::Or => TokenView::Or,
            Token::Dot => TokenView::Dot,
            Token::Colon => TokenView::Colon,
            Token::LParen => TokenView::LParen,
            Token::RParen => TokenView::RParen,
            Token::Float(s) => TokenView::Float(s@),
            Token::Eof => TokenView::Eof,
        }
    }
}

/// What Rust's `str::to_uppercase` returns for a text.
pub uninterp spec fn upper_of(s: Seq<char>) -> Seq<char>;

/// Relies on `str::to_uppercase`: the result depends on the characters alone.
#[verifier::external_body]
pub(crate) fn uppercase(s: &str) -> (r: String)
    ensures
        r@ == upper_of(s@),
{
    s.to_uppercase()
}

/// The characters that `char::is_whitespace` accepts (Unicode `White_Space`).
pub open spec fn is_ws(c: char) -> bool {
    ('\t' <= c && c <= '\r') || c == ' ' || c == '\u{85}' || c == '\u{a0}' || c == '\u{1680}'
        || ('\u{2000}' <= c && c <= '\u{200a}') || c == '\u{2028}' || c == '\u{2029}' || c
        == '\u{202f}' || c == '\u{205f}' || c == '\u{3000}'
}

pub open spec fn lead_ws(s: Seq<char>, i: int) -> int
    decreases s.len() - i,
{
    if 0 <= i < s.len() && is_ws(s[i]) {
        lead_ws(s, i + 1)
    } else {
        i
    }
}

pub open spec fn trail_ws(s: Seq<char>, j: int, lo: int) -> int
    decreases j - lo,
{
    if lo < j <= s.len() && is_ws(s[j - 1]) {
        trail_ws(s, j - 1, lo)
    } else {
        j
    }
}

/// `s` without whitespace at either end, as `str::trim` gives it.
pub open spec fn trim_ws(s: Seq<char>) -> Seq<char> {
    let a = lead_ws(s, 0);
    s.subrange(a, trail_ws(s, s.len() as int, a))
}

/// The keyword token of an uppercased word; `b` is the buffer it was trimmed from.
pub open spec fn keyword_of(u: Seq<char>, b: Seq<char>) -> Option<Token> {
    if u == "FOR EACH"@ {
        Some(Token::ForEach)
    } else if u == "FIND FIRST"@ {
        Some(Token::FindFirst)
    } else if u == "FIRST"@ && b.len() >= 5 && b.subrange(0, 5) == "FIND "@ {
        Some(Token::FindFirst)
    } else if u == "WHERE"@ {
        Some(Token::Where)
    } else if u == "DISPLAY"@ {
        Some(Token::Display)
    } else if u == "CREATE"@ {
        Some(Token::Create)
    } else if u == "DELETE"@ {
        Some(Token::Delete)
    } else if u == "AND"@ {
        Some(Token::And)
    } else if u == "OR"@ {
        Some(Token::Or)
    } else if u == "EQ"@ {
        Some(Token::Equals)
    } else if u == "NE"@ {
        Some(Token::NotEquals)
    } else if u == "LT"@ {
        Some(Token::LessThan)
    } else if u == "GT"@ {
        Some(Token::GreaterThan)
    } else if u == "LE"@ {
        Some(Token::LessOrEqual)
    } else if u == "GE"@ {
        Some(Token::GreaterOrEqual)
    } else {
        None
    }
}

/// The token of the trimmed word `w` of the text `b` it was trimmed from: a
/// keyword, else an integer, else a float, else an identifier.
pub open spec fn word_view(w: Seq<char>, b: Seq<char>) -> TokenView {
    match keyword_of(upper_of(w), b) {
        Some(k) => k@,
        None => match parse_i64(w) {
            Some(n) => TokenView::Number(n),
            None => if float_text(w) {
                TokenView::Float(w)
            } else {
                TokenView::Identifier(w)
            },
        },
    }
}

/// The views of a sequence of tokens.
pub open spec fn views(ts: Seq<Token>) -> Seq<TokenView> {
    ts.map_values(|t: Token| t@)
}

pub open spec fn no_eof(ts: Seq<Token>) -> bool {
    forall|j: int| 0 <= j < ts.len() ==> !(#[trigger] ts[j] is Eof)
}

fn same_text(s: &String, lit: &str) -> (r: bool)
    ensures
        r == (s@ == lit@),
{
    *s == String::from_str(lit)
}

fn keyword_exec(u: &String, b: &Vec<char>) -> (r: Option<Token>)
    ensures
        r == keyword_of(u@, b@),
{
    if same_text(u, "FOR EACH") {
        Some(Token::ForEach)
    } else if same_text(u, "FIND FIRST") {
        Some(Token::FindFirst)
    } else if same_text(u, "FIRST") && b.len() >= 5 && same_text(&text_of(&slice_of(b, 0, 5)), "FIND ") {
        Some(Token::FindFirst)
    } else if same_text(u, "WHERE") {
        Some(Token::Where)
    } else if same_text(u, "DISPLAY") {
        Some(Token::Display)
    } else if same_text(u, "CREATE") {
        Some(Token::Create)
    } else if same_text(u, "DELETE") {
        Some(Token::Delete)
    } else if same_text(u, "AND") {
        Some(Token::And)
    } else if same_text(u, "OR") {
        Some(Token::Or)
    } else if same_text(u, "EQ") {
        Some(Token::Equals)
    } else if same_text(u, "NE") {
        Some(Token::NotEquals)
    } else if same_text(u, "LT") {
        Some(Token::LessThan)
    } else if same_text(u, "GT") {
        Some(Token::GreaterThan)
    } else if same_text(u, "LE") {
        Some(Token::LessOrEqual)
    } else if same_text(u, "GE") {
        Some(Token::GreaterOrEqual)
    } else {
        None
    }
}

pub(crate) fn is_ws_exec(c: char) -> (r: bool)
    ensures
        r == is_ws(c),
{
    ('\t' <= c && c <= '\r') || c == ' ' || c == '\u{85}' || c == '\u{a0}' || c == '\u{1680}'
        || ('\u{2000}' <= c && c <= '\u{200a}') || c == '\u{2028}' || c == '\u{2029}' || c
        == '\u{202f}' || c == '\u{205f}' || c == '\u{3000}'
}

pub(crate) fn trim_exec(v: &Vec<char>) -> (r: Vec<char>)
    ensures
        r@ == trim_ws(v@),
{
    let mut a: usize = 0;
    while a < v.len() && is_ws_exec(v[a])
        invariant
            a <= v@.len(),
            lead_ws(v@, 0) == lead_ws(v@, a as int),
        decreases v@.len() - a,
    {
        a = a + 1;
    }
    let mut b: usize = v.len();
    while b > a && is_ws_exec(v[b - 1])
        invariant
            a <= b <= v@.len(),
            trail_ws(v@, v@.len() as int, a as int) == trail_ws(v@, b as int, a as int),
        decreases b - a,
    {
        b = b - 1;
    }
    slice_of(v, a, b)
}

/// The state after a flush: tokens, the pending first word of a two-word
/// keyword (`"FOR "`, `"FIND "` or empty), and the word being read.
pub open spec fn flush_spec(ts: Seq<TokenView>, pre: Seq<char>, raw: Seq<char>) -> (Seq<TokenView>, Seq<char>, Seq<char>) {
    if trim_ws(raw).len() == 0 {
        (ts, pre, Seq::empty())
    } else {
        let b = pre + raw;
        let w = trim_ws(b);
        let u = upper_of(w);
        if u == "FOR"@ {
            (ts, "FOR "@, Seq::empty())
        } else if u == "FIND"@ {
            (ts, "FIND "@, Seq::empty())
        } else {
            (ts.push(word_view(w, b)), Seq::empty(), Seq::empty())
        }
    }
}

/// Where the tokenizer stands: between tokens, inside a comment, or inside a
/// literal opened by the quote character, with the text read so far.
pub enum LexMode {
    Normal,
    Comment,
    Quote(char, Seq<char>),
}

pub open spec fn is_separator(c: char) -> bool {
    c == ' ' || c == '\n' || c == '\r' || c == '\t' || c == ','
}

pub open spec fn is_op_char(c: char) -> bool {
    c == '.' || c == ':' || c == '=' || c == '<' || c == '>'
}

/// The operator or punctuation token that `c` starts, given the character after
/// it, and how many characters it takes.
pub open spec fn op_view(c: char, nx: Option<char>) -> (TokenView, int) {
    if c == '<' && nx == Some('>') {
        (TokenView::NotEquals, 2)
    } else if c == '<' && nx == Some('=') {
        (TokenView::LessOrEqual, 2)
    } else if c == '>' && nx == Some('=') {
        (TokenView::GreaterOrEqual, 2)
    } else if c == '.' {
        (TokenView::Dot, 1)
    } else if c == ':' {
        (TokenView::Colon, 1)
    } else if c == '=' {
        (TokenView::Equals, 1)
    } else if c == '<' {
        (TokenView::LessThan, 1)
    } else {
        (TokenView::GreaterThan, 1)
    }
}

/// The tokens at the end of the input: an open literal is kept, the word is
/// flushed, and one end marker follows.
pub open spec fn finish(m: LexMode, ts: Seq<TokenView>, pre: Seq<char>, raw: Seq<char>) -> Seq<TokenView> {
    let ts2 = match m {
        LexMode::Quote(_, lit) => ts.push(TokenView::StringLit(lit)),
        _ => ts,
    };
    flush_spec(ts2, pre, raw).0.push(TokenView::Eof)
}

/// The tokens of `cs` from index `i` on, in mode `m`, after tokens `ts`, with
/// pending prefix `pre` and word `raw`.
pub open spec fn lex_from(cs: Seq<char>, i: int, m: LexMode, ts: Seq<TokenView>, pre: Seq<char>, raw: Seq<char>) -> Seq<TokenView>
    decreases cs.len() - i,
{
    if i < 0 || i >= cs.len() {
        finish(m, ts, pre, raw)
    } else {
        let c = cs[i];
        match m {
            LexMode::Comment => if c == '*' && i + 1 < cs.len() && cs[i + 1] == '/' {
                lex_from(cs, i + 2, LexMode::Normal, ts, pre, raw)
            } else {
                lex_from(cs, i + 1, LexMode::Comment, ts, pre, raw)
            },
            LexMode::Quote(q, lit) => if c == q {
                lex_from(cs, i + 1, LexMode::Normal, ts.push(TokenView::StringLit(lit)), pre, raw)
            } else {
                lex_from(cs, i + 1, LexMode::Quote(q, lit.push(c)), ts, pre, raw)
            },
            LexMode::Normal => {
                let f = flush_spec(ts, pre, raw);
                if c == '/' {
                    if i + 1 < cs.len() && cs[i + 1] == '*' {
                        lex_from(cs, i + 2, LexMode::Comment, f.0, f.1, f.2)
                    } else {
                        lex_from(cs, i + 1, LexMode::Normal, f.0, f.1, f.2.push('/'))
                    }
                } else if c == '(' {
                    lex_from(cs, i + 1, LexMode::Normal, f.0.push(TokenView::LParen), f.1, f.2)
                } else if c == ')' {
                    lex_from(cs, i + 1, LexMode::Normal, f.0.push(TokenView::RParen), f.1, f.2)
                } else if is_separator(c) {
                    lex_from(cs, i + 1, LexMode::Normal, f.0, f.1, f.2)
                } else if is_op_char(c) {
                    let nx = if i + 1 < cs.len() { Some(cs[i + 1]) } else { None };
                    let o = op_view(c, nx);
                    lex_from(cs, i + o.1, LexMode::Normal, f.0.push(o.0), f.1, f.2)
                } else if c == '"' || c == '\'' {
                    lex_from(cs, i + 1, LexMode::Quote(c, Seq::empty()), f.0, f.1, f.2)
                } else {
                    lex_from(cs, i + 1, LexMode::Normal, ts, pre, raw.push(c))
                }
            },
        }
    }
}

/// The tokens of a whole text.
pub open spec fn lex_spec(cs: Seq<char>) -> Seq<TokenView> {
    lex_from(cs, 0, LexMode::Normal, Seq::empty(), Seq::empty(), Seq::empty())
}

/// Turns the word being read into a token. A word that trims to nothing is
/// dropped; `FOR` and `FIND` become the pending prefix that waits for the next word.
fn push_token_from_buf(tokens: &mut Vec<Token>, pre: &mut Vec<char>, buf: &mut Vec<char>)
    ensures
        (views(final(tokens)@), final(pre)@, final(buf)@) == flush_spec(views(old(tokens)@), old(pre)@, old(buf)@),
        no_eof(old(tokens)@) ==> no_eof(final(tokens)@),
{
    let rv = trim_exec(buf);
    if rv.len() == 0 {
        *buf = Vec::new();
        return;
    }
    let mut b = pre.clone();
    b.append(buf);
    let wv = trim_exec(&b);
    let word = text_of(&wv);
    let upper = uppercase(word.as_str());
    if same_text(&upper, "FOR") {
        *pre = chars_of("FOR ");
        *buf = Vec::new();
        return;
    }
    if same_text(&upper, "FIND") {
        *pre = chars_of("FIND ");
        *buf = Vec::new();
        return;
    }
    let t = match keyword_exec(&upper, &b) {
        Some(k) => k,
        None => match parse_int(word.as_str()) {
            Some(n) => Token::Number(n),
            None => if is_float_text(&wv) {
                Token::Float(word)
            } else {
                Token::Identifier(word)
            },
        },
    };
    let ghost ot = tokens@;
    tokens.push(t);
    proof {
        assert(views(tokens@) =~= views(ot).push(t@));
        assert forall|j: int| no_eof(ot) && 0 <= j < tokens@.len() implies !(#[trigger] tokens@[j] is Eof) by {
            if j < ot.len() {
                assert(tokens@[j] == ot[j]);
            }
        }
    }
    *pre = Vec::new();
    *buf = Vec::new();
}

fn push_tok(tokens: &mut Vec<Token>, t: Token)
    requires
        no_eof(old(tokens)@),
        !(t is Eof),
    ensures
        no_eof(final(tokens)@),
        final(tokens)@ == old(tokens)@.push(t),
        views(final(tokens)@) == views(old(tokens)@).push(t@),
{
    tokens.push(t);
    assert(views(tokens@) =~= views(old(tokens)@).push(t@));
}

fn op_token(c: char, nx: Option<char>) -> (r: (Token, usize))
    ensures
        r.0@ == op_view(c, nx).0,
        r.1 == op_view(c, nx).1,
        !(r.0 is Eof),
{
    if c == '<' && nx == Some('>') {
        (Token::NotEquals, 2)
    } else if c == '<' && nx == Some('=') {
        (Token::LessOrEqual, 2)
    } else if c == '>' && nx == Some('=') {
        (Token::GreaterOrEqual, 2)
    } else if c == '.' {
        (Token::Dot, 1)
    } else if c == ':' {
        (Token::Colon, 1)
    } else if c == '=' {
        (Token::Equals, 1)
    } else if c == '<' {
        (Token::LessThan, 1)
    } else {
        (Token::GreaterThan, 1)
    }
}

/// Tokenizes a script. Never fails: unknown characters join the word being
/// read, and an unterminated comment or quoted literal runs to the end of the input.
pub fn lex(source: &str) -> (r: Vec<Token>)
    ensures
        views(r@) == lex_spec(source@),
        r@.len() >= 1,
        r@.last() is Eof,
        no_eof(r@.drop_last()),
{
    let chars = chars_of(source);
    let ghost cs = chars@;
    let n = chars.len();
    let mut tokens: Vec<Token> = Vec::new();
    let mut pre: Vec<char> = Vec::new();
    let mut buf: Vec<char> = Vec::new();
    let mut i: usize = 0;
    proof {
        assert(views(tokens@) =~= Seq::<TokenView>::empty());
    }
    while i < n
        invariant
            cs == chars@,
            n == cs.len(),
            i <= n,
            no_eof(tokens@),
            lex_spec(cs) == lex_from(cs, i as int, LexMode::Normal, views(tokens@), pre@, buf@),
        decreases n - i,
    {
        let c = chars[i];
        if c == '/' {
            push_token_from_buf(&mut tokens, &mut pre, &mut buf);
            if i + 1 < n && chars[i + 1] == '*' {
                i = i + 2;
                let ghost start = i;
                while i < n && !(chars[i] == '*' && i + 1 < n && chars[i + 1] == '/')
                    invariant
                        cs == chars@,
                        n == cs.len(),
                        start <= i <= n,
                        lex_spec(cs) == lex_from(cs, i as int, LexMode::Comment, views(tokens@), pre@, buf@),
                    decreases n - i,
                {
                    i = i + 1;
                }
                if i < n {
                    i = i + 2;
                }
            } else {
                buf.push('/');
                i = i + 1;
            }
        } else if c == '(' || c == ')' {
            push_token_from_buf(&mut tokens, &mut pre, &mut buf);
            push_tok(&mut tokens, if c == '(' { Token::LParen } else { Token::RParen });
            i = i + 1;
        } else if c == ' ' || c == '\n' || c == '\r' || c == '\t' || c == ',' {
            push_token_from_buf(&mut tokens, &mut pre, &mut buf);
            i = i + 1;
        } else if c == '.' || c == ':' || c == '=' || c == '<' || c == '>' {
            push_token_from_buf(&mut tokens, &mut pre, &mut buf);
            let nx: Option<char> = if i + 1 < n { Some(chars[i + 1]) } else { None };
            let (t, w) = op_token(c, nx);
            push_tok(&mut tokens, t);
            i = i + w;
        } else if c == '"' || c == '\'' {
            push_token_from_buf(&mut tokens, &mut pre, &mut buf);
            i = i + 1;
            let mut lit: Vec<char> = Vec::new();
            let ghost start = i;
            while i < n && chars[i] != c
                invariant
                    cs == chars@,
                    n == cs.len(),
                    start <= i <= n,
                    c == '"' || c == '\'',
                    lex_spec(cs) == lex_from(cs, i as int, LexMode::Quote(c, lit@), views(tokens@), pre@, buf@),
                decreases n - i,
            {
                lit.push(chars[i]);
                i = i + 1;
            }
            push_tok(&mut tokens, Token::StringLit(text_of(&lit)));
            if i < n {
                i = i + 1;
            }
        } else {
            buf.push(c);
            i = i + 1;
        }
    }
    push_token_from_buf(&mut tokens, &mut pre, &mut buf);
    let ghost before = tokens@;
    tokens.push(Token::Eof);
    proof {
        assert(tokens@.drop_last() =~= before);
        assert(views(tokens@) =~= views(before).push(TokenView::Eof));
    }
    tokens
}

/// Whitespace that separates words.
pub open spec fn is_blank(c: char) -> bool {
    c == ' ' || c == '\n' || c == '\r' || c == '\t'
}

/// A mode that a run of the tokenizer can be in.
pub open spec fn mode_ok(m: LexMode) -> bool {
    m matches LexMode::Quote(q, _) ==> (q == '"' || q == '\'')
}

proof fn lemma_flush_settles(ts: Seq<TokenView>, pre: Seq<char>, raw: Seq<char>)
    ensures
        ({
            let f = flush_spec(ts, pre, raw);
            flush_spec(f.0, f.1, f.2) == f
        }),
{
    let f = flush_spec(ts, pre, raw);
    assert(f.2 =~= Seq::<char>::empty());
    assert(trim_ws(f.2) =~= Seq::<char>::empty());
}

proof fn lemma_flush_count(t1: Seq<TokenView>, t2: Seq<TokenView>, pre: Seq<char>, raw: Seq<char>)
    requires
        t1.len() == t2.len(),
    ensures
        flush_spec(t1, pre, raw).0.len() == flush_spec(t2, pre, raw).0.len(),
{
}

proof fn lemma_blank_tail(
    s: Seq<char>,
    ws: Seq<char>,
    k: int,
    m: LexMode,
    ts: Seq<TokenView>,
    pre: Seq<char>,
    raw: Seq<char>,
)
    requires
        forall|j: int| 0 <= j < ws.len() ==> is_blank(#[trigger] ws[j]),
        s.len() <= k <= s.len() + ws.len(),
        mode_ok(m),
    ensures
        lex_from(s + ws, k, m, ts, pre, raw).len() == finish(m, ts, pre, raw).len(),
    decreases s.len() + ws.len() - k,
{
    let cs = s + ws;
    if k < cs.len() {
        let c = cs[k];
        assert(c == ws[k - s.len()]);
        assert(is_blank(c));
        match m {
            LexMode::Normal => {
                let f = flush_spec(ts, pre, raw);
                lemma_blank_tail(s, ws, k + 1, LexMode::Normal, f.0, f.1, f.2);
                lemma_flush_settles(ts, pre, raw);
            },
            LexMode::Comment => {
                lemma_blank_tail(s, ws, k + 1, LexMode::Comment, ts, pre, raw);
            },
            LexMode::Quote(q, lit) => {
                lemma_blank_tail(s, ws, k + 1, LexMode::Quote(q, lit.push(c)), ts, pre, raw);
                lemma_flush_count(
                    ts.push(TokenView::StringLit(lit.push(c))),
                    ts.push(TokenView::StringLit(lit)),
                    pre,
                    raw,
                );
            },
        }
    }
}

proof fn lemma_blank_suffix(
    s: Seq<char>,
    ws: Seq<char>,
    i: int,
    m: LexMode,
    ts: Seq<TokenView>,
    pre: Seq<char>,
    raw: Seq<char>,
)
    requires
        forall|j: int| 0 <= j < ws.len() ==> is_blank(#[trigger] ws[j]),
        0 <= i <= s.len(),
        mode_ok(m),
    ensures
        lex_from(s + ws, i, m, ts, pre, raw).len() == lex_from(s, i, m, ts, pre, raw).len(),
    decreases s.len() - i,
{
    let cs = s + ws;
    if i == s.len() {
        lemma_blank_tail(s, ws, i, m, ts, pre, raw);
    } else {
        let c = s[i];
        assert(cs[i] == c);
        if i + 1 < s.len() {
            assert(cs[i + 1] == s[i + 1]);
        } else if i + 1 < cs.len() {
            assert(cs[i + 1] == ws[0]);
            assert(is_blank(ws[0]));
        }
        match m {
            LexMode::Comment => if c == '*' && i + 1 < s.len() && s[i + 1] == '/' {
                lemma_blank_suffix(s, ws, i + 2, LexMode::Normal, ts, pre, raw);
            } else {
                lemma_blank_suffix(s, ws, i + 1, LexMode::Comment, ts, pre, raw);
            },
            LexMode::Quote(q, lit) => if c == q {
                lemma_blank_suffix(s, ws, i + 1, LexMode::Normal, ts.push(TokenView::StringLit(lit)), pre, raw);
            } else {
                lemma_blank_suffix(s, ws, i + 1, LexMode::Quote(q, lit.push(c)), ts, pre, raw);
            },
            LexMode::Normal => {
                let f = flush_spec(ts, pre, raw);
                if c == '/' {
                    if i + 1 < s.len() && s[i + 1] == '*' {
                        lemma_blank_suffix(s, ws, i + 2, LexMode::Comment, f.0, f.1, f.2);
                    } else {
                        lemma_blank_suffix(s, ws, i + 1, LexMode::Normal, f.0, f.1, f.2.push('/'));
                    }
                } else if c == '(' {
                    lemma_blank_suffix(s, ws, i + 1, LexMode::Normal, f.0.push(TokenView::LParen), f.1, f.2);
                } else if c == ')' {
                    lemma_blank_suffix(s, ws, i + 1, LexMode::Normal, f.0.push(TokenView::RParen), f.1, f.2);
                } else if is_separator(c) {
                    lemma_blank_suffix(s, ws, i + 1, LexMode::Normal, f.0, f.1, f.2);
                } else if is_op_char(c) {
                    let nx = if i + 1 < s.len() { Some(s[i + 1]) } else { None };
                    let o = op_view(c, nx);
                    lemma_blank_suffix(s, ws, i + o.1, LexMode::Normal, f.0.push(o.0), f.1, f.2);
                } else if c == '"' || c == '\'' {
                    lemma_blank_suffix(s, ws, i + 1, LexMode::Quote(c, Seq::empty()), f.0, f.1, f.2);
                } else {
                    lemma_blank_suffix(s, ws, i + 1, LexMode::Normal, ts, pre, raw.push(c));
                }
            },
        }
    }
}

/// Blank characters (space, tab, newline, carriage return) at the end of a
/// text do not change how many tokens it has.
pub proof fn lemma_trailing_blanks_keep_count(s: Seq<char>, ws: Seq<char>)
    requires
        forall|j: int| 0 <= j < ws.len() ==> is_blank(#[trigger] ws[j]),
    ensures
        lex_spec(s + ws).len() == lex_spec(s).len(),
{
    lemma_blank_suffix(s, ws, 0, LexMode::Normal, Seq::empty(), Seq::empty(), Seq::empty());
}

} // verus!
