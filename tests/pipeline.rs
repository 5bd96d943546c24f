use liteabl::ast::{Expr, Op, Statement};
use liteabl::lexer::{lex, Token};
use liteabl::parser::Parser;
use liteabl::sqlgen::{expr_to_sql, is_query, literal_line, projection_text, statement_to_sql, Lowered};

fn s(x: &str) -> String {
    x.to_string()
}

fn parse(src: &str) -> Vec<Statement> {
    let mut p = Parser::new(lex(src));
    p.parse_statements()
}

fn sql(stmt: &Statement) -> String {
    match statement_to_sql(stmt) {
        Lowered::Sql(t) => t,
        other => panic!("expected SQL, got {:?}", other),
    }
}

#[test]
fn lex_foreach_header() {
    let toks = lex("FOR EACH Customer WHERE Name = 'X':");
    assert_eq!(
        toks,
        vec![
            Token::ForEach,
            Token::Identifier(s("Customer")),
            Token::Where,
            Token::Identifier(s("Name")),
            Token::Equals,
            Token::StringLit(s("X")),
            Token::Colon,
            Token::Eof,
        ]
    );
}

#[test]
fn lex_ends_with_one_eof_and_ignores_trailing_whitespace() {
    for src in ["", "FOR EACH T: DISPLAY Name. END.", "x = 1", "'open", "/* open"] {
        let a = lex(src);
        assert_eq!(a.last(), Some(&Token::Eof));
        assert_eq!(a.iter().filter(|t| **t == Token::Eof).count(), 1);
        let padded = format!("{}  \n\t ", src);
        assert_eq!(lex(&padded).len(), a.len());
    }
}

#[test]
fn lex_empty_input_is_just_eof() {
    assert_eq!(lex(""), vec![Token::Eof]);
}

#[test]
fn lex_comments_operators_and_literals() {
    let toks = lex("/* note\n */ a <> 1 <= 2 >= 3 < 4 > \"q w\" ( ) .");
    assert_eq!(
        toks,
        vec![
            Token::Identifier(s("a")),
            Token::NotEquals,
            Token::Number(1),
            Token::LessOrEqual,
            Token::Number(2),
            Token::GreaterOrEqual,
            Token::Number(3),
            Token::LessThan,
            Token::Number(4),
            Token::GreaterThan,
            Token::StringLit(s("q w")),
            Token::LParen,
            Token::RParen,
            Token::Dot,
            Token::Eof,
        ]
    );
}

#[test]
fn lex_unterminated_literal_keeps_its_text() {
    assert_eq!(lex("'abc"), vec![Token::StringLit(s("abc")), Token::Eof]);
}

#[test]
fn lex_unterminated_comment_runs_to_end() {
    assert_eq!(lex("a /* b c"), vec![Token::Identifier(s("a")), Token::Eof]);
}

#[test]
fn lex_keywords_any_case_and_two_words() {
    let toks = lex("for each find first where display create delete and or eq ne lt gt le ge");
    assert_eq!(
        toks,
        vec![
            Token::ForEach,
            Token::FindFirst,
            Token::Where,
            Token::Display,
            Token::Create,
            Token::Delete,
            Token::And,
            Token::Or,
            Token::Equals,
            Token::NotEquals,
            Token::LessThan,
            Token::GreaterThan,
            Token::LessOrEqual,
            Token::GreaterOrEqual,
            Token::Eof,
        ]
    );
}

#[test]
fn lex_first_word_alone_is_held_back() {
    assert_eq!(lex("for x"), vec![Token::Identifier(s("FOR x")), Token::Eof]);
    assert_eq!(lex("FOR"), vec![Token::Eof]);
}

#[test]
fn lex_numbers_and_floats() {
    assert_eq!(
        lex("-5 42 1e3 99999999999999999999 inf abc"),
        vec![
            Token::Number(-5),
            Token::Number(42),
            Token::Float(s("1e3")),
            Token::Float(s("99999999999999999999")),
            Token::Float(s("inf")),
            Token::Identifier(s("abc")),
            Token::Eof,
        ]
    );
}

#[test]
fn lex_comma_separates_words() {
    assert_eq!(
        lex("a,b"),
        vec![Token::Identifier(s("a")), Token::Identifier(s("b")), Token::Eof]
    );
}

#[test]
fn parse_twice_gives_the_same_statements() {
    let toks = lex("FOR EACH T WHERE A = 1: DISPLAY A \"x\". END. CREATE T. FIND FIRST T.");
    let a = Parser::new(toks.clone()).parse_statements();
    let b = Parser::new(toks).parse_statements();
    assert_eq!(format!("{:?}", a), format!("{:?}", b));
    assert_eq!(a.len(), 3);
}

#[test]
fn parse_nested_foreach() {
    let stmts = parse("FOR EACH A: FOR EACH B: DISPLAY X. END. END. CREATE C.");
    assert_eq!(stmts.len(), 2);
    match &stmts[0] {
        Statement::ForEach { table, where_clause, body } => {
            assert_eq!(table, "A");
            assert!(where_clause.is_none());
            assert_eq!(body.len(), 1);
            match &body[0] {
                Statement::ForEach { table, body, .. } => {
                    assert_eq!(table, "B");
                    assert_eq!(body.len(), 1);
                    assert!(matches!(&body[0], Statement::Display { fields } if fields == &vec![s("X")]));
                }
                other => panic!("inner: {:?}", other),
            }
        }
        other => panic!("outer: {:?}", other),
    }
    assert!(matches!(&stmts[1], Statement::Create { table } if table == "C"));
}

#[test]
fn parse_skips_top_level_display_and_stray_tokens() {
    let stmts = parse("DISPLAY \"hi\" Name. ) = DELETE Order.");
    assert_eq!(stmts.len(), 1);
    assert!(matches!(&stmts[0], Statement::Delete { table } if table == "Order"));
}

#[test]
fn parse_drops_statement_without_table() {
    let stmts = parse("CREATE 5 . CREATE T.");
    assert_eq!(stmts.len(), 1);
    assert!(matches!(&stmts[0], Statement::Create { table } if table == "T"));
}

#[test]
fn parse_find_first_with_dotted_where_and_end() {
    let stmts = parse("FIND FIRST Item WHERE Item.Id = 5: END.");
    assert_eq!(stmts.len(), 1);
    match &stmts[0] {
        Statement::FindFirst { table, where_clause: Some(w) } => {
            assert_eq!(table, "Item");
            assert_eq!(expr_to_sql(w), Some(s("\"Item.Id\" = 5")));
        }
        other => panic!("{:?}", other),
    }
}

#[test]
fn parse_malformed_where_is_omitted() {
    let stmts = parse("FIND FIRST Item WHERE = 5.");
    assert!(matches!(&stmts[0], Statement::FindFirst { where_clause: None, .. }));
}

#[test]
fn parse_display_fields() {
    let stmts = parse("FOR EACH T: DISPLAY Name 'lit' 7. END.");
    match &stmts[0] {
        Statement::ForEach { body, .. } => {
            assert!(matches!(&body[0], Statement::Display { fields }
                if fields == &vec![s("Name"), s("\"lit\""), s("7")]));
        }
        other => panic!("{:?}", other),
    }
}

#[test]
fn parse_group_expression() {
    let stmts = parse("FOR EACH T WHERE (A = 1 OR B = 'z') AND C >= 25e-1: END.");
    assert_eq!(sql(&stmts[0]), "SELECT * FROM \"T\" WHERE (\"A\" = 1 OR \"B\" = 'z') AND \"C\" >= 25e-1");
}

#[test]
fn lower_find_first() {
    let st = Statement::FindFirst {
        table: s("Item"),
        where_clause: Some(Expr::BinOp {
            left: Box::new(Expr::Identifier(s("Id"))),
            op: Op::Eq,
            right: Box::new(Expr::Number(5)),
        }),
    };
    assert_eq!(sql(&st), "SELECT * FROM \"Item\" WHERE \"Id\" = 5 LIMIT 1");
}

#[test]
fn lower_create() {
    assert_eq!(sql(&Statement::Create { table: s("Order") }), "INSERT INTO \"Order\" DEFAULT VALUES");
}

#[test]
fn lower_delete_has_no_where() {
    assert_eq!(sql(&Statement::Delete { table: s("Order") }), "DELETE FROM \"Order\"");
    let stmts = parse("DELETE Order WHERE Id = 1.");
    assert_eq!(sql(&stmts[0]), "DELETE FROM \"Order\"");
}

#[test]
fn lower_foreach_literal_display() {
    let st = Statement::ForEach {
        table: s("T"),
        where_clause: None,
        body: vec![Statement::Display { fields: vec![s("\"hello\"")] }],
    };
    assert_eq!(statement_to_sql(&st), Lowered::Literal(s("hello")));
}

#[test]
fn lower_foreach_projection() {
    let st = Statement::ForEach {
        table: s("T"),
        where_clause: None,
        body: vec![Statement::Display { fields: vec![s("Name"), s("Age")] }],
    };
    assert_eq!(sql(&st), "SELECT \"Name\", \"Age\" FROM \"T\"");
}

#[test]
fn lower_flat_left_chain() {
    let stmts = parse("FOR EACH T WHERE A = 1 AND B = 2: END.");
    match &stmts[0] {
        Statement::ForEach { where_clause: Some(w), .. } => {
            assert_eq!(expr_to_sql(w), Some(s("\"A\" = 1 AND \"B\" = 2")));
            assert!(matches!(w, Expr::BinOp { op: Op::Eq, .. }));
        }
        other => panic!("{:?}", other),
    }
}

#[test]
fn lower_foreach_without_display_selects_all() {
    let stmts = parse("FOR EACH T WHERE Age > 3: CREATE X. END.");
    assert_eq!(sql(&stmts[0]), "SELECT * FROM \"T\" WHERE \"Age\" > 3");
}

#[test]
fn lower_only_first_display_counts() {
    let stmts = parse("FOR EACH T: DISPLAY A 5 \"x\". DISPLAY \"y\". END.");
    assert_eq!(sql(&stmts[0]), "SELECT \"A\" FROM \"T\"");
}

#[test]
fn lower_projection_of_numbers_only_is_star() {
    let st = Statement::ForEach {
        table: s("T"),
        where_clause: None,
        body: vec![Statement::Display { fields: vec![s("1"), s("2.5"), s("\"a\""), s("Name\"")] }],
    };
    assert_eq!(sql(&st), "SELECT \"Name\"\" FROM \"T\"");
    let empty = Statement::ForEach {
        table: s("T"),
        where_clause: None,
        body: vec![Statement::Display { fields: vec![] }],
    };
    assert_eq!(sql(&empty), "SELECT * FROM \"T\"");
}

#[test]
fn lower_top_level_display() {
    let lit = Statement::Display { fields: vec![s("\"a\""), s("\"\"b\"")] };
    assert_eq!(statement_to_sql(&lit), Lowered::Literal(s("a b")));
    let cols = Statement::Display { fields: vec![s("\"a\""), s("Name")] };
    assert_eq!(statement_to_sql(&cols), Lowered::Nothing);
}

#[test]
fn expr_lowering_of_each_form() {
    assert_eq!(expr_to_sql(&Expr::String(s("it's"))), Some(s("'it's'")));
    assert_eq!(expr_to_sql(&Expr::Number(-7)), Some(s("-7")));
    assert_eq!(expr_to_sql(&Expr::Float(s("2.5"))), Some(s("2.5")));
    let g = Expr::Group(Box::new(Expr::BinOp {
        left: Box::new(Expr::Identifier(s("a"))),
        op: Op::Neq,
        right: Box::new(Expr::Number(0)),
    }));
    assert_eq!(expr_to_sql(&g), Some(s("(\"a\" <> 0)")));
    for (op, text) in [
        (Op::Lt, "<"),
        (Op::Gt, ">"),
        (Op::Le, "<="),
        (Op::Ge, ">="),
        (Op::And, "AND"),
        (Op::Or, "OR"),
    ] {
        let e = Expr::BinOp {
            left: Box::new(Expr::Number(1)),
            op,
            right: Box::new(Expr::Number(2)),
        };
        assert_eq!(expr_to_sql(&e), Some(format!("1 {} 2", text)));
    }
}

#[test]
fn helper_texts() {
    assert_eq!(literal_line(&vec![s("\"x\""), s("\"y z\"")]), "x y z");
    assert_eq!(projection_text(&vec![s("A"), s("-3"), s("B")]), "\"A\", \"B\"");
    assert_eq!(projection_text(&vec![]), "*");
}

#[test]
fn query_or_update() {
    assert!(is_query("  select * from t"));
    assert!(is_query("SELECT 1"));
    assert!(!is_query("INSERT INTO \"T\" DEFAULT VALUES"));
    assert!(!is_query("SEL"));
}

#[test]
fn lex_pending_first_word_survives_punctuation() {
    assert_eq!(
        lex("for ( each"),
        vec![Token::LParen, Token::ForEach, Token::Eof]
    );
    assert_eq!(lex("find\u{a0}first"), vec![Token::Identifier(s("find\u{a0}first")), Token::Eof]);
}

#[test]
fn lex_comment_ends_the_word_before_it() {
    assert_eq!(
        lex("a/*c*/b"),
        vec![Token::Identifier(s("a")), Token::Identifier(s("b")), Token::Eof]
    );
}

#[test]
fn lex_lone_slash_starts_a_new_word() {
    assert_eq!(
        lex("a/b"),
        vec![Token::Identifier(s("a")), Token::Identifier(s("/b")), Token::Eof]
    );
}

#[test]
fn lex_quote_ends_the_word_before_it() {
    assert_eq!(
        lex("abc'x'"),
        vec![Token::Identifier(s("abc")), Token::StringLit(s("x")), Token::Eof]
    );
}

#[test]
fn parse_resumes_after_keyword_of_dropped_statement() {
    let toks = vec![Token::Create, Token::Dot, Token::Create, Token::Identifier(s("X")), Token::Eof];
    let stmts = Parser::new(toks).parse_statements();
    assert_eq!(stmts.len(), 1);
    assert!(matches!(&stmts[0], Statement::Create { table } if table == "X"));
    let stmts = parse("CREATE CREATE X.");
    assert_eq!(stmts.len(), 1);
    assert!(matches!(&stmts[0], Statement::Create { table } if table == "X"));
}

#[test]
fn parse_body_resumes_after_dropped_statement() {
    let stmts = parse("FOR EACH T: DELETE DISPLAY \"hi\". END.");
    match &stmts[0] {
        Statement::ForEach { body, .. } => {
            assert_eq!(body.len(), 1);
            assert!(matches!(&body[0], Statement::Display { fields } if fields == &vec![s("\"hi\"")]));
        }
        other => panic!("{:?}", other),
    }
}
