use stmt_parser::ast::error::ParseError;
use stmt_parser::ast::parsing::{is_type_keyword, parse_expr};
use stmt_parser::ast::structure::{BinearyExpr, Expr, FunctionCall, Literal, SymbolTable};

fn num(i: i64) -> Expr {
    Expr::Literal(Literal::Integer(i))
}

fn text(s: &str) -> Expr {
    Expr::Literal(Literal::Str(s.to_string()))
}

fn var(s: &str) -> Expr {
    Expr::Variable(s.to_string())
}

fn binary(left: Expr, operator: &str, right: Expr) -> Expr {
    Expr::Binary(Box::new(BinearyExpr { left, operator: operator.to_string(), right }))
}

fn call(name: &str, arguments: Vec<Expr>) -> Expr {
    Expr::FunctionCall(Box::new(FunctionCall { name: name.to_string(), arguments }))
}

fn mismatch(found: &str) -> ParseError {
    ParseError::TypeMismatch { expected: "int".to_string(), found: found.to_string() }
}

#[test]
fn integers_parse_to_integer_literals() {
    let table = SymbolTable::new();
    for n in [0i64, 1, -1, 42, -42, 1234567890, i64::MAX, i64::MIN] {
        assert_eq!(parse_expr(&n.to_string(), None, &table), Ok(num(n)));
    }
    assert_eq!(parse_expr("+7", None, &table), Ok(num(7)));
    assert_eq!(parse_expr("007", None, &table), Ok(num(7)));
}

#[test]
fn quoted_text_parses_to_string_literals() {
    let table = SymbolTable::new();
    for s in ["", "a", "hello world", "1 + 2", "f(x)", "12", "h\u{e9}", " padded "] {
        let quoted = format!("\"{}\"", s);
        assert_eq!(parse_expr(&quoted, None, &table), Ok(text(s)));
    }
}

#[test]
fn quoted_text_may_hold_quotes() {
    let table = SymbolTable::new();
    assert_eq!(parse_expr("\"a\"b\"", None, &table), Ok(text("a\"b")));
}

#[test]
fn a_lone_quote_is_the_empty_string() {
    let table = SymbolTable::new();
    assert_eq!(parse_expr("\"", None, &table), Ok(text("")));
}

#[test]
fn three_words_with_a_sign_make_a_binary_node() {
    let table = SymbolTable::new();
    assert_eq!(parse_expr("1 + 2", None, &table), Ok(binary(num(1), "+", num(2))));
    assert_eq!(parse_expr("a - 2", None, &table), Ok(binary(var("a"), "-", num(2))));
    assert_eq!(parse_expr(" 1\t+   2 ", None, &table), Ok(binary(num(1), "+", num(2))));
}

#[test]
fn the_operator_is_the_second_word() {
    let table = SymbolTable::new();
    assert_eq!(
        parse_expr("a+b c d", None, &table),
        Ok(binary(var("a+b"), "c", var("d")))
    );
    assert_eq!(parse_expr("-1 * 2", None, &table), Ok(binary(num(-1), "*", num(2))));
}

#[test]
fn other_word_counts_fall_back_to_a_variable() {
    let table = SymbolTable::new();
    assert_eq!(parse_expr("1 + 2 + 3", None, &table), Ok(var("1 + 2 + 3")));
    assert_eq!(parse_expr("1+2", None, &table), Ok(var("1+2")));
    assert_eq!(parse_expr("a -", None, &table), Ok(var("a -")));
    assert_eq!(parse_expr("1 + 2 3", None, &table), Ok(var("1 + 2 3")));
    assert_eq!(parse_expr("-", None, &table), Ok(var("-")));
}

#[test]
fn a_sign_wins_over_parentheses() {
    let table = SymbolTable::new();
    assert_eq!(parse_expr("f(a + b)", None, &table), Ok(binary(var("f(a"), "+", var("b)"))));
    assert_eq!(parse_expr("f(-1)", None, &table), Ok(var("f(-1)")));
}

#[test]
fn calls_hold_their_arguments_in_order() {
    let table = SymbolTable::new();
    assert_eq!(parse_expr("f(1, 2)", None, &table), Ok(call("f", vec![num(1), num(2)])));
    assert_eq!(
        parse_expr("foo(x,y , \"z\")", None, &table),
        Ok(call("foo", vec![var("x"), var("y"), text("z")]))
    );
}

#[test]
fn nested_calls_split_on_every_comma() {
    let table = SymbolTable::new();
    assert_eq!(
        parse_expr("f(g(1), 2)", None, &table),
        Ok(call("f", vec![call("g", vec![num(1)]), num(2)]))
    );
    assert_eq!(
        parse_expr("f(g(1, 2))", None, &table),
        Ok(call("f", vec![var("g(1"), var("2)")]))
    );
}

#[test]
fn an_empty_argument_list_holds_one_empty_variable() {
    let table = SymbolTable::new();
    assert_eq!(parse_expr("f()", None, &table), Ok(call("f", vec![var("")])));
    assert_eq!(parse_expr("f(,)", None, &table), Ok(call("f", vec![var(""), var("")])));
}

#[test]
fn the_arguments_end_at_the_last_closing_parenthesis() {
    let table = SymbolTable::new();
    assert_eq!(parse_expr("f(1)x", None, &table), Ok(call("f", vec![num(1)])));
    assert_eq!(parse_expr("(a)", None, &table), Ok(call("", vec![var("a")])));
}

#[test]
fn a_closing_parenthesis_before_the_opening_one_leaves_no_arguments() {
    let table = SymbolTable::new();
    assert_eq!(parse_expr(")(", None, &table), Ok(call(")", vec![var("")])));
    assert_eq!(parse_expr("a)b(c", None, &table), Ok(call("a)b", vec![var("")])));
}

#[test]
fn anything_else_is_a_variable() {
    let table = SymbolTable::new();
    assert_eq!(parse_expr("x", None, &table), Ok(var("x")));
    assert_eq!(parse_expr("", None, &table), Ok(var("")));
    assert_eq!(parse_expr("1.5", None, &table), Ok(var("1.5")));
    assert_eq!(parse_expr("f(1", None, &table), Ok(var("f(1")));
    assert_eq!(parse_expr("two words", None, &table), Ok(var("two words")));
    assert_eq!(parse_expr("\"open", None, &table), Ok(var("\"open")));
}

#[test]
fn untyped_variables_are_not_resolved() {
    let mut table = SymbolTable::new();
    table.set_var("x".to_string(), &num(5));
    assert_eq!(parse_expr("x", None, &table), Ok(var("x")));
}

#[test]
fn int_context_resolves_bound_variables() {
    let mut table = SymbolTable::new();
    table.set_var("x".to_string(), &num(5));
    assert_eq!(parse_expr("x", Some("int"), &table), Ok(num(5)));
    assert_eq!(table.get_var("x"), Some(&num(5)));
}

#[test]
fn int_context_rejects_unbound_names() {
    let table = SymbolTable::new();
    assert_eq!(parse_expr("x", Some("int"), &table), Err(mismatch("x")));
    assert_eq!(parse_expr("abc", Some("int"), &table), Err(mismatch("abc")));
    assert_eq!(parse_expr("\"s\"", Some("int"), &table), Err(mismatch("\"s\"")));
    assert_eq!(parse_expr("f(1)", Some("int"), &table), Err(mismatch("f(1)")));
    assert_eq!(parse_expr("", Some("int"), &table), Err(mismatch("")));
}

#[test]
fn int_context_reads_integers() {
    let table = SymbolTable::new();
    assert_eq!(parse_expr("5", Some("int"), &table), Ok(num(5)));
    assert_eq!(parse_expr("007", Some("int"), &table), Ok(num(7)));
}

#[test]
fn int_context_looks_for_a_sign_first() {
    let table = SymbolTable::new();
    assert_eq!(parse_expr("-5", Some("int"), &table), Ok(var("-5")));
    assert_eq!(parse_expr("+5", Some("int"), &table), Ok(var("+5")));
    assert_eq!(parse_expr("1 + 2", Some("int"), &table), Ok(binary(num(1), "+", num(2))));
    assert_eq!(parse_expr("1 + 2 + 3", Some("int"), &table), Ok(var("1 + 2 + 3")));
}

#[test]
fn int_context_reaches_both_operands() {
    let mut table = SymbolTable::new();
    table.set_var("x".to_string(), &num(5));
    assert_eq!(parse_expr("x + 1", Some("int"), &table), Ok(binary(num(5), "+", num(1))));
    assert_eq!(parse_expr("x + y", Some("int"), &table), Err(mismatch("y")));
    assert_eq!(parse_expr("y + x", Some("int"), &table), Err(mismatch("y")));
    assert_eq!(parse_expr("a - b", Some("int"), &table), Err(mismatch("a")));
}

#[test]
fn int_context_copies_whole_trees() {
    let mut table = SymbolTable::new();
    let tree = binary(call("f", vec![num(1), text("s"), var("v")]), "+", num(2));
    table.set_var("t".to_string(), &tree);
    assert_eq!(parse_expr("t", Some("int"), &table), Ok(tree.clone()));
    assert_eq!(table.get_var("t"), Some(&tree));
}

#[test]
fn str_context_strips_the_ends_whatever_they_are() {
    let table = SymbolTable::new();
    assert_eq!(parse_expr("\"hi\"", Some("str"), &table), Ok(text("hi")));
    assert_eq!(parse_expr("abc", Some("str"), &table), Ok(text("b")));
    assert_eq!(parse_expr("1 + 2", Some("str"), &table), Ok(text(" + ")));
    assert_eq!(parse_expr("\u{e9}a\u{e9}", Some("str"), &table), Ok(text("a")));
}

#[test]
fn str_context_on_short_text_is_the_empty_string() {
    let table = SymbolTable::new();
    assert_eq!(parse_expr("", Some("str"), &table), Ok(text("")));
    assert_eq!(parse_expr("a", Some("str"), &table), Ok(text("")));
    assert_eq!(parse_expr("ab", Some("str"), &table), Ok(text("")));
}

#[test]
fn other_contexts_parse_as_without_one() {
    let mut table = SymbolTable::new();
    table.set_var("x".to_string(), &num(5));
    for key in ["float", "bool", "", "Int", "string"] {
        assert_eq!(parse_expr("1.5", Some(key), &table), Ok(var("1.5")));
        assert_eq!(parse_expr("x", Some(key), &table), Ok(var("x")));
        assert_eq!(parse_expr("7", Some(key), &table), Ok(num(7)));
        assert_eq!(parse_expr("\"s\"", Some(key), &table), Ok(text("s")));
        assert_eq!(parse_expr("a + 1", Some(key), &table), Ok(binary(var("a"), "+", num(1))));
        assert_eq!(parse_expr("f(x)", Some(key), &table), Ok(call("f", vec![var("x")])));
    }
}

#[test]
fn type_keywords() {
    for word in ["int", "float", "str", "bool"] {
        assert!(is_type_keyword(word));
    }
    for word in ["", "Int", "integer", "in", "int ", " int", "string", "boolean", "if", "x"] {
        assert!(!is_type_keyword(word));
    }
}

#[test]
fn mismatch_message() {
    assert_eq!(mismatch("abc").message(), "Invalid type expected 'int' ! expr : abc");
    assert_eq!(ParseError::MalformedCallArgument.message(), "Malformed call argument");
}

#[test]
fn literal_accessors() {
    assert_eq!(num(5).as_int(), Some(5));
    assert_eq!(text("s").as_int(), None);
    assert_eq!(var("x").as_int(), None);
    assert_eq!(text("s").as_str(), Some("s"));
    assert_eq!(num(5).as_str(), None);
    assert_eq!(var("s").as_str(), None);
    let half = Expr::Literal(Literal::Float(1.5f64.to_bits()));
    assert_eq!(half.as_float().map(f64::from_bits), Some(1.5));
    assert_eq!(half.as_int(), None);
    assert_eq!(num(5).as_float(), None);
    assert_eq!(call("f", vec![]).as_float(), None);
}

#[test]
fn clones_are_equal() {
    let tree = binary(call("f", vec![num(1), text("s"), var("v")]), "+", num(2));
    assert_eq!(tree.clone(), tree);
    let inner = BinearyExpr { left: num(1), operator: "-".to_string(), right: var("x") };
    assert_eq!(inner.clone(), inner);
    let f = FunctionCall { name: "g".to_string(), arguments: vec![num(1), var("y")] };
    assert_eq!(f.clone(), f);
    assert_eq!(Literal::Str("a".to_string()).clone(), Literal::Str("a".to_string()));
}
