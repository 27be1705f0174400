//! The parser: expressions, statements, and whole programs.
//!
//! Each function returns exactly what the grammar says of its input.

use vstd::prelude::*;
use vstd::string::StringExecFns;
use std::path::PathBuf;
use crate::number::parse_i64;
use crate::split::{
    lemma_token_len, lemma_word_shorter, split_char, split_on, split_whitespace, views,
};
use crate::text::{
    chars_of, contains_char, find_first, find_last, first_index, is_space, is_whitespace,
    last_index, lemma_first_index, lemma_last_index, lemma_trim_start, slice, string_of, trimmed,
};
use super::error::{ParseError, ParseErrorView, StmtError, StmtErrorView};
use super::expr::{lemma_exprs_view_push, lemma_stmts_view_push};
use super::grammar::{
    after_first_word, after_line, arguments_of, binary_of, call_inner, call_name, call_pieces,
    condition_text, declared_name, declared_text, expression_of, first_word, is_call_shaped,
    is_conditional, is_declaration, is_keyword, is_quoted, lemma_piece_shorter, lines_upto,
    program_of, statement_of, strip_ends, Bindings, ProgramOutcome,
};
use super::structure::{
    exprs_view, stmts_view, BinearyExpr, Expr, ExprView, FunctionCall, Literal, Programm, Stmt,
    StmtView, SymbolTable,
};

verus! {

/// The value of the result of parsing an expression.
pub open spec fn result_view(r: Result<Expr, ParseError>) -> Result<ExprView, ParseErrorView> {
    match r {
        Ok(e) => Ok(e@),
        Err(e) => Err(e@),
    }
}

/// The value of a declared type, if there is one.
pub open spec fn key_view(ty: Option<Vec<char>>) -> Option<Seq<char>> {
    match ty {
        Some(key) => Some(key@),
        None => None,
    }
}

/// The text of a declared type, if there is one.
pub open spec fn str_key_view(ty: Option<&str>) -> Option<Seq<char>> {
    match ty {
        Some(key) => Some(key@),
        None => None,
    }
}

/// The value of a statement, if there is one.
pub open spec fn stmt_option_view(s: Option<Stmt>) -> Option<StmtView> {
    match s {
        Some(s) => Some(s@),
        None => None,
    }
}

/// The value of an error, if there is one.
pub open spec fn error_option_view(e: Option<StmtError>) -> Option<StmtErrorView> {
    match e {
        Some(e) => Some(e@),
        None => None,
    }
}

/// What a pass over a source text produced: the statements read, in order,
/// and the error that stopped the pass, if one did.
#[derive(Debug, PartialEq)]
pub struct ParseReport {
    pub statements: Vec<Stmt>,
    pub error: Option<StmtError>,
}

/// Once an argument has failed, the failure stands whatever follows.
pub proof fn lemma_arguments_fail(text: Seq<char>, j: int, k: int, table: Bindings)
    requires
        is_call_shaped(text),
        0 <= j <= k <= call_pieces(text).len(),
        arguments_of(text, j, table) is Err,
    ensures
        arguments_of(text, k, table) == arguments_of(text, j, table),
    decreases k - j,
{
    if j < k {
        lemma_arguments_fail(text, j, k - 1, table);
    }
}

/// Once a line has failed, the outcome stands whatever follows.
pub proof fn lemma_lines_fail(lines: Seq<Seq<char>>, j: int, k: int, table: Bindings)
    requires
        0 <= j <= k,
        lines_upto(lines, j, table).error is Some,
    ensures
        lines_upto(lines, k, table) == lines_upto(lines, j, table),
    decreases k - j,
{
    if j < k {
        lemma_lines_fail(lines, j, k - 1, table);
    }
}

/// Tells whether `v` and `s` hold the same characters.
fn same_text(v: &Vec<char>, s: &str) -> (b: bool)
    ensures
        b == (v@ == s@),
{
    let w = chars_of(s);
    if v.len() != w.len() {
        return false;
    }
    let mut i: usize = 0;
    while i < v.len()
        invariant
            i <= v.len() == w.len(),
            w@ == s@,
            forall|j: int| 0 <= j < i ==> v@[j] == w@[j],
        decreases v.len() - i,
    {
        if v[i] != w[i] {
            return false;
        }
        i += 1;
    }
    assert(v@ =~= w@);
    true
}

/// Tells whether `word` is a type keyword.
fn keyword(word: &Vec<char>) -> (b: bool)
    ensures
        b == is_keyword(word@),
{
    same_text(word, "int") || same_text(word, "float") || same_text(word, "str") || same_text(
        word,
        "bool",
    )
}

/// Tells whether `word` is one of the reserved type keywords: `int`,
/// `float`, `str`, `bool`.
pub fn is_type_keyword(word: &str) -> (b: bool)
    ensures
        b == is_keyword(word@),
{
    let w = chars_of(word);
    keyword(&w)
}

/// A copy of `text` without its first and last character.
fn without_ends(text: &Vec<char>) -> (r: Vec<char>)
    ensures
        r@ == strip_ends(text@),
{
    if text.len() >= 2 {
        slice(text, 1, text.len() - 1)
    } else {
        Vec::new()
    }
}

/// Tells whether `text` starts and ends with a double quote.
fn quoted(text: &Vec<char>) -> (b: bool)
    ensures
        b == is_quoted(text@),
{
    text.len() > 0 && text[0] == '"' && text[text.len() - 1] == '"'
}

/// Parses an expression text in the context of a declared type or of none.
fn parse_chars(text: &Vec<char>, ty: &Option<Vec<char>>, table: &SymbolTable) -> (r: Result<
    Expr,
    ParseError,
>)
    ensures
        result_view(r) == expression_of(text@, key_view(*ty), table@),
    decreases text@.len(), 1int, 0int,
{
    let typed_str = match ty {
        Some(key) => same_text(key, "str"),
        None => false,
    };
    let typed_int = match ty {
        Some(key) => same_text(key, "int"),
        None => false,
    };
    if typed_str {
        return Ok(Expr::Literal(Literal::Str(string_of(&without_ends(text)))));
    }
    let signed = contains_char(text, '+') || contains_char(text, '-');
    if typed_int {
        if signed {
            return parse_binary(text, ty, table);
        }
        if let Some(i) = parse_i64(text) {
            return Ok(Expr::Literal(Literal::Integer(i)));
        }
        let name = string_of(text);
        return match table.get_var(name.as_str()) {
            Some(value) => Ok(value.clone()),
            None => Err(ParseError::TypeMismatch { expected: String::from_str("int"), found: name }),
        };
    }
    if quoted(text) {
        return Ok(Expr::Literal(Literal::Str(string_of(&without_ends(text)))));
    }
    if let Some(i) = parse_i64(text) {
        return Ok(Expr::Literal(Literal::Integer(i)));
    }
    if signed {
        return parse_binary(text, ty, table);
    }
    match (find_first(text, '('), find_last(text, ')')) {
        (Some(open), Some(close)) => parse_call(text, open, close, table),
        _ => Ok(Expr::Variable(string_of(text))),
    }
}

/// Parses a text with a sign in it: three words make a binary node, anything
/// else a variable.
fn parse_binary(text: &Vec<char>, ty: &Option<Vec<char>>, table: &SymbolTable) -> (r: Result<
    Expr,
    ParseError,
>)
    ensures
        result_view(r) == binary_of(text@, key_view(*ty), table@),
    decreases text@.len(), 0int, 0int,
{
    let parts = split_whitespace(text);
    if parts.len() == 3 {
        proof {
            lemma_word_shorter(text@, 0);
            lemma_word_shorter(text@, 2);
            assert(views(parts@)[0] == parts@[0]@);
            assert(views(parts@)[1] == parts@[1]@);
            assert(views(parts@)[2] == parts@[2]@);
        }
        let left = match parse_chars(&parts[0], ty, table) {
            Ok(left) => left,
            Err(e) => {
                return Err(e);
            },
        };
        let right = match parse_chars(&parts[2], ty, table) {
            Ok(right) => right,
            Err(e) => {
                return Err(e);
            },
        };
        Ok(Expr::Binary(Box::new(BinearyExpr { left, operator: string_of(&parts[1]), right })))
    } else {
        Ok(Expr::Variable(string_of(text)))
    }
}

/// Parses a call whose first `(` stands at `open` and whose last `)` stands
/// at `close`.
fn parse_call(text: &Vec<char>, open: usize, close: usize, table: &SymbolTable) -> (r: Result<
    Expr,
    ParseError,
>)
    requires
        is_call_shaped(text@),
        open as int == first_index(text@, '('),
        close as int == last_index(text@, ')'),
    ensures
        result_view(r) == match arguments_of(text@, call_pieces(text@).len() as int, table@) {
            Ok(arguments) => Ok(ExprView::FunctionCall { name: call_name(text@), arguments }),
            Err(e) => Err(e),
        },
    decreases text@.len(), 0int, 0int,
{
    proof {
        lemma_first_index(text@, '(');
        lemma_last_index(text@, ')');
    }
    let name = string_of(&slice(text, 0, open));
    let inner = if open < close {
        slice(text, open + 1, close)
    } else {
        Vec::new()
    };
    assert(inner@ == call_inner(text@));
    let raw = split_char(&inner, ',');
    let ghost pieces = call_pieces(text@);
    assert(pieces.len() == raw.len());
    let mut arguments: Vec<Expr> = Vec::new();
    let mut k: usize = 0;
    while k < raw.len()
        invariant
            is_call_shaped(text@),
            pieces == call_pieces(text@),
            pieces.len() == raw.len(),
            views(raw@) == split_on(call_inner(text@), ','),
            k <= raw.len(),
            arguments_of(text@, k as int, table@) == Ok::<Seq<ExprView>, ParseErrorView>(
                exprs_view(arguments@),
            ),
        decreases raw.len() - k,
    {
        let piece = trimmed(&raw[k]);
        proof {
            lemma_piece_shorter(text@, k as int);
            assert(views(raw@)[k as int] == raw@[k as int]@);
            assert(piece@ == pieces[k as int]);
        }
        match parse_chars(&piece, &None, table) {
            Ok(argument) => {
                proof {
                    lemma_exprs_view_push(arguments@, argument);
                }
                arguments.push(argument);
            },
            Err(_) => {
                proof {
                    lemma_arguments_fail(text@, k + 1, pieces.len() as int, table@);
                }
                return Err(ParseError::MalformedCallArgument);
            },
        }
        k += 1;
    }
    assert(text@.take(open as int) =~= text@.subrange(0, open as int));
    Ok(Expr::FunctionCall(Box::new(FunctionCall { name, arguments })))
}

/// Parses `expr` in the context of the declared type `type_key`, or of none,
/// resolving variables of an `int` context in `table`.
pub fn parse_expr(expr: &str, type_key: Option<&str>, table: &SymbolTable) -> (r: Result<
    Expr,
    ParseError,
>)
    ensures
        result_view(r) == expression_of(expr@, str_key_view(type_key), table@),
{
    let text = chars_of(expr);
    let ty = match type_key {
        Some(key) => Some(chars_of(key)),
        None => None,
    };
    parse_chars(&text, &ty, table)
}

/// The first word of `line`, and what follows it.
fn split_first_word(line: &Vec<char>) -> (r: (Vec<char>, Vec<char>))
    ensures
        r.0@ == first_word(line@),
        r.1@ == after_first_word(line@),
{
    let len = line.len();
    let mut a: usize = 0;
    while a < len && is_space(line[a])
        invariant
            a <= len == line.len(),
            forall|i: int| 0 <= i < a ==> is_whitespace(line@[i]),
        decreases len - a,
    {
        a += 1;
    }
    let mut b: usize = a;
    while b < len && !is_space(line[b])
        invariant
            a <= b <= len == line.len(),
            forall|i: int| a <= i < b ==> !is_whitespace(line@[i]),
        decreases len - b,
    {
        b += 1;
    }
    let key = slice(line, a, b);
    let rest = slice(line, b, len);
    proof {
        lemma_trim_start(line@, a as int);
        let t = line@.skip(a as int);
        lemma_token_len(t, b - a);
        assert(t.take(b - a) =~= key@);
        assert(t.skip(b - a) =~= rest@);
    }
    (key, rest)
}

/// The parts of a declaration: the type keyword, the name, and the text of
/// the value; `None` where `line` is no declaration.
fn declaration_parts(line: &Vec<char>) -> (r: Option<(Vec<char>, Vec<char>, Vec<char>)>)
    ensures
        r is Some <==> is_declaration(line@),
        r matches Some(parts) ==> {
            &&& parts.0@ == first_word(line@)
            &&& parts.1@ == declared_name(line@)
            &&& parts.2@ == declared_text(line@)
        },
{
    let (key, rest) = split_first_word(line);
    if !keyword(&key) {
        return None;
    }
    match find_first(&rest, '=') {
        Some(i) => {
            let name = trimmed(&slice(&rest, 0, i));
            let text = trimmed(&slice(&rest, i + 1, rest.len()));
            proof {
                assert(rest@.take(i as int) =~= rest@.subrange(0, i as int));
                assert(rest@.skip(i + 1) =~= rest@.subrange(i + 1, rest@.len() as int));
            }
            Some((key, name, text))
        },
        None => None,
    }
}

/// The text of the condition; `None` where `line` is no conditional.
fn conditional_parts(line: &Vec<char>) -> (r: Option<Vec<char>>)
    ensures
        r is Some <==> is_conditional(line@),
        r matches Some(text) ==> text@ == condition_text(line@),
{
    let len = line.len();
    if len >= 2 && line[0] == 'i' && line[1] == 'f' {
        let text = if len >= 3 {
            slice(line, 3, len)
        } else {
            Vec::new()
        };
        assert(text@ =~= condition_text(line@));
        Some(text)
    } else {
        None
    }
}

/// Parses line number `n`, binding the declared variable in `table` where
/// the line is a declaration.
fn parse_line(line: &Vec<char>, n: usize, table: &mut SymbolTable) -> (r: Result<
    Option<Stmt>,
    StmtError,
>)
    ensures
        match statement_of(line@, n, old(table)@) {
            Ok(outcome) => {
                &&& r matches Ok(s) && stmt_option_view(s) == outcome.statement
                &&& final(table)@ == outcome.table
            },
            Err(e) => r matches Err(f) && f@ == e && final(table)@ == old(table)@,
        },
{
    if let Some((key, name, text)) = declaration_parts(line) {
        return match parse_chars(&text, &Some(key), table) {
            Ok(value) => {
                table.set_var(string_of(&name), &value);
                Ok(Some(Stmt::Assignment { line: n, name: string_of(&name), value }))
            },
            Err(cause) => Err(StmtError { line: n, cause }),
        };
    }
    if let Some(text) = conditional_parts(line) {
        return match parse_chars(&text, &None, table) {
            Ok(condition) => Ok(Some(Stmt::If { line: n, condition, body: Vec::new() })),
            Err(cause) => Err(StmtError { line: n, cause }),
        };
    }
    if contains_char(line, '(') && contains_char(line, ')') {
        return match parse_chars(line, &None, table) {
            Ok(expression) => Ok(Some(Stmt::Expression { line: n, expression })),
            Err(cause) => Err(StmtError { line: n, cause }),
        };
    }
    Ok(None)
}

/// Reads one trimmed line of a pass that has not failed: appends its
/// statement, if it has one, to `statements`, and returns its error, if it
/// fails.
fn read_line(line: &Vec<char>, n: usize, table: &mut SymbolTable, statements: &mut Vec<Stmt>) -> (r:
    Option<StmtError>)
    ensures
        after_line(
            ProgramOutcome {
                statements: stmts_view(old(statements)@),
                error: None,
                table: old(table)@,
            },
            line@,
            n,
        ) == (ProgramOutcome {
            statements: stmts_view(final(statements)@),
            error: error_option_view(r),
            table: final(table)@,
        }),
{
    if line.len() == 0 {
        return None;
    }
    match parse_line(line, n, table) {
        Ok(Some(statement)) => {
            proof {
                lemma_stmts_view_push(statements@, statement);
            }
            statements.push(statement);
            None
        },
        Ok(None) => None,
        Err(e) => Some(e),
    }
}

/// Parses one line: a declaration, a conditional, a bare call, or nothing.
///
/// A declaration binds its variable in `table`; nothing else changes the
/// table, and a line that fails leaves it as it was.
pub fn parse_statement(line: &str, n: usize, table: &mut SymbolTable) -> (r: Result<
    Option<Stmt>,
    StmtError,
>)
    ensures
        match statement_of(line@, n, old(table)@) {
            Ok(outcome) => {
                &&& r matches Ok(s) && stmt_option_view(s) == outcome.statement
                &&& final(table)@ == outcome.table
            },
            Err(e) => r matches Err(f) && f@ == e && final(table)@ == old(table)@,
        },
{
    let text = chars_of(line);
    parse_line(&text, n, table)
}

/// Parses `content` line by line, numbering lines from 1 and skipping blank
/// ones, until the end or the first line that fails.
///
/// The report holds the statements read before the failure; `table` holds
/// the bindings made by them.
pub fn pars_prog(content: &str, table: &mut SymbolTable) -> (r: ParseReport)
    ensures
        stmts_view(r.statements@) == program_of(content@, old(table)@).statements,
        error_option_view(r.error) == program_of(content@, old(table)@).error,
        final(table)@ == program_of(content@, old(table)@).table,
{
    let text = chars_of(content);
    let lines = split_char(&text, '\n');
    let ghost all = split_on(content@, '\n');
    let ghost start = table@;
    let mut statements: Vec<Stmt> = Vec::new();
    let mut i: usize = 0;
    while i < lines.len()
        invariant
            i <= lines.len(),
            views(lines@) == all,
            all == split_on(content@, '\n'),
            start == old(table)@,
            lines_upto(all, i as int, start) == (ProgramOutcome {
                statements: stmts_view(statements@),
                error: None,
                table: table@,
            }),
        decreases lines.len() - i,
    {
        let line = trimmed(&lines[i]);
        assert(views(lines@)[i as int] == lines@[i as int]@);
        let ghost before = lines_upto(all, i as int, start);
        let failure = read_line(&line, i + 1, table, &mut statements);
        assert(lines_upto(all, i + 1, start) == after_line(before, line@, (i + 1) as usize));
        if let Some(e) = failure {
            proof {
                lemma_lines_fail(all, i + 1, all.len() as int, start);
            }
            return ParseReport { statements, error: Some(e) };
        }
        i += 1;
    }
    ParseReport { statements, error: None }
}

impl Programm {
    /// Parses the text `content` that was read from `file`, with a fresh
    /// symbol table: the program read, and the error that stopped the pass
    /// if one did.
    pub fn pars(file: PathBuf, content: &str) -> (r: (Programm, Option<StmtError>))
        ensures
            r.0.file == file,
            stmts_view(r.0.statements@) == program_of(content@, Map::empty()).statements,
            error_option_view(r.1) == program_of(content@, Map::empty()).error,
    {
        let mut table = SymbolTable::new();
        let report = pars_prog(content, &mut table);
        (Programm { file, statements: report.statements }, report.error)
    }
}

} // verus!
