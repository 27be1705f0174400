//! Laws of the grammar, proved from its definition.

use vstd::prelude::*;
use crate::ast::error::ParseErrorView;
use crate::ast::grammar::{
    after_line, arguments_of, call_pieces, condition_text, declared_text, expression_of,
    first_word, has_sign, is_call_shaped, is_declaration, is_quoted, lemma_piece_shorter,
    lines_upto, program_of, statement_of, strip_ends, Bindings,
};
use crate::ast::structure::{ExprView, LiteralView, StmtView};
use crate::number::{decimal, is_digit, lemma_decimal_round_trip, parse_int, sign_len};
use crate::split::{lemma_word_shorter, words};
use crate::text::trim;

verus! {

/// Text that reads as a 64-bit integer parses, outside any declared type, to
/// the literal of that integer, whatever the table holds.
pub proof fn law_integer_text(text: Seq<char>, table: Bindings)
    requires
        parse_int(text) is Some,
    ensures
        expression_of(text, None, table) == Ok::<ExprView, ParseErrorView>(
            ExprView::Literal(LiteralView::Integer(parse_int(text)->0)),
        ),
{
    let digits = text.skip(sign_len(text));
    if sign_len(text) == 0 {
        assert(digits =~= text);
        assert(is_digit(digits[0]));
    }
    assert(!is_quoted(text));
}

/// The decimal text of every 64-bit integer parses, outside any declared
/// type, to the literal of that integer.
pub proof fn law_decimal_parses(n: i64, table: Bindings)
    ensures
        expression_of(decimal(n as int), None, table) == Ok::<ExprView, ParseErrorView>(
            ExprView::Literal(LiteralView::Integer(n)),
        ),
{
    lemma_decimal_round_trip(n as int);
    law_integer_text(decimal(n as int), table);
}

/// Text between double quotes parses, outside any declared type, to the
/// string literal of what stands between the quotes.
pub proof fn law_quoted_text(s: Seq<char>, table: Bindings)
    ensures
        expression_of(seq!['"'] + s + seq!['"'], None, table) == Ok::<ExprView, ParseErrorView>(
            ExprView::Literal(LiteralView::Str(s)),
        ),
{
    let text = seq!['"'] + s + seq!['"'];
    assert(is_quoted(text));
    assert(strip_ends(text) =~= s);
}

/// Parsing is a function of the source text: two passes over the same text,
/// each with a fresh table, read the same statements and stop on the same
/// error.
pub proof fn law_same_text_same_program(
    first_source: Seq<char>,
    second_source: Seq<char>,
    first_table: Bindings,
    second_table: Bindings,
)
    requires
        first_source == second_source,
        first_table == Map::<Seq<char>, ExprView>::empty(),
        second_table == Map::<Seq<char>, ExprView>::empty(),
    ensures
        program_of(first_source, first_table).statements == program_of(
            second_source,
            second_table,
        ).statements,
        program_of(first_source, first_table).error == program_of(second_source, second_table).error,
{
}

/// Under the declared type `int`, a text without a sign that is no integer
/// is a variable name: it parses to the expression bound to it in the table,
/// and fails with a type mismatch that names it where the table binds none.
pub proof fn law_int_context_resolves(name: Seq<char>, table: Bindings)
    requires
        !has_sign(name),
        parse_int(name) is None,
    ensures
        table.contains_key(name) ==> expression_of(name, Some("int"@), table) == Ok::<
            ExprView,
            ParseErrorView,
        >(table[name]),
        !table.contains_key(name) ==> expression_of(name, Some("int"@), table) == Err::<
            ExprView,
            ParseErrorView,
        >(ParseErrorView::TypeMismatch { expected: "int"@, found: name }),
{
    reveal_strlit("int");
    reveal_strlit("str");
    assert("int"@[0] != "str"@[0]);
}

/// Outside the declared type `int` no expression text fails to parse.
pub proof fn law_fails_only_as_int(text: Seq<char>, ty: Option<Seq<char>>, table: Bindings)
    requires
        ty != Some("int"@),
    ensures
        expression_of(text, ty, table) is Ok,
    decreases text.len(), 1int, 0int,
{
    if ty == Some("str"@) {
    } else if is_quoted(text) {
    } else if parse_int(text) is Some {
    } else if has_sign(text) {
        let w = words(text);
        if w.len() == 3 {
            lemma_word_shorter(text, 0);
            lemma_word_shorter(text, 2);
            law_fails_only_as_int(w[0], ty, table);
            law_fails_only_as_int(w[2], ty, table);
        }
    } else if is_call_shaped(text) {
        lemma_arguments_parse(text, call_pieces(text).len() as int, table);
    }
}

/// The arguments of a call never fail to parse.
pub proof fn lemma_arguments_parse(text: Seq<char>, k: int, table: Bindings)
    requires
        is_call_shaped(text),
        0 <= k <= call_pieces(text).len(),
    ensures
        arguments_of(text, k, table) is Ok,
        arguments_of(text, k, table)->Ok_0.len() == k,
    decreases text.len(), 0int, k,
{
    if k > 0 {
        lemma_arguments_parse(text, k - 1, table);
        lemma_piece_shorter(text, k - 1);
        law_fails_only_as_int(call_pieces(text)[k - 1], None, table);
    }
}

/// Under the declared type `int` the only failure is a type mismatch that
/// expects `int`.
pub proof fn law_int_failure_is_mismatch(text: Seq<char>, table: Bindings)
    ensures
        expression_of(text, Some("int"@), table) matches Err(e) ==> e matches ParseErrorView::TypeMismatch {
            expected,
            found,
        } && expected == "int"@,
    decreases text.len(),
{
    reveal_strlit("int");
    reveal_strlit("str");
    assert("int"@.len() == 3 && "str"@.len() == 3);
    assert("int"@[0] != "str"@[0]);
    let ty = Some("int"@);
    if has_sign(text) {
        let w = words(text);
        if w.len() == 3 {
            lemma_word_shorter(text, 0);
            lemma_word_shorter(text, 2);
            law_int_failure_is_mismatch(w[0], table);
            law_int_failure_is_mismatch(w[2], table);
        }
    }
}

/// A line fails to parse only where it declares an `int`, and then with a
/// type mismatch tagged with the line's number.
pub proof fn law_line_fails_only_as_int(line: Seq<char>, n: usize, table: Bindings)
    ensures
        statement_of(line, n, table) matches Err(e) ==> {
            &&& is_declaration(line)
            &&& first_word(line) == "int"@
            &&& e.line == n
            &&& e.cause is TypeMismatch
        },
{
    if is_declaration(line) {
        if first_word(line) == "int"@ {
            law_int_failure_is_mismatch(declared_text(line), table);
        } else {
            law_fails_only_as_int(declared_text(line), Some(first_word(line)), table);
        }
    } else {
        law_fails_only_as_int(condition_text(line), None, table);
        law_fails_only_as_int(line, None, table);
    }
}

/// Every statement that a pass reads carries the number of the line it came
/// from: the numbers start at 1, do not exceed the number of lines read, and
/// grow along the sequence. The error that stops a pass carries the number
/// of a line after every statement read.
pub proof fn law_statement_lines(lines: Seq<Seq<char>>, k: int, table: Bindings)
    requires
        0 <= k <= lines.len(),
        k <= usize::MAX,
    ensures
        ({
            let out = lines_upto(lines, k, table);
            &&& forall|i: int|
                0 <= i < out.statements.len() ==> 1 <= (#[trigger] out.statements[i]).line() <= k
            &&& forall|i: int, j: int|
                0 <= i < j < out.statements.len() ==> (#[trigger] out.statements[i]).line() < (
                #[trigger] out.statements[j]).line()
            &&& out.error matches Some(e) ==> {
                &&& 1 <= e.line <= k
                &&& forall|i: int|
                    0 <= i < out.statements.len() ==> (#[trigger] out.statements[i]).line()
                        < e.line
            }
        }),
    decreases k,
{
    if k > 0 {
        law_statement_lines(lines, k - 1, table);
        let before = lines_upto(lines, k - 1, table);
        let line = trim(lines[k - 1]);
        let out = lines_upto(lines, k, table);
        assert(out == after_line(before, line, k as usize));
        if before.error is None && line.len() > 0 {
            match statement_of(line, k as usize, before.table) {
                Ok(outcome) => {
                    if let Some(s) = outcome.statement {
                        assert(s.line() == k);
                        assert(out.statements == before.statements.push(s));
                    }
                },
                Err(e) => {
                    assert(e.line == k);
                },
            }
        }
    }
}

/// A conditional that a line parses to has an empty body.
pub proof fn law_conditional_body_is_empty(line: Seq<char>, n: usize, table: Bindings)
    ensures
        statement_of(line, n, table) matches Ok(outcome) ==> (outcome.statement matches Some(
            StmtView::If { body, .. },
        ) ==> body.len() == 0),
{
}

/// Only a declaration changes the bindings, and it changes the binding of
/// the declared name alone.
pub proof fn law_only_declarations_bind(line: Seq<char>, n: usize, table: Bindings)
    ensures
        statement_of(line, n, table) matches Ok(outcome) ==> {
            &&& !is_declaration(line) ==> outcome.table == table
            &&& is_declaration(line) ==> (outcome.statement matches Some(
                StmtView::Assignment { name, value, .. },
            ) && outcome.table == table.insert(name, value))
        },
{
}

} // verus!
