//! The grammar, as mathematics: what each text parses to.
//!
//! Expressions are recognised by priority, first match wins. A line is one of
//! three statement shapes or nothing. A program is its lines in order, up to
//! the first line that fails.

use vstd::prelude::*;
use crate::number::parse_int;
use crate::split::{
    lemma_split_on_shape, lemma_total_len_bounds, lemma_word_shorter, split_on, token_len, words,
};
use crate::text::{
    first_index, last_index, lemma_first_index, lemma_last_index, lemma_trim_shorter, trim,
    trim_start,
};
use super::error::{ParseErrorView, StmtErrorView};
use super::structure::{ExprView, LiteralView, StmtView};

verus! {

/// The bindings of a symbol table: the value most recently bound to each
/// name.
pub type Bindings = Map<Seq<char>, ExprView>;

/// `text` without its first and its last character; empty where `text` has
/// fewer than two.
pub open spec fn strip_ends(text: Seq<char>) -> Seq<char> {
    if text.len() >= 2 {
        text.subrange(1, text.len() - 1)
    } else {
        Seq::empty()
    }
}

/// `text` starts and ends with a double quote.
pub open spec fn is_quoted(text: Seq<char>) -> bool {
    text.len() > 0 && text.first() == '"' && text.last() == '"'
}

/// `text` holds a `+` or a `-`.
pub open spec fn has_sign(text: Seq<char>) -> bool {
    text.contains('+') || text.contains('-')
}

/// `text` holds both an opening and a closing parenthesis.
pub open spec fn is_call_shaped(text: Seq<char>) -> bool {
    text.contains('(') && text.contains(')')
}

/// The name of a call: what stands before the first `(`.
pub open spec fn call_name(text: Seq<char>) -> Seq<char> {
    text.take(first_index(text, '('))
}

/// The argument text of a call: what stands between the first `(` and the
/// last `)`; empty where the last `)` does not come after the first `(`.
pub open spec fn call_inner(text: Seq<char>) -> Seq<char> {
    let open = first_index(text, '(');
    let close = last_index(text, ')');
    if open < close {
        text.subrange(open + 1, close)
    } else {
        Seq::empty()
    }
}

/// The argument texts of a call: the argument text split on `,`, each piece
/// trimmed.
pub open spec fn call_pieces(text: Seq<char>) -> Seq<Seq<char>> {
    let raw = split_on(call_inner(text), ',');
    Seq::new(raw.len(), |k: int| trim(raw[k]))
}

/// Every argument text of a call is shorter than the call.
pub proof fn lemma_piece_shorter(text: Seq<char>, k: int)
    requires
        is_call_shaped(text),
        0 <= k < call_pieces(text).len(),
    ensures
        call_pieces(text)[k].len() < text.len(),
{
    let inner = call_inner(text);
    let raw = split_on(inner, ',');
    lemma_first_index(text, '(');
    lemma_last_index(text, ')');
    lemma_split_on_shape(inner, ',');
    lemma_total_len_bounds(raw, k);
    lemma_trim_shorter(raw[k]);
}

/// What an expression text parses to, in the context of a declared type
/// (`ty`) or of none, with the variables bound in `table`.
pub open spec fn expression_of(text: Seq<char>, ty: Option<Seq<char>>, table: Bindings) -> Result<
    ExprView,
    ParseErrorView,
>
    decreases text.len(), 1int, 0int,
{
    if ty == Some("str"@) {
        Ok(ExprView::Literal(LiteralView::Str(strip_ends(text))))
    } else if ty == Some("int"@) {
        if has_sign(text) {
            binary_of(text, ty, table)
        } else if let Some(i) = parse_int(text) {
            Ok(ExprView::Literal(LiteralView::Integer(i)))
        } else if table.contains_key(text) {
            Ok(table[text])
        } else {
            Err(ParseErrorView::TypeMismatch { expected: "int"@, found: text })
        }
    } else if is_quoted(text) {
        Ok(ExprView::Literal(LiteralView::Str(strip_ends(text))))
    } else if let Some(i) = parse_int(text) {
        Ok(ExprView::Literal(LiteralView::Integer(i)))
    } else if has_sign(text) {
        binary_of(text, ty, table)
    } else if is_call_shaped(text) {
        match arguments_of(text, call_pieces(text).len() as int, table) {
            Ok(arguments) => Ok(ExprView::FunctionCall { name: call_name(text), arguments }),
            Err(e) => Err(e),
        }
    } else {
        Ok(ExprView::Variable(text))
    }
}

/// What a text with a sign in it parses to: a binary node where the text is
/// exactly three words, else a variable named by the whole text.
pub open spec fn binary_of(text: Seq<char>, ty: Option<Seq<char>>, table: Bindings) -> Result<
    ExprView,
    ParseErrorView,
>
    decreases text.len(), 0int, 0int,
{
    let w = words(text);
    if w.len() == 3 {
        proof {
            lemma_word_shorter(text, 0);
            lemma_word_shorter(text, 2);
        }
        match expression_of(w[0], ty, table) {
            Err(e) => Err(e),
            Ok(left) => match expression_of(w[2], ty, table) {
                Err(e) => Err(e),
                Ok(right) => Ok(
                    ExprView::Binary {
                        left: Box::new(left),
                        operator: w[1],
                        right: Box::new(right),
                    },
                ),
            },
        }
    } else {
        Ok(ExprView::Variable(text))
    }
}

/// What the first `k` argument texts of a call parse to, each without a
/// declared type: the arguments in order, or a failure where one fails.
pub open spec fn arguments_of(text: Seq<char>, k: int, table: Bindings) -> Result<
    Seq<ExprView>,
    ParseErrorView,
>
    decreases text.len(), 0int, k,
    when is_call_shaped(text) && 0 <= k <= call_pieces(text).len()
{
    if k == 0 {
        Ok(Seq::empty())
    } else {
        proof {
            lemma_piece_shorter(text, k - 1);
        }
        match arguments_of(text, k - 1, table) {
            Err(e) => Err(e),
            Ok(before) => match expression_of(call_pieces(text)[k - 1], None, table) {
                Ok(argument) => Ok(before.push(argument)),
                Err(_) => Err(ParseErrorView::MalformedCallArgument),
            },
        }
    }
}

/// `word` is one of the reserved type keywords.
pub open spec fn is_keyword(word: Seq<char>) -> bool {
    word == "int"@ || word == "float"@ || word == "str"@ || word == "bool"@
}

/// The first word of `line`.
pub open spec fn first_word(line: Seq<char>) -> Seq<char> {
    let t = trim_start(line);
    t.take(token_len(t))
}

/// What follows the first word of `line`.
pub open spec fn after_first_word(line: Seq<char>) -> Seq<char> {
    let t = trim_start(line);
    t.skip(token_len(t))
}

/// `line` declares a variable: a type keyword, then text with a `=` in it.
pub open spec fn is_declaration(line: Seq<char>) -> bool {
    is_keyword(first_word(line)) && after_first_word(line).contains('=')
}

/// The name that a declaration binds: what stands between the keyword and
/// the first `=`, trimmed.
pub open spec fn declared_name(line: Seq<char>) -> Seq<char> {
    let rest = after_first_word(line);
    trim(rest.take(first_index(rest, '=')))
}

/// The text of the value that a declaration binds: what follows the first
/// `=`, trimmed.
pub open spec fn declared_text(line: Seq<char>) -> Seq<char> {
    let rest = after_first_word(line);
    trim(rest.skip(first_index(rest, '=') + 1))
}

/// `line` starts with `if`.
pub open spec fn is_conditional(line: Seq<char>) -> bool {
    line.len() >= 2 && line[0] == 'i' && line[1] == 'f'
}

/// The text of a conditional's condition: what follows the third character.
pub open spec fn condition_text(line: Seq<char>) -> Seq<char> {
    if line.len() >= 3 {
        line.skip(3)
    } else {
        Seq::empty()
    }
}

/// What a line leaves behind: a statement or none, and the bindings after
/// it.
pub struct LineOutcome {
    pub statement: Option<StmtView>,
    pub table: Bindings,
}

/// What `line`, numbered `n`, parses to with the variables bound in `table`:
/// a declaration, else a conditional, else a bare call, else nothing.
pub open spec fn statement_of(line: Seq<char>, n: usize, table: Bindings) -> Result<
    LineOutcome,
    StmtErrorView,
> {
    if is_declaration(line) {
        match expression_of(declared_text(line), Some(first_word(line)), table) {
            Ok(value) => Ok(
                LineOutcome {
                    statement: Some(
                        StmtView::Assignment { line: n, name: declared_name(line), value },
                    ),
                    table: table.insert(declared_name(line), value),
                },
            ),
            Err(cause) => Err(StmtErrorView { line: n, cause }),
        }
    } else if is_conditional(line) {
        match expression_of(condition_text(line), None, table) {
            Ok(condition) => Ok(
                LineOutcome {
                    statement: Some(StmtView::If { line: n, condition, body: Seq::empty() }),
                    table,
                },
            ),
            Err(cause) => Err(StmtErrorView { line: n, cause }),
        }
    } else if is_call_shaped(line) {
        match expression_of(line, None, table) {
            Ok(expression) => Ok(
                LineOutcome { statement: Some(StmtView::Expression { line: n, expression }), table },
            ),
            Err(cause) => Err(StmtErrorView { line: n, cause }),
        }
    } else {
        Ok(LineOutcome { statement: None, table })
    }
}

/// What a pass over a program leaves behind: the statements read, the error
/// that stopped it if one did, and the bindings at its end.
pub struct ProgramOutcome {
    pub statements: Seq<StmtView>,
    pub error: Option<StmtErrorView>,
    pub table: Bindings,
}

/// The outcome after one more line, numbered `n`: unchanged where the pass
/// has failed before or the line is empty, else with what the line parses to.
pub open spec fn after_line(before: ProgramOutcome, line: Seq<char>, n: usize) -> ProgramOutcome {
    if before.error is Some || line.len() == 0 {
        before
    } else {
        match statement_of(line, n, before.table) {
            Err(e) => ProgramOutcome { error: Some(e), ..before },
            Ok(outcome) => ProgramOutcome {
                statements: match outcome.statement {
                    Some(s) => before.statements.push(s),
                    None => before.statements,
                },
                error: None,
                table: outcome.table,
            },
        }
    }
}

/// The outcome of the first `k` of `lines`, numbered from 1 and trimmed.
/// Blank lines are skipped; after a line that fails nothing more is read.
pub open spec fn lines_upto(lines: Seq<Seq<char>>, k: int, table: Bindings) -> ProgramOutcome
    decreases k,
{
    if k <= 0 {
        ProgramOutcome { statements: Seq::empty(), error: None, table }
    } else {
        after_line(lines_upto(lines, k - 1, table), trim(lines[k - 1]), k as usize)
    }
}

/// The outcome of a pass over `source`, one statement candidate per line,
/// starting with the variables bound in `table`.
pub open spec fn program_of(source: Seq<char>, table: Bindings) -> ProgramOutcome {
    let lines = split_on(source, '\n');
    lines_upto(lines, lines.len() as int, table)
}

} // verus!
