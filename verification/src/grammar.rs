//! The declaration grammar, stated mathematically: recursive functions over a
//! sequence of characters that say, position by position, what the tokenizer
//! recognizes and what raw parse tree a document denotes. The executable
//! parser is verified against these functions clause for clause.
use crate::ast::ErrorKind;
use crate::ast::SpecDirective;
use crate::ast::SpecDirectiveKind;
use crate::ast::SpecError;
use crate::ast::SpecRawAttribute;
use crate::ast::SpecRawInterface;
use vstd::prelude::*;

verus! {

// ---------------------------------------------------------------------------
// Character classes
// ---------------------------------------------------------------------------
pub open spec fn is_space(c: char) -> bool {
    c == ' ' || c == '\t' || c == '\r' || c == '\n'
}

pub open spec fn is_blank(c: char) -> bool {
    c == ' ' || c == '\t'
}

pub open spec fn is_ident_start(c: char) -> bool {
    ('a' <= c && c <= 'z') || ('A' <= c && c <= 'Z') || c == '_'
}

pub open spec fn is_ident_char(c: char) -> bool {
    is_ident_start(c) || ('0' <= c && c <= '9')
}

/// Characters allowed inside a directive argument: anything up to the closing
/// semicolon that cannot collide with the end of the enclosing comment.
pub open spec fn is_arg_char(c: char) -> bool {
    c != ';' && c != '*' && c != '\n' && c != '\r'
}

// ---------------------------------------------------------------------------
// Keywords and directive words
// ---------------------------------------------------------------------------
pub open spec fn kw_interface() -> Seq<char> {
    seq!['i', 'n', 't', 'e', 'r', 'f', 'a', 'c', 'e']
}

pub open spec fn kw_string() -> Seq<char> {
    seq!['s', 't', 'r', 'i', 'n', 'g']
}

pub open spec fn kw_number() -> Seq<char> {
    seq!['n', 'u', 'm', 'b', 'e', 'r']
}

pub open spec fn kw_boolean() -> Seq<char> {
    seq!['b', 'o', 'o', 'l', 'e', 'a', 'n']
}

pub open spec fn kw_rename() -> Seq<char> {
    seq!['r', 'e', 'n', 'a', 'm', 'e']
}

pub open spec fn kw_retype() -> Seq<char> {
    seq!['r', 'e', 't', 'y', 'p', 'e']
}

pub open spec fn kw_skip() -> Seq<char> {
    seq!['s', 'k', 'i', 'p']
}

pub open spec fn kw_derive() -> Seq<char> {
    seq!['d', 'e', 'r', 'i', 'v', 'e']
}

pub open spec fn kw_skip_derive_serde() -> Seq<char> {
    seq!['s', 'k', 'i', 'p', '_', 'd', 'e', 'r', 'i', 'v', 'e', '_', 's', 'e', 'r', 'd', 'e']
}

// ---------------------------------------------------------------------------
// Rendered target types
// ---------------------------------------------------------------------------
pub open spec fn ty_number() -> Seq<char> {
    seq!['f', '6', '4']
}

pub open spec fn ty_string() -> Seq<char> {
    seq!['S', 't', 'r', 'i', 'n', 'g']
}

pub open spec fn ty_boolean() -> Seq<char> {
    seq!['b', 'o', 'o', 'l']
}

pub open spec fn wrap_vec(t: Seq<char>) -> Seq<char> {
    seq!['V', 'e', 'c', '<'] + t + seq!['>']
}

pub open spec fn wrap_option(t: Seq<char>) -> Seq<char> {
    seq!['O', 'p', 't', 'i', 'o', 'n', '<'] + t + seq!['>']
}

/// The uppercase form of an ASCII lowercase letter; every other ASCII
/// character is unchanged.
pub open spec fn upper_char(c: char) -> char {
    if 'a' <= c && c <= 'z' {
        ((c as u8) - 32) as char
    } else {
        c
    }
}

/// What uppercasing one character yields beyond ASCII: the (possibly
/// multi-character) Unicode uppercase mapping, a function of the character
/// alone, named because only the Unicode tables state it.
pub uninterp spec fn upper_of(c: char) -> Seq<char>;

/// The uppercase mapping of a leading character, as a character sequence.
/// Within ASCII it is stated exactly: a lowercase letter maps to its
/// uppercase letter, anything else to itself. Beyond ASCII it is the named
/// Unicode mapping, which may be more than one character.
pub open spec fn upper_first(c: char) -> Seq<char> {
    if (c as u32) < 128 {
        seq![upper_char(c)]
    } else {
        upper_of(c)
    }
}

/// A name with its first character capitalized, the transform applied to an
/// identifier used as a named type reference. Empty input stays empty, and a
/// leading character with no cased mapping stays as it is.
pub open spec fn capitalize_seq(s: Seq<char>) -> Seq<char> {
    if s.len() == 0 {
        s
    } else {
        upper_first(s[0]) + s.drop_first()
    }
}

// ---------------------------------------------------------------------------
// Scanners: each returns the position where its run of characters ends.
// ---------------------------------------------------------------------------
pub open spec fn ws_end(s: Seq<char>, i: nat) -> nat
    decreases s.len() - i,
{
    if i >= s.len() || !is_space(s[i as int]) {
        i
    } else {
        ws_end(s, i + 1)
    }
}

pub open spec fn blank_end(s: Seq<char>, i: nat) -> nat
    decreases s.len() - i,
{
    if i >= s.len() || !is_blank(s[i as int]) {
        i
    } else {
        blank_end(s, i + 1)
    }
}

pub open spec fn ident_end(s: Seq<char>, i: nat) -> nat
    decreases s.len() - i,
{
    if i >= s.len() || !is_ident_char(s[i as int]) {
        i
    } else {
        ident_end(s, i + 1)
    }
}

pub open spec fn arg_end(s: Seq<char>, i: nat) -> nat
    decreases s.len() - i,
{
    if i >= s.len() || !is_arg_char(s[i as int]) {
        i
    } else {
        arg_end(s, i + 1)
    }
}

/// The end of a directive argument with trailing blanks removed: the least
/// prefix end within [a, b] whose last character is not a blank.
pub open spec fn rtrim(s: Seq<char>, a: nat, b: nat) -> nat
    decreases b - a,
{
    if b <= a || !is_blank(s[b - 1]) {
        b
    } else {
        rtrim(s, a, (b - 1) as nat)
    }
}

/// The position of the first line break at or after `i`, or the end of input.
pub open spec fn line_end(s: Seq<char>, i: nat) -> nat
    decreases s.len() - i,
{
    if i >= s.len() || s[i as int] == '\n' {
        i
    } else {
        line_end(s, i + 1)
    }
}

/// The position of the `*/` that closes an ordinary block comment whose body
/// starts at `i`, or the end of input if the comment is never closed.
pub open spec fn block_close(s: Seq<char>, i: nat) -> nat
    decreases s.len() - i,
{
    if i >= s.len() {
        s.len()
    } else if s[i as int] == '*' && i + 1 < s.len() && s[(i + 1) as int] == '/' {
        i
    } else {
        block_close(s, i + 1)
    }
}

/// The position just after the `}` that closes a brace block already entered
/// to depth `depth`; used only to step over non-interface noise, so an
/// unbalanced block simply ends with the input.
pub open spec fn brace_end(s: Seq<char>, i: nat, depth: nat) -> nat
    decreases s.len() - i,
{
    if i >= s.len() {
        s.len()
    } else if s[i as int] == '{' {
        brace_end(s, i + 1, depth + 1)
    } else if s[i as int] == '}' {
        if depth <= 1 {
            i + 1
        } else {
            brace_end(s, i + 1, (depth - 1) as nat)
        }
    } else {
        brace_end(s, i + 1, depth)
    }
}

// ---------------------------------------------------------------------------
// Bounds of the scanners
// ---------------------------------------------------------------------------
pub proof fn ws_end_bounds(s: Seq<char>, i: nat)
    ensures
        i <= ws_end(s, i),
        i <= s.len() ==> ws_end(s, i) <= s.len(),
    decreases s.len() - i,
{
    if i < s.len() && is_space(s[i as int]) {
        ws_end_bounds(s, i + 1);
    }
}

pub proof fn blank_end_bounds(s: Seq<char>, i: nat)
    ensures
        i <= blank_end(s, i),
        i <= s.len() ==> blank_end(s, i) <= s.len(),
    decreases s.len() - i,
{
    if i < s.len() && is_blank(s[i as int]) {
        blank_end_bounds(s, i + 1);
    }
}

pub proof fn ident_end_bounds(s: Seq<char>, i: nat)
    ensures
        i <= ident_end(s, i),
        i <= s.len() ==> ident_end(s, i) <= s.len(),
    decreases s.len() - i,
{
    if i < s.len() && is_ident_char(s[i as int]) {
        ident_end_bounds(s, i + 1);
    }
}

pub proof fn arg_end_bounds(s: Seq<char>, i: nat)
    ensures
        i <= arg_end(s, i),
        i <= s.len() ==> arg_end(s, i) <= s.len(),
    decreases s.len() - i,
{
    if i < s.len() && is_arg_char(s[i as int]) {
        arg_end_bounds(s, i + 1);
    }
}

pub proof fn line_end_bounds(s: Seq<char>, i: nat)
    ensures
        i <= line_end(s, i),
        i <= s.len() ==> line_end(s, i) <= s.len(),
    decreases s.len() - i,
{
    if i < s.len() && s[i as int] != '\n' {
        line_end_bounds(s, i + 1);
    }
}

pub proof fn block_close_bounds(s: Seq<char>, i: nat)
    ensures
        i <= s.len() ==> i <= block_close(s, i) <= s.len(),
        block_close(s, i) < s.len() ==> block_close(s, i) + 2 <= s.len(),
    decreases s.len() - i,
{
    if i < s.len() && !(s[i as int] == '*' && i + 1 < s.len() && s[(i + 1) as int] == '/') {
        block_close_bounds(s, i + 1);
    }
}

pub proof fn brace_end_bounds(s: Seq<char>, i: nat, depth: nat)
    ensures
        i <= s.len() ==> i <= brace_end(s, i, depth) <= s.len(),
    decreases s.len() - i,
{
    if i < s.len() {
        if s[i as int] == '{' {
            brace_end_bounds(s, i + 1, depth + 1);
        } else if s[i as int] == '}' {
            if depth > 1 {
                brace_end_bounds(s, i + 1, (depth - 1) as nat);
            }
        } else {
            brace_end_bounds(s, i + 1, depth);
        }
    }
}

// ---------------------------------------------------------------------------
// Trivia: what the grammar treats as whitespace.
// ---------------------------------------------------------------------------
/// Between declarations, whitespace and every comment — line comments and
/// block comments of any shape — are stepped over silently.
pub open spec fn trivia_top(s: Seq<char>, i: nat) -> nat
    decreases s.len() - i,
    via trivia_top_dec
{
    let j = ws_end(s, i);
    if j + 2 <= s.len() && s[j as int] == '/' && s[(j + 1) as int] == '/' {
        let e = line_end(s, j + 2);
        if e >= s.len() {
            s.len()
        } else {
            trivia_top(s, e + 1)
        }
    } else if j + 2 <= s.len() && s[j as int] == '/' && s[(j + 1) as int] == '*' {
        let e = block_close(s, j + 2);
        if e >= s.len() {
            s.len()
        } else {
            trivia_top(s, e + 2)
        }
    } else {
        j
    }
}

#[via_fn]
proof fn trivia_top_dec(s: Seq<char>, i: nat) {
    ws_end_bounds(s, i);
    line_end_bounds(s, ws_end(s, i) + 2);
    block_close_bounds(s, ws_end(s, i) + 2);
}

/// Inside an interface body, and between an attribute and its trailing option
/// comments, whitespace and ordinary comments are stepped over — but a
/// comment shaped as an option block (`/**` or `//-`) is not: it is
/// significant there. An unclosed ordinary block comment is also left in
/// place, to be reported by the surrounding rule.
pub open spec fn trivia_body(s: Seq<char>, i: nat) -> nat
    decreases s.len() - i,
    via trivia_body_dec
{
    let j = ws_end(s, i);
    if j + 2 <= s.len() && s[j as int] == '/' && s[(j + 1) as int] == '/' && !(j + 2 < s.len() && s[(j + 2) as int]
        == '-') {
        let e = line_end(s, j + 2);
        if e >= s.len() {
            s.len()
        } else {
            trivia_body(s, e + 1)
        }
    } else if j + 2 <= s.len() && s[j as int] == '/' && s[(j + 1) as int] == '*' && !(j + 2 < s.len() && s[(j + 2) as int] == '*') {
        let e = block_close(s, j + 2);
        if e >= s.len() {
            j
        } else {
            trivia_body(s, e + 2)
        }
    } else {
        j
    }
}

#[via_fn]
proof fn trivia_body_dec(s: Seq<char>, i: nat) {
    ws_end_bounds(s, i);
    line_end_bounds(s, ws_end(s, i) + 2);
    block_close_bounds(s, ws_end(s, i) + 2);
}

pub proof fn trivia_top_bounds(s: Seq<char>, i: nat)
    ensures
        i <= trivia_top(s, i),
        i <= s.len() ==> trivia_top(s, i) <= s.len(),
    decreases s.len() - i,
{
    ws_end_bounds(s, i);
    let j = ws_end(s, i);
    if j + 2 <= s.len() && s[j as int] == '/' && s[(j + 1) as int] == '/' {
        line_end_bounds(s, j + 2);
        let e = line_end(s, j + 2);
        if e < s.len() {
            trivia_top_bounds(s, e + 1);
        }
    } else if j + 2 <= s.len() && s[j as int] == '/' && s[(j + 1) as int] == '*' {
        block_close_bounds(s, j + 2);
        let e = block_close(s, j + 2);
        if e < s.len() {
            trivia_top_bounds(s, e + 2);
        }
    }
}

pub proof fn trivia_body_bounds(s: Seq<char>, i: nat)
    ensures
        i <= trivia_body(s, i),
        i <= s.len() ==> trivia_body(s, i) <= s.len(),
    decreases s.len() - i,
{
    ws_end_bounds(s, i);
    let j = ws_end(s, i);
    if j + 2 <= s.len() && s[j as int] == '/' && s[(j + 1) as int] == '/' && !(j + 2 < s.len() && s[(j + 2) as int]
        == '-') {
        line_end_bounds(s, j + 2);
        let e = line_end(s, j + 2);
        if e < s.len() {
            trivia_body_bounds(s, e + 1);
        }
    } else if j + 2 <= s.len() && s[j as int] == '/' && s[(j + 1) as int] == '*' && !(j + 2 < s.len() && s[(j + 2) as int] == '*') {
        block_close_bounds(s, j + 2);
        let e = block_close(s, j + 2);
        if e < s.len() {
            trivia_body_bounds(s, e + 2);
        }
    }
}

// ---------------------------------------------------------------------------
// Option clauses
// ---------------------------------------------------------------------------
/// One directive clause, `directive;` or `directive: argument;`, starting at
/// the directive word. The argument keeps its inner characters verbatim, with
/// surrounding blanks removed.
pub open spec fn clause(s: Seq<char>, i: nat) -> Result<(SpecDirective, nat), SpecError> {
    let b = ident_end(s, i);
    if b <= i {
        Err(SpecError { pos: i as int, kind: ErrorKind::ExpectedDirective })
    } else {
        let word = s.subrange(i as int, b as int);
        let j = ws_end(s, b);
        if j < s.len() && s[j as int] == ':' {
            let k = ws_end(s, j + 1);
            let e = arg_end(s, k);
            let t = rtrim(s, k, e);
            if e >= s.len() || s[e as int] != ';' {
                Err(SpecError { pos: e as int, kind: ErrorKind::ExpectedSemicolon })
            } else if t <= k {
                Err(SpecError { pos: k as int, kind: ErrorKind::ExpectedArgument })
            } else {
                let arg = s.subrange(k as int, t as int);
                if word == kw_rename() {
                    Ok(
                        (
                            SpecDirective { pos: i as int, kind: SpecDirectiveKind::Rename(arg) },
                            e + 1,
                        ),
                    )
                } else if word == kw_retype() {
                    Ok(
                        (
                            SpecDirective { pos: i as int, kind: SpecDirectiveKind::Retype(arg) },
                            e + 1,
                        ),
                    )
                } else if word == kw_derive() {
                    Ok(
                        (
                            SpecDirective { pos: i as int, kind: SpecDirectiveKind::Derive(arg) },
                            e + 1,
                        ),
                    )
                } else {
                    Err(SpecError { pos: i as int, kind: ErrorKind::UnknownDirective })
                }
            }
        } else if j < s.len() && s[j as int] == ';' {
            if word == kw_skip() {
                Ok((SpecDirective { pos: i as int, kind: SpecDirectiveKind::Skip }, j + 1))
            } else if word == kw_skip_derive_serde() {
                Ok(
                    (
                        SpecDirective {
                            pos: i as int,
                            kind: SpecDirectiveKind::SkipDefaultDerives,
                        },
                        j + 1,
                    ),
                )
            } else {
                Err(SpecError { pos: i as int, kind: ErrorKind::UnknownDirective })
            }
        } else {
            Err(SpecError { pos: j as int, kind: ErrorKind::ExpectedSemicolon })
        }
    }
}

pub proof fn clause_bounds(s: Seq<char>, i: nat)
    ensures
        clause(s, i) matches Ok((d, p)) ==> i < p <= s.len(),
{
    ident_end_bounds(s, i);
    let b = ident_end(s, i);
    ws_end_bounds(s, b);
    let j = ws_end(s, b);
    ws_end_bounds(s, j + 1);
    let k = ws_end(s, j + 1);
    arg_end_bounds(s, k);
}

/// The clauses of a `/** ... **/` option block, starting just after the
/// opening marker and ending just after the closing one.
pub open spec fn block_clauses(s: Seq<char>, i: nat, acc: Seq<SpecDirective>) -> Result<
    (Seq<SpecDirective>, nat),
    SpecError,
>
    decreases s.len() - i,
    via block_clauses_dec
{
    let j = ws_end(s, i);
    if j + 3 <= s.len() && s[j as int] == '*' && s[(j + 1) as int] == '*' && s[(j + 2) as int] == '/' {
        Ok((acc, j + 3))
    } else if j >= s.len() {
        Err(SpecError { pos: j as int, kind: ErrorKind::UnclosedOptionBlock })
    } else if !is_ident_start(s[j as int]) {
        Err(SpecError { pos: j as int, kind: ErrorKind::ExpectedDirective })
    } else {
        match clause(s, j) {
            Ok((d, p)) => block_clauses(s, p, acc.push(d)),
            Err(e) => Err(e),
        }
    }
}

#[via_fn]
proof fn block_clauses_dec(s: Seq<char>, i: nat, acc: Seq<SpecDirective>) {
    ws_end_bounds(s, i);
    clause_bounds(s, ws_end(s, i));
}

pub proof fn block_clauses_bounds(s: Seq<char>, i: nat, acc: Seq<SpecDirective>)
    ensures
        block_clauses(s, i, acc) matches Ok((a, p)) ==> i < p <= s.len(),
    decreases s.len() - i,
{
    ws_end_bounds(s, i);
    let j = ws_end(s, i);
    clause_bounds(s, j);
    if !(j + 3 <= s.len() && s[j as int] == '*' && s[(j + 1) as int] == '*' && s[(j + 2) as int] == '/') && j
        < s.len() && is_ident_start(s[j as int]) {
        if let Ok((d, p)) = clause(s, j) {
            block_clauses_bounds(s, p, acc.push(d));
        }
    }
}

/// The clauses of a `//- ...` option comment, which run to the end of the
/// line.
pub open spec fn line_clauses(s: Seq<char>, i: nat, acc: Seq<SpecDirective>) -> Result<
    (Seq<SpecDirective>, nat),
    SpecError,
>
    decreases s.len() - i,
    via line_clauses_dec
{
    let j = blank_end(s, i);
    if j >= s.len() || s[j as int] == '\n' || s[j as int] == '\r' {
        Ok((acc, j))
    } else {
        match clause(s, j) {
            Ok((d, p)) => line_clauses(s, p, acc.push(d)),
            Err(e) => Err(e),
        }
    }
}

#[via_fn]
proof fn line_clauses_dec(s: Seq<char>, i: nat, acc: Seq<SpecDirective>) {
    blank_end_bounds(s, i);
    clause_bounds(s, blank_end(s, i));
}

pub proof fn line_clauses_bounds(s: Seq<char>, i: nat, acc: Seq<SpecDirective>)
    ensures
        line_clauses(s, i, acc) matches Ok((a, p)) ==> i <= p && (i <= s.len() ==> p <= s.len()),
    decreases s.len() - i,
{
    blank_end_bounds(s, i);
    let j = blank_end(s, i);
    clause_bounds(s, j);
    if !(j >= s.len() || s[j as int] == '\n' || s[j as int] == '\r') {
        if let Ok((d, p)) = clause(s, j) {
            line_clauses_bounds(s, p, acc.push(d));
        }
    }
}

/// All option directives trailing one attribute or one interface: zero or
/// more comment blocks of either shape, possibly separated by ordinary
/// comments, their clauses kept in source order across blocks.
pub open spec fn opt_blocks(s: Seq<char>, i: nat, acc: Seq<SpecDirective>) -> Result<
    (Seq<SpecDirective>, nat),
    SpecError,
>
    decreases s.len() - i,
    via opt_blocks_dec
{
    let j = trivia_body(s, i);
    if j + 3 <= s.len() && s[j as int] == '/' && s[(j + 1) as int] == '*' && s[(j + 2) as int] == '*' {
        match block_clauses(s, j + 3, acc) {
            Ok((a, p)) => opt_blocks(s, p, a),
            Err(e) => Err(e),
        }
    } else if j + 3 <= s.len() && s[j as int] == '/' && s[(j + 1) as int] == '/' && s[(j + 2) as int] == '-' {
        match line_clauses(s, j + 3, acc) {
            Ok((a, p)) => opt_blocks(s, p, a),
            Err(e) => Err(e),
        }
    } else {
        Ok((acc, j))
    }
}

#[via_fn]
proof fn opt_blocks_dec(s: Seq<char>, i: nat, acc: Seq<SpecDirective>) {
    trivia_body_bounds(s, i);
    let j = trivia_body(s, i);
    block_clauses_bounds(s, j + 3, acc);
    line_clauses_bounds(s, j + 3, acc);
}

pub proof fn opt_blocks_bounds(s: Seq<char>, i: nat, acc: Seq<SpecDirective>)
    ensures
        opt_blocks(s, i, acc) matches Ok((a, p)) ==> i <= p && (i <= s.len() ==> p <= s.len()),
    decreases s.len() - i,
{
    trivia_body_bounds(s, i);
    let j = trivia_body(s, i);
    if j + 3 <= s.len() && s[j as int] == '/' && s[(j + 1) as int] == '*' && s[(j + 2) as int] == '*' {
        block_clauses_bounds(s, j + 3, acc);
        if let Ok((a, p)) = block_clauses(s, j + 3, acc) {
            opt_blocks_bounds(s, p, a);
        }
    } else if j + 3 <= s.len() && s[j as int] == '/' && s[(j + 1) as int] == '/' && s[(j + 2) as int] == '-' {
        line_clauses_bounds(s, j + 3, acc);
        if let Ok((a, p)) = line_clauses(s, j + 3, acc) {
            opt_blocks_bounds(s, p, a);
        }
    }
}

// ---------------------------------------------------------------------------
// Type expressions
// ---------------------------------------------------------------------------
/// Zero or more `[]` suffixes after a base type, each wrapping the rendered
/// type in one more sequence layer.
pub open spec fn array_suffixes(s: Seq<char>, i: nat, t: Seq<char>) -> (Seq<char>, nat)
    decreases s.len() - i,
{
    if i + 2 <= s.len() && s[i as int] == '[' && s[(i + 1) as int] == ']' {
        array_suffixes(s, i + 2, wrap_vec(t))
    } else {
        (t, i)
    }
}

pub proof fn array_suffixes_bounds(s: Seq<char>, i: nat, t: Seq<char>)
    ensures
        i <= array_suffixes(s, i, t).1,
        i <= s.len() ==> array_suffixes(s, i, t).1 <= s.len(),
    decreases s.len() - i,
{
    if i + 2 <= s.len() && s[i as int] == '[' && s[(i + 1) as int] == ']' {
        array_suffixes_bounds(s, i + 2, wrap_vec(t));
    }
}

/// A full type expression rendered to its target text: a primitive keyword, a
/// named reference (capitalized), `[]` suffixes, and an optional trailing `?`
/// that wraps the result in an optional.
pub open spec fn type_expr(s: Seq<char>, i: nat) -> Result<(Seq<char>, nat), SpecError> {
    let j = ws_end(s, i);
    if j >= s.len() || !is_ident_start(s[j as int]) {
        Err(SpecError { pos: j as int, kind: ErrorKind::ExpectedType })
    } else {
        let b = ident_end(s, j);
        let w = s.subrange(j as int, b as int);
        let base = if w == kw_string() {
            ty_string()
        } else if w == kw_number() {
            ty_number()
        } else if w == kw_boolean() {
            ty_boolean()
        } else {
            capitalize_seq(w)
        };
        let r = array_suffixes(s, b, base);
        if r.1 < s.len() && s[r.1 as int] == '?' {
            Ok((wrap_option(r.0), r.1 + 1))
        } else {
            Ok((r.0, r.1))
        }
    }
}

pub proof fn type_expr_bounds(s: Seq<char>, i: nat)
    ensures
        type_expr(s, i) matches Ok((t, p)) ==> i < p <= s.len(),
{
    ws_end_bounds(s, i);
    let j = ws_end(s, i);
    ident_end_bounds(s, j);
    let b = ident_end(s, j);
    if j < s.len() && is_ident_start(s[j as int]) {
        ident_end_bounds(s, j + 1);
        assert(ident_end(s, j) == ident_end(s, j + 1));
        let w = s.subrange(j as int, b as int);
        let base = if w == kw_string() {
            ty_string()
        } else if w == kw_number() {
            ty_number()
        } else if w == kw_boolean() {
            ty_boolean()
        } else {
            capitalize_seq(w)
        };
        array_suffixes_bounds(s, b, base);
    }
}

// ---------------------------------------------------------------------------
// Attributes, interfaces, and the document
// ---------------------------------------------------------------------------
/// One field declaration starting at its name (the caller has already seen an
/// identifier there): `name[?] : type ;` followed by its option blocks. A `?`
/// after the name is stripped from it and wraps the type in an optional, on
/// top of any optional marker of the type itself.
pub open spec fn attribute(s: Seq<char>, i: nat) -> Result<(SpecRawAttribute, nat), SpecError> {
    let b = ident_end(s, i);
    let q = b < s.len() && s[b as int] == '?';
    let j0 = if q {
        b + 1
    } else {
        b as nat
    };
    let j = ws_end(s, j0);
    if j >= s.len() || s[j as int] != ':' {
        Err(SpecError { pos: j as int, kind: ErrorKind::ExpectedColon })
    } else {
        match type_expr(s, j + 1) {
            Err(e) => Err(e),
            Ok((t0, k)) => {
                let t1 = if q {
                    wrap_option(t0)
                } else {
                    t0
                };
                let k2 = ws_end(s, k);
                if k2 >= s.len() || s[k2 as int] != ';' {
                    Err(SpecError { pos: k2 as int, kind: ErrorKind::ExpectedSemicolon })
                } else {
                    match opt_blocks(s, k2 + 1, Seq::empty()) {
                        Err(e) => Err(e),
                        Ok((opts, m)) => Ok(
                            (
                                SpecRawAttribute {
                                    name: s.subrange(i as int, b as int),
                                    ts_type: t1,
                                    options: opts,
                                },
                                m,
                            ),
                        ),
                    }
                }
            },
        }
    }
}

pub proof fn attribute_bounds(s: Seq<char>, i: nat)
    ensures
        attribute(s, i) matches Ok((a, p)) ==> i < p <= s.len(),
{
    ident_end_bounds(s, i);
    let b = ident_end(s, i);
    let q = b < s.len() && s[b as int] == '?';
    let j0 = if q {
        b + 1
    } else {
        b as nat
    };
    ws_end_bounds(s, j0);
    let j = ws_end(s, j0);
    type_expr_bounds(s, j + 1);
    if j < s.len() && s[j as int] == ':' {
        if let Ok((t0, k)) = type_expr(s, j + 1) {
            ws_end_bounds(s, k);
            let k2 = ws_end(s, k);
            opt_blocks_bounds(s, k2 + 1, Seq::empty());
        }
    }
}

/// The attributes of an interface body, up to and past the closing `}`.
pub open spec fn body_items(s: Seq<char>, i: nat, acc: Seq<SpecRawAttribute>) -> Result<
    (Seq<SpecRawAttribute>, nat),
    SpecError,
>
    decreases s.len() - i,
    via body_items_dec
{
    let j = trivia_body(s, i);
    if j >= s.len() {
        Err(SpecError { pos: j as int, kind: ErrorKind::ExpectedCloseBrace })
    } else if s[j as int] == '}' {
        Ok((acc, j + 1))
    } else if is_ident_start(s[j as int]) {
        match attribute(s, j) {
            Ok((a, p)) => body_items(s, p, acc.push(a)),
            Err(e) => Err(e),
        }
    } else {
        Err(SpecError { pos: j as int, kind: ErrorKind::ExpectedAttribute })
    }
}

#[via_fn]
proof fn body_items_dec(s: Seq<char>, i: nat, acc: Seq<SpecRawAttribute>) {
    trivia_body_bounds(s, i);
    attribute_bounds(s, trivia_body(s, i));
}

pub proof fn body_items_bounds(s: Seq<char>, i: nat, acc: Seq<SpecRawAttribute>)
    ensures
        body_items(s, i, acc) matches Ok((a, p)) ==> i < p <= s.len(),
    decreases s.len() - i,
{
    trivia_body_bounds(s, i);
    let j = trivia_body(s, i);
    attribute_bounds(s, j);
    if j < s.len() && s[j as int] != '}' && is_ident_start(s[j as int]) {
        if let Ok((a, p)) = attribute(s, j) {
            body_items_bounds(s, p, acc.push(a));
        }
    }
}

/// One interface declaration starting just after the `interface` keyword:
/// name, braced body of attributes, then the interface's own option blocks.
pub open spec fn iface(s: Seq<char>, i: nat) -> Result<(SpecRawInterface, nat), SpecError> {
    let j = trivia_body(s, i);
    if j >= s.len() || !is_ident_start(s[j as int]) {
        Err(SpecError { pos: j as int, kind: ErrorKind::ExpectedIdentifier })
    } else {
        let b = ident_end(s, j);
        let k = trivia_body(s, b);
        if k >= s.len() || s[k as int] != '{' {
            Err(SpecError { pos: k as int, kind: ErrorKind::ExpectedOpenBrace })
        } else {
            match body_items(s, k + 1, Seq::empty()) {
                Err(e) => Err(e),
                Ok((attrs, m)) => match opt_blocks(s, m, Seq::empty()) {
                    Err(e) => Err(e),
                    Ok((opts, p)) => Ok(
                        (
                            SpecRawInterface {
                                name: s.subrange(j as int, b as int),
                                attributes: attrs,
                                options: opts,
                            },
                            p,
                        ),
                    ),
                },
            }
        }
    }
}

pub proof fn iface_bounds(s: Seq<char>, i: nat)
    ensures
        iface(s, i) matches Ok((r, p)) ==> i < p <= s.len(),
{
    trivia_body_bounds(s, i);
    let j = trivia_body(s, i);
    ident_end_bounds(s, j);
    let b = ident_end(s, j);
    trivia_body_bounds(s, b);
    let k = trivia_body(s, b);
    body_items_bounds(s, k + 1, Seq::empty());
    if j < s.len() && is_ident_start(s[j as int]) && k < s.len() && s[k as int] == '{' {
        if let Ok((attrs, m)) = body_items(s, k + 1, Seq::empty()) {
            opt_blocks_bounds(s, m, Seq::empty());
        }
    }
}

/// The whole document: interface declarations in source order, every other
/// construct — statements, brace blocks such as class definitions, stray
/// punctuation — stepped over as noise, never an error.
pub open spec fn doc_items(s: Seq<char>, i: nat, acc: Seq<SpecRawInterface>) -> Result<
    Seq<SpecRawInterface>,
    SpecError,
>
    decreases s.len() - i,
    via doc_items_dec
{
    let j = trivia_top(s, i);
    if j >= s.len() {
        Ok(acc)
    } else if is_ident_start(s[j as int]) {
        let b = ident_end(s, j);
        if s.subrange(j as int, b as int) == kw_interface() {
            match iface(s, b) {
                Ok((r, p)) => doc_items(s, p, acc.push(r)),
                Err(e) => Err(e),
            }
        } else {
            doc_items(s, b, acc)
        }
    } else if s[j as int] == '{' {
        doc_items(s, brace_end(s, j + 1, 1), acc)
    } else {
        doc_items(s, j + 1, acc)
    }
}

#[via_fn]
proof fn doc_items_dec(s: Seq<char>, i: nat, acc: Seq<SpecRawInterface>) {
    trivia_top_bounds(s, i);
    let j = trivia_top(s, i);
    ident_end_bounds(s, j);
    iface_bounds(s, ident_end(s, j));
    brace_end_bounds(s, j + 1, 1);
    if j < s.len() && is_ident_start(s[j as int]) {
        ident_end_bounds(s, j + 1);
        assert(ident_end(s, j) == ident_end(s, j + 1));
    }
}

/// What the tokenizer yields for a whole document: its raw parse tree, or the
/// first syntax failure in document order.
pub open spec fn parse_doc(s: Seq<char>) -> Result<Seq<SpecRawInterface>, SpecError> {
    doc_items(s, 0, Seq::empty())
}

} // verus!
