//! The executable tokenizer: a recursive-descent parser over a vector of
//! characters, each function verified to return exactly what the
//! corresponding grammar function denotes.
use crate::ast::DirectiveKind;
use crate::ast::ErrorKind;
use crate::ast::ParseError;
use crate::ast::ParsedDirective;
use crate::ast::RawAttribute;
use crate::ast::RawInterface;
use crate::grammar::arg_end;
use crate::grammar::array_suffixes;
use crate::grammar::attribute;
use crate::grammar::blank_end;
use crate::grammar::block_clauses;
use crate::grammar::block_close;
use crate::grammar::body_items;
use crate::grammar::brace_end;
use crate::grammar::capitalize_seq;
use crate::grammar::clause;
use crate::grammar::doc_items;
use crate::grammar::iface;
use crate::grammar::ident_end;
use crate::grammar::is_arg_char;
use crate::grammar::is_blank;
use crate::grammar::is_ident_char;
use crate::grammar::is_ident_start;
use crate::grammar::is_space;
use crate::grammar::kw_boolean;
use crate::grammar::kw_derive;
use crate::grammar::kw_interface;
use crate::grammar::kw_number;
use crate::grammar::kw_rename;
use crate::grammar::kw_retype;
use crate::grammar::kw_skip;
use crate::grammar::kw_skip_derive_serde;
use crate::grammar::kw_string;
use crate::grammar::line_end;
use crate::grammar::opt_blocks;
use crate::grammar::parse_doc;
use crate::grammar::rtrim;
use crate::grammar::trivia_body;
use crate::grammar::trivia_top;
use crate::grammar::ty_boolean;
use crate::grammar::ty_number;
use crate::grammar::ty_string;
use crate::grammar::type_expr;
use crate::grammar::upper_char;
use crate::grammar::wrap_option;
use crate::grammar::wrap_vec;
use crate::grammar::ws_end;
use vstd::prelude::*;

verus! {

// ---------------------------------------------------------------------------
// Character classes, executable
// ---------------------------------------------------------------------------
fn space_char(c: char) -> (r: bool)
    ensures
        r == is_space(c),
{
    c == ' ' || c == '\t' || c == '\r' || c == '\n'
}

fn blank_char(c: char) -> (r: bool)
    ensures
        r == is_blank(c),
{
    c == ' ' || c == '\t'
}

fn ident_start_char(c: char) -> (r: bool)
    ensures
        r == is_ident_start(c),
{
    ('a' <= c && c <= 'z') || ('A' <= c && c <= 'Z') || c == '_'
}

fn ident_char(c: char) -> (r: bool)
    ensures
        r == is_ident_char(c),
{
    ident_start_char(c) || ('0' <= c && c <= '9')
}

fn arg_char(c: char) -> (r: bool)
    ensures
        r == is_arg_char(c),
{
    c != ';' && c != '*' && c != '\n' && c != '\r'
}

// ---------------------------------------------------------------------------
// Scanners
// ---------------------------------------------------------------------------
pub(crate) fn scan_ws(s: &Vec<char>, i: usize) -> (r: usize)
    requires
        i <= s@.len(),
    ensures
        r as nat == ws_end(s@, i as nat),
        i <= r <= s@.len(),
{
    let mut j: usize = i;
    while j < s.len() && space_char(s[j])
        invariant
            i <= j <= s@.len(),
            ws_end(s@, i as nat) == ws_end(s@, j as nat),
        decreases s@.len() - j,
    {
        j = j + 1;
    }
    j
}

fn scan_blank(s: &Vec<char>, i: usize) -> (r: usize)
    requires
        i <= s@.len(),
    ensures
        r as nat == blank_end(s@, i as nat),
        i <= r <= s@.len(),
{
    let mut j: usize = i;
    while j < s.len() && blank_char(s[j])
        invariant
            i <= j <= s@.len(),
            blank_end(s@, i as nat) == blank_end(s@, j as nat),
        decreases s@.len() - j,
    {
        j = j + 1;
    }
    j
}

fn scan_ident(s: &Vec<char>, i: usize) -> (r: usize)
    requires
        i <= s@.len(),
    ensures
        r as nat == ident_end(s@, i as nat),
        i <= r <= s@.len(),
{
    let mut j: usize = i;
    while j < s.len() && ident_char(s[j])
        invariant
            i <= j <= s@.len(),
            ident_end(s@, i as nat) == ident_end(s@, j as nat),
        decreases s@.len() - j,
    {
        j = j + 1;
    }
    j
}

fn scan_arg(s: &Vec<char>, i: usize) -> (r: usize)
    requires
        i <= s@.len(),
    ensures
        r as nat == arg_end(s@, i as nat),
        i <= r <= s@.len(),
{
    let mut j: usize = i;
    while j < s.len() && arg_char(s[j])
        invariant
            i <= j <= s@.len(),
            arg_end(s@, i as nat) == arg_end(s@, j as nat),
        decreases s@.len() - j,
    {
        j = j + 1;
    }
    j
}

fn scan_rtrim(s: &Vec<char>, a: usize, b: usize) -> (r: usize)
    requires
        a <= b <= s@.len(),
    ensures
        r as nat == rtrim(s@, a as nat, b as nat),
        a <= r <= b,
{
    let mut t: usize = b;
    while t > a && blank_char(s[t - 1])
        invariant
            a <= t <= b <= s@.len(),
            rtrim(s@, a as nat, b as nat) == rtrim(s@, a as nat, t as nat),
        decreases t,
    {
        t = t - 1;
    }
    t
}

fn scan_line(s: &Vec<char>, i: usize) -> (r: usize)
    requires
        i <= s@.len(),
    ensures
        r as nat == line_end(s@, i as nat),
        i <= r <= s@.len(),
{
    let mut j: usize = i;
    while j < s.len() && s[j] != '\n'
        invariant
            i <= j <= s@.len(),
            line_end(s@, i as nat) == line_end(s@, j as nat),
        decreases s@.len() - j,
    {
        j = j + 1;
    }
    j
}

fn scan_block_close(s: &Vec<char>, i: usize) -> (r: usize)
    requires
        i <= s@.len(),
    ensures
        r as nat == block_close(s@, i as nat),
        i <= r <= s@.len(),
        r < s@.len() ==> r + 2 <= s@.len(),
{
    let mut j: usize = i;
    loop
        invariant
            i <= j <= s@.len(),
            block_close(s@, i as nat) == block_close(s@, j as nat),
        decreases s@.len() - j,
    {
        if j >= s.len() {
            return s.len();
        }
        if s[j] == '*' && j + 1 < s.len() && s[j + 1] == '/' {
            return j;
        }
        j = j + 1;
    }
}

fn scan_brace(s: &Vec<char>, i: usize, depth0: usize) -> (r: usize)
    requires
        i <= s@.len(),
    ensures
        r as nat == brace_end(s@, i as nat, depth0 as nat),
        i <= r <= s@.len(),
{
    let mut j: usize = i;
    let mut depth: u128 = depth0 as u128;
    loop
        invariant
            i <= j <= s@.len(),
            depth <= depth0 + (j - i),
            brace_end(s@, i as nat, depth0 as nat) == brace_end(s@, j as nat, depth as nat),
        decreases s@.len() - j,
    {
        if j >= s.len() {
            return s.len();
        }
        if s[j] == '{' {
            depth = depth + 1;
        } else if s[j] == '}' {
            if depth <= 1 {
                return j + 1;
            }
            depth = depth - 1;
        }
        j = j + 1;
    }
}

fn scan_trivia_top(s: &Vec<char>, i: usize) -> (r: usize)
    requires
        i <= s@.len(),
    ensures
        r as nat == trivia_top(s@, i as nat),
        i <= r <= s@.len(),
{
    let mut j: usize = i;
    loop
        invariant
            i <= j <= s@.len(),
            trivia_top(s@, i as nat) == trivia_top(s@, j as nat),
        decreases s@.len() - j,
    {
        let w = scan_ws(s, j);
        if w < s.len() && w + 1 < s.len() && s[w] == '/' && s[w + 1] == '/' {
            let e = scan_line(s, w + 2);
            if e >= s.len() {
                return s.len();
            }
            j = e + 1;
        } else if w < s.len() && w + 1 < s.len() && s[w] == '/' && s[w + 1] == '*' {
            let e = scan_block_close(s, w + 2);
            if e >= s.len() {
                return s.len();
            }
            j = e + 2;
        } else {
            return w;
        }
    }
}

fn scan_trivia_body(s: &Vec<char>, i: usize) -> (r: usize)
    requires
        i <= s@.len(),
    ensures
        r as nat == trivia_body(s@, i as nat),
        i <= r <= s@.len(),
{
    let mut j: usize = i;
    loop
        invariant
            i <= j <= s@.len(),
            trivia_body(s@, i as nat) == trivia_body(s@, j as nat),
        decreases s@.len() - j,
    {
        let w = scan_ws(s, j);
        if w < s.len() && w + 1 < s.len() && s[w] == '/' && s[w + 1] == '/' && !(w + 2 < s.len()
            && s[w + 2] == '-') {
            let e = scan_line(s, w + 2);
            if e >= s.len() {
                return s.len();
            }
            j = e + 1;
        } else if w < s.len() && w + 1 < s.len() && s[w] == '/' && s[w + 1] == '*' && !(w + 2
            < s.len() && s[w + 2] == '*') {
            let e = scan_block_close(s, w + 2);
            if e >= s.len() {
                return w;
            }
            j = e + 2;
        } else {
            return w;
        }
    }
}

// ---------------------------------------------------------------------------
// Spans and keywords
// ---------------------------------------------------------------------------
/// Whether the characters in [a, b) equal the given word.
fn span_eq(s: &Vec<char>, a: usize, b: usize, w: &Vec<char>) -> (r: bool)
    requires
        a <= b <= s@.len(),
    ensures
        r == (s@.subrange(a as int, b as int) == w@),
{
    if b - a != w.len() {
        proof {
            assert(s@.subrange(a as int, b as int).len() == b - a);
        }
        return false;
    }
    let mut k: usize = 0;
    while k < w.len()
        invariant
            a <= b <= s@.len(),
            b - a == w@.len(),
            k <= w@.len(),
            forall|t: int| 0 <= t < k ==> s@.subrange(a as int, b as int)[t] == w@[t],
        decreases w@.len() - k,
    {
        if s[a + k] != w[k] {
            proof {
                assert(s@.subrange(a as int, b as int)[k as int] != w@[k as int]);
            }
            return false;
        }
        k = k + 1;
    }
    proof {
        assert(s@.subrange(a as int, b as int) =~= w@);
    }
    true
}

/// A fresh copy of the characters in [a, b).
fn copy_range(s: &Vec<char>, a: usize, b: usize) -> (r: Vec<char>)
    requires
        a <= b <= s@.len(),
    ensures
        r@ == s@.subrange(a as int, b as int),
{
    let mut out: Vec<char> = Vec::new();
    let mut k: usize = a;
    while k < b
        invariant
            a <= k <= b <= s@.len(),
            out@ =~= s@.subrange(a as int, k as int),
        decreases b - k,
    {
        out.push(s[k]);
        proof {
            assert(out@ =~= s@.subrange(a as int, (k + 1) as int));
        }
        k = k + 1;
    }
    out
}

fn kw_interface_vec() -> (v: Vec<char>)
    ensures
        v@ == kw_interface(),
{
    let v = vec!['i', 'n', 't', 'e', 'r', 'f', 'a', 'c', 'e'];
    proof {
        assert(v@ =~= kw_interface());
    }
    v
}

fn kw_string_vec() -> (v: Vec<char>)
    ensures
        v@ == kw_string(),
{
    let v = vec!['s', 't', 'r', 'i', 'n', 'g'];
    proof {
        assert(v@ =~= kw_string());
    }
    v
}

fn kw_number_vec() -> (v: Vec<char>)
    ensures
        v@ == kw_number(),
{
    let v = vec!['n', 'u', 'm', 'b', 'e', 'r'];
    proof {
        assert(v@ =~= kw_number());
    }
    v
}

fn kw_boolean_vec() -> (v: Vec<char>)
    ensures
        v@ == kw_boolean(),
{
    let v = vec!['b', 'o', 'o', 'l', 'e', 'a', 'n'];
    proof {
        assert(v@ =~= kw_boolean());
    }
    v
}

fn kw_rename_vec() -> (v: Vec<char>)
    ensures
        v@ == kw_rename(),
{
    let v = vec!['r', 'e', 'n', 'a', 'm', 'e'];
    proof {
        assert(v@ =~= kw_rename());
    }
    v
}

fn kw_retype_vec() -> (v: Vec<char>)
    ensures
        v@ == kw_retype(),
{
    let v = vec!['r', 'e', 't', 'y', 'p', 'e'];
    proof {
        assert(v@ =~= kw_retype());
    }
    v
}

fn kw_skip_vec() -> (v: Vec<char>)
    ensures
        v@ == kw_skip(),
{
    let v = vec!['s', 'k', 'i', 'p'];
    proof {
        assert(v@ =~= kw_skip());
    }
    v
}

fn kw_derive_vec() -> (v: Vec<char>)
    ensures
        v@ == kw_derive(),
{
    let v = vec!['d', 'e', 'r', 'i', 'v', 'e'];
    proof {
        assert(v@ =~= kw_derive());
    }
    v
}

fn kw_skip_derive_serde_vec() -> (v: Vec<char>)
    ensures
        v@ == kw_skip_derive_serde(),
{
    let v = vec!['s', 'k', 'i', 'p', '_', 'd', 'e', 'r', 'i', 'v', 'e', '_', 's', 'e', 'r', 'd', 'e'];
    proof {
        assert(v@ =~= kw_skip_derive_serde());
    }
    v
}

fn ty_string_vec() -> (v: Vec<char>)
    ensures
        v@ == ty_string(),
{
    let v = vec!['S', 't', 'r', 'i', 'n', 'g'];
    proof {
        assert(v@ =~= ty_string());
    }
    v
}

fn ty_number_vec() -> (v: Vec<char>)
    ensures
        v@ == ty_number(),
{
    let v = vec!['f', '6', '4'];
    proof {
        assert(v@ =~= ty_number());
    }
    v
}

fn ty_boolean_vec() -> (v: Vec<char>)
    ensures
        v@ == ty_boolean(),
{
    let v = vec!['b', 'o', 'o', 'l'];
    proof {
        assert(v@ =~= ty_boolean());
    }
    v
}

fn wrap_vec_exec(t: Vec<char>) -> (r: Vec<char>)
    ensures
        r@ == wrap_vec(t@),
{
    let mut t = t;
    let mut r = vec!['V', 'e', 'c', '<'];
    let ghost t0 = t@;
    r.append(&mut t);
    r.push('>');
    proof {
        assert(r@ =~= wrap_vec(t0));
    }
    r
}

fn wrap_option_exec(t: Vec<char>) -> (r: Vec<char>)
    ensures
        r@ == wrap_option(t@),
{
    let mut t = t;
    let mut r = vec!['O', 'p', 't', 'i', 'o', 'n', '<'];
    let ghost t0 = t@;
    r.append(&mut t);
    r.push('>');
    proof {
        assert(r@ =~= wrap_option(t0));
    }
    r
}

/// The uppercase form of an ASCII lowercase letter; every other ASCII
/// character unchanged.
fn upper_char_exec(c: char) -> (r: char)
    ensures
        r == upper_char(c),
{
    if 'a' <= c && c <= 'z' {
        let b: u8 = c as u8;
        (b - 32) as char
    } else {
        c
    }
}

/// A copy of the characters with the first one capitalized: the ASCII cases
/// in place, anything beyond ASCII through the Unicode uppercase mapping.
pub(crate) fn capitalize_chars(v: Vec<char>) -> (r: Vec<char>)
    ensures
        r@ == capitalize_seq(v@),
{
    if v.len() == 0 {
        return v;
    }
    let c = v[0];
    if (c as u32) < 128 {
        let mut v = v;
        let u = upper_char_exec(c);
        let ghost v0 = v@;
        v.set(0, u);
        proof {
            assert(v@ =~= capitalize_seq(v0));
        }
        v
    } else {
        let mut out = crate::chars::upper_chars(c);
        proof {
            assert(out@ =~= crate::grammar::upper_of(v@[0]) + v@.subrange(1, 1));
        }
        let mut k: usize = 1;
        while k < v.len()
            invariant
                1 <= k <= v@.len(),
                (v@[0] as u32) >= 128,
                out@ == crate::grammar::upper_of(v@[0]) + v@.subrange(1, k as int),
            decreases v@.len() - k,
        {
            out.push(v[k]);
            proof {
                assert(out@ =~= crate::grammar::upper_of(v@[0]) + v@.subrange(1, (k + 1) as int));
            }
            k = k + 1;
        }
        proof {
            assert(v@.subrange(1, v@.len() as int) =~= v@.drop_first());
            assert(out@ =~= capitalize_seq(v@));
        }
        out
    }
}

// ---------------------------------------------------------------------------
// Option clauses
// ---------------------------------------------------------------------------
/// One directive clause, `directive;` or `directive: argument;`.
fn parse_clause(s: &Vec<char>, i: usize) -> (r: Result<(ParsedDirective, usize), ParseError>)
    requires
        i <= s@.len(),
    ensures
        match clause(s@, i as nat) {
            Ok((d, p)) => r matches Ok(x) && x.0@ == d && x.1 as nat == p && x.1 <= s@.len(),
            Err(e) => r matches Err(x) && x@ == e,
        },
{
    let b = scan_ident(s, i);
    if b <= i {
        return Err(ParseError { pos: i, kind: ErrorKind::ExpectedDirective });
    }
    let j = scan_ws(s, b);
    if j < s.len() && s[j] == ':' {
        let k = scan_ws(s, j + 1);
        let e = scan_arg(s, k);
        let t = scan_rtrim(s, k, e);
        if e >= s.len() || s[e] != ';' {
            return Err(ParseError { pos: e, kind: ErrorKind::ExpectedSemicolon });
        }
        if t <= k {
            return Err(ParseError { pos: k, kind: ErrorKind::ExpectedArgument });
        }
        let arg = copy_range(s, k, t);
        if span_eq(s, i, b, &kw_rename_vec()) {
            Ok((ParsedDirective { pos: i, kind: DirectiveKind::Rename(arg) }, e + 1))
        } else if span_eq(s, i, b, &kw_retype_vec()) {
            Ok((ParsedDirective { pos: i, kind: DirectiveKind::Retype(arg) }, e + 1))
        } else if span_eq(s, i, b, &kw_derive_vec()) {
            Ok((ParsedDirective { pos: i, kind: DirectiveKind::Derive(arg) }, e + 1))
        } else {
            Err(ParseError { pos: i, kind: ErrorKind::UnknownDirective })
        }
    } else if j < s.len() && s[j] == ';' {
        if span_eq(s, i, b, &kw_skip_vec()) {
            Ok((ParsedDirective { pos: i, kind: DirectiveKind::Skip }, j + 1))
        } else if span_eq(s, i, b, &kw_skip_derive_serde_vec()) {
            Ok((ParsedDirective { pos: i, kind: DirectiveKind::SkipDefaultDerives }, j + 1))
        } else {
            Err(ParseError { pos: i, kind: ErrorKind::UnknownDirective })
        }
    } else {
        Err(ParseError { pos: j, kind: ErrorKind::ExpectedSemicolon })
    }
}

/// The clauses of one `/** ... **/` block, appended to `acc`.
fn parse_block_clauses(s: &Vec<char>, i: usize, acc: &mut Vec<ParsedDirective>) -> (r: Result<
    usize,
    ParseError,
>)
    requires
        i <= s@.len(),
    ensures
        match block_clauses(s@, i as nat, old(acc).deep_view()) {
            Ok((a, p)) => r matches Ok(x) && x as nat == p && x <= s@.len()
                && final(acc).deep_view() == a,
            Err(e) => r matches Err(x) && x@ == e,
        },
{
    let mut j: usize = i;
    loop
        invariant
            i <= j <= s@.len(),
            block_clauses(s@, i as nat, old(acc).deep_view()) == block_clauses(
                s@,
                j as nat,
                acc.deep_view(),
            ),
        decreases s@.len() - j,
    {
        let w = scan_ws(s, j);
        if w < s.len() && w + 1 < s.len() && w + 2 < s.len() && s[w] == '*' && s[w + 1] == '*'
            && s[w + 2] == '/' {
            return Ok(w + 3);
        }
        if w >= s.len() {
            return Err(ParseError { pos: w, kind: ErrorKind::UnclosedOptionBlock });
        }
        if !ident_start_char(s[w]) {
            return Err(ParseError { pos: w, kind: ErrorKind::ExpectedDirective });
        }
        match parse_clause(s, w) {
            Ok((d, p)) => {
                let ghost pre = acc.deep_view();
                proof {
                    crate::grammar::clause_bounds(s@, w as nat);
                }
                acc.push(d);
                proof {
                    assert(acc.deep_view() =~= pre.push(d@));
                }
                j = p;
            },
            Err(e) => {
                return Err(e);
            },
        }
    }
}

/// The clauses of one `//-` comment, appended to `acc`.
fn parse_line_clauses(s: &Vec<char>, i: usize, acc: &mut Vec<ParsedDirective>) -> (r: Result<
    usize,
    ParseError,
>)
    requires
        i <= s@.len(),
    ensures
        match crate::grammar::line_clauses(s@, i as nat, old(acc).deep_view()) {
            Ok((a, p)) => r matches Ok(x) && x as nat == p && x <= s@.len()
                && final(acc).deep_view() == a,
            Err(e) => r matches Err(x) && x@ == e,
        },
{
    let mut j: usize = i;
    loop
        invariant
            i <= j <= s@.len(),
            crate::grammar::line_clauses(s@, i as nat, old(acc).deep_view())
                == crate::grammar::line_clauses(s@, j as nat, acc.deep_view()),
        decreases s@.len() - j,
    {
        let w = scan_blank(s, j);
        if w >= s.len() || s[w] == '\n' || s[w] == '\r' {
            return Ok(w);
        }
        match parse_clause(s, w) {
            Ok((d, p)) => {
                let ghost pre = acc.deep_view();
                proof {
                    crate::grammar::clause_bounds(s@, w as nat);
                }
                acc.push(d);
                proof {
                    assert(acc.deep_view() =~= pre.push(d@));
                }
                j = p;
            },
            Err(e) => {
                return Err(e);
            },
        }
    }
}

/// Every option block trailing one attribute or interface, in order.
fn parse_opt_blocks(s: &Vec<char>, i: usize, acc: &mut Vec<ParsedDirective>) -> (r: Result<
    usize,
    ParseError,
>)
    requires
        i <= s@.len(),
    ensures
        match opt_blocks(s@, i as nat, old(acc).deep_view()) {
            Ok((a, p)) => r matches Ok(x) && x as nat == p && x <= s@.len()
                && final(acc).deep_view() == a,
            Err(e) => r matches Err(x) && x@ == e,
        },
{
    let mut j: usize = i;
    loop
        invariant
            i <= j <= s@.len(),
            opt_blocks(s@, i as nat, old(acc).deep_view()) == opt_blocks(
                s@,
                j as nat,
                acc.deep_view(),
            ),
        decreases s@.len() - j,
    {
        let w = scan_trivia_body(s, j);
        if w < s.len() && w + 1 < s.len() && w + 2 < s.len() && s[w] == '/' && s[w + 1] == '*'
            && s[w + 2] == '*' {
            let ghost preacc = acc.deep_view();
            match parse_block_clauses(s, w + 3, acc) {
                Ok(p) => {
                    proof {
                        crate::grammar::block_clauses_bounds(s@, (w + 3) as nat, preacc);
                    }
                    j = p;
                },
                Err(e) => {
                    return Err(e);
                },
            }
        } else if w < s.len() && w + 1 < s.len() && w + 2 < s.len() && s[w] == '/' && s[w + 1]
            == '/' && s[w + 2] == '-' {
            let ghost preacc = acc.deep_view();
            match parse_line_clauses(s, w + 3, acc) {
                Ok(p) => {
                    proof {
                        crate::grammar::line_clauses_bounds(s@, (w + 3) as nat, preacc);
                    }
                    j = p;
                },
                Err(e) => {
                    return Err(e);
                },
            }
        } else {
            return Ok(w);
        }
    }
}

// ---------------------------------------------------------------------------
// Types, attributes, interfaces, the document
// ---------------------------------------------------------------------------
/// A type expression, rendered to its target text.
pub(crate) fn parse_type_expr(s: &Vec<char>, i: usize) -> (r: Result<(Vec<char>, usize), ParseError>)
    requires
        i <= s@.len(),
    ensures
        match type_expr(s@, i as nat) {
            Ok((t, p)) => r matches Ok(x) && x.0@ == t && x.1 as nat == p && x.1 <= s@.len(),
            Err(e) => r matches Err(x) && x@ == e,
        },
{
    let j = scan_ws(s, i);
    if j >= s.len() || !ident_start_char(s[j]) {
        return Err(ParseError { pos: j, kind: ErrorKind::ExpectedType });
    }
    let b = scan_ident(s, j);
    let base: Vec<char> = if span_eq(s, j, b, &kw_string_vec()) {
        ty_string_vec()
    } else if span_eq(s, j, b, &kw_number_vec()) {
        ty_number_vec()
    } else if span_eq(s, j, b, &kw_boolean_vec()) {
        ty_boolean_vec()
    } else {
        capitalize_chars(copy_range(s, j, b))
    };
    let ghost base0 = base@;
    let mut t = base;
    let mut k: usize = b;
    while k < s.len() && k + 1 < s.len() && s[k] == '[' && s[k + 1] == ']'
        invariant
            b <= k <= s@.len(),
            array_suffixes(s@, b as nat, base0) == array_suffixes(s@, k as nat, t@),
        decreases s@.len() - k,
    {
        t = wrap_vec_exec(t);
        k = k + 2;
    }
    if k < s.len() && s[k] == '?' {
        Ok((wrap_option_exec(t), k + 1))
    } else {
        Ok((t, k))
    }
}

/// One field declaration, starting at its name.
fn parse_attribute(s: &Vec<char>, i: usize) -> (r: Result<(RawAttribute, usize), ParseError>)
    requires
        i <= s@.len(),
    ensures
        match attribute(s@, i as nat) {
            Ok((a, p)) => r matches Ok(x) && x.0@ == a && x.1 as nat == p && x.1 <= s@.len(),
            Err(e) => r matches Err(x) && x@ == e,
        },
{
    let b = scan_ident(s, i);
    let q = b < s.len() && s[b] == '?';
    let j0 = if q {
        b + 1
    } else {
        b
    };
    let j = scan_ws(s, j0);
    if j >= s.len() || s[j] != ':' {
        return Err(ParseError { pos: j, kind: ErrorKind::ExpectedColon });
    }
    match parse_type_expr(s, j + 1) {
        Err(e) => Err(e),
        Ok((t0, k)) => {
            let t1 = if q {
                wrap_option_exec(t0)
            } else {
                t0
            };
            let k2 = scan_ws(s, k);
            if k2 >= s.len() || s[k2] != ';' {
                return Err(ParseError { pos: k2, kind: ErrorKind::ExpectedSemicolon });
            }
            let mut opts: Vec<ParsedDirective> = Vec::new();
            proof {
                assert(opts.deep_view() =~= Seq::<crate::ast::SpecDirective>::empty());
            }
            match parse_opt_blocks(s, k2 + 1, &mut opts) {
                Err(e) => Err(e),
                Ok(m) => {
                    let out = RawAttribute { name: copy_range(s, i, b), ts_type: t1, options: opts };
                    proof {
                        assert(out@ =~= attribute(s@, i as nat)->Ok_0.0);
                    }
                    Ok((out, m))
                },
            }
        },
    }
}

/// One interface declaration, starting just after the `interface` keyword.
fn parse_iface(s: &Vec<char>, i: usize) -> (r: Result<(RawInterface, usize), ParseError>)
    requires
        i <= s@.len(),
    ensures
        match iface(s@, i as nat) {
            Ok((f, p)) => r matches Ok(x) && x.0@ == f && x.1 as nat == p && x.1 <= s@.len(),
            Err(e) => r matches Err(x) && x@ == e,
        },
{
    let j = scan_trivia_body(s, i);
    if j >= s.len() || !ident_start_char(s[j]) {
        return Err(ParseError { pos: j, kind: ErrorKind::ExpectedIdentifier });
    }
    let b = scan_ident(s, j);
    let k = scan_trivia_body(s, b);
    if k >= s.len() || s[k] != '{' {
        return Err(ParseError { pos: k, kind: ErrorKind::ExpectedOpenBrace });
    }
    let mut attrs: Vec<RawAttribute> = Vec::new();
    proof {
        assert(attrs.deep_view() =~= Seq::<crate::ast::SpecRawAttribute>::empty());
    }
    match parse_body(s, k + 1, &mut attrs) {
        Err(e) => Err(e),
        Ok(m) => {
            let mut opts: Vec<ParsedDirective> = Vec::new();
            proof {
                assert(opts.deep_view() =~= Seq::<crate::ast::SpecDirective>::empty());
            }
            match parse_opt_blocks(s, m, &mut opts) {
                Err(e) => Err(e),
                Ok(p) => {
                    let out = RawInterface {
                        name: copy_range(s, j, b),
                        attributes: attrs,
                        options: opts,
                    };
                    proof {
                        assert(out@ =~= iface(s@, i as nat)->Ok_0.0);
                    }
                    Ok((out, p))
                },
            }
        },
    }
}

/// The attribute list of an interface body, up to and past the closing `}`.
fn parse_body(s: &Vec<char>, i: usize, attrs: &mut Vec<RawAttribute>) -> (r: Result<
    usize,
    ParseError,
>)
    requires
        i <= s@.len(),
    ensures
        match body_items(s@, i as nat, old(attrs).deep_view()) {
            Ok((a, p)) => r matches Ok(x) && x as nat == p && x <= s@.len()
                && final(attrs).deep_view() == a,
            Err(e) => r matches Err(x) && x@ == e,
        },
{
    let mut j: usize = i;
    loop
        invariant
            i <= j <= s@.len(),
            body_items(s@, i as nat, old(attrs).deep_view()) == body_items(
                s@,
                j as nat,
                attrs.deep_view(),
            ),
        decreases s@.len() - j,
    {
        let w = scan_trivia_body(s, j);
        if w >= s.len() {
            return Err(ParseError { pos: w, kind: ErrorKind::ExpectedCloseBrace });
        }
        if s[w] == '}' {
            return Ok(w + 1);
        }
        if !ident_start_char(s[w]) {
            return Err(ParseError { pos: w, kind: ErrorKind::ExpectedAttribute });
        }
        match parse_attribute(s, w) {
            Ok((a, p)) => {
                let ghost pre = attrs.deep_view();
                proof {
                    crate::grammar::attribute_bounds(s@, w as nat);
                }
                attrs.push(a);
                proof {
                    assert(attrs.deep_view() =~= pre.push(a@));
                }
                j = p;
            },
            Err(e) => {
                return Err(e);
            },
        }
    }
}

/// The raw parse tree of a whole document: every interface declaration in
/// source order, everything else stepped over as noise.
pub fn parse_document(s: &Vec<char>) -> (r: Result<Vec<RawInterface>, ParseError>)
    ensures
        match parse_doc(s@) {
            Ok(raws) => r matches Ok(v) && v.deep_view() == raws,
            Err(e) => r matches Err(x) && x@ == e,
        },
{
    let mut j: usize = 0;
    let mut out: Vec<RawInterface> = Vec::new();
    proof {
        assert(out.deep_view() =~= Seq::<crate::ast::SpecRawInterface>::empty());
    }
    loop
        invariant
            j <= s@.len(),
            parse_doc(s@) == doc_items(s@, j as nat, out.deep_view()),
        decreases s@.len() - j,
    {
        let w = scan_trivia_top(s, j);
        if w >= s.len() {
            return Ok(out);
        }
        if ident_start_char(s[w]) {
            let b = scan_ident(s, w);
            if span_eq(s, w, b, &kw_interface_vec()) {
                proof {
                    crate::grammar::ident_end_bounds(s@, (w + 1) as nat);
                    assert(ident_end(s@, w as nat) == ident_end(s@, (w + 1) as nat));
                }
                match parse_iface(s, b) {
                    Ok((f, p)) => {
                        let ghost pre = out.deep_view();
                        proof {
                            crate::grammar::iface_bounds(s@, b as nat);
                        }
                        out.push(f);
                        proof {
                            assert(out.deep_view() =~= pre.push(f@));
                        }
                        j = p;
                    },
                    Err(e) => {
                        return Err(e);
                    },
                }
            } else {
                proof {
                    crate::grammar::ident_end_bounds(s@, (w + 1) as nat);
                    assert(ident_end(s@, w as nat) == ident_end(s@, (w + 1) as nat));
                }
                j = b;
            }
        } else if s[w] == '{' {
            j = scan_brace(s, w + 1, 1);
        } else {
            j = w + 1;
        }
    }
}

} // verus!
