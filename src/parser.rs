//! The scene-language parser: bytes to statements.
//!
//! Each `*_from` spec function says what the grammar reads at a position:
//! `None` where it does not match, else the value read and the position
//! after it. Every repetition stops where a step makes no progress or would
//! run past the input; no step of this grammar can do either.

use vstd::prelude::*;
use crate::statement::{Statement, StatementModel};
use crate::text::{ascii_range, ascii_text, chars_of, join, joined, views};

verus! {

/// The byte classes that the grammar reads runs of.
#[derive(Clone, Copy, PartialEq, Eq, Debug)]
pub enum ByteClass {
    /// space, tab or newline
    Space,
    /// the space character alone
    Blank,
    /// letters, digits and `_`
    Word,
    /// letters, digits, `$`, `.`, `_` and the space character
    Value,
    /// operator characters `+-*/%<>=!&|`
    Op,
}

/// An ASCII letter.
pub open spec fn is_alpha(b: u8) -> bool {
    (65 <= b <= 90) || (97 <= b <= 122)
}

/// An ASCII letter or digit.
pub open spec fn is_alnum(b: u8) -> bool {
    is_alpha(b) || (48 <= b <= 57)
}

/// The byte `b` belongs to the class `c`.
pub open spec fn in_class(b: u8, c: ByteClass) -> bool {
    match c {
        ByteClass::Space => b == 32 || b == 9 || b == 10,
        ByteClass::Blank => b == 32,
        ByteClass::Word => is_alnum(b) || b == 95,
        ByteClass::Value => is_alnum(b) || b == 36 || b == 46 || b == 95 || b == 32,
        ByteClass::Op => b == 43 || b == 45 || b == 42 || b == 47 || b == 37 || b == 60
            || b == 62 || b == 61 || b == 33 || b == 38 || b == 124,
    }
}

/// Length of the run of bytes of class `c` that starts at `p`.
pub open spec fn run_len(s: Seq<u8>, p: int, c: ByteClass) -> nat
    decreases s.len() - p,
{
    if 0 <= p < s.len() && in_class(s[p], c) {
        1 + run_len(s, p + 1, c)
    } else {
        0
    }
}

/// Number of space characters that end `s[a..e]`.
pub open spec fn trail_blanks(s: Seq<u8>, a: int, e: int) -> nat
    decreases e - a,
{
    if a < e && s[e - 1] == 32 {
        1 + trail_blanks(s, a, e - 1)
    } else {
        0
    }
}

/// The position after the whitespace that starts at `p`.
pub open spec fn skip_ws(s: Seq<u8>, p: int) -> int {
    p + run_len(s, p, ByteClass::Space)
}

/// `e` is past `p` and within the input.
pub open spec fn advances(s: Seq<u8>, p: int, e: int) -> bool {
    p < e <= s.len()
}

/// The byte at `p` is `b`.
pub open spec fn byte_at(s: Seq<u8>, p: int, b: u8) -> bool {
    0 <= p < s.len() && s[p] == b
}

/// An identifier: a letter, then letters, digits and `_`.
pub open spec fn ident_from(s: Seq<u8>, p: int) -> Option<(Seq<char>, int)> {
    if 0 <= p < s.len() && is_alpha(s[p]) {
        let e = p + run_len(s, p, ByteClass::Word);
        Some((chars_of(s, p, e), e))
    } else {
        None
    }
}

/// A simple value: a non-empty run of value bytes, trimmed of spaces.
pub open spec fn simple_value_from(s: Seq<u8>, p: int) -> Option<(Seq<char>, int)> {
    let n = run_len(s, p, ByteClass::Value);
    if n == 0 {
        None
    } else {
        let e = p + n;
        let a = p + run_len(s, p, ByteClass::Blank);
        if a >= e {
            Some((Seq::empty(), e))
        } else {
            Some((chars_of(s, a, e - trail_blanks(s, a, e)), e))
        }
    }
}

/// A non-empty run of operator characters.
pub open spec fn op_from(s: Seq<u8>, p: int) -> Option<(Seq<char>, int)> {
    let n = run_len(s, p, ByteClass::Op);
    if n == 0 {
        None
    } else {
        Some((chars_of(s, p, p + n), p + n))
    }
}

/// The text of a parenthesised argument list inside a value.
pub open spec fn paren_text(vs: Seq<Seq<char>>) -> Seq<char> {
    seq!['('] + joined(vs, seq![',', ' ']) + seq![')']
}

/// One part of a complex value, with the whitespace around it: a simple
/// value, an operator run, or an argument list.
pub open spec fn part_from(s: Seq<u8>, p: int) -> Option<(Seq<char>, int)>
    decreases s.len() - p, 2int,
{
    let q = skip_ws(s, p);
    match simple_value_from(s, q) {
        Some((v, e)) => Some((v, skip_ws(s, e))),
        None => match op_from(s, q) {
            Some((v, e)) => Some((v, skip_ws(s, e))),
            None => if q <= s.len() {
                match args_from(s, q) {
                    Some((vs, e)) => Some((paren_text(vs), skip_ws(s, e))),
                    None => None,
                }
            } else {
                None
            },
        },
    }
}

/// The parts that follow, concatenated; stops at the first that does not
/// match.
pub open spec fn parts_from(s: Seq<u8>, p: int) -> (Seq<char>, int)
    decreases s.len() - p, 3int,
{
    match part_from(s, p) {
        Some((v, e)) => if advances(s, p, e) {
            let (w, f) = parts_from(s, e);
            (v + w, f)
        } else {
            (Seq::empty(), p)
        },
        None => (Seq::empty(), p),
    }
}

/// A complex value: one or more parts, concatenated.
pub open spec fn complex_value_from(s: Seq<u8>, p: int) -> Option<(Seq<char>, int)>
    decreases s.len() - p, 4int,
{
    match part_from(s, p) {
        Some((v, e)) => if advances(s, p, e) {
            let (w, f) = parts_from(s, e);
            Some((v + w, f))
        } else {
            None
        },
        None => None,
    }
}

/// Values separated by commas, possibly none.
pub open spec fn values_from(s: Seq<u8>, p: int) -> (Seq<Seq<char>>, int)
    decreases s.len() - p, 5int,
{
    match complex_value_from(s, p) {
        Some((v, e)) => if advances(s, p, e) {
            let (vs, f) = more_values_from(s, e);
            (seq![v] + vs, f)
        } else {
            (Seq::empty(), p)
        },
        None => (Seq::empty(), p),
    }
}

/// The values that follow, each after a comma.
pub open spec fn more_values_from(s: Seq<u8>, p: int) -> (Seq<Seq<char>>, int)
    decreases s.len() - p, 6int,
{
    let q = skip_ws(s, p);
    if byte_at(s, q, 44) {
        let r = skip_ws(s, q + 1);
        if advances(s, p, r) {
            match complex_value_from(s, r) {
                Some((v, e)) => if advances(s, r, e) {
                    let (vs, f) = more_values_from(s, e);
                    (seq![v] + vs, f)
                } else {
                    (Seq::empty(), p)
                },
                None => (Seq::empty(), p),
            }
        } else {
            (Seq::empty(), p)
        }
    } else {
        (Seq::empty(), p)
    }
}

/// An argument list: `(` values `)`, with whitespace around each bracket.
pub open spec fn args_from(s: Seq<u8>, p: int) -> Option<(Seq<Seq<char>>, int)>
    decreases s.len() - p, 1int,
{
    let q = skip_ws(s, p);
    if byte_at(s, q, 40) {
        let r = skip_ws(s, q + 1);
        if advances(s, p, r) {
            let (vs, e) = values_from(s, r);
            let t = skip_ws(s, e);
            if byte_at(s, t, 41) {
                Some((vs, skip_ws(s, t + 1)))
            } else {
                None
            }
        } else {
            None
        }
    } else {
        None
    }
}

/// The arguments of a statement: an argument list, or none.
pub open spec fn opt_args_from(s: Seq<u8>, p: int) -> (Seq<Seq<char>>, int) {
    match args_from(s, p) {
        Some((vs, e)) => (vs, e),
        None => (Seq::empty(), p),
    }
}

/// A statement: an identifier, optional arguments, then `;`, a single
/// chained statement, a block (optionally followed by `;`), or nothing;
/// then whitespace.
pub open spec fn statement_from(s: Seq<u8>, p: int) -> Option<(StatementModel, int)>
    decreases s.len() - p, 1int,
{
    match ident_from(s, p) {
        None => None,
        Some((name, e1)) => {
            let (args, e2) = opt_args_from(s, e1);
            let q = skip_ws(s, e2);
            let (body, e3) = if byte_at(s, q, 59) {
                (Seq::empty(), q + 1)
            } else if !advances(s, p, q) {
                (Seq::empty(), q)
            } else {
                match statement_from(s, q) {
                    Some((st, e)) => (seq![st], e),
                    None => match block_body_from(s, q) {
                        Some((b, e)) => {
                            let w = skip_ws(s, e);
                            if byte_at(s, w, 59) {
                                (b, skip_ws(s, w + 1))
                            } else {
                                (b, e)
                            }
                        },
                        None => (Seq::empty(), q),
                    },
                }
            };
            Some((StatementModel { name, args, body }, skip_ws(s, e3)))
        },
    }
}

/// A block: `{` statements `}`, with whitespace around each brace.
pub open spec fn block_body_from(s: Seq<u8>, p: int) -> Option<(Seq<StatementModel>, int)>
    decreases s.len() - p, 0int,
{
    let q = skip_ws(s, p);
    if byte_at(s, q, 123) {
        let r = skip_ws(s, q + 1);
        if advances(s, p, r) {
            let (b, e) = statements_from(s, r);
            let t = skip_ws(s, e);
            if byte_at(s, t, 125) {
                Some((b, skip_ws(s, t + 1)))
            } else {
                None
            }
        } else {
            None
        }
    } else {
        None
    }
}

/// The statements that follow, possibly none.
pub open spec fn statements_from(s: Seq<u8>, p: int) -> (Seq<StatementModel>, int)
    decreases s.len() - p, 2int,
{
    match statement_from(s, p) {
        Some((st, e)) => if advances(s, p, e) {
            let (rest, f) = statements_from(s, e);
            (seq![st] + rest, f)
        } else {
            (Seq::empty(), p)
        },
        None => (Seq::empty(), p),
    }
}

/// A whole source: statements that read every byte.
pub open spec fn scene_of(s: Seq<u8>) -> Option<Seq<StatementModel>> {
    let (b, e) = statements_from(s, 0);
    if e == s.len() {
        Some(b)
    } else {
        None
    }
}

/// The models of a sequence of statements.
pub open spec fn models(v: Seq<Statement>) -> Seq<StatementModel> {
    v.map_values(|st: Statement| st@)
}

/// The input is not in the grammar.
#[derive(Debug, Clone, Copy, PartialEq, Eq)]
pub struct ParseError;

fn class_has(b: u8, c: ByteClass) -> (r: bool)
    ensures
        r == in_class(b, c),
{
    match c {
        ByteClass::Space => b == 32 || b == 9 || b == 10,
        ByteClass::Blank => b == 32,
        ByteClass::Word => (65 <= b && b <= 90) || (97 <= b && b <= 122) || (48 <= b && b <= 57)
            || b == 95,
        ByteClass::Value => (65 <= b && b <= 90) || (97 <= b && b <= 122) || (48 <= b && b <= 57)
            || b == 36 || b == 46 || b == 95 || b == 32,
        ByteClass::Op => b == 43 || b == 45 || b == 42 || b == 47 || b == 37 || b == 60 || b == 62
            || b == 61 || b == 33 || b == 38 || b == 124,
    }
}

/// The end of the run of bytes of class `c` that starts at `p`.
fn run_end(s: &[u8], p: usize, c: ByteClass) -> (e: usize)
    requires
        p <= s@.len(),
    ensures
        e == p + run_len(s@, p as int, c),
        e <= s@.len(),
        forall|i: int| p <= i < e ==> in_class(#[trigger] s@[i], c),
        ascii_range(s@, p as int, e as int),
{
    let mut i = p;
    while i < s.len() && class_has(s[i], c)
        invariant
            p <= i <= s@.len(),
            run_len(s@, p as int, c) == (i - p) + run_len(s@, i as int, c),
            forall|j: int| p <= j < i ==> in_class(#[trigger] s@[j], c),
        decreases s@.len() - i,
    {
        i = i + 1;
    }
    i
}

fn parse_ident(s: &[u8], p: usize) -> (r: Result<(usize, String), ParseError>)
    requires
        p <= s@.len(),
    ensures
        match r {
            Ok((e, v)) => ident_from(s@, p as int) == Some((v@, e as int)) && p < e <= s@.len(),
            Err(_) => ident_from(s@, p as int) is None,
        },
{
    if p < s.len() && ((65 <= s[p] && s[p] <= 90) || (97 <= s[p] && s[p] <= 122)) {
        let e = run_end(s, p, ByteClass::Word);
        Ok((e, ascii_text(s, p, e)))
    } else {
        Err(ParseError)
    }
}

fn parse_simple_value(s: &[u8], p: usize) -> (r: Result<(usize, String), ParseError>)
    requires
        p <= s@.len(),
    ensures
        match r {
            Ok((e, v)) => simple_value_from(s@, p as int) == Some((v@, e as int)) && p < e
                <= s@.len(),
            Err(_) => simple_value_from(s@, p as int) is None,
        },
{
    let e = run_end(s, p, ByteClass::Value);
    if e == p {
        return Err(ParseError);
    }
    let a = run_end(s, p, ByteClass::Blank);
    if a >= e {
        return Ok((e, String::new()));
    }
    let mut t = e;
    while t > a && s[t - 1] == 32
        invariant
            a <= t <= e,
            e <= s@.len(),
            trail_blanks(s@, a as int, e as int) == (e - t) + trail_blanks(s@, a as int, t as int),
        decreases t,
    {
        t = t - 1;
    }
    Ok((e, ascii_text(s, a, t)))
}

fn parse_op(s: &[u8], p: usize) -> (r: Result<(usize, String), ParseError>)
    requires
        p <= s@.len(),
    ensures
        match r {
            Ok((e, v)) => op_from(s@, p as int) == Some((v@, e as int)) && p < e <= s@.len(),
            Err(_) => op_from(s@, p as int) is None,
        },
{
    let e = run_end(s, p, ByteClass::Op);
    if e == p {
        Err(ParseError)
    } else {
        Ok((e, ascii_text(s, p, e)))
    }
}

fn parse_part(s: &[u8], p: usize) -> (r: Result<(usize, String), ParseError>)
    requires
        p <= s@.len(),
    ensures
        match r {
            Ok((e, v)) => part_from(s@, p as int) == Some((v@, e as int)) && p < e <= s@.len(),
            Err(_) => part_from(s@, p as int) is None,
        },
    decreases s@.len() - p, 2int,
{
    let q = run_end(s, p, ByteClass::Space);
    if let Ok((e, v)) = parse_simple_value(s, q) {
        return Ok((run_end(s, e, ByteClass::Space), v));
    }
    if let Ok((e, v)) = parse_op(s, q) {
        return Ok((run_end(s, e, ByteClass::Space), v));
    }
    match parse_args(s, q) {
        Ok((e, vs)) => {
            let mut v = String::new();
            proof {
                reveal_strlit("(");
                reveal_strlit(", ");
                reveal_strlit(")");
                assert("("@ == seq!['(']);
                assert(", "@ == seq![',', ' ']);
                assert(")"@ == seq![')']);
            }
            v.append("(");
            let inner = join(&vs, ", ");
            v.append(inner.as_str());
            v.append(")");
            assert(v@ == paren_text(views(vs@)));
            Ok((run_end(s, e, ByteClass::Space), v))
        },
        Err(_) => Err(ParseError),
    }
}

fn parse_parts(s: &[u8], p: usize) -> (r: (usize, String))
    requires
        p <= s@.len(),
    ensures
        parts_from(s@, p as int) == (r.1@, r.0 as int),
        p <= r.0 <= s@.len(),
    decreases s@.len() - p, 3int,
{
    match parse_part(s, p) {
        Ok((e, v)) => {
            let (f, w) = parse_parts(s, e);
            let mut v = v;
            v.append(w.as_str());
            (f, v)
        },
        Err(_) => (p, String::new()),
    }
}

fn parse_complex_value(s: &[u8], p: usize) -> (r: Result<(usize, String), ParseError>)
    requires
        p <= s@.len(),
    ensures
        match r {
            Ok((e, v)) => complex_value_from(s@, p as int) == Some((v@, e as int)) && p < e
                <= s@.len(),
            Err(_) => complex_value_from(s@, p as int) is None,
        },
    decreases s@.len() - p, 4int,
{
    match parse_part(s, p) {
        Ok((e, v)) => {
            let (f, w) = parse_parts(s, e);
            let mut v = v;
            v.append(w.as_str());
            Ok((f, v))
        },
        Err(_) => Err(ParseError),
    }
}

fn parse_values(s: &[u8], p: usize) -> (r: (usize, Vec<String>))
    requires
        p <= s@.len(),
    ensures
        values_from(s@, p as int) == (views(r.1@), r.0 as int),
        p <= r.0 <= s@.len(),
    decreases s@.len() - p, 5int,
{
    match parse_complex_value(s, p) {
        Ok((e, v)) => {
            let (f, rest) = parse_more_values(s, e);
            let mut rest = rest;
            let ghost old_rest = rest@;
            rest.insert(0, v);
            assert(views(rest@) =~= seq![v@] + views(old_rest));
            (f, rest)
        },
        Err(_) => {
            let v: Vec<String> = Vec::new();
            assert(views(v@) =~= Seq::<Seq<char>>::empty());
            (p, v)
        },
    }
}

fn parse_more_values(s: &[u8], p: usize) -> (r: (usize, Vec<String>))
    requires
        p <= s@.len(),
    ensures
        more_values_from(s@, p as int) == (views(r.1@), r.0 as int),
        p <= r.0 <= s@.len(),
    decreases s@.len() - p, 6int,
{
    let q = run_end(s, p, ByteClass::Space);
    if q < s.len() && s[q] == 44 {
        let r = run_end(s, q + 1, ByteClass::Space);
        match parse_complex_value(s, r) {
            Ok((e, v)) => {
                let (f, rest) = parse_more_values(s, e);
                let mut rest = rest;
                let ghost old_rest = rest@;
                rest.insert(0, v);
                assert(views(rest@) =~= seq![v@] + views(old_rest));
                (f, rest)
            },
            Err(_) => {
                let v: Vec<String> = Vec::new();
                assert(views(v@) =~= Seq::<Seq<char>>::empty());
                (p, v)
            },
        }
    } else {
        let v: Vec<String> = Vec::new();
        assert(views(v@) =~= Seq::<Seq<char>>::empty());
        (p, v)
    }
}

fn parse_args(s: &[u8], p: usize) -> (r: Result<(usize, Vec<String>), ParseError>)
    requires
        p <= s@.len(),
    ensures
        match r {
            Ok((e, vs)) => args_from(s@, p as int) == Some((views(vs@), e as int)) && p < e
                <= s@.len(),
            Err(_) => args_from(s@, p as int) is None,
        },
    decreases s@.len() - p, 1int,
{
    let q = run_end(s, p, ByteClass::Space);
    if q < s.len() && s[q] == 40 {
        let r = run_end(s, q + 1, ByteClass::Space);
        let (e, vs) = parse_values(s, r);
        let t = run_end(s, e, ByteClass::Space);
        if t < s.len() && s[t] == 41 {
            Ok((run_end(s, t + 1, ByteClass::Space), vs))
        } else {
            Err(ParseError)
        }
    } else {
        Err(ParseError)
    }
}

fn parse_statement(s: &[u8], p: usize) -> (r: Result<(usize, Statement), ParseError>)
    requires
        p <= s@.len(),
    ensures
        match r {
            Ok((e, st)) => statement_from(s@, p as int) == Some((st@, e as int)) && p < e
                <= s@.len(),
            Err(_) => statement_from(s@, p as int) is None,
        },
    decreases s@.len() - p, 1int,
{
    let (e1, name) = match parse_ident(s, p) {
        Ok(x) => x,
        Err(_) => return Err(ParseError),
    };
    let (e2, args) = match parse_args(s, e1) {
        Ok((e, vs)) => (e, vs),
        Err(_) => (e1, Vec::new()),
    };
    assert(opt_args_from(s@, e1 as int) == (views(args@), e2 as int)) by {
        if args_from(s@, e1 as int) is None {
            assert(views(args@) =~= Seq::<Seq<char>>::empty());
        }
    }
    let q = run_end(s, e2, ByteClass::Space);
    assert(advances(s@, p as int, q as int));
    let (e3, body) = if q < s.len() && s[q] == 59 {
        let b: Vec<Statement> = Vec::new();
        assert(models(b@) =~= Seq::<StatementModel>::empty());
        (q + 1, b)
    } else {
        match parse_statement(s, q) {
            Ok((e, st)) => {
                let mut b = Vec::new();
                b.push(st);
                assert(models(b@) =~= seq![st@]);
                (e, b)
            },
            Err(_) => match parse_block_body(s, q) {
                Ok((e, b)) => {
                    let w = run_end(s, e, ByteClass::Space);
                    if w < s.len() && s[w] == 59 {
                        (run_end(s, w + 1, ByteClass::Space), b)
                    } else {
                        (e, b)
                    }
                },
                Err(_) => {
                    let b: Vec<Statement> = Vec::new();
                    assert(models(b@) =~= Seq::<StatementModel>::empty());
                    (q, b)
                },
            },
        }
    };
    assert({
        let (bm, x) = if byte_at(s@, q as int, 59) {
            (Seq::empty(), q + 1)
        } else if !advances(s@, p as int, q as int) {
            (Seq::empty(), q as int)
        } else {
            match statement_from(s@, q as int) {
                Some((st, e)) => (seq![st], e),
                None => match block_body_from(s@, q as int) {
                    Some((b, e)) => {
                        let w = skip_ws(s@, e);
                        if byte_at(s@, w, 59) {
                            (b, skip_ws(s@, w + 1))
                        } else {
                            (b, e)
                        }
                    },
                    None => (Seq::empty(), q as int),
                },
            }
        };
        bm == models(body@) && x == e3
    });
    let f = run_end(s, e3, ByteClass::Space);
    let st = Statement { name, args, body };
    assert(st@.body =~= models(st.body@));
    Ok((f, st))
}

fn parse_block_body(s: &[u8], p: usize) -> (r: Result<(usize, Vec<Statement>), ParseError>)
    requires
        p <= s@.len(),
    ensures
        match r {
            Ok((e, b)) => block_body_from(s@, p as int) == Some((models(b@), e as int)) && p < e
                <= s@.len(),
            Err(_) => block_body_from(s@, p as int) is None,
        },
    decreases s@.len() - p, 0int,
{
    let q = run_end(s, p, ByteClass::Space);
    if q < s.len() && s[q] == 123 {
        let r = run_end(s, q + 1, ByteClass::Space);
        let (e, b) = parse_statements(s, r);
        let t = run_end(s, e, ByteClass::Space);
        if t < s.len() && s[t] == 125 {
            Ok((run_end(s, t + 1, ByteClass::Space), b))
        } else {
            Err(ParseError)
        }
    } else {
        Err(ParseError)
    }
}

fn parse_statements(s: &[u8], p: usize) -> (r: (usize, Vec<Statement>))
    requires
        p <= s@.len(),
    ensures
        statements_from(s@, p as int) == (models(r.1@), r.0 as int),
        p <= r.0 <= s@.len(),
    decreases s@.len() - p, 2int,
{
    match parse_statement(s, p) {
        Ok((e, st)) => {
            let (f, rest) = parse_statements(s, e);
            let mut rest = rest;
            let ghost old_rest = rest@;
            rest.insert(0, st);
            assert(models(rest@) =~= seq![st@] + models(old_rest));
            (f, rest)
        },
        Err(_) => {
            let v: Vec<Statement> = Vec::new();
            assert(models(v@) =~= Seq::<StatementModel>::empty());
            (p, v)
        },
    }
}

/// Reads an identifier at the start of `i`; gives the position after it.
pub fn ident(i: &[u8]) -> (r: Result<(usize, String), ParseError>)
    ensures
        match r {
            Ok((e, v)) => ident_from(i@, 0) == Some((v@, e as int)),
            Err(_) => ident_from(i@, 0) is None,
        },
{
    parse_ident(i, 0)
}

/// Reads a simple value at the start of `i`; gives the position after it.
pub fn simple_value(i: &[u8]) -> (r: Result<(usize, String), ParseError>)
    ensures
        match r {
            Ok((e, v)) => simple_value_from(i@, 0) == Some((v@, e as int)),
            Err(_) => simple_value_from(i@, 0) is None,
        },
{
    parse_simple_value(i, 0)
}

/// Reads a complex value at the start of `i`; gives the position after it.
pub fn complex_value(i: &[u8]) -> (r: Result<(usize, String), ParseError>)
    ensures
        match r {
            Ok((e, v)) => complex_value_from(i@, 0) == Some((v@, e as int)),
            Err(_) => complex_value_from(i@, 0) is None,
        },
{
    parse_complex_value(i, 0)
}

/// Reads an argument list at the start of `i`; gives the position after it.
pub fn args(i: &[u8]) -> (r: Result<(usize, Vec<String>), ParseError>)
    ensures
        match r {
            Ok((e, vs)) => args_from(i@, 0) == Some((views(vs@), e as int)),
            Err(_) => args_from(i@, 0) is None,
        },
{
    parse_args(i, 0)
}

/// Reads a block at the start of `i`; gives the position after it.
pub fn block_body(i: &[u8]) -> (r: Result<(usize, Vec<Statement>), ParseError>)
    ensures
        match r {
            Ok((e, b)) => block_body_from(i@, 0) == Some((models(b@), e as int)),
            Err(_) => block_body_from(i@, 0) is None,
        },
{
    parse_block_body(i, 0)
}

/// Reads a statement at the start of `i`; gives the position after it.
pub fn statement(i: &[u8]) -> (r: Result<(usize, Statement), ParseError>)
    ensures
        match r {
            Ok((e, st)) => statement_from(i@, 0) == Some((st@, e as int)),
            Err(_) => statement_from(i@, 0) is None,
        },
{
    parse_statement(i, 0)
}

/// Reads `i` as exactly one statement.
pub fn statement_exact(i: &[u8]) -> (r: Result<Statement, ParseError>)
    ensures
        match r {
            Ok(st) => statement_from(i@, 0) == Some((st@, i@.len() as int)),
            Err(_) => !(statement_from(i@, 0) matches Some((_, e)) && e == i@.len()),
        },
{
    match parse_statement(i, 0) {
        Ok((e, st)) => if e == i.len() {
            Ok(st)
        } else {
            Err(ParseError)
        },
        Err(_) => Err(ParseError),
    }
}

/// Reads `i` as exactly one block.
pub fn block_body_exact(i: &[u8]) -> (r: Result<Vec<Statement>, ParseError>)
    ensures
        match r {
            Ok(b) => block_body_from(i@, 0) == Some((models(b@), i@.len() as int)),
            Err(_) => !(block_body_from(i@, 0) matches Some((_, e)) && e == i@.len()),
        },
{
    match parse_block_body(i, 0) {
        Ok((e, b)) => if e == i.len() {
            Ok(b)
        } else {
            Err(ParseError)
        },
        Err(_) => Err(ParseError),
    }
}

/// Parses a whole source into its top-level statements.
pub fn scene(i: &[u8]) -> (r: Result<Vec<Statement>, ParseError>)
    ensures
        match r {
            Ok(b) => scene_of(i@) == Some(models(b@)),
            Err(_) => scene_of(i@) is None,
        },
{
    let (e, b) = parse_statements(i, 0);
    if e == i.len() {
        Ok(b)
    } else {
        Err(ParseError)
    }
}

} // verus!
