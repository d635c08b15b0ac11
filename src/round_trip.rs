//! Printing and parsing are inverse: a statement tree printed in its
//! canonical text parses back to the same tree.

use vstd::prelude::*;
use crate::parser::{
    args_from, block_body_from, complex_value_from, ident_from, in_class, is_alpha,
    more_values_from, op_from, opt_args_from, part_from, parts_from, run_len, scene_of, simple_value_from,
    skip_ws, statement_from, statements_from, trail_blanks, values_from, ByteClass,
};
use crate::statement::{statement_text, statement_texts, StatementModel};
use crate::text::{chars_of, is_word_char, joined};

verus! {

/// A letter.
pub open spec fn is_letter(c: char) -> bool {
    ('a' <= c <= 'z') || ('A' <= c <= 'Z')
}

/// A character that an argument may hold and print back unchanged.
pub open spec fn is_arg_char(c: char) -> bool {
    is_word_char(c) || c == '$' || c == '.'
}

/// A name that parses as an identifier.
pub open spec fn printable_name(t: Seq<char>) -> bool {
    t.len() >= 1 && is_letter(t[0]) && forall|i: int| 0 <= i < t.len() ==> is_word_char(#[trigger] t[i])
}

/// An argument that parses back to itself: a non-empty word of letters,
/// digits, `_`, `$` and `.`.
pub open spec fn printable_arg(t: Seq<char>) -> bool {
    t.len() >= 1 && forall|i: int| 0 <= i < t.len() ==> is_arg_char(#[trigger] t[i])
}

/// A statement tree whose names are identifiers and whose arguments are
/// words.
pub open spec fn printable(m: StatementModel) -> bool
    decreases m,
{
    &&& printable_name(m.name)
    &&& forall|i: int| 0 <= i < m.args.len() ==> printable_arg(#[trigger] m.args[i])
    &&& forall|i: int| 0 <= i < m.body.len() ==> printable(#[trigger] m.body[i])
}

/// The bytes of an ASCII text.
pub open spec fn encode(t: Seq<char>) -> Seq<u8> {
    t.map_values(|c: char| c as u8)
}

/// `s` holds the text `t` at `p`.
pub open spec fn holds_at(s: Seq<u8>, p: int, t: Seq<char>) -> bool {
    0 <= p && p + t.len() <= s.len() && forall|i: int| 0 <= i < t.len() ==> s[p + i] == (#[trigger] t[i]) as u8
}

proof fn lemma_holds_concat(s: Seq<u8>, p: int, a: Seq<char>, b: Seq<char>)
    ensures
        holds_at(s, p, a + b) <==> holds_at(s, p, a) && holds_at(s, p + a.len(), b),
{
    if holds_at(s, p, a + b) {
        assert forall|i: int| 0 <= i < a.len() implies s[p + i] == (#[trigger] a[i]) as u8 by {
            assert((a + b)[i] == a[i]);
        }
        assert forall|i: int| 0 <= i < b.len() implies s[p + a.len() + i] == (#[trigger] b[i]) as u8 by {
            assert((a + b)[a.len() + i] == b[i]);
        }
    }
    if holds_at(s, p, a) && holds_at(s, p + a.len(), b) {
        assert forall|i: int| 0 <= i < (a + b).len() implies s[p + i] == (#[trigger] (a + b)[i]) as u8 by {
            if i < a.len() {
                assert((a + b)[i] == a[i]);
            } else {
                assert((a + b)[i] == b[i - a.len()]);
                assert(s[p + a.len() + (i - a.len())] == b[i - a.len()] as u8);
            }
        }
    }
}

proof fn lemma_run(s: Seq<u8>, p: int, n: int, c: ByteClass)
    requires
        0 <= p,
        0 <= n,
        p + n <= s.len(),
        forall|i: int| p <= i < p + n ==> in_class(#[trigger] s[i], c),
        p + n == s.len() || !in_class(s[p + n], c),
    ensures
        run_len(s, p, c) == n,
    decreases n,
{
    if n > 0 {
        lemma_run(s, p + 1, n - 1, c);
    }
}

proof fn lemma_arg_char_bytes(c: char)
    requires
        is_arg_char(c),
    ensures
        in_class(c as u8, ByteClass::Value),
        !in_class(c as u8, ByteClass::Space),
        !in_class(c as u8, ByteClass::Blank),
        !in_class(c as u8, ByteClass::Op),
        (c as u8) as char == c,
        is_word_char(c) ==> in_class(c as u8, ByteClass::Word),
        is_letter(c) ==> is_alpha(c as u8),
        c as u8 != 40 && c as u8 != 41 && c as u8 != 44 && c as u8 != 59 && c as u8 != 123
            && c as u8 != 125,
{
}

proof fn lemma_chars_back(s: Seq<u8>, p: int, t: Seq<char>)
    requires
        holds_at(s, p, t),
        forall|i: int| 0 <= i < t.len() ==> is_arg_char(#[trigger] t[i]),
    ensures
        chars_of(s, p, p + t.len()) == t,
{
    assert forall|i: int| 0 <= i < t.len() implies chars_of(s, p, p + t.len())[i] == t[i] by {
        lemma_arg_char_bytes(t[i]);
    }
    assert(chars_of(s, p, p + t.len()) =~= t);
}

/// A byte that ends an argument and starts no value part.
pub open spec fn is_stop(b: u8) -> bool {
    b == 40 || b == 41 || b == 44 || b == 59 || b == 123 || b == 125
}

proof fn lemma_stop_bytes(b: u8)
    requires
        is_stop(b),
    ensures
        !in_class(b, ByteClass::Value),
        !in_class(b, ByteClass::Space),
        !in_class(b, ByteClass::Op),
        !in_class(b, ByteClass::Word),
        !is_alpha(b),
{
}

/// No part of a complex value starts at a stop byte other than `(`.
proof fn lemma_no_part_at_stop(s: Seq<u8>, e: int)
    requires
        0 <= e < s.len(),
        is_stop(s[e]),
        s[e] != 40,
    ensures
        skip_ws(s, e) == e,
        part_from(s, e) is None,
        parts_from(s, e) == (Seq::<char>::empty(), e),
        complex_value_from(s, e) is None,
{
    lemma_stop_bytes(s[e]);
    lemma_run(s, e, 0, ByteClass::Space);
    lemma_run(s, e, 0, ByteClass::Value);
    lemma_run(s, e, 0, ByteClass::Op);
    assert(simple_value_from(s, e) is None);
    assert(op_from(s, e) is None);
    assert(args_from(s, e) is None);
}

/// A word argument reads back as itself, up to the stop byte after it.
proof fn lemma_word_value(s: Seq<u8>, r: int, a: Seq<char>)
    requires
        printable_arg(a),
        holds_at(s, r, a),
        r + a.len() < s.len(),
        is_stop(s[r + a.len()]),
        s[r + a.len()] != 40,
    ensures
        complex_value_from(s, r) == Some((a, r + a.len())),
{
    let e = r + a.len();
    assert forall|i: int| r <= i < e implies in_class(#[trigger] s[i], ByteClass::Value) && !in_class(s[i], ByteClass::Space) && !in_class(s[i], ByteClass::Blank) by {
        assert(s[r + (i - r)] == a[i - r] as u8);
        lemma_arg_char_bytes(a[i - r]);
    }
    assert(s[r] == a[0] as u8);
    lemma_stop_bytes(s[e]);
    lemma_run(s, r, 0, ByteClass::Space);
    lemma_run(s, r, 0, ByteClass::Blank);
    lemma_run(s, r, a.len() as int, ByteClass::Value);
    assert(trail_blanks(s, r, e) == 0);
    lemma_chars_back(s, r, a);
    assert(simple_value_from(s, r) == Some((a, e)));
    lemma_no_part_at_stop(s, e);
    assert(part_from(s, r) == Some((a, e)));
    assert(a + Seq::<char>::empty() =~= a);
}

/// `joined` read from the front.
proof fn lemma_joined_front(parts: Seq<Seq<char>>, sep: Seq<char>)
    requires
        parts.len() >= 2,
    ensures
        joined(parts, sep) == parts[0] + sep + joined(parts.drop_first(), sep),
    decreases parts.len(),
{
    let dl = parts.drop_last();
    let df = parts.drop_first();
    assert(joined(parts, sep) == joined(dl, sep) + sep + parts.last());
    if parts.len() == 2 {
        assert(joined(dl, sep) == dl[0]);
        assert(joined(df, sep) == df[0]);
        assert(dl[0] == parts[0]);
        assert(df[0] == parts.last());
        assert(parts[0] + sep + parts.last() == parts[0] + sep + joined(df, sep));
    } else {
        lemma_joined_front(dl, sep);
        assert(dl.drop_first() =~= df.drop_last());
        assert(df.last() == parts.last());
        assert(dl[0] == parts[0]);
        assert(joined(df, sep) == joined(df.drop_last(), sep) + sep + df.last());
        assert(joined(dl, sep) == dl[0] + sep + joined(dl.drop_first(), sep));
        assert((parts[0] + sep + joined(df.drop_last(), sep)) + sep + parts.last() =~= parts[0]
            + sep + (joined(df.drop_last(), sep) + sep + df.last()));
    }
}

/// The text of the arguments after the first: `, b, c`.
pub open spec fn more_args_text(args: Seq<Seq<char>>) -> Seq<char> {
    if args.len() == 0 {
        Seq::empty()
    } else {
        seq![',', ' '] + joined(args, seq![',', ' '])
    }
}

proof fn lemma_more_values(s: Seq<u8>, p: int, args: Seq<Seq<char>>)
    requires
        forall|i: int| 0 <= i < args.len() ==> printable_arg(#[trigger] args[i]),
        holds_at(s, p, more_args_text(args)),
        p + more_args_text(args).len() < s.len(),
        s[p + more_args_text(args).len()] == 41,
    ensures
        more_values_from(s, p) == (args, p + more_args_text(args).len()),
    decreases args.len(),
{
    if args.len() == 0 {
        lemma_no_part_at_stop(s, p);
        assert(more_values_from(s, p) == (Seq::<Seq<char>>::empty(), p));
        assert(args =~= Seq::<Seq<char>>::empty());
    } else {
        let a = args[0];
        let rest = args.drop_first();
        let sep = seq![',', ' '];
        let t = more_args_text(args);
        if args.len() >= 2 {
            lemma_joined_front(args, sep);
            assert(t == sep + (a + more_args_text(rest)));
        } else {
            assert(joined(args, sep) == a);
            assert(t == sep + (a + more_args_text(rest)));
        }
        lemma_holds_concat(s, p, sep, a + more_args_text(rest));
        lemma_holds_concat(s, p + 2, a, more_args_text(rest));
        assert(s[p] == sep[0] as u8);
        assert(s[p + 1] == sep[1] as u8);
        assert(s[p + 2] == a[0] as u8);
        lemma_arg_char_bytes(a[0]);
        lemma_run(s, p, 0, ByteClass::Space);
        lemma_run(s, p + 1, 1, ByteClass::Space);
        let e = p + 2 + a.len();
        if rest.len() == 0 {
            assert(s[e] == 41);
        } else {
            assert(s[e] == 44) by {
                assert(more_args_text(rest)[0] == ',');
            }
        }
        lemma_word_value(s, p + 2, a);
        lemma_more_values(s, e, rest);
        assert(seq![a] + rest =~= args);
    }
}

/// The text of an argument list: `(a, b)`.
pub open spec fn args_text(args: Seq<Seq<char>>) -> Seq<char> {
    seq!['('] + joined(args, seq![',', ' ']) + seq![')']
}

proof fn lemma_args(s: Seq<u8>, q: int, args: Seq<Seq<char>>)
    requires
        forall|i: int| 0 <= i < args.len() ==> printable_arg(#[trigger] args[i]),
        holds_at(s, q, args_text(args)),
        q + args_text(args).len() < s.len(),
        s[q + args_text(args).len()] == 123,
    ensures
        args_from(s, q) == Some((args, q + args_text(args).len())),
{
    let sep = seq![',', ' '];
    let inner = joined(args, sep);
    lemma_holds_concat(s, q, seq!['('] + inner, seq![')']);
    lemma_holds_concat(s, q, seq!['('], inner);
    assert(s[q] == 40) by {
        assert(seq!['('][0] == '(');
    }
    let t = q + 1 + inner.len();
    assert(s[t] == 41) by {
        assert(seq![')'][0] == ')');
    }
    lemma_run(s, q, 0, ByteClass::Space);
    lemma_run(s, t, 0, ByteClass::Space);
    lemma_run(s, t + 1, 0, ByteClass::Space);
    if args.len() == 0 {
        assert(inner.len() == 0);
        lemma_no_part_at_stop(s, q + 1);
        lemma_run(s, q + 1, 0, ByteClass::Space);
        assert(values_from(s, q + 1) == (args, q + 1)) by {
            assert(args =~= Seq::<Seq<char>>::empty());
        }
    } else {
        let a = args[0];
        let rest = args.drop_first();
        if args.len() >= 2 {
            lemma_joined_front(args, sep);
        }
        assert(inner == a + more_args_text(rest));
        lemma_holds_concat(s, q + 1, a, more_args_text(rest));
        assert(s[q + 1] == a[0] as u8);
        lemma_arg_char_bytes(a[0]);
        lemma_run(s, q + 1, 0, ByteClass::Space);
        let e = q + 1 + a.len();
        if rest.len() == 0 {
            assert(s[e] == 41);
        } else {
            assert(s[e] == 44) by {
                assert(more_args_text(rest)[0] == ',');
            }
        }
        lemma_word_value(s, q + 1, a);
        lemma_more_values(s, e, rest);
        assert(seq![a] + rest =~= args);
        assert(values_from(s, q + 1) == (args, t));
    }
}

/// What may follow a statement's text: the end, `; ` and another
/// statement, or the `}` closing a block.
pub open spec fn may_follow(s: Seq<u8>, e: int) -> bool {
    ||| e == s.len()
    ||| (e + 2 < s.len() && s[e] == 59 && s[e + 1] == 32 && is_alpha(s[e + 2]))
    ||| (e < s.len() && s[e] == 125)
}

/// Where reading resumes after a statement's text ending at `e`.
pub open spec fn resume_at(s: Seq<u8>, e: int) -> int {
    if e < s.len() && s[e] == 59 {
        e + 2
    } else {
        e
    }
}

/// The text of a block: `{s1; s2}`.
pub open spec fn block_text(body: Seq<StatementModel>) -> Seq<char> {
    seq!['{'] + joined(statement_texts(body), seq![';', ' ']) + seq!['}']
}

proof fn lemma_name(s: Seq<u8>, p: int, name: Seq<char>)
    requires
        printable_name(name),
        holds_at(s, p, name),
        p + name.len() < s.len(),
        s[p + name.len()] == 40,
    ensures
        ident_from(s, p) == Some((name, p + name.len())),
{
    assert forall|i: int| p <= i < p + name.len() implies in_class(#[trigger] s[i], ByteClass::Word) by {
        assert(s[p + (i - p)] == name[i - p] as u8);
        lemma_arg_char_bytes(name[i - p]);
    }
    assert(s[p] == name[0] as u8);
    lemma_arg_char_bytes(name[0]);
    lemma_run(s, p, name.len() as int, ByteClass::Word);
    assert forall|i: int| 0 <= i < name.len() implies is_arg_char(#[trigger] name[i]) by {}
    lemma_chars_back(s, p, name);
}

proof fn lemma_statement(s: Seq<u8>, p: int, m: StatementModel)
    requires
        printable(m),
        holds_at(s, p, statement_text(m)),
        may_follow(s, p + statement_text(m).len()),
    ensures
        statement_from(s, p) == Some((m, resume_at(s, p + statement_text(m).len()))),
    decreases m, 2int,
{
    let name = m.name;
    let at = args_text(m.args);
    let bt = block_text(m.body);
    let e = p + statement_text(m).len();
    assert(statement_text(m) =~= name + (at + bt));
    lemma_holds_concat(s, p, name, at + bt);
    lemma_holds_concat(s, p + name.len(), at, bt);
    let q = p + name.len() + at.len();
    assert(s[p + name.len()] == 40) by {
        assert(at[0] == '(');
    }
    assert(s[q] == 123) by {
        assert(bt[0] == '{');
    }
    lemma_name(s, p, name);
    lemma_args(s, p + name.len(), m.args);
    assert(opt_args_from(s, p + name.len()) == (m.args, q));
    lemma_stop_bytes(s[q]);
    lemma_run(s, q, 0, ByteClass::Space);
    assert(statement_from(s, q) is None) by {
        assert(ident_from(s, q) is None);
    }
    lemma_block(s, q, m.body);
    assert(q + bt.len() == e);
    if e < s.len() && s[e] == 59 {
        lemma_run(s, e, 0, ByteClass::Space);
        lemma_run(s, e + 1, 1, ByteClass::Space);
        lemma_run(s, e + 2, 0, ByteClass::Space);
    } else if e < s.len() {
        lemma_run(s, e, 0, ByteClass::Space);
    } else {
        lemma_run(s, e, 0, ByteClass::Space);
    }
    let r = StatementModel { name: m.name, args: m.args, body: m.body };
    assert(r == m);
}

proof fn lemma_block(s: Seq<u8>, q: int, body: Seq<StatementModel>)
    requires
        forall|i: int| 0 <= i < body.len() ==> printable(#[trigger] body[i]),
        holds_at(s, q, block_text(body)),
        may_follow(s, q + block_text(body).len()),
    ensures
        block_body_from(s, q) == Some((body, q + block_text(body).len())),
    decreases body, 1int,
{
    let inner = joined(statement_texts(body), seq![';', ' ']);
    lemma_holds_concat(s, q, seq!['{'] + inner, seq!['}']);
    lemma_holds_concat(s, q, seq!['{'], inner);
    assert(s[q] == 123) by {
        assert(seq!['{'][0] == '{');
    }
    let t = q + 1 + inner.len();
    assert(s[t] == 125) by {
        assert(seq!['}'][0] == '}');
    }
    lemma_run(s, q, 0, ByteClass::Space);
    lemma_run(s, t, 0, ByteClass::Space);
    lemma_run(s, t + 1, 0, ByteClass::Space);
    if body.len() == 0 {
        lemma_run(s, q + 1, 0, ByteClass::Space);
    } else {
        assert(statement_texts(body)[0] == statement_text(body[0]));
        let m0 = body[0];
        assert(statement_text(m0) =~= m0.name + (args_text(m0.args) + block_text(m0.body)));
        if body.len() >= 2 {
            lemma_joined_front(statement_texts(body), seq![';', ' ']);
        }
        assert(inner[0] == m0.name[0]);
        assert(s[q + 1] == inner[0] as u8);
        lemma_arg_char_bytes(m0.name[0]);
        lemma_run(s, q + 1, 0, ByteClass::Space);
    }
    lemma_statements(s, q + 1, body);
}

proof fn lemma_statements(s: Seq<u8>, p: int, body: Seq<StatementModel>)
    requires
        forall|i: int| 0 <= i < body.len() ==> printable(#[trigger] body[i]),
        holds_at(s, p, joined(statement_texts(body), seq![';', ' '])),
        p + joined(statement_texts(body), seq![';', ' ']).len() < s.len(),
        s[p + joined(statement_texts(body), seq![';', ' ']).len()] == 125,
    ensures
        statements_from(s, p) == (body, p + joined(statement_texts(body), seq![';', ' ']).len()),
    decreases body, 0int,
{
    let sep = seq![';', ' '];
    let texts = statement_texts(body);
    if body.len() == 0 {
        assert(ident_from(s, p) is None) by {
            assert(joined(texts, sep).len() == 0);
        }
        assert(body =~= Seq::<StatementModel>::empty());
    } else {
        let m0 = body[0];
        let rest = body.subrange(1, body.len() as int);
        assert(texts[0] == statement_text(m0));
        assert(statement_texts(rest) =~= texts.drop_first());
        let t0 = statement_text(m0);
        let e0 = p + t0.len();
        if body.len() == 1 {
            assert(joined(texts, sep) == t0);
            assert(rest =~= Seq::<StatementModel>::empty());
            lemma_statement(s, p, m0);
            assert(resume_at(s, e0) == e0);
            lemma_statements(s, e0, rest);
        } else {
            lemma_joined_front(texts, sep);
            let jr = joined(statement_texts(rest), sep);
            assert(joined(texts, sep) == t0 + sep + jr);
            assert(t0 + sep + jr =~= t0 + (sep + jr));
            lemma_holds_concat(s, p, t0, sep + jr);
            lemma_holds_concat(s, e0, sep, jr);
            assert(s[e0] == 59) by {
                assert(sep[0] == ';');
            }
            assert(s[e0 + 1] == 32) by {
                assert(sep[1] == ' ');
            }
            let m1 = rest[0];
            assert(statement_texts(rest)[0] == statement_text(m1));
            assert(statement_text(m1) =~= m1.name + (args_text(m1.args) + block_text(m1.body)));
            if rest.len() >= 2 {
                lemma_joined_front(statement_texts(rest), sep);
            }
            assert(jr[0] == m1.name[0]);
            assert(s[e0 + 2] == jr[0] as u8);
            assert(printable(m1));
            lemma_arg_char_bytes(m1.name[0]);
            lemma_statement(s, p, m0);
            lemma_statements(s, e0 + 2, rest);
        }
        assert(seq![m0] + rest =~= body);
    }
}

/// Parsing inverts printing: a statement tree whose names are identifiers
/// and whose arguments are words, printed in its canonical text, parses
/// back to exactly that tree, alone.
pub proof fn lemma_round_trip(m: StatementModel)
    requires
        printable(m),
    ensures
        scene_of(encode(statement_text(m))) == Some(seq![m]),
{
    let t = statement_text(m);
    let s = encode(t);
    assert(holds_at(s, 0, t));
    lemma_statement(s, 0, m);
    assert(t.len() > 0) by {
        assert(t =~= m.name + (args_text(m.args) + block_text(m.body)));
    }
    assert(statements_from(s, t.len() as int) == (Seq::<StatementModel>::empty(), t.len() as int));
    assert(seq![m] + Seq::<StatementModel>::empty() =~= seq![m]);
}

} // verus!
