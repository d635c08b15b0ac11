//! Text helpers shared by the parser and the code generator.

use vstd::prelude::*;

verus! {

/// Characters of the bytes `s[from..to]`, one character per byte.
pub open spec fn chars_of(s: Seq<u8>, from: int, to: int) -> Seq<char> {
    s.subrange(from, to).map_values(|b: u8| b as char)
}

/// All bytes of `s[from..to]` are ASCII.
pub open spec fn ascii_range(s: Seq<u8>, from: int, to: int) -> bool {
    forall|i: int| from <= i < to ==> #[trigger] s[i] < 128
}

/// The characters of the ASCII bytes `s[from..to]`.
pub fn ascii_text(s: &[u8], from: usize, to: usize) -> (r: String)
    requires
        from <= to <= s@.len(),
        ascii_range(s@, from as int, to as int),
    ensures
        r@ == chars_of(s@, from as int, to as int),
{
    let mut v: Vec<char> = Vec::new();
    let mut i = from;
    while i < to
        invariant
            from <= i <= to,
            to <= s@.len(),
            v@ == chars_of(s@, from as int, i as int),
        decreases to - i,
    {
        v.push(s[i] as char);
        assert(chars_of(s@, from as int, i + 1) =~= chars_of(s@, from as int, i as int).push(
            s@[i as int] as char,
        ));
        i = i + 1;
    }
    string_of_chars(&v)
}

/// `parts` joined with `sep` between consecutive elements.
pub open spec fn joined(parts: Seq<Seq<char>>, sep: Seq<char>) -> Seq<char>
    decreases parts.len(),
{
    if parts.len() == 0 {
        Seq::empty()
    } else if parts.len() == 1 {
        parts[0]
    } else {
        joined(parts.drop_last(), sep) + sep + parts.last()
    }
}

/// The views of a vector of strings.
pub open spec fn views(v: Seq<String>) -> Seq<Seq<char>> {
    v.map_values(|s: String| s@)
}

/// Joins `parts` with `sep`.
pub fn join(parts: &Vec<String>, sep: &str) -> (r: String)
    ensures
        r@ == joined(views(parts@), sep@),
{
    let mut r = String::new();
    let ghost all = views(parts@);
    let mut i: usize = 0;
    while i < parts.len()
        invariant
            0 <= i <= parts.len(),
            all == views(parts@),
            r@ == joined(all.take(i as int), sep@),
        decreases parts.len() - i,
    {
        if i > 0 {
            r.append(sep);
        }
        r.append(parts[i].as_str());
        assert(all.take(i + 1).drop_last() == all.take(i as int));
        i = i + 1;
    }
    assert(all.take(parts.len() as int) == all);
    r
}

/// The character of a decimal digit.
pub open spec fn digit_char(d: nat) -> char {
    if d == 0 { '0' }
    else if d == 1 { '1' }
    else if d == 2 { '2' }
    else if d == 3 { '3' }
    else if d == 4 { '4' }
    else if d == 5 { '5' }
    else if d == 6 { '6' }
    else if d == 7 { '7' }
    else if d == 8 { '8' }
    else { '9' }
}

/// The decimal notation of `n`, without leading zeros.
pub open spec fn decimal(n: nat) -> Seq<char>
    decreases n,
{
    if n < 10 {
        seq![digit_char(n)]
    } else {
        decimal(n / 10) + seq![digit_char(n % 10)]
    }
}

/// A character that `decimal` may hold.
pub open spec fn is_digit_char(c: char) -> bool {
    '0' <= c <= '9'
}

/// A decimal notation is made of digits, and has two or more of them from
/// ten on.
pub proof fn lemma_decimal_digits(n: nat)
    ensures
        decimal(n).len() >= 1,
        n >= 10 ==> decimal(n).len() >= 2,
        forall|i: int| 0 <= i < decimal(n).len() ==> is_digit_char(#[trigger] decimal(n)[i]),
    decreases n,
{
    if n >= 10 {
        lemma_decimal_digits(n / 10);
        let a = decimal(n / 10);
        let b = decimal(n);
        assert forall|i: int| 0 <= i < b.len() implies is_digit_char(#[trigger] b[i]) by {
            if i < a.len() {
                assert(b[i] == a[i]);
            }
        }
    }
}

proof fn lemma_digit_char_injective(a: nat, b: nat)
    requires
        a < 10,
        b < 10,
        digit_char(a) == digit_char(b),
    ensures
        a == b,
{
}

/// Distinct numbers have distinct decimal notations.
pub proof fn lemma_decimal_injective(a: nat, b: nat)
    requires
        decimal(a) == decimal(b),
    ensures
        a == b,
    decreases a,
{
    lemma_decimal_digits(a);
    lemma_decimal_digits(b);
    if a < 10 && b < 10 {
        assert(decimal(a)[0] == digit_char(a));
        assert(decimal(b)[0] == digit_char(b));
        lemma_digit_char_injective(a, b);
    } else if a >= 10 && b >= 10 {
        let da = decimal(a);
        let db = decimal(b);
        assert(da.drop_last() == decimal(a / 10));
        assert(db.drop_last() == decimal(b / 10));
        assert(da.last() == digit_char(a % 10));
        assert(db.last() == digit_char(b % 10));
        lemma_digit_char_injective(a % 10, b % 10);
        lemma_decimal_injective(a / 10, b / 10);
        assert(a == 10 * (a / 10) + a % 10);
        assert(b == 10 * (b / 10) + b % 10);
    }
}

/// The character of a decimal digit, as a string slice.
fn digit_str(d: usize) -> (r: &'static str)
    requires
        d < 10,
    ensures
        r@ == seq![digit_char(d as nat)],
{
    proof {
        reveal_strlit("0");
        reveal_strlit("1");
        reveal_strlit("2");
        reveal_strlit("3");
        reveal_strlit("4");
        reveal_strlit("5");
        reveal_strlit("6");
        reveal_strlit("7");
        reveal_strlit("8");
        reveal_strlit("9");
    }
    if d == 0 { "0" }
    else if d == 1 { "1" }
    else if d == 2 { "2" }
    else if d == 3 { "3" }
    else if d == 4 { "4" }
    else if d == 5 { "5" }
    else if d == 6 { "6" }
    else if d == 7 { "7" }
    else if d == 8 { "8" }
    else { "9" }
}

/// The decimal notation of `n`.
pub fn decimal_text(n: u128) -> (r: String)
    ensures
        r@ == decimal(n as nat),
    decreases n,
{
    if n < 10 {
        let mut r = String::new();
        r.append(digit_str(n as usize));
        r
    } else {
        let mut r = decimal_text(n / 10);
        r.append(digit_str((n % 10) as usize));
        r
    }
}

/// Relies on `str::chars` and `Iterator::collect`: the characters of `s`, in order.
#[verifier::external_body]
pub(crate) fn chars_vec(s: &str) -> (r: Vec<char>)
    ensures
        r@ == s@,
{
    s.chars().collect()
}

/// Relies on `String::from_iter`: the string made of the characters of `v`, in order.
#[verifier::external_body]
pub(crate) fn string_of_chars(v: &Vec<char>) -> (r: String)
    ensures
        r@ == v@,
{
    String::from_iter(v.iter())
}

/// A character that may stand in an identifier.
pub open spec fn is_word_char(c: char) -> bool {
    ('a' <= c <= 'z') || ('A' <= c <= 'Z') || ('0' <= c <= '9') || c == '_'
}

/// The whole word `arg` starts at `i` in `t`.
pub open spec fn arg_word_at(t: Seq<char>, i: int) -> bool {
    &&& 0 <= i
    &&& i + 3 <= t.len()
    &&& t[i] == 'a' && t[i + 1] == 'r' && t[i + 2] == 'g'
    &&& (i == 0 || !is_word_char(t[i - 1]))
    &&& (i + 3 == t.len() || !is_word_char(t[i + 3]))
}

/// `t` from `i` on, with every whole word `arg` replaced by `a`.
pub open spec fn substitute_from(t: Seq<char>, a: Seq<char>, i: int) -> Seq<char>
    decreases t.len() - i,
{
    if i < 0 || i >= t.len() {
        Seq::empty()
    } else if arg_word_at(t, i) {
        a + substitute_from(t, a, i + 3)
    } else {
        seq![t[i]] + substitute_from(t, a, i + 1)
    }
}

/// `t` with every whole word `arg` replaced by `a`: an expression template
/// instantiated with the current argument variable.
pub open spec fn substitute(t: Seq<char>, a: Seq<char>) -> Seq<char> {
    substitute_from(t, a, 0)
}

fn word_char(c: char) -> (r: bool)
    ensures
        r == is_word_char(c),
{
    ('a' <= c && c <= 'z') || ('A' <= c && c <= 'Z') || ('0' <= c && c <= '9') || c == '_'
}

/// Instantiates the template `t` with the argument variable `a`.
pub fn substitute_arg(t: &str, a: &str) -> (r: String)
    ensures
        r@ == substitute(t@, a@),
{
    let tv = chars_vec(t);
    let av = chars_vec(a);
    let mut out: Vec<char> = Vec::new();
    let mut i: usize = 0;
    while i < tv.len()
        invariant
            0 <= i <= tv@.len(),
            tv@ == t@,
            av@ == a@,
            out@ + substitute_from(t@, a@, i as int) == substitute(t@, a@),
        decreases tv@.len() - i,
    {
        let n = tv.len();
        let is_word = 3 <= n - i && tv[i] == 'a' && tv[i + 1] == 'r' && tv[i + 2] == 'g' && (i
            == 0 || !word_char(tv[i - 1])) && (i + 3 == n || !word_char(tv[i + 3]));
        let ghost before = out@;
        if is_word {
            let mut j: usize = 0;
            while j < av.len()
                invariant
                    0 <= j <= av@.len(),
                    av@ == a@,
                    out@ == before + a@.take(j as int),
                decreases av@.len() - j,
            {
                out.push(av[j]);
                assert(a@.take(j + 1) == a@.take(j as int).push(a@[j as int]));
                j = j + 1;
            }
            assert(a@.take(av@.len() as int) == a@);
            assert(out@ + substitute_from(t@, a@, i + 3) == before + substitute_from(t@, a@, i as int));
            i = i + 3;
        } else {
            out.push(tv[i]);
            assert(out@ + substitute_from(t@, a@, i + 1) == before + substitute_from(t@, a@, i as int));
            i = i + 1;
        }
    }
    string_of_chars(&out)
}

/// A whitespace character, as Unicode's `White_Space` property lists them.
pub open spec fn is_white(c: char) -> bool {
    ('\u{9}' <= c <= '\u{d}') || c == ' ' || c == '\u{85}' || c == '\u{a0}' || c == '\u{1680}'
        || ('\u{2000}' <= c <= '\u{200a}') || c == '\u{2028}' || c == '\u{2029}' || c == '\u{202f}'
        || c == '\u{205f}' || c == '\u{3000}'
}

fn white(c: char) -> (r: bool)
    ensures
        r == is_white(c),
{
    ('\u{9}' <= c && c <= '\u{d}') || c == ' ' || c == '\u{85}' || c == '\u{a0}' || c == '\u{1680}'
        || ('\u{2000}' <= c && c <= '\u{200a}') || c == '\u{2028}' || c == '\u{2029}' || c
        == '\u{202f}' || c == '\u{205f}' || c == '\u{3000}'
}

/// The word `cur` if it is not empty.
pub open spec fn word_if_any(cur: Seq<char>) -> Seq<Seq<char>> {
    if cur.len() > 0 {
        seq![cur]
    } else {
        Seq::empty()
    }
}

/// The words of `s` from `i` on, the current word having begun with `cur`.
pub open spec fn words_from(s: Seq<char>, i: int, cur: Seq<char>) -> Seq<Seq<char>>
    decreases s.len() - i,
{
    if i < 0 || i >= s.len() {
        word_if_any(cur)
    } else if is_white(s[i]) {
        word_if_any(cur) + words_from(s, i + 1, Seq::empty())
    } else {
        words_from(s, i + 1, cur.push(s[i]))
    }
}

/// The words of `s`: its maximal runs of characters that are not
/// whitespace, in order.
pub open spec fn words(s: Seq<char>) -> Seq<Seq<char>> {
    words_from(s, 0, Seq::empty())
}

/// Splits `s` into its words.
pub fn split_words(s: &str) -> (r: Vec<String>)
    ensures
        views(r@) == words(s@),
{
    let v = chars_vec(s);
    let mut out: Vec<String> = Vec::new();
    let mut cur: Vec<char> = Vec::new();
    let mut i: usize = 0;
    while i < v.len()
        invariant
            0 <= i <= v@.len(),
            v@ == s@,
            views(out@) + words_from(s@, i as int, cur@) == words(s@),
        decreases v@.len() - i,
    {
        if white(v[i]) {
            if cur.len() > 0 {
                let w = string_of_chars(&cur);
                let ghost before = out@;
                out.push(w);
                assert(views(out@) =~= views(before) + seq![cur@]);
            }
            assert(views(out@) + words_from(s@, i + 1, Seq::empty()) =~= views(out@) + words_from(
                s@,
                i + 1,
                Seq::<char>::empty(),
            ));
            cur = Vec::new();
            assert(cur@ =~= Seq::<char>::empty());
        } else {
            cur.push(v[i]);
        }
        i = i + 1;
    }
    if cur.len() > 0 {
        let w = string_of_chars(&cur);
        let ghost before = out@;
        out.push(w);
        assert(views(out@) =~= views(before) + seq![cur@]);
    }
    assert(views(out@) =~= views(out@) + Seq::<Seq<char>>::empty());
    out
}

/// Compares two string slices by their characters.
pub fn same_text(a: &str, b: &str) -> (r: bool)
    ensures
        r == (a@ == b@),
{
    let x = a.to_owned();
    let y = b.to_owned();
    x == y
}

} // verus!
