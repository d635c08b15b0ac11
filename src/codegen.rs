//! Shader code generation: an accumulator of function definitions, and a
//! per-function builder that hands out hygienic temporary names.

use vstd::prelude::*;
use crate::text::{
    decimal, decimal_text, is_digit_char, join, joined, lemma_decimal_digits, lemma_decimal_injective,
    views,
};

verus! {

/// An expression of the generated code.
#[derive(Debug)]
pub enum Expr {
    FunctionCall(FunctionCall),
    String(String),
}

/// A call `name(arg, ...)`.
#[derive(Debug)]
pub struct FunctionCall {
    pub name: String,
    pub args: Vec<Expr>,
}

/// The text of an expression.
pub open spec fn expr_text(e: Expr) -> Seq<char>
    decreases e, 2int,
{
    match e {
        Expr::FunctionCall(c) => call_text(c),
        Expr::String(s) => s@,
    }
}

/// The text of a call: `name(a, b)`.
pub open spec fn call_text(c: FunctionCall) -> Seq<char>
    decreases c, 1int,
{
    c.name@ + seq!['('] + joined(expr_texts(c.args@), seq![',', ' ']) + seq![')']
}

/// The texts of a sequence of expressions.
pub open spec fn expr_texts(v: Seq<Expr>) -> Seq<Seq<char>>
    decreases v, 0int,
{
    Seq::new(
        v.len(),
        |i: int|
            if 0 <= i < v.len() {
                expr_text(v[i])
            } else {
                Seq::empty()
            },
    )
}

/// The text `name(a, b)` of a call whose arguments have the texts `args`.
pub open spec fn call_of(name: Seq<char>, args: Seq<Seq<char>>) -> Seq<char> {
    name + seq!['('] + joined(args, seq![',', ' ']) + seq![')']
}

impl Expr {
    /// The text of this expression.
    pub fn to_string(&self) -> (r: String)
        ensures
            r@ == expr_text(*self),
        decreases self,
    {
        match self {
            Expr::FunctionCall(c) => c.to_string(),
            Expr::String(s) => s.clone(),
        }
    }
}

impl FunctionCall {
    /// A call of `name` with no arguments yet.
    pub fn new(name: &str) -> (r: FunctionCall)
        ensures
            r.name@ == name@,
            r.args@.len() == 0,
    {
        FunctionCall { name: name.to_owned(), args: Vec::new() }
    }

    /// Appends an argument.
    pub fn push_arg(&mut self, arg: Expr)
        ensures
            final(self).name == old(self).name,
            final(self).args@ == old(self).args@.push(arg),
    {
        self.args.push(arg);
    }

    /// The text of this call.
    pub fn to_string(&self) -> (r: String)
        ensures
            r@ == call_text(*self),
        decreases self,
    {
        let mut texts: Vec<String> = Vec::new();
        let mut i: usize = 0;
        while i < self.args.len()
            invariant
                0 <= i <= self.args.len(),
                texts@.len() == i,
                forall|j: int| 0 <= j < i ==> (#[trigger] texts@[j])@ == expr_text(self.args@[j]),
            decreases self.args.len() - i,
        {
            assert(decreases_to!(self => self.args@[i as int]));
            let t = self.args[i].to_string();
            texts.push(t);
            i = i + 1;
        }
        let mut r = self.name.clone();
        proof {
            reveal_strlit("(");
            reveal_strlit(", ");
            reveal_strlit(")");
            assert("("@ == seq!['(']);
            assert(", "@ == seq![',', ' ']);
            assert(")"@ == seq![')']);
        }
        r.append("(");
        let inner = join(&texts, ", ");
        r.append(inner.as_str());
        r.append(")");
        assert(views(texts@) =~= expr_texts(self.args@));
        r
    }
}

/// The name of the `k`-th temporary of the `a`-th function: `def_<a>_<k>`.
pub open spec fn def_name(a: nat, k: nat) -> Seq<char> {
    seq!['d', 'e', 'f', '_'] + decimal(a) + seq!['_'] + decimal(k)
}

/// Temporaries never collide: two distinct pairs of function number and
/// counter give two distinct names.
pub proof fn lemma_def_name_injective(a1: nat, k1: nat, a2: nat, k2: nat)
    requires
        def_name(a1, k1) == def_name(a2, k2),
    ensures
        a1 == a2,
        k1 == k2,
{
    let s = def_name(a1, k1);
    let d1 = decimal(a1);
    let d2 = decimal(a2);
    let l1 = d1.len() as int;
    let l2 = d2.len() as int;
    lemma_decimal_digits(a1);
    lemma_decimal_digits(a2);
    if l1 < l2 {
        assert(s[4 + l1] == '_');
        assert(s[4 + l1] == d2[l1]);
        assert(is_digit_char(d2[l1]));
    } else if l2 < l1 {
        assert(s[4 + l2] == '_');
        assert(s[4 + l2] == d1[l2]);
        assert(is_digit_char(d1[l2]));
    } else {
        assert(s.subrange(4, 4 + l1) == d1);
        assert(def_name(a2, k2).subrange(4, 4 + l2) == d2);
        lemma_decimal_injective(a1, a2);
        assert(s.subrange(5 + l1, s.len() as int) == decimal(k1));
        assert(def_name(a2, k2).subrange(5 + l2, s.len() as int) == decimal(k2));
        lemma_decimal_injective(k1, k2);
    }
}

/// A binding line: `typ ident = expr;`.
pub open spec fn def_line(typ: Seq<char>, ident: Seq<char>, expr: Seq<char>) -> Seq<char> {
    typ + seq![' '] + ident + seq![' ', '=', ' '] + expr + seq![';']
}

/// A parameter declaration: `typ name`.
pub open spec fn param_text(p: (Seq<char>, Seq<char>)) -> Seq<char> {
    p.0 + seq![' '] + p.1
}

/// The full text of a function definition.
pub open spec fn function_text(
    ret: Seq<char>,
    name: Seq<char>,
    params: Seq<(Seq<char>, Seq<char>)>,
    definitions: Seq<Seq<char>>,
    expr: Seq<char>,
) -> Seq<char> {
    ret + seq![' '] + name + seq!['('] + joined(params.map_values(|p| param_text(p)), seq![',', ' '])
        + seq![')', ' ', '{', '\n'] + joined(definitions, seq!['\n']) + seq![
        '\n',
        'r',
        'e',
        't',
        'u',
        'r',
        'n',
        ' ',
    ] + expr + seq![';', '\n', '}']
}

/// The accumulated function definitions of one compile.
pub struct Glsl {
    uniq: u128,
    functions: Vec<String>,
}

/// The mathematical value of a `Glsl`.
pub struct GlslModel {
    /// how many functions were started
    pub uniq: nat,
    /// the texts of the finished functions, in order
    pub functions: Seq<Seq<char>>,
}

impl View for Glsl {
    type V = GlslModel;

    closed spec fn view(&self) -> GlslModel {
        GlslModel { uniq: self.uniq as nat, functions: views(self.functions@) }
    }
}

/// A function under construction.
pub struct Function {
    uniq_above: u128,
    uniq: u128,
    ret: String,
    name: String,
    args: Vec<(String, String)>,
    definitions: Vec<String>,
}

/// The mathematical value of a `Function`.
pub struct FunctionModel {
    /// the number of the function within its compile
    pub above: nat,
    /// how many temporaries were handed out
    pub uniq: nat,
    pub ret: Seq<char>,
    pub name: Seq<char>,
    pub params: Seq<(Seq<char>, Seq<char>)>,
    /// the binding lines, in order
    pub definitions: Seq<Seq<char>>,
}

impl View for Function {
    type V = FunctionModel;

    closed spec fn view(&self) -> FunctionModel {
        FunctionModel {
            above: self.uniq_above as nat,
            uniq: self.uniq as nat,
            ret: self.ret@,
            name: self.name@,
            params: self.args@.map_values(|p: (String, String)| (p.0@, p.1@)),
            definitions: views(self.definitions@),
        }
    }
}

impl Function {
    /// The builder's counters fit their types.
    pub closed spec fn wf(&self) -> bool {
        self.uniq as int <= self.definitions@.len()
    }
}

/// The model after binding `ident` to `expr` of type `typ`.
pub open spec fn bound(f: FunctionModel, typ: Seq<char>, ident: Seq<char>, expr: Seq<char>) -> FunctionModel {
    FunctionModel { definitions: f.definitions.push(def_line(typ, ident, expr)), ..f }
}

/// A fresh temporary bound to `expr`: its name and the model after it.
pub open spec fn defined(f: FunctionModel, typ: Seq<char>, expr: Seq<char>) -> (Seq<char>, FunctionModel) {
    let ident = def_name(f.above, f.uniq + 1);
    (ident, FunctionModel { uniq: f.uniq + 1, ..bound(f, typ, ident, expr) })
}

/// The model of a function just started.
pub open spec fn gen_model_start(
    above: nat,
    ret: Seq<char>,
    name: Seq<char>,
    params: Seq<(Seq<char>, Seq<char>)>,
) -> FunctionModel {
    FunctionModel { above, uniq: 0, ret, name, params, definitions: Seq::empty() }
}

impl Glsl {
    /// An empty accumulator.
    pub fn new() -> (r: Glsl)
        ensures
            r@.uniq == 0,
            r@.functions.len() == 0,
    {
        let r = Glsl { uniq: 0, functions: Vec::new() };
        assert(views(r.functions@) =~= Seq::<Seq<char>>::empty());
        r
    }

    /// Starts a function `typ name(params)`; it is numbered after all the
    /// functions started before it.
    pub fn add_function(&mut self, typ: &str, name: &str, args: Vec<(String, String)>) -> (r: Function)
        requires
            old(self)@.uniq < u128::MAX,
        ensures
            final(self)@ == (GlslModel { uniq: old(self)@.uniq + 1, ..old(self)@ }),
            r.wf(),
            r@ == (FunctionModel {
                above: old(self)@.uniq + 1,
                uniq: 0,
                ret: typ@,
                name: name@,
                params: args@.map_values(|p: (String, String)| (p.0@, p.1@)),
                definitions: Seq::empty(),
            }),
    {
        self.uniq = self.uniq + 1;
        let r = Function {
            uniq_above: self.uniq,
            uniq: 0,
            ret: typ.to_owned(),
            name: name.to_owned(),
            args,
            definitions: Vec::new(),
        };
        assert(views(r.definitions@) =~= Seq::<Seq<char>>::empty());
        r
    }

    /// The finished functions, one after another.
    pub fn to_string(&self) -> (r: String)
        ensures
            r@ == joined(self@.functions, seq!['\n']),
    {
        proof {
            reveal_strlit("\n");
            assert("\n"@ == seq!['\n']);
        }
        join(&self.functions, "\n")
    }
}

impl Function {
    /// Binds a fresh temporary `def_<a>_<k>` of type `typ` to `expr` and
    /// returns its name.
    pub fn gen_definition(&mut self, typ: &str, expr: &str) -> (r: String)
        requires
            old(self).wf(),
        ensures
            final(self).wf(),
            (r@, final(self)@) == defined(old(self)@, typ@, expr@),
    {
        let n = self.definitions.len();
        assert(self.uniq <= n);
        let ident = def_name_text(self.uniq_above, self.uniq + 1);
        let line = def_line_text(typ, ident.as_str(), expr);
        self.definitions.push(line);
        self.uniq = self.uniq + 1;
        assert(views(self.definitions@) =~= views(old(self).definitions@).push(
            def_line(typ@, ident@, expr@),
        ));
        ident
    }

    /// Binds the name `ident`, chosen by the scene's author, to `expr`.
    pub fn bind(&mut self, typ: &str, ident: &str, expr: &str)
        requires
            old(self).wf(),
        ensures
            final(self).wf(),
            final(self)@ == bound(old(self)@, typ@, ident@, expr@),
    {
        let line = def_line_text(typ, ident, expr);
        self.definitions.push(line);
        assert(views(self.definitions@) =~= views(old(self).definitions@).push(
            def_line(typ@, ident@, expr@),
        ));
    }

    /// Finishes the function with `return expr;` and adds its text to `glsl`.
    pub fn ret(self, glsl: &mut Glsl, expr: &str)
        ensures
            final(glsl)@ == (GlslModel {
                functions: old(glsl)@.functions.push(
                    function_text(self@.ret, self@.name, self@.params, self@.definitions, expr@),
                ),
                ..old(glsl)@
            }),
    {
        let ghost m = self@;
        let mut params: Vec<String> = Vec::new();
        let mut i: usize = 0;
        while i < self.args.len()
            invariant
                0 <= i <= self.args.len(),
                m == self@,
                params@.len() == i,
                forall|j: int| 0 <= j < i ==> (#[trigger] params@[j])@ == param_text(m.params[j]),
            decreases self.args.len() - i,
        {
            let mut p = self.args[i].0.clone();
            proof {
                reveal_strlit(" ");
                assert(" "@ == seq![' ']);
            }
            p.append(" ");
            p.append(self.args[i].1.as_str());
            params.push(p);
            i = i + 1;
        }
        proof {
            reveal_strlit(" ");
            reveal_strlit("(");
            reveal_strlit(", ");
            reveal_strlit(") {\n");
            reveal_strlit("\n");
            reveal_strlit("\nreturn ");
            reveal_strlit(";\n}");
            assert(" "@ == seq![' ']);
            assert("("@ == seq!['(']);
            assert(", "@ == seq![',', ' ']);
            assert(") {\n"@ == seq![')', ' ', '{', '\n']);
            assert("\n"@ == seq!['\n']);
            assert("\nreturn "@ == seq!['\n', 'r', 'e', 't', 'u', 'r', 'n', ' ']);
            assert(";\n}"@ == seq![';', '\n', '}']);
        }
        let mut t = self.ret.clone();
        t.append(" ");
        t.append(self.name.as_str());
        t.append("(");
        let ps = join(&params, ", ");
        t.append(ps.as_str());
        t.append(") {\n");
        let ds = join(&self.definitions, "\n");
        t.append(ds.as_str());
        t.append("\nreturn ");
        t.append(expr);
        t.append(";\n}");
        assert(views(params@) =~= m.params.map_values(|p| param_text(p)));
        glsl.functions.push(t);
        assert(views(glsl.functions@) =~= views(old(glsl).functions@).push(
            function_text(m.ret, m.name, m.params, m.definitions, expr@),
        ));
    }
}

fn def_name_text(a: u128, k: u128) -> (r: String)
    ensures
        r@ == def_name(a as nat, k as nat),
{
    proof {
        reveal_strlit("def_");
        reveal_strlit("_");
        assert("def_"@ == seq!['d', 'e', 'f', '_']);
        assert("_"@ == seq!['_']);
    }
    let mut r = String::new();
    r.append("def_");
    let x = decimal_text(a);
    r.append(x.as_str());
    r.append("_");
    let y = decimal_text(k);
    r.append(y.as_str());
    r
}

fn def_line_text(typ: &str, ident: &str, expr: &str) -> (r: String)
    ensures
        r@ == def_line(typ@, ident@, expr@),
{
    proof {
        reveal_strlit(" ");
        reveal_strlit(" = ");
        reveal_strlit(";");
        assert(" "@ == seq![' ']);
        assert(" = "@ == seq![' ', '=', ' ']);
        assert(";"@ == seq![';']);
    }
    let mut r = typ.to_owned();
    r.append(" ");
    r.append(ident);
    r.append(" = ");
    r.append(expr);
    r.append(";");
    r
}

} // verus!
