//! Untyped statements: what the parser produces and the interpreter consumes.

use vstd::prelude::*;
use crate::text::{join, joined, views};

verus! {

/// A statement of the scene language: a name, raw argument expressions and
/// a nested body.
#[derive(Debug, PartialEq, Eq)]
pub struct Statement {
    pub name: String,
    pub args: Vec<String>,
    pub body: Vec<Statement>,
}

/// The mathematical value of a `Statement`.
pub struct StatementModel {
    pub name: Seq<char>,
    pub args: Seq<Seq<char>>,
    pub body: Seq<StatementModel>,
}

impl View for Statement {
    type V = StatementModel;

    open spec fn view(&self) -> StatementModel
        decreases self,
    {
        StatementModel {
            name: self.name@,
            args: views(self.args@),
            body: Seq::new(
                self.body@.len(),
                |i: int|
                    if 0 <= i < self.body@.len() {
                        self.body@[i]@
                    } else {
                        StatementModel { name: Seq::empty(), args: Seq::empty(), body: Seq::empty() }
                    },
            ),
        }
    }
}

/// The canonical text of a statement: `name(a, b){s1; s2}`.
pub open spec fn statement_text(m: StatementModel) -> Seq<char>
    decreases m, 1int,
{
    m.name + seq!['('] + joined(m.args, seq![',', ' ']) + seq![')', '{'] + joined(
        statement_texts(m.body),
        seq![';', ' '],
    ) + seq!['}']
}

/// The canonical texts of a sequence of statements.
pub open spec fn statement_texts(body: Seq<StatementModel>) -> Seq<Seq<char>>
    decreases body, 0int,
{
    Seq::new(
        body.len(),
        |i: int|
            if 0 <= i < body.len() {
                statement_text(body[i])
            } else {
                Seq::empty()
            },
    )
}

/// The error of a statement that is invalid for its sort or its context.
#[derive(Debug, Clone, PartialEq, Eq)]
pub struct StatementError(pub String);

impl Statement {
    /// A statement with the given name, arguments and body.
    pub fn new(name: String, args: Vec<String>, body: Vec<Statement>) -> (r: Statement)
        ensures
            r.name == name,
            r.args == args,
            r.body == body,
    {
        Statement { name, args, body }
    }

    /// The canonical text of this statement.
    pub fn to_string(&self) -> (r: String)
        ensures
            r@ == statement_text(self@),
        decreases self,
    {
        let mut texts: Vec<String> = Vec::new();
        let mut i: usize = 0;
        while i < self.body.len()
            invariant
                0 <= i <= self.body.len(),
                texts@.len() == i,
                forall|j: int| 0 <= j < i ==> (#[trigger] texts@[j])@ == statement_text(self.body@[j]@),
            decreases self.body.len() - i,
        {
            assert(decreases_to!(self => self.body@[i as int]));
            let t = self.body[i].to_string();
            texts.push(t);
            i = i + 1;
        }
        let mut r = self.name.clone();
        proof {
            reveal_strlit("(");
            reveal_strlit(", ");
            reveal_strlit("){");
            reveal_strlit("; ");
            reveal_strlit("}");
            assert("("@ == seq!['(']);
            assert(", "@ == seq![',', ' ']);
            assert("){"@ == seq![')', '{']);
            assert("; "@ == seq![';', ' ']);
            assert("}"@ == seq!['}']);
        }
        r.append("(");
        let a = join(&self.args, ", ");
        r.append(a.as_str());
        r.append("){");
        let b = join(&texts, "; ");
        r.append(b.as_str());
        r.append("}");
        let ghost m = self@;
        assert(views(texts@) =~= statement_texts(m.body));
        assert(r@ == statement_text(m));
        r
    }
}

} // verus!
