//! The program tree handed to the evaluator, and its mathematical model.
use vstd::prelude::*;

verus! {

/// A whole program: its name and the expression that is run.
#[derive(Debug, PartialEq)]
pub struct File {
    pub name: String,
    pub expression: Term,
}

#[derive(Debug, Clone, PartialEq)]
pub struct Int {
    pub value: i32,
}

#[derive(Debug, Clone, PartialEq)]
pub struct Str {
    pub value: String,
}

#[derive(Debug, Clone, PartialEq)]
pub struct Bool {
    pub value: bool,
}

#[derive(Debug, PartialEq)]
pub struct Print {
    pub value: Box<Term>,
}

#[derive(Debug, PartialEq)]
pub struct Binary {
    pub rhs: Box<Term>,
    pub op: BinaryOp,
    pub lhs: Box<Term>,
}

#[derive(Debug, Clone, Copy, PartialEq, Eq)]
pub enum BinaryOp {
    Add,
    Sub,
    Lt,
}

#[derive(Debug, PartialEq)]
pub struct If {
    pub condition: Box<Term>,
    pub then_branch: Box<Term>,
    pub otherwise: Box<Term>,
}

/// An identifier: a bound name or a function parameter.
#[derive(Debug, Clone, PartialEq)]
pub struct Parameter {
    pub text: String,
}

#[derive(Debug, PartialEq)]
pub struct Let {
    pub name: Parameter,
    pub value: Box<Term>,
    pub next: Box<Term>,
}

#[derive(Debug, Clone, PartialEq)]
pub struct Var {
    pub text: String,
}

#[derive(Debug, PartialEq)]
pub struct Function {
    pub parameters: Vec<Parameter>,
    pub value: Box<Term>,
}

#[derive(Debug, PartialEq)]
pub struct Call {
    pub callee: Box<Term>,
    pub arguments: Vec<Term>,
}

/// A node of the program tree.
#[derive(Debug, PartialEq)]
pub enum Term {
    Int(Int),
    Str(Str),
    Bool(Bool),
    Print(Print),
    Binary(Binary),
    If(If),
    Let(Let),
    Var(Var),
    Function(Function),
    Call(Call),
}

/// The mathematical model of a `Term`: the same tree, with texts as
/// character sequences and child lists as sequences.
pub enum Expr {
    Int(i32),
    Str(Seq<char>),
    Bool(bool),
    Print(Box<Expr>),
    Binary(BinaryOp, Box<Expr>, Box<Expr>),
    If(Box<Expr>, Box<Expr>, Box<Expr>),
    Let(Seq<char>, Box<Expr>, Box<Expr>),
    Var(Seq<char>),
    Function(Seq<Seq<char>>, Box<Expr>),
    Call(Box<Expr>, Seq<Expr>),
}

/// The names of a parameter list.
pub open spec fn names_of(ps: Seq<Parameter>) -> Seq<Seq<char>> {
    ps.map_values(|p: Parameter| p.text@)
}

impl Term {
    pub open spec fn model(&self) -> Expr
        decreases self,
    {
        match self {
            Term::Int(n) => Expr::Int(n.value),
            Term::Str(s) => Expr::Str(s.value@),
            Term::Bool(b) => Expr::Bool(b.value),
            Term::Print(p) => Expr::Print(Box::new(p.value.model())),
            Term::Binary(b) => Expr::Binary(b.op, Box::new(b.lhs.model()), Box::new(b.rhs.model())),
            Term::If(i) => Expr::If(
                Box::new(i.condition.model()),
                Box::new(i.then_branch.model()),
                Box::new(i.otherwise.model()),
            ),
            Term::Let(l) => Expr::Let(l.name.text@, Box::new(l.value.model()), Box::new(l.next.model())),
            Term::Var(v) => Expr::Var(v.text@),
            Term::Function(f) => Expr::Function(names_of(f.parameters@), Box::new(f.value.model())),
            Term::Call(c) => Expr::Call(
                Box::new(c.callee.model()),
                Seq::new(
                    c.arguments.len() as nat,
                    |i: int|
                        if 0 <= i < c.arguments.len() {
                            c.arguments[i].model()
                        } else {
                            Expr::Int(0)
                        },
                ),
            ),
        }
    }
}

/// An independent copy of a parameter list.
pub fn copy_parameters(ps: &Vec<Parameter>) -> (r: Vec<Parameter>)
    ensures
        names_of(r@) == names_of(ps@),
{
    let mut r: Vec<Parameter> = Vec::new();
    let mut i: usize = 0;
    while i < ps.len()
        invariant
            i <= ps.len(),
            r@.len() == i,
            forall|j: int| 0 <= j < i ==> #[trigger] r@[j].text@ == ps@[j].text@,
        decreases ps.len() - i,
    {
        r.push(Parameter { text: ps[i].text.clone() });
        i += 1;
    }
    assert(names_of(r@) =~= names_of(ps@));
    r
}

impl Term {
    /// An independent copy of the tree.
    pub fn copy(&self) -> (r: Term)
        ensures
            r.model() == self.model(),
        decreases self,
    {
        match self {
            Term::Int(n) => Term::Int(Int { value: n.value }),
            Term::Str(s) => Term::Str(Str { value: s.value.clone() }),
            Term::Bool(b) => Term::Bool(Bool { value: b.value }),
            Term::Print(p) => Term::Print(Print { value: Box::new(p.value.copy()) }),
            Term::Binary(b) => Term::Binary(
                Binary { rhs: Box::new(b.rhs.copy()), op: b.op, lhs: Box::new(b.lhs.copy()) },
            ),
            Term::If(i) => Term::If(
                If {
                    condition: Box::new(i.condition.copy()),
                    then_branch: Box::new(i.then_branch.copy()),
                    otherwise: Box::new(i.otherwise.copy()),
                },
            ),
            Term::Let(l) => Term::Let(
                Let {
                    name: Parameter { text: l.name.text.clone() },
                    value: Box::new(l.value.copy()),
                    next: Box::new(l.next.copy()),
                },
            ),
            Term::Var(v) => Term::Var(Var { text: v.text.clone() }),
            Term::Function(f) => Term::Function(
                Function { parameters: copy_parameters(&f.parameters), value: Box::new(f.value.copy()) },
            ),
            Term::Call(c) => {
                let callee = c.callee.copy();
                let mut arguments: Vec<Term> = Vec::new();
                let mut i: usize = 0;
                while i < c.arguments.len()
                    invariant
                        i <= c.arguments.len(),
                        *self == Term::Call(*c),
                        arguments@.len() == i,
                        forall|j: int| 0 <= j < i ==> #[trigger] arguments@[j].model() == c.arguments@[j].model(),
                    decreases c.arguments.len() - i,
                {
                    proof {
                        assert(decreases_to!(*self => self->Call_0));
                        assert(decreases_to!(self->Call_0 => c.arguments));
                        assert(decreases_to!(c.arguments => c.arguments@));
                        assert(decreases_to!(c.arguments@ => c.arguments@[i as int]));
                    }
                    let a = c.arguments[i].copy();
                    arguments.push(a);
                    i += 1;
                }
                let r = Term::Call(Call { callee: Box::new(callee), arguments });
                assert(r.model() =~~= self.model()) by {
                    let n = c.arguments.len();
                    let xs = Seq::new(
                        n as nat,
                        |j: int|
                            if 0 <= j < n {
                                arguments[j].model()
                            } else {
                                Expr::Int(0)
                            },
                    );
                    let ys = Seq::new(
                        n as nat,
                        |j: int|
                            if 0 <= j < n {
                                c.arguments[j].model()
                            } else {
                                Expr::Int(0)
                            },
                    );
                    assert(xs =~= ys);
                    assert(r.model()->Call_1 =~= xs);
                    assert(self.model()->Call_1 =~= ys);
                }
                r
            },
        }
    }
}

} // verus!
