//! The expression model: tagged values forming the abstract syntax tree and
//! the runtime value representation at once (the language is homoiconic).
//!
//! Numbers are carried as the bit pattern of an IEEE-754 double (`u64`), so
//! that the evaluator's logic is stated over plain integers; the arithmetic
//! on those bit patterns lives in `num`.

use vstd::prelude::*;

verus! {

/// One of the four binary arithmetic operators.
#[derive(Clone, Copy, PartialEq, Eq, Structural, Debug)]
pub enum Operator {
    Add,
    Sub,
    Mul,
    Div,
}

/// A built-in operation addressed by a reserved name; it carries no
/// user-visible state.
#[derive(Clone, Copy, PartialEq, Eq, Structural, Debug)]
pub enum Native {
    Begin,
    Define,
    Function,
    Quote,
    Operator(Operator),
}

/// An expression: an atom or a list.
#[derive(Debug, PartialEq)]
pub enum Expr {
    Atom(Atom),
    List(List),
}

/// An indivisible value. `Number` holds the bit pattern of an IEEE-754
/// double.
#[derive(Debug, PartialEq)]
pub enum Atom {
    Number(u64),
    Symbol(String),
    Function(Function),
    Native(Native),
}

/// An immutable singly-linked list of expressions: empty, or a head/tail
/// pair. Nodes are never mutated after construction.
#[derive(Debug, PartialEq)]
pub enum List {
    Nil,
    Cons(Box<Node>),
}

/// A list node: one element and the rest of the list.
#[derive(Debug, PartialEq)]
pub struct Node {
    pub head: Expr,
    pub tail: List,
}

/// A closure: the index of its captured defining frame in the evaluator's
/// frame arena, its parameter names, and its unevaluated body.
///
/// The frame is captured by reference (as an arena index), not copied:
/// bindings added to the defining scope before the body runs are visible to
/// the closure.
#[derive(Debug, PartialEq)]
pub struct Function {
    pub frame: usize,
    pub parameters: Vec<String>,
    pub body: Box<Expr>,
}

/// The mathematical value of an expression: numbers as their bit patterns,
/// symbols as character sequences, lists as sequences of values.
#[verifier::ext_equal]
pub enum ExprV {
    Number(u64),
    Symbol(Seq<char>),
    Function(FunctionV),
    Native(Native),
    List(Seq<ExprV>),
}

/// The mathematical value of a closure.
#[verifier::ext_equal]
pub struct FunctionV {
    pub frame: int,
    pub parameters: Seq<Seq<char>>,
    pub body: Box<ExprV>,
}

impl Expr {
    /// The mathematical value of this expression.
    pub open spec fn to_v(&self) -> ExprV
        decreases self,
    {
        match self {
            Expr::Atom(a) => a.to_v(),
            Expr::List(l) => ExprV::List(l.to_v()),
        }
    }
}

impl Atom {
    /// The mathematical value of this atom.
    pub open spec fn to_v(&self) -> ExprV
        decreases self,
    {
        match self {
            Atom::Number(bits) => ExprV::Number(*bits),
            Atom::Symbol(s) => ExprV::Symbol(s@),
            Atom::Function(f) => ExprV::Function(f.to_v()),
            Atom::Native(n) => ExprV::Native(*n),
        }
    }
}

impl List {
    /// The sequence of the mathematical values of the elements, head first.
    pub open spec fn to_v(&self) -> Seq<ExprV>
        decreases self,
    {
        match self {
            List::Nil => Seq::empty(),
            List::Cons(node) => seq![node.head.to_v()] + node.tail.to_v(),
        }
    }
}

impl Function {
    /// The mathematical value of this closure.
    pub open spec fn to_v(&self) -> FunctionV
        decreases self,
    {
        FunctionV {
            frame: self.frame as int,
            parameters: self.parameters.deep_view(),
            body: Box::new(self.body.to_v()),
        }
    }
}

impl Expr {
    /// A structurally identical copy of this expression.
    pub fn dup(&self) -> (r: Expr)
        ensures
            r@ == self@,
        decreases self,
    {
        match self {
            Expr::Atom(a) => Expr::Atom(a.dup()),
            Expr::List(l) => Expr::List(l.dup()),
        }
    }
}

impl Atom {
    /// A structurally identical copy of this atom.
    pub fn dup(&self) -> (r: Atom)
        ensures
            r@ == self@,
        decreases self,
    {
        match self {
            Atom::Number(bits) => Atom::Number(*bits),
            Atom::Symbol(s) => Atom::Symbol(s.clone()),
            Atom::Function(f) => Atom::Function(f.dup()),
            Atom::Native(n) => Atom::Native(*n),
        }
    }
}

impl List {
    /// A structurally identical copy of this list.
    pub fn dup(&self) -> (r: List)
        ensures
            r@ == self@,
        decreases self,
    {
        match self {
            List::Nil => List::Nil,
            List::Cons(node) => List::Cons(
                Box::new(Node { head: node.head.dup(), tail: node.tail.dup() }),
            ),
        }
    }
}

impl Function {
    /// A structurally identical copy of this closure; the captured frame
    /// index is shared, as a closure shares its defining scope.
    pub fn dup(&self) -> (r: Function)
        ensures
            r@ == self@,
        decreases self,
    {
        let n = self.parameters.len();
        let mut parameters: Vec<String> = Vec::new();
        let mut j: usize = 0;
        while j < n
            invariant
                j <= n,
                n == self.parameters.len(),
                parameters@ == self.parameters@.take(j as int),
            decreases n - j,
        {
            parameters.push(self.parameters[j].clone());
            j = j + 1;
            proof {
                assert(parameters@ =~= self.parameters@.take(j as int));
            }
        }
        proof {
            assert(parameters@ =~= self.parameters@);
        }
        let r = Function { frame: self.frame, parameters, body: Box::new(self.body.dup()) };
        proof {
            assert(r@ =~= self@);
        }
        r
    }
}

impl View for Expr {
    type V = ExprV;

    open spec fn view(&self) -> ExprV {
        self.to_v()
    }
}

impl View for Atom {
    type V = ExprV;

    open spec fn view(&self) -> ExprV {
        self.to_v()
    }
}

impl View for List {
    type V = Seq<ExprV>;

    open spec fn view(&self) -> Seq<ExprV> {
        self.to_v()
    }
}

impl View for Function {
    type V = FunctionV;

    open spec fn view(&self) -> FunctionV {
        self.to_v()
    }
}

impl List {
    /// Prepends `head` to `tail`, producing a new list; `tail` is not
    /// changed.
    pub fn cons(head: Expr, tail: List) -> (r: List)
        ensures
            r@ == seq![head@] + tail@,
    {
        List::Cons(Box::new(Node { head, tail }))
    }

    /// The number of elements.
    pub fn len(&self) -> (r: usize)
        requires
            self@.len() <= usize::MAX,
        ensures
            r == self@.len(),
        decreases self,
    {
        match self {
            List::Nil => 0,
            List::Cons(node) => 1 + node.tail.len(),
        }
    }

    /// The list holding the elements of `v` in order.
    pub fn from_vec(v: Vec<Expr>) -> (r: List)
        ensures
            r@ == v@.map_values(|e: Expr| e@),
    {
        let mut v = v;
        let mut r = List::Nil;
        let ghost all = v@.map_values(|e: Expr| e@);
        proof {
            assert(r@ =~= all.skip(v@.len() as int));
        }
        while v.len() > 0
            invariant
                v@.len() <= all.len(),
                v@.map_values(|e: Expr| e@) == all.take(v@.len() as int),
                r@ == all.skip(v@.len() as int),
            decreases v@.len(),
        {
            let ghost n = v@.len() as int;
            let e = match v.pop() {
                Some(e) => e,
                None => unreached(),
            };
            proof {
                assert(all.take(n)[n - 1] == e@);
                assert(v@.map_values(|x: Expr| x@) =~= all.take(n - 1));
            }
            r = List::cons(e, r);
            proof {
                assert(r@ =~= all.skip(n - 1));
            }
        }
        proof {
            assert(r@ =~= all);
        }
        r
    }

    /// The elements as a vector, head first; the list is unchanged.
    pub fn to_vec(&self) -> (r: Vec<Expr>)
        ensures
            r@.map_values(|e: Expr| e@) == self@,
        decreases self,
    {
        match self {
            List::Nil => {
                let r: Vec<Expr> = Vec::new();
                proof {
                    assert(r@.map_values(|e: Expr| e@) =~= self@);
                }
                r
            },
            List::Cons(node) => {
                let mut rest = node.tail.to_vec();
                rest.insert(0, node.head.dup());
                proof {
                    assert(rest@.map_values(|e: Expr| e@) =~= self@);
                }
                rest
            },
        }
    }

    /// The element at position `i`, counted from the head, or `None` past
    /// the end.
    pub fn get(&self, i: usize) -> (r: Option<&Expr>)
        ensures
            i < self@.len() ==> (r matches Some(e) && e@ == self@[i as int]),
            i >= self@.len() ==> r is None,
        decreases self,
    {
        match self {
            List::Nil => None,
            List::Cons(node) => {
                if i == 0 {
                    Some(&node.head)
                } else {
                    node.tail.get(i - 1)
                }
            },
        }
    }
}

} // verus!
