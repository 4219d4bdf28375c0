//! The evaluator: walks an expression tree, resolves symbols through nested
//! lexical scopes, applies user-defined and built-in functions, and enforces
//! arity and type contracts.
//!
//! The meaning of evaluation is given by the spec-level interpreter
//! (`s_eval_expr` and its companions), a big-step semantics over the
//! mathematical values of expressions and frames; each executable method is
//! proved to return exactly what the spec interpreter says, including the
//! state of the frame arena afterwards.
//!
//! Evaluation is plain recursion bounded by an explicit `fuel` nesting
//! budget, which stands in for the host call stack: where the budget runs
//! out the evaluator reports `DepthLimit` instead of overflowing the stack.
//!
//! The current frame is restored on every exit path of a call, success or
//! failure, so a failing function body cannot corrupt scope resolution for
//! the rest of the session.

use vstd::prelude::*;

verus! {

use crate::ast::{Atom, Expr, ExprV, Function, FunctionV, List, Native, Node, Operator};
use crate::env::{lookup_chain, lookup_frame, Frame, FrameV};
use crate::num::op_bits;
use crate::num::apply_operator;

/// An evaluation error; any error aborts the current evaluation and
/// surfaces to the caller, with no local recovery.
#[derive(Debug, PartialEq)]
pub enum EvalError {
    /// An operand has the wrong tag for the operation.
    InvalidType,
    /// A call received an operand count other than required.
    WrongArity,
    /// A symbol is neither reserved nor found in the reachable frame chain.
    UndefinedSymbol(String),
    /// The evaluated head of an application is neither a function nor a
    /// built-in.
    NotCallable,
    /// The nesting budget that stands in for the host call stack ran out.
    DepthLimit,
}

/// The mathematical value of an evaluation error.
#[verifier::ext_equal]
pub enum ErrV {
    InvalidType,
    WrongArity,
    UndefinedSymbol(Seq<char>),
    NotCallable,
    DepthLimit,
}

impl View for EvalError {
    type V = ErrV;

    open spec fn view(&self) -> ErrV {
        match self {
            EvalError::InvalidType => ErrV::InvalidType,
            EvalError::WrongArity => ErrV::WrongArity,
            EvalError::UndefinedSymbol(s) => ErrV::UndefinedSymbol(s@),
            EvalError::NotCallable => ErrV::NotCallable,
            EvalError::DepthLimit => ErrV::DepthLimit,
        }
    }
}

/// The mathematical value of an evaluation result.
pub open spec fn res_v(r: Result<Expr, EvalError>) -> Result<ExprV, ErrV> {
    match r {
        Ok(e) => Ok(e@),
        Err(e) => Err(e@),
    }
}

/// The mathematical state of an evaluator: the frame arena and the index of
/// the current frame.
#[verifier::ext_equal]
pub struct StateV {
    pub frames: Seq<FrameV>,
    pub cur: int,
}

/// The state a fresh evaluator starts in: one empty global frame.
pub open spec fn initial_state() -> StateV {
    StateV {
        frames: seq![FrameV { bindings: Seq::empty(), parent: None }],
        cur: 0,
    }
}

/// An expression value is well formed for an arena of `n` frames when every
/// closure in it captures a frame index below `n` and every list is of
/// representable length.
pub open spec fn wf_expr(e: ExprV, n: int) -> bool
    decreases e,
{
    match e {
        ExprV::Function(f) => 0 <= f.frame < n && wf_expr(*f.body, n),
        ExprV::List(items) => items.len() <= usize::MAX && (forall|i: int|
            0 <= i < items.len() ==> wf_expr(#[trigger] items[i], n)),
        _ => true,
    }
}

/// Frame `i` of an arena of `n` frames is well formed: its parent stands
/// strictly below it (so chains are acyclic) and its bound values are well
/// formed.
pub open spec fn frame_wf(f: FrameV, i: int, n: int) -> bool {
    (match f.parent {
        Some(p) => 0 <= p < i,
        None => true,
    }) && (forall|j: int| 0 <= j < f.bindings.len() ==> wf_expr((#[trigger] f.bindings[j]).1, n))
}

/// A well-formed evaluator state: the current index is in range and every
/// frame is well formed.
pub open spec fn st_wf(st: StateV) -> bool {
    0 <= st.cur < st.frames.len() && (forall|i: int|
        0 <= i < st.frames.len() ==> frame_wf(#[trigger] st.frames[i], i, st.frames.len() as int))
}

/// The built-in bound to a reserved name, if the name is reserved. Reserved
/// names resolve before any frame lookup and therefore can never be
/// shadowed by `define`.
pub open spec fn reserved(name: Seq<char>) -> Option<Native> {
    if name == "begin"@ {
        Some(Native::Begin)
    } else if name == "define"@ {
        Some(Native::Define)
    } else if name == "function"@ {
        Some(Native::Function)
    } else if name == "quote"@ {
        Some(Native::Quote)
    } else if name == "+"@ {
        Some(Native::Operator(Operator::Add))
    } else if name == "-"@ {
        Some(Native::Operator(Operator::Sub))
    } else if name == "*"@ {
        Some(Native::Operator(Operator::Mul))
    } else if name == "/"@ {
        Some(Native::Operator(Operator::Div))
    } else {
        None
    }
}

/// What a symbol evaluates to: the built-in for a reserved name, else the
/// innermost binding in the frame chain, else an `UndefinedSymbol` error.
pub open spec fn s_eval_symbol(st: StateV, name: Seq<char>) -> Result<ExprV, ErrV> {
    match reserved(name) {
        Some(n) => Ok(ExprV::Native(n)),
        None => match lookup_chain(st.frames, st.cur, name) {
            Some(v) => Ok(v),
            None => Err(ErrV::UndefinedSymbol(name)),
        },
    }
}

/// What an atom evaluates to: a symbol resolves, every other atom is its
/// own value. Atoms never change the state.
pub open spec fn s_eval_atom(st: StateV, a: ExprV) -> Result<ExprV, ErrV> {
    match a {
        ExprV::Symbol(name) => s_eval_symbol(st, name),
        _ => Ok(a),
    }
}

/// The state after binding `name` to `v` in the current frame; parents are
/// never touched.
pub open spec fn bind_cur(st: StateV, name: Seq<char>, v: ExprV) -> StateV {
    StateV {
        frames: st.frames.update(
            st.cur,
            FrameV {
                bindings: st.frames[st.cur].bindings.push((name, v)),
                parent: st.frames[st.cur].parent,
            },
        ),
        cur: st.cur,
    }
}

/// The state after installing a fresh child frame of `parent` as current.
pub open spec fn push_frame(st: StateV, parent: int) -> StateV {
    StateV {
        frames: st.frames.push(FrameV { bindings: Seq::empty(), parent: Some(parent) }),
        cur: st.frames.len() as int,
    }
}

/// The state with the current-frame register set to `cur`.
pub open spec fn set_cur(st: StateV, cur: int) -> StateV {
    StateV { frames: st.frames, cur }
}

/// What an expression evaluates to, and the state it leaves behind.
pub open spec fn s_eval_expr(st: StateV, e: ExprV, fuel: nat) -> (StateV, Result<ExprV, ErrV>)
    decreases fuel, 4nat, 0nat,
{
    match e {
        ExprV::List(items) => s_eval_list(st, items, fuel),
        _ => (st, s_eval_atom(st, e)),
    }
}

/// What a list evaluates to: the empty list is itself; otherwise the head
/// is evaluated and must be a function or a built-in, which is applied to
/// the unevaluated operands.
pub open spec fn s_eval_list(st: StateV, items: Seq<ExprV>, fuel: nat) -> (StateV, Result<
    ExprV,
    ErrV,
>)
    decreases fuel, 3nat, 0nat,
{
    if items.len() == 0 {
        (st, Ok(ExprV::List(items)))
    } else if fuel == 0 {
        (st, Err(ErrV::DepthLimit))
    } else {
        let (st1, hr) = s_eval_expr(st, items[0], (fuel - 1) as nat);
        match hr {
            Err(e) => (st1, Err(e)),
            Ok(ExprV::Function(f)) => s_apply(st1, f, items.drop_first(), fuel),
            Ok(ExprV::Native(n)) => s_eval_native(st1, n, items.drop_first(), fuel),
            Ok(_) => (st1, Err(ErrV::NotCallable)),
        }
    }
}

/// Applying a user function: the operand count must match the parameter
/// count; a child frame of the function's captured frame is installed, the
/// arguments are bound sequentially in it (each evaluated inside the frame
/// being built), the body runs there, and the caller's frame is restored on
/// every exit path.
pub open spec fn s_apply(st: StateV, f: FunctionV, args: Seq<ExprV>, fuel: nat) -> (StateV, Result<
    ExprV,
    ErrV,
>)
    decreases fuel, 2nat, 0nat,
{
    if args.len() != f.parameters.len() {
        (st, Err(ErrV::WrongArity))
    } else {
        let caller = st.cur;
        let st1 = push_frame(st, f.frame);
        let (st2, be) = s_bind(st1, f.parameters, args, fuel);
        match be {
            Some(e) => (set_cur(st2, caller), Err(e)),
            None => if fuel == 0 {
                (set_cur(st2, caller), Err(ErrV::DepthLimit))
            } else {
                let (st3, r) = s_eval_expr(st2, *f.body, (fuel - 1) as nat);
                (set_cur(st3, caller), r)
            },
        }
    }
}

/// Binding parameters to arguments, one after the other: argument `i` is
/// evaluated after parameters `0 .. i-1` are already bound, inside the
/// frame being built. Returns the first error, if any.
pub open spec fn s_bind(st: StateV, parameters: Seq<Seq<char>>, args: Seq<ExprV>, fuel: nat) -> (
    StateV,
    Option<ErrV>,
)
    decreases fuel, 1nat, args.len(),
{
    if args.len() == 0 || parameters.len() == 0 {
        (st, None)
    } else {
        let (st1, r) = s_define(st, seq![ExprV::Symbol(parameters[0]), args[0]], fuel);
        match r {
            Err(e) => (st1, Some(e)),
            Ok(_) => s_bind(st1, parameters.drop_first(), args.drop_first(), fuel),
        }
    }
}

/// Dispatch of a built-in call.
pub open spec fn s_eval_native(st: StateV, n: Native, items: Seq<ExprV>, fuel: nat) -> (
    StateV,
    Result<ExprV, ErrV>,
)
    decreases fuel, 2nat, 0nat,
{
    match n {
        Native::Begin => s_begin(st, items, fuel),
        Native::Define => s_define(st, items, fuel),
        Native::Function => (st, s_function(st, items)),
        Native::Quote => (st, s_quote(items)),
        Native::Operator(op) => s_operator(st, op, items, fuel),
    }
}

/// `begin`: evaluates each operand in order and returns the value of the
/// last; zero operands is an arity error.
pub open spec fn s_begin(st: StateV, items: Seq<ExprV>, fuel: nat) -> (StateV, Result<ExprV, ErrV>)
    decreases fuel, 0nat, items.len(),
{
    if items.len() == 0 {
        (st, Err(ErrV::WrongArity))
    } else if fuel == 0 {
        (st, Err(ErrV::DepthLimit))
    } else {
        let (st1, r) = s_eval_expr(st, items[0], (fuel - 1) as nat);
        match r {
            Err(e) => (st1, Err(e)),
            Ok(v) => if items.len() == 1 {
                (st1, Ok(v))
            } else {
                s_begin(st1, items.drop_first(), fuel)
            },
        }
    }
}

/// `define`: the first operand must be a symbol literal, the second is
/// evaluated and bound to it in the current frame; the value is returned.
pub open spec fn s_define(st: StateV, items: Seq<ExprV>, fuel: nat) -> (StateV, Result<ExprV, ErrV>)
    decreases fuel, 0nat, 0nat,
{
    if items.len() != 2 {
        (st, Err(ErrV::WrongArity))
    } else {
        match items[0] {
            ExprV::Symbol(name) => if fuel == 0 {
                (st, Err(ErrV::DepthLimit))
            } else {
                let (st1, r) = s_eval_expr(st, items[1], (fuel - 1) as nat);
                match r {
                    Err(e) => (st1, Err(e)),
                    Ok(v) => (bind_cur(st1, name, v), Ok(v)),
                }
            },
            _ => (st, Err(ErrV::InvalidType)),
        }
    }
}

/// The parameter names of a parameter list, provided every element is a
/// symbol.
pub open spec fn symbol_names(items: Seq<ExprV>) -> Option<Seq<Seq<char>>>
    decreases items.len(),
{
    if items.len() == 0 {
        Some(Seq::empty())
    } else {
        match items[0] {
            ExprV::Symbol(name) => match symbol_names(items.drop_first()) {
                Some(rest) => Some(seq![name] + rest),
                None => None,
            },
            _ => None,
        }
    }
}

/// `function`: the first operand must be a list of symbols, the second is
/// the unevaluated body; the current frame is captured by reference and a
/// closure is returned. Nothing is evaluated.
pub open spec fn s_function(st: StateV, items: Seq<ExprV>) -> Result<ExprV, ErrV> {
    if items.len() != 2 {
        Err(ErrV::WrongArity)
    } else {
        match items[0] {
            ExprV::List(ps) => match symbol_names(ps) {
                Some(names) => Ok(
                    ExprV::Function(
                        FunctionV { frame: st.cur, parameters: names, body: Box::new(items[1]) },
                    ),
                ),
                None => Err(ErrV::InvalidType),
            },
            _ => Err(ErrV::InvalidType),
        }
    }
}

/// `quote`: returns its single operand unevaluated, structurally identical.
pub open spec fn s_quote(items: Seq<ExprV>) -> Result<ExprV, ErrV> {
    if items.len() != 1 {
        Err(ErrV::WrongArity)
    } else {
        Ok(items[0])
    }
}

/// An operator call: with an operand count other than two the result is
/// the number zero (positive-zero bit pattern), not an error; with two
/// operands both are evaluated, must be numbers, and the IEEE-754 double
/// operation is applied.
pub open spec fn s_operator(st: StateV, op: Operator, items: Seq<ExprV>, fuel: nat) -> (
    StateV,
    Result<ExprV, ErrV>,
)
    decreases fuel, 0nat, 0nat,
{
    if items.len() != 2 {
        (st, Ok(ExprV::Number(0)))
    } else if fuel == 0 {
        (st, Err(ErrV::DepthLimit))
    } else {
        let (st1, lr) = s_eval_expr(st, items[0], (fuel - 1) as nat);
        match lr {
            Err(e) => (st1, Err(e)),
            Ok(lv) => {
                let (st2, rr) = s_eval_expr(st1, items[1], (fuel - 1) as nat);
                match rr {
                    Err(e) => (st2, Err(e)),
                    Ok(rv) => match (lv, rv) {
                        (ExprV::Number(a), ExprV::Number(b)) => (
                            st2,
                            Ok(ExprV::Number(op_bits(op, a, b))),
                        ),
                        _ => (st2, Err(ErrV::InvalidType)),
                    },
                }
            },
        }
    }
}

/// Well-formedness of an expression value is kept when the arena grows.
pub proof fn lemma_wf_expr_mono(e: ExprV, n: int, m: int)
    requires
        wf_expr(e, n),
        n <= m,
    ensures
        wf_expr(e, m),
    decreases e,
{
    match e {
        ExprV::Function(f) => {
            lemma_wf_expr_mono(*f.body, n, m);
        },
        ExprV::List(items) => {
            assert forall|i: int| 0 <= i < items.len() implies wf_expr(#[trigger] items[i], m) by {
                lemma_wf_expr_mono(items[i], n, m);
            }
        },
        _ => {},
    }
}

/// A value found among well-formed binding entries is well formed.
proof fn lemma_lookup_frame_wf(entries: Seq<(Seq<char>, ExprV)>, name: Seq<char>, n: int)
    requires
        forall|j: int| 0 <= j < entries.len() ==> wf_expr((#[trigger] entries[j]).1, n),
        lookup_frame(entries, name) is Some,
    ensures
        wf_expr(lookup_frame(entries, name)->Some_0, n),
    decreases entries.len(),
{
    if entries.len() > 0 && entries.last().0 != name {
        lemma_lookup_frame_wf(entries.drop_last(), name, n);
    }
}

/// A value found anywhere along a well-formed frame chain is well formed.
proof fn lemma_lookup_chain_wf(st: StateV, i: int, name: Seq<char>)
    requires
        st_wf(st),
        0 <= i < st.frames.len(),
        lookup_chain(st.frames, i, name) is Some,
    ensures
        wf_expr(lookup_chain(st.frames, i, name)->Some_0, st.frames.len() as int),
    decreases i,
{
    if lookup_frame(st.frames[i].bindings, name) is Some {
        lemma_lookup_frame_wf(st.frames[i].bindings, name, st.frames.len() as int);
    } else {
        match st.frames[i].parent {
            Some(p) => {
                lemma_lookup_chain_wf(st, p, name);
            },
            None => {},
        }
    }
}

/// A list value stays well formed when its first element is dropped.
proof fn lemma_wf_tail(items: Seq<ExprV>, n: int)
    requires
        wf_expr(ExprV::List(items), n),
        items.len() >= 1,
    ensures
        wf_expr(ExprV::List(items.drop_first()), n),
{
    let t = items.drop_first();
    assert forall|i: int| 0 <= i < t.len() implies wf_expr(#[trigger] t[i], n) by {
        assert(wf_expr(items[i + 1], n));
        assert(t[i] == items[i + 1]);
    }
}

/// Installing a fresh child frame of a valid parent keeps the state well
/// formed.
proof fn lemma_push_frame_wf(st: StateV, parent: int)
    requires
        st_wf(st),
        0 <= parent < st.frames.len(),
    ensures
        st_wf(push_frame(st, parent)),
        push_frame(st, parent).frames.len() == st.frames.len() + 1,
        push_frame(st, parent).cur == st.frames.len(),
{
    let st2 = push_frame(st, parent);
    assert forall|i: int| 0 <= i < st2.frames.len() implies frame_wf(
        #[trigger] st2.frames[i],
        i,
        st2.frames.len() as int,
    ) by {
        if i < st.frames.len() {
            assert(frame_wf(st.frames[i], i, st.frames.len() as int));
            assert(st2.frames[i] == st.frames[i]);
            assert forall|j: int| 0 <= j < st2.frames[i].bindings.len() implies wf_expr(
                (#[trigger] st2.frames[i].bindings[j]).1,
                st2.frames.len() as int,
            ) by {
                lemma_wf_expr_mono(
                    st.frames[i].bindings[j].1,
                    st.frames.len() as int,
                    st2.frames.len() as int,
                );
            }
        } else {
            assert(st2.frames[i].bindings.len() == 0);
        }
    }
}

/// Binding a well-formed value in the current frame keeps the state well
/// formed.
proof fn lemma_bind_cur_wf(st: StateV, name: Seq<char>, v: ExprV)
    requires
        st_wf(st),
        wf_expr(v, st.frames.len() as int),
    ensures
        st_wf(bind_cur(st, name, v)),
        bind_cur(st, name, v).frames.len() == st.frames.len(),
        bind_cur(st, name, v).cur == st.cur,
{
    let st2 = bind_cur(st, name, v);
    assert forall|i: int| 0 <= i < st2.frames.len() implies frame_wf(
        #[trigger] st2.frames[i],
        i,
        st2.frames.len() as int,
    ) by {
        assert(frame_wf(st.frames[i], i, st.frames.len() as int));
        if i == st.cur {
            let nb = st2.frames[i].bindings;
            assert forall|j: int| 0 <= j < nb.len() implies wf_expr(
                (#[trigger] nb[j]).1,
                st2.frames.len() as int,
            ) by {
                if j < nb.len() - 1 {
                    assert(nb[j] == st.frames[i].bindings[j]);
                } else {
                    assert(nb[j] == (name, v));
                }
            }
        }
    }
}

/// The evaluator: the frame arena and one mutable current-frame register.
/// Frame 0 is the global frame. Child frames stay in the arena after a
/// call returns; discarding a call frame means restoring the register.
pub struct Evaluator {
    pub frames: Vec<Frame>,
    pub cur: usize,
}

impl View for Evaluator {
    type V = StateV;

    open spec fn view(&self) -> StateV {
        StateV { frames: self.frames@.map_values(|f: Frame| f@), cur: self.cur as int }
    }
}

impl Evaluator {
    /// The evaluator's invariant: its state is well formed.
    pub open spec fn inv(&self) -> bool {
        st_wf(self@)
    }

    /// A fresh evaluator with one empty global frame.
    pub fn new() -> (e: Evaluator)
        ensures
            e.inv(),
            e@ == initial_state(),
    {
        let mut frames: Vec<Frame> = Vec::new();
        frames.push(Frame::new());
        let e = Evaluator { frames, cur: 0 };
        proof {
            assert(e@.frames =~= initial_state().frames);
            assert(e@ =~= initial_state());
        }
        e
    }

    /// Resolves a reserved name to its built-in, or `None` for any other
    /// name. Reserved names are never looked up in frames.
    pub fn eval_special_symbol(&mut self, symbol: &String) -> (r: Option<Expr>)
        ensures
            *final(self) == *old(self),
            match reserved(symbol@) {
                Some(n) => r matches Some(e) && e@ == ExprV::Native(n),
                None => r is None,
            },
    {
        let native = if *symbol == String::from_str("begin") {
            Native::Begin
        } else if *symbol == String::from_str("define") {
            Native::Define
        } else if *symbol == String::from_str("function") {
            Native::Function
        } else if *symbol == String::from_str("quote") {
            Native::Quote
        } else if *symbol == String::from_str("+") {
            Native::Operator(Operator::Add)
        } else if *symbol == String::from_str("-") {
            Native::Operator(Operator::Sub)
        } else if *symbol == String::from_str("*") {
            Native::Operator(Operator::Mul)
        } else if *symbol == String::from_str("/") {
            Native::Operator(Operator::Div)
        } else {
            return None;
        };
        Some(Expr::Atom(Atom::Native(native)))
    }

    /// The innermost binding of `name` along the current frame chain, as a
    /// structurally identical copy.
    fn lookup(&self, name: &String) -> (r: Option<Expr>)
        requires
            self.inv(),
        ensures
            match lookup_chain(self@.frames, self@.cur, name@) {
                Some(v) => r matches Some(e) && e@ == v,
                None => r is None,
            },
    {
        let mut i = self.cur;
        loop
            invariant
                self.inv(),
                i < self.frames.len(),
                lookup_chain(self@.frames, self@.cur, name@) == lookup_chain(
                    self@.frames,
                    i as int,
                    name@,
                ),
            decreases i,
        {
            let found = self.frames[i].get(name);
            match found {
                Some(e) => {
                    return Some(e.dup());
                },
                None => {},
            }
            match self.frames[i].parent {
                Some(p) => {
                    proof {
                        assert(frame_wf(self@.frames[i as int], i as int, self@.frames.len() as int));
                    }
                    i = p;
                },
                None => {
                    return None;
                },
            }
        }
    }

    /// Evaluates a symbol: a reserved name resolves to its built-in before
    /// any frame lookup; otherwise the frame chain decides.
    pub fn eval_symbol(&mut self, symbol: String) -> (r: Result<Expr, EvalError>)
        requires
            old(self).inv(),
        ensures
            *final(self) == *old(self),
            final(self).inv(),
            res_v(r) == s_eval_symbol(old(self)@, symbol@),
            r matches Ok(v) ==> wf_expr(v@, final(self)@.frames.len() as int),
    {
        let special = self.eval_special_symbol(&symbol);
        match special {
            Some(expr) => Ok(expr),
            None => {
                let found = self.lookup(&symbol);
                proof {
                    if lookup_chain(self@.frames, self@.cur, symbol@) is Some {
                        lemma_lookup_chain_wf(self@, self@.cur, symbol@);
                    }
                }
                match found {
                    Some(expr) => Ok(expr),
                    None => Err(EvalError::UndefinedSymbol(symbol)),
                }
            },
        }
    }

    /// Evaluates an atom: a symbol resolves; a number, function or
    /// built-in evaluates to itself.
    pub fn eval_atom(&mut self, atom: Atom) -> (r: Result<Expr, EvalError>)
        requires
            old(self).inv(),
            wf_expr(atom@, old(self)@.frames.len() as int),
        ensures
            *final(self) == *old(self),
            final(self).inv(),
            res_v(r) == s_eval_atom(old(self)@, atom@),
            r matches Ok(v) ==> wf_expr(v@, final(self)@.frames.len() as int),
    {
        match atom {
            Atom::Symbol(symbol) => self.eval_symbol(symbol),
            other => Ok(Expr::Atom(other)),
        }
    }
}

impl Evaluator {
    /// `quote`: returns the single operand unevaluated.
    pub fn eval_call_quote(&mut self, tail: List) -> (r: Result<Expr, EvalError>)
        ensures
            *final(self) == *old(self),
            res_v(r) == s_quote(tail@),
    {
        let ghost items = tail@;
        match tail {
            List::Cons(node) => {
                let Node { head: h1, tail: t1 } = *node;
                let ghost ih1 = h1@;
                let ghost it1 = t1@;
                proof {
                    assert(items =~= seq![ih1] + it1);
                }
                match t1 {
                    List::Nil => {
                        proof {
                            assert(it1 =~= Seq::<ExprV>::empty());
                            assert(items.len() == 1);
                            assert(items[0] == ih1);
                        }
                        Ok(h1)
                    },
                    _ => {
                        proof {
                            assert(it1.len() >= 1);
                            assert(items.len() >= 2);
                        }
                        Err(EvalError::WrongArity)
                    },
                }
            },
            List::Nil => Err(EvalError::WrongArity),
        }
    }

    /// `function`: builds a closure from a list of parameter symbols and an
    /// unevaluated body, capturing the current frame by reference.
    pub fn eval_call_function(&mut self, tail: List) -> (r: Result<Expr, EvalError>)
        requires
            old(self).inv(),
            wf_expr(ExprV::List(tail@), old(self)@.frames.len() as int),
        ensures
            *final(self) == *old(self),
            final(self).inv(),
            res_v(r) == s_function(old(self)@, tail@),
            r matches Ok(v) ==> wf_expr(v@, final(self)@.frames.len() as int),
    {
        let ghost items = tail@;
        let (a, b) = match take_two(tail) {
            Ok(pair) => pair,
            Err(e) => {
                return Err(e);
            },
        };
        let list = match as_list(a) {
            Ok(l) => l,
            Err(e) => {
                return Err(e);
            },
        };
        let parameters = match collect_symbols(&list) {
            Ok(ps) => ps,
            Err(e) => {
                return Err(e);
            },
        };
        let r = Function { frame: self.cur, parameters, body: Box::new(b) };
        proof {
            let names = symbol_names(list@)->Some_0;
            assert(r@ =~= (FunctionV {
                frame: self@.cur,
                parameters: names,
                body: Box::new(items[1]),
            }));
            assert(wf_expr(items[1], self@.frames.len() as int));
        }
        Ok(Expr::Atom(Atom::Function(r)))
    }
}

/// Splits a list of exactly two elements into them, or reports the arity
/// error.
fn take_two(tail: List) -> (r: Result<(Expr, Expr), EvalError>)
    ensures
        tail@.len() == 2 ==> (r matches Ok(pair) && pair.0@ == tail@[0] && pair.1@ == tail@[1]),
        tail@.len() != 2 ==> (r matches Err(e) && e@ == ErrV::WrongArity),
{
    let ghost items = tail@;
    match tail {
        List::Cons(n1) => {
            let Node { head: h1, tail: t1 } = *n1;
            let ghost ih1 = h1@;
            let ghost it1 = t1@;
            proof {
                assert(items =~= seq![ih1] + it1);
            }
            match t1 {
                List::Cons(n2) => {
                    let Node { head: h2, tail: t2 } = *n2;
                    let ghost ih2 = h2@;
                    let ghost it2 = t2@;
                    proof {
                        assert(it1 =~= seq![ih2] + it2);
                    }
                    match t2 {
                        List::Nil => {
                            proof {
                                assert(it2 =~= Seq::<ExprV>::empty());
                                assert(items.len() == 2);
                                assert(items[0] == ih1);
                                assert(items[1] == ih2);
                            }
                            Ok((h1, h2))
                        },
                        _ => {
                            proof {
                                assert(it2.len() >= 1);
                                assert(items.len() >= 3);
                            }
                            Err(EvalError::WrongArity)
                        },
                    }
                },
                List::Nil => {
                    proof {
                        assert(it1 =~= Seq::<ExprV>::empty());
                        assert(items.len() == 1);
                    }
                    Err(EvalError::WrongArity)
                },
            }
        },
        List::Nil => Err(EvalError::WrongArity),
    }
}

/// The parameter names of a parameter list, each element of which must be
/// a symbol.
fn collect_symbols(list: &List) -> (r: Result<Vec<String>, EvalError>)
    ensures
        match symbol_names(list@) {
            Some(names) => r matches Ok(v) && v.deep_view() == names,
            None => r matches Err(e) && e@ == ErrV::InvalidType,
        },
    decreases list,
{
    match list {
        List::Nil => {
            let v: Vec<String> = Vec::new();
            proof {
                assert(v.deep_view() =~= Seq::<Seq<char>>::empty());
            }
            Ok(v)
        },
        List::Cons(node) => {
            proof {
                assert(list@.drop_first() =~= node.tail@);
                assert(list@[0] == node.head@);
            }
            match &node.head {
                Expr::Atom(Atom::Symbol(s)) => {
                    match collect_symbols(&node.tail) {
                        Ok(mut rest) => {
                            let ghost old_rest = rest.deep_view();
                            rest.insert(0, s.clone());
                            proof {
                                assert(rest.deep_view() =~= seq![s@] + old_rest);
                            }
                            Ok(rest)
                        },
                        Err(e) => Err(e),
                    }
                },
                _ => {
                    proof {
                        assert(!(list@[0] is Symbol)) by {
                            match node.head {
                                Expr::Atom(Atom::Symbol(_)) => {
                                    assert(false);
                                },
                                Expr::Atom(Atom::Number(_)) => {},
                                Expr::Atom(Atom::Function(_)) => {},
                                Expr::Atom(Atom::Native(_)) => {},
                                Expr::List(_) => {},
                            }
                        }
                    }
                    Err(EvalError::InvalidType)
                },
            }
        },
    }
}

impl Evaluator {
    /// Evaluates an expression: an atom resolves as an atom, a list as an
    /// application. The current frame is the same before and after, and
    /// the result is exactly what the spec interpreter says.
    pub fn eval_expr(&mut self, expr: Expr, fuel: u64) -> (r: Result<Expr, EvalError>)
        requires
            old(self).inv(),
            wf_expr(expr@, old(self)@.frames.len() as int),
        ensures
            final(self).inv(),
            old(self)@.frames.len() <= final(self)@.frames.len(),
            final(self)@.cur == old(self)@.cur,
            final(self)@ == s_eval_expr(old(self)@, expr@, fuel as nat).0,
            res_v(r) == s_eval_expr(old(self)@, expr@, fuel as nat).1,
            r matches Ok(v) ==> wf_expr(v@, final(self)@.frames.len() as int),
            preserves_scopes(old(self)@, final(self)@),
        decreases fuel, 4nat, 0nat,
    {
        proof {
            lemma_eval_expr_scopes(old(self)@, expr@, fuel as nat);
        }
        match expr {
            Expr::List(list) => self.eval_list(list, fuel),
            Expr::Atom(atom) => {
                proof {
                    assert(!(atom@ is List)) by {
                        match atom {
                            Atom::Number(_) => {},
                            Atom::Symbol(_) => {},
                            Atom::Function(_) => {},
                            Atom::Native(_) => {},
                        }
                    }
                }
                self.eval_atom(atom)
            },
        }
    }

    /// Evaluates a list: the empty list is itself; otherwise the head is
    /// evaluated and applied to the unevaluated operands. For a user
    /// function, the operand count must match the parameter count, a child
    /// frame of the function's captured frame is installed, arguments are
    /// bound sequentially inside it, the body runs there, and the caller's
    /// frame is restored on every exit path, success or failure.
    pub fn eval_list(&mut self, list: List, fuel: u64) -> (r: Result<Expr, EvalError>)
        requires
            old(self).inv(),
            wf_expr(ExprV::List(list@), old(self)@.frames.len() as int),
        ensures
            final(self).inv(),
            old(self)@.frames.len() <= final(self)@.frames.len(),
            final(self)@.cur == old(self)@.cur,
            final(self)@ == s_eval_list(old(self)@, list@, fuel as nat).0,
            res_v(r) == s_eval_list(old(self)@, list@, fuel as nat).1,
            r matches Ok(v) ==> wf_expr(v@, final(self)@.frames.len() as int),
        decreases fuel, 3nat, 0nat,
    {
        let ghost st0 = self@;
        let ghost items = list@;
        let node = match list {
            List::Cons(node) => node,
            List::Nil => {
                proof {
                    assert(items =~= Seq::<ExprV>::empty());
                }
                return Ok(Expr::List(List::Nil));
            },
        };
        if fuel == 0 {
            return Err(EvalError::DepthLimit);
        }
        let Node { head: head_expr, tail } = *node;
        let ghost ihead = head_expr@;
        let ghost itail = tail@;
        proof {
            assert(items =~= seq![ihead] + itail);
            assert(items[0] == ihead);
            assert(items.drop_first() =~= itail);
            assert(wf_expr(items[0], st0.frames.len() as int));
        }
        let head = match self.eval_expr(head_expr, fuel - 1) {
            Ok(h) => h,
            Err(e) => {
                return Err(e);
            },
        };
        let ghost st1 = self@;
        proof {
            lemma_wf_tail(items, st0.frames.len() as int);
            lemma_wf_expr_mono(
                ExprV::List(itail),
                st0.frames.len() as int,
                st1.frames.len() as int,
            );
        }
        let function = match head {
            Expr::Atom(Atom::Function(function)) => function,
            Expr::Atom(Atom::Native(native)) => {
                return self.eval_call_native(native, tail, fuel);
            },
            other => {
                proof {
                    assert(!(other@ is Function) && !(other@ is Native)) by {
                        match other {
                            Expr::Atom(Atom::Number(_)) => {},
                            Expr::Atom(Atom::Symbol(_)) => {},
                            Expr::List(_) => {},
                            Expr::Atom(Atom::Function(_)) => {
                                assert(false);
                            },
                            Expr::Atom(Atom::Native(_)) => {
                                assert(false);
                            },
                        }
                    }
                }
                return Err(EvalError::NotCallable);
            },
        };
        let ghost fv = function@;
        proof {
            assert(wf_expr(ExprV::Function(fv), st1.frames.len() as int));
        }
        if tail.len() != function.parameters.len() {
            return Err(EvalError::WrongArity);
        }
        let caller_frame = self.cur;
        let parent = function.frame;
        self.frames.push(Frame::with_parent(parent));
        self.cur = self.frames.len() - 1;
        let ghost st2 = self@;
        proof {
            assert(st2.frames =~= st1.frames.push(
                FrameV { bindings: Seq::empty(), parent: Some(parent as int) },
            ));
            assert(st2 =~= push_frame(st1, fv.frame));
            lemma_push_frame_wf(st1, fv.frame);
            lemma_wf_expr_mono(
                ExprV::List(itail),
                st1.frames.len() as int,
                st2.frames.len() as int,
            );
        }
        match self.bind_parameters(&function.parameters, 0, tail, fuel) {
            Ok(_) => {},
            Err(e) => {
                self.cur = caller_frame;
                proof {
                    assert(parameters_from(&function).skip(0) =~= fv.parameters);
                    assert(self@ =~= set_cur(
                        s_bind(st2, fv.parameters, itail, fuel as nat).0,
                        st1.cur,
                    ));
                }
                return Err(e);
            },
        }
        let ghost st3 = self@;
        proof {
            assert(parameters_from(&function).skip(0) =~= fv.parameters);
            assert(st3 == s_bind(st2, fv.parameters, itail, fuel as nat).0);
            lemma_wf_expr_mono(*fv.body, st1.frames.len() as int, st3.frames.len() as int);
        }
        let body = *function.body;
        let result = match self.eval_expr(body, fuel - 1) {
            Ok(v) => v,
            Err(e) => {
                self.cur = caller_frame;
                return Err(e);
            },
        };
        self.cur = caller_frame;
        proof {
            assert(self@ =~= set_cur(
                s_eval_expr(st3, *fv.body, (fuel - 1) as nat).0,
                st1.cur,
            ));
        }
        Ok(result)
    }

    /// Dispatches a built-in call.
    pub fn eval_call_native(&mut self, native: Native, tail: List, fuel: u64) -> (r: Result<
        Expr,
        EvalError,
    >)
        requires
            old(self).inv(),
            wf_expr(ExprV::List(tail@), old(self)@.frames.len() as int),
        ensures
            final(self).inv(),
            old(self)@.frames.len() <= final(self)@.frames.len(),
            final(self)@.cur == old(self)@.cur,
            final(self)@ == s_eval_native(old(self)@, native, tail@, fuel as nat).0,
            res_v(r) == s_eval_native(old(self)@, native, tail@, fuel as nat).1,
            r matches Ok(v) ==> wf_expr(v@, final(self)@.frames.len() as int),
        decreases fuel, 2nat, 0nat,
    {
        let ghost st0 = self@;
        let ghost items = tail@;
        match native {
            Native::Begin => self.eval_call_begin(tail, fuel),
            Native::Define => self.eval_call_define(tail, fuel),
            Native::Function => self.eval_call_function(tail),
            Native::Quote => {
                let r = self.eval_call_quote(tail);
                proof {
                    if items.len() == 1 {
                        assert(wf_expr(items[0], st0.frames.len() as int));
                    }
                }
                r
            },
            Native::Operator(operator) => self.eval_call_operator(operator, tail, fuel),
        }
    }

    /// `begin`: evaluates each operand in order, for its effect through
    /// `define`, and returns the value of the last.
    pub fn eval_call_begin(&mut self, tail: List, fuel: u64) -> (r: Result<Expr, EvalError>)
        requires
            old(self).inv(),
            wf_expr(ExprV::List(tail@), old(self)@.frames.len() as int),
        ensures
            final(self).inv(),
            old(self)@.frames.len() <= final(self)@.frames.len(),
            final(self)@.cur == old(self)@.cur,
            final(self)@ == s_begin(old(self)@, tail@, fuel as nat).0,
            res_v(r) == s_begin(old(self)@, tail@, fuel as nat).1,
            r matches Ok(v) ==> wf_expr(v@, final(self)@.frames.len() as int),
        decreases fuel, 0nat, tail@.len(),
    {
        let ghost st0 = self@;
        let ghost items = tail@;
        let node = match tail {
            List::Cons(node) => node,
            List::Nil => {
                return Err(EvalError::WrongArity);
            },
        };
        if fuel == 0 {
            return Err(EvalError::DepthLimit);
        }
        let Node { head, tail: rest } = *node;
        let ghost ihead = head@;
        let ghost irest = rest@;
        proof {
            assert(items =~= seq![ihead] + irest);
            assert(items[0] == ihead);
            assert(items.drop_first() =~= irest);
            assert(wf_expr(items[0], st0.frames.len() as int));
        }
        let value = match self.eval_expr(head, fuel - 1) {
            Ok(v) => v,
            Err(e) => {
                return Err(e);
            },
        };
        match rest {
            List::Nil => {
                proof {
                    assert(irest =~= Seq::<ExprV>::empty());
                    assert(items.len() == 1);
                }
                Ok(value)
            },
            rest2 => {
                proof {
                    assert(irest.len() >= 1);
                    assert(items.len() >= 2);
                    lemma_wf_tail(items, st0.frames.len() as int);
                    lemma_wf_expr_mono(
                        ExprV::List(irest),
                        st0.frames.len() as int,
                        self@.frames.len() as int,
                    );
                }
                self.eval_call_begin(rest2, fuel)
            },
        }
    }

    /// `define`: binds a symbol to the value of the second operand in the
    /// current frame and returns the value.
    pub fn eval_call_define(&mut self, tail: List, fuel: u64) -> (r: Result<Expr, EvalError>)
        requires
            old(self).inv(),
            wf_expr(ExprV::List(tail@), old(self)@.frames.len() as int),
        ensures
            final(self).inv(),
            old(self)@.frames.len() <= final(self)@.frames.len(),
            final(self)@.cur == old(self)@.cur,
            final(self)@ == s_define(old(self)@, tail@, fuel as nat).0,
            res_v(r) == s_define(old(self)@, tail@, fuel as nat).1,
            r matches Ok(v) ==> wf_expr(v@, final(self)@.frames.len() as int),
        decreases fuel, 0nat, 0nat,
    {
        let ghost st0 = self@;
        let ghost items = tail@;
        let (a, b) = match take_two(tail) {
            Ok(pair) => pair,
            Err(e) => {
                return Err(e);
            },
        };
        let symbol = match as_symbol(a) {
            Ok(s) => s,
            Err(e) => {
                return Err(e);
            },
        };
        let ghost name = symbol@;
        if fuel == 0 {
            return Err(EvalError::DepthLimit);
        }
        proof {
            assert(wf_expr(items[1], st0.frames.len() as int));
        }
        let value = match self.eval_expr(b, fuel - 1) {
            Ok(v) => v,
            Err(e) => {
                return Err(e);
            },
        };
        let ghost st1 = self@;
        let result = value.dup();
        let cur = self.cur;
        self.frames[cur].set(symbol, value);
        proof {
            assert(self@.frames =~= st1.frames.update(
                st1.cur,
                FrameV {
                    bindings: st1.frames[st1.cur].bindings.push((name, result@)),
                    parent: st1.frames[st1.cur].parent,
                },
            ));
            assert(self@ =~= bind_cur(st1, name, result@));
            lemma_bind_cur_wf(st1, name, result@);
        }
        Ok(result)
    }

    /// An operator call: any operand count other than two yields the
    /// number zero; with two operands both are evaluated, must be numbers,
    /// and the IEEE-754 double operation is applied to their bit patterns.
    pub fn eval_call_operator(&mut self, operator: Operator, tail: List, fuel: u64) -> (r: Result<
        Expr,
        EvalError,
    >)
        requires
            old(self).inv(),
            wf_expr(ExprV::List(tail@), old(self)@.frames.len() as int),
        ensures
            final(self).inv(),
            old(self)@.frames.len() <= final(self)@.frames.len(),
            final(self)@.cur == old(self)@.cur,
            final(self)@ == s_operator(old(self)@, operator, tail@, fuel as nat).0,
            res_v(r) == s_operator(old(self)@, operator, tail@, fuel as nat).1,
            r matches Ok(v) ==> wf_expr(v@, final(self)@.frames.len() as int),
        decreases fuel, 0nat, 0nat,
    {
        let ghost st0 = self@;
        let ghost items = tail@;
        let (a, b) = match take_two(tail) {
            Ok(pair) => pair,
            Err(_) => {
                return Ok(Expr::Atom(Atom::Number(0)));
            },
        };
        if fuel == 0 {
            return Err(EvalError::DepthLimit);
        }
        proof {
            assert(wf_expr(items[0], st0.frames.len() as int));
            assert(wf_expr(items[1], st0.frames.len() as int));
        }
        let left = match self.eval_expr(a, fuel - 1) {
            Ok(v) => v,
            Err(e) => {
                return Err(e);
            },
        };
        let ghost st1 = self@;
        proof {
            lemma_wf_expr_mono(items[1], st0.frames.len() as int, st1.frames.len() as int);
        }
        let right = match self.eval_expr(b, fuel - 1) {
            Ok(v) => v,
            Err(e) => {
                return Err(e);
            },
        };
        let left_bits = match as_number(left) {
            Ok(x) => x,
            Err(e) => {
                return Err(e);
            },
        };
        let right_bits = match as_number(right) {
            Ok(x) => x,
            Err(e) => {
                return Err(e);
            },
        };
        let bits = apply_operator(operator, left_bits, right_bits);
        Ok(Expr::Atom(Atom::Number(bits)))
    }

    /// Binds each parameter from position `i` on to its argument, one
    /// after the other: each argument is evaluated inside the frame being
    /// built, after the parameters before it are already bound.
    fn bind_parameters(&mut self, parameters: &Vec<String>, i: usize, args: List, fuel: u64) -> (r:
        Result<(), EvalError>)
        requires
            old(self).inv(),
            i <= parameters.len(),
            wf_expr(ExprV::List(args@), old(self)@.frames.len() as int),
        ensures
            final(self).inv(),
            old(self)@.frames.len() <= final(self)@.frames.len(),
            final(self)@.cur == old(self)@.cur,
            final(self)@ == s_bind(
                old(self)@,
                parameters.deep_view().skip(i as int),
                args@,
                fuel as nat,
            ).0,
            (match r {
                Ok(_) => s_bind(
                    old(self)@,
                    parameters.deep_view().skip(i as int),
                    args@,
                    fuel as nat,
                ).1 is None,
                Err(e) => s_bind(
                    old(self)@,
                    parameters.deep_view().skip(i as int),
                    args@,
                    fuel as nat,
                ).1 == Some(e@),
            }),
        decreases fuel, 1nat, args@.len(),
    {
        let ghost st0 = self@;
        let ghost ps = parameters.deep_view().skip(i as int);
        let ghost iargs = args@;
        if i == parameters.len() {
            proof {
                assert(ps.len() == 0);
            }
            return Ok(());
        }
        let node = match args {
            List::Cons(node) => node,
            List::Nil => {
                return Ok(());
            },
        };
        let Node { head: arg0, tail: rest } = *node;
        let ghost iarg0 = arg0@;
        let ghost irest = rest@;
        proof {
            assert(iargs =~= seq![iarg0] + irest);
            assert(iargs[0] == iarg0);
            assert(iargs.drop_first() =~= irest);
            assert(ps[0] == parameters@[i as int]@);
        }
        let name = parameters[i].clone();
        let pair = List::cons(Expr::Atom(Atom::Symbol(name)), List::cons(arg0, List::Nil));
        let ghost ipair = pair@;
        proof {
            assert(ipair =~= seq![ExprV::Symbol(ps[0]), iargs[0]]);
            assert(wf_expr(iargs[0], st0.frames.len() as int));
            assert forall|k: int| 0 <= k < ipair.len() implies wf_expr(
                #[trigger] ipair[k],
                st0.frames.len() as int,
            ) by {}
        }
        match self.eval_call_define(pair, fuel) {
            Ok(_) => {},
            Err(e) => {
                return Err(e);
            },
        }
        let ghost st1 = self@;
        proof {
            lemma_wf_tail(iargs, st0.frames.len() as int);
            lemma_wf_expr_mono(
                ExprV::List(irest),
                st0.frames.len() as int,
                st1.frames.len() as int,
            );
            assert(ps.drop_first() =~= parameters.deep_view().skip(i as int + 1));
        }
        self.bind_parameters(parameters, i + 1, rest, fuel)
    }
}

/// The parameter-name sequence of a closure, as the spec sees it.
pub open spec fn parameters_from(f: &Function) -> Seq<Seq<char>> {
    f.parameters.deep_view()
}

/// The symbol name of an expression, or `InvalidType` for anything else.
fn as_symbol(expr: Expr) -> (r: Result<String, EvalError>)
    ensures
        match expr@ {
            ExprV::Symbol(s) => r matches Ok(v) && v@ == s,
            _ => r matches Err(e) && e@ == ErrV::InvalidType,
        },
{
    match expr {
        Expr::Atom(Atom::Symbol(symbol)) => Ok(symbol),
        _ => Err(EvalError::InvalidType),
    }
}

/// The list of an expression, or `InvalidType` for anything else.
fn as_list(expr: Expr) -> (r: Result<List, EvalError>)
    ensures
        match expr@ {
            ExprV::List(items) => r matches Ok(l) && l@ == items,
            _ => r matches Err(e) && e@ == ErrV::InvalidType,
        },
{
    match expr {
        Expr::List(list) => Ok(list),
        _ => Err(EvalError::InvalidType),
    }
}

/// The number bit pattern of an expression, or `InvalidType` for anything
/// else.
fn as_number(expr: Expr) -> (r: Result<u64, EvalError>)
    ensures
        match expr@ {
            ExprV::Number(bits) => r matches Ok(b) && b == bits,
            _ => r matches Err(e) && e@ == ErrV::InvalidType,
        },
{
    match expr {
        Expr::Atom(Atom::Number(number)) => Ok(number),
        _ => Err(EvalError::InvalidType),
    }
}

/// The default nesting budget of a top-level evaluation; it stands in for
/// the bound the host call stack would impose.
pub const DEFAULT_FUEL: u64 = 1000;

/// Evaluates one expression in a fresh evaluator with one empty global
/// frame.
pub fn eval(expr: Expr) -> (r: Result<Expr, EvalError>)
    requires
        wf_expr(expr@, 1),
    ensures
        res_v(r) == s_eval_expr(initial_state(), expr@, DEFAULT_FUEL as nat).1,
{
    let mut evaluator = Evaluator::new();
    evaluator.eval_expr(expr, DEFAULT_FUEL)
}

/// Law: evaluating `(quote x)` yields `x` itself, with no sub-evaluation
/// and the evaluator state unchanged — for any operand `x`, nested lists
/// included.
pub proof fn lemma_quote_identity(st: StateV, x: ExprV, fuel: nat)
    requires
        fuel >= 1,
    ensures
        s_eval_expr(st, ExprV::List(seq![ExprV::Symbol("quote"@), x]), fuel) == (
            st,
            Ok::<ExprV, ErrV>(x),
        ),
{
    let items = seq![ExprV::Symbol("quote"@), x];
    reveal_strlit("begin");
    reveal_strlit("define");
    reveal_strlit("function");
    reveal_strlit("quote");
    assert("quote"@.len() == 5);
    assert("quote"@[0] == 'q');
    assert("begin"@[0] == 'b');
    assert("define"@.len() == 6);
    assert("function"@.len() == 8);
    assert("quote"@ != "begin"@);
    assert("quote"@ != "define"@);
    assert("quote"@ != "function"@);
    assert(reserved("quote"@) == Some(Native::Quote));
    assert(items[0] == ExprV::Symbol("quote"@));
    assert(s_eval_expr(st, items[0], (fuel - 1) as nat) == (
        st,
        Ok::<ExprV, ErrV>(ExprV::Native(Native::Quote)),
    ));
    assert(items.drop_first() =~= seq![x]);
    assert(s_quote(items.drop_first()) == Ok::<ExprV, ErrV>(x));
    assert(s_eval_native(st, Native::Quote, items.drop_first(), fuel) == (
        st,
        Ok::<ExprV, ErrV>(x),
    ));
    assert(s_eval_list(st, items, fuel) == (st, Ok::<ExprV, ErrV>(x)));
    assert(s_eval_expr(st, ExprV::List(items), fuel) == s_eval_list(st, items, fuel));
}

/// Law: a reserved name evaluates to its built-in whatever the frames
/// hold, so no `define` can shadow it.
pub proof fn lemma_reserved_never_shadowed(st: StateV, name: Seq<char>, n: Native, fuel: nat)
    requires
        reserved(name) == Some(n),
    ensures
        s_eval_expr(st, ExprV::Symbol(name), fuel) == (st, Ok::<ExprV, ErrV>(ExprV::Native(n))),
{
}

/// Law: a symbol that is neither reserved nor bound anywhere along the
/// current frame chain evaluates to `UndefinedSymbol` carrying that name,
/// and changes nothing.
pub proof fn lemma_undefined_symbol(st: StateV, name: Seq<char>, fuel: nat)
    requires
        reserved(name) is None,
        lookup_chain(st.frames, st.cur, name) is None,
    ensures
        s_eval_expr(st, ExprV::Symbol(name), fuel) == (
            st,
            Err::<ExprV, ErrV>(ErrV::UndefinedSymbol(name)),
        ),
{
}

/// Law: applying a function to an operand count other than its parameter
/// count fails with `WrongArity`, and changes nothing.
pub proof fn lemma_arity_mismatch(st: StateV, f: FunctionV, args: Seq<ExprV>, fuel: nat)
    requires
        args.len() != f.parameters.len(),
    ensures
        s_apply(st, f, args, fuel) == (st, Err::<ExprV, ErrV>(ErrV::WrongArity)),
{
}

/// Law: a function application leaves the current-frame register exactly
/// where it found it, on the success path and on every failure path alike,
/// so a failing body cannot corrupt scope resolution afterwards.
pub proof fn lemma_apply_restores_frame(st: StateV, f: FunctionV, args: Seq<ExprV>, fuel: nat)
    ensures
        s_apply(st, f, args, fuel).0.cur == st.cur,
{
}

/// Law: an operator call with an operand count other than two yields the
/// number zero (positive-zero bit pattern), not an error, and changes
/// nothing.
pub proof fn lemma_operator_arity_zero(st: StateV, op: Operator, items: Seq<ExprV>, fuel: nat)
    requires
        items.len() != 2,
    ensures
        s_operator(st, op, items, fuel) == (st, Ok::<ExprV, ErrV>(ExprV::Number(0))),
{
}

/// How one evaluation step may relate two states: the current-frame
/// register ends where it began, frames are only added, no existing
/// frame's parent changes, no existing frame other than the current one
/// changes at all, and the current frame's bindings are only appended to —
/// an ancestor's binding can be shadowed but never changed, and no binding
/// is ever deleted.
pub open spec fn preserves_scopes(st: StateV, st1: StateV) -> bool {
    &&& st1.cur == st.cur
    &&& st.frames.len() <= st1.frames.len()
    &&& forall|i: int|
        0 <= i < st.frames.len() ==> (#[trigger] st1.frames[i]).parent == st.frames[i].parent
    &&& forall|i: int|
        0 <= i < st.frames.len() && i != st.cur ==> #[trigger] st1.frames[i] == st.frames[i]
    &&& st.frames[st.cur].bindings.is_prefix_of(st1.frames[st.cur].bindings)
}

proof fn lemma_preserves_refl(st: StateV)
    ensures
        preserves_scopes(st, st),
{
    assert(st.frames[st.cur].bindings.is_prefix_of(st.frames[st.cur].bindings)) by {
        assert(st.frames[st.cur].bindings =~= st.frames[st.cur].bindings.subrange(
            0,
            st.frames[st.cur].bindings.len() as int,
        ));
    }
}

proof fn lemma_preserves_trans(st: StateV, st1: StateV, st2: StateV)
    requires
        preserves_scopes(st, st1),
        preserves_scopes(st1, st2),
    ensures
        preserves_scopes(st, st2),
{
    let a = st.frames[st.cur].bindings;
    let b = st1.frames[st1.cur].bindings;
    let c = st2.frames[st2.cur].bindings;
    assert(a.is_prefix_of(c)) by {
        assert(a =~= b.subrange(0, a.len() as int));
        assert(b =~= c.subrange(0, b.len() as int));
        assert(a =~= c.subrange(0, a.len() as int));
    }
}

/// Law (scope isolation): evaluating any expression leaves every
/// pre-existing frame other than the current one exactly as it was — a
/// call's child frame can shadow but never change an ancestor's binding —
/// only appends to the current frame's bindings, and restores the
/// current-frame register on every path, failing ones included.
pub proof fn lemma_eval_expr_scopes(st: StateV, e: ExprV, fuel: nat)
    requires
        0 <= st.cur < st.frames.len(),
    ensures
        preserves_scopes(st, s_eval_expr(st, e, fuel).0),
    decreases fuel, 4nat, 0nat,
{
    match e {
        ExprV::List(items) => {
            lemma_eval_list_scopes(st, items, fuel);
        },
        _ => {
            lemma_preserves_refl(st);
        },
    }
}

proof fn lemma_eval_list_scopes(st: StateV, items: Seq<ExprV>, fuel: nat)
    requires
        0 <= st.cur < st.frames.len(),
    ensures
        preserves_scopes(st, s_eval_list(st, items, fuel).0),
    decreases fuel, 3nat, 0nat,
{
    lemma_preserves_refl(st);
    if items.len() != 0 && fuel != 0 {
        lemma_eval_expr_scopes(st, items[0], (fuel - 1) as nat);
        let (st1, hr) = s_eval_expr(st, items[0], (fuel - 1) as nat);
        match hr {
            Err(_) => {},
            Ok(ExprV::Function(f)) => {
                lemma_apply_scopes(st1, f, items.drop_first(), fuel);
                lemma_preserves_trans(st, st1, s_apply(st1, f, items.drop_first(), fuel).0);
            },
            Ok(ExprV::Native(n)) => {
                lemma_native_scopes(st1, n, items.drop_first(), fuel);
                lemma_preserves_trans(st, st1, s_eval_native(st1, n, items.drop_first(), fuel).0);
            },
            Ok(_) => {},
        }
    }
}

proof fn lemma_apply_scopes(st: StateV, f: FunctionV, args: Seq<ExprV>, fuel: nat)
    requires
        0 <= st.cur < st.frames.len(),
    ensures
        preserves_scopes(st, s_apply(st, f, args, fuel).0),
    decreases fuel, 2nat, 0nat,
{
    lemma_preserves_refl(st);
    if args.len() == f.parameters.len() {
        let caller = st.cur;
        let st1 = push_frame(st, f.frame);
        lemma_bind_scopes(st1, f.parameters, args, fuel);
        let (st2, be) = s_bind(st1, f.parameters, args, fuel);
        assert(st1.cur == st.frames.len());
        let end = if be is Some || fuel == 0 {
            st2
        } else {
            lemma_eval_expr_scopes(st2, *f.body, (fuel - 1) as nat);
            s_eval_expr(st2, *f.body, (fuel - 1) as nat).0
        };
        let out = set_cur(end, caller);
        assert forall|i: int| 0 <= i < st.frames.len() implies #[trigger] out.frames[i]
            == st.frames[i] by {
            assert(st1.frames[i] == st.frames[i]);
            assert(st2.frames[i] == st1.frames[i]);
            assert(end.frames[i] == st2.frames[i]);
        }
        assert(preserves_scopes(st, out)) by {
            assert(out.frames[st.cur] == st.frames[st.cur]);
            lemma_preserves_refl(st);
            assert(st.frames[st.cur].bindings.is_prefix_of(out.frames[st.cur].bindings));
        }
    }
}

proof fn lemma_bind_scopes(st: StateV, parameters: Seq<Seq<char>>, args: Seq<ExprV>, fuel: nat)
    requires
        0 <= st.cur < st.frames.len(),
    ensures
        preserves_scopes(st, s_bind(st, parameters, args, fuel).0),
    decreases fuel, 1nat, args.len(),
{
    lemma_preserves_refl(st);
    if args.len() != 0 && parameters.len() != 0 {
        let pair = seq![ExprV::Symbol(parameters[0]), args[0]];
        lemma_define_scopes(st, pair, fuel);
        let (st1, r) = s_define(st, pair, fuel);
        match r {
            Err(_) => {},
            Ok(_) => {
                lemma_bind_scopes(st1, parameters.drop_first(), args.drop_first(), fuel);
                lemma_preserves_trans(
                    st,
                    st1,
                    s_bind(st1, parameters.drop_first(), args.drop_first(), fuel).0,
                );
            },
        }
    }
}

proof fn lemma_native_scopes(st: StateV, n: Native, items: Seq<ExprV>, fuel: nat)
    requires
        0 <= st.cur < st.frames.len(),
    ensures
        preserves_scopes(st, s_eval_native(st, n, items, fuel).0),
    decreases fuel, 2nat, 0nat,
{
    lemma_preserves_refl(st);
    match n {
        Native::Begin => lemma_begin_scopes(st, items, fuel),
        Native::Define => lemma_define_scopes(st, items, fuel),
        Native::Function => {},
        Native::Quote => {},
        Native::Operator(op) => lemma_operator_scopes(st, op, items, fuel),
    }
}

proof fn lemma_begin_scopes(st: StateV, items: Seq<ExprV>, fuel: nat)
    requires
        0 <= st.cur < st.frames.len(),
    ensures
        preserves_scopes(st, s_begin(st, items, fuel).0),
    decreases fuel, 0nat, items.len(),
{
    lemma_preserves_refl(st);
    if items.len() != 0 && fuel != 0 {
        lemma_eval_expr_scopes(st, items[0], (fuel - 1) as nat);
        let (st1, r) = s_eval_expr(st, items[0], (fuel - 1) as nat);
        if r is Ok && items.len() != 1 {
            lemma_begin_scopes(st1, items.drop_first(), fuel);
            lemma_preserves_trans(st, st1, s_begin(st1, items.drop_first(), fuel).0);
        }
    }
}

proof fn lemma_define_scopes(st: StateV, items: Seq<ExprV>, fuel: nat)
    requires
        0 <= st.cur < st.frames.len(),
    ensures
        preserves_scopes(st, s_define(st, items, fuel).0),
    decreases fuel, 0nat, 0nat,
{
    lemma_preserves_refl(st);
    if items.len() == 2 && items[0] is Symbol && fuel != 0 {
        lemma_eval_expr_scopes(st, items[1], (fuel - 1) as nat);
        let (st1, r) = s_eval_expr(st, items[1], (fuel - 1) as nat);
        match r {
            Err(_) => {},
            Ok(v) => {
                let name = items[0]->Symbol_0;
                let st2 = bind_cur(st1, name, v);
                assert(preserves_scopes(st1, st2)) by {
                    let b = st1.frames[st1.cur].bindings;
                    assert(b.is_prefix_of(st2.frames[st1.cur].bindings)) by {
                        assert(b =~= b.push((name, v)).subrange(0, b.len() as int));
                    }
                }
                lemma_preserves_trans(st, st1, st2);
            },
        }
    }
}

proof fn lemma_operator_scopes(st: StateV, op: Operator, items: Seq<ExprV>, fuel: nat)
    requires
        0 <= st.cur < st.frames.len(),
    ensures
        preserves_scopes(st, s_operator(st, op, items, fuel).0),
    decreases fuel, 0nat, 0nat,
{
    lemma_preserves_refl(st);
    if items.len() == 2 && fuel != 0 {
        lemma_eval_expr_scopes(st, items[0], (fuel - 1) as nat);
        let (st1, lr) = s_eval_expr(st, items[0], (fuel - 1) as nat);
        if lr is Ok {
            lemma_eval_expr_scopes(st1, items[1], (fuel - 1) as nat);
            lemma_preserves_trans(st, st1, s_eval_expr(st1, items[1], (fuel - 1) as nat).0);
        }
    }
}

} // verus!
