//! The single recursive expression type shared by parsed code and evaluation
//! results (code is data), together with its mathematical model.

use vstd::prelude::*;

use crate::env::{env_view, Env};
use crate::error::LispError;

verus! {

/// The closed set of built-in procedures of the base environment.
#[derive(Clone, Copy, Debug, PartialEq, Eq)]
pub enum Builtin {
    /// `lambda`: builds a user-defined procedure value.
    Lambda,
    /// `define`: binds a name in the current scope.
    Define,
    Add,
    Sub,
    Mul,
    Div,
}

/// An expression: both the shape of parsed code and the shape of values.
///
/// `Number` holds the bit pattern of an IEEE-754 binary64 value (floating
/// point itself stays outside the verified core; see [`crate::num`]).
/// A `Lambda` carries a value snapshot of its defining environment chain:
/// later mutation of the defining scope is invisible to the closure.
#[derive(Debug, PartialEq)]
pub enum LispExp {
    Number(u64),
    Bool(bool),
    Symbol(String),
    List(Vec<LispExp>),
    Lambda { params: Box<LispExp>, body: Box<LispExp>, env: Env },
    Procedure(Builtin),
}

/// The mathematical model of an expression. Environment snapshots are modeled
/// as chains of scopes, innermost first, each a map from name to value model.
#[verifier::ext_equal]
pub enum ExpModel {
    Number(u64),
    Bool(bool),
    Symbol(Seq<char>),
    List(Seq<ExpModel>),
    Lambda { params: Box<ExpModel>, body: Box<ExpModel>, env: Seq<Map<Seq<char>, ExpModel>> },
    Procedure(Builtin),
}

/// The model of an expression: deep, with strings as character sequences.
pub open spec fn exp_view(e: LispExp) -> ExpModel
    decreases e,
{
    match e {
        LispExp::Number(bits) => ExpModel::Number(bits),
        LispExp::Bool(b) => ExpModel::Bool(b),
        LispExp::Symbol(s) => ExpModel::Symbol(s@),
        LispExp::List(items) => ExpModel::List(exps_view(items@)),
        LispExp::Lambda { params, body, env } => ExpModel::Lambda {
            params: Box::new(exp_view(*params)),
            body: Box::new(exp_view(*body)),
            env: env_view(env),
        },
        LispExp::Procedure(b) => ExpModel::Procedure(b),
    }
}

/// The models of a sequence of expressions, element by element.
pub open spec fn exps_view(items: Seq<LispExp>) -> Seq<ExpModel>
    decreases items,
{
    if items.len() == 0 {
        Seq::empty()
    } else {
        exps_view(items.drop_last()).push(exp_view(items.last()))
    }
}

impl View for LispExp {
    type V = ExpModel;

    open spec fn view(&self) -> ExpModel {
        exp_view(*self)
    }
}

/// `exps_view` is pointwise `exp_view`.
pub proof fn lemma_exps_view(items: Seq<LispExp>)
    ensures
        exps_view(items).len() == items.len(),
        forall|i: int| 0 <= i < items.len() ==> exps_view(items)[i] == exp_view(#[trigger] items[i]),
    decreases items,
{
    if items.len() > 0 {
        lemma_exps_view(items.drop_last());
        assert forall|i: int| 0 <= i < items.len() implies exps_view(items)[i] == exp_view(
            #[trigger] items[i],
        ) by {
            if i < items.len() - 1 {
                assert(items.drop_last()[i] == items[i]);
                assert(exps_view(items)[i] == exps_view(items.drop_last())[i]);
            } else {
                assert(exps_view(items)[i] == exp_view(items.last()));
            }
        }
    }
}

/// `exps_view` distributes over `push`.
pub proof fn lemma_exps_view_push(s: Seq<LispExp>, e: LispExp)
    ensures
        exps_view(s.push(e)) == exps_view(s).push(exp_view(e)),
{
    assert(s.push(e).drop_last() =~= s);
    assert(s.push(e).last() == e);
}

/// `exps_view` of a one-element sequence.
pub proof fn lemma_exps_view_single(s: Seq<LispExp>)
    requires
        s.len() == 1,
    ensures
        exps_view(s) == seq![exp_view(s[0])],
{
    reveal_with_fuel(exps_view, 3);
    assert(s.drop_last() =~= Seq::<LispExp>::empty());
    assert(s.last() == s[0]);
    assert(exps_view(s) =~= seq![exp_view(s[0])]);
}

impl LispExp {
    /// An exact structural copy; evaluation never mutates an expression in
    /// place, it clones and builds new ones.
    #[verifier::loop_isolation(false)]
    pub fn duplicate(&self) -> (r: LispExp)
        ensures
            r@ == self@,
        decreases *self,
    {
        match self {
            LispExp::Number(bits) => LispExp::Number(*bits),
            LispExp::Bool(b) => LispExp::Bool(*b),
            LispExp::Symbol(s) => LispExp::Symbol(s.clone()),
            LispExp::List(items) => {
                let mut out: Vec<LispExp> = Vec::new();
                let mut i: usize = 0;
                while i < items.len()
                    invariant
                        i <= items.len(),
                        exps_view(out@) == exps_view(items@.take(i as int)),
                    decreases items.len() - i,
                {
                    proof {
                        assert(decreases_to!(*self => (*self)->List_0));
                        assert(decreases_to!((*self)->List_0 => (*self)->List_0@));
                        assert(decreases_to!((*self)->List_0@ => (*self)->List_0@[i as int]));
                        assert(items@[i as int] == (*self)->List_0@[i as int]);
                        assert(decreases_to!(*self => items@[i as int]));
                    }
                    let ghost prev = out@;
                    out.push(items[i].duplicate());
                    proof {
                        assert(out@.drop_last() =~= prev);
                        assert(exps_view(out@) == exps_view(prev).push(exp_view(items@[i as int])));
                        assert(items@.take(i as int + 1).drop_last() =~= items@.take(i as int));
                        assert(items@.take(i as int + 1).last() == items@[i as int]);
                    }
                    i = i + 1;
                }
                proof {
                    assert(items@.take(items@.len() as int) =~= items@);
                }
                LispExp::List(out)
            },
            LispExp::Lambda { params, body, env } => LispExp::Lambda {
                params: Box::new(params.duplicate()),
                body: Box::new(body.duplicate()),
                env: env.duplicate(),
            },
            LispExp::Procedure(b) => LispExp::Procedure(*b),
        }
    }

    /// Wraps an atom in a one-element list; leaves compound values alone.
    pub fn as_list(self) -> (r: Self)
        ensures
            r@ == (match self@ {
                ExpModel::Bool(b) => ExpModel::List(seq![ExpModel::Bool(b)]),
                ExpModel::Number(n) => ExpModel::List(seq![ExpModel::Number(n)]),
                ExpModel::Symbol(s) => ExpModel::List(seq![ExpModel::Symbol(s)]),
                _ => self@,
            }),
    {
        match self {
            LispExp::Bool(b) => {
                let items = vec![LispExp::Bool(b)];
                proof {
                    lemma_exps_view_single(items@);
                }
                LispExp::List(items)
            },
            LispExp::Number(num) => {
                let items = vec![LispExp::Number(num)];
                proof {
                    lemma_exps_view_single(items@);
                }
                LispExp::List(items)
            },
            LispExp::Symbol(sym) => {
                let items = vec![LispExp::Symbol(sym)];
                proof {
                    lemma_exps_view_single(items@);
                }
                LispExp::List(items)
            },
            _ => self,
        }
    }

    /// The symbol's name, or an `Eval` error for any other variant.
    pub fn expect_symbol(&self) -> (r: Result<String, LispError>)
        ensures
            match r {
                Ok(s) => self@ is Symbol && self@->Symbol_0 == s@,
                Err(e) => !(self@ is Symbol) && e is Eval,
            },
    {
        match self {
            LispExp::Symbol(sym) => Ok(sym.clone()),
            _ => Err(LispError::Eval(String::from_str("expect a symbol but find another variant"))),
        }
    }

    /// The number's bit pattern, or an `Eval` error for any other variant.
    pub fn expect_number(&self) -> (r: Result<u64, LispError>)
        ensures
            match r {
                Ok(bits) => self@ == ExpModel::Number(bits),
                Err(e) => !(self@ is Number) && e is Eval,
            },
    {
        match self {
            LispExp::Number(num) => Ok(*num),
            _ => Err(LispError::Eval(String::from_str("expect a number but find another variant"))),
        }
    }

    /// The list's elements, or an `Eval` error for any other variant.
    pub fn expect_list(&self) -> (r: Result<&Vec<LispExp>, LispError>)
        ensures
            match r {
                Ok(items) => self@ == ExpModel::List(exps_view(items@)),
                Err(e) => !(self@ is List) && e is Eval,
            },
    {
        match self {
            LispExp::List(list) => Ok(list),
            _ => Err(LispError::Eval(String::from_str("expect a list but find another variant"))),
        }
    }
}

} // verus!
