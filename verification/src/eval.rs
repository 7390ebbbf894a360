//! The evaluator: eval reduces an expression to a value within an
//! environment; apply dispatches procedure application.
//!
//! Builtin procedures receive their operand expressions unevaluated and
//! evaluate what they need themselves; a lambda application binds operands
//! to parameters without evaluating them, in a fresh scope over the lambda's
//! captured snapshot. Verus demands a termination measure for recursive
//! executable code, so evaluation carries an explicit depth budget (`fuel`);
//! exhausting it reports an `Eval` error rather than exhausting the native
//! call stack.

use vstd::prelude::*;

use crate::env::{env_lookup, Env};
use crate::error::LispError;
use crate::exp::{
    exp_view, exps_view, lemma_exps_view, lemma_exps_view_push, Builtin, ExpModel, LispExp,
};
use crate::lexer::{spec_tokenize, tokenize};
use crate::num::{add_bits, div_bits, mul_bits, num_add, num_div, num_mul, num_sub, sub_bits};
use crate::parser::{parse, spec_parse};

verus! {

/// The chain of scope mappings that models an environment.
pub type EnvModel = Seq<Map<Seq<char>, ExpModel>>;

/// What one evaluation yields: a value, a reported `Eval` error, or the
/// exhaustion of the depth budget.
#[verifier::ext_equal]
pub enum EvalOut {
    Value(ExpModel),
    Fail,
    Spent,
}

/// An evaluation outcome together with the environment it leaves behind;
/// mutations made before a failure stay applied.
#[verifier::ext_equal]
pub struct EvalState {
    pub out: EvalOut,
    pub env: EnvModel,
}

/// The bits of the arithmetic builtin's IEEE-754 binary64 result on two
/// operand bit patterns.
pub open spec fn arith_bits(b: Builtin, x: u64, y: u64) -> u64 {
    match b {
        Builtin::Add => add_bits(x, y),
        Builtin::Sub => sub_bits(x, y),
        Builtin::Mul => mul_bits(x, y),
        Builtin::Div => div_bits(x, y),
        Builtin::Lambda => 0,
        Builtin::Define => 0,
    }
}

/// A declared parameter list fits the supplied operands: every parameter is
/// a symbol and no parameter is left without an operand (extra operands are
/// silently ignored).
pub open spec fn params_ok(ps: Seq<ExpModel>, args: Seq<ExpModel>) -> bool {
    &&& forall|i: int| 0 <= i < ps.len() ==> (#[trigger] ps[i]) is Symbol
    &&& ps.len() <= args.len()
}

/// The scope that binds each parameter name, positionally, to the
/// corresponding operand expression — unevaluated; a repeated name takes
/// the operand of its last occurrence.
pub open spec fn bind_frame(ps: Seq<ExpModel>, args: Seq<ExpModel>) -> Map<Seq<char>, ExpModel>
    decreases ps,
{
    if ps.len() == 0 {
        Map::empty()
    } else {
        bind_frame(ps.drop_last(), args).insert(ps.last()->Symbol_0, args[ps.len() - 1])
    }
}

/// What `define` does: the list form builds a lambda from the name, the
/// remaining parameters and the body; the symbol form binds the second
/// operand's literal, unevaluated form. Both bind in the current scope and
/// return the empty list.
pub open spec fn spec_define(args: Seq<ExpModel>, env: EnvModel) -> EvalState {
    match args[0] {
        ExpModel::List(fdef) => {
            if fdef.len() == 0 {
                EvalState { out: EvalOut::Fail, env }
            } else {
                match fdef[0] {
                    ExpModel::Symbol(name) => {
                        let lam = ExpModel::Lambda {
                            params: Box::new(ExpModel::List(fdef.drop_first())),
                            body: Box::new(args[1]),
                            env: env,
                        };
                        EvalState {
                            out: EvalOut::Value(ExpModel::List(Seq::empty())),
                            env: env.update(0, env[0].insert(name, lam)),
                        }
                    },
                    _ => EvalState { out: EvalOut::Fail, env },
                }
            }
        },
        ExpModel::Symbol(name) => EvalState {
            out: EvalOut::Value(ExpModel::List(Seq::empty())),
            env: env.update(0, env[0].insert(name, args[1])),
        },
        _ => EvalState { out: EvalOut::Fail, env },
    }
}

/// What an arithmetic builtin does: evaluate the first operand, then the
/// second, in the caller's environment (each may mutate it), require both
/// to be numbers, and produce the operation's result.
pub open spec fn spec_arith(
    fuel: nat,
    b: Builtin,
    e1: ExpModel,
    e2: ExpModel,
    env: EnvModel,
) -> EvalState
    decreases fuel, 0int,
{
    if fuel == 0 {
        EvalState { out: EvalOut::Spent, env }
    } else {
        let r1 = spec_eval((fuel - 1) as nat, e1, env);
        match r1.out {
            EvalOut::Value(v1) => match v1 {
                ExpModel::Number(x) => {
                    let r2 = spec_eval((fuel - 1) as nat, e2, r1.env);
                    match r2.out {
                        EvalOut::Value(v2) => match v2 {
                            ExpModel::Number(y) => EvalState {
                                out: EvalOut::Value(ExpModel::Number(arith_bits(b, x, y))),
                                env: r2.env,
                            },
                            _ => EvalState { out: EvalOut::Fail, env: r2.env },
                        },
                        _ => r2,
                    }
                },
                _ => EvalState { out: EvalOut::Fail, env: r1.env },
            },
            _ => r1,
        }
    }
}

/// What applying an operator value to unevaluated operands does.
pub open spec fn spec_apply(
    fuel: nat,
    op: ExpModel,
    args: Seq<ExpModel>,
    env: EnvModel,
) -> EvalState
    decreases fuel, 1int,
{
    if fuel == 0 {
        EvalState { out: EvalOut::Spent, env }
    } else {
        match op {
            ExpModel::Procedure(b) => {
                if args.len() < 2 {
                    EvalState { out: EvalOut::Fail, env }
                } else {
                    match b {
                        Builtin::Lambda => EvalState {
                            out: EvalOut::Value(
                                ExpModel::Lambda {
                                    params: Box::new(args[0]),
                                    body: Box::new(args[1]),
                                    env: seq![Map::<Seq<char>, ExpModel>::empty()] + env,
                                },
                            ),
                            env,
                        },
                        Builtin::Define => spec_define(args, env),
                        _ => spec_arith(fuel, b, args[0], args[1], env),
                    }
                }
            },
            ExpModel::Lambda { params, body, env: cenv } => {
                match *params {
                    ExpModel::List(ps) => {
                        if params_ok(ps, args) {
                            let inner = seq![bind_frame(ps, args)] + cenv;
                            let r = spec_eval((fuel - 1) as nat, *body, inner);
                            EvalState { out: r.out, env }
                        } else {
                            EvalState { out: EvalOut::Fail, env }
                        }
                    },
                    _ => EvalState { out: EvalOut::Fail, env },
                }
            },
            _ => EvalState { out: EvalOut::Fail, env },
        }
    }
}

/// What evaluating one expression does: numbers, booleans, procedure values
/// and lambdas are themselves; a symbol resolves in the environment; a
/// non-empty list evaluates its head and applies it to the unevaluated
/// rest. The empty list has no meaning as a form and is reported as an
/// `Eval` error.
pub open spec fn spec_eval(fuel: nat, e: ExpModel, env: EnvModel) -> EvalState
    decreases fuel, 2int,
{
    if fuel == 0 {
        EvalState { out: EvalOut::Spent, env }
    } else {
        match e {
            ExpModel::Symbol(name) => match env_lookup(env, name) {
                Option::Some(v) => EvalState { out: EvalOut::Value(v), env },
                Option::None => EvalState { out: EvalOut::Fail, env },
            },
            ExpModel::List(items) => {
                if items.len() == 0 {
                    EvalState { out: EvalOut::Fail, env }
                } else {
                    let head = spec_eval((fuel - 1) as nat, items[0], env);
                    match head.out {
                        EvalOut::Value(op) => spec_apply(fuel, op, items.drop_first(), head.env),
                        _ => head,
                    }
                }
            },
            _ => EvalState { out: EvalOut::Value(e), env },
        }
    }
}

/// What a batch of top-level forms does: each is evaluated in order, each
/// mutation kept; the last form's value is the result, and an empty batch
/// is an error.
pub open spec fn spec_eval_batch(fuel: nat, es: Seq<ExpModel>, env: EnvModel) -> EvalState
    decreases es.len(),
{
    if es.len() == 0 {
        EvalState { out: EvalOut::Fail, env }
    } else {
        let first = spec_eval(fuel, es[0], env);
        if es.len() == 1 {
            first
        } else {
            match first.out {
                EvalOut::Value(_) => spec_eval_batch(fuel, es.drop_first(), first.env),
                _ => first,
            }
        }
    }
}

/// The evaluation depth budget that `eval_str` grants each top-level form.
pub const DEFAULT_FUEL: u64 = 4096;

/// Evaluates one expression in the environment, mirroring `spec_eval`
/// exactly: the value on `Value`, an `Eval` error on `Fail` and on `Spent`,
/// and in every case the environment that the model leaves behind.
#[verifier::loop_isolation(false)]
pub fn eval(exp: LispExp, env: &mut Env, fuel: u64) -> (r: Result<LispExp, LispError>)
    ensures
        ({
            let s = spec_eval(fuel as nat, exp@, old(env)@);
            &&& final(env)@ == s.env
            &&& (match s.out {
                EvalOut::Value(v) => r matches Ok(x) && x@ == v,
                EvalOut::Fail => r matches Err(e) && e is Eval,
                EvalOut::Spent => r matches Err(e) && e is Eval,
            })
        }),
    decreases fuel, 2int,
{
    if fuel == 0 {
        return Err(LispError::Eval(String::from_str("evaluation depth budget exhausted")));
    }
    match exp {
        LispExp::Number(bits) => Ok(LispExp::Number(bits)),
        LispExp::Bool(b) => Ok(LispExp::Bool(b)),
        LispExp::Procedure(b) => Ok(LispExp::Procedure(b)),
        LispExp::Lambda { params, body, env: cenv } => Ok(
            LispExp::Lambda { params, body, env: cenv },
        ),
        LispExp::Symbol(sym) => match env.lookup(sym.as_str()) {
            Some(v) => Ok(v),
            None => Err(
                LispError::Eval(String::from_str("undefined variable: ").concat(sym.as_str())),
            ),
        },
        LispExp::List(items) => {
            proof {
                lemma_exps_view(items@);
            }
            if items.len() == 0 {
                return Err(LispError::Eval(String::from_str("cannot evaluate an empty list")));
            }
            let head = items[0].duplicate();
            let op = match eval(head, env, fuel - 1) {
                Ok(v) => v,
                Err(e) => return Err(e),
            };
            let mut args: Vec<LispExp> = Vec::new();
            let mut i: usize = 1;
            while i < items.len()
                invariant
                    1 <= i <= items.len(),
                    exps_view(args@) == exps_view(items@).subrange(1, i as int),
                decreases items.len() - i,
            {
                let ghost before = args@;
                let d = items[i].duplicate();
                args.push(d);
                proof {
                    lemma_exps_view_push(before, d);
                    assert(exps_view(args@) =~= exps_view(items@).subrange(1, i as int + 1));
                }
                i = i + 1;
            }
            proof {
                assert(exps_view(items@).subrange(1, items@.len() as int) =~= exps_view(
                    items@,
                ).drop_first());
            }
            apply(op, args, env, fuel)
        },
    }
}

/// Applies an operator value to unevaluated operand expressions, mirroring
/// `spec_apply` exactly. A builtin works in the caller's environment; a
/// lambda binds its parameters in a fresh scope over its captured snapshot
/// and leaves the caller's environment untouched.
#[verifier::loop_isolation(false)]
pub fn apply(procedure: LispExp, params: Vec<LispExp>, env: &mut Env, fuel: u64) -> (r: Result<
    LispExp,
    LispError,
>)
    ensures
        ({
            let s = spec_apply(fuel as nat, procedure@, exps_view(params@), old(env)@);
            &&& final(env)@ == s.env
            &&& (match s.out {
                EvalOut::Value(v) => r matches Ok(x) && x@ == v,
                EvalOut::Fail => r matches Err(e) && e is Eval,
                EvalOut::Spent => r matches Err(e) && e is Eval,
            })
        }),
    decreases fuel, 1int,
{
    proof {
        lemma_exps_view(params@);
    }
    if fuel == 0 {
        return Err(LispError::Eval(String::from_str("evaluation depth budget exhausted")));
    }
    match procedure {
        LispExp::Procedure(b) => {
            if params.len() < 2 {
                return Err(
                    LispError::Eval(String::from_str("a builtin procedure needs two operands")),
                );
            }
            match b {
                Builtin::Lambda => {
                    let p0 = params[0].duplicate();
                    let p1 = params[1].duplicate();
                    let cap = Env::extend(env.duplicate());
                    Ok(LispExp::Lambda { params: Box::new(p0), body: Box::new(p1), env: cap })
                },
                Builtin::Define => {
                    match &params[0] {
                        LispExp::List(fdef) => {
                            proof {
                                lemma_exps_view(fdef@);
                                assert(exps_view(params@)[0] == ExpModel::List(exps_view(fdef@)));
                            }
                            if fdef.len() == 0 {
                                return Err(
                                    LispError::Eval(
                                        String::from_str("a function definition needs a name"),
                                    ),
                                );
                            }
                            let name = match fdef[0].expect_symbol() {
                                Ok(n) => n,
                                Err(e) => return Err(e),
                            };
                            let mut ps: Vec<LispExp> = Vec::new();
                            let mut i: usize = 1;
                            while i < fdef.len()
                                invariant
                                    1 <= i <= fdef.len(),
                                    exps_view(ps@) == exps_view(fdef@).subrange(1, i as int),
                                decreases fdef.len() - i,
                            {
                                let ghost before = ps@;
                                let d = fdef[i].duplicate();
                                ps.push(d);
                                proof {
                                    lemma_exps_view_push(before, d);
                                    assert(exps_view(ps@) =~= exps_view(fdef@).subrange(
                                        1,
                                        i as int + 1,
                                    ));
                                }
                                i = i + 1;
                            }
                            proof {
                                assert(exps_view(fdef@).subrange(1, fdef@.len() as int)
                                    =~= exps_view(fdef@).drop_first());
                            }
                            let plist = LispExp::List(ps);
                            proof {
                                assert(plist@ == ExpModel::List(exps_view(fdef@).drop_first()));
                            }
                            let lam = LispExp::Lambda {
                                params: Box::new(plist),
                                body: Box::new(params[1].duplicate()),
                                env: env.duplicate(),
                            };
                            proof {
                                assert(lam@ == ExpModel::Lambda {
                                    params: Box::new(ExpModel::List(exps_view(fdef@).drop_first())),
                                    body: Box::new(exps_view(params@)[1]),
                                    env: old(env)@,
                                });
                            }
                            env.assign(name.as_str(), lam);
                            let out = LispExp::List(Vec::new());
                            proof {
                                assert(exps_view(Seq::<LispExp>::empty())
                                    == Seq::<ExpModel>::empty());
                                assert(out@ == ExpModel::List(Seq::<ExpModel>::empty()));
                            }
                            Ok(out)
                        },
                        _ => {
                            let name = match params[0].expect_symbol() {
                                Ok(n) => n,
                                Err(e) => return Err(e),
                            };
                            let v = params[1].duplicate();
                            env.assign(name.as_str(), v);
                            let out = LispExp::List(Vec::new());
                            proof {
                                assert(exps_view(Seq::<LispExp>::empty())
                                    == Seq::<ExpModel>::empty());
                                assert(out@ == ExpModel::List(Seq::<ExpModel>::empty()));
                            }
                            Ok(out)
                        },
                    }
                },
                _ => {
                    let a0 = params[0].duplicate();
                    let a1 = params[1].duplicate();
                    eval_arith(b, a0, a1, env, fuel)
                },
            }
        },
        LispExp::Lambda { params: param_slots, body, env: cenv } => {
            match *param_slots {
                LispExp::List(list) => {
                    proof {
                        lemma_exps_view(list@);
                        assert(exp_view(LispExp::List(list)) == ExpModel::List(exps_view(list@)));
                    }
                    let ghost cv = cenv@;
                    let ghost argsv = exps_view(params@);
                    let ghost psv = exps_view(list@);
                    let mut new_env = Env::extend(cenv);
                    let ghost base = new_env@;
                    proof {
                        assert(psv.take(0) =~= Seq::<ExpModel>::empty());
                        assert(bind_frame(psv.take(0), argsv) == Map::<Seq<char>, ExpModel>::empty());
                        assert(base.update(0, bind_frame(psv.take(0), argsv)) =~= base);
                    }
                    let mut index: usize = 0;
                    while index < list.len()
                        invariant
                            0 <= index <= list.len(),
                            index <= params.len(),
                            forall|k: int| 0 <= k < index ==> (#[trigger] psv[k]) is Symbol,
                            new_env@ == base.update(
                                0,
                                bind_frame(psv.take(index as int), argsv),
                            ),
                        decreases list.len() - index,
                    {
                        let key = match list[index].expect_symbol() {
                            Ok(k) => k,
                            Err(e) => {
                                proof {
                                    assert(!(psv[index as int] is Symbol));
                                    assert(!params_ok(psv, argsv));
                                }
                                return Err(e);
                            },
                        };
                        if index < params.len() {
                            let ghost prev = new_env@;
                            new_env.assign(key.as_str(), params[index].duplicate());
                            proof {
                                assert(psv.take(index as int + 1).drop_last() =~= psv.take(
                                    index as int,
                                ));
                                assert(psv.take(index as int + 1).last() == psv[index as int]);
                                assert(bind_frame(psv.take(index as int + 1), argsv) == bind_frame(
                                    psv.take(index as int),
                                    argsv,
                                ).insert(key@, argsv[index as int]));
                                assert(new_env@ =~= base.update(
                                    0,
                                    bind_frame(psv.take(index as int + 1), argsv),
                                ));
                            }
                        } else {
                            proof {
                                assert(psv.len() > argsv.len());
                                assert(!params_ok(psv, argsv));
                            }
                            return Err(
                                LispError::Eval(String::from_str("apply params count not match")),
                            );
                        }
                        index = index + 1;
                    }
                    proof {
                        assert(psv.take(list@.len() as int) =~= psv);
                        assert(params_ok(psv, argsv));
                        assert(new_env@ =~= seq![bind_frame(psv, argsv)] + cv);
                    }
                    eval(*body, &mut new_env, fuel - 1)
                },
                _ => Err(LispError::Eval(String::from_str("apply params count not match"))),
            }
        },
        _ => Err(LispError::Eval(String::from_str("can not apply a value of this kind"))),
    }
}

/// Evaluates the two operands of an arithmetic builtin in order, requires
/// both to be numbers, and produces the builtin's IEEE-754 binary64 result,
/// mirroring `spec_arith` exactly.
fn eval_arith(b: Builtin, first: LispExp, second: LispExp, env: &mut Env, fuel: u64) -> (r: Result<
    LispExp,
    LispError,
>)
    requires
        b == Builtin::Add || b == Builtin::Sub || b == Builtin::Mul || b == Builtin::Div,
    ensures
        ({
            let s = spec_arith(fuel as nat, b, first@, second@, old(env)@);
            &&& final(env)@ == s.env
            &&& (match s.out {
                EvalOut::Value(v) => r matches Ok(x) && x@ == v,
                EvalOut::Fail => r matches Err(e) && e is Eval,
                EvalOut::Spent => r matches Err(e) && e is Eval,
            })
        }),
    decreases fuel, 0int,
{
    if fuel == 0 {
        return Err(LispError::Eval(String::from_str("evaluation depth budget exhausted")));
    }
    let v1 = match eval(first, env, fuel - 1) {
        Ok(v) => v,
        Err(e) => return Err(e),
    };
    let x = match v1.expect_number() {
        Ok(x) => x,
        Err(e) => return Err(e),
    };
    let v2 = match eval(second, env, fuel - 1) {
        Ok(v) => v,
        Err(e) => return Err(e),
    };
    let y = match v2.expect_number() {
        Ok(y) => y,
        Err(e) => return Err(e),
    };
    let bits = match b {
        Builtin::Add => num_add(x, y),
        Builtin::Sub => num_sub(x, y),
        Builtin::Mul => num_mul(x, y),
        Builtin::Div => num_div(x, y),
        _ => {
            proof {
                assert(false);
            }
            num_add(x, y)
        },
    };
    Ok(LispExp::Number(bits))
}

/// Tokenizes and parses a whole input, evaluates every top-level form in
/// order — earlier forms' environment mutations stay applied even when a
/// later form fails — and returns the last form's value.
#[verifier::loop_isolation(false)]
pub fn eval_str(code: &str, env: &mut Env) -> (r: Result<LispExp, LispError>)
    ensures
        ({
            match spec_parse(spec_tokenize(code@)) {
                Option::None => final(env)@ == old(env)@ && (r matches Err(e) && e is Parser),
                Option::Some(es) => ({
                    let s = spec_eval_batch(DEFAULT_FUEL as nat, es, old(env)@);
                    &&& final(env)@ == s.env
                    &&& (match s.out {
                        EvalOut::Value(v) => r matches Ok(x) && x@ == v,
                        EvalOut::Fail => r matches Err(e) && e is Eval,
                        EvalOut::Spent => r matches Err(e) && e is Eval,
                    })
                }),
            }
        }),
{
    let tokens = match tokenize(code) {
        Ok(ts) => ts,
        Err(e) => return Err(e),
    };
    let exps = match parse(tokens) {
        Ok(es) => es,
        Err(e) => return Err(e),
    };
    let ghost esv = exps_view(exps@);
    let ghost env0 = env@;
    proof {
        lemma_exps_view(exps@);
    }
    if exps.len() == 0 {
        return Err(LispError::Eval(String::from_str("nothing to evaluate")));
    }
    let mut i: usize = 0;
    proof {
        assert(esv.skip(0) =~= esv);
    }
    while i + 1 < exps.len()
        invariant
            i < exps.len(),
            spec_eval_batch(DEFAULT_FUEL as nat, esv, env0) == spec_eval_batch(
                DEFAULT_FUEL as nat,
                esv.skip(i as int),
                env@,
            ),
        decreases exps.len() - i,
    {
        let e = exps[i].duplicate();
        proof {
            assert(esv.skip(i as int)[0] == esv[i as int]);
        }
        match eval(e, env, DEFAULT_FUEL) {
            Ok(_) => {},
            Err(err) => {
                return Err(err);
            },
        }
        proof {
            assert(esv.skip(i as int).drop_first() =~= esv.skip(i as int + 1));
        }
        i = i + 1;
    }
    let last = exps[i].duplicate();
    proof {
        assert(esv.skip(i as int)[0] == esv[i as int]);
        assert(esv.skip(i as int).len() == 1);
    }
    eval(last, env, DEFAULT_FUEL)
}

/// Law: in an environment where the operator symbol resolves to one of the
/// four arithmetic builtins, evaluating `(op a b)` — with each operand
/// evaluating to a number and leaving the environment as it was — yields
/// exactly the IEEE-754 binary64 result of that operation on the operands'
/// values, and leaves the environment unchanged.
pub proof fn lemma_arith_form(
    fuel: nat,
    opname: Seq<char>,
    b: Builtin,
    a1: ExpModel,
    a2: ExpModel,
    x: u64,
    y: u64,
    env: EnvModel,
)
    requires
        fuel >= 2,
        env_lookup(env, opname) == Option::Some(ExpModel::Procedure(b)),
        b == Builtin::Add || b == Builtin::Sub || b == Builtin::Mul || b == Builtin::Div,
        spec_eval((fuel - 1) as nat, a1, env) == (EvalState {
            out: EvalOut::Value(ExpModel::Number(x)),
            env,
        }),
        spec_eval((fuel - 1) as nat, a2, env) == (EvalState {
            out: EvalOut::Value(ExpModel::Number(y)),
            env,
        }),
    ensures
        spec_eval(fuel, ExpModel::List(seq![ExpModel::Symbol(opname), a1, a2]), env)
            == (EvalState { out: EvalOut::Value(ExpModel::Number(arith_bits(b, x, y))), env }),
{
    let items = seq![ExpModel::Symbol(opname), a1, a2];
    assert(items[0] == ExpModel::Symbol(opname));
    let head = spec_eval((fuel - 1) as nat, items[0], env);
    assert(head == (EvalState { out: EvalOut::Value(ExpModel::Procedure(b)), env }));
    assert(items.drop_first() =~= seq![a1, a2]);
    let args = items.drop_first();
    assert(args.len() == 2 && args[0] == a1 && args[1] == a2);
    assert(spec_arith(fuel, b, a1, a2, env) == (EvalState {
        out: EvalOut::Value(ExpModel::Number(arith_bits(b, x, y))),
        env,
    }));
    assert(spec_apply(fuel, ExpModel::Procedure(b), args, env) == spec_arith(
        fuel,
        b,
        a1,
        a2,
        env,
    ));
    assert(spec_eval(fuel, ExpModel::List(items), env) == spec_apply(
        fuel,
        ExpModel::Procedure(b),
        args,
        env,
    ));
}

/// Law: applying a lambda whose declared parameters are symbols to fewer
/// operands than parameters fails with an `Eval` error and leaves the
/// environment unchanged.
pub proof fn lemma_apply_arity(
    fuel: nat,
    ps: Seq<ExpModel>,
    body: ExpModel,
    cenv: EnvModel,
    args: Seq<ExpModel>,
    env: EnvModel,
)
    requires
        fuel >= 1,
        args.len() < ps.len(),
    ensures
        spec_apply(
            fuel,
            ExpModel::Lambda {
                params: Box::new(ExpModel::List(ps)),
                body: Box::new(body),
                env: cenv,
            },
            args,
            env,
        ) == (EvalState { out: EvalOut::Fail, env }),
{
}

/// Law: a value that is neither a builtin procedure nor a lambda — a
/// number, a boolean, a symbol, a list — cannot be applied: the outcome is
/// an `Eval` error and the environment is unchanged.
pub proof fn lemma_apply_non_applicable(
    fuel: nat,
    op: ExpModel,
    args: Seq<ExpModel>,
    env: EnvModel,
)
    requires
        fuel >= 1,
        !(op is Procedure),
        !(op is Lambda),
    ensures
        spec_apply(fuel, op, args, env) == (EvalState { out: EvalOut::Fail, env }),
{
}

/// Law: applying a lambda never mutates the caller's environment, whatever
/// the outcome — parameter bindings live only in the fresh scope built over
/// the lambda's captured snapshot.
pub proof fn lemma_lambda_apply_keeps_env(
    fuel: nat,
    op: ExpModel,
    args: Seq<ExpModel>,
    env: EnvModel,
)
    requires
        op is Lambda,
    ensures
        spec_apply(fuel, op, args, env).env == env,
{
}

} // verus!
