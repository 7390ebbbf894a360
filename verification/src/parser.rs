//! The parser: a token sequence becomes the sequence of top-level
//! expressions, by a stack of in-progress lists seeded with the top level.

use vstd::prelude::*;

use crate::error::LispError;
use crate::exp::{exp_view, exps_view, lemma_exps_view_push, ExpModel, LispExp};
use crate::lexer::{tokens_view, Token, TokenModel};

verus! {

/// The expression a symbol token denotes: the reserved words `true` and
/// `false` become boolean literals, anything else stays a symbol.
pub open spec fn sym_or_bool(s: Seq<char>) -> ExpModel {
    if s == "true"@ {
        ExpModel::Bool(true)
    } else if s == "false"@ {
        ExpModel::Bool(false)
    } else {
        ExpModel::Symbol(s)
    }
}

/// One pass over the tokens from position `i`, with the stack of in-progress
/// lists (`stack[0]` is the top level). `None` is a parse failure: a close
/// paren with nothing beneath the top frame, or frames left unclosed at the
/// end.
pub open spec fn spec_parse_loop(
    stack: Seq<Seq<ExpModel>>,
    toks: Seq<TokenModel>,
    i: int,
) -> Option<Seq<ExpModel>>
    decreases toks.len() - i when 0 <= i <= toks.len() && stack.len() >= 1
{
    if i >= toks.len() {
        if stack.len() == 1 {
            Option::Some(stack[0])
        } else {
            Option::None
        }
    } else {
        let top = stack.len() - 1;
        match toks[i] {
            TokenModel::Number(bits) => spec_parse_loop(
                stack.update(top, stack[top].push(ExpModel::Number(bits))),
                toks,
                i + 1,
            ),
            TokenModel::Symbol(s) => spec_parse_loop(
                stack.update(top, stack[top].push(sym_or_bool(s))),
                toks,
                i + 1,
            ),
            TokenModel::LParen => spec_parse_loop(stack.push(Seq::empty()), toks, i + 1),
            TokenModel::RParen => {
                if stack.len() >= 2 {
                    spec_parse_loop(
                        stack.drop_last().update(top - 1, stack[top - 1].push(
                            ExpModel::List(stack[top]),
                        )),
                        toks,
                        i + 1,
                    )
                } else {
                    Option::None
                }
            },
        }
    }
}

/// What parsing a whole token sequence yields.
pub open spec fn spec_parse(toks: Seq<TokenModel>) -> Option<Seq<ExpModel>> {
    spec_parse_loop(seq![Seq::empty()], toks, 0)
}

/// The tokens that re-serialize an expression: structure back to tokens.
/// Only shapes the parser produces matter; procedure values, which no parse
/// yields, serialize to nothing.
pub open spec fn unparse_exp(e: ExpModel) -> Seq<TokenModel>
    decreases e,
{
    match e {
        ExpModel::Number(bits) => seq![TokenModel::Number(bits)],
        ExpModel::Bool(b) => seq![
            TokenModel::Symbol(
                if b {
                    "true"@
                } else {
                    "false"@
                },
            ),
        ],
        ExpModel::Symbol(s) => seq![TokenModel::Symbol(s)],
        ExpModel::List(items) => seq![TokenModel::LParen] + unparse_exps(items) + seq![
            TokenModel::RParen,
        ],
        ExpModel::Lambda { .. } => Seq::empty(),
        ExpModel::Procedure(_) => Seq::empty(),
    }
}

/// The tokens that re-serialize a sequence of expressions, in order.
pub open spec fn unparse_exps(es: Seq<ExpModel>) -> Seq<TokenModel>
    decreases es,
{
    if es.len() == 0 {
        Seq::empty()
    } else {
        unparse_exps(es.drop_last()) + unparse_exp(es.last())
    }
}

/// The tokens already consumed into a parser stack: each frame below the
/// top level re-opens with the parenthesis that began it.
spec fn stack_tokens(stack: Seq<Seq<ExpModel>>) -> Seq<TokenModel>
    decreases stack.len(),
{
    if stack.len() == 0 {
        Seq::empty()
    } else if stack.len() == 1 {
        unparse_exps(stack[0])
    } else {
        stack_tokens(stack.drop_last()) + seq![TokenModel::LParen] + unparse_exps(stack.last())
    }
}

proof fn lemma_unparse_exps_push(es: Seq<ExpModel>, x: ExpModel)
    ensures
        unparse_exps(es.push(x)) == unparse_exps(es) + unparse_exp(x),
{
    assert(es.push(x).drop_last() =~= es);
    assert(es.push(x).last() == x);
}

proof fn lemma_stack_tokens_push_elem(stack: Seq<Seq<ExpModel>>, x: ExpModel)
    requires
        stack.len() >= 1,
    ensures
        stack_tokens(stack.update(stack.len() - 1, stack.last().push(x))) == stack_tokens(stack)
            + unparse_exp(x),
{
    let upd = stack.update(stack.len() - 1, stack.last().push(x));
    lemma_unparse_exps_push(stack.last(), x);
    if stack.len() == 1 {
        assert(upd[0] == stack.last().push(x));
        assert(stack_tokens(upd) == unparse_exps(stack[0]) + unparse_exp(x));
    } else {
        assert(upd.drop_last() =~= stack.drop_last());
        assert(upd.last() == stack.last().push(x));
        assert(stack_tokens(upd) == stack_tokens(stack.drop_last()) + seq![TokenModel::LParen]
            + (unparse_exps(stack.last()) + unparse_exp(x)));
        assert(stack_tokens(stack.drop_last()) + seq![TokenModel::LParen] + (unparse_exps(
            stack.last(),
        ) + unparse_exp(x)) =~= (stack_tokens(stack.drop_last()) + seq![TokenModel::LParen]
            + unparse_exps(stack.last())) + unparse_exp(x));
    }
}

proof fn lemma_parse_loop_round_trip(
    stack: Seq<Seq<ExpModel>>,
    toks: Seq<TokenModel>,
    i: int,
    es: Seq<ExpModel>,
)
    requires
        0 <= i <= toks.len(),
        stack.len() >= 1,
        spec_parse_loop(stack, toks, i) == Option::Some(es),
    ensures
        unparse_exps(es) == stack_tokens(stack) + toks.skip(i),
    decreases toks.len() - i,
{
    if i >= toks.len() {
        assert(toks.skip(i) =~= Seq::<TokenModel>::empty());
        assert(unparse_exps(es) =~= stack_tokens(stack) + toks.skip(i));
    } else {
        let top = stack.len() - 1;
        assert(toks.skip(i) =~= seq![toks[i]] + toks.skip(i + 1));
        match toks[i] {
            TokenModel::Number(bits) => {
                let stack2 = stack.update(top, stack[top].push(ExpModel::Number(bits)));
                lemma_parse_loop_round_trip(stack2, toks, i + 1, es);
                lemma_stack_tokens_push_elem(stack, ExpModel::Number(bits));
                assert((stack_tokens(stack) + seq![TokenModel::Number(bits)]) + toks.skip(i + 1)
                    =~= stack_tokens(stack) + toks.skip(i));
            },
            TokenModel::Symbol(s) => {
                let stack2 = stack.update(top, stack[top].push(sym_or_bool(s)));
                lemma_parse_loop_round_trip(stack2, toks, i + 1, es);
                lemma_stack_tokens_push_elem(stack, sym_or_bool(s));
                assert(unparse_exp(sym_or_bool(s)) == seq![TokenModel::Symbol(s)]);
                assert((stack_tokens(stack) + seq![TokenModel::Symbol(s)]) + toks.skip(i + 1)
                    =~= stack_tokens(stack) + toks.skip(i));
            },
            TokenModel::LParen => {
                let stack2 = stack.push(Seq::<ExpModel>::empty());
                lemma_parse_loop_round_trip(stack2, toks, i + 1, es);
                assert(stack2.drop_last() =~= stack);
                assert(stack_tokens(stack2) =~= stack_tokens(stack) + seq![TokenModel::LParen]);
                assert((stack_tokens(stack) + seq![TokenModel::LParen]) + toks.skip(i + 1)
                    =~= stack_tokens(stack) + toks.skip(i));
            },
            TokenModel::RParen => {
                let completed = ExpModel::List(stack[top]);
                let below = stack.drop_last();
                let stack2 = below.update(top - 1, stack[top - 1].push(completed));
                lemma_parse_loop_round_trip(stack2, toks, i + 1, es);
                assert(below.last() == stack[top - 1]);
                assert(below.update(top - 1, below.last().push(completed)) == stack2);
                lemma_stack_tokens_push_elem(below, completed);
                assert(stack_tokens(stack) == stack_tokens(below) + seq![TokenModel::LParen]
                    + unparse_exps(stack[top]));
                assert(unparse_exp(completed) == seq![TokenModel::LParen] + unparse_exps(
                    stack[top],
                ) + seq![TokenModel::RParen]);
                assert(stack_tokens(stack2) =~= stack_tokens(stack) + seq![TokenModel::RParen]);
                assert((stack_tokens(stack) + seq![TokenModel::RParen]) + toks.skip(i + 1)
                    =~= stack_tokens(stack) + toks.skip(i));
            },
        }
    }
}

/// Law: re-serializing the expression trees of a successful parse yields the
/// parsed token sequence itself — the trees mirror the parenthesis nesting
/// of the input exactly, and parsing then unparsing is a fixed point.
pub proof fn lemma_parse_round_trip(toks: Seq<TokenModel>, es: Seq<ExpModel>)
    requires
        spec_parse(toks) == Option::Some(es),
    ensures
        unparse_exps(es) == toks,
{
    lemma_parse_loop_round_trip(seq![Seq::<ExpModel>::empty()], toks, 0, es);
    assert(stack_tokens(seq![Seq::<ExpModel>::empty()]) =~= Seq::<TokenModel>::empty());
    assert(toks.skip(0) =~= toks);
}

/// The model of a parser stack: each frame's expressions, deeply.
pub open spec fn stack_view(stack: Seq<Vec<LispExp>>) -> Seq<Seq<ExpModel>> {
    stack.map_values(|frame: Vec<LispExp>| exps_view(frame@))
}

/// Parses the tokens into the top-level expressions, in source order; fails
/// with a `Parser` error exactly on mismatched parentheses.
#[verifier::loop_isolation(false)]
pub fn parse(tokens: Vec<Token>) -> (r: Result<Vec<LispExp>, LispError>)
    ensures
        match r {
            Ok(es) => spec_parse(tokens_view(tokens@)) == Option::Some(exps_view(es@)),
            Err(e) => spec_parse(tokens_view(tokens@)) is None && e is Parser,
        },
{
    let ghost toks = tokens_view(tokens@);
    let mut stack: Vec<Vec<LispExp>> = Vec::new();
    stack.push(Vec::new());
    proof {
        assert(stack_view(stack@) =~= seq![Seq::<ExpModel>::empty()]);
    }
    let mut i: usize = 0;
    while i < tokens.len()
        invariant
            i <= tokens.len(),
            stack.len() >= 1,
            spec_parse_loop(seq![Seq::<ExpModel>::empty()], toks, 0) == spec_parse_loop(
                stack_view(stack@),
                toks,
                i as int,
            ),
        decreases tokens.len() - i,
    {
        let ghost old_stack = stack_view(stack@);
        let top = stack.len() - 1;
        match &tokens[i] {
            Token::Number(bits) => {
                let mut frame = stack.pop().unwrap();
                let ghost before = frame@;
                frame.push(LispExp::Number(*bits));
                proof {
                    lemma_exps_view_push(before, LispExp::Number(*bits));
                }
                stack.push(frame);
                proof {
                    assert(stack_view(stack@) =~= old_stack.update(
                        top as int,
                        old_stack[top as int].push(ExpModel::Number(*bits)),
                    ));
                }
            },
            Token::Symbol(s) => {
                let t_true = String::from_str("true");
                let t_false = String::from_str("false");
                let e = if *s == t_true {
                    LispExp::Bool(true)
                } else if *s == t_false {
                    LispExp::Bool(false)
                } else {
                    LispExp::Symbol(s.clone())
                };
                proof {
                    assert(exp_view(e) == sym_or_bool(s@));
                }
                let mut frame = stack.pop().unwrap();
                let ghost before = frame@;
                frame.push(e);
                proof {
                    lemma_exps_view_push(before, e);
                }
                stack.push(frame);
                proof {
                    assert(stack_view(stack@) =~= old_stack.update(
                        top as int,
                        old_stack[top as int].push(sym_or_bool(s@)),
                    ));
                }
            },
            Token::LParen => {
                stack.push(Vec::new());
                proof {
                    assert(stack_view(stack@) =~= old_stack.push(Seq::<ExpModel>::empty()));
                }
            },
            Token::RParen => {
                let done = stack.pop().unwrap();
                if stack.len() == 0 {
                    return Err(LispError::Parser(String::from_str("redundant right paren")));
                }
                let completed = LispExp::List(done);
                let mut frame = stack.pop().unwrap();
                let ghost before = frame@;
                frame.push(completed);
                proof {
                    lemma_exps_view_push(before, completed);
                }
                stack.push(frame);
                proof {
                    assert(stack_view(stack@) =~= old_stack.drop_last().update(
                        top as int - 1,
                        old_stack[top as int - 1].push(ExpModel::List(old_stack[top as int])),
                    ));
                }
            },
        }
        i = i + 1;
    }
    if stack.len() != 1 {
        return Err(LispError::Parser(String::from_str("unclosed left paren")));
    }
    let ghost sv = stack_view(stack@);
    let result = stack.pop().unwrap();
    proof {
        assert(sv =~= seq![exps_view(result@)]);
    }
    Ok(result)
}

} // verus!
