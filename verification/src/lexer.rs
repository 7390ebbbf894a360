//! The lexer: a character sequence becomes a token sequence.
//!
//! Newlines are dropped first; `(` and `)` are single-character tokens; a
//! space is skipped; any other character starts a run that extends until
//! whitespace or a parenthesis, and one whitespace character directly after
//! a run is consumed with it. A run that reads as a floating-point literal
//! becomes a number token, any other run a symbol token.

use vstd::prelude::*;

use crate::error::LispError;
use crate::num::{chars_to_string, number_of_text, parse_number};

verus! {

/// A token. `Number` holds the bit pattern of the IEEE-754 binary64 value
/// the literal denotes.
#[derive(Debug, PartialEq)]
pub enum Token {
    Number(u64),
    Symbol(String),
    LParen,
    RParen,
}

/// The model of a token, with the symbol text as a character sequence.
#[verifier::ext_equal]
pub enum TokenModel {
    Number(u64),
    Symbol(Seq<char>),
    LParen,
    RParen,
}

/// The model of a token.
pub open spec fn token_view(t: Token) -> TokenModel {
    match t {
        Token::Number(bits) => TokenModel::Number(bits),
        Token::Symbol(s) => TokenModel::Symbol(s@),
        Token::LParen => TokenModel::LParen,
        Token::RParen => TokenModel::RParen,
    }
}

impl View for Token {
    type V = TokenModel;

    open spec fn view(&self) -> TokenModel {
        token_view(*self)
    }
}

/// The models of a sequence of tokens, element by element.
pub open spec fn tokens_view(ts: Seq<Token>) -> Seq<TokenModel> {
    ts.map_values(|t: Token| token_view(t))
}

/// The Unicode white-space characters, exactly the set `char::is_whitespace`
/// accepts.
pub open spec fn spec_is_space(c: char) -> bool {
    ||| c == ' '
    ||| c == '\t'
    ||| c == '\n'
    ||| c == '\r'
    ||| c == '\u{000B}'
    ||| c == '\u{000C}'
    ||| c == '\u{0085}'
    ||| c == '\u{00A0}'
    ||| c == '\u{1680}'
    ||| (0x2000 <= c as u32 && c as u32 <= 0x200A)
    ||| c == '\u{2028}'
    ||| c == '\u{2029}'
    ||| c == '\u{202F}'
    ||| c == '\u{205F}'
    ||| c == '\u{3000}'
}

/// A character that keeps a symbol/number run going: neither whitespace nor
/// a parenthesis.
pub open spec fn is_run_char(c: char) -> bool {
    c != '(' && c != ')' && !spec_is_space(c)
}

fn is_space(c: char) -> (b: bool)
    ensures
        b == spec_is_space(c),
{
    c == ' ' || c == '\t' || c == '\n' || c == '\r' || c == '\u{000B}' || c == '\u{000C}'
        || c == '\u{0085}' || c == '\u{00A0}' || c == '\u{1680}'
        || (0x2000 <= c as u32 && c as u32 <= 0x200A) || c == '\u{2028}' || c == '\u{2029}'
        || c == '\u{202F}' || c == '\u{205F}' || c == '\u{3000}'
}

fn run_char(c: char) -> (b: bool)
    ensures
        b == is_run_char(c),
{
    c != '(' && c != ')' && !is_space(c)
}

/// The characters with every newline removed; this happens before runs are
/// formed, so a newline inside a run splits nothing — it simply vanishes.
pub open spec fn remove_newlines(cs: Seq<char>) -> Seq<char>
    decreases cs.len(),
{
    if cs.len() == 0 {
        Seq::empty()
    } else if cs.last() == '\n' {
        remove_newlines(cs.drop_last())
    } else {
        remove_newlines(cs.drop_last()).push(cs.last())
    }
}

/// Where the run that is under way at position `j` ends: the first position
/// at or after `j` whose character no longer keeps the run going.
pub open spec fn run_end(cs: Seq<char>, j: int) -> int
    decreases cs.len() - j when 0 <= j <= cs.len()
{
    if j < cs.len() && is_run_char(cs[j]) {
        run_end(cs, j + 1)
    } else {
        j
    }
}

/// The token a completed run denotes: a number when the text reads as a
/// floating-point literal, otherwise a symbol.
pub open spec fn token_of_text(text: Seq<char>) -> TokenModel {
    match number_of_text(text) {
        Option::Some(bits) => TokenModel::Number(bits),
        Option::None => TokenModel::Symbol(text),
    }
}

proof fn lemma_run_end_bounds(cs: Seq<char>, j: int)
    requires
        0 <= j <= cs.len(),
    ensures
        j <= run_end(cs, j) <= cs.len(),
    decreases cs.len() - j,
{
    if j < cs.len() && is_run_char(cs[j]) {
        lemma_run_end_bounds(cs, j + 1);
    }
}

/// The scan that stopped at `q` found exactly the run that `run_end` names.
proof fn lemma_run_end_is(cs: Seq<char>, j: int, q: int)
    requires
        0 <= j <= q <= cs.len(),
        forall|k: int| j <= k < q ==> is_run_char(#[trigger] cs[k]),
        q == cs.len() || !is_run_char(cs[q]),
    ensures
        run_end(cs, j) == q,
    decreases q - j,
{
    if j < q {
        lemma_run_end_is(cs, j + 1, q);
    }
}

/// The tokens of the newline-free characters from position `i` on.
pub open spec fn spec_lex_from(cs: Seq<char>, i: int) -> Seq<TokenModel>
    decreases cs.len() - i when 0 <= i <= cs.len() via spec_lex_from_dec
{
    if i >= cs.len() {
        Seq::empty()
    } else if cs[i] == '(' {
        seq![TokenModel::LParen] + spec_lex_from(cs, i + 1)
    } else if cs[i] == ')' {
        seq![TokenModel::RParen] + spec_lex_from(cs, i + 1)
    } else if cs[i] == ' ' {
        spec_lex_from(cs, i + 1)
    } else {
        let e = run_end(cs, i + 1);
        let next = if e < cs.len() && spec_is_space(cs[e]) {
            e + 1
        } else {
            e
        };
        seq![token_of_text(cs.subrange(i, e))] + spec_lex_from(cs, next)
    }
}

#[via_fn]
proof fn spec_lex_from_dec(cs: Seq<char>, i: int) {
    if 0 <= i < cs.len() && cs[i] != '(' && cs[i] != ')' && cs[i] != ' ' {
        lemma_run_end_bounds(cs, i + 1);
    }
}

/// The tokens of a text: newlines vanish, then the scan runs left to right.
pub open spec fn spec_tokenize(s: Seq<char>) -> Seq<TokenModel> {
    spec_lex_from(remove_newlines(s), 0)
}

/// Tokenizes the whole input. The result is always `Ok`: the lexer error
/// kind is reserved for malformed literals and is currently never produced.
#[verifier::loop_isolation(false)]
pub fn tokenize(input: &str) -> (r: Result<Vec<Token>, LispError>)
    ensures
        r matches Ok(ts) && tokens_view(ts@) == spec_tokenize(input@),
{
    let n = input.unicode_len();
    let mut chars: Vec<char> = Vec::new();
    let mut i: usize = 0;
    while i < n
        invariant
            i <= n,
            chars@ == remove_newlines(input@.take(i as int)),
        decreases n - i,
    {
        let c = input.get_char(i);
        proof {
            assert(input@.take(i as int + 1).drop_last() =~= input@.take(i as int));
            assert(input@.take(i as int + 1).last() == input@[i as int]);
        }
        if c != '\n' {
            chars.push(c);
        }
        i = i + 1;
    }
    proof {
        assert(input@.take(n as int) =~= input@);
    }
    let cs = chars;
    let mut tokens: Vec<Token> = Vec::new();
    let mut p: usize = 0;
    while p < cs.len()
        invariant
            p <= cs.len(),
            spec_lex_from(cs@, 0) == tokens_view(tokens@) + spec_lex_from(cs@, p as int),
        decreases cs.len() - p,
    {
        let c = cs[p];
        if c == '(' {
            let ghost before = tokens@;
            tokens.push(Token::LParen);
            proof {
                assert(tokens_view(tokens@) =~= tokens_view(before).push(TokenModel::LParen));
                assert(tokens_view(before) + (seq![TokenModel::LParen] + spec_lex_from(
                    cs@,
                    p as int + 1,
                )) =~= tokens_view(tokens@) + spec_lex_from(cs@, p as int + 1));
            }
            p = p + 1;
        } else if c == ')' {
            let ghost before = tokens@;
            tokens.push(Token::RParen);
            proof {
                assert(tokens_view(tokens@) =~= tokens_view(before).push(TokenModel::RParen));
                assert(tokens_view(before) + (seq![TokenModel::RParen] + spec_lex_from(
                    cs@,
                    p as int + 1,
                )) =~= tokens_view(tokens@) + spec_lex_from(cs@, p as int + 1));
            }
            p = p + 1;
        } else if c == ' ' {
            p = p + 1;
        } else {
            let mut run: Vec<char> = Vec::new();
            run.push(c);
            let mut q: usize = p + 1;
            proof {
                assert(run@ =~= cs@.subrange(p as int, p as int + 1));
            }
            while q < cs.len() && run_char(cs[q])
                invariant
                    p + 1 <= q <= cs.len(),
                    run@ == cs@.subrange(p as int, q as int),
                    forall|k: int| p + 1 <= k < q ==> is_run_char(#[trigger] cs@[k]),
                decreases cs.len() - q,
            {
                run.push(cs[q]);
                proof {
                    assert(cs@.subrange(p as int, q as int + 1).drop_last() =~= cs@.subrange(
                        p as int,
                        q as int,
                    ));
                    assert(run@ =~= cs@.subrange(p as int, q as int + 1));
                }
                q = q + 1;
            }
            proof {
                lemma_run_end_is(cs@, p as int + 1, q as int);
            }
            let tok = match parse_number(&run) {
                Some(bits) => Token::Number(bits),
                None => Token::Symbol(chars_to_string(&run)),
            };
            let ghost before = tokens@;
            proof {
                assert(token_view(tok) == token_of_text(cs@.subrange(p as int, q as int)));
            }
            tokens.push(tok);
            let next: usize = if q < cs.len() && is_space(cs[q]) {
                q + 1
            } else {
                q
            };
            proof {
                assert(tokens_view(tokens@) =~= tokens_view(before).push(
                    token_of_text(cs@.subrange(p as int, q as int)),
                ));
                assert(tokens_view(before) + (seq![
                    token_of_text(cs@.subrange(p as int, q as int)),
                ] + spec_lex_from(cs@, next as int)) =~= tokens_view(tokens@) + spec_lex_from(
                    cs@,
                    next as int,
                ));
            }
            p = next;
        }
    }
    proof {
        assert(spec_lex_from(cs@, cs@.len() as int) =~= Seq::<TokenModel>::empty());
        assert(tokens_view(tokens@) + Seq::<TokenModel>::empty() =~= tokens_view(tokens@));
    }
    Ok(tokens)
}

} // verus!
