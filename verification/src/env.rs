//! A chain of scopes mapping names to expression values, supporting lexical
//! lookup and closure capture by value snapshot.

use vstd::prelude::*;

use crate::exp::{exp_view, Builtin, ExpModel, LispExp};

verus! {

/// One scope: a mapping from name to value, plus a link to the parent scope
/// (none for the root scope). A scope owns a value snapshot of its parent
/// chain, so later mutation of an enclosing scope is invisible here.
#[derive(Debug, PartialEq)]
pub struct Env {
    parent: Option<Box<Env>>,
    vars: Vec<(String, LispExp)>,
}

/// The mapping that a scope's entry list denotes: entries are added at the
/// end, and a later entry for a name overwrites an earlier one.
pub open spec fn frame_map(entries: Seq<(String, LispExp)>) -> Map<Seq<char>, ExpModel>
    decreases entries,
{
    if entries.len() == 0 {
        Map::empty()
    } else {
        frame_map(entries.drop_last()).insert(entries.last().0@, exp_view(entries.last().1))
    }
}

/// The model of an environment: its chain of scopes, innermost first.
pub closed spec fn env_view(e: Env) -> Seq<Map<Seq<char>, ExpModel>>
    decreases e,
{
    match e.parent {
        Option::None => seq![frame_map(e.vars@)],
        Option::Some(p) => seq![frame_map(e.vars@)] + env_view(*p),
    }
}

impl View for Env {
    type V = Seq<Map<Seq<char>, ExpModel>>;

    open spec fn view(&self) -> Seq<Map<Seq<char>, ExpModel>> {
        env_view(*self)
    }
}

/// Lexical lookup over a chain of scopes: the innermost scope that binds the
/// name decides; `None` when the root is reached without a match.
pub open spec fn env_lookup(
    frames: Seq<Map<Seq<char>, ExpModel>>,
    name: Seq<char>,
) -> Option<ExpModel>
    decreases frames.len(),
{
    if frames.len() == 0 {
        Option::None
    } else if frames[0].contains_key(name) {
        Option::Some(frames[0][name])
    } else {
        env_lookup(frames.drop_first(), name)
    }
}

/// The root scope's bindings: the six built-in procedures.
pub open spec fn base_env_map() -> Map<Seq<char>, ExpModel> {
    Map::empty()
        .insert("lambda"@, ExpModel::Procedure(Builtin::Lambda))
        .insert("define"@, ExpModel::Procedure(Builtin::Define))
        .insert("+"@, ExpModel::Procedure(Builtin::Add))
        .insert("-"@, ExpModel::Procedure(Builtin::Sub))
        .insert("*"@, ExpModel::Procedure(Builtin::Mul))
        .insert("/"@, ExpModel::Procedure(Builtin::Div))
}

/// No entry carries the name, so the scope's mapping lacks it.
proof fn lemma_frame_map_absent(entries: Seq<(String, LispExp)>, name: Seq<char>)
    requires
        forall|j: int| 0 <= j < entries.len() ==> (#[trigger] entries[j]).0@ != name,
    ensures
        !frame_map(entries).contains_key(name),
    decreases entries,
{
    if entries.len() > 0 {
        lemma_frame_map_absent(entries.drop_last(), name);
    }
}

/// The last entry carrying the name decides the scope's mapping at it.
proof fn lemma_frame_map_found(entries: Seq<(String, LispExp)>, name: Seq<char>, i: int)
    requires
        0 <= i < entries.len(),
        entries[i].0@ == name,
        forall|j: int| i < j < entries.len() ==> (#[trigger] entries[j]).0@ != name,
    ensures
        frame_map(entries).contains_key(name),
        frame_map(entries)[name] == exp_view(entries[i].1),
    decreases entries,
{
    if i == entries.len() - 1 {
    } else {
        assert(entries.drop_last()[i] == entries[i]);
        lemma_frame_map_found(entries.drop_last(), name, i);
    }
}

impl Env {
    /// The root environment: no parent, pre-populated with the builtins.
    pub fn new() -> (r: Env)
        ensures
            r@ == seq![base_env_map()],
    {
        let mut vars: Vec<(String, LispExp)> = Vec::new();
        let ghost s0 = vars@;
        vars.push((String::from_str("lambda"), LispExp::Procedure(Builtin::Lambda)));
        let ghost s1 = vars@;
        vars.push((String::from_str("define"), LispExp::Procedure(Builtin::Define)));
        let ghost s2 = vars@;
        vars.push((String::from_str("+"), LispExp::Procedure(Builtin::Add)));
        let ghost s3 = vars@;
        vars.push((String::from_str("-"), LispExp::Procedure(Builtin::Sub)));
        let ghost s4 = vars@;
        vars.push((String::from_str("*"), LispExp::Procedure(Builtin::Mul)));
        let ghost s5 = vars@;
        vars.push((String::from_str("/"), LispExp::Procedure(Builtin::Div)));
        let ghost s6 = vars@;
        proof {
            reveal_with_fuel(frame_map, 8);
            assert(s1.drop_last() =~= s0);
            assert(s2.drop_last() =~= s1);
            assert(s3.drop_last() =~= s2);
            assert(s4.drop_last() =~= s3);
            assert(s5.drop_last() =~= s4);
            assert(s6.drop_last() =~= s5);
            assert(frame_map(s0) == Map::<Seq<char>, ExpModel>::empty());
            assert(frame_map(s1) == frame_map(s0).insert(
                "lambda"@,
                ExpModel::Procedure(Builtin::Lambda),
            ));
            assert(frame_map(s2) == frame_map(s1).insert(
                "define"@,
                ExpModel::Procedure(Builtin::Define),
            ));
            assert(frame_map(s3) == frame_map(s2).insert("+"@, ExpModel::Procedure(Builtin::Add)));
            assert(frame_map(s4) == frame_map(s3).insert("-"@, ExpModel::Procedure(Builtin::Sub)));
            assert(frame_map(s5) == frame_map(s4).insert("*"@, ExpModel::Procedure(Builtin::Mul)));
            assert(frame_map(s6) == frame_map(s5).insert("/"@, ExpModel::Procedure(Builtin::Div)));
        }
        let r = Env { parent: None, vars };
        proof {
            assert(r@ == seq![frame_map(s6)]);
            assert(frame_map(s6) == base_env_map());
        }
        r
    }

    /// A new scope with an empty local mapping whose parent is the given
    /// environment (taken over as a snapshot).
    pub fn extend(parent: Self) -> (r: Env)
        ensures
            r@ == seq![Map::<Seq<char>, ExpModel>::empty()] + parent@,
    {
        let ghost pv = parent@;
        let r = Env { vars: Vec::new(), parent: Some(Box::new(parent)) };
        proof {
            assert(r.vars@ =~= Seq::<(String, LispExp)>::empty());
            assert(frame_map(r.vars@) == Map::<Seq<char>, ExpModel>::empty());
            assert(r@ =~= seq![Map::<Seq<char>, ExpModel>::empty()] + pv);
        }
        r
    }

    /// Lexical lookup: the current scope first, then the parent chain.
    pub fn lookup(&self, name: &str) -> (r: Option<LispExp>)
        ensures
            match r {
                Option::Some(v) => env_lookup(self@, name@) == Option::Some(v@),
                Option::None => env_lookup(self@, name@) is None,
            },
        decreases *self,
    {
        let key: String = name.to_owned();
        let mut i: usize = self.vars.len();
        while i > 0
            invariant
                i <= self.vars.len(),
                key@ == name@,
                forall|j: int| i <= j < self.vars@.len() ==> (#[trigger] self.vars@[j]).0@ != name@,
            decreases i,
        {
            i = i - 1;
            if self.vars[i].0 == key {
                proof {
                    lemma_frame_map_found(self.vars@, name@, i as int);
                    assert(self@[0] == frame_map(self.vars@));
                }
                return Some(self.vars[i].1.duplicate());
            }
        }
        proof {
            lemma_frame_map_absent(self.vars@, name@);
            assert(self@[0] == frame_map(self.vars@));
        }
        match &self.parent {
            Some(p) => {
                proof {
                    assert(self@ == seq![frame_map(self.vars@)] + env_view(**p));
                    assert(self@.drop_first() =~= env_view(**p));
                    assert(env_lookup(self@, name@) == env_lookup(env_view(**p), name@));
                }
                p.lookup(name)
            },
            None => {
                proof {
                    assert(self@ == seq![frame_map(self.vars@)]);
                    assert(self@.drop_first().len() == 0);
                    assert(env_lookup(self@.drop_first(), name@) is None);
                }
                None
            },
        }
    }

    /// Inserts or overwrites the name in the current scope only; an ancestor
    /// binding of the same name is shadowed, never mutated.
    pub fn assign(&mut self, name: &str, val: LispExp)
        ensures
            final(self)@ == old(self)@.update(0, old(self)@[0].insert(name@, val@)),
    {
        let ghost prev = self.vars@;
        self.vars.push((name.to_owned(), val));
        proof {
            assert(self.vars@.drop_last() =~= prev);
            assert(frame_map(self.vars@) == frame_map(prev).insert(name@, exp_view(val)));
            assert(env_view(*self) =~= env_view(*old(self)).update(
                0,
                env_view(*old(self))[0].insert(name@, exp_view(val)),
            ));
        }
    }

    /// An exact structural copy of the whole scope chain.
    pub fn duplicate(&self) -> (r: Env)
        ensures
            r@ == self@,
        decreases *self,
    {
        let mut vars: Vec<(String, LispExp)> = Vec::new();
        let mut i: usize = 0;
        while i < self.vars.len()
            invariant
                i <= self.vars.len(),
                frame_map(vars@) == frame_map(self.vars@.take(i as int)),
            decreases self.vars.len() - i,
        {
            let ghost prev = vars@;
            vars.push((self.vars[i].0.clone(), self.vars[i].1.duplicate()));
            proof {
                assert(vars@.drop_last() =~= prev);
                assert(self.vars@.take(i as int + 1).drop_last() =~= self.vars@.take(i as int));
                assert(self.vars@.take(i as int + 1).last() == self.vars@[i as int]);
            }
            i = i + 1;
        }
        proof {
            assert(self.vars@.take(self.vars@.len() as int) =~= self.vars@);
        }
        let parent = match &self.parent {
            Some(p) => Some(Box::new(p.duplicate())),
            None => None,
        };
        let r = Env { parent, vars };
        proof {
            assert(r@ =~= self@);
        }
        r
    }
}

/// Law: a name assigned in the current scope resolves there to the value
/// last assigned, whatever this or any enclosing scope bound before.
pub proof fn lemma_assign_then_lookup(
    frames: Seq<Map<Seq<char>, ExpModel>>,
    name: Seq<char>,
    v: ExpModel,
)
    requires
        frames.len() > 0,
    ensures
        env_lookup(frames.update(0, frames[0].insert(name, v)), name) == Option::Some(v),
{
}

/// Law: a scope with no local binding for a name resolves it exactly as its
/// parent chain does; in particular a fresh nested scope hides nothing.
pub proof fn lemma_extend_lookup(frames: Seq<Map<Seq<char>, ExpModel>>, name: Seq<char>)
    ensures
        env_lookup(seq![Map::<Seq<char>, ExpModel>::empty()] + frames, name) == env_lookup(
            frames,
            name,
        ),
{
    assert((seq![Map::<Seq<char>, ExpModel>::empty()] + frames).drop_first() =~= frames);
}

/// Law: binding a name in a nested scope shadows an enclosing binding there,
/// while the enclosing chain stands unchanged behind the new scope.
pub proof fn lemma_shadowing(
    frames: Seq<Map<Seq<char>, ExpModel>>,
    name: Seq<char>,
    inner: ExpModel,
)
    ensures
        env_lookup(seq![Map::<Seq<char>, ExpModel>::empty().insert(name, inner)] + frames, name)
            == Option::Some(inner),
        (seq![Map::<Seq<char>, ExpModel>::empty().insert(name, inner)] + frames).drop_first()
            =~= frames,
{
}

} // verus!
