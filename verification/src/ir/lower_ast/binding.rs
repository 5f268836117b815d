//! What a source name is bound to, and the environment that holds the
//! bindings of a scope.

use vstd::prelude::*;
use crate::ir::instr::ConstValue;
use crate::ir::types::{Type, TypeV};
use crate::ir::value::ValueId;

verus! {

/// What a name stands for during lowering: a stack slot, which is read by a
/// load and written by a store, or a compile-time constant, which is read as
/// its literal and never written.
#[derive(Debug)]
pub enum Binding {
    Addr { ptr: ValueId, ty: Type },
    Const { ty: Type, value: ConstValue },
}

/// The mathematical value of a [`Binding`].
pub enum BindingV {
    Addr { ptr: ValueId, ty: TypeV },
    Const { ty: TypeV, value: ConstValue },
}

/// What the rules of the language read from a binding: whether the name is
/// a variable or a constant, its type, and the value of a constant.
pub enum Kind {
    Var(TypeV),
    Const(TypeV, ConstValue),
}

/// The kind of a binding: the binding without its slot.
pub open spec fn kind_of(b: BindingV) -> Kind {
    match b {
        BindingV::Addr { ty, .. } => Kind::Var(ty),
        BindingV::Const { ty, value } => Kind::Const(ty, value),
    }
}

impl View for Binding {
    type V = BindingV;

    open spec fn view(&self) -> BindingV {
        match self {
            Binding::Addr { ptr, ty } => BindingV::Addr { ptr: *ptr, ty: ty@ },
            Binding::Const { ty, value } => BindingV::Const { ty: ty@, value: *value },
        }
    }
}

impl Clone for Binding {
    fn clone(&self) -> (r: Self)
        ensures
            r@ == self@,
    {
        match self {
            Binding::Addr { ptr, ty } => Binding::Addr { ptr: *ptr, ty: ty.clone() },
            Binding::Const { ty, value } => Binding::Const { ty: ty.clone(), value: value.clone() },
        }
    }
}

/// The binding that `name` has among the bindings `env`: its latest.
pub open spec fn find(env: Seq<(Seq<char>, BindingV)>, name: Seq<char>) -> Option<BindingV>
    decreases env.len(),
{
    if env.len() == 0 {
        None
    } else if env.last().0 == name {
        Some(env.last().1)
    } else {
        find(env.drop_last(), name)
    }
}

/// The names of a scope with their kinds, oldest first. A later entry
/// shadows an earlier one of the same name.
pub type Sig = Seq<(Seq<char>, Kind)>;

/// The kind that `name` has in `sig`: that of its latest entry.
pub open spec fn lookup(sig: Sig, name: Seq<char>) -> Option<Kind>
    decreases sig.len(),
{
    if sig.len() == 0 {
        None
    } else if sig.last().0 == name {
        Some(sig.last().1)
    } else {
        lookup(sig.drop_last(), name)
    }
}

/// The bindings of a scope, oldest first. Binding a name again shadows the
/// earlier binding; a copy of the environment is a scope of its own.
#[derive(Debug)]
pub struct Env {
    pub entries: Vec<(String, Binding)>,
}

impl View for Env {
    type V = Seq<(Seq<char>, BindingV)>;

    open spec fn view(&self) -> Seq<(Seq<char>, BindingV)> {
        Seq::new(self.entries@.len(), |i: int| (self.entries@[i].0@, self.entries@[i].1@))
    }
}

/// The names and kinds of the bindings `s`.
pub open spec fn sig_of(s: Seq<(Seq<char>, BindingV)>) -> Sig {
    Seq::new(s.len(), |i: int| (s[i].0, kind_of(s[i].1)))
}

/// Binding one more name adds its kind at the end of the signature.
pub proof fn lemma_sig_push(s: Seq<(Seq<char>, BindingV)>, name: Seq<char>, b: BindingV)
    ensures
        sig_of(s.push((name, b))) == sig_of(s).push((name, kind_of(b))),
{
    assert(sig_of(s.push((name, b))) =~= sig_of(s).push((name, kind_of(b))));
}

impl Env {
    /// The names and kinds of the environment.
    pub open spec fn sig(&self) -> Sig {
        sig_of(self@)
    }

    /// An environment without bindings.
    pub fn new() -> (r: Self)
        ensures
            r@ == Seq::<(Seq<char>, BindingV)>::empty(),
            r.sig() == Seq::<(Seq<char>, Kind)>::empty(),
    {
        let r = Env { entries: Vec::new() };
        assert(r@ =~= Seq::<(Seq<char>, BindingV)>::empty());
        assert(r.sig() =~= Seq::<(Seq<char>, Kind)>::empty());
        r
    }

    /// The latest binding of `name`, if the name is bound.
    pub fn get(&self, name: &String) -> (r: Option<&Binding>)
        ensures
            match r {
                Some(b) => lookup(self.sig(), name@) == Some(kind_of(b@)) && find(self@, name@)
                    == Some(b@) && exists|k: int|
                    0 <= k < self@.len() && (#[trigger] self@[k]).1 == b@,
                None => lookup(self.sig(), name@) is None && find(self@, name@) is None,
            },
    {
        let mut i: usize = self.entries.len();
        assert(self.sig().subrange(0, i as int) =~= self.sig());
        assert(self@.subrange(0, i as int) =~= self@);
        while i > 0
            invariant
                i <= self.entries.len(),
                lookup(self.sig(), name@) == lookup(self.sig().subrange(0, i as int), name@),
                find(self@, name@) == find(self@.subrange(0, i as int), name@),
            decreases i,
        {
            i -= 1;
            assert(self.sig().subrange(0, i + 1).drop_last() =~= self.sig().subrange(0, i as int));
            assert(self.sig().subrange(0, i + 1).last() == self.sig()[i as int]);
            assert(self@.subrange(0, i + 1).drop_last() =~= self@.subrange(0, i as int));
            assert(self@.subrange(0, i + 1).last() == self@[i as int]);
            if self.entries[i].0 == *name {
                assert(self@[i as int].1 == self.entries@[i as int].1@);
                return Some(&self.entries[i].1);
            }
        }
        None
    }

    /// Binds `name` to `binding`; an earlier binding of the name is shadowed.
    pub fn insert(&mut self, name: String, binding: Binding)
        ensures
            final(self).entries@ == old(self).entries@.push((name, binding)),
            final(self)@ == old(self)@.push((name@, binding@)),
            final(self).sig() == old(self).sig().push((name@, kind_of(binding@))),
    {
        self.entries.push((name, binding));
        assert(self@ =~= old(self)@.push((name@, binding@)));
        proof {
            lemma_sig_push(old(self)@, name@, binding@);
        }
    }

    /// A copy of the environment with the same bindings.
    pub fn cloned(&self) -> (r: Self)
        ensures
            r@ == self@,
            r.sig() == self.sig(),
    {
        let mut entries: Vec<(String, Binding)> = Vec::new();
        let mut i: usize = 0;
        while i < self.entries.len()
            invariant
                i <= self.entries.len(),
                entries@.len() == i,
                forall|k: int|
                    0 <= k < i ==> (#[trigger] entries@[k]).0@ == self.entries@[k].0@
                        && entries@[k].1@ == self.entries@[k].1@,
            decreases self.entries.len() - i,
        {
            entries.push((self.entries[i].0.clone(), self.entries[i].1.clone()));
            i += 1;
        }
        let r = Env { entries };
        assert(r@ =~= self@);
        r
    }
}

} // verus!
