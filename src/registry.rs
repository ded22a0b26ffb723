//! The procedure registry: the ordered table of remote procedures that host
//! and guest are both built against.
//!
//! A call's argument buffer holds the tuple of all parameters in declaration
//! order. Its result buffer holds the tuple of the primary return value
//! followed by the post-call value of every mutable parameter, again in
//! declaration order.
use vstd::prelude::*;

use crate::codec::{lemma_view_types, view_types, Ty, Val, Value, ValueType};

verus! {

/// One parameter of a procedure.
#[derive(Debug)]
pub struct Param {
    pub name: String,
    /// A mutable parameter is handed back to the caller after the call.
    pub mutable: bool,
    pub ty: ValueType,
}

/// A remote procedure: its export name, parameters, return type, and an
/// optional default body.
#[derive(Debug)]
pub struct ProcedureDescriptor {
    pub name: String,
    pub params: Vec<Param>,
    pub ret: ValueType,
    /// The default body: the value returned when the guest does not
    /// override the procedure. Mutable parameters are left as they were.
    pub default_result: Option<Value>,
}

/// The types of the parameters, in declaration order.
pub open spec fn param_types(ps: Seq<Param>) -> Seq<Ty> {
    Seq::new(ps.len(), |i: int| ps[i].ty@)
}

/// The types of the mutable parameters, in declaration order.
pub open spec fn mutable_types(ps: Seq<Param>) -> Seq<Ty>
    decreases ps.len(),
{
    if ps.len() == 0 {
        Seq::empty()
    } else {
        let last = ps[ps.len() - 1];
        mutable_types(ps.drop_last()) + if last.mutable {
            seq![last.ty@]
        } else {
            Seq::empty()
        }
    }
}

/// The arguments in the places of the mutable parameters, in declaration order.
pub open spec fn mutable_args(ps: Seq<Param>, args: Seq<Val>) -> Seq<Val>
    decreases ps.len(),
{
    if ps.len() == 0 || args.len() == 0 {
        Seq::empty()
    } else {
        let last = ps[ps.len() - 1];
        mutable_args(ps.drop_last(), args.drop_last()) + if last.mutable {
            seq![args[args.len() - 1]]
        } else {
            Seq::empty()
        }
    }
}

impl ProcedureDescriptor {
    /// The type of the argument buffer's contents.
    pub open spec fn args_ty(&self) -> Ty {
        Ty::Tuple(param_types(self.params@))
    }

    /// The type of the result buffer's contents.
    pub open spec fn result_ty(&self) -> Ty {
        Ty::Tuple(seq![self.ret@] + mutable_types(self.params@))
    }

    /// The result tuple of a call that returned `ret` and left the
    /// arguments as `args`.
    pub open spec fn result_val(&self, ret: Val, args: Seq<Val>) -> Val {
        Val::Tuple(seq![ret] + mutable_args(self.params@, args))
    }

    /// A procedure with no parameters and no default body.
    pub fn new(name: String, ret: ValueType) -> (r: ProcedureDescriptor)
        ensures
            r.name@ == name@,
            r.params@.len() == 0,
            r.ret@ == ret@,
            r.default_result is None,
    {
        ProcedureDescriptor { name, params: Vec::new(), ret, default_result: None }
    }

    /// Appends a parameter.
    pub fn with_param(self, name: String, mutable: bool, ty: ValueType) -> (r: ProcedureDescriptor)
        ensures
            r.name@ == self.name@,
            r.params@ == self.params@.push(Param { name, mutable, ty }),
            r.ret == self.ret,
            r.default_result == self.default_result,
    {
        let mut d = self;
        d.params.push(Param { name, mutable, ty });
        d
    }

    /// Gives the procedure a default body returning `v`.
    pub fn with_default(self, v: Value) -> (r: ProcedureDescriptor)
        ensures
            r.name@ == self.name@,
            r.params == self.params,
            r.ret == self.ret,
            r.default_result == Some(v),
    {
        let mut d = self;
        d.default_result = Some(v);
        d
    }

    /// The type of the argument buffer's contents.
    pub fn args_type(&self) -> (r: ValueType)
        ensures
            r@ == self.args_ty(),
    {
        let mut ts: Vec<ValueType> = Vec::new();
        let mut i: usize = 0;
        while i < self.params.len()
            invariant
                i <= self.params@.len(),
                ts@.len() == i,
                forall|k: int| 0 <= k < i ==> #[trigger] ts@[k]@ == self.params@[k].ty@,
            decreases self.params@.len() - i,
        {
            ts.push(self.params[i].ty.duplicate());
            i += 1;
        }
        proof {
            lemma_view_types(ts@);
        }
        assert(view_types(ts@) =~= param_types(self.params@));
        ValueType::Tuple(ts)
    }

    /// The type of the result buffer's contents.
    pub fn result_type(&self) -> (r: ValueType)
        ensures
            r@ == self.result_ty(),
    {
        let mut ts: Vec<ValueType> = Vec::new();
        ts.push(self.ret.duplicate());
        let mut i: usize = 0;
        assert(self.params@.take(0) =~= Seq::<Param>::empty());
        while i < self.params.len()
            invariant
                i <= self.params@.len(),
                ts@.len() >= 1,
                ts@[0]@ == self.ret@,
                forall|k: int|
                    1 <= k < ts@.len() ==> #[trigger] ts@[k]@ == mutable_types(
                        self.params@.take(i as int),
                    )[k - 1],
                ts@.len() - 1 == mutable_types(self.params@.take(i as int)).len(),
            decreases self.params@.len() - i,
        {
            let ghost before = self.params@.take(i as int);
            assert(self.params@.take(i + 1).drop_last() =~= before);
            if self.params[i].mutable {
                ts.push(self.params[i].ty.duplicate());
            }
            i += 1;
        }
        assert(self.params@.take(self.params@.len() as int) =~= self.params@);
        proof {
            lemma_view_types(ts@);
        }
        assert(view_types(ts@) =~= seq![self.ret@] + mutable_types(self.params@));
        ValueType::Tuple(ts)
    }
}

} // verus!
