//! The contents of a call frame: how a procedure's arguments fill the
//! argument buffer, and how its result and mutable parameters fill the
//! result buffer.
use vstd::prelude::*;

use crate::codec::{
    check_type, dec_exact, decode, enc, encode, encoded_size, has_type,
    lemma_dec_list_len, lemma_view_values, lemma_view_values_push, view_values, Ty, Val, Value,
};
use crate::error::BridgeError;
use crate::registry::{mutable_args, mutable_types, Param, ProcedureDescriptor};

verus! {

/// The arguments `args` with the mutable parameters' places filled, in
/// order, from `ms`.
pub open spec fn written_back(ps: Seq<Param>, args: Seq<Val>, ms: Seq<Val>) -> Seq<Val>
    decreases ps.len(),
{
    if ps.len() == 0 || args.len() == 0 {
        Seq::empty()
    } else if ps[ps.len() - 1].mutable && ms.len() > 0 {
        written_back(ps.drop_last(), args.drop_last(), ms.drop_last()).push(ms[ms.len() - 1])
    } else {
        written_back(ps.drop_last(), args.drop_last(), ms).push(args[args.len() - 1])
    }
}

/// Encodes `args` as the argument buffer of a call of `d`. Arguments that do
/// not match the parameters are refused, and so is an encoding too large for
/// the 32-bit address space; its size is known before anything is encoded.
pub fn encode_args(d: &ProcedureDescriptor, args: Vec<Value>) -> (r: Result<Vec<u8>, BridgeError>)
    ensures
        !has_type(Val::Tuple(view_values(args@)), d.args_ty()) ==> r == Err::<Vec<u8>, BridgeError>(
            BridgeError::ArgumentMismatch,
        ),
        has_type(Val::Tuple(view_values(args@)), d.args_ty()) && enc(
            Val::Tuple(view_values(args@)),
        ).len() > u32::MAX ==> r == Err::<Vec<u8>, BridgeError>(BridgeError::SizeOverflow),
        has_type(Val::Tuple(view_values(args@)), d.args_ty()) && enc(
            Val::Tuple(view_values(args@)),
        ).len() <= u32::MAX ==> (r matches Ok(b) && b@ == enc(Val::Tuple(view_values(args@)))),
{
    let v = Value::Tuple(args);
    let t = d.args_type();
    if !check_type(&v, &t) {
        return Err(BridgeError::ArgumentMismatch);
    }
    encoded_size(&v)?;
    Ok(encode(&v))
}

/// Decodes the argument buffer of a call of `d`.
pub fn decode_args(d: &ProcedureDescriptor, bytes: &[u8]) -> (r: Result<Vec<Value>, BridgeError>)
    ensures
        match dec_exact(d.args_ty(), bytes@) {
            Some(v) => r matches Ok(args) && v == Val::Tuple(view_values(args@)),
            None => r == Err::<Vec<Value>, BridgeError>(BridgeError::EncodingError),
        },
{
    let t = d.args_type();
    let v = decode(&t, bytes)?;
    match v {
        Value::Tuple(args) => Ok(args),
        _ => Err(BridgeError::EncodingError),
    }
}


/// Encodes the result buffer of a call of `d` that returned `ret` and left
/// its arguments as `args`: the return value, then each mutable argument in
/// declaration order. Values that do not match the declared types are
/// refused, and so is an encoding too large for the 32-bit address space.
pub fn encode_result(d: &ProcedureDescriptor, ret: Value, args: &Vec<Value>) -> (r: Result<
    Vec<u8>,
    BridgeError,
>)
    requires
        args@.len() == d.params@.len(),
    ensures
        ({
            let rv = d.result_val(ret@, view_values(args@));
            &&& !has_type(rv, d.result_ty()) ==> r == Err::<Vec<u8>, BridgeError>(
                BridgeError::EncodingError,
            )
            &&& has_type(rv, d.result_ty()) && enc(rv).len() > u32::MAX ==> r == Err::<
                Vec<u8>,
                BridgeError,
            >(BridgeError::SizeOverflow)
            &&& has_type(rv, d.result_ty()) && enc(rv).len() <= u32::MAX ==> (r matches Ok(b)
                && b@ == enc(rv))
        }),
{
    let ghost a = view_values(args@);
    let ghost r0 = ret@;
    proof {
        lemma_view_values(args@);
    }
    let mut fields: Vec<Value> = Vec::new();
    fields.push(ret);
    proof {
        lemma_view_values(fields@);
        assert(view_values(fields@) =~= seq![r0]);
        assert(d.params@.take(0) =~= Seq::<Param>::empty());
    }
    let mut i: usize = 0;
    while i < d.params.len()
        invariant
            i <= d.params@.len(),
            args@.len() == d.params@.len(),
            a == view_values(args@),
            a.len() == args@.len(),
            forall|k: int| 0 <= k < args@.len() ==> #[trigger] a[k] == args@[k]@,
            view_values(fields@) == seq![r0] + mutable_args(
                d.params@.take(i as int),
                a.take(i as int),
            ),
        decreases d.params@.len() - i,
    {
        assert(d.params@.take(i + 1).drop_last() =~= d.params@.take(i as int));
        assert(a.take(i + 1).drop_last() =~= a.take(i as int));
        if d.params[i].mutable {
            let x = args[i].duplicate();
            proof {
                lemma_view_values_push(fields@, x);
            }
            fields.push(x);
        }
        i += 1;
        assert(view_values(fields@) =~= seq![r0] + mutable_args(
            d.params@.take(i as int),
            a.take(i as int),
        ));
    }
    assert(d.params@.take(i as int) =~= d.params@);
    assert(a.take(i as int) =~= a);
    let v = Value::Tuple(fields);
    let t = d.result_type();
    if !check_type(&v, &t) {
        return Err(BridgeError::EncodingError);
    }
    encoded_size(&v)?;
    Ok(encode(&v))
}

/// Decodes the result buffer of a call of `d` into the return value and the
/// post-call values of the mutable parameters, in declaration order.
pub fn decode_result(d: &ProcedureDescriptor, bytes: &[u8]) -> (r: Result<
    (Value, Vec<Value>),
    BridgeError,
>)
    ensures
        match dec_exact(d.result_ty(), bytes@) {
            Some(v) => r matches Ok((x, ms)) && v == Val::Tuple(seq![x@] + view_values(ms@)),
            None => r == Err::<(Value, Vec<Value>), BridgeError>(BridgeError::EncodingError),
        },
        r matches Ok((_, ms)) ==> ms@.len() == mutable_types(d.params@).len(),
{
    let t = d.result_type();
    let ghost ts = seq![d.ret@] + mutable_types(d.params@);
    proof {
        lemma_dec_list_len(ts, bytes@);
    }
    let v = decode(&t, bytes)?;
    match v {
        Value::Tuple(mut vs) => {
            let ghost before = vs@;
            proof {
                lemma_view_values(before);
            }
            let x = vs.remove(0);
            proof {
                lemma_view_values(vs@);
                assert(view_values(before) =~= seq![x@] + view_values(vs@));
            }
            Ok((x, vs))
        },
        _ => Err(BridgeError::EncodingError),
    }
}


/// Mutable-echo ordering: for parameters `(a: immutable, b: mutable,
/// c: mutable)` and return type `T`, the result buffer holds `(T, b', c')`
/// in that order, and the caller's arguments become `(a, b', c')`.
pub proof fn lemma_mutable_echo(d: ProcedureDescriptor, ret: Val, args: Seq<Val>, b2: Val, c2: Val)
    requires
        d.params@.len() == 3,
        args.len() == 3,
        !d.params@[0].mutable,
        d.params@[1].mutable,
        d.params@[2].mutable,
    ensures
        d.result_ty() == Ty::Tuple(seq![d.ret@, d.params@[1].ty@, d.params@[2].ty@]),
        d.result_val(ret, args) == Val::Tuple(seq![ret, args[1], args[2]]),
        written_back(d.params@, args, seq![b2, c2]) == seq![args[0], b2, c2],
{
    let ps = d.params@;
    reveal_with_fuel(mutable_types, 4);
    reveal_with_fuel(mutable_args, 4);
    reveal_with_fuel(written_back, 4);
    assert(ps.drop_last().drop_last().drop_last() =~= Seq::<Param>::empty());
    assert(args.drop_last().drop_last().drop_last() =~= Seq::<Val>::empty());
    assert(mutable_types(ps.drop_last().drop_last()) =~= Seq::<Ty>::empty());
    assert(mutable_types(ps) =~= seq![ps[1].ty@, ps[2].ty@]);
    assert(seq![d.ret@] + mutable_types(ps) =~= seq![d.ret@, ps[1].ty@, ps[2].ty@]);
    assert(mutable_args(ps.drop_last().drop_last(), args.drop_last().drop_last()) =~= Seq::<
        Val,
    >::empty());
    assert(mutable_args(ps, args) =~= seq![args[1], args[2]]);
    assert(seq![ret] + mutable_args(ps, args) =~= seq![ret, args[1], args[2]]);
    let ms = seq![b2, c2];
    assert(ms.drop_last() =~= seq![b2]);
    assert(ms.drop_last().drop_last() =~= Seq::<Val>::empty());
    assert(written_back(ps.drop_last().drop_last(), args.drop_last().drop_last(), Seq::empty())
        =~= seq![args[0]]);
    assert(written_back(ps, args, ms) =~= seq![args[0], b2, c2]);
}

/// The arguments `a` with each mutable parameter's place taken from `p`.
pub open spec fn merged(ps: Seq<Param>, a: Seq<Val>, p: Seq<Val>) -> Seq<Val> {
    Seq::new(a.len(), |i: int| if ps[i].mutable { p[i] } else { a[i] })
}

/// Writing back the mutable values of `p` into `a` keeps `a` where the
/// parameter is immutable and takes `p` where it is mutable.
pub proof fn lemma_write_back_merges(ps: Seq<Param>, a: Seq<Val>, p: Seq<Val>)
    requires
        a.len() == ps.len(),
        p.len() == ps.len(),
    ensures
        written_back(ps, a, mutable_args(ps, p)) == merged(ps, a, p),
    decreases ps.len(),
{
    if ps.len() > 0 {
        let ms = mutable_args(ps, p);
        let ms0 = mutable_args(ps.drop_last(), p.drop_last());
        lemma_write_back_merges(ps.drop_last(), a.drop_last(), p.drop_last());
        if ps[ps.len() - 1].mutable {
            assert(ms.drop_last() =~= ms0);
        } else {
            assert(ms =~= ms0);
        }
        assert(written_back(ps, a, ms) =~= merged(ps, a, p));
    } else {
        assert(merged(ps, a, p) =~= Seq::<Val>::empty());
    }
}

/// A call carries its values faithfully: the guest decodes exactly the
/// arguments the host encoded; the host decodes exactly the result the
/// guest encoded; and writing that result back leaves the host's arguments
/// as the guest left the mutable ones and as they were otherwise.
pub proof fn lemma_call_round_trip(d: ProcedureDescriptor, a: Seq<Val>, ret: Val, p: Seq<Val>)
    requires
        has_type(Val::Tuple(a), d.args_ty()),
        has_type(d.result_val(ret, p), d.result_ty()),
        p.len() == d.params@.len(),
    ensures
        dec_exact(d.args_ty(), enc(Val::Tuple(a))) == Some(Val::Tuple(a)),
        dec_exact(d.result_ty(), enc(d.result_val(ret, p))) == Some(d.result_val(ret, p)),
        d.result_val(ret, p)->Tuple_0[0] == ret,
        written_back(d.params@, a, d.result_val(ret, p)->Tuple_0.drop_first()) == merged(
            d.params@,
            a,
            p,
        ),
{
    crate::codec::lemma_round_trip(Val::Tuple(a), d.args_ty());
    crate::codec::lemma_round_trip(d.result_val(ret, p), d.result_ty());
    let ms = mutable_args(d.params@, p);
    assert((seq![ret] + ms).drop_first() =~= ms);
    lemma_write_back_merges(d.params@, a, p);
}

/// Writing back the mutable arguments a call left untouched gives the
/// caller's arguments unchanged.
pub proof fn lemma_write_back_unchanged(ps: Seq<Param>, args: Seq<Val>)
    requires
        args.len() == ps.len(),
    ensures
        written_back(ps, args, mutable_args(ps, args)) == args,
{
    lemma_write_back_merges(ps, args, args);
    assert(merged(ps, args, args) =~= args);
}

proof fn lemma_mutable_count_prefix(ps: Seq<Param>, i: int)
    requires
        0 <= i <= ps.len(),
    ensures
        mutable_types(ps.take(i)).len() <= mutable_types(ps).len(),
    decreases ps.len(),
{
    if i < ps.len() {
        let shorter = ps.drop_last();
        assert(shorter.take(i) =~= ps.take(i));
        lemma_mutable_count_prefix(shorter, i);
    } else {
        assert(ps.take(i) =~= ps);
    }
}

/// Writes the post-call values `ms` of the mutable parameters back into the
/// caller's arguments, in declaration order; the other arguments keep their
/// values.
pub fn write_back(d: &ProcedureDescriptor, args: &mut Vec<Value>, ms: Vec<Value>)
    requires
        old(args)@.len() == d.params@.len(),
        ms@.len() == mutable_types(d.params@).len(),
    ensures
        view_values(final(args)@) == written_back(
            d.params@,
            view_values(old(args)@),
            view_values(ms@),
        ),
{
    let ghost a = view_values(args@);
    let ghost m = view_values(ms@);
    proof {
        lemma_view_values(args@);
        lemma_view_values(ms@);
        assert(d.params@.take(0) =~= Seq::<Param>::empty());
    }
    let mlen = ms.len();
    let mut out: Vec<Value> = Vec::new();
    let mut i: usize = 0;
    let mut j: usize = 0;
    while i < d.params.len()
        invariant
            i <= d.params@.len(),
            args@.len() == d.params@.len(),
            a == view_values(args@),
            a.len() == args@.len(),
            forall|k: int| 0 <= k < args@.len() ==> #[trigger] a[k] == args@[k]@,
            m == view_values(ms@),
            m.len() == ms@.len(),
            mlen == ms@.len(),
            forall|k: int| 0 <= k < ms@.len() ==> #[trigger] m[k] == ms@[k]@,
            ms@.len() == mutable_types(d.params@).len(),
            j == mutable_types(d.params@.take(i as int)).len(),
            view_values(out@) == written_back(
                d.params@.take(i as int),
                a.take(i as int),
                m.take(j as int),
            ),
        decreases d.params@.len() - i,
    {
        proof {
            lemma_mutable_count_prefix(d.params@, i + 1);
        }
        assert(d.params@.take(i + 1).drop_last() =~= d.params@.take(i as int));
        assert(a.take(i + 1).drop_last() =~= a.take(i as int));
        if d.params[i].mutable {
            assert(mutable_types(d.params@.take(i + 1)).len() == j + 1);
            assert(m.take(j + 1).drop_last() =~= m.take(j as int));
            let x = ms[j].duplicate();
            proof {
                lemma_view_values_push(out@, x);
            }
            out.push(x);
            j += 1;
        } else {
            let x = args[i].duplicate();
            proof {
                lemma_view_values_push(out@, x);
            }
            out.push(x);
        }
        i += 1;
    }
    assert(d.params@.take(i as int) =~= d.params@);
    assert(a.take(i as int) =~= a);
    assert(m.take(j as int) =~= m);
    *args = out;
}

} // verus!
