//! The canonical binary encoding of values exchanged across the boundary.
//!
//! Primitives are fixed-width little-endian; byte strings and sequences
//! carry a 64-bit length prefix; an optional value is a one-byte presence
//! flag followed by the payload; a tagged union is a 32-bit discriminant
//! followed by the active variant's payload; a tuple is the concatenation
//! of its elements. The receiver must know the expected type: nothing else
//! is tagged on the wire.
use vstd::bytes::*;
use vstd::prelude::*;
use vstd::slice::*;

use crate::error::BridgeError;

verus! {

/// The shape of a value, as both sides of the boundary expect it.
#[derive(Debug)]
pub enum ValueType {
    Unit,
    Bool,
    U8,
    U16,
    U32,
    U64,
    I32,
    I64,
    /// A length-prefixed byte string (text travels as its UTF-8 bytes).
    Bytes,
    Optional(Box<ValueType>),
    Sequence(Box<ValueType>),
    Tuple(Vec<ValueType>),
    /// A tagged union; variant `i` carries a payload of type `i`.
    Union(Vec<ValueType>),
}

/// The mathematical model of a [`ValueType`].
pub enum Ty {
    Unit,
    Bool,
    U8,
    U16,
    U32,
    U64,
    I32,
    I64,
    Bytes,
    Optional(Box<Ty>),
    Sequence(Box<Ty>),
    Tuple(Seq<Ty>),
    Union(Seq<Ty>),
}

pub open spec fn view_type(t: ValueType) -> Ty
    decreases t,
{
    match t {
        ValueType::Unit => Ty::Unit,
        ValueType::Bool => Ty::Bool,
        ValueType::U8 => Ty::U8,
        ValueType::U16 => Ty::U16,
        ValueType::U32 => Ty::U32,
        ValueType::U64 => Ty::U64,
        ValueType::I32 => Ty::I32,
        ValueType::I64 => Ty::I64,
        ValueType::Bytes => Ty::Bytes,
        ValueType::Optional(t2) => Ty::Optional(Box::new(view_type(*t2))),
        ValueType::Sequence(t2) => Ty::Sequence(Box::new(view_type(*t2))),
        ValueType::Tuple(ts) => Ty::Tuple(view_types(ts@)),
        ValueType::Union(ts) => Ty::Union(view_types(ts@)),
    }
}

pub open spec fn view_types(s: Seq<ValueType>) -> Seq<Ty>
    decreases s,
{
    if s.len() == 0 {
        Seq::empty()
    } else {
        seq![view_type(s[0])] + view_types(s.subrange(1, s.len() as int))
    }
}

impl View for ValueType {
    type V = Ty;

    open spec fn view(&self) -> Ty {
        view_type(*self)
    }
}

/// A value exchanged across the boundary.
#[derive(Debug)]
pub enum Value {
    Unit,
    Bool(bool),
    U8(u8),
    U16(u16),
    U32(u32),
    U64(u64),
    I32(i32),
    I64(i64),
    Bytes(Vec<u8>),
    Optional(Option<Box<Value>>),
    Sequence(Vec<Value>),
    Tuple(Vec<Value>),
    Variant(u32, Box<Value>),
}

/// The mathematical model of a [`Value`].
pub enum Val {
    Unit,
    Bool(bool),
    U8(u8),
    U16(u16),
    U32(u32),
    U64(u64),
    I32(i32),
    I64(i64),
    Bytes(Seq<u8>),
    Optional(Option<Box<Val>>),
    Sequence(Seq<Val>),
    Tuple(Seq<Val>),
    Variant(u32, Box<Val>),
}

pub open spec fn view_value(v: Value) -> Val
    decreases v,
{
    match v {
        Value::Unit => Val::Unit,
        Value::Bool(b) => Val::Bool(b),
        Value::U8(x) => Val::U8(x),
        Value::U16(x) => Val::U16(x),
        Value::U32(x) => Val::U32(x),
        Value::U64(x) => Val::U64(x),
        Value::I32(x) => Val::I32(x),
        Value::I64(x) => Val::I64(x),
        Value::Bytes(b) => Val::Bytes(b@),
        Value::Optional(o) => match o {
            None => Val::Optional(None),
            Some(x) => Val::Optional(Some(Box::new(view_value(*x)))),
        },
        Value::Sequence(vs) => Val::Sequence(view_values(vs@)),
        Value::Tuple(vs) => Val::Tuple(view_values(vs@)),
        Value::Variant(tag, x) => Val::Variant(tag, Box::new(view_value(*x))),
    }
}

pub open spec fn view_values(s: Seq<Value>) -> Seq<Val>
    decreases s,
{
    if s.len() == 0 {
        Seq::empty()
    } else {
        seq![view_value(s[0])] + view_values(s.subrange(1, s.len() as int))
    }
}

impl View for Value {
    type V = Val;

    open spec fn view(&self) -> Val {
        view_value(*self)
    }
}


impl ValueType {
    /// A structurally equal copy of this type.
    pub fn duplicate(&self) -> (r: ValueType)
        ensures
            r@ == self@,
        decreases self,
    {
        match self {
            ValueType::Unit => ValueType::Unit,
            ValueType::Bool => ValueType::Bool,
            ValueType::U8 => ValueType::U8,
            ValueType::U16 => ValueType::U16,
            ValueType::U32 => ValueType::U32,
            ValueType::U64 => ValueType::U64,
            ValueType::I32 => ValueType::I32,
            ValueType::I64 => ValueType::I64,
            ValueType::Bytes => ValueType::Bytes,
            ValueType::Optional(t) => ValueType::Optional(Box::new(t.duplicate())),
            ValueType::Sequence(t) => ValueType::Sequence(Box::new(t.duplicate())),
            ValueType::Tuple(ts) => ValueType::Tuple(duplicate_types(ts)),
            ValueType::Union(ts) => ValueType::Union(duplicate_types(ts)),
        }
    }
}

fn duplicate_types(ts: &Vec<ValueType>) -> (r: Vec<ValueType>)
    ensures
        view_types(r@) == view_types(ts@),
    decreases ts,
{
    proof {
        lemma_view_types(ts@);
    }
    let mut out: Vec<ValueType> = Vec::new();
    let mut i: usize = 0;
    while i < ts.len()
        invariant
            i <= ts@.len(),
            out@.len() == i,
            forall|k: int| 0 <= k < i ==> #[trigger] view_type(out@[k]) == view_type(ts@[k]),
        decreases ts@.len() - i,
    {
        let t = ts[i].duplicate();
        out.push(t);
        i += 1;
    }
    proof {
        lemma_view_types(out@);
    }
    assert(view_types(out@) =~= view_types(ts@));
    out
}

impl Value {
    /// A copy of this value, equal to it as a mathematical value.
    pub fn duplicate(&self) -> (r: Value)
        ensures
            r@ == self@,
        decreases self,
    {
        match self {
            Value::Unit => Value::Unit,
            Value::Bool(b) => Value::Bool(*b),
            Value::U8(x) => Value::U8(*x),
            Value::U16(x) => Value::U16(*x),
            Value::U32(x) => Value::U32(*x),
            Value::U64(x) => Value::U64(*x),
            Value::I32(x) => Value::I32(*x),
            Value::I64(x) => Value::I64(*x),
            Value::Bytes(b) => Value::Bytes(slice_to_vec(b.as_slice())),
            Value::Optional(o) => match o {
                None => Value::Optional(None),
                Some(x) => Value::Optional(Some(Box::new(x.duplicate()))),
            },
            Value::Sequence(vs) => Value::Sequence(duplicate_values(vs)),
            Value::Tuple(vs) => Value::Tuple(duplicate_values(vs)),
            Value::Variant(tag, x) => Value::Variant(*tag, Box::new(x.duplicate())),
        }
    }
}

/// Copies of the values of `vs`, in order.
pub fn duplicate_values(vs: &Vec<Value>) -> (r: Vec<Value>)
    ensures
        view_values(r@) == view_values(vs@),
    decreases vs,
{
    proof {
        lemma_view_values(vs@);
    }
    let mut out: Vec<Value> = Vec::new();
    let mut i: usize = 0;
    while i < vs.len()
        invariant
            i <= vs@.len(),
            out@.len() == i,
            forall|k: int| 0 <= k < i ==> #[trigger] view_value(out@[k]) == view_value(vs@[k]),
        decreases vs@.len() - i,
    {
        let v = vs[i].duplicate();
        out.push(v);
        i += 1;
    }
    proof {
        lemma_view_values(out@);
    }
    assert(view_values(out@) =~= view_values(vs@));
    out
}

/// Whether `v` is a value of type `t`.
pub fn check_type(v: &Value, t: &ValueType) -> (r: bool)
    ensures
        r == has_type(v@, t@),
    decreases v,
{
    match v {
        Value::Unit => matches!(t, ValueType::Unit),
        Value::Bool(_) => matches!(t, ValueType::Bool),
        Value::U8(_) => matches!(t, ValueType::U8),
        Value::U16(_) => matches!(t, ValueType::U16),
        Value::U32(_) => matches!(t, ValueType::U32),
        Value::U64(_) => matches!(t, ValueType::U64),
        Value::I32(_) => matches!(t, ValueType::I32),
        Value::I64(_) => matches!(t, ValueType::I64),
        Value::Bytes(b) => {
            let n = b.len();
            assert(n as int <= u64::MAX);
            matches!(t, ValueType::Bytes)
        },
        Value::Optional(o) => match t {
            ValueType::Optional(t2) => match o {
                None => true,
                Some(x) => check_type(x, t2),
            },
            _ => false,
        },
        Value::Sequence(vs) => match t {
            ValueType::Sequence(t2) => check_all(vs, t2),
            _ => false,
        },
        Value::Tuple(vs) => match t {
            ValueType::Tuple(ts) => check_each(vs, ts),
            _ => false,
        },
        Value::Variant(tag, x) => match t {
            ValueType::Union(ts) => {
                proof {
                    lemma_view_types(ts@);
                }
                if (*tag as usize) < ts.len() {
                    check_type(x, &ts[*tag as usize])
                } else {
                    false
                }
            },
            _ => false,
        },
    }
}

fn check_all(vs: &Vec<Value>, t: &ValueType) -> (r: bool)
    ensures
        r == (view_values(vs@).len() <= u64::MAX && forall|k: int|
            0 <= k < view_values(vs@).len() ==> has_type(#[trigger] view_values(vs@)[k], t@)),
    decreases vs,
{
    proof {
        lemma_view_values(vs@);
    }
    let n = vs.len();
    assert(n as int <= u64::MAX);
    let mut i: usize = 0;
    while i < n
        invariant
            i <= n,
            n == vs@.len(),
            view_values(vs@).len() == vs@.len(),
            forall|k: int| 0 <= k < vs@.len() ==> #[trigger] view_values(vs@)[k] == view_value(vs@[k]),
            forall|k: int| 0 <= k < i ==> has_type(#[trigger] view_values(vs@)[k], t@),
        decreases n - i,
    {
        if !check_type(&vs[i], t) {
            assert(!has_type(view_values(vs@)[i as int], t@));
            return false;
        }
        i += 1;
    }
    true
}

fn check_each(vs: &Vec<Value>, ts: &Vec<ValueType>) -> (r: bool)
    ensures
        r == (view_values(vs@).len() == view_types(ts@).len() && forall|k: int|
            0 <= k < view_values(vs@).len() ==> has_type(
                #[trigger] view_values(vs@)[k],
                view_types(ts@)[k],
            )),
    decreases vs,
{
    proof {
        lemma_view_values(vs@);
        lemma_view_types(ts@);
    }
    if vs.len() != ts.len() {
        return false;
    }
    let mut i: usize = 0;
    while i < vs.len()
        invariant
            i <= vs@.len(),
            vs@.len() == ts@.len(),
            view_values(vs@).len() == vs@.len(),
            view_types(ts@).len() == ts@.len(),
            forall|k: int| 0 <= k < vs@.len() ==> #[trigger] view_values(vs@)[k] == view_value(vs@[k]),
            forall|k: int| 0 <= k < ts@.len() ==> #[trigger] view_types(ts@)[k] == view_type(ts@[k]),
            forall|k: int|
                0 <= k < i ==> has_type(#[trigger] view_values(vs@)[k], view_types(ts@)[k]),
        decreases vs@.len() - i,
    {
        if !check_type(&vs[i], &ts[i]) {
            assert(!has_type(view_values(vs@)[i as int], view_types(ts@)[i as int]));
            return false;
        }
        i += 1;
    }
    true
}

/// The encoding of a value.
pub open spec fn enc(v: Val) -> Seq<u8>
    decreases v,
{
    match v {
        Val::Unit => Seq::empty(),
        Val::Bool(b) => seq![if b { 1u8 } else { 0u8 }],
        Val::U8(x) => seq![x],
        Val::U16(x) => spec_u16_to_le_bytes(x),
        Val::U32(x) => spec_u32_to_le_bytes(x),
        Val::U64(x) => spec_u64_to_le_bytes(x),
        Val::I32(x) => spec_u32_to_le_bytes(x as u32),
        Val::I64(x) => spec_u64_to_le_bytes(x as u64),
        Val::Bytes(b) => spec_u64_to_le_bytes(b.len() as u64) + b,
        Val::Optional(o) => match o {
            None => seq![0u8],
            Some(x) => seq![1u8] + enc(*x),
        },
        Val::Sequence(s) => spec_u64_to_le_bytes(s.len() as u64) + enc_all(s),
        Val::Tuple(s) => enc_all(s),
        Val::Variant(tag, x) => spec_u32_to_le_bytes(tag) + enc(*x),
    }
}

/// The concatenated encodings of a list of values, in order, without padding.
pub open spec fn enc_all(s: Seq<Val>) -> Seq<u8>
    decreases s,
{
    if s.len() == 0 {
        Seq::empty()
    } else {
        enc(s[0]) + enc_all(s.subrange(1, s.len() as int))
    }
}

/// `v` is a value of type `t` (and every length in it fits the 64-bit prefix).
pub open spec fn has_type(v: Val, t: Ty) -> bool
    decreases v,
{
    match v {
        Val::Unit => t is Unit,
        Val::Bool(_) => t is Bool,
        Val::U8(_) => t is U8,
        Val::U16(_) => t is U16,
        Val::U32(_) => t is U32,
        Val::U64(_) => t is U64,
        Val::I32(_) => t is I32,
        Val::I64(_) => t is I64,
        Val::Bytes(b) => t is Bytes && b.len() <= u64::MAX,
        Val::Optional(o) => match t {
            Ty::Optional(t2) => match o {
                None => true,
                Some(x) => has_type(*x, *t2),
            },
            _ => false,
        },
        Val::Sequence(s) => match t {
            Ty::Sequence(t2) => s.len() <= u64::MAX && forall|i: int|
                0 <= i < s.len() ==> has_type(#[trigger] s[i], *t2),
            _ => false,
        },
        Val::Tuple(s) => match t {
            Ty::Tuple(ts) => s.len() == ts.len() && forall|i: int|
                0 <= i < s.len() ==> has_type(#[trigger] s[i], ts[i]),
            _ => false,
        },
        Val::Variant(tag, x) => match t {
            Ty::Union(ts) => tag < ts.len() && has_type(*x, ts[tag as int]),
            _ => false,
        },
    }
}

pub proof fn lemma_view_values(s: Seq<Value>)
    ensures
        view_values(s).len() == s.len(),
        forall|i: int| 0 <= i < s.len() ==> #[trigger] view_values(s)[i] == view_value(s[i]),
    decreases s.len(),
{
    if s.len() > 0 {
        let rest = s.subrange(1, s.len() as int);
        lemma_view_values(rest);
        assert forall|i: int| 0 <= i < s.len() implies #[trigger] view_values(s)[i] == view_value(
            s[i],
        ) by {
            if i > 0 {
                assert(rest[i - 1] == s[i]);
            }
        }
    }
}

pub proof fn lemma_view_types(s: Seq<ValueType>)
    ensures
        view_types(s).len() == s.len(),
        forall|i: int|
            0 <= i < s.len() ==> #[trigger] view_types(s)[i] == view_type(s[i]) && view_types(s)[i]
                == s[i]@,
    decreases s.len(),
{
    if s.len() > 0 {
        let rest = s.subrange(1, s.len() as int);
        lemma_view_types(rest);
        assert forall|i: int| 0 <= i < s.len() implies #[trigger] view_types(s)[i] == view_type(
            s[i],
        ) by {
            if i > 0 {
                assert(rest[i - 1] == s[i]);
            }
        }
    }
}

proof fn lemma_enc_all_append(a: Seq<Val>, b: Seq<Val>)
    ensures
        enc_all(a + b) == enc_all(a) + enc_all(b),
    decreases a.len(),
{
    if a.len() == 0 {
        assert(a + b =~= b);
    } else {
        let rest = a.subrange(1, a.len() as int);
        lemma_enc_all_append(rest, b);
        assert((a + b).subrange(1, (a + b).len() as int) =~= rest + b);
        assert(enc_all(a + b) =~= enc_all(a) + enc_all(b));
    }
}

proof fn lemma_enc_all_push(s: Seq<Val>, x: Val)
    ensures
        enc_all(s.push(x)) == enc_all(s) + enc(x),
{
    lemma_enc_all_append(s, seq![x]);
    assert(s.push(x) =~= s + seq![x]);
    let one = seq![x];
    assert(one.subrange(1, 1) =~= Seq::<Val>::empty());
    assert(enc_all(one.subrange(1, 1)) =~= Seq::<u8>::empty());
    assert(enc_all(one) =~= enc(x));
}

/// Appends the encoding of `v` to `out`.
pub fn encode_into(v: &Value, out: &mut Vec<u8>)
    ensures
        final(out)@ == old(out)@ + enc(v@),
    decreases v,
{
    match v {
        Value::Unit => {},
        Value::Bool(b) => {
            out.push(if *b { 1u8 } else { 0u8 });
        },
        Value::U8(x) => {
            out.push(*x);
        },
        Value::U16(x) => {
            let mut b = u16_to_le_bytes(*x);
            out.append(&mut b);
        },
        Value::U32(x) => {
            let mut b = u32_to_le_bytes(*x);
            out.append(&mut b);
        },
        Value::U64(x) => {
            let mut b = u64_to_le_bytes(*x);
            out.append(&mut b);
        },
        Value::I32(x) => {
            let mut b = u32_to_le_bytes(#[verifier::truncate] (*x as u32));
            out.append(&mut b);
        },
        Value::I64(x) => {
            let mut b = u64_to_le_bytes(#[verifier::truncate] (*x as u64));
            out.append(&mut b);
        },
        Value::Bytes(bytes) => {
            let mut b = u64_to_le_bytes(bytes.len() as u64);
            out.append(&mut b);
            out.extend_from_slice(bytes.as_slice());
        },
        Value::Optional(o) => match o {
            None => {
                out.push(0u8);
            },
            Some(x) => {
                out.push(1u8);
                encode_into(x, out);
            },
        },
        Value::Sequence(vs) => {
            proof {
                lemma_view_values(vs@);
            }
            let mut b = u64_to_le_bytes(vs.len() as u64);
            out.append(&mut b);
            encode_all_into(vs, out);
        },
        Value::Tuple(vs) => {
            encode_all_into(vs, out);
        },
        Value::Variant(tag, x) => {
            let mut b = u32_to_le_bytes(*tag);
            out.append(&mut b);
            encode_into(x, out);
        },
    }
}

fn encode_all_into(vs: &Vec<Value>, out: &mut Vec<u8>)
    ensures
        final(out)@ == old(out)@ + enc_all(view_values(vs@)),
    decreases vs,
{
    let ghost start = out@;
    proof {
        lemma_view_values(vs@);
    }
    let mut i: usize = 0;
    while i < vs.len()
        invariant
            i <= vs@.len(),
            out@ == start + enc_all(view_values(vs@).take(i as int)),
            view_values(vs@).len() == vs@.len(),
            forall|k: int| 0 <= k < vs@.len() ==> #[trigger] view_values(vs@)[k] == view_value(vs@[k]),
        decreases vs@.len() - i,
    {
        encode_into(&vs[i], out);
        proof {
            let s = view_values(vs@);
            lemma_enc_all_push(s.take(i as int), s[i as int]);
            assert(s.take(i + 1) =~= s.take(i as int).push(s[i as int]));
        }
        i += 1;
    }
    assert(view_values(vs@).take(vs@.len() as int) =~= view_values(vs@));
}

/// The encoding of `v`.
pub fn encode(v: &Value) -> (r: Vec<u8>)
    ensures
        r@ == enc(v@),
{
    let mut out: Vec<u8> = Vec::new();
    encode_into(v, &mut out);
    assert(out@ =~= enc(v@));
    out
}


/// Sizes are tracked exactly up to `SIZE_CAP`; anything larger no longer
/// fits the 32-bit address space and is reported as `SIZE_CAP`.
const SIZE_CAP: u64 = 0x1_0000_0000;

pub open spec fn capped(n: nat) -> nat {
    if n < 0x1_0000_0000 {
        n
    } else {
        0x1_0000_0000
    }
}

proof fn lemma_le_bytes_lengths()
    ensures
        forall|x: u16| #[trigger] spec_u16_to_le_bytes(x).len() == 2,
        forall|x: u32| #[trigger] spec_u32_to_le_bytes(x).len() == 4,
        forall|x: u64| #[trigger] spec_u64_to_le_bytes(x).len() == 8,
{
    lemma_auto_spec_u16_to_from_le_bytes();
    lemma_auto_spec_u32_to_from_le_bytes();
    lemma_auto_spec_u64_to_from_le_bytes();
}

fn cap_add(a: u64, b: u64) -> (r: u64)
    requires
        a <= SIZE_CAP,
        b <= SIZE_CAP,
    ensures
        r as nat == capped(a as nat + b as nat),
{
    if a + b < SIZE_CAP {
        a + b
    } else {
        SIZE_CAP
    }
}

fn size_capped(v: &Value) -> (r: u64)
    ensures
        r as nat == capped(enc(v@).len()),
    decreases v,
{
    proof {
        lemma_le_bytes_lengths();
    }
    match v {
        Value::Unit => 0,
        Value::Bool(_) => 1,
        Value::U8(_) => 1,
        Value::U16(_) => 2,
        Value::U32(_) => 4,
        Value::U64(_) => 8,
        Value::I32(_) => 4,
        Value::I64(_) => 8,
        Value::Bytes(b) => {
            if b.len() as u64 >= SIZE_CAP {
                SIZE_CAP
            } else {
                cap_add(8, b.len() as u64)
            }
        },
        Value::Optional(o) => match o {
            None => 1,
            Some(x) => cap_add(1, size_capped(x)),
        },
        Value::Sequence(vs) => {
            proof {
                lemma_view_values(vs@);
            }
            cap_add(8, size_all_capped(vs))
        },
        Value::Tuple(vs) => size_all_capped(vs),
        Value::Variant(_, x) => cap_add(4, size_capped(x)),
    }
}

fn size_all_capped(vs: &Vec<Value>) -> (r: u64)
    ensures
        r as nat == capped(enc_all(view_values(vs@)).len()),
    decreases vs,
{
    proof {
        lemma_view_values(vs@);
    }
    let mut acc: u64 = 0;
    let mut i: usize = 0;
    while i < vs.len()
        invariant
            i <= vs@.len(),
            acc as nat == capped(enc_all(view_values(vs@).take(i as int)).len()),
            view_values(vs@).len() == vs@.len(),
            forall|k: int| 0 <= k < vs@.len() ==> #[trigger] view_values(vs@)[k] == view_value(vs@[k]),
        decreases vs@.len() - i,
    {
        let n = size_capped(&vs[i]);
        proof {
            let s = view_values(vs@);
            lemma_enc_all_push(s.take(i as int), s[i as int]);
            assert(s.take(i + 1) =~= s.take(i as int).push(s[i as int]));
        }
        acc = cap_add(acc, n);
        i += 1;
    }
    assert(view_values(vs@).take(vs@.len() as int) =~= view_values(vs@));
    acc
}

/// The length of the encoding of `v`, computed without encoding it; an
/// encoding that does not fit the 32-bit address space is refused.
pub fn encoded_size(v: &Value) -> (r: Result<u32, BridgeError>)
    ensures
        enc(v@).len() <= u32::MAX ==> r == Ok::<u32, BridgeError>(enc(v@).len() as u32),
        enc(v@).len() > u32::MAX ==> r == Err::<u32, BridgeError>(BridgeError::SizeOverflow),
{
    let n = size_capped(v);
    if n < SIZE_CAP {
        Ok(n as u32)
    } else {
        Err(BridgeError::SizeOverflow)
    }
}


/// What follows the first `k` bytes of `b`.
pub open spec fn after(b: Seq<u8>, k: int) -> Seq<u8> {
    b.subrange(k, b.len() as int)
}

/// Decodes a value of type `t` from the front of `b`: the value and the
/// number of bytes it occupies, or `None` where `b` does not start with one.
pub open spec fn dec(t: Ty, b: Seq<u8>) -> Option<(Val, nat)>
    decreases t, 0nat,
{
    match t {
        Ty::Unit => Some((Val::Unit, 0)),
        Ty::Bool => if b.len() >= 1 && b[0] <= 1 {
            Some((Val::Bool(b[0] == 1), 1))
        } else {
            None
        },
        Ty::U8 => if b.len() >= 1 {
            Some((Val::U8(b[0]), 1))
        } else {
            None
        },
        Ty::U16 => if b.len() >= 2 {
            Some((Val::U16(spec_u16_from_le_bytes(b.subrange(0, 2))), 2))
        } else {
            None
        },
        Ty::U32 => if b.len() >= 4 {
            Some((Val::U32(spec_u32_from_le_bytes(b.subrange(0, 4))), 4))
        } else {
            None
        },
        Ty::U64 => if b.len() >= 8 {
            Some((Val::U64(spec_u64_from_le_bytes(b.subrange(0, 8))), 8))
        } else {
            None
        },
        Ty::I32 => if b.len() >= 4 {
            Some((Val::I32(spec_u32_from_le_bytes(b.subrange(0, 4)) as i32), 4))
        } else {
            None
        },
        Ty::I64 => if b.len() >= 8 {
            Some((Val::I64(spec_u64_from_le_bytes(b.subrange(0, 8)) as i64), 8))
        } else {
            None
        },
        Ty::Bytes => if b.len() >= 8 {
            let n = spec_u64_from_le_bytes(b.subrange(0, 8));
            if b.len() >= 8 + n {
                Some((Val::Bytes(b.subrange(8, 8 + n)), (8 + n) as nat))
            } else {
                None
            }
        } else {
            None
        },
        Ty::Optional(t2) => if b.len() >= 1 && b[0] == 0 {
            Some((Val::Optional(None), 1))
        } else if b.len() >= 1 && b[0] == 1 {
            match dec(*t2, after(b, 1)) {
                Some((x, k)) => Some((Val::Optional(Some(Box::new(x))), 1 + k)),
                None => None,
            }
        } else {
            None
        },
        Ty::Sequence(t2) => if b.len() >= 8 {
            let n = spec_u64_from_le_bytes(b.subrange(0, 8));
            match dec_n(*t2, after(b, 8), n as nat) {
                Some((s, k)) => Some((Val::Sequence(s), 8 + k)),
                None => None,
            }
        } else {
            None
        },
        Ty::Tuple(ts) => match dec_list(ts, b) {
            Some((s, k)) => Some((Val::Tuple(s), k)),
            None => None,
        },
        Ty::Union(ts) => if b.len() >= 4 {
            let tag = spec_u32_from_le_bytes(b.subrange(0, 4));
            if tag < ts.len() {
                match dec(ts[tag as int], after(b, 4)) {
                    Some((x, k)) => Some((Val::Variant(tag, Box::new(x)), 4 + k)),
                    None => None,
                }
            } else {
                None
            }
        } else {
            None
        },
    }
}

/// Decodes `n` consecutive values of type `t` from the front of `b`.
pub open spec fn dec_n(t: Ty, b: Seq<u8>, n: nat) -> Option<(Seq<Val>, nat)>
    decreases t, n + 1,
{
    if n == 0 {
        Some((Seq::empty(), 0))
    } else {
        match dec(t, b) {
            Some((x, k)) => match dec_n(t, after(b, k as int), (n - 1) as nat) {
                Some((s, k2)) => Some((seq![x] + s, k + k2)),
                None => None,
            },
            None => None,
        }
    }
}

/// Decodes one value of each type of `ts`, in order, from the front of `b`.
pub open spec fn dec_list(ts: Seq<Ty>, b: Seq<u8>) -> Option<(Seq<Val>, nat)>
    decreases ts, 0nat,
{
    if ts.len() == 0 {
        Some((Seq::empty(), 0))
    } else {
        match dec(ts[0], b) {
            Some((x, k)) => match dec_list(ts.subrange(1, ts.len() as int), after(b, k as int)) {
                Some((s, k2)) => Some((seq![x] + s, k + k2)),
                None => None,
            },
            None => None,
        }
    }
}

/// A list decoding holds one value per type.
pub proof fn lemma_dec_list_len(ts: Seq<Ty>, b: Seq<u8>)
    ensures
        dec_list(ts, b) matches Some((s, _)) ==> s.len() == ts.len(),
    decreases ts.len(),
{
    if ts.len() > 0 {
        if let Some((x, k)) = dec(ts[0], b) {
            lemma_dec_list_len(ts.subrange(1, ts.len() as int), after(b, k as int));
        }
    }
}

/// Decodes a value of type `t` that occupies all of `b`.
pub open spec fn dec_exact(t: Ty, b: Seq<u8>) -> Option<Val> {
    match dec(t, b) {
        Some((v, k)) => if k == b.len() {
            Some(v)
        } else {
            None
        },
        None => None,
    }
}


proof fn lemma_le_bytes_round_trip()
    ensures
        forall|x: u16|
            #![trigger spec_u16_to_le_bytes(x)]
            spec_u16_to_le_bytes(x).len() == 2 && spec_u16_from_le_bytes(spec_u16_to_le_bytes(x))
                == x,
        forall|x: u32|
            #![trigger spec_u32_to_le_bytes(x)]
            spec_u32_to_le_bytes(x).len() == 4 && spec_u32_from_le_bytes(spec_u32_to_le_bytes(x))
                == x,
        forall|x: u64|
            #![trigger spec_u64_to_le_bytes(x)]
            spec_u64_to_le_bytes(x).len() == 8 && spec_u64_from_le_bytes(spec_u64_to_le_bytes(x))
                == x,
{
    lemma_auto_spec_u16_to_from_le_bytes();
    lemma_auto_spec_u32_to_from_le_bytes();
    lemma_auto_spec_u64_to_from_le_bytes();
    assert forall|x: u16|
        #![trigger spec_u16_to_le_bytes(x)]
        spec_u16_to_le_bytes(x).len() == 2 && spec_u16_from_le_bytes(spec_u16_to_le_bytes(x))
            == x by {
        assert(spec_u16_to_le_bytes(x).len() == 2);
    }
}

/// Decoding the encoding of a well-typed value, followed by anything at
/// all, gives back that value and stops exactly at its end.
pub proof fn lemma_dec_enc(v: Val, t: Ty, rest: Seq<u8>)
    requires
        has_type(v, t),
    ensures
        dec(t, enc(v) + rest) == Some((v, enc(v).len())),
    decreases v,
{
    lemma_le_bytes_round_trip();
    let b = enc(v) + rest;
    match v {
        Val::Unit => {},
        Val::Bool(x) => {
            assert(b[0] == enc(v)[0]);
        },
        Val::U8(x) => {
            assert(b[0] == enc(v)[0]);
        },
        Val::U16(x) => {
            assert(b.subrange(0, 2) =~= spec_u16_to_le_bytes(x));
        },
        Val::U32(x) => {
            assert(b.subrange(0, 4) =~= spec_u32_to_le_bytes(x));
        },
        Val::U64(x) => {
            assert(b.subrange(0, 8) =~= spec_u64_to_le_bytes(x));
        },
        Val::I32(x) => {
            assert(b.subrange(0, 4) =~= spec_u32_to_le_bytes(x as u32));
            assert((x as u32) as i32 == x) by (bit_vector);
        },
        Val::I64(x) => {
            assert(b.subrange(0, 8) =~= spec_u64_to_le_bytes(x as u64));
            assert((x as u64) as i64 == x) by (bit_vector);
        },
        Val::Bytes(bs) => {
            let n = bs.len() as u64;
            assert(b.subrange(0, 8) =~= spec_u64_to_le_bytes(n));
            assert(b.subrange(8, 8 + bs.len() as int) =~= bs);
        },
        Val::Optional(o) => match o {
            None => {},
            Some(x) => {
                let t2 = t->Optional_0;
                lemma_dec_enc(*x, *t2, rest);
                assert(after(b, 1) =~= enc(*x) + rest);
            },
        },
        Val::Sequence(s) => {
            let t2 = t->Sequence_0;
            assert(b.subrange(0, 8) =~= spec_u64_to_le_bytes(s.len() as u64));
            lemma_dec_n_enc_all(s, *t2, rest);
            assert(after(b, 8) =~= enc_all(s) + rest);
        },
        Val::Tuple(s) => {
            let ts = t->Tuple_0;
            lemma_dec_list_enc_all(s, ts, rest);
        },
        Val::Variant(tag, x) => {
            let ts = t->Union_0;
            assert(b.subrange(0, 4) =~= spec_u32_to_le_bytes(tag));
            lemma_dec_enc(*x, ts[tag as int], rest);
            assert(after(b, 4) =~= enc(*x) + rest);
        },
    }
}

proof fn lemma_dec_n_enc_all(s: Seq<Val>, t: Ty, rest: Seq<u8>)
    requires
        forall|i: int| 0 <= i < s.len() ==> has_type(#[trigger] s[i], t),
    ensures
        dec_n(t, enc_all(s) + rest, s.len()) == Some((s, enc_all(s).len())),
    decreases s,
{
    if s.len() > 0 {
        let tail = s.subrange(1, s.len() as int);
        let b = enc_all(s) + rest;
        lemma_dec_enc(s[0], t, enc_all(tail) + rest);
        assert(b =~= enc(s[0]) + (enc_all(tail) + rest));
        lemma_dec_n_enc_all(tail, t, rest);
        assert(after(b, enc(s[0]).len() as int) =~= enc_all(tail) + rest);
        assert(seq![s[0]] + tail =~= s);
    }
}

proof fn lemma_dec_list_enc_all(s: Seq<Val>, ts: Seq<Ty>, rest: Seq<u8>)
    requires
        s.len() == ts.len(),
        forall|i: int| 0 <= i < s.len() ==> has_type(#[trigger] s[i], ts[i]),
    ensures
        dec_list(ts, enc_all(s) + rest) == Some((s, enc_all(s).len())),
    decreases s,
{
    if s.len() > 0 {
        let tail = s.subrange(1, s.len() as int);
        let ttail = ts.subrange(1, ts.len() as int);
        let b = enc_all(s) + rest;
        lemma_dec_enc(s[0], ts[0], enc_all(tail) + rest);
        assert(b =~= enc(s[0]) + (enc_all(tail) + rest));
        assert forall|i: int| 0 <= i < tail.len() implies has_type(#[trigger] tail[i], ttail[i]) by {
            assert(tail[i] == s[i + 1]);
        }
        lemma_dec_list_enc_all(tail, ttail, rest);
        assert(after(b, enc(s[0]).len() as int) =~= enc_all(tail) + rest);
        assert(seq![s[0]] + tail =~= s);
    }
}

/// Round trip: a well-typed value decodes from its own encoding.
pub proof fn lemma_round_trip(v: Val, t: Ty)
    requires
        has_type(v, t),
    ensures
        dec_exact(t, enc(v)) == Some(v),
{
    lemma_dec_enc(v, t, Seq::empty());
    assert(enc(v) + Seq::<u8>::empty() =~= enc(v));
}


proof fn lemma_le_bytes_canonical()
    ensures
        forall|b: Seq<u8>|
            b.len() == 2 ==> #[trigger] spec_u16_to_le_bytes(spec_u16_from_le_bytes(b)) == b,
        forall|b: Seq<u8>|
            b.len() == 4 ==> #[trigger] spec_u32_to_le_bytes(spec_u32_from_le_bytes(b)) == b,
        forall|b: Seq<u8>|
            b.len() == 8 ==> #[trigger] spec_u64_to_le_bytes(spec_u64_from_le_bytes(b)) == b,
{
    lemma_auto_spec_u16_to_from_le_bytes();
    lemma_auto_spec_u32_to_from_le_bytes();
    lemma_auto_spec_u64_to_from_le_bytes();
}

/// Decoding is sound and canonical: what `dec` accepts is a well-typed
/// value whose encoding is exactly the bytes it consumed.
pub proof fn lemma_dec_sound(t: Ty, b: Seq<u8>)
    ensures
        dec(t, b) matches Some((v, k)) ==> k <= b.len() && has_type(v, t) && enc(v) == b.subrange(
            0,
            k as int,
        ),
    decreases t, 0nat,
{
    lemma_le_bytes_round_trip();
    lemma_le_bytes_canonical();
    if let Some((v, k)) = dec(t, b) {
        match t {
            Ty::Unit => {
                assert(b.subrange(0, 0) =~= Seq::<u8>::empty());
            },
            Ty::Bool => {
                assert(b.subrange(0, 1) =~= seq![b[0]]);
            },
            Ty::U8 => {
                assert(b.subrange(0, 1) =~= seq![b[0]]);
            },
            Ty::U16 => {},
            Ty::U32 => {},
            Ty::U64 => {},
            Ty::I32 => {
                let x = spec_u32_from_le_bytes(b.subrange(0, 4));
                assert((x as i32) as u32 == x) by (bit_vector);
            },
            Ty::I64 => {
                let x = spec_u64_from_le_bytes(b.subrange(0, 8));
                assert((x as i64) as u64 == x) by (bit_vector);
            },
            Ty::Bytes => {
                let n = spec_u64_from_le_bytes(b.subrange(0, 8));
                let body = b.subrange(8, 8 + n);
                assert(body.len() as u64 == n);
                assert(b.subrange(0, k as int) =~= b.subrange(0, 8) + body);
            },
            Ty::Optional(t2) => {
                if b[0] == 0 {
                    assert(b.subrange(0, 1) =~= seq![0u8]);
                } else {
                    let rest = after(b, 1);
                    lemma_dec_sound(*t2, rest);
                    let (x, k2) = dec(*t2, rest)->Some_0;
                    assert(b.subrange(0, k as int) =~= seq![1u8] + rest.subrange(0, k2 as int));
                }
            },
            Ty::Sequence(t2) => {
                let n = spec_u64_from_le_bytes(b.subrange(0, 8));
                let rest = after(b, 8);
                lemma_dec_n_sound(*t2, rest, n as nat);
                let (s, k2) = dec_n(*t2, rest, n as nat)->Some_0;
                assert(s.len() as u64 == n);
                assert(b.subrange(0, k as int) =~= b.subrange(0, 8) + rest.subrange(0, k2 as int));
            },
            Ty::Tuple(ts) => {
                lemma_dec_list_sound(ts, b);
            },
            Ty::Union(ts) => {
                let tag = spec_u32_from_le_bytes(b.subrange(0, 4));
                let rest = after(b, 4);
                lemma_dec_sound(ts[tag as int], rest);
                let (x, k2) = dec(ts[tag as int], rest)->Some_0;
                assert(b.subrange(0, k as int) =~= b.subrange(0, 4) + rest.subrange(0, k2 as int));
            },
        }
    }
}

proof fn lemma_dec_n_sound(t: Ty, b: Seq<u8>, n: nat)
    ensures
        dec_n(t, b, n) matches Some((s, k)) ==> {
            &&& k <= b.len()
            &&& s.len() == n
            &&& forall|i: int| 0 <= i < s.len() ==> has_type(#[trigger] s[i], t)
            &&& enc_all(s) == b.subrange(0, k as int)
        },
    decreases t, n + 1,
{
    if n == 0 {
        assert(b.subrange(0, 0) =~= Seq::<u8>::empty());
    } else if let Some((x, k1)) = dec(t, b) {
        lemma_dec_sound(t, b);
        let rest = after(b, k1 as int);
        lemma_dec_n_sound(t, rest, (n - 1) as nat);
        if let Some((s2, k2)) = dec_n(t, rest, (n - 1) as nat) {
            let s = seq![x] + s2;
            assert(s.subrange(1, s.len() as int) =~= s2);
            assert(s[0] == x);
            assert(b.subrange(0, (k1 + k2) as int) =~= b.subrange(0, k1 as int) + rest.subrange(
                0,
                k2 as int,
            ));
            assert forall|i: int| 0 <= i < s.len() implies has_type(#[trigger] s[i], t) by {
                if i > 0 {
                    assert(s[i] == s2[i - 1]);
                }
            }
        }
    }
}

proof fn lemma_dec_list_sound(ts: Seq<Ty>, b: Seq<u8>)
    ensures
        dec_list(ts, b) matches Some((s, k)) ==> {
            &&& k <= b.len()
            &&& s.len() == ts.len()
            &&& forall|i: int| 0 <= i < s.len() ==> has_type(#[trigger] s[i], ts[i])
            &&& enc_all(s) == b.subrange(0, k as int)
        },
    decreases ts, 0nat,
{
    if ts.len() == 0 {
        assert(b.subrange(0, 0) =~= Seq::<u8>::empty());
    } else if let Some((x, k1)) = dec(ts[0], b) {
        lemma_dec_sound(ts[0], b);
        let rest = after(b, k1 as int);
        let ttail = ts.subrange(1, ts.len() as int);
        lemma_dec_list_sound(ttail, rest);
        if let Some((s2, k2)) = dec_list(ttail, rest) {
            let s = seq![x] + s2;
            assert(s.subrange(1, s.len() as int) =~= s2);
            assert(s[0] == x);
            assert(b.subrange(0, (k1 + k2) as int) =~= b.subrange(0, k1 as int) + rest.subrange(
                0,
                k2 as int,
            ));
            assert forall|i: int| 0 <= i < s.len() implies has_type(#[trigger] s[i], ts[i]) by {
                if i > 0 {
                    assert(s[i] == s2[i - 1]);
                    assert(ts[i] == ttail[i - 1]);
                }
            }
        }
    }
}

/// Canonical decoding: a buffer decodes only to a well-typed value whose
/// encoding is that very buffer.
pub proof fn lemma_decode_canonical(t: Ty, b: Seq<u8>)
    ensures
        dec_exact(t, b) matches Some(v) ==> has_type(v, t) && enc(v) == b,
{
    lemma_dec_sound(t, b);
    if let Some((v, k)) = dec(t, b) {
        assert(b.subrange(0, b.len() as int) =~= b);
    }
}

/// `s` and `k` followed by a further decoding result `r`.
pub open spec fn joined(s: Seq<Val>, k: nat, r: Option<(Seq<Val>, nat)>) -> Option<(Seq<Val>, nat)> {
    match r {
        Some((s2, k2)) => Some((s + s2, k + k2)),
        None => None,
    }
}

pub proof fn lemma_view_values_push(s: Seq<Value>, x: Value)
    ensures
        view_values(s.push(x)) == view_values(s).push(view_value(x)),
{
    lemma_view_values(s);
    lemma_view_values(s.push(x));
    assert(view_values(s.push(x)) =~= view_values(s).push(view_value(x)));
}

proof fn lemma_after_after(b: Seq<u8>, p: int, k: int)
    requires
        0 <= p,
        0 <= k,
        p + k <= b.len(),
    ensures
        after(after(b, p), k) == after(b, p + k),
{
    assert(after(after(b, p), k) =~= after(b, p + k));
}

fn decode_at(t: &ValueType, b: &[u8], pos: usize) -> (r: Option<(Value, usize)>)
    requires
        pos <= b@.len(),
    ensures
        match dec(t@, after(b@, pos as int)) {
            Some((x, k)) => r matches Some((v, p)) && v@ == x && p == pos + k && p <= b@.len(),
            None => r is None,
        },
    decreases t, 0nat,
{
    proof {
        lemma_le_bytes_lengths();
    }
    let len = b.len();
    let ghost rb = after(b@, pos as int);
    match t {
        ValueType::Unit => Some((Value::Unit, pos)),
        ValueType::Bool => {
            if pos < len && b[pos] <= 1 {
                Some((Value::Bool(b[pos] == 1), pos + 1))
            } else {
                None
            }
        },
        ValueType::U8 => {
            if pos < len {
                Some((Value::U8(b[pos]), pos + 1))
            } else {
                None
            }
        },
        ValueType::U16 => {
            if len - pos >= 2 {
                let x = u16_from_le_bytes(slice_subrange(b, pos, pos + 2));
                assert(b@.subrange(pos as int, pos + 2) =~= rb.subrange(0, 2));
                Some((Value::U16(x), pos + 2))
            } else {
                None
            }
        },
        ValueType::U32 => {
            if len - pos >= 4 {
                let x = u32_from_le_bytes(slice_subrange(b, pos, pos + 4));
                assert(b@.subrange(pos as int, pos + 4) =~= rb.subrange(0, 4));
                Some((Value::U32(x), pos + 4))
            } else {
                None
            }
        },
        ValueType::U64 => {
            if len - pos >= 8 {
                let x = u64_from_le_bytes(slice_subrange(b, pos, pos + 8));
                assert(b@.subrange(pos as int, pos + 8) =~= rb.subrange(0, 8));
                Some((Value::U64(x), pos + 8))
            } else {
                None
            }
        },
        ValueType::I32 => {
            if len - pos >= 4 {
                let x = u32_from_le_bytes(slice_subrange(b, pos, pos + 4));
                assert(b@.subrange(pos as int, pos + 4) =~= rb.subrange(0, 4));
                Some((Value::I32(#[verifier::truncate] (x as i32)), pos + 4))
            } else {
                None
            }
        },
        ValueType::I64 => {
            if len - pos >= 8 {
                let x = u64_from_le_bytes(slice_subrange(b, pos, pos + 8));
                assert(b@.subrange(pos as int, pos + 8) =~= rb.subrange(0, 8));
                Some((Value::I64(#[verifier::truncate] (x as i64)), pos + 8))
            } else {
                None
            }
        },
        ValueType::Bytes => {
            if len - pos >= 8 {
                let n = u64_from_le_bytes(slice_subrange(b, pos, pos + 8));
                assert(b@.subrange(pos as int, pos + 8) =~= rb.subrange(0, 8));
                if n <= (len - pos - 8) as u64 {
                    let n = n as usize;
                    let bytes = slice_to_vec(slice_subrange(b, pos + 8, pos + 8 + n));
                    assert(bytes@ =~= rb.subrange(8, 8 + n));
                    Some((Value::Bytes(bytes), pos + 8 + n))
                } else {
                    None
                }
            } else {
                None
            }
        },
        ValueType::Optional(t2) => {
            if pos < len && b[pos] == 0 {
                Some((Value::Optional(None), pos + 1))
            } else if pos < len && b[pos] == 1 {
                proof {
                    lemma_after_after(b@, pos as int, 1);
                }
                match decode_at(t2, b, pos + 1) {
                    Some((x, p)) => Some((Value::Optional(Some(Box::new(x))), p)),
                    None => None,
                }
            } else {
                None
            }
        },
        ValueType::Sequence(t2) => {
            if len - pos >= 8 {
                let n = u64_from_le_bytes(slice_subrange(b, pos, pos + 8));
                assert(b@.subrange(pos as int, pos + 8) =~= rb.subrange(0, 8));
                proof {
                    lemma_after_after(b@, pos as int, 8);
                }
                match decode_n(t2, b, pos + 8, n) {
                    Some((vs, p)) => Some((Value::Sequence(vs), p)),
                    None => None,
                }
            } else {
                None
            }
        },
        ValueType::Tuple(ts) => match decode_list(ts, b, pos) {
            Some((vs, p)) => Some((Value::Tuple(vs), p)),
            None => None,
        },
        ValueType::Union(ts) => {
            if len - pos >= 4 {
                let tag = u32_from_le_bytes(slice_subrange(b, pos, pos + 4));
                assert(b@.subrange(pos as int, pos + 4) =~= rb.subrange(0, 4));
                proof {
                    lemma_view_types(ts@);
                }
                if (tag as usize) < ts.len() {
                    proof {
                        lemma_after_after(b@, pos as int, 4);
                    }
                    match decode_at(&ts[tag as usize], b, pos + 4) {
                        Some((x, p)) => Some((Value::Variant(tag, Box::new(x)), p)),
                        None => None,
                    }
                } else {
                    None
                }
            } else {
                None
            }
        },
    }
}

fn decode_n(t: &ValueType, b: &[u8], pos: usize, n: u64) -> (r: Option<(Vec<Value>, usize)>)
    requires
        pos <= b@.len(),
    ensures
        match dec_n(t@, after(b@, pos as int), n as nat) {
            Some((s, k)) => r matches Some((vs, p)) && view_values(vs@) == s && p == pos + k && p
                <= b@.len(),
            None => r is None,
        },
    decreases t, 1nat,
{
    let mut out: Vec<Value> = Vec::new();
    let mut p = pos;
    let mut i: u64 = 0;
    while i < n
        invariant
            pos <= p <= b@.len(),
            i <= n,
            dec_n(t@, after(b@, pos as int), n as nat) == joined(
                view_values(out@),
                (p - pos) as nat,
                dec_n(t@, after(b@, p as int), (n - i) as nat),
            ),
        decreases n - i,
    {
        match decode_at(t, b, p) {
            Some((x, q)) => {
                proof {
                    lemma_after_after(b@, p as int, q - p);
                    lemma_view_values_push(out@, x);
                }
                out.push(x);
                p = q;
                i += 1;
            },
            None => {
                return None;
            },
        }
    }
    assert(view_values(out@) + Seq::<Val>::empty() =~= view_values(out@));
    Some((out, p))
}

fn decode_list(ts: &Vec<ValueType>, b: &[u8], pos: usize) -> (r: Option<(Vec<Value>, usize)>)
    requires
        pos <= b@.len(),
    ensures
        match dec_list(view_types(ts@), after(b@, pos as int)) {
            Some((s, k)) => r matches Some((vs, p)) && view_values(vs@) == s && p == pos + k && p
                <= b@.len(),
            None => r is None,
        },
    decreases ts, 1nat,
{
    let mut out: Vec<Value> = Vec::new();
    let mut p = pos;
    let mut i: usize = 0;
    proof {
        lemma_view_types(ts@);
    }
    assert(view_types(ts@).subrange(0, ts@.len() as int) =~= view_types(ts@));
    while i < ts.len()
        invariant
            pos <= p <= b@.len(),
            i <= ts@.len(),
            view_types(ts@).len() == ts@.len(),
            forall|k: int| 0 <= k < ts@.len() ==> #[trigger] view_types(ts@)[k] == view_type(ts@[k]),
            dec_list(view_types(ts@), after(b@, pos as int)) == joined(
                view_values(out@),
                (p - pos) as nat,
                dec_list(view_types(ts@).subrange(i as int, ts@.len() as int), after(b@, p as int)),
            ),
        decreases ts@.len() - i,
    {
        let ghost rest = view_types(ts@).subrange(i as int, ts@.len() as int);
        assert(rest[0] == view_types(ts@)[i as int]);
        assert(rest.subrange(1, rest.len() as int) =~= view_types(ts@).subrange(
            i + 1,
            ts@.len() as int,
        ));
        match decode_at(&ts[i], b, p) {
            Some((x, q)) => {
                proof {
                    lemma_after_after(b@, p as int, q - p);
                    lemma_view_values_push(out@, x);
                }
                out.push(x);
                p = q;
                i += 1;
            },
            None => {
                return None;
            },
        }
    }
    assert(view_values(out@) + Seq::<Val>::empty() =~= view_values(out@));
    Some((out, p))
}

/// Decodes a value of type `t` that occupies all of `b`; anything else is
/// an encoding error.
pub fn decode(t: &ValueType, b: &[u8]) -> (r: Result<Value, BridgeError>)
    ensures
        match dec_exact(t@, b@) {
            Some(v) => r matches Ok(x) && x@ == v,
            None => r == Err::<Value, BridgeError>(BridgeError::EncodingError),
        },
        r matches Ok(x) ==> has_type(x@, t@) && enc(x@) == b@,
{
    proof {
        lemma_decode_canonical(t@, b@);
    }
    assert(after(b@, 0) =~= b@);
    match decode_at(t, b, 0) {
        Some((v, p)) => {
            if p == b.len() {
                Ok(v)
            } else {
                Err(BridgeError::EncodingError)
            }
        },
        None => Err(BridgeError::EncodingError),
    }
}

} // verus!
