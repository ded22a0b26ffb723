//! Application values carried across the bridge as payloads.
//!
//! The bridge does not interpret these; it carries them as tagged unions
//! whose variants hold the raw text.
use vstd::prelude::*;

use crate::codec::{view_types, Ty, Val, Value, ValueType};

verus! {

/// The local part of an e-mail address, as it was written.
#[derive(Debug, PartialEq, Eq)]
pub enum Localpart<S> {
    Ascii { raw: S },
    Quoted { raw: S },
    Utf8 { raw: S },
    QuotedUtf8 { raw: S },
}

impl<S> Localpart<S> {
    /// The raw text of the local part.
    pub fn raw(&self) -> (r: &S)
        ensures
            *r == match *self {
                Localpart::Ascii { raw } => raw,
                Localpart::Quoted { raw } => raw,
                Localpart::Utf8 { raw } => raw,
                Localpart::QuotedUtf8 { raw } => raw,
            },
    {
        match self {
            Localpart::Ascii { raw } => raw,
            Localpart::Quoted { raw } => raw,
            Localpart::Utf8 { raw } => raw,
            Localpart::QuotedUtf8 { raw } => raw,
        }
    }

    /// The variant's position in declaration order.
    pub open spec fn tag(&self) -> u32 {
        match *self {
            Localpart::Ascii { .. } => 0,
            Localpart::Quoted { .. } => 1,
            Localpart::Utf8 { .. } => 2,
            Localpart::QuotedUtf8 { .. } => 3,
        }
    }
}

/// The wire type of a local part: a union of four byte strings.
pub open spec fn localpart_ty() -> Ty {
    Ty::Union(seq![Ty::Bytes, Ty::Bytes, Ty::Bytes, Ty::Bytes])
}

/// The wire type of a local part.
pub fn localpart_type() -> (r: ValueType)
    ensures
        r@ == localpart_ty(),
{
    let ts = vec![ValueType::Bytes, ValueType::Bytes, ValueType::Bytes, ValueType::Bytes];
    assert(view_types(ts@) =~= seq![Ty::Bytes, Ty::Bytes, Ty::Bytes, Ty::Bytes]) by {
        reveal_with_fuel(view_types, 5);
        assert(ts@.subrange(1, 4) =~= seq![ValueType::Bytes, ValueType::Bytes, ValueType::Bytes]);
        assert(ts@.subrange(1, 4).subrange(1, 3) =~= seq![ValueType::Bytes, ValueType::Bytes]);
        assert(ts@.subrange(1, 4).subrange(1, 3).subrange(1, 2) =~= seq![ValueType::Bytes]);
        assert(ts@.subrange(1, 4).subrange(1, 3).subrange(1, 2).subrange(1, 1) =~= Seq::<
            ValueType,
        >::empty());
    }
    ValueType::Union(ts)
}

impl Localpart<Vec<u8>> {
    /// The local part as a value for the wire.
    pub fn to_value(&self) -> (r: Value)
        ensures
            r@ == Val::Variant(self.tag(), Box::new(Val::Bytes(self.raw_view()))),
    {
        let bytes = vstd::slice::slice_to_vec(self.raw().as_slice());
        let tag: u32 = match self {
            Localpart::Ascii { .. } => 0,
            Localpart::Quoted { .. } => 1,
            Localpart::Utf8 { .. } => 2,
            Localpart::QuotedUtf8 { .. } => 3,
        };
        let inner = Value::Bytes(bytes);
        assert(inner@ == Val::Bytes(bytes@));
        Value::Variant(tag, Box::new(inner))
    }

    /// The raw bytes of the local part.
    pub open spec fn raw_view(&self) -> Seq<u8> {
        match *self {
            Localpart::Ascii { raw } => raw@,
            Localpart::Quoted { raw } => raw@,
            Localpart::Utf8 { raw } => raw@,
            Localpart::QuotedUtf8 { raw } => raw@,
        }
    }

    /// The local part a wire value stands for, if it is one.
    pub fn from_value(v: &Value) -> (r: Option<Localpart<Vec<u8>>>)
        ensures
            match v@ {
                Val::Variant(tag, x) => match *x {
                    Val::Bytes(b) => if tag < 4 {
                        r matches Some(l) && l.tag() == tag && l.raw_view() == b
                    } else {
                        r is None
                    },
                    _ => r is None,
                },
                _ => r is None,
            },
    {
        proof {
            reveal_with_fuel(crate::codec::view_value, 2);
        }
        match v {
            Value::Variant(tag, x) => match &**x {
                Value::Bytes(b) => {
                    let raw = vstd::slice::slice_to_vec(b.as_slice());
                    if *tag == 0 {
                        Some(Localpart::Ascii { raw })
                    } else if *tag == 1 {
                        Some(Localpart::Quoted { raw })
                    } else if *tag == 2 {
                        Some(Localpart::Utf8 { raw })
                    } else if *tag == 3 {
                        Some(Localpart::QuotedUtf8 { raw })
                    } else {
                        None
                    }
                },
                _ => None,
            },
            _ => None,
        }
    }
}

} // verus!
