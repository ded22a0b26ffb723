//! The guest side of the bridge: the configuration slot and the dispatcher
//! that turns a raw entry-point call into a call of the guest's own code.
//!
//! An entry point `(argument_address, argument_size) -> u64` runs in three
//! steps around the guest allocator: [`receive_args`] reads and decodes the
//! argument buffer (which the entry point then frees), [`run_procedure`]
//! invokes the guest's body and hands what came back to
//! [`complete_procedure`], which falls back on the registry's default and
//! encodes the result, and [`place_result`] writes it into a freshly allocated buffer
//! and packs the word handed back to the host.
use vstd::prelude::*;

use crate::codec::{dec_exact, decode, enc, has_type, view_values, Ty, Val, Value, ValueType};
use crate::error::BridgeError;
use crate::frame::{decode_args, encode_result};
use crate::memory::{packed, pack_word, read_region, region_ok, write_region};
use crate::registry::ProcedureDescriptor;

verus! {

/// The guest-local configuration, installed once by the setup call.
#[derive(Debug)]
pub struct GuestState<C> {
    pub config: Option<C>,
}

impl<C> GuestState<C> {
    /// A guest that has not been set up.
    pub fn new() -> (r: GuestState<C>)
        ensures
            r.config is None,
    {
        GuestState { config: None }
    }

    /// Installs the configuration. A guest holds at most one: a second
    /// installation fails and leaves the first in place.
    pub fn install(&mut self, config: C) -> (r: Result<(), BridgeError>)
        ensures
            old(self).config is Some ==> r == Err::<(), BridgeError>(BridgeError::AlreadyConfigured)
                && *final(self) == *old(self),
            old(self).config is None ==> r is Ok && final(self).config == Some(config),
    {
        if self.config.is_some() {
            return Err(BridgeError::AlreadyConfigured);
        }
        self.config = Some(config);
        Ok(())
    }
}

/// Reads and decodes the setup payload, a byte string, from the argument
/// buffer at `(addr, size)`.
pub fn receive_setup(memory: &[u8], addr: u32, size: u32) -> (r: Result<Vec<u8>, BridgeError>)
    ensures
        !region_ok(addr as nat, size as nat, memory@.len()) ==> r == Err::<Vec<u8>, BridgeError>(
            BridgeError::BoundsViolation,
        ),
        region_ok(addr as nat, size as nat, memory@.len()) ==> match dec_exact(
            Ty::Bytes,
            memory@.subrange(addr as int, addr + size),
        ) {
            Some(v) => r matches Ok(p) && v == Val::Bytes(p@),
            None => r == Err::<Vec<u8>, BridgeError>(BridgeError::EncodingError),
        },
{
    let bytes = read_region(memory, addr, size)?;
    match decode(&ValueType::Bytes, bytes.as_slice())? {
        Value::Bytes(p) => Ok(p),
        _ => Err(BridgeError::EncodingError),
    }
}

/// Reads and decodes the argument buffer of procedure `index` at
/// `(addr, size)`.
pub fn receive_args(procs: &Vec<ProcedureDescriptor>, index: usize, memory: &[u8], addr: u32, size: u32) -> (r:
    Result<Vec<Value>, BridgeError>)
    ensures
        index >= procs@.len() ==> r == Err::<Vec<Value>, BridgeError>(BridgeError::UnknownProcedure),
        index < procs@.len() && !region_ok(addr as nat, size as nat, memory@.len()) ==> r == Err::<
            Vec<Value>,
            BridgeError,
        >(BridgeError::BoundsViolation),
        index < procs@.len() && region_ok(addr as nat, size as nat, memory@.len()) ==> match dec_exact(
            procs@[index as int].args_ty(),
            memory@.subrange(addr as int, addr + size),
        ) {
            Some(v) => r matches Ok(args) && v == Val::Tuple(view_values(args@)),
            None => r == Err::<Vec<Value>, BridgeError>(BridgeError::EncodingError),
        },
{
    if index >= procs.len() {
        return Err(BridgeError::UnknownProcedure);
    }
    let bytes = read_region(memory, addr, size)?;
    decode_args(&procs[index], bytes.as_slice())
}

/// The guest's own procedure bodies.
pub trait Procedures<C> {
    /// Runs the guest's body of procedure `index` with configuration `config`
    /// on `args`, updating the mutable ones in place; `None` where the guest
    /// keeps the registry's default body.
    fn invoke(&self, config: &C, index: usize, args: &mut Vec<Value>) -> Option<Value>;
}

/// The result buffer of a call of `d` that runs its default body on `args`:
/// the default value, then the mutable arguments unchanged.
pub fn run_default(d: &ProcedureDescriptor, args: &Vec<Value>) -> (r: Result<Vec<u8>, BridgeError>)
    requires
        args@.len() == d.params@.len(),
    ensures
        d.default_result is None ==> r == Err::<Vec<u8>, BridgeError>(BridgeError::Unimplemented),
        d.default_result matches Some(v) ==> {
            let rv = d.result_val(v@, view_values(args@));
            &&& !has_type(rv, d.result_ty()) ==> r == Err::<Vec<u8>, BridgeError>(
                BridgeError::EncodingError,
            )
            &&& has_type(rv, d.result_ty()) && enc(rv).len() > u32::MAX ==> r == Err::<
                Vec<u8>,
                BridgeError,
            >(BridgeError::SizeOverflow)
            &&& has_type(rv, d.result_ty()) && enc(rv).len() <= u32::MAX ==> (r matches Ok(b)
                && b@ == enc(rv))
        },
{
    match &d.default_result {
        None => Err(BridgeError::Unimplemented),
        Some(v) => encode_result(d, v.duplicate(), args),
    }
}

/// Completes a call of `d` once the guest's body answered `outcome` and
/// left the arguments as `args`: `Some(ret)` is the body's return value,
/// `None` means the guest keeps the registry's default body. The arguments
/// must still be one per parameter.
pub fn complete_procedure(d: &ProcedureDescriptor, outcome: Option<Value>, args: &Vec<Value>) -> (r:
    Result<Vec<u8>, BridgeError>)
    ensures
        args@.len() != d.params@.len() ==> r == Err::<Vec<u8>, BridgeError>(
            BridgeError::EncodingError,
        ),
        args@.len() == d.params@.len() && outcome is Some ==> {
            let rv = d.result_val(outcome->Some_0@, view_values(args@));
            &&& !has_type(rv, d.result_ty()) ==> r == Err::<Vec<u8>, BridgeError>(
                BridgeError::EncodingError,
            )
            &&& has_type(rv, d.result_ty()) && enc(rv).len() > u32::MAX ==> r == Err::<
                Vec<u8>,
                BridgeError,
            >(BridgeError::SizeOverflow)
            &&& has_type(rv, d.result_ty()) && enc(rv).len() <= u32::MAX ==> (r matches Ok(b)
                && b@ == enc(rv))
        },
        args@.len() == d.params@.len() && outcome is None ==> {
            &&& d.default_result is None ==> r == Err::<Vec<u8>, BridgeError>(
                BridgeError::Unimplemented,
            )
            &&& d.default_result is Some ==> {
                let rv = d.result_val(d.default_result->Some_0@, view_values(args@));
                &&& !has_type(rv, d.result_ty()) ==> r == Err::<Vec<u8>, BridgeError>(
                    BridgeError::EncodingError,
                )
                &&& has_type(rv, d.result_ty()) && enc(rv).len() > u32::MAX ==> r == Err::<
                    Vec<u8>,
                    BridgeError,
                >(BridgeError::SizeOverflow)
                &&& has_type(rv, d.result_ty()) && enc(rv).len() <= u32::MAX ==> (r matches Ok(b)
                    && b@ == enc(rv))
            }
        },
        r matches Ok(b) ==> exists|ret: Val, post: Seq<Val>|
            {
                let rv = #[trigger] d.result_val(ret, post);
                &&& has_type(rv, d.result_ty())
                &&& b@ == enc(rv)
                &&& enc(rv).len() <= u32::MAX
            },
{
    if args.len() != d.params.len() {
        return Err(BridgeError::EncodingError);
    }
    match outcome {
        Some(ret) => {
            let ghost rv = ret@;
            let r = encode_result(d, ret, args);
            proof {
                if r is Ok {
                    let _ = d.result_val(rv, view_values(args@));
                }
            }
            r
        },
        None => {
            let r = run_default(d, args);
            proof {
                if d.default_result is Some {
                    let _ = d.result_val(d.default_result->Some_0@, view_values(args@));
                }
            }
            r
        },
    }
}

/// Runs procedure `index` on the decoded `args`: the guest's own body, or
/// the registry's default where the guest has none, and encodes the result
/// buffer with [`complete_procedure`]. Whatever the body did, the result
/// holds its return value and the post-call values of the mutable
/// arguments, with the declared types.
pub fn run_procedure<C, P: Procedures<C>>(
    policy: &P,
    state: &GuestState<C>,
    procs: &Vec<ProcedureDescriptor>,
    index: usize,
    args: Vec<Value>,
) -> (r: Result<Vec<u8>, BridgeError>)
    ensures
        state.config is None ==> r == Err::<Vec<u8>, BridgeError>(BridgeError::NotConfigured),
        state.config is Some && index >= procs@.len() ==> r == Err::<Vec<u8>, BridgeError>(
            BridgeError::UnknownProcedure,
        ),
        r == Err::<Vec<u8>, BridgeError>(BridgeError::NotConfigured) ==> state.config is None,
        r == Err::<Vec<u8>, BridgeError>(BridgeError::UnknownProcedure) ==> state.config is Some
            && index >= procs@.len(),
        r matches Ok(b) ==> index < procs@.len() && exists|ret: Val, post: Seq<Val>|
            {
                let rv = #[trigger] procs@[index as int].result_val(ret, post);
                &&& has_type(rv, procs@[index as int].result_ty())
                &&& b@ == enc(rv)
                &&& enc(rv).len() <= u32::MAX
            },
{
    let config = match &state.config {
        None => {
            return Err(BridgeError::NotConfigured);
        },
        Some(c) => c,
    };
    if index >= procs.len() {
        return Err(BridgeError::UnknownProcedure);
    }
    let d = &procs[index];
    let mut args = args;
    let outcome = policy.invoke(config, index, &mut args);
    complete_procedure(d, outcome, &args)
}

/// Writes an encoded result into the buffer the guest allocator returned
/// at `addr`, and packs the word handed back to the host: the size in the
/// high half, the address in the low half.
pub fn place_result(memory: &mut [u8], addr: u32, bytes: &[u8]) -> (r: Result<u64, BridgeError>)
    requires
        bytes@.len() <= u32::MAX,
    ensures
        r is Err ==> final(memory)@ == old(memory)@,
        addr == 0 ==> r == Err::<u64, BridgeError>(BridgeError::AllocationFailure),
        addr != 0 && !region_ok(addr as nat, bytes@.len(), old(memory)@.len()) ==> r == Err::<
            u64,
            BridgeError,
        >(BridgeError::BoundsViolation),
        addr != 0 && region_ok(addr as nat, bytes@.len(), old(memory)@.len()) ==> {
            &&& r matches Ok(w) && w as int == packed(addr, bytes@.len() as u32)
            &&& final(memory)@ == old(memory)@.subrange(0, addr as int) + bytes@ + old(
                memory,
            )@.subrange(addr + bytes@.len(), old(memory)@.len() as int)
        },
{
    if addr == 0 {
        return Err(BridgeError::AllocationFailure);
    }
    write_region(memory, addr, bytes)?;
    Ok(pack_word(addr, bytes.len() as u32))
}

} // verus!
