//! The host side of the bridge: a client for one module instance.
//!
//! The client does not run the guest itself. Each call is a short sequence
//! of steps; between two steps the embedder performs one action on the
//! sandbox (allocate, invoke, deallocate) and hands the outcome to the next
//! step. The client validates every address and size the guest reports,
//! and moves the instance to `Faulted` on a trap, an allocation failure or
//! a bounds violation; a faulted instance accepts no further call.
//!
//! Buffers of a faulted instance are abandoned, never freed: the instance is
//! to be discarded, and freeing would mean running guest code again. No
//! error on a usable instance leaks a buffer: size and argument checks come
//! before the allocation, and decoding comes after the deallocation.
use vstd::prelude::*;

use crate::codec::{enc, encode, encoded_size, view_values, Val, Value};
use crate::error::{BridgeError, Phase};
use crate::exports::{check_exports, first_problem, requirements, Export, ExportError};
use crate::frame::{decode_result, encode_args, write_back, written_back};
use crate::memory::{packed, read_region, region_ok, unpack_word, write_region};
use crate::registry::ProcedureDescriptor;

verus! {

/// The lifecycle of a module instance as the host sees it.
#[derive(Clone, Copy, Debug, PartialEq, Eq, Structural)]
pub enum InstanceState {
    Uninitialized,
    Configured,
    Faulted,
}

/// The sandbox reported a trap while the guest was running.
#[derive(Clone, Copy, Debug, PartialEq, Eq, Structural)]
pub struct Trap;

/// A failed call: which procedure (`None` for setup), in which step, and why.
#[derive(Clone, Copy, Debug, PartialEq, Eq, Structural)]
pub struct CallError {
    pub procedure: Option<usize>,
    pub phase: Phase,
    pub kind: BridgeError,
}

/// An encoded argument buffer, waiting for the guest to allocate room for it.
#[derive(Debug)]
pub struct ArgFrame {
    /// The procedure called, or `None` for setup.
    pub target: Option<usize>,
    pub bytes: Vec<u8>,
}

/// An argument buffer placed in guest memory: the entry point is to be
/// invoked with `(addr, size)`, which hands the buffer to the guest.
#[derive(Clone, Copy, Debug, PartialEq, Eq, Structural)]
pub struct Invocation {
    pub target: Option<usize>,
    pub addr: u32,
    pub size: u32,
}

/// A result buffer copied out of guest memory; the guest's copy at
/// `(addr, size)` is to be deallocated next.
#[derive(Debug)]
pub struct ResultFrame {
    pub procedure: usize,
    pub addr: u32,
    pub size: u32,
    pub bytes: Vec<u8>,
}

/// A client for one module instance, built against a procedure registry.
#[derive(Debug)]
pub struct HostClient {
    procedures: Vec<ProcedureDescriptor>,
    state: InstanceState,
}

pub open spec fn call_error(procedure: Option<usize>, phase: Phase, kind: BridgeError) -> CallError {
    CallError { procedure, phase, kind }
}

impl HostClient {
    /// The instance's place in its lifecycle.
    pub closed spec fn lifecycle(&self) -> InstanceState {
        self.state
    }

    /// The procedures the client was built against.
    pub closed spec fn registry(&self) -> Seq<ProcedureDescriptor> {
        self.procedures@
    }

    /// The instance's place in its lifecycle.
    pub fn state(&self) -> (r: InstanceState)
        ensures
            r == self.lifecycle(),
    {
        self.state
    }

    /// The procedures the client was built against.
    pub fn procedures(&self) -> (r: &Vec<ProcedureDescriptor>)
        ensures
            r@ == self.registry(),
    {
        &self.procedures
    }

    /// Builds a client for an instance exporting `exports`. Every required
    /// export is checked up front; the first one missing or misshapen fails
    /// the whole construction.
    pub fn build(procedures: Vec<ProcedureDescriptor>, exports: &Vec<Export>) -> (r: Result<
        HostClient,
        ExportError,
    >)
        ensures
            match first_problem(exports@, requirements(procedures@)) {
                None => r matches Ok(c) && c.registry() == procedures@ && c.lifecycle()
                    == InstanceState::Uninitialized,
                Some((name, kind)) => r matches Err(e) && e.export@ == name && e.kind == kind,
            },
    {
        check_exports(&procedures, exports)?;
        Ok(HostClient { procedures, state: InstanceState::Uninitialized })
    }

    /// Starts the setup call: encodes the configuration payload. Only an
    /// uninitialized instance can be set up.
    pub fn begin_setup(&self, payload: Vec<u8>) -> (r: Result<ArgFrame, CallError>)
        ensures
            self.lifecycle() == InstanceState::Faulted ==> r == Err::<ArgFrame, CallError>(
                call_error(None, Phase::Start, BridgeError::Faulted),
            ),
            self.lifecycle() == InstanceState::Configured ==> r == Err::<ArgFrame, CallError>(
                call_error(None, Phase::Start, BridgeError::AlreadyConfigured),
            ),
            self.lifecycle() == InstanceState::Uninitialized ==> {
                if enc(Val::Bytes(payload@)).len() > u32::MAX {
                    r == Err::<ArgFrame, CallError>(
                        call_error(None, Phase::Encode, BridgeError::SizeOverflow),
                    )
                } else {
                    r matches Ok(f) && f.target is None && f.bytes@ == enc(Val::Bytes(payload@))
                }
            },
    {
        match self.state {
            InstanceState::Faulted => {
                return Err(CallError { procedure: None, phase: Phase::Start, kind: BridgeError::Faulted });
            },
            InstanceState::Configured => {
                return Err(
                    CallError {
                        procedure: None,
                        phase: Phase::Start,
                        kind: BridgeError::AlreadyConfigured,
                    },
                );
            },
            InstanceState::Uninitialized => {},
        }
        let v = Value::Bytes(payload);
        if encoded_size(&v).is_err() {
            return Err(
                CallError { procedure: None, phase: Phase::Encode, kind: BridgeError::SizeOverflow },
            );
        }
        Ok(ArgFrame { target: None, bytes: encode(&v) })
    }

    /// Starts a call of procedure `index` with `args`: checks the instance
    /// and the arguments, and encodes them. Nothing is allocated when this
    /// fails.
    pub fn begin_call(&self, index: usize, args: Vec<Value>) -> (r: Result<ArgFrame, CallError>)
        ensures
            self.lifecycle() == InstanceState::Faulted ==> r == Err::<ArgFrame, CallError>(
                call_error(Some(index), Phase::Start, BridgeError::Faulted),
            ),
            self.lifecycle() == InstanceState::Uninitialized ==> r == Err::<ArgFrame, CallError>(
                call_error(Some(index), Phase::Start, BridgeError::NotConfigured),
            ),
            self.lifecycle() == InstanceState::Configured && index >= self.registry().len() ==> r
                == Err::<ArgFrame, CallError>(
                call_error(Some(index), Phase::Start, BridgeError::UnknownProcedure),
            ),
            self.lifecycle() == InstanceState::Configured && index < self.registry().len() ==> ({
                let d = self.registry()[index as int];
                let a = Val::Tuple(view_values(args@));
                &&& !crate::codec::has_type(a, d.args_ty()) ==> r == Err::<ArgFrame, CallError>(
                    call_error(Some(index), Phase::Start, BridgeError::ArgumentMismatch),
                )
                &&& crate::codec::has_type(a, d.args_ty()) && enc(a).len() > u32::MAX ==> r
                    == Err::<ArgFrame, CallError>(
                    call_error(Some(index), Phase::Encode, BridgeError::SizeOverflow),
                )
                &&& crate::codec::has_type(a, d.args_ty()) && enc(a).len() <= u32::MAX ==> (r matches Ok(
                    f,
                ) && f.target == Some(index) && f.bytes@ == enc(a))
            }),
    {
        match self.state {
            InstanceState::Faulted => {
                return Err(
                    CallError { procedure: Some(index), phase: Phase::Start, kind: BridgeError::Faulted },
                );
            },
            InstanceState::Uninitialized => {
                return Err(
                    CallError {
                        procedure: Some(index),
                        phase: Phase::Start,
                        kind: BridgeError::NotConfigured,
                    },
                );
            },
            InstanceState::Configured => {},
        }
        if index >= self.procedures.len() {
            return Err(
                CallError {
                    procedure: Some(index),
                    phase: Phase::Start,
                    kind: BridgeError::UnknownProcedure,
                },
            );
        }
        match encode_args(&self.procedures[index], args) {
            Ok(bytes) => Ok(ArgFrame { target: Some(index), bytes }),
            Err(BridgeError::SizeOverflow) => Err(
                CallError {
                    procedure: Some(index),
                    phase: Phase::Encode,
                    kind: BridgeError::SizeOverflow,
                },
            ),
            Err(_) => Err(
                CallError {
                    procedure: Some(index),
                    phase: Phase::Start,
                    kind: BridgeError::ArgumentMismatch,
                },
            ),
        }
    }

    /// Marks the instance faulted and reports why.
    fn fault(&mut self, procedure: Option<usize>, phase: Phase, kind: BridgeError) -> (r: CallError)
        ensures
            final(self).lifecycle() == InstanceState::Faulted,
            final(self).registry() == old(self).registry(),
            r == call_error(procedure, phase, kind),
    {
        self.state = InstanceState::Faulted;
        CallError { procedure, phase, kind }
    }

    /// Places an argument buffer in guest memory once the guest allocator
    /// answered `allocated`. The address must be non-null and the whole
    /// buffer must lie within `memory`; otherwise nothing is written and the
    /// instance is faulted.
    pub fn place_args(&mut self, frame: ArgFrame, allocated: Result<u32, Trap>, memory: &mut [u8]) -> (r:
        Result<Invocation, CallError>)
        requires
            frame.bytes@.len() <= u32::MAX,
        ensures
            final(self).registry() == old(self).registry(),
            r is Err ==> final(memory)@ == old(memory)@,
            old(self).lifecycle() == InstanceState::Faulted ==> r == Err::<Invocation, CallError>(
                call_error(frame.target, Phase::Allocate, BridgeError::Faulted),
            ) && final(self).lifecycle() == InstanceState::Faulted,
            old(self).lifecycle() != InstanceState::Faulted ==> match allocated {
                Err(_) => r == Err::<Invocation, CallError>(
                    call_error(frame.target, Phase::Allocate, BridgeError::GuestTrap),
                ) && final(self).lifecycle() == InstanceState::Faulted,
                Ok(addr) => if addr == 0 {
                    r == Err::<Invocation, CallError>(
                        call_error(frame.target, Phase::Allocate, BridgeError::AllocationFailure),
                    ) && final(self).lifecycle() == InstanceState::Faulted
                } else if !region_ok(addr as nat, frame.bytes@.len(), old(memory)@.len()) {
                    r == Err::<Invocation, CallError>(
                        call_error(frame.target, Phase::Write, BridgeError::BoundsViolation),
                    ) && final(self).lifecycle() == InstanceState::Faulted
                } else {
                    &&& r == Ok::<Invocation, CallError>(
                        Invocation { target: frame.target, addr, size: frame.bytes@.len() as u32 },
                    )
                    &&& final(self).lifecycle() == old(self).lifecycle()
                    &&& final(memory)@ == old(memory)@.subrange(0, addr as int) + frame.bytes@
                        + old(memory)@.subrange(addr + frame.bytes@.len(), old(memory)@.len() as int)
                },
            },
    {
        if self.state == InstanceState::Faulted {
            return Err(
                CallError { procedure: frame.target, phase: Phase::Allocate, kind: BridgeError::Faulted },
            );
        }
        let addr = match allocated {
            Err(_) => {
                return Err(self.fault(frame.target, Phase::Allocate, BridgeError::GuestTrap));
            },
            Ok(addr) => addr,
        };
        if addr == 0 {
            return Err(self.fault(frame.target, Phase::Allocate, BridgeError::AllocationFailure));
        }
        match write_region(memory, addr, frame.bytes.as_slice()) {
            Ok(()) => Ok(Invocation { target: frame.target, addr, size: frame.bytes.len() as u32 }),
            Err(_) => Err(self.fault(frame.target, Phase::Write, BridgeError::BoundsViolation)),
        }
    }

    /// Completes the setup call once the guest's setup entry point returned.
    /// An invocation of a procedure is not a setup call and is refused.
    pub fn finish_setup(&mut self, invocation: Invocation, outcome: Result<(), Trap>) -> (r: Result<
        (),
        CallError,
    >)
        ensures
            final(self).registry() == old(self).registry(),
            old(self).lifecycle() == InstanceState::Faulted ==> r == Err::<(), CallError>(
                call_error(None, Phase::Call, BridgeError::Faulted),
            ) && final(self).lifecycle() == InstanceState::Faulted,
            old(self).lifecycle() != InstanceState::Faulted && invocation.target is Some ==> r == Err::<
                (),
                CallError,
            >(call_error(invocation.target, Phase::Call, BridgeError::ArgumentMismatch))
                && final(self).lifecycle() == old(self).lifecycle(),
            old(self).lifecycle() != InstanceState::Faulted && invocation.target is None ==> match outcome {
                Err(_) => r == Err::<(), CallError>(
                    call_error(None, Phase::Call, BridgeError::GuestTrap),
                ) && final(self).lifecycle() == InstanceState::Faulted,
                Ok(()) => r is Ok && final(self).lifecycle() == InstanceState::Configured,
            },
    {
        if self.state == InstanceState::Faulted {
            return Err(CallError { procedure: None, phase: Phase::Call, kind: BridgeError::Faulted });
        }
        if invocation.target.is_some() {
            return Err(
                CallError {
                    procedure: invocation.target,
                    phase: Phase::Call,
                    kind: BridgeError::ArgumentMismatch,
                },
            );
        }
        match outcome {
            Err(_) => Err(self.fault(None, Phase::Call, BridgeError::GuestTrap)),
            Ok(()) => {
                self.state = InstanceState::Configured;
                Ok(())
            },
        }
    }

    /// Takes the result buffer once procedure `procedure`'s entry point
    /// returned the packed word `returned`: checks that the buffer lies
    /// within `memory` and copies it out. The guest's copy is to be
    /// deallocated next.
    pub fn take_result(&mut self, procedure: usize, returned: Result<u64, Trap>, memory: &[u8]) -> (r:
        Result<ResultFrame, CallError>)
        ensures
            final(self).registry() == old(self).registry(),
            old(self).lifecycle() == InstanceState::Faulted ==> r == Err::<ResultFrame, CallError>(
                call_error(Some(procedure), Phase::Call, BridgeError::Faulted),
            ) && final(self).lifecycle() == InstanceState::Faulted,
            old(self).lifecycle() != InstanceState::Faulted ==> match returned {
                Err(_) => r == Err::<ResultFrame, CallError>(
                    call_error(Some(procedure), Phase::Call, BridgeError::GuestTrap),
                ) && final(self).lifecycle() == InstanceState::Faulted,
                Ok(w) => forall|addr: u32, size: u32|
                    packed(addr, size) == w as int ==> if region_ok(
                        addr as nat,
                        size as nat,
                        memory@.len(),
                    ) {
                        &&& r matches Ok(f)
                        &&& f.procedure == procedure && f.addr == addr && f.size == size
                        &&& f.bytes@ == memory@.subrange(addr as int, addr + size)
                        &&& final(self).lifecycle() == old(self).lifecycle()
                    } else {
                        &&& r == Err::<ResultFrame, CallError>(
                            call_error(Some(procedure), Phase::Read, BridgeError::BoundsViolation),
                        )
                        &&& final(self).lifecycle() == InstanceState::Faulted
                    },
            },
    {
        if self.state == InstanceState::Faulted {
            return Err(
                CallError { procedure: Some(procedure), phase: Phase::Call, kind: BridgeError::Faulted },
            );
        }
        let w = match returned {
            Err(_) => {
                return Err(self.fault(Some(procedure), Phase::Call, BridgeError::GuestTrap));
            },
            Ok(w) => w,
        };
        let (addr, size) = unpack_word(w);
        proof {
            assert forall|a2: u32, s2: u32| packed(a2, s2) == w as int implies a2 == addr && s2 == size by {
                crate::memory::lemma_packed_unique(a2, s2, addr, size);
            }
        }
        match read_region(memory, addr, size) {
            Ok(bytes) => Ok(ResultFrame { procedure, addr, size, bytes }),
            Err(_) => Err(self.fault(Some(procedure), Phase::Read, BridgeError::BoundsViolation)),
        }
    }

    /// Completes a call once the guest deallocated the result buffer:
    /// decodes the result, writes the mutable parameters' post-call values
    /// back into `args`, and returns the procedure's return value.
    pub fn finish_call(&mut self, frame: ResultFrame, deallocated: Result<(), Trap>, args: &mut Vec<
        Value,
    >) -> (r: Result<Value, CallError>)
        ensures
            final(self).registry() == old(self).registry(),
            r is Err ==> final(args)@ == old(args)@,
            old(self).lifecycle() == InstanceState::Faulted ==> r == Err::<Value, CallError>(
                call_error(Some(frame.procedure), Phase::Deallocate, BridgeError::Faulted),
            ) && final(self).lifecycle() == InstanceState::Faulted,
            old(self).lifecycle() != InstanceState::Faulted && deallocated is Err ==> r == Err::<
                Value,
                CallError,
            >(call_error(Some(frame.procedure), Phase::Deallocate, BridgeError::GuestTrap))
                && final(self).lifecycle() == InstanceState::Faulted,
            old(self).lifecycle() != InstanceState::Faulted && deallocated is Ok ==> {
                &&& final(self).lifecycle() == old(self).lifecycle()
                &&& frame.procedure >= old(self).registry().len() ==> r == Err::<Value, CallError>(
                    call_error(Some(frame.procedure), Phase::Decode, BridgeError::UnknownProcedure),
                )
                &&& frame.procedure < old(self).registry().len() && old(args)@.len()
                    != old(self).registry()[frame.procedure as int].params@.len() ==> r == Err::<
                    Value,
                    CallError,
                >(call_error(Some(frame.procedure), Phase::Decode, BridgeError::ArgumentMismatch))
                &&& frame.procedure < old(self).registry().len() && old(args)@.len()
                    == old(self).registry()[frame.procedure as int].params@.len() ==> {
                    let d = old(self).registry()[frame.procedure as int];
                    match crate::codec::dec_exact(d.result_ty(), frame.bytes@) {
                        None => r == Err::<Value, CallError>(
                            call_error(Some(frame.procedure), Phase::Decode, BridgeError::EncodingError),
                        ),
                        Some(v) => {
                            &&& r matches Ok(x)
                            &&& x@ == v->Tuple_0[0]
                            &&& view_values(final(args)@) == written_back(
                                d.params@,
                                view_values(old(args)@),
                                v->Tuple_0.drop_first(),
                            )
                        },
                    }
                }
            },
    {
        if self.state == InstanceState::Faulted {
            return Err(
                CallError {
                    procedure: Some(frame.procedure),
                    phase: Phase::Deallocate,
                    kind: BridgeError::Faulted,
                },
            );
        }
        if deallocated.is_err() {
            return Err(self.fault(Some(frame.procedure), Phase::Deallocate, BridgeError::GuestTrap));
        }
        if frame.procedure >= self.procedures.len() {
            return Err(
                CallError {
                    procedure: Some(frame.procedure),
                    phase: Phase::Decode,
                    kind: BridgeError::UnknownProcedure,
                },
            );
        }
        let d = &self.procedures[frame.procedure];
        if args.len() != d.params.len() {
            return Err(
                CallError {
                    procedure: Some(frame.procedure),
                    phase: Phase::Decode,
                    kind: BridgeError::ArgumentMismatch,
                },
            );
        }
        match decode_result(d, frame.bytes.as_slice()) {
            Ok((x, ms)) => {
                let ghost m = view_values(ms@);
                let ghost xv = x@;
                assert((seq![xv] + m).drop_first() =~= m);
                write_back(d, args, ms);
                Ok(x)
            },
            Err(_) => Err(
                CallError {
                    procedure: Some(frame.procedure),
                    phase: Phase::Decode,
                    kind: BridgeError::EncodingError,
                },
            ),
        }
    }
}

} // verus!
