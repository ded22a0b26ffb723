use guest_bridge::codec::{decode, encode, Value, ValueType};
use guest_bridge::error::{BridgeError, Phase};
use guest_bridge::exports::{check_exports, Export, ExportKind, WasmType};
use guest_bridge::frame::{decode_result, encode_args, encode_result, write_back};
use guest_bridge::guest::{
    complete_procedure, place_result, receive_args, receive_setup, run_default, run_procedure,
    GuestState, Procedures,
};
use guest_bridge::host::{CallError, HostClient, InstanceState, Trap};
use guest_bridge::registry::ProcedureDescriptor;

const ADJUST: usize = 0;
const PING: usize = 1;
const SHOW_CONFIG: usize = 2;
const TIMEOUT: usize = 3;
const MIX: usize = 4;
const REQUIRED: usize = 5;
const UPLOAD: usize = 6;

fn registry() -> Vec<ProcedureDescriptor> {
    vec![
        ProcedureDescriptor::new("adjust".to_string(), ValueType::Bool)
            .with_param("x".to_string(), false, ValueType::I32)
            .with_param("y".to_string(), true, ValueType::I32)
            .with_param("z".to_string(), true, ValueType::I32),
        ProcedureDescriptor::new("ping".to_string(), ValueType::Unit),
        ProcedureDescriptor::new("show_config".to_string(), ValueType::Bytes),
        ProcedureDescriptor::new("timeout".to_string(), ValueType::U64)
            .with_default(Value::U64(5 * 60 * 1000)),
        ProcedureDescriptor::new("mix".to_string(), ValueType::U32)
            .with_param("a".to_string(), false, ValueType::U8)
            .with_param("b".to_string(), true, ValueType::U16)
            .with_param("c".to_string(), true, ValueType::Bool),
        ProcedureDescriptor::new("required".to_string(), ValueType::U8),
        ProcedureDescriptor::new("upload".to_string(), ValueType::Unit)
            .with_param("payload".to_string(), false, ValueType::Bytes),
    ]
}

struct Policy;

impl Procedures<Vec<u8>> for Policy {
    fn invoke(&self, config: &Vec<u8>, index: usize, args: &mut Vec<Value>) -> Option<Value> {
        match index {
            ADJUST => {
                if let Value::I32(y) = args[1] {
                    args[1] = Value::I32(y * 2);
                }
                args[2] = Value::I32(0);
                Some(Value::Bool(true))
            }
            PING => Some(Value::Unit),
            SHOW_CONFIG => Some(Value::Bytes(config.clone())),
            MIX => {
                let a = if let Value::U8(a) = args[0] { a } else { 0 };
                if let Value::U16(b) = args[1] {
                    args[1] = Value::U16(b + a as u16);
                }
                if let Value::Bool(c) = args[2] {
                    args[2] = Value::Bool(!c);
                }
                Some(Value::U32(99))
            }
            UPLOAD => Some(Value::Unit),
            _ => None,
        }
    }
}

/// A guest module simulated in plain memory, running the library's guest side.
struct Sim {
    memory: Vec<u8>,
    next: u32,
    state: GuestState<Vec<u8>>,
    procs: Vec<ProcedureDescriptor>,
    trap_in: Option<usize>,
    null_allocations: bool,
    forged_result: Option<u64>,
    allocations: usize,
    invocations: usize,
    frees: Vec<(u32, u32)>,
}

impl Sim {
    fn new() -> Sim {
        Sim {
            memory: vec![0; 1 << 16],
            next: 8,
            state: GuestState::new(),
            procs: registry(),
            trap_in: None,
            null_allocations: false,
            forged_result: None,
            allocations: 0,
            invocations: 0,
            frees: vec![],
        }
    }

    fn allocate(&mut self, size: u32) -> Result<u32, Trap> {
        self.allocations += 1;
        if self.null_allocations {
            return Ok(0);
        }
        let at = self.next;
        self.next += (size + 7) / 8 * 8 + 8;
        Ok(at)
    }

    fn deallocate(&mut self, addr: u32, size: u32) -> Result<(), Trap> {
        self.frees.push((addr, size));
        Ok(())
    }

    fn setup(&mut self, addr: u32, size: u32) -> Result<(), Trap> {
        let payload = receive_setup(&self.memory, addr, size).map_err(|_| Trap)?;
        self.deallocate(addr, size)?;
        self.state.install(payload).map_err(|_| Trap)
    }

    fn call(&mut self, index: usize, addr: u32, size: u32) -> Result<u64, Trap> {
        self.invocations += 1;
        let args = receive_args(&self.procs, index, &self.memory, addr, size).map_err(|_| Trap)?;
        self.deallocate(addr, size)?;
        if self.trap_in == Some(index) {
            return Err(Trap);
        }
        let bytes = run_procedure(&Policy, &self.state, &self.procs, index, args).map_err(|_| Trap)?;
        let at = self.allocate(bytes.len() as u32)?;
        let word = place_result(&mut self.memory, at, &bytes).map_err(|_| Trap)?;
        Ok(self.forged_result.unwrap_or(word))
    }
}

fn function(name: &str, params: Vec<WasmType>, results: Vec<WasmType>) -> Export {
    Export { name: name.to_string(), kind: ExportKind::Function { params, results } }
}

fn full_exports() -> Vec<Export> {
    let mut es = vec![
        Export { name: "memory".to_string(), kind: ExportKind::Memory },
        function("allocate", vec![WasmType::I32], vec![WasmType::I32]),
        function("deallocate", vec![WasmType::I32, WasmType::I32], vec![]),
        function("setup", vec![WasmType::I32, WasmType::I32], vec![]),
    ];
    for d in registry() {
        es.push(function(&d.name, vec![WasmType::I32, WasmType::I32], vec![WasmType::I64]));
    }
    es
}

fn host_setup(host: &mut HostClient, sim: &mut Sim, payload: &[u8]) -> Result<(), CallError> {
    let frame = host.begin_setup(payload.to_vec())?;
    let allocated = sim.allocate(frame.bytes.len() as u32);
    let invocation = host.place_args(frame, allocated, &mut sim.memory)?;
    let outcome = sim.setup(invocation.addr, invocation.size);
    host.finish_setup(invocation, outcome)
}

fn host_call(
    host: &mut HostClient,
    sim: &mut Sim,
    index: usize,
    args: &mut Vec<Value>,
) -> Result<Value, CallError> {
    let frame = host.begin_call(index, args.iter().map(|a| a.duplicate()).collect())?;
    let allocated = sim.allocate(frame.bytes.len() as u32);
    let invocation = host.place_args(frame, allocated, &mut sim.memory)?;
    let returned = sim.call(index, invocation.addr, invocation.size);
    let result = host.take_result(index, returned, &sim.memory)?;
    let deallocated = sim.deallocate(result.addr, result.size);
    host.finish_call(result, deallocated, args)
}

fn configured() -> (HostClient, Sim) {
    let mut host = HostClient::build(registry(), &full_exports()).unwrap();
    let mut sim = Sim::new();
    host_setup(&mut host, &mut sim, b"/etc/policy.toml").unwrap();
    (host, sim)
}

fn show(v: &Value) -> String {
    format!("{:?}", v)
}

#[test]
fn setup_then_call_reaches_the_guest_config() {
    let (mut host, mut sim) = configured();
    assert_eq!(host.state(), InstanceState::Configured);
    assert_eq!(sim.state.config, Some(b"/etc/policy.toml".to_vec()));
    let mut args = vec![];
    let r = host_call(&mut host, &mut sim, SHOW_CONFIG, &mut args).unwrap();
    assert_eq!(show(&r), show(&Value::Bytes(b"/etc/policy.toml".to_vec())));
}

#[test]
fn zero_size_payload_round_trips() {
    let (mut host, mut sim) = configured();
    let frame = host.begin_call(PING, vec![]).unwrap();
    assert_eq!(frame.bytes.len(), 0);
    let allocated = sim.allocate(0);
    let invocation = host.place_args(frame, allocated, &mut sim.memory).unwrap();
    assert_eq!(invocation.size, 0);
    let returned = sim.call(PING, invocation.addr, invocation.size);
    let result = host.take_result(PING, returned, &sim.memory).unwrap();
    assert_eq!(result.size, 0);
    assert_eq!(result.bytes.len(), 0);
    let deallocated = sim.deallocate(result.addr, result.size);
    let mut args = vec![];
    let r = host.finish_call(result, deallocated, &mut args).unwrap();
    assert_eq!(show(&r), show(&Value::Unit));
    assert_eq!(host.state(), InstanceState::Configured);
}

#[test]
fn two_mutable_parameters_are_echoed_back() {
    let (mut host, mut sim) = configured();
    let mut args = vec![Value::I32(5), Value::I32(10), Value::I32(20)];
    let r = host_call(&mut host, &mut sim, ADJUST, &mut args).unwrap();
    assert_eq!(show(&r), show(&Value::Bool(true)));
    assert_eq!(show(&args[0]), show(&Value::I32(5)));
    assert_eq!(show(&args[1]), show(&Value::I32(20)));
    assert_eq!(show(&args[2]), show(&Value::I32(0)));
}

#[test]
fn mutable_echo_keeps_declaration_order() {
    let procs = registry();
    let d = &procs[MIX];
    let args = vec![Value::U8(3), Value::U16(40), Value::Bool(false)];
    let bytes = encode_result(d, Value::U32(7), &args).unwrap();
    assert_eq!(bytes, vec![7, 0, 0, 0, 40, 0, 0]);
    let (ret, ms) = decode_result(d, &bytes).unwrap();
    assert_eq!(show(&ret), show(&Value::U32(7)));
    assert_eq!(ms.len(), 2);
    assert_eq!(show(&ms[0]), show(&Value::U16(40)));
    assert_eq!(show(&ms[1]), show(&Value::Bool(false)));

    let (mut host, mut sim) = configured();
    let mut args = vec![Value::U8(3), Value::U16(40), Value::Bool(false)];
    let r = host_call(&mut host, &mut sim, MIX, &mut args).unwrap();
    assert_eq!(show(&r), show(&Value::U32(99)));
    assert_eq!(show(&args[1]), show(&Value::U16(43)));
    assert_eq!(show(&args[2]), show(&Value::Bool(true)));
}

#[test]
fn write_back_fills_only_mutable_places() {
    let procs = registry();
    let mut args = vec![Value::I32(1), Value::I32(2), Value::I32(3)];
    write_back(&procs[ADJUST], &mut args, vec![Value::I32(8), Value::I32(9)]);
    assert_eq!(show(&args[0]), show(&Value::I32(1)));
    assert_eq!(show(&args[1]), show(&Value::I32(8)));
    assert_eq!(show(&args[2]), show(&Value::I32(9)));
}

#[test]
fn default_body_is_used_when_guest_has_none() {
    let (mut host, mut sim) = configured();
    let mut args = vec![];
    let r = host_call(&mut host, &mut sim, TIMEOUT, &mut args).unwrap();
    assert_eq!(show(&r), show(&Value::U64(300_000)));
    let procs = registry();
    assert_eq!(run_default(&procs[TIMEOUT], &vec![]).unwrap(), vec![0xE0, 0x93, 0x04, 0, 0, 0, 0, 0]);
    assert_eq!(run_default(&procs[REQUIRED], &vec![]), Err(BridgeError::Unimplemented));
}

#[test]
fn missing_body_without_default_traps_the_guest() {
    let (mut host, mut sim) = configured();
    let mut args = vec![];
    let e = host_call(&mut host, &mut sim, REQUIRED, &mut args).unwrap_err();
    assert_eq!(e.kind, BridgeError::GuestTrap);
    assert_eq!(e.phase, Phase::Call);
    assert_eq!(e.procedure, Some(REQUIRED));
    assert_eq!(host.state(), InstanceState::Faulted);
}

#[test]
fn missing_memory_export_fails_construction() {
    let es: Vec<Export> = full_exports().into_iter().filter(|e| e.name != "memory").collect();
    let e = HostClient::build(registry(), &es).unwrap_err();
    assert_eq!(e.export, "memory");
    assert_eq!(e.kind, BridgeError::MissingExport);
}

#[test]
fn missing_or_misshapen_procedure_export_fails_construction() {
    let es: Vec<Export> = full_exports().into_iter().filter(|e| e.name != "timeout").collect();
    let e = check_exports(&registry(), &es).unwrap_err();
    assert_eq!(e.export, "timeout");
    assert_eq!(e.kind, BridgeError::MissingExport);

    let mut es = full_exports();
    es[5] = function("ping", vec![WasmType::I32, WasmType::I32], vec![WasmType::I32]);
    let e = HostClient::build(registry(), &es).unwrap_err();
    assert_eq!(e.export, "ping");
    assert_eq!(e.kind, BridgeError::SignatureMismatch);

    let mut es = full_exports();
    es[1] = Export { name: "allocate".to_string(), kind: ExportKind::Other };
    let e = HostClient::build(registry(), &es).unwrap_err();
    assert_eq!(e.export, "allocate");
    assert_eq!(e.kind, BridgeError::SignatureMismatch);

    let host = HostClient::build(registry(), &full_exports()).unwrap();
    assert_eq!(host.state(), InstanceState::Uninitialized);
}

#[test]
fn guest_trap_faults_the_instance() {
    let (mut host, mut sim) = configured();
    sim.trap_in = Some(ADJUST);
    let mut args = vec![Value::I32(5), Value::I32(10), Value::I32(20)];
    let e = host_call(&mut host, &mut sim, ADJUST, &mut args).unwrap_err();
    assert_eq!(e, CallError { procedure: Some(ADJUST), phase: Phase::Call, kind: BridgeError::GuestTrap });
    assert_eq!(host.state(), InstanceState::Faulted);
    assert_eq!(show(&args[1]), show(&Value::I32(10)));
    let before = sim.invocations;
    let e = host_call(&mut host, &mut sim, PING, &mut vec![]).unwrap_err();
    assert_eq!(e, CallError { procedure: Some(PING), phase: Phase::Start, kind: BridgeError::Faulted });
    assert_eq!(sim.invocations, before);
}

#[test]
fn second_setup_is_rejected() {
    let (mut host, mut sim) = configured();
    let e = host_setup(&mut host, &mut sim, b"/other").unwrap_err();
    assert_eq!(e, CallError { procedure: None, phase: Phase::Start, kind: BridgeError::AlreadyConfigured });
    assert_eq!(host.state(), InstanceState::Configured);

    let mut guest: GuestState<Vec<u8>> = GuestState::new();
    assert_eq!(guest.install(b"first".to_vec()), Ok(()));
    assert_eq!(guest.install(b"second".to_vec()), Err(BridgeError::AlreadyConfigured));
    assert_eq!(guest.install(b"third".to_vec()), Err(BridgeError::AlreadyConfigured));
    assert_eq!(guest.config, Some(b"first".to_vec()));
}

#[test]
fn call_before_setup_is_refused() {
    let mut host = HostClient::build(registry(), &full_exports()).unwrap();
    let mut sim = Sim::new();
    let e = host_call(&mut host, &mut sim, PING, &mut vec![]).unwrap_err();
    assert_eq!(e.kind, BridgeError::NotConfigured);
    assert_eq!(sim.allocations, 0);
    let state: GuestState<Vec<u8>> = GuestState::new();
    assert_eq!(
        run_procedure(&Policy, &state, &registry(), PING, vec![]),
        Err(BridgeError::NotConfigured)
    );
}

#[test]
fn result_outside_memory_is_a_bounds_violation() {
    let (mut host, mut sim) = configured();
    let len = sim.memory.len() as u64;
    sim.forged_result = Some((16u64 << 32) | (len - 8));
    let e = host_call(&mut host, &mut sim, PING, &mut vec![]).unwrap_err();
    assert_eq!(e, CallError { procedure: Some(PING), phase: Phase::Read, kind: BridgeError::BoundsViolation });
    assert_eq!(host.state(), InstanceState::Faulted);
}

#[test]
fn argument_buffer_outside_memory_is_a_bounds_violation() {
    let (mut host, mut sim) = configured();
    let frame = host.begin_call(PING, vec![]).unwrap();
    let before = sim.memory.clone();
    let len = sim.memory.len() as u32;
    let e = host.place_args(frame, Ok(len), &mut sim.memory).unwrap_err();
    assert_eq!(e.kind, BridgeError::BoundsViolation);
    assert_eq!(e.phase, Phase::Write);
    assert_eq!(sim.memory, before);
    assert_eq!(host.state(), InstanceState::Faulted);

    let procs = registry();
    assert_eq!(receive_args(&procs, PING, &sim.memory, len - 4, 8).unwrap_err(), BridgeError::BoundsViolation);
    let mut mem = vec![0u8; 16];
    assert_eq!(place_result(&mut mem, 12, &[1, 2, 3, 4]), Err(BridgeError::BoundsViolation));
    assert_eq!(mem, vec![0u8; 16]);
    assert_eq!(place_result(&mut mem, 8, &[1, 2, 3]), Ok((3u64 << 32) | 8));
}

#[test]
fn null_allocation_is_an_allocation_failure() {
    let (mut host, mut sim) = configured();
    sim.null_allocations = true;
    let e = host_call(&mut host, &mut sim, PING, &mut vec![]).unwrap_err();
    assert_eq!(e, CallError { procedure: Some(PING), phase: Phase::Allocate, kind: BridgeError::AllocationFailure });
    assert_eq!(host.state(), InstanceState::Faulted);
    let mut mem = vec![0u8; 16];
    assert_eq!(place_result(&mut mem, 0, &[1]), Err(BridgeError::AllocationFailure));
}

#[test]
fn allocator_trap_and_deallocation_trap_fault_the_instance() {
    let (mut host, _sim) = configured();
    let mut memory = vec![0u8; 64];
    let frame = host.begin_call(PING, vec![]).unwrap();
    let e = host.place_args(frame, Err(Trap), &mut memory).unwrap_err();
    assert_eq!(e, CallError { procedure: Some(PING), phase: Phase::Allocate, kind: BridgeError::GuestTrap });
    assert_eq!(host.state(), InstanceState::Faulted);

    let (mut host, mut sim) = configured();
    let frame = host.begin_call(PING, vec![]).unwrap();
    let allocated = sim.allocate(0);
    let invocation = host.place_args(frame, allocated, &mut sim.memory).unwrap();
    let returned = sim.call(PING, invocation.addr, invocation.size);
    let result = host.take_result(PING, returned, &sim.memory).unwrap();
    let e = host.finish_call(result, Err(Trap), &mut vec![]).unwrap_err();
    assert_eq!(e, CallError { procedure: Some(PING), phase: Phase::Deallocate, kind: BridgeError::GuestTrap });
    assert_eq!(host.state(), InstanceState::Faulted);
}

#[test]
fn garbled_result_is_an_encoding_error() {
    let (mut host, mut sim) = configured();
    let at = 1024u32;
    sim.memory[at as usize] = 7;
    let word = (1u64 << 32) | at as u64;
    let result = host.take_result(ADJUST, Ok(word), &sim.memory).unwrap();
    assert_eq!(result.bytes, vec![7]);
    let mut args = vec![Value::I32(1), Value::I32(2), Value::I32(3)];
    let e = host.finish_call(result, Ok(()), &mut args).unwrap_err();
    assert_eq!(e, CallError { procedure: Some(ADJUST), phase: Phase::Decode, kind: BridgeError::EncodingError });
    assert_eq!(show(&args[1]), show(&Value::I32(2)));
    assert_eq!(host.state(), InstanceState::Configured);
}

#[test]
fn wrong_arguments_are_refused() {
    let (host, _sim) = configured();
    let e = host.begin_call(ADJUST, vec![Value::I32(1), Value::U8(2), Value::I32(3)]).unwrap_err();
    assert_eq!(e, CallError { procedure: Some(ADJUST), phase: Phase::Start, kind: BridgeError::ArgumentMismatch });
    let e = host.begin_call(ADJUST, vec![Value::I32(1)]).unwrap_err();
    assert_eq!(e.kind, BridgeError::ArgumentMismatch);
    let e = host.begin_call(99, vec![]).unwrap_err();
    assert_eq!(e, CallError { procedure: Some(99), phase: Phase::Start, kind: BridgeError::UnknownProcedure });
    let procs = registry();
    assert_eq!(encode_args(&procs[PING], vec![Value::Unit]), Err(BridgeError::ArgumentMismatch));
}

#[test]
fn arguments_are_the_tuple_of_all_parameters() {
    let procs = registry();
    let bytes = encode_args(&procs[MIX], vec![Value::U8(1), Value::U16(2), Value::Bool(true)]).unwrap();
    assert_eq!(bytes, vec![1, 2, 0, 1]);
    let args = guest_bridge::frame::decode_args(&procs[MIX], &bytes).unwrap();
    assert_eq!(args.len(), 3);
    assert_eq!(show(&args[2]), show(&Value::Bool(true)));
    assert!(guest_bridge::frame::decode_args(&procs[MIX], &bytes[..3]).is_err());
    let t = procs[ADJUST].result_type();
    let v = decode(&t, &encode(&Value::Tuple(vec![Value::Bool(true), Value::I32(20), Value::I32(0)])));
    assert!(v.is_ok());
}

struct WrongTypes;

impl Procedures<Vec<u8>> for WrongTypes {
    fn invoke(&self, _config: &Vec<u8>, index: usize, args: &mut Vec<Value>) -> Option<Value> {
        if index == ADJUST {
            args[2] = Value::Bool(false);
        }
        Some(Value::U8(1))
    }
}

#[test]
fn ill_typed_guest_results_are_refused() {
    let procs = registry();
    let args = vec![Value::I32(1), Value::I32(2), Value::I32(3)];
    assert_eq!(encode_result(&procs[ADJUST], Value::U8(1), &args), Err(BridgeError::EncodingError));
    let mut state: GuestState<Vec<u8>> = GuestState::new();
    state.install(vec![]).unwrap();
    let args = vec![Value::I32(1), Value::I32(2), Value::I32(3)];
    assert_eq!(
        run_procedure(&WrongTypes, &state, &procs, ADJUST, args),
        Err(BridgeError::EncodingError)
    );
    assert_eq!(
        run_procedure(&WrongTypes, &state, &procs, 42, vec![]),
        Err(BridgeError::UnknownProcedure)
    );
    assert_eq!(
        run_procedure(&Policy, &state, &procs, REQUIRED, vec![]),
        Err(BridgeError::Unimplemented)
    );
}

#[test]
fn setup_payload_is_the_encoded_path() {
    let host = HostClient::build(registry(), &full_exports()).unwrap();
    let frame = host.begin_setup(b"/etc/x".to_vec()).unwrap();
    assert_eq!(frame.target, None);
    assert_eq!(frame.bytes, bincode::serialize("/etc/x").unwrap());
    let mut mem = vec![0u8; 64];
    mem[8..8 + frame.bytes.len()].copy_from_slice(&frame.bytes);
    assert_eq!(receive_setup(&mem, 8, frame.bytes.len() as u32), Ok(b"/etc/x".to_vec()));
    assert_eq!(receive_setup(&mem, 8, 3), Err(BridgeError::EncodingError));
    assert_eq!(receive_setup(&mem, 60, 8), Err(BridgeError::BoundsViolation));
}

#[test]
fn descriptor_shapes() {
    let procs = registry();
    assert_eq!(
        format!("{:?}", procs[ADJUST].args_type()),
        format!("{:?}", ValueType::Tuple(vec![ValueType::I32, ValueType::I32, ValueType::I32]))
    );
    assert_eq!(
        format!("{:?}", procs[ADJUST].result_type()),
        format!("{:?}", ValueType::Tuple(vec![ValueType::Bool, ValueType::I32, ValueType::I32]))
    );
    assert_eq!(
        format!("{:?}", procs[PING].result_type()),
        format!("{:?}", ValueType::Tuple(vec![ValueType::Unit]))
    );
    assert_eq!(procs[ADJUST].params.len(), 3);
    assert!(!procs[ADJUST].params[0].mutable);
    assert!(procs[ADJUST].params[2].mutable);
    assert_eq!(procs[TIMEOUT].name, "timeout");
}

#[test]
fn host_refuses_steps_on_a_faulted_instance() {
    let (mut host, mut sim) = configured();
    let frame = host.begin_call(PING, vec![]).unwrap();
    let spare = host.begin_call(PING, vec![]).unwrap();
    let e = host.place_args(frame, Err(Trap), &mut sim.memory).unwrap_err();
    assert_eq!(e.kind, BridgeError::GuestTrap);
    assert_eq!(host.state(), InstanceState::Faulted);
    let allocated = sim.allocate(0);
    let e = host.place_args(spare, allocated, &mut sim.memory).unwrap_err();
    assert_eq!(e.kind, BridgeError::Faulted);
    let e = host.take_result(PING, Ok(0), &sim.memory).unwrap_err();
    assert_eq!(e.kind, BridgeError::Faulted);
    let e = host.begin_setup(vec![]).unwrap_err();
    assert_eq!(e.kind, BridgeError::Faulted);
    assert_eq!(host.state(), InstanceState::Faulted);
}

#[test]
fn finish_setup_refuses_a_procedure_invocation() {
    let mut host = HostClient::build(registry(), &full_exports()).unwrap();
    let mut sim = Sim::new();
    let frame = host.begin_setup(b"/p".to_vec()).unwrap();
    let allocated = sim.allocate(frame.bytes.len() as u32);
    let invocation = host.place_args(frame, allocated, &mut sim.memory).unwrap();
    let wrong = guest_bridge::host::Invocation { target: Some(PING), ..invocation };
    let e = host.finish_setup(wrong, Ok(())).unwrap_err();
    assert_eq!(e, CallError { procedure: Some(PING), phase: Phase::Call, kind: BridgeError::ArgumentMismatch });
    assert_eq!(host.state(), InstanceState::Uninitialized);
    assert_eq!(host.finish_setup(invocation, Ok(())), Ok(()));
    assert_eq!(host.state(), InstanceState::Configured);
    assert_eq!(host.procedures().len(), registry().len());
}

#[test]
fn complete_procedure_after_the_body() {
    let procs = registry();
    let args = vec![Value::I32(5), Value::I32(20), Value::I32(0)];
    assert_eq!(
        complete_procedure(&procs[ADJUST], Some(Value::Bool(true)), &args).unwrap(),
        vec![1, 20, 0, 0, 0, 0, 0, 0, 0]
    );
    assert_eq!(
        complete_procedure(&procs[ADJUST], Some(Value::Bool(true)), &vec![Value::I32(5)]),
        Err(BridgeError::EncodingError)
    );
    assert_eq!(
        complete_procedure(&procs[ADJUST], Some(Value::U8(1)), &args),
        Err(BridgeError::EncodingError)
    );
    assert_eq!(
        complete_procedure(&procs[ADJUST], None, &args),
        Err(BridgeError::Unimplemented)
    );
    assert_eq!(
        complete_procedure(&procs[TIMEOUT], None, &vec![]).unwrap(),
        vec![0xE0, 0x93, 0x04, 0, 0, 0, 0, 0]
    );
}
