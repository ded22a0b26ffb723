//! Resolution of a module instance's exports against what the bridge needs.
//!
//! The embedder lists what the instance exports; [`check_exports`] decides,
//! before any callable exists, whether every required export is there with
//! the expected low-level shape.
use vstd::prelude::*;

use crate::error::BridgeError;
use crate::registry::ProcedureDescriptor;

verus! {

/// A low-level value type of the sandbox's calling convention.
#[derive(Clone, Copy, Debug, PartialEq, Eq, Structural)]
pub enum WasmType {
    I32,
    I64,
    F32,
    F64,
    V128,
    Reference,
}

/// What an export is.
#[derive(Debug)]
pub enum ExportKind {
    Memory,
    Function { params: Vec<WasmType>, results: Vec<WasmType> },
    Other,
}

/// One export of a module instance.
#[derive(Debug)]
pub struct Export {
    pub name: String,
    pub kind: ExportKind,
}

/// The shape a required export must have.
pub enum Shape {
    Memory,
    Function(Seq<WasmType>, Seq<WasmType>),
}

/// A required export that is absent or has the wrong shape.
#[derive(Debug)]
pub struct ExportError {
    pub export: String,
    pub kind: BridgeError,
}

pub open spec fn kind_has_shape(k: ExportKind, s: Shape) -> bool {
    match s {
        Shape::Memory => k is Memory,
        Shape::Function(ps, rs) => match k {
            ExportKind::Function { params, results } => params@ == ps && results@ == rs,
            _ => false,
        },
    }
}

/// The first export named `name`.
pub open spec fn find_export(es: Seq<Export>, name: Seq<char>) -> Option<Export>
    decreases es.len(),
{
    if es.len() == 0 {
        None
    } else if es[0].name@ == name {
        Some(es[0])
    } else {
        find_export(es.subrange(1, es.len() as int), name)
    }
}

/// How the export `name` fails to meet `s`, if it does.
pub open spec fn export_problem(es: Seq<Export>, name: Seq<char>, s: Shape) -> Option<BridgeError> {
    match find_export(es, name) {
        None => Some(BridgeError::MissingExport),
        Some(e) => if kind_has_shape(e.kind, s) {
            None
        } else {
            Some(BridgeError::SignatureMismatch)
        },
    }
}

pub open spec fn procedure_shape() -> Shape {
    Shape::Function(seq![WasmType::I32, WasmType::I32], seq![WasmType::I64])
}

/// The exports every instance needs besides its procedures, in the order
/// they are checked.
pub open spec fn fixed_requirements() -> Seq<(Seq<char>, Shape)> {
    seq![
        ("memory"@, Shape::Memory),
        ("allocate"@, Shape::Function(seq![WasmType::I32], seq![WasmType::I32])),
        ("deallocate"@, Shape::Function(seq![WasmType::I32, WasmType::I32], Seq::empty())),
        ("setup"@, Shape::Function(seq![WasmType::I32, WasmType::I32], Seq::empty())),
    ]
}

/// Every export the bridge needs for `procs`, in the order they are checked.
pub open spec fn requirements(procs: Seq<ProcedureDescriptor>) -> Seq<(Seq<char>, Shape)> {
    fixed_requirements() + Seq::new(procs.len(), |i: int| (procs[i].name@, procedure_shape()))
}

/// The first requirement in `reqs` that `es` fails, with how it fails.
pub open spec fn first_problem(es: Seq<Export>, reqs: Seq<(Seq<char>, Shape)>) -> Option<
    (Seq<char>, BridgeError),
>
    decreases reqs.len(),
{
    if reqs.len() == 0 {
        None
    } else {
        match export_problem(es, reqs[0].0, reqs[0].1) {
            Some(e) => Some((reqs[0].0, e)),
            None => first_problem(es, reqs.subrange(1, reqs.len() as int)),
        }
    }
}


/// An export the bridge needs: its name and shape.
pub struct Requirement {
    pub name: String,
    pub memory: bool,
    pub params: Vec<WasmType>,
    pub results: Vec<WasmType>,
}

impl Requirement {
    pub open spec fn view_req(&self) -> (Seq<char>, Shape) {
        (
            self.name@,
            if self.memory {
                Shape::Memory
            } else {
                Shape::Function(self.params@, self.results@)
            },
        )
    }
}

fn function_req(name: &str, params: Vec<WasmType>, results: Vec<WasmType>) -> (r: Requirement)
    ensures
        r.view_req() == (name@, Shape::Function(params@, results@)),
{
    Requirement { name: name.to_owned(), memory: false, params, results }
}

/// Every export the bridge needs for `procs`, in the order they are checked.
pub fn requirement_list(procs: &Vec<ProcedureDescriptor>) -> (r: Vec<Requirement>)
    ensures
        r@.len() == requirements(procs@).len(),
        forall|i: int| 0 <= i < r@.len() ==> #[trigger] r@[i].view_req() == requirements(procs@)[i],
{
    let mut out: Vec<Requirement> = Vec::new();
    out.push(
        Requirement { name: "memory".to_owned(), memory: true, params: Vec::new(), results: Vec::new() },
    );
    out.push(function_req("allocate", vec![WasmType::I32], vec![WasmType::I32]));
    out.push(function_req("deallocate", vec![WasmType::I32, WasmType::I32], Vec::new()));
    out.push(function_req("setup", vec![WasmType::I32, WasmType::I32], Vec::new()));
    let ghost fixed = fixed_requirements();
    assert(out@[0].params@ =~= Seq::<WasmType>::empty());
    assert(out@[1].params@ =~= seq![WasmType::I32]);
    assert(out@[1].results@ =~= seq![WasmType::I32]);
    assert(out@[2].params@ =~= seq![WasmType::I32, WasmType::I32]);
    assert(out@[2].results@ =~= Seq::<WasmType>::empty());
    assert(out@[3].params@ =~= seq![WasmType::I32, WasmType::I32]);
    assert(out@[3].results@ =~= Seq::<WasmType>::empty());
    let mut i: usize = 0;
    while i < procs.len()
        invariant
            i <= procs@.len(),
            out@.len() == 4 + i,
            forall|k: int|
                0 <= k < out@.len() ==> #[trigger] out@[k].view_req() == requirements(procs@)[k],
        decreases procs@.len() - i,
    {
        let name = procs[i].name.clone();
        let params = vec![WasmType::I32, WasmType::I32];
        let results = vec![WasmType::I64];
        assert(params@ =~= seq![WasmType::I32, WasmType::I32]);
        assert(results@ =~= seq![WasmType::I64]);
        out.push(Requirement { name, memory: false, params, results });
        i += 1;
    }
    out
}

/// Where the first export named `name` stands in `es`.
fn find_export_index(es: &Vec<Export>, name: &String) -> (r: Option<usize>)
    ensures
        match r {
            Some(i) => i < es@.len() && find_export(es@, name@) == Some(es@[i as int]),
            None => find_export(es@, name@) is None,
        },
{
    let mut i: usize = 0;
    assert(es@.subrange(0, es@.len() as int) =~= es@);
    while i < es.len()
        invariant
            i <= es@.len(),
            find_export(es@, name@) == find_export(es@.subrange(i as int, es@.len() as int), name@),
        decreases es@.len() - i,
    {
        let ghost rest = es@.subrange(i as int, es@.len() as int);
        assert(rest.subrange(1, rest.len() as int) =~= es@.subrange(i + 1, es@.len() as int));
        if es[i].name == *name {
            return Some(i);
        }
        i += 1;
    }
    None
}

fn same_types(a: &Vec<WasmType>, b: &Vec<WasmType>) -> (r: bool)
    ensures
        r == (a@ == b@),
{
    if a.len() != b.len() {
        return false;
    }
    let mut i: usize = 0;
    while i < a.len()
        invariant
            i <= a@.len(),
            a@.len() == b@.len(),
            forall|k: int| 0 <= k < i ==> a@[k] == b@[k],
        decreases a@.len() - i,
    {
        if a[i] != b[i] {
            return false;
        }
        i += 1;
    }
    assert(a@ =~= b@);
    true
}

fn requirement_problem(es: &Vec<Export>, req: &Requirement) -> (r: Option<BridgeError>)
    ensures
        r == export_problem(es@, req.view_req().0, req.view_req().1),
{
    match find_export_index(es, &req.name) {
        None => Some(BridgeError::MissingExport),
        Some(i) => {
            let ok = match &es[i].kind {
                ExportKind::Memory => req.memory,
                ExportKind::Function { params, results } => !req.memory && same_types(
                    params,
                    &req.params,
                ) && same_types(results, &req.results),
                ExportKind::Other => false,
            };
            if ok {
                None
            } else {
                Some(BridgeError::SignatureMismatch)
            }
        },
    }
}

/// Checks that `es` holds every export the bridge needs for `procs`, with
/// the expected shape: the memory, the allocator pair, the setup entry
/// point, then each procedure in registry order. The first one that is
/// missing or misshapen is reported.
pub fn check_exports(procs: &Vec<ProcedureDescriptor>, es: &Vec<Export>) -> (r: Result<
    (),
    ExportError,
>)
    ensures
        match first_problem(es@, requirements(procs@)) {
            None => r is Ok,
            Some((name, kind)) => r matches Err(e) && e.export@ == name && e.kind == kind,
        },
{
    let reqs = requirement_list(procs);
    let ghost all = requirements(procs@);
    assert(all.subrange(0, all.len() as int) =~= all);
    let mut i: usize = 0;
    while i < reqs.len()
        invariant
            i <= reqs@.len(),
            reqs@.len() == all.len(),
            all == requirements(procs@),
            forall|k: int| 0 <= k < reqs@.len() ==> #[trigger] reqs@[k].view_req() == all[k],
            first_problem(es@, all) == first_problem(es@, all.subrange(i as int, all.len() as int)),
        decreases reqs@.len() - i,
    {
        let ghost rest = all.subrange(i as int, all.len() as int);
        assert(rest.subrange(1, rest.len() as int) =~= all.subrange(i + 1, all.len() as int));
        assert(rest[0] == reqs@[i as int].view_req());
        match requirement_problem(es, &reqs[i]) {
            Some(kind) => {
                return Err(ExportError { export: reqs[i].name.clone(), kind });
            },
            None => {},
        }
        i += 1;
    }
    Ok(())
}

} // verus!
