use vstd::prelude::*;

use crate::buttons::Buttons;
use crate::caps::{FileStore, PixelSurface};
use crate::errors::AppError;

verus! {

/// One operation the runtime invoked on an application, with the error it
/// reported, if any. An application's call history is a sequence of these.
#[derive(Clone, Copy, Debug)]
pub enum AppOp {
    Init { err: Option<AppError> },
    Update { err: Option<AppError> },
    Draw { err: Option<AppError> },
    ReadWrite { err: Option<AppError> },
}

/// The error an operation's result carries, if any.
pub open spec fn err_of(r: Result<(), AppError>) -> Option<AppError> {
    match r {
        Ok(_) => None,
        Err(e) => Some(e),
    }
}

/// The error the operation a record stands for reported, if any.
pub open spec fn op_err(op: AppOp) -> Option<AppError> {
    match op {
        AppOp::Init { err } => err,
        AppOp::Update { err } => err,
        AppOp::Draw { err } => err,
        AppOp::ReadWrite { err } => err,
    }
}


/// The contract every application implements. The runtime drives it in a
/// fixed order — `init` once, then once per frame `update`, `draw`, and, if a
/// file store is present, `read_write` — and every operation reports success
/// or failure; any failure is fatal to the whole process.
///
/// Each implementation exposes its observed call history through `calls`, and
/// every operation appends exactly its own record, error included, to it:
/// contracts over that history are how the scheduling discipline is stated
/// and proved.
pub trait App: Sized {
    /// The operations invoked on this application so far, oldest first, each
    /// with the result it reported.
    spec fn calls(&self) -> Seq<AppOp>;

    /// Called exactly once, before the first frame: decode embedded
    /// resources and set initial state.
    fn init(&mut self) -> (r: Result<(), AppError>)
        ensures
            final(self).calls() == old(self).calls().push(AppOp::Init { err: err_of(r) }),
    ;

    /// Called exactly once per frame, before `draw`: the one place state
    /// changes in response to input.
    fn update(&mut self, buttons: Buttons) -> (r: Result<(), AppError>)
        ensures
            final(self).calls() == old(self).calls().push(AppOp::Update { err: err_of(r) }),
    ;

    /// Called exactly once per frame, after `update`, with exclusive access
    /// to the pixel surface — it is selected for the whole call, and drawing
    /// leaves it selected — for the duration of the call.
    fn draw<Surface: PixelSurface>(&mut self, surface: &mut Surface) -> (r: Result<(), AppError>)
        requires
            old(surface).selected(),
        ensures
            final(self).calls() == old(self).calls().push(AppOp::Draw { err: err_of(r) }),
            final(surface).selected(),
    ;

    /// Called at most once per frame, after `draw`, and only if a file store
    /// capability is present.
    fn read_write<Store: FileStore>(&mut self, store: &mut Store) -> (r: Result<(), AppError>)
        ensures
            final(self).calls() == old(self).calls().push(AppOp::ReadWrite { err: err_of(r) }),
    ;
}

} // verus!
