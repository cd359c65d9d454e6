use vstd::prelude::*;
use crate::bridge::EngineError;
use crate::bridge::CLOSED_CODE;
use crate::bridge::REPO_CLOSED_CODE;
use crate::bridge::INVALID_ARGUMENT_CODE;

verus! {

/// An ownership-optional native handle: `Open` holds the exclusively owned
/// engine resource, `Closed` is the terminal state. The transition from
/// `Open` to `Closed` is one-directional and enforced by the type itself
/// rather than by convention.
pub enum Handle<T> {
    Open(T),
    Closed,
}

/// Which class of engine resource a handle stands for; it decides which
/// Closed-class failure a use-after-close reports.
#[derive(Clone, Copy, PartialEq, Eq, Structural, Debug)]
pub enum HandleKind {
    Repository,
    RegularFile,
    VersionedReader,
}

/// The state every close call converges on, whatever state the handle was
/// in before.
pub open spec fn close_model<T>(h: Handle<T>) -> Handle<T> {
    Handle::Closed
}

/// The numeric code of the Closed-class failure for a handle of this kind.
pub open spec fn closed_code(kind: HandleKind) -> int {
    match kind {
        HandleKind::Repository => REPO_CLOSED_CODE as int,
        HandleKind::RegularFile => CLOSED_CODE as int,
        HandleKind::VersionedReader => CLOSED_CODE as int,
    }
}

/// The description of the Closed-class failure for a handle of this kind.
pub open spec fn closed_desc(kind: HandleKind) -> Seq<char> {
    match kind {
        HandleKind::Repository => "Repo is closed"@,
        HandleKind::RegularFile => "File is closed"@,
        HandleKind::VersionedReader => "File is closed"@,
    }
}

impl<T> Handle<T> {
    /// Invalidate the handle, releasing the owned resource if one is still
    /// present. Calling this on an already-closed handle observes `Closed`
    /// and does nothing, so nothing can be released twice.
    pub fn close(&mut self)
        ensures
            *final(self) == close_model(*old(self)),
    {
        *self = Handle::Closed;
    }

    /// Whether the handle still owns its resource.
    pub fn is_open(&self) -> (r: bool)
        ensures
            r == (*self is Open),
    {
        match self {
            Handle::Open(_) => true,
            Handle::Closed => false,
        }
    }

    /// The check every operation makes before touching the engine: a handle
    /// that is still open may delegate; a closed one fails immediately with
    /// the Closed-class error of its kind, and the engine is never reached.
    pub fn ensure_open(&self, kind: HandleKind) -> (r: Result<(), EngineError>)
        ensures
            r is Ok <==> *self is Open,
            r is Err ==> r->Err_0.code == closed_code(kind) && r->Err_0.desc@ == closed_desc(
                kind,
            ),
    {
        match self {
            Handle::Open(_) => Ok(()),
            Handle::Closed => {
                match kind {
                    HandleKind::Repository => Err(EngineError::closed_repo()),
                    HandleKind::RegularFile => Err(EngineError::closed_file()),
                    HandleKind::VersionedReader => Err(EngineError::closed_file()),
                }
            },
        }
    }
}

/// Closing a handle is idempotent: a second close observes the same closed
/// state the first one produced, so the underlying resource can never be
/// released twice.
pub proof fn lemma_close_idempotent<T>(h: Handle<T>)
    ensures
        close_model(close_model(h)) == close_model(h),
{
}

/// After a close, every operation is refused: a closed handle is never
/// open, so `ensure_open` reports the Closed-class error and the engine
/// is not invoked.
pub proof fn lemma_no_delegation_after_close<T>(h: Handle<T>)
    ensures
        !(close_model(h) is Open),
{
}

/// The tagged seek target handed to the engine: an absolute offset from
/// the start, or a signed offset from the end or the current position.
#[derive(Clone, Copy, PartialEq, Eq, Structural, Debug)]
pub enum SeekDirective {
    Start(u64),
    End(i64),
    Current(i64),
}

/// Build the seek directive from the numeric `whence` selector and signed
/// offset. Selector 0 seeks from the start, 1 from the end, 2 from the
/// current position; any other selector is rejected with the
/// invalid-argument failure before anything is delegated, so the position
/// is left untouched.
pub fn build_seek(whence: u32, offset: i32) -> (r: Result<SeekDirective, EngineError>)
    ensures
        whence == 0 ==> r is Ok && r->Ok_0 == SeekDirective::Start(offset as u64),
        whence == 1 ==> r is Ok && r->Ok_0 == SeekDirective::End(offset as i64),
        whence == 2 ==> r is Ok && r->Ok_0 == SeekDirective::Current(offset as i64),
        whence > 2 ==> r is Err && r->Err_0.code == INVALID_ARGUMENT_CODE && r->Err_0.desc@
            == "Invalid argument"@,
{
    match whence {
        0 => Ok(SeekDirective::Start(offset as u64)),
        1 => Ok(SeekDirective::End(offset as i64)),
        2 => Ok(SeekDirective::Current(offset as i64)),
        _ => Err(EngineError::invalid_argument()),
    }
}

} // verus!
