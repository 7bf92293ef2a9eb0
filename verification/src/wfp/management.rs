//! The backend's WFP sublayer: what installing and removing it means.
use vstd::prelude::*;

use crate::error::{EngineError, EngineErrorCode};
use crate::wfp::engine::wfp_error;

verus! {

/// `FWP_E_ALREADY_EXISTS`.
pub const FWP_E_ALREADY_EXISTS: u32 = 0x8032_0009;

/// `FWP_E_NOT_FOUND`.
pub const FWP_E_NOT_FOUND: u32 = 0x8032_0008;

/// Installs the sublayer. Without the native platform the backend is
/// unavailable.
pub fn add_sublayer(engine: usize) -> (r: Result<(), EngineError>)
    ensures
        r is Err && wfp_error(r->Err_0, EngineErrorCode::BackendUnavailable),
{
    Err(EngineError::backend(EngineErrorCode::BackendUnavailable, "wfp"))
}

/// Removes the sublayer; without the native platform there is none.
pub fn remove_sublayer(engine: usize) -> (r: Result<(), EngineError>)
    ensures
        r is Ok,
{
    Ok(())
}

/// What `FwpmSubLayerAdd0` returning `status` means for session `engine`:
/// session 0 is an invalid handle; success, or a sublayer that already
/// exists, installs it; any other status fails initialization.
pub fn sublayer_add_outcome(engine: usize, status: u32) -> (r: Result<(), EngineError>)
    ensures
        engine == 0 ==> r is Err && wfp_error(r->Err_0, EngineErrorCode::InvalidHandle),
        engine != 0 ==> (r is Ok == (status == 0 || status == FWP_E_ALREADY_EXISTS)),
        engine != 0 && r is Err ==> wfp_error(r->Err_0, EngineErrorCode::BackendInitializationFailed)
            && r->Err_0.native_code == Some(status as i32),
{
    if engine == 0 {
        return Err(EngineError::backend(EngineErrorCode::InvalidHandle, "wfp"));
    }
    if status == 0 || status == FWP_E_ALREADY_EXISTS {
        return Ok(());
    }
    Err(EngineError::backend_native(EngineErrorCode::BackendInitializationFailed, "wfp", status as i32))
}

/// What `FwpmSubLayerDeleteByKey0` returning `status` means: without a
/// session there is nothing to remove; success, or a sublayer that is
/// already gone, removes it; any other status fails shutdown.
pub fn sublayer_remove_outcome(engine: usize, status: u32) -> (r: Result<(), EngineError>)
    ensures
        engine == 0 ==> r is Ok,
        engine != 0 ==> (r is Ok == (status == 0 || status == FWP_E_NOT_FOUND)),
        engine != 0 && r is Err ==> wfp_error(r->Err_0, EngineErrorCode::BackendShutdownFailed)
            && r->Err_0.native_code == Some(status as i32),
{
    if engine == 0 {
        return Ok(());
    }
    if status == 0 || status == FWP_E_NOT_FOUND {
        return Ok(());
    }
    Err(EngineError::backend_native(EngineErrorCode::BackendShutdownFailed, "wfp", status as i32))
}

} // verus!
