//! The status a handler returns: flags that say whether it went well,
//! completed the request, or failed, and how such a status is reported to
//! the run.
use vstd::prelude::*;
use crate::dispatch::executor::HandleReport;
use crate::dispatch::run::{HandlerReport, ReportView};

verus! {

/// The flags of a handler status.
#[derive(Debug, Clone, Copy, PartialEq, Eq, Structural)]
pub struct Code(pub u32);

impl Code {
    pub const OK: u32 = 1;
    pub const REQUEST_COMPLETED: u32 = 2;
    pub const CLIENT_ERROR: u32 = 4;
    pub const SERVER_ERROR: u32 = 8;
    pub const TIMEOUT: u32 = 16;

    /// Whether every flag of `flags` is set.
    pub fn all_flags(&self, flags: u32) -> (r: bool)
        ensures
            r == (self.0 & flags == flags),
    {
        self.0 & flags == flags
    }

    /// Whether some flag of `flags` is set.
    pub fn any_flags(&self, flags: u32) -> (r: bool)
        ensures
            r == (self.0 & flags != 0),
    {
        self.0 & flags != 0
    }

    /// Whether a client error, server error or timeout flag is set.
    pub fn is_error(&self) -> (r: bool)
        ensures
            r == (self.0 & 28u32 != 0),
    {
        assert(4u32 | 8u32 | 16u32 == 28u32) by (bit_vector);
        self.any_flags(Code::CLIENT_ERROR | Code::SERVER_ERROR | Code::TIMEOUT)
    }
}

/// The status a handler returns.
#[derive(Debug)]
pub struct HandlerStatus {
    pub code: Code,
}

impl HandlerStatus {
    pub fn new(code: Code) -> (s: Self)
        ensures
            s.code == code,
    {
        Self { code }
    }

    pub fn code(&self) -> (c: Code)
        ensures
            c == self.code,
    {
        self.code
    }
}

/// Why a handler failed to execute.
#[derive(Debug)]
pub struct HandlerExecutionError {
    pub message: String,
}

/// What a handler's answer tells the run: for a status, whether it
/// completes the request and whether it is an error; for a failure, its
/// message.
pub fn report(result: Result<HandlerStatus, HandlerExecutionError>) -> (r: HandlerReport)
    ensures
        r@ == (match result {
            Ok(status) => ReportView::Status {
                completed: status.code.0 & 2u32 == 2u32,
                error: status.code.0 & 28u32 != 0,
            },
            Err(e) => ReportView::Failed(e.message@),
        }),
{
    match result {
        Ok(status) => HandlerReport::Status {
            completed: status.code().all_flags(Code::REQUEST_COMPLETED),
            error: status.code().is_error(),
        },
        Err(e) => HandlerReport::Failed(e.message),
    }
}

/// What a handler's answer tells the numbered-handler executor: for a
/// status, whether it completes the request and whether it has any of the
/// error, timeout or completion flags; for a failure, only that.
pub fn handle_report(result: &Result<HandlerStatus, HandlerExecutionError>) -> (r: HandleReport)
    ensures
        match result {
            Ok(status) => r == (HandleReport::Status {
                completed: status.code.0 & 2u32 == 2u32,
                flagged: status.code.0 & 30u32 != 0,
            }),
            Err(_) => r is Failed,
        },
{
    assert(4u32 | 8u32 | 16u32 | 2u32 == 30u32) by (bit_vector);
    match result {
        Ok(status) => HandleReport::Status {
            completed: status.code.all_flags(Code::REQUEST_COMPLETED),
            flagged: status.code.any_flags(Code::CLIENT_ERROR | Code::SERVER_ERROR | Code::TIMEOUT | Code::REQUEST_COMPLETED),
        },
        Err(_) => HandleReport::Failed,
    }
}

} // verus!
