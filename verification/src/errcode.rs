use vstd::prelude::*;

verus! {

/// Wraps the raw result integer returned by every native engine call.
/// The native engine reports success as zero; any non-zero value is a
/// failure code whose meaning belongs to the engine's own error table.
#[derive(Clone, Copy, Debug, PartialEq, Eq, Structural)]
pub struct ErrCode {
    pub code: i32,
}

impl ErrCode {
    /// Success means the native call reported the zero result code.
    pub open spec fn is_success_spec(&self) -> bool {
        self.code == 0
    }

    pub fn new(code: i32) -> (r: ErrCode)
        ensures
            r.code == code,
    {
        ErrCode { code }
    }

    /// The success predicate over the wrapped native result integer.
    #[verifier::when_used_as_spec(is_success_spec)]
    pub fn is_success(&self) -> (r: bool)
        ensures
            r == self.is_success_spec(),
    {
        self.code == 0
    }

    /// Classifies the native result: zero becomes `Ok`, anything else is
    /// surfaced verbatim as `Err` with this very code.
    pub fn into_result(self) -> (r: Result<(), ErrCode>)
        ensures
            self.is_success_spec() ==> r == Ok::<(), ErrCode>(()),
            !self.is_success_spec() ==> r == Err::<(), ErrCode>(self),
    {
        if self.code == 0 {
            Ok(())
        } else {
            Err(self)
        }
    }
}

} // verus!
