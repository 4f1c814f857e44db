use vstd::prelude::*;

use crate::errcode::ErrCode;
use crate::response::Response;
use crate::response::ResponseBuilder;

verus! {

/// The decision right after the blocking native transfer call: a
/// failing result code is surfaced verbatim and the partly filled
/// builder is discarded — no partial response survives; on success the
/// builder travels on to the status-code query.
pub fn check_transfer(builder: ResponseBuilder, transfer: ErrCode) -> (r: Result<
    ResponseBuilder,
    ErrCode,
>)
    ensures
        transfer.is_success_spec() ==> r == Ok::<ResponseBuilder, ErrCode>(builder),
        !transfer.is_success_spec() ==> r == Err::<ResponseBuilder, ErrCode>(transfer),
{
    if transfer.is_success() {
        Ok(builder)
    } else {
        Err(transfer)
    }
}

/// The decision after the native attribute query for the status code:
/// a failing result code is surfaced verbatim, else the queried value
/// is handed on as the unsigned status code.
pub fn status_query_result(res: ErrCode, value: i64) -> (r: Result<i64, ErrCode>)
    ensures
        res.is_success_spec() ==> r == Ok::<i64, ErrCode>(value),
        !res.is_success_spec() ==> r == Err::<i64, ErrCode>(res),
{
    if res.is_success() {
        Ok(value)
    } else {
        Err(res)
    }
}

/// The last decision of a transfer: a failed status-code query fails
/// the whole call, even though the byte stream succeeded and a
/// complete response was buildable; on success the code is stored and
/// the builder finalized into the immutable response.
pub fn finish_with_status(builder: ResponseBuilder, status: Result<i64, ErrCode>) -> (r: Result<
    Response,
    ErrCode,
>)
    requires
        builder.wf(),
    ensures
        status matches Ok(v) ==> (r matches Ok(resp) && resp.code == v as u64 && resp.hdrs@
            == builder.hdrs@ && resp.body@ == builder.body@ && resp.wf()),
        status matches Err(e) ==> r == Err::<Response, ErrCode>(e),
{
    match status {
        Ok(v) => {
            let mut b = builder;
            b.set_code(#[verifier::truncate] (v as u64));
            Ok(b.build())
        },
        Err(e) => Err(e),
    }
}

} // verus!
