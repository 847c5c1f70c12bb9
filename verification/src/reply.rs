//! What the client makes of the HTTP status and error headers of a reply,
//! and of the status field inside a reply body.
use vstd::prelude::*;
use crate::error::PocketApiError;

verus! {

/// A 2xx status.
pub open spec fn is_success_status(status: u16) -> bool {
    200 <= status < 300
}

/// Whether `status` is a success (2xx), as `http::StatusCode::is_success`
/// decides it.
pub fn status_is_success(status: u16) -> (ok: bool)
    ensures
        ok == is_success_status(status),
{
    200 <= status && status < 300
}

/// `res` is the verdict on a reply with this status and these values of the
/// `X-Error-Code` and `X-Error` headers (`None`: missing or not text).
pub open spec fn reply_verdict(
    status: u16,
    error_code: Option<Seq<char>>,
    error_desc: Option<Seq<char>>,
    res: Result<(), PocketApiError>,
) -> bool {
    if is_success_status(status) {
        res is Ok
    } else {
        match (error_code, error_desc) {
            (Some(code), Some(desc)) => res matches Err(PocketApiError::PocketApiError(s, c, d))
                && s == status && c@ == code && d@ == desc,
            _ => res matches Err(PocketApiError::PocketUnknownApiError(s)) && s == status,
        }
    }
}

/// A successful reply goes on to have its body read; any other is an error,
/// which carries the API's error code and description when both headers are
/// there.
pub fn check_reply_status(status: u16, error_code: Option<String>, error_desc: Option<String>) -> (res:
    Result<(), PocketApiError>)
    ensures
        reply_verdict(
            status,
            crate::url_ops::opt_string_view(error_code),
            crate::url_ops::opt_string_view(error_desc),
            res,
        ),
        (200 <= status < 300) <==> res is Ok,
        !(200 <= status < 300) && error_code is Some && error_desc is Some ==> (res matches Err(
            PocketApiError::PocketApiError(s, c, d),
        ) && s == status && error_code == Some(c) && error_desc == Some(d)),
        !(200 <= status < 300) && (error_code is None || error_desc is None) ==> (res matches Err(
            PocketApiError::PocketUnknownApiError(s),
        ) && s == status),
{
    proof {
        law_refusal_verdict(
            status,
            crate::url_ops::opt_string_view(error_code),
            crate::url_ops::opt_string_view(error_desc),
        );
    }
    if status_is_success(status) {
        return Ok(());
    }
    match (error_code, error_desc) {
        (Some(code), Some(desc)) => Err(PocketApiError::PocketApiError(status, code, desc)),
        _ => Err(PocketApiError::PocketUnknownApiError(status)),
    }
}

/// Any 2xx reply goes on; any other reply that names both an error code and
/// a description is refused with exactly that status, code and description,
/// whatever the status is; only a reply missing one of the two is refused as
/// unknown.
pub proof fn law_refusal_verdict(
    status: u16,
    error_code: Option<Seq<char>>,
    error_desc: Option<Seq<char>>,
)
    ensures
        forall|res: Result<(), PocketApiError>|
            #[trigger] reply_verdict(status, error_code, error_desc, res) ==> {
                &&& (200 <= status < 300) <==> res is Ok
                &&& !(200 <= status < 300) && error_code is Some && error_desc is Some ==> (
                res matches Err(PocketApiError::PocketApiError(s, c, d)) && s == status
                    && error_code == Some(c@) && error_desc == Some(d@))
                &&& !(200 <= status < 300) && (error_code is None || error_desc is None) ==> (
                res matches Err(PocketApiError::PocketUnknownApiError(s)) && s == status)
            },
{
}

/// Two refused replies with the same headers get the same kind of verdict,
/// whatever their statuses.
pub proof fn law_verdict_kind_independent_of_status(
    s1: u16,
    s2: u16,
    error_code: Option<Seq<char>>,
    error_desc: Option<Seq<char>>,
    r1: Result<(), PocketApiError>,
    r2: Result<(), PocketApiError>,
)
    requires
        !(200 <= s1 < 300),
        !(200 <= s2 < 300),
        reply_verdict(s1, error_code, error_desc, r1),
        reply_verdict(s2, error_code, error_desc, r2),
    ensures
        (r1 matches Err(PocketApiError::PocketApiError(..))) <==> (r2 matches Err(
            PocketApiError::PocketApiError(..),
        )),
        (r1 matches Err(PocketApiError::PocketUnknownApiError(..))) <==> (r2 matches Err(
            PocketApiError::PocketUnknownApiError(..),
        )),
{
}

/// The status field that a successful reply body carries.
pub open spec fn api_status_ok(status: i64) -> bool {
    status == 1
}

/// A reply body is accepted when its status field is 1.
pub fn check_api_status(status: i64) -> (res: Result<(), PocketApiError>)
    ensures
        api_status_ok(status) ==> res is Ok,
        !api_status_ok(status) ==> (res matches Err(PocketApiError::PocketInvalidApiStatus(s)) && s
            == status),
{
    if status != 1 {
        return Err(PocketApiError::PocketInvalidApiStatus(status));
    }
    Ok(())
}

} // verus!
