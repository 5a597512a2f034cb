//! What a client makes of the daemon's answer to its request.
use vstd::prelude::*;

use crate::error::{XsError, XsErrorKind};
use crate::wire::{
    decode_utf8, error_kind_of_payload, is_daemon_error, nul_pieces, strip_nul, valid_utf8, XsMessage,
    XsMessageType,
};

verus! {

/// Why an answer is no success for a request of kind `request_type`: the
/// daemon's error, or an answer of another kind; `None` when it is one.
pub open spec fn reply_error(request_type: XsMessageType, response: XsMessage) -> Option<
    XsErrorKind,
> {
    if response.msg_type == request_type {
        None
    } else if response.msg_type == XsMessageType::Error {
        Some(error_kind_of_payload(response.payload@))
    } else {
        Some(XsErrorKind::InvalidData)
    }
}

/// `e` is the error for an answer that is no success for a request of
/// kind `request_type`: of the kind that `reply_error` gives, and, for a
/// daemon error, the error that its payload reports, message included.
pub open spec fn is_reply_error(request_type: XsMessageType, response: XsMessage, e: XsError) -> bool {
    &&& reply_error(request_type, response) == Some(e.kind)
    &&& response.msg_type != request_type && response.msg_type == XsMessageType::Error
        ==> is_daemon_error(e, response.payload@)
}

/// The answer to a request of kind `request_type`, when it is of that kind;
/// otherwise the daemon's error, or an `InvalidData` error for an answer of
/// an unrelated kind.
pub fn check_response(request_type: XsMessageType, response: XsMessage) -> (r: Result<
    XsMessage,
    XsError,
>)
    ensures
        reply_error(request_type, response) is None ==> r == Ok::<XsMessage, XsError>(response),
        reply_error(request_type, response) is Some ==> (r matches Err(e) && is_reply_error(
            request_type,
            response,
            e,
        )),
{
    if response.msg_type == request_type {
        Ok(response)
    } else if response.msg_type == XsMessageType::Error {
        Err(response.parse_error())
    } else {
        Err(XsError::new(XsErrorKind::InvalidData, "Got unrelated response"))
    }
}

/// The child names from the answer to a `Directory` request.
pub fn directory_response(response: XsMessage) -> (r: Result<Vec<String>, XsError>)
    ensures
        reply_error(XsMessageType::Directory, response) is Some ==> (r matches Err(e)
            && is_reply_error(XsMessageType::Directory, response, e)),
        reply_error(XsMessageType::Directory, response) is None ==> {
            let pieces = nul_pieces(response.payload@);
            &&& r is Ok <==> forall|i: int| 0 <= i < pieces.len() ==> valid_utf8(#[trigger] pieces[i])
            &&& r is Err ==> r->Err_0.kind == XsErrorKind::InvalidData
            &&& r matches Ok(v) ==> v@.len() == pieces.len() && forall|i: int|
                0 <= i < v@.len() ==> #[trigger] v@[i]@ == decode_utf8(pieces[i])
        },
{
    let response = check_response(XsMessageType::Directory, response)?;
    let list = match response.parse_payload_list() {
        Ok(list) => list,
        Err(_) => {
            return Err(XsError::new(XsErrorKind::InvalidData, "Payload is not valid UTF-8"));
        },
    };
    let mut names: Vec<String> = Vec::new();
    let mut i: usize = 0;
    while i < list.len()
        invariant
            i <= list@.len(),
            names@.len() == i,
            forall|j: int| 0 <= j < i ==> #[trigger] names@[j]@ == list@[j]@,
        decreases list@.len() - i,
    {
        names.push(list[i].to_owned());
        i = i + 1;
    }
    Ok(names)
}

/// The value from the answer to a `Read` request: the empty string when
/// the payload is empty.
pub fn read_response(response: XsMessage) -> (r: Result<String, XsError>)
    ensures
        reply_error(XsMessageType::Read, response) is Some ==> (r matches Err(e)
            && is_reply_error(XsMessageType::Read, response, e)),
        reply_error(XsMessageType::Read, response) is None ==> {
            let p = response.payload@;
            &&& p.len() == 0 ==> (r matches Ok(s) && s@ == Seq::<char>::empty())
            &&& p.len() > 0 && valid_utf8(strip_nul(p)) ==> (r matches Ok(s) && s@ == decode_utf8(
                strip_nul(p),
            ))
            &&& p.len() > 0 && !valid_utf8(strip_nul(p)) ==> (r matches Err(e) && e.kind
                == XsErrorKind::InvalidData)
        },
{
    let response = check_response(XsMessageType::Read, response)?;
    match response.parse_payload_str() {
        Ok(Some(s)) => Ok(s.to_owned()),
        Ok(None) => Ok(String::new()),
        Err(_) => Err(XsError::new(XsErrorKind::InvalidData, "Payload is not valid UTF-8")),
    }
}

/// Success or failure from the answer to a request that returns nothing
/// (`Write`, `Rm`).
pub fn ack_response(request_type: XsMessageType, response: XsMessage) -> (r: Result<(), XsError>)
    ensures
        reply_error(request_type, response) is None ==> r is Ok,
        reply_error(request_type, response) is Some ==> (r matches Err(e) && is_reply_error(
            request_type,
            response,
            e,
        )),
{
    check_response(request_type, response)?;
    Ok(())
}

} // verus!
