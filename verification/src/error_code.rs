//! The protocol's error codes and the errors that carry them.

use vstd::prelude::*;

use crate::protocol::{A2AError, A2AErrorView};

verus! {

pub const PARSE_ERROR: i32 = -32700;

pub const INVALID_REQUEST: i32 = -32600;

pub const METHOD_NOT_FOUND: i32 = -32601;

pub const INVALID_PARAMS: i32 = -32602;

pub const INTERNAL_ERROR: i32 = -32603;

pub const TASK_NOT_FOUND: i32 = -32001;

pub const TASK_NOT_CANCELABLE: i32 = -32002;

pub const PUSH_NOTIFICATION_NOT_SUPPORTED: i32 = -32003;

pub const UNSUPPORTED_OPERATION: i32 = -32004;

pub const CONTENT_TYPE_NOT_SUPPORTED: i32 = -32005;

pub const INVALID_AGENT_RESPONSE: i32 = -32006;

pub const EXTENDED_CARD_NOT_CONFIGURED: i32 = -32007;

pub const EXTENSION_SUPPORT_REQUIRED: i32 = -32008;

pub const VERSION_NOT_SUPPORTED: i32 = -32009;

/// The name of an error code; an unknown code is an internal error.
pub open spec fn reason(code: i32) -> Seq<char> {
    if code == PARSE_ERROR {
        "PARSE_ERROR"@
    } else if code == INVALID_REQUEST {
        "INVALID_REQUEST"@
    } else if code == METHOD_NOT_FOUND {
        "METHOD_NOT_FOUND"@
    } else if code == INVALID_PARAMS {
        "INVALID_PARAMS"@
    } else if code == TASK_NOT_FOUND {
        "TASK_NOT_FOUND"@
    } else if code == TASK_NOT_CANCELABLE {
        "TASK_NOT_CANCELABLE"@
    } else if code == PUSH_NOTIFICATION_NOT_SUPPORTED {
        "PUSH_NOTIFICATION_NOT_SUPPORTED"@
    } else if code == UNSUPPORTED_OPERATION {
        "UNSUPPORTED_OPERATION"@
    } else if code == CONTENT_TYPE_NOT_SUPPORTED {
        "CONTENT_TYPE_NOT_SUPPORTED"@
    } else if code == INVALID_AGENT_RESPONSE {
        "INVALID_AGENT_RESPONSE"@
    } else if code == EXTENDED_CARD_NOT_CONFIGURED {
        "EXTENDED_AGENT_CARD_NOT_CONFIGURED"@
    } else if code == EXTENSION_SUPPORT_REQUIRED {
        "EXTENSION_SUPPORT_REQUIRED"@
    } else if code == VERSION_NOT_SUPPORTED {
        "VERSION_NOT_SUPPORTED"@
    } else {
        "INTERNAL_ERROR"@
    }
}

/// The name of an error code.
pub fn error_reason(code: i32) -> (r: &'static str)
    ensures
        r@ == reason(code),
{
    if code == PARSE_ERROR {
        "PARSE_ERROR"
    } else if code == INVALID_REQUEST {
        "INVALID_REQUEST"
    } else if code == METHOD_NOT_FOUND {
        "METHOD_NOT_FOUND"
    } else if code == INVALID_PARAMS {
        "INVALID_PARAMS"
    } else if code == TASK_NOT_FOUND {
        "TASK_NOT_FOUND"
    } else if code == TASK_NOT_CANCELABLE {
        "TASK_NOT_CANCELABLE"
    } else if code == PUSH_NOTIFICATION_NOT_SUPPORTED {
        "PUSH_NOTIFICATION_NOT_SUPPORTED"
    } else if code == UNSUPPORTED_OPERATION {
        "UNSUPPORTED_OPERATION"
    } else if code == CONTENT_TYPE_NOT_SUPPORTED {
        "CONTENT_TYPE_NOT_SUPPORTED"
    } else if code == INVALID_AGENT_RESPONSE {
        "INVALID_AGENT_RESPONSE"
    } else if code == EXTENDED_CARD_NOT_CONFIGURED {
        "EXTENDED_AGENT_CARD_NOT_CONFIGURED"
    } else if code == EXTENSION_SUPPORT_REQUIRED {
        "EXTENSION_SUPPORT_REQUIRED"
    } else if code == VERSION_NOT_SUPPORTED {
        "VERSION_NOT_SUPPORTED"
    } else {
        "INTERNAL_ERROR"
    }
}

/// The error that there is no task `task_id`.
pub open spec fn not_found(task_id: Seq<char>) -> A2AErrorView {
    A2AErrorView { code: TASK_NOT_FOUND, message: "task not found: "@ + task_id }
}

/// The error that the task `task_id` has ended.
pub open spec fn not_cancelable(task_id: Seq<char>) -> A2AErrorView {
    A2AErrorView { code: TASK_NOT_CANCELABLE, message: "task not cancelable: "@ + task_id }
}

/// The error that the agent keeps no push configurations.
pub open spec fn no_push_notifications() -> A2AErrorView {
    A2AErrorView {
        code: PUSH_NOTIFICATION_NOT_SUPPORTED,
        message: "push notifications are not supported"@,
    }
}

impl A2AError {
    /// An error with the given code and message.
    pub fn new(code: i32, message: String) -> (r: A2AError)
        ensures
            r.code == code,
            r.message@ == message@,
    {
        A2AError { code, message }
    }

    /// The agent failed.
    pub fn internal(message: &str) -> (r: A2AError)
        ensures
            r.code == INTERNAL_ERROR,
            r.message@ == message@,
    {
        A2AError { code: INTERNAL_ERROR, message: message.to_string() }
    }

    /// The request is not acceptable as it stands.
    pub fn invalid_request(message: &str) -> (r: A2AError)
        ensures
            r.code == INVALID_REQUEST,
            r.message@ == message@,
    {
        A2AError { code: INVALID_REQUEST, message: message.to_string() }
    }

    /// A parameter of the request is not acceptable.
    pub fn invalid_params(message: &str) -> (r: A2AError)
        ensures
            r.code == INVALID_PARAMS,
            r.message@ == message@,
    {
        A2AError { code: INVALID_PARAMS, message: message.to_string() }
    }

    /// The agent offers no such operation.
    pub fn unsupported_operation(message: &str) -> (r: A2AError)
        ensures
            r.code == UNSUPPORTED_OPERATION,
            r.message@ == message@,
    {
        A2AError { code: UNSUPPORTED_OPERATION, message: message.to_string() }
    }

    /// The agent keeps no push configurations.
    pub fn push_notification_not_supported() -> (r: A2AError)
        ensures
            r.deep_view() == no_push_notifications(),
    {
        A2AError {
            code: PUSH_NOTIFICATION_NOT_SUPPORTED,
            message: "push notifications are not supported".to_string(),
        }
    }

    /// There is no task `task_id`.
    pub fn task_not_found(task_id: &str) -> (r: A2AError)
        ensures
            r.deep_view() == not_found(task_id@),
    {
        let mut message = "task not found: ".to_string();
        message.append(task_id);
        A2AError { code: TASK_NOT_FOUND, message }
    }

    /// The task `task_id` has ended and cannot be canceled.
    pub fn task_not_cancelable(task_id: &str) -> (r: A2AError)
        ensures
            r.deep_view() == not_cancelable(task_id@),
    {
        let mut message = "task not cancelable: ".to_string();
        message.append(task_id);
        A2AError { code: TASK_NOT_CANCELABLE, message }
    }
}

/// Every code of the protocol has a name of its own, and any other code is
/// told as an internal error.
pub proof fn codes_have_names(code: i32, r: &'static str)
    requires
        call_ensures(error_reason, (code,), r),
    ensures
        code == -32700 ==> r@ == "PARSE_ERROR"@,
        code == -32600 ==> r@ == "INVALID_REQUEST"@,
        code == -32601 ==> r@ == "METHOD_NOT_FOUND"@,
        code == -32602 ==> r@ == "INVALID_PARAMS"@,
        code == -32603 ==> r@ == "INTERNAL_ERROR"@,
        code == -32001 ==> r@ == "TASK_NOT_FOUND"@,
        code == -32002 ==> r@ == "TASK_NOT_CANCELABLE"@,
        code == -32003 ==> r@ == "PUSH_NOTIFICATION_NOT_SUPPORTED"@,
        code == -32004 ==> r@ == "UNSUPPORTED_OPERATION"@,
        code == -32005 ==> r@ == "CONTENT_TYPE_NOT_SUPPORTED"@,
        code == -32006 ==> r@ == "INVALID_AGENT_RESPONSE"@,
        code == -32007 ==> r@ == "EXTENDED_AGENT_CARD_NOT_CONFIGURED"@,
        code == -32008 ==> r@ == "EXTENSION_SUPPORT_REQUIRED"@,
        code == -32009 ==> r@ == "VERSION_NOT_SUPPORTED"@,
        !(-32009 <= code <= -32001) && !(-32602 <= code <= -32600) && code != -32700 ==> r@
            == "INTERNAL_ERROR"@,
{
}

} // verus!
