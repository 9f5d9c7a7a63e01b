//! The status with which a request is refused.

use vstd::prelude::*;
use vstd::string::*;
use crate::text::{concat2, Text};

verus! {

/// Why a request is refused.
#[derive(Clone, Copy, Debug, PartialEq, Eq, Structural)]
pub enum Code {
    InvalidArgument,
    NotFound,
    Internal,
}

/// A refusal: its kind, and a message.
#[derive(Debug)]
pub struct Status {
    pub code: Code,
    pub message: String,
}

/// The view of a [`Status`].
#[verifier::ext_equal]
pub struct StatusView {
    pub code: Code,
    pub message: Text,
}

impl DeepView for Status {
    type V = StatusView;

    open spec fn deep_view(&self) -> StatusView {
        StatusView { code: self.code, message: self.message@ }
    }
}

pub open spec fn invalid(message: Text) -> StatusView {
    StatusView { code: Code::InvalidArgument, message }
}

pub open spec fn not_found(message: Text) -> StatusView {
    StatusView { code: Code::NotFound, message }
}

pub open spec fn internal(message: Text) -> StatusView {
    StatusView { code: Code::Internal, message }
}

impl Status {
    pub fn invalid_argument(message: &str) -> (r: Status)
        ensures
            r.deep_view() == invalid(message@),
    {
        Status { code: Code::InvalidArgument, message: message.to_owned() }
    }

    pub fn not_found(message: &str) -> (r: Status)
        ensures
            r.deep_view() == not_found(message@),
    {
        Status { code: Code::NotFound, message: message.to_owned() }
    }

    /// A failure inside, with what failed and the message of the failure.
    pub fn internal(what: &str, message: &str) -> (r: Status)
        ensures
            r.deep_view() == internal(what@ + message@),
    {
        Status { code: Code::Internal, message: concat2(what, message) }
    }
}

/// A reply seen through the views of its value and of its refusal.
pub open spec fn reply<T: DeepView>(r: Result<T, Status>) -> Result<T::V, StatusView> {
    match r {
        Ok(v) => Ok(v.deep_view()),
        Err(e) => Err(e.deep_view()),
    }
}

/// A name, or `default` where it is empty.
pub open spec fn or_default(name: Text) -> Text {
    if name.len() == 0 {
        "default"@
    } else {
        name
    }
}

pub(crate) fn name_or_default(name: &str) -> (r: String)
    ensures
        r@ == or_default(name@),
{
    if name.is_empty() {
        "default".to_owned()
    } else {
        name.to_owned()
    }
}

} // verus!
