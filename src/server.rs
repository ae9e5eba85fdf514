use vstd::prelude::*;

use crate::status::{Code, Status};

verus! {

/// The response to a call of a method that the service does not provide:
/// it resolves at once to an `Unimplemented` status.
pub struct ResponseFuture {
    status: Status,
}

impl ResponseFuture {
    pub closed spec fn spec_status(&self) -> Status {
        self.status
    }

    /// The status that the response carries.
    pub fn status(&self) -> (r: &Status)
        ensures
            *r == self.spec_status(),
    {
        &self.status
    }

    pub fn into_status(self) -> (r: Status)
        ensures
            r == self.spec_status(),
    {
        self.status
    }
}

/// Answers a call with code `Unimplemented` and `message`.
pub fn unimplemented(message: String) -> (r: ResponseFuture)
    ensures
        r.spec_status().code == Code::Unimplemented,
        r.spec_status().message@ == message@,
{
    ResponseFuture { status: Status::new(Code::Unimplemented, message) }
}

} // verus!
