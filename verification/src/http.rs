//! The few notions of HTTP that the handlers decide on.

use vstd::prelude::*;

verus! {

/// The method of a request.
#[derive(Clone, Copy, Debug, PartialEq, Eq, Structural)]
pub enum Method {
    Get,
    Head,
    Post,
    Put,
    Delete,
    Options,
    /// Any other method.
    Other,
}

/// The status of a response.
#[derive(Clone, Copy, Debug, PartialEq, Eq, Structural)]
pub enum Status {
    /// 200
    Success,
    /// 206
    PartialContent,
    /// 404
    NotFound,
    /// 405
    MethodNotAllowed,
    /// 500
    InternalServerError,
}

impl Status {
    /// The status code as a number.
    pub open spec fn number(self) -> u16 {
        match self {
            Status::Success => 200,
            Status::PartialContent => 206,
            Status::NotFound => 404,
            Status::MethodNotAllowed => 405,
            Status::InternalServerError => 500,
        }
    }

    /// The status code as a number.
    pub fn code(&self) -> (code: u16)
        ensures
            code == self.number(),
    {
        match self {
            Status::Success => 200,
            Status::PartialContent => 206,
            Status::NotFound => 404,
            Status::MethodNotAllowed => 405,
            Status::InternalServerError => 500,
        }
    }
}

/// The media type announced for a body.
#[derive(Clone, Copy, Debug, PartialEq, Eq, Structural)]
pub enum ContentType {
    /// `text/xml`
    Xml,
    /// `application/octet-stream`
    OctetStream,
}

} // verus!
