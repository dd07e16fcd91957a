use vstd::prelude::*;

verus! {

/// Whether a failure means "the requested entity does not exist" or an
/// operational fault.
#[derive(Clone, Copy, Debug, PartialEq, Eq, Structural)]
pub enum ErrorKind {
    NotFound,
    Internal,
}

/// A requested artist, album, track or artwork does not exist.
#[derive(Debug)]
pub struct EntityNotFoundError {
    pub msg: String,
}

impl EntityNotFoundError {
    pub fn new(msg: &str) -> (r: Self)
        ensures
            r.msg@ == msg@,
    {
        EntityNotFoundError { msg: msg.to_owned() }
    }

    /// The HTTP status that reports this error: 404.
    pub fn status_code(&self) -> (r: u16)
        ensures
            r == 404,
    {
        404
    }

    pub fn message(&self) -> (r: String)
        ensures
            r@ == self.msg@,
    {
        self.msg.clone()
    }
}

/// The error of every fallible operation of the library.
#[derive(Debug)]
pub struct MSError {
    pub kind: ErrorKind,
    pub msg: String,
}

impl MSError {
    pub fn internal(msg: &str) -> (r: Self)
        ensures
            r.kind == ErrorKind::Internal,
            r.msg@ == msg@,
    {
        MSError { kind: ErrorKind::Internal, msg: msg.to_owned() }
    }

    pub fn is_not_found(&self) -> (r: bool)
        ensures
            r == (self.kind == ErrorKind::NotFound),
    {
        self.kind == ErrorKind::NotFound
    }

    /// The HTTP status that reports this error: 404 for a missing entity,
    /// 500 for anything else.
    pub fn status_code(&self) -> (r: u16)
        ensures
            r == (if self.kind == ErrorKind::NotFound { 404u16 } else { 500u16 }),
    {
        match self.kind {
            ErrorKind::NotFound => 404,
            ErrorKind::Internal => 500,
        }
    }

    pub fn message(&self) -> (r: String)
        ensures
            r@ == self.msg@,
    {
        self.msg.clone()
    }
}

impl From<EntityNotFoundError> for MSError {
    fn from(err: EntityNotFoundError) -> (r: MSError) {
        MSError { kind: ErrorKind::NotFound, msg: err.msg }
    }
}

impl vstd::std_specs::convert::FromSpecImpl<EntityNotFoundError> for MSError {
    open spec fn obeys_from_spec() -> bool {
        true
    }

    open spec fn from_spec(v: EntityNotFoundError) -> MSError {
        MSError { kind: ErrorKind::NotFound, msg: v.msg }
    }
}

} // verus!
