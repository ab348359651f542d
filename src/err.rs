use vstd::prelude::*;

verus! {

/// The kinds of error that the library reports.
#[derive(Clone, Copy, Debug, PartialEq, Eq, Hash, Structural)]
pub enum ErrorKind {
    /// A policy was created with an empty action set.
    ActionsCannotBeEmptyError,
    /// A policy was created with a version other than 1.
    UnknownPolicyVersionError,
    /// A value had not the shape that was expected (a missing field, a wrong type).
    UnwrapNoneValueError,
    /// Any other error.
    UnknownError,
}

/// An error of the library: a kind and a human readable message.
#[derive(Clone, Debug)]
pub struct Error {
    kind: ErrorKind,
    message: String,
}

/// The message carried by the error that an empty action set raises.
pub open spec fn actions_empty_message() -> Seq<char> {
    "Actions set cannot be empty"@
}

/// The message carried by the error that an unknown version raises.
pub open spec fn unknown_version_message() -> Seq<char> {
    "Unknown policy version"@
}

/// The message of the error raised when unwrapping a missing value.
pub open spec fn none_message() -> Seq<char> {
    "Trying to unwrap none value"@
}

impl Error {
    pub closed spec fn spec_kind(&self) -> ErrorKind {
        self.kind
    }

    pub closed spec fn spec_message(&self) -> Seq<char> {
        self.message@
    }

    pub fn new(kind: ErrorKind, message: String) -> (r: Self)
        ensures
            r.spec_kind() == kind,
            r.spec_message() == message@,
    {
        Error { kind, message }
    }

    /// The message of the error.
    pub fn get_ref(&self) -> (r: Option<&String>)
        ensures
            r is Some,
            r->Some_0@ == self.spec_message(),
    {
        Some(&self.message)
    }

    /// The message of the error, to be changed in place.
    pub fn get_mut(&mut self) -> (r: Option<&mut String>)
        ensures
            r is Some,
            r->Some_0@ == old(self).spec_message(),
            final(self).spec_kind() == old(self).spec_kind(),
    {
        Some(&mut self.message)
    }

    /// Consumes the error and gives back its message.
    pub fn into_inner(self) -> (r: Option<String>)
        ensures
            r is Some,
            r->Some_0@ == self.spec_message(),
    {
        Some(self.message)
    }

    pub fn kind(&self) -> (r: ErrorKind)
        ensures
            r == self.spec_kind(),
    {
        self.kind
    }

    /// The text of the error, as shown to a user.
    pub fn to_string(&self) -> (r: String)
        ensures
            r@ == self.spec_message(),
    {
        self.message.clone()
    }

    pub fn actions_cannot_be_empty() -> (r: Self)
        ensures
            r.spec_kind() == ErrorKind::ActionsCannotBeEmptyError,
            r.spec_message() == actions_empty_message(),
    {
        Self::new(ErrorKind::ActionsCannotBeEmptyError, String::from_str("Actions set cannot be empty"))
    }

    /// The error for a policy version that is not known. The version is not part of the message.
    pub fn unknown_policy_version(version: i32) -> (r: Self)
        ensures
            r.spec_kind() == ErrorKind::UnknownPolicyVersionError,
            r.spec_message() == unknown_version_message(),
    {
        Self::new(ErrorKind::UnknownPolicyVersionError, String::from_str("Unknown policy version"))
    }

    /// An error on a value of the wrong shape, with the given explanation.
    pub fn malformed(message: &str) -> (r: Self)
        ensures
            r.spec_kind() == ErrorKind::UnwrapNoneValueError,
            r.spec_message() == message@,
    {
        Self::new(ErrorKind::UnwrapNoneValueError, String::from_str(message))
    }

    /// Any other error, with the given explanation.
    pub fn other(message: &str) -> (r: Self)
        ensures
            r.spec_kind() == ErrorKind::UnknownError,
            r.spec_message() == message@,
    {
        Self::new(ErrorKind::UnknownError, String::from_str(message))
    }
}

/// The error of a value that was expected and is missing.
#[derive(Clone, Copy, Debug, PartialEq, Eq, Structural)]
pub struct NoneError {}

impl NoneError {
    pub fn to_string(&self) -> (r: String)
        ensures
            r@ == none_message(),
    {
        String::from_str("Trying to unwrap none value")
    }

    /// The library error that stands for this one.
    pub fn into_error(self) -> (r: Error)
        ensures
            r.spec_kind() == ErrorKind::UnwrapNoneValueError,
            r.spec_message() == none_message(),
    {
        Error::new(ErrorKind::UnwrapNoneValueError, self.to_string())
    }
}

} // verus!
