use crate::types::TypeId;
use vstd::prelude::*;
use vstd::string::StringExecFns;

verus! {

/// Operating-system error of a failed file operation; carried, never inspected.
#[verifier::external_type_specification]
#[verifier::external_body]
pub struct ExIoError(std::io::Error);

/// What a caller asked for that the storage formats do not allow.
#[derive(Clone, Copy, Debug, PartialEq, Eq, Structural)]
pub enum Violation {
    /// A directory key of 32 bytes or more.
    KeyTooLong,
    /// A root page id that is not above the invalid page id.
    InvalidRootId,
    /// A negative page id where a page of the data file is meant.
    InvalidPageId,
    /// A buffer whose length the operation does not accept.
    BufferLength,
    /// Page bytes that do not form the expected page format.
    MalformedPage,
}

#[derive(Debug)]
pub enum RustubError {
    UntypedError(&'static str),
    IOError(std::io::Error, &'static str),
    AstNodeVisitError(&'static str),
    UnimplementedError(&'static str),
    /// The caller broke a precondition of a page or disk operation.
    ContractViolation(Violation),
    /// Values of the two types cannot be compared or combined.
    IncomparableTypes(TypeId, TypeId),
    /// No cast is defined from the first type to the second, or no
    /// operation on a left operand of the first and a right operand of the
    /// second type.
    UnsupportedCoercion(TypeId, TypeId),
    /// Values of the type have no payload in this library.
    UnsupportedType(TypeId),
    /// The result does not fit the numeric type.
    NumericOutOfRange(TypeId),
    /// A text that does not spell a value of the type.
    InvalidText(TypeId),
    /// Division or remainder by zero.
    DivideByZero,
    /// A null value where a payload is needed.
    NullValue(TypeId),
    /// The device cannot hold the bytes that a write would add.
    OutOfSpace,
}

pub type Result<T> = std::result::Result<T, RustubError>;

/// What `std::fmt::Display` writes for an operating-system error. The
/// text depends on the system, so the contract says nothing of it.
#[verifier::external_body]
fn io_error_text(e: &std::io::Error) -> (text: String) {
    format!("{}", e)
}

impl Violation {
    /// What the caller did wrong, in words.
    pub open spec fn reason(self) -> Seq<char> {
        match self {
            Violation::KeyTooLong => "key is too long"@,
            Violation::InvalidRootId => "root page id is invalid"@,
            Violation::InvalidPageId => "page id is invalid"@,
            Violation::BufferLength => "buffer has the wrong length"@,
            Violation::MalformedPage => "page is malformed"@,
        }
    }

    pub fn to_string(&self) -> (s: String)
        ensures
            s@ == self.reason(),
    {
        match self {
            Violation::KeyTooLong => "key is too long".to_owned(),
            Violation::InvalidRootId => "root page id is invalid".to_owned(),
            Violation::InvalidPageId => "page id is invalid".to_owned(),
            Violation::BufferLength => "buffer has the wrong length".to_owned(),
            Violation::MalformedPage => "page is malformed".to_owned(),
        }
    }
}

/// The message of an I/O error: what the system says of it, then the reason.
pub open spec fn io_message(system: Seq<char>, reason: Seq<char>) -> Seq<char> {
    "IO Error :: "@ + system + " :: "@ + reason
}

/// Builds the message of an I/O error from what the system says of it.
pub fn io_error_message(system: String, reason: &str) -> (s: String)
    ensures
        s@ == io_message(system@, reason@),
{
    "IO Error :: ".to_owned().concat(system.as_str()).concat(" :: ").concat(reason)
}

impl RustubError {
    /// The message of the error, but for an I/O error, whose message
    /// holds a text of the system.
    pub open spec fn message(self) -> Seq<char> {
        match self {
            RustubError::UntypedError(m) => m@,
            RustubError::IOError(_, m) => m@,
            RustubError::AstNodeVisitError(m) => "AST Visit Error :: "@ + m@,
            RustubError::UnimplementedError(m) => "Not Implemented :: "@ + m@,
            RustubError::ContractViolation(v) => "Contract Violation :: "@ + v.reason(),
            RustubError::IncomparableTypes(a, b) => "Type Error :: "@ + a.name() + " is not comparable to "@
                + b.name(),
            RustubError::UnsupportedCoercion(a, b) => "Type Error :: "@ + a.name()
                + " is not coercable to "@ + b.name(),
            RustubError::UnsupportedType(t) => "Type Error :: no values of "@ + t.name(),
            RustubError::NumericOutOfRange(t) => "Type Error :: value out of range of "@ + t.name(),
            RustubError::InvalidText(t) => "Type Error :: text is no "@ + t.name(),
            RustubError::DivideByZero => "Type Error :: division by zero"@,
            RustubError::NullValue(t) => "Type Error :: null of "@ + t.name(),
            RustubError::OutOfSpace => "IO Error :: out of space"@,
        }
    }

    /// The message of the error. For an I/O error it is made of what the
    /// system says of the error and of the reason.
    pub fn to_string(&self) -> (s: String)
        ensures
            match self {
                RustubError::IOError(_, m) => exists|system: Seq<char>|
                    s@ == io_message(system, m@),
                _ => s@ == self.message(),
            },
    {
        match self {
            RustubError::IOError(e, m) => io_error_message(io_error_text(e), m),
            RustubError::UntypedError(m) => String::from_str(m),
            RustubError::UnimplementedError(m) => "Not Implemented :: ".to_owned().concat(m),
            RustubError::AstNodeVisitError(m) => "AST Visit Error :: ".to_owned().concat(m),
            RustubError::ContractViolation(v) => "Contract Violation :: ".to_owned().concat(
                v.to_string().as_str(),
            ),
            RustubError::IncomparableTypes(a, b) => "Type Error :: ".to_owned().concat(
                a.to_string().as_str(),
            ).concat(" is not comparable to ").concat(b.to_string().as_str()),
            RustubError::UnsupportedCoercion(a, b) => "Type Error :: ".to_owned().concat(
                a.to_string().as_str(),
            ).concat(" is not coercable to ").concat(b.to_string().as_str()),
            RustubError::UnsupportedType(t) => "Type Error :: no values of ".to_owned().concat(
                t.to_string().as_str(),
            ),
            RustubError::NumericOutOfRange(t) => "Type Error :: value out of range of ".to_owned().concat(
                t.to_string().as_str(),
            ),
            RustubError::InvalidText(t) => "Type Error :: text is no ".to_owned().concat(
                t.to_string().as_str(),
            ),
            RustubError::DivideByZero => "Type Error :: division by zero".to_owned(),
            RustubError::NullValue(t) => "Type Error :: null of ".to_owned().concat(
                t.to_string().as_str(),
            ),
            RustubError::OutOfSpace => "IO Error :: out of space".to_owned(),
        }
    }
}

} // verus!
