//! The program's error type.
use vstd::prelude::*;
use vstd::std_specs::convert::FromSpecImpl;

verus! {

#[verifier::external_type_specification]
#[verifier::external_body]
pub struct ExIoError(std::io::Error);

/// Shorthand for the program's common result type.
pub type MainResult<T> = Result<T, MainError>;

/// An error in the program.
#[derive(Debug)]
pub enum MainError {
    /// An I/O error.
    Io(std::io::Error),
    /// An error with a message in front of it.
    Tag(String, Box<MainError>),
    /// An error of another library, kept as its message.
    Other(String),
    /// An error message.
    OtherOwned(String),
    /// An error message known when the program is built.
    OtherBorrowed(&'static str),
}

/// Does the error hold an I/O error somewhere?
pub open spec fn has_io(e: MainError) -> bool
    decreases e,
{
    match e {
        MainError::Io(_) => true,
        MainError::Tag(_, inner) => has_io(*inner),
        _ => false,
    }
}

/// The text an error displays as, for an error that holds no I/O error
/// (whose text comes from the operating system).
pub open spec fn error_message(e: MainError) -> Seq<char>
    decreases e,
{
    match e {
        MainError::Io(_) => Seq::empty(),
        MainError::Tag(msg, inner) => msg@ + ": "@ + error_message(*inner),
        MainError::Other(m) => m@,
        MainError::OtherOwned(m) => m@,
        MainError::OtherBorrowed(m) => m@,
    }
}

/// The text of an I/O error, as its `Display` writes it.
#[verifier::external_body]
fn io_error_text(e: &std::io::Error) -> String {
    e.to_string()
}

impl MainError {
    /// The text this error displays as.
    pub fn message(&self) -> (r: String)
        ensures
            !has_io(*self) ==> r@ == error_message(*self),
        decreases self,
    {
        match self {
            MainError::Io(e) => io_error_text(e),
            MainError::Tag(msg, inner) => {
                let tail = inner.message();
                let mut r = msg.clone();
                r.append(": ");
                r.append(tail.as_str());
                proof { reveal_strlit(": "); }
                r
            },
            MainError::Other(m) => m.clone(),
            MainError::OtherOwned(m) => m.clone(),
            MainError::OtherBorrowed(m) => (*m).to_owned(),
        }
    }
}

impl From<std::io::Error> for MainError {
    fn from(v: std::io::Error) -> (r: MainError) {
        MainError::Io(v)
    }
}

impl FromSpecImpl<std::io::Error> for MainError {
    open spec fn obeys_from_spec() -> bool {
        true
    }

    open spec fn from_spec(v: std::io::Error) -> MainError {
        MainError::Io(v)
    }
}

impl From<String> for MainError {
    fn from(v: String) -> (r: MainError) {
        MainError::OtherOwned(v)
    }
}

impl FromSpecImpl<String> for MainError {
    open spec fn obeys_from_spec() -> bool {
        true
    }

    open spec fn from_spec(v: String) -> MainError {
        MainError::OtherOwned(v)
    }
}

impl From<&'static str> for MainError {
    fn from(v: &'static str) -> (r: MainError) {
        MainError::OtherBorrowed(v)
    }
}

impl FromSpecImpl<&'static str> for MainError {
    open spec fn obeys_from_spec() -> bool {
        true
    }

    open spec fn from_spec(v: &'static str) -> MainError {
        MainError::OtherBorrowed(v)
    }
}

} // verus!
