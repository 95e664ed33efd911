//! The errors that commands report to their users.
use vstd::prelude::*;
use vstd::string::*;

verus! {

/// An error shown to the user who ran a command.
#[derive(Debug, Clone, Copy)]
pub enum Error {
    /// The command was used the wrong way.
    InvalidInput(&'static str),
    /// Something the bot depends on failed.
    Failure(&'static str),
}

impl View for Error {
    type V = Seq<char>;

    open spec fn view(&self) -> Seq<char> {
        match self {
            Error::InvalidInput(msg) => msg@,
            Error::Failure(msg) => msg@,
        }
    }
}

impl Error {
    /// The message the error displays.
    pub fn message(&self) -> (r: String)
        ensures
            r@ == self@,
    {
        match self {
            Error::InvalidInput(msg) => String::from_str(msg),
            Error::Failure(msg) => String::from_str(msg),
        }
    }

    /// The text the error is sent with: `Error: ` and its message.
    pub fn report(&self) -> (r: String)
        ensures
            r@ == "Error: "@ + self@,
    {
        let mut v = crate::text::chars_of("Error: ");
        let m = self.message();
        crate::text::push_str(&mut v, m.as_str());
        crate::text::string_of(v.as_slice())
    }
}

} // verus!
