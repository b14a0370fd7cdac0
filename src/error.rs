use vstd::prelude::*;

verus! {

/// Error returned by parsing and by fallible conversions; it carries a readable message.
#[derive(Clone, Debug)]
pub enum Error {
    E(String),
}

impl Error {
    /// The message this error carries.
    pub open spec fn message(&self) -> Seq<char> {
        match self {
            Error::E(s) => s@,
        }
    }

    /// Builds an error from a message.
    pub fn msg(m: &str) -> (r: Error)
        ensures
            r.message() == m@,
    {
        Error::E(m.to_owned())
    }

    /// The message, as `Display` would write it.
    pub fn to_string(&self) -> (r: String)
        ensures
            r@ == self.message(),
    {
        match self {
            Error::E(s) => s.clone(),
        }
    }
}

impl From<&str> for Error {
    fn from(arg: &str) -> (r: Error)
        ensures
            r.message() == arg@,
    {
        Error::E(arg.to_owned())
    }
}

impl vstd::std_specs::convert::FromSpecImpl<&str> for Error {
    open spec fn obeys_from_spec() -> bool {
        false
    }

    open spec fn from_spec(v: &str) -> Error {
        vstd::pervasive::arbitrary()
    }
}

impl From<String> for Error {
    fn from(arg: String) -> (r: Error)
        ensures
            r.message() == arg@,
    {
        Error::E(arg)
    }
}

impl vstd::std_specs::convert::FromSpecImpl<String> for Error {
    open spec fn obeys_from_spec() -> bool {
        true
    }

    open spec fn from_spec(v: String) -> Error {
        Error::E(v)
    }
}

impl Default for Error {
    fn default() -> (r: Error)
        ensures
            r.message() == Seq::<char>::empty(),
    {
        Error::E(String::new())
    }
}

} // verus!
