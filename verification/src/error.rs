use vstd::prelude::*;

verus! {

/// The failure taxonomy of the request pipeline.
///
/// `FileNotFound` is the expected, common failure (a missing file) and is
/// translated to HTTP 404.  `Io` and `Msg` describe any other filesystem
/// failure and are translated to HTTP 500; their message is kept
/// for logging and never shown to a client.  `Transport` marks a failure of
/// the connection layer itself and is propagated upward instead of being
/// translated into a response.
#[derive(Debug)]
pub enum Error {
    Transport(String),
    Io(String),
    Msg(String),
    FileNotFound,
}

impl Error {
    /// A short description of the failure, suitable for a log line.
    pub fn description<'a>(&'a self) -> (r: &'a str)
        ensures
            match self {
                Error::Transport(m) => r@ == m@,
                Error::Io(m) => r@ == m@,
                Error::Msg(m) => r@ == m@,
                Error::FileNotFound => r@ == "The file was not found on the server"@,
            },
    {
        match self {
            Error::Transport(m) => m.as_str(),
            Error::Io(m) => m.as_str(),
            Error::Msg(m) => m.as_str(),
            Error::FileNotFound => "The file was not found on the server",
        }
    }

    /// Classifies a filesystem failure reported by the caller: a missing
    /// file becomes `FileNotFound`, anything else keeps its message as `Io`.
    pub fn from_io(not_found: bool, message: String) -> (r: Error)
        ensures
            not_found ==> r == Error::FileNotFound,
            !not_found ==> r == Error::Io(message),
    {
        if not_found {
            Error::FileNotFound
        } else {
            Error::Io(message)
        }
    }
}

impl From<String> for Error {
    fn from(s: String) -> (r: Error) {
        Error::Msg(s)
    }
}

impl vstd::std_specs::convert::FromSpecImpl<String> for Error {
    open spec fn obeys_from_spec() -> bool {
        true
    }

    open spec fn from_spec(s: String) -> Error {
        Error::Msg(s)
    }
}

} // verus!
