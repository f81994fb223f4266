use vstd::prelude::*;

verus! {

/// Error kinds of the application; each carries its message.
#[derive(Debug)]
pub enum AppError {
    Git(String),
    Session(String),
    Ai(String),
    Io(String),
    Terminal(String),
}

/// The text an error shows: its kind, then its message.
pub open spec fn error_text(e: AppError) -> Seq<char> {
    match e {
        AppError::Git(m) => "Git error: "@ + m@,
        AppError::Session(m) => "Session error: "@ + m@,
        AppError::Ai(m) => "AI error: "@ + m@,
        AppError::Io(m) => "IO error: "@ + m@,
        AppError::Terminal(m) => "Terminal error: "@ + m@,
    }
}

impl AppError {
    /// The text of the error, as it is shown to the user.
    pub fn to_string(&self) -> (s: String)
        ensures
            s@ == error_text(*self),
    {
        let (head, m) = match self {
            AppError::Git(m) => ("Git error: ", m),
            AppError::Session(m) => ("Session error: ", m),
            AppError::Ai(m) => ("AI error: ", m),
            AppError::Io(m) => ("IO error: ", m),
            AppError::Terminal(m) => ("Terminal error: ", m),
        };
        let mut s = String::from_str(head);
        s.append(m.as_str());
        s
    }
}

} // verus!
