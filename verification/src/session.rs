use std::hash::{Hash, Hasher};
use vstd::prelude::*;

use crate::error::AppError;
use crate::models::Session;
use crate::text::{hex16, hex16_string};

verus! {

// ---------------------------------------------------------------------------
// Where sessions are stored
// ---------------------------------------------------------------------------

/// `PathBuf::join` of a relative part onto a base: a `/` is put between them
/// unless the base is empty or already ends in one.
pub open spec fn join_path(base: Seq<char>, part: Seq<char>) -> Seq<char> {
    if base.len() == 0 {
        part
    } else if base.last() == '/' {
        base + part
    } else {
        base + "/"@ + part
    }
}

pub fn join(base: &str, part: &str) -> (r: String)
    ensures
        r@ == join_path(base@, part@),
{
    let v = crate::text::chars_of(base);
    let mut r = String::from_str(base);
    if v.len() == 0 {
        return String::from_str(part);
    }
    if v[v.len() - 1] != '/' {
        r.append("/");
    }
    r.append(part);
    r
}

/// The sessions directory under a home directory: `<home>/.sherpa/sessions`.
pub open spec fn sessions_dir_under(home: Seq<char>) -> Seq<char> {
    join_path(join_path(home, ".sherpa"@), "sessions"@)
}

/// The message when the home directory is unknown.
pub const NO_HOME_MESSAGE: &'static str = "Could not find home directory";

/// The current user's home directory (`dirs::home_dir`), as text.  It depends on the
/// environment, so nothing is claimed of it.
#[verifier::external_body]
fn home_dir() -> (r: Option<String>) {
    match dirs::home_dir() {
        Some(p) => Some(p.to_string_lossy().into_owned()),
        None => None,
    }
}

/// The sessions directory for a home directory, or the error when there is none.
pub fn sessions_dir_in(home: Option<String>) -> (r: Result<String, AppError>)
    ensures
        match home {
            Some(h) => r matches Ok(d) && d@ == sessions_dir_under(h@),
            None => r matches Err(AppError::Session(m)) && m@ == NO_HOME_MESSAGE@,
        },
{
    match home {
        Some(h) => {
            let a = join(h.as_str(), ".sherpa");
            Ok(join(a.as_str(), "sessions"))
        },
        None => Err(AppError::Session(String::from_str(NO_HOME_MESSAGE))),
    }
}

/// Get the sessions directory (`~/.sherpa/sessions/`).
pub fn sessions_dir() -> (r: Result<String, AppError>)
    ensures
        match r {
            Ok(d) => exists|h: Seq<char>| d@ == sessions_dir_under(h),
            Err(e) => e matches AppError::Session(m) && m@ == NO_HOME_MESSAGE@,
        },
{
    sessions_dir_in(home_dir())
}

// ---------------------------------------------------------------------------
// Session file names
// ---------------------------------------------------------------------------

/// The value `std`'s `DefaultHasher` (built with `new`) gives for a string.
pub uninterp spec fn default_hash(s: Seq<char>) -> u64;

/// Hashes a string with `std::collections::hash_map::DefaultHasher::new()`.  The
/// hasher is built with fixed keys, so the value depends on the string alone: it is
/// `default_hash` of the string.
#[verifier::external_body]
pub(crate) fn hash_str(s: &str) -> (h: u64)
    ensures
        h == default_hash(s@),
{
    let mut hasher = std::collections::hash_map::DefaultHasher::new();
    s.hash(&mut hasher);
    hasher.finish()
}

/// The file name stem of a session: its identifier's hash in 16 hex digits.
pub fn hash_identifier(identifier: &str) -> (r: String)
    ensures
        r@ == hex16(default_hash(identifier@)),
        r@.len() == 16,
{
    hex16_string(hash_str(identifier))
}

/// The session file for an identifier inside a sessions directory.
pub open spec fn session_file_in(dir: Seq<char>, identifier: Seq<char>) -> Seq<char> {
    join_path(dir, hex16(default_hash(identifier)) + ".json"@)
}

/// The path of a session file under a home directory (or the error when there is none).
pub fn session_path_in(home: Option<String>, identifier: &str) -> (r: Result<String, AppError>)
    ensures
        match home {
            Some(h) => r matches Ok(p) && p@ == session_file_in(sessions_dir_under(h@), identifier@),
            None => r matches Err(AppError::Session(m)) && m@ == NO_HOME_MESSAGE@,
        },
{
    let dir = sessions_dir_in(home);
    match dir {
        Ok(d) => {
            let mut name = hash_identifier(identifier);
            name.append(".json");
            Ok(join(d.as_str(), name.as_str()))
        },
        Err(e) => Err(e),
    }
}

/// Get the path for a session file.
pub fn session_path(identifier: &str) -> (r: Result<String, AppError>)
    ensures
        match r {
            Ok(p) => exists|h: Seq<char>| p@ == session_file_in(sessions_dir_under(h), identifier@),
            Err(e) => e matches AppError::Session(m) && m@ == NO_HOME_MESSAGE@,
        },
{
    session_path_in(home_dir(), identifier)
}

// ---------------------------------------------------------------------------
// Loading
// ---------------------------------------------------------------------------

/// Result of loading a session.
#[derive(Debug)]
pub enum SessionLoadResult {
    /// Successfully loaded an existing session.
    Loaded(Session),
    /// Session file was corrupted, offering fresh start.
    Corrupted { path: String, error: String },
    /// No existing session found.
    NotFound,
}

/// The message for a session file that holds another identifier.
pub const MISMATCH_MESSAGE: &'static str = "Session identifier mismatch";

/// What a session file means once read and decoded: the session, if it is the one
/// asked for; otherwise (another identifier, or text that does not decode, with the
/// decoder's reason) the file counts as corrupted.
pub fn load_session_from(identifier: &str, path: String, decoded: Result<Session, String>) -> (r:
    SessionLoadResult)
    ensures
        match decoded {
            Ok(s) => if s.identifier@ == identifier@ {
                r == SessionLoadResult::Loaded(s)
            } else {
                r matches SessionLoadResult::Corrupted { path: p, error: e } && p == path && e@
                    == MISMATCH_MESSAGE@
            },
            Err(reason) => r matches SessionLoadResult::Corrupted { path: p, error: e } && p
                == path && e@ == "Invalid JSON: "@ + reason@,
        },
{
    match decoded {
        Ok(session) => {
            let wanted = String::from_str(identifier);
            if session.identifier != wanted {
                return SessionLoadResult::Corrupted {
                    path,
                    error: String::from_str(MISMATCH_MESSAGE),
                };
            }
            SessionLoadResult::Loaded(session)
        },
        Err(reason) => {
            let mut e = String::from_str("Invalid JSON: ");
            e.append(reason.as_str());
            SessionLoadResult::Corrupted { path, error: e }
        },
    }
}

// ---------------------------------------------------------------------------
// Session names
// ---------------------------------------------------------------------------

/// A character a session name may hold: an ASCII letter or digit, `-` or `_`.
pub open spec fn name_char(c: char) -> bool {
    ('a' <= c && c <= 'z') || ('A' <= c && c <= 'Z') || ('0' <= c && c <= '9') || c == '-' || c
        == '_'
}

/// A session name: not empty, made of letters, digits, hyphens and underscores.
pub open spec fn valid_name(n: Seq<char>) -> bool {
    n.len() > 0 && forall|i: int| 0 <= i < n.len() ==> name_char(#[trigger] n[i])
}

/// The message for a name that is not a valid session name.
pub open spec fn invalid_name_message(n: Seq<char>) -> Seq<char> {
    "Invalid session name '"@ + n + "': use letters, digits, hyphens and underscores"@
}

/// Check that a session name is made of letters, digits, hyphens and underscores.
pub fn validate_name(name: &str) -> (r: Result<(), AppError>)
    ensures
        valid_name(name@) ==> r is Ok,
        !valid_name(name@) ==> (r matches Err(AppError::Session(m)) && m@ == invalid_name_message(
            name@,
        )),
{
    let v = crate::text::chars_of(name);
    let mut ok = v.len() > 0;
    let mut i: usize = 0;
    while i < v.len()
        invariant
            v@ == name@,
            i <= v@.len(),
            ok == (v@.len() > 0 && forall|k: int| 0 <= k < i ==> name_char(#[trigger] v@[k])),
        decreases v@.len() - i,
    {
        let c = v[i];
        let good = ('a' <= c && c <= 'z') || ('A' <= c && c <= 'Z') || ('0' <= c && c <= '9')
            || c == '-' || c == '_';
        ok = ok && good;
        i = i + 1;
    }
    if ok {
        Ok(())
    } else {
        let mut m = String::from_str("Invalid session name '");
        m.append(name);
        m.append("': use letters, digits, hyphens and underscores");
        Err(AppError::Session(m))
    }
}

} // verus!
