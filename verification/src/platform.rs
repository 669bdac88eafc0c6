//! What depends on the machine: the clock, the cache directories and
//! whether standard error is a terminal.
use vstd::prelude::*;
use crate::consts::PROGRAM_NAME;
use crate::paths::{join, join_path};

verus! {

#[verifier::external_type_specification]
#[verifier::external_body]
pub struct ExSystemTime(std::time::SystemTime);

#[verifier::external_type_specification]
#[verifier::external_body]
pub struct ExSystemTimeError(std::time::SystemTimeError);

/// `SystemTime::now`: the time by the system clock. Nothing is claimed of it.
pub assume_specification[ std::time::SystemTime::now ]() -> std::time::SystemTime;

/// `SystemTime::duration_since`: how long after `earlier` the time `t` is,
/// or an error when it is before. Nothing is claimed of the result.
pub assume_specification[ std::time::SystemTime::duration_since ](
    t: &std::time::SystemTime,
    earlier: std::time::SystemTime,
) -> Result<std::time::Duration, std::time::SystemTimeError>;

/// `Duration::as_millis`: the whole milliseconds of a duration. Nothing is
/// claimed of the result.
pub assume_specification[ std::time::Duration::as_millis ](d: &std::time::Duration) -> u128;

/// `std::time::UNIX_EPOCH`, the start of 1970 (UTC). Nothing is claimed of
/// the value.
#[verifier::external_body]
fn unix_epoch() -> std::time::SystemTime {
    std::time::UNIX_EPOCH
}

/// `dirs::cache_dir`: the user's cache directory, which depends on the
/// environment; `None` where there is none or it is not valid UTF-8.
/// Nothing is claimed of the path.
#[verifier::external_body]
fn user_cache_dir() -> Option<String> {
    match dirs::cache_dir() {
        Some(d) => d.into_os_string().into_string().ok(),
        None => None,
    }
}

/// `is_terminal::IsTerminal::is_terminal` on standard error. Nothing is
/// claimed of the answer.
#[verifier::external_body]
fn stderr_is_terminal() -> bool {
    is_terminal::IsTerminal::is_terminal(&std::io::stderr())
}

/// The current time by the system clock, in milliseconds since the Unix
/// epoch; 0 when the clock is set before it.
pub fn current_time() -> u128 {
    let now = std::time::SystemTime::now();
    match now.duration_since(unix_epoch()) {
        Ok(d) => d.as_millis(),
        Err(_) => 0,
    }
}

/// The program's own cache directory inside the user's cache directory.
pub open spec fn cache_dir_spec(user_cache: Seq<char>) -> Seq<char> {
    join_path(user_cache, PROGRAM_NAME@)
}

/// The program's cache directory inside the user's cache directory
/// `user_cache`.
pub fn cache_dir_in(user_cache: &str) -> (r: String)
    ensures
        r@ == cache_dir_spec(user_cache@),
{
    join(user_cache, PROGRAM_NAME)
}

/// The program's cache directory; `None` when the user has no cache
/// directory.
pub fn cache_dir() -> (r: Option<String>)
    ensures
        r matches Some(p) ==> exists|u: Seq<char>| p@ == cache_dir_spec(u),
{
    match user_cache_dir() {
        Some(u) => {
            let p = cache_dir_in(u.as_str());
            assert(p@ == cache_dir_spec(u@));
            Some(p)
        },
        None => None,
    }
}

/// Where the generated packages are kept.
pub fn generated_projects_cache_path() -> (r: Option<String>)
    ensures
        r matches Some(p) ==> exists|u: Seq<char>| p@ == join_path(cache_dir_spec(u), "projects"@),
{
    match user_cache_dir() {
        Some(u) => {
            let p = join(cache_dir_in(u.as_str()).as_str(), "projects");
            assert(p@ == join_path(cache_dir_spec(u@), "projects"@));
            Some(p)
        },
        None => None,
    }
}

/// Where Cargo puts what it builds.
pub fn binary_cache_path() -> (r: Option<String>)
    ensures
        r matches Some(p) ==> exists|u: Seq<char>| p@ == join_path(cache_dir_spec(u), "binaries"@),
{
    match user_cache_dir() {
        Some(u) => {
            let p = join(cache_dir_in(u.as_str()).as_str(), "binaries");
            assert(p@ == join_path(cache_dir_spec(u@), "binaries"@));
            Some(p)
        },
        None => None,
    }
}

/// Should Cargo be made to colour its output? Where standard error is a
/// terminal.
pub fn force_cargo_color() -> bool {
    stderr_is_terminal()
}

} // verus!
