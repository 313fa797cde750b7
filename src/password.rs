//! The rule for choosing a new master password: typed twice, at least
//! eight bytes, a limited number of tries.
use vstd::prelude::*;
use vstd::utf8::encode_utf8;

verus! {

/// Shortest master password, in bytes.
pub const MIN_PASSWORD_LEN: usize = 8;

/// Failed tries after which choosing a password is given up.
pub const MAX_PASSWORD_ATTEMPTS: u32 = 3;

/// The verdict on one try.
#[derive(Debug, Clone, Copy, PartialEq, Eq, Structural)]
pub enum PasswordCheck {
    Accepted,
    Mismatch,
    TooShort,
}

/// What to do after one try.
#[derive(Debug, Clone, Copy, PartialEq, Eq, Structural)]
pub enum PasswordStep {
    Accept,
    /// Tell the reason and ask again.
    Retry(PasswordCheck),
    /// Tell the reason and stop.
    GiveUp(PasswordCheck),
}

pub open spec fn password_check(first: Seq<char>, second: Seq<char>) -> PasswordCheck {
    if first != second {
        PasswordCheck::Mismatch
    } else if encode_utf8(first).len() < MIN_PASSWORD_LEN {
        PasswordCheck::TooShort
    } else {
        PasswordCheck::Accepted
    }
}

pub open spec fn password_step(failed_before: u32, first: Seq<char>, second: Seq<char>) -> PasswordStep {
    let c = password_check(first, second);
    if c == PasswordCheck::Accepted {
        PasswordStep::Accept
    } else if failed_before as int + 1 >= MAX_PASSWORD_ATTEMPTS {
        PasswordStep::GiveUp(c)
    } else {
        PasswordStep::Retry(c)
    }
}

/// Judges a try: the password and its confirmation must match and be at
/// least `MIN_PASSWORD_LEN` bytes long.
pub fn check_new_password(first: &str, second: &str) -> (r: PasswordCheck)
    ensures
        r == password_check(first@, second@),
{
    let a = first.to_owned();
    let b = second.to_owned();
    if !(a == b) {
        PasswordCheck::Mismatch
    } else if first.as_bytes().len() < MIN_PASSWORD_LEN {
        PasswordCheck::TooShort
    } else {
        PasswordCheck::Accepted
    }
}

/// The step after a try, given the number of tries that failed before it.
pub fn next_password_step(failed_before: u32, first: &str, second: &str) -> (r: PasswordStep)
    ensures
        r == password_step(failed_before, first@, second@),
{
    let c = check_new_password(first, second);
    if c == PasswordCheck::Accepted {
        PasswordStep::Accept
    } else if failed_before >= MAX_PASSWORD_ATTEMPTS - 1 {
        PasswordStep::GiveUp(c)
    } else {
        PasswordStep::Retry(c)
    }
}

} // verus!
