use hush::password::{check_new_password, next_password_step, PasswordCheck, PasswordStep};

#[test]
fn password_must_match_and_be_long_enough() {
    assert_eq!(check_new_password("correcthorse1", "correcthorse1"), PasswordCheck::Accepted);
    assert_eq!(check_new_password("12345678", "12345678"), PasswordCheck::Accepted);
    assert_eq!(check_new_password("1234567", "1234567"), PasswordCheck::TooShort);
    assert_eq!(check_new_password("correcthorse1", "correcthorse2"), PasswordCheck::Mismatch);
}

#[test]
fn password_length_counts_bytes() {
    assert_eq!(check_new_password("ééééé", "ééééé"), PasswordCheck::Accepted);
    assert_eq!(check_new_password("ééé", "ééé"), PasswordCheck::TooShort);
}

#[test]
fn third_failed_try_gives_up() {
    assert_eq!(next_password_step(0, "a", "b"), PasswordStep::Retry(PasswordCheck::Mismatch));
    assert_eq!(next_password_step(1, "short", "short"), PasswordStep::Retry(PasswordCheck::TooShort));
    assert_eq!(next_password_step(2, "a", "b"), PasswordStep::GiveUp(PasswordCheck::Mismatch));
    assert_eq!(next_password_step(2, "correcthorse1", "correcthorse1"), PasswordStep::Accept);
}
