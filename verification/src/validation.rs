//! Field validation of caller-submitted profile data. Invalid input is
//! rejected before any mutation, as a `ValidationError` listing the
//! offending fields.

use vstd::prelude::*;
use crate::errors::ApiError;
use crate::errors::ValidationResponse;
use crate::profile_models::PostProfile;
use crate::profile_models::UpdateProfile;

verus! {

/// The character count of `s` lies within `[min, max]`.
pub open spec fn valid_string_length(s: Seq<char>, min: int, max: int) -> bool {
    min <= s.len() <= max
}

/// The address has an `@` with a nonempty name before it and a nonempty
/// domain after it.
pub open spec fn valid_email(s: Seq<char>) -> bool {
    exists|i: int| 0 < i < s.len() - 1 && s[i] == '@'
}

/// A submitted profile is valid: username and display name each hold 3 to
/// 64 characters.
pub open spec fn valid_post_profile_data(p: PostProfile) -> bool {
    &&& valid_string_length(p.username@, 3, 64)
    &&& valid_string_length(p.display_name@, 3, 64)
}

/// A submitted edit is valid: bounded field lengths and list counts, and a
/// well-formed email address where one is given.
pub open spec fn valid_update_profile_data(p: UpdateProfile) -> bool {
    &&& valid_string_length(p.display_name@, 3, 32)
    &&& valid_string_length(p.about@, 0, 1000)
    &&& valid_string_length(p.city@, 0, 64)
    &&& valid_string_length(p.country@, 0, 64)
    &&& valid_string_length(p.website@, 0, 200)
    &&& p.skills@.len() <= 50
    &&& p.interests@.len() <= 50
    &&& p.causes@.len() <= 50
    &&& (p.email matches Some(e) ==> valid_email(e@))
}

/// Checks one string field's character count, recording a failure.
fn check_string_length(
    failures: &mut Vec<ValidationResponse>,
    value: &String,
    min: usize,
    max: usize,
    field: &str,
) -> (r: bool)
    ensures
        r == valid_string_length(value@, min as int, max as int),
        r ==> final(failures)@ == old(failures)@,
        !r ==> final(failures)@.len() == old(failures)@.len() + 1,
{
    let n = value.as_str().unicode_len();
    if min <= n && n <= max {
        true
    } else {
        failures.push(
            ValidationResponse {
                field: field.to_owned(),
                message: "length out of bounds".to_owned(),
            },
        );
        false
    }
}

/// Checks an email address's shape, mirroring `valid_email`.
fn check_email(value: &String) -> (r: bool)
    ensures
        r == valid_email(value@),
{
    let vs = value.as_str();
    let n = vs.unicode_len();
    if n < 3 {
        proof {
            assert(!valid_email(value@));
        }
        return false;
    }
    let mut i: usize = 1;
    while i < n - 1
        invariant
            vs@ == value@,
            n == value@.len(),
            3 <= n,
            1 <= i <= n - 1,
            forall|k: int| 0 < k < i as int ==> value@[k] != '@',
        decreases n - i,
    {
        if vs.get_char(i) == '@' {
            return true;
        }
        i = i + 1;
    }
    proof {
        assert(!valid_email(value@));
    }
    false
}

/// Rejects a submitted profile whose username or display name has an
/// invalid length; accepts it exactly when `valid_post_profile_data` holds.
pub fn validate_post_profile(post_profile: &PostProfile) -> (r: Result<(), ApiError>)
    ensures
        r is Ok <==> valid_post_profile_data(*post_profile),
        r matches Err(e) ==> e is ValidationError,
{
    let mut failures: Vec<ValidationResponse> = Vec::new();
    let username_ok = check_string_length(&mut failures, &post_profile.username, 3, 64, "username");
    let display_ok = check_string_length(
        &mut failures,
        &post_profile.display_name,
        3,
        64,
        "display_name",
    );
    if username_ok && display_ok {
        Ok(())
    } else {
        Err(ApiError::ValidationError(failures))
    }
}

/// Rejects a submitted edit with an out-of-bounds field or a malformed
/// email; accepts it exactly when `valid_update_profile_data` holds.
pub fn validate_update_profile(update_profile: &UpdateProfile) -> (r: Result<(), ApiError>)
    ensures
        r is Ok <==> valid_update_profile_data(*update_profile),
        r matches Err(e) ==> e is ValidationError,
{
    let mut failures: Vec<ValidationResponse> = Vec::new();
    let mut ok = true;
    if !check_string_length(&mut failures, &update_profile.display_name, 3, 32, "display_name") {
        ok = false;
    }
    if !check_string_length(&mut failures, &update_profile.about, 0, 1000, "about") {
        ok = false;
    }
    if !check_string_length(&mut failures, &update_profile.city, 0, 64, "city") {
        ok = false;
    }
    if !check_string_length(&mut failures, &update_profile.country, 0, 64, "country") {
        ok = false;
    }
    if !check_string_length(&mut failures, &update_profile.website, 0, 200, "website") {
        ok = false;
    }
    if update_profile.skills.len() > 50 {
        failures.push(
            ValidationResponse {
                field: "skills".to_owned(),
                message: "too many entries".to_owned(),
            },
        );
        ok = false;
    }
    if update_profile.interests.len() > 50 {
        failures.push(
            ValidationResponse {
                field: "interests".to_owned(),
                message: "too many entries".to_owned(),
            },
        );
        ok = false;
    }
    if update_profile.causes.len() > 50 {
        failures.push(
            ValidationResponse {
                field: "causes".to_owned(),
                message: "too many entries".to_owned(),
            },
        );
        ok = false;
    }
    match &update_profile.email {
        None => {},
        Some(e) => {
            if !check_email(e) {
                failures.push(
                    ValidationResponse {
                        field: "email".to_owned(),
                        message: "malformed address".to_owned(),
                    },
                );
                ok = false;
            }
        },
    }
    if ok {
        Ok(())
    } else {
        Err(ApiError::ValidationError(failures))
    }
}

} // verus!
