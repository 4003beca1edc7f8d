use vstd::prelude::*;
use crate::crypto::{argon2_verdict, is_hash_of, lemma_text_bytes_len, text_bytes, verify};
use crate::errors::{fails_with, AppError, ErrorKind};
use crate::user::{is_named_at, sanitize, sanitized, username_taken, PublicUser, UserTable};
use crate::validate::{char_len_within, len_within};

verus! {

/// Credentials submitted to log in.
#[derive(Debug)]
pub struct LoginData {
    pub username: String,
    pub password: String,
}

impl LoginData {
    /// A username of 5 to 30 characters and a password of 8 to 30.
    pub open spec fn valid(&self) -> bool {
        len_within(self.username@, 5, 30) && len_within(self.password@, 8, 30)
    }

    pub fn validate(&self) -> (r: Result<(), AppError>)
        ensures
            r is Ok <==> self.valid(),
            r is Err ==> fails_with(r, ErrorKind::ValidationFailed),
    {
        if !char_len_within(self.username.as_str(), 5, 30) {
            return Err(AppError::new(ErrorKind::ValidationFailed, 422, "username must be 5 to 30 characters"));
        }
        if !char_len_within(self.password.as_str(), 8, 30) {
            return Err(AppError::new(ErrorKind::ValidationFailed, 422, "password must be 8 to 30 characters"));
        }
        Ok(())
    }
}

/// The one failure that an unknown username and a wrong password share.
pub open spec fn is_login_failure(e: AppError) -> bool {
    e.kind == ErrorKind::Unauthenticated && e.code == 401 && e.message@ == "invalid username or password"@
}

fn login_failure() -> (e: AppError)
    ensures
        is_login_failure(e),
{
    AppError::new(ErrorKind::Unauthenticated, 401, "invalid username or password")
}

/// Checks credentials against the live account with that username and
/// returns the account without its password hash. An unknown username and
/// a wrong password fail alike.
pub fn login(users: &UserTable, data: &LoginData) -> (r: Result<PublicUser, AppError>)
    requires
        users.wf(),
    ensures
        !data.valid() ==> fails_with(r, ErrorKind::ValidationFailed),
        data.valid() && !username_taken(users@, data.username@) ==> r is Err && is_login_failure(r->Err_0),
        data.valid() ==> forall|j: int|
            is_named_at(users@, data.username@, j) ==> match argon2_verdict(
                #[trigger] users@[j].password_hash@,
                text_bytes(data.password@),
            ) {
                Some(true) => r is Ok && r->Ok_0 == sanitized(users@[j]),
                Some(false) => r is Err && is_login_failure(r->Err_0),
                None => fails_with(r, ErrorKind::Internal),
            },
        data.valid() ==> forall|j: int|
            is_named_at(users@, data.username@, j) && is_hash_of(
                #[trigger] users@[j].password_hash@,
                text_bytes(data.password@),
            ) ==> r is Ok && r->Ok_0 == sanitized(users@[j]),
{
    data.validate()?;
    let j = match users.find_live_by_username(&data.username) {
        Some(j) => j,
        None => return Err(login_failure()),
    };
    proof {
        lemma_text_bytes_len(data.password@);
        assert forall|k: int| is_named_at(users@, data.username@, k) implies k == j by {
            if k != j {
                assert(users@[k].username@ != users@[j as int].username@);
            }
        }
    }
    let user = users.get(j);
    match verify(&user.password_hash, &data.password) {
        Ok(true) => Ok(sanitize(user)),
        Ok(false) => Err(login_failure()),
        Err(e) => Err(e),
    }
}

} // verus!
