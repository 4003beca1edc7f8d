use vstd::prelude::*;
use crate::crypto::{argon2_verdict, hash, is_hash_of, lemma_text_bytes_len, text_bytes, verify};
use crate::errors::{fails_with, AppError, ErrorKind};
use crate::user::{has_live_id, is_live_at, User, UserTable};
use crate::validate::{char_len_within, is_valid_password, len_within, valid_password};

verus! {

/// A change of the operator's own password.
#[derive(Debug)]
pub struct UpdatePasswordData {
    pub old_password: String,
    pub password: String,
    pub confirm_password: String,
}

impl UpdatePasswordData {
    /// An old password of 8 to 30 characters, and a valid new password
    /// repeated exactly.
    pub open spec fn valid(&self) -> bool {
        &&& len_within(self.old_password@, 8, 30)
        &&& valid_password(self.password@)
        &&& valid_password(self.confirm_password@)
        &&& self.confirm_password@ == self.password@
    }

    pub fn validate(&self) -> (r: Result<(), AppError>)
        ensures
            r is Ok <==> self.valid(),
            r is Err ==> fails_with(r, ErrorKind::ValidationFailed),
    {
        if !char_len_within(self.old_password.as_str(), 8, 30) {
            return Err(AppError::new(ErrorKind::ValidationFailed, 422, "password must be 8 to 30 characters"));
        }
        if !is_valid_password(self.password.as_str()) {
            return Err(
                AppError::new(ErrorKind::ValidationFailed, 422, "password must be 8 to 30 visible ASCII characters"),
            );
        }
        if !is_valid_password(self.confirm_password.as_str()) {
            return Err(
                AppError::new(
                    ErrorKind::ValidationFailed,
                    422,
                    "repeated password must be 8 to 30 visible ASCII characters",
                ),
            );
        }
        if self.confirm_password != self.password {
            return Err(AppError::new(ErrorKind::ValidationFailed, 422, "the two passwords differ"));
        }
        Ok(())
    }
}

/// Replaces the operator's password once the old one checks out. The new
/// password is hashed with a fresh salt.
pub fn update_password(users: &mut UserTable, operator_id: i64, data: &UpdatePasswordData) -> (r: Result<
    (),
    AppError,
>)
    requires
        old(users).wf(),
    ensures
        final(users).wf(),
        final(users).spec_next_id() == old(users).spec_next_id(),
        !data.valid() ==> fails_with(r, ErrorKind::ValidationFailed),
        data.valid() && !has_live_id(old(users)@, operator_id) ==> fails_with(r, ErrorKind::Forbidden),
        r is Err ==> final(users)@ == old(users)@,
        data.valid() ==> forall|j: int|
            is_live_at(old(users)@, operator_id, j) ==> match argon2_verdict(
                #[trigger] old(users)@[j].password_hash@,
                text_bytes(data.old_password@),
            ) {
                Some(true) => r is Ok || fails_with(r, ErrorKind::Internal),
                Some(false) => fails_with(r, ErrorKind::Forbidden),
                None => fails_with(r, ErrorKind::Internal),
            },
        r is Ok ==> exists|j: int|
            is_live_at(old(users)@, operator_id, j) && argon2_verdict(
                old(users)@[j].password_hash@,
                text_bytes(data.old_password@),
            ) == Some(true) && final(users)@ == old(users)@.update(
                j,
                User { password_hash: final(users)@[j].password_hash, ..old(users)@[j] },
            ) && is_hash_of(final(users)@[j].password_hash@, text_bytes(data.password@)),
{
    data.validate()?;
    let j = match users.find_live(operator_id) {
        Some(j) => j,
        None => return Err(AppError::new(ErrorKind::Forbidden, 404, "account not found")),
    };
    proof {
        lemma_text_bytes_len(data.old_password@);
        assert forall|k: int| is_live_at(old(users)@, operator_id, k) implies k == j by {
            if k != j {
                assert(old(users)@[k].id != old(users)@[j as int].id);
            }
        }
    }
    let matches = verify(&users.get(j).password_hash, &data.old_password)?;
    if !matches {
        return Err(AppError::new(ErrorKind::Forbidden, 403, "old password is incorrect"));
    }
    let password_hash = hash(&data.password)?;
    users.set_password_hash(j, password_hash);
    Ok(())
}

} // verus!
