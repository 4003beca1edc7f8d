use vstd::prelude::*;
use crate::errors::{fails_with, AppError, ErrorKind};
use crate::user::{has_live_id, is_live_at, sanitize, sanitized, PublicUser, Setting, SettingTheme, User, UserTable};
use crate::validate::{copy_opt_text, opt_char_len_within, opt_len_within};

verus! {

/// New display preferences of the operator.
#[derive(Debug)]
pub struct UpdateSettingData {
    pub theme: SettingTheme,
    pub bg_image: Option<String>,
    pub bg_blur: Option<i8>,
}

impl UpdateSettingData {
    /// A background image, when present, of 1 to 255 characters, and a
    /// blur, when present, of 0 to 20 pixels.
    pub open spec fn valid(&self) -> bool {
        &&& opt_len_within(self.bg_image, 1, 255)
        &&& (self.bg_blur matches Some(b) ==> 0 <= b <= 20)
    }

    pub fn validate(&self) -> (r: Result<(), AppError>)
        ensures
            r is Ok <==> self.valid(),
            r is Err ==> fails_with(r, ErrorKind::ValidationFailed),
    {
        if !opt_char_len_within(&self.bg_image, 1, 255) {
            return Err(
                AppError::new(ErrorKind::ValidationFailed, 422, "background image must be 1 to 255 characters"),
            );
        }
        if let Some(b) = self.bg_blur {
            if b < 0 || b > 20 {
                return Err(AppError::new(ErrorKind::ValidationFailed, 422, "background blur must be 0 to 20 px"));
            }
        }
        Ok(())
    }
}

pub open spec fn setting_of(data: UpdateSettingData) -> Setting {
    Setting { theme: data.theme, bg_image: data.bg_image, bg_blur: data.bg_blur }
}

/// Stores the operator's display preferences.
pub fn update_setting(users: &mut UserTable, operator_id: i64, data: &UpdateSettingData) -> (r: Result<
    PublicUser,
    AppError,
>)
    requires
        old(users).wf(),
    ensures
        final(users).wf(),
        final(users).spec_next_id() == old(users).spec_next_id(),
        !data.valid() ==> fails_with(r, ErrorKind::ValidationFailed),
        data.valid() && !has_live_id(old(users)@, operator_id) ==> fails_with(r, ErrorKind::Forbidden),
        r is Ok <==> data.valid() && has_live_id(old(users)@, operator_id),
        r is Err ==> final(users)@ == old(users)@,
        r matches Ok(u) ==> exists|j: int|
            is_live_at(old(users)@, operator_id, j) && final(users)@ == old(users)@.update(
                j,
                User { setting: Some(setting_of(*data)), ..old(users)@[j] },
            ) && u == sanitized(final(users)@[j]),
{
    data.validate()?;
    let j = match users.find_live(operator_id) {
        Some(j) => j,
        None => return Err(AppError::new(ErrorKind::Forbidden, 404, "account not found")),
    };
    let setting = Setting { theme: data.theme, bg_image: copy_opt_text(&data.bg_image), bg_blur: data.bg_blur };
    users.set_setting(j, setting);
    Ok(sanitize(users.get(j)))
}

} // verus!
