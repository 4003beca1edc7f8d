use vstd::prelude::*;
use crate::app::AppTable;
use crate::crypto::{hash, is_hash_of, text_bytes};
use crate::errors::{fails_with, AppError, ErrorKind};
use crate::policy::{can_manage_users, spec_can_manage_users};
use crate::validate::{
    copy_opt_text, is_valid_password, is_valid_username, opt_char_len_within, opt_len_within, valid_password,
    valid_username,
};

verus! {

#[derive(Clone, Copy, Debug, PartialEq, Eq, Structural)]
pub enum SettingTheme {
    Light,
    Dark,
}

/// Display preferences of a user.
#[derive(Debug)]
pub struct Setting {
    pub theme: SettingTheme,
    pub bg_image: Option<String>,
    pub bg_blur: Option<i8>,
}

impl Setting {
    pub fn copy(&self) -> (r: Setting)
        ensures
            r == *self,
    {
        Setting { theme: self.theme, bg_image: copy_opt_text(&self.bg_image), bg_blur: self.bg_blur }
    }
}

pub fn copy_opt_setting(s: &Option<Setting>) -> (r: Option<Setting>)
    ensures
        r == *s,
{
    match s {
        Some(t) => Some(t.copy()),
        None => None,
    }
}

/// An account. `password_hash` is the encoded hash, never the password;
/// a present `deleted_at` marks the account as gone while the row stays.
#[derive(Debug)]
pub struct User {
    pub id: i64,
    pub username: String,
    pub password_hash: String,
    pub avatar: Option<String>,
    pub setting: Option<Setting>,
    pub is_admin: bool,
    pub created_at: i64,
    pub deleted_at: Option<i64>,
}

impl User {
    pub open spec fn live(self) -> bool {
        self.deleted_at is None
    }
}

/// An account as it is shown to clients: it has no password hash.
#[derive(Debug)]
pub struct PublicUser {
    pub id: i64,
    pub username: String,
    pub avatar: Option<String>,
    pub setting: Option<Setting>,
    pub is_admin: bool,
    pub created_at: i64,
}

pub open spec fn sanitized(u: User) -> PublicUser {
    PublicUser {
        id: u.id,
        username: u.username,
        avatar: u.avatar,
        setting: u.setting,
        is_admin: u.is_admin,
        created_at: u.created_at,
    }
}

/// The outward form of an account, without its password hash.
pub fn sanitize(u: &User) -> (r: PublicUser)
    ensures
        r == sanitized(*u),
{
    PublicUser {
        id: u.id,
        username: u.username.clone(),
        avatar: copy_opt_text(&u.avatar),
        setting: copy_opt_setting(&u.setting),
        is_admin: u.is_admin,
        created_at: u.created_at,
    }
}

pub open spec fn user_ids_unique(rows: Seq<User>) -> bool {
    forall|i: int, j: int|
        #![trigger rows[i].id, rows[j].id]
        0 <= i < rows.len() && 0 <= j < rows.len() && i != j ==> rows[i].id != rows[j].id
}

/// No two live accounts share a username.
pub open spec fn live_usernames_unique(rows: Seq<User>) -> bool {
    forall|i: int, j: int|
        #![trigger rows[i].username, rows[j].username]
        0 <= i < rows.len() && 0 <= j < rows.len() && i != j && rows[i].live() && rows[j].live()
            ==> rows[i].username@ != rows[j].username@
}

pub open spec fn is_id_at(rows: Seq<User>, id: i64, j: int) -> bool {
    0 <= j < rows.len() && rows[j].id == id
}

pub open spec fn has_id(rows: Seq<User>, id: i64) -> bool {
    exists|j: int| is_id_at(rows, id, j)
}

pub open spec fn is_live_at(rows: Seq<User>, id: i64, j: int) -> bool {
    is_id_at(rows, id, j) && rows[j].live()
}

pub open spec fn has_live_id(rows: Seq<User>, id: i64) -> bool {
    exists|j: int| is_live_at(rows, id, j)
}

pub open spec fn is_named_at(rows: Seq<User>, name: Seq<char>, j: int) -> bool {
    0 <= j < rows.len() && rows[j].live() && rows[j].username@ == name
}

/// A live account has this username.
pub open spec fn username_taken(rows: Seq<User>, name: Seq<char>) -> bool {
    exists|j: int| is_named_at(rows, name, j)
}

/// The account with this id exists, is live and is an administrator.
pub open spec fn may_manage(rows: Seq<User>, id: i64) -> bool {
    exists|j: int| is_id_at(rows, id, j) && spec_can_manage_users(rows[j])
}

/// The table of accounts: its rows, and the id that the next new row receives.
pub struct UserTable {
    rows: Vec<User>,
    next_id: i64,
}

impl View for UserTable {
    type V = Seq<User>;

    closed spec fn view(&self) -> Seq<User> {
        self.rows@
    }
}

/// The row that adding an account appends.
pub open spec fn new_user_row(
    username: String,
    password_hash: String,
    avatar: Option<String>,
    is_admin: bool,
    id: i64,
    now: i64,
) -> User {
    User {
        id: id,
        username: username,
        password_hash: password_hash,
        avatar: avatar,
        setting: None,
        is_admin: is_admin,
        created_at: now,
        deleted_at: None,
    }
}

impl UserTable {
    pub closed spec fn spec_next_id(&self) -> i64 {
        self.next_id
    }

    /// Ids are distinct, positive and below the next id; live usernames are
    /// distinct.
    pub open spec fn wf(&self) -> bool {
        &&& user_ids_unique(self@)
        &&& live_usernames_unique(self@)
        &&& 1 <= self.spec_next_id()
        &&& forall|j: int| 0 <= j < self@.len() ==> 1 <= #[trigger] self@[j].id < self.spec_next_id()
    }

    pub fn new() -> (t: UserTable)
        ensures
            t.wf(),
            t@ == Seq::<User>::empty(),
            t.spec_next_id() == 1,
    {
        UserTable { rows: Vec::new(), next_id: 1 }
    }

    pub fn len(&self) -> (n: usize)
        ensures
            n == self@.len(),
    {
        self.rows.len()
    }

    pub fn get(&self, i: usize) -> (u: &User)
        requires
            i < self@.len(),
        ensures
            *u == self@[i as int],
    {
        &self.rows[i]
    }

    /// The position of the account with this id, live or not.
    pub fn find_by_id(&self, id: i64) -> (r: Option<usize>)
        ensures
            r matches Some(j) ==> is_id_at(self@, id, j as int),
            r is None ==> !has_id(self@, id),
    {
        let mut j: usize = 0;
        while j < self.rows.len()
            invariant
                j <= self@.len(),
                forall|k: int| 0 <= k < j ==> !is_id_at(self@, id, k),
            decreases self@.len() - j,
        {
            if self.rows[j].id == id {
                return Some(j);
            }
            j = j + 1;
        }
        None
    }

    /// The position of the live account with this id.
    pub fn find_live(&self, id: i64) -> (r: Option<usize>)
        requires
            self.wf(),
        ensures
            r matches Some(j) ==> is_live_at(self@, id, j as int),
            r is None ==> !has_live_id(self@, id),
    {
        match self.find_by_id(id) {
            Some(j) => {
                if self.rows[j].deleted_at.is_none() {
                    Some(j)
                } else {
                    None
                }
            },
            None => None,
        }
    }

    /// The position of the live account with this username.
    pub fn find_live_by_username(&self, name: &String) -> (r: Option<usize>)
        ensures
            r matches Some(j) ==> is_named_at(self@, name@, j as int),
            r is None ==> !username_taken(self@, name@),
    {
        let mut j: usize = 0;
        while j < self.rows.len()
            invariant
                j <= self@.len(),
                forall|k: int| 0 <= k < j ==> !is_named_at(self@, name@, k),
            decreases self@.len() - j,
        {
            if self.rows[j].deleted_at.is_none() && self.rows[j].username == *name {
                return Some(j);
            }
            j = j + 1;
        }
        None
    }

    /// Whether the account with this id may manage users.
    pub fn operator_may_manage(&self, id: i64) -> (r: bool)
        requires
            self.wf(),
        ensures
            r == may_manage(self@, id),
    {
        match self.find_by_id(id) {
            Some(j) => can_manage_users(&self.rows[j]),
            None => false,
        }
    }

    /// Stores a new account with an already hashed password. Fails
    /// `Conflict` when a live account has the username.
    pub fn insert_user(
        &mut self,
        username: &String,
        password_hash: String,
        avatar: &Option<String>,
        is_admin: bool,
        now: i64,
    ) -> (r: Result<PublicUser, AppError>)
        requires
            old(self).wf(),
        ensures
            final(self).wf(),
            username_taken(old(self)@, username@) ==> fails_with(r, ErrorKind::Conflict),
            !username_taken(old(self)@, username@) && old(self).spec_next_id() < i64::MAX ==> r is Ok,
            !username_taken(old(self)@, username@) && old(self).spec_next_id() == i64::MAX ==> fails_with(
                r,
                ErrorKind::Internal,
            ),
            r is Err ==> final(self)@ == old(self)@ && final(self).spec_next_id() == old(self).spec_next_id(),
            r matches Ok(u) ==> {
                let row = new_user_row(*username, password_hash, *avatar, is_admin, old(self).spec_next_id(), now);
                &&& final(self)@ == old(self)@.push(row)
                &&& final(self).spec_next_id() == old(self).spec_next_id() + 1
                &&& u == sanitized(row)
            },
    {
        if self.find_live_by_username(username).is_some() {
            return Err(AppError::new(ErrorKind::Conflict, 409, "username is already taken"));
        }
        if self.next_id == 0x7FFF_FFFF_FFFF_FFFF {
            return Err(AppError::from_err());
        }
        let row = User {
            id: self.next_id,
            username: username.clone(),
            password_hash,
            avatar: copy_opt_text(avatar),
            setting: None,
            is_admin,
            created_at: now,
            deleted_at: None,
        };
        let out = sanitize(&row);
        let ghost before = self@;
        self.rows.push(row);
        self.next_id = self.next_id + 1;
        proof {
            assert forall|i: int, j: int|
                #![trigger self@[i].username, self@[j].username]
                0 <= i < self@.len() && 0 <= j < self@.len() && i != j && self@[i].live() && self@[j].live()
                    implies self@[i].username@ != self@[j].username@ by {
                if i < before.len() && j < before.len() {
                    assert(self@[i] == before[i] && self@[j] == before[j]);
                } else if i < before.len() {
                    assert(self@[i] == before[i]);
                    assert(!is_named_at(before, username@, i));
                } else {
                    assert(self@[j] == before[j]);
                    assert(!is_named_at(before, username@, j));
                }
            }
        }
        Ok(out)
    }

    /// A table holding one administrator, as a fresh installation has.
    pub fn with_admin(username: &String, password: &String, now: i64) -> (r: Result<UserTable, AppError>)
        ensures
            r matches Ok(t) ==> {
                &&& t.wf()
                &&& t@.len() == 1
                &&& t@[0].id == 1
                &&& t@[0].username@ == username@
                &&& t@[0].is_admin
                &&& t@[0].live()
                &&& is_hash_of(t@[0].password_hash@, text_bytes(password@))
            },
            r matches Err(e) ==> e.kind == ErrorKind::Internal,
    {
        let h = hash(password)?;
        let mut t = UserTable::new();
        let r = t.insert_user(username, h, &None, true, now);
        match r {
            Ok(_) => Ok(t),
            Err(e) => Err(e),
        }
    }
}

/// What a new account is made of.
#[derive(Debug)]
pub struct CreateUserData {
    pub username: String,
    pub password: String,
    pub confirm_password: String,
    pub avatar: Option<String>,
}

impl CreateUserData {
    /// A valid username, a valid password repeated exactly, and an avatar,
    /// when present, of 1 to 255 characters.
    pub open spec fn valid(&self) -> bool {
        &&& valid_username(self.username@)
        &&& valid_password(self.password@)
        &&& valid_password(self.confirm_password@)
        &&& self.confirm_password@ == self.password@
        &&& opt_len_within(self.avatar, 1, 255)
    }

    pub fn validate(&self) -> (r: Result<(), AppError>)
        ensures
            r is Ok <==> self.valid(),
            r is Err ==> fails_with(r, ErrorKind::ValidationFailed),
    {
        if !is_valid_username(self.username.as_str()) {
            return Err(
                AppError::new(
                    ErrorKind::ValidationFailed,
                    422,
                    "username must be 5 to 30 visible ASCII characters starting with a letter or digit",
                ),
            );
        }
        if !is_valid_password(self.password.as_str()) {
            return Err(
                AppError::new(ErrorKind::ValidationFailed, 422, "password must be 8 to 30 visible ASCII characters"),
            );
        }
        if !is_valid_password(self.confirm_password.as_str()) {
            return Err(
                AppError::new(
                    ErrorKind::ValidationFailed,
                    422,
                    "repeated password must be 8 to 30 visible ASCII characters",
                ),
            );
        }
        if self.confirm_password != self.password {
            return Err(AppError::new(ErrorKind::ValidationFailed, 422, "the two passwords differ"));
        }
        if !opt_char_len_within(&self.avatar, 1, 255) {
            return Err(AppError::new(ErrorKind::ValidationFailed, 422, "avatar must be 1 to 255 characters"));
        }
        Ok(())
    }
}

/// New username and avatar of the operator's own account.
#[derive(Debug)]
pub struct UpdateUserData {
    pub username: String,
    pub avatar: Option<String>,
}

impl UpdateUserData {
    pub open spec fn valid(&self) -> bool {
        valid_username(self.username@) && opt_len_within(self.avatar, 1, 255)
    }

    pub fn validate(&self) -> (r: Result<(), AppError>)
        ensures
            r is Ok <==> self.valid(),
            r is Err ==> fails_with(r, ErrorKind::ValidationFailed),
    {
        if !is_valid_username(self.username.as_str()) {
            return Err(
                AppError::new(
                    ErrorKind::ValidationFailed,
                    422,
                    "username must be 5 to 30 visible ASCII characters starting with a letter or digit",
                ),
            );
        }
        if !opt_char_len_within(&self.avatar, 1, 255) {
            return Err(AppError::new(ErrorKind::ValidationFailed, 422, "avatar must be 1 to 255 characters"));
        }
        Ok(())
    }
}

/// The live account with this id, as clients see it.
pub fn get_user_info(users: &UserTable, id: i64) -> (r: Result<PublicUser, AppError>)
    requires
        users.wf(),
    ensures
        r is Ok <==> has_live_id(users@, id),
        r is Err ==> fails_with(r, ErrorKind::NotFound),
        r matches Ok(u) ==> exists|j: int| is_live_at(users@, id, j) && u == sanitized(users@[j]),
{
    match users.find_live(id) {
        Some(j) => Ok(sanitize(users.get(j))),
        None => Err(AppError::new(ErrorKind::NotFound, 404, "user not found")),
    }
}

/// An administrator adds a non-administrator account. The password is
/// hashed with a fresh salt.
pub fn create_user(users: &mut UserTable, operator_id: i64, data: &CreateUserData, now: i64) -> (r: Result<
    PublicUser,
    AppError,
>)
    requires
        old(users).wf(),
    ensures
        final(users).wf(),
        !data.valid() ==> fails_with(r, ErrorKind::ValidationFailed),
        data.valid() && !may_manage(old(users)@, operator_id) ==> fails_with(r, ErrorKind::Forbidden),
        data.valid() && may_manage(old(users)@, operator_id) && username_taken(old(users)@, data.username@)
            ==> fails_with(r, ErrorKind::Conflict),
        data.valid() && may_manage(old(users)@, operator_id) && !username_taken(old(users)@, data.username@)
            && r is Err ==> fails_with(r, ErrorKind::Internal),
        r is Err ==> final(users)@ == old(users)@ && final(users).spec_next_id() == old(users).spec_next_id(),
        r matches Ok(u) ==> {
            let row = final(users)@.last();
            &&& final(users)@ == old(users)@.push(row)
            &&& row == new_user_row(data.username, row.password_hash, data.avatar, false, old(users).spec_next_id(), now)
            &&& is_hash_of(row.password_hash@, text_bytes(data.password@))
            &&& u == sanitized(row)
        },
{
    data.validate()?;
    if !users.operator_may_manage(operator_id) {
        return Err(AppError::new(ErrorKind::Forbidden, 403, "permission denied"));
    }
    if users.find_live_by_username(&data.username).is_some() {
        return Err(AppError::new(ErrorKind::Conflict, 409, "username is already taken"));
    }
    let password_hash = hash(&data.password)?;
    let ghost h = password_hash;
    let r = users.insert_user(&data.username, password_hash, &data.avatar, false, now);
    proof {
        if r is Ok {
            assert(users@.last() == new_user_row(data.username, h, data.avatar, false, old(users).spec_next_id(), now));
        }
    }
    r
}

/// Changes the username and avatar of the operator's own live account.
pub fn update_user(users: &mut UserTable, operator_id: i64, data: &UpdateUserData) -> (r: Result<PublicUser, AppError>)
    requires
        old(users).wf(),
    ensures
        final(users).wf(),
        final(users).spec_next_id() == old(users).spec_next_id(),
        !data.valid() ==> fails_with(r, ErrorKind::ValidationFailed),
        data.valid() && !has_live_id(old(users)@, operator_id) ==> fails_with(r, ErrorKind::NotFound),
        r is Err ==> final(users)@ == old(users)@,
        data.valid() && has_live_id(old(users)@, operator_id) ==> ((r is Ok) <==> !exists|k: int|
            is_named_at(old(users)@, data.username@, k) && old(users)@[k].id != operator_id),
        data.valid() && has_live_id(old(users)@, operator_id) && r is Err ==> fails_with(r, ErrorKind::Conflict),
        r matches Ok(u) ==> exists|j: int|
            is_live_at(old(users)@, operator_id, j) && final(users)@ == old(users)@.update(
                j,
                User { username: data.username, avatar: data.avatar, ..old(users)@[j] },
            ) && u == sanitized(final(users)@[j]),
{
    data.validate()?;
    let j = match users.find_live(operator_id) {
        Some(j) => j,
        None => return Err(AppError::new(ErrorKind::NotFound, 404, "user not found")),
    };
    match users.find_live_by_username(&data.username) {
        Some(k) => {
            if k != j {
                return Err(AppError::new(ErrorKind::Conflict, 409, "username is already taken"));
            }
        },
        None => {},
    }
    let ghost before = users@;
    users.rows[j].username = data.username.clone();
    users.rows[j].avatar = copy_opt_text(&data.avatar);
    let out = sanitize(&users.rows[j]);
    proof {
        assert(users@ =~= before.update(j as int, User { username: data.username, avatar: data.avatar, ..before[j as int] }));
        assert(forall|i: int| 0 <= i < users@.len() ==> #[trigger] users@[i].id == before[i].id);
        assert forall|a: int, b: int|
            #![trigger users@[a].username, users@[b].username]
            0 <= a < users@.len() && 0 <= b < users@.len() && a != b && users@[a].live() && users@[b].live()
                implies users@[a].username@ != users@[b].username@ by {
            if a == j {
                assert(!is_named_at(before, data.username@, b) || before[b].id == operator_id);
                assert(before[b].id != before[a].id);
            } else if b == j {
                assert(!is_named_at(before, data.username@, a) || before[a].id == operator_id);
                assert(before[b].id != before[a].id);
            } else {
                assert(users@[a] == before[a] && users@[b] == before[b]);
            }
        }
    }
    Ok(out)
}

/// An administrator deletes another account: the account and its live apps
/// are marked deleted at `now`. Returns how many apps were marked.
pub fn delete_user(users: &mut UserTable, apps: &mut AppTable, operator_id: i64, user_id: i64, now: i64) -> (r:
    Result<u64, AppError>)
    requires
        old(users).wf(),
        old(apps).wf(),
    ensures
        final(users).wf(),
        final(apps).wf(),
        final(users).spec_next_id() == old(users).spec_next_id(),
        final(apps).spec_next_id() == old(apps).spec_next_id(),
        operator_id == user_id ==> fails_with(r, ErrorKind::Forbidden),
        operator_id != user_id && !may_manage(old(users)@, operator_id) ==> fails_with(r, ErrorKind::Forbidden),
        operator_id != user_id && may_manage(old(users)@, operator_id) && !has_live_id(old(users)@, user_id)
            ==> fails_with(r, ErrorKind::NotFound),
        r is Ok <==> operator_id != user_id && may_manage(old(users)@, operator_id) && has_live_id(old(users)@, user_id),
        r is Err ==> final(users)@ == old(users)@ && final(apps)@ == old(apps)@,
        r matches Ok(n) ==> {
            &&& n == crate::app::count_owned(old(apps)@, user_id)
            &&& final(apps)@ == Seq::new(old(apps)@.len(), |j: int| crate::app::tombstoned(old(apps)@[j], user_id, now))
            &&& exists|j: int|
                is_live_at(old(users)@, user_id, j) && final(users)@ == old(users)@.update(
                    j,
                    User { deleted_at: Some(now), ..old(users)@[j] },
                )
        },
{
    if operator_id == user_id {
        return Err(AppError::new(ErrorKind::Forbidden, 403, "an account cannot delete itself"));
    }
    if !users.operator_may_manage(operator_id) {
        return Err(AppError::new(ErrorKind::Forbidden, 403, "permission denied"));
    }
    let j = match users.find_live(user_id) {
        Some(j) => j,
        None => return Err(AppError::new(ErrorKind::NotFound, 404, "user not found")),
    };
    let ghost before = users@;
    users.rows[j].deleted_at = Some(now);
    proof {
        assert(users@ =~= before.update(j as int, User { deleted_at: Some(now), ..before[j as int] }));
        assert(forall|i: int| 0 <= i < users@.len() ==> #[trigger] users@[i].id == before[i].id);
        assert forall|a: int, b: int|
            #![trigger users@[a].username, users@[b].username]
            0 <= a < users@.len() && 0 <= b < users@.len() && a != b && users@[a].live() && users@[b].live()
                implies users@[a].username@ != users@[b].username@ by {
            assert(users@[a] == before[a] && users@[b] == before[b]);
        }
    }
    let n = apps.delete_owned_by(user_id, now);
    Ok(n)
}

impl UserTable {
    /// Replaces the password hash of the account at position `j`.
    pub fn set_password_hash(&mut self, j: usize, password_hash: String)
        requires
            old(self).wf(),
            j < old(self)@.len(),
        ensures
            final(self).wf(),
            final(self).spec_next_id() == old(self).spec_next_id(),
            final(self)@ == old(self)@.update(j as int, User { password_hash: password_hash, ..old(self)@[j as int] }),
    {
        let ghost before = self@;
        self.rows[j].password_hash = password_hash;
        assert(self@ =~= before.update(j as int, User { password_hash: password_hash, ..before[j as int] }));
        assert(forall|i: int| 0 <= i < self@.len() ==> #[trigger] self@[i].id == before[i].id);
        assert(forall|i: int| 0 <= i < self@.len() ==> #[trigger] self@[i].username == before[i].username);
    }

    /// Replaces the settings of the account at position `j`.
    pub fn set_setting(&mut self, j: usize, setting: Setting)
        requires
            old(self).wf(),
            j < old(self)@.len(),
        ensures
            final(self).wf(),
            final(self).spec_next_id() == old(self).spec_next_id(),
            final(self)@ == old(self)@.update(j as int, User { setting: Some(setting), ..old(self)@[j as int] }),
    {
        let ghost before = self@;
        self.rows[j].setting = Some(setting);
        assert(self@ =~= before.update(j as int, User { setting: Some(setting), ..before[j as int] }));
        assert(forall|i: int| 0 <= i < self@.len() ==> #[trigger] self@[i].id == before[i].id);
        assert(forall|i: int| 0 <= i < self@.len() ==> #[trigger] self@[i].username == before[i].username);
    }
}

/// Which page of the account list to show; pages count from 1, and ten
/// accounts make a page unless said otherwise.
#[derive(Debug)]
pub struct GetUserListQuery {
    pub page: Option<u64>,
    pub size: Option<u64>,
}

/// One page of accounts, and how many accounts there are in all.
#[derive(Debug)]
pub struct GetUserListResp {
    pub items: Vec<PublicUser>,
    pub total: u64,
}

/// The live accounts, in table order.
pub open spec fn live_users(rows: Seq<User>) -> Seq<User> {
    rows.filter(|u: User| u.live())
}

pub open spec fn min_int(a: int, b: int) -> int {
    if a < b {
        a
    } else {
        b
    }
}

/// The live accounts as clients see them, in table order.
pub open spec fn live_public(rows: Seq<User>) -> Seq<PublicUser> {
    live_users(rows).map_values(|u: User| sanitized(u))
}

/// `u` placed into `s` after every account created no later than it, and
/// before the ones created later.
pub open spec fn insert_by_created(s: Seq<PublicUser>, u: PublicUser) -> Seq<PublicUser>
    decreases s.len(),
{
    if s.len() == 0 {
        seq![u]
    } else if s.last().created_at <= u.created_at {
        s.push(u)
    } else {
        insert_by_created(s.drop_last(), u).push(s.last())
    }
}

/// The accounts ordered by creation time, oldest first; accounts created at
/// the same time keep their order.
pub open spec fn sorted_by_created(s: Seq<PublicUser>) -> Seq<PublicUser>
    decreases s.len(),
{
    if s.len() == 0 {
        s
    } else {
        insert_by_created(sorted_by_created(s.drop_last()), s.last())
    }
}

pub open spec fn created_ascending(s: Seq<PublicUser>) -> bool {
    forall|i: int, j: int| 0 <= i <= j < s.len() ==> #[trigger] s[i].created_at <= #[trigger] s[j].created_at
}

/// The accounts of `s` between positions `lo` and `hi`, cut at its end.
pub open spec fn window(s: Seq<PublicUser>, lo: int, hi: int) -> Seq<PublicUser> {
    s.subrange(min_int(lo, s.len() as int), min_int(hi, s.len() as int))
}

proof fn lemma_insert_at(s: Seq<PublicUser>, u: PublicUser, k: int)
    requires
        0 <= k <= s.len(),
        forall|i: int| k <= i < s.len() ==> #[trigger] s[i].created_at > u.created_at,
        k == 0 || s[k - 1].created_at <= u.created_at,
    ensures
        insert_by_created(s, u) == s.insert(k, u),
    decreases s.len(),
{
    if s.len() == 0 {
        assert(seq![u] =~= s.insert(k, u));
    } else if s.last().created_at <= u.created_at {
        if k < s.len() {
            assert(s[s.len() - 1].created_at > u.created_at);
        }
        assert(s.push(u) =~= s.insert(k, u));
    } else {
        let t = s.drop_last();
        assert forall|i: int| k <= i < t.len() implies #[trigger] t[i].created_at > u.created_at by {
            assert(t[i] == s[i]);
        }
        lemma_insert_at(t, u, k);
        assert(t.insert(k, u).push(s.last()) =~= s.insert(k, u));
    }
}

/// Inserts `u` into an ascending list after every account created no later
/// than it.
fn insert_sorted(sorted: &mut Vec<PublicUser>, u: PublicUser)
    requires
        created_ascending(old(sorted)@),
    ensures
        final(sorted)@ == insert_by_created(old(sorted)@, u),
        final(sorted)@.len() == old(sorted)@.len() + 1,
        created_ascending(final(sorted)@),
{
    let ghost s = sorted@;
    let mut k: usize = sorted.len();
    let mut done = false;
    while k > 0 && !done
        invariant
            sorted@ == s,
            k <= s.len(),
            forall|i: int| k <= i < s.len() ==> #[trigger] s[i].created_at > u.created_at,
            done ==> k > 0 && s[k - 1].created_at <= u.created_at,
        decreases k + if done {
            0int
        } else {
            1int
        },
    {
        if sorted[k - 1].created_at <= u.created_at {
            done = true;
        } else {
            k = k - 1;
        }
    }
    proof {
        lemma_insert_at(s, u, k as int);
        s.insert_ensures(k as int, u);
    }
    let ghost uc = u.created_at;
    sorted.insert(k, u);
    proof {
        let t = sorted@;
        assert forall|i: int, j: int| 0 <= i <= j < t.len() implies #[trigger] t[i].created_at
            <= #[trigger] t[j].created_at by {
            let ci = if i < k {
                s[i].created_at
            } else if i == k {
                uc
            } else {
                s[i - 1].created_at
            };
            let cj = if j < k {
                s[j].created_at
            } else if j == k {
                uc
            } else {
                s[j - 1].created_at
            };
            assert(t[i].created_at == ci);
            assert(t[j].created_at == cj);
            if i < k && k > 0 {
                assert(s[i].created_at <= s[k - 1].created_at);
            }
            if j < k && i < k {
                assert(s[i].created_at <= s[j].created_at);
            }
            if i > k && j > k {
                assert(s[i - 1].created_at <= s[j - 1].created_at);
            }
        }
    }
}

pub open spec fn page_number(q: GetUserListQuery) -> int {
    match q.page {
        Some(p) => p as int,
        None => 1,
    }
}

pub open spec fn page_size(q: GetUserListQuery) -> int {
    match q.size {
        Some(s) => s as int,
        None => 10,
    }
}

impl PublicUser {
    pub fn copy(&self) -> (r: PublicUser)
        ensures
            r == *self,
    {
        PublicUser {
            id: self.id,
            username: self.username.clone(),
            avatar: copy_opt_text(&self.avatar),
            setting: copy_opt_setting(&self.setting),
            is_admin: self.is_admin,
            created_at: self.created_at,
        }
    }
}

/// An administrator lists the live accounts, oldest first, one page at a
/// time.
pub fn get_user_list(users: &UserTable, operator_id: i64, data: &GetUserListQuery) -> (r: Result<
    GetUserListResp,
    AppError,
>)
    requires
        users.wf(),
    ensures
        !may_manage(users@, operator_id) ==> fails_with(r, ErrorKind::Forbidden),
        may_manage(users@, operator_id) && (page_number(*data) == 0 || page_size(*data) == 0) ==> fails_with(
            r,
            ErrorKind::ValidationFailed,
        ),
        r is Ok <==> may_manage(users@, operator_id) && page_number(*data) >= 1 && page_size(*data) >= 1,
        r is Ok ==> created_ascending(sorted_by_created(live_public(users@))),
        r matches Ok(resp) ==> {
            let n = page_number(*data);
            let size = page_size(*data);
            &&& resp.total == live_users(users@).len()
            &&& resp.items@ == window(sorted_by_created(live_public(users@)), (n - 1) * size, n * size)
        },
{
    if !users.operator_may_manage(operator_id) {
        return Err(AppError::new(ErrorKind::Forbidden, 403, "permission denied"));
    }
    let page: u64 = match data.page {
        Some(p) => p,
        None => 1,
    };
    let size: u64 = match data.size {
        Some(s) => s,
        None => 10,
    };
    if page == 0 || size == 0 {
        return Err(AppError::new(ErrorKind::ValidationFailed, 422, "page and size must be positive"));
    }
    let mut sorted: Vec<PublicUser> = Vec::new();
    let mut j: usize = 0;
    while j < users.len()
        invariant
            j <= users@.len(),
            sorted@ == sorted_by_created(live_public(users@.subrange(0, j as int))),
            sorted@.len() == live_users(users@.subrange(0, j as int)).len(),
            sorted@.len() <= j,
            created_ascending(sorted@),
        decreases users@.len() - j,
    {
        let ghost pre = users@.subrange(0, j + 1);
        let ghost done = users@.subrange(0, j as int);
        assert(pre.drop_last() =~= done);
        assert(pre.last() == users@[j as int]);
        proof {
            reveal(Seq::filter);
        }
        let u = users.get(j);
        if u.deleted_at.is_none() {
            let p = sanitize(u);
            proof {
                assert(live_users(pre) == live_users(done).push(*u));
                assert(live_public(pre) =~= live_public(done).push(p));
                assert(live_public(pre).drop_last() =~= live_public(done));
            }
            insert_sorted(&mut sorted, p);
        } else {
            assert(live_users(pre) == live_users(done));
        }
        j = j + 1;
    }
    assert(users@.subrange(0, users@.len() as int) =~= users@);
    let p1: u128 = (page - 1) as u128;
    let p2: u128 = page as u128;
    let sz: u128 = size as u128;
    assert(p1 * sz <= u128::MAX && p2 * sz <= u128::MAX) by (nonlinear_arith)
        requires
            p1 < 0x1_0000_0000_0000_0000,
            p2 < 0x1_0000_0000_0000_0000,
            sz < 0x1_0000_0000_0000_0000,
    ;
    let lo: u128 = p1 * sz;
    let hi: u128 = p2 * sz;
    assert(lo <= hi) by (nonlinear_arith)
        requires
            lo == p1 * sz,
            hi == p2 * sz,
            p2 == p1 + 1,
    ;
    let n = sorted.len();
    let start: usize = if lo < n as u128 {
        lo as usize
    } else {
        n
    };
    let stop: usize = if hi < n as u128 {
        hi as usize
    } else {
        n
    };
    let mut items: Vec<PublicUser> = Vec::new();
    let mut k: usize = start;
    while k < stop
        invariant
            start <= k <= stop <= n,
            n == sorted@.len(),
            items@ == sorted@.subrange(start as int, k as int),
        decreases stop - k,
    {
        items.push(sorted[k].copy());
        assert(sorted@.subrange(start as int, k + 1) =~= sorted@.subrange(start as int, k as int).push(sorted@[k as int]));
        k = k + 1;
    }
    Ok(GetUserListResp { items, total: n as u64 })
}

} // verus!
