use vstd::prelude::*;
use crate::app::App;
use crate::user::User;

verus! {

/// A live administrator may manage users.
pub open spec fn spec_can_manage_users(operator: User) -> bool {
    operator.live() && operator.is_admin
}

/// Nobody may delete their own account; otherwise deleting takes the right
/// to manage users.
pub open spec fn spec_can_delete_user(operator: User, target_id: i64) -> bool {
    operator.id != target_id && spec_can_manage_users(operator)
}

pub fn can_manage_users(operator: &User) -> (r: bool)
    ensures
        r == spec_can_manage_users(*operator),
{
    operator.deleted_at.is_none() && operator.is_admin
}

pub fn can_delete_user(operator: &User, target_id: i64) -> (r: bool)
    ensures
        r == spec_can_delete_user(*operator, target_id),
        operator.id == target_id ==> !r,
{
    if operator.id == target_id {
        return false;
    }
    can_manage_users(operator)
}

/// The resource belongs to the operator.
pub fn owns_resource(operator: &User, resource: &App) -> (r: bool)
    ensures
        r == (resource.owner_id == operator.id),
{
    resource.owner_id == operator.id
}

} // verus!
