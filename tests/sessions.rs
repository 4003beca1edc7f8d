use dashboard::errors::ErrorKind;
use dashboard::session::{Session, SessionPolicy};
use dashboard::user::PublicUser;

const DAY: u64 = 86_400;

fn alice() -> PublicUser {
    PublicUser { id: 3, username: "alice".to_string(), avatar: None, setting: None, is_admin: false, created_at: 0 }
}

#[test]
fn fresh_session_resolves_operator() {
    let p = SessionPolicy::standard();
    let mut s = Session::start(&alice(), 1000);
    assert_eq!(s.resolve(&p, 1000 + DAY).unwrap(), 3);
    assert_eq!(s, Session::Authenticated { user_id: 3, issued_at: 1000, last_seen: 1000 + DAY });
}

#[test]
fn idle_session_is_rejected_within_lifetime() {
    let p = SessionPolicy::standard();
    let mut s = Session::start(&alice(), 0);
    let e = s.resolve(&p, 7 * DAY + 1).unwrap_err();
    assert_eq!(e.kind, ErrorKind::Unauthenticated);
    assert_eq!(e.status_code(), 401);
    assert_eq!(s, Session::Anonymous);
}

#[test]
fn exactly_at_inactivity_deadline_still_valid() {
    let p = SessionPolicy::standard();
    let mut s = Session::start(&alice(), 0);
    assert_eq!(s.resolve(&p, 7 * DAY).unwrap(), 3);
}

#[test]
fn activity_slides_the_deadline_but_not_the_lifetime() {
    let p = SessionPolicy::standard();
    let mut s = Session::start(&alice(), 0);
    for d in 1..=14 {
        assert_eq!(s.resolve(&p, d * DAY).unwrap(), 3);
    }
    let e = s.resolve(&p, 14 * DAY + 1).unwrap_err();
    assert_eq!(e.kind, ErrorKind::Unauthenticated);
}

#[test]
fn logout_is_idempotent() {
    let p = SessionPolicy::standard();
    let mut s = Session::start(&alice(), 0);
    s.logout();
    assert_eq!(s, Session::Anonymous);
    s.logout();
    assert_eq!(s, Session::Anonymous);
    assert_eq!(s.resolve(&p, 1).unwrap_err().kind, ErrorKind::Unauthenticated);
    let mut a = Session::anonymous();
    assert_eq!(a.resolve(&p, 1).unwrap_err().kind, ErrorKind::Unauthenticated);
}

#[test]
fn standard_policy_values() {
    let p = SessionPolicy::standard();
    assert_eq!(p.absolute_lifetime, 14 * DAY);
    assert_eq!(p.inactivity_deadline, 7 * DAY);
}
