//! The persisted user entity and the fixed demonstration data set.

use vstd::prelude::*;

verus! {

/// A user record as the persistent store holds it: a stable unique numeric
/// id, an email address, an opaque password stored verbatim, and a textual
/// creation timestamp.
pub struct User {
    pub id: u32,
    pub email: String,
    pub password: String,
    pub created_at: String,
}

/// The five records the offline import collaborator seeds a fresh store
/// with: ids 1 through 5, one email each from alice to eve.
pub fn demo_users() -> (users: Vec<User>)
    ensures
        users@.len() == 5,
        forall|i: int| 0 <= i < 5 ==> (#[trigger] users@[i]).id == i + 1,
        users@[0].email@ == "alice@example.com"@,
        users@[1].email@ == "bob@example.com"@,
        users@[2].email@ == "carol@example.com"@,
        users@[3].email@ == "dave@example.com"@,
        users@[4].email@ == "eve@example.com"@,
        users@[0].password@ == "pass1"@,
        users@[1].password@ == "pass2"@,
        users@[2].password@ == "pass3"@,
        users@[3].password@ == "pass4"@,
        users@[4].password@ == "pass5"@,
        users@[0].created_at@ == "2025-06-17T12:00:00Z"@,
        users@[1].created_at@ == "2025-06-17T12:05:00Z"@,
        users@[2].created_at@ == "2025-06-17T12:10:00Z"@,
        users@[3].created_at@ == "2025-06-17T12:15:00Z"@,
        users@[4].created_at@ == "2025-06-17T12:20:00Z"@,
{
    let mut users: Vec<User> = Vec::new();
    users.push(
        User {
            id: 1,
            email: "alice@example.com".to_owned(),
            password: "pass1".to_owned(),
            created_at: "2025-06-17T12:00:00Z".to_owned(),
        },
    );
    users.push(
        User {
            id: 2,
            email: "bob@example.com".to_owned(),
            password: "pass2".to_owned(),
            created_at: "2025-06-17T12:05:00Z".to_owned(),
        },
    );
    users.push(
        User {
            id: 3,
            email: "carol@example.com".to_owned(),
            password: "pass3".to_owned(),
            created_at: "2025-06-17T12:10:00Z".to_owned(),
        },
    );
    users.push(
        User {
            id: 4,
            email: "dave@example.com".to_owned(),
            password: "pass4".to_owned(),
            created_at: "2025-06-17T12:15:00Z".to_owned(),
        },
    );
    users.push(
        User {
            id: 5,
            email: "eve@example.com".to_owned(),
            password: "pass5".to_owned(),
            created_at: "2025-06-17T12:20:00Z".to_owned(),
        },
    );
    users
}

} // verus!
