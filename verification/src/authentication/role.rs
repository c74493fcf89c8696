//! The role under which a caller acts.

use vstd::prelude::*;
use crate::text::same_text;

verus! {

/// What a caller may do.
#[derive(Clone, Copy, Debug, PartialEq, Eq, Structural)]
pub enum Role {
    User,
    Admin,
}

impl Role {
    /// The role that `role_name` names.
    pub open spec fn named(role_name: Seq<char>) -> Role {
        if role_name == "admin"@ {
            Role::Admin
        } else {
            Role::User
        }
    }

    /// The text under which the role is shown.
    pub open spec fn label(self) -> Seq<char> {
        match self {
            Role::User => "User"@,
            Role::Admin => "admin"@,
        }
    }

    /// Reads a role name: `admin` is the administrator, every other name an
    /// ordinary user.
    pub fn from_str(role_name: &str) -> (role: Role)
        ensures
            role == Role::named(role_name@),
    {
        if same_text(role_name, "admin") {
            Role::Admin
        } else {
            Role::User
        }
    }

    /// The role as text.
    pub fn to_string(&self) -> (text: String)
        ensures
            text@ == self.label(),
    {
        match self {
            Role::User => "User".to_owned(),
            Role::Admin => "admin".to_owned(),
        }
    }
}

} // verus!
