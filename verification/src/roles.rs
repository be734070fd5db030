//! The role enumeration carried by every user profile.

use vstd::prelude::*;

verus! {

/// Role of a profile: plain users, employees, law professionals and
/// administrators.
#[derive(Clone, Copy, PartialEq, Eq, Structural, Debug)]
pub enum UserProfilesRoles {
    User,
    Employee,
    Law,
    Admin,
}

impl UserProfilesRoles {
    /// The textual label stored with a profile and embedded in access tokens.
    pub open spec fn spec_label(self) -> Seq<char> {
        match self {
            UserProfilesRoles::User => "user"@,
            UserProfilesRoles::Employee => "employee"@,
            UserProfilesRoles::Law => "law"@,
            UserProfilesRoles::Admin => "admin"@,
        }
    }

    /// Textual label of the role, as it travels inside token claims.
    pub fn as_str(self) -> (r: &'static str)
        ensures
            r@ == self.spec_label(),
    {
        match self {
            UserProfilesRoles::User => "user",
            UserProfilesRoles::Employee => "employee",
            UserProfilesRoles::Law => "law",
            UserProfilesRoles::Admin => "admin",
        }
    }
}

} // verus!
