//! User accounts: the identity and display name behind each caller.

use vstd::prelude::*;

use crate::ident::Id;

verus! {

/// A user account: the opaque identity the transport layer authenticates,
/// and the display name chosen at account creation.
pub struct User {
    pub id: Id,
    pub name: String,
}

#[verifier::ext_equal]
pub struct UserView {
    pub id: Id,
    pub name: Seq<char>,
}

impl View for User {
    type V = UserView;

    open spec fn view(&self) -> UserView {
        UserView { id: self.id, name: self.name@ }
    }
}

impl Clone for User {
    fn clone(&self) -> (r: Self)
        ensures
            r@ == self@,
    {
        User { id: self.id, name: self.name.clone() }
    }
}

/// What an account is created from: the display name.
pub struct CreateUserIdRequest {
    pub name: String,
}

} // verus!
