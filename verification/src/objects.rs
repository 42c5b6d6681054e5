//! The values that pass between the handshake and its callers.

use vstd::prelude::*;

verus! {

/// Query parameters of the first handshake stage.
pub struct Stage1LoginParams {
    pub username: String,
}

impl Default for Stage1LoginParams {
    /// A request that names nobody.
    fn default() -> (params: Self)
        ensures
            params.username@ == Seq::<char>::empty(),
    {
        Self { username: String::new() }
    }
}

/// Query parameters of the second handshake stage.
pub struct Stage2LoginParams {
    pub id: String,
}

impl Default for Stage2LoginParams {
    /// A request that names no session.
    fn default() -> (params: Self)
        ensures
            params.id@ == Seq::<char>::empty(),
    {
        Self { id: String::new() }
    }
}

/// What a verified identity is, as mathematics: the 128 bits of the
/// provider's UUID and the display name.
pub struct Identity {
    pub uuid: u128,
    pub username: Seq<char>,
}

/// An identity that the provider has vouched for. `uuid` holds the UUID's
/// sixteen bytes as one big-endian number.
#[derive(Debug)]
pub struct UserInfo {
    pub uuid: u128,
    pub username: String,
}

impl View for UserInfo {
    type V = Identity;

    open spec fn view(&self) -> Identity {
        Identity { uuid: self.uuid, username: self.username@ }
    }
}

impl Clone for UserInfo {
    fn clone(&self) -> (copy: Self)
        ensures
            copy == *self,
    {
        UserInfo { uuid: self.uuid, username: self.username.clone() }
    }
}

} // verus!
