use vstd::prelude::*;

verus! {

/// The per-request administrative capability: either granted to a wallet
/// address that logged in, or granted wholesale by the development bypass.
#[derive(Clone, Debug)]
pub struct AdminAuth {
    pub is_dev_admin: bool,
    pub tezos_admin_address: Option<String>,
}

impl AdminAuth {
    /// Whether this capability grants administrative access.
    pub fn is_admin(&self) -> (r: bool)
        ensures
            r == (self.is_dev_admin || self.tezos_admin_address is Some),
    {
        self.is_dev_admin || self.tezos_admin_address.is_some()
    }

    /// The capability handed to unauthenticated requests: no admin rights.
    pub fn public() -> (r: AdminAuth)
        ensures
            !r.is_dev_admin,
            r.tezos_admin_address is None,
    {
        AdminAuth { is_dev_admin: false, tezos_admin_address: None }
    }
}

/// The session minted on a successful login: the wallet address it is bound
/// to. Serialized as a single-member JSON object inside the cookie token.
#[derive(Clone, Debug)]
pub struct TezosAdminSession {
    pub address: String,
}

} // verus!
