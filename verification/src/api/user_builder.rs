//! Putting a user together.

use vstd::prelude::*;
use crate::api::state::State;
use crate::api::user::User;
use crate::error::Error;
use crate::id::identity::UserIdentity;
use crate::id::psk::Psk;
use crate::id::psk::PskId;

verus! {

/// What a user is put together from.
pub struct UserBuilder<T> {
    transport: Option<T>,
    id: Option<UserIdentity>,
    psks: Vec<(PskId, Psk)>,
}

impl UserBuilder<()> {
    /// A builder with no transport, no identity and no pre-shared key.
    pub fn new() -> (r: Self)
        ensures
            r.spec_transport() is None,
            r.spec_identity() is None,
            r.spec_psks() == Seq::<(PskId, Psk)>::empty(),
    {
        UserBuilder { transport: None, id: None, psks: Vec::new() }
    }
}

impl<T> UserBuilder<T> {
    /// The transport, if one has been given.
    pub closed spec fn spec_transport(&self) -> Option<T> {
        self.transport
    }

    /// The identity, if one has been given.
    pub closed spec fn spec_identity(&self) -> Option<UserIdentity> {
        self.id
    }

    /// The pre-shared keys that have been given, in order.
    pub closed spec fn spec_psks(&self) -> Seq<(PskId, Psk)> {
        self.psks@
    }

    /// The same builder with this identity.
    pub fn with_identity(self, id: UserIdentity) -> (r: Self)
        ensures
            r.spec_transport() == self.spec_transport(),
            r.spec_identity() == Some(id),
            r.spec_psks() == self.spec_psks(),
    {
        UserBuilder { transport: self.transport, id: Some(id), psks: self.psks }
    }

    /// The same builder with this transport.
    pub fn with_transport<NewT>(self, transport: NewT) -> (r: UserBuilder<NewT>)
        ensures
            r.spec_transport() == Some(transport),
            r.spec_identity() == self.spec_identity(),
            r.spec_psks() == self.spec_psks(),
    {
        UserBuilder { transport: Some(transport), id: self.id, psks: self.psks }
    }

    /// The same builder with one more pre-shared key.
    pub fn with_psk(self, pskid: PskId, psk: Psk) -> (r: Self)
        ensures
            r.spec_transport() == self.spec_transport(),
            r.spec_identity() == self.spec_identity(),
            r.spec_psks() == self.spec_psks().push((pskid, psk)),
    {
        let mut psks = self.psks;
        psks.push((pskid, psk));
        UserBuilder { transport: self.transport, id: self.id, psks }
    }

    /// The user, if a transport has been given.
    pub fn build(self) -> (r: Result<User<T>, Error>)
        ensures
            match self.spec_transport() {
                Some(transport) => r is Ok && r->Ok_0.wf() && r->Ok_0.spec_state()@
                    == State::new_spec(self.spec_identity(), self.spec_psks())
                    && r->Ok_0.spec_transport() == transport,
                None => r is Err && r->Err_0 == Error::Transport,
            },
    {
        match self.transport {
            Some(transport) => Ok(User::new(self.id, self.psks.as_slice(), transport)),
            None => Err(Error::Transport),
        }
    }
}

impl User<()> {
    /// A builder of users.
    pub fn builder() -> (r: UserBuilder<()>)
        ensures
            r.spec_transport() is None,
            r.spec_identity() is None,
            r.spec_psks() == Seq::<(PskId, Psk)>::empty(),
    {
        UserBuilder::new()
    }
}

} // verus!
