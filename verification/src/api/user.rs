//! The user of a stream: their state and the transport that carries their
//! messages.

use vstd::prelude::*;
use crate::address::Address;
use crate::address::MsgId;
use crate::api::backup::backup_of;
use crate::api::backup::restored_from;
use crate::api::backup::state_len;
use crate::api::backup::valid;
use crate::api::message::Message;
use crate::api::message::Received;
use crate::api::receive::handled;
use crate::api::receive::header_of_message;
use crate::api::receive::keeps;
use crate::api::send::committed;
use crate::api::send::committed_announcement;
use crate::api::send::committed_subscription;
use crate::api::send::Invitation;
use crate::api::send::keyload_refusal;
use crate::api::send::keyload_sent;
use crate::api::send::Prepared;
use crate::api::send::prepared_announcement;
use crate::api::send::prepared_signed_packet;
use crate::api::send::prepared_tagged_packet;
use crate::api::send::prepared_unsubscription;
use crate::api::send::sent_keyload;
use crate::api::send::subscribed_id;
use crate::api::send::subscribing;
use crate::api::state::address_views;
use crate::api::state::exchange_key_of;
use crate::api::state::identifier_views;
use crate::api::state::next_addresses_of;
use crate::api::state::State;
use crate::api::state::StateView;
use crate::api::transport::SendResponse;
use crate::api::transport::Transport;
use crate::crypto::random_key;
use crate::ddml::unwrap::viewed;
use crate::error::Error;
use crate::id::identifier::Identifier;
use crate::id::identity::UserIdentity;
use crate::id::permission::Permission;
use crate::id::permission::PermissionDuration;
use crate::id::permission::Permissioned;
use crate::id::psk::Psk;
use crate::id::psk::PskId;
use crate::id::psk::pskid_of;
use crate::kinds::keyload::permission_views;
use crate::kinds::keyload::pskid_views;
use crate::kinds::signed_packet::Payload;
use crate::message::hdf::Header;
use crate::message::transport::TransportMessage;
use crate::order::sorted_keys;

verus! {

/// The user of a stream.
pub struct User<T> {
    transport: T,
    state: State,
}

/// Users are the same where their states stand alike in a backup. Two users
/// with the same state and different transports are the same.
impl<T> PartialEq for User<T> {
    fn eq(&self, other: &User<T>) -> (r: bool) {
        self.state.same_raw(&other.state)
    }
}

impl<T> vstd::std_specs::cmp::PartialEqSpecImpl for User<T> {
    open spec fn obeys_eq_spec() -> bool {
        true
    }

    open spec fn eq_spec(&self, other: &User<T>) -> bool {
        self.spec_state().raw() == other.spec_state().raw()
    }
}

/// What came of a send: an error where the transport already holds a message
/// at the address or refuses the new one, else its answer.
pub fn delivered<TSR>(found: bool, sent: Result<TSR, Error>) -> (r: Result<TSR, Error>)
    ensures
        r == if found {
            Err::<TSR, Error>(Error::AddressConflict)
        } else {
            sent
        },
{
    if found {
        Err(Error::AddressConflict)
    } else {
        sent
    }
}

/// What came of asking the transport for a message: the message where it
/// handed one over, nothing where it failed.
pub fn held(outcome: Result<TransportMessage, Error>) -> (r: Option<TransportMessage>)
    ensures
        r == match outcome {
            Ok(msg) => Some(msg),
            Err(_) => None::<TransportMessage>,
        },
{
    match outcome {
        Ok(msg) => Some(msg),
        Err(_) => None,
    }
}

/// The permissions to read of these subscribers.
pub open spec fn readers(ids: Seq<Seq<u8>>) -> Seq<Permission> {
    Seq::new(
        ids.len(),
        |i: int|
            Permission {
                tag: crate::id::permission::TAG_READ,
                id: ids[i],
                duration: PermissionDuration::Perpetual,
            },
    )
}

/// The permissions to read and write without end of these subscribers.
pub open spec fn writers(ids: Seq<Seq<u8>>) -> Seq<Permission> {
    Seq::new(
        ids.len(),
        |i: int|
            Permission {
                tag: crate::id::permission::TAG_READ_WRITE,
                id: ids[i],
                duration: PermissionDuration::Perpetual,
            },
    )
}

impl<T> User<T> {
    /// The state of the user.
    pub closed spec fn spec_state(&self) -> State {
        self.state
    }

    /// The transport of the user.
    pub closed spec fn spec_transport(&self) -> T {
        self.transport
    }

    /// The state of the user is well formed.
    pub open spec fn wf(&self) -> bool {
        self.spec_state().wf()
    }

    /// A user with this identity who trusts these pre-shared keys and sends
    /// and receives over `transport`.
    pub fn new(user_id: Option<UserIdentity>, psks: &[(PskId, Psk)], transport: T) -> (r: Self)
        ensures
            r.wf(),
            r.spec_state()@ == State::new_spec(user_id, psks@),
            r.spec_transport() == transport,
    {
        User { transport, state: State::new(user_id, psks) }
    }

    /// The state of the user.
    pub fn state(&self) -> (r: &State)
        ensures
            *r == self.spec_state(),
    {
        &self.state
    }

    /// The identifier of the user.
    pub fn identifier(&self) -> (r: Result<Identifier, Error>)
        ensures
            r == match self.spec_state().user_id {
                Some(u) => Ok::<Identifier, Error>(u.id),
                None => Err::<Identifier, Error>(Error::NoIdentity),
            },
    {
        self.state.identifier()
    }

    /// The identity of the user.
    pub fn identity(&self) -> (r: Result<&UserIdentity, Error>)
        ensures
            match self.spec_state().user_id {
                Some(u) => r is Ok && *r->Ok_0 == u,
                None => r is Err && r->Err_0 == Error::NoIdentity,
            },
    {
        self.state.identity()
    }

    /// The address of the announcement of the stream that the user is bound
    /// to.
    pub fn stream_address(&self) -> (r: Option<Address>)
        ensures
            r == self.spec_state().stream_address,
    {
        self.state.stream_address()
    }

    /// The transport.
    pub fn transport(&self) -> (r: &T)
        ensures
            *r == self.spec_transport(),
    {
        &self.transport
    }

    /// The transport, to change it.
    pub fn transport_mut(&mut self) -> (r: &mut T)
        ensures
            *r == old(self).spec_transport(),
            final(self).spec_transport() == *final(r),
            final(self).spec_state() == old(self).spec_state(),
    {
        &mut self.transport
    }

    /// The subscribers whose exchange keys the user knows, in the order of
    /// their identifiers.
    pub fn subscribers(&self) -> (r: Vec<Identifier>)
        requires
            self.wf(),
        ensures
            identifier_views(r@) == sorted_keys(self.spec_state()@.exchange_keys.dom()),
    {
        self.state.subscribers()
    }

    /// Keeps the exchange key that belongs to the identifier of a
    /// subscriber; whether the subscriber was not known. The identifier must
    /// be an Ed25519 key that converts to an exchange key: see
    /// `try_add_subscriber`.
    pub fn add_subscriber(&mut self, subscriber: Identifier) -> (r: bool)
        requires
            old(self).wf(),
            exchange_key_of(subscriber@) is Some,
        ensures
            final(self).wf(),
            final(self).spec_state()@ == old(self).spec_state()@.with_exchange_key(
                subscriber@,
                exchange_key_of(subscriber@)->0,
            ),
            r == !old(self).spec_state()@.exchange_keys.contains_key(subscriber@),
    {
        self.state.add_subscriber(subscriber)
    }

    /// Keeps the exchange key that belongs to the identifier of a
    /// subscriber, where the identifier has one, and says whether the
    /// subscriber was not known; `None`, and nothing kept, where it has
    /// none.
    pub fn try_add_subscriber(&mut self, subscriber: Identifier) -> (r: Option<bool>)
        requires
            old(self).wf(),
        ensures
            final(self).wf(),
            r is Some <==> exchange_key_of(subscriber@) is Some,
            r is Some ==> final(self).spec_state()@ == old(self).spec_state()@.with_exchange_key(
                subscriber@,
                exchange_key_of(subscriber@)->0,
            ) && r->0 == !old(self).spec_state()@.exchange_keys.contains_key(subscriber@),
            r is None ==> final(self).spec_state()@ == old(self).spec_state()@,
    {
        self.state.try_add_subscriber(subscriber)
    }

    /// Forgets a subscriber; whether their cursor or their exchange key was
    /// known.
    pub fn remove_subscriber(&mut self, id: Identifier) -> (r: bool)
        requires
            old(self).wf(),
        ensures
            final(self).wf(),
            final(self).spec_state()@ == old(self).spec_state()@.without_subscriber(id@),
            r == (old(self).spec_state()@.cursors.contains_key(id@) || old(
                self,
            ).spec_state()@.exchange_keys.contains_key(id@)),
    {
        self.state.remove_subscriber(id)
    }

    /// Trusts a pre-shared key; whether it was not trusted before.
    pub fn add_psk(&mut self, psk: Psk) -> (r: bool)
        requires
            old(self).wf(),
        ensures
            final(self).wf(),
            final(self).spec_state()@ == (StateView {
                psks: old(self).spec_state()@.psks.insert(pskid_of(psk@), psk@),
                ..old(self).spec_state()@
            }),
            r == !old(self).spec_state()@.psks.contains_key(pskid_of(psk@)),
    {
        self.state.add_psk(psk)
    }

    /// Stops trusting a pre-shared key; whether it was trusted.
    pub fn remove_psk(&mut self, pskid: PskId) -> (r: bool)
        requires
            old(self).wf(),
        ensures
            final(self).wf(),
            final(self).spec_state()@ == (StateView {
                psks: old(self).spec_state()@.psks.remove(pskid@),
                ..old(self).spec_state()@
            }),
            r == old(self).spec_state()@.psks.contains_key(pskid@),
    {
        self.state.remove_psk(pskid)
    }

    /// The backup of the user's state under the password `pwd`. The bytes
    /// depend on the state as a value and on the password alone. Fails only
    /// where the size does not fit the machine.
    pub fn backup(&self, pwd: &[u8]) -> (r: Result<Vec<u8>, Error>)
        requires
            self.wf(),
        ensures
            if state_len(self.spec_state().raw()) <= usize::MAX {
                r is Ok && r->Ok_0@ == backup_of(self.spec_state().raw(), pwd@)
            } else {
                r is Err && r->Err_0 == Error::SizeOverflow
            },
    {
        self.state.backup(pwd)
    }

    /// The user whose state a backup holds under the password `pwd`, with
    /// `transport` to send and receive over. What does not read, or does not
    /// end in the code that the password and the state give, or is not the
    /// state of a user, is refused.
    pub fn restore(backup: &[u8], pwd: &[u8], transport: T) -> (r: Result<Self, Error>)
        ensures
            match restored_from(backup@, pwd@) {
                Ok(t) => if valid(t.value) {
                    r is Ok && r->Ok_0.spec_state().raw() == t.value && r->Ok_0.wf()
                        && r->Ok_0.spec_transport() == transport
                } else {
                    r is Err && r->Err_0 == Error::BadState
                },
                Err(e) => r is Err && r->Err_0 == e,
            },
    {
        match State::restore(backup, pwd) {
            Ok(state) => Ok(User { transport, state }),
            Err(e) => Err(e),
        }
    }

    /// Whether two users have the same state; their transports are not
    /// looked at.
    pub fn same(&self, other: &User<T>) -> (r: bool)
        requires
            self.wf(),
            other.wf(),
        ensures
            r == (self.spec_state()@ == other.spec_state()@),
    {
        self.state.same(&other.state)
    }

    /// The addresses at which the next message of each publisher that the
    /// user follows is to be looked for, in the order of the publishers'
    /// identifiers; none where the user is bound to no stream.
    pub fn next_addresses(&self) -> (r: Vec<Address>)
        requires
            self.wf(),
        ensures
            address_views(r@) == next_addresses_of(self.spec_state()@),
    {
        self.state.next_addresses()
    }

    /// Handles the message found at `address`.
    pub fn handle_message(&mut self, address: Address, msg: TransportMessage) -> (r: Result<
        Message,
        Error,
    >)
        requires
            old(self).wf(),
        ensures
            final(self).wf(),
            final(self).spec_state()@ == handled(old(self).spec_state()@, address, msg@).state,
            match r {
                Ok(m) => handled(old(self).spec_state()@, address, msg@).result == Ok::<
                    Received,
                    Error,
                >(m.content@) && m.address == address && Ok::<Header, Error>(m.header@)
                    == header_of_message(address, msg@) && keeps(m.content, msg@),
                Err(e) => handled(old(self).spec_state()@, address, msg@).result == Err::<
                    Received,
                    Error,
                >(e),
            },
    {
        self.state.handle_message(address, msg)
    }
}

impl<T: Transport> User<T> {
    /// Hands a message to the transport, unless the transport already holds
    /// one at the address. The state stays as it is.
    pub fn deliver(&mut self, address: Address, message: TransportMessage) -> (r: Result<
        T::SendResponse,
        Error,
    >)
        ensures
            final(self).spec_state() == old(self).spec_state(),
    {
        let found = self.transport.recv_message(address).is_ok();
        let sent = if found {
            Err(Error::AddressConflict)
        } else {
            self.transport.send_message(address, message)
        };
        delivered(found, sent)
    }

    /// The message that the transport holds at `address`, if it holds one.
    /// The state stays as it is.
    pub fn fetch(&mut self, address: Address) -> (r: Option<TransportMessage>)
        ensures
            final(self).spec_state() == old(self).spec_state(),
    {
        held(self.transport.recv_message(address))
    }

    /// Fetches the message at `address` from the transport and handles it.
    /// Where the transport has none, the state stays as it is.
    pub fn receive_message(&mut self, address: Address) -> (r: Result<Message, Error>)
        requires
            old(self).wf(),
        ensures
            final(self).wf(),
            (r is Err && final(self).spec_state()@ == old(self).spec_state()@) || exists|
                body: Seq<u8>,
            |
                {
                    &&& final(self).spec_state()@ == #[trigger] handled(
                        old(self).spec_state()@,
                        address,
                        body,
                    ).state
                    &&& match r {
                        Ok(m) => handled(old(self).spec_state()@, address, body).result == Ok::<
                            Received,
                            Error,
                        >(m.content@) && m.address == address && Ok::<Header, Error>(m.header@)
                            == header_of_message(address, body) && keeps(m.content, body),
                        Err(e) => handled(old(self).spec_state()@, address, body).result == Err::<
                            Received,
                            Error,
                        >(e),
                    }
                },
    {
        let outcome = self.transport.recv_message(address);
        let ghost answer = viewed(outcome);
        let r = self.state.receive(address, outcome);
        proof {
            if answer is Ok {
                let h = handled(old(self).spec_state()@, address, answer->Ok_0);
                assert(self.spec_state()@ == h.state);
            }
        }
        r
    }

    /// Announces a stream with this index: the user becomes its author.
    /// Where anything fails, the state stays as it is.
    pub fn create_stream(&mut self, stream_idx: usize) -> (r: Result<
        SendResponse<T::SendResponse>,
        Error,
    >)
        requires
            old(self).wf(),
        ensures
            final(self).wf(),
            match r {
                Ok(response) => {
                    let p = prepared_announcement(old(self).spec_state()@, stream_idx as u64);
                    p is Ok && final(self).spec_state()@ == committed_announcement(
                        old(self).spec_state()@,
                        response.spec_address(),
                        p->Ok_0,
                    ) && response.spec_address().base@ == p->Ok_0.base
                        && response.spec_address().relative@ == p->Ok_0.relative
                },
                Err(e) => {
                    let p = prepared_announcement(old(self).spec_state()@, stream_idx as u64);
                    final(self).spec_state()@ == old(self).spec_state()@ && (p is Err ==> e
                        == p->Err_0)
                },
            },
    {
        let prepared = self.state.prepare_announcement(stream_idx)?;
        let Prepared { address, message, spongos, cursor } = prepared;
        let response = self.deliver(address, message)?;
        let kept = Prepared { address, message: TransportMessage::new(Vec::new()), spongos, cursor };
        self.state.commit_announcement(&kept);
        Ok(SendResponse::new(address, response))
    }

    /// Asks to join the stream with a subscription linked to `link_to`. Once
    /// the transport has accepted it, the user stands at the sequence number
    /// of subscriptions; no sponge is kept. Where anything fails, the state
    /// stays as it is.
    pub fn subscribe(&mut self, link_to: MsgId) -> (r: Result<SendResponse<T::SendResponse>, Error>)
        requires
            old(self).wf(),
        ensures
            final(self).wf(),
            match r {
                Ok(response) => {
                    let p = subscribing(old(self).spec_state()@, link_to@);
                    p is Ok && final(self).spec_state()@ == committed_subscription(
                        old(self).spec_state()@,
                    ) && response.spec_address().relative@ == subscribed_id(p->Ok_0)
                },
                Err(e) => {
                    let p = subscribing(old(self).spec_state()@, link_to@);
                    final(self).spec_state()@ == old(self).spec_state()@ && (p is Err ==> e
                        == p->Err_0)
                },
            },
    {
        self.state.subscribing(&link_to)?;
        let unsubscribe_key = match random_key() {
            Some(k) => k,
            None => {
                return Err(Error::NoEntropy);
            },
        };
        let ephemeral = match random_key() {
            Some(k) => k,
            None => {
                return Err(Error::NoEntropy);
            },
        };
        let prepared = self.state.prepare_subscription(link_to, unsubscribe_key, ephemeral)?;
        let Prepared { address, message, spongos, cursor } = prepared;
        let response = self.deliver(address, message)?;
        self.state.commit_subscription();
        Ok(SendResponse::new(address, response))
    }

    /// Leaves the stream with an unsubscription linked to `link_to`. Where
    /// anything fails, the state stays as it is.
    pub fn unsubscribe(&mut self, link_to: MsgId) -> (r: Result<
        SendResponse<T::SendResponse>,
        Error,
    >)
        requires
            old(self).wf(),
        ensures
            final(self).wf(),
            match r {
                Ok(response) => {
                    let p = prepared_unsubscription(old(self).spec_state()@, link_to@);
                    p is Ok && final(self).spec_state()@ == committed(
                        old(self).spec_state()@,
                        p->Ok_0,
                    ) && response.spec_address().base@ == p->Ok_0.base
                        && response.spec_address().relative@ == p->Ok_0.relative
                },
                Err(e) => {
                    let p = prepared_unsubscription(old(self).spec_state()@, link_to@);
                    final(self).spec_state()@ == old(self).spec_state()@ && (p is Err ==> e
                        == p->Err_0)
                },
            },
    {
        let prepared = self.state.prepare_unsubscription(link_to)?;
        let Prepared { address, message, spongos, cursor } = prepared;
        let response = self.deliver(address, message)?;
        let kept = Prepared { address, message: TransportMessage::new(Vec::new()), spongos, cursor };
        self.state.commit(&kept);
        Ok(SendResponse::new(address, response))
    }

    /// Hands a fresh key to `subscribers` and to the holders of the
    /// pre-shared keys `psk_ids`, in a keyload linked to `link_to`. Where the
    /// user cannot publish, a subscriber's exchange key or a pre-shared key
    /// is not known, or the keyload is too long, it fails with that error
    /// before any key is drawn. Where anything fails, the state stays as it
    /// is. On success the keyload is the one prepared for some fresh key,
    /// nonce and one-time keys, and the state is the one committed for it.
    #[verifier::rlimit(40)]
    pub fn send_keyload(
        &mut self,
        link_to: MsgId,
        subscribers: &[Permissioned<Identifier>],
        psk_ids: &[PskId],
    ) -> (r: Result<SendResponse<T::SendResponse>, Error>)
        requires
            old(self).wf(),
        ensures
            final(self).wf(),
            match r {
                Ok(response) => keyload_sent(
                    old(self).spec_state()@,
                    link_to@,
                    permission_views(subscribers@),
                    pskid_views(psk_ids@),
                    final(self).spec_state()@,
                    response.spec_address(),
                ),
                Err(e) => {
                    let refusal = keyload_refusal(
                        old(self).spec_state()@,
                        link_to@,
                        permission_views(subscribers@),
                        pskid_views(psk_ids@),
                    );
                    final(self).spec_state()@ == old(self).spec_state()@ && (refusal is Some ==> e
                        == refusal->0)
                },
            },
    {
        self.state.check_keyload(&link_to, subscribers, psk_ids)?;
        let key = match random_key() {
            Some(k) => k,
            None => {
                return Err(Error::NoEntropy);
            },
        };
        let nonce = match random_key() {
            Some(n) => crate::ddml::types::array_from::<16>(
                vstd::slice::slice_subrange(n.as_slice(), 0, 16),
            ),
            None => {
                return Err(Error::NoEntropy);
            },
        };
        let mut invited: Vec<Invitation> = Vec::new();
        let mut i: usize = 0;
        while i < subscribers.len()
            invariant
                i <= subscribers.len(),
                invited@.len() == i,
                self.wf(),
                self.spec_state() == old(self).spec_state(),
                keyload_refusal(
                    old(self).spec_state()@,
                    link_to@,
                    permission_views(subscribers@),
                    pskid_views(psk_ids@),
                ) is None,
                forall|j: int| 0 <= j < i ==> (#[trigger] invited@[j]).permission == subscribers@[j],
            decreases subscribers.len() - i,
        {
            let ephemeral = match random_key() {
                Some(k) => k,
                None => {
                    return Err(Error::NoEntropy);
                },
            };
            invited.push(Invitation { permission: subscribers[i], ephemeral });
            i = i + 1;
        }
        assert(crate::api::send::invited_permissions(invited@) =~= permission_views(subscribers@));
        let prepared = self.state.prepare_keyload(link_to, invited.as_slice(), psk_ids, key, nonce)?;
        let Prepared { address, message, spongos, cursor } = prepared;
        let response = self.deliver(address, message)?;
        let kept = Prepared { address, message: TransportMessage::new(Vec::new()), spongos, cursor };
        self.state.commit_keyload(&kept, invited.as_slice());
        let response = SendResponse::new(address, response);
        proof {
            assert(sent_keyload(
                old(self).spec_state()@,
                link_to@,
                permission_views(subscribers@),
                pskid_views(psk_ids@),
                invited@,
                key@,
                nonce@,
                self.spec_state()@,
                response.spec_address(),
            ));
        }
        Ok(response)
    }

    /// Hands a fresh key to every subscriber, to read, and to the holders of
    /// every pre-shared key, in a keyload linked to `link_to`.
    pub fn send_keyload_for_all(&mut self, link_to: MsgId) -> (r: Result<
        SendResponse<T::SendResponse>,
        Error,
    >)
        requires
            old(self).wf(),
        ensures
            final(self).wf(),
            match r {
                Ok(response) => keyload_sent(
                    old(self).spec_state()@,
                    link_to@,
                    readers(sorted_keys(old(self).spec_state()@.exchange_keys.dom())),
                    sorted_keys(old(self).spec_state()@.psks.dom()),
                    final(self).spec_state()@,
                    response.spec_address(),
                ),
                Err(e) => {
                    let refusal = keyload_refusal(
                        old(self).spec_state()@,
                        link_to@,
                        readers(sorted_keys(old(self).spec_state()@.exchange_keys.dom())),
                        sorted_keys(old(self).spec_state()@.psks.dom()),
                    );
                    final(self).spec_state()@ == old(self).spec_state()@ && (refusal is Some ==> e
                        == refusal->0)
                },
            },
    {
        let psks = self.state.psk_ids();
        let ids = self.state.subscribers();
        let mut subscribers: Vec<Permissioned<Identifier>> = Vec::new();
        let mut i: usize = 0;
        while i < ids.len()
            invariant
                i <= ids.len(),
                subscribers@.len() == i,
                forall|j: int| 0 <= j < i ==> #[trigger] subscribers@[j] == Permissioned::Read(ids@[j]),
            decreases ids.len() - i,
        {
            subscribers.push(Permissioned::Read(ids[i]));
            i = i + 1;
        }
        assert(permission_views(subscribers@) =~= readers(identifier_views(ids@)));
        self.send_keyload(link_to, subscribers.as_slice(), psks.as_slice())
    }

    /// Hands a fresh key to every subscriber, to read and write without end,
    /// and to the holders of every pre-shared key, in a keyload linked to
    /// `link_to`.
    pub fn send_keyload_for_all_rw(&mut self, link_to: MsgId) -> (r: Result<
        SendResponse<T::SendResponse>,
        Error,
    >)
        requires
            old(self).wf(),
        ensures
            final(self).wf(),
            match r {
                Ok(response) => keyload_sent(
                    old(self).spec_state()@,
                    link_to@,
                    writers(sorted_keys(old(self).spec_state()@.exchange_keys.dom())),
                    sorted_keys(old(self).spec_state()@.psks.dom()),
                    final(self).spec_state()@,
                    response.spec_address(),
                ),
                Err(e) => {
                    let refusal = keyload_refusal(
                        old(self).spec_state()@,
                        link_to@,
                        writers(sorted_keys(old(self).spec_state()@.exchange_keys.dom())),
                        sorted_keys(old(self).spec_state()@.psks.dom()),
                    );
                    final(self).spec_state()@ == old(self).spec_state()@ && (refusal is Some ==> e
                        == refusal->0)
                },
            },
    {
        let psks = self.state.psk_ids();
        let ids = self.state.subscribers();
        let mut subscribers: Vec<Permissioned<Identifier>> = Vec::new();
        let mut i: usize = 0;
        while i < ids.len()
            invariant
                i <= ids.len(),
                subscribers@.len() == i,
                forall|j: int|
                    0 <= j < i ==> #[trigger] subscribers@[j] == Permissioned::ReadWrite(
                        ids@[j],
                        PermissionDuration::Perpetual,
                    ),
            decreases ids.len() - i,
        {
            subscribers.push(Permissioned::ReadWrite(ids[i], PermissionDuration::Perpetual));
            i = i + 1;
        }
        assert(permission_views(subscribers@) =~= writers(identifier_views(ids@)));
        self.send_keyload(link_to, subscribers.as_slice(), psks.as_slice())
    }

    /// Publishes a signed packet linked to `link_to`. Where anything fails,
    /// the state stays as it is.
    pub fn send_signed_packet(
        &mut self,
        link_to: MsgId,
        public_payload: &[u8],
        masked_payload: &[u8],
    ) -> (r: Result<SendResponse<T::SendResponse>, Error>)
        requires
            old(self).wf(),
        ensures
            final(self).wf(),
            match r {
                Ok(response) => {
                    let p = prepared_signed_packet(
                        old(self).spec_state()@,
                        link_to@,
                        Payload { public: public_payload@, masked: masked_payload@ },
                    );
                    p is Ok && final(self).spec_state()@ == committed(
                        old(self).spec_state()@,
                        p->Ok_0,
                    ) && response.spec_address().base@ == p->Ok_0.base
                        && response.spec_address().relative@ == p->Ok_0.relative
                },
                Err(e) => {
                    let p = prepared_signed_packet(
                        old(self).spec_state()@,
                        link_to@,
                        Payload { public: public_payload@, masked: masked_payload@ },
                    );
                    final(self).spec_state()@ == old(self).spec_state()@ && (p is Err ==> e
                        == p->Err_0)
                },
            },
    {
        let prepared = self.state.prepare_signed_packet(link_to, public_payload, masked_payload)?;
        let Prepared { address, message, spongos, cursor } = prepared;
        let response = self.deliver(address, message)?;
        let kept = Prepared { address, message: TransportMessage::new(Vec::new()), spongos, cursor };
        self.state.commit(&kept);
        Ok(SendResponse::new(address, response))
    }

    /// Publishes a tagged packet linked to `link_to`. Where anything fails,
    /// the state stays as it is.
    pub fn send_tagged_packet(
        &mut self,
        link_to: MsgId,
        public_payload: &[u8],
        masked_payload: &[u8],
    ) -> (r: Result<SendResponse<T::SendResponse>, Error>)
        requires
            old(self).wf(),
        ensures
            final(self).wf(),
            match r {
                Ok(response) => {
                    let p = prepared_tagged_packet(
                        old(self).spec_state()@,
                        link_to@,
                        Payload { public: public_payload@, masked: masked_payload@ },
                    );
                    p is Ok && final(self).spec_state()@ == committed(
                        old(self).spec_state()@,
                        p->Ok_0,
                    ) && response.spec_address().base@ == p->Ok_0.base
                        && response.spec_address().relative@ == p->Ok_0.relative
                },
                Err(e) => {
                    let p = prepared_tagged_packet(
                        old(self).spec_state()@,
                        link_to@,
                        Payload { public: public_payload@, masked: masked_payload@ },
                    );
                    final(self).spec_state()@ == old(self).spec_state()@ && (p is Err ==> e
                        == p->Err_0)
                },
            },
    {
        let prepared = self.state.prepare_tagged_packet(link_to, public_payload, masked_payload)?;
        let Prepared { address, message, spongos, cursor } = prepared;
        let response = self.deliver(address, message)?;
        let kept = Prepared { address, message: TransportMessage::new(Vec::new()), spongos, cursor };
        self.state.commit(&kept);
        Ok(SendResponse::new(address, response))
    }
}

} // verus!
