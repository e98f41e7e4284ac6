//! What receiving a message does to the state of a user.

use vstd::prelude::*;
use crate::address::Address;
use crate::api::message::Message;
use crate::api::message::MessageContent;
use crate::api::message::Received;
use crate::api::state::INIT_MESSAGE_NUM;
use crate::api::state::State;
use crate::api::state::StateView;
use crate::ddml::unwrap::viewed;
use crate::error::Error;
use crate::id::identifier::Identifier;
use crate::id::identity::Keys;
use crate::id::permission::Permissioned;
use crate::kinds::announcement;
use crate::kinds::announcement::take_announcement;
use crate::kinds::keyload;
use crate::kinds::keyload::permission_views;
use crate::kinds::keyload::reader_of;
use crate::kinds::keyload::take_keyload;
use crate::kinds::message_types;
use crate::kinds::signed_packet;
use crate::kinds::signed_packet::take_signed_packet;
use crate::kinds::subscription;
use crate::kinds::subscription::take_subscription;
use crate::kinds::tagged_packet;
use crate::kinds::tagged_packet::take_tagged_packet;
use crate::kinds::unsubscription;
use crate::kinds::unsubscription::take_unsubscription;
use crate::message::hdf::HDF;
use crate::message::hdf::Header;
use crate::message::hdf::take_header;
use crate::message::pcf::take_frame;
use crate::message::preparsed::PreparsedMessage;
use crate::message::transport::TransportMessage;
use crate::spongos::Sponge;
use crate::spongos::Spongos;

verus! {

/// What handling a message comes to: the state afterwards, and what the
/// message said or why it was refused.
pub struct Handled {
    pub state: StateView,
    pub result: Result<Received, Error>,
}

/// What a header says of the message that it is linked to.
pub enum Link {
    /// The header names no linked message.
    Missing,
    /// The header names a message whose sponge the user does not hold.
    Unknown,
    /// The sponge that the linked message left.
    Found(Sponge),
}

/// What the header `h` says of its linked message to a user in state `s`.
pub open spec fn link_of(s: StateView, h: Header) -> Link {
    match h.linked {
        None => Link::Missing,
        Some(l) => if s.spongos.contains_key(l) {
            Link::Found(s.spongos[l])
        } else {
            Link::Unknown
        },
    }
}

/// Handling an announcement. A user who is bound to a stream refuses it and
/// stays as they are. Otherwise the publisher is seen at the first sequence
/// number; where the announcement reads and its signature verifies, the user
/// is bound to the stream, keeps the sponge and the author's exchange key.
pub open spec fn handled_announcement(
    s: StateView,
    address: Address,
    h: Header,
    sponge: Sponge,
    rest: Seq<u8>,
) -> Handled {
    if s.stream_address is Some {
        Handled { state: s, result: Err(Error::AlreadySubscribed) }
    } else {
        let s1 = s.with_seen(h.publisher, INIT_MESSAGE_NUM);
        match take_frame(sponge, rest) {
            Ok(f) => match take_announcement(f.sponge, f.rest) {
                Ok(t) => Handled {
                    state: StateView {
                        stream_address: Some(address),
                        author_identifier: Some(t.value.author_id),
                        ..s1.with_spongos(address.relative@, t.sponge.commit()).with_exchange_key(
                            t.value.author_id,
                            t.value.author_ke_pk,
                        )
                    },
                    result: Ok(Received::Announcement(t.value)),
                },
                Err(e) => Handled { state: s1, result: Err(e) },
            },
            Err(e) => Handled { state: s1, result: Err(e) },
        }
    }
}

/// Handling a subscription. No cursor moves and no sponge is kept. Where the
/// linked sponge is held, the user has a key pair, and the subscription
/// reads and verifies, the subscriber's exchange key is kept.
pub open spec fn handled_subscription(
    s: StateView,
    address: Address,
    h: Header,
    sponge: Sponge,
    rest: Seq<u8>,
) -> Handled {
    match link_of(s, h) {
        Link::Missing => Handled { state: s, result: Err(Error::MissingLink) },
        Link::Unknown => Handled { state: s, result: Ok(Received::Orphan) },
        Link::Found(initial) => match s.user_id {
            None => Handled { state: s, result: Err(Error::NoIdentity) },
            Some(user) => match user.keys {
                Keys::Psk(_) => Handled { state: s, result: Err(Error::NoSignatureKeyPair) },
                Keys::Keypair(kp) => match take_frame(sponge, rest) {
                    Ok(f) => match take_subscription(
                        f.sponge,
                        initial,
                        kp.key_exchange.0@,
                        f.rest,
                    ) {
                        Ok(t) => Handled {
                            state: s.with_exchange_key(
                                t.value.subscriber_id,
                                t.value.subscriber_ke_pk,
                            ),
                            result: Ok(Received::Subscription(t.value)),
                        },
                        Err(e) => Handled { state: s, result: Err(e) },
                    },
                    Err(e) => Handled { state: s, result: Err(e) },
                },
            },
        },
    }
}

/// Handling an unsubscription. The publisher is seen whatever follows. Where
/// the linked sponge is held and the unsubscription reads and verifies, the
/// sponge is kept and the subscriber is forgotten.
pub open spec fn handled_unsubscription(
    s: StateView,
    address: Address,
    h: Header,
    sponge: Sponge,
    rest: Seq<u8>,
) -> Handled {
    let s1 = s.with_seen(h.publisher, h.sequence);
    match link_of(s, h) {
        Link::Missing => Handled { state: s1, result: Err(Error::MissingLink) },
        Link::Unknown => Handled { state: s1, result: Ok(Received::Orphan) },
        Link::Found(initial) => match take_frame(sponge, rest) {
            Ok(f) => match take_unsubscription(f.sponge, initial, f.rest) {
                Ok(t) => Handled {
                    state: s1.with_spongos(address.relative@, t.sponge.commit()).without_subscriber(
                        t.value,
                    ),
                    result: Ok(Received::Unsubscription(t.value)),
                },
                Err(e) => Handled { state: s1, result: Err(e) },
            },
            Err(e) => Handled { state: s1, result: Err(e) },
        },
    }
}

/// Handling a keyload. The publisher is seen whatever follows. A user who is
/// bound to no stream refuses it. Where the linked sponge is held and the
/// keyload reads, against the sponge of the announcement, the sponge is kept
/// and every subscriber that may write and stands below the first sequence
/// number, or nowhere yet, starts there.
pub open spec fn handled_keyload(
    s: StateView,
    address: Address,
    h: Header,
    sponge: Sponge,
    rest: Seq<u8>,
) -> Handled {
    let s1 = s.with_seen(h.publisher, h.sequence);
    if s.author_identifier is None || s.stream_address is None {
        Handled { state: s1, result: Err(Error::NoStream) }
    } else {
        match link_of(s, h) {
            Link::Missing => Handled { state: s1, result: Err(Error::MissingLink) },
            Link::Unknown => Handled { state: s1, result: Ok(Received::Orphan) },
            Link::Found(_) => match take_frame(sponge, rest) {
                Ok(f) => match take_keyload(
                    f.sponge,
                    s.spongos[s.stream_address->0.relative@],
                    reader_of(s.user_id),
                    s.psks,
                    s.author_identifier->0,
                    f.rest,
                ) {
                    Ok(t) => Handled {
                        state: s1.with_spongos(address.relative@, t.sponge.commit()).with_permitted(
                            t.value.subscribers,
                        ),
                        result: Ok(Received::Keyload(t.value)),
                    },
                    Err(e) => Handled { state: s1, result: Err(e) },
                },
                Err(e) => Handled { state: s1, result: Err(e) },
            },
        }
    }
}

/// Handling a signed packet. The publisher is seen whatever follows. Where
/// the linked sponge is held and the packet reads and the publisher's
/// signature verifies, the sponge is kept.
pub open spec fn handled_signed_packet(
    s: StateView,
    address: Address,
    h: Header,
    sponge: Sponge,
    rest: Seq<u8>,
) -> Handled {
    let s1 = s.with_seen(h.publisher, h.sequence);
    match link_of(s, h) {
        Link::Missing => Handled { state: s1, result: Err(Error::MissingLink) },
        Link::Unknown => Handled { state: s1, result: Ok(Received::Orphan) },
        Link::Found(initial) => match take_frame(sponge, rest) {
            Ok(f) => match take_signed_packet(f.sponge, initial, h.publisher, f.rest) {
                Ok(t) => Handled {
                    state: s1.with_spongos(address.relative@, t.sponge.commit()),
                    result: Ok(Received::SignedPacket(t.value)),
                },
                Err(e) => Handled { state: s1, result: Err(e) },
            },
            Err(e) => Handled { state: s1, result: Err(e) },
        },
    }
}

/// Handling a tagged packet. The publisher is seen whatever follows. Where
/// the linked sponge is held and the packet reads and its code matches, the
/// sponge is kept.
pub open spec fn handled_tagged_packet(
    s: StateView,
    address: Address,
    h: Header,
    sponge: Sponge,
    rest: Seq<u8>,
) -> Handled {
    let s1 = s.with_seen(h.publisher, h.sequence);
    match link_of(s, h) {
        Link::Missing => Handled { state: s1, result: Err(Error::MissingLink) },
        Link::Unknown => Handled { state: s1, result: Ok(Received::Orphan) },
        Link::Found(initial) => match take_frame(sponge, rest) {
            Ok(f) => match take_tagged_packet(f.sponge, initial, f.rest) {
                Ok(t) => Handled {
                    state: s1.with_spongos(address.relative@, t.sponge.commit()),
                    result: Ok(Received::TaggedPacket(t.value)),
                },
                Err(e) => Handled { state: s1, result: Err(e) },
            },
            Err(e) => Handled { state: s1, result: Err(e) },
        },
    }
}

/// Handling a message whose header has been read, by its type. An unknown
/// type is refused and the user stays as they are.
pub open spec fn handled_by_type(
    s: StateView,
    address: Address,
    h: Header,
    sponge: Sponge,
    rest: Seq<u8>,
) -> Handled {
    if h.message_type == message_types::ANNOUNCEMENT {
        handled_announcement(s, address, h, sponge, rest)
    } else if h.message_type == message_types::SUBSCRIPTION {
        handled_subscription(s, address, h, sponge, rest)
    } else if h.message_type == message_types::UNSUBSCRIPTION {
        handled_unsubscription(s, address, h, sponge, rest)
    } else if h.message_type == message_types::KEYLOAD {
        handled_keyload(s, address, h, sponge, rest)
    } else if h.message_type == message_types::SIGNED_PACKET {
        handled_signed_packet(s, address, h, sponge, rest)
    } else if h.message_type == message_types::TAGGED_PACKET {
        handled_tagged_packet(s, address, h, sponge, rest)
    } else {
        Handled { state: s, result: Err(Error::UnknownMessageType) }
    }
}

/// Handling the bytes of a message found at `address`. Where the header
/// does not read, the user stays as they are.
pub open spec fn handled(s: StateView, address: Address, body: Seq<u8>) -> Handled {
    match take_header(Sponge::init(), address.base@, body) {
        Ok(t) => handled_by_type(s, address, t.value, t.sponge, t.rest),
        Err(e) => Handled { state: s, result: Err(e) },
    }
}

/// What comes of the transport's answer for `address`: where it handed over
/// a message, what handling that message comes to; where it failed, its
/// error, and the user stays as they are.
pub open spec fn received(s: StateView, address: Address, outcome: Result<Seq<u8>, Error>) -> Handled {
    match outcome {
        Ok(body) => handled(s, address, body),
        Err(e) => Handled { state: s, result: Err(e) },
    }
}

/// The header of the message found at `address`, if it reads.
pub open spec fn header_of_message(address: Address, body: Seq<u8>) -> Result<Header, Error> {
    match take_header(Sponge::init(), address.base@, body) {
        Ok(t) => Ok(t.value),
        Err(e) => Err(e),
    }
}

/// The state is what handling came to, and `r` is what it handed back.
pub open spec fn agrees(
    after: StateView,
    r: Result<Message, Error>,
    address: Address,
    header: HDF,
    h: Handled,
    raw: Seq<u8>,
) -> bool {
    &&& after == h.state
    &&& match r {
        Ok(m) => h.result == Ok::<Received, Error>(m.content@) && m.address == address && m.header
            == header && keeps(m.content, raw),
        Err(e) => h.result == Err::<Received, Error>(e),
    }
}

/// An orphan keeps the bytes of the whole message.
pub open spec fn keeps(content: MessageContent, raw: Seq<u8>) -> bool {
    match content {
        MessageContent::Orphan { message } => message@ == raw,
        _ => true,
    }
}

impl State {
    /// Sees a message of `publisher` with this sequence number: their cursor
    /// becomes the greater of the two.
    pub fn see(&mut self, publisher: &Identifier, sequence: u64)
        requires
            old(self).wf(),
        ensures
            final(self).wf(),
            final(self)@ == old(self)@.with_seen(publisher@, sequence),
    {
        let cursor = match self.cursor_store.get_cursor(publisher) {
            Some(c) => if c > sequence {
                c
            } else {
                sequence
            },
            None => sequence,
        };
        self.cursor_store.insert_cursor(*publisher, cursor);
    }

    /// The sponge of the message that `header` is linked to: an error where
    /// the header names none, `None` where the user does not hold it.
    pub fn linked_spongos(&self, header: &HDF) -> (r: Result<Option<Spongos>, Error>)
        requires
            self.wf(),
        ensures
            match link_of(self@, header@) {
                Link::Missing => r == Err::<Option<Spongos>, Error>(Error::MissingLink),
                Link::Unknown => r == Ok::<Option<Spongos>, Error>(None),
                Link::Found(s) => r is Ok && r->Ok_0 is Some && r->Ok_0->0@ == s && r->Ok_0->0.wf(),
            },
    {
        match header.linked_msg_address() {
            Some(l) => Ok(self.spongos_store.get(&l)),
            None => Err(Error::MissingLink),
        }
    }

    /// Sets the cursor of every subscriber that may write and stands below
    /// the first sequence number, or nowhere yet, to the first sequence
    /// number.
    pub fn permit(&mut self, subscribers: &Vec<Permissioned<Identifier>>)
        requires
            old(self).wf(),
        ensures
            final(self).wf(),
            final(self)@ == old(self)@.with_permitted(permission_views(subscribers@)),
    {
        let ghost all = permission_views(subscribers@);
        let mut i: usize = 0;
        assert(all.take(0) =~= Seq::<crate::id::permission::Permission>::empty());
        while i < subscribers.len()
            invariant
                i <= subscribers.len(),
                all == permission_views(subscribers@),
                self.wf(),
                self@ == old(self)@.with_permitted(all.take(i as int)),
            decreases subscribers.len() - i,
        {
            proof {
                assert(all.take(i + 1).drop_last() =~= all.take(i as int));
                assert(all.take(i + 1).last() == subscribers[i as int]@);
            }
            if self.should_store_cursor(&subscribers[i]) {
                let id = *subscribers[i].identifier();
                self.cursor_store.insert_cursor(id, INIT_MESSAGE_NUM);
            }
            i = i + 1;
        }
        assert(all.take(i as int) =~= all);
    }

    /// Handles an announcement whose header has been read.
    #[verifier::rlimit(40)]
    pub fn handle_announcement(&mut self, address: Address, preparsed: PreparsedMessage) -> (r:
        Result<Message, Error>)
        requires
            old(self).wf(),
            preparsed.wf(),
        ensures
            final(self).wf(),
            agrees(
                final(self)@,
                r,
                address,
                preparsed.spec_header(),
                handled_announcement(
                    old(self)@,
                    address,
                    preparsed.spec_header()@,
                    preparsed.spec_sponge(),
                    preparsed.spec_rest(),
                ),
                Seq::empty(),
            ),
    {
        if self.stream_address.is_some() {
            return Err(Error::AlreadySubscribed);
        }
        let publisher = preparsed.header().publisher();
        self.see(&publisher, INIT_MESSAGE_NUM);
        let (header, _pcf, mut ctx) = preparsed.into_parts()?;
        let mut content = announcement::Unwrap::new();
        content.unwrap(&mut ctx)?;
        let spongos = ctx.finalize();
        self.spongos_store.insert(address.relative(), spongos);
        let author_id = content.author_id();
        let author_ke_pk = content.author_ke_pk();
        self.exchange_keys.insert(author_id.to_bytes(), author_ke_pk);
        self.stream_address = Some(address);
        self.author_identifier = Some(author_id);
        Ok(
            Message::new(
                address,
                header,
                MessageContent::Announcement { author_identifier: author_id, author_ke_pk },
            ),
        )
    }

    /// Handles a subscription whose header has been read; `raw` is the whole
    /// message, kept where the message is an orphan.
    #[verifier::rlimit(40)]
    pub fn handle_subscription(
        &mut self,
        address: Address,
        preparsed: PreparsedMessage,
        raw: TransportMessage,
    ) -> (r: Result<Message, Error>)
        requires
            old(self).wf(),
            preparsed.wf(),
        ensures
            final(self).wf(),
            agrees(
                final(self)@,
                r,
                address,
                preparsed.spec_header(),
                handled_subscription(
                    old(self)@,
                    address,
                    preparsed.spec_header()@,
                    preparsed.spec_sponge(),
                    preparsed.spec_rest(),
                ),
                raw@,
            ),
    {
        let linked = match self.linked_spongos(preparsed.header())? {
            Some(s) => s,
            None => {
                return Ok(Message::orphan(address, *preparsed.header(), raw));
            },
        };
        let ke_sk = match &self.user_id {
            Some(user) => match &user.keys {
                Keys::Keypair(kp) => kp.key_exchange.0,
                Keys::Psk(_) => {
                    return Err(Error::NoSignatureKeyPair);
                },
            },
            None => {
                return Err(Error::NoIdentity);
            },
        };
        let (header, _pcf, mut ctx) = preparsed.into_parts()?;
        let mut content = subscription::Unwrap::new(&linked, &ke_sk);
        content.unwrap(&mut ctx)?;
        let subscriber_identifier = content.subscriber_identifier();
        let subscriber_ke_pk = content.subscriber_ke_pk();
        self.exchange_keys.insert(subscriber_identifier.to_bytes(), subscriber_ke_pk);
        Ok(
            Message::new(
                address,
                header,
                MessageContent::Subscription {
                    unsubscribe_key: content.unsubscribe_key(),
                    subscriber_identifier,
                    subscriber_ke_pk,
                },
            ),
        )
    }

    /// Handles an unsubscription whose header has been read.
    pub fn handle_unsubscription(
        &mut self,
        address: Address,
        preparsed: PreparsedMessage,
        raw: TransportMessage,
    ) -> (r: Result<Message, Error>)
        requires
            old(self).wf(),
            preparsed.wf(),
        ensures
            final(self).wf(),
            agrees(
                final(self)@,
                r,
                address,
                preparsed.spec_header(),
                handled_unsubscription(
                    old(self)@,
                    address,
                    preparsed.spec_header()@,
                    preparsed.spec_sponge(),
                    preparsed.spec_rest(),
                ),
                raw@,
            ),
    {
        let linked = self.linked_spongos(preparsed.header());
        let publisher = preparsed.header().publisher();
        self.see(&publisher, preparsed.header().sequence());
        let linked = match linked? {
            Some(s) => s,
            None => {
                return Ok(Message::orphan(address, *preparsed.header(), raw));
            },
        };
        let (header, _pcf, mut ctx) = preparsed.into_parts()?;
        let mut content = unsubscription::Unwrap::new(&linked);
        content.unwrap(&mut ctx)?;
        let spongos = ctx.finalize();
        self.spongos_store.insert(address.relative(), spongos);
        let subscriber_identifier = content.subscriber_identifier();
        self.remove_subscriber(subscriber_identifier);
        Ok(Message::new(address, header, MessageContent::Unsubscription { subscriber_identifier }))
    }

    /// Handles a keyload whose header has been read.
    #[verifier::rlimit(40)]
    pub fn handle_keyload(
        &mut self,
        address: Address,
        preparsed: PreparsedMessage,
        raw: TransportMessage,
    ) -> (r: Result<Message, Error>)
        requires
            old(self).wf(),
            preparsed.wf(),
        ensures
            final(self).wf(),
            agrees(
                final(self)@,
                r,
                address,
                preparsed.spec_header(),
                handled_keyload(
                    old(self)@,
                    address,
                    preparsed.spec_header()@,
                    preparsed.spec_sponge(),
                    preparsed.spec_rest(),
                ),
                raw@,
            ),
    {
        let linked = self.linked_spongos(preparsed.header());
        let announced = match self.stream_address {
            Some(a) => self.spongos_store.get(&a.relative()),
            None => None,
        };
        let publisher = preparsed.header().publisher();
        self.see(&publisher, preparsed.header().sequence());
        let author = match self.author_identifier {
            Some(a) => a,
            None => {
                return Err(Error::NoStream);
            },
        };
        let announced = match announced {
            Some(s) => s,
            None => {
                return Err(Error::NoStream);
            },
        };
        match linked? {
            Some(_) => {},
            None => {
                return Ok(Message::orphan(address, *preparsed.header(), raw));
            },
        }
        let (header, _pcf, mut ctx) = preparsed.into_parts()?;
        let mut content = keyload::Unwrap::new(&announced, self.user_id.as_ref(), author, &self.psk_store);
        content.unwrap(&mut ctx)?;
        let spongos = ctx.finalize();
        let nonce = content.nonce();
        let key = content.key();
        proof {
            content.lemma_said();
        }
        let (subscribers, psks) = content.into_recipients();
        self.spongos_store.insert(address.relative(), spongos);
        self.permit(&subscribers);
        Ok(Message::new(address, header, MessageContent::Keyload { nonce, subscribers, psks, key }))
    }

    /// Handles a signed packet whose header has been read.
    pub fn handle_signed_packet(
        &mut self,
        address: Address,
        preparsed: PreparsedMessage,
        raw: TransportMessage,
    ) -> (r: Result<Message, Error>)
        requires
            old(self).wf(),
            preparsed.wf(),
        ensures
            final(self).wf(),
            agrees(
                final(self)@,
                r,
                address,
                preparsed.spec_header(),
                handled_signed_packet(
                    old(self)@,
                    address,
                    preparsed.spec_header()@,
                    preparsed.spec_sponge(),
                    preparsed.spec_rest(),
                ),
                raw@,
            ),
    {
        let linked = self.linked_spongos(preparsed.header());
        let publisher = preparsed.header().publisher();
        self.see(&publisher, preparsed.header().sequence());
        let linked = match linked? {
            Some(s) => s,
            None => {
                return Ok(Message::orphan(address, *preparsed.header(), raw));
            },
        };
        let (header, _pcf, mut ctx) = preparsed.into_parts()?;
        let mut content = signed_packet::Unwrap::new(&linked, publisher);
        content.unwrap(&mut ctx)?;
        let spongos = ctx.finalize();
        self.spongos_store.insert(address.relative(), spongos);
        let (public_payload, masked_payload) = content.into_payloads();
        Ok(
            Message::new(
                address,
                header,
                MessageContent::SignedPacket { public_payload, masked_payload },
            ),
        )
    }

    /// Handles a tagged packet whose header has been read.
    pub fn handle_tagged_packet(
        &mut self,
        address: Address,
        preparsed: PreparsedMessage,
        raw: TransportMessage,
    ) -> (r: Result<Message, Error>)
        requires
            old(self).wf(),
            preparsed.wf(),
        ensures
            final(self).wf(),
            agrees(
                final(self)@,
                r,
                address,
                preparsed.spec_header(),
                handled_tagged_packet(
                    old(self)@,
                    address,
                    preparsed.spec_header()@,
                    preparsed.spec_sponge(),
                    preparsed.spec_rest(),
                ),
                raw@,
            ),
    {
        let linked = self.linked_spongos(preparsed.header());
        let publisher = preparsed.header().publisher();
        self.see(&publisher, preparsed.header().sequence());
        let linked = match linked? {
            Some(s) => s,
            None => {
                return Ok(Message::orphan(address, *preparsed.header(), raw));
            },
        };
        let (header, _pcf, mut ctx) = preparsed.into_parts()?;
        let mut content = tagged_packet::Unwrap::new(&linked);
        content.unwrap(&mut ctx)?;
        let spongos = ctx.finalize();
        self.spongos_store.insert(address.relative(), spongos);
        let (public_payload, masked_payload) = content.into_payloads();
        Ok(
            Message::new(
                address,
                header,
                MessageContent::TaggedPacket { public_payload, masked_payload },
            ),
        )
    }

    /// Takes the transport's answer for `address`: handles the message that
    /// it handed over, or passes its error on and leaves the state as it is.
    pub fn receive(&mut self, address: Address, outcome: Result<TransportMessage, Error>) -> (r:
        Result<Message, Error>)
        requires
            old(self).wf(),
        ensures
            final(self).wf(),
            final(self)@ == received(old(self)@, address, viewed(outcome)).state,
            match r {
                Ok(m) => received(old(self)@, address, viewed(outcome)).result == Ok::<
                    Received,
                    Error,
                >(m.content@) && m.address == address && outcome is Ok && Ok::<Header, Error>(
                    m.header@,
                ) == header_of_message(address, outcome->Ok_0@) && keeps(
                    m.content,
                    outcome->Ok_0@,
                ),
                Err(e) => received(old(self)@, address, viewed(outcome)).result == Err::<
                    Received,
                    Error,
                >(e),
            },
    {
        match outcome {
            Ok(msg) => self.handle_message(address, msg),
            Err(e) => Err(e),
        }
    }

    /// Handles the message found at `address`: reads its header and does
    /// what its type asks for.
    pub fn handle_message(&mut self, address: Address, msg: TransportMessage) -> (r: Result<
        Message,
        Error,
    >)
        requires
            old(self).wf(),
        ensures
            final(self).wf(),
            final(self)@ == handled(old(self)@, address, msg@).state,
            match r {
                Ok(m) => handled(old(self)@, address, msg@).result == Ok::<Received, Error>(
                    m.content@,
                ) && m.address == address && Ok::<Header, Error>(m.header@) == header_of_message(
                    address,
                    msg@,
                ) && keeps(m.content, msg@),
                Err(e) => handled(old(self)@, address, msg@).result == Err::<Received, Error>(e),
            },
    {
        let raw = TransportMessage::new(msg.body().clone());
        let preparsed = msg.parse_header(address.base())?;
        let message_type = preparsed.header().message_type();
        if message_type == message_types::ANNOUNCEMENT {
            self.handle_announcement(address, preparsed)
        } else if message_type == message_types::SUBSCRIPTION {
            self.handle_subscription(address, preparsed, raw)
        } else if message_type == message_types::UNSUBSCRIPTION {
            self.handle_unsubscription(address, preparsed, raw)
        } else if message_type == message_types::KEYLOAD {
            self.handle_keyload(address, preparsed, raw)
        } else if message_type == message_types::SIGNED_PACKET {
            self.handle_signed_packet(address, preparsed, raw)
        } else if message_type == message_types::TAGGED_PACKET {
            self.handle_tagged_packet(address, preparsed, raw)
        } else {
            Err(Error::UnknownMessageType)
        }
    }
}

} // verus!
