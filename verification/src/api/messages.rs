//! Catching up with a stream: fetching and handling the messages that follow
//! those that the user has seen.

use vstd::prelude::*;
use crate::address::Address;
use crate::address::MsgId;
use crate::api::message::Message;
use crate::api::message::MessageContent;
use crate::api::message::Received;
use crate::api::receive::handled;
use crate::api::receive::keeps;
use crate::api::state::address_views;
use crate::api::state::next_addresses_of;
use crate::api::state::State;
use crate::api::state::StateView;
use crate::api::transport::Transport;
use crate::api::user::User;
use crate::error::Error;
use crate::message::transport::TransportMessage;

verus! {

/// A message that was fetched: where it was found and its bytes.
pub struct Fetched {
    pub address: Address,
    pub body: Seq<u8>,
}

/// The state after the fetched messages have been handled, one after the
/// other.
pub open spec fn handled_all(s: StateView, fetched: Seq<Fetched>) -> StateView
    decreases fetched.len(),
{
    if fetched.len() == 0 {
        s
    } else {
        handled(
            handled_all(s, fetched.drop_last()),
            fetched.last().address,
            fetched.last().body,
        ).state
    }
}

/// What the fetched messages said, one after the other, with where each was
/// found: those that were read, without the orphans and without those that
/// were refused.
pub open spec fn read_all(s: StateView, fetched: Seq<Fetched>) -> Seq<(Address, Received)>
    decreases fetched.len(),
{
    if fetched.len() == 0 {
        Seq::empty()
    } else {
        let before = read_all(s, fetched.drop_last());
        let last = fetched.last();
        match handled(handled_all(s, fetched.drop_last()), last.address, last.body).result {
            Ok(said) => if said is Orphan {
                before
            } else {
                before.push((last.address, said))
            },
            Err(_) => before,
        }
    }
}

/// Where each message was found and what it said.
pub open spec fn summaries(messages: Seq<Message>) -> Seq<(Address, Received)> {
    Seq::new(messages.len(), |i: int| (messages[i].address, messages[i].content@))
}

/// Handling one more message after those that were handled.
pub proof fn lemma_one_more(s: StateView, fetched: Seq<Fetched>, f: Fetched)
    ensures
        handled_all(s, fetched.push(f)) == handled(handled_all(s, fetched), f.address, f.body).state,
        read_all(s, fetched.push(f)) == match handled(
            handled_all(s, fetched),
            f.address,
            f.body,
        ).result {
            Ok(said) => if said is Orphan {
                read_all(s, fetched)
            } else {
                read_all(s, fetched).push((f.address, said))
            },
            Err(_) => read_all(s, fetched),
        },
{
    assert(fetched.push(f).drop_last() =~= fetched);
}

/// What handling the message at place `i` among the fetched came to, after
/// those before it had been handled.
pub open spec fn outcome(s: StateView, fetched: Seq<Fetched>, i: int) -> Result<Received, Error> {
    handled(handled_all(s, fetched.take(i)), fetched[i].address, fetched[i].body).result
}

/// Whether the message at place `i` among the fetched was found where
/// catching up looks: at an address at which the state that the messages
/// before it left looks for the next message of a publisher, or, handled
/// once more, among the messages before it, where it was an orphan.
pub open spec fn sought(s: StateView, fetched: Seq<Fetched>, i: int) -> bool {
    ||| next_addresses_of(handled_all(s, fetched.take(i))).contains(
        (fetched[i].address.base@, fetched[i].address.relative@),
    )
    ||| exists|j: int|
        0 <= j < i && fetched[j] == fetched[i] && #[trigger] outcome(s, fetched, j) == Ok::<
            Received,
            Error,
        >(Received::Orphan)
}

/// Whether catching up from the state `s` fetched these messages, left the
/// state `after` and failed with `failure`, if it failed: the messages were
/// handled one after the other, each was found where catching up looks,
/// and handling succeeded for each but the last, where the failure came
/// from, if there was one.
pub open spec fn caught_up(
    s: StateView,
    fetched: Seq<Fetched>,
    after: StateView,
    failure: Option<Error>,
) -> bool {
    &&& handled_all(s, fetched) == after
    &&& forall|i: int| 0 <= i < fetched.len() ==> #[trigger] sought(s, fetched, i)
    &&& forall|i: int| 0 <= i < fetched.len() - 1 ==> #[trigger] outcome(s, fetched, i) is Ok
    &&& match failure {
        Some(e) => fetched.len() > 0 && outcome(s, fetched, fetched.len() - 1) == Err::<
            Received,
            Error,
        >(e),
        None => fetched.len() > 0 ==> outcome(s, fetched, fetched.len() - 1) is Ok,
    }
}

/// Whether an orphan that waits was fetched and handled as an orphan.
pub open spec fn waited(s: StateView, fetched: Seq<Fetched>, p: Pending) -> bool {
    exists|j: int|
        0 <= j < fetched.len() && fetched[j] == (Fetched { address: p.address, body: p.raw@ })
            && #[trigger] outcome(s, fetched, j) == Ok::<Received, Error>(Received::Orphan)
}

/// One more fetched message changes nothing of what is known of those
/// before it.
pub proof fn lemma_fetched_more(s: StateView, fetched: Seq<Fetched>, f: Fetched)
    ensures
        outcome(s, fetched.push(f), fetched.len() as int) == handled(
            handled_all(s, fetched),
            f.address,
            f.body,
        ).result,
        forall|i: int|
            0 <= i < fetched.len() ==> #[trigger] outcome(s, fetched.push(f), i) == outcome(
                s,
                fetched,
                i,
            ),
        forall|i: int|
            0 <= i < fetched.len() && sought(s, fetched, i) ==> #[trigger] sought(
                s,
                fetched.push(f),
                i,
            ),
        forall|p: Pending| waited(s, fetched, p) ==> #[trigger] waited(s, fetched.push(f), p),
{
    let more = fetched.push(f);
    assert(more.take(fetched.len() as int) =~= fetched);
    assert forall|i: int| 0 <= i < fetched.len() implies #[trigger] outcome(s, more, i) == outcome(
        s,
        fetched,
        i,
    ) by {
        assert(more.take(i) =~= fetched.take(i));
    }
    assert forall|i: int| 0 <= i < fetched.len() && sought(s, fetched, i) implies #[trigger] sought(
        s,
        more,
        i,
    ) by {
        assert(more.take(i) =~= fetched.take(i));
        if !next_addresses_of(handled_all(s, fetched.take(i))).contains(
            (fetched[i].address.base@, fetched[i].address.relative@),
        ) {
            let j = choose|j: int|
                0 <= j < i && fetched[j] == fetched[i] && #[trigger] outcome(s, fetched, j) == Ok::<
                    Received,
                    Error,
                >(Received::Orphan);
            assert(outcome(s, more, j) == outcome(s, fetched, j));
        }
    }
    assert forall|p: Pending| waited(s, fetched, p) implies #[trigger] waited(s, more, p) by {
        let j = choose|j: int|
            0 <= j < fetched.len() && fetched[j] == (Fetched { address: p.address, body: p.raw@ })
                && #[trigger] outcome(s, fetched, j) == Ok::<Received, Error>(Received::Orphan);
        assert(outcome(s, more, j) == outcome(s, fetched, j));
        assert(more[j] == fetched[j]);
    }
}

/// A message found where the state looks for the next message of a
/// publisher is found where catching up looks.
pub proof fn lemma_sought_next(s: StateView, fetched: Seq<Fetched>, f: Fetched)
    requires
        next_addresses_of(handled_all(s, fetched)).contains((f.address.base@, f.address.relative@)),
    ensures
        sought(s, fetched.push(f), fetched.len() as int),
{
    assert(fetched.push(f).take(fetched.len() as int) =~= fetched);
}

/// An orphan that waits, handled once more, is found where catching up
/// looks.
pub proof fn lemma_sought_again(s: StateView, fetched: Seq<Fetched>, p: Pending)
    requires
        waited(s, fetched, p),
    ensures
        sought(
            s,
            fetched.push(Fetched { address: p.address, body: p.raw@ }),
            fetched.len() as int,
        ),
{
    let f = Fetched { address: p.address, body: p.raw@ };
    let j = choose|j: int|
        0 <= j < fetched.len() && fetched[j] == f && #[trigger] outcome(s, fetched, j) == Ok::<
            Received,
            Error,
        >(Received::Orphan);
    lemma_fetched_more(s, fetched, f);
    assert(outcome(s, fetched.push(f), j) == outcome(s, fetched, j));
    assert(fetched.push(f)[j] == fetched.push(f)[fetched.len() as int]);
}

/// What holds while catching up: the fetched messages were handled one
/// after the other and left `state`, each was found where catching up
/// looks, handling succeeded for each, and each orphan that waits was fetched
/// and handled as an orphan.
#[verifier::opaque]
pub open spec fn following(
    s: StateView,
    fetched: Seq<Fetched>,
    state: StateView,
    pending: Seq<Pending>,
) -> bool {
    &&& handled_all(s, fetched) == state
    &&& forall|i: int| 0 <= i < fetched.len() ==> #[trigger] sought(s, fetched, i)
    &&& forall|i: int| 0 <= i < fetched.len() ==> #[trigger] outcome(s, fetched, i) is Ok
    &&& forall|k: int| 0 <= k < pending.len() ==> waited(s, fetched, #[trigger] pending[k])
}

/// Catching up starts with nothing fetched and nothing waiting.
pub proof fn lemma_following_start(s: StateView)
    ensures
        following(s, Seq::empty(), s, Seq::empty()),
{
    reveal(following);
}

/// Catching up that stops without failure has caught up.
pub proof fn lemma_following_done(
    s: StateView,
    fetched: Seq<Fetched>,
    state: StateView,
    pending: Seq<Pending>,
)
    requires
        following(s, fetched, state, pending),
    ensures
        caught_up(s, fetched, state, None),
{
    reveal(following);
}

/// Catching up that fails at one more message has caught up as far as that
/// message and failed with its error.
pub proof fn lemma_following_failed(
    s: StateView,
    fetched: Seq<Fetched>,
    state: StateView,
    pending: Seq<Pending>,
    f: Fetched,
    e: Error,
)
    requires
        following(s, fetched, state, pending),
        sought(s, fetched.push(f), fetched.len() as int),
        handled(state, f.address, f.body).result == Err::<Received, Error>(e),
    ensures
        caught_up(s, fetched.push(f), handled(state, f.address, f.body).state, Some(e)),
{
    reveal(following);
    lemma_one_more(s, fetched, f);
    lemma_fetched_more(s, fetched, f);
    let more = fetched.push(f);
    assert forall|i: int| 0 <= i < more.len() implies #[trigger] sought(s, more, i) by {
        if i < fetched.len() {
            assert(sought(s, fetched, i));
        }
    }
    assert forall|i: int| 0 <= i < more.len() - 1 implies #[trigger] outcome(s, more, i) is Ok by {
        assert(outcome(s, fetched, i) is Ok);
    }
}

/// Catching up goes on after one more message that was handled.
pub proof fn lemma_following_read(
    s: StateView,
    fetched: Seq<Fetched>,
    state: StateView,
    pending: Seq<Pending>,
    f: Fetched,
)
    requires
        following(s, fetched, state, pending),
        sought(s, fetched.push(f), fetched.len() as int),
        handled(state, f.address, f.body).result is Ok,
    ensures
        following(s, fetched.push(f), handled(state, f.address, f.body).state, pending),
        outcome(s, fetched.push(f), fetched.len() as int) == handled(
            state,
            f.address,
            f.body,
        ).result,
{
    reveal(following);
    lemma_one_more(s, fetched, f);
    lemma_fetched_more(s, fetched, f);
    let more = fetched.push(f);
    assert forall|i: int| 0 <= i < more.len() implies #[trigger] sought(s, more, i) by {
        if i < fetched.len() {
            assert(sought(s, fetched, i));
        }
    }
    assert forall|i: int| 0 <= i < more.len() implies #[trigger] outcome(s, more, i) is Ok by {
        if i < fetched.len() {
            assert(outcome(s, fetched, i) is Ok);
        }
    }
    assert forall|k: int| 0 <= k < pending.len() implies waited(s, more, #[trigger] pending[k]) by {
        assert(waited(s, fetched, pending[k]));
    }
}

/// An orphan that stops waiting was fetched and handled as an orphan, and
/// the others wait on.
pub proof fn lemma_following_removed(
    s: StateView,
    fetched: Seq<Fetched>,
    state: StateView,
    pending: Seq<Pending>,
    j: int,
)
    requires
        following(s, fetched, state, pending),
        0 <= j < pending.len(),
    ensures
        following(s, fetched, state, pending.remove(j)),
        waited(s, fetched, pending[j]),
{
    reveal(following);
    let fewer = pending.remove(j);
    assert forall|k: int| 0 <= k < fewer.len() implies waited(s, fetched, #[trigger] fewer[k]) by {
        if k < j {
            assert(fewer[k] == pending[k]);
        } else {
            assert(fewer[k] == pending[k + 1]);
        }
    }
}

/// The message fetched last, where it was an orphan, may come to wait.
pub proof fn lemma_following_waits(
    s: StateView,
    fetched: Seq<Fetched>,
    state: StateView,
    before: Seq<Pending>,
    after: Seq<Pending>,
    link: Seq<u8>,
)
    requires
        following(s, fetched, state, before),
        fetched.len() > 0,
        waits(before, after, fetched.last().address, fetched.last().body, link),
        outcome(s, fetched, fetched.len() - 1) == Ok::<Received, Error>(Received::Orphan),
    ensures
        following(s, fetched, state, after),
{
    reveal(following);
    assert forall|k: int| 0 <= k < after.len() implies waited(s, fetched, #[trigger] after[k]) by {
        if k < before.len() {
            assert(after[k] == after.drop_last()[k]);
            assert(waited(s, fetched, before[k]));
        } else {
            assert(fetched[fetched.len() - 1] == (Fetched {
                address: after[k].address,
                body: after[k].raw@,
            }));
        }
    }
}

/// Why catching up failed, if it failed.
pub open spec fn failure_of<V>(r: Result<V, Error>) -> Option<Error> {
    match r {
        Ok(_) => None,
        Err(e) => Some(e),
    }
}

/// What a step of catching up came to: the message that was fetched, if one
/// was, with the state that handling it left and what it handed back.
pub open spec fn stepped(
    before: StateView,
    after: StateView,
    r: Result<Option<Message>, Error>,
    f: Option<Fetched>,
) -> bool {
    match r {
        Ok(None) => f is None && after == before,
        Ok(Some(m)) => f is Some && f->0.address == m.address && handled(
            before,
            f->0.address,
            f->0.body,
        ).state == after && handled(before, f->0.address, f->0.body).result == Ok::<
            Received,
            Error,
        >(m.content@) && keeps(m.content, f->0.body),
        Err(e) => f is Some && handled(before, f->0.address, f->0.body).state == after && handled(
            before,
            f->0.address,
            f->0.body,
        ).result == Err::<Received, Error>(e),
    }
}

/// Whether `address` is among the addresses.
pub fn among(addresses: &Vec<Address>, address: &Address) -> (r: bool)
    ensures
        r == address_views(addresses@).contains((address.base@, address.relative@)),
{
    let ghost all = address_views(addresses@);
    let mut i: usize = 0;
    while i < addresses.len()
        invariant
            i <= addresses.len(),
            all == address_views(addresses@),
            forall|j: int| 0 <= j < i ==> all[j] != (address.base@, address.relative@),
        decreases addresses.len() - i,
    {
        if addresses[i].same(address) {
            assert(all[i as int] == (address.base@, address.relative@));
            return true;
        }
        i = i + 1;
    }
    false
}

/// An orphan that waits for the message that it is linked to.
pub struct Pending {
    pub address: Address,
    pub raw: Vec<u8>,
    pub link: MsgId,
}

/// The pending after one more orphan has come to wait: those before, then
/// the orphan found at `address` with its bytes and its link.
pub open spec fn waits(
    before: Seq<Pending>,
    after: Seq<Pending>,
    address: Address,
    raw: Seq<u8>,
    link: Seq<u8>,
) -> bool {
    &&& after.len() == before.len() + 1
    &&& after.drop_last() == before
    &&& after.last().address == address
    &&& after.last().raw@ == raw
    &&& after.last().link@ == link
}

/// What becomes of a handled message while catching up: an orphan waits
/// among the pending, with its bytes and its link, until the message that it
/// is linked to is known, and nothing is handed on; any other message is
/// handed on as it is.
pub fn settle(m: Message, pending: &mut Vec<Pending>) -> (r: Option<Message>)
    ensures
        match m.content {
            MessageContent::Orphan { message } => r is None && match m.header@.linked {
                Some(link) => waits(old(pending)@, final(pending)@, m.address, message@, link),
                None => final(pending)@ == old(pending)@,
            },
            _ => r == Some(m) && final(pending)@ == old(pending)@,
        },
{
    if m.is_orphan() {
        let Message { address, header, content } = m;
        let link = header.linked_msg_address();
        match content {
            MessageContent::Orphan { message } => {
                match link {
                    Some(link) => {
                        pending.push(Pending { address, raw: message.into_body(), link });
                        assert(pending@.drop_last() =~= old(pending)@);
                    },
                    None => {},
                }
            },
            _ => {},
        }
        None
    } else {
        Some(m)
    }
}

/// Settles the message fetched last: an orphan comes to wait, any other
/// message joins those that were read.
fn keep(
    m: Message,
    messages: &mut Vec<Message>,
    pending: &mut Vec<Pending>,
    Ghost(start): Ghost<StateView>,
    Ghost(fetched): Ghost<Seq<Fetched>>,
    Ghost(state): Ghost<StateView>,
)
    requires
        following(start, fetched, state, old(pending)@),
        fetched.len() > 0,
        m.address == fetched.last().address,
        keeps(m.content, fetched.last().body),
        outcome(start, fetched, fetched.len() - 1) == Ok::<Received, Error>(m.content@),
        summaries(old(messages)@) == read_all(start, fetched.drop_last()),
    ensures
        following(start, fetched, state, final(pending)@),
        summaries(final(messages)@) == read_all(start, fetched),
{
    let ghost kept = messages@;
    let ghost waiting = pending@;
    let ghost said = m.content@;
    let ghost link = m.header@.linked;
    let address = m.address;
    proof {
        assert(fetched.take(fetched.len() - 1) =~= fetched.drop_last());
    }
    match settle(m, pending) {
        Some(m) => {
            messages.push(m);
            proof {
                assert(summaries(messages@) =~= summaries(kept).push((address, said)));
            }
        },
        None => {
            proof {
                if link is Some {
                    lemma_following_waits(start, fetched, state, waiting, pending@, link->0);
                }
            }
        },
    }
}

impl State {
    /// Whether catching up has come to a halt at `address`: the message
    /// found there has been handled and the next message is still looked for
    /// at the same address.
    pub fn stuck(&self, address: &Address) -> (r: bool)
        requires
            self.wf(),
        ensures
            r == next_addresses_of(self@).contains((address.base@, address.relative@)),
    {
        let next = self.next_addresses();
        among(&next, address)
    }

    /// The first of the orphans whose linked message the user now knows, if
    /// there is one.
    pub fn ready(&self, pending: &Vec<Pending>) -> (r: Option<usize>)
        requires
            self.wf(),
        ensures
            match r {
                Some(j) => j < pending@.len() && self@.spongos.contains_key(
                    pending@[j as int].link@,
                ) && forall|i: int|
                    0 <= i < j ==> !self@.spongos.contains_key(
                        (#[trigger] pending@[i]).link@,
                    ),
                None => forall|i: int|
                    0 <= i < pending@.len() ==> !self@.spongos.contains_key(
                        (#[trigger] pending@[i]).link@,
                    ),
            },
    {
        let mut i: usize = 0;
        while i < pending.len()
            invariant
                i <= pending.len(),
                self.wf(),
                forall|k: int|
                    0 <= k < i ==> !self@.spongos.contains_key(
                        (#[trigger] pending@[k]).link@,
                    ),
            decreases pending.len() - i,
        {
            if self.spongos_store.contains(&pending[i].link) {
                return Some(i);
            }
            i = i + 1;
        }
        None
    }
}

impl<T: Transport> User<T> {
    fn step(&mut self) -> (r: (Result<Option<Message>, Error>, Ghost<Option<Fetched>>))
        requires
            old(self).wf(),
        ensures
            final(self).wf(),
            stepped(old(self).spec_state()@, final(self).spec_state()@, r.0, r.1@),
            r.1@ is Some ==> next_addresses_of(old(self).spec_state()@).contains(
                (r.1@->0.address.base@, r.1@->0.address.relative@),
            ),
    {
        let addresses = self.next_addresses();
        let ghost all = address_views(addresses@);
        let mut i: usize = 0;
        while i < addresses.len()
            invariant
                i <= addresses.len(),
                self.wf(),
                self.spec_state() == old(self).spec_state(),
                all == address_views(addresses@),
                all == next_addresses_of(old(self).spec_state()@),
            decreases addresses.len() - i,
        {
            let address = addresses[i];
            proof {
                assert(all[i as int] == (address.base@, address.relative@));
            }
            match self.fetch(address) {
                Some(msg) => {
                    let ghost f = Fetched { address, body: msg@ };
                    let r = self.handle_message(address, msg);
                    return match r {
                        Ok(m) => (Ok(Some(m)), Ghost(Some(f))),
                        Err(e) => (Err(e), Ghost(Some(f))),
                    };
                },
                None => {},
            }
            i = i + 1;
        }
        (Ok(None), Ghost(None))
    }

    /// One step of catching up: handles once more the first orphan whose
    /// linked message is now known or, where none is ready, fetches and
    /// handles the next message; whether it was an orphan that was handled.
    fn advance(
        &mut self,
        pending: &mut Vec<Pending>,
        Ghost(start): Ghost<StateView>,
        Ghost(fetched): Ghost<Seq<Fetched>>,
    ) -> (r: (Result<Option<Message>, Error>, bool, Ghost<Option<Fetched>>))
        requires
            old(self).wf(),
            following(start, fetched, old(self).spec_state()@, old(pending)@),
        ensures
            final(self).wf(),
            stepped(old(self).spec_state()@, final(self).spec_state()@, r.0, r.2@),
            following(start, fetched, old(self).spec_state()@, final(pending)@),
            r.2@ is Some ==> sought(start, fetched.push(r.2@->0), fetched.len() as int),
            r.1 ==> old(pending)@.len() > 0,
            !r.1 ==> final(pending)@ == old(pending)@,
            !r.1 && r.2@ is Some ==> next_addresses_of(old(self).spec_state()@).contains(
                (r.2@->0.address.base@, r.2@->0.address.relative@),
            ),
    {
        match self.state().ready(pending) {
            Some(j) => {
                proof {
                    lemma_following_removed(
                        start,
                        fetched,
                        self.spec_state()@,
                        pending@,
                        j as int,
                    );
                    lemma_sought_again(start, fetched, pending@[j as int]);
                }
                let p = pending.remove(j);
                let ghost f = Fetched { address: p.address, body: p.raw@ };
                match self.handle_message(p.address, TransportMessage::new(p.raw)) {
                    Ok(m) => (Ok(Some(m)), true, Ghost(Some(f))),
                    Err(e) => (Err(e), true, Ghost(Some(f))),
                }
            },
            None => {
                let (r, f) = self.step();
                proof {
                    reveal(following);
                    if f@ is Some {
                        lemma_sought_next(start, fetched, f@->0);
                    }
                }
                (r, false, f)
            },
        }
    }

    /// Fetches and handles the next message of the first publisher, in the
    /// order of the identifiers, of whom the transport holds one; `None`,
    /// and the state as it was, where it holds none.
    pub fn next_message(&mut self) -> (r: Result<Option<Message>, Error>)
        requires
            old(self).wf(),
        ensures
            final(self).wf(),
            exists|f: Option<Fetched>|
                {
                    &&& #[trigger] stepped(
                        old(self).spec_state()@,
                        final(self).spec_state()@,
                        r,
                        f,
                    )
                    &&& f is Some ==> next_addresses_of(old(self).spec_state()@).contains(
                        (f->0.address.base@, f->0.address.relative@),
                    )
                },
    {
        let (r, f) = self.step();
        r
    }

    /// Fetches and handles the messages that follow, one after the other,
    /// until the transport holds no more or a message leaves its publisher's
    /// cursor where it was. An orphan waits until the message that it is
    /// linked to has been handled and is then handled again. The messages
    /// that were read come back in the order in which they were read. Where
    /// handling a message fails, that error comes back and what was handled
    /// before it stays handled. Where the user follows nobody, nothing is
    /// fetched.
    #[verifier::rlimit(40)]
    pub fn fetch_next_messages(&mut self) -> (r: Result<Vec<Message>, Error>)
        requires
            old(self).wf(),
        ensures
            final(self).wf(),
            exists|fetched: Seq<Fetched>|
                {
                    &&& #[trigger] caught_up(
                        old(self).spec_state()@,
                        fetched,
                        final(self).spec_state()@,
                        failure_of(r),
                    )
                    &&& r is Ok ==> summaries(r->Ok_0@) == read_all(
                        old(self).spec_state()@,
                        fetched,
                    )
                },
            next_addresses_of(old(self).spec_state()@).len() == 0 ==> r is Ok && r->Ok_0@.len() == 0
                && final(self).spec_state()@ == old(self).spec_state()@,
    {
        let mut messages: Vec<Message> = Vec::new();
        let mut pending: Vec<Pending> = Vec::new();
        let ghost start = self.spec_state()@;
        let ghost mut fetched: Seq<Fetched> = Seq::empty();
        let mut fuel: usize = usize::MAX;
        proof {
            assert(summaries(messages@) =~= read_all(start, fetched));
            lemma_following_start(start);
        }
        while fuel > 0
            invariant
                self.wf(),
                start == old(self).spec_state()@,
                summaries(messages@) == read_all(start, fetched),
                following(start, fetched, self.spec_state()@, pending@),
                next_addresses_of(start).len() == 0 ==> self.spec_state()@ == start && messages@.len()
                    == 0 && pending@.len() == 0,
            decreases fuel,
        {
            fuel = fuel - 1;
            let ghost before = self.spec_state()@;
            let ghost was = fetched;
            let (r, again, f) = self.advance(&mut pending, Ghost(start), Ghost(fetched));
            match r {
                Ok(Some(m)) => {
                    proof {
                        lemma_following_read(start, was, before, pending@, f@->0);
                        fetched = was.push(f@->0);
                        assert(fetched.drop_last() =~= was);
                    }
                    let address = m.address;
                    keep(
                        m,
                        &mut messages,
                        &mut pending,
                        Ghost(start),
                        Ghost(fetched),
                        Ghost(self.spec_state()@),
                    );
                    if !again && self.state().stuck(&address) {
                        proof {
                            lemma_following_done(start, fetched, self.spec_state()@, pending@);
                        }
                        return Ok(messages);
                    }
                },
                Ok(None) => {
                    proof {
                        lemma_following_done(start, fetched, self.spec_state()@, pending@);
                    }
                    return Ok(messages);
                },
                Err(e) => {
                    proof {
                        lemma_following_failed(start, was, before, pending@, f@->0, e);
                        fetched = was.push(f@->0);
                    }
                    return Err(e);
                },
            }
        }
        proof {
            lemma_following_done(start, fetched, self.spec_state()@, pending@);
        }
        Ok(messages)
    }

    /// Fetches and handles the messages that follow until the state has
    /// caught up; the number of messages that were read. Where the user
    /// follows nobody, that is none.
    pub fn sync(&mut self) -> (r: Result<usize, Error>)
        requires
            old(self).wf(),
        ensures
            final(self).wf(),
            exists|fetched: Seq<Fetched>|
                {
                    &&& #[trigger] caught_up(
                        old(self).spec_state()@,
                        fetched,
                        final(self).spec_state()@,
                        failure_of(r),
                    )
                    &&& r is Ok ==> r->Ok_0 == read_all(old(self).spec_state()@, fetched).len()
                },
            next_addresses_of(old(self).spec_state()@).len() == 0 ==> r == Ok::<usize, Error>(0)
                && final(self).spec_state()@ == old(self).spec_state()@,
    {
        match self.fetch_next_messages() {
            Ok(messages) => {
                assert(summaries(messages@).len() == messages@.len());
                Ok(messages.len())
            },
            Err(e) => Err(e),
        }
    }
}

} // verus!
