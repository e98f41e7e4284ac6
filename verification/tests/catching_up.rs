use std::cell::RefCell;
use std::collections::HashMap;
use std::rc::Rc;

use streams::address::Address;
use streams::address::MsgId;
use streams::api::message::MessageContent;
use streams::api::transport::Transport;
use streams::api::user::User;
use streams::error::Error;
use streams::id::identity::UserIdentity;
use streams::message::transport::TransportMessage;

#[derive(Clone, Default)]
struct Board {
    messages: Rc<RefCell<HashMap<Vec<u8>, Vec<u8>>>>,
    asked: Rc<RefCell<usize>>,
}

fn place(address: &Address) -> Vec<u8> {
    let mut k = address.base.bytes.to_vec();
    k.extend_from_slice(&address.relative.bytes);
    k
}

impl Transport for Board {
    type SendResponse = ();

    fn send_message(&mut self, address: Address, msg: TransportMessage) -> Result<(), Error> {
        self.messages.borrow_mut().insert(place(&address), msg.into_body());
        Ok(())
    }

    fn recv_message(&mut self, address: Address) -> Result<TransportMessage, Error> {
        *self.asked.borrow_mut() += 1;
        match self.messages.borrow().get(&place(&address)) {
            Some(body) => Ok(TransportMessage::new(body.clone())),
            None => Err(Error::Transport),
        }
    }
}

#[test]
fn user_who_follows_nobody_fetches_nothing() {
    let board = Board::default();
    board.messages.borrow_mut().insert(vec![0u8; 52], vec![1, 2, 3]);
    let mut fresh = User::new(Some(UserIdentity::new("fresh")), &[], board.clone());
    let before = fresh.backup(b"pw").unwrap();
    assert!(fresh.next_addresses().is_empty());
    assert_eq!(fresh.sync(), Ok(0));
    assert!(fresh.fetch_next_messages().unwrap().is_empty());
    assert!(fresh.next_message().unwrap().is_none());
    assert_eq!(fresh.backup(b"pw").unwrap(), before);
    assert_eq!(*board.asked.borrow(), 0);

    let mut nobody: User<Board> = User::new(None, &[], board.clone());
    assert_eq!(nobody.sync(), Ok(0));
    assert!(nobody.fetch_next_messages().unwrap().is_empty());
    assert_eq!(*board.asked.borrow(), 0);
}

#[test]
fn catching_up_looks_where_the_cursors_point() {
    let board = Board::default();
    let mut a = User::new(Some(UserIdentity::new("author")), &[], board.clone());
    let announcement = a.create_stream(0).unwrap().address();
    let me = a.identifier().unwrap();
    let mut reader: User<Board> = User::new(None, &[], board.clone());
    reader.receive_message(announcement).unwrap();
    let next = reader.next_addresses();
    assert_eq!(next.len(), 1);
    assert!(next[0].same(&Address::new(announcement.base(), MsgId::gen(announcement.base(), me, 2))));

    let before = reader.backup(b"pw").unwrap();
    let asked = *board.asked.borrow();
    assert_eq!(reader.sync(), Ok(0));
    assert_eq!(*board.asked.borrow(), asked + 1);
    assert_eq!(reader.backup(b"pw").unwrap(), before);

    let first = a.send_tagged_packet(announcement.relative(), b"one", b"").unwrap().address();
    let second = a.send_tagged_packet(first.relative(), b"two", b"").unwrap().address();
    let read = reader.fetch_next_messages().unwrap();
    assert_eq!(read.len(), 2);
    assert!(read[0].address.same(&first));
    assert!(read[1].address.same(&second));
    assert!(matches!(
        &read[0].content,
        MessageContent::TaggedPacket { public_payload, .. } if public_payload == &b"one".to_vec()
    ));
    assert!(matches!(
        &read[1].content,
        MessageContent::TaggedPacket { public_payload, .. } if public_payload == &b"two".to_vec()
    ));
    assert_eq!(reader.state().cursor_store.get_cursor(&me), Some(3));
    assert_eq!(reader.sync(), Ok(0));
}

#[test]
fn failure_while_catching_up_comes_back_and_keeps_what_was_handled() {
    let board = Board::default();
    let mut a = User::new(Some(UserIdentity::new("author")), &[], board.clone());
    let announcement = a.create_stream(0).unwrap().address();
    let me = a.identifier().unwrap();
    let mut reader: User<Board> = User::new(None, &[], board.clone());
    reader.receive_message(announcement).unwrap();

    let first = a.send_tagged_packet(announcement.relative(), b"one", b"").unwrap().address();
    let spoilt = Address::new(announcement.base(), MsgId::gen(announcement.base(), me, 3));
    board.messages.borrow_mut().insert(place(&spoilt), vec![0xff; 7]);

    let mut alone: User<Board> = User::new(None, &[], board.clone());
    alone.receive_message(announcement).unwrap();
    alone.receive_message(first).unwrap();
    let expected = alone.receive_message(spoilt).unwrap_err();

    assert_eq!(reader.fetch_next_messages().unwrap_err(), expected);
    assert!(reader.state().spongos_store.contains(&first.relative()));
    assert!(!reader.state().spongos_store.contains(&spoilt.relative()));
    assert!(reader.state().same(alone.state()));
    assert_eq!(reader.sync(), Err(expected));
}
