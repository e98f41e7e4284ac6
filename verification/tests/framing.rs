use streams::address::AppAddr;
use streams::address::MsgId;
use streams::ddml::sizeof;
use streams::ddml::unwrap;
use streams::ddml::wrap;
use streams::error::Error;
use streams::id::identifier::Identifier;
use streams::id::identity::UserIdentity;
use streams::kinds::tagged_packet;
use streams::message::hdf::HDF;
use streams::message::pcf::PCF;
use streams::message::transport::TransportMessage;
use streams::message::version::FINAL_PCF_ID;
use streams::message::version::INIT_PCF_ID;
use streams::message::version::INTER_PCF_ID;
use streams::message::wrapped::Message;
use streams::spongos::Spongos;

fn header() -> HDF {
    let publisher = Identifier::Ed25519([5u8; 32]);
    let base = AppAddr::gen(publisher, 4);
    HDF::new(3, 300, publisher, base).with_linked_msg_address(MsgId::new([9u8; 12]))
}

#[test]
fn header_on_the_wire() {
    let h = header();
    let mut size = sizeof::Context::new();
    h.sizeof(&mut size).unwrap();
    let mut w = wrap::Context::new(0);
    h.wrap(&mut w);
    let (spongos, bytes) = w.finalize();
    assert_eq!(bytes.len(), size.size());
    assert_eq!(bytes.len(), 5 + 33 + 3 + 13);
    assert_eq!(&bytes[..5], &[2, 3, 4, 0, 0]);
    assert_eq!(&bytes[5..38], &h.publisher().to_bytes()[..]);
    assert_eq!(&bytes[38..41], &[2, 1, 44]);
    assert_eq!(bytes[41], 1);
    assert_eq!(&bytes[42..], &[9u8; 12]);

    let mut r = unwrap::Context::new(bytes.clone());
    let back = HDF::unwrap(&mut r, h.address()).unwrap();
    assert_eq!(back.message_type(), 3);
    assert_eq!(back.sequence(), 300);
    assert_eq!(back.payload_length(), 0);
    assert!(back.publisher().same(&h.publisher()));
    assert!(back.linked_msg_address().unwrap().same(&MsgId::new([9u8; 12])));
    assert_eq!(r.remaining(), 0);
    assert!(r.finalize().same(&spongos));

    let mut r = unwrap::Context::new(bytes);
    let other = AppAddr::gen(h.publisher(), 5);
    HDF::unwrap(&mut r, other).unwrap();
    assert!(!r.finalize().same(&spongos));
}

#[test]
fn header_without_a_link_and_with_a_payload_length() {
    let publisher = Identifier::Ed25519([5u8; 32]);
    let h = HDF::new(0, 0, publisher, AppAddr::new([1u8; 40])).with_payload_length(0x1234);
    assert!(h.linked_msg_address().is_none());
    let mut w = wrap::Context::new(0);
    h.wrap(&mut w);
    let bytes = w.finalize().1;
    assert_eq!(&bytes[..5], &[2, 0, 4, 0x12, 0x34]);
    assert_eq!(&bytes[38..], &[0, 0]);
    let mut r = unwrap::Context::new(bytes);
    let back = HDF::unwrap(&mut r, h.address()).unwrap();
    assert_eq!(back.payload_length(), 0x1234);
    assert!(back.linked_msg_address().is_none());
}

#[test]
fn headers_that_do_not_read() {
    let h = header();
    let mut w = wrap::Context::new(0);
    h.wrap(&mut w);
    let bytes = w.finalize().1;

    let mut other_version = bytes.clone();
    other_version[0] = 1;
    let mut r = unwrap::Context::new(other_version);
    assert!(matches!(HDF::unwrap(&mut r, h.address()), Err(Error::BadHeader)));

    let mut bad_link = bytes.clone();
    bad_link[41] = 2;
    let mut r = unwrap::Context::new(bad_link);
    assert!(matches!(HDF::unwrap(&mut r, h.address()), Err(Error::BadOneof)));

    let mut bad_publisher = bytes.clone();
    bad_publisher[5] = 9;
    let mut r = unwrap::Context::new(bad_publisher);
    assert!(matches!(HDF::unwrap(&mut r, h.address()), Err(Error::BadOneof)));

    for cut in [0, 1, 4, 20, 40, 41, 50] {
        let mut r = unwrap::Context::new(bytes[..cut].to_vec());
        assert!(matches!(HDF::unwrap(&mut r, h.address()), Err(Error::UnexpectedEnd)));
    }
}

#[test]
fn frames() {
    assert_eq!(PCF::new_init_frame().frame_type(), INIT_PCF_ID);
    assert_eq!(PCF::new_inter_frame().frame_type(), INTER_PCF_ID);
    assert_eq!(PCF::new_final_frame().frame_type(), FINAL_PCF_ID);
    assert_eq!(PCF::new_final_frame().payload_frame_num().to_inner(), 1);
    let mut pcf = PCF::new_final_frame().with_content(5u8);
    assert_eq!(*pcf.content(), 5);
    pcf.change_content(6);
    assert_eq!(pcf.into_content(), 6);

    let mut pcf = PCF::new(FINAL_PCF_ID, 0x3f_0102, "content").unwrap();
    assert_eq!(pcf.payload_frame_num().to_inner(), 0x3f_0102);
    assert!(matches!(pcf.with_payload_frame_num(1 << 22), Err(Error::FrameNumberOutOfRange)));
    assert_eq!(pcf.payload_frame_num().to_inner(), 0x3f_0102);
    assert_eq!(pcf.with_payload_frame_num(7).unwrap().payload_frame_num().to_inner(), 7);
    assert_eq!(pcf.payload_frame_num().to_inner(), 7);
    assert_eq!(PCF::<u8>::default().frame_type(), FINAL_PCF_ID);
    assert_eq!(*PCF::<u8>::default().content(), 0);
    assert_eq!(*pcf.content(), "content");

    let pcf = PCF::new(INIT_PCF_ID, 0x3f_0102, ()).unwrap();
    let mut size = sizeof::Context::new();
    pcf.sizeof_frame(&mut size).unwrap();
    assert_eq!(size.size(), 4);
    let mut w = wrap::Context::new(0);
    pcf.wrap_frame(&mut w);
    let (spongos, bytes) = w.finalize();
    assert_eq!(bytes, vec![INIT_PCF_ID, 0x3f, 0x01, 0x02]);
    let mut r = unwrap::Context::new(bytes);
    let back = PCF::unwrap_frame(&mut r).unwrap();
    assert_eq!(back.frame_type(), INIT_PCF_ID);
    assert_eq!(back.payload_frame_num().to_inner(), 0x3f_0102);
    assert!(r.finalize().same(&spongos));

    let mut r = unwrap::Context::new(vec![FINAL_PCF_ID, 0x40, 0, 0]);
    assert!(matches!(PCF::unwrap_frame(&mut r), Err(Error::FrameNumberOutOfRange)));
    let mut r = unwrap::Context::new(vec![FINAL_PCF_ID, 0x3f, 0xff, 0xff]);
    assert_eq!(PCF::unwrap_frame(&mut r).unwrap().payload_frame_num().to_inner(), (1 << 22) - 1);
}

#[test]
fn message_fills_the_measured_buffer() {
    let parent = Spongos::init();
    for (public, masked) in [(0usize, 0usize), (1, 1), (255, 256), (1000, 70000)] {
        let public = vec![1u8; public];
        let masked = vec![2u8; masked];
        let content = tagged_packet::Wrap::new(&parent, &public, &masked);
        let mut size = sizeof::Context::new();
        header().sizeof(&mut size).unwrap();
        size.add(4).unwrap();
        streams::message::content::ContentWrap::sizeof(&content, &mut size).unwrap();
        let message = Message::new(header(), PCF::new_final_frame().with_content(content));
        let (bytes, spongos) = message.wrap().unwrap();
        assert_eq!(bytes.body().len(), size.size());

        let preparsed =
            TransportMessage::new(bytes.body().clone()).parse_header(header().address()).unwrap();
        assert_eq!(preparsed.header().sequence(), 300);
        let (_, frame, mut ctx) = preparsed.into_parts().unwrap();
        assert_eq!(frame.frame_type(), FINAL_PCF_ID);
        let mut read = tagged_packet::Unwrap::new(&parent);
        assert_eq!(read.unwrap(&mut ctx), Ok(()));
        assert_eq!(ctx.remaining(), 0);
        assert_eq!(read.public_payload(), &public);
        assert_eq!(read.masked_payload(), &masked);
        assert!(ctx.finalize().same(&spongos));
    }
}

#[test]
fn message_parts_can_be_replaced() {
    let parent = Spongos::init();
    let user = UserIdentity::new("someone");
    let first = streams::kinds::unsubscription::Wrap::new(&parent, &user);
    let mut message = Message::new(header(), PCF::new_final_frame().with_content(first));
    let one = message.wrap().unwrap().0;
    let other_header = HDF::new(5, 1, user.to_identifier(), header().address());
    assert_eq!(message.with_header(other_header).header().sequence(), 1);
    assert_eq!(message.header().sequence(), 1);
    let two = message.wrap().unwrap().0;
    assert_ne!(one.body(), two.body());
    let other = UserIdentity::new("someone else");
    message.with_content(streams::kinds::unsubscription::Wrap::new(&parent, &other));
    assert_eq!(message.payload().frame_type(), FINAL_PCF_ID);
    let three = message.wrap().unwrap().0;
    assert_ne!(two.body(), three.body());
    assert_eq!(two.body().len(), three.body().len());
}
