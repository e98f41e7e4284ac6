use streams::error::Error;
use streams::message::pcf::PayloadFrameNum;
use streams::message::pcf::PCF;

#[test]
fn frame_number_at_the_limit_is_refused() {
    assert_eq!(PayloadFrameNum::from_u32(1 << 22), Err(Error::FrameNumberOutOfRange));
    assert!(PCF::new(15, 1 << 22, ()).is_err());
}

#[test]
fn greatest_frame_number_takes_three_bytes() {
    let n = PayloadFrameNum::from_u32((1 << 22) - 1).unwrap();
    assert_eq!(n.to_inner(), 4194303);
    assert_eq!(n.to_bytes(), [0x3f, 0xff, 0xff]);
    assert_eq!(PayloadFrameNum::from_bytes([0x3f, 0xff, 0xff]).unwrap().to_inner(), 4194303);
    assert!(PayloadFrameNum::from_bytes([0x40, 0, 0]).is_err());
}
