//! The payload-carrying frame: a frame type, a frame number of 22 bits and a
//! content.

use vstd::prelude::*;
use crate::ddml::sizeof;
use crate::ddml::types::lemma_put_wf;
use crate::ddml::types::lemma_take_put;
use crate::ddml::types::lemma_take_put_u8;
use crate::ddml::types::Mode;
use crate::ddml::types::put;
use crate::ddml::types::put_u8;
use crate::ddml::types::take;
use crate::ddml::types::take_u8;
use crate::ddml::types::Taken;
use crate::ddml::unwrap;
use crate::ddml::wrap;
use crate::error::Error;
use crate::message::version::FINAL_PCF_ID;
use crate::message::version::INIT_PCF_ID;
use crate::message::version::INTER_PCF_ID;
use crate::spongos::Sponge;

verus! {

/// The least number that is no frame number: 2^22.
pub const FRAME_NUM_LIMIT: u32 = 4194304;

/// The three bytes of a frame number, the most significant first.
pub open spec fn frame_num_bytes(n: u32) -> Seq<u8> {
    seq![(n / 65536) as u8, ((n / 256) % 256) as u8, (n % 256) as u8]
}

/// The number that three bytes stand for, the most significant first.
pub open spec fn frame_num_value(b: Seq<u8>) -> u32 {
    (b[0] as u32 * 65536 + b[1] as u32 * 256 + b[2] as u32) as u32
}

/// The number of a payload frame. It fits in 22 bits.
#[derive(Clone, Copy, Debug, Default, Hash, PartialEq, Eq, PartialOrd, Ord)]
pub struct PayloadFrameNum(u32);

impl View for PayloadFrameNum {
    type V = u32;

    closed spec fn view(&self) -> u32 {
        self.0
    }
}

impl PayloadFrameNum {
    /// The number fits in 22 bits.
    pub open spec fn wf(&self) -> bool {
        self@ < FRAME_NUM_LIMIT
    }

    /// The frame number `frame_num`, if it fits in 22 bits.
    pub fn from_u32(frame_num: u32) -> (r: Result<PayloadFrameNum, Error>)
        ensures
            r is Ok <==> frame_num < FRAME_NUM_LIMIT,
            r is Ok ==> r->Ok_0@ == frame_num && r->Ok_0.wf(),
            r is Err ==> r->Err_0 == Error::FrameNumberOutOfRange,
    {
        match PayloadFrameNum::validate(frame_num) {
            Ok(()) => Ok(PayloadFrameNum::from_u32_unchecked(frame_num)),
            Err(e) => Err(e),
        }
    }

    /// The frame number `frame_num`, which the caller knows to fit.
    pub fn from_u32_unchecked(frame_num: u32) -> (r: PayloadFrameNum)
        requires
            frame_num < FRAME_NUM_LIMIT,
        ensures
            r@ == frame_num,
            r.wf(),
    {
        PayloadFrameNum(frame_num)
    }

    /// Whether `payload_frame_num` fits in 22 bits.
    pub fn validate(payload_frame_num: u32) -> (r: Result<(), Error>)
        ensures
            r == if payload_frame_num < FRAME_NUM_LIMIT {
                Ok::<(), Error>(())
            } else {
                Err::<(), Error>(Error::FrameNumberOutOfRange)
            },
    {
        assert((payload_frame_num >> 22 == 0) <==> payload_frame_num < 4194304) by (bit_vector);
        if payload_frame_num >> 22 == 0 {
            Ok(())
        } else {
            Err(Error::FrameNumberOutOfRange)
        }
    }

    /// The number.
    pub fn to_inner(self) -> (r: u32)
        ensures
            r == self@,
    {
        self.0
    }

    /// The three bytes that stand for the number on the wire, the most
    /// significant first.
    pub fn to_bytes(self) -> (r: [u8; 3])
        requires
            self.wf(),
        ensures
            r@ == frame_num_bytes(self@),
    {
        let n: u32 = self.0;
        let r: [u8; 3] = [(n / 65536) as u8, ((n / 256) % 256) as u8, (n % 256) as u8];
        assert(r@ =~= frame_num_bytes(self@));
        r
    }

    /// The frame number that three bytes stand for, if it fits in 22 bits.
    pub fn from_bytes(bytes: [u8; 3]) -> (r: Result<PayloadFrameNum, Error>)
        ensures
            r is Ok <==> frame_num_value(bytes@) < FRAME_NUM_LIMIT,
            r is Ok ==> r->Ok_0@ == frame_num_value(bytes@) && r->Ok_0.wf(),
            r is Err ==> r->Err_0 == Error::FrameNumberOutOfRange,
    {
        let n: u32 = bytes[0] as u32 * 65536 + bytes[1] as u32 * 256 + bytes[2] as u32;
        PayloadFrameNum::from_u32(n)
    }
}

/// A frame as a value: the frame type and the frame number.
pub struct Frame {
    pub frame_type: u8,
    pub frame_num: u32,
}

/// The sponge and the wire bytes after a frame has passed: the frame type
/// absorbed, then the three bytes of the frame number skipped.
pub open spec fn put_frame(s: Sponge, f: Frame) -> (Sponge, Seq<u8>) {
    let (s1, a) = put_u8(s, Mode::Absorb, f.frame_type);
    let (s2, b) = put(s1, Mode::Skip, frame_num_bytes(f.frame_num));
    (s2, a + b)
}

/// Reads a frame. A frame number of 2^22 or more is refused.
pub open spec fn take_frame(s: Sponge, input: Seq<u8>) -> Result<Taken<Frame>, Error> {
    match take_u8(s, Mode::Absorb, input) {
        Ok(t) => match take(t.sponge, Mode::Skip, t.rest, 3) {
            Ok(u) => if frame_num_value(u.value) < FRAME_NUM_LIMIT {
                Ok(
                    Taken {
                        sponge: u.sponge,
                        value: Frame { frame_type: t.value, frame_num: frame_num_value(u.value) },
                        rest: u.rest,
                    },
                )
            } else {
                Err(Error::FrameNumberOutOfRange)
            },
            Err(e) => Err(e),
        },
        Err(e) => Err(e),
    }
}

/// Number of bytes that a frame takes on the wire.
pub open spec fn frame_len() -> nat {
    4
}

/// A frame read back. Every frame number below 2^22 comes back as it was.
pub proof fn lemma_take_put_frame(s: Sponge, f: Frame, rest: Seq<u8>)
    requires
        s.wf(),
        f.frame_num < FRAME_NUM_LIMIT,
    ensures
        take_frame(s, put_frame(s, f).1 + rest) == Ok::<Taken<Frame>, Error>(
            Taken { sponge: put_frame(s, f).0, value: f, rest },
        ),
        put_frame(s, f).0.wf(),
        put_frame(s, f).1.len() == frame_len(),
{
    let (s1, a) = put_u8(s, Mode::Absorb, f.frame_type);
    let (s2, b) = put(s1, Mode::Skip, frame_num_bytes(f.frame_num));
    lemma_take_put_u8(s, Mode::Absorb, f.frame_type, b + rest);
    lemma_put_wf(s1, Mode::Skip, frame_num_bytes(f.frame_num));
    assert((a + b) + rest =~= a + (b + rest));
    lemma_take_put(s1, Mode::Skip, frame_num_bytes(f.frame_num), rest);
    assert(frame_num_value(frame_num_bytes(f.frame_num)) == f.frame_num);
}

/// A frame takes four bytes on the wire, whatever stands in it.
pub proof fn lemma_frame_len(s: Sponge, f: Frame)
    requires
        s.wf(),
    ensures
        put_frame(s, f).0.wf(),
        put_frame(s, f).1.len() == frame_len(),
{
    let (s1, a) = put_u8(s, Mode::Absorb, f.frame_type);
    lemma_take_put_u8(s, Mode::Absorb, f.frame_type, Seq::empty());
    lemma_put_wf(s1, Mode::Skip, frame_num_bytes(f.frame_num));
}

/// A payload-carrying frame.
#[derive(Clone, Copy, PartialEq, Eq, Hash, Debug)]
#[allow(clippy::upper_case_acronyms)]
pub struct PCF<Content> {
    frame_type: u8,
    payload_frame_num: PayloadFrameNum,
    content: Content,
}

impl<Content> PCF<Content> {
    /// The frame type and the frame number.
    pub closed spec fn frame(&self) -> Frame {
        Frame { frame_type: self.frame_type, frame_num: self.payload_frame_num@ }
    }

    /// The content.
    pub closed spec fn spec_content(&self) -> Content {
        self.content
    }

    /// The frame number fits in 22 bits.
    pub open spec fn wf(&self) -> bool {
        self.frame().frame_num < FRAME_NUM_LIMIT
    }

    /// The frame with this type, number and content, if the number fits in
    /// 22 bits.
    pub fn new(frame_type: u8, payload_frame_num: u32, content: Content) -> (r: Result<Self, Error>)
        ensures
            r is Ok <==> payload_frame_num < FRAME_NUM_LIMIT,
            r is Err ==> r->Err_0 == Error::FrameNumberOutOfRange,
            r is Ok ==> r->Ok_0.frame() == (Frame { frame_type, frame_num: payload_frame_num })
                && r->Ok_0.spec_content() == content && r->Ok_0.wf(),
    {
        match PayloadFrameNum::from_u32(payload_frame_num) {
            Ok(num) => Ok(PCF { frame_type, payload_frame_num: num, content }),
            Err(e) => Err(e),
        }
    }

    /// The same frame around another content.
    pub fn with_content<T>(self, content: T) -> (r: PCF<T>)
        ensures
            r.frame() == self.frame(),
            r.spec_content() == content,
    {
        PCF { frame_type: self.frame_type, payload_frame_num: self.payload_frame_num, content }
    }

    /// Replaces the content.
    pub fn change_content(&mut self, content: Content)
        ensures
            final(self).frame() == old(self).frame(),
            final(self).spec_content() == content,
    {
        self.content = content;
    }

    /// The content.
    pub fn content(&self) -> (r: &Content)
        ensures
            *r == self.spec_content(),
    {
        &self.content
    }

    /// The content, out of the frame.
    pub fn into_content(self) -> (r: Content)
        ensures
            r == self.spec_content(),
    {
        self.content
    }

    /// The frame type.
    pub fn frame_type(&self) -> (r: u8)
        ensures
            r == self.frame().frame_type,
    {
        self.frame_type
    }

    /// Sets the frame number, if it fits in 22 bits, and hands the frame
    /// back; else the frame stays as it is.
    pub fn with_payload_frame_num(&mut self, payload_frame_num: u32) -> (r: Result<&mut Self, Error>)
        ensures
            match r {
                Ok(frame) => payload_frame_num < FRAME_NUM_LIMIT && frame.frame() == (Frame {
                    frame_type: old(self).frame().frame_type,
                    frame_num: payload_frame_num,
                }) && frame.spec_content() == old(self).spec_content() && frame.wf() && *final(self)
                    == *final(frame),
                Err(e) => payload_frame_num >= FRAME_NUM_LIMIT && e == Error::FrameNumberOutOfRange
                    && *final(self) == *old(self),
            },
    {
        match PayloadFrameNum::from_u32(payload_frame_num) {
            Ok(num) => {
                self.payload_frame_num = num;
                Ok(self)
            },
            Err(e) => Err(e),
        }
    }

    /// The frame number.
    pub fn payload_frame_num(&self) -> (r: PayloadFrameNum)
        ensures
            r@ == self.frame().frame_num,
    {
        self.payload_frame_num
    }

    /// Measures the frame, without its content.
    pub fn sizeof_frame(&self, ctx: &mut sizeof::Context) -> (r: Result<(), Error>)
        ensures
            final(ctx).grown(*old(ctx), frame_len(), r),
    {
        ctx.add(4)
    }

    /// Writes the frame, without its content.
    pub fn wrap_frame(&self, ctx: &mut wrap::Context)
        requires
            old(ctx).wf(),
            self.wf(),
        ensures
            final(ctx)@ == old(ctx)@.after(put_frame(old(ctx)@.sponge, self.frame())),
            final(ctx).wf(),
    {
        ctx.put_u8(Mode::Absorb, self.frame_type);
        let b = self.payload_frame_num.to_bytes();
        ctx.put(Mode::Skip, b.as_slice());
        assert(ctx@.bytes =~= old(ctx)@.after(put_frame(old(ctx)@.sponge, self.frame())).bytes);
    }
}

impl<Content: Default> Default for PCF<Content> {
    /// The last frame, with number 1, around the default content.
    fn default() -> (r: Self)
        ensures
            r.frame() == (Frame { frame_type: FINAL_PCF_ID, frame_num: 1 }),
            r.wf(),
    {
        PCF::new_final_frame().with_content(Content::default())
    }
}

impl PCF<()> {
    /// The first frame of several, with number 1 and no content.
    pub fn new_init_frame() -> (r: Self)
        ensures
            r.frame() == (Frame { frame_type: INIT_PCF_ID, frame_num: 1 }),
            r.wf(),
    {
        PCF {
            frame_type: INIT_PCF_ID,
            payload_frame_num: PayloadFrameNum::from_u32_unchecked(1),
            content: (),
        }
    }

    /// A frame between the first and the last, with number 1 and no content.
    pub fn new_inter_frame() -> (r: Self)
        ensures
            r.frame() == (Frame { frame_type: INTER_PCF_ID, frame_num: 1 }),
            r.wf(),
    {
        PCF {
            frame_type: INTER_PCF_ID,
            payload_frame_num: PayloadFrameNum::from_u32_unchecked(1),
            content: (),
        }
    }

    /// The last frame, or the only one, with number 1 and no content.
    pub fn new_final_frame() -> (r: Self)
        ensures
            r.frame() == (Frame { frame_type: FINAL_PCF_ID, frame_num: 1 }),
            r.wf(),
    {
        PCF {
            frame_type: FINAL_PCF_ID,
            payload_frame_num: PayloadFrameNum::from_u32_unchecked(1),
            content: (),
        }
    }

    /// Reads a frame, without its content.
    pub fn unwrap_frame(ctx: &mut unwrap::Context) -> (r: Result<PCF<()>, Error>)
        requires
            old(ctx).wf(),
        ensures
            final(ctx)@.follows(
                take_frame(old(ctx)@.sponge, old(ctx)@.bytes),
                match r {
                    Ok(pcf) => Ok::<Frame, Error>(pcf.frame()),
                    Err(e) => Err::<Frame, Error>(e),
                },
            ),
            r is Ok ==> r->Ok_0.wf(),
            final(ctx).wf(),
    {
        let frame_type = ctx.take_u8(Mode::Absorb)?;
        let b = ctx.take(Mode::Skip, 3)?;
        let n: u32 = b[0] as u32 * 65536 + b[1] as u32 * 256 + b[2] as u32;
        match PayloadFrameNum::from_u32(n) {
            Ok(num) => Ok(PCF { frame_type, payload_frame_num: num, content: () }),
            Err(e) => Err(e),
        }
    }
}

} // verus!
