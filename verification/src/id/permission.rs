//! What a subscriber may do in a stream.

use vstd::prelude::*;
use crate::ddml::sizeof;
use crate::ddml::types::lemma_take_put_size;
use crate::ddml::types::lemma_take_put_u8;
use crate::ddml::types::Mode;
use crate::ddml::types::put_size;
use crate::ddml::types::put_u8;
use crate::ddml::types::size_len;
use crate::ddml::types::take_size;
use crate::ddml::types::take_u8;
use crate::ddml::types::Taken;
use crate::ddml::unwrap;
use crate::ddml::wrap;
use crate::error::Error;
use crate::id::identifier::Identifier;
use crate::id::identifier::is_identifier;
use crate::id::identifier::lemma_identifier;
use crate::id::identifier::lemma_take_put_identifier;
use crate::id::identifier::put_identifier;
use crate::id::identifier::take_identifier;
use crate::spongos::Sponge;

verus! {

/// The tag of a permission to read.
pub const TAG_READ: u8 = 0;

/// The tag of a permission to read and write.
pub const TAG_READ_WRITE: u8 = 1;

/// The tag of a permission to administer.
pub const TAG_ADMIN: u8 = 2;

/// For how long a permission to write holds.
#[derive(Clone, Copy, Debug, PartialEq, Eq, Structural, PartialOrd, Ord, Hash)]
pub enum PermissionDuration {
    /// Without end.
    Perpetual,
    /// Until this Unix time, in seconds.
    Unix(u64),
}

/// An identifier with what its holder may do.
#[derive(Clone, Copy, Debug, PartialEq, Eq, PartialOrd, Ord, Hash)]
pub enum Permissioned<Id> {
    Read(Id),
    ReadWrite(Id, PermissionDuration),
    Admin(Id),
}

/// A permission as a value: the tag, the identifier's view, and the duration,
/// which is `Perpetual` unless the tag is that of a permission to write.
pub struct Permission {
    pub tag: u8,
    pub id: Seq<u8>,
    pub duration: PermissionDuration,
}

impl Permission {
    /// The tag is known, the identifier is one, and only a permission to
    /// write holds a duration.
    pub open spec fn wf(self) -> bool {
        self.tag <= TAG_ADMIN && is_identifier(self.id) && (self.tag != TAG_READ_WRITE
            ==> self.duration == PermissionDuration::Perpetual)
    }

    /// Whether the permission is one to read only.
    pub open spec fn is_readonly(self) -> bool {
        self.tag == TAG_READ
    }

    /// Number of bytes that the permission takes on the wire.
    pub open spec fn len(self) -> nat {
        1 + self.id.len() + if self.tag == TAG_READ_WRITE {
            duration_len(self.duration)
        } else {
            0
        }
    }
}

impl View for Permissioned<Identifier> {
    type V = Permission;

    open spec fn view(&self) -> Permission {
        match self {
            Permissioned::Read(id) => Permission {
                tag: TAG_READ,
                id: id@,
                duration: PermissionDuration::Perpetual,
            },
            Permissioned::ReadWrite(id, duration) => Permission {
                tag: TAG_READ_WRITE,
                id: id@,
                duration: *duration,
            },
            Permissioned::Admin(id) => Permission {
                tag: TAG_ADMIN,
                id: id@,
                duration: PermissionDuration::Perpetual,
            },
        }
    }
}

/// Number of bytes that a duration takes on the wire.
pub open spec fn duration_len(d: PermissionDuration) -> nat {
    match d {
        PermissionDuration::Perpetual => 1,
        PermissionDuration::Unix(t) => 1 + size_len(t),
    }
}

/// The sponge and the wire bytes after a duration has passed: a tag, and for
/// a Unix time the seconds as a size.
pub open spec fn put_duration(s: Sponge, mode: Mode, d: PermissionDuration) -> (Sponge, Seq<u8>) {
    match d {
        PermissionDuration::Perpetual => put_u8(s, mode, 0),
        PermissionDuration::Unix(t) => {
            let (s1, a) = put_u8(s, mode, 1);
            let (s2, b) = put_size(s1, mode, t);
            (s2, a + b)
        },
    }
}

/// Reads a duration.
pub open spec fn take_duration(s: Sponge, mode: Mode, input: Seq<u8>) -> Result<
    Taken<PermissionDuration>,
    Error,
> {
    match take_u8(s, mode, input) {
        Ok(t) => if t.value == 0 {
            Ok(Taken { sponge: t.sponge, value: PermissionDuration::Perpetual, rest: t.rest })
        } else if t.value == 1 {
            match take_size(t.sponge, mode, t.rest) {
                Ok(u) => Ok(
                    Taken { sponge: u.sponge, value: PermissionDuration::Unix(u.value), rest: u.rest },
                ),
                Err(e) => Err(e),
            }
        } else {
            Err(Error::BadOneof)
        },
        Err(e) => Err(e),
    }
}

/// The sponge and the wire bytes after a permission has passed: the tag, the
/// identifier, and for a permission to write the duration.
pub open spec fn put_permission(s: Sponge, mode: Mode, p: Permission) -> (Sponge, Seq<u8>) {
    let (s1, a) = put_u8(s, mode, p.tag);
    let (s2, b) = put_identifier(s1, mode, p.id);
    if p.tag == TAG_READ_WRITE {
        let (s3, c) = put_duration(s2, mode, p.duration);
        (s3, a + b + c)
    } else {
        (s2, a + b)
    }
}

/// Reads a permission.
pub open spec fn take_permission(s: Sponge, mode: Mode, input: Seq<u8>) -> Result<
    Taken<Permission>,
    Error,
> {
    match take_u8(s, mode, input) {
        Ok(t) => if t.value > TAG_ADMIN {
            Err(Error::BadOneof)
        } else {
            match take_identifier(t.sponge, mode, t.rest) {
                Ok(u) => if t.value == TAG_READ_WRITE {
                    match take_duration(u.sponge, mode, u.rest) {
                        Ok(v) => Ok(
                            Taken {
                                sponge: v.sponge,
                                value: Permission { tag: t.value, id: u.value, duration: v.value },
                                rest: v.rest,
                            },
                        ),
                        Err(e) => Err(e),
                    }
                } else {
                    Ok(
                        Taken {
                            sponge: u.sponge,
                            value: Permission {
                                tag: t.value,
                                id: u.value,
                                duration: PermissionDuration::Perpetual,
                            },
                            rest: u.rest,
                        },
                    )
                },
                Err(e) => Err(e),
            }
        },
        Err(e) => Err(e),
    }
}

/// A duration read back.
pub proof fn lemma_take_put_duration(s: Sponge, mode: Mode, d: PermissionDuration, rest: Seq<u8>)
    requires
        s.wf(),
    ensures
        take_duration(s, mode, put_duration(s, mode, d).1 + rest) == Ok::<
            Taken<PermissionDuration>,
            Error,
        >(Taken { sponge: put_duration(s, mode, d).0, value: d, rest }),
        put_duration(s, mode, d).0.wf(),
        put_duration(s, mode, d).1.len() == duration_len(d),
{
    match d {
        PermissionDuration::Perpetual => {
            lemma_take_put_u8(s, mode, 0, rest);
        },
        PermissionDuration::Unix(t) => {
            let (s1, a) = put_u8(s, mode, 1);
            let (s2, b) = put_size(s1, mode, t);
            lemma_take_put_u8(s, mode, 1, b + rest);
            assert((a + b) + rest =~= a + (b + rest));
            lemma_take_put_size(s1, mode, t, rest);
        },
    }
}

/// A permission read back.
#[verifier::rlimit(40)]
pub proof fn lemma_take_put_permission(s: Sponge, mode: Mode, p: Permission, rest: Seq<u8>)
    requires
        s.wf(),
        p.wf(),
    ensures
        take_permission(s, mode, put_permission(s, mode, p).1 + rest) == Ok::<
            Taken<Permission>,
            Error,
        >(Taken { sponge: put_permission(s, mode, p).0, value: p, rest }),
        put_permission(s, mode, p).0.wf(),
        put_permission(s, mode, p).1.len() == p.len(),
{
    let (s1, a) = put_u8(s, mode, p.tag);
    let (s2, b) = put_identifier(s1, mode, p.id);
    if p.tag == TAG_READ_WRITE {
        let (s3, c) = put_duration(s2, mode, p.duration);
        lemma_take_put_u8(s, mode, p.tag, b + c + rest);
        lemma_take_put_identifier(s1, mode, p.id, c + rest);
        lemma_take_put_duration(s2, mode, p.duration, rest);
        assert((a + b + c) + rest =~= a + (b + c + rest));
        assert(b + c + rest =~= b + (c + rest));
    } else {
        lemma_take_put_u8(s, mode, p.tag, b + rest);
        lemma_take_put_identifier(s1, mode, p.id, rest);
        assert((a + b) + rest =~= a + (b + rest));
    }
}

impl<Id> Permissioned<Id> {
    /// The identifier that the permission is for.
    pub fn identifier(&self) -> (r: &Id)
        ensures
            *r == match *self {
                Permissioned::Read(id) => id,
                Permissioned::ReadWrite(id, _) => id,
                Permissioned::Admin(id) => id,
            },
    {
        match self {
            Permissioned::Read(id) => id,
            Permissioned::ReadWrite(id, _) => id,
            Permissioned::Admin(id) => id,
        }
    }

    /// Whether the permission is one to read only.
    pub fn is_readonly(&self) -> (r: bool)
        ensures
            r == (*self is Read),
    {
        match self {
            Permissioned::Read(_) => true,
            _ => false,
        }
    }
}

impl PermissionDuration {
    /// Measures the duration.
    pub fn sizeof(&self, ctx: &mut sizeof::Context) -> (r: Result<(), Error>)
        ensures
            final(ctx).grown(*old(ctx), duration_len(*self), r),
    {
        match self {
            PermissionDuration::Perpetual => ctx.add(1),
            PermissionDuration::Unix(t) => {
                let d = crate::ddml::types::digits(*t);
                ctx.add(2 + d.len())
            },
        }
    }

    /// Writes the duration.
    pub fn wrap(&self, ctx: &mut wrap::Context, mode: Mode)
        requires
            old(ctx).wf(),
        ensures
            final(ctx)@ == old(ctx)@.after(put_duration(old(ctx)@.sponge, mode, *self)),
            final(ctx).wf(),
    {
        match self {
            PermissionDuration::Perpetual => {
                ctx.put_u8(mode, 0);
            },
            PermissionDuration::Unix(t) => {
                ctx.put_u8(mode, 1);
                ctx.put_size(mode, *t);
                assert(ctx@.bytes =~= old(ctx)@.after(
                    put_duration(old(ctx)@.sponge, mode, *self),
                ).bytes);
            },
        }
    }

    /// Reads a duration.
    pub fn unwrap(ctx: &mut unwrap::Context, mode: Mode) -> (r: Result<PermissionDuration, Error>)
        requires
            old(ctx).wf(),
        ensures
            final(ctx)@.follows(take_duration(old(ctx)@.sponge, mode, old(ctx)@.bytes), r),
            final(ctx).wf(),
    {
        let tag = ctx.take_u8(mode)?;
        if tag == 0 {
            Ok(PermissionDuration::Perpetual)
        } else if tag == 1 {
            let t = ctx.take_size(mode)?;
            Ok(PermissionDuration::Unix(t))
        } else {
            Err(Error::BadOneof)
        }
    }
}

impl Permissioned<Identifier> {
    /// The permission is well formed as a value.
    pub proof fn lemma_wf(&self)
        ensures
            self@.wf(),
            self@.is_readonly() == (*self is Read),
    {
        match self {
            Permissioned::Read(id) => {
                lemma_identifier(*id);
            },
            Permissioned::ReadWrite(id, _) => {
                lemma_identifier(*id);
            },
            Permissioned::Admin(id) => {
                lemma_identifier(*id);
            },
        }
    }

    /// Measures the permission.
    pub fn sizeof(&self, ctx: &mut sizeof::Context) -> (r: Result<(), Error>)
        ensures
            final(ctx).grown(*old(ctx), self@.len(), r),
    {
        ctx.add(1)?;
        match self {
            Permissioned::Read(id) => id.sizeof(ctx),
            Permissioned::ReadWrite(id, duration) => {
                id.sizeof(ctx)?;
                duration.sizeof(ctx)
            },
            Permissioned::Admin(id) => id.sizeof(ctx),
        }
    }

    /// Writes the permission.
    pub fn wrap(&self, ctx: &mut wrap::Context, mode: Mode)
        requires
            old(ctx).wf(),
        ensures
            final(ctx)@ == old(ctx)@.after(put_permission(old(ctx)@.sponge, mode, self@)),
            final(ctx).wf(),
    {
        match self {
            Permissioned::Read(id) => {
                ctx.put_u8(mode, TAG_READ);
                id.wrap(ctx, mode);
            },
            Permissioned::ReadWrite(id, duration) => {
                ctx.put_u8(mode, TAG_READ_WRITE);
                id.wrap(ctx, mode);
                duration.wrap(ctx, mode);
            },
            Permissioned::Admin(id) => {
                ctx.put_u8(mode, TAG_ADMIN);
                id.wrap(ctx, mode);
            },
        }
        assert(ctx@.bytes =~= old(ctx)@.after(put_permission(old(ctx)@.sponge, mode, self@)).bytes);
    }

    /// Reads a permission.
    pub fn unwrap(ctx: &mut unwrap::Context, mode: Mode) -> (r: Result<
        Permissioned<Identifier>,
        Error,
    >)
        requires
            old(ctx).wf(),
        ensures
            final(ctx)@.follows(
                take_permission(old(ctx)@.sponge, mode, old(ctx)@.bytes),
                crate::ddml::unwrap::viewed(r),
            ),
            final(ctx).wf(),
    {
        let tag = ctx.take_u8(mode)?;
        if tag > TAG_ADMIN {
            return Err(Error::BadOneof);
        }
        let id = Identifier::unwrap(ctx, mode)?;
        if tag == TAG_READ_WRITE {
            let duration = PermissionDuration::unwrap(ctx, mode)?;
            Ok(Permissioned::ReadWrite(id, duration))
        } else if tag == TAG_READ {
            Ok(Permissioned::Read(id))
        } else {
            Ok(Permissioned::Admin(id))
        }
    }
}

} // verus!
