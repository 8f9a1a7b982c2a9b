//! File attributes and their extensions.

use crate::error::Error;
use crate::wire::{
    Receivable, Sendable, be32, be64, lemma_bytes_round_trip, lemma_u32_round_trip,
    lemma_u64_round_trip, parse_bytes, parse_opt_u32, parse_opt_u64, parse_u32, wire_bytes,
};
use vstd::prelude::*;

verus! {

/// The flag of an attribute block that announces the size.
pub const SSH_FILEXFER_ATTR_SIZE: u32 = 0x0000_0001;

/// The flag that announces owner and group.
pub const SSH_FILEXFER_ATTR_UIDGID: u32 = 0x0000_0002;

/// The flag that announces the permissions.
pub const SSH_FILEXFER_ATTR_PERMISSIONS: u32 = 0x0000_0004;

/// The flag that announces the times of last access and last change.
pub const SSH_FILEXFER_ATTR_ACMODTIME: u32 = 0x0000_0008;

/// The flag that announces a list of extensions.
pub const SSH_FILEXFER_ATTR_EXTENDED: u32 = 0x8000_0000;

/// A named piece of data that either side may attach to a message.
#[derive(Debug, Clone, PartialEq, Eq)]
pub struct Extension {
    pub name: Vec<u8>,
    pub data: Vec<u8>,
}

/// An `Extension` as mathematics sees it.
pub struct ExtensionView {
    pub name: Seq<u8>,
    pub data: Seq<u8>,
}

impl View for Extension {
    type V = ExtensionView;

    open spec fn view(&self) -> ExtensionView {
        ExtensionView { name: self.name@, data: self.data@ }
    }
}

/// The views of a list of extensions, in order.
pub open spec fn extension_views(es: Seq<Extension>) -> Seq<ExtensionView> {
    es.map_values(|e: Extension| e@)
}

/// The attributes of a file; each may be absent.
#[derive(Debug, Clone, PartialEq, Eq)]
pub struct FileAttr {
    pub size: Option<u64>,
    pub uid: Option<u32>,
    pub gid: Option<u32>,
    pub perms: Option<u32>,
    pub atime: Option<u32>,
    pub mtime: Option<u32>,
    pub extensions: Vec<Extension>,
}

/// A `FileAttr` as mathematics sees it.
pub struct FileAttrView {
    pub size: Option<u64>,
    pub uid: Option<u32>,
    pub gid: Option<u32>,
    pub perms: Option<u32>,
    pub atime: Option<u32>,
    pub mtime: Option<u32>,
    pub extensions: Seq<ExtensionView>,
}

impl FileAttrView {
    /// Owner and group come together, and so do the two times.
    pub open spec fn paired(self) -> bool {
        &&& self.uid is Some <==> self.gid is Some
        &&& self.atime is Some <==> self.mtime is Some
    }
}

impl View for FileAttr {
    type V = FileAttrView;

    open spec fn view(&self) -> FileAttrView {
        FileAttrView {
            size: self.size,
            uid: self.uid,
            gid: self.gid,
            perms: self.perms,
            atime: self.atime,
            mtime: self.mtime,
            extensions: extension_views(self.extensions@),
        }
    }
}

impl FileAttrView {
    /// Attributes of which none is present.
    pub open spec fn absent() -> FileAttrView {
        FileAttrView {
            size: None,
            uid: None,
            gid: None,
            perms: None,
            atime: None,
            mtime: None,
            extensions: Seq::empty(),
        }
    }
}

impl FileAttr {
    /// Whether owner and group come together, and the two times too. Only
    /// such attributes have flags that tell all that is written.
    pub fn is_paired(&self) -> (b: bool)
        ensures
            b == self@.paired(),
    {
        self.uid.is_some() == self.gid.is_some() && self.atime.is_some() == self.mtime.is_some()
    }

    /// Attributes of which none is present.
    pub fn new() -> (a: FileAttr)
        ensures
            a@ == FileAttrView::absent(),
    {
        let a = FileAttr {
            size: None,
            uid: None,
            gid: None,
            perms: None,
            atime: None,
            mtime: None,
            extensions: Vec::new(),
        };
        assert(a@.extensions =~= Seq::empty());
        a
    }
}

/// An extension on the wire: its name, then its data.
pub open spec fn wire_extension(e: ExtensionView) -> Seq<u8> {
    wire_bytes(e.name) + wire_bytes(e.data)
}

/// A list of extensions on the wire, one after the other.
pub open spec fn wire_extensions(es: Seq<ExtensionView>) -> Seq<u8>
    decreases es.len(),
{
    if es.len() == 0 {
        Seq::empty()
    } else {
        wire_extensions(es.drop_last()) + wire_extension(es.last())
    }
}

/// Reading one extension.
pub open spec fn parse_extension(s: Seq<u8>) -> Result<(ExtensionView, Seq<u8>), Error> {
    match parse_bytes(s) {
        Err(e) => Err(e),
        Ok((name, s1)) => match parse_bytes(s1) {
            Err(e) => Err(e),
            Ok((data, s2)) => Ok((ExtensionView { name, data }, s2)),
        },
    }
}

/// A parsed list with `done` put in front of it.
pub open spec fn prepend<A>(done: Seq<A>, r: Result<(Seq<A>, Seq<u8>), Error>) -> Result<
    (Seq<A>, Seq<u8>),
    Error,
> {
    match r {
        Err(e) => Err(e),
        Ok((more, rest)) => Ok((done + more, rest)),
    }
}

/// Reading `count` extensions.
pub open spec fn parse_extensions(s: Seq<u8>, count: nat) -> Result<
    (Seq<ExtensionView>, Seq<u8>),
    Error,
>
    decreases count,
{
    if count == 0 {
        Ok((Seq::empty(), s))
    } else {
        match parse_extension(s) {
            Err(e) => Err(e),
            Ok((e, s1)) => prepend(seq![e], parse_extensions(s1, (count - 1) as nat)),
        }
    }
}

/// Every name and every datum of the list fits a 32-bit length.
pub open spec fn extensions_fit(es: Seq<ExtensionView>) -> bool {
    forall|i: int|
        0 <= i < es.len() ==> (#[trigger] es[i]).name.len() <= u32::MAX && es[i].data.len()
            <= u32::MAX
}

impl Sendable for Extension {
    open spec fn wire(&self) -> Seq<u8> {
        wire_extension(self@)
    }

    fn write_to(&self, w: &mut Vec<u8>) {
        self.name.write_to(w);
        self.data.write_to(w);
        assert(w@ =~= old(w)@ + self.wire());
    }

    fn size(&self) -> (n: u32) {
        self.name.size() + self.data.size()
    }
}

impl Receivable for Extension {
    open spec fn parse(s: Seq<u8>) -> Result<(ExtensionView, Seq<u8>), Error> {
        parse_extension(s)
    }

    fn recv(r: &mut &[u8]) -> (res: Result<Extension, Error>) {
        let mut cur: &[u8] = *r;
        let name = Vec::<u8>::recv(&mut cur)?;
        let data = Vec::<u8>::recv(&mut cur)?;
        *r = cur;
        Ok(Extension { name, data })
    }
}

/// Takes `count` extensions off the front of `r`. A failure takes nothing.
pub fn recv_extensions(r: &mut &[u8], count: u32) -> (res: Result<Vec<Extension>, Error>)
    ensures
        match parse_extensions(old(r)@, count as nat) {
            Ok((es, rest)) => res is Ok && extension_views(res->Ok_0@) == es && final(r)@ == rest,
            Err(e) => res == Err::<Vec<Extension>, Error>(e) && final(r)@ == old(r)@,
        },
{
    let mut cur: &[u8] = *r;
    let mut extensions: Vec<Extension> = Vec::new();
    let mut i: u32 = 0;
    assert(extension_views(extensions@) =~= Seq::empty());
    assert(Seq::<ExtensionView>::empty() + parse_extensions(cur@, count as nat)->Ok_0.0
        =~= parse_extensions(cur@, count as nat)->Ok_0.0);
    while i < count
        invariant
            i <= count,
            *r == *old(r),
            parse_extensions(old(r)@, count as nat) == prepend(
                extension_views(extensions@),
                parse_extensions(cur@, (count - i) as nat),
            ),
        decreases count - i,
    {
        let ghost done = extension_views(extensions@);
        let e = match Extension::recv(&mut cur) {
            Ok(e) => e,
            Err(x) => {
                return Err(x);
            },
        };
        extensions.push(e);
        i += 1;
        proof {
            let more = parse_extensions(cur@, (count - i) as nat);
            assert(extension_views(extensions@) =~= done.push(e@));
            if more is Ok {
                assert(done + (seq![e@] + more->Ok_0.0) =~= done.push(e@) + more->Ok_0.0);
            }
        }
    }
    proof {
        assert(extension_views(extensions@) + Seq::<ExtensionView>::empty() =~= extension_views(
            extensions@,
        ));
    }
    *r = cur;
    Ok(extensions)
}

/// The flag word of an attribute block, from what the block holds.
pub open spec fn flag_word(
    size: bool,
    owner: bool,
    perms: bool,
    times: bool,
    extended: bool,
) -> u32 {
    (if size { SSH_FILEXFER_ATTR_SIZE } else { 0 })
        | (if owner { SSH_FILEXFER_ATTR_UIDGID } else { 0 })
        | (if perms { SSH_FILEXFER_ATTR_PERMISSIONS } else { 0 })
        | (if times { SSH_FILEXFER_ATTR_ACMODTIME } else { 0 })
        | (if extended { SSH_FILEXFER_ATTR_EXTENDED } else { 0 })
}

/// The flag word of `a`: a flag for the size, one for owner and group where
/// both are present, one for the permissions, one for the two times where
/// both are present, one for a list of extensions that is not empty.
pub open spec fn attr_flags(a: FileAttrView) -> u32 {
    flag_word(
        a.size is Some,
        a.uid is Some && a.gid is Some,
        a.perms is Some,
        a.atime is Some && a.mtime is Some,
        a.extensions.len() > 0,
    )
}

/// A number on the wire if it is present, nothing if it is not.
pub open spec fn wire_opt_u32(v: Option<u32>) -> Seq<u8> {
    match v {
        Some(n) => be32(n),
        None => Seq::empty(),
    }
}

/// A 64-bit number on the wire if it is present, nothing if it is not.
pub open spec fn wire_opt_u64(v: Option<u64>) -> Seq<u8> {
    match v {
        Some(n) => be64(n),
        None => Seq::empty(),
    }
}

/// The extensions of an attribute block: their count and the list, or
/// nothing where there is none. Of a count that four bytes cannot hold, the
/// low 32 bits are written.
pub open spec fn wire_extension_block(es: Seq<ExtensionView>) -> Seq<u8> {
    if es.len() > 0 {
        be32(es.len() as u32) + wire_extensions(es)
    } else {
        Seq::empty()
    }
}

/// The fields of an attribute block that come before the extensions.
pub open spec fn wire_attr_fields(a: FileAttrView) -> Seq<u8> {
    be32(attr_flags(a)) + wire_opt_u64(a.size) + wire_opt_u32(a.uid) + wire_opt_u32(a.gid)
        + wire_opt_u32(a.perms) + wire_opt_u32(a.atime) + wire_opt_u32(a.mtime)
}

/// An attribute block on the wire: the flag word, each field that is
/// present, in the order size, owner, group, permissions, access time,
/// change time, and then the extensions.
pub open spec fn wire_attrs(a: FileAttrView) -> Seq<u8> {
    wire_attr_fields(a) + wire_extension_block(a.extensions)
}

/// Reading the extensions of an attribute block whose flag word was read.
pub open spec fn parse_extension_block(present: bool, s: Seq<u8>) -> Result<
    (Seq<ExtensionView>, Seq<u8>),
    Error,
> {
    if present {
        match parse_u32(s) {
            Err(e) => Err(e),
            Ok((count, s1)) => parse_extensions(s1, count as nat),
        }
    } else {
        Ok((Seq::empty(), s))
    }
}

/// Reading the fields and extensions that the flag word `flags` announces.
/// Flags that the protocol does not define are passed over.
pub open spec fn parse_attr_body(flags: u32, s0: Seq<u8>) -> Result<
    (FileAttrView, Seq<u8>),
    Error,
> {
    match parse_opt_u64(flags & SSH_FILEXFER_ATTR_SIZE != 0, s0) {
        Err(e) => Err(e),
        Ok((size, s1)) => match parse_opt_u32(flags & SSH_FILEXFER_ATTR_UIDGID != 0, s1) {
            Err(e) => Err(e),
            Ok((uid, s2)) => match parse_opt_u32(flags & SSH_FILEXFER_ATTR_UIDGID != 0, s2) {
                Err(e) => Err(e),
                Ok((gid, s3)) => match parse_opt_u32(
                    flags & SSH_FILEXFER_ATTR_PERMISSIONS != 0,
                    s3,
                ) {
                    Err(e) => Err(e),
                    Ok((perms, s4)) => match parse_opt_u32(
                        flags & SSH_FILEXFER_ATTR_ACMODTIME != 0,
                        s4,
                    ) {
                        Err(e) => Err(e),
                        Ok((atime, s5)) => match parse_opt_u32(
                            flags & SSH_FILEXFER_ATTR_ACMODTIME != 0,
                            s5,
                        ) {
                            Err(e) => Err(e),
                            Ok((mtime, s6)) => match parse_extension_block(
                                flags & SSH_FILEXFER_ATTR_EXTENDED != 0,
                                s6,
                            ) {
                                Err(e) => Err(e),
                                Ok((extensions, s7)) => Ok(
                                    (
                                        FileAttrView {
                                            size,
                                            uid,
                                            gid,
                                            perms,
                                            atime,
                                            mtime,
                                            extensions,
                                        },
                                        s7,
                                    ),
                                ),
                            },
                        },
                    },
                },
            },
        },
    }
}

/// Reading an attribute block: the flag word, then what it announces.
pub open spec fn parse_attrs(s: Seq<u8>) -> Result<(FileAttrView, Seq<u8>), Error> {
    match parse_u32(s) {
        Err(e) => Err(e),
        Ok((flags, s0)) => parse_attr_body(flags, s0),
    }
}

/// The encoding of a list of extensions is at least as long as that of any
/// of its prefixes, and takes eight bytes or more for each extension.
pub proof fn lemma_wire_extensions_len(es: Seq<ExtensionView>, i: int)
    requires
        0 <= i <= es.len(),
    ensures
        wire_extensions(es.take(i)).len() <= wire_extensions(es).len(),
        8 * es.len() <= wire_extensions(es).len(),
        i < es.len() ==> wire_extensions(es.take(i)).len() + wire_extension(es[i]).len()
            <= wire_extensions(es).len(),
    decreases es.len(),
{
    if es.len() == 0 {
        assert(es.take(i) =~= es);
    } else {
        let front = es.drop_last();
        if i == es.len() {
            assert(es.take(i) =~= es);
            lemma_wire_extensions_len(front, 0);
        } else {
            lemma_wire_extensions_len(front, i);
            assert(es.take(i) =~= front.take(i));
            if i < front.len() {
                assert(front[i] == es[i]);
            } else {
                assert(front.take(i) =~= front);
            }
        }
    }
}

/// The encoding of a list that grew by one extension.
pub proof fn lemma_wire_extensions_push(es: Seq<ExtensionView>, e: ExtensionView)
    ensures
        wire_extensions(es.push(e)) == wire_extensions(es) + wire_extension(e),
{
    assert(es.push(e).drop_last() =~= es);
}

impl FileAttr {
    /// The flag word that goes before the fields.
    pub fn flags(&self) -> (flags: u32)
        ensures
            flags == attr_flags(self@),
    {
        let size: u32 = if self.size.is_some() {
            SSH_FILEXFER_ATTR_SIZE
        } else {
            0
        };
        let owner: u32 = if self.uid.is_some() && self.gid.is_some() {
            SSH_FILEXFER_ATTR_UIDGID
        } else {
            0
        };
        let perms: u32 = if self.perms.is_some() {
            SSH_FILEXFER_ATTR_PERMISSIONS
        } else {
            0
        };
        let times: u32 = if self.atime.is_some() && self.mtime.is_some() {
            SSH_FILEXFER_ATTR_ACMODTIME
        } else {
            0
        };
        let extended: u32 = if self.extensions.len() > 0 {
            SSH_FILEXFER_ATTR_EXTENDED
        } else {
            0
        };
        size | owner | perms | times | extended
    }
}

/// Appending is associative.
pub proof fn lemma_concat_assoc(a: Seq<u8>, b: Seq<u8>, c: Seq<u8>)
    ensures
        (a + b) + c == a + (b + c),
{
    assert((a + b) + c =~= a + (b + c));
}

impl FileAttr {
    /// Appends the flag word and the fields that come before the extensions.
    fn write_fields(&self, w: &mut Vec<u8>)
        ensures
            final(w)@ == old(w)@ + wire_attr_fields(self@),
    {
        let ghost a = self@;
        let ghost start = w@;
        let flags = self.flags();
        flags.write_to(w);
        let ghost part0 = be32(attr_flags(a));
        self.size.write_to(w);
        let ghost part1 = part0 + wire_opt_u64(a.size);
        proof {
            lemma_concat_assoc(start, part0, wire_opt_u64(a.size));
        }
        self.uid.write_to(w);
        let ghost part2 = part1 + wire_opt_u32(a.uid);
        proof {
            lemma_concat_assoc(start, part1, wire_opt_u32(a.uid));
        }
        self.gid.write_to(w);
        let ghost part3 = part2 + wire_opt_u32(a.gid);
        proof {
            lemma_concat_assoc(start, part2, wire_opt_u32(a.gid));
        }
        self.perms.write_to(w);
        let ghost part4 = part3 + wire_opt_u32(a.perms);
        proof {
            lemma_concat_assoc(start, part3, wire_opt_u32(a.perms));
        }
        self.atime.write_to(w);
        let ghost part5 = part4 + wire_opt_u32(a.atime);
        proof {
            lemma_concat_assoc(start, part4, wire_opt_u32(a.atime));
        }
        self.mtime.write_to(w);
        proof {
            lemma_concat_assoc(start, part5, wire_opt_u32(a.mtime));
        }
    }

    /// Appends the count and the list of extensions, where there are any.
    fn write_extension_block(&self, w: &mut Vec<u8>)
        ensures
            final(w)@ == old(w)@ + wire_extension_block(self@.extensions),
    {
        let ghost views = extension_views(self.extensions@);
        let ghost start = w@;
        if self.extensions.len() > 0 {
            let count = #[verifier::truncate]
            (self.extensions.len() as u32);
            count.write_to(w);
            let mut i: usize = 0;
            assert(wire_extensions(views.take(0)) =~= Seq::<u8>::empty());
            assert(w@ =~= start + (be32(count) + wire_extensions(views.take(0))));
            while i < self.extensions.len()
                invariant
                    i <= self.extensions@.len(),
                    views == extension_views(self.extensions@),
                    w@ == start + (be32(count) + wire_extensions(views.take(i as int))),
                decreases self.extensions@.len() - i,
            {
                proof {
                    lemma_wire_extensions_push(views.take(i as int), views[i as int]);
                    assert(views.take(i as int).push(views[i as int]) =~= views.take(i + 1));
                    lemma_concat_assoc(
                        be32(count),
                        wire_extensions(views.take(i as int)),
                        wire_extension(views[i as int]),
                    );
                    lemma_concat_assoc(
                        start,
                        be32(count) + wire_extensions(views.take(i as int)),
                        wire_extension(views[i as int]),
                    );
                }
                self.extensions[i].write_to(w);
                i += 1;
            }
            assert(views.take(i as int) =~= views);
        } else {
            assert(w@ =~= start + Seq::<u8>::empty());
        }
    }
}

impl Sendable for FileAttr {
    open spec fn wire(&self) -> Seq<u8> {
        wire_attrs(self@)
    }

    fn write_to(&self, w: &mut Vec<u8>) {
        self.write_fields(w);
        self.write_extension_block(w);
        proof {
            lemma_concat_assoc(
                old(w)@,
                wire_attr_fields(self@),
                wire_extension_block(self@.extensions),
            );
        }
    }

    fn size(&self) -> (n: u32) {
        let ghost views = extension_views(self.extensions@);
        let mut n: u32 = 4 + self.size.size() + self.uid.size() + self.gid.size()
            + self.perms.size() + self.atime.size() + self.mtime.size();
        if self.extensions.len() > 0 {
            n += 4;
            let ghost head = n;
            let mut i: usize = 0;
            assert(wire_extensions(views.take(0)) =~= Seq::<u8>::empty());
            while i < self.extensions.len()
                invariant
                    i <= self.extensions@.len(),
                    views == extension_views(self.extensions@),
                    head + wire_extensions(views).len() <= u32::MAX,
                    n == head + wire_extensions(views.take(i as int)).len(),
                decreases self.extensions@.len() - i,
            {
                proof {
                    lemma_wire_extensions_len(views, i as int);
                    lemma_wire_extensions_push(views.take(i as int), views[i as int]);
                    assert(views.take(i as int).push(views[i as int]) =~= views.take(i + 1));
                }
                n += self.extensions[i].size();
                i += 1;
            }
            assert(views.take(i as int) =~= views);
        }
        n
    }
}

impl Receivable for FileAttr {
    open spec fn parse(s: Seq<u8>) -> Result<(FileAttrView, Seq<u8>), Error> {
        parse_attrs(s)
    }

    fn recv(r: &mut &[u8]) -> (res: Result<FileAttr, Error>) {
        let mut cur: &[u8] = *r;
        let flags = u32::recv(&mut cur)?;
        let size = if flags & SSH_FILEXFER_ATTR_SIZE != 0 {
            Option::<u64>::recv(&mut cur)?
        } else {
            None
        };
        let uid = if flags & SSH_FILEXFER_ATTR_UIDGID != 0 {
            Option::<u32>::recv(&mut cur)?
        } else {
            None
        };
        let gid = if flags & SSH_FILEXFER_ATTR_UIDGID != 0 {
            Option::<u32>::recv(&mut cur)?
        } else {
            None
        };
        let perms = if flags & SSH_FILEXFER_ATTR_PERMISSIONS != 0 {
            Option::<u32>::recv(&mut cur)?
        } else {
            None
        };
        let atime = if flags & SSH_FILEXFER_ATTR_ACMODTIME != 0 {
            Option::<u32>::recv(&mut cur)?
        } else {
            None
        };
        let mtime = if flags & SSH_FILEXFER_ATTR_ACMODTIME != 0 {
            Option::<u32>::recv(&mut cur)?
        } else {
            None
        };
        let extensions = if flags & SSH_FILEXFER_ATTR_EXTENDED != 0 {
            let count = u32::recv(&mut cur)?;
            recv_extensions(&mut cur, count)?
        } else {
            let none: Vec<Extension> = Vec::new();
            assert(extension_views(none@) =~= Seq::empty());
            none
        };
        *r = cur;
        Ok(FileAttr { size, uid, gid, perms, atime, mtime, extensions })
    }
}

/// The encoding of a list with one more extension in front.
pub proof fn lemma_wire_extensions_front(e: ExtensionView, rest: Seq<ExtensionView>)
    ensures
        wire_extensions(seq![e] + rest) == wire_extension(e) + wire_extensions(rest),
    decreases rest.len(),
{
    let all = seq![e] + rest;
    if rest.len() == 0 {
        assert(all.drop_last() =~= Seq::<ExtensionView>::empty());
        assert(wire_extensions(all.drop_last()) =~= Seq::<u8>::empty());
        assert(wire_extensions(all) =~= wire_extension(e) + wire_extensions(rest));
    } else {
        lemma_wire_extensions_front(e, rest.drop_last());
        assert(all.drop_last() =~= seq![e] + rest.drop_last());
        assert(all.last() == rest.last());
        lemma_concat_assoc(
            wire_extension(e),
            wire_extensions(rest.drop_last()),
            wire_extension(rest.last()),
        );
    }
}

/// An extension that was written is read back, whatever follows it.
pub proof fn lemma_extension_round_trip(e: ExtensionView, tail: Seq<u8>)
    requires
        e.name.len() <= u32::MAX,
        e.data.len() <= u32::MAX,
    ensures
        parse_extension(wire_extension(e) + tail) == Ok::<(ExtensionView, Seq<u8>), Error>(
            (e, tail),
        ),
{
    lemma_bytes_round_trip(e.name, wire_bytes(e.data) + tail);
    lemma_bytes_round_trip(e.data, tail);
    lemma_concat_assoc(wire_bytes(e.name), wire_bytes(e.data), tail);
}

/// A list of extensions that was written is read back in the same order,
/// whatever follows it.
pub proof fn lemma_extensions_round_trip(es: Seq<ExtensionView>, tail: Seq<u8>)
    requires
        extensions_fit(es),
    ensures
        parse_extensions(wire_extensions(es) + tail, es.len()) == Ok::<
            (Seq<ExtensionView>, Seq<u8>),
            Error,
        >((es, tail)),
    decreases es.len(),
{
    if es.len() == 0 {
        assert(wire_extensions(es) + tail =~= tail);
        assert(es =~= Seq::<ExtensionView>::empty());
    } else {
        let e = es[0];
        let rest = es.drop_first();
        assert(es =~= seq![e] + rest);
        assert(extensions_fit(rest)) by {
            assert forall|i: int| 0 <= i < rest.len() implies (#[trigger] rest[i]).name.len()
                <= u32::MAX && rest[i].data.len() <= u32::MAX by {
                assert(rest[i] == es[i + 1]);
            }
        }
        lemma_wire_extensions_front(e, rest);
        lemma_concat_assoc(wire_extension(e), wire_extensions(rest), tail);
        lemma_extension_round_trip(e, wire_extensions(rest) + tail);
        lemma_extensions_round_trip(rest, tail);
    }
}

/// Each flag of the flag word is set exactly where its part is present.
pub proof fn lemma_flag_word_bits(size: bool, owner: bool, perms: bool, times: bool, extended: bool)
    ensures
        (flag_word(size, owner, perms, times, extended) & SSH_FILEXFER_ATTR_SIZE != 0) == size,
        (flag_word(size, owner, perms, times, extended) & SSH_FILEXFER_ATTR_UIDGID != 0) == owner,
        (flag_word(size, owner, perms, times, extended) & SSH_FILEXFER_ATTR_PERMISSIONS != 0)
            == perms,
        (flag_word(size, owner, perms, times, extended) & SSH_FILEXFER_ATTR_ACMODTIME != 0)
            == times,
        (flag_word(size, owner, perms, times, extended) & SSH_FILEXFER_ATTR_EXTENDED != 0)
            == extended,
{
    let a: u32 = if size { 0x1 } else { 0 };
    let b: u32 = if owner { 0x2 } else { 0 };
    let c: u32 = if perms { 0x4 } else { 0 };
    let d: u32 = if times { 0x8 } else { 0 };
    let e: u32 = if extended { 0x8000_0000 } else { 0 };
    assert(((a | b | c | d | e) & 0x1 != 0) == (a == 0x1) && ((a | b | c | d | e) & 0x2 != 0) == (b
        == 0x2) && ((a | b | c | d | e) & 0x4 != 0) == (c == 0x4) && ((a | b | c | d | e) & 0x8
        != 0) == (d == 0x8) && ((a | b | c | d | e) & 0x8000_0000 != 0) == (e == 0x8000_0000))
        by (bit_vector)
        requires
            a == 0 || a == 0x1,
            b == 0 || b == 0x2,
            c == 0 || c == 0x4,
            d == 0 || d == 0x8,
            e == 0 || e == 0x8000_0000,
    ;
}

/// A number that may be absent is read back as it was written.
pub proof fn lemma_opt_u32_round_trip(v: Option<u32>, tail: Seq<u8>)
    ensures
        parse_opt_u32(v is Some, wire_opt_u32(v) + tail) == Ok::<(Option<u32>, Seq<u8>), Error>(
            (v, tail),
        ),
{
    match v {
        Some(n) => lemma_u32_round_trip(n, tail),
        None => {
            assert(wire_opt_u32(v) + tail =~= tail);
        },
    }
}

/// A 64-bit number that may be absent is read back as it was written.
pub proof fn lemma_opt_u64_round_trip(v: Option<u64>, tail: Seq<u8>)
    ensures
        parse_opt_u64(v is Some, wire_opt_u64(v) + tail) == Ok::<(Option<u64>, Seq<u8>), Error>(
            (v, tail),
        ),
{
    match v {
        Some(n) => lemma_u64_round_trip(n, tail),
        None => {
            assert(wire_opt_u64(v) + tail =~= tail);
        },
    }
}

/// The extensions of an attribute block are read back as they were written.
pub proof fn lemma_extension_block_round_trip(es: Seq<ExtensionView>, tail: Seq<u8>)
    requires
        extensions_fit(es),
        es.len() <= u32::MAX,
    ensures
        parse_extension_block(es.len() > 0, wire_extension_block(es) + tail) == Ok::<
            (Seq<ExtensionView>, Seq<u8>),
            Error,
        >((es, tail)),
{
    if es.len() > 0 {
        lemma_u32_round_trip(es.len() as u32, wire_extensions(es) + tail);
        lemma_concat_assoc(be32(es.len() as u32), wire_extensions(es), tail);
        lemma_extensions_round_trip(es, tail);
    } else {
        assert(wire_extension_block(es) + tail =~= tail);
        assert(es =~= Seq::<ExtensionView>::empty());
    }
}

/// What follows the flag word when the block `a` stands before `tail`.
pub open spec fn after_flags(a: FileAttrView, tail: Seq<u8>) -> Seq<u8> {
    wire_opt_u64(a.size) + (wire_opt_u32(a.uid) + (wire_opt_u32(a.gid) + (wire_opt_u32(a.perms)
        + (wire_opt_u32(a.atime) + (wire_opt_u32(a.mtime) + (wire_extension_block(a.extensions)
        + tail))))))
}

/// An attribute block before `tail`, taken apart field by field.
pub proof fn lemma_wire_attrs_parts(a: FileAttrView, tail: Seq<u8>)
    ensures
        wire_attrs(a) + tail == be32(attr_flags(a)) + after_flags(a, tail),
{
    let t6 = wire_extension_block(a.extensions) + tail;
    let t5 = wire_opt_u32(a.mtime) + t6;
    let t4 = wire_opt_u32(a.atime) + t5;
    let t3 = wire_opt_u32(a.perms) + t4;
    let t2 = wire_opt_u32(a.gid) + t3;
    let t1 = wire_opt_u32(a.uid) + t2;
    let f0 = be32(attr_flags(a));
    let f1 = f0 + wire_opt_u64(a.size);
    let f2 = f1 + wire_opt_u32(a.uid);
    let f3 = f2 + wire_opt_u32(a.gid);
    let f4 = f3 + wire_opt_u32(a.perms);
    let f5 = f4 + wire_opt_u32(a.atime);
    lemma_concat_assoc(wire_attr_fields(a), wire_extension_block(a.extensions), tail);
    lemma_concat_assoc(f5, wire_opt_u32(a.mtime), t6);
    lemma_concat_assoc(f4, wire_opt_u32(a.atime), t5);
    lemma_concat_assoc(f3, wire_opt_u32(a.perms), t4);
    lemma_concat_assoc(f2, wire_opt_u32(a.gid), t3);
    lemma_concat_assoc(f1, wire_opt_u32(a.uid), t2);
    lemma_concat_assoc(f0, wire_opt_u64(a.size), t1);
}

/// Reading field after field gives the whole block.
proof fn lemma_attr_body_steps(
    flags: u32,
    a: FileAttrView,
    s0: Seq<u8>,
    s1: Seq<u8>,
    s2: Seq<u8>,
    s3: Seq<u8>,
    s4: Seq<u8>,
    s5: Seq<u8>,
    s6: Seq<u8>,
    s7: Seq<u8>,
)
    requires
        parse_opt_u64(flags & SSH_FILEXFER_ATTR_SIZE != 0, s0) == Ok::<
            (Option<u64>, Seq<u8>),
            Error,
        >((a.size, s1)),
        parse_opt_u32(flags & SSH_FILEXFER_ATTR_UIDGID != 0, s1) == Ok::<
            (Option<u32>, Seq<u8>),
            Error,
        >((a.uid, s2)),
        parse_opt_u32(flags & SSH_FILEXFER_ATTR_UIDGID != 0, s2) == Ok::<
            (Option<u32>, Seq<u8>),
            Error,
        >((a.gid, s3)),
        parse_opt_u32(flags & SSH_FILEXFER_ATTR_PERMISSIONS != 0, s3) == Ok::<
            (Option<u32>, Seq<u8>),
            Error,
        >((a.perms, s4)),
        parse_opt_u32(flags & SSH_FILEXFER_ATTR_ACMODTIME != 0, s4) == Ok::<
            (Option<u32>, Seq<u8>),
            Error,
        >((a.atime, s5)),
        parse_opt_u32(flags & SSH_FILEXFER_ATTR_ACMODTIME != 0, s5) == Ok::<
            (Option<u32>, Seq<u8>),
            Error,
        >((a.mtime, s6)),
        parse_extension_block(flags & SSH_FILEXFER_ATTR_EXTENDED != 0, s6) == Ok::<
            (Seq<ExtensionView>, Seq<u8>),
            Error,
        >((a.extensions, s7)),
    ensures
        parse_attr_body(flags, s0) == Ok::<(FileAttrView, Seq<u8>), Error>((a, s7)),
{
}

/// The fields and extensions of `a` are read back under the flag word of `a`.
proof fn lemma_attr_body_round_trip(a: FileAttrView, tail: Seq<u8>)
    requires
        a.paired(),
        extensions_fit(a.extensions),
        a.extensions.len() <= u32::MAX,
    ensures
        parse_attr_body(attr_flags(a), after_flags(a, tail)) == Ok::<
            (FileAttrView, Seq<u8>),
            Error,
        >((a, tail)),
{
    let flags = attr_flags(a);
    let t6 = wire_extension_block(a.extensions) + tail;
    let t5 = wire_opt_u32(a.mtime) + t6;
    let t4 = wire_opt_u32(a.atime) + t5;
    let t3 = wire_opt_u32(a.perms) + t4;
    let t2 = wire_opt_u32(a.gid) + t3;
    let t1 = wire_opt_u32(a.uid) + t2;
    let t0 = wire_opt_u64(a.size) + t1;
    lemma_flag_word_bits(
        a.size is Some,
        a.uid is Some && a.gid is Some,
        a.perms is Some,
        a.atime is Some && a.mtime is Some,
        a.extensions.len() > 0,
    );
    lemma_opt_u64_round_trip(a.size, t1);
    lemma_opt_u32_round_trip(a.uid, t2);
    lemma_opt_u32_round_trip(a.gid, t3);
    lemma_opt_u32_round_trip(a.perms, t4);
    lemma_opt_u32_round_trip(a.atime, t5);
    lemma_opt_u32_round_trip(a.mtime, t6);
    lemma_extension_block_round_trip(a.extensions, tail);
    lemma_attr_body_steps(flags, a, t0, t1, t2, t3, t4, t5, t6, tail);
}

/// Attributes that were written are read back: what was absent stays
/// absent, and the extensions keep their order. This holds of attributes
/// whose owner and group, and whose two times, are present or absent
/// together.
pub proof fn lemma_attrs_round_trip(a: FileAttrView, tail: Seq<u8>)
    requires
        a.paired(),
        extensions_fit(a.extensions),
        a.extensions.len() <= u32::MAX,
    ensures
        parse_attrs(wire_attrs(a) + tail) == Ok::<(FileAttrView, Seq<u8>), Error>((a, tail)),
{
    lemma_wire_attrs_parts(a, tail);
    lemma_u32_round_trip(attr_flags(a), after_flags(a, tail));
    lemma_attr_body_round_trip(a, tail);
}

/// Attributes that were read have owner and group together, and the two
/// times together: one flag stands for each pair.
pub proof fn lemma_parsed_attrs_are_paired(s: Seq<u8>)
    ensures
        parse_attrs(s) is Ok ==> parse_attrs(s)->Ok_0.0.paired(),
{
}

} // verus!
