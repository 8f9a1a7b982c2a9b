//! The messages that a client sends.

use crate::attrs::{
    Extension, FileAttr, extension_views, lemma_concat_assoc, lemma_wire_extensions_len,
    lemma_wire_extensions_push, wire_attrs, wire_extension, wire_extensions,
};
use crate::format::{
    Field, extension_fields, lemma_extensions_are_fields, lemma_wire_of_one_field,
    lemma_wire_of_three_fields, lemma_wire_of_two_fields, wire_field, wire_fields,
};
use crate::wire::{Sendable, be32, be64, wire_bytes};
use vstd::prelude::*;

verus! {

/// The type byte of the message that opens a session.
pub const SSH_FXP_INIT: u8 = 1;

/// The type byte of `FxpOpen`.
pub const SSH_FXP_OPEN: u8 = 3;

/// The type byte of `FxpClose`.
pub const SSH_FXP_CLOSE: u8 = 4;

/// The type byte of `FxpRead`.
pub const SSH_FXP_READ: u8 = 5;

/// The type byte of `FxpWrite`.
pub const SSH_FXP_WRITE: u8 = 6;

/// The type byte of `FxpLStat`.
pub const SSH_FXP_LSTAT: u8 = 7;

/// The type byte of `FxpFStat`.
pub const SSH_FXP_FSTAT: u8 = 8;

/// The type byte of `FxpSetStat`.
pub const SSH_FXP_SETSTAT: u8 = 9;

/// The type byte of `FxpFSetStat`.
pub const SSH_FXP_FSETSTAT: u8 = 10;

/// The type byte of `FxpOpenDir`.
pub const SSH_FXP_OPENDIR: u8 = 11;

/// The type byte of `FxpReadDir`.
pub const SSH_FXP_READDIR: u8 = 12;

/// The type byte of `FxpRemove`.
pub const SSH_FXP_REMOVE: u8 = 13;

/// The type byte of `FxpMkDir`.
pub const SSH_FXP_MKDIR: u8 = 14;

/// The type byte of `FxpRmDir`.
pub const SSH_FXP_RMDIR: u8 = 15;

/// The type byte of `FxpRealPath`.
pub const SSH_FXP_REALPATH: u8 = 16;

/// The type byte of `FxpStat`.
pub const SSH_FXP_STAT: u8 = 17;

/// The type byte of `FxpRename`.
pub const SSH_FXP_RENAME: u8 = 18;

/// The type byte of `FxpReadLink`.
pub const SSH_FXP_READLINK: u8 = 19;

/// A message that a client may send: it has a type byte, and its encoding
/// is that of its fields, one after the other.
pub trait Request: Sendable {
    /// The type byte that announces this kind of message.
    spec fn type_byte() -> u8;

    /// The fields of this message, in their order on the wire.
    spec fn fields(&self) -> Seq<Field>;

    /// The type byte that announces this kind of message.
    fn msg_type() -> (t: u8)
        ensures
            t == Self::type_byte(),
    ;

    /// The encoding of the message is that of its fields.
    proof fn lemma_wire_is_fields(&self)
        ensures
            self.wire() == wire_fields(self.fields()),
    ;
}

/// Opens a session: the version that the client speaks, and its extensions.
#[derive(Debug, Clone, PartialEq, Eq)]
pub struct FxpInit {
    pub version: u32,
    pub extensions: Vec<Extension>,
}

impl Request for FxpInit {
    open spec fn type_byte() -> u8 {
        SSH_FXP_INIT
    }

    open spec fn fields(&self) -> Seq<Field> {
        seq![Field::U32(self.version)] + extension_fields(extension_views(self.extensions@))
    }

    fn msg_type() -> (t: u8) {
        SSH_FXP_INIT
    }

    proof fn lemma_wire_is_fields(&self) {
        reveal(wire_field);
        let rest = extension_fields(extension_views(self.extensions@));
        lemma_extensions_are_fields(extension_views(self.extensions@));
        assert(self.fields().drop_first() =~= rest);
    }
}

impl Sendable for FxpInit {
    open spec fn wire(&self) -> Seq<u8> {
        be32(self.version) + wire_extensions(extension_views(self.extensions@))
    }

    fn write_to(&self, w: &mut Vec<u8>) {
        let ghost views = extension_views(self.extensions@);
        let ghost start = w@;
        self.version.write_to(w);
        let mut i: usize = 0;
        assert(wire_extensions(views.take(0)) =~= Seq::<u8>::empty());
        assert(w@ =~= start + (be32(self.version) + wire_extensions(views.take(0))));
        while i < self.extensions.len()
            invariant
                i <= self.extensions@.len(),
                views == extension_views(self.extensions@),
                w@ == start + (be32(self.version) + wire_extensions(views.take(i as int))),
            decreases self.extensions@.len() - i,
        {
            proof {
                lemma_wire_extensions_push(views.take(i as int), views[i as int]);
                assert(views.take(i as int).push(views[i as int]) =~= views.take(i + 1));
                lemma_concat_assoc(
                    be32(self.version),
                    wire_extensions(views.take(i as int)),
                    wire_extension(views[i as int]),
                );
                lemma_concat_assoc(
                    start,
                    be32(self.version) + wire_extensions(views.take(i as int)),
                    wire_extension(views[i as int]),
                );
            }
            self.extensions[i].write_to(w);
            i += 1;
        }
        assert(views.take(i as int) =~= views);
    }

    fn size(&self) -> (n: u32) {
        let ghost views = extension_views(self.extensions@);
        let mut n: u32 = 4;
        let mut i: usize = 0;
        assert(wire_extensions(views.take(0)) =~= Seq::<u8>::empty());
        while i < self.extensions.len()
            invariant
                i <= self.extensions@.len(),
                views == extension_views(self.extensions@),
                4 + wire_extensions(views).len() <= u32::MAX,
                n == 4 + wire_extensions(views.take(i as int)).len(),
            decreases self.extensions@.len() - i,
        {
            proof {
                lemma_wire_extensions_len(views, i as int);
                lemma_wire_extensions_push(views.take(i as int), views[i as int]);
                assert(views.take(i as int).push(views[i as int]) =~= views.take(i + 1));
            }
            n += self.extensions[i].size();
            i += 1;
        }
        assert(views.take(i as int) =~= views);
        n
    }
}

/// Asks the server to open a file.
#[derive(Debug, Clone, PartialEq, Eq)]
pub struct FxpOpen {
    pub filename: Vec<u8>,
    pub pflags: u32,
    pub attrs: FileAttr,
}

impl Request for FxpOpen {
    open spec fn type_byte() -> u8 {
        SSH_FXP_OPEN
    }

    open spec fn fields(&self) -> Seq<Field> {
        seq![Field::Bytes(self.filename@), Field::U32(self.pflags), Field::Attrs(self.attrs@)]
    }

    fn msg_type() -> (t: u8) {
        SSH_FXP_OPEN
    }

    proof fn lemma_wire_is_fields(&self) {
        reveal(wire_field);
        lemma_wire_of_three_fields(
            Field::Bytes(self.filename@),
            Field::U32(self.pflags),
            Field::Attrs(self.attrs@),
        );
    }
}

impl Sendable for FxpOpen {
    open spec fn wire(&self) -> Seq<u8> {
        wire_bytes(self.filename@) + be32(self.pflags) + wire_attrs(self.attrs@)
    }

    fn write_to(&self, w: &mut Vec<u8>) {
        self.filename.write_to(w);
        self.pflags.write_to(w);
        proof {
            lemma_concat_assoc(old(w)@, wire_bytes(self.filename@), be32(self.pflags));
        }
        self.attrs.write_to(w);
        proof {
            lemma_concat_assoc(
                old(w)@,
                wire_bytes(self.filename@) + be32(self.pflags),
                wire_attrs(self.attrs@),
            );
        }
    }

    fn size(&self) -> (n: u32) {
        self.filename.size() + self.pflags.size() + self.attrs.size()
    }
}

/// Gives a handle back to the server.
#[derive(Debug, Clone, PartialEq, Eq)]
pub struct FxpClose {
    pub handle: Vec<u8>,
}

impl Request for FxpClose {
    open spec fn type_byte() -> u8 {
        SSH_FXP_CLOSE
    }

    open spec fn fields(&self) -> Seq<Field> {
        seq![Field::Bytes(self.handle@)]
    }

    fn msg_type() -> (t: u8) {
        SSH_FXP_CLOSE
    }

    proof fn lemma_wire_is_fields(&self) {
        reveal(wire_field);
        lemma_wire_of_one_field(Field::Bytes(self.handle@));
    }
}

impl Sendable for FxpClose {
    open spec fn wire(&self) -> Seq<u8> {
        wire_bytes(self.handle@)
    }

    fn write_to(&self, w: &mut Vec<u8>) {
        self.handle.write_to(w);
    }

    fn size(&self) -> (n: u32) {
        self.handle.size()
    }
}

/// Asks for up to `len` bytes of a file, from `offset` on.
#[derive(Debug, Clone, PartialEq, Eq)]
pub struct FxpRead {
    pub handle: Vec<u8>,
    pub offset: u64,
    pub len: u32,
}

impl Request for FxpRead {
    open spec fn type_byte() -> u8 {
        SSH_FXP_READ
    }

    open spec fn fields(&self) -> Seq<Field> {
        seq![Field::Bytes(self.handle@), Field::U64(self.offset), Field::U32(self.len)]
    }

    fn msg_type() -> (t: u8) {
        SSH_FXP_READ
    }

    proof fn lemma_wire_is_fields(&self) {
        reveal(wire_field);
        lemma_wire_of_three_fields(
            Field::Bytes(self.handle@),
            Field::U64(self.offset),
            Field::U32(self.len),
        );
    }
}

impl Sendable for FxpRead {
    open spec fn wire(&self) -> Seq<u8> {
        wire_bytes(self.handle@) + be64(self.offset) + be32(self.len)
    }

    fn write_to(&self, w: &mut Vec<u8>) {
        self.handle.write_to(w);
        self.offset.write_to(w);
        proof {
            lemma_concat_assoc(old(w)@, wire_bytes(self.handle@), be64(self.offset));
        }
        self.len.write_to(w);
        proof {
            lemma_concat_assoc(
                old(w)@,
                wire_bytes(self.handle@) + be64(self.offset),
                be32(self.len),
            );
        }
    }

    fn size(&self) -> (n: u32) {
        self.handle.size() + self.offset.size() + self.len.size()
    }
}

/// Asks the server to write `data` into a file at `offset`.
#[derive(Debug, Clone, PartialEq, Eq)]
pub struct FxpWrite {
    pub handle: Vec<u8>,
    pub offset: u64,
    pub data: Vec<u8>,
}

impl Request for FxpWrite {
    open spec fn type_byte() -> u8 {
        SSH_FXP_WRITE
    }

    open spec fn fields(&self) -> Seq<Field> {
        seq![Field::Bytes(self.handle@), Field::U64(self.offset), Field::Bytes(self.data@)]
    }

    fn msg_type() -> (t: u8) {
        SSH_FXP_WRITE
    }

    proof fn lemma_wire_is_fields(&self) {
        reveal(wire_field);
        lemma_wire_of_three_fields(
            Field::Bytes(self.handle@),
            Field::U64(self.offset),
            Field::Bytes(self.data@),
        );
    }
}

impl Sendable for FxpWrite {
    open spec fn wire(&self) -> Seq<u8> {
        wire_bytes(self.handle@) + be64(self.offset) + wire_bytes(self.data@)
    }

    fn write_to(&self, w: &mut Vec<u8>) {
        self.handle.write_to(w);
        self.offset.write_to(w);
        proof {
            lemma_concat_assoc(old(w)@, wire_bytes(self.handle@), be64(self.offset));
        }
        self.data.write_to(w);
        proof {
            lemma_concat_assoc(
                old(w)@,
                wire_bytes(self.handle@) + be64(self.offset),
                wire_bytes(self.data@),
            );
        }
    }

    fn size(&self) -> (n: u32) {
        self.handle.size() + self.offset.size() + self.data.size()
    }
}

/// Asks for the attributes of a path, without following a link.
#[derive(Debug, Clone, PartialEq, Eq)]
pub struct FxpLStat {
    pub path: Vec<u8>,
}

impl Request for FxpLStat {
    open spec fn type_byte() -> u8 {
        SSH_FXP_LSTAT
    }

    open spec fn fields(&self) -> Seq<Field> {
        seq![Field::Bytes(self.path@)]
    }

    fn msg_type() -> (t: u8) {
        SSH_FXP_LSTAT
    }

    proof fn lemma_wire_is_fields(&self) {
        reveal(wire_field);
        lemma_wire_of_one_field(Field::Bytes(self.path@));
    }
}

impl Sendable for FxpLStat {
    open spec fn wire(&self) -> Seq<u8> {
        wire_bytes(self.path@)
    }

    fn write_to(&self, w: &mut Vec<u8>) {
        self.path.write_to(w);
    }

    fn size(&self) -> (n: u32) {
        self.path.size()
    }
}

/// Asks for the attributes of an open file.
#[derive(Debug, Clone, PartialEq, Eq)]
pub struct FxpFStat {
    pub handle: Vec<u8>,
}

impl Request for FxpFStat {
    open spec fn type_byte() -> u8 {
        SSH_FXP_FSTAT
    }

    open spec fn fields(&self) -> Seq<Field> {
        seq![Field::Bytes(self.handle@)]
    }

    fn msg_type() -> (t: u8) {
        SSH_FXP_FSTAT
    }

    proof fn lemma_wire_is_fields(&self) {
        reveal(wire_field);
        lemma_wire_of_one_field(Field::Bytes(self.handle@));
    }
}

impl Sendable for FxpFStat {
    open spec fn wire(&self) -> Seq<u8> {
        wire_bytes(self.handle@)
    }

    fn write_to(&self, w: &mut Vec<u8>) {
        self.handle.write_to(w);
    }

    fn size(&self) -> (n: u32) {
        self.handle.size()
    }
}

/// Asks the server to change the attributes of a path.
#[derive(Debug, Clone, PartialEq, Eq)]
pub struct FxpSetStat {
    pub path: Vec<u8>,
    pub attrs: FileAttr,
}

impl Request for FxpSetStat {
    open spec fn type_byte() -> u8 {
        SSH_FXP_SETSTAT
    }

    open spec fn fields(&self) -> Seq<Field> {
        seq![Field::Bytes(self.path@), Field::Attrs(self.attrs@)]
    }

    fn msg_type() -> (t: u8) {
        SSH_FXP_SETSTAT
    }

    proof fn lemma_wire_is_fields(&self) {
        reveal(wire_field);
        lemma_wire_of_two_fields(Field::Bytes(self.path@), Field::Attrs(self.attrs@));
    }
}

impl Sendable for FxpSetStat {
    open spec fn wire(&self) -> Seq<u8> {
        wire_bytes(self.path@) + wire_attrs(self.attrs@)
    }

    fn write_to(&self, w: &mut Vec<u8>) {
        self.path.write_to(w);
        self.attrs.write_to(w);
        proof {
            lemma_concat_assoc(old(w)@, wire_bytes(self.path@), wire_attrs(self.attrs@));
        }
    }

    fn size(&self) -> (n: u32) {
        self.path.size() + self.attrs.size()
    }
}

/// Asks the server to change the attributes of an open file.
#[derive(Debug, Clone, PartialEq, Eq)]
pub struct FxpFSetStat {
    pub handle: Vec<u8>,
    pub attrs: FileAttr,
}

impl Request for FxpFSetStat {
    open spec fn type_byte() -> u8 {
        SSH_FXP_FSETSTAT
    }

    open spec fn fields(&self) -> Seq<Field> {
        seq![Field::Bytes(self.handle@), Field::Attrs(self.attrs@)]
    }

    fn msg_type() -> (t: u8) {
        SSH_FXP_FSETSTAT
    }

    proof fn lemma_wire_is_fields(&self) {
        reveal(wire_field);
        lemma_wire_of_two_fields(Field::Bytes(self.handle@), Field::Attrs(self.attrs@));
    }
}

impl Sendable for FxpFSetStat {
    open spec fn wire(&self) -> Seq<u8> {
        wire_bytes(self.handle@) + wire_attrs(self.attrs@)
    }

    fn write_to(&self, w: &mut Vec<u8>) {
        self.handle.write_to(w);
        self.attrs.write_to(w);
        proof {
            lemma_concat_assoc(old(w)@, wire_bytes(self.handle@), wire_attrs(self.attrs@));
        }
    }

    fn size(&self) -> (n: u32) {
        self.handle.size() + self.attrs.size()
    }
}

/// Asks the server to open a directory for listing.
#[derive(Debug, Clone, PartialEq, Eq)]
pub struct FxpOpenDir {
    pub path: Vec<u8>,
}

impl Request for FxpOpenDir {
    open spec fn type_byte() -> u8 {
        SSH_FXP_OPENDIR
    }

    open spec fn fields(&self) -> Seq<Field> {
        seq![Field::Bytes(self.path@)]
    }

    fn msg_type() -> (t: u8) {
        SSH_FXP_OPENDIR
    }

    proof fn lemma_wire_is_fields(&self) {
        reveal(wire_field);
        lemma_wire_of_one_field(Field::Bytes(self.path@));
    }
}

impl Sendable for FxpOpenDir {
    open spec fn wire(&self) -> Seq<u8> {
        wire_bytes(self.path@)
    }

    fn write_to(&self, w: &mut Vec<u8>) {
        self.path.write_to(w);
    }

    fn size(&self) -> (n: u32) {
        self.path.size()
    }
}

/// Asks for the next entries of an open directory.
#[derive(Debug, Clone, PartialEq, Eq)]
pub struct FxpReadDir {
    pub handle: Vec<u8>,
}

impl Request for FxpReadDir {
    open spec fn type_byte() -> u8 {
        SSH_FXP_READDIR
    }

    open spec fn fields(&self) -> Seq<Field> {
        seq![Field::Bytes(self.handle@)]
    }

    fn msg_type() -> (t: u8) {
        SSH_FXP_READDIR
    }

    proof fn lemma_wire_is_fields(&self) {
        reveal(wire_field);
        lemma_wire_of_one_field(Field::Bytes(self.handle@));
    }
}

impl Sendable for FxpReadDir {
    open spec fn wire(&self) -> Seq<u8> {
        wire_bytes(self.handle@)
    }

    fn write_to(&self, w: &mut Vec<u8>) {
        self.handle.write_to(w);
    }

    fn size(&self) -> (n: u32) {
        self.handle.size()
    }
}

/// Asks the server to remove a file.
#[derive(Debug, Clone, PartialEq, Eq)]
pub struct FxpRemove {
    pub filename: Vec<u8>,
}

impl Request for FxpRemove {
    open spec fn type_byte() -> u8 {
        SSH_FXP_REMOVE
    }

    open spec fn fields(&self) -> Seq<Field> {
        seq![Field::Bytes(self.filename@)]
    }

    fn msg_type() -> (t: u8) {
        SSH_FXP_REMOVE
    }

    proof fn lemma_wire_is_fields(&self) {
        reveal(wire_field);
        lemma_wire_of_one_field(Field::Bytes(self.filename@));
    }
}

impl Sendable for FxpRemove {
    open spec fn wire(&self) -> Seq<u8> {
        wire_bytes(self.filename@)
    }

    fn write_to(&self, w: &mut Vec<u8>) {
        self.filename.write_to(w);
    }

    fn size(&self) -> (n: u32) {
        self.filename.size()
    }
}

/// Asks the server to make a directory.
#[derive(Debug, Clone, PartialEq, Eq)]
pub struct FxpMkDir {
    pub path: Vec<u8>,
    pub attrs: FileAttr,
}

impl Request for FxpMkDir {
    open spec fn type_byte() -> u8 {
        SSH_FXP_MKDIR
    }

    open spec fn fields(&self) -> Seq<Field> {
        seq![Field::Bytes(self.path@), Field::Attrs(self.attrs@)]
    }

    fn msg_type() -> (t: u8) {
        SSH_FXP_MKDIR
    }

    proof fn lemma_wire_is_fields(&self) {
        reveal(wire_field);
        lemma_wire_of_two_fields(Field::Bytes(self.path@), Field::Attrs(self.attrs@));
    }
}

impl Sendable for FxpMkDir {
    open spec fn wire(&self) -> Seq<u8> {
        wire_bytes(self.path@) + wire_attrs(self.attrs@)
    }

    fn write_to(&self, w: &mut Vec<u8>) {
        self.path.write_to(w);
        self.attrs.write_to(w);
        proof {
            lemma_concat_assoc(old(w)@, wire_bytes(self.path@), wire_attrs(self.attrs@));
        }
    }

    fn size(&self) -> (n: u32) {
        self.path.size() + self.attrs.size()
    }
}

/// Asks the server to remove a directory.
#[derive(Debug, Clone, PartialEq, Eq)]
pub struct FxpRmDir {
    pub path: Vec<u8>,
}

impl Request for FxpRmDir {
    open spec fn type_byte() -> u8 {
        SSH_FXP_RMDIR
    }

    open spec fn fields(&self) -> Seq<Field> {
        seq![Field::Bytes(self.path@)]
    }

    fn msg_type() -> (t: u8) {
        SSH_FXP_RMDIR
    }

    proof fn lemma_wire_is_fields(&self) {
        reveal(wire_field);
        lemma_wire_of_one_field(Field::Bytes(self.path@));
    }
}

impl Sendable for FxpRmDir {
    open spec fn wire(&self) -> Seq<u8> {
        wire_bytes(self.path@)
    }

    fn write_to(&self, w: &mut Vec<u8>) {
        self.path.write_to(w);
    }

    fn size(&self) -> (n: u32) {
        self.path.size()
    }
}

/// Asks for the canonical form of a path.
#[derive(Debug, Clone, PartialEq, Eq)]
pub struct FxpRealPath {
    pub path: Vec<u8>,
}

impl Request for FxpRealPath {
    open spec fn type_byte() -> u8 {
        SSH_FXP_REALPATH
    }

    open spec fn fields(&self) -> Seq<Field> {
        seq![Field::Bytes(self.path@)]
    }

    fn msg_type() -> (t: u8) {
        SSH_FXP_REALPATH
    }

    proof fn lemma_wire_is_fields(&self) {
        reveal(wire_field);
        lemma_wire_of_one_field(Field::Bytes(self.path@));
    }
}

impl Sendable for FxpRealPath {
    open spec fn wire(&self) -> Seq<u8> {
        wire_bytes(self.path@)
    }

    fn write_to(&self, w: &mut Vec<u8>) {
        self.path.write_to(w);
    }

    fn size(&self) -> (n: u32) {
        self.path.size()
    }
}

/// Asks for the attributes of a path, following links.
#[derive(Debug, Clone, PartialEq, Eq)]
pub struct FxpStat {
    pub path: Vec<u8>,
}

impl Request for FxpStat {
    open spec fn type_byte() -> u8 {
        SSH_FXP_STAT
    }

    open spec fn fields(&self) -> Seq<Field> {
        seq![Field::Bytes(self.path@)]
    }

    fn msg_type() -> (t: u8) {
        SSH_FXP_STAT
    }

    proof fn lemma_wire_is_fields(&self) {
        reveal(wire_field);
        lemma_wire_of_one_field(Field::Bytes(self.path@));
    }
}

impl Sendable for FxpStat {
    open spec fn wire(&self) -> Seq<u8> {
        wire_bytes(self.path@)
    }

    fn write_to(&self, w: &mut Vec<u8>) {
        self.path.write_to(w);
    }

    fn size(&self) -> (n: u32) {
        self.path.size()
    }
}

/// Asks the server to rename a file.
#[derive(Debug, Clone, PartialEq, Eq)]
pub struct FxpRename {
    pub oldpath: Vec<u8>,
    pub newpath: Vec<u8>,
}

impl Request for FxpRename {
    open spec fn type_byte() -> u8 {
        SSH_FXP_RENAME
    }

    open spec fn fields(&self) -> Seq<Field> {
        seq![Field::Bytes(self.oldpath@), Field::Bytes(self.newpath@)]
    }

    fn msg_type() -> (t: u8) {
        SSH_FXP_RENAME
    }

    proof fn lemma_wire_is_fields(&self) {
        reveal(wire_field);
        lemma_wire_of_two_fields(Field::Bytes(self.oldpath@), Field::Bytes(self.newpath@));
    }
}

impl Sendable for FxpRename {
    open spec fn wire(&self) -> Seq<u8> {
        wire_bytes(self.oldpath@) + wire_bytes(self.newpath@)
    }

    fn write_to(&self, w: &mut Vec<u8>) {
        self.oldpath.write_to(w);
        self.newpath.write_to(w);
        proof {
            lemma_concat_assoc(old(w)@, wire_bytes(self.oldpath@), wire_bytes(self.newpath@));
        }
    }

    fn size(&self) -> (n: u32) {
        self.oldpath.size() + self.newpath.size()
    }
}

/// Asks where a symbolic link points.
#[derive(Debug, Clone, PartialEq, Eq)]
pub struct FxpReadLink {
    pub path: Vec<u8>,
}

impl Request for FxpReadLink {
    open spec fn type_byte() -> u8 {
        SSH_FXP_READLINK
    }

    open spec fn fields(&self) -> Seq<Field> {
        seq![Field::Bytes(self.path@)]
    }

    fn msg_type() -> (t: u8) {
        SSH_FXP_READLINK
    }

    proof fn lemma_wire_is_fields(&self) {
        reveal(wire_field);
        lemma_wire_of_one_field(Field::Bytes(self.path@));
    }
}

impl Sendable for FxpReadLink {
    open spec fn wire(&self) -> Seq<u8> {
        wire_bytes(self.path@)
    }

    fn write_to(&self, w: &mut Vec<u8>) {
        self.path.write_to(w);
    }

    fn size(&self) -> (n: u32) {
        self.path.size()
    }
}

} // verus!
