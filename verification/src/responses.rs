//! The messages that a server sends, and the decoder of one frame.

use crate::attrs::{
    Extension, ExtensionView, FileAttr, FileAttrView, extension_views, parse_attrs,
    parse_extension, prepend,
};
use crate::error::Error;
use crate::wire::{Receivable, be32, lemma_u32_round_trip, parse_bytes, parse_u32, parse_u8};
use vstd::prelude::*;
use vstd::slice::{slice_subrange, slice_to_vec};
use vstd::utf8::{decode_utf8, valid_utf8};

verus! {

/// The type byte of `FxpVersion`.
pub const SSH_FXP_VERSION: u8 = 2;

/// The type byte of `FxpStatus`.
pub const SSH_FXP_STATUS: u8 = 101;

/// The type byte of `FxpHandle`.
pub const SSH_FXP_HANDLE: u8 = 102;

/// The type byte of `FxpData`.
pub const SSH_FXP_DATA: u8 = 103;

/// The type byte of `FxpName`.
pub const SSH_FXP_NAME: u8 = 104;

/// The type byte of a reply that holds attributes.
pub const SSH_FXP_ATTRS: u8 = 105;

/// The status code for success.
pub const SSH_FX_OK: u32 = 0;

/// The status code for the end of a file or of a listing.
pub const SSH_FX_EOF: u32 = 1;

/// The status code for a path that does not exist.
pub const SSH_FX_NO_SUCH_FILE: u32 = 2;

/// The status code for a refusal for want of permission.
pub const SSH_FX_PERMISSION_DENIED: u32 = 3;

/// The status code for a failure of no particular kind.
pub const SSH_FX_FAILURE: u32 = 4;

/// The status code for a message that the server could not read.
pub const SSH_FX_BAD_MESSAGE: u32 = 5;

/// The status code for a client that has no connection.
pub const SSH_FX_NO_CONNECTION: u32 = 6;

/// The status code for a connection that was lost.
pub const SSH_FX_CONNECTION_LOST: u32 = 7;

/// The status code for an operation that the server does not offer.
pub const SSH_FX_OP_UNSUPPORTED: u32 = 8;

/// A message that a server may send: it has a type byte and can be read.
pub trait Response: Receivable {
    /// The type byte that announces this kind of message.
    spec fn type_byte() -> u8;

    /// The type byte that announces this kind of message.
    fn msg_type() -> (t: u8)
        ensures
            t == Self::type_byte(),
    ;
}

/// The server's answer to the opening message.
#[derive(Debug, Clone, PartialEq, Eq)]
pub struct FxpVersion {
    pub version: u32,
    pub extensions: Vec<Extension>,
}

pub struct FxpVersionView {
    pub version: u32,
    pub extensions: Seq<ExtensionView>,
}

impl View for FxpVersion {
    type V = FxpVersionView;

    open spec fn view(&self) -> FxpVersionView {
        FxpVersionView { version: self.version, extensions: extension_views(self.extensions@) }
    }
}

/// The outcome that a status message reports.
#[derive(Debug, Clone, PartialEq, Eq)]
pub enum FxpStatusCode {
    /// The request was carried out.
    Okay,
    EOF,
    NoSuchFile,
    PermissionDenied,
    Failure,
    BadMessage,
    NoConnection,
    ConnectionLost,
    OpUnsupported,
    /// A code outside the protocol, with the bytes that followed the message.
    UnknownCode(Vec<u8>),
}

pub enum FxpStatusCodeView {
    Okay,
    EOF,
    NoSuchFile,
    PermissionDenied,
    Failure,
    BadMessage,
    NoConnection,
    ConnectionLost,
    OpUnsupported,
    UnknownCode(Seq<u8>),
}

impl View for FxpStatusCode {
    type V = FxpStatusCodeView;

    open spec fn view(&self) -> FxpStatusCodeView {
        match self {
            FxpStatusCode::Okay => FxpStatusCodeView::Okay,
            FxpStatusCode::EOF => FxpStatusCodeView::EOF,
            FxpStatusCode::NoSuchFile => FxpStatusCodeView::NoSuchFile,
            FxpStatusCode::PermissionDenied => FxpStatusCodeView::PermissionDenied,
            FxpStatusCode::Failure => FxpStatusCodeView::Failure,
            FxpStatusCode::BadMessage => FxpStatusCodeView::BadMessage,
            FxpStatusCode::NoConnection => FxpStatusCodeView::NoConnection,
            FxpStatusCode::ConnectionLost => FxpStatusCodeView::ConnectionLost,
            FxpStatusCode::OpUnsupported => FxpStatusCodeView::OpUnsupported,
            FxpStatusCode::UnknownCode(data) => FxpStatusCodeView::UnknownCode(data@),
        }
    }
}

/// A status message: a code and a text for people.
#[derive(Debug, Clone, PartialEq, Eq)]
pub struct FxpStatus {
    pub code: FxpStatusCode,
    pub msg: String,
}

pub struct FxpStatusView {
    pub code: FxpStatusCodeView,
    pub msg: Seq<char>,
}

impl View for FxpStatus {
    type V = FxpStatusView;

    open spec fn view(&self) -> FxpStatusView {
        FxpStatusView { code: self.code@, msg: self.msg@ }
    }
}

/// The handle of a file or directory that the server opened.
#[derive(Debug, Clone, PartialEq, Eq)]
pub struct FxpHandle {
    pub handle: Vec<u8>,
}

impl View for FxpHandle {
    type V = Seq<u8>;

    open spec fn view(&self) -> Seq<u8> {
        self.handle@
    }
}

/// Bytes read from a file.
#[derive(Debug, Clone, PartialEq, Eq)]
pub struct FxpData {
    pub data: Vec<u8>,
}

impl View for FxpData {
    type V = Seq<u8>;

    open spec fn view(&self) -> Seq<u8> {
        self.data@
    }
}

/// One entry of a directory, or one resolved path.
#[derive(Debug, Clone, PartialEq, Eq)]
pub struct Name {
    pub filename: Vec<u8>,
    pub longname: Vec<u8>,
    pub attrs: FileAttr,
}

pub struct NameView {
    pub filename: Seq<u8>,
    pub longname: Seq<u8>,
    pub attrs: FileAttrView,
}

impl View for Name {
    type V = NameView;

    open spec fn view(&self) -> NameView {
        NameView { filename: self.filename@, longname: self.longname@, attrs: self.attrs@ }
    }
}

/// The views of a list of names, in order.
pub open spec fn name_views(ns: Seq<Name>) -> Seq<NameView> {
    ns.map_values(|n: Name| n@)
}

/// A list of names.
#[derive(Debug, Clone, PartialEq, Eq)]
pub struct FxpName {
    pub names: Vec<Name>,
}

impl View for FxpName {
    type V = Seq<NameView>;

    open spec fn view(&self) -> Seq<NameView> {
        name_views(self.names@)
    }
}

/// What a reply holds.
#[derive(Debug, Clone, PartialEq, Eq)]
pub enum SftpResponsePacket {
    Version(FxpVersion),
    Status(FxpStatus),
    Handle(FxpHandle),
    Data(FxpData),
    Name(FxpName),
    Attrs(FileAttr),
    /// A message of a type that this client does not know, kept as it came.
    Unknown { msg_type: u8, data: Vec<u8> },
}

pub enum SftpResponsePacketView {
    Version(FxpVersionView),
    Status(FxpStatusView),
    Handle(Seq<u8>),
    Data(Seq<u8>),
    Name(Seq<NameView>),
    Attrs(FileAttrView),
    Unknown { msg_type: u8, data: Seq<u8> },
}

impl View for SftpResponsePacket {
    type V = SftpResponsePacketView;

    open spec fn view(&self) -> SftpResponsePacketView {
        match self {
            SftpResponsePacket::Version(x) => SftpResponsePacketView::Version(x@),
            SftpResponsePacket::Status(x) => SftpResponsePacketView::Status(x@),
            SftpResponsePacket::Handle(x) => SftpResponsePacketView::Handle(x@),
            SftpResponsePacket::Data(x) => SftpResponsePacketView::Data(x@),
            SftpResponsePacket::Name(x) => SftpResponsePacketView::Name(x@),
            SftpResponsePacket::Attrs(x) => SftpResponsePacketView::Attrs(x@),
            SftpResponsePacket::Unknown { msg_type, data } => SftpResponsePacketView::Unknown {
                msg_type: *msg_type,
                data: data@,
            },
        }
    }
}

/// A reply and the request it answers.
#[derive(Debug, Clone, PartialEq, Eq)]
pub struct SftpResponse {
    pub req_id: u32,
    pub packet: SftpResponsePacket,
}

pub struct SftpResponseView {
    pub req_id: u32,
    pub packet: SftpResponsePacketView,
}

impl View for SftpResponse {
    type V = SftpResponseView;

    open spec fn view(&self) -> SftpResponseView {
        SftpResponseView { req_id: self.req_id, packet: self.packet@ }
    }
}

/// Reading extensions until the bytes run out.
pub open spec fn parse_extension_list(s: Seq<u8>) -> Result<(Seq<ExtensionView>, Seq<u8>), Error>
    decreases s.len(),
{
    if s.len() == 0 {
        Ok((Seq::empty(), s))
    } else {
        match parse_extension(s) {
            Err(e) => Err(e),
            Ok((e, s1)) => prepend(seq![e], parse_extension_list(s1)),
        }
    }
}

/// Reading the body of a version message: the version, then extensions to
/// the end of the frame.
pub open spec fn parse_version(s: Seq<u8>) -> Result<(FxpVersionView, Seq<u8>), Error> {
    match parse_u32(s) {
        Err(e) => Err(e),
        Ok((version, s1)) => match parse_extension_list(s1) {
            Err(e) => Err(e),
            Ok((extensions, rest)) => Ok((FxpVersionView { version, extensions }, rest)),
        },
    }
}

/// The code that the number `icode` stands for. A number outside the
/// protocol comes with the bytes that followed the message.
pub open spec fn status_code(icode: u32, trailing: Seq<u8>) -> FxpStatusCodeView {
    if icode == SSH_FX_OK {
        FxpStatusCodeView::Okay
    } else if icode == SSH_FX_EOF {
        FxpStatusCodeView::EOF
    } else if icode == SSH_FX_NO_SUCH_FILE {
        FxpStatusCodeView::NoSuchFile
    } else if icode == SSH_FX_PERMISSION_DENIED {
        FxpStatusCodeView::PermissionDenied
    } else if icode == SSH_FX_FAILURE {
        FxpStatusCodeView::Failure
    } else if icode == SSH_FX_BAD_MESSAGE {
        FxpStatusCodeView::BadMessage
    } else if icode == SSH_FX_NO_CONNECTION {
        FxpStatusCodeView::NoConnection
    } else if icode == SSH_FX_CONNECTION_LOST {
        FxpStatusCodeView::ConnectionLost
    } else if icode == SSH_FX_OP_UNSUPPORTED {
        FxpStatusCodeView::OpUnsupported
    } else {
        FxpStatusCodeView::UnknownCode(trailing)
    }
}

/// Reading the body of a status message: a code, a text and a language
/// tag. The tag is passed over. The text must be UTF-8. After a code
/// outside the protocol the rest of the frame belongs to the code.
pub open spec fn parse_status(s: Seq<u8>) -> Result<(FxpStatusView, Seq<u8>), Error> {
    match parse_u32(s) {
        Err(e) => Err(e),
        Ok((icode, s1)) => match parse_bytes(s1) {
            Err(e) => Err(e),
            Ok((msg, s2)) => match parse_bytes(s2) {
                Err(e) => Err(e),
                Ok((lang, s3)) => if !valid_utf8(msg) {
                    Err(Error::Utf8)
                } else {
                    Ok(
                        (
                            FxpStatusView { code: status_code(icode, s3), msg: decode_utf8(msg) },
                            if icode <= SSH_FX_OP_UNSUPPORTED {
                                s3
                            } else {
                                Seq::empty()
                            },
                        ),
                    )
                },
            },
        },
    }
}

/// Reading one name: the file name, the long form, the attributes.
pub open spec fn parse_name(s: Seq<u8>) -> Result<(NameView, Seq<u8>), Error> {
    match parse_bytes(s) {
        Err(e) => Err(e),
        Ok((filename, s1)) => match parse_bytes(s1) {
            Err(e) => Err(e),
            Ok((longname, s2)) => match parse_attrs(s2) {
                Err(e) => Err(e),
                Ok((attrs, s3)) => Ok((NameView { filename, longname, attrs }, s3)),
            },
        },
    }
}

/// Reading `count` names.
pub open spec fn parse_names(s: Seq<u8>, count: nat) -> Result<(Seq<NameView>, Seq<u8>), Error>
    decreases count,
{
    if count == 0 {
        Ok((Seq::empty(), s))
    } else {
        match parse_name(s) {
            Err(e) => Err(e),
            Ok((n, s1)) => prepend(seq![n], parse_names(s1, (count - 1) as nat)),
        }
    }
}

/// Reading the body of a name message: a count, then as many names.
pub open spec fn parse_name_list(s: Seq<u8>) -> Result<(Seq<NameView>, Seq<u8>), Error> {
    match parse_u32(s) {
        Err(e) => Err(e),
        Ok((count, s1)) => parse_names(s1, count as nat),
    }
}

/// `String::from_utf8`: the text that `bytes` spell in UTF-8, or nothing
/// where they are not UTF-8.
#[verifier::external_body]
fn string_from_utf8(bytes: Vec<u8>) -> (res: Option<String>)
    ensures
        res is Some <==> valid_utf8(bytes@),
        res is Some ==> res->0@ == decode_utf8(bytes@),
{
    match String::from_utf8(bytes) {
        Ok(text) => Some(text),
        Err(_) => None,
    }
}

/// Takes extensions off `r` until it is empty. A failure takes nothing.
pub fn recv_extension_list(r: &mut &[u8]) -> (res: Result<Vec<Extension>, Error>)
    ensures
        match parse_extension_list(old(r)@) {
            Ok((es, rest)) => res is Ok && extension_views(res->Ok_0@) == es && final(r)@ == rest,
            Err(e) => res == Err::<Vec<Extension>, Error>(e) && final(r)@ == old(r)@,
        },
{
    let mut cur: &[u8] = *r;
    let mut extensions: Vec<Extension> = Vec::new();
    assert(extension_views(extensions@) =~= Seq::empty());
    assert(Seq::<ExtensionView>::empty() + parse_extension_list(cur@)->Ok_0.0
        =~= parse_extension_list(cur@)->Ok_0.0);
    while cur.len() > 0
        invariant
            *r == *old(r),
            parse_extension_list(old(r)@) == prepend(
                extension_views(extensions@),
                parse_extension_list(cur@),
            ),
        decreases cur@.len(),
    {
        let ghost done = extension_views(extensions@);
        let e = match Extension::recv(&mut cur) {
            Ok(e) => e,
            Err(x) => {
                return Err(x);
            },
        };
        extensions.push(e);
        proof {
            let more = parse_extension_list(cur@);
            assert(extension_views(extensions@) =~= done.push(e@));
            if more is Ok {
                assert(done + (seq![e@] + more->Ok_0.0) =~= done.push(e@) + more->Ok_0.0);
            }
        }
    }
    proof {
        assert(extension_views(extensions@) + Seq::<ExtensionView>::empty() =~= extension_views(
            extensions@,
        ));
    }
    *r = cur;
    Ok(extensions)
}

impl Response for FxpVersion {
    open spec fn type_byte() -> u8 {
        SSH_FXP_VERSION
    }

    fn msg_type() -> (t: u8) {
        SSH_FXP_VERSION
    }
}

impl Receivable for FxpVersion {
    open spec fn parse(s: Seq<u8>) -> Result<(FxpVersionView, Seq<u8>), Error> {
        parse_version(s)
    }

    fn recv(r: &mut &[u8]) -> (res: Result<FxpVersion, Error>) {
        let mut cur: &[u8] = *r;
        let version = u32::recv(&mut cur)?;
        let extensions = recv_extension_list(&mut cur)?;
        *r = cur;
        Ok(FxpVersion { version, extensions })
    }
}

impl Response for FxpStatus {
    open spec fn type_byte() -> u8 {
        SSH_FXP_STATUS
    }

    fn msg_type() -> (t: u8) {
        SSH_FXP_STATUS
    }
}

impl Receivable for FxpStatus {
    open spec fn parse(s: Seq<u8>) -> Result<(FxpStatusView, Seq<u8>), Error> {
        parse_status(s)
    }

    fn recv(r: &mut &[u8]) -> (res: Result<FxpStatus, Error>) {
        let mut cur: &[u8] = *r;
        let icode = u32::recv(&mut cur)?;
        let msg = Vec::<u8>::recv(&mut cur)?;
        let _lang = Vec::<u8>::recv(&mut cur)?;
        let text = match string_from_utf8(msg) {
            Some(text) => text,
            None => {
                return Err(Error::Utf8);
            },
        };
        let code = if icode == SSH_FX_OK {
            FxpStatusCode::Okay
        } else if icode == SSH_FX_EOF {
            FxpStatusCode::EOF
        } else if icode == SSH_FX_NO_SUCH_FILE {
            FxpStatusCode::NoSuchFile
        } else if icode == SSH_FX_PERMISSION_DENIED {
            FxpStatusCode::PermissionDenied
        } else if icode == SSH_FX_FAILURE {
            FxpStatusCode::Failure
        } else if icode == SSH_FX_BAD_MESSAGE {
            FxpStatusCode::BadMessage
        } else if icode == SSH_FX_NO_CONNECTION {
            FxpStatusCode::NoConnection
        } else if icode == SSH_FX_CONNECTION_LOST {
            FxpStatusCode::ConnectionLost
        } else if icode == SSH_FX_OP_UNSUPPORTED {
            FxpStatusCode::OpUnsupported
        } else {
            let data = slice_to_vec(cur);
            cur = slice_subrange(cur, cur.len(), cur.len());
            assert(cur@ =~= Seq::<u8>::empty());
            FxpStatusCode::UnknownCode(data)
        };
        *r = cur;
        Ok(FxpStatus { code, msg: text })
    }
}

impl Response for FxpHandle {
    open spec fn type_byte() -> u8 {
        SSH_FXP_HANDLE
    }

    fn msg_type() -> (t: u8) {
        SSH_FXP_HANDLE
    }
}

impl Receivable for FxpHandle {
    open spec fn parse(s: Seq<u8>) -> Result<(Seq<u8>, Seq<u8>), Error> {
        parse_bytes(s)
    }

    fn recv(r: &mut &[u8]) -> (res: Result<FxpHandle, Error>) {
        Ok(FxpHandle { handle: Vec::<u8>::recv(r)? })
    }
}

impl Response for FxpData {
    open spec fn type_byte() -> u8 {
        SSH_FXP_DATA
    }

    fn msg_type() -> (t: u8) {
        SSH_FXP_DATA
    }
}

impl Receivable for FxpData {
    open spec fn parse(s: Seq<u8>) -> Result<(Seq<u8>, Seq<u8>), Error> {
        parse_bytes(s)
    }

    fn recv(r: &mut &[u8]) -> (res: Result<FxpData, Error>) {
        Ok(FxpData { data: Vec::<u8>::recv(r)? })
    }
}

impl Receivable for Name {
    open spec fn parse(s: Seq<u8>) -> Result<(NameView, Seq<u8>), Error> {
        parse_name(s)
    }

    fn recv(r: &mut &[u8]) -> (res: Result<Name, Error>) {
        let mut cur: &[u8] = *r;
        let filename = Vec::<u8>::recv(&mut cur)?;
        let longname = Vec::<u8>::recv(&mut cur)?;
        let attrs = FileAttr::recv(&mut cur)?;
        *r = cur;
        Ok(Name { filename, longname, attrs })
    }
}

/// Takes `count` names off the front of `r`. A failure takes nothing.
pub fn recv_names(r: &mut &[u8], count: u32) -> (res: Result<Vec<Name>, Error>)
    ensures
        match parse_names(old(r)@, count as nat) {
            Ok((ns, rest)) => res is Ok && name_views(res->Ok_0@) == ns && final(r)@ == rest,
            Err(e) => res == Err::<Vec<Name>, Error>(e) && final(r)@ == old(r)@,
        },
{
    let mut cur: &[u8] = *r;
    let mut names: Vec<Name> = Vec::new();
    let mut i: u32 = 0;
    assert(name_views(names@) =~= Seq::empty());
    assert(Seq::<NameView>::empty() + parse_names(cur@, count as nat)->Ok_0.0 =~= parse_names(
        cur@,
        count as nat,
    )->Ok_0.0);
    while i < count
        invariant
            i <= count,
            *r == *old(r),
            parse_names(old(r)@, count as nat) == prepend(
                name_views(names@),
                parse_names(cur@, (count - i) as nat),
            ),
        decreases count - i,
    {
        let ghost done = name_views(names@);
        let n = match Name::recv(&mut cur) {
            Ok(n) => n,
            Err(x) => {
                return Err(x);
            },
        };
        names.push(n);
        i += 1;
        proof {
            let more = parse_names(cur@, (count - i) as nat);
            assert(name_views(names@) =~= done.push(n@));
            if more is Ok {
                assert(done + (seq![n@] + more->Ok_0.0) =~= done.push(n@) + more->Ok_0.0);
            }
        }
    }
    proof {
        assert(name_views(names@) + Seq::<NameView>::empty() =~= name_views(names@));
    }
    *r = cur;
    Ok(names)
}

impl Response for FxpName {
    open spec fn type_byte() -> u8 {
        SSH_FXP_NAME
    }

    fn msg_type() -> (t: u8) {
        SSH_FXP_NAME
    }
}

impl Receivable for FxpName {
    open spec fn parse(s: Seq<u8>) -> Result<(Seq<NameView>, Seq<u8>), Error> {
        parse_name_list(s)
    }

    fn recv(r: &mut &[u8]) -> (res: Result<FxpName, Error>) {
        let mut cur: &[u8] = *r;
        let count = u32::recv(&mut cur)?;
        let names = recv_names(&mut cur, count)?;
        *r = cur;
        Ok(FxpName { names })
    }
}

/// Reading the request id of a message of type `msg_type`. A version
/// message has none: it counts as the answer to request 0.
pub open spec fn parse_req_id(msg_type: u8, s: Seq<u8>) -> Result<(u32, Seq<u8>), Error> {
    if msg_type == SSH_FXP_VERSION {
        Ok((0u32, s))
    } else {
        parse_u32(s)
    }
}

/// Reading the body of a message of type `msg_type`. A type that the
/// protocol does not define takes all the bytes, as they are.
pub open spec fn parse_packet(msg_type: u8, s: Seq<u8>) -> Result<
    (SftpResponsePacketView, Seq<u8>),
    Error,
> {
    if msg_type == SSH_FXP_VERSION {
        match parse_version(s) {
            Err(e) => Err(e),
            Ok((x, rest)) => Ok((SftpResponsePacketView::Version(x), rest)),
        }
    } else if msg_type == SSH_FXP_STATUS {
        match parse_status(s) {
            Err(e) => Err(e),
            Ok((x, rest)) => Ok((SftpResponsePacketView::Status(x), rest)),
        }
    } else if msg_type == SSH_FXP_HANDLE {
        match parse_bytes(s) {
            Err(e) => Err(e),
            Ok((x, rest)) => Ok((SftpResponsePacketView::Handle(x), rest)),
        }
    } else if msg_type == SSH_FXP_DATA {
        match parse_bytes(s) {
            Err(e) => Err(e),
            Ok((x, rest)) => Ok((SftpResponsePacketView::Data(x), rest)),
        }
    } else if msg_type == SSH_FXP_NAME {
        match parse_name_list(s) {
            Err(e) => Err(e),
            Ok((x, rest)) => Ok((SftpResponsePacketView::Name(x), rest)),
        }
    } else if msg_type == SSH_FXP_ATTRS {
        match parse_attrs(s) {
            Err(e) => Err(e),
            Ok((x, rest)) => Ok((SftpResponsePacketView::Attrs(x), rest)),
        }
    } else {
        Ok((SftpResponsePacketView::Unknown { msg_type, data: s }, Seq::empty()))
    }
}

/// Reading what a frame holds: the type byte, the request id, the body.
#[verifier::opaque]
pub open spec fn parse_payload(s: Seq<u8>) -> Result<(SftpResponseView, Seq<u8>), Error> {
    match parse_u8(s) {
        Err(e) => Err(e),
        Ok((msg_type, s1)) => match parse_req_id(msg_type, s1) {
            Err(e) => Err(e),
            Ok((req_id, s2)) => match parse_packet(msg_type, s2) {
                Err(e) => Err(e),
                Ok((packet, rest)) => Ok((SftpResponseView { req_id, packet }, rest)),
            },
        },
    }
}

/// Reading one frame off a stream: a length, then a message that takes up
/// exactly as many bytes. A message that ends before the frame does, or a
/// stream that ends before the frame does, is an error.
pub open spec fn parse_frame(s: Seq<u8>) -> Result<(SftpResponseView, Seq<u8>), Error> {
    match parse_u32(s) {
        Err(e) => Err(e),
        Ok((len, s1)) => {
            let body = if s1.len() < len {
                s1
            } else {
                s1.take(len as int)
            };
            match parse_payload(body) {
                Err(e) => Err(e),
                Ok((response, rest)) => if rest.len() > 0 || s1.len() < len {
                    Err(Error::UnexpectedData)
                } else {
                    Ok((response, s1.skip(len as int)))
                },
            }
        },
    }
}

/// The number of bytes that a frame holds behind its length, read off the
/// first four bytes of the frame.
pub fn frame_length(header: &[u8]) -> (res: Result<usize, Error>)
    ensures
        res == match parse_u32(header@) {
            Ok((len, _)) => Ok::<usize, Error>(len as usize),
            Err(e) => Err(e),
        },
{
    let mut r: &[u8] = header;
    let len = u32::recv(&mut r)?;
    Ok(len as usize)
}

/// Takes the body of a message of type `msg_type` off the front of `r`.
/// A failure takes nothing.
pub fn recv_packet(msg_type: u8, r: &mut &[u8]) -> (res: Result<SftpResponsePacket, Error>)
    ensures
        match parse_packet(msg_type, old(r)@) {
            Ok((v, rest)) => res is Ok && res->Ok_0@ == v && final(r)@ == rest,
            Err(e) => res == Err::<SftpResponsePacket, Error>(e) && final(r)@ == old(r)@,
        },
{
    if msg_type == SSH_FXP_VERSION {
        Ok(SftpResponsePacket::Version(FxpVersion::recv(r)?))
    } else if msg_type == SSH_FXP_STATUS {
        Ok(SftpResponsePacket::Status(FxpStatus::recv(r)?))
    } else if msg_type == SSH_FXP_HANDLE {
        Ok(SftpResponsePacket::Handle(FxpHandle::recv(r)?))
    } else if msg_type == SSH_FXP_DATA {
        Ok(SftpResponsePacket::Data(FxpData::recv(r)?))
    } else if msg_type == SSH_FXP_NAME {
        Ok(SftpResponsePacket::Name(FxpName::recv(r)?))
    } else if msg_type == SSH_FXP_ATTRS {
        Ok(SftpResponsePacket::Attrs(FileAttr::recv(r)?))
    } else {
        let s: &[u8] = *r;
        let data = slice_to_vec(s);
        *r = slice_subrange(s, s.len(), s.len());
        assert(r@ =~= Seq::<u8>::empty());
        Ok(SftpResponsePacket::Unknown { msg_type, data })
    }
}

/// Takes what a frame holds off the front of `r`. A failure takes nothing.
pub fn recv_payload(r: &mut &[u8]) -> (res: Result<SftpResponse, Error>)
    ensures
        match parse_payload(old(r)@) {
            Ok((v, rest)) => res is Ok && res->Ok_0@ == v && final(r)@ == rest,
            Err(e) => res == Err::<SftpResponse, Error>(e) && final(r)@ == old(r)@,
        },
{
    reveal(parse_payload);
    let mut cur: &[u8] = *r;
    let msg_type = u8::recv(&mut cur)?;
    let req_id = if msg_type == SSH_FXP_VERSION {
        0
    } else {
        u32::recv(&mut cur)?
    };
    let packet = recv_packet(msg_type, &mut cur)?;
    *r = cur;
    Ok(SftpResponse { req_id, packet })
}

/// Takes one frame off the front of the stream `r` and decodes it.
/// A failure takes nothing.
pub fn recv(r: &mut &[u8]) -> (res: Result<SftpResponse, Error>)
    ensures
        match parse_frame(old(r)@) {
            Ok((v, rest)) => res is Ok && res->Ok_0@ == v && final(r)@ == rest,
            Err(e) => res == Err::<SftpResponse, Error>(e) && final(r)@ == old(r)@,
        },
{
    let mut cur: &[u8] = *r;
    let len = u32::recv(&mut cur)? as usize;
    let short = cur.len() < len;
    let mut body: &[u8] = if short {
        cur
    } else {
        slice_subrange(cur, 0, len)
    };
    let response = recv_payload(&mut body)?;
    if body.len() > 0 || short {
        return Err(Error::UnexpectedData);
    }
    *r = slice_subrange(cur, len, cur.len());
    Ok(response)
}

/// A frame that holds exactly one message decodes to that message, and
/// what follows the frame on the stream is left.
pub proof fn lemma_frame_of_payload(payload: Seq<u8>, response: SftpResponseView, tail: Seq<u8>)
    requires
        payload.len() <= u32::MAX,
        parse_payload(payload) == Ok::<(SftpResponseView, Seq<u8>), Error>(
            (response, Seq::empty()),
        ),
    ensures
        parse_frame(be32(payload.len() as u32) + payload + tail) == Ok::<
            (SftpResponseView, Seq<u8>),
            Error,
        >((response, tail)),
{
    let len = payload.len() as u32;
    let s = be32(len) + payload + tail;
    assert(s =~= be32(len) + (payload + tail));
    lemma_u32_round_trip(len, payload + tail);
    assert((payload + tail).take(len as int) =~= payload);
    assert((payload + tail).skip(len as int) =~= tail);
}

/// The bytes of a message of a type that the protocol does not define
/// decode to that type, the request id, and all that follows the id.
proof fn lemma_unknown_payload(msg_type: u8, req_id: u32, data: Seq<u8>)
    requires
        msg_type != SSH_FXP_VERSION,
        msg_type != SSH_FXP_STATUS,
        msg_type != SSH_FXP_HANDLE,
        msg_type != SSH_FXP_DATA,
        msg_type != SSH_FXP_NAME,
        msg_type != SSH_FXP_ATTRS,
    ensures
        parse_payload(seq![msg_type] + be32(req_id) + data) == Ok::<
            (SftpResponseView, Seq<u8>),
            Error,
        >(
            (
                SftpResponseView {
                    req_id,
                    packet: SftpResponsePacketView::Unknown { msg_type, data },
                },
                Seq::empty(),
            ),
        ),
{
    reveal(parse_payload);
    let payload = seq![msg_type] + be32(req_id) + data;
    assert(payload.skip(1) =~= be32(req_id) + data);
    assert(payload[0] == msg_type);
    lemma_u32_round_trip(req_id, data);
}

/// A message of a type that the protocol does not define is kept byte for
/// byte: its type, its request id, and all that follows the id in its frame.
pub proof fn lemma_unknown_kept(msg_type: u8, req_id: u32, data: Seq<u8>, tail: Seq<u8>)
    requires
        msg_type != SSH_FXP_VERSION,
        msg_type != SSH_FXP_STATUS,
        msg_type != SSH_FXP_HANDLE,
        msg_type != SSH_FXP_DATA,
        msg_type != SSH_FXP_NAME,
        msg_type != SSH_FXP_ATTRS,
        5 + data.len() <= u32::MAX,
    ensures
        parse_frame(
            be32((5 + data.len()) as u32) + (seq![msg_type] + be32(req_id) + data) + tail,
        ) == Ok::<(SftpResponseView, Seq<u8>), Error>(
            (
                SftpResponseView {
                    req_id,
                    packet: SftpResponsePacketView::Unknown { msg_type, data },
                },
                tail,
            ),
        ),
{
    let payload = seq![msg_type] + be32(req_id) + data;
    lemma_unknown_payload(msg_type, req_id, data);
    lemma_frame_of_payload(
        payload,
        SftpResponseView { req_id, packet: SftpResponsePacketView::Unknown { msg_type, data } },
        tail,
    );
}

} // verus!
