//! A session with a server: the requests that await a reply, the frames
//! that carry requests out, and the meaning of the replies.

use crate::attrs::{FileAttr, FileAttrView, extension_views, wire_attrs};
use crate::error::Error;
use crate::requests::{
    FxpInit, FxpLStat, FxpMkDir, FxpOpen, FxpOpenDir, FxpReadLink, FxpRealPath, FxpRemove,
    FxpRename, FxpRmDir, FxpSetStat, FxpStat, Request, SSH_FXP_INIT, SSH_FXP_LSTAT,
    SSH_FXP_MKDIR, SSH_FXP_OPEN, SSH_FXP_OPENDIR, SSH_FXP_READLINK, SSH_FXP_REALPATH,
    SSH_FXP_REMOVE, SSH_FXP_RENAME, SSH_FXP_RMDIR, SSH_FXP_SETSTAT, SSH_FXP_STAT,
};
use crate::responses::{FxpStatus, FxpStatusCode, Name, SftpResponse, SftpResponsePacket};
use crate::wire::{Sendable, be32, lemma_u32_round_trip, parse_u32, put_bytes, wire_bytes};
use std::collections::HashMap;
use std::sync::Arc;
use vstd::arithmetic::div_mod::lemma_add_mod_noop_right;
use vstd::prelude::*;
use vstd::string::StrSliceExecFns;
use vstd::utf8::encode_utf8;

verus! {

/// The version of the protocol that this client speaks.
pub const PROTOCOL_VERSION: u32 = 3;

/// The longest body that fits a frame: the frame's length counts the type
/// byte and the request id too, and is a 32-bit number.
pub const MAX_BODY: usize = 0xffff_fffa;

/// The frame of a request: the length of what follows, the type byte, the
/// request id, the body.
pub open spec fn frame(msg_type: u8, req_id: u32, body: Seq<u8>) -> Seq<u8> {
    be32((5 + body.len()) as u32) + seq![msg_type] + be32(req_id) + body
}

/// The frame of the message that opens a session, which has no request id.
pub open spec fn init_frame(body: Seq<u8>) -> Seq<u8> {
    be32((1 + body.len()) as u32) + seq![SSH_FXP_INIT] + body
}

/// A path on the wire: its bytes in UTF-8, behind their length.
pub open spec fn wire_path(path: Seq<char>) -> Seq<u8> {
    wire_bytes(encode_utf8(path))
}

/// The body is short enough for a frame.
pub open spec fn fits(body: Seq<u8>) -> bool {
    body.len() <= MAX_BODY
}

/// The id that is given out after `id`. After the largest comes 0.
pub open spec fn next_id(id: u32) -> u32 {
    if id == u32::MAX {
        0
    } else {
        (id + 1) as u32
    }
}

/// The id that is given out `k` requests after `id`.
pub open spec fn id_after(id: u32, k: nat) -> u32 {
    ((id + k) % 0x1_0000_0000) as u32
}

/// `Arc::clone`: another pointer to the same value.
#[verifier::external_body]
fn share(cause: &Arc<Box<Error>>) -> (res: Arc<Box<Error>>)
    ensures
        res == *cause,
{
    Arc::clone(cause)
}

/// The error to hand to a waiter when the session has ended for `cause`.
pub fn disconnect_notice(cause: &Arc<Box<Error>>) -> (e: Error)
    ensures
        e == Error::ReceiverDisconnected(*cause),
{
    Error::ReceiverDisconnected(share(cause))
}

/// The frame that carries a message of type `msg_type` with the encoding
/// `body` as request `req_id`.
pub fn frame_bytes(msg_type: u8, req_id: u32, body: &Vec<u8>) -> (out: Vec<u8>)
    requires
        fits(body@),
    ensures
        out@ == frame(msg_type, req_id, body@),
{
    let mut out: Vec<u8> = Vec::new();
    let len: u32 = (body.len() + 5) as u32;
    len.write_to(&mut out);
    out.push(msg_type);
    req_id.write_to(&mut out);
    put_bytes(&mut out, body.as_slice());
    assert(out@ =~= frame(msg_type, req_id, body@));
    out
}

/// The frame that carries `packet` as request `req_id`.
pub fn encode_frame<P: Request>(packet: &P, req_id: u32) -> (out: Vec<u8>)
    requires
        fits(packet.wire()),
    ensures
        out@ == frame(P::type_byte(), req_id, packet.wire()),
{
    let mut body: Vec<u8> = Vec::new();
    packet.write_to(&mut body);
    assert(body@ =~= packet.wire());
    frame_bytes(P::msg_type(), req_id, &body)
}

/// The frame that opens a session: this client's version and no extension.
pub fn send_init() -> (out: Vec<u8>)
    ensures
        out@ == init_frame(be32(PROTOCOL_VERSION)),
{
    let init = FxpInit { version: PROTOCOL_VERSION, extensions: Vec::new() };
    assert(extension_views(init.extensions@) =~= Seq::empty());
    assert(init.wire() =~= be32(PROTOCOL_VERSION));
    let mut body: Vec<u8> = Vec::new();
    init.write_to(&mut body);
    assert(body@ =~= be32(PROTOCOL_VERSION));
    let mut out: Vec<u8> = Vec::new();
    let len: u32 = (body.len() + 1) as u32;
    len.write_to(&mut out);
    out.push(FxpInit::msg_type());
    put_bytes(&mut out, body.as_slice());
    assert(out@ =~= init_frame(be32(PROTOCOL_VERSION)));
    out
}

/// A client as mathematics sees it.
pub struct ClientView<T> {
    /// The requests that await a reply, each with the slot of its waiter.
    pub requests: Map<u32, T>,
    /// Why the session is over, if it is.
    pub recv_error: Option<Arc<Box<Error>>>,
    /// The id of the next request.
    pub req_id: u32,
}

impl<T> ClientView<T> {
    /// The session is over: no reply will come any more.
    pub open spec fn failed(self) -> bool {
        self.recv_error is Some
    }

    /// A session that is over has nobody waiting.
    pub open spec fn wf(self) -> bool {
        self.failed() ==> self.requests =~= Map::<u32, T>::empty()
    }

    /// The client after a request was sent for the waiter `slot`. The id is
    /// used up in any case; the waiter is entered unless the session is over.
    pub open spec fn sent(self, slot: T) -> ClientView<T> {
        ClientView {
            requests: if self.failed() {
                self.requests
            } else {
                self.requests.insert(self.req_id, slot)
            },
            recv_error: self.recv_error,
            req_id: next_id(self.req_id),
        }
    }

    /// The client after the reply to request `id` was handed to its waiter.
    pub open spec fn delivered(self, id: u32) -> ClientView<T> {
        ClientView {
            requests: self.requests.remove(id),
            recv_error: self.recv_error,
            req_id: self.req_id,
        }
    }

    /// The client after the session ended for `cause`.
    pub open spec fn disconnected(self, cause: Arc<Box<Error>>) -> ClientView<T> {
        ClientView { requests: Map::empty(), recv_error: Some(cause), req_id: self.req_id }
    }
}

/// What sending a request does to a client and what it gives back: the
/// frame to write, or the cause for which the session is over.
pub open spec fn sends<T>(
    before: ClientView<T>,
    after: ClientView<T>,
    res: Result<Vec<u8>, Error>,
    msg_type: u8,
    body: Seq<u8>,
    slot: T,
) -> bool {
    &&& after == before.sent(slot)
    &&& match before.recv_error {
        Some(cause) => res == Err::<Vec<u8>, Error>(Error::ReceiverDisconnected(cause)),
        None => res is Ok && res->Ok_0@ == frame(msg_type, before.req_id, body),
    }
}

/// What asking to send a request does. A request that fits a frame is sent,
/// as `sends` says. For one that does not, nothing happens at all.
pub open spec fn tries<T>(
    before: ClientView<T>,
    after: ClientView<T>,
    res: Option<Result<Vec<u8>, Error>>,
    msg_type: u8,
    body: Seq<u8>,
    slot: T,
) -> bool {
    if fits(body) {
        res is Some && sends(before, after, res->0, msg_type, body, slot)
    } else {
        res is None && after == before
    }
}

/// What the reader of replies is to do after one step.
pub enum Routed<T> {
    /// Hand `packet` to the waiter `slot`, and go on reading.
    Delivered { slot: T, packet: SftpResponsePacket },
    /// The session is over. Hand each of `waiters` the error
    /// `ReceiverDisconnected` with `cause`, and stop reading.
    Disconnected { waiters: HashMap<u32, T>, cause: Arc<Box<Error>> },
}

/// The client's side of a session, from the moment the server has answered
/// the opening message. `T` is the slot through which one waiter gets its
/// reply.
pub struct Client<T> {
    requests: HashMap<u32, T>,
    recv_error: Option<Arc<Box<Error>>>,
    req_id: u32,
}

impl<T> View for Client<T> {
    type V = ClientView<T>;

    closed spec fn view(&self) -> ClientView<T> {
        ClientView { requests: self.requests@, recv_error: self.recv_error, req_id: self.req_id }
    }
}

impl<T> Client<T> {
    /// Opens the session on the server's answer to the opening message.
    /// The answer must be a version message with this client's version.
    pub fn new(response: SftpResponse) -> (res: Result<Client<T>, Error>)
        ensures
            match response.packet {
                SftpResponsePacket::Version(x) => if x.version == PROTOCOL_VERSION {
                    res is Ok && res->Ok_0@ == (ClientView::<T> {
                        requests: Map::empty(),
                        recv_error: None,
                        req_id: 0,
                    })
                } else {
                    res is Err && res->Err_0 == Error::MismatchedVersion(x.version)
                },
                x => res is Err && res->Err_0 == Error::UnexpectedResponse(Box::new(x)),
            },
    {
        match response.packet {
            SftpResponsePacket::Version(x) => {
                if x.version != PROTOCOL_VERSION {
                    return Err(Error::MismatchedVersion(x.version));
                }
            },
            x => {
                return Err(Error::UnexpectedResponse(Box::new(x)));
            },
        }
        Ok(Client { requests: HashMap::new(), recv_error: None, req_id: 0 })
    }

    /// Whether the session is over.
    pub fn is_failed(&self) -> (b: bool)
        ensures
            b == self@.failed(),
    {
        self.recv_error.is_some()
    }

    /// The number of requests that await a reply.
    pub fn pending(&self) -> (n: usize)
        ensures
            n == self@.requests.len(),
    {
        self.requests.len()
    }

    /// Whether request `id` awaits a reply.
    pub fn is_pending(&self, id: u32) -> (b: bool)
        ensures
            b == self@.requests.contains_key(id),
    {
        self.requests.contains_key(&id)
    }

    /// Gives out the id of the next request.
    pub fn next_id(&mut self) -> (id: u32)
        ensures
            id == old(self)@.req_id,
            final(self)@ == (ClientView { req_id: next_id(id), ..old(self)@ }),
    {
        let id = self.req_id;
        self.req_id = if id == u32::MAX {
            0
        } else {
            id + 1
        };
        id
    }

    /// Enters a request with the encoding `body` for the waiter `slot` and
    /// gives back the frame to write to the server.
    fn send_body(&mut self, msg_type: u8, body: Vec<u8>, slot: T) -> (res: Result<Vec<u8>, Error>)
        requires
            fits(body@),
        ensures
            sends(old(self)@, final(self)@, res, msg_type, body@, slot),
            old(self)@.wf() ==> final(self)@.wf(),
    {
        let req_id = self.next_id();
        if let Some(cause) = &self.recv_error {
            return Err(Error::ReceiverDisconnected(share(cause)));
        }
        self.requests.insert(req_id, slot);
        Ok(frame_bytes(msg_type, req_id, &body))
    }

    /// Enters the request `packet` for the waiter `slot` and gives back the
    /// frame to write to the server. Once the session is over it gives back
    /// the cause instead, and nothing is entered.
    pub fn send<P: Request>(&mut self, packet: &P, slot: T) -> (res: Result<Vec<u8>, Error>)
        requires
            fits(packet.wire()),
        ensures
            sends(old(self)@, final(self)@, res, P::type_byte(), packet.wire(), slot),
            old(self)@.wf() ==> final(self)@.wf(),
    {
        let mut body: Vec<u8> = Vec::new();
        packet.write_to(&mut body);
        assert(body@ =~= packet.wire());
        self.send_body(P::msg_type(), body, slot)
    }

    /// Sends the request `packet` as `send` does, if it fits a frame. If it
    /// does not, nothing happens at all.
    pub fn try_send<P: Request>(&mut self, packet: &P, slot: T) -> (res: Option<
        Result<Vec<u8>, Error>,
    >)
        ensures
            tries(old(self)@, final(self)@, res, P::type_byte(), packet.wire(), slot),
            old(self)@.wf() ==> final(self)@.wf(),
    {
        let mut body: Vec<u8> = Vec::new();
        packet.write_to(&mut body);
        assert(body@ =~= packet.wire());
        if body.len() > MAX_BODY {
            return None;
        }
        Some(self.send_body(P::msg_type(), body, slot))
    }

    /// Ends the session for the cause `e`: nobody waits any more, and every
    /// later request is refused with the same cause. Gives back those who
    /// waited and the cause to hand to each of them.
    pub fn broadcast_error(&mut self, e: Error) -> (res: (HashMap<u32, T>, Arc<Box<Error>>))
        ensures
            res.0@ == old(self)@.requests,
            **res.1 == e,
            final(self)@ == old(self)@.disconnected(res.1),
            final(self)@.wf(),
    {
        let cause = Arc::new(Box::new(e));
        let mut waiters: HashMap<u32, T> = HashMap::new();
        std::mem::swap(&mut self.requests, &mut waiters);
        self.recv_error = Some(share(&cause));
        (waiters, cause)
    }

    /// One step of the reader of replies. A reply to a request that awaits
    /// one goes to its waiter. A reply that nobody waits for, and any
    /// failure to read or decode a reply, ends the session.
    pub fn route(&mut self, event: Result<SftpResponse, Error>) -> (res: Routed<T>)
        ensures
            match event {
                Ok(response) => if old(self)@.requests.contains_key(response.req_id) {
                    &&& res == (Routed::Delivered {
                        slot: old(self)@.requests[response.req_id],
                        packet: response.packet,
                    })
                    &&& final(self)@ == old(self)@.delivered(response.req_id)
                } else {
                    &&& res is Disconnected
                    &&& res->waiters@ == old(self)@.requests
                    &&& **res->cause == Error::NoMatchingRequest(response.req_id)
                    &&& final(self)@ == old(self)@.disconnected(res->cause)
                },
                Err(e) => {
                    &&& res is Disconnected
                    &&& res->waiters@ == old(self)@.requests
                    &&& **res->cause == e
                    &&& final(self)@ == old(self)@.disconnected(res->cause)
                },
            },
            old(self)@.wf() ==> final(self)@.wf(),
    {
        let cause = match event {
            Ok(response) => {
                match self.requests.remove(&response.req_id) {
                    Some(slot) => {
                        return Routed::Delivered { slot, packet: response.packet };
                    },
                    None => Error::NoMatchingRequest(response.req_id),
                }
            },
            Err(e) => e,
        };
        let (waiters, cause) = self.broadcast_error(cause);
        Routed::Disconnected { waiters, cause }
    }
}

/// The operations of a session. Each enters its request for the waiter
/// `slot` and gives back the frame to write to the server, or the cause for
/// which the session is over. A request too long for a frame is not entered
/// at all, and nothing comes back.
impl<T> Client<T> {
    /// Asks for the attributes of `path`, following links. The reply is read by `expect_attrs`.
    pub fn stat(&mut self, path: String, slot: T) -> (res: Option<Result<Vec<u8>, Error>>)
        ensures
            tries(old(self)@, final(self)@, res, SSH_FXP_STAT, wire_path(path@), slot),
            old(self)@.wf() ==> final(self)@.wf(),
    {
        let p = FxpStat { path: path.as_str().as_bytes_vec() };
        self.try_send(&p, slot)
    }

    /// Asks for the attributes of `path` itself, be it a link. The reply is read by `expect_attrs`.
    pub fn lstat(&mut self, path: String, slot: T) -> (res: Option<Result<Vec<u8>, Error>>)
        ensures
            tries(old(self)@, final(self)@, res, SSH_FXP_LSTAT, wire_path(path@), slot),
            old(self)@.wf() ==> final(self)@.wf(),
    {
        let p = FxpLStat { path: path.as_str().as_bytes_vec() };
        self.try_send(&p, slot)
    }

    /// Asks the server to remove the directory `path`. The reply is read by
    /// `expect_status_response`.
    pub fn rmdir(&mut self, path: String, slot: T) -> (res: Option<Result<Vec<u8>, Error>>)
        ensures
            tries(old(self)@, final(self)@, res, SSH_FXP_RMDIR, wire_path(path@), slot),
            old(self)@.wf() ==> final(self)@.wf(),
    {
        let p = FxpRmDir { path: path.as_str().as_bytes_vec() };
        self.try_send(&p, slot)
    }

    /// Asks for the canonical form of `path`. The reply is read by `expect_name`.
    pub fn realpath(&mut self, path: String, slot: T) -> (res: Option<Result<Vec<u8>, Error>>)
        ensures
            tries(old(self)@, final(self)@, res, SSH_FXP_REALPATH, wire_path(path@), slot),
            old(self)@.wf() ==> final(self)@.wf(),
    {
        let p = FxpRealPath { path: path.as_str().as_bytes_vec() };
        self.try_send(&p, slot)
    }

    /// Asks where the link `path` points. The reply is read by `expect_name`.
    pub fn readlink(&mut self, path: String, slot: T) -> (res: Option<Result<Vec<u8>, Error>>)
        ensures
            tries(old(self)@, final(self)@, res, SSH_FXP_READLINK, wire_path(path@), slot),
            old(self)@.wf() ==> final(self)@.wf(),
    {
        let p = FxpReadLink { path: path.as_str().as_bytes_vec() };
        self.try_send(&p, slot)
    }

    /// Asks the server to remove the file `filename`. The reply is read by
    /// `expect_status_response`.
    pub fn remove(&mut self, filename: String, slot: T) -> (res: Option<Result<Vec<u8>, Error>>)
        ensures
            tries(old(self)@, final(self)@, res, SSH_FXP_REMOVE, wire_path(filename@), slot),
            old(self)@.wf() ==> final(self)@.wf(),
    {
        let p = FxpRemove { filename: filename.as_str().as_bytes_vec() };
        self.try_send(&p, slot)
    }

    /// Asks the server to open the directory `path` for listing. The reply is
    /// read by `ReadDir::from_reply`.
    pub fn readdir(&mut self, path: String, slot: T) -> (res: Option<Result<Vec<u8>, Error>>)
        ensures
            tries(old(self)@, final(self)@, res, SSH_FXP_OPENDIR, wire_path(path@), slot),
            old(self)@.wf() ==> final(self)@.wf(),
    {
        let p = FxpOpenDir { path: path.as_str().as_bytes_vec() };
        self.try_send(&p, slot)
    }

    /// Asks the server to give `path` the attributes `attrs`. The reply is
    /// read by `expect_status_response`.
    pub fn setstat(
        &mut self,
        path: String,
        attrs: FileAttr,
        slot: T,
    ) -> (res: Option<Result<Vec<u8>, Error>>)
        ensures
            tries(
                old(self)@,
                final(self)@,
                res,
                SSH_FXP_SETSTAT,
                wire_path(path@) + wire_attrs(attrs@),
                slot,
            ),
            old(self)@.wf() ==> final(self)@.wf(),
    {
        let p = FxpSetStat { path: path.as_str().as_bytes_vec(), attrs };
        self.try_send(&p, slot)
    }

    /// Asks the server to make the directory `path`, with no attribute
    /// given. The reply is read by `expect_status_response`.
    pub fn mkdir(&mut self, path: String, slot: T) -> (res: Option<Result<Vec<u8>, Error>>)
        ensures
            tries(
                old(self)@,
                final(self)@,
                res,
                SSH_FXP_MKDIR,
                wire_path(path@) + wire_attrs(FileAttrView::absent()),
                slot,
            ),
            old(self)@.wf() ==> final(self)@.wf(),
    {
        let p = FxpMkDir { path: path.as_str().as_bytes_vec(), attrs: FileAttr::new() };
        self.try_send(&p, slot)
    }

    /// Asks the server to rename `oldpath` to `newpath`. The reply is read
    /// by `expect_status_response`.
    pub fn rename(
        &mut self,
        oldpath: String,
        newpath: String,
        slot: T,
    ) -> (res: Option<Result<Vec<u8>, Error>>)
        ensures
            tries(
                old(self)@,
                final(self)@,
                res,
                SSH_FXP_RENAME,
                wire_path(oldpath@) + wire_path(newpath@),
                slot,
            ),
            old(self)@.wf() ==> final(self)@.wf(),
    {
        let p = FxpRename {
            oldpath: oldpath.as_str().as_bytes_vec(),
            newpath: newpath.as_str().as_bytes_vec(),
        };
        self.try_send(&p, slot)
    }

    /// Asks the server to open the file `filename` in the way that the
    /// flags `pflags` say, with no attribute given. The reply is read by
    /// `File::from_reply`.
    pub fn open(
        &mut self,
        filename: String,
        pflags: u32,
        slot: T,
    ) -> (res: Option<Result<Vec<u8>, Error>>)
        ensures
            tries(
                old(self)@,
                final(self)@,
                res,
                SSH_FXP_OPEN,
                wire_path(filename@) + be32(pflags) + wire_attrs(FileAttrView::absent()),
                slot,
            ),
            old(self)@.wf() ==> final(self)@.wf(),
    {
        let p = FxpOpen {
            filename: filename.as_str().as_bytes_vec(),
            pflags,
            attrs: FileAttr::new(),
        };
        self.try_send(&p, slot)
    }
}

/// Reads a reply that should hold attributes. A status that reports a
/// failure is the server's refusal; anything else is out of place.
pub fn expect_attrs(response: SftpResponsePacket) -> (res: Result<FileAttr, Error>)
    ensures
        res == match response {
            SftpResponsePacket::Attrs(attrs) => Ok::<FileAttr, Error>(attrs),
            SftpResponsePacket::Status(status) => if status.code is Okay {
                Err(Error::UnexpectedResponse(Box::new(response)))
            } else {
                Err(Error::ServerError(Box::new(status)))
            },
            x => Err(Error::UnexpectedResponse(Box::new(x))),
        },
{
    match response {
        SftpResponsePacket::Attrs(attrs) => Ok(attrs),
        SftpResponsePacket::Status(status) => Err(refusal(status)),
        x => Err(Error::UnexpectedResponse(Box::new(x))),
    }
}

/// The error that a status stands for where another reply was due: the
/// server's refusal, or, for a status of success, a reply out of place.
pub fn refusal(status: FxpStatus) -> (e: Error)
    ensures
        e == if status.code is Okay {
            Error::UnexpectedResponse(Box::new(SftpResponsePacket::Status(status)))
        } else {
            Error::ServerError(Box::new(status))
        },
{
    match status.code {
        FxpStatusCode::Okay => Error::UnexpectedResponse(
            Box::new(SftpResponsePacket::Status(status)),
        ),
        _ => Error::ServerError(Box::new(status)),
    }
}

/// Reads a reply that should report success.
pub fn expect_status_response(response: SftpResponsePacket) -> (res: Result<(), Error>)
    ensures
        res == match response {
            SftpResponsePacket::Status(status) => if status.code is Okay {
                Ok::<(), Error>(())
            } else {
                Err(Error::ServerError(Box::new(status)))
            },
            x => Err(Error::UnexpectedResponse(Box::new(x))),
        },
{
    match response {
        SftpResponsePacket::Status(status) => match status.code {
            FxpStatusCode::Okay => Ok(()),
            _ => Err(Error::ServerError(Box::new(status))),
        },
        x => Err(Error::UnexpectedResponse(Box::new(x))),
    }
}

/// Reads a reply that should hold names, and gives the last of them. A
/// list without a name is out of place.
pub fn expect_name(response: SftpResponsePacket) -> (res: Result<Name, Error>)
    ensures
        res == match response {
            SftpResponsePacket::Name(list) => if list.names@.len() > 0 {
                Ok::<Name, Error>(list.names@.last())
            } else {
                Err(Error::UnexpectedResponse(Box::new(response)))
            },
            SftpResponsePacket::Status(status) => if status.code is Okay {
                Err(Error::UnexpectedResponse(Box::new(response)))
            } else {
                Err(Error::ServerError(Box::new(status)))
            },
            x => Err(Error::UnexpectedResponse(Box::new(x))),
        },
{
    match response {
        SftpResponsePacket::Name(mut list) => {
            if list.names.len() > 0 {
                Ok(list.names.pop().unwrap())
            } else {
                Err(Error::UnexpectedResponse(Box::new(SftpResponsePacket::Name(list))))
            }
        },
        SftpResponsePacket::Status(status) => Err(refusal(status)),
        x => Err(Error::UnexpectedResponse(Box::new(x))),
    }
}

/// Reads a reply that should hold a handle.
pub fn expect_handle(response: SftpResponsePacket) -> (res: Result<Vec<u8>, Error>)
    ensures
        res == match response {
            SftpResponsePacket::Handle(handle) => Ok::<Vec<u8>, Error>(handle.handle),
            SftpResponsePacket::Status(status) => if status.code is Okay {
                Err(Error::UnexpectedResponse(Box::new(response)))
            } else {
                Err(Error::ServerError(Box::new(status)))
            },
            x => Err(Error::UnexpectedResponse(Box::new(x))),
        },
{
    match response {
        SftpResponsePacket::Handle(handle) => Ok(handle.handle),
        SftpResponsePacket::Status(status) => Err(refusal(status)),
        x => Err(Error::UnexpectedResponse(Box::new(x))),
    }
}

/// One thing that happens to a client in the course of a session.
pub enum Event<T> {
    /// A request is sent for the waiter with this slot.
    Sent(T),
    /// The reply to the request with this id goes to its waiter.
    Delivered(u32),
    /// The session ends for this cause.
    Disconnected(Arc<Box<Error>>),
}

/// The number of requests sent among `events`.
pub open spec fn count_sent<T>(events: Seq<Event<T>>) -> nat
    decreases events.len(),
{
    if events.len() == 0 {
        0
    } else {
        count_sent(events.drop_last()) + if events.last() is Sent {
            1nat
        } else {
            0nat
        }
    }
}

impl<T> ClientView<T> {
    /// The client after `event`.
    pub open spec fn after(self, event: Event<T>) -> ClientView<T> {
        match event {
            Event::Sent(slot) => self.sent(slot),
            Event::Delivered(id) => self.delivered(id),
            Event::Disconnected(cause) => self.disconnected(cause),
        }
    }

    /// The client after `events`, in their order.
    pub open spec fn after_all(self, events: Seq<Event<T>>) -> ClientView<T>
        decreases events.len(),
    {
        if events.len() == 0 {
            self
        } else {
            self.after_all(events.drop_last()).after(events.last())
        }
    }
}

/// Whatever happens, a session that is over has nobody waiting.
pub proof fn lemma_over_means_nobody_waits<T>(c: ClientView<T>, events: Seq<Event<T>>)
    requires
        c.wf(),
    ensures
        c.after_all(events).wf(),
    decreases events.len(),
{
    if events.len() > 0 {
        lemma_over_means_nobody_waits(c, events.drop_last());
    }
}

/// A session that is over stays over, whatever happens.
pub proof fn lemma_over_stays_over<T>(c: ClientView<T>, events: Seq<Event<T>>)
    requires
        c.failed(),
    ensures
        c.after_all(events).failed(),
    decreases events.len(),
{
    if events.len() > 0 {
        lemma_over_stays_over(c, events.drop_last());
    }
}

/// When the session ends, nobody waits any more, and the cause stands for
/// every later request.
pub proof fn lemma_disconnected_is_over<T>(c: ClientView<T>, cause: Arc<Box<Error>>, slot: T)
    ensures
        c.disconnected(cause).failed(),
        c.disconnected(cause).wf(),
        forall|id: u32| !c.disconnected(cause).requests.contains_key(id),
        c.disconnected(cause).sent(slot).requests == Map::<u32, T>::empty(),
        c.disconnected(cause).sent(slot).recv_error == Some(cause),
{
}

/// Ids are given out in turn, so the id after `events` is as many steps on
/// as requests were sent.
pub proof fn lemma_id_counts_requests<T>(c: ClientView<T>, events: Seq<Event<T>>)
    ensures
        c.after_all(events).req_id == id_after(c.req_id, count_sent(events)),
    decreases events.len(),
{
    if events.len() > 0 {
        lemma_id_counts_requests(c, events.drop_last());
    }
}

/// Fewer than 2^32 requests in a row all get different ids.
pub proof fn lemma_ids_differ(id: u32, i: nat, j: nat)
    requires
        i < j,
        j - i < 0x1_0000_0000,
    ensures
        id_after(id, i) != id_after(id, j),
{
    let m = 0x1_0000_0000int;
    let a = id + i;
    let b = id + j;
    if a % m == b % m {
        assert(a == m * (a / m) + a % m) by (nonlinear_arith)
            requires
                m > 0,
        ;
        assert(b == m * (b / m) + b % m) by (nonlinear_arith)
            requires
                m > 0,
        ;
        let d = b / m - a / m;
        assert(b - a == m * d) by (nonlinear_arith)
            requires
                a == m * (a / m) + a % m,
                b == m * (b / m) + b % m,
                a % m == b % m,
                d == b / m - a / m,
        ;
        assert(false) by (nonlinear_arith)
            requires
                b - a == m * d,
                0 < b - a < m,
                m > 0,
        ;
    }
}

/// A request waits in the table, with its own slot, from the moment it is
/// sent until its reply is delivered or the session ends. This holds as long
/// as fewer than 2^32 requests follow it: after that its id is given out
/// again.
pub proof fn lemma_waits_until_answered<T>(c: ClientView<T>, slot: T, events: Seq<Event<T>>)
    requires
        !c.failed(),
        count_sent(events) < 0x1_0000_0000,
        forall|k: int|
            0 <= k < events.len() ==> !(#[trigger] events[k] is Disconnected) && events[k]
                != Event::<T>::Delivered(c.req_id),
    ensures
        c.sent(slot).after_all(events).requests.contains_key(c.req_id),
        c.sent(slot).after_all(events).requests[c.req_id] == slot,
        !c.sent(slot).after_all(events).failed(),
    decreases events.len(),
{
    if events.len() > 0 {
        let front = events.drop_last();
        let last = events.last();
        assert(forall|k: int| 0 <= k < front.len() ==> front[k] == events[k]);
        lemma_waits_until_answered(c, slot, front);
        lemma_id_counts_requests(c.sent(slot), front);
        assert(events[events.len() - 1] == last);
        match last {
            Event::Sent(other) => {
                lemma_next_id_is_one_on(c.req_id);
                lemma_id_after_sum(c.req_id, 1, count_sent(front));
                lemma_ids_differ(c.req_id, 0, 1 + count_sent(front));
                assert(id_after(c.req_id, 0) == c.req_id);
            },
            Event::Delivered(id) => {},
            Event::Disconnected(cause) => {},
        }
    }
}

/// The id after `id` is one step on.
pub proof fn lemma_next_id_is_one_on(id: u32)
    ensures
        next_id(id) == id_after(id, 1),
{
}

/// Going `a` steps on and then `b` steps on is going `a + b` steps on.
pub proof fn lemma_id_after_sum(id: u32, a: nat, b: nat)
    ensures
        id_after(id_after(id, a), b) == id_after(id, a + b),
{
    let m = 0x1_0000_0000int;
    let x = id + a;
    lemma_add_mod_noop_right(b as int, x, m);
}

/// No two requests that wait share an id: a request that is sent while
/// another waits gets an id of its own, and the other keeps its slot. This
/// holds as long as the id to give out is not still waiting, which takes
/// 2^32 requests in a row to come about.
pub proof fn lemma_ids_not_shared<T>(c: ClientView<T>, slot: T, id: u32)
    requires
        !c.failed(),
        c.requests.contains_key(id),
        !c.requests.contains_key(c.req_id),
    ensures
        id != c.req_id,
        c.sent(slot).requests.contains_key(id),
        c.sent(slot).requests[id] == c.requests[id],
        c.sent(slot).requests.contains_key(c.req_id),
        c.sent(slot).requests.dom() == c.requests.dom().insert(c.req_id),
{
}

/// A frame is whole: its first four bytes tell how many bytes of it
/// follow, so that on a stream of frames written one after the other each
/// frame keeps to its own stretch of bytes.
pub proof fn lemma_frame_is_whole(msg_type: u8, req_id: u32, body: Seq<u8>, tail: Seq<u8>)
    requires
        fits(body),
    ensures
        frame(msg_type, req_id, body).len() == 9 + body.len(),
        parse_u32(frame(msg_type, req_id, body) + tail) == Ok::<(u32, Seq<u8>), Error>(
            ((5 + body.len()) as u32, seq![msg_type] + be32(req_id) + body + tail),
        ),
        (seq![msg_type] + be32(req_id) + body + tail).skip(5 + body.len() as int) == tail,
{
    let len = (5 + body.len()) as u32;
    let rest = seq![msg_type] + be32(req_id) + body + tail;
    assert(frame(msg_type, req_id, body) + tail =~= be32(len) + rest);
    lemma_u32_round_trip(len, rest);
    assert(rest.skip(5 + body.len() as int) =~= tail);
}

} // verus!
