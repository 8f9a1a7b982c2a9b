//! Files and directories that the server has opened for this client.

use crate::attrs::{FileAttr, FileAttrView, wire_attrs};
use crate::error::{Error, IoError};
use crate::requests::{
    FxpClose, FxpFSetStat, FxpFStat, FxpRead, FxpReadDir, FxpWrite, SSH_FXP_CLOSE,
    SSH_FXP_FSETSTAT, SSH_FXP_FSTAT, SSH_FXP_OPEN, SSH_FXP_READ, SSH_FXP_READDIR, SSH_FXP_WRITE,
};
use crate::responses::{FxpStatusCode, Name, SftpResponsePacket};
use crate::session::{Client, expect_handle, tries, wire_path};
use crate::wire::{be32, be64, wire_bytes};
use vstd::prelude::*;
use vstd::slice::slice_to_vec;

verus! {

/// The flag that opens a file for reading.
pub const SSH_FXF_READ: u32 = 0x0000_0001;

/// The flag that opens a file for writing.
pub const SSH_FXF_WRITE: u32 = 0x0000_0002;

/// The flag that makes every write go to the end of the file.
pub const SSH_FXF_APPEND: u32 = 0x0000_0004;

/// The flag that creates the file if it does not exist.
pub const SSH_FXF_CREAT: u32 = 0x0000_0008;

/// The flag that empties the file on opening.
pub const SSH_FXF_TRUNC: u32 = 0x0000_0010;

/// The flag that makes opening fail if the file exists.
pub const SSH_FXF_EXCL: u32 = 0x0000_0020;

/// The flags `flags` with `bit` switched on or off.
pub open spec fn with_flag(flags: u32, bit: u32, enabled: bool) -> u32 {
    if enabled {
        flags | bit
    } else {
        flags & !bit
    }
}

/// How a file is to be opened.
#[derive(Debug, Clone, Copy, PartialEq, Eq)]
pub struct OpenOptions {
    flags: u32,
}

impl View for OpenOptions {
    type V = u32;

    closed spec fn view(&self) -> u32 {
        self.flags
    }
}

impl<T> Client<T> {
    /// Options with no flag set.
    pub fn open_options(&self) -> (options: OpenOptions)
        ensures
            options@ == 0,
    {
        OpenOptions { flags: 0 }
    }
}

impl OpenOptions {
    /// The flags that are set.
    pub fn flags(&self) -> (flags: u32)
        ensures
            flags == self@,
    {
        self.flags
    }

    fn flag(&mut self, bit: u32, enabled: bool) -> (ret: &mut OpenOptions)
        ensures
            ret@ == with_flag(old(self)@, bit, enabled),
            *final(self) == *final(ret),
    {
        if enabled {
            self.flags = self.flags | bit;
        } else {
            self.flags = self.flags & !bit;
        }
        self
    }

    /// Sets or clears the flag for reading.
    pub fn read(&mut self, read: bool) -> (ret: &mut OpenOptions)
        ensures
            ret@ == with_flag(old(self)@, SSH_FXF_READ, read),
            *final(self) == *final(ret),
    {
        self.flag(SSH_FXF_READ, read)
    }

    /// Sets or clears the flag for writing.
    pub fn write(&mut self, write: bool) -> (ret: &mut OpenOptions)
        ensures
            ret@ == with_flag(old(self)@, SSH_FXF_WRITE, write),
            *final(self) == *final(ret),
    {
        self.flag(SSH_FXF_WRITE, write)
    }

    /// Sets or clears the flag for appending.
    pub fn append(&mut self, append: bool) -> (ret: &mut OpenOptions)
        ensures
            ret@ == with_flag(old(self)@, SSH_FXF_APPEND, append),
            *final(self) == *final(ret),
    {
        self.flag(SSH_FXF_APPEND, append)
    }

    /// Sets or clears the flag for creating the file.
    pub fn create(&mut self, create: bool) -> (ret: &mut OpenOptions)
        ensures
            ret@ == with_flag(old(self)@, SSH_FXF_CREAT, create),
            *final(self) == *final(ret),
    {
        self.flag(SSH_FXF_CREAT, create)
    }

    /// Sets or clears the flag for emptying the file.
    pub fn truncate(&mut self, truncate: bool) -> (ret: &mut OpenOptions)
        ensures
            ret@ == with_flag(old(self)@, SSH_FXF_TRUNC, truncate),
            *final(self) == *final(ret),
    {
        self.flag(SSH_FXF_TRUNC, truncate)
    }

    /// Sets or clears the flag for refusing a file that exists.
    pub fn exclude(&mut self, exclude: bool) -> (ret: &mut OpenOptions)
        ensures
            ret@ == with_flag(old(self)@, SSH_FXF_EXCL, exclude),
            *final(self) == *final(ret),
    {
        self.flag(SSH_FXF_EXCL, exclude)
    }

    /// Asks the server to open `path` with these options. The reply is read
    /// by `File::from_reply`.
    pub fn open<T>(
        &self,
        client: &mut Client<T>,
        path: String,
        slot: T,
    ) -> (res: Option<Result<Vec<u8>, Error>>)
        ensures
            tries(
                old(client)@,
                final(client)@,
                res,
                SSH_FXP_OPEN,
                wire_path(path@) + be32(self@) + wire_attrs(FileAttrView::absent()),
                slot,
            ),
            old(client)@.wf() ==> final(client)@.wf(),
    {
        client.open(path, self.flags, slot)
    }
}

/// A place in a file, counted from its start, from the cursor, or from its
/// end.
#[derive(Debug, Clone, Copy, PartialEq, Eq)]
pub enum SeekFrom {
    Start(u64),
    Current(i64),
    End(i64),
}

/// How far a seek has come.
#[derive(Debug, Clone, Copy, PartialEq, Eq)]
pub enum Seek {
    /// The cursor stands at this position.
    Done(u64),
    /// The size of the file is needed: ask the server for the attributes
    /// and call `seek_end` with this distance and the answer.
    NeedsSize(i64),
}

/// A copy of `bytes`.
fn copy_of(bytes: &Vec<u8>) -> (out: Vec<u8>)
    ensures
        out@ == bytes@,
{
    slice_to_vec(bytes.as_slice())
}

/// An open file: the server's handle for it, and a cursor.
#[derive(Debug)]
pub struct File {
    handle: Vec<u8>,
    offset: u64,
}

/// A `File` as mathematics sees it.
pub struct FileView {
    pub handle: Seq<u8>,
    pub offset: u64,
}

impl View for File {
    type V = FileView;

    closed spec fn view(&self) -> FileView {
        FileView { handle: self.handle@, offset: self.offset }
    }
}

/// The number of bytes that a read into a buffer of `buf_len` bytes asks
/// for: all of them, or the most that a request can ask for.
pub open spec fn read_len(buf_len: usize) -> u32 {
    if buf_len > u32::MAX {
        u32::MAX
    } else {
        buf_len as u32
    }
}

impl File {
    /// The file that the server opened, from its reply to a request to
    /// open one. The cursor stands at the start.
    pub fn from_reply(response: SftpResponsePacket) -> (res: Result<File, Error>)
        ensures
            match response {
                SftpResponsePacket::Handle(handle) => res is Ok && res->Ok_0@ == (FileView {
                    handle: handle.handle@,
                    offset: 0,
                }),
                SftpResponsePacket::Status(status) => res is Err && res->Err_0 == (
                if status.code is Okay {
                    Error::UnexpectedResponse(Box::new(response))
                } else {
                    Error::ServerError(Box::new(status))
                }),
                x => res is Err && res->Err_0 == Error::UnexpectedResponse(Box::new(x)),
            },
    {
        let handle = expect_handle(response)?;
        Ok(File { handle, offset: 0 })
    }

    /// The server's handle for this file.
    pub fn handle(&self) -> (handle: &Vec<u8>)
        ensures
            handle@ == self@.handle,
    {
        &self.handle
    }

    /// Where the cursor stands.
    pub fn offset(&self) -> (offset: u64)
        ensures
            offset == self@.offset,
    {
        self.offset
    }

    /// Asks for the attributes of this file. The reply is read by
    /// `expect_attrs`.
    pub fn stat<T>(&self, client: &mut Client<T>, slot: T) -> (res: Option<Result<Vec<u8>, Error>>)
        ensures
            tries(old(client)@, final(client)@, res, SSH_FXP_FSTAT, wire_bytes(self@.handle), slot),
            old(client)@.wf() ==> final(client)@.wf(),
    {
        let p = FxpFStat { handle: copy_of(&self.handle) };
        client.try_send(&p, slot)
    }

    /// Asks the server to give this file the attributes `attrs`. The reply
    /// is read by `expect_status_response`.
    pub fn setstat<T>(
        &self,
        client: &mut Client<T>,
        attrs: FileAttr,
        slot: T,
    ) -> (res: Option<Result<Vec<u8>, Error>>)
        ensures
            tries(
                old(client)@,
                final(client)@,
                res,
                SSH_FXP_FSETSTAT,
                wire_bytes(self@.handle) + wire_attrs(attrs@),
                slot,
            ),
            old(client)@.wf() ==> final(client)@.wf(),
    {
        let p = FxpFSetStat { handle: copy_of(&self.handle), attrs };
        client.try_send(&p, slot)
    }

    /// Gives the handle back to the server. Whatever the reply, the file
    /// is to be used no more.
    pub fn close<T>(&self, client: &mut Client<T>, slot: T) -> (res: Option<Result<Vec<u8>, Error>>)
        ensures
            tries(old(client)@, final(client)@, res, SSH_FXP_CLOSE, wire_bytes(self@.handle), slot),
            old(client)@.wf() ==> final(client)@.wf(),
    {
        let p = FxpClose { handle: copy_of(&self.handle) };
        client.try_send(&p, slot)
    }

    /// Asks for the bytes at the cursor, as many as a buffer of `buf_len`
    /// bytes takes. The reply is read by `read_reply`.
    pub fn read<T>(
        &self,
        client: &mut Client<T>,
        buf_len: usize,
        slot: T,
    ) -> (res: Option<Result<Vec<u8>, Error>>)
        ensures
            tries(
                old(client)@,
                final(client)@,
                res,
                SSH_FXP_READ,
                wire_bytes(self@.handle) + be64(self@.offset) + be32(read_len(buf_len)),
                slot,
            ),
            old(client)@.wf() ==> final(client)@.wf(),
    {
        let len: u32 = if buf_len > u32::MAX as usize {
            u32::MAX
        } else {
            buf_len as u32
        };
        let p = FxpRead { handle: copy_of(&self.handle), offset: self.offset, len };
        client.try_send(&p, slot)
    }

    /// Takes in the reply to a read. Data goes to the front of `buf`, as
    /// much of it as `buf` holds, and the cursor moves on by as much. A
    /// status that reports the end of the file reads as no bytes. Nothing
    /// else moves the cursor or touches `buf`.
    pub fn read_reply(
        &mut self,
        reply: Result<SftpResponsePacket, Error>,
        buf: &mut [u8],
    ) -> (res: Result<usize, IoError>)
        requires
            old(self)@.offset + old(buf)@.len() <= u64::MAX,
        ensures
            final(self)@.handle == old(self)@.handle,
            final(buf)@.len() == old(buf)@.len(),
            match reply {
                Ok(SftpResponsePacket::Data(data)) => {
                    let n = if old(buf)@.len() < data.data@.len() {
                        old(buf)@.len()
                    } else {
                        data.data@.len()
                    };
                    &&& res == Ok::<usize, IoError>(n as usize)
                    &&& final(buf)@ == data.data@.take(n as int) + old(buf)@.skip(n as int)
                    &&& final(self)@.offset == old(self)@.offset + n
                },
                Ok(SftpResponsePacket::Status(status)) => {
                    &&& res == if status.code is EOF {
                        Ok::<usize, IoError>(0)
                    } else {
                        Err(IoError::Status(status))
                    }
                    &&& final(buf)@ == old(buf)@
                    &&& final(self)@ == old(self)@
                },
                _ => {
                    &&& res == Err::<usize, IoError>(IoError::Unknown)
                    &&& final(buf)@ == old(buf)@
                    &&& final(self)@ == old(self)@
                },
            },
    {
        match reply {
            Ok(SftpResponsePacket::Data(data)) => {
                let n: usize = if buf.len() < data.data.len() {
                    buf.len()
                } else {
                    data.data.len()
                };
                let mut i: usize = 0;
                assert(buf@ =~= data.data@.take(0) + old(buf)@.skip(0));
                while i < n
                    invariant
                        i <= n,
                        n <= buf@.len(),
                        n <= data.data@.len(),
                        buf@.len() == old(buf)@.len(),
                        buf@ == data.data@.take(i as int) + old(buf)@.skip(i as int),
                    decreases n - i,
                {
                    buf[i] = data.data[i];
                    i += 1;
                    assert(buf@ =~= data.data@.take(i as int) + old(buf)@.skip(i as int));
                }
                self.offset = self.offset + n as u64;
                Ok(n)
            },
            Ok(SftpResponsePacket::Status(status)) => match status.code {
                FxpStatusCode::EOF => Ok(0),
                _ => Err(IoError::Status(status)),
            },
            _ => Err(IoError::Unknown),
        }
    }

    /// Asks the server to write `buf` at the cursor. The reply is read by
    /// `write_reply`.
    pub fn write<T>(
        &self,
        client: &mut Client<T>,
        buf: &[u8],
        slot: T,
    ) -> (res: Option<Result<Vec<u8>, Error>>)
        ensures
            tries(
                old(client)@,
                final(client)@,
                res,
                SSH_FXP_WRITE,
                wire_bytes(self@.handle) + be64(self@.offset) + wire_bytes(buf@),
                slot,
            ),
            old(client)@.wf() ==> final(client)@.wf(),
    {
        let p = FxpWrite {
            handle: copy_of(&self.handle),
            offset: self.offset,
            data: slice_to_vec(buf),
        };
        client.try_send(&p, slot)
    }

    /// Takes in the reply to a write of `len` bytes. On success the cursor
    /// moves on by `len`, and `len` is the number written. Nothing else
    /// moves the cursor.
    pub fn write_reply(&mut self, reply: Result<SftpResponsePacket, Error>, len: usize) -> (res:
        Result<usize, IoError>)
        requires
            old(self)@.offset + len <= u64::MAX,
        ensures
            final(self)@.handle == old(self)@.handle,
            match reply {
                Ok(SftpResponsePacket::Status(status)) => if status.code is Okay {
                    &&& res == Ok::<usize, IoError>(len)
                    &&& final(self)@.offset == old(self)@.offset + len
                } else {
                    &&& res == Err::<usize, IoError>(IoError::Status(status))
                    &&& final(self)@ == old(self)@
                },
                _ => {
                    &&& res == Err::<usize, IoError>(IoError::Unknown)
                    &&& final(self)@ == old(self)@
                },
            },
    {
        match reply {
            Ok(SftpResponsePacket::Status(status)) => match status.code {
                FxpStatusCode::Okay => {
                    self.offset = self.offset + len as u64;
                    Ok(len)
                },
                _ => Err(IoError::Status(status)),
            },
            _ => Err(IoError::Unknown),
        }
    }

    /// Nothing is held back, so there is nothing to flush.
    pub fn flush(&mut self) -> (res: Result<(), IoError>)
        ensures
            res is Ok,
            final(self)@ == old(self)@,
    {
        Ok(())
    }

    /// Moves the cursor to `pos`, where that takes no knowledge of the
    /// file's size: to a place counted from the start, or from the cursor.
    /// A place before the start of the file, or beyond what a position can
    /// hold, is refused and the cursor stays. A place counted from the end
    /// is left to `seek_end`, and the cursor stays for now.
    pub fn seek(&mut self, pos: SeekFrom) -> (res: Result<Seek, IoError>)
        ensures
            final(self)@.handle == old(self)@.handle,
            match pos {
                SeekFrom::Start(i) => {
                    &&& res == Ok::<Seek, IoError>(Seek::Done(i))
                    &&& final(self)@.offset == i
                },
                SeekFrom::Current(i) => if 0 <= old(self)@.offset + i <= u64::MAX {
                    &&& res == Ok::<Seek, IoError>(Seek::Done((old(self)@.offset + i) as u64))
                    &&& final(self)@.offset == old(self)@.offset + i
                } else {
                    &&& res == Err::<Seek, IoError>(IoError::InvalidSeek)
                    &&& final(self)@ == old(self)@
                },
                SeekFrom::End(i) => {
                    &&& res == Ok::<Seek, IoError>(Seek::NeedsSize(i))
                    &&& final(self)@ == old(self)@
                },
            },
    {
        match pos {
            SeekFrom::Start(i) => {
                self.offset = i;
                Ok(Seek::Done(i))
            },
            SeekFrom::Current(i) => match self.offset.checked_add_signed(i) {
                Some(target) => {
                    self.offset = target;
                    Ok(Seek::Done(target))
                },
                None => Err(IoError::InvalidSeek),
            },
            SeekFrom::End(i) => Ok(Seek::NeedsSize(i)),
        }
    }

    /// Moves the cursor to the place `i` bytes from the end of the file,
    /// given the server's answer to a request for the attributes. It fails,
    /// and the cursor stays, where that request failed, where the answer
    /// does not tell the size, and where the place lies before the start of
    /// the file or beyond what a position can hold.
    pub fn seek_end(&mut self, i: i64, stat: Result<FileAttr, Error>) -> (res: Result<u64, IoError>)
        ensures
            final(self)@.handle == old(self)@.handle,
            match stat {
                Err(_) => {
                    &&& res == Err::<u64, IoError>(IoError::Unknown)
                    &&& final(self)@ == old(self)@
                },
                Ok(attr) => match attr.size {
                    None => {
                        &&& res == Err::<u64, IoError>(IoError::SizeNotKnown)
                        &&& final(self)@ == old(self)@
                    },
                    Some(size) => if 0 <= size + i <= u64::MAX {
                        &&& res == Ok::<u64, IoError>((size + i) as u64)
                        &&& final(self)@.offset == size + i
                    } else {
                        &&& res == Err::<u64, IoError>(IoError::InvalidSeek)
                        &&& final(self)@ == old(self)@
                    },
                },
            },
    {
        let attr = match stat {
            Ok(attr) => attr,
            Err(_) => {
                return Err(IoError::Unknown);
            },
        };
        match attr.size {
            Some(size) => match size.checked_add_signed(i) {
                Some(target) => {
                    self.offset = target;
                    Ok(target)
                },
                None => Err(IoError::InvalidSeek),
            },
            None => Err(IoError::SizeNotKnown),
        }
    }
}

/// An open directory: the server's handle for it, and the entries that the
/// server has sent and that were not yet taken.
#[derive(Debug)]
pub struct ReadDir {
    handle: Vec<u8>,
    /// The entries in store, the next one last.
    names: Vec<Name>,
}

/// A `ReadDir` as mathematics sees it.
pub struct ReadDirView {
    pub handle: Seq<u8>,
    /// The entries in store, the next one first.
    pub names: Seq<Name>,
}

impl View for ReadDir {
    type V = ReadDirView;

    closed spec fn view(&self) -> ReadDirView {
        ReadDirView { handle: self.handle@, names: self.names@.reverse() }
    }
}

/// The entries of `names` in reverse order.
fn reversed(names: Vec<Name>) -> (out: Vec<Name>)
    ensures
        out@ == names@.reverse(),
{
    let mut names = names;
    let ghost all = names@;
    let mut out: Vec<Name> = Vec::new();
    while names.len() > 0
        invariant
            names@.len() <= all.len(),
            names@ == all.take(names@.len() as int),
            out@ == all.skip(names@.len() as int).reverse(),
        decreases names@.len(),
    {
        let ghost k = names@.len() as int;
        let name = names.pop().unwrap();
        out.push(name);
        assert(names@ =~= all.take(k - 1));
        assert(out@ =~= all.skip(k - 1).reverse());
    }
    assert(out@ =~= all.reverse());
    out
}

impl ReadDir {
    /// The directory that the server opened, from its reply to a request
    /// to open one. No entry is in store yet.
    pub fn from_reply(response: SftpResponsePacket) -> (res: Result<ReadDir, Error>)
        ensures
            match response {
                SftpResponsePacket::Handle(handle) => res is Ok && res->Ok_0@ == (ReadDirView {
                    handle: handle.handle@,
                    names: Seq::empty(),
                }),
                SftpResponsePacket::Status(status) => res is Err && res->Err_0 == (
                if status.code is Okay {
                    Error::UnexpectedResponse(Box::new(response))
                } else {
                    Error::ServerError(Box::new(status))
                }),
                x => res is Err && res->Err_0 == Error::UnexpectedResponse(Box::new(x)),
            },
    {
        let handle = expect_handle(response)?;
        let names: Vec<Name> = Vec::new();
        assert(names@.reverse() =~= Seq::<Name>::empty());
        Ok(ReadDir { handle, names })
    }

    /// The server's handle for this directory.
    pub fn handle(&self) -> (handle: &Vec<u8>)
        ensures
            handle@ == self@.handle,
    {
        &self.handle
    }

    /// Takes the next entry out of the store. With none in store, ask the
    /// server for more with `fetch` and hand its reply to `refill`.
    pub fn next(&mut self) -> (res: Option<Name>)
        ensures
            final(self)@.handle == old(self)@.handle,
            old(self)@.names.len() > 0 ==> res == Some(old(self)@.names[0]) && final(self)@.names
                == old(self)@.names.skip(1),
            old(self)@.names.len() == 0 ==> res is None && final(self)@ == old(self)@,
    {
        let ghost stored = self.names@;
        let res = self.names.pop();
        proof {
            if stored.len() > 0 {
                assert(self.names@.reverse() =~= stored.reverse().skip(1));
            } else {
                assert(self.names@ =~= stored);
            }
        }
        res
    }

    /// Asks the server for the next entries of this directory. The reply
    /// is read by `refill`.
    pub fn fetch<T>(&self, client: &mut Client<T>, slot: T) -> (res: Option<Result<Vec<u8>, Error>>)
        ensures
            tries(
                old(client)@,
                final(client)@,
                res,
                SSH_FXP_READDIR,
                wire_bytes(self@.handle),
                slot,
            ),
            old(client)@.wf() ==> final(client)@.wf(),
    {
        let p = FxpReadDir { handle: copy_of(&self.handle) };
        client.try_send(&p, slot)
    }

    /// Takes in the reply to a request for more entries. A list of names
    /// becomes the store, and there may be more to come: `true`. A status
    /// that reports the end means that the listing is over: `false`. A
    /// failed exchange is passed on, and any other reply is out of place;
    /// the store stays as it was.
    pub fn refill(&mut self, reply: Result<SftpResponsePacket, Error>) -> (res: Result<bool, Error>)
        ensures
            final(self)@.handle == old(self)@.handle,
            match reply {
                Err(e) => res == Err::<bool, Error>(e) && final(self)@ == old(self)@,
                Ok(SftpResponsePacket::Name(list)) => {
                    &&& res == Ok::<bool, Error>(true)
                    &&& final(self)@.names == list.names@
                },
                Ok(SftpResponsePacket::Status(status)) => if status.code is EOF {
                    res == Ok::<bool, Error>(false) && final(self)@ == old(self)@
                } else {
                    res == Err::<bool, Error>(
                        Error::UnexpectedResponse(Box::new(SftpResponsePacket::Status(status))),
                    ) && final(self)@ == old(self)@
                },
                Ok(x) => res == Err::<bool, Error>(Error::UnexpectedResponse(Box::new(x)))
                    && final(self)@ == old(self)@,
            },
    {
        match reply {
            Err(e) => Err(e),
            Ok(SftpResponsePacket::Name(list)) => {
                let ghost listed = list.names@;
                self.names = reversed(list.names);
                assert(self.names@.reverse() =~= listed);
                Ok(true)
            },
            Ok(SftpResponsePacket::Status(status)) => match status.code {
                FxpStatusCode::EOF => Ok(false),
                _ => Err(Error::UnexpectedResponse(Box::new(SftpResponsePacket::Status(status)))),
            },
            Ok(x) => Err(Error::UnexpectedResponse(Box::new(x))),
        }
    }

    /// Gives the handle back to the server. Whatever the reply, the
    /// directory is to be used no more.
    pub fn close<T>(&self, client: &mut Client<T>, slot: T) -> (res: Option<Result<Vec<u8>, Error>>)
        ensures
            tries(old(client)@, final(client)@, res, SSH_FXP_CLOSE, wire_bytes(self@.handle), slot),
            old(client)@.wf() ==> final(client)@.wf(),
    {
        let p = FxpClose { handle: copy_of(&self.handle) };
        client.try_send(&p, slot)
    }
}

} // verus!
