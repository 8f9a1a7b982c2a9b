use sftp::attrs::FileAttr;
use sftp::error::{Error, IoError};
use sftp::file::Seek;
use sftp::responses::{Name, SftpResponsePacket};
use sftp::session::{
    disconnect_notice, expect_attrs, expect_name, expect_status_response, send_init, Routed,
};
use sftp::{recv, Client, File, ReadDir, SeekFrom};
use std::collections::{BTreeMap, HashMap};
use std::sync::mpsc;

/// A server that lives in memory: enough of one to answer this client.
struct Server {
    files: BTreeMap<String, Vec<u8>>,
    mtimes: BTreeMap<String, u32>,
    links: BTreeMap<String, String>,
    dirs: Vec<String>,
    handles: Vec<Option<Open>>,
}

enum Open {
    File(String),
    Dir(String, bool),
}

struct Cursor<'a> {
    bytes: &'a [u8],
}

impl<'a> Cursor<'a> {
    fn u8(&mut self) -> u8 {
        let b = self.bytes[0];
        self.bytes = &self.bytes[1..];
        b
    }

    fn u32(&mut self) -> u32 {
        let n = u32::from_be_bytes([self.bytes[0], self.bytes[1], self.bytes[2], self.bytes[3]]);
        self.bytes = &self.bytes[4..];
        n
    }

    fn u64(&mut self) -> u64 {
        let hi = self.u32() as u64;
        let lo = self.u32() as u64;
        (hi << 32) | lo
    }

    fn string(&mut self) -> Vec<u8> {
        let len = self.u32() as usize;
        let s = self.bytes[..len].to_vec();
        self.bytes = &self.bytes[len..];
        s
    }

    fn path(&mut self) -> String {
        String::from_utf8(self.string()).unwrap()
    }

    fn mtime(&mut self) -> Option<u32> {
        let flags = self.u32();
        if flags & 1 != 0 {
            self.u64();
        }
        if flags & 2 != 0 {
            self.u32();
            self.u32();
        }
        if flags & 4 != 0 {
            self.u32();
        }
        if flags & 8 != 0 {
            self.u32();
            return Some(self.u32());
        }
        None
    }
}

fn put_u32(out: &mut Vec<u8>, n: u32) {
    out.extend_from_slice(&n.to_be_bytes());
}

fn put_string(out: &mut Vec<u8>, s: &[u8]) {
    put_u32(out, s.len() as u32);
    out.extend_from_slice(s);
}

fn put_size(out: &mut Vec<u8>, size: u64) {
    put_u32(out, 1);
    out.extend_from_slice(&size.to_be_bytes());
}

fn answer(msg_type: u8, req_id: u32, body: &[u8]) -> Vec<u8> {
    let mut out = Vec::new();
    put_u32(&mut out, body.len() as u32 + 5);
    out.push(msg_type);
    put_u32(&mut out, req_id);
    out.extend_from_slice(body);
    out
}

fn status_answer(req_id: u32, code: u32, text: &str) -> Vec<u8> {
    let mut body = Vec::new();
    put_u32(&mut body, code);
    put_string(&mut body, text.as_bytes());
    put_string(&mut body, b"");
    answer(101, req_id, &body)
}

impl Server {
    fn new() -> Server {
        Server {
            files: BTreeMap::new(),
            mtimes: BTreeMap::new(),
            links: BTreeMap::new(),
            dirs: Vec::new(),
            handles: Vec::new(),
        }
    }

    fn version(&self, init: &[u8]) -> Vec<u8> {
        assert_eq!(init, &[0, 0, 0, 5, 1, 0, 0, 0, 3]);
        vec![0, 0, 0, 5, 2, 0, 0, 0, 3]
    }

    fn resolve(&self, path: &str) -> String {
        match self.links.get(path) {
            Some(target) => target.clone(),
            None => path.to_string(),
        }
    }

    fn open(&mut self, what: Open) -> Vec<u8> {
        self.handles.push(Some(what));
        format!("handle-{}", self.handles.len() - 1).into_bytes()
    }

    fn index(handle: &[u8]) -> usize {
        String::from_utf8(handle[7..].to_vec()).unwrap().parse().unwrap()
    }

    fn attrs_answer(&self, req_id: u32, path: &str) -> Vec<u8> {
        match self.files.get(path) {
            Some(contents) => {
                let mut body = Vec::new();
                put_size(&mut body, contents.len() as u64);
                answer(105, req_id, &body)
            }
            None => status_answer(req_id, 2, "No such file"),
        }
    }

    fn name_answer(&self, req_id: u32, names: &[String]) -> Vec<u8> {
        let mut body = Vec::new();
        put_u32(&mut body, names.len() as u32);
        for name in names {
            put_string(&mut body, name.as_bytes());
            put_string(&mut body, format!("-rw-r--r-- {}", name).as_bytes());
            put_u32(&mut body, 0);
        }
        answer(104, req_id, &body)
    }

    /// Takes one request frame and gives the frame that answers it.
    fn serve(&mut self, frame: &[u8]) -> Vec<u8> {
        let mut c = Cursor { bytes: frame };
        let len = c.u32() as usize;
        assert_eq!(len, c.bytes.len());
        let msg_type = c.u8();
        let id = c.u32();
        match msg_type {
            3 => {
                let path = c.path();
                let flags = c.u32();
                if flags & 0x08 != 0 && !self.files.contains_key(&path) {
                    self.files.insert(path.clone(), Vec::new());
                }
                let path = self.resolve(&path);
                if !self.files.contains_key(&path) {
                    return status_answer(id, 2, "No such file");
                }
                let mut body = Vec::new();
                let handle = self.open(Open::File(path));
                put_string(&mut body, &handle);
                answer(102, id, &body)
            }
            4 => {
                let i = Server::index(&c.string());
                self.handles[i] = None;
                status_answer(id, 0, "Success")
            }
            5 => {
                let i = Server::index(&c.string());
                let offset = c.u64() as usize;
                let len = c.u32() as usize;
                let contents = match &self.handles[i] {
                    Some(Open::File(path)) => &self.files[path],
                    _ => return status_answer(id, 4, "Failure"),
                };
                if offset >= contents.len() {
                    return status_answer(id, 1, "End of file");
                }
                let end = contents.len().min(offset + len);
                let mut body = Vec::new();
                put_string(&mut body, &contents[offset..end]);
                answer(103, id, &body)
            }
            6 => {
                let i = Server::index(&c.string());
                let offset = c.u64() as usize;
                let data = c.string();
                let path = match &self.handles[i] {
                    Some(Open::File(path)) => path.clone(),
                    _ => return status_answer(id, 4, "Failure"),
                };
                let contents = self.files.get_mut(&path).unwrap();
                if contents.len() < offset + data.len() {
                    contents.resize(offset + data.len(), 0);
                }
                contents[offset..offset + data.len()].copy_from_slice(&data);
                status_answer(id, 0, "Success")
            }
            7 => {
                let path = c.path();
                match self.links.get(&path) {
                    Some(target) => {
                        let mut body = Vec::new();
                        put_size(&mut body, target.len() as u64);
                        answer(105, id, &body)
                    }
                    None => self.attrs_answer(id, &path),
                }
            }
            8 => {
                let i = Server::index(&c.string());
                match &self.handles[i] {
                    Some(Open::File(path)) => self.attrs_answer(id, &path.clone()),
                    _ => status_answer(id, 4, "Failure"),
                }
            }
            9 => {
                let path = c.path();
                if let Some(mtime) = c.mtime() {
                    self.mtimes.insert(path, mtime);
                }
                status_answer(id, 0, "Success")
            }
            10 => {
                let i = Server::index(&c.string());
                let path = match &self.handles[i] {
                    Some(Open::File(path)) => path.clone(),
                    _ => return status_answer(id, 4, "Failure"),
                };
                if let Some(mtime) = c.mtime() {
                    self.mtimes.insert(path, mtime);
                }
                status_answer(id, 0, "Success")
            }
            11 => {
                let path = c.path();
                if !self.dirs.contains(&path) {
                    return status_answer(id, 2, "No such file");
                }
                let mut body = Vec::new();
                let handle = self.open(Open::Dir(path, false));
                put_string(&mut body, &handle);
                answer(102, id, &body)
            }
            12 => {
                let i = Server::index(&c.string());
                let dir = match &mut self.handles[i] {
                    Some(Open::Dir(dir, listed)) => {
                        if *listed {
                            return status_answer(id, 1, "End of file");
                        }
                        *listed = true;
                        dir.clone()
                    }
                    _ => return status_answer(id, 4, "Failure"),
                };
                let prefix = format!("{}/", dir);
                let mut names = vec![".".to_string(), "..".to_string()];
                for path in self.files.keys() {
                    if let Some(name) = path.strip_prefix(&prefix) {
                        names.push(name.to_string());
                    }
                }
                self.name_answer(id, &names)
            }
            13 => {
                let path = c.path();
                match self.files.remove(&path) {
                    Some(_) => status_answer(id, 0, "Success"),
                    None => status_answer(id, 2, "No such file"),
                }
            }
            14 => {
                let path = c.path();
                if self.dirs.contains(&path) {
                    return status_answer(id, 4, "Failure");
                }
                self.dirs.push(path);
                status_answer(id, 0, "Success")
            }
            15 => {
                let path = c.path();
                match self.dirs.iter().position(|d| *d == path) {
                    Some(i) => {
                        self.dirs.remove(i);
                        status_answer(id, 0, "Success")
                    }
                    None => status_answer(id, 2, "No such file"),
                }
            }
            16 => {
                let path = c.path();
                self.name_answer(id, &[path])
            }
            17 => {
                let path = self.resolve(&c.path());
                self.attrs_answer(id, &path)
            }
            18 => {
                let old = c.path();
                let new = c.path();
                match self.files.remove(&old) {
                    Some(contents) => {
                        self.files.insert(new, contents);
                        status_answer(id, 0, "Success")
                    }
                    None => status_answer(id, 2, "No such file"),
                }
            }
            19 => {
                let path = c.path();
                match self.links.get(&path) {
                    Some(target) => self.name_answer(id, &[target.clone()]),
                    None => status_answer(id, 2, "No such file"),
                }
            }
            _ => status_answer(id, 8, "Unsupported"),
        }
    }
}

/// A client and a server joined without a stream: each request is answered
/// on the spot.
struct Session {
    client: Client<u32>,
    server: Server,
    waiters: u32,
}

impl Session {
    fn new(server: Server) -> Session {
        let version = server.version(&send_init());
        let mut r: &[u8] = &version;
        let client = Client::new(recv(&mut r).unwrap()).unwrap();
        Session { client, server, waiters: 0 }
    }

    fn waiter(&mut self) -> u32 {
        self.waiters += 1;
        self.waiters
    }

    fn deliver(&mut self, answer: &[u8], waiter: u32) -> Result<SftpResponsePacket, Error> {
        let mut r: &[u8] = answer;
        let event = recv(&mut r);
        assert!(r.is_empty());
        match self.client.route(event) {
            Routed::Delivered { slot, packet } => {
                assert_eq!(slot, waiter);
                Ok(packet)
            }
            Routed::Disconnected { cause, .. } => Err(disconnect_notice(&cause)),
        }
    }

    fn exchange(
        &mut self,
        sent: Option<Result<Vec<u8>, Error>>,
        waiter: u32,
    ) -> Result<SftpResponsePacket, Error> {
        let frame = sent.unwrap()?;
        let answer = self.server.serve(&frame);
        self.deliver(&answer, waiter)
    }

    fn stat(&mut self, path: String) -> Result<FileAttr, Error> {
        let w = self.waiter();
        let sent = self.client.stat(path, w);
        expect_attrs(self.exchange(sent, w)?)
    }

    fn lstat(&mut self, path: String) -> Result<FileAttr, Error> {
        let w = self.waiter();
        let sent = self.client.lstat(path, w);
        expect_attrs(self.exchange(sent, w)?)
    }

    fn setstat(&mut self, path: String, attrs: FileAttr) -> Result<(), Error> {
        let w = self.waiter();
        let sent = self.client.setstat(path, attrs, w);
        expect_status_response(self.exchange(sent, w)?)
    }

    fn mkdir(&mut self, path: String) -> Result<(), Error> {
        let w = self.waiter();
        let sent = self.client.mkdir(path, w);
        expect_status_response(self.exchange(sent, w)?)
    }

    fn rmdir(&mut self, path: String) -> Result<(), Error> {
        let w = self.waiter();
        let sent = self.client.rmdir(path, w);
        expect_status_response(self.exchange(sent, w)?)
    }

    fn remove(&mut self, path: String) -> Result<(), Error> {
        let w = self.waiter();
        let sent = self.client.remove(path, w);
        expect_status_response(self.exchange(sent, w)?)
    }

    fn rename(&mut self, old: String, new: String) -> Result<(), Error> {
        let w = self.waiter();
        let sent = self.client.rename(old, new, w);
        expect_status_response(self.exchange(sent, w)?)
    }

    fn realpath(&mut self, path: String) -> Result<Name, Error> {
        let w = self.waiter();
        let sent = self.client.realpath(path, w);
        expect_name(self.exchange(sent, w)?)
    }

    fn readlink(&mut self, path: String) -> Result<Name, Error> {
        let w = self.waiter();
        let sent = self.client.readlink(path, w);
        expect_name(self.exchange(sent, w)?)
    }

    fn open(&mut self, path: String, read: bool, write: bool) -> Result<File, Error> {
        let w = self.waiter();
        let sent =
            self.client.open_options().read(read).write(write).open(&mut self.client, path, w);
        File::from_reply(self.exchange(sent, w)?)
    }

    fn readdir(&mut self, path: String) -> Result<ReadDir, Error> {
        let w = self.waiter();
        let sent = self.client.readdir(path, w);
        ReadDir::from_reply(self.exchange(sent, w)?)
    }

    fn read(&mut self, file: &mut File, buf: &mut [u8]) -> Result<usize, IoError> {
        let w = self.waiter();
        let sent = file.read(&mut self.client, buf.len(), w);
        let reply = self.exchange(sent, w);
        file.read_reply(reply, buf)
    }

    fn read_to_end(&mut self, file: &mut File, out: &mut Vec<u8>) -> Result<usize, IoError> {
        let mut total = 0;
        loop {
            let mut buf = [0u8; 5];
            let n = self.read(file, &mut buf)?;
            if n == 0 {
                return Ok(total);
            }
            out.extend_from_slice(&buf[..n]);
            total += n;
        }
    }

    fn write_all(&mut self, file: &mut File, buf: &[u8]) -> Result<(), IoError> {
        let w = self.waiter();
        let sent = file.write(&mut self.client, buf, w);
        let reply = self.exchange(sent, w);
        assert_eq!(file.write_reply(reply, buf.len())?, buf.len());
        Ok(())
    }

    fn fstat(&mut self, file: &File) -> Result<FileAttr, Error> {
        let w = self.waiter();
        let sent = file.stat(&mut self.client, w);
        expect_attrs(self.exchange(sent, w)?)
    }

    fn fsetstat(&mut self, file: &File, attrs: FileAttr) -> Result<(), Error> {
        let w = self.waiter();
        let sent = file.setstat(&mut self.client, attrs, w);
        expect_status_response(self.exchange(sent, w)?)
    }

    fn seek(&mut self, file: &mut File, pos: SeekFrom) -> Result<u64, IoError> {
        match file.seek(pos)? {
            Seek::Done(at) => Ok(at),
            Seek::NeedsSize(i) => {
                let stat = self.fstat(file);
                file.seek_end(i, stat)
            }
        }
    }

    fn next_entry(&mut self, dir: &mut ReadDir) -> Option<Result<Name, Error>> {
        loop {
            if let Some(name) = dir.next() {
                return Some(Ok(name));
            }
            let w = self.waiter();
            let sent = dir.fetch(&mut self.client, w);
            let reply = self.exchange(sent, w);
            match dir.refill(reply) {
                Ok(true) => {}
                Ok(false) => return None,
                Err(e) => return Some(Err(e)),
            }
        }
    }
}

const CONTENTS: &str = "tempfile contents";

fn server_with(path: &str, contents: &str) -> Server {
    let mut server = Server::new();
    server.files.insert(path.to_string(), contents.as_bytes().to_vec());
    server
}

#[test]
fn can_stat() {
    let mut session = Session::new(server_with("/tmp/file", CONTENTS));
    let result = session.stat("/tmp/file".to_string()).unwrap();
    assert_eq!(CONTENTS.len() as u64, result.size.unwrap());
    assert_eq!(17, result.size.unwrap());
}

#[test]
fn can_lstat() {
    let mut server = server_with("/tmp/file", CONTENTS);
    server.links.insert("/tmp/link".to_string(), "/tmp/file".to_string());
    let mut session = Session::new(server);
    let lresult = session.lstat("/tmp/link".to_string()).unwrap();
    let result = session.stat("/tmp/file".to_string()).unwrap();
    assert!(lresult.size.unwrap() != result.size.unwrap());
    let through = session.stat("/tmp/link".to_string()).unwrap();
    assert_eq!(through.size, result.size);
}

#[test]
fn can_read() {
    let mut session = Session::new(server_with("/tmp/file", CONTENTS));
    let mut remote_file = session.open("/tmp/file".to_string(), true, false).unwrap();
    let mut remote_contents = vec![0, 0, 0, 0];
    let n = session.read(&mut remote_file, &mut remote_contents[..]).unwrap();
    assert_eq!(4, n);
    session.read_to_end(&mut remote_file, &mut remote_contents).unwrap();
    assert_eq!(CONTENTS, String::from_utf8(remote_contents).unwrap());
    assert_eq!(remote_file.offset(), 17);
    let mut more = [0u8; 4];
    assert_eq!(session.read(&mut remote_file, &mut more), Ok(0));
    assert_eq!(remote_file.offset(), 17);
}

#[test]
fn can_write() {
    let mut session = Session::new(server_with("/tmp/file", ""));
    let mut remote_file = session.open("/tmp/file".to_string(), false, true).unwrap();
    session.write_all(&mut remote_file, CONTENTS.as_bytes()).unwrap();
    session.write_all(&mut remote_file, CONTENTS.as_bytes()).unwrap();
    let expected = {
        let mut x = String::from(CONTENTS);
        x.push_str(CONTENTS);
        x
    };
    let tempfile_contents = String::from_utf8(session.server.files["/tmp/file"].clone()).unwrap();
    assert_eq!(expected, tempfile_contents);
    assert_eq!("tempfile contentstempfile contents", tempfile_contents);
}

#[test]
fn can_remove() {
    let mut session = Session::new(server_with("/tmp/file", ""));
    assert!(session.server.files.contains_key("/tmp/file"));
    session.remove("/tmp/file".to_string()).unwrap();
    assert!(!session.server.files.contains_key("/tmp/file"));
    assert!(matches!(session.remove("/tmp/file".to_string()), Err(Error::ServerError(_))));
}

#[test]
fn can_mkdir() {
    let mut session = Session::new(Server::new());
    assert!(!session.server.dirs.contains(&"/tmp/dir".to_string()));
    session.mkdir("/tmp/dir".to_string()).unwrap();
    assert!(session.server.dirs.contains(&"/tmp/dir".to_string()));
}

#[test]
fn can_rmdir() {
    let mut server = Server::new();
    server.dirs.push("/tmp/dir".to_string());
    let mut session = Session::new(server);
    session.rmdir("/tmp/dir".to_string()).unwrap();
    assert!(!session.server.dirs.contains(&"/tmp/dir".to_string()));
}

#[test]
fn can_setstat() {
    let mut session = Session::new(server_with("/tmp/file", ""));
    session.server.mtimes.insert("/tmp/file".to_string(), 1234);
    let mut new_attrs = FileAttr::new();
    new_attrs.mtime = Some(0);
    new_attrs.atime = Some(0);
    session.setstat("/tmp/file".to_string(), new_attrs).unwrap();
    assert_eq!(0, session.server.mtimes["/tmp/file"]);
}

#[test]
fn can_fsetstat() {
    let mut session = Session::new(server_with("/tmp/file", ""));
    session.server.mtimes.insert("/tmp/file".to_string(), 1234);
    let mut new_attrs = FileAttr::new();
    new_attrs.mtime = Some(0);
    new_attrs.atime = Some(0);
    let file = session.open("/tmp/file".to_string(), true, false).unwrap();
    session.fsetstat(&file, new_attrs).unwrap();
    assert_eq!(0, session.server.mtimes["/tmp/file"]);
}

#[test]
fn can_realpath() {
    let mut session = Session::new(server_with("/tmp/file", ""));
    let name = session.realpath("/tmp/file".to_string()).unwrap();
    assert_eq!("/tmp/file".to_string().into_bytes(), name.filename);
}

#[test]
fn can_rename() {
    let mut session = Session::new(server_with("/tmp/file", "x"));
    assert!(!session.server.files.contains_key("/tmp/new"));
    session.rename("/tmp/file".to_string(), "/tmp/new".to_string()).unwrap();
    assert_eq!(session.server.files["/tmp/new"], b"x".to_vec());
}

#[test]
fn can_readlink() {
    const LINK_TARGET: &str = "/tmp/foobar";
    let mut server = Server::new();
    server.links.insert("/tmp/link".to_string(), LINK_TARGET.to_string());
    let mut session = Session::new(server);
    let dst = session.readlink("/tmp/link".to_string()).unwrap();
    assert_eq!(LINK_TARGET.as_bytes(), dst.filename.as_slice());
}

#[test]
fn can_readdir() {
    let mut server = Server::new();
    server.dirs.push("/tmp/sftp_readdir".to_string());
    let mut files = HashMap::new();
    for i in 0..100 {
        let fname = format!("file-{}", i);
        files.insert(fname.to_string(), ());
        server.files.insert(format!("/tmp/sftp_readdir/{}", fname), Vec::new());
    }
    let mut session = Session::new(server);
    let mut dir = session.readdir("/tmp/sftp_readdir".to_string()).unwrap();
    while let Some(file) = session.next_entry(&mut dir) {
        let fname = String::from_utf8(file.unwrap().filename).unwrap();
        if fname == "." || fname == ".." {
            continue;
        }
        match files.remove(&fname) {
            None => panic!("unexpected file returned from readdir: {:?}", fname),
            Some(_) => {}
        }
    }
    assert_eq!(0, files.len());
}

#[test]
fn can_seek() {
    let mut session = Session::new(server_with("/tmp/file", CONTENTS));
    let mut file = session.open("/tmp/file".to_string(), true, false).unwrap();
    assert_eq!(session.seek(&mut file, SeekFrom::End(-8)), Ok(9));
    let mut tail = Vec::new();
    session.read_to_end(&mut file, &mut tail).unwrap();
    assert_eq!(tail, b"contents".to_vec());
    assert_eq!(session.seek(&mut file, SeekFrom::End(-18)), Err(IoError::InvalidSeek));
    assert_eq!(file.offset(), 17);
    assert_eq!(session.seek(&mut file, SeekFrom::Current(-18)), Err(IoError::InvalidSeek));
    assert_eq!(file.offset(), 17);
    assert_eq!(session.seek(&mut file, SeekFrom::Start(4)), Ok(4));
}

#[test]
fn a_missing_file_is_the_servers_refusal() {
    let mut session = Session::new(Server::new());
    match session.stat("/nowhere".to_string()) {
        Err(Error::ServerError(status)) => {
            assert_eq!(status.message(), "NoSuchFile: No such file")
        }
        other => panic!("unexpected: {:?}", other),
    }
    assert!(matches!(
        session.open("/nowhere".to_string(), true, false),
        Err(Error::ServerError(_))
    ));
    assert!(!session.client.is_failed());
}

fn is_send_and_sync<T: Send + Sync>() {}

#[test]
fn is_send() {
    is_send_and_sync::<Client<u32>>();
    is_send_and_sync::<File>();
    is_send_and_sync::<ReadDir>();
    is_send_and_sync::<Error>();
    fn sendable<T: Send>() {}
    sendable::<Client<mpsc::Sender<Result<SftpResponsePacket, Error>>>>();

    let mut server = server_with("/tmp/file1", "file1");
    server.files.insert("/tmp/file2".to_string(), b"file2".to_vec());
    let mut session = Session::new(server);
    let mut file = session.open("/tmp/file1".to_string(), true, false).unwrap();
    let mut file2 = session.open("/tmp/file2".to_string(), true, false).unwrap();

    // Two readers and a stat ask at once; the answers come back in another order.
    let frame1 = file.read(&mut session.client, 16, 101).unwrap().unwrap();
    let frame2 = file2.read(&mut session.client, 16, 102).unwrap().unwrap();
    let frame3 = file.stat(&mut session.client, 103).unwrap().unwrap();
    assert_eq!(session.client.pending(), 3);
    let answer1 = session.server.serve(&frame1);
    let answer2 = session.server.serve(&frame2);
    let answer3 = session.server.serve(&frame3);
    let reply3 = session.deliver(&answer3, 103);
    let reply2 = session.deliver(&answer2, 102);
    let reply1 = session.deliver(&answer1, 101);
    assert_eq!(session.client.pending(), 0);

    let mut contents = [0u8; 16];
    let n = file.read_reply(reply1, &mut contents).unwrap();
    assert_eq!(&contents[..n], b"file1");
    let mut contents = [0u8; 16];
    let n = file2.read_reply(reply2, &mut contents).unwrap();
    assert_eq!(&contents[..n], b"file2");
    assert_eq!(expect_attrs(reply3.unwrap()).unwrap().size, Some(5));
}

#[test]
fn a_broken_stream_releases_every_waiter() {
    let mut session = Session::new(server_with("/tmp/file", CONTENTS));
    let file = session.open("/tmp/file".to_string(), true, false).unwrap();
    file.read(&mut session.client, 4, 1).unwrap().unwrap();
    file.stat(&mut session.client, 2).unwrap().unwrap();
    // The server's answer is cut off in the middle.
    let mut r: &[u8] = &[0, 0, 0, 9, 103, 0, 0];
    let event = recv(&mut r);
    let (waiters, cause) = match session.client.route(event) {
        Routed::Disconnected { waiters, cause } => (waiters, cause),
        Routed::Delivered { .. } => panic!("delivered"),
    };
    let mut released: Vec<u32> = waiters.values().copied().collect();
    released.sort();
    assert_eq!(released, vec![1, 2]);
    assert_eq!(**cause, Error::UnexpectedEOF);
    assert_eq!(disconnect_notice(&cause).message(), "Receiver disconnected: Unexpected EOF.");
    assert_eq!(
        session.stat("/tmp/file".to_string()),
        Err(disconnect_notice(&cause))
    );
}
