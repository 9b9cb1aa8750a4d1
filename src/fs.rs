use vstd::prelude::*;
use crate::cache::{fetched_view, FetchError};
use crate::text::{chars_of, copy_vec, same_chars};
use crate::permissions::{counted, denial_is, verdict, Capability, PermissionDenied, Permissions, Verdict};

verus! {

/// One call made of a host I/O backend, with what it returned.
pub enum IoCall {
    Read(Seq<char>, Result<Seq<u8>, FetchError>),
    Write(Seq<char>, Seq<u8>, Result<(), FetchError>),
}

/// The host I/O backend behind the filesystem module. What a call returns
/// depends on the host; each call is recorded in `calls`, in order.
pub trait HostIo {
    /// The calls made of this backend so far.
    spec fn calls(&self) -> Seq<IoCall>;

    fn read(&mut self, path: &str) -> (r: Result<Vec<u8>, FetchError>)
        ensures
            final(self).calls() == old(self).calls().push(IoCall::Read(path@, fetched_view(r))),
    ;

    fn write(&mut self, path: &str, data: &Vec<u8>) -> (r: Result<(), FetchError>)
        ensures
            final(self).calls() == old(self).calls().push(IoCall::Write(path@, data@, r)),
    ;
}

#[derive(Clone, Debug)]
pub enum FsError {
    /// The broker refused; the backend was not called.
    Denied(PermissionDenied),
    /// The backend failed.
    Io(FetchError),
}

/// The filesystem capability module: the only holder of the broker, which
/// it consults once before every call of the backend.
pub struct FsModule<B: HostIo> {
    pub broker: Permissions,
    pub backend: B,
}

/// What the backend returned, as `read_file` passes it on.
pub open spec fn read_result(r: Result<Vec<u8>, FsError>) -> Result<Seq<u8>, FetchError> {
    match r {
        Ok(b) => Ok(b@),
        Err(FsError::Io(e)) => Err(e),
        Err(FsError::Denied(_)) => Err(FetchError::Denied),
    }
}

/// What the backend returned, as `write_file` passes it on.
pub open spec fn write_result(r: Result<(), FsError>) -> Result<(), FetchError> {
    match r {
        Ok(()) => Ok(()),
        Err(FsError::Io(e)) => Err(e),
        Err(FsError::Denied(_)) => Err(FetchError::Denied),
    }
}

/// `r` and `after` are what an operation guarded by capability `c` on
/// `path` gives on `before`: one request is counted; a denial is reported
/// and leaves the backend untouched; an allowance makes exactly one backend
/// call, `call`.
pub open spec fn guarded<B: HostIo, T>(
    before: FsModule<B>,
    after: FsModule<B>,
    c: Capability,
    path: Seq<char>,
    call: IoCall,
    r: Result<T, FsError>,
) -> bool {
    &&& counted(before.broker, after.broker)
    &&& match verdict(before.broker.policy, c, Some(path), false, false) {
        Verdict::Denied(_) => after.backend == before.backend && (r matches Err(FsError::Denied(e))
            && denial_is(e, c, Some(path))),
        Verdict::Allowed => !(r matches Err(FsError::Denied(_))) && after.backend.calls()
            == before.backend.calls().push(call),
    }
}

impl<B: HostIo> FsModule<B> {
    pub fn new(broker: Permissions, backend: B) -> (r: FsModule<B>)
        ensures
            r.broker == broker,
            r.backend == backend,
    {
        FsModule { broker, backend }
    }

    /// Reads the file at `path`, if the broker allows reading it.
    pub fn read_file(&mut self, path: &str) -> (r: Result<Vec<u8>, FsError>)
        ensures
            guarded(*old(self), *final(self), Capability::Read, path@, IoCall::Read(path@, read_result(r)), r),
    {
        match self.broker.check_read(path, "read_file") {
            Err(e) => Err(FsError::Denied(e)),
            Ok(()) => match self.backend.read(path) {
                Ok(bytes) => Ok(bytes),
                Err(e) => Err(FsError::Io(e)),
            },
        }
    }

    /// Writes `data` to the file at `path`, if the broker allows writing it.
    pub fn write_file(&mut self, path: &str, data: &Vec<u8>) -> (r: Result<(), FsError>)
        ensures
            guarded(*old(self), *final(self), Capability::Write, path@, IoCall::Write(path@, data@, write_result(r)), r),
    {
        match self.broker.check_write(path, "write_file") {
            Err(e) => Err(FsError::Denied(e)),
            Ok(()) => {
                let w = self.backend.write(path, data);
                match w {
                    Ok(u) => {
                        assert(w == Ok::<(), FetchError>(()));
                        Ok(u)
                    },
                    Err(e) => Err(FsError::Io(e)),
                }
            },
        }
    }
}

/// A backend that keeps its files in memory, as (path, contents) pairs,
/// and counts the reads and writes made of it.
pub struct MemoryIo {
    pub files: Vec<(String, Vec<u8>)>,
    pub reads: u64,
    pub writes: u64,
    pub log: Ghost<Seq<IoCall>>,
}

impl MemoryIo {
    pub fn new(files: Vec<(String, Vec<u8>)>) -> (r: MemoryIo)
        ensures
            r.files == files,
            r.reads == 0,
            r.writes == 0,
            r.calls() == Seq::<IoCall>::empty(),
    {
        MemoryIo { files, reads: 0, writes: 0, log: Ghost(Seq::empty()) }
    }

    /// The index of the file at `path`, if there is one.
    fn position(&self, path: &str) -> (r: Option<usize>)
        ensures
            r matches Some(k) ==> k < self.files@.len() && self.files@[k as int].0@ == path@,
    {
        let mut k: usize = 0;
        while k < self.files.len()
            invariant
                k <= self.files@.len(),
            decreases self.files@.len() - k,
        {
            let name = chars_of(self.files[k].0.as_str());
            if same_chars(&name, path) {
                return Some(k);
            }
            k = k + 1;
        }
        None
    }
}

impl HostIo for MemoryIo {
    open spec fn calls(&self) -> Seq<IoCall> {
        self.log@
    }

    fn read(&mut self, path: &str) -> (r: Result<Vec<u8>, FetchError>) {
        self.reads = self.reads.saturating_add(1);
        let r = match self.position(path) {
            Some(k) => Ok(copy_vec(&self.files[k].1)),
            None => Err(FetchError::NotFound),
        };
        self.log = Ghost(self.log@.push(IoCall::Read(path@, fetched_view(r))));
        r
    }

    fn write(&mut self, path: &str, data: &Vec<u8>) -> (r: Result<(), FetchError>) {
        self.log = Ghost(self.log@.push(IoCall::Write(path@, data@, Ok(()))));
        self.writes = self.writes.saturating_add(1);
        let entry = (path.to_owned(), data.clone());
        match self.position(path) {
            Some(k) => {
                self.files.set(k, entry);
            },
            None => {
                self.files.push(entry);
            },
        }
        Ok(())
    }
}

} // verus!
