//! The connection pool: at most one live session per host id.
//!
//! `ConnectionPool` is the map itself, with exact contracts. `ConnectionManager`
//! shares one pool between threads behind a lock, and lends each session out
//! behind a lock of its own, so that operations on one host run one at a time
//! while different hosts proceed in parallel.

use vstd::prelude::*;
use vstd::rwlock::{RwLock, RwLockPredicate};
use std::sync::Arc;
use crate::model::{FileEntry, Host};
use crate::text::{decimal, decimal_string, join_str};
use vstd::string::StringExecFns;

verus! {

/// Chunk size of uploads and downloads, in bytes.
pub const CHUNK_SIZE: usize = 32768;

/// Receives the progress of a transfer after each chunk: the bytes of the
/// file represented at the destination, and the file's size.
pub trait ProgressSink {
    fn report(&self, transferred: u64, total: u64);
}

/// The operations of a session with one remote server, common to FTP and SFTP.
/// Every path is absolute. An operation on a session that is not connected
/// fails without touching the network.
pub trait ConnectionTrait: Sized {
    /// A session for `host`, not yet connected.
    fn from_host(host: &Host) -> Self;

    fn connect(&mut self) -> Result<(), String>;

    /// Ends the session; on a session that is not connected this succeeds.
    fn disconnect(&mut self) -> Result<(), String>;

    fn is_connected(&self) -> bool;

    fn list_dir(&mut self, path: &str) -> Result<Vec<FileEntry>, String>;

    fn file_size(&mut self, path: &str) -> Result<u64, String>;

    fn file_exists(&mut self, path: &str) -> Result<bool, String>;

    /// Sends `local_path` to `remote_path`, starting `offset` bytes in. After
    /// each chunk `progress` receives the bytes of the file now represented
    /// remotely, offset included, and the file's size. Returns the bytes
    /// moved by this call.
    fn upload(
        &mut self,
        local_path: &str,
        remote_path: &str,
        offset: u64,
        progress: Option<&dyn ProgressSink>,
    ) -> Result<u64, String>;

    /// Fetches `remote_path` into `local_path`, starting `offset` bytes in;
    /// `progress` and the result as for `upload`.
    fn download(
        &mut self,
        remote_path: &str,
        local_path: &str,
        offset: u64,
        progress: Option<&dyn ProgressSink>,
    ) -> Result<u64, String>;

    fn mkdir(&mut self, path: &str) -> Result<(), String>;

    fn remove_file(&mut self, path: &str) -> Result<(), String>;

    fn remove_dir(&mut self, path: &str) -> Result<(), String>;

    fn rename(&mut self, from: &str, to: &str) -> Result<(), String>;
}

/// The ids after a connect-if-absent of `id`.
pub open spec fn with_id(ids: Seq<i64>, id: i64) -> Seq<i64> {
    if ids.contains(id) {
        ids
    } else {
        ids.push(id)
    }
}

/// Connecting is idempotent: once an id is pooled, a second connect of it
/// finds it pooled, opens no session and leaves the ids as they are.
pub proof fn lemma_connect_idempotent(ids: Seq<i64>, id: i64)
    ensures
        with_id(ids, id).contains(id),
        with_id(with_id(ids, id), id) == with_id(ids, id),
{
    if !ids.contains(id) {
        assert(ids.push(id)[ids.len() as int] == id);
    }
}

/// One handle per host id, in the order the hosts were added.
pub struct ConnectionPool<H> {
    ids: Vec<i64>,
    handles: Vec<H>,
}

impl<H> ConnectionPool<H> {
    /// The host ids present, oldest first.
    pub closed spec fn ids(&self) -> Seq<i64> {
        self.ids@
    }

    /// The handles, in the order of `ids`.
    pub closed spec fn handles(&self) -> Seq<H> {
        self.handles@
    }

    pub open spec fn has(&self, id: i64) -> bool {
        self.ids().contains(id)
    }

    /// The handle held for `id`.
    pub open spec fn handle_of(&self, id: i64) -> H {
        self.handles()[self.ids().index_of(id)]
    }

    pub closed spec fn wf(&self) -> bool {
        &&& self.ids@.len() == self.handles@.len()
        &&& self.ids@.no_duplicates()
    }

    /// A well-formed pool, which is all the manager's lock holds, has at
    /// most one session per host id, and one handle per id.
    pub proof fn lemma_one_session_per_host(&self)
        requires
            self.wf(),
        ensures
            self.ids().no_duplicates(),
            self.ids().len() == self.handles().len(),
    {
    }

    proof fn lemma_index(&self, id: i64, i: int)
        requires
            self.wf(),
            0 <= i < self.ids().len(),
            self.ids()[i] == id,
        ensures
            self.ids().index_of(id) == i,
    {
        let k = self.ids().index_of(id);
        assert(0 <= k < self.ids().len() && self.ids()[k] == id);
    }

    pub fn new() -> (r: Self)
        ensures
            r.wf(),
            r.ids() == Seq::<i64>::empty(),
    {
        ConnectionPool { ids: Vec::new(), handles: Vec::new() }
    }

    fn position(&self, id: i64) -> (r: Option<usize>)
        requires
            self.wf(),
        ensures
            r is None <==> !self.has(id),
            r matches Some(i) ==> i < self.ids().len() && self.ids()[i as int] == id
                && self.ids().index_of(id) == i,
    {
        let mut i: usize = 0;
        while i < self.ids.len()
            invariant
                self.wf(),
                0 <= i <= self.ids@.len(),
                forall|j: int| 0 <= j < i ==> self.ids@[j] != id,
            decreases self.ids@.len() - i,
        {
            if self.ids[i] == id {
                proof {
                    self.lemma_index(id, i as int);
                }
                return Some(i);
            }
            i = i + 1;
        }
        None
    }

    pub fn contains(&self, id: i64) -> (r: bool)
        requires
            self.wf(),
        ensures
            r == self.has(id),
    {
        self.position(id).is_some()
    }

    /// Adds `h` under `id` unless `id` is present already; then nothing changes
    /// and `h` is handed back.
    pub fn insert_if_absent(&mut self, id: i64, h: H) -> (r: Option<H>)
        requires
            old(self).wf(),
        ensures
            final(self).wf(),
            final(self).ids() == with_id(old(self).ids(), id),
            old(self).has(id) ==> r == Some(h) && final(self).handles() == old(self).handles(),
            !old(self).has(id) ==> r is None && final(self).handles() == old(self).handles().push(h),
    {
        if self.contains(id) {
            Some(h)
        } else {
            self.ids.push(id);
            self.handles.push(h);
            proof {
                assert forall|a: int, b: int|
                    0 <= a < self.ids@.len() && 0 <= b < self.ids@.len() && a != b implies
                    self.ids@[a] != self.ids@[b] by {
                    if a == self.ids@.len() - 1 || b == self.ids@.len() - 1 {
                        assert(!old(self).ids@.contains(id));
                    }
                }
            }
            None
        }
    }

    /// Takes the entry of `id` out of the pool.
    pub fn remove(&mut self, id: i64) -> (r: Option<H>)
        requires
            old(self).wf(),
        ensures
            final(self).wf(),
            !old(self).has(id) ==> r is None && final(self).ids() == old(self).ids()
                && final(self).handles() == old(self).handles(),
            old(self).has(id) ==> r == Some(old(self).handle_of(id))
                && final(self).ids() == old(self).ids().remove(old(self).ids().index_of(id))
                && final(self).handles() == old(self).handles().remove(old(self).ids().index_of(id)),
            !final(self).has(id),
    {
        match self.position(id) {
            None => None,
            Some(i) => {
                let ghost before = self.ids@;
                self.ids.remove(i);
                let h = self.handles.remove(i);
                proof {
                    before.remove_ensures(i as int);
                    assert forall|a: int, b: int|
                        0 <= a < self.ids@.len() && 0 <= b < self.ids@.len() && a != b implies
                        self.ids@[a] != self.ids@[b] by {
                        let a0 = if a < i { a } else { a + 1 };
                        let b0 = if b < i { b } else { b + 1 };
                        assert(self.ids@[a] == before[a0]);
                        assert(self.ids@[b] == before[b0]);
                    }
                    assert forall|j: int| 0 <= j < self.ids@.len() implies self.ids@[j] != id by {
                        let j0 = if j < i { j } else { j + 1 };
                        assert(self.ids@[j] == before[j0]);
                    }
                }
                Some(h)
            },
        }
    }

    /// The handle of `id`, if present.
    pub fn get(&self, id: i64) -> (r: Option<&H>)
        requires
            self.wf(),
        ensures
            r is Some <==> self.has(id),
            r matches Some(h) ==> *h == self.handle_of(id),
    {
        match self.position(id) {
            None => None,
            Some(i) => Some(&self.handles[i]),
        }
    }

    /// The host ids present, oldest first.
    pub fn active_ids(&self) -> (r: Vec<i64>)
        ensures
            r@ == self.ids(),
    {
        self.ids.clone()
    }

    /// Empties the pool and hands back every handle.
    pub fn drain(&mut self) -> (r: Vec<H>)
        requires
            old(self).wf(),
        ensures
            final(self).wf(),
            final(self).ids() == Seq::<i64>::empty(),
            r@ == old(self).handles(),
    {
        let mut handles = Vec::new();
        std::mem::swap(&mut handles, &mut self.handles);
        self.ids = Vec::new();
        handles
    }
}

/// The lock invariant of a shared pool: it is well formed.
pub struct PoolInvariant;

impl<H> RwLockPredicate<ConnectionPool<H>> for PoolInvariant {
    open spec fn inv(self, v: ConnectionPool<H>) -> bool {
        v.wf()
    }
}

/// A session lock holds any session.
pub struct AnySession;

impl<C> RwLockPredicate<C> for AnySession {
    open spec fn inv(self, v: C) -> bool {
        true
    }
}

/// A pooled session. Whoever acquires its write lock owns the session until
/// the lock is released; that lock serializes every operation on one host.
/// The lock is not released when its handle is dropped: release it with
/// `release_write`, giving the session back.
pub type SharedConnection<C> = Arc<RwLock<C, AnySession>>;

/// The error of a lookup of a host with no pooled session.
pub open spec fn no_connection_message(host_id: i64) -> Seq<char> {
    "No active connection for host "@ + decimal(host_id as int)
}

/// A pool of live sessions shared between threads; clones share the pool.
///
/// The pool's own lock is held only to look up, add or take out entries,
/// never while a session connects, transfers or disconnects. Its invariant
/// keeps the pool well formed, so there is never more than one session per
/// host id. Other threads may change the pool between two calls, so the
/// contracts here state what holds whatever they do; the pool's own
/// operations, on `ConnectionPool`, have the exact ones.
pub struct ConnectionManager<C> {
    connections: Arc<RwLock<ConnectionPool<SharedConnection<C>>, PoolInvariant>>,
}

impl<C> Clone for ConnectionManager<C> {
    fn clone(&self) -> (r: Self) {
        ConnectionManager { connections: self.connections.clone() }
    }
}

impl<C: ConnectionTrait> ConnectionManager<C> {
    pub fn new() -> (r: Self) {
        let pool: ConnectionPool<SharedConnection<C>> = ConnectionPool::new();
        ConnectionManager { connections: Arc::new(RwLock::new(pool, Ghost(PoolInvariant))) }
    }

    fn pooled(&self, host_id: i64) -> (r: bool) {
        let read = self.connections.acquire_read();
        let found = read.borrow().contains(host_id);
        read.release_read();
        found
    }

    /// Adds a session under `host_id` unless one is pooled already; the one
    /// that is pooled stays. Returns the session that was not kept.
    fn add(&self, host_id: i64, conn: SharedConnection<C>) -> (r: Option<SharedConnection<C>>) {
        let (mut pool, handle) = self.connections.acquire_write();
        let rest = pool.insert_if_absent(host_id, conn);
        handle.release_write(pool);
        rest
    }

    fn take(&self, host_id: i64) -> (r: Option<SharedConnection<C>>) {
        let (mut pool, handle) = self.connections.acquire_write();
        let taken = pool.remove(host_id);
        handle.release_write(pool);
        taken
    }

    /// Opens and pools a session for `host` unless one is pooled for its id:
    /// then nothing is done, and no second session is opened. The session is
    /// built and connected outside the pool's lock.
    pub fn connect(&self, host: &Host) -> (r: Result<(), String>)
        ensures
            host.id is None ==> (r matches Err(e) && e@ == "Host has no ID"@),
            r is Ok ==> host.id is Some,
    {
        let host_id = match host.id {
            Some(id) => id,
            None => return Err(String::from_str("Host has no ID")),
        };
        if self.pooled(host_id) {
            return Ok(());
        }
        let mut client = C::from_host(host);
        client.connect()?;
        let conn = Arc::new(RwLock::new(client, Ghost(AnySession)));
        match self.add(host_id, conn) {
            None => {},
            Some(extra) => {
                // Another thread pooled a session for this host meanwhile:
                // keep that one and close the session opened here.
                let (mut c, h) = extra.acquire_write();
                let _ = c.disconnect();
                h.release_write(c);
            },
        }
        Ok(())
    }

    /// Takes the session of `host_id` out of the pool and disconnects it,
    /// waiting for any operation on it to finish. Without a pooled session
    /// this succeeds and does nothing.
    pub fn disconnect(&self, host_id: i64) -> (r: Result<(), String>) {
        match self.take(host_id) {
            None => Ok(()),
            Some(conn) => {
                let (mut c, h) = conn.acquire_write();
                let res = c.disconnect();
                h.release_write(c);
                res
            },
        }
    }

    /// The pooled session of `host_id`.
    pub fn get_connection(&self, host_id: i64) -> (r: Result<SharedConnection<C>, String>)
        ensures
            r matches Err(e) ==> e@ == no_connection_message(host_id),
    {
        let read = self.connections.acquire_read();
        let res = match read.borrow().get(host_id) {
            Some(conn) => Ok(conn.clone()),
            None => Err(join_str("No active connection for host ", decimal_string(host_id).as_str())),
        };
        read.release_read();
        res
    }

    pub fn is_connected(&self, host_id: i64) -> (r: bool) {
        self.pooled(host_id)
    }

    /// Connects a fresh session for `host` and disconnects it again, leaving
    /// the pool alone: a check of address and credentials.
    pub fn test_connection(host: &Host) -> (r: Result<(), String>) {
        let mut client = C::from_host(host);
        client.connect()?;
        client.disconnect()?;
        Ok(())
    }

    /// Empties the pool and disconnects every session; a session that fails
    /// to disconnect is dropped all the same.
    pub fn disconnect_all(&self) -> (r: Result<(), String>)
        ensures
            r is Ok,
    {
        let (mut pool, handle) = self.connections.acquire_write();
        let conns = pool.drain();
        handle.release_write(pool);
        let mut i: usize = 0;
        while i < conns.len()
            decreases conns@.len() - i,
        {
            let (mut c, h) = conns[i].acquire_write();
            let _ = c.disconnect();
            h.release_write(c);
            i = i + 1;
        }
        Ok(())
    }

    /// The host ids with a pooled session, oldest first; no id twice.
    pub fn active_connections(&self) -> (r: Result<Vec<i64>, String>)
        ensures
            r matches Ok(ids) && ids@.no_duplicates(),
    {
        let read = self.connections.acquire_read();
        let pool = read.borrow();
        proof {
            pool.lemma_one_session_per_host();
        }
        let ids = pool.active_ids();
        read.release_read();
        Ok(ids)
    }

    /// Pools `client`, already connected by the caller, under `host_id`,
    /// replacing any session pooled there.
    pub fn insert_mock_connection(&self, host_id: i64, client: C) -> (r: Result<(), String>)
        ensures
            r is Ok,
    {
        let conn = Arc::new(RwLock::new(client, Ghost(AnySession)));
        let (mut pool, handle) = self.connections.acquire_write();
        let _ = pool.remove(host_id);
        let _ = pool.insert_if_absent(host_id, conn);
        handle.release_write(pool);
        Ok(())
    }
}

} // verus!
