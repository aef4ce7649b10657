use vstd::prelude::*;

use crate::command::CommandError;
use crate::engine::{open_connection, opened_handle, RawConnection, SQLite3Error};
use crate::worker::{Request, Worker, WorkerView};

verus! {

/// What a host key holds, as far as this library is concerned.
#[derive(Clone, Copy, Debug, PartialEq, Eq, Structural)]
pub enum KeyState {
    /// Nothing.
    Absent,
    /// A database of this library.
    Bound,
    /// A value of another type.
    WrongType,
}

/// The abstract state of a key's database.
pub ghost struct BindingView {
    /// The serial number the registry gave the database's connection.
    pub serial: u64,
    pub worker: WorkerView,
    /// The host removed the key while a query ran; the database is released
    /// as soon as that query finishes.
    pub removed: bool,
}

/// The abstract state of the registry.
pub ghost struct RegistryView {
    /// The database of each key that holds one.
    pub bindings: Map<Seq<char>, BindingView>,
    /// The serial of every connection released so far, in order of release.
    pub released: Seq<u64>,
    /// The serial the next connection gets.
    pub next_serial: u64,
}

impl RegistryView {
    /// What `key` holds; `other_type` is whether the host reports a value of
    /// another type under it.
    pub open spec fn state_of(self, key: Seq<char>, other_type: bool) -> KeyState {
        if self.bindings.contains_key(key) {
            KeyState::Bound
        } else if other_type {
            KeyState::WrongType
        } else {
            KeyState::Absent
        }
    }

    /// Serials are handed out once: every serial in use or released is below
    /// the next one, and no bound connection has been released.
    pub open spec fn consistent(self) -> bool {
        &&& forall|j: int| 0 <= j < self.released.len() ==> #[trigger] self.released[j] < self.next_serial
        &&& forall|k: Seq<char>|
            #[trigger] self.bindings.contains_key(k) ==> self.bindings[k].serial < self.next_serial
                && !self.released.contains(self.bindings[k].serial)
        &&& forall|k1: Seq<char>, k2: Seq<char>|
            #[trigger] self.bindings.contains_key(k1) && #[trigger] self.bindings.contains_key(k2)
                && k1 != k2 ==> self.bindings[k1].serial != self.bindings[k2].serial
    }

    /// The state after `key` gets a fresh database on connection `handle`.
    pub open spec fn after_create(self, key: Seq<char>, handle: u64) -> RegistryView {
        RegistryView {
            bindings: self.bindings.insert(
                key,
                BindingView {
                    serial: self.next_serial,
                    worker: WorkerView {
                        handle,
                        submitted: Seq::empty(),
                        started: 0,
                        in_flight: false,
                    },
                    removed: false,
                },
            ),
            next_serial: (self.next_serial + 1) as u64,
            ..self
        }
    }

    /// Whether `key`'s database can be released now: no query is running on it.
    pub open spec fn releasable(self, key: Seq<char>) -> bool {
        self.bindings.contains_key(key) && !self.bindings[key].worker.in_flight
    }

    /// The state after `key`'s database is removed and its connection released.
    pub open spec fn after_release(self, key: Seq<char>) -> RegistryView {
        RegistryView {
            bindings: self.bindings.remove(key),
            released: self.released.push(self.bindings[key].serial),
            ..self
        }
    }

    /// Whether the query under `ticket` is the one running on `key`'s database.
    pub open spec fn running(self, key: Seq<char>, ticket: u64) -> bool {
        &&& self.bindings.contains_key(key)
        &&& self.bindings[key].worker.in_flight
        &&& ticket + 1 == self.bindings[key].worker.started
    }

    /// The state after the host removed `key` while a query runs on it.
    pub open spec fn with_removal(self, key: Seq<char>) -> RegistryView {
        RegistryView {
            bindings: self.bindings.insert(key, BindingView { removed: true, ..self.bindings[key] }),
            ..self
        }
    }

    /// The state after `key`'s worker becomes `w`.
    pub open spec fn with_worker(self, key: Seq<char>, w: WorkerView) -> RegistryView {
        RegistryView {
            bindings: self.bindings.insert(key, BindingView { worker: w, ..self.bindings[key] }),
            ..self
        }
    }
}

/// A query handed out to run, with the handle of the connection to run it on.
#[derive(Debug)]
pub struct Job {
    pub request: Request,
    pub handle: u64,
}

/// What finishing a query did.
#[derive(Debug)]
pub enum FinishOutcome {
    /// The query under that ticket is not the one running; nothing changed.
    NotRunning,
    /// The query finished; the database stays.
    Finished,
    /// The query finished, and the database, whose key the host removed while
    /// it ran, was released; its connection is handed back.
    Released { connection: RawConnection },
}

/// Why a database could not be bound, with the instance the engine produced
/// anyway, which the caller must release.
#[derive(Debug)]
pub struct CreateFailure {
    pub error: CommandError,
    pub leftover: Option<RawConnection>,
}

/// A key and the database it holds.
struct Binding {
    key: String,
    serial: u64,
    worker: Worker,
    removed: bool,
}

/// The databases of all keys, each owned by exactly one entry.
pub struct Registry {
    entries: Vec<Binding>,
    released: Vec<u64>,
    next_serial: u64,
    model: Ghost<Map<Seq<char>, BindingView>>,
}

impl View for Registry {
    type V = RegistryView;

    closed spec fn view(&self) -> RegistryView {
        RegistryView {
            bindings: self.model@,
            released: self.released@,
            next_serial: self.next_serial,
        }
    }
}

impl Registry {
    closed spec fn entry_view(&self, i: int) -> BindingView {
        BindingView {
            serial: self.entries@[i].serial,
            worker: self.entries@[i].worker@,
            removed: self.entries@[i].removed,
        }
    }

    /// Each key has one entry, the model holds exactly the entries, and
    /// serials are handed out once.
    pub closed spec fn wf(&self) -> bool {
        &&& forall|i: int|
            0 <= i < self.entries@.len() ==> {
                &&& self.model@.contains_key((#[trigger] self.entries@[i]).key@)
                &&& self.model@[self.entries@[i].key@] == self.entry_view(i)
                &&& self.entries@[i].worker.wf()
            }
        &&& forall|k: Seq<char>|
            #[trigger] self.model@.contains_key(k) ==> exists|i: int|
                0 <= i < self.entries@.len() && (#[trigger] self.entries@[i]).key@ == k
        &&& forall|i: int, j: int|
            0 <= i < self.entries@.len() && 0 <= j < self.entries@.len() && i != j
                ==> (#[trigger] self.entries@[i]).key@ != (#[trigger] self.entries@[j]).key@
        &&& self@.consistent()
    }

    /// A registry without databases.
    pub fn new() -> (r: Registry)
        ensures
            r.wf(),
            r@.bindings == Map::<Seq<char>, BindingView>::empty(),
            r@.released == Seq::<u64>::empty(),
            r@.next_serial == 0,
    {
        Registry {
            entries: Vec::new(),
            released: Vec::new(),
            next_serial: 0,
            model: Ghost(Map::empty()),
        }
    }

    /// Shows what a well-formed registry guarantees of its serials.
    pub proof fn lemma_consistent(&self)
        requires
            self.wf(),
        ensures
            self@.consistent(),
    {
    }

    fn find(&self, key: &String) -> (r: Option<usize>)
        requires
            self.wf(),
        ensures
            match r {
                Some(i) => i < self.entries@.len() && self.entries@[i as int].key@ == key@,
                None => !self@.bindings.contains_key(key@),
            },
    {
        let mut i: usize = 0;
        while i < self.entries.len()
            invariant
                0 <= i <= self.entries@.len(),
                forall|j: int| 0 <= j < i ==> (#[trigger] self.entries@[j]).key@ != key@,
            decreases self.entries@.len() - i,
        {
            if self.entries[i].key == *key {
                return Some(i);
            }
            i += 1;
        }
        None
    }

    /// What `key` holds; `other_type` is whether the host reports a value of
    /// another type under it.
    pub fn key_state(&self, key: &String, other_type: bool) -> (r: KeyState)
        requires
            self.wf(),
        ensures
            r == self@.state_of(key@, other_type),
    {
        match self.find(key) {
            Some(_) => KeyState::Bound,
            None => {
                if other_type {
                    KeyState::WrongType
                } else {
                    KeyState::Absent
                }
            },
        }
    }

    /// Whether another connection can get a serial.
    pub fn can_create(&self) -> (r: bool)
        ensures
            r == (self@.next_serial < u64::MAX),
    {
        self.next_serial < u64::MAX
    }

    /// Decides whether a database can be created under `key`: only when the
    /// key holds nothing. Nothing is opened before this says `Ok`.
    pub fn prepare_create(&self, key: &String, other_type: bool) -> (r: Result<(), CommandError>)
        requires
            self.wf(),
        ensures
            self@.state_of(key@, other_type) == KeyState::Absent <==> r is Ok,
            self@.state_of(key@, other_type) == KeyState::Bound ==> r == Err::<(), CommandError>(
                CommandError::KeyNotEmpty,
            ),
            self@.state_of(key@, other_type) == KeyState::WrongType ==> r == Err::<
                (),
                CommandError,
            >(CommandError::WrongType),
    {
        match self.key_state(key, other_type) {
            KeyState::Absent => Ok(()),
            KeyState::Bound => Err(CommandError::KeyNotEmpty),
            KeyState::WrongType => Err(CommandError::WrongType),
        }
    }

    /// Binds a new database to `key`, which holds nothing, once the engine was
    /// asked to open an in-memory instance and answered `status` and `handle`.
    /// On success the key holds the new database, whose serial is returned.
    /// On failure the key stays empty, and the instance the engine produced
    /// anyway, if any, is handed back to be released: nothing opened is left
    /// without an owner.
    pub fn create_database(&mut self, key: String, status: i32, handle: Option<u64>) -> (r: Result<
        u64,
        CreateFailure,
    >)
        requires
            old(self).wf(),
            !old(self)@.bindings.contains_key(key@),
            old(self)@.next_serial < u64::MAX,
        ensures
            final(self).wf(),
            match opened_handle(status, handle) {
                Some(h) => r == Ok::<u64, CreateFailure>(old(self)@.next_serial) && final(self)@
                    == old(self)@.after_create(key@, h),
                None => r is Err && r->Err_0.error == (CommandError::Engine {
                    error: SQLite3Error::OpenError,
                }) && match r->Err_0.leftover {
                    Some(c) => handle == Some(c.handle),
                    None => handle is None,
                } && final(self)@ == old(self)@,
            },
    {
        let connection = match open_connection(status, handle) {
            Ok(c) => c,
            Err(e) => {
                let leftover = match handle {
                    Some(h) => Some(RawConnection { handle: h }),
                    None => None,
                };
                return Err(CreateFailure { error: CommandError::Engine { error: e }, leftover });
            },
        };
        let serial = self.next_serial;
        let worker = Worker::new(connection);
        let ghost bv = BindingView { serial, worker: worker@, removed: false };
        let ghost old_self = *self;
        self.model = Ghost(self.model@.insert(key@, bv));
        self.entries.push(Binding { key, serial, worker, removed: false });
        self.next_serial = serial + 1;
        assert forall|i: int| 0 <= i < self.entries@.len() implies {
            &&& self.model@.contains_key((#[trigger] self.entries@[i]).key@)
            &&& self.model@[self.entries@[i].key@] == self.entry_view(i)
            &&& self.entries@[i].worker.wf()
        } by {
            if i < old_self.entries@.len() {
                assert(self.entries@[i] == old_self.entries@[i]);
                assert(old_self.model@.contains_key(old_self.entries@[i].key@));
            }
        }
        assert forall|k: Seq<char>| #[trigger] self.model@.contains_key(k) implies exists|i: int|
            0 <= i < self.entries@.len() && (#[trigger] self.entries@[i]).key@ == k by {
            if k == key@ {
                assert(self.entries@[self.entries@.len() - 1].key@ == k);
            } else {
                assert(old_self.model@.contains_key(k));
                let i = choose|i: int|
                    0 <= i < old_self.entries@.len() && (#[trigger] old_self.entries@[i]).key@ == k;
                assert(self.entries@[i] == old_self.entries@[i]);
            }
        }
        assert forall|i: int, j: int|
            0 <= i < self.entries@.len() && 0 <= j < self.entries@.len() && i != j
                implies (#[trigger] self.entries@[i]).key@ != (#[trigger] self.entries@[j]).key@ by {
            let n = old_self.entries@.len() as int;
            if i < n {
                assert(self.entries@[i] == old_self.entries@[i]);
                assert(old_self.model@.contains_key(old_self.entries@[i].key@));
            }
            if j < n {
                assert(self.entries@[j] == old_self.entries@[j]);
                assert(old_self.model@.contains_key(old_self.entries@[j].key@));
            }
        }
        assert(self@.bindings =~= old_self@.after_create(key@, bv.worker.handle).bindings);
        Ok(serial)
    }

    proof fn lemma_entry_changed(self, before: Registry, i: int)
        requires
            before.wf(),
            0 <= i < before.entries@.len(),
            self.entries@.len() == before.entries@.len(),
            forall|j: int| 0 <= j < self.entries@.len() && j != i ==> self.entries@[j] == before.entries@[j],
            self.entries@[i].key@ == before.entries@[i].key@,
            self.entries@[i].serial == before.entries@[i].serial,
            self.entries@[i].worker.wf(),
            self.model@ == before.model@.insert(before.entries@[i].key@, self.entry_view(i)),
            self.released@ == before.released@,
            self.next_serial == before.next_serial,
        ensures
            self.wf(),
            self@ == (RegistryView {
                bindings: before@.bindings.insert(before.entries@[i].key@, self.entry_view(i)),
                ..before@
            }),
            self.entries@[i].removed == before.entries@[i].removed ==> self@ == before@.with_worker(
                before.entries@[i].key@,
                self.entries@[i].worker@,
            ),
    {
        let k = before.entries@[i].key@;
        assert forall|j: int| 0 <= j < self.entries@.len() implies {
            &&& self.model@.contains_key((#[trigger] self.entries@[j]).key@)
            &&& self.model@[self.entries@[j].key@] == self.entry_view(j)
            &&& self.entries@[j].worker.wf()
        } by {
            if j != i {
                assert(self.entries@[j] == before.entries@[j]);
                assert(before.model@.contains_key(before.entries@[j].key@));
            }
        }
        assert forall|key: Seq<char>| #[trigger] self.model@.contains_key(key) implies exists|j: int|
            0 <= j < self.entries@.len() && (#[trigger] self.entries@[j]).key@ == key by {
            if key == k {
                assert(self.entries@[i].key@ == key);
            } else {
                let j = choose|j: int|
                    0 <= j < before.entries@.len() && (#[trigger] before.entries@[j]).key@ == key;
                assert(self.entries@[j] == before.entries@[j]);
            }
        }
        assert forall|a: int, b: int|
            0 <= a < self.entries@.len() && 0 <= b < self.entries@.len() && a != b
                implies (#[trigger] self.entries@[a]).key@ != (#[trigger] self.entries@[b]).key@ by {
            assert(before.entries@[a].key@ != before.entries@[b].key@);
            if a != i {
                assert(self.entries@[a] == before.entries@[a]);
            }
            if b != i {
                assert(self.entries@[b] == before.entries@[b]);
            }
        }
        assert(before.model@.contains_key(k));
        assert(self@.bindings =~= before.model@.insert(k, self.entry_view(i)));
        if self.entries@[i].removed == before.entries@[i].removed {
            assert(self@.bindings =~= before@.with_worker(k, self.entries@[i].worker@).bindings);
        }
    }

    /// Whether another query can be submitted for `key` without its ticket
    /// overflowing.
    pub fn can_submit(&self, key: &String) -> (r: bool)
        requires
            self.wf(),
        ensures
            r == (self@.bindings.contains_key(key@) ==> self@.bindings[key@].worker.submitted.len()
                < u64::MAX),
    {
        match self.find(key) {
            Some(i) => {
                assert(self.model@.contains_key(self.entries@[i as int].key@));
                self.entries[i].worker.can_submit()
            },
            None => true,
        }
    }

    /// Submits `query` for the database under `key`; returns its ticket. The
    /// query waits behind those submitted before it.
    pub fn execute(&mut self, key: &String, other_type: bool, query: String) -> (r: Result<
        u64,
        CommandError,
    >)
        requires
            old(self).wf(),
            old(self)@.bindings.contains_key(key@) ==> old(self)@.bindings[key@].worker.submitted.len()
                < u64::MAX,
        ensures
            final(self).wf(),
            old(self)@.state_of(key@, other_type) == KeyState::Absent ==> r == Err::<
                u64,
                CommandError,
            >(CommandError::KeyEmpty) && final(self)@ == old(self)@,
            old(self)@.state_of(key@, other_type) == KeyState::WrongType ==> r == Err::<
                u64,
                CommandError,
            >(CommandError::WrongType) && final(self)@ == old(self)@,
            old(self)@.state_of(key@, other_type) == KeyState::Bound ==> {
                let w = old(self)@.bindings[key@].worker;
                &&& r == Ok::<u64, CommandError>(w.submitted.len() as u64)
                &&& final(self)@ == old(self)@.with_worker(key@, w.after_submit(query@))
            },
    {
        let i = match self.find(key) {
            Some(i) => i,
            None => {
                if other_type {
                    return Err(CommandError::WrongType);
                } else {
                    return Err(CommandError::KeyEmpty);
                }
            },
        };
        let ghost before = *self;
        proof {
            assert(before.model@.contains_key(before.entries@[i as int].key@));
        }
        let ticket = self.entries[i].worker.submit(query);
        self.model = Ghost(self.model@.insert(before.entries@[i as int].key@, self.entry_view(i as int)));
        proof {
            self.lemma_entry_changed(before, i as int);
        }
        Ok(ticket)
    }

    /// Hands out the oldest query waiting for `key`'s database, with the
    /// handle of its connection, unless a query is running on it.
    pub fn start_next(&mut self, key: &String) -> (r: Option<Job>)
        requires
            old(self).wf(),
        ensures
            final(self).wf(),
            !old(self)@.bindings.contains_key(key@) ==> r is None && final(self)@ == old(self)@,
            old(self)@.bindings.contains_key(key@) ==> {
                let w = old(self)@.bindings[key@].worker;
                &&& r is Some <==> w.can_start()
                &&& r is Some ==> r->0.request.ticket == w.started && r->0.request.query@
                    == w.submitted[w.started as int] && r->0.handle == w.handle
                &&& final(self)@ == old(self)@.with_worker(key@, w.after_start())
            },
    {
        let i = match self.find(key) {
            Some(i) => i,
            None => return None,
        };
        let ghost before = *self;
        proof {
            assert(before.model@.contains_key(before.entries@[i as int].key@));
        }
        let handle = self.entries[i].worker.handle();
        let req = self.entries[i].worker.start();
        self.model = Ghost(self.model@.insert(before.entries@[i as int].key@, self.entry_view(i as int)));
        proof {
            self.lemma_entry_changed(before, i as int);
        }
        match req {
            Some(request) => Some(Job { request, handle }),
            None => None,
        }
    }

    /// Records that the query under `ticket` finished running on `key`'s
    /// database. When the host removed the key while the query ran, the
    /// database is released now and its connection handed back.
    pub fn finish(&mut self, key: &String, ticket: u64) -> (r: FinishOutcome)
        requires
            old(self).wf(),
        ensures
            final(self).wf(),
            !old(self)@.running(key@, ticket) ==> r is NotRunning && final(self)@ == old(self)@,
            old(self)@.running(key@, ticket) ==> {
                let b = old(self)@.bindings[key@];
                let mid = old(self)@.with_worker(key@, b.worker.after_finish(ticket as int));
                &&& !b.removed ==> r is Finished && final(self)@ == mid
                &&& b.removed ==> r is Released && r->connection.handle == b.worker.handle
                    && final(self)@ == mid.after_release(key@)
            },
    {
        let i = match self.find(key) {
            Some(i) => i,
            None => return FinishOutcome::NotRunning,
        };
        let ghost before = *self;
        proof {
            assert(before.model@.contains_key(before.entries@[i as int].key@));
        }
        let done = self.entries[i].worker.finish(ticket);
        self.model = Ghost(self.model@.insert(before.entries@[i as int].key@, self.entry_view(i as int)));
        proof {
            self.lemma_entry_changed(before, i as int);
        }
        if !done {
            assert(self@.bindings =~= before@.bindings);
            return FinishOutcome::NotRunning;
        }
        if self.entries[i].removed {
            let connection = self.release_at(i);
            return FinishOutcome::Released { connection };
        }
        FinishOutcome::Finished
    }

    /// Removes the entry at `i`, whose worker runs nothing, and releases its
    /// connection: the one path by which a connection leaves the registry.
    fn release_at(&mut self, i: usize) -> (c: RawConnection)
        requires
            old(self).wf(),
            i < old(self).entries@.len(),
            !old(self).entries@[i as int].worker@.in_flight,
        ensures
            final(self).wf(),
            c.handle == old(self)@.bindings[old(self).entries@[i as int].key@].worker.handle,
            final(self)@ == old(self)@.after_release(old(self).entries@[i as int].key@),
    {
        let ghost before = *self;
        proof {
            assert(before.model@.contains_key(before.entries@[i as int].key@));
        }
        let binding = self.entries.remove(i);
        let ghost k = binding.key@;
        self.model = Ghost(self.model@.remove(k));
        self.released.push(binding.serial);
        let connection = binding.worker.shutdown();
        proof {
            let n = self.entries@.len() as int;
            assert forall|j: int| 0 <= j < n implies self.entries@[j] == before.entries@[if j < i {
                j
            } else {
                j + 1
            }] by {}
            assert forall|j: int| 0 <= j < self.entries@.len() implies {
                &&& self.model@.contains_key((#[trigger] self.entries@[j]).key@)
                &&& self.model@[self.entries@[j].key@] == self.entry_view(j)
                &&& self.entries@[j].worker.wf()
            } by {
                let oj = if j < i { j } else { j + 1 };
                assert(self.entries@[j] == before.entries@[oj]);
                assert(before.model@.contains_key(before.entries@[oj].key@));
                assert(before.entries@[oj].key@ != k);
            }
            assert forall|key2: Seq<char>| #[trigger] self.model@.contains_key(key2) implies exists|j: int|
                0 <= j < self.entries@.len() && (#[trigger] self.entries@[j]).key@ == key2 by {
                let oj = choose|j: int|
                    0 <= j < before.entries@.len() && (#[trigger] before.entries@[j]).key@ == key2;
                assert(oj != i);
                let j = if oj < i { oj } else { oj - 1 };
                assert(self.entries@[j] == before.entries@[oj]);
            }
            assert forall|a: int, b: int|
                0 <= a < self.entries@.len() && 0 <= b < self.entries@.len() && a != b
                    implies (#[trigger] self.entries@[a]).key@ != (#[trigger] self.entries@[b]).key@ by {
                let oa = if a < i { a } else { a + 1 };
                let ob = if b < i { b } else { b + 1 };
                assert(self.entries@[a] == before.entries@[oa]);
                assert(self.entries@[b] == before.entries@[ob]);
                assert(before.entries@[oa].key@ != before.entries@[ob].key@);
            }
            let s = binding.serial;
            assert(before.model@.contains_key(k));
            assert(before@.bindings[k].serial == s);
            assert forall|j: int| 0 <= j < self.released@.len() implies #[trigger] self.released@[j]
                < self.next_serial by {
                if j < before.released@.len() {
                    assert(self.released@[j] == before.released@[j]);
                }
            }
            assert forall|key2: Seq<char>| #[trigger] self@.bindings.contains_key(key2) implies self@.bindings[key2].serial < self.next_serial
                && !self@.released.contains(self@.bindings[key2].serial) by {
                assert(before@.bindings.contains_key(key2));
                let oj = choose|j: int|
                    0 <= j < before.entries@.len() && (#[trigger] before.entries@[j]).key@ == key2;
                assert(before.entries@[oj].key@ == key2);
                assert(before.entries@[i as int].key@ == k);
                assert(oj != i);
                assert(before@.bindings[key2].serial != s);
                if self@.released.contains(self@.bindings[key2].serial) {
                    let j = choose|j: int| 0 <= j < self@.released.len() && self@.released[j] == self@.bindings[key2].serial;
                    if j < before@.released.len() {
                        assert(before@.released[j] == self@.released[j]);
                    }
                }
            }
            assert(self@.bindings =~= before@.after_release(k).bindings);
            assert(self@.released =~= before@.after_release(k).released);
        }
        connection
    }

    /// Removes the database under `key` and hands back its connection for
    /// release; refused while a query runs on it.
    pub fn delete_database(&mut self, key: &String, other_type: bool) -> (r: Result<
        RawConnection,
        CommandError,
    >)
        requires
            old(self).wf(),
        ensures
            final(self).wf(),
            old(self)@.state_of(key@, other_type) == KeyState::Absent ==> r is Err && r->Err_0
                == CommandError::KeyEmpty && final(self)@ == old(self)@,
            old(self)@.state_of(key@, other_type) == KeyState::WrongType ==> r is Err && r->Err_0
                == CommandError::WrongType && final(self)@ == old(self)@,
            old(self)@.state_of(key@, other_type) == KeyState::Bound && !old(self)@.releasable(
                key@,
            ) ==> r is Err && r->Err_0 == CommandError::KeyBusy && final(self)@ == old(self)@,
            old(self)@.releasable(key@) ==> r is Ok && r->Ok_0.handle == old(
                self,
            )@.bindings[key@].worker.handle && final(self)@ == old(self)@.after_release(key@),
    {
        let i = match self.find(key) {
            Some(i) => i,
            None => {
                if other_type {
                    return Err(CommandError::WrongType);
                } else {
                    return Err(CommandError::KeyEmpty);
                }
            },
        };
        let ghost before = *self;
        proof {
            assert(before.model@.contains_key(before.entries@[i as int].key@));
        }
        if self.entries[i].worker.is_running() {
            return Err(CommandError::KeyBusy);
        }
        let connection = self.release_at(i);
        Ok(connection)
    }

    /// Releases the database under `key` when the host removed the key by any
    /// means; the same path as [`Registry::delete_database`]. While a query
    /// runs on it the release is deferred: the binding is marked, and
    /// [`Registry::finish`] releases it when that query ends.
    pub fn free_db(&mut self, key: &String) -> (r: Option<RawConnection>)
        requires
            old(self).wf(),
        ensures
            final(self).wf(),
            !old(self)@.bindings.contains_key(key@) ==> r is None && final(self)@ == old(self)@,
            old(self)@.releasable(key@) ==> r is Some && r->0.handle == old(
                self,
            )@.bindings[key@].worker.handle && final(self)@ == old(self)@.after_release(key@),
            old(self)@.bindings.contains_key(key@) && !old(self)@.releasable(key@) ==> r is None
                && final(self)@ == old(self)@.with_removal(key@),
    {
        let i = match self.find(key) {
            Some(i) => i,
            None => return None,
        };
        let ghost before = *self;
        proof {
            assert(before.model@.contains_key(before.entries@[i as int].key@));
        }
        if self.entries[i].worker.is_running() {
            self.entries[i].removed = true;
            self.model = Ghost(
                self.model@.insert(before.entries@[i as int].key@, self.entry_view(i as int)),
            );
            proof {
                self.lemma_entry_changed(before, i as int);
                assert(self@.bindings =~= before@.with_removal(key@).bindings);
            }
            return None;
        }
        Some(self.release_at(i))
    }
}

/// Creating a database under a key that holds nothing and then deleting it
/// leaves the key holding nothing and every other key as it was, and releases
/// the new connection exactly once: its serial had never been released, and
/// the deletion releases it once.
pub proof fn lemma_create_then_delete(
    r: RegistryView,
    key: Seq<char>,
    other_type: bool,
    handle: u64,
)
    requires
        r.consistent(),
        r.state_of(key, other_type) == KeyState::Absent,
        r.next_serial < u64::MAX,
    ensures
        r.after_create(key, handle).state_of(key, other_type) == KeyState::Bound,
        r.after_create(key, handle).releasable(key),
        ({
            let d = r.after_create(key, handle).after_release(key);
            &&& d.state_of(key, other_type) == KeyState::Absent
            &&& d.bindings == r.bindings
            &&& d.released == r.released.push(r.next_serial)
            &&& !r.released.contains(r.next_serial)
            &&& d.consistent()
        }),
{
    let c = r.after_create(key, handle);
    let d = c.after_release(key);
    assert(d.bindings =~= r.bindings);
    assert forall|j: int| 0 <= j < d.released.len() implies #[trigger] d.released[j] < d.next_serial by {
        if j < r.released.len() {
            assert(d.released[j] == r.released[j]);
        }
    }
    assert forall|k: Seq<char>| #[trigger] d.bindings.contains_key(k) implies d.bindings[k].serial
        < d.next_serial && !d.released.contains(d.bindings[k].serial) by {
        if d.released.contains(d.bindings[k].serial) {
            let j = choose|j: int| 0 <= j < d.released.len() && d.released[j] == d.bindings[k].serial;
            if j < r.released.len() {
                assert(r.released[j] == d.released[j]);
            }
        }
    }
    assert(!r.released.contains(r.next_serial)) by {
        if r.released.contains(r.next_serial) {
            let j = choose|j: int| 0 <= j < r.released.len() && r.released[j] == r.next_serial;
            assert(r.released[j] < r.next_serial);
        }
    }
}

/// Work on one key leaves every other key's database as it was: creating,
/// deleting, or submitting, handing out and finishing queries under `a`
/// changes nothing under `b`, so a query running under `a` never holds up one
/// waiting under `b`.
pub proof fn lemma_keys_independent(
    r: RegistryView,
    a: Seq<char>,
    b: Seq<char>,
    handle: u64,
    w: WorkerView,
)
    requires
        a != b,
    ensures
        r.after_create(a, handle).bindings.contains_key(b) == r.bindings.contains_key(b),
        r.after_release(a).bindings.contains_key(b) == r.bindings.contains_key(b),
        r.with_worker(a, w).bindings.contains_key(b) == r.bindings.contains_key(b),
        r.with_removal(a).bindings.contains_key(b) == r.bindings.contains_key(b),
        r.bindings.contains_key(b) ==> {
            &&& r.after_create(a, handle).bindings[b] == r.bindings[b]
            &&& r.after_release(a).bindings[b] == r.bindings[b]
            &&& r.with_worker(a, w).bindings[b] == r.bindings[b]
            &&& r.with_removal(a).bindings[b] == r.bindings[b]
        },
{
}

} // verus!
