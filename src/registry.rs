//! The session registry: session ids mapped to the queues that connect the
//! caller with each session's actor.
use vstd::prelude::*;
use crate::config::ConnectionConfig;
use vstd::string::StringSliceAdditionalSpecFns;

verus! {

/// Why a transport could not be set up.
#[derive(Clone, Debug, PartialEq, Eq)]
pub enum ConnectError {
    /// Name resolution or the connection itself failed: check host and firewall.
    Transport(String),
    /// The protocol handshake failed.
    Handshake(String),
    /// The credentials were rejected: check user name and password.
    Auth(String),
}

/// Why `create` failed.
#[derive(Clone, Debug, PartialEq, Eq)]
pub enum CreateError {
    /// A session with this id is already registered.
    DuplicateId,
    Connect(ConnectError),
}

/// Why a call naming a session failed.
#[derive(Clone, Copy, Debug, PartialEq, Eq, Structural)]
pub enum SessionError {
    /// No session with this id is registered.
    SessionNotFound,
    /// The session's channel has closed.
    SessionClosed,
}

/// One registered session.
pub struct SessionEntry {
    id: String,
    config: ConnectionConfig,
    open: bool,
    pending: Vec<Vec<u8>>,
    output: Vec<u8>,
    size: (u16, u16),
}

/// A session as the registry sees it.
pub struct SessionView {
    pub id: Seq<char>,
    pub open: bool,
    /// Inputs waiting for the actor, oldest first, each whole.
    pub pending: Seq<Seq<u8>>,
    /// Output from the channel not yet read, in arrival order.
    pub output: Seq<u8>,
    /// The terminal size as (columns, rows).
    pub size: (u16, u16),
    pub config: ConnectionConfig,
}

impl View for SessionEntry {
    type V = SessionView;

    closed spec fn view(&self) -> SessionView {
        SessionView {
            id: self.id@,
            open: self.open,
            pending: views(self.pending@),
            output: self.output@,
            size: self.size,
            config: self.config,
        }
    }
}

/// Maps session ids to sessions; each id at most once.
pub struct SessionRegistry {
    sessions: Vec<SessionEntry>,
}

/// The contents of a list of byte vectors.
pub open spec fn views(s: Seq<Vec<u8>>) -> Seq<Seq<u8>> {
    s.map_values(|v: Vec<u8>| v@)
}

pub open spec fn has_id(v: Seq<SessionView>, id: Seq<char>) -> bool {
    exists|i: int| 0 <= i < v.len() && (#[trigger] v[i]).id == id
}

/// The position of the session with this id.
pub open spec fn index_of(v: Seq<SessionView>, id: Seq<char>) -> int {
    choose|i: int| 0 <= i < v.len() && (#[trigger] v[i]).id == id
}

/// No id is registered twice.
pub open spec fn ids_unique(v: Seq<SessionView>) -> bool {
    forall|i: int, j: int| 0 <= i < v.len() && 0 <= j < v.len() && i != j ==> (#[trigger] v[i]).id != (#[trigger] v[j]).id
}

pub open spec fn fresh_session(id: Seq<char>, config: ConnectionConfig, cols: u16, rows: u16) -> SessionView {
    SessionView { id, open: true, pending: Seq::empty(), output: Seq::empty(), size: (cols, rows), config }
}

/// The registry after a successful `create`.
pub open spec fn created(v: Seq<SessionView>, id: Seq<char>, config: ConnectionConfig, cols: u16, rows: u16) -> Seq<SessionView> {
    v.push(fresh_session(id, config, cols, rows))
}

/// The registry after `execute` queued `input` for an open session.
pub open spec fn executed(v: Seq<SessionView>, id: Seq<char>, input: Seq<u8>) -> Seq<SessionView> {
    let i = index_of(v, id);
    v.update(i, SessionView { pending: v[i].pending.push(input), ..v[i] })
}

/// What `execute`, `read_output` or `resize` reports for an id: whether it
/// names an open session.
pub open spec fn session_status(v: Seq<SessionView>, id: Seq<char>) -> Result<(), SessionError> {
    if !has_id(v, id) {
        Err(SessionError::SessionNotFound)
    } else if !v[index_of(v, id)].open {
        Err(SessionError::SessionClosed)
    } else {
        Ok(())
    }
}

pub open spec fn removed(v: Seq<SessionView>, id: Seq<char>) -> Seq<SessionView> {
    if has_id(v, id) { v.remove(index_of(v, id)) } else { v }
}

proof fn lemma_index_unique(v: Seq<SessionView>, id: Seq<char>, i: int)
    requires
        ids_unique(v),
        0 <= i < v.len(),
        v[i].id == id,
    ensures
        has_id(v, id),
        index_of(v, id) == i,
{
    assert(has_id(v, id));
    let j = index_of(v, id);
    assert(v[j].id == id);
}

impl SessionRegistry {
    pub closed spec fn spec_sessions(&self) -> Seq<SessionView> {
        self.sessions@.map_values(|e: SessionEntry| e@)
    }

    pub open spec fn wf(&self) -> bool {
        ids_unique(self.spec_sessions())
    }

    /// An empty registry.
    pub fn new() -> (r: SessionRegistry)
        ensures
            r.wf(),
            r.spec_sessions().len() == 0,
    {
        let r = SessionRegistry { sessions: Vec::new() };
        assert(r.spec_sessions() =~= Seq::<SessionView>::empty());
        r
    }

    /// The position of the session with this id, if there is one.
    fn find(&self, id: &str) -> (r: Option<usize>)
        requires
            self.wf(),
        ensures
            match r {
                Some(i) => i < self.spec_sessions().len() && index_of(self.spec_sessions(), id@) == i
                    && has_id(self.spec_sessions(), id@),
                None => !has_id(self.spec_sessions(), id@),
            },
    {
        let key: String = id.to_owned();
        let mut i: usize = 0;
        while i < self.sessions.len()
            invariant
                self.wf(),
                key@ == id@,
                i <= self.sessions@.len(),
                forall|j: int| 0 <= j < i ==> (#[trigger] self.spec_sessions()[j]).id != id@,
            decreases self.sessions@.len() - i,
        {
            assert(self.spec_sessions()[i as int] == self.sessions@[i as int]@);
            if self.sessions[i].id == key {
                proof {
                    lemma_index_unique(self.spec_sessions(), id@, i as int);
                }
                return Some(i);
            }
            i = i + 1;
        }
        None
    }

    /// Registers a session whose channel `connected` reports on. A failed
    /// connect is reported as it came, whatever the id; after a successful
    /// one a duplicate id fails; either failure changes nothing. Otherwise
    /// the session is added, open, with empty queues.
    pub fn create(&mut self, id: &str, config: ConnectionConfig, size: (u16, u16), connected: Result<(), ConnectError>) -> (r: Result<(), CreateError>)
        requires
            old(self).wf(),
        ensures
            final(self).wf(),
            connected matches Err(e) ==> r == Err::<(), CreateError>(CreateError::Connect(e))
                && final(self).spec_sessions() == old(self).spec_sessions(),
            connected is Ok && has_id(old(self).spec_sessions(), id@) ==> r == Err::<(), CreateError>(
                CreateError::DuplicateId,
            ) && final(self).spec_sessions() == old(self).spec_sessions(),
            connected is Ok && !has_id(old(self).spec_sessions(), id@) ==> r is Ok && final(self).spec_sessions()
                == created(old(self).spec_sessions(), id@, config, size.0, size.1),
            r is Ok ==> has_id(final(self).spec_sessions(), id@) && index_of(final(self).spec_sessions(), id@)
                == old(self).spec_sessions().len() && final(self).spec_sessions()[index_of(
                final(self).spec_sessions(),
                id@,
            )].open,
    {
        match connected {
            Err(e) => Err(CreateError::Connect(e)),
            Ok(()) => {
                if self.find(id).is_some() {
                    return Err(CreateError::DuplicateId);
                }
                let ghost pre = self.spec_sessions();
                let ghost cfg = config;
                let entry = SessionEntry {
                    id: id.to_owned(),
                    config,
                    open: true,
                    pending: Vec::new(),
                    output: Vec::new(),
                    size,
                };
                assert(entry@.pending =~= Seq::<Seq<u8>>::empty());
                assert(entry@.output =~= Seq::<u8>::empty());
                self.sessions.push(entry);
                assert(self.spec_sessions() =~= created(pre, id@, cfg, size.0, size.1));
                proof {
                    lemma_create_keeps_ids_unique(pre, id@, cfg, size.0, size.1);
                }
                Ok(())
            },
        }
    }

    /// Queues `input` for the session's actor. The input is kept whole and
    /// after everything queued before it.
    pub fn execute(&mut self, id: &str, input: &str) -> (r: Result<(), SessionError>)
        requires
            old(self).wf(),
        ensures
            final(self).wf(),
            r == session_status(old(self).spec_sessions(), id@),
            r is Ok ==> final(self).spec_sessions() == executed(old(self).spec_sessions(), id@, input.spec_bytes()),
            r is Err ==> final(self).spec_sessions() == old(self).spec_sessions(),
    {
        match self.find(id) {
            None => Err(SessionError::SessionNotFound),
            Some(i) => {
                assert(self.spec_sessions()[i as int] == self.sessions@[i as int]@);
                if !self.sessions[i].open {
                    return Err(SessionError::SessionClosed);
                }
                let ghost pre = self.spec_sessions();
                let bytes = copy_bytes(input.as_bytes());
                self.sessions[i].pending.push(bytes);
                assert(self.sessions@[i as int]@.pending =~= pre[i as int].pending.push(input.spec_bytes()));
                assert(self.spec_sessions() =~= executed(pre, id@, input.spec_bytes()));
                Ok(())
            },
        }
    }

    /// Hands the actor up to `max` queued inputs, oldest first.
    pub fn take_commands(&mut self, id: &str, max: usize) -> (r: Result<Vec<Vec<u8>>, SessionError>)
        requires
            old(self).wf(),
        ensures
            final(self).wf(),
            !has_id(old(self).spec_sessions(), id@) ==> r == Err::<Vec<Vec<u8>>, SessionError>(
                SessionError::SessionNotFound,
            ) && final(self).spec_sessions() == old(self).spec_sessions(),
            has_id(old(self).spec_sessions(), id@) ==> ({
                let v = old(self).spec_sessions();
                let i = index_of(v, id@);
                let k = if v[i].pending.len() < max { v[i].pending.len() as int } else { max as int };
                &&& r is Ok
                &&& views(r->Ok_0@) == v[i].pending.take(k)
                &&& final(self).spec_sessions() == v.update(i, SessionView { pending: v[i].pending.skip(k), ..v[i] })
            }),
    {
        match self.find(id) {
            None => Err(SessionError::SessionNotFound),
            Some(i) => {
                let ghost pre = self.spec_sessions();
                assert(pre[i as int] == self.sessions@[i as int]@);
                let ghost pend = pre[i as int].pending;
                let mut out: Vec<Vec<u8>> = Vec::new();
                let mut n: usize = 0;
                let ghost k = if pend.len() < max { pend.len() as int } else { max as int };
                assert(pend.skip(0) =~= pend);
                while n < max && self.sessions[i].pending.len() > 0
                    invariant
                        self.sessions@[i as int].pending@.len() == pend.len() - n,
                        i < self.sessions@.len(),
                        self.sessions@.len() == pre.len(),
                        n <= k,
                        k <= pend.len(),
                        k == (if pend.len() < max { pend.len() as int } else { max as int }),
                        views(out@) == pend.take(n as int),
                        self.spec_sessions() == pre.update(
                            i as int,
                            SessionView { pending: pend.skip(n as int), ..pre[i as int] },
                        ),
                    decreases pend.len() - n,
                {
                    assert(self.spec_sessions()[i as int] == self.sessions@[i as int]@);
                    let ghost before = self.sessions@[i as int].pending@;
                    let ghost olds = self.sessions@;
                    let ghost oldv = self.spec_sessions();
                    assert(views(before) == pend.skip(n as int));
                    assert(before.len() == pend.len() - n);
                    assert(views(before)[0] == before[0]@);
                    assert(pend.skip(n as int)[0] == pend[n as int]);
                    let c = self.sessions[i].pending.remove(0);
                    assert(c == before[0]);
                    assert(c@ == pend[n as int]);
                    let ghost after = self.sessions@[i as int].pending@;
                    assert(after == before.remove(0));
                    assert forall|j: int| 0 <= j < after.len() implies views(after)[j] == #[trigger] pend.skip(n + 1)[j] by {
                        assert(after[j] == before[j + 1]);
                        assert(views(before)[j + 1] == before[j + 1]@);
                    }
                    assert(views(after) =~= pend.skip(n + 1));
                    let ghost old_out = out@;
                    let ghost cv = c;
                    out.push(c);
                    assert(out@ == old_out.push(cv));
                    assert(views(old_out).len() == old_out.len());
                    assert(pend.take(n as int).len() == n);
                    assert(old_out.len() == n);
                    n = n + 1;
                    assert forall|j: int| 0 <= j < n implies views(out@)[j] == #[trigger] pend.take(n as int)[j] by {
                        if j < n - 1 {
                            assert(out@[j] == old_out[j]);
                            assert(views(old_out)[j] == pend.take(n - 1)[j]);
                        } else {
                            assert(out@[j] == cv);
                        }
                    }
                    assert(views(out@) =~= pend.take(n as int));
                    assert(self.sessions@[i as int]@.pending =~= pend.skip(n as int));
                    assert forall|j: int| 0 <= j < pre.len() && j != i implies #[trigger] self.spec_sessions()[j] == oldv[j] by {
                        assert(self.sessions@[j] == olds[j]);
                    }
                    assert(self.spec_sessions()[i as int] == (SessionView { pending: pend.skip(n as int), ..pre[i as int] }));
                    assert(self.spec_sessions() =~= pre.update(
                        i as int,
                        SessionView { pending: pend.skip(n as int), ..pre[i as int] },
                    ));
                }
                assert(self.spec_sessions()[i as int] == self.sessions@[i as int]@);
                assert(n == k);
                Ok(out)
            },
        }
    }

    /// Appends what the session's channel produced to its output queue.
    pub fn push_output(&mut self, id: &str, data: &[u8]) -> (r: Result<(), SessionError>)
        requires
            old(self).wf(),
        ensures
            final(self).wf(),
            !has_id(old(self).spec_sessions(), id@) ==> r == Err::<(), SessionError>(SessionError::SessionNotFound)
                && final(self).spec_sessions() == old(self).spec_sessions(),
            has_id(old(self).spec_sessions(), id@) ==> ({
                let v = old(self).spec_sessions();
                let i = index_of(v, id@);
                &&& r is Ok
                &&& final(self).spec_sessions() == v.update(i, SessionView { output: v[i].output + data@, ..v[i] })
            }),
    {
        match self.find(id) {
            None => Err(SessionError::SessionNotFound),
            Some(i) => {
                let ghost pre = self.spec_sessions();
                assert(pre[i as int] == self.sessions@[i as int]@);
                let mut k: usize = 0;
                while k < data.len()
                    invariant
                        i < self.sessions@.len(),
                        self.sessions@.len() == pre.len(),
                        k <= data@.len(),
                        self.spec_sessions() == pre.update(
                            i as int,
                            SessionView { output: pre[i as int].output + data@.subrange(0, k as int), ..pre[i as int] },
                        ),
                    decreases data@.len() - k,
                {
                    assert(self.spec_sessions()[i as int] == self.sessions@[i as int]@);
                    let ghost before = self.sessions@[i as int].output@;
                    let ghost olds = self.sessions@;
                    let ghost oldv = self.spec_sessions();
                    assert(self.sessions@[i as int]@.output == before);
                    assert(self.spec_sessions()[i as int].output == pre[i as int].output + data@.subrange(0, k as int));
                    assert(before == pre[i as int].output + data@.subrange(0, k as int));
                    self.sessions[i].output.push(data[k]);
                    assert(self.sessions@[i as int].output@ == before.push(data@[k as int]));
                    k = k + 1;
                    assert(self.sessions@[i as int]@.output =~= pre[i as int].output + data@.subrange(0, k as int));
                    assert forall|j: int| 0 <= j < pre.len() && j != i implies #[trigger] self.spec_sessions()[j] == oldv[j] by {
                        assert(self.sessions@[j] == olds[j]);
                    }
                    assert(self.spec_sessions()[i as int] == (SessionView { output: pre[i as int].output + data@.subrange(0, k as int), ..pre[i as int] }));
                    assert(self.spec_sessions() =~= pre.update(
                        i as int,
                        SessionView { output: pre[i as int].output + data@.subrange(0, k as int), ..pre[i as int] },
                    ));
                }
                assert(data@.subrange(0, k as int) =~= data@);
                Ok(())
            },
        }
    }

    /// Everything an open session produced since the last read, in order;
    /// empty when nothing is pending. The queue is left empty. An unknown
    /// or closed session is reported and nothing changes.
    pub fn read_output(&mut self, id: &str) -> (r: Result<Vec<u8>, SessionError>)
        requires
            old(self).wf(),
        ensures
            final(self).wf(),
            session_status(old(self).spec_sessions(), id@) matches Err(e) ==> r == Err::<Vec<u8>, SessionError>(e)
                && final(self).spec_sessions() == old(self).spec_sessions(),
            session_status(old(self).spec_sessions(), id@) is Ok ==> ({
                let v = old(self).spec_sessions();
                let i = index_of(v, id@);
                &&& r is Ok
                &&& r->Ok_0@ == v[i].output
                &&& final(self).spec_sessions() == v.update(i, SessionView { output: Seq::empty(), ..v[i] })
            }),
    {
        match self.find(id) {
            None => Err(SessionError::SessionNotFound),
            Some(i) => {
                let ghost pre = self.spec_sessions();
                assert(pre[i as int] == self.sessions@[i as int]@);
                if !self.sessions[i].open {
                    return Err(SessionError::SessionClosed);
                }
                let mut out: Vec<u8> = Vec::new();
                std::mem::swap(&mut out, &mut self.sessions[i].output);
                assert(self.sessions@[i as int]@.output =~= Seq::<u8>::empty());
                assert(self.spec_sessions() =~= pre.update(
                    i as int,
                    SessionView { output: Seq::empty(), ..pre[i as int] },
                ));
                Ok(out)
            },
        }
    }

    /// Marks the session's channel as closed (it failed or its peer left);
    /// queued output stays readable. Returns whether the id was registered.
    pub fn mark_closed(&mut self, id: &str) -> (found: bool)
        requires
            old(self).wf(),
        ensures
            final(self).wf(),
            found == has_id(old(self).spec_sessions(), id@),
            !found ==> final(self).spec_sessions() == old(self).spec_sessions(),
            found ==> ({
                let v = old(self).spec_sessions();
                let i = index_of(v, id@);
                final(self).spec_sessions() == v.update(i, SessionView { open: false, ..v[i] })
            }),
    {
        match self.find(id) {
            None => false,
            Some(i) => {
                let ghost pre = self.spec_sessions();
                assert(pre[i as int] == self.sessions@[i as int]@);
                self.sessions[i].open = false;
                assert(self.spec_sessions() =~= pre.update(i as int, SessionView { open: false, ..pre[i as int] }));
                true
            },
        }
    }

    /// Records a new terminal size for an open session's actor to apply. An
    /// unknown or closed session is reported and nothing changes.
    pub fn resize(&mut self, id: &str, cols: u16, rows: u16) -> (r: Result<(), SessionError>)
        requires
            old(self).wf(),
        ensures
            final(self).wf(),
            session_status(old(self).spec_sessions(), id@) matches Err(e) ==> r == Err::<(), SessionError>(e)
                && final(self).spec_sessions() == old(self).spec_sessions(),
            session_status(old(self).spec_sessions(), id@) is Ok ==> ({
                let v = old(self).spec_sessions();
                let i = index_of(v, id@);
                &&& r is Ok
                &&& final(self).spec_sessions() == v.update(i, SessionView { size: (cols, rows), ..v[i] })
            }),
    {
        match self.find(id) {
            None => Err(SessionError::SessionNotFound),
            Some(i) => {
                let ghost pre = self.spec_sessions();
                assert(pre[i as int] == self.sessions@[i as int]@);
                if !self.sessions[i].open {
                    return Err(SessionError::SessionClosed);
                }
                self.sessions[i].size = (cols, rows);
                assert(self.spec_sessions() =~= pre.update(i as int, SessionView { size: (cols, rows), ..pre[i as int] }));
                Ok(())
            },
        }
    }

    /// Removes the session at once, without waiting for its actor to stop;
    /// the id is free again. Returns whether it was registered.
    pub fn disconnect(&mut self, id: &str) -> (found: bool)
        requires
            old(self).wf(),
        ensures
            final(self).wf(),
            found == has_id(old(self).spec_sessions(), id@),
            final(self).spec_sessions() == removed(old(self).spec_sessions(), id@),
            !has_id(final(self).spec_sessions(), id@),
    {
        match self.find(id) {
            None => false,
            Some(i) => {
                let ghost pre = self.spec_sessions();
                let _gone = self.sessions.remove(i);
                assert(self.spec_sessions() =~= pre.remove(i as int));
                assert forall|j: int| 0 <= j < self.spec_sessions().len() implies (#[trigger] self.spec_sessions()[j]).id
                    != id@ by {
                    if j < i {
                        assert(self.spec_sessions()[j] == pre[j]);
                    } else {
                        assert(self.spec_sessions()[j] == pre[j + 1]);
                    }
                }
                true
            },
        }
    }

    /// Whether a session with this id is registered and open.
    pub fn is_connected(&self, id: &str) -> (b: bool)
        requires
            self.wf(),
        ensures
            b == (has_id(self.spec_sessions(), id@) && self.spec_sessions()[index_of(self.spec_sessions(), id@)].open),
    {
        match self.find(id) {
            None => false,
            Some(i) => {
                assert(self.spec_sessions()[i as int] == self.sessions@[i as int]@);
                self.sessions[i].open
            },
        }
    }

    /// The terminal size last requested for the session, as (columns, rows).
    pub fn size_of(&self, id: &str) -> (r: Result<(u16, u16), SessionError>)
        requires
            self.wf(),
        ensures
            !has_id(self.spec_sessions(), id@) ==> r == Err::<(u16, u16), SessionError>(SessionError::SessionNotFound),
            has_id(self.spec_sessions(), id@) ==> r == Ok::<(u16, u16), SessionError>(
                self.spec_sessions()[index_of(self.spec_sessions(), id@)].size,
            ),
    {
        match self.find(id) {
            None => Err(SessionError::SessionNotFound),
            Some(i) => {
                assert(self.spec_sessions()[i as int] == self.sessions@[i as int]@);
                Ok(self.sessions[i].size)
            },
        }
    }

    /// The ids of all registered sessions, in order of creation.
    pub fn session_ids(&self) -> (ids: Vec<String>)
        ensures
            ids@.len() == self.spec_sessions().len(),
            forall|i: int| 0 <= i < ids@.len() ==> (#[trigger] ids@[i])@ == self.spec_sessions()[i].id,
    {
        let mut ids: Vec<String> = Vec::new();
        let mut i: usize = 0;
        while i < self.sessions.len()
            invariant
                i <= self.sessions@.len(),
                ids@.len() == i,
                forall|j: int| 0 <= j < i ==> (#[trigger] ids@[j])@ == self.spec_sessions()[j].id,
            decreases self.sessions@.len() - i,
        {
            assert(self.spec_sessions()[i as int] == self.sessions@[i as int]@);
            ids.push(self.sessions[i].id.clone());
            i = i + 1;
        }
        ids
    }

    /// The configuration the session was created with.
    pub fn connection_config(&self, id: &str) -> (c: Option<&ConnectionConfig>)
        requires
            self.wf(),
        ensures
            c is Some == has_id(self.spec_sessions(), id@),
            c matches Some(x) ==> *x == self.spec_sessions()[index_of(self.spec_sessions(), id@)].config,
    {
        match self.find(id) {
            None => None,
            Some(i) => {
                assert(self.spec_sessions()[i as int] == self.sessions@[i as int]@);
                Some(&self.sessions[i].config)
            },
        }
    }
}

fn copy_bytes(b: &[u8]) -> (v: Vec<u8>)
    ensures
        v@ == b@,
{
    let mut v: Vec<u8> = Vec::new();
    let mut i: usize = 0;
    while i < b.len()
        invariant
            i <= b@.len(),
            v@ == b@.subrange(0, i as int),
        decreases b@.len() - i,
    {
        v.push(b[i]);
        i = i + 1;
        assert(v@ =~= b@.subrange(0, i as int));
    }
    assert(v@ =~= b@);
    v
}

/// Two inputs queued back to back for an open session stand in its queue
/// whole and in call order, after what was queued before; no other
/// session changes.
pub proof fn lemma_execute_in_order(v: Seq<SessionView>, id: Seq<char>, a: Seq<u8>, b: Seq<u8>)
    requires
        ids_unique(v),
        session_status(v, id) is Ok,
    ensures
        ({
            let i = index_of(v, id);
            let w = executed(executed(v, id, a), id, b);
            &&& session_status(executed(v, id, a), id) is Ok
            &&& w.len() == v.len()
            &&& has_id(w, id) && index_of(w, id) == i
            &&& w[i].pending == v[i].pending + seq![a, b]
            &&& forall|j: int| 0 <= j < v.len() && j != i ==> #[trigger] w[j] == v[j]
        }),
{
    let i = index_of(v, id);
    assert(v[i].id == id);
    let u = executed(v, id, a);
    assert(ids_unique(u)) by {
        assert forall|p: int, q: int| 0 <= p < u.len() && 0 <= q < u.len() && p != q implies (#[trigger] u[p]).id
            != (#[trigger] u[q]).id by {
            assert(v[p].id != v[q].id);
        }
    }
    lemma_index_unique(u, id, i);
    let w = executed(u, id, b);
    assert(ids_unique(w)) by {
        assert forall|p: int, q: int| 0 <= p < w.len() && 0 <= q < w.len() && p != q implies (#[trigger] w[p]).id
            != (#[trigger] w[q]).id by {
            assert(v[p].id != v[q].id);
        }
    }
    lemma_index_unique(w, id, i);
    assert(w[i].pending =~= v[i].pending + seq![a, b]);
}

/// Whatever `create` returns, no id is registered twice: a new id is added
/// once, and a duplicate one is refused, leaving the registry as it was.
pub proof fn lemma_create_keeps_ids_unique(
    v: Seq<SessionView>,
    id: Seq<char>,
    config: ConnectionConfig,
    cols: u16,
    rows: u16,
)
    requires
        ids_unique(v),
    ensures
        !has_id(v, id) ==> ids_unique(created(v, id, config, cols, rows)),
        !has_id(v, id) ==> index_of(created(v, id, config, cols, rows), id) == v.len(),
{
    if !has_id(v, id) {
        let w = created(v, id, config, cols, rows);
        assert forall|p: int, q: int| 0 <= p < w.len() && 0 <= q < w.len() && p != q implies (#[trigger] w[p]).id
            != (#[trigger] w[q]).id by {
            if p < v.len() && q < v.len() {
                assert(v[p].id != v[q].id);
            } else if p < v.len() {
                assert(w[p] == v[p]);
            } else {
                assert(w[q] == v[q]);
            }
        }
        lemma_index_unique(w, id, v.len() as int);
    }
}

} // verus!
