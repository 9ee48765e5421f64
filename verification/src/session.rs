//! Sessions.
//!
//! A session bundles identity, a pair of read cursors, mode, and the
//! flow-control policy. It is owned by the connection that attached it and
//! bound to one device.

use vstd::prelude::*;
use vstd::string::*;

use crate::ids::{fresh_uuid_v7, is_uuid_v7_text};
use crate::message::SessionInfo;
use crate::text::{clone_opt, opt_view, str_eq};

verus! {

#[derive(Debug, Clone, Copy, PartialEq, Eq, Structural)]
pub enum SessionMode {
    Rw,
    Ro,
}

impl SessionMode {
    pub open spec fn name(self) -> Seq<char> {
        match self {
            SessionMode::Rw => "rw"@,
            SessionMode::Ro => "ro"@,
        }
    }

    pub open spec fn of_word(s: Seq<char>) -> Option<SessionMode> {
        if s == "rw"@ {
            Some(SessionMode::Rw)
        } else if s == "ro"@ {
            Some(SessionMode::Ro)
        } else {
            None
        }
    }

    pub fn parse(s: &str) -> (mode: Option<Self>)
        ensures
            mode == Self::of_word(s@),
    {
        if str_eq(s, "rw") {
            Some(SessionMode::Rw)
        } else if str_eq(s, "ro") {
            Some(SessionMode::Ro)
        } else {
            None
        }
    }

    pub fn as_str(self) -> (s: &'static str)
        ensures
            s@ == self.name(),
    {
        match self {
            SessionMode::Rw => "rw",
            SessionMode::Ro => "ro",
        }
    }
}

/// A mode is read back from its name.
pub proof fn law_mode_round_trip(mode: SessionMode)
    ensures
        SessionMode::of_word(mode.name()) == Some(mode),
{
    reveal_strlit("rw");
    reveal_strlit("ro");
    assert("rw"@[1] == 'w' && "ro"@[1] == 'o');
}

/// What happens to a reader that falls behind the ring.
#[derive(Debug, Clone, Copy, PartialEq, Eq, Structural)]
pub enum FlowControl {
    DropOldest,
    Disconnect,
}

impl FlowControl {
    pub open spec fn of_word(s: Seq<char>) -> Option<FlowControl> {
        if s == "drop_oldest"@ {
            Some(FlowControl::DropOldest)
        } else if s == "disconnect"@ {
            Some(FlowControl::Disconnect)
        } else {
            None
        }
    }

    pub fn parse(s: &str) -> (flow: Option<Self>)
        ensures
            flow == Self::of_word(s@),
    {
        if str_eq(s, "drop_oldest") {
            Some(FlowControl::DropOldest)
        } else if str_eq(s, "disconnect") {
            Some(FlowControl::Disconnect)
        } else {
            None
        }
    }
}

#[derive(Debug)]
pub struct Session {
    pub id: String,
    /// The device this session reads from and writes to.
    pub device_id: String,
    pub label: Option<String>,
    pub mode: SessionMode,
    pub flow_control: FlowControl,
    /// Cursor used by RPCs that return data in the response (`expect`, `run`).
    pub consumer_cursor: u64,
    /// Cursor that tracks `data` notification fan-out progress.
    pub notify_cursor: u64,
    /// Creation time, in milliseconds on the daemon's monotonic clock.
    pub created_at: u64,
}

impl Session {
    /// `info` describes this session, seen from a ring whose head is `head`.
    pub open spec fn shown_as(&self, head: int, info: SessionInfo) -> bool {
        &&& info.id@ == self.id@
        &&& opt_view(info.label) == opt_view(self.label)
        &&& info.mode@ == self.mode.name()
        &&& info.cursor_seq == self.consumer_cursor
        &&& info.lag_bytes == (if head >= self.notify_cursor {
            head - self.notify_cursor
        } else {
            0
        })
    }

    pub fn to_info(&self, head_seq: u64) -> (info: SessionInfo)
        ensures
            self.shown_as(head_seq as int, info),
    {
        SessionInfo {
            id: self.id.clone(),
            label: clone_opt(&self.label),
            mode: self.mode.as_str().to_owned(),
            cursor_seq: self.consumer_cursor,
            lag_bytes: head_seq.saturating_sub(self.notify_cursor),
        }
    }
}

/// The ids of some sessions, in order.
pub open spec fn session_ids(s: Seq<Session>) -> Seq<Seq<char>> {
    s.map_values(|x: Session| x.id@)
}

/// A list of ids, less one of them if it is there.
pub open spec fn without(ids: Seq<Seq<char>>, id: Seq<char>) -> Seq<Seq<char>> {
    if ids.contains(id) {
        ids.remove(ids.index_of(id))
    } else {
        ids
    }
}

/// The sessions that exist, in the order they were created. No two share an
/// id.
#[derive(Debug)]
pub struct SessionManager {
    sessions: Vec<Session>,
}

impl SessionManager {
    /// The ids of all sessions, oldest first.
    pub closed spec fn ids(&self) -> Seq<Seq<char>> {
        session_ids(self.sessions@)
    }

    pub closed spec fn wf(&self) -> bool {
        session_ids(self.sessions@).no_duplicates()
    }

    /// The sessions by id.
    pub closed spec fn map(&self) -> Map<Seq<char>, Session> {
        Map::new(
            |id: Seq<char>| session_ids(self.sessions@).contains(id),
            |id: Seq<char>| self.sessions@[session_ids(self.sessions@).index_of(id)],
        )
    }

    proof fn lemma_at(&self, i: int)
        requires
            self.wf(),
            0 <= i < self.sessions@.len(),
        ensures
            self.ids()[i] == self.sessions@[i].id@,
            self.ids().index_of(self.sessions@[i].id@) == i,
            self.map().contains_key(self.sessions@[i].id@),
            self.map()[self.sessions@[i].id@] == self.sessions@[i],
    {
        let ids = session_ids(self.sessions@);
        assert(ids[i] == self.sessions@[i].id@);
        assert(ids.contains(ids[i]));
    }

    /// Every session is known by its own id, and the ids are those of the map.
    pub proof fn lemma_ids(&self)
        requires
            self.wf(),
        ensures
            self.ids().no_duplicates(),
            forall|id: Seq<char>| #[trigger]
                self.map().contains_key(id) <==> self.ids().contains(id),
            forall|id: Seq<char>| #[trigger]
                self.map().contains_key(id) ==> self.map()[id].id@ == id,
    {
        assert forall|id: Seq<char>| #[trigger] self.map().contains_key(id) implies self.map()[id].id@
            == id by {
            let ids = session_ids(self.sessions@);
            let i = ids.index_of(id);
            assert(ids.contains(id));
            assert(ids[i] == id);
        }
    }

    pub fn new() -> (m: Self)
        ensures
            m.wf(),
            m.map() == Map::<Seq<char>, Session>::empty(),
            m.ids() == Seq::<Seq<char>>::empty(),
    {
        let m = SessionManager { sessions: Vec::new() };
        assert(m.ids() =~= Seq::<Seq<char>>::empty());
        assert(m.map() =~= Map::<Seq<char>, Session>::empty());
        m
    }

    /// The position of the session with this id.
    fn position(&self, id: &str) -> (r: Option<usize>)
        requires
            self.wf(),
        ensures
            r is Some <==> self.map().contains_key(id@),
            r matches Some(i) ==> i < self.sessions@.len() && self.sessions@[i as int].id@ == id@
                && self.map()[id@] == self.sessions@[i as int],
    {
        let mut i: usize = 0;
        while i < self.sessions.len()
            invariant
                i <= self.sessions@.len(),
                self.wf(),
                forall|j: int| 0 <= j < i ==> (#[trigger] self.sessions@[j]).id@ != id@,
            decreases self.sessions@.len() - i,
        {
            if str_eq(self.sessions[i].id.as_str(), id) {
                proof {
                    self.lemma_at(i as int);
                }
                return Some(i);
            }
            i = i + 1;
        }
        proof {
            let ids = session_ids(self.sessions@);
            if ids.contains(id@) {
                let j = choose|j: int| 0 <= j < ids.len() && ids[j] == id@;
                assert(self.sessions@[j].id@ == id@);
            }
        }
        None
    }

    /// Adds a session. One that had the same id is replaced.
    pub fn insert(&mut self, session: Session)
        requires
            old(self).wf(),
        ensures
            final(self).wf(),
            final(self).map() == old(self).map().insert(session.id@, session),
            final(self).ids() == (if old(self).map().contains_key(session.id@) {
                old(self).ids()
            } else {
                old(self).ids().push(session.id@)
            }),
    {
        let ghost before = *self;
        let ghost id = session.id@;
        let at = self.position(session.id.as_str());
        let ghost old_ids = session_ids(self.sessions@);
        match at {
            Some(i) => {
                self.sessions.set(i, session);
                proof {
                    assert(session_ids(self.sessions@) =~= old_ids);
                    assert forall|k: Seq<char>| before.map().contains_key(k) && k != id implies
                        self.map()[k] == before.map()[k] by {
                        let j = old_ids.index_of(k);
                        assert(old_ids.contains(k));
                        assert(old_ids[j] == k);
                        assert(old_ids[i as int] == id);
                    }
                    self.lemma_at(i as int);
                    assert(self.map() =~= before.map().insert(id, session));
                }
            },
            None => {
                self.sessions.push(session);
                proof {
                    let ids = session_ids(self.sessions@);
                    assert(ids =~= old_ids.push(id));
                    assert(!old_ids.contains(id));
                    assert(self.wf());
                    self.lemma_at(self.sessions@.len() - 1);
                    assert forall|k: Seq<char>| #[trigger] before.map().contains_key(k) implies
                        self.map()[k] == before.map()[k] && self.map().contains_key(k) by {
                        let j = old_ids.index_of(k);
                        assert(old_ids.contains(k));
                        assert(old_ids[j] == k);
                        self.lemma_at(j);
                    }
                    assert forall|k: Seq<char>| self.map().contains_key(k) implies k == id
                        || before.map().contains_key(k) by {
                        let j = ids.index_of(k);
                        assert(ids.contains(k) && ids[j] == k);
                        if j < old_ids.len() {
                            assert(old_ids[j] == k);
                            assert(old_ids.contains(k));
                        }
                    }
                    assert(self.map().contains_key(id) && self.map()[id] == session);
                    assert(self.map() =~= before.map().insert(id, session));
                }
            },
        }
    }

    /// Creates a session with a fresh id, both cursors at `cursor_seq`.
    /// Returns the id.
    pub fn create(
        &mut self,
        device_id: &str,
        mode: SessionMode,
        flow_control: FlowControl,
        label: Option<String>,
        cursor_seq: u64,
        now_ms: u64,
    ) -> (id: String)
        requires
            old(self).wf(),
        ensures
            final(self).wf(),
            is_uuid_v7_text(id@),
            exists|s: Session|
                #![trigger old(self).map().insert(id@, s)]
                final(self).map() == old(self).map().insert(id@, s) && s.is_new(
                    id@,
                    device_id@,
                    mode,
                    flow_control,
                    opt_view(label),
                    cursor_seq,
                    now_ms,
                ),
            final(self).ids() == (if old(self).map().contains_key(id@) {
                old(self).ids()
            } else {
                old(self).ids().push(id@)
            }),
    {
        let id = fresh_uuid_v7();
        self.create_as(id.as_str(), device_id, mode, flow_control, label, cursor_seq, now_ms);
        id
    }

    /// Creates a session under a given id, both cursors at `cursor_seq`.
    pub fn create_as(
        &mut self,
        id: &str,
        device_id: &str,
        mode: SessionMode,
        flow_control: FlowControl,
        label: Option<String>,
        cursor_seq: u64,
        now_ms: u64,
    )
        requires
            old(self).wf(),
        ensures
            final(self).wf(),
            exists|s: Session|
                #![trigger old(self).map().insert(id@, s)]
                final(self).map() == old(self).map().insert(id@, s) && s.is_new(
                    id@,
                    device_id@,
                    mode,
                    flow_control,
                    opt_view(label),
                    cursor_seq,
                    now_ms,
                ),
            final(self).ids() == (if old(self).map().contains_key(id@) {
                old(self).ids()
            } else {
                old(self).ids().push(id@)
            }),
    {
        let s = Session {
            id: id.to_owned(),
            device_id: device_id.to_owned(),
            label,
            mode,
            flow_control,
            consumer_cursor: cursor_seq,
            notify_cursor: cursor_seq,
            created_at: now_ms,
        };
        let ghost sv = s;
        self.insert(s);
        assert(self.map() == old(self).map().insert(id@, sv));
    }

    pub fn get(&self, id: &str) -> (s: Option<&Session>)
        requires
            self.wf(),
        ensures
            s is Some <==> self.map().contains_key(id@),
            s matches Some(x) ==> *x == self.map()[id@],
    {
        match self.position(id) {
            Some(i) => Some(&self.sessions[i]),
            None => None,
        }
    }

    pub fn remove(&mut self, id: &str) -> (s: Option<Session>)
        requires
            old(self).wf(),
        ensures
            final(self).wf(),
            final(self).map() == old(self).map().remove(id@),
            final(self).ids() == without(old(self).ids(), id@),
            s == (if old(self).map().contains_key(id@) {
                Some(old(self).map()[id@])
            } else {
                None
            }),
    {
        let ghost before = *self;
        match self.position(id) {
            Some(i) => {
                let s = self.sessions.remove(i);
                proof {
                    let old_ids = session_ids(before.sessions@);
                    let ids = session_ids(self.sessions@);
                    assert(ids =~= old_ids.remove(i as int));
                    assert(old_ids[i as int] == id@);
                    assert(old_ids.index_of(id@) == i as int);
                    assert forall|a: int, b: int|
                        0 <= a < ids.len() && 0 <= b < ids.len() && a != b implies ids[a]
                        != ids[b] by {
                        let a2 = if a < i { a } else { a + 1 };
                        let b2 = if b < i { b } else { b + 1 };
                        assert(ids[a] == old_ids[a2] && ids[b] == old_ids[b2]);
                    }
                    assert(self.wf());
                    assert forall|k: Seq<char>| self.map().contains_key(k) implies k != id@
                        && before.map().contains_key(k) && self.map()[k] == before.map()[k] by {
                        let j = ids.index_of(k);
                        assert(ids.contains(k) && ids[j] == k);
                        let j2 = if j < i { j } else { j + 1 };
                        assert(old_ids[j2] == k);
                        before.lemma_at(j2);
                        assert(old_ids[i as int] == id@);
                    }
                    assert forall|k: Seq<char>|
                        before.map().contains_key(k) && k != id@ implies self.map().contains_key(
                        k,
                    ) by {
                        let j = old_ids.index_of(k);
                        assert(old_ids.contains(k) && old_ids[j] == k);
                        assert(old_ids[i as int] == id@);
                        let j2 = if j < i { j } else { j - 1 };
                        assert(ids[j2] == k);
                    }
                    assert(self.map() =~= before.map().remove(id@));
                }
                Some(s)
            },
            None => {
                assert(self.map() =~= before.map().remove(id@));
                None
            },
        }
    }

    /// Moves the cursor that `expect` and `run` read from.
    pub fn set_consumer_cursor(&mut self, id: &str, seq: u64)
        requires
            old(self).wf(),
            old(self).map().contains_key(id@),
        ensures
            final(self).wf(),
            final(self).ids() == old(self).ids(),
            final(self).map() == old(self).map().insert(
                id@,
                (Session { consumer_cursor: seq, ..old(self).map()[id@] }),
            ),
    {
        if let Some(i) = self.position(id) {
            let ghost before = *self;
            self.sessions[i].consumer_cursor = seq;
            proof {
                self.lemma_replaced(before, i as int);
            }
        }
    }

    /// Moves the cursor that notifications are sent from.
    pub fn set_notify_cursor(&mut self, id: &str, seq: u64)
        requires
            old(self).wf(),
            old(self).map().contains_key(id@),
        ensures
            final(self).wf(),
            final(self).ids() == old(self).ids(),
            final(self).map() == old(self).map().insert(
                id@,
                (Session { notify_cursor: seq, ..old(self).map()[id@] }),
            ),
    {
        if let Some(i) = self.position(id) {
            let ghost before = *self;
            self.sessions[i].notify_cursor = seq;
            proof {
                self.lemma_replaced(before, i as int);
            }
        }
    }

    proof fn lemma_replaced(&self, before: SessionManager, i: int)
        requires
            before.wf(),
            0 <= i < before.sessions@.len(),
            self.sessions@ == before.sessions@.update(i, self.sessions@[i]),
            self.sessions@[i].id@ == before.sessions@[i].id@,
        ensures
            self.wf(),
            self.ids() == before.ids(),
            self.map() == before.map().insert(self.sessions@[i].id@, self.sessions@[i]),
    {
        let id = before.sessions@[i].id@;
        assert(session_ids(self.sessions@) =~= session_ids(before.sessions@));
        let ids = session_ids(self.sessions@);
        self.lemma_at(i);
        assert forall|k: Seq<char>| before.map().contains_key(k) && k != id implies self.map()[k]
            == before.map()[k] by {
            let j = ids.index_of(k);
            assert(ids.contains(k) && ids[j] == k);
            assert(ids[i] == id);
        }
        assert(self.map() =~= before.map().insert(id, self.sessions@[i]));
    }

    /// One row per session, oldest first, seen from a ring whose head is
    /// `head_seq`.
    pub fn snapshot(&self, head_seq: u64) -> (rows: Vec<SessionInfo>)
        requires
            self.wf(),
        ensures
            rows@.len() == self.ids().len(),
            forall|i: int|
                0 <= i < rows@.len() ==> self.map()[self.ids()[i]].shown_as(
                    head_seq as int,
                    #[trigger] rows@[i],
                ),
    {
        let mut rows: Vec<SessionInfo> = Vec::new();
        let mut i: usize = 0;
        while i < self.sessions.len()
            invariant
                i <= self.sessions@.len(),
                self.wf(),
                rows@.len() == i,
                self.ids().len() == self.sessions@.len(),
                forall|j: int|
                    0 <= j < rows@.len() ==> self.map()[self.ids()[j]].shown_as(
                        head_seq as int,
                        #[trigger] rows@[j],
                    ),
            decreases self.sessions@.len() - i,
        {
            rows.push(self.sessions[i].to_info(head_seq));
            proof {
                self.lemma_at(i as int);
            }
            i = i + 1;
        }
        rows
    }

    /// The ids of the sessions bound to `device`, oldest first.
    pub open spec fn ids_for_device(&self, device: Seq<char>) -> Seq<Seq<char>> {
        self.ids().filter(|id: Seq<char>| self.map()[id].device_id@ == device)
    }

    /// One row per session bound to the device, oldest first.
    pub fn snapshot_for_device(&self, head_seq: u64, device_id: &str) -> (rows: Vec<SessionInfo>)
        requires
            self.wf(),
        ensures
            rows@.len() == self.ids_for_device(device_id@).len(),
            forall|i: int|
                0 <= i < rows@.len() ==> self.map()[self.ids_for_device(
                    device_id@,
                )[i]].shown_as(head_seq as int, #[trigger] rows@[i]),
    {
        let mut rows: Vec<SessionInfo> = Vec::new();
        let mut i: usize = 0;
        let ghost bound = |id: Seq<char>| self.map()[id].device_id@ == device_id@;
        proof {
            reveal(Seq::filter);
        }
        while i < self.sessions.len()
            invariant
                i <= self.sessions@.len(),
                self.wf(),
                self.ids().len() == self.sessions@.len(),
                bound == (|id: Seq<char>| self.map()[id].device_id@ == device_id@),
                rows@.len() == self.ids().take(i as int).filter(bound).len(),
                forall|j: int|
                    0 <= j < rows@.len() ==> self.map()[self.ids().take(i as int).filter(
                        bound,
                    )[j]].shown_as(head_seq as int, #[trigger] rows@[j]),
            decreases self.sessions@.len() - i,
        {
            proof {
                self.lemma_at(i as int);
                assert(self.ids().take(i + 1) =~= self.ids().take(i as int).push(
                    self.ids()[i as int],
                ));
                reveal(Seq::filter);
                assert(self.ids().take(i + 1).drop_last() =~= self.ids().take(i as int));
            }
            if str_eq(self.sessions[i].device_id.as_str(), device_id) {
                rows.push(self.sessions[i].to_info(head_seq));
            }
            i = i + 1;
        }
        assert(self.ids().take(i as int) =~= self.ids());
        rows
    }
}

impl Session {
    /// A session as it is created.
    pub open spec fn is_new(
        self,
        id: Seq<char>,
        device_id: Seq<char>,
        mode: SessionMode,
        flow_control: FlowControl,
        label: Option<Seq<char>>,
        cursor: u64,
        now_ms: u64,
    ) -> bool {
        &&& self.id@ == id
        &&& self.device_id@ == device_id
        &&& opt_view(self.label) == label
        &&& self.mode == mode
        &&& self.flow_control == flow_control
        &&& self.consumer_cursor == cursor
        &&& self.notify_cursor == cursor
        &&& self.created_at == now_ms
    }
}

} // verus!
