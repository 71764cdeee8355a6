//! The relay's table of transfer sessions and of the files uploaded to them.
use vstd::prelude::*;

use crate::relay::store::{lists_keys, KeyedMap};
use crate::text::views;

verus! {

/// How long a session stays joinable after it was created, in seconds.
pub const SESSION_TTL_SECS: i64 = 600;

/// One transfer session, as the relay records it.
#[derive(Debug, Clone)]
pub struct Session {
    pub id: String,
    pub mode: String,
    pub filename: String,
    pub filesize: u64,
    pub code: String,
    pub sender_addr: Option<String>,
    pub created_at: i64,
    pub worldwide_qr: bool,
    pub upload_ready: bool,
}

/// The mathematical content of a [`Session`].
pub struct SessionView {
    pub id: Seq<char>,
    pub mode: Seq<char>,
    pub filename: Seq<char>,
    pub filesize: u64,
    pub code: Seq<char>,
    pub sender_addr: Option<Seq<char>>,
    pub created_at: i64,
    pub worldwide_qr: bool,
    pub upload_ready: bool,
}

pub open spec fn opt_string_view(o: Option<String>) -> Option<Seq<char>> {
    match o {
        Some(s) => Some(s@),
        None => None,
    }
}

impl View for Session {
    type V = SessionView;

    open spec fn view(&self) -> SessionView {
        SessionView {
            id: self.id@,
            mode: self.mode@,
            filename: self.filename@,
            filesize: self.filesize,
            code: self.code@,
            sender_addr: opt_string_view(self.sender_addr),
            created_at: self.created_at,
            worldwide_qr: self.worldwide_qr,
            upload_ready: self.upload_ready,
        }
    }
}

pub open spec fn opt_session_view(o: Option<Session>) -> Option<SessionView> {
    match o {
        Some(s) => Some(s@),
        None => None,
    }
}

/// The relay's state: the sessions and the uploaded files, each by session id.
pub struct ManagerView {
    pub sessions: Map<Seq<char>, SessionView>,
    pub files: Map<Seq<char>, Seq<u8>>,
}

/// Every session that is ready for download has its file.
pub open spec fn ready_sessions_have_files(m: ManagerView) -> bool {
    forall|k: Seq<char>| #[trigger]
        m.sessions.contains_key(k) && m.sessions[k].upload_ready ==> m.files.contains_key(k)
}

/// Every session is stored under its own id.
pub open spec fn keyed_by_id(m: ManagerView) -> bool {
    forall|k: Seq<char>| m.sessions.contains_key(k) ==> #[trigger] m.sessions[k].id == k
}

/// A session created at `created_at` may still be joined at `now`.
pub open spec fn is_live(s: SessionView, now: i64) -> bool {
    now - s.created_at < SESSION_TTL_SECS
}

/// Drops the sessions that expired by `now`, then every file whose session
/// is gone.
pub open spec fn after_cleanup(m: ManagerView, now: i64) -> ManagerView {
    let sessions = m.sessions.filter_keys(|k: Seq<char>| is_live(m.sessions[k], now));
    ManagerView { sessions, files: m.files.filter_keys(|k: Seq<char>| sessions.contains_key(k)) }
}

/// The id under which `create` records a session: a blast session is
/// named after its file (the receiver gives the file name and the code), any
/// other session after its code (the file name in fast mode, the digits in
/// secure mode).
pub open spec fn session_id_for(mode: Seq<char>, filename: Seq<char>, code: Seq<char>) -> Seq<char> {
    if mode == "blast"@ {
        filename
    } else {
        code
    }
}

/// The session that `create` records.
pub open spec fn new_session(
    mode: Seq<char>,
    filename: Seq<char>,
    filesize: u64,
    code: Seq<char>,
    worldwide_qr: bool,
    now: i64,
) -> SessionView {
    SessionView {
        id: session_id_for(mode, filename, code),
        mode,
        filename,
        filesize,
        code,
        sender_addr: None,
        created_at: now,
        worldwide_qr,
        upload_ready: false,
    }
}

/// The state after `create` at time `now`: the expired sessions are gone
/// and the new session replaces any session with the same id.
pub open spec fn after_create(
    m: ManagerView,
    mode: Seq<char>,
    filename: Seq<char>,
    filesize: u64,
    code: Seq<char>,
    worldwide_qr: bool,
    now: i64,
) -> ManagerView {
    let c = after_cleanup(m, now);
    ManagerView {
        sessions: c.sessions.insert(
            session_id_for(mode, filename, code),
            new_session(mode, filename, filesize, code, worldwide_qr, now),
        ),
        files: c.files,
    }
}

/// The session stored under `id`, if any.
pub open spec fn lookup(m: ManagerView, id: Seq<char>) -> Option<SessionView> {
    if m.sessions.contains_key(id) {
        Some(m.sessions[id])
    } else {
        None
    }
}

/// The state after the sender of session `id` announced `addr`.
pub open spec fn after_set_sender_addr(m: ManagerView, id: Seq<char>, addr: Seq<char>) -> ManagerView {
    if m.sessions.contains_key(id) {
        ManagerView {
            sessions: m.sessions.insert(id, SessionView { sender_addr: Some(addr), ..m.sessions[id] }),
            files: m.files,
        }
    } else {
        m
    }
}

/// The state after session `id` and its file were dropped.
pub open spec fn after_remove(m: ManagerView, id: Seq<char>) -> ManagerView {
    ManagerView { sessions: m.sessions.remove(id), files: m.files.remove(id) }
}

/// The state after an upload to session `id` began: an empty file, if the
/// session exists.
pub open spec fn after_upload_start(m: ManagerView, id: Seq<char>) -> ManagerView {
    if m.sessions.contains_key(id) {
        ManagerView { sessions: m.sessions, files: m.files.insert(id, Seq::empty()) }
    } else {
        m
    }
}

/// The state after `data` was stored for `id`: the file is kept whether or
/// not the session exists, and an existing session is marked ready.
pub open spec fn after_store_file(m: ManagerView, id: Seq<char>, data: Seq<u8>) -> ManagerView {
    ManagerView {
        sessions: if m.sessions.contains_key(id) {
            m.sessions.insert(id, SessionView { upload_ready: true, ..m.sessions[id] })
        } else {
            m.sessions
        },
        files: m.files.insert(id, data),
    }
}

/// The file stored for `id`, if any.
pub open spec fn stored_file(m: ManagerView, id: Seq<char>) -> Option<Seq<u8>> {
    if m.files.contains_key(id) {
        Some(m.files[id])
    } else {
        None
    }
}

/// `chrono::Utc::now().timestamp()`: the current Unix time in seconds.
/// Nothing is claimed of the value: it is read from the system clock.
#[verifier::external_body]
pub(crate) fn unix_now() -> i64 {
    chrono::Utc::now().timestamp()
}

/// A field-by-field copy of a session.
fn copy_session(s: &Session) -> (r: Session)
    ensures
        r@ == s@,
{
    let addr = match &s.sender_addr {
        Some(a) => Some(a.clone()),
        None => None,
    };
    Session {
        id: s.id.clone(),
        mode: s.mode.clone(),
        filename: s.filename.clone(),
        filesize: s.filesize,
        code: s.code.clone(),
        sender_addr: addr,
        created_at: s.created_at,
        worldwide_qr: s.worldwide_qr,
        upload_ready: s.upload_ready,
    }
}

/// Every session is stored under its own id.
spec fn sessions_keyed(m: Map<Seq<char>, Session>) -> bool {
    forall|k: Seq<char>| m.contains_key(k) ==> #[trigger] m[k].id@ == k
}

/// Every session marked ready for download has a file.
spec fn ready_has_file(s: Map<Seq<char>, Session>, f: Map<Seq<char>, Vec<u8>>) -> bool {
    forall|k: Seq<char>| #[trigger] s.contains_key(k) && s[k].upload_ready ==> f.contains_key(k)
}

/// The views of the stored sessions.
spec fn session_views(m: Map<Seq<char>, Session>) -> Map<Seq<char>, SessionView> {
    m.map_values(|s: Session| s@)
}

proof fn lemma_view_invariants(m: Map<Seq<char>, Session>, f: Map<Seq<char>, Vec<u8>>)
    requires
        sessions_keyed(m),
        ready_has_file(m, f),
    ensures
        keyed_by_id(ManagerView { sessions: session_views(m), files: f.map_values(|v: Vec<u8>| v@) }),
        ready_sessions_have_files(
            ManagerView { sessions: session_views(m), files: f.map_values(|v: Vec<u8>| v@) },
        ),
{
    let v = ManagerView { sessions: session_views(m), files: f.map_values(|v: Vec<u8>| v@) };
    assert forall|k: Seq<char>| v.sessions.contains_key(k) implies #[trigger] v.sessions[k].id
        == k by {
        assert(m.contains_key(k));
        assert(m[k].id@ == k);
    }
    assert forall|k: Seq<char>| #[trigger]
        v.sessions.contains_key(k) && v.sessions[k].upload_ready implies v.files.contains_key(k) by {
        assert(m.contains_key(k) && m[k].upload_ready);
        assert(f.contains_key(k));
    }
}

fn session_is_live(s: &Session, now: i64) -> (r: bool)
    ensures
        r == is_live(s@, now),
{
    (now as i128) - (s.created_at as i128) < (SESSION_TTL_SECS as i128)
}

/// All sessions and the files uploaded for them.
pub struct SessionManager {
    sessions: KeyedMap<Session>,
    file_buffers: KeyedMap<Vec<u8>>,
}

impl View for SessionManager {
    type V = ManagerView;

    closed spec fn view(&self) -> ManagerView {
        ManagerView {
            sessions: session_views(self.sessions@),
            files: self.file_buffers@.map_values(|v: Vec<u8>| v@),
        }
    }
}

impl SessionManager {
    #[verifier::type_invariant]
    spec fn inv(self) -> bool {
        &&& self.sessions.wf()
        &&& self.file_buffers.wf()
        &&& sessions_keyed(self.sessions@)
        &&& ready_has_file(self.sessions@, self.file_buffers@)
    }

    /// A manager with no sessions and no files.
    pub fn new() -> (r: Self)
        ensures
            keyed_by_id(r@),
            ready_sessions_have_files(r@),
            r@.sessions == Map::<Seq<char>, SessionView>::empty(),
            r@.files == Map::<Seq<char>, Seq<u8>>::empty(),
    {
        let r = SessionManager { sessions: KeyedMap::new(), file_buffers: KeyedMap::new() };
        assert(r@.sessions =~= Map::<Seq<char>, SessionView>::empty());
        assert(r@.files =~= Map::<Seq<char>, Seq<u8>>::empty());
        r
    }

    /// Drops the sessions that expired by `now`, then the files of sessions
    /// that are gone.
    fn cleanup_expired(&mut self, now: i64)
        ensures
            final(self)@ == after_cleanup(old(self)@, now),
    {
        proof {
            use_type_invariant(&*self);
        }
        let mut sessions: KeyedMap<Session> = KeyedMap::new();
        std::mem::swap(&mut sessions, &mut self.sessions);
        let mut buffers: KeyedMap<Vec<u8>> = KeyedMap::new();
        std::mem::swap(&mut buffers, &mut self.file_buffers);
        let ghost m0 = sessions@;
        let ghost f0 = buffers@;
        let keys = sessions.key_list();
        let ghost ks = views(keys@);
        let n = keys.len();
        let mut i: usize = 0;
        assert(m0.filter_keys(|k: Seq<char>| !ks.take(0).contains(k) || is_live(m0[k]@, now))
            =~= m0);
        while i < n
            invariant
                i <= n == keys@.len(),
                ks == views(keys@),
                lists_keys(ks, m0),
                sessions.wf(),
                sessions@ == m0.filter_keys(
                    |k: Seq<char>| !ks.take(i as int).contains(k) || is_live(m0[k]@, now),
                ),
            decreases n - i,
        {
            let key = &keys[i];
            let ghost c = ks[i as int];
            proof {
                assert(key@ == c);
                let t0 = ks.take(i as int);
                assert(!t0.contains(c)) by {
                    if t0.contains(c) {
                        let j = choose|j: int| 0 <= j < t0.len() && t0[j] == c;
                        assert(ks[j] == ks[i as int]);
                    }
                }
                assert(m0.contains_key(c));
                assert(ks.take(i + 1) =~= ks.take(i as int).push(c));
            }
            let keep = match sessions.get(key.as_str()) {
                Some(s) => session_is_live(s, now),
                None => true,
            };
            if !keep {
                sessions.remove(key.as_str());
            }
            proof {
                let t0 = ks.take(i as int);
                let t1 = ks.take(i + 1);
                let p1 = |k: Seq<char>| !t1.contains(k) || is_live(m0[k]@, now);
                assert forall|k: Seq<char>| #[trigger] t1.contains(k) <==> (t0.contains(k) || k
                    == c) by {
                    if k == c {
                        assert(t1[i as int] == c);
                    }
                    if t0.contains(k) {
                        let j = choose|j: int| 0 <= j < t0.len() && t0[j] == k;
                        assert(t1[j] == k);
                    }
                    if t1.contains(k) {
                        let j = choose|j: int| 0 <= j < t1.len() && t1[j] == k;
                        if j < i {
                            assert(t0[j] == k);
                        }
                    }
                }
                assert(sessions@ =~= m0.filter_keys(p1));
            }
            i = i + 1;
        }
        proof {
            assert(ks.take(n as int) =~= ks);
            assert(sessions@.map_values(|s: Session| s@) =~= after_cleanup(
                old(self)@,
                now,
            ).sessions);
        }
        let ghost s1 = sessions@;
        let bkeys = buffers.key_list();
        let ghost bs = views(bkeys@);
        let bn = bkeys.len();
        let mut j: usize = 0;
        assert(f0.filter_keys(|k: Seq<char>| !bs.take(0).contains(k) || s1.contains_key(k))
            =~= f0);
        while j < bn
            invariant
                j <= bn == bkeys@.len(),
                bs == views(bkeys@),
                lists_keys(bs, f0),
                buffers.wf(),
                sessions@ == s1,
                buffers@ == f0.filter_keys(
                    |k: Seq<char>| !bs.take(j as int).contains(k) || s1.contains_key(k),
                ),
            decreases bn - j,
        {
            let key = &bkeys[j];
            let ghost c = bs[j as int];
            proof {
                assert(key@ == c);
                assert(bs.take(j + 1) =~= bs.take(j as int).push(c));
            }
            if !sessions.contains_key(key.as_str()) {
                buffers.remove(key.as_str());
            }
            proof {
                let t0 = bs.take(j as int);
                let t1 = bs.take(j + 1);
                let p1 = |k: Seq<char>| !t1.contains(k) || s1.contains_key(k);
                assert forall|k: Seq<char>| #[trigger] t1.contains(k) <==> (t0.contains(k) || k
                    == c) by {
                    if k == c {
                        assert(t1[j as int] == c);
                    }
                    if t0.contains(k) {
                        let x = choose|x: int| 0 <= x < t0.len() && t0[x] == k;
                        assert(t1[x] == k);
                    }
                    if t1.contains(k) {
                        let x = choose|x: int| 0 <= x < t1.len() && t1[x] == k;
                        if x < j {
                            assert(t0[x] == k);
                        }
                    }
                }
                assert(buffers@ =~= f0.filter_keys(p1));
            }
            j = j + 1;
        }
        proof {
            assert(bs.take(bn as int) =~= bs);
            assert forall|k: Seq<char>| #[trigger] sessions@.contains_key(k) && sessions@[k].upload_ready
                implies buffers@.contains_key(k) by {
                assert(m0.contains_key(k));
                assert(f0.contains_key(k));
            }
        }
        self.file_buffers = buffers;
        self.sessions = sessions;
        proof {
            assert(self@.files =~= after_cleanup(old(self)@, now).files);
            assert(self@.sessions =~= after_cleanup(old(self)@, now).sessions);
        }
    }

    /// Records a new session after dropping expired sessions; the clock is
    /// read at `now`. A blast session is recorded under its file name, any
    /// other under its code (see [`session_id_for`]). Returns the session id.
    pub fn create_at(
        &mut self,
        mode: String,
        filename: String,
        filesize: u64,
        code: String,
        worldwide_qr: bool,
        now: i64,
    ) -> (id: String)
        ensures
            keyed_by_id(final(self)@),
            ready_sessions_have_files(final(self)@),
            id@ == session_id_for(mode@, filename@, code@),
            final(self)@ == after_create(
                old(self)@,
                mode@,
                filename@,
                filesize,
                code@,
                worldwide_qr,
                now,
            ),
    {
        self.cleanup_expired(now);
        proof {
            use_type_invariant(&*self);
        }
        let ghost mid = self@;
        proof {
            reveal_strlit("blast");
        }
        let id = if crate::text::str_eq(mode.as_str(), "blast") {
            filename.clone()
        } else {
            code.clone()
        };
        let ghost code_view = code@;
        let session = Session {
            id: id.clone(),
            mode,
            filename,
            filesize,
            code,
            sender_addr: None,
            created_at: now,
            worldwide_qr,
            upload_ready: false,
        };
        let mut sessions: KeyedMap<Session> = KeyedMap::new();
        std::mem::swap(&mut sessions, &mut self.sessions);
        let ghost before = sessions@;
        let key = id.clone();
        assert(session.id@ == key@);
        sessions.insert(key, session);
        assert forall|k: Seq<char>| sessions@.contains_key(k) implies #[trigger] sessions@[k].id@
            == k by {
            if k != key@ {
                assert(before.contains_key(k));
            }
        }
        self.sessions = sessions;
        proof {
            assert(self@.sessions =~= mid.sessions.insert(
                session_id_for(mode@, filename@, code_view),
                new_session(mode@, filename@, filesize, code_view, worldwide_qr, now),
            ));
            assert(self@.files =~= mid.files);
            use_type_invariant(&*self);
            lemma_view_invariants(self.sessions@, self.file_buffers@);
        }
        id
    }

    /// Records a new session at the current time (see
    /// [`SessionManager::create_at`]). Returns the session id.
    pub fn create(
        &mut self,
        mode: String,
        filename: String,
        filesize: u64,
        code: String,
        worldwide_qr: bool,
    ) -> (id: String)
        ensures
            keyed_by_id(final(self)@),
            ready_sessions_have_files(final(self)@),
            id@ == session_id_for(mode@, filename@, code@),
            exists|now: i64|
                final(self)@ == #[trigger] after_create(
                    old(self)@,
                    mode@,
                    filename@,
                    filesize,
                    code@,
                    worldwide_qr,
                    now,
                ),
    {
        let now = unix_now();
        self.create_at(mode, filename, filesize, code, worldwide_qr, now)
    }

    /// Drops expired sessions (the clock reads `now`), then returns a copy
    /// of session `session_id`, if it is still there.
    pub fn join_at(&mut self, session_id: &str, now: i64) -> (r: Option<Session>)
        ensures
            keyed_by_id(final(self)@),
            ready_sessions_have_files(final(self)@),
            final(self)@ == after_cleanup(old(self)@, now),
            opt_session_view(r) == lookup(final(self)@, session_id@),
    {
        self.cleanup_expired(now);
        proof {
            use_type_invariant(&*self);
            lemma_view_invariants(self.sessions@, self.file_buffers@);
        }
        match self.sessions.get(session_id) {
            Some(s) => Some(copy_session(s)),
            None => None,
        }
    }

    /// Drops expired sessions at the current time, then returns a copy of
    /// session `session_id`, if it is still there.
    pub fn join(&mut self, session_id: &str) -> (r: Option<Session>)
        ensures
            keyed_by_id(final(self)@),
            ready_sessions_have_files(final(self)@),
            exists|now: i64| final(self)@ == #[trigger] after_cleanup(old(self)@, now),
            opt_session_view(r) == lookup(final(self)@, session_id@),
    {
        let now = unix_now();
        self.join_at(session_id, now)
    }

    /// Records the address at which the sender of `session_id` listens.
    /// Returns whether the session exists.
    pub fn set_sender_addr(&mut self, session_id: &str, addr: String) -> (r: bool)
        ensures
            keyed_by_id(final(self)@),
            ready_sessions_have_files(final(self)@),
            r == old(self)@.sessions.contains_key(session_id@),
            final(self)@ == after_set_sender_addr(old(self)@, session_id@, addr@),
    {
        proof {
            use_type_invariant(&*self);
        }
        let updated = match self.sessions.get(session_id) {
            Some(s) => {
                let mut s2 = copy_session(s);
                s2.sender_addr = Some(addr);
                Some(s2)
            },
            None => None,
        };
        let found = updated.is_some();
        if let Some(s2) = updated {
            let mut sessions: KeyedMap<Session> = KeyedMap::new();
            std::mem::swap(&mut sessions, &mut self.sessions);
            sessions.insert(crate::text::owned(session_id), s2);
            assert(sessions_keyed(sessions@));
            self.sessions = sessions;
            proof {
                let m = old(self)@;
                assert(self@.sessions =~= m.sessions.insert(
                    session_id@,
                    SessionView { sender_addr: Some(addr@), ..m.sessions[session_id@] },
                ));
                assert(self@.files =~= m.files);
            }
        }
        proof {
            use_type_invariant(&*self);
            lemma_view_invariants(self.sessions@, self.file_buffers@);
        }
        found
    }

    /// Drops session `session_id` and its file.
    pub fn remove(&mut self, session_id: &str)
        ensures
            keyed_by_id(final(self)@),
            ready_sessions_have_files(final(self)@),
            final(self)@ == after_remove(old(self)@, session_id@),
    {
        proof {
            use_type_invariant(&*self);
        }
        let mut sessions: KeyedMap<Session> = KeyedMap::new();
        std::mem::swap(&mut sessions, &mut self.sessions);
        let mut buffers: KeyedMap<Vec<u8>> = KeyedMap::new();
        std::mem::swap(&mut buffers, &mut self.file_buffers);
        sessions.remove(session_id);
        buffers.remove(session_id);
        assert(sessions_keyed(sessions@));
        self.file_buffers = buffers;
        self.sessions = sessions;
        proof {
            let m = old(self)@;
            assert(self@.sessions =~= m.sessions.remove(session_id@));
            assert(self@.files =~= m.files.remove(session_id@));
            use_type_invariant(&*self);
            lemma_view_invariants(self.sessions@, self.file_buffers@);
        }
    }

    /// Starts an upload for `session_id`: its file becomes empty. Returns
    /// whether the session exists; nothing changes when it does not.
    pub fn upload_start(&mut self, session_id: &str) -> (r: bool)
        ensures
            keyed_by_id(final(self)@),
            ready_sessions_have_files(final(self)@),
            r == old(self)@.sessions.contains_key(session_id@),
            final(self)@ == after_upload_start(old(self)@, session_id@),
    {
        proof {
            use_type_invariant(&*self);
        }
        let found = self.sessions.contains_key(session_id);
        if found {
            let mut sessions: KeyedMap<Session> = KeyedMap::new();
            std::mem::swap(&mut sessions, &mut self.sessions);
            let mut buffers: KeyedMap<Vec<u8>> = KeyedMap::new();
            std::mem::swap(&mut buffers, &mut self.file_buffers);
            buffers.insert(crate::text::owned(session_id), Vec::new());
            self.file_buffers = buffers;
            self.sessions = sessions;
            proof {
                let m = old(self)@;
                assert(self@.files =~= m.files.insert(session_id@, Seq::empty()));
                assert(self@.sessions =~= m.sessions);
            }
        }
        proof {
            use_type_invariant(&*self);
            lemma_view_invariants(self.sessions@, self.file_buffers@);
        }
        found
    }

    /// Stores `data` as the file of `session_id` and marks the session, if
    /// it exists, as ready for download.
    pub fn store_file(&mut self, session_id: &str, data: &[u8])
        ensures
            keyed_by_id(final(self)@),
            ready_sessions_have_files(final(self)@),
            final(self)@ == after_store_file(old(self)@, session_id@, data@),
    {
        proof {
            use_type_invariant(&*self);
        }
        let updated = match self.sessions.get(session_id) {
            Some(s) => {
                let mut s2 = copy_session(s);
                s2.upload_ready = true;
                Some(s2)
            },
            None => None,
        };
        let mut sessions: KeyedMap<Session> = KeyedMap::new();
        std::mem::swap(&mut sessions, &mut self.sessions);
        let mut buffers: KeyedMap<Vec<u8>> = KeyedMap::new();
        std::mem::swap(&mut buffers, &mut self.file_buffers);
        buffers.insert(crate::text::owned(session_id), vstd::slice::slice_to_vec(data));
        match updated {
            Some(s2) => {
                sessions.insert(crate::text::owned(session_id), s2);
            },
            None => {},
        }
        assert(sessions_keyed(sessions@));
        self.file_buffers = buffers;
        self.sessions = sessions;
        proof {
            let m = old(self)@;
            let e = after_store_file(m, session_id@, data@);
            assert(self@.files =~= e.files);
            assert(self@.sessions =~= e.sessions);
            use_type_invariant(&*self);
            lemma_view_invariants(self.sessions@, self.file_buffers@);
        }
    }

    /// A copy of the file stored for `session_id`, if any.
    pub fn get_file(&self, session_id: &str) -> (r: Option<Vec<u8>>)
        ensures
            match r {
                Some(v) => stored_file(self@, session_id@) == Some(v@),
                None => stored_file(self@, session_id@) is None,
            },
    {
        match self.file_buffers.get(session_id) {
            Some(v) => {
                let c = v.clone();
                proof {
                    assert forall|i: int| 0 <= i < v@.len() implies c@[i] == v@[i] by {
                        assert(cloned::<u8>(v@[i], c@[i]));
                    }
                    assert(c@ =~= v@);
                }
                Some(c)
            },
            None => None,
        }
    }
}

} // verus!
