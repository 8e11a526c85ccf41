//! The session registry: the single source of truth for which terminal
//! sessions exist, keyed by their caller-supplied id.
//!
//! The registry is generic over the handles `H` that keep a session's
//! process and terminal alive; it holds them for exactly as long as the
//! entry exists and hands them back when the entry is removed.

use vstd::prelude::*;

verus! {

/// How a session talks to its shell.
#[derive(Clone, Copy, Debug, PartialEq, Eq, Structural)]
pub enum BackendMode {
    /// A real pseudo-terminal; it can be resized.
    RealPty,
    /// Plain redirected pipes; resizing is a no-op.
    DegradedPipes,
}

/// The request to open a session.
pub struct CreatePtyOptions {
    pub id: String,
    pub cwd: String,
}

/// One live session.
pub struct Session<H> {
    pub id: String,
    /// Working directory recorded at creation; never updated afterwards.
    pub cwd: String,
    pub mode: BackendMode,
    /// Distinguishes this session from every earlier one under the same id.
    pub generation: u64,
    /// Handles kept alive for the session's whole life.
    pub handles: H,
}

/// Failures of registry lookups.
#[derive(Clone, Copy, Debug, PartialEq, Eq, Structural)]
pub enum SessionError {
    NotFound,
}

impl SessionError {
    /// The message handed to callers.
    pub fn message(&self) -> (r: String)
        ensures
            r@ == "PTY instance not found"@,
    {
        match self {
            SessionError::NotFound => "PTY instance not found".to_string(),
        }
    }
}

/// The session table.
pub struct SessionRegistry<H> {
    sessions: Vec<Session<H>>,
    next_generation: u64,
    contents: Ghost<Map<Seq<char>, Session<H>>>,
}

impl<H> SessionRegistry<H> {
    /// The sessions, by id.
    pub closed spec fn view(&self) -> Map<Seq<char>, Session<H>> {
        self.contents@
    }

    /// The generation the next created session receives.
    pub closed spec fn spec_next_generation(&self) -> u64 {
        self.next_generation
    }

    pub closed spec fn wf(&self) -> bool {
        &&& forall|i: int|
            0 <= i < self.sessions@.len() ==> {
                &&& #[trigger] self.contents@.contains_key(self.sessions@[i].id@)
                &&& self.contents@[self.sessions@[i].id@] == self.sessions@[i]
            }
        &&& forall|k: Seq<char>|
            #[trigger] self.contents@.contains_key(k) ==> exists|i: int|
                0 <= i < self.sessions@.len() && #[trigger] self.sessions@[i].id@ == k
        &&& forall|i: int, j: int|
            0 <= i < self.sessions@.len() && 0 <= j < self.sessions@.len() && i != j
                ==> #[trigger] self.sessions@[i].id@ != #[trigger] self.sessions@[j].id@
    }

    /// Every session was created before the current generation counter.
    pub closed spec fn generations_below_next(&self) -> bool {
        forall|k: Seq<char>|
            #[trigger] self.contents@.contains_key(k) ==> self.contents@[k].generation
                < self.next_generation
    }

    /// Well-formedness: the table is consistent with its model, and every
    /// live session is older than the next one to be created.
    pub open spec fn inv(&self) -> bool {
        &&& self.wf()
        &&& self.generations_below_next()
        &&& forall|k: Seq<char>| #[trigger] self@.contains_key(k) ==> self@[k].id@ == k
    }

    /// An empty registry.
    pub fn new() -> (r: Self)
        ensures
            r.inv(),
            r@ == Map::<Seq<char>, Session<H>>::empty(),
            r.spec_next_generation() == 0,
    {
        SessionRegistry { sessions: Vec::new(), next_generation: 0, contents: Ghost(Map::empty()) }
    }

    fn find(&self, id: &String) -> (r: Option<usize>)
        requires
            self.wf(),
        ensures
            match r {
                Some(i) => i < self.sessions@.len() && self.sessions@[i as int].id@ == id@,
                None => !self@.contains_key(id@),
            },
    {
        let mut i: usize = 0;
        while i < self.sessions.len()
            invariant
                self.wf(),
                i <= self.sessions@.len(),
                forall|j: int| 0 <= j < i ==> self.sessions@[j].id@ != id@,
            decreases self.sessions@.len() - i,
        {
            if self.sessions[i].id.eq(id) {
                return Some(i);
            }
            i = i + 1;
        }
        None
    }

    /// Whether a session with this id exists.
    pub fn contains(&self, id: &String) -> (r: bool)
        requires
            self.inv(),
        ensures
            r == self@.contains_key(id@),
    {
        match self.find(id) {
            Some(i) => {
                proof {
                    assert(self.contents@.contains_key(self.sessions@[i as int].id@));
                }
                true
            },
            None => false,
        }
    }

    /// The session under this id, if any.
    pub fn get(&self, id: &String) -> (r: Option<&Session<H>>)
        requires
            self.inv(),
        ensures
            match r {
                Some(s) => self@.contains_key(id@) && *s == self@[id@],
                None => !self@.contains_key(id@),
            },
    {
        match self.find(id) {
            Some(i) => {
                proof {
                    assert(self.contents@.contains_key(self.sessions@[i as int].id@));
                }
                Some(&self.sessions[i])
            },
            None => None,
        }
    }

    /// Whether another session can still be given a fresh generation.
    pub fn has_capacity(&self) -> (r: bool)
        ensures
            r == (self.spec_next_generation() < u64::MAX),
    {
        self.next_generation < u64::MAX
    }

    /// The generation that the next `create` hands out.
    pub fn next_generation(&self) -> (r: u64)
        ensures
            r == self.spec_next_generation(),
    {
        self.next_generation
    }

    /// Removes the session under `id`, handing back its handles so that
    /// dropping them tears the session down.
    fn take(&mut self, id: &String) -> (r: Option<Session<H>>)
        requires
            old(self).inv(),
        ensures
            final(self).inv(),
            final(self)@ == old(self)@.remove(id@),
            final(self).spec_next_generation() == old(self).spec_next_generation(),
            match r {
                Some(s) => old(self)@.contains_key(id@) && s == old(self)@[id@],
                None => !old(self)@.contains_key(id@),
            },
    {
        match self.find(id) {
            None => {
                proof {
                    assert(self@.remove(id@) =~= self@);
                }
                None
            },
            Some(i) => {
                let ghost old_sessions = self.sessions@;
                let ghost old_contents = self.contents@;
                proof {
                    assert(old_contents.contains_key(old_sessions[i as int].id@));
                }
                let s = self.sessions.remove(i);
                self.contents = Ghost(old_contents.remove(id@));
                proof {
                    assert forall|j: int| 0 <= j < self.sessions@.len() implies {
                        &&& #[trigger] self.contents@.contains_key(self.sessions@[j].id@)
                        &&& self.contents@[self.sessions@[j].id@] == self.sessions@[j]
                    } by {
                        let oj = if j < i { j } else { j + 1 };
                        assert(self.sessions@[j] == old_sessions[oj]);
                        assert(old_contents.contains_key(old_sessions[oj].id@));
                    }
                    assert forall|k: Seq<char>| #[trigger]
                        self.contents@.contains_key(k) implies exists|j: int|
                        0 <= j < self.sessions@.len() && #[trigger] self.sessions@[j].id@
                            == k by {
                        let oj = choose|oj: int|
                            0 <= oj < old_sessions.len() && #[trigger] old_sessions[oj].id@ == k;
                        assert(oj != i);
                        let j = if oj < i { oj } else { oj - 1 };
                        assert(self.sessions@[j] == old_sessions[oj]);
                    }
                    assert forall|a: int, b: int|
                        0 <= a < self.sessions@.len() && 0 <= b < self.sessions@.len() && a
                            != b implies #[trigger] self.sessions@[a].id@
                        != #[trigger] self.sessions@[b].id@ by {
                        let oa = if a < i { a } else { a + 1 };
                        let ob = if b < i { b } else { b + 1 };
                        assert(self.sessions@[a] == old_sessions[oa]);
                        assert(self.sessions@[b] == old_sessions[ob]);
                    }
                }
                Some(s)
            },
        }
    }
}


impl<H> SessionRegistry<H> {
    /// Opens a session under `options.id`, recording `options.cwd`.
    ///
    /// A live session under the same id is replaced: it is taken out of the
    /// table and handed back, so that the caller tears it down exactly as a
    /// kill would.
    pub fn create(&mut self, options: CreatePtyOptions, mode: BackendMode, handles: H) -> (r:
        Option<Session<H>>)
        requires
            old(self).inv(),
            old(self).spec_next_generation() < u64::MAX,
        ensures
            final(self).inv(),
            final(self)@ == old(self)@.insert(
                options.id@,
                (Session {
                    id: options.id,
                    cwd: options.cwd,
                    mode,
                    generation: old(self).spec_next_generation(),
                    handles,
                }),
            ),
            final(self).spec_next_generation() == old(self).spec_next_generation() + 1,
            match r {
                Some(s) => old(self)@.contains_key(options.id@) && s == old(self)@[options.id@],
                None => !old(self)@.contains_key(options.id@),
            },
    {
        let ghost id = options.id@;
        let displaced = self.take(&options.id);
        let generation = self.next_generation;
        let session = Session { id: options.id, cwd: options.cwd, mode, generation, handles };
        let ghost old_sessions = self.sessions@;
        let ghost old_contents = self.contents@;
        let ghost s = session;
        self.sessions.push(session);
        self.contents = Ghost(old_contents.insert(id, s));
        self.next_generation = generation + 1;
        proof {
            let n = old_sessions.len() as int;
            assert(self.sessions@[n] == s);
            assert forall|j: int| 0 <= j < self.sessions@.len() implies {
                &&& #[trigger] self.contents@.contains_key(self.sessions@[j].id@)
                &&& self.contents@[self.sessions@[j].id@] == self.sessions@[j]
            } by {
                if j < n {
                    assert(self.sessions@[j] == old_sessions[j]);
                    assert(old_contents.contains_key(old_sessions[j].id@));
                }
            }
            assert forall|k: Seq<char>| #[trigger]
                self.contents@.contains_key(k) implies exists|j: int|
                0 <= j < self.sessions@.len() && #[trigger] self.sessions@[j].id@ == k by {
                if k == id {
                    assert(self.sessions@[n].id@ == k);
                } else {
                    let oj = choose|oj: int|
                        0 <= oj < old_sessions.len() && #[trigger] old_sessions[oj].id@ == k;
                    assert(self.sessions@[oj] == old_sessions[oj]);
                }
            }
            assert forall|a: int, b: int|
                0 <= a < self.sessions@.len() && 0 <= b < self.sessions@.len() && a
                    != b implies #[trigger] self.sessions@[a].id@
                != #[trigger] self.sessions@[b].id@ by {
                if a < n {
                    assert(old_contents.contains_key(old_sessions[a].id@));
                }
                if b < n {
                    assert(old_contents.contains_key(old_sessions[b].id@));
                }
            }
        }
        displaced
    }

    /// Removes the session under `id` and hands it back; the caller
    /// releases its handles (and force-stops a pipe-backed process).
    /// Unknown ids are tolerated: nothing changes and `None` comes back.
    pub fn kill(&mut self, id: &String) -> (r: Option<Session<H>>)
        requires
            old(self).inv(),
        ensures
            final(self).inv(),
            final(self)@ == old(self)@.remove(id@),
            final(self).spec_next_generation() == old(self).spec_next_generation(),
            match r {
                Some(s) => old(self)@.contains_key(id@) && s == old(self)@[id@],
                None => !old(self)@.contains_key(id@) && final(self)@ == old(self)@,
            },
    {
        let r = self.take(id);
        proof {
            if r is None {
                assert(old(self)@.remove(id@) =~= old(self)@);
            }
        }
        r
    }

    /// First half of a restart: the session under `id` must exist; it is
    /// removed and handed back for teardown before the new one is created.
    pub fn begin_restart(&mut self, id: &String) -> (r: Result<Session<H>, SessionError>)
        requires
            old(self).inv(),
        ensures
            final(self).inv(),
            final(self).spec_next_generation() == old(self).spec_next_generation(),
            match r {
                Ok(s) => old(self)@.contains_key(id@) && s == old(self)@[id@] && final(self)@
                    == old(self)@.remove(id@),
                Err(e) => e == SessionError::NotFound && !old(self)@.contains_key(id@)
                    && final(self)@ == old(self)@,
            },
    {
        match self.kill(id) {
            Some(s) => Ok(s),
            None => Err(SessionError::NotFound),
        }
    }

    /// Called by a session's exit monitor once its process has ended.
    /// The entry is removed only while it is still the session that the
    /// monitor watched: a newer session under the same id is left alone.
    pub fn on_exit(&mut self, id: &String, generation: u64) -> (r: Option<Session<H>>)
        requires
            old(self).inv(),
        ensures
            final(self).inv(),
            final(self).spec_next_generation() == old(self).spec_next_generation(),
            final(self)@ == exit_effect(old(self)@, id@, generation),
            r is Some <==> exit_matches(old(self)@, id@, generation),
    {
        let matches = match self.get(id) {
            Some(s) => s.generation == generation,
            None => false,
        };
        if matches {
            self.take(id)
        } else {
            None
        }
    }

    /// The working directory recorded for `id`; a pure lookup.
    pub fn get_cwd(&self, id: &String) -> (r: Option<String>)
        requires
            self.inv(),
        ensures
            match r {
                Some(c) => cwd_of(self@, id@) == Some(c@),
                None => cwd_of(self@, id@) is None,
            },
    {
        match self.get(id) {
            Some(s) => Some(s.cwd.clone()),
            None => None,
        }
    }

    /// The handles to write through for `id`.
    pub fn write_target(&self, id: &String) -> (r: Result<&H, SessionError>)
        requires
            self.inv(),
        ensures
            match r {
                Ok(h) => self@.contains_key(id@) && *h == self@[id@].handles,
                Err(e) => e == SessionError::NotFound && !self@.contains_key(id@),
            },
    {
        match self.get(id) {
            Some(s) => Ok(&s.handles),
            None => Err(SessionError::NotFound),
        }
    }

    /// The handles to resize through for `id`: only a live pseudo-terminal
    /// session has one. Unknown ids and pipe-backed sessions give `None`,
    /// and the caller then does nothing.
    pub fn resize_target(&self, id: &String) -> (r: Option<&H>)
        requires
            self.inv(),
        ensures
            match r {
                Some(h) => self@.contains_key(id@) && self@[id@].mode == BackendMode::RealPty
                    && *h == self@[id@].handles,
                None => !self@.contains_key(id@) || self@[id@].mode == BackendMode::DegradedPipes,
            },
    {
        match self.get(id) {
            Some(s) => match s.mode {
                BackendMode::RealPty => Some(&s.handles),
                BackendMode::DegradedPipes => None,
            },
            None => None,
        }
    }
}

/// The working directory recorded under `id`, if a session exists.
pub open spec fn cwd_of<H>(m: Map<Seq<char>, Session<H>>, id: Seq<char>) -> Option<Seq<char>> {
    if m.contains_key(id) {
        Some(m[id].cwd@)
    } else {
        None
    }
}

/// Whether an exit reported for `(id, generation)` concerns the live session.
pub open spec fn exit_matches<H>(m: Map<Seq<char>, Session<H>>, id: Seq<char>, generation: u64) -> bool {
    m.contains_key(id) && m[id].generation == generation
}

/// The table after an exit reported for `(id, generation)`.
pub open spec fn exit_effect<H>(m: Map<Seq<char>, Session<H>>, id: Seq<char>, generation: u64) -> Map<
    Seq<char>,
    Session<H>,
> {
    if exit_matches(m, id, generation) {
        m.remove(id)
    } else {
        m
    }
}

/// Creating a session and then asking for its working directory gives back
/// the directory it was created with.
pub proof fn law_create_then_get_cwd<H>(m: Map<Seq<char>, Session<H>>, s: Session<H>)
    ensures
        cwd_of(m.insert(s.id@, s), s.id@) == Some(s.cwd@),
{
}

/// Killing an unknown id changes nothing; killing a known id removes it,
/// so that later lookups (writes included) report it as not found.
pub proof fn law_kill<H>(m: Map<Seq<char>, Session<H>>, id: Seq<char>)
    ensures
        !m.contains_key(id) ==> m.remove(id) == m,
        m.contains_key(id) ==> !m.remove(id).contains_key(id),
        cwd_of(m.remove(id), id) is None,
{
    if !m.contains_key(id) {
        assert(m.remove(id) =~= m);
    }
}

/// After a restart of a live session with a new directory, the id reports
/// the new directory, and the exit of the replaced process removes nothing:
/// its exit is told apart from the new session's by the generation.
pub proof fn law_restart<H>(reg: SessionRegistry<H>, id: Seq<char>, fresh: Session<H>)
    requires
        reg.inv(),
        reg@.contains_key(id),
        fresh.id@ == id,
        fresh.generation == reg.spec_next_generation(),
    ensures
        ({
            let after = reg@.remove(id).insert(id, fresh);
            &&& cwd_of(after, id) == Some(fresh.cwd@)
            &&& !exit_matches(after, id, reg@[id].generation)
            &&& exit_effect(after, id, reg@[id].generation) == after
            &&& exit_matches(after, id, fresh.generation)
        }),
{
    assert(reg@[id].generation < reg.spec_next_generation());
}

/// Once the exit of the live session under `id` has been handled, the id is
/// unknown.
pub proof fn law_exit_forgets<H>(m: Map<Seq<char>, Session<H>>, id: Seq<char>, generation: u64)
    requires
        exit_matches(m, id, generation),
    ensures
        cwd_of(exit_effect(m, id, generation), id) is None,
{
}

/// Sessions are independent: creating, killing or ending the session under
/// one id leaves the session under any other id, with its handles,
/// directory and mode, exactly as it was; so lookups for writing to or
/// resizing another session give the same handles as before.
pub proof fn law_sessions_independent<H>(
    m: Map<Seq<char>, Session<H>>,
    a: Seq<char>,
    b: Seq<char>,
    s: Session<H>,
    generation: u64,
)
    requires
        a != b,
        s.id@ == a,
    ensures
        m.insert(a, s).contains_key(b) == m.contains_key(b),
        m.contains_key(b) ==> m.insert(a, s)[b] == m[b],
        m.remove(a).contains_key(b) == m.contains_key(b),
        m.contains_key(b) ==> m.remove(a)[b] == m[b],
        exit_effect(m, a, generation).contains_key(b) == m.contains_key(b),
        m.contains_key(b) ==> exit_effect(m, a, generation)[b] == m[b],
{
}

} // verus!
