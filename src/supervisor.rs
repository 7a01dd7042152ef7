//! The supervisor of running widget processes: the single map from widget
//! name to process handle, and the open / close / toggle transitions on it.
//!
//! Spawning and terminating a process are handed in by the caller as
//! closures, so that the check that a widget is running and the change of the
//! map happen within one call on `&mut self`: a caller that holds the
//! supervisor behind a lock makes the whole transition atomic.
use vstd::prelude::*;
use crate::rpc::RpcDataRequest;
use crate::text::{str_eq, views};

verus! {

/// Why a lifecycle transition did not take place as asked.
#[derive(Clone, Debug, PartialEq, Eq)]
pub enum LifecycleError {
    /// The widget has an entry already.
    AlreadyRunning,
    /// The widget has no entry.
    NotRunning,
    /// The process could not be launched; the message comes from the launcher.
    SpawnFailure(String),
    /// The process could not be terminated; its entry was removed all the same.
    TerminateFailure(String),
}

/// What `open_widget` does to the map of running widgets.
pub open spec fn open_post<H>(
    before: Map<Seq<char>, H>,
    name: Seq<char>,
    r: Result<(), LifecycleError>,
    after: Map<Seq<char>, H>,
) -> bool {
    if before.contains_key(name) {
        r == Err::<(), LifecycleError>(LifecycleError::AlreadyRunning) && after == before
    } else {
        (r is Ok && after.contains_key(name) && after == before.insert(name, after[name])) || (
        r is Err && r->Err_0 is SpawnFailure && after == before)
    }
}

/// What `close_widget` does to the map of running widgets.
pub open spec fn close_post<H>(
    before: Map<Seq<char>, H>,
    name: Seq<char>,
    r: Result<(), LifecycleError>,
    after: Map<Seq<char>, H>,
) -> bool {
    if before.contains_key(name) {
        after == before.remove(name) && (r is Ok || (r is Err && r->Err_0 is TerminateFailure))
    } else {
        r == Err::<(), LifecycleError>(LifecycleError::NotRunning) && after == before
    }
}

/// What `toggle_widget` does: a close for a running widget, an open for another.
pub open spec fn toggle_post<H>(
    before: Map<Seq<char>, H>,
    name: Seq<char>,
    r: Result<(), LifecycleError>,
    after: Map<Seq<char>, H>,
) -> bool {
    if before.contains_key(name) {
        close_post(before, name, r, after)
    } else {
        open_post(before, name, r, after)
    }
}

/// The outcome of a launch, as `open_widget` reports it.
pub open spec fn spawn_reported<H>(
    before: Map<Seq<char>, H>,
    name: Seq<char>,
    o: Result<H, String>,
    r: Result<(), LifecycleError>,
    after: Map<Seq<char>, H>,
) -> bool {
    match o {
        Ok(h) => r is Ok && after == before.insert(name, h),
        Err(e) => r == Err::<(), LifecycleError>(LifecycleError::SpawnFailure(e)) && after
            == before,
    }
}

/// The outcome of a termination, as `close_widget` reports it.
pub open spec fn kill_reported(o: Result<(), String>, r: Result<(), LifecycleError>) -> bool {
    match o {
        Ok(()) => r is Ok,
        Err(e) => r == Err::<(), LifecycleError>(LifecycleError::TerminateFailure(e)),
    }
}

/// The running widgets, each name with exactly one process handle.
pub struct Supervisor<H> {
    entries: Vec<(String, H)>,
    model: Ghost<Map<Seq<char>, H>>,
}

impl<H> Supervisor<H> {
    /// The running widgets, by name.
    pub closed spec fn view(&self) -> Map<Seq<char>, H> {
        self.model@
    }

    /// The entries match the map, one entry per name.
    pub closed spec fn wf(&self) -> bool {
        &&& forall|i: int, j: int|
            0 <= i < j < self.entries@.len() ==> #[trigger] self.entries@[i].0@
                != #[trigger] self.entries@[j].0@
        &&& forall|i: int|
            0 <= i < self.entries@.len() ==> self.model@.contains_key(
                #[trigger] self.entries@[i].0@,
            ) && self.model@[self.entries@[i].0@] == self.entries@[i].1
        &&& forall|k: Seq<char>|
            #[trigger] self.model@.contains_key(k) ==> exists|i: int|
                0 <= i < self.entries@.len() && #[trigger] self.entries@[i].0@ == k
    }

    /// A supervisor with no running widget.
    pub fn new() -> (r: Self)
        ensures
            r.wf(),
            r@ == Map::<Seq<char>, H>::empty(),
    {
        Supervisor { entries: Vec::new(), model: Ghost(Map::empty()) }
    }

    fn position(&self, name: &str) -> (r: Option<usize>)
        requires
            self.wf(),
        ensures
            match r {
                Some(i) => i < self.entries@.len() && self.entries@[i as int].0@ == name@,
                None => !self@.contains_key(name@),
            },
    {
        let mut i: usize = 0;
        while i < self.entries.len()
            invariant
                self.wf(),
                0 <= i <= self.entries@.len(),
                forall|j: int| 0 <= j < i ==> #[trigger] self.entries@[j].0@ != name@,
            decreases self.entries@.len() - i,
        {
            if str_eq(self.entries[i].0.as_str(), name) {
                return Some(i);
            }
            i = i + 1;
        }
        None
    }

    /// Whether the widget has an entry.
    pub fn is_running(&self, name: &str) -> (r: bool)
        requires
            self.wf(),
        ensures
            r == self@.contains_key(name@),
    {
        match self.position(name) {
            Some(i) => {
                assert(self.model@.contains_key(self.entries@[i as int].0@));
                true
            },
            None => false,
        }
    }

    /// The names of the running widgets.
    pub fn running_names(&self) -> (r: Vec<String>)
        requires
            self.wf(),
        ensures
            forall|k: Seq<char>| self@.contains_key(k) <==> views(r@).contains(k),
    {
        let mut r: Vec<String> = Vec::new();
        let mut i: usize = 0;
        while i < self.entries.len()
            invariant
                self.wf(),
                0 <= i <= self.entries@.len(),
                r@.len() == i,
                forall|j: int| 0 <= j < i ==> #[trigger] r@[j]@ == self.entries@[j].0@,
            decreases self.entries@.len() - i,
        {
            r.push(self.entries[i].0.clone());
            i = i + 1;
        }
        assert forall|k: Seq<char>| self@.contains_key(k) <==> views(r@).contains(k) by {
            if self@.contains_key(k) {
                let i = choose|i: int| 0 <= i < self.entries@.len() && #[trigger] self.entries@[i].0@ == k;
                assert(views(r@)[i] == k);
            }
            if views(r@).contains(k) {
                let i = choose|i: int| 0 <= i < views(r@).len() && views(r@)[i] == k;
                assert(self.model@.contains_key(self.entries@[i].0@));
            }
        }
        r
    }

    proof fn lemma_push_wf(&self, old_self: &Self, name: Seq<char>, h: H)
        requires
            old_self.wf(),
            !old_self@.contains_key(name),
            self.entries@.len() == old_self.entries@.len() + 1,
            self.entries@.subrange(0, old_self.entries@.len() as int) == old_self.entries@,
            self.entries@.last().0@ == name,
            self.entries@.last().1 == h,
            self.model@ == old_self.model@.insert(name, h),
        ensures
            self.wf(),
    {
        let n = old_self.entries@.len() as int;
        assert forall|i: int| 0 <= i < n implies #[trigger] self.entries@[i] == old_self.entries@[i] by {
            assert(self.entries@.subrange(0, n)[i] == self.entries@[i]);
        }
        assert forall|i: int| 0 <= i < n implies #[trigger] self.entries@[i].0@ != name by {
            assert(old_self.model@.contains_key(old_self.entries@[i].0@));
        }
        assert forall|k: Seq<char>| #[trigger] self.model@.contains_key(k) implies exists|i: int|
            0 <= i < self.entries@.len() && #[trigger] self.entries@[i].0@ == k by {
            if k == name {
                assert(self.entries@[n].0@ == k);
            } else {
                let i = choose|i: int| 0 <= i < old_self.entries@.len() && #[trigger] old_self.entries@[i].0@ == k;
                assert(self.entries@[i].0@ == k);
            }
        }
    }

    proof fn lemma_remove_wf(&self, old_self: &Self, i: int)
        requires
            old_self.wf(),
            0 <= i < old_self.entries@.len(),
            self.entries@ == old_self.entries@.remove(i),
            self.model@ == old_self.model@.remove(old_self.entries@[i].0@),
        ensures
            self.wf(),
    {
        let k0 = old_self.entries@[i].0@;
        let n = old_self.entries@.len() as int;
        assert forall|a: int, b: int| 0 <= a < b < self.entries@.len() implies #[trigger] self.entries@[a].0@
            != #[trigger] self.entries@[b].0@ by {
            let a2 = if a < i { a } else { a + 1 };
            let b2 = if b < i { b } else { b + 1 };
            assert(self.entries@[a] == old_self.entries@[a2]);
            assert(self.entries@[b] == old_self.entries@[b2]);
            assert(old_self.entries@[a2].0@ != old_self.entries@[b2].0@);
        }
        assert forall|a: int| 0 <= a < self.entries@.len() implies self.model@.contains_key(
            #[trigger] self.entries@[a].0@,
        ) && self.model@[self.entries@[a].0@] == self.entries@[a].1 by {
            let a2 = if a < i { a } else { a + 1 };
            assert(self.entries@[a] == old_self.entries@[a2]);
            assert(old_self.model@.contains_key(old_self.entries@[a2].0@));
            if a2 < i {
                assert(old_self.entries@[a2].0@ != old_self.entries@[i].0@);
            } else {
                assert(old_self.entries@[i].0@ != old_self.entries@[a2].0@);
            }
        }
        assert forall|k: Seq<char>| #[trigger] self.model@.contains_key(k) implies exists|a: int|
            0 <= a < self.entries@.len() && #[trigger] self.entries@[a].0@ == k by {
            let j = choose|j: int| 0 <= j < n && #[trigger] old_self.entries@[j].0@ == k;
            assert(j != i);
            let a = if j < i { j } else { j - 1 };
            assert(self.entries@[a] == old_self.entries@[j]);
        }
    }

    /// Launches the widget of `req` unless it is running, and records its
    /// process only when the launch succeeded.
    pub fn open_widget<S>(&mut self, req: RpcDataRequest, spawn: S) -> (r: Result<(), LifecycleError>) where
        S: FnOnce(Vec<String>) -> Result<H, String>,
        requires
            old(self).wf(),
            forall|a: Vec<String>| #[trigger] spawn.requires((a,)),
        ensures
            final(self).wf(),
            open_post(old(self)@, req.widget_name@, r, final(self)@),
            !old(self)@.contains_key(req.widget_name@) ==> exists|a: Vec<String>, o: Result<H, String>|
                views(a@) == req.launch_view() && #[trigger] spawn.ensures((a,), o)
                    && spawn_reported(old(self)@, req.widget_name@, o, r, final(self)@),
    {
        if self.is_running(req.widget_name.as_str()) {
            return Err(LifecycleError::AlreadyRunning);
        }
        let name = req.widget_name.clone();
        let args = req.get_args();
        let ghost args_v = args;
        let outcome = spawn(args);
        let ghost o = outcome;
        match outcome {
            Ok(h) => {
                let ghost old_self = *self;
                self.entries.push((name, h));
                self.model = Ghost(self.model@.insert(name@, h));
                proof {
                    assert(self.entries@.subrange(0, old_self.entries@.len() as int)
                        =~= old_self.entries@);
                    self.lemma_push_wf(&old_self, name@, h);
                    assert(self@ == old(self)@.insert(name@, self@[name@]));
                    assert(spawn.ensures((args_v,), o));
                }
                Ok(())
            },
            Err(e) => {
                proof {
                    assert(spawn.ensures((args_v,), o));
                }
                Err(LifecycleError::SpawnFailure(e))
            },
        }
    }

    /// Removes the widget's entry and terminates its process; the entry goes
    /// even when termination fails.
    pub fn close_widget<K>(&mut self, name: &str, kill: K) -> (r: Result<(), LifecycleError>) where
        K: FnOnce(H) -> Result<(), String>,
        requires
            old(self).wf(),
            forall|h: H| #[trigger] kill.requires((h,)),
        ensures
            final(self).wf(),
            close_post(old(self)@, name@, r, final(self)@),
            old(self)@.contains_key(name@) ==> exists|o: Result<(), String>|
                #[trigger] kill.ensures((old(self)@[name@],), o) && kill_reported(o, r),
    {
        match self.position(name) {
            None => Err(LifecycleError::NotRunning),
            Some(i) => {
                let ghost old_self = *self;
                let ghost key = self.entries@[i as int].0@;
                proof {
                    assert(old_self.model@.contains_key(key));
                }
                let (_, h) = self.entries.remove(i);
                self.model = Ghost(self.model@.remove(key));
                proof {
                    self.lemma_remove_wf(&old_self, i as int);
                }
                let outcome = kill(h);
                match outcome {
                    Ok(()) => Ok(()),
                    Err(e) => Err(LifecycleError::TerminateFailure(e)),
                }
            },
        }
    }

    /// Closes the widget of `req` when it is running, opens it otherwise.
    pub fn toggle_widget<S, K>(&mut self, req: RpcDataRequest, spawn: S, kill: K) -> (r: Result<
        (),
        LifecycleError,
    >) where
        S: FnOnce(Vec<String>) -> Result<H, String>,
        K: FnOnce(H) -> Result<(), String>,
        requires
            old(self).wf(),
            forall|a: Vec<String>| #[trigger] spawn.requires((a,)),
            forall|h: H| #[trigger] kill.requires((h,)),
        ensures
            final(self).wf(),
            toggle_post(old(self)@, req.widget_name@, r, final(self)@),
            !old(self)@.contains_key(req.widget_name@) ==> exists|a: Vec<String>, o: Result<H, String>|
                views(a@) == req.launch_view() && #[trigger] spawn.ensures((a,), o)
                    && spawn_reported(old(self)@, req.widget_name@, o, r, final(self)@),
            old(self)@.contains_key(req.widget_name@) ==> exists|o: Result<(), String>|
                #[trigger] kill.ensures((old(self)@[req.widget_name@],), o) && kill_reported(o, r),
    {
        if self.is_running(req.widget_name.as_str()) {
            let name = req.widget_name;
            self.close_widget(name.as_str(), kill)
        } else {
            self.open_widget(req, spawn)
        }
    }
}

/// A second `open_widget` of a widget that the first left running is refused with
/// `AlreadyRunning` and leaves its single entry as it was.
pub proof fn lemma_open_twice<H>(
    m0: Map<Seq<char>, H>,
    m1: Map<Seq<char>, H>,
    m2: Map<Seq<char>, H>,
    name: Seq<char>,
    r1: Result<(), LifecycleError>,
    r2: Result<(), LifecycleError>,
)
    requires
        open_post(m0, name, r1, m1),
        open_post(m1, name, r2, m2),
        r1 is Ok || m0.contains_key(name),
    ensures
        r2 == Err::<(), LifecycleError>(LifecycleError::AlreadyRunning),
        m2 == m1,
        m2.contains_key(name),
{
}

/// `close_widget` of a widget with no entry fails with `NotRunning` and changes
/// nothing.
pub proof fn lemma_close_absent<H>(
    m0: Map<Seq<char>, H>,
    m1: Map<Seq<char>, H>,
    name: Seq<char>,
    r: Result<(), LifecycleError>,
)
    requires
        close_post(m0, name, r, m1),
        !m0.contains_key(name),
    ensures
        r == Err::<(), LifecycleError>(LifecycleError::NotRunning),
        m1 == m0,
        m1.dom() == m0.dom(),
        m1.len() == m0.len(),
{
}

/// Two toggles of one widget restore which widgets are running, provided
/// neither launch failed.
pub proof fn lemma_toggle_twice<H>(
    m0: Map<Seq<char>, H>,
    m1: Map<Seq<char>, H>,
    m2: Map<Seq<char>, H>,
    name: Seq<char>,
    r1: Result<(), LifecycleError>,
    r2: Result<(), LifecycleError>,
)
    requires
        toggle_post(m0, name, r1, m1),
        toggle_post(m1, name, r2, m2),
        !(r1 is Err && r1->Err_0 is SpawnFailure),
        !(r2 is Err && r2->Err_0 is SpawnFailure),
    ensures
        m2.dom() == m0.dom(),
        m2.contains_key(name) == m0.contains_key(name),
{
    if m0.contains_key(name) {
        assert(m2 == m1.insert(name, m2[name]));
        assert(m2.dom() =~= m0.dom());
    } else {
        assert(m1 == m0.insert(name, m1[name]));
        assert(m2.dom() =~= m0.dom());
    }
}

} // verus!
