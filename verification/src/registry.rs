//! The process-wide trace registry: a map from trace identifier to its open
//! trace file, with an explicit per-entry count of the sessions holding it.
//! The surrounding process keeps one lock around the whole value; entries
//! name their file through an opaque numeric handle that the process maps to
//! the real file.  The reclaimer's sweep evicts entries no session holds and
//! detects the idle-shutdown condition.

use vstd::prelude::*;

verus! {

/// One registry entry: a trace, the handle of its open file, and how many
/// sessions currently hold it besides the registry itself.
pub struct RegEntry {
    /// The client-chosen trace identifier.
    pub trace_id: Vec<u8>,
    /// The number naming this trace's open file to the process.
    pub handle: u64,
    /// How many live sessions have this trace bound.
    pub sessions: u64,
}

/// The entries of `s` that some session still holds, in order.
pub open spec fn live_entries(s: Seq<RegEntry>) -> Seq<RegEntry>
    decreases s.len(),
{
    if s.len() == 0 {
        Seq::empty()
    } else if s.last().sessions > 0 {
        live_entries(s.drop_last()).push(s.last())
    } else {
        live_entries(s.drop_last())
    }
}

/// The handles of the entries of `s` that no session holds, in order.
pub open spec fn dead_handles(s: Seq<RegEntry>) -> Seq<u64>
    decreases s.len(),
{
    if s.len() == 0 {
        Seq::empty()
    } else if s.last().sessions == 0 {
        dead_handles(s.drop_last()).push(s.last().handle)
    } else {
        dead_handles(s.drop_last())
    }
}

/// Every kept entry is one of the swept entries.
pub proof fn lemma_live_entries_membership(s: Seq<RegEntry>)
    ensures
        forall|k: int|
            0 <= k < live_entries(s).len() ==> exists|i: int|
                0 <= i < s.len() && #[trigger] live_entries(s)[k] == s[i],
    decreases s.len(),
{
    if s.len() != 0 {
        let dl = s.drop_last();
        lemma_live_entries_membership(dl);
        assert forall|k: int| 0 <= k < live_entries(s).len() implies exists|i: int|
            0 <= i < s.len() && #[trigger] live_entries(s)[k] == s[i] by {
            if s.last().sessions > 0 && k == live_entries(s).len() - 1 {
                assert(live_entries(s)[k] == s[s.len() - 1]);
            } else {
                assert(live_entries(s)[k] == live_entries(dl)[k]);
                let i = choose|i: int| 0 <= i < dl.len() && live_entries(dl)[k] == dl[i];
                assert(live_entries(s)[k] == s[i]);
            }
        }
    }
}

/// Every kept entry is still held by some session.
pub proof fn lemma_live_entries_positive(s: Seq<RegEntry>)
    ensures
        forall|k: int|
            0 <= k < live_entries(s).len() ==> (#[trigger] live_entries(s)[k]).sessions > 0,
    decreases s.len(),
{
    if s.len() != 0 {
        let dl = s.drop_last();
        lemma_live_entries_positive(dl);
        assert forall|k: int| 0 <= k < live_entries(s).len() implies (
        #[trigger] live_entries(s)[k]).sessions > 0 by {
            if s.last().sessions > 0 && k == live_entries(s).len() - 1 {
                assert(live_entries(s)[k] == s.last());
            } else {
                assert(live_entries(s)[k] == live_entries(dl)[k]);
            }
        }
    }
}

/// The bytes of `".jsonl"`, the suffix of every trace file name.
pub open spec fn jsonl_suffix() -> Seq<u8> {
    seq![46u8, 106u8, 115u8, 111u8, 110u8, 108u8]
}

/// The per-trace registry and the daemon-wide flags it decides by.
pub struct Registry {
    /// While false, the listener stops accepting and sessions stop at their
    /// next check point.
    pub active: bool,
    /// Shut down once no trace is referenced.
    pub die_when_idle: bool,
    /// A single file that every trace is funnelled into, when configured.
    pub single_file: Option<Vec<u8>>,
    /// The storage directory for per-trace files.
    pub dir: Vec<u8>,
    /// The open traces.
    pub entries: Vec<RegEntry>,
    /// The next unused file handle; handles are never reused.
    pub next_handle: u64,
}

impl Registry {
    /// Well-formed: trace identifiers are unique and handles grow strictly
    /// with the entry order, all below the next unused handle.
    pub open spec fn wf(self) -> bool {
        &&& forall|i: int, j: int|
            0 <= i < j < self.entries@.len() ==> (#[trigger] self.entries@[i]).trace_id@ != (
            #[trigger] self.entries@[j]).trace_id@
        &&& forall|i: int, j: int|
            0 <= i < j < self.entries@.len() ==> (#[trigger] self.entries@[i]).handle < (
            #[trigger] self.entries@[j]).handle
        &&& forall|i: int|
            0 <= i < self.entries@.len() ==> (#[trigger] self.entries@[i]).handle
                < self.next_handle
    }

    /// The trace identifiers, in entry order.
    pub open spec fn ids(self) -> Seq<Seq<u8>> {
        self.entries@.map_values(|e: RegEntry| e.trace_id@)
    }

    /// The file handles, in entry order.
    pub open spec fn handles(self) -> Seq<u64> {
        self.entries@.map_values(|e: RegEntry| e.handle)
    }

    /// The per-entry session counts, in entry order.
    pub open spec fn session_counts(self) -> Seq<u64> {
        self.entries@.map_values(|e: RegEntry| e.sessions)
    }

    /// Everything but the entries: the flags, the storage configuration and
    /// the handle counter.
    pub open spec fn config(self) -> (bool, bool, Option<Seq<u8>>, Seq<u8>, u64) {
        (
            self.active,
            self.die_when_idle,
            match self.single_file {
                Option::None => Option::<Seq<u8>>::None,
                Option::Some(p) => Option::Some(p@),
            },
            self.dir@,
            self.next_handle,
        )
    }

    /// Some entry names this trace.
    pub open spec fn has_trace(self, id: Seq<u8>) -> bool {
        exists|i: int| 0 <= i < self.entries@.len() && (#[trigger] self.entries@[i]).trace_id@ == id
    }

    /// The position of the entry naming this trace.
    pub open spec fn index_of(self, id: Seq<u8>) -> int {
        choose|i: int| 0 <= i < self.entries@.len() && (#[trigger] self.entries@[i]).trace_id@ == id
    }

    /// The handle of this trace's file.
    pub open spec fn handle_of(self, id: Seq<u8>) -> u64 {
        self.entries@[self.index_of(id)].handle
    }

    /// How many sessions hold this trace.
    pub open spec fn sessions_of(self, id: Seq<u8>) -> u64 {
        self.entries@[self.index_of(id)].sessions
    }

    /// Where this trace's file lives: the single-file override when one is
    /// configured, else `<dir>/<trace_id>.jsonl`.
    pub open spec fn trace_path_spec(self, id: Seq<u8>) -> Seq<u8> {
        match self.single_file {
            Option::Some(p) => p@,
            Option::None => self.dir@ + seq![47u8] + id + jsonl_suffix(),
        }
    }

    /// A fresh registry over a storage directory, optionally funnelling all
    /// traces into one file: empty, accepting work, not set to die when idle.
    pub fn new(dir: Vec<u8>, single_file: Option<Vec<u8>>) -> (r: Registry)
        ensures
            r.wf(),
            r.entries@.len() == 0,
            r.active,
            !r.die_when_idle,
            r.dir@ == dir@,
            r.config().2 == (match single_file {
                Option::None => Option::<Seq<u8>>::None,
                Option::Some(p) => Option::Some(p@),
            }),
            r.next_handle == 0,
    {
        Registry {
            active: true,
            die_when_idle: false,
            single_file,
            dir,
            entries: Vec::new(),
            next_handle: 0,
        }
    }

    /// The daemon still accepts and processes work.
    pub fn is_active(&self) -> (r: bool)
        ensures
            r == self.active,
    {
        self.active
    }

    /// Record the client's request to shut down once idle.
    pub fn set_die_when_idle(&mut self)
        ensures
            final(self).die_when_idle,
            final(self).active == old(self).active,
            final(self).entries@ == old(self).entries@,
            final(self).config().2 == old(self).config().2,
            final(self).dir@ == old(self).dir@,
            final(self).next_handle == old(self).next_handle,
            old(self).wf() ==> final(self).wf(),
    {
        self.die_when_idle = true;
    }

    /// The entry position for `trace_id`, if any.
    fn find(&self, trace_id: &[u8]) -> (r: Option<usize>)
        requires
            self.wf(),
        ensures
            match r {
                Option::Some(i) => {
                    &&& i < self.entries@.len()
                    &&& self.entries@[i as int].trace_id@ == trace_id@
                    &&& self.has_trace(trace_id@)
                    &&& self.index_of(trace_id@) == i as int
                },
                Option::None => !self.has_trace(trace_id@),
            },
    {
        let n = self.entries.len();
        let mut i: usize = 0;
        while i < n
            invariant
                0 <= i <= n == self.entries@.len(),
                forall|k: int| 0 <= k < i ==> (#[trigger] self.entries@[k]).trace_id@ != trace_id@,
                self.wf(),
            decreases n - i,
        {
            if crate::bytes::bytes_eq(self.entries[i].trace_id.as_slice(), trace_id) {
                proof {
                    assert(self.has_trace(trace_id@));
                    let w = self.index_of(trace_id@);
                    assert(self.entries@[w].trace_id@ == trace_id@);
                    if w != i as int {
                        assert(self.entries@[w].trace_id@ != self.entries@[i as int].trace_id@);
                    }
                }
                return Option::Some(i);
            }
            i = i + 1;
        }
        Option::None
    }

    /// Whether the registry holds an entry for this trace.
    pub fn contains(&self, trace_id: &[u8]) -> (r: bool)
        requires
            self.wf(),
        ensures
            r == self.has_trace(trace_id@),
    {
        self.find(trace_id).is_some()
    }

    /// The path of this trace's file, for the caller that opens it.
    pub fn trace_file_path(&self, trace_id: &[u8]) -> (r: Vec<u8>)
        ensures
            r@ == self.trace_path_spec(trace_id@),
    {
        match &self.single_file {
            Option::Some(p) => {
                let r = p.clone();
                proof {
                    assert(r@ =~= self.trace_path_spec(trace_id@));
                }
                r
            },
            Option::None => {
                let mut r: Vec<u8> = Vec::new();
                r.extend_from_slice(self.dir.as_slice());
                r.push(47);
                r.extend_from_slice(trace_id);
                r.push(46);
                r.push(106);
                r.push(115);
                r.push(111);
                r.push(110);
                r.push(108);
                proof {
                    assert(r@ =~= self.trace_path_spec(trace_id@));
                }
                r
            },
        }
    }

    /// Under the registry lock, the lookup half of get-or-create: when the
    /// trace is already open, count one more holder and return its handle;
    /// no file is opened.  When it is absent the caller opens the file and
    /// completes with `insert_opened`; on an open failure nothing changes.
    pub fn bind_existing(&mut self, trace_id: &[u8]) -> (r: Option<u64>)
        requires
            old(self).wf(),
        ensures
            final(self).wf(),
            final(self).config() == old(self).config(),
            final(self).ids() == old(self).ids(),
            final(self).handles() == old(self).handles(),
            match r {
                Option::Some(h) => {
                    let i = old(self).index_of(trace_id@);
                    &&& old(self).has_trace(trace_id@)
                    &&& h == old(self).handle_of(trace_id@)
                    &&& final(self).session_counts() == old(self).session_counts().update(
                        i,
                        bump(old(self).sessions_of(trace_id@)),
                    )
                },
                Option::None => {
                    &&& !old(self).has_trace(trace_id@)
                    &&& final(self).session_counts() == old(self).session_counts()
                },
            },
    {
        match self.find(trace_id) {
            Option::Some(i) => {
                let s = self.entries[i].sessions;
                let ns: u64 = if s < u64::MAX {
                    s + 1
                } else {
                    s
                };
                let h = self.entries[i].handle;
                self.entries[i].sessions = ns;
                proof {
                    let oe = old(self).entries@;
                    let ne = self.entries@;
                    assert(ne[i as int].trace_id@ == oe[i as int].trace_id@);
                    assert(ne =~= oe.update(i as int, ne[i as int]));
                    assert(self.ids() =~= old(self).ids());
                    assert(self.handles() =~= old(self).handles());
                    assert(self.session_counts() =~= old(self).session_counts().update(
                        i as int,
                        bump(old(self).sessions_of(trace_id@)),
                    ));
                }
                Option::Some(h)
            },
            Option::None => {
                proof {
                    assert(self.session_counts() =~= old(self).session_counts());
                }
                Option::None
            },
        }
    }

    /// Under the registry lock, complete get-or-create after the caller
    /// opened the trace's file: insert the entry with one holder and hand
    /// back its fresh handle.  Fails only when the handle numbers are
    /// exhausted, and then changes nothing.
    pub fn insert_opened(&mut self, trace_id: Vec<u8>) -> (r: Option<u64>)
        requires
            old(self).wf(),
            !old(self).has_trace(trace_id@),
        ensures
            final(self).wf(),
            match r {
                Option::Some(h) => {
                    &&& h == old(self).next_handle
                    &&& old(self).next_handle < u64::MAX
                    &&& final(self).entries@ == old(self).entries@.push(
                        (RegEntry { trace_id, handle: h, sessions: 1u64 }),
                    )
                    &&& final(self).next_handle == old(self).next_handle + 1
                    &&& final(self).has_trace(trace_id@)
                    &&& final(self).handle_of(trace_id@) == h
                    &&& final(self).sessions_of(trace_id@) == 1u64
                    &&& final(self).active == old(self).active
                    &&& final(self).die_when_idle == old(self).die_when_idle
                    &&& final(self).dir@ == old(self).dir@
                    &&& final(self).config().2 == old(self).config().2
                },
                Option::None => {
                    &&& old(self).next_handle == u64::MAX
                    &&& final(self).entries@ == old(self).entries@
                    &&& final(self).config() == old(self).config()
                },
            },
    {
        if self.next_handle == u64::MAX {
            return Option::None;
        }
        let h = self.next_handle;
        let ghost tid = trace_id@;
        self.entries.push(RegEntry { trace_id, handle: h, sessions: 1 });
        self.next_handle = h + 1;
        proof {
            let ne = self.entries@;
            let n = ne.len() - 1;
            assert(ne[n].trace_id@ == tid);
            assert(self.has_trace(tid));
            let w = self.index_of(tid);
            assert(ne[w].trace_id@ == tid);
            assert forall|i: int| 0 <= i < n implies (#[trigger] ne[i]).trace_id@ != tid by {
                if ne[i].trace_id@ == tid {
                    assert(old(self).has_trace(tid));
                }
            }
            assert(w == n);
        }
        Option::Some(h)
    }

    /// Under the registry lock, let go of one hold on the entry with this
    /// handle: a session unbound it, rebound elsewhere, or exited.
    pub fn unbind(&mut self, handle: u64)
        requires
            old(self).wf(),
        ensures
            final(self).wf(),
            final(self).config() == old(self).config(),
            final(self).ids() == old(self).ids(),
            final(self).handles() == old(self).handles(),
            forall|i: int|
                0 <= i < old(self).entries@.len() ==> final(self).session_counts()[i] == (if (
                #[trigger] old(self).entries@[i]).handle == handle {
                    drop_one(old(self).entries@[i].sessions)
                } else {
                    old(self).entries@[i].sessions
                }),
    {
        let n = self.entries.len();
        let mut i: usize = 0;
        while i < n
            invariant
                0 <= i <= n == self.entries@.len(),
                self.wf(),
                self == old(self),
                forall|k: int| 0 <= k < i ==> (#[trigger] self.entries@[k]).handle != handle,
            decreases n - i,
        {
            if self.entries[i].handle == handle {
                let s = self.entries[i].sessions;
                let ns: u64 = if s > 0 {
                    s - 1
                } else {
                    0
                };
                self.entries[i].sessions = ns;
                proof {
                    let oe = old(self).entries@;
                    let ne = self.entries@;
                    assert(ne =~= oe.update(i as int, ne[i as int]));
                    assert(self.ids() =~= old(self).ids());
                    assert(self.handles() =~= old(self).handles());
                    assert forall|k: int| 0 <= k < oe.len() implies self.session_counts()[k] == (
                    if (#[trigger] oe[k]).handle == handle {
                        drop_one(oe[k].sessions)
                    } else {
                        oe[k].sessions
                    }) by {
                        if k != i as int {
                            assert(ne[k] == oe[k]);
                        }
                    }
                }
                return ;
            }
            i = i + 1;
        }
        proof {
            assert(self.ids() =~= old(self).ids());
            assert(self.handles() =~= old(self).handles());
        }
    }

    /// Stop the daemon: mark it inactive and drain every entry, handing all
    /// handles back for a forced flush and close.  The caller arms its
    /// bounded watchdog beside this.
    pub fn kill(&mut self) -> (hs: Vec<u64>)
        requires
            old(self).wf(),
        ensures
            final(self).wf(),
            !final(self).active,
            final(self).entries@.len() == 0,
            hs@ == old(self).handles(),
            final(self).die_when_idle == old(self).die_when_idle,
            final(self).dir@ == old(self).dir@,
            final(self).config().2 == old(self).config().2,
    {
        self.active = false;
        let mut hs: Vec<u64> = Vec::new();
        let n = self.entries.len();
        let mut i: usize = 0;
        while i < n
            invariant
                0 <= i <= n == self.entries@.len(),
                self.entries@ == old(self).entries@,
                hs@.len() == i,
                forall|k: int| 0 <= k < i ==> hs@[k] == (#[trigger] self.entries@[k]).handle,
            decreases n - i,
        {
            hs.push(self.entries[i].handle);
            i = i + 1;
        }
        self.entries = Vec::new();
        proof {
            assert(hs@ =~= old(self).handles());
        }
        hs
    }
}

/// What one reclaimer pass over the registry decided.
pub struct Sweep {
    /// Handles of evicted entries, for the caller to flush and close.
    pub evicted: Vec<u64>,
    /// Handles of the entries still held, for the caller to flush.
    pub live: Vec<u64>,
    /// The idle-shutdown condition fired on this pass.
    pub shutdown: bool,
}

/// A sweep of well-formed entries leaves well-formed entries: uniqueness and
/// handle order survive keeping a subsequence.
pub proof fn lemma_live_entries_wf(s: Seq<RegEntry>, bound: u64)
    requires
        forall|i: int, j: int|
            0 <= i < j < s.len() ==> (#[trigger] s[i]).trace_id@ != (#[trigger] s[j]).trace_id@,
        forall|i: int, j: int| 0 <= i < j < s.len() ==> (#[trigger] s[i]).handle < (#[trigger] s[j]).handle,
        forall|i: int| 0 <= i < s.len() ==> (#[trigger] s[i]).handle < bound,
    ensures
        forall|i: int, j: int|
            0 <= i < j < live_entries(s).len() ==> (#[trigger] live_entries(s)[i]).trace_id@ != (
            #[trigger] live_entries(s)[j]).trace_id@,
        forall|i: int, j: int|
            0 <= i < j < live_entries(s).len() ==> (#[trigger] live_entries(s)[i]).handle < (
            #[trigger] live_entries(s)[j]).handle,
        forall|i: int| 0 <= i < live_entries(s).len() ==> (#[trigger] live_entries(s)[i]).handle < bound,
    decreases s.len(),
{
    if s.len() != 0 {
        let dl = s.drop_last();
        let l = live_entries(s);
        let ldl = live_entries(dl);
        lemma_live_entries_wf(dl, bound);
        lemma_live_entries_membership(dl);
        if s.last().sessions > 0 {
            assert(l == ldl.push(s.last()));
            assert forall|i: int, j: int| 0 <= i < j < l.len() implies (#[trigger] l[i]).trace_id@
                != (#[trigger] l[j]).trace_id@ && (#[trigger] l[i]).handle < (
            #[trigger] l[j]).handle by {
                if j == l.len() - 1 {
                    assert(l[i] == ldl[i]);
                    let w = choose|w: int| 0 <= w < dl.len() && ldl[i] == dl[w];
                    assert(s[w] == dl[w]);
                    assert(s[w].trace_id@ != s[s.len() - 1].trace_id@);
                    assert(s[w].handle < s[s.len() - 1].handle);
                } else {
                    assert(l[i] == ldl[i] && l[j] == ldl[j]);
                }
            }
            assert forall|i: int| 0 <= i < l.len() implies (#[trigger] l[i]).handle < bound by {
                if i == l.len() - 1 {
                    assert(l[i] == s[s.len() - 1]);
                } else {
                    assert(l[i] == ldl[i]);
                }
            }
        }
    }
}

/// A trace held by no session does not survive a sweep: its entry is gone
/// from the kept entries and its handle is among those handed out to close.
pub proof fn lemma_sweep_reclaims(pre: Registry, post: Registry, evicted: Seq<u64>, t: Seq<u8>)
    requires
        pre.wf(),
        pre.has_trace(t),
        pre.sessions_of(t) == 0,
        post.entries@ == live_entries(pre.entries@),
        evicted == dead_handles(pre.entries@),
    ensures
        !post.has_trace(t),
        evicted.contains(pre.handle_of(t)),
{
    let i = pre.index_of(t);
    lemma_dead_entry_reclaimed(pre.entries@, i);
    assert forall|k: int| 0 <= k < post.entries@.len() implies (#[trigger] post.entries@[k]).trace_id@
        != t by {
        lemma_live_entries_membership(pre.entries@);
        lemma_live_entries_positive(pre.entries@);
        let w = choose|w: int|
            0 <= w < pre.entries@.len() && live_entries(pre.entries@)[k] == pre.entries@[w];
        if w == i {
            assert(live_entries(pre.entries@)[k].sessions == 0);
        } else {
            assert(pre.entries@[w].trace_id@ != pre.entries@[i].trace_id@);
        }
    }
}

/// Inside a sweep: an entry with no holder never appears among the kept
/// entries, and its handle is among the dead ones.
proof fn lemma_dead_entry_reclaimed(s: Seq<RegEntry>, i: int)
    requires
        0 <= i < s.len(),
        s[i].sessions == 0,
        forall|a: int, b: int|
            0 <= a < b < s.len() ==> (#[trigger] s[a]).trace_id@ != (#[trigger] s[b]).trace_id@,
    ensures
        dead_handles(s).contains(s[i].handle),
    decreases s.len(),
{
    let dl = s.drop_last();
    if i == s.len() - 1 {
        assert(dead_handles(s) == dead_handles(dl).push(s[i].handle));
        assert(dead_handles(s)[dead_handles(s).len() - 1] == s[i].handle);
    } else {
        lemma_dead_entry_reclaimed(dl, i);
        assert(dl[i] == s[i]);
        let w = choose|w: int| 0 <= w < dead_handles(dl).len() && dead_handles(dl)[w] == dl[i].handle;
        if s.last().sessions == 0 {
            assert(dead_handles(s)[w] == s[i].handle);
        } else {
            assert(dead_handles(s)[w] == s[i].handle);
        }
    }
}

impl Registry {
    /// One reclaimer pass, under the registry lock: evict every entry no
    /// session holds and hand its handle out to flush and close; hand the
    /// remaining handles out to flush; and when nothing is left and the
    /// idle-shutdown flag is set, fire the shutdown (the daemon goes
    /// inactive).  Eviction happens before any new session could rebind the
    /// evicted traces.
    pub fn sweep(&mut self) -> (r: Sweep)
        requires
            old(self).wf(),
        ensures
            final(self).wf(),
            final(self).entries@ == live_entries(old(self).entries@),
            r.evicted@ == dead_handles(old(self).entries@),
            r.live@ == final(self).handles(),
            r.shutdown == (old(self).die_when_idle && live_entries(old(self).entries@).len() == 0),
            old(self).entries@.len() == 0 && old(self).die_when_idle ==> r.shutdown,
            final(self).active == (old(self).active && !r.shutdown),
            final(self).die_when_idle == old(self).die_when_idle,
            final(self).dir@ == old(self).dir@,
            final(self).config().2 == old(self).config().2,
            final(self).next_handle == old(self).next_handle,
    {
        let ghost orig = self.entries@;
        let mut kept: Vec<RegEntry> = Vec::new();
        let mut evicted: Vec<u64> = Vec::new();
        let mut live: Vec<u64> = Vec::new();
        let ghost mut processed: Seq<RegEntry> = Seq::empty();
        proof {
            assert(orig =~= processed + self.entries@);
        }
        while self.entries.len() > 0
            invariant
                orig == processed + self.entries@,
                kept@ == live_entries(processed),
                evicted@ == dead_handles(processed),
                live@ == kept@.map_values(|e: RegEntry| e.handle),
                self.active == old(self).active,
                self.die_when_idle == old(self).die_when_idle,
                self.single_file == old(self).single_file,
                self.dir == old(self).dir,
                self.next_handle == old(self).next_handle,
            decreases self.entries.len(),
        {
            let ghost before = self.entries@;
            let e = self.entries.remove(0);
            proof {
                assert(before.remove(0) =~= before.skip(1));
                assert(orig =~= processed.push(e) + self.entries@);
                assert(processed.push(e).drop_last() =~= processed);
            }
            if e.sessions > 0 {
                live.push(e.handle);
                kept.push(e);
                proof {
                    assert(live@ =~= kept@.map_values(|e: RegEntry| e.handle));
                }
            } else {
                evicted.push(e.handle);
            }
            proof {
                processed = processed.push(e);
            }
        }
        proof {
            assert(orig =~= processed);
        }
        self.entries = kept;
        let shutdown = self.entries.len() == 0 && self.die_when_idle;
        if shutdown {
            self.active = false;
        }
        proof {
            lemma_live_entries_wf(orig, old(self).next_handle);
            assert(live@ =~= self.handles());
        }
        Sweep { evicted, live, shutdown }
    }
}

/// One more holder, stopping at the counter's ceiling.
pub open spec fn bump(s: u64) -> u64 {
    if s < u64::MAX {
        (s + 1) as u64
    } else {
        s
    }
}

/// One holder fewer, stopping at zero.
pub open spec fn drop_one(s: u64) -> u64 {
    if s > 0 {
        (s - 1) as u64
    } else {
        0
    }
}

/// Distinct traces never share a file: in a well-formed registry, two
/// different trace identifiers are mapped to two different handles, so their
/// files and locks are disjoint and their writers never contend.
pub proof fn lemma_distinct_traces_distinct_handles(r: Registry, t1: Seq<u8>, t2: Seq<u8>)
    requires
        r.wf(),
        r.has_trace(t1),
        r.has_trace(t2),
        t1 != t2,
    ensures
        r.handle_of(t1) != r.handle_of(t2),
{
    let i1 = r.index_of(t1);
    let i2 = r.index_of(t2);
    assert(r.entries@[i1].trace_id@ == t1);
    assert(r.entries@[i2].trace_id@ == t2);
    if i1 == i2 {
        assert(t1 == t2);
    } else if i1 < i2 {
        assert(r.entries@[i1].handle < r.entries@[i2].handle);
    } else {
        assert(r.entries@[i2].handle < r.entries@[i1].handle);
    }
}

} // verus!
