//! The asynchronous side of neural correction: a query only notes the scope the rules
//! could not fix; once the user pauses the shell hands that scope to a background
//! worker; nominations that come back are kept per scope until the next query checks
//! them. Only the newest few nominations are kept, since older ones belong to input
//! states that are gone.

use vstd::prelude::*;
use vstd::string::{StringExecFns, StringSliceAdditionalSpecFns};

use crate::text::{bytes_equal, bytes_start_with};

verus! {

/// At most this many neural nominations are tried per query.
pub const NEURAL_CANDIDATES: usize = 3;

/// At most this many finished nominations are kept, newest last.
pub const NEURAL_READY_KEPT: usize = 8;

/// A nomination must have at least this many letters.
pub const NEURAL_MIN_LETTERS: usize = 2;

/// A nomination may have at most this many letters.
pub const NEURAL_MAX_LETTERS: usize = 32;

pub type ReadyView = Seq<(Seq<char>, Seq<Seq<char>>)>;

pub open spec fn strings_view(v: Seq<String>) -> Seq<Seq<char>> {
    v.map_values(|s: String| s@)
}

pub open spec fn entry_view(e: (String, Vec<String>)) -> (Seq<char>, Seq<Seq<char>>) {
    (e.0@, strings_view(e.1@))
}

pub open spec fn ready_view(r: Seq<(String, Vec<String>)>) -> ReadyView {
    r.map_values(|e: (String, Vec<String>)| entry_view(e))
}

/// `r` without the entries for `scope`, order kept.
pub open spec fn drop_scope(r: ReadyView, scope: Seq<char>) -> ReadyView
    decreases r.len(),
{
    if r.len() == 0 {
        r
    } else {
        let rest = drop_scope(r.drop_last(), scope);
        if r.last().0 == scope {
            rest
        } else {
            rest.push(r.last())
        }
    }
}

/// The newest [`NEURAL_READY_KEPT`] entries.
pub open spec fn keep_newest(r: ReadyView) -> ReadyView {
    if r.len() > NEURAL_READY_KEPT {
        r.subrange(r.len() - NEURAL_READY_KEPT, r.len() as int)
    } else {
        r
    }
}

/// The kept nominations after one finished job: it replaces any older entry for its
/// scope and goes last; the oldest entries fall off beyond the limit.
pub open spec fn received(r: ReadyView, item: (Seq<char>, Seq<Seq<char>>)) -> ReadyView {
    keep_newest(drop_scope(r, item.0).push(item))
}

/// The kept nominations after several finished jobs, in the order they finished.
pub open spec fn received_all(r: ReadyView, done: ReadyView) -> ReadyView
    decreases done.len(),
{
    if done.len() == 0 {
        r
    } else {
        received(received_all(r, done.drop_last()), done.last())
    }
}

/// The outputs of the first kept entry for `scope` at or after position `i`.
pub open spec fn find_ready(r: ReadyView, scope: Seq<char>, i: int) -> Option<Seq<Seq<char>>>
    decreases r.len() - i,
{
    if i >= r.len() || i < 0 {
        None
    } else if r[i].0 == scope {
        Some(r[i].1)
    } else {
        find_ready(r, scope, i + 1)
    }
}

/// A nomination looks like pinyin: lowercase ASCII letters only, of a plausible length.
pub open spec fn neural_output_ok(b: Seq<u8>) -> bool {
    &&& NEURAL_MIN_LETTERS <= b.len() <= NEURAL_MAX_LETTERS
    &&& forall|i: int| 0 <= i < b.len() ==> 0x61 <= #[trigger] b[i] <= 0x7a
}

/// A nomination worth validating against `scope`: it looks like pinyin, differs from
/// the scope, and is not just the scope minus its last letter (the user has probably
/// not finished typing).
pub open spec fn nomination_kept(fixed: Seq<u8>, scope: Seq<u8>) -> bool {
    &&& neural_output_ok(fixed)
    &&& fixed != scope
    &&& !(fixed.len() + 1 == scope.len() && scope.take(fixed.len() as int) == fixed)
}

/// A nomination is kept exactly when it is two to 32 lowercase ASCII letters, is not
/// the scope itself, and is not the scope with only its last letter missing; any
/// other prefix of the scope, two or more letters shorter, is kept.
pub proof fn lemma_nomination_kept(fixed: Seq<u8>, scope: Seq<u8>)
    ensures
        nomination_kept(fixed, scope) <==> (2 <= fixed.len() <= 32 && (forall|i: int|
            0 <= i < fixed.len() ==> 0x61 <= #[trigger] fixed[i] <= 0x7a) && fixed != scope
            && !(scope.len() > 0 && fixed == scope.drop_last())),
{
    if scope.len() > 0 && fixed.len() + 1 == scope.len() && scope.take(fixed.len() as int) == fixed {
        assert(scope.drop_last() =~= scope.take(fixed.len() as int));
    }
    if scope.len() > 0 && fixed == scope.drop_last() {
        assert(scope.take(fixed.len() as int) =~= scope.drop_last());
    }
}

/// The nominations among `fixed` worth validating, order kept.
pub open spec fn kept_nominations(fixed: Seq<Seq<u8>>, scope: Seq<u8>) -> Seq<Seq<u8>>
    decreases fixed.len(),
{
    if fixed.len() == 0 {
        fixed
    } else {
        let rest = kept_nominations(fixed.drop_last(), scope);
        if nomination_kept(fixed.last(), scope) {
            rest.push(fixed.last())
        } else {
            rest
        }
    }
}

pub open spec fn string_bytes(s: String) -> Seq<u8> {
    vstd::utf8::encode_utf8(s@)
}

/// What the neural corrector offers a query for one scope.
pub enum Nomination {
    /// The background worker already finished this scope (an empty list included):
    /// validate these.
    Ready(Vec<String>),
    /// A background worker is running: the scope has been noted for it; nothing yet.
    Deferred,
    /// No background worker: a synchronous corrector, if any, can be asked right now.
    AskNow,
}

/// The engine's neural-correction state.
pub struct Engine {
    /// `Some(alive)` once an asynchronous corrector is attached.
    correction_worker: Option<bool>,
    /// The scope waiting to be sent to the worker.
    correction_wanted: Option<String>,
    /// Finished nominations per scope, oldest first.
    correction_ready: Vec<(String, Vec<String>)>,
    /// The last conclusion reached, per scope: the corrected pinyin, or none.
    correction_cache: Option<(String, Option<String>)>,
}

impl Engine {
    pub closed spec fn worker(self) -> Option<bool> {
        self.correction_worker
    }

    pub closed spec fn wanted(self) -> Option<Seq<char>> {
        match self.correction_wanted {
            Some(s) => Some(s@),
            None => None,
        }
    }

    pub closed spec fn ready(self) -> ReadyView {
        ready_view(self.correction_ready@)
    }

    pub closed spec fn cache(self) -> Option<(Seq<char>, Option<Seq<char>>)> {
        match self.correction_cache {
            Some((scope, found)) => Some(
                (
                    scope@,
                    match found {
                        Some(f) => Some(f@),
                        None => None,
                    },
                ),
            ),
            None => None,
        }
    }

    /// At most [`NEURAL_READY_KEPT`] nominations are kept.
    pub open spec fn wf(self) -> bool {
        self.ready().len() <= NEURAL_READY_KEPT
    }

    /// An engine with no corrector attached and nothing pending.
    pub fn new() -> (e: Self)
        ensures
            e.wf(),
            e.worker() is None,
            e.wanted() is None,
            e.ready() == Seq::<(Seq<char>, Seq<Seq<char>>)>::empty(),
            e.cache() is None,
    {
        let e = Engine {
            correction_worker: None,
            correction_wanted: None,
            correction_ready: Vec::new(),
            correction_cache: None,
        };
        proof {
            assert(e.ready() =~= Seq::<(Seq<char>, Seq<Seq<char>>)>::empty());
        }
        e
    }

    /// Attaches a background worker (`Some(true)` when its thread started, `Some(false)`
    /// when it could not), or detaches it (`None`).
    pub fn set_correction_worker(&mut self, worker: Option<bool>)
        requires
            old(self).wf(),
        ensures
            final(self).wf(),
            final(self).worker() == worker,
            final(self).wanted() == old(self).wanted(),
            final(self).ready() == old(self).ready(),
            final(self).cache() == old(self).cache(),
    {
        self.correction_worker = worker;
    }

    /// The last query left a scope for the model: the shell should call
    /// [`Self::request_correction`] once the user has paused.
    pub fn correction_pending(&self) -> (pending: bool)
        ensures
            pending == (self.worker() == Some(true) && self.wanted() is Some),
    {
        self.correction_worker == Some(true) && self.correction_wanted.is_some()
    }

    /// Takes the noted scope for the background worker; `None` without a worker or
    /// with nothing to ask. The caller sends what comes back to the worker.
    pub fn request_correction(&mut self) -> (scope: Option<String>)
        requires
            old(self).wf(),
        ensures
            final(self).wf(),
            old(self).worker() is None ==> scope is None && final(self).wanted() == old(self).wanted(),
            old(self).worker() is Some ==> final(self).wanted() is None && match scope {
                Some(s) => old(self).wanted() == Some(s@),
                None => old(self).wanted() is None,
            },
            final(self).worker() == old(self).worker(),
            final(self).ready() == old(self).ready(),
            final(self).cache() == old(self).cache(),
    {
        if self.correction_worker.is_none() {
            return None;
        }
        self.correction_wanted.take()
    }

    /// The outputs kept for `scope`, if the worker has finished it; looks without
    /// taking, so an empty nomination is remembered too.
    pub fn ready_correction(&self, scope: &str) -> (outputs: Option<Vec<String>>)
        ensures
            match outputs {
                Some(o) => find_ready(self.ready(), scope@, 0) == Some(strings_view(o@)),
                None => find_ready(self.ready(), scope@, 0) is None,
            },
    {
        let wanted = String::from_str(scope);
        let mut i: usize = 0;
        while i < self.correction_ready.len()
            invariant
                i <= self.correction_ready@.len(),
                wanted@ == scope@,
                find_ready(self.ready(), scope@, 0) == find_ready(self.ready(), scope@, i as int),
            decreases self.correction_ready@.len() - i,
        {
            let entry = &self.correction_ready[i];
            proof {
                assert(self.ready()[i as int] == entry_view(*entry));
            }
            if entry.0 == wanted {
                let mut copy: Vec<String> = Vec::new();
                let mut j: usize = 0;
                while j < entry.1.len()
                    invariant
                        j <= entry.1@.len(),
                        copy@.len() == j,
                        forall|k: int| 0 <= k < j ==> #[trigger] copy@[k]@ == entry.1@[k]@,
                    decreases entry.1@.len() - j,
                {
                    copy.push(entry.1[j].clone());
                    j += 1;
                }
                proof {
                    assert(strings_view(copy@) =~= strings_view(entry.1@));
                }
                return Some(copy);
            }
            i += 1;
        }
        None
    }

    /// Keeps one finished job's nominations.
    fn receive(&mut self, item: (String, Vec<String>))
        requires
            old(self).wf(),
        ensures
            final(self).wf(),
            final(self).ready() == received(old(self).ready(), entry_view(item)),
            final(self).worker() == old(self).worker(),
            final(self).wanted() == old(self).wanted(),
            final(self).cache() == old(self).cache(),
    {
        let ghost orig = self.correction_ready@;
        let mut rest: Vec<(String, Vec<String>)> = Vec::new();
        std::mem::swap(&mut rest, &mut self.correction_ready);
        let mut kept: Vec<(String, Vec<String>)> = Vec::new();
        let ghost mut k: int = 0;
        while rest.len() > 0
            invariant
                0 <= k <= orig.len(),
                rest@ == orig.skip(k),
                ready_view(kept@) == drop_scope(ready_view(orig.take(k)), item.0@),
            decreases rest@.len(),
        {
            let e = rest.remove(0);
            proof {
                assert(orig.take(k + 1).drop_last() =~= orig.take(k));
                assert(ready_view(orig.take(k + 1)).drop_last() =~= ready_view(orig.take(k)));
                assert(ready_view(orig.take(k + 1)).last() == entry_view(e));
            }
            if e.0 != item.0 {
                kept.push(e);
                proof {
                    assert(ready_view(kept@) =~= drop_scope(ready_view(orig.take(k)), item.0@).push(
                        entry_view(e),
                    ));
                }
            }
            proof {
                k = k + 1;
                assert(rest@ =~= orig.skip(k));
            }
        }
        proof {
            assert(orig.take(k) =~= orig);
        }
        let ghost filtered = ready_view(kept@);
        kept.push(item);
        let ghost full = filtered.push(entry_view(item));
        proof {
            assert(ready_view(kept@) =~= full);
        }
        while kept.len() > NEURAL_READY_KEPT
            invariant
                ready_view(kept@) == full.subrange(full.len() - kept@.len(), full.len() as int),
                kept@.len() <= full.len(),
                kept@.len() >= NEURAL_READY_KEPT || kept@.len() == full.len(),
            decreases kept@.len(),
        {
            let ghost before = kept@;
            kept.remove(0);
            proof {
                assert(kept@ =~= before.subrange(1, before.len() as int));
                assert(ready_view(kept@) =~= ready_view(before).subrange(1, before.len() as int));
                assert(ready_view(kept@) =~= full.subrange(full.len() - kept@.len(), full.len() as int));
            }
        }
        proof {
            if full.len() <= NEURAL_READY_KEPT {
                assert(full.subrange(0, full.len() as int) =~= full);
            }
        }
        self.correction_ready = kept;
    }

    /// Takes in the jobs the background worker has finished since the last call, in
    /// the order they finished. `true` when any arrived: the shell should query again,
    /// and the conclusion cached for the old nominations is dropped. An empty
    /// nomination counts too, so the next query does not ask again.
    pub fn poll_correction(&mut self, done: Vec<(String, Vec<String>)>) -> (updated: bool)
        requires
            old(self).wf(),
        ensures
            final(self).wf(),
            final(self).worker() == old(self).worker(),
            final(self).wanted() == old(self).wanted(),
            old(self).worker() is None ==> !updated && final(self).ready() == old(self).ready()
                && final(self).cache() == old(self).cache(),
            old(self).worker() is Some ==> updated == (done@.len() > 0) && final(self).ready()
                == received_all(old(self).ready(), ready_view(done@)),
            old(self).worker() is Some && updated ==> final(self).cache() is None,
            !updated ==> final(self).cache() == old(self).cache(),
    {
        if self.correction_worker.is_none() {
            return false;
        }
        let ghost start = self.ready();
        let ghost all = done@;
        let mut done = done;
        let mut updated = false;
        let ghost mut k: int = 0;
        while done.len() > 0
            invariant
                self.wf(),
                0 <= k <= all.len(),
                done@ == all.skip(k),
                updated == (k > 0),
                self.ready() == received_all(start, ready_view(all.take(k))),
                self.worker() == old(self).worker(),
                self.wanted() == old(self).wanted(),
                self.cache() == old(self).cache(),
            decreases done@.len(),
        {
            let item = done.remove(0);
            proof {
                assert(all.take(k + 1).drop_last() =~= all.take(k));
                assert(ready_view(all.take(k + 1)).drop_last() =~= ready_view(all.take(k)));
                assert(ready_view(all.take(k + 1)).last() == entry_view(item));
            }
            self.receive(item);
            updated = true;
            proof {
                k = k + 1;
                assert(done@ =~= all.skip(k));
            }
        }
        proof {
            assert(all.take(k) =~= all);
        }
        if updated {
            self.correction_cache = None;
        }
        updated
    }

    /// What the neural corrector offers for `scope` now: the finished nominations kept
    /// for it, or, with a running background worker, nothing yet (the scope is noted for
    /// the worker), or, without one, leave to ask a synchronous corrector.
    pub fn neural_nomination(&mut self, scope: &str) -> (n: Nomination)
        requires
            old(self).wf(),
        ensures
            final(self).wf(),
            final(self).worker() == old(self).worker(),
            final(self).ready() == old(self).ready(),
            final(self).cache() == old(self).cache(),
            find_ready(old(self).ready(), scope@, 0) matches Some(o) ==> (n matches Nomination::Ready(
                v,
            ) && strings_view(v@) == o && final(self).wanted() == old(self).wanted()),
            find_ready(old(self).ready(), scope@, 0) is None && old(self).worker() == Some(true) ==> (
            n is Deferred && final(self).wanted() == Some(scope@)),
            find_ready(old(self).ready(), scope@, 0) is None && old(self).worker() != Some(true) ==> (
            n is AskNow && final(self).wanted() == old(self).wanted()),
    {
        if let Some(outputs) = self.ready_correction(scope) {
            return Nomination::Ready(outputs);
        }
        if self.correction_worker == Some(true) {
            let noted = String::from_str(scope);
            let same = match &self.correction_wanted {
                Some(w) => *w == noted,
                None => false,
            };
            if !same {
                self.correction_wanted = Some(noted);
            }
            return Nomination::Deferred;
        }
        Nomination::AskNow
    }

    /// The conclusion cached for `scope`, if the last one reached was for this scope.
    pub fn cached_correction(&self, scope: &str) -> (c: Option<Option<String>>)
        ensures
            match self.cache() {
                Some((s, found)) => if s == scope@ {
                    c matches Some(f) && match f {
                        Some(t) => found == Some(t@),
                        None => found is None,
                    }
                } else {
                    c is None
                },
                None => c is None,
            },
    {
        match &self.correction_cache {
            Some((cached_scope, cached)) => {
                if cached_scope.as_str().as_bytes().len() == scope.as_bytes().len()
                    && *cached_scope == String::from_str(scope) {
                    Some(cached.clone())
                } else {
                    None
                }
            },
            None => None,
        }
    }

    /// Remembers the conclusion reached for `scope`.
    pub fn cache_correction(&mut self, scope: &str, found: Option<String>)
        requires
            old(self).wf(),
        ensures
            final(self).wf(),
            final(self).cache() == Some(
                (
                    scope@,
                    match found {
                        Some(t) => Some(t@),
                        None => None,
                    },
                ),
            ),
            final(self).worker() == old(self).worker(),
            final(self).wanted() == old(self).wanted(),
            final(self).ready() == old(self).ready(),
    {
        self.correction_cache = Some((String::from_str(scope), found));
    }
}

/// Whether a scope is looked at for a spelling correction at all: the rules must
/// find it eligible (`eligible`), the user must never have committed it as typed
/// (`raw_commits`, how often they did), and it must not be an English word
/// (`english_word`; the user is then probably typing English).
pub fn correction_allowed(eligible: bool, raw_commits: u64, english_word: bool) -> (r: bool)
    ensures
        r == (eligible && raw_commits == 0 && !english_word),
{
    eligible && raw_commits == 0 && !english_word
}

/// A nomination looks like pinyin: only lowercase letters, and plausibly long.
pub fn is_neural_output(text: &str) -> (ok: bool)
    ensures
        ok == neural_output_ok(text.spec_bytes()),
{
    let bytes = text.as_bytes();
    if bytes.len() < NEURAL_MIN_LETTERS || bytes.len() > NEURAL_MAX_LETTERS {
        return false;
    }
    let mut i: usize = 0;
    while i < bytes.len()
        invariant
            i <= bytes@.len(),
            bytes@ == text.spec_bytes(),
            NEURAL_MIN_LETTERS <= bytes@.len() <= NEURAL_MAX_LETTERS,
            forall|j: int| 0 <= j < i ==> 0x61 <= #[trigger] bytes@[j] <= 0x7a,
        decreases bytes@.len() - i,
    {
        if bytes[i] < 0x61 || bytes[i] > 0x7a {
            return false;
        }
        i += 1;
    }
    true
}

/// Of the model's first [`NEURAL_CANDIDATES`] nominations, those worth validating
/// against `scope`, in order.
pub fn neural_candidates(scope: &str, fixed: Vec<String>) -> (kept: Vec<String>)
    ensures
        kept@.map_values(|s: String| string_bytes(s)) == kept_nominations(
            fixed@.take(if fixed@.len() < NEURAL_CANDIDATES {
                fixed@.len() as int
            } else {
                NEURAL_CANDIDATES as int
            }).map_values(|s: String| string_bytes(s)),
            scope.spec_bytes(),
        ),
{
    let n = if fixed.len() < NEURAL_CANDIDATES {
        fixed.len()
    } else {
        NEURAL_CANDIDATES
    };
    let ghost all = fixed@.take(n as int).map_values(|s: String| string_bytes(s));
    let scope_bytes = scope.as_bytes();
    let mut kept: Vec<String> = Vec::new();
    let mut i: usize = 0;
    while i < n
        invariant
            i <= n <= fixed@.len(),
            all == fixed@.take(n as int).map_values(|s: String| string_bytes(s)),
            scope_bytes@ == scope.spec_bytes(),
            kept@.map_values(|s: String| string_bytes(s)) == kept_nominations(
                all.take(i as int),
                scope_bytes@,
            ),
        decreases n - i,
    {
        let f = &fixed[i];
        let b = f.as_str().as_bytes();
        let keep = is_neural_output(f.as_str()) && !bytes_equal(b, scope_bytes) && !(b.len() + 1
            == scope_bytes.len() && bytes_start_with(scope_bytes, b));
        proof {
            assert(all.take(i as int + 1).drop_last() =~= all.take(i as int));
            assert(all.take(i as int + 1).last() == b@);
            assert(keep == nomination_kept(b@, scope_bytes@));
        }
        if keep {
            kept.push(f.clone());
            proof {
                assert(kept@.map_values(|s: String| string_bytes(s)) =~= kept_nominations(
                    all.take(i as int),
                    scope_bytes@,
                ).push(b@));
            }
        }
        i += 1;
    }
    proof {
        assert(all.take(n as int) =~= all);
    }
    kept
}

/// Receiving a finished job and then looking its scope up gives back exactly the
/// outputs just received.
pub proof fn lemma_received_then_ready(r: ReadyView, scope: Seq<char>, outputs: Seq<Seq<char>>)
    ensures
        find_ready(received(r, (scope, outputs)), scope, 0) == Some(outputs),
{
    let d = drop_scope(r, scope);
    lemma_drop_scope_clears(r, scope);
    let full = d.push((scope, outputs));
    let kept = keep_newest(full);
    let start = full.len() - kept.len();
    assert forall|j: int| 0 <= j < kept.len() - 1 implies kept[j].0 != scope by {
        assert(kept[j] == full[start + j]);
    }
    lemma_find_last(kept, scope, 0);
}

/// Receiving keeps at most [`NEURAL_READY_KEPT`] entries, however many there were.
pub proof fn lemma_received_bounded(r: ReadyView, item: (Seq<char>, Seq<Seq<char>>))
    ensures
        received(r, item).len() <= NEURAL_READY_KEPT,
        received(r, item).last() == item,
{
}

proof fn lemma_drop_scope_clears(r: ReadyView, scope: Seq<char>)
    ensures
        forall|j: int| 0 <= j < drop_scope(r, scope).len() ==> #[trigger] drop_scope(r, scope)[j].0 != scope,
    decreases r.len(),
{
    if r.len() > 0 {
        lemma_drop_scope_clears(r.drop_last(), scope);
        let rest = drop_scope(r.drop_last(), scope);
        if r.last().0 != scope {
            assert forall|j: int| 0 <= j < rest.push(r.last()).len() implies #[trigger] rest.push(
                r.last(),
            )[j].0 != scope by {
                if j < rest.len() {
                    assert(rest.push(r.last())[j] == rest[j]);
                }
            }
        }
    }
}

proof fn lemma_find_last(s: ReadyView, scope: Seq<char>, i: int)
    requires
        0 <= i < s.len(),
        s.last().0 == scope,
        forall|j: int| i <= j < s.len() - 1 ==> s[j].0 != scope,
    ensures
        find_ready(s, scope, i) == Some(s.last().1),
    decreases s.len() - i,
{
    if i < s.len() - 1 {
        lemma_find_last(s, scope, i + 1);
    }
}

} // verus!
