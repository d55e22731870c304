//! Shared application state.
use crate::clock;
use crate::clock::this_instant;
use crate::config::Config;
use crate::rate_limiter::RateLimiter;
use crate::worker::SpawnCooldown;
use tokio::time::Instant;
use vstd::prelude::*;

verus! {

/// In-flight render requests awaiting a response from the worker, keyed by
/// request ID. A waiter of type `T` is whatever is told of the response.
pub struct PendingRequests<T> {
    entries: Vec<(String, T)>,
}

/// The entry at `i` is the one for `id`.
spec fn is_entry<T>(entries: Seq<(String, T)>, i: int, id: Seq<char>) -> bool {
    0 <= i < entries.len() && entries[i].0@ == id
}

/// No two entries are for one ID.
spec fn ids_unique<T>(entries: Seq<(String, T)>) -> bool {
    forall|i: int, j: int|
        0 <= i < j < entries.len() ==> (#[trigger] entries[i]).0@ != (#[trigger] entries[j]).0@
}

/// The entries as a map.
spec fn table<T>(entries: Seq<(String, T)>) -> Map<Seq<char>, T> {
    Map::new(
        |id: Seq<char>| exists|i: int| is_entry(entries, i, id),
        |id: Seq<char>| entries[choose|i: int| is_entry(entries, i, id)].1,
    )
}

proof fn lemma_table_entry<T>(entries: Seq<(String, T)>, i: int)
    requires
        ids_unique(entries),
        0 <= i < entries.len(),
    ensures
        table(entries).contains_key(entries[i].0@),
        table(entries)[entries[i].0@] == entries[i].1,
{
    let id = entries[i].0@;
    assert(is_entry(entries, i, id));
    let j = choose|j: int| is_entry(entries, j, id);
    assert(is_entry(entries, j, id));
    assert(i == j);
}

proof fn lemma_table_push<T>(entries: Seq<(String, T)>, id: String, waiter: T)
    requires
        ids_unique(entries),
        forall|i: int| !is_entry(entries, i, id@),
    ensures
        ids_unique(entries.push((id, waiter))),
        table(entries.push((id, waiter))) == table(entries).insert(id@, waiter),
{
    let longer = entries.push((id, waiter));
    assert forall|i: int, j: int| 0 <= i < j < longer.len() implies (#[trigger] longer[i]).0@ != (
    #[trigger] longer[j]).0@ by {
        if j == entries.len() {
            assert(!is_entry(entries, i, id@));
        }
    }
    assert forall|k: Seq<char>|
        table(longer).contains_key(k) <==> table(entries).insert(id@, waiter).contains_key(k) by {
        if table(longer).contains_key(k) {
            let i = choose|i: int| is_entry(longer, i, k);
            if i < entries.len() {
                assert(is_entry(entries, i, k));
            }
        }
        if table(entries).contains_key(k) {
            let i = choose|i: int| is_entry(entries, i, k);
            assert(is_entry(longer, i, k));
        }
        assert(is_entry(longer, entries.len() as int, id@));
    }
    assert forall|k: Seq<char>| table(longer).contains_key(k) implies table(longer)[k] == table(
        entries,
    ).insert(id@, waiter)[k] by {
        let i = choose|i: int| is_entry(longer, i, k);
        lemma_table_entry(longer, i);
        if i < entries.len() {
            lemma_table_entry(entries, i);
            assert(!is_entry(entries, i, id@));
        }
    }
    assert(table(longer) =~= table(entries).insert(id@, waiter));
}

proof fn lemma_table_remove<T>(entries: Seq<(String, T)>, at: int)
    requires
        ids_unique(entries),
        0 <= at < entries.len(),
    ensures
        ids_unique(entries.remove(at)),
        table(entries.remove(at)) == table(entries).remove(entries[at].0@),
{
    let shorter = entries.remove(at);
    let id = entries[at].0@;
    assert forall|k: Seq<char>|
        table(shorter).contains_key(k) <==> table(entries).remove(id).contains_key(k) by {
        if table(shorter).contains_key(k) {
            let i = choose|i: int| is_entry(shorter, i, k);
            let j = if i < at {
                i
            } else {
                i + 1
            };
            assert(is_entry(entries, j, k));
        }
        if table(entries).contains_key(k) && k != id {
            let j = choose|j: int| is_entry(entries, j, k);
            let i = if j < at {
                j
            } else {
                j - 1
            };
            assert(is_entry(shorter, i, k));
        }
    }
    assert forall|k: Seq<char>| table(shorter).contains_key(k) implies table(shorter)[k] == table(
        entries,
    )[k] by {
        let i = choose|i: int| is_entry(shorter, i, k);
        lemma_table_entry(shorter, i);
        lemma_table_entry(
            entries,
            if i < at {
                i
            } else {
                i + 1
            },
        );
    }
    assert(table(shorter) =~= table(entries).remove(id));
}

/// `waiters` holds each waiter of `before` once, in some order of the IDs.
pub open spec fn is_listing<T>(waiters: Seq<T>, before: Map<Seq<char>, T>, ids: Seq<Seq<char>>) -> bool {
    &&& ids.no_duplicates()
    &&& ids.len() == waiters.len()
    &&& forall|id: Seq<char>| before.contains_key(id) <==> #[trigger] ids.contains(id)
    &&& forall|i: int|
        0 <= i < ids.len() ==> before.contains_key(#[trigger] ids[i]) && waiters[i]
            == before[ids[i]]
}

impl<T> View for PendingRequests<T> {
    type V = Map<Seq<char>, T>;

    /// The waiter for each request ID.
    closed spec fn view(&self) -> Map<Seq<char>, T> {
        table(self.entries@)
    }
}

impl<T> PendingRequests<T> {
    /// Each ID is entered once.
    pub closed spec fn wf(&self) -> bool {
        ids_unique(self.entries@)
    }

    /// No requests.
    pub fn new() -> (pending: PendingRequests<T>)
        ensures
            pending.wf(),
            pending@ == Map::<Seq<char>, T>::empty(),
    {
        let pending = PendingRequests { entries: Vec::new() };
        assert(pending@ =~= Map::<Seq<char>, T>::empty());
        pending
    }

    /// Where the entry for `id` stands.
    fn position(&self, id: &String) -> (at: Option<usize>)
        ensures
            match at {
                Some(i) => is_entry(self.entries@, i as int, id@),
                None => forall|i: int| !is_entry(self.entries@, i, id@),
            },
    {
        let mut i: usize = 0;
        while i < self.entries.len()
            invariant
                i <= self.entries@.len(),
                forall|j: int| 0 <= j < i ==> !is_entry(self.entries@, j, id@),
            decreases self.entries@.len() - i,
        {
            if self.entries[i].0 == *id {
                return Some(i);
            }
            i = i + 1;
        }
        None
    }

    /// Takes the request `id` out, and gives its waiter.
    pub fn remove(&mut self, id: &String) -> (waiter: Option<T>)
        requires
            old(self).wf(),
        ensures
            final(self).wf(),
            final(self)@ == old(self)@.remove(id@),
            match waiter {
                Some(w) => old(self)@.contains_key(id@) && w == old(self)@[id@],
                None => !old(self)@.contains_key(id@),
            },
    {
        match self.position(id) {
            Some(at) => {
                proof {
                    lemma_table_entry(self.entries@, at as int);
                    lemma_table_remove(self.entries@, at as int);
                }
                let entry = self.entries.remove(at);
                Some(entry.1)
            },
            None => {
                assert(!self@.contains_key(id@));
                assert(self@.remove(id@) =~= self@);
                None
            },
        }
    }

    /// Enters the request `id`, and gives the waiter that it replaces.
    pub fn insert(&mut self, id: String, waiter: T) -> (replaced: Option<T>)
        requires
            old(self).wf(),
        ensures
            final(self).wf(),
            final(self)@ == old(self)@.insert(id@, waiter),
            match replaced {
                Some(w) => old(self)@.contains_key(id@) && w == old(self)@[id@],
                None => !old(self)@.contains_key(id@),
            },
    {
        let replaced = self.remove(&id);
        proof {
            assert forall|i: int| !is_entry(self.entries@, i, id@) by {
                if is_entry(self.entries@, i, id@) {
                    assert(self@.contains_key(id@));
                }
            }
            lemma_table_push(self.entries@, id, waiter);
            assert(old(self)@.remove(id@).insert(id@, waiter) =~= old(self)@.insert(id@, waiter));
        }
        self.entries.push((id, waiter));
        replaced
    }

    /// Takes every request out, and gives their waiters.
    pub fn drain(&mut self) -> (waiters: Vec<T>)
        requires
            old(self).wf(),
        ensures
            final(self).wf(),
            final(self)@ == Map::<Seq<char>, T>::empty(),
            exists|ids: Seq<Seq<char>>| #[trigger] is_listing(waiters@, old(self)@, ids),
    {
        let mut taken: Vec<(String, T)> = Vec::new();
        taken.append(&mut self.entries);
        assert(self@ =~= Map::<Seq<char>, T>::empty());
        let ghost all = taken@;
        let mut waiters: Vec<T> = Vec::new();
        let ghost mut ids: Seq<Seq<char>> = Seq::empty();
        let total: usize = taken.len();
        while waiters.len() < total
            invariant
                total == all.len(),
                waiters@.len() + taken@.len() == total,
                ids.len() == waiters@.len(),
                forall|i: int| 0 <= i < taken@.len() ==> #[trigger] taken@[i] == all[i],
                forall|i: int|
                    0 <= i < waiters@.len() ==> #[trigger] waiters@[i] == all[total - 1 - i].1,
                forall|i: int| 0 <= i < ids.len() ==> #[trigger] ids[i] == all[total - 1 - i].0@,
            decreases total - waiters@.len(),
        {
            match taken.pop() {
                Some(entry) => {
                    proof {
                        ids = ids.push(entry.0@);
                    }
                    waiters.push(entry.1);
                },
                None => {},
            }
        }
        proof {
            let before = old(self)@;
            assert(before == table(all));
            assert forall|id: Seq<char>| before.contains_key(id) implies #[trigger] ids.contains(
                id,
            ) by {
                let i = choose|i: int| is_entry(all, i, id);
                assert(ids[total - 1 - i] == id);
            }
            assert forall|i: int| 0 <= i < ids.len() implies before.contains_key(#[trigger] ids[i])
                && waiters@[i] == before[ids[i]] by {
                lemma_table_entry(all, total - 1 - i);
            }
            assert(is_listing(waiters@, before, ids));
        }
        waiters
    }
}

/// Shared state of the service. Waiters of type `T` are told of the responses
/// of the worker.
pub struct AppState<T> {
    /// Render requests waiting for a worker response.
    pub pending_requests: PendingRequests<T>,
    /// Whether the worker process is alive and accepting requests.
    pub worker_alive: bool,
    /// Global rate limiter (30-second cooldown between requests).
    pub rate_limiter: RateLimiter,
    /// Remembers the last worker spawn attempt and spaces the attempts.
    pub last_spawn_attempt: SpawnCooldown,
    /// Server start time, from which the uptime is computed.
    pub started_at: Instant,
    /// Maximum time to wait for a single render, in seconds.
    pub render_timeout_secs: u64,
    /// Maximum allowed HTML payload size in bytes.
    pub max_html_size: usize,
    /// Total render slots.
    pub max_concurrent: usize,
    /// Whether the client address is taken from the proxy.
    pub trust_proxy: bool,
}

impl<T> AppState<T> {
    /// The pending requests are well formed.
    pub open spec fn wf(&self) -> bool {
        self.pending_requests.wf()
    }

    /// Nothing but the pending requests and the worker flag may differ.
    pub open spec fn same_but_worker(&self, other: &AppState<T>) -> bool {
        &&& self.rate_limiter == other.rate_limiter
        &&& self.last_spawn_attempt == other.last_spawn_attempt
        &&& self.same_settings(other)
    }

    /// The settings are the same.
    pub open spec fn same_settings(&self, other: &AppState<T>) -> bool {
        &&& self.started_at == other.started_at
        &&& self.render_timeout_secs == other.render_timeout_secs
        &&& self.max_html_size == other.max_html_size
        &&& self.max_concurrent == other.max_concurrent
        &&& self.trust_proxy == other.trust_proxy
    }

    /// The state at startup: no worker, no requests, no admission and no
    /// spawn attempt yet.
    pub fn new(config: &Config) -> (state: AppState<T>)
        ensures
            state.wf(),
            state.pending_requests@ == Map::<Seq<char>, T>::empty(),
            !state.worker_alive,
            state.rate_limiter@ is None,
            state.last_spawn_attempt@ is None,
            state.render_timeout_secs == config.render_timeout_secs,
            state.max_html_size == config.max_body_size_bytes,
            state.max_concurrent == config.max_concurrent_renders,
            state.trust_proxy == config.trust_proxy,
            clock::is_now(state.started_at),
            clock::is_now(state.rate_limiter.started()),
            clock::is_now(state.last_spawn_attempt.started()),
    {
        AppState {
            pending_requests: PendingRequests::new(),
            worker_alive: false,
            rate_limiter: RateLimiter::new(),
            last_spawn_attempt: SpawnCooldown::new(),
            started_at: this_instant(),
            render_timeout_secs: config.render_timeout_secs,
            max_html_size: config.max_body_size_bytes,
            max_concurrent: config.max_concurrent_renders,
            trust_proxy: config.trust_proxy,
        }
    }
}

/// What was entered under an ID is what is taken out under it, once; the other
/// requests stay.
pub proof fn lemma_entered_is_taken_out<T>(
    entry: &mut PendingRequests<T>,
    id: String,
    waiter: T,
    replaced: Option<T>,
    exit: &mut PendingRequests<T>,
    taken: Option<T>,
    again: &mut PendingRequests<T>,
    nothing: Option<T>,
    other: Seq<char>,
)
    requires
        old(entry).wf(),
        call_ensures(PendingRequests::<T>::insert, (entry, id, waiter), replaced),
        *old(exit) == *final(entry),
        call_ensures(PendingRequests::<T>::remove, (exit, &id), taken),
        *old(again) == *final(exit),
        call_ensures(PendingRequests::<T>::remove, (again, &id), nothing),
    ensures
        taken == Some(waiter),
        nothing is None,
        replaced is Some <==> old(entry)@.contains_key(id@),
        other != id@ ==> (final(again)@.contains_key(other) <==> old(entry)@.contains_key(other)),
        other != id@ && old(entry)@.contains_key(other) ==> final(again)@[other]
            == old(entry)@[other],
        !final(again)@.contains_key(id@),
{
}

/// Draining takes every request out, and gives each of their waiters once.
pub proof fn lemma_drain_takes_all<T>(pending: &mut PendingRequests<T>, waiters: Vec<T>)
    requires
        old(pending).wf(),
        call_ensures(PendingRequests::<T>::drain, (pending,), waiters),
    ensures
        final(pending)@.dom() == Set::<Seq<char>>::empty(),
        exists|ids: Seq<Seq<char>>|
            {
                &&& #[trigger] ids.no_duplicates()
                &&& ids.len() == waiters@.len()
                &&& forall|id: Seq<char>|
                    old(pending)@.contains_key(id) <==> #[trigger] ids.contains(id)
                &&& forall|i: int|
                    0 <= i < waiters@.len() ==> #[trigger] waiters@[i] == old(pending)@[ids[i]]
            },
{
    let ids = choose|ids: Seq<Seq<char>>| #[trigger] is_listing(waiters@, old(pending)@, ids);
    assert(ids.no_duplicates());
    assert(final(pending)@.dom() =~= Set::<Seq<char>>::empty());
    assert forall|i: int| 0 <= i < waiters@.len() implies #[trigger] waiters@[i]
        == old(pending)@[ids[i]] by {
        assert(old(pending)@.contains_key(ids[i]));
    }
}

/// A service starts with nothing pending, no worker, no admission and no spawn
/// attempt, with the limits of its configuration, and counts time from then.
pub proof fn lemma_new_state_result<T>(config: Config, state: AppState<T>)
    requires
        call_ensures(AppState::<T>::new, (&config,), state),
    ensures
        state.wf(),
        state.pending_requests@.dom() == Set::<Seq<char>>::empty(),
        !state.worker_alive,
        state.rate_limiter@ is None,
        state.last_spawn_attempt@ is None,
        state.render_timeout_secs == config.render_timeout_secs,
        state.max_html_size == config.max_body_size_bytes,
        state.max_concurrent == config.max_concurrent_renders,
        state.trust_proxy == config.trust_proxy,
        call_ensures(Instant::now, (), state.started_at),
        call_ensures(Instant::now, (), state.rate_limiter.started()),
        call_ensures(Instant::now, (), state.last_spawn_attempt.started()),
{
    assert(state.pending_requests@.dom() =~= Set::<Seq<char>>::empty());
}

/// What it means that settings are the same, and that nothing but the pending
/// requests and the worker flag may differ.
pub proof fn lemma_what_stays_the_same<T>(a: AppState<T>, b: AppState<T>)
    ensures
        a.same_settings(&b) <==> a.started_at == b.started_at && a.render_timeout_secs
            == b.render_timeout_secs && a.max_html_size == b.max_html_size && a.max_concurrent
            == b.max_concurrent && a.trust_proxy == b.trust_proxy,
        a.same_but_worker(&b) <==> a.same_settings(&b) && a.rate_limiter == b.rate_limiter
            && a.last_spawn_attempt == b.last_spawn_attempt,
{
}

} // verus!
