//! The database cache: empty at first, filled by one fetch, shared afterwards.
//!
//! The cache does no fetching of its own. It decides: a caller that demands
//! the database is told to use it, to fetch it, or to wait for the fetch that
//! another caller has in flight; the caller that fetched delivers what came
//! back. Whoever runs the callers performs the fetch and the waiting.

use vstd::prelude::*;
use crate::index::{opens_as_database, CountryIndex, FormatError};

verus! {

/// The object store did not hand over the database.
#[derive(Clone, Copy, Debug, PartialEq, Eq, Structural)]
pub struct FetchError;

/// Why the cache could not be filled.
#[derive(Clone, Copy, Debug, PartialEq, Eq, Structural)]
pub enum LoadError {
    Fetch(FetchError),
    Format(FormatError),
}

/// What the cache holds.
pub enum CacheState {
    /// Nothing has been fetched yet.
    Empty,
    /// One caller is fetching.
    Loading,
    /// The database is in place and stays as it is.
    Ready(CountryIndex),
    /// The last fetch failed; the next demand fetches again.
    Failed(LoadError),
}

/// A cache state as plain values: a ready database is the bytes it holds.
pub enum CacheModel {
    Empty,
    Loading,
    Ready(Seq<u8>),
    Failed(LoadError),
}

impl View for CacheState {
    type V = CacheModel;

    open spec fn view(&self) -> CacheModel {
        match *self {
            CacheState::Empty => CacheModel::Empty,
            CacheState::Loading => CacheModel::Loading,
            CacheState::Ready(index) => CacheModel::Ready(index@),
            CacheState::Failed(error) => CacheModel::Failed(error),
        }
    }
}

/// What a caller that demands the database has to do.
#[derive(Clone, Copy, Debug, PartialEq, Eq, Structural)]
pub enum Admission {
    /// The database is ready: use it.
    Serve,
    /// Fetch the database and deliver the result. No one else is fetching.
    Fetch,
    /// Another caller is fetching: wait for the delivery, then demand again.
    Wait,
}

/// Something that happens to the cache.
pub enum Event {
    /// A caller demands the database.
    Demand,
    /// The fetching caller hands over what the fetch returned.
    Deliver(Result<Seq<u8>, FetchError>),
}

impl CacheModel {
    /// A ready cache holds bytes that open as a database.
    pub open spec fn well_formed(self) -> bool {
        self matches CacheModel::Ready(bytes) ==> opens_as_database(bytes)
    }

    /// The state after a demand, and the answer to it.
    pub open spec fn demand(self) -> (CacheModel, Admission) {
        match self {
            CacheModel::Ready(bytes) => (self, Admission::Serve),
            CacheModel::Loading => (self, Admission::Wait),
            CacheModel::Empty => (CacheModel::Loading, Admission::Fetch),
            CacheModel::Failed(_) => (CacheModel::Loading, Admission::Fetch),
        }
    }

    /// The state after a delivery. A ready cache keeps its database whatever
    /// is delivered. Otherwise fetched bytes fill the cache if they open as a
    /// database, and any failure is recorded.
    pub open spec fn deliver(self, fetched: Result<Seq<u8>, FetchError>) -> CacheModel {
        match self {
            CacheModel::Ready(_) => self,
            _ => match fetched {
                Ok(bytes) => if opens_as_database(bytes) {
                    CacheModel::Ready(bytes)
                } else {
                    CacheModel::Failed(LoadError::Format(FormatError))
                },
                Err(error) => CacheModel::Failed(LoadError::Fetch(error)),
            },
        }
    }

    /// What the delivering caller is told: success once the cache is ready,
    /// else the recorded failure.
    pub open spec fn verdict(self) -> Result<(), LoadError> {
        match self {
            CacheModel::Failed(error) => Err(error),
            _ => Ok(()),
        }
    }

    /// The state after one event.
    pub open spec fn step(self, event: Event) -> CacheModel {
        match event {
            Event::Demand => self.demand().0,
            Event::Deliver(fetched) => self.deliver(fetched),
        }
    }

    /// The state after a run of events.
    pub open spec fn run(self, events: Seq<Event>) -> CacheModel
        decreases events.len(),
    {
        if events.len() == 0 {
            self
        } else {
            self.run(events.drop_last()).step(events.last())
        }
    }

    /// Whether the `at`-th event of a run is a demand that is told to fetch.
    pub open spec fn fetches_at(self, events: Seq<Event>, at: int) -> bool {
        &&& 0 <= at < events.len()
        &&& events[at] is Demand
        &&& self.run(events.take(at)).demand().1 == Admission::Fetch
    }
}

/// What was delivered, as plain values.
pub open spec fn fetched_view(fetched: Result<Vec<u8>, FetchError>) -> Result<Seq<u8>, FetchError> {
    match fetched {
        Ok(bytes) => Ok(bytes@),
        Err(error) => Err(error),
    }
}

/// The cache of one serving process.
pub struct DatabaseCache {
    state: CacheState,
}

impl View for DatabaseCache {
    type V = CacheModel;

    closed spec fn view(&self) -> CacheModel {
        self.state@
    }
}

impl DatabaseCache {
    #[verifier::type_invariant]
    spec fn ready_is_database(self) -> bool {
        self.state@.well_formed()
    }

    /// An empty cache.
    pub fn new() -> (cache: DatabaseCache)
        ensures
            cache@ == CacheModel::Empty,
    {
        DatabaseCache { state: CacheState::Empty }
    }

    /// Answers a caller that wants the database. The first demand on a cache
    /// that is neither ready nor loading is told to fetch, and the cache is
    /// loading from then on.
    pub fn demand(&mut self) -> (admission: Admission)
        ensures
            (final(self)@, admission) == old(self)@.demand(),
            final(self)@.well_formed(),
    {
        proof {
            use_type_invariant(&*self);
        }
        match &self.state {
            CacheState::Ready(_) => Admission::Serve,
            CacheState::Loading => Admission::Wait,
            _ => {
                self.state = CacheState::Loading;
                Admission::Fetch
            },
        }
    }

    /// Takes what a fetch returned. Bytes that do not open as a database are
    /// never kept.
    pub fn deliver(&mut self, fetched: Result<Vec<u8>, FetchError>) -> (verdict: Result<
        (),
        LoadError,
    >)
        ensures
            final(self)@ == old(self)@.deliver(fetched_view(fetched)),
            verdict == final(self)@.verdict(),
            final(self)@.well_formed(),
    {
        proof {
            use_type_invariant(&*self);
        }
        if let CacheState::Ready(_) = &self.state {
            return Ok(());
        }
        match fetched {
            Ok(bytes) => match CountryIndex::from_vec(bytes) {
                Ok(index) => {
                    self.state = CacheState::Ready(index);
                    Ok(())
                },
                Err(error) => {
                    self.state = CacheState::Failed(LoadError::Format(error));
                    Err(LoadError::Format(error))
                },
            },
            Err(error) => {
                self.state = CacheState::Failed(LoadError::Fetch(error));
                Err(LoadError::Fetch(error))
            },
        }
    }

    /// The database, once the cache is ready.
    pub fn index(&self) -> (index: Option<&CountryIndex>)
        ensures
            match index {
                Some(index) => self@ == CacheModel::Ready(index@) && opens_as_database(index@),
                None => !(self@ is Ready),
            },
    {
        proof {
            use_type_invariant(self);
        }
        match &self.state {
            CacheState::Ready(index) => Some(index),
            _ => None,
        }
    }

    /// The failure of the last fetch, until the next demand.
    pub fn last_error(&self) -> (error: Option<LoadError>)
        ensures
            match error {
                Some(error) => self@ == CacheModel::Failed(error),
                None => !(self@ is Failed),
            },
    {
        match &self.state {
            CacheState::Failed(error) => Some(*error),
            _ => None,
        }
    }

    /// What the cache holds.
    pub fn state(&self) -> (state: &CacheState)
        ensures
            state@ == self@,
            self@.well_formed(),
    {
        proof {
            use_type_invariant(self);
        }
        &self.state
    }
}

/// A run of `n` demands with nothing delivered in between.
pub open spec fn demands(n: nat) -> Seq<Event> {
    Seq::new(n, |i: int| Event::Demand)
}

/// A ready cache stays as it is: whatever is demanded or delivered, it holds
/// the same bytes afterwards, and no demand is told to fetch.
pub proof fn law_ready_is_stable(bytes: Seq<u8>, events: Seq<Event>)
    ensures
        CacheModel::Ready(bytes).run(events) == CacheModel::Ready(bytes),
        forall|at: int|
            0 <= at < events.len() && events[at] is Demand ==> (#[trigger] CacheModel::Ready(
                bytes,
            ).run(events.take(at))).demand().1 == Admission::Serve,
        forall|at: int| !CacheModel::Ready(bytes).fetches_at(events, at),
    decreases events.len(),
{
    let ready = CacheModel::Ready(bytes);
    if events.len() > 0 {
        law_ready_is_stable(bytes, events.drop_last());
    }
    assert forall|at: int| 0 <= at < events.len() implies (#[trigger] ready.run(events.take(at)))
        == ready by {
        law_ready_is_stable(bytes, events.take(at));
    }
}

/// While nothing is delivered, a loading cache keeps loading and tells every
/// caller to wait.
pub proof fn lemma_loading_waits(n: nat)
    ensures
        CacheModel::Loading.run(demands(n)) == CacheModel::Loading,
    decreases n,
{
    if n > 0 {
        assert(demands(n).drop_last() =~= demands((n - 1) as nat));
        lemma_loading_waits((n - 1) as nat);
    }
}

/// Callers racing on a cache that holds no database and has no fetch in
/// flight: the first is told to fetch and every other to wait, so one fetch
/// is made however many they are. Once bytes that open as a database are
/// delivered, the cache holds exactly those bytes, and each caller that
/// demands again is served them.
pub proof fn law_racing_callers_fetch_once(start: CacheModel, n: nat, fetched: Seq<u8>)
    requires
        start is Empty || start is Failed,
        n >= 1,
    ensures
        start.fetches_at(demands(n), 0),
        forall|at: int| 1 <= at < n ==> !start.fetches_at(demands(n), at),
        forall|at: int|
            1 <= at < n ==> (#[trigger] start.run(demands(n).take(at))).demand().1
                == Admission::Wait,
        start.run(demands(n)) == CacheModel::Loading,
        opens_as_database(fetched) ==> {
            let ready = start.run(demands(n).push(Event::Deliver(Ok(fetched))));
            &&& ready == CacheModel::Ready(fetched)
            &&& ready.run(demands(n)) == CacheModel::Ready(fetched)
            &&& forall|at: int|
                0 <= at < n ==> (#[trigger] ready.run(demands(n).take(at))).demand()
                    == (CacheModel::Ready(fetched), Admission::Serve)
        },
{
    let race = demands(n);
    assert forall|k: nat| 1 <= k <= n implies #[trigger] start.run(demands(k))
        == CacheModel::Loading by {
        lemma_run_from_first(start, k);
    }
    assert(race.take(0) =~= Seq::<Event>::empty());
    assert forall|at: int| 1 <= at < n implies (#[trigger] start.run(race.take(at)))
        == CacheModel::Loading by {
        assert(race.take(at) =~= demands(at as nat));
        assert(start.run(demands(at as nat)) == CacheModel::Loading);
    }
    assert(start.run(demands(n)) == CacheModel::Loading);
    if opens_as_database(fetched) {
        let filled = race.push(Event::Deliver(Ok(fetched)));
        assert(filled.drop_last() =~= race);
        let ready = start.run(filled);
        assert(ready == CacheModel::Ready(fetched));
        law_ready_is_stable(fetched, race);
        assert forall|at: int| 0 <= at < n implies (#[trigger] ready.run(race.take(at))).demand()
            == (CacheModel::Ready(fetched), Admission::Serve) by {
            law_ready_is_stable(fetched, race.take(at));
        }
    }
}

/// After the first of `k` demands on a cache that is neither ready nor
/// loading, the cache is loading.
proof fn lemma_run_from_first(start: CacheModel, k: nat)
    requires
        start is Empty || start is Failed,
        k >= 1,
    ensures
        start.run(demands(k)) == CacheModel::Loading,
    decreases k,
{
    assert(demands(k).drop_last() =~= demands((k - 1) as nat));
    if k == 1 {
        assert(demands(0) =~= Seq::<Event>::empty());
    } else {
        lemma_run_from_first(start, (k - 1) as nat);
    }
}

/// At most one fetch is in flight: between two demands that are told to
/// fetch, something was delivered.
pub proof fn law_fetches_are_separated(start: CacheModel, events: Seq<Event>, first: int, second: int)
    requires
        first < second,
        start.fetches_at(events, first),
        start.fetches_at(events, second),
    ensures
        exists|between: int| first < between < second && events[between] is Deliver,
{
    if forall|between: int| first < between < second ==> !(events[between] is Deliver) {
        lemma_still_loading(start, events, first, second);
    }
}

/// A demand that is told to fetch leaves the cache loading until something
/// is delivered.
proof fn lemma_still_loading(start: CacheModel, events: Seq<Event>, first: int, upto: int)
    requires
        first < upto <= events.len(),
        start.fetches_at(events, first),
        forall|between: int| first < between < upto ==> !(events[between] is Deliver),
    ensures
        start.run(events.take(upto)) == CacheModel::Loading,
    decreases upto - first,
{
    assert(events.take(upto).drop_last() =~= events.take(upto - 1));
    assert(events.take(upto).last() == events[upto - 1]);
    if upto - 1 > first {
        lemma_still_loading(start, events, first, upto - 1);
    }
}

/// Bytes that do not open as a database never make a cache ready: delivered
/// to a cache without a database they are recorded as a format failure, and
/// the next demand fetches again.
pub proof fn law_corrupt_bytes_are_refused(before: CacheModel, fetched: Seq<u8>)
    requires
        !(before is Ready),
        !opens_as_database(fetched),
    ensures
        before.deliver(Ok(fetched)) == CacheModel::Failed(LoadError::Format(FormatError)),
        before.deliver(Ok(fetched)).demand() == (CacheModel::Loading, Admission::Fetch),
{
}

/// A failed fetch leaves no database behind, and the next demand fetches
/// again.
pub proof fn law_failed_fetch_allows_retry(before: CacheModel, error: FetchError)
    requires
        !(before is Ready),
    ensures
        before.deliver(Err(error)) == CacheModel::Failed(LoadError::Fetch(error)),
        before.deliver(Err(error)).demand() == (CacheModel::Loading, Admission::Fetch),
{
}

/// Whatever happens to a cache, if it is ever ready it holds bytes that open
/// as a database.
pub proof fn law_ready_holds_a_database(start: CacheModel, events: Seq<Event>)
    requires
        start.well_formed(),
    ensures
        start.run(events).well_formed(),
    decreases events.len(),
{
    if events.len() > 0 {
        law_ready_holds_a_database(start, events.drop_last());
    }
}

} // verus!
