//! How often each source has tried of late.

use std::collections::VecDeque;
use vstd::prelude::*;
use crate::ordering::MapKey;
use crate::sorted_map::SortedMap;

verus! {

/// What becomes of an attempt.
#[derive(Clone, Copy, Debug, Eq, PartialEq, Structural)]
pub enum Attempt {
    Taken,
    TooManySources,
    TooManyAttempts,
}

/// Whether a moment is within the window that ends now.
pub open spec fn recent(at: u64, now: u64, window: u64) -> bool {
    now - at < window
}

/// A row of moments without those before the first recent one.
pub open spec fn from_recent(moments: Seq<u64>, now: u64, window: u64) -> Seq<u64>
    decreases moments.len(),
{
    if moments.len() == 0 || recent(moments[0], now, window) {
        moments
    } else {
        from_recent(moments.drop_first(), now, window)
    }
}

/// The sources whose last moment is recent.
pub open spec fn recent_sources<S>(sources: Map<S, Seq<u64>>, now: u64, window: u64) -> Map<S, Seq<u64>> {
    sources.restrict(
        Set::new(
            |source: S|
                sources.contains_key(source) && sources[source].len() > 0 && recent(
                    sources[source].last(),
                    now,
                    window,
                ),
        ),
    )
}

/// The moments that count against a source.
pub open spec fn counted<S>(sources: Map<S, Seq<u64>>, source: S, now: u64, window: u64) -> Seq<u64> {
    let kept = recent_sources(sources, now, window);
    if kept.contains_key(source) {
        from_recent(kept[source], now, window)
    } else {
        Seq::empty()
    }
}

/// What an attempt makes of the moments, and what becomes of it.
pub open spec fn attempt_step<S>(
    sources: Map<S, Seq<u64>>,
    source: S,
    maximum: usize,
    max_sources: usize,
    window: u64,
    now: u64,
) -> (Map<S, Seq<u64>>, Attempt) {
    let kept = recent_sources(sources, now, window);
    let moments = counted(sources, source, now, window);
    if !kept.contains_key(source) && kept.dom().len() >= max_sources {
        (kept, Attempt::TooManySources)
    } else if moments.len() >= maximum {
        (kept.insert(source, moments), Attempt::TooManyAttempts)
    } else {
        (kept.insert(source, moments.push(now)), Attempt::Taken)
    }
}

/// The moments of the latest attempts of each source.
#[derive(Debug)]
pub struct AttemptLog<K: MapKey> {
    sources: SortedMap<K, VecDeque<u64>>,
}

impl<K: MapKey> View for AttemptLog<K> {
    type V = Map<K::V, Seq<u64>>;

    closed spec fn view(&self) -> Map<K::V, Seq<u64>> {
        self.sources@.map_values(|moments: VecDeque<u64>| moments@)
    }
}

impl<K: MapKey> AttemptLog<K> {
    /// Whether the log is valid.
    pub closed spec fn wf(&self) -> bool {
        self.sources.wf()
    }

    pub fn new() -> (log: Self)
        ensures
            log.wf(),
            log@ == Map::<K::V, Seq<u64>>::empty(),
    {
        let log = AttemptLog { sources: SortedMap::new() };
        assert(log@ =~= Map::empty());
        log
    }

    proof fn lemma_sources(&self)
        requires
            self.wf(),
        ensures
            self@.dom() == self.sources@.dom(),
            self@.dom().finite(),
            self@.dom().len() == self.sources.keys().len(),
    {
        self.sources.lemma_entries();
        assert(self@.dom() =~= self.sources@.dom());
    }

    /// A log remembers finitely many sources.
    pub proof fn lemma_finite(&self)
        requires
            self.wf(),
        ensures
            self@.dom().finite(),
    {
        self.lemma_sources();
    }

    /// How many sources are remembered.
    pub fn len(&self) -> (n: usize)
        requires
            self.wf(),
        ensures
            n == self@.dom().len(),
    {
        proof {
            self.lemma_sources();
        }
        self.sources.len()
    }

    /// Forgets the sources whose last attempt is not recent.
    fn retain_recent(&mut self, now: u64, window: u64)
        requires
            old(self).wf(),
            window > 0,
        ensures
            final(self).wf(),
            final(self)@ == recent_sources(old(self)@, now, window),
    {
        let ghost before = self@;
        let mut i: usize = 0;
        proof {
            self.lemma_sources();
        }
        while i < self.sources.len()
            invariant
                self.wf(),
                window > 0,
                i <= self.sources.keys().len(),
                forall|source: K::V| #[trigger] self@.contains_key(source) ==> before.contains_key(source)
                    && self@[source] == before[source],
                forall|source: K::V|
                    before.contains_key(source) && !(#[trigger] self@.contains_key(source)) ==> !recent_sources(
                        before,
                        now,
                        window,
                    ).contains_key(source),
                forall|j: int|
                    0 <= j < i ==> recent_sources(before, now, window).contains_key(
                        #[trigger] self.sources.keys()[j],
                    ),
            decreases self.sources.keys().len() - i,
        {
            proof {
                self.sources.lemma_entries();
                assert(self.sources@.contains_key(self.sources.keys()[i as int]));
                assert(self@.contains_key(self.sources.keys()[i as int]));
            }
            let moments = self.sources.value_at(i);
            let n: usize = moments.len();
            let keep = n > 0 && now.saturating_sub(moments[n - 1]) < window;
            let ghost at = self.sources.keys()[i as int];
            let ghost was = *self;
            proof {
                assert(before[at] == moments@);
                assert(n > 0 ==> before[at].last() == moments@[n - 1]);
            }
            if keep {
                i = i + 1;
            } else {
                self.sources.remove_at(i);
                proof {
                    assert(self@ =~= was@.remove(at));
                    assert forall|j: int| 0 <= j < i implies recent_sources(before, now, window).contains_key(
                        #[trigger] self.sources.keys()[j],
                    ) by {
                        assert(self.sources.keys()[j] == was.sources.keys()[j]);
                    }
                }
            }
        }
        proof {
            self.sources.lemma_entries();
            self.lemma_sources();
            let kept = recent_sources(before, now, window);
            assert forall|source: K::V| self@.contains_key(source) implies #[trigger] kept.contains_key(source) by {
                assert(self.sources.keys().to_set().contains(source));
                let j = self.sources.keys().index_of(source);
                assert(self.sources.keys()[j] == source);
            }
            assert(self@ =~= kept);
        }
    }

    /// Takes an attempt, unless there were too many.
    pub fn attempt(&mut self, source: K, maximum: usize, max_sources: usize, window: u64, now: u64) -> (
        outcome: Attempt)
        requires
            old(self).wf(),
            window > 0,
        ensures
            final(self).wf(),
            (final(self)@, outcome) == attempt_step(
                old(self)@,
                source@,
                maximum,
                max_sources,
                window,
                now,
            ),
    {
        let ghost before = self@;
        self.retain_recent(now, window);
        let ghost kept = self@;
        proof {
            self.lemma_sources();
        }
        if !self.sources.contains_key(&source) && self.sources.len() >= max_sources {
            return Attempt::TooManySources;
        }
        let mut moments = match self.sources.remove(&source) {
            Some(moments) => moments,
            None => VecDeque::new(),
        };
        let ghost all = moments@;
        proof {
            assert(kept.contains_key(source@) ==> all == kept[source@]);
            assert(!kept.contains_key(source@) ==> all =~= Seq::empty());
        }
        while moments.len() > 0 && now.saturating_sub(moments[0]) >= window
            invariant
                window > 0,
                from_recent(moments@, now, window) == from_recent(all, now, window),
            decreases moments@.len(),
        {
            let ghost was = moments@;
            moments.pop_front();
            assert(moments@ =~= was.drop_first());
        }
        assert(moments@ == from_recent(all, now, window));
        assert(moments@ == counted(before, source@, now, window));
        let refused = moments.len() >= maximum;
        if !refused {
            moments.push_back(now);
        }
        self.sources.insert(source, moments);
        proof {
            let (after, outcome) = attempt_step(before, source@, maximum, max_sources, window, now);
            assert(self@ =~= after);
        }
        if refused {
            return Attempt::TooManyAttempts;
        }
        Attempt::Taken
    }
}

/// However many sources try, no more are remembered than the limit allows.
pub proof fn sources_stay_bounded<S>(
    sources: Map<S, Seq<u64>>,
    source: S,
    maximum: usize,
    max_sources: usize,
    window: u64,
    now: u64,
)
    requires
        sources.dom().finite(),
        sources.dom().len() <= max_sources,
        0 < max_sources,
    ensures
        attempt_step(sources, source, maximum, max_sources, window, now).0.dom().finite(),
        attempt_step(sources, source, maximum, max_sources, window, now).0.dom().len() <= max_sources,
{
    let kept = recent_sources(sources, now, window);
    assert(kept.dom().subset_of(sources.dom()));
    vstd::set_lib::lemma_len_subset(kept.dom(), sources.dom());
}

/// A source that is not refused has fewer recent attempts than the limit.
pub proof fn accepted_attempts_are_within_the_limit<S>(
    sources: Map<S, Seq<u64>>,
    source: S,
    maximum: usize,
    max_sources: usize,
    window: u64,
    now: u64,
)
    requires
        attempt_step(sources, source, maximum, max_sources, window, now).1 == Attempt::Taken,
    ensures
        attempt_step(sources, source, maximum, max_sources, window, now).0[source].len() <= maximum,
        attempt_step(sources, source, maximum, max_sources, window, now).0[source].last() == now,
{
}

/// An attempt of a source at a moment, and whether it was taken.
pub struct Call<S> {
    pub source: S,
    pub at: u64,
    pub taken: bool,
}

impl<S> Call<S> {
    /// Whether the attempt is one of a source that was taken of late.
    pub open spec fn live(self, source: S, now: u64, window: u64) -> bool {
        self.taken && self.source == source && recent(self.at, now, window)
    }
}

/// What is remembered after some attempts.
pub open spec fn log_after<S>(
    calls: Seq<Call<S>>,
    maximum: usize,
    max_sources: usize,
    window: u64,
) -> Map<S, Seq<u64>>
    decreases calls.len(),
{
    if calls.len() == 0 {
        Map::empty()
    } else {
        attempt_step(
            log_after(calls.drop_last(), maximum, max_sources, window),
            calls.last().source,
            maximum,
            max_sources,
            window,
            calls.last().at,
        ).0
    }
}

/// Whether the attempts came in the order of their moments, and each was taken or
/// refused as what was remembered before it decides.
pub open spec fn is_history<S>(
    calls: Seq<Call<S>>,
    maximum: usize,
    max_sources: usize,
    window: u64,
) -> bool
    decreases calls.len(),
{
    calls.len() > 0 ==> {
        &&& is_history(calls.drop_last(), maximum, max_sources, window)
        &&& calls.len() > 1 ==> calls[calls.len() - 2].at <= calls.last().at
        &&& calls.last().taken == (attempt_step(
            log_after(calls.drop_last(), maximum, max_sources, window),
            calls.last().source,
            maximum,
            max_sources,
            window,
            calls.last().at,
        ).1 == Attempt::Taken)
    }
}

/// The attempts of a source that were taken of late.
pub open spec fn live_calls<S>(calls: Seq<Call<S>>, source: S, now: u64, window: u64) -> Seq<Call<S>> {
    calls.filter(|call: Call<S>| call.live(source, now, window))
}

/// The sources of which an attempt was taken of late.
pub open spec fn live_sources<S>(calls: Seq<Call<S>>, now: u64, window: u64) -> Set<S> {
    Set::new(|source: S| live_calls(calls, source, now, window).len() > 0)
}

/// The moments of the attempts of a source that were taken.
spec fn taken_moments<S>(calls: Seq<Call<S>>, source: S) -> Seq<u64>
    decreases calls.len(),
{
    if calls.len() == 0 {
        Seq::empty()
    } else {
        let before = taken_moments(calls.drop_last(), source);
        if calls.last().taken && calls.last().source == source {
            before.push(calls.last().at)
        } else {
            before
        }
    }
}

/// The moments that are remembered of a source.
spec fn moments_of<S>(sources: Map<S, Seq<u64>>, source: S) -> Seq<u64> {
    if sources.contains_key(source) {
        sources[source]
    } else {
        Seq::empty()
    }
}

/// Whether moments are in order, and none is after a last one.
spec fn in_order(moments: Seq<u64>, last: u64) -> bool {
    &&& forall|i: int, j: int| 0 <= i <= j < moments.len() ==> moments[i] <= moments[j]
    &&& forall|i: int| 0 <= i < moments.len() ==> #[trigger] moments[i] <= last
}

proof fn lemma_from_recent(moments: Seq<u64>, last: u64, now: u64, window: u64)
    requires
        in_order(moments, last),
    ensures
        in_order(from_recent(moments, now, window), last),
        from_recent(moments, now, window).len() > 0 <==> moments.len() > 0 && recent(
            moments.last(),
            now,
            window,
        ),
    decreases moments.len(),
{
    if moments.len() > 0 && !recent(moments[0], now, window) {
        lemma_from_recent(moments.drop_first(), last, now, window);
        if moments.len() > 1 {
            assert(moments.drop_first().last() == moments.last());
        }
    }
}

proof fn lemma_from_recent_later(moments: Seq<u64>, then: u64, now: u64, window: u64)
    requires
        then <= now,
    ensures
        from_recent(from_recent(moments, then, window), now, window) == from_recent(moments, now, window),
    decreases moments.len(),
{
    if moments.len() > 0 && !recent(moments[0], then, window) {
        lemma_from_recent_later(moments.drop_first(), then, now, window);
    }
}

proof fn lemma_from_recent_push(moments: Seq<u64>, at: u64, now: u64, window: u64)
    ensures
        from_recent(moments.push(at), now, window) == (if from_recent(moments, now, window).len() > 0 {
            from_recent(moments, now, window).push(at)
        } else {
            from_recent(seq![at], now, window)
        }),
    decreases moments.len(),
{
    if moments.len() == 0 {
        assert(moments.push(at) =~= seq![at]);
    } else if !recent(moments[0], now, window) {
        lemma_from_recent_push(moments.drop_first(), at, now, window);
        assert(moments.push(at).drop_first() =~= moments.drop_first().push(at));
        assert(moments.push(at)[0] == moments[0]);
    } else {
        assert(moments.push(at)[0] == moments[0]);
    }
}

/// The moments that are remembered of a source are those of its attempts that were
/// taken, as far as they are still recent.
proof fn lemma_log_after<S>(
    calls: Seq<Call<S>>,
    maximum: usize,
    max_sources: usize,
    window: u64,
    source: S,
    now: u64,
)
    requires
        window > 0,
        is_history(calls, maximum, max_sources, window),
        calls.len() > 0 ==> calls.last().at <= now,
    ensures
        ({
            let row = moments_of(log_after(calls, maximum, max_sources, window), source);
            &&& in_order(row, if calls.len() > 0 { calls.last().at } else { 0 })
            &&& from_recent(row, now, window) == from_recent(
                taken_moments(calls, source),
                now,
                window,
            )
        }),
    decreases calls.len(),
{
    if calls.len() > 0 {
        let front = calls.drop_last();
        let at = calls.last().at;
        let of = calls.last().source;
        let log = log_after(front, maximum, max_sources, window);
        let last = if front.len() > 0 {
            front.last().at
        } else {
            0
        };
        lemma_log_after(front, maximum, max_sources, window, source, at);
        lemma_log_after(front, maximum, max_sources, window, source, now);
        let row = moments_of(log, source);
        let kept = recent_sources(log, at, window);
        lemma_from_recent(row, last, at, window);
        lemma_from_recent_later(row, at, now, window);
        let counting = counted(log, source, at, window);
        assert(counting == from_recent(row, at, window));
        assert(moments_of(kept, source).len() == 0 || moments_of(kept, source) == row);
        assert(from_recent(moments_of(kept, source), now, window) == from_recent(row, now, window));
        let after = log_after(calls, maximum, max_sources, window);
        if of == source {
            lemma_from_recent_push(counting, at, now, window);
            lemma_from_recent_push(taken_moments(front, source), at, now, window);
            assert(from_recent(counting, now, window) == from_recent(row, now, window));
        }
    }
}

/// The moments of the attempts that were taken of late are as many as these attempts.
proof fn lemma_live_calls<S>(
    calls: Seq<Call<S>>,
    maximum: usize,
    max_sources: usize,
    window: u64,
    source: S,
    now: u64,
)
    requires
        is_history(calls, maximum, max_sources, window),
    ensures
        in_order(
            taken_moments(calls, source),
            if calls.len() > 0 {
                calls.last().at
            } else {
                0
            },
        ),
        from_recent(taken_moments(calls, source), now, window).len() == live_calls(
            calls,
            source,
            now,
            window,
        ).len(),
    decreases calls.len(),
{
    reveal(Seq::filter);
    if calls.len() > 0 {
        let front = calls.drop_last();
        let at = calls.last().at;
        lemma_live_calls(front, maximum, max_sources, window, source, now);
        let before = taken_moments(front, source);
        lemma_from_recent_push(before, at, now, window);
        lemma_from_recent(
            before,
            if front.len() > 0 {
                front.last().at
            } else {
                0
            },
            now,
            window,
        );
        assert(from_recent(seq![at], now, window).len() == (if recent(at, now, window) {
            1nat
        } else {
            0
        })) by {
            assert(from_recent(seq![at].drop_first(), now, window).len() == 0);
        }
    }
}

/// Where moments never go back, a source is refused exactly by its own attempts that were
/// taken of late and by the number of sources with such an attempt. An attempt that was
/// refused counts against nobody.
pub proof fn live_attempts_alone_refuse<S>(
    calls: Seq<Call<S>>,
    maximum: usize,
    max_sources: usize,
    window: u64,
    source: S,
    now: u64,
)
    requires
        window > 0,
        is_history(calls, maximum, max_sources, window),
        calls.len() > 0 ==> calls.last().at <= now,
    ensures
        ({
            let own = live_calls(calls, source, now, window).len();
            let others = live_sources(calls, now, window).len();
            attempt_step(
                log_after(calls, maximum, max_sources, window),
                source,
                maximum,
                max_sources,
                window,
                now,
            ).1 == (if own == 0 && others >= max_sources {
                Attempt::TooManySources
            } else if own >= maximum {
                Attempt::TooManyAttempts
            } else {
                Attempt::Taken
            })
        }),
{
    let log = log_after(calls, maximum, max_sources, window);
    let kept = recent_sources(log, now, window);
    let last = if calls.len() > 0 {
        calls.last().at
    } else {
        0
    };
    assert forall|s: S|
        #![trigger kept.contains_key(s)]
        kept.contains_key(s) == live_sources(calls, now, window).contains(s) && counted(
            log,
            s,
            now,
            window,
        ).len() == live_calls(calls, s, now, window).len() by {
        lemma_log_after(calls, maximum, max_sources, window, s, now);
        lemma_live_calls(calls, maximum, max_sources, window, s, now);
        lemma_from_recent(moments_of(log, s), last, now, window);
    }
    assert(kept.dom() =~= live_sources(calls, now, window));
    assert(kept.contains_key(source) == (live_calls(calls, source, now, window).len() > 0));
}

/// An attempt counts from its moment on for the length of the window, and no longer at its
/// end.
pub proof fn attempts_count_for_the_window(at: u64, now: u64, window: u64)
    ensures
        now - at >= window ==> !recent(at, now, window),
        now - at < window ==> recent(at, now, window),
        window > 0 ==> recent(at, at, window),
{
}

/// A source that has made as many attempts as it may is refused one more while all of them
/// count, and is taken again once the first is a window old; another source is not concerned.
pub proof fn full_windows_refuse_until_they_move<S>(
    sources: Map<S, Seq<u64>>,
    source: S,
    maximum: usize,
    max_sources: usize,
    window: u64,
    now: u64,
)
    requires
        sources.contains_key(source),
        sources[source].len() == maximum,
        maximum > 0,
        forall|i: int|
            1 <= i < sources[source].len() ==> now - #[trigger] sources[source][i] < window,
    ensures
        now - sources[source][0] < window ==> attempt_step(
            sources,
            source,
            maximum,
            max_sources,
            window,
            now,
        ).1 == Attempt::TooManyAttempts,
        now - sources[source][0] >= window && maximum > 1 ==> attempt_step(
            sources,
            source,
            maximum,
            max_sources,
            window,
            now,
        ).1 == Attempt::Taken,
        now - sources[source][0] >= window && maximum > 1 ==> attempt_step(
            sources,
            source,
            maximum,
            max_sources,
            window,
            now,
        ).0[source] == sources[source].skip(1).push(now),
{
    let row = sources[source];
    assert(row.last() == row[row.len() - 1]);
    if now - row[0] >= window && maximum > 1 {
        let rest = row.drop_first();
        assert(rest[0] == row[1]);
        assert(from_recent(rest, now, window) == rest);
        assert(from_recent(row, now, window) == rest);
        assert(rest =~= row.skip(1));
    }
}

} // verus!
