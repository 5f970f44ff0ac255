//! Batched identity resolution with a per-name fallback.
//!
//! Display names are partitioned into consecutive batches of at most ten.
//! Each batch is offered to the primary lookup service in one call; when
//! that call fails — at the transport level or with a non-success status —
//! every name of that batch is retried individually against the fallback
//! service, and names the fallback cannot resolve are silently dropped. A
//! response body that cannot be read as the expected shape after a
//! declared-successful status aborts the whole resolution.
//!
//! The network calls themselves happen outside the library; the
//! [`IdentityResolver`] state machine decides, step by step, which call to
//! make next and what each outcome does to the result mapping.

use vstd::prelude::*;

verus! {

/// Consecutive batches of at most ten names each; every batch but the
/// last holds exactly ten.
pub open spec fn spec_chunks(s: Seq<Seq<char>>) -> Seq<Seq<Seq<char>>>
    decreases s.len(),
{
    if s.len() == 0 {
        Seq::empty()
    } else if s.len() <= 10 {
        seq![s]
    } else {
        seq![s.take(10)] + spec_chunks(s.skip(10))
    }
}

/// The batches cover the names in order and nothing else: all batches are
/// non-empty, at most ten long, full but for the last, there are as many
/// as ten-name groups are needed, and concatenating them gives the names
/// back.
pub proof fn lemma_chunks_shape(s: Seq<Seq<char>>)
    ensures
        forall|i: int|
            0 <= i < spec_chunks(s).len() ==> 1 <= #[trigger] spec_chunks(s)[i].len() <= 10,
        forall|i: int| 0 <= i < spec_chunks(s).len() - 1 ==> #[trigger] spec_chunks(s)[i].len()
            == 10,
        spec_chunks(s).len() == (s.len() + 9) / 10,
        spec_chunks(s).flatten() == s,
    decreases s.len(),
{
    if s.len() == 0 {
        assert(spec_chunks(s).flatten() =~= s);
    } else if s.len() <= 10 {
        seq![s].lemma_flatten_one_element();
        assert(spec_chunks(s).flatten() =~= s);
    } else {
        lemma_chunks_shape(s.skip(10));
        vstd::seq_lib::lemma_flatten_concat(seq![s.take(10)], spec_chunks(s.skip(10)));
        seq![s.take(10)].lemma_flatten_one_element();
        assert(spec_chunks(s).flatten() =~= s);
    }
}

/// Partitions the names into consecutive lookup batches of at most ten.
pub fn chunk_names(names: &Vec<String>) -> (batches: Vec<Vec<String>>)
    ensures
        batches.deep_view() == spec_chunks(names.deep_view()),
{
    let ghost all = names.deep_view();
    let n = names.len();
    let mut batches: Vec<Vec<String>> = Vec::new();
    let mut i: usize = 0;
    proof {
        assert(all.skip(0) =~= all);
        assert(batches.deep_view() =~= Seq::<Seq<Seq<char>>>::empty());
        assert(batches.deep_view() + spec_chunks(all) =~= spec_chunks(all));
    }
    while i < n
        invariant
            0 <= i <= n,
            n == all.len(),
            all == names.deep_view(),
            batches.deep_view() + spec_chunks(all.skip(i as int)) == spec_chunks(all),
        decreases n - i,
    {
        let ghost rest = all.skip(i as int);
        let end = if n - i < 10 {
            n
        } else {
            i + 10
        };
        let mut b: Vec<String> = Vec::new();
        let mut j = i;
        proof {
            assert(b.deep_view() =~= all.subrange(i as int, i as int));
        }
        while j < end
            invariant
                i <= j <= end <= n,
                n == all.len(),
                all == names.deep_view(),
                b.deep_view() == all.subrange(i as int, j as int),
            decreases end - j,
        {
            let ghost oldb = b.deep_view();
            let x = names[j].clone();
            proof {
                assert(x@ == all[j as int]);
            }
            b.push(x);
            proof {
                assert(b.deep_view() =~= oldb + seq![all[j as int]]);
                assert(oldb + seq![all[j as int]] =~= all.subrange(i as int, j + 1));
            }
            j = j + 1;
        }
        let ghost old_batches = batches.deep_view();
        batches.push(b);
        proof {
            if rest.len() <= 10 {
                assert(all.subrange(i as int, end as int) =~= rest);
                assert(spec_chunks(rest) == seq![rest]);
                assert(all.skip(end as int) =~= Seq::<Seq<char>>::empty());
            } else {
                assert(all.subrange(i as int, end as int) =~= rest.take(10));
                assert(all.skip(end as int) =~= rest.skip(10));
                assert(spec_chunks(rest) == seq![rest.take(10)] + spec_chunks(rest.skip(10)));
            }
            assert(batches.deep_view() =~= old_batches + seq![
                all.subrange(i as int, end as int),
            ]);
            assert((old_batches + seq![all.subrange(i as int, end as int)]) + spec_chunks(
                all.skip(end as int),
            ) =~= old_batches + (seq![all.subrange(i as int, end as int)] + spec_chunks(
                all.skip(end as int),
            )));
        }
        i = end;
    }
    proof {
        assert(all.skip(n as int) =~= Seq::<Seq<char>>::empty());
        assert(spec_chunks(all.skip(n as int)) =~= Seq::<Seq<Seq<char>>>::empty());
        assert(batches.deep_view() + spec_chunks(all.skip(n as int)) =~= batches.deep_view());
    }
    batches
}

/// The next network call the resolution protocol asks for.
pub enum ResolveAction {
    /// Offer this whole batch to the primary batched lookup.
    PrimaryBatch(Vec<String>),
    /// Look this one name up against the fallback service.
    FallbackLookup(String),
    /// No further call: the resolution is finished or aborted.
    Finished,
}

/// What came back from one primary batched lookup.
pub enum PrimaryOutcome {
    /// Success status; the body parsed as `(name, id)` records.
    Resolved(Vec<(String, String)>),
    /// Transport failure or non-success status: fall back per name.
    Unavailable,
    /// Success status but the body did not parse: fatal.
    Malformed,
}

/// What came back from one fallback single-name lookup.
pub enum FallbackOutcome {
    /// The body parsed as one `(name, id)` record.
    Resolved((String, String)),
    /// Transport failure or non-success status: skip this name.
    Unavailable,
    /// Success status but the body did not parse: fatal.
    Malformed,
}

/// Resolution failed as a whole.
#[derive(Debug)]
pub enum ResolveError {
    /// A declared-successful response body did not have the expected
    /// shape; the remaining batches were abandoned.
    Deserialization,
}

/// Swaps `(name, id)` records into `(id, name)` mapping entries.
pub open spec fn spec_entries_of(recs: Seq<(Seq<char>, Seq<char>)>) -> Seq<(Seq<char>, Seq<char>)> {
    recs.map_values(|r: (Seq<char>, Seq<char>)| (r.1, r.0))
}

/// The identity-resolution state machine. Batches are processed in order;
/// within a failed batch, fallback lookups are issued per name in order.
/// The resolved identities accumulate as `(id, name)` entries in arrival
/// order.
pub struct IdentityResolver {
    batches: Vec<Vec<String>>,
    batch_idx: usize,
    fallback_idx: Option<usize>,
    entries: Vec<(String, String)>,
    failed: bool,
}

impl IdentityResolver {
    /// The lookup batches, in processing order.
    pub closed spec fn batches_view(&self) -> Seq<Seq<Seq<char>>> {
        self.batches.deep_view()
    }

    /// Index of the batch being processed.
    pub closed spec fn cur_batch(&self) -> int {
        self.batch_idx as int
    }

    /// When in fallback mode, the position in the current batch of the
    /// name to look up next.
    pub closed spec fn fallback_pos(&self) -> Option<int> {
        match self.fallback_idx {
            Some(j) => Some(j as int),
            None => None,
        }
    }

    /// The `(id, name)` entries resolved so far, in arrival order.
    pub closed spec fn entries_view(&self) -> Seq<(Seq<char>, Seq<char>)> {
        self.entries.deep_view()
    }

    /// A malformed declared-successful body aborted the resolution.
    pub closed spec fn has_failed(&self) -> bool {
        self.failed
    }

    /// Structural soundness of the machine's position.
    pub closed spec fn wf(&self) -> bool {
        &&& self.batch_idx <= self.batches@.len()
        &&& (forall|i: int|
            0 <= i < self.batches.deep_view().len() ==> 1 <= #[trigger] self.batches.deep_view()[
                i
            ].len() <= 10)
        &&& match self.fallback_idx {
            Some(j) => (self.batch_idx as int) < self.batches@.len() && (j as int)
                < self.batches.deep_view()[self.batch_idx as int].len(),
            None => true,
        }
    }

    /// The machine still expects the outcome of a primary batched lookup.
    pub open spec fn expects_primary(&self) -> bool {
        !self.has_failed() && self.fallback_pos() is None && self.cur_batch()
            < self.batches_view().len()
    }

    /// The machine still expects the outcome of a fallback lookup.
    pub open spec fn expects_fallback(&self) -> bool {
        !self.has_failed() && self.fallback_pos() is Some
    }

    /// The resolution is over: every batch was processed or a fatal
    /// response aborted it.
    pub open spec fn done(&self) -> bool {
        self.has_failed() || (self.fallback_pos() is None && self.cur_batch()
            == self.batches_view().len())
    }

    /// Starts a resolution over the given names, partitioned into batches
    /// of at most ten.
    pub fn new(names: &Vec<String>) -> (r: Self)
        ensures
            r.wf(),
            r.batches_view() == spec_chunks(names.deep_view()),
            r.cur_batch() == 0,
            r.fallback_pos() is None,
            r.entries_view() == Seq::<(Seq<char>, Seq<char>)>::empty(),
            !r.has_failed(),
    {
        let batches = chunk_names(names);
        proof {
            lemma_chunks_shape(names.deep_view());
        }
        let r = IdentityResolver {
            batches,
            batch_idx: 0,
            fallback_idx: None,
            entries: Vec::new(),
            failed: false,
        };
        proof {
            assert(r.entries.deep_view() =~= Seq::<(Seq<char>, Seq<char>)>::empty());
        }
        r
    }

    /// The call to make next: the current batch against the primary
    /// service, the current fallback name against the fallback service,
    /// or nothing when the resolution is over.
    pub fn next_action(&self) -> (a: ResolveAction)
        requires
            self.wf(),
        ensures
            match a {
                ResolveAction::PrimaryBatch(b) => self.expects_primary() && b.deep_view()
                    == self.batches_view()[self.cur_batch()],
                ResolveAction::FallbackLookup(n) => self.expects_fallback() && n@
                    == self.batches_view()[self.cur_batch()][self.fallback_pos()->0],
                ResolveAction::Finished => self.done(),
            },
    {
        if self.failed {
            return ResolveAction::Finished;
        }
        match self.fallback_idx {
            Some(j) => {
                let name = self.batches[self.batch_idx][j].clone();
                ResolveAction::FallbackLookup(name)
            },
            None => {
                if self.batch_idx < self.batches.len() {
                    let mut b: Vec<String> = Vec::new();
                    let batch = &self.batches[self.batch_idx];
                    let m = batch.len();
                    let mut j: usize = 0;
                    proof {
                        assert(b.deep_view() =~= batch.deep_view().subrange(0, 0));
                    }
                    while j < m
                        invariant
                            0 <= j <= m,
                            m == batch@.len(),
                            b.deep_view() == batch.deep_view().subrange(0, j as int),
                        decreases m - j,
                    {
                        let ghost oldb = b.deep_view();
                        let x = batch[j].clone();
                        proof {
                            assert(x@ == batch.deep_view()[j as int]);
                        }
                        b.push(x);
                        proof {
                            assert(b.deep_view() =~= oldb + seq![batch.deep_view()[j as int]]);
                            assert(oldb + seq![batch.deep_view()[j as int]] =~= batch.deep_view()
                                .subrange(0, j + 1));
                        }
                        j = j + 1;
                    }
                    proof {
                        assert(b.deep_view() =~= batch.deep_view());
                    }
                    ResolveAction::PrimaryBatch(b)
                } else {
                    ResolveAction::Finished
                }
            },
        }
    }

    /// Digests the outcome of the primary lookup of the current batch: a
    /// parsed response contributes all its records as `(id, name)` entries
    /// and moves to the next batch; an unavailable service turns the batch
    /// over to per-name fallback; a malformed body aborts the resolution.
    pub fn on_primary(&mut self, outcome: PrimaryOutcome)
        requires
            old(self).wf(),
            old(self).expects_primary(),
        ensures
            final(self).wf(),
            final(self).batches_view() == old(self).batches_view(),
            match outcome {
                PrimaryOutcome::Resolved(recs) => {
                    &&& final(self).entries_view() == old(self).entries_view() + spec_entries_of(
                        recs.deep_view(),
                    )
                    &&& final(self).cur_batch() == old(self).cur_batch() + 1
                    &&& final(self).fallback_pos() is None
                    &&& !final(self).has_failed()
                },
                PrimaryOutcome::Unavailable => {
                    &&& final(self).entries_view() == old(self).entries_view()
                    &&& final(self).cur_batch() == old(self).cur_batch()
                    &&& final(self).fallback_pos() == Some(0int)
                    &&& !final(self).has_failed()
                },
                PrimaryOutcome::Malformed => {
                    &&& final(self).entries_view() == old(self).entries_view()
                    &&& final(self).has_failed()
                },
            },
    {
        match outcome {
            PrimaryOutcome::Resolved(recs) => {
                let ghost old_entries = self.entries.deep_view();
                let ghost all = recs.deep_view();
                let m = recs.len();
                let mut j: usize = 0;
                proof {
                    assert(self.entries.deep_view() =~= old_entries + spec_entries_of(
                        all.subrange(0, 0),
                    ));
                }
                while j < m
                    invariant
                        0 <= j <= m,
                        m == recs@.len(),
                        all == recs.deep_view(),
                        self.batches == old(self).batches,
                        self.batch_idx == old(self).batch_idx,
                        self.fallback_idx == old(self).fallback_idx,
                        self.failed == old(self).failed,
                        self.entries.deep_view() == old_entries + spec_entries_of(
                            all.subrange(0, j as int),
                        ),
                    decreases m - j,
                {
                    let ghost olde = self.entries.deep_view();
                    let name = recs[j].0.clone();
                    let id = recs[j].1.clone();
                    proof {
                        assert((id@, name@) == (all[j as int].1, all[j as int].0));
                    }
                    self.entries.push((id, name));
                    proof {
                        assert(self.entries.deep_view() =~= olde + seq![
                            (all[j as int].1, all[j as int].0),
                        ]);
                        assert(spec_entries_of(all.subrange(0, j + 1)) =~= spec_entries_of(
                            all.subrange(0, j as int),
                        ) + seq![(all[j as int].1, all[j as int].0)]);
                        assert(olde + seq![(all[j as int].1, all[j as int].0)] =~= old_entries
                            + spec_entries_of(all.subrange(0, j + 1)));
                    }
                    j = j + 1;
                }
                proof {
                    assert(all.subrange(0, m as int) =~= all);
                }
                proof {
                    vstd::std_specs::vec::axiom_spec_len(&self.batches);
                }
                self.batch_idx = self.batch_idx + 1;
                self.fallback_idx = None;
            },
            PrimaryOutcome::Unavailable => {
                self.fallback_idx = Some(0);
            },
            PrimaryOutcome::Malformed => {
                self.failed = true;
            },
        }
    }

    /// Digests the outcome of the fallback lookup of the current name: a
    /// parsed record joins the entries, an unavailable service drops the
    /// name silently, a malformed body aborts the resolution; in the first
    /// two cases the machine advances to the next name of the batch, or to
    /// the next batch when the failed batch is exhausted.
    pub fn on_fallback(&mut self, outcome: FallbackOutcome)
        requires
            old(self).wf(),
            old(self).expects_fallback(),
        ensures
            final(self).wf(),
            final(self).batches_view() == old(self).batches_view(),
            match outcome {
                FallbackOutcome::Resolved(rec) => final(self).entries_view()
                    == old(self).entries_view() + seq![(rec.1@, rec.0@)],
                FallbackOutcome::Unavailable => final(self).entries_view()
                    == old(self).entries_view(),
                FallbackOutcome::Malformed => final(self).entries_view()
                    == old(self).entries_view(),
            },
            match outcome {
                FallbackOutcome::Malformed => final(self).has_failed(),
                _ => {
                    let p = old(self).fallback_pos()->0;
                    &&& !final(self).has_failed()
                    &&& if p + 1 < old(self).batches_view()[old(self).cur_batch()].len() {
                        final(self).fallback_pos() == Some(p + 1)
                            && final(self).cur_batch() == old(self).cur_batch()
                    } else {
                        final(self).fallback_pos() is None
                            && final(self).cur_batch() == old(self).cur_batch() + 1
                    }
                },
            },
    {
        match outcome {
            FallbackOutcome::Resolved(rec) => {
                let (name, id) = rec;
                let ghost old_entries = self.entries.deep_view();
                self.entries.push((id, name));
                proof {
                    assert(self.entries.deep_view() =~= old_entries + seq![
                        (self.entries@.last().0@, self.entries@.last().1@),
                    ]);
                }
                self.advance_fallback();
            },
            FallbackOutcome::Unavailable => {
                self.advance_fallback();
            },
            FallbackOutcome::Malformed => {
                self.failed = true;
            },
        }
    }

    /// Moves past the current fallback name.
    fn advance_fallback(&mut self)
        requires
            old(self).wf(),
            old(self).fallback_pos() is Some,
        ensures
            final(self).wf(),
            final(self).batches_view() == old(self).batches_view(),
            final(self).entries_view() == old(self).entries_view(),
            final(self).has_failed() == old(self).has_failed(),
            ({
                let p = old(self).fallback_pos()->0;
                if p + 1 < old(self).batches_view()[old(self).cur_batch()].len() {
                    final(self).fallback_pos() == Some(p + 1)
                        && final(self).cur_batch() == old(self).cur_batch()
                } else {
                    final(self).fallback_pos() is None
                        && final(self).cur_batch() == old(self).cur_batch() + 1
                }
            }),
    {
        let j = match self.fallback_idx {
            Some(j) => j,
            None => 0,
        };
        proof {
            vstd::std_specs::vec::axiom_spec_len(&self.batches);
        }
        if j + 1 < self.batches[self.batch_idx].len() {
            self.fallback_idx = Some(j + 1);
        } else {
            self.fallback_idx = None;
            self.batch_idx = self.batch_idx + 1;
        }
    }

    /// Hands the resolved identities out once the machine is done: the
    /// accumulated `(id, name)` entries, or the fatal deserialization
    /// error when a declared-successful body did not parse.
    pub fn into_results(self) -> (r: Result<Vec<(String, String)>, ResolveError>)
        requires
            self.done(),
        ensures
            match r {
                Ok(entries) => !self.has_failed() && entries.deep_view() == self.entries_view(),
                Err(e) => self.has_failed() && e is Deserialization,
            },
    {
        if self.failed {
            Err(ResolveError::Deserialization)
        } else {
            Ok(self.entries)
        }
    }
}

} // verus!
