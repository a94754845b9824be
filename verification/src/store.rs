//! The aggregate store: the only state shared between the event listener
//! and the dispatch loop.
//!
//! It holds three bounded aggregates: the per-user message counts, the
//! fixed-capacity window of recent donations, and the pending batch of
//! chat messages awaiting dispatch.  Ghost histories of everything ever
//! recorded and everything ever drained tie the aggregates to the event
//! stream: the well-formedness predicate states that the drained history
//! followed by the pending batch is exactly the recorded history (so a
//! drain neither loses nor repeats an event), that the counts agree with
//! the recorded history, and that the window holds exactly the most
//! recent donations.

use vstd::prelude::*;

use crate::events::ChatMessage;
use crate::events::ChatView;
use crate::events::DonationView;
use crate::events::RecentDonator;
use crate::events::donation_views;
use crate::events::message_views;
use crate::order::spec_top_k;
use crate::ranker::TopChatter;
use crate::ranker::chatter_views;
use crate::ranker::distinct_names;
use crate::ranker::entry_views;
use crate::ranker::top_k;

verus! {

/// How many donations the recent-donations window retains.
pub const DONATION_WINDOW: usize = 10;

/// The count a name maps to in a count table, `0` when absent.
pub open spec fn lookup_count(s: Seq<(Seq<char>, nat)>, name: Seq<char>) -> nat
    decreases s.len(),
{
    if s.len() == 0 {
        0
    } else if s.last().0 == name {
        s.last().1
    } else {
        lookup_count(s.drop_last(), name)
    }
}

/// How many chat messages in `h` were sent by `name`.
pub open spec fn occurrences(h: Seq<ChatView>, name: Seq<char>) -> nat
    decreases h.len(),
{
    if h.len() == 0 {
        0
    } else {
        occurrences(h.drop_last(), name) + if h.last().username == name {
            1nat
        } else {
            0
        }
    }
}

/// The at most `DONATION_WINDOW` most recent entries of `s`, oldest first.
pub open spec fn last_window(s: Seq<DonationView>) -> Seq<DonationView> {
    if s.len() <= DONATION_WINDOW as int {
        s
    } else {
        s.skip(s.len() - DONATION_WINDOW as int)
    }
}

proof fn lemma_lookup_absent(s: Seq<(Seq<char>, nat)>, name: Seq<char>)
    requires
        forall|j: int| 0 <= j < s.len() ==> (#[trigger] s[j]).0 != name,
    ensures
        lookup_count(s, name) == 0,
    decreases s.len(),
{
    if s.len() > 0 {
        assert(s.last() == s[s.len() - 1]);
        assert forall|j: int| 0 <= j < s.drop_last().len() implies (#[trigger] s.drop_last()[j]).0
            != name by {
            assert(s.drop_last()[j] == s[j]);
        }
        lemma_lookup_absent(s.drop_last(), name);
    }
}

proof fn lemma_lookup_found(s: Seq<(Seq<char>, nat)>, i: int)
    requires
        distinct_names(s),
        0 <= i < s.len(),
    ensures
        lookup_count(s, s[i].0) == s[i].1,
    decreases s.len(),
{
    if i == s.len() - 1 {
        assert(s.last() == s[i]);
    } else {
        assert(s.last() == s[s.len() - 1]);
        assert(s[i].0 != s[s.len() - 1].0);
        assert forall|j1: int, j2: int| 0 <= j1 < j2 < s.drop_last().len() implies (
        #[trigger] s.drop_last()[j1]).0 != (#[trigger] s.drop_last()[j2]).0 by {
            assert(s.drop_last()[j1] == s[j1]);
            assert(s.drop_last()[j2] == s[j2]);
        }
        assert(s.drop_last()[i] == s[i]);
        lemma_lookup_found(s.drop_last(), i);
    }
}

proof fn lemma_lookup_update(s: Seq<(Seq<char>, nat)>, i: int, v: nat, n: Seq<char>)
    requires
        distinct_names(s),
        0 <= i < s.len(),
    ensures
        lookup_count(s.update(i, (s[i].0, v)), n) == if n == s[i].0 {
            v
        } else {
            lookup_count(s, n)
        },
    decreases s.len(),
{
    let u = s.update(i, (s[i].0, v));
    assert(u.len() == s.len());
    if i == s.len() - 1 {
        assert(u.last() == (s[i].0, v));
        assert(u.drop_last() =~= s.drop_last());
        if n != s[i].0 {
            assert(s.last() == s[i]);
        }
    } else {
        assert(u.last() == s[s.len() - 1]);
        assert(s.last() == s[s.len() - 1]);
        assert forall|j1: int, j2: int| 0 <= j1 < j2 < s.drop_last().len() implies (
        #[trigger] s.drop_last()[j1]).0 != (#[trigger] s.drop_last()[j2]).0 by {
            assert(s.drop_last()[j1] == s[j1]);
            assert(s.drop_last()[j2] == s[j2]);
        }
        assert(s.drop_last()[i] == s[i]);
        lemma_lookup_update(s.drop_last(), i, v, n);
        assert(u.drop_last() =~= s.drop_last().update(i, (s[i].0, v)));
        if n == s[i].0 {
            assert(s[i].0 != s[s.len() - 1].0);
        }
    }
}

/// The shared aggregate state of one session.
pub struct AggregateStore {
    counts: Vec<(String, usize)>,
    window: Vec<RecentDonator>,
    pending: Vec<ChatMessage>,
    recorded: Ghost<Seq<ChatView>>,
    drained: Ghost<Seq<ChatView>>,
    donated: Ghost<Seq<DonationView>>,
}

impl AggregateStore {
    /// The count table: one entry per user that has chatted, in first-seen
    /// order.
    pub closed spec fn counts_seq(self) -> Seq<(Seq<char>, nat)> {
        entry_views(self.counts@)
    }

    /// How many messages `name` has sent.
    pub open spec fn count_of(self, name: Seq<char>) -> nat {
        lookup_count(self.counts_seq(), name)
    }

    /// The donation window, oldest first.
    pub closed spec fn window_view(self) -> Seq<DonationView> {
        donation_views(self.window@)
    }

    /// The chat messages accumulated since the last drain, in arrival order.
    pub closed spec fn pending_view(self) -> Seq<ChatView> {
        message_views(self.pending@)
    }

    /// Every chat message ever recorded, in arrival order.
    pub closed spec fn recorded_view(self) -> Seq<ChatView> {
        self.recorded@
    }

    /// The concatenation of every drain result, in drain order.
    pub closed spec fn drained_view(self) -> Seq<ChatView> {
        self.drained@
    }

    /// Every donation ever recorded, in arrival order.
    pub closed spec fn donated_view(self) -> Seq<DonationView> {
        self.donated@
    }

    /// The store's invariant.
    ///
    /// - no username has two entries in the count table;
    /// - what was drained, followed by what is still pending, is exactly
    ///   what was recorded: no chat message is lost or duplicated;
    /// - each user's count is exactly the number of recorded messages of
    ///   that user;
    /// - the donation window holds exactly the most recent donations,
    ///   oldest first.
    pub open spec fn wf(self) -> bool {
        &&& distinct_names(self.counts_seq())
        &&& self.drained_view() + self.pending_view() == self.recorded_view()
        &&& forall|n: Seq<char>|
            #[trigger] self.count_of(n) == occurrences(self.recorded_view(), n)
        &&& self.window_view() == last_window(self.donated_view())
    }

    /// A fresh store: nothing recorded, nothing pending, nothing drained.
    pub fn new() -> (s: AggregateStore)
        ensures
            s.wf(),
            s.counts_seq().len() == 0,
            s.pending_view().len() == 0,
            s.window_view().len() == 0,
            s.recorded_view().len() == 0,
            s.drained_view().len() == 0,
            s.donated_view().len() == 0,
    {
        let s = AggregateStore {
            counts: Vec::new(),
            window: Vec::new(),
            pending: Vec::new(),
            recorded: Ghost(Seq::empty()),
            drained: Ghost(Seq::empty()),
            donated: Ghost(Seq::empty()),
        };
        proof {
            assert(s.drained_view() + s.pending_view() =~= s.recorded_view());
            assert(s.window_view() =~= last_window(s.donated_view()));
        }
        s
    }

    /// Records one accepted chat message: the sender's count goes up by
    /// one (from zero for a first-time chatter) and the message joins the
    /// pending batch.  Nothing else changes.
    pub fn record_chat(&mut self, msg: ChatMessage)
        requires
            old(self).wf(),
            old(self).count_of(msg.username@) < usize::MAX,
        ensures
            final(self).wf(),
            forall|n: Seq<char>|
                #[trigger] final(self).count_of(n) == if n == msg.username@ {
                    old(self).count_of(n) + 1
                } else {
                    old(self).count_of(n)
                },
            final(self).pending_view() == old(self).pending_view().push(msg@),
            final(self).recorded_view() == old(self).recorded_view().push(msg@),
            final(self).drained_view() == old(self).drained_view(),
            final(self).window_view() == old(self).window_view(),
            final(self).donated_view() == old(self).donated_view(),
    {
        let ghost entries = entry_views(self.counts@);
        let ghost mv = msg@;
        let n = self.counts.len();
        let mut i: usize = 0;
        while i < n && !(self.counts[i].0 == msg.username)
            invariant
                i <= n,
                n == self.counts@.len(),
                entries == entry_views(self.counts@),
                forall|j: int| 0 <= j < i ==> (#[trigger] entries[j]).0 != msg.username@,
            decreases n - i,
        {
            i = i + 1;
        }
        if i < n {
            proof {
                assert(entries[i as int].0 == msg.username@);
                lemma_lookup_found(entries, i as int);
            }
            let (name, c) = self.counts.remove(i);
            self.counts.insert(i, (name, c + 1));
            proof {
                assert(entry_views(self.counts@) =~= entries.update(
                    i as int,
                    (entries[i as int].0, (c + 1) as nat),
                ));
                assert forall|m: Seq<char>| #[trigger] lookup_count(entry_views(self.counts@), m)
                    == if m == msg.username@ {
                    lookup_count(entries, m) + 1
                } else {
                    lookup_count(entries, m)
                } by {
                    lemma_lookup_update(entries, i as int, (c + 1) as nat, m);
                }
                assert forall|j1: int, j2: int|
                    0 <= j1 < j2 < entry_views(self.counts@).len() implies (
                #[trigger] entry_views(self.counts@)[j1]).0 != (#[trigger] entry_views(
                    self.counts@,
                )[j2]).0 by {
                    assert(entry_views(self.counts@)[j1].0 == entries[j1].0);
                    assert(entry_views(self.counts@)[j2].0 == entries[j2].0);
                }
            }
        } else {
            proof {
                lemma_lookup_absent(entries, msg.username@);
            }
            let name = msg.username.clone();
            self.counts.push((name, 1));
            proof {
                assert(entry_views(self.counts@) =~= entries.push((msg.username@, 1nat)));
                let u = entries.push((msg.username@, 1nat));
                assert(u.last() == (msg.username@, 1nat));
                assert(u.drop_last() =~= entries);
                assert forall|j1: int, j2: int| 0 <= j1 < j2 < u.len() implies (
                #[trigger] u[j1]).0 != (#[trigger] u[j2]).0 by {
                    if j2 < u.len() - 1 {
                        assert(u[j1] == entries[j1] && u[j2] == entries[j2]);
                    } else {
                        assert(u[j1] == entries[j1]);
                    }
                }
            }
        }
        self.pending.push(msg);
        proof {
            self.recorded@ = self.recorded@.push(mv);
            let h = old(self).recorded_view();
            assert(h.push(mv).drop_last() =~= h);
            assert(h.push(mv).last() == mv);
            assert(self.pending_view() =~= old(self).pending_view().push(mv));
            assert(self.drained_view() + self.pending_view() =~= self.recorded_view());
            assert forall|n2: Seq<char>| #[trigger] self.count_of(n2) == occurrences(
                self.recorded_view(),
                n2,
            ) by {
                assert(old(self).count_of(n2) == occurrences(h, n2));
                assert(occurrences(h.push(mv), n2) == occurrences(h, n2) + if mv.username == n2 {
                    1nat
                } else {
                    0nat
                });
                assert(lookup_count(entry_views(self.counts@), n2) == if n2 == msg.username@ {
                    lookup_count(entries, n2) + 1
                } else {
                    lookup_count(entries, n2)
                });
            }
        }
    }

    /// Records one donation.  The window keeps its capacity: at
    /// `DONATION_WINDOW` entries the oldest one is evicted, so the window
    /// is always the most recent donations, oldest first.
    pub fn record_donation(&mut self, d: RecentDonator)
        requires
            old(self).wf(),
        ensures
            final(self).wf(),
            final(self).donated_view() == old(self).donated_view().push(d@),
            final(self).window_view() == if old(self).window_view().len() < DONATION_WINDOW as int {
                old(self).window_view().push(d@)
            } else {
                old(self).window_view().drop_first().push(d@)
            },
            final(self).window_view().len() <= DONATION_WINDOW as int,
            final(self).pending_view() == old(self).pending_view(),
            final(self).recorded_view() == old(self).recorded_view(),
            final(self).drained_view() == old(self).drained_view(),
            final(self).counts_seq() == old(self).counts_seq(),
    {
        let ghost dv = d@;
        let ghost old_window = self.window_view();
        let ghost old_donated = self.donated@;
        if self.window.len() >= DONATION_WINDOW {
            self.window.remove(0);
            proof {
                assert(self.window_view() =~= old_window.drop_first());
            }
        }
        self.window.push(d);
        proof {
            self.donated@ = self.donated@.push(dv);
            assert forall|n2: Seq<char>| #[trigger] self.count_of(n2) == occurrences(
                self.recorded_view(),
                n2,
            ) by {
                assert(old(self).count_of(n2) == occurrences(old(self).recorded_view(), n2));
            }
            if old_window.len() < DONATION_WINDOW as int {
                assert(self.window_view() =~= old_window.push(dv));
                assert(self.window_view() =~= last_window(old_donated.push(dv)));
            } else {
                assert(self.window_view() =~= old_window.drop_first().push(dv));
                assert(old_window =~= old_donated.skip(old_donated.len() - DONATION_WINDOW as int));
                assert(self.window_view() =~= last_window(old_donated.push(dv)));
            }
        }
    }

    /// Atomically removes and returns the whole pending batch, in arrival
    /// order, leaving it empty.  Counts and donations are untouched, and
    /// the drained history grows by exactly the returned batch: no chat
    /// message is ever lost or returned twice.
    pub fn drain_batch(&mut self) -> (batch: Vec<ChatMessage>)
        requires
            old(self).wf(),
        ensures
            final(self).wf(),
            message_views(batch@) == old(self).pending_view(),
            final(self).pending_view().len() == 0,
            final(self).drained_view() == old(self).drained_view() + old(self).pending_view(),
            final(self).recorded_view() == old(self).recorded_view(),
            final(self).window_view() == old(self).window_view(),
            final(self).donated_view() == old(self).donated_view(),
            final(self).counts_seq() == old(self).counts_seq(),
    {
        let mut batch: Vec<ChatMessage> = Vec::new();
        core::mem::swap(&mut batch, &mut self.pending);
        proof {
            self.drained@ = self.drained@ + old(self).pending_view();
            assert(self.pending_view() =~= Seq::<ChatView>::empty());
            assert(self.drained_view() + self.pending_view() =~= self.recorded_view());
            assert forall|n2: Seq<char>| #[trigger] self.count_of(n2) == occurrences(
                self.recorded_view(),
                n2,
            ) by {
                assert(old(self).count_of(n2) == occurrences(old(self).recorded_view(), n2));
            }
        }
        batch
    }

    /// A copy of the donation window, oldest first.
    pub fn snapshot_donations(&self) -> (r: Vec<RecentDonator>)
        ensures
            donation_views(r@) == self.window_view(),
    {
        let mut r: Vec<RecentDonator> = Vec::new();
        let mut i: usize = 0;
        while i < self.window.len()
            invariant
                i <= self.window@.len(),
                donation_views(r@) =~= self.window_view().take(i as int),
            decreases self.window@.len() - i,
        {
            let d = RecentDonator {
                username: self.window[i].username.clone(),
                amount: self.window[i].amount.clone(),
                message: self.window[i].message.clone(),
            };
            let ghost prev = r@;
            let ghost dv = d@;
            r.push(d);
            proof {
                assert(dv == self.window@[i as int]@);
                assert(donation_views(prev).len() == prev.len());
                assert(prev.len() == i);
                assert forall|j: int| 0 <= j < r@.len() implies donation_views(r@)[j]
                    == self.window_view().take(i + 1)[j] by {
                    if j < i as int {
                        assert(donation_views(prev)[j] == self.window_view().take(i as int)[j]);
                        assert(r@[j] == prev[j]);
                    } else {
                        assert(r@[j] == d);
                        assert(self.window_view()[j] == self.window@[j]@);
                    }
                }
                assert(donation_views(r@) =~= self.window_view().take(i + 1));
            }
            i = i + 1;
        }
        proof {
            assert(self.window_view().take(self.window@.len() as int) =~= self.window_view());
        }
        r
    }

    /// The `k` users with the most messages, most first (ties order by
    /// username): exactly the descending sort of the count table,
    /// truncated to `k`.
    pub fn snapshot_top_chatters(&self, k: usize) -> (r: Vec<TopChatter>)
        requires
            self.wf(),
        ensures
            chatter_views(r@) == spec_top_k(self.counts_seq(), k as int),
    {
        top_k(&self.counts, k)
    }

    /// How many messages `username` has sent so far.
    pub fn chatter_count(&self, username: &String) -> (c: usize)
        requires
            self.wf(),
        ensures
            c as nat == self.count_of(username@),
    {
        let ghost entries = self.counts_seq();
        let n = self.counts.len();
        let mut i: usize = 0;
        while i < n && !(self.counts[i].0 == *username)
            invariant
                i <= n,
                n == self.counts@.len(),
                entries == entry_views(self.counts@),
                forall|j: int| 0 <= j < i ==> (#[trigger] entries[j]).0 != username@,
            decreases n - i,
        {
            i = i + 1;
        }
        if i < n {
            proof {
                assert(entries[i as int].0 == username@);
                lemma_lookup_found(entries, i as int);
            }
            self.counts[i].1
        } else {
            proof {
                lemma_lookup_absent(entries, username@);
            }
            0
        }
    }

    /// How many chat messages are waiting for the next drain.
    pub fn pending_len(&self) -> (n: usize)
        ensures
            n == self.pending_view().len(),
    {
        self.pending.len()
    }

    /// How many distinct users have chatted.
    pub fn distinct_chatters(&self) -> (n: usize)
        ensures
            n == self.counts_seq().len(),
    {
        self.counts.len()
    }
}

/// Drain exactness: at any reachable state, the concatenation of every
/// past drain result, followed by what is still pending, is exactly the
/// sequence of recorded chat messages -- so across any interleaving of
/// records and drains, every message appears in exactly one drain result,
/// in arrival order, with nothing lost and nothing duplicated.
pub proof fn lemma_drain_exactness(s: AggregateStore)
    requires
        s.wf(),
    ensures
        s.drained_view() + s.pending_view() == s.recorded_view(),
{
}

/// Bounded donation window: at any reachable state the window holds at
/// most `DONATION_WINDOW` donations, and once at least that many have
/// been recorded, it holds exactly the most recent `DONATION_WINDOW` of
/// them, oldest first.
pub proof fn lemma_bounded_window(s: AggregateStore)
    requires
        s.wf(),
    ensures
        s.window_view().len() <= DONATION_WINDOW as int,
        s.donated_view().len() >= DONATION_WINDOW as int ==> s.window_view() == s.donated_view().skip(
            s.donated_view().len() - DONATION_WINDOW as int,
        ),
        s.donated_view().len() < DONATION_WINDOW as int ==> s.window_view() == s.donated_view(),
{
    if s.donated_view().len() == DONATION_WINDOW as int {
        assert(s.donated_view().skip(0) =~= s.donated_view());
    }
}

/// Count fidelity: each user's count equals the number of recorded chat
/// messages attributed to that user -- counts are never lost, never
/// decremented, never reset.
pub proof fn lemma_counts_match_history(s: AggregateStore, name: Seq<char>)
    requires
        s.wf(),
    ensures
        s.count_of(name) == occurrences(s.recorded_view(), name),
{
}

} // verus!
