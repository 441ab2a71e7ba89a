//! Bucketing of operation records into rolling windows: per-window counts,
//! gas totals and distinct senders, and per-sender gas over the last day.
use vstd::prelude::*;
use crate::page::user_op_views;
use crate::records::{UserOp, UserOpView};
use crate::time::{Instant, TimeWindow, in_window, instant_of, parse_instant};

verus! {

/// Whether `op` has a readable timestamp inside window `w` at `now`.
pub open spec fn counts_toward(op: UserOpView, w: TimeWindow, now: Instant) -> bool {
    match instant_of(op.timestamp) {
        Some(t) => in_window(w, now, t),
        None => false,
    }
}

/// Number of operations of `ops` inside `w`.
pub open spec fn op_count(ops: Seq<UserOpView>, w: TimeWindow, now: Instant) -> nat
    decreases ops.len(),
{
    if ops.len() == 0 {
        0
    } else {
        op_count(ops.drop_last(), w, now) + if counts_toward(ops.last(), w, now) { 1nat } else { 0nat }
    }
}

/// Total gas of the operations of `ops` inside `w`.
pub open spec fn gas_total(ops: Seq<UserOpView>, w: TimeWindow, now: Instant) -> nat
    decreases ops.len(),
{
    if ops.len() == 0 {
        0
    } else {
        gas_total(ops.drop_last(), w, now) + if counts_toward(ops.last(), w, now) {
            ops.last().gas_used as nat
        } else {
            0nat
        }
    }
}

/// The senders of the operations of `ops` inside `w`, each once, in the
/// order of their first operation there.
pub open spec fn active_senders(ops: Seq<UserOpView>, w: TimeWindow, now: Instant) -> Seq<Seq<char>>
    decreases ops.len(),
{
    if ops.len() == 0 {
        Seq::empty()
    } else {
        let prev = active_senders(ops.drop_last(), w, now);
        let op = ops.last();
        if counts_toward(op, w, now) && !prev.contains(op.sender) {
            prev.push(op.sender)
        } else {
            prev
        }
    }
}

/// Gas of the operations sent by `who` within the last day.
pub open spec fn sender_gas(ops: Seq<UserOpView>, now: Instant, who: Seq<char>) -> nat
    decreases ops.len(),
{
    if ops.len() == 0 {
        0
    } else {
        sender_gas(ops.drop_last(), now, who) + if counts_toward(ops.last(), TimeWindow::Last24Hours, now)
            && ops.last().sender == who {
            ops.last().gas_used as nat
        } else {
            0nat
        }
    }
}

/// `n`, or `u64::MAX` when it is larger.
pub open spec fn capped(n: nat) -> u64 {
    if n > u64::MAX { u64::MAX } else { n as u64 }
}

proof fn lemma_capped_add(a: nat, b: nat)
    ensures
        capped(capped(a) as nat + b) == capped(a + b),
{
}

/// What one more operation adds to each tally.
pub proof fn lemma_push_step(ops: Seq<UserOpView>, op: UserOpView, w: TimeWindow, now: Instant)
    ensures
        op_count(ops.push(op), w, now) == op_count(ops, w, now) + if counts_toward(op, w, now) {
            1nat
        } else {
            0nat
        },
        gas_total(ops.push(op), w, now) == gas_total(ops, w, now) + if counts_toward(op, w, now) {
            op.gas_used as nat
        } else {
            0nat
        },
        active_senders(ops.push(op), w, now) == if counts_toward(op, w, now) && !active_senders(
            ops,
            w,
            now,
        ).contains(op.sender) {
            active_senders(ops, w, now).push(op.sender)
        } else {
            active_senders(ops, w, now)
        },
{
    assert(ops.push(op).drop_last() =~= ops);
    assert(ops.push(op).last() == op);
}

/// `a + b`, or `u64::MAX` when the sum is larger.
fn add_capped(a: u64, b: u64) -> (r: u64)
    ensures
        r == capped(a as nat + b as nat),
{
    if a > u64::MAX - b { u64::MAX } else { a + b }
}

pub open spec fn texts(v: Seq<String>) -> Seq<Seq<char>> {
    v.map_values(|s: String| s@)
}

/// Running tallies over every operation ingested so far in one cycle.
pub struct OpsAggregator {
    pub now: Instant,
    /// The windows tallied, in catalog order.
    pub windows: Vec<TimeWindow>,
    /// Operations per window.
    pub user_ops: Vec<u64>,
    /// Gas per window.
    pub gas_used: Vec<u64>,
    /// Distinct senders per window.
    pub senders: Vec<Vec<String>>,
    /// Gas per sender over the last day, senders in order of first sight.
    pub gas_by_sender: Vec<(String, u64)>,
    /// Every operation ingested so far.
    pub ingested: Ghost<Seq<UserOpView>>,
}

impl OpsAggregator {
    /// The per-window tallies are those of `ops`.
    pub open spec fn windows_tallied(&self, ops: Seq<UserOpView>) -> bool {
        &&& self.user_ops@.len() == self.windows@.len()
        &&& self.gas_used@.len() == self.windows@.len()
        &&& self.senders@.len() == self.windows@.len()
        &&& forall|j: int|
            0 <= j < self.windows@.len() ==> {
                &&& #[trigger] self.user_ops@[j] == capped(op_count(ops, self.windows@[j], self.now))
                &&& self.gas_used@[j] == capped(gas_total(ops, self.windows@[j], self.now))
                &&& texts(self.senders@[j]@) == active_senders(ops, self.windows@[j], self.now)
            }
    }

    /// The per-sender gas of the last day is that of `ops`.
    pub open spec fn day_tallied(&self, ops: Seq<UserOpView>) -> bool {
        &&& self.gas_by_sender@.len() == active_senders(ops, TimeWindow::Last24Hours, self.now).len()
        &&& forall|k: int|
            0 <= k < self.gas_by_sender@.len() ==> {
                &&& (#[trigger] self.gas_by_sender@[k]).0@ == active_senders(
                    ops,
                    TimeWindow::Last24Hours,
                    self.now,
                )[k]
                &&& self.gas_by_sender@[k].1 == capped(
                    sender_gas(ops, self.now, self.gas_by_sender@[k].0@),
                )
            }
    }

    /// The tallies are exactly those of `ingested`.
    pub open spec fn wf(&self) -> bool {
        &&& self.now.wf()
        &&& self.windows_tallied(self.ingested@)
        &&& self.day_tallied(self.ingested@)
    }

    /// Empty tallies for `windows` at `now`.
    pub fn new(windows: Vec<TimeWindow>, now: Instant) -> (r: OpsAggregator)
        requires
            now.wf(),
        ensures
            r.wf(),
            r.now == now,
            r.windows@ == windows@,
            r.ingested@ == Seq::<UserOpView>::empty(),
    {
        let mut user_ops: Vec<u64> = Vec::new();
        let mut gas_used: Vec<u64> = Vec::new();
        let mut senders: Vec<Vec<String>> = Vec::new();
        let mut j: usize = 0;
        while j < windows.len()
            invariant
                j <= windows@.len(),
                user_ops@.len() == j,
                gas_used@.len() == j,
                senders@.len() == j,
                forall|b: int|
                    0 <= b < j ==> #[trigger] user_ops@[b] == 0 && gas_used@[b] == 0 && senders@[b]@.len()
                        == 0,
            decreases windows.len() - j,
        {
            user_ops.push(0);
            gas_used.push(0);
            senders.push(Vec::new());
            j += 1;
        }
        let r = OpsAggregator {
            now,
            windows,
            user_ops,
            gas_used,
            senders,
            gas_by_sender: Vec::new(),
            ingested: Ghost(Seq::empty()),
        };
        assert forall|b: int| 0 <= b < r.windows@.len() implies texts(r.senders@[b]@) == active_senders(
            r.ingested@,
            r.windows@[b],
            now,
        ) by {
            assert(r.user_ops@[b] == 0);
            assert(texts(r.senders@[b]@) =~= Seq::<Seq<char>>::empty());
        }
        r
    }
}

/// A sender absent from the day's senders has no gas in the day.
proof fn lemma_absent_sender_gas(ops: Seq<UserOpView>, now: Instant, who: Seq<char>)
    requires
        !active_senders(ops, TimeWindow::Last24Hours, now).contains(who),
    ensures
        sender_gas(ops, now, who) == 0,
    decreases ops.len(),
{
    if ops.len() > 0 {
        let prev = active_senders(ops.drop_last(), TimeWindow::Last24Hours, now);
        let op = ops.last();
        if counts_toward(op, TimeWindow::Last24Hours, now) && !prev.contains(op.sender) {
            assert(prev.push(op.sender)[prev.len() as int] == op.sender);
            assert forall|x: Seq<char>| prev.contains(x) implies prev.push(op.sender).contains(x) by {
                let i = choose|i: int| 0 <= i < prev.len() && prev[i] == x;
                assert(prev.push(op.sender)[i] == x);
            }
        }
        lemma_absent_sender_gas(ops.drop_last(), now, who);
    }
}

impl OpsAggregator {
    /// Adds one operation to the tallies; one whose timestamp does not
    /// parse changes nothing but the record of what was ingested.
    pub fn ingest(&mut self, op: &UserOp)
        requires
            old(self).wf(),
        ensures
            final(self).wf(),
            final(self).now == old(self).now,
            final(self).windows@ == old(self).windows@,
            final(self).ingested@ == old(self).ingested@.push(op@),
    {
        let ghost ops = self.ingested@;
        let ghost nops = ops.push(op@);
        assert(nops.drop_last() =~= ops);
        match parse_instant(op.timestamp.as_str()) {
            Some(t) => {
                self.tally_windows(op, t, Ghost(ops));
                self.tally_day(op, t, Ghost(ops));
            },
            None => {
                let ghost now = self.now;
                assert forall|j: int| 0 <= j < self.windows@.len() implies {
                    &&& #[trigger] self.user_ops@[j] == capped(op_count(nops, self.windows@[j], now))
                    &&& self.gas_used@[j] == capped(gas_total(nops, self.windows@[j], now))
                    &&& texts(self.senders@[j]@) == active_senders(nops, self.windows@[j], now)
                } by {
                    assert(!counts_toward(op@, self.windows@[j], now));
                    lemma_push_step(ops, op@, self.windows@[j], now);
                }
                assert(!counts_toward(op@, TimeWindow::Last24Hours, now));
                assert(active_senders(nops, TimeWindow::Last24Hours, now) == active_senders(
                    ops,
                    TimeWindow::Last24Hours,
                    now,
                ));
                assert forall|m: int| 0 <= m < self.gas_by_sender@.len() implies self.gas_by_sender@[m].1
                    == capped(sender_gas(nops, now, (#[trigger] self.gas_by_sender@[m]).0@)) by {}
            },
        }
        self.ingested = Ghost(nops);
    }

    /// Adds every operation of one page, in order.
    pub fn ingest_page(&mut self, ops: &Vec<UserOp>)
        requires
            old(self).wf(),
        ensures
            final(self).wf(),
            final(self).now == old(self).now,
            final(self).windows@ == old(self).windows@,
            final(self).ingested@ == old(self).ingested@ + user_op_views(ops@),
    {
        let mut i: usize = 0;
        while i < ops.len()
            invariant
                i <= ops@.len(),
                self.wf(),
                self.now == old(self).now,
                self.windows@ == old(self).windows@,
                self.ingested@ == old(self).ingested@ + user_op_views(ops@.take(i as int)),
            decreases ops.len() - i,
        {
            self.ingest(&ops[i]);
            assert(user_op_views(ops@.take(i + 1)) =~= user_op_views(ops@.take(i as int)).push(ops@[i as int]@));
            i += 1;
        }
        assert(ops@.take(ops@.len() as int) =~= ops@);
    }

    /// Counts `op`, which happened at `t`, in every window that holds `t`.
    #[verifier::spinoff_prover]
    fn tally_windows(&mut self, op: &UserOp, t: Instant, Ghost(ops): Ghost<Seq<UserOpView>>)
        requires
            old(self).now.wf(),
            old(self).windows_tallied(ops),
            instant_of(op.timestamp@) == Some(t),
        ensures
            final(self).windows_tallied(ops.push(op@)),
            final(self).now == old(self).now,
            final(self).windows@ == old(self).windows@,
            final(self).gas_by_sender@ == old(self).gas_by_sender@,
            final(self).ingested == old(self).ingested,
    {
        let ghost nops = ops.push(op@);
        let ghost now = self.now;
        assert(nops.drop_last() =~= ops);
        let mut j: usize = 0;
        while j < self.windows.len()
            invariant
                j <= self.windows@.len(),
                self.now == now,
                now.wf(),
                old(self).now == now,
                old(self).windows_tallied(ops),
                self.windows@ == old(self).windows@,
                self.gas_by_sender@ == old(self).gas_by_sender@,
                self.ingested == old(self).ingested,
                self.user_ops@.len() == self.windows@.len(),
                self.gas_used@.len() == self.windows@.len(),
                self.senders@.len() == self.windows@.len(),
                instant_of(op.timestamp@) == Some(t),
                nops == ops.push(op@),
                forall|b: int|
                    0 <= b < j ==> {
                        &&& #[trigger] self.user_ops@[b] == capped(op_count(nops, self.windows@[b], now))
                        &&& self.gas_used@[b] == capped(gas_total(nops, self.windows@[b], now))
                        &&& texts(self.senders@[b]@) == active_senders(nops, self.windows@[b], now)
                    },
                forall|b: int|
                    j <= b < self.windows@.len() ==> {
                        &&& #[trigger] self.user_ops@[b] == old(self).user_ops@[b]
                        &&& self.gas_used@[b] == old(self).gas_used@[b]
                        &&& self.senders@[b] == old(self).senders@[b]
                    },
            decreases self.windows.len() - j,
        {
            let ghost w = self.windows@[j as int];
            let ghost u0 = self.user_ops@;
            let ghost g0 = self.gas_used@;
            let ghost s0 = self.senders@;
            assert(old(self).user_ops@[j as int] == capped(op_count(ops, w, now)));
            assert(u0[j as int] == capped(op_count(ops, w, now)));
            assert(g0[j as int] == capped(gas_total(ops, w, now)));
            assert(texts(s0[j as int]@) == active_senders(ops, w, now));
            proof {
                lemma_push_step(ops, op@, w, now);
                lemma_capped_add(op_count(ops, w, now), 1);
                lemma_capped_add(gas_total(ops, w, now), op.gas_used as nat);
            }
            if self.windows[j].contains(self.now, t) {
                assert(counts_toward(op@, w, now));
                let c = add_capped(self.user_ops[j], 1);
                self.user_ops.set(j, c);
                let g = add_capped(self.gas_used[j], op.gas_used);
                self.gas_used.set(j, g);
                match find_text(&self.senders[j], &op.sender) {
                    None => {
                        let ghost before = self.senders@[j as int]@;
                        assert(texts(before) == active_senders(ops, w, now));
                        assert(!active_senders(ops, w, now).contains(op.sender@));
                        self.senders[j].push(op.sender.clone());
                        assert(texts(self.senders@[j as int]@) =~= texts(before).push(op.sender@));
                        assert(texts(self.senders@[j as int]@) == active_senders(nops, w, now));
                    },
                    Some(k) => {
                        assert(texts(self.senders@[j as int]@)[k as int] == op.sender@);
                        assert(active_senders(ops, w, now).contains(op.sender@));
                        assert(texts(self.senders@[j as int]@) == active_senders(nops, w, now));
                    },
                }
            } else {
                assert(!counts_toward(op@, w, now));
            }
            assert(self.user_ops@[j as int] == capped(op_count(nops, w, now)));
            assert(self.gas_used@[j as int] == capped(gas_total(nops, w, now)));
            assert(texts(self.senders@[j as int]@) == active_senders(nops, w, now));
            assert forall|b: int| 0 <= b < j + 1 implies {
                &&& #[trigger] self.user_ops@[b] == capped(op_count(nops, self.windows@[b], now))
                &&& self.gas_used@[b] == capped(gas_total(nops, self.windows@[b], now))
                &&& texts(self.senders@[b]@) == active_senders(nops, self.windows@[b], now)
            } by {
                if b < j {
                    assert(self.user_ops@[b] == u0[b]);
                    assert(self.gas_used@[b] == g0[b]);
                    assert(self.senders@[b] == s0[b]);
                    assert(u0[b] == capped(op_count(nops, self.windows@[b], now)));
                }
            }
            assert forall|b: int| j + 1 <= b < self.windows@.len() implies {
                &&& #[trigger] self.user_ops@[b] == old(self).user_ops@[b]
                &&& self.gas_used@[b] == old(self).gas_used@[b]
                &&& self.senders@[b] == old(self).senders@[b]
            } by {
                assert(self.user_ops@[b] == u0[b]);
                assert(self.gas_used@[b] == g0[b]);
                assert(self.senders@[b] == s0[b]);
            }
            j += 1;
        }
    }

    /// Adds the gas of `op`, which happened at `t`, to its sender's total
    /// when `t` lies within the last day.
    fn tally_day(&mut self, op: &UserOp, t: Instant, Ghost(ops): Ghost<Seq<UserOpView>>)
        requires
            old(self).now.wf(),
            old(self).day_tallied(ops),
            instant_of(op.timestamp@) == Some(t),
        ensures
            final(self).day_tallied(ops.push(op@)),
            final(self).now == old(self).now,
            final(self).windows@ == old(self).windows@,
            final(self).user_ops@ == old(self).user_ops@,
            final(self).gas_used@ == old(self).gas_used@,
            final(self).senders@ == old(self).senders@,
            final(self).ingested == old(self).ingested,
    {
        let ghost nops = ops.push(op@);
        let ghost now = self.now;
        assert(nops.drop_last() =~= ops);
        let ghost day = active_senders(ops, TimeWindow::Last24Hours, now);
        let ghost before = self.gas_by_sender@;
        if TimeWindow::Last24Hours.contains(self.now, t) {
            assert(counts_toward(op@, TimeWindow::Last24Hours, now));
            match find_sender(&self.gas_by_sender, &op.sender) {
                Some(k) => {
                    assert(day[k as int] == op.sender@);
                    assert(day.contains(op.sender@));
                    let total = add_capped(self.gas_by_sender[k].1, op.gas_used);
                    let name = self.gas_by_sender[k].0.clone();
                    self.gas_by_sender.set(k, (name, total));
                    assert(active_senders(nops, TimeWindow::Last24Hours, now) == day);
                    proof {
                        lemma_active_senders_distinct(ops, TimeWindow::Last24Hours, now);
                    }
                    assert forall|m: int| 0 <= m < self.gas_by_sender@.len() implies {
                        &&& (#[trigger] self.gas_by_sender@[m]).0@ == day[m]
                        &&& self.gas_by_sender@[m].1 == capped(
                            sender_gas(nops, now, self.gas_by_sender@[m].0@),
                        )
                    } by {
                        assert(before[m].0@ == day[m]);
                        if m != k {
                            assert(self.gas_by_sender@[m] == before[m]);
                            assert(day[m] != day[k as int]);
                        }
                    }
                },
                None => {
                    assert(!day.contains(op.sender@)) by {
                        if day.contains(op.sender@) {
                            let k = choose|k: int| 0 <= k < day.len() && day[k] == op.sender@;
                            assert(before[k].0@ == day[k]);
                        }
                    }
                    proof {
                        lemma_absent_sender_gas(ops, now, op.sender@);
                    }
                    self.gas_by_sender.push((op.sender.clone(), op.gas_used));
                    assert(active_senders(nops, TimeWindow::Last24Hours, now) == day.push(op.sender@));
                    assert forall|m: int| 0 <= m < self.gas_by_sender@.len() implies {
                        &&& (#[trigger] self.gas_by_sender@[m]).0@ == day.push(op.sender@)[m]
                        &&& self.gas_by_sender@[m].1 == capped(
                            sender_gas(nops, now, self.gas_by_sender@[m].0@),
                        )
                    } by {
                        if m < before.len() {
                            assert(self.gas_by_sender@[m] == before[m]);
                            assert(before[m].0@ == day[m]);
                            assert(day[m] != op.sender@);
                        }
                    }
                },
            }
        } else {
            assert(!counts_toward(op@, TimeWindow::Last24Hours, now));
            assert(active_senders(nops, TimeWindow::Last24Hours, now) == day);
            assert forall|m: int| 0 <= m < self.gas_by_sender@.len() implies self.gas_by_sender@[m].1
                == capped(sender_gas(nops, now, (#[trigger] self.gas_by_sender@[m]).0@)) by {
                assert(before[m].0@ == day[m]);
            }
        }
    }
}

/// `texts` keeps the length.
pub proof fn lemma_texts_len(v: Seq<String>)
    ensures
        texts(v).len() == v.len(),
{
}

/// A sender list names each sender once.
pub proof fn lemma_active_senders_distinct(ops: Seq<UserOpView>, w: TimeWindow, now: Instant)
    ensures
        active_senders(ops, w, now).no_duplicates(),
    decreases ops.len(),
{
    if ops.len() > 0 {
        lemma_active_senders_distinct(ops.drop_last(), w, now);
    }
}

/// Position of `s` in `v`, if it is there.
fn find_text(v: &Vec<String>, s: &String) -> (r: Option<usize>)
    ensures
        r matches Some(k) ==> k < v@.len() && v@[k as int]@ == s@,
        r is None ==> !texts(v@).contains(s@),
{
    let mut k: usize = 0;
    while k < v.len()
        invariant
            k <= v@.len(),
            forall|b: int| 0 <= b < k ==> (#[trigger] v@[b])@ != s@,
        decreases v.len() - k,
    {
        if v[k] == *s {
            return Some(k);
        }
        k += 1;
    }
    assert forall|b: int| 0 <= b < v@.len() implies #[trigger] texts(v@)[b] != s@ by {
        assert(texts(v@)[b] == v@[b]@);
    }
    None
}

/// Position of `s` among the senders of `v`, if it is there.
fn find_sender(v: &Vec<(String, u64)>, s: &String) -> (r: Option<usize>)
    ensures
        r matches Some(k) ==> k < v@.len() && v@[k as int].0@ == s@,
        r is None ==> forall|b: int| 0 <= b < v@.len() ==> (#[trigger] v@[b]).0@ != s@,
{
    let mut k: usize = 0;
    while k < v.len()
        invariant
            k <= v@.len(),
            forall|b: int| 0 <= b < k ==> (#[trigger] v@[b]).0@ != s@,
        decreases v.len() - k,
    {
        if v[k].0 == *s {
            return Some(k);
        }
        k += 1;
    }
    None
}

} // verus!

verus! {

/// The senders of the operations of `ops` inside `w`, as a set.
pub open spec fn sender_set(ops: Seq<UserOpView>, w: TimeWindow, now: Instant) -> Set<Seq<char>> {
    Set::new(
        |x: Seq<char>|
            exists|i: int| 0 <= i < ops.len() && counts_toward(#[trigger] ops[i], w, now) && ops[i].sender == x,
    )
}

/// A sender is listed exactly when one of its operations falls in `w`.
pub proof fn lemma_active_contains(ops: Seq<UserOpView>, w: TimeWindow, now: Instant, x: Seq<char>)
    ensures
        active_senders(ops, w, now).contains(x) <==> sender_set(ops, w, now).contains(x),
    decreases ops.len(),
{
    if ops.len() > 0 {
        let prev = ops.drop_last();
        let op = ops.last();
        lemma_active_contains(prev, w, now, x);
        let a = active_senders(ops, w, now);
        let pa = active_senders(prev, w, now);
        if sender_set(prev, w, now).contains(x) {
            let i = choose|i: int| 0 <= i < prev.len() && counts_toward(#[trigger] prev[i], w, now) && prev[i].sender == x;
            assert(ops[i] == prev[i]);
            assert(sender_set(ops, w, now).contains(x));
        }
        if sender_set(ops, w, now).contains(x) {
            let i = choose|i: int| 0 <= i < ops.len() && counts_toward(#[trigger] ops[i], w, now) && ops[i].sender == x;
            if i < prev.len() {
                assert(prev[i] == ops[i]);
                assert(sender_set(prev, w, now).contains(x));
            }
        }
        if counts_toward(op, w, now) && !pa.contains(op.sender) {
            assert(a == pa.push(op.sender));
            assert(a[pa.len() as int] == op.sender);
            if pa.contains(x) {
                let k = choose|k: int| 0 <= k < pa.len() && pa[k] == x;
                assert(a[k] == x);
            }
            if a.contains(x) && x != op.sender {
                let k = choose|k: int| 0 <= k < a.len() && a[k] == x;
                assert(pa[k] == x);
            }
            if x == op.sender {
                assert(ops[ops.len() - 1] == op);
            }
        } else {
            if x == op.sender && counts_toward(op, w, now) {
                assert(pa.contains(x));
            }
        }
    }
}

/// The number of distinct senders listed for a window is the number of
/// distinct senders among the operations inside it, however many
/// operations each sent.
pub proof fn lemma_unique_senders_count(ops: Seq<UserOpView>, w: TimeWindow, now: Instant)
    ensures
        sender_set(ops, w, now).finite(),
        active_senders(ops, w, now).len() == sender_set(ops, w, now).len(),
{
    let a = active_senders(ops, w, now);
    assert forall|x: Seq<char>| #[trigger] a.to_set().contains(x) == sender_set(ops, w, now).contains(x) by {
        lemma_active_contains(ops, w, now, x);
    }
    assert(a.to_set() =~= sender_set(ops, w, now));
    lemma_active_senders_distinct(ops, w, now);
    a.unique_seq_to_set();
}

/// The operation count of a window is the number of operations whose
/// timestamp parses and lies inside it.
pub proof fn lemma_op_count_filter(ops: Seq<UserOpView>, w: TimeWindow, now: Instant)
    ensures
        op_count(ops, w, now) == ops.filter(|op: UserOpView| counts_toward(op, w, now)).len(),
    decreases ops.len(),
{
    reveal(Seq::filter);
    if ops.len() > 0 {
        lemma_op_count_filter(ops.drop_last(), w, now);
    }
}

/// An operation inside a window is inside every window at least as long.
pub proof fn lemma_longer_window_contains(op: UserOpView, w1: TimeWindow, w2: TimeWindow, now: Instant)
    requires
        now.wf(),
        0 <= crate::time::window_days(w1, now) <= crate::time::window_days(w2, now) <= 366,
        counts_toward(op, w1, now),
    ensures
        counts_toward(op, w2, now),
{
}

} // verus!
