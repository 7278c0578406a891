//! Messages from the global module to the region modules, and the shared
//! transaction that batches table updates made by a shared reducer.
use vstd::prelude::*;

verus! {

/// Where an inter-module message goes.
#[derive(Clone, Copy, Debug, PartialEq, Eq, Structural)]
pub enum InterModuleDestination {
    Global,
    AllOtherRegions,
    GlobalAndAllOtherRegions,
    Region(u8),
}

/// The table updates collected by a shared reducer: `Inactive` outside a
/// shared reducer, `Uninitialized` inside one before its first update.
#[derive(Clone, Copy, Debug, PartialEq, Eq)]
pub enum InterModuleAccumulator<U> {
    Inactive,
    Uninitialized,
    Initialized(U),
}

/// What an outgoing message carries: a batch of table updates, or another message.
#[derive(Clone, Copy, Debug, PartialEq, Eq)]
pub enum Outgoing<U, M> {
    TableUpdate(U),
    Message(M),
}

/// A message for the module with id `to`.
#[derive(Clone, Copy, Debug, PartialEq, Eq)]
pub struct OutgoingMessage<U, M> {
    pub to: u8,
    pub contents: Outgoing<U, M>,
}

/// Work that a new shared transaction found still pending.
#[derive(Clone, Copy, Debug, PartialEq, Eq, Structural)]
pub enum PendingWork {
    /// Left by a shared reducer started in the same reducer call: a shared
    /// reducer called another one.
    NestedSharedReducer,
    /// Left by an earlier reducer call, most likely one that panicked.
    Abandoned,
}

/// What starting a shared transaction found pending and discarded.
#[derive(Clone, Copy, Debug, PartialEq, Eq)]
pub struct BeginReport {
    pub table_updates: Option<PendingWork>,
    pub delayed_messages: Option<PendingWork>,
}

/// The state of the module's shared transaction: the collected table
/// updates, the messages held back until the transaction is sent, and the
/// time (in microseconds) at which the transaction began (0 when none is open).
pub struct SharedTransactionAccumulator<U, M> {
    pub table_updates: InterModuleAccumulator<U>,
    pub delayed_messages: Vec<(M, InterModuleDestination)>,
    pub timestamp: i64,
}

/// The ids of all region modules, `1..=region_count`.
pub open spec fn all_regions(region_count: u8) -> Seq<u8> {
    Seq::new(region_count as nat, |i: int| (i + 1) as u8)
}

/// The region modules other than `current`, in id order.
pub open spec fn other_regions(current: u8, region_count: u8, n: nat) -> Seq<u8>
    decreases n,
{
    if n == 0 {
        seq![]
    } else {
        let prev = other_regions(current, region_count, (n - 1) as nat);
        if n as int == current as int {
            prev
        } else {
            prev.push(n as u8)
        }
    }
}

/// A message to `dst` can be delivered from the global module: it is not
/// addressed to the global module, and a region id names an existing region.
pub open spec fn deliverable(dst: InterModuleDestination, region_count: u8) -> bool {
    match dst {
        InterModuleDestination::Global => false,
        InterModuleDestination::GlobalAndAllOtherRegions => false,
        InterModuleDestination::AllOtherRegions => true,
        InterModuleDestination::Region(id) => 1 <= id <= region_count,
    }
}

/// The modules a message to `dst` is delivered to, in order.
pub open spec fn recipients(dst: InterModuleDestination, region_count: u8) -> Seq<u8> {
    match dst {
        InterModuleDestination::AllOtherRegions => all_regions(region_count),
        InterModuleDestination::Region(id) => seq![id],
        _ => seq![],
    }
}

/// The outgoing messages delivering message `m` (a clone of it each) to `to`.
pub open spec fn delivers<U, M: Clone>(sent: Seq<OutgoingMessage<U, M>>, to: Seq<u8>, m: M) -> bool {
    &&& sent.len() == to.len()
    &&& forall|j: int|
        0 <= j < sent.len() ==> (#[trigger] sent[j]).to == to[j] && (sent[j].contents matches Outgoing::Message(c) && cloned(m, c))
}

/// The recipients of the held-back messages, one after the other.
pub open spec fn delayed_recipients<M>(delayed: Seq<(M, InterModuleDestination)>, region_count: u8) -> Seq<u8>
    decreases delayed.len(),
{
    if delayed.len() == 0 {
        seq![]
    } else {
        recipients(delayed[0].1, region_count) + delayed_recipients(delayed.drop_first(), region_count)
    }
}

/// The held-back messages as they go out: each message once per recipient,
/// one after the other.
pub open spec fn delayed_payloads<M>(delayed: Seq<(M, InterModuleDestination)>, region_count: u8) -> Seq<M>
    decreases delayed.len(),
{
    if delayed.len() == 0 {
        seq![]
    } else {
        Seq::new(recipients(delayed[0].1, region_count).len(), |i: int| delayed[0].0) + delayed_payloads(
            delayed.drop_first(),
            region_count,
        )
    }
}

/// Every held-back message can be delivered.
pub open spec fn all_deliverable<M>(delayed: Seq<(M, InterModuleDestination)>, region_count: u8) -> bool {
    forall|i: int| 0 <= i < delayed.len() ==> deliverable(#[trigger] delayed[i].1, region_count)
}

/// One step of a shared reducer inside its transaction: a table update
/// (the callback's result) or a message held back until the transaction is sent.
pub enum SharedOp<U, M> {
    Update(U),
    Message(M, InterModuleDestination),
}

/// A shared transaction was opened at `now`: no update yet, nothing held back.
pub open spec fn opened_at<U, M>(acc: SharedTransactionAccumulator<U, M>, now: i64) -> bool {
    &&& acc.table_updates == InterModuleAccumulator::<U>::Uninitialized
    &&& acc.delayed_messages@.len() == 0
    &&& acc.timestamp == now
}

/// What one step does to the open transaction: an update replaces the
/// collected updates with its result; a message is appended to those held back.
pub open spec fn op_step<U, M>(
    before: SharedTransactionAccumulator<U, M>,
    after: SharedTransactionAccumulator<U, M>,
    op: SharedOp<U, M>,
) -> bool {
    &&& after.timestamp == before.timestamp
    &&& match op {
        SharedOp::Update(u) => {
            &&& after.table_updates == InterModuleAccumulator::Initialized(u)
            &&& after.delayed_messages@ == before.delayed_messages@
        },
        SharedOp::Message(m, d) => {
            &&& after.table_updates == before.table_updates
            &&& after.delayed_messages@ == before.delayed_messages@.push((m, d))
        },
    }
}

/// The updates collected after the steps: the last update's result, or
/// none yet.
pub open spec fn last_update<U, M>(ops: Seq<SharedOp<U, M>>) -> InterModuleAccumulator<U>
    decreases ops.len(),
{
    if ops.len() == 0 {
        InterModuleAccumulator::Uninitialized
    } else {
        match ops.last() {
            SharedOp::Update(u) => InterModuleAccumulator::Initialized(u),
            SharedOp::Message(_, _) => last_update(ops.drop_last()),
        }
    }
}

/// The messages of the steps, in call order.
pub open spec fn held_messages<U, M>(ops: Seq<SharedOp<U, M>>) -> Seq<(M, InterModuleDestination)>
    decreases ops.len(),
{
    if ops.len() == 0 {
        seq![]
    } else {
        match ops.last() {
            SharedOp::Update(_) => held_messages(ops.drop_last()),
            SharedOp::Message(m, d) => held_messages(ops.drop_last()).push((m, d)),
        }
    }
}

impl<U, M> SharedTransactionAccumulator<U, M> {
    /// No shared transaction open, nothing held back.
    pub fn new() -> (acc: Self)
        ensures
            acc.table_updates == InterModuleAccumulator::<U>::Inactive,
            acc.delayed_messages@.len() == 0,
            acc.timestamp == 0,
    {
        SharedTransactionAccumulator { table_updates: InterModuleAccumulator::Inactive, delayed_messages: Vec::new(), timestamp: 0 }
    }

    /// Opens a shared transaction at `now_micros`: table updates start
    /// uninitialized and held-back messages are discarded. Reports what was
    /// still pending, as left by a shared reducer of the same call (same
    /// timestamp) or by an earlier one.
    pub fn begin_shared_transaction(&mut self, now_micros: i64) -> (report: BeginReport)
        ensures
            opened_at(*final(self), now_micros),
            report.table_updates == if old(self).table_updates is Inactive {
                None::<PendingWork>
            } else if old(self).timestamp == now_micros {
                Some(PendingWork::NestedSharedReducer)
            } else {
                Some(PendingWork::Abandoned)
            },
            report.delayed_messages == if old(self).delayed_messages@.len() == 0 {
                None::<PendingWork>
            } else if old(self).timestamp == now_micros {
                Some(PendingWork::NestedSharedReducer)
            } else {
                Some(PendingWork::Abandoned)
            },
    {
        let same_call = self.timestamp == now_micros;
        let table_updates = match self.table_updates {
            InterModuleAccumulator::Inactive => None,
            _ => if same_call {
                Some(PendingWork::NestedSharedReducer)
            } else {
                Some(PendingWork::Abandoned)
            },
        };
        self.table_updates = InterModuleAccumulator::Uninitialized;
        let delayed_messages = if self.delayed_messages.len() > 0 {
            if same_call {
                Some(PendingWork::NestedSharedReducer)
            } else {
                Some(PendingWork::Abandoned)
            }
        } else {
            None
        };
        self.delayed_messages.clear();
        self.timestamp = now_micros;
        BeginReport { table_updates, delayed_messages }
    }
}

impl<U: Clone, M: Clone> SharedTransactionAccumulator<U, M> {
    /// Closes the shared transaction: the collected table updates (if any)
    /// go to every region module other than `region_index`, then the
    /// held-back messages are delivered in order. Afterwards no transaction
    /// is open and nothing is held back.
    pub fn send_shared_transaction(&mut self, region_index: u8, region_count: u8, outbox: &mut Vec<OutgoingMessage<U, M>>)
        requires
            all_deliverable(old(self).delayed_messages@, region_count),
        ensures
            final(self).table_updates == InterModuleAccumulator::<U>::Inactive,
            final(self).delayed_messages@.len() == 0,
            final(self).timestamp == 0,
            ({
                let update_recipients = match old(self).table_updates {
                    InterModuleAccumulator::Initialized(_) => other_regions(region_index, region_count, region_count as nat),
                    _ => seq![],
                };
                let sent = final(outbox)@.skip(old(outbox)@.len() as int);
                &&& final(outbox)@.len() == old(outbox)@.len() + update_recipients.len() + delayed_recipients(
                    old(self).delayed_messages@,
                    region_count,
                ).len()
                &&& final(outbox)@.take(old(outbox)@.len() as int) == old(outbox)@
                &&& forall|j: int|
                    0 <= j < update_recipients.len() ==> (#[trigger] sent[j]).to == update_recipients[j] && match old(
                        self,
                    ).table_updates {
                        InterModuleAccumulator::Initialized(a) => sent[j].contents matches Outgoing::TableUpdate(u)
                            && cloned(a, u),
                        _ => false,
                    }
                &&& forall|j: int|
                    0 <= j < delayed_recipients(old(self).delayed_messages@, region_count).len() ==> (#[trigger] sent[j
                        + update_recipients.len()]).to == delayed_recipients(old(self).delayed_messages@, region_count)[j]
                        && (sent[j + update_recipients.len()].contents matches Outgoing::Message(c) && cloned(
                        delayed_payloads(old(self).delayed_messages@, region_count)[j],
                        c,
                    ))
            }),
    {
        let ghost start = outbox@;
        let ghost old_delayed = self.delayed_messages@;
        let mut current = InterModuleAccumulator::Inactive;
        std::mem::swap(&mut current, &mut self.table_updates);
        let ghost current_before = current;
        let ghost update_recipients = match current {
            InterModuleAccumulator::Initialized(_) => other_regions(region_index, region_count, region_count as nat),
            _ => seq![],
        };
        if let InterModuleAccumulator::Initialized(a) = current {
            let mut i: u16 = 1;
            let ghost base = outbox@.len();
            while i <= region_count as u16
                invariant
                    1 <= i <= region_count as int + 1,
                    base == start.len(),
                    outbox@.take(base as int) == start,
                    outbox@.len() == base + other_regions(region_index, region_count, (i - 1) as nat).len(),
                    forall|j: int|
                        0 <= j < other_regions(region_index, region_count, (i - 1) as nat).len() ==> (#[trigger] outbox@[base
                            + j]).to == other_regions(region_index, region_count, (i - 1) as nat)[j] && (outbox@[base
                            + j].contents matches Outgoing::TableUpdate(u) && cloned(a, u)),
                decreases region_count as int + 1 - i,
            {
                let ghost before = outbox@;
                let region = i as u8;
                if region != region_index {
                    outbox.push(OutgoingMessage { to: region, contents: Outgoing::TableUpdate(a.clone()) });
                }
                proof {
                    assert(outbox@.take(base as int) =~= start);
                }
                i = i + 1;
            }
            proof {
                lemma_other_regions_len(region_index, region_count, region_count as nat);
            }
        }
        let ghost base = start.len();
        assert(forall|j: int|
            0 <= j < update_recipients.len() ==> (#[trigger] outbox@[base + j]).to == update_recipients[j] && match current_before {
                InterModuleAccumulator::Initialized(a) => outbox@[base + j].contents matches Outgoing::TableUpdate(u) && cloned(a, u),
                _ => false,
            });
        let ghost after_updates = outbox@;
        assert(after_updates.len() == start.len() + update_recipients.len());
        let mut delayed: Vec<(M, InterModuleDestination)> = Vec::new();
        std::mem::swap(&mut delayed, &mut self.delayed_messages);
        while delayed.len() > 0
            invariant
                self.table_updates == InterModuleAccumulator::<U>::Inactive,
                self.delayed_messages@.len() == 0,
                delayed@.len() <= old_delayed.len(),
                after_updates.len() <= outbox@.len(),
                all_deliverable(delayed@, region_count),
                outbox@.take(after_updates.len() as int) == after_updates,
                delayed_recipients(old_delayed, region_count) == delayed_recipients(
                    old_delayed.take(old_delayed.len() - delayed@.len()),
                    region_count,
                ) + delayed_recipients(delayed@, region_count),
                delayed@ == old_delayed.skip(old_delayed.len() - delayed@.len()),
                outbox@.len() == after_updates.len() + delayed_recipients(
                    old_delayed.take(old_delayed.len() - delayed@.len()),
                    region_count,
                ).len(),
                forall|j: int|
                    0 <= j < outbox@.len() - after_updates.len() ==> (#[trigger] outbox@[after_updates.len() + j]).to
                        == delayed_recipients(old_delayed.take(old_delayed.len() - delayed@.len()), region_count)[j]
                        && (outbox@[after_updates.len() + j].contents matches Outgoing::Message(c) && cloned(
                        delayed_payloads(old_delayed.take(old_delayed.len() - delayed@.len()), region_count)[j],
                        c,
                    )),
            decreases delayed@.len(),
        {
            let ghost before = outbox@;
            let ghost rest = delayed@;
            let (msg, dst) = delayed.remove(0);
            proof {
                assert(deliverable(rest[0].1, region_count));
            }
            send_inter_module_message(self, msg, dst, region_count, outbox);
            proof {
                lemma_prefix_elements(outbox@, before);
                let done = old_delayed.take(old_delayed.len() - rest.len());
                let done2 = old_delayed.take(old_delayed.len() - delayed@.len());
                assert(done2 =~= done.push(rest[0]));
                lemma_delayed_recipients_push(done, rest[0], region_count);
                assert(delayed@ =~= rest.drop_first());
                assert(delayed@ =~= old_delayed.skip(old_delayed.len() - delayed@.len()));
                assert(outbox@.take(after_updates.len() as int) =~= after_updates);
                lemma_delayed_payloads_push(done, rest[0], region_count);
                lemma_delayed_payloads_len(done, region_count);
                assert forall|j: int|
                    0 <= j < outbox@.len() - after_updates.len() implies (#[trigger] outbox@[after_updates.len() + j]).to
                        == delayed_recipients(done2, region_count)[j] && (outbox@[after_updates.len() + j].contents matches Outgoing::Message(
                        c,
                    ) && cloned(delayed_payloads(done2, region_count)[j], c)) by {
                    let d = delayed_recipients(done, region_count).len();
                    let r = recipients(rest[0].1, region_count);
                    assert(before.len() == after_updates.len() + d);
                    assert(delayed_recipients(done2, region_count) == delayed_recipients(done, region_count) + r);
                    if j < d {
                        assert(outbox@[after_updates.len() + j] == before[after_updates.len() + j]);
                        assert(delayed_recipients(done2, region_count)[j] == delayed_recipients(done, region_count)[j]);
                        assert(delayed_payloads(done2, region_count)[j] == delayed_payloads(done, region_count)[j]);
                    } else {
                        let sent = outbox@.skip(before.len() as int);
                        assert(sent[j - d] == outbox@[before.len() + (j - d)]);
                        assert(delayed_recipients(done2, region_count)[j] == r[j - d]);
                        assert(delayed_payloads(done2, region_count)[j] == rest[0].0);
                    }
                }
                assert(delayed_recipients(old_delayed, region_count) == delayed_recipients(done2, region_count)
                    + delayed_recipients(delayed@, region_count)) by {
                    lemma_delayed_recipients_split(old_delayed, old_delayed.len() - rest.len(), region_count);
                    lemma_delayed_recipients_split(old_delayed, old_delayed.len() - delayed@.len(), region_count);
                }
            }
        }
        proof {
            assert(old_delayed.take(old_delayed.len() as int) =~= old_delayed);
            assert(delayed_recipients(delayed@, region_count) =~= seq![]);
            assert(delayed_recipients(old_delayed, region_count) =~= delayed_recipients(old_delayed, region_count) + seq![]);
            assert(outbox@.take(start.len() as int) =~= start);
            let sent = outbox@.skip(start.len() as int);
            lemma_prefix_elements(outbox@, after_updates);
            assert forall|j: int| 0 <= j < update_recipients.len() implies (#[trigger] sent[j]).to == update_recipients[j]
                && match current_before {
                    InterModuleAccumulator::Initialized(a) => sent[j].contents matches Outgoing::TableUpdate(u) && cloned(a, u),
                    _ => false,
                } by {
                assert(sent[j] == outbox@[start.len() + j]);
                assert(outbox@[start.len() + j] == after_updates[start.len() + j]);
            }
            let dr = delayed_recipients(old_delayed, region_count);
            assert forall|j: int| 0 <= j < dr.len() implies (#[trigger] sent[j + update_recipients.len()]).to == dr[j]
                && (sent[j + update_recipients.len()].contents matches Outgoing::Message(c) && cloned(
                delayed_payloads(old_delayed, region_count)[j],
                c,
            )) by {
                assert(sent[j + update_recipients.len()] == outbox@[after_updates.len() + j]);
            }
        }
        self.timestamp = 0;
    }
}

proof fn lemma_prefix_elements<T>(s: Seq<T>, prefix: Seq<T>)
    requires
        prefix.len() <= s.len(),
        s.take(prefix.len() as int) == prefix,
    ensures
        forall|k: int| 0 <= k < prefix.len() ==> #[trigger] s[k] == prefix[k],
        forall|m: int| 0 <= m <= prefix.len() ==> #[trigger] s.take(m) == prefix.take(m),
{
    assert forall|k: int| 0 <= k < prefix.len() implies #[trigger] s[k] == prefix[k] by {
        assert(s.take(prefix.len() as int)[k] == s[k]);
    }
    assert forall|m: int| 0 <= m <= prefix.len() implies #[trigger] s.take(m) == prefix.take(m) by {
        assert(s.take(m) =~= prefix.take(m));
    }
}

proof fn lemma_other_regions_len(current: u8, region_count: u8, n: nat)
    ensures
        other_regions(current, region_count, n).len() <= n,
    decreases n,
{
    if n > 0 {
        lemma_other_regions_len(current, region_count, (n - 1) as nat);
    }
}

proof fn lemma_delayed_recipients_push<M>(done: Seq<(M, InterModuleDestination)>, next: (M, InterModuleDestination), region_count: u8)
    ensures
        delayed_recipients(done.push(next), region_count) == delayed_recipients(done, region_count) + recipients(
            next.1,
            region_count,
        ),
    decreases done.len(),
{
    if done.len() == 0 {
        assert(done.push(next).drop_first() =~= Seq::<(M, InterModuleDestination)>::empty());
        assert(delayed_recipients(Seq::<(M, InterModuleDestination)>::empty(), region_count) =~= seq![]);
    } else {
        lemma_delayed_recipients_push(done.drop_first(), next, region_count);
        assert(done.push(next).drop_first() =~= done.drop_first().push(next));
    }
}

proof fn lemma_delayed_recipients_split<M>(all: Seq<(M, InterModuleDestination)>, k: int, region_count: u8)
    requires
        0 <= k <= all.len(),
    ensures
        delayed_recipients(all, region_count) == delayed_recipients(all.take(k), region_count) + delayed_recipients(
            all.skip(k),
            region_count,
        ),
    decreases all.len(),
{
    if k == 0 {
        assert(all.take(0) =~= Seq::<(M, InterModuleDestination)>::empty());
        assert(all.skip(0) =~= all);
        assert(delayed_recipients(all.take(0), region_count) =~= seq![]);
    } else {
        lemma_delayed_recipients_split(all.drop_first(), k - 1, region_count);
        assert(all.take(k).drop_first() =~= all.drop_first().take(k - 1));
        assert(all.skip(k) =~= all.drop_first().skip(k - 1));
        assert(all.take(k)[0] == all[0]);
    }
}

proof fn lemma_delayed_payloads_len<M>(delayed: Seq<(M, InterModuleDestination)>, region_count: u8)
    ensures
        delayed_payloads(delayed, region_count).len() == delayed_recipients(delayed, region_count).len(),
    decreases delayed.len(),
{
    if delayed.len() > 0 {
        lemma_delayed_payloads_len(delayed.drop_first(), region_count);
    }
}

proof fn lemma_delayed_payloads_push<M>(done: Seq<(M, InterModuleDestination)>, next: (M, InterModuleDestination), region_count: u8)
    ensures
        delayed_payloads(done.push(next), region_count) == delayed_payloads(done, region_count) + Seq::new(
            recipients(next.1, region_count).len(),
            |i: int| next.0,
        ),
    decreases done.len(),
{
    if done.len() == 0 {
        assert(done.push(next).drop_first() =~= Seq::<(M, InterModuleDestination)>::empty());
        assert(delayed_payloads(Seq::<(M, InterModuleDestination)>::empty(), region_count) =~= seq![]);
        assert(delayed_payloads(done.push(next), region_count) =~= Seq::new(
            recipients(next.1, region_count).len(),
            |i: int| next.0,
        ));
    } else {
        lemma_delayed_payloads_push(done.drop_first(), next, region_count);
        assert(done.push(next).drop_first() =~= done.drop_first().push(next));
        assert(delayed_payloads(done.push(next), region_count) =~= delayed_payloads(done, region_count) + Seq::new(
            recipients(next.1, region_count).len(),
            |i: int| next.0,
        ));
    }
}

/// Why the global module refuses to record a table update.
#[derive(Clone, Copy, Debug, PartialEq, Eq, Structural)]
pub enum InterModuleError {
    /// The global module never sends table updates to itself.
    GlobalModuleSendsToItself,
}

impl InterModuleError {
    /// The message describing the error.
    pub fn message(&self) -> (text: &'static str)
        ensures
            text == match *self {
                InterModuleError::GlobalModuleSendsToItself => "Global module can't send messages to itself",
            },
    {
        match self {
            InterModuleError::GlobalModuleSendsToItself => "Global module can't send messages to itself",
        }
    }
}

/// Table updates meant for the global module: the global module never sends
/// table updates to itself, so this always fails and `callback` is not run.
pub fn add_global_table_update<U, F: FnOnce(U) -> U>(callback: F) -> (result: Result<(), InterModuleError>)
    ensures
        result == Err::<(), InterModuleError>(InterModuleError::GlobalModuleSendsToItself),
{
    Err(InterModuleError::GlobalModuleSendsToItself)
}

/// Records a table update of a shared reducer: the collected updates (or
/// `fresh`, an empty batch, before the first one) are passed through `callback`.
pub fn add_region_table_update<U, M, F: FnOnce(U) -> U>(acc: &mut SharedTransactionAccumulator<U, M>, fresh: U, callback: F)
    requires
        !(old(acc).table_updates is Inactive),
        match old(acc).table_updates {
            InterModuleAccumulator::Initialized(a) => callback.requires((a,)),
            _ => callback.requires((fresh,)),
        },
    ensures
        final(acc).delayed_messages@ == old(acc).delayed_messages@,
        final(acc).timestamp == old(acc).timestamp,
        final(acc).table_updates matches InterModuleAccumulator::Initialized(updated) && match old(acc).table_updates {
            InterModuleAccumulator::Initialized(a) => callback.ensures((a,), updated),
            _ => callback.ensures((fresh,), updated),
        },
        final(acc).table_updates matches InterModuleAccumulator::Initialized(updated) && op_step(
            *old(acc),
            *final(acc),
            SharedOp::<U, M>::Update(updated),
        ),
{
    let mut current = InterModuleAccumulator::Inactive;
    std::mem::swap(&mut current, &mut acc.table_updates);
    let base = match current {
        InterModuleAccumulator::Initialized(a) => a,
        _ => fresh,
    };
    acc.table_updates = InterModuleAccumulator::Initialized(callback(base));
}

/// Sends a message from the global module. Inside a shared transaction it is
/// held back until the transaction is sent; otherwise it goes out at once to
/// every region module (`AllOtherRegions`) or to the one region named.
pub fn send_inter_module_message<U, M: Clone>(
    acc: &mut SharedTransactionAccumulator<U, M>,
    contents: M,
    dst: InterModuleDestination,
    region_count: u8,
    outbox: &mut Vec<OutgoingMessage<U, M>>,
)
    requires
        old(acc).table_updates is Inactive ==> deliverable(dst, region_count),
    ensures
        final(acc).table_updates == old(acc).table_updates,
        final(acc).timestamp == old(acc).timestamp,
        !(old(acc).table_updates is Inactive) ==> {
            &&& final(acc).delayed_messages@ == old(acc).delayed_messages@.push((contents, dst))
            &&& final(outbox)@ == old(outbox)@
            &&& op_step(*old(acc), *final(acc), SharedOp::Message(contents, dst))
        },
        old(acc).table_updates is Inactive ==> {
            &&& final(acc).delayed_messages@ == old(acc).delayed_messages@
            &&& final(outbox)@.len() == old(outbox)@.len() + recipients(dst, region_count).len()
            &&& final(outbox)@.take(old(outbox)@.len() as int) == old(outbox)@
            &&& delivers(final(outbox)@.skip(old(outbox)@.len() as int), recipients(dst, region_count), contents)
        },
{
    let inactive = match acc.table_updates {
        InterModuleAccumulator::Inactive => true,
        _ => false,
    };
    if !inactive {
        acc.delayed_messages.push((contents, dst));
        return;
    }
    let ghost start = outbox@;
    match dst {
        InterModuleDestination::AllOtherRegions => {
            let mut i: u16 = 1;
            while i <= region_count as u16
                invariant
                    1 <= i <= region_count as int + 1,
                    outbox@.len() == start.len() + (i - 1),
                    outbox@.take(start.len() as int) == start,
                    delivers(outbox@.skip(start.len() as int), all_regions(region_count).take(i - 1), contents),
                decreases region_count as int + 1 - i,
            {
                let ghost before = outbox@;
                outbox.push(OutgoingMessage { to: i as u8, contents: Outgoing::Message(contents.clone()) });
                proof {
                    assert(outbox@.take(start.len() as int) =~= start);
                    assert(outbox@.skip(start.len() as int) =~= before.skip(start.len() as int).push(outbox@[before.len() as int]));
                    assert(all_regions(region_count).take(i as int) =~= all_regions(region_count).take(i - 1).push(i as u8));
                }
                i = i + 1;
            }
            proof {
                assert(all_regions(region_count).take(region_count as int) =~= all_regions(region_count));
            }
        },
        InterModuleDestination::Region(region_id) => {
            outbox.push(OutgoingMessage { to: region_id, contents: Outgoing::Message(contents) });
            proof {
                assert(outbox@.take(start.len() as int) =~= start);
                assert(outbox@.skip(start.len() as int) =~= seq![outbox@[start.len() as int]]);
            }
        },
        _ => {},
    }
}

// ---------------------------------------------------------------------------
// Laws
// ---------------------------------------------------------------------------

/// Table updates of a shared transaction go to every region module except
/// the current one, each exactly once, in id order.
pub proof fn law_table_updates_reach_every_other_region(current: u8, region_count: u8)
    ensures
        forall|r: u8|
            other_regions(current, region_count, region_count as nat).contains(r) <==> (1 <= r <= region_count && r
                != current),
        forall|i: int, j: int|
            0 <= i < j < other_regions(current, region_count, region_count as nat).len() ==> other_regions(
                current,
                region_count,
                region_count as nat,
            )[i] < other_regions(current, region_count, region_count as nat)[j],
{
    lemma_other_regions(current, region_count, region_count as nat);
}

proof fn lemma_other_regions(current: u8, region_count: u8, n: nat)
    requires
        n <= region_count,
    ensures
        forall|r: u8| other_regions(current, region_count, n).contains(r) <==> (1 <= r <= n && r != current),
        forall|i: int, j: int|
            0 <= i < j < other_regions(current, region_count, n).len() ==> other_regions(current, region_count, n)[i]
                < other_regions(current, region_count, n)[j],
        forall|i: int|
            0 <= i < other_regions(current, region_count, n).len() ==> 1 <= #[trigger] other_regions(current, region_count, n)[i] <= n,
    decreases n,
{
    if n > 0 {
        lemma_other_regions(current, region_count, (n - 1) as nat);
        let prev = other_regions(current, region_count, (n - 1) as nat);
        let cur = other_regions(current, region_count, n);
        assert forall|r: u8| cur.contains(r) <==> (1 <= r <= n && r != current) by {
            if cur.contains(r) {
                let k = choose|k: int| 0 <= k < cur.len() && cur[k] == r;
                if k < prev.len() {
                    assert(prev.contains(r));
                }
            }
            if 1 <= r <= n && r != current {
                if r < n {
                    assert(prev.contains(r));
                    let k = choose|k: int| 0 <= k < prev.len() && prev[k] == r;
                    assert(cur[k] == r);
                } else {
                    assert(cur[cur.len() - 1] == r);
                }
            }
        }
    }
}

/// A message to all regions reaches every region module once, in id order.
pub proof fn law_broadcast_reaches_every_region(region_count: u8)
    ensures
        recipients(InterModuleDestination::AllOtherRegions, region_count).len() == region_count,
        forall|i: int|
            0 <= i < region_count ==> #[trigger] recipients(InterModuleDestination::AllOtherRegions, region_count)[i] == i + 1,
{
}

/// A shared reducer's transaction: once it is opened at `now`, any run of
/// table updates and messages leaves the transaction holding the last
/// update's result (none when there was no update), the messages in call
/// order, and the opening time; `send_shared_transaction` then sends those
/// updates to every other region and the messages after them, in that order.
pub proof fn law_shared_transaction_collects_in_order<U, M>(
    steps: Seq<SharedTransactionAccumulator<U, M>>,
    ops: Seq<SharedOp<U, M>>,
    now: i64,
)
    requires
        steps.len() == ops.len() + 1,
        opened_at(steps[0], now),
        forall|i: int| 0 <= i < ops.len() ==> op_step(#[trigger] steps[i], steps[i + 1], ops[i]),
    ensures
        steps.last().table_updates == last_update(ops),
        steps.last().delayed_messages@ == held_messages(ops),
        steps.last().timestamp == now,
    decreases ops.len(),
{
    if ops.len() > 0 {
        let n = ops.len() - 1;
        let fewer = steps.drop_last();
        assert forall|i: int| 0 <= i < ops.drop_last().len() implies op_step(
            #[trigger] fewer[i],
            fewer[i + 1],
            ops.drop_last()[i],
        ) by {
            assert(op_step(steps[i], steps[i + 1], ops[i]));
        }
        law_shared_transaction_collects_in_order(fewer, ops.drop_last(), now);
        assert(op_step(steps[n], steps[n + 1], ops[n]));
        assert(fewer.last() == steps[n]);
    } else {
        assert(held_messages(ops) =~= steps[0].delayed_messages@);
    }
}

} // verus!
