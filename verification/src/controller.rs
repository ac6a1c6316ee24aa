//! The transfer controller: the public operation surface of the engine.
//!
//! A plain transfer is fully synchronous. A notify transfer spans two
//! executions: `transfer_call` (dispatch) moves the value optimistically and
//! hands the host everything needed to place the remote notify call, and
//! `resolve_transfer` (the callback) reconciles the ledger against the
//! host-reported outcome of that call. Between the two executions the ledger
//! is fully live; resolution therefore re-checks the receiver's balance
//! instead of assuming the credit is still there.

use vstd::prelude::*;

use crate::account::AccountId;
use crate::codec::decode_amount;
use crate::codec::decoded_amount;
use crate::error::TransferError;
use crate::hooks::Hooks;
use crate::hooks::TransferRecord;
use crate::hooks::TransferRecordView;
use crate::ledger::Ledger;

verus! {

/// The execution budget reserved for the resolve callback of every notify
/// transfer: resolution is the only place reconciliation happens, so it must
/// always have enough budget to run to completion.
pub const RESOLUTION_BUDGET: u64 = 5_000_000_000_000;

/// One observable step of the controller. The controller keeps a ghost trace
/// of these so that ordering — the hooks around the ledger mutations — is
/// part of its contracts.
pub enum TraceStep {
    /// The before-hook ran.
    HookBefore { transfer: TransferRecordView },
    /// An account was debited.
    Debit { account: Seq<u8>, amount: u128 },
    /// An account was credited.
    Credit { account: Seq<u8>, amount: u128 },
    /// The after-hook ran.
    HookAfter { transfer: TransferRecordView },
    /// The remote notify call was handed to the host.
    NotifyDispatched { transfer: TransferRecordView },
}

/// The observable steps of a completed plain transfer: the before-hook, the
/// debit, the credit, then the after-hook.
pub open spec fn plain_transfer_steps(t: TransferRecordView) -> Seq<TraceStep> {
    seq![
        TraceStep::HookBefore { transfer: t },
        TraceStep::Debit { account: t.sender, amount: t.amount },
        TraceStep::Credit { account: t.receiver, amount: t.amount },
        TraceStep::HookAfter { transfer: t },
    ]
}

/// The observable steps of a notify dispatch: as in a plain transfer, but the
/// after-hook is deferred until resolution, and the dispatch itself is last.
pub open spec fn dispatch_steps(t: TransferRecordView) -> Seq<TraceStep> {
    seq![
        TraceStep::HookBefore { transfer: t },
        TraceStep::Debit { account: t.sender, amount: t.amount },
        TraceStep::Credit { account: t.receiver, amount: t.amount },
        TraceStep::NotifyDispatched { transfer: t },
    ]
}

/// The observable steps of a resolution: the reversal (only when a refund is
/// actually honoured), then the deferred after-hook.
pub open spec fn resolution_steps(t: TransferRecordView, refund: u128) -> Seq<TraceStep> {
    if refund > 0 {
        seq![
            TraceStep::Debit { account: t.receiver, amount: refund },
            TraceStep::Credit { account: t.sender, amount: refund },
            TraceStep::HookAfter { transfer: t },
        ]
    } else {
        seq![TraceStep::HookAfter { transfer: t }]
    }
}

/// Law: within the steps of one plain transfer, the before-hook precedes both
/// ledger mutations, and the after-hook follows them.
pub proof fn lemma_plain_transfer_hook_ordering(t: TransferRecordView)
    ensures
        plain_transfer_steps(t).len() == 4,
        plain_transfer_steps(t)[0] is HookBefore,
        plain_transfer_steps(t)[1] is Debit,
        plain_transfer_steps(t)[2] is Credit,
        plain_transfer_steps(t)[3] is HookAfter,
{
}

/// The continuation of a dispatched notify transfer. Created exactly once by
/// `transfer_call`, carried by the host across the suspension, and consumed
/// exactly once by `resolve_transfer`. If the host never resolves it, the
/// optimistic credit is simply retained by the receiver.
pub struct InFlightTransfer<S> {
    /// The transfer as dispatched.
    pub record: TransferRecord,
    /// The state produced by the before-hook, awaiting the after-hook.
    pub hook_state: S,
}

impl<S> InFlightTransfer<S> {
    /// What dispatch guarantees of every continuation it creates.
    pub open spec fn wf(&self) -> bool {
        &&& self.record.sender@ != self.record.receiver@
        &&& self.record.amount > 0
        &&& self.record.msg is Some
    }
}

/// Everything the host needs to place the remote notify call and later hand
/// the resolve callback its continuation.
pub struct NotifyDispatch<S> {
    /// The in-flight transfer to hand back at resolution.
    pub in_flight: InFlightTransfer<S>,
    /// The execution budget for the remote notify call.
    pub notify_budget: u64,
    /// The execution budget reserved for the resolve callback.
    pub resolve_budget: u64,
}

/// The host-reported outcome of a remote notify call.
pub enum NotifyOutcome {
    /// The notify call panicked, reverted, or could not be delivered.
    Failed,
    /// The notify call returned the given bytes.
    Succeeded(Vec<u8>),
}

/// The amount the receiver claims to have kept: zero when the notify call
/// failed, the decoded reply when it succeeded, and zero again when the
/// reply is malformed (fail closed: an ambiguous response is never trusted
/// as "used everything").
pub open spec fn claimed_amount(outcome: NotifyOutcome) -> u128 {
    match outcome {
        NotifyOutcome::Failed => 0,
        NotifyOutcome::Succeeded(bytes) => match decoded_amount(bytes@) {
            Some(n) => n,
            None => 0,
        },
    }
}

/// The claim clamped to the amount actually sent: a receiver cannot claim to
/// have used more than it received.
pub open spec fn used_amount(outcome: NotifyOutcome, amount: u128) -> u128 {
    if claimed_amount(outcome) > amount {
        amount
    } else {
        claimed_amount(outcome)
    }
}

/// The refund the protocol owes: what was sent minus what was used.
pub open spec fn refund_due(outcome: NotifyOutcome, amount: u128) -> u128 {
    (amount - used_amount(outcome, amount)) as u128
}

/// The refund the ledger can honour: capped by what remains of the
/// receiver's balance at resolution time; the shortfall is forfeited.
pub open spec fn actual_refund(outcome: NotifyOutcome, amount: u128, receiver_balance: u128) -> u128 {
    if refund_due(outcome, amount) > receiver_balance {
        receiver_balance
    } else {
        refund_due(outcome, amount)
    }
}

/// Law (full use): when the receiver's clamped claim equals the amount sent,
/// resolution owes no refund — the optimistic credit stands and no reversal
/// occurs, whatever the receiver's balance is by then.
pub proof fn lemma_full_use_no_reversal(outcome: NotifyOutcome, amount: u128, receiver_balance: u128)
    requires
        used_amount(outcome, amount) == amount,
    ensures
        actual_refund(outcome, amount, receiver_balance) == 0,
{
}

/// Law (failed notify): when the notify call fails, nothing counts as used —
/// whatever the receiver would have claimed — and the full amount is owed
/// back, honoured up to what remains of the receiver's balance.
pub proof fn lemma_failed_notify_full_refund(amount: u128, receiver_balance: u128)
    ensures
        used_amount(NotifyOutcome::Failed, amount) == 0,
        refund_due(NotifyOutcome::Failed, amount) == amount,
        actual_refund(NotifyOutcome::Failed, amount, receiver_balance) == if amount
            > receiver_balance {
            receiver_balance
        } else {
            amount
        },
{
}

/// Law (overclaim clamp): a claim exceeding the amount sent behaves exactly
/// as a claim of the amount sent — no refund, and no error arises from the
/// excess.
pub proof fn lemma_overclaim_clamped(outcome: NotifyOutcome, amount: u128, receiver_balance: u128)
    requires
        claimed_amount(outcome) >= amount,
    ensures
        used_amount(outcome, amount) == amount,
        refund_due(outcome, amount) == 0,
        actual_refund(outcome, amount, receiver_balance) == 0,
{
}

/// The structured record of one completed plain transfer, handed back to the
/// caller for emission through the host's event log.
pub struct TransferEvent {
    /// The account debited.
    pub sender: AccountId,
    /// The account credited.
    pub receiver: AccountId,
    /// The amount moved.
    pub amount: u128,
    /// The optional note.
    pub memo: Option<String>,
}

/// The resolved outcome of a notify transfer: what the resolve callback
/// reports to the host and records in the resolution event.
pub struct Resolution {
    /// The account originally debited.
    pub sender: AccountId,
    /// The account originally credited.
    pub receiver: AccountId,
    /// The amount originally moved.
    pub amount: u128,
    /// The receiver's claim, clamped to the amount sent.
    pub used_amount: u128,
    /// The part of the refund the ledger could honour.
    pub actual_refund: u128,
}

/// The public operation surface: plain transfers, notify transfers with
/// their resolution, and the balance and supply queries.
pub struct TransferController<H: Hooks> {
    ledger: Ledger,
    hooks: H,
    self_id: AccountId,
    log: Ghost<Seq<TraceStep>>,
}

impl<H: Hooks> TransferController<H> {
    /// The ledger component.
    pub closed spec fn model(&self) -> Ledger {
        self.ledger
    }

    /// The controller's own account: the only account allowed to invoke the
    /// resolve callback.
    pub closed spec fn controller_id(&self) -> Seq<u8> {
        self.self_id@
    }

    /// The ghost trace of observable steps.
    pub closed spec fn trace(&self) -> Seq<TraceStep> {
        self.log@
    }

    /// Well-formedness of the controller: its ledger is well-formed.
    pub open spec fn wf(&self) -> bool {
        self.model().wf()
    }

    /// The balance of `account` in the underlying ledger.
    pub open spec fn balance(&self, account: Seq<u8>) -> u128 {
        self.model().balance(account)
    }

    /// The total supply of the underlying ledger.
    pub open spec fn supply(&self) -> u128 {
        self.model().supply()
    }

    /// A controller over the given ledger and hook pair, running as account
    /// `self_id`.
    pub fn new(ledger: Ledger, hooks: H, self_id: AccountId) -> (r: TransferController<H>)
        requires
            ledger.wf(),
        ensures
            r.wf(),
            r.model() == ledger,
            r.controller_id() == self_id@,
            r.trace() == Seq::<TraceStep>::empty(),
    {
        TransferController { ledger, hooks, self_id, log: Ghost(Seq::empty()) }
    }

    /// The balance of `account`; zero for an absent account. Never fails.
    pub fn balance_of(&self, account: &AccountId) -> (r: u128)
        requires
            self.wf(),
        ensures
            r == self.balance(account@),
    {
        self.ledger.balance_of(account)
    }

    /// The total supply. Never fails.
    pub fn total_supply(&self) -> (r: u128)
        ensures
            r == self.supply(),
    {
        self.ledger.total_supply()
    }

    /// A plain, fully synchronous transfer of `amount` from `sender` to
    /// `receiver`. Validation comes first; then the before-hook, which may
    /// veto by returning an error of its choosing; then the debit and the
    /// credit as one unit; then the after-hook. On any failure the ledger is
    /// exactly as it was.
    pub fn transfer(
        &mut self,
        sender: &AccountId,
        receiver: &AccountId,
        amount: u128,
        memo: Option<String>,
    ) -> (r: Result<TransferEvent, TransferError>)
        requires
            old(self).wf(),
        ensures
            final(self).wf(),
            final(self).controller_id() == old(self).controller_id(),
            // validation precedes everything, including the hooks
            sender@ == receiver@ ==> r == Err::<TransferEvent, TransferError>(
                TransferError::InvalidReceiver,
            ),
            sender@ != receiver@ && amount == 0 ==> r == Err::<TransferEvent, TransferError>(
                TransferError::InvalidAmount,
            ),
            // a transfer exceeding the sender's balance can never succeed
            amount > old(self).balance(sender@) ==> r is Err,
            // atomicity: a failed transfer leaves the ledger untouched and
            // records no ledger step in the trace
            r is Err ==> final(self).model() == old(self).model() && (final(self).trace() == old(
                self,
            ).trace() || final(self).trace() == old(self).trace().push(
                TraceStep::HookBefore {
                    transfer: (TransferRecordView {
                        sender: sender@,
                        receiver: receiver@,
                        amount: amount,
                        memo: memo.deep_view(),
                        msg: None,
                    }),
                },
            )),
            // conservation: the sender loses exactly `amount`, the receiver
            // gains exactly `amount`, nobody else moves, the supply holds
            r is Ok ==> {
                &&& sender@ != receiver@
                &&& 0 < amount <= old(self).balance(sender@)
                &&& final(self).balance(sender@) == old(self).balance(sender@) - amount
                &&& final(self).balance(receiver@) == old(self).balance(receiver@) + amount
                &&& (forall|a: Seq<u8>|
                    a != sender@ && a != receiver@ ==> final(self).balance(a) == old(self).balance(
                        a,
                    ))
                &&& final(self).supply() == old(self).supply()
            },
            // the event describes exactly this transfer
            r matches Ok(ev) ==> ev.sender@ == sender@ && ev.receiver@ == receiver@ && ev.amount
                == amount && ev.memo.deep_view() == memo.deep_view(),
            // hook ordering: on success the trace extends with the
            // before-hook, the debit, the credit, and the after-hook, in
            // that order
            r is Ok ==> final(self).trace() == old(self).trace() + plain_transfer_steps(
                (TransferRecordView {
                    sender: sender@,
                    receiver: receiver@,
                    amount: amount,
                    memo: memo.deep_view(),
                    msg: None,
                }),
            ),
    {
        if sender.is_same(receiver) {
            return Err(TransferError::InvalidReceiver);
        }
        if amount == 0 {
            return Err(TransferError::InvalidAmount);
        }
        let record = TransferRecord {
            sender: sender.duplicate(),
            receiver: receiver.duplicate(),
            amount,
            memo,
            msg: None,
        };
        self.log = Ghost(self.log@.push(TraceStep::HookBefore { transfer: record@ }));
        let state = match self.hooks.before_transfer(&record) {
            Ok(s) => s,
            Err(e) => {
                return Err(e);
            },
        };
        match self.ledger.apply_transfer(sender, receiver, amount) {
            Ok(()) => {},
            Err(e) => {
                return Err(e);
            },
        }
        self.log = Ghost(
            self.log@ + seq![
                TraceStep::Debit { account: sender@, amount },
                TraceStep::Credit { account: receiver@, amount },
            ],
        );
        self.hooks.after_transfer(&record, state);
        self.log = Ghost(self.log@.push(TraceStep::HookAfter { transfer: record@ }));
        proof {
            assert(final(self).trace() =~= old(self).trace() + plain_transfer_steps(record@));
        }
        let TransferRecord { sender: ev_sender, receiver: ev_receiver, amount: ev_amount, memo: ev_memo, msg: _ } =
            record;
        Ok(TransferEvent { sender: ev_sender, receiver: ev_receiver, amount: ev_amount, memo: ev_memo })
    }

    /// Dispatch of a notify transfer. The value moves immediately — the
    /// receiver's balance is credited optimistically, before its
    /// acknowledgment is known — and the returned dispatch tells the host
    /// what to send, with the caller-supplied execution budget partitioned so
    /// that resolution always keeps its reserved share. The after-hook does
    /// not run here: its state travels in the continuation until resolution.
    pub fn transfer_call(
        &mut self,
        sender: &AccountId,
        receiver: &AccountId,
        amount: u128,
        memo: Option<String>,
        msg: String,
        budget: u64,
    ) -> (r: Result<NotifyDispatch<H::State>, TransferError>)
        requires
            old(self).wf(),
            budget >= RESOLUTION_BUDGET,
        ensures
            final(self).wf(),
            final(self).controller_id() == old(self).controller_id(),
            // validation precedes everything, including the hooks
            sender@ == receiver@ ==> (r matches Err(e) && e == TransferError::InvalidReceiver),
            sender@ != receiver@ && amount == 0 ==> (r matches Err(e) && e
                == TransferError::InvalidAmount),
            // a dispatch exceeding the sender's balance can never succeed
            amount > old(self).balance(sender@) ==> r is Err,
            // atomicity: a failed dispatch leaves the ledger untouched and
            // records no ledger step in the trace
            r is Err ==> final(self).model() == old(self).model() && (final(self).trace() == old(
                self,
            ).trace() || final(self).trace() == old(self).trace().push(
                TraceStep::HookBefore {
                    transfer: (TransferRecordView {
                        sender: sender@,
                        receiver: receiver@,
                        amount: amount,
                        memo: memo.deep_view(),
                        msg: Some(msg@),
                    }),
                },
            )),
            // the optimistic move is already applied at dispatch time
            r is Ok ==> {
                &&& sender@ != receiver@
                &&& 0 < amount <= old(self).balance(sender@)
                &&& final(self).balance(sender@) == old(self).balance(sender@) - amount
                &&& final(self).balance(receiver@) == old(self).balance(receiver@) + amount
                &&& (forall|a: Seq<u8>|
                    a != sender@ && a != receiver@ ==> final(self).balance(a) == old(self).balance(
                        a,
                    ))
                &&& final(self).supply() == old(self).supply()
            },
            // the continuation describes exactly this transfer, and the
            // budget partition reserves the fixed share for resolution
            r matches Ok(d) ==> {
                &&& d.in_flight.record@ == (TransferRecordView {
                    sender: sender@,
                    receiver: receiver@,
                    amount: amount,
                    memo: memo.deep_view(),
                    msg: Some(msg@),
                })
                &&& d.in_flight.wf()
                &&& d.notify_budget == budget - RESOLUTION_BUDGET
                &&& d.resolve_budget == RESOLUTION_BUDGET
            },
            // on success the trace extends with the before-hook, the debit,
            // the credit, and the dispatch; the after-hook is deferred
            r is Ok ==> final(self).trace() == old(self).trace() + dispatch_steps(
                (TransferRecordView {
                    sender: sender@,
                    receiver: receiver@,
                    amount: amount,
                    memo: memo.deep_view(),
                    msg: Some(msg@),
                }),
            ),
    {
        if sender.is_same(receiver) {
            return Err(TransferError::InvalidReceiver);
        }
        if amount == 0 {
            return Err(TransferError::InvalidAmount);
        }
        let record = TransferRecord {
            sender: sender.duplicate(),
            receiver: receiver.duplicate(),
            amount,
            memo,
            msg: Some(msg),
        };
        self.log = Ghost(self.log@.push(TraceStep::HookBefore { transfer: record@ }));
        let state = match self.hooks.before_transfer(&record) {
            Ok(s) => s,
            Err(e) => {
                return Err(e);
            },
        };
        match self.ledger.apply_transfer(sender, receiver, amount) {
            Ok(()) => {},
            Err(e) => {
                return Err(e);
            },
        }
        self.log = Ghost(
            self.log@ + seq![
                TraceStep::Debit { account: sender@, amount },
                TraceStep::Credit { account: receiver@, amount },
                TraceStep::NotifyDispatched { transfer: record@ },
            ],
        );
        proof {
            assert(final(self).trace() =~= old(self).trace() + dispatch_steps(record@));
        }
        Ok(
            NotifyDispatch {
                in_flight: InFlightTransfer { record, hook_state: state },
                notify_budget: budget - RESOLUTION_BUDGET,
                resolve_budget: RESOLUTION_BUDGET,
            },
        )
    }

    /// Resolution of a notify transfer: the callback the host runs once the
    /// remote notify call has completed. Only the controller's own account
    /// may invoke it; any other caller gets `Unauthorized` and mutates
    /// nothing. An authorized resolution always succeeds: the receiver's
    /// claim is clamped to the amount sent, a malformed or failed reply
    /// counts as nothing used, and the refund is capped by what remains of
    /// the receiver's balance — the shortfall is forfeited rather than
    /// failing resolution. The deferred after-hook runs here.
    pub fn resolve_transfer(
        &mut self,
        caller: &AccountId,
        in_flight: InFlightTransfer<H::State>,
        outcome: NotifyOutcome,
    ) -> (r: Result<Resolution, TransferError>)
        requires
            old(self).wf(),
            in_flight.wf(),
        ensures
            final(self).wf(),
            final(self).controller_id() == old(self).controller_id(),
            // the callback is private to the controller's own account
            r is Err <==> caller@ != old(self).controller_id(),
            r matches Err(e) ==> e == TransferError::Unauthorized && *final(self) == *old(self),
            // an authorized resolution reverses exactly the honoured refund
            // and conserves the supply; it never fails
            r matches Ok(res) ==> {
                &&& res.used_amount == used_amount(outcome, in_flight.record.amount)
                &&& res.actual_refund == actual_refund(
                    outcome,
                    in_flight.record.amount,
                    old(self).balance(in_flight.record.receiver@),
                )
                &&& res.sender@ == in_flight.record.sender@
                &&& res.receiver@ == in_flight.record.receiver@
                &&& res.amount == in_flight.record.amount
                &&& final(self).balance(in_flight.record.receiver@) == old(self).balance(
                    in_flight.record.receiver@,
                ) - res.actual_refund
                &&& final(self).balance(in_flight.record.sender@) == old(self).balance(
                    in_flight.record.sender@,
                ) + res.actual_refund
                &&& (forall|a: Seq<u8>|
                    a != in_flight.record.sender@ && a != in_flight.record.receiver@
                        ==> final(self).balance(a) == old(self).balance(a))
                &&& final(self).supply() == old(self).supply()
                &&& final(self).trace() == old(self).trace() + resolution_steps(
                    in_flight.record@,
                    res.actual_refund,
                )
            },
    {
        if !caller.is_same(&self.self_id) {
            return Err(TransferError::Unauthorized);
        }
        let InFlightTransfer { record, hook_state } = in_flight;
        let amount = record.amount;
        let claimed: u128 = match &outcome {
            NotifyOutcome::Failed => 0,
            NotifyOutcome::Succeeded(bytes) => match decode_amount(bytes) {
                Some(n) => n,
                None => 0,
            },
        };
        let used = if claimed > amount {
            amount
        } else {
            claimed
        };
        let refund = amount - used;
        let receiver_balance = self.ledger.balance_of(&record.receiver);
        let honoured = if refund > receiver_balance {
            receiver_balance
        } else {
            refund
        };
        if honoured > 0 {
            let debited = self.ledger.decrease_balance(&record.receiver, honoured);
            proof {
                assert(debited is Ok);
            }
            // the reversal returns supply the debit just released, so the
            // credit cannot overflow
            let credited = self.ledger.increase_balance(&record.sender, honoured);
            proof {
                assert(credited is Ok);
            }
            self.log = Ghost(
                self.log@ + seq![
                    TraceStep::Debit { account: record.receiver@, amount: honoured },
                    TraceStep::Credit { account: record.sender@, amount: honoured },
                ],
            );
        }
        self.hooks.after_transfer(&record, hook_state);
        self.log = Ghost(self.log@.push(TraceStep::HookAfter { transfer: record@ }));
        proof {
            assert(final(self).trace() =~= old(self).trace() + resolution_steps(
                record@,
                honoured,
            ));
        }
        let TransferRecord { sender: res_sender, receiver: res_receiver, amount: _, memo: _, msg: _ } =
            record;
        Ok(
            Resolution {
                sender: res_sender,
                receiver: res_receiver,
                amount,
                used_amount: used,
                actual_refund: honoured,
            },
        )
    }
}

} // verus!
