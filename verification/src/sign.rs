//! From an inspected transaction to a signed one.
//!
//! A transaction is held against the policy and the ledger, signed, and recorded, in that order: a
//! signature that fails uses up nothing, and what is given out is recorded. Nothing is ever
//! finalized or sent to the network.
//!
//! A spend that is asked for is not signed at once. It is queued, its owner is told, and it is
//! signed once its hold has passed and the policy, asked again, still allows it.

use vstd::prelude::*;
use vstd::string::*;

use crate::config::{ChainNetwork, WalletConfig};
use crate::descriptor::BuiltDescriptor;
use crate::inspect::{
    inspect_error_text, InspectError, InspectionReport, OutputKind, OutputReport, SpendingPath,
};
use crate::keys::{address_of_script, script_address};
use crate::ledger::{
    adds_spend, changed, is_due, is_fresh, pending_of, settled, spend_of, Ledger,
    PendingEntry, PendingStatus, RollingTotals, Tables,
};
use crate::policy::{
    destination_sum, destination_total_sat, evaluate_policy, lemma_destination_sum_grows,
    violation_text, violations, CompiledPolicy, PolicyDecision, PolicyViolation,
};
use crate::psbt::{Psbt, TxOut};
use crate::signing::{
    is_signed, sign_error, sign_hot_inputs, signing_error_text, ServerSigningKey, SigningError,
};
use crate::text::{join, joined};

verus! {

/// Why a transaction is not signed.
#[derive(Debug)]
pub enum SignPsbtError {
    /// The transaction is not one that the hardware and the server key sign at once.
    NotHotPath,
    Signing(SigningError),
    /// The policy has something against it.
    Denied(Vec<PolicyViolation>),
}

/// Whether signing wrote to the ledger.
#[derive(Clone, Copy, Debug, PartialEq, Eq, Structural)]
pub enum LedgerOutcome {
    /// The spend is recorded now.
    Recorded,
    /// The spend was recorded before: it is signed again, neither held against the policy nor
    /// recorded a second time.
    AlreadyRecorded,
}

/// A signed transaction.
#[derive(Debug)]
pub struct SignPsbtResult {
    pub psbt: Psbt,
    pub report: InspectionReport,
    pub ledger: LedgerOutcome,
}

/// The totals of a ledger as the policy reads them.
pub open spec fn rolling_of(tables: Tables, now: int) -> RollingTotals {
    RollingTotals {
        day_sat: tables.totals(now).0 as u64,
        week_sat: tables.totals(now).1 as u64,
        month_sat: tables.totals(now).2 as u64,
    }
}

/// Whether the month's total, with what the transaction sends, fits in 64 bits.
pub open spec fn totals_fit(tables: Tables, report: InspectionReport, now: int) -> bool {
    tables.totals(now).2 + destination_sum(report.outputs@) <= u64::MAX
}

/// Whether the amounts that a decision on the transaction adds up fit in 64 bits.
pub fn amounts_fit(ledger: &Ledger, report: &InspectionReport, now: i64) -> (r: bool)
    ensures
        r == totals_fit(ledger@, *report, now as int),
{
    proof {
        crate::ledger::law_longer_windows_hold_more(ledger@.spends, now as int);
    }
    let mut sum: u64 = match ledger.checked_rolling_totals(now) {
        Some(totals) => totals.month_sat,
        None => {
            return false;
        },
    };
    let outputs = &report.outputs;
    let mut i: usize = 0;
    while i < outputs.len()
        invariant
            i <= outputs.len(),
            outputs == report.outputs,
            sum == ledger@.totals(now as int).2 + destination_sum(outputs@.take(i as int)),
        decreases outputs.len() - i,
    {
        proof {
            lemma_destination_sum_grows(outputs@, i + 1);
            assert(outputs@.take(i + 1).drop_last() =~= outputs@.take(i as int));
        }
        if outputs[i].kind == OutputKind::Destination {
            sum = match sum.checked_add(outputs[i].amount) {
                Some(n) => n,
                None => {
                    return false;
                },
            };
        }
        i = i + 1;
    }
    assert(outputs@.take(i as int) =~= outputs@);
    true
}

/// The addresses that a transaction pays outside the wallet, in the order of its outputs.
pub open spec fn destinations_of(outputs: Seq<OutputReport>) -> Seq<Seq<char>>
    decreases outputs.len(),
{
    if outputs.len() == 0 {
        Seq::empty()
    } else {
        let before = destinations_of(outputs.drop_last());
        match outputs.last().address {
            Some(a) if outputs.last().kind == OutputKind::Destination => before.push(a@),
            _ => before,
        }
    }
}

/// The addresses that the owner is told of: those that a transaction pays outside the wallet. An
/// output whose script has no address is not among them.
pub fn destinations(report: &InspectionReport) -> (r: Vec<String>)
    ensures
        r.deep_view() == destinations_of(report.outputs@),
{
    let outputs = &report.outputs;
    let mut found: Vec<String> = Vec::new();
    let mut i: usize = 0;
    assert(found.deep_view() =~= destinations_of(outputs@.take(0)));
    while i < outputs.len()
        invariant
            i <= outputs.len(),
            outputs == report.outputs,
            found.deep_view() == destinations_of(outputs@.take(i as int)),
        decreases outputs.len() - i,
    {
        let ghost before = found.deep_view();
        assert(outputs@.take(i + 1).drop_last() =~= outputs@.take(i as int));
        if outputs[i].kind == OutputKind::Destination {
            if let Some(a) = &outputs[i].address {
                found.push(a.clone());
                assert(found.deep_view() =~= before.push(a@));
            }
        }
        i = i + 1;
    }
    assert(outputs@.take(i as int) =~= outputs@);
    found
}

/// The addresses of some outputs on a network, in their order, of those that have one.
pub open spec fn addresses_of(outputs: Seq<TxOut>, network: ChainNetwork) -> Seq<Seq<char>>
    decreases outputs.len(),
{
    if outputs.len() == 0 {
        Seq::empty()
    } else {
        let before = addresses_of(outputs.drop_last(), network);
        match script_address(outputs.last().script_pubkey@, network) {
            Some(a) => before.push(a),
            None => before,
        }
    }
}

/// The addresses that a transaction pays, the wallet's own among them: what the owner is reminded
/// of while the transaction is not inspected anew.
pub fn addresses_paid(psbt: &Psbt, network: ChainNetwork) -> (r: Vec<String>)
    ensures
        r.deep_view() == addresses_of(psbt.unsigned_tx.output@, network),
{
    let outputs = &psbt.unsigned_tx.output;
    let mut found: Vec<String> = Vec::new();
    let mut i: usize = 0;
    assert(found.deep_view() =~= addresses_of(outputs@.take(0), network));
    while i < outputs.len()
        invariant
            i <= outputs.len(),
            outputs == psbt.unsigned_tx.output,
            found.deep_view() == addresses_of(outputs@.take(i as int), network),
        decreases outputs.len() - i,
    {
        let ghost before = found.deep_view();
        assert(outputs@.take(i + 1).drop_last() =~= outputs@.take(i as int));
        if let Some(a) = address_of_script(&outputs[i].script_pubkey, network) {
            found.push(a);
            assert(found.deep_view() =~= before.push(a@));
        }
        i = i + 1;
    }
    assert(outputs@.take(i as int) =~= outputs@);
    found
}

/// What the policy has against a transaction that is not recorded yet.
pub open spec fn objections(
    tables: Tables,
    report: InspectionReport,
    policy: CompiledPolicy,
    now: int,
) -> Seq<PolicyViolation> {
    violations(report, rolling_of(tables, now), policy)
}

/// What a request to sign comes to: `r` is the answer, and `after` is what the ledger holds then.
pub open spec fn comes_to(
    psbt: Psbt,
    report: InspectionReport,
    wallet: BuiltDescriptor,
    cfg: WalletConfig,
    key: Seq<char>,
    before: Tables,
    policy: CompiledPolicy,
    now: i64,
    r: Result<SignPsbtResult, SignPsbtError>,
    after: Tables,
) -> bool {
    let txid = psbt.unsigned_tx.txid@;
    let recorded = spend_of(before.spends, txid) is Some;
    let against = objections(before, report, policy, now as int);
    let failure = sign_error(psbt, wallet, cfg, key, report.inputs@);
    match r {
        Ok(done) => {
            &&& report.spending_path == SpendingPath::Hot
            &&& recorded || against.len() == 0
            &&& failure is None
            &&& is_signed(psbt, done.psbt, wallet, cfg, key, report.inputs@)
            &&& done.report == report
            &&& done.ledger == if recorded {
                LedgerOutcome::AlreadyRecorded
            } else {
                LedgerOutcome::Recorded
            }
            &&& if recorded {
                after == before
            } else {
                adds_spend(
                    before,
                    after,
                    txid,
                    now,
                    destination_sum(report.outputs@) as u64,
                    report.fee,
                )
            }
        },
        Err(e) => {
            &&& after == before
            &&& match e {
                SignPsbtError::NotHotPath => report.spending_path != SpendingPath::Hot,
                SignPsbtError::Denied(v) => {
                    &&& report.spending_path == SpendingPath::Hot
                    &&& !recorded
                    &&& v@ == against
                    &&& against.len() > 0
                },
                SignPsbtError::Signing(x) => {
                    &&& report.spending_path == SpendingPath::Hot
                    &&& recorded || against.len() == 0
                    &&& failure == Some(x)
                },
            }
        },
    }
}

/// Signs an inspected transaction, if it may be. `report` is what inspecting `psbt` gave.
///
/// - One that is not on the hot path is refused.
/// - One that is recorded is signed again, and the ledger stays as it is.
/// - One that the policy has something against is refused, with all of it.
/// - Any other is signed and then recorded: its id, the amount that leaves the wallet, and the fee.
///
/// A transaction that is refused, or cannot be signed, leaves the ledger as it was.
pub fn sign_psbt(
    psbt: Psbt,
    report: InspectionReport,
    wallet: &BuiltDescriptor,
    cfg: &WalletConfig,
    server_key: &ServerSigningKey,
    ledger: &mut Ledger,
    policy: &CompiledPolicy,
    now: i64,
) -> (r: Result<SignPsbtResult, SignPsbtError>)
    requires
        old(ledger).wf(),
        report.inputs@.len() <= psbt.inputs@.len(),
        report.spending_path == SpendingPath::Hot && spend_of(
            old(ledger)@.spends,
            psbt.unsigned_tx.txid@,
        ) is None ==> totals_fit(old(ledger)@, report, now as int),
    ensures
        final(ledger).wf(),
        comes_to(
            psbt,
            report,
            *wallet,
            *cfg,
            server_key.text(),
            old(ledger)@,
            *policy,
            now,
            r,
            final(ledger)@,
        ),
{
    if report.spending_path != SpendingPath::Hot {
        return Err(SignPsbtError::NotHotPath);
    }
    let mut psbt = psbt;
    let txid = psbt.unsigned_tx.txid.clone();
    if ledger.already_recorded(txid.as_str()) {
        return match sign_hot_inputs(&mut psbt, wallet, cfg, server_key, &report.inputs) {
            Ok(_) => Ok(SignPsbtResult { psbt, report, ledger: LedgerOutcome::AlreadyRecorded }),
            Err(e) => Err(SignPsbtError::Signing(e)),
        };
    }
    proof {
        crate::ledger::law_longer_windows_hold_more(ledger@.spends, now as int);
    }
    let rolling = ledger.rolling_totals(now);
    assert(rolling == rolling_of(ledger@, now as int));
    match evaluate_policy(&report, &rolling, policy) {
        PolicyDecision::Deny(v) => Err(SignPsbtError::Denied(v)),
        PolicyDecision::Allow => {
            let spend_sat = destination_total_sat(&report);
            let fee_sat = report.fee;
            if let Err(e) = sign_hot_inputs(&mut psbt, wallet, cfg, server_key, &report.inputs) {
                return Err(SignPsbtError::Signing(e));
            }
            let _ = ledger.record_spend(txid.as_str(), now, spend_sat, fee_sat);
            Ok(SignPsbtResult { psbt, report, ledger: LedgerOutcome::Recorded })
        },
    }
}

/// A transaction that was signed is signed again whenever it is asked for, at any time and under any
/// policy, even one that would refuse it: with the same signatures in the same text, and counted
/// once, since the ledger stays as it is.
pub proof fn law_signing_again_counts_nothing(
    psbt: Psbt,
    report: InspectionReport,
    wallet: BuiltDescriptor,
    cfg: WalletConfig,
    key: Seq<char>,
    before: Tables,
    policy: CompiledPolicy,
    now: i64,
    first: SignPsbtResult,
    after: Tables,
    later_policy: CompiledPolicy,
    later: i64,
    r: Result<SignPsbtResult, SignPsbtError>,
    last: Tables,
)
    requires
        comes_to(psbt, report, wallet, cfg, key, before, policy, now, Ok(first), after),
        comes_to(psbt, report, wallet, cfg, key, after, later_policy, later, r, last),
    ensures
        r matches Ok(second) && {
            &&& second.ledger == LedgerOutcome::AlreadyRecorded
            &&& second.psbt.text@ == first.psbt.text@
            &&& second.psbt.inputs@.len() == first.psbt.inputs@.len()
            &&& forall|i: int|
                0 <= i < report.inputs@.len() ==> (#[trigger] second.psbt.inputs@[i]).deep_view()
                    == first.psbt.inputs@[i].deep_view()
            &&& forall|i: int|
                report.inputs@.len() <= i < second.psbt.inputs@.len()
                    ==> #[trigger] second.psbt.inputs@[i] == first.psbt.inputs@[i]
        },
        last == after,
{
    assert(spend_of(after.spends, psbt.unsigned_tx.txid@) is Some);
}

/// No cap is ever exceeded by what is recorded: after a spend was recorded, the totals of the three
/// windows that end then are within the policy's caps, whatever they were before.
pub proof fn law_recorded_spends_stay_within_the_caps(
    before: Tables,
    after: Tables,
    txid: Seq<char>,
    report: InspectionReport,
    policy: CompiledPolicy,
    now: i64,
)
    requires
        totals_fit(before, report, now as int),
        objections(before, report, policy, now as int).len() == 0,
        adds_spend(
            before,
            after,
            txid,
            now,
            destination_sum(report.outputs@) as u64,
            report.fee,
        ),
    ensures
        after.totals(now as int).0 <= policy.max_daily_sat,
        after.totals(now as int).1 <= policy.max_weekly_sat,
        after.totals(now as int).2 <= policy.max_monthly_sat,
{
    crate::ledger::law_longer_windows_hold_more(before.spends, now as int);
    crate::policy::law_allowed_exactly_within_every_limit(
        report,
        rolling_of(before, now as int),
        policy,
    );
}

/// Why a spend that is asked for is not queued.
#[derive(Debug)]
pub enum SubmitError {
    /// The transaction is not one that the hardware and the server key sign at once.
    NotHotPath,
    /// Signing is frozen.
    Frozen,
    /// The policy has something against it.
    Denied(Vec<PolicyViolation>),
    /// The owner stopped this spend before.
    Vetoed,
    /// This spend was refused when its hold had passed.
    PreviouslyDenied(String),
    /// This spend could not be signed when its hold had passed.
    PreviouslyFailed(String),
    /// The spend is queued, and its owner could not be told. It stays unsigned until that is done.
    NotifyFailed(String),
    Signing(SigningError),
    /// The hold ends later than any time that can be written down.
    HoldTooLong,
}

/// What became of a spend that was asked for.
#[derive(Debug)]
pub enum SubmitOutcome {
    /// It was signed before, and is handed out again.
    AlreadySigned(SignPsbtResult),
    /// It is queued. Where `notify` is set, its owner is to be told of it now, and the ledger to be
    /// told once that is done.
    Queued { txid: String, hold_until: i64, notify: bool },
}

/// A text that may be missing, which is then empty.
pub open spec fn shown(s: Option<String>) -> Seq<char> {
    match s {
        Some(t) => t@,
        None => Seq::empty(),
    }
}

fn text_or_empty(s: Option<String>) -> (r: String)
    ensures
        r@ == shown(s),
{
    match s {
        Some(t) => t,
        None => String::new(),
    }
}

/// Whether `r` and `after` are what taking up a spend comes to: nothing where it is not hot or signing is
/// frozen, what was recorded handed out again, what is in the queue answered as it stands, what the
/// policy has something against refused, and any other queued.
pub open spec fn is_taken_up(
    psbt: Psbt,
    report: InspectionReport,
    wallet: BuiltDescriptor,
    cfg: WalletConfig,
    key: Seq<char>,
    before: Tables,
    policy: CompiledPolicy,
    hold_seconds: i64,
    now: i64,
    r: Result<SubmitOutcome, SubmitError>,
    after: Tables,
) -> bool {
    let txid = psbt.unsigned_tx.txid@;
    let recorded = spend_of(before.spends, txid) is Some;
    let row = pending_of(before.pending, txid);
    let against = objections(before, report, policy, now as int);
    let failure = sign_error(psbt, wallet, cfg, key, report.inputs@);
    let open = report.spending_path == SpendingPath::Hot && !before.is_frozen();
    &&& match r {
        Err(SubmitError::NotHotPath) => report.spending_path != SpendingPath::Hot,
        Err(SubmitError::Frozen) => report.spending_path == SpendingPath::Hot
            && before.is_frozen(),
        Err(SubmitError::Signing(e)) => open && recorded && failure == Some(e),
        Ok(SubmitOutcome::AlreadySigned(done)) => {
            &&& open && recorded && failure is None
            &&& done.ledger == LedgerOutcome::AlreadyRecorded
            &&& done.report == report
            &&& is_signed(
                psbt,
                done.psbt,
                wallet,
                cfg,
                key,
                report.inputs@,
            )
        },
        Err(SubmitError::Vetoed) => open && !recorded && (row matches Some(e)
            && e.row.status == PendingStatus::Vetoed),
        Err(SubmitError::PreviouslyDenied(m)) => open && !recorded && (row matches Some(e)
            && e.row.status == PendingStatus::Denied && m@ == shown(e.row.message)),
        Err(SubmitError::PreviouslyFailed(m)) => open && !recorded && (row matches Some(e)
            && (e.row.status == PendingStatus::Failed || e.row.status
            == PendingStatus::Signed) && m@ == shown(e.row.message)),
        Err(SubmitError::Denied(v)) => open && !recorded && row is None && v@ == against
            && against.len() > 0,
        Err(SubmitError::HoldTooLong) => open && !recorded && row is None && against.len()
            == 0 && !(i64::MIN <= now + hold_seconds <= i64::MAX),
        Err(SubmitError::NotifyFailed(_)) => false,
        Ok(SubmitOutcome::Queued { txid: id, hold_until, notify }) => {
            &&& open && !recorded
            &&& id@ == txid
            &&& match row {
                Some(e) => {
                    &&& e.row.status == PendingStatus::Pending
                    &&& hold_until == e.row.hold_until
                    &&& !notify
                },
                None => {
                    &&& against.len() == 0
                    &&& hold_until == now + hold_seconds
                    &&& notify
                },
            }
        },
    }
    &&& match r {
        Ok(SubmitOutcome::Queued { notify, hold_until, .. }) if notify => {
            &&& after == (Tables { pending: after.pending, ..before })
            &&& after.pending.len() == before.pending.len() + 1
            &&& after.pending.drop_last() == before.pending
            &&& is_fresh(
                after.pending.last(),
                psbt.unsigned_tx.txid@,
                psbt.text@,
                destination_sum(report.outputs@) as u64,
                report.fee,
                now,
                hold_until,
            )
        },
        _ => after == before,
    }
}

/// Takes up a spend that is asked for.
///
/// - While signing is frozen, nothing is taken up.
/// - What is recorded was signed before: it is signed again and handed out.
/// - What is in the queue stays there: one that waits keeps its hold, one that was stopped, refused
///   or has failed is answered with that, and is never queued again.
/// - What the policy has something against is refused, with all of it, and never queued.
/// - Any other is queued until `now + hold_seconds`. Nothing is signed.
pub fn submit_for_signing(
    psbt: Psbt,
    report: InspectionReport,
    wallet: &BuiltDescriptor,
    cfg: &WalletConfig,
    server_key: &ServerSigningKey,
    ledger: &mut Ledger,
    policy: &CompiledPolicy,
    hold_seconds: i64,
    now: i64,
) -> (r: Result<SubmitOutcome, SubmitError>)
    requires
        old(ledger).wf(),
        report.inputs@.len() <= psbt.inputs@.len(),
        spend_of(old(ledger)@.spends, psbt.unsigned_tx.txid@) is None && pending_of(
            old(ledger)@.pending,
            psbt.unsigned_tx.txid@,
        ) is None ==> totals_fit(old(ledger)@, report, now as int),
    ensures
        final(ledger).wf(),
        is_taken_up(
            psbt,
            report,
            *wallet,
            *cfg,
            server_key.text(),
            old(ledger)@,
            *policy,
            hold_seconds,
            now,
            r,
            final(ledger)@,
        ),
{
    if report.spending_path != SpendingPath::Hot {
        return Err(SubmitError::NotHotPath);
    }
    if ledger.is_frozen() {
        return Err(SubmitError::Frozen);
    }
    let txid = psbt.unsigned_tx.txid.clone();
    if ledger.already_recorded(txid.as_str()) {
        let mut psbt = psbt;
        return match sign_hot_inputs(&mut psbt, wallet, cfg, server_key, &report.inputs) {
            Ok(_) => Ok(
                SubmitOutcome::AlreadySigned(
                    SignPsbtResult { psbt, report, ledger: LedgerOutcome::AlreadyRecorded },
                ),
            ),
            Err(e) => Err(SubmitError::Signing(e)),
        };
    }
    if let Some(row) = ledger.get_pending(txid.as_str()) {
        return match row.status {
            PendingStatus::Pending => Ok(
                SubmitOutcome::Queued { txid, hold_until: row.hold_until, notify: false },
            ),
            PendingStatus::Vetoed => Err(SubmitError::Vetoed),
            PendingStatus::Denied => Err(
                SubmitError::PreviouslyDenied(text_or_empty(row.message)),
            ),
            PendingStatus::Failed | PendingStatus::Signed => Err(
                SubmitError::PreviouslyFailed(text_or_empty(row.message)),
            ),
        };
    }
    proof {
        crate::ledger::law_longer_windows_hold_more(ledger@.spends, now as int);
    }
    let rolling = ledger.rolling_totals(now);
    assert(rolling == rolling_of(ledger@, now as int));
    if let PolicyDecision::Deny(v) = evaluate_policy(&report, &rolling, policy) {
        return Err(SubmitError::Denied(v));
    }
    let until: i128 = now as i128 + hold_seconds as i128;
    if until > i64::MAX as i128 || until < i64::MIN as i128 {
        return Err(SubmitError::HoldTooLong);
    }
    let hold_until: i64 = until as i64;
    let spend_sat = destination_total_sat(&report);
    let _ = ledger.insert_pending(
        txid.as_str(),
        psbt.text.as_str(),
        spend_sat,
        report.fee,
        now,
        hold_until,
    );
    Ok(SubmitOutcome::Queued { txid, hold_until, notify: true })
}

/// The texts of violations. The two rates are given as texts with two decimals.
pub open spec fn violation_texts(
    v: Seq<PolicyViolation>,
    rate: Seq<char>,
    max_rate: Seq<char>,
) -> Seq<Seq<char>> {
    v.map_values(|x: PolicyViolation| violation_text(x, rate, max_rate))
}

/// What a person is told of a refusal: every violation, one after another.
pub fn denial_message(v: &Vec<PolicyViolation>, rate: &str, max_rate: &str) -> (r: String)
    ensures
        r@ == joined(violation_texts(v@, rate@, max_rate@), "; "@),
{
    let mut parts: Vec<String> = Vec::new();
    let mut i: usize = 0;
    while i < v.len()
        invariant
            i <= v.len(),
            parts@.len() == i,
            forall|j: int|
                0 <= j < i ==> (#[trigger] parts@[j])@ == violation_text(v@[j], rate@, max_rate@),
        decreases v.len() - i,
    {
        parts.push(v[i].message(rate, max_rate));
        i = i + 1;
    }
    assert(parts.deep_view() =~= violation_texts(v@, rate@, max_rate@));
    join(&parts, "; ")
}

/// What became of a spend in the queue.
#[derive(Debug)]
pub enum PendingOutcome {
    /// It is not to be signed now: it is not in the queue, is no longer pending, its hold has not
    /// passed, nobody was told of it, signing is frozen, or its transaction could not be inspected.
    /// It stays as it is.
    NotDue,
    /// It was signed, and is marked so.
    Signed(SignPsbtResult),
    /// The policy has something against it by now, and it is marked as refused.
    Denied(String),
    /// It could not be signed, and is marked as failed.
    Failed(String),
}

/// The text of an error.
pub open spec fn sign_psbt_error_text(
    e: SignPsbtError,
    rate: Seq<char>,
    max_rate: Seq<char>,
) -> Seq<char> {
    match e {
        SignPsbtError::NotHotPath =>
            "PSBT does not use the HOT spending path (SATOCHIP+SERVER, immediately) - this service only ever countersigns that path"@,
        SignPsbtError::Signing(x) => signing_error_text(x),
        SignPsbtError::Denied(v) => joined(violation_texts(v@, rate, max_rate), "; "@),
    }
}

impl SignPsbtError {
    /// What a person is told. `rate` and `max_rate` are the transaction's fee rate and the highest
    /// one allowed, written with two decimals.
    pub fn message(&self, rate: &str, max_rate: &str) -> (r: String)
        ensures
            r@ == sign_psbt_error_text(*self, rate@, max_rate@),
    {
        match self {
            SignPsbtError::NotHotPath =>
                "PSBT does not use the HOT spending path (SATOCHIP+SERVER, immediately) - this service only ever countersigns that path".to_owned(),
            SignPsbtError::Signing(x) => x.message(),
            SignPsbtError::Denied(v) => denial_message(v, rate, max_rate),
        }
    }
}

/// Whether `r` and `after` are what settling a spend of the queue comes to: nothing where it is not due or
/// signing is frozen, and otherwise signed and recorded, refused by the policy, or failed.
pub open spec fn is_settled_as(
    psbt: Psbt,
    report: InspectionReport,
    wallet: BuiltDescriptor,
    cfg: WalletConfig,
    key: Seq<char>,
    before: Tables,
    policy: CompiledPolicy,
    now: i64,
    rate: Seq<char>,
    max_rate: Seq<char>,
    r: PendingOutcome,
    after: Tables,
) -> bool {
    let txid = psbt.unsigned_tx.txid@;
    let row = pending_of(before.pending, txid);
    let recorded = spend_of(before.spends, txid) is Some;
    let against = objections(before, report, policy, now as int);
    let due = !before.is_frozen() && (row matches Some(e) && is_due(
        e,
        now as int,
    ));
    match r {
        PendingOutcome::NotDue => !due && after == before,
        PendingOutcome::Signed(done) => {
            &&& due
            &&& report.spending_path == SpendingPath::Hot
            &&& recorded || against.len() == 0
            &&& is_signed(
                psbt,
                done.psbt,
                wallet,
                cfg,
                key,
                report.inputs@,
            )
            &&& done.report == report
            &&& done.ledger == if recorded {
                LedgerOutcome::AlreadyRecorded
            } else {
                LedgerOutcome::Recorded
            }
            &&& after.pending == changed(
                before.pending,
                txid,
                |e: PendingEntry|
                    settled(e, PendingStatus::Signed, Some(done.psbt.text), None),
            )
            &&& if recorded {
                after == (Tables {
                    pending: after.pending,
                    ..before
                })
            } else {
                adds_spend(
                    Tables { pending: after.pending, ..before },
                    after,
                    txid,
                    now,
                    destination_sum(report.outputs@) as u64,
                    report.fee,
                )
            }
        },
        PendingOutcome::Denied(m) => {
            &&& due
            &&& report.spending_path == SpendingPath::Hot
            &&& !recorded
            &&& against.len() > 0
            &&& m@ == joined(violation_texts(against, rate, max_rate), "; "@)
            &&& after == (Tables {
                pending: changed(
                    before.pending,
                    txid,
                    |e: PendingEntry| settled(e, PendingStatus::Denied, None, Some(m)),
                ),
                ..before
            })
        },
        PendingOutcome::Failed(m) => {
            let failure = sign_error(
                psbt,
                wallet,
                cfg,
                key,
                report.inputs@,
            );
            &&& due
            &&& if report.spending_path != SpendingPath::Hot {
                m@ == sign_psbt_error_text(SignPsbtError::NotHotPath, rate, max_rate)
            } else {
                &&& recorded || against.len() == 0
                &&& failure is Some
                &&& m@ == signing_error_text(failure.unwrap())
            }
            &&& after == (Tables {
                pending: changed(
                    before.pending,
                    txid,
                    |e: PendingEntry| settled(e, PendingStatus::Failed, None, Some(m)),
                ),
                ..before
            })
        },
    }
}

/// Signs a spend of the queue whose time has come. `report` is what inspecting its transaction anew
/// gave. The policy is asked again, whatever it said when the spend was queued and however the hold
/// came to an end; the spend is then marked as signed, refused or failed, and never taken up again.
pub fn process_due_pending_row(
    psbt: Psbt,
    report: InspectionReport,
    wallet: &BuiltDescriptor,
    cfg: &WalletConfig,
    server_key: &ServerSigningKey,
    ledger: &mut Ledger,
    policy: &CompiledPolicy,
    now: i64,
    rate: &str,
    max_rate: &str,
) -> (r: PendingOutcome)
    requires
        old(ledger).wf(),
        report.inputs@.len() <= psbt.inputs@.len(),
        spend_of(old(ledger)@.spends, psbt.unsigned_tx.txid@) is None ==> totals_fit(
            old(ledger)@,
            report,
            now as int,
        ),
    ensures
        final(ledger).wf(),
        is_settled_as(
            psbt,
            report,
            *wallet,
            *cfg,
            server_key.text(),
            old(ledger)@,
            *policy,
            now,
            rate@,
            max_rate@,
            r,
            final(ledger)@,
        ),
{
    if ledger.is_frozen() {
        return PendingOutcome::NotDue;
    }
    let txid = psbt.unsigned_tx.txid.clone();
    if !ledger.is_due_now(txid.as_str(), now) {
        return PendingOutcome::NotDue;
    }
    let outcome = sign_psbt(psbt, report, wallet, cfg, server_key, ledger, policy, now);
    match outcome {
        Ok(done) => {
            ledger.mark_pending_signed(txid.as_str(), done.psbt.text.clone());
            PendingOutcome::Signed(done)
        },
        Err(e) => {
            let message = e.message(rate, max_rate);
            match e {
                SignPsbtError::Denied(_) => {
                    ledger.mark_pending_denied(txid.as_str(), message.clone());
                    PendingOutcome::Denied(message)
                },
                _ => {
                    ledger.mark_pending_failed(txid.as_str(), message.clone());
                    PendingOutcome::Failed(message)
                },
            }
        },
    }
}

/// Settles a spend of the queue whose time has come and whose transaction, inspected anew, is
/// refused. Where the node could not be asked, or the wallet could not be derived, nothing is
/// settled and the spend is taken up again later. Any other refusal is final: the spend is marked
/// as failed.
pub fn process_refused_pending_row(
    txid: &str,
    refusal: &InspectError,
    ledger: &mut Ledger,
    now: i64,
) -> (r: PendingOutcome)
    requires
        old(ledger).wf(),
    ensures
        final(ledger).wf(),
        is_given_up_as(old(ledger)@, txid@, *refusal, now, r, final(ledger)@),
{
    if let InspectError::Chain(_) = refusal {
        return PendingOutcome::NotDue;
    }
    if ledger.is_frozen() || !ledger.is_due_now(txid, now) {
        return PendingOutcome::NotDue;
    }
    let message = refusal.message();
    ledger.mark_pending_failed(txid, message.clone());
    PendingOutcome::Failed(message)
}

/// The destinations are the addresses of all outputs that leave the wallet and have one, in order: each
/// such output makes the list one longer, by its address, and no other output changes it.
pub proof fn law_each_payee_is_named(outputs: Seq<OutputReport>, o: OutputReport)
    ensures
        destinations_of(Seq::empty()).len() == 0,
        o.kind == OutputKind::Destination ==> (o.address matches Some(a) ==> destinations_of(
            outputs.push(o),
        ) == destinations_of(outputs).push(a@)),
        o.kind != OutputKind::Destination || o.address is None ==> destinations_of(
            outputs.push(o),
        ) == destinations_of(outputs),
{
    assert(outputs.push(o).drop_last() =~= outputs);
}

/// Every address that money leaves to is among the destinations, and every destination is the address
/// of such an output.
pub proof fn law_the_destinations_are_where_money_leaves_to(
    outputs: Seq<OutputReport>,
    address: Seq<char>,
)
    ensures
        destinations_of(outputs).contains(address) <==> exists|i: int|
            0 <= i < outputs.len() && (#[trigger] outputs[i]).kind == OutputKind::Destination && (
            outputs[i].address matches Some(a) && a@ == address),
    decreases outputs.len(),
{
    if outputs.len() > 0 {
        let before = outputs.drop_last();
        let last = outputs.last();
        law_the_destinations_are_where_money_leaves_to(before, address);
        let all = destinations_of(outputs);
        let earlier = destinations_of(before);
        assert(forall|i: int| 0 <= i < before.len() ==> outputs[i] == #[trigger] before[i]);
        if last.kind == OutputKind::Destination && last.address is Some {
            let a = last.address->Some_0@;
            assert(all == earlier.push(a));
            assert(all.contains(address) <==> earlier.contains(address) || a == address) by {
                if earlier.contains(address) {
                    let k = choose|k: int| 0 <= k < earlier.len() && earlier[k] == address;
                    assert(all[k] == address);
                }
                if a == address {
                    assert(all[all.len() - 1] == address);
                }
                if all.contains(address) {
                    let k = choose|k: int| 0 <= k < all.len() && all[k] == address;
                    if k < earlier.len() {
                        assert(earlier[k] == address);
                    }
                }
            }
        } else {
            assert(all == earlier);
        }
        if exists|i: int|
            0 <= i < before.len() && (#[trigger] before[i]).kind == OutputKind::Destination && (
            before[i].address matches Some(a) && a@ == address) {
            let i = choose|i: int|
                0 <= i < before.len() && (#[trigger] before[i]).kind == OutputKind::Destination
                    && (before[i].address matches Some(a) && a@ == address);
            assert(outputs[i].kind == OutputKind::Destination);
        }
        if last.kind == OutputKind::Destination && (last.address matches Some(a) && a@ == address) {
            assert(outputs[outputs.len() - 1].kind == OutputKind::Destination);
        }
        if exists|i: int|
            0 <= i < outputs.len() && (#[trigger] outputs[i]).kind == OutputKind::Destination && (
            outputs[i].address matches Some(a) && a@ == address) {
            let i = choose|i: int|
                0 <= i < outputs.len() && (#[trigger] outputs[i]).kind == OutputKind::Destination
                    && (outputs[i].address matches Some(a) && a@ == address);
            if i < before.len() {
                assert(before[i].kind == OutputKind::Destination);
            }
        }
    }
}

/// Each output whose script has an address makes the list of addresses one longer, by that address, and
/// no other output changes it.
pub proof fn law_each_address_is_listed(outputs: Seq<TxOut>, o: TxOut, network: ChainNetwork)
    ensures
        addresses_of(Seq::empty(), network).len() == 0,
        addresses_of(outputs.push(o), network) == match script_address(o.script_pubkey@, network) {
            Some(a) => addresses_of(outputs, network).push(a),
            None => addresses_of(outputs, network),
        },
{
    assert(outputs.push(o).drop_last() =~= outputs);
}

/// What is signed for the first time is a hot spend within every limit, whose destinations are all
/// listed where there is a list, and it is recorded with what leaves the wallet and the fee. What is
/// refused changes nothing.
pub proof fn law_only_a_spend_within_every_limit_is_signed_and_recorded(
    psbt: Psbt,
    report: InspectionReport,
    wallet: BuiltDescriptor,
    cfg: WalletConfig,
    key: Seq<char>,
    before: Tables,
    policy: CompiledPolicy,
    now: i64,
    r: Result<SignPsbtResult, SignPsbtError>,
    after: Tables,
)
    requires
        comes_to(psbt, report, wallet, cfg, key, before, policy, now, r, after),
        totals_fit(before, report, now as int),
    ensures
        r is Err ==> after == before,
        r is Ok ==> report.spending_path == SpendingPath::Hot,
        r is Ok && spend_of(before.spends, psbt.unsigned_tx.txid@) is None ==> {
            let spend = destination_sum(report.outputs@);
            let at = now as int;
            &&& spend <= policy.max_tx_sat
            &&& before.totals(at).0 + spend <= policy.max_daily_sat
            &&& before.totals(at).1 + spend <= policy.max_weekly_sat
            &&& before.totals(at).2 + spend <= policy.max_monthly_sat
            &&& report.fee <= policy.max_fee_sat
            &&& !report.fee_rate_sat_per_vb.above(policy.max_fee_rate_sat_per_vb)
            &&& policy.destination_whitelist is Some ==> crate::policy::all_listed(
                report.outputs@,
                policy,
            )
            &&& after.spends.len() == before.spends.len() + 1
            &&& after.spends.drop_last() == before.spends
            &&& after.spends.last().txid@ == psbt.unsigned_tx.txid@
            &&& after.spends.last().spend_amount_sat == spend
            &&& after.spends.last().fee_sat == report.fee
            &&& after.spends.last().recorded_at == now
            &&& after.pending == before.pending
        },
{
    crate::ledger::law_longer_windows_hold_more(before.spends, now as int);
    crate::policy::law_allowed_exactly_within_every_limit(
        report,
        rolling_of(before, now as int),
        policy,
    );
}

/// While signing is frozen, or where a spend is not hot, nothing is taken up: it is refused, and nothing
/// changes.
pub proof fn law_nothing_is_taken_up_while_frozen(
    psbt: Psbt,
    report: InspectionReport,
    wallet: BuiltDescriptor,
    cfg: WalletConfig,
    key: Seq<char>,
    before: Tables,
    policy: CompiledPolicy,
    hold_seconds: i64,
    now: i64,
    r: Result<SubmitOutcome, SubmitError>,
    after: Tables,
)
    requires
        is_taken_up(
            psbt,
            report,
            wallet,
            cfg,
            key,
            before,
            policy,
            hold_seconds,
            now,
            r,
            after,
        ),
    ensures
        before.is_frozen() || report.spending_path != SpendingPath::Hot ==> r is Err && after
            == before,
        before.is_frozen() && report.spending_path == SpendingPath::Hot ==> r == Err::<
            SubmitOutcome,
            SubmitError,
        >(SubmitError::Frozen),
{
}

/// A spend that is new is queued only within every limit and with its destinations listed, waits the
/// whole hold from now, and is due only once that has passed and its owner was told. Taking it up
/// signs and records nothing.
pub proof fn law_a_new_spend_waits_the_whole_hold(
    psbt: Psbt,
    report: InspectionReport,
    wallet: BuiltDescriptor,
    cfg: WalletConfig,
    key: Seq<char>,
    before: Tables,
    policy: CompiledPolicy,
    hold_seconds: i64,
    now: i64,
    r: Result<SubmitOutcome, SubmitError>,
    after: Tables,
    at: i64,
    later: int,
)
    requires
        is_taken_up(
            psbt,
            report,
            wallet,
            cfg,
            key,
            before,
            policy,
            hold_seconds,
            now,
            r,
            after,
        ),
        pending_of(before.pending, psbt.unsigned_tx.txid@) is None,
        r matches Ok(SubmitOutcome::Queued { .. }),
        totals_fit(before, report, now as int),
    ensures
        after.spends == before.spends,
        after.policy == before.policy,
        after.freeze == before.freeze,
        after.pending.len() == before.pending.len() + 1,
        r matches Ok(SubmitOutcome::Queued { txid, hold_until, notify }) && {
            &&& notify
            &&& txid@ == psbt.unsigned_tx.txid@
            &&& hold_until == now + hold_seconds
        },
        pending_of(after.pending, psbt.unsigned_tx.txid@) matches Some(e) && {
            &&& e.row.psbt_base64@ == psbt.text@
            &&& e.row.spend_amount_sat == destination_sum(report.outputs@)
            &&& e.row.fee_sat == report.fee
            &&& e.row.status == PendingStatus::Pending
            &&& !is_due(e, later)
            &&& is_due(crate::ledger::told(e, at), later) <==> now + hold_seconds <= later
        },
        ({
            let spend = destination_sum(report.outputs@);
            &&& report.spending_path == SpendingPath::Hot
            &&& spend <= policy.max_tx_sat
            &&& before.totals(now as int).0 + spend <= policy.max_daily_sat
            &&& before.totals(now as int).1 + spend <= policy.max_weekly_sat
            &&& before.totals(now as int).2 + spend <= policy.max_monthly_sat
            &&& report.fee <= policy.max_fee_sat
            &&& policy.destination_whitelist is Some ==> crate::policy::all_listed(
                report.outputs@,
                policy,
            )
        }),
{
    crate::ledger::law_longer_windows_hold_more(before.spends, now as int);
    crate::policy::law_allowed_exactly_within_every_limit(
        report,
        rolling_of(before, now as int),
        policy,
    );
    assert(after.pending =~= before.pending.push(after.pending.last()));
    crate::ledger::law_a_queued_spend_is_found_again(before.pending, after.pending.last());
}

/// A spend of the queue is never queued again: one that waits keeps the end of its hold, and one that was
/// stopped, refused or has failed stays so, whatever the policy says now.
pub proof fn law_a_queued_spend_is_never_queued_again(
    psbt: Psbt,
    report: InspectionReport,
    wallet: BuiltDescriptor,
    cfg: WalletConfig,
    key: Seq<char>,
    before: Tables,
    policy: CompiledPolicy,
    hold_seconds: i64,
    now: i64,
    r: Result<SubmitOutcome, SubmitError>,
    after: Tables,
    e: PendingEntry,
)
    requires
        is_taken_up(
            psbt,
            report,
            wallet,
            cfg,
            key,
            before,
            policy,
            hold_seconds,
            now,
            r,
            after,
        ),
        pending_of(before.pending, psbt.unsigned_tx.txid@) == Some(e),
        spend_of(before.spends, psbt.unsigned_tx.txid@) is None,
        report.spending_path == SpendingPath::Hot,
        !before.is_frozen(),
    ensures
        after == before,
        e.row.status == PendingStatus::Pending <==> r is Ok,
        e.row.status == PendingStatus::Pending ==> (r matches Ok(
            SubmitOutcome::Queued { hold_until, notify, .. },
        ) && hold_until == e.row.hold_until && !notify),
        e.row.status == PendingStatus::Vetoed ==> r == Err::<SubmitOutcome, SubmitError>(
            SubmitError::Vetoed,
        ),
        e.row.status == PendingStatus::Denied ==> (r matches Err(SubmitError::PreviouslyDenied(m))
            && (e.row.message matches Some(t) ==> m@ == t@)),
{
}

/// A spend of the queue is signed only where signing is not frozen, the spend still waits, its hold has
/// passed and its owner was told of it, and it is hot and, unless it was recorded before, within every
/// limit at that time. Once signed it is recorded once, with what leaves and the fee, and is no longer
/// waiting.
pub proof fn law_a_spend_is_signed_only_when_due_and_still_allowed(
    psbt: Psbt,
    report: InspectionReport,
    wallet: BuiltDescriptor,
    cfg: WalletConfig,
    key: Seq<char>,
    before: Tables,
    policy: CompiledPolicy,
    now: i64,
    rate: Seq<char>,
    max_rate: Seq<char>,
    r: PendingOutcome,
    after: Tables,
)
    requires
        is_settled_as(
            psbt,
            report,
            wallet,
            cfg,
            key,
            before,
            policy,
            now,
            rate,
            max_rate,
            r,
            after,
        ),
        r is Signed,
        totals_fit(before, report, now as int),
    ensures
        !before.is_frozen(),
        pending_of(before.pending, psbt.unsigned_tx.txid@) matches Some(e) && e.row.status
            == PendingStatus::Pending && e.row.hold_until <= now && e.notify_delivered,
        pending_of(after.pending, psbt.unsigned_tx.txid@) matches Some(e) && e.row.status
            == PendingStatus::Signed && e.row.signed_psbt_base64 is Some,
        report.spending_path == SpendingPath::Hot,
        spend_of(before.spends, psbt.unsigned_tx.txid@) is Some ==> after.spends == before.spends,
        spend_of(before.spends, psbt.unsigned_tx.txid@) is None ==> {
            let spend = destination_sum(report.outputs@);
            &&& spend <= policy.max_tx_sat
            &&& before.totals(now as int).0 + spend <= policy.max_daily_sat
            &&& before.totals(now as int).1 + spend <= policy.max_weekly_sat
            &&& before.totals(now as int).2 + spend <= policy.max_monthly_sat
            &&& report.fee <= policy.max_fee_sat
            &&& policy.destination_whitelist is Some ==> crate::policy::all_listed(
                report.outputs@,
                policy,
            )
            &&& after.spends.len() == before.spends.len() + 1
            &&& after.spends.drop_last() == before.spends
            &&& after.spends.last().txid@ == psbt.unsigned_tx.txid@
            &&& after.spends.last().recorded_at == now
            &&& after.spends.last().spend_amount_sat == spend
            &&& after.spends.last().fee_sat == report.fee
        },
{
    crate::ledger::law_longer_windows_hold_more(before.spends, now as int);
    crate::policy::law_allowed_exactly_within_every_limit(
        report,
        rolling_of(before, now as int),
        policy,
    );
    let text = r->Signed_0.psbt.text;
    crate::ledger::law_only_the_named_spend_changes(
        before.pending,
        psbt.unsigned_tx.txid@,
        psbt.unsigned_tx.txid@,
        |e: PendingEntry| settled(e, PendingStatus::Signed, Some(text), None),
    );
}

/// A spend that is not due stays as it is, and one that is due and is not signed is recorded as nothing
/// but refused or failed.
pub proof fn law_what_is_not_signed_is_not_recorded(
    psbt: Psbt,
    report: InspectionReport,
    wallet: BuiltDescriptor,
    cfg: WalletConfig,
    key: Seq<char>,
    before: Tables,
    policy: CompiledPolicy,
    now: i64,
    rate: Seq<char>,
    max_rate: Seq<char>,
    r: PendingOutcome,
    after: Tables,
)
    requires
        is_settled_as(
            psbt,
            report,
            wallet,
            cfg,
            key,
            before,
            policy,
            now,
            rate,
            max_rate,
            r,
            after,
        ),
        !(r is Signed),
    ensures
        after.spends == before.spends,
        after.policy == before.policy,
        after.freeze == before.freeze,
        ({
            let row = pending_of(before.pending, psbt.unsigned_tx.txid@);
            let due = !before.is_frozen() && (row matches Some(e) && e.row.status
                == PendingStatus::Pending && e.row.hold_until <= now && e.notify_delivered);
            &&& !due <==> r is NotDue
            &&& !due ==> after == before
            &&& due ==> (pending_of(after.pending, psbt.unsigned_tx.txid@) matches Some(e) && (
            e.row.status == PendingStatus::Denied || e.row.status == PendingStatus::Failed)
                && e.row.signed_psbt_base64 is None && e.row.message is Some)
        }),
{
    let txid = psbt.unsigned_tx.txid@;
    match r {
        PendingOutcome::Denied(m) => {
            crate::ledger::law_only_the_named_spend_changes(
                before.pending,
                txid,
                txid,
                |e: PendingEntry| settled(e, PendingStatus::Denied, None, Some(m)),
            );
        },
        PendingOutcome::Failed(m) => {
            crate::ledger::law_only_the_named_spend_changes(
                before.pending,
                txid,
                txid,
                |e: PendingEntry| settled(e, PendingStatus::Failed, None, Some(m)),
            );
        },
        _ => {},
    }
}

/// A spend that was stopped is never signed: neither when it is asked for again nor when its hold would
/// have passed.
pub proof fn law_a_vetoed_spend_is_never_signed(
    psbt: Psbt,
    report: InspectionReport,
    wallet: BuiltDescriptor,
    cfg: WalletConfig,
    key: Seq<char>,
    before: Tables,
    policy: CompiledPolicy,
    now: i64,
    rate: Seq<char>,
    max_rate: Seq<char>,
    r: PendingOutcome,
    after: Tables,
    hold_seconds: i64,
    asked: Result<SubmitOutcome, SubmitError>,
    then: Tables,
)
    requires
        is_settled_as(
            psbt,
            report,
            wallet,
            cfg,
            key,
            before,
            policy,
            now,
            rate,
            max_rate,
            r,
            after,
        ),
        is_taken_up(
            psbt,
            report,
            wallet,
            cfg,
            key,
            before,
            policy,
            hold_seconds,
            now,
            asked,
            then,
        ),
        spend_of(before.spends, psbt.unsigned_tx.txid@) is None,
        pending_of(before.pending, psbt.unsigned_tx.txid@) matches Some(e) && e.row.status
            == PendingStatus::Vetoed,
    ensures
        r is NotDue,
        after == before,
        asked is Err,
        then == before,
{
}

/// Whether `r` and `after` are what a refused inspection of a queued spend comes to.
pub open spec fn is_given_up_as(
    before: Tables,
    txid: Seq<char>,
    refusal: InspectError,
    now: i64,
    r: PendingOutcome,
    after: Tables,
) -> bool {
    let due = !before.is_frozen() && (pending_of(
        before.pending,
        txid,
    ) matches Some(e) && is_due(e, now as int));
    match r {
        PendingOutcome::NotDue => (!due || refusal is Chain) && after == before,
        PendingOutcome::Failed(m) => {
            &&& due && !(refusal is Chain)
            &&& m@ == inspect_error_text(refusal)
            &&& after == (Tables {
                pending: changed(
                    before.pending,
                    txid,
                    |e: PendingEntry| settled(e, PendingStatus::Failed, None, Some(m)),
                ),
                ..before
            })
        },
        _ => false,
    }
}

/// A queued spend whose inspection is refused is given up with the reason where it is due; where it is not,
/// and where only the node could not be asked, it goes on waiting. It is neither signed nor recorded.
pub proof fn law_a_refused_spend_is_given_up_with_the_reason(
    before: Tables,
    txid: Seq<char>,
    refusal: InspectError,
    now: i64,
    r: PendingOutcome,
    after: Tables,
    other: Seq<char>,
)
    requires
        is_given_up_as(before, txid, refusal, now, r, after),
    ensures
        r is Failed || r is NotDue,
        r is Failed <==> !before.is_frozen() && !(refusal is Chain) && (pending_of(
            before.pending,
            txid,
        ) matches Some(e) && is_due(e, now as int)),
        r matches PendingOutcome::Failed(m) ==> m@ == inspect_error_text(refusal) && (pending_of(
            after.pending,
            txid,
        ) matches Some(e) && e.row.status == PendingStatus::Failed && e.row.message == Some(m)
            && e.row.signed_psbt_base64 is None),
        r is NotDue ==> after == before,
        other != txid ==> pending_of(after.pending, other) == pending_of(before.pending, other),
        after.spends == before.spends,
{
    if r is Failed {
        crate::ledger::law_only_the_named_spend_changes(
            before.pending,
            txid,
            other,
            |e: PendingEntry| settled(e, PendingStatus::Failed, None, Some(r->Failed_0)),
        );
    }
}

}
