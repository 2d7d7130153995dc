//! The ledger: every spend that was signed, every spend that waits for its hold to pass, the
//! policy in force, the freeze switch, and the messages that were handled.
//!
//! A [`Ledger`] holds the tables. What reads and writes them on disk hands them over as they are
//! and stores what comes back, inside one transaction of the database.
//!
//! - A spend is recorded once, under the id of its unsigned transaction.
//! - A pending spend of which nobody was told is never due: [`Ledger::due_pending`] wants a
//!   notification that was confirmed delivered, not one that was attempted.
//! - A pending spend leaves that state once, and nothing brings it back.

use vstd::prelude::*;
use vstd::string::*;

use crate::text::{contains, occurs, same_text};

verus! {

/// The seconds of a day.
pub const DAY_SECONDS: i64 = 86_400;

/// The seconds of a week.
pub const WEEK_SECONDS: i64 = 604_800;

/// The seconds of a month of 30 days.
pub const MONTH_SECONDS: i64 = 2_592_000;

/// What left the wallet in the trailing day, week and month.
#[derive(Clone, Copy, Debug, PartialEq, Eq, Structural)]
pub struct RollingTotals {
    pub day_sat: u64,
    pub week_sat: u64,
    pub month_sat: u64,
}

impl Default for RollingTotals {
    fn default() -> (r: Self)
        ensures
            r == (RollingTotals { day_sat: 0, week_sat: 0, month_sat: 0 }),
    {
        RollingTotals { day_sat: 0, week_sat: 0, month_sat: 0 }
    }
}

/// Where an approved spend is. `Pending` is left once; the others are never left.
#[derive(Clone, Copy, Debug, PartialEq, Eq, Structural)]
pub enum PendingStatus {
    /// Waiting for its hold to pass.
    Pending,
    /// Stopped by a person before the hold had passed.
    Vetoed,
    /// Signed after the hold, and recorded.
    Signed,
    /// Refused by the policy when the hold had passed. Nothing is recorded.
    Denied,
    /// Could not be signed when the hold had passed, for another reason than the policy.
    Failed,
}

/// The name of a status in the table.
pub open spec fn status_name(status: PendingStatus) -> Seq<char> {
    match status {
        PendingStatus::Pending => "pending"@,
        PendingStatus::Vetoed => "vetoed"@,
        PendingStatus::Signed => "signed"@,
        PendingStatus::Denied => "denied"@,
        PendingStatus::Failed => "failed"@,
    }
}

/// The five names are five.
proof fn lemma_status_names_differ()
    ensures
        forall|a: PendingStatus, b: PendingStatus|
            #![trigger status_name(a), status_name(b)]
            status_name(a) == status_name(b) ==> a == b,
{
    reveal_strlit("pending");
    reveal_strlit("vetoed");
    reveal_strlit("signed");
    reveal_strlit("denied");
    reveal_strlit("failed");
    assert("pending"@.len() == 7);
    assert("vetoed"@[0] == 'v');
    assert("signed"@[0] == 's');
    assert("denied"@[0] == 'd');
    assert("failed"@[0] == 'f');
    assert forall|a: PendingStatus, b: PendingStatus|
        #![trigger status_name(a), status_name(b)]
        status_name(a) == status_name(b) implies a == b by {
        match a {
            PendingStatus::Pending => {},
            PendingStatus::Vetoed => {},
            PendingStatus::Signed => {},
            PendingStatus::Denied => {},
            PendingStatus::Failed => {},
        }
    }
}

/// What the ledger refuses.
#[derive(Clone, Copy, Debug, PartialEq, Eq, Structural)]
pub enum LedgerError {
    /// The transaction is recorded already.
    AlreadyRecorded,
    /// The transaction is in the queue already.
    AlreadyPending,
    /// A stored status is none of the five names.
    UnknownStatus,
}

impl PendingStatus {
    /// The name of the status in the table.
    pub fn as_str(self) -> (r: &'static str)
        ensures
            r@ == status_name(self),
    {
        match self {
            PendingStatus::Pending => "pending",
            PendingStatus::Vetoed => "vetoed",
            PendingStatus::Signed => "signed",
            PendingStatus::Denied => "denied",
            PendingStatus::Failed => "failed",
        }
    }

    /// The status of that name. Fails exactly where no status has it.
    pub fn from_str(s: &str) -> (r: Result<PendingStatus, LedgerError>)
        ensures
            match r {
                Ok(status) => status_name(status) == s@,
                Err(e) => e == LedgerError::UnknownStatus && forall|status: PendingStatus|
                    #[trigger] status_name(status) != s@,
            },
    {
        if same_text(s, "pending") {
            Ok(PendingStatus::Pending)
        } else if same_text(s, "vetoed") {
            Ok(PendingStatus::Vetoed)
        } else if same_text(s, "signed") {
            Ok(PendingStatus::Signed)
        } else if same_text(s, "denied") {
            Ok(PendingStatus::Denied)
        } else if same_text(s, "failed") {
            Ok(PendingStatus::Failed)
        } else {
            Err(LedgerError::UnknownStatus)
        }
    }
}

/// A status is read back from its own name as itself, and from no other name.
pub proof fn law_status_is_read_back_from_its_name(a: PendingStatus, b: PendingStatus)
    ensures
        status_name(a) == status_name(b) <==> a == b,
{
    lemma_status_names_differ();
}

/// A recorded spend.
#[derive(Clone, Debug)]
pub struct SpendRow {
    pub txid: String,
    pub recorded_at: i64,
    pub spend_amount_sat: u64,
    pub fee_sat: u64,
}

/// A spend in the queue.
#[derive(Clone, Debug)]
pub struct PendingRow {
    pub txid: String,
    pub psbt_base64: String,
    pub spend_amount_sat: u64,
    pub fee_sat: u64,
    pub created_at: i64,
    pub hold_until: i64,
    pub status: PendingStatus,
    pub signed_psbt_base64: Option<String>,
    pub message: Option<String>,
}

/// A spend in the queue with what is known of its notifications.
#[derive(Clone, Debug)]
pub struct PendingEntry {
    pub row: PendingRow,
    /// When a notification was last delivered; `0` where none was.
    pub last_notified_at: i64,
    /// Whether a notification was ever confirmed delivered.
    pub notify_delivered: bool,
}

/// The policy in force.
#[derive(Clone, Debug, PartialEq, Eq)]
pub struct PolicyState {
    pub version: u64,
    pub policy_json: String,
    pub updated_at: i64,
}

/// The freeze switch.
#[derive(Clone, Debug)]
pub struct FreezeState {
    pub frozen: bool,
    pub changed_at: i64,
    pub reason: Option<String>,
    /// How often the wallet was frozen.
    pub generation: u64,
}

/// A message that was handled.
#[derive(Clone, Debug)]
pub struct SeenEvent {
    pub event_id: String,
    pub seen_at: i64,
}

/// The tables.
#[derive(Debug)]
pub struct Ledger {
    pub spends: Vec<SpendRow>,
    pub pending: Vec<PendingEntry>,
    pub policy: Option<PolicyState>,
    pub freeze: Option<FreezeState>,
    pub seen: Vec<SeenEvent>,
}

/// What the tables hold.
#[verifier::ext_equal]
pub struct Tables {
    pub spends: Seq<SpendRow>,
    pub pending: Seq<PendingEntry>,
    pub policy: Option<PolicyState>,
    pub freeze: Option<FreezeState>,
    pub seen: Seq<SeenEvent>,
}

impl View for Ledger {
    type V = Tables;

    open spec fn view(&self) -> Tables {
        Tables {
            spends: self.spends@,
            pending: self.pending@,
            policy: self.policy,
            freeze: self.freeze,
            seen: self.seen@,
        }
    }
}

/// The spend recorded under `txid`.
pub open spec fn spend_of(rows: Seq<SpendRow>, txid: Seq<char>) -> Option<SpendRow>
    decreases rows.len(),
{
    if rows.len() == 0 {
        None
    } else {
        match spend_of(rows.drop_last(), txid) {
            Some(row) => Some(row),
            None => if rows.last().txid@ == txid {
                Some(rows.last())
            } else {
                None
            },
        }
    }
}

/// The pending spend under `txid`.
pub open spec fn pending_of(rows: Seq<PendingEntry>, txid: Seq<char>) -> Option<PendingEntry>
    decreases rows.len(),
{
    if rows.len() == 0 {
        None
    } else {
        match pending_of(rows.drop_last(), txid) {
            Some(row) => Some(row),
            None => if rows.last().row.txid@ == txid {
                Some(rows.last())
            } else {
                None
            },
        }
    }
}

/// Whether the message `id` was handled.
pub open spec fn was_seen(rows: Seq<SeenEvent>, id: Seq<char>) -> bool {
    exists|i: int| 0 <= i < rows.len() && (#[trigger] rows[i]).event_id@ == id
}

/// The rows with `change` applied to those under `txid`.
pub open spec fn changed(
    rows: Seq<PendingEntry>,
    txid: Seq<char>,
    change: spec_fn(PendingEntry) -> PendingEntry,
) -> Seq<PendingEntry> {
    rows.map_values(
        |e: PendingEntry|
            if e.row.txid@ == txid {
                change(e)
            } else {
                e
            },
    )
}

/// Whether a spend of `now - age` counts in a window of `length` seconds that ends now. A spend
/// dated in the future counts in none.
pub open spec fn in_window(recorded_at: int, now: int, length: int) -> bool {
    0 <= now - recorded_at < length
}

/// What was spent in the window of `length` seconds that ends at `now`: the half-open interval
/// from `now - length`, which is out, to `now`, which is in.
pub open spec fn window_sum(rows: Seq<SpendRow>, now: int, length: int) -> nat
    decreases rows.len(),
{
    if rows.len() == 0 {
        0
    } else {
        window_sum(rows.drop_last(), now, length) + if in_window(
            rows.last().recorded_at as int,
            now,
            length,
        ) {
            rows.last().spend_amount_sat as nat
        } else {
            0
        }
    }
}

proof fn lemma_window_sum_bounds(rows: Seq<SpendRow>, n: int, now: int, length: int, wider: int)
    requires
        0 <= n <= rows.len(),
        length <= wider,
    ensures
        window_sum(rows.take(n), now, length) <= window_sum(rows, now, wider),
    decreases rows.len(),
{
    if rows.len() == 0 {
        assert(rows.take(n) =~= rows);
    } else if n < rows.len() {
        assert(rows.drop_last().take(n) =~= rows.take(n));
        lemma_window_sum_bounds(rows.drop_last(), n, now, length, wider);
    } else {
        assert(rows.take(n) =~= rows);
        assert(rows.drop_last().take(n - 1) =~= rows.drop_last());
        lemma_window_sum_bounds(rows.drop_last(), n - 1, now, length, wider);
    }
}

/// What was spent in a longer window is at least what was spent in a shorter one: the total of a
/// day is at most that of a week, and that at most the total of a month.
pub proof fn law_longer_windows_hold_more(rows: Seq<SpendRow>, now: int)
    ensures
        window_sum(rows, now, DAY_SECONDS as int) <= window_sum(rows, now, WEEK_SECONDS as int),
        window_sum(rows, now, WEEK_SECONDS as int) <= window_sum(rows, now, MONTH_SECONDS as int),
{
    assert(rows.take(rows.len() as int) =~= rows);
    lemma_window_sum_bounds(rows, rows.len() as int, now, DAY_SECONDS as int, WEEK_SECONDS as int);
    lemma_window_sum_bounds(
        rows,
        rows.len() as int,
        now,
        WEEK_SECONDS as int,
        MONTH_SECONDS as int,
    );
}

impl Tables {
    /// The totals of the three windows that end at `now`.
    pub open spec fn totals(self, now: int) -> (nat, nat, nat) {
        (
            window_sum(self.spends, now, DAY_SECONDS as int),
            window_sum(self.spends, now, WEEK_SECONDS as int),
            window_sum(self.spends, now, MONTH_SECONDS as int),
        )
    }

    /// Whether the switch is set.
    pub open spec fn is_frozen(self) -> bool {
        self.freeze matches Some(f) && f.frozen
    }

    /// How often the wallet was frozen.
    pub open spec fn generation(self) -> int {
        match self.freeze {
            Some(f) => f.generation as int,
            None => 0,
        }
    }
}

/// Whether the spend is to be signed at `now`: it waits, its hold has passed, and somebody was
/// told of it.
pub open spec fn is_due(e: PendingEntry, now: int) -> bool {
    e.row.status == PendingStatus::Pending && e.row.hold_until <= now && e.notify_delivered
}

/// Whether the spend would be due at `now` had anybody been told of it.
pub open spec fn is_due_untold(e: PendingEntry, now: int) -> bool {
    e.row.status == PendingStatus::Pending && e.row.hold_until <= now && !e.notify_delivered
}

/// Whether somebody has to be told of the spend again: it waits, its hold has not passed or nobody
/// was ever told, and the last notification is at least `interval` old.
pub open spec fn needs_renotify(e: PendingEntry, now: int, interval: int) -> bool {
    &&& e.row.status == PendingStatus::Pending
    &&& e.row.hold_until > now || !e.notify_delivered
    &&& e.last_notified_at <= now - interval
}

/// The ids of some rows.
pub open spec fn ids(rows: Seq<PendingEntry>) -> Seq<Seq<char>> {
    rows.map_values(|e: PendingEntry| e.row.txid@)
}

fn copy_text(s: &Option<String>) -> (r: Option<String>)
    ensures
        r == *s,
{
    match s {
        Some(t) => Some(t.clone()),
        None => None,
    }
}

fn owned_text(s: Option<&str>) -> (r: Option<String>)
    ensures
        (r is Some) == (s is Some),
        s is Some ==> r.unwrap()@ == s.unwrap()@,
{
    match s {
        Some(t) => Some(t.to_owned()),
        None => None,
    }
}

impl PendingRow {
    fn duplicate(&self) -> (r: PendingRow)
        ensures
            r == *self,
    {
        PendingRow {
            txid: self.txid.clone(),
            psbt_base64: self.psbt_base64.clone(),
            spend_amount_sat: self.spend_amount_sat,
            fee_sat: self.fee_sat,
            created_at: self.created_at,
            hold_until: self.hold_until,
            status: self.status,
            signed_psbt_base64: copy_text(&self.signed_psbt_base64),
            message: copy_text(&self.message),
        }
    }
}

impl PolicyState {
    fn duplicate(&self) -> (r: PolicyState)
        ensures
            r == *self,
    {
        PolicyState {
            version: self.version,
            policy_json: self.policy_json.clone(),
            updated_at: self.updated_at,
        }
    }
}

impl Ledger {
    /// No two spends, and no two pending spends, have the same id.
    pub open spec fn wf(self) -> bool {
        &&& forall|i: int, j: int|
            0 <= i < j < self.spends@.len() ==> (#[trigger] self.spends@[i]).txid@ != (
            #[trigger] self.spends@[j]).txid@
        &&& forall|i: int, j: int|
            0 <= i < j < self.pending@.len() ==> (#[trigger] self.pending@[i]).row.txid@ != (
            #[trigger] self.pending@[j]).row.txid@
    }

    /// A ledger with nothing in it.
    pub fn new() -> (r: Ledger)
        ensures
            r.wf(),
            r@ == (Tables {
                spends: Seq::empty(),
                pending: Seq::empty(),
                policy: None,
                freeze: None,
                seen: Seq::empty(),
            }),
    {
        Ledger {
            spends: Vec::new(),
            pending: Vec::new(),
            policy: None,
            freeze: None,
            seen: Vec::new(),
        }
    }

    /// Records that a notification of the spend was confirmed delivered at `at`, which is what lets
    /// it come due.
    pub fn mark_notified(&mut self, txid: &str, at: i64)
        requires
            old(self).wf(),
        ensures
            final(self).wf(),
            final(self)@ == (Tables {
                pending: changed(
                    old(self)@.pending,
                    txid@,
                    |e: PendingEntry| told(e, at),
                ),
                ..old(self)@
            }),
    {
        let ghost rows = self.pending@;
        let ghost after = changed(
            rows,
            txid@,
            |e: PendingEntry| told(e, at),
        );
        let n: usize = self.pending.len();
        let mut i: usize = 0;
        while i < n
            invariant
                i <= n,
                n == rows.len(),
                self.pending@.len() == n,
                after.len() == n,
                self@ == (Tables { pending: self.pending@, ..old(self)@ }),
                rows == old(self)@.pending,
                forall|j: int| 0 <= j < i ==> self.pending@[j] == after[j],
                forall|j: int| i <= j < n ==> self.pending@[j] == rows[j],
                after == changed(
                    rows,
                    txid@,
                    |e: PendingEntry| told(e, at),
                ),
            decreases n - i,
        {
            if same_text(self.pending[i].row.txid.as_str(), txid) {
                self.pending[i].last_notified_at = at;
                self.pending[i].notify_delivered = true;
            }
            i = i + 1;
        }
        assert(self.pending@ =~= after);
    }

    /// The pending spends of which somebody has to be told again. See [`needs_renotify`].
    pub fn pending_needing_renotify(&self, now: i64, interval_seconds: i64) -> (r: Vec<PendingRow>)
        ensures
            r@ == self@.pending.filter(
                |e: PendingEntry| needs_renotify(e, now as int, interval_seconds as int),
            ).map_values(|e: PendingEntry| e.row),
    {
        let ghost pred = |e: PendingEntry|
            needs_renotify(e, now as int, interval_seconds as int);
        let ghost pick = |e: PendingEntry| e.row;
        let mut out: Vec<PendingRow> = Vec::new();
        let mut i: usize = 0;
        assert(self.pending@.take(0).filter(pred).map_values(pick) =~= Seq::<PendingRow>::empty());
        while i < self.pending.len()
            invariant
                i <= self.pending.len(),
                pred == (|e: PendingEntry|
                    needs_renotify(e, now as int, interval_seconds as int)),
                pick == (|e: PendingEntry| e.row),
                out@ == self.pending@.take(i as int).filter(pred).map_values(pick),
            decreases self.pending.len() - i,
        {
            let ghost now_rows = self.pending@.take(i + 1);
            assert(now_rows.drop_last() =~= self.pending@.take(i as int));
            assert(now_rows.last() == self.pending@[i as int]);
            reveal_with_fuel(Seq::filter, 2);
            let e = &self.pending[i];
            let since: i128 = now as i128 - interval_seconds as i128;
            if e.row.status == PendingStatus::Pending && (e.row.hold_until > now
                || !e.notify_delivered) && (e.last_notified_at as i128) <= since {
                out.push(e.row.duplicate());
            }
            assert(out@ =~= now_rows.filter(pred).map_values(pick));
            i = i + 1;
        }
        assert(self.pending@.take(i as int) =~= self.pending@);
        out
    }

    /// The ids of the spends that are to be signed now. See [`is_due`].
    pub fn due_pending(&self, now: i64) -> (r: Vec<String>)
        ensures
            r.deep_view() == ids(
                self@.pending.filter(|e: PendingEntry| is_due(e, now as int)),
            ),
    {
        self.ids_past_hold(now, true)
    }

    /// The ids of the spends whose hold has passed and of which nobody was told: they are held
    /// back, and that must not go unnoticed. See [`is_due_untold`].
    pub fn due_pending_undelivered(&self, now: i64) -> (r: Vec<String>)
        ensures
            r.deep_view() == ids(
                self@.pending.filter(|e: PendingEntry| is_due_untold(e, now as int)),
            ),
    {
        self.ids_past_hold(now, false)
    }

    fn ids_past_hold(&self, now: i64, delivered: bool) -> (r: Vec<String>)
        ensures
            delivered ==> r.deep_view() == ids(
                self@.pending.filter(|e: PendingEntry| is_due(e, now as int)),
            ),
            !delivered ==> r.deep_view() == ids(
                self@.pending.filter(|e: PendingEntry| is_due_untold(e, now as int)),
            ),
    {
        let ghost pred = if delivered {
            |e: PendingEntry| is_due(e, now as int)
        } else {
            |e: PendingEntry| is_due_untold(e, now as int)
        };
        let mut out: Vec<String> = Vec::new();
        let mut i: usize = 0;
        assert(out.deep_view() =~= ids(self.pending@.take(0).filter(pred)));
        while i < self.pending.len()
            invariant
                i <= self.pending.len(),
                delivered ==> pred == (|e: PendingEntry| is_due(e, now as int)),
                !delivered ==> pred == (|e: PendingEntry| is_due_untold(e, now as int)),
                out.deep_view() == ids(self.pending@.take(i as int).filter(pred)),
            decreases self.pending.len() - i,
        {
            let ghost now_rows = self.pending@.take(i + 1);
            assert(now_rows.drop_last() =~= self.pending@.take(i as int));
            assert(now_rows.last() == self.pending@[i as int]);
            reveal_with_fuel(Seq::filter, 2);
            let ghost before = out.deep_view();
            let e = &self.pending[i];
            assert(pred(*e) <==> e.row.status == PendingStatus::Pending && e.row.hold_until <= now
                && e.notify_delivered == delivered);
            if e.row.status == PendingStatus::Pending && e.row.hold_until <= now
                && e.notify_delivered == delivered {
                out.push(e.row.txid.clone());
                assert(out.deep_view() =~= before.push(e.row.txid@));
            }
            assert(out.deep_view() =~= ids(now_rows.filter(pred)));
            i = i + 1;
        }
        assert(self.pending@.take(i as int) =~= self.pending@);
        out
    }

    /// Whether signing is frozen.
    pub fn is_frozen(&self) -> (r: bool)
        ensures
            r == self@.is_frozen(),
    {
        match &self.freeze {
            Some(f) => f.frozen,
            None => false,
        }
    }

    /// How often the wallet was frozen.
    pub fn freeze_generation(&self) -> (r: u64)
        ensures
            r == self@.generation(),
    {
        match &self.freeze {
            Some(f) => f.generation,
            None => 0,
        }
    }

    /// Sets or lifts the freeze. To freeze starts a new generation, also where the wallet is frozen
    /// already; to unfreeze never does, and leaves a wallet that never was frozen as it is.
    pub fn set_frozen(&mut self, frozen: bool, changed_at: i64, reason: Option<&str>)
        requires
            old(self).wf(),
            frozen ==> old(self)@.generation() < u64::MAX,
        ensures
            final(self).wf(),
            sets_freeze(old(self)@, final(self)@, frozen, changed_at, reason),
    {
        let generation: u64 = self.freeze_generation();
        if frozen {
            self.freeze = Some(
                FreezeState {
                    frozen: true,
                    changed_at,
                    reason: owned_text(reason),
                    generation: generation + 1,
                },
            );
        } else if self.freeze.is_some() {
            self.freeze = Some(
                FreezeState { frozen: false, changed_at, reason: owned_text(reason), generation },
            );
        }
    }

    /// Whether the message was handled already.
    pub fn has_seen_nostr_event(&self, event_id: &str) -> (r: bool)
        ensures
            r == was_seen(self@.seen, event_id@),
    {
        let mut i: usize = 0;
        while i < self.seen.len()
            invariant
                i <= self.seen.len(),
                forall|j: int| 0 <= j < i ==> (#[trigger] self.seen@[j]).event_id@ != event_id@,
            decreases self.seen.len() - i,
        {
            if same_text(self.seen[i].event_id.as_str(), event_id) {
                return true;
            }
            i = i + 1;
        }
        false
    }

    /// Records that the message was handled. One that was recorded before keeps its time.
    pub fn mark_nostr_event_seen(&mut self, event_id: &str, seen_at: i64)
        requires
            old(self).wf(),
        ensures
            final(self).wf(),
            remembers(old(self)@, event_id@, seen_at, final(self)@),
    {
        if !self.has_seen_nostr_event(event_id) {
            self.seen.push(SeenEvent { event_id: event_id.to_owned(), seen_at });
            assert(self@.seen.drop_last() =~= old(self)@.seen);
        }
    }

    /// Forgets the messages handled before `cutoff`, and says how many they were.
    pub fn prune_nostr_seen_events(&mut self, cutoff: i64) -> (r: u64)
        requires
            old(self).wf(),
        ensures
            final(self).wf(),
            final(self)@ == (Tables {
                seen: old(self)@.seen.filter(|e: SeenEvent| e.seen_at >= cutoff),
                ..old(self)@
            }),
            r == old(self)@.seen.len() - final(self)@.seen.len(),
    {
        let ghost pred = |e: SeenEvent| e.seen_at >= cutoff;
        let ghost all = self.seen@;
        let mut rows: Vec<SeenEvent> = Vec::new();
        core::mem::swap(&mut rows, &mut self.seen);
        let n: usize = rows.len();
        let mut kept: Vec<SeenEvent> = Vec::new();
        let mut i: usize = 0;
        assert(kept@ =~= all.take(0).filter(pred));
        while i < n
            invariant
                i <= n,
                n == all.len(),
                rows@ == all,
                pred == (|e: SeenEvent| e.seen_at >= cutoff),
                kept@ == all.take(i as int).filter(pred),
                kept@.len() <= i,
            decreases n - i,
        {
            let ghost upto = all.take(i + 1);
            assert(upto.drop_last() =~= all.take(i as int));
            assert(upto.last() == all[i as int]);
            reveal_with_fuel(Seq::filter, 2);
            if rows[i].seen_at >= cutoff {
                kept.push(
                    SeenEvent { event_id: rows[i].event_id.clone(), seen_at: rows[i].seen_at },
                );
            }
            assert(kept@ =~= upto.filter(pred));
            i = i + 1;
        }
        assert(all.take(n as int) =~= all);
        let gone: u64 = (n - kept.len()) as u64;
        self.seen = kept;
        gone
    }

    /// Brings the hold of a pending spend to `now`, and says whether there was one. Nothing else of
    /// the spend changes, so that it still has to be told of, can still be vetoed, and is still
    /// held against the policy when it is signed.
    pub fn release_hold(&mut self, txid: &str, now: i64) -> (r: bool)
        requires
            old(self).wf(),
        ensures
            final(self).wf(),
            releases(old(self)@, txid@, now, r, final(self)@),
    {
        let ghost rows = self.pending@;
        let ghost change = |e: PendingEntry| released(e, now);
        let ghost after = changed(rows, txid@, change);
        let n: usize = self.pending.len();
        let mut found = false;
        let mut i: usize = 0;
        while i < n
            invariant
                i <= n,
                n == rows.len(),
                self.pending@.len() == n,
                after.len() == n,
                self@ == (Tables { pending: self.pending@, ..old(self)@ }),
                rows == old(self)@.pending,
                old(self).wf(),
                change == (|e: PendingEntry| released(e, now)),
                after == changed(rows, txid@, change),
                found == (pending_of(rows.take(i as int), txid@) matches Some(e) && e.row.status
                    == PendingStatus::Pending),
                forall|j: int| 0 <= j < i ==> self.pending@[j] == after[j],
                forall|j: int| i <= j < n ==> self.pending@[j] == rows[j],
            decreases n - i,
        {
            proof {
                assert(rows.take(i + 1).drop_last() =~= rows.take(i as int));
                assert(rows.take(i + 1).last() == rows[i as int]);
                if pending_of(rows.take(i as int), txid@) is Some {
                    lemma_pending_of_is_there(rows.take(i as int), txid@);
                }
            }
            if same_text(self.pending[i].row.txid.as_str(), txid) && self.pending[i].row.status
                == PendingStatus::Pending {
                self.pending[i].row.hold_until = now;
                found = true;
            }
            i = i + 1;
        }
        assert(self.pending@ =~= after);
        assert(rows.take(n as int) =~= rows);
        found
    }

    /// The totals of the three windows that end at `now`, if they fit.
    pub fn checked_rolling_totals(&self, now: i64) -> (r: Option<RollingTotals>)
        ensures
            match r {
                Some(t) => self@.totals(now as int) == (
                    t.day_sat as nat,
                    t.week_sat as nat,
                    t.month_sat as nat,
                ),
                None => self@.totals(now as int).2 > u64::MAX,
            },
    {
        let ghost rows = self.spends@;
        let mut day: u64 = 0;
        let mut week: u64 = 0;
        let mut month: u64 = 0;
        let mut i: usize = 0;
        while i < self.spends.len()
            invariant
                i <= self.spends.len(),
                rows == self.spends@,
                day == window_sum(rows.take(i as int), now as int, DAY_SECONDS as int),
                week == window_sum(rows.take(i as int), now as int, WEEK_SECONDS as int),
                month == window_sum(rows.take(i as int), now as int, MONTH_SECONDS as int),
            decreases self.spends.len() - i,
        {
            proof {
                let upto = rows.take(i + 1);
                assert(upto.drop_last() =~= rows.take(i as int));
                assert(upto.last() == rows[i as int]);
                law_longer_windows_hold_more(upto, now as int);
                law_longer_windows_hold_more(rows.take(i as int), now as int);
                lemma_window_sum_bounds(
                    rows,
                    i + 1,
                    now as int,
                    MONTH_SECONDS as int,
                    MONTH_SECONDS as int,
                );
            }
            let age: i128 = now as i128 - self.spends[i].recorded_at as i128;
            let amount: u64 = self.spends[i].spend_amount_sat;
            if age >= 0 && age < MONTH_SECONDS as i128 {
                if amount > u64::MAX - month {
                    return None;
                }
                month = month + amount;
                if age < WEEK_SECONDS as i128 {
                    week = week + amount;
                }
                if age < DAY_SECONDS as i128 {
                    day = day + amount;
                }
            }
            i = i + 1;
        }
        assert(rows.take(i as int) =~= rows);
        Some(RollingTotals { day_sat: day, week_sat: week, month_sat: month })
    }

    /// The totals of the three windows that end at `now`.
    pub fn rolling_totals(&self, now: i64) -> (r: RollingTotals)
        requires
            self@.totals(now as int).2 <= u64::MAX,
        ensures
            self@.totals(now as int) == (
                r.day_sat as nat,
                r.week_sat as nat,
                r.month_sat as nat,
            ),
    {
        self.checked_rolling_totals(now).unwrap()
    }

    /// The pending spend under `txid`.
    pub fn get_pending(&self, txid: &str) -> (r: Option<PendingRow>)
        ensures
            match r {
                Some(row) => pending_of(self@.pending, txid@) matches Some(e) && row == e.row,
                None => pending_of(self@.pending, txid@) is None,
            },
    {
        let ghost rows = self.pending@;
        let mut i: usize = 0;
        while i < self.pending.len()
            invariant
                i <= self.pending.len(),
                rows == self.pending@,
                pending_of(rows.take(i as int), txid@) is None,
            decreases self.pending.len() - i,
        {
            proof {
                assert(rows.take(i + 1).drop_last() =~= rows.take(i as int));
                assert(rows.take(i + 1).last() == rows[i as int]);
            }
            if same_text(self.pending[i].row.txid.as_str(), txid) {
                proof {
                    lemma_first_pending_stays(rows, i + 1, txid@);
                }
                return Some(self.pending[i].row.duplicate());
            }
            i = i + 1;
        }
        assert(rows.take(i as int) =~= rows);
        None
    }

    /// Whether the spend under `txid` is to be signed now. See [`is_due`].
    pub fn is_due_now(&self, txid: &str, now: i64) -> (r: bool)
        ensures
            r == (pending_of(self@.pending, txid@) matches Some(e) && is_due(e, now as int)),
    {
        let ghost rows = self.pending@;
        let mut i: usize = 0;
        while i < self.pending.len()
            invariant
                i <= self.pending.len(),
                rows == self.pending@,
                pending_of(rows.take(i as int), txid@) is None,
            decreases self.pending.len() - i,
        {
            proof {
                assert(rows.take(i + 1).drop_last() =~= rows.take(i as int));
                assert(rows.take(i + 1).last() == rows[i as int]);
            }
            let e = &self.pending[i];
            if same_text(e.row.txid.as_str(), txid) {
                proof {
                    lemma_first_pending_stays(rows, i + 1, txid@);
                }
                return e.row.status == PendingStatus::Pending && e.row.hold_until <= now
                    && e.notify_delivered;
            }
            i = i + 1;
        }
        assert(rows.take(i as int) =~= rows);
        false
    }

    /// Whether `txid` is recorded: if so, it is neither held against the policy nor recorded again.
    pub fn already_recorded(&self, txid: &str) -> (r: bool)
        ensures
            r == (spend_of(self@.spends, txid@) is Some),
    {
        let ghost rows = self.spends@;
        let mut i: usize = 0;
        while i < self.spends.len()
            invariant
                i <= self.spends.len(),
                rows == self.spends@,
                spend_of(rows.take(i as int), txid@) is None,
            decreases self.spends.len() - i,
        {
            proof {
                assert(rows.take(i + 1).drop_last() =~= rows.take(i as int));
                assert(rows.take(i + 1).last() == rows[i as int]);
            }
            if same_text(self.spends[i].txid.as_str(), txid) {
                proof {
                    lemma_first_spend_stays(rows, i + 1, txid@);
                }
                return true;
            }
            i = i + 1;
        }
        assert(rows.take(i as int) =~= rows);
        false
    }

    /// Records a spend. Fails, with nothing changed, exactly where its id is recorded already.
    pub fn record_spend(
        &mut self,
        txid: &str,
        recorded_at: i64,
        spend_amount_sat: u64,
        fee_sat: u64,
    ) -> (r: Result<(), LedgerError>)
        requires
            old(self).wf(),
        ensures
            final(self).wf(),
            records(old(self)@, txid@, recorded_at, spend_amount_sat, fee_sat, r, final(self)@),
    {
        if self.already_recorded(txid) {
            return Err(LedgerError::AlreadyRecorded);
        }
        proof {
            lemma_no_spend_of(self.spends@, txid@);
        }
        self.spends.push(
            SpendRow { txid: txid.to_owned(), recorded_at, spend_amount_sat, fee_sat },
        );
        assert(self@.spends.drop_last() =~= old(self)@.spends);
        Ok(())
    }

    /// Queues a spend, of which nobody has been told yet. Fails, with nothing changed, exactly
    /// where its id is in the queue already.
    pub fn insert_pending(
        &mut self,
        txid: &str,
        psbt_base64: &str,
        spend_amount_sat: u64,
        fee_sat: u64,
        created_at: i64,
        hold_until: i64,
    ) -> (r: Result<(), LedgerError>)
        requires
            old(self).wf(),
        ensures
            final(self).wf(),
            queues(
                old(self)@,
                txid@,
                psbt_base64@,
                spend_amount_sat,
                fee_sat,
                created_at,
                hold_until,
                r,
                final(self)@,
            ),
    {
        if self.get_pending(txid).is_some() {
            return Err(LedgerError::AlreadyPending);
        }
        proof {
            lemma_no_pending_of(self.pending@, txid@);
        }
        self.pending.push(
            PendingEntry {
                row: PendingRow {
                    txid: txid.to_owned(),
                    psbt_base64: psbt_base64.to_owned(),
                    spend_amount_sat,
                    fee_sat,
                    created_at,
                    hold_until,
                    status: PendingStatus::Pending,
                    signed_psbt_base64: None,
                    message: None,
                },
                last_notified_at: 0,
                notify_delivered: false,
            },
        );
        assert(self@.pending.drop_last() =~= old(self)@.pending);
        Ok(())
    }

    fn set_pending_status(
        &mut self,
        txid: &str,
        status: PendingStatus,
        signed_psbt_base64: &Option<String>,
        message: &Option<String>,
    )
        requires
            old(self).wf(),
        ensures
            final(self).wf(),
            final(self)@ == (Tables {
                pending: changed(
                    old(self)@.pending,
                    txid@,
                    |e: PendingEntry| settled(e, status, *signed_psbt_base64, *message),
                ),
                ..old(self)@
            }),
    {
        let ghost rows = self.pending@;
        let ghost change = |e: PendingEntry|
            settled(e, status, *signed_psbt_base64, *message);
        let ghost after = changed(rows, txid@, change);
        let n: usize = self.pending.len();
        let mut i: usize = 0;
        while i < n
            invariant
                i <= n,
                n == rows.len(),
                self.pending@.len() == n,
                after.len() == n,
                self@ == (Tables { pending: self.pending@, ..old(self)@ }),
                rows == old(self)@.pending,
                change == (|e: PendingEntry|
                    settled(e, status, *signed_psbt_base64, *message)),
                after == changed(rows, txid@, change),
                forall|j: int| 0 <= j < i ==> self.pending@[j] == after[j],
                forall|j: int| i <= j < n ==> self.pending@[j] == rows[j],
            decreases n - i,
        {
            if same_text(self.pending[i].row.txid.as_str(), txid) {
                self.pending[i].row.status = status;
                self.pending[i].row.signed_psbt_base64 = copy_text(signed_psbt_base64);
                self.pending[i].row.message = copy_text(message);
            }
            i = i + 1;
        }
        assert(self.pending@ =~= after);
    }

    /// Marks the spend as signed, and keeps the signed transaction.
    pub fn mark_pending_signed(&mut self, txid: &str, signed_psbt_base64: String)
        requires
            old(self).wf(),
        ensures
            final(self).wf(),
            marks(
                old(self)@,
                txid@,
                PendingStatus::Signed,
                Some(signed_psbt_base64),
                None,
                final(self)@,
            ),
    {
        let signed = Some(signed_psbt_base64);
        self.set_pending_status(txid, PendingStatus::Signed, &signed, &None);
    }

    /// Marks the spend as refused, and keeps why.
    pub fn mark_pending_denied(&mut self, txid: &str, message: String)
        requires
            old(self).wf(),
        ensures
            final(self).wf(),
            marks(old(self)@, txid@, PendingStatus::Denied, None, Some(message), final(self)@),
    {
        let message = Some(message);
        self.set_pending_status(txid, PendingStatus::Denied, &None, &message);
    }

    /// Marks the spend as failed, and keeps why.
    pub fn mark_pending_failed(&mut self, txid: &str, message: String)
        requires
            old(self).wf(),
        ensures
            final(self).wf(),
            marks(old(self)@, txid@, PendingStatus::Failed, None, Some(message), final(self)@),
    {
        let message = Some(message);
        self.set_pending_status(txid, PendingStatus::Failed, &None, &message);
    }

    /// Stops a pending spend for good. The result is the status that the spend has afterwards;
    /// nothing where there is no such spend. One that is no longer pending stays as it is.
    pub fn veto_pending(&mut self, txid: &str) -> (r: Option<PendingStatus>)
        requires
            old(self).wf(),
        ensures
            final(self).wf(),
            stops(old(self)@, txid@, r, final(self)@),
    {
        match self.get_pending(txid) {
            None => None,
            Some(row) => {
                if row.status == PendingStatus::Pending {
                    self.set_pending_status(txid, PendingStatus::Vetoed, &None, &None);
                    Some(PendingStatus::Vetoed)
                } else {
                    Some(row.status)
                }
            },
        }
    }

    /// The policy in force, if there ever was one.
    pub fn get_policy_state(&self) -> (r: Option<PolicyState>)
        ensures
            r == self@.policy,
    {
        match &self.policy {
            Some(p) => Some(p.duplicate()),
            None => None,
        }
    }

    /// Puts a policy in force.
    pub fn set_policy_state(&mut self, version: u64, policy_json: String, updated_at: i64)
        requires
            old(self).wf(),
        ensures
            final(self).wf(),
            final(self)@ == (Tables {
                policy: Some(PolicyState { version, policy_json, updated_at }),
                ..old(self)@
            }),
    {
        self.policy = Some(PolicyState { version, policy_json, updated_at });
    }

    /// The policy in force. Where there never was one, the default comes into force as version 1;
    /// where there was, the default counts for nothing.
    pub fn load_or_seed_policy_state(&mut self, default_policy_json: String, now: i64) -> (r:
        PolicyState)
        requires
            old(self).wf(),
        ensures
            final(self).wf(),
            seeds_policy(old(self)@, default_policy_json, now, r, final(self)@),
    {
        match self.get_policy_state() {
            Some(p) => p,
            None => {
                let seeded = PolicyState {
                    version: 1,
                    policy_json: default_policy_json,
                    updated_at: now,
                };
                let copy = seeded.duplicate();
                self.policy = Some(seeded);
                copy
            },
        }
    }
}

/// The entry with its hold brought to `now`, if it is pending.
pub open spec fn released(e: PendingEntry, now: i64) -> PendingEntry {
    if e.row.status == PendingStatus::Pending {
        PendingEntry { row: PendingRow { hold_until: now, ..e.row }, ..e }
    } else {
        e
    }
}

/// The entry with another status, and what goes with it.
pub open spec fn settled(
    e: PendingEntry,
    status: PendingStatus,
    signed_psbt_base64: Option<String>,
    message: Option<String>,
) -> PendingEntry {
    PendingEntry { row: PendingRow { status, signed_psbt_base64, message, ..e.row }, ..e }
}

/// Whether `after` is `before` with one more spend.
pub open spec fn adds_spend(
    before: Tables,
    after: Tables,
    txid: Seq<char>,
    recorded_at: i64,
    spend_amount_sat: u64,
    fee_sat: u64,
) -> bool {
    &&& after == (Tables { spends: after.spends, ..before })
    &&& after.spends.len() == before.spends.len() + 1
    &&& after.spends.drop_last() == before.spends
    &&& after.spends.last().txid@ == txid
    &&& after.spends.last().recorded_at == recorded_at
    &&& after.spends.last().spend_amount_sat == spend_amount_sat
    &&& after.spends.last().fee_sat == fee_sat
}

/// Whether `e` is a spend that was queued just now.
pub open spec fn is_fresh(
    e: PendingEntry,
    txid: Seq<char>,
    psbt_base64: Seq<char>,
    spend_amount_sat: u64,
    fee_sat: u64,
    created_at: i64,
    hold_until: i64,
) -> bool {
    &&& e.row.txid@ == txid
    &&& e.row.psbt_base64@ == psbt_base64
    &&& e.row.spend_amount_sat == spend_amount_sat
    &&& e.row.fee_sat == fee_sat
    &&& e.row.created_at == created_at
    &&& e.row.hold_until == hold_until
    &&& e.row.status == PendingStatus::Pending
    &&& e.row.signed_psbt_base64 is None
    &&& e.row.message is None
    &&& e.last_notified_at == 0
    &&& !e.notify_delivered
}

proof fn lemma_pending_of_is_there(rows: Seq<PendingEntry>, txid: Seq<char>)
    requires
        pending_of(rows, txid) is Some,
    ensures
        exists|i: int|
            0 <= i < rows.len() && #[trigger] rows[i] == pending_of(rows, txid).unwrap()
                && rows[i].row.txid@ == txid,
    decreases rows.len(),
{
    if pending_of(rows.drop_last(), txid) is Some {
        lemma_pending_of_is_there(rows.drop_last(), txid);
        let i = choose|i: int|
            0 <= i < rows.drop_last().len() && #[trigger] rows.drop_last()[i] == pending_of(
                rows.drop_last(),
                txid,
            ).unwrap() && rows.drop_last()[i].row.txid@ == txid;
        assert(rows[i] == rows.drop_last()[i]);
    } else {
        assert(rows[rows.len() - 1] == rows.last());
    }
}

proof fn lemma_first_pending_stays(rows: Seq<PendingEntry>, n: int, txid: Seq<char>)
    requires
        0 <= n <= rows.len(),
        pending_of(rows.take(n), txid) is Some,
    ensures
        pending_of(rows, txid) == pending_of(rows.take(n), txid),
    decreases rows.len(),
{
    if n < rows.len() {
        assert(rows.drop_last().take(n) =~= rows.take(n));
        lemma_first_pending_stays(rows.drop_last(), n, txid);
    } else {
        assert(rows.take(n) =~= rows);
    }
}

proof fn lemma_first_spend_stays(rows: Seq<SpendRow>, n: int, txid: Seq<char>)
    requires
        0 <= n <= rows.len(),
        spend_of(rows.take(n), txid) is Some,
    ensures
        spend_of(rows, txid) == spend_of(rows.take(n), txid),
    decreases rows.len(),
{
    if n < rows.len() {
        assert(rows.drop_last().take(n) =~= rows.take(n));
        lemma_first_spend_stays(rows.drop_last(), n, txid);
    } else {
        assert(rows.take(n) =~= rows);
    }
}

proof fn lemma_no_pending_of(rows: Seq<PendingEntry>, txid: Seq<char>)
    requires
        pending_of(rows, txid) is None,
    ensures
        forall|i: int| 0 <= i < rows.len() ==> (#[trigger] rows[i]).row.txid@ != txid,
    decreases rows.len(),
{
    if rows.len() > 0 {
        lemma_no_pending_of(rows.drop_last(), txid);
        assert forall|i: int| 0 <= i < rows.len() implies (#[trigger] rows[i]).row.txid@
            != txid by {
            if i < rows.len() - 1 {
                assert(rows.drop_last()[i] == rows[i]);
            }
        }
    }
}

proof fn lemma_no_spend_of(rows: Seq<SpendRow>, txid: Seq<char>)
    requires
        spend_of(rows, txid) is None,
    ensures
        forall|i: int| 0 <= i < rows.len() ==> (#[trigger] rows[i]).txid@ != txid,
    decreases rows.len(),
{
    if rows.len() > 0 {
        lemma_no_spend_of(rows.drop_last(), txid);
        assert forall|i: int| 0 <= i < rows.len() implies (#[trigger] rows[i]).txid@ != txid by {
            if i < rows.len() - 1 {
                assert(rows.drop_last()[i] == rows[i]);
            }
        }
    }
}

/// A spend nobody was told of is never signed: a spend that was just queued is due at no time, and
/// from the moment a notification is confirmed it is due exactly once its hold has passed.
pub proof fn law_a_spend_nobody_was_told_of_is_never_due(e: PendingEntry, at: i64, now: int)
    ensures
        !e.notify_delivered ==> !is_due(e, now),
        e.row.status == PendingStatus::Pending ==> (is_due(
            told(e, at),
            now,
        ) <==> e.row.hold_until <= now),
{
}

/// Of the pending spends whose hold has passed, each is either due or held back because nobody was
/// told of it, and none is both. One that is held back is among those of which somebody has to be
/// told again, once the interval since the last attempt has passed.
pub proof fn law_a_passed_hold_is_due_or_untold(e: PendingEntry, now: int, interval: int)
    ensures
        e.row.status == PendingStatus::Pending && e.row.hold_until <= now <==> is_due(e, now)
            || is_due_untold(e, now),
        !(is_due(e, now) && is_due_untold(e, now)),
        is_due_untold(e, now) && e.last_notified_at <= now - interval ==> needs_renotify(
            e,
            now,
            interval,
        ),
{
}

/// What has left the queue stays out: a spend that is no longer pending is never due, nobody is
/// told of it again, and releasing its hold changes nothing of it.
pub proof fn law_a_settled_spend_stays_settled(e: PendingEntry, now: i64, interval: int)
    requires
        e.row.status != PendingStatus::Pending,
    ensures
        !is_due(e, now as int),
        !is_due_untold(e, now as int),
        !needs_renotify(e, now as int, interval),
        released(e, now) == e,
{
}

/// Releasing a hold does one thing: the spend is due at once if it is pending and somebody was
/// told of it. The amounts, the transaction, the status and the record of its notifications stay
/// as they were.
pub proof fn law_releasing_a_hold_only_ends_the_wait(e: PendingEntry, now: i64)
    ensures
        is_due(released(e, now), now as int) <==> e.row.status == PendingStatus::Pending
            && e.notify_delivered,
        released(e, now) == (PendingEntry {
            row: PendingRow { hold_until: released(e, now).row.hold_until, ..e.row },
            ..e
        }),
{
}

/// An update of one spend is an update of that spend alone, and is read back under its id.
pub proof fn law_only_the_named_spend_changes(
    rows: Seq<PendingEntry>,
    txid: Seq<char>,
    other: Seq<char>,
    change: spec_fn(PendingEntry) -> PendingEntry,
)
    requires
        forall|e: PendingEntry| (#[trigger] change(e)).row.txid == e.row.txid,
    ensures
        pending_of(changed(rows, txid, change), txid) == match pending_of(rows, txid) {
            Some(e) => Some(change(e)),
            None => None,
        },
        other != txid ==> pending_of(changed(rows, txid, change), other) == pending_of(
            rows,
            other,
        ),
    decreases rows.len(),
{
    if rows.len() > 0 {
        law_only_the_named_spend_changes(rows.drop_last(), txid, other, change);
        assert(changed(rows, txid, change).drop_last() =~= changed(
            rows.drop_last(),
            txid,
            change,
        ));
    }
}

/// A recorded spend is found again under its id, and counts in exactly the windows that it lies in,
/// by its amount.
pub proof fn law_a_recorded_spend_counts_once(
    before: Tables,
    after: Tables,
    txid: Seq<char>,
    recorded_at: i64,
    spend_amount_sat: u64,
    fee_sat: u64,
    now: int,
    length: int,
)
    requires
        adds_spend(before, after, txid, recorded_at, spend_amount_sat, fee_sat),
    ensures
        spend_of(after.spends, txid) is Some,
        window_sum(after.spends, now, length) == window_sum(before.spends, now, length)
            + if in_window(recorded_at as int, now, length) {
            spend_amount_sat as nat
        } else {
            0
        },
{
}

/// A spend leaves a window exactly when it is as old as the window is long, and one dated in the
/// future is in none.
pub proof fn law_a_window_is_half_open(recorded_at: int, now: int, length: int)
    requires
        length > 0,
    ensures
        in_window(recorded_at, recorded_at, length),
        in_window(recorded_at, recorded_at + length - 1, length),
        !in_window(recorded_at, recorded_at + length, length),
        recorded_at > now ==> !in_window(recorded_at, now, length),
{
}

/// A queued spend is found again under its id as it was queued.
pub proof fn law_a_queued_spend_is_found_again(rows: Seq<PendingEntry>, e: PendingEntry)
    requires
        pending_of(rows, e.row.txid@) is None,
    ensures
        pending_of(rows.push(e), e.row.txid@) == Some(e),
{
    assert(rows.push(e).drop_last() =~= rows);
}

/// The entry once somebody was told of the spend.
pub open spec fn told(e: PendingEntry, at: i64) -> PendingEntry {
    PendingEntry { last_notified_at: at, notify_delivered: true, ..e }
}

/// A spend that was queued, and of which somebody was told, is due from the end of its hold on,
/// and not before.
pub proof fn law_a_queued_spend_falls_due_when_its_hold_is_over(
    rows: Seq<PendingEntry>,
    e: PendingEntry,
    at: i64,
    now: int,
)
    requires
        pending_of(rows, e.row.txid@) is None,
        e.row.status == PendingStatus::Pending,
    ensures
        pending_of(
            changed(rows.push(e), e.row.txid@, |x: PendingEntry| told(x, at)),
            e.row.txid@,
        ) matches Some(x) && x.row == e.row && (is_due(x, now) <==> e.row.hold_until <= now),
{
    law_a_queued_spend_is_found_again(rows, e);
    law_only_the_named_spend_changes(
        rows.push(e),
        e.row.txid@,
        e.row.txid@,
        |x: PendingEntry| told(x, at),
    );
}

/// A vetoed spend is never due again: not once somebody is told of it, and not once its hold is
/// released.
pub proof fn law_a_vetoed_spend_is_never_due(
    rows: Seq<PendingEntry>,
    txid: Seq<char>,
    at: i64,
    now: i64,
    later: int,
)
    ensures
        ({
            let vetoed = changed(
                rows,
                txid,
                |e: PendingEntry| settled(e, PendingStatus::Vetoed, None, None),
            );
            let released = changed(vetoed, txid, |e: PendingEntry| released(e, now));
            let told = changed(released, txid, |e: PendingEntry| told(e, at));
            pending_of(told, txid) matches Some(e) ==> !is_due(e, later) && e.row.status
                == PendingStatus::Vetoed
        }),
{
    let veto = |e: PendingEntry| settled(e, PendingStatus::Vetoed, None, None);
    let release = |e: PendingEntry| released(e, now);
    let tell = |e: PendingEntry| told(e, at);
    law_only_the_named_spend_changes(rows, txid, txid, veto);
    law_only_the_named_spend_changes(changed(rows, txid, veto), txid, txid, release);
    law_only_the_named_spend_changes(
        changed(changed(rows, txid, veto), txid, release),
        txid,
        txid,
        tell,
    );
}

/// Forgetting old messages forgets none of the others: a message handled at the cutoff or later is
/// still known to have been handled.
pub proof fn law_pruning_keeps_recent_messages(rows: Seq<SeenEvent>, cutoff: i64, i: int)
    requires
        0 <= i < rows.len(),
        rows[i].seen_at >= cutoff,
    ensures
        was_seen(rows.filter(|e: SeenEvent| e.seen_at >= cutoff), rows[i].event_id@),
    decreases rows.len(),
{
    let pred = |e: SeenEvent| e.seen_at >= cutoff;
    reveal_with_fuel(Seq::filter, 2);
    let before = rows.drop_last().filter(pred);
    if i < rows.len() - 1 {
        law_pruning_keeps_recent_messages(rows.drop_last(), cutoff, i);
        assert(rows.drop_last()[i] == rows[i]);
        let k = choose|k: int| 0 <= k < before.len() && (#[trigger] before[k]).event_id@ == rows[i].event_id@;
        assert(rows.filter(pred)[k] == before[k]);
    } else {
        assert(rows.filter(pred)[before.len() as int] == rows[i]);
    }
}

/// One statement that brings a database to the tables, and what is said where it fails.
#[derive(Clone, Copy, Debug)]
pub struct Migration {
    pub sql: &'static str,
    pub context: &'static str,
    /// Whether the statement adds a column that a database may have already.
    pub adds_column: bool,
}

/// The table of spends.
pub const CREATE_LEDGER: &'static str = "CREATE TABLE IF NOT EXISTS ledger (id INTEGER PRIMARY KEY AUTOINCREMENT, txid TEXT NOT NULL UNIQUE, recorded_at INTEGER NOT NULL, spend_amount_sat INTEGER NOT NULL, fee_sat INTEGER NOT NULL)";

/// The table of pending spends.
pub const CREATE_PENDING_SIGNATURES: &'static str = "CREATE TABLE IF NOT EXISTS pending_signatures (txid TEXT PRIMARY KEY, psbt_base64 TEXT NOT NULL, spend_amount_sat INTEGER NOT NULL, fee_sat INTEGER NOT NULL, created_at INTEGER NOT NULL, hold_until INTEGER NOT NULL, status TEXT NOT NULL, signed_psbt_base64 TEXT, message TEXT)";

/// The table of the policy in force, of one row.
pub const CREATE_POLICY_STATE: &'static str = "CREATE TABLE IF NOT EXISTS policy_state (id INTEGER PRIMARY KEY CHECK (id = 1), version INTEGER NOT NULL, policy_json TEXT NOT NULL, updated_at INTEGER NOT NULL)";

/// The table of the freeze switch, of one row.
pub const CREATE_FREEZE_STATE: &'static str = "CREATE TABLE IF NOT EXISTS freeze_state (id INTEGER PRIMARY KEY CHECK (id = 1), frozen INTEGER NOT NULL, changed_at INTEGER NOT NULL, reason TEXT)";

/// When a pending spend was last told of.
pub const ADD_LAST_NOTIFIED_AT: &'static str = "ALTER TABLE pending_signatures ADD COLUMN last_notified_at INTEGER NOT NULL DEFAULT 0";

/// Whether a pending spend was ever told of; rows older than the column count as told of.
pub const ADD_NOTIFY_DELIVERED: &'static str = "ALTER TABLE pending_signatures ADD COLUMN notify_delivered INTEGER NOT NULL DEFAULT 1";

/// How often the wallet was frozen.
pub const ADD_GENERATION: &'static str = "ALTER TABLE freeze_state ADD COLUMN generation INTEGER NOT NULL DEFAULT 0";

/// The table of messages that were handled.
pub const CREATE_NOSTR_SEEN_EVENTS: &'static str = "CREATE TABLE IF NOT EXISTS nostr_seen_events (event_id TEXT PRIMARY KEY, seen_at INTEGER NOT NULL)";

/// The statements that bring a database to the tables, in order.
pub open spec fn migration_list() -> Seq<Migration> {
    seq![
        Migration {
            sql: CREATE_LEDGER,
            context: "creating ledger table",
            adds_column: false,
        },
        Migration {
            sql: CREATE_PENDING_SIGNATURES,
            context: "creating pending_signatures table",
            adds_column: false,
        },
        Migration {
            sql: CREATE_POLICY_STATE,
            context: "creating policy_state table",
            adds_column: false,
        },
        Migration {
            sql: CREATE_FREEZE_STATE,
            context: "creating freeze_state table",
            adds_column: false,
        },
        Migration {
            sql: ADD_LAST_NOTIFIED_AT,
            context: "adding last_notified_at column",
            adds_column: true,
        },
        Migration {
            sql: ADD_NOTIFY_DELIVERED,
            context: "adding notify_delivered column",
            adds_column: true,
        },
        Migration {
            sql: ADD_GENERATION,
            context: "adding generation column",
            adds_column: true,
        },
        Migration {
            sql: CREATE_NOSTR_SEEN_EVENTS,
            context: "creating nostr_seen_events table",
            adds_column: false,
        },
    ]
}

/// The statements that bring a database to the tables, in order. Each can be run again on a
/// database that has been through it: a table is made if it is not there, and a column that is
/// there already is no failure.
pub fn migrations() -> (r: Vec<Migration>)
    ensures
        r@ == migration_list(),
{
    let mut steps: Vec<Migration> = Vec::new();
    steps.push(
        Migration {
            sql: CREATE_LEDGER,
            context: "creating ledger table",
            adds_column: false,
        },
    );
    steps.push(
        Migration {
            sql: CREATE_PENDING_SIGNATURES,
            context: "creating pending_signatures table",
            adds_column: false,
        },
    );
    steps.push(
        Migration {
            sql: CREATE_POLICY_STATE,
            context: "creating policy_state table",
            adds_column: false,
        },
    );
    steps.push(
        Migration {
            sql: CREATE_FREEZE_STATE,
            context: "creating freeze_state table",
            adds_column: false,
        },
    );
    steps.push(
        Migration {
            sql: ADD_LAST_NOTIFIED_AT,
            context: "adding last_notified_at column",
            adds_column: true,
        },
    );
    steps.push(
        Migration {
            sql: ADD_NOTIFY_DELIVERED,
            context: "adding notify_delivered column",
            adds_column: true,
        },
    );
    steps.push(
        Migration {
            sql: ADD_GENERATION,
            context: "adding generation column",
            adds_column: true,
        },
    );
    steps.push(
        Migration {
            sql: CREATE_NOSTR_SEEN_EVENTS,
            context: "creating nostr_seen_events table",
            adds_column: false,
        },
    );
    assert(steps@ =~= migration_list());
    steps
}

impl Migration {
    /// Whether a failure of this statement means that there was nothing left to do: it adds a
    /// column, and the database says that the column is there.
    pub fn is_done_already(&self, failure: &str) -> (r: bool)
        ensures
            r == (self.adds_column && occurs(failure@, "duplicate column name"@)),
    {
        self.adds_column && contains(failure, "duplicate column name")
    }
}

/// A recorded spend counts in full in the totals of a day, a week and a month until 86400, 604800 and
/// 2592000 seconds have passed, not before it is recorded, and however many are recorded besides.
pub proof fn law_each_spend_counts_for_a_day_a_week_and_a_month(
    tables: Tables,
    row: SpendRow,
    now: int,
)
    ensures
        ({
            let more = Tables { spends: tables.spends.push(row), ..tables };
            let age = now - row.recorded_at;
            let sat = row.spend_amount_sat as nat;
            let before = tables.totals(now);
            let after = more.totals(now);
            &&& after.0 == before.0 + if 0 <= age < 86_400 {
                sat
            } else {
                0
            }
            &&& after.1 == before.1 + if 0 <= age < 604_800 {
                sat
            } else {
                0
            }
            &&& after.2 == before.2 + if 0 <= age < 2_592_000 {
                sat
            } else {
                0
            }
        }),
        tables.spends.len() == 0 ==> tables.totals(now) == (0nat, 0nat, 0nat),
{
    assert(tables.spends.push(row).drop_last() =~= tables.spends);
}

/// A spend is found by its id exactly where a row has the id, and what is found is the first such row.
pub proof fn law_a_spend_is_found_by_its_id(
    spends: Seq<SpendRow>,
    pending: Seq<PendingEntry>,
    txid: Seq<char>,
)
    ensures
        match spend_of(spends, txid) {
            Some(row) => exists|i: int|
                0 <= i < spends.len() && #[trigger] spends[i] == row && row.txid@ == txid && (
                forall|j: int| 0 <= j < i ==> (#[trigger] spends[j]).txid@ != txid),
            None => forall|i: int| 0 <= i < spends.len() ==> (#[trigger] spends[i]).txid@ != txid,
        },
        match pending_of(pending, txid) {
            Some(e) => exists|i: int|
                0 <= i < pending.len() && #[trigger] pending[i] == e && e.row.txid@ == txid && (
                forall|j: int| 0 <= j < i ==> (#[trigger] pending[j]).row.txid@ != txid),
            None => forall|i: int|
                0 <= i < pending.len() ==> (#[trigger] pending[i]).row.txid@ != txid,
        },
    decreases spends.len() + pending.len(),
{
    if spends.len() > 0 {
        let less = spends.drop_last();
        law_a_spend_is_found_by_its_id(less, pending, txid);
        assert(forall|i: int| 0 <= i < less.len() ==> less[i] == #[trigger] spends[i]);
        if spend_of(less, txid) is Some {
            let i = choose|i: int|
                0 <= i < less.len() && #[trigger] less[i] == spend_of(less, txid)->Some_0 && (
                forall|j: int| 0 <= j < i ==> (#[trigger] less[j]).txid@ != txid);
            assert(spends[i] == spend_of(spends, txid)->Some_0);
            assert forall|j: int| 0 <= j < i implies (#[trigger] spends[j]).txid@ != txid by {
                assert(less[j].txid@ != txid);
            }
        } else if spends.last().txid@ == txid {
            let i = spends.len() - 1;
            assert(spends[i] == spend_of(spends, txid)->Some_0);
            assert forall|j: int| 0 <= j < i implies (#[trigger] spends[j]).txid@ != txid by {
                assert(less[j].txid@ != txid);
            }
        } else {
            assert forall|i: int| 0 <= i < spends.len() implies (#[trigger] spends[i]).txid@
                != txid by {
                if i < less.len() {
                    assert(less[i].txid@ != txid);
                }
            }
        }
    } else if pending.len() > 0 {
        let less = pending.drop_last();
        law_a_spend_is_found_by_its_id(spends, less, txid);
        assert(forall|i: int| 0 <= i < less.len() ==> less[i] == #[trigger] pending[i]);
        if pending_of(less, txid) is Some {
            let i = choose|i: int|
                0 <= i < less.len() && #[trigger] less[i] == pending_of(less, txid)->Some_0 && (
                forall|j: int| 0 <= j < i ==> (#[trigger] less[j]).row.txid@ != txid);
            assert(pending[i] == pending_of(pending, txid)->Some_0);
            assert forall|j: int| 0 <= j < i implies (#[trigger] pending[j]).row.txid@ != txid by {
                assert(less[j].row.txid@ != txid);
            }
        } else if pending.last().row.txid@ == txid {
            let i = pending.len() - 1;
            assert(pending[i] == pending_of(pending, txid)->Some_0);
            assert forall|j: int| 0 <= j < i implies (#[trigger] pending[j]).row.txid@ != txid by {
                assert(less[j].row.txid@ != txid);
            }
        } else {
            assert forall|i: int| 0 <= i < pending.len() implies (#[trigger] pending[i]).row.txid@
                != txid by {
                if i < less.len() {
                    assert(less[i].row.txid@ != txid);
                }
            }
        }
    }
}

/// Whoever was told is told again once the interval has passed, and not before, for as long as the
/// spend waits; once its hold has passed, not at all. Who could not be told is tried again once the
/// interval has passed, whether or not the hold has.
pub proof fn law_a_reminder_comes_once_the_interval_has_passed(
    e: PendingEntry,
    at: i64,
    now: int,
    interval: int,
)
    ensures
        e.row.status == PendingStatus::Pending && e.row.hold_until > now ==> (needs_renotify(
            told(e, at),
            now,
            interval,
        ) <==> now - at >= interval),
        e.row.hold_until <= now ==> !needs_renotify(told(e, at), now, interval),
        e.row.status == PendingStatus::Pending && !e.notify_delivered ==> (needs_renotify(
            e,
            now,
            interval,
        ) <==> now - e.last_notified_at >= interval),
{
}

/// A queued spend is due neither before its hold has passed nor before its owner was told of it, and
/// carries what it was queued with.
pub proof fn law_a_fresh_spend_waits(
    e: PendingEntry,
    txid: Seq<char>,
    psbt_base64: Seq<char>,
    spend_amount_sat: u64,
    fee_sat: u64,
    created_at: i64,
    hold_until: i64,
    at: i64,
    now: int,
)
    requires
        is_fresh(e, txid, psbt_base64, spend_amount_sat, fee_sat, created_at, hold_until),
    ensures
        !is_due(e, now),
        is_due(told(e, at), now) <==> hold_until <= now,
        e.row.txid@ == txid,
        e.row.psbt_base64@ == psbt_base64,
        e.row.spend_amount_sat == spend_amount_sat,
        e.row.fee_sat == fee_sat,
        e.row.created_at == created_at,
        e.row.signed_psbt_base64 is None,
{
}

/// Settling a spend sets its status, what it came to and what was said of it, and nothing else.
pub proof fn law_settling_a_spend_changes_only_what_became_of_it(
    e: PendingEntry,
    status: PendingStatus,
    signed: Option<String>,
    message: Option<String>,
)
    ensures
        ({
            let s = settled(e, status, signed, message);
            &&& s.row.status == status
            &&& s.row.signed_psbt_base64 == signed
            &&& s.row.message == message
            &&& s.row.txid == e.row.txid
            &&& s.row.psbt_base64 == e.row.psbt_base64
            &&& s.row.spend_amount_sat == e.row.spend_amount_sat
            &&& s.row.fee_sat == e.row.fee_sat
            &&& s.row.created_at == e.row.created_at
            &&& s.row.hold_until == e.row.hold_until
            &&& s.last_notified_at == e.last_notified_at
            &&& s.notify_delivered == e.notify_delivered
        }),
{
}

/// Whether `after` is `before` with the freeze set or lifted.
pub open spec fn sets_freeze(
    before: Tables,
    after: Tables,
    frozen: bool,
    changed_at: i64,
    reason: Option<&str>,
) -> bool {
    &&& after == (Tables { freeze: after.freeze, ..before })
    &&& (after.freeze is Some) == (frozen || before.freeze is Some)
    &&& after.freeze matches Some(f) ==> {
        &&& f.frozen == frozen
        &&& f.changed_at == changed_at
        &&& (f.reason is Some) == (reason is Some)
        &&& f.reason matches Some(t) ==> t@ == reason.unwrap()@
        &&& f.generation == before.generation() + if frozen {
            1int
        } else {
            0
        }
    }
}

/// What is frozen is frozen, and what is unfrozen is not; every freeze starts a new generation, so that no
/// leave to lift an earlier one lifts it, and lifting one starts none. Neither touches anything else.
pub proof fn law_every_freeze_is_a_new_one(
    before: Tables,
    frozen: Tables,
    lifted: Tables,
    again: Tables,
    at: i64,
    then: i64,
    later: i64,
    reason: Option<&str>,
)
    requires
        sets_freeze(before, frozen, true, at, reason),
        sets_freeze(frozen, lifted, false, then, None),
        sets_freeze(lifted, again, true, later, reason),
    ensures
        frozen.is_frozen(),
        !lifted.is_frozen(),
        again.is_frozen(),
        frozen.generation() == before.generation() + 1,
        lifted.generation() == frozen.generation(),
        again.generation() > frozen.generation(),
        lifted.spends == before.spends,
        lifted.pending == before.pending,
        lifted.policy == before.policy,
        lifted.seen == before.seen,
{
}

/// A spend whose hold is ended is due at that very time if its owner was told, and its hold ends then, not
/// earlier.
pub proof fn law_a_released_hold_ends_now(e: PendingEntry, now: i64)
    requires
        e.row.status == PendingStatus::Pending,
    ensures
        released(e, now).row.hold_until == now,
        e.notify_delivered ==> is_due(released(e, now), now as int) && !is_due(
            released(e, now),
            now as int - 1,
        ),
{
}

/// What a list of due spends holds are the ids of all that wait, whose hold has passed, and of whom the
/// owner was told.
pub proof fn law_every_due_spend_is_listed(rows: Seq<PendingEntry>, now: int, i: int)
    requires
        0 <= i < rows.len(),
    ensures
        rows[i].row.status == PendingStatus::Pending && rows[i].row.hold_until <= now
            && rows[i].notify_delivered ==> ids(
            rows.filter(|e: PendingEntry| is_due(e, now)),
        ).contains(rows[i].row.txid@),
        rows[i].row.status == PendingStatus::Pending && rows[i].row.hold_until <= now
            && !rows[i].notify_delivered ==> ids(
            rows.filter(|e: PendingEntry| is_due_untold(e, now)),
        ).contains(rows[i].row.txid@),
{
    if is_due(rows[i], now) {
        let f = |e: PendingEntry| is_due(e, now);
        rows.lemma_filter_contains(f, i);
        let kept = rows.filter(f);
        let k = choose|k: int| 0 <= k < kept.len() && kept[k] == rows[i];
        assert(ids(kept)[k] == rows[i].row.txid@);
    }
    if is_due_untold(rows[i], now) {
        let f = |e: PendingEntry| is_due_untold(e, now);
        rows.lemma_filter_contains(f, i);
        let kept = rows.filter(f);
        let k = choose|k: int| 0 <= k < kept.len() && kept[k] == rows[i];
        assert(ids(kept)[k] == rows[i].row.txid@);
    }
}

/// Whether `r` and `after` are what stopping a spend comes to: one that waits is stopped, any other is
/// answered with what became of it.
pub open spec fn stops(
    before: Tables,
    txid: Seq<char>,
    r: Option<PendingStatus>,
    after: Tables,
) -> bool {
    match pending_of(before.pending, txid) {
        None => r is None && after == before,
        Some(e) => if e.row.status == PendingStatus::Pending {
            &&& r == Some(PendingStatus::Vetoed)
            &&& after == (Tables {
                pending: changed(
                    before.pending,
                    txid,
                    |e: PendingEntry| settled(e, PendingStatus::Vetoed, None, None),
                ),
                ..before
            })
        } else {
            r == Some(e.row.status) && after == before
        },
    }
}

/// A spend that waits is stopped by a veto, whatever is left of its hold, and is never due again; what is
/// settled stays as it is, and so does every other spend and all that is recorded.
pub proof fn law_a_veto_stops_a_waiting_spend_and_nothing_else(
    before: Tables,
    txid: Seq<char>,
    r: Option<PendingStatus>,
    after: Tables,
    other: Seq<char>,
    now: int,
)
    requires
        stops(before, txid, r, after),
    ensures
        pending_of(before.pending, txid) matches Some(e) ==> {
            &&& e.row.status == PendingStatus::Pending ==> r == Some(PendingStatus::Vetoed) && (
            pending_of(after.pending, txid) matches Some(x) && x.row.status
                == PendingStatus::Vetoed && !is_due(x, now))
            &&& e.row.status != PendingStatus::Pending ==> r == Some(e.row.status) && after
                == before
        },
        pending_of(before.pending, txid) is None <==> r is None,
        other != txid ==> pending_of(after.pending, other) == pending_of(before.pending, other),
        after.spends == before.spends,
        after.freeze == before.freeze,
        after.policy == before.policy,
{
    law_only_the_named_spend_changes(
        before.pending,
        txid,
        other,
        |e: PendingEntry| settled(e, PendingStatus::Vetoed, None, None),
    );
}

/// Whether `after` is `before` with an event remembered.
pub open spec fn remembers(
    before: Tables,
    event_id: Seq<char>,
    seen_at: i64,
    after: Tables,
) -> bool {
    &&& after == (Tables { seen: after.seen, ..before })
    &&& was_seen(before.seen, event_id) ==> after.seen == before.seen
    &&& !was_seen(before.seen, event_id) ==> {
        &&& after.seen.len() == before.seen.len() + 1
        &&& after.seen.drop_last() == before.seen
        &&& after.seen.last().event_id@ == event_id
        &&& after.seen.last().seen_at == seen_at
    }
}

/// An event that is remembered was seen from then on, and no other event is by it; nothing else changes.
pub proof fn law_an_event_is_remembered_by_its_id(
    before: Tables,
    event_id: Seq<char>,
    seen_at: i64,
    after: Tables,
    other: Seq<char>,
)
    requires
        remembers(before, event_id, seen_at, after),
    ensures
        was_seen(after.seen, event_id),
        other != event_id ==> (was_seen(after.seen, other) <==> was_seen(before.seen, other)),
        after.spends == before.spends,
        after.pending == before.pending,
        after.policy == before.policy,
        after.freeze == before.freeze,
{
    if !was_seen(before.seen, event_id) {
        let n = before.seen.len() as int;
        assert(after.seen[n].event_id@ == event_id);
        assert(forall|i: int| 0 <= i < n ==> after.seen[i] == #[trigger] before.seen[i]);
        if was_seen(before.seen, other) {
            let i = choose|i: int|
                0 <= i < before.seen.len() && (#[trigger] before.seen[i]).event_id@ == other;
            assert(after.seen[i].event_id@ == other);
        }
        if was_seen(after.seen, other) && other != event_id {
            let i = choose|i: int|
                0 <= i < after.seen.len() && (#[trigger] after.seen[i]).event_id@ == other;
            assert(before.seen[i].event_id@ == other);
        }
    }
}

/// Whether `r` and `after` are what starting with a policy comes to: the one in force, or the first.
pub open spec fn seeds_policy(
    before: Tables,
    policy_json: String,
    now: i64,
    r: PolicyState,
    after: Tables,
) -> bool {
    &&& after == (Tables { policy: Some(r), ..before })
    &&& match before.policy {
        Some(p) => r == p,
        None => r == (PolicyState { version: 1, policy_json, updated_at: now }),
    }
}

/// The policy of the configuration is only the first: once one is in force, starting again, whatever the
/// configuration says then, changes nothing.
pub proof fn law_a_policy_is_seeded_once(
    before: Tables,
    policy_json: String,
    now: i64,
    r: PolicyState,
    after: Tables,
    other_json: String,
    later: i64,
    s: PolicyState,
    last: Tables,
)
    requires
        seeds_policy(before, policy_json, now, r, after),
        seeds_policy(after, other_json, later, s, last),
    ensures
        s == r,
        last == after,
        before.policy matches Some(p) ==> r == p && after == before,
        before.policy is None ==> r.version == 1 && r.policy_json == policy_json,
{
}

/// Whether `r` and `after` are what queueing a spend comes to.
pub open spec fn queues(
    before: Tables,
    txid: Seq<char>,
    psbt_base64: Seq<char>,
    spend_amount_sat: u64,
    fee_sat: u64,
    created_at: i64,
    hold_until: i64,
    r: Result<(), LedgerError>,
    after: Tables,
) -> bool {
    match r {
        Ok(_) => {
            &&& pending_of(before.pending, txid) is None
            &&& after == (Tables { pending: after.pending, ..before })
            &&& after.pending.len() == before.pending.len() + 1
            &&& after.pending.drop_last() == before.pending
            &&& is_fresh(
                after.pending.last(),
                txid,
                psbt_base64,
                spend_amount_sat,
                fee_sat,
                created_at,
                hold_until,
            )
        },
        Err(e) => e == LedgerError::AlreadyPending && pending_of(
            before.pending,
            txid,
        ) is Some && after == before,
    }
}

/// Whether `r` and `after` are what recording a spend comes to.
pub open spec fn records(
    before: Tables,
    txid: Seq<char>,
    recorded_at: i64,
    spend_amount_sat: u64,
    fee_sat: u64,
    r: Result<(), LedgerError>,
    after: Tables,
) -> bool {
    match r {
        Ok(_) => spend_of(before.spends, txid) is None && adds_spend(
            before,
            after,
            txid,
            recorded_at,
            spend_amount_sat,
            fee_sat,
        ),
        Err(e) => e == LedgerError::AlreadyRecorded && spend_of(
            before.spends,
            txid,
        ) is Some && after == before,
    }
}

/// A spend is queued once: where none of its id is, it is found afterwards with its amounts and its hold,
/// and nothing else changes; where one is, nothing changes at all.
pub proof fn law_a_spend_is_queued_once(
    before: Tables,
    txid: Seq<char>,
    psbt_base64: Seq<char>,
    spend_amount_sat: u64,
    fee_sat: u64,
    created_at: i64,
    hold_until: i64,
    r: Result<(), LedgerError>,
    after: Tables,
    other: Seq<char>,
)
    requires
        queues(
            before,
            txid,
            psbt_base64,
            spend_amount_sat,
            fee_sat,
            created_at,
            hold_until,
            r,
            after,
        ),
    ensures
        r is Ok <==> pending_of(before.pending, txid) is None,
        r is Err ==> after == before,
        r is Ok ==> (pending_of(after.pending, txid) matches Some(e) && e.row.psbt_base64@
            == psbt_base64 && e.row.spend_amount_sat == spend_amount_sat && e.row.fee_sat == fee_sat
            && e.row.hold_until == hold_until && e.row.status == PendingStatus::Pending
            && !e.notify_delivered),
        other != txid ==> pending_of(after.pending, other) == pending_of(before.pending, other),
        after.spends == before.spends,
        after.freeze == before.freeze,
        after.policy == before.policy,
{
    if r is Ok {
        let e = after.pending.last();
        assert(after.pending == before.pending.push(e));
        law_a_queued_spend_is_found_again(before.pending, e);
        if other != txid {
            lemma_pending_pushed(before.pending, e, other);
        }
    }
}

/// A spend that is pushed onto the queue is found by its id alone.
proof fn lemma_pending_pushed(rows: Seq<PendingEntry>, e: PendingEntry, txid: Seq<char>)
    requires
        e.row.txid@ != txid,
    ensures
        pending_of(rows.push(e), txid) == pending_of(rows, txid),
{
    assert(rows.push(e).drop_last() == rows);
}

/// A spend is recorded once, and then counts in full; the second time nothing changes.
pub proof fn law_a_spend_is_recorded_once(
    before: Tables,
    txid: Seq<char>,
    recorded_at: i64,
    spend_amount_sat: u64,
    fee_sat: u64,
    r: Result<(), LedgerError>,
    after: Tables,
)
    requires
        records(before, txid, recorded_at, spend_amount_sat, fee_sat, r, after),
    ensures
        r is Ok <==> spend_of(before.spends, txid) is None,
        r is Err ==> after == before,
        r is Ok ==> {
            &&& after.spends.len() == before.spends.len() + 1
            &&& after.spends.drop_last() == before.spends
            &&& after.spends.last().txid@ == txid
            &&& after.spends.last().spend_amount_sat == spend_amount_sat
            &&& after.spends.last().recorded_at == recorded_at
        },
        after.pending == before.pending,
        after.freeze == before.freeze,
        after.policy == before.policy,
{
}

/// Whether `r` and `after` are what ending a hold now comes to.
pub open spec fn releases(
    before: Tables,
    txid: Seq<char>,
    now: i64,
    r: bool,
    after: Tables,
) -> bool {
    &&& after == (Tables {
        pending: changed(
            before.pending,
            txid,
            |e: PendingEntry| released(e, now),
        ),
        ..before
    })
    &&& r == (pending_of(before.pending, txid) matches Some(e) && e.row.status
        == PendingStatus::Pending)
}

/// Whether `after` is `before` with what became of a spend settled.
pub open spec fn marks(
    before: Tables,
    txid: Seq<char>,
    status: PendingStatus,
    signed_psbt_base64: Option<String>,
    message: Option<String>,
    after: Tables,
) -> bool {
    after == (Tables {
        pending: changed(
            before.pending,
            txid,
            |e: PendingEntry| settled(e, status, signed_psbt_base64, message),
        ),
        ..before
    })
}

/// What became of a spend is settled with the text that goes with it; its amounts stay, no other spend
/// changes, and nothing is recorded by it.
pub proof fn law_a_settled_spend_shows_what_became_of_it(
    before: Tables,
    txid: Seq<char>,
    status: PendingStatus,
    signed_psbt_base64: Option<String>,
    message: Option<String>,
    after: Tables,
    other: Seq<char>,
)
    requires
        marks(before, txid, status, signed_psbt_base64, message, after),
    ensures
        pending_of(before.pending, txid) matches Some(b) ==> (pending_of(
            after.pending,
            txid,
        ) matches Some(a) && a.row.status == status && a.row.signed_psbt_base64
            == signed_psbt_base64 && a.row.message == message && a.row.spend_amount_sat
            == b.row.spend_amount_sat && a.row.fee_sat == b.row.fee_sat && a.row.hold_until
            == b.row.hold_until),
        pending_of(before.pending, txid) is None ==> pending_of(after.pending, txid) is None,
        other != txid ==> pending_of(after.pending, other) == pending_of(before.pending, other),
        after.pending.len() == before.pending.len(),
        after.spends == before.spends,
        after.freeze == before.freeze,
        after.policy == before.policy,
{
    law_only_the_named_spend_changes(
        before.pending,
        txid,
        other,
        |e: PendingEntry| settled(e, status, signed_psbt_base64, message),
    );
}

/// A hold that is ended now ends for a spend that waits, and for it alone; a settled one is left as it is.
pub proof fn law_only_a_waiting_hold_is_ended(
    before: Tables,
    txid: Seq<char>,
    now: i64,
    r: bool,
    after: Tables,
    other: Seq<char>,
)
    requires
        releases(before, txid, now, r, after),
    ensures
        r <==> (pending_of(before.pending, txid) matches Some(e) && e.row.status
            == PendingStatus::Pending),
        pending_of(before.pending, txid) matches Some(b) ==> (pending_of(
            after.pending,
            txid,
        ) matches Some(a) && a.row.status == b.row.status && (r ==> a.row.hold_until <= now) && (!r
            ==> a.row.hold_until == b.row.hold_until)),
        other != txid ==> pending_of(after.pending, other) == pending_of(before.pending, other),
        after.spends == before.spends,
        after.freeze == before.freeze,
        after.policy == before.policy,
{
    law_only_the_named_spend_changes(
        before.pending,
        txid,
        other,
        |e: PendingEntry| released(e, now),
    );
}

}
