//! The policy: whether a transaction that has been inspected may be signed.
//!
//! - What counts against a cap is the sum of the outputs that leave the wallet. Change and
//!   payments to the wallet itself come back, so they count for nothing.
//! - The caps of a day, a week and a month are held against the total that the trailing period
//!   would have with this transaction in it.
//! - A cap is exceeded by what is strictly above it: a transaction that lands on a limit is
//!   allowed.
//! - A refusal names everything that is wrong, and nothing overrides it.

use vstd::prelude::*;
use vstd::string::*;

use crate::config::{network_label, ChainNetwork};
use crate::inspect::{InspectionReport, OutputKind, OutputReport};
use crate::keys::{
    address_for_network, address_is_for, canonical_address, parse_address,
};
use crate::ledger::RollingTotals;
use crate::text::{
    decimal, lemma_occurs_beside, lemma_occurs_in_itself, occurs, push_decimal, quote, quoted, same_text,
};

verus! {

/// A fee rate in satoshi per virtual byte: an IEEE 754 double by its bit pattern.
#[derive(Clone, Copy, Debug, PartialEq, Eq, Structural)]
pub struct FeeRate {
    pub bits: u64,
}

impl FeeRate {
    /// Whether the bits are those of a double that is no number.
    pub open spec fn is_nan(self) -> bool {
        self.bits % 0x8000_0000_0000_0000 > 0x7ff0_0000_0000_0000
    }

    /// A number that is ordered as the double is: the bits below the sign, negated where the sign
    /// is set, so that both zeros are `0`.
    pub open spec fn rank(self) -> int {
        if self.bits < 0x8000_0000_0000_0000 {
            self.bits as int
        } else {
            0x8000_0000_0000_0000 - self.bits
        }
    }

    /// Whether this double is greater than `other`; never where either is no number.
    pub open spec fn above(self, other: FeeRate) -> bool {
        !self.is_nan() && !other.is_nan() && self.rank() > other.rank()
    }

    /// Whether this double is greater than `other`; never where either is no number.
    pub fn exceeds(self, other: FeeRate) -> (r: bool)
        ensures
            r == self.above(other),
    {
        let sign: u64 = 0x8000_0000_0000_0000;
        let infinity: u64 = 0x7ff0_0000_0000_0000;
        let a: u64 = self.bits % sign;
        let b: u64 = other.bits % sign;
        if a > infinity || b > infinity {
            return false;
        }
        let a_negative = self.bits >= sign;
        let b_negative = other.bits >= sign;
        if !a_negative && !b_negative {
            a > b
        } else if a_negative && b_negative {
            a < b
        } else if b_negative {
            a > 0 || b > 0
        } else {
            false
        }
    }
}

/// The limits that an operator sets.
#[derive(Clone, Debug)]
pub struct PolicyConfig {
    pub max_tx_sat: u64,
    pub max_daily_sat: u64,
    pub max_weekly_sat: u64,
    pub max_monthly_sat: u64,
    pub max_fee_sat: u64,
    pub max_fee_rate_sat_per_vb: FeeRate,
    /// If set, every output that leaves the wallet must pay an address of this list.
    pub destination_whitelist: Option<Vec<String>>,
}

/// What is wrong with a whitelist: the first entry that is, and how.
#[derive(Clone, Copy, Debug, PartialEq, Eq, Structural)]
pub enum PolicyError {
    /// The entry is no address.
    MalformedAddress { entry: usize },
    /// The entry is an address of another network.
    WrongNetwork { entry: usize, network: ChainNetwork },
}

/// The text of an error about the entry `entry`.
pub open spec fn policy_error_text(e: PolicyError, entry: Seq<char>) -> Seq<char> {
    "policy.destination_whitelist entry "@ + quoted(entry) + match e {
        PolicyError::MalformedAddress { .. } => " is not a valid address"@,
        PolicyError::WrongNetwork { network, .. } => " is not valid for "@ + network_label(network),
    }
}

impl PolicyError {
    /// The place of the entry.
    pub open spec fn place(self) -> usize {
        match self {
            PolicyError::MalformedAddress { entry } => entry,
            PolicyError::WrongNetwork { entry, .. } => entry,
        }
    }

    /// What a person is told about the entry `entry`.
    pub fn message(self, entry: &str) -> (r: String)
        ensures
            r@ == policy_error_text(self, entry@),
    {
        let mut out = "policy.destination_whitelist entry ".to_owned();
        out.append(quote(entry).as_str());
        let mut rest = String::new();
        match self {
            PolicyError::MalformedAddress { .. } => {
                rest.append(" is not a valid address");
                assert(rest@ =~= " is not a valid address"@);
            },
            PolicyError::WrongNetwork { network, .. } => {
                rest.append(" is not valid for ");
                rest.append(network.label());
                assert(rest@ =~= " is not valid for "@ + network_label(network));
            },
        }
        out.append(rest.as_str());
        out
    }
}

/// What is wrong with one entry of a whitelist on `network`.
pub open spec fn entry_problem(s: Seq<char>, entry: usize, network: ChainNetwork) -> Option<
    PolicyError,
> {
    if canonical_address(s) is None {
        Some(PolicyError::MalformedAddress { entry })
    } else if !address_is_for(s, network) {
        Some(PolicyError::WrongNetwork { entry, network })
    } else {
        None
    }
}

/// What is wrong with the first entry of a whitelist that has something wrong with it.
pub open spec fn whitelist_problem(entries: Seq<Seq<char>>, network: ChainNetwork) -> Option<
    PolicyError,
>
    decreases entries.len(),
{
    if entries.len() == 0 {
        None
    } else {
        match whitelist_problem(entries.drop_last(), network) {
            Some(e) => Some(e),
            None => entry_problem(entries.last(), (entries.len() - 1) as usize, network),
        }
    }
}

impl PolicyConfig {
    /// The entry of the whitelist that an error is about.
    pub open spec fn entry_of(self, e: PolicyError) -> Seq<char> {
        match self.destination_whitelist {
            Some(entries) if e.place() < entries@.len() => entries@[e.place() as int]@,
            _ => Seq::empty(),
        }
    }

    /// The entry of the whitelist that an error is about.
    pub fn named_entry(&self, e: PolicyError) -> (r: String)
        ensures
            r@ == self.entry_of(e),
    {
        let place: usize = match e {
            PolicyError::MalformedAddress { entry } => entry,
            PolicyError::WrongNetwork { entry, .. } => entry,
        };
        match &self.destination_whitelist {
            Some(entries) if place < entries.len() => entries[place].clone(),
            _ => String::new(),
        }
    }

    /// What keeps this policy from being used on `network`.
    pub open spec fn problem(self, network: ChainNetwork) -> Option<PolicyError> {
        match self.destination_whitelist {
            Some(entries) => whitelist_problem(entries.deep_view(), network),
            None => None,
        }
    }

    /// Reads the whitelist, once, so that deciding on a transaction cannot fail on it. The limits
    /// are taken over, and each entry of the list becomes the canonical spelling of its address.
    /// Fails exactly where an entry is no address of `network`, with the first such entry.
    pub fn compile(&self, network: ChainNetwork) -> (r: Result<CompiledPolicy, PolicyError>)
        ensures
            match r {
                Ok(p) => self.problem(network) is None && p.compiles(*self),
                Err(e) => self.problem(network) == Some(e),
            },
    {
        let destination_whitelist = match &self.destination_whitelist {
            Some(entries) => {
                let mut list: Vec<String> = Vec::new();
                let mut i: usize = 0;
                while i < entries.len()
                    invariant
                        i <= entries.len(),
                        list@.len() == i,
                        whitelist_problem(entries.deep_view().take(i as int), network) is None,
                        forall|j: int|
                            0 <= j < i ==> canonical_address(entries[j]@) == Some(
                                (#[trigger] list@[j])@,
                            ),
                        self.destination_whitelist == Some(*entries),
                    decreases entries.len() - i,
                {
                    let ghost all = entries.deep_view();
                    assert(all.take(i + 1).drop_last() =~= all.take(i as int));
                    assert(all.take(i + 1).last() == entries[i as int]@);
                    match parse_address(entries[i].as_str()) {
                        None => {
                            proof {
                                lemma_first_problem(all, i as int, network);
                            }
                            return Err(PolicyError::MalformedAddress { entry: i });
                        },
                        Some(address) => {
                            if !address_for_network(entries[i].as_str(), network) {
                                proof {
                                    lemma_first_problem(all, i as int, network);
                                }
                                return Err(PolicyError::WrongNetwork { entry: i, network });
                            }
                            list.push(address);
                        },
                    }
                    i = i + 1;
                }
                assert(entries.deep_view().take(i as int) =~= entries.deep_view());
                Some(list)
            },
            None => None,
        };
        Ok(
            CompiledPolicy {
                max_tx_sat: self.max_tx_sat,
                max_daily_sat: self.max_daily_sat,
                max_weekly_sat: self.max_weekly_sat,
                max_monthly_sat: self.max_monthly_sat,
                max_fee_sat: self.max_fee_sat,
                max_fee_rate_sat_per_vb: self.max_fee_rate_sat_per_vb,
                destination_whitelist,
            },
        )
    }
}

/// The first problem of a whitelist is the problem of its first `n` entries, if they have one.
proof fn lemma_first_problem(entries: Seq<Seq<char>>, n: int, network: ChainNetwork)
    requires
        0 <= n < entries.len() <= usize::MAX,
        whitelist_problem(entries.take(n + 1), network) is Some,
    ensures
        whitelist_problem(entries, network) == whitelist_problem(entries.take(n + 1), network),
    decreases entries.len(),
{
    if n + 1 < entries.len() {
        assert(entries.drop_last().take(n + 1) =~= entries.take(n + 1));
        lemma_first_problem(entries.drop_last(), n, network);
    } else {
        assert(entries.take(n + 1) =~= entries);
    }
}

/// A [`PolicyConfig`] whose whitelist has been read and held against the network.
#[derive(Clone, Debug)]
pub struct CompiledPolicy {
    pub max_tx_sat: u64,
    pub max_daily_sat: u64,
    pub max_weekly_sat: u64,
    pub max_monthly_sat: u64,
    pub max_fee_sat: u64,
    pub max_fee_rate_sat_per_vb: FeeRate,
    /// The canonical spelling of each address.
    pub destination_whitelist: Option<Vec<String>>,
}

impl CompiledPolicy {
    /// Whether this is what `config` compiles to: the same limits, and the list with each entry in
    /// its canonical spelling.
    pub open spec fn compiles(self, config: PolicyConfig) -> bool {
        &&& self.max_tx_sat == config.max_tx_sat
        &&& self.max_daily_sat == config.max_daily_sat
        &&& self.max_weekly_sat == config.max_weekly_sat
        &&& self.max_monthly_sat == config.max_monthly_sat
        &&& self.max_fee_sat == config.max_fee_sat
        &&& self.max_fee_rate_sat_per_vb == config.max_fee_rate_sat_per_vb
        &&& (self.destination_whitelist is Some) == (config.destination_whitelist is Some)
        &&& self.destination_whitelist matches Some(list) ==> {
            let entries = config.destination_whitelist.unwrap();
            &&& list@.len() == entries@.len()
            &&& forall|j: int|
                0 <= j < list@.len() ==> canonical_address(entries[j]@) == Some(
                    (#[trigger] list@[j])@,
                )
        }
    }

    /// Whether `address` is on the list.
    pub open spec fn lists(self, address: Seq<char>) -> bool {
        self.destination_whitelist matches Some(list) && list.deep_view().contains(address)
    }
}

/// One way in which a transaction is against the policy.
#[derive(Clone, Debug, PartialEq, Eq)]
pub enum PolicyViolation {
    ExceedsPerTransactionCap { spend_sat: u64, cap_sat: u64 },
    ExceedsDailyCap { projected_sat: u64, cap_sat: u64 },
    ExceedsWeeklyCap { projected_sat: u64, cap_sat: u64 },
    ExceedsMonthlyCap { projected_sat: u64, cap_sat: u64 },
    ExceedsMaxFee { fee_sat: u64, cap_sat: u64 },
    ExceedsMaxFeeRate { fee_rate_sat_per_vb: FeeRate, cap_sat_per_vb: FeeRate },
    /// An output leaves the wallet for an address that is not on the whitelist.
    DestinationNotWhitelisted { output_index: usize, address: String },
    /// An output leaves the wallet for a script without an address, which no list can hold.
    DestinationAddressUnresolvable { output_index: usize },
}

/// Whether a transaction may be signed.
#[derive(Clone, Debug, PartialEq, Eq)]
pub enum PolicyDecision {
    Allow,
    /// Refused, for each of the reasons given.
    Deny(Vec<PolicyViolation>),
}

impl PolicyDecision {
    pub fn is_allowed(&self) -> (r: bool)
        ensures
            r == (self is Allow),
    {
        match self {
            PolicyDecision::Allow => true,
            PolicyDecision::Deny(_) => false,
        }
    }
}

/// The sum of the outputs that leave the wallet.
pub open spec fn destination_sum(outputs: Seq<OutputReport>) -> nat
    decreases outputs.len(),
{
    if outputs.len() == 0 {
        0
    } else {
        let before = destination_sum(outputs.drop_last());
        if outputs.last().kind == OutputKind::Destination {
            before + outputs.last().amount as nat
        } else {
            before
        }
    }
}

pub(crate) proof fn lemma_destination_sum_grows(outputs: Seq<OutputReport>, n: int)
    requires
        0 <= n <= outputs.len(),
    ensures
        destination_sum(outputs.take(n)) <= destination_sum(outputs),
    decreases outputs.len(),
{
    if n < outputs.len() {
        lemma_destination_sum_grows(outputs.drop_last(), n);
        assert(outputs.drop_last().take(n) =~= outputs.take(n));
    } else {
        assert(outputs.take(n) =~= outputs);
    }
}

/// The amount that leaves the wallet, which is also what the ledger records of a transaction.
pub fn destination_total_sat(report: &InspectionReport) -> (r: u64)
    requires
        destination_sum(report.outputs@) <= u64::MAX,
    ensures
        r == destination_sum(report.outputs@),
{
    let outputs = &report.outputs;
    let mut total: u64 = 0;
    let mut i: usize = 0;
    while i < outputs.len()
        invariant
            i <= outputs.len(),
            outputs == report.outputs,
            total == destination_sum(outputs@.take(i as int)),
            destination_sum(outputs@) <= u64::MAX,
        decreases outputs.len() - i,
    {
        proof {
            lemma_destination_sum_grows(outputs@, i + 1);
            assert(outputs@.take(i + 1).drop_last() =~= outputs@.take(i as int));
        }
        if outputs[i].kind == OutputKind::Destination {
            total = total + outputs[i].amount;
        }
        i = i + 1;
    }
    assert(outputs@.take(i as int) =~= outputs@);
    total
}

/// The violation of one cap, if `value` is above it.
pub open spec fn over(value: int, cap: int, violation: PolicyViolation) -> Seq<PolicyViolation> {
    if value > cap {
        seq![violation]
    } else {
        Seq::empty()
    }
}

/// What the whitelist has against the output at `i`.
pub open spec fn output_violations(
    output: OutputReport,
    i: int,
    policy: CompiledPolicy,
) -> Seq<PolicyViolation> {
    if output.kind != OutputKind::Destination {
        Seq::empty()
    } else {
        match output.address {
            Some(address) => if policy.lists(address@) {
                Seq::empty()
            } else {
                seq![
                    PolicyViolation::DestinationNotWhitelisted {
                        output_index: i as usize,
                        address,
                    },
                ]
            },
            None => seq![
                PolicyViolation::DestinationAddressUnresolvable { output_index: i as usize },
            ],
        }
    }
}

/// What the whitelist has against the outputs, in their order.
pub open spec fn whitelist_violations(
    outputs: Seq<OutputReport>,
    policy: CompiledPolicy,
) -> Seq<PolicyViolation>
    decreases outputs.len(),
{
    if outputs.len() == 0 {
        Seq::empty()
    } else {
        whitelist_violations(outputs.drop_last(), policy) + output_violations(
            outputs.last(),
            outputs.len() - 1,
            policy,
        )
    }
}

/// What the caps have against the amounts and the fee, in the order of the caps.
pub open spec fn cap_violations(
    report: InspectionReport,
    rolling: RollingTotals,
    policy: CompiledPolicy,
) -> Seq<PolicyViolation> {
    let spend = destination_sum(report.outputs@);
    let day = rolling.day_sat + spend;
    let week = rolling.week_sat + spend;
    let month = rolling.month_sat + spend;
    over(
        spend as int,
        policy.max_tx_sat as int,
        PolicyViolation::ExceedsPerTransactionCap {
            spend_sat: spend as u64,
            cap_sat: policy.max_tx_sat,
        },
    ) + over(
        day as int,
        policy.max_daily_sat as int,
        PolicyViolation::ExceedsDailyCap {
            projected_sat: day as u64,
            cap_sat: policy.max_daily_sat,
        },
    ) + over(
        week as int,
        policy.max_weekly_sat as int,
        PolicyViolation::ExceedsWeeklyCap {
            projected_sat: week as u64,
            cap_sat: policy.max_weekly_sat,
        },
    ) + over(
        month as int,
        policy.max_monthly_sat as int,
        PolicyViolation::ExceedsMonthlyCap {
            projected_sat: month as u64,
            cap_sat: policy.max_monthly_sat,
        },
    ) + over(
        report.fee as int,
        policy.max_fee_sat as int,
        PolicyViolation::ExceedsMaxFee { fee_sat: report.fee, cap_sat: policy.max_fee_sat },
    ) + if report.fee_rate_sat_per_vb.above(policy.max_fee_rate_sat_per_vb) {
        seq![
            PolicyViolation::ExceedsMaxFeeRate {
                fee_rate_sat_per_vb: report.fee_rate_sat_per_vb,
                cap_sat_per_vb: policy.max_fee_rate_sat_per_vb,
            },
        ]
    } else {
        Seq::empty()
    }
}

/// Everything that the policy has against a transaction.
pub open spec fn violations(
    report: InspectionReport,
    rolling: RollingTotals,
    policy: CompiledPolicy,
) -> Seq<PolicyViolation> {
    cap_violations(report, rolling, policy) + if policy.destination_whitelist is Some {
        whitelist_violations(report.outputs@, policy)
    } else {
        Seq::empty()
    }
}

fn is_listed(list: &Vec<String>, address: &str) -> (r: bool)
    ensures
        r == list.deep_view().contains(address@),
{
    let mut i: usize = 0;
    while i < list.len()
        invariant
            i <= list.len(),
            forall|j: int| 0 <= j < i ==> #[trigger] list.deep_view()[j] != address@,
        decreases list.len() - i,
    {
        if same_text(list[i].as_str(), address) {
            assert(list.deep_view()[i as int] == address@);
            return true;
        }
        i = i + 1;
    }
    false
}

fn cap_checks(
    report: &InspectionReport,
    rolling: &RollingTotals,
    policy: &CompiledPolicy,
) -> (out: Vec<PolicyViolation>)
    requires
        destination_sum(report.outputs@) + rolling.day_sat <= u64::MAX,
        destination_sum(report.outputs@) + rolling.week_sat <= u64::MAX,
        destination_sum(report.outputs@) + rolling.month_sat <= u64::MAX,
    ensures
        out@ == cap_violations(*report, *rolling, *policy),
{
    let mut out: Vec<PolicyViolation> = Vec::new();
    let spend_sat = destination_total_sat(report);
    if spend_sat > policy.max_tx_sat {
        out.push(
            PolicyViolation::ExceedsPerTransactionCap { spend_sat, cap_sat: policy.max_tx_sat },
        );
    }
    let projected_day = rolling.day_sat + spend_sat;
    if projected_day > policy.max_daily_sat {
        out.push(
            PolicyViolation::ExceedsDailyCap {
                projected_sat: projected_day,
                cap_sat: policy.max_daily_sat,
            },
        );
    }
    let projected_week = rolling.week_sat + spend_sat;
    if projected_week > policy.max_weekly_sat {
        out.push(
            PolicyViolation::ExceedsWeeklyCap {
                projected_sat: projected_week,
                cap_sat: policy.max_weekly_sat,
            },
        );
    }
    let projected_month = rolling.month_sat + spend_sat;
    if projected_month > policy.max_monthly_sat {
        out.push(
            PolicyViolation::ExceedsMonthlyCap {
                projected_sat: projected_month,
                cap_sat: policy.max_monthly_sat,
            },
        );
    }
    if report.fee > policy.max_fee_sat {
        out.push(
            PolicyViolation::ExceedsMaxFee { fee_sat: report.fee, cap_sat: policy.max_fee_sat },
        );
    }
    if report.fee_rate_sat_per_vb.exceeds(policy.max_fee_rate_sat_per_vb) {
        out.push(
            PolicyViolation::ExceedsMaxFeeRate {
                fee_rate_sat_per_vb: report.fee_rate_sat_per_vb,
                cap_sat_per_vb: policy.max_fee_rate_sat_per_vb,
            },
        );
    }
    assert(out@ =~= cap_violations(*report, *rolling, *policy));
    out
}

/// Decides on an inspected transaction, given what the ledger holds. It is allowed exactly where
/// the policy has nothing against it, and a refusal names everything that it has.
pub fn evaluate_policy(
    report: &InspectionReport,
    rolling: &RollingTotals,
    policy: &CompiledPolicy,
) -> (r: PolicyDecision)
    requires
        destination_sum(report.outputs@) + rolling.day_sat <= u64::MAX,
        destination_sum(report.outputs@) + rolling.week_sat <= u64::MAX,
        destination_sum(report.outputs@) + rolling.month_sat <= u64::MAX,
    ensures
        match r {
            PolicyDecision::Allow => violations(*report, *rolling, *policy).len() == 0,
            PolicyDecision::Deny(v) => v@ == violations(*report, *rolling, *policy) && v@.len()
                > 0,
        },
{
    let mut out = cap_checks(report, rolling, policy);
    let ghost caps = out@;
    if let Some(whitelist) = &policy.destination_whitelist {
        let outputs = &report.outputs;
        let mut i: usize = 0;
        while i < outputs.len()
            invariant
                i <= outputs.len(),
                policy.destination_whitelist == Some(*whitelist),
                out@ == caps + whitelist_violations(outputs@.take(i as int), *policy),
            decreases outputs.len() - i,
        {
            let ghost now = outputs@.take(i + 1);
            assert(now.drop_last() =~= outputs@.take(i as int));
            assert(now.last() == outputs[i as int]);
            if outputs[i].kind == OutputKind::Destination {
                match &outputs[i].address {
                    Some(address) => {
                        if !is_listed(whitelist, address.as_str()) {
                            out.push(
                                PolicyViolation::DestinationNotWhitelisted {
                                    output_index: i,
                                    address: address.clone(),
                                },
                            );
                        }
                    },
                    None => {
                        out.push(
                            PolicyViolation::DestinationAddressUnresolvable { output_index: i },
                        );
                    },
                }
            }
            assert(out@ =~= caps + whitelist_violations(now, *policy));
            i = i + 1;
        }
        assert(outputs@.take(i as int) =~= outputs@);
    }
    assert(out@ =~= violations(*report, *rolling, *policy));
    if out.len() == 0 {
        PolicyDecision::Allow
    } else {
        PolicyDecision::Deny(out)
    }
}

/// The text of a violation. The two rates are given as texts with two decimals.
pub open spec fn violation_text(
    v: PolicyViolation,
    rate: Seq<char>,
    max_rate: Seq<char>,
) -> Seq<char> {
    match v {
        PolicyViolation::ExceedsPerTransactionCap { spend_sat, cap_sat } => "transaction sends "@
            + decimal(spend_sat as nat) + " sat, over the "@ + decimal(cap_sat as nat)
            + " sat per-transaction cap"@,
        PolicyViolation::ExceedsDailyCap { projected_sat, cap_sat } =>
            "would bring the trailing 24h total to "@ + decimal(projected_sat as nat)
            + " sat, over the "@ + decimal(cap_sat as nat) + " sat daily cap"@,
        PolicyViolation::ExceedsWeeklyCap { projected_sat, cap_sat } =>
            "would bring the trailing 7d total to "@ + decimal(projected_sat as nat)
            + " sat, over the "@ + decimal(cap_sat as nat) + " sat weekly cap"@,
        PolicyViolation::ExceedsMonthlyCap { projected_sat, cap_sat } =>
            "would bring the trailing 30d total to "@ + decimal(projected_sat as nat)
            + " sat, over the "@ + decimal(cap_sat as nat) + " sat monthly cap"@,
        PolicyViolation::ExceedsMaxFee { fee_sat, cap_sat } => "fee is "@ + decimal(
            fee_sat as nat,
        ) + " sat, over the "@ + decimal(cap_sat as nat) + " sat max fee"@,
        PolicyViolation::ExceedsMaxFeeRate { .. } => "fee rate is "@ + rate
            + " sat/vB, over the "@ + max_rate + " sat/vB max"@,
        PolicyViolation::DestinationNotWhitelisted { output_index, address } => "output "@
            + decimal(output_index as nat) + " pays "@ + address@
            + ", which is not on the destination whitelist"@,
        PolicyViolation::DestinationAddressUnresolvable { output_index } => "output "@ + decimal(
            output_index as nat,
        )
            + " has no resolvable address, so it can't be checked against the destination whitelist"@,
    }
}

fn amount_sentence(a: &str, n: u64, b: &str, m: u64, c: &str) -> (r: String)
    ensures
        r@ == a@ + decimal(n as nat) + b@ + decimal(m as nat) + c@,
{
    let mut out = a.to_owned();
    push_decimal(&mut out, n);
    out.append(b);
    push_decimal(&mut out, m);
    out.append(c);
    out
}

impl PolicyViolation {
    /// What a person is told. `rate` and `max_rate` are the transaction's fee rate and the highest
    /// one allowed, written with two decimals.
    pub fn message(&self, rate: &str, max_rate: &str) -> (r: String)
        ensures
            r@ == violation_text(*self, rate@, max_rate@),
    {
        match self {
            PolicyViolation::ExceedsPerTransactionCap { spend_sat, cap_sat } => amount_sentence(
                "transaction sends ",
                *spend_sat,
                " sat, over the ",
                *cap_sat,
                " sat per-transaction cap",
            ),
            PolicyViolation::ExceedsDailyCap { projected_sat, cap_sat } => amount_sentence(
                "would bring the trailing 24h total to ",
                *projected_sat,
                " sat, over the ",
                *cap_sat,
                " sat daily cap",
            ),
            PolicyViolation::ExceedsWeeklyCap { projected_sat, cap_sat } => amount_sentence(
                "would bring the trailing 7d total to ",
                *projected_sat,
                " sat, over the ",
                *cap_sat,
                " sat weekly cap",
            ),
            PolicyViolation::ExceedsMonthlyCap { projected_sat, cap_sat } => amount_sentence(
                "would bring the trailing 30d total to ",
                *projected_sat,
                " sat, over the ",
                *cap_sat,
                " sat monthly cap",
            ),
            PolicyViolation::ExceedsMaxFee { fee_sat, cap_sat } => amount_sentence(
                "fee is ",
                *fee_sat,
                " sat, over the ",
                *cap_sat,
                " sat max fee",
            ),
            PolicyViolation::ExceedsMaxFeeRate { .. } => {
                let mut out = "fee rate is ".to_owned();
                out.append(rate);
                out.append(" sat/vB, over the ");
                out.append(max_rate);
                out.append(" sat/vB max");
                out
            },
            PolicyViolation::DestinationNotWhitelisted { output_index, address } => {
                let mut out = "output ".to_owned();
                push_decimal(&mut out, *output_index as u64);
                out.append(" pays ");
                out.append(address.as_str());
                out.append(", which is not on the destination whitelist");
                out
            },
            PolicyViolation::DestinationAddressUnresolvable { output_index } => {
                let mut out = "output ".to_owned();
                push_decimal(&mut out, *output_index as u64);
                out.append(
                    " has no resolvable address, so it can't be checked against the destination whitelist",
                );
                out
            },
        }
    }
}

/// Whether every output that leaves the wallet pays an address of the whitelist.
pub open spec fn all_listed(outputs: Seq<OutputReport>, policy: CompiledPolicy) -> bool {
    forall|i: int|
        0 <= i < outputs.len() && (#[trigger] outputs[i]).kind == OutputKind::Destination ==> (
        outputs[i].address matches Some(a) && policy.lists(a@))
}

proof fn lemma_no_whitelist_violation(outputs: Seq<OutputReport>, policy: CompiledPolicy)
    ensures
        whitelist_violations(outputs, policy).len() == 0 <==> all_listed(outputs, policy),
    decreases outputs.len(),
{
    if outputs.len() > 0 {
        let rest = outputs.drop_last();
        lemma_no_whitelist_violation(rest, policy);
        if all_listed(outputs, policy) {
            assert forall|i: int|
                0 <= i < rest.len() && (#[trigger] rest[i]).kind
                    == OutputKind::Destination implies (rest[i].address matches Some(a)
                && policy.lists(a@)) by {
                assert(rest[i] == outputs[i]);
            }
            assert(outputs[outputs.len() - 1] == outputs.last());
        }
        if whitelist_violations(outputs, policy).len() == 0 {
            assert forall|i: int|
                0 <= i < outputs.len() && (#[trigger] outputs[i]).kind
                    == OutputKind::Destination implies (outputs[i].address matches Some(a)
                && policy.lists(a@)) by {
                if i < rest.len() {
                    assert(rest[i] == outputs[i]);
                }
            }
        }
    }
}

/// A transaction is allowed exactly where what leaves the wallet is within the caps of a
/// transaction, a day, a week and a month, the fee and its rate are within theirs, and, if there
/// is a whitelist, all that leaves the wallet goes to it. To land on a cap is to be within it.
pub proof fn law_allowed_exactly_within_every_limit(
    report: InspectionReport,
    rolling: RollingTotals,
    policy: CompiledPolicy,
)
    ensures
        violations(report, rolling, policy).len() == 0 <==> {
            let spend = destination_sum(report.outputs@);
            &&& spend <= policy.max_tx_sat
            &&& rolling.day_sat + spend <= policy.max_daily_sat
            &&& rolling.week_sat + spend <= policy.max_weekly_sat
            &&& rolling.month_sat + spend <= policy.max_monthly_sat
            &&& report.fee <= policy.max_fee_sat
            &&& !report.fee_rate_sat_per_vb.above(policy.max_fee_rate_sat_per_vb)
            &&& policy.destination_whitelist is Some ==> all_listed(report.outputs@, policy)
        },
{
    lemma_no_whitelist_violation(report.outputs@, policy);
}

/// Change and payments to the wallet itself count for nothing: with such an output added, the
/// amount that leaves the wallet and all that the whitelist has against the outputs stay as they
/// are.
pub proof fn law_what_stays_in_the_wallet_counts_for_nothing(
    outputs: Seq<OutputReport>,
    own: OutputReport,
    policy: CompiledPolicy,
)
    requires
        own.kind != OutputKind::Destination,
    ensures
        destination_sum(outputs.push(own)) == destination_sum(outputs),
        whitelist_violations(outputs.push(own), policy) == whitelist_violations(outputs, policy),
{
    assert(outputs.push(own).drop_last() =~= outputs);
    assert(whitelist_violations(outputs.push(own), policy) =~= whitelist_violations(
        outputs,
        policy,
    ));
}

/// A refusal reports every cap at once: whichever caps are exceeded, each is among the violations,
/// whatever else is.
pub proof fn law_every_exceeded_cap_is_reported(
    report: InspectionReport,
    rolling: RollingTotals,
    policy: CompiledPolicy,
)
    ensures
        ({
            let spend = destination_sum(report.outputs@);
            let found = violations(report, rolling, policy);
            &&& spend > policy.max_tx_sat ==> found.contains(
                PolicyViolation::ExceedsPerTransactionCap {
                    spend_sat: spend as u64,
                    cap_sat: policy.max_tx_sat,
                },
            )
            &&& rolling.day_sat + spend > policy.max_daily_sat ==> found.contains(
                PolicyViolation::ExceedsDailyCap {
                    projected_sat: (rolling.day_sat + spend) as u64,
                    cap_sat: policy.max_daily_sat,
                },
            )
            &&& rolling.week_sat + spend > policy.max_weekly_sat ==> found.contains(
                PolicyViolation::ExceedsWeeklyCap {
                    projected_sat: (rolling.week_sat + spend) as u64,
                    cap_sat: policy.max_weekly_sat,
                },
            )
            &&& rolling.month_sat + spend > policy.max_monthly_sat ==> found.contains(
                PolicyViolation::ExceedsMonthlyCap {
                    projected_sat: (rolling.month_sat + spend) as u64,
                    cap_sat: policy.max_monthly_sat,
                },
            )
            &&& report.fee > policy.max_fee_sat ==> found.contains(
                PolicyViolation::ExceedsMaxFee {
                    fee_sat: report.fee,
                    cap_sat: policy.max_fee_sat,
                },
            )
            &&& report.fee_rate_sat_per_vb.above(policy.max_fee_rate_sat_per_vb)
                ==> found.contains(
                PolicyViolation::ExceedsMaxFeeRate {
                    fee_rate_sat_per_vb: report.fee_rate_sat_per_vb,
                    cap_sat_per_vb: policy.max_fee_rate_sat_per_vb,
                },
            )
        }),
{
    broadcast use lemma_contains_either_side;
    broadcast use lemma_contains_single;

}

broadcast proof fn lemma_contains_either_side(
    a: Seq<PolicyViolation>,
    b: Seq<PolicyViolation>,
    v: PolicyViolation,
)
    ensures
        #[trigger] (a + b).contains(v) <==> a.contains(v) || b.contains(v),
{
    if a.contains(v) {
        let i = choose|i: int| 0 <= i < a.len() && a[i] == v;
        assert((a + b)[i] == v);
    }
    if b.contains(v) {
        let i = choose|i: int| 0 <= i < b.len() && b[i] == v;
        assert((a + b)[a.len() + i] == v);
    }
    if (a + b).contains(v) {
        let i = choose|i: int| 0 <= i < (a + b).len() && (a + b)[i] == v;
        if i < a.len() {
            assert(a[i] == v);
        } else {
            assert(b[i - a.len()] == v);
        }
    }
}

broadcast proof fn lemma_contains_single(v: PolicyViolation, w: PolicyViolation)
    ensures
        #[trigger] seq![v].contains(w) <==> v == w,
{
    if v == w {
        assert(seq![v][0] == w);
    }
}

/// Every amount that leaves the wallet counts, in full, however many there are before it.
pub proof fn law_each_destination_counts_in_full(outputs: Seq<OutputReport>, o: OutputReport)
    requires
        o.kind == OutputKind::Destination,
    ensures
        destination_sum(Seq::empty()) == 0,
        destination_sum(outputs.push(o)) == destination_sum(outputs) + o.amount,
{
    assert(outputs.push(o).drop_last() =~= outputs);
}

/// Only what is so is reported: a cap that is exceeded, by what it is exceeded, and an output that
/// leaves the wallet for an address that is not listed, or for none.
pub proof fn law_only_what_is_so_is_reported(
    report: InspectionReport,
    rolling: RollingTotals,
    policy: CompiledPolicy,
    v: PolicyViolation,
)
    requires
        violations(report, rolling, policy).contains(v),
        rolling.day_sat + destination_sum(report.outputs@) <= u64::MAX,
        rolling.week_sat + destination_sum(report.outputs@) <= u64::MAX,
        rolling.month_sat + destination_sum(report.outputs@) <= u64::MAX,
        report.outputs@.len() <= usize::MAX,
    ensures
        ({
            let spend = destination_sum(report.outputs@);
            match v {
                PolicyViolation::ExceedsPerTransactionCap { spend_sat, cap_sat } => spend_sat
                    == spend && cap_sat == policy.max_tx_sat && spend > policy.max_tx_sat,
                PolicyViolation::ExceedsDailyCap { projected_sat, cap_sat } => projected_sat
                    == rolling.day_sat + spend && cap_sat == policy.max_daily_sat && projected_sat
                    > cap_sat,
                PolicyViolation::ExceedsWeeklyCap { projected_sat, cap_sat } => projected_sat
                    == rolling.week_sat + spend && cap_sat == policy.max_weekly_sat
                    && projected_sat > cap_sat,
                PolicyViolation::ExceedsMonthlyCap { projected_sat, cap_sat } => projected_sat
                    == rolling.month_sat + spend && cap_sat == policy.max_monthly_sat
                    && projected_sat > cap_sat,
                PolicyViolation::ExceedsMaxFee { fee_sat, cap_sat } => fee_sat == report.fee
                    && cap_sat == policy.max_fee_sat && fee_sat > cap_sat,
                PolicyViolation::ExceedsMaxFeeRate { fee_rate_sat_per_vb, cap_sat_per_vb } =>
                    fee_rate_sat_per_vb == report.fee_rate_sat_per_vb && cap_sat_per_vb
                    == policy.max_fee_rate_sat_per_vb && fee_rate_sat_per_vb.above(cap_sat_per_vb),
                PolicyViolation::DestinationNotWhitelisted { output_index, address } => {
                    &&& output_index < report.outputs@.len()
                    &&& report.outputs@[output_index as int].kind == OutputKind::Destination
                    &&& report.outputs@[output_index as int].address == Some(address)
                    &&& policy.destination_whitelist matches Some(list) && forall|j: int|
                        0 <= j < list@.len() ==> (#[trigger] list@[j])@ != address@
                },
                PolicyViolation::DestinationAddressUnresolvable { output_index } => {
                    &&& output_index < report.outputs@.len()
                    &&& report.outputs@[output_index as int].kind == OutputKind::Destination
                    &&& report.outputs@[output_index as int].address is None
                    &&& policy.destination_whitelist is Some
                },
            }
        }),
{
    broadcast use lemma_contains_either_side;
    broadcast use lemma_contains_single;

    let caps = cap_violations(report, rolling, policy);
    if !caps.contains(v) {
        assert(policy.destination_whitelist is Some);
        let i = lemma_whitelist_violation_is_of(report.outputs@, policy, v);
        let list = policy.destination_whitelist->Some_0;
        if report.outputs@[i].address is Some {
            let a = report.outputs@[i].address->Some_0;
            assert forall|j: int| 0 <= j < list@.len() implies (#[trigger] list@[j])@ != a@ by {
                if list@[j]@ == a@ {
                    assert(list.deep_view()[j] == a@);
                }
            }
        }
    }
}

proof fn lemma_whitelist_violation_is_of(
    outputs: Seq<OutputReport>,
    policy: CompiledPolicy,
    v: PolicyViolation,
) -> (i: int)
    requires
        whitelist_violations(outputs, policy).contains(v),
    ensures
        0 <= i < outputs.len(),
        output_violations(outputs[i], i, policy).contains(v),
        outputs[i].kind == OutputKind::Destination,
        match outputs[i].address {
            Some(a) => !policy.lists(a@) && v == (PolicyViolation::DestinationNotWhitelisted {
                output_index: i as usize,
                address: a,
            }),
            None => v == (PolicyViolation::DestinationAddressUnresolvable {
                output_index: i as usize,
            }),
        },
    decreases outputs.len(),
{
    broadcast use lemma_contains_either_side;
    broadcast use lemma_contains_single;

    if whitelist_violations(outputs.drop_last(), policy).contains(v) {
        lemma_whitelist_violation_is_of(outputs.drop_last(), policy, v)
    } else {
        outputs.len() - 1
    }
}

/// Where there is a list, every output that leaves the wallet for an address that is not on it is
/// reported by its place and address, and every one without an address by its place.
pub proof fn law_every_unlisted_destination_is_reported(
    report: InspectionReport,
    rolling: RollingTotals,
    policy: CompiledPolicy,
    list: Seq<String>,
    i: int,
)
    requires
        policy.destination_whitelist matches Some(l) && l@ == list,
        0 <= i < report.outputs@.len(),
        report.outputs@[i].kind == OutputKind::Destination,
    ensures
        report.outputs@[i].address matches Some(a) ==> ((forall|j: int|
            0 <= j < list.len() ==> (#[trigger] list[j])@ != a@) ==> violations(
            report,
            rolling,
            policy,
        ).contains(
            PolicyViolation::DestinationNotWhitelisted { output_index: i as usize, address: a },
        )),
        report.outputs@[i].address is None ==> violations(report, rolling, policy).contains(
            PolicyViolation::DestinationAddressUnresolvable { output_index: i as usize },
        ),
{
    broadcast use lemma_contains_either_side;
    broadcast use lemma_contains_single;

    if report.outputs@[i].address is Some {
        let a = report.outputs@[i].address->Some_0;
        if forall|j: int| 0 <= j < list.len() ==> (#[trigger] list[j])@ != a@ {
            let l = policy.destination_whitelist->Some_0;
            if policy.lists(a@) {
                let j = choose|j: int| 0 <= j < l.deep_view().len() && l.deep_view()[j] == a@;
                assert(list[j]@ == a@);
            }
            lemma_unlisted_is_reported(report.outputs@, policy, i);
            assert(output_violations(report.outputs@[i], i, policy).contains(
                PolicyViolation::DestinationNotWhitelisted { output_index: i as usize, address: a },
            ));
        }
    } else {
        lemma_unlisted_is_reported(report.outputs@, policy, i);
        assert(output_violations(report.outputs@[i], i, policy).contains(
            PolicyViolation::DestinationAddressUnresolvable { output_index: i as usize },
        ));
    }
}

proof fn lemma_unlisted_is_reported(outputs: Seq<OutputReport>, policy: CompiledPolicy, i: int)
    requires
        0 <= i < outputs.len(),
        outputs[i].kind == OutputKind::Destination,
    ensures
        forall|v: PolicyViolation| #[trigger]
            output_violations(outputs[i], i, policy).contains(v) ==> whitelist_violations(
                outputs,
                policy,
            ).contains(v),
    decreases outputs.len(),
{
    broadcast use lemma_contains_either_side;

    if i < outputs.len() - 1 {
        lemma_unlisted_is_reported(outputs.drop_last(), policy, i);
    }
}

/// Rates are ordered as the numbers they are: one without a value is above none and below none, a rate
/// of at least nothing is above another such where its bits are more, and above one below nothing
/// unless both are nothing; none is above itself, nor above one that is above it.
pub proof fn law_rates_are_ordered_as_numbers(a: FeeRate, b: FeeRate, c: FeeRate)
    ensures
        !a.above(a),
        a.above(b) ==> !b.above(a),
        a.above(b) && b.above(c) ==> a.above(c),
        a.bits <= 0x7ff0_0000_0000_0000 && b.bits <= 0x7ff0_0000_0000_0000 ==> (a.above(b)
            <==> a.bits > b.bits),
        a.bits <= 0x7ff0_0000_0000_0000 && 0x8000_0000_0000_0000 <= b.bits
            <= 0xfff0_0000_0000_0000 ==> (a.above(b) <==> a.bits > 0 || b.bits
            > 0x8000_0000_0000_0000),
        0x7ff0_0000_0000_0000 < a.bits < 0x8000_0000_0000_0000 || a.bits > 0xfff0_0000_0000_0000
            ==> !a.above(b) && !b.above(a),
{
}

/// A whitelist compiles exactly where every entry is an address of the network. Where one is not, the
/// first that is not is named, as no address or as one of another network.
pub proof fn law_every_listed_address_has_to_be_of_the_network(
    policy: PolicyConfig,
    network: ChainNetwork,
)
    requires
        policy.destination_whitelist matches Some(entries) ==> entries@.len() <= usize::MAX,
    ensures
        policy.problem(network) is None <==> (policy.destination_whitelist matches Some(entries)
            ==> forall|i: int|
            0 <= i < entries@.len() ==> canonical_address((#[trigger] entries@[i])@) is Some
                && address_is_for(entries@[i]@, network)),
        policy.problem(network) matches Some(e) ==> (policy.destination_whitelist matches Some(
            entries,
        ) && {
            let at = e.place() as int;
            &&& at < entries@.len()
            &&& (e is MalformedAddress) == (canonical_address(entries@[at]@) is None)
            &&& canonical_address(entries@[at]@) is None || !address_is_for(
                entries@[at]@,
                network,
            )
            &&& forall|i: int|
                0 <= i < at ==> canonical_address((#[trigger] entries@[i])@) is Some
                    && address_is_for(entries@[i]@, network)
        }),
{
    if policy.destination_whitelist is Some {
        let entries = policy.destination_whitelist->Some_0;
        let texts = entries.deep_view();
        lemma_whitelist_problem(texts, network);
        assert(forall|i: int| 0 <= i < entries@.len() ==> texts[i] == (#[trigger] entries@[i])@);
        if policy.problem(network) is Some {
            let at = policy.problem(network)->Some_0.place() as int;
            assert(texts[at] == entries@[at]@);
        } else {
            assert forall|i: int| 0 <= i < entries@.len() implies canonical_address(
                (#[trigger] entries@[i])@,
            ) is Some && address_is_for(entries@[i]@, network) by {
                assert(texts[i] == entries@[i]@);
            }
        }
    }
}

proof fn lemma_whitelist_problem(entries: Seq<Seq<char>>, network: ChainNetwork)
    requires
        entries.len() <= usize::MAX,
    ensures
        match whitelist_problem(entries, network) {
            None => forall|i: int|
                0 <= i < entries.len() ==> canonical_address(#[trigger] entries[i]) is Some
                    && address_is_for(entries[i], network),
            Some(e) => {
                let at = e.place() as int;
                &&& at < entries.len()
                &&& (e is MalformedAddress) == (canonical_address(entries[at]) is None)
                &&& canonical_address(entries[at]) is None || !address_is_for(entries[at], network)
                &&& forall|i: int|
                    0 <= i < at ==> canonical_address(#[trigger] entries[i]) is Some
                        && address_is_for(entries[i], network)
            },
        },
    decreases entries.len(),
{
    if entries.len() > 0 {
        let before = entries.drop_last();
        lemma_whitelist_problem(before, network);
        assert(forall|i: int| 0 <= i < before.len() ==> before[i] == #[trigger] entries[i]);
    }
}

/// A policy compiles to its own limits, and lists an address exactly where an entry of it spells it.
pub proof fn law_a_compiled_policy_has_the_limits_it_was_given(
    compiled: CompiledPolicy,
    config: PolicyConfig,
    address: Seq<char>,
)
    requires
        compiled.compiles(config),
    ensures
        compiled.max_tx_sat == config.max_tx_sat,
        compiled.max_daily_sat == config.max_daily_sat,
        compiled.max_weekly_sat == config.max_weekly_sat,
        compiled.max_monthly_sat == config.max_monthly_sat,
        compiled.max_fee_sat == config.max_fee_sat,
        compiled.max_fee_rate_sat_per_vb == config.max_fee_rate_sat_per_vb,
        (compiled.destination_whitelist is Some) == (config.destination_whitelist is Some),
        compiled.lists(address) <==> (config.destination_whitelist matches Some(entries) && exists|
            i: int,
        |
            0 <= i < entries@.len() && canonical_address((#[trigger] entries@[i])@) == Some(
                address,
            )),
{
    if compiled.destination_whitelist is Some {
        let list = compiled.destination_whitelist->Some_0;
        let entries = config.destination_whitelist->Some_0;
        if compiled.lists(address) {
            let i = choose|i: int|
                0 <= i < list.deep_view().len() && list.deep_view()[i] == address;
            assert(list@[i]@ == address);
            assert(canonical_address(entries@[i]@) == Some(address));
        }
        if exists|i: int|
            0 <= i < entries@.len() && canonical_address((#[trigger] entries@[i])@) == Some(
                address,
            ) {
            let i = choose|i: int|
                0 <= i < entries@.len() && canonical_address((#[trigger] entries@[i])@) == Some(
                    address,
                );
            assert(canonical_address(entries[i]@) == Some(list@[i]@));
            assert(list.deep_view()[i] == address);
        }
    }
}

/// What is told of an exceeded cap names what it comes to and the cap, and of an output its place.
#[verifier::spinoff_prover]
#[verifier::rlimit(40)]
pub proof fn law_a_refusal_names_what_it_comes_to_and_the_cap(
    n: u64,
    cap: u64,
    i: usize,
    address: String,
    rate: Seq<char>,
    max_rate: Seq<char>,
)
    ensures
        ({
            let says = |v: PolicyViolation, part: Seq<char>|
                occurs(violation_text(v, rate, max_rate), part);
            let total = decimal(n as nat) + " sat, over the "@ + decimal(cap as nat) + " sat"@;
            &&& says(
                PolicyViolation::ExceedsPerTransactionCap { spend_sat: n, cap_sat: cap },
                total + " per-transaction cap"@,
            )
            &&& says(
                PolicyViolation::ExceedsDailyCap { projected_sat: n, cap_sat: cap },
                total + " daily cap"@,
            )
            &&& says(
                PolicyViolation::ExceedsWeeklyCap { projected_sat: n, cap_sat: cap },
                total + " weekly cap"@,
            )
            &&& says(
                PolicyViolation::ExceedsMonthlyCap { projected_sat: n, cap_sat: cap },
                total + " monthly cap"@,
            )
            &&& says(
                PolicyViolation::ExceedsMaxFee { fee_sat: n, cap_sat: cap },
                total + " max fee"@,
            )
            &&& says(
                PolicyViolation::DestinationNotWhitelisted { output_index: i, address },
                "output "@ + decimal(i as nat) + " pays "@ + address@,
            )
        }),
{
    reveal_strlit(" sat");
    let total = decimal(n as nat) + " sat, over the "@ + decimal(cap as nat) + " sat"@;
    reveal_strlit(" sat per-transaction cap");
    reveal_strlit(" per-transaction cap");
    assert(" sat per-transaction cap"@ =~= " sat"@ + " per-transaction cap"@);
    lemma_ends(
        "transaction sends "@,
        total + " per-transaction cap"@,
        violation_text(
            PolicyViolation::ExceedsPerTransactionCap { spend_sat: n, cap_sat: cap },
            rate,
            max_rate,
        ),
    );
    reveal_strlit(" sat daily cap");
    reveal_strlit(" daily cap");
    assert(" sat daily cap"@ =~= " sat"@ + " daily cap"@);
    lemma_ends(
        "would bring the trailing 24h total to "@,
        total + " daily cap"@,
        violation_text(
            PolicyViolation::ExceedsDailyCap { projected_sat: n, cap_sat: cap },
            rate,
            max_rate,
        ),
    );
    reveal_strlit(" sat weekly cap");
    reveal_strlit(" weekly cap");
    assert(" sat weekly cap"@ =~= " sat"@ + " weekly cap"@);
    lemma_ends(
        "would bring the trailing 7d total to "@,
        total + " weekly cap"@,
        violation_text(
            PolicyViolation::ExceedsWeeklyCap { projected_sat: n, cap_sat: cap },
            rate,
            max_rate,
        ),
    );
    reveal_strlit(" sat monthly cap");
    reveal_strlit(" monthly cap");
    assert(" sat monthly cap"@ =~= " sat"@ + " monthly cap"@);
    lemma_ends(
        "would bring the trailing 30d total to "@,
        total + " monthly cap"@,
        violation_text(
            PolicyViolation::ExceedsMonthlyCap { projected_sat: n, cap_sat: cap },
            rate,
            max_rate,
        ),
    );
    reveal_strlit(" sat max fee");
    reveal_strlit(" max fee");
    assert(" sat max fee"@ =~= " sat"@ + " max fee"@);
    lemma_ends(
        "fee is "@,
        total + " max fee"@,
        violation_text(
            PolicyViolation::ExceedsMaxFee { fee_sat: n, cap_sat: cap },
            rate,
            max_rate,
        ),
    );
    let paid = "output "@ + decimal(i as nat) + " pays "@ + address@;
    lemma_occurs_in_itself(paid);
    lemma_occurs_beside(paid, ", which is not on the destination whitelist"@, paid);
}

proof fn lemma_ends(a: Seq<char>, b: Seq<char>, whole: Seq<char>)
    requires
        whole =~= a + b,
    ensures
        occurs(whole, b),
{
    lemma_occurs_in_itself(b);
    lemma_occurs_beside(a, b, b);
}

}
