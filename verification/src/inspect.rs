//! What a transaction does: what it spends, where the money goes, the fee, and which of the
//! wallet's spending conditions it takes.
//!
//! Nothing that a transaction claims of itself is believed where it can be derived or asked of the
//! node.

use vstd::prelude::*;
use vstd::string::*;

use crate::config::WalletConfig;
use crate::descriptor::{
    derived_script, descriptor_error_text, find_owner, law_an_owned_script_is_the_wallets,
    law_the_external_chain_wins, owner, role_keys_at, role_keys_of, satisfaction_weight, underivable,
    witness_weight, BuiltDescriptor, Chain, DescriptorError, RoleKeys,
};
use crate::keys::{address_of_script, script_address};
use crate::policy::FeeRate;
use crate::psbt::{has_signed, same_output, OutPoint, Psbt, PsbtInput, TxIn, TxOut, UtxoLookup};
use crate::text::{decimal, push_decimal};

verus! {

/// What an output does with the money it takes.
#[derive(Clone, Copy, Debug, PartialEq, Eq, Structural)]
pub enum OutputKind {
    /// Pays an address of the wallet's internal chain: change coming back.
    Change,
    /// Pays an address of the wallet's external chain: unusual, yet the money stays.
    OwnReceive,
    /// Pays a script that is not the wallet's: the money leaves.
    Destination,
}

/// Which of the wallet's two spending conditions a transaction takes.
#[derive(Clone, Copy, Debug, PartialEq, Eq, Structural)]
pub enum SpendingPath {
    /// Every input can only be signed by the hardware and the server key.
    Hot,
    /// Every input is being signed by the hardware and the mobile key after the timelock.
    Recovery,
    /// The inputs disagree, or one of them could still go either way.
    Ambiguous,
}

/// One input of an inspected transaction.
#[derive(Debug)]
pub struct InputReport {
    pub outpoint: OutPoint,
    /// The amount in satoshi.
    pub amount: u64,
    pub confirmations: u32,
    pub chain: Chain,
    pub index: u32,
}

/// One output of an inspected transaction.
#[derive(Clone, Debug)]
pub struct OutputReport {
    pub script_pubkey: Vec<u8>,
    /// The address of the script, where it has one on the wallet's network.
    pub address: Option<String>,
    /// The amount in satoshi.
    pub amount: u64,
    pub kind: OutputKind,
}

/// What a transaction does. Amounts are in satoshi.
#[derive(Debug)]
pub struct InspectionReport {
    pub inputs: Vec<InputReport>,
    pub outputs: Vec<OutputReport>,
    pub total_in: u64,
    pub total_out: u64,
    pub fee: u64,
    pub estimated_vsize: u64,
    pub fee_rate_sat_per_vb: FeeRate,
    pub spending_path: SpendingPath,
}

/// What a transaction does, before the fee is divided by the size.
#[derive(Debug)]
pub struct Inspection {
    pub inputs: Vec<InputReport>,
    pub outputs: Vec<OutputReport>,
    pub total_in: u64,
    pub total_out: u64,
    pub fee: u64,
    pub estimated_vsize: u64,
    pub spending_path: SpendingPath,
}

impl Inspection {
    /// The report, with the fee rate that the fee and the size come to.
    pub fn with_fee_rate(self, fee_rate_sat_per_vb: FeeRate) -> (r: InspectionReport)
        ensures
            r == (InspectionReport {
                inputs: self.inputs,
                outputs: self.outputs,
                total_in: self.total_in,
                total_out: self.total_out,
                fee: self.fee,
                estimated_vsize: self.estimated_vsize,
                fee_rate_sat_per_vb,
                spending_path: self.spending_path,
            }),
    {
        InspectionReport {
            inputs: self.inputs,
            outputs: self.outputs,
            total_in: self.total_in,
            total_out: self.total_out,
            fee: self.fee,
            estimated_vsize: self.estimated_vsize,
            fee_rate_sat_per_vb,
            spending_path: self.spending_path,
        }
    }
}

/// How a transaction is malformed.
#[derive(Clone, Copy, Debug, PartialEq, Eq, Structural)]
pub enum Malformed {
    NoInputs,
    NoOutputs,
    /// Amounts that no transaction can have: their sum does not fit in 64 bits.
    TooMuch,
    /// The outputs take all that the inputs bring, or more.
    NoFee { total_in: u64, total_out: u64 },
}

/// What kept the service from looking.
#[derive(Debug)]
pub enum ChainFailure {
    /// The node could not be asked.
    Node(String),
    /// A key or a script could not be derived.
    Descriptor(DescriptorError),
    /// The weight of a witness could not be computed.
    Weight,
}

/// Why a transaction is refused before the policy is asked.
#[derive(Debug)]
pub enum InspectError {
    InvalidTransaction(Malformed),
    /// An input spends what is not there, or no longer.
    UnknownUtxo { input_index: usize, outpoint: OutPoint },
    /// An input claims to spend another amount or script than the node has on record.
    TamperedUtxo { input_index: usize, outpoint: OutPoint },
    /// An input spends what is not the wallet's.
    ForeignInput { input_index: usize, outpoint: OutPoint },
    /// An output claims to be change and is not the wallet's.
    SpoofedChange { output_index: usize },
    Chain(ChainFailure),
}

/// Which way one input goes.
#[derive(Clone, Copy, Debug, PartialEq, Eq, Structural)]
pub enum InputPath {
    Hot,
    Recovery,
    Ambiguous,
}

/// Whether an input's sequence number satisfies `older(blocks)` (BIP68, BIP112): it sets a relative
/// lock, in blocks, of at least that many.
pub open spec fn older_satisfied(sequence: u32, blocks: u16) -> bool {
    &&& sequence < 0x8000_0000
    &&& sequence % 0x80_0000 < 0x40_0000
    &&& sequence % 0x1_0000 >= blocks
}

/// `<bitcoin::Sequence as miniscript::Satisfier>::check_older` with a lock of so many blocks: a
/// sequence number with the top bit clear sets a relative lock, in blocks where bit 22 is clear,
/// of what its low 16 bits say, and satisfies every lock in blocks up to that.
#[verifier::external_body]
fn check_older(sequence: u32, blocks: u16) -> (r: bool)
    ensures
        r == older_satisfied(sequence, blocks),
{
    let required = bitcoin::relative::LockTime::from_height(blocks);
    let sequence = bitcoin::Sequence::from_consensus(sequence);
    miniscript::Satisfier::<bitcoin::PublicKey>::check_older(&sequence, required)
}

/// Which way an input goes. Where its sequence number does not satisfy the timelock, no witness
/// for the recovery path can be valid, so only the hot path is left; where it does, the signatures
/// tell.
pub open spec fn input_path(
    input: PsbtInput,
    sequence: u32,
    server: Seq<u8>,
    mobile: Seq<u8>,
    timelock_blocks: u16,
) -> InputPath {
    if !older_satisfied(sequence, timelock_blocks) {
        InputPath::Hot
    } else if has_signed(input, mobile) {
        InputPath::Recovery
    } else if has_signed(input, server) {
        InputPath::Hot
    } else {
        InputPath::Ambiguous
    }
}

/// Decides which way an input goes.
pub fn classify_input_path(
    psbt_input: &PsbtInput,
    sequence: u32,
    role_keys: &RoleKeys,
    timelock_blocks: u16,
) -> (r: InputPath)
    ensures
        r == input_path(
            *psbt_input,
            sequence,
            role_keys.server@,
            role_keys.mobile@,
            timelock_blocks,
        ),
{
    if !check_older(sequence, timelock_blocks) {
        return InputPath::Hot;
    }
    if psbt_input.is_signed_by(&role_keys.mobile) {
        InputPath::Recovery
    } else if psbt_input.is_signed_by(&role_keys.server) {
        InputPath::Hot
    } else {
        InputPath::Ambiguous
    }
}

/// Which way a transaction goes whose inputs go these ways: the way that all of them go.
pub open spec fn combined_path(paths: Seq<InputPath>) -> SpendingPath {
    if forall|i: int| 0 <= i < paths.len() ==> paths[i] == InputPath::Hot {
        SpendingPath::Hot
    } else if forall|i: int| 0 <= i < paths.len() ==> paths[i] == InputPath::Recovery {
        SpendingPath::Recovery
    } else {
        SpendingPath::Ambiguous
    }
}

/// Decides which way a transaction goes.
pub fn combine_paths(paths: &Vec<InputPath>) -> (r: SpendingPath)
    ensures
        r == combined_path(paths@),
{
    let mut all_hot = true;
    let mut all_recovery = true;
    let mut i: usize = 0;
    while i < paths.len()
        invariant
            i <= paths.len(),
            all_hot == (forall|j: int| 0 <= j < i ==> paths@[j] == InputPath::Hot),
            all_recovery == (forall|j: int| 0 <= j < i ==> paths@[j] == InputPath::Recovery),
        decreases paths.len() - i,
    {
        if paths[i] != InputPath::Hot {
            all_hot = false;
        }
        if paths[i] != InputPath::Recovery {
            all_recovery = false;
        }
        i = i + 1;
    }
    if all_hot {
        SpendingPath::Hot
    } else if all_recovery {
        SpendingPath::Recovery
    } else {
        SpendingPath::Ambiguous
    }
}

/// How many bytes Bitcoin's variable-length integer takes for `n`.
pub open spec fn compact_size_len(n: nat) -> nat {
    if n <= 0xFC {
        1
    } else if n <= 0xFFFF {
        3
    } else if n <= 0xFFFF_FFFF {
        5
    } else {
        9
    }
}

/// `bitcoin::VarInt::size`: 1 byte up to `0xFC`, 3 up to `0xFFFF`, 5 up to `0xFFFFFFFF`, and 9
/// above.
#[verifier::external_body]
fn var_int_size(n: u64) -> (r: u64)
    ensures
        r == compact_size_len(n as nat),
{
    bitcoin::VarInt(n).size() as u64
}

/// The size of a script with its length in front.
pub open spec fn script_size(script: Seq<u8>) -> nat {
    compact_size_len(script.len()) + script.len()
}

/// The size of the inputs without their witnesses: outpoint, sequence number and script.
pub open spec fn inputs_size(inputs: Seq<TxIn>) -> nat
    decreases inputs.len(),
{
    if inputs.len() == 0 {
        0
    } else {
        inputs_size(inputs.drop_last()) + 36 + 4 + script_size(inputs.last().script_sig@)
    }
}

/// The size of the outputs: amount and script.
pub open spec fn outputs_size(outputs: Seq<TxOut>) -> nat
    decreases outputs.len(),
{
    if outputs.len() == 0 {
        0
    } else {
        outputs_size(outputs.drop_last()) + 8 + script_size(outputs.last().script_pubkey@)
    }
}

/// The size of the witnesses: a final one as it is, one that is still missing as heavy as the
/// wallet's can be.
pub open spec fn witnesses_size(inputs: Seq<PsbtInput>, our_witness_weight: nat) -> nat
    decreases inputs.len(),
{
    if inputs.len() == 0 {
        0
    } else {
        witnesses_size(inputs.drop_last(), our_witness_weight) + match inputs.last()
            .final_witness_size {
            Some(size) => size as nat,
            None => our_witness_weight,
        }
    }
}

/// The weight of a transaction (BIP141): four times its size without witnesses, which has the
/// version and the locktime besides the inputs and outputs, and once the size of the witnesses
/// with marker and flag.
pub open spec fn estimated_weight(psbt: Psbt, our_witness_weight: nat) -> nat {
    let base = 8 + compact_size_len(psbt.unsigned_tx.input@.len()) + compact_size_len(
        psbt.unsigned_tx.output@.len(),
    ) + inputs_size(psbt.unsigned_tx.input@) + outputs_size(psbt.unsigned_tx.output@);
    4 * base + 2 + witnesses_size(psbt.inputs@, our_witness_weight)
}

/// `a + b` where both are known and the sum fits.
fn plus(a: Option<u64>, b: u64) -> (r: Option<u64>)
    ensures
        match a {
            Some(x) => match r {
                Some(s) => s == x + b,
                None => x + b > u64::MAX,
            },
            None => r is None,
        },
{
    match a {
        Some(x) => x.checked_add(b),
        None => None,
    }
}

/// Whether `a` is `n` if that fits in 64 bits, and nothing if it does not.
pub open spec fn holds_if_it_fits(a: Option<u64>, n: nat) -> bool {
    match a {
        Some(x) => x == n,
        None => n > u64::MAX,
    }
}

fn plus_script(a: Option<u64>, script: &Vec<u8>, Ghost(n): Ghost<nat>) -> (r: Option<u64>)
    requires
        holds_if_it_fits(a, n),
    ensures
        holds_if_it_fits(r, n + script_size(script@)),
{
    let len: u64 = script.len() as u64;
    plus(plus(a, var_int_size(len)), len)
}

/// Estimates the weight of the transaction as it will be once signed, with every witness of ours
/// that is missing taken at its heaviest, so that a fee rate is never overstated. Nothing where the
/// weight does not fit in 64 bits.
pub fn estimate_weight(psbt: &Psbt, our_witness_weight: u64) -> (r: Option<u64>)
    ensures
        holds_if_it_fits(r, estimated_weight(*psbt, our_witness_weight as nat)),
{
    let tx = &psbt.unsigned_tx;
    let mut base: Option<u64> = Some(
        8 + var_int_size(tx.input.len() as u64) + var_int_size(tx.output.len() as u64),
    );
    let ghost fixed: nat = 8 + compact_size_len(tx.input@.len()) + compact_size_len(
        tx.output@.len(),
    );
    let mut i: usize = 0;
    while i < tx.input.len()
        invariant
            i <= tx.input.len(),
            holds_if_it_fits(base, fixed + inputs_size(tx.input@.take(i as int))),
        decreases tx.input.len() - i,
    {
        assert(tx.input@.take(i + 1).drop_last() =~= tx.input@.take(i as int));
        base = plus(base, 40);
        base =
        plus_script(
            base,
            &tx.input[i].script_sig,
            Ghost(fixed + inputs_size(tx.input@.take(i as int)) + 40),
        );
        i = i + 1;
    }
    assert(tx.input@.take(i as int) =~= tx.input@);
    let ghost with_inputs: nat = fixed + inputs_size(tx.input@);
    let mut j: usize = 0;
    while j < tx.output.len()
        invariant
            j <= tx.output.len(),
            holds_if_it_fits(base, with_inputs + outputs_size(tx.output@.take(j as int))),
        decreases tx.output.len() - j,
    {
        assert(tx.output@.take(j + 1).drop_last() =~= tx.output@.take(j as int));
        base = plus(base, 8);
        base =
        plus_script(
            base,
            &tx.output[j].script_pubkey,
            Ghost(with_inputs + outputs_size(tx.output@.take(j as int)) + 8),
        );
        j = j + 1;
    }
    assert(tx.output@.take(j as int) =~= tx.output@);
    let ghost all_base: nat = with_inputs + outputs_size(tx.output@);
    let mut weight: Option<u64> = match base {
        Some(b) => plus(b.checked_mul(4), 2),
        None => None,
    };
    let mut k: usize = 0;
    while k < psbt.inputs.len()
        invariant
            k <= psbt.inputs.len(),
            holds_if_it_fits(
                weight,
                4 * all_base + 2 + witnesses_size(
                    psbt.inputs@.take(k as int),
                    our_witness_weight as nat,
                ),
            ),
        decreases psbt.inputs.len() - k,
    {
        assert(psbt.inputs@.take(k + 1).drop_last() =~= psbt.inputs@.take(k as int));
        let w: u64 = match psbt.inputs[k].final_witness_size {
            Some(size) => size,
            None => our_witness_weight,
        };
        weight = plus(weight, w);
        k = k + 1;
    }
    assert(psbt.inputs@.take(k as int) =~= psbt.inputs@);
    weight
}

/// Whether an input claims to spend something else than what the node has on record.
pub open spec fn claims_otherwise(input: PsbtInput, vout: u32, recorded: TxOut) -> bool {
    ||| input.witness_utxo matches Some(claimed) && !same_output(claimed, recorded)
    ||| input.non_witness_utxo matches Some(outputs) && vout < outputs@.len() && !same_output(
        outputs@[vout as int],
        recorded,
    )
}

fn is_tampered(input: &PsbtInput, vout: u32, recorded: &TxOut) -> (r: bool)
    ensures
        r == claims_otherwise(*input, vout, *recorded),
{
    if let Some(claimed) = &input.witness_utxo {
        if !claimed.same(recorded) {
            return true;
        }
    }
    if let Some(outputs) = &input.non_witness_utxo {
        if (vout as usize) < outputs.len() && !outputs[vout as usize].same(recorded) {
            return true;
        }
    }
    false
}

/// Why input `i` is refused, if it is.
pub open spec fn input_problem(
    psbt: Psbt,
    wallet: BuiltDescriptor,
    cfg: WalletConfig,
    lookup: UtxoLookup,
    gap_limit: u32,
    i: int,
) -> Option<InspectError> {
    let outpoint = psbt.unsigned_tx.input@[i].previous_output;
    match lookup {
        UtxoLookup::Failed(message) => Some(InspectError::Chain(ChainFailure::Node(message))),
        UtxoLookup::Missing => Some(
            InspectError::UnknownUtxo { input_index: i as usize, outpoint },
        ),
        UtxoLookup::Found(utxo) => if claims_otherwise(
            psbt.inputs@[i],
            outpoint.vout,
            utxo.txout,
        ) {
            Some(InspectError::TamperedUtxo { input_index: i as usize, outpoint })
        } else if underivable(wallet, gap_limit) is Some {
            Some(
                InspectError::Chain(
                    ChainFailure::Descriptor(
                        DescriptorError::Derive { index: underivable(wallet, gap_limit).unwrap() },
                    ),
                ),
            )
        } else {
            match owner(wallet, utxo.txout.script_pubkey@, gap_limit) {
                None => Some(InspectError::ForeignInput { input_index: i as usize, outpoint }),
                Some(owned) => match role_keys_of(wallet, cfg, owned.chain, owned.index) {
                    Err(e) => Some(InspectError::Chain(ChainFailure::Descriptor(e))),
                    Ok(_) => None,
                },
            }
        },
    }
}

/// The report on input `i`, which is not refused.
pub open spec fn input_report(
    psbt: Psbt,
    wallet: BuiltDescriptor,
    lookup: UtxoLookup,
    gap_limit: u32,
    i: int,
) -> InputReport {
    let utxo = lookup->Found_0;
    let owned = owner(wallet, utxo.txout.script_pubkey@, gap_limit).unwrap();
    InputReport {
        outpoint: psbt.unsigned_tx.input@[i].previous_output,
        amount: utxo.txout.value,
        confirmations: utxo.confirmations,
        chain: owned.chain,
        index: owned.index,
    }
}

/// Which way input `i` goes, which is not refused.
pub open spec fn path_of_input(
    psbt: Psbt,
    wallet: BuiltDescriptor,
    cfg: WalletConfig,
    lookup: UtxoLookup,
    gap_limit: u32,
    i: int,
) -> InputPath {
    let owned = owner(
        wallet,
        lookup->Found_0.txout.script_pubkey@,
        gap_limit,
    ).unwrap();
    let keys = role_keys_of(wallet, cfg, owned.chain, owned.index)->Ok_0;
    input_path(
        psbt.inputs@[i],
        psbt.unsigned_tx.input@[i].sequence,
        keys.1,
        keys.2,
        cfg.timelock_blocks,
    )
}

proof fn lemma_same_wallet(
    a: BuiltDescriptor,
    b: BuiltDescriptor,
    cfg: WalletConfig,
    gap_limit: u32,
)
    requires
        a.same_wallet(b),
    ensures
        underivable(a, gap_limit) == underivable(b, gap_limit),
        forall|script: Seq<u8>| #[trigger] owner(a, script, gap_limit) == owner(b, script, gap_limit),
        forall|chain: Chain, index: u32| #[trigger]
            role_keys_of(a, cfg, chain, index) == role_keys_of(b, cfg, chain, index),
        forall|chain: Chain| #[trigger] a.of_chain(chain) == b.of_chain(chain),
{
}

fn inspect_input(
    psbt: &Psbt,
    wallet: &mut BuiltDescriptor,
    cfg: &WalletConfig,
    lookup: &UtxoLookup,
    gap_limit: u32,
    i: usize,
) -> (r: Result<(InputReport, InputPath), InspectError>)
    requires
        psbt.wf(),
        i < psbt.unsigned_tx.input@.len(),
    ensures
        final(wallet).same_wallet(*old(wallet)),
        match r {
            Ok((report, path)) => {
                &&& input_problem(*psbt, *old(wallet), *cfg, *lookup, gap_limit, i as int) is None
                &&& report == input_report(*psbt, *old(wallet), *lookup, gap_limit, i as int)
                &&& path == path_of_input(*psbt, *old(wallet), *cfg, *lookup, gap_limit, i as int)
            },
            Err(e) => input_problem(*psbt, *old(wallet), *cfg, *lookup, gap_limit, i as int)
                == Some(e),
        },
{
    let txin = &psbt.unsigned_tx.input[i];
    let utxo = match lookup {
        UtxoLookup::Failed(message) => {
            return Err(InspectError::Chain(ChainFailure::Node(message.clone())));
        },
        UtxoLookup::Missing => {
            return Err(
                InspectError::UnknownUtxo {
                    input_index: i,
                    outpoint: txin.previous_output.duplicate(),
                },
            );
        },
        UtxoLookup::Found(utxo) => utxo,
    };
    if is_tampered(&psbt.inputs[i], txin.previous_output.vout, &utxo.txout) {
        return Err(
            InspectError::TamperedUtxo {
                input_index: i,
                outpoint: txin.previous_output.duplicate(),
            },
        );
    }
    let owned = match find_owner(wallet, &utxo.txout.script_pubkey, gap_limit) {
        Err(e) => {
            return Err(InspectError::Chain(ChainFailure::Descriptor(e)));
        },
        Ok(None) => {
            return Err(
                InspectError::ForeignInput {
                    input_index: i,
                    outpoint: txin.previous_output.duplicate(),
                },
            );
        },
        Ok(Some(owned)) => owned,
    };
    proof {
        lemma_same_wallet(*wallet, *old(wallet), *cfg, gap_limit);
    }
    let keys = match role_keys_at(wallet, cfg, owned.chain, owned.index) {
        Err(e) => {
            return Err(InspectError::Chain(ChainFailure::Descriptor(e)));
        },
        Ok(keys) => keys,
    };
    let path = classify_input_path(&psbt.inputs[i], txin.sequence, &keys, cfg.timelock_blocks);
    Ok(
        (
            InputReport {
                outpoint: txin.previous_output.duplicate(),
                amount: utxo.txout.value,
                confirmations: utxo.confirmations,
                chain: owned.chain,
                index: owned.index,
            },
            path,
        ),
    )
}

/// Why output `i` is refused, if it is: it claims to be change and is not the wallet's.
pub open spec fn output_problem(
    psbt: Psbt,
    wallet: BuiltDescriptor,
    gap_limit: u32,
    i: int,
) -> Option<InspectError> {
    let script = psbt.unsigned_tx.output@[i].script_pubkey@;
    if owner(wallet, script, gap_limit) is None && psbt.outputs@[i].claims_derivation() {
        Some(InspectError::SpoofedChange { output_index: i as usize })
    } else {
        None
    }
}

/// What output `i` does: whether its script is the wallet's, and on which chain, is derived and not
/// believed.
pub open spec fn output_kind(wallet: BuiltDescriptor, script: Seq<u8>, gap_limit: u32) -> OutputKind {
    match owner(wallet, script, gap_limit) {
        Some(owned) => match owned.chain {
            Chain::Internal => OutputKind::Change,
            Chain::External => OutputKind::OwnReceive,
        },
        None => OutputKind::Destination,
    }
}

/// Whether `report` is the report on output `i`.
pub open spec fn reports_output(
    report: OutputReport,
    psbt: Psbt,
    wallet: BuiltDescriptor,
    cfg: WalletConfig,
    gap_limit: u32,
    i: int,
) -> bool {
    let txout = psbt.unsigned_tx.output@[i];
    &&& report.script_pubkey@ == txout.script_pubkey@
    &&& report.amount == txout.value
    &&& report.kind == output_kind(wallet, txout.script_pubkey@, gap_limit)
    &&& match report.address {
        Some(a) => script_address(txout.script_pubkey@, cfg.network) == Some(a@),
        None => script_address(txout.script_pubkey@, cfg.network) is None,
    }
}

fn inspect_output(
    psbt: &Psbt,
    wallet: &mut BuiltDescriptor,
    cfg: &WalletConfig,
    gap_limit: u32,
    i: usize,
) -> (r: Result<OutputReport, InspectError>)
    requires
        psbt.wf(),
        i < psbt.unsigned_tx.output@.len(),
        underivable(*old(wallet), gap_limit) is None,
    ensures
        final(wallet).same_wallet(*old(wallet)),
        match r {
            Ok(report) => output_problem(*psbt, *old(wallet), gap_limit, i as int) is None
                && reports_output(report, *psbt, *old(wallet), *cfg, gap_limit, i as int),
            Err(e) => output_problem(*psbt, *old(wallet), gap_limit, i as int) == Some(e),
        },
{
    let txout = &psbt.unsigned_tx.output[i];
    let kind = match find_owner(wallet, &txout.script_pubkey, gap_limit) {
        Err(e) => {
            return Err(InspectError::Chain(ChainFailure::Descriptor(e)));
        },
        Ok(Some(owned)) => match owned.chain {
            Chain::Internal => OutputKind::Change,
            Chain::External => OutputKind::OwnReceive,
        },
        Ok(None) => {
            if psbt.outputs[i].bip32_derivations > 0 {
                return Err(InspectError::SpoofedChange { output_index: i });
            }
            OutputKind::Destination
        },
    };
    Ok(
        OutputReport {
            script_pubkey: txout.script_pubkey.clone(),
            address: address_of_script(&txout.script_pubkey, cfg.network),
            amount: txout.value,
            kind,
        },
    )
}

/// Why the first `n` inputs are refused, if they are: the first that is.
pub open spec fn first_input_problem(
    psbt: Psbt,
    wallet: BuiltDescriptor,
    cfg: WalletConfig,
    lookups: Seq<UtxoLookup>,
    gap_limit: u32,
    n: int,
) -> Option<InspectError>
    decreases n,
{
    if n <= 0 {
        None
    } else {
        match first_input_problem(psbt, wallet, cfg, lookups, gap_limit, n - 1) {
            Some(e) => Some(e),
            None => input_problem(psbt, wallet, cfg, lookups[n - 1], gap_limit, n - 1),
        }
    }
}

/// Why the first `n` outputs are refused, if they are: the first that is.
pub open spec fn first_output_problem(
    psbt: Psbt,
    wallet: BuiltDescriptor,
    gap_limit: u32,
    n: int,
) -> Option<InspectError>
    decreases n,
{
    if n <= 0 {
        None
    } else {
        match first_output_problem(psbt, wallet, gap_limit, n - 1) {
            Some(e) => Some(e),
            None => output_problem(psbt, wallet, gap_limit, n - 1),
        }
    }
}

proof fn lemma_input_problem_stays(
    psbt: Psbt,
    wallet: BuiltDescriptor,
    cfg: WalletConfig,
    lookups: Seq<UtxoLookup>,
    gap_limit: u32,
    i: int,
    n: int,
)
    requires
        i <= n,
        first_input_problem(psbt, wallet, cfg, lookups, gap_limit, i) is Some,
    ensures
        first_input_problem(psbt, wallet, cfg, lookups, gap_limit, n) == first_input_problem(
            psbt,
            wallet,
            cfg,
            lookups,
            gap_limit,
            i,
        ),
    decreases n - i,
{
    if i < n {
        lemma_input_problem_stays(psbt, wallet, cfg, lookups, gap_limit, i, n - 1);
    }
}

proof fn lemma_output_problem_stays(
    psbt: Psbt,
    wallet: BuiltDescriptor,
    gap_limit: u32,
    i: int,
    n: int,
)
    requires
        i <= n,
        first_output_problem(psbt, wallet, gap_limit, i) is Some,
    ensures
        first_output_problem(psbt, wallet, gap_limit, n) == first_output_problem(
            psbt,
            wallet,
            gap_limit,
            i,
        ),
    decreases n - i,
{
    if i < n {
        lemma_output_problem_stays(psbt, wallet, gap_limit, i, n - 1);
    }
}

/// What the inputs bring, by what the node has on record.
pub open spec fn inputs_sum(lookups: Seq<UtxoLookup>) -> nat
    decreases lookups.len(),
{
    if lookups.len() == 0 {
        0
    } else {
        inputs_sum(lookups.drop_last()) + match lookups.last() {
            UtxoLookup::Found(utxo) => utxo.txout.value as nat,
            _ => 0,
        }
    }
}

/// What the outputs take.
pub open spec fn outputs_sum(outputs: Seq<TxOut>) -> nat
    decreases outputs.len(),
{
    if outputs.len() == 0 {
        0
    } else {
        outputs_sum(outputs.drop_last()) + outputs.last().value as nat
    }
}

/// Why a transaction is refused, if it is. The inputs are looked at in their order, then the
/// outputs in theirs, then the amounts.
pub open spec fn inspect_problem(
    psbt: Psbt,
    wallet: BuiltDescriptor,
    cfg: WalletConfig,
    lookups: Seq<UtxoLookup>,
    gap_limit: u32,
) -> Option<InspectError> {
    let n_in = psbt.unsigned_tx.input@.len();
    let n_out = psbt.unsigned_tx.output@.len();
    let inputs = first_input_problem(psbt, wallet, cfg, lookups, gap_limit, n_in as int);
    let outputs = first_output_problem(psbt, wallet, gap_limit, n_out as int);
    let total_in = inputs_sum(lookups);
    let total_out = outputs_sum(psbt.unsigned_tx.output@);
    let witness = satisfaction_weight(wallet.external_text());
    if n_in == 0 {
        Some(InspectError::InvalidTransaction(Malformed::NoInputs))
    } else if n_out == 0 {
        Some(InspectError::InvalidTransaction(Malformed::NoOutputs))
    } else if inputs is Some {
        inputs
    } else if outputs is Some {
        outputs
    } else if total_in > u64::MAX || total_out > u64::MAX {
        Some(InspectError::InvalidTransaction(Malformed::TooMuch))
    } else if total_out >= total_in {
        Some(
            InspectError::InvalidTransaction(
                Malformed::NoFee { total_in: total_in as u64, total_out: total_out as u64 },
            ),
        )
    } else if witness is None || estimated_weight(psbt, witness.unwrap() as nat) > u64::MAX {
        Some(InspectError::Chain(ChainFailure::Weight))
    } else {
        None
    }
}

/// The ways that the inputs of a transaction go, none of which is refused.
pub open spec fn input_paths(
    psbt: Psbt,
    wallet: BuiltDescriptor,
    cfg: WalletConfig,
    lookups: Seq<UtxoLookup>,
    gap_limit: u32,
) -> Seq<InputPath> {
    Seq::new(
        psbt.unsigned_tx.input@.len(),
        |i: int| path_of_input(psbt, wallet, cfg, lookups[i], gap_limit, i),
    )
}

impl Inspection {
    /// Whether this is what the transaction does.
    pub open spec fn describes(
        self,
        psbt: Psbt,
        wallet: BuiltDescriptor,
        cfg: WalletConfig,
        lookups: Seq<UtxoLookup>,
        gap_limit: u32,
    ) -> bool {
        let witness = satisfaction_weight(wallet.external_text()).unwrap();
        &&& self.inputs@.len() == psbt.unsigned_tx.input@.len()
        &&& forall|i: int|
            0 <= i < self.inputs@.len() ==> #[trigger] self.inputs@[i] == input_report(
                psbt,
                wallet,
                lookups[i],
                gap_limit,
                i,
            )
        &&& self.outputs@.len() == psbt.unsigned_tx.output@.len()
        &&& forall|i: int|
            0 <= i < self.outputs@.len() ==> reports_output(
                #[trigger] self.outputs@[i],
                psbt,
                wallet,
                cfg,
                gap_limit,
                i,
            )
        &&& self.total_in == inputs_sum(lookups)
        &&& self.total_out == outputs_sum(psbt.unsigned_tx.output@)
        &&& self.fee == self.total_in - self.total_out
        &&& self.estimated_vsize == (estimated_weight(psbt, witness as nat) + 3) / 4
        &&& self.spending_path == combined_path(
            input_paths(psbt, wallet, cfg, lookups, gap_limit),
        )
    }
}

/// Looks at a transaction, given what the node says of each output that it spends, and says what
/// it does, or why it is refused. The fee rate is still to be divided out: see
/// [`Inspection::with_fee_rate`].
pub fn inspect(
    psbt: &Psbt,
    wallet: &mut BuiltDescriptor,
    cfg: &WalletConfig,
    lookups: &Vec<UtxoLookup>,
    gap_limit: u32,
) -> (r: Result<Inspection, InspectError>)
    requires
        psbt.wf(),
        lookups@.len() == psbt.unsigned_tx.input@.len(),
    ensures
        final(wallet).same_wallet(*old(wallet)),
        match r {
            Ok(x) => inspect_problem(*psbt, *old(wallet), *cfg, lookups@, gap_limit) is None
                && x.describes(*psbt, *old(wallet), *cfg, lookups@, gap_limit),
            Err(e) => inspect_problem(*psbt, *old(wallet), *cfg, lookups@, gap_limit) == Some(e),
        },
{
    let ghost wallet0 = *old(wallet);
    let tx = &psbt.unsigned_tx;
    let n_in: usize = tx.input.len();
    let n_out: usize = tx.output.len();
    if n_in == 0 {
        return Err(InspectError::InvalidTransaction(Malformed::NoInputs));
    }
    if n_out == 0 {
        return Err(InspectError::InvalidTransaction(Malformed::NoOutputs));
    }
    let mut inputs: Vec<InputReport> = Vec::new();
    let mut paths: Vec<InputPath> = Vec::new();
    let mut sum_in: Option<u64> = Some(0);
    let mut i: usize = 0;
    while i < n_in
        invariant
            i <= n_in,
            n_in == tx.input@.len(),
            *tx == psbt.unsigned_tx,
            psbt.wf(),
            lookups@.len() == n_in,
            wallet.same_wallet(wallet0),
            first_input_problem(*psbt, wallet0, *cfg, lookups@, gap_limit, i as int) is None,
            i > 0 ==> underivable(wallet0, gap_limit) is None,
            inputs@.len() == i,
            paths@.len() == i,
            forall|j: int|
                0 <= j < i ==> #[trigger] inputs@[j] == input_report(
                    *psbt,
                    wallet0,
                    lookups@[j],
                    gap_limit,
                    j,
                ),
            forall|j: int|
                0 <= j < i ==> #[trigger] paths@[j] == path_of_input(
                    *psbt,
                    wallet0,
                    *cfg,
                    lookups@[j],
                    gap_limit,
                    j,
                ),
            holds_if_it_fits(sum_in, inputs_sum(lookups@.take(i as int))),
            n_in > 0,
            n_out == tx.output@.len(),
            n_out > 0,
            wallet0 == *old(wallet),
        decreases n_in - i,
    {
        proof {
            lemma_same_wallet(*wallet, wallet0, *cfg, gap_limit);
            assert(lookups@.take(i + 1).drop_last() =~= lookups@.take(i as int));
        }
        match inspect_input(psbt, wallet, cfg, &lookups[i], gap_limit, i) {
            Err(e) => {
                proof {
                    lemma_input_problem_stays(
                        *psbt,
                        wallet0,
                        *cfg,
                        lookups@,
                        gap_limit,
                        i + 1,
                        n_in as int,
                    );
                }
                return Err(e);
            },
            Ok((report, path)) => {
                sum_in = plus(sum_in, report.amount);
                inputs.push(report);
                paths.push(path);
            },
        }
        i = i + 1;
    }
    assert(lookups@.take(i as int) =~= lookups@);
    let mut outputs: Vec<OutputReport> = Vec::new();
    let mut sum_out: Option<u64> = Some(0);
    let mut j: usize = 0;
    while j < n_out
        invariant
            j <= n_out,
            n_out == tx.output@.len(),
            *tx == psbt.unsigned_tx,
            psbt.wf(),
            wallet.same_wallet(wallet0),
            underivable(wallet0, gap_limit) is None,
            first_input_problem(*psbt, wallet0, *cfg, lookups@, gap_limit, n_in as int) is None,
            first_output_problem(*psbt, wallet0, gap_limit, j as int) is None,
            outputs@.len() == j,
            forall|k: int|
                0 <= k < j ==> reports_output(
                    #[trigger] outputs@[k],
                    *psbt,
                    wallet0,
                    *cfg,
                    gap_limit,
                    k,
                ),
            holds_if_it_fits(sum_out, outputs_sum(tx.output@.take(j as int))),
            n_in == tx.input@.len(),
            n_in > 0,
            n_out > 0,
            wallet0 == *old(wallet),
        decreases n_out - j,
    {
        proof {
            lemma_same_wallet(*wallet, wallet0, *cfg, gap_limit);
            assert(tx.output@.take(j + 1).drop_last() =~= tx.output@.take(j as int));
        }
        match inspect_output(psbt, wallet, cfg, gap_limit, j) {
            Err(e) => {
                proof {
                    lemma_output_problem_stays(*psbt, wallet0, gap_limit, j + 1, n_out as int);
                }
                return Err(e);
            },
            Ok(report) => {
                sum_out = plus(sum_out, report.amount);
                outputs.push(report);
            },
        }
        j = j + 1;
    }
    assert(tx.output@.take(j as int) =~= tx.output@);
    let (total_in, total_out) = match (sum_in, sum_out) {
        (Some(a), Some(b)) => (a, b),
        _ => {
            return Err(InspectError::InvalidTransaction(Malformed::TooMuch));
        },
    };
    if total_out >= total_in {
        return Err(InspectError::InvalidTransaction(Malformed::NoFee { total_in, total_out }));
    }
    proof {
        lemma_same_wallet(*wallet, wallet0, *cfg, gap_limit);
    }
    let weight: u64 = match witness_weight(wallet.external()) {
        None => {
            return Err(InspectError::Chain(ChainFailure::Weight));
        },
        Some(w) => match estimate_weight(psbt, w) {
            None => {
                return Err(InspectError::Chain(ChainFailure::Weight));
            },
            Some(weight) => weight,
        },
    };
    let vsize: u64 = weight / 4 + if weight % 4 == 0 {
        0
    } else {
        1
    };
    let spending_path = combine_paths(&paths);
    assert(paths@ =~= input_paths(*psbt, wallet0, *cfg, lookups@, gap_limit));
    Ok(
        Inspection {
            inputs,
            outputs,
            total_in,
            total_out,
            fee: total_in - total_out,
            estimated_vsize: vsize,
            spending_path,
        },
    )
}

/// The name of an error for a machine.
pub open spec fn inspect_error_code(e: InspectError) -> Seq<char> {
    match e {
        InspectError::InvalidTransaction(_) => "invalid_transaction"@,
        InspectError::UnknownUtxo { .. } => "unknown_utxo"@,
        InspectError::TamperedUtxo { .. } => "tampered_utxo"@,
        InspectError::ForeignInput { .. } => "foreign_input"@,
        InspectError::SpoofedChange { .. } => "spoofed_change"@,
        InspectError::Chain(_) => "chain_error"@,
    }
}

/// An amount as a person is told it, in whole coins where it is any number of them, and else with
/// eight decimals.
pub open spec fn amount_text(sat: u64) -> Seq<char> {
    let coins = decimal((sat / 100_000_000) as nat);
    let rest = (sat % 100_000_000) as nat;
    if rest == 0 {
        coins + " BTC"@
    } else {
        coins + "."@ + decimal(100_000_000 + rest).skip(1) + " BTC"@
    }
}

/// `<bitcoin::Amount as Display>::fmt`: the amount in coins, without decimals where it is a whole
/// number of them and else with eight, and the unit.
#[verifier::external_body]
pub(crate) fn show_amount(sat: u64) -> (r: String)
    ensures
        r@ == amount_text(sat),
{
    bitcoin::Amount::from_sat(sat).to_string()
}

/// The text of an error.
pub open spec fn inspect_error_text(e: InspectError) -> Seq<char> {
    match e {
        InspectError::InvalidTransaction(m) => "transaction is malformed: "@ + match m {
            Malformed::NoInputs => "no inputs"@,
            Malformed::NoOutputs => "no outputs"@,
            Malformed::TooMuch => "amounts out of range"@,
            Malformed::NoFee { total_in, total_out } => "outputs ("@ + amount_text(total_out)
                + ") must be strictly less than inputs ("@ + amount_text(total_in)
                + "); fee would be zero or negative"@,
        },
        InspectError::UnknownUtxo { input_index, outpoint } => "input "@ + decimal(
            input_index as nat,
        ) + " ("@ + outpoint.text() + ") does not reference a known, unspent UTXO"@,
        InspectError::TamperedUtxo { input_index, outpoint } => "input "@ + decimal(
            input_index as nat,
        ) + " ("@ + outpoint.text()
            + ") claims a different value/script than the chain has on record"@,
        InspectError::ForeignInput { input_index, outpoint } => "input "@ + decimal(
            input_index as nat,
        ) + " ("@ + outpoint.text() + ") is not derived from the registered descriptor"@,
        InspectError::SpoofedChange { output_index } => "output "@ + decimal(output_index as nat)
            + " claims to be change (has bip32_derivation) but does not derive from our internal chain"@,
        InspectError::Chain(f) => "failed querying chain state: "@ + match f {
            ChainFailure::Node(message) => message@,
            ChainFailure::Descriptor(e) => descriptor_error_text(e),
            ChainFailure::Weight => "computing max satisfaction weight"@,
        },
    }
}

fn input_sentence(i: usize, outpoint: &OutPoint, rest: &str) -> (r: String)
    ensures
        r@ == "input "@ + decimal(i as nat) + " ("@ + outpoint.text() + rest@,
{
    let mut out = "input ".to_owned();
    push_decimal(&mut out, i as u64);
    out.append(" (");
    out.append(outpoint.to_text().as_str());
    out.append(rest);
    out
}

impl InspectError {
    /// A name that does not change, for machines.
    pub fn code(&self) -> (r: &'static str)
        ensures
            r@ == inspect_error_code(*self),
    {
        match self {
            InspectError::InvalidTransaction(_) => "invalid_transaction",
            InspectError::UnknownUtxo { .. } => "unknown_utxo",
            InspectError::TamperedUtxo { .. } => "tampered_utxo",
            InspectError::ForeignInput { .. } => "foreign_input",
            InspectError::SpoofedChange { .. } => "spoofed_change",
            InspectError::Chain(_) => "chain_error",
        }
    }

    /// What a person is told.
    pub fn message(&self) -> (r: String)
        ensures
            r@ == inspect_error_text(*self),
    {
        match self {
            InspectError::InvalidTransaction(m) => {
                let mut out = "transaction is malformed: ".to_owned();
                let ghost head = out@;
                match m {
                    Malformed::NoInputs => {
                        out.append("no inputs");
                    },
                    Malformed::NoOutputs => {
                        out.append("no outputs");
                    },
                    Malformed::TooMuch => {
                        out.append("amounts out of range");
                    },
                    Malformed::NoFee { total_in, total_out } => {
                        let mut why = "outputs (".to_owned();
                        why.append(show_amount(*total_out).as_str());
                        why.append(") must be strictly less than inputs (");
                        why.append(show_amount(*total_in).as_str());
                        why.append("); fee would be zero or negative");
                        out.append(why.as_str());
                    },
                }
                out
            },
            InspectError::UnknownUtxo { input_index, outpoint } => input_sentence(
                *input_index,
                outpoint,
                ") does not reference a known, unspent UTXO",
            ),
            InspectError::TamperedUtxo { input_index, outpoint } => input_sentence(
                *input_index,
                outpoint,
                ") claims a different value/script than the chain has on record",
            ),
            InspectError::ForeignInput { input_index, outpoint } => input_sentence(
                *input_index,
                outpoint,
                ") is not derived from the registered descriptor",
            ),
            InspectError::SpoofedChange { output_index } => {
                let mut out = "output ".to_owned();
                push_decimal(&mut out, *output_index as u64);
                out.append(
                    " claims to be change (has bip32_derivation) but does not derive from our internal chain",
                );
                out
            },
            InspectError::Chain(f) => {
                let mut out = "failed querying chain state: ".to_owned();
                match f {
                    ChainFailure::Node(message) => {
                        out.append(message.as_str());
                    },
                    ChainFailure::Descriptor(e) => {
                        out.append(e.message().as_str());
                    },
                    ChainFailure::Weight => {
                        out.append("computing max satisfaction weight");
                    },
                }
                out
            },
        }
    }
}

proof fn lemma_no_input_problem(
    psbt: Psbt,
    wallet: BuiltDescriptor,
    cfg: WalletConfig,
    lookups: Seq<UtxoLookup>,
    gap_limit: u32,
    n: int,
)
    requires
        first_input_problem(psbt, wallet, cfg, lookups, gap_limit, n) is None,
    ensures
        forall|i: int|
            0 <= i < n ==> input_problem(
                psbt,
                wallet,
                cfg,
                #[trigger] lookups[i],
                gap_limit,
                i,
            ) is None,
    decreases n,
{
    if n > 0 {
        lemma_no_input_problem(psbt, wallet, cfg, lookups, gap_limit, n - 1);
    }
}

proof fn lemma_no_output_problem(psbt: Psbt, wallet: BuiltDescriptor, gap_limit: u32, n: int)
    requires
        first_output_problem(psbt, wallet, gap_limit, n) is None,
    ensures
        forall|i: int|
            0 <= i < n ==> #[trigger] output_problem(psbt, wallet, gap_limit, i) is None,
    decreases n,
{
    if n > 0 {
        lemma_no_output_problem(psbt, wallet, gap_limit, n - 1);
    }
}

/// A transaction that is not refused spends only what the node has on record and the wallet owns,
/// says nothing false of what it spends, pays a fee, and marks nothing as change that is not the
/// wallet's: an output that claims to be derived from the wallet's keys is no destination.
pub proof fn law_an_inspected_transaction_spends_the_wallets_coins(
    psbt: Psbt,
    wallet: BuiltDescriptor,
    cfg: WalletConfig,
    lookups: Seq<UtxoLookup>,
    gap_limit: u32,
)
    requires
        psbt.wf(),
        lookups.len() == psbt.unsigned_tx.input@.len(),
        inspect_problem(psbt, wallet, cfg, lookups, gap_limit) is None,
    ensures
        lookups.len() > 0,
        forall|i: int|
            0 <= i < lookups.len() ==> (#[trigger] lookups[i] matches UtxoLookup::Found(utxo) && {
                &&& owner(wallet, utxo.txout.script_pubkey@, gap_limit) is Some
                &&& !claims_otherwise(
                    psbt.inputs@[i],
                    psbt.unsigned_tx.input@[i].previous_output.vout,
                    utxo.txout,
                )
            }),
        forall|i: int|
            0 <= i < psbt.outputs@.len() && (#[trigger] psbt.outputs@[i]).claims_derivation()
                ==> output_kind(
                wallet,
                psbt.unsigned_tx.output@[i].script_pubkey@,
                gap_limit,
            ) != OutputKind::Destination,
        outputs_sum(psbt.unsigned_tx.output@) < inputs_sum(lookups),
{
    let n_in = psbt.unsigned_tx.input@.len() as int;
    let n_out = psbt.unsigned_tx.output@.len() as int;
    lemma_no_input_problem(psbt, wallet, cfg, lookups, gap_limit, n_in);
    lemma_no_output_problem(psbt, wallet, gap_limit, n_out);
    assert forall|i: int|
        0 <= i < psbt.outputs@.len() && (#[trigger] psbt.outputs@[i]).claims_derivation() implies output_kind(
        wallet,
        psbt.unsigned_tx.output@[i].script_pubkey@,
        gap_limit,
    ) != OutputKind::Destination by {
        assert(output_problem(psbt, wallet, gap_limit, i) is None);
    }
}

/// Where no input satisfies the timelock, the transaction can only be hot, whatever has signed it.
pub proof fn law_without_the_timelock_only_the_hot_path_is_left(
    psbt: Psbt,
    wallet: BuiltDescriptor,
    cfg: WalletConfig,
    lookups: Seq<UtxoLookup>,
    gap_limit: u32,
)
    requires
        forall|i: int|
            0 <= i < psbt.unsigned_tx.input@.len() ==> !older_satisfied(
                (#[trigger] psbt.unsigned_tx.input@[i]).sequence,
                cfg.timelock_blocks,
            ),
    ensures
        combined_path(input_paths(psbt, wallet, cfg, lookups, gap_limit)) == SpendingPath::Hot,
{
    let paths = input_paths(psbt, wallet, cfg, lookups, gap_limit);
    assert forall|i: int| 0 <= i < paths.len() implies paths[i] == InputPath::Hot by {
        assert(!older_satisfied(
            psbt.unsigned_tx.input@[i].sequence,
            cfg.timelock_blocks,
        ));
    }
}

/// A transaction with inputs goes one way exactly where all of its inputs go that way, and is never
/// both.
pub proof fn law_a_path_is_the_path_of_every_input(paths: Seq<InputPath>)
    requires
        paths.len() > 0,
    ensures
        combined_path(paths) == SpendingPath::Hot <==> forall|i: int|
            0 <= i < paths.len() ==> paths[i] == InputPath::Hot,
        combined_path(paths) == SpendingPath::Recovery <==> forall|i: int|
            0 <= i < paths.len() ==> paths[i] == InputPath::Recovery,
{
    if forall|i: int| 0 <= i < paths.len() ==> paths[i] == InputPath::Recovery {
        assert(paths[0] == InputPath::Recovery);
    }
}

/// The weight counts a missing witness at the heaviest: filling a witness in that is no heavier
/// never makes the estimate larger.
pub proof fn law_a_missing_witness_counts_at_its_heaviest(
    inputs: Seq<PsbtInput>,
    weight: nat,
    lighter: nat,
)
    requires
        lighter <= weight,
    ensures
        witnesses_size(inputs, lighter) <= witnesses_size(inputs, weight),
    decreases inputs.len(),
{
    if inputs.len() > 0 {
        law_a_missing_witness_counts_at_its_heaviest(inputs.drop_last(), weight, lighter);
    }
}

/// A count takes 1 byte up to 252, 3 up to 65535, 5 up to 4294967295, and 9 above.
pub proof fn law_a_count_takes_one_to_nine_bytes(n: nat)
    ensures
        n < 253 ==> compact_size_len(n) == 1,
        253 <= n < 65_536 ==> compact_size_len(n) == 3,
        65_536 <= n < 4_294_967_296 ==> compact_size_len(n) == 5,
        n >= 4_294_967_296 ==> compact_size_len(n) == 9,
{
}

/// Each output adds its own bytes, however many there are before it: the amount, the length of the
/// script and the script.
pub proof fn law_each_output_adds_its_own_bytes(outputs: Seq<TxOut>, o: TxOut)
    ensures
        outputs_size(Seq::empty()) == 0,
        outputs_size(outputs.push(o)) == outputs_size(outputs) + 8 + compact_size_len(
            o.script_pubkey@.len(),
        ) + o.script_pubkey@.len(),
        outputs_sum(Seq::empty()) == 0,
        outputs_sum(outputs.push(o)) == outputs_sum(outputs) + o.value,
{
    assert(outputs.push(o).drop_last() =~= outputs);
}

/// Each input adds its own bytes, however many there are before it: the outpoint, the length of the
/// script, the script and the sequence number.
pub proof fn law_each_input_adds_its_own_bytes(inputs: Seq<TxIn>, i: TxIn)
    ensures
        inputs_size(Seq::empty()) == 0,
        inputs_size(inputs.push(i)) == inputs_size(inputs) + 32 + 4 + compact_size_len(
            i.script_sig@.len(),
        ) + i.script_sig@.len() + 4,
{
    assert(inputs.push(i).drop_last() =~= inputs);
}

/// Each witness adds its own size, where it is final, and otherwise the heaviest that the wallet's
/// can have.
pub proof fn law_each_witness_adds_its_own_size(
    inputs: Seq<PsbtInput>,
    i: PsbtInput,
    our_witness_weight: nat,
)
    ensures
        witnesses_size(Seq::empty(), our_witness_weight) == 0,
        i.final_witness_size matches Some(size) ==> witnesses_size(
            inputs.push(i),
            our_witness_weight,
        ) == witnesses_size(inputs, our_witness_weight) + size,
        i.final_witness_size is None ==> witnesses_size(inputs.push(i), our_witness_weight)
            == witnesses_size(inputs, our_witness_weight) + our_witness_weight,
{
    assert(inputs.push(i).drop_last() =~= inputs);
}

/// Each amount that the node has on record adds to what comes in, in full.
pub proof fn law_each_coin_adds_its_amount(lookups: Seq<UtxoLookup>, found: UtxoLookup)
    ensures
        inputs_sum(Seq::empty()) == 0,
        found matches UtxoLookup::Found(utxo) ==> inputs_sum(lookups.push(found)) == inputs_sum(
            lookups,
        ) + utxo.txout.value,
{
    assert(lookups.push(found).drop_last() =~= lookups);
}

/// A transaction without inputs and outputs weighs 42: version, locktime and two counts at four a
/// byte, and marker and flag at one.
pub proof fn law_an_empty_transaction_weighs_forty_two(psbt: Psbt, our_witness_weight: nat)
    requires
        psbt.wf(),
        psbt.unsigned_tx.input@.len() == 0,
        psbt.unsigned_tx.output@.len() == 0,
    ensures
        estimated_weight(psbt, our_witness_weight) == 42,
{
    reveal_with_fuel(inputs_size, 2);
    reveal_with_fuel(outputs_size, 2);
    reveal_with_fuel(witnesses_size, 2);
}

/// An output more adds four for each of its bytes to the weight, and four for each byte by which the
/// count of outputs grows.
pub proof fn law_an_output_weighs_four_a_byte(
    psbt: Psbt,
    more: Psbt,
    o: TxOut,
    our_witness_weight: nat,
)
    requires
        more.unsigned_tx.input@ == psbt.unsigned_tx.input@,
        more.inputs@ == psbt.inputs@,
        more.unsigned_tx.output@ == psbt.unsigned_tx.output@.push(o),
    ensures
        ({
            let n = psbt.unsigned_tx.output@.len();
            let script = o.script_pubkey@.len();
            estimated_weight(more, our_witness_weight) == estimated_weight(
                psbt,
                our_witness_weight,
            ) + 4 * (8 + compact_size_len(script) + script) + 4 * (compact_size_len(n + 1)
                - compact_size_len(n))
        }),
{
    law_each_output_adds_its_own_bytes(psbt.unsigned_tx.output@, o);
}

/// An input more adds four for each of its bytes to the weight, four for each byte by which the count
/// of inputs grows, and its witness once.
pub proof fn law_an_input_weighs_four_a_byte_and_its_witness(
    psbt: Psbt,
    more: Psbt,
    txin: TxIn,
    input: PsbtInput,
    our_witness_weight: nat,
)
    requires
        more.unsigned_tx.output@ == psbt.unsigned_tx.output@,
        more.unsigned_tx.input@ == psbt.unsigned_tx.input@.push(txin),
        more.inputs@ == psbt.inputs@.push(input),
    ensures
        ({
            let n = psbt.unsigned_tx.input@.len();
            let script = txin.script_sig@.len();
            let witness = match input.final_witness_size {
                Some(size) => size as nat,
                None => our_witness_weight,
            };
            estimated_weight(more, our_witness_weight) == estimated_weight(
                psbt,
                our_witness_weight,
            ) + 4 * (40 + compact_size_len(script) + script) + 4 * (compact_size_len(n + 1)
                - compact_size_len(n)) + witness
        }),
{
    law_each_input_adds_its_own_bytes(psbt.unsigned_tx.input@, txin);
    law_each_witness_adds_its_own_size(psbt.inputs@, input, our_witness_weight);
}

/// The virtual size that is reported is the least number of which four times is no less than the
/// weight.
pub proof fn law_a_virtual_byte_is_four_weight_units(
    report: Inspection,
    psbt: Psbt,
    wallet: BuiltDescriptor,
    cfg: WalletConfig,
    lookups: Seq<UtxoLookup>,
    gap_limit: u32,
)
    requires
        report.describes(psbt, wallet, cfg, lookups, gap_limit),
        satisfaction_weight(wallet.external_text()) is Some,
    ensures
        ({
            let witness = satisfaction_weight(wallet.external_text())->Some_0 as nat;
            &&& 4 * report.estimated_vsize >= estimated_weight(psbt, witness)
            &&& 4 * report.estimated_vsize < estimated_weight(psbt, witness) + 4
        }),
{
}

/// What comes in goes out or is the fee: the amounts on record of the inputs are the amounts of the
/// outputs and the fee.
pub proof fn law_the_fee_is_what_no_output_takes(
    report: Inspection,
    psbt: Psbt,
    wallet: BuiltDescriptor,
    cfg: WalletConfig,
    lookups: Seq<UtxoLookup>,
    gap_limit: u32,
)
    requires
        report.describes(psbt, wallet, cfg, lookups, gap_limit),
    ensures
        report.total_in == inputs_sum(lookups),
        report.total_out == outputs_sum(psbt.unsigned_tx.output@),
        report.total_in == report.total_out + report.fee,
        inputs_sum(lookups) == outputs_sum(psbt.unsigned_tx.output@) + report.fee,
{
}

/// The report has an entry for every output, in order, with its amount and script. It is a destination
/// exactly where neither chain has the script within the limit; change comes back on the internal
/// chain and on no index of the external one.
pub proof fn law_money_leaves_where_the_script_is_not_the_wallets(
    report: Inspection,
    psbt: Psbt,
    wallet: BuiltDescriptor,
    cfg: WalletConfig,
    lookups: Seq<UtxoLookup>,
    gap_limit: u32,
    i: int,
)
    requires
        report.describes(psbt, wallet, cfg, lookups, gap_limit),
        0 <= i < psbt.unsigned_tx.output@.len(),
    ensures
        report.outputs@.len() == psbt.unsigned_tx.output@.len(),
        report.outputs@[i].amount == psbt.unsigned_tx.output@[i].value,
        report.outputs@[i].script_pubkey@ == psbt.unsigned_tx.output@[i].script_pubkey@,
        report.outputs@[i].kind == OutputKind::Destination <==> forall|chain: Chain, k: u32|
            k < gap_limit ==> #[trigger] derived_script(wallet.of_chain(chain), k) != Some(
                psbt.unsigned_tx.output@[i].script_pubkey@,
            ),
        report.outputs@[i].kind == OutputKind::OwnReceive <==> exists|k: u32|
            k < gap_limit && #[trigger] derived_script(wallet.external_text(), k) == Some(
                psbt.unsigned_tx.output@[i].script_pubkey@,
            ),
        report.outputs@[i].address matches Some(a) ==> script_address(
            psbt.unsigned_tx.output@[i].script_pubkey@,
            cfg.network,
        ) == Some(a@),
        report.outputs@[i].address is None ==> script_address(
            psbt.unsigned_tx.output@[i].script_pubkey@,
            cfg.network,
        ) is None,
{
    let script = psbt.unsigned_tx.output@[i].script_pubkey@;
    assert(reports_output(report.outputs@[i], psbt, wallet, cfg, gap_limit, i));
    law_an_owned_script_is_the_wallets(wallet, script, gap_limit);
    if exists|k: u32|
        k < gap_limit && #[trigger] derived_script(wallet.external_text(), k) == Some(script) {
        let k = choose|k: u32|
            k < gap_limit && #[trigger] derived_script(wallet.external_text(), k) == Some(script);
        law_the_external_chain_wins(wallet, script, gap_limit, k);
        assert(derived_script(wallet.of_chain(Chain::External), k) == Some(script));
    }
    match owner(wallet, script, gap_limit) {
        Some(o) => {
            assert(derived_script(wallet.of_chain(o.chain), o.index) == Some(script));
        },
        None => {},
    }
}

/// The report has an entry for every input, in order: the output that is spent, the amount and the
/// confirmations on record, and an index of the wallet that has the script.
pub proof fn law_an_input_is_reported_as_the_node_has_it(
    report: Inspection,
    psbt: Psbt,
    wallet: BuiltDescriptor,
    cfg: WalletConfig,
    lookups: Seq<UtxoLookup>,
    gap_limit: u32,
    i: int,
)
    requires
        psbt.wf(),
        lookups.len() == psbt.unsigned_tx.input@.len(),
        inspect_problem(psbt, wallet, cfg, lookups, gap_limit) is None,
        report.describes(psbt, wallet, cfg, lookups, gap_limit),
        0 <= i < psbt.unsigned_tx.input@.len(),
    ensures
        report.inputs@.len() == psbt.unsigned_tx.input@.len(),
        report.inputs@[i].outpoint == psbt.unsigned_tx.input@[i].previous_output,
        lookups[i] matches UtxoLookup::Found(utxo) && {
            &&& report.inputs@[i].amount == utxo.txout.value
            &&& report.inputs@[i].confirmations == utxo.confirmations
            &&& report.inputs@[i].index < gap_limit
            &&& derived_script(
                wallet.of_chain(report.inputs@[i].chain),
                report.inputs@[i].index,
            ) == Some(utxo.txout.script_pubkey@)
        },
{
    law_an_inspected_transaction_spends_the_wallets_coins(psbt, wallet, cfg, lookups, gap_limit);
    assert(report.inputs@[i] == input_report(psbt, wallet, lookups[i], gap_limit, i));
    assert(lookups[i] is Found);
    law_an_owned_script_is_the_wallets(
        wallet,
        lookups[i]->Found_0.txout.script_pubkey@,
        gap_limit,
    );
}

/// An input goes the recovery way exactly where its sequence number satisfies the timelock and the
/// mobile key has signed it, and is open exactly where it satisfies the timelock and neither the
/// mobile nor the server key has signed it.
pub proof fn law_the_signatures_tell_the_path(
    input: PsbtInput,
    sequence: u32,
    server: Seq<u8>,
    mobile: Seq<u8>,
    timelock_blocks: u16,
)
    ensures
        ({
            let path = input_path(input, sequence, server, mobile, timelock_blocks);
            let waited = sequence < 0x8000_0000 && (sequence / 0x40_0000) % 2 == 0 && sequence
                % 0x1_0000 >= timelock_blocks;
            let by_mobile = exists|i: int|
                0 <= i < input.partial_sigs@.len() && (
                #[trigger] input.partial_sigs@[i]).public_key@ == mobile;
            let by_server = exists|i: int|
                0 <= i < input.partial_sigs@.len() && (
                #[trigger] input.partial_sigs@[i]).public_key@ == server;
            &&& path == InputPath::Recovery <==> waited && by_mobile
            &&& path == InputPath::Ambiguous <==> waited && !by_mobile && !by_server
        }),
{
    assert(((sequence / 0x40_0000) % 2 == 0) == (sequence % 0x80_0000 < 0x40_0000))
        by (nonlinear_arith);
}

/// What a transaction says of an output that it spends is true exactly where every amount and script
/// that it names for it is the one on record.
pub proof fn law_a_claim_is_true_where_amount_and_script_are_on_record(
    input: PsbtInput,
    vout: u32,
    recorded: TxOut,
)
    ensures
        !claims_otherwise(input, vout, recorded) <==> {
            &&& input.witness_utxo matches Some(o) ==> o.value == recorded.value
                && o.script_pubkey@ == recorded.script_pubkey@
            &&& input.non_witness_utxo matches Some(outputs) ==> (vout < outputs@.len()
                ==> outputs@[vout as int].value == recorded.value
                && outputs@[vout as int].script_pubkey@ == recorded.script_pubkey@)
        },
{
}

/// The input that is refused is the first that has something wrong with it, and it is refused for
/// that: the node failed, has no such output, has another one on record, or one that is not the
/// wallet's.
pub proof fn law_the_first_bad_input_is_refused(
    psbt: Psbt,
    wallet: BuiltDescriptor,
    cfg: WalletConfig,
    lookups: Seq<UtxoLookup>,
    gap_limit: u32,
    n: int,
    i: int,
)
    requires
        0 <= i < n,
        forall|j: int|
            0 <= j < i ==> input_problem(psbt, wallet, cfg, #[trigger] lookups[j], gap_limit, j)
                is None,
    ensures
        ({
            let refusal = first_input_problem(psbt, wallet, cfg, lookups, gap_limit, n);
            let outpoint = psbt.unsigned_tx.input@[i].previous_output;
            match lookups[i] {
                UtxoLookup::Failed(m) => refusal == Some(
                    InspectError::Chain(ChainFailure::Node(m)),
                ),
                UtxoLookup::Missing => refusal == Some(
                    InspectError::UnknownUtxo { input_index: i as usize, outpoint },
                ),
                UtxoLookup::Found(utxo) => {
                    let lies = claims_otherwise(psbt.inputs@[i], outpoint.vout, utxo.txout);
                    let owned = owner(wallet, utxo.txout.script_pubkey@, gap_limit);
                    &&& lies ==> refusal == Some(
                        InspectError::TamperedUtxo { input_index: i as usize, outpoint },
                    )
                    &&& !lies && underivable(wallet, gap_limit) is None && owned is None
                        ==> refusal == Some(
                        InspectError::ForeignInput { input_index: i as usize, outpoint },
                    )
                },
            }
        }),
    decreases n,
{
    if i == n - 1 {
        lemma_none_before(psbt, wallet, cfg, lookups, gap_limit, i);
    } else {
        law_the_first_bad_input_is_refused(psbt, wallet, cfg, lookups, gap_limit, n - 1, i);
    }
}

proof fn lemma_none_before(
    psbt: Psbt,
    wallet: BuiltDescriptor,
    cfg: WalletConfig,
    lookups: Seq<UtxoLookup>,
    gap_limit: u32,
    n: int,
)
    requires
        forall|j: int|
            0 <= j < n ==> input_problem(psbt, wallet, cfg, #[trigger] lookups[j], gap_limit, j)
                is None,
    ensures
        first_input_problem(psbt, wallet, cfg, lookups, gap_limit, n) is None,
    decreases n,
{
    if n > 0 {
        lemma_none_before(psbt, wallet, cfg, lookups, gap_limit, n - 1);
        assert(input_problem(psbt, wallet, cfg, lookups[n - 1], gap_limit, n - 1) is None);
    }
}

/// An output that claims to be derived from the wallet's keys and is not the wallet's is refused, the
/// first of them by its place.
pub proof fn law_the_first_spoofed_change_is_refused(
    psbt: Psbt,
    wallet: BuiltDescriptor,
    gap_limit: u32,
    n: int,
    i: int,
)
    requires
        0 <= i < n,
        psbt.outputs@[i].bip32_derivations > 0,
        owner(wallet, psbt.unsigned_tx.output@[i].script_pubkey@, gap_limit) is None,
        forall|j: int|
            0 <= j < i ==> (#[trigger] psbt.outputs@[j]).bip32_derivations == 0 || owner(
                wallet,
                psbt.unsigned_tx.output@[j].script_pubkey@,
                gap_limit,
            ) is Some,
    ensures
        first_output_problem(psbt, wallet, gap_limit, n) == Some(
            InspectError::SpoofedChange { output_index: i as usize },
        ),
    decreases n,
{
    if i == n - 1 {
        lemma_no_spoof_before(psbt, wallet, gap_limit, i);
    } else {
        law_the_first_spoofed_change_is_refused(psbt, wallet, gap_limit, n - 1, i);
    }
}

proof fn lemma_no_spoof_before(psbt: Psbt, wallet: BuiltDescriptor, gap_limit: u32, n: int)
    requires
        forall|j: int|
            0 <= j < n ==> (#[trigger] psbt.outputs@[j]).bip32_derivations == 0 || owner(
                wallet,
                psbt.unsigned_tx.output@[j].script_pubkey@,
                gap_limit,
            ) is Some,
    ensures
        first_output_problem(psbt, wallet, gap_limit, n) is None,
    decreases n,
{
    if n > 0 {
        lemma_no_spoof_before(psbt, wallet, gap_limit, n - 1);
        assert(psbt.outputs@[n - 1].bip32_derivations == 0 || owner(
            wallet,
            psbt.unsigned_tx.output@[n - 1].script_pubkey@,
            gap_limit,
        ) is Some);
    }
}

/// A transaction is inspected wherever it has inputs and outputs, spends what the node has on record
/// and the wallet owns, says nothing false of it, marks as change only what is the wallet's, and pays
/// a fee, and its sums and its weight fit.
pub proof fn law_a_sound_transaction_is_inspected(
    psbt: Psbt,
    wallet: BuiltDescriptor,
    cfg: WalletConfig,
    lookups: Seq<UtxoLookup>,
    gap_limit: u32,
)
    requires
        psbt.wf(),
        lookups.len() == psbt.unsigned_tx.input@.len(),
        lookups.len() > 0,
        psbt.unsigned_tx.output@.len() > 0,
        underivable(wallet, gap_limit) is None,
        forall|i: int|
            0 <= i < lookups.len() ==> (#[trigger] lookups[i] matches UtxoLookup::Found(utxo) && {
                &&& !claims_otherwise(
                    psbt.inputs@[i],
                    psbt.unsigned_tx.input@[i].previous_output.vout,
                    utxo.txout,
                )
                &&& owner(wallet, utxo.txout.script_pubkey@, gap_limit) matches Some(o)
                    && role_keys_of(wallet, cfg, o.chain, o.index) is Ok
            }),
        forall|i: int|
            0 <= i < psbt.outputs@.len() ==> (#[trigger] psbt.outputs@[i]).bip32_derivations == 0
                || owner(wallet, psbt.unsigned_tx.output@[i].script_pubkey@, gap_limit) is Some,
        inputs_sum(lookups) <= u64::MAX,
        outputs_sum(psbt.unsigned_tx.output@) < inputs_sum(lookups),
        satisfaction_weight(wallet.external_text()) matches Some(w) && estimated_weight(
            psbt,
            w as nat,
        ) <= u64::MAX,
    ensures
        inspect_problem(psbt, wallet, cfg, lookups, gap_limit) is None,
{
    assert forall|j: int| 0 <= j < lookups.len() implies input_problem(
        psbt,
        wallet,
        cfg,
        #[trigger] lookups[j],
        gap_limit,
        j,
    ) is None by {
        assert(lookups[j] is Found);
    }
    lemma_none_before(psbt, wallet, cfg, lookups, gap_limit, lookups.len() as int);
    lemma_no_spoof_before(psbt, wallet, gap_limit, psbt.unsigned_tx.output@.len() as int);
}

/// A transaction whose outputs take all that comes in, or more, is refused, and the refusal names both
/// sums.
pub proof fn law_a_transaction_has_to_pay_a_fee(
    psbt: Psbt,
    wallet: BuiltDescriptor,
    cfg: WalletConfig,
    lookups: Seq<UtxoLookup>,
    gap_limit: u32,
)
    requires
        psbt.unsigned_tx.input@.len() > 0,
        psbt.unsigned_tx.output@.len() > 0,
        first_input_problem(
            psbt,
            wallet,
            cfg,
            lookups,
            gap_limit,
            psbt.unsigned_tx.input@.len() as int,
        ) is None,
        first_output_problem(
            psbt,
            wallet,
            gap_limit,
            psbt.unsigned_tx.output@.len() as int,
        ) is None,
        outputs_sum(psbt.unsigned_tx.output@) <= u64::MAX,
        inputs_sum(lookups) <= outputs_sum(psbt.unsigned_tx.output@),
    ensures
        inspect_problem(psbt, wallet, cfg, lookups, gap_limit) matches Some(
            InspectError::InvalidTransaction(Malformed::NoFee { total_in, total_out }),
        ) && total_in == inputs_sum(lookups) && total_out == outputs_sum(psbt.unsigned_tx.output@),
{
}

/// A transaction is reported as hot exactly where every input is: its sequence number does not satisfy
/// the timelock, or the server key of the index that it spends has signed it and the mobile key of
/// that index has not. It is reported as recovery exactly where every input satisfies the timelock and
/// is signed by the mobile key of its index.
pub proof fn law_a_transaction_goes_the_way_that_all_of_its_inputs_go(
    report: Inspection,
    psbt: Psbt,
    wallet: BuiltDescriptor,
    cfg: WalletConfig,
    lookups: Seq<UtxoLookup>,
    gap_limit: u32,
)
    requires
        psbt.wf(),
        psbt.unsigned_tx.input@.len() > 0,
        report.describes(psbt, wallet, cfg, lookups, gap_limit),
    ensures
        report.spending_path == SpendingPath::Hot <==> forall|i: int|
            0 <= i < report.inputs@.len() ==> ({
                let at = #[trigger] report.inputs@[i];
                let keys = role_keys_of(wallet, cfg, at.chain, at.index)->Ok_0;
                ||| !older_satisfied(psbt.unsigned_tx.input@[i].sequence, cfg.timelock_blocks)
                ||| has_signed(psbt.inputs@[i], keys.1) && !has_signed(psbt.inputs@[i], keys.2)
            }),
        report.spending_path == SpendingPath::Recovery <==> forall|i: int|
            0 <= i < report.inputs@.len() ==> ({
                let at = #[trigger] report.inputs@[i];
                let keys = role_keys_of(wallet, cfg, at.chain, at.index)->Ok_0;
                &&& older_satisfied(psbt.unsigned_tx.input@[i].sequence, cfg.timelock_blocks)
                &&& has_signed(psbt.inputs@[i], keys.2)
            }),
{
    let paths = input_paths(psbt, wallet, cfg, lookups, gap_limit);
    law_a_path_is_the_path_of_every_input(paths);
    assert forall|i: int| 0 <= i < paths.len() implies ({
        let at = report.inputs@[i];
        let keys = role_keys_of(wallet, cfg, at.chain, at.index)->Ok_0;
        let waited = older_satisfied(psbt.unsigned_tx.input@[i].sequence, cfg.timelock_blocks);
        &&& #[trigger] paths[i] == InputPath::Hot <==> (!waited || has_signed(
            psbt.inputs@[i],
            keys.1,
        ) && !has_signed(psbt.inputs@[i], keys.2))
        &&& paths[i] == InputPath::Recovery <==> waited && has_signed(psbt.inputs@[i], keys.2)
    }) by {
        assert(report.inputs@[i] == input_report(psbt, wallet, lookups[i], gap_limit, i));
    }
    if report.spending_path == SpendingPath::Hot {
        assert forall|i: int| 0 <= i < report.inputs@.len() implies ({
            let at = #[trigger] report.inputs@[i];
            let keys = role_keys_of(wallet, cfg, at.chain, at.index)->Ok_0;
            ||| !older_satisfied(psbt.unsigned_tx.input@[i].sequence, cfg.timelock_blocks)
            ||| has_signed(psbt.inputs@[i], keys.1) && !has_signed(psbt.inputs@[i], keys.2)
        }) by {
            assert(paths[i] == InputPath::Hot);
        }
    } else {
        let i = choose|i: int| 0 <= i < paths.len() && paths[i] != InputPath::Hot;
        assert(report.inputs@[i] == input_report(psbt, wallet, lookups[i], gap_limit, i));
    }
    if report.spending_path == SpendingPath::Recovery {
        assert forall|i: int| 0 <= i < report.inputs@.len() implies ({
            let at = #[trigger] report.inputs@[i];
            let keys = role_keys_of(wallet, cfg, at.chain, at.index)->Ok_0;
            &&& older_satisfied(psbt.unsigned_tx.input@[i].sequence, cfg.timelock_blocks)
            &&& has_signed(psbt.inputs@[i], keys.2)
        }) by {
            assert(paths[i] == InputPath::Recovery);
        }
    } else {
        let i = choose|i: int| 0 <= i < paths.len() && paths[i] != InputPath::Recovery;
        assert(report.inputs@[i] == input_report(psbt, wallet, lookups[i], gap_limit, i));
    }
}

}
