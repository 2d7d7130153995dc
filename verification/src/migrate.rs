//! Moving the coins of an old wallet to an address: how a lost card, phone or server is replaced.
//!
//! The transaction is only built here. It is signed in the usual ways, and sent by whoever holds
//! it. The outputs to move are named by the caller.

use bitcoin::absolute::LockTime;
use bitcoin::transaction::Version;
use bitcoin::{Amount, ScriptBuf, Sequence, Witness};
use vstd::prelude::*;
use vstd::string::*;

use crate::config::ChainNetwork;
use crate::descriptor::{
    derived_witness_script, descriptor_error_text, find_owner, owner, satisfaction_weight,
    underivable, witness_script_at, witness_weight, BuiltDescriptor, DescriptorError,
};
use crate::inspect::{
    amount_text, compact_size_len, estimate_weight, estimated_weight, inputs_size, inputs_sum,
    older_satisfied, outputs_size, script_size, show_amount, witnesses_size,
};
use crate::keys::{address_for_network, address_is_for, address_script, script_of_address};
use crate::policy::FeeRate;
use crate::psbt::{
    decoded_psbt, is_small_script, OutPoint, Psbt, PsbtInput, PsbtInputModel, PsbtModel,
    PsbtOutput, Transaction, TxIn, TxInModel, TxOut, TxOutModel, UtxoLookup,
};
use crate::text::{ascii_lower, decimal, is_hex_digit, is_hex_of_len, push_decimal};

verus! {

/// Which of the wallet's spending conditions a sweep is signed by. The choice is written into the
/// inputs, so it is made when the transaction is built.
#[derive(Clone, Copy, Debug, PartialEq, Eq, Structural)]
pub enum SweepPath {
    /// Hardware and server, at once.
    Hot,
    /// With the mobile key, once the outputs are as deep as the old timelock.
    Recovery,
}

/// Why a sweep cannot be built.
#[derive(Debug)]
pub enum SweepError {
    NoUtxos,
    /// The fee rate is zero or less.
    FeeRateNotPositive,
    /// The node could not be asked.
    Node { outpoint: OutPoint, message: String },
    /// The output does not exist, or is spent.
    Missing { outpoint: OutPoint },
    /// The output is not the old wallet's.
    NotOwned { outpoint: OutPoint, gap_limit: u32 },
    /// The old wallet's scripts could not be derived to hold the output against.
    Ownership { outpoint: OutPoint },
    /// The script that an input is signed by could not be derived.
    Descriptor(DescriptorError),
    /// The amounts do not fit in 64 bits.
    TooMuch,
    /// The weight of a witness could not be computed.
    Weight,
    /// The fee takes everything.
    NothingLeft { fee: u64, total_in: u64 },
    /// The transaction could not be written out: an input names none, or is signed already.
    Encode,
}

/// The sequence number of the inputs: replaceable and without a lock, or with the old timelock.
pub open spec fn sweep_sequence(path: SweepPath, old_timelock_blocks: u16) -> u32 {
    match path {
        SweepPath::Hot => 0xFFFF_FFFD,
        SweepPath::Recovery => old_timelock_blocks as u32,
    }
}

/// Whether a fee rate is zero or less.
pub open spec fn not_positive(rate: FeeRate) -> bool {
    !rate.is_nan() && rate.rank() <= 0
}

fn is_not_positive(rate: FeeRate) -> (r: bool)
    ensures
        r == not_positive(rate),
{
    let sign: u64 = 0x8000_0000_0000_0000;
    let infinity: u64 = 0x7ff0_0000_0000_0000;
    let magnitude: u64 = rate.bits % sign;
    magnitude <= infinity && (rate.bits >= sign || magnitude == 0)
}

/// Why the output at `i` cannot be swept, if it cannot.
pub open spec fn sweep_problem(
    wallet: BuiltDescriptor,
    outpoints: Seq<OutPoint>,
    lookups: Seq<UtxoLookup>,
    gap_limit: u32,
    i: int,
) -> Option<SweepError> {
    let outpoint = outpoints[i];
    match lookups[i] {
        UtxoLookup::Failed(message) => Some(SweepError::Node { outpoint, message }),
        UtxoLookup::Missing => Some(SweepError::Missing { outpoint }),
        UtxoLookup::Found(utxo) => if underivable(wallet, gap_limit) is Some {
            Some(SweepError::Ownership { outpoint })
        } else {
            match owner(wallet, utxo.txout.script_pubkey@, gap_limit) {
                None => Some(SweepError::NotOwned { outpoint, gap_limit }),
                Some(owned) => if derived_witness_script(
                    wallet.of_chain(owned.chain),
                    owned.index,
                ) is None {
                    Some(SweepError::Descriptor(DescriptorError::Derive { index: owned.index }))
                } else {
                    None
                },
            }
        },
    }
}

/// Why the first `n` outputs cannot be swept, if they cannot: the first that cannot.
pub open spec fn first_sweep_problem(
    wallet: BuiltDescriptor,
    outpoints: Seq<OutPoint>,
    lookups: Seq<UtxoLookup>,
    gap_limit: u32,
    n: int,
) -> Option<SweepError>
    decreases n,
{
    if n <= 0 {
        None
    } else {
        match first_sweep_problem(wallet, outpoints, lookups, gap_limit, n - 1) {
            Some(e) => Some(e),
            None => sweep_problem(wallet, outpoints, lookups, gap_limit, n - 1),
        }
    }
}

proof fn lemma_sweep_problem_stays(
    wallet: BuiltDescriptor,
    outpoints: Seq<OutPoint>,
    lookups: Seq<UtxoLookup>,
    gap_limit: u32,
    i: int,
    n: int,
)
    requires
        i <= n,
        first_sweep_problem(wallet, outpoints, lookups, gap_limit, i) is Some,
    ensures
        first_sweep_problem(wallet, outpoints, lookups, gap_limit, n) == first_sweep_problem(
            wallet,
            outpoints,
            lookups,
            gap_limit,
            i,
        ),
    decreases n - i,
{
    if i < n {
        lemma_sweep_problem_stays(wallet, outpoints, lookups, gap_limit, i, n - 1);
    }
}

/// A sweep whose fee is still to be set: its one output has no amount yet.
#[derive(Debug)]
pub struct SweepDraft {
    pub unsigned: Psbt,
    pub total_in: u64,
    pub estimated_vsize: u64,
}

/// Whether input `i` of a draft spends what it should, with what is needed to sign it.
pub open spec fn sweeps_input(
    psbt: Psbt,
    wallet: BuiltDescriptor,
    outpoints: Seq<OutPoint>,
    lookups: Seq<UtxoLookup>,
    gap_limit: u32,
    sequence: u32,
    i: int,
) -> bool {
    let txin = psbt.unsigned_tx.input@[i];
    let input = psbt.inputs@[i];
    let utxo = lookups[i]->Found_0;
    let owned = owner(wallet, utxo.txout.script_pubkey@, gap_limit).unwrap();
    &&& txin.previous_output == outpoints[i]
    &&& txin.script_sig@.len() == 0
    &&& txin.sequence == sequence
    &&& input.witness_utxo matches Some(o) && o.value == utxo.txout.value && o.script_pubkey@
        == utxo.txout.script_pubkey@
    &&& input.witness_script matches Some(s) && derived_witness_script(
        wallet.of_chain(owned.chain),
        owned.index,
    ) == Some(s@)
    &&& input.non_witness_utxo is None
    &&& input.sighash_type is None
    &&& input.partial_sigs@.len() == 0
    &&& input.final_witness_size is None
}

impl SweepDraft {
    /// Whether this moves all of the outputs to one script.
    pub open spec fn sweeps(
        self,
        wallet: BuiltDescriptor,
        outpoints: Seq<OutPoint>,
        lookups: Seq<UtxoLookup>,
        gap_limit: u32,
        destination: Seq<u8>,
        sequence: u32,
    ) -> bool {
        let witness = satisfaction_weight(wallet.external_text()).unwrap();
        &&& self.unsigned.wf()
        &&& self.unsigned.unsigned_tx.input@.len() == outpoints.len()
        &&& forall|i: int|
            0 <= i < outpoints.len() ==> #[trigger] sweeps_input(
                self.unsigned,
                wallet,
                outpoints,
                lookups,
                gap_limit,
                sequence,
                i,
            )
        &&& self.unsigned.unsigned_tx.output@.len() == 1
        &&& self.unsigned.unsigned_tx.output@[0].value == 0
        &&& self.unsigned.unsigned_tx.output@[0].script_pubkey@ == destination
        &&& self.total_in == inputs_sum(lookups)
        &&& self.estimated_vsize == (sweep_weight(outpoints.len(), destination, witness as nat)
            + 3) / 4
    }
}

/// The weight of a sweep of `n` outputs to one script: 41 bytes for each input and one output,
/// besides the frame of the transaction, and a witness at its heaviest for each input.
pub open spec fn sweep_weight(n: nat, destination: Seq<u8>, witness: nat) -> nat {
    4 * (8 + compact_size_len(n) + 1 + 41 * n + 8 + script_size(destination)) + 2 + n * witness
}

proof fn lemma_plain_inputs(inputs: Seq<TxIn>)
    requires
        forall|i: int| 0 <= i < inputs.len() ==> (#[trigger] inputs[i]).script_sig@.len() == 0,
    ensures
        inputs_size(inputs) == 41 * inputs.len(),
    decreases inputs.len(),
{
    if inputs.len() > 0 {
        let rest = inputs.drop_last();
        assert forall|i: int| 0 <= i < rest.len() implies (#[trigger] rest[i]).script_sig@.len()
            == 0 by {
            assert(rest[i] == inputs[i]);
        }
        lemma_plain_inputs(rest);
        assert(inputs.last() == inputs[inputs.len() - 1]);
    }
}

proof fn lemma_missing_witnesses(inputs: Seq<PsbtInput>, witness: nat)
    requires
        forall|i: int|
            0 <= i < inputs.len() ==> (#[trigger] inputs[i]).final_witness_size is None,
    ensures
        witnesses_size(inputs, witness) == inputs.len() * witness,
    decreases inputs.len(),
{
    if inputs.len() > 0 {
        let rest = inputs.drop_last();
        assert forall|i: int| 0 <= i < rest.len() implies (
        #[trigger] rest[i]).final_witness_size is None by {
            assert(rest[i] == inputs[i]);
        }
        lemma_missing_witnesses(rest, witness);
        assert(inputs.last() == inputs[inputs.len() - 1]);
        let n = inputs.len();
        assert(n * witness == (n - 1) * witness + witness) by (nonlinear_arith)
            requires
                n > 0,
        ;
    } else {
        assert(inputs.len() * witness == 0) by (nonlinear_arith)
            requires
                inputs.len() == 0,
        ;
    }
}

/// Why a sweep cannot be planned, if it cannot.
pub open spec fn plan_error(
    wallet: BuiltDescriptor,
    outpoints: Seq<OutPoint>,
    lookups: Seq<UtxoLookup>,
    gap_limit: u32,
    destination: Seq<u8>,
    rate: FeeRate,
) -> Option<SweepError> {
    let witness = satisfaction_weight(wallet.external_text());
    let first = first_sweep_problem(wallet, outpoints, lookups, gap_limit, outpoints.len() as int);
    if outpoints.len() == 0 {
        Some(SweepError::NoUtxos)
    } else if not_positive(rate) {
        Some(SweepError::FeeRateNotPositive)
    } else if first is Some {
        first
    } else if inputs_sum(lookups) > u64::MAX {
        Some(SweepError::TooMuch)
    } else if witness is None || sweep_weight(
        outpoints.len(),
        destination,
        witness.unwrap() as nat,
    ) > u64::MAX {
        Some(SweepError::Weight)
    } else {
        None
    }
}

fn sweep_input(
    wallet: &mut BuiltDescriptor,
    outpoints: &Vec<OutPoint>,
    lookups: &Vec<UtxoLookup>,
    gap_limit: u32,
    i: usize,
) -> (r: Result<PsbtInput, SweepError>)
    requires
        outpoints@.len() == lookups@.len(),
        i < outpoints@.len(),
    ensures
        final(wallet).same_wallet(*old(wallet)),
        match r {
            Ok(input) => {
                let utxo = lookups@[i as int]->Found_0;
                let owned = owner(*old(wallet), utxo.txout.script_pubkey@, gap_limit).unwrap();
                &&& sweep_problem(
                    *old(wallet),
                    outpoints@,
                    lookups@,
                    gap_limit,
                    i as int,
                ) is None
                &&& input.witness_utxo matches Some(o) && o.value == utxo.txout.value
                    && o.script_pubkey@ == utxo.txout.script_pubkey@
                &&& input.witness_script matches Some(s) && derived_witness_script(
                    old(wallet).of_chain(owned.chain),
                    owned.index,
                ) == Some(s@)
                &&& input.non_witness_utxo is None
                &&& input.sighash_type is None
                &&& input.partial_sigs@.len() == 0
                &&& input.final_witness_size is None
            },
            Err(e) => sweep_problem(*old(wallet), outpoints@, lookups@, gap_limit, i as int)
                == Some(e),
        },
{
    let utxo = match &lookups[i] {
        UtxoLookup::Failed(message) => {
            return Err(
                SweepError::Node {
                    outpoint: outpoints[i].duplicate(),
                    message: message.clone(),
                },
            );
        },
        UtxoLookup::Missing => {
            return Err(SweepError::Missing { outpoint: outpoints[i].duplicate() });
        },
        UtxoLookup::Found(utxo) => utxo,
    };
    let owned = match find_owner(wallet, &utxo.txout.script_pubkey, gap_limit) {
        Err(_) => {
            return Err(SweepError::Ownership { outpoint: outpoints[i].duplicate() });
        },
        Ok(None) => {
            return Err(
                SweepError::NotOwned { outpoint: outpoints[i].duplicate(), gap_limit },
            );
        },
        Ok(Some(owned)) => owned,
    };
    match witness_script_at(wallet.chain(owned.chain), owned.index) {
        Err(e) => Err(SweepError::Descriptor(e)),
        Ok(script) => Ok(
            PsbtInput {
                witness_utxo: Some(
                    TxOut {
                        value: utxo.txout.value,
                        script_pubkey: utxo.txout.script_pubkey.clone(),
                    },
                ),
                non_witness_utxo: None,
                sighash_type: None,
                partial_sigs: Vec::new(),
                witness_script: Some(script),
                final_witness_size: None,
            },
        ),
    }
}

/// Plans a transaction that spends every one of `outpoints`, given what the node says of each, to
/// one script. Each has to be the old wallet's, which is derived and not believed. What is left to
/// do is to multiply the size by the fee rate: see [`build_sweep_psbt`].
pub fn plan_sweep(
    old_wallet: &mut BuiltDescriptor,
    lookups: &Vec<UtxoLookup>,
    gap_limit: u32,
    outpoints: &Vec<OutPoint>,
    destination: &Vec<u8>,
    path: SweepPath,
    old_timelock_blocks: u16,
    fee_rate_sat_per_vb: FeeRate,
) -> (r: Result<SweepDraft, SweepError>)
    requires
        lookups@.len() == outpoints@.len(),
    ensures
        final(old_wallet).same_wallet(*old(old_wallet)),
        match r {
            Ok(draft) => plan_error(
                *old(old_wallet),
                outpoints@,
                lookups@,
                gap_limit,
                destination@,
                fee_rate_sat_per_vb,
            ) is None && draft.sweeps(
                *old(old_wallet),
                outpoints@,
                lookups@,
                gap_limit,
                destination@,
                sweep_sequence(path, old_timelock_blocks),
            ),
            Err(e) => plan_error(
                *old(old_wallet),
                outpoints@,
                lookups@,
                gap_limit,
                destination@,
                fee_rate_sat_per_vb,
            ) == Some(e),
        },
{
    let ghost wallet0 = *old(old_wallet);
    let n: usize = outpoints.len();
    if n == 0 {
        return Err(SweepError::NoUtxos);
    }
    if is_not_positive(fee_rate_sat_per_vb) {
        return Err(SweepError::FeeRateNotPositive);
    }
    let sequence: u32 = match path {
        SweepPath::Hot => 0xFFFF_FFFD,
        SweepPath::Recovery => old_timelock_blocks as u32,
    };
    let mut total: Option<u64> = Some(0);
    let mut tx_inputs: Vec<TxIn> = Vec::new();
    let mut psbt_inputs: Vec<PsbtInput> = Vec::new();
    let mut i: usize = 0;
    while i < n
        invariant
            i <= n,
            n == outpoints@.len(),
            n > 0,
            !not_positive(fee_rate_sat_per_vb),
            lookups@.len() == n,
            wallet0 == *old(old_wallet),
            old_wallet.same_wallet(wallet0),
            first_sweep_problem(wallet0, outpoints@, lookups@, gap_limit, i as int) is None,
            tx_inputs@.len() == i,
            psbt_inputs@.len() == i,
            forall|j: int|
                0 <= j < i ==> {
                    let txin = #[trigger] tx_inputs@[j];
                    &&& txin.previous_output == outpoints@[j]
                    &&& txin.script_sig@.len() == 0
                    &&& txin.sequence == sequence
                },
            forall|j: int|
                0 <= j < i ==> {
                    let input = #[trigger] psbt_inputs@[j];
                    let utxo = lookups@[j]->Found_0;
                    let owned = owner(wallet0, utxo.txout.script_pubkey@, gap_limit).unwrap();
                    &&& input.witness_utxo matches Some(o) && o.value == utxo.txout.value
                        && o.script_pubkey@ == utxo.txout.script_pubkey@
                    &&& input.witness_script matches Some(s) && derived_witness_script(
                        wallet0.of_chain(owned.chain),
                        owned.index,
                    ) == Some(s@)
                    &&& input.non_witness_utxo is None
                    &&& input.sighash_type is None
                    &&& input.partial_sigs@.len() == 0
                    &&& input.final_witness_size is None
                },
            match total {
                Some(t) => t == inputs_sum(lookups@.take(i as int)),
                None => inputs_sum(lookups@.take(i as int)) > u64::MAX,
            },
        decreases n - i,
    {
        assert(lookups@.take(i + 1).drop_last() =~= lookups@.take(i as int));
        match sweep_input(old_wallet, outpoints, lookups, gap_limit, i) {
            Err(e) => {
                proof {
                    lemma_sweep_problem_stays(
                        wallet0,
                        outpoints@,
                        lookups@,
                        gap_limit,
                        i + 1,
                        n as int,
                    );
                }
                return Err(e);
            },
            Ok(input) => {
                let value: u64 = match &lookups[i] {
                    UtxoLookup::Found(utxo) => utxo.txout.value,
                    _ => 0,
                };
                total =
                match total {
                    Some(t) => t.checked_add(value),
                    None => None,
                };
                tx_inputs.push(
                    TxIn {
                        previous_output: outpoints[i].duplicate(),
                        script_sig: Vec::new(),
                        sequence,
                    },
                );
                psbt_inputs.push(input);
            },
        }
        i = i + 1;
    }
    assert(lookups@.take(i as int) =~= lookups@);
    let total_in: u64 = match total {
        Some(t) => t,
        None => {
            return Err(SweepError::TooMuch);
        },
    };
    let mut output: Vec<TxOut> = Vec::new();
    output.push(TxOut { value: 0, script_pubkey: destination.clone() });
    let mut outputs: Vec<PsbtOutput> = Vec::new();
    outputs.push(PsbtOutput { bip32_derivations: 0 });
    let unsigned = Psbt {
        text: String::new(),
        unsigned_tx: Transaction { txid: String::new(), input: tx_inputs, output },
        inputs: psbt_inputs,
        outputs,
    };
    proof {
        lemma_plain_inputs(unsigned.unsigned_tx.input@);
        assert(unsigned.unsigned_tx.output@.drop_last() =~= Seq::<TxOut>::empty());
        assert(outputs_size(Seq::<TxOut>::empty()) == 0);
        assert(outputs_size(unsigned.unsigned_tx.output@) == 8 + script_size(destination@));
        assert forall|w: nat| #[trigger]
            estimated_weight(unsigned, w) == sweep_weight(n as nat, destination@, w) by {
            lemma_missing_witnesses(unsigned.inputs@, w);
        }
    }
    let weight: u64 = match witness_weight(old_wallet.external()) {
        None => {
            return Err(SweepError::Weight);
        },
        Some(w) => match estimate_weight(&unsigned, w) {
            None => {
                return Err(SweepError::Weight);
            },
            Some(weight) => weight,
        },
    };
    let estimated_vsize: u64 = weight / 4 + if weight % 4 == 0 {
        0
    } else {
        1
    };
    Ok(SweepDraft { unsigned, total_in, estimated_vsize })
}

/// Whether a transaction that spends so many inputs to one script is small enough to be read again.
pub open spec fn can_be_read_again(inputs: nat, script: Seq<u8>) -> bool {
    41 * inputs + script.len() <= 3_999_000
}

/// The version of a sweep.
pub const SWEEP_VERSION: i32 = 2;

/// The locktime of a sweep: none.
pub const SWEEP_LOCK_TIME: u32 = 0;

/// A transaction as it is handed on, with its id.
struct RawTransaction {
    txid: String,
    bytes: Vec<u8>,
}

/// What a transaction holds.
pub struct RawModel {
    pub txid: Seq<char>,
    pub input: Seq<TxInModel>,
    pub output: Seq<TxOutModel>,
}

/// Whether every input names a transaction.
pub open spec fn have_ids(inputs: Seq<TxInModel>) -> bool {
    forall|i: int| 0 <= i < inputs.len() ==> is_hex_of_len((#[trigger] inputs[i]).txid, 64)
}

/// Whether no input is signed yet.
pub open spec fn are_unscripted(inputs: Seq<TxInModel>) -> bool {
    forall|i: int| 0 <= i < inputs.len() ==> (#[trigger] inputs[i]).script_sig.len() == 0
}

/// The inputs, each id in lower case.
pub open spec fn lower_cased(inputs: Seq<TxInModel>) -> Seq<TxInModel> {
    inputs.map_values(
        |i: TxInModel| TxInModel { txid: i.txid.map_values(|c: char| ascii_lower(c)), ..i },
    )
}

/// An input of which is known what it spends, and nothing else.
pub open spec fn bare_input(input: PsbtInputModel) -> PsbtInputModel {
    PsbtInputModel {
        witness_utxo: input.witness_utxo,
        non_witness_utxo: None,
        sighash_type: None,
        partial_sigs: Seq::empty(),
        witness_script: input.witness_script,
        final_witness_size: None,
    }
}

/// What a partially signed transaction that starts from an unsigned one holds, where its inputs
/// spend what `spent` says.
pub open spec fn unsigned_model(tx: RawModel, spent: Seq<PsbtInputModel>) -> PsbtModel {
    PsbtModel {
        txid: tx.txid,
        input: tx.input,
        output: tx.output,
        inputs: spent.map_values(|i: PsbtInputModel| bare_input(i)),
        outputs: tx.output.map_values(|o: TxOutModel| 0usize),
    }
}

/// Whether no script that the inputs spend by is larger than a script may be.
pub open spec fn has_small_scripts(spent: Seq<PsbtInputModel>) -> bool {
    forall|i: int|
        0 <= i < spent.len() ==> {
            &&& (#[trigger] spent[i]).witness_utxo matches Some(o) ==> is_small_script(
                o.script_pubkey,
            )
            &&& spent[i].witness_script matches Some(script) ==> is_small_script(script)
        }
}

/// The id and the bytes of a transaction that spends `inputs` to `output`; nothing where an input
/// names no transaction.
pub uninterp spec fn raw_transaction(
    version: i32,
    lock_time: u32,
    inputs: Seq<TxInModel>,
    output: TxOutModel,
) -> Option<(Seq<char>, Seq<u8>)>;

/// What `bitcoin::consensus::deserialize` reads of a transaction; nothing where the bytes are none,
/// or an input has a witness.
pub uninterp spec fn raw_contents(bytes: Seq<u8>) -> Option<RawModel>;

/// `bitcoin::consensus::serialize` of a `bitcoin::Transaction`, and its `compute_txid`. The id and
/// the bytes are named [`raw_transaction`]. What is read of the bytes is what went in, each id in
/// lower case: reading all of a slice has no limit of size.
#[verifier::external_body]
fn encode_transaction(
    version: i32,
    lock_time: u32,
    inputs: &Vec<TxIn>,
    output: &TxOut,
) -> (r: Option<RawTransaction>)
    ensures
        (r is Some) == have_ids(inputs.deep_view()),
        match r {
            Some(e) => {
                &&& raw_transaction(
                    version,
                    lock_time,
                    inputs.deep_view(),
                    output.deep_view(),
                ) == Some((e.txid@, e.bytes@))
                &&& raw_contents(e.bytes@) == Some(
                    RawModel {
                        txid: e.txid@,
                        input: lower_cased(inputs.deep_view()),
                        output: seq![output.deep_view()],
                    },
                )
            },
            None => raw_transaction(
                version,
                lock_time,
                inputs.deep_view(),
                output.deep_view(),
            ) is None,
        },
{
    let input = inputs.iter().map(|i| Some(bitcoin::TxIn {
        previous_output: bitcoin::OutPoint::new(
            i.previous_output.txid.parse().ok()?, i.previous_output.vout),
        script_sig: i.script_sig.clone().into(), sequence: Sequence(i.sequence),
        witness: Witness::new() })).collect::<Option<_>>()?;
    let output = vec![bitcoin::TxOut {
        value: Amount::from_sat(output.value), script_pubkey: output.script_pubkey.clone().into() }];
    let (version, lock_time) = (Version(version), LockTime::from_consensus(lock_time));
    let tx = bitcoin::Transaction { version, lock_time, input, output };
    Some(RawTransaction {
        txid: tx.compute_txid().to_string(), bytes: bitcoin::consensus::serialize(&tx) })
}

/// The text of a partially signed transaction that starts from the bytes of an unsigned one, with
/// what the inputs spend filled in; nothing where the bytes are no unsigned transaction.
pub uninterp spec fn psbt_text(bytes: Seq<u8>, spent: Seq<PsbtInputModel>) -> Option<Seq<char>>;

/// Whether the text of a partially signed transaction holds the transaction, with what the inputs
/// spend filled in, where it can be read again; and it can be where the transaction, at 41 bytes an
/// input, stays below the four million bytes at which reading stops, and no script is larger than a
/// script may be.
pub open spec fn holds_unsigned(
    text: Seq<char>,
    tx: RawModel,
    spent: Seq<PsbtInputModel>,
) -> bool {
    &&& tx.output.len() == 1 && can_be_read_again(tx.input.len(), tx.output[0].script_pubkey)
        && has_small_scripts(spent) ==> decoded_psbt(text) is Some
    &&& decoded_psbt(text) matches Some(m) ==> m == unsigned_model(tx, spent)
}

/// `bitcoin::consensus::deserialize`, `bitcoin::Psbt::from_unsigned_tx` and the `Display` of
/// `bitcoin::Psbt`, with the `witness_utxo` and `witness_script` of each input set. The text is named
/// [`psbt_text`]; there is one exactly where no input is signed. Where it can be read again, it holds
/// what went in ([`holds_unsigned`]).
#[verifier::external_body]
fn encode_psbt(bytes: &Vec<u8>, spent: &Vec<PsbtInput>) -> (r: Option<String>)
    ensures
        (r is Some) == (raw_contents(bytes@) matches Some(tx) && are_unscripted(tx.input)),
        match r {
            Some(text) => {
                &&& psbt_text(bytes@, spent.deep_view()) == Some(text@)
                &&& raw_contents(bytes@)->Some_0.input.len() == spent@.len() ==> holds_unsigned(
                    text@,
                    raw_contents(bytes@)->Some_0,
                    spent.deep_view(),
                )
            },
            None => psbt_text(bytes@, spent.deep_view()) is None,
        },
{
    let tx = bitcoin::consensus::deserialize(bytes).ok()?;
    let mut psbt = bitcoin::Psbt::from_unsigned_tx(tx).ok()?;
    psbt.inputs.iter_mut().zip(spent).for_each(|(p, s)| {
        p.witness_utxo = s.witness_utxo.as_ref().map(|o| bitcoin::TxOut {
            value: Amount::from_sat(o.value), script_pubkey: o.script_pubkey.clone().into() });
        p.witness_script = s.witness_script.clone().map(ScriptBuf::from) });
    Some(psbt.to_string())
}

/// A sweep, ready to be signed. Amounts are in satoshi.
#[derive(Debug)]
pub struct SweepPlan {
    pub psbt: Psbt,
    pub total_in: u64,
    pub fee: u64,
    pub destination_amount: u64,
}

/// Whether nothing is known of the inputs but what they spend.
pub open spec fn is_bare(psbt: Psbt) -> bool {
    forall|i: int|
        0 <= i < psbt.inputs@.len() ==> (#[trigger] psbt.inputs@[i]).non_witness_utxo is None
            && psbt.inputs@[i].sighash_type is None && psbt.inputs@[i].partial_sigs@.len() == 0
            && psbt.inputs@[i].final_witness_size is None
}

impl SweepDraft {
    /// The output of the draft, with its amount set.
    pub open spec fn output(self, amount: u64) -> TxOutModel {
        TxOutModel {
            value: amount,
            script_pubkey: self.unsigned.unsigned_tx.output@[0].script_pubkey@,
        }
    }

    /// The id and the text of the draft, with the amount of its output set.
    pub open spec fn encoded(self, amount: u64) -> Option<(Seq<char>, Seq<char>)> {
        match raw_transaction(
            SWEEP_VERSION,
            SWEEP_LOCK_TIME,
            self.unsigned.unsigned_tx.input.deep_view(),
            self.output(amount),
        ) {
            None => None,
            Some((txid, bytes)) => match psbt_text(bytes, self.unsigned.inputs.deep_view()) {
                None => None,
                Some(text) => Some((txid, text)),
            },
        }
    }

    /// Whether the transaction is small enough to be read again, and no script is larger than a
    /// script may be.
    pub open spec fn is_small(self) -> bool {
        can_be_read_again(
            self.unsigned.unsigned_tx.input@.len(),
            self.unsigned.unsigned_tx.output@[0].script_pubkey@,
        ) && has_small_scripts(self.unsigned.inputs.deep_view())
    }
}

impl SweepPlan {
    /// Whether the transaction spends the draft's inputs, with what they spend filled in, and pays
    /// what the fee leaves to the draft's script.
    pub open spec fn pays(self, draft: SweepDraft) -> bool {
        self.psbt.model() == unsigned_model(
            RawModel {
                txid: self.psbt.unsigned_tx.txid@,
                input: lower_cased(draft.unsigned.unsigned_tx.input.deep_view()),
                output: seq![draft.output(self.destination_amount)],
            },
            draft.unsigned.inputs.deep_view(),
        )
    }
}

fn lower_case_inputs(inputs: &Vec<TxIn>) -> (r: Vec<TxIn>)
    requires
        have_ids(inputs.deep_view()),
    ensures
        r.deep_view() == lower_cased(inputs.deep_view()),
{
    let ghost all = inputs.deep_view();
    let mut out: Vec<TxIn> = Vec::new();
    let mut i: usize = 0;
    while i < inputs.len()
        invariant
            i <= inputs.len(),
            all == inputs.deep_view(),
            have_ids(all),
            out@.len() == i,
            forall|j: int|
                0 <= j < i ==> (#[trigger] out@[j]).deep_view() == (TxInModel {
                    txid: all[j].txid.map_values(|c: char| ascii_lower(c)),
                    ..all[j]
                }),
        decreases inputs.len() - i,
    {
        let input = &inputs[i];
        proof {
            assert(all[i as int] == input.deep_view());
            let id = input.previous_output.txid@;
            assert forall|k: int| 0 <= k < id.len() implies '\0' <= #[trigger] id[k] <= '\u{7f}' by {
                assert(is_hex_digit(id[k]));
            }
            assert(vstd::utf8::is_ascii_chars(id));
        }
        let txid = input.previous_output.txid.as_str().to_lowercase();
        out.push(
            TxIn {
                previous_output: OutPoint { txid, vout: input.previous_output.vout },
                script_sig: input.script_sig.clone(),
                sequence: input.sequence,
            },
        );
        i = i + 1;
    }
    assert(out.deep_view() =~= lower_cased(all));
    out
}

/// Sets the fee of a planned sweep, which comes out of the one output: a sweep has no change. Fails
/// exactly where the fee leaves nothing, or an input names no transaction or is signed already.
pub fn build_sweep_psbt(draft: SweepDraft, fee: u64) -> (r: Result<SweepPlan, SweepError>)
    requires
        draft.unsigned.wf(),
        draft.unsigned.unsigned_tx.output@.len() == 1,
        is_bare(draft.unsigned),
    ensures
        builds(draft, fee, r),
{
    if fee >= draft.total_in {
        return Err(SweepError::NothingLeft { fee, total_in: draft.total_in });
    }
    let destination_amount: u64 = draft.total_in - fee;
    let total_in: u64 = draft.total_in;
    let output = TxOut {
        value: destination_amount,
        script_pubkey: draft.unsigned.unsigned_tx.output[0].script_pubkey.clone(),
    };
    let raw = match encode_transaction(
        SWEEP_VERSION,
        SWEEP_LOCK_TIME,
        &draft.unsigned.unsigned_tx.input,
        &output,
    ) {
        Some(raw) => raw,
        None => {
            return Err(SweepError::Encode);
        },
    };
    let ghost all = draft.unsigned.unsigned_tx.input.deep_view();
    assert(are_unscripted(lower_cased(all)) == are_unscripted(all)) by {
        let lower = lower_cased(all);
        assert(lower.len() == all.len());
        assert forall|i: int| 0 <= i < all.len() implies #[trigger] lower[i].script_sig
            == all[i].script_sig by {}
        if are_unscripted(lower) {
            assert forall|i: int| 0 <= i < all.len() implies (#[trigger] all[i]).script_sig.len()
                == 0 by {
                assert(lower[i].script_sig == all[i].script_sig);
            }
        }
    }
    let text = match encode_psbt(&raw.bytes, &draft.unsigned.inputs) {
        Some(text) => text,
        None => {
            return Err(SweepError::Encode);
        },
    };
    let txid = raw.txid;
    let input = lower_case_inputs(&draft.unsigned.unsigned_tx.input);
    let mut tx_outputs: Vec<TxOut> = Vec::new();
    tx_outputs.push(output);
    let mut outputs: Vec<PsbtOutput> = Vec::new();
    outputs.push(PsbtOutput { bip32_derivations: 0 });
    let ghost spent = draft.unsigned.inputs.deep_view();
    assert(spent =~= spent.map_values(|i: PsbtInputModel| bare_input(i))) by {
        assert forall|i: int| 0 <= i < spent.len() implies #[trigger] spent[i] == bare_input(
            spent[i],
        ) by {
            assert(spent[i] == draft.unsigned.inputs@[i].deep_view());
            assert(draft.unsigned.inputs@[i].partial_sigs.deep_view() =~= Seq::empty());
        }
    }
    assert(tx_outputs.deep_view() =~= seq![output.deep_view()]);
    assert(outputs.deep_view() =~= seq![output.deep_view()].map_values(|o: TxOutModel| 0usize));
    let psbt = Psbt {
        text,
        unsigned_tx: Transaction { txid, input, output: tx_outputs },
        inputs: draft.unsigned.inputs,
        outputs,
    };
    assert(psbt.unsigned_tx.input.deep_view().len() == psbt.unsigned_tx.input@.len());
    Ok(SweepPlan { psbt, total_in, fee, destination_amount })
}

/// The text of an error.
pub open spec fn sweep_error_text(e: SweepError) -> Seq<char> {
    match e {
        SweepError::NoUtxos => "at least one UTXO is required"@,
        SweepError::FeeRateNotPositive => "fee rate must be positive"@,
        SweepError::Node { outpoint, message } => "looking up "@ + outpoint.text() + ": "@
            + message@,
        SweepError::Missing { outpoint } => outpoint.text()
            + " does not exist, or is already spent"@,
        SweepError::NotOwned { outpoint, gap_limit } => outpoint.text()
            + "'s scriptPubkey was not found within the OLD descriptor's gap limit ("@ + decimal(
            gap_limit as nat,
        ) + ") - wrong --old-config, or an unusually large unused gap"@,
        SweepError::Ownership { outpoint } => "checking whether "@ + outpoint.text()
            + " belongs to the OLD descriptor"@,
        SweepError::Descriptor(e) => descriptor_error_text(e),
        SweepError::TooMuch => "amounts out of range"@,
        SweepError::Weight => "computing max satisfaction weight"@,
        SweepError::NothingLeft { fee, total_in } => "estimated fee ("@ + amount_text(fee)
            + ") is >= total input value ("@ + amount_text(total_in)
            + ") - nothing left to sweep; lower --fee-rate or add more UTXOs"@,
        SweepError::Encode => "building PSBT skeleton"@,
    }
}

impl SweepError {
    /// What a person is told.
    pub fn message(&self) -> (r: String)
        ensures
            r@ == sweep_error_text(*self),
    {
        match self {
            SweepError::NoUtxos => "at least one UTXO is required".to_owned(),
            SweepError::FeeRateNotPositive => "fee rate must be positive".to_owned(),
            SweepError::Node { outpoint, message } => {
                let mut out = "looking up ".to_owned();
                out.append(outpoint.to_text().as_str());
                out.append(": ");
                out.append(message.as_str());
                out
            },
            SweepError::Missing { outpoint } => {
                let mut out = outpoint.to_text();
                out.append(" does not exist, or is already spent");
                out
            },
            SweepError::NotOwned { outpoint, gap_limit } => {
                let mut out = outpoint.to_text();
                out.append("'s scriptPubkey was not found within the OLD descriptor's gap limit (");
                push_decimal(&mut out, *gap_limit as u64);
                out.append(") - wrong --old-config, or an unusually large unused gap");
                out
            },
            SweepError::Ownership { outpoint } => {
                let mut out = "checking whether ".to_owned();
                out.append(outpoint.to_text().as_str());
                out.append(" belongs to the OLD descriptor");
                out
            },
            SweepError::Descriptor(e) => e.message(),
            SweepError::TooMuch => "amounts out of range".to_owned(),
            SweepError::Weight => "computing max satisfaction weight".to_owned(),
            SweepError::NothingLeft { fee, total_in } => {
                let mut out = "estimated fee (".to_owned();
                out.append(show_amount(*fee).as_str());
                out.append(") is >= total input value (");
                out.append(show_amount(*total_in).as_str());
                out.append(") - nothing left to sweep; lower --fee-rate or add more UTXOs");
                out
            },
            SweepError::Encode => "building PSBT skeleton".to_owned(),
        }
    }
}

/// A sweep by the recovery path satisfies the old timelock, and one by the hot path claims no lock
/// at all, so that inspecting either sees the path it was built for.
pub proof fn law_a_sweep_takes_the_path_it_was_built_for(old_timelock_blocks: u16)
    ensures
        older_satisfied(
            sweep_sequence(SweepPath::Recovery, old_timelock_blocks),
            old_timelock_blocks,
        ),
        !older_satisfied(sweep_sequence(SweepPath::Hot, old_timelock_blocks), old_timelock_blocks),
{
}

/// The output script of an address on a network, where the text is one.
pub fn destination_script(address: &str, network: ChainNetwork) -> (r: Option<Vec<u8>>)
    ensures
        match r {
            Some(script) => address_is_for(address@, network) && address_script(address@) == Some(
                script@,
            ),
            None => !address_is_for(address@, network) || address_script(address@) is None,
        },
{
    if address_for_network(address, network) {
        script_of_address(address)
    } else {
        None
    }
}

/// The estimated virtual size of a sweep is the least number of which four times is no less than the
/// weight of the transaction once every witness is there, at its heaviest. The weight is that of the
/// transaction itself, inputs, output and witnesses.
pub proof fn law_a_sweep_is_sized_as_the_transaction_it_is(
    draft: SweepDraft,
    wallet: BuiltDescriptor,
    outpoints: Seq<OutPoint>,
    lookups: Seq<UtxoLookup>,
    gap_limit: u32,
    destination: Seq<u8>,
    sequence: u32,
)
    requires
        draft.sweeps(wallet, outpoints, lookups, gap_limit, destination, sequence),
        satisfaction_weight(wallet.external_text()) is Some,
    ensures
        ({
            let witness = satisfaction_weight(wallet.external_text())->Some_0 as nat;
            let n = outpoints.len();
            let weight = estimated_weight(draft.unsigned, witness);
            &&& weight == sweep_weight(n, destination, witness)
            &&& weight == 4 * (4 + compact_size_len(n) + (32 + 4 + 1 + 4) * n + 1 + (8
                + compact_size_len(destination.len()) + destination.len()) + 4) + 2 + n * witness
            &&& 4 * draft.estimated_vsize >= weight
            &&& 4 * draft.estimated_vsize < weight + 4
        }),
{
    let witness = satisfaction_weight(wallet.external_text())->Some_0 as nat;
    let psbt = draft.unsigned;
    assert forall|i: int| 0 <= i < psbt.unsigned_tx.input@.len() implies (
    #[trigger] psbt.unsigned_tx.input@[i]).script_sig@.len() == 0 by {
        assert(sweeps_input(psbt, wallet, outpoints, lookups, gap_limit, sequence, i));
    }
    assert forall|i: int| 0 <= i < psbt.inputs@.len() implies (
    #[trigger] psbt.inputs@[i]).final_witness_size is None by {
        assert(sweeps_input(psbt, wallet, outpoints, lookups, gap_limit, sequence, i));
    }
    lemma_plain_inputs(psbt.unsigned_tx.input@);
    lemma_missing_witnesses(psbt.inputs@, witness);
    let outputs = psbt.unsigned_tx.output@;
    assert(outputs =~= Seq::empty().push(outputs[0]));
    crate::inspect::law_each_output_adds_its_own_bytes(Seq::empty(), outputs[0]);
}

/// An output more to sweep makes the weight larger by four for each of its 41 bytes and by one witness,
/// and by four for each byte by which the count grows.
pub proof fn law_each_swept_output_adds_its_weight(n: nat, destination: Seq<u8>, witness: nat)
    ensures
        sweep_weight(n + 1, destination, witness) == sweep_weight(n, destination, witness) + 164
            + witness + 4 * (compact_size_len(n + 1) - compact_size_len(n)),
{
    assert((n + 1) * witness == n * witness + witness) by (nonlinear_arith);
}

/// A sweep spends exactly the outputs that were named, in order, each with the amount and the script
/// that the node has on record, and pays all to the one script: what the fee leaves is the sum of
/// the amounts less the fee.
pub proof fn law_a_sweep_moves_all_of_it_to_one_script(
    plan: SweepPlan,
    draft: SweepDraft,
    wallet: BuiltDescriptor,
    outpoints: Seq<OutPoint>,
    lookups: Seq<UtxoLookup>,
    gap_limit: u32,
    destination: Seq<u8>,
    sequence: u32,
)
    requires
        draft.sweeps(wallet, outpoints, lookups, gap_limit, destination, sequence),
        plan.pays(draft),
        plan.total_in == draft.total_in,
        plan.destination_amount == plan.total_in - plan.fee,
    ensures
        plan.psbt.model().output.len() == 1,
        plan.psbt.model().output[0].script_pubkey == destination,
        plan.psbt.model().output[0].value + plan.fee == inputs_sum(lookups),
        plan.psbt.model().input.len() == outpoints.len(),
        forall|i: int|
            0 <= i < outpoints.len() ==> {
                let txin = #[trigger] plan.psbt.model().input[i];
                &&& txin.vout == outpoints[i].vout
                &&& txin.txid == outpoints[i].txid@.map_values(|c: char| ascii_lower(c))
                &&& txin.sequence == sequence
                &&& txin.script_sig.len() == 0
            },
        plan.psbt.model().inputs.len() == outpoints.len(),
        forall|i: int|
            0 <= i < outpoints.len() ==> {
                let input = #[trigger] plan.psbt.model().inputs[i];
                let utxo = lookups[i]->Found_0;
                &&& input.witness_utxo matches Some(o) && o.value == utxo.txout.value
                    && o.script_pubkey == utxo.txout.script_pubkey@
                &&& input.witness_script is Some
                &&& input.partial_sigs.len() == 0
                &&& input.sighash_type is None
            },
{
    let inputs = draft.unsigned.unsigned_tx.input.deep_view();
    let spent = draft.unsigned.inputs.deep_view();
    assert forall|i: int| 0 <= i < outpoints.len() implies {
        let input = #[trigger] plan.psbt.model().inputs[i];
        let utxo = lookups[i]->Found_0;
        &&& input.witness_utxo matches Some(o) && o.value == utxo.txout.value && o.script_pubkey
            == utxo.txout.script_pubkey@
        &&& input.witness_script is Some
        &&& input.partial_sigs.len() == 0
        &&& input.sighash_type is None
    } by {
        assert(sweeps_input(draft.unsigned, wallet, outpoints, lookups, gap_limit, sequence, i));
        assert(spent[i] == draft.unsigned.inputs@[i].deep_view());
        assert(plan.psbt.model().inputs[i] == bare_input(spent[i]));
    }
    assert forall|i: int| 0 <= i < outpoints.len() implies {
        let txin = #[trigger] plan.psbt.model().input[i];
        &&& txin.vout == outpoints[i].vout
        &&& txin.txid == outpoints[i].txid@.map_values(|c: char| ascii_lower(c))
        &&& txin.sequence == sequence
        &&& txin.script_sig.len() == 0
    } by {
        assert(sweeps_input(draft.unsigned, wallet, outpoints, lookups, gap_limit, sequence, i));
        assert(lower_cased(inputs)[i].vout == inputs[i].vout);
    }
}

/// A rate of nothing or below nothing is refused, and no other.
pub proof fn law_a_rate_has_to_be_above_nothing(rate: FeeRate)
    ensures
        not_positive(rate) <==> rate.bits == 0 || 0x8000_0000_0000_0000 <= rate.bits
            <= 0xfff0_0000_0000_0000,
{
}

/// A sweep is planned exactly where there is something to sweep, the rate is not refused, every output
/// is on record, is the old wallet's and has a script to spend it by, and the sum and the weight fit.
pub proof fn law_a_sweep_is_planned_where_every_output_is_the_wallets(
    wallet: BuiltDescriptor,
    outpoints: Seq<OutPoint>,
    lookups: Seq<UtxoLookup>,
    gap_limit: u32,
    destination: Seq<u8>,
    rate: FeeRate,
)
    requires
        lookups.len() == outpoints.len(),
    ensures
        plan_error(wallet, outpoints, lookups, gap_limit, destination, rate) is None <==> {
            &&& outpoints.len() > 0
            &&& !not_positive(rate)
            &&& forall|i: int|
                0 <= i < lookups.len() ==> (#[trigger] lookups[i] matches UtxoLookup::Found(utxo)
                    && underivable(wallet, gap_limit) is None && (owner(
                    wallet,
                    utxo.txout.script_pubkey@,
                    gap_limit,
                ) matches Some(o) && derived_witness_script(wallet.of_chain(o.chain), o.index)
                    is Some))
            &&& inputs_sum(lookups) <= u64::MAX
            &&& satisfaction_weight(wallet.external_text()) matches Some(w) && sweep_weight(
                outpoints.len(),
                destination,
                w as nat,
            ) <= u64::MAX
        },
{
    let n = outpoints.len() as int;
    if first_sweep_problem(wallet, outpoints, lookups, gap_limit, n) is None {
        lemma_no_sweep_problem(wallet, outpoints, lookups, gap_limit, n);
        assert forall|i: int| 0 <= i < lookups.len() implies (
        #[trigger] lookups[i] matches UtxoLookup::Found(utxo) && underivable(wallet, gap_limit)
            is None && (owner(wallet, utxo.txout.script_pubkey@, gap_limit) matches Some(o)
            && derived_witness_script(wallet.of_chain(o.chain), o.index) is Some)) by {
            assert(sweep_problem(wallet, outpoints, lookups, gap_limit, i) is None);
        }
    } else {
        lemma_some_sweep_problem(wallet, outpoints, lookups, gap_limit, n);
    }
}

proof fn lemma_no_sweep_problem(
    wallet: BuiltDescriptor,
    outpoints: Seq<OutPoint>,
    lookups: Seq<UtxoLookup>,
    gap_limit: u32,
    n: int,
)
    requires
        first_sweep_problem(wallet, outpoints, lookups, gap_limit, n) is None,
    ensures
        forall|i: int|
            0 <= i < n ==> #[trigger] sweep_problem(wallet, outpoints, lookups, gap_limit, i)
                is None,
    decreases n,
{
    if n > 0 {
        lemma_no_sweep_problem(wallet, outpoints, lookups, gap_limit, n - 1);
    }
}

proof fn lemma_some_sweep_problem(
    wallet: BuiltDescriptor,
    outpoints: Seq<OutPoint>,
    lookups: Seq<UtxoLookup>,
    gap_limit: u32,
    n: int,
) -> (i: int)
    requires
        first_sweep_problem(wallet, outpoints, lookups, gap_limit, n) is Some,
    ensures
        0 <= i < n,
        sweep_problem(wallet, outpoints, lookups, gap_limit, i) == first_sweep_problem(
            wallet,
            outpoints,
            lookups,
            gap_limit,
            n,
        ),
    decreases n,
{
    if first_sweep_problem(wallet, outpoints, lookups, gap_limit, n - 1) is Some {
        lemma_some_sweep_problem(wallet, outpoints, lookups, gap_limit, n - 1)
    } else {
        n - 1
    }
}

/// A sweep by the recovery way waits exactly as many blocks as the old wallet's timelock says, no more
/// and no fewer; one by the hot way waits for nothing, and may be replaced by one with a higher fee.
pub proof fn law_a_sweep_waits_as_long_as_the_timelock(old_timelock_blocks: u16, blocks: u16)
    ensures
        older_satisfied(sweep_sequence(SweepPath::Recovery, old_timelock_blocks), blocks)
            <==> blocks <= old_timelock_blocks,
        !older_satisfied(sweep_sequence(SweepPath::Hot, old_timelock_blocks), blocks),
        sweep_sequence(SweepPath::Hot, old_timelock_blocks) < 0xFFFF_FFFE,
        sweep_sequence(SweepPath::Recovery, old_timelock_blocks) < 0xFFFF_FFFE,
{
}

/// The first output that cannot be swept is named, for what is wrong with it.
pub proof fn law_the_first_output_that_cannot_be_swept_is_named(
    wallet: BuiltDescriptor,
    outpoints: Seq<OutPoint>,
    lookups: Seq<UtxoLookup>,
    gap_limit: u32,
    n: int,
    i: int,
)
    requires
        0 <= i < n,
        forall|j: int|
            0 <= j < i ==> #[trigger] sweep_problem(wallet, outpoints, lookups, gap_limit, j)
                is None,
    ensures
        ({
            let refusal = first_sweep_problem(wallet, outpoints, lookups, gap_limit, n);
            let outpoint = outpoints[i];
            match lookups[i] {
                UtxoLookup::Failed(message) => refusal == Some(
                    SweepError::Node { outpoint, message },
                ),
                UtxoLookup::Missing => refusal == Some(SweepError::Missing { outpoint }),
                UtxoLookup::Found(utxo) => {
                    let owned = owner(wallet, utxo.txout.script_pubkey@, gap_limit);
                    &&& underivable(wallet, gap_limit) is Some ==> refusal == Some(
                        SweepError::Ownership { outpoint },
                    )
                    &&& underivable(wallet, gap_limit) is None && owned is None ==> refusal == Some(
                        SweepError::NotOwned { outpoint, gap_limit },
                    )
                },
            }
        }),
    decreases n,
{
    if i == n - 1 {
        if first_sweep_problem(wallet, outpoints, lookups, gap_limit, i) is Some {
            let k = lemma_some_sweep_problem(wallet, outpoints, lookups, gap_limit, i);
            assert(sweep_problem(wallet, outpoints, lookups, gap_limit, k) is None);
        }
    } else {
        law_the_first_output_that_cannot_be_swept_is_named(
            wallet,
            outpoints,
            lookups,
            gap_limit,
            n - 1,
            i,
        );
    }
}

/// What was wrong with a sweep that is not planned is told in this order: nothing to sweep, no rate above
/// nothing, an output, the sum, and last the weight.
pub proof fn law_a_sweep_without_outputs_or_rate_is_refused_first(
    wallet: BuiltDescriptor,
    outpoints: Seq<OutPoint>,
    lookups: Seq<UtxoLookup>,
    gap_limit: u32,
    destination: Seq<u8>,
    rate: FeeRate,
)
    ensures
        ({
            let refusal = plan_error(wallet, outpoints, lookups, gap_limit, destination, rate);
            let first = first_sweep_problem(
                wallet,
                outpoints,
                lookups,
                gap_limit,
                outpoints.len() as int,
            );
            &&& outpoints.len() == 0 <==> refusal == Some(SweepError::NoUtxos)
            &&& outpoints.len() > 0 && not_positive(rate) ==> refusal == Some(
                SweepError::FeeRateNotPositive,
            )
            &&& outpoints.len() > 0 && !not_positive(rate) && first is Some ==> refusal == first
            &&& outpoints.len() > 0 && !not_positive(rate) && first is None && inputs_sum(lookups)
                > u64::MAX ==> refusal == Some(SweepError::TooMuch)
        }),
{
    let n = outpoints.len() as int;
    if n > 0 && first_sweep_problem(wallet, outpoints, lookups, gap_limit, n) is Some {
        let k = lemma_some_sweep_problem(wallet, outpoints, lookups, gap_limit, n);
        assert(!(sweep_problem(wallet, outpoints, lookups, gap_limit, k)->Some_0 is NoUtxos));
    }
}

/// The text of a sweep is that of a transaction of version 2 without a locktime, with the draft's inputs
/// and one output of the amount to the draft's script, and what its inputs spend.
pub proof fn law_a_sweep_is_written_out_whole(
    draft: SweepDraft,
    amount: u64,
    txid: Seq<char>,
    text: Seq<char>,
)
    requires
        draft.encoded(amount) == Some((txid, text)),
    ensures
        exists|bytes: Seq<u8>|
            raw_transaction(
                2,
                0,
                draft.unsigned.unsigned_tx.input.deep_view(),
                TxOutModel {
                    value: amount,
                    script_pubkey: draft.unsigned.unsigned_tx.output@[0].script_pubkey@,
                },
            ) == Some((txid, bytes)) && #[trigger] psbt_text(
                bytes,
                draft.unsigned.inputs.deep_view(),
            ) == Some(text),
{
    let (id, bytes) = raw_transaction(
        SWEEP_VERSION,
        SWEEP_LOCK_TIME,
        draft.unsigned.unsigned_tx.input.deep_view(),
        draft.output(amount),
    )->Some_0;
    assert(psbt_text(bytes, draft.unsigned.inputs.deep_view()) == Some(text));
}

/// Whether `r` is what writing a sweep out with a fee comes to.
pub open spec fn builds(
    draft: SweepDraft,
    fee: u64,
    r: Result<SweepPlan, SweepError>,
) -> bool {
    match r {
        Ok(plan) => {
            &&& fee < draft.total_in
            &&& have_ids(draft.unsigned.unsigned_tx.input.deep_view())
            &&& are_unscripted(draft.unsigned.unsigned_tx.input.deep_view())
            &&& plan.total_in == draft.total_in
            &&& plan.fee == fee
            &&& plan.destination_amount == draft.total_in - fee
            &&& plan.pays(draft)
            &&& draft.encoded(plan.destination_amount) == Some(
                (plan.psbt.unsigned_tx.txid@, plan.psbt.text@),
            )
            &&& draft.is_small() ==> decoded_psbt(plan.psbt.text@) is Some
            &&& decoded_psbt(plan.psbt.text@) matches Some(m) ==> m == plan.psbt.model()
            &&& plan.psbt.wf()
        },
        Err(SweepError::NothingLeft { fee: f, total_in }) => fee >= draft.total_in && f == fee
            && total_in == draft.total_in,
        Err(SweepError::Encode) => fee < draft.total_in && !(have_ids(
            draft.unsigned.unsigned_tx.input.deep_view(),
        ) && are_unscripted(draft.unsigned.unsigned_tx.input.deep_view())),
        Err(_) => false,
    }
}

/// A sweep pays all that comes in, less the fee, to the one output it has; and it is refused exactly where
/// nothing would be left, or an input has no id that can be written.
pub proof fn law_a_sweep_pays_all_but_the_fee(
    draft: SweepDraft,
    fee: u64,
    r: Result<SweepPlan, SweepError>,
)
    requires
        builds(draft, fee, r),
    ensures
        r matches Ok(plan) ==> {
            &&& plan.destination_amount + plan.fee == plan.total_in
            &&& plan.total_in == draft.total_in
            &&& plan.fee == fee
            &&& plan.destination_amount > 0
            &&& plan.psbt.model().output.len() == 1
            &&& plan.psbt.model().output[0].value + fee == draft.total_in
            &&& plan.psbt.model().output[0].script_pubkey
                == draft.unsigned.unsigned_tx.output@[0].script_pubkey@
            &&& plan.psbt.model().input.len() == draft.unsigned.unsigned_tx.input@.len()
        },
        r is Ok ==> fee < draft.total_in,
        fee >= draft.total_in ==> (r matches Err(SweepError::NothingLeft { fee: f, total_in }) && f
            == fee && total_in == draft.total_in),
        r matches Err(SweepError::NothingLeft { .. }) ==> fee >= draft.total_in,
        r is Err && fee < draft.total_in ==> r == Err::<SweepPlan, SweepError>(SweepError::Encode),
{
}

}
