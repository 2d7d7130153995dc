//! Partially signed transactions, as far as the rules read them, and what the node says of the
//! outputs that they spend.

use core::str::FromStr;

use bitcoin::psbt::PsbtSighashType;
use bitcoin::ScriptBuf;
use vstd::prelude::*;
use vstd::string::*;

use crate::text::{
    decimal, explained, or_empty, push_decimal, same_bytes, trim, trimmed,
};

verus! {

/// An output of another transaction.
#[derive(Debug)]
pub struct OutPoint {
    /// The id of the transaction, in hexadecimal.
    pub txid: String,
    pub vout: u32,
}

/// An amount in satoshi, and the script that it is paid to.
#[derive(Debug)]
pub struct TxOut {
    pub value: u64,
    pub script_pubkey: Vec<u8>,
}

/// An input, unsigned.
#[derive(Debug)]
pub struct TxIn {
    pub previous_output: OutPoint,
    pub script_sig: Vec<u8>,
    pub sequence: u32,
}

/// A transaction, unsigned.
#[derive(Debug)]
pub struct Transaction {
    /// The id, in hexadecimal. Signatures do not change it.
    pub txid: String,
    pub input: Vec<TxIn>,
    pub output: Vec<TxOut>,
}

/// A signature of one key, with the key.
#[derive(Debug)]
pub struct PartialSig {
    pub public_key: Vec<u8>,
    pub signature: Vec<u8>,
}

/// What is known of an input besides the transaction.
#[derive(Debug)]
pub struct PsbtInput {
    /// What the input is claimed to spend.
    pub witness_utxo: Option<TxOut>,
    /// The outputs of the transaction that the input is claimed to spend from.
    pub non_witness_utxo: Option<Vec<TxOut>>,
    /// The signature hash type that is asked for.
    pub sighash_type: Option<u32>,
    pub partial_sigs: Vec<PartialSig>,
    pub witness_script: Option<Vec<u8>>,
    /// The size in bytes of the final witness, where there is one.
    pub final_witness_size: Option<u64>,
}

/// What is known of an output besides the transaction.
#[derive(Debug)]
pub struct PsbtOutput {
    /// How many keys the output claims to be derived from.
    pub bip32_derivations: usize,
}

/// A partially signed transaction.
#[derive(Debug)]
pub struct Psbt {
    /// The Base64 text that it came as.
    pub text: String,
    pub unsigned_tx: Transaction,
    pub inputs: Vec<PsbtInput>,
    pub outputs: Vec<PsbtOutput>,
}

/// What the node has on record for an output that is not spent.
#[derive(Debug)]
pub struct Utxo {
    pub txout: TxOut,
    pub confirmations: u32,
}

/// What asking the node for an output came to.
#[derive(Debug)]
pub enum UtxoLookup {
    /// The output is there, unspent.
    Found(Utxo),
    /// The output does not exist, or is spent.
    Missing,
    /// The node could not be asked.
    Failed(String),
}

impl Psbt {
    /// There is one entry for each input and for each output.
    pub open spec fn wf(self) -> bool {
        &&& self.inputs@.len() == self.unsigned_tx.input@.len()
        &&& self.outputs@.len() == self.unsigned_tx.output@.len()
    }
}

/// Whether two outputs are the same: the amount and the script.
pub open spec fn same_output(a: TxOut, b: TxOut) -> bool {
    a.value == b.value && a.script_pubkey@ == b.script_pubkey@
}

impl TxOut {
    /// Whether two outputs are the same.
    pub fn same(&self, other: &TxOut) -> (r: bool)
        ensures
            r == same_output(*self, *other),
    {
        self.value == other.value && same_bytes(
            self.script_pubkey.as_slice(),
            other.script_pubkey.as_slice(),
        )
    }
}

impl OutPoint {
    pub(crate) fn duplicate(&self) -> (r: OutPoint)
        ensures
            r == *self,
    {
        OutPoint { txid: self.txid.clone(), vout: self.vout }
    }

    /// The id and the number of the output.
    pub open spec fn text(self) -> Seq<char> {
        self.txid@ + ":"@ + decimal(self.vout as nat)
    }

    /// The id and the number of the output, such as `6f1e...:0`.
    pub fn to_text(&self) -> (r: String)
        ensures
            r@ == self.text(),
    {
        let mut out = self.txid.clone();
        out.append(":");
        push_decimal(&mut out, self.vout as u64);
        out
    }
}

/// A [`TxOut`] as a value.
#[verifier::ext_equal]
pub struct TxOutModel {
    pub value: u64,
    pub script_pubkey: Seq<u8>,
}

impl DeepView for TxOut {
    type V = TxOutModel;

    open spec fn deep_view(&self) -> TxOutModel {
        TxOutModel { value: self.value, script_pubkey: self.script_pubkey@ }
    }
}

/// A [`TxIn`] as a value.
#[verifier::ext_equal]
pub struct TxInModel {
    pub txid: Seq<char>,
    pub vout: u32,
    pub script_sig: Seq<u8>,
    pub sequence: u32,
}

impl DeepView for TxIn {
    type V = TxInModel;

    open spec fn deep_view(&self) -> TxInModel {
        TxInModel {
            txid: self.previous_output.txid@,
            vout: self.previous_output.vout,
            script_sig: self.script_sig@,
            sequence: self.sequence,
        }
    }
}

impl DeepView for PartialSig {
    type V = (Seq<u8>, Seq<u8>);

    open spec fn deep_view(&self) -> (Seq<u8>, Seq<u8>) {
        (self.public_key@, self.signature@)
    }
}

/// A [`PsbtInput`] as a value.
#[verifier::ext_equal]
pub struct PsbtInputModel {
    pub witness_utxo: Option<TxOutModel>,
    pub non_witness_utxo: Option<Seq<TxOutModel>>,
    pub sighash_type: Option<u32>,
    pub partial_sigs: Seq<(Seq<u8>, Seq<u8>)>,
    pub witness_script: Option<Seq<u8>>,
    pub final_witness_size: Option<u64>,
}

impl DeepView for PsbtInput {
    type V = PsbtInputModel;

    open spec fn deep_view(&self) -> PsbtInputModel {
        PsbtInputModel {
            witness_utxo: self.witness_utxo.deep_view(),
            non_witness_utxo: self.non_witness_utxo.deep_view(),
            sighash_type: self.sighash_type,
            partial_sigs: self.partial_sigs.deep_view(),
            witness_script: self.witness_script.deep_view(),
            final_witness_size: self.final_witness_size,
        }
    }
}

impl DeepView for PsbtOutput {
    type V = usize;

    open spec fn deep_view(&self) -> usize {
        self.bip32_derivations
    }
}

impl PsbtOutput {
    /// Whether the output claims to be the wallet's: it names keys that it is derived from.
    pub open spec fn claims_derivation(self) -> bool {
        self.bip32_derivations > 0
    }
}

/// What a partially signed transaction holds.
#[verifier::ext_equal]
pub struct PsbtModel {
    pub txid: Seq<char>,
    pub input: Seq<TxInModel>,
    pub output: Seq<TxOutModel>,
    pub inputs: Seq<PsbtInputModel>,
    pub outputs: Seq<usize>,
}

impl Psbt {
    /// What it holds.
    pub open spec fn model(self) -> PsbtModel {
        PsbtModel {
            txid: self.unsigned_tx.txid@,
            input: self.unsigned_tx.input.deep_view(),
            output: self.unsigned_tx.output.deep_view(),
            inputs: self.inputs.deep_view(),
            outputs: self.outputs.deep_view(),
        }
    }
}

/// Whether a script is no larger than a script may be.
pub open spec fn is_small_script(script: Seq<u8>) -> bool {
    script.len() <= 10_000
}

/// What a partially signed transaction in Base64 holds; nothing where the text is none.
pub uninterp spec fn decoded_psbt(text: Seq<char>) -> Option<PsbtModel>;

/// `<bitcoin::Psbt as FromStr>::from_str`, of which the unsigned transaction is kept, with
/// `Transaction::compute_txid`. What the text holds is named [`decoded_psbt`].
#[verifier::external_body]
fn decode_transaction(text: &str) -> (r: Option<Transaction>)
    ensures
        match r {
            Some(tx) => decoded_psbt(text@) matches Some(m) && m.txid == tx.txid@ && m.input
                == tx.input.deep_view() && m.output == tx.output.deep_view(),
            None => decoded_psbt(text@) is None,
        },
{
    let tx = bitcoin::Psbt::from_str(text).ok()?.unsigned_tx;
    let input = tx.input.iter().map(|i| TxIn {
        previous_output: OutPoint {
            txid: i.previous_output.txid.to_string(),
            vout: i.previous_output.vout,
        },
        script_sig: i.script_sig.to_bytes(),
        sequence: i.sequence.to_consensus_u32(),
    }).collect();
    let output = tx.output.iter().map(|o| TxOut {
        value: o.value.to_sat(), script_pubkey: o.script_pubkey.to_bytes() }).collect();
    Some(Transaction { txid: tx.compute_txid().to_string(), input, output })
}

/// `<bitcoin::Psbt as FromStr>::from_str`, of which the inputs are kept, a final witness by its
/// `Witness::size`. What the text holds is named [`decoded_psbt`].
#[verifier::external_body]
fn decode_inputs(text: &str) -> (r: Option<Vec<PsbtInput>>)
    ensures
        match r {
            Some(inputs) => decoded_psbt(text@) matches Some(m) && m.inputs == inputs.deep_view(),
            None => decoded_psbt(text@) is None,
        },
{
    let output = |o: bitcoin::TxOut| TxOut {
        value: o.value.to_sat(), script_pubkey: o.script_pubkey.into_bytes() };
    Some(bitcoin::Psbt::from_str(text).ok()?.inputs.into_iter().map(|i| PsbtInput {
        witness_utxo: i.witness_utxo.map(output),
        non_witness_utxo: i.non_witness_utxo.map(|t| t.output.into_iter().map(output).collect()),
        sighash_type: i.sighash_type.map(PsbtSighashType::to_u32),
        partial_sigs: i.partial_sigs.iter().map(|(k, s)| PartialSig {
            public_key: k.to_bytes(), signature: s.to_vec() }).collect(),
        witness_script: i.witness_script.map(ScriptBuf::into_bytes),
        final_witness_size: i.final_script_witness.map(|w| w.size() as u64),
    }).collect())
}

/// `<bitcoin::Psbt as FromStr>::from_str`, of which is kept how many keys each output claims to
/// be derived from. What the text holds is named [`decoded_psbt`].
#[verifier::external_body]
fn decode_outputs(text: &str) -> (r: Option<Vec<PsbtOutput>>)
    ensures
        match r {
            Some(outputs) => decoded_psbt(text@) matches Some(m) && m.outputs
                == outputs.deep_view(),
            None => decoded_psbt(text@) is None,
        },
{
    Some(bitcoin::Psbt::from_str(text).ok()?.outputs.iter().map(|o| PsbtOutput {
        bip32_derivations: o.bip32_derivation.len() }).collect())
}

/// Why a text is no partially signed transaction, in the words of who read it; nothing where it is
/// one.
pub uninterp spec fn psbt_failure(s: Seq<char>) -> Option<Seq<char>>;

/// `<bitcoin::Psbt as FromStr>::from_str`, of which the error is kept, written out by `Display`.
/// It is named [`psbt_failure`].
#[verifier::external_body]
fn psbt_error(s: &str) -> (r: Option<String>)
    ensures
        match r {
            Some(e) => psbt_failure(s@) == Some(e@),
            None => psbt_failure(s@) is None,
        },
        (r is Some) == (decoded_psbt(s@) is None),
{
    Some(bitcoin::Psbt::from_str(s).err()?.to_string())
}

/// What is said of a text that is no partially signed transaction.
pub open spec fn psbt_complaint(text: Seq<char>) -> Seq<char> {
    "failed to parse psbt: "@ + or_empty(psbt_failure(trimmed(text)))
}

/// What is said of a text that is no partially signed transaction.
pub fn explain_psbt(text: &str) -> (r: String)
    ensures
        r@ == psbt_complaint(text@),
{
    explained("failed to parse psbt: ", psbt_error(trim(text)))
}

/// Why a text is refused as a partially signed transaction.
#[derive(Clone, Copy, Debug, PartialEq, Eq, Structural)]
pub enum PsbtError {
    /// The text does not decode.
    Malformed,
}

/// Whether a text is a partially signed transaction with an entry for each input and each output.
pub open spec fn is_psbt(text: Seq<char>) -> bool {
    decoded_psbt(text) matches Some(m) && m.inputs.len() == m.input.len() && m.outputs.len()
        == m.output.len()
}

impl Psbt {
    /// Reads a partially signed transaction in Base64, with white space around it or without.
    pub fn decode(text: &str) -> (r: Result<Psbt, PsbtError>)
        ensures
            match r {
                Ok(psbt) => {
                    &&& is_psbt(trimmed(text@))
                    &&& decoded_psbt(trimmed(text@)) == Some(psbt.model())
                    &&& psbt.text@ == trimmed(text@)
                    &&& psbt.wf()
                },
                Err(e) => !is_psbt(trimmed(text@)),
            },
    {
        Psbt::read(trim(text))
    }

    /// Reads a partially signed transaction in Base64.
    pub fn read(text: &str) -> (r: Result<Psbt, PsbtError>)
        ensures
            match r {
                Ok(psbt) => {
                    &&& is_psbt(text@)
                    &&& decoded_psbt(text@) == Some(psbt.model())
                    &&& psbt.text@ == text@
                    &&& psbt.wf()
                },
                Err(e) => !is_psbt(text@),
            },
    {
        let unsigned_tx = match decode_transaction(text) {
            Some(tx) => tx,
            None => {
                return Err(PsbtError::Malformed);
            },
        };
        let inputs: Vec<PsbtInput> = match decode_inputs(text) {
            Some(inputs) => inputs,
            None => {
                return Err(PsbtError::Malformed);
            },
        };
        let outputs: Vec<PsbtOutput> = match decode_outputs(text) {
            Some(outputs) => outputs,
            None => {
                return Err(PsbtError::Malformed);
            },
        };
        if inputs.len() != unsigned_tx.input.len() || outputs.len() != unsigned_tx.output.len() {
            return Err(PsbtError::Malformed);
        }
        Ok(Psbt { text: text.to_owned(), unsigned_tx, inputs, outputs })
    }
}

/// Whether a key has signed the input.
pub open spec fn has_signed(input: PsbtInput, key: Seq<u8>) -> bool {
    exists|i: int|
        0 <= i < input.partial_sigs@.len() && (#[trigger] input.partial_sigs@[i]).public_key@
            == key
}

impl PsbtInput {
    /// Whether a key has signed the input.
    pub fn is_signed_by(&self, key: &Vec<u8>) -> (r: bool)
        ensures
            r == has_signed(*self, key@),
    {
        let mut i: usize = 0;
        while i < self.partial_sigs.len()
            invariant
                i <= self.partial_sigs.len(),
                forall|j: int|
                    0 <= j < i ==> (#[trigger] self.partial_sigs@[j]).public_key@ != key@,
            decreases self.partial_sigs.len() - i,
        {
            if same_bytes(self.partial_sigs[i].public_key.as_slice(), key.as_slice()) {
                return true;
            }
            i = i + 1;
        }
        false
    }
}

/// Two outputs are the same exactly where amount and script are; and one claims to be the wallet's exactly
/// where it names a derivation.
pub proof fn law_an_output_is_its_amount_and_script(a: TxOut, b: TxOut, o: PsbtOutput)
    ensures
        same_output(a, b) <==> a.value == b.value && a.script_pubkey@ == b.script_pubkey@,
        o.claims_derivation() <==> o.bip32_derivations > 0,
{
}

}
