//! What a wallet's descriptor promises: no key spends alone, two of them spend at once, and any two
//! spend in the end.

use core::str::FromStr;
use std::collections::HashMap;

use bitcoin::ecdsa::Signature;
use bitcoin::secp256k1::{Message, Secp256k1, SecretKey};
use bitcoin::Sequence;
use miniscript::descriptor::DefiniteDescriptorKey;
use miniscript::{Descriptor, DescriptorPublicKey};
use vstd::prelude::*;
use vstd::string::*;

use crate::config::WalletConfig;
use crate::descriptor::{
    definite_keys, derived_keys, find_role_key, role_key, BuiltDescriptor, DefiniteKey,
    DescriptorError,
};
use crate::text::{
    decimal, join, joined, lemma_occurs_at_the_end, lemma_occurs_in_itself, occurs, push_decimal, same_bytes,
};

verus! {

/// A key of a descriptor, under the name that it is shown by.
#[derive(Clone, Debug)]
pub struct LabeledKey {
    pub label: String,
    /// The key expression at the index.
    pub key: String,
}

/// Whether keys satisfy a descriptor at an index, for coins that are so many blocks old; nothing
/// where one of the texts is not what it should be.
pub uninterp spec fn satisfaction(
    desc: Seq<char>,
    index: u32,
    keys: Seq<Seq<char>>,
    blocks: u16,
) -> Option<bool>;

/// `miniscript::Descriptor::get_satisfaction` with a signature of each of the keys and a sequence
/// number of so many blocks, of the descriptor that the text is. Whether there is one is named
/// [`satisfaction`].
#[verifier::external_body]
fn get_satisfaction(desc: &str, index: u32, keys: &Vec<String>, blocks: u16) -> (r: Option<bool>)
    requires
        derived_keys(desc@, index) is Some,
    ensures
        r == satisfaction(desc@, index, keys.deep_view(), blocks),
{
    let message = Message::from_digest([1; 32]);
    let signer = SecretKey::from_slice(&[1; 32]).ok()?;
    let signature = Signature::sighash_all(Secp256k1::new().sign_ecdsa(&message, &signer));
    let mut held: HashMap<DefiniteDescriptorKey, Signature> = HashMap::new();
    for k in keys {
        held.insert(DefiniteDescriptorKey::from_str(k).ok()?, signature);
    }
    let desc = Descriptor::<DescriptorPublicKey>::from_str(desc).ok()?;
    let definite = desc.at_derivation_index(index).ok()?;
    Some(definite.get_satisfaction((held, Sequence::from_height(blocks))).is_ok())
}

/// Whether keys satisfy a descriptor.
pub open spec fn satisfiable(
    desc: Seq<char>,
    index: u32,
    keys: Seq<Seq<char>>,
    blocks: u16,
) -> bool {
    satisfaction(desc, index, keys, blocks) == Some(true)
}

fn can_satisfy(desc: &str, index: u32, keys: &Vec<String>, blocks: u16) -> (r: bool)
    requires
        derived_keys(desc@, index) is Some,
    ensures
        r == satisfiable(desc@, index, keys.deep_view(), blocks),
{
    match get_satisfaction(desc, index, keys, blocks) {
        Some(b) => b,
        None => false,
    }
}

/// What two keys can do.
#[derive(Clone, Debug)]
pub struct PairReport {
    pub first: String,
    pub second: String,
    pub spends_immediately: bool,
    pub spends_after_timelock: bool,
    pub spends_one_block_early: bool,
}

/// What the keys of a descriptor can do.
#[derive(Clone, Debug)]
pub struct InvariantReport {
    pub key_labels: Vec<String>,
    /// No key spends alone, also after waiting.
    pub no_single_key_can_spend: bool,
    pub pairs: Vec<PairReport>,
    /// Exactly one pair spends at once.
    pub exactly_one_immediate_path: bool,
    /// At least one pair spends only after the timelock.
    pub at_least_one_timelocked_path: bool,
    /// No pair that has to wait spends a block before the timelock.
    pub timelock_boundary_holds: bool,
    /// Every pair spends in the end.
    pub every_pair_can_eventually_spend: bool,
}

/// The timelock less a block.
pub open spec fn one_block_early(timelock: u16) -> u16 {
    if timelock == 0 {
        0
    } else {
        (timelock - 1) as u16
    }
}

/// Whether one of the first `n` keys spends alone, at once or after the timelock.
pub open spec fn some_key_spends(
    desc: Seq<char>,
    index: u32,
    keys: Seq<LabeledKey>,
    timelock: u16,
    n: int,
) -> bool
    decreases n,
{
    n > 0 && {
        ||| some_key_spends(desc, index, keys, timelock, n - 1)
        ||| satisfiable(desc, index, seq![keys[n - 1].key@], 0)
        ||| satisfiable(desc, index, seq![keys[n - 1].key@], timelock)
    }
}

/// Whether `p` says what the keys `i` and `j` can do.
pub open spec fn is_pair(
    desc: Seq<char>,
    index: u32,
    keys: Seq<LabeledKey>,
    timelock: u16,
    i: int,
    j: int,
    p: PairReport,
) -> bool {
    let both = seq![keys[i].key@, keys[j].key@];
    &&& p.first@ == keys[i].label@
    &&& p.second@ == keys[j].label@
    &&& p.spends_immediately == satisfiable(desc, index, both, 0)
    &&& p.spends_after_timelock == satisfiable(desc, index, both, timelock)
    &&& p.spends_one_block_early == satisfiable(desc, index, both, one_block_early(timelock))
}

/// The place of the pair `i` and `j`, with `i < j`, in a list of all pairs.
pub open spec fn pair_place(i: int, j: int) -> int {
    triangle(j) + i
}

/// How many pairs there are among `n` keys.
pub open spec fn triangle(n: int) -> int
    decreases n,
{
    if n <= 0 {
        0
    } else {
        triangle(n - 1) + n - 1
    }
}

/// Whether `pairs` says what each two keys can do.
pub open spec fn are_pairs(
    desc: Seq<char>,
    index: u32,
    keys: Seq<LabeledKey>,
    timelock: u16,
    pairs: Seq<PairReport>,
) -> bool {
    &&& pairs.len() == triangle(keys.len() as int)
    &&& forall|i: int, j: int|
        #![trigger pair_place(i, j)]
        0 <= i < j < keys.len() ==> is_pair(
            desc,
            index,
            keys,
            timelock,
            i,
            j,
            pairs[pair_place(i, j)],
        )
}

/// How many of the pairs spend at once.
pub open spec fn immediate_pairs(pairs: Seq<PairReport>) -> nat
    decreases pairs.len(),
{
    if pairs.len() == 0 {
        0
    } else {
        immediate_pairs(pairs.drop_last()) + if pairs.last().spends_immediately {
            1nat
        } else {
            0
        }
    }
}

/// Whether a pair spends only after the timelock.
pub open spec fn has_to_wait(p: PairReport) -> bool {
    p.spends_after_timelock && !p.spends_immediately
}

/// Whether a report draws the conclusions that its pairs allow.
pub open spec fn concludes(r: InvariantReport) -> bool {
    &&& r.exactly_one_immediate_path == (immediate_pairs(r.pairs@) == 1)
    &&& r.at_least_one_timelocked_path == (exists|k: int|
        0 <= k < r.pairs@.len() && has_to_wait(#[trigger] r.pairs@[k]))
    &&& r.timelock_boundary_holds == (forall|k: int|
        0 <= k < r.pairs@.len() && has_to_wait(#[trigger] r.pairs@[k])
            ==> !r.pairs@[k].spends_one_block_early)
    &&& r.every_pair_can_eventually_spend == (forall|k: int|
        0 <= k < r.pairs@.len() ==> (#[trigger] r.pairs@[k]).spends_immediately
            || r.pairs@[k].spends_after_timelock)
}

impl InvariantReport {
    /// Whether all holds that a wallet is to promise.
    pub open spec fn all_hold(self) -> bool {
        &&& self.no_single_key_can_spend
        &&& self.exactly_one_immediate_path
        &&& self.at_least_one_timelocked_path
        &&& self.timelock_boundary_holds
        &&& self.every_pair_can_eventually_spend
    }

    /// Whether all holds that a wallet is to promise.
    pub fn all_invariants_hold(&self) -> (r: bool)
        ensures
            r == self.all_hold(),
    {
        self.no_single_key_can_spend && self.exactly_one_immediate_path
            && self.at_least_one_timelocked_path && self.timelock_boundary_holds
            && self.every_pair_can_eventually_spend
    }
}

fn one_key(key: &LabeledKey) -> (r: Vec<String>)
    ensures
        r.deep_view() == seq![key.key@],
{
    let mut out: Vec<String> = Vec::new();
    out.push(key.key.clone());
    assert(out.deep_view() =~= seq![key.key@]);
    out
}

fn two_keys(a: &LabeledKey, b: &LabeledKey) -> (r: Vec<String>)
    ensures
        r.deep_view() == seq![a.key@, b.key@],
{
    let mut out: Vec<String> = Vec::new();
    out.push(a.key.clone());
    out.push(b.key.clone());
    assert(out.deep_view() =~= seq![a.key@, b.key@]);
    out
}

fn report_pair(
    desc: &str,
    index: u32,
    keys: &Vec<LabeledKey>,
    timelock: u16,
    i: usize,
    j: usize,
) -> (r: PairReport)
    requires
        derived_keys(desc@, index) is Some,
        i < j < keys@.len(),
    ensures
        is_pair(desc@, index, keys@, timelock, i as int, j as int, r),
{
    let both = two_keys(&keys[i], &keys[j]);
    let early: u16 = if timelock == 0 {
        0
    } else {
        timelock - 1
    };
    PairReport {
        first: keys[i].label.clone(),
        second: keys[j].label.clone(),
        spends_immediately: can_satisfy(desc, index, &both, 0),
        spends_after_timelock: can_satisfy(desc, index, &both, timelock),
        spends_one_block_early: can_satisfy(desc, index, &both, early),
    }
}

proof fn lemma_triangle_grows(a: int, b: int)
    requires
        0 <= a <= b,
    ensures
        triangle(a) <= triangle(b),
        triangle(a) >= 0,
    decreases b,
{
    if a < b {
        lemma_triangle_grows(a, b - 1);
    } else if a > 0 {
        lemma_triangle_grows(a - 1, a - 1);
    }
}

fn report_pairs(desc: &str, index: u32, keys: &Vec<LabeledKey>, timelock: u16) -> (r: Vec<
    PairReport,
>)
    requires
        derived_keys(desc@, index) is Some,
    ensures
        are_pairs(desc@, index, keys@, timelock, r@),
{
    let mut out: Vec<PairReport> = Vec::new();
    let mut j: usize = 0;
    while j < keys.len()
        invariant
            j <= keys.len(),
            derived_keys(desc@, index) is Some,
            out@.len() == triangle(j as int),
            forall|a: int, b: int|
                #![trigger pair_place(a, b)]
                0 <= a < b < j ==> is_pair(
                    desc@,
                    index,
                    keys@,
                    timelock,
                    a,
                    b,
                    out@[pair_place(a, b)],
                ),
        decreases keys.len() - j,
    {
        let mut i: usize = 0;
        while i < j
            invariant
                i <= j < keys.len(),
                derived_keys(desc@, index) is Some,
                out@.len() == triangle(j as int) + i,
                forall|a: int, b: int|
                    #![trigger pair_place(a, b)]
                    0 <= a < b && (b < j || (b == j && a < i)) ==> is_pair(
                        desc@,
                        index,
                        keys@,
                        timelock,
                        a,
                        b,
                        out@[pair_place(a, b)],
                    ),
            decreases j - i,
        {
            let ghost before = out@;
            let p = report_pair(desc, index, keys, timelock, i, j);
            out.push(p);
            proof {
                assert forall|a: int, b: int|
                    #![trigger pair_place(a, b)]
                    0 <= a < b && (b < j || (b == j && a < i + 1)) implies is_pair(
                    desc@,
                    index,
                    keys@,
                    timelock,
                    a,
                    b,
                    out@[pair_place(a, b)],
                ) by {
                    if b < j {
                        lemma_triangle_grows(b + 1, j as int);
                        assert(triangle(b + 1) == triangle(b) + b);
                        lemma_triangle_grows(b, b);
                        assert(out@[pair_place(a, b)] == before[pair_place(a, b)]);
                    } else if a < i {
                        lemma_triangle_grows(b, b);
                        assert(out@[pair_place(a, b)] == before[pair_place(a, b)]);
                    } else {
                        assert(pair_place(a, b) == before.len());
                    }
                }
            }
            i = i + 1;
        }
        assert(triangle(j + 1) == triangle(j as int) + j);
        j = j + 1;
    }
    out
}

fn count_immediate(pairs: &Vec<PairReport>) -> (r: usize)
    ensures
        r == immediate_pairs(pairs@),
{
    let mut n: usize = 0;
    let mut i: usize = 0;
    while i < pairs.len()
        invariant
            i <= pairs.len(),
            n <= i,
            n == immediate_pairs(pairs@.take(i as int)),
        decreases pairs.len() - i,
    {
        assert(pairs@.take(i + 1).drop_last() =~= pairs@.take(i as int));
        if pairs[i].spends_immediately {
            n = n + 1;
        }
        i = i + 1;
    }
    assert(pairs@.take(i as int) =~= pairs@);
    n
}

fn some_waits(pairs: &Vec<PairReport>) -> (r: bool)
    ensures
        r == (exists|k: int| 0 <= k < pairs@.len() && has_to_wait(#[trigger] pairs@[k])),
{
    let mut i: usize = 0;
    while i < pairs.len()
        invariant
            i <= pairs.len(),
            forall|k: int| 0 <= k < i ==> !has_to_wait(#[trigger] pairs@[k]),
        decreases pairs.len() - i,
    {
        if pairs[i].spends_after_timelock && !pairs[i].spends_immediately {
            assert(has_to_wait(pairs@[i as int]));
            return true;
        }
        i = i + 1;
    }
    false
}

fn none_early(pairs: &Vec<PairReport>) -> (r: bool)
    ensures
        r == (forall|k: int|
            0 <= k < pairs@.len() && has_to_wait(#[trigger] pairs@[k])
                ==> !pairs@[k].spends_one_block_early),
{
    let mut i: usize = 0;
    while i < pairs.len()
        invariant
            i <= pairs.len(),
            forall|k: int|
                0 <= k < i && has_to_wait(#[trigger] pairs@[k])
                    ==> !pairs@[k].spends_one_block_early,
        decreases pairs.len() - i,
    {
        if pairs[i].spends_after_timelock && !pairs[i].spends_immediately
            && pairs[i].spends_one_block_early {
            assert(has_to_wait(pairs@[i as int]));
            return false;
        }
        i = i + 1;
    }
    true
}

fn all_spend(pairs: &Vec<PairReport>) -> (r: bool)
    ensures
        r == (forall|k: int|
            0 <= k < pairs@.len() ==> (#[trigger] pairs@[k]).spends_immediately
                || pairs@[k].spends_after_timelock),
{
    let mut i: usize = 0;
    while i < pairs.len()
        invariant
            i <= pairs.len(),
            forall|k: int|
                0 <= k < i ==> (#[trigger] pairs@[k]).spends_immediately
                    || pairs@[k].spends_after_timelock,
        decreases pairs.len() - i,
    {
        if !pairs[i].spends_immediately && !pairs[i].spends_after_timelock {
            return false;
        }
        i = i + 1;
    }
    true
}

proof fn lemma_spending_key_stays(
    desc: Seq<char>,
    index: u32,
    keys: Seq<LabeledKey>,
    timelock: u16,
    i: int,
    n: int,
)
    requires
        0 <= i <= n,
        some_key_spends(desc, index, keys, timelock, i),
    ensures
        some_key_spends(desc, index, keys, timelock, n),
    decreases n - i,
{
    if i < n {
        lemma_spending_key_stays(desc, index, keys, timelock, i, n - 1);
    }
}

fn single_key_spends(desc: &str, index: u32, keys: &Vec<LabeledKey>, timelock: u16) -> (r: bool)
    requires
        derived_keys(desc@, index) is Some,
    ensures
        r == some_key_spends(desc@, index, keys@, timelock, keys@.len() as int),
{
    let mut i: usize = 0;
    while i < keys.len()
        invariant
            i <= keys.len(),
            derived_keys(desc@, index) is Some,
            !some_key_spends(desc@, index, keys@, timelock, i as int),
        decreases keys.len() - i,
    {
        let alone = one_key(&keys[i]);
        if can_satisfy(desc, index, &alone, 0) || can_satisfy(desc, index, &alone, timelock) {
            proof {
                lemma_spending_key_stays(
                    desc@,
                    index,
                    keys@,
                    timelock,
                    i + 1,
                    keys@.len() as int,
                );
            }
            return true;
        }
        i = i + 1;
    }
    false
}

/// The names of keys.
pub open spec fn labels_of(keys: Seq<LabeledKey>) -> Seq<Seq<char>> {
    keys.map_values(|k: LabeledKey| k.label@)
}

fn key_labels(keys: &Vec<LabeledKey>) -> (r: Vec<String>)
    ensures
        r.deep_view() == labels_of(keys@),
{
    let mut out: Vec<String> = Vec::new();
    let mut i: usize = 0;
    while i < keys.len()
        invariant
            i <= keys.len(),
            out.deep_view() == labels_of(keys@).take(i as int),
        decreases keys.len() - i,
    {
        let ghost before = out.deep_view();
        out.push(keys[i].label.clone());
        assert(out.deep_view() =~= before.push(keys@[i as int].label@));
        assert(labels_of(keys@).take(i + 1) =~= labels_of(keys@).take(i as int).push(
            labels_of(keys@)[i as int],
        ));
        i = i + 1;
    }
    assert(labels_of(keys@).take(i as int) =~= labels_of(keys@));
    out
}

/// Tries out what the keys of a descriptor can do, alone and by twos, at once and after waiting.
pub fn verify_invariants(desc: &str, index: u32, keys: &Vec<LabeledKey>, timelock_blocks: u16)
    -> (r: Result<InvariantReport, DescriptorError>)
    ensures
        match r {
            Ok(report) => {
                &&& derived_keys(desc@, index) is Some
                &&& report.key_labels.deep_view() == labels_of(keys@)
                &&& report.no_single_key_can_spend == !some_key_spends(
                    desc@,
                    index,
                    keys@,
                    timelock_blocks,
                    keys@.len() as int,
                )
                &&& are_pairs(desc@, index, keys@, timelock_blocks, report.pairs@)
                &&& concludes(report)
            },
            Err(e) => derived_keys(desc@, index) is None && e == (DescriptorError::Derive {
                index,
            }),
        },
{
    if let Err(e) = definite_keys(desc, index) {
        return Err(e);
    }
    let pairs = report_pairs(desc, index, keys, timelock_blocks);
    Ok(
        InvariantReport {
            key_labels: key_labels(keys),
            no_single_key_can_spend: !single_key_spends(desc, index, keys, timelock_blocks),
            exactly_one_immediate_path: count_immediate(&pairs) == 1,
            at_least_one_timelocked_path: some_waits(&pairs),
            timelock_boundary_holds: none_early(&pairs),
            every_pair_can_eventually_spend: all_spend(&pairs),
            pairs,
        },
    )
}

/// The expression of the first key with that public key.
pub open spec fn expression_of(
    keys: Seq<(Seq<char>, Seq<u8>)>,
    public_key: Seq<u8>,
    n: int,
) -> Option<Seq<char>>
    decreases keys.len() - n,
{
    if n >= keys.len() {
        None
    } else if keys[n].1 == public_key {
        Some(keys[n].0)
    } else {
        expression_of(keys, public_key, n + 1)
    }
}

fn find_expression(keys: &Vec<DefiniteKey>, public_key: &Vec<u8>) -> (r: Option<String>)
    ensures
        match r {
            Some(e) => expression_of(keys.deep_view(), public_key@, 0) == Some(e@),
            None => expression_of(keys.deep_view(), public_key@, 0) is None,
        },
{
    let mut i: usize = 0;
    let ghost all = keys.deep_view();
    while i < keys.len()
        invariant
            i <= keys.len(),
            all == keys.deep_view(),
            expression_of(all, public_key@, 0) == expression_of(all, public_key@, i as int),
        decreases keys.len() - i,
    {
        assert(all[i as int] == keys@[i as int].deep_view());
        if same_bytes(keys[i].public_key.as_slice(), public_key.as_slice()) {
            return Some(keys[i].expression.clone());
        }
        i = i + 1;
    }
    None
}

/// The key of a role, or why there is none.
pub open spec fn key_for_role(
    keys: Seq<(Seq<char>, Seq<u8>)>,
    xpub: String,
) -> Result<Seq<char>, DescriptorError> {
    match role_key(keys, xpub) {
        Err(e) => Err(e),
        Ok(k) => match expression_of(keys, k, 0) {
            Some(e) => Ok(e),
            None => Err(DescriptorError::MissingRoleKey { xpub }),
        },
    }
}

fn label_role(keys: &Vec<DefiniteKey>, label: &str, xpub: &String) -> (r: Result<
    LabeledKey,
    DescriptorError,
>)
    ensures
        match r {
            Ok(l) => l.label@ == label@ && key_for_role(keys.deep_view(), *xpub) == Ok::<
                Seq<char>,
                DescriptorError,
            >(l.key@),
            Err(e) => key_for_role(keys.deep_view(), *xpub) == Err::<Seq<char>, DescriptorError>(e),
        },
{
    let k = match find_role_key(keys, xpub) {
        Ok(k) => k,
        Err(e) => {
            return Err(e);
        },
    };
    match find_expression(keys, &k) {
        Some(key) => Ok(LabeledKey { label: label.to_owned(), key }),
        None => Err(DescriptorError::MissingRoleKey { xpub: xpub.clone() }),
    }
}

/// The keys of a wallet at an index by their roles, or why one of them is not found.
pub open spec fn role_expressions(desc: Seq<char>, cfg: WalletConfig, index: u32) -> Result<
    Seq<Seq<char>>,
    DescriptorError,
> {
    match derived_keys(desc, index) {
        None => Err(DescriptorError::Derive { index }),
        Some(keys) => match key_for_role(keys, cfg.keys.satochip.xpub) {
            Err(e) => Err(e),
            Ok(hardware) => match key_for_role(keys, cfg.keys.server.xpub) {
                Err(e) => Err(e),
                Ok(server) => match key_for_role(keys, cfg.keys.mobile.xpub) {
                    Err(e) => Err(e),
                    Ok(mobile) => Ok(seq![hardware, server, mobile]),
                },
            },
        },
    }
}

/// Names the keys of a descriptor by their roles, going by the configured keys and not by where
/// they stand.
pub fn role_labeled_keys(external: &str, cfg: &WalletConfig) -> (r: Result<
    Vec<LabeledKey>,
    DescriptorError,
>)
    ensures
        match r {
            Ok(keys) => {
                &&& labels_of(keys@) == seq!["satochip"@, "server"@, "mobile"@]
                &&& role_expressions(external@, *cfg, 0) == Ok::<Seq<Seq<char>>, DescriptorError>(
                    keys@.map_values(|k: LabeledKey| k.key@),
                )
            },
            Err(e) => role_expressions(external@, *cfg, 0) == Err::<
                Seq<Seq<char>>,
                DescriptorError,
            >(e),
        },
{
    let keys = definite_keys(external, 0)?;
    let hardware = label_role(&keys, "satochip", &cfg.keys.satochip.xpub)?;
    let server = label_role(&keys, "server", &cfg.keys.server.xpub)?;
    let mobile = label_role(&keys, "mobile", &cfg.keys.mobile.xpub)?;
    let ghost want = seq![hardware.key@, server.key@, mobile.key@];
    let mut out: Vec<LabeledKey> = Vec::new();
    out.push(hardware);
    out.push(server);
    out.push(mobile);
    assert(labels_of(out@) =~= seq!["satochip"@, "server"@, "mobile"@]);
    assert(out@.map_values(|k: LabeledKey| k.key@) =~= want);
    Ok(out)
}

/// Names the keys of a descriptor of unknown origin by their order.
pub fn generic_labeled_keys(keys: &Vec<DefiniteKey>) -> (r: Vec<LabeledKey>)
    ensures
        r@.len() == keys@.len(),
        forall|i: int|
            0 <= i < keys@.len() ==> (#[trigger] r@[i]).label@ == "key"@ + decimal((i + 1) as nat)
                && r@[i].key@ == keys@[i].expression@,
{
    let mut out: Vec<LabeledKey> = Vec::new();
    let mut i: usize = 0;
    while i < keys.len()
        invariant
            i <= keys.len(),
            out@.len() == i,
            forall|j: int|
                0 <= j < i ==> (#[trigger] out@[j]).label@ == "key"@ + decimal((j + 1) as nat)
                    && out@[j].key@ == keys@[j].expression@,
        decreases keys.len() - i,
    {
        let mut label = "key".to_owned();
        push_decimal(&mut label, (i + 1) as u64);
        out.push(LabeledKey { label, key: keys[i].expression.clone() });
        i = i + 1;
    }
    out
}

/// Tries out what the keys of a wallet can do.
pub fn run_invariants(built: &BuiltDescriptor, cfg: &WalletConfig) -> (r: Result<
    InvariantReport,
    DescriptorError,
>)
    ensures
        match r {
            Ok(report) => {
                &&& role_expressions(built.external_text(), *cfg, 0) is Ok
                &&& report.key_labels.deep_view() == seq!["satochip"@, "server"@, "mobile"@]
                &&& concludes(report)
                &&& exists|keys: Seq<LabeledKey>|
                    {
                        &&& role_expressions(built.external_text(), *cfg, 0) == Ok::<
                            Seq<Seq<char>>,
                            DescriptorError,
                        >(keys.map_values(|k: LabeledKey| k.key@))
                        &&& labels_of(keys) == report.key_labels.deep_view()
                        &&& report.no_single_key_can_spend == !some_key_spends(
                            built.external_text(),
                            0,
                            keys,
                            built.timelock(),
                            keys.len() as int,
                        )
                        &&& #[trigger] are_pairs(
                            built.external_text(),
                            0,
                            keys,
                            built.timelock(),
                            report.pairs@,
                        )
                    }
            },
            Err(e) => role_expressions(built.external_text(), *cfg, 0) == Err::<
                Seq<Seq<char>>,
                DescriptorError,
            >(e),
        },
{
    let keys = role_labeled_keys(built.external(), cfg)?;
    verify_invariants(built.external(), 0, &keys, built.timelock_blocks())
}

/// How a finding is shown.
pub open spec fn pass_text(b: bool) -> Seq<char> {
    if b {
        "PASS"@
    } else {
        "FAIL"@
    }
}

fn pass(b: bool) -> (r: &'static str)
    ensures
        r@ == pass_text(b),
{
    if b {
        "PASS"
    } else {
        "FAIL"
    }
}

/// How a yes or no is shown.
pub open spec fn bool_text(b: bool) -> Seq<char> {
    if b {
        "true"@
    } else {
        "false"@
    }
}

fn show_bool(b: bool) -> (r: &'static str)
    ensures
        r@ == bool_text(b),
{
    if b {
        "true"
    } else {
        "false"
    }
}

/// The line on what two keys can do.
pub open spec fn pair_line(p: PairReport) -> Seq<char> {
    "  "@ + p.first@ + " + "@ + p.second@ + ": immediate="@ + bool_text(p.spends_immediately)
        + " after_timelock="@ + bool_text(p.spends_after_timelock) + "\n"@
}

/// The lines on what each two keys can do.
pub open spec fn pair_lines(pairs: Seq<PairReport>) -> Seq<char>
    decreases pairs.len(),
{
    if pairs.len() == 0 {
        Seq::empty()
    } else {
        pair_lines(pairs.drop_last()) + pair_line(pairs.last())
    }
}

fn show_pairs(pairs: &Vec<PairReport>) -> (r: String)
    ensures
        r@ == pair_lines(pairs@),
{
    let mut out = String::new();
    let mut i: usize = 0;
    while i < pairs.len()
        invariant
            i <= pairs.len(),
            out@ == pair_lines(pairs@.take(i as int)),
        decreases pairs.len() - i,
    {
        let mut line = "  ".to_owned();
        line.append(pairs[i].first.as_str());
        line.append(" + ");
        line.append(pairs[i].second.as_str());
        line.append(": immediate=");
        line.append(show_bool(pairs[i].spends_immediately));
        line.append(" after_timelock=");
        line.append(show_bool(pairs[i].spends_after_timelock));
        line.append("\n");
        out.append(line.as_str());
        assert(pairs@.take(i + 1).drop_last() =~= pairs@.take(i as int));
        i = i + 1;
    }
    assert(pairs@.take(i as int) =~= pairs@);
    out
}

/// A report as it is printed.
pub open spec fn report_text(report: InvariantReport, timelock_blocks: u16) -> Seq<char> {
    "\n== Invariant report (timelock = "@ + decimal(timelock_blocks as nat)
        + " blocks) ==\nkeys: "@ + joined(report.key_labels.deep_view(), ", "@)
        + "\nno single key can spend (alone, or alone after waiting): "@ + pass_text(
        report.no_single_key_can_spend,
    ) + "\n"@ + pair_lines(report.pairs@)
        + "exactly one 2-key path spends immediately (HOT): "@ + pass_text(
        report.exactly_one_immediate_path,
    ) + "\nat least one 2-key path spends after the timelock (RECOVERY): "@ + pass_text(
        report.at_least_one_timelocked_path,
    ) + "\nrecovery path is blocked exactly one block before the timelock: "@ + pass_text(
        report.timelock_boundary_holds,
    ) + "\nlosing any ONE key is survivable (every pair can eventually spend): "@ + pass_text(
        report.every_pair_can_eventually_spend,
    ) + "\nALL INVARIANTS HOLD: "@ + pass_text(report.all_hold()) + "\n"@
}

/// Writes a report out for an operator.
pub fn show_report(report: &InvariantReport, timelock_blocks: u16) -> (r: String)
    ensures
        r@ == report_text(*report, timelock_blocks),
{
    let mut out = "\n== Invariant report (timelock = ".to_owned();
    push_decimal(&mut out, timelock_blocks as u64);
    out.append(" blocks) ==\nkeys: ");
    out.append(join(&report.key_labels, ", ").as_str());
    out.append("\nno single key can spend (alone, or alone after waiting): ");
    out.append(pass(report.no_single_key_can_spend));
    out.append("\n");
    out.append(show_pairs(&report.pairs).as_str());
    out.append("exactly one 2-key path spends immediately (HOT): ");
    out.append(pass(report.exactly_one_immediate_path));
    out.append("\nat least one 2-key path spends after the timelock (RECOVERY): ");
    out.append(pass(report.at_least_one_timelocked_path));
    out.append("\nrecovery path is blocked exactly one block before the timelock: ");
    out.append(pass(report.timelock_boundary_holds));
    out.append("\nlosing any ONE key is survivable (every pair can eventually spend): ");
    out.append(pass(report.every_pair_can_eventually_spend));
    out.append("\nALL INVARIANTS HOLD: ");
    out.append(pass(report.all_invariants_hold()));
    out.append("\n");
    out
}

/// A key spends alone exactly where one of the keys satisfies the descriptor by itself, at once or after
/// the timelock.
pub proof fn law_no_key_spends_alone_where_none_satisfies_the_descriptor(
    desc: Seq<char>,
    index: u32,
    keys: Seq<LabeledKey>,
    timelock: u16,
    n: int,
)
    requires
        0 <= n <= keys.len(),
    ensures
        some_key_spends(desc, index, keys, timelock, n) <==> exists|i: int|
            0 <= i < n && (satisfaction(desc, index, seq![(#[trigger] keys[i]).key@], 0) == Some(
                true,
            ) || satisfaction(desc, index, seq![keys[i].key@], timelock) == Some(true)),
    decreases n,
{
    if n > 0 {
        law_no_key_spends_alone_where_none_satisfies_the_descriptor(
            desc,
            index,
            keys,
            timelock,
            n - 1,
        );
        if satisfiable(desc, index, seq![keys[n - 1].key@], 0) || satisfiable(
            desc,
            index,
            seq![keys[n - 1].key@],
            timelock,
        ) {
            assert(keys[n - 1].key@ == keys[n - 1].key@);
        }
    }
}

/// Each pair that spends at once is counted, and no other.
pub proof fn law_each_immediate_pair_is_counted(pairs: Seq<PairReport>, p: PairReport)
    ensures
        immediate_pairs(Seq::empty()) == 0,
        immediate_pairs(pairs.push(p)) == immediate_pairs(pairs) + if p.spends_immediately {
            1nat
        } else {
            0nat
        },
{
    assert(pairs.push(p).drop_last() =~= pairs);
}

/// A report holds exactly where no key spends alone, one pair spends at once, some pair has to wait, none
/// that has to wait spends a block early, and every pair spends in the end.
pub proof fn law_the_wallet_is_sound_where_every_invariant_holds(r: InvariantReport)
    requires
        concludes(r),
    ensures
        r.all_hold() <==> {
            &&& r.no_single_key_can_spend
            &&& immediate_pairs(r.pairs@) == 1
            &&& exists|k: int|
                0 <= k < r.pairs@.len() && (#[trigger] r.pairs@[k]).spends_after_timelock
                    && !r.pairs@[k].spends_immediately
            &&& forall|k: int|
                0 <= k < r.pairs@.len() ==> ((#[trigger] r.pairs@[k]).spends_immediately
                    || r.pairs@[k].spends_after_timelock && !r.pairs@[k].spends_one_block_early)
        },
{
    if exists|k: int|
        0 <= k < r.pairs@.len() && (#[trigger] r.pairs@[k]).spends_after_timelock
            && !r.pairs@[k].spends_immediately {
        let k = choose|k: int|
            0 <= k < r.pairs@.len() && (#[trigger] r.pairs@[k]).spends_after_timelock
                && !r.pairs@[k].spends_immediately;
        assert(has_to_wait(r.pairs@[k]));
    }
    if r.at_least_one_timelocked_path {
        let k = choose|k: int| 0 <= k < r.pairs@.len() && has_to_wait(#[trigger] r.pairs@[k]);
        assert(r.pairs@[k].spends_after_timelock);
    }
}

/// Every two keys are tried together, once: at once, after the timelock, and a block before it.
pub proof fn law_every_two_keys_are_tried_together(
    desc: Seq<char>,
    index: u32,
    keys: Seq<LabeledKey>,
    timelock: u16,
    pairs: Seq<PairReport>,
    i: int,
    j: int,
)
    requires
        are_pairs(desc, index, keys, timelock, pairs),
        0 <= i < j < keys.len(),
    ensures
        2 * pairs.len() == keys.len() * (keys.len() - 1),
        exists|k: int|
            0 <= k < pairs.len() && {
                let p = #[trigger] pairs[k];
                let both = seq![keys[i].key@, keys[j].key@];
                &&& p.first@ == keys[i].label@
                &&& p.second@ == keys[j].label@
                &&& p.spends_immediately == (satisfaction(desc, index, both, 0) == Some(true))
                &&& p.spends_after_timelock == (satisfaction(desc, index, both, timelock) == Some(
                    true,
                ))
                &&& timelock > 0 ==> p.spends_one_block_early == (satisfaction(
                    desc,
                    index,
                    both,
                    (timelock - 1) as u16,
                ) == Some(true))
            },
{
    let k = pair_place(i, j);
    lemma_triangle_is_half(keys.len() as int);
    lemma_triangle_is_half(j);
    lemma_triangle_grows(j + 1, keys.len() as int);
    assert(triangle(j + 1) == triangle(j) + j);
    assert(0 <= k < pairs.len());
    assert(is_pair(desc, index, keys, timelock, i, j, pairs[k]));
}

proof fn lemma_triangle_is_half(n: int)
    requires
        0 <= n,
    ensures
        2 * triangle(n) == n * (n - 1),
        triangle(n) >= 0,
    decreases n,
{
    if n > 0 {
        lemma_triangle_is_half(n - 1);
        assert((n - 1) * (n - 1 - 1) + 2 * (n - 1) == n * (n - 1)) by (nonlinear_arith);
    } else {
        assert(n * (n - 1) == 0) by (nonlinear_arith)
            requires
                n == 0,
        ;
    }
}

/// The expressions that are tried are those of the hardware's, the server's and the mobile's key, in this
/// order.
pub proof fn law_each_role_is_tried_by_its_own_expression(
    desc: Seq<char>,
    cfg: WalletConfig,
    index: u32,
)
    ensures
        role_expressions(desc, cfg, index) matches Ok(all) ==> (derived_keys(
            desc,
            index,
        ) matches Some(keys) && {
            &&& all.len() == 3
            &&& role_key(keys, cfg.keys.satochip.xpub) matches Ok(k) && is_expression_of(
                keys,
                k,
                all[0],
            )
            &&& role_key(keys, cfg.keys.server.xpub) matches Ok(k) && is_expression_of(
                keys,
                k,
                all[1],
            )
            &&& role_key(keys, cfg.keys.mobile.xpub) matches Ok(k) && is_expression_of(
                keys,
                k,
                all[2],
            )
        }),
{
    if role_expressions(desc, cfg, index) is Ok {
        let keys = derived_keys(desc, index)->Some_0;
        lemma_expression_of(keys, role_key(keys, cfg.keys.satochip.xpub)->Ok_0, 0);
        lemma_expression_of(keys, role_key(keys, cfg.keys.server.xpub)->Ok_0, 0);
        lemma_expression_of(keys, role_key(keys, cfg.keys.mobile.xpub)->Ok_0, 0);
    }
}

/// Whether a key of the list has this expression and this public key.
pub open spec fn is_expression_of(
    keys: Seq<(Seq<char>, Seq<u8>)>,
    public_key: Seq<u8>,
    expression: Seq<char>,
) -> bool {
    exists|i: int|
        0 <= i < keys.len() && (#[trigger] keys[i]).1 == public_key && keys[i].0 == expression
}

proof fn lemma_expression_of(keys: Seq<(Seq<char>, Seq<u8>)>, public_key: Seq<u8>, n: int)
    requires
        0 <= n,
    ensures
        expression_of(keys, public_key, n) matches Some(e) ==> is_expression_of(
            keys,
            public_key,
            e,
        ),
    decreases keys.len() - n,
{
    if n < keys.len() {
        if keys[n].1 == public_key {
            assert(keys[n].0 == keys[n].0);
        } else {
            lemma_expression_of(keys, public_key, n + 1);
        }
    }
}

/// A report says of each invariant whether it holds, and of each pair when it spends.
pub proof fn law_a_report_says_what_holds(report: InvariantReport, timelock_blocks: u16)
    ensures
        ({
            let text = report_text(report, timelock_blocks);
            let word = |b: bool|
                if b {
                    "PASS"@
                } else {
                    "FAIL"@
                };
            &&& occurs(text, "\nALL INVARIANTS HOLD: "@ + word(report.all_hold()))
            &&& occurs(text, pair_lines(report.pairs@))
            &&& occurs(text, joined(report.key_labels.deep_view(), ", "@))
        }),
{
    broadcast use crate::text::lemma_occurs_before;
    broadcast use crate::text::lemma_occurs_behind;

    let labels = joined(report.key_labels.deep_view(), ", "@);
    let pairs = pair_lines(report.pairs@);
    let a = "\n== Invariant report (timelock = "@ + decimal(timelock_blocks as nat)
        + " blocks) ==\nkeys: "@ + labels
        + "\nno single key can spend (alone, or alone after waiting): "@ + pass_text(
        report.no_single_key_can_spend,
    ) + "\n"@ + pairs;
    let b = a + "exactly one 2-key path spends immediately (HOT): "@ + pass_text(
        report.exactly_one_immediate_path,
    ) + "\nat least one 2-key path spends after the timelock (RECOVERY): "@ + pass_text(
        report.at_least_one_timelocked_path,
    ) + "\nrecovery path is blocked exactly one block before the timelock: "@ + pass_text(
        report.timelock_boundary_holds,
    ) + "\nlosing any ONE key is survivable (every pair can eventually spend): "@ + pass_text(
        report.every_pair_can_eventually_spend,
    );
    let verdict = pass_text(report.all_hold());
    assert(report_text(report, timelock_blocks) == b + "\nALL INVARIANTS HOLD: "@ + verdict
        + "\n"@);
    lemma_occurs_at_the_end(b, "\nALL INVARIANTS HOLD: "@, verdict);
    lemma_occurs_in_itself(pairs);
    lemma_occurs_in_itself(labels);
}

/// Each pair has its line, with the names of both keys.
pub proof fn law_each_pair_has_its_line(pairs: Seq<PairReport>, p: PairReport)
    ensures
        pair_lines(pairs.push(p)) == pair_lines(pairs) + ("  "@ + p.first@ + " + "@ + p.second@
            + ": immediate="@ + (if p.spends_immediately {
            "true"@
        } else {
            "false"@
        }) + " after_timelock="@ + (if p.spends_after_timelock {
            "true"@
        } else {
            "false"@
        }) + "\n"@),
{
    assert(pairs.push(p).drop_last() =~= pairs);
}

} // verus!
