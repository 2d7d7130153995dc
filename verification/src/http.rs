//! What the service answers to each request.
//!
//! A route that only ever stops something from happening asks for no token: it has to work in a
//! hurry, from any device, and the worst it can do is deny service. A route that uses something up
//! does.

use vstd::prelude::*;
use vstd::string::*;

use crate::config::WalletConfig;
use crate::descriptor::Chain;
use crate::inspect::{
    inspect_error_code, inspect_error_text, InputReport, InspectError, InspectionReport,
    OutputKind, OutputReport, SpendingPath,
};
use crate::ledger::{
    changed, pending_of, released, settled, status_name, Ledger, PendingEntry, PendingStatus,
    PolicyState, Tables,
};
use crate::policy::{CompiledPolicy, FeeRate, PolicyConfig};
use crate::policy_auth::{
    authorize_policy_change, authorizes, change_error, change_error_text, commit_policy_change,
    explain_change, explain_unfreeze, has_next_version, unfreeze, unfreeze_error_text, version_error,
    unfreeze_message, HardwareAuthKeys, PolicyAuthError, PolicyChangeRequest,
};
use crate::psbt::{explain_psbt, psbt_complaint};
use crate::recovery_contacts::{
    approval_error_text, approve_release, release_error, voters, ApprovalError, Quorum,
};
use crate::sign::{
    denial_message, violation_texts, LedgerOutcome, SignPsbtError, SignPsbtResult, SubmitError,
    SubmitOutcome,
};
use crate::signing::{signing_error_text, SigningError};
use crate::text::{decimal, has_prefix, joined, push_decimal, starts_with};
use crate::wizard::{network_str, network_word};

verus! {

/// The routes of the service.
#[derive(Clone, Copy, Debug, PartialEq, Eq, Structural)]
pub enum Route {
    StatusPage,
    Health,
    Inspect,
    SignPsbt,
    SignPsbtStatus,
    Veto,
    GetPolicy,
    PostPolicy,
    GetFreeze,
    PostFreeze,
    Unfreeze,
    RecoveryApprove,
}

/// Whether a route asks for the token.
pub open spec fn needs_token(route: Route) -> bool {
    route == Route::Inspect || route == Route::SignPsbt
}

/// A refusal.
#[derive(Clone, Debug)]
pub struct ApiError {
    pub status: u16,
    /// A name that does not change, for machines.
    pub error: &'static str,
    /// What a person is told.
    pub message: String,
}

impl ApiError {
    /// Whether this refusal has the given status, name and text.
    pub open spec fn says(self, status: u16, error: Seq<char>, message: Seq<char>) -> bool {
        &&& self.status == status
        &&& self.error@ == error
        &&& self.message@ == message
    }
}

/// Whether two byte strings are equal. How long it takes does not depend on where they differ.
pub fn constant_time_eq(a: &[u8], b: &[u8]) -> (r: bool)
    ensures
        r == (a@ == b@),
{
    if a.len() != b.len() {
        return false;
    }
    let n: usize = a.len();
    let mut acc: u8 = 0;
    let mut i: usize = 0;
    while i < n
        invariant
            i <= n,
            n == a@.len(),
            n == b@.len(),
            (acc == 0) == (forall|j: int| 0 <= j < i ==> a@[j] == b@[j]),
        decreases n - i,
    {
        let x: u8 = a[i];
        let y: u8 = b[i];
        let next: u8 = acc | (x ^ y);
        assert((next == 0) == (acc == 0 && x == y)) by (bit_vector)
            requires
                next == acc | (x ^ y),
        ;
        acc = next;
        i = i + 1;
    }
    proof {
        if acc == 0 {
            assert(a@ =~= b@);
        }
    }
    acc == 0
}

/// The token in the value of an `Authorization` header: empty where there is none.
pub open spec fn presented_token(header: Option<&str>) -> Seq<char> {
    match header {
        Some(v) => if has_prefix(v@, "Bearer "@) {
            v@.skip("Bearer "@.len() as int)
        } else {
            Seq::empty()
        },
        None => Seq::empty(),
    }
}

fn token_of<'a>(header: Option<&'a str>) -> (r: &'a str)
    ensures
        r@ == presented_token(header),
{
    match header {
        Some(v) => if starts_with(v, "Bearer ") {
            let k: usize = "Bearer ".unicode_len();
            let n: usize = v.unicode_len();
            assert(v@.subrange(k as int, n as int) =~= v@.skip(k as int));
            v.substring_char(k, n)
        } else {
            proof {
                reveal_strlit("");
            }
            assert(""@ =~= Seq::<char>::empty());
            ""
        },
        None => {
            proof {
                reveal_strlit("");
            }
            assert(""@ =~= Seq::<char>::empty());
            ""
        },
    }
}

/// What is said to a request without the token.
pub const NO_TOKEN: &'static str =
    "this endpoint requires an Authorization: Bearer <token> header";

/// Whether a request may go on to its route, by the token that is configured and the one that is
/// presented.
pub open spec fn may_pass(
    route: Route,
    expected: Option<String>,
    header: Option<&str>,
) -> bool {
    needs_token(route) ==> match expected {
        Some(token) => presented_token(header) == token@,
        None => true,
    }
}

/// Lets a request through to its route, or turns it away.
pub fn require_token(route: Route, expected: &Option<String>, header: Option<&str>) -> (r: Result<
    (),
    ApiError,
>)
    ensures
        match r {
            Ok(_) => may_pass(route, *expected, header),
            Err(e) => !may_pass(route, *expected, header) && e.says(
                401,
                "unauthorized"@,
                NO_TOKEN@,
            ),
        },
{
    if route != Route::Inspect && route != Route::SignPsbt {
        return Ok(());
    }
    let expected = match expected {
        Some(token) => token.as_str(),
        None => {
            return Ok(());
        },
    };
    let presented = token_of(header);
    proof {
        vstd::utf8::encode_utf8_decode_utf8(presented@);
        vstd::utf8::encode_utf8_decode_utf8(expected@);
    }
    if constant_time_eq(presented.as_bytes(), expected.as_bytes()) {
        Ok(())
    } else {
        Err(ApiError { status: 401, error: "unauthorized", message: NO_TOKEN.to_owned() })
    }
}

/// Whatever token is configured and whatever is presented, nobody is turned away from stopping
/// something: not from freezing, nor from a veto.
pub proof fn law_stopping_needs_no_token(expected: Option<String>, header: Option<&str>)
    ensures
        may_pass(Route::PostFreeze, expected, header),
        may_pass(Route::Veto, expected, header),
{
}

/// Where no token is configured, every request goes through.
pub proof fn law_no_token_means_no_check(route: Route, header: Option<&str>)
    ensures
        may_pass(route, None, header),
{
}

/// The status of an inspection that failed.
pub open spec fn inspect_status(e: InspectError) -> u16 {
    match e {
        InspectError::InvalidTransaction(_) => 400,
        InspectError::Chain(_) => 502,
        _ => 422,
    }
}

/// The status of a signature that failed.
pub open spec fn signing_status(e: SigningError) -> u16 {
    match e {
        SigningError::UnsupportedSighashType { .. } | SigningError::Sighash { .. } => 400,
        _ => 500,
    }
}

/// The status of a change that is not authorized.
pub open spec fn auth_status(e: PolicyAuthError) -> u16 {
    match e {
        PolicyAuthError::VersionMismatch { .. } => 409,
        PolicyAuthError::InvalidPolicy(_) => 422,
        PolicyAuthError::MalformedSignature => 400,
        PolicyAuthError::UnauthorizedSigner => 403,
        PolicyAuthError::Unseeded => 500,
    }
}

/// The name of a change that is not authorized.
pub open spec fn auth_code(e: PolicyAuthError) -> Seq<char> {
    match e {
        PolicyAuthError::VersionMismatch { .. } => "version_mismatch"@,
        PolicyAuthError::InvalidPolicy(_) => "invalid_policy"@,
        PolicyAuthError::MalformedSignature => "malformed_signature"@,
        PolicyAuthError::UnauthorizedSigner => "unauthorized_signer"@,
        PolicyAuthError::Unseeded => "internal"@,
    }
}

/// The status of a release that is refused.
pub open spec fn approval_status(e: ApprovalError) -> u16 {
    match e {
        ApprovalError::NotConfigured => 501,
        ApprovalError::NotPending => 404,
        ApprovalError::Malformed { .. } | ApprovalError::WrongMessage { .. } => 400,
        ApprovalError::ShortOfQuorum { .. } => 403,
    }
}

/// The name of a release that is refused.
pub open spec fn approval_code(e: ApprovalError) -> Seq<char> {
    match e {
        ApprovalError::NotConfigured => "recovery_contacts_not_configured"@,
        ApprovalError::NotPending => "not_pending"@,
        ApprovalError::Malformed { .. } | ApprovalError::WrongMessage { .. } => {
            "invalid_approval"@
        },
        ApprovalError::ShortOfQuorum { .. } => "short_of_quorum"@,
    }
}

/// The status of a spend that is not taken up.
pub open spec fn submit_status(e: SubmitError) -> u16 {
    match e {
        SubmitError::NotHotPath | SubmitError::Denied(_) => 422,
        SubmitError::Frozen => 503,
        SubmitError::Vetoed | SubmitError::PreviouslyDenied(_) | SubmitError::PreviouslyFailed(_)
        => 409,
        SubmitError::NotifyFailed(_) => 502,
        SubmitError::Signing(x) => signing_status(x),
        SubmitError::HoldTooLong => 500,
    }
}

/// The name of a spend that is not taken up.
pub open spec fn submit_code(e: SubmitError) -> Seq<char> {
    match e {
        SubmitError::NotHotPath => "not_hot_path"@,
        SubmitError::Frozen => "frozen"@,
        SubmitError::Denied(_) => "policy_denied"@,
        SubmitError::Vetoed => "vetoed"@,
        SubmitError::PreviouslyDenied(_) => "previously_denied"@,
        SubmitError::PreviouslyFailed(_) => "previously_failed"@,
        SubmitError::NotifyFailed(_) => "notify_failed"@,
        SubmitError::Signing(_) => "signing_failed"@,
        SubmitError::HoldTooLong => "internal"@,
    }
}

/// What a person is told of a spend that is not on the hot path.
pub const NOT_HOT_PATH: &'static str =
    "PSBT does not use the HOT spending path (SATOCHIP+SERVER, immediately) - this service only ever countersigns that path";

/// What a person is told of a spend that is not taken up. The two rates are texts with two
/// decimals.
pub open spec fn submit_text(e: SubmitError, rate: Seq<char>, max_rate: Seq<char>) -> Seq<char> {
    match e {
        SubmitError::NotHotPath => NOT_HOT_PATH@,
        SubmitError::Frozen => "co-signing is frozen"@,
        SubmitError::Denied(v) => joined(violation_texts(v@, rate, max_rate), "; "@),
        SubmitError::Vetoed => "this spend was vetoed"@,
        SubmitError::PreviouslyDenied(m) => m@,
        SubmitError::PreviouslyFailed(m) => m@,
        SubmitError::NotifyFailed(m) => m@,
        SubmitError::Signing(x) => signing_error_text(x),
        SubmitError::HoldTooLong => "the hold ends too late"@,
    }
}

fn status_of_signing(e: &SigningError) -> (r: u16)
    ensures
        r == signing_status(*e),
{
    match e {
        SigningError::UnsupportedSighashType { .. } | SigningError::Sighash { .. } => 400,
        _ => 500,
    }
}

impl ApiError {
    /// The refusal of a text that is no partially signed transaction.
    pub fn invalid_psbt(text: &str) -> (r: ApiError)
        ensures
            r.says(400, "invalid_psbt"@, psbt_complaint(text@)),
    {
        ApiError { status: 400, error: "invalid_psbt", message: explain_psbt(text) }
    }

    /// The refusal of something that went wrong inside the service.
    pub fn internal(message: String) -> (r: ApiError)
        ensures
            r.says(500, "internal"@, message@),
    {
        ApiError { status: 500, error: "internal", message }
    }

    /// The refusal of an inspection that failed.
    pub fn from_inspect(e: &InspectError) -> (r: ApiError)
        ensures
            r.says(inspect_status(*e), inspect_error_code(*e), inspect_error_text(*e)),
    {
        let status: u16 = match e {
            InspectError::InvalidTransaction(_) => 400,
            InspectError::Chain(_) => 502,
            _ => 422,
        };
        ApiError { status, error: e.code(), message: e.message() }
    }

    /// The refusal of a signature that failed.
    pub fn from_signing(e: &SigningError) -> (r: ApiError)
        ensures
            r.says(signing_status(*e), "signing_failed"@, signing_error_text(*e)),
    {
        ApiError { status: status_of_signing(e), error: "signing_failed", message: e.message() }
    }

    /// The refusal to sign a transaction. The two rates are texts with two decimals.
    pub fn from_sign(e: &SignPsbtError, rate: &str, max_rate: &str) -> (r: ApiError)
        ensures
            match *e {
                SignPsbtError::NotHotPath => r.says(422, "not_hot_path"@, NOT_HOT_PATH@),
                SignPsbtError::Signing(x) => r.says(
                    signing_status(x),
                    "signing_failed"@,
                    signing_error_text(x),
                ),
                SignPsbtError::Denied(v) => r.says(
                    422,
                    "policy_denied"@,
                    joined(violation_texts(v@, rate@, max_rate@), "; "@),
                ),
            },
    {
        match e {
            SignPsbtError::NotHotPath => ApiError {
                status: 422,
                error: "not_hot_path",
                message: NOT_HOT_PATH.to_owned(),
            },
            SignPsbtError::Signing(x) => ApiError::from_signing(x),
            SignPsbtError::Denied(v) => ApiError {
                status: 422,
                error: "policy_denied",
                message: denial_message(v, rate, max_rate),
            },
        }
    }

    /// The refusal of a spend that is not taken up. The two rates are texts with two decimals.
    pub fn from_submit(e: &SubmitError, rate: &str, max_rate: &str) -> (r: ApiError)
        ensures
            r.says(submit_status(*e), submit_code(*e), submit_text(*e, rate@, max_rate@)),
    {
        match e {
            SubmitError::NotHotPath => ApiError {
                status: 422,
                error: "not_hot_path",
                message: NOT_HOT_PATH.to_owned(),
            },
            SubmitError::Frozen => ApiError {
                status: 503,
                error: "frozen",
                message: "co-signing is frozen".to_owned(),
            },
            SubmitError::Denied(v) => ApiError {
                status: 422,
                error: "policy_denied",
                message: denial_message(v, rate, max_rate),
            },
            SubmitError::Vetoed => ApiError {
                status: 409,
                error: "vetoed",
                message: "this spend was vetoed".to_owned(),
            },
            SubmitError::PreviouslyDenied(m) => ApiError {
                status: 409,
                error: "previously_denied",
                message: m.as_str().to_owned(),
            },
            SubmitError::PreviouslyFailed(m) => ApiError {
                status: 409,
                error: "previously_failed",
                message: m.as_str().to_owned(),
            },
            SubmitError::NotifyFailed(m) => ApiError {
                status: 502,
                error: "notify_failed",
                message: m.as_str().to_owned(),
            },
            SubmitError::Signing(x) => ApiError::from_signing(x),
            SubmitError::HoldTooLong => ApiError {
                status: 500,
                error: "internal",
                message: "the hold ends too late".to_owned(),
            },
        }
    }

    /// The refusal of a change that is not authorized, of which this is said.
    pub fn from_auth(e: PolicyAuthError, message: String) -> (r: ApiError)
        ensures
            r.says(auth_status(e), auth_code(e), message@),
    {
        let (status, error): (u16, &'static str) = match e {
            PolicyAuthError::VersionMismatch { .. } => (409, "version_mismatch"),
            PolicyAuthError::InvalidPolicy(_) => (422, "invalid_policy"),
            PolicyAuthError::MalformedSignature => (400, "malformed_signature"),
            PolicyAuthError::UnauthorizedSigner => (403, "unauthorized_signer"),
            PolicyAuthError::Unseeded => (500, "internal"),
        };
        ApiError { status, error, message }
    }

    /// The refusal of a release of the spend `id`.
    pub fn from_approval(e: ApprovalError, id: &str, approvals: &Vec<String>) -> (r: ApiError)
        ensures
            r.says(
                approval_status(e),
                approval_code(e),
                approval_error_text(e, id@, approvals.deep_view()),
            ),
    {
        let (status, error): (u16, &'static str) = match e {
            ApprovalError::NotConfigured => (501, "recovery_contacts_not_configured"),
            ApprovalError::NotPending => (404, "not_pending"),
            ApprovalError::Malformed { .. } | ApprovalError::WrongMessage { .. } => {
                (400, "invalid_approval")
            },
            ApprovalError::ShortOfQuorum { .. } => (403, "short_of_quorum"),
        };
        ApiError { status, error, message: e.message(id, approvals) }
    }
}

/// What the service says of itself.
#[derive(Clone, Debug)]
pub struct HealthResponse {
    pub service: &'static str,
    pub network: &'static str,
    pub policy_version: u64,
}

/// What the service says of itself: which network it is on, and which policy is in force.
pub fn health(cfg: &WalletConfig, policy_version: u64) -> (r: HealthResponse)
    ensures
        r.service@ == "cosigner"@,
        r.network@ == network_word(cfg.network),
        r.policy_version == policy_version,
{
    HealthResponse { service: "cosigner", network: network_str(cfg.network), policy_version }
}

/// The state of a spend, as it is answered.
#[derive(Clone, Debug)]
pub struct PendingStatusResponse {
    pub id: String,
    pub status: &'static str,
    /// When the spend will be signed, while it waits.
    pub hold_until: Option<i64>,
    /// The signed transaction, once there is one.
    pub psbt: Option<String>,
    /// Why the spend was refused or has failed.
    pub message: Option<String>,
}

/// The status that a spend is answered with.
pub open spec fn pending_http_status(status: PendingStatus) -> u16 {
    match status {
        PendingStatus::Pending => 202,
        PendingStatus::Signed => 200,
        PendingStatus::Vetoed => 409,
        PendingStatus::Denied => 422,
        PendingStatus::Failed => 500,
    }
}

/// Answers how a spend stands.
pub fn get_sign_psbt(ledger: &Ledger, id: &str) -> (r: Result<
    (u16, PendingStatusResponse),
    ApiError,
>)
    ensures
        shows_pending(ledger@, id@, r),
{
    match ledger.get_pending(id) {
        None => {
            let mut message = "no signing request with id ".to_owned();
            message.append(id);
            Err(ApiError { status: 404, error: "not_found", message })
        },
        Some(row) => {
            let status: u16 = match row.status {
                PendingStatus::Pending => 202,
                PendingStatus::Signed => 200,
                PendingStatus::Vetoed => 409,
                PendingStatus::Denied => 422,
                PendingStatus::Failed => 500,
            };
            let hold_until: Option<i64> = if row.status == PendingStatus::Pending {
                Some(row.hold_until)
            } else {
                None
            };
            Ok(
                (
                    status,
                    PendingStatusResponse {
                        id: row.txid,
                        status: row.status.as_str(),
                        hold_until,
                        psbt: row.signed_psbt_base64,
                        message: row.message,
                    },
                ),
            )
        },
    }
}

/// The answer to a veto.
#[derive(Clone, Debug)]
pub struct VetoResponse {
    pub id: String,
    pub status: &'static str,
}

/// Whether `r` and `after` are what a veto is answered with.
pub open spec fn answers_veto(
    before: Tables,
    id: Seq<char>,
    r: Result<VetoResponse, ApiError>,
    after: Tables,
) -> bool {
    match pending_of(before.pending, id) {
        None => after == before && (r matches Err(e) && e.says(
            404,
            "not_found"@,
            "no pending signing request with id "@ + id,
        )),
        Some(entry) => match entry.row.status {
            PendingStatus::Pending => {
                &&& r matches Ok(v) && v.id@ == id && v.status@ == status_name(
                    PendingStatus::Vetoed,
                )
                &&& after == (Tables {
                    pending: changed(
                        before.pending,
                        id,
                        |e: PendingEntry| settled(e, PendingStatus::Vetoed, None, None),
                    ),
                    ..before
                })
            },
            PendingStatus::Signed => after == before && (r matches Err(e)
                && e.says(
                409,
                "already_signed"@,
                "too late to veto - this spend was already signed"@,
            )),
            _ => after == before && (r matches Ok(v) && v.id@ == id
                && v.status@ == status_name(entry.row.status)),
        },
    }
}

/// Stops a spend that waits. One that was stopped, refused or has failed is answered with that;
/// one that was signed cannot be stopped any more.
pub fn veto(ledger: &mut Ledger, id: &str) -> (r: Result<VetoResponse, ApiError>)
    requires
        old(ledger).wf(),
    ensures
        final(ledger).wf(),
        answers_veto(old(ledger)@, id@, r, final(ledger)@),
{
    match ledger.veto_pending(id) {
        None => {
            let mut message = "no pending signing request with id ".to_owned();
            message.append(id);
            Err(ApiError { status: 404, error: "not_found", message })
        },
        Some(status) => {
            if status == PendingStatus::Signed {
                return Err(
                    ApiError {
                        status: 409,
                        error: "already_signed",
                        message: "too late to veto - this spend was already signed".to_owned(),
                    },
                );
            }
            Ok(VetoResponse { id: id.to_owned(), status: status.as_str() })
        },
    }
}

/// The freeze, as it is answered.
#[derive(Clone, Copy, Debug, PartialEq, Eq, Structural)]
pub struct FreezeResponse {
    pub frozen: bool,
    /// How often the wallet was frozen: what a message that lifts the freeze has to name.
    pub generation: u64,
}

/// Answers whether the wallet is frozen.
pub fn get_freeze(ledger: &Ledger) -> (r: FreezeResponse)
    ensures
        r.frozen == ledger@.is_frozen(),
        r.generation == ledger@.generation(),
{
    FreezeResponse { frozen: ledger.is_frozen(), generation: ledger.freeze_generation() }
}

/// Freezes the wallet. Anyone may.
pub fn post_freeze(ledger: &mut Ledger, reason: Option<&str>, now: i64) -> (r: FreezeResponse)
    requires
        old(ledger).wf(),
        old(ledger)@.generation() < u64::MAX,
    ensures
        final(ledger).wf(),
        final(ledger)@ == (Tables { freeze: final(ledger)@.freeze, ..old(ledger)@ }),
        final(ledger)@.is_frozen(),
        final(ledger)@.freeze matches Some(f) && f.changed_at == now && (f.reason is Some) == (
        reason is Some) && (f.reason matches Some(t) ==> t@ == reason->Some_0@),
        r.frozen,
        r.generation == final(ledger)@.generation(),
        r.generation == old(ledger)@.generation() + 1,
{
    ledger.set_frozen(true, now, reason);
    let generation: u64 = ledger.freeze_generation();
    FreezeResponse { frozen: true, generation }
}

/// Whether `r` and `after` are what asking to lift the freeze is answered with.
pub open spec fn answers_unfreeze(
    before: Tables,
    keys: Set<Seq<u8>>,
    signature_base64: Seq<char>,
    now: i64,
    r: Result<FreezeResponse, ApiError>,
    after: Tables,
) -> bool {
    let refusal = authorizes(
        keys,
        unfreeze_message(before.generation() as nat),
        signature_base64,
    );
    match r {
        Ok(f) => {
            &&& refusal is None
            &&& !after.is_frozen()
            &&& after.generation() == before.generation()
            &&& after == (Tables { freeze: after.freeze, ..before })
            &&& (after.freeze is Some) == (before.freeze is Some)
            &&& after.freeze matches Some(x) ==> x.changed_at == now && x.reason
                is None
            &&& !f.frozen
            &&& f.generation == before.generation()
        },
        Err(e) => {
            &&& refusal matches Some(x) && e.says(
                auth_status(x),
                auth_code(x),
                unfreeze_error_text(
                    x,
                    before.generation() as nat,
                    signature_base64,
                ),
            )
            &&& after == before
        },
    }
}

/// Lifts the freeze, on a message that the hardware key has signed for this very freeze.
pub fn post_unfreeze(
    ledger: &mut Ledger,
    auth_keys: &HardwareAuthKeys,
    signature_base64: &str,
    now: i64,
) -> (r: Result<FreezeResponse, ApiError>)
    requires
        old(ledger).wf(),
    ensures
        final(ledger).wf(),
        answers_unfreeze(old(ledger)@, auth_keys.keys(), signature_base64@, now, r, final(ledger)@),
{
    match unfreeze(ledger, auth_keys, signature_base64, now) {
        Ok(generation) => Ok(FreezeResponse { frozen: false, generation }),
        Err(e) => {
            let said = explain_unfreeze(e, ledger.freeze_generation(), signature_base64);
            Err(ApiError::from_auth(e, said))
        },
    }
}

/// A policy with its version, as it is answered.
#[derive(Clone, Debug)]
pub struct PolicyResponse {
    pub version: u64,
    pub policy: PolicyConfig,
}

/// Whether a policy says, in the form that it is configured in, what a compiled one says.
pub open spec fn restates(compiled: CompiledPolicy, policy: PolicyConfig) -> bool {
    &&& policy.max_tx_sat == compiled.max_tx_sat
    &&& policy.max_daily_sat == compiled.max_daily_sat
    &&& policy.max_weekly_sat == compiled.max_weekly_sat
    &&& policy.max_monthly_sat == compiled.max_monthly_sat
    &&& policy.max_fee_sat == compiled.max_fee_sat
    &&& policy.max_fee_rate_sat_per_vb == compiled.max_fee_rate_sat_per_vb
    &&& match (compiled.destination_whitelist, policy.destination_whitelist) {
        (None, None) => true,
        (Some(a), Some(b)) => a.deep_view() == b.deep_view(),
        _ => false,
    }
}

fn copy_texts(all: &Vec<String>) -> (r: Vec<String>)
    ensures
        r.deep_view() == all.deep_view(),
{
    let mut out: Vec<String> = Vec::new();
    let mut i: usize = 0;
    while i < all.len()
        invariant
            i <= all.len(),
            out.deep_view() == all.deep_view().take(i as int),
        decreases all.len() - i,
    {
        let ghost before = out.deep_view();
        out.push(all[i].clone());
        assert(out.deep_view() =~= before.push(all[i as int]@));
        assert(all.deep_view().take(i + 1) =~= all.deep_view().take(i as int).push(
            all.deep_view()[i as int],
        ));
        i = i + 1;
    }
    assert(all.deep_view().take(i as int) =~= all.deep_view());
    out
}

/// States a compiled policy in the form that it is configured in.
pub fn policy_response(version: u64, compiled: &CompiledPolicy) -> (r: PolicyResponse)
    ensures
        r.version == version,
        restates(*compiled, r.policy),
{
    let destination_whitelist = match &compiled.destination_whitelist {
        Some(list) => Some(copy_texts(list)),
        None => None,
    };
    PolicyResponse {
        version,
        policy: PolicyConfig {
            max_tx_sat: compiled.max_tx_sat,
            max_daily_sat: compiled.max_daily_sat,
            max_weekly_sat: compiled.max_weekly_sat,
            max_monthly_sat: compiled.max_monthly_sat,
            max_fee_sat: compiled.max_fee_sat,
            max_fee_rate_sat_per_vb: compiled.max_fee_rate_sat_per_vb,
            destination_whitelist,
        },
    }
}

/// The policy in force.
#[derive(Clone, Debug)]
pub struct PolicyHandle {
    pub version: u64,
    pub compiled: CompiledPolicy,
}

/// Checks a change of the policy against a reading of the one in force. This takes long, so nothing
/// is held meanwhile; [`put_policy`] looks at the version again.
pub fn check_policy(
    current: &Option<PolicyState>,
    cfg: &WalletConfig,
    auth_keys: &HardwareAuthKeys,
    req: &PolicyChangeRequest,
) -> (r: Result<CompiledPolicy, ApiError>)
    requires
        has_next_version(*current),
    ensures
        ({
            let refusal = change_error(*current, *cfg, auth_keys.keys(), *req);
            match r {
                Ok(compiled) => refusal is None && compiled.compiles(req.policy),
                Err(e) => refusal matches Some(x) && e.says(
                    auth_status(x),
                    auth_code(x),
                    change_error_text(x, *req),
                ),
            }
        }),
{
    match authorize_policy_change(current, cfg, auth_keys, req) {
        Ok(compiled) => Ok(compiled),
        Err(e) => Err(ApiError::from_auth(e, explain_change(e, req))),
    }
}

/// Records a change that was checked, if it is still for the version after the one in force, and
/// gives what is to be in force once the ledger is kept. What is refused changes nothing.
pub fn put_policy(
    ledger: &mut Ledger,
    req: PolicyChangeRequest,
    compiled: CompiledPolicy,
    now: i64,
) -> (r: Result<PolicyHandle, ApiError>)
    requires
        old(ledger).wf(),
        has_next_version(old(ledger)@.policy),
        compiled.compiles(req.policy),
    ensures
        final(ledger).wf(),
        ({
            let refusal = version_error(old(ledger)@.policy, req.version);
            match r {
                Ok(p) => {
                    &&& refusal is None
                    &&& p.version == req.version
                    &&& p.compiled == compiled
                    &&& final(ledger)@ == (Tables {
                        policy: Some(
                            PolicyState {
                                version: req.version,
                                policy_json: req.policy_json,
                                updated_at: now,
                            },
                        ),
                        ..old(ledger)@
                    })
                },
                Err(e) => {
                    &&& refusal matches Some(x) && e.says(
                        auth_status(x),
                        auth_code(x),
                        change_error_text(x, req),
                    )
                    &&& final(ledger)@ == old(ledger)@
                },
            }
        }),
{
    let version = req.version;
    let policy_json = req.policy_json.clone();
    match commit_policy_change(ledger, version, policy_json, now) {
        Ok(_) => Ok(PolicyHandle { version, compiled }),
        Err(e) => Err(ApiError::from_auth(e, explain_change(e, &req))),
    }
}

/// Whether `r`, what is in force then and `after` are what a change of the policy is answered with.
pub open spec fn answers_policy(
    before: Tables,
    in_force: PolicyHandle,
    cfg: WalletConfig,
    keys: Set<Seq<u8>>,
    req: PolicyChangeRequest,
    now: i64,
    r: Result<PolicyResponse, ApiError>,
    then_in_force: PolicyHandle,
    after: Tables,
) -> bool {
    let refusal = change_error(before.policy, cfg, keys, req);
    match r {
        Ok(p) => {
            &&& refusal is None
            &&& then_in_force.version == req.version
            &&& then_in_force.compiled.compiles(req.policy)
            &&& p.version == req.version
            &&& restates(then_in_force.compiled, p.policy)
            &&& after == (Tables {
                policy: Some(
                    PolicyState {
                        version: req.version,
                        policy_json: req.policy_json,
                        updated_at: now,
                    },
                ),
                ..before
            })
        },
        Err(e) => {
            &&& refusal matches Some(x) && e.says(
                auth_status(x),
                auth_code(x),
                change_error_text(x, req),
            )
            &&& then_in_force == in_force
            &&& after == before
        },
    }
}

/// Changes the policy, on a message that the hardware key has signed for this very change, and puts
/// it in force at once. A change that is refused leaves the policy in force and the ledger as they
/// were.
pub fn post_policy(
    ledger: &mut Ledger,
    in_force: &mut PolicyHandle,
    cfg: &WalletConfig,
    auth_keys: &HardwareAuthKeys,
    req: PolicyChangeRequest,
    now: i64,
) -> (r: Result<PolicyResponse, ApiError>)
    requires
        old(ledger).wf(),
        has_next_version(old(ledger)@.policy),
    ensures
        final(ledger).wf(),
        answers_policy(
            old(ledger)@,
            *old(in_force),
            *cfg,
            auth_keys.keys(),
            req,
            now,
            r,
            *final(in_force),
            final(ledger)@,
        ),
{
    let current = ledger.get_policy_state();
    let compiled = check_policy(&current, cfg, auth_keys, &req)?;
    let handle = put_policy(ledger, req, compiled, now)?;
    let response = policy_response(handle.version, &handle.compiled);
    *in_force = handle;
    Ok(response)
}

/// The answer to a quorum.
#[derive(Clone, Debug)]
pub struct RecoveryApprovalResponse {
    pub id: String,
    pub approvals: usize,
    pub threshold: usize,
    pub released: bool,
}

/// Ends the wait of a spend on the word of a quorum of contacts. Their signatures are what
/// identifies them.
pub fn recovery_approve(
    ledger: &mut Ledger,
    quorum: &Option<Quorum>,
    id: &str,
    approvals: &Vec<String>,
    now: i64,
) -> (r: Result<RecoveryApprovalResponse, ApiError>)
    requires
        old(ledger).wf(),
    ensures
        final(ledger).wf(),
        answers_approval(old(ledger)@, *quorum, id@, approvals.deep_view(), now, r, final(ledger)@),
{
    match approve_release(ledger, quorum, id, approvals, now) {
        Ok(release) => Ok(
            RecoveryApprovalResponse {
                id: id.to_owned(),
                approvals: release.approvals,
                threshold: release.threshold,
                released: release.released,
            },
        ),
        Err(e) => Err(ApiError::from_approval(e, id, approvals)),
    }
}

/// An input, as it is answered.
#[derive(Clone, Debug)]
pub struct InputJson {
    pub outpoint: String,
    pub amount_sat: u64,
    pub confirmations: u32,
    pub chain: &'static str,
    pub index: u32,
}

/// An output, as it is answered.
#[derive(Clone, Debug)]
pub struct OutputJson {
    pub script_pubkey_hex: String,
    pub address: Option<String>,
    pub amount_sat: u64,
    pub kind: &'static str,
}

/// What a transaction does, as it is answered.
#[derive(Clone, Debug)]
pub struct InspectResponse {
    pub inputs: Vec<InputJson>,
    pub outputs: Vec<OutputJson>,
    pub total_in_sat: u64,
    pub total_out_sat: u64,
    pub fee_sat: u64,
    pub estimated_vsize: u64,
    pub fee_rate_sat_per_vb: FeeRate,
    pub spending_path: &'static str,
}

/// The hexadecimal digit of a number below 16.
pub open spec fn hex_char(d: int) -> char {
    if d < 10 {
        (48 + d) as char
    } else {
        (87 + d) as char
    }
}

/// Bytes in hexadecimal.
pub open spec fn hex_text(bytes: Seq<u8>) -> Seq<char>
    decreases bytes.len(),
{
    if bytes.len() == 0 {
        Seq::empty()
    } else {
        hex_text(bytes.drop_last()).push(hex_char(bytes.last() as int / 16)).push(
            hex_char(bytes.last() as int % 16),
        )
    }
}

fn hex_digit(d: u8) -> (r: char)
    requires
        d < 16,
    ensures
        r == hex_char(d as int),
{
    if d < 10 {
        (48 + d) as char
    } else {
        (87 + d) as char
    }
}

/// Writes bytes in hexadecimal.
pub fn to_hex(bytes: &Vec<u8>) -> (r: String)
    ensures
        r@ == hex_text(bytes@),
{
    let mut out = String::new();
    let mut i: usize = 0;
    while i < bytes.len()
        invariant
            i <= bytes.len(),
            out@ == hex_text(bytes@.take(i as int)),
        decreases bytes.len() - i,
    {
        let b: u8 = bytes[i];
        out.push(hex_digit(b / 16));
        out.push(hex_digit(b % 16));
        assert(bytes@.take(i + 1).drop_last() =~= bytes@.take(i as int));
        i = i + 1;
    }
    assert(bytes@.take(i as int) =~= bytes@);
    out
}

/// Whether an input is answered as it is.
pub open spec fn shows_input(i: InputReport, j: InputJson) -> bool {
    &&& j.outpoint@ == i.outpoint.txid@ + ":"@ + decimal(i.outpoint.vout as nat)
    &&& j.amount_sat == i.amount
    &&& j.confirmations == i.confirmations
    &&& j.chain@ == match i.chain {
        Chain::External => "external"@,
        Chain::Internal => "internal"@,
    }
    &&& j.index == i.index
}

/// Whether an output is answered as it is.
pub open spec fn shows_output(o: OutputReport, j: OutputJson) -> bool {
    &&& j.script_pubkey_hex@ == hex_text(o.script_pubkey@)
    &&& match (o.address, j.address) {
        (None, None) => true,
        (Some(a), Some(b)) => a@ == b@,
        _ => false,
    }
    &&& j.amount_sat == o.amount
    &&& j.kind@ == match o.kind {
        OutputKind::Change => "change"@,
        OutputKind::OwnReceive => "own_receive"@,
        OutputKind::Destination => "destination"@,
    }
}

/// The name of a spending path.
pub open spec fn path_name(path: SpendingPath) -> Seq<char> {
    match path {
        SpendingPath::Hot => "hot"@,
        SpendingPath::Recovery => "recovery"@,
        SpendingPath::Ambiguous => "ambiguous"@,
    }
}

/// Whether a transaction is answered as it is.
pub open spec fn shows_report(r: InspectionReport, j: InspectResponse) -> bool {
    &&& j.inputs@.len() == r.inputs@.len()
    &&& forall|k: int|
        0 <= k < r.inputs@.len() ==> shows_input(#[trigger] r.inputs@[k], j.inputs@[k])
    &&& j.outputs@.len() == r.outputs@.len()
    &&& forall|k: int|
        0 <= k < r.outputs@.len() ==> shows_output(#[trigger] r.outputs@[k], j.outputs@[k])
    &&& j.total_in_sat == r.total_in
    &&& j.total_out_sat == r.total_out
    &&& j.fee_sat == r.fee
    &&& j.estimated_vsize == r.estimated_vsize
    &&& j.fee_rate_sat_per_vb == r.fee_rate_sat_per_vb
    &&& j.spending_path@ == path_name(r.spending_path)
}

fn show_input(i: &InputReport) -> (r: InputJson)
    ensures
        shows_input(*i, r),
{
    let mut outpoint = i.outpoint.txid.as_str().to_owned();
    outpoint.append(":");
    push_decimal(&mut outpoint, i.outpoint.vout as u64);
    InputJson {
        outpoint,
        amount_sat: i.amount,
        confirmations: i.confirmations,
        chain: match i.chain {
            Chain::External => "external",
            Chain::Internal => "internal",
        },
        index: i.index,
    }
}

fn show_output(o: &OutputReport) -> (r: OutputJson)
    ensures
        shows_output(*o, r),
{
    OutputJson {
        script_pubkey_hex: to_hex(&o.script_pubkey),
        address: match &o.address {
            Some(a) => Some(a.as_str().to_owned()),
            None => None,
        },
        amount_sat: o.amount,
        kind: match o.kind {
            OutputKind::Change => "change",
            OutputKind::OwnReceive => "own_receive",
            OutputKind::Destination => "destination",
        },
    }
}

/// What a transaction does, as it is answered.
pub fn show_report(report: &InspectionReport) -> (r: InspectResponse)
    ensures
        shows_report(*report, r),
{
    let mut inputs: Vec<InputJson> = Vec::new();
    let mut i: usize = 0;
    while i < report.inputs.len()
        invariant
            i <= report.inputs.len(),
            inputs@.len() == i,
            forall|k: int| 0 <= k < i ==> shows_input(#[trigger] report.inputs@[k], inputs@[k]),
        decreases report.inputs.len() - i,
    {
        inputs.push(show_input(&report.inputs[i]));
        i = i + 1;
    }
    let mut outputs: Vec<OutputJson> = Vec::new();
    let mut i: usize = 0;
    while i < report.outputs.len()
        invariant
            i <= report.outputs.len(),
            outputs@.len() == i,
            forall|k: int|
                0 <= k < i ==> shows_output(#[trigger] report.outputs@[k], outputs@[k]),
        decreases report.outputs.len() - i,
    {
        outputs.push(show_output(&report.outputs[i]));
        i = i + 1;
    }
    InspectResponse {
        inputs,
        outputs,
        total_in_sat: report.total_in,
        total_out_sat: report.total_out,
        fee_sat: report.fee,
        estimated_vsize: report.estimated_vsize,
        fee_rate_sat_per_vb: report.fee_rate_sat_per_vb,
        spending_path: match report.spending_path {
            SpendingPath::Hot => "hot",
            SpendingPath::Recovery => "recovery",
            SpendingPath::Ambiguous => "ambiguous",
        },
    }
}

/// A signed transaction, as it is answered.
#[derive(Clone, Debug)]
pub struct SignResponse {
    pub psbt: String,
    /// Whether the spend was recorded now or before.
    pub ledger: &'static str,
    pub inspection: InspectResponse,
}

/// A spend in the queue, as it is answered.
#[derive(Clone, Debug)]
pub struct QueuedResponse {
    pub id: String,
    pub status: &'static str,
    pub hold_until: i64,
}

/// The answer to a spend that was asked for.
#[derive(Debug)]
pub enum SubmitReply {
    /// With status 200.
    Signed(SignResponse),
    /// With status 202.
    Queued(QueuedResponse),
}

/// Whether a signed transaction is answered as it is.
pub open spec fn shows_signed(done: SignPsbtResult, s: SignResponse) -> bool {
    &&& s.psbt == done.psbt.text
    &&& s.ledger@ == match done.ledger {
        LedgerOutcome::Recorded => "recorded"@,
        LedgerOutcome::AlreadyRecorded => "already_recorded"@,
    }
    &&& shows_report(done.report, s.inspection)
}

/// The answer to a spend that was taken up.
pub fn submit_reply(outcome: SubmitOutcome) -> (r: SubmitReply)
    ensures
        match (outcome, r) {
            (SubmitOutcome::AlreadySigned(done), SubmitReply::Signed(s)) => shows_signed(done, s),
            (SubmitOutcome::Queued { txid, hold_until, .. }, SubmitReply::Queued(q)) => {
                &&& q.id == txid
                &&& q.status@ == status_name(PendingStatus::Pending)
                &&& q.hold_until == hold_until
            },
            _ => false,
        },
{
    match outcome {
        SubmitOutcome::AlreadySigned(done) => {
            let inspection = show_report(&done.report);
            SubmitReply::Signed(
                SignResponse {
                    psbt: done.psbt.text,
                    ledger: match done.ledger {
                        LedgerOutcome::Recorded => "recorded",
                        LedgerOutcome::AlreadyRecorded => "already_recorded",
                    },
                    inspection,
                },
            )
        },
        SubmitOutcome::Queued { txid, hold_until, .. } => SubmitReply::Queued(
            QueuedResponse { id: txid, status: "pending", hold_until },
        ),
    }
}

/// A guarded route wants the token as it is: with one configured, it is passed exactly by the header that
/// carries the word `Bearer`, a space and the token. Inspecting and signing are guarded.
pub proof fn law_a_guarded_route_is_passed_by_the_token_alone(
    route: Route,
    token: String,
    header: Option<&str>,
)
    requires
        route == Route::Inspect || route == Route::SignPsbt,
        token@.len() > 0,
    ensures
        may_pass(route, Some(token), header) <==> (header matches Some(v) && v@ == "Bearer "@
            + token@),
{
    if header is Some {
        let v = header->Some_0@;
        let p = "Bearer "@;
        if has_prefix(v, p) {
            assert(v =~= p + v.skip(p.len() as int));
            assert((p + token@).skip(p.len() as int) =~= token@);
        } else if v == p + token@ {
            assert(v.take(p.len() as int) =~= p);
        }
    }
}

/// Bytes are written two digits each, the higher half first, in lower case.
pub proof fn law_each_byte_is_two_digits(bytes: Seq<u8>, b: u8)
    ensures
        hex_text(Seq::empty()).len() == 0,
        hex_text(bytes).len() == 2 * bytes.len(),
        ({
            let text = hex_text(bytes.push(b));
            let digits = "0123456789abcdef"@;
            &&& text.take(2 * bytes.len() as int) == hex_text(bytes)
            &&& text[2 * bytes.len() as int] == digits[b as int / 16]
            &&& text[2 * bytes.len() as int + 1] == digits[b as int % 16]
        }),
    decreases bytes.len(),
{
    if bytes.len() > 0 {
        law_each_byte_is_two_digits(bytes.drop_last(), b);
    }
    assert(bytes.push(b).drop_last() =~= bytes);
    let text = hex_text(bytes.push(b));
    assert(text.take(2 * bytes.len() as int) =~= hex_text(bytes));
    reveal_strlit("0123456789abcdef");
}

/// What was wrong with a request is answered as the client's fault, and what was wrong with the node or
/// the service as not: no refusal looks like success.
pub proof fn law_a_refusal_never_looks_like_success(
    i: InspectError,
    s: SigningError,
    p: PolicyAuthError,
    a: ApprovalError,
    e: SubmitError,
)
    ensures
        400 <= inspect_status(i) < 600,
        inspect_status(i) >= 500 <==> i is Chain,
        400 <= signing_status(s) < 600,
        400 <= auth_status(p) < 600,
        auth_status(p) >= 500 <==> p is Unseeded,
        p is UnauthorizedSigner <==> auth_status(p) == 403,
        400 <= approval_status(a) < 600,
        a is ShortOfQuorum <==> approval_status(a) == 403,
        400 <= submit_status(e) < 600,
        e is Frozen <==> submit_status(e) == 503,
{
}

/// A status is answered as success only where the spend is signed, and as accepted only where it waits.
pub proof fn law_only_a_signed_spend_is_answered_as_done(status: PendingStatus)
    ensures
        pending_http_status(status) == 200 <==> status == PendingStatus::Signed,
        pending_http_status(status) == 202 <==> status == PendingStatus::Pending,
        status != PendingStatus::Signed && status != PendingStatus::Pending
            ==> pending_http_status(status) >= 400,
{
}

/// No route but inspecting and signing asks for the token.
pub proof fn law_no_other_route_asks_for_the_token(
    route: Route,
    expected: Option<String>,
    header: Option<&str>,
)
    requires
        route != Route::Inspect,
        route != Route::SignPsbt,
    ensures
        may_pass(route, expected, header),
{
}

/// A report is shown whole and as it is: every input and output in order, with their amounts, the sums, the
/// fee and its rate, the size and the way it goes; no two ways, kinds or chains are shown alike.
pub proof fn law_a_report_is_shown_as_it_is(
    r: InspectionReport,
    j: InspectResponse,
    k: int,
    a: SpendingPath,
    b: SpendingPath,
)
    requires
        shows_report(r, j),
    ensures
        j.inputs@.len() == r.inputs@.len(),
        j.outputs@.len() == r.outputs@.len(),
        j.total_in_sat == r.total_in,
        j.total_out_sat == r.total_out,
        j.fee_sat == r.fee,
        j.estimated_vsize == r.estimated_vsize,
        j.fee_rate_sat_per_vb == r.fee_rate_sat_per_vb,
        j.spending_path@ == path_name(r.spending_path),
        path_name(a) == path_name(b) ==> a == b,
        0 <= k < r.inputs@.len() ==> {
            &&& j.inputs@[k].amount_sat == r.inputs@[k].amount
            &&& j.inputs@[k].confirmations == r.inputs@[k].confirmations
            &&& j.inputs@[k].index == r.inputs@[k].index
            &&& j.inputs@[k].outpoint@ == r.inputs@[k].outpoint.text()
            &&& (j.inputs@[k].chain@ == "external"@) == (r.inputs@[k].chain == Chain::External)
        },
        0 <= k < r.outputs@.len() ==> {
            &&& j.outputs@[k].amount_sat == r.outputs@[k].amount
            &&& j.outputs@[k].script_pubkey_hex@ == hex_text(r.outputs@[k].script_pubkey@)
            &&& (j.outputs@[k].kind@ == "destination"@) == (r.outputs@[k].kind
                == OutputKind::Destination)
            &&& (j.outputs@[k].kind@ == "change"@) == (r.outputs@[k].kind == OutputKind::Change)
            &&& (j.outputs@[k].address is Some) == (r.outputs@[k].address is Some)
            &&& j.outputs@[k].address matches Some(t) ==> t@ == r.outputs@[k].address->Some_0@
        },
{
    reveal_strlit("hot");
    reveal_strlit("recovery");
    reveal_strlit("ambiguous");
    reveal_strlit("external");
    reveal_strlit("internal");
    reveal_strlit("change");
    reveal_strlit("own_receive");
    reveal_strlit("destination");
    assert("hot"@[0] != "recovery"@[0]);
    assert("hot"@[0] != "ambiguous"@[0]);
    assert("recovery"@[0] != "ambiguous"@[0]);
    assert("external"@[0] != "internal"@[0]);
    assert("change"@[0] != "own_receive"@[0]);
    assert("change"@[0] != "destination"@[0]);
    assert("destination"@[0] != "own_receive"@[0]);
    if 0 <= k < r.inputs@.len() {
        assert(shows_input(r.inputs@[k], j.inputs@[k]));
    }
    if 0 <= k < r.outputs@.len() {
        assert(shows_output(r.outputs@[k], j.outputs@[k]));
    }
}

/// A policy is stated as it was compiled: every limit, and every address of the list.
pub proof fn law_a_policy_is_stated_as_it_is(compiled: CompiledPolicy, policy: PolicyConfig)
    requires
        restates(compiled, policy),
    ensures
        policy.max_tx_sat == compiled.max_tx_sat,
        policy.max_daily_sat == compiled.max_daily_sat,
        policy.max_weekly_sat == compiled.max_weekly_sat,
        policy.max_monthly_sat == compiled.max_monthly_sat,
        policy.max_fee_sat == compiled.max_fee_sat,
        policy.max_fee_rate_sat_per_vb == compiled.max_fee_rate_sat_per_vb,
        (policy.destination_whitelist is Some) == (compiled.destination_whitelist is Some),
        compiled.destination_whitelist matches Some(list) ==> forall|a: Seq<char>|
            compiled.lists(a) <==> #[trigger] policy.destination_whitelist->Some_0.deep_view().contains(
                a,
            ),
{
}

/// A veto that is answered with success leaves the spend stopped or settled as it was and never signed by
/// it; one that comes too late, or for a spend that is not there, is refused and changes nothing.
pub proof fn law_a_veto_that_is_answered_has_stopped_the_spend(
    before: Tables,
    id: Seq<char>,
    r: Result<VetoResponse, ApiError>,
    after: Tables,
)
    requires
        answers_veto(before, id, r, after),
    ensures
        r is Ok <==> (pending_of(before.pending, id) matches Some(e) && e.row.status
            != PendingStatus::Signed),
        r is Err ==> after == before,
        r is Ok ==> (pending_of(after.pending, id) matches Some(e) && e.row.status
            != PendingStatus::Pending && e.row.status != PendingStatus::Signed),
        pending_of(before.pending, id) matches Some(e) && e.row.status == PendingStatus::Pending
            ==> (pending_of(after.pending, id) matches Some(x) && x.row.status
            == PendingStatus::Vetoed),
        after.spends == before.spends,
{
    crate::ledger::law_only_the_named_spend_changes(
        before.pending,
        id,
        id,
        |e: PendingEntry| settled(e, PendingStatus::Vetoed, None, None),
    );
}

/// The freeze is lifted exactly where a key of the hardware has signed the text of the freeze that is in
/// force; otherwise nothing changes.
pub proof fn law_the_freeze_is_lifted_by_the_hardware_alone(
    before: Tables,
    keys: Set<Seq<u8>>,
    signature_base64: Seq<char>,
    now: i64,
    r: Result<FreezeResponse, ApiError>,
    after: Tables,
)
    requires
        answers_unfreeze(before, keys, signature_base64, now, r, after),
    ensures
        r is Ok <==> (crate::policy_auth::signer_of(
            "cosigner unfreeze authorization v1\nfreeze_generation: "@ + decimal(
                before.generation() as nat,
            ),
            signature_base64,
        ) matches Some(k) && keys.contains(k)),
        r is Ok ==> !after.is_frozen() && after.generation() == before.generation(),
        r is Err ==> after == before,
        after.spends == before.spends,
        after.pending == before.pending,
        after.policy == before.policy,
{
}

/// A policy comes into force exactly where it is for the next version, is of the network, and is signed by
/// the hardware; it is recorded and in force with the limits that were signed, and the same request is
/// refused from then on. What is refused changes nothing.
pub proof fn law_a_policy_comes_into_force_by_the_hardware_alone(
    before: Tables,
    in_force: PolicyHandle,
    cfg: WalletConfig,
    keys: Set<Seq<u8>>,
    req: PolicyChangeRequest,
    now: i64,
    r: Result<PolicyResponse, ApiError>,
    then_in_force: PolicyHandle,
    after: Tables,
)
    requires
        answers_policy(before, in_force, cfg, keys, req, now, r, then_in_force, after),
    ensures
        r is Ok <==> {
            &&& before.policy matches Some(state) && req.version == state.version + 1
            &&& req.policy.problem(cfg.network) is None
            &&& crate::policy_auth::signer_of(
                crate::policy_auth::policy_message(
                    req.version as nat,
                    req.policy,
                    req.fee_rate_text@,
                ),
                req.signature_base64@,
            ) matches Some(k) && keys.contains(k)
        },
        r is Err ==> after == before && then_in_force == in_force,
        r is Ok ==> {
            &&& after.policy matches Some(state) && state.version == req.version
                && state.policy_json == req.policy_json
            &&& then_in_force.version == req.version
            &&& then_in_force.compiled.max_tx_sat == req.policy.max_tx_sat
            &&& then_in_force.compiled.max_daily_sat == req.policy.max_daily_sat
            &&& then_in_force.compiled.max_weekly_sat == req.policy.max_weekly_sat
            &&& then_in_force.compiled.max_monthly_sat == req.policy.max_monthly_sat
            &&& change_error(after.policy, cfg, keys, req) is Some
        },
        after.spends == before.spends,
        after.pending == before.pending,
        after.freeze == before.freeze,
{
}

/// What was signed is handed out with its transaction, its report, and whether it was recorded now.
pub proof fn law_a_signed_spend_is_handed_out(done: SignPsbtResult, s: SignResponse)
    requires
        shows_signed(done, s),
    ensures
        s.psbt@ == done.psbt.text@,
        s.inspection.fee_sat == done.report.fee,
        (s.ledger@ == "recorded"@) == (done.ledger == LedgerOutcome::Recorded),
{
    reveal_strlit("recorded");
    reveal_strlit("already_recorded");
    assert("recorded"@.len() != "already_recorded"@.len());
}

/// A spend that the policy has something against is refused with every violation.
pub proof fn law_a_refused_request_is_told_every_violation(
    v: Vec<crate::policy::PolicyViolation>,
    rate: Seq<char>,
    max_rate: Seq<char>,
    i: int,
)
    requires
        0 <= i < v@.len(),
    ensures
        crate::text::occurs(
            submit_text(SubmitError::Denied(v), rate, max_rate),
            crate::policy::violation_text(v@[i], rate, max_rate),
        ),
        crate::text::occurs(
            crate::sign::sign_psbt_error_text(SignPsbtError::Denied(v), rate, max_rate),
            crate::policy::violation_text(v@[i], rate, max_rate),
        ),
{
    crate::text::law_each_part_is_in_the_joined_text(
        violation_texts(v@, rate, max_rate),
        "; "@,
        i,
    );
}

/// Whether `r` is what asking after a queued spend is answered with.
pub open spec fn shows_pending(
    tables: Tables,
    id: Seq<char>,
    r: Result<(u16, PendingStatusResponse), ApiError>,
) -> bool {
    match r {
        Ok((status, body)) => pending_of(tables.pending, id) matches Some(e) && {
            &&& status == pending_http_status(e.row.status)
            &&& body.id == e.row.txid
            &&& body.status@ == status_name(e.row.status)
            &&& body.hold_until == if e.row.status == PendingStatus::Pending {
                Some(e.row.hold_until)
            } else {
                None
            }
            &&& body.psbt == e.row.signed_psbt_base64
            &&& body.message == e.row.message
        },
        Err(e) => pending_of(tables.pending, id) is None && e.says(
            404,
            "not_found"@,
            "no signing request with id "@ + id,
        ),
    }
}

/// Whether `r` and `after` are what the approvals of the contacts are answered with.
pub open spec fn answers_approval(
    before: Tables,
    quorum: Option<Quorum>,
    id: Seq<char>,
    approvals: Seq<Seq<char>>,
    now: i64,
    r: Result<RecoveryApprovalResponse, ApiError>,
    after: Tables,
) -> bool {
    let refusal = release_error(before, quorum, id, approvals);
    match r {
        Ok(body) => {
            &&& refusal is None
            &&& body.id@ == id
            &&& quorum matches Some(q) && body.threshold == q.threshold && body.approvals
                == voters(
                approvals,
                q.allowed@,
                approvals.len() as int,
            ).len() as usize
            &&& body.released
            &&& after == (Tables {
                pending: changed(
                    before.pending,
                    id,
                    |e: PendingEntry| released(e, now),
                ),
                ..before
            })
        },
        Err(e) => {
            &&& refusal matches Some(x) && e.says(
                approval_status(x),
                approval_code(x),
                approval_error_text(x, id, approvals),
            )
            &&& after == before
        },
    }
}

/// A spend that waits is shown with the end of its hold, a signed one with its transaction, and one that was
/// turned down with the reason; one that is not queued is not found.
pub proof fn law_a_queued_spend_is_shown_as_it_stands(
    tables: Tables,
    id: Seq<char>,
    r: Result<(u16, PendingStatusResponse), ApiError>,
)
    requires
        shows_pending(tables, id, r),
    ensures
        r is Ok <==> pending_of(tables.pending, id) is Some,
        r matches Err(e) ==> e.status == 404,
        r matches Ok((status, body)) ==> (pending_of(tables.pending, id) matches Some(e) && {
            &&& body.psbt == e.row.signed_psbt_base64
            &&& body.message == e.row.message
            &&& e.row.status == PendingStatus::Pending ==> body.hold_until == Some(e.row.hold_until)
                && status == 202
            &&& e.row.status != PendingStatus::Pending ==> body.hold_until is None
            &&& e.row.status == PendingStatus::Signed ==> status == 200
            &&& e.row.status == PendingStatus::Vetoed ==> status == 409
            &&& e.row.status == PendingStatus::Denied ==> status == 422
            &&& e.row.status == PendingStatus::Failed ==> status == 500
        }),
{
}

/// Approvals that are answered with success have ended the hold, by as many contacts as it takes; otherwise
/// nothing has changed.
pub proof fn law_approvals_that_are_answered_have_ended_the_hold(
    before: Tables,
    quorum: Option<Quorum>,
    id: Seq<char>,
    approvals: Seq<Seq<char>>,
    now: i64,
    r: Result<RecoveryApprovalResponse, ApiError>,
    after: Tables,
)
    requires
        answers_approval(before, quorum, id, approvals, now, r, after),
        approvals.len() <= usize::MAX,
    ensures
        r matches Ok(body) ==> {
            &&& quorum matches Some(q) && body.threshold == q.threshold && body.approvals
                >= q.threshold
            &&& body.released
            &&& pending_of(after.pending, id) matches Some(a) && a.row.status
                == PendingStatus::Pending && a.row.hold_until <= now
        },
        quorum is None ==> r is Err,
        r is Err ==> after == before,
        after.spends == before.spends,
        after.policy == before.policy,
        after.freeze == before.freeze,
{
    crate::ledger::law_only_the_named_spend_changes(
        before.pending,
        id,
        id,
        |e: PendingEntry| released(e, now),
    );
    if let Some(q) = quorum {
        crate::recovery_contacts::law_each_contact_has_one_vote(
            approvals,
            q.allowed@,
            approvals.len() as int,
        );
    }
}

} // verus!
