//! Which combinations of hardware signer, coordinator app and holder of the mobile key can use the
//! wallet.
//!
//! The wallet's descriptor is miniscript with a relative timelock, not `sortedmulti()`. Some app
//! has to import and track it, and something has to drive the hardware device to sign for it; few
//! programs do both. So the roles of a spend are modelled, not the pairs of products, and
//! [`resolve`] composes them: a combination that nobody has tried still gets an answer.
//!
//! The entries are data. A combination that is blocked is a warning that the operator has to
//! acknowledge, see [`Resolution::acknowledgement`].

use vstd::prelude::*;
use vstd::string::*;

use crate::text::{
    ended, is_text_le, join, joined, law_each_part_is_in_the_ended_text,
    law_each_part_is_in_the_joined_text, lemma_occurs_beside, lemma_occurs_in_itself, lemma_text_order, occurs, quote, quoted, same_text, text_le,
};

verus! {

/// How far an entry can be trusted.
#[derive(Clone, Copy, Debug, PartialEq, Eq, Structural)]
pub enum Provenance {
    /// The whole flow was run on signet with this very combination.
    SignetTested,
    /// The vendor's documentation says so.
    VendorDocs,
    /// A release announcement says so.
    ReleaseNotes,
    /// Inferred from an issue tracker.
    IssueTracker,
    /// Assumed.
    Unverified,
}

/// What is said of an entry's provenance.
pub open spec fn provenance_text(p: Provenance) -> Seq<char> {
    match p {
        Provenance::SignetTested => "verified end to end on signet"@,
        Provenance::VendorDocs => "from vendor documentation, not tested here"@,
        Provenance::ReleaseNotes => "from a release announcement, not tested here"@,
        Provenance::IssueTracker => "inferred from an issue tracker, not tested here"@,
        Provenance::Unverified => "UNVERIFIED - nobody has confirmed this"@,
    }
}

impl Provenance {
    /// Whether the entry needs no caveat: only a test counts.
    pub fn is_authoritative(self) -> (r: bool)
        ensures
            r == (self == Provenance::SignetTested),
    {
        matches!(self, Provenance::SignetTested)
    }

    /// What is said of the entry's provenance.
    pub fn describe(self) -> (r: &'static str)
        ensures
            r@ == provenance_text(self),
    {
        match self {
            Provenance::SignetTested => "verified end to end on signet",
            Provenance::VendorDocs => "from vendor documentation, not tested here",
            Provenance::ReleaseNotes => "from a release announcement, not tested here",
            Provenance::IssueTracker => "inferred from an issue tracker, not tested here",
            Provenance::Unverified => "UNVERIFIED - nobody has confirmed this",
        }
    }
}

/// A hardware signer.
#[derive(Clone, Debug)]
pub struct HardwareEntry {
    pub id: String,
    pub label: String,
    /// Signs for a witness script that is not `multi` or `sortedmulti`.
    pub signs_miniscript: bool,
    /// Accepts a branch with a relative timelock.
    pub signs_older: bool,
    /// Makes Bitcoin signed messages, which policy changes and unfreezing take.
    pub signs_message: bool,
    pub verified: Provenance,
    pub notes: Option<String>,
}

/// An app that tracks the wallet and drives devices.
#[derive(Clone, Debug)]
pub struct CoordinatorEntry {
    pub id: String,
    pub label: String,
    /// Imports and tracks a descriptor with `thresh` and `older`.
    pub registers_miniscript: bool,
    /// The ids of the hardware that it can drive.
    pub drives: Vec<String>,
    /// Can hold the mobile key itself.
    pub holds_mobile_key: bool,
    pub verified: Provenance,
    pub notes: Option<String>,
}

/// All that is known of hardware and coordinators.
#[derive(Clone, Debug)]
pub struct Matrix {
    pub schema_version: u32,
    /// Shown to the operator, who can judge by it how old the data is.
    pub revision: String,
    pub hardware: Vec<HardwareEntry>,
    pub coordinators: Vec<CoordinatorEntry>,
}

/// What is wrong with a matrix.
#[derive(Clone, Copy, Debug, PartialEq, Eq, Structural)]
pub enum MatrixError {
    /// Two hardware entries have the same id.
    DuplicateHardware,
    /// A coordinator claims to drive hardware that has no entry.
    UnknownHardware { coordinator: usize, driven: usize },
}

impl HardwareEntry {
    fn duplicate(&self) -> (r: HardwareEntry)
        ensures
            r == *self,
    {
        HardwareEntry {
            id: self.id.clone(),
            label: self.label.clone(),
            signs_miniscript: self.signs_miniscript,
            signs_older: self.signs_older,
            signs_message: self.signs_message,
            verified: self.verified,
            notes: match &self.notes {
                Some(n) => Some(n.clone()),
                None => None,
            },
        }
    }
}

/// The first hardware entry with the id.
pub open spec fn hardware_at(entries: Seq<HardwareEntry>, id: Seq<char>) -> Option<HardwareEntry>
    decreases entries.len(),
{
    if entries.len() == 0 {
        None
    } else if entries[0].id@ == id {
        Some(entries[0])
    } else {
        hardware_at(entries.skip(1), id)
    }
}

/// The first coordinator entry with the id.
pub open spec fn coordinator_at(entries: Seq<CoordinatorEntry>, id: Seq<char>) -> Option<
    CoordinatorEntry,
>
    decreases entries.len(),
{
    if entries.len() == 0 {
        None
    } else if entries[0].id@ == id {
        Some(entries[0])
    } else {
        coordinator_at(entries.skip(1), id)
    }
}

/// Whether two hardware entries have the same id.
pub open spec fn has_duplicates(entries: Seq<HardwareEntry>) -> bool {
    exists|i: int, j: int|
        0 <= i < j < entries.len() && (#[trigger] entries[i]).id@ == (#[trigger] entries[j]).id@
}

/// Whether the coordinator claims to drive the hardware.
pub open spec fn can_drive(c: CoordinatorEntry, hardware_id: Seq<char>) -> bool {
    c.drives.deep_view().contains(hardware_id)
}

/// Whether entry `d` of what coordinator `c` drives is hardware that has no entry.
pub open spec fn drives_unknown(m: Matrix, c: int, d: int) -> bool {
    &&& 0 <= c < m.coordinators@.len()
    &&& 0 <= d < m.coordinators@[c].drives@.len()
    &&& hardware_at(m.hardware@, m.coordinators@[c].drives@[d]@) is None
}

fn text_in(list: &Vec<String>, s: &str) -> (r: bool)
    ensures
        r == list.deep_view().contains(s@),
{
    let mut i: usize = 0;
    while i < list.len()
        invariant
            i <= list.len(),
            forall|j: int| 0 <= j < i ==> #[trigger] list.deep_view()[j] != s@,
        decreases list.len() - i,
    {
        if same_text(list[i].as_str(), s) {
            assert(list.deep_view()[i as int] == s@);
            return true;
        }
        i = i + 1;
    }
    false
}

impl Matrix {
    /// Checks that no two hardware entries have the same id and that every coordinator drives only
    /// hardware that has an entry. Of several unknown ones, the first is named.
    pub fn validate(&self) -> (r: Result<(), MatrixError>)
        ensures
            match r {
                Ok(_) => !has_duplicates(self.hardware@) && forall|c: int, d: int|
                    !#[trigger] drives_unknown(*self, c, d),
                Err(MatrixError::DuplicateHardware) => has_duplicates(self.hardware@),
                Err(MatrixError::UnknownHardware { coordinator, driven }) => {
                    &&& !has_duplicates(self.hardware@)
                    &&& drives_unknown(*self, coordinator as int, driven as int)
                    &&& forall|c: int, d: int|
                        c < coordinator || (c == coordinator && d < driven)
                            ==> !#[trigger] drives_unknown(*self, c, d)
                },
            },
    {
        let n: usize = self.hardware.len();
        let mut i: usize = 0;
        while i < n
            invariant
                i <= n,
                n == self.hardware@.len(),
                forall|a: int, b: int|
                    0 <= a < b < n && a < i ==> (#[trigger] self.hardware@[a]).id@ != (
                    #[trigger] self.hardware@[b]).id@,
            decreases n - i,
        {
            let mut j: usize = i + 1;
            while j < n
                invariant
                    i < j <= n,
                    n == self.hardware@.len(),
                    forall|b: int|
                        i < b < j ==> self.hardware@[i as int].id@ != (
                        #[trigger] self.hardware@[b]).id@,
                decreases n - j,
            {
                if same_text(self.hardware[i].id.as_str(), self.hardware[j].id.as_str()) {
                    assert(self.hardware@[i as int].id@ == self.hardware@[j as int].id@);
                    return Err(MatrixError::DuplicateHardware);
                }
                j = j + 1;
            }
            i = i + 1;
        }
        assert(!has_duplicates(self.hardware@));
        let mut c: usize = 0;
        while c < self.coordinators.len()
            invariant
                c <= self.coordinators.len(),
                !has_duplicates(self.hardware@),
                forall|a: int, d: int| a < c ==> !#[trigger] drives_unknown(*self, a, d),
            decreases self.coordinators.len() - c,
        {
            let mut d: usize = 0;
            while d < self.coordinators[c].drives.len()
                invariant
                    c < self.coordinators.len(),
                    d <= self.coordinators@[c as int].drives@.len(),
                    !has_duplicates(self.hardware@),
                    forall|a: int, b: int|
                        a < c || (a == c && b < d) ==> !#[trigger] drives_unknown(*self, a, b),
                decreases self.coordinators@[c as int].drives@.len() - d,
            {
                if self.hardware(self.coordinators[c].drives[d].as_str()).is_none() {
                    assert(drives_unknown(*self, c as int, d as int));
                    return Err(MatrixError::UnknownHardware { coordinator: c, driven: d });
                }
                d = d + 1;
            }
            c = c + 1;
        }
        Ok(())
    }

    /// The hardware with the id.
    pub fn hardware(&self, id: &str) -> (r: Option<&HardwareEntry>)
        ensures
            match r {
                Some(h) => hardware_at(self.hardware@, id@) == Some(*h),
                None => hardware_at(self.hardware@, id@) is None,
            },
    {
        let mut i: usize = 0;
        assert(self.hardware@.skip(0) =~= self.hardware@);
        while i < self.hardware.len()
            invariant
                i <= self.hardware.len(),
                hardware_at(self.hardware@, id@) == hardware_at(
                    self.hardware@.skip(i as int),
                    id@,
                ),
            decreases self.hardware.len() - i,
        {
            assert(self.hardware@.skip(i as int).skip(1) =~= self.hardware@.skip(i + 1));
            if same_text(self.hardware[i].id.as_str(), id) {
                return Some(&self.hardware[i]);
            }
            i = i + 1;
        }
        None
    }

    /// The coordinator with the id.
    pub fn coordinator(&self, id: &str) -> (r: Option<&CoordinatorEntry>)
        ensures
            match r {
                Some(c) => coordinator_at(self.coordinators@, id@) == Some(*c),
                None => coordinator_at(self.coordinators@, id@) is None,
            },
    {
        let mut i: usize = 0;
        assert(self.coordinators@.skip(0) =~= self.coordinators@);
        while i < self.coordinators.len()
            invariant
                i <= self.coordinators.len(),
                coordinator_at(self.coordinators@, id@) == coordinator_at(
                    self.coordinators@.skip(i as int),
                    id@,
                ),
            decreases self.coordinators.len() - i,
        {
            assert(self.coordinators@.skip(i as int).skip(1) =~= self.coordinators@.skip(i + 1));
            if same_text(self.coordinators[i].id.as_str(), id) {
                return Some(&self.coordinators[i]);
            }
            i = i + 1;
        }
        None
    }
}

/// The text of an error on `m`.
pub open spec fn matrix_error_text(m: Matrix, e: MatrixError) -> Seq<char> {
    match e {
        MatrixError::DuplicateHardware => "compatibility matrix has duplicate hardware ids"@,
        MatrixError::UnknownHardware { coordinator, driven } => "coordinator "@ + quoted(
            m.coordinators@[coordinator as int].id@,
        ) + " claims to drive unknown hardware id "@ + quoted(
            m.coordinators@[coordinator as int].drives@[driven as int]@,
        ),
    }
}

impl MatrixError {
    /// What an operator is told of this error on `m`.
    pub fn message(self, m: &Matrix) -> (r: String)
        requires
            self matches MatrixError::UnknownHardware { coordinator, driven } ==> coordinator
                < m.coordinators@.len() && driven
                < m.coordinators@[coordinator as int].drives@.len(),
        ensures
            r@ == matrix_error_text(*m, self),
    {
        match self {
            MatrixError::DuplicateHardware =>
                "compatibility matrix has duplicate hardware ids".to_owned(),
            MatrixError::UnknownHardware { coordinator, driven } => {
                let c = &m.coordinators[coordinator];
                let mut out = "coordinator ".to_owned();
                out.append(quote(c.id.as_str()).as_str());
                out.append(" claims to drive unknown hardware id ");
                out.append(quote(c.drives[driven].as_str()).as_str());
                out
            },
        }
    }
}

/// What the wallet's owner may want to do.
#[derive(Clone, Copy, Debug, PartialEq, Eq, Structural)]
pub enum Path {
    /// Hardware and server, at once.
    DailySpend,
    /// A message signed by the hardware key: to change the policy, and to unfreeze.
    PolicyChange,
    /// Hardware and mobile, after the timelock: the server is lost.
    RecoveryServerGone,
    /// Mobile and server, after the timelock: the hardware key is lost.
    RecoveryHardwareGone,
}

/// The paths, in the order in which they are shown.
pub open spec fn all_paths() -> Seq<Path> {
    seq![
        Path::DailySpend,
        Path::PolicyChange,
        Path::RecoveryServerGone,
        Path::RecoveryHardwareGone,
    ]
}

/// The name of a path.
pub open spec fn path_label(path: Path) -> Seq<char> {
    match path {
        Path::DailySpend => "Everyday spending"@,
        Path::PolicyChange => "Changing spending limits, and unfreezing"@,
        Path::RecoveryServerGone => "Recovery if this server is lost"@,
        Path::RecoveryHardwareGone => "Recovery if the hardware key is lost"@,
    }
}

impl Path {
    /// The paths, in the order in which they are shown.
    pub fn all() -> (r: [Path; 4])
        ensures
            r@ == all_paths(),
    {
        let all = [
            Path::DailySpend,
            Path::PolicyChange,
            Path::RecoveryServerGone,
            Path::RecoveryHardwareGone,
        ];
        assert(all@ =~= all_paths());
        all
    }

    /// The name of the path.
    pub fn label(self) -> (r: &'static str)
        ensures
            r@ == path_label(self),
    {
        match self {
            Path::DailySpend => "Everyday spending",
            Path::PolicyChange => "Changing spending limits, and unfreezing",
            Path::RecoveryServerGone => "Recovery if this server is lost",
            Path::RecoveryHardwareGone => "Recovery if the hardware key is lost",
        }
    }

    /// Whether an app has to track the wallet: for all but a signed message.
    pub fn needs_miniscript_registration(self) -> (r: bool)
        ensures
            r == (self != Path::PolicyChange),
    {
        !matches!(self, Path::PolicyChange)
    }

    /// Whether the device has to be driven: wherever the hardware key signs.
    pub fn needs_hardware_driving(self) -> (r: bool)
        ensures
            r == (self != Path::RecoveryHardwareGone),
    {
        matches!(self, Path::DailySpend | Path::PolicyChange | Path::RecoveryServerGone)
    }

    /// Whether the hardware key signs a transaction.
    pub fn needs_hardware_signing(self) -> (r: bool)
        ensures
            r == (self == Path::DailySpend || self == Path::RecoveryServerGone),
    {
        matches!(self, Path::DailySpend | Path::RecoveryServerGone)
    }

    /// Whether the hardware key signs a message.
    pub fn needs_message_signing(self) -> (r: bool)
        ensures
            r == (self == Path::PolicyChange),
    {
        matches!(self, Path::PolicyChange)
    }

    /// Whether a command on the box does what is missing.
    pub fn has_cli_fallback(self) -> (r: bool)
        ensures
            r == (self == Path::PolicyChange),
    {
        matches!(self, Path::PolicyChange)
    }
}

/// Why a path is not served.
#[derive(Clone, Debug, PartialEq, Eq)]
pub enum Gap {
    /// The coordinator cannot track the wallet. The alternatives can.
    CannotRegisterDescriptor { alternatives: Vec<String> },
    /// The coordinator cannot talk to the device. The alternatives can, and track the wallet too.
    CannotDriveHardware { alternatives: Vec<String> },
    /// The device cannot sign for the wallet's script.
    HardwareCannotSign,
    /// The device cannot sign messages.
    HardwareCannotSignMessages,
}

/// A [`Gap`] as a value.
#[verifier::ext_equal]
pub enum GapModel {
    CannotRegisterDescriptor { alternatives: Seq<Seq<char>> },
    CannotDriveHardware { alternatives: Seq<Seq<char>> },
    HardwareCannotSign,
    HardwareCannotSignMessages,
}

impl DeepView for Gap {
    type V = GapModel;

    open spec fn deep_view(&self) -> GapModel {
        match self {
            Gap::CannotRegisterDescriptor { alternatives } => GapModel::CannotRegisterDescriptor {
                alternatives: alternatives.deep_view(),
            },
            Gap::CannotDriveHardware { alternatives } => GapModel::CannotDriveHardware {
                alternatives: alternatives.deep_view(),
            },
            Gap::HardwareCannotSign => GapModel::HardwareCannotSign,
            Gap::HardwareCannotSignMessages => GapModel::HardwareCannotSignMessages,
        }
    }
}

/// How well a path is served.
#[derive(Clone, Copy, Debug, PartialEq, Eq, PartialOrd, Ord, Structural)]
pub enum Verdict {
    /// One app covers the path.
    Clear,
    /// Another app, or the command line, is needed besides, and there is one.
    NeedsAnotherApp,
    /// Nothing that is listed covers the path.
    Blocked,
}

/// How bad a verdict is.
pub open spec fn severity(v: Verdict) -> int {
    match v {
        Verdict::Clear => 0,
        Verdict::NeedsAnotherApp => 1,
        Verdict::Blocked => 2,
    }
}

fn severity_of(v: Verdict) -> (r: u8)
    ensures
        r == severity(v),
{
    match v {
        Verdict::Clear => 0,
        Verdict::NeedsAnotherApp => 1,
        Verdict::Blocked => 2,
    }
}

/// What is known of one path.
#[derive(Clone, Debug)]
pub struct PathResult {
    pub path: Path,
    pub label: &'static str,
    pub verdict: Verdict,
    pub gaps: Vec<Gap>,
}

/// What is known of a choice of hardware and coordinator.
#[derive(Clone, Debug)]
pub struct Resolution {
    pub hardware: String,
    pub coordinator: String,
    pub paths: Vec<PathResult>,
    /// The worst verdict of all paths.
    pub overall: Verdict,
    /// Whether an entry is less than authoritative.
    pub any_unverified: bool,
    pub caveats: Vec<String>,
}

/// The labels of other apps than `app_id` that track the wallet.
pub open spec fn registering_labels(
    coordinators: Seq<CoordinatorEntry>,
    app_id: Seq<char>,
) -> Seq<Seq<char>>
    decreases coordinators.len(),
{
    if coordinators.len() == 0 {
        Seq::empty()
    } else {
        let before = registering_labels(coordinators.drop_last(), app_id);
        let c = coordinators.last();
        if c.registers_miniscript && c.id@ != app_id {
            before.push(c.label@)
        } else {
            before
        }
    }
}

/// The labels of other apps than `coordinator_id` that track the wallet and drive the hardware.
pub open spec fn driving_labels(
    coordinators: Seq<CoordinatorEntry>,
    coordinator_id: Seq<char>,
    hardware_id: Seq<char>,
) -> Seq<Seq<char>>
    decreases coordinators.len(),
{
    if coordinators.len() == 0 {
        Seq::empty()
    } else {
        let before = driving_labels(coordinators.drop_last(), coordinator_id, hardware_id);
        let c = coordinators.last();
        if c.registers_miniscript && can_drive(c, hardware_id) && c.id@ != coordinator_id {
            before.push(c.label@)
        } else {
            before
        }
    }
}

/// The three roles of a choice.
#[verifier::ext_equal]
pub struct Choice {
    pub hardware: HardwareEntry,
    pub coordinator: CoordinatorEntry,
    pub mobile: CoordinatorEntry,
    pub hardware_id: Seq<char>,
    /// The labels of other apps than the coordinator that track the wallet.
    pub registering: Seq<Seq<char>>,
    /// The labels of other apps than the mobile holder that track the wallet.
    pub standing_in: Seq<Seq<char>>,
    /// The labels of other apps than the coordinator that track the wallet and drive the hardware.
    pub driving: Seq<Seq<char>>,
}

/// What keeps the choice from serving a path. Recovery without the hardware key is tracked by the
/// app that holds the mobile key, every other path by the coordinator.
pub open spec fn path_gaps(choice: Choice, path: Path) -> Seq<GapModel> {
    let (registrar, alternatives) = if path == Path::RecoveryHardwareGone {
        (choice.mobile, choice.standing_in)
    } else {
        (choice.coordinator, choice.registering)
    };
    let registration = if path != Path::PolicyChange && !registrar.registers_miniscript {
        seq![GapModel::CannotRegisterDescriptor { alternatives }]
    } else {
        Seq::empty()
    };
    let driving = if path != Path::RecoveryHardwareGone && !can_drive(
        choice.coordinator,
        choice.hardware_id,
    ) {
        seq![GapModel::CannotDriveHardware { alternatives: choice.driving }]
    } else {
        Seq::empty()
    };
    let signing = if (path == Path::DailySpend || path == Path::RecoveryServerGone) && !(
    choice.hardware.signs_miniscript && choice.hardware.signs_older) {
        seq![GapModel::HardwareCannotSign]
    } else {
        Seq::empty()
    };
    let messages = if path == Path::PolicyChange && !choice.hardware.signs_message {
        seq![GapModel::HardwareCannotSignMessages]
    } else {
        Seq::empty()
    };
    registration + driving + signing + messages
}

/// Whether something else makes up for a gap: another app, or the command line. Nothing makes up
/// for a device that cannot sign.
pub open spec fn has_substitute(gap: GapModel) -> bool {
    match gap {
        GapModel::CannotRegisterDescriptor { alternatives } => alternatives.len() > 0,
        GapModel::CannotDriveHardware { alternatives } => alternatives.len() > 0,
        GapModel::HardwareCannotSign => false,
        GapModel::HardwareCannotSignMessages => true,
    }
}

/// The verdict on a path with these gaps.
pub open spec fn path_verdict(path: Path, gaps: Seq<GapModel>) -> Verdict {
    if gaps.len() == 0 {
        Verdict::Clear
    } else if path == Path::PolicyChange || forall|i: int|
        0 <= i < gaps.len() ==> has_substitute(#[trigger] gaps[i]) {
        Verdict::NeedsAnotherApp
    } else {
        Verdict::Blocked
    }
}

/// The worst verdict of the paths.
pub open spec fn worst(paths: Seq<PathResult>) -> Verdict
    decreases paths.len(),
{
    if paths.len() == 0 {
        Verdict::Clear
    } else {
        let before = worst(paths.drop_last());
        if severity(paths.last().verdict) >= severity(before) {
            paths.last().verdict
        } else {
            before
        }
    }
}

/// What has to be said of an entry that is not authoritative.
pub open spec fn caveat(label: Seq<char>, p: Provenance) -> Seq<Seq<char>> {
    if p == Provenance::SignetTested {
        Seq::empty()
    } else {
        seq![label + ": "@ + provenance_text(p)]
    }
}

/// What has to be said of the entries of a choice: of an app with two roles, once.
pub open spec fn choice_caveats(choice: Choice) -> Seq<Seq<char>> {
    caveat(choice.hardware.label@, choice.hardware.verified) + caveat(
        choice.coordinator.label@,
        choice.coordinator.verified,
    ) + if choice.mobile == choice.coordinator {
        Seq::empty()
    } else {
        caveat(choice.mobile.label@, choice.mobile.verified)
    }
}

impl Resolution {
    /// Whether this is what the choice comes to.
    pub open spec fn resolves(self, choice: Choice) -> bool {
        &&& self.hardware@ == choice.hardware.label@
        &&& self.coordinator@ == choice.coordinator.label@
        &&& self.paths@.len() == all_paths().len()
        &&& forall|i: int|
            0 <= i < self.paths@.len() ==> {
                let p = #[trigger] self.paths@[i];
                &&& p.path == all_paths()[i]
                &&& p.label@ == path_label(p.path)
                &&& p.gaps.deep_view() == path_gaps(choice, p.path)
                &&& p.verdict == path_verdict(p.path, path_gaps(choice, p.path))
            }
        &&& self.overall == worst(self.paths@)
        &&& self.caveats.deep_view() == choice_caveats(choice)
        &&& self.any_unverified == (self.caveats@.len() > 0)
    }

    /// Whether some path is not served by anything.
    pub fn is_blocked(&self) -> (r: bool)
        ensures
            r == (self.overall == Verdict::Blocked),
    {
        self.overall == Verdict::Blocked
    }
}

/// What is said of a gap.
pub open spec fn gap_text(gap: GapModel) -> Seq<char> {
    match gap {
        GapModel::CannotRegisterDescriptor { alternatives } => if alternatives.len() == 0 {
            "no listed app can track this wallet's descriptor"@
        } else {
            "your coordinator cannot track this wallet's descriptor - you would need "@ + joined(
                alternatives,
                " or "@,
            )
        },
        GapModel::CannotDriveHardware { alternatives } => if alternatives.len() == 0 {
            "no listed app can both track this descriptor and sign with this device"@
        } else {
            "your coordinator cannot sign with this device - EVERY transaction on this path would need "@
                + joined(alternatives, " or "@)
        },
        GapModel::HardwareCannotSign => "this device cannot sign for this wallet's script"@,
        GapModel::HardwareCannotSignMessages =>
            "this device cannot sign messages, so you would need shell access to the box and the `cosigner` CLI"@,
    }
}

/// What is said of a path: its name, and what each of its gaps means.
pub open spec fn path_sentence(p: PathResult) -> Seq<char> {
    p.label@ + ": "@ + joined(
        p.gaps.deep_view().map_values(|g: GapModel| gap_text(g)),
        "; "@,
    )
}

/// What is said of the paths that are not served by one app, each in a line.
pub open spec fn path_sentences(paths: Seq<PathResult>) -> Seq<char>
    decreases paths.len(),
{
    if paths.len() == 0 {
        Seq::empty()
    } else {
        let before = path_sentences(paths.drop_last());
        if paths.last().verdict == Verdict::Clear {
            before
        } else {
            before + path_sentence(paths.last()) + "\n"@
        }
    }
}

/// What an operator has to acknowledge: the gaps of each path, the caveats, and, where something is
/// blocked, that the money may be stuck.
pub open spec fn acknowledgement_text(r: Resolution) -> Option<Seq<char>> {
    if r.overall == Verdict::Clear && !r.any_unverified {
        None
    } else {
        Some(
            path_sentences(r.paths@) + ended(r.caveats.deep_view(), "\n"@) + (if r.overall
                == Verdict::Blocked {
                "\nIf you fund this wallet you may be unable to spend from it until software support changes."@
            } else {
                Seq::empty()
            }),
        )
    }
}

impl Gap {
    fn sentence(&self) -> (r: String)
        ensures
            r@ == gap_text(self.deep_view()),
    {
        match self {
            Gap::CannotRegisterDescriptor { alternatives } => {
                if alternatives.len() == 0 {
                    "no listed app can track this wallet's descriptor".to_owned()
                } else {
                    let mut out =
                        "your coordinator cannot track this wallet's descriptor - you would need ".to_owned();
                    out.append(join(alternatives, " or ").as_str());
                    out
                }
            },
            Gap::CannotDriveHardware { alternatives } => {
                if alternatives.len() == 0 {
                    "no listed app can both track this descriptor and sign with this device".to_owned()
                } else {
                    let mut out =
                        "your coordinator cannot sign with this device - EVERY transaction on this path would need ".to_owned();
                    out.append(join(alternatives, " or ").as_str());
                    out
                }
            },
            Gap::HardwareCannotSign =>
                "this device cannot sign for this wallet's script".to_owned(),
            Gap::HardwareCannotSignMessages =>
                "this device cannot sign messages, so you would need shell access to the box and the `cosigner` CLI".to_owned(),
        }
    }
}

fn write_path_sentence(p: &PathResult) -> (r: String)
    ensures
        r@ == path_sentence(*p),
{
    let mut clauses: Vec<String> = Vec::new();
    let mut i: usize = 0;
    while i < p.gaps.len()
        invariant
            i <= p.gaps.len(),
            clauses@.len() == i,
            forall|j: int|
                0 <= j < i ==> (#[trigger] clauses@[j])@ == gap_text(p.gaps@[j].deep_view()),
        decreases p.gaps.len() - i,
    {
        clauses.push(p.gaps[i].sentence());
        i = i + 1;
    }
    assert(clauses.deep_view() =~= p.gaps.deep_view().map_values(|g: GapModel| gap_text(g)));
    let mut out = p.label.to_owned();
    out.append(": ");
    out.append(join(&clauses, "; ").as_str());
    out
}

impl Resolution {
    /// What the operator has to acknowledge before going on; nothing where one app covers every
    /// path and both entries are authoritative. The text follows from what is missing, so that it
    /// says the same of every device.
    pub fn acknowledgement(&self) -> (r: Option<String>)
        ensures
            match r {
                Some(s) => acknowledgement_text(*self) == Some(s@),
                None => acknowledgement_text(*self) is None,
            },
    {
        if self.overall == Verdict::Clear && !self.any_unverified {
            return None;
        }
        let mut out = String::new();
        let mut i: usize = 0;
        while i < self.paths.len()
            invariant
                i <= self.paths.len(),
                out@ == path_sentences(self.paths@.take(i as int)),
            decreases self.paths.len() - i,
        {
            assert(self.paths@.take(i + 1).drop_last() =~= self.paths@.take(i as int));
            if self.paths[i].verdict != Verdict::Clear {
                out.append(write_path_sentence(&self.paths[i]).as_str());
                out.append("\n");
            }
            i = i + 1;
        }
        assert(self.paths@.take(i as int) =~= self.paths@);
        let ghost head = out@;
        let ghost all = self.caveats.deep_view();
        let mut j: usize = 0;
        assert(head + ended(all.take(0), "\n"@) =~= head);
        while j < self.caveats.len()
            invariant
                j <= self.caveats.len(),
                all == self.caveats.deep_view(),
                out@ == head + ended(all.take(j as int), "\n"@),
            decreases self.caveats.len() - j,
        {
            assert(all.take(j + 1).drop_last() =~= all.take(j as int));
            assert(all.take(j + 1).last() == self.caveats@[j as int]@);
            out.append(self.caveats[j].as_str());
            out.append("\n");
            assert(out@ =~= head + ended(all.take(j + 1), "\n"@));
            j = j + 1;
        }
        assert(all.take(j as int) =~= all);
        if self.overall == Verdict::Blocked {
            out.append(
                "\nIf you fund this wallet you may be unable to spend from it until software support changes.",
            );
        }
        assert(acknowledgement_text(*self).unwrap() =~= out@);
        Some(out)
    }
}

/// Why a choice cannot be resolved: an id that has no entry. A mistyped id must not come out as
/// "all clear".
#[derive(Clone, Copy, Debug, PartialEq, Eq, Structural)]
pub enum UnknownId {
    Hardware,
    Coordinator,
    MobileHolder,
}

/// The text of an error on an id.
pub open spec fn unknown_id_text(e: UnknownId, id: Seq<char>) -> Seq<char> {
    match e {
        UnknownId::Hardware => "unknown hardware id "@ + quoted(id),
        UnknownId::Coordinator => "unknown coordinator id "@ + quoted(id),
        UnknownId::MobileHolder => "unknown mobile-key holder id "@ + quoted(id),
    }
}

impl UnknownId {
    /// What an operator is told of this error on `id`.
    pub fn message(self, id: &str) -> (r: String)
        ensures
            r@ == unknown_id_text(self, id@),
    {
        let mut out = match self {
            UnknownId::Hardware => "unknown hardware id ".to_owned(),
            UnknownId::Coordinator => "unknown coordinator id ".to_owned(),
            UnknownId::MobileHolder => "unknown mobile-key holder id ".to_owned(),
        };
        out.append(quote(id).as_str());
        out
    }
}

/// Which id of a choice has no entry: the first of hardware, coordinator and mobile holder.
pub open spec fn unknown_id(
    m: Matrix,
    hardware_id: Seq<char>,
    coordinator_id: Seq<char>,
    mobile_holder_id: Seq<char>,
) -> Option<UnknownId> {
    if hardware_at(m.hardware@, hardware_id) is None {
        Some(UnknownId::Hardware)
    } else if coordinator_at(m.coordinators@, coordinator_id) is None {
        Some(UnknownId::Coordinator)
    } else if coordinator_at(m.coordinators@, mobile_holder_id) is None {
        Some(UnknownId::MobileHolder)
    } else {
        None
    }
}

/// The roles of a choice whose ids have entries.
pub open spec fn choice_of(
    m: Matrix,
    hardware_id: Seq<char>,
    coordinator_id: Seq<char>,
    mobile_holder_id: Seq<char>,
) -> Choice {
    let coordinator = coordinator_at(m.coordinators@, coordinator_id).unwrap();
    let mobile = coordinator_at(m.coordinators@, mobile_holder_id).unwrap();
    Choice {
        hardware: hardware_at(m.hardware@, hardware_id).unwrap(),
        coordinator,
        mobile,
        hardware_id,
        registering: registering_labels(m.coordinators@, coordinator.id@),
        standing_in: registering_labels(m.coordinators@, mobile.id@),
        driving: driving_labels(m.coordinators@, coordinator.id@, hardware_id),
    }
}

fn copy_list(list: &Vec<String>) -> (r: Vec<String>)
    ensures
        r.deep_view() == list.deep_view(),
{
    let mut out: Vec<String> = Vec::new();
    let mut i: usize = 0;
    while i < list.len()
        invariant
            i <= list.len(),
            out@.len() == i,
            forall|j: int| 0 <= j < i ==> (#[trigger] out@[j])@ == list@[j]@,
        decreases list.len() - i,
    {
        out.push(list[i].clone());
        i = i + 1;
    }
    assert(out.deep_view() =~= list.deep_view());
    out
}

fn other_apps(m: &Matrix, app_id: &str, hardware_id: &str, driving: bool) -> (r: Vec<String>)
    ensures
        !driving ==> r.deep_view() == registering_labels(m.coordinators@, app_id@),
        driving ==> r.deep_view() == driving_labels(
            m.coordinators@,
            app_id@,
            hardware_id@,
        ),
{
    let ghost all = m.coordinators@;
    let mut out: Vec<String> = Vec::new();
    let mut i: usize = 0;
    assert(out.deep_view() =~= Seq::<Seq<char>>::empty());
    while i < m.coordinators.len()
        invariant
            i <= m.coordinators.len(),
            all == m.coordinators@,
            !driving ==> out.deep_view() == registering_labels(
                all.take(i as int),
                app_id@,
            ),
            driving ==> out.deep_view() == driving_labels(
                all.take(i as int),
                app_id@,
                hardware_id@,
            ),
        decreases m.coordinators.len() - i,
    {
        assert(all.take(i + 1).drop_last() =~= all.take(i as int));
        assert(all.take(i + 1).last() == m.coordinators@[i as int]);
        let c = &m.coordinators[i];
        let ghost before = out.deep_view();
        if c.registers_miniscript && (!driving || text_in(&c.drives, hardware_id)) && !same_text(
            c.id.as_str(),
            app_id,
        ) {
            out.push(c.label.clone());
            assert(out.deep_view() =~= before.push(c.label@));
        }
        i = i + 1;
    }
    assert(all.take(i as int) =~= all);
    out
}

fn find_gaps(
    path: Path,
    hw: &HardwareEntry,
    coord: &CoordinatorEntry,
    mobile: &CoordinatorEntry,
    drives_hardware: bool,
    can_register: &Vec<String>,
    can_stand_in: &Vec<String>,
    can_register_and_drive: &Vec<String>,
    Ghost(choice): Ghost<Choice>,
) -> (gaps: Vec<Gap>)
    requires
        choice.hardware == *hw,
        choice.coordinator == *coord,
        choice.mobile == *mobile,
        drives_hardware == can_drive(*coord, choice.hardware_id),
        choice.registering == can_register.deep_view(),
        choice.standing_in == can_stand_in.deep_view(),
        choice.driving == can_register_and_drive.deep_view(),
    ensures
        gaps.deep_view() == path_gaps(choice, path),
{
    let mut gaps: Vec<Gap> = Vec::new();
    assert(gaps.deep_view() =~= Seq::<GapModel>::empty());
    if path.needs_miniscript_registration() {
        let (registrar, others) = if path == Path::RecoveryHardwareGone {
            (mobile, can_stand_in)
        } else {
            (coord, can_register)
        };
        if !registrar.registers_miniscript {
            gaps.push(Gap::CannotRegisterDescriptor { alternatives: copy_list(others) });
        }
    }
    if path.needs_hardware_driving() && !drives_hardware {
        gaps.push(Gap::CannotDriveHardware { alternatives: copy_list(can_register_and_drive) });
    }
    if path.needs_hardware_signing() && !(hw.signs_miniscript && hw.signs_older) {
        gaps.push(Gap::HardwareCannotSign);
    }
    if path.needs_message_signing() && !hw.signs_message {
        gaps.push(Gap::HardwareCannotSignMessages);
    }
    assert(gaps.deep_view() =~= path_gaps(choice, path));
    gaps
}

fn judge(path: Path, gaps: &Vec<Gap>) -> (r: Verdict)
    ensures
        r == path_verdict(path, gaps.deep_view()),
{
    let ghost model = gaps.deep_view();
    if gaps.len() == 0 {
        return Verdict::Clear;
    }
    if path.has_cli_fallback() {
        return Verdict::NeedsAnotherApp;
    }
    let mut i: usize = 0;
    while i < gaps.len()
        invariant
            i <= gaps.len(),
            gaps@.len() > 0,
            model == gaps.deep_view(),
            path != Path::PolicyChange,
            forall|j: int| 0 <= j < i ==> has_substitute(#[trigger] model[j]),
        decreases gaps.len() - i,
    {
        let substituted = match &gaps[i] {
            Gap::CannotRegisterDescriptor { alternatives } => alternatives.len() > 0,
            Gap::CannotDriveHardware { alternatives } => alternatives.len() > 0,
            Gap::HardwareCannotSign => false,
            Gap::HardwareCannotSignMessages => true,
        };
        assert(substituted == has_substitute(model[i as int]));
        if !substituted {
            return Verdict::Blocked;
        }
        i = i + 1;
    }
    Verdict::NeedsAnotherApp
}

fn add_caveat(caveats: &mut Vec<String>, label: &str, p: Provenance)
    ensures
        final(caveats).deep_view() == old(caveats).deep_view() + caveat(label@, p),
{
    let ghost before = caveats.deep_view();
    if !p.is_authoritative() {
        let mut text = label.to_owned();
        text.append(": ");
        text.append(p.describe());
        let ghost said = text@;
        caveats.push(text);
        assert(caveats.deep_view() =~= before.push(said));
    }
    assert(caveats.deep_view() =~= before + caveat(label@, p));
}

proof fn lemma_coordinator_has_the_id(entries: Seq<CoordinatorEntry>, id: Seq<char>)
    ensures
        coordinator_at(entries, id) matches Some(c) ==> c.id@ == id,
    decreases entries.len(),
{
    if entries.len() > 0 && entries[0].id@ != id {
        lemma_coordinator_has_the_id(entries.skip(1), id);
    }
}

/// Says how well a choice of hardware, coordinator and holder of the mobile key, who may be the
/// coordinator, serves each path. Fails exactly where an id has no entry.
pub fn resolve(
    matrix: &Matrix,
    hardware_id: &str,
    coordinator_id: &str,
    mobile_holder_id: &str,
) -> (r: Result<Resolution, UnknownId>)
    ensures
        match r {
            Ok(x) => unknown_id(
                *matrix,
                hardware_id@,
                coordinator_id@,
                mobile_holder_id@,
            ) is None && x.resolves(
                choice_of(*matrix, hardware_id@, coordinator_id@, mobile_holder_id@),
            ),
            Err(e) => unknown_id(*matrix, hardware_id@, coordinator_id@, mobile_holder_id@)
                == Some(e),
        },
{
    let hw = match matrix.hardware(hardware_id) {
        Some(h) => h,
        None => {
            return Err(UnknownId::Hardware);
        },
    };
    let coord = match matrix.coordinator(coordinator_id) {
        Some(c) => c,
        None => {
            return Err(UnknownId::Coordinator);
        },
    };
    let mobile = match matrix.coordinator(mobile_holder_id) {
        Some(c) => c,
        None => {
            return Err(UnknownId::MobileHolder);
        },
    };
    let ghost choice = choice_of(*matrix, hardware_id@, coordinator_id@, mobile_holder_id@);
    let can_register: Vec<String> = other_apps(matrix, coord.id.as_str(), hardware_id, false);
    let can_stand_in: Vec<String> = other_apps(matrix, mobile.id.as_str(), hardware_id, false);
    let can_register_and_drive: Vec<String> = other_apps(
        matrix,
        coord.id.as_str(),
        hardware_id,
        true,
    );
    let drives_hardware = text_in(&coord.drives, hardware_id);
    let all = Path::all();
    let mut paths: Vec<PathResult> = Vec::new();
    let mut overall = Verdict::Clear;
    let mut i: usize = 0;
    while i < 4
        invariant
            i <= 4,
            all@ == all_paths(),
            paths@.len() == i,
            choice.hardware == *hw,
            choice.coordinator == *coord,
            choice.mobile == *mobile,
            drives_hardware == can_drive(*coord, choice.hardware_id),
            choice.registering == can_register.deep_view(),
            choice.standing_in == can_stand_in.deep_view(),
            choice.driving == can_register_and_drive.deep_view(),
            overall == worst(paths@),
            forall|j: int|
                0 <= j < i ==> {
                    let p = #[trigger] paths@[j];
                    &&& p.path == all_paths()[j]
                    &&& p.label@ == path_label(p.path)
                    &&& p.gaps.deep_view() == path_gaps(choice, p.path)
                    &&& p.verdict == path_verdict(p.path, path_gaps(choice, p.path))
                },
        decreases 4 - i,
    {
        let path = all[i];
        let gaps: Vec<Gap> = find_gaps(
            path,
            hw,
            coord,
            mobile,
            drives_hardware,
            &can_register,
            &can_stand_in,
            &can_register_and_drive,
            Ghost(choice),
        );
        let verdict = judge(path, &gaps);
        let ghost before = paths@;
        paths.push(PathResult { path, label: path.label(), verdict, gaps });
        assert(paths@.drop_last() =~= before);
        if severity_of(verdict) >= severity_of(overall) {
            overall = verdict;
        }
        i = i + 1;
    }
    let mut caveats: Vec<String> = Vec::new();
    assert(caveats.deep_view() =~= Seq::<Seq<char>>::empty());
    add_caveat(&mut caveats, hw.label.as_str(), hw.verified);
    add_caveat(&mut caveats, coord.label.as_str(), coord.verified);
    proof {
        lemma_coordinator_has_the_id(matrix.coordinators@, coordinator_id@);
        lemma_coordinator_has_the_id(matrix.coordinators@, mobile_holder_id@);
    }
    if !same_text(coordinator_id, mobile_holder_id) {
        add_caveat(&mut caveats, mobile.label.as_str(), mobile.verified);
    }
    assert(caveats.deep_view() =~= choice_caveats(choice));
    let any_unverified = caveats.len() > 0;
    Ok(
        Resolution {
            hardware: hw.label.clone(),
            coordinator: coord.label.clone(),
            paths,
            overall,
            any_unverified,
            caveats,
        },
    )
}

/// Whether `p` lists the numbers below `n`, each once.
pub open spec fn is_permutation(p: Seq<int>, n: int) -> bool {
    &&& p.len() == n
    &&& forall|i: int| 0 <= i < n ==> 0 <= #[trigger] p[i] < n
    &&& forall|i: int, j: int| 0 <= i < j < n ==> #[trigger] p[i] != #[trigger] p[j]
}

/// Whether an option stands before another, or both have the same place: the better verdict first,
/// then by the label.
pub open spec fn option_le(a: (HardwareEntry, Resolution), b: (HardwareEntry, Resolution)) -> bool {
    ||| severity(a.1.overall) < severity(b.1.overall)
    ||| severity(a.1.overall) == severity(b.1.overall) && text_le(a.0.label@, b.0.label@)
}

fn is_option_le(a: &(HardwareEntry, Resolution), b: &(HardwareEntry, Resolution)) -> (r: bool)
    ensures
        r == option_le(*a, *b),
{
    let x: u8 = severity_of(a.1.overall);
    let y: u8 = severity_of(b.1.overall);
    x < y || (x == y && is_text_le(a.0.label.as_str(), b.0.label.as_str()))
}

/// Whether an option is a hardware entry with what it comes to.
pub open spec fn is_option(
    o: (HardwareEntry, Resolution),
    hardware: HardwareEntry,
    m: Matrix,
    coordinator_id: Seq<char>,
    mobile_holder_id: Seq<char>,
) -> bool {
    o.0 == hardware && o.1.resolves(choice_of(m, o.0.id@, coordinator_id, mobile_holder_id))
}

/// Whether the better ones stand first, and those of the same place in the order that `p` gives.
pub open spec fn in_stable_order(options: Seq<(HardwareEntry, Resolution)>, p: Seq<int>) -> bool {
    &&& forall|i: int, j: int|
        0 <= i < j < options.len() ==> option_le(#[trigger] options[i], #[trigger] options[j])
    &&& forall|i: int, j: int|
        0 <= i < j < options.len() && option_le(#[trigger] options[j], #[trigger] options[i])
            ==> p[i] < p[j]
}

/// Whether these are the first `n` hardware entries with what each comes to, in order: `p` says
/// which entry stands where.
pub open spec fn are_options(
    options: Seq<(HardwareEntry, Resolution)>,
    p: Seq<int>,
    m: Matrix,
    coordinator_id: Seq<char>,
    mobile_holder_id: Seq<char>,
    n: int,
) -> bool {
    &&& options.len() == n
    &&& is_permutation(p, n)
    &&& forall|i: int|
        0 <= i < n ==> is_option(
            #[trigger] options[i],
            m.hardware@[p[i]],
            m,
            coordinator_id,
            mobile_holder_id,
        )
    &&& in_stable_order(options, p)
}

/// Whether these are all hardware entries with what each comes to, in order.
pub open spec fn are_all_options(
    options: Seq<(HardwareEntry, Resolution)>,
    m: Matrix,
    coordinator_id: Seq<char>,
    mobile_holder_id: Seq<char>,
) -> bool {
    exists|p: Seq<int>| #[trigger]
        are_options(
            options,
            p,
            m,
            coordinator_id,
            mobile_holder_id,
            m.hardware@.len() as int,
        )
}

proof fn lemma_option_order(
    a: (HardwareEntry, Resolution),
    b: (HardwareEntry, Resolution),
    c: (HardwareEntry, Resolution),
)
    ensures
        option_le(a, b) || option_le(b, a),
        option_le(a, b) && option_le(b, c) ==> option_le(a, c),
{
    lemma_text_order(a.0.label@, b.0.label@, c.0.label@);
}

/// Where a new option goes: behind all that stand before it or have its place.
fn option_place(
    options: &Vec<(HardwareEntry, Resolution)>,
    new: &(HardwareEntry, Resolution),
) -> (at: usize)
    requires
        forall|i: int, j: int|
            0 <= i < j < options@.len() ==> option_le(
                #[trigger] options@[i],
                #[trigger] options@[j],
            ),
    ensures
        at <= options@.len(),
        forall|i: int| 0 <= i < at ==> option_le(#[trigger] options@[i], *new),
        forall|i: int| at <= i < options@.len() ==> !option_le(#[trigger] options@[i], *new),
{
    let mut at: usize = 0;
    while at < options.len() && is_option_le(&options[at], new)
        invariant
            at <= options@.len(),
            forall|i: int| 0 <= i < at ==> option_le(#[trigger] options@[i], *new),
        decreases options.len() - at,
    {
        at = at + 1;
    }
    proof {
        assert forall|i: int| at <= i < options@.len() implies !option_le(
            #[trigger] options@[i],
            *new,
        ) by {
            if i > at {
                lemma_option_order(options@[at as int], options@[i], *new);
            }
        }
    }
    at
}

proof fn lemma_permutation_inserted(p: Seq<int>, n: int, at: int)
    requires
        is_permutation(p, n),
        0 <= at <= n,
    ensures
        is_permutation(p.insert(at, n), n + 1),
{
    let q = p.insert(at, n);
    assert forall|i: int| 0 <= i < n + 1 implies 0 <= #[trigger] q[i] < n + 1 by {
        if i < at {
            assert(q[i] == p[i]);
        } else if i > at {
            assert(q[i] == p[i - 1]);
        }
    }
    assert forall|i: int, j: int| 0 <= i < j < n + 1 implies #[trigger] q[i] != #[trigger] q[j] by {
        let a = if i < at {
            i
        } else {
            i - 1
        };
        let b = if j < at {
            j
        } else {
            j - 1
        };
        if i != at {
            assert(q[i] == p[a]);
        }
        if j != at {
            assert(q[j] == p[b]);
        }
    }
}

proof fn lemma_order_inserted(
    options: Seq<(HardwareEntry, Resolution)>,
    p: Seq<int>,
    new: (HardwareEntry, Resolution),
    at: int,
)
    requires
        in_stable_order(options, p),
        is_permutation(p, options.len() as int),
        0 <= at <= options.len(),
        forall|i: int| 0 <= i < at ==> option_le(#[trigger] options[i], new),
        forall|i: int| at <= i < options.len() ==> !option_le(#[trigger] options[i], new),
    ensures
        in_stable_order(options.insert(at, new), p.insert(at, options.len() as int)),
{
    let n = options.len() as int;
    let o = options.insert(at, new);
    let q = p.insert(at, n);
    assert forall|i: int, j: int| 0 <= i < j < o.len() implies option_le(
        #[trigger] o[i],
        #[trigger] o[j],
    ) && (option_le(o[j], o[i]) ==> q[i] < q[j]) by {
        let a = if i < at {
            i
        } else {
            i - 1
        };
        let b = if j < at {
            j
        } else {
            j - 1
        };
        if i == at {
            assert(o[j] == options[b]);
            lemma_option_order(options[b], new, new);
        } else if j == at {
            assert(o[i] == options[a]);
            assert(q[i] == p[a]);
            assert(q[j] == n);
        } else {
            assert(o[i] == options[a] && o[j] == options[b]);
            assert(q[i] == p[a] && q[j] == p[b]);
        }
    }
}

proof fn lemma_option_inserted(
    options: Seq<(HardwareEntry, Resolution)>,
    p: Seq<int>,
    m: Matrix,
    coordinator_id: Seq<char>,
    mobile_holder_id: Seq<char>,
    n: int,
    new: (HardwareEntry, Resolution),
    at: int,
)
    requires
        are_options(options, p, m, coordinator_id, mobile_holder_id, n),
        0 <= n < m.hardware@.len(),
        is_option(new, m.hardware@[n], m, coordinator_id, mobile_holder_id),
        0 <= at <= n,
        forall|i: int| 0 <= i < at ==> option_le(#[trigger] options[i], new),
        forall|i: int| at <= i < n ==> !option_le(#[trigger] options[i], new),
    ensures
        are_options(
            options.insert(at, new),
            p.insert(at, n),
            m,
            coordinator_id,
            mobile_holder_id,
            n + 1,
        ),
{
    lemma_permutation_inserted(p, n, at);
    lemma_order_inserted(options, p, new, at);
    let o = options.insert(at, new);
    let q = p.insert(at, n);
    assert forall|i: int| 0 <= i < n + 1 implies is_option(
        #[trigger] o[i],
        m.hardware@[q[i]],
        m,
        coordinator_id,
        mobile_holder_id,
    ) by {
        if i < at {
            assert(o[i] == options[i]);
            assert(q[i] == p[i]);
        } else if i > at {
            assert(o[i] == options[i - 1]);
            assert(q[i] == p[i - 1]);
        } else {
            assert(o[i] == new);
            assert(q[i] == n);
        }
    }
}

proof fn lemma_entry_is_found(entries: Seq<HardwareEntry>, i: int)
    requires
        0 <= i < entries.len(),
    ensures
        hardware_at(entries, entries[i].id@) is Some,
    decreases entries.len(),
{
    if entries[0].id@ != entries[i].id@ {
        assert(entries.skip(1)[i - 1] == entries[i]);
        lemma_entry_is_found(entries.skip(1), i - 1);
    }
}

/// Every hardware entry with what it comes to together with one coordinator, the workable ones
/// first. Nothing is left out. Fails exactly where there is hardware and the id of the coordinator
/// or of the mobile holder has no entry.
pub fn options_for_coordinator(
    matrix: &Matrix,
    coordinator_id: &str,
    mobile_holder_id: &str,
) -> (r: Result<Vec<(HardwareEntry, Resolution)>, UnknownId>)
    ensures
        match r {
            Ok(options) => {
                &&& are_all_options(options@, *matrix, coordinator_id@, mobile_holder_id@)
                &&& matrix.hardware@.len() > 0 ==> coordinator_at(
                    matrix.coordinators@,
                    coordinator_id@,
                ) is Some && coordinator_at(matrix.coordinators@, mobile_holder_id@) is Some
            },
            Err(e) => matrix.hardware@.len() > 0 && if coordinator_at(
                matrix.coordinators@,
                coordinator_id@,
            ) is None {
                e == UnknownId::Coordinator
            } else {
                coordinator_at(matrix.coordinators@, mobile_holder_id@) is None && e
                    == UnknownId::MobileHolder
            },
        },
{
    let mut out: Vec<(HardwareEntry, Resolution)> = Vec::new();
    let ghost mut p: Seq<int> = Seq::empty();
    let mut i: usize = 0;
    while i < matrix.hardware.len()
        invariant
            i <= matrix.hardware.len(),
            are_options(
                out@,
                p,
                *matrix,
                coordinator_id@,
                mobile_holder_id@,
                i as int,
            ),
            i > 0 ==> coordinator_at(matrix.coordinators@, coordinator_id@) is Some
                && coordinator_at(matrix.coordinators@, mobile_holder_id@) is Some,
        decreases matrix.hardware.len() - i,
    {
        let hw = &matrix.hardware[i];
        proof {
            lemma_entry_is_found(matrix.hardware@, i as int);
        }
        let resolution = match resolve(matrix, hw.id.as_str(), coordinator_id, mobile_holder_id) {
            Ok(r) => r,
            Err(e) => {
                return Err(e);
            },
        };
        let new = (hw.duplicate(), resolution);
        let at: usize = option_place(&out, &new);
        proof {
            lemma_option_inserted(
                out@,
                p,
                *matrix,
                coordinator_id@,
                mobile_holder_id@,
                i as int,
                new,
                at as int,
            );
            p = p.insert(at as int, i as int);
        }
        out.insert(at, new);
        i = i + 1;
    }
    assert(are_options(
        out@,
        p,
        *matrix,
        coordinator_id@,
        mobile_holder_id@,
        matrix.hardware@.len() as int,
    ));
    Ok(out)
}

/// A verdict for each path that has one.
#[derive(Clone, Debug)]
pub struct VerdictMap {
    entries: Vec<(Path, Verdict)>,
}

/// The verdict on a path by a list: the last one given.
pub open spec fn verdict_in(entries: Seq<(Path, Verdict)>, path: Path) -> Option<Verdict>
    decreases entries.len(),
{
    if entries.len() == 0 {
        None
    } else if entries.last().0 == path {
        Some(entries.last().1)
    } else {
        verdict_in(entries.drop_last(), path)
    }
}

impl VerdictMap {
    /// The verdict on a path.
    pub closed spec fn verdict_on(self, path: Path) -> Option<Verdict> {
        verdict_in(self.entries@, path)
    }

    /// The verdict on a path.
    pub fn get(&self, path: Path) -> (r: Option<Verdict>)
        ensures
            r == self.verdict_on(path),
    {
        let ghost all = self.entries@;
        let mut i: usize = self.entries.len();
        assert(all.take(i as int) =~= all);
        while i > 0
            invariant
                i <= self.entries.len(),
                all == self.entries@,
                verdict_in(all, path) == verdict_in(all.take(i as int), path),
            decreases i,
        {
            assert(all.take(i as int).drop_last() =~= all.take(i - 1));
            assert(all.take(i as int).last() == all[i - 1]);
            i = i - 1;
            if self.entries[i].0 == path {
                return Some(self.entries[i].1);
            }
        }
        None
    }
}

/// The verdicts of a resolution by path, without the reasons.
pub fn verdict_map(resolution: &Resolution) -> (r: VerdictMap)
    ensures
        forall|path: Path| #[trigger]
            r.verdict_on(path) == verdict_in(
                resolution.paths@.map_values(|p: PathResult| (p.path, p.verdict)),
                path,
            ),
{
    let mut entries: Vec<(Path, Verdict)> = Vec::new();
    let mut i: usize = 0;
    while i < resolution.paths.len()
        invariant
            i <= resolution.paths.len(),
            entries@.len() == i,
            forall|j: int|
                0 <= j < i ==> #[trigger] entries@[j] == (
                    resolution.paths@[j].path,
                    resolution.paths@[j].verdict,
                ),
        decreases resolution.paths.len() - i,
    {
        entries.push((resolution.paths[i].path, resolution.paths[i].verdict));
        i = i + 1;
    }
    assert(entries@ =~= resolution.paths@.map_values(|p: PathResult| (p.path, p.verdict)));
    VerdictMap { entries }
}

proof fn lemma_worst(paths: Seq<PathResult>)
    ensures
        forall|i: int|
            0 <= i < paths.len() ==> severity((#[trigger] paths[i]).verdict) <= severity(
                worst(paths),
            ),
        paths.len() > 0 ==> exists|i: int|
            0 <= i < paths.len() && (#[trigger] paths[i]).verdict == worst(paths),
    decreases paths.len(),
{
    if paths.len() > 0 {
        let rest = paths.drop_last();
        lemma_worst(rest);
        assert forall|i: int| 0 <= i < paths.len() implies severity((#[trigger] paths[i]).verdict)
            <= severity(worst(paths)) by {
            if i < rest.len() {
                assert(rest[i] == paths[i]);
            }
        }
        if severity(paths.last().verdict) >= severity(worst(rest)) {
            assert(paths[paths.len() - 1].verdict == worst(paths));
        } else {
            let i = choose|i: int|
                0 <= i < rest.len() && (#[trigger] rest[i]).verdict == worst(rest);
            assert(paths[i] == rest[i]);
        }
    }
}

/// The verdict on a choice is the worst verdict of its paths: no path is worse, and one is as bad.
pub proof fn law_the_verdict_is_that_of_the_worst_path(r: Resolution, choice: Choice)
    requires
        r.resolves(choice),
    ensures
        forall|i: int|
            0 <= i < r.paths@.len() ==> severity((#[trigger] r.paths@[i]).verdict) <= severity(
                r.overall,
            ),
        exists|i: int| 0 <= i < r.paths@.len() && (#[trigger] r.paths@[i]).verdict == r.overall,
{
    lemma_worst(r.paths@);
}

/// To sign messages is a matter of its own: whether the device can makes no difference to any path
/// but that of policy changes, and that path is never blocked.
pub proof fn law_message_signing_only_affects_policy_changes(
    choice: Choice,
    other: Choice,
    path: Path,
)
    requires
        other == (Choice {
            hardware: HardwareEntry {
                signs_message: other.hardware.signs_message,
                ..choice.hardware
            },
            ..choice
        }),
    ensures
        path != Path::PolicyChange ==> path_gaps(other, path) == path_gaps(choice, path),
        path == Path::PolicyChange ==> path_verdict(path, path_gaps(other, path))
            != Verdict::Blocked,
{
}

/// Recovery without the hardware key needs neither the device nor an app that drives it: it is
/// clear exactly where the app with the mobile key tracks the wallet.
pub proof fn law_recovery_without_hardware_needs_only_the_mobile_app(choice: Choice)
    ensures
        path_verdict(
            Path::RecoveryHardwareGone,
            path_gaps(choice, Path::RecoveryHardwareGone),
        ) == Verdict::Clear <==> choice.mobile.registers_miniscript,
{
}

proof fn lemma_registering(entries: Seq<CoordinatorEntry>, app_id: Seq<char>)
    ensures
        registering_labels(entries, app_id).len() == 0 <==> forall|i: int|
            0 <= i < entries.len() ==> !((#[trigger] entries[i]).registers_miniscript
                && entries[i].id@ != app_id),
    decreases entries.len(),
{
    if entries.len() > 0 {
        let before = entries.drop_last();
        lemma_registering(before, app_id);
        assert(forall|i: int| 0 <= i < before.len() ==> #[trigger] before[i] == entries[i]);
        if registering_labels(entries, app_id).len() == 0 {
            assert forall|i: int| 0 <= i < entries.len() implies !((
            #[trigger] entries[i]).registers_miniscript && entries[i].id@ != app_id) by {
                if i < before.len() {
                    assert(before[i] == entries[i]);
                }
            }
        } else if !(entries.last().registers_miniscript && entries.last().id@ != app_id) {
            let i = choose|i: int|
                0 <= i < before.len() && (#[trigger] before[i]).registers_miniscript
                    && before[i].id@ != app_id;
            assert(entries[i] == before[i]);
        } else {
            assert(entries[entries.len() - 1].registers_miniscript);
        }
    }
}

/// Recovery without the hardware key is blocked exactly where no listed app tracks the wallet:
/// neither the app with the mobile key nor any other, the coordinator among them.
pub proof fn law_recovery_without_hardware_is_blocked_only_where_no_app_tracks_the_wallet(
    m: Matrix,
    hardware_id: Seq<char>,
    coordinator_id: Seq<char>,
    mobile_holder_id: Seq<char>,
)
    requires
        unknown_id(m, hardware_id, coordinator_id, mobile_holder_id) is None,
    ensures
        ({
            let choice = choice_of(m, hardware_id, coordinator_id, mobile_holder_id);
            path_verdict(
                Path::RecoveryHardwareGone,
                path_gaps(choice, Path::RecoveryHardwareGone),
            ) == Verdict::Blocked <==> !choice.mobile.registers_miniscript && forall|i: int|
                0 <= i < m.coordinators@.len() && (
                #[trigger] m.coordinators@[i]).registers_miniscript ==> m.coordinators@[i].id@
                    == mobile_holder_id
        }),
{
    let choice = choice_of(m, hardware_id, coordinator_id, mobile_holder_id);
    lemma_coordinator_has_the_id(m.coordinators@, mobile_holder_id);
    lemma_registering(m.coordinators@, mobile_holder_id);
    let gaps = path_gaps(choice, Path::RecoveryHardwareGone);
    if !choice.mobile.registers_miniscript {
        assert(gaps.len() == 1);
        assert(gaps[0] == GapModel::CannotRegisterDescriptor { alternatives: choice.standing_in });
        assert(has_substitute(gaps[0]) == (choice.standing_in.len() > 0));
    }
}

/// A device that cannot sign for the wallet's script blocks everyday spending, whatever the apps
/// can do.
pub proof fn law_a_device_that_cannot_sign_blocks_spending(choice: Choice)
    requires
        !(choice.hardware.signs_miniscript && choice.hardware.signs_older),
    ensures
        path_verdict(Path::DailySpend, path_gaps(choice, Path::DailySpend)) == Verdict::Blocked,
{
    let gaps = path_gaps(choice, Path::DailySpend);
    assert(gaps.last() == GapModel::HardwareCannotSign);
    assert(!has_substitute(gaps[gaps.len() - 1]));
}

/// Nothing has to be acknowledged exactly where every path is clear and all three entries are
/// authoritative: an entry that is not is a caveat even where every capability is there.
pub proof fn law_only_a_verified_clear_choice_needs_no_acknowledgement(
    r: Resolution,
    choice: Choice,
)
    requires
        r.resolves(choice),
    ensures
        acknowledgement_text(r) is None <==> {
            &&& forall|i: int|
                0 <= i < r.paths@.len() ==> (#[trigger] r.paths@[i]).verdict == Verdict::Clear
            &&& choice.hardware.verified == Provenance::SignetTested
            &&& choice.coordinator.verified == Provenance::SignetTested
            &&& choice.mobile.verified == Provenance::SignetTested
        },
{
    lemma_worst(r.paths@);
    assert(r.caveats.deep_view().len() == r.caveats@.len());
    if r.overall == Verdict::Clear {
        assert forall|i: int| 0 <= i < r.paths@.len() implies (#[trigger] r.paths@[i]).verdict
            == Verdict::Clear by {
            assert(severity(r.paths@[i].verdict) <= 0);
        }
    }
}

/// Everyday spending, and recovery without the server, are clear exactly where the app that tracks the
/// wallet registers its descriptor and drives the device, and the device signs for its script and its
/// timelock. Changing the policy is clear exactly where the app drives the device and the device signs
/// messages.
pub proof fn law_a_path_is_clear_where_app_and_device_can_do_all_of_it(choice: Choice)
    ensures
        ({
            let tracks = choice.coordinator.registers_miniscript;
            let drives = exists|i: int|
                0 <= i < choice.coordinator.drives@.len() && (
                #[trigger] choice.coordinator.drives@[i])@ == choice.hardware_id;
            let signs = choice.hardware.signs_miniscript && choice.hardware.signs_older;
            let daily = path_verdict(Path::DailySpend, path_gaps(choice, Path::DailySpend));
            let no_server = path_verdict(
                Path::RecoveryServerGone,
                path_gaps(choice, Path::RecoveryServerGone),
            );
            let policy = path_verdict(Path::PolicyChange, path_gaps(choice, Path::PolicyChange));
            &&& daily == Verdict::Clear <==> tracks && drives && signs
            &&& no_server == Verdict::Clear <==> tracks && drives && signs
            &&& policy == Verdict::Clear <==> drives && choice.hardware.signs_message
            &&& policy != Verdict::Blocked
        }),
{
    lemma_drives(choice.coordinator, choice.hardware_id);
}

proof fn lemma_drives(c: CoordinatorEntry, hardware_id: Seq<char>)
    ensures
        can_drive(c, hardware_id) <==> exists|i: int|
            0 <= i < c.drives@.len() && (#[trigger] c.drives@[i])@ == hardware_id,
{
    let texts = c.drives.deep_view();
    if can_drive(c, hardware_id) {
        let i = choose|i: int| 0 <= i < texts.len() && texts[i] == hardware_id;
        assert(c.drives@[i]@ == hardware_id);
    }
    if exists|i: int| 0 <= i < c.drives@.len() && (#[trigger] c.drives@[i])@ == hardware_id {
        let i = choose|i: int|
            0 <= i < c.drives@.len() && (#[trigger] c.drives@[i])@ == hardware_id;
        assert(texts[i] == hardware_id);
    }
}

/// Everyday spending, and recovery without the server, are blocked exactly where the device cannot sign,
/// or the app cannot do its part and no other listed app can.
pub proof fn law_spending_is_blocked_where_no_listed_app_helps(choice: Choice, path: Path)
    requires
        path == Path::DailySpend || path == Path::RecoveryServerGone,
    ensures
        path_verdict(path, path_gaps(choice, path)) == Verdict::Blocked <==> {
            ||| !choice.hardware.signs_miniscript
            ||| !choice.hardware.signs_older
            ||| !choice.coordinator.registers_miniscript && choice.registering.len() == 0
            ||| !can_drive(choice.coordinator, choice.hardware_id) && choice.driving.len() == 0
        },
{
    let gaps = path_gaps(choice, path);
    let registration = GapModel::CannotRegisterDescriptor { alternatives: choice.registering };
    let driving = GapModel::CannotDriveHardware { alternatives: choice.driving };
    if !choice.coordinator.registers_miniscript {
        assert(gaps[0] == registration);
    }
    if !can_drive(choice.coordinator, choice.hardware_id) {
        let k = if choice.coordinator.registers_miniscript {
            0int
        } else {
            1int
        };
        assert(gaps[k] == driving);
    }
    if !(choice.hardware.signs_miniscript && choice.hardware.signs_older) {
        assert(gaps[gaps.len() - 1] == GapModel::HardwareCannotSign);
    }
    if path_verdict(path, gaps) == Verdict::Blocked {
        let i = choose|i: int| 0 <= i < gaps.len() && !has_substitute(#[trigger] gaps[i]);
        assert(gaps[i] == registration || gaps[i] == driving || gaps[i]
            == GapModel::HardwareCannotSign);
    }
}

/// Each thing that keeps a path from being clear is reported, once, with the apps that could stand in:
/// no registration, no driving of the device, no signing, and no signing of messages, in that order.
pub proof fn law_each_gap_is_reported(choice: Choice, path: Path)
    ensures
        ({
            let gaps = path_gaps(choice, path);
            let hardware_gone = path == Path::RecoveryHardwareGone;
            let spends = path == Path::DailySpend || path == Path::RecoveryServerGone;
            let drives = can_drive(choice.coordinator, choice.hardware_id);
            &&& spends && !choice.coordinator.registers_miniscript ==> gaps.contains(
                GapModel::CannotRegisterDescriptor { alternatives: choice.registering },
            )
            &&& hardware_gone && !choice.mobile.registers_miniscript ==> gaps.contains(
                GapModel::CannotRegisterDescriptor { alternatives: choice.standing_in },
            )
            &&& !hardware_gone && !drives ==> gaps.contains(
                GapModel::CannotDriveHardware { alternatives: choice.driving },
            )
            &&& spends && !(choice.hardware.signs_miniscript && choice.hardware.signs_older)
                ==> gaps.contains(GapModel::HardwareCannotSign)
            &&& path == Path::PolicyChange && !choice.hardware.signs_message ==> gaps.contains(
                GapModel::HardwareCannotSignMessages,
            )
        }),
{
    let gaps = path_gaps(choice, path);
    let hardware_gone = path == Path::RecoveryHardwareGone;
    let spends = path == Path::DailySpend || path == Path::RecoveryServerGone;
    if spends && !choice.coordinator.registers_miniscript {
        assert(gaps[0] == (GapModel::CannotRegisterDescriptor {
            alternatives: choice.registering,
        }));
    }
    if hardware_gone && !choice.mobile.registers_miniscript {
        assert(gaps[0] == (GapModel::CannotRegisterDescriptor {
            alternatives: choice.standing_in,
        }));
    }
    if !hardware_gone && !can_drive(choice.coordinator, choice.hardware_id) {
        let k = if spends && !choice.coordinator.registers_miniscript {
            1int
        } else {
            0int
        };
        assert(gaps[k] == (GapModel::CannotDriveHardware { alternatives: choice.driving }));
    }
    if spends && !(choice.hardware.signs_miniscript && choice.hardware.signs_older) {
        assert(gaps[gaps.len() - 1] == GapModel::HardwareCannotSign);
    }
    if path == Path::PolicyChange && !choice.hardware.signs_message {
        assert(gaps[gaps.len() - 1] == GapModel::HardwareCannotSignMessages);
    }
}

/// The apps that could track the wallet in place of one are all the others that register its
/// descriptor, and those that could drive the device besides are all of them that drive it.
pub proof fn law_every_app_that_could_stand_in_is_named(
    entries: Seq<CoordinatorEntry>,
    c: CoordinatorEntry,
    app_id: Seq<char>,
    hardware_id: Seq<char>,
)
    ensures
        registering_labels(Seq::empty(), app_id).len() == 0,
        driving_labels(Seq::empty(), app_id, hardware_id).len() == 0,
        registering_labels(entries.push(c), app_id) == if c.registers_miniscript && c.id@
            != app_id {
            registering_labels(entries, app_id).push(c.label@)
        } else {
            registering_labels(entries, app_id)
        },
        driving_labels(entries.push(c), app_id, hardware_id) == if c.registers_miniscript
            && c.id@ != app_id && (exists|i: int|
            0 <= i < c.drives@.len() && (#[trigger] c.drives@[i])@ == hardware_id) {
            driving_labels(entries, app_id, hardware_id).push(c.label@)
        } else {
            driving_labels(entries, app_id, hardware_id)
        },
{
    assert(entries.push(c).drop_last() =~= entries);
    lemma_drives(c, hardware_id);
}

/// An entry is found by its id exactly where one has it, and it is the first that does.
pub proof fn law_an_entry_is_found_by_its_id(
    hardware: Seq<HardwareEntry>,
    apps: Seq<CoordinatorEntry>,
    id: Seq<char>,
)
    ensures
        match hardware_at(hardware, id) {
            Some(h) => exists|i: int|
                0 <= i < hardware.len() && #[trigger] hardware[i] == h && h.id@ == id && (forall|
                    j: int,
                |
                    0 <= j < i ==> (#[trigger] hardware[j]).id@ != id),
            None => forall|i: int| 0 <= i < hardware.len() ==> (#[trigger] hardware[i]).id@ != id,
        },
        match coordinator_at(apps, id) {
            Some(c) => exists|i: int|
                0 <= i < apps.len() && #[trigger] apps[i] == c && c.id@ == id && (forall|j: int|
                    0 <= j < i ==> (#[trigger] apps[j]).id@ != id),
            None => forall|i: int| 0 <= i < apps.len() ==> (#[trigger] apps[i]).id@ != id,
        },
    decreases hardware.len() + apps.len(),
{
    if hardware.len() > 0 {
        let rest = hardware.skip(1);
        law_an_entry_is_found_by_its_id(rest, apps, id);
        assert(forall|i: int| 0 < i < hardware.len() ==> rest[i - 1] == #[trigger] hardware[i]);
        if hardware[0].id@ == id {
            assert(hardware[0] == hardware_at(hardware, id)->Some_0);
        } else if hardware_at(rest, id) is Some {
            let i = choose|i: int|
                0 <= i < rest.len() && #[trigger] rest[i] == hardware_at(rest, id)->Some_0 && (
                forall|j: int| 0 <= j < i ==> (#[trigger] rest[j]).id@ != id);
            assert(hardware[i + 1] == hardware_at(hardware, id)->Some_0);
            assert forall|j: int| 0 <= j < i + 1 implies (#[trigger] hardware[j]).id@ != id by {
                if j > 0 {
                    assert(rest[j - 1].id@ != id);
                }
            }
        } else {
            assert forall|i: int| 0 <= i < hardware.len() implies (#[trigger] hardware[i]).id@
                != id by {
                if i > 0 {
                    assert(rest[i - 1].id@ != id);
                }
            }
        }
    } else if apps.len() > 0 {
        let rest = apps.skip(1);
        law_an_entry_is_found_by_its_id(hardware, rest, id);
        assert(forall|i: int| 0 < i < apps.len() ==> rest[i - 1] == #[trigger] apps[i]);
        if apps[0].id@ == id {
            assert(apps[0] == coordinator_at(apps, id)->Some_0);
        } else if coordinator_at(rest, id) is Some {
            let i = choose|i: int|
                0 <= i < rest.len() && #[trigger] rest[i] == coordinator_at(rest, id)->Some_0 && (
                forall|j: int| 0 <= j < i ==> (#[trigger] rest[j]).id@ != id);
            assert(apps[i + 1] == coordinator_at(apps, id)->Some_0);
            assert forall|j: int| 0 <= j < i + 1 implies (#[trigger] apps[j]).id@ != id by {
                if j > 0 {
                    assert(rest[j - 1].id@ != id);
                }
            }
        } else {
            assert forall|i: int| 0 <= i < apps.len() implies (#[trigger] apps[i]).id@ != id by {
                if i > 0 {
                    assert(rest[i - 1].id@ != id);
                }
            }
        }
    }
}

/// A choice is made up of the entries of the three ids, and is refused where one has none, the hardware
/// first and the mobile holder last.
pub proof fn law_a_choice_is_of_the_entries_that_were_named(
    m: Matrix,
    hardware_id: Seq<char>,
    coordinator_id: Seq<char>,
    mobile_holder_id: Seq<char>,
)
    ensures
        ({
            let unknown = unknown_id(m, hardware_id, coordinator_id, mobile_holder_id);
            let choice = choice_of(m, hardware_id, coordinator_id, mobile_holder_id);
            let hardware = hardware_at(m.hardware@, hardware_id);
            let coordinator = coordinator_at(m.coordinators@, coordinator_id);
            let mobile = coordinator_at(m.coordinators@, mobile_holder_id);
            &&& unknown is None <==> hardware is Some && coordinator is Some && mobile is Some
            &&& unknown == Some(UnknownId::Hardware) <==> hardware is None
            &&& unknown == Some(UnknownId::MobileHolder) <==> hardware is Some && coordinator
                is Some && mobile is None
            &&& unknown is None ==> {
                &&& choice.hardware.id@ == hardware_id
                &&& choice.hardware_id == hardware_id
                &&& choice.coordinator.id@ == coordinator_id
                &&& choice.mobile.id@ == mobile_holder_id
                &&& choice.registering == registering_labels(m.coordinators@, coordinator_id)
                &&& choice.standing_in == registering_labels(m.coordinators@, mobile_holder_id)
                &&& choice.driving == driving_labels(
                    m.coordinators@,
                    coordinator_id,
                    hardware_id,
                )
            }
        }),
{
    law_an_entry_is_found_by_its_id(m.hardware@, m.coordinators@, hardware_id);
    lemma_coordinator_has_the_id(m.coordinators@, coordinator_id);
    lemma_coordinator_has_the_id(m.coordinators@, mobile_holder_id);
}

/// Every entry of a choice that was not tested end to end has a caveat that names it, and no other has.
pub proof fn law_every_untested_entry_has_a_caveat(choice: Choice)
    ensures
        ({
            let caveats = choice_caveats(choice);
            let of = |label: Seq<char>, p: Provenance| label + ": "@ + provenance_text(p);
            &&& choice.hardware.verified != Provenance::SignetTested ==> caveats.contains(
                of(choice.hardware.label@, choice.hardware.verified),
            )
            &&& choice.coordinator.verified != Provenance::SignetTested ==> caveats.contains(
                of(choice.coordinator.label@, choice.coordinator.verified),
            )
            &&& choice.mobile.verified != Provenance::SignetTested ==> caveats.contains(
                of(choice.mobile.label@, choice.mobile.verified),
            )
            &&& caveats.len() == (if choice.hardware.verified != Provenance::SignetTested {
                1nat
            } else {
                0nat
            }) + (if choice.coordinator.verified != Provenance::SignetTested {
                1nat
            } else {
                0nat
            }) + (if choice.mobile.verified != Provenance::SignetTested && choice.mobile
                != choice.coordinator {
                1nat
            } else {
                0nat
            })
        }),
{
    let caveats = choice_caveats(choice);
    let a = caveat(choice.hardware.label@, choice.hardware.verified);
    let b = caveat(choice.coordinator.label@, choice.coordinator.verified);
    if choice.hardware.verified != Provenance::SignetTested {
        assert(caveats[0] == a[0]);
    }
    if choice.coordinator.verified != Provenance::SignetTested {
        assert(caveats[a.len() as int] == b[0]);
    }
    if choice.mobile.verified != Provenance::SignetTested && choice.mobile != choice.coordinator {
        assert(caveats[caveats.len() - 1] == caveat(
            choice.mobile.label@,
            choice.mobile.verified,
        )[0]);
    }
}

/// What has to be acknowledged says of every path that is not clear what is missing on it.
pub proof fn law_every_path_that_is_not_clear_is_spelled_out(paths: Seq<PathResult>, i: int, g: int)
    requires
        0 <= i < paths.len(),
        paths[i].verdict != Verdict::Clear,
        0 <= g < paths[i].gaps@.len(),
    ensures
        occurs(path_sentences(paths), gap_text(paths[i].gaps.deep_view()[g])),
    decreases paths.len(),
{
    let before = path_sentences(paths.drop_last());
    let part = gap_text(paths[i].gaps.deep_view()[g]);
    if i < paths.len() - 1 {
        law_every_path_that_is_not_clear_is_spelled_out(paths.drop_last(), i, g);
        if paths.last().verdict != Verdict::Clear {
            lemma_occurs_beside(before, path_sentence(paths.last()), part);
            lemma_occurs_beside(before + path_sentence(paths.last()), "\n"@, part);
        }
    } else {
        let p = paths.last();
        let texts = p.gaps.deep_view().map_values(|x: GapModel| gap_text(x));
        law_each_part_is_in_the_joined_text(texts, "; "@, g);
        lemma_occurs_beside(p.label@ + ": "@, joined(texts, "; "@), part);
        lemma_occurs_beside(before, path_sentence(p), part);
        lemma_occurs_beside(before + path_sentence(p), "\n"@, part);
    }
}

/// A choice is clear as a whole exactly where every path is, and blocked exactly where one path is.
pub proof fn law_a_choice_is_as_good_as_its_worst_path(r: Resolution, choice: Choice)
    requires
        r.resolves(choice),
    ensures
        r.overall == Verdict::Clear <==> forall|i: int|
            0 <= i < r.paths@.len() ==> (#[trigger] r.paths@[i]).verdict == Verdict::Clear,
        r.overall == Verdict::Blocked <==> exists|i: int|
            0 <= i < r.paths@.len() && (#[trigger] r.paths@[i]).verdict == Verdict::Blocked,
{
    law_the_verdict_is_that_of_the_worst_path(r, choice);
    lemma_worst_of(r.paths@, r.overall);
}

proof fn lemma_worst_of(paths: Seq<PathResult>, overall: Verdict)
    requires
        forall|i: int|
            0 <= i < paths.len() ==> severity((#[trigger] paths[i]).verdict) <= severity(overall),
        exists|i: int| 0 <= i < paths.len() && (#[trigger] paths[i]).verdict == overall,
    ensures
        overall == Verdict::Clear <==> forall|i: int|
            0 <= i < paths.len() ==> (#[trigger] paths[i]).verdict == Verdict::Clear,
        overall == Verdict::Blocked <==> exists|i: int|
            0 <= i < paths.len() && (#[trigger] paths[i]).verdict == Verdict::Blocked,
{
}

/// All four ways to use a wallet are looked at, each once, and each by what keeps the choice from it.
pub proof fn law_every_path_is_looked_at(r: Resolution, choice: Choice, i: int)
    requires
        r.resolves(choice),
        0 <= i < 4,
    ensures
        r.paths@.len() == 4,
        i == 0 ==> r.paths@[i].path == Path::DailySpend,
        i == 1 ==> r.paths@[i].path == Path::PolicyChange,
        i == 2 ==> r.paths@[i].path == Path::RecoveryServerGone,
        i == 3 ==> r.paths@[i].path == Path::RecoveryHardwareGone,
        r.paths@[i].gaps.deep_view() == path_gaps(choice, r.paths@[i].path),
        r.paths@[i].verdict == path_verdict(
            r.paths@[i].path,
            path_gaps(choice, r.paths@[i].path),
        ),
{
    assert(all_paths().len() == 4);
    assert(r.paths@[i].path == all_paths()[i]);
}

/// Among the options for an app, none that is less clear stands before one that is clearer, and every
/// piece of hardware is there, with what it comes to.
pub proof fn law_the_workable_options_come_first(
    options: Seq<(HardwareEntry, Resolution)>,
    m: Matrix,
    coordinator_id: Seq<char>,
    mobile_holder_id: Seq<char>,
    i: int,
    j: int,
)
    requires
        are_all_options(options, m, coordinator_id, mobile_holder_id),
        0 <= i < j < options.len(),
    ensures
        options.len() == m.hardware@.len(),
        options[j].1.overall == Verdict::Clear ==> options[i].1.overall == Verdict::Clear,
        options[i].1.overall == Verdict::Blocked ==> options[j].1.overall == Verdict::Blocked,
        options[i].1.overall == options[j].1.overall ==> text_le(
            options[i].0.label@,
            options[j].0.label@,
        ),
        options[i].1.resolves(
            choice_of(m, options[i].0.id@, coordinator_id, mobile_holder_id),
        ),
        m.hardware@.contains(options[i].0),
{
    let n = m.hardware@.len() as int;
    let p = choose|p: Seq<int>| #[trigger]
        are_options(options, p, m, coordinator_id, mobile_holder_id, n);
    assert(option_le(options[i], options[j]));
    assert(is_option(
        options[i],
        m.hardware@[p[i]],
        m,
        coordinator_id,
        mobile_holder_id,
    ));
}

/// What a gap says names every app that could stand in.
pub proof fn law_a_gap_names_every_app_that_could_stand_in(alternatives: Seq<Seq<char>>, i: int)
    requires
        0 <= i < alternatives.len(),
    ensures
        occurs(
            gap_text(GapModel::CannotRegisterDescriptor { alternatives }),
            alternatives[i],
        ),
        occurs(gap_text(GapModel::CannotDriveHardware { alternatives }), alternatives[i]),
{
    law_each_part_is_in_the_joined_text(alternatives, " or "@, i);
    lemma_occurs_beside(
        "your coordinator cannot track this wallet's descriptor - you would need "@,
        joined(alternatives, " or "@),
        alternatives[i],
    );
    lemma_occurs_beside(
        "your coordinator cannot sign with this device - EVERY transaction on this path would need "@,
        joined(alternatives, " or "@),
        alternatives[i],
    );
}

/// What has to be acknowledged holds what is said of every path, every caveat and, where the choice is
/// blocked, that the money may be stuck.
pub proof fn law_an_acknowledgement_keeps_nothing_back(r: Resolution, i: int)
    requires
        acknowledgement_text(r) is Some,
    ensures
        occurs(acknowledgement_text(r)->Some_0, path_sentences(r.paths@)),
        0 <= i < r.caveats@.len() ==> occurs(acknowledgement_text(r)->Some_0, r.caveats@[i]@),
        r.overall == Verdict::Blocked ==> occurs(
            acknowledgement_text(r)->Some_0,
            "If you fund this wallet you may be unable to spend from it until software support changes."@,
        ),
{
    let a = path_sentences(r.paths@);
    let b = ended(r.caveats.deep_view(), "\n"@);
    let c = if r.overall == Verdict::Blocked {
        "\nIf you fund this wallet you may be unable to spend from it until software support changes."@
    } else {
        Seq::empty()
    };
    lemma_occurs_in_itself(a);
    lemma_occurs_beside(a, b, a);
    lemma_occurs_beside(a + b, c, a);
    if 0 <= i < r.caveats@.len() {
        let part = r.caveats.deep_view()[i];
        law_each_part_is_in_the_ended_text(r.caveats.deep_view(), "\n"@, i);
        lemma_occurs_beside(a, b, part);
        lemma_occurs_beside(a + b, c, part);
    }
    if r.overall == Verdict::Blocked {
        let warning =
            "If you fund this wallet you may be unable to spend from it until software support changes."@;
        reveal_strlit(
            "If you fund this wallet you may be unable to spend from it until software support changes.",
        );
        reveal_strlit(
            "\nIf you fund this wallet you may be unable to spend from it until software support changes.",
        );
        assert(c.subrange(1int, 1int + warning.len()) =~= warning);
        lemma_occurs_beside(a + b, c, warning);
    }
}

/// The verdict on a path is the one that the resolution has for it.
pub proof fn law_the_verdict_on_a_path_is_the_resolutions(r: Resolution, choice: Choice, i: int)
    requires
        r.resolves(choice),
        0 <= i < 4,
    ensures
        verdict_in(
            r.paths@.map_values(|p: PathResult| (p.path, p.verdict)),
            all_paths()[i],
        ) == Some(r.paths@[i].verdict),
{
    let all = r.paths@.map_values(|p: PathResult| (p.path, p.verdict));
    assert(all.len() == 4);
    assert(all.drop_last().drop_last().drop_last() =~= all.take(1));
    assert(r.paths@[0].path == all_paths()[0]);
    assert(r.paths@[1].path == all_paths()[1]);
    assert(r.paths@[2].path == all_paths()[2]);
    assert(r.paths@[3].path == all_paths()[3]);
    reveal_with_fuel(verdict_in, 5);
}

/// A matrix is sound exactly where no two devices have the same id and every app drives only devices that
/// are listed.
pub proof fn law_a_sound_matrix_lists_what_it_names(m: Matrix)
    ensures
        !has_duplicates(m.hardware@) <==> forall|i: int, j: int|
            0 <= i < j < m.hardware@.len() ==> (#[trigger] m.hardware@[i]).id@ != (
            #[trigger] m.hardware@[j]).id@,
        forall|c: int, d: int|
            0 <= c < m.coordinators@.len() && 0 <= d < m.coordinators@[c].drives@.len() ==> (
            #[trigger] drives_unknown(m, c, d) <==> hardware_at(
                m.hardware@,
                m.coordinators@[c].drives@[d]@,
            ) is None),
{
}

}
