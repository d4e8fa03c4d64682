//! The `install` command: one package mirrored and recorded in the manifest.
//!
//! An [`InstallSession`] sequences one install. Like the walk it drives, it
//! does no input or output: it asks for one [`InstallAction`] at a time and
//! is told what came of it. The manifest is written last, and only after the
//! whole tree has been mirrored.

use crate::error::InstallError;
use crate::registry::mirror::{
    begin, fits, step, ActionView, EventView, MirrorAction, MirrorEvent, TreeWalk, WalkView,
};
use crate::registry::tree::{
    lemma_responses_len, lemma_step_ends, lemma_tree_actions_go_on, lemma_walk_mirrors_tree,
    listing_of, responses, run, tree_actions, tree_bytes, tree_events, RemoteNode,
};
use crate::specifier::{denotes, joined, PackageSpecifier, SpecifierView};
use crate::types::{merged, PackageConfig, PackageConfigView};
use vstd::prelude::*;

verus! {

/// The version recorded for every installed package. The registry does not
/// tell the version of what it serves, so the manifest holds this one.
pub const DEFAULT_VERSION: &'static str = "1.0.0";

/// The directory below which packages are installed.
pub const PACKAGES_DIR: &'static str = "packages";

/// The directory into which a package is installed: `packages/@author/name`.
pub open spec fn install_dir_of(specifier: SpecifierView) -> Seq<char> {
    PACKAGES_DIR@ + seq!['/', '@'] + specifier.author + seq!['/'] + specifier.name
}

/// How far an install has come.
pub enum StageView {
    /// The remote tree is being mirrored.
    Mirroring { walk: WalkView },
    /// The tree is mirrored; the manifest is being read.
    LoadingManifest { total: nat },
    /// The manifest with the new dependency is being written.
    SavingManifest { total: nat },
    /// The package is installed.
    Done { total: nat },
    /// The install was given up.
    Failed { error: InstallError },
}

/// The mathematical value of an [`InstallSession`].
pub struct SessionView {
    pub specifier: SpecifierView,
    pub stage: StageView,
}

/// The mathematical value of an [`InstallEvent`].
pub enum InstallEventView {
    Mirror { event: EventView },
    ManifestLoaded { manifest: Option<PackageConfigView> },
    ManifestSaved,
    Failed { error: InstallError },
}

/// The mathematical value of an [`InstallAction`].
pub enum InstallActionView {
    Mirror { action: ActionView },
    LoadManifest,
    SaveManifest { manifest: PackageConfigView },
    Report { total_bytes: nat },
    Abort { error: InstallError },
}

/// The manifest of a project that has none yet.
pub open spec fn empty_manifest() -> PackageConfigView {
    PackageConfigView { package: None, dependencies: Map::empty() }
}

/// The manifest to write after `specifier` was installed: the one that was
/// read, or the empty one where no file was there, with the package merged
/// into it under the default version.
pub open spec fn manifest_after(
    loaded: Option<PackageConfigView>,
    specifier: SpecifierView,
) -> PackageConfigView {
    let base = match loaded {
        Some(manifest) => manifest,
        None => empty_manifest(),
    };
    merged(base, specifier.author, specifier.name, DEFAULT_VERSION@)
}

/// The install of `specifier` at its start, and its first action.
pub open spec fn session_begin(specifier: SpecifierView) -> (SessionView, InstallActionView) {
    let started = begin(specifier.author, specifier.name, install_dir_of(specifier));
    (
        SessionView { specifier, stage: StageView::Mirroring { walk: started.0 } },
        InstallActionView::Mirror { action: started.1 },
    )
}

/// The install given up with `error`.
pub open spec fn session_failed(session: SessionView, error: InstallError) -> (
    SessionView,
    InstallActionView,
) {
    (
        SessionView { stage: StageView::Failed { error }, ..session },
        InstallActionView::Abort { error },
    )
}

/// One step of an install: the state after `event`, and the next action.
///
/// While the tree is mirrored the walk decides. When the walk finishes, the
/// manifest is read, the package merged into it, and the result written;
/// then the install is done. A failure at any point gives the install up, and
/// so does an event that does not answer the action that was asked for. An
/// install that is done or given up stays as it is.
pub open spec fn session_step(session: SessionView, event: InstallEventView) -> (
    SessionView,
    InstallActionView,
) {
    match session.stage {
        StageView::Done { total } => (session, InstallActionView::Report { total_bytes: total }),
        StageView::Failed { error } => (session, InstallActionView::Abort { error }),
        StageView::Mirroring { walk } => match event {
            InstallEventView::Mirror { event } => {
                let stepped = step(walk, event);
                match stepped.1 {
                    ActionView::Finish { total_bytes } => (
                        SessionView {
                            stage: StageView::LoadingManifest { total: total_bytes },
                            ..session
                        },
                        InstallActionView::LoadManifest,
                    ),
                    ActionView::Abort { error } => session_failed(session, error),
                    action => (
                        SessionView { stage: StageView::Mirroring { walk: stepped.0 }, ..session },
                        InstallActionView::Mirror { action },
                    ),
                }
            },
            InstallEventView::Failed { error } => session_failed(session, error),
            _ => session_failed(session, InstallError::ProtocolError),
        },
        StageView::LoadingManifest { total } => match event {
            InstallEventView::ManifestLoaded { manifest } => (
                SessionView { stage: StageView::SavingManifest { total }, ..session },
                InstallActionView::SaveManifest {
                    manifest: manifest_after(manifest, session.specifier),
                },
            ),
            InstallEventView::Failed { error } => session_failed(session, error),
            _ => session_failed(session, InstallError::ProtocolError),
        },
        StageView::SavingManifest { total } => match event {
            InstallEventView::ManifestSaved => (
                SessionView { stage: StageView::Done { total }, ..session },
                InstallActionView::Report { total_bytes: total },
            ),
            InstallEventView::Failed { error } => session_failed(session, error),
            _ => session_failed(session, InstallError::ProtocolError),
        },
    }
}

/// Whether `event` can be taken in without the byte count leaving the range
/// of a 64-bit counter.
pub open spec fn session_fits(session: SessionView, event: InstallEventView) -> bool {
    session.stage is Mirroring && event is Mirror ==> fits(
        session.stage->walk,
        event->Mirror_event,
    )
}

/// What the caller is asked to do next.
#[derive(Debug)]
pub enum InstallAction {
    /// Do what the walk asks for. Answered by `Mirror`.
    Mirror { action: MirrorAction },
    /// Read the manifest of the project. Answered by `ManifestLoaded`, with no
    /// manifest where the file does not exist.
    LoadManifest,
    /// Write this manifest over the one of the project. Answered by
    /// `ManifestSaved`.
    SaveManifest { manifest: PackageConfig },
    /// The package is installed; this many bytes were written.
    Report { total_bytes: u64 },
    /// The install was given up.
    Abort { error: InstallError },
}

impl View for InstallAction {
    type V = InstallActionView;

    open spec fn view(&self) -> InstallActionView {
        match self {
            InstallAction::Mirror { action } => InstallActionView::Mirror { action: action@ },
            InstallAction::LoadManifest => InstallActionView::LoadManifest,
            InstallAction::SaveManifest { manifest } => InstallActionView::SaveManifest {
                manifest: manifest@,
            },
            InstallAction::Report { total_bytes } => InstallActionView::Report {
                total_bytes: *total_bytes as nat,
            },
            InstallAction::Abort { error } => InstallActionView::Abort { error: *error },
        }
    }
}

/// What came of the action that was asked for.
#[derive(Debug)]
pub enum InstallEvent {
    /// What came of an action of the walk.
    Mirror { event: MirrorEvent },
    /// The manifest was read; there is none where the file does not exist.
    ManifestLoaded { manifest: Option<PackageConfig> },
    /// The manifest was written.
    ManifestSaved,
    /// The manifest could not be read or written.
    Failed { error: InstallError },
}

impl View for InstallEvent {
    type V = InstallEventView;

    open spec fn view(&self) -> InstallEventView {
        match self {
            InstallEvent::Mirror { event } => InstallEventView::Mirror { event: event@ },
            InstallEvent::ManifestLoaded { manifest } => InstallEventView::ManifestLoaded {
                manifest: match manifest {
                    Some(m) => Some(m@),
                    None => None,
                },
            },
            InstallEvent::ManifestSaved => InstallEventView::ManifestSaved,
            InstallEvent::Failed { error } => InstallEventView::Failed { error: *error },
        }
    }
}

#[derive(Debug)]
enum Stage {
    Mirroring { walk: TreeWalk },
    LoadingManifest { total_bytes: u64 },
    SavingManifest { total_bytes: u64 },
    Done { total_bytes: u64 },
    Failed { error: InstallError },
}

impl View for Stage {
    type V = StageView;

    closed spec fn view(&self) -> StageView {
        match self {
            Stage::Mirroring { walk } => StageView::Mirroring { walk: walk@ },
            Stage::LoadingManifest { total_bytes } => StageView::LoadingManifest {
                total: *total_bytes as nat,
            },
            Stage::SavingManifest { total_bytes } => StageView::SavingManifest {
                total: *total_bytes as nat,
            },
            Stage::Done { total_bytes } => StageView::Done { total: *total_bytes as nat },
            Stage::Failed { error } => StageView::Failed { error: *error },
        }
    }
}

/// The install of one package.
#[derive(Debug)]
pub struct InstallSession {
    specifier: PackageSpecifier,
    stage: Stage,
}

impl View for InstallSession {
    type V = SessionView;

    closed spec fn view(&self) -> SessionView {
        SessionView { specifier: self.specifier@, stage: self.stage@ }
    }
}

/// The directory into which the package is installed.
pub fn install_dir(specifier: &PackageSpecifier) -> (dir: String)
    ensures
        dir@ == install_dir_of(specifier@),
{
    proof {
        reveal_strlit("/@");
        reveal_strlit("/");
        assert("/@"@ =~= seq!['/', '@']);
        assert("/"@ =~= seq!['/']);
    }
    let mut dir = PACKAGES_DIR.to_owned();
    dir.append("/@");
    dir.append(specifier.author());
    dir.append("/");
    dir.append(specifier.name());
    dir
}

impl InstallSession {
    /// Starts the install of the package that `specifier` names, and says
    /// what to do first.
    pub fn begin(specifier: PackageSpecifier) -> (started: (InstallSession, InstallAction))
        ensures
            (started.0@, started.1@) == session_begin(specifier@),
    {
        let dir = install_dir(&specifier);
        let (walk, action) = TreeWalk::start(specifier.author(), specifier.name(), dir.as_str());
        (
            InstallSession { specifier, stage: Stage::Mirroring { walk } },
            InstallAction::Mirror { action },
        )
    }

    /// The package that is being installed.
    pub fn specifier(&self) -> (specifier: &PackageSpecifier)
        ensures
            specifier@ == self@.specifier,
    {
        &self.specifier
    }

    /// The bytes written, once the install is done.
    pub fn installed_bytes(&self) -> (total: Option<u64>)
        ensures
            match total {
                Some(bytes) => self@.stage == (StageView::Done { total: bytes as nat }),
                None => !(self@.stage is Done),
            },
    {
        match self.stage {
            Stage::Done { total_bytes } => Some(total_bytes),
            _ => None,
        }
    }

    /// The failure that the install was given up with, if it was.
    pub fn failure(&self) -> (failure: Option<InstallError>)
        ensures
            match failure {
                Some(error) => self@.stage == (StageView::Failed { error }),
                None => !(self@.stage is Failed),
            },
    {
        match self.stage {
            Stage::Failed { error } => Some(error),
            _ => None,
        }
    }

    /// Whether `event` can be taken in: a file that was written must not
    /// carry the byte count beyond the range of a 64-bit counter.
    pub fn accepts(&self, event: &InstallEvent) -> (ok: bool)
        ensures
            ok == session_fits(self@, event@),
    {
        match (&self.stage, event) {
            (Stage::Mirroring { walk }, InstallEvent::Mirror { event }) => walk.accepts(event),
            _ => true,
        }
    }

    /// Gives the install up with `error`.
    fn fail(&mut self, error: InstallError) -> (action: InstallAction)
        ensures
            (final(self)@, action@) == session_failed(old(self)@, error),
    {
        self.stage = Stage::Failed { error };
        InstallAction::Abort { error }
    }

    /// Takes in what came of the last action and says what to do next.
    ///
    /// The install moves exactly as [`session_step`] says.
    pub fn step(&mut self, event: InstallEvent) -> (action: InstallAction)
        requires
            session_fits(old(self)@, event@),
        ensures
            (final(self)@, action@) == session_step(old(self)@, event@),
    {
        let mut stage = Stage::SavingManifest { total_bytes: 0 };
        core::mem::swap(&mut self.stage, &mut stage);
        match stage {
            Stage::Done { total_bytes } => {
                self.stage = Stage::Done { total_bytes };
                InstallAction::Report { total_bytes }
            },
            Stage::Failed { error } => {
                self.stage = Stage::Failed { error };
                InstallAction::Abort { error }
            },
            Stage::Mirroring { walk } => match event {
                InstallEvent::Mirror { event } => {
                    let mut walk = walk;
                    match walk.step(event) {
                        MirrorAction::Finish { total_bytes } => {
                            self.stage = Stage::LoadingManifest { total_bytes };
                            InstallAction::LoadManifest
                        },
                        MirrorAction::Abort { error } => self.fail(error),
                        action => {
                            self.stage = Stage::Mirroring { walk };
                            InstallAction::Mirror { action }
                        },
                    }
                },
                InstallEvent::Failed { error } => self.fail(error),
                _ => self.fail(InstallError::ProtocolError),
            },
            Stage::LoadingManifest { total_bytes } => match event {
                InstallEvent::ManifestLoaded { manifest } => {
                    let base = match manifest {
                        Some(manifest) => manifest,
                        None => PackageConfig::empty(),
                    };
                    let manifest = base.merge(&self.specifier, DEFAULT_VERSION);
                    self.stage = Stage::SavingManifest { total_bytes };
                    InstallAction::SaveManifest { manifest }
                },
                InstallEvent::Failed { error } => self.fail(error),
                _ => self.fail(InstallError::ProtocolError),
            },
            Stage::SavingManifest { total_bytes } => match event {
                InstallEvent::ManifestSaved => {
                    self.stage = Stage::Done { total_bytes };
                    InstallAction::Report { total_bytes }
                },
                InstallEvent::Failed { error } => self.fail(error),
                _ => self.fail(InstallError::ProtocolError),
            },
        }
    }
}

/// The `install` command.
#[derive(Clone, Copy, Debug)]
pub struct InstallCommand;

/// The specifier texts to install when none is named: every key of the
/// manifest, in its order. Without a manifest there is nothing to go by.
pub open spec fn bulk_targets(manifest: Option<&PackageConfig>) -> Result<
    Seq<Seq<char>>,
    InstallError,
> {
    match manifest {
        Some(manifest) => Ok(manifest.dependencies.order()),
        None => Err(InstallError::ManifestError),
    }
}

/// The specifier texts to install: the package that is named, whether the
/// project has a manifest or not, or every key of the manifest where none is
/// named. Only then is it an error if there is no manifest.
pub open spec fn project_targets(
    manifest: Option<&PackageConfig>,
    package_name: Option<&str>,
) -> Result<Seq<Seq<char>>, InstallError> {
    match package_name {
        Some(name) => Ok(seq![name@]),
        None => bulk_targets(manifest),
    }
}

/// The texts of a list of strings.
pub open spec fn texts_of(strings: Seq<String>) -> Seq<Seq<char>> {
    Seq::new(strings.len(), |i: int| strings[i]@)
}

/// Whether `result` is the list of strings that `wanted` describes, or the
/// failure it names.
pub open spec fn gives(
    result: Result<Vec<String>, InstallError>,
    wanted: Result<Seq<Seq<char>>, InstallError>,
) -> bool {
    match result {
        Ok(names) => wanted == Ok::<Seq<Seq<char>>, InstallError>(texts_of(names@))
            && wanted.unwrap().len() == names@.len(),
        Err(error) => wanted == Err::<Seq<Seq<char>>, InstallError>(error),
    }
}

impl InstallCommand {
    /// The command.
    pub fn new() -> (command: InstallCommand) {
        InstallCommand
    }

    /// Starts the install of the package that `package_spec` names, and says
    /// what to do first.
    ///
    /// A text that is no specifier is refused before anything is asked of the
    /// caller; every other text starts the install of the package it denotes.
    pub fn execute(&self, package_spec: &str) -> (result: Result<
        (InstallSession, InstallAction),
        InstallError,
    >)
        ensures
            match result {
                Ok(started) => denotes(package_spec@, started.0@.specifier) && (
                    started.0@,
                    started.1@,
                ) == session_begin(started.0@.specifier),
                Err(error) => error == InstallError::InvalidSpecifier && forall|v: SpecifierView|
                    !denotes(package_spec@, v),
            },
    {
        match PackageSpecifier::parse(package_spec) {
            Ok(specifier) => Ok(InstallSession::begin(specifier)),
            Err(error) => Err(error),
        }
    }
}

/// The specifier texts to install when no package is named: the keys of the
/// manifest, each once, in the order of the manifest. The recorded versions
/// play no part. It is an error if there is no manifest.
///
/// The packages are installed one after the other, as [`next_install`]
/// says: each with [`InstallCommand::execute`], and the first failure ends
/// the run.
pub fn install_from_msc_toml(manifest: Option<&PackageConfig>) -> (result: Result<
    Vec<String>,
    InstallError,
>)
    ensures
        gives(result, bulk_targets(manifest)),
        result matches Ok(names) ==> {
            &&& forall|i: int, j: int| 0 <= i < j < names@.len() ==> names@[i]@ != names@[j]@
            &&& forall|key: Seq<char>|
                manifest.unwrap().dependencies@.contains_key(key) <==> texts_of(names@).contains(
                    key,
                )
        },
{
    match manifest {
        Some(manifest) => {
            let keys = manifest.dependencies.keys();
            assert(texts_of(keys@) =~= manifest.dependencies.order());
            Ok(keys)
        },
        None => Err(InstallError::ManifestError),
    }
}

/// The specifier texts to install: the package that is named, or every key
/// of the manifest where none is. A project without a manifest can have a
/// named package installed; it cannot have all of its dependencies installed.
pub fn execute(manifest: Option<&PackageConfig>, package_name: Option<&str>) -> (result: Result<
    Vec<String>,
    InstallError,
>)
    ensures
        gives(result, project_targets(manifest, package_name)),
{
    match package_name {
        Some(name) => {
            let mut names: Vec<String> = Vec::new();
            names.push(name.to_owned());
            assert(texts_of(names@) =~= seq![name@]);
            Ok(names)
        },
        None => install_from_msc_toml(manifest),
    }
}

/// The mathematical value of a [`BulkAction`].
pub enum BulkActionView {
    Install { name: Seq<char> },
    Done,
    Abort { error: InstallError },
}

/// What to do next when several packages are installed in a row.
#[derive(Clone, Debug, PartialEq, Eq)]
pub enum BulkAction {
    /// Install the package that this text names, and tell how it ended.
    Install { name: String },
    /// Every package is installed.
    Done,
    /// An install failed; the packages after it are left alone.
    Abort { error: InstallError },
}

impl View for BulkAction {
    type V = BulkActionView;

    open spec fn view(&self) -> BulkActionView {
        match self {
            BulkAction::Install { name } => BulkActionView::Install { name: name@ },
            BulkAction::Done => BulkActionView::Done,
            BulkAction::Abort { error } => BulkActionView::Abort { error: *error },
        }
    }
}

/// One step of a run over `names`, of which the first `started` have been
/// taken up, after the last install ended with `outcome`: a failure ends the
/// run, and otherwise the next name is taken up, if one is left.
pub open spec fn bulk_step(
    names: Seq<Seq<char>>,
    started: nat,
    outcome: Result<(), InstallError>,
) -> (nat, BulkActionView) {
    match outcome {
        Err(error) => (started, BulkActionView::Abort { error }),
        Ok(_) => if started < names.len() {
            (started + 1, BulkActionView::Install { name: names[started as int] })
        } else {
            (started, BulkActionView::Done)
        },
    }
}

/// Says what to do next in a run over `names`, of which the first `started`
/// have been taken up, after the last install ended with `outcome`; before
/// the first install, with none started, `outcome` is `Ok`. Returns the number
/// of names taken up after this step.
pub fn next_install(names: &Vec<String>, started: usize, outcome: Result<(), InstallError>) -> (next:
    (usize, BulkAction))
    ensures
        (next.0 as nat, next.1@) == bulk_step(texts_of(names@), started as nat, outcome),
{
    match outcome {
        Err(error) => (started, BulkAction::Abort { error }),
        Ok(_) => if started < names.len() {
            (started + 1, BulkAction::Install { name: names[started].clone() })
        } else {
            (started, BulkAction::Done)
        },
    }
}

/// The actions of a run that starts with `started` names taken up and is
/// told `outcomes` one by one, up to the action that ends it.
pub open spec fn bulk_actions(
    names: Seq<Seq<char>>,
    started: nat,
    outcomes: Seq<Result<(), InstallError>>,
) -> Seq<BulkActionView>
    decreases outcomes.len(),
{
    if outcomes.len() == 0 {
        Seq::empty()
    } else {
        let next = bulk_step(names, started, outcomes[0]);
        if next.1 is Install {
            seq![next.1] + bulk_actions(names, next.0, outcomes.drop_first())
        } else {
            seq![next.1]
        }
    }
}

/// Law: a run installs the names in order, each at most once, and the first
/// failure ends it.
///
/// Every install that is asked for follows a success and takes up the next
/// name. A failure is answered by `Abort` with that failure, and nothing is
/// asked for after it: no later name is started. `Done` comes only when no
/// name is left, and it too is the last word.
pub proof fn lemma_bulk_stops_at_first_failure(
    names: Seq<Seq<char>>,
    started: nat,
    outcomes: Seq<Result<(), InstallError>>,
)
    ensures
        bulk_actions(names, started, outcomes).len() <= outcomes.len(),
        forall|i: int|
            0 <= i < bulk_actions(names, started, outcomes).len() ==> match #[trigger] bulk_actions(
                names,
                started,
                outcomes,
            )[i] {
                BulkActionView::Install { name } => outcomes[i] is Ok && started + i < names.len()
                    && name == names[started + i],
                BulkActionView::Done => outcomes[i] is Ok && started + i >= names.len() && i + 1
                    == bulk_actions(names, started, outcomes).len(),
                BulkActionView::Abort { error } => outcomes[i] == Err::<(), InstallError>(error)
                    && i + 1 == bulk_actions(names, started, outcomes).len(),
            },
    decreases outcomes.len(),
{
    if outcomes.len() > 0 {
        let actions = bulk_actions(names, started, outcomes);
        let next = bulk_step(names, started, outcomes[0]);
        if next.1 is Install {
            let later = bulk_actions(names, next.0, outcomes.drop_first());
            lemma_bulk_stops_at_first_failure(names, next.0, outcomes.drop_first());
            assert forall|i: int| 0 <= i < actions.len() implies match #[trigger] actions[i] {
                BulkActionView::Install { name } => outcomes[i] is Ok && started + i < names.len()
                    && name == names[started + i],
                BulkActionView::Done => outcomes[i] is Ok && started + i >= names.len() && i + 1
                    == actions.len(),
                BulkActionView::Abort { error } => outcomes[i] == Err::<(), InstallError>(error)
                    && i + 1 == actions.len(),
            } by {
                if i > 0 {
                    assert(actions[i] == later[i - 1]);
                    assert(outcomes[i] == outcomes.drop_first()[i - 1]);
                }
            }
        }
    }
}

/// Nanoseconds in a second.
pub const NANOS_PER_SECOND: u128 = 1_000_000_000;

/// Bytes per second, rounded down: zero where no time has passed, and never
/// more than a 64-bit counter holds.
pub open spec fn rate_of(total_bytes: u64, elapsed_nanos: u128) -> u64 {
    if elapsed_nanos == 0 {
        0
    } else if total_bytes * NANOS_PER_SECOND / (elapsed_nanos as int) > u64::MAX {
        u64::MAX
    } else {
        (total_bytes * NANOS_PER_SECOND / (elapsed_nanos as int)) as u64
    }
}

/// The transfer rate of `total_bytes` written in `elapsed_nanos`
/// nanoseconds, in bytes per second. No time passed means no rate: the
/// result is then zero, and nothing is divided.
pub fn transfer_rate(total_bytes: u64, elapsed_nanos: u128) -> (rate: u64)
    ensures
        rate == rate_of(total_bytes, elapsed_nanos),
        elapsed_nanos == 0 ==> rate == 0,
{
    if elapsed_nanos == 0 {
        0
    } else {
        let scaled: u128 = (total_bytes as u128) * NANOS_PER_SECOND;
        let rate: u128 = scaled / elapsed_nanos;
        if rate > u64::MAX as u128 {
            u64::MAX
        } else {
            rate as u64
        }
    }
}

/// The text that `indicatif` shows for a number of bytes.
pub uninterp spec fn human_bytes_text(bytes: u64) -> Seq<char>;

/// Formats a number of bytes for the reader with `indicatif::HumanBytes`.
///
/// Nothing is claimed of the text but that it is the one `HumanBytes`
/// displays for this number: the formatting is a function of the number
/// alone.
#[verifier::external_body]
fn human_bytes(bytes: u64) -> (text: String)
    ensures
        text@ == human_bytes_text(bytes),
{
    format!("{}", indicatif::HumanBytes(bytes))
}

/// The line that reports a finished install:
/// `✓ Installed <package> (<size> in <elapsed>, <rate>/s)`.
pub open spec fn summary_of(
    package: Seq<char>,
    size: Seq<char>,
    elapsed: Seq<char>,
    rate: Seq<char>,
) -> Seq<char> {
    "✓ Installed "@ + package + " ("@ + size + " in "@ + elapsed + ", "@ + rate + "/s)"@
}

/// Puts the line that reports a finished install together from its parts.
pub fn compose_summary(package: &str, size: &str, elapsed: &str, rate: &str) -> (line: String)
    ensures
        line@ == summary_of(package@, size@, elapsed@, rate@),
{
    let mut line = "✓ Installed ".to_owned();
    line.append(package);
    line.append(" (");
    line.append(size);
    line.append(" in ");
    line.append(elapsed);
    line.append(", ");
    line.append(rate);
    line.append("/s)");
    line
}

/// The line that reports the install of `specifier`: the package, the bytes
/// written, the time it took as the caller words it, and the transfer rate.
pub fn install_summary(
    specifier: &PackageSpecifier,
    total_bytes: u64,
    elapsed_nanos: u128,
    elapsed: &str,
) -> (line: String)
    ensures
        line@ == summary_of(
            seq!['@'] + joined(specifier@.author, specifier@.name),
            human_bytes_text(total_bytes),
            elapsed@,
            human_bytes_text(rate_of(total_bytes, elapsed_nanos)),
        ),
{
    let package = specifier.display_name();
    let size = human_bytes(total_bytes);
    let rate = human_bytes(transfer_rate(total_bytes, elapsed_nanos));
    compose_summary(package.as_str(), size.as_str(), elapsed, rate.as_str())
}

/// The install after it has taken in `events` one by one.
pub open spec fn session_run(session: SessionView, events: Seq<InstallEventView>) -> SessionView
    decreases events.len(),
{
    if events.len() == 0 {
        session
    } else {
        session_run(session_step(session, events[0]).0, events.drop_first())
    }
}

/// The actions with which the install answers `events`, one for each.
pub open spec fn session_responses(session: SessionView, events: Seq<InstallEventView>) -> Seq<
    InstallActionView,
>
    decreases events.len(),
{
    if events.len() == 0 {
        Seq::empty()
    } else {
        seq![session_step(session, events[0]).1] + session_responses(
            session_step(session, events[0]).0,
            events.drop_first(),
        )
    }
}

/// An install is sound when the walk of its mirroring stage is still under
/// way. Every install starts sound and every step keeps it so.
pub open spec fn sound(session: SessionView) -> bool {
    session.stage matches StageView::Mirroring { walk } ==> !(walk.phase is Finished) && !(
    walk.phase is Aborted)
}

/// Law: an install starts sound, and a step keeps it sound.
pub proof fn lemma_stays_sound(session: SessionView, event: InstallEventView)
    requires
        sound(session),
    ensures
        sound(session_begin(session.specifier).0),
        sound(session_step(session, event).0),
        session_step(session, event).0.specifier == session.specifier,
{
    if let StageView::Mirroring { walk } = session.stage {
        if let InstallEventView::Mirror { event } = event {
            lemma_step_ends(walk, event);
        }
    }
}

/// Law: the manifest is written last, and only after the whole tree was
/// mirrored.
///
/// The install asks for the manifest to be written only in answer to the
/// manifest it asked to read; it asks to read the manifest only when a step
/// of the walk has left the walk finished; and once it has asked for the
/// write, nothing is left but to hear that it was done.
pub proof fn lemma_manifest_written_last(session: SessionView, event: InstallEventView)
    requires
        sound(session),
    ensures
        session_step(session, event).1 is SaveManifest ==> session.stage is LoadingManifest
            && event is ManifestLoaded,
        session_step(session, event).1 is LoadManifest ==> session.stage is Mirroring
            && event is Mirror && step(session.stage->walk, event->Mirror_event).0.phase
            is Finished,
        session_step(session, event).0.stage is LoadingManifest ==> session_step(
            session,
            event,
        ).1 is LoadManifest,
        session.stage is SavingManifest ==> session_step(session, event).1 is Report
            || session_step(session, event).1 is Abort,
{
    if let StageView::Mirroring { walk } = session.stage {
        if let InstallEventView::Mirror { event } = event {
            lemma_step_ends(walk, event);
        }
    }
}

/// Law: a failure ends the install and leaves the manifest alone.
///
/// Whatever a sound install is waiting for, a failure gives it up with that
/// failure, be it reported for the install itself or for an action of the
/// walk, such as a listing that was not found. Whatever is reported
/// afterwards, the install stays given up and asks for nothing more: no
/// directory, no file, and no write of the manifest.
pub proof fn lemma_failure_ends_install(
    session: SessionView,
    error: InstallError,
    later: Seq<InstallEventView>,
)
    requires
        sound(session),
        !(session.stage is Done),
        !(session.stage is Failed),
    ensures
        session_step(session, InstallEventView::Failed { error }) == session_failed(
            session,
            error,
        ),
        session.stage is Mirroring ==> session_step(
            session,
            InstallEventView::Mirror { event: EventView::Failed { error } },
        ) == session_failed(session, error),
        session_run(session_failed(session, error).0, later) == session_failed(session, error).0,
        session_responses(session_failed(session, error).0, later).len() == later.len(),
        forall|i: int|
            0 <= i < later.len() ==> session_responses(session_failed(session, error).0, later)[i]
                == (InstallActionView::Abort { error }),
    decreases later.len(),
{
    let stopped = session_failed(session, error).0;
    if later.len() > 0 {
        assert(session_step(stopped, later[0]) == (stopped, InstallActionView::Abort { error }));
        lemma_failure_ends_install(session, error, later.drop_first());
        let answers = session_responses(stopped, later);
        let after = session_responses(stopped, later.drop_first());
        assert forall|i: int| 0 <= i < later.len() implies answers[i] == (
        InstallActionView::Abort { error }) by {
            if i > 0 {
                assert(answers[i] == after[i - 1]);
            }
        }
    }
}

/// The events of a walk as events of the install.
pub open spec fn mirror_events(events: Seq<EventView>) -> Seq<InstallEventView> {
    Seq::new(events.len(), |i: int| InstallEventView::Mirror { event: events[i] })
}

/// The actions of a walk as actions of the install.
pub open spec fn mirror_actions(actions: Seq<ActionView>) -> Seq<InstallActionView> {
    Seq::new(actions.len(), |i: int| InstallActionView::Mirror { action: actions[i] })
}

/// The action that `started` begins with, followed by its answers to `events`.
pub open spec fn session_dialogue(
    started: (SessionView, InstallActionView),
    events: Seq<InstallEventView>,
) -> Seq<InstallActionView> {
    seq![started.1] + session_responses(started.0, events)
}

/// Taking in `first` and then `later` is taking in `first` before `later`.
proof fn lemma_session_first(
    session: SessionView,
    first: InstallEventView,
    later: Seq<InstallEventView>,
)
    ensures
        session_run(session, seq![first] + later) == session_run(
            session_step(session, first).0,
            later,
        ),
        session_responses(session, seq![first] + later) == session_dialogue(
            session_step(session, first),
            later,
        ),
{
    let events = seq![first] + later;
    assert(events[0] == first);
    assert(events.drop_first() =~= later);
}

/// Taking in one sequence of events after another is taking in both in a row.
proof fn lemma_session_concat(
    session: SessionView,
    first: Seq<InstallEventView>,
    later: Seq<InstallEventView>,
)
    ensures
        session_run(session, first + later) == session_run(session_run(session, first), later),
        session_responses(session, first + later) == session_responses(session, first)
            + session_responses(session_run(session, first), later),
    decreases first.len(),
{
    if first.len() == 0 {
        assert(first + later =~= later);
        assert(session_responses(session, first) + session_responses(session, later)
            =~= session_responses(session, later));
    } else {
        let next = session_step(session, first[0]).0;
        assert((first + later)[0] == first[0]);
        assert((first + later).drop_first() =~= first.drop_first() + later);
        lemma_session_concat(next, first.drop_first(), later);
        assert(session_responses(session, first + later) =~= session_responses(session, first)
            + session_responses(session_run(session, first), later));
    }
}

/// While the walk goes on, the install hands its actions through; when the
/// walk finishes, the install asks for the manifest.
proof fn lemma_install_follows_walk(
    specifier: SpecifierView,
    walk: WalkView,
    events: Seq<EventView>,
)
    requires
        !(walk.phase is Finished),
        !(walk.phase is Aborted),
        events.len() > 0,
        responses(walk, events).len() == events.len(),
        forall|i: int|
            0 <= i < events.len() - 1 ==> !(#[trigger] responses(walk, events)[i] is Finish) && !(
            responses(walk, events)[i] is Abort),
        responses(walk, events).last() is Finish,
    ensures
        ({
            let session = SessionView { specifier, stage: StageView::Mirroring { walk } };
            &&& session_run(session, mirror_events(events)) == SessionView {
                specifier,
                stage: StageView::LoadingManifest { total: run(walk, events).total },
            }
            &&& session_responses(session, mirror_events(events)) == mirror_actions(
                responses(walk, events).drop_last(),
            ) + seq![InstallActionView::LoadManifest]
        }),
    decreases events.len(),
{
    let session = SessionView { specifier, stage: StageView::Mirroring { walk } };
    let wrapped = mirror_events(events);
    let answers = responses(walk, events);
    let stepped = step(walk, events[0]);
    let rest = events.drop_first();
    assert(wrapped[0] == InstallEventView::Mirror { event: events[0] });
    assert(wrapped.drop_first() =~= mirror_events(rest));
    assert(answers[0] == stepped.1);
    lemma_step_ends(walk, events[0]);
    lemma_responses_len(stepped.0, rest);
    if rest.len() == 0 {
        let next = session_step(session, wrapped[0]).0;
        assert(run(stepped.0, rest) == stepped.0);
        assert(session_run(next, wrapped.drop_first()) == next);
        assert(session_responses(next, wrapped.drop_first()).len() == 0);
        assert(answers.last() == stepped.1);
        assert(answers.drop_last() =~= Seq::<ActionView>::empty());
        assert(session_responses(session, wrapped) =~= mirror_actions(answers.drop_last())
            + seq![InstallActionView::LoadManifest]);
    } else {
        let after = responses(stepped.0, rest);
        assert forall|i: int| 0 <= i < rest.len() implies after[i] == answers[i + 1] by {}
        assert(after.last() == answers.last());
        assert forall|i: int| 0 <= i < rest.len() - 1 implies !(#[trigger] after[i] is Finish)
            && !(after[i] is Abort) by {
            assert(after[i] == answers[i + 1]);
        }
        assert(!(answers[0] is Finish) && !(answers[0] is Abort));
        lemma_install_follows_walk(specifier, stepped.0, rest);
        assert(answers.drop_last() =~= seq![stepped.1] + after.drop_last());
        assert(session_responses(session, wrapped) =~= mirror_actions(answers.drop_last())
            + seq![InstallActionView::LoadManifest]);
    }
}

/// Law: an install mirrors the package and then records it.
///
/// Whatever the remote tree of the package is and whatever manifest the
/// project has, or none, if everything the install asks for succeeds, then
/// it asks for exactly the actions that mirror the tree into the package's
/// directory, then reads the manifest, then writes it with the package merged
/// in under the default version, and at last reports the bytes of all files
/// that have a download address. The write of the manifest is its last
/// action but for the report.
pub proof fn lemma_install_records_package(
    specifier: SpecifierView,
    nodes: Seq<RemoteNode>,
    loaded: Option<PackageConfigView>,
)
    ensures
        ({
            let dir = install_dir_of(specifier);
            let walked = seq![
                EventView::DirectoryCreated,
                EventView::Listed { entries: listing_of(nodes) },
            ] + tree_events(nodes);
            let events = mirror_events(walked) + seq![
                InstallEventView::ManifestLoaded { manifest: loaded },
                InstallEventView::ManifestSaved,
            ];
            let started = session_begin(specifier);
            &&& session_run(started.0, events) == SessionView {
                specifier,
                stage: StageView::Done { total: tree_bytes(nodes) },
            }
            &&& session_dialogue(started, events) == mirror_actions(
                seq![
                    ActionView::CreateDirectory { local_path: dir },
                    ActionView::ListDirectory {
                        author: specifier.author,
                        remote_path: specifier.name,
                    },
                ] + tree_actions(specifier.author, dir, nodes),
            ) + seq![
                InstallActionView::LoadManifest,
                InstallActionView::SaveManifest { manifest: manifest_after(loaded, specifier) },
                InstallActionView::Report { total_bytes: tree_bytes(nodes) },
            ]
        }),
{
    let author = specifier.author;
    let dir = install_dir_of(specifier);
    let total = tree_bytes(nodes);
    let create = ActionView::CreateDirectory { local_path: dir };
    let list = ActionView::ListDirectory { author, remote_path: specifier.name };
    let finish = ActionView::Finish { total_bytes: total };
    let within = tree_actions(author, dir, nodes);
    let walked = seq![
        EventView::DirectoryCreated,
        EventView::Listed { entries: listing_of(nodes) },
    ] + tree_events(nodes);
    let loading = InstallEventView::ManifestLoaded { manifest: loaded };
    let saving = InstallEventView::ManifestSaved;
    let started = session_begin(specifier);
    let walk = begin(author, specifier.name, dir).0;
    let answers = responses(walk, walked);

    lemma_walk_mirrors_tree(author, specifier.name, dir, nodes);
    lemma_responses_len(walk, walked);
    lemma_tree_actions_go_on(author, dir, nodes);
    let whole = seq![create, list] + within + seq![finish];
    assert(seq![create] + answers == whole);
    assert(answers =~= whole.drop_first()) by {
        assert((seq![create] + answers).drop_first() =~= answers);
    }
    assert(answers.last() == finish);
    assert forall|i: int| 0 <= i < walked.len() - 1 implies !(#[trigger] answers[i] is Finish)
        && !(answers[i] is Abort) by {
        if i > 0 {
            assert(answers[i] == within[i - 1]);
        }
    }
    lemma_install_follows_walk(specifier, walk, walked);
    assert(answers.drop_last() =~= seq![list] + within);

    let mirrored = SessionView { specifier, stage: StageView::LoadingManifest { total } };
    let ending = seq![loading, saving];
    lemma_session_concat(started.0, mirror_events(walked), ending);
    assert(ending =~= seq![loading] + seq![saving]);
    lemma_session_first(mirrored, loading, seq![saving]);
    let written = session_step(mirrored, loading);
    assert(seq![saving] =~= seq![saving] + Seq::<InstallEventView>::empty());
    lemma_session_first(written.0, saving, Seq::empty());
    let save = InstallActionView::SaveManifest { manifest: manifest_after(loaded, specifier) };
    let report = InstallActionView::Report { total_bytes: total };
    assert(session_responses(mirrored, ending) =~= seq![save, report]);
    let events = mirror_events(walked) + ending;
    assert(session_dialogue(started, events) =~= mirror_actions(seq![create, list] + within)
        + seq![InstallActionView::LoadManifest, save, report]);
}

} // verus!
