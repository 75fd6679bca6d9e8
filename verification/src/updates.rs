//! New versions of the agent: whether there is one, where its installer is, and when it may be
//! installed.
use crate::config::{version, Arch, Host, Os, VERSION};
use crate::state::{
    accepted, accepted_jobs_are_counted, live_count, logged, sound, AppState, AppView,
};
use crate::text::{
    a_text_is_its_parts, all_digits, blank, chars_of, decimal, is_ascii_digit,
    joined_texts_keep_their_order, number_upto, numbers_are_read_back, only_digits_are_numbers,
    parse_u32, parts_end_at_separators, prefixed, slice_string, split, split_at_each, texts, trim,
    trimmed, trimming_takes_off_what_is_around, white_space,
};
use vstd::prelude::*;
use vstd::string::*;

verus! {

/// Where the latest release is asked for.
pub const LATEST_RELEASE_API: &'static str = "https://api.github.com/repos/Sugestion-Studio/amautum-transcriptor/releases/latest";

/// Where the releases live.
pub const RELEASES_BASE: &'static str = "https://github.com/Sugestion-Studio/amautum-transcriptor/releases";

/// What the window needs to offer a new version.
#[derive(Debug)]
pub struct UpdateInfo {
    pub current: String,
    pub latest: String,
    pub available: bool,
    /// The installer for this very machine.
    pub download_url: String,
    pub notes_url: String,
}

/// A new version by its texts.
#[verifier::ext_equal]
pub struct UpdateView {
    pub current: Seq<char>,
    pub latest: Seq<char>,
    pub available: bool,
    pub download_url: Seq<char>,
    pub notes_url: Seq<char>,
}

impl View for UpdateInfo {
    type V = UpdateView;

    open spec fn view(&self) -> UpdateView {
        UpdateView {
            current: self.current@,
            latest: self.latest@,
            available: self.available,
            download_url: self.download_url@,
            notes_url: self.notes_url@,
        }
    }
}

impl UpdateInfo {
    /// A copy of it.
    pub fn copy(&self) -> (r: UpdateInfo)
        ensures
            r@ == self@,
    {
        UpdateInfo {
            current: self.current.clone(),
            latest: self.latest.clone(),
            available: self.available,
            download_url: self.download_url.clone(),
            notes_url: self.notes_url.clone(),
        }
    }
}

// ── Version numbers ─────────────────────────────────────────────────────────

/// Three numbers with points between them, and nothing else.
pub open spec fn clean_semver(v: Seq<char>) -> bool {
    let parts = split(v, '.');
    &&& parts.len() == 3
    &&& forall|i: int| 0 <= i < 3 ==> (#[trigger] parts[i]).len() != 0 && all_digits(parts[i])
}

/// Whether `v` is three numbers with points between them, and nothing else.
pub fn is_clean_semver(v: &str) -> (r: bool)
    ensures
        r == clean_semver(v@),
{
    let parts = split_at_each(v, '.');
    let ghost all = split(v@, '.');
    assert(all.len() == parts@.len());
    if parts.len() != 3 {
        return false;
    }
    let mut i: usize = 0;
    while i < 3
        invariant
            i <= 3,
            parts@.len() == 3,
            all == split(v@, '.'),
            all == texts(parts@),
            forall|j: int| 0 <= j < i ==> (#[trigger] all[j]).len() != 0 && all_digits(all[j]),
        decreases 3 - i,
    {
        assert(all[i as int] == parts@[i as int]@);
        if !is_number(parts[i].as_str()) {
            return false;
        }
        i += 1;
    }
    true
}

/// Whether `s` is one digit or more, and nothing else.
fn is_number(s: &str) -> (r: bool)
    ensures
        r == (s@.len() != 0 && all_digits(s@)),
{
    let v = chars_of(s);
    let mut i: usize = 0;
    while i < v.len()
        invariant
            v@ == s@,
            i <= v@.len(),
            forall|j: int| 0 <= j < i ==> crate::text::ascii_digit(v@[j]),
        decreases v@.len() - i,
    {
        if !is_ascii_digit(v[i]) {
            return false;
        }
        i += 1;
    }
    v.len() != 0
}

/// The number at place `i` of a version; zero where there is none that fits 32 bits.
pub open spec fn version_part(v: Seq<char>, i: int) -> nat {
    let parts = split(v, '.');
    if i < parts.len() {
        match number_upto(parts[i], u32::MAX as nat) {
            Some(n) => n,
            None => 0,
        }
    } else {
        0
    }
}

/// Whether version `a` comes after version `b`: they are compared number by number, so that
/// 0.1.10 comes after 0.1.9.
pub open spec fn newer(a: Seq<char>, b: Seq<char>) -> bool {
    ||| version_part(a, 0) > version_part(b, 0)
    ||| version_part(a, 0) == version_part(b, 0) && version_part(a, 1) > version_part(b, 1)
    ||| version_part(a, 0) == version_part(b, 0) && version_part(a, 1) == version_part(b, 1)
        && version_part(a, 2) > version_part(b, 2)
}

fn part_of(parts: &Vec<String>, i: usize) -> (r: u32)
    ensures
        r == (if i < parts@.len() {
            match number_upto(parts@[i as int]@, u32::MAX as nat) {
                Some(n) => n as int,
                None => 0,
            }
        } else {
            0
        }),
{
    if i < parts.len() {
        match parse_u32(parts[i].as_str()) {
            Some(n) => n,
            None => 0,
        }
    } else {
        0
    }
}

/// Whether `candidate` comes after `current`.
pub fn is_newer(candidate: &str, current: &str) -> (r: bool)
    ensures
        r == newer(candidate@, current@),
{
    let a = split_at_each(candidate, '.');
    let b = split_at_each(current, '.');
    proof {
        assert forall|i: int| 0 <= i < a@.len() implies split(candidate@, '.')[i] == a@[i]@ by {
            assert(texts(a@)[i] == a@[i]@);
        }
        assert forall|i: int| 0 <= i < b@.len() implies split(current@, '.')[i] == b@[i]@ by {
            assert(texts(b@)[i] == b@[i]@);
        }
        assert(split(candidate@, '.').len() == a@.len());
        assert(split(current@, '.').len() == b@.len());
    }
    let (a0, a1, a2) = (part_of(&a, 0), part_of(&a, 1), part_of(&a, 2));
    let (b0, b1, b2) = (part_of(&b, 0), part_of(&b, 1), part_of(&b, 2));
    a0 > b0 || (a0 == b0 && a1 > b1) || (a0 == b0 && a1 == b1 && a2 > b2)
}

/// No version comes after itself, no two come after each other, and what comes after a later
/// version comes after the earlier one.
pub proof fn newer_is_a_strict_order(a: Seq<char>, b: Seq<char>, c: Seq<char>)
    ensures
        !newer(a, a),
        newer(a, b) ==> !newer(b, a),
        newer(a, b) && newer(b, c) ==> newer(a, c),
{
}

// ── Installers ──────────────────────────────────────────────────────────────

/// System, processor and extension of the installer for `host`.
pub open spec fn triplet(host: Host) -> (Seq<char>, Seq<char>, Seq<char>) {
    match (host.os, host.arch) {
        (Os::MacOs, Arch::Arm64) => ("macos"@, "arm64"@, "dmg"@),
        (Os::MacOs, Arch::X64) => ("macos"@, "x64"@, "dmg"@),
        (Os::Windows, _) => ("windows"@, "x64"@, "msi"@),
        (Os::Linux, _) => ("linux"@, "x64"@, "AppImage"@),
    }
}

/// System, processor and extension of the installer for `host`.
pub fn platform_triplet(host: Host) -> (r: (&'static str, &'static str, &'static str))
    ensures
        (r.0@, r.1@, r.2@) == triplet(host),
{
    match (host.os, host.arch) {
        (Os::MacOs, Arch::Arm64) => ("macos", "arm64", "dmg"),
        (Os::MacOs, Arch::X64) => ("macos", "x64", "dmg"),
        (Os::Windows, _) => ("windows", "x64", "msi"),
        (Os::Linux, _) => ("linux", "x64", "AppImage"),
    }
}

/// The installer of `version` for `host`, as it is published.
pub open spec fn asset(version: Seq<char>, host: Host) -> Seq<char> {
    "AmautumTranscriptor-"@ + version + "-"@ + triplet(host).0 + "-"@ + triplet(host).1 + "."@
        + triplet(host).2
}

/// The installer of `version` for `host`, as it is published.
pub fn asset_name(version: &str, host: Host) -> (r: String)
    ensures
        r@ == asset(version@, host),
{
    let (os, arch, ext) = platform_triplet(host);
    let mut out = "AmautumTranscriptor-".to_string();
    out.append(version);
    out.append("-");
    out.append(os);
    out.append("-");
    out.append(arch);
    out.append(".");
    out.append(ext);
    out
}

/// The page of the latest release.
pub fn releases_page() -> (r: String)
    ensures
        r@ == RELEASES_BASE@ + "/latest"@,
{
    let mut out = RELEASES_BASE.to_string();
    out.append("/latest");
    out
}

/// The page of what changed in `version`.
pub open spec fn notes_page(version: Seq<char>) -> Seq<char> {
    RELEASES_BASE@ + "/tag/v"@ + version
}

fn notes_of(version: &str) -> (r: String)
    ensures
        r@ == notes_page(version@),
{
    let mut out = RELEASES_BASE.to_string();
    out.append("/tag/v");
    out.append(version);
    out
}

/// What changed in the version that is running.
pub fn release_notes_url() -> (r: String)
    ensures
        r@ == notes_page(VERSION@),
{
    notes_of(version())
}

/// `s` without every `c` at its start.
pub open spec fn without_leading(s: Seq<char>, c: char) -> Seq<char>
    decreases s.len(),
{
    if s.len() != 0 && s[0] == c {
        without_leading(s.drop_first(), c)
    } else {
        s
    }
}

fn strip_leading(s: &str, c: char) -> (r: String)
    ensures
        r@ == without_leading(s@, c),
{
    let v = chars_of(s);
    let mut i: usize = 0;
    assert(v@.subrange(0, v@.len() as int) =~= v@);
    while i < v.len() && v[i] == c
        invariant
            i <= v@.len(),
            without_leading(s@, c) == without_leading(v@.subrange(i as int, v@.len() as int), c),
        decreases v@.len() - i,
    {
        assert(v@.subrange(i as int, v@.len() as int).drop_first() =~= v@.subrange(
            i + 1,
            v@.len() as int,
        ));
        i += 1;
    }
    slice_string(&v, i, v.len())
}

/// The version that the tag of a release names.
pub open spec fn tagged_version(tag: Seq<char>) -> Seq<char> {
    without_leading(trim(tag), 'v')
}

/// What there is to say about the release tagged `latest` on `host`.
pub open spec fn update_to(latest: Seq<char>, host: Host) -> UpdateView {
    UpdateView {
        current: VERSION@,
        latest,
        available: newer(latest, VERSION@),
        download_url: RELEASES_BASE@ + "/download/v"@ + latest + "/"@ + asset(latest, host),
        notes_url: notes_page(latest),
    }
}

/// What the latest release means for `host`, given the tag that the server named, where it
/// named one. A tag that is no version number gives nothing: no link is made up from it.
pub fn check(tag_name: Option<&str>, host: Host) -> (r: Option<UpdateInfo>)
    ensures
        r is Some <==> tag_name is Some && clean_semver(tagged_version(tag_name->0@)),
        r matches Some(info) ==> info@ == update_to(tagged_version(tag_name->0@), host),
{
    let latest = match tag_name {
        Some(tag) => strip_leading(trimmed(tag).as_str(), 'v'),
        None => {
            return None;
        },
    };
    if !is_clean_semver(latest.as_str()) {
        return None;
    }
    let mut download_url = RELEASES_BASE.to_string();
    download_url.append("/download/v");
    download_url.append(latest.as_str());
    download_url.append("/");
    download_url.append(asset_name(latest.as_str(), host).as_str());
    Some(
        UpdateInfo {
            current: version().to_string(),
            available: is_newer(latest.as_str(), version()),
            download_url,
            notes_url: notes_of(latest.as_str()),
            latest,
        },
    )
}

// ── Installing ──────────────────────────────────────────────────────────────
//
// To install a version is to restart the agent, and a restart in the middle of a transcription
// would destroy hours of work. So nothing is installed unless the agent is idle: no job under
// way and no transcript waiting to be uploaded.

/// No job is under way, none waits to be uploaded, and no pipeline is still running.
pub open spec fn idle(v: AppView) -> bool {
    live_count(v.order, v.jobs) == 0 && v.running == 0
}

/// The agent is idle, and of the transcripts on disk none is left to be uploaded.
pub open spec fn free(v: AppView, waiting: nat) -> bool {
    idle(v) && waiting == 0
}

/// Whether the agent can be restarted now without destroying work. `waiting` are the jobs whose
/// transcripts are on disk still, those of an earlier run of the agent among them.
pub fn is_idle(state: &AppState, waiting: &Vec<String>) -> (r: bool)
    requires
        sound(state@),
    ensures
        r == (idle(state@) && waiting@.len() == 0),
{
    state.active_jobs() == 0 && state.running() == 0 && waiting.len() == 0
}

/// What a person is told who asks for the update while there is work.
pub const BUSY_MESSAGE: &'static str = "Hay trabajo en curso: la actualización espera a que el agente quede libre.";

/// What a person is told who has the last version already.
pub const UP_TO_DATE_MESSAGE: &'static str = "Ya tienes la última versión.";

/// What the log says where work came in while the version was being downloaded.
pub const INSTALLED_WHILE_BUSY: &'static str = "La actualización quedó lista, pero entró trabajo mientras se descargaba. Se aplicará al reiniciar el agente.";

/// What the log says before the restart.
pub const RESTARTING: &'static str = "Actualización instalada. Reiniciando el agente.";

/// What an installation waits for.
#[derive(Debug, Clone, Copy, PartialEq, Eq, Structural)]
pub enum InstallPhase {
    Opening,
    Checking,
    Installing,
    Ended,
}

/// What came of what the installation asked for. An error is given by its message.
pub enum InstallEvent {
    /// The updater was opened.
    Opened(Result<(), String>),
    /// It said which version there is to install, if any.
    Checked(Result<Option<String>, String>),
    /// That version was downloaded and installed.
    Installed(Result<(), String>),
}

/// What an installation asks for next.
pub enum InstallAction {
    OpenUpdater,
    CheckForUpdate,
    DownloadAndInstall,
    /// Restart the agent: the installation does not return.
    Restart,
    /// The installation returns with this.
    Return(Result<(), String>),
    /// It has returned already.
    Nothing,
}

/// An event by its texts.
pub enum InstallEventView {
    Opened(Result<(), Seq<char>>),
    Checked(Result<Option<Seq<char>>, Seq<char>>),
    Installed(Result<(), Seq<char>>),
}

/// An action by its texts.
pub enum InstallActionView {
    OpenUpdater,
    CheckForUpdate,
    DownloadAndInstall,
    Restart,
    Return(Result<(), Seq<char>>),
    Nothing,
}

/// A result by the text of its error.
pub open spec fn outcome(r: Result<(), String>) -> Result<(), Seq<char>> {
    match r {
        Ok(()) => Ok(()),
        Err(e) => Err(e@),
    }
}

impl View for InstallEvent {
    type V = InstallEventView;

    open spec fn view(&self) -> InstallEventView {
        match *self {
            InstallEvent::Opened(r) => InstallEventView::Opened(outcome(r)),
            InstallEvent::Checked(r) => InstallEventView::Checked(
                match r {
                    Ok(Some(v)) => Ok(Some(v@)),
                    Ok(None) => Ok(None),
                    Err(e) => Err(e@),
                },
            ),
            InstallEvent::Installed(r) => InstallEventView::Installed(outcome(r)),
        }
    }
}

impl View for InstallAction {
    type V = InstallActionView;

    open spec fn view(&self) -> InstallActionView {
        match *self {
            InstallAction::OpenUpdater => InstallActionView::OpenUpdater,
            InstallAction::CheckForUpdate => InstallActionView::CheckForUpdate,
            InstallAction::DownloadAndInstall => InstallActionView::DownloadAndInstall,
            InstallAction::Restart => InstallActionView::Restart,
            InstallAction::Return(r) => InstallActionView::Return(outcome(r)),
            InstallAction::Nothing => InstallActionView::Nothing,
        }
    }
}

/// Where an installation is, what the agent knows, and what it asks for.
#[verifier::ext_equal]
pub struct InstallStep {
    pub phase: InstallPhase,
    pub state: AppView,
    pub action: InstallActionView,
}

/// An installation that returns with `r`.
pub open spec fn install_ended(state: AppView, r: Result<(), Seq<char>>) -> InstallStep {
    InstallStep { phase: InstallPhase::Ended, state, action: InstallActionView::Return(r) }
}

/// How an installation begins. The cycle that runs by itself is silent: it does not fill the
/// log with how often it had to wait.
pub open spec fn install_begun(v: AppView, waiting: nat, silent: bool, now: u64) -> InstallStep {
    if free(v, waiting) {
        InstallStep {
            phase: InstallPhase::Opening,
            state: v,
            action: InstallActionView::OpenUpdater,
        }
    } else {
        install_ended(
            if silent {
                v
            } else {
                logged(v, now, "info"@, BUSY_MESSAGE@)
            },
            Err(BUSY_MESSAGE@),
        )
    }
}

/// What an installation that waits asks for.
pub open spec fn install_awaits(phase: InstallPhase) -> InstallActionView {
    match phase {
        InstallPhase::Opening => InstallActionView::OpenUpdater,
        InstallPhase::Checking => InstallActionView::CheckForUpdate,
        InstallPhase::Installing => InstallActionView::DownloadAndInstall,
        InstallPhase::Ended => InstallActionView::Nothing,
    }
}

/// How an installation goes on. What it did not ask for changes nothing: it asks again.
pub open spec fn install_stepped(
    phase: InstallPhase,
    v: AppView,
    waiting: nat,
    event: InstallEventView,
    now: u64,
) -> InstallStep {
    match (phase, event) {
        (InstallPhase::Opening, InstallEventView::Opened(Ok(()))) => InstallStep {
            phase: InstallPhase::Checking,
            state: v,
            action: InstallActionView::CheckForUpdate,
        },
        (InstallPhase::Opening, InstallEventView::Opened(Err(e))) => install_ended(
            v,
            Err("El actualizador no está disponible: "@ + e),
        ),
        (InstallPhase::Checking, InstallEventView::Checked(Ok(Some(version)))) => InstallStep {
            phase: InstallPhase::Installing,
            state: logged(
                v,
                now,
                "info"@,
                "Instalando la actualización a la v"@ + version + "…"@,
            ),
            action: InstallActionView::DownloadAndInstall,
        },
        (InstallPhase::Checking, InstallEventView::Checked(Ok(None))) => install_ended(
            v,
            Err(UP_TO_DATE_MESSAGE@),
        ),
        (InstallPhase::Checking, InstallEventView::Checked(Err(e))) => install_ended(
            v,
            Err("No pudimos comprobar si hay versión nueva: "@ + e),
        ),
        (InstallPhase::Installing, InstallEventView::Installed(Ok(()))) => if free(v, waiting) {
            InstallStep {
                phase: InstallPhase::Ended,
                state: logged(v, now, "info"@, RESTARTING@),
                action: InstallActionView::Restart,
            }
        } else {
            install_ended(logged(v, now, "warn"@, INSTALLED_WHILE_BUSY@), Ok(()))
        },
        (InstallPhase::Installing, InstallEventView::Installed(Err(e))) => install_ended(
            v,
            Err("No se pudo instalar la actualización: "@ + e),
        ),
        _ => InstallStep { phase, state: v, action: install_awaits(phase) },
    }
}

/// Begins to download and install the version that the updater finds.
pub fn install_update(
    state: &mut AppState,
    waiting: &Vec<String>,
    silent: bool,
    now: u64,
) -> (r: (InstallPhase, InstallAction))
    requires
        sound(old(state)@),
    ensures
        sound(final(state)@),
        final(state).keys() == old(state).keys(),
        (InstallStep { phase: r.0, state: final(state)@, action: r.1@ }) == install_begun(
            old(state)@,
            waiting@.len(),
            silent,
            now,
        ),
{
    if !is_idle(state, waiting) {
        if !silent {
            state.log_at(now, "info", BUSY_MESSAGE.to_string());
        }
        return (InstallPhase::Ended, InstallAction::Return(Err(BUSY_MESSAGE.to_string())));
    }
    (InstallPhase::Opening, InstallAction::OpenUpdater)
}

/// Goes on with an installation, given what came of what it asked for.
pub fn install_step(
    phase: InstallPhase,
    state: &mut AppState,
    waiting: &Vec<String>,
    event: InstallEvent,
    now: u64,
) -> (r: (InstallPhase, InstallAction))
    requires
        sound(old(state)@),
    ensures
        sound(final(state)@),
        final(state).keys() == old(state).keys(),
        (InstallStep { phase: r.0, state: final(state)@, action: r.1@ }) == install_stepped(
            phase,
            old(state)@,
            waiting@.len(),
            event@,
            now,
        ),
{
    match (phase, event) {
        (InstallPhase::Opening, InstallEvent::Opened(opened)) => match opened {
            Ok(()) => (InstallPhase::Checking, InstallAction::CheckForUpdate),
            Err(e) => (
                InstallPhase::Ended,
                InstallAction::Return(
                    Err(prefixed("El actualizador no está disponible: ", e.as_str())),
                ),
            ),
        },
        (InstallPhase::Checking, InstallEvent::Checked(checked)) => match checked {
            Ok(Some(version)) => {
                let mut text = prefixed("Instalando la actualización a la v", version.as_str());
                text.append("…");
                state.log_at(now, "info", text);
                (InstallPhase::Installing, InstallAction::DownloadAndInstall)
            },
            Ok(None) => (
                InstallPhase::Ended,
                InstallAction::Return(Err(UP_TO_DATE_MESSAGE.to_string())),
            ),
            Err(e) => (
                InstallPhase::Ended,
                InstallAction::Return(
                    Err(prefixed("No pudimos comprobar si hay versión nueva: ", e.as_str())),
                ),
            ),
        },
        (InstallPhase::Installing, InstallEvent::Installed(installed)) => match installed {
            Ok(()) => {
                if is_idle(state, waiting) {
                    state.log_at(now, "info", RESTARTING.to_string());
                    (InstallPhase::Ended, InstallAction::Restart)
                } else {
                    state.log_at(now, "warn", INSTALLED_WHILE_BUSY.to_string());
                    (InstallPhase::Ended, InstallAction::Return(Ok(())))
                }
            },
            Err(e) => (
                InstallPhase::Ended,
                InstallAction::Return(
                    Err(prefixed("No se pudo instalar la actualización: ", e.as_str())),
                ),
            ),
        },
        (phase, _) => (
            phase,
            match phase {
                InstallPhase::Opening => InstallAction::OpenUpdater,
                InstallPhase::Checking => InstallAction::CheckForUpdate,
                InstallPhase::Installing => InstallAction::DownloadAndInstall,
                InstallPhase::Ended => InstallAction::Nothing,
            },
        ),
    }
}

/// A busy agent never restarts by itself: not where an installation begins, and not after a
/// download during which work came in. A transcript on disk that is left to be uploaded keeps it
/// busy too.
pub proof fn busy_agent_never_restarts(
    phase: InstallPhase,
    v: AppView,
    waiting: nat,
    event: InstallEventView,
    silent: bool,
    now: u64,
)
    ensures
        !(install_begun(v, waiting, silent, now).action is Restart),
        !free(v, waiting) ==> install_begun(v, waiting, silent, now).action
            == InstallActionView::Return(Err(BUSY_MESSAGE@)),
        install_stepped(phase, v, waiting, event, now).action is Restart ==> free(v, waiting)
            && phase == InstallPhase::Installing,
{
}

/// An agent that can be restarted has no job under way, no job that waits to be uploaded, and no
/// transcript on disk.
pub proof fn idle_agent_has_no_live_job(v: AppView, waiting: nat, id: Seq<char>)
    requires
        sound(v),
        free(v, waiting),
    ensures
        waiting == 0,
        v.jobs.contains_key(id) ==> v.jobs[id].stage.terminal(),
{
    if v.jobs.contains_key(id) {
        assert(v.order.contains(id));
        let i = choose|i: int| 0 <= i < v.order.len() && v.order[i] == id;
        lemma_no_live(v.order, v.jobs, i);
    }
}

/// An agent that has accepted a job is not idle until that job has come to something.
pub proof fn accepted_job_makes_the_agent_busy(
    v: AppView,
    job_id: Seq<char>,
    file_name: Seq<char>,
    model: Seq<char>,
    now: u64,
)
    requires
        sound(v),
    ensures
        !idle(accepted(v, job_id, file_name, model, now)),
{
    accepted_jobs_are_counted(v, job_id, file_name, model, now);
}

proof fn lemma_no_live(
    order: Seq<Seq<char>>,
    jobs: Map<Seq<char>, crate::types::JobView>,
    i: int,
)
    requires
        live_count(order, jobs) == 0,
        0 <= i < order.len(),
    ensures
        jobs[order[i]].stage.terminal(),
    decreases order.len(),
{
    if i < order.len() - 1 {
        lemma_no_live(order.drop_last(), jobs, i);
    }
}

// ── Laws ────────────────────────────────────────────────────────────────────

/// A version is read by its points: the first number stands before the first point, the second
/// between the points, and the third behind the second. A later one has a larger first number, or
/// the same and a larger second, or the same two and a larger third; a number is one number,
/// however many digits it has.
pub proof fn versions_are_told_apart_by_their_numbers(
    a: (u32, u32, u32),
    b: (u32, u32, u32),
)
    ensures
        ({
            let v = decimal(a.0 as nat).push('.') + (decimal(a.1 as nat).push('.') + decimal(
                a.2 as nat,
            ));
            let w = decimal(b.0 as nat).push('.') + (decimal(b.1 as nat).push('.') + decimal(
                b.2 as nat,
            ));
            &&& clean_semver(v)
            &&& version_part(v, 0) == a.0
            &&& version_part(v, 1) == a.1
            &&& version_part(v, 2) == a.2
            &&& newer(v, w) <==> (a.0 > b.0 || (a.0 == b.0 && (a.1 > b.1 || (a.1 == b.1 && a.2
                > b.2))))
        }),
{
    lemma_version_read(a);
    lemma_version_read(b);
}

proof fn lemma_no_point(n: nat)
    ensures
        !decimal(n).contains('.'),
        decimal(n).len() > 0,
        all_digits(decimal(n)),
{
    numbers_are_read_back(n);
    let d = decimal(n);
    if d.contains('.') {
        let i = choose|i: int| 0 <= i < d.len() && d[i] == '.';
        assert(crate::text::ascii_digit(d[i]));
    }
}

proof fn lemma_version_read(a: (u32, u32, u32))
    ensures
        ({
            let v = decimal(a.0 as nat).push('.') + (decimal(a.1 as nat).push('.') + decimal(
                a.2 as nat,
            ));
            &&& clean_semver(v)
            &&& version_part(v, 0) == a.0
            &&& version_part(v, 1) == a.1
            &&& version_part(v, 2) == a.2
        }),
{
    let x = decimal(a.0 as nat);
    let y = decimal(a.1 as nat);
    let z = decimal(a.2 as nat);
    lemma_no_point(a.0 as nat);
    lemma_no_point(a.1 as nat);
    lemma_no_point(a.2 as nat);
    let tail = y.push('.') + z;
    let v = x.push('.') + tail;
    parts_end_at_separators(x, tail, '.');
    parts_end_at_separators(y, z, '.');
    parts_end_at_separators(z, z, '.');
    assert(split(v, '.') =~= seq![x, y, z]);
    only_digits_are_numbers(x, '0', a.0 as nat, u32::MAX as nat);
    only_digits_are_numbers(y, '0', a.1 as nat, u32::MAX as nat);
    only_digits_are_numbers(z, '0', a.2 as nat, u32::MAX as nat);
}

/// A clean version number is three runs of digits with points between them: there is nothing else
/// in it, and none of the three is missing.
pub proof fn clean_versions_are_three_numbers(
    x: Seq<char>,
    y: Seq<char>,
    z: Seq<char>,
    v: Seq<char>,
    c: char,
)
    ensures
        x.len() > 0 && y.len() > 0 && z.len() > 0 && all_digits(x) && all_digits(y) && all_digits(z)
            ==> clean_semver(x.push('.') + (y.push('.') + z)),
        clean_semver(v) && v.contains(c) ==> c == '.' || (48 <= c as int <= 57),
        clean_semver(v) ==> v.len() >= 5 && split(v, '.').len() == 3,
{
    if all_digits(x) && all_digits(y) && all_digits(z) {
        lemma_digits_have_no_point(x);
        lemma_digits_have_no_point(y);
        lemma_digits_have_no_point(z);
        let tail = y.push('.') + z;
        parts_end_at_separators(x, tail, '.');
        parts_end_at_separators(y, z, '.');
        parts_end_at_separators(z, z, '.');
        assert(split(x.push('.') + tail, '.') =~= seq![x, y, z]);
    }
    if clean_semver(v) {
        let parts = split(v, '.');
        let dot = seq!['.'];
        a_text_is_its_parts(v, '.', 0);
        assert(parts =~= seq![parts[0], parts[1]] + seq![parts[2]]);
        assert(seq![parts[0], parts[1]] =~= seq![parts[0]] + seq![parts[1]]);
        joined_texts_keep_their_order(
            seq![parts[0], parts[1]],
            seq![parts[2]],
            parts[2],
            dot,
        );
        joined_texts_keep_their_order(seq![parts[0]], seq![parts[1]], parts[1], dot);
        joined_texts_keep_their_order(seq![parts[1]], seq![parts[2]], parts[0], dot);
        assert(v =~= parts[0] + dot + parts[1] + dot + parts[2]);
        if v.contains(c) {
            let i = choose|i: int| 0 <= i < v.len() && v[i] == c;
            let m = parts[0].len() as int;
            let n = parts[1].len() as int;
            if i < m {
                assert(v[i] == parts[0][i]);
            } else if m < i < m + 1 + n {
                assert(v[i] == parts[1][i - m - 1]);
            } else if i > m + 1 + n {
                assert(v[i] == parts[2][i - m - n - 2]);
            }
        }
    }
}

proof fn lemma_digits_have_no_point(s: Seq<char>)
    requires
        all_digits(s),
    ensures
        !s.contains('.'),
{
    if s.contains('.') {
        let i = choose|i: int| 0 <= i < s.len() && s[i] == '.';
        assert(crate::text::ascii_digit(s[i]));
    }
}

/// The version of a release is its tag without the white space around it and without every `v`
/// before it.
pub proof fn a_tag_names_its_version(
    before: Seq<char>,
    count: nat,
    version: Seq<char>,
    after: Seq<char>,
)
    requires
        blank(before),
        blank(after),
        version.len() > 0,
        version[0] != 'v',
        !white_space(version[0]),
        !white_space(version.last()),
    ensures
        tagged_version(before + (Seq::new(count, |i: int| 'v') + version) + after) == version,
{
    let core = Seq::new(count, |i: int| 'v') + version;
    trimming_takes_off_what_is_around(before, core, after);
    lemma_leading_leave(count, version);
}

proof fn lemma_leading_leave(count: nat, version: Seq<char>)
    requires
        version.len() > 0,
        version[0] != 'v',
    ensures
        without_leading(Seq::new(count, |i: int| 'v') + version, 'v') == version,
    decreases count,
{
    let all = Seq::new(count, |i: int| 'v') + version;
    if count > 0 {
        let fewer = (count - 1) as nat;
        assert(all.drop_first() =~= Seq::new(fewer, |i: int| 'v') + version);
        lemma_leading_leave(fewer, version);
    } else {
        assert(all =~= version);
    }
}

/// A new version is offered with the version that runs, with its own number, with its installer
/// for this very machine, and with the page of its notes; and it is offered where it is newer.
pub proof fn an_update_is_for_this_machine(latest: Seq<char>, host: Host)
    ensures
        ({
            let u = update_to(latest, host);
            let place = RELEASES_BASE@ + "/download/v"@ + latest + "/"@;
            let name = "AmautumTranscriptor-"@ + latest + "-"@;
            &&& u.current == VERSION@
            &&& u.latest == latest
            &&& u.available <==> newer(latest, VERSION@)
            &&& u.notes_url == RELEASES_BASE@ + "/tag/v"@ + latest
            &&& host.os == Os::MacOs && host.arch == Arch::Arm64 ==> u.download_url == place + (name
                + "macos"@ + "-"@ + "arm64"@ + "."@ + "dmg"@)
            &&& host.os == Os::MacOs && host.arch == Arch::X64 ==> u.download_url == place + (name
                + "macos"@ + "-"@ + "x64"@ + "."@ + "dmg"@)
            &&& host.os == Os::Windows ==> u.download_url == place + (name + "windows"@ + "-"@
                + "x64"@ + "."@ + "msi"@)
            &&& host.os == Os::Linux ==> u.download_url == place + (name + "linux"@ + "-"@ + "x64"@
                + "."@ + "AppImage"@)
        }),
{
}

/// A new version is seen with all that it says.
pub proof fn updates_are_seen_as_they_are(u: UpdateInfo, e: InstallEvent, a: InstallAction)
    ensures
        u@.current == u.current@,
        u@.latest == u.latest@,
        u@.available == u.available,
        u@.download_url == u.download_url@,
        u@.notes_url == u.notes_url@,
        match e {
            InstallEvent::Opened(Ok(())) => e@ == InstallEventView::Opened(Ok(())),
            InstallEvent::Opened(Err(x)) => e@ == InstallEventView::Opened(Err(x@)),
            InstallEvent::Checked(Ok(Some(v))) => e@ == InstallEventView::Checked(Ok(Some(v@))),
            InstallEvent::Checked(Ok(None)) => e@ == InstallEventView::Checked(Ok(None)),
            InstallEvent::Checked(Err(x)) => e@ == InstallEventView::Checked(Err(x@)),
            InstallEvent::Installed(Ok(())) => e@ == InstallEventView::Installed(Ok(())),
            InstallEvent::Installed(Err(x)) => e@ == InstallEventView::Installed(Err(x@)),
        },
        match a {
            InstallAction::OpenUpdater => a@ is OpenUpdater,
            InstallAction::CheckForUpdate => a@ is CheckForUpdate,
            InstallAction::DownloadAndInstall => a@ is DownloadAndInstall,
            InstallAction::Restart => a@ is Restart,
            InstallAction::Return(Ok(())) => a@ == InstallActionView::Return(Ok(())),
            InstallAction::Return(Err(x)) => a@ == InstallActionView::Return(Err(x@)),
            InstallAction::Nothing => a@ is Nothing,
        },
{
}

/// The agent can be restarted exactly where every job has ended, no pipeline runs, and no
/// transcript is left on disk.
pub proof fn free_is_to_have_nothing_left(v: AppView, waiting: nat)
    requires
        sound(v),
    ensures
        free(v, waiting) <==> waiting == 0 && v.running == 0 && forall|id: Seq<char>| #[trigger]
            v.jobs.contains_key(id) ==> v.jobs[id].stage.terminal(),
{
    if free(v, waiting) {
        assert forall|id: Seq<char>| #[trigger]
            v.jobs.contains_key(id) implies v.jobs[id].stage.terminal() by {
            idle_agent_has_no_live_job(v, waiting, id);
        }
    }
    if forall|id: Seq<char>| #[trigger] v.jobs.contains_key(id) ==> v.jobs[id].stage.terminal() {
        assert forall|i: int| 0 <= i < v.order.len() implies v.jobs[
            #[trigger] v.order[i]].stage.terminal() by {
            assert(v.order.contains(v.order[i]));
        }
        lemma_all_ended(v.order, v.jobs);
    }
}

proof fn lemma_all_ended(order: Seq<Seq<char>>, jobs: Map<Seq<char>, crate::types::JobView>)
    requires
        forall|i: int| 0 <= i < order.len() ==> jobs[#[trigger] order[i]].stage.terminal(),
    ensures
        live_count(order, jobs) == 0,
    decreases order.len(),
{
    if order.len() > 0 {
        assert(jobs[order[order.len() - 1]].stage.terminal());
        let front = order.drop_last();
        assert forall|i: int| 0 <= i < front.len() implies jobs[
            #[trigger] front[i]].stage.terminal() by {
            assert(front[i] == order[i]);
        }
        lemma_all_ended(front, jobs);
    }
}

/// An installation opens the updater, asks it for a version, installs the one that there is, and
/// restarts a free agent. Where one of these fails it returns with what failed and why, and
/// leaves the agent as it was.
pub proof fn an_installation_takes_its_steps_in_order(
    v: AppView,
    waiting: nat,
    silent: bool,
    now: u64,
    x: Seq<char>,
    phase: InstallPhase,
    event: InstallEventView,
)
    ensures
        free(v, waiting) ==> install_begun(v, waiting, silent, now) == (InstallStep {
            phase: InstallPhase::Opening,
            state: v,
            action: InstallActionView::OpenUpdater,
        }),
        !free(v, waiting) ==> {
            let s = install_begun(v, waiting, silent, now);
            &&& s.phase == InstallPhase::Ended
            &&& s.action == InstallActionView::Return(Err(BUSY_MESSAGE@))
            &&& silent ==> s.state == v
            &&& !silent ==> s.state == logged(v, now, "info"@, BUSY_MESSAGE@)
        },
        ({
            let s = install_stepped(
                InstallPhase::Opening,
                v,
                waiting,
                InstallEventView::Opened(Ok(())),
                now,
            );
            s.phase == InstallPhase::Checking && s.action is CheckForUpdate && s.state == v
        }),
        ({
            let s = install_stepped(
                InstallPhase::Checking,
                v,
                waiting,
                InstallEventView::Checked(Ok(Some(x))),
                now,
            );
            &&& s.phase == InstallPhase::Installing
            &&& s.action is DownloadAndInstall
            &&& s.state == logged(
                v,
                now,
                "info"@,
                "Instalando la actualización a la v"@ + x + "…"@,
            )
        }),
        ({
            let s = install_stepped(
                InstallPhase::Installing,
                v,
                waiting,
                InstallEventView::Installed(Ok(())),
                now,
            );
            &&& s.phase == InstallPhase::Ended
            &&& free(v, waiting) ==> s.action is Restart && s.state == logged(
                v,
                now,
                "info"@,
                RESTARTING@,
            )
            &&& !free(v, waiting) ==> s.action == InstallActionView::Return(Ok(())) && s.state
                == logged(v, now, "warn"@, INSTALLED_WHILE_BUSY@)
        }),
        ({
            let opened = install_stepped(
                InstallPhase::Opening,
                v,
                waiting,
                InstallEventView::Opened(Err(x)),
                now,
            );
            let none = install_stepped(
                InstallPhase::Checking,
                v,
                waiting,
                InstallEventView::Checked(Ok(None)),
                now,
            );
            let checked = install_stepped(
                InstallPhase::Checking,
                v,
                waiting,
                InstallEventView::Checked(Err(x)),
                now,
            );
            let installed = install_stepped(
                InstallPhase::Installing,
                v,
                waiting,
                InstallEventView::Installed(Err(x)),
                now,
            );
            &&& opened.phase == InstallPhase::Ended && none.phase == InstallPhase::Ended
            &&& checked.phase == InstallPhase::Ended && installed.phase == InstallPhase::Ended
            &&& opened.state == v && none.state == v && checked.state == v && installed.state == v
            &&& opened.action == InstallActionView::Return(
                Err("El actualizador no está disponible: "@ + x),
            )
            &&& none.action == InstallActionView::Return(Err(UP_TO_DATE_MESSAGE@))
            &&& checked.action == InstallActionView::Return(
                Err("No pudimos comprobar si hay versión nueva: "@ + x),
            )
            &&& installed.action == InstallActionView::Return(
                Err("No se pudo instalar la actualización: "@ + x),
            )
        }),
        phase == InstallPhase::Ended || (phase == InstallPhase::Opening && !(event is Opened)) || (
        phase == InstallPhase::Checking && !(event is Checked)) || (phase
            == InstallPhase::Installing && !(event is Installed)) ==> {
            let s = install_stepped(phase, v, waiting, event, now);
            &&& s.phase == phase
            &&& s.state == v
            &&& phase == InstallPhase::Opening ==> s.action is OpenUpdater
            &&& phase == InstallPhase::Checking ==> s.action is CheckForUpdate
            &&& phase == InstallPhase::Installing ==> s.action is DownloadAndInstall
            &&& phase == InstallPhase::Ended ==> s.action is Nothing
        },
{
}

} // verus!
