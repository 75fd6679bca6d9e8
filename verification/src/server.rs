//! What the local server answers, and what the menus do.
use crate::config::{
    downloads_page, downloads_url, support_link, support_url, version, Host, ALLOWED_ORIGINS,
    AMAUTUM_BASE_URL, SERVER_PORT, VERSION,
};
use crate::state::{failure_of, sound, AppState, AppView};
use crate::text::{decimal, opt_text, push_decimal, same_text};
use crate::types::AgentTriggerPayload;
use crate::updates::{notes_page, release_notes_url, releases_page, RELEASES_BASE};
use vstd::prelude::*;
use vstd::string::*;

verus! {

// ── Who may talk to the server ──────────────────────────────────────────────

/// Whether a request is heard. One that a page makes names the origin of the page, which has to
/// be one of those that may talk to the server; what is no page names none.
pub fn origin_allowed(origin: Option<&str>) -> (r: bool)
    ensures
        r == (match origin {
            Some(o) => exists|i: int| 0 <= i < 3 && (#[trigger] ALLOWED_ORIGINS[i])@ == o@,
            None => true,
        }),
{
    match origin {
        Some(o) => {
            let allowed = ALLOWED_ORIGINS;
            let mut i: usize = 0;
            while i < 3
                invariant
                    i <= 3,
                    origin == Some(o),
                    allowed@ == ALLOWED_ORIGINS@,
                    forall|j: int| 0 <= j < i ==> (#[trigger] ALLOWED_ORIGINS[j])@ != o@,
                decreases 3 - i,
            {
                if same_text(allowed[i], o) {
                    assert(ALLOWED_ORIGINS[i as int]@ == o@);
                    return true;
                }
                i += 1;
            }
            false
        },
        None => true,
    }
}

// ── Starting a job ──────────────────────────────────────────────────────────

/// Status of HTTP for a job that was taken and is under way.
pub const ACCEPTED: u16 = 202;

/// Status of HTTP for a page whose origin may not talk to the server.
pub const FORBIDDEN: u16 = 403;

/// Status of HTTP for a request that cannot be met as it is.
pub const BAD_REQUEST: u16 = 400;

/// Status of HTTP for what does not exist.
pub const NOT_FOUND: u16 = 404;

/// Status of HTTP for what cannot be done now.
pub const CONFLICT: u16 = 409;

/// Why a job is not started. All of them are requests that cannot be met as they are.
#[derive(Debug, Clone, Copy, PartialEq, Eq, Structural)]
pub enum StartRefusal {
    /// The job or what proves that it may be done is not named.
    MissingIds,
    /// The audio is not on this machine.
    NoFile,
    /// The audio is not as long as the browser saw it: it is another one, or it is still being
    /// copied, and a transcript of half of it would look like a whole one.
    SizeChanged { expected: u64, actual: u64 },
}

impl StartRefusal {
    /// What the person is told.
    pub open spec fn text(self) -> Seq<char> {
        match self {
            StartRefusal::MissingIds => "jobId y token son requeridos"@,
            StartRefusal::NoFile => "El archivo de audio no existe en esta máquina"@,
            StartRefusal::SizeChanged { .. } => SIZE_CHANGED@,
        }
    }

    /// What the person is told.
    pub fn message(self) -> (r: &'static str)
        ensures
            r@ == self.text(),
    {
        match self {
            StartRefusal::MissingIds => "jobId y token son requeridos",
            StartRefusal::NoFile => "El archivo de audio no existe en esta máquina",
            StartRefusal::SizeChanged { .. } => SIZE_CHANGED,
        }
    }
}

pub const SIZE_CHANGED: &'static str = "El archivo cambió de tamaño desde que lo elegiste. Si lo estás copiando desde otra unidad, espera a que termine y vuelve a intentarlo.";

/// Whether a job may be started: nothing where it may, and else the first thing that is wrong.
/// `size` is that of the audio on disk, where it can be read.
pub open spec fn start_refusal(
    payload: AgentTriggerPayload,
    exists_on_disk: bool,
    size: Option<u64>,
) -> Option<StartRefusal> {
    if payload.job_id@.len() == 0 || payload.token@.len() == 0 {
        Some(StartRefusal::MissingIds)
    } else if !exists_on_disk {
        Some(StartRefusal::NoFile)
    } else {
        match (payload.file_size, size) {
            (Some(expected), Some(actual)) => if expected != actual {
                Some(StartRefusal::SizeChanged { expected, actual })
            } else {
                None
            },
            _ => None,
        }
    }
}

/// Whether a job may be started, and else why not.
pub fn check_start(
    payload: &AgentTriggerPayload,
    exists_on_disk: bool,
    size: Option<u64>,
) -> (r: Option<StartRefusal>)
    ensures
        r == start_refusal(*payload, exists_on_disk, size),
{
    if payload.job_id.as_str().unicode_len() == 0 || payload.token.as_str().unicode_len() == 0 {
        return Some(StartRefusal::MissingIds);
    }
    if !exists_on_disk {
        return Some(StartRefusal::NoFile);
    }
    match (payload.file_size, size) {
        (Some(expected), Some(actual)) => if expected != actual {
            Some(StartRefusal::SizeChanged { expected, actual })
        } else {
            None
        },
        _ => None,
    }
}

/// Where the events of a job can be listened to.
pub fn ws_url(job_id: &str) -> (r: String)
    ensures
        r@ == "ws://localhost:"@ + decimal(SERVER_PORT as nat) + "/ws?jobId="@ + job_id@,
{
    let mut out = "ws://localhost:".to_string();
    push_decimal(&mut out, SERVER_PORT as u64);
    out.append("/ws?jobId=");
    out.append(job_id);
    out
}

// ── Health ──────────────────────────────────────────────────────────────────

/// What the browser is told of the agent.
#[derive(Debug)]
pub struct Health {
    pub ok: bool,
    pub version: &'static str,
    pub busy: bool,
    pub jobs_running: usize,
    pub dependencies_ok: bool,
    pub dependencies_error: Option<String>,
}

/// What the browser is told of the agent: it is well where its components are, and busy where a
/// job is under way.
pub fn health(state: &AppState) -> (r: Health)
    ensures
        r.ok == state@.dependencies_ok,
        r.version@ == VERSION@,
        r.busy == (state@.running > 0),
        r.jobs_running == state@.running,
        r.dependencies_ok == state@.dependencies_ok,
        opt_text(r.dependencies_error) == state@.dependencies_error,
{
    let jobs = state.running();
    Health {
        ok: state.dependencies_ok(),
        version: version(),
        busy: jobs > 0,
        jobs_running: jobs,
        dependencies_ok: state.dependencies_ok(),
        dependencies_error: state.dependencies_error(),
    }
}

// ── Choosing a file ─────────────────────────────────────────────────────────

/// Title of the dialog where the browser gives none.
pub const PICK_TITLE: &'static str = "Elige el audio de la audiencia";

/// The extensions that the dialog offers, unless every file is asked for.
pub const AUDIO_EXTENSIONS: [&'static str; 8] = [
    "mp3",
    "m4a",
    "wav",
    "ogg",
    "opus",
    "flac",
    "aac",
    "mp4",
];

/// Title of the dialog.
pub fn pick_title(title: Option<String>) -> (r: String)
    ensures
        r@ == (match title {
            Some(t) => t@,
            None => PICK_TITLE@,
        }),
{
    match title {
        Some(t) => t,
        None => PICK_TITLE.to_string(),
    }
}

// ── Links ───────────────────────────────────────────────────────────────────

/// What is answered where a link is asked for that the agent does not know.
pub const UNKNOWN_TARGET: &'static str = "Destino desconocido.";

/// The link that `target` names. It is a name out of a closed list, never an address: a page
/// cannot make the agent open one of its own.
pub open spec fn target_link(v: AppView, target: Seq<char>, host: Host) -> Option<Seq<char>> {
    if target == "support"@ {
        Some(support_link(failure_of(v), host))
    } else if target == "downloads"@ {
        Some(downloads_page())
    } else if target == "release"@ {
        Some(
            match v.update {
                Some(u) => u.download_url,
                None => RELEASES_BASE@ + "/latest"@,
            },
        )
    } else {
        None
    }
}

/// The link that `target` names: support with the last failure, the installation guide, or the
/// installer for this machine, with the page of all of them until it is known.
pub fn open_target(state: &AppState, target: &str, host: Host) -> (r: Option<String>)
    requires
        sound(state@),
    ensures
        opt_text(r) == target_link(state@, target@, host),
{
    if same_text(target, "support") {
        return Some(support_for(state.last_error(), host));
    }
    if same_text(target, "downloads") {
        return Some(downloads_url());
    }
    if same_text(target, "release") {
        return Some(
            match state.update() {
                Some(u) => u.download_url,
                None => releases_page(),
            },
        );
    }
    None
}

fn support_for(last_error: Option<String>, host: Host) -> (r: String)
    ensures
        r@ == support_link(opt_text(last_error), host),
{
    match last_error {
        Some(e) => support_url(Some(e.as_str()), host),
        None => support_url(None, host),
    }
}

/// What an entry of a menu does.
pub enum MenuAction {
    ShowWindow,
    OpenUrl(String),
    Quit,
    Nothing,
}

/// What an entry of a menu does, by its texts.
pub enum MenuActionView {
    ShowWindow,
    OpenUrl(Seq<char>),
    Quit,
    Nothing,
}

impl View for MenuAction {
    type V = MenuActionView;

    open spec fn view(&self) -> MenuActionView {
        match *self {
            MenuAction::ShowWindow => MenuActionView::ShowWindow,
            MenuAction::OpenUrl(url) => MenuActionView::OpenUrl(url@),
            MenuAction::Quit => MenuActionView::Quit,
            MenuAction::Nothing => MenuActionView::Nothing,
        }
    }
}

/// What the entry `id` does, in the menu of the application and in that of the tray alike.
pub open spec fn menu_entry(
    id: Seq<char>,
    last_error: Option<Seq<char>>,
    host: Host,
) -> MenuActionView {
    if id == "open"@ {
        MenuActionView::ShowWindow
    } else if id == "support"@ {
        MenuActionView::OpenUrl(support_link(last_error, host))
    } else if id == "downloads"@ {
        MenuActionView::OpenUrl(downloads_page())
    } else if id == "notes"@ {
        MenuActionView::OpenUrl(notes_page(VERSION@))
    } else if id == "amautum"@ {
        MenuActionView::OpenUrl(AMAUTUM_BASE_URL@)
    } else if id == "quit"@ {
        MenuActionView::Quit
    } else {
        MenuActionView::Nothing
    }
}

/// What the entry `id` does, in the menu of the application and in that of the tray alike.
pub fn menu_action(id: &str, last_error: Option<String>, host: Host) -> (r: MenuAction)
    ensures
        r@ == menu_entry(id@, opt_text(last_error), host),
{
    if same_text(id, "open") {
        MenuAction::ShowWindow
    } else if same_text(id, "support") {
        MenuAction::OpenUrl(support_for(last_error, host))
    } else if same_text(id, "downloads") {
        MenuAction::OpenUrl(downloads_url())
    } else if same_text(id, "notes") {
        MenuAction::OpenUrl(release_notes_url())
    } else if same_text(id, "amautum") {
        MenuAction::OpenUrl(AMAUTUM_BASE_URL.to_string())
    } else if same_text(id, "quit") {
        MenuAction::Quit
    } else {
        MenuAction::Nothing
    }
}

// ── Laws ────────────────────────────────────────────────────────────────────

/// The menus and the window lead to one place for support, with the same context.
pub proof fn support_is_one_place(v: AppView, host: Host)
    ensures
        menu_entry("support"@, failure_of(v), host) == MenuActionView::OpenUrl(
            target_link(v, "support"@, host)->0,
        ),
{
    reveal_strlit("support");
    reveal_strlit("open");
    assert("support"@.len() != "open"@.len());
}

/// A job is started where it is named, where it shows what proves that it may be done, where its
/// audio is on this machine, and where that is as long as the browser saw it. Else what is told is
/// the first of these that fails, and how long the audio was and is.
pub proof fn a_job_starts_with_the_audio_that_was_chosen(
    payload: AgentTriggerPayload,
    exists_on_disk: bool,
    size: Option<u64>,
)
    ensures
        ({
            let r = start_refusal(payload, exists_on_disk, size);
            let named = payload.job_id@.len() > 0 && payload.token@.len() > 0;
            let differs = payload.file_size is Some && size is Some && payload.file_size->0
                != size->0;
            &&& r is None <==> named && exists_on_disk && !differs
            &&& r == Some(StartRefusal::MissingIds) <==> !named
            &&& r == Some(StartRefusal::NoFile) <==> named && !exists_on_disk
            &&& named && exists_on_disk && differs ==> r == Some(
                StartRefusal::SizeChanged { expected: payload.file_size->0, actual: size->0 },
            )
        }),
        StartRefusal::MissingIds.text() == "jobId y token son requeridos"@,
        StartRefusal::NoFile.text() == "El archivo de audio no existe en esta máquina"@,
        forall|r: StartRefusal| r is SizeChanged ==> #[trigger] r.text() == SIZE_CHANGED@,
{
}

/// Three names lead to a link, each to its own, and no other name leads anywhere.
pub proof fn links_are_out_of_a_closed_list(v: AppView, target: Seq<char>, host: Host)
    ensures
        target_link(v, "support"@, host) == Some(support_link(failure_of(v), host)),
        target_link(v, "downloads"@, host) == Some(
            AMAUTUM_BASE_URL@ + "/downloads/transcriptor"@,
        ),
        v.update matches Some(u) ==> target_link(v, "release"@, host) == Some(u.download_url),
        v.update is None ==> target_link(v, "release"@, host) == Some(
            RELEASES_BASE@ + "/latest"@,
        ),
        target_link(v, target, host) is Some <==> target == "support"@ || target == "downloads"@
            || target == "release"@,
{
    reveal_strlit("support");
    reveal_strlit("downloads");
    reveal_strlit("release");
    assert("support"@.len() != "downloads"@.len());
    assert("release"@.len() != "downloads"@.len());
    assert("support"@[0] != "release"@[0]);
}

/// Each entry of the menus does its own thing, and what is no entry does nothing.
pub proof fn menu_entries_do_their_own_thing(
    id: Seq<char>,
    last_error: Option<Seq<char>>,
    host: Host,
    action: MenuAction,
)
    ensures
        menu_entry("open"@, last_error, host) is ShowWindow,
        menu_entry("support"@, last_error, host) == MenuActionView::OpenUrl(
            support_link(last_error, host),
        ),
        menu_entry("downloads"@, last_error, host) == MenuActionView::OpenUrl(
            AMAUTUM_BASE_URL@ + "/downloads/transcriptor"@,
        ),
        menu_entry("notes"@, last_error, host) == MenuActionView::OpenUrl(
            RELEASES_BASE@ + "/tag/v"@ + VERSION@,
        ),
        menu_entry("amautum"@, last_error, host) == MenuActionView::OpenUrl(AMAUTUM_BASE_URL@),
        menu_entry("quit"@, last_error, host) is Quit,
        menu_entry(id, last_error, host) is Quit ==> id == "quit"@,
        menu_entry(id, last_error, host) is ShowWindow ==> id == "open"@,
        id != "open"@ && id != "support"@ && id != "downloads"@ && id != "notes"@ && id
            != "amautum"@ && id != "quit"@ ==> menu_entry(id, last_error, host) is Nothing,
        match action {
            MenuAction::ShowWindow => action@ is ShowWindow,
            MenuAction::OpenUrl(url) => action@ == MenuActionView::OpenUrl(url@),
            MenuAction::Quit => action@ is Quit,
            MenuAction::Nothing => action@ is Nothing,
        },
{
    reveal_strlit("open");
    reveal_strlit("support");
    reveal_strlit("downloads");
    reveal_strlit("notes");
    reveal_strlit("amautum");
    reveal_strlit("quit");
    assert("open"@.len() == 4 && "quit"@.len() == 4 && "notes"@.len() == 5);
    assert("support"@.len() == 7 && "amautum"@.len() == 7 && "downloads"@.len() == 9);
    assert("open"@[0] != "quit"@[0]);
    assert("support"@[0] != "amautum"@[0]);
}

} // verus!
