//! Qoder: one transcript file for each session, under the directory of the
//! projects:
//! `<project folder>/conversation-history/<8 hex digits>/<8 hex digits>.jsonl`.
//!
//! The eight digits are the first of the session's identifier. The folder of a
//! project is `<name of the workspace>-<hash>`.
//!
//! This module decides where transcripts are; [`folder`] says which folder a
//! workspace has, and [`transcript`] what a transcript says. Looking at the
//! directories is left to the caller, who hands in what was found.

use crate::fresh::{is_random_uuid, is_small_hex, new_session_id};
use crate::json::{put_field, text_value, Json};
use crate::model::{
    kept, lemma_kept_all, opt_str, opt_text, session_title, texts, CanonicalSession,
    DetectionResult, SessionView, WrittenSession,
};
use crate::place::{
    at_base, note_sighting, notes_of, opt_place, place_list, place_views, Base, BaseView, Place,
    PlaceView, Sighting,
};
use crate::qoder::folder::{
    is_project_folder, law_project_folder_is_named_after_workspace, opt_entries, workspace_name,
    FolderEntry,
};
use crate::qoder::transcript::{
    build_jsonl, messages_read_back, read_messages, session_of_transcript, transcript_messages,
    transcript_of,
};
use crate::text::{joined, lowered};
use vstd::prelude::*;

pub mod folder;
pub mod laws;
pub mod lines;
pub mod transcript;

verus! {

/// The Qoder provider.
pub struct Qoder;

// ---------------------------------------------------------------------------
// Identifiers
// ---------------------------------------------------------------------------

/// A hexadecimal digit.
pub open spec fn is_hex(c: char) -> bool {
    '0' <= c <= '9' || 'a' <= c <= 'f' || 'A' <= c <= 'F'
}

/// The hexadecimal digits in a text, in order.
pub open spec fn hex_digits(text: Seq<char>) -> Seq<char> {
    kept(
        Seq::new(
            text.len(),
            |i: int|
                if is_hex(text[i]) {
                    Some(text[i])
                } else {
                    None
                },
        ),
    )
}

/// The first eight hexadecimal digits of an identifier, in small letters, if it
/// has as many.
pub open spec fn first8(id: Seq<char>) -> Option<Seq<char>> {
    if hex_digits(id).len() >= 8 {
        Some(lowered(hex_digits(id).take(8)))
    } else {
        None
    }
}

proof fn lemma_hex_digits_one_more(text: Seq<char>, at: int)
    requires
        0 <= at < text.len(),
    ensures
        hex_digits(text.take(at + 1)) == (if is_hex(text[at]) {
            hex_digits(text.take(at)).push(text[at])
        } else {
            hex_digits(text.take(at))
        }),
{
    let longer = text.take(at + 1);
    let found = Seq::new(
        longer.len(),
        |i: int|
            if is_hex(longer[i]) {
                Some(longer[i])
            } else {
                None
            },
    );
    let shorter = text.take(at);
    assert(found.drop_last() =~= Seq::new(
        shorter.len(),
        |i: int|
            if is_hex(shorter[i]) {
                Some(shorter[i])
            } else {
                None
            },
    ));
}

/// The first eight hexadecimal digits of an identifier, in small letters, if it
/// has as many.
pub fn first8_of(id: &str) -> (digits: Option<String>)
    ensures
        opt_text(digits) == first8(id@),
{
    let mut digits = String::new();
    let mut count: usize = 0;
    assert(digits@ =~= lowered(hex_digits(id@.take(0)).take(0)));
    for c in it: id.chars()
        invariant
            it.seq() == id@,
            count <= 8,
            count < 8 ==> hex_digits(id@.take(it.index())).len() == count,
            count == 8 ==> hex_digits(id@.take(it.index())).len() >= 8,
            digits@ == lowered(hex_digits(id@.take(it.index())).take(count as int)),
    {
        let ghost before = hex_digits(id@.take(it.index()));
        proof {
            lemma_hex_digits_one_more(id@, it.index());
        }
        if count < 8 && (('0' <= c && c <= '9') || ('a' <= c && c <= 'f') || ('A' <= c && c <= 'F')) {
            let small: char = if 'A' <= c && c <= 'Z' {
                (c as u8 + 32) as char
            } else {
                c
            };
            digits.push(small);
            count += 1;
            assert(digits@ =~= lowered(before.push(c).take(count as int)));
        } else {
            assert(is_hex(c) ==> before.push(c).take(8) =~= before.take(8));
        }
    }
    assert(id@.take(id@.len() as int) =~= id@);
    if count == 8 {
        Some(digits)
    } else {
        None
    }
}

proof fn lemma_hex_digits_are_hex(text: Seq<char>)
    ensures
        forall|i: int| 0 <= i < hex_digits(text).len() ==> is_hex(#[trigger] hex_digits(text)[i]),
    decreases text.len(),
{
    if text.len() > 0 {
        let rest = text.drop_last();
        lemma_hex_digits_are_hex(rest);
        lemma_hex_digits_one_more(text, text.len() - 1);
        assert(text.take(text.len() as int) =~= text);
        assert(text.take(text.len() - 1) =~= rest);
    }
}

proof fn lemma_hex_digits_of_hex(text: Seq<char>)
    requires
        forall|i: int| 0 <= i < text.len() ==> is_hex(#[trigger] text[i]),
    ensures
        hex_digits(text) == text,
{
    lemma_kept_all(
        Seq::new(
            text.len(),
            |i: int|
                if is_hex(text[i]) {
                    Some(text[i])
                } else {
                    None
                },
        ),
        text,
    );
}

/// The digits of the beginning of a text come first among its digits.
proof fn lemma_hex_digits_of_start(text: Seq<char>, n: int)
    requires
        0 <= n <= text.len(),
    ensures
        hex_digits(text.take(n)).is_prefix_of(hex_digits(text)),
    decreases text.len(),
{
    assert(text.take(text.len() as int) =~= text);
    if n < text.len() {
        let rest = text.drop_last();
        assert(text.take(text.len() - 1) =~= rest);
        lemma_hex_digits_of_start(rest, n);
        assert(rest.take(n) =~= text.take(n));
        lemma_hex_digits_one_more(text, text.len() - 1);
        let start = hex_digits(text.take(n));
        assert(hex_digits(text).take(start.len() as int) =~= hex_digits(rest).take(
            start.len() as int,
        ));
    }
}

/// The digits by which a session goes are eight small hexadecimal digits, and
/// go by themselves: looking for a session by them finds what looking for it by
/// its identifier finds.
pub proof fn law_digits_go_by_themselves(id: Seq<char>)
    ensures
        first8(id) matches Some(digits) ==> {
            &&& digits.len() == 8
            &&& forall|i: int| 0 <= i < 8 ==> is_small_hex(#[trigger] digits[i])
            &&& first8(digits) == Some(digits)
        },
{
    if let Some(digits) = first8(id) {
        lemma_hex_digits_are_hex(id);
        assert(forall|i: int| 0 <= i < 8 ==> is_hex(#[trigger] hex_digits(id)[i]));
        assert forall|i: int| 0 <= i < 8 implies is_small_hex(#[trigger] digits[i]) by {
            assert(is_hex(hex_digits(id)[i]));
        }
        lemma_hex_digits_of_hex(digits);
        assert(lowered(digits.take(8)) =~= digits);
    }
}

/// A random UUID goes by its first eight characters.
pub proof fn law_uuid_goes_by_its_start(id: Seq<char>)
    requires
        is_random_uuid(id),
    ensures
        first8(id) == Some(id.take(8)),
{
    let start = id.take(8);
    assert forall|i: int| 0 <= i < 8 implies is_small_hex(#[trigger] start[i]) by {
        assert(start[i] == id[i]);
    }
    lemma_hex_digits_of_hex(start);
    lemma_hex_digits_of_start(id, 8);
    assert(hex_digits(id).take(8) =~= start);
    assert(lowered(start) =~= start);
}

// ---------------------------------------------------------------------------
// Where transcripts are
// ---------------------------------------------------------------------------

/// What the environment says of where Qoder keeps its data.
pub struct QoderEnv {
    /// The environment variable `QODER_HOME`.
    pub qoder_home: Option<String>,
    /// Whether the user has a home directory.
    pub has_user_home: bool,
}

/// The directory of Qoder: the one that `QODER_HOME` names, else `.qoder` in the
/// home directory.
pub open spec fn qoder_home(env: QoderEnv) -> Option<PlaceView> {
    if let Some(home) = env.qoder_home {
        Some(at_base(BaseView::Named(home@)))
    } else if env.has_user_home {
        Some(at_base(BaseView::UserHome).join(".qoder"@))
    } else {
        None
    }
}

/// The directory of the projects.
pub open spec fn projects_dir_of(env: QoderEnv) -> Option<PlaceView> {
    match qoder_home(env) {
        Some(home) => Some(home.join("cache"@).join("projects"@)),
        None => None,
    }
}

/// The name of the transcript in the directory of the session called `name`.
pub open spec fn transcript_name(name: Seq<char>) -> Seq<char> {
    name + ".jsonl"@
}

/// Where the transcript of the session with these digits stands in the folder of
/// its project.
pub open spec fn transcript_in_project(digits: Seq<char>) -> Seq<Seq<char>> {
    seq!["conversation-history"@, digits, transcript_name(digits)]
}

/// Where the transcript of the session with these digits stands.
pub open spec fn transcript_place(folder: Seq<char>, digits: Seq<char>) -> PlaceView {
    PlaceView {
        base: BaseView::ProjectsDir,
        parts: seq![folder] + transcript_in_project(digits),
    }
}

// ---------------------------------------------------------------------------
// What was found in the directory of the projects
// ---------------------------------------------------------------------------

/// What was found of the directory of the projects.
pub enum ProjectsProbe<T> {
    /// It is no directory.
    NotADir,
    /// It could not be read.
    Unreadable,
    /// Its entries, in the order in which they came.
    Entries(Vec<T>),
}

/// An entry in which a certain transcript was looked for.
pub struct SearchedProject {
    pub is_dir: bool,
    pub has_transcript: bool,
}

/// An entry of the directory of the projects. `sessions` are the entries of its
/// history, if that could be read.
pub struct ProjectEntry {
    pub is_dir: bool,
    pub history_is_dir: bool,
    pub sessions: Option<Vec<SessionEntry>>,
}

/// An entry of the history of a project. `has_transcript` says whether the file
/// named after the entry is in it.
pub struct SessionEntry {
    pub is_dir: bool,
    pub name: Option<String>,
    pub has_transcript: bool,
}

/// A session that was found: its name, and where it stands, as the numbers of
/// the project and of its entry in the history of the project.
#[derive(Debug, PartialEq)]
pub struct ListedSession {
    pub id: String,
    pub project: usize,
    pub entry: usize,
}

/// What a [`ListedSession`] holds.
#[verifier::ext_equal]
pub struct ListedSessionView {
    pub id: Seq<char>,
    pub project: int,
    pub entry: int,
}

impl View for ListedSession {
    type V = ListedSessionView;

    open spec fn view(&self) -> ListedSessionView {
        ListedSessionView {
            id: self.id@,
            project: self.project as int,
            entry: self.entry as int,
        }
    }
}

/// What the sessions hold.
pub open spec fn listed_views(sessions: Seq<ListedSession>) -> Seq<ListedSessionView> {
    Seq::new(sessions.len(), |i: int| sessions[i]@)
}

/// The session that an entry is: a directory with a name that is text and with
/// its transcript in it.
pub open spec fn session_of_entry(entry: SessionEntry, project: int, at: int) -> Option<
    ListedSessionView,
> {
    match entry.name {
        Some(name) => if entry.is_dir && entry.has_transcript {
            Some(ListedSessionView { id: name@, project, entry: at })
        } else {
            None
        },
        None => None,
    }
}

/// The sessions of a project, in order.
pub open spec fn sessions_of_project(entry: ProjectEntry, project: int) -> Seq<ListedSessionView> {
    match entry.sessions {
        Some(entries) => if entry.is_dir && entry.history_is_dir {
            kept(
                Seq::new(entries@.len(), |i: int| session_of_entry(entries@[i], project, i)),
            )
        } else {
            Seq::empty()
        },
        None => Seq::empty(),
    }
}

/// The sessions of the projects, one project after the other.
pub open spec fn sessions_of_projects(entries: Seq<ProjectEntry>) -> Seq<ListedSessionView>
    decreases entries.len(),
{
    if entries.len() == 0 {
        Seq::empty()
    } else {
        sessions_of_projects(entries.drop_last()) + sessions_of_project(
            entries.last(),
            entries.len() - 1,
        )
    }
}

/// The sessions that are found: none where the directory of the projects is
/// none, and no list at all where there is no knowing where it is or it could
/// not be read.
pub open spec fn listed(probe: Option<ProjectsProbe<ProjectEntry>>) -> Option<
    Seq<ListedSessionView>,
> {
    match probe {
        None => None,
        Some(ProjectsProbe::NotADir) => Some(Seq::empty()),
        Some(ProjectsProbe::Unreadable) => None,
        Some(ProjectsProbe::Entries(entries)) => Some(sessions_of_projects(entries@)),
    }
}

/// The transcript is in the entry, which is a directory.
pub open spec fn holds_transcript(entry: SearchedProject) -> bool {
    entry.is_dir && entry.has_transcript
}

/// `found` is the first project with the transcript that was looked for, if
/// there is one.
pub open spec fn is_first_holding(found: Option<usize>, entries: Seq<SearchedProject>) -> bool {
    match found {
        Some(at) => at < entries.len() && holds_transcript(entries[at as int]) && forall|i: int|
            0 <= i < at ==> !holds_transcript(#[trigger] entries[i]),
        None => forall|i: int| 0 <= i < entries.len() ==> !holds_transcript(#[trigger] entries[i]),
    }
}

// ---------------------------------------------------------------------------
// Writing
// ---------------------------------------------------------------------------

/// A session that is to be written: its identifier, the place of its transcript,
/// and the transcript.
#[derive(Debug, PartialEq)]
pub struct QoderJob {
    pub session_id: String,
    pub target: Place,
    pub bytes: Vec<u8>,
}

/// Why a session cannot be written.
#[derive(Debug, PartialEq, Eq, Structural, Clone, Copy)]
pub enum QoderWriteError {
    /// There is no knowing where the directory of the projects is.
    NoProjectsDir,
    /// The identifier of the session is too short.
    IdTooShort,
    /// The workspace of the session has no folder.
    NoProjectFolder,
}

/// Why a session cannot be written under the identifier `id`, if it cannot.
/// `basename` is the last name of the path of its workspace.
pub open spec fn write_error(
    env: QoderEnv,
    id: Seq<char>,
    session: SessionView,
    basename: Option<Seq<char>>,
) -> Option<QoderWriteError> {
    if projects_dir_of(env) is None {
        Some(QoderWriteError::NoProjectsDir)
    } else if first8(id) is None {
        Some(QoderWriteError::IdTooShort)
    } else if workspace_name(session.workspace, basename) is None {
        Some(QoderWriteError::NoProjectFolder)
    } else {
        None
    }
}

/// The job writes the transcript of the session to where the session with the
/// identifier of the job is looked for, in the folder of its workspace.
pub open spec fn is_job_for(
    job: QoderJob,
    session: SessionView,
    basename: Option<Seq<char>>,
    entries: Option<Seq<FolderEntry>>,
) -> bool {
    &&& job.bytes@ == transcript_of(session)
    &&& transcript_messages(job.bytes@) == messages_read_back(session.messages)
    &&& exists|folder: Seq<char>| #[trigger]
        is_project_folder(Some(folder), session.workspace, basename, entries) && first8(
            job.session_id@,
        ) is Some && job.target@ == transcript_place(folder, first8(job.session_id@).unwrap())
}

impl Qoder {
    /// The name of the agent.
    pub fn name(&self) -> (name: &'static str)
        ensures
            name@ == "Qoder"@,
    {
        "Qoder"
    }

    /// The name under which sessions of the agent go.
    pub fn slug(&self) -> (slug: &'static str)
        ensures
            slug@ == "qoder"@,
    {
        "qoder"
    }

    /// The short name of the agent on the command line.
    pub fn cli_alias(&self) -> (alias: &'static str)
        ensures
            alias@ == "qod"@,
    {
        "qod"
    }

    /// The command that resumes a session.
    pub fn resume_command(&self, session_id: &str) -> (command: String)
        ensures
            command@ == "qoder --resume "@ + session_id@,
    {
        joined("qoder --resume ", session_id)
    }

    /// The directory of Qoder.
    pub fn home_dir(env: &QoderEnv) -> (home: Option<Place>)
        ensures
            opt_place(home) == qoder_home(*env),
    {
        if let Some(home) = &env.qoder_home {
            return Some(Place::at(Base::Named(home.clone())));
        }
        if env.has_user_home {
            Some(Place::at(Base::UserHome).join(".qoder"))
        } else {
            None
        }
    }

    /// The directory of the projects.
    pub fn projects_dir(env: &QoderEnv) -> (dir: Option<Place>)
        ensures
            opt_place(dir) == projects_dir_of(*env),
    {
        match Self::home_dir(env) {
            Some(home) => Some(home.join("cache").join("projects")),
            None => None,
        }
    }

    /// The folder of the workspace at the path `workspace`, if it is known where
    /// the directory of the projects is. `basename` is the last name of that path,
    /// if it has one that is text; `entries` are those of the directory, if it
    /// could be read.
    pub fn project_folder(
        env: &QoderEnv,
        workspace: Option<&str>,
        basename: Option<&str>,
        entries: Option<&Vec<FolderEntry>>,
    ) -> (folder: Option<String>)
        ensures
            projects_dir_of(*env) is None ==> folder is None,
            projects_dir_of(*env) is Some ==> is_project_folder(
                opt_text(folder),
                opt_str(workspace),
                opt_str(basename),
                opt_entries(entries),
            ),
    {
        match Self::projects_dir(env) {
            Some(_) => Self::project_folder_for(workspace, basename, entries),
            None => None,
        }
    }

    /// What speaks for Qoder on this machine: the directory of the projects and
    /// the home directory. The directory of the projects is needed to take it for
    /// installed.
    pub fn detect(&self, projects: &Option<Sighting>, home: &Option<Sighting>) -> (found:
        DetectionResult)
        ensures
            texts(found.evidence@) == notes_of(*projects) + notes_of(*home),
            found.installed == (notes_of(*projects).len() > 0),
            found.version is None,
    {
        let mut evidence: Vec<String> = Vec::new();
        assert(texts(evidence@) =~= Seq::empty());
        let installed: bool = note_sighting(&mut evidence, projects);
        assert(texts(evidence@) =~= notes_of(*projects));
        note_sighting(&mut evidence, home);
        DetectionResult { installed, version: None, evidence }
    }

    /// Where sessions are kept: the directory of the projects, if it is there.
    pub fn session_roots(&self, projects: Option<Place>, is_dir: bool) -> (roots: Vec<Place>)
        ensures
            place_views(roots@) == (if is_dir {
                place_list(opt_place(projects))
            } else {
                Seq::empty()
            }),
    {
        match projects {
            Some(place) if is_dir => place.alone(),
            _ => {
                let none: Vec<Place> = Vec::new();
                assert(place_views(none@) =~= Seq::empty());
                none
            },
        }
    }

    /// The name of the transcript in the directory of the session called `name`.
    pub fn transcript_file(name: &str) -> (file: String)
        ensures
            file@ == transcript_name(name@),
    {
        joined(name, ".jsonl")
    }

    /// Where the transcript of the session `session_id` is to be looked for in
    /// the folder of each project, if the identifier has enough digits.
    pub fn transcript_parts(session_id: &str) -> (parts: Option<Vec<String>>)
        ensures
            parts is Some == first8(session_id@) is Some,
            parts matches Some(list) ==> texts(list@) == transcript_in_project(
                first8(session_id@).unwrap(),
            ),
    {
        match first8_of(session_id) {
            Some(digits) => {
                let mut parts: Vec<String> = Vec::new();
                parts.push("conversation-history".to_owned());
                let file = Self::transcript_file(digits.as_str());
                parts.push(digits);
                parts.push(file);
                assert(texts(parts@) =~= transcript_in_project(first8(session_id@).unwrap()));
                Some(parts)
            },
            None => None,
        }
    }

    /// The first project in which the transcript of the session `session_id` is,
    /// if there is one. `probe` is what was found when it was looked for in the
    /// projects, if it is known where they are.
    pub fn owns_session(
        &self,
        probe: &Option<ProjectsProbe<SearchedProject>>,
        session_id: &str,
    ) -> (found: Option<usize>)
        ensures
            first8(session_id@) is None ==> found is None,
            first8(session_id@) is Some ==> match *probe {
                Some(ProjectsProbe::Entries(entries)) => is_first_holding(found, entries@),
                _ => found is None,
            },
    {
        let entries = match probe {
            Some(ProjectsProbe::Entries(entries)) => entries,
            _ => return None,
        };
        if first8_of(session_id).is_none() {
            return None;
        }
        let mut at: usize = 0;
        while at < entries.len()
            invariant
                at <= entries@.len(),
                forall|i: int| 0 <= i < at ==> !holds_transcript(#[trigger] entries@[i]),
                *probe == Some(ProjectsProbe::Entries(*entries)),
                first8(session_id@) is Some,
            decreases entries@.len() - at,
        {
            if entries[at].is_dir && entries[at].has_transcript {
                return Some(at);
            }
            at += 1;
        }
        None
    }

    /// The sessions that were found in the projects, if it is known where these
    /// are.
    pub fn list_sessions(&self, probe: &Option<ProjectsProbe<ProjectEntry>>) -> (sessions: Option<
        Vec<ListedSession>,
    >)
        ensures
            (match sessions {
                Some(list) => Some(listed_views(list@)),
                None => None,
            }) == listed(*probe),
    {
        let mut list: Vec<ListedSession> = Vec::new();
        assert(listed_views(list@) =~= Seq::empty());
        match probe {
            None => None,
            Some(ProjectsProbe::NotADir) => Some(list),
            Some(ProjectsProbe::Unreadable) => None,
            Some(ProjectsProbe::Entries(entries)) => {
                let mut at: usize = 0;
                assert(entries@.take(0) =~= Seq::empty());
                while at < entries.len()
                    invariant
                        at <= entries@.len(),
                        listed_views(list@) == sessions_of_projects(entries@.take(at as int)),
                    decreases entries@.len() - at,
                {
                    list_project(&entries[at], at, &mut list);
                    at += 1;
                    assert(entries@.take(at as int).drop_last() =~= entries@.take(at - 1));
                }
                assert(entries@.take(at as int) =~= entries@);
                Some(list)
            },
        }
    }

    /// The session that a transcript is. `stem` is the name of its file without
    /// the extension, if that is text.
    pub fn read_session(&self, stem: Option<&str>, bytes: &[u8], source_path: &str) -> (session:
        CanonicalSession)
        ensures
            session@ == session_of_transcript(opt_str(stem), bytes@, source_path@),
    {
        let messages = read_messages(bytes);
        let mut metadata: Vec<(String, Json)> = Vec::new();
        put_field(&mut metadata, "source", text_value("qoder"));
        CanonicalSession {
            session_id: match stem {
                Some(name) => name.to_owned(),
                None => "unknown".to_owned(),
            },
            provider_slug: "qoder".to_owned(),
            workspace: None,
            title: session_title(&messages),
            started_at: None,
            ended_at: None,
            messages,
            metadata: Json::Object(metadata),
            source_path: source_path.to_owned(),
            model_name: None,
        }
    }

    /// Prepares the writing of a session under the identifier `id`. `basename` is
    /// the last name of the path of its workspace, if it has one that is text;
    /// `entries` are those of the directory of the projects, if it could be read.
    pub fn plan_write_session(
        id: &str,
        env: &QoderEnv,
        session: &CanonicalSession,
        basename: Option<&str>,
        entries: Option<&Vec<FolderEntry>>,
    ) -> (job: Result<QoderJob, QoderWriteError>)
        ensures
            job is Err == write_error(*env, id@, session@, opt_str(basename)) is Some,
            job matches Err(error) ==> write_error(*env, id@, session@, opt_str(basename)) == Some(
                error,
            ),
            job matches Ok(prepared) ==> prepared.session_id@ == id@ && is_job_for(
                prepared,
                session@,
                opt_str(basename),
                opt_entries(entries),
            ),
    {
        if Self::projects_dir(env).is_none() {
            return Err(QoderWriteError::NoProjectsDir);
        }
        let digits = match first8_of(id) {
            Some(digits) => digits,
            None => return Err(QoderWriteError::IdTooShort),
        };
        let workspace = match &session.workspace {
            Some(path) => Some(path.as_str()),
            None => None,
        };
        let folder = match Self::project_folder(env, workspace, basename, entries) {
            Some(folder) => folder,
            None => return Err(QoderWriteError::NoProjectFolder),
        };
        let file = Self::transcript_file(digits.as_str());
        let target = Place::at(Base::ProjectsDir).join(folder.as_str()).join(
            "conversation-history",
        ).join(digits.as_str()).join(file.as_str());
        let job = QoderJob { session_id: id.to_owned(), target, bytes: build_jsonl(session) };
        proof {
            let (path, name, found) = (
                session@.workspace,
                opt_str(basename),
                opt_entries(entries),
            );
            law_project_folder_is_named_after_workspace(folder@, path, name, found);
            assert(target@ =~= transcript_place(folder@, digits@));
            assert(is_project_folder(Some(folder@), path, name, found));
        }
        Ok(job)
    }

    /// Prepares the writing of a session under a new random identifier, which
    /// rests on chance. `basename` is the last name of the path of its workspace,
    /// if it has one that is text; `entries` are those of the directory of the
    /// projects, if it could be read.
    pub fn write_session(
        &self,
        env: &QoderEnv,
        session: &CanonicalSession,
        basename: Option<&str>,
        entries: Option<&Vec<FolderEntry>>,
    ) -> (job: Result<QoderJob, QoderWriteError>)
        ensures
            job == Err::<QoderJob, QoderWriteError>(QoderWriteError::NoProjectsDir)
                <==> projects_dir_of(*env) is None,
            job == Err::<QoderJob, QoderWriteError>(QoderWriteError::NoProjectFolder)
                <==> projects_dir_of(*env) is Some && workspace_name(
                session@.workspace,
                opt_str(basename),
            ) is None,
            job != Err::<QoderJob, QoderWriteError>(QoderWriteError::IdTooShort),
            job matches Ok(prepared) ==> is_random_uuid(prepared.session_id@) && is_job_for(
                prepared,
                session@,
                opt_str(basename),
                opt_entries(entries),
            ),
    {
        let id = new_session_id();
        proof {
            law_uuid_goes_by_its_start(id@);
        }
        Self::plan_write_session(id.as_str(), env, session, basename, entries)
    }

    /// Prepares the writing of a session to a place that is given, under a new
    /// random identifier, which rests on chance.
    pub fn write_to_target(&self, target: Place, session: &CanonicalSession) -> (job: QoderJob)
        ensures
            is_random_uuid(job.session_id@),
            job.target == target,
            job.bytes@ == transcript_of(session@),
            transcript_messages(job.bytes@) == messages_read_back(session@.messages),
    {
        QoderJob { session_id: new_session_id(), target, bytes: build_jsonl(session) }
    }

    /// What is reported of a session that was written: where, under which
    /// identifier, the command that resumes it, and the file that was backed up,
    /// if one was.
    pub fn written(&self, target: Place, session_id: &str, backup_path: Option<String>) -> (written:
        WrittenSession)
        ensures
            place_views(written.paths@) == seq![target@],
            written.session_id@ == session_id@,
            written.resume_command@ == "qoder --resume "@ + session_id@,
            written.backup_path == backup_path,
    {
        WrittenSession {
            paths: target.alone(),
            session_id: session_id.to_owned(),
            resume_command: self.resume_command(session_id),
            backup_path,
        }
    }
}

/// Adds the sessions of the project with the number `project` to the list.
fn list_project(entry: &ProjectEntry, project: usize, list: &mut Vec<ListedSession>)
    ensures
        listed_views(final(list)@) == listed_views(old(list)@) + sessions_of_project(
            *entry,
            project as int,
        ),
{
    if entry.is_dir && entry.history_is_dir {
        if let Some(entries) = &entry.sessions {
            let ghost found = Seq::new(
                entries@.len(),
                |i: int| session_of_entry(entries@[i], project as int, i),
            );
            let ghost start = listed_views(list@);
            let mut at: usize = 0;
            assert(listed_views(list@) =~= start + kept(found.take(0)));
            while at < entries.len()
                invariant
                    at <= entries@.len(),
                    found == Seq::new(
                        entries@.len(),
                        |i: int| session_of_entry(entries@[i], project as int, i),
                    ),
                    listed_views(list@) == start + kept(found.take(at as int)),
                decreases entries@.len() - at,
            {
                let session = &entries[at];
                let ghost before = listed_views(list@);
                proof {
                    assert(found.take(at + 1).drop_last() =~= found.take(at as int));
                    assert(found.take(at + 1).last() == session_of_entry(
                        *session,
                        project as int,
                        at as int,
                    ));
                }
                if session.is_dir && session.has_transcript {
                    if let Some(name) = &session.name {
                        let item = ListedSession { id: name.clone(), project, entry: at };
                        list.push(item);
                        assert(listed_views(list@) =~= before.push(item@));
                        assert(start + kept(found.take(at as int)).push(item@) =~= before.push(
                            item@,
                        ));
                    }
                }
                at += 1;
            }
            assert(found.take(at as int) =~= found);
            return ;
        }
    }
    assert(listed_views(list@) =~= listed_views(old(list)@) + sessions_of_project(
        *entry,
        project as int,
    ));
}

} // verus!
