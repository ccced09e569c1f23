//! The Qoder provider.

use casr::json::Json;
use casr::model::{CanonicalMessage, CanonicalSession, MessageRole};
use casr::place::{Base, Place, Sighting};
use casr::qoder::folder::{short_hex, workspace_hash, FolderEntry};
use casr::qoder::transcript::{
    build_jsonl, message_from_record, read_messages, record_value, written_form,
};
use casr::qoder::{
    first8_of, ListedSession, ProjectEntry, ProjectsProbe, Qoder, QoderEnv, QoderWriteError,
    SearchedProject, SessionEntry,
};

fn sample_message(role: MessageRole, content: &str) -> CanonicalMessage {
    CanonicalMessage {
        idx: 0,
        role,
        content: content.to_string(),
        timestamp: Some(1_700_000_000_000),
        author: None,
        tool_calls: Vec::new(),
        tool_results: Vec::new(),
        extra: Json::Null,
    }
}

fn sample_session(messages: Vec<CanonicalMessage>) -> CanonicalSession {
    CanonicalSession {
        session_id: "src-001".to_string(),
        provider_slug: "cursor".to_string(),
        workspace: Some("/data/projects/myapp".to_string()),
        title: Some("Test".to_string()),
        started_at: Some(1_700_000_000_000),
        ended_at: Some(1_700_000_001_000),
        messages,
        metadata: Json::Object(Vec::new()),
        source_path: "/tmp/src.jsonl".to_string(),
        model_name: Some("sonnet-4-5".to_string()),
    }
}

const MYAPP: Option<&str> = Some("/data/projects/myapp");
const NAME: Option<&str> = Some("myapp");

fn entry(name: &str, modified: i128) -> FolderEntry {
    FolderEntry { is_dir: true, name: Some(name.to_string()), modified: Some(modified) }
}

fn place(base: Base, parts: &[&str]) -> Place {
    Place { base, parts: parts.iter().map(|p| p.to_string()).collect() }
}

fn env(qoder_home: Option<&str>, has_user_home: bool) -> QoderEnv {
    QoderEnv { qoder_home: qoder_home.map(String::from), has_user_home }
}

// ---------------------------------------------------------------------------
// Identifiers and hashes
// ---------------------------------------------------------------------------

#[test]
fn first8_of_uuid_extracts_eight_hex() {
    let id = "2e9d924b-1234-5678-9abc-def012345678";
    assert_eq!(first8_of(id).as_deref(), Some("2e9d924b"));
}

#[test]
fn first8_of_short_id_returns_none() {
    assert_eq!(first8_of("abc"), None);
}

#[test]
fn first8_passes_over_other_characters_and_lowers() {
    assert_eq!(first8_of("  2E9D-zz-924B0  ").as_deref(), Some("2e9d924b"));
    assert_eq!(first8_of("2e9d924").as_deref(), None);
    assert_eq!(first8_of(""), None);
    let digits = first8_of("DEADBEEFCAFE").unwrap();
    assert_eq!(first8_of(&digits), Some(digits));
}

#[test]
fn workspace_hash_is_eight_lowercase_hex() {
    let h = workspace_hash("/data/projects/myapp");
    assert_eq!(h.len(), 8, "hash must be 8 hex chars");
    assert!(h.chars().all(|c| c.is_ascii_hexdigit()));
    assert_eq!(h, h.to_ascii_lowercase());
}

#[test]
fn workspace_hash_begins_the_sha256_of_the_lowered_path() {
    assert_eq!(workspace_hash("/data/projects/myapp"), "46818d74");
    assert_eq!(workspace_hash("/Data/PROJECTS/MyApp"), "46818d74");
    assert_eq!(workspace_hash(""), "e3b0c442");
    assert_eq!(short_hex(&vec![0x00, 0x0f, 0xa5, 0xff, 0x77]), "000fa5ff");
}

// ---------------------------------------------------------------------------
// Folders
// ---------------------------------------------------------------------------

#[test]
fn project_folder_reuses_existing_basename_folder() {
    let entries = vec![entry("myapp-deadbeef", 1), entry("myapp-cafef00d", 2)];
    let folder =
        Qoder::project_folder_for(MYAPP, NAME, Some(&entries)).expect("folder should resolve");
    assert!(
        folder == "myapp-deadbeef" || folder == "myapp-cafef00d",
        "should reuse an existing myapp-* folder, got {folder}"
    );
    assert_eq!(folder, "myapp-cafef00d");
}

#[test]
fn project_folder_creates_hash_folder_when_none_exists() {
    let entries: Vec<FolderEntry> = Vec::new();
    let folder =
        Qoder::project_folder_for(MYAPP, NAME, Some(&entries)).expect("folder should resolve");
    assert!(
        folder.starts_with("myapp-"),
        "should derive a myapp-<hash> folder, got {folder}"
    );
    assert_eq!(folder.len(), "myapp-".len() + 8);
    assert_eq!(folder, "myapp-46818d74");
}

#[test]
fn project_folder_is_the_first_of_the_newest() {
    let entries = vec![
        FolderEntry { is_dir: true, name: None, modified: Some(99) },
        entry("other-1", 50),
        FolderEntry { is_dir: true, name: Some("myapp-unknown".to_string()), modified: None },
        entry("myapp-a", 7),
        entry("myapp-b", 7),
        entry("myapp", 60),
        entry("myapp-c", 3),
    ];
    assert_eq!(
        Qoder::project_folder_for(MYAPP, NAME, Some(&entries)).as_deref(),
        Some("myapp-a")
    );
    // A folder whose time is not known counts as changed at the epoch.
    let entries = vec![
        entry("myapp-old", -5),
        FolderEntry { is_dir: true, name: Some("myapp-unknown".to_string()), modified: None },
    ];
    assert_eq!(
        Qoder::project_folder_for(MYAPP, NAME, Some(&entries)).as_deref(),
        Some("myapp-unknown")
    );
    assert_eq!(
        Qoder::project_folder_for(MYAPP, NAME, None).as_deref(),
        Some("myapp-46818d74")
    );
}

#[test]
fn plain_file_is_no_project_folder() {
    let file = |name: &str, modified: i128| FolderEntry {
        is_dir: false,
        name: Some(name.to_string()),
        modified: Some(modified),
    };
    let entries = vec![entry("myapp-old", 1), file("myapp-notes.txt", 2)];
    assert_eq!(
        Qoder::project_folder_for(MYAPP, NAME, Some(&entries)).as_deref(),
        Some("myapp-old")
    );
    let entries = vec![file("abc-notes.txt", 1)];
    assert_eq!(
        Qoder::project_folder_for(Some("abc"), Some("abc"), Some(&entries)).as_deref(),
        Some("abc-ba7816bf")
    );
}

#[test]
fn workspace_without_a_name_has_no_folder() {
    let entries = vec![entry("-x", 1)];
    assert_eq!(Qoder::project_folder_for(None, NAME, Some(&entries)), None);
    assert_eq!(Qoder::project_folder_for(Some("/"), None, Some(&entries)), None);
    assert_eq!(Qoder::project_folder_for(Some(""), Some(""), Some(&entries)), None);
    assert_eq!(Qoder::project_folder(&env(None, false), MYAPP, NAME, None), None);
    assert_eq!(
        Qoder::project_folder(&env(None, true), MYAPP, NAME, None).as_deref(),
        Some("myapp-46818d74")
    );
}

// ---------------------------------------------------------------------------
// Transcripts
// ---------------------------------------------------------------------------

#[test]
fn qoder_write_then_read_round_trips_text_messages() {
    let target = place(Base::Named("/tmp".to_string()), &["abc12345", "abc12345.jsonl"]);
    let original = sample_session(vec![
        sample_message(MessageRole::User, "Fix the login bug in auth.rs"),
        sample_message(
            MessageRole::Assistant,
            "I found the issue. The token validation was using an expired key.",
        ),
        sample_message(MessageRole::User, "Great, can you also add a test for it?"),
        sample_message(
            MessageRole::Assistant,
            "Done. I added a test in tests/auth_test.rs.",
        ),
    ]);

    let job = Qoder.write_to_target(target, &original);
    let written = Qoder.written(job.target, &job.session_id, None);

    assert_eq!(
        written.paths,
        vec![place(Base::Named("/tmp".to_string()), &["abc12345", "abc12345.jsonl"])]
    );
    assert!(!written.session_id.is_empty());
    assert!(written.resume_command.starts_with("qoder --resume "));

    let readback =
        Qoder.read_session(Some("abc12345"), &job.bytes, "/tmp/abc12345/abc12345.jsonl");

    assert_eq!(readback.provider_slug, "qoder");
    assert_eq!(readback.session_id, "abc12345");
    assert_eq!(readback.messages.len(), original.messages.len());
    for (i, (orig, rb)) in original.messages.iter().zip(readback.messages.iter()).enumerate() {
        assert_eq!(orig.role, rb.role, "msg {i}: role mismatch");
        assert_eq!(orig.content, rb.content, "msg {i}: content mismatch");
        assert_eq!(rb.idx, i);
    }
    // Qoder stores no timestamps.
    assert!(readback.messages.iter().all(|m| m.timestamp.is_none()));
}

#[test]
fn build_jsonl_drops_empty_tool_and_system_messages() {
    let session = sample_session(vec![
        sample_message(MessageRole::User, "hello"),
        sample_message(MessageRole::Tool, ""),
        sample_message(MessageRole::System, ""),
        sample_message(MessageRole::Assistant, "hi"),
    ]);
    let bytes = build_jsonl(&session);
    let text = String::from_utf8(bytes).unwrap();
    let count = text.lines().filter(|l| !l.trim().is_empty()).count();
    assert_eq!(count, 2, "empty tool/system lines should be dropped");
    // Non-empty system/tool get prefixed.
    let session2 = sample_session(vec![
        sample_message(MessageRole::Tool, "tool output"),
        sample_message(MessageRole::System, "sys msg"),
    ]);
    let text2 = String::from_utf8(build_jsonl(&session2)).unwrap();
    assert!(text2.contains("[tool] tool output"));
    assert!(text2.contains("[system] sys msg"));
}

#[test]
fn read_session_parses_real_record_shape() {
    let bytes = b"{\"role\":\"user\",\"message\":{\"content\":[{\"type\":\"text\",\"text\":\"hello world\"}]}}\n";
    let session = Qoder.read_session(Some("2e9d924b"), bytes, "/x/2e9d924b/2e9d924b.jsonl");
    assert_eq!(session.session_id, "2e9d924b");
    assert_eq!(session.messages.len(), 1);
    assert_eq!(session.messages[0].role, MessageRole::User);
    assert_eq!(session.messages[0].content, "hello world");
    assert_eq!(session.title.as_deref(), Some("hello world"));
    assert_eq!(session.source_path, "/x/2e9d924b/2e9d924b.jsonl");
    assert_eq!(session.workspace, None);
    assert_eq!(session.started_at, None);
    assert_eq!(
        session.metadata,
        Json::Object(vec![("source".to_string(), Json::Text("qoder".to_string()))])
    );
    assert_eq!(Qoder.read_session(None, b"", "x").session_id, "unknown");
}

#[test]
fn build_jsonl_writes_one_record_on_each_line() {
    assert_eq!(build_jsonl(&sample_session(Vec::new())), Vec::<u8>::new());
    let session = sample_session(vec![
        sample_message(MessageRole::User, "a\nb"),
        sample_message(MessageRole::Other("critic".to_string()), "so-so"),
    ]);
    assert_eq!(
        String::from_utf8(build_jsonl(&session)).unwrap(),
        "{\"message\":{\"content\":[{\"text\":\"a\\nb\",\"type\":\"text\"}]},\"role\":\"user\"}\n\
         {\"message\":{\"content\":[{\"text\":\"[other] so-so\",\"type\":\"text\"}]},\
         \"role\":\"assistant\"}\n"
    );
}

#[test]
fn messages_are_written_in_these_forms() {
    let form = |role, content| {
        written_form(&sample_message(role, content)).map(|(r, t)| (r.to_string(), t))
    };
    let some = |role: &str, text: &str| Some((role.to_string(), text.to_string()));
    assert_eq!(form(MessageRole::User, " "), some("user", " "));
    assert_eq!(form(MessageRole::Assistant, ""), some("assistant", ""));
    assert_eq!(form(MessageRole::Tool, " \t\n"), None);
    assert_eq!(form(MessageRole::Tool, " x"), some("assistant", "[tool]  x"));
    assert_eq!(form(MessageRole::System, "y"), some("assistant", "[system] y"));
    assert_eq!(form(MessageRole::System, ""), None);
    assert_eq!(form(MessageRole::Other("z".to_string()), "y"), some("assistant", "[other] y"));
    assert_eq!(form(MessageRole::Other("z".to_string()), "\u{3000}"), None);
}

#[test]
fn what_is_read_back_is_what_was_written_and_is_not_blank() {
    let session = sample_session(vec![
        sample_message(MessageRole::User, "  "),
        sample_message(MessageRole::System, "be kind"),
        sample_message(MessageRole::Assistant, "\u{fffd} \"quoted\" \\ \u{1f600}\r\n\u{7}"),
    ]);
    let back = read_messages(&build_jsonl(&session));
    assert_eq!(back.len(), 2);
    assert_eq!(back[0].role, MessageRole::Assistant);
    assert_eq!(back[0].content, "[system] be kind");
    assert_eq!(back[0].extra, record_value_sorted("assistant", "[system] be kind"));
    assert_eq!(back[1].content, session.messages[2].content);
    assert_eq!((back[0].idx, back[1].idx), (0, 1));
}

/// The record as it comes from JSON text, with its keys in order.
fn record_value_sorted(role: &str, text: &str) -> Json {
    let t = |s: &str| Json::Text(s.to_string());
    let block = Json::Object(vec![
        ("text".to_string(), t(text)),
        ("type".to_string(), t("text")),
    ]);
    let message = Json::Object(vec![("content".to_string(), Json::Array(vec![block]))]);
    Json::Object(vec![("message".to_string(), message), ("role".to_string(), t(role))])
}

#[test]
fn lines_that_say_nothing_are_passed_over() {
    let mut bytes: Vec<u8> = Vec::new();
    bytes.extend_from_slice(b"\n   \r\nnot json\n\xff\xfe\n");
    bytes.extend_from_slice(b"{\"role\":\"user\"}\n");
    bytes.extend_from_slice(b"{\"role\":\"user\",\"message\":{\"content\":[{\"type\":\"image\"}]}}\n");
    bytes.extend_from_slice(b"{\"role\":\"user\",\"message\":{\"content\":\"  \"}}\n");
    bytes.extend_from_slice(b"  {\"role\":7,\"message\":{\"content\":\"plain\"}}  \r\n");
    bytes.extend_from_slice(b"{\"role\":\"robot\",\"message\":{\"content\":{\"text\":\"last\"}}}");
    let messages = read_messages(&bytes);
    assert_eq!(messages.len(), 2);
    assert_eq!(messages[0].content, "plain");
    assert_eq!(messages[0].role, MessageRole::Other(String::new()));
    assert_eq!(messages[1].content, "last");
    assert_eq!(messages[1].role, MessageRole::Other("robot".to_string()));
    assert_eq!(messages[1].idx, 1);
}

#[test]
fn record_is_read_as_what_it_was_made_of() {
    let message = message_from_record(record_value("assistant", "hi")).unwrap();
    assert_eq!(message.role, MessageRole::Assistant);
    assert_eq!(message.content, "hi");
    assert!(message_from_record(record_value("assistant", "\n")).is_none());
    assert!(message_from_record(Json::Null).is_none());
}

// ---------------------------------------------------------------------------
// Places
// ---------------------------------------------------------------------------

#[test]
fn projects_are_below_the_home() {
    assert_eq!(
        Qoder::projects_dir(&env(Some("/q"), true)),
        Some(place(Base::Named("/q".to_string()), &["cache", "projects"]))
    );
    assert_eq!(
        Qoder::projects_dir(&env(None, true)),
        Some(place(Base::UserHome, &[".qoder", "cache", "projects"]))
    );
    assert_eq!(Qoder::projects_dir(&env(None, false)), None);
    assert_eq!(Qoder::home_dir(&env(None, true)), Some(place(Base::UserHome, &[".qoder"])));
}

#[test]
fn session_is_written_to_where_it_is_looked_for() {
    let session = sample_session(vec![sample_message(MessageRole::User, "hello")]);
    let entries = vec![entry("myapp-deadbeef", 1)];
    let job =
        Qoder.write_session(&env(None, true), &session, NAME, Some(&entries)).unwrap();
    assert_eq!(uuid::Uuid::parse_str(&job.session_id).unwrap().get_version_num(), 4);
    let parts = Qoder::transcript_parts(&job.session_id).unwrap();
    assert_eq!(job.target.base, Base::ProjectsDir);
    assert_eq!(job.target.parts[0], "myapp-deadbeef");
    assert_eq!(job.target.parts[1..], parts[..]);
    assert_eq!(job.bytes, build_jsonl(&session));

    let job = Qoder::plan_write_session(
        "2E9D924B-1234-5678-9abc-def012345678",
        &env(None, true),
        &session,
        NAME,
        None,
    )
    .unwrap();
    assert_eq!(
        job.target,
        place(
            Base::ProjectsDir,
            &["myapp-46818d74", "conversation-history", "2e9d924b", "2e9d924b.jsonl"]
        )
    );
}

#[test]
fn sessions_that_cannot_be_written_are_errors() {
    let session = sample_session(Vec::new());
    assert_eq!(
        Qoder.write_session(&env(None, false), &session, NAME, None),
        Err(QoderWriteError::NoProjectsDir)
    );
    assert_eq!(
        Qoder.write_session(&env(None, true), &session, None, None),
        Err(QoderWriteError::NoProjectFolder)
    );
    let mut nowhere = sample_session(Vec::new());
    nowhere.workspace = None;
    assert_eq!(
        Qoder.write_session(&env(None, true), &nowhere, NAME, None),
        Err(QoderWriteError::NoProjectFolder)
    );
    assert_eq!(
        Qoder::plan_write_session("abc", &env(None, true), &session, NAME, None),
        Err(QoderWriteError::IdTooShort)
    );
}

#[test]
fn session_is_found_in_the_first_project_that_has_it() {
    let project = |is_dir, has_transcript| SearchedProject { is_dir, has_transcript };
    let probe = Some(ProjectsProbe::Entries(vec![
        project(true, false),
        project(false, true),
        project(true, true),
        project(true, true),
    ]));
    let id = "2e9d924b-1234-5678-9abc-def012345678";
    assert_eq!(Qoder.owns_session(&probe, id), Some(2));
    assert_eq!(Qoder.owns_session(&probe, "abc"), None);
    assert_eq!(Qoder.owns_session(&None, id), None);
    assert_eq!(Qoder.owns_session(&Some(ProjectsProbe::NotADir), id), None);
    assert_eq!(Qoder.owns_session(&Some(ProjectsProbe::Unreadable), id), None);
    assert_eq!(
        Qoder::transcript_parts(id),
        Some(vec![
            "conversation-history".to_string(),
            "2e9d924b".to_string(),
            "2e9d924b.jsonl".to_string(),
        ])
    );
    assert_eq!(Qoder::transcript_parts("abc"), None);
}

#[test]
fn sessions_are_listed_project_by_project() {
    let session = |is_dir, name: Option<&str>, has_transcript| SessionEntry {
        is_dir,
        name: name.map(String::from),
        has_transcript,
    };
    let project = |is_dir, history_is_dir, sessions| ProjectEntry {
        is_dir,
        history_is_dir,
        sessions,
    };
    let probe = Some(ProjectsProbe::Entries(vec![
        project(false, true, Some(vec![session(true, Some("a"), true)])),
        project(true, false, Some(vec![session(true, Some("b"), true)])),
        project(true, true, None),
        project(
            true,
            true,
            Some(vec![
                session(true, Some("c"), false),
                session(false, Some("d"), true),
                session(true, None, true),
                session(true, Some("e"), true),
            ]),
        ),
        project(true, true, Some(vec![session(true, Some("f"), true)])),
    ]));
    assert_eq!(
        Qoder.list_sessions(&probe),
        Some(vec![
            ListedSession { id: "e".to_string(), project: 3, entry: 3 },
            ListedSession { id: "f".to_string(), project: 4, entry: 0 },
        ])
    );
    assert_eq!(Qoder.list_sessions(&None), None);
    assert_eq!(Qoder.list_sessions(&Some(ProjectsProbe::NotADir)), Some(vec![]));
    assert_eq!(Qoder.list_sessions(&Some(ProjectsProbe::Unreadable)), None);
    assert_eq!(Qoder::transcript_file("e"), "e.jsonl");
}

#[test]
fn detection_needs_the_projects() {
    let seen = |shown: &str, there| Some(Sighting { shown: shown.to_string(), there });
    let found = Qoder.detect(&seen("/q/cache/projects", true), &seen("/q", true));
    assert!(found.installed);
    assert_eq!(found.evidence, vec!["/q/cache/projects exists", "/q exists"]);
    let found = Qoder.detect(&seen("/q/cache/projects", false), &seen("/q", true));
    assert!(!found.installed);
    assert_eq!(found.evidence, vec!["/q exists"]);
    let dir = || Some(place(Base::UserHome, &[".qoder", "cache", "projects"]));
    assert_eq!(Qoder.session_roots(dir(), true).len(), 1);
    assert_eq!(Qoder.session_roots(dir(), false), vec![]);
    assert_eq!(Qoder.session_roots(None, true), vec![]);
}

#[test]
fn qoder_goes_by_its_names() {
    assert_eq!(Qoder.name(), "Qoder");
    assert_eq!(Qoder.slug(), "qoder");
    assert_eq!(Qoder.cli_alias(), "qod");
    assert_eq!(Qoder.resume_command("abc"), "qoder --resume abc");
}

#[test]
fn what_was_read_back_is_written_and_read_back_the_same() {
    let session = sample_session(vec![
        sample_message(MessageRole::Tool, "ran"),
        sample_message(MessageRole::User, " "),
        sample_message(MessageRole::User, "thanks"),
    ]);
    let once = read_messages(&build_jsonl(&session));
    let bytes = build_jsonl(&sample_session(read_messages(&build_jsonl(&session))));
    let again = read_messages(&bytes);
    assert_eq!(once.len(), 2);
    assert_eq!(once, again);
    assert!(once.iter().all(|m| m.timestamp.is_none() && m.tool_calls.is_empty()));
}
