//! Hermes: sessions in an SQLite database, `state.db`.
//!
//! All sessions of a profile stand in one database: `<home>/state.db` for the
//! default profile, `<home>/profiles/<name>/state.db` for a named one. One
//! session of a database goes by a virtual path, `<state.db>/<session id>`.
//!
//! This module decides where the database is and which session of it is meant;
//! [`write`] says what is stored of a session, [`read`] what session the stored
//! rows are, [`content`] how the columns of a message are encoded, and [`tables`]
//! what writing does to the sessions that are there. Opening
//! the database and running the statements is left to the caller, who hands in
//! what was found.

use crate::model::{kept, opt_str, opt_text, texts, DetectionResult};
use crate::place::{
    at_base, note_sighting, notes_of, opt_place, place_list, place_views, Base, BaseView, Place,
    PlaceView, Sighting,
};
use crate::text::{joined, trim, trimmed};
use vstd::prelude::*;

pub mod content;
pub mod laws;
pub mod read;
pub mod statements;
pub mod tables;
pub mod write;

verus! {

/// The Hermes provider.
pub struct Hermes;

// ---------------------------------------------------------------------------
// Where the database is
// ---------------------------------------------------------------------------

/// What the environment says of where Hermes keeps its data.
pub struct HermesEnv {
    /// The environment variable `HERMES_HOME`.
    pub hermes_home: Option<String>,
    /// Whether the user has a cache directory.
    pub has_cache_dir: bool,
    /// The environment variable `LOCALAPPDATA`.
    pub local_app_data: Option<String>,
    /// Whether the user has a home directory.
    pub has_user_home: bool,
}

/// The directory of Hermes: the one that `HERMES_HOME` names, else `hermes` in
/// the cache directory, else `hermes` in the directory that `LOCALAPPDATA`
/// names, else `.hermes` in the home directory.
pub open spec fn hermes_home(env: HermesEnv) -> Option<PlaceView> {
    if let Some(home) = env.hermes_home {
        Some(at_base(BaseView::Named(home@)))
    } else if env.has_cache_dir {
        Some(at_base(BaseView::CacheDir).join("hermes"@))
    } else if let Some(local) = env.local_app_data {
        Some(at_base(BaseView::Named(local@)).join("hermes"@))
    } else if env.has_user_home {
        Some(at_base(BaseView::UserHome).join(".hermes"@))
    } else {
        None
    }
}

/// The database in the directory `home`: that of the active profile, whose name
/// is what the file `active_profile` holds, trimmed, or the default one where
/// there is no such file or no name in it.
pub open spec fn database_in(home: PlaceView, active_profile: Option<Seq<char>>) -> PlaceView {
    match active_profile {
        Some(text) => if trimmed(text).len() > 0 {
            home.join("profiles"@).join(trimmed(text)).join("state.db"@)
        } else {
            home.join("state.db"@)
        },
        None => home.join("state.db"@),
    }
}

/// The virtual path of a session.
pub open spec fn virtual_path(session_id: Seq<char>) -> PlaceView {
    at_base(BaseView::StateDb).join(session_id)
}

// ---------------------------------------------------------------------------
// What was found of a path and of a database
// ---------------------------------------------------------------------------

/// What was found of a path from which a session is to be read.
#[derive(Debug, PartialEq)]
pub struct PathProbe {
    /// Whether the path is a file.
    pub is_file: bool,
    /// Whether the path's parent is a file, if it has a parent.
    pub parent_is_file: Option<bool>,
    /// The last name of the path, if it is text.
    pub file_name: Option<String>,
}

/// The database that a path means: the path itself, or its parent.
#[derive(Debug, PartialEq, Eq, Structural, Clone, Copy)]
pub enum DbPath {
    Given,
    Parent,
}

/// The database and the session that a path means: a file is the database, with
/// no session named; a path below a file is a session of that database, named by
/// its last name; any other path is taken for a database.
pub open spec fn resolved(
    is_file: bool,
    parent_is_file: Option<bool>,
    file_name: Option<Seq<char>>,
) -> (DbPath, Option<Seq<char>>) {
    if is_file {
        (DbPath::Given, None)
    } else if parent_is_file == Some(true) {
        (DbPath::Parent, file_name)
    } else {
        (DbPath::Given, None)
    }
}

/// The virtual path of a session means that session, and the path of the
/// database alone means none in particular: below the database, which is a file,
/// there is no file, and the last name of the virtual path is the session's.
pub proof fn law_virtual_path_means_its_session(session_id: Seq<char>)
    ensures
        virtual_path(session_id).base == BaseView::StateDb,
        resolved(false, Some(true), Some(virtual_path(session_id).parts.last())) == (
            DbPath::Parent,
            Some(session_id),
        ),
        forall|parent: Option<bool>, name: Option<Seq<char>>|
            #[trigger] resolved(true, parent, name) == (DbPath::Given, None::<Seq<char>>),
{
}

/// How far it was possible to question a database, and the answer.
pub enum DbProbe<T> {
    /// There is no such file.
    NotAFile,
    /// It could not be opened.
    Unopened,
    /// It has no table of sessions.
    NoTable,
    /// What it answered.
    Answer(T),
}

/// What a database answered when asked for its sessions.
pub enum Listing {
    /// The question was not understood.
    Unprepared,
    /// The question could not be put.
    Unqueried,
    /// The identifiers, the latest session first; those that could not be read
    /// are not there.
    Rows(Vec<Option<String>>),
}

/// The identifiers that could be read.
pub open spec fn readable_ids(rows: Seq<Option<String>>) -> Seq<Seq<char>> {
    kept(Seq::new(rows.len(), |i: int| opt_text(rows[i])))
}

/// Identifiers with the virtual paths of their sessions.
pub open spec fn with_paths(ids: Seq<Seq<char>>) -> Seq<(Seq<char>, PlaceView)> {
    Seq::new(ids.len(), |i: int| (ids[i], virtual_path(ids[i])))
}

/// What the entries of a list of sessions hold.
pub open spec fn entry_views(entries: Seq<(String, Place)>) -> Seq<(Seq<char>, PlaceView)> {
    Seq::new(entries.len(), |i: int| (entries[i].0@, entries[i].1@))
}

/// The sessions that a database lists: none where it cannot be questioned, and
/// no list at all where there is no knowing where it is or the question could
/// not be put.
pub open spec fn listed(probe: Option<DbProbe<Listing>>) -> Option<Seq<(Seq<char>, PlaceView)>> {
    match probe {
        None => None,
        Some(DbProbe::Answer(Listing::Rows(rows))) => Some(with_paths(readable_ids(rows@))),
        Some(DbProbe::Answer(Listing::Unqueried)) => None,
        Some(_) => Some(Seq::empty()),
    }
}

impl Hermes {
    /// The name of the agent.
    pub fn name(&self) -> (name: &'static str)
        ensures
            name@ == "Hermes"@,
    {
        "Hermes"
    }

    /// The name under which sessions of the agent go.
    pub fn slug(&self) -> (slug: &'static str)
        ensures
            slug@ == "hermes"@,
    {
        "hermes"
    }

    /// The short name of the agent on the command line.
    pub fn cli_alias(&self) -> (alias: &'static str)
        ensures
            alias@ == "hme"@,
    {
        "hme"
    }

    /// The command that resumes a session.
    pub fn resume_command(&self, session_id: &str) -> (command: String)
        ensures
            command@ == "hermes --resume "@ + session_id@,
    {
        joined("hermes --resume ", session_id)
    }

    /// The directory of Hermes.
    pub fn home_dir(env: &HermesEnv) -> (home: Option<Place>)
        ensures
            opt_place(home) == hermes_home(*env),
    {
        if let Some(home) = &env.hermes_home {
            return Some(Place::at(Base::Named(home.clone())));
        }
        if env.has_cache_dir {
            return Some(Place::at(Base::CacheDir).join("hermes"));
        }
        if let Some(local) = &env.local_app_data {
            return Some(Place::at(Base::Named(local.clone())).join("hermes"));
        }
        if env.has_user_home {
            return Some(Place::at(Base::UserHome).join(".hermes"));
        }
        None
    }

    /// The file that names the active profile.
    pub fn active_profile_file(env: &HermesEnv) -> (file: Option<Place>)
        ensures
            opt_place(file) == (match hermes_home(*env) {
                Some(home) => Some(home.join("active_profile"@)),
                None => None,
            }),
    {
        match Self::home_dir(env) {
            Some(home) => Some(home.join("active_profile")),
            None => None,
        }
    }

    /// The database of the active profile. `active_profile` is what the file that
    /// names the profile holds, if there is such a file and it can be read.
    pub fn state_db(env: &HermesEnv, active_profile: Option<&str>) -> (db: Option<Place>)
        ensures
            opt_place(db) == (match hermes_home(*env) {
                Some(home) => Some(database_in(home, opt_str(active_profile))),
                None => None,
            }),
    {
        match Self::home_dir(env) {
            Some(home) => {
                if let Some(text) = active_profile {
                    let name = trim(text);
                    if !name.as_str().is_empty() {
                        return Some(home.join("profiles").join(name.as_str()).join("state.db"));
                    }
                }
                Some(home.join("state.db"))
            },
            None => None,
        }
    }

    /// What speaks for Hermes on this machine: its binary in the path, the
    /// database and the home directory. The binary or the database is enough to
    /// take it for installed.
    pub fn detect(
        &self,
        binary_found: bool,
        db: &Option<Sighting>,
        home: &Option<Sighting>,
    ) -> (found: DetectionResult)
        ensures
            texts(found.evidence@) == (if binary_found {
                seq!["hermes binary found in PATH"@]
            } else {
                Seq::empty()
            }) + notes_of(*db) + notes_of(*home),
            found.installed == (binary_found || notes_of(*db).len() > 0),
            found.version is None,
    {
        let mut evidence: Vec<String> = Vec::new();
        let mut installed: bool = false;
        if binary_found {
            evidence.push("hermes binary found in PATH".to_owned());
            installed = true;
        }
        assert(texts(evidence@) =~= (if binary_found {
            seq!["hermes binary found in PATH"@]
        } else {
            Seq::empty()
        }));
        if note_sighting(&mut evidence, db) {
            installed = true;
        }
        note_sighting(&mut evidence, home);
        DetectionResult { installed, version: None, evidence }
    }

    /// Where sessions are kept: the database, if it is there.
    pub fn session_roots(&self, db: Option<Place>, is_file: bool) -> (roots: Vec<Place>)
        ensures
            place_views(roots@) == (if is_file {
                place_list(opt_place(db))
            } else {
                Seq::empty()
            }),
    {
        match db {
            Some(place) if is_file => place.alone(),
            _ => {
                let none: Vec<Place> = Vec::new();
                assert(place_views(none@) =~= Seq::empty());
                none
            },
        }
    }

    /// The database and the session that a path means.
    pub fn resolve_db_and_session(path: &PathProbe) -> (found: (DbPath, Option<String>))
        ensures
            (found.0, opt_text(found.1)) == resolved(
                path.is_file,
                path.parent_is_file,
                opt_text(path.file_name),
            ),
    {
        if path.is_file {
            return (DbPath::Given, None);
        }
        if let Some(parent_is_file) = path.parent_is_file {
            if parent_is_file {
                return (DbPath::Parent, crate::model::copy_text(&path.file_name));
            }
        }
        (DbPath::Given, None)
    }

    /// The virtual path of the session `session_id`, if the database has it. The
    /// answer of the database is whether it has the session, if it gave one.
    pub fn owns_session_in_db(probe: &DbProbe<Option<bool>>, session_id: &str) -> (path: Option<
        Place,
    >)
        ensures
            opt_place(path) == (if *probe == DbProbe::Answer(Some(true)) {
                Some(virtual_path(session_id@))
            } else {
                None
            }),
    {
        match probe {
            DbProbe::Answer(Some(true)) => Some(Place::at(Base::StateDb).join(session_id)),
            _ => None,
        }
    }

    /// The virtual path of the session `session_id`, if it is known where the
    /// database is and the database has the session.
    pub fn owns_session(&self, probe: &Option<DbProbe<Option<bool>>>, session_id: &str) -> (path:
        Option<Place>)
        ensures
            opt_place(path) == (if *probe == Some(DbProbe::Answer(Some(true))) {
                Some(virtual_path(session_id@))
            } else {
                None
            }),
    {
        match probe {
            Some(probe) => Self::owns_session_in_db(probe, session_id),
            None => None,
        }
    }

    /// The sessions that the database lists, each with its virtual path.
    pub fn list_sessions(&self, probe: Option<DbProbe<Listing>>) -> (sessions: Option<
        Vec<(String, Place)>,
    >)
        ensures
            (match sessions {
                Some(entries) => Some(entry_views(entries@)),
                None => None,
            }) == listed(probe),
    {
        let mut entries: Vec<(String, Place)> = Vec::new();
        assert(entry_views(entries@) =~= Seq::empty());
        match probe {
            None => None,
            Some(DbProbe::Answer(Listing::Unqueried)) => None,
            Some(DbProbe::Answer(Listing::Rows(rows))) => {
                let ghost found = Seq::new(rows@.len(), |i: int| opt_text(rows@[i]));
                let mut at: usize = 0;
                assert(entry_views(entries@) =~= with_paths(kept(found.take(0))));
                while at < rows.len()
                    invariant
                        at <= rows@.len(),
                        found == Seq::new(rows@.len(), |i: int| opt_text(rows@[i])),
                        entry_views(entries@) == with_paths(kept(found.take(at as int))),
                    decreases rows@.len() - at,
                {
                    assert(found.take(at + 1).drop_last() =~= found.take(at as int));
                    assert(found.take(at + 1).last() == opt_text(rows@[at as int]));
                    let ghost ids = kept(found.take(at as int));
                    let ghost before = entries@;
                    if let Some(id) = &rows[at] {
                        entries.push((id.clone(), Place::at(Base::StateDb).join(id.as_str())));
                        assert(entry_views(entries@) =~= entry_views(before).push(
                            (id@, virtual_path(id@)),
                        ));
                        assert(with_paths(ids.push(id@)) =~= with_paths(ids).push(
                            (id@, virtual_path(id@)),
                        ));
                    }
                    at += 1;
                }
                assert(found.take(at as int) =~= found);
                Some(entries)
            },
            Some(_) => Some(entries),
        }
    }
}

} // verus!
