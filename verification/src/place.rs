//! Places: where files are looked for and written, as a base and the names that
//! are joined to it. The base of a place is a directory or file that only the
//! running machine knows.

use crate::model::texts;
use vstd::prelude::*;

verus! {

/// What a place begins with.
#[derive(Debug, PartialEq)]
pub enum Base {
    /// The directory with this path.
    Named(String),
    /// The user's cache directory.
    CacheDir,
    /// The user's home directory.
    UserHome,
    /// The Hermes database.
    StateDb,
    /// The directory of the Qoder projects.
    ProjectsDir,
}

/// A place: a base, and the names joined to it one after the other.
#[derive(Debug, PartialEq)]
pub struct Place {
    pub base: Base,
    pub parts: Vec<String>,
}

/// What a [`Base`] is.
pub enum BaseView {
    Named(Seq<char>),
    CacheDir,
    UserHome,
    StateDb,
    ProjectsDir,
}

/// What a [`Place`] holds.
#[verifier::ext_equal]
pub struct PlaceView {
    pub base: BaseView,
    pub parts: Seq<Seq<char>>,
}

impl View for Base {
    type V = BaseView;

    open spec fn view(&self) -> BaseView {
        match *self {
            Base::Named(path) => BaseView::Named(path@),
            Base::CacheDir => BaseView::CacheDir,
            Base::UserHome => BaseView::UserHome,
            Base::StateDb => BaseView::StateDb,
            Base::ProjectsDir => BaseView::ProjectsDir,
        }
    }
}

impl View for Place {
    type V = PlaceView;

    open spec fn view(&self) -> PlaceView {
        PlaceView { base: self.base@, parts: texts(self.parts@) }
    }
}

impl PlaceView {
    /// The place that has `name` joined to this one.
    pub open spec fn join(self, name: Seq<char>) -> PlaceView {
        PlaceView { base: self.base, parts: self.parts.push(name) }
    }
}

/// The place at `base` itself.
pub open spec fn at_base(base: BaseView) -> PlaceView {
    PlaceView { base, parts: Seq::empty() }
}

/// The place that an optional place is.
pub open spec fn opt_place(place: Option<Place>) -> Option<PlaceView> {
    match place {
        Some(p) => Some(p@),
        None => None,
    }
}

/// What the places are.
pub open spec fn place_views(places: Seq<Place>) -> Seq<PlaceView> {
    Seq::new(places.len(), |i: int| places[i]@)
}

/// At most one place, as a list.
pub open spec fn place_list(place: Option<PlaceView>) -> Seq<PlaceView> {
    match place {
        Some(p) => seq![p],
        None => Seq::empty(),
    }
}

impl Place {
    /// The place at `base` itself.
    pub fn at(base: Base) -> (place: Place)
        ensures
            place@ == at_base(base@),
    {
        let place = Place { base, parts: Vec::new() };
        assert(place@ =~= at_base(base@));
        place
    }

    /// The place that has `name` joined to this one.
    pub fn join(self, name: &str) -> (place: Place)
        ensures
            place@ == self@.join(name@),
    {
        let mut place = self;
        place.parts.push(name.to_owned());
        assert(place@ =~= self@.join(name@));
        place
    }

    /// This place alone, as a list.
    pub fn alone(self) -> (places: Vec<Place>)
        ensures
            place_views(places@) == seq![self@],
    {
        let mut places: Vec<Place> = Vec::new();
        places.push(self);
        assert(place_views(places@) =~= seq![self@]);
        places
    }
}

/// A path that was looked at: how it is shown, and whether what was looked for
/// is there.
#[derive(Debug, PartialEq)]
pub struct Sighting {
    pub shown: String,
    pub there: bool,
}

/// What was found out, as evidence: the path that is there.
pub open spec fn exists_note(shown: Seq<char>) -> Seq<char> {
    shown + " exists"@
}

/// The evidence that a path gives: one note where it is there.
pub open spec fn notes_of(sighting: Option<Sighting>) -> Seq<Seq<char>> {
    match sighting {
        Some(s) => if s.there {
            seq![exists_note(s.shown@)]
        } else {
            Seq::empty()
        },
        None => Seq::empty(),
    }
}

/// Adds to `notes` the evidence that a path gives, and says whether it gave any.
pub fn note_sighting(notes: &mut Vec<String>, sighting: &Option<Sighting>) -> (there: bool)
    ensures
        texts(final(notes)@) == texts(old(notes)@) + notes_of(*sighting),
        there == (sighting matches Some(s) && s.there),
{
    match sighting {
        Some(s) => {
            if s.there {
                let note = crate::text::joined(s.shown.as_str(), " exists");
                notes.push(note);
                assert(texts(notes@) =~= texts(old(notes)@) + notes_of(*sighting));
                true
            } else {
                assert(texts(notes@) =~= texts(old(notes)@) + notes_of(*sighting));
                false
            }
        },
        None => {
            assert(texts(notes@) =~= texts(old(notes)@) + notes_of(*sighting));
            false
        },
    }
}

// ---------------------------------------------------------------------------
// Laws
// ---------------------------------------------------------------------------

/// A place holds its base and all of its names, in order; joining a name puts it
/// behind them.
pub proof fn law_place_holds_its_names(place: Place, name: Seq<char>)
    ensures
        place.base matches Base::Named(path) ==> place@.base == BaseView::Named(path@),
        place.base is CacheDir <==> place@.base is CacheDir,
        place.base is UserHome <==> place@.base is UserHome,
        place.base is StateDb <==> place@.base is StateDb,
        place.base is ProjectsDir <==> place@.base is ProjectsDir,
        place@.parts.len() == place.parts@.len(),
        forall|i: int|
            0 <= i < place.parts@.len() ==> place@.parts[i] == (#[trigger] place.parts@[i])@,
        place@.join(name).base == place@.base,
        place@.join(name).parts == place@.parts.push(name),
        at_base(place@.base).base == place@.base,
        at_base(place@.base).parts.len() == 0,
{
}

/// A path gives evidence exactly when it is there: one note, that it exists.
pub proof fn law_evidence_is_what_is_there(sighting: Sighting)
    ensures
        sighting.there ==> notes_of(Some(sighting)) == seq![sighting.shown@ + " exists"@],
        !sighting.there ==> notes_of(Some(sighting)).len() == 0,
        notes_of(None).len() == 0,
{
}

/// A list of places is of these places, in order.
pub proof fn law_places_are_listed_in_order(places: Seq<Place>, place: PlaceView)
    ensures
        place_views(places).len() == places.len(),
        forall|i: int| 0 <= i < places.len() ==> place_views(places)[i] == (#[trigger] places[i])@,
        places.len() > 0 ==> opt_place(Some(places[0])) == Some(places[0]@),
        opt_place(None) is None,
        place_list(Some(place)) == seq![place],
        place_list(None).len() == 0,
{
}

} // verus!
