//! The first domain model: a Flight and a Rachis that carry their own
//! timestamps and content, with the rules for renaming and editing them.

use vstd::prelude::*;
use crate::ids::{new_id, NIL_ID};
use crate::text::{ascii_lowercase, ascii_uppercase, is_ascii_text, lemma_uppercase_then_lowercase, str_eq, str_to_lowercase, to_lowercase, trim, trim_str, word_count, words};
use crate::time::{now, Timestamp};

verus! {

/// The current time, to the whole second.
fn now_to_the_second() -> (r: Timestamp)
    ensures
        r.nanos == 0,
        r.secs >= 0,
{
    now().whole_seconds()
}

/// A Flight: the top-level container of one writing project.
#[derive(Debug, Clone)]
pub struct Flight {
    /// Unique identifier for the Flight
    pub id: u128,
    /// A name given by the user to the Flight
    pub name: String,
    /// The time the Flight was created
    pub created_at: Timestamp,
    /// The time the Flight was last updated
    pub updated_at: Timestamp,
    /// Whether this Flight is favourited by the user
    pub is_favorite: bool,
}

impl Flight {
    /// A new Flight named `name`, with a fresh id, created and updated now (to
    /// the whole second), not a favourite.
    pub fn new(name: String) -> (r: Flight)
        ensures
            r.id != NIL_ID,
            r.name@ == name@,
            r.created_at == r.updated_at,
            r.created_at.nanos == 0,
            !r.is_favorite,
    {
        let t: Timestamp = now_to_the_second();
        Flight { id: new_id(), name, created_at: t, updated_at: t, is_favorite: false }
    }

    /// Renames the Flight to the trimmed `new_name` and stamps the update time
    /// (to the whole second); a blank name is refused and nothing changes.
    pub fn update_name(&mut self, new_name: String) -> (r: Result<(), String>)
        ensures
            trim(new_name@).len() == 0 ==> (r matches Err(m) && m@ == "Flight name must not be empty"@
                && final(self).name@ == old(self).name@ && final(self).updated_at == old(self).updated_at),
            trim(new_name@).len() > 0 ==> (r is Ok && final(self).name@ == trim(new_name@)
                && final(self).updated_at.nanos == 0),
            final(self).id == old(self).id,
            final(self).created_at == old(self).created_at,
            final(self).is_favorite == old(self).is_favorite,
    {
        let t: String = trim_str(new_name.as_str());
        if t.as_str().is_empty() {
            return Err(String::from_str("Flight name must not be empty"));
        }
        self.name = t;
        self.updated_at = now_to_the_second();
        Ok(())
    }
}

/// Defines the types of Rachises that may exist.
///
/// Generic Rachis types (act, arc, scene, default) describe the story itself;
/// Entity Rachis types (character, event, location, item, note) define some
/// recognisable entity in the story.
#[derive(Debug, Clone, Copy, PartialEq, Eq, Structural)]
pub enum RachisType {
    /// An Act: the largest unit of the story, encapsulating multiple arcs.
    ACT,
    /// An Arc: a collection of Scenes, a character's journey through the story.
    ARC,
    /// A Scene: a specific event or moment during the story.
    SCENE,
    /// A default Rachis.
    DEFAULT,
    /// A Character: a specific person, character, or otherwise entity.
    CHARACTER,
    /// An Event: a specific happenstance in the story.
    EVENT,
    /// A Location: a specific place or area in the story.
    LOCATION,
    /// An Item: a specific object or thing in the story.
    ITEM,
    /// A Note: an author-level commentary or note on the story.
    NOTE,
}

impl Default for RachisType {
    fn default() -> (r: RachisType)
        ensures
            r == RachisType::DEFAULT,
    {
        RachisType::DEFAULT
    }
}

/// The name of each Rachis type.
pub open spec fn rachis_type_text(t: RachisType) -> Seq<char> {
    match t {
        RachisType::ACT => "act"@,
        RachisType::ARC => "arc"@,
        RachisType::SCENE => "scene"@,
        RachisType::DEFAULT => "default"@,
        RachisType::CHARACTER => "character"@,
        RachisType::EVENT => "event"@,
        RachisType::LOCATION => "location"@,
        RachisType::ITEM => "item"@,
        RachisType::NOTE => "note"@,
    }
}

/// The Rachis type whose name is `name`, if there is one.
pub open spec fn rachis_type_named(name: Seq<char>) -> Option<RachisType> {
    if name == "act"@ {
        Some(RachisType::ACT)
    } else if name == "arc"@ {
        Some(RachisType::ARC)
    } else if name == "scene"@ {
        Some(RachisType::SCENE)
    } else if name == "default"@ {
        Some(RachisType::DEFAULT)
    } else if name == "character"@ {
        Some(RachisType::CHARACTER)
    } else if name == "event"@ {
        Some(RachisType::EVENT)
    } else if name == "location"@ {
        Some(RachisType::LOCATION)
    } else if name == "item"@ {
        Some(RachisType::ITEM)
    } else if name == "note"@ {
        Some(RachisType::NOTE)
    } else {
        None
    }
}

impl RachisType {
    /// Returns the string representation of the type.
    pub fn as_str(&self) -> (r: &'static str)
        ensures
            r@ == rachis_type_text(*self),
    {
        match self {
            RachisType::ACT => "act",
            RachisType::ARC => "arc",
            RachisType::SCENE => "scene",
            RachisType::DEFAULT => "default",
            RachisType::CHARACTER => "character",
            RachisType::EVENT => "event",
            RachisType::LOCATION => "location",
            RachisType::ITEM => "item",
            RachisType::NOTE => "note",
        }
    }

    /// The name of this type, as a `String`.
    pub fn to_string(&self) -> (r: String)
        ensures
            r@ == rachis_type_text(*self),
    {
        self.as_str().to_owned()
    }

    /// Reads a type from its name, in any case; fails with
    /// "Invalid RachisType: " and the text otherwise.
    pub fn from_str(s: &str) -> (r: Result<RachisType, String>)
        ensures
            match rachis_type_named(str_to_lowercase(s@)) {
                Some(t) => r == Ok::<RachisType, String>(t),
                None => r matches Err(m) && m@ == "Invalid RachisType: "@ + s@,
            },
            is_ascii_text(s@) ==> str_to_lowercase(s@) == ascii_lowercase(s@),
    {
        let lowered: String = to_lowercase(s);
        let l: &str = lowered.as_str();
        if str_eq(l, "act") {
            Ok(RachisType::ACT)
        } else if str_eq(l, "arc") {
            Ok(RachisType::ARC)
        } else if str_eq(l, "scene") {
            Ok(RachisType::SCENE)
        } else if str_eq(l, "default") {
            Ok(RachisType::DEFAULT)
        } else if str_eq(l, "character") {
            Ok(RachisType::CHARACTER)
        } else if str_eq(l, "event") {
            Ok(RachisType::EVENT)
        } else if str_eq(l, "location") {
            Ok(RachisType::LOCATION)
        } else if str_eq(l, "item") {
            Ok(RachisType::ITEM)
        } else if str_eq(l, "note") {
            Ok(RachisType::NOTE)
        } else {
            let mut m: String = String::from_str("Invalid RachisType: ");
            m.append(s);
            Err(m)
        }
    }
}

/// A Rachis: one text of a Flight, with its content and timestamps.
#[derive(Debug, Clone)]
pub struct Rachis {
    pub id: u128,
    pub flight_id: u128,
    pub title: String,
    pub content: String,
    pub rachis_type: RachisType,
    pub path: String,
    pub created_at: Timestamp,
    pub updated_at: Timestamp,
    pub word_count: usize,
}

impl Rachis {
    /// A new Rachis of the Flight `flight_id`, with a fresh id, created and
    /// updated now (to the whole second), and a word count of zero.
    pub fn new(flight_id: u128, title: String, rachis_type: RachisType, path: String, content: String) -> (r: Rachis)
        ensures
            r.id != NIL_ID,
            r.flight_id == flight_id,
            r.title@ == title@,
            r.rachis_type == rachis_type,
            r.path@ == path@,
            r.content@ == content@,
            r.created_at == r.updated_at,
            r.created_at.nanos == 0,
            r.word_count == 0,
    {
        let t: Timestamp = now_to_the_second();
        Rachis {
            id: new_id(),
            flight_id,
            title,
            content,
            rachis_type,
            path,
            created_at: t,
            updated_at: t,
            word_count: 0,
        }
    }

    /// Renames the Rachis to the trimmed `title` and stamps the update time
    /// (to the whole second); a blank title is refused and nothing changes.
    pub fn update_name(&mut self, title: String) -> (r: Result<(), String>)
        ensures
            trim(title@).len() == 0 ==> (r matches Err(m) && m@ == "Rachis name must not be empty!"@
                && final(self).title@ == old(self).title@ && final(self).updated_at == old(self).updated_at),
            trim(title@).len() > 0 ==> (r is Ok && final(self).title@ == trim(title@)
                && final(self).updated_at.nanos == 0),
            final(self).id == old(self).id,
            final(self).content@ == old(self).content@,
            final(self).word_count == old(self).word_count,
            final(self).created_at == old(self).created_at,
    {
        let t: String = trim_str(title.as_str());
        if t.as_str().is_empty() {
            return Err(String::from_str("Rachis name must not be empty!"));
        }
        self.title = t;
        self.updated_at = now_to_the_second();
        Ok(())
    }

    /// Replaces the content and recounts its words; empty content is refused
    /// and nothing changes.
    pub fn update_content(&mut self, new_content: String) -> (r: Result<(), String>)
        ensures
            new_content@.len() == 0 ==> (r matches Err(m) && m@ == "Rachis content must not be empty!"@
                && *final(self) == *old(self)),
            new_content@.len() > 0 ==> (r is Ok && final(self).content@ == new_content@
                && final(self).word_count == words(new_content@).len()
                && final(self).title@ == old(self).title@
                && final(self).id == old(self).id
                && final(self).flight_id == old(self).flight_id
                && final(self).rachis_type == old(self).rachis_type
                && final(self).path@ == old(self).path@
                && final(self).created_at == old(self).created_at
                && final(self).updated_at == old(self).updated_at),
    {
        if new_content.as_str().is_empty() {
            return Err(String::from_str("Rachis content must not be empty!"));
        }
        self.content = new_content;
        self.word_count = self.word_count();
        Ok(())
    }

    /// The number of whitespace-separated words in the content.
    pub fn word_count(&mut self) -> (r: usize)
        ensures
            r == words(old(self).content@).len(),
            *final(self) == *old(self),
    {
        word_count(self.content.as_str())
    }
}

/// Reading a type back from its name gives the type: every name is ASCII,
/// and its lowercase form names that type.
pub proof fn law_rachis_type_round_trip(t: RachisType)
    ensures
        is_ascii_text(rachis_type_text(t)),
        rachis_type_named(ascii_lowercase(rachis_type_text(t))) == Some(t),
{
    reveal_strlit("act");
    reveal_strlit("arc");
    reveal_strlit("scene");
    reveal_strlit("default");
    reveal_strlit("character");
    reveal_strlit("event");
    reveal_strlit("location");
    reveal_strlit("item");
    reveal_strlit("note");
    let n = rachis_type_text(t);
    assert(ascii_lowercase(n) =~= n);
    assert("act"@[1] != "arc"@[1]);
    assert("item"@[0] != "note"@[0]);
    assert("scene"@[0] != "event"@[0]);
}

/// A type is read back from its name in any ASCII case: every ASCII text
/// whose ASCII lowercase is the type's name, its uppercase among them, names
/// that type.
pub proof fn law_rachis_type_any_case(t: RachisType, s: Seq<char>)
    requires
        is_ascii_text(s),
        ascii_lowercase(s) == rachis_type_text(t),
    ensures
        rachis_type_named(ascii_lowercase(s)) == Some(t),
        is_ascii_text(ascii_uppercase(rachis_type_text(t))),
        rachis_type_named(ascii_lowercase(ascii_uppercase(rachis_type_text(t)))) == Some(t),
{
    law_rachis_type_round_trip(t);
    let n = rachis_type_text(t);
    assert(ascii_lowercase(n) =~= n) by {
        reveal_strlit("act");
        reveal_strlit("arc");
        reveal_strlit("scene");
        reveal_strlit("default");
        reveal_strlit("character");
        reveal_strlit("event");
        reveal_strlit("location");
        reveal_strlit("item");
        reveal_strlit("note");
    }
    lemma_uppercase_then_lowercase(n);
}

} // verus!
