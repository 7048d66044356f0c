//! The Rachis payload and the kinds of Rachis.

use vstd::prelude::*;
use crate::text::{ascii_lowercase, ascii_uppercase, is_ascii_text, lemma_uppercase_then_lowercase, str_to_lowercase, str_eq, to_lowercase};

verus! {

/// Defines the types of Rachises that may exist.
///
/// Generic Rachis types (act, arc, scene, default) describe the story itself;
/// Entity Rachis types (character, event, location, item, note) define some
/// recognisable entity in the story.
#[derive(Debug, Clone, Copy, PartialEq, Eq, Structural)]
pub enum RachisType {
    /// An Act: the largest unit of the story, encapsulating multiple arcs.
    ACT,
    /// An Arc: a collection of Scenes, a character's journey through the story.
    ARC,
    /// A Scene: a specific event or moment during the story.
    SCENE,
    /// A default Rachis.
    DEFAULT,
    /// A Character: a specific person, character, or otherwise entity.
    CHARACTER,
    /// An Event: a specific happenstance in the story.
    EVENT,
    /// A Location: a specific place or area in the story.
    LOCATION,
    /// An Item: a specific object or thing in the story.
    ITEM,
    /// A Note: an author-level commentary or note on the story.
    NOTE,
}

impl Default for RachisType {
    fn default() -> (r: RachisType)
        ensures
            r == RachisType::DEFAULT,
    {
        RachisType::DEFAULT
    }
}

/// The name of each Rachis type.
pub open spec fn rachis_type_text(t: RachisType) -> Seq<char> {
    match t {
        RachisType::ACT => "act"@,
        RachisType::ARC => "arc"@,
        RachisType::SCENE => "scene"@,
        RachisType::DEFAULT => "default"@,
        RachisType::CHARACTER => "character"@,
        RachisType::EVENT => "event"@,
        RachisType::LOCATION => "location"@,
        RachisType::ITEM => "item"@,
        RachisType::NOTE => "note"@,
    }
}

/// The Rachis type whose name is `name`, if there is one.
pub open spec fn rachis_type_named(name: Seq<char>) -> Option<RachisType> {
    if name == "act"@ {
        Some(RachisType::ACT)
    } else if name == "arc"@ {
        Some(RachisType::ARC)
    } else if name == "scene"@ {
        Some(RachisType::SCENE)
    } else if name == "default"@ {
        Some(RachisType::DEFAULT)
    } else if name == "character"@ {
        Some(RachisType::CHARACTER)
    } else if name == "event"@ {
        Some(RachisType::EVENT)
    } else if name == "location"@ {
        Some(RachisType::LOCATION)
    } else if name == "item"@ {
        Some(RachisType::ITEM)
    } else if name == "note"@ {
        Some(RachisType::NOTE)
    } else {
        None
    }
}

impl RachisType {
    /// Returns the string representation of the type.
    pub fn as_str(&self) -> (r: &'static str)
        ensures
            r@ == rachis_type_text(*self),
    {
        match self {
            RachisType::ACT => "act",
            RachisType::ARC => "arc",
            RachisType::SCENE => "scene",
            RachisType::DEFAULT => "default",
            RachisType::CHARACTER => "character",
            RachisType::EVENT => "event",
            RachisType::LOCATION => "location",
            RachisType::ITEM => "item",
            RachisType::NOTE => "note",
        }
    }

    /// The name of this type, as a `String`.
    pub fn to_string(&self) -> (r: String)
        ensures
            r@ == rachis_type_text(*self),
    {
        self.as_str().to_owned()
    }

    /// Reads a type from its name, in any case; fails with
    /// "Invalid RachisType: " and the text otherwise.
    pub fn from_str(s: &str) -> (r: Result<RachisType, String>)
        ensures
            match rachis_type_named(str_to_lowercase(s@)) {
                Some(t) => r == Ok::<RachisType, String>(t),
                None => r matches Err(m) && m@ == "Invalid RachisType: "@ + s@,
            },
            is_ascii_text(s@) ==> str_to_lowercase(s@) == ascii_lowercase(s@),
    {
        let lowered: String = to_lowercase(s);
        let l: &str = lowered.as_str();
        if str_eq(l, "act") {
            Ok(RachisType::ACT)
        } else if str_eq(l, "arc") {
            Ok(RachisType::ARC)
        } else if str_eq(l, "scene") {
            Ok(RachisType::SCENE)
        } else if str_eq(l, "default") {
            Ok(RachisType::DEFAULT)
        } else if str_eq(l, "character") {
            Ok(RachisType::CHARACTER)
        } else if str_eq(l, "event") {
            Ok(RachisType::EVENT)
        } else if str_eq(l, "location") {
            Ok(RachisType::LOCATION)
        } else if str_eq(l, "item") {
            Ok(RachisType::ITEM)
        } else if str_eq(l, "note") {
            Ok(RachisType::NOTE)
        } else {
            let mut m: String = String::from_str("Invalid RachisType: ");
            m.append(s);
            Err(m)
        }
    }
}

/// The structure of a Rachis as the back end hands it to the front end: a
/// central point of information about one Rachis.
#[derive(Debug, Clone, PartialEq, Eq)]
pub struct Rachis {
    /// The unique identifier for the Rachis.
    id: u128,
    /// The ID of the Flight that this Rachis belongs to.
    flight_id: u128,
    /// The title of the Rachis.
    title: String,
    /// The type of the Rachis.
    rachis_type: RachisType,
    /// The path of the Rachis.
    path: String,
    /// The tags that are used in the Rachis.
    tags: Vec<String>,
    /// The word count of the Rachis.
    word_count: u32,
}

/// The mathematical value of a [`Rachis`].
pub struct RachisView {
    pub id: u128,
    pub flight_id: u128,
    pub title: Seq<char>,
    pub rachis_type: RachisType,
    pub path: Seq<char>,
    pub tags: Seq<Seq<char>>,
    pub word_count: u32,
}

impl View for Rachis {
    type V = RachisView;

    closed spec fn view(&self) -> RachisView {
        RachisView {
            id: self.id,
            flight_id: self.flight_id,
            title: self.title@,
            rachis_type: self.rachis_type,
            path: self.path@,
            tags: self.tags@.map_values(|t: String| t@),
            word_count: self.word_count,
        }
    }
}

impl Rachis {
    /// Creates a new Rachis from its parts.
    pub fn new(
        id: u128,
        flight_id: u128,
        title: String,
        rachis_type: RachisType,
        path: String,
        tags: Vec<String>,
        word_count: u32,
    ) -> (r: Rachis)
        ensures
            r@ == (RachisView {
                id,
                flight_id,
                title: title@,
                rachis_type,
                path: path@,
                tags: tags@.map_values(|t: String| t@),
                word_count,
            }),
    {
        Rachis { id, flight_id, title, rachis_type, path, tags, word_count }
    }

    /// Returns the unique identifier of the Rachis.
    pub fn id(&self) -> (r: &u128)
        ensures
            *r == self@.id,
    {
        &self.id
    }

    /// Returns the ID of the Flight that this Rachis belongs to.
    pub fn flight_id(&self) -> (r: &u128)
        ensures
            *r == self@.flight_id,
    {
        &self.flight_id
    }

    /// Returns the title of the Rachis.
    pub fn title(&self) -> (r: &str)
        ensures
            r@ == self@.title,
    {
        self.title.as_str()
    }

    /// Returns the type of the Rachis.
    pub fn rachis_type(&self) -> (r: &RachisType)
        ensures
            *r == self@.rachis_type,
    {
        &self.rachis_type
    }

    /// Returns the path of the Rachis.
    pub fn path(&self) -> (r: &String)
        ensures
            r@ == self@.path,
    {
        &self.path
    }

    /// Returns a reference to the tags of the Rachis.
    pub fn tags(&self) -> (r: &Vec<String>)
        ensures
            r@.map_values(|t: String| t@) == self@.tags,
    {
        &self.tags
    }

    /// Returns the word count of the Rachis.
    pub fn word_count(&self) -> (r: u32)
        ensures
            r == self@.word_count,
    {
        self.word_count
    }
}

/// Reading a type back from its name gives the type: every name is ASCII,
/// and its lowercase form names that type.
pub proof fn law_rachis_type_round_trip(t: RachisType)
    ensures
        is_ascii_text(rachis_type_text(t)),
        rachis_type_named(ascii_lowercase(rachis_type_text(t))) == Some(t),
{
    reveal_strlit("act");
    reveal_strlit("arc");
    reveal_strlit("scene");
    reveal_strlit("default");
    reveal_strlit("character");
    reveal_strlit("event");
    reveal_strlit("location");
    reveal_strlit("item");
    reveal_strlit("note");
    let n = rachis_type_text(t);
    assert(ascii_lowercase(n) =~= n);
    assert("act"@[1] != "arc"@[1]);
    assert("item"@[0] != "note"@[0]);
    assert("scene"@[0] != "event"@[0]);
}

/// A type is read back from its name in any ASCII case: every ASCII text
/// whose ASCII lowercase is the type's name, its uppercase among them, names
/// that type.
pub proof fn law_rachis_type_any_case(t: RachisType, s: Seq<char>)
    requires
        is_ascii_text(s),
        ascii_lowercase(s) == rachis_type_text(t),
    ensures
        rachis_type_named(ascii_lowercase(s)) == Some(t),
        is_ascii_text(ascii_uppercase(rachis_type_text(t))),
        rachis_type_named(ascii_lowercase(ascii_uppercase(rachis_type_text(t)))) == Some(t),
{
    law_rachis_type_round_trip(t);
    let n = rachis_type_text(t);
    assert(ascii_lowercase(n) =~= n) by {
        reveal_strlit("act");
        reveal_strlit("arc");
        reveal_strlit("scene");
        reveal_strlit("default");
        reveal_strlit("character");
        reveal_strlit("event");
        reveal_strlit("location");
        reveal_strlit("item");
        reveal_strlit("note");
    }
    lemma_uppercase_then_lowercase(n);
}

} // verus!
