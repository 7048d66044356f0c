//! The Flight registry: the in-memory list of every known Flight, the
//! directories it scans for them, and the rules that keep it consistent.
//! Reading and writing it to disk, and walking the scan paths, stay with the
//! caller; the decisions taken on what was read are here.

pub mod laws;

use vstd::prelude::*;
use crate::ids::{id_to_string, new_id, parse_id, uuid_parse, uuid_text, NIL_ID};
use crate::text::{
    contains_sub, debug_text, decimal, push_decimal, str_contains, str_debug, str_eq, str_to_lowercase, to_lowercase,
    trim, trim_str,
};
use crate::io::paths::{paths_equal, same_path};
use crate::time::{now, ts_le, Timestamp};

verus! {

/// The schema version that this library reads and writes.
pub const CURRENT_VERSION: usize = 1;

/// A single entry in the Flight registry.
#[derive(Debug)]
pub struct RegistryEntry {
    /// Unique identifier for this Flight
    pub id: u128,
    /// Human-readable name for the Flight
    pub name: String,
    /// Path to the enveloping directory
    pub path: String,
    /// Whether this Flight is marked as a favourite
    pub is_favorite: bool,
    /// When this Flight was last opened by the user
    pub last_opened_at: Timestamp,
    /// When this Flight was first created
    pub created_at: Timestamp,
    /// Cached total word count across all Rachises in this Flight
    pub word_count: u32,
}

/// The mathematical value of a [`RegistryEntry`].
pub struct EntryView {
    pub id: u128,
    pub name: Seq<char>,
    pub path: Seq<char>,
    pub is_favorite: bool,
    pub last_opened_at: Timestamp,
    pub created_at: Timestamp,
    pub word_count: u32,
}

impl View for RegistryEntry {
    type V = EntryView;

    open spec fn view(&self) -> EntryView {
        EntryView {
            id: self.id,
            name: self.name@,
            path: self.path@,
            is_favorite: self.is_favorite,
            last_opened_at: self.last_opened_at,
            created_at: self.created_at,
            word_count: self.word_count,
        }
    }
}

impl Clone for RegistryEntry {
    fn clone(&self) -> (r: Self)
        ensures
            r@ == self@,
    {
        RegistryEntry {
            id: self.id,
            name: self.name.clone(),
            path: self.path.clone(),
            is_favorite: self.is_favorite,
            last_opened_at: self.last_opened_at,
            created_at: self.created_at,
            word_count: self.word_count,
        }
    }
}

impl Default for RegistryEntry {
    /// An entry with a fresh id, no name or path, not a favourite, no words,
    /// created and last opened now.
    fn default() -> (r: RegistryEntry)
        ensures
            r.id != NIL_ID,
            r.name@.len() == 0,
            r.path@.len() == 0,
            !r.is_favorite,
            r.last_opened_at == r.created_at,
            r.word_count == 0,
    {
        let t: Timestamp = now();
        RegistryEntry {
            id: new_id(),
            name: String::new(),
            path: String::new(),
            is_favorite: false,
            last_opened_at: t,
            created_at: t,
            word_count: 0,
        }
    }
}

/// The values of a list of entries.
pub open spec fn entries_view(s: Seq<RegistryEntry>) -> Seq<EntryView> {
    s.map_values(|e: RegistryEntry| e@)
}

/// Partial update for a `RegistryEntry`. `None` fields are left unchanged.
#[derive(Debug)]
pub struct RegistryEntryPatch {
    /// New display name (and thus new `.flight` filename).
    pub name: Option<String>,
    /// New path to the enveloping directory.
    pub path: Option<String>,
    /// Set the favourite status explicitly (not toggled).
    pub is_favorite: Option<bool>,
    /// Set `last_opened_at` to right now.
    pub bump_last_opened: bool,
    /// New cached word count.
    pub word_count: Option<u32>,
}

/// The mathematical value of a [`RegistryEntryPatch`].
pub struct PatchView {
    pub name: Option<Seq<char>>,
    pub path: Option<Seq<char>>,
    pub is_favorite: Option<bool>,
    pub bump_last_opened: bool,
    pub word_count: Option<u32>,
}

/// The text of an optional string.
pub open spec fn opt_text(o: Option<String>) -> Option<Seq<char>> {
    match o {
        Some(s) => Some(s@),
        None => None,
    }
}

impl View for RegistryEntryPatch {
    type V = PatchView;

    open spec fn view(&self) -> PatchView {
        PatchView {
            name: opt_text(self.name),
            path: opt_text(self.path),
            is_favorite: self.is_favorite,
            bump_last_opened: self.bump_last_opened,
            word_count: self.word_count,
        }
    }
}

impl Default for RegistryEntryPatch {
    fn default() -> (r: RegistryEntryPatch)
        ensures
            r@ == (PatchView {
                name: None,
                path: None,
                is_favorite: None,
                bump_last_opened: false,
                word_count: None,
            }),
    {
        RegistryEntryPatch { name: None, path: None, is_favorite: None, bump_last_opened: false, word_count: None }
    }
}

/// A text field after a patch: the trimmed new text if one is given and it is
/// not blank, the old text otherwise.
pub open spec fn patched_text(old: Seq<char>, new: Option<Seq<char>>) -> Seq<char> {
    match new {
        Some(n) => if trim(n).len() > 0 {
            trim(n)
        } else {
            old
        },
        None => old,
    }
}

/// `e` after `p` is applied at the time `t`.
pub open spec fn patched(e: EntryView, p: PatchView, t: Timestamp) -> EntryView {
    EntryView {
        id: e.id,
        name: patched_text(e.name, p.name),
        path: patched_text(e.path, p.path),
        is_favorite: match p.is_favorite {
            Some(b) => b,
            None => e.is_favorite,
        },
        last_opened_at: if p.bump_last_opened {
            t
        } else {
            e.last_opened_at
        },
        created_at: e.created_at,
        word_count: match p.word_count {
            Some(w) => w,
            None => e.word_count,
        },
    }
}

impl RegistryEntry {
    /// Applies `patch` to this entry; `now` is the time that a bump of the
    /// last-opened time sets.
    pub fn apply_patch(&mut self, patch: RegistryEntryPatch, now: Timestamp)
        ensures
            final(self)@ == patched(old(self)@, patch@, now),
    {
        if let Some(name) = patch.name {
            let t: String = trim_str(name.as_str());
            if !t.as_str().is_empty() {
                self.name = t;
            }
        }
        if let Some(path) = patch.path {
            let t: String = trim_str(path.as_str());
            if !t.as_str().is_empty() {
                self.path = t;
            }
        }
        if let Some(b) = patch.is_favorite {
            self.is_favorite = b;
        }
        if patch.bump_last_opened {
            self.last_opened_at = now;
        }
        if let Some(w) = patch.word_count {
            self.word_count = w;
        }
    }
}

/// Scan paths that are not the same path as `p`.
pub open spec fn not_same_path(p: Seq<char>) -> spec_fn(Seq<char>) -> bool {
    |q: Seq<char>| !same_path(q, p)
}

/// A path that the Registry can use to verify itself.
#[derive(Debug)]
pub struct ScanPath {
    /// The path to scan for `.flight` files
    pub path: String,
}

impl Clone for ScanPath {
    fn clone(&self) -> (r: Self)
        ensures
            r.path@ == self.path@,
    {
        ScanPath { path: self.path.clone() }
    }
}

impl ScanPath {
    /// A scan path for `path`.
    pub fn new(path: &str) -> (r: ScanPath)
        ensures
            r.path@ == path@,
    {
        ScanPath { path: path.to_owned() }
    }
}

/// The texts of a list of scan paths.
pub open spec fn scan_view(s: Seq<ScanPath>) -> Seq<Seq<char>> {
    s.map_values(|p: ScanPath| p.path@)
}

/// A lightweight registry that tracks all known Flights.
#[derive(Debug)]
pub struct Registry {
    /// Schema version for future migration support
    version: usize,
    /// The list of registered Flights
    flights: Vec<RegistryEntry>,
    /// A list of paths that the Registry can use to verify itself
    scan_paths: Vec<ScanPath>,
}

/// The mathematical value of a [`Registry`].
pub struct RegistryView {
    pub version: usize,
    pub flights: Seq<EntryView>,
    pub scan_paths: Seq<Seq<char>>,
}

impl View for Registry {
    type V = RegistryView;

    closed spec fn view(&self) -> RegistryView {
        RegistryView {
            version: self.version,
            flights: entries_view(self.flights@),
            scan_paths: scan_view(self.scan_paths@),
        }
    }
}

/// Whether some entry of `s` has the id `id`.
pub open spec fn has_id(s: Seq<EntryView>, id: u128) -> bool {
    exists|i: int| 0 <= i < s.len() && #[trigger] s[i].id == id
}

/// `i` is the first position of `s` whose entry has the id `id`.
pub open spec fn first_with_id(s: Seq<EntryView>, id: u128, i: int) -> bool {
    &&& 0 <= i < s.len()
    &&& s[i].id == id
    &&& forall|j: int| 0 <= j < i ==> #[trigger] s[j].id != id
}

/// Whether some entry of `s` has exactly the path `path`.
pub open spec fn has_path(s: Seq<EntryView>, path: Seq<char>) -> bool {
    exists|i: int| 0 <= i < s.len() && #[trigger] s[i].path == path
}

/// The filter of a prefix one longer: the filter of the shorter prefix, with
/// the new element appended when it passes.
pub proof fn lemma_filter_take_step<A>(s: Seq<A>, p: spec_fn(A) -> bool, i: int)
    requires
        0 <= i < s.len(),
    ensures
        s.take(i + 1).filter(p) == (if p(s[i]) {
            s.take(i).filter(p).push(s[i])
        } else {
            s.take(i).filter(p)
        }),
{
    reveal(Seq::filter);
    assert(s.take(i + 1).drop_last() =~= s.take(i));
    assert(s.take(i + 1).last() == s[i]);
}

/// Entries whose id is not `id`.
pub open spec fn id_is_not(id: u128) -> spec_fn(EntryView) -> bool {
    |e: EntryView| e.id != id
}

/// Entries whose lowercased name contains the lowercased query.
pub open spec fn name_matches(query: Seq<char>) -> spec_fn(EntryView) -> bool {
    |e: EntryView| contains_sub(str_to_lowercase(e.name), str_to_lowercase(query))
}

/// `i` is the position that `most_recent` picks: its entry was opened no
/// earlier than any other, and strictly later than every entry after it.
pub open spec fn latest_at(s: Seq<EntryView>, i: int) -> bool {
    &&& 0 <= i < s.len()
    &&& forall|j: int| 0 <= j < s.len() ==> ts_le(#[trigger] s[j].last_opened_at, s[i].last_opened_at)
    &&& forall|j: int| i < j < s.len() ==> !ts_le(s[i].last_opened_at, #[trigger] s[j].last_opened_at)
}

/// The message for a schema version that this library does not read.
pub open spec fn msg_version(version: usize) -> Seq<char> {
    "Unsupported registry version: "@ + decimal(version as nat) + ". Expected version "@ + decimal(
        CURRENT_VERSION as nat,
    ) + "."@
}

/// What is wrong with the entry at `i` of `s`, given that every entry before
/// it passed: the first failing check, in this order.
pub open spec fn entry_problem(s: Seq<EntryView>, i: int) -> Option<Seq<char>> {
    let e = s[i];
    if e.id == NIL_ID {
        Some("Found a Flight entry with a nil UUID."@)
    } else if exists|j: int| 0 <= j < i && #[trigger] s[j].id == e.id {
        Some("Duplicate Flight ID found: "@ + uuid_text(e.id))
    } else if trim(e.name).len() == 0 {
        Some("Flight "@ + uuid_text(e.id) + " has an empty name."@)
    } else if trim(e.path).len() == 0 {
        Some("Flight "@ + str_debug(e.name) + " ("@ + uuid_text(e.id) + ") has an empty path."@)
    } else if exists|j: int| 0 <= j < i && #[trigger] s[j].path == e.path {
        Some(
            "Duplicate path found for Flight "@ + str_debug(e.name) + " ("@ + uuid_text(e.id) + "): "@
                + str_debug(e.path),
        )
    } else {
        None
    }
}

/// The first problem among the first `n` entries of `s`.
pub open spec fn first_problem(s: Seq<EntryView>, n: int) -> Option<Seq<char>>
    decreases n,
{
    if n <= 0 {
        None
    } else {
        match first_problem(s, n - 1) {
            Some(m) => Some(m),
            None => entry_problem(s, n - 1),
        }
    }
}

/// Why the registry `v` is not structurally sound, if it is not: an
/// unsupported version, else the first problem among its entries.
pub open spec fn validation_error(v: RegistryView) -> Option<Seq<char>> {
    if v.version == 0 || v.version > CURRENT_VERSION {
        Some(msg_version(v.version))
    } else {
        first_problem(v.flights, v.flights.len() as int)
    }
}

/// Once a problem is found among the first `m` entries, it is the first
/// problem among any longer prefix.
pub proof fn lemma_first_problem_sticks(s: Seq<EntryView>, m: int, n: int)
    requires
        0 <= m <= n,
        first_problem(s, m) is Some,
    ensures
        first_problem(s, n) == first_problem(s, m),
    decreases n - m,
{
    if m < n {
        lemma_first_problem_sticks(s, m, n - 1);
    }
}

/// `s` with `p` appended unless it already holds it.
pub open spec fn with_scan_path(s: Seq<Seq<char>>, p: Seq<char>) -> Seq<Seq<char>> {
    if s.contains(p) {
        s
    } else {
        s.push(p)
    }
}

/// The message for an id that is already registered.
pub open spec fn msg_duplicate_id(id: u128) -> Seq<char> {
    "A Flight already exists with id: "@ + uuid_text(id)
}

/// The message for a path that is already registered.
pub open spec fn msg_duplicate_path(path: Seq<char>) -> Seq<char> {
    "A Flight already exists at path: "@ + str_debug(path)
}

/// Why adding a Flight named `name` at `path` with the id `id` to `v` is
/// refused, if it is: the first failing check, in this order.
pub open spec fn add_error(v: RegistryView, name: Seq<char>, path: Seq<char>, id: u128) -> Option<Seq<char>> {
    if trim(name).len() == 0 {
        Some("Flight name must not be empty."@)
    } else if trim(path).len() == 0 {
        Some("Flight path must not be empty."@)
    } else if has_id(v.flights, id) {
        Some(msg_duplicate_id(id))
    } else if has_path(v.flights, trim(path)) {
        Some(msg_duplicate_path(trim(path)))
    } else {
        None
    }
}

/// The text `lit` followed by `tail`.
fn joined(lit: &str, tail: &str) -> (r: String)
    ensures
        r@ == lit@ + tail@,
{
    let mut r: String = String::from_str(lit);
    r.append(tail);
    r
}

impl Default for Registry {
    fn default() -> (r: Registry)
        ensures
            r@.version == CURRENT_VERSION,
            r@.flights == Seq::<EntryView>::empty(),
            r@.scan_paths == Seq::<Seq<char>>::empty(),
    {
        Registry::new()
    }
}

impl Registry {
    /// Creates a new, empty Registry (in memory only).
    pub fn new() -> (r: Registry)
        ensures
            r@.version == CURRENT_VERSION,
            r@.flights == Seq::<EntryView>::empty(),
            r@.scan_paths == Seq::<Seq<char>>::empty(),
    {
        let r = Registry { version: CURRENT_VERSION, flights: Vec::new(), scan_paths: Vec::new() };
        assert(entries_view(r.flights@) =~= Seq::<EntryView>::empty());
        assert(scan_view(r.scan_paths@) =~= Seq::<Seq<char>>::empty());
        r
    }

    /// A registry made of the given parts, as a stored registry is read back.
    pub fn from_parts(version: usize, flights: Vec<RegistryEntry>, scan_paths: Vec<ScanPath>) -> (r: Registry)
        ensures
            r@.version == version,
            r@.flights == entries_view(flights@),
            r@.scan_paths == scan_view(scan_paths@),
    {
        Registry { version, flights, scan_paths }
    }

    /// The schema version of this registry.
    pub fn version(&self) -> (r: usize)
        ensures
            r == self@.version,
    {
        self.version
    }

    /// Returns a reference to all registered Flights.
    pub fn list(&self) -> (r: &[RegistryEntry])
        ensures
            entries_view(r@) == self@.flights,
    {
        self.flights.as_slice()
    }

    /// Returns all registered Flights, to change in place.
    pub fn list_mut(&mut self) -> (r: &mut [RegistryEntry])
        ensures
            entries_view(r@) == old(self)@.flights,
            final(self)@.flights == entries_view(final(r)@),
            final(self)@.scan_paths == old(self)@.scan_paths,
            final(self)@.version == old(self)@.version,
    {
        self.flights.as_mut_slice()
    }

    /// The directories that the registry scans for Flights.
    pub fn scan_paths(&self) -> (r: &[ScanPath])
        ensures
            scan_view(r@) == self@.scan_paths,
    {
        self.scan_paths.as_slice()
    }

    /// Position of the first Flight with the id `id`, if any.
    fn position_of(&self, id: u128) -> (r: Option<usize>)
        ensures
            r is None <==> !has_id(self@.flights, id),
            r matches Some(i) ==> first_with_id(self@.flights, id, i as int),
    {
        let n: usize = self.flights.len();
        let mut i: usize = 0;
        while i < n
            invariant
                n == self.flights@.len(),
                i <= n,
                forall|j: int| 0 <= j < i ==> #[trigger] self.flights@[j].id != id,
            decreases n - i,
        {
            if self.flights[i].id == id {
                assert(self@.flights[i as int] == self.flights@[i as int]@);
                assert(self@.flights[i as int].id == id);
                assert forall|j: int| 0 <= j < i implies #[trigger] self@.flights[j].id != id by {
                    assert(self@.flights[j] == self.flights@[j]@);
                }
                return Some(i);
            }
            i = i + 1;
        }
        assert forall|j: int| 0 <= j < self@.flights.len() implies #[trigger] self@.flights[j].id != id by {
            assert(self@.flights[j] == self.flights@[j]@);
        }
        None
    }

    /// Whether some Flight is registered at exactly `path`.
    fn has_path_exec(&self, path: &str) -> (r: bool)
        ensures
            r == has_path(self@.flights, path@),
    {
        let n: usize = self.flights.len();
        let mut i: usize = 0;
        while i < n
            invariant
                n == self.flights@.len(),
                i <= n,
                forall|j: int| 0 <= j < i ==> #[trigger] self.flights@[j].path@ != path@,
            decreases n - i,
        {
            if str_eq(self.flights[i].path.as_str(), path) {
                assert(self@.flights[i as int] == self.flights@[i as int]@);
                assert(self@.flights[i as int].path == path@);
                return true;
            }
            i = i + 1;
        }
        assert forall|j: int| 0 <= j < self@.flights.len() implies #[trigger] self@.flights[j].path != path@ by {
            assert(self@.flights[j] == self.flights@[j]@);
        }
        false
    }

    /// Whether `path` is one of the scan paths, letter for letter.
    fn scans_exactly(&self, path: &str) -> (r: bool)
        ensures
            r == self@.scan_paths.contains(path@),
    {
        let n: usize = self.scan_paths.len();
        let mut i: usize = 0;
        while i < n
            invariant
                n == self.scan_paths@.len(),
                i <= n,
                forall|j: int| 0 <= j < i ==> #[trigger] self.scan_paths@[j].path@ != path@,
            decreases n - i,
        {
            if str_eq(self.scan_paths[i].path.as_str(), path) {
                assert(self@.scan_paths[i as int] == path@);
                return true;
            }
            i = i + 1;
        }
        assert forall|j: int| 0 <= j < self@.scan_paths.len() implies #[trigger] self@.scan_paths[j] != path@ by {
            assert(self@.scan_paths[j] == self.scan_paths@[j].path@);
        }
        false
    }

    /// Adds a new Flight to the registry, in memory only.
    ///
    /// The name and path are trimmed. It is refused, with the registry
    /// unchanged, if the name or the path is empty, if the id is already in
    /// use, or if a Flight already exists at the path. Otherwise the entry is
    /// appended, not a favourite, with no words, created and last opened now,
    /// and its path becomes a scan path if it is not one already.
    pub fn add_entry(&mut self, name: &str, path: &str, id: u128) -> (r: Result<RegistryEntry, String>)
        ensures
            match add_error(old(self)@, name@, path@, id) {
                Some(m) => r matches Err(e) && e@ == m && final(self)@ == old(self)@,
                None => r matches Ok(e) && {
                    &&& e@.id == id
                    &&& e@.name == trim(name@)
                    &&& e@.path == trim(path@)
                    &&& !e@.is_favorite
                    &&& e@.word_count == 0
                    &&& e@.created_at == e@.last_opened_at
                    &&& final(self)@.flights == old(self)@.flights.push(e@)
                    &&& final(self)@.scan_paths == with_scan_path(old(self)@.scan_paths, trim(path@))
                    &&& final(self)@.version == old(self)@.version
                },
            },
    {
        let name_t: String = trim_str(name);
        let path_t: String = trim_str(path);
        if name_t.as_str().is_empty() {
            return Err(String::from_str("Flight name must not be empty."));
        }
        if path_t.as_str().is_empty() {
            return Err(String::from_str("Flight path must not be empty."));
        }
        if self.position_of(id).is_some() {
            let id_text: String = id_to_string(id);
            return Err(joined("A Flight already exists with id: ", id_text.as_str()));
        }
        if self.has_path_exec(path_t.as_str()) {
            let path_text: String = debug_text(path_t.as_str());
            return Err(joined("A Flight already exists at path: ", path_text.as_str()));
        }
        if !self.scans_exactly(path_t.as_str()) {
            let sp: ScanPath = ScanPath::new(path_t.as_str());
            let ghost before = self.scan_paths@;
            self.scan_paths.push(sp);
            assert(scan_view(self.scan_paths@) =~= scan_view(before).push(path_t@));
        }
        let t: Timestamp = now();
        let entry: RegistryEntry = RegistryEntry {
            id,
            name: name_t,
            path: path_t,
            is_favorite: false,
            last_opened_at: t,
            created_at: t,
            word_count: 0,
        };
        let ghost before = self.flights@;
        self.flights.push(entry.clone());
        assert(entries_view(self.flights@) =~= entries_view(before).push(entry@));
        Ok(entry)
    }

    /// Removes every Flight with the id `id`; whether there was one.
    pub fn remove_entry(&mut self, id: u128) -> (r: bool)
        ensures
            final(self)@.flights == old(self)@.flights.filter(id_is_not(id)),
            final(self)@.scan_paths == old(self)@.scan_paths,
            final(self)@.version == old(self)@.version,
            r == has_id(old(self)@.flights, id),
    {
        let ghost s = self@.flights;
        let n: usize = self.flights.len();
        let mut kept: Vec<RegistryEntry> = Vec::new();
        let mut found: bool = false;
        let mut i: usize = 0;
        while i < n
            invariant
                n == self.flights@.len(),
                s == entries_view(self.flights@),
                s.len() == n,
                i <= n,
                entries_view(kept@) == s.take(i as int).filter(id_is_not(id)),
                found == (exists|j: int| 0 <= j < i && #[trigger] s[j].id == id),
            decreases n - i,
        {
            proof {
                lemma_filter_take_step(s, id_is_not(id), i as int);
            }
            assert(s[i as int] == self.flights@[i as int]@);
            if self.flights[i].id == id {
                found = true;
            } else {
                let ghost before = kept@;
                kept.push(self.flights[i].clone());
                assert(entries_view(kept@) =~= entries_view(before).push(s[i as int]));
            }
            i = i + 1;
        }
        assert(s.take(n as int) =~= s);
        self.flights = kept;
        found
    }

    /// Applies `patch` to the first Flight with the id `id`, reading the clock
    /// if the patch bumps the last-opened time, and returns the updated entry.
    /// Fails, with the registry unchanged, if no Flight has that id.
    pub fn update(&mut self, id: u128, patch: RegistryEntryPatch) -> (r: Result<RegistryEntry, String>)
        ensures
            r is Err <==> !has_id(old(self)@.flights, id),
            r matches Err(m) ==> m@ == "Flight not found: "@ + uuid_text(id) && final(self)@ == old(self)@,
            r matches Ok(e) ==> exists|i: int, t: Timestamp|
                first_with_id(old(self)@.flights, id, i)
                && e@ == #[trigger] patched(old(self)@.flights[i], patch@, t)
                && final(self)@.flights == old(self)@.flights.update(i, e@),
            final(self)@.scan_paths == old(self)@.scan_paths,
            final(self)@.version == old(self)@.version,
    {
        match self.position_of(id) {
            None => {
                let id_text: String = id_to_string(id);
                Err(joined("Flight not found: ", id_text.as_str()))
            },
            Some(i) => {
                let mut e: RegistryEntry = self.flights[i].clone();
                let t: Timestamp = if patch.bump_last_opened {
                    now()
                } else {
                    e.last_opened_at
                };
                let ghost old_e = e@;
                let ghost pv = patch@;
                e.apply_patch(patch, t);
                let ghost before = self.flights@;
                self.flights.set(i, e.clone());
                assert(entries_view(self.flights@) =~= entries_view(before).update(i as int, e@));
                assert(e@ == patched(self@.flights[i as int], pv, t));
                Ok(e)
            },
        }
    }

    /// Searches Flights by name: those whose lowercased name contains the
    /// lowercased query, in registry order.
    pub fn search_by_name(&self, query: &str) -> (r: Vec<&RegistryEntry>)
        ensures
            r@.map_values(|e: &RegistryEntry| e@) == self@.flights.filter(name_matches(query@)),
    {
        let ghost s = self@.flights;
        let q: String = to_lowercase(query);
        let n: usize = self.flights.len();
        let mut found: Vec<&RegistryEntry> = Vec::new();
        let mut i: usize = 0;
        while i < n
            invariant
                n == self.flights@.len(),
                s == entries_view(self.flights@),
                s.len() == n,
                i <= n,
                q@ == str_to_lowercase(query@),
                found@.map_values(|e: &RegistryEntry| e@) == s.take(i as int).filter(name_matches(query@)),
            decreases n - i,
        {
            proof {
                lemma_filter_take_step(s, name_matches(query@), i as int);
            }
            let e: &RegistryEntry = &self.flights[i];
            assert(s[i as int] == e@);
            let lowered: String = to_lowercase(e.name.as_str());
            if str_contains(lowered.as_str(), q.as_str()) {
                let ghost before = found@;
                found.push(e);
                assert(found@.map_values(|e: &RegistryEntry| e@) =~= before.map_values(
                    |e: &RegistryEntry| e@,
                ).push(e@));
            }
            i = i + 1;
        }
        assert(s.take(n as int) =~= s);
        found
    }

    /// Returns the Flight that was most recently opened: of those opened
    /// latest, the last one in the registry.
    pub fn most_recent(&self) -> (r: Option<&RegistryEntry>)
        ensures
            r is None <==> self@.flights.len() == 0,
            r matches Some(e) ==> exists|i: int| latest_at(self@.flights, i) && e@ == #[trigger] self@.flights[i],
    {
        let ghost s = self@.flights;
        let n: usize = self.flights.len();
        if n == 0 {
            return None;
        }
        let mut best: usize = 0;
        let mut i: usize = 1;
        while i < n
            invariant
                n == self.flights@.len(),
                s == entries_view(self.flights@),
                s.len() == n,
                best < i <= n,
                forall|j: int| 0 <= j < i ==> ts_le(#[trigger] s[j].last_opened_at, s[best as int].last_opened_at),
                forall|j: int| best < j < i ==> !ts_le(s[best as int].last_opened_at, #[trigger] s[j].last_opened_at),
            decreases n - i,
        {
            assert(s[i as int] == self.flights@[i as int]@);
            assert(s[best as int] == self.flights@[best as int]@);
            if self.flights[best].last_opened_at.le(&self.flights[i].last_opened_at) {
                best = i;
            }
            i = i + 1;
        }
        let e: &RegistryEntry = &self.flights[best];
        assert(e@ == s[best as int]);
        Some(e)
    }

    /// Adds `path` as a scan path. `path_is_dir` says whether the path names
    /// an existing directory, which only the file system can tell; if it does
    /// not, the path is refused and the registry is unchanged.
    pub fn add_scan_path(&mut self, path: &str, path_is_dir: bool) -> (r: Result<(), String>)
        ensures
            !path_is_dir ==> (r matches Err(m) && m@ == "Path is not a directory"@ && final(self)@ == old(self)@),
            path_is_dir ==> r is Ok && final(self)@.scan_paths == old(self)@.scan_paths.push(path@),
            final(self)@.flights == old(self)@.flights,
            final(self)@.version == old(self)@.version,
    {
        if !path_is_dir {
            return Err(String::from_str("Path is not a directory"));
        }
        let ghost before = self.scan_paths@;
        self.scan_paths.push(ScanPath::new(path));
        assert(scan_view(self.scan_paths@) =~= scan_view(before).push(path@));
        Ok(())
    }

    /// Removes every scan path equal to `path` as a path (component by
    /// component); whether there was one.
    pub fn remove_scan_path(&mut self, path: &str) -> (r: bool)
        ensures
            final(self)@.scan_paths == old(self)@.scan_paths.filter(not_same_path(path@)),
            final(self)@.flights == old(self)@.flights,
            final(self)@.version == old(self)@.version,
            r == (exists|j: int| 0 <= j < old(self)@.scan_paths.len() && same_path(#[trigger] old(self)@.scan_paths[j], path@)),
    {
        let ghost s = self@.scan_paths;
        let n: usize = self.scan_paths.len();
        let mut kept: Vec<ScanPath> = Vec::new();
        let mut found: bool = false;
        let mut i: usize = 0;
        while i < n
            invariant
                n == self.scan_paths@.len(),
                s == scan_view(self.scan_paths@),
                s.len() == n,
                i <= n,
                scan_view(kept@) == s.take(i as int).filter(not_same_path(path@)),
                found == (exists|j: int| 0 <= j < i && same_path(#[trigger] s[j], path@)),
            decreases n - i,
        {
            proof {
                lemma_filter_take_step(s, not_same_path(path@), i as int);
            }
            assert(s[i as int] == self.scan_paths@[i as int].path@);
            if paths_equal(self.scan_paths[i].path.as_str(), path) {
                found = true;
            } else {
                let ghost before = kept@;
                kept.push(self.scan_paths[i].clone());
                assert(scan_view(kept@) =~= scan_view(before).push(s[i as int]));
            }
            i = i + 1;
        }
        assert(s.take(n as int) =~= s);
        self.scan_paths = kept;
        found
    }

    /// Whether an entry before position `i` has the id `id`.
    fn id_before(&self, i: usize, id: u128) -> (r: bool)
        requires
            i <= self@.flights.len(),
        ensures
            r == (exists|j: int| 0 <= j < i && #[trigger] self@.flights[j].id == id),
    {
        let mut k: usize = 0;
        while k < i
            invariant
                i <= self.flights@.len(),
                k <= i,
                forall|j: int| 0 <= j < k ==> #[trigger] self.flights@[j].id != id,
            decreases i - k,
        {
            if self.flights[k].id == id {
                assert(self@.flights[k as int] == self.flights@[k as int]@);
                assert(self@.flights[k as int].id == id);
                return true;
            }
            k = k + 1;
        }
        assert forall|j: int| 0 <= j < i implies #[trigger] self@.flights[j].id != id by {
            assert(self@.flights[j] == self.flights@[j]@);
        }
        false
    }

    /// Whether an entry before position `i` has exactly the path `path`.
    fn path_before(&self, i: usize, path: &str) -> (r: bool)
        requires
            i <= self@.flights.len(),
        ensures
            r == (exists|j: int| 0 <= j < i && #[trigger] self@.flights[j].path == path@),
    {
        let mut k: usize = 0;
        while k < i
            invariant
                i <= self.flights@.len(),
                k <= i,
                forall|j: int| 0 <= j < k ==> #[trigger] self.flights@[j].path@ != path@,
            decreases i - k,
        {
            if str_eq(self.flights[k].path.as_str(), path) {
                assert(self@.flights[k as int] == self.flights@[k as int]@);
                assert(self@.flights[k as int].path == path@);
                return true;
            }
            k = k + 1;
        }
        assert forall|j: int| 0 <= j < i implies #[trigger] self@.flights[j].path != path@ by {
            assert(self@.flights[j] == self.flights@[j]@);
        }
        false
    }

    /// What is wrong with the entry at `i`, given that the ones before passed.
    fn check_entry(&self, i: usize) -> (r: Option<String>)
        requires
            i < self@.flights.len(),
        ensures
            match entry_problem(self@.flights, i as int) {
                None => r is None,
                Some(m) => r matches Some(t) && t@ == m,
            },
    {
        let e: &RegistryEntry = &self.flights[i];
        assert(e@ == self@.flights[i as int]);
        if e.id == NIL_ID {
            return Some(String::from_str("Found a Flight entry with a nil UUID."));
        }
        if self.id_before(i, e.id) {
            let id_text: String = id_to_string(e.id);
            return Some(joined("Duplicate Flight ID found: ", id_text.as_str()));
        }
        let name_t: String = trim_str(e.name.as_str());
        if name_t.as_str().is_empty() {
            let mut m: String = String::from_str("Flight ");
            let id_text: String = id_to_string(e.id);
            m.append(id_text.as_str());
            m.append(" has an empty name.");
            return Some(m);
        }
        let path_t: String = trim_str(e.path.as_str());
        if path_t.as_str().is_empty() {
            let mut m: String = String::from_str("Flight ");
            let name_text: String = debug_text(e.name.as_str());
            let id_text: String = id_to_string(e.id);
            m.append(name_text.as_str());
            m.append(" (");
            m.append(id_text.as_str());
            m.append(") has an empty path.");
            return Some(m);
        }
        if self.path_before(i, e.path.as_str()) {
            let mut m: String = String::from_str("Duplicate path found for Flight ");
            let name_text: String = debug_text(e.name.as_str());
            let id_text: String = id_to_string(e.id);
            let path_text: String = debug_text(e.path.as_str());
            m.append(name_text.as_str());
            m.append(" (");
            m.append(id_text.as_str());
            m.append("): ");
            m.append(path_text.as_str());
            return Some(m);
        }
        None
    }

    /// Checks the structural integrity of the registry: the version is
    /// supported, and every entry has a non-nil id that no earlier entry has,
    /// a name and a path that are not blank, and a path that no earlier entry
    /// has. The error names the first problem found.
    pub fn is_valid(&self) -> (r: Result<(), String>)
        ensures
            match validation_error(self@) {
                None => r is Ok,
                Some(m) => r matches Err(e) && e@ == m,
            },
    {
        if self.version == 0 || self.version > CURRENT_VERSION {
            let mut m: String = String::from_str("Unsupported registry version: ");
            push_decimal(&mut m, self.version);
            m.append(". Expected version ");
            push_decimal(&mut m, CURRENT_VERSION);
            m.append(".");
            return Err(m);
        }
        let n: usize = self.flights.len();
        let mut i: usize = 0;
        while i < n
            invariant
                n == self@.flights.len(),
                i <= n,
                first_problem(self@.flights, i as int) is None,
                self@.version != 0 && self@.version <= CURRENT_VERSION,
            decreases n - i,
        {
            match self.check_entry(i) {
                Some(m) => {
                    assert(first_problem(self@.flights, i + 1) == entry_problem(self@.flights, i as int));
                    assert(first_problem(self@.flights, n as int) == first_problem(self@.flights, i + 1)) by {
                        lemma_first_problem_sticks(self@.flights, i + 1, n as int);
                    }
                    return Err(m);
                },
                None => {},
            }
            i = i + 1;
        }
        Ok(())
    }

    /// Returns a reference to the first Flight entry with the id `id`.
    pub fn get(&self, id: u128) -> (r: Option<&RegistryEntry>)
        ensures
            r is None <==> !has_id(self@.flights, id),
            r matches Some(e) ==> exists|i: int|
                first_with_id(self@.flights, id, i) && e@ == #[trigger] self@.flights[i],
    {
        match self.position_of(id) {
            Some(i) => {
                let e: &RegistryEntry = &self.flights[i];
                assert(e@ == self@.flights[i as int]);
                Some(e)
            },
            None => None,
        }
    }
}

/// What a reconciliation pass found at an entry's cached path (the
/// directory that the registry holds for it).
#[allow(inconsistent_fields)]
#[derive(Debug)]
pub enum CachedFlight {
    /// The expected `.flight` file is there; its metadata holds this id text.
    Expected { metadata_id: String },
    /// The expected file is not there; the id text held by the first other
    /// `.flight` file there whose metadata could be read, if any.
    Other { metadata_id: Option<String> },
    /// The cached path does not exist.
    Missing,
}

/// Describes the result of reconciling a single Flight entry.
#[derive(Debug)]
pub enum ReconcileStatus {
    /// Flight is at its cached path; no action required.
    Found,
    /// Flight was found at a different path.
    Moved {
        /// The old path where the Flight was found.
        old_path: String,
        /// The directory that holds the `.flight` file that was found.
        new_path: String,
    },
    /// Flight could not be found in any scan paths.
    Mismatch {
        /// The cached path where the conflicting `.flight` was found.
        path: String,
        /// The UUID of the Flight currently at this location.
        mismatched_id: Option<u128>,
    },
    /// A `.flight` file was discovered on disk that is not registered.
    Discovered {
        /// The directory path where the `.flight` was found.
        path: String,
        /// The UUID of the discovered Flight.
        flight_id: u128,
    },
}

/// The mathematical value of a [`ReconcileStatus`].
pub enum StatusView {
    Found,
    Moved { old_path: Seq<char>, new_path: Seq<char> },
    Mismatch { path: Seq<char>, mismatched_id: Option<u128> },
    Discovered { path: Seq<char>, flight_id: u128 },
}

impl View for ReconcileStatus {
    type V = StatusView;

    open spec fn view(&self) -> StatusView {
        match self {
            ReconcileStatus::Found => StatusView::Found,
            ReconcileStatus::Moved { old_path, new_path } => StatusView::Moved {
                old_path: old_path@,
                new_path: new_path@,
            },
            ReconcileStatus::Mismatch { path, mismatched_id } => StatusView::Mismatch {
                path: path@,
                mismatched_id: *mismatched_id,
            },
            ReconcileStatus::Discovered { path, flight_id } => StatusView::Discovered {
                path: path@,
                flight_id: *flight_id,
            },
        }
    }
}

/// Report for one Flight entry after a reconciliation pass.
#[derive(Debug)]
pub struct ReconcileReport {
    /// The UUID of the Flight that was reconciled.
    pub id: u128,
    /// The human-readable name of the Flight.
    pub name: String,
    /// What happened during reconciliation.
    pub status: ReconcileStatus,
}

/// The mathematical value of a [`ReconcileReport`].
pub struct ReportView {
    pub id: u128,
    pub name: Seq<char>,
    pub status: StatusView,
}

impl View for ReconcileReport {
    type V = ReportView;

    open spec fn view(&self) -> ReportView {
        ReportView { id: self.id, name: self.name@, status: self.status@ }
    }
}

/// Whether the metadata id text `text` names the Flight `id`: it is the
/// hyphenated text of that UUID.
pub open spec fn names_flight(id: u128, text: Seq<char>) -> bool {
    text == uuid_text(id)
}

/// Whether `cached` shows the Flight `id` where the registry expects it: the
/// expected file is there and holds its id.
pub open spec fn at_cached_path(id: u128, cached: CachedFlight) -> bool {
    match cached {
        CachedFlight::Expected { metadata_id } => names_flight(id, metadata_id@),
        _ => false,
    }
}

/// The id of the other Flight found at a cached path, if one was found and its
/// id text parses.
pub open spec fn other_id(cached: CachedFlight) -> Option<u128> {
    match cached {
        CachedFlight::Expected { metadata_id } => uuid_parse(metadata_id@),
        CachedFlight::Other { metadata_id } => match metadata_id {
            Some(t) => uuid_parse(t@),
            None => None,
        },
        CachedFlight::Missing => None,
    }
}

/// The status of the entry `e` given what was found at its cached path and,
/// when it was not there, where the scan paths showed it.
pub open spec fn entry_status(e: EntryView, cached: CachedFlight, found_at: Option<Seq<char>>) -> StatusView {
    if at_cached_path(e.id, cached) {
        StatusView::Found
    } else {
        match found_at {
            Some(p) => StatusView::Moved { old_path: e.path, new_path: p },
            None => StatusView::Mismatch { path: e.path, mismatched_id: other_id(cached) },
        }
    }
}

/// Whether the metadata id text `metadata_id` names the Flight `id`.
pub fn metadata_matches(id: u128, metadata_id: &str) -> (r: bool)
    ensures
        r == names_flight(id, metadata_id@),
{
    let text: String = id_to_string(id);
    str_eq(metadata_id, text.as_str())
}

/// Whether `cached` shows the Flight `id` where the registry expects it, so
/// that no search of the scan paths is needed.
pub fn is_at_cached_path(id: u128, cached: &CachedFlight) -> (r: bool)
    ensures
        r == at_cached_path(id, *cached),
{
    match cached {
        CachedFlight::Expected { metadata_id } => metadata_matches(id, metadata_id.as_str()),
        _ => false,
    }
}

/// The report on the registered entry `entry`, given what was found at its
/// cached path and, when it was not there, the directory holding the
/// `.flight` file that the scan paths showed for its id (`found_at`).
pub fn entry_report(entry: &RegistryEntry, cached: &CachedFlight, found_at: &Option<String>) -> (r: ReconcileReport)
    ensures
        r@.id == entry@.id,
        r@.name == entry@.name,
        r@.status == entry_status(entry@, *cached, opt_text(*found_at)),
{
    let status: ReconcileStatus = if is_at_cached_path(entry.id, cached) {
        ReconcileStatus::Found
    } else {
        match found_at {
            Some(p) => ReconcileStatus::Moved { old_path: entry.path.clone(), new_path: p.clone() },
            None => {
                let mismatched_id: Option<u128> = match cached {
                    CachedFlight::Expected { metadata_id } => parse_id(metadata_id.as_str()).ok(),
                    CachedFlight::Other { metadata_id } => match metadata_id {
                        Some(t) => parse_id(t.as_str()).ok(),
                        None => None,
                    },
                    CachedFlight::Missing => None,
                };
                ReconcileStatus::Mismatch { path: entry.path.clone(), mismatched_id }
            },
        }
    };
    ReconcileReport { id: entry.id, name: entry.name.clone(), status }
}

/// What a reconciliation pass found on disk for one registered entry.
#[derive(Debug)]
pub struct EntryOutcome {
    /// What was at the entry's cached path.
    pub cached: CachedFlight,
    /// When the Flight was not there: the enveloping directory of the
    /// `.flight` file that the scan paths showed for its id, if any. This is
    /// what the entry's path becomes.
    pub found_at: Option<String>,
}

/// The report that the outcome `o` gives on the entry `e`.
pub open spec fn outcome_report(e: EntryView, o: EntryOutcome) -> ReportView {
    ReportView { id: e.id, name: e.name, status: entry_status(e, o.cached, opt_text(o.found_at)) }
}

/// The views of a list of reports.
pub open spec fn reports_view(v: Seq<ReconcileReport>) -> Seq<ReportView> {
    v.map_values(|r: ReconcileReport| r@)
}

/// The moves that a list of reports records, in order: the id and new path
/// of each `Moved` report.
pub open spec fn report_moves(reps: Seq<ReportView>) -> Seq<(u128, Seq<char>)>
    decreases reps.len(),
{
    if reps.len() == 0 {
        Seq::empty()
    } else {
        let rest = report_moves(reps.drop_last());
        match reps.last().status {
            StatusView::Moved { new_path, .. } => rest.push((reps.last().id, new_path)),
            _ => rest,
        }
    }
}

/// `s` with the path of the first entry whose id is `id` set to `path`, or
/// `s` itself if no entry has that id.
pub open spec fn with_moved_path(s: Seq<EntryView>, id: u128, path: Seq<char>) -> Seq<EntryView> {
    if has_id(s, id) {
        let i = choose|i: int| first_with_id(s, id, i);
        s.update(i, EntryView { path, ..s[i] })
    } else {
        s
    }
}

/// `s` after each move of `moves` (an id and its new path) in turn.
pub open spec fn with_moves(s: Seq<EntryView>, moves: Seq<(u128, Seq<char>)>) -> Seq<EntryView>
    decreases moves.len(),
{
    if moves.len() == 0 {
        s
    } else {
        let last = moves.last();
        with_moved_path(with_moves(s, moves.drop_last()), last.0, last.1)
    }
}

/// The ids and path texts of a list of moves.
pub open spec fn moves_view(moves: Seq<(u128, String)>) -> Seq<(u128, Seq<char>)> {
    moves.map_values(|m: (u128, String)| (m.0, m.1@))
}

/// At most one position can be the first with a given id.
proof fn lemma_first_with_id_unique(s: Seq<EntryView>, id: u128, i: int, k: int)
    requires
        first_with_id(s, id, i),
        first_with_id(s, id, k),
    ensures
        i == k,
{
    if i < k {
        assert(s[i].id != id);
    } else if k < i {
        assert(s[k].id != id);
    }
}

impl Registry {
    /// Sets the path of the first Flight with the id `id`; whether there was one.
    pub fn set_path(&mut self, id: u128, path: &str) -> (r: bool)
        ensures
            r == has_id(old(self)@.flights, id),
            final(self)@.flights == with_moved_path(old(self)@.flights, id, path@),
            final(self)@.scan_paths == old(self)@.scan_paths,
            final(self)@.version == old(self)@.version,
    {
        match self.position_of(id) {
            None => false,
            Some(i) => {
                let ghost s = self@.flights;
                let mut e: RegistryEntry = self.flights[i].clone();
                e.path = path.to_owned();
                let ghost before = self.flights@;
                self.flights.set(i, e);
                assert(entries_view(self.flights@) =~= entries_view(before).update(
                    i as int,
                    EntryView { path: path@, ..s[i as int] },
                ));
                proof {
                    let k = choose|k: int| first_with_id(s, id, k);
                    lemma_first_with_id_unique(s, id, i as int, k);
                }
                true
            },
        }
    }

    /// Records, in order, that each Flight of `moves` was found at a new path.
    pub fn apply_moves(&mut self, moves: &Vec<(u128, String)>)
        ensures
            final(self)@.flights == with_moves(old(self)@.flights, moves_view(moves@)),
            final(self)@.scan_paths == old(self)@.scan_paths,
            final(self)@.version == old(self)@.version,
    {
        let ghost mv = moves_view(moves@);
        let n: usize = moves.len();
        let mut i: usize = 0;
        while i < n
            invariant
                n == moves@.len(),
                mv == moves_view(moves@),
                i <= n,
                self@.flights == with_moves(old(self)@.flights, mv.take(i as int)),
                self@.scan_paths == old(self)@.scan_paths,
                self@.version == old(self)@.version,
            decreases n - i,
        {
            let (id, path): (u128, &String) = (moves[i].0, &moves[i].1);
            assert(mv.take(i + 1).drop_last() =~= mv.take(i as int));
            assert(mv.take(i + 1).last() == (id, path@));
            self.set_path(id, path.as_str());
            i = i + 1;
        }
        assert(mv.take(n as int) =~= mv);
    }

    /// Reconciles the registered entries with what was found on disk for
    /// each, in order (`outcomes[i]` for the `i`-th entry): one report per
    /// entry, and each entry reported `Moved` is recorded at its new path.
    pub fn reconcile_entries(&mut self, outcomes: &[EntryOutcome]) -> (r: Vec<ReconcileReport>)
        requires
            outcomes@.len() == old(self)@.flights.len(),
        ensures
            r@.len() == outcomes@.len(),
            forall|i: int| 0 <= i < r@.len() ==> #[trigger] r@[i]@ == outcome_report(
                old(self)@.flights[i],
                outcomes@[i],
            ),
            final(self)@.flights == with_moves(old(self)@.flights, report_moves(reports_view(r@))),
            final(self)@.scan_paths == old(self)@.scan_paths,
            final(self)@.version == old(self)@.version,
    {
        let ghost s = self@.flights;
        let n: usize = outcomes.len();
        let mut reports: Vec<ReconcileReport> = Vec::new();
        let mut moves: Vec<(u128, String)> = Vec::new();
        let mut i: usize = 0;
        assert(reports_view(reports@) =~= Seq::<ReportView>::empty());
        assert(moves_view(moves@) =~= Seq::<(u128, Seq<char>)>::empty());
        while i < n
            invariant
                n == outcomes@.len(),
                n == s.len(),
                s == self@.flights,
                s == entries_view(self.flights@),
                self@ == old(self)@,
                i <= n,
                reports@.len() == i,
                forall|k: int| 0 <= k < i ==> #[trigger] reports@[k]@ == outcome_report(s[k], outcomes@[k]),
                moves_view(moves@) == report_moves(reports_view(reports@)),
            decreases n - i,
        {
            let e: &RegistryEntry = &self.flights[i];
            assert(e@ == s[i as int]);
            let o: &EntryOutcome = &outcomes[i];
            let rep: ReconcileReport = entry_report(e, &o.cached, &o.found_at);
            let ghost before_reports = reports@;
            let ghost before_moves = moves@;
            match &rep.status {
                ReconcileStatus::Moved { new_path, .. } => {
                    moves.push((rep.id, new_path.clone()));
                },
                _ => {},
            }
            reports.push(rep);
            proof {
                assert(reports_view(reports@).drop_last() =~= reports_view(before_reports));
                assert(reports_view(reports@).last() == rep@);
                match rep@.status {
                    StatusView::Moved { new_path, .. } => {
                        assert(moves_view(moves@) =~= moves_view(before_moves).push((rep@.id, new_path)));
                    },
                    _ => {
                        assert(moves@ == before_moves);
                    },
                }
            }
            i = i + 1;
        }
        self.apply_moves(&moves);
        reports
    }

    /// The report on a `.flight` file found in a scan path, in the directory
    /// `parent`, whose metadata holds the id text `metadata_id` and the name
    /// `metadata_name`: none if that Flight is registered, a discovery
    /// otherwise. Fails with the `uuid` crate's message if the id text does
    /// not parse.
    pub fn discovered_report(&self, parent: &str, metadata_id: &str, metadata_name: &str) -> (r: Result<
        Option<ReconcileReport>,
        String,
    >)
        ensures
            r is Err <==> uuid_parse(metadata_id@) is None,
            r matches Err(m) ==> m@ == "failed to parse a UUID"@,
            r matches Ok(o) ==> {
                let u = uuid_parse(metadata_id@)->0;
                &&& (o is None <==> has_id(self@.flights, u))
                &&& (o matches Some(rep) ==> rep@ == (ReportView {
                    id: u,
                    name: metadata_name@,
                    status: StatusView::Discovered { path: parent@, flight_id: u },
                }))
            },
    {
        match parse_id(metadata_id) {
            Err(m) => Err(m),
            Ok(u) => {
                if self.position_of(u).is_some() {
                    Ok(None)
                } else {
                    Ok(
                        Some(
                            ReconcileReport {
                                id: u,
                                name: metadata_name.to_owned(),
                                status: ReconcileStatus::Discovered { path: parent.to_owned(), flight_id: u },
                            },
                        ),
                    )
                }
            },
        }
    }
}

} // verus!
