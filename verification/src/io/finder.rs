//! The Finder: the options of a directory walk and the decisions it takes
//! on each entry. Walking the directory (with `walkdir`) happens outside the
//! library, which is handed each entry as plain values.

use vstd::prelude::*;
use crate::io::pattern::{pattern_error, pattern_matches, regex_error, regex_matches};
use crate::registry::lemma_filter_take_step;
use crate::text::str_eq;

verus! {

/// What a directory walk reports of one entry.
#[derive(Debug, Clone)]
pub struct WalkEntry {
    /// The entry's path, as text.
    pub path: String,
    /// The entry's file name, as text (empty if it is not valid text).
    pub name: String,
    /// Whether the entry is a directory.
    pub is_dir: bool,
    /// The extension of the entry's path, if it has one.
    pub extension: Option<String>,
}

/// The mathematical value of a [`WalkEntry`].
pub struct WalkEntryView {
    pub path: Seq<char>,
    pub name: Seq<char>,
    pub is_dir: bool,
    pub extension: Option<Seq<char>>,
}

impl View for WalkEntry {
    type V = WalkEntryView;

    open spec fn view(&self) -> WalkEntryView {
        WalkEntryView {
            path: self.path@,
            name: self.name@,
            is_dir: self.is_dir,
            extension: match self.extension {
                Some(e) => Some(e@),
                None => None,
            },
        }
    }
}

/// The options of a directory walk.
#[derive(Debug)]
pub struct Finder {
    path: String,
    skip_hidden_files: Option<bool>,
    skip_hidden_dirs: Option<bool>,
    skip_files: Option<bool>,
    skip_dirs: Option<bool>,
    exclude_pattern: Option<String>,
    extensions: Option<Vec<String>>,
    max_depth: Option<usize>,
}

/// The mathematical value of a [`Finder`].
pub struct FinderView {
    pub path: Seq<char>,
    pub skip_hidden_files: Option<bool>,
    pub skip_hidden_dirs: Option<bool>,
    pub skip_files: Option<bool>,
    pub skip_dirs: Option<bool>,
    pub exclude_pattern: Option<Seq<char>>,
    pub extensions: Option<Seq<Seq<char>>>,
    pub max_depth: Option<usize>,
}

/// The texts of a list of strings.
pub open spec fn texts_of(v: Seq<String>) -> Seq<Seq<char>> {
    v.map_values(|s: String| s@)
}

impl View for Finder {
    type V = FinderView;

    closed spec fn view(&self) -> FinderView {
        FinderView {
            path: self.path@,
            skip_hidden_files: self.skip_hidden_files,
            skip_hidden_dirs: self.skip_hidden_dirs,
            skip_files: self.skip_files,
            skip_dirs: self.skip_dirs,
            exclude_pattern: match self.exclude_pattern {
                Some(p) => Some(p@),
                None => None,
            },
            extensions: match self.extensions {
                Some(v) => Some(texts_of(v@)),
                None => None,
            },
            max_depth: self.max_depth,
        }
    }
}

/// Whether a file name is hidden: it starts with `.`.
pub open spec fn is_hidden(name: Seq<char>) -> bool {
    name.len() > 0 && name[0] == '.'
}

/// Whether the walk enters or keeps the entry `e` under the options `f`: a
/// directory unless it is hidden and hidden directories are skipped; a file
/// unless files are skipped, it is hidden and hidden files are skipped, its
/// path matches the exclude pattern, or extensions are given and its
/// extension is none of them.
pub open spec fn allows(f: FinderView, e: WalkEntryView) -> bool {
    if e.is_dir {
        !(f.skip_hidden_dirs == Some(true) && is_hidden(e.name))
    } else if f.skip_files == Some(true) {
        false
    } else if f.skip_hidden_files == Some(true) && is_hidden(e.name) {
        false
    } else if f.exclude_pattern is Some && regex_matches(f.exclude_pattern->0, e.path) {
        false
    } else if f.extensions is Some && !(exists|i: int|
        0 <= i < f.extensions->0.len() && e.extension == Some(#[trigger] f.extensions->0[i])) {
        false
    } else {
        true
    }
}

/// Whether the entry `e` appears in the result: not if it is a directory and
/// directories are skipped.
pub open spec fn includes(f: FinderView, e: WalkEntryView) -> bool {
    !(e.is_dir && f.skip_dirs == Some(true))
}

/// The views of a list of walked entries.
pub open spec fn walk_views(v: Seq<WalkEntry>) -> Seq<WalkEntryView> {
    v.map_values(|e: WalkEntry| e@)
}

/// The paths of a list of walked entries.
pub open spec fn paths_of(v: Seq<WalkEntryView>) -> Seq<Seq<char>> {
    v.map_values(|e: WalkEntryView| e.path)
}

/// Entries that the walk reports as files: files that pass the filters.
pub open spec fn found_file(f: FinderView) -> spec_fn(WalkEntryView) -> bool {
    |e: WalkEntryView| !e.is_dir && allows(f, e) && includes(f, e)
}

/// Entries that the walk reports as directories: directories that pass the
/// filters and are to appear.
pub open spec fn found_dir(f: FinderView) -> spec_fn(WalkEntryView) -> bool {
    |e: WalkEntryView| e.is_dir && allows(f, e) && includes(f, e)
}

/// Whether `ext` is one of the extensions `exts`.
pub open spec fn ext_listed(exts: Seq<Seq<char>>, ext: Option<Seq<char>>) -> bool {
    exists|i: int| 0 <= i < exts.len() && ext == Some(#[trigger] exts[i])
}

/// Visible files whose extension is one of `exts`.
pub open spec fn visible_with_ext(exts: Seq<Seq<char>>) -> spec_fn(WalkEntryView) -> bool {
    |e: WalkEntryView| !e.is_dir && !is_hidden(e.name) && ext_listed(exts, e.extension)
}

impl Finder {
    /// The exclude pattern, if any, compiles.
    #[verifier::type_invariant]
    closed spec fn pattern_compiles(self) -> bool {
        self.exclude_pattern matches Some(p) ==> regex_error(p@) is None
    }

    /// Creates a new `Finder` that will search the given path, with no option set.
    pub fn new(path: &str) -> (r: Finder)
        ensures
            r@ == (FinderView {
                path: path@,
                skip_hidden_files: None,
                skip_hidden_dirs: None,
                skip_files: None,
                skip_dirs: None,
                exclude_pattern: None,
                extensions: None,
                max_depth: None,
            }),
    {
        Finder {
            path: path.to_owned(),
            skip_hidden_files: None,
            skip_hidden_dirs: None,
            skip_files: None,
            skip_dirs: None,
            exclude_pattern: None,
            extensions: None,
            max_depth: None,
        }
    }

    /// The path that the walk starts from.
    pub fn path(&self) -> (r: &str)
        ensures
            r@ == self@.path,
    {
        self.path.as_str()
    }

    /// The maximum depth of the walk, if one is set.
    pub fn max_depth(&self) -> (r: Option<usize>)
        ensures
            r == self@.max_depth,
    {
        self.max_depth
    }

    /// Skips hidden files and directories.
    pub fn skip_hidden(&mut self) -> (r: &mut Self)
        ensures
            r@ == (FinderView { skip_hidden_files: Some(true), skip_hidden_dirs: Some(true), ..old(self)@ }),
            *final(self) == *final(r),
    {
        proof {
            use_type_invariant(&*self);
        }
        self.skip_hidden_files = Some(true);
        self.skip_hidden_dirs = Some(true);
        self
    }

    /// Skips hidden files.
    pub fn skip_hidden_files(&mut self) -> (r: &mut Self)
        ensures
            r@ == (FinderView { skip_hidden_files: Some(true), ..old(self)@ }),
            *final(self) == *final(r),
    {
        proof {
            use_type_invariant(&*self);
        }
        self.skip_hidden_files = Some(true);
        self
    }

    /// Skips hidden directories.
    pub fn skip_hidden_dirs(&mut self) -> (r: &mut Self)
        ensures
            r@ == (FinderView { skip_hidden_dirs: Some(true), ..old(self)@ }),
            *final(self) == *final(r),
    {
        proof {
            use_type_invariant(&*self);
        }
        self.skip_hidden_dirs = Some(true);
        self
    }

    /// Skips files.
    pub fn skip_files(&mut self) -> (r: &mut Self)
        ensures
            r@ == (FinderView { skip_files: Some(true), ..old(self)@ }),
            *final(self) == *final(r),
    {
        proof {
            use_type_invariant(&*self);
        }
        self.skip_files = Some(true);
        self
    }

    /// Skips directories in the result (they are still walked).
    pub fn skip_dirs(&mut self) -> (r: &mut Self)
        ensures
            r@ == (FinderView { skip_dirs: Some(true), ..old(self)@ }),
            *final(self) == *final(r),
    {
        proof {
            use_type_invariant(&*self);
        }
        self.skip_dirs = Some(true);
        self
    }

    /// Excludes files whose path matches the regular expression `pattern`,
    /// which must compile.
    pub fn exclude_pattern(&mut self, pattern: &str) -> (r: &mut Self)
        requires
            regex_error(pattern@) is None,
        ensures
            r@ == (FinderView { exclude_pattern: Some(pattern@), ..old(self)@ }),
            *final(self) == *final(r),
    {
        proof {
            use_type_invariant(&*self);
        }
        self.exclude_pattern = Some(pattern.to_owned());
        self
    }

    /// Excludes files whose path matches the regular expression `pattern` if
    /// it compiles; otherwise fails with the `regex` crate's message and
    /// changes nothing.
    pub fn try_exclude_pattern(&mut self, pattern: &str) -> (r: Result<(), String>)
        ensures
            match regex_error(pattern@) {
                Some(m) => r matches Err(e) && e@ == m && final(self)@ == old(self)@,
                None => r is Ok && final(self)@ == (FinderView { exclude_pattern: Some(pattern@), ..old(self)@ }),
            },
    {
        match pattern_error(pattern) {
            Some(m) => Err(m),
            None => {
                self.exclude_pattern(pattern);
                Ok(())
            },
        }
    }

    /// Includes only files with one of the given extensions.
    pub fn extensions(&mut self, extensions: &[&str]) -> (r: &mut Self)
        ensures
            r@ == (FinderView {
                extensions: Some(extensions@.map_values(|e: &str| e@)),
                ..old(self)@
            }),
            *final(self) == *final(r),
    {
        proof {
            use_type_invariant(&*self);
        }
        let mut v: Vec<String> = Vec::new();
        let mut i: usize = 0;
        while i < extensions.len()
            invariant
                i <= extensions@.len(),
                v@.len() == i,
                texts_of(v@) == extensions@.subrange(0, i as int).map_values(|e: &str| e@),
            decreases extensions@.len() - i,
        {
            let ghost before = v@;
            v.push(extensions[i].to_owned());
            assert forall|k: int| 0 <= k < i + 1 implies #[trigger] texts_of(v@)[k] == extensions@.subrange(
                0,
                i + 1,
            ).map_values(|e: &str| e@)[k] by {
                if k < i {
                    assert(v@[k] == before[k]);
                    assert(texts_of(v@)[k] == texts_of(before)[k]);
                    assert(extensions@.subrange(0, i + 1)[k] == extensions@.subrange(0, i as int)[k]);
                }
            }
            assert(texts_of(v@) =~= extensions@.subrange(0, i + 1).map_values(|e: &str| e@));
            i = i + 1;
        }
        assert(extensions@.subrange(0, extensions@.len() as int) =~= extensions@);
        self.extensions = Some(v);
        self
    }

    /// Limits the maximum traversal depth from the root: `0` is only the root
    /// itself, `1` the root and its immediate children. Unset is unlimited.
    pub fn depth(&mut self, depth: usize) -> (r: &mut Self)
        ensures
            r@ == (FinderView { max_depth: Some(depth), ..old(self)@ }),
            *final(self) == *final(r),
    {
        proof {
            use_type_invariant(&*self);
        }
        self.max_depth = Some(depth);
        self
    }

    /// Whether the extension `ext` is one of the given extensions.
    fn extension_listed(exts: &Vec<String>, ext: &Option<String>) -> (r: bool)
        ensures
            r == (exists|i: int| 0 <= i < exts@.len() && opt_text(*ext) == Some(#[trigger] texts_of(exts@)[i])),
    {
        let e: &String = match ext {
            Some(e) => e,
            None => {
                return false;
            },
        };
        assert(opt_text(*ext) == Some(e@));
        let mut i: usize = 0;
        while i < exts.len()
            invariant
                i <= exts@.len(),
                opt_text(*ext) == Some(e@),
                forall|j: int| 0 <= j < i ==> exts@[j]@ != e@,
            decreases exts@.len() - i,
        {
            if str_eq(exts[i].as_str(), e.as_str()) {
                assert(texts_of(exts@)[i as int] == e@);
                return true;
            }
            i = i + 1;
        }
        assert forall|j: int| 0 <= j < exts@.len() implies opt_text(*ext) != Some(#[trigger] texts_of(exts@)[j]) by {
            assert(texts_of(exts@)[j] == exts@[j]@);
        }
        false
    }

    /// Whether a single entry passes the walk's filters: see [`allows`].
    pub fn is_allowed(&self, entry: &WalkEntry) -> (r: bool)
        ensures
            r == allows(self@, entry@),
    {
        proof {
            use_type_invariant(self);
        }
        let hidden: bool = entry.name.as_str().unicode_len() > 0 && entry.name.as_str().get_char(0) == '.';
        if entry.is_dir {
            return !(self.skip_hidden_dirs == Some(true) && hidden);
        }
        if self.skip_files == Some(true) {
            return false;
        }
        if self.skip_hidden_files == Some(true) && hidden {
            return false;
        }
        if let Some(p) = &self.exclude_pattern {
            if pattern_matches(p.as_str(), entry.path.as_str()) {
                return false;
            }
        }
        if let Some(exts) = &self.extensions {
            if !Finder::extension_listed(exts, &entry.extension) {
                return false;
            }
        }
        true
    }

    /// Whether an entry that passed the filters appears in the result: see
    /// [`includes`].
    pub fn include_in_result(&self, entry: &WalkEntry) -> (r: bool)
        ensures
            r == includes(self@, entry@),
    {
        !(entry.is_dir && self.skip_dirs == Some(true))
    }

    /// Records an entry that the walk reached in `result`: its path goes to
    /// the directories or the files, unless it is not to appear.
    pub fn record(&self, result: &mut FinderResult, entry: &WalkEntry)
        ensures
            includes(self@, entry@) && entry.is_dir ==> final(result).files@ == old(result).files@
                && texts_of(final(result).directories@) == texts_of(old(result).directories@).push(entry.path@),
            includes(self@, entry@) && !entry.is_dir ==> final(result).directories@ == old(result).directories@
                && texts_of(final(result).files@) == texts_of(old(result).files@).push(entry.path@),
            !includes(self@, entry@) ==> final(result).files@ == old(result).files@
                && final(result).directories@ == old(result).directories@,
    {
        if self.include_in_result(entry) {
            if entry.is_dir {
                result.add_dir(entry.path.as_str());
            } else {
                result.add_file(entry.path.as_str());
            }
        }
    }
}

impl Finder {
    /// The result of a walk that reached the entries `entries`, in order:
    /// the paths of the files, and of the directories, that pass the filters
    /// and are to appear.
    pub fn collect(&self, entries: &[WalkEntry]) -> (r: FinderResult)
        ensures
            texts_of(r.files@) == paths_of(walk_views(entries@).filter(found_file(self@))),
            texts_of(r.directories@) == paths_of(walk_views(entries@).filter(found_dir(self@))),
    {
        let ghost es = walk_views(entries@);
        let mut result: FinderResult = FinderResult::new();
        assert(texts_of(result.files@) =~= paths_of(es.take(0).filter(found_file(self@))));
        assert(texts_of(result.directories@) =~= paths_of(es.take(0).filter(found_dir(self@))));
        let n: usize = entries.len();
        let mut i: usize = 0;
        while i < n
            invariant
                n == entries@.len(),
                es == walk_views(entries@),
                i <= n,
                texts_of(result.files@) == paths_of(es.take(i as int).filter(found_file(self@))),
                texts_of(result.directories@) == paths_of(es.take(i as int).filter(found_dir(self@))),
            decreases n - i,
        {
            proof {
                lemma_filter_take_step(es, found_file(self@), i as int);
                lemma_filter_take_step(es, found_dir(self@), i as int);
            }
            let e: &WalkEntry = &entries[i];
            assert(es[i as int] == e@);
            let ghost files_before = es.take(i as int).filter(found_file(self@));
            let ghost dirs_before = es.take(i as int).filter(found_dir(self@));
            if self.is_allowed(e) {
                self.record(&mut result, e);
            }
            assert(paths_of(files_before.push(e@)) =~= paths_of(files_before).push(e@.path));
            assert(paths_of(dirs_before.push(e@)) =~= paths_of(dirs_before).push(e@.path));
            i = i + 1;
        }
        assert(es.take(n as int) =~= es);
        result
    }
}

/// The text of an optional string.
pub open spec fn opt_text(o: Option<String>) -> Option<Seq<char>> {
    match o {
        Some(s) => Some(s@),
        None => None,
    }
}

/// The files and directories that a walk found.
#[derive(Debug, Clone, PartialEq, Eq)]
pub struct FinderResult {
    pub files: Vec<String>,
    pub directories: Vec<String>,
}

impl FinderResult {
    /// An empty result.
    pub fn new() -> (r: FinderResult)
        ensures
            r.files@.len() == 0,
            r.directories@.len() == 0,
    {
        FinderResult { files: Vec::new(), directories: Vec::new() }
    }

    /// Appends a file path.
    pub fn add_file(&mut self, path: &str)
        ensures
            texts_of(final(self).files@) == texts_of(old(self).files@).push(path@),
            final(self).directories@ == old(self).directories@,
    {
        let ghost before = self.files@;
        self.files.push(path.to_owned());
        assert(texts_of(self.files@) =~= texts_of(before).push(path@));
    }

    /// Appends a directory path.
    pub fn add_dir(&mut self, path: &str)
        ensures
            texts_of(final(self).directories@) == texts_of(old(self).directories@).push(path@),
            final(self).files@ == old(self).files@,
    {
        let ghost before = self.directories@;
        self.directories.push(path.to_owned());
        assert(texts_of(self.directories@) =~= texts_of(before).push(path@));
    }

    /// The number of paths found, files and directories together.
    pub fn count(&self) -> (r: usize)
        requires
            self.files@.len() + self.directories@.len() <= usize::MAX,
        ensures
            r == self.files@.len() + self.directories@.len(),
    {
        self.files.len() + self.directories.len()
    }
}

impl Default for FinderResult {
    fn default() -> (r: FinderResult)
        ensures
            r.files@.len() == 0,
            r.directories@.len() == 0,
    {
        FinderResult::new()
    }
}

/// With hidden files skipped, no hidden file passes the filters.
pub proof fn law_skip_hidden_files_excludes_dotfiles(f: FinderView, e: WalkEntryView)
    requires
        f.skip_hidden_files == Some(true),
        !e.is_dir,
        allows(f, e),
    ensures
        !is_hidden(e.name),
{
}

/// With directories skipped, no directory appears in the result.
pub proof fn law_skip_dirs_excludes_directories(f: FinderView, e: WalkEntryView)
    requires
        f.skip_dirs == Some(true),
        e.is_dir,
    ensures
        !includes(f, e),
{
}

/// With an extension filter, every file that passes has one of the
/// extensions.
pub proof fn law_extension_filter_only_returns_matching(f: FinderView, e: WalkEntryView)
    requires
        f.extensions is Some,
        !e.is_dir,
        allows(f, e),
    ensures
        exists|i: int| 0 <= i < f.extensions->0.len() && e.extension == Some(#[trigger] f.extensions->0[i]),
{
}

/// With hidden entries skipped and an extension filter, and neither files
/// skipped nor an exclude pattern, every visible file with one of the
/// extensions passes and appears in the result.
pub proof fn law_extension_filter_keeps_visible_matches(f: FinderView, e: WalkEntryView, i: int)
    requires
        f.skip_files != Some(true),
        f.exclude_pattern is None,
        f.extensions is Some,
        0 <= i < f.extensions->0.len(),
        e.extension == Some(f.extensions->0[i]),
        !e.is_dir,
        !is_hidden(e.name),
    ensures
        allows(f, e),
        includes(f, e),
{
}

/// With an extension filter, every file of a walk's result has one of the
/// extensions: each path in the result is that of a walked file whose
/// extension is listed.
pub proof fn law_found_files_have_listed_extension(f: FinderView, es: Seq<WalkEntryView>, k: int)
    requires
        f.extensions is Some,
        0 <= k < paths_of(es.filter(found_file(f))).len(),
    ensures
        ({
            let e = es.filter(found_file(f))[k];
            &&& es.contains(e)
            &&& paths_of(es.filter(found_file(f)))[k] == e.path
            &&& !e.is_dir
            &&& ext_listed(f.extensions->0, e.extension)
        }),
{
    let fs = es.filter(found_file(f));
    es.lemma_filter_pred(found_file(f), k);
    assert(fs.contains(fs[k]));
    es.lemma_filter_contains_rev(found_file(f), fs[k]);
    law_extension_filter_only_returns_matching(f, fs[k]);
}

/// With hidden files skipped and an extension filter, and neither files
/// skipped nor an exclude pattern, the files of a walk's result are exactly
/// the visible walked files whose extension is listed, in walk order.
pub proof fn law_found_files_are_visible_matches(f: FinderView, es: Seq<WalkEntryView>)
    requires
        f.skip_hidden_files == Some(true),
        f.skip_files != Some(true),
        f.exclude_pattern is None,
        f.extensions is Some,
    ensures
        es.filter(found_file(f)) == es.filter(visible_with_ext(f.extensions->0)),
        paths_of(es.filter(found_file(f))) == paths_of(es.filter(visible_with_ext(f.extensions->0))),
{
    assert(found_file(f) =~= visible_with_ext(f.extensions->0));
}

} // verus!
