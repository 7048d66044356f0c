//! File types of a Flight and the service that reads and writes its files.
//! The service keeps the Flight directory; the reads and writes themselves
//! happen outside the library.

use vstd::prelude::*;
use crate::text::{ascii_lowercase, is_ascii_text, str_eq, str_to_lowercase, to_lowercase};

verus! {

/// Reads and writes the files of one Flight, relative to its directory.
#[derive(Debug)]
pub struct ContentService {
    flight_dir: String,
}

impl ContentService {
    /// Creates a new [`ContentService`] for the given Flight directory.
    pub fn new(flight_dir: &str) -> (r: ContentService)
        ensures
            r.flight_dir_spec() == flight_dir@,
    {
        ContentService { flight_dir: flight_dir.to_owned() }
    }

    /// The Flight directory that file paths are relative to.
    pub closed spec fn flight_dir_spec(&self) -> Seq<char> {
        self.flight_dir@
    }

    /// The Flight directory that file paths are relative to.
    pub fn flight_dir(&self) -> (r: &str)
        ensures
            r@ == self.flight_dir_spec(),
    {
        self.flight_dir.as_str()
    }
}

/// The kinds of file a Flight holds.
#[derive(Debug, Clone, Copy, PartialEq, Eq, Structural)]
pub enum FileType {
    Rachis,
    Markdown,
    Bbcode,
    Html,
    AsciiDoc,
    RichText,
}

/// The extension that files of each type are written with.
pub open spec fn ext_of(t: FileType) -> Seq<char> {
    match t {
        FileType::Rachis => "rachis"@,
        FileType::Markdown => "md"@,
        FileType::Bbcode => "bbcode"@,
        FileType::Html => "html"@,
        FileType::AsciiDoc => "adoc"@,
        FileType::RichText => "rtf"@,
    }
}

/// The file type of a lowercase extension, if it names one.
pub open spec fn type_of_ext(ext: Seq<char>) -> Option<FileType> {
    if ext == "rachis"@ {
        Some(FileType::Rachis)
    } else if ext == "md"@ {
        Some(FileType::Markdown)
    } else if ext == "bbcode"@ {
        Some(FileType::Bbcode)
    } else if ext == "html"@ {
        Some(FileType::Html)
    } else if ext == "adoc"@ || ext == "asciidoc"@ {
        Some(FileType::AsciiDoc)
    } else if ext == "rtf"@ {
        Some(FileType::RichText)
    } else {
        None
    }
}

/// The position of the last `.` in `s`, if it has one.
pub open spec fn last_dot(s: Seq<char>) -> Option<int>
    decreases s.len(),
{
    if s.len() == 0 {
        None
    } else if s.last() == '.' {
        Some(s.len() - 1)
    } else {
        last_dot(s.drop_last())
    }
}

/// The text after the last `.` of `title`, if it has one.
pub open spec fn title_ext(title: Seq<char>) -> Option<Seq<char>> {
    match last_dot(title) {
        Some(i) => Some(title.subrange(i + 1, title.len() as int)),
        None => None,
    }
}

/// `last_dot` is a `.`, and no `.` comes after it.
pub proof fn lemma_last_dot(s: Seq<char>)
    ensures
        match last_dot(s) {
            Some(i) => 0 <= i < s.len() && s[i] == '.' && forall|j: int| i < j < s.len() ==> s[j] != '.',
            None => forall|j: int| 0 <= j < s.len() ==> s[j] != '.',
        },
    decreases s.len(),
{
    if s.len() > 0 {
        lemma_last_dot(s.drop_last());
        if s.last() != '.' {
            match last_dot(s.drop_last()) {
                Some(i) => {
                    assert forall|j: int| i < j < s.len() implies s[j] != '.' by {
                        if j < s.len() - 1 {
                            assert(s[j] == s.drop_last()[j]);
                        }
                    }
                },
                None => {
                    assert forall|j: int| 0 <= j < s.len() implies s[j] != '.' by {
                        if j < s.len() - 1 {
                            assert(s[j] == s.drop_last()[j]);
                        }
                    }
                },
            }
        }
    }
}

impl FileType {
    /// Returns the file type of a title that may end with an extension: the
    /// text after its last `.`, if any, read as an extension.
    pub fn from_title(title: &str) -> (r: Option<FileType>)
        ensures
            match title_ext(title@) {
                Some(e) => r == type_of_ext(str_to_lowercase(e)),
                None => r is None,
            },
    {
        let n: usize = title.unicode_len();
        let mut i: usize = n;
        assert(title@.subrange(0, n as int) =~= title@);
        while i > 0
            invariant
                i <= n,
                n == title@.len(),
                last_dot(title@) == last_dot(title@.subrange(0, i as int)),
            decreases i,
        {
            assert(title@.subrange(0, i as int).drop_last() =~= title@.subrange(0, i - 1));
            if title.get_char(i - 1) == '.' {
                let rest: &str = title.substring_char(i, n);
                assert(title_ext(title@) == Some(rest@));
                return FileType::from_ext(rest);
            }
            i = i - 1;
        }
        assert(title@.subrange(0, 0) =~= Seq::<char>::empty());
        None
    }

    /// Returns the file type of an extension, in any case.
    pub fn from_ext(ext: &str) -> (r: Option<FileType>)
        ensures
            r == type_of_ext(str_to_lowercase(ext@)),
            is_ascii_text(ext@) ==> str_to_lowercase(ext@) == ascii_lowercase(ext@),
    {
        let lowered: String = to_lowercase(ext);
        let l: &str = lowered.as_str();
        if str_eq(l, "rachis") {
            Some(FileType::Rachis)
        } else if str_eq(l, "md") {
            Some(FileType::Markdown)
        } else if str_eq(l, "bbcode") {
            Some(FileType::Bbcode)
        } else if str_eq(l, "html") {
            Some(FileType::Html)
        } else if str_eq(l, "adoc") || str_eq(l, "asciidoc") {
            Some(FileType::AsciiDoc)
        } else if str_eq(l, "rtf") {
            Some(FileType::RichText)
        } else {
            None
        }
    }

    /// Returns the file extension for this file type.
    pub fn as_ext(&self) -> (r: &'static str)
        ensures
            r@ == ext_of(*self),
    {
        match self {
            FileType::Rachis => "rachis",
            FileType::Markdown => "md",
            FileType::Bbcode => "bbcode",
            FileType::Html => "html",
            FileType::AsciiDoc => "adoc",
            FileType::RichText => "rtf",
        }
    }
}

/// Reading a type back from its extension gives the type: every extension
/// is ASCII, and its lowercase form names that type.
pub proof fn law_ext_round_trip(t: FileType)
    ensures
        is_ascii_text(ext_of(t)),
        type_of_ext(ascii_lowercase(ext_of(t))) == Some(t),
{
    reveal_strlit("rachis");
    reveal_strlit("md");
    reveal_strlit("bbcode");
    reveal_strlit("html");
    reveal_strlit("adoc");
    reveal_strlit("asciidoc");
    reveal_strlit("rtf");
    let e = ext_of(t);
    assert(ascii_lowercase(e) =~= e);
    assert("bbcode"@[0] != "rachis"@[0]);
    assert("html"@[0] != "adoc"@[0]);
    assert("adoc"@.len() != "asciidoc"@.len());
}

/// A title made of any text, a `.` and a file type's extension has that
/// extension.
pub proof fn law_title_with_ext(base: Seq<char>, t: FileType)
    ensures
        title_ext(base + "."@ + ext_of(t)) == Some(ext_of(t)),
{
    reveal_strlit(".");
    reveal_strlit("rachis");
    reveal_strlit("md");
    reveal_strlit("bbcode");
    reveal_strlit("html");
    reveal_strlit("adoc");
    reveal_strlit("rtf");
    let e = ext_of(t);
    let s = base + "."@ + e;
    let k = base.len() as int;
    assert(s[k] == '.');
    assert forall|j: int| k < j < s.len() implies s[j] != '.' by {
        assert(s[j] == e[j - k - 1]);
    }
    lemma_last_dot(s);
    assert(s.subrange(k + 1, s.len() as int) =~= e);
}

} // verus!
