//! Decisions of the per-project coordinator: filesystem-safe filenames and
//! the subdirectory each entity type lives in.

use vstd::prelude::*;
use crate::domain::rachis::{Rachis, RachisType};
use crate::ids::NIL_ID;
use crate::io::content::{ext_of, FileType};
use crate::io::finder::{Finder, FinderView};
use crate::io::paths::{
    extension_of, file_stem_of, join_paths, path_extension, path_file_stem, path_join,
    path_strip_prefix, strip_prefix_of,
};
use crate::io::pattern::regex_error;
use crate::text::{
    eq_ignore_ascii_case, str_eq, str_eq_ignore_ascii_case, str_to_lowercase, to_lowercase,
    word_count,
    chars_of, is_whitespace, is_ws, join, lemma_join_extend_last, lemma_join_push, lemma_words_push,
    lemma_words_shape, push_char, words,
};

verus! {

/// Characters forbidden in filenames by common operating systems.
pub open spec fn is_forbidden(c: char) -> bool {
    c == '\\' || c == '/' || c == ':' || c == '*' || c == '?' || c == '"' || c == '<' || c == '>'
        || c == '|' || c == '\0'
}

/// `s` with every forbidden character replaced by a space.
pub open spec fn replace_forbidden(s: Seq<char>) -> Seq<char> {
    Seq::new(s.len(), |i: int| if is_forbidden(s[i]) { ' ' } else { s[i] })
}

/// The sanitised form of a title: forbidden characters become spaces, then
/// the words are joined by single spaces.
pub open spec fn sanitized(s: Seq<char>) -> Seq<char> {
    join(words(replace_forbidden(s)), seq![' '])
}

/// Ensures a filename does not contain characters forbidden by common
/// operating systems: `\ / : * ? " < > |` and NUL become spaces, and runs of
/// whitespace collapse to one space with none at either end.
pub fn sanitize(title: &str) -> (r: String)
    ensures
        r@ == sanitized(title@),
{
    let v: Vec<char> = chars_of(title);
    let n: usize = v.len();
    let ghost m = replace_forbidden(title@);
    let mut out: String = String::new();
    let mut in_word: bool = false;
    let mut i: usize = 0;
    while i < n
        invariant
            n == v@.len(),
            v@ == title@,
            m == replace_forbidden(title@),
            i <= n,
            out@ == join(words(m.subrange(0, i as int)), seq![' ']),
            out@.len() == 0 <==> words(m.subrange(0, i as int)).len() == 0,
            in_word == (i > 0 && !is_ws(m[i - 1])),
        decreases n - i,
    {
        let raw: char = v[i];
        let c: char = if raw == '\\' || raw == '/' || raw == ':' || raw == '*' || raw == '?' || raw
            == '"' || raw == '<' || raw == '>' || raw == '|' || raw == '\0' {
            ' '
        } else {
            raw
        };
        let ghost p = m.subrange(0, i as int);
        let ghost w = words(p);
        proof {
            assert(c == m[i as int]);
            assert(m.subrange(0, i + 1) =~= p.push(c));
            lemma_words_push(p, c);
            lemma_words_shape(p);
            if i > 0 {
                assert(p.last() == m[i - 1]);
            }
        }
        if is_whitespace(c) {
            in_word = false;
        } else if in_word {
            proof {
                lemma_join_extend_last(w, seq![' '], c);
            }
            push_char(&mut out, c);
        } else {
            proof {
                lemma_join_push(w, seq![' '], seq![c]);
            }
            if !out.as_str().is_empty() {
                push_char(&mut out, ' ');
            }
            push_char(&mut out, c);
            proof {
                if w.len() == 0 {
                    assert(out@ =~= seq![c]);
                } else {
                    assert(out@ =~= join(w, seq![' ']) + seq![' '] + seq![c]);
                }
            }
            in_word = true;
        }
        i = i + 1;
    }
    assert(m.subrange(0, n as int) =~= m);
    out
}

/// The subdirectory that files of each Rachis type live in: entity types
/// get a folder of their own, the others live at the root.
pub open spec fn subdir_of(t: RachisType) -> Seq<char> {
    match t {
        RachisType::CHARACTER => "Characters"@,
        RachisType::EVENT => "Events"@,
        RachisType::LOCATION => "Locations"@,
        RachisType::ITEM => "Items"@,
        RachisType::NOTE => "Notes"@,
        RachisType::ACT | RachisType::ARC | RachisType::SCENE | RachisType::DEFAULT => ""@,
    }
}

/// The subdirectory that files of the Rachis type `t` live in.
pub fn entity_subdir(t: RachisType) -> (r: &'static str)
    ensures
        r@ == subdir_of(t),
{
    match t {
        RachisType::CHARACTER => "Characters",
        RachisType::EVENT => "Events",
        RachisType::LOCATION => "Locations",
        RachisType::ITEM => "Items",
        RachisType::NOTE => "Notes",
        RachisType::ACT | RachisType::ARC | RachisType::SCENE | RachisType::DEFAULT => "",
    }
}

/// The file name that a new file titled `title` gets: the sanitised title,
/// a dot, and the type's extension.
pub open spec fn new_file_name(title: Seq<char>, file_type: FileType) -> Seq<char> {
    sanitized(title) + seq!['.'] + ext_of(file_type)
}

/// The path, relative to the Flight directory, of a new file titled `title`
/// of the file type `file_type` and the Rachis type `t`.
pub open spec fn new_file_path(title: Seq<char>, file_type: FileType, t: RachisType) -> Seq<char> {
    path_join(subdir_of(t), new_file_name(title, file_type))
}

/// The relative path that a new file gets: the type's subdirectory joined
/// with the sanitised title, a dot and the extension.
pub fn file_path_for(title: &str, file_type: FileType, t: RachisType) -> (r: String)
    ensures
        r@ == new_file_path(title@, file_type, t),
{
    let mut name: String = sanitize(title);
    push_char(&mut name, '.');
    name.append(file_type.as_ext());
    assert(name@ =~= new_file_name(title@, file_type));
    join_paths(entity_subdir(t), name.as_str())
}

/// What creating a file hands back: a Rachis with the new file's id, no
/// Flight yet (the nil id), the title, the type and the relative path, no
/// tags and no words counted.
pub fn created_rachis(file_id: u128, title: &str, t: RachisType, rel_path: String) -> (r: Rachis)
    ensures
        r@.id == file_id,
        r@.flight_id == NIL_ID,
        r@.title == title@,
        r@.rachis_type == t,
        r@.path == rel_path@,
        r@.tags.len() == 0,
        r@.word_count == 0,
{
    let tags: Vec<String> = Vec::new();
    assert(tags@.map_values(|s: String| s@) =~= Seq::<Seq<char>>::empty());
    Rachis::new(file_id, NIL_ID, title.to_owned(), t, rel_path, tags, 0)
}

/// The title that the index records for a file: its file stem, or
/// "untitled" if it has none.
pub open spec fn indexed_title(path: Seq<char>) -> Seq<char> {
    match path_file_stem(path) {
        Some(s) => s,
        None => "untitled"@,
    }
}

/// The title that the index records for the file at `path`.
pub fn file_title(path: &str) -> (r: String)
    ensures
        r@ == indexed_title(path@),
{
    match file_stem_of(path) {
        Some(s) => s,
        None => String::from_str("untitled"),
    }
}

/// Whether a scan counts the file at `path` as native: its lowercased
/// extension is exactly "rachis".
pub fn scanned_is_native(path: &str) -> (r: bool)
    ensures
        r == (str_to_lowercase(path_extension(path@)) == "rachis"@),
{
    let ext: String = extension_of(path);
    let lowered: String = to_lowercase(ext.as_str());
    str_eq(lowered.as_str(), "rachis")
}

/// Whether saving counts the file at `path` as native: its extension equals
/// "rachis" up to ASCII case.
pub fn saved_is_native(path: &str) -> (r: bool)
    ensures
        r == eq_ignore_ascii_case(path_extension(path@), "rachis"@),
{
    let ext: String = extension_of(path);
    str_eq_ignore_ascii_case(ext.as_str(), "rachis")
}

/// The word count that saving records: the number of whitespace-separated
/// words, cut to 32 bits as a cast does.
pub fn content_word_count(content: &str) -> (r: u32)
    ensures
        r == words(content@).len() as u32,
{
    let n: usize = word_count(content);
    #[verifier::truncate]
    (n as u32)
}

/// The path that the index stores for a file found at `path` under the
/// Flight directory `dir`: relative to `dir` if it lies under it, as found
/// otherwise.
pub fn relative_to(path: &str, dir: &str) -> (r: String)
    ensures
        r@ == match path_strip_prefix(path@, dir@) {
            Some(p) => p,
            None => path@,
        },
{
    match strip_prefix_of(path, dir) {
        Some(p) => p,
        None => path.to_owned(),
    }
}

/// The pattern of the files that a scan leaves out: the `.flight` database
/// and its write-ahead files.
pub open spec fn flight_file_pattern() -> Seq<char> {
    ".*.flight(?:-(wal|shm))?$"@
}

/// The walk that a scan of the Flight directory `dir` makes: hidden entries
/// skipped and the `.flight` files excluded. Fails, with the `regex` crate's
/// message, only if that pattern does not compile.
pub fn scan_finder(dir: &str) -> (r: Result<Finder, String>)
    ensures
        match regex_error(flight_file_pattern()) {
            Some(m) => r matches Err(e) && e@ == m,
            None => r matches Ok(f) && f@ == (FinderView {
                path: dir@,
                skip_hidden_files: Some(true),
                skip_hidden_dirs: Some(true),
                skip_files: None,
                skip_dirs: None,
                exclude_pattern: Some(flight_file_pattern()),
                extensions: None,
                max_depth: None,
            }),
        },
{
    let mut f: Finder = Finder::new(dir);
    f.skip_hidden();
    match f.try_exclude_pattern(".*.flight(?:-(wal|shm))?$") {
        Ok(()) => Ok(f),
        Err(m) => Err(m),
    }
}

/// The text is spaced like a sentence: no forbidden character, and every
/// whitespace character is a single space between two characters that are
/// not whitespace.
pub open spec fn well_spaced(r: Seq<char>) -> bool {
    forall|i: int|
        0 <= i < r.len() ==> !is_forbidden(#[trigger] r[i]) && (is_ws(r[i]) ==> r[i] == ' ' && 0 < i < r.len()
            - 1 && !is_ws(r[i - 1]) && !is_ws(r[i + 1]))
}

/// Every character of every word of `t` is a character of `t`: if none of
/// `t` is forbidden, none of its words' is.
proof fn lemma_words_not_forbidden(t: Seq<char>)
    requires
        forall|i: int| 0 <= i < t.len() ==> !is_forbidden(#[trigger] t[i]),
    ensures
        forall|k: int, j: int|
            0 <= k < words(t).len() && 0 <= j < words(t)[k].len() ==> !is_forbidden(#[trigger] words(t)[k][j]),
    decreases t.len(),
{
    if t.len() > 0 {
        let d = t.drop_last();
        assert forall|i: int| 0 <= i < d.len() implies !is_forbidden(#[trigger] d[i]) by {
            assert(d[i] == t[i]);
        }
        lemma_words_not_forbidden(d);
        assert(!is_forbidden(t[t.len() - 1]));
        let w = words(d);
        let c = t.last();
        assert forall|k: int, j: int|
            0 <= k < words(t).len() && 0 <= j < words(t)[k].len() implies !is_forbidden(
            #[trigger] words(t)[k][j],
        ) by {
            if is_ws(c) {
            } else if t.len() >= 2 && !is_ws(t[t.len() - 2]) && w.len() > 0 {
                if k == w.len() - 1 && j == w.last().len() {
                    assert(words(t)[k][j] == c);
                } else if k == w.len() - 1 {
                    assert(words(t)[k][j] == w[k][j]);
                } else {
                    assert(words(t)[k] == w[k]);
                }
            } else {
                if k == w.len() {
                    assert(words(t)[k] == seq![c]);
                } else {
                    assert(words(t)[k] == w[k]);
                }
            }
        }
    }
}

/// Joining non-empty words without whitespace or forbidden characters by
/// single spaces gives a well-spaced text.
proof fn lemma_join_well_spaced(ws: Seq<Seq<char>>)
    requires
        forall|k: int| 0 <= k < ws.len() ==> (#[trigger] ws[k]).len() > 0,
        forall|k: int, j: int|
            0 <= k < ws.len() && 0 <= j < ws[k].len() ==> !is_ws(#[trigger] ws[k][j]) && !is_forbidden(ws[k][j]),
    ensures
        well_spaced(join(ws, seq![' '])),
        ws.len() > 0 ==> join(ws, seq![' ']).len() > 0,
    decreases ws.len(),
{
    let r = join(ws, seq![' ']);
    if ws.len() == 1 {
        assert forall|i: int| 0 <= i < r.len() implies !is_forbidden(#[trigger] r[i]) && !is_ws(r[i]) by {
            assert(r[i] == ws[0][i]);
        }
    } else if ws.len() >= 2 {
        let d = ws.drop_last();
        assert forall|k: int| 0 <= k < d.len() implies (#[trigger] d[k]).len() > 0 by {
            assert(d[k] == ws[k]);
        }
        assert forall|k: int, j: int| 0 <= k < d.len() && 0 <= j < d[k].len() implies !is_ws(
            #[trigger] d[k][j],
        ) && !is_forbidden(d[k][j]) by {
            assert(d[k] == ws[k]);
        }
        lemma_join_well_spaced(d);
        let jd = join(d, seq![' ']);
        let w = ws.last();
        assert(w == ws[ws.len() - 1]);
        assert(w.len() > 0);
        assert(r == jd + seq![' '] + w);
        let n = jd.len() as int;
        assert forall|i: int| 0 <= i < r.len() implies !is_forbidden(#[trigger] r[i]) && (is_ws(r[i]) ==> r[i]
            == ' ' && 0 < i < r.len() - 1 && !is_ws(r[i - 1]) && !is_ws(r[i + 1])) by {
            if i < n {
                assert(r[i] == jd[i]);
                if is_ws(r[i]) {
                    assert(r[i - 1] == jd[i - 1]);
                    assert(r[i + 1] == jd[i + 1]);
                }
            } else if i == n {
                assert(r[i] == ' ');
                assert(r[i - 1] == jd[n - 1]);
                if is_ws(jd[n - 1]) {
                    assert(!is_ws(jd[n - 1]));
                }
                assert(r[i + 1] == w[0]);
                assert(!is_ws(ws[ws.len() - 1][0]));
            } else {
                assert(r[i] == w[i - n - 1]);
                assert(!is_ws(ws[ws.len() - 1][i - n - 1]));
            }
        }
    }
}

/// A sanitised title is well spaced: it holds no character that an operating
/// system forbids in a file name, no whitespace at either end, and no two
/// whitespace characters in a row, the only whitespace being plain spaces.
pub proof fn law_sanitized_is_safe(s: Seq<char>)
    ensures
        well_spaced(sanitized(s)),
{
    let t = replace_forbidden(s);
    assert forall|i: int| 0 <= i < t.len() implies !is_forbidden(#[trigger] t[i]) by {}
    lemma_words_not_forbidden(t);
    lemma_words_shape(t);
    lemma_join_well_spaced(words(t));
}

/// The words of a non-empty text without whitespace are that text alone.
proof fn lemma_words_of_word(w: Seq<char>)
    requires
        w.len() > 0,
        forall|j: int| 0 <= j < w.len() ==> !is_ws(#[trigger] w[j]),
    ensures
        words(w) == seq![w],
    decreases w.len(),
{
    let d = w.drop_last();
    assert(w =~= d.push(w.last()));
    lemma_words_push(d, w.last());
    if w.len() > 1 {
        assert forall|j: int| 0 <= j < d.len() implies !is_ws(#[trigger] d[j]) by {
            assert(d[j] == w[j]);
        }
        lemma_words_of_word(d);
        assert(!is_ws(d.last())) by {
            assert(d.last() == w[w.len() - 2]);
        }
        assert(seq![d].update(0, d.push(w.last())) =~= seq![w]);
    } else {
        assert(d =~= Seq::<char>::empty());
        assert(seq![w.last()] =~= w);
    }
}

/// After a space, a word without whitespace is one more word.
proof fn lemma_words_after_space(p: Seq<char>, w: Seq<char>, k: int)
    requires
        0 < k <= w.len(),
        forall|j: int| 0 <= j < w.len() ==> !is_ws(#[trigger] w[j]),
    ensures
        words(p + seq![' '] + w.take(k)) == words(p).push(w.take(k)),
    decreases k,
{
    let q = p + seq![' '];
    assert(q =~= p.push(' '));
    lemma_words_push(p, ' ');
    if k == 1 {
        assert(q + w.take(1) =~= q.push(w[0]));
        lemma_words_push(q, w[0]);
        assert(seq![w[0]] =~= w.take(1));
    } else {
        lemma_words_after_space(p, w, k - 1);
        let a = q + w.take(k - 1);
        assert(q + w.take(k) =~= a.push(w[k - 1]));
        lemma_words_push(a, w[k - 1]);
        assert(a.last() == w[k - 2]);
        let ws = words(p).push(w.take(k - 1));
        assert(w.take(k - 1).push(w[k - 1]) =~= w.take(k));
        assert(ws.update(ws.len() - 1, ws.last().push(w[k - 1])) =~= words(p).push(w.take(k)));
    }
}

/// Splitting words joined by single spaces gives the words back.
proof fn lemma_words_of_join(ws: Seq<Seq<char>>)
    requires
        forall|k: int| 0 <= k < ws.len() ==> (#[trigger] ws[k]).len() > 0,
        forall|k: int, j: int| 0 <= k < ws.len() && 0 <= j < ws[k].len() ==> !is_ws(#[trigger] ws[k][j]),
    ensures
        words(join(ws, seq![' '])) == ws,
    decreases ws.len(),
{
    if ws.len() == 1 {
        assert forall|j: int| 0 <= j < ws[0].len() implies !is_ws(#[trigger] ws[0][j]) by {}
        lemma_words_of_word(ws[0]);
        assert(seq![ws[0]] =~= ws);
    } else if ws.len() >= 2 {
        let d = ws.drop_last();
        assert forall|k: int| 0 <= k < d.len() implies (#[trigger] d[k]).len() > 0 by {
            assert(d[k] == ws[k]);
        }
        assert forall|k: int, j: int| 0 <= k < d.len() && 0 <= j < d[k].len() implies !is_ws(
            #[trigger] d[k][j],
        ) by {
            assert(d[k] == ws[k]);
        }
        lemma_words_of_join(d);
        let w = ws.last();
        assert(w == ws[ws.len() - 1]);
        assert forall|j: int| 0 <= j < w.len() implies !is_ws(#[trigger] w[j]) by {
            assert(!is_ws(ws[ws.len() - 1][j]));
        }
        lemma_words_after_space(join(d, seq![' ']), w, w.len() as int);
        assert(w.take(w.len() as int) =~= w);
        assert(d.push(w) =~= ws);
    } else {
        assert(ws =~= Seq::<Seq<char>>::empty());
    }
}

/// Sanitising a sanitised title changes nothing.
pub proof fn law_sanitize_idempotent(s: Seq<char>)
    ensures
        sanitized(sanitized(s)) == sanitized(s),
{
    let t = replace_forbidden(s);
    let r = sanitized(s);
    law_sanitized_is_safe(s);
    assert(replace_forbidden(r) =~= r);
    lemma_words_shape(t);
    lemma_words_of_join(words(t));
}

/// A text whose only whitespace is single spaces between other characters.
pub open spec fn singly_spaced(s: Seq<char>) -> bool {
    forall|i: int|
        0 <= i < s.len() && is_ws(#[trigger] s[i]) ==> s[i] == ' ' && 0 < i < s.len() - 1 && !is_ws(s[i - 1])
            && !is_ws(s[i + 1])
}

/// Joining the words of a singly spaced text gives the text back; on the way,
/// a prefix that ends in a space gives back all of it but the space.
proof fn lemma_join_words_prefix(s: Seq<char>, k: int)
    requires
        singly_spaced(s),
        0 <= k <= s.len(),
    ensures
        k == 0 || !is_ws(s[k - 1]) ==> join(words(s.take(k)), seq![' ']) == s.take(k),
        k > 0 && is_ws(s[k - 1]) ==> join(words(s.take(k)), seq![' ']) == s.take(k - 1) && words(s.take(k)).len()
            > 0,
    decreases k,
{
    if k > 0 {
        lemma_join_words_prefix(s, k - 1);
        let t = s.take(k - 1);
        let c = s[k - 1];
        assert(s.take(k) =~= t.push(c));
        lemma_words_push(t, c);
        lemma_words_shape(t);
        let w = words(t);
        if is_ws(c) {
            assert(k - 1 > 0 && !is_ws(s[k - 2]));
            assert(t.last() == s[k - 2]);
        } else if k - 1 == 0 {
            assert(t.len() == 0);
            assert(w.len() == 0);
            lemma_join_push(w, seq![' '], seq![c]);
            assert(s.take(k) =~= seq![c]);
        } else if !is_ws(s[k - 2]) {
            assert(t.last() == s[k - 2]);
            lemma_join_extend_last(w, seq![' '], c);
        } else {
            assert(t.last() == s[k - 2]);
            assert(s[k - 2] == ' ');
            lemma_join_push(w, seq![' '], seq![c]);
            assert(t =~= s.take(k - 2).push(' '));
            assert(s.take(k) =~= s.take(k - 2) + seq![' '] + seq![c]);
        }
    }
}

/// `sanitize` keeps every character other than `\ / : * ? " < > |` and NUL:
/// a title that holds none of them, and whose only whitespace is single
/// spaces between other characters, is its own sanitised form (an
/// apostrophe, a dot or a letter of any script is kept as it is).
pub proof fn law_sanitize_keeps_allowed_titles(s: Seq<char>)
    requires
        forall|i: int|
            0 <= i < s.len() ==> {
                let c = #[trigger] s[i];
                &&& c != '\\'
                &&& c != '/'
                &&& c != ':'
                &&& c != '*'
                &&& c != '?'
                &&& c != '"'
                &&& c != '<'
                &&& c != '>'
                &&& c != '|'
                &&& c != '\0'
            },
        singly_spaced(s),
    ensures
        sanitized(s) == s,
{
    assert(replace_forbidden(s) =~= s);
    lemma_join_words_prefix(s, s.len() as int);
    assert(s.take(s.len() as int) =~= s);
    if s.len() > 0 {
        assert(!is_ws(s[s.len() - 1]));
    }
}

} // verus!
