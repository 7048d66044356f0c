//! Tags embedded in Rachis text, such as `c!Mane 6/Twilight Sparkle~2|Twilight!`.
//!
//! A tag is a prefix character, a `!`, a body, and a closing unescaped `!`.
//! Inside the body, `\` escapes the next character, `~` starts an index
//! (decimal digits), `|` starts display text, `.` and `:` set the lock level,
//! and `/` closes a folder segment.

use vstd::prelude::*;
use crate::text::{chars_of, decimal, join, lemma_join_push, push_char, push_decimal};

verus! {

/// A parsed tag from Rachis text.
#[derive(Debug, Clone, PartialEq, Eq)]
pub struct Tag {
    /// The beginning character of the tag.
    pub prefix: char,
    /// The raw content of the entire tag.
    pub raw: String,
    /// The content between the delimiters.
    pub content: String,
    /// The directory to the Rachis.
    pub folder_path: Vec<String>,
    /// The display text for the Rachis.
    pub display_text: String,
    /// The index of the Rachis.
    pub index: String,
    /// The lock status of the Rachis.
    /// 0 - unrestricted (any Rachis can have this same name)
    /// 1 - local restriction (any Rachis of the same type as this must have a different name)
    /// 2 - global restriction (no other Rachises can have this name)
    pub lock: u8,
}

/// The mathematical value of a [`Tag`].
pub struct TagView {
    pub prefix: char,
    pub raw: Seq<char>,
    pub content: Seq<char>,
    pub folder_path: Seq<Seq<char>>,
    pub display_text: Seq<char>,
    pub index: Seq<char>,
    pub lock: u8,
}

/// The texts of a list of strings.
pub open spec fn texts(v: Seq<String>) -> Seq<Seq<char>> {
    v.map_values(|x: String| x@)
}

impl View for Tag {
    type V = TagView;

    open spec fn view(&self) -> TagView {
        TagView {
            prefix: self.prefix,
            raw: self.raw@,
            content: self.content@,
            folder_path: texts(self.folder_path@),
            display_text: self.display_text@,
            index: self.index@,
            lock: self.lock,
        }
    }
}

/// The state of the tag scanner between two characters of the body.
pub struct TagScan {
    pub content: Seq<char>,
    pub escaped: bool,
    pub is_index: bool,
    pub is_display_text: bool,
    pub folder_path: Seq<Seq<char>>,
    pub index: Seq<char>,
    pub display_text: Seq<char>,
    pub lock: u8,
}

/// The scanner state before the first body character.
pub open spec fn scan_start() -> TagScan {
    TagScan {
        content: Seq::empty(),
        escaped: false,
        is_index: false,
        is_display_text: false,
        folder_path: Seq::empty(),
        index: Seq::empty(),
        display_text: Seq::empty(),
        lock: 0,
    }
}

/// The characters with a meaning inside a tag body.
pub open spec fn is_modifier(c: char) -> bool {
    c == '!' || c == '~' || c == '|' || c == '.' || c == ':' || c == '/'
}

/// ASCII decimal digit.
pub open spec fn is_digit(c: char) -> bool {
    '0' <= c && c <= '9'
}

/// Whether `c` closes the tag in state `st`: an unescaped `!`.
pub open spec fn closes(st: TagScan, c: char) -> bool {
    !st.escaped && c == '!'
}

/// The scanner state after reading `c` (which does not close the tag).
pub open spec fn scan_char(st: TagScan, c: char) -> TagScan {
    if st.escaped {
        if st.is_display_text {
            TagScan { display_text: st.display_text.push(c), escaped: false, ..st }
        } else if st.is_index && is_digit(c) {
            TagScan { index: st.index.push(c), escaped: false, ..st }
        } else {
            TagScan { content: st.content.push(c), escaped: false, ..st }
        }
    } else if c == '\\' {
        TagScan { escaped: true, ..st }
    } else if c == '~' {
        TagScan { is_index: true, ..st }
    } else if c == '|' {
        TagScan { is_display_text: true, ..st }
    } else if c == '.' {
        TagScan { lock: 1, ..st }
    } else if c == ':' {
        TagScan { lock: 2, ..st }
    } else if c == '/' {
        TagScan { folder_path: st.folder_path.push(st.content), content: Seq::empty(), ..st }
    } else {
        let in_index = st.is_index && is_digit(c);
        let in_display = st.is_display_text && !is_modifier(c);
        TagScan {
            index: if in_index {
                st.index.push(c)
            } else {
                st.index
            },
            is_index: in_index,
            display_text: if in_display {
                st.display_text.push(c)
            } else {
                st.display_text
            },
            is_display_text: in_display,
            content: if !in_index && !in_display {
                st.content.push(c)
            } else {
                st.content
            },
            ..st
        }
    }
}

/// Scans `cs` from state `st`: the state at the first closing `!`, or `None`
/// when the text ends before one.
pub open spec fn scan(st: TagScan, cs: Seq<char>) -> Option<TagScan>
    decreases cs.len(),
{
    if cs.len() == 0 {
        None
    } else if closes(st, cs[0]) {
        Some(st)
    } else {
        scan(scan_char(st, cs[0]), cs.drop_first())
    }
}

/// The tag that a text denotes, if any: the first character is the prefix,
/// the second must be `!`, and the body runs to the first unescaped `!`; a tag
/// whose content is empty at that point is no tag.
pub open spec fn parse_tag(s: Seq<char>) -> Option<TagView> {
    if s.len() < 2 || s[1] != '!' {
        None
    } else {
        match scan(scan_start(), s.skip(2)) {
            None => None,
            Some(st) => if st.content.len() == 0 {
                None
            } else {
                Some(
                    TagView {
                        prefix: s[0],
                        raw: s,
                        content: st.content,
                        folder_path: st.folder_path,
                        display_text: st.display_text,
                        index: st.index,
                        lock: st.lock,
                    },
                )
            },
        }
    }
}

/// A text of fewer than four characters denotes no tag.
pub proof fn lemma_short_text_no_tag(s: Seq<char>)
    requires
        s.len() < 4,
    ensures
        parse_tag(s) is None,
{
    if s.len() >= 2 && s[1] == '!' {
        let b = s.skip(2);
        if b.len() > 0 {
            if !closes(scan_start(), b[0]) {
                assert(b.drop_first().len() == 0);
                assert(scan(scan_char(scan_start(), b[0]), b.drop_first()) is None);
            }
        }
    }
}

/// Scanner states whose lock is a known level and whose index is decimal digits.
pub open spec fn scan_sound(st: TagScan) -> bool {
    st.lock <= 2 && forall|k: int| 0 <= k < st.index.len() ==> is_digit(#[trigger] st.index[k])
}

proof fn lemma_scan_sound(st: TagScan, cs: Seq<char>)
    requires
        scan_sound(st),
    ensures
        scan(st, cs) matches Some(end) ==> scan_sound(end),
    decreases cs.len(),
{
    if cs.len() > 0 && !closes(st, cs[0]) {
        let next = scan_char(st, cs[0]);
        assert(scan_sound(next)) by {
            if next.index.len() > st.index.len() {
                assert(next.index == st.index.push(cs[0]));
                assert forall|k: int| 0 <= k < next.index.len() implies is_digit(
                    #[trigger] next.index[k],
                ) by {
                    if k < st.index.len() {
                        assert(next.index[k] == st.index[k]);
                    }
                }
            } else {
                assert(next.index == st.index);
            }
        }
        lemma_scan_sound(next, cs.drop_first());
    }
}

/// Every tag keeps its whole source text as `raw`, its first character as
/// prefix, a non-empty content, a lock level of 0, 1 or 2, and an index made
/// of decimal digits only.
pub proof fn law_parsed_tag_shape(s: Seq<char>)
    ensures
        parse_tag(s) matches Some(t) ==> {
            &&& t.raw == s
            &&& s.len() >= 4
            &&& t.prefix == s[0]
            &&& s[1] == '!'
            &&& t.content.len() > 0
            &&& t.lock <= 2
            &&& forall|k: int| 0 <= k < t.index.len() ==> is_digit(#[trigger] t.index[k])
        },
{
    if s.len() < 4 {
        lemma_short_text_no_tag(s);
    }
    if s.len() >= 2 && s[1] == '!' {
        lemma_scan_sound(scan_start(), s.skip(2));
    }
}

/// A character that is plain text inside a tag body.
pub open spec fn is_plain(c: char) -> bool {
    !is_modifier(c) && c != '\\'
}

/// A scanner in its plain state appends plain text to the content.
proof fn lemma_scan_plain(st: TagScan, w: Seq<char>, tail: Seq<char>)
    requires
        !st.escaped,
        !st.is_index,
        !st.is_display_text,
        forall|k: int| 0 <= k < w.len() ==> is_plain(#[trigger] w[k]),
    ensures
        scan(st, w + tail) == scan(TagScan { content: st.content + w, ..st }, tail),
    decreases w.len(),
{
    if w.len() == 0 {
        assert(w + tail =~= tail);
        assert(st.content + w =~= st.content);
    } else {
        let c = w[0];
        assert((w + tail)[0] == c);
        assert((w + tail).drop_first() =~= w.drop_first() + tail);
        let next = scan_char(st, c);
        assert(next == TagScan { content: st.content.push(c), ..st });
        lemma_scan_plain(next, w.drop_first(), tail);
        assert(st.content.push(c) + w.drop_first() =~= st.content + w);
    }
}

/// A tag whose body is plain text has that text as its content, and no
/// folder path, index, display text or lock.
pub proof fn law_plain_tag(p: char, w: Seq<char>)
    requires
        w.len() > 0,
        forall|k: int| 0 <= k < w.len() ==> is_plain(#[trigger] w[k]),
    ensures
        parse_tag(seq![p, '!'] + w + seq!['!']) == Some(
            TagView {
                prefix: p,
                raw: seq![p, '!'] + w + seq!['!'],
                content: w,
                folder_path: Seq::empty(),
                display_text: Seq::empty(),
                index: Seq::empty(),
                lock: 0,
            },
        ),
{
    let s = seq![p, '!'] + w + seq!['!'];
    assert(s.skip(2) =~= w + seq!['!']);
    lemma_scan_plain(scan_start(), w, seq!['!']);
    assert(Seq::<char>::empty() + w =~= w);
    let st = TagScan { content: w, ..scan_start() };
    assert(scan(st, seq!['!']) == Some(st));
}

/// A `/` files the text before it as a folder segment: a tag with plain
/// segments `a` and `b` around one `/` has folder path `[a]` and content `b`.
pub proof fn law_folder_segment(p: char, a: Seq<char>, b: Seq<char>)
    requires
        b.len() > 0,
        forall|k: int| 0 <= k < a.len() ==> is_plain(#[trigger] a[k]),
        forall|k: int| 0 <= k < b.len() ==> is_plain(#[trigger] b[k]),
    ensures
        parse_tag(seq![p, '!'] + a + seq!['/'] + b + seq!['!']) == Some(
            TagView {
                prefix: p,
                raw: seq![p, '!'] + a + seq!['/'] + b + seq!['!'],
                content: b,
                folder_path: seq![a],
                display_text: Seq::empty(),
                index: Seq::empty(),
                lock: 0,
            },
        ),
{
    let s = seq![p, '!'] + a + seq!['/'] + b + seq!['!'];
    let tail = seq!['/'] + b + seq!['!'];
    assert(s.skip(2) =~= a + tail);
    lemma_scan_plain(scan_start(), a, tail);
    assert(Seq::<char>::empty() + a =~= a);
    let st1 = TagScan { content: a, ..scan_start() };
    assert(tail[0] == '/');
    assert(tail.drop_first() =~= b + seq!['!']);
    let st2 = scan_char(st1, '/');
    assert(st2 == TagScan { folder_path: seq![a], content: Seq::empty(), ..scan_start() }) by {
        assert(Seq::<Seq<char>>::empty().push(a) =~= seq![a]);
    }
    lemma_scan_plain(st2, b, seq!['!']);
    assert(Seq::<char>::empty() + b =~= b);
    let st3 = TagScan { content: b, ..st2 };
    assert(scan(st3, seq!['!']) == Some(st3));
}

/// An index follows `~`: a tag `p!w~d!` with plain `w` and decimal digits
/// `d` has content `w` and index `d`.
pub proof fn law_tag_index(p: char, w: Seq<char>, d: Seq<char>)
    requires
        w.len() > 0,
        forall|k: int| 0 <= k < w.len() ==> is_plain(#[trigger] w[k]),
        forall|k: int| 0 <= k < d.len() ==> is_digit(#[trigger] d[k]),
    ensures
        parse_tag(seq![p, '!'] + w + seq!['~'] + d + seq!['!']) == Some(
            TagView {
                prefix: p,
                raw: seq![p, '!'] + w + seq!['~'] + d + seq!['!'],
                content: w,
                folder_path: Seq::empty(),
                display_text: Seq::empty(),
                index: d,
                lock: 0,
            },
        ),
{
    let s = seq![p, '!'] + w + seq!['~'] + d + seq!['!'];
    let tail = seq!['~'] + d + seq!['!'];
    assert(s.skip(2) =~= w + tail);
    lemma_scan_plain(scan_start(), w, tail);
    assert(Seq::<char>::empty() + w =~= w);
    let st1 = TagScan { content: w, ..scan_start() };
    assert(tail[0] == '~');
    assert(tail.drop_first() =~= d + seq!['!']);
    let st2 = TagScan { is_index: true, ..st1 };
    assert(scan_char(st1, '~') == st2);
    lemma_scan_digits(st2, d, seq!['!']);
    assert(Seq::<char>::empty() + d =~= d);
    let st3 = TagScan { index: d, ..st2 };
    assert(scan(st3, seq!['!']) == Some(st3));
}

/// While reading an index, digits are appended to it.
proof fn lemma_scan_digits(st: TagScan, d: Seq<char>, tail: Seq<char>)
    requires
        !st.escaped,
        st.is_index,
        !st.is_display_text,
        forall|k: int| 0 <= k < d.len() ==> is_digit(#[trigger] d[k]),
    ensures
        scan(st, d + tail) == scan(TagScan { index: st.index + d, ..st }, tail),
    decreases d.len(),
{
    if d.len() == 0 {
        assert(d + tail =~= tail);
        assert(st.index + d =~= st.index);
    } else {
        let c = d[0];
        assert((d + tail)[0] == c);
        assert((d + tail).drop_first() =~= d.drop_first() + tail);
        let next = scan_char(st, c);
        assert(next == TagScan { index: st.index.push(c), ..st });
        lemma_scan_digits(next, d.drop_first(), tail);
        assert(st.index.push(c) + d.drop_first() =~= st.index + d);
    }
}

/// While reading display text, plain characters are appended to it.
proof fn lemma_scan_display(st: TagScan, t: Seq<char>, tail: Seq<char>)
    requires
        !st.escaped,
        !st.is_index,
        st.is_display_text,
        forall|k: int| 0 <= k < t.len() ==> is_plain(#[trigger] t[k]),
    ensures
        scan(st, t + tail) == scan(TagScan { display_text: st.display_text + t, ..st }, tail),
    decreases t.len(),
{
    if t.len() == 0 {
        assert(t + tail =~= tail);
        assert(st.display_text + t =~= st.display_text);
    } else {
        let c = t[0];
        assert((t + tail)[0] == c);
        assert((t + tail).drop_first() =~= t.drop_first() + tail);
        let next = scan_char(st, c);
        assert(next == TagScan { display_text: st.display_text.push(c), ..st });
        lemma_scan_display(next, t.drop_first(), tail);
        assert(st.display_text.push(c) + t.drop_first() =~= st.display_text + t);
    }
}

/// Display text follows `|`: a tag `p!w|t!` with plain `w` and `t` has
/// content `w` and display text `t`.
pub proof fn law_display_text(p: char, w: Seq<char>, t: Seq<char>)
    requires
        w.len() > 0,
        forall|k: int| 0 <= k < w.len() ==> is_plain(#[trigger] w[k]),
        forall|k: int| 0 <= k < t.len() ==> is_plain(#[trigger] t[k]),
    ensures
        parse_tag(seq![p, '!'] + w + seq!['|'] + t + seq!['!']) == Some(
            TagView {
                prefix: p,
                raw: seq![p, '!'] + w + seq!['|'] + t + seq!['!'],
                content: w,
                folder_path: Seq::empty(),
                display_text: t,
                index: Seq::empty(),
                lock: 0,
            },
        ),
{
    let s = seq![p, '!'] + w + seq!['|'] + t + seq!['!'];
    let tail = seq!['|'] + t + seq!['!'];
    assert(s.skip(2) =~= w + tail);
    lemma_scan_plain(scan_start(), w, tail);
    assert(Seq::<char>::empty() + w =~= w);
    let st1 = TagScan { content: w, ..scan_start() };
    assert(tail[0] == '|');
    assert(tail.drop_first() =~= t + seq!['!']);
    let st2 = TagScan { is_display_text: true, ..st1 };
    assert(scan_char(st1, '|') == st2);
    lemma_scan_display(st2, t, seq!['!']);
    assert(Seq::<char>::empty() + t =~= t);
    let st3 = TagScan { display_text: t, ..st2 };
    assert(scan(st3, seq!['!']) == Some(st3));
}

/// The lock level of a lock marker: `.` is a local lock, `:` a global one.
pub open spec fn lock_of(m: char) -> u8 {
    if m == '.' {
        1
    } else {
        2
    }
}

/// A lock marker sets the lock level: a tag `p!w.!` or `p!w:!` with plain
/// `w` has content `w` and lock 1 or 2.
pub proof fn law_tag_lock(p: char, w: Seq<char>, m: char)
    requires
        w.len() > 0,
        forall|k: int| 0 <= k < w.len() ==> is_plain(#[trigger] w[k]),
        m == '.' || m == ':',
    ensures
        parse_tag(seq![p, '!'] + w + seq![m, '!']) == Some(
            TagView {
                prefix: p,
                raw: seq![p, '!'] + w + seq![m, '!'],
                content: w,
                folder_path: Seq::empty(),
                display_text: Seq::empty(),
                index: Seq::empty(),
                lock: lock_of(m),
            },
        ),
{
    let s = seq![p, '!'] + w + seq![m, '!'];
    let tail = seq![m, '!'];
    assert(s.skip(2) =~= w + tail);
    lemma_scan_plain(scan_start(), w, tail);
    assert(Seq::<char>::empty() + w =~= w);
    let st1 = TagScan { content: w, ..scan_start() };
    assert(tail.drop_first() =~= seq!['!']);
    let st2 = TagScan { lock: lock_of(m), ..st1 };
    assert(scan_char(st1, m) == st2);
    assert(scan(st2, seq!['!']) == Some(st2));
}

/// An unescaped lock marker sets the lock and nothing else, whatever the
/// scanner is reading: `.` gives lock 1 and `:` lock 2, and the content, the
/// folder path, the index and the display text are left as they were.
pub proof fn law_lock_marker_in_any_state(st: TagScan, m: char)
    requires
        !st.escaped,
        m == '.' || m == ':',
    ensures
        !closes(st, m),
        scan_char(st, m).lock == lock_of(m),
        scan_char(st, m).content == st.content,
        scan_char(st, m).folder_path == st.folder_path,
        scan_char(st, m).index == st.index,
        scan_char(st, m).display_text == st.display_text,
        !scan_char(st, m).escaped,
{
}

/// A lock marker after an index: a tag `p!w~d.!` or `p!w~d:!` with plain `w`
/// and decimal digits `d` has content `w`, index `d` and lock 1 or 2.
pub proof fn law_index_then_lock(p: char, w: Seq<char>, d: Seq<char>, m: char)
    requires
        w.len() > 0,
        forall|k: int| 0 <= k < w.len() ==> is_plain(#[trigger] w[k]),
        forall|k: int| 0 <= k < d.len() ==> is_digit(#[trigger] d[k]),
        m == '.' || m == ':',
    ensures
        parse_tag(seq![p, '!'] + w + seq!['~'] + d + seq![m, '!']) == Some(
            TagView {
                prefix: p,
                raw: seq![p, '!'] + w + seq!['~'] + d + seq![m, '!'],
                content: w,
                folder_path: Seq::empty(),
                display_text: Seq::empty(),
                index: d,
                lock: lock_of(m),
            },
        ),
{
    let s = seq![p, '!'] + w + seq!['~'] + d + seq![m, '!'];
    let tail = seq!['~'] + d + seq![m, '!'];
    assert(s.skip(2) =~= w + tail);
    lemma_scan_plain(scan_start(), w, tail);
    assert(Seq::<char>::empty() + w =~= w);
    let st1 = TagScan { content: w, ..scan_start() };
    assert(tail[0] == '~');
    assert(tail.drop_first() =~= d + seq![m, '!']);
    let st2 = TagScan { is_index: true, ..st1 };
    assert(scan_char(st1, '~') == st2);
    lemma_scan_digits(st2, d, seq![m, '!']);
    assert(Seq::<char>::empty() + d =~= d);
    let st3 = TagScan { index: d, ..st2 };
    assert(seq![m, '!'].drop_first() =~= seq!['!']);
    let st4 = TagScan { lock: lock_of(m), ..st3 };
    assert(scan_char(st3, m) == st4);
    assert(scan(st4, seq!['!']) == Some(st4));
}

/// An escaped `!` does not close the tag: a tag `p!a\!b!` with plain `a`
/// and `b` has the content `a!b`.
pub proof fn law_escaped_bang(p: char, a: Seq<char>, b: Seq<char>)
    requires
        forall|k: int| 0 <= k < a.len() ==> is_plain(#[trigger] a[k]),
        forall|k: int| 0 <= k < b.len() ==> is_plain(#[trigger] b[k]),
    ensures
        parse_tag(seq![p, '!'] + a + seq!['\\', '!'] + b + seq!['!']) == Some(
            TagView {
                prefix: p,
                raw: seq![p, '!'] + a + seq!['\\', '!'] + b + seq!['!'],
                content: a + seq!['!'] + b,
                folder_path: Seq::empty(),
                display_text: Seq::empty(),
                index: Seq::empty(),
                lock: 0,
            },
        ),
{
    let s = seq![p, '!'] + a + seq!['\\', '!'] + b + seq!['!'];
    let tail = seq!['\\', '!'] + b + seq!['!'];
    assert(s.skip(2) =~= a + tail);
    lemma_scan_plain(scan_start(), a, tail);
    assert(Seq::<char>::empty() + a =~= a);
    let st1 = TagScan { content: a, ..scan_start() };
    assert(tail[0] == '\\');
    let tail2 = tail.drop_first();
    assert(tail2 =~= seq!['!'] + b + seq!['!']);
    let st2 = TagScan { escaped: true, ..st1 };
    assert(scan_char(st1, '\\') == st2);
    assert(!closes(st1, tail[0]));
    assert(scan(st1, tail) == scan(st2, tail2));
    assert(!closes(st2, tail2[0]));
    let st3 = TagScan { content: a.push('!'), ..st1 };
    assert(scan_char(st2, '!') == st3);
    assert(tail2.drop_first() =~= b + seq!['!']);
    assert(scan(st2, tail2) == scan(st3, b + seq!['!']));
    lemma_scan_plain(st3, b, seq!['!']);
    let st4 = TagScan { content: a.push('!') + b, ..st3 };
    assert(scan(st4, seq!['!']) == Some(st4));
    assert(a.push('!') + b =~= a + seq!['!'] + b);
    assert((a + seq!['!'] + b)[a.len() as int] == '!');
}

/// The text that describes a tag: each field on a line of its own, the
/// folder path joined by `/-/`, the lock as a decimal number.
pub open spec fn tag_text(t: TagView) -> Seq<char> {
    "Prefix: "@ + seq![t.prefix] + "\nContent: "@ + t.content + "\nRaw: "@ + t.raw + "\nFolder Path: "@
        + join(t.folder_path, "/-/"@) + "\nIndex: "@ + t.index + "\nDisplay Text: "@ + t.display_text
        + "\nLock status: "@ + decimal(t.lock as nat)
}

impl Tag {
    /// The text that describes this tag (see [`tag_text`]).
    pub fn to_string(&self) -> (r: String)
        ensures
            r@ == tag_text(self@),
    {
        let mut r: String = String::from_str("Prefix: ");
        push_char(&mut r, self.prefix);
        r.append("\nContent: ");
        r.append(self.content.as_str());
        r.append("\nRaw: ");
        r.append(self.raw.as_str());
        r.append("\nFolder Path: ");
        let ghost head = r@;
        let ghost fp = texts(self.folder_path@);
        let mut i: usize = 0;
        while i < self.folder_path.len()
            invariant
                i <= self.folder_path@.len(),
                fp == texts(self.folder_path@),
                r@ == head + join(fp.subrange(0, i as int), "/-/"@),
            decreases self.folder_path@.len() - i,
        {
            proof {
                lemma_join_push(fp.subrange(0, i as int), "/-/"@, fp[i as int]);
                assert(fp.subrange(0, i + 1) =~= fp.subrange(0, i as int).push(fp[i as int]));
            }
            if i > 0 {
                r.append("/-/");
            }
            r.append(self.folder_path[i].as_str());
            i = i + 1;
        }
        assert(fp.subrange(0, fp.len() as int) =~= fp);
        r.append("\nIndex: ");
        r.append(self.index.as_str());
        r.append("\nDisplay Text: ");
        r.append(self.display_text.as_str());
        r.append("\nLock status: ");
        push_decimal(&mut r, self.lock as usize);
        r
    }

    /// Validates the prefix of a tag: it must be one of `c`, `e`, `l`, `i`, `n`.
    pub fn validate_prefix(&self) -> (r: Result<(), String>)
        ensures
            r is Ok <==> (self.prefix == 'c' || self.prefix == 'e' || self.prefix == 'l'
                || self.prefix == 'i' || self.prefix == 'n'),
            r matches Err(m) ==> m@ == "Prefix must be one of 'c', 'e', 'l', 'i', or 'n'!"@,
    {
        match self.prefix {
            'c' | 'e' | 'l' | 'i' | 'n' => Ok(()),
            _ => Err(String::from_str("Prefix must be one of 'c', 'e', 'l', 'i', or 'n'!")),
        }
    }

    /// Parses a tag; `None` when the text is not one.
    pub fn parse(s: &str) -> (r: Option<Tag>)
        ensures
            match r {
                None => parse_tag(s@) is None,
                Some(t) => parse_tag(s@) == Some(t@),
            },
    {
        let v: Vec<char> = chars_of(s);
        // All tags are at least four characters long: prefix, two delimiters and content.
        if v.len() < 4 {
            proof {
                lemma_short_text_no_tag(s@);
            }
            return None;
        }
        let prefix: char = v[0];
        if v[1] != '!' {
            return None;
        }
        let mut content: String = String::new();
        let mut escaped: bool = false;
        let mut is_index: bool = false;
        let mut is_display_text: bool = false;
        let mut folder_path: Vec<String> = Vec::new();
        let mut index: String = String::new();
        let mut display_text: String = String::new();
        let mut lock: u8 = 0;
        let n: usize = v.len();
        let mut i: usize = 2;
        assert(texts(folder_path@) =~= Seq::<Seq<char>>::empty());
        while i < n
            invariant
                n == v@.len(),
                v@ == s@,
                2 <= i <= n,
                s@[1] == '!',
                prefix == s@[0],
                scan(scan_start(), s@.skip(2)) == scan(
                    TagScan {
                        content: content@,
                        escaped,
                        is_index,
                        is_display_text,
                        folder_path: texts(folder_path@),
                        index: index@,
                        display_text: display_text@,
                        lock,
                    },
                    s@.skip(i as int),
                ),
            decreases n - i,
        {
            let c: char = v[i];
            let ghost st = TagScan {
                content: content@,
                escaped,
                is_index,
                is_display_text,
                folder_path: texts(folder_path@),
                index: index@,
                display_text: display_text@,
                lock,
            };
            proof {
                assert(s@.skip(i as int)[0] == c);
                assert(s@.skip(i as int).drop_first() =~= s@.skip(i + 1));
            }
            let mut push_to_content: bool = false;
            if escaped {
                if is_display_text {
                    push_char(&mut display_text, c);
                } else if is_index && '0' <= c && c <= '9' {
                    push_char(&mut index, c);
                } else {
                    push_to_content = true;
                }
                escaped = false;
            } else {
                if c == '\\' {
                    escaped = true;
                } else if c == '~' {
                    is_index = true;
                } else if c == '|' {
                    is_display_text = true;
                } else if c == '.' {
                    lock = 1;
                } else if c == ':' {
                    lock = 2;
                } else if c == '/' {
                    let segment: String = content.clone();
                    folder_path.push(segment);
                    content = String::new();
                    assert(texts(folder_path@) =~= st.folder_path.push(st.content));
                } else if c == '!' {
                    if content.as_str().is_empty() {
                        return None;
                    }
                    let raw: String = s.to_owned();
                    return Some(
                        Tag { prefix, content, raw, folder_path, index, display_text, lock },
                    );
                } else {
                    if is_index && '0' <= c && c <= '9' {
                        push_char(&mut index, c);
                    } else {
                        is_index = false;
                    }
                    if is_display_text && !(c == '!' || c == '~' || c == '|' || c == '.' || c
                        == ':' || c == '/') {
                        push_char(&mut display_text, c);
                    } else {
                        is_display_text = false;
                    }
                    if !is_index && !is_display_text {
                        push_to_content = true;
                    }
                }
            }
            if push_to_content {
                push_char(&mut content, c);
            }
            i = i + 1;
        }
        // No closing '!' was found.
        proof {
            assert(s@.skip(n as int).len() == 0);
        }
        None
    }
}

} // verus!
