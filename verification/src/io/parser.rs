//! Region grammars: the markup languages a region of a Rachis file can be
//! written in, and the tree of regions that a file is read into.

use vstd::prelude::*;
use crate::errors::parser::ParserError;
use crate::io::paths::{extension_of, path_extension};
use crate::io::pattern::{pattern_error, regex_error};
use crate::text::{ascii_lowercase, is_ascii_text, str_eq, str_to_lowercase, to_lowercase};

verus! {

/// The markup grammars a region can use.
#[derive(Debug, Clone, Copy, PartialEq, Eq, Structural)]
pub enum Grammar {
    Markdown,
    Bbcode,
    AsciiDoc,
    Html,
    RichText,
}

impl Default for Grammar {
    fn default() -> (r: Grammar)
        ensures
            r == Grammar::Markdown,
    {
        Grammar::Markdown
    }
}

/// The id that each grammar is written with.
pub open spec fn grammar_id(g: Grammar) -> Seq<char> {
    match g {
        Grammar::Markdown => "md"@,
        Grammar::Bbcode => "bbcode"@,
        Grammar::AsciiDoc => "adoc"@,
        Grammar::Html => "html"@,
        Grammar::RichText => "rtf"@,
    }
}

/// The grammar that a lowercase id names, if any.
pub open spec fn grammar_named(id: Seq<char>) -> Option<Grammar> {
    if id == "md"@ || id == "markdown"@ {
        Some(Grammar::Markdown)
    } else if id == "bbcode"@ || id == "bbc"@ {
        Some(Grammar::Bbcode)
    } else if id == "adoc"@ || id == "asciidoc"@ {
        Some(Grammar::AsciiDoc)
    } else if id == "html"@ {
        Some(Grammar::Html)
    } else if id == "rtf"@ || id == "richtext"@ {
        Some(Grammar::RichText)
    } else {
        None
    }
}

impl Grammar {
    /// Reads a grammar from its id, in any case. An unknown id gives an
    /// unknown-grammar error on line 0 whose content is "Error".
    pub fn from_id(s: &str) -> (r: Result<Grammar, ParserError>)
        ensures
            match grammar_named(str_to_lowercase(s@)) {
                Some(g) => r == Ok::<Grammar, ParserError>(g),
                None => r matches Err(ParserError::UnknownRegionGrammar { line, content }) && line == 0
                    && content@ == "Error"@,
            },
            is_ascii_text(s@) ==> str_to_lowercase(s@) == ascii_lowercase(s@),
    {
        let lowered: String = to_lowercase(s);
        let l: &str = lowered.as_str();
        if str_eq(l, "md") || str_eq(l, "markdown") {
            Ok(Grammar::Markdown)
        } else if str_eq(l, "bbcode") || str_eq(l, "bbc") {
            Ok(Grammar::Bbcode)
        } else if str_eq(l, "adoc") || str_eq(l, "asciidoc") {
            Ok(Grammar::AsciiDoc)
        } else if str_eq(l, "html") {
            Ok(Grammar::Html)
        } else if str_eq(l, "rtf") || str_eq(l, "richtext") {
            Ok(Grammar::RichText)
        } else {
            Err(ParserError::UnknownRegionGrammar { line: 0, content: String::from_str("Error") })
        }
    }

    /// The id of this grammar, as a `String`.
    pub fn to_string(&self) -> (r: String)
        ensures
            r@ == grammar_id(*self),
    {
        self.as_str().to_owned()
    }

    /// The id of this grammar.
    pub fn as_str(&self) -> (r: &'static str)
        ensures
            r@ == grammar_id(*self),
    {
        match self {
            Grammar::Markdown => "md",
            Grammar::Bbcode => "bbcode",
            Grammar::AsciiDoc => "adoc",
            Grammar::Html => "html",
            Grammar::RichText => "rtf",
        }
    }
}

/// A region of a file written in one grammar, with the regions nested in it.
#[derive(Debug)]
pub struct GrammarRegion {
    grammar: Grammar,
    depth: usize,
    content_start: usize,
    content_end: usize,
    children: Vec<GrammarRegion>,
}

impl GrammarRegion {
    /// The grammar of the region.
    pub closed spec fn grammar_spec(&self) -> Grammar {
        self.grammar
    }

    /// How deeply the region is nested.
    pub closed spec fn depth_spec(&self) -> usize {
        self.depth
    }

    /// Where the region's content starts.
    pub closed spec fn content_start_spec(&self) -> usize {
        self.content_start
    }

    /// Where the region's content ends.
    pub closed spec fn content_end_spec(&self) -> usize {
        self.content_end
    }

    /// The regions nested in this one.
    pub closed spec fn children_spec(&self) -> Seq<GrammarRegion> {
        self.children@
    }

    /// A region from its parts.
    pub fn new(
        grammar: Grammar,
        depth: usize,
        content_start: usize,
        content_end: usize,
        children: Vec<GrammarRegion>,
    ) -> (r: GrammarRegion)
        ensures
            r.grammar_spec() == grammar,
            r.depth_spec() == depth,
            r.content_start_spec() == content_start,
            r.content_end_spec() == content_end,
            r.children_spec() == children@,
    {
        GrammarRegion { grammar, depth, content_start, content_end, children }
    }

    /// The grammar of the region.
    pub fn grammar(&self) -> (r: Grammar)
        ensures
            r == self.grammar_spec(),
    {
        self.grammar
    }

    /// How deeply the region is nested.
    pub fn depth(&self) -> (r: usize)
        ensures
            r == self.depth_spec(),
    {
        self.depth
    }

    /// Where the region's content starts.
    pub fn content_start(&self) -> (r: usize)
        ensures
            r == self.content_start_spec(),
    {
        self.content_start
    }

    /// Where the region's content ends.
    pub fn content_end(&self) -> (r: usize)
        ensures
            r == self.content_end_spec(),
    {
        self.content_end
    }

    /// The regions nested in this one.
    pub fn children(&self) -> (r: &Vec<GrammarRegion>)
        ensures
            r@ == self.children_spec(),
    {
        &self.children
    }
}

impl Default for GrammarRegion {
    fn default() -> (r: GrammarRegion)
        ensures
            r.grammar_spec() == Grammar::Markdown,
            r.depth_spec() == 0,
            r.content_start_spec() == 0,
            r.content_end_spec() == 0,
            r.children_spec() == Seq::<GrammarRegion>::empty(),
    {
        GrammarRegion::new(Grammar::Markdown, 0, 0, 0, Vec::new())
    }
}

/// The regions of a file, and the grammar of the file itself.
#[derive(Debug)]
pub struct RegionTree {
    grammar: Grammar,
    regions: Vec<GrammarRegion>,
}

/// The pattern that region markers follow: an indent of tabs and runs of two
/// or four spaces, `:::`, and a grammar id.
pub open spec fn marker_pattern() -> Seq<char> {
    "^((?:\\t|(?:[ ]{2}|[ ]{4})+)*):::(md|bbcode|adoc|html)"@
}

/// The grammar of a file with the extension `ext`: the one it names, else the
/// default.
pub open spec fn grammar_of_ext(ext: Seq<char>) -> Grammar {
    match grammar_named(str_to_lowercase(ext)) {
        Some(g) => g,
        None => Grammar::Markdown,
    }
}

impl RegionTree {
    /// The grammar of the file.
    pub closed spec fn grammar_spec(&self) -> Grammar {
        self.grammar
    }

    /// The top-level regions of the file.
    pub closed spec fn regions_spec(&self) -> Seq<GrammarRegion> {
        self.regions@
    }

    /// A region tree from its parts.
    pub fn new(grammar: Grammar, regions: Vec<GrammarRegion>) -> (r: RegionTree)
        ensures
            r.grammar_spec() == grammar,
            r.regions_spec() == regions@,
    {
        RegionTree { grammar, regions }
    }

    /// Appends a top-level region and hands the tree back for chaining.
    pub fn add_region(&mut self, grammar: GrammarRegion) -> (r: &mut Self)
        ensures
            r.grammar_spec() == old(self).grammar_spec(),
            r.regions_spec() == old(self).regions_spec().push(grammar),
            *final(self) == *final(r),
    {
        self.regions.push(grammar);
        self
    }

    /// The grammar of the file.
    pub fn grammar(&self) -> (r: Grammar)
        ensures
            r == self.grammar_spec(),
    {
        self.grammar
    }

    /// The top-level regions of the file.
    pub fn regions(&self) -> (r: &Vec<GrammarRegion>)
        ensures
            r@ == self.regions_spec(),
    {
        &self.regions
    }

    /// Reads the region tree of the file at `path`: the grammar that its
    /// extension names (the default when it names none) and no regions yet.
    /// Fails only if the region-marker pattern does not compile, with the
    /// `regex` crate's message as the content of an unknown-grammar error on
    /// line 0.
    pub fn parse(path: &str, tab_width: usize) -> (r: Result<RegionTree, ParserError>)
        ensures
            match regex_error(marker_pattern()) {
                Some(m) => r matches Err(ParserError::UnknownRegionGrammar { line, content }) && line == 0
                    && content@ == m,
                None => r matches Ok(t) && t.grammar_spec() == grammar_of_ext(path_extension(path@))
                    && t.regions_spec().len() == 0,
            },
    {
        let pattern: &str = "^((?:\\t|(?:[ ]{2}|[ ]{4})+)*):::(md|bbcode|adoc|html)";
        let ext: String = extension_of(path);
        if let Some(m) = pattern_error(pattern) {
            return Err(ParserError::UnknownRegionGrammar { line: 0, content: m });
        }
        let grammar: Grammar = match Grammar::from_id(ext.as_str()) {
            Ok(g) => g,
            Err(_) => Grammar::default(),
        };
        Ok(RegionTree::new(grammar, Vec::new()))
    }
}

impl Default for RegionTree {
    fn default() -> (r: RegionTree)
        ensures
            r.grammar_spec() == Grammar::Markdown,
            r.regions_spec() == Seq::<GrammarRegion>::empty(),
    {
        RegionTree::new(Grammar::Markdown, Vec::new())
    }
}

/// Reading a grammar back from its id gives the grammar: every id is ASCII,
/// and its lowercase form names that grammar.
pub proof fn law_grammar_round_trip(g: Grammar)
    ensures
        is_ascii_text(grammar_id(g)),
        grammar_named(ascii_lowercase(grammar_id(g))) == Some(g),
{
    reveal_strlit("md");
    reveal_strlit("markdown");
    reveal_strlit("bbcode");
    reveal_strlit("bbc");
    reveal_strlit("adoc");
    reveal_strlit("asciidoc");
    reveal_strlit("html");
    reveal_strlit("rtf");
    reveal_strlit("richtext");
    let n = grammar_id(g);
    assert(ascii_lowercase(n) =~= n);
    assert("html"@[0] != "adoc"@[0]);
    assert("bbc"@[0] != "rtf"@[0]);
    assert("markdown"@[0] != "asciidoc"@[0]);
    assert("markdown"@[0] != "richtext"@[0]);
    assert("asciidoc"@[0] != "richtext"@[0]);
}

} // verus!
