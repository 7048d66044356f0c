use rachis::errors::parser::ParserError;
use rachis::io::parser::{Grammar, GrammarRegion, RegionTree};

#[test]
fn test_default_grammar() {
    let g: Grammar = Default::default();
    println!("{g:#?}");
    assert_eq!(g, Grammar::Markdown);

    let g: Result<Grammar, ParserError> = Grammar::from_id("md");
    println!("{g:?}");
    assert!(g.is_ok());
    assert!(g.is_ok_and(|g| g == Grammar::Markdown));

    let g: Result<Grammar, ParserError> = Grammar::from_id("darkmown");
    println!("{g:?}");
    assert!(g.is_err());
}

#[test]
fn test_grammar_region() {
    let gr: GrammarRegion = Default::default();
    println!("{gr:#?}");
    assert_eq!(gr.grammar(), Grammar::Markdown);
    assert_eq!(gr.depth(), 0);
    assert_eq!(gr.content_start(), 0);
    assert_eq!(gr.content_end(), 0);
    assert!(gr.children().is_empty());
}

#[test]
fn grammar_ids_round_trip() {
    for g in [Grammar::Markdown, Grammar::Bbcode, Grammar::AsciiDoc, Grammar::Html, Grammar::RichText] {
        assert_eq!(Grammar::from_id(g.as_str()), Ok(g));
    }
    assert_eq!(Grammar::from_id("MarkDown"), Ok(Grammar::Markdown));
    assert_eq!(Grammar::from_id("bbc"), Ok(Grammar::Bbcode));
    assert_eq!(Grammar::from_id("RichText"), Ok(Grammar::RichText));
    assert_eq!(
        Grammar::from_id("tex"),
        Err(ParserError::UnknownRegionGrammar { line: 0, content: "Error".to_string() })
    );
}

#[test]
fn parser_error_messages() {
    assert_eq!(ParserError::MixedIndentation { line: 12 }.message(), "line 12: mixed tabs and spaces in indent prefix");
    assert_eq!(
        ParserError::UnknownRegionGrammar { line: 3, content: "tex".to_string() }.message(),
        "line 3: unknown grammar id `tex`"
    );
    assert_eq!(ParserError::EmptyRegionMarker { line: 0 }.message(), "line 0: `:::` marker with no grammar");
    assert_eq!(
        ParserError::TrailingRegionMarkerContent { line: 105, content: "x y".to_string() }.message(),
        "line 105: unexpected content after grammar: `x y`"
    );
}

#[test]
fn region_trees() {
    let mut t = RegionTree::new(Grammar::Html, vec![]);
    t.add_region(GrammarRegion::new(Grammar::Bbcode, 1, 4, 9, vec![])).add_region(GrammarRegion::default());
    assert_eq!(t.grammar(), Grammar::Html);
    assert_eq!(t.regions().len(), 2);
    assert_eq!(t.regions()[0].grammar(), Grammar::Bbcode);
    assert_eq!(t.regions()[0].content_end(), 9);

    let parsed = RegionTree::parse("/flight/chapter.ADOC", 4).unwrap();
    assert_eq!(parsed.grammar(), Grammar::AsciiDoc);
    assert!(parsed.regions().is_empty());
    let parsed = RegionTree::parse("/flight/chapter.rachis", 4).unwrap();
    assert_eq!(parsed.grammar(), Grammar::Markdown);
    let parsed = RegionTree::parse("/flight/README", 2).unwrap();
    assert_eq!(parsed.grammar(), Grammar::Markdown);
    let default_tree: RegionTree = Default::default();
    assert_eq!(default_tree.grammar(), Grammar::Markdown);
}

#[test]
fn grammar_names() {
    assert_eq!(Grammar::AsciiDoc.to_string(), "adoc");
    assert_eq!(Grammar::RichText.as_str(), "rtf");
}
