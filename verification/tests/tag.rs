use rachis::tag::Tag;

#[test]
fn valid_range_delimiters() {
    let valid_tag: Option<Tag> = Tag::parse("c!Twilight Sparkle!");
    assert!(valid_tag.is_some());
}

#[test]
fn invalid_range_delimiters() {
    let invalid_tag: Option<Tag> = Tag::parse("c-Twilight Sparkle!");
    assert!(invalid_tag.is_none());

    let invalid_tag: Option<Tag> = Tag::parse("c!Twilight Sparkle-");
    assert!(invalid_tag.is_none());
}

#[test]
fn valid_prefixes() {
    let char_tag: Option<Tag> = Tag::parse("c!Twilight Sparkle!");
    let event_tag: Option<Tag> = Tag::parse("e!Twilight Sparkle!");
    let loc_tag: Option<Tag> = Tag::parse("l!Twilight Sparkle!");
    let item_tag: Option<Tag> = Tag::parse("i!Twilight Sparkle!");
    let note_tag: Option<Tag> = Tag::parse("n!Twilight Sparkle!");
    assert!(char_tag.unwrap().validate_prefix().is_ok());
    assert!(event_tag.unwrap().validate_prefix().is_ok());
    assert!(loc_tag.unwrap().validate_prefix().is_ok());
    assert!(item_tag.unwrap().validate_prefix().is_ok());
    assert!(note_tag.unwrap().validate_prefix().is_ok());
}

#[test]
fn invalid_prefixes() {
    let tag: Option<Tag> = Tag::parse("x!Twilight Sparkle!");
    assert!(tag.unwrap().validate_prefix().is_err());
}

#[test]
fn no_index() {
    let tag: Option<Tag> = Tag::parse("c!Twilight Sparkle!");
    assert_eq!(tag.unwrap().index.is_empty(), true);
}

#[test]
fn with_index() {
    let tag2: Option<Tag> = Tag::parse("c!Twilight Sparkle~2!");
    let tag203452: Option<Tag> = Tag::parse("c!Twilight Sparkle~203452!");
    assert_eq!(tag2.unwrap().index.is_empty(), false);
    assert_eq!(tag203452.unwrap().index.is_empty(), false);
}

#[test]
fn tag_with_content() {
    let tag_with_content: Option<Tag> = Tag::parse("e!Crystal Kingdom's Return\\!~2!");
    println!("{tag_with_content:#?}");
    assert_eq!(tag_with_content.unwrap().content, "Crystal Kingdom's Return!");
}

#[test]
fn tag_with_no_content() {
    let tag_no_content1: Option<Tag> = Tag::parse("c!~2!");
    let tag_no_content2: Option<Tag> = Tag::parse("c!.!");
    let tag_no_content3: Option<Tag> = Tag::parse("c!:!");
    let tag_no_content4: Option<Tag> = Tag::parse("c!/!");
    let tag_no_content5: Option<Tag> = Tag::parse("c!/~10:!");
    println!("{:?}", tag_no_content1);
    println!("{:?}", tag_no_content2);
    println!("{:?}", tag_no_content3);
    println!("{:?}", tag_no_content4);
    println!("{:?}", tag_no_content5);
    assert_eq!(tag_no_content1.is_none(), true);
    assert_eq!(tag_no_content2.is_none(), true);
    assert_eq!(tag_no_content3.is_none(), true);
    assert_eq!(tag_no_content4.is_none(), true);
    assert_eq!(tag_no_content5.is_none(), true);
}

#[test]
fn display_text() {
    let tag_with_display: Option<Tag> = Tag::parse("c!Twilight Sparkle|Equestrian Princess!");
    println!("{tag_with_display:#?}");
    assert_eq!(tag_with_display.unwrap().display_text.is_empty(), false);
}

#[test]
fn no_display_text() {
    let tag_without_display: Option<Tag> = Tag::parse("c!Twilight Sparkle, Equestrian Princess!");
    println!("{tag_without_display:#?}");
    assert_eq!(tag_without_display.unwrap().display_text.is_empty(), true);
}

#[test]
fn folder_path_no_subdirectory() {
    let tag_without_folder: Option<Tag> = Tag::parse("c!Twilight Sparkle!");
    println!("{tag_without_folder:#?}");
    assert_eq!(tag_without_folder.unwrap().folder_path.is_empty(), true);
}

#[test]
fn folder_path_single_subdirectory() {
    let tag_with_folder: Option<Tag> = Tag::parse("c!Mane 6/Twilight Sparkle!");
    println!("{tag_with_folder:#?}");
    assert_eq!(tag_with_folder.unwrap().folder_path, vec!["Mane 6"]);
}

#[test]
fn folder_path_multiple_subdirectories() {
    let tag_with_folders: Option<Tag> = Tag::parse("c!Protagonists/Mane 6/Twilight Sparkle!");
    println!("{tag_with_folders:#?}");
    assert_eq!(tag_with_folders.unwrap().folder_path, vec!["Protagonists", "Mane 6"]);
}

#[test]
fn folder_path_escaped_subdirectory() {
    let tag_with_escaped_folder: Option<Tag> =
        Tag::parse(&String::from("c!Protagonists\\/Main Characters/Mane 6/Twilight Sparkle!"));
    println!("{tag_with_escaped_folder:#?}");
    assert_eq!(
        tag_with_escaped_folder.unwrap().folder_path,
        vec!["Protagonists/Main Characters", "Mane 6"]
    );
}

#[test]
fn the_hell_parse() {
    let tag: Option<Tag> = Tag::parse(&String::from(
        "l!Equestria/Ponyville\\/\"The Apple Core\"/Golden Oaks Library\\!~3|Twilight's House (v\\.2)\\!:!",
    ));
    println!("{}", format!("{}", tag.as_ref().unwrap().to_string()));
    assert_eq!(tag.clone().unwrap().prefix, 'l');
    assert_eq!(tag.clone().unwrap().content, "Golden Oaks Library!");
    assert_eq!(
        tag.clone().unwrap().raw,
        "l!Equestria/Ponyville\\/\"The Apple Core\"/Golden Oaks Library\\!~3|Twilight's House (v\\.2)\\!:!"
    );
    assert_eq!(tag.clone().unwrap().folder_path, vec!["Equestria", "Ponyville/\"The Apple Core\""]);
    assert_eq!(tag.clone().unwrap().index, "3");
    assert_eq!(tag.clone().unwrap().display_text, "Twilight's House (v.2)!");
    assert_eq!(tag.clone().unwrap().lock, 2);
}

#[test]
fn tag_description_lists_every_field() {
    let tag: Tag = Tag::parse("c!Mane 6/Friends/Twilight Sparkle~2|Twi.!").unwrap();
    assert_eq!(
        tag.to_string(),
        "Prefix: c\nContent: Twilight Sparkle\nRaw: c!Mane 6/Friends/Twilight Sparkle~2|Twi.!\nFolder Path: Mane 6/-/Friends\nIndex: 2\nDisplay Text: Twi\nLock status: 1"
    );
}

#[test]
fn plain_tag_keeps_its_word() {
    let tag: Tag = Tag::parse("n!Sonder!").unwrap();
    assert_eq!(tag.prefix, 'n');
    assert_eq!(tag.content, "Sonder");
    assert_eq!(tag.raw, "n!Sonder!");
    assert!(tag.folder_path.is_empty());
    assert_eq!(tag.index, "");
    assert_eq!(tag.display_text, "");
    assert_eq!(tag.lock, 0);
}

#[test]
fn short_texts_are_not_tags() {
    assert!(Tag::parse("").is_none());
    assert!(Tag::parse("c!").is_none());
    assert!(Tag::parse("c!!").is_none());
}

#[test]
fn invalid_prefix_message() {
    let tag: Tag = Tag::parse("q!Twilight!").unwrap();
    assert_eq!(
        tag.validate_prefix().unwrap_err(),
        "Prefix must be one of 'c', 'e', 'l', 'i', or 'n'!"
    );
}

#[test]
fn display_lock_and_escape_laws_on_examples() {
    let t: Tag = Tag::parse("c!Twilight|Twi!").unwrap();
    assert_eq!(t.content, "Twilight");
    assert_eq!(t.display_text, "Twi");
    assert_eq!(t.lock, 0);
    assert_eq!(Tag::parse("c!Twilight.!").unwrap().lock, 1);
    assert_eq!(Tag::parse("c!Twilight:!").unwrap().lock, 2);
    let e: Tag = Tag::parse("n!Wait\\!what!").unwrap();
    assert_eq!(e.content, "Wait!what");
    assert_eq!(e.raw, "n!Wait\\!what!");
}
