use epub::table_of_contents::table_of_contents::TableOfContents;
use epub::table_of_contents::table_of_contents_item::TableOfContentsItem;
use epub::EpubError;

#[test]
fn new_should_create_item_without_anchor_when_there_is_no_hash() {
    let path = "OPS/chapter_136.xhtml".to_string();
    let expected_path = "OPS/chapter_136.xhtml".to_string();
    let label = "Epilogue".to_string();

    let sut = TableOfContentsItem::new(path, label.clone(), None);

    assert_eq!(sut.path, expected_path);
    assert_eq!(sut.label, label);
    assert_eq!(sut.anchor, None);
    assert_eq!(sut.content, None)
}

#[test]
fn new_should_create_item_without_anchor_when_there_is_nothing_after_hash() {
    let path = "OPS/chapter_136.xhtml#".to_string();
    let expected_path = "OPS/chapter_136.xhtml".to_string();
    let label = "Epilogue".to_string();

    let sut = TableOfContentsItem::new(path, label.clone(), None);

    assert_eq!(sut.path, expected_path);
    assert_eq!(sut.label, label);
    assert_eq!(sut.anchor, None);
    assert_eq!(sut.content, None)
}

#[test]
fn new_should_create_item_with_anchor_when_there_is_content_after_hash() {
    let path = "OPS/chapter_136.xhtml#toc_marker-1".to_string();
    let expected_path = "OPS/chapter_136.xhtml".to_string();
    let expected_anchor = Some("toc_marker-1".to_string());
    let label = "Epilogue".to_string();

    let sut = TableOfContentsItem::new(path, label.clone(), None);

    assert_eq!(sut.path, expected_path);
    assert_eq!(sut.label, label);
    assert_eq!(sut.anchor, expected_anchor);
    assert_eq!(sut.content, None)
}

#[test]
fn table_of_contents_should_parse_nav_point() {
    let raw_item = "<navMap>\n<navPoint id=\"navpoint1\" playOrder=\"1\">\n  <navLabel>\n    <text>Spis tre\u{15b}ci</text>\n  </navLabel>\n  <content src=\"Text/DRAGONEZA-1.xhtml#toc_marker-1\"/>\n</navPoint>\n</navMap>\n";
    let content_dir = "OEBPS".to_string();
    let table_of_contents =
        TableOfContents::from_toc_content_for_epub_2(raw_item.to_string(), content_dir);

    assert_eq!(table_of_contents.items.len(), 1);
    assert_eq!(table_of_contents.items[0].label, "Spis tre\u{15b}ci");
    assert_eq!(table_of_contents.items[0].path, "OEBPS/Text/DRAGONEZA-1.xhtml");
    assert_eq!(
        table_of_contents.items[0].anchor,
        Some("toc_marker-1".to_string())
    )
}

#[test]
fn epub3_table_of_contents_should_parse_nav_point() {
    let raw_item: &str = r#"
    <nav xmlns:epub="http://www.idpf.org/2007/ops" epub:type="toc" id="toc">
       <ol>
          <li class="toc-BookTitlePage-rw" id="toc-titlepage">
             <a href="titlepage.xhtml">Moby-Dick</a>
          </li>
       </ol>
    </nav>
    "#;

    let content_dir = "OPS".to_string();
    let table_of_contents =
        TableOfContents::from_toc_content_for_epub_3(raw_item.to_string(), content_dir);

    assert_eq!(table_of_contents.items.len(), 1);
    assert_eq!(table_of_contents.items[0].label, "Moby-Dick");
    assert_eq!(table_of_contents.items[0].path, "OPS/titlepage.xhtml");
}

#[test]
fn from_content_should_pick_the_format_by_the_ncx_extension() {
    let ncx: &str = r#"
      <navMap>
      <navPoint id="n1">
        <navLabel><text>One</text></navLabel>
        <content src="one.xhtml"/>
      </navPoint>
    </navMap>
    "#;
    let from_ncx = TableOfContents::from_content(
        "OEBPS/toc.ncx".to_string(),
        ncx.to_string(),
        "OEBPS".to_string(),
    );
    assert_eq!(from_ncx.items.len(), 1);
    assert_eq!(from_ncx.items[0].path, "OEBPS/one.xhtml");

    let nav: &str = r#"
    <nav epub:type="toc"><ol><li><a href="two.xhtml">Two</a></li></ol></nav>
    "#;
    let from_nav = TableOfContents::from_content(
        "OPS/toc.xhtml".to_string(),
        nav.to_string(),
        "OPS".to_string(),
    );
    assert_eq!(from_nav.items.len(), 1);
    assert_eq!(from_nav.items[0].path, "OPS/two.xhtml");
}

fn sample_toc() -> TableOfContents {
    let nav: &str = r#"
    <nav xmlns:epub="http://www.idpf.org/2007/ops" epub:type="toc" id="toc">
       <ol>
          <li><a href="titlepage.xhtml">Moby-Dick</a></li>
          <li><a href="chapter_001.xhtml">Chapter 1. Loomings.</a></li>
          <li><a href="chapter_002.xhtml">Chapter 2. The Carpet-Bag.</a></li>
          <li><a href="copyright.xhtml">Copyright Page</a></li>
       </ol>
    </nav>
    "#;
    TableOfContents::from_toc_content_for_epub_3(nav.to_string(), "OPS".to_string())
}

#[test]
fn search_should_return_some_with_existing_toc_item_when_it_matches_search_criteria() {
    let table_of_contents = sample_toc();
    let expected_toc_item = TableOfContentsItem::new(
        "OPS/chapter_002.xhtml".to_string(),
        "Chapter 2. The Carpet-Bag.".to_string(),
        None,
    );

    let found_toc_item = table_of_contents
        .search_for_item(&expected_toc_item.path)
        .unwrap();

    assert_eq!(expected_toc_item, *found_toc_item);
}

#[test]
fn search_should_return_none_when_no_toc_item_matches_search_criteria() {
    let table_of_contents = sample_toc();

    let found_toc_item = table_of_contents.search_for_item("OPS/chapter_666.xhtml");

    assert!(found_toc_item.is_none());
}

#[test]
fn get_next_relative_should_return_some_with_existing_toc_item_when_there_is_next_toc_item() {
    let table_of_contents = sample_toc();

    let next_toc_item = table_of_contents
        .next_relative("OPS/chapter_002.xhtml")
        .unwrap()
        .unwrap();

    assert_eq!(next_toc_item.path, "OPS/copyright.xhtml");
    assert_eq!(next_toc_item.label, "Copyright Page");
}

#[test]
fn get_next_relative_should_return_none_when_there_is_no_next_toc_item() {
    let table_of_contents = sample_toc();

    let next_toc_item = table_of_contents.next_relative("OPS/copyright.xhtml").unwrap();

    assert!(next_toc_item.is_none());
}

#[test]
fn get_previous_relative_should_return_some_with_existing_toc_item_when_there_is_previous_toc_item()
{
    let table_of_contents = sample_toc();

    let previous_toc_item = table_of_contents
        .previous_relative("OPS/chapter_001.xhtml")
        .unwrap()
        .unwrap();

    assert_eq!(previous_toc_item.path, "OPS/titlepage.xhtml");
    assert_eq!(previous_toc_item.label, "Moby-Dick");
}

#[test]
fn get_previous_relative_should_return_none_when_there_is_no_previous_toc_item() {
    let table_of_contents = sample_toc();

    let previous_toc_item = table_of_contents.previous_relative("OPS/titlepage.xhtml").unwrap();

    assert!(previous_toc_item.is_none());
}

#[test]
fn relative_lookups_should_report_a_path_missing_from_the_table_of_contents() {
    let table_of_contents = sample_toc();

    assert_eq!(
        table_of_contents.next_relative("OPS/not_there.xhtml").err(),
        Some(EpubError::PathNotInTableOfContents)
    );
    assert_eq!(
        table_of_contents.previous_relative("OPS/not_there.xhtml").err(),
        Some(EpubError::PathNotInTableOfContents)
    );
}

#[test]
fn epub2_reader_should_stop_when_an_entry_closes_outside_the_navigation_scope() {
    // A <content> element seen before any <navMap> starts an entry, and
    // the very next closing tag, still outside the scope, ends the walk.
    let raw_item = r#"<root><content src="a.xhtml"/></root>"#;

    let table_of_contents =
        TableOfContents::from_toc_content_for_epub_2(raw_item.to_string(), "OPS".to_string());

    assert_eq!(table_of_contents.items.len(), 0);
}

#[test]
fn epub3_reader_should_ignore_anchors_outside_the_navigation_scope() {
    let raw_item = r#"
    <nav epub:type="landmarks"><ol><li><a href="skip.xhtml">Skip</a></li></ol></nav>
    "#;

    let table_of_contents =
        TableOfContents::from_toc_content_for_epub_3(raw_item.to_string(), "OPS".to_string());

    assert_eq!(table_of_contents.items.len(), 0);
}
