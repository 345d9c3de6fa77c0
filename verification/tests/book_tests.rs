use epub::epub::EBook;
use epub::manifest::BookManifest;
use epub::metadata::BookMetadata;
use epub::reader::EBookReader;
use epub::spine::BookSpine;
use epub::table_of_contents::table_of_contents_item::TableOfContentsItem;
use epub::EpubError;

// A minimal ZIP writer: stored (uncompressed) entries only, enough to
// assemble an EPUB container in memory for the tests.

fn crc32(data: &[u8]) -> u32 {
    let mut crc: u32 = 0xFFFF_FFFF;
    for &b in data {
        crc ^= b as u32;
        for _ in 0..8 {
            if crc & 1 != 0 {
                crc = (crc >> 1) ^ 0xEDB8_8320;
            } else {
                crc >>= 1;
            }
        }
    }
    !crc
}

fn push_u16(out: &mut Vec<u8>, v: u16) {
    out.extend_from_slice(&v.to_le_bytes());
}

fn push_u32(out: &mut Vec<u8>, v: u32) {
    out.extend_from_slice(&v.to_le_bytes());
}

fn store_entry(out: &mut Vec<u8>, central: &mut Vec<u8>, name: &str, data: &[u8]) {
    let offset = out.len() as u32;
    let crc = crc32(data);
    let n = name.as_bytes();
    out.extend_from_slice(&[0x50, 0x4b, 0x03, 0x04]);
    push_u16(out, 20);
    push_u16(out, 0);
    push_u16(out, 0);
    push_u16(out, 0);
    push_u16(out, 0);
    push_u32(out, crc);
    push_u32(out, data.len() as u32);
    push_u32(out, data.len() as u32);
    push_u16(out, n.len() as u16);
    push_u16(out, 0);
    out.extend_from_slice(n);
    out.extend_from_slice(data);

    central.extend_from_slice(&[0x50, 0x4b, 0x01, 0x02]);
    push_u16(central, 20);
    push_u16(central, 20);
    push_u16(central, 0);
    push_u16(central, 0);
    push_u16(central, 0);
    push_u16(central, 0);
    push_u32(central, crc);
    push_u32(central, data.len() as u32);
    push_u32(central, data.len() as u32);
    push_u16(central, n.len() as u16);
    push_u16(central, 0);
    push_u16(central, 0);
    push_u16(central, 0);
    push_u16(central, 0);
    push_u32(central, 0);
    push_u32(central, offset);
    central.extend_from_slice(n);
}

fn build_zip(entries: &[(&str, &[u8])]) -> Vec<u8> {
    let mut out = Vec::new();
    let mut central = Vec::new();
    for (name, data) in entries {
        store_entry(&mut out, &mut central, name, data);
    }
    let cd_offset = out.len() as u32;
    let cd_size = central.len() as u32;
    out.extend_from_slice(&central);
    out.extend_from_slice(&[0x50, 0x4b, 0x05, 0x06]);
    push_u16(&mut out, 0);
    push_u16(&mut out, 0);
    push_u16(&mut out, entries.len() as u16);
    push_u16(&mut out, entries.len() as u16);
    push_u32(&mut out, cd_size);
    push_u32(&mut out, cd_offset);
    push_u16(&mut out, 0);
    out
}

const CONTAINER: &str = r#"<?xml version="1.0"?>
<container version="1.0" xmlns="urn:oasis:names:tc:opendocument:xmlns:container">
  <rootfiles>
    <rootfile full-path="OPS/package.opf" media-type="application/oebps-package+xml"/>
  </rootfiles>
</container>
"#;

const PACKAGE_OPF: &str = r#"<?xml version="1.0" encoding="UTF-8"?>
<package xmlns="http://www.idpf.org/2007/opf" version="3.0" unique-identifier="pub-id">
  <metadata xmlns:dc="http://purl.org/dc/elements/1.1/">
    <dc:title>Moby-Dick</dc:title>
    <dc:creator>Herman Melville</dc:creator>
    <dc:identifier id="pub-id">sample.moby-dick-mini</dc:identifier>
    <dc:language>en-US</dc:language>
    <dc:publisher>Harper &amp; Brothers, Publishers</dc:publisher>
  </metadata>
  <manifest>
    <item id="toc" href="toc.xhtml" media-type="application/xhtml+xml" properties="nav"/>
    <item id="titlepage" href="titlepage.xhtml" media-type="application/xhtml+xml"/>
    <item id="xchapter_001" href="chapter_001.xhtml" media-type="application/xhtml+xml"/>
    <item id="xchapter_002" href="chapter_002.xhtml" media-type="application/xhtml+xml"/>
  </manifest>
  <spine>
    <itemref idref="titlepage"/>
    <itemref idref="xchapter_001"/>
    <itemref idref="xchapter_002"/>
    <itemref idref="toc"/>
  </spine>
</package>
"#;

const TOC_XHTML: &str = r#"<?xml version="1.0" encoding="UTF-8"?>
<html xmlns="http://www.w3.org/1999/xhtml" xmlns:epub="http://www.idpf.org/2007/ops">
<body>
  <nav epub:type="toc" id="toc">
    <ol>
      <li><a href="titlepage.xhtml">Moby-Dick</a></li>
      <li><a href="chapter_001.xhtml">Chapter 1. Loomings.</a></li>
      <li><a href="chapter_002.xhtml">Chapter 2. The Carpet-Bag.</a></li>
    </ol>
  </nav>
</body>
</html>
"#;

const TITLEPAGE: &str = r#"<html><body><h1 class="title">Moby-Dick</h1></body></html>"#;
const CHAPTER_1: &str =
    r#"<html><body><p class="line">Call me Ishmael.</p></body></html>"#;
const CHAPTER_2: &str =
    r#"<html><body><p class="line">I stuffed a shirt or two.</p></body></html>"#;

fn sample_epub_bytes() -> Vec<u8> {
    build_zip(&[
        ("META-INF/container.xml", CONTAINER.as_bytes()),
        ("OPS/package.opf", PACKAGE_OPF.as_bytes()),
        ("OPS/toc.xhtml", TOC_XHTML.as_bytes()),
        ("OPS/titlepage.xhtml", TITLEPAGE.as_bytes()),
        ("OPS/chapter_001.xhtml", CHAPTER_1.as_bytes()),
        ("OPS/chapter_002.xhtml", CHAPTER_2.as_bytes()),
    ])
}

fn sample_book() -> EBook {
    EBook::read_epub(sample_epub_bytes(), "sample.epub".to_string()).expect("sample opens")
}

#[test]
fn read_epub_should_detect_content_directory() {
    let book = sample_book();

    assert_eq!(book.content_dir, "OPS");
}

#[test]
fn parse_opf_should_return_book_with_correct_metadata() {
    let book = sample_book();
    let book_metadata = book.metadata;

    assert_eq!(book_metadata.creator, Some("Herman Melville".to_string()));
    assert_eq!(book_metadata.title, Some("Moby-Dick".to_string()));
    assert_eq!(book_metadata.language, Some("en-US".to_string()));
    assert_eq!(book_metadata.identifier, Some("sample.moby-dick-mini".to_string()));
    assert_eq!(
        book_metadata.publisher,
        Some("Harper & Brothers, Publishers".to_string())
    );
    assert_eq!(book_metadata.rights, None);
}

#[test]
fn metadata_should_be_extracted_from_opf_text_directly() {
    let metadata = BookMetadata::from_opf(PACKAGE_OPF);

    assert_eq!(metadata.title, Some("Moby-Dick".to_string()));
    assert_eq!(
        metadata.publisher,
        Some("Harper & Brothers, Publishers".to_string())
    );
}

#[test]
fn parse_opf_should_return_book_with_correct_manifest() {
    let book = sample_book();
    let manifest = book.manifest;

    assert_eq!(manifest.items.len(), 4);
    assert_eq!(manifest.items[0].id, "toc");
    assert_eq!(manifest.items[0].href, "toc.xhtml");
    assert_eq!(manifest.items[0].media_type, "application/xhtml+xml");
    assert_eq!(manifest.items[2].id, "xchapter_001");
    assert_eq!(manifest.items[3].id, "xchapter_002");
}

#[test]
fn parse_opf_should_return_book_with_correct_spine() {
    let book = sample_book();
    let spine = book.spine;

    assert_eq!(spine.items.len(), 4);
    assert_eq!(spine.items[0].id, "titlepage");
    assert_eq!(spine.items[0].value.href, "titlepage.xhtml");
    assert_eq!(spine.items[3].id, "toc");
    assert_eq!(spine.items[3].value.href, "toc.xhtml");
}

#[test]
fn spine_items_should_join_back_onto_the_manifest() {
    let manifest = BookManifest::from_opf(PACKAGE_OPF);
    let spine = BookSpine::from_opf_and_manifest(PACKAGE_OPF, &manifest).unwrap();

    for item in &spine.items {
        assert_eq!(item.value.id, item.id);
        assert!(manifest.items.contains(&item.value));
    }
}

#[test]
fn spine_should_report_a_dangling_reference() {
    let opf = r#"<package><manifest><item id="a" href="a.xhtml"/></manifest>
        <spine><itemref idref="missing"/></spine></package>"#;
    let manifest = BookManifest::from_opf(opf);

    let spine = BookSpine::from_opf_and_manifest(opf, &manifest);

    assert_eq!(spine.err(), Some(EpubError::DanglingSpineReference));
}

#[test]
fn search_for_item_should_return_matching_item_when_queried() {
    let book = sample_book();
    let manifest = book.manifest;

    let toc_from_manifest = manifest
        .search_for_item("toc")
        .unwrap_or_else(|| panic!("toc was not found during search in manifest"));

    assert_eq!(toc_from_manifest.id, "toc");
    assert_eq!(toc_from_manifest.href, "toc.xhtml");
    assert_eq!(toc_from_manifest.media_type, "application/xhtml+xml");
}

#[test]
fn table_of_contents_should_contain_properly_read_items_of_the_book() {
    let book = sample_book();
    let table_of_contents = book.table_of_contents;

    assert_eq!(table_of_contents.items.len(), 3);
    assert_eq!(table_of_contents.items[0].path, "OPS/titlepage.xhtml");
    assert_eq!(table_of_contents.items[0].label, "Moby-Dick");
    assert_eq!(table_of_contents.items[2].path, "OPS/chapter_002.xhtml");
    assert_eq!(table_of_contents.items[2].label, "Chapter 2. The Carpet-Bag.");
}

#[test]
fn reader_should_get_the_content_based_on_toc_item() {
    let mut book = sample_book();
    let selected_toc_item = book.table_of_contents.items[1].clone();

    let toc_item_content = book.get_content_by_toc_item(&selected_toc_item).unwrap();

    assert_eq!(selected_toc_item.path, "OPS/chapter_001.xhtml");
    assert_eq!(toc_item_content, CHAPTER_1);
    assert_eq!(toc_item_content.len(), CHAPTER_1.len());
}

#[test]
fn get_content_should_report_a_missing_entry() {
    let mut book = sample_book();
    let ghost_item = TableOfContentsItem::new(
        "OPS/chapter_666.xhtml".to_string(),
        "Nowhere".to_string(),
        None,
    );

    let result = book.get_content_by_toc_item(&ghost_item);

    assert_eq!(result.err(), Some(EpubError::EntryNotFound));
}

#[test]
fn get_content_should_report_an_entry_that_is_not_text() {
    let bytes = build_zip(&[
        ("META-INF/container.xml", CONTAINER.as_bytes()),
        ("OPS/package.opf", PACKAGE_OPF.as_bytes()),
        ("OPS/toc.xhtml", TOC_XHTML.as_bytes()),
        ("OPS/titlepage.xhtml", TITLEPAGE.as_bytes()),
        ("OPS/chapter_001.xhtml", &[0xff, 0xfe, 0x00, 0x41]),
        ("OPS/chapter_002.xhtml", CHAPTER_2.as_bytes()),
    ]);
    let mut book = EBook::read_epub(bytes, "sample.epub".to_string()).unwrap();
    let item = book.table_of_contents.items[1].clone();

    let result = book.get_content_by_toc_item(&item);

    assert_eq!(result.err(), Some(EpubError::Utf8DecodeError));
}

#[test]
fn read_epub_should_reject_bytes_that_are_not_a_zip() {
    let result = EBook::read_epub(vec![1, 2, 3, 4, 5], "junk.epub".to_string());

    assert_eq!(result.err(), Some(EpubError::NotAZip));
}

#[test]
fn read_epub_should_reject_an_archive_without_a_container() {
    let bytes = build_zip(&[("OPS/package.opf", PACKAGE_OPF.as_bytes())]);

    let result = EBook::read_epub(bytes, "x.epub".to_string());

    assert_eq!(result.err(), Some(EpubError::MalformedContainer));
}

#[test]
fn read_epub_should_reject_a_container_without_a_rootfile_path() {
    let container = r#"<container><rootfiles><rootfile media-type="t"/></rootfiles></container>"#;
    let bytes = build_zip(&[("META-INF/container.xml", container.as_bytes())]);

    let result = EBook::read_epub(bytes, "x.epub".to_string());

    assert_eq!(result.err(), Some(EpubError::OpfNotFound));
}

#[test]
fn read_epub_should_reject_a_missing_package_document() {
    let bytes = build_zip(&[("META-INF/container.xml", CONTAINER.as_bytes())]);

    let result = EBook::read_epub(bytes, "x.epub".to_string());

    assert_eq!(result.err(), Some(EpubError::PackageDocumentUnreadable));
}

#[test]
fn read_epub_should_reject_a_manifest_without_a_toc_entry() {
    let opf = r#"<package>
      <manifest><item id="only" href="only.xhtml" media-type="application/xhtml+xml"/></manifest>
      <spine><itemref idref="only"/></spine>
    </package>"#;
    let bytes = build_zip(&[
        ("META-INF/container.xml", CONTAINER.as_bytes()),
        ("OPS/package.opf", opf.as_bytes()),
    ]);

    let result = EBook::read_epub(bytes, "x.epub".to_string());

    assert_eq!(result.err(), Some(EpubError::TocNotFound));
}

#[test]
fn read_epub_should_reject_a_missing_toc_document() {
    let bytes = build_zip(&[
        ("META-INF/container.xml", CONTAINER.as_bytes()),
        ("OPS/package.opf", PACKAGE_OPF.as_bytes()),
    ]);

    let result = EBook::read_epub(bytes, "x.epub".to_string());

    assert_eq!(result.err(), Some(EpubError::TocUnreadable));
}

#[test]
fn should_create_reader() {
    let book = sample_book();
    let reader = EBookReader::new(book).unwrap();

    let current = reader.current_chapter();

    assert_eq!(current.path, "OPS/titlepage.xhtml");
    assert_eq!(current.label, "Moby-Dick");
}

#[test]
fn reader_should_reject_an_empty_table_of_contents() {
    let toc = r#"<nav epub:type="toc"><ol></ol></nav>"#;
    let bytes = build_zip(&[
        ("META-INF/container.xml", CONTAINER.as_bytes()),
        ("OPS/package.opf", PACKAGE_OPF.as_bytes()),
        ("OPS/toc.xhtml", toc.as_bytes()),
    ]);
    let book = EBook::read_epub(bytes, "x.epub".to_string()).unwrap();

    let reader = EBookReader::new(book);

    assert!(matches!(reader, Err(EpubError::EmptyTableOfContents)));
}

#[test]
fn should_navigate_the_chapters_using_next_and_previous() {
    let book = sample_book();
    let mut reader = EBookReader::new(book).unwrap();

    assert_eq!(reader.current_chapter().path, "OPS/titlepage.xhtml");
    assert_eq!(reader.current_chapter().label, "Moby-Dick");

    // Moving back from the first chapter changes nothing, however often.
    reader.move_to_previous_chapter().unwrap();
    reader.move_to_previous_chapter().unwrap();
    reader.move_to_previous_chapter().unwrap();
    assert_eq!(reader.current_chapter().path, "OPS/titlepage.xhtml");
    assert_eq!(reader.current_chapter().label, "Moby-Dick");

    reader.move_to_next_chapter().unwrap();
    assert_eq!(reader.current_chapter().path, "OPS/chapter_001.xhtml");
    assert_eq!(reader.current_chapter().label, "Chapter 1. Loomings.");

    reader.move_to_next_chapter().unwrap();
    assert_eq!(reader.current_chapter().path, "OPS/chapter_002.xhtml");
    assert_eq!(reader.current_chapter().label, "Chapter 2. The Carpet-Bag.");

    // Moving forward at the last chapter changes nothing, however often.
    reader.move_to_next_chapter().unwrap();
    reader.move_to_next_chapter().unwrap();
    assert_eq!(reader.current_chapter().path, "OPS/chapter_002.xhtml");

    reader.move_to_previous_chapter().unwrap();
    assert_eq!(reader.current_chapter().path, "OPS/chapter_001.xhtml");
    assert_eq!(reader.current_chapter().label, "Chapter 1. Loomings.");
}

#[test]
fn walking_forward_and_back_across_the_whole_book_returns_to_the_first_chapter() {
    let book = sample_book();
    let n = book.table_of_contents.items.len() - 1;
    let mut reader = EBookReader::new(book).unwrap();
    let first_path = reader.current_chapter().path.clone();
    let first_label = reader.current_chapter().label.clone();

    for _ in 0..n {
        reader.move_to_next_chapter().unwrap();
    }
    for _ in 0..n {
        reader.move_to_previous_chapter().unwrap();
    }

    assert_eq!(reader.current_chapter().path, first_path);
    assert_eq!(reader.current_chapter().label, first_label);
}

#[test]
fn reader_should_rebuild_the_chapter_tree_on_navigation() {
    let book = sample_book();
    let mut reader = EBookReader::new(book).unwrap();
    reader.move_to_next_chapter().unwrap();

    let chapter = reader.current_chapter();
    let body = chapter.get_body().expect("chapter one has a body");
    let body_node = chapter.recreated_structure.node(body);
    let paragraph = chapter.recreated_structure.node(body_node.get_children()[0]);

    assert_eq!(paragraph.tag, "p");
    assert_eq!(paragraph.get_content(), "Call me Ishmael.");
    assert_eq!(paragraph.classes, vec!["line".to_string()]);
}

#[test]
fn metadata_should_keep_the_last_occurrence_of_a_field() {
    let opf = r#"<metadata xmlns:dc="http://purl.org/dc/elements/1.1/">
        <dc:title>First Title</dc:title>
        <dc:title>Second Title</dc:title>
        <dc:unknown>ignored</dc:unknown>
    </metadata>"#;

    let metadata = BookMetadata::from_opf(opf);

    assert_eq!(metadata.title, Some("Second Title".to_string()));
    assert_eq!(metadata.creator, None);
}

#[test]
fn manifest_should_default_missing_attributes_to_empty_strings() {
    let opf = r#"<manifest><item id="bare"/></manifest>"#;

    let manifest = BookManifest::from_opf(opf);

    assert_eq!(manifest.items.len(), 1);
    assert_eq!(manifest.items[0].id, "bare");
    assert_eq!(manifest.items[0].href, "");
    assert_eq!(manifest.items[0].media_type, "");
}
