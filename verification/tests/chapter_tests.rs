use epub::chapters::chapter::Chapter;
use epub::chapters::chapter_node::{ChapterNode, ChapterStructure};

fn create_chapter(path: &str, label: &str, content: &str) -> Chapter {
    Chapter {
        path: path.to_string(),
        label: label.to_string(),
        raw_content: content.to_string(),
        recreated_structure: ChapterStructure::with_root(ChapterNode::new(
            "tag".to_string(),
            vec![],
            "content".to_string(),
        )),
        root: 0,
    }
}

#[test]
fn partial_eq_should_check_path() {
    let chapter1 = create_chapter("1", "1", "111");
    let chapter2 = create_chapter("2", "1", "111");

    assert_ne!(chapter1, chapter2);
}

#[test]
fn partial_eq_should_check_label() {
    let chapter1 = create_chapter("1", "1", "111");
    let chapter2 = create_chapter("1", "2", "111");

    assert_ne!(chapter1, chapter2);
}

#[test]
fn partial_eq_should_not_check_content() {
    let chapter1 = create_chapter("1", "1", "111");
    let chapter2 = create_chapter("1", "1", "222");

    assert_eq!(chapter1, chapter2);
}

fn recreate(content: &str) -> (ChapterStructure, usize) {
    Chapter::recreate_structure(content).expect("markup should be balanced")
}

#[test]
fn should_return_some_when_body_node_exists_in_contnet() {
    let chapter_content: &str = r#"
        <?xml version='1.0' encoding='UTF-8'?>
        <html xmlns="http://www.w3.org/1999/xhtml">
            <head>
                <title>DRAGONEZA-1</title>
                <link href="../Styles/Dragoneza_idstyles.css" rel="stylesheet" type="text/css"/>
                <meta http-equiv="Content-Type" content="text/html; charset=utf-8"/>
            </head>
            <body id="DRAGONEZA" xml:lang="pl-PL">
                <div class="Basic-text-frame">
                    <p id="toc_marker-1" class="TYTUL-R">Spis tresci</p>
                    <p class="spis-autor">Agnieszka Fulinska</p>
                </div>
            </body>
        </html>
        "#;

    let (structure, root) = recreate(chapter_content);
    let chapter = Chapter {
        path: "path".to_string(),
        label: "label".to_string(),
        recreated_structure: structure,
        root,
        raw_content: chapter_content.to_string(),
    };

    let body = chapter.get_body();

    assert!(body.is_some());
    let body_node = chapter.recreated_structure.node(body.unwrap());
    let first_child = chapter.recreated_structure.node(body_node.get_children()[0]);
    assert!(first_child.classes.contains(&"Basic-text-frame".to_string()));
}

#[test]
fn should_return_none_when_no_body_node_exists_in_contnet() {
    let chapter_content: &str = r#"
        <?xml version='1.0' encoding='UTF-8'?>
        <html xmlns="http://www.w3.org/1999/xhtml">
            <head>
                <title>DRAGONEZA-1</title>
                <link href="../Styles/Dragoneza_idstyles.css" rel="stylesheet" type="text/css"/>
                <meta http-equiv="Content-Type" content="text/html; charset=utf-8"/>
            </head>
            <div class="Basic-text-frame">
                <p id="toc_marker-1" class="TYTUL-R">Spis tresci</p>
                <p class="spis-autor">Agnieszka Fulinska</p>
            </div>
        </html>
        "#;

    let (structure, root) = recreate(chapter_content);
    let chapter = Chapter {
        path: "path".to_string(),
        label: "label".to_string(),
        recreated_structure: structure,
        root,
        raw_content: chapter_content.to_string(),
    };

    assert!(chapter.get_body().is_none());
}

#[test]
fn should_recreate_div_with_nested_element_and_multiple_classes() {
    let chapter_content: &str =
        r#"<div class="line bold">Hello there - <i class="character-name">said Obi Wan</i></div>"#;

    let (st, root) = recreate(chapter_content);
    let sut = st.node(root);

    assert_eq!(sut.tag, "root".to_string());
    assert_eq!(sut.get_children().len(), 1);

    let hello_there_div = st.node(sut.get_children()[0]);

    assert_eq!(hello_there_div.tag, "div".to_string());
    assert_eq!(hello_there_div.get_content(), "Hello there - ".to_string());
    assert_eq!(hello_there_div.classes.len(), 2);
    assert_eq!(hello_there_div.classes[0], "line");
    assert_eq!(hello_there_div.classes[1], "bold");
    assert_eq!(hello_there_div.get_children().len(), 1);

    let obi_wan_said = st.node(hello_there_div.get_children()[0]);

    assert_eq!(obi_wan_said.tag, "i".to_string());
    assert_eq!(obi_wan_said.get_content(), "said Obi Wan".to_string());
    assert_eq!(obi_wan_said.classes.len(), 1);
    assert_eq!(obi_wan_said.classes[0], "character-name");
    assert_eq!(obi_wan_said.get_children().len(), 0);
}

#[test]
fn should_recreate_paragraph_with_single_quotes_in_content() {
    let chapter_content: &str = r#"<p class="line">'General Kenobi' - replied Grievous</p>"#;

    let (st, root) = recreate(chapter_content);
    let sut = st.node(root);

    assert_eq!(sut.tag, "root".to_string());
    assert_eq!(sut.get_children().len(), 1);

    let general_kenobi = st.node(sut.get_children()[0]);

    assert_eq!(general_kenobi.tag, "p".to_string());
    assert_eq!(
        general_kenobi.get_content(),
        "'General Kenobi' - replied Grievous".to_string()
    );
    assert_eq!(general_kenobi.classes.len(), 1);
    assert_eq!(general_kenobi.classes[0], "line");
    assert_eq!(general_kenobi.get_children().len(), 0);
}

#[test]
fn should_recreate_complex_chapter_structure() {
    let chapter_content: &str = r#"
    <h1 class="first-heading">Chapter 1</h1>
    <div class="line bold">Hello there - <i>said Obi Wan</i></div>
    <p class="line bold">'General Kenobi' - replied Grievous</p>
    <div class="list">
        <div>1</div>
        <div>2</div>
        <div>3
            <div class="nested-first">3a</div>
            <div class="nested-last">3b</div>
        </div>
    </div>
"#;

    let (st, root) = recreate(chapter_content);
    let sut = st.node(root);

    assert_eq!(sut.tag, "root".to_string());
    assert_eq!(sut.get_children().len(), 4);

    let chapter_heading_h1 = st.node(sut.get_children()[0]);
    assert_eq!(chapter_heading_h1.tag, "h1".to_string());
    assert_eq!(chapter_heading_h1.get_content(), "Chapter 1".to_string());
    assert_eq!(chapter_heading_h1.get_children().len(), 0);

    let hello_there_div = st.node(sut.get_children()[1]);
    assert_eq!(hello_there_div.tag, "div".to_string());
    assert_eq!(hello_there_div.get_content(), "Hello there - ".to_string());
    assert_eq!(hello_there_div.classes.len(), 2);
    assert_eq!(hello_there_div.classes[0], "line");
    assert_eq!(hello_there_div.classes[1], "bold");
    assert_eq!(hello_there_div.get_children().len(), 1);

    let said_obi_wan_i = st.node(hello_there_div.get_children()[0]);
    assert_eq!(said_obi_wan_i.tag, "i".to_string());
    assert_eq!(said_obi_wan_i.get_content(), "said Obi Wan".to_string());
    assert_eq!(said_obi_wan_i.classes.len(), 0);
    assert_eq!(said_obi_wan_i.get_children().len(), 0);

    let general_kenobi_p = st.node(sut.get_children()[2]);
    assert_eq!(general_kenobi_p.tag, "p".to_string());
    assert_eq!(
        general_kenobi_p.get_content(),
        "'General Kenobi' - replied Grievous".to_string()
    );
    assert_eq!(general_kenobi_p.get_children().len(), 0);

    let list_div = st.node(sut.get_children()[3]);
    assert_eq!(list_div.tag, "div".to_string());
    assert_eq!(list_div.get_content().trim(), "");
    assert_eq!(list_div.get_children().len(), 3);

    let first_level_first_div = st.node(list_div.get_children()[0]);
    assert_eq!(first_level_first_div.tag, "div".to_string());
    assert_eq!(first_level_first_div.get_content(), "1".to_string());
    assert_eq!(first_level_first_div.get_children().len(), 0);

    let first_level_second_div = st.node(list_div.get_children()[1]);
    assert_eq!(first_level_second_div.tag, "div".to_string());
    assert_eq!(first_level_second_div.get_content(), "2".to_string());
    assert_eq!(first_level_second_div.get_children().len(), 0);

    let first_level_third_div = st.node(list_div.get_children()[2]);
    assert_eq!(first_level_third_div.tag, "div".to_string());
    assert_eq!(first_level_third_div.get_content().trim(), "3".to_string());
    assert_eq!(first_level_third_div.get_children().len(), 2);

    let second_level_first_div = st.node(first_level_third_div.get_children()[0]);
    assert_eq!(second_level_first_div.tag, "div".to_string());
    assert_eq!(second_level_first_div.get_content(), "3a".to_string());
    assert_eq!(second_level_first_div.get_children().len(), 0);

    let second_level_second_div = st.node(first_level_third_div.get_children()[1]);
    assert_eq!(second_level_second_div.tag, "div".to_string());
    assert_eq!(second_level_second_div.get_content(), "3b".to_string());
    assert_eq!(second_level_second_div.get_children().len(), 0);
}

#[test]
fn should_remove_soft_hyphens_from_the_content() {
    let chapter_content: &str = "
    <body>
        <p>Znaj\u{ad}do\u{ad}wa\u{ad}\u{142}em si\u{119} na polu.</p>
    </body>
";

    let (st, root) = recreate(chapter_content);
    let sut = st.node(root);

    assert_eq!(sut.tag, "root".to_string());
    assert_eq!(sut.get_children().len(), 1);

    let body = st.node(sut.get_children()[0]);
    assert_eq!(body.tag, "body".to_string());

    let first_paragraph = st.node(body.get_children()[0]);
    assert_eq!(first_paragraph.tag, "p".to_string());
    assert_eq!(
        first_paragraph.get_content(),
        "Znajdowa\u{142}em si\u{119} na polu.".to_string()
    );
    assert_eq!(first_paragraph.get_children().len(), 0);
}

#[test]
fn recreate_structure_should_stop_at_the_first_markup_fault() {
    // A stray closing tag is a tokenizer fault: the event stream simply
    // ends there, and everything read up to it is kept.
    let (st, root) = recreate("<p>text</p></div>");

    assert_eq!(st.node(root).tag, "root".to_string());
    assert_eq!(st.node(root).get_children().len(), 1);
    assert_eq!(st.node(st.node(root).get_children()[0]).get_content(), "text".to_string());
}

#[test]
fn recreate_structure_should_keep_cursor_on_dangling_open_tag() {
    let (st, root) = recreate("<html><body><p>deep");

    assert_eq!(st.node(root).tag, "p".to_string());
    assert_eq!(st.node(root).get_content(), "deep".to_string());
}

#[test]
fn classes_should_split_on_runs_of_whitespace() {
    let (st, root) = recreate("<div class=\"a   b\tc\">x</div>");

    let div = st.node(st.node(root).get_children()[0]);

    assert_eq!(div.classes, vec!["a".to_string(), "b".to_string(), "c".to_string()]);
}
