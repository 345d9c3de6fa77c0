use epub::chapters::chapter_node::{ChapterNode, ChapterStructure};

#[test]
fn chapter_node_should_create_chapter_node() {
    let sut = ChapterNode::new("h1".to_string(), vec![], "Chapter 1".to_string());

    assert_eq!(sut.tag, "h1".to_string());
    assert_eq!(sut.get_content(), "Chapter 1".to_string());
    assert_eq!(sut.get_children().len(), 0);
    assert!(sut.get_parent().is_none());
}

#[test]
fn chapter_node_should_add_child_to_chapter_node() {
    let sut = ChapterNode::new("h1".to_string(), vec![], "Chapter 1".to_string());
    let child = ChapterNode::new("div".to_string(), vec![], "Some line of text".to_string());

    let mut structure = ChapterStructure::with_root(sut);
    let child_id = structure.add_child(0, child);

    assert_eq!(structure.node(0).get_children().len(), 1);
    assert_eq!(structure.node(structure.node(0).get_children()[0]).tag, "div".to_string());
    assert_eq!(structure.node(child_id).get_content(), "Some line of text".to_string());
    assert_eq!(
        structure.node(structure.node(child_id).get_parent().unwrap()).tag,
        "h1".to_string()
    );
}

#[test]
fn structure_should_create_chapter_node() {
    let sut = ChapterNode::new("h1".to_string(), vec![], "Chapter 1".to_string());

    assert_eq!(sut.tag, "h1".to_string());
    assert_eq!(sut.content, "Chapter 1".to_string());
    assert_eq!(sut.children.len(), 0);
    assert!(sut.parent.is_none());
}

#[test]
fn structure_should_add_child_to_chapter_node() {
    let sut = ChapterNode::new("h1".to_string(), vec![], "Chapter 1".to_string());
    let child = ChapterNode::new("div".to_string(), vec![], "Some line of text".to_string());

    let mut structure = ChapterStructure::with_root(sut);
    let child_id = structure.add_child(0, child);

    assert_eq!(structure.node(0).children.len(), 1);
    assert_eq!(structure.node(structure.node(0).children[0]).tag, "div".to_string());
    assert_eq!(structure.node(child_id).content, "Some line of text".to_string());
    assert_eq!(
        structure.node(structure.node(child_id).parent.unwrap()).tag,
        "h1".to_string()
    );
}

#[test]
fn add_child_should_sever_links_the_given_node_carried() {
    let root = ChapterNode::new("root".to_string(), vec![], String::new());
    let mut structure = ChapterStructure::with_root(root);
    let a = structure.add_child(0, ChapterNode::new("a".to_string(), vec![], String::new()));
    let b = structure.add_child(a, ChapterNode::new("b".to_string(), vec![], String::new()));

    assert_eq!(structure.len(), 3);
    assert_eq!(structure.node(b).get_parent(), Some(a));
    assert_eq!(structure.node(a).get_parent(), Some(0));
    assert_eq!(structure.node(0).get_children(), &vec![a]);
    assert_eq!(structure.node(a).get_children(), &vec![b]);
}

#[test]
fn append_to_content_should_accumulate_pieces() {
    let root = ChapterNode::new("p".to_string(), vec![], String::new());
    let mut structure = ChapterStructure::with_root(root);
    structure.append_to_content(0, "Hello ");
    structure.append_to_content(0, "there");

    assert_eq!(structure.node(0).get_content(), "Hello there".to_string());
}
