use artist_portfolio::content::{form_to_block_content, BlockContent, BlockKind};

#[test]
fn test_gallery_deserialization() {
    let content = r#"["https://example.com/image.jpg"]"#;
    let block = form_to_block_content("Gallery", content);
    if let BlockContent::Gallery(items) = block {
        assert_eq!(items.len(), 1);
        assert_eq!(items[0], "https://example.com/image.jpg");
    } else {
        panic!("Expected Gallery");
    }
}

#[test]
fn test_audio_deserialization() {
    let content = r#"[["https://example.com/audio.mp3", "My Song"]]"#;
    let block = form_to_block_content("Audio", content);
    if let BlockContent::Audio(items) = block {
        assert_eq!(items.len(), 1);
        assert_eq!(items[0].0, "https://example.com/audio.mp3");
        assert_eq!(items[0].1, "My Song");
    } else {
        panic!("Expected Audio");
    }
}

#[test]
fn test_empty_content() {
    let content = "";
    let block = form_to_block_content("Gallery", content);
    if let BlockContent::Gallery(items) = block {
        assert_eq!(items.len(), 0);
    } else {
        panic!("Expected Gallery");
    }
}

#[test]
fn test_invalid_json() {
    let content = "invalid json";
    let block = form_to_block_content("Gallery", content);
    if let BlockContent::Gallery(items) = block {
        assert_eq!(items.len(), 0);
    } else {
        panic!("Expected Gallery");
    }
}

#[test]
fn test_text_content() {
    let content = "<p>Hello</p>";
    let block = form_to_block_content("Text", content);
    if let BlockContent::Text(s) = block {
        assert_eq!(s, "<p>Hello</p>");
    } else {
        panic!("Expected Text");
    }
}

#[test]
fn gallery_row_decodes_to_two_images() {
    let block = form_to_block_content("gallery", r#"["a.jpg","b.jpg"]"#);
    assert_eq!(
        block,
        BlockContent::Gallery(vec!["a.jpg".to_string(), "b.jpg".to_string()])
    );
    assert_eq!(block.preview(), "2 images");
}

#[test]
fn block_type_is_matched_ignoring_case() {
    assert_eq!(form_to_block_content("VIDEO", "https://v"), BlockContent::Video("https://v".to_string()));
    assert_eq!(form_to_block_content("fIlE", "[]"), BlockContent::File(vec![]));
    assert_eq!(form_to_block_content("text", "x"), BlockContent::Text("x".to_string()));
}

#[test]
fn unknown_block_type_falls_back_to_text() {
    let raw = r#"["not", "a", "gallery"]"#;
    assert_eq!(form_to_block_content("carousel", raw), BlockContent::Text(raw.to_string()));
    assert_eq!(form_to_block_content("", ""), BlockContent::Text(String::new()));
    assert_eq!(form_to_block_content("gallery ", "[]"), BlockContent::Text("[]".to_string()));
}

#[test]
fn malformed_lists_decode_to_empty_lists() {
    assert_eq!(form_to_block_content("audio", "{"), BlockContent::Audio(vec![]));
    assert_eq!(form_to_block_content("file", r#"["only strings"]"#), BlockContent::File(vec![]));
    assert_eq!(form_to_block_content("gallery", r#"[1, 2]"#), BlockContent::Gallery(vec![]));
}

#[test]
fn encode_then_decode_gives_the_payload_back() {
    let payloads = vec![
        BlockContent::Text("<p>Hi \"there\"</p>".to_string()),
        BlockContent::Gallery(vec!["a.jpg".to_string(), "quote\".png".to_string()]),
        BlockContent::Video("https://youtube.com/embed/x".to_string()),
        BlockContent::Audio(vec![("u.mp3".to_string(), "Song, with comma".to_string())]),
        BlockContent::File(vec![("doc.pdf".to_string(), "Line\nbreak".to_string())]),
        BlockContent::Gallery(vec![]),
    ];
    for p in payloads {
        let e = p.encode();
        assert_eq!(e.block_type, p.block_type());
        assert_eq!(form_to_block_content(&e.block_type, &e.content), p);
    }
}

#[test]
fn form_text_of_lists_is_json() {
    let g = BlockContent::Gallery(vec!["a.jpg".to_string(), "b.jpg".to_string()]);
    assert_eq!(g.form_text(), r#"["a.jpg","b.jpg"]"#);
    let a = BlockContent::Audio(vec![("u".to_string(), "t".to_string())]);
    assert_eq!(a.form_text(), r#"[["u","t"]]"#);
    assert_eq!(BlockContent::Text("<b>x</b>".to_string()).form_text(), "<b>x</b>");
}

#[test]
fn block_type_names() {
    assert_eq!(BlockContent::Text(String::new()).block_type(), "text");
    assert_eq!(BlockContent::Gallery(vec![]).block_type(), "gallery");
    assert_eq!(BlockContent::Video(String::new()).block_type(), "video");
    assert_eq!(BlockContent::Audio(vec![]).block_type(), "audio");
    assert_eq!(BlockContent::File(vec![]).block_type(), "file");
    assert_eq!(BlockContent::File(vec![]).kind(), BlockKind::File);
}

#[test]
fn previews() {
    assert_eq!(BlockContent::Video("https://v/1".to_string()).preview(), "Video: https://v/1");
    let audio = BlockContent::Audio(vec![("a".to_string(), "b".to_string()); 3]);
    assert_eq!(audio.preview(), "3 audio files");
    let files = BlockContent::File(vec![("a".to_string(), "b".to_string()); 12]);
    assert_eq!(files.preview(), "12 files");
    assert_eq!(BlockContent::Gallery(vec![]).preview(), "0 images");
    assert_eq!(BlockContent::Text("<p>Hello</p>".to_string()).preview(), "pHello/p");
}

#[test]
fn text_preview_is_cut_at_fifty_characters() {
    let long = format!("<p>{}</p>", "é".repeat(60));
    let preview = BlockContent::Text(long).preview();
    assert_eq!(preview.chars().count(), 50);
    assert_eq!(preview, format!("p{}", "é".repeat(49)));
    let exact = "x".repeat(50);
    assert_eq!(BlockContent::Text(format!("<{}>", exact)).preview(), exact);
}

#[test]
fn as_text_only_for_text_blocks() {
    assert_eq!(BlockContent::Text("hi".to_string()).as_text(), Some("hi"));
    assert_eq!(BlockContent::Video("hi".to_string()).as_text(), None);
}
