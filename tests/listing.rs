use artist_portfolio::content::BlockContent;
use artist_portfolio::listing::{blocks_list_html, format_uuid};
use artist_portfolio::ordering::ordered_positions;
use artist_portfolio::store::ContentBlock;

#[test]
fn uuid_text_matches_the_uuid_crate() {
    assert_eq!(format_uuid(0x67e5504410b1426f9247bb680e5fe0c8), "67e55044-10b1-426f-9247-bb680e5fe0c8");
    assert_eq!(format_uuid(0), "00000000-0000-0000-0000-000000000000");
    for id in [1u128, u128::MAX, 0xdeadbeef, 1 << 100, 0x0123456789abcdef0123456789abcdef] {
        assert_eq!(format_uuid(id), uuid::Uuid::from_u128(id).to_string());
    }
}

fn entry(id: u128, kind: &str, preview: &str, token: &str) -> String {
    let id = uuid::Uuid::from_u128(id);
    format!(
        r#"<div class="block-item" data-id="{}">
            <div class="drag-handle material-icons">drag_indicator</div>
            <div class="block-info">
                <span class="block-type">{}</span>
                <span class="block-preview">{}</span>
            </div>
            <div class="block-actions">
                <a href="/admin/blocks/{}" class="icon-btn" title="Edit">
                    <span class="material-icons">edit</span>
                </a>
                <form method="POST" action="/admin/blocks/delete/{}" class="inline-form confirm-delete">
                    <input type="hidden" name="authenticity_token" value="{}">
                    <button type="submit" class="icon-btn delete" title="Delete">
                        <span class="material-icons">delete</span>
                    </button>
                </form>
            </div>
        </div>
"#,
        id, kind, preview, id, id, token
    )
}

#[test]
fn listing_shows_blocks_in_display_order() {
    let blocks = vec![
        ContentBlock { id: 2, project_id: 9, content: BlockContent::Gallery(vec!["a".to_string()]), sort_order: 1 },
        ContentBlock { id: 1, project_id: 9, content: BlockContent::Text("<p>Hi</p>".to_string()), sort_order: 0 },
        ContentBlock { id: 3, project_id: 8, content: BlockContent::Video("v".to_string()), sort_order: 0 },
    ];
    let order = ordered_positions(&blocks, 9);
    let html = blocks_list_html(&blocks, &order, "tok");
    let expected = entry(1, "text", "pHi/p", "tok") + &entry(2, "gallery", "1 images", "tok");
    assert_eq!(html, expected);
    assert_eq!(blocks_list_html(&blocks, &vec![], "tok"), "");
}
