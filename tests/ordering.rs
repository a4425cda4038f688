use artist_portfolio::content::BlockContent;
use artist_portfolio::ordering::{apply_reorder, next_sort_order, ordered_positions};
use artist_portfolio::store::{BlockOrderUpdate, ContentBlock};

fn block(id: u128, project_id: u128, sort_order: i32) -> ContentBlock {
    ContentBlock { id, project_id, content: BlockContent::Text(format!("b{}", id)), sort_order }
}

#[test]
fn append_goes_after_the_last_block() {
    let blocks = vec![block(1, 7, 4), block(2, 7, 9), block(3, 8, 100)];
    assert_eq!(next_sort_order(&blocks, 7), 10);
    assert_eq!(next_sort_order(&blocks, 8), 101);
    assert_eq!(next_sort_order(&blocks, 9), 0);
    assert_eq!(next_sort_order(&vec![block(1, 7, -5)], 7), -4);
    assert_eq!(next_sort_order(&vec![block(1, 7, i32::MAX)], 7), i32::MAX);
}

#[test]
fn reorder_applies_each_update_and_ignores_missing_blocks() {
    let mut blocks = vec![block(1, 7, 0), block(2, 7, 1), block(3, 7, 2)];
    let updates = vec![
        BlockOrderUpdate { id: 3, sort_order: 0 },
        BlockOrderUpdate { id: 99, sort_order: 5 },
        BlockOrderUpdate { id: 1, sort_order: 2 },
        BlockOrderUpdate { id: 3, sort_order: -1 },
    ];
    apply_reorder(&mut blocks, &updates);
    let orders: Vec<i32> = blocks.iter().map(|b| b.sort_order).collect();
    assert_eq!(orders, vec![2, 1, -1]);
    let ids: Vec<u128> = blocks.iter().map(|b| b.id).collect();
    assert_eq!(ids, vec![1, 2, 3]);
}

#[test]
fn listing_orders_by_sort_order_then_id() {
    let blocks = vec![block(5, 7, 2), block(2, 8, 0), block(9, 7, 1), block(4, 7, 1), block(1, 7, 3)];
    let order = ordered_positions(&blocks, 7);
    let ids: Vec<u128> = order.iter().map(|&i| blocks[i].id).collect();
    assert_eq!(ids, vec![4, 9, 5, 1]);
    assert!(ordered_positions(&blocks, 3).is_empty());
}
