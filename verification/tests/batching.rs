use pixgine::batching::{group_by_texture, SpriteBatcher};

#[test]
fn groups_follow_first_use_and_draw_order() {
    let draws = vec![(7u64, [1, 2, 3, 4]), (3, [5, 6, 7, 8]), (7, [9, 10, 11, 12])];
    let g = group_by_texture(&draws);
    assert_eq!(g, vec![(7, vec![1, 2, 3, 4, 9, 10, 11, 12]), (3, vec![5, 6, 7, 8])]);
}

#[test]
fn flush_only_when_sprites_were_queued() {
    let mut b: SpriteBatcher<u8> = SpriteBatcher::new();
    assert_eq!(b.flush(), None);
    b.draw_sprite(1, [1, 1, 1, 1]);
    b.draw_sprite(2, [2, 2, 2, 2]);
    assert_eq!(b.flush(), Some(vec![(1, vec![1, 1, 1, 1]), (2, vec![2, 2, 2, 2])]));
    assert_eq!(b.flush(), None);
    b.draw_sprite(2, [3, 3, 3, 3]);
    assert_eq!(b.flush(), Some(vec![(2, vec![3, 3, 3, 3])]));
}
