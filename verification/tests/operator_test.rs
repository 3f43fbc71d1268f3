use mahjong_core::model::tile::Tile;
use mahjong_core::util::operator::{get_block_info, BlockInfo};

#[test]
fn test_block() {
    let hand = [
        [0, 0, 0, 0, 1, 1, 0, 0, 1, 1],
        [0, 0, 1, 0, 1, 0, 0, 0, 0, 0],
        [0, 1, 0, 1, 0, 1, 0, 0, 3, 0],
        [0, 2, 0, 3, 0, 0, 3, 3, 0, 0],
    ];

    println!("{:?}", get_block_info(&hand));
}

#[test]
fn block_info_groups_tiles_within_one_gap() {
    let hand = [
        [0, 0, 0, 0, 1, 1, 0, 0, 1, 1],
        [0, 0, 1, 0, 1, 0, 0, 0, 0, 0],
        [0, 1, 0, 1, 0, 1, 0, 0, 3, 0],
        [0, 2, 0, 3, 0, 0, 3, 3, 0, 0],
    ];
    let blocks = get_block_info(&hand);
    let want = vec![
        BlockInfo { tile: Tile(0, 4), len: 2, num: 2 },
        BlockInfo { tile: Tile(0, 8), len: 2, num: 2 },
        BlockInfo { tile: Tile(1, 2), len: 3, num: 2 },
        BlockInfo { tile: Tile(2, 1), len: 5, num: 3 },
        BlockInfo { tile: Tile(2, 8), len: 1, num: 3 },
        BlockInfo { tile: Tile(3, 1), len: 1, num: 2 },
        BlockInfo { tile: Tile(3, 3), len: 1, num: 3 },
        BlockInfo { tile: Tile(3, 6), len: 1, num: 3 },
        BlockInfo { tile: Tile(3, 7), len: 1, num: 3 },
    ];
    assert_eq!(blocks, want);
}
