use mahjong_core::hand::point::{
    calc_fu_index, ceil100, get_points, get_points_leader, get_points_leader_yakuman,
    get_points_non_leader, get_points_non_leader_yakuman,
};

#[test]
fn points_by_table() {
    assert_eq!(get_points_leader(30, 1), (1500, 500, 0));
    assert_eq!(get_points_non_leader(30, 1), (1000, 300, 500));
    assert_eq!(get_points_leader(40, 3), (7700, 2600, 0));
    assert_eq!(get_points_non_leader(20, 2), (1300, 400, 700));
    assert_eq!(get_points_non_leader(30, 5), (8000, 2000, 4000));
    assert_eq!(get_points_leader(110, 2), (10600, 3600, 0));
    assert_eq!(get_points_leader(30, 13), (48000, 16000, 0));
}

#[test]
fn points_of_yakuman() {
    assert_eq!(get_points_leader_yakuman(1), (48000, 16000, 0));
    assert_eq!(get_points_non_leader_yakuman(2), (64000, 16000, 32000));
    assert_eq!(get_points(true, 0, 0, 2), (96000, 32000, 0));
    assert_eq!(get_points(false, 30, 4, 0), (7700, 2000, 3900));
}

#[test]
fn fu_index_and_rounding() {
    assert_eq!(calc_fu_index(20), 0);
    assert_eq!(calc_fu_index(25), 1);
    assert_eq!(calc_fu_index(30), 2);
    assert_eq!(calc_fu_index(110), 10);
    assert_eq!(ceil100(0), 0);
    assert_eq!(ceil100(1), 100);
    assert_eq!(ceil100(2566), 2600);
    assert_eq!(ceil100(2600), 2600);
}

#[test]
fn dealer_tsumo_is_ron_but_for_rounding() {
    for fan in 1..13 {
        for fu in [20usize, 25, 30, 40, 50, 60, 70, 80, 90, 100, 110] {
            let p = get_points(true, fu, fan, 0);
            assert!(p.0 <= 3 * p.1 && 3 * p.1 < p.0 + 300);
            let q = get_points(false, fu, fan, 0);
            assert!(q.0 <= 2 * q.1 + q.2 && 2 * q.1 + q.2 < q.0 + 300);
        }
    }
}
