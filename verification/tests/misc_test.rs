use mahjong_core::actor::random::{hand_kinds, pick_kind, RandomDiscard, RandomDiscardBuilder};
use mahjong_core::actor::types::{Actor, ActorBuilder, Config};
use mahjong_core::controller::reducer::blank_stage;
use mahjong_core::model::action::{Action, ActionType};
use mahjong_core::model::stage::TileStateType;
use mahjong_core::model::tile::{z8, Tile};
use mahjong_core::util::operator::{
    count_left_tile, find_operation, get_operation_index, NullOperator, Operator, OperatorClone,
    PlayerOperation,
};

#[test]
fn tile_algebra() {
    assert!(Tile(0, 5).is_suit() && !Tile(0, 5).is_honor());
    assert!(Tile(3, 1).is_honor() && !Tile(3, 1).is_suit());
    assert!(Tile(3, 8).is_honor());
    assert!(Tile(0, 1).is_terminal() && Tile(2, 9).is_terminal() && !Tile(3, 1).is_terminal());
    assert!(Tile(3, 7).is_terminal_or_honor() && Tile(1, 9).is_terminal_or_honor());
    assert!(!Tile(1, 0).is_terminal_or_honor());
    assert!(Tile(1, 0).is_simple() && Tile(1, 2).is_simple() && Tile(1, 8).is_simple());
    assert!(!Tile(1, 1).is_simple() && !Tile(1, 9).is_simple() && !Tile(3, 5).is_simple());
    assert_eq!(Tile(2, 0).to_normal(), Tile(2, 5));
    assert_eq!(Tile(2, 4).to_normal(), Tile(2, 4));
    assert_eq!(Tile(3, 1).to_normal(), Tile(3, 1));
    assert_eq!(z8(), Tile(3, 8));
}

#[test]
fn indicated_tiles() {
    assert_eq!(Tile(0, 1).next_tile(), Tile(0, 2));
    assert_eq!(Tile(0, 9).next_tile(), Tile(0, 1));
    assert_eq!(Tile(1, 0).next_tile(), Tile(1, 6));
    assert_eq!(Tile(1, 4).next_tile(), Tile(1, 5));
    assert_eq!(Tile(3, 1).next_tile(), Tile(3, 2));
    assert_eq!(Tile(3, 4).next_tile(), Tile(3, 1));
    assert_eq!(Tile(3, 5).next_tile(), Tile(3, 6));
    assert_eq!(Tile(3, 7).next_tile(), Tile(3, 5));
    for suit in 0..3 {
        for rank in 1..10 {
            let mut t = Tile(suit, rank);
            for _ in 0..9 {
                t = t.next_tile();
            }
            assert_eq!(t, Tile(suit, rank));
        }
    }
}

#[test]
fn place_of_an_operation() {
    let ops = vec![
        PlayerOperation::Nop,
        PlayerOperation::Discard(vec![]),
        PlayerOperation::Ankan(vec![Tile(0, 1), Tile(0, 2)]),
        PlayerOperation::Chii(vec![(Tile(0, 1), Tile(0, 2)), (Tile(0, 2), Tile(0, 4))]),
        PlayerOperation::Ankan(vec![Tile(0, 3)]),
        PlayerOperation::Tsumo,
    ];
    assert_eq!(get_operation_index(&ops, &PlayerOperation::Nop), (0, 0));
    assert_eq!(get_operation_index(&ops, &PlayerOperation::Tsumo), (5, 0));
    assert_eq!(get_operation_index(&ops, &PlayerOperation::Discard(vec![Tile(1, 1)])), (0, 0));
    assert_eq!(get_operation_index(&ops, &PlayerOperation::Ankan(vec![Tile(0, 2)])), (2, 1));
    assert_eq!(get_operation_index(&ops, &PlayerOperation::Ankan(vec![Tile(0, 3)])), (4, 0));
    assert_eq!(
        get_operation_index(&ops, &PlayerOperation::Chii(vec![(Tile(0, 2), Tile(0, 4))])),
        (3, 1)
    );
}

#[test]
fn copies_that_may_still_come() {
    let mut stg = blank_stage();
    assert_eq!(count_left_tile(&stg, 0, Tile(0, 1)), 4);
    stg.tile_states[0][1] = [
        TileStateType::H(0),
        TileStateType::H(1),
        TileStateType::D(2, 0),
        TileStateType::U,
    ];
    assert_eq!(count_left_tile(&stg, 0, Tile(0, 1)), 2);
    assert_eq!(count_left_tile(&stg, 1, Tile(0, 1)), 2);
    assert_eq!(count_left_tile(&stg, 2, Tile(0, 1)), 3);
    stg.tile_states[0][1] = [TileStateType::R, TileStateType::M(1, 0), TileStateType::K(1, 0), TileStateType::D(0, 1)];
    assert_eq!(count_left_tile(&stg, 2, Tile(0, 1)), 0);
}

#[test]
fn null_operator_has_a_name() {
    let op = NullOperator::new();
    assert_eq!(op.debug_string(), "NullOperator");
    let boxed = op.clone_box();
    assert_eq!(boxed.0.debug_string(), "NullOperator");
}

#[test]
fn states_as_text() {
    assert_eq!(TileStateType::H(2).to_text(), "H2");
    assert_eq!(TileStateType::M(1, 3).to_text(), "M1");
    assert_eq!(TileStateType::K(0, 0).to_text(), "K0");
    assert_eq!(TileStateType::D(3, 7).to_text(), "D3");
    assert_eq!(TileStateType::R.to_text(), "R ");
    assert_eq!(TileStateType::U.to_text(), "U ");
    assert_eq!(TileStateType::default(), TileStateType::U);
}

#[test]
fn kinds_of_a_hand() {
    let mut stg = blank_stage();
    let h = &mut stg.players[2].hand;
    h[0][0] = 1;
    h[0][5] = 2;
    h[1][9] = 1;
    h[3][1] = 3;
    assert_eq!(hand_kinds(h), vec![Tile(0, 5), Tile(1, 9), Tile(3, 1)]);
    assert_eq!(pick_kind(h, 0), Some(Tile(0, 5)));
    assert_eq!(pick_kind(h, 1), Some(Tile(1, 9)));
    assert_eq!(pick_kind(h, 2), Some(Tile(3, 1)));
    assert_eq!(pick_kind(h, 3), Some(Tile(0, 5)));
    assert_eq!(pick_kind(h, 12), Some(Tile(0, 5)));
    assert_eq!(pick_kind(&[[0; 10]; 4], 5), None);
}

#[test]
fn random_discard_throws_a_tile_of_its_hand() {
    let builder = RandomDiscardBuilder;
    let config = builder.get_default_config();
    assert_eq!(config, Config { name: "RandomDiscard".to_string(), args: vec![] });
    let mut actor = RandomDiscard::from_config(config.clone());
    assert_eq!(actor.get_config(), &config);
    let mut stg = blank_stage();
    stg.turn = 1;
    stg.players[1].hand[0][3] = 2;
    stg.players[1].hand[2][7] = 1;
    assert_eq!(actor.select_action(&stg, 0, &vec![]), Action::nop());
    assert_eq!(actor.select_action(&stg, 2, &vec![]), Action::nop());
    let mut seen = std::collections::BTreeSet::new();
    for _ in 0..200 {
        let a = actor.select_action(&stg, 1, &vec![]);
        assert_eq!(a.0, ActionType::Discard);
        assert_eq!(a.1.len(), 1);
        assert!(a.1[0] == Tile(0, 3) || a.1[0] == Tile(2, 7));
        seen.insert(a.1[0]);
    }
    assert_eq!(seen.len(), 2);
    stg.turn = 3;
    assert_eq!(actor.select_action(&stg, 3, &vec![]), Action::nop());
    let mut boxed = builder.create(config);
    boxed.0.init(1);
    assert_eq!(boxed.0.get_config().name, "RandomDiscard");
}

#[test]
fn an_operation_that_was_not_offered_is_not_found() {
    let ops = vec![
        PlayerOperation::Nop,
        PlayerOperation::Pon(vec![(Tile(0, 2), Tile(0, 2))]),
        PlayerOperation::Chii(vec![(Tile(0, 1), Tile(0, 3)), (Tile(0, 3), Tile(0, 4))]),
    ];
    assert_eq!(find_operation(&ops, &PlayerOperation::Ron), None);
    assert_eq!(find_operation(&ops, &PlayerOperation::Pon(vec![(Tile(0, 3), Tile(0, 3))])), None);
    assert_eq!(find_operation(&ops, &PlayerOperation::Pon(vec![])), None);
    assert_eq!(
        find_operation(&ops, &PlayerOperation::Chii(vec![(Tile(0, 3), Tile(0, 4))])),
        Some((2, 1))
    );
    assert_eq!(find_operation(&ops, &PlayerOperation::Nop), Some((0, 0)));
    assert_eq!(find_operation(&ops, &PlayerOperation::Discard(vec![])), Some((0, 0)));
}
