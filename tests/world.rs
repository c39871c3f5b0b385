use entropy::entity::Guest;
use entropy::err::{ApiError, ModelError, OperationError};
use entropy::grid::{Node, NodeData, NodeID};
use entropy::world::World;

fn pw() -> String {
    "p".to_string()
}

fn node(x: i16, y: i16, bytes: Vec<u8>) -> Node {
    Node { id: NodeID(x, y), data: NodeData::from_be_bytes(bytes) }
}

/// A world with player 1 ("alice", "p") and its free guest 1.
fn world_with_guest() -> World {
    let mut w = World::with_origin(NodeData::from_be_bytes(vec![0u8; 8]));
    w.register("alice".to_string(), pw()).unwrap();
    w.spawn_guest(1, pw()).unwrap();
    w
}

fn set_guest(w: &mut World, energy: i64, pos: NodeID, temperature: i16) -> Guest {
    let g = Guest { id: 1, energy, pos: pos.into_i32(), temperature, master_id: 1 };
    w.update_guest(g).unwrap()
}

fn cell_sum(n: &NodeData) -> i64 {
    let mut s: i64 = 0;
    for i in 0..n.len() {
        s += n.get(i).unwrap() as i64;
    }
    s
}

#[test]
fn register_and_spawn() {
    let mut w = World::new();
    let p = w.register("alice".to_string(), pw()).unwrap();
    assert_eq!(p.id, 1);
    assert_eq!(p.name, "alice");
    let g = w.spawn_guest(1, pw()).unwrap();
    assert_eq!(
        g,
        Guest { id: 1, energy: 0, pos: NodeID(0, 0).into_i32(), temperature: 0, master_id: 1 }
    );
    assert_eq!(g.pos, 0);
    assert!(matches!(
        w.spawn_guest(1, pw()),
        Err(ApiError::Operation(OperationError::AlreadyHasGuest))
    ));
}

#[test]
fn second_player_gets_next_ids() {
    let mut w = World::new();
    w.register("alice".to_string(), pw()).unwrap();
    let bob = w.register("bob".to_string(), "q".to_string()).unwrap();
    assert_eq!(bob.id, 2);
    let g = w.spawn_guest(2, "q".to_string()).unwrap();
    assert_eq!(g.id, 1);
    assert_eq!(g.master_id, 2);
    let g = w.spawn_guest(1, pw()).unwrap();
    assert_eq!(g.id, 2);
}

#[test]
fn walk_wraps_at_the_pole() {
    let mut w = world_with_guest();
    w.update_node(node(32767, 0, vec![0u8; 4])).unwrap();
    set_guest(&mut w, 2, NodeID(32767, 0), 0);
    let g = w.walk(1, pw(), 1, (1, 0)).unwrap();
    assert_eq!(g.pos, NodeID(-32768, 0).into_i32());
    assert_eq!(g.energy, 1);
}

#[test]
fn test_walk_edge() {
    let mut w = world_with_guest();
    w.update_node(node(i16::MAX, 0, vec![5u8; 3])).unwrap();
    set_guest(&mut w, 10, NodeID(i16::MAX, 0), 0);
    let g = w.walk(1, pw(), 1, (1, 0)).unwrap();
    assert_eq!(NodeID::from_i32(g.pos), NodeID(i16::MIN, 0));
}

#[test]
fn test_walk() {
    let mut w = world_with_guest();
    set_guest(&mut w, 3, NodeID(0, 0), 0);
    let mut pos = NodeID(0, 0);
    let g = w.walk(1, pw(), 1, (1, 1)).unwrap();
    assert_eq!(NodeID::from_i32(g.pos), pos.navi_to((1, 1)));
    assert_eq!(g.energy, 2);
}

#[test]
fn walk_leaves_one_unit_of_waste_heat() {
    let mut w = world_with_guest();
    w.update_node(node(0, 0, vec![127u8, 127, 10, 127])).unwrap();
    set_guest(&mut w, 3, NodeID(0, 0), 0);
    w.walk(1, pw(), 1, (0, 1)).unwrap();
    let n = w.get_node(0, 0);
    assert_eq!(n.data.get(2), Some(11));
    assert_eq!(cell_sum(&n.data), 127 * 3 + 11);
    assert!(w.get_node(0, 1).data.len() < 1024);
}

#[test]
fn walk_with_picks_the_candidate_modulo_their_number() {
    let mut w = world_with_guest();
    w.update_node(node(0, 0, vec![127u8, 1, 127, 2, 3])).unwrap();
    set_guest(&mut w, 3, NodeID(0, 0), 0);
    let fresh = NodeData::from_be_bytes(vec![9u8, 8]);
    let g = w.walk_with(1, pw(), 1, (-1, 0), 4, fresh).unwrap();
    assert_eq!(g.pos, NodeID(-1, 0).into_i32());
    let src = w.get_node(0, 0).data;
    assert_eq!(src.to_be_bytes(), vec![127u8, 1, 127, 3, 3]);
    let dest = w.get_node(-1, 0).data;
    assert_eq!(dest.to_be_bytes(), vec![9u8, 8]);
}

#[test]
fn walk_standing_still_exhausts_the_same_node() {
    let mut w = world_with_guest();
    w.update_node(node(0, 0, vec![0u8])).unwrap();
    set_guest(&mut w, 1, NodeID(0, 0), 0);
    let g = w.walk_with(1, pw(), 1, (0, 0), 0, NodeData::from_be_bytes(vec![])).unwrap();
    assert_eq!(g.pos, 0);
    assert_eq!(g.energy, 0);
    assert_eq!(w.get_node(0, 0).data.get(0), Some(1));
}

#[test]
fn walk_refuses_a_long_step() {
    let mut w = world_with_guest();
    set_guest(&mut w, 3, NodeID(0, 0), 0);
    assert!(matches!(
        w.walk(1, pw(), 1, (2, 0)),
        Err(ApiError::Operation(OperationError::DirectionNotAllowed((2, 0))))
    ));
}

#[test]
fn walk_without_energy() {
    let mut w = world_with_guest();
    assert!(matches!(
        w.walk(1, pw(), 1, (1, 0)),
        Err(ApiError::Operation(OperationError::EnergyNotEnough { require: 1, reserve: 0 }))
    ));
}

#[test]
fn walk_on_a_saturated_node() {
    let mut w = world_with_guest();
    w.update_node(node(0, 0, vec![127u8; 6])).unwrap();
    set_guest(&mut w, 3, NodeID(0, 0), 0);
    assert!(matches!(
        w.walk(1, pw(), 1, (1, 0)),
        Err(ApiError::Operation(OperationError::NodeTemperatureTooHigh(NodeID(0, 0))))
    ));
    assert_eq!(w.get_guest(1, pw(), 1).unwrap().energy, 3);
    assert_eq!(w.count_nodes(), 1);
}

#[test]
fn harvest_with_unequal_temperatures() {
    let mut w = world_with_guest();
    w.update_node(node(0, 0, vec![100u8])).unwrap();
    set_guest(&mut w, 0, NodeID(0, 0), -20);
    let g = w.harvest(1, pw(), 1, 0).unwrap();
    assert_eq!(g.temperature, 11);
    assert_eq!(g.energy, 31);
    assert_eq!(w.get_node(0, 0).data.get(0), Some(69));
}

#[test]
fn harvest_from_a_colder_cell() {
    let mut w = world_with_guest();
    w.update_node(node(0, 0, vec![0u8])).unwrap();
    set_guest(&mut w, 5, NodeID(0, 0), 100);
    // levels 228 and 128: delta = 100 * 100 / 456 = 21
    let g = w.harvest(1, pw(), 1, 0).unwrap();
    assert_eq!(g.temperature, 79);
    assert_eq!(g.energy, 26);
    assert_eq!(w.get_node(0, 0).data.get(0), Some(21));
}

#[test]
fn harvest_equal_temperatures_moves_nothing() {
    let mut w = world_with_guest();
    w.update_node(node(0, 0, vec![0x80u8])).unwrap();
    set_guest(&mut w, 5, NodeID(0, 0), -128);
    let g = w.harvest(1, pw(), 1, 0).unwrap();
    assert_eq!(g.temperature, -128);
    assert_eq!(g.energy, 5);
}

#[test]
fn harvest_outside_the_node() {
    let mut w = world_with_guest();
    w.update_node(node(0, 0, vec![1u8, 2, 3])).unwrap();
    assert!(matches!(
        w.harvest(1, pw(), 1, 3),
        Err(ApiError::Operation(OperationError::CellIndexOutOfRange {
            node: NodeID(0, 0),
            require: 3,
            max: 3
        }))
    ));
}

#[test]
fn heat_overflow() {
    let mut w = world_with_guest();
    w.update_node(node(0, 0, vec![120u8])).unwrap();
    set_guest(&mut w, 1000, NodeID(0, 0), 0);
    assert!(matches!(
        w.heat(1, pw(), 1, 0, 200),
        Err(ApiError::Operation(OperationError::CellTemperatureTooHigh {
            node: NodeID(0, 0),
            index: 0
        }))
    ));
    assert_eq!(w.get_guest(1, pw(), 1).unwrap().energy, 1000);
}

#[test]
fn heat_moves_energy_into_the_cell() {
    let mut w = world_with_guest();
    w.update_node(node(0, 0, vec![10u8, 20])).unwrap();
    set_guest(&mut w, 50, NodeID(0, 0), 0);
    let g = w.heat(1, pw(), 1, 1, 30).unwrap();
    assert_eq!(g.energy, 20);
    assert_eq!(w.get_node(0, 0).data.get(1), Some(50));
}

#[test]
fn heat_limits() {
    let mut w = world_with_guest();
    w.update_node(node(0, 0, vec![0u8])).unwrap();
    set_guest(&mut w, 1000, NodeID(0, 0), 0);
    assert!(matches!(
        w.heat(1, pw(), 1, 0, 256),
        Err(ApiError::Operation(OperationError::Model(ModelError::OutOfLimit {
            limit_type: "u8",
            ..
        })))
    ));
    assert!(matches!(
        w.heat(1, pw(), 1, 0, -1),
        Err(ApiError::Operation(OperationError::Model(ModelError::OutOfLimit { .. })))
    ));
    set_guest(&mut w, 3, NodeID(0, 0), 0);
    assert!(matches!(
        w.heat(1, pw(), 1, 0, 4),
        Err(ApiError::Operation(OperationError::EnergyNotEnough { require: 4, reserve: 3 }))
    ));
}

#[test]
fn arrange_cost_scales() {
    let mut w = world_with_guest();
    set_guest(&mut w, 100, NodeID(0, 0), 0);
    let child = w.arrange(1, pw(), 1, 10).unwrap();
    assert_eq!(child.energy, 10);
    assert_eq!(child.pos, NodeID(0, 0).into_i32());
    assert_eq!(child.temperature, 0);
    assert_eq!(child.master_id, 1);
    assert_eq!(child.id, 2);
    assert_eq!(w.get_guest(1, pw(), 1).unwrap().energy, 88);
    // two guests now: the next bud costs 4
    let grand = w.arrange(1, pw(), 1, 0).unwrap();
    assert_eq!(grand.energy, 0);
    assert_eq!(w.get_guest(1, pw(), 1).unwrap().energy, 84);
}

#[test]
fn arrange_without_enough_energy() {
    let mut w = world_with_guest();
    set_guest(&mut w, 1, NodeID(0, 0), 0);
    assert!(matches!(
        w.arrange(1, pw(), 1, 0),
        Err(ApiError::Operation(OperationError::EnergyNotEnough { require: 2, reserve: 1 }))
    ));
    set_guest(&mut w, 5, NodeID(0, 0), 0);
    assert!(matches!(
        w.arrange(1, pw(), 1, 4),
        Err(ApiError::Operation(OperationError::EnergyNotEnough { require: 4, reserve: 3 }))
    ));
    assert!(matches!(
        w.arrange(1, pw(), 1, -1),
        Err(ApiError::Operation(OperationError::Model(ModelError::OutOfLimit { .. })))
    ));
    assert_eq!(w.get_guest(1, pw(), 1).unwrap().energy, 5);
}

#[test]
fn detect_lists_others_on_the_node() {
    let mut w = world_with_guest();
    set_guest(&mut w, 100, NodeID(0, 0), 0);
    w.arrange(1, pw(), 1, 10).unwrap();
    w.register("bob".to_string(), "q".to_string()).unwrap();
    w.spawn_guest(2, "q".to_string()).unwrap();
    let seen = w.detect(1, pw(), 1).unwrap();
    let ids: Vec<i32> = seen.iter().map(|d| d.id).collect();
    assert_eq!(ids, vec![2, 3]);
    assert!(seen.iter().all(|d| d.pos == 0));
    let seen = w.detect(2, "q".to_string(), 3).unwrap();
    let ids: Vec<i32> = seen.iter().map(|d| d.id).collect();
    assert_eq!(ids, vec![1, 2]);
}

#[test]
fn credentials_are_checked() {
    let mut w = world_with_guest();
    assert!(matches!(w.get_guest(1, "x".to_string(), 1), Err(ApiError::AuthError(1))));
    assert!(matches!(w.spawn_guest(7, pw()), Err(ApiError::AuthError(7))));
    assert!(matches!(w.list_guest(1, "".to_string()), Err(ApiError::AuthError(1))));
    assert!(w.verify_player(1, pw()).is_ok());
    assert!(w.find_player(1, "q".to_string()).is_none());
    assert!(matches!(
        w.find_exact_player(1, "q".to_string()),
        Err(OperationError::PlayerNotExist(1))
    ));
}

#[test]
fn guests_of_others_are_hidden() {
    let mut w = world_with_guest();
    w.register("bob".to_string(), "q".to_string()).unwrap();
    assert!(matches!(
        w.get_guest(2, "q".to_string(), 1),
        Err(ApiError::Operation(OperationError::GuestNotExist(1)))
    ));
    assert!(matches!(
        w.get_guest(1, pw(), 9),
        Err(ApiError::Operation(OperationError::GuestNotExist(9)))
    ));
}

#[test]
fn test_get_guest() {
    let w = world_with_guest();
    let g = w.get_guest(1, pw(), 1).unwrap();
    assert_eq!(g.id, 1);
}

#[test]
fn test_list_guest() {
    let mut w = world_with_guest();
    set_guest(&mut w, 100, NodeID(0, 0), 0);
    w.arrange(1, pw(), 1, 1).unwrap();
    let ids: Vec<i32> = w.list_guest(1, pw()).unwrap().iter().map(|g| g.id).collect();
    assert_eq!(ids, vec![1, 2]);
}

#[test]
fn public_player_hides_the_credential() {
    let w = world_with_guest();
    let p = w.get_player_public(1).unwrap();
    assert_eq!(p.id, 1);
    assert_eq!(p.name, "alice");
    assert!(matches!(w.get_player_public(2), Err(OperationError::PlayerNotExist(2))));
}

#[test]
fn concurrent_first_touch_of_a_node() {
    let mut w = World::new();
    let a = w.get_node(5, 7);
    let b = w.get_node(5, 7);
    assert_eq!(a, b);
    assert_eq!(a.id, NodeID(5, 7));
    assert_eq!(w.count_nodes(), 2);
    assert_eq!(w.get_node_bytes(5, 7), b.data.to_be_bytes());
}

#[test]
fn test_node() {
    let mut w = World::new();
    let before = w.get_node(114, 514).data;
    let again = w.get_node(114, 514).data;
    assert_eq!(before, again);
    assert!(before.len() < 1024);
}

#[test]
fn save_lot_nodes() {
    let mut w = World::new();
    for i in 0..1001i16 {
        w.get_node(i, i);
    }
    // (0, 0) is the origin, seeded with the world
    assert_eq!(w.count_nodes(), 1001);
}

#[test]
fn upsert_keeps_an_existing_node() {
    let mut w = World::with_origin(NodeData::from_be_bytes(vec![1u8, 2, 3]));
    w.upsert_node_if_absent(NodeID(0, 0));
    assert_eq!(w.get_node_bytes(0, 0), vec![1u8, 2, 3]);
    w.upsert_node_if_absent(NodeID(3, 3));
    assert_eq!(w.count_nodes(), 2);
}

#[test]
fn storage_updates_are_validated() {
    let mut w = world_with_guest();
    let bad = Guest { id: 1, energy: -1, pos: 0, temperature: 0, master_id: 1 };
    assert!(matches!(w.update_guest(bad), Err(OperationError::Model(ModelError::OutOfLimit { .. }))));
    let bad = Guest { id: 5, energy: 1, pos: 0, temperature: 0, master_id: 1 };
    assert!(matches!(w.update_guest(bad), Err(OperationError::GuestNotExist(5))));
    let bad = Guest { id: 1, energy: 1, pos: 0, temperature: 200, master_id: 1 };
    assert!(matches!(w.update_guest(bad), Err(OperationError::Model(ModelError::OutOfLimit { .. }))));
    let bad = Guest { id: 1, energy: 1, pos: 0, temperature: 0, master_id: 4 };
    assert!(matches!(w.update_guest(bad), Err(OperationError::PlayerNotExist(4))));
    assert!(w.update_node(node(1, 1, vec![0u8; 1025])).is_err());
    assert!(w.update_node(node(1, 1, vec![0u8; 1024])).is_ok());
    // a guest moved onto an unknown node brings that node into being
    set_guest(&mut w, 1, NodeID(40, 40), 0);
    assert_eq!(w.count_nodes(), 3);
}
