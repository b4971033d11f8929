use rubiks::{Axis, Direction, LayerTurn, Rotation, RotationController, RubiksCube, QUARTER_TURN};

fn solved_cube(sides: u32) -> RubiksCube {
    let handles: Vec<u64> = (0..sides.pow(3) as u64).map(|i| 1000 + i).collect();
    RubiksCube::new(sides, handles)
}

fn inverse_holds(rb: &RubiksCube) -> bool {
    let n = rb.pos_to_cube.len();
    rb.cube_to_pos.len() == n
        && (0..n).all(|p| rb.cube_to_pos[rb.pos_to_cube[p].1] as usize == p)
        && (0..n).all(|i| rb.pos_to_cube[rb.cube_to_pos[i] as usize].1 == i)
}

#[test]
fn coords_round_trip_for_several_sizes() {
    for sides in 1..6u32 {
        let rb = RubiksCube { side_size: sides, pos_to_cube: Vec::new(), cube_to_pos: Vec::new() };
        for x in 0..sides {
            for y in 0..sides {
                for z in 0..sides {
                    let pos = RubiksCube::corrds_to_pos(sides, x, y, z);
                    assert_eq!(rb.pos_to_qube_coords(pos), (x, y, z));
                }
            }
        }
        for pos in 0..sides.pow(3) {
            let (x, y, z) = rb.pos_to_qube_coords(pos);
            assert_eq!(RubiksCube::corrds_to_pos(sides, x, y, z), pos);
        }
    }
}

#[test]
fn coords_exact_values() {
    assert_eq!(RubiksCube::corrds_to_pos(3, 2, 1, 0), 21);
    assert_eq!(RubiksCube::corrds_to_pos(4, 3, 3, 3), 63);
    let rb = solved_cube(3);
    assert_eq!(rb.pos_to_qube_coords(23), (2, 1, 2));
    assert_eq!(rb.cube_corrds_to_pos(1, 2, 0), 15);
}

#[test]
fn new_cube_is_solved_and_consistent() {
    let rb = solved_cube(3);
    assert!(rb.is_solved());
    assert!(inverse_holds(&rb));
    assert_eq!(rb.pos_to_cube[5], (1005, 5));
    assert_eq!(rb.cube_to_pos, (0..27).collect::<Vec<u32>>());
}

#[test]
fn smallest_cube_is_solved() {
    let rb = solved_cube(2);
    assert!(rb.is_solved());
    assert_eq!(rb.pos_to_cube.len(), 8);
}

#[test]
fn single_turn_unsolves() {
    let normals = [Direction::X, Direction::NegX, Direction::Y, Direction::NegY, Direction::Z, Direction::NegZ];
    for &normal in normals.iter() {
        for &direction in normals.iter() {
            if normal.axis() == direction.axis() {
                continue;
            }
            for cube_id in [0usize, 13, 26] {
                let mut rb = solved_cube(3);
                rb.rotate(cube_id, normal, direction);
                assert!(!rb.is_solved());
                assert!(inverse_holds(&rb));
            }
        }
    }
}

#[test]
fn is_solved_detects_a_swap() {
    let mut rb = solved_cube(2);
    rb.pos_to_cube.swap(0, 1);
    rb.cube_to_pos.swap(0, 1);
    assert!(!rb.is_solved());
}

#[test]
fn four_turns_restore_the_layer() {
    for sides in 2..5u32 {
        for cube_id in [0usize, 5, (sides.pow(3) - 1) as usize] {
            let mut rb = solved_cube(sides);
            rb.rotate(1, Direction::Y, Direction::Z);
            let start = rb.clone();
            for turn in 0..4 {
                rb.rotate(cube_id, Direction::NegZ, Direction::X);
                assert!(inverse_holds(&rb));
                if turn < 3 {
                    assert_ne!(rb.pos_to_cube, start.pos_to_cube);
                }
            }
            assert_eq!(rb.pos_to_cube, start.pos_to_cube);
            assert_eq!(rb.cube_to_pos, start.cube_to_pos);
        }
    }
}

#[test]
fn turn_then_reverse_turn_restores() {
    let mut rb = solved_cube(3);
    rb.rotate(4, Direction::X, Direction::Z);
    rb.rotate(4, Direction::X, Direction::NegZ);
    assert!(rb.is_solved());
}

#[test]
fn permutation_survives_many_turns() {
    let mut rb = solved_cube(4);
    let normals = [Direction::X, Direction::NegY, Direction::Z, Direction::NegX, Direction::Y, Direction::NegZ];
    let drags = [Direction::Y, Direction::Z, Direction::X, Direction::NegZ, Direction::NegX, Direction::NegY];
    for step in 0..60usize {
        let normal = normals[step % 6];
        let drag = drags[(step * 7) % 6];
        if normal.axis() == drag.axis() {
            continue;
        }
        rb.rotate((step * 11) % 64, normal, drag);
        assert!(inverse_holds(&rb));
        let mut ids: Vec<usize> = rb.pos_to_cube.iter().map(|c| c.1).collect();
        ids.sort();
        assert_eq!(ids, (0..64).collect::<Vec<usize>>());
        let mut handles: Vec<u64> = rb.pos_to_cube.iter().map(|c| c.0).collect();
        handles.sort();
        assert_eq!(handles, (1000..1064).collect::<Vec<u64>>());
    }
}

#[test]
fn layer_selection_has_side_squared_distinct_positions() {
    for sides in 1..6u32 {
        let rb = RubiksCube { side_size: sides, pos_to_cube: Vec::new(), cube_to_pos: Vec::new() };
        for fixed in 0..sides {
            for (axis, layer) in [
                (0, rb.select_x_layer(fixed)),
                (1, rb.select_y_layer(fixed)),
                (2, rb.select_z_layer(fixed)),
            ] {
                assert_eq!(layer.len(), (sides * sides) as usize);
                let mut sorted = layer.clone();
                sorted.sort();
                sorted.dedup();
                assert_eq!(sorted.len(), layer.len());
                for &p in layer.iter() {
                    assert!(p < sides.pow(3));
                    let (x, y, z) = rb.pos_to_qube_coords(p);
                    let along = [x, y, z][axis];
                    assert_eq!(along, fixed);
                }
            }
        }
    }
}

#[test]
fn select_rotation_follows_the_cube() {
    let mut rb = solved_cube(3);
    rb.rotate(0, Direction::NegY, Direction::Z);
    // cube 0 now sits at position 2, so its z layer is z = 2
    assert_eq!(rb.cube_to_pos[0], 2);
    assert_eq!(rb.select_rotation(0, Axis::Z), rb.select_z_layer(2));
    let handles = rb.select_rotation_entities(0, Axis::Z);
    let expected: Vec<u64> = rb.select_z_layer(2).iter().map(|&p| rb.pos_to_cube[p as usize].0).collect();
    assert_eq!(handles, expected);
    assert_eq!(handles[0], 1020);
    assert_eq!(handles[2], 1000);
}

#[test]
fn rotate_indices_of_larger_layer() {
    let rb = solved_cube(4);
    let indices: Vec<u32> = (100..120).collect();
    let ccw = rb.rotate_indices(&indices, Rotation::Ccw);
    assert_eq!(ccw.len(), 16);
    assert_eq!(ccw[0], 103);
    assert_eq!(ccw[1], 107);
    assert_eq!(ccw[4], 102);
    let cw = rb.rotate_indices(&indices, Rotation::Cw);
    assert_eq!(cw[0], 112);
    assert_eq!(cw[1], 108);
    assert_eq!(cw[4], 113);
}

#[test]
fn opposite_drag_reverses_the_sense() {
    let normals = [Direction::X, Direction::NegX, Direction::Y, Direction::NegY, Direction::Z, Direction::NegZ];
    for &normal in normals.iter() {
        for &drag in normals.iter() {
            if normal.axis() == drag.axis() {
                continue;
            }
            let (axis, rotation) = RubiksCube::select_axis_and_rotation(normal, drag);
            let (axis2, rotation2) = RubiksCube::select_axis_and_rotation(normal, drag.opposite());
            assert_eq!(axis, axis2);
            assert_ne!(rotation, rotation2);
            assert_ne!(axis, normal.axis());
            assert_ne!(axis, drag.axis());
        }
    }
    assert_eq!(Direction::NegY.components(), (0, -1, 0));
    assert_eq!(Direction::Z.opposite(), Direction::NegZ);
}

#[test]
fn drag_past_half_a_quarter_commits_the_turn() {
    let mut rb = solved_cube(3);
    let mut expected = rb.clone();
    expected.rotate(0, Direction::NegY, Direction::Z);

    let mut ctl = RotationController::new();
    ctl.press(Some((0, Direction::NegY)));
    let mut applied = 0i32;
    for amount in [1000, 3000, 5000, 7000, 12000] {
        let t = ctl.drag(Some(Direction::Z), Some(amount)).unwrap();
        assert_eq!(t.cube_id, 0);
        assert_eq!(t.axis, Axis::X);
        applied += t.delta;
    }
    // a Cw turn about X turns the layer by a negative angle, clamped to a quarter
    assert_eq!(applied, -QUARTER_TURN);
    let t = ctl.release(&mut rb).unwrap();
    applied += t.delta;
    assert_eq!(applied, -QUARTER_TURN);
    assert_eq!(rb.pos_to_cube, expected.pos_to_cube);
    assert_eq!(rb.cube_to_pos, expected.cube_to_pos);
    assert!(ctl.selected.is_none() && ctl.direction.is_none() && ctl.angle == 0);
}

#[test]
fn drag_just_past_threshold_completes_the_quarter() {
    let mut rb = solved_cube(3);
    let mut expected = rb.clone();
    expected.rotate(13, Direction::Z, Direction::X);
    let mut ctl = RotationController::new();
    ctl.press(Some((13, Direction::Z)));
    let first = ctl.drag(Some(Direction::X), Some(4501)).unwrap();
    assert_eq!(first, LayerTurn { cube_id: 13, axis: Axis::Y, delta: 4501 });
    let last = ctl.release(&mut rb).unwrap();
    assert_eq!(last.delta, QUARTER_TURN - 4501);
    assert_eq!(rb.pos_to_cube, expected.pos_to_cube);
}

#[test]
fn drag_to_exactly_half_a_quarter_commits() {
    let mut rb = solved_cube(3);
    let mut expected = rb.clone();
    expected.rotate(4, Direction::X, Direction::Y);
    let mut ctl = RotationController::new();
    ctl.press(Some((4, Direction::X)));
    let a = ctl.drag(Some(Direction::Y), Some(2000)).unwrap();
    let b = ctl.drag(Some(Direction::Y), Some(4500)).unwrap();
    assert_eq!(a.delta + b.delta, 4500);
    let last = ctl.release(&mut rb).unwrap();
    assert_eq!(last.delta, QUARTER_TURN - 4500);
    assert_eq!(last.axis, Axis::Z);
    assert_eq!(rb.pos_to_cube, expected.pos_to_cube);
    assert_eq!(rb.cube_to_pos, expected.cube_to_pos);
}

#[test]
fn short_drag_springs_back() {
    let mut rb = solved_cube(3);
    let mut ctl = RotationController::new();
    ctl.press(Some((4, Direction::X)));
    let a = ctl.drag(Some(Direction::Y), Some(2000)).unwrap();
    let b = ctl.drag(Some(Direction::Y), Some(4499)).unwrap();
    assert_eq!(a.delta + b.delta, 4499);
    let back = ctl.release(&mut rb).unwrap();
    assert_eq!(back.delta, -4499);
    assert_eq!(back.axis, Axis::Z);
    assert!(rb.is_solved());
}

#[test]
fn negative_drag_to_exactly_half_commits() {
    let mut rb = solved_cube(3);
    let mut expected = rb.clone();
    expected.rotate(4, Direction::X, Direction::NegY);
    let mut ctl = RotationController::new();
    ctl.press(Some((4, Direction::X)));
    let a = ctl.drag(Some(Direction::Y), Some(-4500)).unwrap();
    assert_eq!(a.delta, -4500);
    let last = ctl.release(&mut rb).unwrap();
    assert_eq!(last.delta, -QUARTER_TURN + 4500);
    assert_eq!(rb.pos_to_cube, expected.pos_to_cube);
}

#[test]
fn dragging_back_past_the_start_turns_the_other_way() {
    let mut rb = solved_cube(3);
    let mut expected = rb.clone();
    expected.rotate(0, Direction::NegY, Direction::NegZ);
    let mut ctl = RotationController::new();
    ctl.press(Some((0, Direction::NegY)));
    let mut applied = ctl.drag(Some(Direction::Z), Some(1000)).unwrap().delta;
    // the drag axis stays fixed once found
    applied += ctl.drag(Some(Direction::X), Some(-8000)).unwrap().delta;
    assert_eq!(ctl.direction, Some(Direction::Z));
    assert_eq!(applied, 8000);
    applied += ctl.release(&mut rb).unwrap().delta;
    assert_eq!(applied, QUARTER_TURN);
    assert_eq!(rb.pos_to_cube, expected.pos_to_cube);
}

#[test]
fn drag_along_the_normal_is_ignored() {
    let mut ctl = RotationController::new();
    ctl.press(Some((3, Direction::X)));
    assert_eq!(ctl.drag(Some(Direction::NegX), Some(5000)), None);
    assert_eq!(ctl.direction, None);
    assert_eq!(ctl.drag(Some(Direction::Y), None), None);
    assert_eq!(ctl.direction, Some(Direction::Y));
    assert_eq!(ctl.angle, 0);
}

#[test]
fn miss_then_release_does_nothing() {
    let mut rb = solved_cube(3);
    let mut ctl = RotationController::new();
    ctl.press(None);
    assert_eq!(ctl.drag(Some(Direction::Y), Some(9000)), None);
    assert_eq!(ctl.release(&mut rb), None);
    assert!(rb.is_solved());
}

#[test]
fn release_with_unknown_cube_does_nothing() {
    let mut rb = solved_cube(2);
    let mut ctl = RotationController::new();
    ctl.press(Some((99, Direction::X)));
    let t = ctl.drag(Some(Direction::Y), Some(9000)).unwrap();
    assert_eq!(t.delta, 9000);
    assert_eq!(ctl.release(&mut rb), None);
    assert!(rb.is_solved());
    assert_eq!(ctl.angle, 0);
}

#[test]
fn largest_edge_that_fits_u32_positions() {
    let sides = 1625u32;
    let last = RubiksCube::corrds_to_pos(sides, sides - 1, sides - 1, sides - 1);
    assert_eq!(last as u64, 1625u64 * 1625 * 1625 - 1);
    let rb = RubiksCube { side_size: sides, pos_to_cube: Vec::new(), cube_to_pos: Vec::new() };
    assert_eq!(rb.pos_to_qube_coords(last), (1624, 1624, 1624));
    let layer = rb.select_x_layer(1624);
    assert_eq!(layer.len(), 1625 * 1625);
    assert_eq!(layer[layer.len() - 1], last);
}
