use langtons_ant::ant_map::AntMap;
use langtons_ant::direction::{Direction, Rotation};

fn rl_map() -> AntMap {
    AntMap::new(3, 3, Direction::Up, Rotation::vec_from_string("RL"))
}

fn pose(m: &AntMap) -> (usize, usize, Direction) {
    *m.ant()
}

#[test]
fn notation_reads_r_and_l_and_skips_the_rest() {
    let rules = Rotation::vec_from_string("Rx L-r R");
    assert_eq!(rules, vec![Rotation::Right, Rotation::Left, Rotation::Right]);
    assert!(Rotation::vec_from_string("").is_empty());
    assert!(Rotation::vec_from_string("abc").is_empty());
}

#[test]
fn four_same_turns_return_to_start() {
    let all = [Direction::Up, Direction::Right, Direction::Down, Direction::Left];
    for d in all {
        for r in [Rotation::Left, Rotation::Right] {
            assert_eq!(d.rotate(r).rotate(r).rotate(r).rotate(r), d);
        }
    }
}

#[test]
fn right_then_left_cancel() {
    for d in [Direction::Up, Direction::Right, Direction::Down, Direction::Left] {
        assert_eq!(d.rotate(Rotation::Right).rotate(Rotation::Left), d);
    }
}

#[test]
fn rotation_table() {
    assert_eq!(Direction::Up.rotate(Rotation::Right), Direction::Right);
    assert_eq!(Direction::Right.rotate(Rotation::Right), Direction::Down);
    assert_eq!(Direction::Down.rotate(Rotation::Right), Direction::Left);
    assert_eq!(Direction::Left.rotate(Rotation::Right), Direction::Up);
    assert_eq!(Direction::Up.rotate(Rotation::Left), Direction::Left);
    assert_eq!(Direction::Left.rotate(Rotation::Left), Direction::Down);
    assert_eq!(Direction::Down.rotate(Rotation::Left), Direction::Right);
    assert_eq!(Direction::Right.rotate(Rotation::Left), Direction::Up);
}

#[test]
fn invert_swaps_and_is_an_involution() {
    assert_eq!(Rotation::Left.invert(), Rotation::Right);
    assert_eq!(Rotation::Right.invert(), Rotation::Left);
    assert_eq!(Rotation::Left.invert().invert(), Rotation::Left);
}

#[test]
fn new_centres_the_ant_on_a_pristine_grid() {
    let m = AntMap::new(5, 4, Direction::Left, Rotation::vec_from_string("RLR"));
    assert_eq!(pose(&m), (2, 2, Direction::Left));
    assert_eq!(m.width(), 5);
    assert_eq!(m.height(), 4);
    assert_eq!(m.iter().len(), 5);
    for col in m.iter() {
        assert_eq!(col.len(), 4);
        assert!(col.iter().all(|v| *v == 0));
    }
    assert_eq!(m.stages(), &vec![Rotation::Right, Rotation::Left, Rotation::Right]);
}

#[test]
fn worked_example_trace() {
    let mut m = rl_map();
    assert_eq!(pose(&m), (1, 1, Direction::Up));
    assert!(m.step_ahead());
    assert_eq!(pose(&m), (1, 0, Direction::Right));
    assert_eq!(m.iter()[1][0], 1);
    assert!(m.step_ahead());
    assert_eq!(pose(&m), (2, 0, Direction::Down));
    assert_eq!(m.iter()[2][0], 1);
    assert!(m.step_ahead());
    assert_eq!(pose(&m), (2, 1, Direction::Left));
    assert_eq!(m.iter()[2][1], 1);
    assert!(m.step_ahead());
    assert_eq!(pose(&m), (1, 1, Direction::Up));
    assert!(m.step_ahead());
    assert_eq!(pose(&m), (1, 0, Direction::Left));
    assert_eq!(m.iter()[1][0], 2);
}

#[test]
fn cell_state_cycles_through_the_rules() {
    // With only left turns the ant walks a 2 by 2 loop, coming back to each
    // cell every fourth step.
    let mut m = AntMap::new(5, 5, Direction::Up, Rotation::vec_from_string("LLL"));
    let mut seen = Vec::new();
    for _ in 0..4 {
        assert!(m.step_ahead());
        seen.push(m.iter()[2][1]);
        for _ in 0..3 {
            assert!(m.step_ahead());
        }
    }
    assert_eq!(seen, vec![1, 2, 3, 1]);
}

#[test]
fn blocked_step_changes_nothing() {
    let mut m = AntMap::new(1, 1, Direction::Up, Rotation::vec_from_string("R"));
    assert!(!m.step_ahead());
    assert_eq!(pose(&m), (0, 0, Direction::Up));
    assert_eq!(m.iter()[0][0], 0);

    let mut top = AntMap::new(2, 1, Direction::Up, Rotation::vec_from_string("R"));
    assert!(!top.step_ahead());
    assert_eq!(pose(&top), (1, 0, Direction::Up));
}

#[test]
fn blocked_step_on_each_edge() {
    for (d, w, h) in [
        (Direction::Up, 3, 1),
        (Direction::Down, 3, 1),
        (Direction::Left, 1, 3),
        (Direction::Right, 1, 3),
    ] {
        let mut m = AntMap::new(w, h, d, Rotation::vec_from_string("R"));
        let before = pose(&m);
        assert!(!m.step_ahead());
        assert_eq!(pose(&m), before);
        assert!(m.iter().iter().all(|c| c.iter().all(|v| *v == 0)));
    }
}

#[test]
fn scale_pads_every_side() {
    let mut m = rl_map();
    assert!(m.step_ahead());
    m.scale(2);
    assert_eq!(m.width(), 7);
    assert_eq!(m.height(), 7);
    assert_eq!(pose(&m), (3, 2, Direction::Right));
    assert_eq!(m.iter()[3][2], 1);
    let nonzero: usize = m.iter().iter().map(|c| c.iter().filter(|v| **v != 0).count()).sum();
    assert_eq!(nonzero, 1);
}

#[test]
fn shrink_trims_to_visited_box() {
    let mut m = rl_map();
    for _ in 0..3 {
        assert!(m.step_ahead());
    }
    m.scale(4);
    m.shrink();
    assert_eq!(m.width(), 2);
    assert_eq!(m.height(), 2);
    assert_eq!(pose(&m), (1, 1, Direction::Left));
    assert_eq!(m.iter()[0], vec![1, 0]);
    assert_eq!(m.iter()[1], vec![1, 1]);
}

#[test]
fn scale_then_shrink_on_pristine_grid_is_no_larger() {
    let mut m = rl_map();
    m.scale(5);
    m.shrink();
    assert!(m.width() <= 3);
    assert!(m.height() <= 3);
    assert_eq!(m.width(), 1);
    assert_eq!(m.height(), 1);
    assert_eq!(pose(&m), (0, 0, Direction::Up));
}

#[test]
fn grow_and_retry_after_boundary_hit() {
    let mut m = rl_map();
    let mut steps = 0;
    while steps < 200 {
        if !m.step_ahead() {
            m.shrink();
            m.scale(5);
            assert!(m.step_ahead());
        }
        steps += 1;
    }
    let (x, y, _) = pose(&m);
    assert!(x < m.width() && y < m.height());
}

#[test]
fn reset_clears_and_recentres() {
    let mut m = AntMap::new(4, 6, Direction::Down, Rotation::vec_from_string("RL"));
    for _ in 0..5 {
        m.step_ahead();
    }
    m.reset();
    assert_eq!(pose(&m), (2, 3, Direction::Up));
    assert_eq!(m.width(), 4);
    assert_eq!(m.height(), 6);
    assert!(m.iter().iter().all(|c| c.iter().all(|v| *v == 0)));
    assert_eq!(m.stages().len(), 2);
}

#[test]
fn rule_edits() {
    let mut m = AntMap::new(3, 3, Direction::Up, Rotation::vec_from_string("RLR"));
    m.add_stage(Rotation::Left);
    assert_eq!(m.stages(), &vec![Rotation::Right, Rotation::Left, Rotation::Right, Rotation::Left]);
    m.remove_stage(1);
    assert_eq!(m.stages(), &vec![Rotation::Right, Rotation::Right, Rotation::Left]);
    m.invert_rotation(2);
    assert_eq!(m.stages(), &vec![Rotation::Right, Rotation::Right, Rotation::Right]);
    m.invert_rotation(0);
    assert_eq!(m.stages(), &vec![Rotation::Left, Rotation::Right, Rotation::Right]);
}

#[test]
fn longer_rules_change_the_walk() {
    let mut m = AntMap::new(3, 3, Direction::Up, Rotation::vec_from_string("L"));
    m.add_stage(Rotation::Right);
    m.reset();
    m.shrink();
    assert_eq!(m.width(), 1);
    assert!(!m.step_ahead());
    m.scale(1);
    assert!(m.step_ahead());
    assert_eq!(pose(&m), (1, 0, Direction::Left));
}
