use langtons_ant::direction::Rotation;
use langtons_ant::layout::{get_map_area, get_sequence_area, get_sequence_hitboxes, grid_placement, Area, Placement};
use langtons_ant::palette::{add_u8, clashes, same_color, Rgb};

#[test]
fn add_u8_saturates() {
    assert_eq!(add_u8(1, 2), 3);
    assert_eq!(add_u8(155, 100), 255);
    assert_eq!(add_u8(200, 100), 255);
    assert_eq!(add_u8(0, 0), 0);
}

#[test]
fn same_color_follows_its_channel_test() {
    let black = Rgb { r: 0, g: 0, b: 0 };
    let white = Rgb { r: 255, g: 255, b: 255 };
    assert!(!same_color(&black, &white));
    assert!(!same_color(&white, &black));
    assert!(!same_color(&black, &black));
    assert!(!clashes(&black, &vec![]));
    assert!(!clashes(&black, &vec![white, black]));
}

#[test]
fn map_area_in_wide_and_tall_windows() {
    assert_eq!(get_map_area(800, 600), Area { x: 100, y: 0, w: 450, h: 600 });
    assert_eq!(get_map_area(600, 800), Area { x: 0, y: 100, w: 450, h: 600 });
    assert_eq!(get_map_area(700, 700), Area { x: 0, y: 0, w: 525, h: 700 });
}

#[test]
fn sequence_area_in_wide_and_tall_windows() {
    assert_eq!(get_sequence_area(800, 600), Area { x: 550, y: 0, w: 150, h: 600 });
    assert_eq!(get_sequence_area(600, 800), Area { x: 450, y: 100, w: 150, h: 600 });
}

#[test]
fn hitboxes_for_two_rules() {
    let seq = Area { x: 550, y: 0, w: 150, h: 600 };
    let (boxes, deletes) = get_sequence_hitboxes(seq, &vec![Rotation::Right, Rotation::Left]);
    assert_eq!(
        boxes,
        vec![
            Area { x: 587, y: 75, w: 75, h: 75 },
            Area { x: 587, y: 150, w: 75, h: 75 },
            Area { x: 587, y: 225, w: 75, h: 75 },
        ]
    );
    assert_eq!(deletes, vec![Area { x: 644, y: 150, w: 18, h: 75 }]);
}

#[test]
fn hitboxes_for_one_rule_limited_by_height() {
    let seq = Area { x: 10, y: 20, w: 1000, h: 100 };
    let (boxes, deletes) = get_sequence_hitboxes(seq, &vec![Rotation::Right]);
    assert_eq!(boxes, vec![Area { x: 497, y: 45, w: 25, h: 25 }, Area { x: 497, y: 70, w: 25, h: 25 }]);
    assert!(deletes.is_empty());
}

#[test]
fn placement_centres_a_grid_that_fits() {
    let area = Area { x: 100, y: 0, w: 450, h: 600 };
    assert_eq!(grid_placement(area, 3, 3, 1, 1), Placement { side: 150, offset_x: 100, offset_y: 75 });
}

#[test]
fn placement_follows_the_ant_when_the_grid_overflows() {
    let area = Area { x: 0, y: 0, w: 10, h: 10 };
    assert_eq!(grid_placement(area, 20, 5, 15, 2), Placement { side: 1, offset_x: -10, offset_y: 2 });
    // The centring rounds toward zero: (10 - 21) / 2 is -5.
    assert_eq!(grid_placement(area, 21, 5, 10, 2), Placement { side: 1, offset_x: -5, offset_y: 2 });
}
