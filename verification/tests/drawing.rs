use procedural_map::drawing::{IEclipse, IRect, IRectIter, ITriangle};
use procedural_map::dungeon::IPosition;

const RECT1: IRect = IRect { x_min: 0, y_min: 0, x_max: 5, y_max: 5 };
const RECT2: IRect = IRect { x_min: 4, y_min: 4, x_max: 7, y_max: 7 };
const RECT3: IRect = IRect { x_min: 1, y_min: 1, x_max: 3, y_max: 3 };
const RECT1_INTERSECT_RECT2: IRect = IRect { x_min: 4, y_min: 4, x_max: 5, y_max: 5 };

#[test]
fn test_rect_center_not_prime() {
    assert_eq!(IPosition { x: 3, y: 3 }, RECT1.center());
}

#[test]
fn test_rect_is_intersect() {
    assert!(RECT1.is_intersect(&RECT2));
}

#[test]
fn test_rect_rev_is_intersect() {
    assert!(RECT2.is_intersect(&RECT1));
}

#[test]
fn test_rect_not_intersect() {
    assert!(!RECT3.is_intersect(&RECT2));
}

#[test]
fn test_rect_is_inside_rect() {
    assert!(RECT3.is_inside(&RECT1));
}

#[test]
fn test_rect_not_inside_rect() {
    assert!(!RECT3.is_inside(&RECT2));
}

#[test]
fn test_rect_intersect_rect() {
    assert_eq!(RECT1_INTERSECT_RECT2, RECT1.intersect(&RECT2).unwrap());
}

#[test]
#[should_panic]
fn test_rect_not_intersect_rect() {
    RECT3.intersect(&RECT2).unwrap();
}

#[test]
fn test_rect_from_pos() {
    let pos = IPosition { x: 15, y: 15 };
    let width = 10;
    let height = 10;
    let new_rect = IRect::new_from_center_position(&pos, width, height);
    assert_eq!(IRect { x_min: 10, y_min: 10, x_max: 20, y_max: 20 }, new_rect);
}

#[test]
fn test_rect_fit_rect() {
    let mut test_rect = IRect { x_min: 0, y_min: 0, x_max: 100, y_max: 100 };
    test_rect.fit_to(&RECT1);
    assert_eq!(RECT1, test_rect);
}

#[test]
fn rect_new_and_unit() {
    assert_eq!(IRect::new(1, 2, 3, 4), IRect { x_min: 1, y_min: 2, x_max: 3, y_max: 4 });
    assert_eq!(IRect::unit(), IRect { x_min: 0, y_min: 0, x_max: 1, y_max: 1 });
    assert_eq!(IEclipse::unit(), IEclipse { rect: IRect::unit() });
    assert_eq!(ITriangle::unit(), IEclipse { rect: IRect::unit() });
}

#[test]
fn rect_width_and_height() {
    let rect = IRect::new(-2, 3, 5, 4);
    assert_eq!(rect.width(), 7);
    assert_eq!(rect.height(), 1);
    let turned = IRect::new(5, 4, -2, 3);
    assert_eq!(turned.width(), -7);
    assert_eq!(turned.height(), -1);
}

#[test]
fn rect_center_rounds_half_away_from_zero() {
    assert_eq!(IRect::new(0, 0, 4, 6).center(), IPosition { x: 2, y: 3 });
    assert_eq!(IRect::new(0, 0, 1, 3).center(), IPosition { x: 1, y: 2 });
    assert_eq!(IRect::new(0, 0, -5, -4).center(), IPosition { x: -3, y: -2 });
    assert_eq!(IRect::new(0, 0, -1, -3).center(), IPosition { x: -1, y: -2 });
    assert_eq!(IRect::new(10, 20, 10, 20).center(), IPosition { x: 10, y: 20 });
    assert_eq!(
        IRect::new(0, 0, i32::MIN, i32::MIN).center(),
        IPosition { x: -1073741824, y: -1073741824 }
    );
}

#[test]
fn rect_from_center_with_odd_and_negative_sizes() {
    let pos = IPosition { x: 0, y: 0 };
    assert_eq!(
        IRect::new_from_center_position(&pos, 5, 3),
        IRect { x_min: -2, y_min: -1, x_max: 3, y_max: 2 }
    );
    assert_eq!(
        IRect::new_from_center_position(&pos, -5, -4),
        IRect { x_min: 2, y_min: 2, x_max: -3, y_max: -2 }
    );
    assert_eq!(
        IRect::new_from_center_position(&pos, 0, 1),
        IRect { x_min: 0, y_min: 0, x_max: 0, y_max: 1 }
    );
}

#[test]
fn rect_intersect_touching_borders() {
    let left = IRect::new(0, 0, 2, 2);
    let right = IRect::new(2, 2, 4, 4);
    assert!(left.is_intersect(&right));
    assert_eq!(left.intersect(&right), Some(IRect::new(2, 2, 2, 2)));
    let apart = IRect::new(3, 0, 4, 2);
    assert!(!left.is_intersect(&apart));
    assert_eq!(left.intersect(&apart), None);
}

#[test]
fn rect_is_inside_is_strict() {
    let outer = IRect::new(0, 0, 10, 10);
    assert!(!IRect::new(0, 1, 5, 5).is_inside(&outer));
    assert!(!IRect::new(1, 1, 10, 5).is_inside(&outer));
    assert!(!outer.is_inside(&outer));
    assert!(IRect::new(1, 1, 9, 9).is_inside(&outer));
}

#[test]
fn rect_can_hold_mirrors_is_inside() {
    assert!(RECT1.can_hold(&RECT3));
    assert!(!RECT3.can_hold(&RECT1));
    assert!(!RECT2.can_hold(&RECT3));
}

#[test]
fn rect_expand_to_contain() {
    let mut rect = IRect::new(0, 0, 2, 2);
    rect.expand_to_contain(&IPosition { x: 5, y: -3 });
    assert_eq!(rect, IRect::new(0, -3, 5, 2));
    rect.expand_to_contain(&IPosition { x: 1, y: 1 });
    assert_eq!(rect, IRect::new(0, -3, 5, 2));
    rect.expand_to_contain(&IPosition { x: -4, y: 9 });
    assert_eq!(rect, IRect::new(-4, -3, 5, 9));
}

#[test]
fn rect_constraint_to() {
    let mut rect = RECT1;
    rect.constraint_to(&RECT2);
    assert_eq!(rect, RECT1_INTERSECT_RECT2);
    let mut apart = RECT3;
    apart.constraint_to(&RECT2);
    assert_eq!(apart, RECT3);
}

#[test]
fn rect_expand_shrink() {
    let mut rect = IRect::new(2, 3, 10, 12);
    rect.expand_shrink(2);
    assert_eq!(rect, IRect::new(0, 1, 12, 14));
    rect.expand_shrink(-3);
    assert_eq!(rect, IRect::new(3, 4, 9, 11));
    assert_eq!(rect.expand_shrink_as(1), IRect::new(2, 3, 10, 12));
    assert_eq!(rect.expand_shrink_as(-1), IRect::new(4, 5, 8, 10));
    assert_eq!(rect.expand_shrink_as(0), rect);
    assert_eq!(rect, IRect::new(3, 4, 9, 11));
}

fn walk(mut it: IRectIter, limit: usize) -> Vec<(i32, i32)> {
    let mut points = Vec::new();
    while points.len() < limit {
        match it.next() {
            Some(point) => points.push(point),
            None => break,
        }
    }
    points
}

#[test]
fn rect_iter_starts_at_the_minima() {
    let rect = IRect::new(3, 4, 5, 6);
    let it = rect.iter(2);
    assert_eq!(it, IRectIter { rect, countx: 0, county: 0, next: 2 });
    assert_eq!(IRectIter::from_rect(&rect, 2), it);
}

#[test]
fn test_rect_iter_rect() {
    let mut result_vec = Vec::new();
    let rect = IRect { x_min: 0, y_min: 0, x_max: 2, y_max: 2 };
    let mut points = rect.iter(1);
    while let Some((x, y)) = points.next() {
        result_vec.push(IPosition { x, y });
    }
    let test_vec = vec![
        IPosition { x: 0, y: 0 },
        IPosition { x: 1, y: 0 },
        IPosition { x: 0, y: 1 },
        IPosition { x: 1, y: 1 },
    ];
    assert_eq!(result_vec, test_vec);
}

#[test]
fn rect_iter_walks_row_by_row() {
    let rect = IRect { x_min: -1, y_min: 4, x_max: 2, y_max: 6 };
    assert_eq!(walk(rect.iter(1), 100), vec![(-1, 4), (0, 4), (1, 4), (-1, 5), (0, 5), (1, 5)]);
}

#[test]
fn rect_iter_with_a_wider_step() {
    let rect = IRect { x_min: 1, y_min: 5, x_max: 6, y_max: 7 };
    assert_eq!(walk(rect.iter(2), 100), vec![(1, 5), (3, 5), (5, 5), (1, 6), (3, 6), (5, 6)]);
    assert_eq!(walk(rect.iter(5), 100), vec![(1, 5), (1, 6)]);
    assert_eq!(walk(rect.iter(4), 100), vec![(1, 5), (5, 5), (1, 6), (5, 6)]);
}

#[test]
fn rect_iter_over_a_rectangle_without_points() {
    let no_rows = IRect { x_min: 0, y_min: 3, x_max: 4, y_max: 3 };
    let mut it = no_rows.iter(1);
    assert_eq!(it.next(), None);
    assert_eq!(it.next(), None);
    assert_eq!(it, no_rows.iter(1));
    let no_columns = IRect { x_min: 4, y_min: 0, x_max: 4, y_max: 3 };
    assert_eq!(walk(no_columns.iter(1), 100), vec![]);
    let turned = IRect { x_min: 4, y_min: 3, x_max: 0, y_max: 0 };
    assert_eq!(walk(turned.iter(1), 100), vec![]);
}

#[test]
fn rect_iter_steps_through_its_states() {
    let rect = IRect { x_min: 0, y_min: 0, x_max: 2, y_max: 2 };
    let mut it = rect.iter(1);
    assert_eq!(it.next(), Some((0, 0)));
    assert_eq!(it, IRectIter { rect, countx: 1, county: 0, next: 1 });
    assert_eq!(it.next(), Some((1, 0)));
    assert_eq!(it, IRectIter { rect, countx: 0, county: 1, next: 1 });
    assert_eq!(it.next(), Some((0, 1)));
    assert_eq!(it.next(), Some((1, 1)));
    assert_eq!(it, IRectIter { rect, countx: 0, county: 2, next: 1 });
    assert_eq!(it.next(), None);
    assert_eq!(it, IRectIter { rect, countx: 0, county: 2, next: 1 });
}

#[test]
fn rect_iter_with_step_zero_stays_on_its_point() {
    let rect = IRect { x_min: 0, y_min: 0, x_max: 2, y_max: 1 };
    assert_eq!(walk(rect.iter(0), 3), vec![(0, 0), (0, 0), (0, 0)]);
}
