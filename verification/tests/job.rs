use closet_cad::angle::Angle;
use closet_cad::dec::{Dec, MAX_UNITS};
use closet_cad::job::{Space, WallNode, WallSegment};
use rust_decimal::Decimal;

fn to_decimal(d: &Dec) -> Decimal {
    Decimal::from_i128_with_scale(d.mantissa(), d.scale())
}

fn pair(p: &(Dec, Dec)) -> (Decimal, Decimal) {
    (to_decimal(&p.0), to_decimal(&p.1))
}

fn deg(d: i64) -> Angle {
    Angle::from_degrees(Dec::from_int(d)).unwrap()
}

#[test]
fn draw_square() {
    let mut wall = WallSegment::default();
    wall.nodes.push(WallNode {
        angle: deg(90),
        length: Dec::from_int(10),
    });
    wall.nodes.push(WallNode {
        angle: Angle::from_degrees(Dec::from_int(0)).unwrap(),
        length: Dec::from_int(10),
    });
    wall.nodes.push(WallNode {
        angle: deg(-90),
        length: Dec::from_int(10),
    });
    wall.nodes.push(WallNode {
        angle: deg(180),
        length: Dec::from_int(10),
    });

    let result = wall.points().unwrap();

    assert_eq!(result.len(), 5);
    assert_eq!(pair(&result[0]), (Decimal::new(0, 0), Decimal::new(0, 0)));
    assert_eq!(pair(&result[1]), (Decimal::new(0, 0), Decimal::new(10, 0)));
    assert_eq!(pair(&result[2]), (Decimal::new(10, 0), Decimal::new(10, 0)));
    assert_eq!(pair(&result[3]), (Decimal::new(10, 0), Decimal::new(0, 0)));
    assert_eq!(pair(&result[4]), (Decimal::new(0, 0), Decimal::new(0, 0)));
}

#[test]
fn per_step_rounding_lands_on_grid() {
    let node = WallNode {
        angle: deg(90),
        length: Dec::from_int(10),
    };
    let end = node
        .start_to_end(Dec::from_int(0), Dec::from_int(0))
        .unwrap();
    let x = end.0;
    let y = end.1;
    assert_eq!(x.mantissa(), 0);
    assert_eq!(x.scale(), 0);
    assert_eq!(y.mantissa(), 10);
    assert_eq!(y.scale(), 0);
}

#[test]
fn length_invariant_and_anchor() {
    let mut wall = WallSegment::default();
    wall.start_x = Dec::from_int(3);
    wall.start_y = Dec::from_int(4);
    wall.nodes.push(WallNode {
        angle: deg(0),
        length: Dec::from_int(10),
    });
    wall.nodes.push(WallNode {
        angle: deg(45),
        length: Dec::from_int(7),
    });
    wall.nodes.push(WallNode {
        angle: deg(200),
        length: Dec::from_int(2),
    });

    let result = wall.points().unwrap();

    assert_eq!(result.len(), wall.nodes.len() + 1);
    assert_eq!(pair(&result[0]), (Decimal::new(3, 0), Decimal::new(4, 0)));
    assert_eq!(pair(&result[1]), (Decimal::new(13, 0), Decimal::new(4, 0)));
}

#[test]
fn points_is_deterministic() {
    let mut wall = WallSegment::default();
    wall.nodes.push(WallNode {
        angle: deg(33),
        length: Dec::from_int(12),
    });
    wall.nodes.push(WallNode {
        angle: deg(-123),
        length: Dec::from_int(55),
    });

    let first = wall.points().unwrap();
    let second = wall.points().unwrap();

    assert_eq!(first.len(), second.len());
    for (a, b) in first.iter().zip(second.iter()) {
        assert_eq!(pair(a), pair(b));
    }
}

#[test]
fn zero_length_node_is_a_no_op() {
    for d in [0, 37, 90, -90, 125, 180, 270] {
        let node = WallNode {
            angle: deg(d),
            length: Dec::from_int(0),
        };
        let end = node
            .start_to_end(Dec::from_int(5), Dec::from_int(-3))
            .unwrap();
        assert_eq!(end.0.mantissa(), 5);
        assert_eq!(end.0.scale(), 0);
        assert_eq!(end.1.mantissa(), -3);
        assert_eq!(end.1.scale(), 0);
    }
}

#[test]
fn empty_wall_yields_only_its_anchor() {
    let mut wall = WallSegment::default();
    wall.start_x = Dec::from_int(2);
    wall.start_y = Dec::from_int(3);

    let result = wall.points().unwrap();

    assert_eq!(result.len(), 1);
    assert_eq!(pair(&result[0]), (Decimal::new(2, 0), Decimal::new(3, 0)));
}

#[test]
fn overflow_is_reported() {
    let mut wall = WallSegment::default();
    wall.start_x = Dec::new(MAX_UNITS, 0).unwrap();
    wall.nodes.push(WallNode {
        angle: deg(0),
        length: Dec::new(MAX_UNITS, 0).unwrap(),
    });

    assert!(wall.points().is_err());
}

#[test]
fn space_collects_each_wall() {
    let mut first = WallSegment::default();
    first.nodes.push(WallNode {
        angle: deg(90),
        length: Dec::from_int(4),
    });
    let mut second = WallSegment::default();
    second.start_x = Dec::from_int(1);
    second.start_y = Dec::from_int(1);

    let mut space = Space::default();
    space.walls.push(first);
    space.walls.push(second);

    let all = space.points().unwrap();

    assert_eq!(all.len(), 2);
    assert_eq!(all[0].len(), 2);
    assert_eq!(pair(&all[0][1]), (Decimal::new(0, 0), Decimal::new(4, 0)));
    assert_eq!(all[1].len(), 1);
    assert_eq!(pair(&all[1][0]), (Decimal::new(1, 0), Decimal::new(1, 0)));
}

#[test]
fn negative_length_lands_behind() {
    let node = WallNode {
        angle: deg(90),
        length: Dec::from_int(-10),
    };
    let end = node
        .start_to_end(Dec::from_int(0), Dec::from_int(0))
        .unwrap();
    assert_eq!(to_decimal(&end.0), Decimal::new(0, 0));
    assert_eq!(to_decimal(&end.1), Decimal::new(-10, 0));
}
