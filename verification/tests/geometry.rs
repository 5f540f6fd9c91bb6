use invaders::geom::Vec2;
use invaders::geom::overlaps;

fn v(x: i64, y: i64) -> Vec2 {
    Vec2 { x, y }
}

#[test]
fn overlap_is_symmetric_on_samples() {
    let cases = [
        (v(0, 0), v(36000, 12000), v(5000, 0), v(2000, 16000)),
        (v(0, 0), v(36000, 12000), v(40000, 0), v(2000, 16000)),
        (v(-3000, 2000), v(10000, 10000), v(3000, -2000), v(10000, 10000)),
        (v(0, 0), v(0, 0), v(0, 0), v(10000, 10000)),
    ];
    for (a, asz, b, bsz) in cases {
        assert_eq!(overlaps(a, asz, b, bsz), overlaps(b, bsz, a, asz));
    }
}

#[test]
fn separated_boxes_do_not_overlap() {
    // centers 19 units apart on x with half extents summing to exactly 19
    let a = v(0, 0);
    let asz = v(36000, 12000);
    let b = v(19000, 0);
    let bsz = v(2000, 16000);
    assert!(!overlaps(a, asz, b, bsz));
    // further apart on y only
    assert!(!overlaps(v(0, 0), v(10000, 10000), v(0, 30000), v(10000, 10000)));
}

#[test]
fn bullet_against_enemy_box_overlaps() {
    // enemy box (36, 12), bullet (2, 16), centers 5 apart on x: |5| < 19
    let enemy = v(0, 0);
    let enemy_sz = v(36000, 12000);
    let bullet = v(5000, 0);
    let bullet_sz = v(2000, 16000);
    assert!(overlaps(bullet, bullet_sz, enemy, enemy_sz));
}

#[test]
fn zero_sized_box_never_overlaps() {
    assert!(!overlaps(v(0, 0), v(0, 0), v(0, 0), v(10000, 10000)));
    assert!(!overlaps(v(0, 0), v(10000, 10000), v(0, 0), v(0, 16000)));
}

#[test]
fn touching_edges_do_not_overlap() {
    // strict inequality: centers exactly at the sum of half extents
    assert!(!overlaps(v(0, 0), v(10000, 10000), v(10000, 0), v(10000, 10000)));
    assert!(overlaps(v(0, 0), v(10000, 10000), v(9999, 0), v(10000, 10000)));
}
