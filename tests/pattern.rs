use raytracer::gather::concat_all;
use raytracer::pattern::{alternate, checker, rings_of_three};

const WHITE: (f64, f64, f64) = (1.0, 1.0, 1.0);
const BLACK: (f64, f64, f64) = (0.0, 0.0, 0.0);

#[test]
fn stripe_alternates_between_cells() {
    assert_eq!(alternate(0, WHITE, BLACK), WHITE);
    assert_eq!(alternate(1, WHITE, BLACK), BLACK);
    assert_eq!(alternate(2, WHITE, BLACK), WHITE);
    assert_eq!(alternate(-1, WHITE, BLACK), BLACK);
    assert_eq!(alternate(-2, WHITE, BLACK), WHITE);
}

#[test]
fn stripe_at_extreme_cells() {
    assert_eq!(alternate(i64::MIN, WHITE, BLACK), WHITE);
    assert_eq!(alternate(i64::MAX, WHITE, BLACK), BLACK);
}

#[test]
fn three_colour_rings() {
    assert_eq!(rings_of_three(0, 'a', 'b', 'c'), 'a');
    assert_eq!(rings_of_three(1, 'a', 'b', 'c'), 'c');
    assert_eq!(rings_of_three(2, 'a', 'b', 'c'), 'a');
    assert_eq!(rings_of_three(3, 'a', 'b', 'c'), 'b');
    assert_eq!(rings_of_three(5, 'a', 'b', 'c'), 'c');
    assert_eq!(rings_of_three(9, 'a', 'b', 'c'), 'b');
}

#[test]
fn checkers_follow_the_sum_of_cells() {
    assert_eq!(checker(0, 0, 0, WHITE, BLACK), WHITE);
    assert_eq!(checker(0, 0, 1, WHITE, BLACK), BLACK);
    assert_eq!(checker(1, 1, 0, WHITE, BLACK), WHITE);
    assert_eq!(checker(-1, 0, 0, WHITE, BLACK), BLACK);
    assert_eq!(checker(-1, -1, -1, WHITE, BLACK), BLACK);
    assert_eq!(checker(i64::MAX, i64::MAX, 0, WHITE, BLACK), WHITE);
}

#[test]
fn intersections_are_gathered_in_order() {
    let parts = vec![vec![4.0, 6.0], vec![], vec![-1.0], vec![1.0, 2.0]];
    assert_eq!(concat_all(&parts), vec![4.0, 6.0, -1.0, 1.0, 2.0]);
    let none: Vec<Vec<f64>> = vec![];
    assert!(concat_all(&none).is_empty());
}
