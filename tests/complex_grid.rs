use ec::quest_e2025_02::{part_one, part_three, part_two, Complex};
use ec::runner::Answer;

const NOTES: &str = "A=[35300,-64910]";

#[test]
fn quest_e2025_02_test_part_one() {
    let result = part_one("A=[25,9]").unpack().unwrap();
    assert_eq!(result, Complex::parse("[357,862]").unwrap());
}

#[test]
fn quest_e2025_02_test_part_two() {
    let result = part_two(NOTES).unpack().unwrap();
    assert_eq!(result, 4076);
}

#[test]
fn quest_e2025_02_test_part_three() {
    let result = part_three(NOTES).unpack().unwrap();
    assert_eq!(result, 406954);
}

#[test]
fn complex_arithmetic() {
    let a = Complex(1, 1);
    let b = Complex(2, 2);
    assert_eq!(a.add(b), Some(Complex(3, 3)));
    assert_eq!(a.mul(b), Some(Complex(0, 4)));
    assert_eq!(Complex(10, 12).div(Complex(2, 2)), Some(Complex(5, 6)));
    assert_eq!(Complex(-7, 7).div(Complex(2, -2)), Some(Complex(-3, -3)));
    assert_eq!(Complex(1, 1).div(Complex(0, 1)), None);
    assert_eq!(Complex(i64::MAX, 0).add(Complex(1, 0)), None);
    assert_eq!(Complex(i64::MAX, 0).mul(Complex(2, 0)), None);
    assert_eq!(Complex(i64::MIN, 1).div(Complex(-1, 1)), None);
}

#[test]
fn complex_parsing() {
    assert_eq!(Complex::parse("[1,2]"), Some(Complex(1, 2)));
    assert_eq!(Complex::parse("[ -3 , +4 ]"), Some(Complex(-3, 4)));
    assert_eq!(Complex::parse("[-9223372036854775808,9223372036854775807]"), Some(Complex(i64::MIN, i64::MAX)));
    for s in ["", "1,2]", "[1,2", "[1;2]", "[1,]", "[,2]", "[1,2]x", "[9223372036854775808,0]"] {
        assert_eq!(Complex::parse(s), None, "{s}");
    }
}

#[test]
fn part_one_edges() {
    assert_eq!(part_one("  A=[0,0]\n"), Some(Complex(0, 0)));
    assert_eq!(part_one("A[1,1]"), None);
    assert_eq!(part_one("A=[9223372036854775807,0]"), None);
}

#[test]
fn grid_edges() {
    assert_eq!(part_two("A=[9223372036854775000,0]"), None);
    assert_eq!(part_two("A=oops"), None);
    assert_eq!(part_two("A=[5000000,5000000]"), Some(0));
}

#[test]
fn answer_unpacks() {
    assert_eq!(Some(3).unpack(), Ok(3));
    assert_eq!(None::<i32>.unpack(), Err(()));
    assert_eq!(Ok::<i32, String>(4).unpack(), Ok(4));
    assert_eq!(Err::<i32, String>("e".to_string()).unpack(), Err("e".to_string()));
}
