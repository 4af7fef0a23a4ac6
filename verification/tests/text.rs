use kgui::text::{name_before, push_decimal, render_decimal};

#[test]
fn decimal_of_zero_is_one_digit() {
    assert_eq!(render_decimal(0), "0");
}

#[test]
fn decimal_of_single_digits() {
    assert_eq!(render_decimal(7), "7");
    assert_eq!(render_decimal(9), "9");
}

#[test]
fn decimal_has_no_leading_zeros() {
    assert_eq!(render_decimal(10), "10");
    assert_eq!(render_decimal(42), "42");
    assert_eq!(render_decimal(11010), "11010");
    assert_eq!(render_decimal(1_000_000), "1000000");
}

#[test]
fn decimal_of_the_largest_value() {
    assert_eq!(render_decimal(u32::MAX), "4294967295");
}

#[test]
fn decimal_agrees_with_std_formatting() {
    let mut n: u32 = 1;
    for _ in 0..200 {
        assert_eq!(render_decimal(n), format!("{}", n));
        n = n.wrapping_mul(2_654_435_761).wrapping_add(12_345);
    }
}

#[test]
fn push_decimal_appends_to_what_is_there() {
    let mut s = String::from("port ");
    push_decimal(&mut s, 8080);
    assert_eq!(s, "port 8080");
    push_decimal(&mut s, 0);
    assert_eq!(s, "port 80800");
}

#[test]
fn name_order_is_strict() {
    assert!(!name_before("a", "a"));
    assert!(!name_before("", ""));
    assert!(!name_before("instance", "instance"));
}

#[test]
fn name_order_compares_the_first_difference() {
    assert!(name_before("a", "b"));
    assert!(!name_before("b", "a"));
    assert!(name_before("abc", "abd"));
    assert!(!name_before("abd", "abc"));
}

#[test]
fn a_prefix_comes_first() {
    assert!(name_before("", "a"));
    assert!(!name_before("a", ""));
    assert!(name_before("net", "net-1"));
    assert!(!name_before("net-1", "net"));
}

#[test]
fn name_order_is_case_sensitive() {
    assert!(name_before("B", "a"));
    assert!(!name_before("a", "B"));
    assert!(name_before("Z", "a"));
}

#[test]
fn name_order_goes_by_bytes() {
    // every multi-byte encoding starts above the ASCII range
    assert!(name_before("z", "é"));
    assert!(!name_before("é", "z"));
    assert!(name_before("é", "开"));
    assert!(name_before("开", "😀"));
}

#[test]
fn name_order_agrees_with_std_string_order() {
    let names = ["", "a", "A", "ab", "b", "net-1", "net-10", "net-2", "é", "开开", "开", "z", "😀"];
    for x in names.iter() {
        for y in names.iter() {
            assert_eq!(name_before(x, y), x < y, "{:?} against {:?}", x, y);
        }
    }
}
