use rust_project::structs::HousePrice;
use rust_project::structs::YesNo;

#[test]
fn intergeration_test_test() {
    let price = HousePrice {
        price: 100,
        area: String::from("zz"),
        bed_rooms: 3,
        main_road: YesNo::YES,
    };
    assert_eq!(price.price, 100);
    assert_eq!(price.bed_rooms, 3);
}

#[test]
fn test_closure_2() {
    let mut s = String::from("hello");
    let mut add_suffix = || s.push_str(", world!");
    add_suffix();
}

#[test]
fn test_closure_3() {
    let mut s = String::from("hello");
    let add_suffix = |s: &mut String| s.push_str(", world!");
    println!("{}", s);
    add_suffix(&mut s);
}

#[test]
fn iterator_demonstration() {
    let v1 = vec![1, 2, 3];

    let mut v1_iter = v1.iter();

    assert_eq!(v1_iter.next(), Some(&1));
    assert_eq!(v1_iter.next(), Some(&2));
    assert_eq!(v1_iter.next(), Some(&3));
    assert_eq!(v1_iter.next(), None);
}
