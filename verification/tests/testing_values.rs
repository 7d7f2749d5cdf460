use svarog::gameplay::value::Value;

#[test]
fn value_reduce_tests() {
    let mut v = Value::new(10);
    assert_eq!(v.total(), 10);
    assert_eq!(*v, 10);
    let o = v.reduce(5);
    assert_eq!(*v, 5);
    assert_eq!(o, 0);
    let o = v.reduce(6);
    assert_eq!(*v, 0);
    assert_eq!(o, 1);
}

#[test]
fn value_add_tests() {
    let mut v = Value::new(10); // 10/10
    assert_eq!(v.total(), 10);
    assert_eq!(*v, 10);
    let o = v.add(5);                   // (10 + 5)/10 = 10 carry 5
    assert_eq!(*v, v.total());
    assert_eq!(o, 5);
    let _ = v.reduce(5);                     // 10 - 5 = 5/10
    let o = v.add(6);                   // (5 + 6)/10 = 10 carry 1
    assert_eq!(*v, v.total());
    assert_eq!(o, 1);
}
