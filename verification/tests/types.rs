use seichi_portal::integer_id::IntegerId;
use seichi_portal::non_empty_string::NonEmptyString;
use seichi_portal::non_empty_vec::NonEmptyVec;
use seichi_portal::ordered_unique_vec::OrderedUniqueVec;
use seichi_portal::validation::ValidationError::{DuplicateElement, EmptyValue};

#[test]
fn allows_empty_vec() {
    let value = OrderedUniqueVec::<i32>::try_new(vec![]).unwrap();

    assert!(value.as_slice().is_empty());
}

#[test]
fn preserves_unique_values_in_order() {
    let value = OrderedUniqueVec::try_new(vec![3, 1, 2]).unwrap();

    assert_eq!(value.as_slice(), &[3, 1, 2]);
}

#[test]
fn rejects_duplicate_values() {
    let result = OrderedUniqueVec::try_new(vec![1, 2, 1]);

    assert_eq!(result, Err(DuplicateElement));
}

#[test]
fn non_empty_vec_rejects_empty_vec() {
    assert_eq!(NonEmptyVec::<i32>::try_new(vec![]), Err(EmptyValue));
}

#[test]
fn non_empty_vec_keeps_its_elements() {
    let value = NonEmptyVec::try_new(vec![1, 2, 3]).unwrap();
    assert_eq!(value.as_vec(), &vec![1, 2, 3]);
    assert_eq!(value.into_inner(), vec![1, 2, 3]);
}

#[test]
fn ordered_unique_vec_empty_and_into_inner() {
    let empty = OrderedUniqueVec::<String>::empty();
    assert!(empty.as_slice().is_empty());
    let value = OrderedUniqueVec::try_new(vec!["b".to_owned(), "a".to_owned()]).unwrap();
    assert_eq!(value.into_inner(), vec!["b".to_owned(), "a".to_owned()]);
    assert_eq!(
        OrderedUniqueVec::try_new(vec!["a".to_owned(), "a".to_owned()]),
        Err(DuplicateElement)
    );
}

#[test]
fn non_empty_string_accepts_only_text() {
    assert_eq!(NonEmptyString::try_new(String::new()), Err(EmptyValue));
    let value = NonEmptyString::try_new("value".to_owned()).unwrap();
    assert_eq!(value.as_str(), "value");
    assert_eq!(value.clone().into_inner(), "value");
    assert_eq!("".parse::<NonEmptyString>(), Err(EmptyValue));
    assert_eq!("x".parse::<NonEmptyString>().unwrap().into_inner(), "x");
    assert_eq!(NonEmptyString::from_text(" ").unwrap().into_inner(), " ");
}

#[test]
fn integer_id_round_trips_its_value() {
    let id: IntegerId<()> = IntegerId::from(42);
    assert_eq!(id.into_inner(), 42);
    assert_eq!(IntegerId::<()>::default().into_inner(), 0);
    assert!(IntegerId::<()>::from(7) == IntegerId::<()>::from(7));
    assert!(IntegerId::<()>::from(7) != IntegerId::<()>::from(8));
}
