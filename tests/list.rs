use linked_list::List;
use linked_list::List::{Cons, Nil};

fn numbers() -> List<i32> {
    Cons(1, Box::new(Cons(2, Box::new(Cons(3, Box::new(Cons(4, Box::new(Cons(5, Box::new(Nil))))))))))
}

fn letters() -> List<String> {
    Cons(String::from("a"), Box::new(Cons(String::from("b"), Box::new(Cons(String::from("c"), Box::new(Cons(String::from("d"), Box::new(Cons(String::from("e"), Box::new(Nil))))))))))
}

#[test]
fn test_is_empty() {
    let list: List<i32> = List::new();

    assert!(list.is_empty());
}

#[test]
fn test_is_not_empty() {
    let list = letters();

    assert!(!list.is_empty());
}

#[test]
fn test_prepend() {
    let mut list = Cons(2, Box::new(Cons(3, Box::new(Cons(4, Box::new(Cons(5, Box::new(Nil))))))));
    list.prepend(1);

    let expected_result = Cons(1, Box::new(Cons(2, Box::new(Cons(3, Box::new(Cons(4, Box::new(Cons(5, Box::new(Nil))))))))));

    assert_eq!(list, expected_result);
}

#[test]
fn test_len() {
    let list = numbers();

    assert_eq!(list.len(), 5);
}

#[test]
fn test_head() {
    let list = letters();

    assert_eq!(list.head(), Some(&String::from("a")));
}

#[test]
fn test_tail() {
    let list = numbers();
    let expected_result = Cons(2, Box::new(Cons(3, Box::new(Cons(4, Box::new(Cons(5, Box::new(Nil))))))));

    assert_eq!(list.tail(), Some(&expected_result));
}

#[test]
fn test_pop() {
    let mut list = numbers();

    let new_list = Cons(2, Box::new(Cons(3, Box::new(Cons(4, Box::new(Cons(5, Box::new(Nil))))))));

    let expected_value = list.pop();

    assert_eq!(list, new_list);
    assert_eq!(expected_value.unwrap(), 1);
}

#[test]
fn test_to_vec() {
    let list_i32 = numbers();
    let expected_result_i32 = [1, 2, 3, 4, 5];
    let result_i32 = list_i32.to_vec();

    let list_string = letters();
    let expected_result_string = [String::from("a"), String::from("b"), String::from("c"), String::from("d"), String::from("e")];
    let result_string = list_string.to_vec();

    assert_eq!(result_i32, expected_result_i32);
    assert_eq!(result_string, expected_result_string);
}

#[test]
fn test_reverse_list() {
    let mut list = numbers();
    let expected_result = Cons(5, Box::new(Cons(4, Box::new(Cons(3, Box::new(Cons(2, Box::new(Cons(1, Box::new(Nil))))))))));
    let result = list.reverse();

    assert_eq!(result, expected_result);
}
