use multierror::{ErrorCollector, ErrorSentinel, Fallible, Propagate};

#[test]
fn fallible_new_has_no_errors() {
    let mut f = Fallible::new(42);
    assert_eq!(f.len_errors(), 0);
    assert!(f.is_success());
    assert!(!f.has_errors());
    f.push_error(0);
    assert_eq!(f.len_errors(), 1);
}

#[test]
fn fallible_new_with_errors_holds_them() {
    let f = Fallible::new_with_errors(42, vec!["an error"]);
    assert_eq!(f.len_errors(), 1);
    assert!(f.has_errors());
    assert!(!f.is_success());
    let (value, errors) = f.finalize();
    assert_eq!(value, 42);
    assert_eq!(errors.peek(), &["an error"]);
    errors.ignore();
}

#[test]
fn fallible_push_error_appends_and_keeps_the_value() {
    let mut f = Fallible::new(42);
    f.push_error("this went wrong");
    f.push_error("that went wrong");
    assert_eq!(f.len_errors(), 2);
    assert_eq!(f, Fallible::new_with_errors(42, vec!["this went wrong", "that went wrong"]));
}

fn fallible_sub_task() -> Fallible<u32, String> {
    Fallible::new_with_errors(42, vec!["struggled to compute meaning of life".to_owned()])
}

#[test]
fn fallible_build_collects_pushed_and_propagated_errors() {
    let f = Fallible::build(|errs| {
        errs.push_error("what are we doing?".to_owned());
        let value = fallible_sub_task().propagate(errs);
        value + 1
    });
    let (value, errors) = f.finalize();
    assert_eq!(value, 42 + 1);
    assert_eq!(
        errors.peek(),
        &[
            "what are we doing?".to_owned(),
            "struggled to compute meaning of life".to_owned()
        ]
    );
    errors.ignore();
}

#[test]
fn fallible_build_without_errors() {
    let f: Fallible<u32, String> = Fallible::build(|_| 7);
    assert_eq!(f, Fallible::new(7));
}

#[test]
fn fallible_propagate_moves_errors_and_returns_the_value() {
    let mut source = Fallible::new(42);
    source.push_error("oh no!");
    source.push_error("another error!");
    let mut dest = Fallible::new(123);
    dest.push_error("one last failure!");

    let source_value = source.propagate(&mut dest);
    assert_eq!(dest.len_errors(), 3);
    assert_eq!(source_value, 42);
    assert_eq!(
        dest,
        Fallible::new_with_errors(123, vec!["one last failure!", "oh no!", "another error!"])
    );
}

#[test]
fn fallible_propagate_through_the_trait() {
    let source = Fallible::new_with_errors('v', vec![1, 2]);
    let mut dest = ErrorSentinel::new(vec![0]);
    let inner = Propagate::propagate(source, &mut dest);
    assert_eq!(inner, 'v');
    assert_eq!(dest.peek(), &[0, 1, 2]);
    dest.ignore();
}

#[test]
fn fallible_push_error_through_the_trait() {
    let mut f = Fallible::new(1u8);
    ErrorCollector::push_error(&mut f, "late");
    assert_eq!(f, Fallible::new_with_errors(1u8, vec!["late"]));
}

#[test]
fn fallible_integrate_folds_value_and_appends_errors() {
    let mut source = Fallible::new(42);
    source.push_error("oh no!");
    source.push_error("another error!");
    let mut dest = Fallible::new(123);
    dest.push_error("one last failure!");

    source.integrate(&mut dest, |acc, x| *acc += x);

    let (value, errors) = dest.finalize();
    assert_eq!(value, 123 + 42);
    assert_eq!(errors.peek(), &["one last failure!", "oh no!", "another error!"]);
    errors.ignore();
}

#[test]
fn fallible_integrate_many_into_a_running_total() {
    let mut total: Fallible<Vec<u32>, &str> = Fallible::new(vec![]);
    Fallible::new_with_errors(1, vec!["e1", "e2"]).integrate(&mut total, |acc, x| acc.push(x));
    Fallible::new_with_errors(2, vec![]).integrate(&mut total, |acc, x| acc.push(x));
    Fallible::new_with_errors(3, vec!["e3"]).integrate(&mut total, |acc, x| acc.push(x));
    assert_eq!(total.len_errors(), 2 + 0 + 1);
    assert_eq!(total, Fallible::new_with_errors(vec![1, 2, 3], vec!["e1", "e2", "e3"]));
}

#[test]
fn fallible_zip_pairs_values_and_concatenates_errors() {
    let a = Fallible::new_with_errors(5, vec!["e1", "e2"]);
    let b = Fallible::new_with_errors(9, vec!["e3"]);

    let zipped = a.zip(b);

    let (value, errors) = zipped.finalize();
    assert_eq!(value, (5, 9));
    assert_eq!(errors.peek(), &["e1", "e2", "e3"]);
    errors.ignore();
}

#[test]
fn fallible_zip_conserves_the_number_of_errors() {
    let a = Fallible::new_with_errors("a", vec![1, 2, 3]);
    let b = Fallible::new_with_errors("b", vec![4, 5]);
    let c: Fallible<&str, i32> = Fallible::new("c");
    let before = a.len_errors() + b.len_errors() + c.len_errors();
    let zipped = a.zip(b).zip(c);
    assert_eq!(zipped.len_errors(), before);
    assert_eq!(zipped, Fallible::new_with_errors((("a", "b"), "c"), vec![1, 2, 3, 4, 5]));
}

#[test]
fn fallible_map_transforms_only_the_value() {
    let f = Fallible::new_with_errors("Hello".to_owned(), vec!["oh no!"]);
    let f_len = f.map(|s| s.len());

    let (value, errors) = f_len.finalize();
    assert_eq!(value, 5);
    assert_eq!(errors.peek(), &["oh no!"]);
    errors.ignore();
}

#[test]
fn fallible_map_errors_transforms_each_error_in_order() {
    let f = Fallible::new_with_errors(42, vec!["oh no!", "something went wrong"]);
    let f_mapped = f.map_errors(|e| e.to_uppercase());

    let (value, errors) = f_mapped.finalize();
    assert_eq!(value, 42);
    assert_eq!(errors.peek(), &["OH NO!".to_owned(), "SOMETHING WENT WRONG".to_owned()]);
    errors.ignore();
}

#[test]
fn fallible_map_with_identity_changes_nothing() {
    let f = Fallible::new_with_errors(42, vec!["e1", "e2", "e3"]);
    assert_eq!(f.clone().map(|v| v), f);
    assert_eq!(f.clone().map_errors(|e| e), f);
    let empty: Fallible<u8, u8> = Fallible::new(0);
    assert_eq!(empty.clone().map(|v| v), empty);
    assert_eq!(empty.clone().map_errors(|e| e), empty);
}

#[test]
fn fallible_finalize_splits_value_and_errors() {
    let mut f = Fallible::new(42);
    f.push_error("this went wrong");

    let (value, errors) = f.finalize();
    assert_eq!(value, 42);

    let count = errors.handle(|errs| errs.len());
    assert_eq!(count, 1);
}

#[test]
fn fallible_from_iter_collects_values_and_errors_in_order() {
    let items = vec![
        Fallible::new_with_errors(1, vec!["e1", "e2"]),
        Fallible::new_with_errors(2, vec!["e3"]),
        Fallible::new_with_errors(3, vec!["e4", "e5"]),
    ];

    let combined = Fallible::from_iter(items);

    let (value, errors) = combined.finalize();
    assert_eq!(value, vec![1, 2, 3]);
    assert_eq!(errors.peek(), &["e1", "e2", "e3", "e4", "e5"]);
    errors.ignore();
}

#[test]
fn fallible_from_iter_of_nothing_is_empty() {
    let items: Vec<Fallible<u8, u8>> = vec![];
    assert_eq!(Fallible::from_iter(items), Fallible::new(vec![]));
}

#[test]
fn fallible_from_iter_keeps_items_without_errors() {
    let items = vec![
        Fallible::new(1),
        Fallible::new_with_errors(2, vec!['x']),
        Fallible::new(3),
    ];
    assert_eq!(
        Fallible::from_iter(items),
        Fallible::new_with_errors(vec![1, 2, 3], vec!['x'])
    );
}
