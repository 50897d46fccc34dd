use turing::Label;
use turing::LabelStorage;

#[test]
fn test_label() {
    let mut storage = LabelStorage::new();
    let x = storage.get_or_add(&"hello_world".to_owned());
    let y = storage.get_or_add("hello_world");
    assert_eq!(storage.copies("hello_world"), Some(2));
    let z = storage.get_or_add(Label::new("hello_world").as_str());
    assert_eq!(storage.copies("hello_world"), Some(3));
    assert_eq!(x, y);
    drop(x);
    assert_eq!(storage.copies("hello_world"), Some(2));
    assert_eq!(y, z);
}

#[test]
fn copies_on_never_seen_text_is_absent() {
    let mut storage = LabelStorage::new();
    assert_eq!(storage.copies("anything"), None);
    let _h = storage.get_or_add("present");
    assert_eq!(storage.copies("absent"), None);
    assert_eq!(storage.copies("present"), Some(1));
}

#[test]
fn dropping_each_handle_decrements_by_one() {
    let mut storage = LabelStorage::new();
    let a = storage.get_or_add("block");
    let b = storage.get_or_add("block");
    let c = storage.get_or_add("block");
    assert_eq!(storage.copies("block"), Some(3));
    drop(a);
    assert_eq!(storage.copies("block"), Some(2));
    drop(b);
    assert_eq!(storage.copies("block"), Some(1));
    drop(c);
    assert_eq!(storage.copies("block"), Some(0));
}

#[test]
fn equal_text_means_equal_labels() {
    let a = Label::new("same");
    let b = Label::new("same");
    let c = Label::new("other");
    assert_eq!(a, b);
    assert!(a != c);
    assert_eq!(a.as_str(), "same");
    assert!(a.copies() >= 1);
}

#[test]
fn distinct_texts_intern_distinct_entries() {
    let mut storage = LabelStorage::new();
    let _a = storage.get_or_add("one");
    let _b = storage.get_or_add("two");
    assert_eq!(storage.copies("one"), Some(1));
    assert_eq!(storage.copies("two"), Some(1));
}

#[test]
fn clone_shares_the_canonical_entry() {
    let mut storage = LabelStorage::new();
    let a = storage.get_or_add("shared");
    let b = a.clone();
    assert_eq!(storage.copies("shared"), Some(2));
    assert_eq!(b.as_str(), "shared");
    drop(b);
    assert_eq!(storage.copies("shared"), Some(1));
}
