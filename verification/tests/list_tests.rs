use ring_buffer::LinkedList;
use ring_buffer::Node;

#[test]
fn test_new_linked_list() {
    let list: LinkedList<i32> = LinkedList::new();
    assert!(list.head.is_none());
    assert!(list.back().is_none());
    assert_eq!(list.length, 0);
}

#[test]
fn test_push_back() {
    let mut list = LinkedList::new();
    list.push_back(1);
    assert_eq!(list.length, 1);
    assert_eq!(list.head.as_ref().unwrap().value, 1);
    assert_eq!(*list.back().unwrap(), 1);

    list.push_back(2);
    assert_eq!(list.length, 2);
    assert_eq!(list.head.as_ref().unwrap().value, 1);
    assert_eq!(*list.back().unwrap(), 2);
    assert_eq!(list.head.as_ref().unwrap().next.as_ref().unwrap().value, 2);
}

#[test]
fn test_iterator() {
    let mut list = LinkedList::new();
    list.push_back(1);
    list.push_back(2);
    list.push_back(3);

    let mut iter = list.into_iter();
    assert_eq!(iter.next().unwrap(), 1);
    assert_eq!(iter.next().unwrap(), 2);
    assert_eq!(iter.next().unwrap(), 3);
    assert!(iter.next().is_none());
}

#[test]
fn test_insert_after() {
    // Insert in the middle
    let mut list1 = LinkedList::new();
    list1.push_back(1);
    list1.push_back(2);
    list1.push_back(3);
    list1.insert_after(0, 10).unwrap(); // Insert 10 after 1 (index 0)
    assert_eq!(list1.length, 4);
    let mut values = Vec::new();
    let mut iter = list1.into_iter();
    while let Some(value) = iter.next() {
        values.push(value);
    }
    assert_eq!(values, vec![1, 10, 2, 3]);

    // Insert at the end
    let mut list2 = LinkedList::new();
    list2.push_back(1);
    list2.push_back(2);
    list2.push_back(3);
    list2.insert_after(2, 20).unwrap(); // Insert 20 after 3 (index 2)
    assert_eq!(list2.length, 4);
    let mut values = Vec::new();
    let mut iter = list2.into_iter();
    while let Some(value) = iter.next() {
        values.push(value);
    }
    assert_eq!(values, vec![1, 2, 3, 20]);

    // Test out of bounds
    let mut list3 = LinkedList::new();
    list3.push_back(1);
    let result = list3.insert_after(5, 30);
    assert!(result.is_err());
    assert_eq!(result.unwrap_err(), "Index out of bounds: 5");
}

#[test]
fn insert_after_reports_multi_digit_index() {
    let mut list: LinkedList<u8> = LinkedList::new();
    list.push_back(7);
    let result = list.insert_after(105, 9);
    assert_eq!(result.unwrap_err(), "Index out of bounds: 105");
    assert_eq!(list.length, 1);
    assert_eq!(*list.back().unwrap(), 7);
}

#[test]
fn node_new_links_nothing() {
    let node = Node::new(42);
    assert_eq!(node.value, 42);
    assert!(node.next.is_none());
}

#[test]
fn default_list_is_empty() {
    let list: LinkedList<i32> = Default::default();
    assert!(list.head.is_none());
    assert_eq!(list.length, 0);
}
