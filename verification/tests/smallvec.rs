use double_buffer::smallvec::SmallVec;

#[test]
fn test() {
    let mut vec = SmallVec::<_, 16>::new();
    vec.push(0);
    vec.push(1);
    vec.push(2);
    vec.push(3);

    assert_eq!(vec.to_vec(), [0, 1, 2, 3]);

    vec.retain(|x| *x % 2 == 0);

    assert_eq!(vec.to_vec(), [0, 2]);
}

#[test]
fn new_vector_is_empty() {
    let vec = SmallVec::<u8, 4>::new();
    assert_eq!(vec.len(), 0);
    assert!(vec.is_empty());
    assert_eq!(vec.to_vec(), Vec::<u8>::new());
    let vec = SmallVec::<u8, 4>::default();
    assert!(vec.is_empty());
}

#[test]
fn items_move_to_the_heap_after_n() {
    let mut vec = SmallVec::<u32, 2>::new();
    vec.push(10);
    vec.push(20);
    assert_eq!(vec.len(), 2);
    vec.push(30);
    vec.push(40);
    vec.push(50);
    assert_eq!(vec.len(), 5);
    assert_eq!(vec.to_vec(), [10, 20, 30, 40, 50]);
    assert_eq!(*vec.get(2), 30);
}

#[test]
fn retain_on_the_heap_keeps_the_order() {
    let mut vec = SmallVec::<u32, 2>::new();
    for item in 0..7 {
        vec.push(item);
    }
    vec.retain(|x| *x % 3 != 0);
    assert_eq!(vec.to_vec(), [1, 2, 4, 5]);
    vec.retain(|_| false);
    assert!(vec.is_empty());
    vec.push(9);
    assert_eq!(vec.to_vec(), [9]);
}

#[test]
fn retain_in_place_can_drop_everything_or_nothing() {
    let mut vec = SmallVec::<u32, 4>::new();
    vec.push(1);
    vec.push(2);
    vec.push(3);
    vec.retain(|_| true);
    assert_eq!(vec.to_vec(), [1, 2, 3]);
    vec.retain(|_| false);
    assert_eq!(vec.len(), 0);
    vec.push(4);
    assert_eq!(vec.to_vec(), [4]);
}

#[test]
fn no_room_in_place_means_the_heap_at_once() {
    let mut vec = SmallVec::<String, 0>::new();
    assert!(vec.is_empty());
    vec.push(String::from("a"));
    vec.push(String::from("b"));
    assert_eq!(vec.len(), 2);
    assert_eq!(vec.get(1), "b");
}

#[test]
fn items_can_be_changed_where_they_are() {
    let mut vec = SmallVec::<u32, 2>::new();
    vec.push(1);
    vec.push(2);
    vec.set(0, 5);
    *vec.get_mut(1) += 10;
    assert_eq!(vec.to_vec(), [5, 12]);
    vec.push(3);
    vec.set(2, 6);
    *vec.get_mut(0) += 1;
    assert_eq!(vec.to_vec(), [6, 12, 6]);
}
