use double_buffer::op_bag::OpBag;
use double_buffer::op_list::{OpList, POISON_BIT};
use double_buffer::traits::Operation;

#[derive(Debug, PartialEq)]
enum Step {
    Add(i64),
    Mul(i64),
    /// Adds its number and counts how often it was replayed.
    Counted(i64, u32),
}

impl Operation<i64> for Step {
    fn apply(&mut self, buffer: &mut i64) {
        match self {
            Step::Add(n) => *buffer += *n,
            Step::Mul(n) => *buffer *= *n,
            Step::Counted(n, times) => {
                *buffer += *n;
                *times += 1;
            },
        }
    }
}

/// Sets the buffer on a replay and clears it when it is consumed.
struct Mark;

impl Operation<Vec<u8>> for Mark {
    fn apply(&mut self, buffer: &mut Vec<u8>) {
        buffer.push(1);
    }

    fn apply_final(self, buffer: &mut Vec<u8>) {
        buffer.push(2);
    }
}

#[test]
fn poison_bit_is_the_top_bit() {
    assert_eq!(POISON_BIT, 1usize << (usize::BITS - 1));
    assert_eq!(POISON_BIT, !(usize::MAX >> 1));
}

#[test]
fn new_list_is_empty() {
    let list: OpList<Step> = OpList::new();
    assert_eq!(list.applied(), 0);
    assert!(list.is_empty());
}

#[test]
fn apply_replays_in_insertion_order() {
    let mut list = OpList::new();
    list.push(Step::Add(1));
    list.push(Step::Mul(3));
    assert_eq!(list.applied(), 0);
    let mut first = 2;
    list.apply(&mut first);
    assert_eq!(first, 9);
    assert_eq!(list.applied(), 2);
    assert_eq!(list.len(), 2);
}

#[test]
fn second_apply_consumes_what_the_first_replayed() {
    let mut list = OpList::new();
    list.push(Step::Add(1));
    list.push(Step::Mul(3));
    let mut first = 2;
    let mut second = 2;
    list.apply(&mut first);
    list.push(Step::Add(10));
    list.apply(&mut second);
    assert_eq!(second, 19);
    assert_eq!(list.applied(), 1);
    assert_eq!(&list[..], &[Step::Add(10)]);
    list.apply(&mut first);
    assert_eq!(first, 19);
    assert_eq!(list.applied(), 0);
    assert!(list.is_empty());
}

#[test]
fn apply_on_an_empty_list_changes_nothing() {
    let mut list: OpList<Step> = OpList::new();
    let mut buffer = 7;
    list.apply(&mut buffer);
    assert_eq!(buffer, 7);
    assert_eq!(list.applied(), 0);
}

#[test]
fn replay_leaves_its_note_in_the_operation() {
    let mut list = OpList::new();
    list.push(Step::Counted(5, 0));
    let mut buffer = 0;
    list.apply(&mut buffer);
    assert_eq!(buffer, 5);
    assert_eq!(&list[..], &[Step::Counted(5, 1)]);
}

#[test]
fn consuming_uses_apply_final() {
    let mut list = OpList::new();
    list.push(Mark);
    let mut first = Vec::new();
    let mut second = Vec::new();
    list.apply(&mut first);
    list.apply(&mut second);
    assert_eq!(first, [1]);
    assert_eq!(second, [2]);
    assert_eq!(list.len(), 0);
}

#[test]
fn assume_no_panic_keeps_a_clean_count() {
    let mut list = OpList::new();
    list.push(Step::Add(1));
    let mut buffer = 0;
    list.apply(&mut buffer);
    list.assume_no_panic();
    assert_eq!(list.applied(), 1);
    assert_eq!(list.len(), 1);
}

#[test]
fn extend_and_reserve_keep_the_count() {
    let mut list = OpList::new();
    list.push(Step::Add(1));
    let mut buffer = 0;
    list.apply(&mut buffer);
    list.reserve(8);
    list.extend(vec![Step::Add(2), Step::Add(3)]);
    assert_eq!(list.applied(), 1);
    assert_eq!(&list[..], &[Step::Add(1), Step::Add(2), Step::Add(3)]);
}

#[test]
fn bag_replays_like_the_list() {
    let mut bag = OpBag::new();
    assert_eq!(bag.applied(), 0);
    bag.push(Step::Add(1));
    bag.push(Step::Mul(3));
    bag.reserve(2);
    let mut first = 2;
    let mut second = 2;
    bag.apply(&mut first);
    assert_eq!(first, 9);
    assert_eq!(bag.applied(), 2);
    bag.push(Step::Add(10));
    bag.apply(&mut second);
    assert_eq!(second, 19);
    assert_eq!(bag.applied(), 1);
    assert_eq!(&bag[..], &[Step::Add(10)]);
}
