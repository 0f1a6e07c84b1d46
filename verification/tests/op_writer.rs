use double_buffer::base::{Inner, Reader};
use double_buffer::deferred::DeferredWriter;
use double_buffer::op::OpWriter;
use double_buffer::strategy::local_saving::LocalSavingStrategy;
use double_buffer::traits::Operation;

#[derive(Debug, PartialEq)]
struct Push(u8);

impl Operation<Vec<u8>> for Push {
    fn apply(&mut self, buffer: &mut Vec<u8>) {
        buffer.push(self.0)
    }
}

type Buffers = Inner<[Vec<u8>; 2], LocalSavingStrategy>;

fn read(reader: &mut Reader<LocalSavingStrategy>, inner: &mut Buffers) -> Vec<u8> {
    let guard = reader.get(inner);
    let value = guard.get(inner).clone();
    guard.release(inner);
    value
}

#[test]
fn both_buffers_see_every_write_in_order() {
    let (mut inner, w, mut r) = double_buffer::strategy::local_saving::from_buffers(Vec::new(), Vec::new());
    let mut w = OpWriter::new(DeferredWriter::new(w));
    w.push(Push(1));
    w.push(Push(2));
    assert_eq!(w.applied(), 0);
    assert_eq!(w.ops(), [Push(1), Push(2)]);
    assert!(w.swap_buffers(&mut inner));
    assert_eq!(w.applied(), 2);
    assert_eq!(read(&mut r, &mut inner), [1, 2]);
    w.extend(vec![Push(3)]);
    w.reserve(4);
    assert!(w.swap_buffers(&mut inner));
    assert_eq!(w.ops(), [Push(3)]);
    assert_eq!(w.applied(), 1);
    assert_eq!(read(&mut r, &mut inner), [1, 2, 3]);
    assert!(w.swap_buffers(&mut inner));
    assert_eq!(read(&mut r, &mut inner), [1, 2, 3]);
    assert_eq!(w.applied(), 0);
    assert!(w.ops().is_empty());
}

#[test]
fn a_swap_waits_for_the_readers_of_the_swap_before() {
    let (mut inner, w, mut r) = double_buffer::strategy::local_saving::from_buffers(Vec::new(), Vec::new());
    let mut w = OpWriter::new(DeferredWriter::new(w));
    w.push(Push(1));
    let guard = r.get(&mut inner);
    assert!(w.swap_buffers(&mut inner));
    w.push(Push(2));
    assert!(!w.swap_buffers(&mut inner));
    assert!(!w.finish_swap(&mut inner));
    assert_eq!(w.ops(), [Push(1), Push(2)]);
    assert_eq!(w.applied(), 1);
    assert_eq!(*guard.get(&inner), []);
    guard.release(&mut inner);
    assert!(w.swap_buffers(&mut inner));
    assert_eq!(read(&mut r, &mut inner), [1, 2]);
}

#[test]
fn the_callback_adds_to_the_log_while_readers_are_left() {
    let (mut inner, w, mut r) = double_buffer::strategy::local_saving::from_buffers(Vec::new(), Vec::new());
    let mut w = OpWriter::new(DeferredWriter::new(w));
    assert!(w.swap_buffers_with(&mut inner, |_| vec![Push(9)]));
    assert!(w.ops().is_empty());
    let guard = r.get(&mut inner);
    assert!(w.swap_buffers(&mut inner));
    assert!(!w.swap_buffers_with(&mut inner, |_| vec![Push(1), Push(2)]));
    assert!(!w.finish_swap_with(&mut inner, |_| vec![Push(3)]));
    assert_eq!(w.ops(), [Push(1), Push(2), Push(3)]);
    guard.release(&mut inner);
    assert!(w.finish_swap_with(&mut inner, |_| vec![Push(4)]));
    assert!(w.swap_buffers(&mut inner));
    assert_eq!(read(&mut r, &mut inner), [1, 2, 3]);
}

#[test]
fn the_parts_of_an_op_writer() {
    let (mut inner, w, _r) = double_buffer::strategy::local_saving::from_buffers(vec![7], Vec::new());
    let mut w = OpWriter::new(DeferredWriter::new(w));
    {
        let (writer, mut ops) = w.as_mut_parts();
        assert_eq!(*writer.get(&inner), [7]);
        ops.push(Push(1));
        ops.by_ref().push(Push(2));
        ops.extend(vec![Push(3)]);
        ops.reserve(1);
        assert_eq!(ops.applied(), 0);
        assert_eq!(ops.ops(), [Push(1), Push(2), Push(3)]);
    }
    w.start_swap(&mut inner);
    assert!(w.finish_swap(&mut inner));
    let (mut deferred, list) = w.into_raw_parts();
    assert_eq!(list.len(), 3);
    assert!(deferred.finish_swap(&mut inner));
    assert_eq!(*deferred.get(&inner), []);
}
