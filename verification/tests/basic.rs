use double_buffer::base::Inner;
use double_buffer::op::OpWriter;
use double_buffer::strategy::local::LocalStrategy;
use double_buffer::strategy::saving::SavingStrategy;
use double_buffer::strategy::sync::SyncStrategy;
use double_buffer::traits::Operation;

#[test]
fn basic_swap() {
    let mut inner = Inner::new(LocalStrategy::default(), 0, 1);
    let (mut w, mut r) = double_buffer::base::new(&mut inner);
    assert_eq!(*w.get(&inner), 0);
    let guard = r.get(&mut inner);
    assert_eq!(*guard.get(&inner), 1);
    guard.release(&mut inner);
    assert!(w.swap_buffers(&mut inner).is_none());
    assert_eq!(*w.get(&inner), 1);
    let guard = r.get(&mut inner);
    assert_eq!(*guard.get(&inner), 0);
    guard.release(&mut inner);
}

#[test]
fn swap_with_active_readers_is_refused() {
    let mut inner = Inner::new(LocalStrategy::default(), 0, 1);
    let (mut w, mut r) = double_buffer::base::new(&mut inner);
    let guard = r.get(&mut inner);
    assert!(w.try_swap_buffers(&mut inner).is_err());
    assert_eq!(*w.get(&inner), 0);
    assert_eq!(*guard.get(&inner), 1);
    guard.release(&mut inner);
    assert!(matches!(w.try_swap_buffers(&mut inner), Ok(None)));
    assert_eq!(*w.get(&inner), 1);
}

struct Op(i32);

impl Operation<i32> for Op {
    fn apply(&mut self, buffer: &mut i32) {
        *buffer += self.0
    }
}

fn read(reader: &mut double_buffer::base::Reader<SavingStrategy<4>>, inner: &mut Inner<[i32; 2], SavingStrategy<4>>) -> i32 {
    let guard = reader.get(inner);
    let value = *guard.get(inner);
    guard.release(inner);
    value
}

#[test]
fn basic_op_writer() {
    let mut inner = Inner::new(SavingStrategy::<4>::default(), 0, 0);
    let (w, mut r) = double_buffer::base::new(&mut inner);
    let mut w = OpWriter::from(w);
    assert_eq!(read(&mut r, &mut inner), 0);
    w.push(Op(-2));
    assert_eq!(read(&mut r, &mut inner), 0);
    assert!(w.swap_buffers(&mut inner));
    assert_eq!(read(&mut r, &mut inner), -2);
    w.push(Op(2));
    assert_eq!(read(&mut r, &mut inner), -2);
    assert!(w.swap_buffers(&mut inner));
    assert_eq!(read(&mut r, &mut inner), 0);
    w.push(Op(2));
    assert_eq!(read(&mut r, &mut inner), 0);
    assert!(w.swap_buffers(&mut inner));
    assert_eq!(read(&mut r, &mut inner), 2);
    assert!(w.swap_buffers(&mut inner));
    assert_eq!(read(&mut r, &mut inner), 2);
    assert!(w.swap_buffers(&mut inner));
    assert_eq!(read(&mut r, &mut inner), 2);
}

#[test]
fn infinite() {
    let mut inner = Inner::new(SyncStrategy::new(), (), ());
    let (mut w, mut r) = double_buffer::base::new(&mut inner);
    assert!(w.swap_buffers(&mut inner).is_none());
    let guard = r.get(&mut inner);
    let swap = w.start_buffer_swap(&mut inner);
    guard.release(&mut inner);
    assert!(w.finish_buffer_swap(&mut inner, swap).is_none());
}
