use double_buffer::base::RawBuffers;
use double_buffer::raw::{split, split_mut};
use double_buffer::traits::RawDoubleBuffer;

#[test]
fn selector_names_the_writer_side_of_a_pair() {
    let pair = [10, 20];
    assert_eq!(RawDoubleBuffer::split(&pair, false), (&10, &20));
    assert_eq!(RawDoubleBuffer::split(&pair, true), (&20, &10));
}

#[test]
fn writing_through_a_pair_leaves_the_reader_side() {
    let mut pair = [10, 20];
    {
        let (writer, reader) = RawDoubleBuffer::split_mut(&mut pair, true);
        assert_eq!(*reader, 10);
        *writer = 21;
    }
    assert_eq!(pair, [10, 21]);
    {
        let (writer, reader) = RawDoubleBuffer::split_mut(&mut pair, false);
        assert_eq!(*reader, 21);
        *writer = 11;
    }
    assert_eq!(pair, [11, 21]);
}

#[test]
fn raw_buffers_read_the_reader_side() {
    let mut raw = RawBuffers::new([1u8, 2u8]);
    assert_eq!(*raw.read(false), 2);
    assert_eq!(*raw.read(true), 1);
    assert_eq!(raw.split(false), (&1, &2));
    *raw.split_mut(true).0 = 7;
    assert_eq!(raw.split(false), (&1, &7));
}

#[test]
fn a_slice_is_split_in_halves() {
    let all = [1, 2, 3, 4];
    let (writer, reader) = split(&all, false);
    assert_eq!(writer, [1, 2]);
    assert_eq!(reader, [3, 4]);
    let (writer, reader) = split(&all, true);
    assert_eq!(writer, [3, 4]);
    assert_eq!(reader, [1, 2]);
}

#[test]
fn an_odd_item_belongs_to_no_half() {
    let all = [1, 2, 3, 4, 5];
    let (writer, reader) = split(&all, true);
    assert_eq!(writer, [3, 4]);
    assert_eq!(reader, [1, 2]);
    let none: [u8; 1] = [9];
    let (writer, reader) = split(&none, false);
    assert!(writer.is_empty());
    assert!(reader.is_empty());
}

#[test]
fn writing_through_a_half_leaves_the_other() {
    let mut all = [1, 2, 3, 4, 5];
    {
        let (writer, reader) = split_mut(&mut all, true);
        assert_eq!(reader, [1, 2]);
        writer[0] = 30;
        writer[1] = 40;
    }
    assert_eq!(all, [1, 2, 30, 40, 5]);
    {
        let (writer, reader) = split_mut(&mut all, false);
        assert_eq!(reader, [30, 40]);
        writer[1] = 20;
    }
    assert_eq!(all, [1, 20, 30, 40, 5]);
}
