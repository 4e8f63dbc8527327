use daimojo::{Cell, CArrayIterator, CTwinArrayIterator, MOJO_DataType, RawColumnBuffer};

fn as_i32(c: Cell) -> i32 {
    match c {
        Cell::Int32(v) => v,
        other => panic!("{:?}", other),
    }
}

#[test]
fn writes_then_reads_in_order() {
    let mut col = RawColumnBuffer::new(MOJO_DataType::MOJO_INT32, 4);
    assert_eq!(4, col.capacity());
    assert_eq!(MOJO_DataType::MOJO_INT32, col.data_type());
    for v in [10, -20, 30, 40] {
        col.unchecked_write_next(Cell::Int32(v));
    }
    assert_eq!(4, col.position());
    col.reset();
    assert_eq!(0, col.position());
    let read: Vec<i32> = (0..4).map(|_| as_i32(col.unchecked_read_next())).collect();
    assert_eq!(vec![10, -20, 30, 40], read);
}

#[test]
fn partial_batch_leaves_tail() {
    let mut col = RawColumnBuffer::new(MOJO_DataType::MOJO_INT32, 3);
    col.unchecked_write_next(Cell::Int32(1));
    col.unchecked_write_next(Cell::Int32(2));
    col.unchecked_write_next(Cell::Int32(3));
    col.reset();
    col.unchecked_write_next(Cell::Int32(9));
    col.reset();
    assert_eq!(9, as_i32(col.unchecked_read_next()));
    assert_eq!(2, as_i32(col.unchecked_read_next()));
    assert_eq!(3, as_i32(col.unchecked_read_next()));
}

#[test]
fn fresh_buffer_holds_zeros() {
    let col = RawColumnBuffer::new(MOJO_DataType::MOJO_BOOL, 2);
    assert!(matches!(col.value_at(1), Cell::Bool(false)));
    let col = RawColumnBuffer::new(MOJO_DataType::MOJO_STRING, 2);
    assert_eq!("", col.unchecked_read_string(0));
}

#[test]
fn strings_by_row_index() {
    let mut col = RawColumnBuffer::new(MOJO_DataType::MOJO_STRING, 3);
    col.unchecked_write_str(2, "last");
    col.unchecked_write_str(0, "first");
    assert_eq!("first", col.unchecked_read_string(0));
    assert_eq!("", col.unchecked_read_string(1));
    assert_eq!("last", col.unchecked_read_string(2));
    assert_eq!(0, col.position());
}

#[test]
fn reset_current_resets_every_buffer() {
    let mut cols = vec![
        RawColumnBuffer::new(MOJO_DataType::MOJO_INT64, 2),
        RawColumnBuffer::new(MOJO_DataType::MOJO_BOOL, 2),
    ];
    cols[0].unchecked_write_next(Cell::Int64(5));
    cols[1].unchecked_write_next(Cell::Bool(true));
    cols[1].unchecked_write_next(Cell::Bool(true));
    RawColumnBuffer::reset_current(&mut cols);
    assert_eq!(0, cols[0].position());
    assert_eq!(0, cols[1].position());
}

#[test]
fn array_iterator_stops_at_count() {
    let items = [3, 1, 4, 1, 5];
    let mut it = CArrayIterator::new(&items, 3);
    assert_eq!(Some(&3), it.next());
    assert_eq!(Some(&1), it.next());
    assert_eq!(Some(&4), it.next());
    assert_eq!(None, it.next());
    assert_eq!(None, it.next());
}

#[test]
fn twin_iterator_pairs_elements() {
    let names = ["a".to_string(), "b".to_string()];
    let types = [MOJO_DataType::MOJO_INT32, MOJO_DataType::MOJO_DOUBLE, MOJO_DataType::MOJO_BOOL];
    let mut it = CTwinArrayIterator::new(2, &names, &types);
    assert_eq!(Some((&names[0], &MOJO_DataType::MOJO_INT32)), it.next());
    assert_eq!(Some((&names[1], &MOJO_DataType::MOJO_DOUBLE)), it.next());
    assert_eq!(None, it.next());
}
