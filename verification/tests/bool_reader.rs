use glaredb_lite::bool_reader::{BoolValueReader, ReadCursor};

#[test]
fn reads_bits_least_significant_first() {
    let mut data = ReadCursor::new(vec![0b1010_0101, 0b0000_0011]);
    let mut reader = BoolValueReader::default();
    let mut out = vec![false; 10];
    for i in 0..10 {
        reader.read_next_unchecked(&mut data, i, &mut out);
    }
    assert_eq!(
        vec![true, false, true, false, false, true, false, true, true, true],
        out
    );
    assert_eq!(1, data.remaining());
}

#[test]
fn eight_reads_consume_one_byte() {
    let mut data = ReadCursor::new(vec![0xff, 0x00]);
    let mut reader = BoolValueReader::new();
    let mut out = vec![false; 8];
    for i in 0..7 {
        reader.read_next_unchecked(&mut data, i, &mut out);
        assert_eq!(2, data.remaining());
    }
    reader.read_next_unchecked(&mut data, 7, &mut out);
    assert_eq!(1, data.remaining());
    assert!(out.iter().all(|b| *b));
}

#[test]
fn skip_moves_like_read() {
    let mut data_a = ReadCursor::new(vec![0b0000_0100]);
    let mut data_b = ReadCursor::new(vec![0b0000_0100]);
    let mut ra = BoolValueReader::new();
    let mut rb = BoolValueReader::new();
    let mut out = vec![false; 3];
    ra.skip_unchecked(&mut data_a);
    ra.skip_unchecked(&mut data_a);
    ra.read_next_unchecked(&mut data_a, 0, &mut out);
    rb.read_next_unchecked(&mut data_b, 1, &mut out);
    rb.read_next_unchecked(&mut data_b, 1, &mut out);
    rb.read_next_unchecked(&mut data_b, 2, &mut out);
    assert_eq!(vec![true, false, true], out);
    assert_eq!(data_a.remaining(), data_b.remaining());
}

#[test]
fn cursor_peek_and_skip() {
    let mut data = ReadCursor::new(vec![7, 9]);
    assert_eq!(7, data.peek_next_unchecked());
    data.skip_bytes_unchecked(1);
    assert_eq!(9, data.peek_next_unchecked());
    assert_eq!(1, data.remaining());
}

#[test]
fn eight_reads_of_one_byte_give_its_bits_in_order() {
    let mut data = ReadCursor::new(vec![0x05]);
    let mut reader = BoolValueReader::default();
    let mut out = vec![false; 8];
    for i in 0..8 {
        reader.read_next_unchecked(&mut data, i, &mut out);
    }
    assert_eq!(vec![true, false, true, false, false, false, false, false], out);
    assert_eq!(0, data.remaining());
}

#[test]
fn skip_within_a_byte_needs_no_unread_byte() {
    let mut data = ReadCursor::new(vec![]);
    let mut reader = BoolValueReader::new();
    for _ in 0..7 {
        reader.skip_unchecked(&mut data);
    }
    assert_eq!(0, data.remaining());
}
