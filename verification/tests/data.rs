use fitsrs::error::Error;
use fitsrs::hdu::data::memory::Cursor;
use fitsrs::hdu::data::stream::Consumed;
use fitsrs::hdu::data::stream::DataOwnedIt;
use fitsrs::hdu::data::stream::DataOwnedSt;
use fitsrs::hdu::header::BitpixValue;

const MISSING: Error<'static> = Error::MandatoryValueError("data block");

#[test]
fn a_new_cursor_stands_at_the_start() {
    let bytes = [1u8, 2, 3, 4, 5];
    let cursor = Cursor::new(&bytes);
    assert_eq!(cursor.position(), 0);
    assert_eq!(cursor.get_ref(), &bytes[..]);
    assert_eq!(cursor.remaining(), &bytes[..]);
}

#[test]
fn skipping_moves_the_cursor_within_the_buffer() {
    let bytes = [1u8, 2, 3, 4, 5];
    let cursor = Cursor::new(&bytes).consume(2).unwrap();
    assert_eq!(cursor.position(), 2);
    assert_eq!(cursor.remaining(), &bytes[2..]);
    assert_eq!(cursor.get_ref(), &bytes[..]);
    let cursor = cursor.consume(3).unwrap();
    assert_eq!(cursor.position(), 5);
    assert_eq!(cursor.remaining(), &bytes[5..]);
    assert_eq!(cursor.consume(0).unwrap().position(), 5);
    assert_eq!(cursor.consume(1), Err(MISSING));
    assert_eq!(Cursor::new(&bytes).consume(6), Err(MISSING));
    assert_eq!(Cursor::new(&bytes).consume(usize::MAX), Err(MISSING));
}

#[test]
fn a_block_is_lent_from_the_buffer_without_a_copy() {
    let bytes: Vec<u8> = (0..32).collect();
    let cursor = Cursor::new(&bytes).consume(4).unwrap();
    let block = cursor.new_data_block(BitpixValue::I32, 5).unwrap();
    let data = *block.get_data();
    assert_eq!(data.as_bytes(), &bytes[4..24]);
    assert_eq!(data.as_bytes().as_ptr(), bytes[4..].as_ptr());
    assert_eq!(data.get_bitpix(), BitpixValue::I32);
    let mut num_bytes_read = 0;
    let cursor = Cursor::consume_data_block(block, &mut num_bytes_read).unwrap();
    assert_eq!(num_bytes_read, 20);
    assert_eq!(cursor.position(), 24);
    assert_eq!(cursor.get_ref(), &bytes[..]);
    // What was lent is still what the buffer holds there.
    assert_eq!(data.as_bytes(), &cursor.get_ref()[4..4 + num_bytes_read]);
}

#[test]
fn a_block_may_end_with_the_buffer() {
    let bytes = [7u8; 16];
    let block = Cursor::new(&bytes).new_data_block(BitpixValue::F64, 2).unwrap();
    assert_eq!(block.get_data().as_bytes(), &bytes[..]);
    let mut num_bytes_read = 0;
    let cursor = Cursor::consume_data_block(block, &mut num_bytes_read).unwrap();
    assert_eq!(num_bytes_read, 16);
    assert_eq!(cursor.position(), 16);
    assert_eq!(cursor.remaining(), &bytes[16..]);
}

#[test]
fn a_block_beyond_the_buffer_is_refused() {
    let bytes = [7u8; 16];
    assert_eq!(Cursor::new(&bytes).new_data_block(BitpixValue::U8, 17).err(), Some(MISSING));
    assert_eq!(Cursor::new(&bytes).new_data_block(BitpixValue::I16, 9).err(), Some(MISSING));
    let cursor = Cursor::new(&bytes).consume(1).unwrap();
    assert_eq!(cursor.new_data_block(BitpixValue::F64, 2).err(), Some(MISSING));
    assert_eq!(cursor.new_data_block(BitpixValue::F64, usize::MAX).err(), Some(MISSING));
    assert_eq!(cursor.new_data_block(BitpixValue::U8, usize::MAX).err(), Some(MISSING));
    assert!(cursor.new_data_block(BitpixValue::U8, 15).is_ok());
}

#[test]
fn an_empty_block_is_lent_anywhere() {
    let bytes = [7u8; 4];
    let cursor = Cursor::new(&bytes).consume(4).unwrap();
    let block = cursor.new_data_block(BitpixValue::I64, 0).unwrap();
    assert_eq!(block.get_data().as_bytes(), &[] as &[u8]);
    let mut num_bytes_read = 9;
    let cursor = Cursor::consume_data_block(block, &mut num_bytes_read).unwrap();
    assert_eq!(num_bytes_read, 0);
    assert_eq!(cursor.position(), 4);
}

#[test]
fn elements_are_cut_by_the_width_of_the_type() {
    let bytes: Vec<u8> = (0..10).collect();
    let block = Cursor::new(&bytes).consume(1).unwrap().new_data_block(BitpixValue::I32, 2).unwrap();
    let data = *block.get_data();
    assert_eq!(data.num_elements(), 2);
    assert_eq!(data.element(0), Some(&bytes[1..5]));
    assert_eq!(data.element(1), Some(&bytes[5..9]));
    assert_eq!(data.element(2), None);
    assert_eq!(data.element(usize::MAX), None);
    let block = Cursor::new(&bytes).new_data_block(BitpixValue::U8, 3).unwrap();
    assert_eq!(block.get_data().num_elements(), 3);
    assert_eq!(block.get_data().element(2), Some(&bytes[2..3]));
}

#[test]
fn a_buffered_block_is_read_in_one_go() {
    let data = DataOwnedIt::new(20);
    assert_eq!(data.remaining(), 20);
    let mut num_bytes_read = 0;
    assert_eq!(
        DataOwnedIt::consume_data_block(data, 20, &mut num_bytes_read),
        Ok(Consumed { num_bytes_read: 20 })
    );
    assert_eq!(num_bytes_read, 20);
}

#[test]
fn a_short_read_of_a_buffered_block_is_an_error() {
    for delivered in [0, 1, 19, 21, usize::MAX] {
        let mut num_bytes_read = 3;
        assert_eq!(
            DataOwnedIt::consume_data_block(DataOwnedIt::new(20), delivered, &mut num_bytes_read),
            Err(MISSING)
        );
        assert_eq!(num_bytes_read, 3);
    }
}

#[test]
fn what_was_pulled_from_a_buffered_block_is_not_read_again() {
    let mut data = DataOwnedIt::new(20);
    assert_eq!(data.pull(8), 8);
    assert_eq!(data.remaining(), 12);
    assert_eq!(data.get_data().remaining(), 12);
    assert_eq!(data.pull(0), 0);
    assert_eq!(data.pull(100), 12);
    assert_eq!(data.remaining(), 0);
    assert_eq!(data.pull(1), 0);
    let mut num_bytes_read = 0;
    assert_eq!(
        DataOwnedIt::consume_data_block(data, 0, &mut num_bytes_read),
        Ok(Consumed { num_bytes_read: 20 })
    );
    assert_eq!(num_bytes_read, 20);

    let mut data = DataOwnedIt::new(20);
    assert_eq!(data.pull(8), 8);
    let mut num_bytes_read = 0;
    assert_eq!(DataOwnedIt::consume_data_block(data, 20, &mut num_bytes_read), Err(MISSING));
    let mut data = DataOwnedIt::new(20);
    assert_eq!(data.pull(8), 8);
    assert_eq!(
        DataOwnedIt::consume_data_block(data, 12, &mut num_bytes_read),
        Ok(Consumed { num_bytes_read: 20 })
    );
}

#[test]
fn an_asynchronous_block_is_read_in_parts() {
    let data = DataOwnedSt::new(20);
    assert_eq!(data.remaining(), 20);
    let data = data.on_read(7).unwrap();
    assert_eq!(data.remaining(), 13);
    let data = data.on_read(1).unwrap();
    assert_eq!(data.remaining(), 12);
    let data = data.on_read(12).unwrap();
    assert_eq!(data.remaining(), 0);
    let mut num_bytes_read = 0;
    assert_eq!(
        DataOwnedSt::consume_data_block(data, &mut num_bytes_read),
        Ok(Consumed { num_bytes_read: 20 })
    );
    assert_eq!(num_bytes_read, 20);
}

#[test]
fn an_asynchronous_block_is_not_complete_before_its_last_byte() {
    let data = DataOwnedSt::new(20).on_read(19).unwrap();
    let mut num_bytes_read = 5;
    assert_eq!(DataOwnedSt::consume_data_block(data, &mut num_bytes_read), Err(MISSING));
    assert_eq!(num_bytes_read, 5);
    assert_eq!(
        DataOwnedSt::consume_data_block(DataOwnedSt::new(1), &mut num_bytes_read),
        Err(MISSING)
    );
}

#[test]
fn a_stream_that_ends_or_overruns_is_an_error() {
    assert_eq!(DataOwnedSt::new(20).on_read(0).err(), Some(MISSING));
    assert_eq!(DataOwnedSt::new(20).on_read(21).err(), Some(MISSING));
    assert_eq!(DataOwnedSt::new(20).on_read(usize::MAX).err(), Some(MISSING));
    let data = DataOwnedSt::new(20).on_read(19).unwrap();
    assert_eq!(data.on_read(2).err(), Some(MISSING));
    let data = DataOwnedSt::new(20).on_read(20).unwrap();
    assert_eq!(data.on_read(0).err(), Some(MISSING));
    assert_eq!(DataOwnedSt::new(0).on_read(0).err(), Some(MISSING));
}

#[test]
fn an_empty_asynchronous_block_is_complete_at_once() {
    let mut num_bytes_read = 5;
    assert_eq!(
        DataOwnedSt::consume_data_block(DataOwnedSt::new(0), &mut num_bytes_read),
        Ok(Consumed { num_bytes_read: 0 })
    );
    assert_eq!(num_bytes_read, 0);
}

#[test]
fn a_buffered_block_is_pulled_through_its_handle() {
    let mut data = DataOwnedIt::new(10);
    assert_eq!(data.get_data_mut().pull(3), 3);
    assert_eq!(data.get_data().remaining(), 7);
    assert_eq!(data.get_data_mut().pull(9), 7);
    assert_eq!(data.remaining(), 0);
}
