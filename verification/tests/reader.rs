use rasn::input::Input;
use rasn::input::InputError;
use rasn::reader::EndOfStream;
use rasn::reader::Reader;

#[test]
fn reader_decode_length_on_empty_bytes_fails() {
    let mut input = Reader::new(&[]);
    assert!(input.read_byte().is_err())
}

#[test]
fn reader_consume_advances_the_input() {
    let mut input = Reader::new(&[0xCA, 0xFE]);
    assert_eq!(input.read_byte().unwrap(), 0xCA);
    assert_eq!(input.len(), 1);
    assert_eq!(input.remainder(), [0xFE]);
}

#[test]
fn reader_take_advances_the_input() {
    let mut input = Reader::new(&[0x01, 0x02, 0x03, 0x04]);

    let taken = input.take(3).unwrap();
    assert_eq!(input.len(), 1);
    assert_eq!(input.remainder(), &[0x04]);
    assert_eq!(taken.len(), 3);
    assert_eq!(taken, &[0x01, 0x02, 0x03]);
}

#[test]
fn reader_peek_does_not_advance() {
    let input = Reader::new(&[0xCA, 0xFE]);
    assert_eq!(input.peek_byte(), Ok(0xCA));
    assert_eq!(input.peek_byte(), Ok(0xCA));
    assert_eq!(input.len(), 2);
}

#[test]
fn reader_peek_on_empty_window_fails() {
    let input = Reader::new(&[]);
    assert_eq!(input.peek_byte(), Err(EndOfStream));
    assert!(input.is_empty());
}

#[test]
fn reader_take_of_too_many_leaves_the_window() {
    let mut input = Reader::new(&[0x01, 0x02]);
    assert_eq!(input.take(3), Err(EndOfStream));
    assert_eq!(input.remainder(), &[0x01, 0x02]);
}

#[test]
fn reader_take_of_nothing_and_of_all() {
    let mut input = Reader::new(&[0x01, 0x02]);
    assert_eq!(input.take(0).unwrap(), &[] as &[u8]);
    assert_eq!(input.take(2).unwrap(), &[0x01, 0x02]);
    assert!(input.is_empty());
    assert_eq!(input.read_byte(), Err(EndOfStream));
}

#[test]
fn reader_clear_drops_what_is_left() {
    let mut input = Reader::new(&[0x01, 0x02, 0x03]);
    input.clear();
    assert!(input.is_empty());
    assert_eq!(input.len(), 0);
    assert_eq!(input.remainder(), &[] as &[u8]);
}

#[test]
fn input_decode_length_on_empty_bytes_fails() {
    let mut input = Input::new(&[]);
    assert!(input.consume().is_err())
}

#[test]
fn input_consume_advances_the_input() {
    let mut input = Input::new(&[0xCA, 0xFE]);
    assert_eq!(input.consume().unwrap(), 0xCA);
    assert_eq!(input.len(), 1);
    assert_eq!(input.as_slice_less_safe(), [0xFE]);
}

#[test]
fn can_iterate_over_underlying_slice() {
    let underlying = [0xCA, 0xFE];

    let input = Input::new(&underlying);

    let mut vec: Vec<u8> = Vec::new();
    for byte in input.iter() {
        vec.push(*byte)
    }

    assert_eq!(&underlying, vec.as_slice())
}

#[test]
fn input_take_advances_the_input() {
    let mut input = Input::new(&[0x01, 0x02, 0x03, 0x04]);

    let taken = input.take(3).unwrap();
    assert_eq!(input.len(), 1);
    assert_eq!(input.as_slice_less_safe(), &[0x04]);
    assert_eq!(taken.len(), 3);
    assert_eq!(taken.as_slice_less_safe(), &[0x01, 0x02, 0x03]);
}

#[test]
fn input_error_holds_the_position() {
    let mut input = Input::new(&[0x01, 0x02, 0x03]);
    assert_eq!(input.consume(), Ok(0x01));
    assert_eq!(input.take(3).err(), Some(InputError::EndOfStream(1)));
    assert_eq!(input.len(), 2);
    assert!(input.take(2).is_ok());
    assert_eq!(input.consume(), Err(InputError::EndOfStream(3)));
}
