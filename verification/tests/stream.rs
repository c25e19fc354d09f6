use audio_normalizer::errors::StreamError;
use audio_normalizer::pool_byte_array::{PoolByteArray, SeekOrigin};

#[test]
fn new_stream_starts_at_zero() {
    let s = PoolByteArray::new(vec![1, 2, 3]);
    assert_eq!(s.len(), 3);
    assert_eq!(s.position(), 0);
}

#[test]
fn read_returns_up_to_n_bytes() {
    let mut s = PoolByteArray::new(vec![10, 20, 30, 40, 50]);
    assert_eq!(s.read(2), vec![10, 20]);
    assert_eq!(s.read(2), vec![30, 40]);
    assert_eq!(s.position(), 4);
}

#[test]
fn read_past_end_returns_fewer() {
    let mut s = PoolByteArray::new(vec![7, 8, 9]);
    assert_eq!(s.read(10), vec![7, 8, 9]);
    assert_eq!(s.read(10), Vec::<u8>::new());
    assert_eq!(s.position(), 3);
}

#[test]
fn write_appends_without_moving_read_cursor() {
    let mut s = PoolByteArray::new(vec![1, 2]);
    assert_eq!(s.read(1), vec![1]);
    assert_eq!(s.write(&[3, 4]), 2);
    assert_eq!(s.position(), 1);
    assert_eq!(s.len(), 4);
    assert_eq!(s.read(3), vec![2, 3, 4]);
}

#[test]
fn seek_start_moves_to_absolute_offset() {
    let mut s = PoolByteArray::new(vec![0, 1, 2, 3, 4]);
    assert_eq!(s.seek(SeekOrigin::Start(3)), Ok(3));
    assert_eq!(s.read(1), vec![3]);
}

#[test]
fn seek_past_end_wraps_modulo_length() {
    let mut s = PoolByteArray::new(vec![0, 1, 2, 3, 4]);
    assert_eq!(s.seek(SeekOrigin::Start(7)), Ok(2));
    assert_eq!(s.read(1), vec![2]);
}

#[test]
fn seek_end_counts_back_from_last_byte() {
    let mut s = PoolByteArray::new(vec![0, 1, 2, 3, 4]);
    assert_eq!(s.seek(SeekOrigin::End(0)), Ok(4));
    assert_eq!(s.read(1), vec![4]);
    assert_eq!(s.seek(SeekOrigin::End(2)), Ok(2));
    assert_eq!(s.read(1), vec![2]);
}

#[test]
fn seek_current_is_relative() {
    let mut s = PoolByteArray::new(vec![0, 1, 2, 3, 4]);
    assert_eq!(s.read(2), vec![0, 1]);
    assert_eq!(s.seek(SeekOrigin::Current(2)), Ok(4));
    assert_eq!(s.seek(SeekOrigin::Current(-3)), Ok(1));
    assert_eq!(s.read(1), vec![1]);
}

#[test]
fn negative_seek_target_is_invalid_offset() {
    let mut s = PoolByteArray::new(vec![0, 1, 2]);
    assert_eq!(s.seek(SeekOrigin::Start(2)), Ok(2));
    assert_eq!(s.seek(SeekOrigin::Start(-1)), Err(StreamError::InvalidOffset));
    assert_eq!(s.seek(SeekOrigin::Current(-5)), Err(StreamError::InvalidOffset));
    assert_eq!(s.seek(SeekOrigin::End(5)), Err(StreamError::InvalidOffset));
    assert_eq!(s.position(), 2);
}

#[test]
fn seek_on_empty_buffer_is_invalid_offset() {
    let mut s = PoolByteArray::new(Vec::new());
    assert_eq!(s.seek(SeekOrigin::Start(0)), Err(StreamError::InvalidOffset));
    assert_eq!(s.seek(SeekOrigin::Start(-1)), Err(StreamError::InvalidOffset));
    assert_eq!(s.seek(SeekOrigin::End(0)), Err(StreamError::InvalidOffset));
    assert_eq!(s.seek(SeekOrigin::Current(3)), Err(StreamError::InvalidOffset));
    assert_eq!(s.position(), 0);
    assert_eq!(s.len(), 0);
}

#[test]
fn clear_resets_contents_and_position() {
    let mut s = PoolByteArray::new(vec![1, 2, 3]);
    assert_eq!(s.read(2), vec![1, 2]);
    s.clear();
    assert_eq!(s.len(), 0);
    assert_eq!(s.position(), 0);
    assert_eq!(s.read(4), Vec::<u8>::new());
}

#[test]
fn flush_changes_nothing() {
    let mut s = PoolByteArray::new(vec![1, 2, 3]);
    assert_eq!(s.read(1), vec![1]);
    s.flush();
    assert_eq!(s.len(), 3);
    assert_eq!(s.position(), 1);
}
