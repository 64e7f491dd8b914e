use reftake::{BufferedReadable, MemoryStream, Readable};

#[test]
fn memory_stream_fills_the_buffer() {
    let mut stream = MemoryStream::new(b"abcdef");
    let mut buf = [0u8; 4];
    assert_eq!(stream.read(&mut buf).unwrap(), 4);
    assert_eq!(&buf, b"abcd");
    assert_eq!(stream.read(&mut buf).unwrap(), 2);
    assert_eq!(&buf, b"efcd");
    assert_eq!(stream.read(&mut buf).unwrap(), 0);
    assert_eq!(&buf, b"efcd");
}

#[test]
fn memory_stream_of_nothing_is_at_its_end() {
    let mut stream = MemoryStream::new(b"");
    let mut buf = [7u8; 2];
    assert_eq!(stream.read(&mut buf).unwrap(), 0);
    assert_eq!(buf, [7, 7]);
    assert_eq!(stream.fill_buf().unwrap(), b"");
}

#[test]
fn memory_stream_shows_all_that_is_left() {
    let mut stream = MemoryStream::new(b"abcdef");
    assert_eq!(stream.fill_buf().unwrap(), b"abcdef");
    stream.consume(2);
    assert_eq!(stream.fill_buf().unwrap(), b"cdef");
    let mut buf = [0u8; 1];
    assert_eq!(stream.read(&mut buf).unwrap(), 1);
    assert_eq!(&buf, b"c");
    assert_eq!(stream.fill_buf().unwrap(), b"def");
}

#[test]
fn memory_stream_consumes_no_more_than_it_has() {
    let mut stream = MemoryStream::new(b"abc");
    stream.consume(10);
    assert_eq!(stream.fill_buf().unwrap(), b"");
    let mut buf = [0u8; 2];
    assert_eq!(stream.read(&mut buf).unwrap(), 0);
}
