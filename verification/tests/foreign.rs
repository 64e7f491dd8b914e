use reftake::{BufferedReadable, Readable, RefTake, RefTakeExt};
use std::io::{BufRead, BufReader, Cursor, Read};

/// A stream that fails whenever it is asked, and counts how often.
struct Broken {
    asked: usize,
}

impl Readable for Broken {
    type Error = &'static str;

    fn read(&mut self, _buf: &mut [u8]) -> Result<usize, &'static str> {
        self.asked += 1;
        Err("asked to read")
    }
}

impl BufferedReadable for Broken {
    fn fill_buf(&mut self) -> Result<&[u8], &'static str> {
        self.asked += 1;
        Err("asked to fill")
    }

    fn consume(&mut self, _amount: usize) {
        self.asked += 1;
    }
}

/// A stream that delivers at most two bytes at a time.
struct Trickle {
    data: &'static [u8],
    pos: usize,
}

impl Readable for Trickle {
    type Error = ();

    fn read(&mut self, buf: &mut [u8]) -> Result<usize, ()> {
        let left = self.data.len() - self.pos;
        let n = buf.len().min(left).min(2);
        buf[..n].copy_from_slice(&self.data[self.pos..self.pos + n]);
        self.pos += n;
        Ok(n)
    }
}

/// A reader of the standard library, seen as a stream.
struct Io<R>(R);

impl<R: Read> Readable for Io<R> {
    type Error = std::io::ErrorKind;

    fn read(&mut self, buf: &mut [u8]) -> Result<usize, std::io::ErrorKind> {
        match self.0.read(buf) {
            Ok(n) => {
                assert!(n <= buf.len());
                Ok(n)
            }
            Err(e) => Err(e.kind()),
        }
    }
}

impl<R: BufRead> BufferedReadable for Io<R> {
    fn fill_buf(&mut self) -> Result<&[u8], std::io::ErrorKind> {
        match self.0.fill_buf() {
            Ok(bytes) => Ok(bytes),
            Err(e) => Err(e.kind()),
        }
    }

    fn consume(&mut self, amount: usize) {
        self.0.consume(amount)
    }
}

#[test]
fn zero_limit_does_not_ask_the_stream() {
    let mut stub = Broken { asked: 0 };
    {
        let mut take = RefTake::wrap(&mut stub, 0);
        let mut buf = [9u8; 4];
        assert_eq!(take.read(&mut buf), Ok(0));
        assert_eq!(take.read(&mut buf), Ok(0));
        assert_eq!(buf, [9u8; 4]);
        assert_eq!(take.fill_buf(), Ok(&b""[..]));
        assert_eq!(take.current_limit(), 0);
    }
    assert_eq!(stub.asked, 0);
}

#[test]
fn exhausted_view_does_not_ask_the_stream() {
    let mut stub = Broken { asked: 0 };
    {
        let mut take = stub.take_ref(3);
        take.consume(5);
        assert_eq!(take.current_limit(), 0);
        let mut buf = [0u8; 4];
        assert_eq!(take.read(&mut buf), Ok(0));
        assert_eq!(take.fill_buf(), Ok(&b""[..]));
    }
    assert_eq!(stub.asked, 1);
}

#[test]
fn failure_is_handed_on_and_costs_nothing() {
    let mut stub = Broken { asked: 0 };
    {
        let mut take = stub.take_ref(3);
        let mut buf = [0u8; 4];
        assert_eq!(take.read(&mut buf), Err("asked to read"));
        assert_eq!(take.current_limit(), 3);
        assert_eq!(take.fill_buf(), Err("asked to fill"));
        assert_eq!(take.current_limit(), 3);
        assert_eq!(take.read(&mut buf), Err("asked to read"));
        assert_eq!(take.current_limit(), 3);
    }
    assert_eq!(stub.asked, 3);
}

#[test]
fn view_of_a_cursor() {
    let mut reader = Io(Cursor::new(b"Hello, world!"));
    let mut buf = [0u8; 10];
    {
        let mut take = reader.take_ref(5);
        let n = take.read(&mut buf).unwrap();
        assert_eq!(n, 5);
        assert_eq!(&buf[..n], b"Hello");
        assert_eq!(take.current_limit(), 0);
        assert_eq!(take.read(&mut buf).unwrap(), 0);
    }
    let mut rest = String::new();
    reader.0.read_to_string(&mut rest).unwrap();
    assert_eq!(rest, ", world!");
}

#[test]
fn view_of_a_buffered_reader() {
    let mut reader = Io(BufReader::new(Cursor::new(b"abcdef")));
    {
        let mut take = reader.take_ref(4);
        assert_eq!(take.fill_buf().unwrap(), b"abcd");
        take.consume(2);
        assert_eq!(take.fill_buf().unwrap(), b"cd");
        take.consume(10);
        assert_eq!(take.current_limit(), 0);
        assert_eq!(take.fill_buf().unwrap(), b"");
    }
    let mut rest = String::new();
    reader.0.read_to_string(&mut rest).unwrap();
    assert_eq!(rest, "ef");
}

#[test]
fn view_of_a_stream_that_reads_short() {
    let mut stream = Trickle { data: b"abcdefgh", pos: 0 };
    {
        let mut take = stream.take_ref(5);
        let mut buf = [0u8; 4];
        assert_eq!(take.read(&mut buf), Ok(2));
        assert_eq!(&buf[..2], b"ab");
        assert_eq!(take.current_limit(), 3);
        assert_eq!(take.read(&mut buf), Ok(2));
        assert_eq!(&buf[..2], b"cd");
        assert_eq!(take.current_limit(), 1);
        assert_eq!(take.read(&mut buf), Ok(1));
        assert_eq!(&buf[..1], b"e");
        assert_eq!(take.current_limit(), 0);
        assert_eq!(take.read(&mut buf), Ok(0));
    }
    assert_eq!(stream.pos, 5);
}
