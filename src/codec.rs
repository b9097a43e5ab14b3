//! The line protocol: frames of UTF-8 text, each ended by one line feed.
use vstd::prelude::*;
use vstd::utf8::{decode_utf8, valid_utf8};
use crate::text::{push_char, trim_end, trim_end_text};

verus! {

/// Relies on `String::from_utf8`: it succeeds exactly on valid UTF-8, and
/// then holds the characters that the bytes encode.
#[verifier::external_body]
fn utf8_text(bytes: Vec<u8>) -> (r: Result<String, String>)
    ensures
        match r {
            Ok(s) => valid_utf8(bytes@) && s@ == decode_utf8(bytes@),
            Err(_) => !valid_utf8(bytes@),
        },
{
    String::from_utf8(bytes).map_err(|e| e.to_string())
}

/// Relies on `std::io::Write::write_all`: the bytes are written, or the
/// writer's error is reported as text.
#[verifier::external_body]
fn write_all_bytes<T: std::io::Write>(conn: &mut T, bytes: &[u8]) -> (r: Result<(), String>) {
    conn.write_all(bytes).map_err(|e| e.to_string())
}

/// The frame that carries `line`: the text and one line feed.
pub fn frame_line(line: &str) -> (r: String)
    ensures
        r@ == line@.push('\n'),
{
    let mut s = line.to_owned();
    push_char(&mut s, '\n');
    s
}

/// Writes `line` to `conn` as one frame.
pub fn write_line<T: std::io::Write>(conn: &mut T, line: &String) -> (r: Result<(), String>) {
    let data = frame_line(line.as_str());
    write_all_bytes(conn, data.as_str().as_bytes())
}

/// The bytes of a frame being read.
pub struct LineBuffer {
    buf: Vec<u8>,
}

impl View for LineBuffer {
    type V = Seq<u8>;

    closed spec fn view(&self) -> Seq<u8> {
        self.buf@
    }
}

/// Whether the bytes end a frame: the last one is a line feed.
pub open spec fn frame_complete(b: Seq<u8>) -> bool {
    b.len() > 0 && b.last() == 10
}

/// What a complete frame holds: its text without the white space at its end
/// (the line feed among it), or an error when the bytes are not UTF-8.
pub open spec fn frame_text(b: Seq<u8>, r: Result<String, String>) -> bool {
    match r {
        Ok(s) => valid_utf8(b) && s@ == trim_end(decode_utf8(b)),
        Err(_) => !valid_utf8(b),
    }
}

impl LineBuffer {
    /// A buffer holding no bytes.
    pub fn new() -> (r: LineBuffer)
        ensures
            r@ == Seq::<u8>::empty(),
    {
        LineBuffer { buf: Vec::new() }
    }

    /// Adds the bytes that a read gave; the result says whether the frame is
    /// now complete.
    pub fn feed(&mut self, chunk: &[u8]) -> (r: bool)
        ensures
            final(self)@ == old(self)@ + chunk@,
            r == frame_complete(final(self)@),
    {
        let mut i: usize = 0;
        let ghost before = self.buf@;
        while i < chunk.len()
            invariant
                i <= chunk@.len(),
                self.buf@ == before + chunk@.take(i as int),
            decreases chunk@.len() - i,
        {
            self.buf.push(chunk[i]);
            assert(chunk@.take(i + 1) =~= chunk@.take(i as int).push(chunk@[i as int]));
            i = i + 1;
        }
        assert(chunk@.take(chunk@.len() as int) =~= chunk@);
        let n = self.buf.len();
        n > 0 && self.buf[n - 1] == 10
    }

    /// The text of the frame.
    pub fn finish(self) -> (r: Result<String, String>)
        ensures
            frame_text(self@, r),
    {
        match utf8_text(self.buf) {
            Ok(s) => Ok(trim_end_text(s.as_str()).to_owned()),
            Err(e) => Err(e),
        }
    }
}

} // verus!
