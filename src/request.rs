//! Bounded reading of a GET request: the method sniff, then lines up to a
//! blank line, never more than a fixed number of bytes.
use vstd::prelude::*;

use crate::bytes::{append_bytes, copy_range};
use crate::error::Error;

verus! {

/// How many bytes may follow the method before the request must be complete.
pub const MAX_REQUEST_READ_SIZE: usize = 4096;

/// The only method served, as ASCII bytes: `GET`.
pub open spec fn get_method() -> Seq<u8> {
    seq![71u8, 69u8, 84u8]
}

/// A line ends with a line feed (10); a carriage return is 13.
/// `i` starts a line of `s`.
pub open spec fn is_line_start(s: Seq<u8>, i: int) -> bool {
    0 <= i < s.len() && (i == 0 || s[i - 1] == 10u8)
}

/// The line that starts at `i` is empty: a bare `\n` or `\r\n`.
pub open spec fn blank_line_at(s: Seq<u8>, i: int) -> bool {
    is_line_start(s, i) && (s[i] == 10u8 || (s[i] == 13u8 && i + 1 < s.len() && s[i + 1]
        == 10u8))
}

/// Where the blank line that starts at `i` ends (exclusive).
pub open spec fn blank_line_end(s: Seq<u8>, i: int) -> int {
    if s[i] == 10u8 {
        i + 1
    } else {
        i + 2
    }
}

/// The first blank line of `s`, if any.
pub open spec fn first_blank_line(s: Seq<u8>) -> Option<int> {
    if exists|i: int| blank_line_at(s, i) {
        Some(
            choose|i: int|
                blank_line_at(s, i) && forall|j: int| 0 <= j < i ==> !blank_line_at(s, j),
        )
    } else {
        None
    }
}

/// The bytes after the method that may be read: at most
/// `MAX_REQUEST_READ_SIZE` of them.
pub open spec fn header_window(input: Seq<u8>) -> Seq<u8>
    recommends
        input.len() >= 3,
{
    if input.len() - 3 <= MAX_REQUEST_READ_SIZE {
        input.subrange(3, input.len() as int)
    } else {
        input.subrange(3, 3 + MAX_REQUEST_READ_SIZE)
    }
}

/// What reading a request off a stream that holds exactly `input` and then
/// ends gives: the method and the lines up to and including the first
/// blank line, or an error.
pub open spec fn request_outcome(input: Seq<u8>) -> Result<Seq<u8>, Error> {
    if input.len() < 3 {
        Err(Error::WrongRequest)
    } else if input.subrange(0, 3) != get_method() {
        Err(Error::WrongRequest)
    } else {
        match first_blank_line(header_window(input)) {
            Some(i) => Ok(input.subrange(0, 3 + blank_line_end(header_window(input), i))),
            None => Err(Error::WrongRequest),
        }
    }
}

proof fn lemma_first_blank_line(s: Seq<u8>, i: int)
    requires
        blank_line_at(s, i),
        forall|j: int| 0 <= j < i ==> !blank_line_at(s, j),
    ensures
        first_blank_line(s) == Some(i),
{
    let k = choose|k: int|
        blank_line_at(s, k) && forall|j: int| 0 <= j < k ==> !blank_line_at(s, j);
    if k < i {
        assert(!blank_line_at(s, k));
    } else if k > i {
        assert(!blank_line_at(s, i));
    }
}

/// Reads the HTTP request from a stream that holds `input` and then ends.
/// Returns the request (method, request line and headers, through the
/// terminating blank line) or the reason it was refused.
pub fn read_http_request(input: &[u8]) -> (r: Result<Vec<u8>, Error>)
    ensures
        match r {
            Ok(req) => request_outcome(input@) == Ok::<Seq<u8>, Error>(req@),
            Err(e) => request_outcome(input@) == Err::<Seq<u8>, Error>(e),
        },
{
    if input.len() < 3 {
        return Err(Error::WrongRequest);
    }
    if input[0] != 71u8 || input[1] != 69u8 || input[2] != 84u8 {
        assert(input@.subrange(0, 3) != get_method()) by {
            if input@.subrange(0, 3) == get_method() {
                assert(input@.subrange(0, 3)[0] == input@[0]);
                assert(input@.subrange(0, 3)[1] == input@[1]);
                assert(input@.subrange(0, 3)[2] == input@[2]);
            }
        }
        return Err(Error::WrongRequest);
    }
    assert(input@.subrange(0, 3) == get_method());
    let limit: usize = if input.len() - 3 <= MAX_REQUEST_READ_SIZE {
        input.len()
    } else {
        3 + MAX_REQUEST_READ_SIZE
    };
    let ghost w = header_window(input@);
    assert(w == input@.subrange(3, limit as int));
    let mut i: usize = 3;
    while i < limit
        invariant
            3 <= i <= limit <= input@.len(),
            w == input@.subrange(3, limit as int),
            w == header_window(input@),
            input@.subrange(0, 3) == get_method(),
            forall|j: int| 0 <= j < i - 3 ==> !blank_line_at(w, j),
        decreases limit - i,
    {
        assert(w.len() == limit - 3);
        assert(w[i - 3] == input@[i as int]);
        assert(i > 3 ==> w[i - 4] == input@[i - 1]);
        assert(i + 1 < limit ==> w[i - 2] == input@[i + 1]);
        let starts: bool = i == 3 || input[i - 1] == 10u8;
        let blank: bool = input[i] == 10u8 || (input[i] == 13u8 && i + 1 < limit && input[i + 1]
            == 10u8);
        if starts && blank {
            let end: usize = if input[i] == 10u8 {
                i + 1
            } else {
                i + 2
            };
            assert(blank_line_at(w, i - 3));
            proof {
                lemma_first_blank_line(w, i - 3);
            }
            assert(3 + blank_line_end(w, i - 3) == end);
            let req = copy_range(input, 0, end);
            assert(request_outcome(input@) == Ok::<Seq<u8>, Error>(req@));
            return Ok(req);
        }
        assert(!blank_line_at(w, i - 3));
        i = i + 1;
    }
    assert(forall|j: int| !blank_line_at(w, j));
    Err(Error::WrongRequest)
}

/// A request that sends more than `MAX_REQUEST_READ_SIZE` bytes after the
/// method without a blank line among them is refused as `WrongRequest`.
pub proof fn lemma_oversized_request_refused(input: Seq<u8>)
    requires
        input.len() > 3 + MAX_REQUEST_READ_SIZE,
        forall|i: int| !#[trigger] blank_line_at(input.subrange(3, 3 + MAX_REQUEST_READ_SIZE), i),
    ensures
        request_outcome(input) == Err::<Seq<u8>, Error>(Error::WrongRequest),
{
}

/// `line` is an empty line: a bare `\n` or `\r\n`.
pub open spec fn is_blank_line(line: Seq<u8>) -> bool {
    line == seq![10u8] || line == seq![13u8, 10u8]
}

/// `line` is one whole line: it ends with its only `\n`.
pub open spec fn is_whole_line(line: Seq<u8>) -> bool {
    &&& line.len() > 0
    &&& line.last() == 10u8
    &&& forall|k: int| 0 <= k < line.len() - 1 ==> line[k] != 10u8
}

/// The part of a request after its method.
pub open spec fn after_method(request: Seq<u8>) -> Seq<u8> {
    request.subrange(3, request.len() as int)
}

/// Whether `line` is one whole line.
fn whole_line(line: &[u8]) -> (r: bool)
    ensures
        r == is_whole_line(line@),
{
    if line.len() == 0 || line[line.len() - 1] != 10u8 {
        return false;
    }
    let last: usize = line.len() - 1;
    let mut k: usize = 0;
    while k < last
        invariant
            last == line@.len() - 1,
            k <= last,
            forall|m: int| 0 <= m < k ==> line@[m] != 10u8,
        decreases last - k,
    {
        if line[k] == 10u8 {
            return false;
        }
        k = k + 1;
    }
    true
}

/// What one line read off the connection does to the request being read.
#[derive(Clone, Copy, Debug, PartialEq, Eq, Structural)]
pub enum ReadStep {
    /// The line was added; the request goes on.
    NeedMore,
    /// The line was the blank line that ends the request.
    Complete,
    /// The stream ended, the request would grow past its bound, or it was
    /// already complete.
    Rejected,
}

/// A request being read line by line from a live connection. The caller
/// reads each line (up to and including its `\n`, never more than
/// `remaining` bytes) and hands it over. A line without its `\n` means the
/// stream, or the allowed size, ended before it did; an empty one, that the
/// stream ended.
pub struct RequestReader {
    request: Vec<u8>,
    complete: bool,
}

impl View for RequestReader {
    type V = Seq<u8>;

    closed spec fn view(&self) -> Seq<u8> {
        self.request@
    }
}

impl RequestReader {
    /// The request read so far starts with the method, stays within the
    /// bound, and is complete once a blank line was added.
    pub closed spec fn wf(&self) -> bool {
        &&& self@.len() >= 3
        &&& self@.subrange(0, 3) == get_method()
        &&& self@.len() <= 3 + MAX_REQUEST_READ_SIZE
        &&& self.complete == !self.is_open()
        &&& self.is_open() ==> (self@.len() == 3 || self@.last() == 10u8)
    }

    /// No blank line has been read yet: the request goes on.
    pub open spec fn is_open(&self) -> bool {
        forall|i: int| !#[trigger] blank_line_at(after_method(self@), i)
    }

    /// How many more bytes the request may take.
    pub open spec fn spec_remaining(&self) -> int {
        3 + MAX_REQUEST_READ_SIZE - self@.len()
    }

    /// Starts a request from the first three bytes read off the connection:
    /// anything but `GET` is refused.
    pub fn start(first: &[u8]) -> (r: Result<RequestReader, Error>)
        ensures
            match r {
                Ok(reader) => first@ == get_method() && reader.wf() && reader@ == first@
                    && reader.is_open(),
                Err(e) => first@ != get_method() && e == Error::WrongRequest,
            },
    {
        if first.len() != 3 || first[0] != 71u8 || first[1] != 69u8 || first[2] != 84u8 {
            assert(first@ != get_method()) by {
                if first@ == get_method() {
                    assert(first@[0] == 71u8 && first@[1] == 69u8 && first@[2] == 84u8);
                }
            }
            return Err(Error::WrongRequest);
        }
        assert(first@ =~= get_method());
        let reader = RequestReader { request: copy_range(first, 0, 3), complete: false };
        assert(reader@ =~= first@);
        assert(after_method(reader@).len() == 0);
        Ok(reader)
    }

    /// How many more bytes may be read for this request.
    pub fn remaining(&self) -> (r: usize)
        requires
            self.wf(),
        ensures
            r == self.spec_remaining(),
    {
        3 + MAX_REQUEST_READ_SIZE - self.request.len()
    }

    /// Takes the next line read off the connection. A whole line that fits
    /// is added to an open request, which is complete when the line is
    /// blank; anything else is refused and leaves the request as it was.
    /// A request completed this way is exactly what `read_http_request`
    /// gives for its bytes.
    #[verifier::rlimit(50)]
    pub fn push_line(&mut self, line: &[u8]) -> (step: ReadStep)
        requires
            old(self).wf(),
        ensures
            final(self).wf(),
            is_whole_line(line@) && line@.len() <= old(self).spec_remaining() && old(
                self,
            ).is_open() ==> final(self)@ == old(self)@ + line@ && (step == ReadStep::Complete
                <==> is_blank_line(line@)) && step != ReadStep::Rejected,
            !(is_whole_line(line@) && line@.len() <= old(self).spec_remaining() && old(
                self,
            ).is_open()) ==> step == ReadStep::Rejected && final(self)@ == old(self)@,
            step == ReadStep::NeedMore ==> final(self).is_open(),
            step == ReadStep::Complete ==> request_outcome(final(self)@) == Ok::<
                Seq<u8>,
                Error,
            >(final(self)@),
    {
        if self.complete || line.len() > self.remaining() {
            return ReadStep::Rejected;
        }
        if !whole_line(line) {
            return ReadStep::Rejected;
        }
        let blank: bool = (line.len() == 1 && line[0] == 10u8) || (line.len() == 2 && line[0]
            == 13u8 && line[1] == 10u8);
        proof {
            if blank {
                if line@.len() == 1 {
                    assert(line@ =~= seq![10u8]);
                } else {
                    assert(line@ =~= seq![13u8, 10u8]);
                }
            }
        }
        let ghost before = self@;
        append_bytes(&mut self.request, line);
        proof {
            lemma_push_whole_line(before, line@);
        }
        if blank {
            self.complete = true;
            ReadStep::Complete
        } else {
            ReadStep::NeedMore
        }
    }

    /// The request read so far.
    pub fn into_request(self) -> (r: Vec<u8>)
        ensures
            r@ == self@,
    {
        self.request
    }
}

/// Adding a whole line to an open request: the request becomes complete
/// exactly when the line is blank, and then it ends with its first blank
/// line.
proof fn lemma_push_whole_line(before: Seq<u8>, line: Seq<u8>)
    requires
        before.len() >= 3,
        before.subrange(0, 3) == get_method(),
        before.len() + line.len() <= 3 + MAX_REQUEST_READ_SIZE,
        before.len() == 3 || before.last() == 10u8,
        forall|i: int| !#[trigger] blank_line_at(after_method(before), i),
        is_whole_line(line),
    ensures
        is_blank_line(line) ==> blank_line_at(after_method(before + line), after_method(before).len() as int),
        is_blank_line(line) ==> first_blank_line(after_method(before + line)) == Some(after_method(before).len() as int),
        !is_blank_line(line) ==> forall|i: int| !#[trigger] blank_line_at(after_method(before + line), i),
        (before + line).last() == 10u8,
        is_blank_line(line) ==> request_outcome(before + line) == Ok::<Seq<u8>, Error>(before + line),
        (before + line).subrange(0, 3) == before.subrange(0, 3),
{
    let w = after_method(before);
    let w2 = after_method(before + line);
    let n = w.len() as int;
    assert(w2 =~= w + line);
    assert forall|j: int| 0 <= j < n implies !blank_line_at(w2, j) by {
        assert(!blank_line_at(w, j));
        if j == n - 1 {
            assert(w[j] == 10u8);
        }
    }
    if is_blank_line(line) {
        assert(blank_line_at(w2, n));
        lemma_first_blank_line(w2, n);
        let all = before + line;
        assert(header_window(all) == w2);
        assert(all.subrange(0, 3) =~= before.subrange(0, 3));
        assert(blank_line_end(w2, n) == w2.len());
        assert(all.subrange(0, 3 + w2.len() as int) =~= all);
    } else {
        assert forall|i: int| !#[trigger] blank_line_at(w2, i) by {
            if n <= i < w2.len() {
                if i > n {
                    assert(line[i - n - 1] != 10u8);
                } else {
                    if line[0] == 10u8 {
                        assert(line =~= seq![10u8]);
                    } else if line[0] == 13u8 && line.len() > 1 && line[1] == 10u8 {
                        assert(line =~= seq![13u8, 10u8]);
                    }
                }
            }
        }
    }
}

} // verus!
