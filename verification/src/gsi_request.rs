//! The requests with which the game reports: HTTP, read piece by piece.
use vstd::prelude::*;

use crate::seqs;
use crate::text;

verus! {

/// The bytes after which a request is given up.
pub const MAX_REQUEST_BYTES: usize = 131072;

/// Whether the blank line that ends the headers begins at `i`.
pub open spec fn headers_end_at(request: Seq<u8>, i: int) -> bool {
    &&& 0 <= i
    &&& i + 4 <= request.len()
    &&& request[i] == 13
    &&& request[i + 1] == 10
    &&& request[i + 2] == 13
    &&& request[i + 3] == 10
}

/// Whether `i` is where the headers end: where the first blank line begins.
pub open spec fn is_header_end(request: Seq<u8>, i: int) -> bool {
    headers_end_at(request, i) && forall|j: int| 0 <= j < i ==> !headers_end_at(request, j)
}

/// Where the headers end, if they do.
pub open spec fn header_end(request: Seq<u8>) -> Option<int> {
    if exists|i: int| is_header_end(request, i) {
        Some(choose|i: int| is_header_end(request, i))
    } else {
        None
    }
}

proof fn lemma_header_end_found(request: Seq<u8>, i: int)
    requires
        is_header_end(request, i),
    ensures
        header_end(request) == Some(i),
{
    let k = choose|k: int| is_header_end(request, k);
    assert(is_header_end(request, k));
    assert(!(k < i) && !(i < k));
}

/// The end of the headers stays where it is when more bytes come.
proof fn lemma_header_end_stays(request: Seq<u8>, more: Seq<u8>)
    ensures
        header_end(request) is Some ==> header_end(request + more) == header_end(request),
{
    if exists|i: int| is_header_end(request, i) {
        let i = choose|i: int| is_header_end(request, i);
        let whole = request + more;
        assert(headers_end_at(whole, i));
        assert forall|j: int| 0 <= j < i implies !headers_end_at(whole, j) by {
            assert(!headers_end_at(request, j));
            assert(j + 4 <= request.len() ==> whole[j] == request[j]);
        }
        lemma_header_end_found(whole, i);
    }
}

/// Where the headers end, if they do.
pub fn find_header_end(request: &Vec<u8>) -> (end: Option<usize>)
    ensures
        match end {
            Some(i) => header_end(request@) == Some(i as int) && i + 4 <= request@.len(),
            None => header_end(request@) is None,
        },
{
    let mut i: usize = 0;
    while i < request.len() && request.len() - i >= 4
        invariant
            i <= request@.len(),
            forall|j: int| 0 <= j < i ==> !headers_end_at(request@, j),
        decreases request@.len() - i,
    {
        if request[i] == 13 && request[i + 1] == 10 && request[i + 2] == 13 && request[i + 3]
            == 10 {
            proof {
                assert(is_header_end(request@, i as int));
                lemma_header_end_found(request@, i as int);
            }
            return Some(i);
        }
        i = i + 1;
    }
    assert forall|k: int| !is_header_end(request@, k) by {
        if is_header_end(request@, k) {
            assert(headers_end_at(request@, k));
        }
    }
    None
}

/// The text of bytes, with a replacement character for what is no UTF-8.
pub uninterp spec fn lossy_text(bytes: Seq<u8>) -> Seq<char>;

/// Calls the standard library's `String::from_utf8_lossy`.
///
/// The contract names the text; it says of it only that it is made from the bytes alone.
#[verifier::external_body]
fn decode_lossy(bytes: &Vec<u8>) -> (decoded: String)
    ensures
        decoded@ == lossy_text(bytes@),
{
    String::from_utf8_lossy(bytes).into_owned()
}

/// The length that a header line gives, if it is the header for that: a name, a colon, and a
/// number.
pub open spec fn length_in_line(line: Seq<char>) -> Option<nat> {
    match seqs::first_where(line, |c: char| c == ':') {
        Some(i) => if text::same_ignoring_ascii_case(
            text::trimmed(line.take(i)),
            "content-length"@,
        ) {
            text::unsigned_value(text::trimmed(line.skip(i + 1)), usize::MAX as nat)
        } else {
            None
        },
        None => None,
    }
}

/// The length that the headers give: that of the first line that gives one.
pub open spec fn length_in_headers(headers: Seq<char>) -> Option<nat> {
    let lines = text::lines_of(headers);
    match seqs::first_where(lines, |line: Seq<char>| length_in_line(line) is Some) {
        Some(i) => length_in_line(lines[i]),
        None => None,
    }
}

fn line_length(line: &str) -> (length: Option<usize>)
    ensures
        match length {
            Some(n) => length_in_line(line@) == Some(n as nat),
            None => length_in_line(line@) is None,
        },
{
    let chars = text::chars_of(line);
    let ghost pred = |c: char| c == ':';
    let mut i: usize = 0;
    while i < chars.len() && chars[i] != ':'
        invariant
            i <= chars@.len(),
            chars@ == line@,
            pred == (|c: char| c == ':'),
            forall|j: int| 0 <= j < i ==> !pred(#[trigger] chars@[j]),
        decreases chars@.len() - i,
    {
        i = i + 1;
    }
    proof {
        seqs::first_is_found(line@, pred, i as int);
    }
    if i == chars.len() {
        return None;
    }
    assert(line@.subrange(0, i as int) == line@.take(i as int));
    assert(line@.subrange(i + 1, line@.len() as int) == line@.skip(i + 1));
    let name = text::trim(line.substring_char(0, i));
    let value = text::trim(line.substring_char(i + 1, chars.len()));
    if text::eq_ignoring_ascii_case(name, "content-length") {
        match text::parse_unsigned(value, usize::MAX as u64) {
            Some(n) => Some(n as usize),
            None => None,
        }
    } else {
        None
    }
}

/// The length that the text of headers gives.
pub fn content_length_in(headers: &str) -> (length: Option<usize>)
    ensures
        match length {
            Some(n) => length_in_headers(headers@) == Some(n as nat),
            None => length_in_headers(headers@) is None,
        },
{
    let lines = text::lines(headers);
    let ghost all = lines.deep_view();
    let ghost pred = |line: Seq<char>| length_in_line(line) is Some;
    let mut i: usize = 0;
    while i < lines.len()
        invariant
            i <= lines@.len(),
            all == lines.deep_view(),
            all == text::lines_of(headers@),
            pred == (|line: Seq<char>| length_in_line(line) is Some),
            forall|j: int| 0 <= j < i ==> !pred(#[trigger] all[j]),
        decreases lines@.len() - i,
    {
        assert(all[i as int] == lines@[i as int]@);
        match line_length(lines[i].as_str()) {
            Some(n) => {
                proof {
                    seqs::first_is_found(all, pred, i as int);
                }
                return Some(n);
            },
            None => {},
        }
        i = i + 1;
    }
    proof {
        seqs::first_is_found(all, pred, i as int);
    }
    None
}

/// The length that the bytes of headers give.
pub fn parse_content_length(headers: &Vec<u8>) -> (length: Option<usize>)
    ensures
        match length {
            Some(n) => length_in_headers(lossy_text(headers@)) == Some(n as nat),
            None => length_in_headers(lossy_text(headers@)) is None,
        },
{
    content_length_in(decode_lossy(headers).as_str())
}

/// The length of the body that a request announces, if its headers have ended.
pub open spec fn announced_length(request: Seq<u8>) -> Option<nat> {
    match header_end(request) {
        Some(end) => length_in_headers(lossy_text(request.take(end))),
        None => None,
    }
}

/// The body of a request, if all of it has come.
pub open spec fn body_of(request: Seq<u8>) -> Option<Seq<u8>> {
    match (header_end(request), announced_length(request)) {
        (Some(end), Some(length)) => if end + 4 + length <= request.len() {
            Some(request.subrange(end + 4, end + 4 + length))
        } else {
            None
        },
        _ => None,
    }
}

/// Reads a request piece by piece.
#[derive(Debug)]
pub struct RequestReader {
    request: Vec<u8>,
    header_end: Option<usize>,
    content_length: Option<usize>,
}

/// What there is to do after some bytes have come.
#[derive(Debug)]
pub enum ReadStep {
    /// Wait for more bytes.
    More(RequestReader),
    /// Give the request up: it is too long.
    GiveUp,
    /// Stop: this is the body.
    Body(Vec<u8>),
}

/// Whether `step` is what there is to do after the bytes of `request` have come.
pub open spec fn is_step_after(step: ReadStep, request: Seq<u8>) -> bool {
    if request.len() > MAX_REQUEST_BYTES {
        step is GiveUp
    } else {
        match body_of(request) {
            Some(body) => step matches ReadStep::Body(b) && b@ == body,
            None => step matches ReadStep::More(reader) && reader.bytes() == request,
        }
    }
}

fn copy_range(bytes: &Vec<u8>, from: usize, to: usize) -> (copy: Vec<u8>)
    requires
        from <= to <= bytes@.len(),
    ensures
        copy@ == bytes@.subrange(from as int, to as int),
{
    let mut copy: Vec<u8> = Vec::new();
    let mut i: usize = from;
    while i < to
        invariant
            from <= i <= to <= bytes@.len(),
            copy@ == bytes@.subrange(from as int, i as int),
        decreases to - i,
    {
        copy.push(bytes[i]);
        i = i + 1;
        assert(copy@ =~= bytes@.subrange(from as int, i as int));
    }
    copy
}

impl RequestReader {
    #[verifier::type_invariant]
    spec fn well_formed(self) -> bool {
        &&& self.request@.len() <= MAX_REQUEST_BYTES
        &&& match self.header_end {
            Some(end) => header_end(self.request@) == Some(end as int) && end + 4
                <= self.request@.len(),
            None => header_end(self.request@) is None,
        }
        &&& match self.content_length {
            Some(n) => announced_length(self.request@) == Some(n as nat),
            None => announced_length(self.request@) is None,
        }
    }

    /// The bytes that have come.
    pub closed spec fn bytes(self) -> Seq<u8> {
        self.request@
    }

    /// A reader to which no bytes have come.
    pub fn new() -> (reader: RequestReader)
        ensures
            reader.bytes() == Seq::<u8>::empty(),
    {
        proof {
            assert forall|i: int| !is_header_end(Seq::<u8>::empty(), i) by {}
        }
        RequestReader { request: Vec::new(), header_end: None, content_length: None }
    }

    /// Takes more bytes, and says what there is to do.
    pub fn feed(self, chunk: Vec<u8>) -> (step: ReadStep)
        ensures
            is_step_after(step, self.bytes() + chunk@),
    {
        proof {
            use_type_invariant(&self);
        }
        let ghost before = self.request@;
        let ghost whole = before + chunk@;
        let known_end: Option<usize> = self.header_end;
        let known_length: Option<usize> = self.content_length;
        let mut request = self.request;
        let mut more = chunk;
        request.append(&mut more);
        assert(request@ =~= whole);
        if request.len() > MAX_REQUEST_BYTES {
            return ReadStep::GiveUp;
        }
        let mut end: Option<usize> = known_end;
        let mut length: Option<usize> = known_length;
        proof {
            lemma_header_end_stays(before, chunk@);
        }
        match known_end {
            Some(at) => {
                assert(whole.take(at as int) =~= before.take(at as int));
            },
            None => {
                end = find_header_end(&request);
                match end {
                    Some(at) => {
                        assert(request@.subrange(0, at as int) =~= request@.take(at as int));
                        length = parse_content_length(&copy_range(&request, 0, at));
                    },
                    None => {},
                }
            },
        }
        match (end, length) {
            (Some(at), Some(n)) => {
                let start: usize = at + 4;
                if n <= request.len() - start {
                    return ReadStep::Body(copy_range(&request, start, start + n));
                }
            },
            _ => {},
        }
        ReadStep::More(RequestReader { request, header_end: end, content_length: length })
    }
}

/// Once the body is complete, bytes that come after it do not change it.
pub proof fn complete_body_stays(request: Seq<u8>, more: Seq<u8>)
    requires
        body_of(request) is Some,
    ensures
        body_of(request + more) == body_of(request),
{
    let whole = request + more;
    lemma_header_end_stays(request, more);
    let end = header_end(request)->0;
    let i = choose|i: int| is_header_end(request, i);
    assert(is_header_end(request, i));
    assert(whole.take(end) =~= request.take(end));
    let length = announced_length(request)->0;
    assert(whole.subrange(end + 4, end + 4 + length) =~= request.subrange(
        end + 4,
        end + 4 + length,
    ));
}

/// The body of a request is what follows the blank line behind the headers, as long as they
/// announce, and there is none before all of it has come. Where the body ends does not depend on
/// what comes after it.
pub proof fn body_follows_the_blank_line(
    headers: Seq<u8>,
    begun: Seq<u8>,
    body: Seq<u8>,
    rest: Seq<u8>,
    n: int,
)
    requires
        begun == headers + seq![13u8, 10u8, 13u8, 10u8],
        forall|j: int|
            0 <= j < headers.len() ==> !(#[trigger] begun[j] == 13 && begun[j + 1] == 10 && begun[j
                + 2] == 13 && begun[j + 3] == 10),
        length_in_headers(lossy_text(headers)) == Some(body.len()),
        0 <= n < body.len() || body.len() == 0,
    ensures
        body_of(begun + body + rest) == Some(body),
        body.len() > 0 ==> body_of(begun + body.take(n)) is None,
{
    let end = headers.len() as int;
    assert forall|j: int| 0 <= j < end implies !headers_end_at(begun, j) by {}
    assert(begun[end] == 13 && begun[end + 1] == 10 && begun[end + 2] == 13 && begun[end + 3]
        == 10);
    assert(is_header_end(begun, end));
    lemma_header_end_found(begun, end);
    let whole = begun + body + rest;
    lemma_header_end_stays(begun, body + rest);
    assert(begun + (body + rest) =~= whole);
    assert(whole.take(end) =~= headers);
    assert(whole.subrange(end + 4, end + 4 + body.len()) =~= body);
    if body.len() > 0 {
        let part = begun + body.take(n);
        lemma_header_end_stays(begun, body.take(n));
        assert(part.take(end) =~= headers);
    }
}

/// Without the blank line behind the headers, and without a length, there is no body.
pub proof fn no_body_without_headers(request: Seq<u8>)
    requires
        forall|j: int|
            #![trigger request[j]]
            0 <= j && j + 4 <= request.len() ==> !(request[j] == 13 && request[j + 1] == 10
                && request[j + 2] == 13 && request[j + 3] == 10),
    ensures
        body_of(request) is None,
{
    assert forall|i: int| !is_header_end(request, i) by {
        if headers_end_at(request, i) {
            assert(request[i] == 13);
        }
    }
}

/// The line that announces the length is read whatever the case of its name, and whatever white
/// space stands around the name and the number.
pub proof fn announced_length_is_read(name: Seq<char>, value: Seq<char>, n: nat, spelled: Seq<char>)
    requires
        n <= usize::MAX,
        forall|i: int| 0 <= i < name.len() ==> #[trigger] name[i] != ':',
        text::trimmed(name) == spelled,
        spelled == "content-length"@ || spelled == "Content-Length"@ || spelled
            == "CONTENT-LENGTH"@,
        text::trimmed(value) == text::decimal(n),
    ensures
        length_in_line(name.push(':') + value) == Some(n),
{
    reveal_strlit("content-length");
    reveal_strlit("Content-Length");
    reveal_strlit("CONTENT-LENGTH");
    let line = name.push(':') + value;
    let at = name.len() as int;
    let pred = |c: char| c == ':';
    assert forall|j: int| 0 <= j < at implies !pred(#[trigger] line[j]) by {
        assert(line[j] == name[j]);
    }
    seqs::first_is_found(line, pred, at);
    assert(line.take(at) =~= name);
    assert(line.skip(at + 1) =~= value);
    assert(text::same_ignoring_ascii_case(spelled, "content-length"@));
    text::decimal_reads_back(n);
    assert(text::is_digit(text::decimal(n)[0]));
}

/// A line that is not about the length announces none.
pub proof fn other_lines_announce_nothing(name: Seq<char>, value: Seq<char>)
    requires
        forall|i: int| 0 <= i < name.len() ==> #[trigger] name[i] != ':',
        text::trimmed(name).len() != 14,
    ensures
        length_in_line(name.push(':') + value) is None,
        length_in_line(name) is None,
{
    reveal_strlit("content-length");
    let line = name.push(':') + value;
    let at = name.len() as int;
    let pred = |c: char| c == ':';
    assert forall|j: int| 0 <= j < at implies !pred(#[trigger] line[j]) by {
        assert(line[j] == name[j]);
    }
    seqs::first_is_found(line, pred, at);
    seqs::first_is_found(name, pred, at);
    assert(line.take(at) =~= name);
}

/// Where several lines announce a length, the first of them counts.
pub proof fn first_announced_length_counts(headers: Seq<char>, k: int)
    requires
        0 <= k < text::lines_of(headers).len(),
        length_in_line(text::lines_of(headers)[k]) is Some,
        forall|j: int|
            0 <= j < k ==> length_in_line(#[trigger] text::lines_of(headers)[j]) is None,
    ensures
        length_in_headers(headers) == length_in_line(text::lines_of(headers)[k]),
{
    seqs::first_is_found(
        text::lines_of(headers),
        |line: Seq<char>| length_in_line(line) is Some,
        k,
    );
}

/// However the bytes of a request are cut into pieces, what there is to do after all of them is
/// the same: no byte is lost on the way. Up to 131072 bytes a request is not given up.
pub proof fn pieces_of_a_request_add_up(
    first: ReadStep,
    begun: Seq<u8>,
    next: ReadStep,
    more: Seq<u8>,
)
    requires
        is_step_after(first, begun),
        first is More,
    ensures
        is_step_after(next, first->More_0.bytes() + more) <==> is_step_after(next, begun + more),
        is_step_after(next, begun + more) ==> {
            &&& next is GiveUp <==> begun.len() + more.len() > 131072
            &&& next matches ReadStep::Body(b) ==> body_of(begun + more) == Some(b@)
            &&& next matches ReadStep::More(reader) ==> reader.bytes() == begun + more && body_of(
                begun + more,
            ) is None
        },
{
}

} // verus!
