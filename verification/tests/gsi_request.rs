use alarm_at_game_end::gsi_request::{
    content_length_in, find_header_end, parse_content_length, ReadStep, RequestReader,
    MAX_REQUEST_BYTES,
};

/// Feeds the chunks one after the other and gives back the last step.
fn read(chunks: &[&[u8]]) -> ReadStep {
    let mut step = ReadStep::More(RequestReader::new());

    for chunk in chunks {
        step = match step {
            ReadStep::More(reader) => reader.feed(chunk.to_vec()),
            other => other,
        };
    }

    step
}

fn body(step: ReadStep) -> Option<Vec<u8>> {
    match step {
        ReadStep::Body(body) => Some(body),
        _ => None,
    }
}

#[test]
fn request_in_one_chunk() {
    assert_eq!(
        body(read(&[
            b"POST /cs2 HTTP/1.1\r\nHost: x\r\nContent-Length: 4\r\n\r\nbodyand more"
        ])),
        Some(b"body".to_vec())
    );
}

#[test]
fn request_in_many_chunks() {
    let request: &[u8] = b"POST / HTTP/1.1\r\ncontent-LENGTH:  5 \r\n\r\nhello";

    for cut in 0..request.len() {
        assert_eq!(
            body(read(&[&request[..cut], &request[cut..]])),
            Some(b"hello".to_vec()),
            "{cut}"
        );
    }

    let bytes: Vec<&[u8]> = request.chunks(1).collect();
    assert_eq!(body(read(&bytes)), Some(b"hello".to_vec()));
    assert!(body(read(&bytes[..bytes.len() - 1])).is_none());
}

#[test]
fn request_without_a_length_waits() {
    assert!(matches!(
        read(&[b"GET / HTTP/1.1\r\nHost: x\r\n\r\n"]),
        ReadStep::More(_)
    ));
    assert!(matches!(
        read(&[b"GET / HTTP/1.1\r\nContent-Length: x\r\n\r\nabc"]),
        ReadStep::More(_)
    ));
}

#[test]
fn length_nought_gives_an_empty_body() {
    assert_eq!(
        body(read(&[b"GET / HTTP/1.1\r\nContent-Length: 0\r\n\r\n"])),
        Some(vec![])
    );
}

#[test]
fn large_request_is_given_up() {
    let full = vec![b'x'; MAX_REQUEST_BYTES];

    assert_eq!(MAX_REQUEST_BYTES, 128 * 1024);
    assert!(matches!(read(&[&full]), ReadStep::More(_)));
    assert!(matches!(read(&[&full, b"y"]), ReadStep::GiveUp));
}

#[test]
fn huge_length_waits() {
    assert!(matches!(
        read(&[b"GET / HTTP/1.1\r\nContent-Length: 18446744073709551615\r\n\r\nabc"]),
        ReadStep::More(_)
    ));
}

#[test]
fn end_of_headers() {
    assert_eq!(find_header_end(&b"ab\r\n\r\ncd\r\n\r\n".to_vec()), Some(2));
    assert_eq!(find_header_end(&b"\r\n\r\n".to_vec()), Some(0));
    assert_eq!(find_header_end(&b"\r\n\r".to_vec()), None);
    assert_eq!(find_header_end(&vec![]), None);
}

#[test]
fn length_among_headers() {
    assert_eq!(content_length_in("Host: x\r\nContent-Length: 12"), Some(12));
    assert_eq!(
        content_length_in("content-length: 1\nContent-Length: 2"),
        Some(1)
    );
    assert_eq!(
        content_length_in("Content-Length: bad\n CONTENT-LENGTH : +7 "),
        Some(7)
    );
    assert_eq!(content_length_in("Content-Length 5"), None);
    assert_eq!(content_length_in("X-Content-Length: 5"), None);
    assert_eq!(content_length_in(""), None);
    assert_eq!(
        parse_content_length(&b"X: \xff\r\nContent-Length: 3".to_vec()),
        Some(3)
    );
    assert_eq!(
        parse_content_length(&b"\xffContent-Length: 3".to_vec()),
        None
    );
}
