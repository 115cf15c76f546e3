use quiche_recovery::client::{
    self, bind_address, is_last, request_headers, requested_file, ClientAction, ClientEvent, Frame,
};
use quiche_recovery::mem_request::MemRequest;
use quiche_recovery::saved_params::{parse_number, split_fields};
use quiche_recovery::server::{self, on_header, HeaderStep, ServerAction, ServerEvent};
use quiche_recovery::text::is_text;

#[test]
fn sizes_with_units() {
    assert_eq!(MemRequest::from_str("20"), Ok(MemRequest(20)));
    assert_eq!(MemRequest::from_str("20B"), Ok(MemRequest(20)));
    assert_eq!(MemRequest::from_str("20b"), Ok(MemRequest(20)));
    assert_eq!(MemRequest::from_str("20kB"), Ok(MemRequest(20_000)));
    assert_eq!(MemRequest::from_str("20KB"), Ok(MemRequest(20_000)));
    assert_eq!(MemRequest::from_str("3mb"), Ok(MemRequest(3_000_000)));
    assert_eq!(MemRequest::from_str("1Gb"), Ok(MemRequest(1_000_000_000)));
    assert_eq!(MemRequest::from_str("0GB"), Ok(MemRequest(0)));
}

#[test]
fn the_first_number_counts() {
    assert_eq!(MemRequest::from_str("/20kB"), Ok(MemRequest(20_000)));
    assert_eq!(MemRequest::from_str("file-12MB.bin"), Ok(MemRequest(12_000_000)));
    assert_eq!(MemRequest::from_str("7 kB"), Ok(MemRequest(7)));
    assert_eq!(MemRequest::from_str("7/8GB"), Ok(MemRequest(7)));
    assert_eq!(MemRequest::from_str("-5"), Ok(MemRequest(5)));
    assert_eq!(MemRequest::from_str("é9é"), Ok(MemRequest(9)));
    assert_eq!(MemRequest::from_str("٣4"), Ok(MemRequest(4)));
}

#[test]
fn no_size() {
    assert_eq!(MemRequest::from_str(""), Err(()));
    assert_eq!(MemRequest::from_str("kB"), Err(()));
    assert_eq!(MemRequest::from_str("5TB"), Err(()));
    assert_eq!(MemRequest::from_str("5kBx"), Err(()));
    assert_eq!(MemRequest::from_str("5kiB"), Err(()));
    assert_eq!(MemRequest::from_str("5c"), Err(()));
    assert_eq!(MemRequest::from_str("99999999999999999999"), Err(()));
}

#[test]
fn sizes_beyond_a_number() {
    assert_eq!(
        MemRequest::from_any("18446744073709551615"),
        Some(Ok(MemRequest(u64::MAX)))
    );
    assert_eq!(MemRequest::from_any("18446744073709551615kB"), None);
    assert_eq!(
        MemRequest::from_any("18446744073GB"),
        Some(Ok(MemRequest(18_446_744_073_000_000_000)))
    );
    assert_eq!(MemRequest::from_any("18446744074GB"), None);
    assert_eq!(MemRequest::from_any("18446744073709551616kB"), Some(Err(())));
    assert_eq!(MemRequest::from_any("nothing"), Some(Err(())));
    assert_eq!(MemRequest::from_any("5xB"), Some(Err(())));
}

#[test]
fn sizes_from_parts() {
    assert_eq!(MemRequest::from_parts(b"15", b"Mb"), Ok(MemRequest(15_000_000)));
    assert_eq!(MemRequest::from_parts(b"15", b""), Ok(MemRequest(15)));
    assert_eq!(MemRequest::from_parts(b"", b""), Err(()));
    assert_eq!(MemRequest::from_parts(b"15", b"q"), Err(()));
}

#[test]
fn numbers_as_std_reads_them() {
    for text in [
        "", "+", "-", "0", "+0", "007", "12", "+12", "-1", "1 ", " 1", "1a", "++1",
        "18446744073709551615", "18446744073709551616", "+18446744073709551615", "99999999999999999999999",
    ] {
        assert_eq!(parse_number(text.as_bytes(), u64::MAX), text.parse::<u64>().ok());
    }
    assert_eq!(parse_number(b"255", 255), Some(255));
    assert_eq!(parse_number(b"256", 255), None);
}

#[test]
fn fields_as_std_splits_them() {
    for text in ["", ",", "a", "a,b", ",a,", "a,,b", "rtt,1,cwnd,2,time,3\n"] {
        let expected: Vec<Vec<u8>> = text.split(',').map(|f| f.as_bytes().to_vec()).collect();
        assert_eq!(split_fields(text.as_bytes()), expected);
    }
}

#[test]
fn paths_are_served() {
    match on_header(b":path", b"20kB") {
        HeaderStep::Serve { path, size } => {
            assert_eq!(path, "20kB");
            assert_eq!(size, 20_000);
        }
        step => panic!("unexpected {:?}", step),
    }
    match on_header(b":path", "/é".as_bytes()) {
        HeaderStep::CreateAndFail { path } => assert_eq!(path, "/é"),
        step => panic!("unexpected {:?}", step),
    }
    assert!(matches!(on_header(b":path", b"5\xff"), HeaderStep::Fail));
    assert!(matches!(on_header(b":path", b"18446744074GB"), HeaderStep::Fail));
    assert!(matches!(server::on_path(None), HeaderStep::Fail));
}

#[test]
fn other_headers_are_checked_or_passed_over() {
    assert!(matches!(on_header(b":method", b"GET"), HeaderStep::Skip));
    assert!(matches!(on_header(b":method", b"POST"), HeaderStep::Fail));
    assert!(matches!(on_header(b":method", b"\xff"), HeaderStep::Fail));
    assert!(matches!(on_header(b":scheme", b"http"), HeaderStep::Skip));
    assert!(matches!(on_header(b":scheme", b"https"), HeaderStep::Fail));
    assert!(matches!(on_header(b":authority", b"\xff"), HeaderStep::Skip));
    assert!(matches!(on_header(b"user-agent", b"x"), HeaderStep::Skip));
    match on_header(b"accept", b"x") {
        HeaderStep::Unsupported { name } => assert_eq!(name, "accept"),
        step => panic!("unexpected {:?}", step),
    }
    assert!(matches!(on_header(b"\xc3", b"x"), HeaderStep::Fail));
}

#[test]
fn answers_are_whole() {
    let body = server::answer_body(Some(vec![1, 2, 3]));
    assert_eq!(body.bytes, vec![1, 2, 3]);
    assert!(body.fin);
    let body = server::answer_body(None);
    assert_eq!(body.bytes, b"Not Found!\r\n");
    assert!(body.fin);
    assert_eq!(server::LAST_BYTE, 0);
}

#[test]
fn upper_case_asks_for_as_much() {
    for text in ["/file-12mb.bin", "20kB", "é5gbz", "7b/8GB", "none"] {
        assert_eq!(
            MemRequest::from_str(&text.to_ascii_uppercase()),
            MemRequest::from_str(text)
        );
    }
}

#[test]
fn server_events() {
    assert_eq!(server::on_event(ServerEvent::IncomingHeaders), ServerAction::Nothing);
    assert_eq!(
        server::on_event(ServerEvent::Headers),
        ServerAction::Answer { status: 200, urgency: 0, incremental: true }
    );
    assert_eq!(server::on_event(ServerEvent::Other), ServerAction::Log);
}

#[test]
fn client_binds_to_any_address() {
    assert_eq!(bind_address(true, 0), "0.0.0.0:0");
    assert_eq!(bind_address(true, 65_535), "0.0.0.0:65535");
    assert_eq!(bind_address(false, 4433), "[::]:4433");
    for port in [7u16, 10, 99, 100, 1089, 23_456, 60_708] {
        assert_eq!(bind_address(true, port), format!("0.0.0.0:{}", port));
    }
}

#[test]
fn client_asks_for_the_file() {
    assert_eq!(requested_file("/20MB"), "20MB");
    assert_eq!(requested_file("//20MB"), "/20MB");
    assert_eq!(requested_file("20MB"), "20MB");
    assert_eq!(requested_file("/"), "");
    assert_eq!(requested_file("é/"), "é/");
    let headers = request_headers("20MB");
    assert_eq!(headers.len(), 2);
    assert_eq!(headers[0].name, b":method");
    assert_eq!(headers[0].value, b"GET");
    assert_eq!(headers[1].name, b":path");
    assert_eq!(headers[1].value, b"20MB");
    // The server takes them as they were meant.
    assert!(matches!(on_header(&headers[0].name, &headers[0].value), HeaderStep::Skip));
    assert!(matches!(
        on_header(&headers[1].name, &headers[1].value),
        HeaderStep::Serve { size: 20_000_000, .. }
    ));
}

#[test]
fn client_events() {
    assert_eq!(client::on_event(ClientEvent::IncomingHeaders), ClientAction::ReadBody);
    assert_eq!(
        client::on_event(ClientEvent::BodyBytesReceived { fin: true }),
        ClientAction::Finish
    );
    assert_eq!(
        client::on_event(ClientEvent::BodyBytesReceived { fin: false }),
        ClientAction::Nothing
    );
    assert_eq!(client::on_event(ClientEvent::NewOutboundRequest), ClientAction::Log);
    assert_eq!(client::on_event(ClientEvent::Other), ClientAction::Nothing);
    assert!(is_last(Frame::Body { fin: true }));
    assert!(!is_last(Frame::Body { fin: false }));
    assert!(!is_last(Frame::Datagram));
}

#[test]
fn bytes_of_a_text() {
    assert!(is_text("é".as_bytes(), "é"));
    assert!(!is_text(b"a", "ab"));
    assert!(!is_text(b"ab", "ac"));
    assert!(is_text(b"", ""));
}
