use sniff_proxy::header::{classify, read_header, SniffError, Verdict};
use sniff_proxy::search::{find_first, fold_byte, fold_bytes};
use sniff_proxy::sniffer::{Config, Event, RoutingDecision, Sniffer, Step, CHUNK_SIZE};
use sniff_proxy::text::{is_text, trimmed_text};

fn config(header: &str, ceiling: usize) -> Config {
    Config {
        default_addr: "127.0.0.1:3001".to_string(),
        header: header.to_string(),
        lookahead_size: ceiling,
        timeout_ms: 10000,
    }
}

fn decided(step: Step) -> RoutingDecision {
    match step {
        Step::Decided(d) => d,
        Step::Continue(_) => panic!("still waiting"),
        Step::Failed(e) => panic!("failed: {:?}", e),
    }
}

fn waiting(step: Step) -> Sniffer {
    match step {
        Step::Continue(s) => s,
        Step::Decided(d) => panic!("decided: {:?}", d),
        Step::Failed(e) => panic!("failed: {:?}", e),
    }
}

#[test]
fn default_configuration() {
    let c = Config::default();
    assert_eq!(c.default_addr, "127.0.0.1:3001");
    assert_eq!(c.header, "tcp_forward");
    assert_eq!(c.lookahead_size, 16000);
    assert_eq!(c.timeout_ms, 10000);
    assert_eq!(CHUNK_SIZE, 1024);
}

#[test]
fn header_names_destination() {
    let input = b"GET / HTTP/1.1\r\ntcp_forward: 10.0.0.5:9000\r\n\r\n".to_vec();
    let d = decided(Sniffer::new(Config::default()).on_event(Event::Data(input.clone())));
    assert_eq!(d.destination, "10.0.0.5:9000");
    assert_eq!(d.consumed, input);
    assert!(d.explicit);
}

#[test]
fn deadline_after_some_bytes_routes_to_default() {
    let s = waiting(Sniffer::new(Config::default()).on_event(Event::Data(b"abc".to_vec())));
    assert_eq!(s.buffered(), b"abc");
    let d = decided(s.on_event(Event::Deadline));
    assert_eq!(d.destination, "127.0.0.1:3001");
    assert_eq!(d.consumed, b"abc".to_vec());
    assert!(!d.explicit);
}

#[test]
fn deadline_without_bytes_routes_to_default() {
    let d = decided(Sniffer::new(Config::default()).on_event(Event::Deadline));
    assert_eq!(d.destination, "127.0.0.1:3001");
    assert_eq!(d.consumed, Vec::<u8>::new());
    assert!(!d.explicit);
}

#[test]
fn ceiling_exceeded_routes_to_default() {
    let s = waiting(Sniffer::new(config("tcp_forward", 10)).on_event(Event::Data(vec![b'a'; 10])));
    assert_eq!(s.buffered().len(), 10);
    let d = decided(s.on_event(Event::Data(vec![b'b'; 7])));
    assert_eq!(d.destination, "127.0.0.1:3001");
    let mut all = vec![b'a'; 10];
    all.extend_from_slice(&[b'b'; 7]);
    assert_eq!(d.consumed, all);
    assert!(d.consumed.len() <= 10 + 7);
    assert!(!d.explicit);
}

#[test]
fn buffer_at_ceiling_still_waits() {
    let step = Sniffer::new(config("tcp_forward", 3)).on_event(Event::Data(b"abc".to_vec()));
    assert_eq!(waiting(step).buffered(), b"abc");
}

#[test]
fn marker_split_across_reads_is_found() {
    let s = waiting(
        Sniffer::new(Config::default()).on_event(Event::Data(b"tcp_forward: a.b:1\r\n".to_vec())),
    );
    let d = decided(s.on_event(Event::Data(b"\r\n".to_vec())));
    assert_eq!(d.destination, "a.b:1");
    assert_eq!(d.consumed, b"tcp_forward: a.b:1\r\n\r\n".to_vec());
}

#[test]
fn marker_split_byte_by_byte_is_found() {
    let input = b"x\r\ntcp_forward:h:2\r\n\r\n";
    let mut sniffer = Sniffer::new(Config::default());
    for (i, b) in input.iter().enumerate() {
        let step = sniffer.on_event(Event::Data(vec![*b]));
        if i + 1 < input.len() {
            sniffer = waiting(step);
        } else {
            let d = decided(step);
            assert_eq!(d.destination, "h:2");
            assert_eq!(d.consumed, input.to_vec());
            return;
        }
    }
    panic!("no decision");
}

#[test]
fn header_name_matches_in_any_case() {
    let input = b"TCP_Forward:  Host.Example:80 \r\n\r\n".to_vec();
    let d = decided(Sniffer::new(config("tcp_FORWARD", 16000)).on_event(Event::Data(input.clone())));
    assert_eq!(d.destination, "Host.Example:80");
    assert_eq!(d.consumed, input);
    assert!(d.explicit);
}

#[test]
fn first_header_wins() {
    let input = b"tcp_forward: one:1\r\ntcp_forward: two:2\r\n\r\n";
    assert_eq!(classify(input, b"tcp_forward", 16000), Verdict::Explicit("one:1".to_string()));
}

#[test]
fn header_behind_the_marker_is_not_read() {
    let input = b"GET /\r\n\r\ntcp_forward: late:1\r\n\r\n";
    assert_eq!(classify(input, b"tcp_forward", 16000), Verdict::Fallback);
}

#[test]
fn marker_without_header_routes_to_default() {
    let input = b"GET / HTTP/1.1\r\nHost: x\r\n\r\nbody".to_vec();
    let d = decided(Sniffer::new(Config::default()).on_event(Event::Data(input.clone())));
    assert_eq!(d.destination, "127.0.0.1:3001");
    assert_eq!(d.consumed, input);
    assert!(!d.explicit);
}

#[test]
fn bytes_behind_the_marker_do_not_change_the_verdict() {
    let short = b"tcp_forward: h:1\r\n\r\n".to_vec();
    let mut long = short.clone();
    long.extend_from_slice(b"payload\r\n\r\ntcp_forward: other:2\r\n\r\n");
    assert_eq!(classify(&short, b"tcp_forward", 4), classify(&long, b"tcp_forward", 4));
    assert_eq!(classify(&long, b"tcp_forward", 4), Verdict::Explicit("h:1".to_string()));
}

#[test]
fn same_input_same_decision() {
    let input = b"a\r\ntcp_forward: h:1\r\n\r\n".to_vec();
    let one = decided(Sniffer::new(Config::default()).on_event(Event::Data(input.clone())));
    let two = decided(Sniffer::new(Config::default()).on_event(Event::Data(input)));
    assert_eq!(one, two);
}

#[test]
fn invalid_text_before_marker_fails() {
    let input = vec![b'a', 0xff, b'\r', b'\n', b'\r', b'\n'];
    match Sniffer::new(Config::default()).on_event(Event::Data(input)) {
        Step::Failed(e) => assert_eq!(e, SniffError::InvalidText),
        _ => panic!("expected a failure"),
    }
}

#[test]
fn invalid_text_behind_marker_is_not_looked_at() {
    let mut input = b"tcp_forward: h:1\r\n\r\n".to_vec();
    input.push(0xff);
    assert_eq!(classify(&input, b"tcp_forward", 16000), Verdict::Explicit("h:1".to_string()));
}

#[test]
fn value_without_line_end_fails() {
    let input = b"tcp_forward: 10.0.0.5:9000 and no end";
    let at = input.len() - 4;
    assert_eq!(read_header(input, b"tcp_forward", at), Verdict::Failed(SniffError::UnterminatedValue));
}

#[test]
fn value_ends_at_the_marker_itself() {
    let input = b"tcp_forward:h:1\r\n\r\n";
    assert_eq!(read_header(input, b"tcp_forward", 15), Verdict::Explicit("h:1".to_string()));
}

#[test]
fn empty_value_is_an_empty_destination() {
    assert_eq!(classify(b"tcp_forward:\r\n\r\n", b"tcp_forward", 16000), Verdict::Explicit(String::new()));
}

#[test]
fn read_that_would_block_changes_nothing() {
    let s = waiting(Sniffer::new(Config::default()).on_event(Event::Data(b"ab".to_vec())));
    let s = waiting(s.on_event(Event::WouldBlock));
    assert_eq!(s.buffered(), b"ab");
}

#[test]
fn empty_read_changes_nothing() {
    let s = waiting(Sniffer::new(Config::default()).on_event(Event::Data(b"ab".to_vec())));
    let s = waiting(s.on_event(Event::Data(Vec::new())));
    assert_eq!(s.buffered(), b"ab");
}

#[test]
fn failed_read_fails_the_connection() {
    match Sniffer::new(Config::default()).on_event(Event::ReadFailed) {
        Step::Failed(e) => assert_eq!(e, SniffError::ReadFailed),
        _ => panic!("expected a failure"),
    }
}

#[test]
fn pending_and_fallback_without_marker() {
    assert_eq!(classify(b"abcd", b"tcp_forward", 4), Verdict::Pending);
    assert_eq!(classify(b"abcde", b"tcp_forward", 4), Verdict::Fallback);
    assert_eq!(classify(b"", b"tcp_forward", 0), Verdict::Pending);
}

#[test]
fn search_finds_the_first_occurrence() {
    assert_eq!(find_first(b"foo bar baz bar", b"bar"), Some(4));
    assert_eq!(find_first(b"foo bar baz", b"quux"), None);
    assert_eq!(find_first(b"a\r\n\r\n\r\n", b"\r\n\r\n"), Some(1));
    assert_eq!(find_first(b"abc", b""), Some(0));
    assert_eq!(find_first(b"ab", b"abc"), None);
}

#[test]
fn folding_lowers_ascii_letters_only() {
    assert_eq!(fold_byte(b'A'), b'a');
    assert_eq!(fold_byte(b'Z'), b'z');
    assert_eq!(fold_byte(b'@'), b'@');
    assert_eq!(fold_byte(b'['), b'[');
    assert_eq!(fold_byte(b'a'), b'a');
    assert_eq!(fold_byte(0xc9), 0xc9);
    assert_eq!(fold_bytes(b"TCP_Forward: X\r\n"), b"tcp_forward: x\r\n".to_vec());
    assert_eq!(fold_bytes(b""), Vec::<u8>::new());
}

#[test]
fn text_is_decoded_and_trimmed() {
    assert_eq!(trimmed_text(b" \t10.0.0.5:9000 \t"), Some("10.0.0.5:9000".to_string()));
    assert_eq!(trimmed_text(b"a b"), Some("a b".to_string()));
    assert_eq!(trimmed_text(b"   "), Some(String::new()));
    assert_eq!(trimmed_text("\u{a0}h\u{e9}:1\u{2003}".as_bytes()), Some("h\u{e9}:1".to_string()));
    assert_eq!(trimmed_text(&[b'a', 0x80]), None);
    assert!(is_text("h\u{e9}".as_bytes()));
    assert!(is_text(b""));
    assert!(!is_text(&[0xc3]));
}

#[test]
fn non_ascii_value_keeps_its_bytes() {
    let input = "tcp_forward: H\u{c9}.example:1\r\n\r\n".as_bytes();
    assert_eq!(classify(input, b"TCP_FORWARD", 16000), Verdict::Explicit("H\u{c9}.example:1".to_string()));
}

#[test]
fn long_value_is_ended_by_the_marker() {
    let mut input = b"tcp_forward: ".to_vec();
    input.extend_from_slice(&[b'a'; 2000]);
    input.extend_from_slice(b"\r\n\r\n");
    let d = decided(Sniffer::new(Config::default()).on_event(Event::Data(input.clone())));
    assert_eq!(d.destination, "a".repeat(2000));
    assert_eq!(d.consumed, input);
}

#[test]
fn cut_does_not_change_the_named_destination() {
    let stream = b"GET / HTTP/1.1\r\ntcp_forward: 10.0.0.5:9000\r\n\r\n";
    for cut in 0..stream.len() {
        let first = Sniffer::new(Config::default()).on_event(Event::Data(stream[..cut].to_vec()));
        let d = decided(waiting(first).on_event(Event::Data(stream[cut..].to_vec())));
        assert_eq!(d.destination, "10.0.0.5:9000");
        assert_eq!(d.consumed, stream.to_vec());
    }
}
