use csvfmt::convention::{
    build_output_convention, input_convention_of, EscapeMode, InputConvention, OutputConvention,
    QuoteStyle, Terminator,
};
use csvfmt::emit::write_record;
use csvfmt::scan::{parse_records, ParseError};
use csvfmt::transcode::transcode;

fn default_out() -> OutputConvention {
    build_output_convention(b',', false, false, false, None, b'"')
}

#[test]
fn ascii_mode() {
    let c = build_output_convention(b',', false, true, false, None, b'"');
    let rc = InputConvention::standard(b',');
    let out = transcode(&b"a,b,c\n".to_vec(), &rc, &c).unwrap();
    assert_eq!(out, b"a\x1fb\x1fc\x1e".to_vec());
}

#[test]
fn quote_always() {
    let c = build_output_convention(b',', false, false, true, None, b'"');
    let rc = InputConvention::standard(b',');
    let out = transcode(&b"x,y".to_vec(), &rc, &c).unwrap();
    assert_eq!(out, b"\"x\",\"y\"\n".to_vec());
}

#[test]
fn crlf_terminator() {
    let c = build_output_convention(b',', true, false, false, None, b'"');
    let rc = InputConvention::standard(b',');
    let out = transcode(&b"a,b\n".to_vec(), &rc, &c).unwrap();
    assert_eq!(out, b"a,b\r\n".to_vec());
}

#[test]
fn escape_mode_suppresses_doubling() {
    let c = build_output_convention(b',', false, false, false, Some(b'\\'), b'"');
    let rc = InputConvention::standard(b',');
    let input = b"\"he said \"\"hi\"\"\"\n".to_vec();
    let out = transcode(&input, &rc, &c).unwrap();
    assert_eq!(out, b"\"he said \\\"hi\\\"\"\n".to_vec());
    // With the embedded quote away from the field's edges, no doubled
    // quote appears anywhere in the output.
    let input2 = b"\"he said \"\"hi\"\" then\"\n".to_vec();
    let out2 = transcode(&input2, &rc, &c).unwrap();
    assert_eq!(out2, b"\"he said \\\"hi\\\" then\"\n".to_vec());
    let has_doubled = out2.windows(2).any(|w| w == b"\"\"");
    assert!(!has_doubled);
}

#[test]
fn empty_input() {
    let c = default_out();
    let rc = InputConvention::standard(b',');
    let out = transcode(&Vec::new(), &rc, &c).unwrap();
    assert!(out.is_empty());
}

#[test]
fn round_trip_preserves_content() {
    let rc = InputConvention::standard(b',');
    let input = b"a,\"b,c\",\"d\"\"e\"\n\"line\nbreak\",f\n".to_vec();
    let parsed_in = parse_records(&input, &rc).unwrap();
    let c = build_output_convention(b';', false, false, false, None, b'"');
    let out = transcode(&input, &rc, &c).unwrap();
    let parsed_out = parse_records(&out, &input_convention_of(&c)).unwrap();
    assert_eq!(parsed_in, parsed_out);
    assert_eq!(parsed_in[0][1], b"b,c".to_vec());
    assert_eq!(parsed_in[0][2], b"d\"e".to_vec());
    assert_eq!(parsed_in[1][0], b"line\nbreak".to_vec());
}

#[test]
fn count_preservation() {
    let rc = InputConvention::standard(b',');
    let input = b"a,b,c\nd,e\nf\n".to_vec();
    let parsed_in = parse_records(&input, &rc).unwrap();
    let c = build_output_convention(b'\t', false, false, true, None, b'"');
    let out = transcode(&input, &rc, &c).unwrap();
    let parsed_out = parse_records(&out, &input_convention_of(&c)).unwrap();
    assert_eq!(parsed_out.len(), parsed_in.len());
    for (rin, rout) in parsed_in.iter().zip(parsed_out.iter()) {
        assert_eq!(rin.len(), rout.len());
    }
}

#[test]
fn idempotent_under_identical_conventions() {
    let c = default_out();
    let rc = input_convention_of(&c);
    let input = b"\"a\",b\r\nc,\"d\"\"e\"\n".to_vec();
    let once = transcode(&input, &rc, &c).unwrap();
    let twice = transcode(&once, &rc, &c).unwrap();
    assert_eq!(once, twice);
    assert_eq!(once, b"a,b\nc,\"d\"\"e\"\n".to_vec());
}

#[test]
fn unterminated_quote_is_an_error() {
    let c = default_out();
    let rc = InputConvention::standard(b',');
    let r = transcode(&b"\"ab".to_vec(), &rc, &c);
    assert_eq!(r, Err(ParseError::UnterminatedQuote));
}

#[test]
fn garbage_after_closed_quote_is_an_error() {
    let c = default_out();
    let rc = InputConvention::standard(b',');
    let r = transcode(&b"\"ab\"x".to_vec(), &rc, &c);
    assert_eq!(r, Err(ParseError::InvalidAfterQuote));
}

#[test]
fn ascii_overrides_crlf() {
    let c = build_output_convention(b',', true, true, false, None, b'"');
    assert_eq!(c.delimiter, 0x1f);
    assert!(matches!(c.terminator, Terminator::Byte(0x1e)));
    assert!(matches!(c.style, QuoteStyle::Minimal));
}

#[test]
fn custom_quote_character() {
    let c = build_output_convention(b',', false, false, false, None, b'\'');
    let rc = InputConvention::standard(b',');
    let out = transcode(&b"a'b,c\n".to_vec(), &rc, &c).unwrap();
    assert_eq!(out, b"'a''b',c\n".to_vec());
}

#[test]
fn ascii_mode_quotes_embedded_separator() {
    let c = build_output_convention(b',', false, true, false, None, b'"');
    let rc = InputConvention::standard(b',');
    let out = transcode(&b"a\x1fb\n".to_vec(), &rc, &c).unwrap();
    assert_eq!(out, b"\"a\x1fb\"\x1e".to_vec());
}

#[test]
fn crlf_input_is_one_terminator() {
    let c = default_out();
    let rc = InputConvention::standard(b',');
    let out = transcode(&b"a,b\r\nc\n".to_vec(), &rc, &c).unwrap();
    assert_eq!(out, b"a,b\nc\n".to_vec());
}

#[test]
fn quote_mid_field_is_literal() {
    let c = default_out();
    let rc = InputConvention::standard(b',');
    let out = transcode(&b"ab\"cd\n".to_vec(), &rc, &c).unwrap();
    assert_eq!(out, b"\"ab\"\"cd\"\n".to_vec());
}

#[test]
fn single_empty_field_record() {
    let rc = InputConvention::standard(b',');
    let parsed = parse_records(&b"\n".to_vec(), &rc).unwrap();
    assert_eq!(parsed, vec![vec![Vec::new()]]);
    let c = default_out();
    let mut out = Vec::new();
    write_record(&mut out, &vec![Vec::new()], &c);
    assert_eq!(out, b"\n".to_vec());
}

#[test]
fn trailing_field_without_terminator() {
    let rc = InputConvention::standard(b',');
    let parsed = parse_records(&b"a,b".to_vec(), &rc).unwrap();
    assert_eq!(parsed, vec![vec![b"a".to_vec(), b"b".to_vec()]]);
}

#[test]
fn write_record_quote_always() {
    let c = build_output_convention(b',', false, false, true, None, b'"');
    let mut out = Vec::new();
    write_record(&mut out, &vec![b"x".to_vec(), b"y".to_vec()], &c);
    assert_eq!(out, b"\"x\",\"y\"\n".to_vec());
}

#[test]
fn custom_input_delimiter() {
    let rc = InputConvention::standard(b';');
    let c = default_out();
    let out = transcode(&b"a;b\n".to_vec(), &rc, &c).unwrap();
    assert_eq!(out, b"a,b\n".to_vec());
}

#[test]
fn escape_byte_in_content_is_escaped() {
    let c = build_output_convention(b',', false, false, false, Some(b'\\'), b'"');
    let rc = InputConvention::standard(b',');
    let out = transcode(&b"a\\b\n".to_vec(), &rc, &c).unwrap();
    assert_eq!(out, b"\"a\\\\b\"\n".to_vec());
    let back = parse_records(&out, &input_convention_of(&c)).unwrap();
    assert_eq!(back, vec![vec![b"a\\b".to_vec()]]);
}

#[test]
fn ascii_multi_record() {
    let c = build_output_convention(b',', false, true, false, None, b'"');
    let rc = InputConvention::standard(b',');
    let out = transcode(&b"a,b\nc,d\n".to_vec(), &rc, &c).unwrap();
    assert_eq!(out, b"a\x1fb\x1ec\x1fd\x1e".to_vec());
}

#[test]
fn quote_always_with_escape() {
    let c = build_output_convention(b',', false, false, true, Some(b'\\'), b'"');
    let rc = InputConvention::standard(b',');
    let out = transcode(&b"x,\"a\"\"b\"\n".to_vec(), &rc, &c).unwrap();
    assert_eq!(out, b"\"x\",\"a\\\"b\"\n".to_vec());
}

#[test]
fn byte_terminator_on_input_keeps_newlines() {
    let rc = InputConvention {
        delimiter: b',',
        quote: b'"',
        escape: EscapeMode::Double,
        terminator: Terminator::Byte(0x1e),
    };
    let parsed = parse_records(&b"a\nb\x1ec\x1e".to_vec(), &rc).unwrap();
    assert_eq!(parsed, vec![vec![b"a\nb".to_vec()], vec![b"c".to_vec()]]);
}

#[test]
fn blank_line_is_an_empty_record() {
    let rc = InputConvention::standard(b',');
    let parsed = parse_records(&b"a\n\nb\n".to_vec(), &rc).unwrap();
    assert_eq!(
        parsed,
        vec![vec![b"a".to_vec()], vec![Vec::new()], vec![b"b".to_vec()]]
    );
}

#[test]
fn lone_cr_terminates_a_record() {
    let c = default_out();
    let rc = InputConvention::standard(b',');
    let out = transcode(&b"a\rb\n".to_vec(), &rc, &c).unwrap();
    assert_eq!(out, b"a\nb\n".to_vec());
}
