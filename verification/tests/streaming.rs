use foundry_local::json::finish_download;
use foundry_local::stream::{scan_percent, StreamDecoder};
use foundry_local::FoundryError;

#[test]
fn streaming_decode_reports_monotonic_progress() {
    // The chunk sequence reports 10 then 55: the later "30%" is ignored
    // as non-monotonic and JSON chunks are never scanned for percentages.
    let chunks: [&str; 5] = ["10%", "55%", "30%", "{\"a\":1", "}"];
    let mut decoder = StreamDecoder::new();
    let mut reported: Vec<u64> = Vec::new();
    for chunk in chunks {
        if let Some(p) = decoder.push_chunk(chunk.as_bytes()) {
            reported.push(p.whole_saturated());
        }
    }
    assert_eq!(reported, vec![10, 55]);
    let value = finish_download(decoder, 200).unwrap();
    assert_eq!(value.get("a").and_then(|x| x.as_i64()), Some(1));
}

#[test]
fn progress_equal_percentage_is_not_reemitted() {
    let mut decoder = StreamDecoder::new();
    assert!(decoder.push_chunk(b"42%").is_some());
    assert!(decoder.push_chunk(b"42%").is_none());
    assert!(decoder.push_chunk(b"43%").is_some());
}

#[test]
fn progress_compares_decimals_exactly() {
    let mut decoder = StreamDecoder::new();
    let p1 = decoder.push_chunk(b"33.4%").unwrap();
    assert_eq!(p1.whole_saturated(), 33);
    assert!(decoder.push_chunk(b"33.40%").is_none());
    assert!(decoder.push_chunk(b"33.39%").is_none());
    let p2 = decoder.push_chunk(b"33.5%").unwrap();
    assert_eq!(p2.whole_saturated(), 33);
    assert!(decoder.push_chunk(b"34%").is_some());
}

#[test]
fn progress_zero_is_not_reported() {
    // The decoder starts at zero, and only strictly greater percentages
    // are reported.
    let mut decoder = StreamDecoder::new();
    assert!(decoder.push_chunk(b"0%").is_none());
    assert!(decoder.push_chunk(b"1%").is_some());
}

#[test]
fn percent_scan_finds_first_anchored_percentage() {
    let p = scan_percent(b"Downloading model 42.5% complete").unwrap();
    assert_eq!(p.whole_saturated(), 42);
    let (ints, fracs) = p.digits();
    assert_eq!(ints, vec![4, 2]);
    assert_eq!(fracs, vec![5]);

    assert!(scan_percent(b"no progress here").is_none());
    assert!(scan_percent(b"% alone means nothing").is_none());

    // The first qualifying percent wins; a bare "%" without a digit
    // before it does not.
    let p = scan_percent(b"x% then 7%").unwrap();
    assert_eq!(p.whole_saturated(), 7);
}

#[test]
fn json_accumulation_starts_at_brace_and_sticks() {
    let mut decoder = StreamDecoder::new();
    assert!(decoder.push_chunk(b"10%").is_some());
    // Leading whitespace is trimmed before the brace check.
    assert!(decoder.push_chunk(b"  {\"status\":").is_none());
    // Later chunks are appended verbatim even if they hold percentages.
    assert!(decoder.push_chunk(b"\"55%\"}").is_none());
    let value = finish_download(decoder, 200).unwrap();
    assert_eq!(
        value.get("status").and_then(|s| s.as_str()),
        Some("55%")
    );
}

#[test]
fn finish_reports_http_status_with_body() {
    let mut decoder = StreamDecoder::new();
    let _ = decoder.push_chunk(b"{\"error\":\"busy\"}");
    let err = finish_download(decoder, 503).unwrap_err();
    match err {
        FoundryError::HttpStatus(code, body) => {
            assert_eq!(code, 503);
            assert_eq!(body, "{\"error\":\"busy\"}");
        },
        other => panic!("unexpected error: {:?}", other),
    }
}

#[test]
fn finish_rejects_empty_body() {
    let decoder = StreamDecoder::new();
    let err = finish_download(decoder, 200).unwrap_err();
    assert!(matches!(err, FoundryError::EmptyBody));
}

#[test]
fn finish_rejects_body_without_closing_brace() {
    let mut decoder = StreamDecoder::new();
    let _ = decoder.push_chunk(b"{\"a\":1");
    let err = finish_download(decoder, 200).unwrap_err();
    assert!(matches!(err, FoundryError::MalformedBody));
}

#[test]
fn finish_rejects_unparsable_json() {
    let mut decoder = StreamDecoder::new();
    let _ = decoder.push_chunk(b"{oops}");
    let err = finish_download(decoder, 200).unwrap_err();
    assert!(matches!(err, FoundryError::DecodeError));
}
