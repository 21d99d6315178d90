use vise::PrometheusWrapper;

#[test]
fn translating_open_metrics_format() {
    let mut wrapper = PrometheusWrapper::new();
    wrapper.remove_eof_terminator();

    // Emulating breaking a line into multiple write instructions.
    wrapper.write_str("# HELP ").unwrap();
    wrapper.write_str("http_requests").unwrap();
    wrapper.write_str(" ").unwrap();
    wrapper.write_str("Number of HTTP requests.\n").unwrap();

    wrapper.write_str("# TYPE ").unwrap();
    wrapper.write_str("http_requests").unwrap();
    wrapper.write_str(" ").unwrap();
    wrapper.write_str("counter\n").unwrap();

    wrapper.write_str("http_requests").unwrap();
    wrapper.write_str("_total").unwrap();
    wrapper.write_str("{").unwrap();
    wrapper.write_str("method=\"").unwrap();
    wrapper.write_str("call").unwrap();
    wrapper.write_str("\"} ").unwrap();
    wrapper.write_str("42\n").unwrap();

    wrapper.write_str("# EOF\n").unwrap();

    let buffer = wrapper.finish().unwrap();
    let lines: Vec<_> = buffer.lines().collect();
    assert_eq!(
        lines,
        [
            "# HELP http_requests Number of HTTP requests.",
            "# TYPE http_requests counter",
            "http_requests{method=\"call\"} 42",
        ]
    );
}

#[test]
fn translating_sample() {
    let input = "\
        # TYPE modern_package_metadata info\n\
        # HELP modern_package_metadata Package information.\n\
        modern_package_metadata_info{version=\"0.1.0\"} 1\n\
        # TYPE modern_counter counter\n\
        modern_counter_total 1\n\
        # TYPE modern_gauge gauge\n\
        modern_gauge{label=\"value\"} 23\n\
        # TYPE modern_counter_with_labels counter\n\
        modern_counter_with_labels_total{label=\"value\"} 3\n\
        modern_counter_with_labels_total{label=\"other\"} 5";
    let expected = "\
        # TYPE modern_package_metadata gauge\n\
        # HELP modern_package_metadata Package information.\n\
        modern_package_metadata{version=\"0.1.0\"} 1\n\
        # TYPE modern_counter counter\n\
        modern_counter 1\n\
        # TYPE modern_gauge gauge\n\
        modern_gauge{label=\"value\"} 23\n\
        # TYPE modern_counter_with_labels counter\n\
        modern_counter_with_labels{label=\"value\"} 3\n\
        modern_counter_with_labels{label=\"other\"} 5\n";

    let mut wrapper = PrometheusWrapper::new();
    wrapper.remove_eof_terminator();
    wrapper.translate_info_metrics_type();
    wrapper.write_str(input).unwrap();
    let buffer = wrapper.finish().unwrap();

    assert_eq!(buffer, expected);
}

#[test]
fn legacy_translation_never_contains_eof_line() {
    let input = "\
        # TYPE c counter\n\
        c_total 1\n\
        # EOF\n";
    let mut wrapper = PrometheusWrapper::new();
    wrapper.remove_eof_terminator();
    wrapper.translate_info_metrics_type();
    wrapper.write_str(input).unwrap();
    let buffer = wrapper.finish().unwrap();
    assert!(buffer.lines().all(|line| line != "# EOF"));
}

#[test]
fn malformed_sample_lines_are_reported() {
    let mut wrapper = PrometheusWrapper::new();
    // A sample line without `{` or whitespace cannot be parsed.
    assert!(wrapper.write_str("garbage\n").is_err());
}

#[test]
fn crlf_and_padded_type_lines_translate_like_plain_ones() {
    let input = "\
        # TYPE modern_counter counter\r\n\
        modern_counter_total 1\r\n";
    let mut wrapper = PrometheusWrapper::new();
    wrapper.remove_eof_terminator();
    wrapper.write_str(input).unwrap();
    let buffer = wrapper.finish().unwrap();
    assert_eq!(buffer, "# TYPE modern_counter counter\nmodern_counter 1\n");

    let mut wrapper = PrometheusWrapper::new();
    wrapper.write_str("# TYPE padded counter \n").unwrap();
    wrapper.write_str("padded_total 2\n").unwrap();
    let buffer = wrapper.finish().unwrap();
    assert_eq!(buffer, "# TYPE padded counter \npadded 2\n");
}
