use antigravity_agent::{parse_ports_from_log, port_info_from_log, select_newest_log};

#[test]
fn port_parse_scenario() {
    let log = "...random port at 54321 for HTTPS...random port at 54322 for HTTP...extension server client at port 54323...";
    let (https, http, ext) = parse_ports_from_log(log);
    assert_eq!(https, Some(54321));
    assert_eq!(http, Some(54322));
    assert_eq!(ext, Some(54323));
}

#[test]
fn last_occurrence_wins() {
    let log = "random port at 54321 for HTTPS ... later ... random port at 54555 for HTTPS";
    let (https, _, _) = parse_ports_from_log(log);
    assert_eq!(https, Some(54555));
}

#[test]
fn absent_roles_stay_absent() {
    let (https, http, ext) = parse_ports_from_log("nothing of interest in this log");
    assert_eq!(https, None);
    assert_eq!(http, None);
    assert_eq!(ext, None);
}

#[test]
fn http_matches_the_prefix_of_an_https_line() {
    // The HTTP label is a prefix of the HTTPS one, so an HTTPS announcement
    // also counts as the latest HTTP announcement when nothing follows it.
    let log = "random port at 40000 for HTTP ... random port at 50000 for HTTPS";
    let (https, http, _) = parse_ports_from_log(log);
    assert_eq!(https, Some(50000));
    assert_eq!(http, Some(50000));
}

#[test]
fn oversized_number_yields_no_port() {
    let log = "random port at 70000 for HTTPS";
    let (https, _, _) = parse_ports_from_log(log);
    assert_eq!(https, None);
}

#[test]
fn oversized_last_announcement_hides_earlier_ones() {
    // The last announcement decides; when its number does not fit a port,
    // the role is absent even though an earlier announcement was fine.
    let log = "random port at 1234 for HTTPS then random port at 99999 for HTTPS";
    let (https, _, _) = parse_ports_from_log(log);
    assert_eq!(https, None);
}

#[test]
fn label_without_digits_does_not_match() {
    let log = "random port at  for HTTPS";
    let (https, _, _) = parse_ports_from_log(log);
    assert_eq!(https, None);
}

#[test]
fn port_info_carries_the_log_path() {
    let log = "extension server client at port 8080";
    let info = port_info_from_log(log, "/tmp/app.log".to_string());
    assert_eq!(info.extension_port, Some(8080));
    assert_eq!(info.https_port, None);
    assert_eq!(info.http_port, None);
    assert_eq!(info.log_path.as_deref(), Some("/tmp/app.log"));
}

#[test]
fn newest_log_wins_and_first_of_equals_is_kept() {
    let candidates = vec![
        ("a.log".to_string(), 10u64),
        ("b.log".to_string(), 30u64),
        ("c.log".to_string(), 30u64),
        ("d.log".to_string(), 20u64),
    ];
    assert_eq!(select_newest_log(&candidates), Some(1));
}

#[test]
fn no_candidates_no_log() {
    let candidates: Vec<(String, u64)> = Vec::new();
    assert_eq!(select_newest_log(&candidates), None);
}
