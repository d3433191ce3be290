use faster_cli::endpoint::{ClientInfo, Endpoint};
use faster_cli::error::Error;

#[test]
fn urls_target_the_speed_test_routes() {
    let endpoint = Endpoint::cloudflare();
    assert_eq!(
        endpoint.download_url(25_000_000),
        "https://speed.cloudflare.com/__down?bytes=25000000"
    );
    assert_eq!(endpoint.upload_url(), "https://speed.cloudflare.com/__up");
    assert_eq!(endpoint.socket_address(), "speed.cloudflare.com:443");
}

#[test]
fn trace_yields_the_fields_shown_under_verbose() {
    let info = ClientInfo::from_trace("fl=786f196\nip=203.0.113.7\ncolo=YYZ\nloc=CA\nwarp=off")
        .expect("trace is well formed");
    assert_eq!(info.ip.as_deref(), Some("203.0.113.7"));
    assert_eq!(info.colo.as_deref(), Some("YYZ"));
    assert_eq!(info.country.as_deref(), Some("CA"));
}

#[test]
fn missing_trace_keys_are_absent_rather_than_fatal() {
    let info = ClientInfo::from_trace("fl=786f196\nip=\nwarp=off").expect("trace is parseable");
    assert_eq!(info, ClientInfo::default());
}

#[test]
fn a_trace_without_pairs_is_rejected() {
    assert!(matches!(
        ClientInfo::from_trace("<html>an error page</html>"),
        Err(Error::MalformedResponse { .. })
    ));
}

#[test]
fn the_trace_route_and_host_are_exposed() {
    let endpoint = Endpoint::cloudflare();
    assert_eq!(endpoint.host(), "speed.cloudflare.com");
    assert_eq!(endpoint.trace_url(), "https://speed.cloudflare.com/cdn-cgi/trace");
    assert_eq!(endpoint.download_url(0), "https://speed.cloudflare.com/__down?bytes=0");
}

#[test]
fn trace_values_are_trimmed_and_the_last_one_wins() {
    let info = ClientInfo::from_trace("ip= 198.51.100.1 \r\ncolo=AMS\r\nip=198.51.100.2\t\r\n")
        .expect("trace is well formed");
    assert_eq!(info.ip.as_deref(), Some("198.51.100.2"));
    assert_eq!(info.colo.as_deref(), Some("AMS"));
    assert_eq!(info.country, None);
}

#[test]
fn only_the_first_equals_sign_splits_a_line() {
    let info = ClientInfo::from_trace("colo==x=y").expect("trace is well formed");
    assert_eq!(info.colo.as_deref(), Some("=x=y"));
}

#[test]
fn an_empty_value_does_not_erase_an_earlier_one() {
    let info = ClientInfo::from_trace("loc=CA\nloc=  \n").expect("trace is well formed");
    assert_eq!(info.country.as_deref(), Some("CA"));
}

#[test]
fn an_empty_body_is_rejected() {
    assert!(matches!(
        ClientInfo::from_trace(""),
        Err(Error::MalformedResponse { .. })
    ));
}

#[test]
fn a_failed_trace_request_reports_its_status() {
    assert!(matches!(
        ClientInfo::from_reply(503, "ip=1.2.3.4"),
        Err(Error::UnexpectedStatus { status: 503 })
    ));
    let info = ClientInfo::from_reply(200, "ip=1.2.3.4").expect("a success is parsed");
    assert_eq!(info.ip.as_deref(), Some("1.2.3.4"));
}
