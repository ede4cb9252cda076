use screen_pilot::discovery::{
    add_unique_locations, base_url, collect_locations, describe_renderer, description_retry_delay_ms,
    extract_xml_text, find_av_transport_url, m_search_request, parse_location, url_host, SEARCH_TARGETS,
    SSDP_ADDR, SSDP_PORT, MX,
};

#[test]
fn test_parse_location() {
    let response = "HTTP/1.1 200 OK\r\nLOCATION: http://192.168.1.5:49152/desc.xml\r\nST: urn:schemas-upnp-org:device:MediaRenderer:1\r\n\r\n";
    assert_eq!(
        parse_location(response),
        Some("http://192.168.1.5:49152/desc.xml".to_string())
    );
}

#[test]
fn test_parse_location_missing() {
    let response = "HTTP/1.1 200 OK\r\nST: something\r\n\r\n";
    assert_eq!(parse_location(response), None);
}

#[test]
fn discovery_test_extract_xml_text() {
    let xml = "<root><friendlyName>My TV</friendlyName><UDN>uuid:abc-123</UDN></root>";
    assert_eq!(extract_xml_text(xml, "friendlyName"), Some("My TV".to_string()));
    assert_eq!(extract_xml_text(xml, "UDN"), Some("uuid:abc-123".to_string()));
    assert_eq!(extract_xml_text(xml, "missing"), None);
}

#[test]
fn test_base_url() {
    assert_eq!(
        base_url("http://192.168.1.5:49152/description.xml"),
        "http://192.168.1.5:49152"
    );
}

#[test]
fn test_url_host() {
    assert_eq!(
        url_host("http://192.168.1.5:49152/description.xml"),
        Some("192.168.1.5".to_string())
    );
    assert_eq!(url_host("not-a-url"), None);
}

#[test]
fn test_find_av_transport_url_relative() {
    let xml = r#"
            <serviceType>urn:schemas-upnp-org:service:AVTransport:1</serviceType>
            <controlURL>/upnp/control/AVTransport</controlURL>
        "#;
    let result = find_av_transport_url(xml, "http://192.168.1.5:49152/desc.xml");
    assert_eq!(
        result,
        Some("http://192.168.1.5:49152/upnp/control/AVTransport".to_string())
    );
}

#[test]
fn test_find_av_transport_url_absolute() {
    let xml = r#"
            <serviceType>urn:schemas-upnp-org:service:AVTransport:1</serviceType>
            <controlURL>http://192.168.1.5:49152/upnp/control/AVTransport</controlURL>
        "#;
    let result = find_av_transport_url(xml, "http://192.168.1.5:49152/desc.xml");
    assert_eq!(
        result,
        Some("http://192.168.1.5:49152/upnp/control/AVTransport".to_string())
    );
}

#[test]
fn test_parse_location_case_insensitive() {
    let response = "HTTP/1.1 200 OK\r\nlocation: http://192.168.1.5:49152/desc.xml\r\n\r\n";
    assert_eq!(
        parse_location(response),
        Some("http://192.168.1.5:49152/desc.xml".to_string())
    );
}

#[test]
fn test_parse_location_multiple_spaces() {
    let response = "HTTP/1.1 200 OK\r\nLOCATION:   http://192.168.1.5:49152/desc.xml  \r\n\r\n";
    assert_eq!(
        parse_location(response),
        Some("http://192.168.1.5:49152/desc.xml".to_string())
    );
}

#[test]
fn test_parse_location_no_location() {
    let response = "HTTP/1.1 200 OK\r\nSERVER: Test/1.0\r\n\r\n";
    assert_eq!(parse_location(response), None);
}

#[test]
fn test_extract_xml_text_with_namespace() {
    let xml = r#"<root xmlns:u="urn:schemas-upnp-org"><u:friendlyName>Bedroom TV</u:friendlyName></root>"#;
    assert_eq!(extract_xml_text(xml, "friendlyName"), Some("Bedroom TV".to_string()));
}

#[test]
fn test_extract_xml_text_embedded_tags() {
    let xml = "<root><friendlyName>TV<special/>Tag</friendlyName></root>";
    let result = extract_xml_text(xml, "friendlyName");
    assert!(result.is_none() || result == Some("TV<special/>Tag".to_string()));
}

#[test]
fn test_base_url_no_path() {
    assert_eq!(base_url("http://192.168.1.5:49152"), "http://192.168.1.5:49152");
}

#[test]
fn test_base_url_with_root() {
    assert_eq!(base_url("http://192.168.1.5:49152/"), "http://192.168.1.5:49152");
}

#[test]
fn test_url_host_with_port() {
    assert_eq!(
        url_host("http://192.168.1.5:49152/desc.xml"),
        Some("192.168.1.5".to_string())
    );
}

#[test]
fn test_url_host_https() {
    assert_eq!(
        url_host("https://192.168.1.5:443/desc.xml"),
        Some("192.168.1.5".to_string())
    );
}

#[test]
fn test_url_host_no_scheme() {
    assert_eq!(url_host("192.168.1.5:49152/desc.xml"), None);
}

#[test]
fn test_url_host_empty() {
    assert_eq!(url_host(""), None);
}

#[test]
fn test_find_av_transport_url_not_found() {
    let xml = r#"<root><serviceType>urn:schemas-upnp-org:service:RenderingControl:1</serviceType></root>"#;
    let result = find_av_transport_url(xml, "http://192.168.1.5:49152/desc.xml");
    assert_eq!(result, None);
}

#[test]
fn test_find_av_transport_url_with_urlbase() {
    let xml = r#"
            <URLBase>http://192.168.1.123:49152</URLBase>
            <serviceType>urn:schemas-upnp-org:service:AVTransport:1</serviceType>
            <controlURL>_urn:schemas-upnp-org:service:AVTransport_control</controlURL>
        "#;
    let result = find_av_transport_url(xml, "http://192.168.1.5:49152/desc.xml");
    assert_eq!(
        result,
        Some("http://192.168.1.123:49152/_urn:schemas-upnp-org:service:AVTransport_control".to_string())
    );
}

#[test]
fn test_find_av_transport_url_relative_path_with_underscore() {
    let xml = r#"
            <serviceType>urn:schemas-upnp-org:service:AVTransport:1</serviceType>
            <controlURL>_urn:schemas-upnp-org:service:AVTransport_control</controlURL>
        "#;
    let result = find_av_transport_url(xml, "http://192.168.1.5:49152/desc.xml");
    assert_eq!(
        result,
        Some("http://192.168.1.5:49152/_urn:schemas-upnp-org:service:AVTransport_control".to_string())
    );
}

#[test]
fn test_extract_xml_text_urlbase() {
    let xml = r#"<root><URLBase>http://192.168.1.123:49152</URLBase></root>"#;
    assert_eq!(
        extract_xml_text(xml, "URLBase"),
        Some("http://192.168.1.123:49152".to_string())
    );
}

#[test]
fn test_ssdp_constants() {
    assert_eq!(SSDP_ADDR, "239.255.255.250");
    assert_eq!(SSDP_PORT, 1900);
    assert_eq!(SEARCH_TARGETS[1], "urn:schemas-upnp-org:device:MediaRenderer:1");
}

#[test]
fn m_search_request_names_target_and_wait() {
    assert_eq!(MX, 5);
    assert_eq!(
        m_search_request("ssdp:all"),
        "M-SEARCH * HTTP/1.1\r\nHOST: 239.255.255.250:1900\r\nMAN: \"ssdp:discover\"\r\nMX: 5\r\nST: ssdp:all\r\n\r\n"
    );
}

#[test]
fn describe_renderer_reads_name_uuid_and_control_url() {
    let body = r#"<root><device><friendlyName>Hall TV</friendlyName><UDN>uuid:1234-abcd</UDN>
        <serviceType>urn:schemas-upnp-org:service:AVTransport:1</serviceType>
        <controlURL>/ctl/AVT</controlURL></device></root>"#;
    let d = describe_renderer(body, "http://10.0.0.7:8008/desc.xml").unwrap();
    assert_eq!(d.uuid, "1234-abcd");
    assert_eq!(d.name, "Hall TV");
    assert_eq!(d.ip, "10.0.0.7");
    assert_eq!(d.av_transport_url, "http://10.0.0.7:8008/ctl/AVT");
    assert_eq!(d.alias, None);
    assert!(!d.loop_playback);
}

#[test]
fn describe_renderer_falls_back_without_description_fields() {
    let d = describe_renderer("<root></root>", "http://10.0.0.7:8008/desc.xml").unwrap();
    assert_eq!(d.uuid, "http://10.0.0.7:8008/desc.xml");
    assert_eq!(d.name, "Unknown");
    assert_eq!(d.av_transport_url, "http://10.0.0.7:8008/upnp/control/AVTransport");
}

#[test]
fn collect_locations_keeps_first_of_each() {
    let responses = vec![
        "HTTP/1.1 200 OK\r\nLOCATION: http://a/1.xml\r\n\r\n".to_string(),
        "HTTP/1.1 200 OK\r\nST: x\r\n\r\n".to_string(),
        "HTTP/1.1 200 OK\r\nLocation: http://b/2.xml\r\n\r\n".to_string(),
        "HTTP/1.1 200 OK\r\nLOCATION: http://a/1.xml\r\n\r\n".to_string(),
    ];
    assert_eq!(collect_locations(&responses), vec!["http://a/1.xml", "http://b/2.xml"]);
}

#[test]
fn add_unique_locations_skips_known() {
    let mut locations = vec!["http://a/1.xml".to_string()];
    add_unique_locations(&mut locations, &["http://b/2.xml".to_string(), "http://a/1.xml".to_string()]);
    assert_eq!(locations, vec!["http://a/1.xml", "http://b/2.xml"]);
}

#[test]
fn description_retries_back_off() {
    assert_eq!(description_retry_delay_ms(0), Some(200));
    assert_eq!(description_retry_delay_ms(1), Some(400));
    assert_eq!(description_retry_delay_ms(2), None);
}
