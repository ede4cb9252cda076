use screen_pilot::dlna::{
    extract_xml_text, media_info_from_response, pause_request, play_media, play_request, replay_media,
    set_av_transport_uri_request, set_play_mode_request, soap_action_header, soap_envelope, stop_request,
    transport_info_from_response, xml_escape, PlayStep,
};

#[test]
fn dlna_test_xml_escape() {
    assert_eq!(xml_escape("a&b<c>d\"e'f"), "a&amp;b&lt;c&gt;d&quot;e&apos;f");
    assert_eq!(xml_escape("http://host/media/ad.mp4"), "http://host/media/ad.mp4");
}

#[test]
fn dlna_test_soap_envelope_play() {
    let body = soap_envelope("Play", "<Speed>1</Speed>");
    assert!(body.contains("<u:Play xmlns:u="));
    assert!(body.contains("<Speed>1</Speed>"));
    assert!(body.contains("<InstanceID>0</InstanceID>"));
}

#[test]
fn dlna_test_soap_envelope_set_uri() {
    let args = "<CurrentURI>http://192.168.1.1:8090/media/ad.mp4</CurrentURI><CurrentURIMetaData></CurrentURIMetaData>";
    let body = soap_envelope("SetAVTransportURI", args);
    assert!(body.contains("<u:SetAVTransportURI xmlns:u="));
    assert!(body.contains("ad.mp4"));
}

#[test]
fn dlna_test_soap_envelope_stop() {
    let body = soap_envelope("Stop", "");
    assert!(body.contains("<u:Stop xmlns:u="));
}

#[test]
fn test_soap_envelope_set_play_mode() {
    let body = soap_envelope("SetPlayMode", "<NewPlayMode>REPEAT_ONE</NewPlayMode>");
    assert!(body.contains("<u:SetPlayMode xmlns:u="));
    assert!(body.contains("<NewPlayMode>REPEAT_ONE</NewPlayMode>"));
}

#[test]
fn test_soap_envelope_get_transport_info() {
    let body = soap_envelope("GetTransportInfo", "");
    assert!(body.contains("<u:GetTransportInfo xmlns:u="));
    assert!(body.contains("<InstanceID>0</InstanceID>"));
}

#[test]
fn test_soap_envelope_get_media_info() {
    let body = soap_envelope("GetMediaInfo", "");
    assert!(body.contains("<u:GetMediaInfo xmlns:u="));
    assert!(body.contains("<InstanceID>0</InstanceID>"));
}

#[test]
fn dlna_test_extract_xml_text() {
    let xml = "<CurrentTransportState>PLAYING</CurrentTransportState>";
    assert_eq!(extract_xml_text(xml, "CurrentTransportState"), Some("PLAYING".to_string()));
}

#[test]
fn dlna_test_soap_envelope_pause() {
    let body = soap_envelope("Pause", "");
    assert!(body.contains("<u:Pause xmlns:u="));
}

#[test]
fn test_soap_envelope_empty_args() {
    let body = soap_envelope("Stop", "");
    assert!(body.contains("</u:Stop>"));
    assert!(body.contains("<InstanceID>0</InstanceID>"));
}

#[test]
fn test_xml_escape_all_characters() {
    assert_eq!(xml_escape("&<>\"'"), "&amp;&lt;&gt;&quot;&apos;");
}

#[test]
fn test_xml_escape_no_escape_needed() {
    assert_eq!(xml_escape("hello world"), "hello world");
}

#[test]
fn test_xml_escape_already_escaped() {
    assert_eq!(xml_escape("&amp;"), "&amp;amp;");
}

#[test]
fn test_soap_envelope_with_complex_args() {
    let args = "<CurrentURI>http://example.com/video.mp4</CurrentURI><CurrentURIMetaData>&lt;&gt;</CurrentURIMetaData>";
    let body = soap_envelope("SetAVTransportURI", args);
    assert!(body.contains("SetAVTransportURI"));
    assert!(body.contains("CurrentURI"));
    assert!(body.contains("video.mp4"));
}

#[test]
fn test_soap_action_header_format() {
    let soap_action = soap_action_header("Play");
    assert_eq!(soap_action, "\"urn:schemas-upnp-org:service:AVTransport:1#Play\"");
}

#[test]
fn test_soap_envelope_se_complete() {
    let body = soap_envelope("Seek", "<Unit>REL_TIME</Unit><Target>00:01:30</Target>");
    assert!(body.starts_with("<?xml version=\"1.0\" encoding=\"utf-8\"?>"));
    assert!(body.contains("<s:Envelope"));
    assert!(body.contains("</s:Envelope>"));
    assert!(body.contains("<u:Seek xmlns:u="));
}

#[test]
fn soap_envelope_exact_text() {
    let body = soap_envelope("Stop", "");
    assert_eq!(
        body,
        "<?xml version=\"1.0\" encoding=\"utf-8\"?>\n<s:Envelope xmlns:s=\"http://schemas.xmlsoap.org/soap/envelope/\"\n            s:encodingStyle=\"http://schemas.xmlsoap.org/soap/encoding/\">\n  <s:Body>\n    <u:Stop xmlns:u=\"urn:schemas-upnp-org:service:AVTransport:1\">\n      <InstanceID>0</InstanceID>\n      \n    </u:Stop>\n  </s:Body>\n</s:Envelope>"
    );
}

#[test]
fn set_uri_request_escapes_the_uri() {
    let r = set_av_transport_uri_request("http://h/a&b.mp4");
    assert_eq!(r.action, "SetAVTransportURI");
    assert!(r.body.contains("<CurrentURI>http://h/a&amp;b.mp4</CurrentURI><CurrentURIMetaData></CurrentURIMetaData>"));
}

#[test]
fn simple_requests_carry_their_actions() {
    assert_eq!(play_request().action, "Play");
    assert!(play_request().body.contains("<Speed>1</Speed>"));
    assert_eq!(pause_request().action, "Pause");
    assert_eq!(stop_request().action, "Stop");
    let m = set_play_mode_request("NORMAL");
    assert!(m.body.contains("<NewPlayMode>NORMAL</NewPlayMode>"));
}

#[test]
fn transport_info_defaults_for_missing_elements() {
    let t = transport_info_from_response("<CurrentTransportState> PLAYING </CurrentTransportState>");
    assert_eq!(t.current_transport_state, "PLAYING");
    assert_eq!(t.current_transport_status, "UNKNOWN");
    assert_eq!(t.current_speed, "1");
    assert_eq!(media_info_from_response("<x/>").current_uri, "");
    assert_eq!(media_info_from_response("<CurrentURI>http://a/b</CurrentURI>").current_uri, "http://a/b");
}

#[test]
fn play_sequence_with_mode_reset() {
    let mut p = play_media("http://h/a.mp4", false, None);
    assert_eq!(p.step, PlayStep::Stop);
    assert_eq!(p.request().unwrap().action, "Stop");
    p.advance(false);
    assert_eq!(p.step, PlayStep::SetUri);
    assert!(p.request().unwrap().body.contains("http://h/a.mp4"));
    p.advance(true);
    assert_eq!(p.step, PlayStep::SetPlayMode);
    p.advance(false);
    assert_eq!(p.step, PlayStep::Play);
    p.advance(true);
    assert_eq!(p.step, PlayStep::Done);
    assert!(p.is_finished());
    assert!(p.request().is_none());
}

#[test]
fn play_sequence_looping_uses_loop_uri_and_fails_on_refused_uri() {
    let mut p = play_media("http://h/a.mp4", true, Some("http://h/loop.ts"));
    assert_eq!(p.uri, "http://h/loop.ts");
    p.advance(true);
    p.advance(false);
    assert_eq!(p.step, PlayStep::Failed);
    let r = replay_media("http://h/b.mp4");
    assert_eq!(r.step, PlayStep::SetUri);
}

#[test]
fn test_xml_escape() {
    assert_eq!(xml_escape("a&b<c>d\"e'f"), "a&amp;b&lt;c&gt;d&quot;e&apos;f");
    assert_eq!(xml_escape("http://host/media/ad.mp4"), "http://host/media/ad.mp4");
}

#[test]
fn test_soap_envelope_play() {
    let body = soap_envelope("Play", "<Speed>1</Speed>");
    assert!(body.contains("<u:Play xmlns:u="));
    assert!(body.contains("<Speed>1</Speed>"));
    assert!(body.contains("<InstanceID>0</InstanceID>"));
}

#[test]
fn test_soap_envelope_set_uri() {
    let args = "<CurrentURI>http://192.168.1.1:8090/media/ad.mp4</CurrentURI><CurrentURIMetaData></CurrentURIMetaData>";
    let body = soap_envelope("SetAVTransportURI", args);
    assert!(body.contains("<u:SetAVTransportURI xmlns:u="));
    assert!(body.contains("ad.mp4"));
}

#[test]
fn test_soap_envelope_stop() {
    let body = soap_envelope("Stop", "");
    assert!(body.contains("<u:Stop xmlns:u="));
}

#[test]
fn test_soap_envelope_pause() {
    let body = soap_envelope("Pause", "");
    assert!(body.contains("<u:Pause xmlns:u="));
}

#[test]
fn xml_escape_is_decodable_and_marks_entities() {
    let e = xml_escape("Tom & \"Jerry\" <3 'x'");
    assert_eq!(e, "Tom &amp; &quot;Jerry&quot; &lt;3 &apos;x&apos;");
    let decoded = e
        .replace("&lt;", "<")
        .replace("&gt;", ">")
        .replace("&quot;", "\"")
        .replace("&apos;", "'")
        .replace("&amp;", "&");
    assert_eq!(decoded, "Tom & \"Jerry\" <3 'x'");
    assert_eq!(xml_escape("plain text"), "plain text");
    assert_ne!(xml_escape("a&amp;"), xml_escape("a&"));
}
