//! UPnP AVTransport: SOAP requests, their answers, and the play sequence.
use vstd::prelude::*;
use crate::text::{
    starts_with, append, chars_of, find, find_from_exec, lemma_find_from_bounds, opt_view, push_char,
    slice_vec, string_of, trim, trim_exec,
};

verus! {

/// State reported by `GetTransportInfo`.
#[derive(Debug, Clone, PartialEq, Eq)]
pub struct TransportInfo {
    pub current_transport_state: String,
    pub current_transport_status: String,
    pub current_speed: String,
}

/// Media reported by `GetMediaInfo`.
#[derive(Debug, Clone, PartialEq, Eq)]
pub struct MediaInfo {
    pub current_uri: String,
}

pub open spec fn envelope_head() -> Seq<char> {
    "<?xml version=\"1.0\" encoding=\"utf-8\"?>\n<s:Envelope xmlns:s=\"http://schemas.xmlsoap.org/soap/envelope/\"\n            s:encodingStyle=\"http://schemas.xmlsoap.org/soap/encoding/\">\n  <s:Body>\n    <u:"@
}

pub open spec fn envelope_service() -> Seq<char> {
    " xmlns:u=\"urn:schemas-upnp-org:service:AVTransport:1\">\n      <InstanceID>0</InstanceID>\n      "@
}

pub open spec fn envelope_close() -> Seq<char> {
    "\n    </u:"@
}

pub open spec fn envelope_tail() -> Seq<char> {
    ">\n  </s:Body>\n</s:Envelope>"@
}

/// The SOAP envelope of an AVTransport `action` whose arguments (after
/// `InstanceID` 0) are `args`.
pub open spec fn soap_envelope_spec(action: Seq<char>, args: Seq<char>) -> Seq<char> {
    envelope_head() + action + envelope_service() + args + envelope_close() + action
        + envelope_tail()
}

/// Build the SOAP envelope for a UPnP AVTransport action.
pub fn soap_envelope(action: &str, args: &str) -> (r: String)
    ensures
        r@ == soap_envelope_spec(action@, args@),
{
    let mut r = String::new();
    append(
        &mut r,
        "<?xml version=\"1.0\" encoding=\"utf-8\"?>\n<s:Envelope xmlns:s=\"http://schemas.xmlsoap.org/soap/envelope/\"\n            s:encodingStyle=\"http://schemas.xmlsoap.org/soap/encoding/\">\n  <s:Body>\n    <u:",
    );
    append(&mut r, action);
    append(
        &mut r,
        " xmlns:u=\"urn:schemas-upnp-org:service:AVTransport:1\">\n      <InstanceID>0</InstanceID>\n      ",
    );
    append(&mut r, args);
    append(&mut r, "\n    </u:");
    append(&mut r, action);
    append(&mut r, ">\n  </s:Body>\n</s:Envelope>");
    r
}

pub open spec fn soap_action_spec(action: Seq<char>) -> Seq<char> {
    "\"urn:schemas-upnp-org:service:AVTransport:1#"@ + action + "\""@
}

/// Value of the `SOAPAction` header for `action`.
pub fn soap_action_header(action: &str) -> (r: String)
    ensures
        r@ == soap_action_spec(action@),
{
    let mut r = String::new();
    append(&mut r, "\"urn:schemas-upnp-org:service:AVTransport:1#");
    append(&mut r, action);
    append(&mut r, "\"");
    r
}

/// The escape of one character in XML text.
pub open spec fn escape_char(c: char) -> Seq<char> {
    if c == '&' {
        "&amp;"@
    } else if c == '<' {
        "&lt;"@
    } else if c == '>' {
        "&gt;"@
    } else if c == '"' {
        "&quot;"@
    } else if c == '\'' {
        "&apos;"@
    } else {
        seq![c]
    }
}

/// XML escaping of `&`, `<`, `>`, `"` and `'`, character by character.
pub open spec fn xml_escape_spec(s: Seq<char>) -> Seq<char>
    decreases s.len(),
{
    if s.len() == 0 {
        seq![]
    } else {
        xml_escape_spec(s.drop_last()) + escape_char(s.last())
    }
}

/// Characters that may not stand unescaped in XML text.
pub open spec fn is_markup_char(c: char) -> bool {
    c == '<' || c == '>' || c == '"' || c == '\''
}

/// Minimal XML character escaping for attribute and element text.
pub fn xml_escape(s: &str) -> (r: String)
    ensures
        r@ == xml_escape_spec(s@),
{
    let v = chars_of(s);
    let mut r = String::new();
    let mut i: usize = 0;
    while i < v.len()
        invariant
            i <= v@.len(),
            r@ == xml_escape_spec(v@.take(i as int)),
        decreases v.len() - i,
    {
        let c = v[i];
        if c == '&' {
            append(&mut r, "&amp;");
        } else if c == '<' {
            append(&mut r, "&lt;");
        } else if c == '>' {
            append(&mut r, "&gt;");
        } else if c == '"' {
            append(&mut r, "&quot;");
        } else if c == '\'' {
            append(&mut r, "&apos;");
        } else {
            push_char(&mut r, c);
            assert(r@ == xml_escape_spec(v@.take(i as int)) + seq![c]);
        }
        assert(v@.take(i + 1).drop_last() =~= v@.take(i as int));
        i += 1;
    }
    assert(v@.take(v@.len() as int) =~= v@);
    r
}

/// Escaped text holds no raw markup character.
pub proof fn lemma_xml_escape_no_markup(s: Seq<char>)
    ensures
        forall|i: int| 0 <= i < xml_escape_spec(s).len() ==> !is_markup_char(#[trigger] xml_escape_spec(s)[i]),
    decreases s.len(),
{
    reveal_strlit("&amp;");
    reveal_strlit("&lt;");
    reveal_strlit("&gt;");
    reveal_strlit("&quot;");
    reveal_strlit("&apos;");
    if s.len() > 0 {
        lemma_xml_escape_no_markup(s.drop_last());
        let a = xml_escape_spec(s.drop_last());
        let b = escape_char(s.last());
        assert forall|i: int| 0 <= i < (a + b).len() implies !is_markup_char(#[trigger] (a + b)[i]) by {
            if i >= a.len() {
                assert((a + b)[i] == b[i - a.len()]);
            }
        }
    }
}

/// The characters that the escape replaces by an entity.
pub open spec fn is_escaped_char(c: char) -> bool {
    c == '&' || c == '<' || c == '>' || c == '"' || c == '\''
}

/// The character that an entity at the start of `e` stands for, and the
/// entity's length; none when `e` starts with no entity.
pub open spec fn decode_entity(e: Seq<char>) -> Option<(char, int)> {
    if starts_with(e, "&amp;"@) {
        Some(('&', "&amp;"@.len() as int))
    } else if starts_with(e, "&lt;"@) {
        Some(('<', "&lt;"@.len() as int))
    } else if starts_with(e, "&gt;"@) {
        Some(('>', "&gt;"@.len() as int))
    } else if starts_with(e, "&quot;"@) {
        Some(('"', "&quot;"@.len() as int))
    } else if starts_with(e, "&apos;"@) {
        Some(('\'', "&apos;"@.len() as int))
    } else {
        None
    }
}

/// Decoding of the five entities in one left-to-right pass.
pub open spec fn xml_unescape(e: Seq<char>) -> Seq<char>
    decreases e.len(),
{
    if e.len() == 0 {
        seq![]
    } else {
        match decode_entity(e) {
            Some((c, n)) => if 0 < n <= e.len() {
                seq![c] + xml_unescape(e.skip(n))
            } else {
                e
            },
            None => seq![e[0]] + xml_unescape(e.skip(1)),
        }
    }
}

proof fn lemma_differs_at(e: Seq<char>, p: Seq<char>, k: int)
    requires
        0 <= k < p.len(),
        k < e.len(),
        e[k] != p[k],
    ensures
        !starts_with(e, p),
{
    if starts_with(e, p) {
        assert(e.subrange(0, p.len() as int)[k] == e[k]);
    }
}

proof fn lemma_starts_with_concat(p: Seq<char>, rest: Seq<char>)
    ensures
        starts_with(p + rest, p),
        (p + rest).skip(p.len() as int) == rest,
{
    assert((p + rest).subrange(0, p.len() as int) =~= p);
    assert((p + rest).skip(p.len() as int) =~= rest);
}

/// Escaping a concatenation escapes each part.
proof fn lemma_xml_escape_concat(a: Seq<char>, b: Seq<char>)
    ensures
        xml_escape_spec(a + b) == xml_escape_spec(a) + xml_escape_spec(b),
    decreases b.len(),
{
    if b.len() == 0 {
        assert(a + b =~= a);
        assert(xml_escape_spec(a) + xml_escape_spec(b) =~= xml_escape_spec(a));
    } else {
        lemma_xml_escape_concat(a, b.drop_last());
        assert((a + b).drop_last() =~= a + b.drop_last());
        assert((a + b).last() == b.last());
        assert(xml_escape_spec(a) + xml_escape_spec(b.drop_last()) + escape_char(b.last()) =~= xml_escape_spec(a)
            + (xml_escape_spec(b.drop_last()) + escape_char(b.last())));
    }
}

/// Decoding an escaped character followed by anything gives the character
/// back, followed by the decoding of the rest.
proof fn lemma_unescape_char(c: char, rest: Seq<char>)
    ensures
        xml_unescape(escape_char(c) + rest) == seq![c] + xml_unescape(rest),
{
    reveal_strlit("&amp;");
    reveal_strlit("&lt;");
    reveal_strlit("&gt;");
    reveal_strlit("&quot;");
    reveal_strlit("&apos;");
    let e = escape_char(c) + rest;
    let b = escape_char(c);
    lemma_starts_with_concat(b, rest);
    assert(e[0] == b[0]);
    if c == '&' {
    } else if c == '<' {
        lemma_differs_at(e, "&amp;"@, 1);
    } else if c == '>' {
        lemma_differs_at(e, "&amp;"@, 1);
        lemma_differs_at(e, "&lt;"@, 1);
    } else if c == '"' {
        lemma_differs_at(e, "&amp;"@, 1);
        lemma_differs_at(e, "&lt;"@, 1);
        lemma_differs_at(e, "&gt;"@, 1);
    } else if c == '\'' {
        lemma_differs_at(e, "&amp;"@, 2);
        lemma_differs_at(e, "&lt;"@, 1);
        lemma_differs_at(e, "&gt;"@, 1);
        lemma_differs_at(e, "&quot;"@, 1);
    } else {
        lemma_differs_at(e, "&amp;"@, 0);
        lemma_differs_at(e, "&lt;"@, 0);
        lemma_differs_at(e, "&gt;"@, 0);
        lemma_differs_at(e, "&quot;"@, 0);
        lemma_differs_at(e, "&apos;"@, 0);
        assert(decode_entity(e) is None);
    }
}

/// Decoding the escape of any text gives the text back, so the escape never
/// maps two texts to one.
pub proof fn lemma_xml_escape_round_trip(s: Seq<char>)
    ensures
        xml_unescape(xml_escape_spec(s)) == s,
    decreases s.len(),
{
    if s.len() > 0 {
        let rest = s.skip(1);
        lemma_xml_escape_concat(seq![s[0]], rest);
        assert(seq![s[0]] + rest =~= s);
        let one = seq![s[0]];
        assert(one.drop_last() =~= Seq::<char>::empty());
        assert(one.last() == s[0]);
        assert(xml_escape_spec(Seq::<char>::empty()) == Seq::<char>::empty());
        assert(xml_escape_spec(one) == xml_escape_spec(one.drop_last()) + escape_char(one.last()));
        assert(xml_escape_spec(one) =~= escape_char(s[0]));
        lemma_unescape_char(s[0], xml_escape_spec(rest));
        lemma_xml_escape_round_trip(rest);
    }
}

/// Different texts have different escapes.
pub proof fn lemma_xml_escape_injective(a: Seq<char>, b: Seq<char>)
    requires
        xml_escape_spec(a) == xml_escape_spec(b),
    ensures
        a == b,
{
    lemma_xml_escape_round_trip(a);
    lemma_xml_escape_round_trip(b);
}

/// Every `&` of escaped text starts one of the five entities.
pub proof fn lemma_xml_escape_ampersands(s: Seq<char>)
    ensures
        forall|i: int|
            0 <= i < xml_escape_spec(s).len() && #[trigger] xml_escape_spec(s)[i] == '&' ==> decode_entity(
                xml_escape_spec(s).skip(i),
            ) is Some,
    decreases s.len(),
{
    reveal_strlit("&amp;");
    reveal_strlit("&lt;");
    reveal_strlit("&gt;");
    reveal_strlit("&quot;");
    reveal_strlit("&apos;");
    if s.len() > 0 {
        lemma_xml_escape_ampersands(s.drop_last());
        let a = xml_escape_spec(s.drop_last());
        let b = escape_char(s.last());
        assert(xml_escape_spec(s) == a + b);
        assert forall|i: int| 0 <= i < (a + b).len() && #[trigger] (a + b)[i] == '&' implies decode_entity(
            (a + b).skip(i),
        ) is Some by {
            if i < a.len() {
                assert(a[i] == '&');
                let rest = a.skip(i);
                assert((a + b).skip(i) =~= rest + b);
                let ent = if starts_with(rest, "&amp;"@) {
                    "&amp;"@
                } else if starts_with(rest, "&lt;"@) {
                    "&lt;"@
                } else if starts_with(rest, "&gt;"@) {
                    "&gt;"@
                } else if starts_with(rest, "&quot;"@) {
                    "&quot;"@
                } else {
                    "&apos;"@
                };
                assert(starts_with(rest, ent));
                assert((rest + b).subrange(0, ent.len() as int) =~= rest.subrange(0, ent.len() as int));
                assert(starts_with(rest + b, ent));
            } else {
                assert((a + b)[i] == b[i - a.len()]);
                assert(i == a.len());
                assert((a + b).skip(i) =~= b + Seq::<char>::empty());
                lemma_starts_with_concat(b, Seq::<char>::empty());
            }
        }
    }
}

/// The escape of a text is at least as long, and longer exactly when the
/// text holds a character that is escaped.
proof fn lemma_xml_escape_len(s: Seq<char>)
    ensures
        xml_escape_spec(s).len() >= s.len(),
        (exists|i: int| 0 <= i < s.len() && is_escaped_char(#[trigger] s[i])) ==> xml_escape_spec(s).len()
            > s.len(),
    decreases s.len(),
{
    reveal_strlit("&amp;");
    reveal_strlit("&lt;");
    reveal_strlit("&gt;");
    reveal_strlit("&quot;");
    reveal_strlit("&apos;");
    if s.len() > 0 {
        let p = s.drop_last();
        lemma_xml_escape_len(p);
        if exists|i: int| 0 <= i < s.len() && is_escaped_char(#[trigger] s[i]) {
            let i = choose|i: int| 0 <= i < s.len() && is_escaped_char(#[trigger] s[i]);
            if i < p.len() {
                assert(p[i] == s[i]);
            }
        }
    }
}

/// Escaping leaves a text unchanged exactly when it holds none of `&`,
/// `<`, `>`, `"`, `'`.
pub proof fn lemma_xml_escape_unchanged(s: Seq<char>)
    ensures
        (xml_escape_spec(s) == s) <==> (forall|i: int| 0 <= i < s.len() ==> !is_escaped_char(#[trigger] s[i])),
    decreases s.len(),
{
    lemma_xml_escape_len(s);
    if s.len() > 0 {
        let p = s.drop_last();
        lemma_xml_escape_unchanged(p);
        if forall|i: int| 0 <= i < s.len() ==> !is_escaped_char(#[trigger] s[i]) {
            assert forall|i: int| 0 <= i < p.len() implies !is_escaped_char(#[trigger] p[i]) by {
                assert(p[i] == s[i]);
            }
            assert(!is_escaped_char(s[s.len() - 1]));
            assert(s.last() == s[s.len() - 1]);
            assert(escape_char(s.last()) == seq![s.last()]);
            assert(xml_escape_spec(p) == p);
            assert(xml_escape_spec(s) == xml_escape_spec(p) + escape_char(s.last()));
            assert(xml_escape_spec(s) =~= s);
        } else {
            let i = choose|i: int| 0 <= i < s.len() && is_escaped_char(#[trigger] s[i]);
            assert(xml_escape_spec(s).len() > s.len());
            assert(xml_escape_spec(s) != s);
        }
    } else {
        assert(xml_escape_spec(s) =~= s);
    }
}

/// Trimmed text between the first `<tag>` and the next `</tag>`.
pub open spec fn element_text(xml: Seq<char>, tag: Seq<char>) -> Option<Seq<char>> {
    let open = "<"@ + tag + ">"@;
    let close = "</"@ + tag + ">"@;
    match find(xml, open) {
        None => None,
        Some(p) => {
            let start = p + open.len();
            match find(xml.skip(start), close) {
                None => None,
                Some(e) => Some(trim(xml.subrange(start, start + e))),
            }
        },
    }
}

/// Text of the first `<tag>` element of a SOAP response, trimmed.
pub fn extract_xml_text(xml: &str, tag: &str) -> (r: Option<String>)
    ensures
        opt_view(r) == element_text(xml@, tag@),
{
    let x = chars_of(xml);
    let mut open_s = String::new();
    append(&mut open_s, "<");
    append(&mut open_s, tag);
    append(&mut open_s, ">");
    let mut close_s = String::new();
    append(&mut close_s, "</");
    append(&mut close_s, tag);
    append(&mut close_s, ">");
    let open = chars_of(open_s.as_str());
    let close = chars_of(close_s.as_str());
    let p = match find_from_exec(&x, &open, 0) {
        Some(p) => p,
        None => return None,
    };
    proof {
        lemma_find_from_bounds(x@, open@, 0);
    }
    assert(p + open@.len() <= x.len());
    let start = p + open.len();
    let rest = slice_vec(&x, start, x.len());
    assert(rest@ == x@.skip(start as int));
    let e = match find_from_exec(&rest, &close, 0) {
        Some(e) => e,
        None => return None,
    };
    proof {
        lemma_find_from_bounds(rest@, close@, 0);
    }
    let text = slice_vec(&x, start, start + e);
    let t = trim_exec(&text);
    Some(string_of(&t))
}

/// A SOAP action to send to a renderer's AVTransport control URL.
#[derive(Debug, Clone, PartialEq, Eq)]
pub struct SoapRequest {
    pub action: String,
    pub body: String,
}

pub open spec fn is_request(r: SoapRequest, action: Seq<char>, args: Seq<char>) -> bool {
    r.action@ == action && r.body@ == soap_envelope_spec(action, args)
}

fn request(action: &str, args: &str) -> (r: SoapRequest)
    ensures
        is_request(r, action@, args@),
{
    SoapRequest { action: action.to_owned(), body: soap_envelope(action, args) }
}

pub open spec fn set_uri_args(uri: Seq<char>) -> Seq<char> {
    "<CurrentURI>"@ + xml_escape_spec(uri) + "</CurrentURI><CurrentURIMetaData></CurrentURIMetaData>"@
}

/// SetAVTransportURI: tell the renderer what media URI to prepare.
pub fn set_av_transport_uri_request(media_uri: &str) -> (r: SoapRequest)
    ensures
        is_request(r, "SetAVTransportURI"@, set_uri_args(media_uri@)),
{
    let mut args = String::new();
    append(&mut args, "<CurrentURI>");
    let escaped = xml_escape(media_uri);
    append(&mut args, escaped.as_str());
    append(&mut args, "</CurrentURI><CurrentURIMetaData></CurrentURIMetaData>");
    request("SetAVTransportURI", args.as_str())
}

/// Play: start playback at normal speed.
pub fn play_request() -> (r: SoapRequest)
    ensures
        is_request(r, "Play"@, "<Speed>1</Speed>"@),
{
    request("Play", "<Speed>1</Speed>")
}

/// Pause playback.
pub fn pause_request() -> (r: SoapRequest)
    ensures
        is_request(r, "Pause"@, ""@),
{
    request("Pause", "")
}

/// Stop playback.
pub fn stop_request() -> (r: SoapRequest)
    ensures
        is_request(r, "Stop"@, ""@),
{
    request("Stop", "")
}

/// GetTransportInfo: read the renderer's AVTransport state.
pub fn get_transport_info_request() -> (r: SoapRequest)
    ensures
        is_request(r, "GetTransportInfo"@, ""@),
{
    request("GetTransportInfo", "")
}

/// GetMediaInfo: read the renderer's current media URI.
pub fn get_media_info_request() -> (r: SoapRequest)
    ensures
        is_request(r, "GetMediaInfo"@, ""@),
{
    request("GetMediaInfo", "")
}

pub open spec fn play_mode_args(mode: Seq<char>) -> Seq<char> {
    "<NewPlayMode>"@ + xml_escape_spec(mode) + "</NewPlayMode>"@
}

/// SetPlayMode: ask for a renderer-side play mode.
pub fn set_play_mode_request(play_mode: &str) -> (r: SoapRequest)
    ensures
        is_request(r, "SetPlayMode"@, play_mode_args(play_mode@)),
{
    let mut args = String::new();
    append(&mut args, "<NewPlayMode>");
    let escaped = xml_escape(play_mode);
    append(&mut args, escaped.as_str());
    append(&mut args, "</NewPlayMode>");
    request("SetPlayMode", args.as_str())
}

pub open spec fn or_default(o: Option<Seq<char>>, d: Seq<char>) -> Seq<char> {
    match o {
        Some(v) => v,
        None => d,
    }
}

fn text_or(xml: &str, tag: &str, default: &str) -> (r: String)
    ensures
        r@ == or_default(element_text(xml@, tag@), default@),
{
    match extract_xml_text(xml, tag) {
        Some(v) => v,
        None => default.to_owned(),
    }
}

/// The transport state in a GetTransportInfo response; `UNKNOWN`, `UNKNOWN`
/// and `1` stand for missing elements.
pub fn transport_info_from_response(response: &str) -> (t: TransportInfo)
    ensures
        t.current_transport_state@ == or_default(
            element_text(response@, "CurrentTransportState"@),
            "UNKNOWN"@,
        ),
        t.current_transport_status@ == or_default(
            element_text(response@, "CurrentTransportStatus"@),
            "UNKNOWN"@,
        ),
        t.current_speed@ == or_default(element_text(response@, "CurrentSpeed"@), "1"@),
{
    TransportInfo {
        current_transport_state: text_or(response, "CurrentTransportState", "UNKNOWN"),
        current_transport_status: text_or(response, "CurrentTransportStatus", "UNKNOWN"),
        current_speed: text_or(response, "CurrentSpeed", "1"),
    }
}

/// The media URI in a GetMediaInfo response, empty when missing.
pub fn media_info_from_response(response: &str) -> (m: MediaInfo)
    ensures
        m.current_uri@ == or_default(element_text(response@, "CurrentURI"@), ""@),
{
    MediaInfo { current_uri: text_or(response, "CurrentURI", "") }
}

/// Steps of the play sequence: Stop, SetAVTransportURI, optional
/// SetPlayMode NORMAL, Play.
#[derive(Debug, Clone, Copy, PartialEq, Eq, Structural)]
pub enum PlayStep {
    Stop,
    SetUri,
    SetPlayMode,
    Play,
    Done,
    Failed,
}

/// A play sequence in progress: the caller sends `request()`, then reports
/// with `advance` whether the renderer accepted it.
#[derive(Debug, Clone)]
pub struct PlaySequence {
    pub uri: String,
    pub set_normal_mode: bool,
    pub step: PlayStep,
}

pub open spec fn playback_uri(media_uri: Seq<char>, loop_playback: bool, loop_uri: Option<Seq<char>>) -> Seq<
    char,
> {
    if loop_playback {
        match loop_uri {
            Some(u) => u,
            None => media_uri,
        }
    } else {
        media_uri
    }
}

/// Full play sequence: Stop (whatever its result), SetAVTransportURI with the
/// loop URI when looping and one is given, SetPlayMode NORMAL when not
/// looping (whatever its result), then Play.
pub fn play_media(media_uri: &str, loop_playback: bool, loop_media_uri: Option<&str>) -> (p:
    PlaySequence)
    ensures
        p.step == PlayStep::Stop,
        p.set_normal_mode == !loop_playback,
        p.uri@ == playback_uri(
            media_uri@,
            loop_playback,
            match loop_media_uri {
                Some(u) => Some(u@),
                None => None,
            },
        ),
{
    let uri = if loop_playback {
        match loop_media_uri {
            Some(u) => u,
            None => media_uri,
        }
    } else {
        media_uri
    };
    PlaySequence { uri: uri.to_owned(), set_normal_mode: !loop_playback, step: PlayStep::Stop }
}

/// Resume a renderer that stopped the current URI: SetAVTransportURI, then Play.
pub fn replay_media(media_uri: &str) -> (p: PlaySequence)
    ensures
        p.step == PlayStep::SetUri,
        !p.set_normal_mode,
        p.uri@ == media_uri@,
{
    PlaySequence { uri: media_uri.to_owned(), set_normal_mode: false, step: PlayStep::SetUri }
}

pub open spec fn next_step(step: PlayStep, set_normal_mode: bool, accepted: bool) -> PlayStep {
    match step {
        PlayStep::Stop => PlayStep::SetUri,
        PlayStep::SetUri => if !accepted {
            PlayStep::Failed
        } else if set_normal_mode {
            PlayStep::SetPlayMode
        } else {
            PlayStep::Play
        },
        PlayStep::SetPlayMode => PlayStep::Play,
        PlayStep::Play => if accepted {
            PlayStep::Done
        } else {
            PlayStep::Failed
        },
        PlayStep::Done => PlayStep::Done,
        PlayStep::Failed => PlayStep::Failed,
    }
}

impl PlaySequence {
    /// The request of the current step; none once the sequence has ended.
    pub fn request(&self) -> (r: Option<SoapRequest>)
        ensures
            match self.step {
                PlayStep::Stop => r matches Some(q) && is_request(q, "Stop"@, ""@),
                PlayStep::SetUri => r matches Some(q) && is_request(
                    q,
                    "SetAVTransportURI"@,
                    set_uri_args(self.uri@),
                ),
                PlayStep::SetPlayMode => r matches Some(q) && is_request(
                    q,
                    "SetPlayMode"@,
                    play_mode_args("NORMAL"@),
                ),
                PlayStep::Play => r matches Some(q) && is_request(q, "Play"@, "<Speed>1</Speed>"@),
                _ => r is None,
            },
    {
        match self.step {
            PlayStep::Stop => Some(stop_request()),
            PlayStep::SetUri => Some(set_av_transport_uri_request(self.uri.as_str())),
            PlayStep::SetPlayMode => Some(set_play_mode_request("NORMAL")),
            PlayStep::Play => Some(play_request()),
            _ => None,
        }
    }

    /// Move on after the renderer answered the current request.
    pub fn advance(&mut self, accepted: bool)
        ensures
            final(self).step == next_step(old(self).step, old(self).set_normal_mode, accepted),
            final(self).uri == old(self).uri,
            final(self).set_normal_mode == old(self).set_normal_mode,
    {
        self.step = match self.step {
            PlayStep::Stop => PlayStep::SetUri,
            PlayStep::SetUri => if !accepted {
                PlayStep::Failed
            } else if self.set_normal_mode {
                PlayStep::SetPlayMode
            } else {
                PlayStep::Play
            },
            PlayStep::SetPlayMode => PlayStep::Play,
            PlayStep::Play => if accepted {
                PlayStep::Done
            } else {
                PlayStep::Failed
            },
            PlayStep::Done => PlayStep::Done,
            PlayStep::Failed => PlayStep::Failed,
        };
    }

    pub fn is_finished(&self) -> (r: bool)
        ensures
            r == (self.step == PlayStep::Done || self.step == PlayStep::Failed),
    {
        match self.step {
            PlayStep::Done | PlayStep::Failed => true,
            _ => false,
        }
    }
}

/// The play sequence ends within four answers, whatever they are: Stop and
/// SetPlayMode failures are ignored, a refused SetAVTransportURI or Play ends
/// it as failed.
pub proof fn lemma_play_sequence_terminates(set_normal_mode: bool, a1: bool, a2: bool, a3: bool, a4: bool)
    ensures
        ({
            let s1 = next_step(PlayStep::Stop, set_normal_mode, a1);
            let s2 = next_step(s1, set_normal_mode, a2);
            let s3 = next_step(s2, set_normal_mode, a3);
            let s4 = next_step(s3, set_normal_mode, a4);
            &&& s1 == PlayStep::SetUri
            &&& (s4 == PlayStep::Done || s4 == PlayStep::Failed)
            &&& (s4 == PlayStep::Done <==> (a2 && (if set_normal_mode { a4 } else { a3 })))
        }),
{
}

} // verus!
