//! SSDP responses and UPnP device descriptions.
use vstd::prelude::*;
use vstd::string::StringSliceAdditionalSpecFns;
use vstd::utf8::*;
use crate::text::{
    append, ascii_lower, before_char, lines, lines_from, strip_all_prefix, strip_all_prefix_exec, strip_cr, chars_of, find, find_from, find_from_exec, index_of_char,
    lemma_find_from_bounds, opt_view, slice_vec, starts_with, starts_with_exec,
    string_of, strings_view, substring, to_ascii_lower, trim, trim_exec,
};
use crate::state::{PlaybackStatus, RendererDevice};

verus! {

broadcast use vstd::utf8::group_utf8_lib;

/// Multicast group of SSDP.
pub const SSDP_ADDR: &'static str = "239.255.255.250";

/// Port of SSDP.
pub const SSDP_PORT: u16 = 1900;

/// Seconds a renderer may wait before answering an M-SEARCH.
pub const MX: u8 = 5;

/// Search targets, asked one after the other.
pub const SEARCH_TARGETS: [&'static str; 3] = [
    "ssdp:all",
    "urn:schemas-upnp-org:device:MediaRenderer:1",
    "urn:schemas-upnp-org:device:MediaRenderer:2",
];

// ---------------------------------------------------------------------------
// Lines of an HTTP-like response
// ---------------------------------------------------------------------------

/// A header line whose name (ASCII case-insensitive) is `location`.
pub open spec fn is_location_line(l: Seq<char>) -> bool {
    starts_with(ascii_lower(l), "location:"@)
}

/// The value of the first `LOCATION:` header among `ls`, trimmed.
pub open spec fn first_location(ls: Seq<Seq<char>>) -> Option<Seq<char>>
    decreases ls.len(),
{
    if ls.len() == 0 {
        None
    } else if is_location_line(ls[0]) {
        Some(trim(ls[0].subrange(9, ls[0].len() as int)))
    } else {
        first_location(ls.drop_first())
    }
}

proof fn lemma_first_location_cons(l: Seq<char>, rest: Seq<Seq<char>>)
    ensures
        first_location(seq![l] + rest) == if is_location_line(l) {
            Some(trim(l.subrange(9, l.len() as int)))
        } else {
            first_location(rest)
        },
{
    assert((seq![l] + rest).drop_first() =~= rest);
    assert((seq![l] + rest)[0] == l);
}

fn strip_cr_exec(v: &[char], a: usize, b: usize) -> (r: usize)
    requires
        a <= b <= v@.len(),
    ensures
        a <= r <= b,
        v@.subrange(a as int, r as int) == strip_cr(v@.subrange(a as int, b as int)),
{
    if b > a && v[b - 1] == '\r' {
        assert(v@.subrange(a as int, b - 1) =~= v@.subrange(a as int, b as int).drop_last());
        b - 1
    } else {
        b
    }
}

/// The `LOCATION` header of an SSDP response, if any.
pub fn parse_location(response: &str) -> (r: Option<String>)
    ensures
        r matches Some(v) ==> first_location(lines(response@)) == Some(v@),
        r is None ==> first_location(lines(response@)) is None,
{
    let s = chars_of(response);
    let mut nl: Vec<char> = Vec::new();
    nl.push('\n');
    let prefix = chars_of("location:");
    proof {
        reveal_strlit("location:");
    }
    let mut i: usize = 0;
    while i < s.len()
        invariant
            i <= s@.len(),
            s@ == response@,
            nl@ == seq!['\n'],
            prefix@ == "location:"@,
            prefix@.len() == 9,
            first_location(lines(s@)) == first_location(lines_from(s@, i as int)),
        decreases s.len() - i,
    {
        proof {
            lemma_find_from_bounds(s@, nl@, i as int);
        }
        let (end, next) = match find_from_exec(&s, &nl, i) {
            Some(k) => (k, k + 1),
            None => (s.len(), s.len()),
        };
        let e = if next == s.len() && end == s.len() { end } else { strip_cr_exec(&s, i, end) };
        let line = slice_vec(&s, i, e);
        proof {
            let l = s@.subrange(i as int, e as int);
            assert(lines_from(s@, i as int) == seq![l] + lines_from(s@, next as int)) by {
                if next < s@.len() || end < s@.len() {
                } else {
                    assert(lines_from(s@, s@.len() as int) =~= Seq::<Seq<char>>::empty());
                    assert(seq![l] + Seq::<Seq<char>>::empty() =~= seq![l]);
                }
            }
            lemma_first_location_cons(l, lines_from(s@, next as int));
        }
        let lower = to_ascii_lower(&line);
        if starts_with_exec(&lower, &prefix) {
            proof {
                assert(ascii_lower(line@).len() == line@.len());
                assert(line@.len() >= 9);
            }
            let value = slice_vec(&line, 9, line.len());
            let t = trim_exec(&value);
            return Some(string_of(&t));
        }
        i = next;
    }
    assert(lines_from(s@, i as int) =~= Seq::<Seq<char>>::empty());
    None
}


// ---------------------------------------------------------------------------
// URLs
// ---------------------------------------------------------------------------

/// The host of an `http://` or `https://` URL: the part before the first `/`,
/// without a port.
pub open spec fn url_host_spec(u: Seq<char>) -> Option<Seq<char>> {
    let rest = if starts_with(u, "http://"@) {
        Some(u.skip(7))
    } else if starts_with(u, "https://"@) {
        Some(u.skip(8))
    } else {
        None
    };
    match rest {
        Some(r) => Some(before_char(before_char(r, '/'), ':')),
        None => None,
    }
}

/// The host of a URL is the text right after `http://` or `https://` up to
/// the first `/` or `:`, or to the end: it holds neither, and the URL goes
/// on with one of them or ends there. A URL with another scheme has none.
pub proof fn lemma_url_host(u: Seq<char>)
    ensures
        url_host_spec(u) is Some <==> (starts_with(u, "http://"@) || starts_with(u, "https://"@)),
        url_host_spec(u) matches Some(h) ==> ({
            let k: int = if starts_with(u, "http://"@) { 7 } else { 8 };
            &&& !h.contains('/')
            &&& !h.contains(':')
            &&& k + h.len() <= u.len()
            &&& u.subrange(k, k + h.len()) == h
            &&& (k + h.len() == u.len() || u[k + h.len()] == '/' || u[k + h.len()] == ':')
        }),
{
    reveal_strlit("http://");
    reveal_strlit("https://");
    if starts_with(u, "http://"@) || starts_with(u, "https://"@) {
        let k: int = if starts_with(u, "http://"@) { 7 } else { 8 };
        let r = u.skip(k);
        let b = before_char(r, '/');
        let h = before_char(b, ':');
        crate::text::lemma_before_char(r, '/');
        crate::text::lemma_before_char(b, ':');
        assert(url_host_spec(u) == Some(h));
        assert forall|i: int| 0 <= i < h.len() implies h[i] != '/' by {
            assert(h[i] == b[i]);
            assert(b.contains(b[i]) || b[i] != '/');
        }
        assert(!h.contains('/'));
        assert forall|i: int| 0 <= i < h.len() implies u.subrange(k, k + h.len())[i] == h[i] by {
            assert(h[i] == b[i]);
            assert(b[i] == r[i]);
        }
        assert(u.subrange(k, k + h.len()) =~= h);
        if h.len() < b.len() {
            assert(b[h.len() as int] == r[h.len() as int]);
        } else if b.len() < r.len() {
            assert(r[b.len() as int] == u[k + b.len()]);
        }
    }
}

/// Host part of a URL, if the URL has an `http` or `https` scheme.
pub fn url_host(url: &str) -> (r: Option<String>)
    ensures
        opt_view(r) == url_host_spec(url@),
{
    let u = chars_of(url);
    let http = chars_of("http://");
    let https = chars_of("https://");
    proof {
        reveal_strlit("http://");
        reveal_strlit("https://");
    }
    let rest = if starts_with_exec(&u, &http) {
        slice_vec(&u, 7, u.len())
    } else if starts_with_exec(&u, &https) {
        slice_vec(&u, 8, u.len())
    } else {
        return None;
    };
    let slash = index_of_char(&rest, '/');
    let host_port = slice_vec(&rest, 0, slash);
    let colon = index_of_char(&host_port, ':');
    proof {
        assert(host_port@ == before_char(rest@, '/'));
    }
    Some(substring(&host_port, 0, colon))
}

/// Position of the first byte `x` in `b` at or after `i`.
pub open spec fn find_byte_from(b: Seq<u8>, x: u8, i: int) -> Option<int>
    decreases b.len() - i,
{
    if i < 0 || i >= b.len() {
        None
    } else if b[i] == x {
        Some(i)
    } else {
        find_byte_from(b, x, i + 1)
    }
}

/// The bytes of a URL up to (not including) the first `/` after its eighth byte.
pub open spec fn base_url_bytes(b: Seq<u8>) -> Seq<u8> {
    match find_byte_from(b, 0x2f, 8) {
        Some(k) => b.take(k),
        None => b,
    }
}

pub open spec fn base_url_spec(u: Seq<char>) -> Seq<char> {
    decode_utf8(base_url_bytes(encode_utf8(u)))
}

/// Whether byte 8 of the URL starts a character, so that the scheme part can
/// be skipped by byte position.
pub open spec fn base_url_defined(u: Seq<char>) -> bool {
    is_char_boundary(encode_utf8(u), 8)
}

/// Scheme and authority of a URL: `http://192.168.1.5:49152/description.xml`
/// gives `http://192.168.1.5:49152`.
pub fn base_url(url: &str) -> (r: String)
    requires
        base_url_defined(url@),
    ensures
        r@ == base_url_spec(url@),
{
    let b = url.as_bytes();
    proof {
        assert(url.spec_bytes() == encode_utf8(url@));
        assert(8 <= b@.len());
    }
    let mut i: usize = 8;
    while i < b.len() && b[i] != 0x2f
        invariant
            8 <= i <= b@.len(),
            b@ == encode_utf8(url@),
            find_byte_from(b@, 0x2f, 8) == find_byte_from(b@, 0x2f, i as int),
        decreases b.len() - i,
    {
        i += 1;
    }
    if i == b.len() {
        assert(find_byte_from(b@, 0x2f, i as int) is None);
        url.to_owned()
    } else {
        proof {
            assert(!is_continuation_byte(b@[i as int]));
            assert(is_char_boundary(b@, i as int));
        }
        let (left, _) = url.split_at(i);
        proof {
            assert(left.spec_bytes() == encode_utf8(left@));
            assert(decode_utf8(encode_utf8(left@)) == left@);
        }
        left.to_owned()
    }
}

// ---------------------------------------------------------------------------
// Device description XML
// ---------------------------------------------------------------------------

/// What the regular expression `pattern` captures in its first group at its
/// leftmost match in `haystack`; `None` when the pattern does not compile,
/// does not match, or the group took no part in the match.
pub uninterp spec fn regex_first_group(pattern: Seq<char>, haystack: Seq<char>) -> Option<Seq<char>>;

/// Calls `regex::Regex::new` on `pattern`, then `Regex::captures` on
/// `haystack` and `Captures::get(1)`.  Claims only that the result is the
/// named function of the pattern and the haystack; the regex semantics are not
/// stated.
#[verifier::external_body]
fn regex_first_group_of(pattern: &str, haystack: &str) -> (r: Option<String>)
    ensures
        opt_view(r) == regex_first_group(pattern@, haystack@),
{
    let re = regex::Regex::new(pattern).ok()?;
    let caps = re.captures(haystack)?;
    caps.get(1).map(|m| m.as_str().to_string())
}

/// The pattern that matches `<tag>text</tag>`, with an optional namespace
/// prefix on either tag, capturing text without `<`.
pub open spec fn xml_tag_pattern(tag: Seq<char>) -> Seq<char> {
    "<(?:\\w+:)?"@ + tag + ">([^<]*)</(?:\\w+:)?"@ + tag + ">"@
}

pub open spec fn extract_xml_text_spec(xml: Seq<char>, tag: Seq<char>) -> Option<Seq<char>> {
    regex_first_group(xml_tag_pattern(tag), xml)
}

/// Text of the first `<tag>…</tag>` (or `<ns:tag>…</ns:tag>`) element.
pub fn extract_xml_text(xml: &str, tag: &str) -> (r: Option<String>)
    ensures
        opt_view(r) == extract_xml_text_spec(xml@, tag@),
{
    let mut pattern = String::new();
    append(&mut pattern, "<(?:\\w+:)?");
    append(&mut pattern, tag);
    append(&mut pattern, ">([^<]*)</(?:\\w+:)?");
    append(&mut pattern, tag);
    append(&mut pattern, ">");
    regex_first_group_of(pattern.as_str(), xml)
}

/// The trimmed text of the first `<controlURL>` after the first mention of
/// `AVTransport`.
pub open spec fn av_control_path(xml: Seq<char>) -> Option<Seq<char>> {
    match find(xml, "AVTransport"@) {
        None => None,
        Some(p) => {
            let after = xml.skip(p);
            match find(after, "<controlURL>"@) {
                None => None,
                Some(a) => {
                    let start = a + "<controlURL>"@.len();
                    match find(after.skip(start), "</controlURL>"@) {
                        None => None,
                        Some(e) => Some(trim(after.subrange(start, start + e))),
                    }
                },
            }
        },
    }
}

/// An absolute control URL from a base URL and a control path.
pub open spec fn join_control_url(base: Seq<char>, path: Seq<char>) -> Seq<char> {
    if starts_with(path, "http"@) {
        path
    } else if starts_with(path, "/"@) {
        base + path
    } else {
        base + "/"@ + path
    }
}

/// The base against which control paths are resolved: `URLBase` when the
/// description has one, else the scheme and authority of `location`.
pub open spec fn description_base(xml: Seq<char>, location: Seq<char>) -> Seq<char> {
    match extract_xml_text_spec(xml, "URLBase"@) {
        Some(b) => b,
        None => base_url_spec(location),
    }
}

pub open spec fn find_av_transport_url_spec(xml: Seq<char>, location: Seq<char>) -> Option<
    Seq<char>,
> {
    match av_control_path(xml) {
        None => None,
        Some(path) => Some(join_control_url(description_base(xml, location), path)),
    }
}

/// The inputs on which resolving the control URL needs the base of `location`.
pub open spec fn needs_location_base(xml: Seq<char>) -> bool {
    av_control_path(xml) is Some && extract_xml_text_spec(xml, "URLBase"@) is None
}

/// Trimmed text of the first `<controlURL>` after `AVTransport`.
fn av_control_path_exec(x: &[char]) -> (r: Option<Vec<char>>)
    ensures
        match r {
            Some(v) => av_control_path(x@) == Some(v@),
            None => av_control_path(x@) is None,
        },
{
    let marker = chars_of("AVTransport");
    let open = chars_of("<controlURL>");
    let close = chars_of("</controlURL>");
    let p = match find_from_exec(x, &marker, 0) {
        Some(p) => p,
        None => return None,
    };
    proof {
        lemma_find_from_bounds(x@, marker@, 0);
    }
    let after = slice_vec(x, p, x.len());
    assert(after@ == x@.skip(p as int));
    let a = match find_from_exec(&after, &open, 0) {
        Some(a) => a,
        None => return None,
    };
    proof {
        lemma_find_from_bounds(after@, open@, 0);
    }
    let start = a + open.len();
    let rest = slice_vec(&after, start, after.len());
    assert(rest@ == after@.skip(start as int));
    let e = match find_from_exec(&rest, &close, 0) {
        Some(e) => e,
        None => return None,
    };
    proof {
        lemma_find_from_bounds(rest@, close@, 0);
    }
    let path = slice_vec(&after, start, start + e);
    Some(trim_exec(&path))
}

/// Absolute AVTransport control URL from a device description.
pub fn find_av_transport_url(xml: &str, location: &str) -> (r: Option<String>)
    requires
        needs_location_base(xml@) ==> base_url_defined(location@),
    ensures
        opt_view(r) == find_av_transport_url_spec(xml@, location@),
{
    let url_base = extract_xml_text(xml, "URLBase");
    let x = chars_of(xml);
    let path = match av_control_path_exec(&x) {
        Some(p) => p,
        None => return None,
    };
    let base = match url_base {
        Some(b) => b,
        None => base_url(location),
    };
    let http = chars_of("http");
    let slash = chars_of("/");
    if starts_with_exec(&path, &http) {
        Some(string_of(&path))
    } else {
        let mut out = base;
        if !starts_with_exec(&path, &slash) {
            append(&mut out, "/");
        }
        let p = string_of(&path);
        append(&mut out, p.as_str());
        Some(out)
    }
}

/// The description fields of a renderer: UUID, friendly name, host, control URL.
pub open spec fn described_uuid(body: Seq<char>, location: Seq<char>) -> Seq<char> {
    match extract_xml_text_spec(body, "UDN"@) {
        Some(u) => strip_all_prefix(u, "uuid:"@),
        None => location,
    }
}

pub open spec fn described_name(body: Seq<char>) -> Seq<char> {
    match extract_xml_text_spec(body, "friendlyName"@) {
        Some(n) => n,
        None => "Unknown"@,
    }
}

pub open spec fn described_ip(location: Seq<char>) -> Seq<char> {
    match url_host_spec(location) {
        Some(h) => h,
        None => "unknown"@,
    }
}

pub open spec fn described_control_url(body: Seq<char>, location: Seq<char>) -> Seq<char> {
    match find_av_transport_url_spec(body, location) {
        Some(u) => u,
        None => base_url_spec(location) + "/upnp/control/AVTransport"@,
    }
}

/// The inputs on which building a device from a description needs the base
/// of `location` (no control path, or a relative one without `URLBase`).
pub open spec fn description_uses_location_base(body: Seq<char>) -> bool {
    av_control_path(body) is None || extract_xml_text_spec(body, "URLBase"@) is None
}

/// The renderer that a device description at `location` describes, idle and
/// with nothing playing.
pub fn device_from_description(body: &str, location: &str) -> (d: RendererDevice)
    requires
        description_uses_location_base(body@) ==> base_url_defined(location@),
    ensures
        d.uuid@ == described_uuid(body@, location@),
        d.name@ == described_name(body@),
        d.ip@ == described_ip(location@),
        d.av_transport_url@ == described_control_url(body@, location@),
        d.alias is None,
        d.status == PlaybackStatus::Idle,
        d.current_media is None,
        !d.loop_playback,
{
    let uuid = match extract_xml_text(body, "UDN") {
        Some(u) => {
            let uc = chars_of(u.as_str());
            let prefix = chars_of("uuid:");
            let stripped = strip_all_prefix_exec(&uc, &prefix);
            string_of(&stripped)
        },
        None => location.to_owned(),
    };
    let name = match extract_xml_text(body, "friendlyName") {
        Some(n) => n,
        None => "Unknown".to_owned(),
    };
    let ip = match url_host(location) {
        Some(h) => h,
        None => "unknown".to_owned(),
    };
    let av_transport_url = match find_av_transport_url(body, location) {
        Some(u) => u,
        None => {
            let mut u = base_url(location);
            append(&mut u, "/upnp/control/AVTransport");
            u
        },
    };
    RendererDevice {
        uuid,
        name,
        alias: None,
        ip,
        av_transport_url,
        status: PlaybackStatus::Idle,
        current_media: None,
        loop_playback: false,
    }
}

/// The renderer that a description at `location` describes, or `None` when
/// the control URL would have to be resolved against a location whose eighth
/// byte does not start a character.
pub fn describe_renderer(body: &str, location: &str) -> (r: Option<RendererDevice>)
    ensures
        r is None <==> (description_uses_location_base(body@) && !base_url_defined(location@)),
        r matches Some(d) ==> {
            &&& d.uuid@ == described_uuid(body@, location@)
            &&& d.name@ == described_name(body@)
            &&& d.ip@ == described_ip(location@)
            &&& d.av_transport_url@ == described_control_url(body@, location@)
            &&& d.alias is None
            &&& d.status == PlaybackStatus::Idle
            &&& d.current_media is None
            &&& !d.loop_playback
        },
{
    let boundary = location.is_char_boundary(8);
    proof {
        assert(location.spec_bytes() == encode_utf8(location@));
    }
    if !boundary {
        let x = chars_of(body);
        let uses_base = match av_control_path_exec(&x) {
            None => true,
            Some(_) => extract_xml_text(body, "URLBase").is_none(),
        };
        if uses_base {
            return None;
        }
    }
    Some(device_from_description(body, location))
}

/// The text of an SSDP M-SEARCH request for `target`.
pub open spec fn m_search_request_spec(target: Seq<char>) -> Seq<char> {
    "M-SEARCH * HTTP/1.1\r\nHOST: 239.255.255.250:1900\r\nMAN: \"ssdp:discover\"\r\nMX: 5\r\nST: "@
        + target + "\r\n\r\n"@
}

/// SSDP M-SEARCH request asking for `target`.
pub fn m_search_request(target: &str) -> (r: String)
    ensures
        r@ == m_search_request_spec(target@),
{
    let mut r = String::new();
    append(
        &mut r,
        "M-SEARCH * HTTP/1.1\r\nHOST: 239.255.255.250:1900\r\nMAN: \"ssdp:discover\"\r\nMX: 5\r\nST: ",
    );
    append(&mut r, target);
    append(&mut r, "\r\n\r\n");
    r
}

/// `locations` with `found` appended, skipping those already present, in order.
pub open spec fn add_unique(locations: Seq<Seq<char>>, found: Seq<Seq<char>>) -> Seq<Seq<char>>
    decreases found.len(),
{
    if found.len() == 0 {
        locations
    } else {
        let l = found[0];
        add_unique(
            if locations.contains(l) {
                locations
            } else {
                locations.push(l)
            },
            found.drop_first(),
        )
    }
}


/// Append the locations of `found` that are not yet in `locations`.
pub fn add_unique_locations(locations: &mut Vec<String>, found: &[String])
    ensures
        strings_view(final(locations)@) == add_unique(strings_view(old(locations)@), strings_view(found@)),
{
    let ghost fv = strings_view(found@);
    assert(fv.skip(0) =~= fv);
    let mut i: usize = 0;
    while i < found.len()
        invariant
            i <= found@.len(),
            fv == strings_view(found@),
            add_unique(strings_view(old(locations)@), fv) == add_unique(strings_view(locations@), fv.skip(i as int)),
        decreases found.len() - i,
    {
        assert(fv.skip(i as int)[0] == found@[i as int]@);
        assert(fv.skip(i as int).drop_first() =~= fv.skip(i + 1));
        let mut present = false;
        let mut j: usize = 0;
        while j < locations.len()
            invariant
                j <= locations@.len(),
                i < found@.len(),
                present == exists|k: int| 0 <= k < j && strings_view(locations@)[k] == found@[i as int]@,
            decreases locations.len() - j,
        {
            assert(strings_view(locations@)[j as int] == locations@[j as int]@);
            if crate::text::str_eq(locations[j].as_str(), found[i].as_str()) {
                present = true;
            }
            j += 1;
        }
        let ghost before = strings_view(locations@);
        if !present {
            locations.push(found[i].clone());
            assert(strings_view(locations@) =~= before.push(found@[i as int]@));
        }
        i += 1;
    }
    assert(fv.skip(i as int) =~= Seq::<Seq<char>>::empty());
}

/// The locations that the responses to one search name, in order.
pub open spec fn response_locations(responses: Seq<Seq<char>>) -> Seq<Seq<char>>
    decreases responses.len(),
{
    if responses.len() == 0 {
        seq![]
    } else {
        let r = response_locations(responses.drop_last());
        match first_location(lines(responses.last())) {
            Some(l) => r.push(l),
            None => r,
        }
    }
}

/// The distinct locations that the SSDP responses name, in the order
/// first named.
pub fn collect_locations(responses: &[String]) -> (r: Vec<String>)
    ensures
        strings_view(r@) == add_unique(Seq::empty(), response_locations(strings_view(responses@))),
{
    let mut found: Vec<String> = Vec::new();
    let mut i: usize = 0;
    while i < responses.len()
        invariant
            i <= responses@.len(),
            strings_view(found@) == response_locations(strings_view(responses@).take(i as int)),
        decreases responses.len() - i,
    {
        let ghost before = strings_view(found@);
        assert(strings_view(responses@).take(i + 1).drop_last() =~= strings_view(responses@).take(i as int));
        assert(strings_view(responses@).take(i + 1).last() == responses@[i as int]@);
        match parse_location(responses[i].as_str()) {
            Some(l) => {
                found.push(l);
                assert(strings_view(found@) =~= before.push(found@.last()@));
            },
            None => {},
        }
        i += 1;
    }
    assert(strings_view(responses@).take(i as int) =~= strings_view(responses@));
    let mut locations: Vec<String> = Vec::new();
    assert(strings_view(locations@) =~= Seq::<Seq<char>>::empty());
    add_unique_locations(&mut locations, &found);
    locations
}

/// Pause before retry `attempt + 1` of fetching a description: 200 ms,
/// then 400 ms; none after the last of three attempts.
pub fn description_retry_delay_ms(attempt: u32) -> (r: Option<u64>)
    ensures
        attempt == 0 ==> r == Some(200u64),
        attempt == 1 ==> r == Some(400u64),
        attempt >= 2 ==> r is None,
{
    if attempt == 0 {
        Some(200)
    } else if attempt == 1 {
        Some(400)
    } else {
        None
    }
}

/// Adding locations never makes one occur twice, and keeps every location
/// that was known or found.
pub proof fn lemma_add_unique(locations: Seq<Seq<char>>, found: Seq<Seq<char>>)
    requires
        locations.no_duplicates(),
    ensures
        add_unique(locations, found).no_duplicates(),
        forall|l: Seq<char>| locations.contains(l) || found.contains(l) ==> #[trigger] add_unique(locations, found).contains(l),
        forall|l: Seq<char>| #[trigger] add_unique(locations, found).contains(l) ==> locations.contains(l) || found.contains(l),
    decreases found.len(),
{
    if found.len() > 0 {
        let l0 = found[0];
        let next = if locations.contains(l0) {
            locations
        } else {
            locations.push(l0)
        };
        assert(next.no_duplicates()) by {
            if !locations.contains(l0) {
                assert forall|a: int, b: int| 0 <= a < next.len() && 0 <= b < next.len() && a != b implies next[a] != next[b] by {
                    if a < locations.len() && b < locations.len() {
                    } else if a < locations.len() {
                        assert(next[b] == l0);
                        assert(next[a] == locations[a]);
                    } else {
                        assert(next[a] == l0);
                        assert(next[b] == locations[b]);
                    }
                }
            }
        }
        lemma_add_unique(next, found.drop_first());
        assert forall|l: Seq<char>| locations.contains(l) || found.contains(l) implies #[trigger] add_unique(locations, found).contains(l) by {
            if locations.contains(l) {
                let k = choose|k: int| 0 <= k < locations.len() && locations[k] == l;
                assert(next[k] == l);
            } else {
                let k = choose|k: int| 0 <= k < found.len() && found[k] == l;
                if k == 0 {
                    if !locations.contains(l0) {
                        assert(next[locations.len() as int] == l);
                    }
                } else {
                    assert(found.drop_first()[k - 1] == l);
                }
            }
        }
        assert forall|l: Seq<char>| #[trigger] add_unique(locations, found).contains(l) implies locations.contains(l) || found.contains(l) by {
            if next.contains(l) && !locations.contains(l) {
                let k = choose|k: int| 0 <= k < next.len() && next[k] == l;
                if k < locations.len() {
                    assert(next[k] == locations[k]);
                }
                assert(found[0] == l);
            }
            if found.drop_first().contains(l) {
                let k = choose|k: int| 0 <= k < found.drop_first().len() && found.drop_first()[k] == l;
                assert(found[k + 1] == l);
            }
        }
    }
}

} // verus!
