//! The list of renderers: merging discovery results, and the changes that
//! API requests make to one device.
use vstd::prelude::*;
use crate::api::{alias_outcome, error_response, is_error, normalize_device_alias, ApiError, STATUS_NOT_FOUND};
use crate::state::{PlaybackStatus, RendererDevice};
use crate::text::{append, opt_view, str_eq};

verus! {

/// Position of the first device with the UUID, at or after `i`.
pub open spec fn first_uuid_from(s: Seq<RendererDevice>, u: Seq<char>, i: int) -> Option<int>
    decreases s.len() - i,
{
    if i < 0 || i >= s.len() {
        None
    } else if s[i].uuid@ == u {
        Some(i)
    } else {
        first_uuid_from(s, u, i + 1)
    }
}

/// Position of the first device with the UUID.
pub open spec fn first_with_uuid(s: Seq<RendererDevice>, u: Seq<char>) -> Option<int> {
    first_uuid_from(s, u, 0)
}

/// Some device has the UUID.
pub open spec fn has_uuid(s: Seq<RendererDevice>, u: Seq<char>) -> bool {
    exists|i: int| 0 <= i < s.len() && (#[trigger] s[i]).uuid@ == u
}

/// The search from `i` finds the first device with the UUID at or after
/// `i`, or tells that there is none.
pub proof fn lemma_first_uuid_from(s: Seq<RendererDevice>, u: Seq<char>, i: int)
    requires
        0 <= i,
    ensures
        first_uuid_from(s, u, i) matches Some(k) ==> i <= k < s.len() && s[k].uuid@ == u && forall|j: int|
            i <= j < k ==> (#[trigger] s[j]).uuid@ != u,
        first_uuid_from(s, u, i) is None ==> forall|j: int| i <= j < s.len() ==> (#[trigger] s[j]).uuid@ != u,
    decreases s.len() - i,
{
    if i < s.len() && s[i].uuid@ != u {
        lemma_first_uuid_from(s, u, i + 1);
    }
}

/// Position of the first device with the UUID.
pub fn find_device_index(devices: &[RendererDevice], uuid: &str) -> (r: Option<usize>)
    ensures
        r matches Some(i) ==> first_with_uuid(devices@, uuid@) == Some(i as int),
        r is None ==> first_with_uuid(devices@, uuid@) is None,
        r matches Some(i) ==> i < devices@.len() && devices@[i as int].uuid@ == uuid@,
        r is None <==> !has_uuid(devices@, uuid@),
{
    proof {
        lemma_first_uuid_from(devices@, uuid@, 0);
    }
    let mut i: usize = 0;
    while i < devices.len()
        invariant
            i <= devices@.len(),
            first_with_uuid(devices@, uuid@) == first_uuid_from(devices@, uuid@, i as int),
            forall|j: int| 0 <= j < i ==> (#[trigger] devices@[j]).uuid@ != uuid@,
        decreases devices.len() - i,
    {
        if str_eq(devices[i].uuid.as_str(), uuid) {
            return Some(i);
        }
        i += 1;
    }
    None
}

/// The devices in order, each kept only where its UUID first occurs.
pub open spec fn unique_by_uuid(s: Seq<RendererDevice>) -> Seq<RendererDevice>
    decreases s.len(),
{
    if s.len() == 0 {
        seq![]
    } else {
        let d = unique_by_uuid(s.drop_last());
        if has_uuid(d, s.last().uuid@) {
            d
        } else {
            d.push(s.last())
        }
    }
}

/// Keep the first device of each UUID, in the order found: the discovered
/// devices without duplicates.
pub fn dedupe_devices_by_uuid(devices: Vec<RendererDevice>) -> (r: Vec<RendererDevice>)
    ensures
        r@ == unique_by_uuid(devices@),
{
    let mut out: Vec<RendererDevice> = Vec::new();
    let mut i: usize = 0;
    while i < devices.len()
        invariant
            i <= devices@.len(),
            out@ == unique_by_uuid(devices@.take(i as int)),
        decreases devices.len() - i,
    {
        let seen = find_device_index(&out, devices[i].uuid.as_str()).is_some();
        assert(devices@.take(i + 1).drop_last() =~= devices@.take(i as int));
        assert(devices@.take(i + 1).last() == devices@[i as int]);
        if !seen {
            out.push(devices[i].duplicate());
        }
        i += 1;
    }
    assert(devices@.take(devices@.len() as int) =~= devices@);
    out
}

/// After removing duplicates no UUID occurs twice, every UUID of the input
/// still occurs, and each kept device is the first of its UUID in the input.
pub proof fn lemma_unique_by_uuid(s: Seq<RendererDevice>)
    ensures
        forall|i: int, j: int|
            0 <= i < j < unique_by_uuid(s).len() ==> (#[trigger] unique_by_uuid(s)[i]).uuid@
                != (#[trigger] unique_by_uuid(s)[j]).uuid@,
        forall|i: int| 0 <= i < s.len() ==> has_uuid(unique_by_uuid(s), #[trigger] s[i].uuid@),
        forall|i: int|
            #![trigger unique_by_uuid(s)[i]]
            0 <= i < unique_by_uuid(s).len() ==> exists|k: int|
                0 <= k < s.len() && s[k] == unique_by_uuid(s)[i] && !has_uuid(s.take(k), s[k].uuid@),
    decreases s.len(),
{
    if s.len() > 0 {
        let p = s.drop_last();
        lemma_unique_by_uuid(p);
        let d = unique_by_uuid(p);
        assert forall|i: int| 0 <= i < s.len() implies has_uuid(unique_by_uuid(s), #[trigger] s[i].uuid@) by {
            if i < s.len() - 1 {
                assert(p[i] == s[i]);
                assert(has_uuid(d, p[i].uuid@));
                let j = choose|j: int| 0 <= j < d.len() && (#[trigger] d[j]).uuid@ == p[i].uuid@;
                if !has_uuid(d, s.last().uuid@) {
                    assert(d.push(s.last())[j] == d[j]);
                }
            } else {
                if !has_uuid(d, s.last().uuid@) {
                    assert(d.push(s.last())[d.len() as int] == s.last());
                }
            }
        }
        assert forall|i: int|
            #![trigger unique_by_uuid(s)[i]]
            0 <= i < unique_by_uuid(s).len() implies exists|k: int|
                0 <= k < s.len() && s[k] == unique_by_uuid(s)[i] && !has_uuid(s.take(k), s[k].uuid@) by {
            if i < d.len() {
                let k = choose|k: int| 0 <= k < p.len() && p[k] == d[i] && !has_uuid(p.take(k), p[k].uuid@);
                assert(p.take(k) =~= s.take(k));
                assert(s[k] == p[k]);
                if !has_uuid(d, s.last().uuid@) {
                    assert(d.push(s.last())[i] == d[i]);
                }
            } else {
                let k = s.len() - 1;
                assert(s.take(k) =~= p);
                assert(unique_by_uuid(s)[i] == s.last());
                if has_uuid(p, s.last().uuid@) {
                    let m = choose|m: int| 0 <= m < p.len() && (#[trigger] p[m]).uuid@ == s.last().uuid@;
                    assert(has_uuid(d, p[m].uuid@));
                }
            }
        }
    }
}

/// The AVTransport control URL of a device, or why there is none.
pub fn resolve_av_url(devices: &[RendererDevice], uuid: &str) -> (r: Result<String, String>)
    ensures
        match first_with_uuid(devices@, uuid@) {
            Some(i) => r matches Ok(u) && u@ == devices@[i].av_transport_url@,
            None => r matches Err(e) && e@ == "Device not found: "@ + uuid@,
        },
{
    match find_device_index(devices, uuid) {
        Some(i) => Ok(devices[i].av_transport_url.clone()),
        None => {
            let mut m = "Device not found: ".to_string();
            append(&mut m, uuid);
            Err(m)
        },
    }
}

/// The device with its status changed.
pub open spec fn with_status(d: RendererDevice, status: PlaybackStatus) -> RendererDevice {
    RendererDevice { status, ..d }
}

/// The first device with the UUID changed by `f`; the others unchanged.
pub open spec fn update_first(
    s: Seq<RendererDevice>,
    u: Seq<char>,
    f: spec_fn(RendererDevice) -> RendererDevice,
) -> Seq<RendererDevice> {
    match first_with_uuid(s, u) {
        Some(i) => s.update(i, f(s[i])),
        None => s,
    }
}

/// Set the playback status of the device with the UUID (the first one);
/// whether there was one.
pub fn set_device_status(devices: &mut Vec<RendererDevice>, uuid: &str, status: PlaybackStatus) -> (found: bool)
    ensures
        found == has_uuid(old(devices)@, uuid@),
        final(devices)@ == update_first(old(devices)@, uuid@, |d: RendererDevice| with_status(d, status)),
{
    match find_device_index(devices, uuid) {
        Some(i) => {
            let mut d = devices[i].duplicate();
            d.status = status;
            devices.set(i, d);
            true
        },
        None => false,
    }
}

/// The device playing a media file.
pub open spec fn playing(d: RendererDevice, media: Option<String>) -> RendererDevice {
    RendererDevice { status: PlaybackStatus::Playing, current_media: media, ..d }
}

/// Record that the device with the UUID now plays the media file.
pub fn mark_playing(devices: &mut Vec<RendererDevice>, uuid: &str, media: String) -> (found: bool)
    ensures
        found == has_uuid(old(devices)@, uuid@),
        final(devices)@ == update_first(old(devices)@, uuid@, |d: RendererDevice| playing(d, Some(media))),
{
    match find_device_index(devices, uuid) {
        Some(i) => {
            let mut d = devices[i].duplicate();
            d.status = PlaybackStatus::Playing;
            d.current_media = Some(media);
            devices.set(i, d);
            true
        },
        None => false,
    }
}

/// The device with its loop setting changed.
pub open spec fn with_loop(d: RendererDevice, loop_playback: bool) -> RendererDevice {
    RendererDevice { loop_playback, ..d }
}

/// Set whether the device with the UUID loops its media.
pub fn set_device_loop(devices: &mut Vec<RendererDevice>, uuid: &str, loop_playback: bool) -> (found: bool)
    ensures
        found == has_uuid(old(devices)@, uuid@),
        final(devices)@ == update_first(old(devices)@, uuid@, |d: RendererDevice| with_loop(d, loop_playback)),
{
    match find_device_index(devices, uuid) {
        Some(i) => {
            let mut d = devices[i].duplicate();
            d.loop_playback = loop_playback;
            devices.set(i, d);
            true
        },
        None => false,
    }
}

/// Whether the device with the UUID loops its media.
pub fn get_device_loop(devices: &[RendererDevice], uuid: &str) -> (r: Result<bool, ApiError>)
    ensures
        match first_with_uuid(devices@, uuid@) {
            Some(i) => r == Ok::<bool, ApiError>(devices@[i].loop_playback),
            None => r matches Err(e) && is_error(e, STATUS_NOT_FOUND, "Device not found"@),
        },
{
    match find_device_index(devices, uuid) {
        Some(i) => Ok(devices[i].loop_playback),
        None => Err(error_response(STATUS_NOT_FOUND, "Device not found".to_string())),
    }
}

/// The device with its alias changed.
pub open spec fn with_alias(d: RendererDevice, alias: Option<String>) -> RendererDevice {
    RendererDevice { alias, ..d }
}

/// Set or clear the alias of a device: the requested alias is normalised
/// first (its errors come first), then the device is looked up.
pub fn set_device_alias(devices: &mut Vec<RendererDevice>, uuid: &str, alias: Option<String>) -> (r: Result<
    RendererDevice,
    ApiError,
>)
    ensures
        match alias_outcome(opt_view(alias)) {
            Err(m) => r matches Err(e) && is_error(e, crate::api::STATUS_BAD_REQUEST, m) && final(devices)@
                == old(devices)@,
            Ok(a) => match first_with_uuid(old(devices)@, uuid@) {
                None => r matches Err(e) && is_error(e, STATUS_NOT_FOUND, "Device not found: "@ + uuid@)
                    && final(devices)@ == old(devices)@,
                Some(i) => r matches Ok(d) && opt_view(d.alias) == a && d == final(devices)@[i]
                    && final(devices)@ == old(devices)@.update(i, with_alias(old(devices)@[i], d.alias)),
            },
        },
{
    let normalized = match normalize_device_alias(alias) {
        Err(e) => return Err(e),
        Ok(a) => a,
    };
    match find_device_index(devices, uuid) {
        Some(i) => {
            let mut d = devices[i].duplicate();
            d.alias = normalized;
            let copy = d.duplicate();
            devices.set(i, d);
            Ok(copy)
        },
        None => {
            let mut m = "Device not found: ".to_string();
            append(&mut m, uuid);
            Err(error_response(STATUS_NOT_FOUND, m))
        },
    }
}

// ---------------------------------------------------------------------------
// Discovery results
// ---------------------------------------------------------------------------

/// Position of the last device with the UUID.
pub open spec fn last_with_uuid(s: Seq<RendererDevice>, u: Seq<char>) -> Option<int>
    decreases s.len(),
{
    if s.len() == 0 {
        None
    } else if s.last().uuid@ == u {
        Some(s.len() - 1)
    } else {
        last_with_uuid(s.drop_last(), u)
    }
}

/// A discovered device keeps the alias, status, media and loop setting
/// that it had in the list (of the last entry with its UUID).
pub open spec fn keep_settings(d: RendererDevice, existing: Seq<RendererDevice>) -> RendererDevice {
    match last_with_uuid(existing, d.uuid@) {
        Some(j) => RendererDevice {
            alias: existing[j].alias,
            status: existing[j].status,
            current_media: existing[j].current_media,
            loop_playback: existing[j].loop_playback,
            ..d
        },
        None => d,
    }
}

/// Append the devices of `rest` whose UUID is not yet in `acc`, in order.
pub open spec fn append_missing(acc: Seq<RendererDevice>, rest: Seq<RendererDevice>) -> Seq<RendererDevice>
    decreases rest.len(),
{
    if rest.len() == 0 {
        acc
    } else {
        let next = if has_uuid(acc, rest[0].uuid@) {
            acc
        } else {
            acc.push(rest[0])
        };
        append_missing(next, rest.drop_first())
    }
}

/// The list after a discovery: the discovered devices first, each keeping
/// its settings, then the known devices that were not discovered.
pub open spec fn merged_spec(existing: Seq<RendererDevice>, discovered: Seq<RendererDevice>) -> Seq<RendererDevice> {
    append_missing(discovered.map_values(|d: RendererDevice| keep_settings(d, existing)), existing)
}

/// The last device with the UUID has it.
pub proof fn lemma_last_with_uuid(s: Seq<RendererDevice>, u: Seq<char>)
    ensures
        last_with_uuid(s, u) matches Some(j) ==> 0 <= j < s.len() && s[j].uuid@ == u,
    decreases s.len(),
{
    if s.len() > 0 && s.last().uuid@ != u {
        lemma_last_with_uuid(s.drop_last(), u);
    }
}

fn last_device_index(devices: &[RendererDevice], uuid: &str) -> (r: Option<usize>)
    ensures
        r matches Some(i) ==> last_with_uuid(devices@, uuid@) == Some(i as int),
        r is None ==> last_with_uuid(devices@, uuid@) is None,
{
    let mut i: usize = devices.len();
    assert(devices@.take(i as int) =~= devices@);
    while i > 0
        invariant
            i <= devices@.len(),
            last_with_uuid(devices@, uuid@) == last_with_uuid(devices@.take(i as int), uuid@),
        decreases i,
    {
        assert(devices@.take(i as int).drop_last() =~= devices@.take(i - 1));
        assert(devices@.take(i as int).last() == devices@[i - 1]);
        if str_eq(devices[i - 1].uuid.as_str(), uuid) {
            return Some(i - 1);
        }
        i -= 1;
    }
    None
}

fn has_device(devices: &[RendererDevice], uuid: &str) -> (r: bool)
    ensures
        r == has_uuid(devices@, uuid@),
{
    find_device_index(devices, uuid).is_some()
}

/// Merge the devices a discovery found into the list: found devices first,
/// in the order found, keeping their alias, status, media and loop setting;
/// then the known devices that were not found.
pub fn merge_discovered_devices(existing: &[RendererDevice], discovered: Vec<RendererDevice>) -> (r: Vec<
    RendererDevice,
>)
    ensures
        r@ == merged_spec(existing@, discovered@),
{
    let ghost found = discovered@.map_values(|d: RendererDevice| keep_settings(d, existing@));
    let mut merged: Vec<RendererDevice> = Vec::new();
    let mut i: usize = 0;
    while i < discovered.len()
        invariant
            i <= discovered@.len(),
            found == discovered@.map_values(|d: RendererDevice| keep_settings(d, existing@)),
            merged@ == found.take(i as int),
        decreases discovered.len() - i,
    {
        proof {
            lemma_last_with_uuid(existing@, discovered@[i as int].uuid@);
        }
        let mut d = discovered[i].duplicate();
        match last_device_index(existing, d.uuid.as_str()) {
            Some(j) => {
                let old = &existing[j];
                d.alias = crate::encoder::clone_opt_string(&old.alias);
                d.status = old.status;
                d.current_media = crate::encoder::clone_opt_string(&old.current_media);
                d.loop_playback = old.loop_playback;
            },
            None => {},
        }
        merged.push(d);
        assert(merged@ =~= found.take(i + 1));
        i += 1;
    }
    assert(found.take(i as int) =~= found);
    assert(existing@.skip(0) =~= existing@);
    let mut k: usize = 0;
    while k < existing.len()
        invariant
            k <= existing@.len(),
            merged_spec(existing@, discovered@) == append_missing(merged@, existing@.skip(k as int)),
        decreases existing.len() - k,
    {
        assert(existing@.skip(k as int).drop_first() =~= existing@.skip(k + 1));
        assert(existing@.skip(k as int)[0] == existing@[k as int]);
        if !has_device(&merged, existing[k].uuid.as_str()) {
            merged.push(existing[k].duplicate());
        }
        k += 1;
    }
    assert(existing@.skip(k as int) =~= Seq::<RendererDevice>::empty());
    merged
}

/// The device with the name and addresses that a discovery found.
pub open spec fn with_fresh_addresses(d: RendererDevice, fresh: RendererDevice) -> RendererDevice {
    RendererDevice { name: fresh.name, ip: fresh.ip, av_transport_url: fresh.av_transport_url, ..d }
}

/// The list after a periodic discovery: each known device takes the name
/// and addresses of the first found device with its UUID; found devices
/// that are not yet known are appended.
pub open spec fn refreshed_spec(devices: Seq<RendererDevice>, found: Seq<RendererDevice>) -> Seq<RendererDevice> {
    append_missing(
        devices.map_values(
            |d: RendererDevice|
                match first_with_uuid(found, d.uuid@) {
                    Some(j) => with_fresh_addresses(d, found[j]),
                    None => d,
                },
        ),
        found,
    )
}

/// Update the list with what a periodic discovery found.
pub fn refresh_devices(devices: &mut Vec<RendererDevice>, found: &[RendererDevice])
    ensures
        final(devices)@ == refreshed_spec(old(devices)@, found@),
{
    let ghost start = devices@;
    let ghost updated = start.map_values(
        |d: RendererDevice|
            match first_with_uuid(found@, d.uuid@) {
                Some(j) => with_fresh_addresses(d, found@[j]),
                None => d,
            },
    );
    let mut i: usize = 0;
    while i < devices.len()
        invariant
            i <= devices@.len(),
            devices@.len() == start.len(),
            updated == start.map_values(
                |d: RendererDevice|
                    match first_with_uuid(found@, d.uuid@) {
                        Some(j) => with_fresh_addresses(d, found@[j]),
                        None => d,
                    },
            ),
            forall|j: int| 0 <= j < i ==> devices@[j] == updated[j],
            forall|j: int| i <= j < devices@.len() ==> devices@[j] == start[j],
        decreases devices.len() - i,
    {
        match find_device_index(found, devices[i].uuid.as_str()) {
            Some(j) => {
                let mut d = devices[i].duplicate();
                d.name = found[j].name.clone();
                d.ip = found[j].ip.clone();
                d.av_transport_url = found[j].av_transport_url.clone();
                devices.set(i, d);
            },
            None => {},
        }
        i += 1;
    }
    assert(devices@ =~= updated);
    assert(found@.skip(0) =~= found@);
    let mut k: usize = 0;
    while k < found.len()
        invariant
            k <= found@.len(),
            refreshed_spec(start, found@) == append_missing(devices@, found@.skip(k as int)),
        decreases found.len() - k,
    {
        assert(found@.skip(k as int).drop_first() =~= found@.skip(k + 1));
        assert(found@.skip(k as int)[0] == found@[k as int]);
        if !has_device(devices, found[k].uuid.as_str()) {
            devices.push(found[k].duplicate());
        }
        k += 1;
    }
    assert(found@.skip(k as int) =~= Seq::<RendererDevice>::empty());
}

/// Appending the missing devices loses no UUID and keeps what was there.
pub proof fn lemma_append_missing(acc: Seq<RendererDevice>, rest: Seq<RendererDevice>)
    ensures
        append_missing(acc, rest).len() >= acc.len(),
        forall|i: int| 0 <= i < acc.len() ==> #[trigger] append_missing(acc, rest)[i] == acc[i],
        forall|u: Seq<char>| has_uuid(rest, u) ==> #[trigger] has_uuid(append_missing(acc, rest), u),
        forall|u: Seq<char>| has_uuid(acc, u) ==> #[trigger] has_uuid(append_missing(acc, rest), u),
    decreases rest.len(),
{
    if rest.len() > 0 {
        let next = if has_uuid(acc, rest[0].uuid@) {
            acc
        } else {
            acc.push(rest[0])
        };
        lemma_append_missing(next, rest.drop_first());
        let r = append_missing(acc, rest);
        assert forall|i: int| 0 <= i < acc.len() implies #[trigger] r[i] == acc[i] by {
            assert(next[i] == acc[i]);
        }
        assert forall|u: Seq<char>| has_uuid(acc, u) implies #[trigger] has_uuid(r, u) by {
            let j = choose|j: int| 0 <= j < acc.len() && (#[trigger] acc[j]).uuid@ == u;
            assert(next[j] == acc[j]);
        }
        assert forall|u: Seq<char>| has_uuid(rest, u) implies #[trigger] has_uuid(r, u) by {
            let j = choose|j: int| 0 <= j < rest.len() && (#[trigger] rest[j]).uuid@ == u;
            if j == 0 {
                if !has_uuid(acc, u) {
                    assert(next[acc.len() as int] == rest[0]);
                }
            } else {
                assert(rest.drop_first()[j - 1] == rest[j]);
            }
        }
    }
}

/// A discovery merge keeps every device: each UUID that was known or was
/// found is in the merged list, and the found devices come first, in order.
pub proof fn lemma_merge_keeps_devices(existing: Seq<RendererDevice>, discovered: Seq<RendererDevice>)
    ensures
        forall|u: Seq<char>| has_uuid(existing, u) ==> #[trigger] has_uuid(merged_spec(existing, discovered), u),
        forall|u: Seq<char>| has_uuid(discovered, u) ==> #[trigger] has_uuid(merged_spec(existing, discovered), u),
        forall|i: int| 0 <= i < discovered.len() ==> (#[trigger] merged_spec(existing, discovered)[i]).uuid@ == discovered[i].uuid@,
{
    let found = discovered.map_values(|d: RendererDevice| keep_settings(d, existing));
    lemma_append_missing(found, existing);
    assert forall|u: Seq<char>| has_uuid(discovered, u) implies has_uuid(found, u) by {
        let j = choose|j: int| 0 <= j < discovered.len() && (#[trigger] discovered[j]).uuid@ == u;
        assert(found[j].uuid@ == u);
    }
    assert forall|i: int| 0 <= i < discovered.len() implies (#[trigger] merged_spec(existing, discovered)[i]).uuid@
        == discovered[i].uuid@ by {
        assert(merged_spec(existing, discovered)[i] == found[i]);
    }
}

proof fn lemma_last_with_uuid_is_last(s: Seq<RendererDevice>, u: Seq<char>)
    ensures
        last_with_uuid(s, u) matches Some(j) ==> 0 <= j < s.len() && s[j].uuid@ == u && forall|k: int|
            j < k < s.len() ==> (#[trigger] s[k]).uuid@ != u,
        last_with_uuid(s, u) is None ==> forall|k: int| 0 <= k < s.len() ==> (#[trigger] s[k]).uuid@ != u,
    decreases s.len(),
{
    if s.len() > 0 && s.last().uuid@ != u {
        let p = s.drop_last();
        lemma_last_with_uuid_is_last(p, u);
        assert(s[s.len() - 1] == s.last());
        assert forall|k: int| 0 <= k < s.len() - 1 implies #[trigger] s[k] == p[k] by {}
        match last_with_uuid(p, u) {
            Some(j) => {
                assert forall|k: int| j < k < s.len() implies (#[trigger] s[k]).uuid@ != u by {
                    if k < s.len() - 1 {
                        assert(s[k] == p[k]);
                    }
                }
            },
            None => {
                assert forall|k: int| 0 <= k < s.len() implies (#[trigger] s[k]).uuid@ != u by {
                    if k < s.len() - 1 {
                        assert(s[k] == p[k]);
                    }
                }
            },
        }
    }
}

/// After a discovery, each discovered device stands at its own position
/// with the name, address and control URL it was discovered with; when its
/// UUID was known, it carries over the alias, status, current media and
/// loop setting of the known entry (the last one with that UUID), and
/// otherwise it is exactly as discovered.
pub proof fn lemma_merge_carries_settings(existing: Seq<RendererDevice>, discovered: Seq<RendererDevice>, i: int)
    requires
        0 <= i < discovered.len(),
    ensures
        i < merged_spec(existing, discovered).len(),
        ({
            let m = merged_spec(existing, discovered)[i];
            let d = discovered[i];
            &&& m.uuid == d.uuid
            &&& m.name == d.name
            &&& m.ip == d.ip
            &&& m.av_transport_url == d.av_transport_url
            &&& (forall|j: int| 0 <= j < existing.len() ==> (#[trigger] existing[j]).uuid@ != d.uuid@) ==> m == d
            &&& forall|j: int|
                0 <= j < existing.len() && (#[trigger] existing[j]).uuid@ == d.uuid@ && (forall|k: int|
                    j < k < existing.len() ==> (#[trigger] existing[k]).uuid@ != d.uuid@) ==> {
                    &&& m.alias == existing[j].alias
                    &&& m.status == existing[j].status
                    &&& m.current_media == existing[j].current_media
                    &&& m.loop_playback == existing[j].loop_playback
                }
        }),
{
    let found = discovered.map_values(|d: RendererDevice| keep_settings(d, existing));
    lemma_append_missing(found, existing);
    let d = discovered[i];
    assert(merged_spec(existing, discovered)[i] == found[i]);
    assert(found[i] == keep_settings(d, existing));
    lemma_last_with_uuid_is_last(existing, d.uuid@);
    assert forall|j: int|
        0 <= j < existing.len() && (#[trigger] existing[j]).uuid@ == d.uuid@ && (forall|k: int|
            j < k < existing.len() ==> (#[trigger] existing[k]).uuid@ != d.uuid@) implies last_with_uuid(existing, d.uuid@)
        == Some(j) by {
        match last_with_uuid(existing, d.uuid@) {
            Some(l) => {
                if l < j {
                    assert(existing[j].uuid@ != d.uuid@);
                } else if l > j {
                    assert(existing[l].uuid@ != d.uuid@);
                }
            },
            None => {
                assert(existing[j].uuid@ != d.uuid@);
            },
        }
    }
    if forall|j: int| 0 <= j < existing.len() ==> (#[trigger] existing[j]).uuid@ != d.uuid@ {
        match last_with_uuid(existing, d.uuid@) {
            Some(l) => {
                assert(existing[l].uuid@ != d.uuid@);
            },
            None => {},
        }
    }
}

/// The device with its current media changed.
pub open spec fn with_media(d: RendererDevice, media: Option<String>) -> RendererDevice {
    RendererDevice { current_media: media, ..d }
}

/// Forget that devices play a media file that was deleted.
pub fn forget_media_on_devices(devices: &mut Vec<RendererDevice>, filename: &str)
    ensures
        final(devices)@.len() == old(devices)@.len(),
        forall|i: int|
            0 <= i < old(devices)@.len() ==> #[trigger] final(devices)@[i] == if opt_view(old(devices)@[i].current_media)
                == Some(filename@) {
                with_media(old(devices)@[i], None)
            } else {
                old(devices)@[i]
            },
{
    let ghost start = devices@;
    let mut i: usize = 0;
    while i < devices.len()
        invariant
            i <= devices@.len(),
            devices@.len() == start.len(),
            forall|j: int|
                0 <= j < i ==> #[trigger] devices@[j] == if opt_view(start[j].current_media) == Some(filename@) {
                    with_media(start[j], None)
                } else {
                    start[j]
                },
            forall|j: int| i <= j < devices@.len() ==> devices@[j] == start[j],
        decreases devices.len() - i,
    {
        let plays = match &devices[i].current_media {
            Some(m) => str_eq(m.as_str(), filename),
            None => false,
        };
        if plays {
            let mut d = devices[i].duplicate();
            d.current_media = None;
            devices.set(i, d);
        }
        i += 1;
    }
}

/// Devices that played a renamed media file now play it under its new name.
pub fn rename_media_on_devices(devices: &mut Vec<RendererDevice>, from: &str, to: &str)
    ensures
        final(devices)@.len() == old(devices)@.len(),
        forall|i: int|
            0 <= i < old(devices)@.len() ==> opt_view(old(devices)@[i].current_media) == Some(from@) ==> opt_view(
                (#[trigger] final(devices)@[i]).current_media,
            ) == Some(to@) && final(devices)@[i] == with_media(old(devices)@[i], final(devices)@[i].current_media),
        forall|i: int|
            0 <= i < old(devices)@.len() ==> opt_view(old(devices)@[i].current_media) != Some(from@)
                ==> #[trigger] final(devices)@[i] == old(devices)@[i],
{
    let ghost start = devices@;
    let mut i: usize = 0;
    while i < devices.len()
        invariant
            i <= devices@.len(),
            devices@.len() == start.len(),
            forall|j: int|
                0 <= j < i ==> opt_view(start[j].current_media) == Some(from@) ==> opt_view(
                    (#[trigger] devices@[j]).current_media,
                ) == Some(to@) && devices@[j] == with_media(start[j], devices@[j].current_media),
            forall|j: int|
                0 <= j < i ==> opt_view(start[j].current_media) != Some(from@) ==> #[trigger] devices@[j] == start[j],
            forall|j: int| i <= j < devices@.len() ==> devices@[j] == start[j],
        decreases devices.len() - i,
    {
        let plays = match &devices[i].current_media {
            Some(m) => str_eq(m.as_str(), from),
            None => false,
        };
        if plays {
            let mut d = devices[i].duplicate();
            d.current_media = Some(to.to_string());
            devices.set(i, d);
        }
        i += 1;
    }
}

} // verus!
