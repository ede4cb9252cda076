//! Devices, scenes and the shared application state.
use vstd::prelude::*;
use crate::encoder::DetectionResult;
use crate::text::{opt_view, str_eq};

verus! {

/// Current playback status of a renderer.
#[derive(Debug, Clone, Copy, PartialEq, Eq, Structural)]
pub enum PlaybackStatus {
    Idle,
    Playing,
    Paused,
    Stopped,
    Error,
}

pub open spec fn status_label(s: PlaybackStatus) -> Seq<char> {
    match s {
        PlaybackStatus::Idle => "Idle"@,
        PlaybackStatus::Playing => "Playing"@,
        PlaybackStatus::Paused => "Paused"@,
        PlaybackStatus::Stopped => "Stopped"@,
        PlaybackStatus::Error => "Error"@,
    }
}

pub open spec fn status_wire_name(s: PlaybackStatus) -> Seq<char> {
    match s {
        PlaybackStatus::Idle => "idle"@,
        PlaybackStatus::Playing => "playing"@,
        PlaybackStatus::Paused => "paused"@,
        PlaybackStatus::Stopped => "stopped"@,
        PlaybackStatus::Error => "error"@,
    }
}

impl PlaybackStatus {
    /// The display text of the status (`Idle`, `Playing`, ...).
    pub fn to_string(&self) -> (r: String)
        ensures
            r@ == status_label(*self),
    {
        match self {
            PlaybackStatus::Idle => "Idle".to_string(),
            PlaybackStatus::Playing => "Playing".to_string(),
            PlaybackStatus::Paused => "Paused".to_string(),
            PlaybackStatus::Stopped => "Stopped".to_string(),
            PlaybackStatus::Error => "Error".to_string(),
        }
    }
}

/// A discovered DLNA MediaRenderer device.
#[derive(Debug, Clone)]
pub struct RendererDevice {
    pub uuid: String,
    pub name: String,
    pub alias: Option<String>,
    pub ip: String,
    pub av_transport_url: String,
    pub status: PlaybackStatus,
    pub current_media: Option<String>,
    pub loop_playback: bool,
}


impl RendererDevice {
    /// A copy of the device.
    pub fn duplicate(&self) -> (r: RendererDevice)
        ensures
            r == *self,
    {
        RendererDevice {
            uuid: self.uuid.clone(),
            name: self.name.clone(),
            alias: crate::encoder::clone_opt_string(&self.alias),
            ip: self.ip.clone(),
            av_transport_url: self.av_transport_url.clone(),
            status: self.status,
            current_media: crate::encoder::clone_opt_string(&self.current_media),
            loop_playback: self.loop_playback,
        }
    }
}

// ---------------------------------------------------------------------------
// Assignments of a scene
// ---------------------------------------------------------------------------

/// The entries as pairs of texts.
pub open spec fn pairs_view(v: Seq<(String, String)>) -> Seq<(Seq<char>, Seq<char>)> {
    v.map_values(|p: (String, String)| (p.0@, p.1@))
}

/// No key occurs twice.
pub open spec fn keys_distinct(s: Seq<(Seq<char>, Seq<char>)>) -> bool {
    forall|i: int, j: int| 0 <= i < j < s.len() ==> (#[trigger] s[i]).0 != (#[trigger] s[j]).0
}

/// The map that the entries make.
pub open spec fn to_map(s: Seq<(Seq<char>, Seq<char>)>) -> Map<Seq<char>, Seq<char>>
    decreases s.len(),
{
    if s.len() == 0 {
        Map::empty()
    } else {
        to_map(s.drop_last()).insert(s.last().0, s.last().1)
    }
}

/// With distinct keys, the map has the keys of the entries, each with the
/// value of its entry, and as many keys as entries.
pub proof fn lemma_to_map(s: Seq<(Seq<char>, Seq<char>)>)
    requires
        keys_distinct(s),
    ensures
        to_map(s).dom().finite(),
        to_map(s).len() == s.len(),
        forall|k: Seq<char>| to_map(s).dom().contains(k) <==> exists|i: int| 0 <= i < s.len() && (#[trigger] s[i]).0 == k,
        forall|i: int| 0 <= i < s.len() ==> to_map(s)[(#[trigger] s[i]).0] == s[i].1,
    decreases s.len(),
{
    if s.len() > 0 {
        let p = s.drop_last();
        assert(keys_distinct(p)) by {
            assert forall|i: int, j: int| 0 <= i < j < p.len() implies (#[trigger] p[i]).0 != (#[trigger] p[j]).0 by {
                assert(p[i] == s[i] && p[j] == s[j]);
            }
        }
        lemma_to_map(p);
        let l = s.last();
        assert(!to_map(p).dom().contains(l.0)) by {
            if to_map(p).dom().contains(l.0) {
                let i = choose|i: int| 0 <= i < p.len() && (#[trigger] p[i]).0 == l.0;
                assert(s[i] == p[i]);
                assert(s[s.len() - 1] == l);
            }
        }
        assert forall|k: Seq<char>| to_map(s).dom().contains(k) <==> exists|i: int| 0 <= i < s.len() && (#[trigger] s[i]).0 == k by {
            if to_map(s).dom().contains(k) {
                if k == l.0 {
                    assert(s[s.len() - 1].0 == k);
                } else {
                    let i = choose|i: int| 0 <= i < p.len() && (#[trigger] p[i]).0 == k;
                    assert(s[i] == p[i]);
                }
            }
            if exists|i: int| 0 <= i < s.len() && (#[trigger] s[i]).0 == k {
                let i = choose|i: int| 0 <= i < s.len() && (#[trigger] s[i]).0 == k;
                if i < p.len() {
                    assert(p[i] == s[i]);
                }
            }
        }
        assert forall|i: int| 0 <= i < s.len() implies to_map(s)[(#[trigger] s[i]).0] == s[i].1 by {
            if i < p.len() {
                assert(p[i] == s[i]);
                assert(s[i].0 != l.0) by {
                    assert(s[s.len() - 1] == l);
                }
            }
        }
    }
}

/// The entries whose value is not `v`, in order.
pub open spec fn without_value(s: Seq<(Seq<char>, Seq<char>)>, v: Seq<char>) -> Seq<(Seq<char>, Seq<char>)>
    decreases s.len(),
{
    if s.len() == 0 {
        seq![]
    } else {
        let r = without_value(s.drop_last(), v);
        if s.last().1 != v {
            r.push(s.last())
        } else {
            r
        }
    }
}

/// Dropping the entries of one value keeps the keys distinct; what stays
/// is exactly the entries with another value.
pub proof fn lemma_without_value(s: Seq<(Seq<char>, Seq<char>)>, v: Seq<char>)
    requires
        keys_distinct(s),
    ensures
        keys_distinct(without_value(s, v)),
        forall|m: int|
            0 <= m < without_value(s, v).len() ==> exists|j: int|
                0 <= j < s.len() && s[j] == #[trigger] without_value(s, v)[m] && s[j].1 != v,
        forall|j: int|
            0 <= j < s.len() && s[j].1 != v ==> exists|m: int|
                0 <= m < without_value(s, v).len() && #[trigger] without_value(s, v)[m] == s[j],
    decreases s.len(),
{
    if s.len() > 0 {
        let p = s.drop_last();
        assert(keys_distinct(p)) by {
            assert forall|a: int, b: int| 0 <= a < b < p.len() implies (#[trigger] p[a]).0 != (#[trigger] p[b]).0 by {
                assert(p[a] == s[a] && p[b] == s[b]);
            }
        }
        lemma_without_value(p, v);
        let r = without_value(p, v);
        let l = s.last();
        assert(s[s.len() - 1] == l);
        if l.1 != v {
            let n = r.push(l);
            assert(keys_distinct(n)) by {
                assert forall|a: int, b: int| 0 <= a < b < n.len() implies (#[trigger] n[a]).0 != (#[trigger] n[b]).0 by {
                    if b < r.len() {
                        assert(n[a] == r[a] && n[b] == r[b]);
                    } else {
                        assert(n[a] == r[a]);
                        let j = choose|j: int| 0 <= j < p.len() && p[j] == #[trigger] r[a] && p[j].1 != v;
                        assert(s[j] == p[j]);
                    }
                }
            }
            assert forall|m: int| 0 <= m < n.len() implies exists|j: int| 0 <= j < s.len() && s[j] == #[trigger] n[m] && s[j].1 != v by {
                if m < r.len() {
                    assert(n[m] == r[m]);
                    let j = choose|j: int| 0 <= j < p.len() && p[j] == #[trigger] r[m] && p[j].1 != v;
                    assert(s[j] == p[j]);
                } else {
                    assert(n[m] == l);
                }
            }
            assert forall|j: int| 0 <= j < s.len() && s[j].1 != v implies exists|m: int| 0 <= m < n.len() && #[trigger] n[m] == s[j] by {
                if j < p.len() {
                    assert(s[j] == p[j]);
                    let m = choose|m: int| 0 <= m < r.len() && #[trigger] r[m] == p[j];
                    assert(n[m] == r[m]);
                } else {
                    assert(n[r.len() as int] == l);
                }
            }
        } else {
            assert forall|m: int| 0 <= m < r.len() implies exists|j: int| 0 <= j < s.len() && s[j] == #[trigger] r[m] && s[j].1 != v by {
                let j = choose|j: int| 0 <= j < p.len() && p[j] == #[trigger] r[m] && p[j].1 != v;
                assert(s[j] == p[j]);
            }
            assert forall|j: int| 0 <= j < s.len() && s[j].1 != v implies exists|m: int| 0 <= m < r.len() && #[trigger] r[m] == s[j] by {
                assert(j < p.len());
                assert(s[j] == p[j]);
            }
        }
    }
}

/// The map of the entries without those of value `v` is the map of all
/// entries without the keys of value `v`.
pub proof fn lemma_without_value_map(before: Seq<(Seq<char>, Seq<char>)>, mv: Seq<char>)
    requires
        keys_distinct(before),
    ensures
        forall|q: Seq<char>| #[trigger] to_map(without_value(before, mv)).dom().contains(q) <==> (to_map(
            before,
        ).dom().contains(q) && to_map(before)[q] != mv),
        forall|q: Seq<char>| #[trigger] to_map(without_value(before, mv)).dom().contains(q) ==> to_map(
            without_value(before, mv),
        )[q] == to_map(before)[q],
{
    let kept = without_value(before, mv);
    lemma_to_map(before);
    lemma_without_value(before, mv);
    lemma_to_map(kept);
    let old_map = to_map(before);
    assert forall|q: Seq<char>| #[trigger] to_map(kept).dom().contains(q) <==> (old_map.dom().contains(q)
        && old_map[q] != mv) by {
        if to_map(kept).dom().contains(q) {
            let m = choose|m: int| 0 <= m < kept.len() && (#[trigger] kept[m]).0 == q;
            let j = choose|j: int| 0 <= j < before.len() && before[j] == #[trigger] kept[m] && before[j].1 != mv;
            assert(old_map[before[j].0] == before[j].1);
        }
        if old_map.dom().contains(q) && old_map[q] != mv {
            let j = choose|j: int| 0 <= j < before.len() && (#[trigger] before[j]).0 == q;
            assert(old_map[before[j].0] == before[j].1);
            let m = choose|m: int| 0 <= m < kept.len() && #[trigger] kept[m] == before[j];
            assert(kept[m].0 == q);
        }
    }
    assert forall|q: Seq<char>| #[trigger] to_map(kept).dom().contains(q) implies to_map(kept)[q] == old_map[q] by {
        let m = choose|m: int| 0 <= m < kept.len() && (#[trigger] kept[m]).0 == q;
        let j = choose|j: int| 0 <= j < before.len() && before[j] == #[trigger] kept[m] && before[j].1 != mv;
        assert(old_map[before[j].0] == before[j].1);
    }
}

/// The media file assigned to each device of a scene (device UUID to file
/// name), each device at most once.
#[derive(Debug)]
pub struct AssignmentMap {
    entries: Vec<(String, String)>,
}

impl View for AssignmentMap {
    type V = Map<Seq<char>, Seq<char>>;

    closed spec fn view(&self) -> Map<Seq<char>, Seq<char>> {
        to_map(pairs_view(self.entries@))
    }
}

impl AssignmentMap {
    #[verifier::type_invariant]
    closed spec fn wf(self) -> bool {
        keys_distinct(pairs_view(self.entries@))
    }

    /// No assignment.
    pub fn new() -> (m: AssignmentMap)
        ensures
            m@ == Map::<Seq<char>, Seq<char>>::empty(),
    {
        let m = AssignmentMap { entries: Vec::new() };
        assert(pairs_view(m.entries@) =~= Seq::<(Seq<char>, Seq<char>)>::empty());
        m
    }

    /// The number of devices with an assignment.
    pub fn len(&self) -> (r: usize)
        ensures
            r == self@.len(),
    {
        proof {
            use_type_invariant(self);
            lemma_to_map(pairs_view(self.entries@));
        }
        self.entries.len()
    }

    fn index_of(&self, device_uuid: &str) -> (r: Option<usize>)
        ensures
            r matches Some(i) ==> i < self.entries@.len() && self.entries@[i as int].0@ == device_uuid@,
            r is None ==> forall|i: int| 0 <= i < self.entries@.len() ==> self.entries@[i].0@ != device_uuid@,
    {
        let mut i: usize = 0;
        while i < self.entries.len()
            invariant
                i <= self.entries@.len(),
                forall|j: int| 0 <= j < i ==> self.entries@[j].0@ != device_uuid@,
            decreases self.entries.len() - i,
        {
            if str_eq(self.entries[i].0.as_str(), device_uuid) {
                return Some(i);
            }
            i += 1;
        }
        None
    }

    /// The media file assigned to a device.
    pub fn get(&self, device_uuid: &str) -> (r: Option<&String>)
        ensures
            match r {
                Some(v) => self@.dom().contains(device_uuid@) && self@[device_uuid@] == v@,
                None => !self@.dom().contains(device_uuid@),
            },
    {
        proof {
            use_type_invariant(self);
            lemma_to_map(pairs_view(self.entries@));
        }
        match self.index_of(device_uuid) {
            Some(i) => {
                assert(pairs_view(self.entries@)[i as int].0 == device_uuid@);
                Some(&self.entries[i].1)
            },
            None => {
                assert forall|j: int| 0 <= j < pairs_view(self.entries@).len() implies (
                #[trigger] pairs_view(self.entries@)[j]).0 != device_uuid@ by {
                    assert(pairs_view(self.entries@)[j].0 == self.entries@[j].0@);
                }
                None
            },
        }
    }

    /// Assign a media file to a device, replacing its former assignment.
    pub fn insert(&mut self, device_uuid: String, media: String)
        ensures
            final(self)@ == old(self)@.insert(device_uuid@, media@),
    {
        proof {
            use_type_invariant(&*self);
            lemma_to_map(pairs_view(self.entries@));
        }
        let ghost before = pairs_view(self.entries@);
        let ghost k = device_uuid@;
        let ghost v = media@;
        let found = self.index_of(device_uuid.as_str());
        let mut entries = Vec::new();
        std::mem::swap(&mut entries, &mut self.entries);
        match found {
            Some(i) => {
                entries.set(i, (device_uuid, media));
                proof {
                    let now = pairs_view(entries@);
                    assert(now =~= before.update(i as int, (k, v)));
                    assert(keys_distinct(now)) by {
                        assert forall|a: int, b: int| 0 <= a < b < now.len() implies (#[trigger] now[a]).0 != (
                        #[trigger] now[b]).0 by {
                            assert(before[i as int].0 == k);
                            if a != i as int && b != i as int {
                                assert(before[a].0 != before[b].0);
                            } else if a == i as int {
                                assert(before[a].0 != before[b].0);
                            } else {
                                assert(before[a].0 != before[b].0);
                            }
                        }
                    }
                    lemma_to_map(now);
                    assert forall|q: Seq<char>| #[trigger] to_map(now).dom().contains(q) <==> to_map(before).insert(
                        k,
                        v,
                    ).dom().contains(q) by {
                        if to_map(before).dom().contains(q) {
                            let j = choose|j: int| 0 <= j < before.len() && (#[trigger] before[j]).0 == q;
                            assert(now[j].0 == q);
                        }
                        if to_map(now).dom().contains(q) {
                            let j = choose|j: int| 0 <= j < now.len() && (#[trigger] now[j]).0 == q;
                            if j != i as int {
                                assert(before[j].0 == q);
                            }
                        }
                        if q == k {
                            assert(now[i as int].0 == q);
                        }
                    }
                    assert forall|q: Seq<char>| #[trigger] to_map(now).dom().contains(q) implies to_map(now)[q]
                        == to_map(before).insert(k, v)[q] by {
                        let j = choose|j: int| 0 <= j < now.len() && (#[trigger] now[j]).0 == q;
                        if j != i as int {
                            assert(before[j] == now[j]);
                            assert(before[i as int].0 == k);
                            assert(q != k);
                        }
                    }
                    assert(to_map(now) =~= to_map(before).insert(k, v));
                }
            },
            None => {
                entries.push((device_uuid, media));
                proof {
                    let now = pairs_view(entries@);
                    assert(now =~= before.push((k, v)));
                    assert forall|j: int| 0 <= j < before.len() implies (#[trigger] before[j]).0 != k by {
                        assert(before[j].0 == old(self).entries@[j].0@);
                    }
                    assert(keys_distinct(now)) by {
                        assert forall|a: int, b: int| 0 <= a < b < now.len() implies (#[trigger] now[a]).0 != (
                        #[trigger] now[b]).0 by {
                            if b < before.len() {
                                assert(before[a].0 != before[b].0);
                            } else {
                                assert(now[a] == before[a]);
                            }
                        }
                    }
                    assert(now.drop_last() =~= before);
                }
            },
        }
        self.entries = entries;
    }

    /// Drop the assignments of a media file; the others stay.
    pub fn remove_media(&mut self, media: &str)
        ensures
            forall|k: Seq<char>| #[trigger] final(self)@.dom().contains(k) <==> (old(self)@.dom().contains(k)
                && old(self)@[k] != media@),
            forall|k: Seq<char>| #[trigger] final(self)@.dom().contains(k) ==> final(self)@[k] == old(self)@[k],
    {
        proof {
            use_type_invariant(&*self);
            lemma_to_map(pairs_view(self.entries@));
        }
        let ghost before = pairs_view(self.entries@);
        let ghost mv = media@;
        let mut entries = Vec::new();
        std::mem::swap(&mut entries, &mut self.entries);
        let mut out: Vec<(String, String)> = Vec::new();
        let mut i: usize = 0;
        while i < entries.len()
            invariant
                i <= entries@.len(),
                self.entries@.len() == 0,
                pairs_view(entries@) == before,
                mv == media@,
                pairs_view(out@) == without_value(before.take(i as int), mv),
            decreases entries.len() - i,
        {
            let ghost o = pairs_view(out@);
            assert(before[i as int] == (entries@[i as int].0@, entries@[i as int].1@));
            assert(before.take(i + 1).drop_last() =~= before.take(i as int));
            assert(before.take(i + 1).last() == before[i as int]);
            let keep = !str_eq(entries[i].1.as_str(), media);
            if keep {
                let e = (entries[i].0.clone(), entries[i].1.clone());
                out.push(e);
                assert(pairs_view(out@) =~= o.push(before[i as int]));
            }
            assert(without_value(before.take(i + 1), mv) == if before.take(i + 1).last().1 != mv {
                without_value(before.take(i + 1).drop_last(), mv).push(before.take(i + 1).last())
            } else {
                without_value(before.take(i + 1).drop_last(), mv)
            });
            i += 1;
        }
        assert(before.take(before.len() as int) =~= before);
        proof {
            lemma_without_value(before, mv);
            lemma_without_value_map(before, mv);
        }
        self.entries = out;
    }

    /// Give every assignment of the media file `from` the file `to`.
    pub fn rename_media(&mut self, from: &str, to: &str)
        ensures
            final(self)@.dom() == old(self)@.dom(),
            forall|k: Seq<char>| #[trigger] old(self)@.dom().contains(k) ==> final(self)@[k] == if old(self)@[k] == from@ {
                to@
            } else {
                old(self)@[k]
            },
    {
        proof {
            use_type_invariant(&*self);
            lemma_to_map(pairs_view(self.entries@));
        }
        let ghost before = pairs_view(self.entries@);
        let mut entries = Vec::new();
        std::mem::swap(&mut entries, &mut self.entries);
        let mut out: Vec<(String, String)> = Vec::new();
        let mut i: usize = 0;
        while i < entries.len()
            invariant
                i <= entries@.len(),
                self.entries@.len() == 0,
                pairs_view(entries@) == before,
                pairs_view(out@).len() == i,
                forall|j: int|
                    0 <= j < i ==> (#[trigger] pairs_view(out@)[j]).0 == before[j].0 && pairs_view(out@)[j].1 == if before[j].1
                        == from@ {
                        to@
                    } else {
                        before[j].1
                    },
            decreases entries.len() - i,
        {
            let ghost o = out@;
            let v = if str_eq(entries[i].1.as_str(), from) {
                to.to_string()
            } else {
                entries[i].1.clone()
            };
            out.push((entries[i].0.clone(), v));
            assert(pairs_view(out@) =~= pairs_view(o).push(pairs_view(out@).last()));
            i += 1;
        }
        proof {
            let now = pairs_view(out@);
            assert(keys_distinct(now)) by {
                assert forall|a: int, b: int| 0 <= a < b < now.len() implies (#[trigger] now[a]).0 != (#[trigger] now[b]).0 by {
                    assert(before[a].0 != before[b].0);
                }
            }
            lemma_to_map(now);
            assert forall|q: Seq<char>| to_map(now).dom().contains(q) <==> to_map(before).dom().contains(q) by {
                if to_map(now).dom().contains(q) {
                    let j = choose|j: int| 0 <= j < now.len() && (#[trigger] now[j]).0 == q;
                    assert(before[j].0 == q);
                }
                if to_map(before).dom().contains(q) {
                    let j = choose|j: int| 0 <= j < before.len() && (#[trigger] before[j]).0 == q;
                    assert(now[j].0 == q);
                }
            }
            assert(to_map(now).dom() =~= to_map(before).dom());
            assert forall|q: Seq<char>| #[trigger] to_map(before).dom().contains(q) implies to_map(now)[q] == if to_map(
                before,
            )[q] == from@ {
                to@
            } else {
                to_map(before)[q]
            } by {
                let j = choose|j: int| 0 <= j < before.len() && (#[trigger] before[j]).0 == q;
                assert(now[j].0 == q);
            }
        }
        self.entries = out;
    }

    /// A copy of the assignments.
    pub fn duplicate(&self) -> (r: AssignmentMap)
        ensures
            r@ == self@,
    {
        proof {
            use_type_invariant(self);
        }
        let mut out: Vec<(String, String)> = Vec::new();
        let mut i: usize = 0;
        while i < self.entries.len()
            invariant
                i <= self.entries@.len(),
                keys_distinct(pairs_view(self.entries@)),
                pairs_view(out@) == pairs_view(self.entries@).take(i as int),
            decreases self.entries.len() - i,
        {
            let ghost o = out@;
            let a = self.entries[i].0.clone();
            let b = self.entries[i].1.clone();
            out.push((a, b));
            assert(pairs_view(out@) =~= pairs_view(o).push(pairs_view(self.entries@)[i as int]));
            assert(pairs_view(self.entries@).take(i + 1) =~= pairs_view(self.entries@).take(i as int).push(
                pairs_view(self.entries@)[i as int],
            ));
            i += 1;
        }
        assert(pairs_view(self.entries@).take(i as int) =~= pairs_view(self.entries@));
        AssignmentMap { entries: out }
    }

    /// The assignments in the order they were made, as pairs of device UUID
    /// and media file.
    pub fn to_pairs(&self) -> (r: Vec<(String, String)>)
        ensures
            pairs_view(r@).len() == self@.len(),
            forall|i: int| 0 <= i < r@.len() ==> self@.dom().contains(#[trigger] pairs_view(r@)[i].0) && self@[pairs_view(
                r@,
            )[i].0] == pairs_view(r@)[i].1,
            forall|k: Seq<char>| #[trigger] self@.dom().contains(k) ==> exists|i: int| 0 <= i < r@.len() && pairs_view(r@)[i].0 == k,
    {
        proof {
            use_type_invariant(self);
            lemma_to_map(pairs_view(self.entries@));
        }
        let mut out: Vec<(String, String)> = Vec::new();
        let mut i: usize = 0;
        while i < self.entries.len()
            invariant
                i <= self.entries@.len(),
                pairs_view(out@) == pairs_view(self.entries@).take(i as int),
            decreases self.entries.len() - i,
        {
            let ghost o = out@;
            let a = self.entries[i].0.clone();
            let b = self.entries[i].1.clone();
            out.push((a, b));
            assert(pairs_view(out@) =~= pairs_view(o).push(pairs_view(self.entries@)[i as int]));
            assert(pairs_view(self.entries@).take(i + 1) =~= pairs_view(self.entries@).take(i as int).push(
                pairs_view(self.entries@)[i as int],
            ));
            i += 1;
        }
        assert(pairs_view(self.entries@).take(i as int) =~= pairs_view(self.entries@));
        proof {
            let pv = pairs_view(self.entries@);
            assert forall|k: Seq<char>| #[trigger] self@.dom().contains(k) implies exists|i: int|
                0 <= i < out@.len() && pairs_view(out@)[i].0 == k by {
                let j = choose|j: int| 0 <= j < pv.len() && (#[trigger] pv[j]).0 == k;
                assert(pairs_view(out@)[j].0 == k);
            }
        }
        out
    }
}


// ---------------------------------------------------------------------------
// Scenes and the application state
// ---------------------------------------------------------------------------

/// A scene: a name and the media file to play on each of its devices.
#[derive(Debug)]
pub struct Scene {
    pub name: String,
    /// Device UUID to media file name (e.g. `ad.mp4`).
    pub assignments: AssignmentMap,
}

impl Scene {
    /// A copy of the scene.
    pub fn duplicate(&self) -> (r: Scene)
        ensures
            r.name@ == self.name@,
            r.assignments@ == self.assignments@,
    {
        Scene { name: self.name.clone(), assignments: self.assignments.duplicate() }
    }
}

/// The state of the application: the known renderers, the scenes and the
/// settings of playback.
#[derive(Debug)]
pub struct AppState {
    pub devices: Vec<RendererDevice>,
    pub scenes: Vec<Scene>,
    /// Base URL of the media server, e.g. `http://192.168.1.10:8090`.
    pub media_server_base_url: String,
    /// Preferred encoder: `auto`, `nvidia`, `amd`, `intel`, `apple`, `vaapi`, `software`.
    pub preferred_encoder: String,
    /// Whether streams loop.
    pub loop_playback: bool,
    /// The last result of encoder detection.
    pub detected_encoders: Option<DetectionResult>,
}

impl Default for AppState {
    /// No device, no scene, empty settings.
    fn default() -> (s: AppState)
        ensures
            s.devices@.len() == 0,
            s.scenes@.len() == 0,
            s.media_server_base_url@.len() == 0,
            s.preferred_encoder@.len() == 0,
            !s.loop_playback,
            s.detected_encoders is None,
    {
        AppState {
            devices: Vec::new(),
            scenes: Vec::new(),
            media_server_base_url: String::new(),
            preferred_encoder: String::new(),
            loop_playback: false,
            detected_encoders: None,
        }
    }
}

} // verus!
