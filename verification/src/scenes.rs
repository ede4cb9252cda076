//! Scenes: saving, deleting and applying them, and keeping them in step
//! with the media library.
use vstd::prelude::*;
use crate::api::{error_response, is_error, is_unsafe_filename, validate_media_filename, ApiError, STATUS_BAD_REQUEST, STATUS_NOT_FOUND};
use crate::state::{pairs_view, AssignmentMap, Scene};
use crate::text::{append, str_eq};

verus! {

/// Position of the first scene with the name, at or after `i`.
pub open spec fn first_named_from(s: Seq<Scene>, name: Seq<char>, i: int) -> Option<int>
    decreases s.len() - i,
{
    if i < 0 || i >= s.len() {
        None
    } else if s[i].name@ == name {
        Some(i)
    } else {
        first_named_from(s, name, i + 1)
    }
}

/// Position of the first scene with the name.
pub open spec fn first_named(s: Seq<Scene>, name: Seq<char>) -> Option<int> {
    first_named_from(s, name, 0)
}

/// The search from `i` finds the first scene of the name at or after `i`,
/// or tells that there is none.
pub proof fn lemma_first_named_from(s: Seq<Scene>, name: Seq<char>, i: int)
    requires
        0 <= i,
    ensures
        first_named_from(s, name, i) matches Some(k) ==> i <= k < s.len() && s[k].name@ == name && forall|j: int|
            i <= j < k ==> (#[trigger] s[j]).name@ != name,
        first_named_from(s, name, i) is None ==> forall|j: int| i <= j < s.len() ==> (#[trigger] s[j]).name@ != name,
    decreases s.len() - i,
{
    if i < s.len() && s[i].name@ != name {
        lemma_first_named_from(s, name, i + 1);
    }
}

/// No two scenes have the same name.
pub open spec fn names_distinct(s: Seq<Scene>) -> bool {
    forall|i: int, j: int| 0 <= i < j < s.len() ==> (#[trigger] s[i]).name@ != (#[trigger] s[j]).name@
}

/// Position of the first scene with the name.
pub fn find_scene_index(scenes: &[Scene], name: &str) -> (r: Option<usize>)
    ensures
        r matches Some(i) ==> first_named(scenes@, name@) == Some(i as int) && i < scenes@.len(),
        r is None ==> first_named(scenes@, name@) is None,
{
    proof {
        lemma_first_named_from(scenes@, name@, 0);
    }
    let mut i: usize = 0;
    while i < scenes.len()
        invariant
            i <= scenes@.len(),
            first_named(scenes@, name@) == first_named_from(scenes@, name@, i as int),
        decreases scenes.len() - i,
    {
        if str_eq(scenes[i].name.as_str(), name) {
            return Some(i);
        }
        i += 1;
    }
    None
}

/// Every media file of the assignments is a safe file name.
pub fn validate_scene_assignments(assignments: &AssignmentMap) -> (r: Result<(), ApiError>)
    ensures
        r is Ok <==> forall|k: Seq<char>| #[trigger] assignments@.dom().contains(k) ==> !is_unsafe_filename(assignments@[k]),
        r matches Err(e) ==> is_error(e, STATUS_BAD_REQUEST, "Invalid media filename"@),
{
    let pairs = assignments.to_pairs();
    let mut i: usize = 0;
    while i < pairs.len()
        invariant
            i <= pairs@.len(),
            forall|j: int|
                0 <= j < pairs@.len() ==> assignments@.dom().contains(#[trigger] pairs_view(pairs@)[j].0)
                    && assignments@[pairs_view(pairs@)[j].0] == pairs_view(pairs@)[j].1,
            forall|j: int| 0 <= j < i ==> !is_unsafe_filename(#[trigger] pairs_view(pairs@)[j].1),
        decreases pairs.len() - i,
    {
        assert(pairs_view(pairs@)[i as int].1 == pairs@[i as int].1@);
        match validate_media_filename(pairs[i].1.as_str()) {
            Err(e) => {
                let ghost k = pairs_view(pairs@)[i as int].0;
                assert(assignments@.dom().contains(k) && is_unsafe_filename(assignments@[k]));
                return Err(e);
            },
            Ok(()) => {},
        }
        i += 1;
    }
    proof {
        assert forall|k: Seq<char>| #[trigger] assignments@.dom().contains(k) implies !is_unsafe_filename(
            assignments@[k],
        ) by {
            let j = choose|j: int| 0 <= j < pairs@.len() && pairs_view(pairs@)[j].0 == k;
            assert(assignments@[pairs_view(pairs@)[j].0] == pairs_view(pairs@)[j].1);
        }
    }
    Ok(())
}

/// The scenes after saving one: it replaces the first scene of its name,
/// or is added at the end.
pub open spec fn saved_spec(scenes: Seq<Scene>, scene: Scene) -> Seq<Scene> {
    match first_named(scenes, scene.name@) {
        Some(i) => scenes.update(i, scene),
        None => scenes.push(scene),
    }
}

/// Save a scene (create or update by name), after checking that its media
/// files are safe names.
pub fn save_scene(scenes: &mut Vec<Scene>, scene: Scene) -> (r: Result<(), ApiError>)
    ensures
        r is Ok <==> forall|k: Seq<char>| #[trigger] scene.assignments@.dom().contains(k) ==> !is_unsafe_filename(
            scene.assignments@[k],
        ),
        r matches Err(e) ==> is_error(e, STATUS_BAD_REQUEST, "Invalid media filename"@) && final(scenes)@ == old(
            scenes,
        )@,
        r is Ok ==> final(scenes)@ == saved_spec(old(scenes)@, scene),
{
    match validate_scene_assignments(&scene.assignments) {
        Err(e) => return Err(e),
        Ok(()) => {},
    }
    match find_scene_index(scenes, scene.name.as_str()) {
        Some(i) => {
            scenes.set(i, scene);
        },
        None => {
            scenes.push(scene);
        },
    }
    Ok(())
}

/// The scenes without those of the name, in order.
pub open spec fn deleted_spec(scenes: Seq<Scene>, name: Seq<char>) -> Seq<Scene>
    decreases scenes.len(),
{
    if scenes.len() == 0 {
        seq![]
    } else {
        let r = deleted_spec(scenes.drop_last(), name);
        if scenes.last().name@ != name {
            r.push(scenes.last())
        } else {
            r
        }
    }
}

/// Delete every scene of the name.
pub fn delete_scene(scenes: &mut Vec<Scene>, name: &str)
    ensures
        final(scenes)@ == deleted_spec(old(scenes)@, name@),
{
    let mut rest: Vec<Scene> = Vec::new();
    std::mem::swap(&mut rest, scenes);
    let ghost start = rest@;
    let mut kept: Vec<Scene> = Vec::new();
    while rest.len() > 0
        invariant
            rest@.len() <= start.len(),
            rest@ == start.skip(start.len() - rest@.len()),
            kept@ == deleted_spec(start.take(start.len() - rest@.len()), name@),
        decreases rest@.len(),
    {
        let ghost i = start.len() - rest@.len();
        let s = rest.remove(0);
        assert(start[i] == s);
        assert(start.take(i + 1).drop_last() =~= start.take(i));
        assert(start.take(i + 1).last() == s);
        assert(rest@ =~= start.skip(i + 1));
        if !str_eq(s.name.as_str(), name) {
            kept.push(s);
        }
    }
    assert(start.take(start.len() as int) =~= start);
    *scenes = kept;
}

/// The assignments of the scene of that name.
pub fn scene_assignments(scenes: &[Scene], name: &str) -> (r: Result<Vec<(String, String)>, ApiError>)
    ensures
        match first_named(scenes@, name@) {
            None => r matches Err(e) && is_error(e, STATUS_NOT_FOUND, "Scene not found: "@ + name@),
            Some(i) => r matches Ok(pairs) && pairs_view(pairs@).len() == scenes@[i].assignments@.len() && (forall|j: int|
                0 <= j < pairs@.len() ==> scenes@[i].assignments@.dom().contains(#[trigger] pairs_view(pairs@)[j].0)
                    && scenes@[i].assignments@[pairs_view(pairs@)[j].0] == pairs_view(pairs@)[j].1) && (forall|
                k: Seq<char>,
            |
                #[trigger] scenes@[i].assignments@.dom().contains(k) ==> exists|j: int|
                    0 <= j < pairs@.len() && pairs_view(pairs@)[j].0 == k),
        },
{
    match find_scene_index(scenes, name) {
        Some(i) => Ok(scenes[i].assignments.to_pairs()),
        None => {
            let mut m = "Scene not found: ".to_string();
            append(&mut m, name);
            Err(error_response(STATUS_NOT_FOUND, m))
        },
    }
}

/// The outcome of applying a scene on one device.
#[derive(Debug, Clone)]
pub struct SceneApplyResult {
    pub device_uuid: String,
    pub success: bool,
    pub error: Option<String>,
}

/// The result for one device: success, or the error that stopped it.
pub fn scene_apply_result(device_uuid: String, outcome: Result<(), String>) -> (r: SceneApplyResult)
    ensures
        r.device_uuid == device_uuid,
        r.success == outcome is Ok,
        match outcome {
            Ok(()) => r.error is None,
            Err(e) => r.error == Some(e),
        },
{
    match outcome {
        Ok(()) => SceneApplyResult { device_uuid, success: true, error: None },
        Err(e) => SceneApplyResult { device_uuid, success: false, error: Some(e) },
    }
}

/// Applying a scene: its assignments (device UUID, media file) in turn,
/// and the result of each one done so far. The caller plays `current()` on
/// its device, reports how that went with `record`, and marks the device
/// playing when `record` says so.
pub struct SceneApplyRun {
    pub assignments: Vec<(String, String)>,
    pub results: Vec<SceneApplyResult>,
}

/// `r` is the result that applying `assignment` with `outcome` gives.
pub open spec fn result_of(r: SceneApplyResult, assignment: (String, String), outcome: Result<(), String>) -> bool {
    &&& r.device_uuid@ == assignment.0@
    &&& r.success == outcome is Ok
    &&& match outcome {
        Ok(()) => r.error is None,
        Err(e) => r.error == Some(e),
    }
}

impl SceneApplyRun {
    /// A run over the assignments, with nothing done yet.
    pub fn new(assignments: Vec<(String, String)>) -> (r: SceneApplyRun)
        ensures
            r.assignments@ == assignments@,
            r.results@.len() == 0,
    {
        SceneApplyRun { assignments, results: Vec::new() }
    }

    /// The assignment to apply next; none when every one has a result.
    pub fn current(&self) -> (r: Option<(String, String)>)
        ensures
            self.results@.len() < self.assignments@.len() ==> (r matches Some(p) && p.0@
                == self.assignments@[self.results@.len() as int].0@ && p.1@ == self.assignments@[self.results@.len() as int].1@),
            self.results@.len() >= self.assignments@.len() ==> r is None,
    {
        let i = self.results.len();
        if i < self.assignments.len() {
            let a = &self.assignments[i];
            Some((a.0.as_str().to_string(), a.1.as_str().to_string()))
        } else {
            None
        }
    }

    /// Record how applying the current assignment went; on success, the
    /// device UUID and media file to mark as playing.
    pub fn record(&mut self, outcome: Result<(), String>) -> (mark: Option<(String, String)>)
        requires
            old(self).results@.len() < old(self).assignments@.len(),
        ensures
            final(self).assignments@ == old(self).assignments@,
            final(self).results@.len() == old(self).results@.len() + 1,
            final(self).results@.take(old(self).results@.len() as int) == old(self).results@,
            result_of(
                final(self).results@[old(self).results@.len() as int],
                old(self).assignments@[old(self).results@.len() as int],
                outcome,
            ),
            outcome is Ok ==> (mark matches Some(p) && p.0@ == old(self).assignments@[old(self).results@.len() as int].0@
                && p.1@ == old(self).assignments@[old(self).results@.len() as int].1@),
            outcome is Err ==> mark is None,
    {
        let i = self.results.len();
        let uuid = self.assignments[i].0.as_str().to_string();
        let mark = if outcome.is_ok() {
            Some((self.assignments[i].0.as_str().to_string(), self.assignments[i].1.as_str().to_string()))
        } else {
            None
        };
        let r = scene_apply_result(uuid, outcome);
        let ghost before = self.results@;
        self.results.push(r);
        assert(self.results@.take(before.len() as int) =~= before);
        mark
    }
}

/// Drop the assignments of a deleted media file from every scene.
pub fn forget_media_in_scenes(scenes: &mut Vec<Scene>, filename: &str)
    ensures
        final(scenes)@.len() == old(scenes)@.len(),
        forall|i: int|
            0 <= i < old(scenes)@.len() ==> (#[trigger] final(scenes)@[i]).name == old(scenes)@[i].name && (forall|
                k: Seq<char>,
            |
                #[trigger] final(scenes)@[i].assignments@.dom().contains(k) <==> (old(scenes)@[i].assignments@.dom().contains(
                    k,
                ) && old(scenes)@[i].assignments@[k] != filename@)) && (forall|k: Seq<char>|
                #[trigger] final(scenes)@[i].assignments@.dom().contains(k) ==> final(scenes)@[i].assignments@[k] == old(
                    scenes,
                )@[i].assignments@[k]),
{
    let mut rest: Vec<Scene> = Vec::new();
    std::mem::swap(&mut rest, scenes);
    let ghost start = rest@;
    let mut out: Vec<Scene> = Vec::new();
    while rest.len() > 0
        invariant
            out@.len() + rest@.len() == start.len(),
            rest@ == start.skip(out@.len() as int),
            forall|i: int|
                0 <= i < out@.len() ==> (#[trigger] out@[i]).name == start[i].name && (forall|k: Seq<char>|
                    #[trigger] out@[i].assignments@.dom().contains(k) <==> (start[i].assignments@.dom().contains(k)
                        && start[i].assignments@[k] != filename@)) && (forall|k: Seq<char>|
                    #[trigger] out@[i].assignments@.dom().contains(k) ==> out@[i].assignments@[k]
                        == start[i].assignments@[k]),
        decreases rest@.len(),
    {
        let ghost i = out@.len() as int;
        let mut s = rest.remove(0);
        assert(s == start[i]);
        assert(rest@ =~= start.skip(i + 1));
        s.assignments.remove_media(filename);
        out.push(s);
    }
    *scenes = out;
}


/// Give every assignment of a renamed media file its new name, in every
/// scene.
pub fn rename_media_in_scenes(scenes: &mut Vec<Scene>, from: &str, to: &str)
    ensures
        final(scenes)@.len() == old(scenes)@.len(),
        forall|i: int|
            0 <= i < old(scenes)@.len() ==> (#[trigger] final(scenes)@[i]).name == old(scenes)@[i].name
                && final(scenes)@[i].assignments@.dom() == old(scenes)@[i].assignments@.dom() && (forall|k: Seq<char>|
                #[trigger] old(scenes)@[i].assignments@.dom().contains(k) ==> final(scenes)@[i].assignments@[k] == if old(
                    scenes,
                )@[i].assignments@[k] == from@ {
                    to@
                } else {
                    old(scenes)@[i].assignments@[k]
                }),
{
    let mut rest: Vec<Scene> = Vec::new();
    std::mem::swap(&mut rest, scenes);
    let ghost start = rest@;
    let mut out: Vec<Scene> = Vec::new();
    while rest.len() > 0
        invariant
            out@.len() + rest@.len() == start.len(),
            rest@ == start.skip(out@.len() as int),
            forall|i: int|
                0 <= i < out@.len() ==> (#[trigger] out@[i]).name == start[i].name && out@[i].assignments@.dom()
                    == start[i].assignments@.dom() && (forall|k: Seq<char>|
                    #[trigger] start[i].assignments@.dom().contains(k) ==> out@[i].assignments@[k] == if start[i].assignments@[k]
                        == from@ {
                        to@
                    } else {
                        start[i].assignments@[k]
                    }),
        decreases rest@.len(),
    {
        let ghost i = out@.len() as int;
        let mut s = rest.remove(0);
        assert(s == start[i]);
        assert(rest@ =~= start.skip(i + 1));
        s.assignments.rename_media(from, to);
        out.push(s);
    }
    *scenes = out;
}

/// Saving a scene keeps scene names distinct, and the scene of its name is
/// then the saved one.
pub proof fn lemma_save_scene_upsert(scenes: Seq<Scene>, scene: Scene)
    requires
        names_distinct(scenes),
    ensures
        names_distinct(saved_spec(scenes, scene)),
        first_named(saved_spec(scenes, scene), scene.name@) matches Some(k) && saved_spec(scenes, scene)[k] == scene,
        forall|n: Seq<char>|
            n != scene.name@ ==> first_named(saved_spec(scenes, scene), n) == first_named(scenes, n),
{
    lemma_first_named_from(scenes, scene.name@, 0);
    let r = saved_spec(scenes, scene);
    lemma_first_named_from(r, scene.name@, 0);
    assert forall|n: Seq<char>| n != scene.name@ implies first_named(r, n) == first_named(scenes, n) by {
        lemma_first_named_from(scenes, n, 0);
        lemma_first_named_from(r, n, 0);
        match first_named(scenes, n) {
            Some(k) => {
                assert(r[k] == scenes[k]) by {
                    if let Some(i) = first_named(scenes, scene.name@) {
                        assert(i != k);
                    }
                }
                if let Some(m) = first_named(r, n) {
                    if m < k {
                        if let Some(i) = first_named(scenes, scene.name@) {
                            if m != i {
                                assert(r[m] == scenes[m]);
                            }
                        } else {
                            assert(r[m] == scenes[m]);
                        }
                    }
                }
            },
            None => {
                if let Some(m) = first_named(r, n) {
                    if let Some(i) = first_named(scenes, scene.name@) {
                        if m != i {
                            assert(r[m] == scenes[m]);
                        }
                    } else {
                        if m < scenes.len() {
                            assert(r[m] == scenes[m]);
                        }
                    }
                }
            },
        }
    }
    match first_named(scenes, scene.name@) {
        Some(i) => {
            assert(names_distinct(r)) by {
                assert forall|a: int, b: int| 0 <= a < b < r.len() implies (#[trigger] r[a]).name@ != (#[trigger] r[b]).name@ by {
                    assert(scenes[a].name@ != scenes[b].name@);
                }
            }
            assert(r[i].name@ == scene.name@);
            if let Some(k) = first_named(r, scene.name@) {
                assert(k == i) by {
                    if k < i {
                        assert(r[k] == scenes[k]);
                    }
                }
            }
        },
        None => {
            assert(names_distinct(r)) by {
                assert forall|a: int, b: int| 0 <= a < b < r.len() implies (#[trigger] r[a]).name@ != (#[trigger] r[b]).name@ by {
                    if b < scenes.len() {
                        assert(scenes[a].name@ != scenes[b].name@);
                    } else {
                        assert(r[a] == scenes[a]);
                    }
                }
            }
            assert(r[scenes.len() as int].name@ == scene.name@);
            if let Some(k) = first_named(r, scene.name@) {
                if k < scenes.len() {
                    assert(r[k] == scenes[k]);
                }
            }
        },
    }
}

/// After deleting the scenes of a name none of that name is left, and the
/// others are kept in order.
pub proof fn lemma_delete_scene(scenes: Seq<Scene>, name: Seq<char>)
    ensures
        forall|i: int| 0 <= i < deleted_spec(scenes, name).len() ==> (#[trigger] deleted_spec(scenes, name)[i]).name@ != name,
        forall|j: int|
            0 <= j < scenes.len() && (#[trigger] scenes[j]).name@ != name ==> deleted_spec(scenes, name).contains(scenes[j]),
    decreases scenes.len(),
{
    if scenes.len() > 0 {
        let p = scenes.drop_last();
        lemma_delete_scene(p, name);
        let r = deleted_spec(p, name);
        let l = scenes.last();
        assert forall|j: int| 0 <= j < scenes.len() && (#[trigger] scenes[j]).name@ != name implies deleted_spec(
            scenes,
            name,
        ).contains(scenes[j]) by {
            if j < p.len() {
                assert(p[j] == scenes[j]);
                let m = choose|m: int| 0 <= m < r.len() && r[m] == p[j];
                if l.name@ != name {
                    assert(r.push(l)[m] == r[m]);
                }
            } else {
                assert(r.push(l)[r.len() as int] == l);
            }
        }
        if l.name@ != name {
            assert forall|i: int| 0 <= i < r.push(l).len() implies (#[trigger] r.push(l)[i]).name@ != name by {
                if i < r.len() {
                    assert(r.push(l)[i] == r[i]);
                }
            }
        }
    }
}

} // verus!
