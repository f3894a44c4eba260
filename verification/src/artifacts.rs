//! How artifact updates change a task's artifacts.

use vstd::prelude::*;

use crate::json;
use crate::protocol::{Artifact, ArtifactView, MembersView};
use crate::replica::Replica;
use crate::text;

verus! {

/// Where `artifacts` first has the artifact `id`.
pub open spec fn artifact_index(artifacts: Seq<ArtifactView>, id: Seq<char>) -> Option<int>
    decreases artifacts.len(),
{
    if artifacts.len() == 0 {
        None
    } else if artifacts[0].artifact_id == id {
        Some(0)
    } else {
        match artifact_index(artifacts.drop_first(), id) {
            Some(i) => Some(i + 1),
            None => None,
        }
    }
}

/// Metadata after a chunk brought more: the chunk's keys win.
pub open spec fn merged_metadata(
    kept: Option<MembersView>,
    brought: Option<MembersView>,
) -> Option<MembersView> {
    match (kept, brought) {
        (Some(base), Some(over)) => Some(json::with_members(base, over)),
        (None, over) => over,
        (base, None) => base,
    }
}

/// `artifact` continued by `chunk`: the chunk's parts follow, its metadata is
/// merged in, and the name, description and extensions stay.
pub open spec fn continued(artifact: ArtifactView, chunk: ArtifactView) -> ArtifactView {
    ArtifactView {
        parts: artifact.parts + chunk.parts,
        metadata: merged_metadata(artifact.metadata, chunk.metadata),
        ..artifact
    }
}

/// `artifacts` after an update. A continuing chunk extends the artifact it
/// names and is out of place when there is none; any other update replaces
/// the artifact it names, or is a new one.
pub open spec fn with_artifact(
    artifacts: Seq<ArtifactView>,
    update: ArtifactView,
    append: bool,
) -> Option<Seq<ArtifactView>> {
    match artifact_index(artifacts, update.artifact_id) {
        Some(i) => Some(
            artifacts.update(
                i,
                if append {
                    continued(artifacts[i], update)
                } else {
                    update
                },
            ),
        ),
        None => if append {
            None
        } else {
            Some(artifacts.push(update))
        },
    }
}

/// The first artifact with an identifier is where it is found.
pub proof fn lemma_artifact_index_at(artifacts: Seq<ArtifactView>, id: Seq<char>, i: int)
    requires
        0 <= i <= artifacts.len(),
        forall|k: int| 0 <= k < i ==> (#[trigger] artifacts[k]).artifact_id != id,
        i < artifacts.len() ==> artifacts[i].artifact_id == id,
    ensures
        artifact_index(artifacts, id) == (if i < artifacts.len() {
            Some(i)
        } else {
            None
        }),
    decreases i,
{
    if i > 0 {
        let rest = artifacts.drop_first();
        assert(artifacts[0].artifact_id != id);
        assert forall|k: int| 0 <= k < i - 1 implies (#[trigger] rest[k]).artifact_id != id by {
            assert(rest[k] == artifacts[k + 1]);
        }
        lemma_artifact_index_at(rest, id, i - 1);
    }
}

/// A found artifact is in range and has the identifier.
pub proof fn lemma_artifact_index_bounds(artifacts: Seq<ArtifactView>, id: Seq<char>)
    ensures
        artifact_index(artifacts, id) matches Some(i) ==> 0 <= i < artifacts.len()
            && artifacts[i].artifact_id == id,
        artifact_index(artifacts, id) is None ==> forall|k: int|
            0 <= k < artifacts.len() ==> (#[trigger] artifacts[k]).artifact_id != id,
    decreases artifacts.len(),
{
    if artifacts.len() > 0 && artifacts[0].artifact_id != id {
        let rest = artifacts.drop_first();
        lemma_artifact_index_bounds(rest, id);
        assert forall|k: int|
            artifact_index(artifacts, id) is None && 0 <= k < artifacts.len() implies (
        #[trigger] artifacts[k]).artifact_id != id by {
            if k > 0 {
                assert(rest[k - 1] == artifacts[k]);
            }
        }
    }
}

fn find_artifact(artifacts: &Vec<Artifact>, id: &str) -> (r: Option<usize>)
    ensures
        match r {
            Some(i) => i < artifacts@.len() && artifact_index(artifacts.deep_view(), id@) == Some(
                i as int,
            ),
            None => artifact_index(artifacts.deep_view(), id@) is None,
        },
{
    let mut i: usize = 0;
    while i < artifacts.len()
        invariant
            i <= artifacts@.len(),
            forall|k: int|
                0 <= k < i ==> (#[trigger] artifacts.deep_view()[k]).artifact_id != id@,
        decreases artifacts@.len() - i,
    {
        if text::same(artifacts[i].artifact_id.as_str(), id) {
            proof {
                lemma_artifact_index_at(artifacts.deep_view(), id@, i as int);
            }
            return Some(i);
        }
        i += 1;
    }
    proof {
        lemma_artifact_index_at(artifacts.deep_view(), id@, i as int);
    }
    None
}

fn continue_artifact(artifact: Artifact, chunk: &Artifact) -> (r: Artifact)
    ensures
        r.deep_view() == continued(artifact.deep_view(), chunk.deep_view()),
{
    let ghost before = artifact.deep_view();
    let ghost goal = continued(before, chunk.deep_view());
    let mut artifact = artifact;
    let ghost parts = artifact.parts.deep_view();
    let mut i: usize = 0;
    assert(parts + chunk.parts.deep_view().take(0) =~= parts);
    while i < chunk.parts.len()
        invariant
            i <= chunk.parts@.len(),
            artifact.parts.deep_view() == parts + chunk.parts.deep_view().take(i as int),
            artifact.artifact_id@ == before.artifact_id,
            artifact.name.deep_view() == before.name,
            artifact.description.deep_view() == before.description,
            artifact.metadata.deep_view() == before.metadata,
            artifact.extensions.deep_view() == before.extensions,
        decreases chunk.parts@.len() - i,
    {
        let ghost held = artifact.parts.deep_view();
        let part = chunk.parts[i].clone();
        let ghost view = part.deep_view();
        artifact.parts.push(part);
        proof {
            let all = chunk.parts.deep_view();
            assert(artifact.parts.deep_view() =~= held.push(view));
            assert(parts + all.take(i + 1) =~= (parts + all.take(i as int)).push(all[i as int]));
        }
        i += 1;
    }
    assert(chunk.parts.deep_view().take(i as int) =~= chunk.parts.deep_view());
    artifact.metadata = match artifact.metadata.take() {
        Some(base) => {
            let mut base = base;
            if let Some(over) = &chunk.metadata {
                json::merge_members(&mut base, over);
            }
            Some(base)
        },
        None => chunk.metadata.replica(),
    };
    artifact
}

/// Applies an update to `artifacts`. Nothing comes back when it continues an
/// artifact that is not there.
pub fn apply_artifact(artifacts: Vec<Artifact>, update: &Artifact, append: bool) -> (r: Option<
    Vec<Artifact>,
>)
    ensures
        r.deep_view() == with_artifact(artifacts.deep_view(), update.deep_view(), append),
{
    let ghost before = artifacts.deep_view();
    let mut artifacts = artifacts;
    match find_artifact(&artifacts, update.artifact_id.as_str()) {
        Some(i) => {
            let next = if append {
                continue_artifact(artifacts[i].clone(), update)
            } else {
                update.clone()
            };
            let ghost view = next.deep_view();
            artifacts.set(i, next);
            assert(artifacts.deep_view() =~= before.update(i as int, view));
            Some(artifacts)
        },
        None => {
            if append {
                None
            } else {
                let next = update.clone();
                let ghost view = next.deep_view();
                artifacts.push(next);
                assert(artifacts.deep_view() =~= before.push(view));
                Some(artifacts)
            }
        },
    }
}

/// Updates of one artifact leave every other artifact as it was, and no
/// artifact changes places.
pub proof fn artifacts_are_independent(
    artifacts: Seq<ArtifactView>,
    update: ArtifactView,
    append: bool,
    i: int,
)
    requires
        0 <= i < artifacts.len(),
        with_artifact(artifacts, update, append) is Some,
    ensures
        ({
            let after = with_artifact(artifacts, update, append)->0;
            &&& artifacts.len() <= after.len()
            &&& after[i].artifact_id == artifacts[i].artifact_id
            &&& artifacts[i].artifact_id != update.artifact_id ==> after[i] == artifacts[i]
        }),
{
    lemma_artifact_index_bounds(artifacts, update.artifact_id);
}

/// Artifact identifiers stay distinct through every update.
pub proof fn artifact_ids_stay_distinct(
    artifacts: Seq<ArtifactView>,
    update: ArtifactView,
    append: bool,
)
    requires
        with_artifact(artifacts, update, append) is Some,
        forall|i: int, j: int|
            0 <= i < j < artifacts.len() ==> (#[trigger] artifacts[i]).artifact_id != (
            #[trigger] artifacts[j]).artifact_id,
    ensures
        ({
            let after = with_artifact(artifacts, update, append)->0;
            forall|i: int, j: int|
                0 <= i < j < after.len() ==> (#[trigger] after[i]).artifact_id != (
                #[trigger] after[j]).artifact_id
        }),
{
    lemma_artifact_index_bounds(artifacts, update.artifact_id);
    let after = with_artifact(artifacts, update, append)->0;
    assert forall|i: int, j: int| 0 <= i < j < after.len() implies (
    #[trigger] after[i]).artifact_id != (#[trigger] after[j]).artifact_id by {
        assert(artifacts[i].artifact_id == after[i].artifact_id);
        if j < artifacts.len() {
            assert(artifacts[j].artifact_id == after[j].artifact_id);
        }
    }
}

/// An artifact sent in chunks ends up with the parts of all its chunks, in
/// the order they were sent.
pub proof fn chunks_keep_part_boundaries(
    artifacts: Seq<ArtifactView>,
    first: ArtifactView,
    chunk: ArtifactView,
)
    requires
        chunk.artifact_id == first.artifact_id,
    ensures
        ({
            let started = with_artifact(artifacts, first, false)->0;
            let after = with_artifact(started, chunk, true);
            let at = artifact_index(started, first.artifact_id);
            &&& after is Some
            &&& at is Some
            &&& after->0[at->0] == continued(first, chunk)
            &&& after->0[at->0].parts == first.parts + chunk.parts
        }),
{
    lemma_artifact_index_bounds(artifacts, first.artifact_id);
    let started = with_artifact(artifacts, first, false)->0;
    lemma_artifact_index_bounds(started, first.artifact_id);
    match artifact_index(artifacts, first.artifact_id) {
        Some(i) => {
            assert(started[i].artifact_id == first.artifact_id);
            assert(started[i] == first);
            lemma_index_is_first(artifacts, first.artifact_id, i);
            assert forall|k: int| 0 <= k < i implies (#[trigger] started[k]).artifact_id
                != first.artifact_id by {
                assert(started[k] == artifacts[k]);
            }
            lemma_artifact_index_at(started, first.artifact_id, i);
        },
        None => {
            let i = artifacts.len() as int;
            assert(started[i] == first);
            assert forall|k: int| 0 <= k < i implies (#[trigger] started[k]).artifact_id
                != first.artifact_id by {
                assert(started[k] == artifacts[k]);
            }
            lemma_artifact_index_at(started, first.artifact_id, i);
        },
    }
}

proof fn lemma_index_is_first(artifacts: Seq<ArtifactView>, id: Seq<char>, i: int)
    requires
        artifact_index(artifacts, id) == Some(i),
    ensures
        forall|k: int| 0 <= k < i ==> (#[trigger] artifacts[k]).artifact_id != id,
    decreases artifacts.len(),
{
    lemma_artifact_index_bounds(artifacts, id);
    if artifacts.len() > 0 && artifacts[0].artifact_id != id {
        let rest = artifacts.drop_first();
        lemma_index_is_first(rest, id, i - 1);
        assert forall|k: int| 0 <= k < i implies (#[trigger] artifacts[k]).artifact_id != id by {
            if k > 0 {
                assert(rest[k - 1] == artifacts[k]);
            }
        }
    }
}

} // verus!
