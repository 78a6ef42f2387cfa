use crate::camera::Camera;
use crate::sync_features::SyncFeatures;
use crate::viewer::ViewerUpdateStatus;
use vstd::prelude::*;

verus! {

/// Position of the first viewer whose camera is being changed, or the number
/// of viewers where none is.
pub open spec fn first_changing(status: Seq<ViewerUpdateStatus>) -> int
    decreases status.len(),
{
    if status.len() == 0 {
        0
    } else if status[0].spec_changing() {
        0
    } else {
        1 + first_changing(status.drop_first())
    }
}

/// What the viewers do together after each has taken its input.
#[derive(Debug, Clone, Copy, PartialEq, Eq, Structural)]
pub struct SyncPlan {
    /// The viewer whose camera the others take over, if any.
    pub source: Option<usize>,
    /// False where no viewer may request tiles: the view that all follow is
    /// still being zoomed or dragged vertically.
    pub allow_tile_requests: bool,
}

/// The plan for viewers in the states `status`. With a setting kept in
/// common, the first viewer that is being changed leads the others.
pub open spec fn plan_of(status: Seq<ViewerUpdateStatus>, any: bool) -> SyncPlan {
    if any && first_changing(status) < status.len() {
        SyncPlan {
            source: Some(first_changing(status) as usize),
            allow_tile_requests: status[first_changing(status)].spec_allows_tile_requests(),
        }
    } else {
        SyncPlan { source: None, allow_tile_requests: true }
    }
}

/// Decides which viewer leads, and whether tiles may be requested.
pub fn plan_sync(status: &Vec<ViewerUpdateStatus>, sync: &SyncFeatures) -> (plan: SyncPlan)
    ensures
        plan == plan_of(status@, sync.spec_any()),
{
    if !sync.any() {
        return SyncPlan { source: None, allow_tile_requests: true };
    }
    let mut i: usize = 0;
    assert(status@.skip(0) =~= status@);
    while i < status.len()
        invariant
            i <= status@.len(),
            sync.spec_any(),
            first_changing(status@) == i + first_changing(status@.skip(i as int)),
        decreases status@.len() - i,
    {
        proof {
            let rest = status@.skip(i as int);
            assert(rest[0] == status@[i as int]);
            assert(rest.drop_first() =~= status@.skip(i + 1));
        }
        if status[i].changing() {
            return SyncPlan {
                source: Some(i),
                allow_tile_requests: status[i].allows_tile_requests(),
            };
        }
        i += 1;
    }
    SyncPlan { source: None, allow_tile_requests: true }
}

/// Copies the settings that `features` enables from the camera at `index` to
/// all the others.
pub fn sync_cameras(cameras: &mut Vec<Camera>, index: usize, features: SyncFeatures)
    requires
        index < old(cameras)@.len(),
    ensures
        final(cameras)@.len() == old(cameras)@.len(),
        final(cameras)@[index as int] == old(cameras)@[index as int],
        forall|i: int|
            0 <= i < final(cameras)@.len() && i != index ==> #[trigger] final(cameras)@[i] == old(cameras)@[i].spec_synced(old(cameras)@[index as int], features),
{
    let source = cameras[index];
    let mut i: usize = 0;
    while i < cameras.len()
        invariant
            i <= cameras@.len(),
            index < cameras@.len(),
            cameras@.len() == old(cameras)@.len(),
            source == old(cameras)@[index as int],
            cameras@[index as int] == source,
            forall|j: int|
                0 <= j < i && j != index ==> #[trigger] cameras@[j] == old(cameras)@[j].spec_synced(
                    source,
                    features,
                ),
            forall|j: int| i <= j < cameras@.len() ==> cameras@[j] == old(cameras)@[j],
        decreases cameras@.len() - i,
    {
        if i != index {
            let camera = cameras[i].synced(&source, features);
            cameras.set(i, camera);
        }
        i += 1;
    }
}

} // verus!
