//! The mount orchestrator's decision step: join the loaded pool definitions
//! with the mount definitions on pool identifier. A mount that names an
//! unknown pool identifier is a fatal configuration error; an empty mount
//! list is a valid plan that mounts nothing.

use vstd::prelude::*;

use crate::error::FuseError;

verus! {

/// One pool the registry defines: an identifier and the backend root path
/// it serves.
#[derive(Clone, Debug)]
pub struct PoolDef {
    pub pool_id: u64,
    pub path: String,
}

/// One mount the registry asks for: where to mount, and which pool to serve
/// there.
#[derive(Clone, Debug)]
pub struct MountDef {
    pub pool_id: u64,
    pub mount_point: String,
}

/// One resolved mount: the mount point and the backend root that will be
/// served there.
#[derive(Clone, Debug)]
pub struct MountPlan {
    pub mount_point: String,
    pub pool_root: String,
}

/// The backend root of pool `id` among `pools`, or `None` when no pool has
/// that identifier. Where an identifier occurs twice, the later definition
/// wins, as in a lookup table filled in order.
pub open spec fn pool_lookup(pools: Seq<PoolDef>, id: u64) -> Option<Seq<char>>
    decreases pools.len(),
{
    if pools.len() == 0 {
        None
    } else if pools.last().pool_id == id {
        Some(pools.last().path@)
    } else {
        pool_lookup(pools.drop_last(), id)
    }
}

/// The backend root of pool `id`, exactly as `pool_lookup` gives it.
fn find_pool(pools: &Vec<PoolDef>, id: u64) -> (r: Option<String>)
    ensures
        match r {
            Some(s) => pool_lookup(pools@, id) == Some(s@),
            None => pool_lookup(pools@, id) is None,
        },
{
    let n = pools.len();
    let mut i: usize = n;
    proof {
        assert(pools@.take(n as int) =~= pools@);
    }
    while 0 < i
        invariant
            i <= n,
            n == pools@.len(),
            pool_lookup(pools@, id) == pool_lookup(pools@.take(i as int), id),
        decreases i,
    {
        proof {
            assert(pools@.take(i as int).last() == pools@[i - 1]);
        }
        if pools[i - 1].pool_id == id {
            return Some(pools[i - 1].path.clone());
        }
        proof {
            assert(pools@.take(i as int).drop_last() =~= pools@.take(i as int - 1));
        }
        i = i - 1;
    }
    proof {
        assert(pools@.take(0) =~= Seq::<PoolDef>::empty());
    }
    None
}

/// Join every mount definition with its pool. Succeeds, with one plan per
/// mount in order, exactly when every mount's pool identifier is defined;
/// the first mount naming an unknown pool identifier fails the whole plan,
/// with that mount point and identifier named in the error.
pub fn plan_mounts(pools: &Vec<PoolDef>, mounts: &Vec<MountDef>) -> (r: Result<
    Vec<MountPlan>,
    FuseError,
>)
    ensures
        (r is Ok) <==> (forall|i: int|
            0 <= i < mounts@.len() ==> pool_lookup(pools@, #[trigger] mounts@[i].pool_id) is Some),
        r matches Ok(v) ==> {
            &&& v@.len() == mounts@.len()
            &&& forall|i: int| 0 <= i < mounts@.len() ==> {
                &&& (#[trigger] v@[i]).mount_point@ == mounts@[i].mount_point@
                &&& Some(v@[i].pool_root@) == pool_lookup(pools@, mounts@[i].pool_id)
            }
        },
        r matches Err(e) ==> e matches FuseError::MountConfig { mount_point, pool_id }
            && exists|i: int| {
            &&& 0 <= i < mounts@.len()
            &&& pool_lookup(pools@, (#[trigger] mounts@[i]).pool_id) is None
            &&& mount_point@ == mounts@[i].mount_point@
            &&& pool_id == mounts@[i].pool_id
            &&& forall|j: int| 0 <= j < i ==> pool_lookup(
                pools@,
                (#[trigger] mounts@[j]).pool_id,
            ) is Some
        },
{
    let n = mounts.len();
    let mut out: Vec<MountPlan> = Vec::new();
    let mut i: usize = 0;
    while i < n
        invariant
            i <= n,
            n == mounts@.len(),
            out@.len() == i,
            forall|j: int| 0 <= j < i ==> pool_lookup(
                pools@,
                (#[trigger] mounts@[j]).pool_id,
            ) is Some,
            forall|j: int| 0 <= j < i ==> {
                &&& (#[trigger] out@[j]).mount_point@ == mounts@[j].mount_point@
                &&& Some(out@[j].pool_root@) == pool_lookup(pools@, mounts@[j].pool_id)
            },
        decreases n - i,
    {
        match find_pool(pools, mounts[i].pool_id) {
            Some(path) => {
                out.push(MountPlan { mount_point: mounts[i].mount_point.clone(), pool_root: path });
            },
            None => {
                return Err(
                    FuseError::MountConfig {
                        mount_point: mounts[i].mount_point.clone(),
                        pool_id: mounts[i].pool_id,
                    },
                );
            },
        }
        i = i + 1;
    }
    Ok(out)
}

} // verus!
