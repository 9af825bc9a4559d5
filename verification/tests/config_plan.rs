use rfs_fuse::FuseError;
use rfs_fuse::MountDef;
use rfs_fuse::PoolDef;
use rfs_fuse::plan_mounts;

#[test]
fn no_mounts_is_an_empty_plan() {
    let pools = vec![PoolDef { pool_id: 3, path: "/data".to_string() }];
    let mounts: Vec<MountDef> = Vec::new();
    let plan = plan_mounts(&pools, &mounts).unwrap();
    assert!(plan.is_empty());
}

#[test]
fn unknown_pool_id_fails_naming_mount_and_pool() {
    let pools = vec![PoolDef { pool_id: 3, path: "/data".to_string() }];
    let mounts = vec![MountDef { pool_id: 7, mount_point: "/mnt/backup".to_string() }];
    match plan_mounts(&pools, &mounts) {
        Err(FuseError::MountConfig { mount_point, pool_id }) => {
            assert_eq!(mount_point, "/mnt/backup");
            assert_eq!(pool_id, 7);
        }
        _ => panic!("a mount naming an undefined pool must fail the plan"),
    }
}

#[test]
fn mounts_join_their_pools_in_order() {
    let pools = vec![
        PoolDef { pool_id: 1, path: "/srv/one".to_string() },
        PoolDef { pool_id: 2, path: "/srv/two".to_string() },
    ];
    let mounts = vec![
        MountDef { pool_id: 2, mount_point: "/mnt/b".to_string() },
        MountDef { pool_id: 1, mount_point: "/mnt/a".to_string() },
    ];
    let plan = plan_mounts(&pools, &mounts).unwrap();
    assert_eq!(plan.len(), 2);
    assert_eq!(plan[0].mount_point, "/mnt/b");
    assert_eq!(plan[0].pool_root, "/srv/two");
    assert_eq!(plan[1].mount_point, "/mnt/a");
    assert_eq!(plan[1].pool_root, "/srv/one");
}

#[test]
fn later_pool_definition_wins() {
    let pools = vec![
        PoolDef { pool_id: 5, path: "/old".to_string() },
        PoolDef { pool_id: 5, path: "/new".to_string() },
    ];
    let mounts = vec![MountDef { pool_id: 5, mount_point: "/mnt".to_string() }];
    let plan = plan_mounts(&pools, &mounts).unwrap();
    assert_eq!(plan[0].pool_root, "/new");
}

#[test]
fn first_unresolvable_mount_is_reported() {
    let pools = vec![PoolDef { pool_id: 1, path: "/srv/one".to_string() }];
    let mounts = vec![
        MountDef { pool_id: 1, mount_point: "/mnt/ok".to_string() },
        MountDef { pool_id: 7, mount_point: "/mnt/seven".to_string() },
        MountDef { pool_id: 9, mount_point: "/mnt/nine".to_string() },
    ];
    match plan_mounts(&pools, &mounts) {
        Err(FuseError::MountConfig { mount_point, pool_id }) => {
            assert_eq!(mount_point, "/mnt/seven");
            assert_eq!(pool_id, 7);
        }
        _ => panic!("the plan must fail on the first unresolvable mount"),
    }
}
