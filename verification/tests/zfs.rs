use yanos_backend::error::AppError;
use yanos_backend::zfs::{
    dataset_pool_name, dataset_to_info, get_dataset, get_pool, pool_state_t, pools_listed,
    zfs_prop_t, zfs_type_t, zpool_prop_t, zpool_status_t, DatasetInfo, PoolInfo, ZfsHandle,
    ZpoolHandle,
};

#[test]
fn test_pool_state_enum_values() {
    // Verify enum values match C definitions
    assert_eq!(pool_state_t::POOL_STATE_ACTIVE as i32, 0);
    assert_eq!(pool_state_t::POOL_STATE_EXPORTED as i32, 1);
    assert_eq!(pool_state_t::POOL_STATE_DESTROYED as i32, 2);
    assert_eq!(pool_state_t::POOL_STATE_SPARE as i32, 3);
    assert_eq!(pool_state_t::POOL_STATE_L2CACHE as i32, 4);
    assert_eq!(pool_state_t::POOL_STATE_UNINITIALIZED as i32, 5);
    assert_eq!(pool_state_t::POOL_STATE_UNAVAIL as i32, 6);
    assert_eq!(pool_state_t::POOL_STATE_POTENTIALLY_ACTIVE as i32, 7);
}

#[test]
fn test_zfs_type_enum_values() {
    // Verify enum values match C definitions (bit flags)
    assert_eq!(zfs_type_t::ZFS_TYPE_FILESYSTEM.value(), 1);
    assert_eq!(zfs_type_t::ZFS_TYPE_SNAPSHOT.value(), 2);
    assert_eq!(zfs_type_t::ZFS_TYPE_VOLUME.value(), 4);
    assert_eq!(zfs_type_t::ZFS_TYPE_POOL.value(), 8);
    assert_eq!(zfs_type_t::ZFS_TYPE_BOOKMARK.value(), 16);
}

#[test]
fn test_zpool_prop_enum_values() {
    assert_eq!(zpool_prop_t::ZPOOL_PROP_INVAL.value(), -1);
    assert_eq!(zpool_prop_t::ZPOOL_PROP_NAME.value(), 0);
    assert_eq!(zpool_prop_t::ZPOOL_PROP_SIZE.value(), 1);
}

#[test]
fn test_zfs_prop_enum_values() {
    assert_eq!(zfs_prop_t::ZFS_PROP_INVAL.value(), -1);
    assert_eq!(zfs_prop_t::ZFS_PROP_TYPE.value(), 0);
    assert_eq!(zfs_prop_t::ZFS_PROP_CREATION.value(), 1);
    assert_eq!(zfs_prop_t::ZFS_PROP_USED.value(), 2);
}

#[test]
fn test_zpool_status_enum_values() {
    assert_eq!(zpool_status_t::ZPOOL_STATUS_CORRUPT_CACHE as i32, 0);
    // ZPOOL_STATUS_OK is the last status value (after all error statuses)
    assert_eq!(zpool_status_t::ZPOOL_STATUS_OK as i32, 27);
}

#[test]
fn test_pool_info_struct() {
    let pool = PoolInfo {
        name: "rpool".to_string(),
        size: 100 * 1024 * 1024 * 1024,
        allocated: 30 * 1024 * 1024 * 1024,
        free: 70 * 1024 * 1024 * 1024,
        capacity: 30,
        fragmentation: 5,
        health: "ONLINE".to_string(),
        state: "ACTIVE".to_string(),
        altroot: None,
    };

    assert_eq!(pool.name, "rpool");
    assert_eq!(pool.capacity, 30);
    assert!(pool.altroot.is_none());
}

#[test]
fn test_pool_info_with_altroot() {
    let pool = PoolInfo {
        name: "backup".to_string(),
        size: 0,
        allocated: 0,
        free: 0,
        capacity: 0,
        fragmentation: 0,
        health: "ONLINE".to_string(),
        state: "ACTIVE".to_string(),
        altroot: Some("/mnt/backup".to_string()),
    };

    assert_eq!(pool.altroot, Some("/mnt/backup".to_string()));
}

#[test]
fn test_dataset_info_struct() {
    let ds = DatasetInfo {
        name: "rpool/ROOT/omnios".to_string(),
        pool: "rpool".to_string(),
        dataset_type: "filesystem".to_string(),
        used: 10 * 1024 * 1024 * 1024,
        available: 60 * 1024 * 1024 * 1024,
        referenced: 10 * 1024 * 1024 * 1024,
        compressratio: 150,
        mountpoint: Some("/".to_string()),
        compression: "lz4".to_string(),
    };

    assert_eq!(ds.name, "rpool/ROOT/omnios");
    assert_eq!(ds.pool, "rpool");
    assert_eq!(ds.dataset_type, "filesystem");
    assert_eq!(ds.mountpoint, Some("/".to_string()));
}

#[test]
fn test_dataset_info_volume() {
    let ds = DatasetInfo {
        name: "rpool/swap".to_string(),
        pool: "rpool".to_string(),
        dataset_type: "volume".to_string(),
        used: 2 * 1024 * 1024 * 1024,
        available: 0,
        referenced: 2 * 1024 * 1024 * 1024,
        compressratio: 100,
        mountpoint: None,
        compression: "off".to_string(),
    };

    assert_eq!(ds.dataset_type, "volume");
    assert!(ds.mountpoint.is_none());
}

#[test]
fn test_pool_info_clone() {
    let pool = PoolInfo {
        name: "test".to_string(),
        size: 100,
        allocated: 50,
        free: 50,
        capacity: 50,
        fragmentation: 10,
        health: "ONLINE".to_string(),
        state: "ACTIVE".to_string(),
        altroot: None,
    };

    let cloned = pool.clone();
    assert_eq!(cloned.name, pool.name);
    assert_eq!(cloned.size, pool.size);
}

#[test]
fn test_dataset_info_clone() {
    let ds = DatasetInfo {
        name: "test/data".to_string(),
        pool: "test".to_string(),
        dataset_type: "filesystem".to_string(),
        used: 100,
        available: 900,
        referenced: 100,
        compressratio: 100,
        mountpoint: Some("/data".to_string()),
        compression: "lz4".to_string(),
    };

    let cloned = ds.clone();
    assert_eq!(cloned.name, ds.name);
    assert_eq!(cloned.mountpoint, ds.mountpoint);
}

fn sample_pool(state: pool_state_t, health: Option<&str>, altroot: Option<&str>) -> ZpoolHandle {
    ZpoolHandle {
        name: "rpool".to_string(),
        state,
        status: zpool_status_t::ZPOOL_STATUS_OK,
        size: 1000,
        allocated: 300,
        free: 700,
        fragmentation: 5,
        capacity: 30,
        health_prop: health.map(|h| h.to_string()),
        altroot_prop: altroot.map(|a| a.to_string()),
    }
}

#[test]
fn get_pool_reports_the_opened_pool() {
    let info = get_pool(Ok(sample_pool(pool_state_t::POOL_STATE_ACTIVE, Some("ONLINE"), Some("-"))))
        .unwrap();
    assert_eq!(info.name, "rpool");
    assert_eq!(info.size, 1000);
    assert_eq!(info.allocated, 300);
    assert_eq!(info.free, 700);
    assert_eq!(info.capacity, 30);
    assert_eq!(info.fragmentation, 5);
    assert_eq!(info.health, "ONLINE");
    assert_eq!(info.state, "ACTIVE");
    assert_eq!(info.altroot, None);
}

#[test]
fn get_pool_fallbacks_and_altroot() {
    let info = get_pool(Ok(sample_pool(pool_state_t::POOL_STATE_EXPORTED, None, Some("/mnt"))))
        .unwrap();
    assert_eq!(info.health, "UNKNOWN");
    assert_eq!(info.state, "EXPORTED");
    assert_eq!(info.altroot, Some("/mnt".to_string()));
    let empty = get_pool(Ok(sample_pool(pool_state_t::POOL_STATE_POTENTIALLY_ACTIVE, None, Some(""))))
        .unwrap();
    assert_eq!(empty.altroot, None);
    assert_eq!(empty.state, "POTENTIALLY_ACTIVE");
}

#[test]
fn get_pool_passes_the_open_error() {
    let r = get_pool(Err(AppError::NotFound("Pool 'x' not found: no such pool".to_string())));
    match r {
        Err(AppError::NotFound(m)) => assert_eq!(m, "Pool 'x' not found: no such pool"),
        _ => panic!("expected NotFound"),
    }
}

fn sample_dataset(t: zfs_type_t, mountpoint: Option<&str>, compression: Option<&str>) -> ZfsHandle {
    ZfsHandle {
        name: "rpool/ROOT/omnios".to_string(),
        dataset_type: t,
        used: 10,
        available: 60,
        referenced: 10,
        compressratio: 150,
        mountpoint_prop: mountpoint.map(|m| m.to_string()),
        compression_prop: compression.map(|c| c.to_string()),
    }
}

#[test]
fn dataset_to_info_names_types_and_normalizes() {
    let info = dataset_to_info(&sample_dataset(zfs_type_t::ZFS_TYPE_FILESYSTEM, Some("/"), Some("lz4")), "rpool");
    assert_eq!(info.dataset_type, "filesystem");
    assert_eq!(info.pool, "rpool");
    assert_eq!(info.mountpoint, Some("/".to_string()));
    assert_eq!(info.compression, "lz4");
    let vol = dataset_to_info(&sample_dataset(zfs_type_t::ZFS_TYPE_VOLUME, Some("-"), None), "rpool");
    assert_eq!(vol.dataset_type, "volume");
    assert_eq!(vol.mountpoint, None);
    assert_eq!(vol.compression, "unknown");
    let none = dataset_to_info(&sample_dataset(zfs_type_t::ZFS_TYPE_SNAPSHOT, Some("none"), None), "rpool");
    assert_eq!(none.dataset_type, "snapshot");
    assert_eq!(none.mountpoint, None);
    let pool = dataset_to_info(&sample_dataset(zfs_type_t::ZFS_TYPE_POOL, Some(""), None), "rpool");
    assert_eq!(pool.dataset_type, "unknown");
    assert_eq!(pool.mountpoint, None);
    let bm = dataset_to_info(&sample_dataset(zfs_type_t::ZFS_TYPE_BOOKMARK, None, None), "rpool");
    assert_eq!(bm.dataset_type, "bookmark");
}

#[test]
fn get_dataset_takes_the_pool_from_the_name() {
    assert_eq!(dataset_pool_name("rpool/ROOT/omnios"), "rpool");
    assert_eq!(dataset_pool_name("tank"), "tank");
    let info = get_dataset(
        "tank/data",
        Ok(sample_dataset(zfs_type_t::ZFS_TYPE_FILESYSTEM, Some("/data"), Some("off"))),
    )
    .unwrap();
    assert_eq!(info.pool, "tank");
}

#[test]
fn enum_values_round_trip() {
    assert_eq!(pool_state_t::from_value(6), Some(pool_state_t::POOL_STATE_UNAVAIL));
    assert_eq!(pool_state_t::from_value(8), None);
    assert_eq!(zfs_type_t::from_value(4), Some(zfs_type_t::ZFS_TYPE_VOLUME));
    assert_eq!(zfs_type_t::from_value(3), None);
    assert_eq!(zpool_status_t::from_value(19), Some(zpool_status_t::ZPOOL_STATUS_RESILVERING));
    assert_eq!(zpool_prop_t::ZPOOL_NUM_PROPS.value(), 33);
    assert_eq!(zfs_prop_t::ZFS_PROP_ACLINHERIT.value(), 25);
}

#[test]
fn pools_listed_reports_iteration_failure() {
    match pools_listed(-1, Vec::new(), "no pools") {
        Err(AppError::InternalServerError(m)) => assert_eq!(m, "Failed to list pools: no pools"),
        _ => panic!("expected an internal error"),
    }
    assert_eq!(pools_listed(0, Vec::new(), "").unwrap().len(), 0);
}
