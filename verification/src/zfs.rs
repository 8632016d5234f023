//! ZFS pools and datasets as libzfs describes them.
//!
//! The C enumerations of libzfs are given here with their C values.  A pool
//! or dataset opened through libzfs is held as the values read from it
//! (`ZpoolHandle`, `ZfsHandle`); what the backend answers about it
//! (`PoolInfo`, `DatasetInfo`) is computed from those values.
use vstd::prelude::*;

use crate::error::AppError;
use crate::text;
use crate::text::{chars_eq_str, chars_to_string, contains_char, join2, join3, str_chars};

verus! {

/// Pool health status values (sys/fs/zfs.h).
#[allow(non_camel_case_types)]
#[derive(Debug, Clone, Copy, PartialEq, Eq, Structural)]
pub enum zpool_status_t {
    ZPOOL_STATUS_CORRUPT_CACHE,
    ZPOOL_STATUS_MISSING_DEV_R,
    ZPOOL_STATUS_MISSING_DEV_NR,
    ZPOOL_STATUS_CORRUPT_LABEL_R,
    ZPOOL_STATUS_CORRUPT_LABEL_NR,
    ZPOOL_STATUS_BAD_GUID_SUM,
    ZPOOL_STATUS_CORRUPT_POOL,
    ZPOOL_STATUS_CORRUPT_DATA,
    ZPOOL_STATUS_FAILING_DEV,
    ZPOOL_STATUS_VERSION_NEWER,
    ZPOOL_STATUS_HOSTID_MISMATCH,
    ZPOOL_STATUS_HOSTID_ACTIVE,
    ZPOOL_STATUS_HOSTID_REQUIRED,
    ZPOOL_STATUS_IO_FAILURE_WAIT,
    ZPOOL_STATUS_IO_FAILURE_CONTINUE,
    ZPOOL_STATUS_IO_FAILURE_MMP,
    ZPOOL_STATUS_BAD_LOG,
    ZPOOL_STATUS_ERRATA,
    ZPOOL_STATUS_FEAT_DISABLED,
    ZPOOL_STATUS_RESILVERING,
    ZPOOL_STATUS_OFFLINE_DEV,
    ZPOOL_STATUS_REMOVED_DEV,
    ZPOOL_STATUS_REBUILDING,
    ZPOOL_STATUS_REBUILD_SCRUB,
    ZPOOL_STATUS_NON_NATIVE_ASHIFT,
    ZPOOL_STATUS_COMPATIBILITY_ERR,
    ZPOOL_STATUS_INCOMPATIBLE_FEAT,
    ZPOOL_STATUS_OK,
}

impl zpool_status_t {
    /// The value of the C enumerator.
    pub open spec fn spec_value(self) -> i32 {
        match self {
            zpool_status_t::ZPOOL_STATUS_CORRUPT_CACHE => 0,
            zpool_status_t::ZPOOL_STATUS_MISSING_DEV_R => 1,
            zpool_status_t::ZPOOL_STATUS_MISSING_DEV_NR => 2,
            zpool_status_t::ZPOOL_STATUS_CORRUPT_LABEL_R => 3,
            zpool_status_t::ZPOOL_STATUS_CORRUPT_LABEL_NR => 4,
            zpool_status_t::ZPOOL_STATUS_BAD_GUID_SUM => 5,
            zpool_status_t::ZPOOL_STATUS_CORRUPT_POOL => 6,
            zpool_status_t::ZPOOL_STATUS_CORRUPT_DATA => 7,
            zpool_status_t::ZPOOL_STATUS_FAILING_DEV => 8,
            zpool_status_t::ZPOOL_STATUS_VERSION_NEWER => 9,
            zpool_status_t::ZPOOL_STATUS_HOSTID_MISMATCH => 10,
            zpool_status_t::ZPOOL_STATUS_HOSTID_ACTIVE => 11,
            zpool_status_t::ZPOOL_STATUS_HOSTID_REQUIRED => 12,
            zpool_status_t::ZPOOL_STATUS_IO_FAILURE_WAIT => 13,
            zpool_status_t::ZPOOL_STATUS_IO_FAILURE_CONTINUE => 14,
            zpool_status_t::ZPOOL_STATUS_IO_FAILURE_MMP => 15,
            zpool_status_t::ZPOOL_STATUS_BAD_LOG => 16,
            zpool_status_t::ZPOOL_STATUS_ERRATA => 17,
            zpool_status_t::ZPOOL_STATUS_FEAT_DISABLED => 18,
            zpool_status_t::ZPOOL_STATUS_RESILVERING => 19,
            zpool_status_t::ZPOOL_STATUS_OFFLINE_DEV => 20,
            zpool_status_t::ZPOOL_STATUS_REMOVED_DEV => 21,
            zpool_status_t::ZPOOL_STATUS_REBUILDING => 22,
            zpool_status_t::ZPOOL_STATUS_REBUILD_SCRUB => 23,
            zpool_status_t::ZPOOL_STATUS_NON_NATIVE_ASHIFT => 24,
            zpool_status_t::ZPOOL_STATUS_COMPATIBILITY_ERR => 25,
            zpool_status_t::ZPOOL_STATUS_INCOMPATIBLE_FEAT => 26,
            zpool_status_t::ZPOOL_STATUS_OK => 27,
        }
    }

    /// The value of the C enumerator.
    pub fn value(self) -> (r: i32)
        ensures
            r == self.spec_value(),
    {
        match self {
            zpool_status_t::ZPOOL_STATUS_CORRUPT_CACHE => 0,
            zpool_status_t::ZPOOL_STATUS_MISSING_DEV_R => 1,
            zpool_status_t::ZPOOL_STATUS_MISSING_DEV_NR => 2,
            zpool_status_t::ZPOOL_STATUS_CORRUPT_LABEL_R => 3,
            zpool_status_t::ZPOOL_STATUS_CORRUPT_LABEL_NR => 4,
            zpool_status_t::ZPOOL_STATUS_BAD_GUID_SUM => 5,
            zpool_status_t::ZPOOL_STATUS_CORRUPT_POOL => 6,
            zpool_status_t::ZPOOL_STATUS_CORRUPT_DATA => 7,
            zpool_status_t::ZPOOL_STATUS_FAILING_DEV => 8,
            zpool_status_t::ZPOOL_STATUS_VERSION_NEWER => 9,
            zpool_status_t::ZPOOL_STATUS_HOSTID_MISMATCH => 10,
            zpool_status_t::ZPOOL_STATUS_HOSTID_ACTIVE => 11,
            zpool_status_t::ZPOOL_STATUS_HOSTID_REQUIRED => 12,
            zpool_status_t::ZPOOL_STATUS_IO_FAILURE_WAIT => 13,
            zpool_status_t::ZPOOL_STATUS_IO_FAILURE_CONTINUE => 14,
            zpool_status_t::ZPOOL_STATUS_IO_FAILURE_MMP => 15,
            zpool_status_t::ZPOOL_STATUS_BAD_LOG => 16,
            zpool_status_t::ZPOOL_STATUS_ERRATA => 17,
            zpool_status_t::ZPOOL_STATUS_FEAT_DISABLED => 18,
            zpool_status_t::ZPOOL_STATUS_RESILVERING => 19,
            zpool_status_t::ZPOOL_STATUS_OFFLINE_DEV => 20,
            zpool_status_t::ZPOOL_STATUS_REMOVED_DEV => 21,
            zpool_status_t::ZPOOL_STATUS_REBUILDING => 22,
            zpool_status_t::ZPOOL_STATUS_REBUILD_SCRUB => 23,
            zpool_status_t::ZPOOL_STATUS_NON_NATIVE_ASHIFT => 24,
            zpool_status_t::ZPOOL_STATUS_COMPATIBILITY_ERR => 25,
            zpool_status_t::ZPOOL_STATUS_INCOMPATIBLE_FEAT => 26,
            zpool_status_t::ZPOOL_STATUS_OK => 27,
        }
    }

    /// The enumerator whose C value is `v`, if any.
    pub fn from_value(v: i32) -> (r: Option<Self>)
        ensures
            match r {
                Some(e) => e.spec_value() == v,
                None => forall|e: zpool_status_t| #[trigger] e.spec_value() != v,
            },
    {
        if v == 0 {
            Some(zpool_status_t::ZPOOL_STATUS_CORRUPT_CACHE)
        } else if v == 1 {
            Some(zpool_status_t::ZPOOL_STATUS_MISSING_DEV_R)
        } else if v == 2 {
            Some(zpool_status_t::ZPOOL_STATUS_MISSING_DEV_NR)
        } else if v == 3 {
            Some(zpool_status_t::ZPOOL_STATUS_CORRUPT_LABEL_R)
        } else if v == 4 {
            Some(zpool_status_t::ZPOOL_STATUS_CORRUPT_LABEL_NR)
        } else if v == 5 {
            Some(zpool_status_t::ZPOOL_STATUS_BAD_GUID_SUM)
        } else if v == 6 {
            Some(zpool_status_t::ZPOOL_STATUS_CORRUPT_POOL)
        } else if v == 7 {
            Some(zpool_status_t::ZPOOL_STATUS_CORRUPT_DATA)
        } else if v == 8 {
            Some(zpool_status_t::ZPOOL_STATUS_FAILING_DEV)
        } else if v == 9 {
            Some(zpool_status_t::ZPOOL_STATUS_VERSION_NEWER)
        } else if v == 10 {
            Some(zpool_status_t::ZPOOL_STATUS_HOSTID_MISMATCH)
        } else if v == 11 {
            Some(zpool_status_t::ZPOOL_STATUS_HOSTID_ACTIVE)
        } else if v == 12 {
            Some(zpool_status_t::ZPOOL_STATUS_HOSTID_REQUIRED)
        } else if v == 13 {
            Some(zpool_status_t::ZPOOL_STATUS_IO_FAILURE_WAIT)
        } else if v == 14 {
            Some(zpool_status_t::ZPOOL_STATUS_IO_FAILURE_CONTINUE)
        } else if v == 15 {
            Some(zpool_status_t::ZPOOL_STATUS_IO_FAILURE_MMP)
        } else if v == 16 {
            Some(zpool_status_t::ZPOOL_STATUS_BAD_LOG)
        } else if v == 17 {
            Some(zpool_status_t::ZPOOL_STATUS_ERRATA)
        } else if v == 18 {
            Some(zpool_status_t::ZPOOL_STATUS_FEAT_DISABLED)
        } else if v == 19 {
            Some(zpool_status_t::ZPOOL_STATUS_RESILVERING)
        } else if v == 20 {
            Some(zpool_status_t::ZPOOL_STATUS_OFFLINE_DEV)
        } else if v == 21 {
            Some(zpool_status_t::ZPOOL_STATUS_REMOVED_DEV)
        } else if v == 22 {
            Some(zpool_status_t::ZPOOL_STATUS_REBUILDING)
        } else if v == 23 {
            Some(zpool_status_t::ZPOOL_STATUS_REBUILD_SCRUB)
        } else if v == 24 {
            Some(zpool_status_t::ZPOOL_STATUS_NON_NATIVE_ASHIFT)
        } else if v == 25 {
            Some(zpool_status_t::ZPOOL_STATUS_COMPATIBILITY_ERR)
        } else if v == 26 {
            Some(zpool_status_t::ZPOOL_STATUS_INCOMPATIBLE_FEAT)
        } else if v == 27 {
            Some(zpool_status_t::ZPOOL_STATUS_OK)
        } else {
            None
        }
    }
}

/// ZFS dataset types (bit flags).
#[allow(non_camel_case_types)]
#[derive(Debug, Clone, Copy, PartialEq, Eq, Structural)]
pub enum zfs_type_t {
    ZFS_TYPE_FILESYSTEM,
    ZFS_TYPE_SNAPSHOT,
    ZFS_TYPE_VOLUME,
    ZFS_TYPE_POOL,
    ZFS_TYPE_BOOKMARK,
}

impl zfs_type_t {
    /// The value of the C enumerator.
    pub open spec fn spec_value(self) -> i32 {
        match self {
            zfs_type_t::ZFS_TYPE_FILESYSTEM => 1,
            zfs_type_t::ZFS_TYPE_SNAPSHOT => 2,
            zfs_type_t::ZFS_TYPE_VOLUME => 4,
            zfs_type_t::ZFS_TYPE_POOL => 8,
            zfs_type_t::ZFS_TYPE_BOOKMARK => 16,
        }
    }

    /// The value of the C enumerator.
    pub fn value(self) -> (r: i32)
        ensures
            r == self.spec_value(),
    {
        match self {
            zfs_type_t::ZFS_TYPE_FILESYSTEM => 1,
            zfs_type_t::ZFS_TYPE_SNAPSHOT => 2,
            zfs_type_t::ZFS_TYPE_VOLUME => 4,
            zfs_type_t::ZFS_TYPE_POOL => 8,
            zfs_type_t::ZFS_TYPE_BOOKMARK => 16,
        }
    }

    /// The enumerator whose C value is `v`, if any.
    pub fn from_value(v: i32) -> (r: Option<Self>)
        ensures
            match r {
                Some(e) => e.spec_value() == v,
                None => forall|e: zfs_type_t| #[trigger] e.spec_value() != v,
            },
    {
        if v == 1 {
            Some(zfs_type_t::ZFS_TYPE_FILESYSTEM)
        } else if v == 2 {
            Some(zfs_type_t::ZFS_TYPE_SNAPSHOT)
        } else if v == 4 {
            Some(zfs_type_t::ZFS_TYPE_VOLUME)
        } else if v == 8 {
            Some(zfs_type_t::ZFS_TYPE_POOL)
        } else if v == 16 {
            Some(zfs_type_t::ZFS_TYPE_BOOKMARK)
        } else {
            None
        }
    }
}

/// Pool state values.
#[allow(non_camel_case_types)]
#[derive(Debug, Clone, Copy, PartialEq, Eq, Structural)]
pub enum pool_state_t {
    POOL_STATE_ACTIVE,
    POOL_STATE_EXPORTED,
    POOL_STATE_DESTROYED,
    POOL_STATE_SPARE,
    POOL_STATE_L2CACHE,
    POOL_STATE_UNINITIALIZED,
    POOL_STATE_UNAVAIL,
    POOL_STATE_POTENTIALLY_ACTIVE,
}

impl pool_state_t {
    /// The value of the C enumerator.
    pub open spec fn spec_value(self) -> i32 {
        match self {
            pool_state_t::POOL_STATE_ACTIVE => 0,
            pool_state_t::POOL_STATE_EXPORTED => 1,
            pool_state_t::POOL_STATE_DESTROYED => 2,
            pool_state_t::POOL_STATE_SPARE => 3,
            pool_state_t::POOL_STATE_L2CACHE => 4,
            pool_state_t::POOL_STATE_UNINITIALIZED => 5,
            pool_state_t::POOL_STATE_UNAVAIL => 6,
            pool_state_t::POOL_STATE_POTENTIALLY_ACTIVE => 7,
        }
    }

    /// The value of the C enumerator.
    pub fn value(self) -> (r: i32)
        ensures
            r == self.spec_value(),
    {
        match self {
            pool_state_t::POOL_STATE_ACTIVE => 0,
            pool_state_t::POOL_STATE_EXPORTED => 1,
            pool_state_t::POOL_STATE_DESTROYED => 2,
            pool_state_t::POOL_STATE_SPARE => 3,
            pool_state_t::POOL_STATE_L2CACHE => 4,
            pool_state_t::POOL_STATE_UNINITIALIZED => 5,
            pool_state_t::POOL_STATE_UNAVAIL => 6,
            pool_state_t::POOL_STATE_POTENTIALLY_ACTIVE => 7,
        }
    }

    /// The enumerator whose C value is `v`, if any.
    pub fn from_value(v: i32) -> (r: Option<Self>)
        ensures
            match r {
                Some(e) => e.spec_value() == v,
                None => forall|e: pool_state_t| #[trigger] e.spec_value() != v,
            },
    {
        if v == 0 {
            Some(pool_state_t::POOL_STATE_ACTIVE)
        } else if v == 1 {
            Some(pool_state_t::POOL_STATE_EXPORTED)
        } else if v == 2 {
            Some(pool_state_t::POOL_STATE_DESTROYED)
        } else if v == 3 {
            Some(pool_state_t::POOL_STATE_SPARE)
        } else if v == 4 {
            Some(pool_state_t::POOL_STATE_L2CACHE)
        } else if v == 5 {
            Some(pool_state_t::POOL_STATE_UNINITIALIZED)
        } else if v == 6 {
            Some(pool_state_t::POOL_STATE_UNAVAIL)
        } else if v == 7 {
            Some(pool_state_t::POOL_STATE_POTENTIALLY_ACTIVE)
        } else {
            None
        }
    }
}

/// Pool properties.
#[allow(non_camel_case_types)]
#[derive(Debug, Clone, Copy, PartialEq, Eq, Structural)]
pub enum zpool_prop_t {
    ZPOOL_PROP_INVAL,
    ZPOOL_PROP_NAME,
    ZPOOL_PROP_SIZE,
    ZPOOL_PROP_CAPACITY,
    ZPOOL_PROP_ALTROOT,
    ZPOOL_PROP_HEALTH,
    ZPOOL_PROP_GUID,
    ZPOOL_PROP_VERSION,
    ZPOOL_PROP_BOOTFS,
    ZPOOL_PROP_DELEGATION,
    ZPOOL_PROP_AUTOREPLACE,
    ZPOOL_PROP_CACHEFILE,
    ZPOOL_PROP_FAILUREMODE,
    ZPOOL_PROP_LISTSNAPS,
    ZPOOL_PROP_AUTOEXPAND,
    ZPOOL_PROP_DEDUPDITTO,
    ZPOOL_PROP_DEDUPRATIO,
    ZPOOL_PROP_FREE,
    ZPOOL_PROP_ALLOCATED,
    ZPOOL_PROP_READONLY,
    ZPOOL_PROP_ASHIFT,
    ZPOOL_PROP_COMMENT,
    ZPOOL_PROP_EXPANDSZ,
    ZPOOL_PROP_FREEING,
    ZPOOL_PROP_FRAGMENTATION,
    ZPOOL_PROP_LEAKED,
    ZPOOL_PROP_MAXBLOCKSIZE,
    ZPOOL_PROP_TNAME,
    ZPOOL_PROP_MAXDNODESIZE,
    ZPOOL_PROP_MULTIHOST,
    ZPOOL_PROP_CHECKPOINT,
    ZPOOL_PROP_LOAD_GUID,
    ZPOOL_PROP_AUTOTRIM,
    ZPOOL_PROP_COMPATIBILITY,
    ZPOOL_NUM_PROPS,
}

impl zpool_prop_t {
    /// The value of the C enumerator.
    pub open spec fn spec_value(self) -> i32 {
        match self {
            zpool_prop_t::ZPOOL_PROP_INVAL => -1i32,
            zpool_prop_t::ZPOOL_PROP_NAME => 0,
            zpool_prop_t::ZPOOL_PROP_SIZE => 1,
            zpool_prop_t::ZPOOL_PROP_CAPACITY => 2,
            zpool_prop_t::ZPOOL_PROP_ALTROOT => 3,
            zpool_prop_t::ZPOOL_PROP_HEALTH => 4,
            zpool_prop_t::ZPOOL_PROP_GUID => 5,
            zpool_prop_t::ZPOOL_PROP_VERSION => 6,
            zpool_prop_t::ZPOOL_PROP_BOOTFS => 7,
            zpool_prop_t::ZPOOL_PROP_DELEGATION => 8,
            zpool_prop_t::ZPOOL_PROP_AUTOREPLACE => 9,
            zpool_prop_t::ZPOOL_PROP_CACHEFILE => 10,
            zpool_prop_t::ZPOOL_PROP_FAILUREMODE => 11,
            zpool_prop_t::ZPOOL_PROP_LISTSNAPS => 12,
            zpool_prop_t::ZPOOL_PROP_AUTOEXPAND => 13,
            zpool_prop_t::ZPOOL_PROP_DEDUPDITTO => 14,
            zpool_prop_t::ZPOOL_PROP_DEDUPRATIO => 15,
            zpool_prop_t::ZPOOL_PROP_FREE => 16,
            zpool_prop_t::ZPOOL_PROP_ALLOCATED => 17,
            zpool_prop_t::ZPOOL_PROP_READONLY => 18,
            zpool_prop_t::ZPOOL_PROP_ASHIFT => 19,
            zpool_prop_t::ZPOOL_PROP_COMMENT => 20,
            zpool_prop_t::ZPOOL_PROP_EXPANDSZ => 21,
            zpool_prop_t::ZPOOL_PROP_FREEING => 22,
            zpool_prop_t::ZPOOL_PROP_FRAGMENTATION => 23,
            zpool_prop_t::ZPOOL_PROP_LEAKED => 24,
            zpool_prop_t::ZPOOL_PROP_MAXBLOCKSIZE => 25,
            zpool_prop_t::ZPOOL_PROP_TNAME => 26,
            zpool_prop_t::ZPOOL_PROP_MAXDNODESIZE => 27,
            zpool_prop_t::ZPOOL_PROP_MULTIHOST => 28,
            zpool_prop_t::ZPOOL_PROP_CHECKPOINT => 29,
            zpool_prop_t::ZPOOL_PROP_LOAD_GUID => 30,
            zpool_prop_t::ZPOOL_PROP_AUTOTRIM => 31,
            zpool_prop_t::ZPOOL_PROP_COMPATIBILITY => 32,
            zpool_prop_t::ZPOOL_NUM_PROPS => 33,
        }
    }

    /// The value of the C enumerator.
    pub fn value(self) -> (r: i32)
        ensures
            r == self.spec_value(),
    {
        match self {
            zpool_prop_t::ZPOOL_PROP_INVAL => -1i32,
            zpool_prop_t::ZPOOL_PROP_NAME => 0,
            zpool_prop_t::ZPOOL_PROP_SIZE => 1,
            zpool_prop_t::ZPOOL_PROP_CAPACITY => 2,
            zpool_prop_t::ZPOOL_PROP_ALTROOT => 3,
            zpool_prop_t::ZPOOL_PROP_HEALTH => 4,
            zpool_prop_t::ZPOOL_PROP_GUID => 5,
            zpool_prop_t::ZPOOL_PROP_VERSION => 6,
            zpool_prop_t::ZPOOL_PROP_BOOTFS => 7,
            zpool_prop_t::ZPOOL_PROP_DELEGATION => 8,
            zpool_prop_t::ZPOOL_PROP_AUTOREPLACE => 9,
            zpool_prop_t::ZPOOL_PROP_CACHEFILE => 10,
            zpool_prop_t::ZPOOL_PROP_FAILUREMODE => 11,
            zpool_prop_t::ZPOOL_PROP_LISTSNAPS => 12,
            zpool_prop_t::ZPOOL_PROP_AUTOEXPAND => 13,
            zpool_prop_t::ZPOOL_PROP_DEDUPDITTO => 14,
            zpool_prop_t::ZPOOL_PROP_DEDUPRATIO => 15,
            zpool_prop_t::ZPOOL_PROP_FREE => 16,
            zpool_prop_t::ZPOOL_PROP_ALLOCATED => 17,
            zpool_prop_t::ZPOOL_PROP_READONLY => 18,
            zpool_prop_t::ZPOOL_PROP_ASHIFT => 19,
            zpool_prop_t::ZPOOL_PROP_COMMENT => 20,
            zpool_prop_t::ZPOOL_PROP_EXPANDSZ => 21,
            zpool_prop_t::ZPOOL_PROP_FREEING => 22,
            zpool_prop_t::ZPOOL_PROP_FRAGMENTATION => 23,
            zpool_prop_t::ZPOOL_PROP_LEAKED => 24,
            zpool_prop_t::ZPOOL_PROP_MAXBLOCKSIZE => 25,
            zpool_prop_t::ZPOOL_PROP_TNAME => 26,
            zpool_prop_t::ZPOOL_PROP_MAXDNODESIZE => 27,
            zpool_prop_t::ZPOOL_PROP_MULTIHOST => 28,
            zpool_prop_t::ZPOOL_PROP_CHECKPOINT => 29,
            zpool_prop_t::ZPOOL_PROP_LOAD_GUID => 30,
            zpool_prop_t::ZPOOL_PROP_AUTOTRIM => 31,
            zpool_prop_t::ZPOOL_PROP_COMPATIBILITY => 32,
            zpool_prop_t::ZPOOL_NUM_PROPS => 33,
        }
    }

}

/// ZFS properties.
#[allow(non_camel_case_types)]
#[derive(Debug, Clone, Copy, PartialEq, Eq, Structural)]
pub enum zfs_prop_t {
    ZFS_PROP_INVAL,
    ZFS_PROP_TYPE,
    ZFS_PROP_CREATION,
    ZFS_PROP_USED,
    ZFS_PROP_AVAILABLE,
    ZFS_PROP_REFERENCED,
    ZFS_PROP_COMPRESSRATIO,
    ZFS_PROP_MOUNTED,
    ZFS_PROP_ORIGIN,
    ZFS_PROP_QUOTA,
    ZFS_PROP_RESERVATION,
    ZFS_PROP_VOLSIZE,
    ZFS_PROP_VOLBLOCKSIZE,
    ZFS_PROP_RECORDSIZE,
    ZFS_PROP_MOUNTPOINT,
    ZFS_PROP_SHARENFS,
    ZFS_PROP_CHECKSUM,
    ZFS_PROP_COMPRESSION,
    ZFS_PROP_ATIME,
    ZFS_PROP_DEVICES,
    ZFS_PROP_EXEC,
    ZFS_PROP_SETUID,
    ZFS_PROP_READONLY,
    ZFS_PROP_ZONED,
    ZFS_PROP_SNAPDIR,
    ZFS_PROP_ACLMODE,
    ZFS_PROP_ACLINHERIT,
}

impl zfs_prop_t {
    /// The value of the C enumerator.
    pub open spec fn spec_value(self) -> i32 {
        match self {
            zfs_prop_t::ZFS_PROP_INVAL => -1i32,
            zfs_prop_t::ZFS_PROP_TYPE => 0,
            zfs_prop_t::ZFS_PROP_CREATION => 1,
            zfs_prop_t::ZFS_PROP_USED => 2,
            zfs_prop_t::ZFS_PROP_AVAILABLE => 3,
            zfs_prop_t::ZFS_PROP_REFERENCED => 4,
            zfs_prop_t::ZFS_PROP_COMPRESSRATIO => 5,
            zfs_prop_t::ZFS_PROP_MOUNTED => 6,
            zfs_prop_t::ZFS_PROP_ORIGIN => 7,
            zfs_prop_t::ZFS_PROP_QUOTA => 8,
            zfs_prop_t::ZFS_PROP_RESERVATION => 9,
            zfs_prop_t::ZFS_PROP_VOLSIZE => 10,
            zfs_prop_t::ZFS_PROP_VOLBLOCKSIZE => 11,
            zfs_prop_t::ZFS_PROP_RECORDSIZE => 12,
            zfs_prop_t::ZFS_PROP_MOUNTPOINT => 13,
            zfs_prop_t::ZFS_PROP_SHARENFS => 14,
            zfs_prop_t::ZFS_PROP_CHECKSUM => 15,
            zfs_prop_t::ZFS_PROP_COMPRESSION => 16,
            zfs_prop_t::ZFS_PROP_ATIME => 17,
            zfs_prop_t::ZFS_PROP_DEVICES => 18,
            zfs_prop_t::ZFS_PROP_EXEC => 19,
            zfs_prop_t::ZFS_PROP_SETUID => 20,
            zfs_prop_t::ZFS_PROP_READONLY => 21,
            zfs_prop_t::ZFS_PROP_ZONED => 22,
            zfs_prop_t::ZFS_PROP_SNAPDIR => 23,
            zfs_prop_t::ZFS_PROP_ACLMODE => 24,
            zfs_prop_t::ZFS_PROP_ACLINHERIT => 25,
        }
    }

    /// The value of the C enumerator.
    pub fn value(self) -> (r: i32)
        ensures
            r == self.spec_value(),
    {
        match self {
            zfs_prop_t::ZFS_PROP_INVAL => -1i32,
            zfs_prop_t::ZFS_PROP_TYPE => 0,
            zfs_prop_t::ZFS_PROP_CREATION => 1,
            zfs_prop_t::ZFS_PROP_USED => 2,
            zfs_prop_t::ZFS_PROP_AVAILABLE => 3,
            zfs_prop_t::ZFS_PROP_REFERENCED => 4,
            zfs_prop_t::ZFS_PROP_COMPRESSRATIO => 5,
            zfs_prop_t::ZFS_PROP_MOUNTED => 6,
            zfs_prop_t::ZFS_PROP_ORIGIN => 7,
            zfs_prop_t::ZFS_PROP_QUOTA => 8,
            zfs_prop_t::ZFS_PROP_RESERVATION => 9,
            zfs_prop_t::ZFS_PROP_VOLSIZE => 10,
            zfs_prop_t::ZFS_PROP_VOLBLOCKSIZE => 11,
            zfs_prop_t::ZFS_PROP_RECORDSIZE => 12,
            zfs_prop_t::ZFS_PROP_MOUNTPOINT => 13,
            zfs_prop_t::ZFS_PROP_SHARENFS => 14,
            zfs_prop_t::ZFS_PROP_CHECKSUM => 15,
            zfs_prop_t::ZFS_PROP_COMPRESSION => 16,
            zfs_prop_t::ZFS_PROP_ATIME => 17,
            zfs_prop_t::ZFS_PROP_DEVICES => 18,
            zfs_prop_t::ZFS_PROP_EXEC => 19,
            zfs_prop_t::ZFS_PROP_SETUID => 20,
            zfs_prop_t::ZFS_PROP_READONLY => 21,
            zfs_prop_t::ZFS_PROP_ZONED => 22,
            zfs_prop_t::ZFS_PROP_SNAPDIR => 23,
            zfs_prop_t::ZFS_PROP_ACLMODE => 24,
            zfs_prop_t::ZFS_PROP_ACLINHERIT => 25,
        }
    }

}

// ---------------------------------------------------------------------------
// Pools
// ---------------------------------------------------------------------------

/// The name of a pool state, as the backend reports it.
pub open spec fn pool_state_name(s: pool_state_t) -> Seq<char> {
    match s {
        pool_state_t::POOL_STATE_ACTIVE => "ACTIVE"@,
        pool_state_t::POOL_STATE_EXPORTED => "EXPORTED"@,
        pool_state_t::POOL_STATE_DESTROYED => "DESTROYED"@,
        pool_state_t::POOL_STATE_SPARE => "SPARE"@,
        pool_state_t::POOL_STATE_L2CACHE => "L2CACHE"@,
        pool_state_t::POOL_STATE_UNINITIALIZED => "UNINITIALIZED"@,
        pool_state_t::POOL_STATE_UNAVAIL => "UNAVAIL"@,
        pool_state_t::POOL_STATE_POTENTIALLY_ACTIVE => "POTENTIALLY_ACTIVE"@,
    }
}

/// A pool state is reported by the name of its libzfs enumerator without
/// the `POOL_STATE_` prefix, in libzfs's order of values (so the state of
/// value 6, `POOL_STATE_UNAVAIL`, is reported as "UNAVAIL"), and different
/// states are reported by different names.
pub proof fn lemma_pool_state_names(a: pool_state_t, b: pool_state_t)
    ensures
        pool_state_name(a) == seq![
            "ACTIVE"@,
            "EXPORTED"@,
            "DESTROYED"@,
            "SPARE"@,
            "L2CACHE"@,
            "UNINITIALIZED"@,
            "UNAVAIL"@,
            "POTENTIALLY_ACTIVE"@,
        ][a.spec_value() as int],
        pool_state_name(a) == pool_state_name(b) ==> a == b,
{
    reveal_strlit("ACTIVE");
    reveal_strlit("EXPORTED");
    reveal_strlit("DESTROYED");
    reveal_strlit("SPARE");
    reveal_strlit("L2CACHE");
    reveal_strlit("UNINITIALIZED");
    reveal_strlit("UNAVAIL");
    reveal_strlit("POTENTIALLY_ACTIVE");
    if pool_state_name(a) == pool_state_name(b) && a != b {
        let x = pool_state_name(a);
        let y = pool_state_name(b);
        assert(x.len() == y.len());
        assert(x[0] == y[0]);
        assert(x[1] == y[1]);
        assert(false);
    }
}

/// The name of a pool state.
pub fn state_name(s: pool_state_t) -> (r: String)
    ensures
        r@ == pool_state_name(s),
{
    let t = match s {
        pool_state_t::POOL_STATE_ACTIVE => str_chars("ACTIVE"),
        pool_state_t::POOL_STATE_EXPORTED => str_chars("EXPORTED"),
        pool_state_t::POOL_STATE_DESTROYED => str_chars("DESTROYED"),
        pool_state_t::POOL_STATE_SPARE => str_chars("SPARE"),
        pool_state_t::POOL_STATE_L2CACHE => str_chars("L2CACHE"),
        pool_state_t::POOL_STATE_UNINITIALIZED => str_chars("UNINITIALIZED"),
        pool_state_t::POOL_STATE_UNAVAIL => str_chars("UNAVAIL"),
        pool_state_t::POOL_STATE_POTENTIALLY_ACTIVE => str_chars("POTENTIALLY_ACTIVE"),
    };
    chars_to_string(t.as_slice())
}

/// An opened pool, held as the values libzfs gave for it: its name, its
/// state and status, its sizes, and the text of its `health` and
/// `altroot` properties (none when libzfs could not read the property).
pub struct ZpoolHandle {
    pub name: String,
    pub state: pool_state_t,
    pub status: zpool_status_t,
    pub size: u64,
    pub allocated: u64,
    pub free: u64,
    pub fragmentation: u64,
    pub capacity: u64,
    pub health_prop: Option<String>,
    pub altroot_prop: Option<String>,
}

/// The health a pool reports: its `health` property, or "UNKNOWN" when it
/// could not be read.
pub open spec fn health_of(prop: Option<Seq<char>>) -> Seq<char> {
    match prop {
        Some(h) => h,
        None => "UNKNOWN"@,
    }
}

/// The alternate root of a pool: its `altroot` property, unless it could
/// not be read, is empty or is "-".
pub open spec fn altroot_of(prop: Option<Seq<char>>) -> Option<Seq<char>> {
    match prop {
        Some(s) => if s.len() == 0 || s == "-"@ {
            None
        } else {
            Some(s)
        },
        None => None,
    }
}

impl ZpoolHandle {
    /// The pool name.
    pub fn name(&self) -> (r: String)
        ensures
            r@ == self.name@,
    {
        self.name.clone()
    }

    /// The pool state.
    pub fn state(&self) -> (r: pool_state_t)
        ensures
            r == self.state,
    {
        self.state
    }

    /// The pool health status.
    pub fn health(&self) -> (r: String)
        ensures
            r@ == health_of(self.health_prop.deep_view()),
    {
        match &self.health_prop {
            Some(h) => h.clone(),
            None => chars_to_string(str_chars("UNKNOWN").as_slice()),
        }
    }

    /// The pool size in bytes.
    pub fn size(&self) -> (r: u64)
        ensures
            r == self.size,
    {
        self.size
    }

    /// The allocated bytes.
    pub fn allocated(&self) -> (r: u64)
        ensures
            r == self.allocated,
    {
        self.allocated
    }

    /// The free bytes.
    pub fn free(&self) -> (r: u64)
        ensures
            r == self.free,
    {
        self.free
    }

    /// The fragmentation percentage.
    pub fn fragmentation(&self) -> (r: u64)
        ensures
            r == self.fragmentation,
    {
        self.fragmentation
    }

    /// The capacity percentage.
    pub fn capacity(&self) -> (r: u64)
        ensures
            r == self.capacity,
    {
        self.capacity
    }

    /// The alternate root of the pool.
    pub fn altroot(&self) -> (r: Option<String>)
        ensures
            r.deep_view() == altroot_of(self.altroot_prop.deep_view()),
    {
        match &self.altroot_prop {
            Some(s) => {
                let cs = str_chars(s.as_str());
                if cs.len() == 0 || chars_eq_str(cs.as_slice(), "-") {
                    None
                } else {
                    Some(s.clone())
                }
            },
            None => None,
        }
    }

    /// The detailed pool status.
    pub fn status(&self) -> (r: zpool_status_t)
        ensures
            r == self.status,
    {
        self.status
    }
}

/// Information about a ZFS pool.
#[derive(Debug, Clone)]
pub struct PoolInfo {
    /// Pool name
    pub name: String,
    /// Total size in bytes
    pub size: u64,
    /// Allocated bytes
    pub allocated: u64,
    /// Free bytes
    pub free: u64,
    /// Capacity percentage (0-100)
    pub capacity: u64,
    /// Fragmentation percentage
    pub fragmentation: u64,
    /// Health status (ONLINE, DEGRADED, FAULTED, etc.)
    pub health: String,
    /// Pool state
    pub state: String,
    /// Alternate root path if set
    pub altroot: Option<String>,
}

/// What the backend reports about an opened pool.
pub open spec fn pool_info_matches(info: PoolInfo, pool: ZpoolHandle) -> bool {
    &&& info.name@ == pool.name@
    &&& info.size == pool.size
    &&& info.allocated == pool.allocated
    &&& info.free == pool.free
    &&& info.capacity == pool.capacity
    &&& info.fragmentation == pool.fragmentation
    &&& info.health@ == health_of(pool.health_prop.deep_view())
    &&& info.state@ == pool_state_name(pool.state)
    &&& info.altroot.deep_view() == altroot_of(pool.altroot_prop.deep_view())
}

/// The information about an opened pool.
pub fn pool_info(pool: &ZpoolHandle) -> (r: PoolInfo)
    ensures
        pool_info_matches(r, *pool),
{
    PoolInfo {
        name: pool.name(),
        size: pool.size(),
        allocated: pool.allocated(),
        free: pool.free(),
        capacity: pool.capacity(),
        fragmentation: pool.fragmentation(),
        health: pool.health(),
        state: state_name(pool.state()),
        altroot: pool.altroot(),
    }
}

/// Information about a specific pool: the error of opening it, or what
/// the opened pool reports.
pub fn get_pool(opened: Result<ZpoolHandle, AppError>) -> (r: Result<PoolInfo, AppError>)
    ensures
        match opened {
            Ok(p) => r matches Ok(info) && pool_info_matches(info, p),
            Err(e) => r == Err::<PoolInfo, AppError>(e),
        },
{
    match opened {
        Ok(p) => Ok(pool_info(&p)),
        Err(e) => Err(e),
    }
}

/// What the pool listing and the pool lookup report of the same opened pool
/// agree: both are made by `pool_info`, so two reports of one pool carry the
/// same name, sizes, health, state and alternate root; and an alternate
/// root reported is never empty nor "-".
pub proof fn lemma_pool_reports_agree(a: PoolInfo, b: PoolInfo, pool: ZpoolHandle)
    requires
        pool_info_matches(a, pool),
        pool_info_matches(b, pool),
    ensures
        a.name@ == b.name@,
        a.size == b.size && a.allocated == b.allocated && a.free == b.free,
        a.capacity == b.capacity && a.fragmentation == b.fragmentation,
        a.health@ == b.health@,
        a.state@ == b.state@,
        a.altroot.deep_view() == b.altroot.deep_view(),
        a.altroot.deep_view() != Some(Seq::<char>::empty()),
        a.altroot.deep_view() != Some("-"@),
{
}

/// The pools libzfs listed: an internal error carrying libzfs's last error
/// when the iteration failed (a non-zero status), otherwise the pools.
pub fn pools_listed(status: i32, pools: Vec<PoolInfo>, last_error: &str) -> (r: Result<
    Vec<PoolInfo>,
    AppError,
>)
    ensures
        status != 0 ==> (r matches Err(AppError::InternalServerError(m)) && m@
            == "Failed to list pools: "@ + last_error@),
        status == 0 ==> r == Ok::<Vec<PoolInfo>, AppError>(pools),
{
    if status != 0 {
        Err(AppError::InternalServerError(join2("Failed to list pools: ", last_error)))
    } else {
        Ok(pools)
    }
}

// ---------------------------------------------------------------------------
// Opening pools and datasets by name
// ---------------------------------------------------------------------------

/// A name libzfs can be asked about: it holds no NUL character.
pub open spec fn valid_c_name(name: Seq<char>) -> bool {
    !name.contains('\0')
}

/// Checks a pool name before it is handed to libzfs.
pub fn check_pool_name(name: &str) -> (r: Result<(), AppError>)
    ensures
        valid_c_name(name@) ==> r is Ok,
        !valid_c_name(name@) ==> (r matches Err(AppError::BadRequest(m)) && m@
            == "Invalid pool name: "@ + name@),
{
    let cs = str_chars(name);
    if contains_char(cs.as_slice(), '\0') {
        Err(AppError::BadRequest(join2("Invalid pool name: ", name)))
    } else {
        Ok(())
    }
}

/// Checks a dataset name before it is handed to libzfs.
pub fn check_dataset_name(name: &str) -> (r: Result<(), AppError>)
    ensures
        valid_c_name(name@) ==> r is Ok,
        !valid_c_name(name@) ==> (r matches Err(AppError::BadRequest(m)) && m@
            == "Invalid dataset name: "@ + name@),
{
    let cs = str_chars(name);
    if contains_char(cs.as_slice(), '\0') {
        Err(AppError::BadRequest(join2("Invalid dataset name: ", name)))
    } else {
        Ok(())
    }
}

/// The error of a pool that libzfs could not open.
pub fn pool_not_found(name: &str, last_error: &str) -> (r: AppError)
    ensures
        r matches AppError::NotFound(m) && m@ == "Pool '"@ + name@ + "' not found: "@
            + last_error@,
{
    let head = join3("Pool '", name, "' not found: ");
    AppError::NotFound(join2(head.as_str(), last_error))
}

/// The error of a dataset that libzfs could not open.
pub fn dataset_not_found(name: &str, last_error: &str) -> (r: AppError)
    ensures
        r matches AppError::NotFound(m) && m@ == "Dataset '"@ + name@ + "' not found: "@
            + last_error@,
{
    let head = join3("Dataset '", name, "' not found: ");
    AppError::NotFound(join2(head.as_str(), last_error))
}


// ---------------------------------------------------------------------------
// Datasets
// ---------------------------------------------------------------------------

/// The name of a dataset type, as the backend reports it.
pub open spec fn dataset_type_name(t: zfs_type_t) -> Seq<char> {
    match t {
        zfs_type_t::ZFS_TYPE_FILESYSTEM => "filesystem"@,
        zfs_type_t::ZFS_TYPE_VOLUME => "volume"@,
        zfs_type_t::ZFS_TYPE_SNAPSHOT => "snapshot"@,
        zfs_type_t::ZFS_TYPE_BOOKMARK => "bookmark"@,
        _ => "unknown"@,
    }
}

/// The name of a dataset type.
pub fn dataset_type_label(t: zfs_type_t) -> (r: String)
    ensures
        r@ == dataset_type_name(t),
{
    let s = match t {
        zfs_type_t::ZFS_TYPE_FILESYSTEM => str_chars("filesystem"),
        zfs_type_t::ZFS_TYPE_VOLUME => str_chars("volume"),
        zfs_type_t::ZFS_TYPE_SNAPSHOT => str_chars("snapshot"),
        zfs_type_t::ZFS_TYPE_BOOKMARK => str_chars("bookmark"),
        _ => str_chars("unknown"),
    };
    chars_to_string(s.as_slice())
}

/// An opened dataset, held as the values libzfs gave for it: its name,
/// type and sizes, and the text of its `mountpoint` and `compression`
/// properties (none when libzfs could not read the property).
pub struct ZfsHandle {
    pub name: String,
    pub dataset_type: zfs_type_t,
    pub used: u64,
    pub available: u64,
    pub referenced: u64,
    pub compressratio: u64,
    pub mountpoint_prop: Option<String>,
    pub compression_prop: Option<String>,
}

/// The mount point of a dataset: its `mountpoint` property, unless it could
/// not be read, is empty, "none" or "-".
pub open spec fn mountpoint_of(prop: Option<Seq<char>>) -> Option<Seq<char>> {
    match prop {
        Some(s) => if s.len() == 0 || s == "none"@ || s == "-"@ {
            None
        } else {
            Some(s)
        },
        None => None,
    }
}

/// The compression of a dataset: its `compression` property, or "unknown"
/// when it could not be read.
pub open spec fn compression_of(prop: Option<Seq<char>>) -> Seq<char> {
    match prop {
        Some(c) => c,
        None => "unknown"@,
    }
}

impl ZfsHandle {
    /// The dataset name.
    pub fn name(&self) -> (r: String)
        ensures
            r@ == self.name@,
    {
        self.name.clone()
    }

    /// The dataset type.
    pub fn dataset_type(&self) -> (r: zfs_type_t)
        ensures
            r == self.dataset_type,
    {
        self.dataset_type
    }

    /// The used bytes.
    pub fn used(&self) -> (r: u64)
        ensures
            r == self.used,
    {
        self.used
    }

    /// The available bytes.
    pub fn available(&self) -> (r: u64)
        ensures
            r == self.available,
    {
        self.available
    }

    /// The referenced bytes.
    pub fn referenced(&self) -> (r: u64)
        ensures
            r == self.referenced,
    {
        self.referenced
    }

    /// The compression ratio (1.00x = 100).
    pub fn compressratio(&self) -> (r: u64)
        ensures
            r == self.compressratio,
    {
        self.compressratio
    }

    /// The mount point of the dataset.
    pub fn mountpoint(&self) -> (r: Option<String>)
        ensures
            r.deep_view() == mountpoint_of(self.mountpoint_prop.deep_view()),
    {
        match &self.mountpoint_prop {
            Some(s) => {
                let cs = str_chars(s.as_str());
                if cs.len() == 0 || chars_eq_str(cs.as_slice(), "none") || chars_eq_str(
                    cs.as_slice(),
                    "-",
                ) {
                    None
                } else {
                    Some(s.clone())
                }
            },
            None => None,
        }
    }

    /// The compression setting.
    pub fn compression(&self) -> (r: String)
        ensures
            r@ == compression_of(self.compression_prop.deep_view()),
    {
        match &self.compression_prop {
            Some(c) => c.clone(),
            None => chars_to_string(str_chars("unknown").as_slice()),
        }
    }
}

/// Information about a ZFS dataset.
#[derive(Debug, Clone)]
pub struct DatasetInfo {
    /// Full dataset name (pool/path)
    pub name: String,
    /// Pool this dataset belongs to
    pub pool: String,
    /// Dataset type (filesystem, volume, snapshot)
    pub dataset_type: String,
    /// Used bytes
    pub used: u64,
    /// Available bytes
    pub available: u64,
    /// Referenced bytes
    pub referenced: u64,
    /// Compression ratio (1.00x = 100)
    pub compressratio: u64,
    /// Mount point (if mounted)
    pub mountpoint: Option<String>,
    /// Compression algorithm
    pub compression: String,
}

/// What the backend reports about an opened dataset of the pool `pool`.
pub open spec fn dataset_info_matches(info: DatasetInfo, ds: ZfsHandle, pool: Seq<char>) -> bool {
    &&& info.name@ == ds.name@
    &&& info.pool@ == pool
    &&& info.dataset_type@ == dataset_type_name(ds.dataset_type)
    &&& info.used == ds.used
    &&& info.available == ds.available
    &&& info.referenced == ds.referenced
    &&& info.compressratio == ds.compressratio
    &&& info.mountpoint.deep_view() == mountpoint_of(ds.mountpoint_prop.deep_view())
    &&& info.compression@ == compression_of(ds.compression_prop.deep_view())
}

/// The information about an opened dataset of the pool `pool_name`.
pub fn dataset_to_info(ds: &ZfsHandle, pool_name: &str) -> (r: DatasetInfo)
    ensures
        dataset_info_matches(r, *ds, pool_name@),
{
    DatasetInfo {
        name: ds.name(),
        pool: chars_to_string(str_chars(pool_name).as_slice()),
        dataset_type: dataset_type_label(ds.dataset_type()),
        used: ds.used(),
        available: ds.available(),
        referenced: ds.referenced(),
        compressratio: ds.compressratio(),
        mountpoint: ds.mountpoint(),
        compression: ds.compression(),
    }
}

/// The pool a dataset belongs to: the text of its name before the first
/// `/` ("rpool/ROOT/omnios" belongs to "rpool").
pub open spec fn pool_of(name: Seq<char>) -> Seq<char> {
    text::split_on(name, '/')[0]
}

/// The pool a dataset belongs to.
pub fn dataset_pool_name(name: &str) -> (r: String)
    ensures
        r@ == pool_of(name@),
{
    let cs = str_chars(name);
    let parts = text::split_chars(cs.as_slice(), '/');
    proof {
        assert(text::split_on(cs@, '/').len() >= 1);
        assert(text::views(parts@)[0] == parts@[0]@);
    }
    chars_to_string(parts[0].as_slice())
}

/// Information about a specific dataset: the error of opening it, or what
/// the opened dataset reports, with the pool its name belongs to.
pub fn get_dataset(name: &str, opened: Result<ZfsHandle, AppError>) -> (r: Result<
    DatasetInfo,
    AppError,
>)
    ensures
        match opened {
            Ok(ds) => r matches Ok(info) && dataset_info_matches(info, ds, pool_of(name@)),
            Err(e) => r == Err::<DatasetInfo, AppError>(e),
        },
{
    match opened {
        Ok(ds) => {
            let pool = dataset_pool_name(name);
            Ok(dataset_to_info(&ds, pool.as_str()))
        },
        Err(e) => Err(e),
    }
}


// ---------------------------------------------------------------------------
// Without libzfs
// ---------------------------------------------------------------------------

/// The answer about a pool when libzfs is not available.
pub fn mock_pool_not_found(name: &str) -> (r: AppError)
    ensures
        r matches AppError::NotFound(m) && m@ == "Pool '"@ + name@ + "' not found (mock mode)"@,
{
    AppError::NotFound(join3("Pool '", name, "' not found (mock mode)"))
}

/// The answer about a dataset when libzfs is not available.
pub fn mock_dataset_not_found(name: &str) -> (r: AppError)
    ensures
        r matches AppError::NotFound(m) && m@ == "Dataset '"@ + name@ + "' not found (mock mode)"@,
{
    AppError::NotFound(join3("Dataset '", name, "' not found (mock mode)"))
}

} // verus!
