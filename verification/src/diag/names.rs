//! The names that stand in the report.
use vstd::prelude::*;

verus! {

/// The texts of a list of names.
pub open spec fn name_views(v: Seq<&'static str>) -> Seq<Seq<char>> {
    v.map_values(|n: &'static str| n@)
}

/// The kinds of work that are timed.
pub open spec fn work_names() -> Seq<Seq<char>> {
    seq![
        "openat"@,
        "statx"@,
        "readlink"@,
        "read"@,
        "pread"@,
        "mmap"@,
        "munmap"@,
        "mprotect"@,
        "pf_load"@,
        "pf_store"@,
        "pf_exec"@,
        "pf_anonymous_allocate"@,
        "pf_anonymous_install"@,
        "pf_anonymous_split"@,
        "pf_anonymous_map"@,
        "pf_anonymous_coalesce"@,
        "virtio_read"@,
        "virtio_write"@,
        "extent_lookup"@,
        "address_space_activation"@,
        "tlb_shootdown"@,
    ]
}

/// The kinds of work that are timed.
#[verifier::rlimit(40)]
pub fn work_table() -> (v: Vec<&'static str>)
    ensures
        name_views(v@) == work_names(),
        v@.len() == 21,
        forall|i: int| 0 <= i < v@.len() ==> (#[trigger] v@[i])@ == work_names()[i],
{
    let mut v: Vec<&'static str> = Vec::new();
    v.push("openat");
    v.push("statx");
    v.push("readlink");
    v.push("read");
    v.push("pread");
    v.push("mmap");
    v.push("munmap");
    v.push("mprotect");
    v.push("pf_load");
    v.push("pf_store");
    v.push("pf_exec");
    v.push("pf_anonymous_allocate");
    v.push("pf_anonymous_install");
    v.push("pf_anonymous_split");
    v.push("pf_anonymous_map");
    v.push("pf_anonymous_coalesce");
    v.push("virtio_read");
    v.push("virtio_write");
    v.push("extent_lookup");
    v.push("address_space_activation");
    v.push("tlb_shootdown");
    assert(name_views(v@) =~= work_names());
    proof {
        assert forall|i: int| 0 <= i < v@.len() implies (#[trigger] v@[i])@ == work_names()[i] by {
            assert(name_views(v@)[i] == v@[i]@);
        }
    }
    v
}

/// The phases of calls that are timed.
pub open spec fn phase_names() -> Seq<Seq<char>> {
    seq![
        "readlink_user_path"@,
        "readlink_target"@,
        "readlink_copy_out"@,
        "openat_path_resolve"@,
        "openat_vfs_and_fd"@,
        "close_fd_remove"@,
        "close_descriptor_drop"@,
        "statx_user_path"@,
        "statx_path_resolve"@,
        "statx_vfs_metadata"@,
        "statx_copy_out"@,
        "vfs_readlink_parent_resolve"@,
        "vfs_readlink_search_access"@,
        "vfs_readlink_mem_probe"@,
        "vfs_readlink_ext4_lookup"@,
        "vfs_symlink_backend_probe"@,
        "vfs_symlink_ext4_lookup"@,
        "ext4_close_reclaim_lock"@,
        "reserved_18"@,
        "ext4_close_discard"@,
        "reserved_20"@,
        "ext4_close_not_cached"@,
        "ext4_close_dirty_queued"@,
        "vfs_lookup_parent_symlinks"@,
        "vfs_lookup_search_access"@,
        "vfs_lookup_metadata"@,
        "vfs_metadata_backend_select"@,
        "vfs_metadata_mem"@,
        "vfs_metadata_ext4"@,
        "vfs_metadata_ext4_symlink"@,
        "vfs_metadata_convert"@,
        "vfs_open_pseudo_refresh"@,
        "vfs_open_parent_symlink"@,
        "vfs_open_final_symlink"@,
        "vfs_open_backend_probe"@,
        "vfs_open_directory_probe"@,
        "vfs_open_ext4_regular_lookup"@,
        "vfs_open_create_parent_probe"@,
        "vfs_open_create"@,
        "vfs_open_missing_errno"@,
        "vfs_metadata_normalize_whiteout"@,
        "vfs_metadata_tmpfs_route"@,
        "vfs_metadata_ext4_path"@,
        "vfs_metadata_mounted_ext4"@,
        "vfs_metadata_missing_errno"@,
        "exec_replace_swap"@,
        "exec_replace_old_drop"@,
        "exec_old_asid_retire"@,
        "exec_old_page_table_drop"@,
        "exec_old_resident_drop"@,
        "namespace_create_parent_missing"@,
        "namespace_create_backend_enoent"@,
        "namespace_rename_old_parent_missing"@,
        "namespace_rename_new_parent_missing"@,
        "namespace_rename_source_missing"@,
        "namespace_unlink_parent_missing"@,
        "namespace_unlink_target_missing"@,
        "namespace_positive_generation_crossing"@,
        "namespace_negative_generation_crossing"@,
    ]
}

/// The phases of calls that are timed.
#[verifier::rlimit(40)]
pub fn phase_table() -> (v: Vec<&'static str>)
    ensures
        name_views(v@) == phase_names(),
        v@.len() == 59,
        forall|i: int| 0 <= i < v@.len() ==> (#[trigger] v@[i])@ == phase_names()[i],
{
    let mut v: Vec<&'static str> = Vec::new();
    v.push("readlink_user_path");
    v.push("readlink_target");
    v.push("readlink_copy_out");
    v.push("openat_path_resolve");
    v.push("openat_vfs_and_fd");
    v.push("close_fd_remove");
    v.push("close_descriptor_drop");
    v.push("statx_user_path");
    v.push("statx_path_resolve");
    v.push("statx_vfs_metadata");
    v.push("statx_copy_out");
    v.push("vfs_readlink_parent_resolve");
    v.push("vfs_readlink_search_access");
    v.push("vfs_readlink_mem_probe");
    v.push("vfs_readlink_ext4_lookup");
    v.push("vfs_symlink_backend_probe");
    v.push("vfs_symlink_ext4_lookup");
    v.push("ext4_close_reclaim_lock");
    v.push("reserved_18");
    v.push("ext4_close_discard");
    v.push("reserved_20");
    v.push("ext4_close_not_cached");
    v.push("ext4_close_dirty_queued");
    v.push("vfs_lookup_parent_symlinks");
    v.push("vfs_lookup_search_access");
    v.push("vfs_lookup_metadata");
    v.push("vfs_metadata_backend_select");
    v.push("vfs_metadata_mem");
    v.push("vfs_metadata_ext4");
    v.push("vfs_metadata_ext4_symlink");
    v.push("vfs_metadata_convert");
    v.push("vfs_open_pseudo_refresh");
    v.push("vfs_open_parent_symlink");
    v.push("vfs_open_final_symlink");
    v.push("vfs_open_backend_probe");
    v.push("vfs_open_directory_probe");
    v.push("vfs_open_ext4_regular_lookup");
    v.push("vfs_open_create_parent_probe");
    v.push("vfs_open_create");
    v.push("vfs_open_missing_errno");
    v.push("vfs_metadata_normalize_whiteout");
    v.push("vfs_metadata_tmpfs_route");
    v.push("vfs_metadata_ext4_path");
    v.push("vfs_metadata_mounted_ext4");
    v.push("vfs_metadata_missing_errno");
    v.push("exec_replace_swap");
    v.push("exec_replace_old_drop");
    v.push("exec_old_asid_retire");
    v.push("exec_old_page_table_drop");
    v.push("exec_old_resident_drop");
    v.push("namespace_create_parent_missing");
    v.push("namespace_create_backend_enoent");
    v.push("namespace_rename_old_parent_missing");
    v.push("namespace_rename_new_parent_missing");
    v.push("namespace_rename_source_missing");
    v.push("namespace_unlink_parent_missing");
    v.push("namespace_unlink_target_missing");
    v.push("namespace_positive_generation_crossing");
    v.push("namespace_negative_generation_crossing");
    assert(name_views(v@) =~= phase_names());
    proof {
        assert forall|i: int| 0 <= i < v@.len() implies (#[trigger] v@[i])@ == phase_names()[i] by {
            assert(name_views(v@)[i] == v@[i]@);
        }
    }
    v
}

/// Where page faults come from.
pub open spec fn source_names() -> Seq<Seq<char>> {
    seq![
        "hardware_load"@,
        "hardware_store"@,
        "hardware_exec"@,
        "prepare_read"@,
        "prepare_write"@,
    ]
}

/// Where page faults come from.
#[verifier::rlimit(40)]
pub fn source_table() -> (v: Vec<&'static str>)
    ensures
        name_views(v@) == source_names(),
        v@.len() == 5,
        forall|i: int| 0 <= i < v@.len() ==> (#[trigger] v@[i])@ == source_names()[i],
{
    let mut v: Vec<&'static str> = Vec::new();
    v.push("hardware_load");
    v.push("hardware_store");
    v.push("hardware_exec");
    v.push("prepare_read");
    v.push("prepare_write");
    assert(name_views(v@) =~= source_names());
    proof {
        assert forall|i: int| 0 <= i < v@.len() implies (#[trigger] v@[i])@ == source_names()[i] by {
            assert(name_views(v@)[i] == v@[i]@);
        }
    }
    v
}

/// How page faults are served.
pub open spec fn resolution_names() -> Seq<Seq<char>> {
    seq![
        "cow"@,
        "existing_mapping"@,
        "file_resident"@,
        "anonymous_demand"@,
        "clean_file_cache"@,
        "existing_frame"@,
        "backing_read"@,
    ]
}

/// How page faults are served.
#[verifier::rlimit(40)]
pub fn resolution_table() -> (v: Vec<&'static str>)
    ensures
        name_views(v@) == resolution_names(),
        v@.len() == 7,
        forall|i: int| 0 <= i < v@.len() ==> (#[trigger] v@[i])@ == resolution_names()[i],
{
    let mut v: Vec<&'static str> = Vec::new();
    v.push("cow");
    v.push("existing_mapping");
    v.push("file_resident");
    v.push("anonymous_demand");
    v.push("clean_file_cache");
    v.push("existing_frame");
    v.push("backing_read");
    assert(name_views(v@) =~= resolution_names());
    proof {
        assert forall|i: int| 0 <= i < v@.len() implies (#[trigger] v@[i])@ == resolution_names()[i] by {
            assert(name_views(v@)[i] == v@[i]@);
        }
    }
    v
}

/// What locks protect.
pub open spec fn lock_names() -> Seq<Seq<char>> {
    seq![
        "vfs"@,
        "ext4"@,
        "block_cache"@,
        "virtio"@,
        "task_manager"@,
        "wait_queue"@,
        "frame_allocator"@,
        "heap"@,
        "memory_set"@,
        "memory_set_activation"@,
        "fd_table"@,
    ]
}

/// What locks protect.
#[verifier::rlimit(40)]
pub fn lock_table() -> (v: Vec<&'static str>)
    ensures
        name_views(v@) == lock_names(),
        v@.len() == 11,
        forall|i: int| 0 <= i < v@.len() ==> (#[trigger] v@[i])@ == lock_names()[i],
{
    let mut v: Vec<&'static str> = Vec::new();
    v.push("vfs");
    v.push("ext4");
    v.push("block_cache");
    v.push("virtio");
    v.push("task_manager");
    v.push("wait_queue");
    v.push("frame_allocator");
    v.push("heap");
    v.push("memory_set");
    v.push("memory_set_activation");
    v.push("fd_table");
    assert(name_views(v@) =~= lock_names());
    proof {
        assert forall|i: int| 0 <= i < v@.len() implies (#[trigger] v@[i])@ == lock_names()[i] by {
            assert(name_views(v@)[i] == v@[i]@);
        }
    }
    v
}

/// Why the lock of an address space is taken.
pub open spec fn site_names() -> Seq<Seq<char>> {
    seq![
        "other"@,
        "user_entry_activation"@,
        "hardware_page_fault"@,
        "user_copy_read"@,
        "user_copy_write"@,
        "brk"@,
        "mmap_select"@,
        "mmap_commit"@,
        "mprotect"@,
        "munmap"@,
        "file_invalidate"@,
        "file_writeback"@,
        "shared_memory"@,
        "fork_cow"@,
        "exec_replace"@,
        "futex"@,
    ]
}

/// Why the lock of an address space is taken.
#[verifier::rlimit(40)]
pub fn site_table() -> (v: Vec<&'static str>)
    ensures
        name_views(v@) == site_names(),
        v@.len() == 16,
        forall|i: int| 0 <= i < v@.len() ==> (#[trigger] v@[i])@ == site_names()[i],
{
    let mut v: Vec<&'static str> = Vec::new();
    v.push("other");
    v.push("user_entry_activation");
    v.push("hardware_page_fault");
    v.push("user_copy_read");
    v.push("user_copy_write");
    v.push("brk");
    v.push("mmap_select");
    v.push("mmap_commit");
    v.push("mprotect");
    v.push("munmap");
    v.push("file_invalidate");
    v.push("file_writeback");
    v.push("shared_memory");
    v.push("fork_cow");
    v.push("exec_replace");
    v.push("futex");
    assert(name_views(v@) =~= site_names());
    proof {
        assert forall|i: int| 0 <= i < v@.len() implies (#[trigger] v@[i])@ == site_names()[i] by {
            assert(name_views(v@)[i] == v@[i]@);
        }
    }
    v
}

/// Why tasks wait.
pub open spec fn block_names() -> Seq<Seq<char>> {
    seq![
        "block_io"@,
        "pipe_fd_ready"@,
        "poll"@,
        "wait4_waitid"@,
        "timer"@,
        "futex"@,
        "signal"@,
    ]
}

/// Why tasks wait.
#[verifier::rlimit(40)]
pub fn block_table() -> (v: Vec<&'static str>)
    ensures
        name_views(v@) == block_names(),
        v@.len() == 7,
        forall|i: int| 0 <= i < v@.len() ==> (#[trigger] v@[i])@ == block_names()[i],
{
    let mut v: Vec<&'static str> = Vec::new();
    v.push("block_io");
    v.push("pipe_fd_ready");
    v.push("poll");
    v.push("wait4_waitid");
    v.push("timer");
    v.push("futex");
    v.push("signal");
    assert(name_views(v@) =~= block_names());
    proof {
        assert forall|i: int| 0 <= i < v@.len() implies (#[trigger] v@[i])@ == block_names()[i] by {
            assert(name_views(v@)[i] == v@[i]@);
        }
    }
    v
}

/// The kinds of tasks that wait.
pub open spec fn actor_names() -> Seq<Seq<char>> {
    seq![
        "rustc"@,
        "cargo"@,
        "other"@,
    ]
}

/// The kinds of tasks that wait.
#[verifier::rlimit(40)]
pub fn actor_table() -> (v: Vec<&'static str>)
    ensures
        name_views(v@) == actor_names(),
        v@.len() == 3,
        forall|i: int| 0 <= i < v@.len() ==> (#[trigger] v@[i])@ == actor_names()[i],
{
    let mut v: Vec<&'static str> = Vec::new();
    v.push("rustc");
    v.push("cargo");
    v.push("other");
    assert(name_views(v@) =~= actor_names());
    proof {
        assert forall|i: int| 0 <= i < v@.len() implies (#[trigger] v@[i])@ == actor_names()[i] by {
            assert(name_views(v@)[i] == v@[i]@);
        }
    }
    v
}

} // verus!
