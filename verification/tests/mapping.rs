use os_core::error::KernelError;
use os_core::mm::{MapArea, MapPermission, MemorySet, PhysPageNum, VPNRange, VirtPageNum};
use os_core::task::{LoadedApp, TaskContext, TaskControlBlock, TaskStatus};

fn range(start: usize, end: usize) -> VPNRange {
    VPNRange::new(VirtPageNum(start), VirtPageNum(end))
}

fn rights(readable: bool, writable: bool, executable: bool) -> MapPermission {
    MapPermission { readable, writable, executable, user: true }
}

fn empty_task() -> TaskControlBlock {
    TaskControlBlock::new(LoadedApp {
        memory_set: MemorySet::new_bare(0x55),
        user_sp: 0x2_0000,
        trap_cx_ppn: PhysPageNum(0x80_123),
        kernel_stack_top: 0xffff_e000,
    })
}

/// A task whose address space already holds a user stack on pages 16 and
/// 17 and, for the kernel only, a trap-context page 1000.
fn loaded_task() -> TaskControlBlock {
    let mut memory_set = MemorySet::new_bare(0x55);
    memory_set.insert_framed_area(VirtPageNum(16), VirtPageNum(18), rights(true, true, false));
    memory_set.insert_framed_area(
        VirtPageNum(1000),
        VirtPageNum(1001),
        MapPermission { readable: true, writable: true, executable: false, user: false },
    );
    TaskControlBlock::new(LoadedApp {
        memory_set,
        user_sp: 0x1_2000,
        trap_cx_ppn: PhysPageNum(0x80_123),
        kernel_stack_top: 0xffff_e000,
    })
}

fn areas_of(task: &TaskControlBlock) -> Vec<MapArea> {
    task.memory_set.areas.iter().copied().collect()
}

#[test]
fn a_new_task_is_ready_and_owns_what_loading_gave_it() {
    let task = loaded_task();
    assert_eq!(task.task_status, TaskStatus::Ready);
    assert_eq!(task.task_cx, TaskContext::TrapReturn { kernel_stack_top: 0xffff_e000 });
    assert_eq!(task.task_cx, TaskContext::goto_trap_return(0xffff_e000));
    assert_eq!(task.trap_cx_ppn, PhysPageNum(0x80_123));
    assert_eq!(task.base_size, 0x1_2000);
    assert_eq!(task.memory_set.areas.len(), 2);
    assert_eq!(task.get_user_token(), 0x55);
    assert_eq!(task.get_trap_cx(), PhysPageNum(0x80_123));
}

#[test]
fn the_placeholder_context_is_zero() {
    assert_eq!(TaskContext::zero_init(), TaskContext::Zero);
}

#[test]
fn mmap_misaligned_start_is_invalid() {
    let mut task = empty_task();
    assert_eq!(task.map_memory_area(4097, 4096, 1), Err(KernelError::InvalidArgument));
    assert!(task.memory_set.areas.is_empty());
}

#[test]
fn mmap_port_without_rights_is_invalid() {
    let mut task = empty_task();
    assert_eq!(task.map_memory_area(0x1000_0000, 4096, 0), Err(KernelError::InvalidArgument));
    assert!(task.memory_set.areas.is_empty());
}

#[test]
fn mmap_port_with_unknown_bit_is_invalid() {
    let mut task = empty_task();
    assert_eq!(task.map_memory_area(0x1000_0000, 4096, 8), Err(KernelError::InvalidArgument));
    assert_eq!(task.map_memory_area(0x1000_0000, 4096, 9), Err(KernelError::InvalidArgument));
    assert_eq!(
        task.map_memory_area(0x1000_0000, 4096, usize::MAX),
        Err(KernelError::InvalidArgument)
    );
    assert!(task.memory_set.areas.is_empty());
}

#[test]
fn mmap_success_adds_exactly_one_area() {
    let mut task = empty_task();
    assert_eq!(task.map_memory_area(0x1000_0000, 4096, 3), Ok(()));
    assert_eq!(
        areas_of(&task),
        vec![MapArea { vpn_range: range(0x10000, 0x10001), map_perm: rights(true, true, false) }]
    );
}

#[test]
fn mmap_success_keeps_the_areas_that_were_there() {
    let mut task = loaded_task();
    let before = areas_of(&task);
    assert_eq!(task.map_memory_area(0x1000_0000, 4096, 3), Ok(()));
    let after = areas_of(&task);
    assert_eq!(after.len(), before.len() + 1);
    assert_eq!(&after[..before.len()], &before[..]);
    assert_eq!(
        after[before.len()],
        MapArea { vpn_range: range(0x10000, 0x10001), map_perm: rights(true, true, false) }
    );
    assert_eq!(task.task_status, TaskStatus::Ready);
    assert_eq!(task.base_size, 0x1_2000);
    assert_eq!(task.get_user_token(), 0x55);
}

#[test]
fn mmap_of_one_byte_covers_one_page() {
    let mut task = empty_task();
    assert_eq!(task.map_memory_area(0x3000, 1, 1), Ok(()));
    assert_eq!(
        areas_of(&task),
        vec![MapArea { vpn_range: range(3, 4), map_perm: rights(true, false, false) }]
    );
}

#[test]
fn mmap_rounds_the_length_up_to_whole_pages() {
    let mut task = empty_task();
    assert_eq!(task.map_memory_area(0x3000, 4097, 2), Ok(()));
    assert_eq!(task.map_memory_area(0x8000, 3 * 4096, 4), Ok(()));
    assert_eq!(
        areas_of(&task),
        vec![
            MapArea { vpn_range: range(3, 5), map_perm: rights(false, true, false) },
            MapArea { vpn_range: range(8, 11), map_perm: rights(false, false, true) },
        ]
    );
}

#[test]
fn mmap_twice_is_refused_as_already_mapped() {
    let mut task = empty_task();
    assert_eq!(task.map_memory_area(0x1000_0000, 4096, 3), Ok(()));
    assert_eq!(
        task.map_memory_area(0x1000_0000, 4096, 3),
        Err(KernelError::AddressAlreadyMapped)
    );
    assert_eq!(task.memory_set.areas.len(), 1);
}

#[test]
fn mmap_of_nothing_succeeds_and_maps_nothing() {
    let mut task = loaded_task();
    let before = areas_of(&task);
    assert_eq!(task.map_memory_area(0x1000_0000, 0, 3), Ok(()));
    assert_eq!(task.map_memory_area(0x1_0000, 0, 3), Ok(()));
    assert_eq!(areas_of(&task), before);
}

#[test]
fn mmap_of_nothing_is_not_validated_further() {
    let mut task = empty_task();
    assert_eq!(task.map_memory_area(4097, 0, 0), Ok(()));
    assert_eq!(task.map_memory_area(1, 0, 8), Ok(()));
    assert!(task.memory_set.areas.is_empty());
}

#[test]
fn mmap_length_over_the_ceiling_is_invalid() {
    let mut task = empty_task();
    assert_eq!(
        task.map_memory_area(0x1000_0000, (1 << 30) + 1, 3),
        Err(KernelError::InvalidArgument)
    );
    assert_eq!(
        task.map_memory_area(0x1000_0000, usize::MAX, 3),
        Err(KernelError::InvalidArgument)
    );
    assert!(task.memory_set.areas.is_empty());
}

#[test]
fn mmap_length_at_the_ceiling_is_accepted() {
    let mut task = empty_task();
    assert_eq!(task.map_memory_area(0x1000_0000, 1 << 30, 3), Ok(()));
    assert_eq!(
        areas_of(&task),
        vec![MapArea {
            vpn_range: range(0x10000, 0x10000 + (1 << 18)),
            map_perm: rights(true, true, false)
        }]
    );
}

#[test]
fn mmap_validation_comes_before_the_overlap_test() {
    let mut task = loaded_task();
    // Pages 16 and 17 are taken: a malformed request on them is still
    // reported as malformed.
    assert_eq!(task.map_memory_area(0x1_0001, 4096, 3), Err(KernelError::InvalidArgument));
    assert_eq!(task.map_memory_area(0x1_0000, 4096, 0), Err(KernelError::InvalidArgument));
    assert_eq!(
        task.map_memory_area(0x1_0000, (1 << 30) + 1, 3),
        Err(KernelError::InvalidArgument)
    );
    assert_eq!(task.map_memory_area(0x1_0000, 4096, 3), Err(KernelError::AddressAlreadyMapped));
}

#[test]
fn mmap_refuses_any_shared_page() {
    let mut task = loaded_task();
    let before = areas_of(&task);
    // ends inside the stack
    assert_eq!(
        task.map_memory_area(15 * 4096, 2 * 4096, 3),
        Err(KernelError::AddressAlreadyMapped)
    );
    // starts inside the stack
    assert_eq!(
        task.map_memory_area(17 * 4096, 4 * 4096, 3),
        Err(KernelError::AddressAlreadyMapped)
    );
    // holds the stack whole
    assert_eq!(
        task.map_memory_area(10 * 4096, 20 * 4096, 3),
        Err(KernelError::AddressAlreadyMapped)
    );
    // one byte that rounds into the trap-context page
    assert_eq!(task.map_memory_area(1000 * 4096, 1, 1), Err(KernelError::AddressAlreadyMapped));
    assert_eq!(areas_of(&task), before);
}

#[test]
fn mmap_next_to_an_area_is_granted() {
    let mut task = loaded_task();
    assert_eq!(task.map_memory_area(15 * 4096, 4096, 3), Ok(()));
    assert_eq!(task.map_memory_area(18 * 4096, 4096, 5), Ok(()));
    assert_eq!(task.memory_set.areas.len(), 4);
    assert_eq!(
        areas_of(&task)[2..],
        [
            MapArea { vpn_range: range(15, 16), map_perm: rights(true, true, false) },
            MapArea { vpn_range: range(18, 19), map_perm: rights(true, false, true) },
        ]
    );
}

#[test]
fn mmap_a_refused_request_changes_nothing() {
    let mut task = loaded_task();
    task.map_memory_area(0x1000_0000, 8192, 7).unwrap();
    let before = areas_of(&task);
    assert!(task.map_memory_area(0x1000_1000, 4096, 1).is_err());
    assert!(task.map_memory_area(0x1000_0001, 4096, 1).is_err());
    assert!(task.map_memory_area(0x2000_0000, 4096, 0).is_err());
    assert!(task.map_memory_area(0x2000_0000, usize::MAX, 1).is_err());
    assert_eq!(areas_of(&task), before);
    assert_eq!(task.task_status, TaskStatus::Ready);
    assert_eq!(task.get_user_token(), 0x55);
}

#[test]
fn mmap_at_the_top_of_the_address_space() {
    let mut task = empty_task();
    let top = usize::MAX - 4095;
    assert_eq!(task.map_memory_area(top, 4096, 1), Ok(()));
    assert_eq!(
        areas_of(&task),
        vec![MapArea {
            vpn_range: range(usize::MAX / 4096, usize::MAX / 4096 + 1),
            map_perm: rights(true, false, false)
        }]
    );
    assert_eq!(task.map_memory_area(top, 1, 1), Err(KernelError::AddressAlreadyMapped));
}

#[test]
fn mmap_keeps_areas_disjoint() {
    let mut task = loaded_task();
    let requests: [(usize, usize, usize); 8] = [
        (0x1000_0000, 4096, 3),
        (0x1000_0000, 1, 1),
        (0x1000_1000, 8192, 7),
        (0x1000_2000, 4096, 2),
        (0x0fff_f000, 8192, 1),
        (0x0fff_f000, 4096, 1),
        (16 * 4096, 1, 1),
        (18 * 4096, 10, 6),
    ];
    for (start, len, port) in requests {
        let _ = task.map_memory_area(start, len, port);
        let areas = areas_of(&task);
        for i in 0..areas.len() {
            for j in (i + 1)..areas.len() {
                assert!(!areas[i].vpn_range.is_overlap(areas[j].vpn_range));
            }
        }
    }
    assert_eq!(task.memory_set.areas.len(), 6);
}

#[test]
fn munmap_removes_the_area_that_matches_exactly() {
    let mut task = loaded_task();
    task.map_memory_area(0x1000_0000, 8192, 3).unwrap();
    task.map_memory_area(0x2000_0000, 4096, 1).unwrap();
    assert_eq!(task.unmap_memory_area(0x1000_0000, 8192), Ok(()));
    assert_eq!(
        areas_of(&task)[2..],
        [MapArea { vpn_range: range(0x20000, 0x20001), map_perm: rights(true, false, false) }]
    );
    assert_eq!(task.memory_set.areas.len(), 3);
}

#[test]
fn munmap_measures_the_range_as_mmap_does() {
    let mut task = empty_task();
    task.map_memory_area(0x1000_0000, 5000, 3).unwrap();
    // 5000 bytes and 8192 bytes touch the same two pages
    assert_eq!(task.unmap_memory_area(0x1000_0000, 8192), Ok(()));
    assert!(task.memory_set.areas.is_empty());
    task.map_memory_area(0x1000_0000, 8192, 3).unwrap();
    assert_eq!(task.unmap_memory_area(0x1000_0000, 4097), Ok(()));
    assert!(task.memory_set.areas.is_empty());
}

#[test]
fn munmap_of_a_part_is_no_such_mapping() {
    let mut task = empty_task();
    task.map_memory_area(0x1000_0000, 3 * 4096, 3).unwrap();
    let before = areas_of(&task);
    assert_eq!(task.unmap_memory_area(0x1000_0000, 4096), Err(KernelError::NoSuchMapping));
    assert_eq!(task.unmap_memory_area(0x1000_1000, 4096), Err(KernelError::NoSuchMapping));
    assert_eq!(task.unmap_memory_area(0x1000_1000, 8192), Err(KernelError::NoSuchMapping));
    assert_eq!(task.unmap_memory_area(0x1000_0000, 4 * 4096), Err(KernelError::NoSuchMapping));
    assert_eq!(task.unmap_memory_area(0x0fff_f000, 4 * 4096), Err(KernelError::NoSuchMapping));
    assert_eq!(areas_of(&task), before);
}

#[test]
fn munmap_of_what_is_not_mapped_is_no_such_mapping() {
    let mut task = loaded_task();
    let before = areas_of(&task);
    assert_eq!(task.unmap_memory_area(0x1000_0000, 4096), Err(KernelError::NoSuchMapping));
    assert_eq!(task.unmap_memory_area(0, 0), Err(KernelError::NoSuchMapping));
    assert_eq!(areas_of(&task), before);
}

#[test]
fn munmap_cannot_address_a_kernel_only_area() {
    let mut task = loaded_task();
    let before = areas_of(&task);
    assert_eq!(task.unmap_memory_area(1000 * 4096, 4096), Err(KernelError::NoSuchMapping));
    assert_eq!(areas_of(&task), before);
}

#[test]
fn munmap_then_mmap_again_is_granted() {
    let mut task = empty_task();
    assert_eq!(task.map_memory_area(0x1000_0000, 4096, 3), Ok(()));
    assert_eq!(
        task.map_memory_area(0x1000_0000, 4096, 3),
        Err(KernelError::AddressAlreadyMapped)
    );
    assert_eq!(task.unmap_memory_area(0x1000_0000, 4096), Ok(()));
    assert_eq!(task.unmap_memory_area(0x1000_0000, 4096), Err(KernelError::NoSuchMapping));
    assert_eq!(task.map_memory_area(0x1000_0000, 4096, 5), Ok(()));
    assert_eq!(
        areas_of(&task),
        vec![MapArea { vpn_range: range(0x10000, 0x10001), map_perm: rights(true, false, true) }]
    );
}
