use vstd::prelude::*;

verus! {

/// A named part of a device, with its mount status as sampled at discovery.
/// The name is the kernel's (`sda1`); the node is `/dev/` followed by it.
pub struct Partition {
    pub name: Vec<u8>,
    pub is_mounted: bool,
}

/// A whole block device: its kernel name, its size in bytes and its
/// partitions. The first partition is the device's own node, which covers
/// the whole device and can be mounted too.
pub struct Device {
    pub name: Vec<u8>,
    pub size: u64,
    pub partitions: Vec<Partition>,
}

/// Discovery could not read the system's partition or mount tables.
#[derive(Clone, Copy, Debug, PartialEq, Eq, Structural)]
pub struct DiscoveryError;

/// A device counts as mounted when any of its partitions is.
pub open spec fn device_mounted(d: Device) -> bool {
    exists|i: int| 0 <= i < d.partitions@.len() && #[trigger] d.partitions@[i].is_mounted
}

/// `idx` lists, in increasing order, the positions in `catalog` of exactly
/// the devices whose mount status is `m`.
pub open spec fn lists_devices(catalog: Seq<Device>, idx: Seq<usize>, m: bool) -> bool {
    &&& forall|a: int, b: int| 0 <= a < b < idx.len() ==> idx[a] < idx[b]
    &&& forall|k: int| 0 <= k < idx.len() ==> idx[k] < catalog.len()
    &&& forall|i: int|
        0 <= i < catalog.len() ==> (idx.contains(i as usize) <==> device_mounted(#[trigger] catalog[i]) == m)
}

/// Whether any partition of `d` is mounted.
pub fn is_mounted(d: &Device) -> (r: bool)
    ensures
        r == device_mounted(*d),
{
    let mut i: usize = 0;
    while i < d.partitions.len()
        invariant
            i <= d.partitions@.len(),
            forall|j: int| 0 <= j < i ==> !d.partitions@[j].is_mounted,
        decreases d.partitions@.len() - i,
    {
        if d.partitions[i].is_mounted {
            return true;
        }
        i = i + 1;
    }
    false
}

fn positions_with(catalog: &Vec<Device>, m: bool) -> (r: Vec<usize>)
    ensures
        lists_devices(catalog@, r@, m),
{
    let mut r: Vec<usize> = Vec::new();
    let mut i: usize = 0;
    while i < catalog.len()
        invariant
            i <= catalog@.len(),
            forall|a: int, b: int| 0 <= a < b < r@.len() ==> r@[a] < r@[b],
            forall|k: int| 0 <= k < r@.len() ==> r@[k] < i,
            forall|j: int|
                0 <= j < i ==> (r@.contains(j as usize) <==> device_mounted(#[trigger] catalog@[j]) == m),
        decreases catalog@.len() - i,
    {
        let ghost before = r@;
        if is_mounted(&catalog[i]) == m {
            r.push(i);
            assert(r@[r@.len() - 1] == i);
        }
        assert forall|j: int| 0 <= j < i + 1 implies (r@.contains(j as usize) <==> device_mounted(
            #[trigger] catalog@[j],
        ) == m) by {
            if j < i {
                if r@.contains(j as usize) {
                    let k = choose|k: int| 0 <= k < r@.len() && r@[k] == j as usize;
                    if k < before.len() {
                        assert(before[k] == r@[k]);
                    }
                } else if before.contains(j as usize) {
                    let k = choose|k: int| 0 <= k < before.len() && before[k] == j as usize;
                    assert(r@[k] == before[k]);
                }
            } else if !r@.contains(j as usize) {
                assert(before.len() == r@.len());
            } else {
                let k = choose|k: int| 0 <= k < r@.len() && r@[k] == j as usize;
                if k < before.len() {
                    assert(before[k] == r@[k]);
                }
            }
        }
        i = i + 1;
    }
    r
}

/// Positions in `catalog` of the devices with no mounted partition: the only
/// candidates for a wipe.
pub fn unmounted(catalog: &Vec<Device>) -> (r: Vec<usize>)
    ensures
        lists_devices(catalog@, r@, false),
{
    positions_with(catalog, false)
}

/// Positions in `catalog` of the devices with at least one mounted partition.
pub fn mounted(catalog: &Vec<Device>) -> (r: Vec<usize>)
    ensures
        lists_devices(catalog@, r@, true),
{
    positions_with(catalog, true)
}

/// Every device of the catalog is listed by exactly one of `unmounted` and
/// `mounted`, and neither lists anything else.
pub proof fn lemma_mount_partition(catalog: Seq<Device>, free: Seq<usize>, busy: Seq<usize>)
    requires
        lists_devices(catalog, free, false),
        lists_devices(catalog, busy, true),
    ensures
        forall|i: int|
            0 <= i < catalog.len() ==> (#[trigger] free.contains(i as usize) != busy.contains(i as usize)),
        forall|k: int| 0 <= k < free.len() ==> free[k] < catalog.len(),
        forall|k: int| 0 <= k < busy.len() ==> busy[k] < catalog.len(),
{
    assert forall|i: int| 0 <= i < catalog.len() implies (#[trigger] free.contains(i as usize)
        != busy.contains(i as usize)) by {
        assert(free.contains(i as usize) <==> device_mounted(catalog[i]) == false);
        assert(busy.contains(i as usize) <==> device_mounted(catalog[i]) == true);
    }
}

} // verus!
