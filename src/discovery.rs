use vstd::prelude::*;
use vstd::slice::slice_to_vec;

use crate::catalog::{Device, DiscoveryError, Partition};
use crate::tables::{
    all_digits, decimal_of, fields_of, is_digit, lines_of, parse_decimal, same_ranges, split_fields,
    split_lines,
};

verus! {

/// Bytes per block in the kernel's partition table.
pub const BLOCK_SIZE: u64 = 1024;

pub open spec fn range_of(s: Seq<u8>, r: (int, int)) -> Seq<u8> {
    s.subrange(r.0, r.1)
}

/// A row of the partition table holds major, minor, size in blocks and
/// name; this is its name and size in bytes, when the row has that shape.
pub open spec fn row_entry(row: Seq<u8>) -> Option<(Seq<u8>, u64)> {
    let f = fields_of(row);
    if f.len() == 4 {
        match decimal_of(range_of(row, f[2])) {
            Some(blocks) => if blocks <= u64::MAX / BLOCK_SIZE {
                Some((range_of(row, f[3]), (blocks * BLOCK_SIZE) as u64))
            } else {
                None
            },
            None => None,
        }
    } else {
        None
    }
}

/// Every line after the header is blank or a well-formed row.
pub open spec fn table_ok(text: Seq<u8>) -> bool {
    forall|k: int|
        1 <= k < lines_of(text).len() ==> {
            let row = range_of(text, #[trigger] lines_of(text)[k]);
            fields_of(row).len() == 0 || row_entry(row).is_some()
        }
}

/// The entries of the rows among the first `n` lines, header skipped.
pub open spec fn entries_upto(text: Seq<u8>, n: nat) -> Seq<(Seq<u8>, u64)>
    decreases n,
{
    if n <= 1 || n > lines_of(text).len() {
        Seq::empty()
    } else {
        let prev = entries_upto(text, (n - 1) as nat);
        match row_entry(range_of(text, lines_of(text)[n - 1])) {
            Some(e) => prev.push(e),
            None => prev,
        }
    }
}

/// The entries of the partition table, in order.
pub open spec fn table_entries(text: Seq<u8>) -> Seq<(Seq<u8>, u64)> {
    entries_upto(text, lines_of(text).len())
}

/// The first field of every non-blank line among the first `n`.
pub open spec fn sources_upto(text: Seq<u8>, n: nat) -> Seq<Seq<u8>>
    decreases n,
{
    if n == 0 || n > lines_of(text).len() {
        Seq::empty()
    } else {
        let prev = sources_upto(text, (n - 1) as nat);
        let row = range_of(text, lines_of(text)[n - 1]);
        if fields_of(row).len() > 0 {
            prev.push(range_of(row, fields_of(row)[0]))
        } else {
            prev
        }
    }
}

/// What the mount table mounts: the first field of each line.
pub open spec fn mount_sources(text: Seq<u8>) -> Seq<Seq<u8>> {
    sources_upto(text, lines_of(text).len())
}

/// The device node of kernel name `name`.
pub open spec fn dev_node(name: Seq<u8>) -> Seq<u8> {
    seq![47u8, 100u8, 101u8, 118u8, 47u8] + name
}

pub open spec fn node_mounted(sources: Seq<Seq<u8>>, name: Seq<u8>) -> bool {
    exists|i: int| 0 <= i < sources.len() && sources[i] == dev_node(name)
}

/// `name` is a partition of device `dev`: the device's name followed by a
/// number, or by `p` and a number (`sda1`, `nvme0n1p2`).
pub open spec fn is_partition_name(dev: Seq<u8>, name: Seq<u8>) -> bool {
    &&& name.len() > dev.len()
    &&& name.subrange(0, dev.len() as int) == dev
    &&& {
        let rest = name.subrange(dev.len() as int, name.len() as int);
        all_digits(rest) || (rest.len() > 1 && rest[0] == 112 && all_digits(rest.subrange(1, rest.len() as int)))
    }
}

/// A device as discovery sees it: name, size and the names of its nodes.
pub type DeviceModel = (Seq<u8>, u64, Seq<Seq<u8>>);

/// The devices that the first `n` entries make: an entry named as a
/// partition of the device before it joins that device, any other entry
/// starts a device of its own, whose own node comes first.
pub open spec fn group_upto(entries: Seq<(Seq<u8>, u64)>, n: nat) -> Seq<DeviceModel>
    decreases n,
{
    if n == 0 || n > entries.len() {
        Seq::empty()
    } else {
        let g = group_upto(entries, (n - 1) as nat);
        let e = entries[n - 1];
        if g.len() > 0 && is_partition_name(g.last().0, e.0) {
            g.update(g.len() - 1, (g.last().0, g.last().1, g.last().2.push(e.0)))
        } else {
            g.push((e.0, e.1, seq![e.0]))
        }
    }
}

pub open spec fn catalog_model(entries: Seq<(Seq<u8>, u64)>) -> Seq<DeviceModel> {
    group_upto(entries, entries.len())
}

/// `d` is the device `m`, with each node's mount status read from `sources`.
pub open spec fn device_matches(d: Device, m: DeviceModel, sources: Seq<Seq<u8>>) -> bool {
    &&& d.name@ == m.0
    &&& d.size == m.1
    &&& d.partitions@.len() == m.2.len()
    &&& forall|j: int|
        0 <= j < m.2.len() ==> {
            &&& (#[trigger] d.partitions@[j]).name@ == m.2[j]
            &&& d.partitions@[j].is_mounted == node_mounted(sources, m.2[j])
        }
}

/// Parses one row of the partition table.
fn parse_row(row: &[u8]) -> (r: Option<(Vec<u8>, u64)>)
    ensures
        match r {
            Some((name, size)) => row_entry(row@) == Some((name@, size)),
            None => row_entry(row@).is_none(),
        },
{
    let f = split_fields(row);
    if f.len() != 4 {
        return None;
    }
    let (a, b) = f[2];
    let (c, d) = f[3];
    match parse_decimal(&row[a..b]) {
        Some(blocks) => {
            if blocks <= u64::MAX / BLOCK_SIZE {
                Some((slice_to_vec(&row[c..d]), blocks * BLOCK_SIZE))
            } else {
                None
            }
        },
        None => None,
    }
}

/// `v` holds the entries `e`.
pub open spec fn entries_match(v: Seq<(Vec<u8>, u64)>, e: Seq<(Seq<u8>, u64)>) -> bool {
    &&& v.len() == e.len()
    &&& forall|k: int| 0 <= k < v.len() ==> (#[trigger] v[k]).0@ == e[k].0 && v[k].1 == e[k].1
}

/// The entries of the partition table `text`, or an error when a line after
/// the header is neither blank nor a well-formed row.
pub fn partition_entries(text: &[u8]) -> (r: Result<Vec<(Vec<u8>, u64)>, DiscoveryError>)
    ensures
        match r {
            Ok(v) => table_ok(text@) && entries_match(v@, table_entries(text@)),
            Err(_) => !table_ok(text@),
        },
{
    let lines = split_lines(text);
    let ghost ls = lines_of(text@);
    let mut v: Vec<(Vec<u8>, u64)> = Vec::new();
    let mut k: usize = 1;
    while k < lines.len()
        invariant
            same_ranges(lines@, ls),
            ls == lines_of(text@),
            forall|j: int| 0 <= j < lines@.len() ==> (#[trigger] lines@[j]).0 <= lines@[j].1 <= text@.len(),
            1 <= k,
            k <= lines@.len() || lines@.len() == 0,
            entries_match(v@, entries_upto(text@, k as nat)),
            forall|j: int|
                1 <= j < k ==> {
                    let row = range_of(text@, #[trigger] ls[j]);
                    fields_of(row).len() == 0 || row_entry(row).is_some()
                },
        decreases lines@.len() - k,
    {
        let (a, b) = lines[k];
        let row = &text[a..b];
        assert(row@ == range_of(text@, ls[k as int]));
        let ghost before = v@;
        let blank = split_fields(row).len() == 0;
        match parse_row(row) {
            Some(e) => {
                v.push(e);
                assert(v@ == before.push(e));
            },
            None => {
                if !blank {
                    assert(!table_ok(text@));
                    return Err(DiscoveryError);
                }
            },
        }
        k = k + 1;
    }
    assert(entries_upto(text@, lines@.len() as nat) == table_entries(text@));
    Ok(v)
}

/// The mount table's sources, in order.
pub fn mounted_sources(text: &[u8]) -> (r: Vec<Vec<u8>>)
    ensures
        r@.len() == mount_sources(text@).len(),
        forall|k: int| 0 <= k < r@.len() ==> (#[trigger] r@[k])@ == mount_sources(text@)[k],
{
    let lines = split_lines(text);
    let ghost ls = lines_of(text@);
    let mut v: Vec<Vec<u8>> = Vec::new();
    let mut k: usize = 0;
    while k < lines.len()
        invariant
            same_ranges(lines@, ls),
            ls == lines_of(text@),
            forall|j: int| 0 <= j < lines@.len() ==> (#[trigger] lines@[j]).0 <= lines@[j].1 <= text@.len(),
            k <= lines@.len(),
            v@.len() == sources_upto(text@, k as nat).len(),
            forall|j: int| 0 <= j < v@.len() ==> (#[trigger] v@[j])@ == sources_upto(text@, k as nat)[j],
        decreases lines@.len() - k,
    {
        let (a, b) = lines[k];
        let row = &text[a..b];
        assert(row@ == range_of(text@, ls[k as int]));
        let f = split_fields(row);
        if f.len() > 0 {
            let (c, d) = f[0];
            v.push(slice_to_vec(&row[c..d]));
        }
        k = k + 1;
    }
    v
}

fn digits_only(s: &[u8], from: usize) -> (r: bool)
    requires
        from <= s@.len(),
    ensures
        r == all_digits(s@.subrange(from as int, s@.len() as int)),
{
    let mut i: usize = from;
    while i < s.len()
        invariant
            from <= i <= s@.len(),
            forall|j: int| from <= j < i ==> is_digit(s@[j]),
        decreases s@.len() - i,
    {
        if s[i] < 48 || s[i] > 57 {
            assert(!is_digit(s@.subrange(from as int, s@.len() as int)[i - from]));
            return false;
        }
        i = i + 1;
    }
    assert forall|j: int| 0 <= j < s@.len() - from implies is_digit(
        #[trigger] s@.subrange(from as int, s@.len() as int)[j],
    ) by {
        assert(s@.subrange(from as int, s@.len() as int)[j] == s@[from + j]);
    }
    true
}

/// Whether `name` is a partition of the device named `dev`.
pub fn is_partition_of(dev: &[u8], name: &[u8]) -> (r: bool)
    ensures
        r == is_partition_name(dev@, name@),
{
    if name.len() <= dev.len() {
        return false;
    }
    let mut i: usize = 0;
    while i < dev.len()
        invariant
            i <= dev@.len() < name@.len(),
            forall|j: int| 0 <= j < i ==> dev@[j] == name@[j],
        decreases dev@.len() - i,
    {
        if dev[i] != name[i] {
            assert(name@.subrange(0, dev@.len() as int)[i as int] != dev@[i as int]);
            return false;
        }
        i = i + 1;
    }
    assert(name@.subrange(0, dev@.len() as int) =~= dev@);
    let ghost rest = name@.subrange(dev@.len() as int, name@.len() as int);
    let n = dev.len();
    if digits_only(name, n) {
        return true;
    }
    if name[n] == 112 && name.len() > n + 1 {
        assert(rest[0] == 112);
        assert(rest.subrange(1, rest.len() as int) =~= name@.subrange(n + 1, name@.len() as int));
        digits_only(name, n + 1)
    } else {
        assert(rest[0] == name@[n as int]);
        false
    }
}

fn same_bytes(a: &[u8], b: &[u8]) -> (r: bool)
    ensures
        r == (a@ == b@),
{
    if a.len() != b.len() {
        return false;
    }
    let mut i: usize = 0;
    while i < a.len()
        invariant
            i <= a@.len() == b@.len(),
            forall|j: int| 0 <= j < i ==> a@[j] == b@[j],
        decreases a@.len() - i,
    {
        if a[i] != b[i] {
            return false;
        }
        i = i + 1;
    }
    assert(a@ =~= b@);
    true
}

/// Whether the node of kernel name `name` is among the mount `sources`.
pub fn is_node_mounted(sources: &Vec<Vec<u8>>, name: &[u8]) -> (r: bool)
    ensures
        r == node_mounted(sources@.map_values(|v: Vec<u8>| v@), name@),
{
    let mut node: Vec<u8> = vec![47u8, 100u8, 101u8, 118u8, 47u8];
    let mut i: usize = 0;
    while i < name.len()
        invariant
            i <= name@.len(),
            node@ == seq![47u8, 100u8, 101u8, 118u8, 47u8] + name@.subrange(0, i as int),
        decreases name@.len() - i,
    {
        node.push(name[i]);
        assert(name@.subrange(0, i + 1) =~= name@.subrange(0, i as int).push(name@[i as int]));
        i = i + 1;
    }
    assert(name@.subrange(0, name@.len() as int) =~= name@);
    let ghost srcs = sources@.map_values(|v: Vec<u8>| v@);
    let mut k: usize = 0;
    while k < sources.len()
        invariant
            k <= sources@.len(),
            srcs == sources@.map_values(|v: Vec<u8>| v@),
            node@ == dev_node(name@),
            forall|j: int| 0 <= j < k ==> srcs[j] != dev_node(name@),
        decreases sources@.len() - k,
    {
        if same_bytes(sources[k].as_slice(), node.as_slice()) {
            assert(srcs[k as int] == dev_node(name@));
            return true;
        }
        k = k + 1;
    }
    false
}

/// Builds the device catalog from the kernel's partition table and mount
/// table. Fails when a row of the partition table is malformed: there is no
/// partial catalog.
pub fn discover(partitions: &[u8], mounts: &[u8]) -> (r: Result<Vec<Device>, DiscoveryError>)
    ensures
        match r {
            Err(_) => !table_ok(partitions@),
            Ok(devs) => {
                let model = catalog_model(table_entries(partitions@));
                &&& table_ok(partitions@)
                &&& devs@.len() == model.len()
                &&& forall|k: int|
                    0 <= k < devs@.len() ==> device_matches(
                        #[trigger] devs@[k],
                        model[k],
                        mount_sources(mounts@),
                    )
            },
        },
{
    let entries = match partition_entries(partitions) {
        Ok(v) => v,
        Err(e) => {
            return Err(e);
        },
    };
    let sources = mounted_sources(mounts);
    let ghost srcs = mount_sources(mounts@);
    assert(sources@.map_values(|v: Vec<u8>| v@) =~= srcs);
    let ghost es = table_entries(partitions@);
    let mut devs: Vec<Device> = Vec::new();
    let mut cur: Option<Device> = None;
    let mut i: usize = 0;
    while i < entries.len()
        invariant
            entries_match(entries@, es),
            i <= entries@.len(),
            sources@.map_values(|v: Vec<u8>| v@) == srcs,
            i == 0 ==> cur.is_none() && devs@.len() == 0,
            i > 0 ==> {
                let g = group_upto(es, i as nat);
                &&& cur.is_some()
                &&& devs@.len() + 1 == g.len()
                &&& device_matches(cur.unwrap(), g.last(), srcs)
            },
            forall|k: int|
                0 <= k < devs@.len() ==> device_matches(#[trigger] devs@[k], group_upto(es, i as nat)[k], srcs),
        decreases entries@.len() - i,
    {
        let ghost g = group_upto(es, i as nat);
        let name = entries[i].0.as_slice();
        let size = entries[i].1;
        let p = Partition { name: slice_to_vec(name), is_mounted: is_node_mounted(&sources, name) };
        let joins = match &cur {
            Some(d) => is_partition_of(d.name.as_slice(), name),
            None => false,
        };
        let ghost devs_before = devs@;
        let next = match cur {
            Some(d) => {
                if joins {
                    let mut d2 = d;
                    let ghost parts = d2.partitions@;
                    d2.partitions.push(p);
                    assert(d2.partitions@ == parts.push(p));
                    d2
                } else {
                    devs.push(d);
                    assert(devs@ == devs_before.push(d));
                    Device { name: slice_to_vec(name), size, partitions: vec![p] }
                }
            },
            None => Device { name: slice_to_vec(name), size, partitions: vec![p] },
        };
        cur = Some(next);
        i = i + 1;
    }
    if let Some(d) = cur {
        devs.push(d);
    }
    Ok(devs)
}

} // verus!
