//! The library-wide laws: properties that relate several operations of the
//! store, stated and proved once over the same specifications the
//! operations' own contracts use.

use vstd::prelude::*;
use crate::fs_core::INode;
use crate::fs_core::DirEntry;
use crate::fs_core::NvSensorFs;
use crate::fs_core::ROOT_ID;
use crate::fs_core::dev_node_ok;
use crate::fs_core::entries_for;
use crate::fs_core::lemma_device_id_bounds;
use crate::fs_core::lemma_entries_monotone;
use crate::fs_core::lemma_sensor_id_bounds;
use crate::fs_core::sensor_node_ok;
use crate::fs_core::spec_device_id;
use crate::fs_core::spec_entry_ok;
use crate::fs_core::spec_dir_attr;
use crate::fs_core::spec_file_attr;
use crate::fs_core::spec_first_match;
use crate::fs_core::spec_is_dir;
use crate::fs_core::spec_read_range;
use crate::fs_core::spec_rebuilt;
use crate::fs_core::spec_render_content;
use crate::fs_core::spec_sensor_id;
use crate::sensors::SampleError;
use crate::sensors::SensorKind;
use crate::sensors::spec_kind_name;
use crate::text::spec_dec_chars;

verus! {

/// A successful name resolution names an existing child of the scanned list.
pub proof fn lemma_first_match_in(ns: Map<u64, INode>, ch: Seq<u64>, name: Seq<char>, id: u64)
    requires
        spec_first_match(ns, ch, name) == Some(id),
    ensures
        exists|t: int| 0 <= t < ch.len() && #[trigger] ch[t] == id && ns[ch[t]].name@ == name,
    decreases ch.len(),
{
    if ch.len() > 0 {
        if ns[ch[0]].name@ == name {
            assert(ch[0] == id && ns[ch[0]].name@ == name);
        } else {
            lemma_first_match_in(ns, ch.skip(1), name, id);
            let t = choose|t: int|
                0 <= t < ch.skip(1).len() && #[trigger] ch.skip(1)[t] == id && ns[ch.skip(1)[t]].name@
                    == name;
            assert(ch[t + 1] == id && ns[ch[t + 1]].name@ == name);
        }
    }
}

/// Resolution and metadata agree: whatever `resolve` returns exists in the
/// store, and its metadata is exactly the fixed metadata of its shape — a
/// read-only regular file (mode `0o444`, nominal size) for a sensor file, a
/// traversal-only directory (mode `0o755`) otherwise, always carrying the
/// resolved identifier.
pub proof fn lemma_resolve_attributes_consistent(
    fs: NvSensorFs,
    parent: u64,
    name: Seq<char>,
    id: u64,
)
    requires
        fs.wf(),
        fs.spec_resolve(parent, name) == Some(id),
    ensures
        fs.ns().contains_key(id),
        fs.ns()[id].name@ == name,
        spec_is_dir(fs.ns()[id]) ==> fs.spec_attributes(id) == Some(spec_dir_attr(id)),
        !spec_is_dir(fs.ns()[id]) ==> fs.spec_attributes(id) == Some(spec_file_attr(id)),
        spec_file_attr(id).ino == id && spec_file_attr(id).perm == 0o444 && !spec_file_attr(
            id,
        ).is_dir,
        spec_dir_attr(id).ino == id && spec_dir_attr(id).perm == 0o755 && spec_dir_attr(id).is_dir,
{
    lemma_first_match_in(fs.ns(), fs.spec_children_ids(parent), name, id);
}

/// Readdir pagination is stable and complete: the pages cut at any boundary
/// concatenate to the full child list, and the list holds no duplicate — so
/// walking a directory from offset 0 to exhaustion yields exactly its child
/// set, whatever the page boundaries.
pub proof fn lemma_readdir_pagination(fs: NvSensorFs, ino: u64, k: int)
    requires
        fs.wf(),
        fs.spec_is_directory(ino),
        0 <= k <= fs.spec_children_ids(ino).len(),
    ensures
        fs.spec_children_ids(ino).take(k) + fs.spec_children_ids(ino).skip(k)
            == fs.spec_children_ids(ino),
        forall|i: int, j: int|
            0 <= i < j < fs.spec_children_ids(ino).len() ==> #[trigger] fs.spec_children_ids(
                ino,
            )[i] != #[trigger] fs.spec_children_ids(ino)[j],
{
    let ch = fs.spec_children_ids(ino);
    assert(ch.take(k) + ch.skip(k) =~= ch);
}

/// A listing cut into two pages at any boundary concatenates to the full
/// listing: a page of the first `m` rows followed by the listing resumed at
/// cursor `m` reports every child exactly once, in order, whatever `m` the
/// transport's buffer forced.
pub proof fn lemma_readdir_pages_concatenate(
    fs: NvSensorFs,
    ino: u64,
    m: int,
    v1: Seq<DirEntry>,
    v2: Seq<DirEntry>,
)
    requires
        fs.wf(),
        fs.spec_is_directory(ino),
        0 <= m <= fs.spec_children_ids(ino).len(),
        v1.len() == m,
        v2.len() == fs.spec_children_ids(ino).len() - m,
        forall|t: int|
            0 <= t < v1.len() ==> spec_entry_ok(fs, fs.spec_children_ids(ino), 0, t, #[trigger] v1[t]),
        forall|t: int|
            0 <= t < v2.len() ==> spec_entry_ok(fs, fs.spec_children_ids(ino), m, t, #[trigger] v2[t]),
    ensures
        (v1 + v2).len() == fs.spec_children_ids(ino).len(),
        forall|t: int|
            0 <= t < (v1 + v2).len() ==> spec_entry_ok(
                fs,
                fs.spec_children_ids(ino),
                0,
                t,
                #[trigger] (v1 + v2)[t],
            ),
        forall|i: int, j: int|
            0 <= i < j < (v1 + v2).len() ==> #[trigger] (v1 + v2)[i].ino != #[trigger] (v1
                + v2)[j].ino,
{
    let ch = fs.spec_children_ids(ino);
    let w = v1 + v2;
    assert forall|t: int| 0 <= t < w.len() implies spec_entry_ok(fs, ch, 0, t, #[trigger] w[t]) by {
        if t < m {
            assert(w[t] == v1[t]);
        } else {
            assert(w[t] == v2[t - m]);
        }
    }
    assert forall|i: int, j: int| 0 <= i < j < w.len() implies #[trigger] w[i].ino != #[trigger] w[j].ino by {
        assert(w[i].ino == ch[i] && w[j].ino == ch[j]);
    }
}

/// Two consecutive lookups with unchanged topology return the same
/// identifier: a refresh that observes an unchanged device count leaves the
/// store untouched, and resolution is a pure function of the store.
pub proof fn lemma_lookup_idempotent(
    pre: NvSensorFs,
    mid: NvSensorFs,
    parent: u64,
    name: Seq<char>,
)
    requires
        mid == pre || mid.device_count != pre.device_count,
        mid.device_count == pre.device_count,
    ensures
        mid.spec_resolve(parent, name) == pre.spec_resolve(parent, name),
{
}

/// Round trip: the content registered for a successful sample is the sampled
/// text with exactly one trailing newline; a read from offset 0 whose size
/// covers the content returns all of it, and a read at the content's length
/// returns the empty range.
pub proof fn lemma_open_read_round_trip(value: Seq<u8>, size: u32)
    requires
        value.len() + 1 <= size,
    ensures
        spec_render_content(Ok(value)) == value + seq![10u8],
        spec_read_range(spec_render_content(Ok(value)), 0, size) == value + seq![10u8],
        spec_read_range(spec_render_content(Ok(value)), (value.len() + 1) as u64, size)
            == Seq::<u8>::empty(),
{
    let content = spec_render_content(Ok(value));
    assert(spec_read_range(content, 0, size) =~= content);
    assert(spec_read_range(content, (value.len() + 1) as u64, size) =~= Seq::<u8>::empty());
}

/// A sample that failed — however it failed — is rendered as the literal
/// `N/A` line, never as a read failure.
pub proof fn lemma_failed_sample_is_na(e: SampleError)
    ensures
        spec_render_content(Err(e)) == seq![78u8, 47u8, 65u8, 10u8],
{
}

/// No entry of a rebuilt namespace has two parents: a child listed by two
/// directories is listed by one and the same.
pub proof fn lemma_rebuilt_one_parent(
    pre: NvSensorFs,
    post: NvSensorFs,
    count: u32,
    cats: Seq<Seq<SensorKind>>,
    p1: u64,
    p2: u64,
    c: u64,
)
    requires
        spec_rebuilt(pre, post, count, cats),
        post.spec_is_directory(p1),
        post.spec_is_directory(p2),
        post.spec_children_ids(p1).contains(c),
        post.spec_children_ids(p2).contains(c),
    ensures
        p1 == p2,
{
    let base = pre.last_inode_id;
    lemma_parent_shape(pre, post, count, cats, p1, c);
    lemma_parent_shape(pre, post, count, cats, p2, c);
    if p1 == ROOT_ID && p2 == ROOT_ID {
    } else if p1 == ROOT_ID {
        let ta = choose|t: int| 0 <= t < count && c as int == spec_device_id(base, cats, t);
        let tb = choose|t: int|
            {
                &&& 0 <= t < count
                &&& p2 as int == spec_device_id(base, cats, t)
                &&& spec_device_id(base, cats, t) < c as int <= spec_device_id(base, cats, t)
                    + cats[t].len()
            };
        lemma_device_ranges_ordered(base, cats, ta, tb);
        assert(false);
    } else if p2 == ROOT_ID {
        let ta = choose|t: int| 0 <= t < count && c as int == spec_device_id(base, cats, t);
        let tb = choose|t: int|
            {
                &&& 0 <= t < count
                &&& p1 as int == spec_device_id(base, cats, t)
                &&& spec_device_id(base, cats, t) < c as int <= spec_device_id(base, cats, t)
                    + cats[t].len()
            };
        lemma_device_ranges_ordered(base, cats, ta, tb);
        assert(false);
    } else {
        let ta = choose|t: int|
            {
                &&& 0 <= t < count
                &&& p1 as int == spec_device_id(base, cats, t)
                &&& spec_device_id(base, cats, t) < c as int <= spec_device_id(base, cats, t)
                    + cats[t].len()
            };
        let tb = choose|t: int|
            {
                &&& 0 <= t < count
                &&& p2 as int == spec_device_id(base, cats, t)
                &&& spec_device_id(base, cats, t) < c as int <= spec_device_id(base, cats, t)
                    + cats[t].len()
            };
        lemma_device_ranges_ordered(base, cats, ta, tb);
    }
}

/// The identifier ranges of distinct devices are ordered and disjoint: a
/// device's directory and all its sensor files lie strictly below the next
/// device's directory.
proof fn lemma_device_ranges_ordered(base: u64, cats: Seq<Seq<SensorKind>>, ta: int, tb: int)
    requires
        0 <= ta,
        0 <= tb,
    ensures
        ta < tb ==> spec_device_id(base, cats, ta) + cats[ta].len() < spec_device_id(
            base,
            cats,
            tb,
        ),
        tb < ta ==> spec_device_id(base, cats, tb) + cats[tb].len() < spec_device_id(
            base,
            cats,
            ta,
        ),
        ta <= tb ==> spec_device_id(base, cats, ta) <= spec_device_id(base, cats, tb),
        tb <= ta ==> spec_device_id(base, cats, tb) <= spec_device_id(base, cats, ta),
{
    if ta < tb {
        lemma_entries_monotone(cats, ta + 1, tb);
        assert(entries_for(cats, ta + 1) == entries_for(cats, ta) + 1 + cats[ta].len());
    } else if tb < ta {
        lemma_entries_monotone(cats, tb + 1, ta);
        assert(entries_for(cats, tb + 1) == entries_for(cats, tb) + 1 + cats[tb].len());
    }
}

/// In a rebuilt namespace, a directory that lists `c` is either the root —
/// and `c` is a device directory — or the directory of the one device whose
/// identifier range covers `c`.
proof fn lemma_parent_shape(
    pre: NvSensorFs,
    post: NvSensorFs,
    count: u32,
    cats: Seq<Seq<SensorKind>>,
    p: u64,
    c: u64,
)
    requires
        spec_rebuilt(pre, post, count, cats),
        post.spec_is_directory(p),
        post.spec_children_ids(p).contains(c),
    ensures
        p == ROOT_ID ==> exists|t: int|
            0 <= t < count && c as int == spec_device_id(pre.last_inode_id, cats, t),
        p != ROOT_ID ==> exists|t: int|
            {
                &&& 0 <= t < count
                &&& p as int == spec_device_id(pre.last_inode_id, cats, t)
                &&& spec_device_id(pre.last_inode_id, cats, t) < c as int <= spec_device_id(
                    pre.last_inode_id,
                    cats,
                    t,
                ) + cats[t].len()
            },
{
    let base = pre.last_inode_id;
    assert(post.ns().contains_key(p));
    if p != ROOT_ID {
        if exists|t: int, s: int|
            0 <= t < count && 0 <= s < cats[t].len() && p as int == spec_sensor_id(base, cats, t, s) {
            let (t, s) = choose|t: int, s: int|
                0 <= t < count && 0 <= s < cats[t].len() && p as int == spec_sensor_id(
                    base,
                    cats,
                    t,
                    s,
                );
            assert(sensor_node_ok(post.ns(), base, cats, t, s));
            assert(false);
        }
        let t = choose|t: int| 0 <= t < count && p as int == spec_device_id(base, cats, t);
        assert(dev_node_ok(post.ns(), base, cats, t));
        let ch = post.spec_children_ids(p);
        let s = choose|s: int| 0 <= s < ch.len() && ch[s] == c;
        assert(c as int == spec_sensor_id(base, cats, t, s)) by {
            lemma_sensor_id_bounds(base, cats, count as int, t, s);
            assert(base + entries_for(cats, count as int) <= u64::MAX) by {
                assert(post.last_inode_id as int == base + entries_for(cats, count as int));
            }
        }
    } else {
        let ch = post.spec_children_ids(ROOT_ID);
        let t = choose|t: int| 0 <= t < ch.len() && ch[t] == c;
        assert(c as int == spec_device_id(base, cats, t)) by {
            lemma_device_id_bounds(base, cats, count as int, t);
            assert(base + entries_for(cats, count as int) <= u64::MAX) by {
                assert(post.last_inode_id as int == base + entries_for(cats, count as int));
            }
        }
    }
}

/// Every entry of a rebuilt namespace except the root has a parent: it is
/// listed by the root (a device directory) or by its device's directory (a
/// sensor file).
pub proof fn lemma_rebuilt_every_entry_listed(
    pre: NvSensorFs,
    post: NvSensorFs,
    count: u32,
    cats: Seq<Seq<SensorKind>>,
    id: u64,
)
    requires
        spec_rebuilt(pre, post, count, cats),
        post.ns().contains_key(id),
        id != ROOT_ID,
    ensures
        exists|p: u64|
            post.spec_is_directory(p) && #[trigger] post.spec_children_ids(p).contains(id),
{
    let base = pre.last_inode_id;
    lemma_entries_monotone(cats, 0, count as int);
    assert(base + entries_for(cats, count as int) <= u64::MAX) by {
        assert(post.last_inode_id as int == base + entries_for(cats, count as int));
    }
    if exists|t: int| 0 <= t < count && id as int == spec_device_id(base, cats, t) {
        let t = choose|t: int| 0 <= t < count && id as int == spec_device_id(base, cats, t);
        let ch = post.spec_children_ids(ROOT_ID);
        assert(ch[t] == id);
        assert(post.spec_is_directory(ROOT_ID) && post.spec_children_ids(ROOT_ID).contains(id));
    } else {
        let (t, s) = choose|t: int, s: int|
            0 <= t < count && 0 <= s < cats[t].len() && id as int == spec_sensor_id(
                base,
                cats,
                t,
                s,
            );
        lemma_device_id_bounds(base, cats, count as int, t);
        lemma_sensor_id_bounds(base, cats, count as int, t, s);
        let did = spec_device_id(base, cats, t) as u64;
        assert(did as int == spec_device_id(base, cats, t));
        assert(post.ns().contains_key(did));
        assert(dev_node_ok(post.ns(), base, cats, t));
        let ch = post.spec_children_ids(did);
        assert(ch[s] == id);
        assert(post.spec_is_directory(did) && post.spec_children_ids(did).contains(id));
    }
}

/// Rebuild consistency: after a rebuild for `count` devices, the root lists
/// exactly `count` device directories in device order, and device `i` is a
/// directory named by its decimal ordinal listing exactly the sensor files
/// of its catalog, each under its kind's name.
pub proof fn lemma_rebuild_reflects_topology(
    pre: NvSensorFs,
    post: NvSensorFs,
    count: u32,
    cats: Seq<Seq<SensorKind>>,
    i: int,
)
    requires
        spec_rebuilt(pre, post, count, cats),
        0 <= i < count,
    ensures
        post.spec_is_directory(ROOT_ID),
        post.spec_children_ids(ROOT_ID).len() == count,
        post.spec_is_directory(post.spec_children_ids(ROOT_ID)[i]),
        post.ns()[post.spec_children_ids(ROOT_ID)[i]].name@ == spec_dec_chars(i as nat),
        post.spec_children_ids(post.spec_children_ids(ROOT_ID)[i]).len() == cats[i].len(),
        forall|s: int|
            0 <= s < cats[i].len() ==> post.ns()[#[trigger] post.spec_children_ids(
                post.spec_children_ids(ROOT_ID)[i],
            )[s]].name@ == spec_kind_name(cats[i][s]),
{
    let base = pre.last_inode_id;
    lemma_entries_monotone(cats, 0, count as int);
    assert(base + entries_for(cats, count as int) <= u64::MAX) by {
        assert(post.last_inode_id as int == base + entries_for(cats, count as int));
    }
    assert(post.ns().contains_key(ROOT_ID));
    lemma_device_id_bounds(base, cats, count as int, i);
    let did = post.spec_children_ids(ROOT_ID)[i];
    assert(did as int == spec_device_id(base, cats, i));
    assert(post.ns().contains_key(did));
    assert(dev_node_ok(post.ns(), base, cats, i));
    assert forall|s: int| 0 <= s < cats[i].len() implies post.ns()[#[trigger] post.spec_children_ids(
        did,
    )[s]].name@ == spec_kind_name(cats[i][s]) by {
        lemma_sensor_id_bounds(base, cats, count as int, i, s);
        let sid = post.spec_children_ids(did)[s];
        assert(sid as int == spec_sensor_id(base, cats, i, s));
        assert(sensor_node_ok(post.ns(), base, cats, i, s));
    }
}

} // verus!

