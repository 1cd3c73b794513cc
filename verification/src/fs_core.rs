//! The namespace store and the open-file registry: the single source of truth
//! for the current file tree, plus the per-handle buffers that decouple
//! sampling (once, at open) from delivery (any number of partial reads).

use vstd::prelude::*;
use std::collections::HashMap;
use crate::sensors::SampleError;
use crate::sensors::Sensor;
use crate::sensors::SensorKind;
use crate::sensors::kind_file_name;
use crate::sensors::spec_kind_name;
use crate::text::lemma_dec_chars_injective;
use crate::text::spec_dec_chars;
use crate::text::u64_to_string;

verus! {

broadcast use vstd::std_specs::hash::group_hash_axioms;

/// The protocol-reserved identifier of the root directory.
pub const ROOT_ID: u64 = 1;

/// Fixed metadata of one namespace entry. Timestamps are not part of the
/// model: the transport layer stamps replies with the rebuild time.
#[derive(Copy, Clone, Debug, PartialEq, Eq, Structural)]
pub struct Attr {
    pub ino: u64,
    pub size: u64,
    pub blocks: u64,
    pub is_dir: bool,
    pub perm: u16,
    pub nlink: u32,
    pub uid: u32,
    pub gid: u32,
    pub rdev: u32,
    pub blksize: u32,
    pub flags: u32,
}

/// What a namespace entry is: a sensor file, or a directory holding the
/// identifiers of its children in listing order.
#[derive(Debug)]
pub enum INodeKind {
    SensorFile(Sensor),
    Directory(Vec<u64>),
}

/// One namespace entry.
#[derive(Debug)]
pub struct INode {
    pub name: String,
    pub kind: INodeKind,
}

/// Why an open attempt was refused.
#[derive(Copy, Clone, Debug, PartialEq, Eq, Structural)]
pub enum OpenError {
    NotFound,
    NotASensorFile,
}

/// The filesystem core: inode table, identifier allocation, and the open-file
/// registry. Identifiers grow monotonically, so identifiers of entries wiped
/// by a rebuild are never reassigned and simply stop resolving.
#[derive(Debug)]
pub struct NvSensorFs {
    pub last_inode_id: u64,
    pub last_file_handle: u64,
    pub device_count: u32,
    pub inodes: HashMap<u64, INode>,
    pub file_content: HashMap<u64, Vec<u8>>,
}

/// The children of a directory entry, if it is one.
pub open spec fn spec_children(n: INode) -> Option<Seq<u64>> {
    match n.kind {
        INodeKind::Directory(ch) => Some(ch@),
        INodeKind::SensorFile(_) => None,
    }
}

/// Whether an entry is a directory.
pub open spec fn spec_is_dir(n: INode) -> bool {
    n.kind matches INodeKind::Directory(_)
}

/// A directory's child list is sound: every child exists, none is the root,
/// no child appears twice, and no two children share a name.
pub open spec fn dir_wf(ns: Map<u64, INode>, ch: Seq<u64>) -> bool {
    &&& forall|i: int| 0 <= i < ch.len() ==> ns.contains_key(#[trigger] ch[i]) && ch[i] != ROOT_ID
    &&& forall|i: int, j: int|
        0 <= i < j < ch.len() ==> #[trigger] ch[i] != #[trigger] ch[j]
    &&& forall|i: int, j: int|
        0 <= i < j < ch.len() ==> ns[#[trigger] ch[i]].name@ != ns[#[trigger] ch[j]].name@
}

/// One row of a directory listing. `next_offset` is the cursor a caller
/// passes to resume the listing right after this entry.
#[derive(Debug)]
pub struct DirEntry {
    pub ino: u64,
    pub next_offset: u64,
    pub is_dir: bool,
    pub name: String,
}

/// The first child of `ch` (in listing order) whose entry is named `name`.
pub open spec fn spec_first_match(ns: Map<u64, INode>, ch: Seq<u64>, name: Seq<char>) -> Option<
    u64,
>
    decreases ch.len(),
{
    if ch.len() == 0 {
        None
    } else if ns[ch[0]].name@ == name {
        Some(ch[0])
    } else {
        spec_first_match(ns, ch.skip(1), name)
    }
}

/// Scanning a child list may start after any prefix free of matches.
pub proof fn lemma_first_match_skip(ns: Map<u64, INode>, ch: Seq<u64>, name: Seq<char>, k: int)
    requires
        0 <= k <= ch.len(),
        forall|t: int| 0 <= t < k ==> ns[#[trigger] ch[t]].name@ != name,
    ensures
        spec_first_match(ns, ch, name) == spec_first_match(ns, ch.skip(k), name),
    decreases k,
{
    if k > 0 {
        assert(ns[ch[0]].name@ != name);
        assert forall|t: int| 0 <= t < k - 1 implies ns[#[trigger] ch.skip(1)[t]].name@ != name by {
            assert(ch.skip(1)[t] == ch[t + 1]);
        }
        lemma_first_match_skip(ns, ch.skip(1), name, k - 1);
        assert(ch.skip(1).skip(k - 1) =~= ch.skip(k));
    } else {
        assert(ch.skip(0) =~= ch);
    }
}

/// Row `t` of a listing of `ch` resumed at `off` is faithful to the entry it
/// describes.
pub open spec fn spec_entry_ok(
    fs: NvSensorFs,
    ch: Seq<u64>,
    off: int,
    t: int,
    e: DirEntry,
) -> bool {
    let c = ch[off + t];
    &&& e.ino == c
    &&& e.next_offset == off + t + 1
    &&& e.is_dir == spec_is_dir(fs.ns()[c])
    &&& e.name@ == fs.ns()[c].name@
}

impl NvSensorFs {
    /// The current namespace, as a map from identifier to entry.
    pub open spec fn ns(self) -> Map<u64, INode> {
        self.inodes@
    }

    /// The invariant of the store: the root directory exists, directories are
    /// sound, and every identifier or handle in use has been allocated.
    pub open spec fn wf(self) -> bool {
        &&& self.ns().contains_key(ROOT_ID)
        &&& spec_is_dir(self.ns()[ROOT_ID])
        &&& ROOT_ID <= self.last_inode_id
        &&& forall|id: u64| #[trigger] self.ns().contains_key(id) ==> id <= self.last_inode_id
        &&& forall|id: u64| #[trigger]
            self.ns().contains_key(id) ==> match spec_children(self.ns()[id]) {
                Some(ch) => dir_wf(self.ns(), ch),
                None => true,
            }
        &&& forall|h: u64| #[trigger]
            self.file_content@.contains_key(h) ==> h <= self.last_file_handle
    }

    /// A fresh store: an empty root directory, no devices, no open files.
    /// The first refresh populates it from the live topology.
    pub fn new() -> (r: NvSensorFs)
        ensures
            r.wf(),
            r.device_count == 0,
            r.last_inode_id == ROOT_ID,
            r.last_file_handle == 0,
            r.ns().dom() =~= set![ROOT_ID],
            spec_children(r.ns()[ROOT_ID]) == Some(Seq::<u64>::empty()),
            r.ns()[ROOT_ID].name@ == Seq::<char>::empty(),
            r.file_content@ == Map::<u64, Vec<u8>>::empty(),
    {
        let mut inodes: HashMap<u64, INode> = HashMap::new();
        let root = INode { name: String::new(), kind: INodeKind::Directory(Vec::new()) };
        inodes.insert(ROOT_ID, root);
        let r = NvSensorFs {
            last_inode_id: ROOT_ID,
            last_file_handle: 0,
            device_count: 0,
            inodes,
            file_content: HashMap::new(),
        };
        proof {
            assert(r.ns().dom() =~= set![ROOT_ID]);
        }
        r
    }

    /// The fixed metadata of an entry, as a function of its identifier and
    /// shape alone.
    pub open spec fn spec_attributes(self, ino: u64) -> Option<Attr> {
        if self.ns().contains_key(ino) {
            if spec_is_dir(self.ns()[ino]) {
                Some(spec_dir_attr(ino))
            } else {
                Some(spec_file_attr(ino))
            }
        } else {
            None
        }
    }

    /// Metadata retrieval: directories are traversal-only, sensor files are
    /// world-readable with a fixed nominal size.
    pub fn attributes(&self, ino: u64) -> (r: Option<Attr>)
        ensures
            r == self.spec_attributes(ino),
    {
        match self.inodes.get(&ino) {
            None => None,
            Some(node) => match &node.kind {
                INodeKind::Directory(_) => Some(create_dir_attr(ino)),
                INodeKind::SensorFile(_) => Some(create_file_attr(ino)),
            },
        }
    }

    /// Resolves an identifier to the sensor it names, refusing directories
    /// and unknown identifiers.
    pub fn open_sensor(&self, ino: u64) -> (r: Result<Sensor, OpenError>)
        ensures
            match r {
                Ok(s) => self.ns().contains_key(ino) && spec_children(self.ns()[ino]) == None::<
                    Seq<u64>,
                > && self.ns()[ino].kind == INodeKind::SensorFile(s),
                Err(OpenError::NotFound) => !self.ns().contains_key(ino),
                Err(OpenError::NotASensorFile) => self.ns().contains_key(ino) && spec_is_dir(
                    self.ns()[ino],
                ),
            },
    {
        match self.inodes.get(&ino) {
            None => Err(OpenError::NotFound),
            Some(node) => match &node.kind {
                INodeKind::Directory(_) => Err(OpenError::NotASensorFile),
                INodeKind::SensorFile(s) => Ok(*s),
            },
        }
    }

    /// Whether `id` names a directory of the current namespace.
    pub open spec fn spec_is_directory(self, id: u64) -> bool {
        self.ns().contains_key(id) && spec_is_dir(self.ns()[id])
    }

    /// The child list of a directory (empty for anything else).
    pub open spec fn spec_children_ids(self, id: u64) -> Seq<u64> {
        match spec_children(self.ns()[id]) {
            Some(ch) => ch,
            None => Seq::empty(),
        }
    }

    /// Exact, case-sensitive name resolution under a parent directory.
    pub open spec fn spec_resolve(self, parent: u64, name: Seq<char>) -> Option<u64> {
        if self.spec_is_directory(parent) {
            spec_first_match(self.ns(), self.spec_children_ids(parent), name)
        } else {
            None
        }
    }

    /// Resolves `name` under `parent`: the identifier of the unique child of
    /// that name, or `None` when the parent is no directory or has no such
    /// child.
    pub fn resolve(&self, parent: u64, name: &String) -> (r: Option<u64>)
        requires
            self.wf(),
        ensures
            r == self.spec_resolve(parent, name@),
    {
        let node = match self.inodes.get(&parent) {
            None => {
                return None;
            },
            Some(n) => n,
        };
        let children = match &node.kind {
            INodeKind::SensorFile(_) => {
                return None;
            },
            INodeKind::Directory(ch) => ch,
        };
        let n: usize = children.len();
        let mut idx: usize = 0;
        while idx < n
            invariant
                self.wf(),
                self.spec_is_directory(parent),
                children@ == self.spec_children_ids(parent),
                n == children@.len(),
                idx <= n,
                forall|t: int| 0 <= t < idx ==> self.ns()[#[trigger] children@[t]].name@ != name@,
            decreases n - idx,
        {
            let child_id = children[idx];
            match self.inodes.get(&child_id) {
                Some(child) => {
                    if child.name == *name {
                        proof {
                            lemma_first_match_skip(self.ns(), children@, name@, idx as int);
                            assert(children@.skip(idx as int)[0] == children@[idx as int]);
                        }
                        return Some(child_id);
                    }
                },
                None => {
                    proof {
                        assert(false);
                    }
                },
            }
            idx = idx + 1;
        }
        proof {
            lemma_first_match_skip(self.ns(), children@, name@, n as int);
            assert(children@.skip(n as int) =~= Seq::<u64>::empty());
        }
        None
    }

    /// Name resolution followed by metadata retrieval, as the lookup protocol
    /// call wants it.
    pub fn lookup(&self, parent: u64, name: &String) -> (r: Option<Attr>)
        requires
            self.wf(),
        ensures
            match self.spec_resolve(parent, name@) {
                Some(id) => r == self.spec_attributes(id),
                None => r == None::<Attr>,
            },
    {
        match self.resolve(parent, name) {
            None => None,
            Some(id) => self.attributes(id),
        }
    }

    /// Resumable directory listing: the entries of `ino` from position
    /// `offset` onward, each carrying the cursor a transport hands back to
    /// resume after it. `None` when `ino` is no directory.
    pub fn children_of(&self, ino: u64, offset: usize) -> (r: Option<Vec<DirEntry>>)
        requires
            self.wf(),
        ensures
            match r {
                Some(v) => {
                    let ch = self.spec_children_ids(ino);
                    &&& self.spec_is_directory(ino)
                    &&& v@.len() == if offset <= ch.len() {
                        ch.len() - offset
                    } else {
                        0
                    }
                    &&& forall|t: int|
                        0 <= t < v@.len() ==> spec_entry_ok(
                            *self,
                            ch,
                            offset as int,
                            t,
                            #[trigger] v@[t],
                        )
                },
                None => !self.spec_is_directory(ino),
            },
    {
        let node = match self.inodes.get(&ino) {
            None => {
                return None;
            },
            Some(n) => n,
        };
        let children = match &node.kind {
            INodeKind::SensorFile(_) => {
                return None;
            },
            INodeKind::Directory(ch) => ch,
        };
        let n: usize = children.len();
        let mut out: Vec<DirEntry> = Vec::new();
        if offset >= n {
            return Some(out);
        }
        let mut idx: usize = offset;
        while idx < n
            invariant
                self.wf(),
                self.spec_is_directory(ino),
                children@ == self.spec_children_ids(ino),
                n == children@.len(),
                n <= usize::MAX,
                offset <= idx <= n,
                out@.len() == idx - offset,
                forall|t: int|
                    0 <= t < out@.len() ==> spec_entry_ok(
                        *self,
                        children@,
                        offset as int,
                        t,
                        #[trigger] out@[t],
                    ),
            decreases n - idx,
        {
            let child_id = children[idx];
            match self.inodes.get(&child_id) {
                Some(child) => {
                    let is_dir = match &child.kind {
                        INodeKind::Directory(_) => true,
                        INodeKind::SensorFile(_) => false,
                    };
                    let entry = DirEntry {
                        ino: child_id,
                        next_offset: (idx + 1) as u64,
                        is_dir,
                        name: child.name.clone(),
                    };
                    out.push(entry);
                },
                None => {
                    proof {
                        assert(false);
                    }
                },
            }
            idx = idx + 1;
        }
        Some(out)
    }

    /// Stores a freshly rendered buffer under a new file handle. Returns the
    /// handle, or `None` in the (practically unreachable) case that the
    /// handle space is exhausted.
    pub fn register_content(&mut self, sample: Result<Vec<u8>, SampleError>) -> (r: Option<u64>)
        requires
            old(self).wf(),
        ensures
            final(self).last_inode_id == old(self).last_inode_id,
            final(self).device_count == old(self).device_count,
            final(self).inodes == old(self).inodes,
            final(self).wf(),
            match r {
                Some(h) => {
                    &&& old(self).last_file_handle < u64::MAX
                    &&& h == old(self).last_file_handle + 1
                    &&& final(self).last_file_handle == h
                    &&& !old(self).file_content@.contains_key(h)
                    &&& final(self).file_content@.dom() == old(self).file_content@.dom().insert(h)
                    &&& final(self).file_content@[h]@ == spec_render_content(view_sample(sample))
                    &&& forall|k: u64|
                        k != h && old(self).file_content@.contains_key(k)
                            ==> #[trigger] final(self).file_content@[k]
                            == old(self).file_content@[k]
                },
                None => {
                    &&& old(self).last_file_handle == u64::MAX
                    &&& *final(self) == *old(self)
                },
            },
    {
        if self.last_file_handle == u64::MAX {
            return None;
        }
        let content = render_content(sample);
        let file_handle = self.last_file_handle + 1;
        proof {
            assert(!self.file_content@.contains_key(file_handle));
        }
        let ghost pre = self.file_content@;
        self.file_content.insert(file_handle, content);
        self.last_file_handle = file_handle;
        proof {
            assert(self.file_content@.dom() =~= pre.dom().insert(file_handle));
        }
        Some(file_handle)
    }

    /// Byte-range delivery from a stored buffer: the sub-range
    /// `[min(offset, len), min(offset + size, len))`. An offset at or past
    /// the end yields an empty result, never an error.
    pub fn read(&self, fh: u64, offset: u64, size: u32) -> (r: Option<Vec<u8>>)
        ensures
            match r {
                Some(v) => self.file_content@.contains_key(fh) && v@ == spec_read_range(
                    self.file_content@[fh]@,
                    offset,
                    size,
                ),
                None => !self.file_content@.contains_key(fh),
            },
    {
        let content = match self.file_content.get(&fh) {
            None => {
                return None;
            },
            Some(c) => c,
        };
        let len: usize = content.len();
        let start: usize = if offset >= len as u64 {
            len
        } else {
            offset as usize
        };
        let remaining: usize = len - start;
        let take: usize = if (size as usize) < remaining {
            size as usize
        } else {
            remaining
        };
        let mut out: Vec<u8> = Vec::new();
        let mut i: usize = 0;
        while i < take
            invariant
                start + take <= content@.len(),
                content@.len() <= usize::MAX,
                i <= take,
                out@ =~= content@.subrange(start as int, start as int + i as int),
            decreases take - i,
        {
            out.push(content[start + i]);
            i = i + 1;
        }
        proof {
            assert(out@ =~= spec_read_range(content@, offset, size));
        }
        Some(out)
    }

    /// Discards a stored buffer. Releasing an unknown handle reports `false`
    /// and is otherwise harmless, so a double release is idempotent.
    pub fn release(&mut self, fh: u64) -> (r: bool)
        ensures
            r == old(self).file_content@.contains_key(fh),
            final(self).file_content@ == old(self).file_content@.remove(fh),
            final(self).inodes == old(self).inodes,
            final(self).last_inode_id == old(self).last_inode_id,
            final(self).last_file_handle == old(self).last_file_handle,
            final(self).device_count == old(self).device_count,
            old(self).wf() ==> final(self).wf(),
    {
        self.file_content.remove(&fh).is_some()
    }
}

/// The fixed metadata of a directory.
pub open spec fn spec_dir_attr(ino: u64) -> Attr {
    Attr {
        ino,
        size: 0,
        blocks: 0,
        is_dir: true,
        perm: 0o755,
        nlink: 2,
        uid: 0,
        gid: 0,
        rdev: 0,
        blksize: 4096,
        flags: 0,
    }
}

/// The fixed metadata of a sensor file: read-only, with a nominal size (the
/// real content length is only known once the file is opened).
pub open spec fn spec_file_attr(ino: u64) -> Attr {
    Attr {
        ino,
        size: 4096,
        blocks: 0,
        is_dir: false,
        perm: 0o444,
        nlink: 1,
        uid: 0,
        gid: 0,
        rdev: 0,
        blksize: 4096,
        flags: 0,
    }
}

/// Builds the fixed metadata of a directory.
pub fn create_dir_attr(ino: u64) -> (r: Attr)
    ensures
        r == spec_dir_attr(ino),
{
    Attr {
        ino,
        size: 0,
        blocks: 0,
        is_dir: true,
        perm: 0o755,
        nlink: 2,
        uid: 0,
        gid: 0,
        rdev: 0,
        blksize: 4096,
        flags: 0,
    }
}

/// Builds the fixed metadata of a sensor file.
pub fn create_file_attr(ino: u64) -> (r: Attr)
    ensures
        r == spec_file_attr(ino),
{
    Attr {
        ino,
        size: 4096,
        blocks: 0,
        is_dir: false,
        perm: 0o444,
        nlink: 1,
        uid: 0,
        gid: 0,
        rdev: 0,
        blksize: 4096,
        flags: 0,
    }
}

/// The view of a sampling outcome.
pub open spec fn view_sample(sample: Result<Vec<u8>, SampleError>) -> Result<Seq<u8>, SampleError> {
    match sample {
        Ok(v) => Ok(v@),
        Err(e) => Err(e),
    }
}

/// What a reader sees: the sampled text with a trailing newline, or the
/// literal `N/A` line when sampling failed (a read never fails on a sampling
/// error).
pub open spec fn spec_render_content(sample: Result<Seq<u8>, SampleError>) -> Seq<u8> {
    match sample {
        Ok(v) => v + seq![10u8],
        Err(_) => seq![78u8, 47u8, 65u8, 10u8],
    }
}

/// Renders a sampling outcome into the byte buffer served to readers.
pub fn render_content(sample: Result<Vec<u8>, SampleError>) -> (r: Vec<u8>)
    ensures
        r@ == spec_render_content(view_sample(sample)),
{
    match sample {
        Ok(mut v) => {
            v.push(10);
            proof {
                assert(v@ =~= spec_render_content(view_sample(sample)));
            }
            v
        },
        Err(_) => {
            let mut v: Vec<u8> = Vec::new();
            v.push(78);
            v.push(47);
            v.push(65);
            v.push(10);
            proof {
                assert(v@ =~= spec_render_content(view_sample(sample)));
            }
            v
        },
    }
}

/// The per-device sensor catalogs, as a sequence of sequences of kinds.
pub open spec fn cats_view(catalogs: Seq<Vec<SensorKind>>) -> Seq<Seq<SensorKind>> {
    Seq::new(catalogs.len(), |i: int| catalogs[i]@)
}

/// No two kinds of one catalog share a file name.
pub open spec fn catalog_names_distinct(cat: Seq<SensorKind>) -> bool {
    forall|s1: int, s2: int|
        0 <= s1 < s2 < cat.len() ==> spec_kind_name(#[trigger] cat[s1]) != spec_kind_name(
            #[trigger] cat[s2],
        )
}

/// How many identifiers the first `i` devices of a catalog consume: one per
/// device directory plus one per sensor file.
pub open spec fn entries_for(cats: Seq<Seq<SensorKind>>, i: int) -> int
    decreases i,
{
    if i <= 0 {
        0
    } else {
        entries_for(cats, i - 1) + 1 + cats[i - 1].len()
    }
}

/// The identifier allocated to the directory of device `i`, over a base.
pub open spec fn spec_device_id(base: u64, cats: Seq<Seq<SensorKind>>, i: int) -> int {
    base + 1 + entries_for(cats, i)
}

/// The identifier allocated to sensor `s` of device `i`, over a base.
pub open spec fn spec_sensor_id(base: u64, cats: Seq<Seq<SensorKind>>, i: int, s: int) -> int {
    spec_device_id(base, cats, i) + 1 + s
}

/// Identifier growth is at least one per device processed.
pub proof fn lemma_entries_monotone(cats: Seq<Seq<SensorKind>>, i: int, j: int)
    requires
        0 <= i <= j,
    ensures
        entries_for(cats, i) + (j - i) <= entries_for(cats, j),
    decreases j - i,
{
    if i < j {
        lemma_entries_monotone(cats, i, j - 1);
    }
}

/// The identifiers the rebuild gives the entries of devices `[0, i)`; the
/// root is accounted separately.
pub open spec fn spec_live_prefix(base: u64, cats: Seq<Seq<SensorKind>>, i: int, id: u64) -> bool {
    ||| exists|t: int| 0 <= t < i && id as int == spec_device_id(base, cats, t)
    ||| exists|t: int, s: int|
        0 <= t < i && 0 <= s < cats[t].len() && id as int == spec_sensor_id(base, cats, t, s)
}

/// An identifier of the rebuilt namespace: the root, a device directory, or
/// a sensor file.
pub open spec fn spec_live_id(base: u64, cats: Seq<Seq<SensorKind>>, count: int, id: u64) -> bool {
    id == ROOT_ID || spec_live_prefix(base, cats, count, id)
}

/// The directory of device `t` is present and correct: named by the decimal
/// device ordinal, listing exactly its sensor files in catalog order.
pub open spec fn dev_node_ok(
    ns: Map<u64, INode>,
    base: u64,
    cats: Seq<Seq<SensorKind>>,
    t: int,
) -> bool {
    let did = spec_device_id(base, cats, t) as u64;
    &&& ns[did].name@ == spec_dec_chars(t as nat)
    &&& spec_children(ns[did]) == Some(
        Seq::new(cats[t].len(), |s: int| spec_sensor_id(base, cats, t, s) as u64),
    )
}

/// The file of sensor `s` of device `t` is present and correct: named by its
/// kind, referring to that device/kind pair.
pub open spec fn sensor_node_ok(
    ns: Map<u64, INode>,
    base: u64,
    cats: Seq<Seq<SensorKind>>,
    t: int,
    s: int,
) -> bool {
    let sid = spec_sensor_id(base, cats, t, s) as u64;
    &&& ns[sid].name@ == spec_kind_name(cats[t][s])
    &&& ns[sid].kind == INodeKind::SensorFile(
        Sensor { device_index: t as u32, kind: cats[t][s] },
    )
}

/// `post` is the full-replacement rebuild of `pre` for `count` devices with
/// the given catalogs: a fresh tree of exactly those entries, open-file state
/// untouched, identifiers allocated monotonically above everything `pre`
/// ever allocated.
pub open spec fn spec_rebuilt(
    pre: NvSensorFs,
    post: NvSensorFs,
    count: u32,
    cats: Seq<Seq<SensorKind>>,
) -> bool {
    let base = pre.last_inode_id;
    &&& post.device_count == count
    &&& post.last_inode_id == base + entries_for(cats, count as int)
    &&& post.last_file_handle == pre.last_file_handle
    &&& post.file_content@ == pre.file_content@
    &&& forall|id: u64| #[trigger]
        post.ns().contains_key(id) <==> spec_live_id(base, cats, count as int, id)
    &&& post.ns()[ROOT_ID].name@ == Seq::<char>::empty()
    &&& spec_children(post.ns()[ROOT_ID]) == Some(
        Seq::new(count as nat, |i: int| spec_device_id(base, cats, i) as u64),
    )
    &&& forall|i: int| 0 <= i < count ==> dev_node_ok(post.ns(), base, cats, i)
    &&& forall|i: int, s: int|
        0 <= i < count && 0 <= s < cats[i].len() ==> sensor_node_ok(post.ns(), base, cats, i, s)
}

/// A device directory's identifier lies strictly above the base and within
/// the identifier budget of the whole rebuild.
pub proof fn lemma_device_id_bounds(base: u64, cats: Seq<Seq<SensorKind>>, count: int, t: int)
    requires
        0 <= t < count,
    ensures
        base < spec_device_id(base, cats, t),
        spec_device_id(base, cats, t) <= base + entries_for(cats, count),
{
    lemma_entries_monotone(cats, 0, t);
    lemma_entries_monotone(cats, t + 1, count);
    assert(entries_for(cats, t + 1) == entries_for(cats, t) + 1 + cats[t].len());
}

/// A sensor file's identifier lies strictly above its device directory's and
/// within the identifier budget of the whole rebuild.
pub proof fn lemma_sensor_id_bounds(
    base: u64,
    cats: Seq<Seq<SensorKind>>,
    count: int,
    t: int,
    s: int,
)
    requires
        0 <= t < count,
        0 <= s < cats[t].len(),
    ensures
        spec_device_id(base, cats, t) < spec_sensor_id(base, cats, t, s),
        spec_sensor_id(base, cats, t, s) <= base + entries_for(cats, count),
{
    lemma_entries_monotone(cats, 0, t);
    lemma_entries_monotone(cats, t + 1, count);
    assert(entries_for(cats, t + 1) == entries_for(cats, t) + 1 + cats[t].len());
}

impl NvSensorFs {
    /// Full namespace replacement: wipes every entry and rebuilds the tree
    /// for `new_device_count` devices with the given per-device catalogs, in
    /// increasing device order, allocating identifiers monotonically. Open
    /// read sessions survive untouched. Returns `false` (leaving the store
    /// unchanged) only if the catalog would exhaust the 64-bit identifier
    /// space.
    #[verifier::loop_isolation(false)]
    pub fn rebuild(&mut self, new_device_count: u32, catalogs: &Vec<Vec<SensorKind>>) -> (r: bool)
        requires
            old(self).wf(),
            catalogs@.len() == new_device_count as int,
            forall|i: int|
                0 <= i < catalogs@.len() ==> catalog_names_distinct(#[trigger] catalogs@[i]@),
        ensures
            final(self).wf(),
            r <==> old(self).last_inode_id + entries_for(
                cats_view(catalogs@),
                new_device_count as int,
            ) <= u64::MAX,
            r ==> spec_rebuilt(*old(self), *final(self), new_device_count, cats_view(catalogs@)),
            !r ==> *final(self) == *old(self),
    {
        let ghost cats = cats_view(catalogs@);
        let base = self.last_inode_id;
        let count: usize = new_device_count as usize;

        // First pass: refuse a topology whose entries would not fit in the
        // remaining identifier space (unreachable on real hardware).
        let budget: u128 = (u64::MAX - base) as u128;
        let mut need: u128 = 0;
        let mut i: usize = 0;
        while i < count
            invariant
                cats == cats_view(catalogs@),
                catalogs@.len() == count,
                count == cats.len(),
                i <= count,
                need == entries_for(cats, i as int),
                need <= budget,
                budget == (u64::MAX - base) as u128,
            decreases count - i,
        {
            let cat_i: &Vec<SensorKind> = &catalogs[i];
            let step: u128 = 1 + (cat_i.len() as u128);
            proof {
                assert(cats[i as int] == catalogs@[i as int]@);
                assert(entries_for(cats, i as int + 1) == entries_for(cats, i as int) + 1
                    + cats[i as int].len());
            }
            if budget - need < step {
                proof {
                    lemma_entries_monotone(cats, i as int + 1, count as int);
                }
                return false;
            }
            need = need + step;
            i = i + 1;
        }

        // Second pass: build the fresh tree bottom-up, exactly as the
        // catalog lists it.
        let mut inodes: HashMap<u64, INode> = HashMap::new();
        let mut device_nodes: Vec<u64> = Vec::new();
        let mut next: u64 = base;
        let mut di: usize = 0;
        while di < count
            invariant
                cats == cats_view(catalogs@),
                catalogs@.len() == count,
                count == cats.len(),
                count <= u32::MAX,
                forall|t: int| 0 <= t < count ==> catalog_names_distinct(#[trigger] cats[t]),
                base + entries_for(cats, count as int) <= u64::MAX,
                di <= count,
                next as int == base + entries_for(cats, di as int),
                device_nodes@.len() == di,
                forall|t: int|
                    0 <= t < di ==> (#[trigger] device_nodes@[t]) as int == spec_device_id(
                        base,
                        cats,
                        t,
                    ),
                forall|id: u64| #[trigger] inodes@.contains_key(id) ==> base < id <= next,
                forall|id: u64| #[trigger]
                    inodes@.contains_key(id) <==> spec_live_prefix(base, cats, di as int, id),
                forall|t: int| 0 <= t < di ==> dev_node_ok(inodes@, base, cats, t),
                forall|t: int, s: int|
                    0 <= t < di && 0 <= s < cats[t].len() ==> sensor_node_ok(
                        inodes@,
                        base,
                        cats,
                        t,
                        s,
                    ),
            decreases count - di,
        {
            proof {
                lemma_entries_monotone(cats, 0, di as int);
                lemma_entries_monotone(cats, di as int + 1, count as int);
                assert(entries_for(cats, di as int + 1) == entries_for(cats, di as int) + 1
                    + cats[di as int].len());
                assert(cats[di as int] == catalogs@[di as int]@);
            }
            next = next + 1;
            let did = next;
            let cat: &Vec<SensorKind> = &catalogs[di];
            let m: usize = cat.len();
            let mut sensor_ids: Vec<u64> = Vec::new();
            let mut si: usize = 0;
            while si < m
                invariant
                    cats == cats_view(catalogs@),
                    catalogs@.len() == count,
                    count == cats.len(),
                    count <= u32::MAX,
                    base + entries_for(cats, count as int) <= u64::MAX,
                    di < count,
                    cat@ == cats[di as int],
                    m == cat@.len(),
                    si <= m,
                    did as int == spec_device_id(base, cats, di as int),
                    entries_for(cats, di as int + 1) == entries_for(cats, di as int) + 1 + m,
                    next as int == did as int + si,
                    sensor_ids@.len() == si,
                    forall|s: int|
                        0 <= s < si ==> (#[trigger] sensor_ids@[s]) as int == spec_sensor_id(
                            base,
                            cats,
                            di as int,
                            s,
                        ),
                    forall|id: u64| #[trigger]
                        inodes@.contains_key(id) ==> base < id <= next && id != did,
                    forall|id: u64| #[trigger]
                        inodes@.contains_key(id) <==> (spec_live_prefix(base, cats, di as int, id)
                            || exists|s: int|
                            0 <= s < si && id as int == spec_sensor_id(base, cats, di as int, s)),
                    forall|t: int| 0 <= t < di ==> dev_node_ok(inodes@, base, cats, t),
                    forall|t: int, s: int|
                        0 <= t < di && 0 <= s < cats[t].len() ==> sensor_node_ok(
                            inodes@,
                            base,
                            cats,
                            t,
                            s,
                        ),
                    forall|s: int| 0 <= s < si ==> sensor_node_ok(inodes@, base, cats, di as int, s),
                decreases m - si,
            {
                proof {
                    lemma_entries_monotone(cats, di as int + 1, count as int);
                }
                next = next + 1;
                let sid = next;
                let k: SensorKind = cat[si];
                let sname = kind_file_name(&k);
                let snode = INode {
                    name: sname,
                    kind: INodeKind::SensorFile(Sensor { device_index: di as u32, kind: k }),
                };
                let ghost pre_ns = inodes@;
                inodes.insert(sid, snode);
                sensor_ids.push(sid);
                proof {
                    assert(inodes@ == pre_ns.insert(sid, snode));
                    assert(sid as int == spec_sensor_id(base, cats, di as int, si as int));
                    assert(sensor_node_ok(inodes@, base, cats, di as int, si as int));
                    assert forall|t: int| 0 <= t < di implies dev_node_ok(
                        inodes@,
                        base,
                        cats,
                        t,
                    ) by {
                        lemma_device_id_bounds(base, cats, count as int, t);
                        let tid = spec_device_id(base, cats, t) as u64;
                        assert(tid as int == spec_device_id(base, cats, t));
                        assert(spec_live_prefix(base, cats, di as int, tid));
                        assert(pre_ns.contains_key(tid));
                        assert(dev_node_ok(pre_ns, base, cats, t));
                        assert(inodes@[tid] == pre_ns[tid]);
                    }
                    assert forall|t: int, s: int|
                        0 <= t < di && 0 <= s < cats[t].len() implies sensor_node_ok(
                        inodes@,
                        base,
                        cats,
                        t,
                        s,
                    ) by {
                        lemma_sensor_id_bounds(base, cats, count as int, t, s);
                        lemma_device_id_bounds(base, cats, count as int, t);
                        let xid = spec_sensor_id(base, cats, t, s) as u64;
                        assert(xid as int == spec_sensor_id(base, cats, t, s));
                        assert(spec_live_prefix(base, cats, di as int, xid));
                        assert(pre_ns.contains_key(xid));
                        assert(sensor_node_ok(pre_ns, base, cats, t, s));
                        assert(inodes@[xid] == pre_ns[xid]);
                    }
                    assert forall|s: int| 0 <= s < si + 1 implies sensor_node_ok(
                        inodes@,
                        base,
                        cats,
                        di as int,
                        s,
                    ) by {
                        if s < si {
                            lemma_sensor_id_bounds(base, cats, count as int, di as int, s);
                            lemma_device_id_bounds(base, cats, count as int, di as int);
                            let xid = spec_sensor_id(base, cats, di as int, s) as u64;
                            assert(xid as int == spec_sensor_id(base, cats, di as int, s));
                            assert(pre_ns.contains_key(xid)) by {
                                assert(exists|s2: int|
                                    0 <= s2 < si && xid as int == spec_sensor_id(
                                        base,
                                        cats,
                                        di as int,
                                        s2,
                                    ));
                            }
                            assert(sensor_node_ok(pre_ns, base, cats, di as int, s));
                            assert(inodes@[xid] == pre_ns[xid]);
                        }
                    }
                    assert forall|id: u64| #[trigger] inodes@.contains_key(id) implies (
                    spec_live_prefix(base, cats, di as int, id) || exists|s: int|
                        0 <= s < si + 1 && id as int == spec_sensor_id(
                            base,
                            cats,
                            di as int,
                            s,
                        )) by {
                        if id != sid {
                            assert(pre_ns.contains_key(id));
                        } else {
                            assert(id as int == spec_sensor_id(base, cats, di as int, si as int));
                        }
                    }
                    assert forall|id: u64|
                        (spec_live_prefix(base, cats, di as int, id) || exists|s: int|
                            0 <= s < si + 1 && id as int == spec_sensor_id(
                                base,
                                cats,
                                di as int,
                                s,
                            )) implies #[trigger] inodes@.contains_key(id) by {
                        if spec_live_prefix(base, cats, di as int, id) {
                            assert(pre_ns.contains_key(id));
                        } else {
                            let s = choose|s: int|
                                0 <= s < si + 1 && id as int == spec_sensor_id(
                                    base,
                                    cats,
                                    di as int,
                                    s,
                                );
                            if s < si {
                                assert(pre_ns.contains_key(id));
                            } else {
                                assert(id == sid);
                            }
                        }
                    }
                }
                si = si + 1;
            }
            let dname = u64_to_string(di as u64);
            let dnode = INode { name: dname, kind: INodeKind::Directory(sensor_ids) };
            let ghost pre_ns = inodes@;
            inodes.insert(did, dnode);
            device_nodes.push(did);
            proof {
                assert(inodes@ == pre_ns.insert(did, dnode));
                assert(spec_children(dnode) == Some(dnode.kind->Directory_0@));
                assert(dnode.kind->Directory_0@ =~= Seq::new(
                    cats[di as int].len(),
                    |s: int| spec_sensor_id(base, cats, di as int, s) as u64,
                ));
                assert(dev_node_ok(inodes@, base, cats, di as int));
                assert forall|t: int| 0 <= t < di implies dev_node_ok(inodes@, base, cats, t) by {
                    lemma_device_id_bounds(base, cats, count as int, t);
                    let tid = spec_device_id(base, cats, t) as u64;
                    assert(tid as int == spec_device_id(base, cats, t));
                    assert(spec_live_prefix(base, cats, di as int, tid));
                    assert(pre_ns.contains_key(tid));
                    assert(dev_node_ok(pre_ns, base, cats, t));
                    assert(tid != did);
                    assert(inodes@[tid] == pre_ns[tid]);
                }
                assert forall|t: int, s: int|
                    0 <= t < di + 1 && 0 <= s < cats[t].len() implies sensor_node_ok(
                    inodes@,
                    base,
                    cats,
                    t,
                    s,
                ) by {
                    lemma_sensor_id_bounds(base, cats, count as int, t, s);
                    lemma_device_id_bounds(base, cats, count as int, t);
                    let xid = spec_sensor_id(base, cats, t, s) as u64;
                    assert(xid as int == spec_sensor_id(base, cats, t, s));
                    if t < di {
                        assert(spec_live_prefix(base, cats, di as int, xid));
                        assert(pre_ns.contains_key(xid));
                    } else {
                        assert(pre_ns.contains_key(xid)) by {
                            assert(exists|s2: int|
                                0 <= s2 < m && xid as int == spec_sensor_id(
                                    base,
                                    cats,
                                    di as int,
                                    s2,
                                ));
                        }
                    }
                    assert(sensor_node_ok(pre_ns, base, cats, t, s));
                    assert(xid != did);
                    assert(inodes@[xid] == pre_ns[xid]);
                }
                assert forall|id: u64| #[trigger] inodes@.contains_key(id) implies spec_live_prefix(
                    base,
                    cats,
                    di as int + 1,
                    id,
                ) by {
                    if id == did {
                        assert(id as int == spec_device_id(base, cats, di as int));
                    } else {
                        assert(pre_ns.contains_key(id));
                        if spec_live_prefix(base, cats, di as int, id) {
                            if exists|t: int|
                                0 <= t < di && id as int == spec_device_id(base, cats, t) {
                            } else {
                            }
                        } else {
                            let s = choose|s: int|
                                0 <= s < m && id as int == spec_sensor_id(
                                    base,
                                    cats,
                                    di as int,
                                    s,
                                );
                            assert(0 <= s < cats[di as int].len() && id as int == spec_sensor_id(
                                base,
                                cats,
                                di as int,
                                s,
                            ));
                        }
                    }
                }
                assert forall|id: u64|
                    spec_live_prefix(base, cats, di as int + 1, id) implies #[trigger]
                inodes@.contains_key(id) by {
                    if exists|t: int| 0 <= t < di + 1 && id as int == spec_device_id(base, cats, t) {
                        let t = choose|t: int|
                            0 <= t < di + 1 && id as int == spec_device_id(base, cats, t);
                        if t < di {
                            assert(spec_live_prefix(base, cats, di as int, id));
                            assert(pre_ns.contains_key(id));
                        } else {
                            assert(id == did);
                        }
                    } else {
                        let (t, s) = choose|t: int, s: int|
                            0 <= t < di + 1 && 0 <= s < cats[t].len() && id as int
                                == spec_sensor_id(base, cats, t, s);
                        if t < di {
                            assert(spec_live_prefix(base, cats, di as int, id));
                            assert(pre_ns.contains_key(id));
                        } else {
                            assert(exists|s2: int|
                                0 <= s2 < m && id as int == spec_sensor_id(
                                    base,
                                    cats,
                                    di as int,
                                    s2,
                                ));
                            assert(pre_ns.contains_key(id));
                        }
                    }
                }
            }
            di = di + 1;
        }
        let root = INode { name: String::new(), kind: INodeKind::Directory(device_nodes) };
        let ghost pre_ns = inodes@;
        inodes.insert(ROOT_ID, root);
        self.inodes = inodes;
        self.device_count = new_device_count;
        self.last_inode_id = next;
        proof {
            let ns = self.ns();
            assert(ns == pre_ns.insert(ROOT_ID, root));
            assert(!pre_ns.contains_key(ROOT_ID));
            assert(spec_children(ns[ROOT_ID]) == Some(root.kind->Directory_0@));
            assert(root.kind->Directory_0@ =~= Seq::new(
                count as nat,
                |t: int| spec_device_id(base, cats, t) as u64,
            )) by {
                assert forall|t: int| 0 <= t < count implies root.kind->Directory_0@[t]
                    == spec_device_id(base, cats, t) as u64 by {
                    assert((root.kind->Directory_0@[t]) as int == spec_device_id(base, cats, t));
                }
            }
            assert forall|id: u64| #[trigger] ns.contains_key(id) implies spec_live_id(
                base,
                cats,
                count as int,
                id,
            ) by {
                if id != ROOT_ID {
                    assert(pre_ns.contains_key(id));
                }
            }
            assert forall|id: u64| spec_live_id(base, cats, count as int, id) implies #[trigger]
            ns.contains_key(id) by {
                if id != ROOT_ID {
                    assert(pre_ns.contains_key(id));
                }
            }
            assert forall|t: int| 0 <= t < count implies dev_node_ok(ns, base, cats, t) by {
                lemma_device_id_bounds(base, cats, count as int, t);
                let tid = spec_device_id(base, cats, t) as u64;
                assert(tid as int == spec_device_id(base, cats, t));
                assert(spec_live_prefix(base, cats, count as int, tid));
                assert(pre_ns.contains_key(tid));
                assert(dev_node_ok(pre_ns, base, cats, t));
                assert(tid != ROOT_ID);
                assert(ns[tid] == pre_ns[tid]);
            }
            assert forall|t: int, s: int|
                0 <= t < count && 0 <= s < cats[t].len() implies sensor_node_ok(
                ns,
                base,
                cats,
                t,
                s,
            ) by {
                lemma_sensor_id_bounds(base, cats, count as int, t, s);
                lemma_device_id_bounds(base, cats, count as int, t);
                let xid = spec_sensor_id(base, cats, t, s) as u64;
                assert(xid as int == spec_sensor_id(base, cats, t, s));
                assert(spec_live_prefix(base, cats, count as int, xid));
                assert(pre_ns.contains_key(xid));
                assert(sensor_node_ok(pre_ns, base, cats, t, s));
                assert(xid != ROOT_ID);
                assert(ns[xid] == pre_ns[xid]);
            }
            assert(spec_rebuilt(*old(self), *self, new_device_count, cats));
            lemma_rebuilt_wf(*old(self), *self, new_device_count, cats);
        }
        true
    }
}

/// A rebuilt namespace satisfies the store invariant.
proof fn lemma_rebuilt_wf(
    pre: NvSensorFs,
    post: NvSensorFs,
    count: u32,
    cats: Seq<Seq<SensorKind>>,
)
    requires
        pre.wf(),
        post.last_file_handle == pre.last_file_handle,
        post.file_content@ == pre.file_content@,
        spec_rebuilt(pre, post, count, cats),
        forall|t: int| 0 <= t < count ==> catalog_names_distinct(#[trigger] cats[t]),
    ensures
        post.wf(),
{
    let base = pre.last_inode_id;
    let ns = post.ns();
    lemma_entries_monotone(cats, 0, count as int);
    assert(base + entries_for(cats, count as int) <= u64::MAX) by {
        assert(post.last_inode_id as int == base + entries_for(cats, count as int));
    }
    assert(ns.contains_key(ROOT_ID)) by {
        assert(spec_live_id(base, cats, count as int, ROOT_ID));
    }
    assert(spec_is_dir(ns[ROOT_ID]));
    assert forall|id: u64| #[trigger] ns.contains_key(id) implies id <= post.last_inode_id by {
        if id != ROOT_ID {
            if exists|t: int| 0 <= t < count && id as int == spec_device_id(base, cats, t) {
                let t = choose|t: int|
                    0 <= t < count && id as int == spec_device_id(base, cats, t);
                lemma_device_id_bounds(base, cats, count as int, t);
            } else {
                let (t, s) = choose|t: int, s: int|
                    0 <= t < count && 0 <= s < cats[t].len() && id as int == spec_sensor_id(
                        base,
                        cats,
                        t,
                        s,
                    );
                lemma_sensor_id_bounds(base, cats, count as int, t, s);
                lemma_device_id_bounds(base, cats, count as int, t);
            }
        }
    }
    assert forall|id: u64| #[trigger] ns.contains_key(id) implies (match spec_children(ns[id]) {
        Some(ch) => dir_wf(ns, ch),
        None => true,
    }) by {
        if id == ROOT_ID {
            let ch = Seq::new(count as nat, |t: int| spec_device_id(base, cats, t) as u64);
            assert(spec_children(ns[id]) == Some(ch));
            assert forall|t: int| 0 <= t < ch.len() implies ns.contains_key(#[trigger] ch[t])
                && ch[t] != ROOT_ID by {
                lemma_device_id_bounds(base, cats, count as int, t);
                assert(ch[t] as int == spec_device_id(base, cats, t));
                assert(spec_live_id(base, cats, count as int, ch[t]));
            }
            assert forall|t1: int, t2: int| 0 <= t1 < t2 < ch.len() implies #[trigger] ch[t1]
                != #[trigger] ch[t2] by {
                lemma_device_id_bounds(base, cats, count as int, t1);
                lemma_device_id_bounds(base, cats, count as int, t2);
                lemma_entries_monotone(cats, t1, t2);
            }
            assert forall|t1: int, t2: int| 0 <= t1 < t2 < ch.len() implies ns[#[trigger] ch[t1]].name@
                != ns[#[trigger] ch[t2]].name@ by {
                lemma_device_id_bounds(base, cats, count as int, t1);
                lemma_device_id_bounds(base, cats, count as int, t2);
                assert(dev_node_ok(ns, base, cats, t1));
                assert(dev_node_ok(ns, base, cats, t2));
                lemma_dec_chars_injective(t1 as nat, t2 as nat);
            }
        } else if exists|t: int| 0 <= t < count && id as int == spec_device_id(base, cats, t) {
            let t = choose|t: int| 0 <= t < count && id as int == spec_device_id(base, cats, t);
            assert(dev_node_ok(ns, base, cats, t));
            let ch = Seq::new(cats[t].len(), |s: int| spec_sensor_id(base, cats, t, s) as u64);
            assert(spec_children(ns[id]) == Some(ch));
            assert forall|s: int| 0 <= s < ch.len() implies ns.contains_key(#[trigger] ch[s])
                && ch[s] != ROOT_ID by {
                lemma_sensor_id_bounds(base, cats, count as int, t, s);
                lemma_device_id_bounds(base, cats, count as int, t);
                assert(ch[s] as int == spec_sensor_id(base, cats, t, s));
                assert(spec_live_id(base, cats, count as int, ch[s]));
            }
            assert forall|s1: int, s2: int| 0 <= s1 < s2 < ch.len() implies #[trigger] ch[s1]
                != #[trigger] ch[s2] by {
                lemma_sensor_id_bounds(base, cats, count as int, t, s1);
                lemma_sensor_id_bounds(base, cats, count as int, t, s2);
                lemma_device_id_bounds(base, cats, count as int, t);
            }
            assert forall|s1: int, s2: int| 0 <= s1 < s2 < ch.len() implies ns[#[trigger] ch[s1]].name@
                != ns[#[trigger] ch[s2]].name@ by {
                lemma_sensor_id_bounds(base, cats, count as int, t, s1);
                lemma_sensor_id_bounds(base, cats, count as int, t, s2);
                lemma_device_id_bounds(base, cats, count as int, t);
                assert(sensor_node_ok(ns, base, cats, t, s1));
                assert(sensor_node_ok(ns, base, cats, t, s2));
                assert(catalog_names_distinct(cats[t]));
            }
        } else {
            let (t, s) = choose|t: int, s: int|
                0 <= t < count && 0 <= s < cats[t].len() && id as int == spec_sensor_id(
                    base,
                    cats,
                    t,
                    s,
                );
            assert(sensor_node_ok(ns, base, cats, t, s));
            assert(spec_children(ns[id]) == None::<Seq<u64>>);
        }
    }
}

/// The sub-range of `content` that a read at `offset` for `size` bytes
/// returns.
pub open spec fn spec_read_range(content: Seq<u8>, offset: u64, size: u32) -> Seq<u8> {
    let lo = if offset as int <= content.len() {
        offset as int
    } else {
        content.len() as int
    };
    let hi = if offset as int + size as int <= content.len() {
        offset as int + size as int
    } else {
        content.len() as int
    };
    content.subrange(lo, hi)
}

} // verus!
