//! Where the device tree says that devices are.
use vstd::prelude::*;

use crate::text::{str_eq, texts};

verus! {

/// The word that a device tree begins with.
pub const TREE_MAGIC: u32 = 0xd00d_feed;

/// The length of the header of a device tree.
pub const HEADER_LEN: usize = 40;

/// How deep the nodes of a tree may nest.
pub const MAX_DEPTH: usize = 63;

/// What a device is that is reached by registers in memory.
pub const MMIO_DEVICE: &'static str = "virtio,mmio";

/// What is told of a device: what it is compatible with, and where its first
/// registers lie.
pub struct TreeNode {
    pub compatible: Option<Vec<String>>,
    pub address: Option<usize>,
}

impl View for TreeNode {
    type V = (Option<Seq<Seq<char>>>, Option<usize>);

    open spec fn view(&self) -> (Option<Seq<Seq<char>>>, Option<usize>) {
        (
            match self.compatible {
                Some(v) => Some(texts(v@)),
                None => None,
            },
            self.address,
        )
    }
}

/// The views of nodes.
pub open spec fn node_views(nodes: Seq<TreeNode>) -> Seq<
    (Option<Seq<Seq<char>>>, Option<usize>),
> {
    nodes.map_values(|n: TreeNode| n@)
}

/// The word at a place, the greatest byte first.
pub open spec fn word_at(s: Seq<u8>, at: int) -> u32 {
    (s[at] * 0x100_0000 + s[at + 1] * 0x1_0000 + s[at + 2] * 0x100 + s[at + 3]) as u32
}

fn read_word(s: &[u8], at: usize) -> (r: u32)
    requires
        at + 4 <= s@.len(),
    ensures
        r == word_at(s@, at as int),
{
    assert(s@.len() == s.len());
    s[at] as u32 * 0x100_0000 + s[at + 1] as u32 * 0x1_0000 + s[at + 2] as u32 * 0x100
        + s[at + 3] as u32
}

/// The length of a device tree, by its first two words.
pub open spec fn told_length(head: Seq<u8>) -> Option<u32> {
    if word_at(head, 0) == TREE_MAGIC {
        Some(word_at(head, 4))
    } else {
        None
    }
}

/// The length of a device tree, by its first two words.
pub fn dtb_totalsize(head: &[u8]) -> (r: Option<usize>)
    requires
        head@.len() >= 8,
    ensures
        match r {
            Some(n) => told_length(head@) == Some(n as u32) && n <= u32::MAX,
            None => told_length(head@) is None,
        },
{
    if read_word(head, 0) != TREE_MAGIC {
        return None;
    }
    Some(read_word(head, 4) as usize)
}

/// Whether bytes begin with the header of a device tree and hold all of it.
pub open spec fn has_header(blob: Seq<u8>) -> bool {
    blob.len() >= HEADER_LEN && word_at(blob, 0) == TREE_MAGIC && word_at(blob, 4) <= blob.len()
}

/// The bytes that describe the nodes; none where the header points elsewhere.
pub open spec fn structure(blob: Seq<u8>) -> Seq<u8> {
    let start = word_at(blob, 8) as int;
    let len = word_at(blob, 36) as int;
    if start + len <= blob.len() {
        blob.subrange(start, start + len)
    } else {
        Seq::empty()
    }
}

/// The length of the text in front of the first zero.
pub open spec fn text_len(s: Seq<u8>) -> Option<nat>
    decreases s.len(),
{
    if s.len() == 0 {
        None
    } else if s[0] == 0 {
        Some(0)
    } else {
        match text_len(s.drop_first()) {
            Some(n) => Some(n + 1),
            None => None,
        }
    }
}

/// A length rounded up to whole words.
pub open spec fn padded(n: int) -> int {
    (n + 3) / 4 * 4
}

/// What follows a head and a body, which is padded to whole words. A body that
/// is longer than what there is does not count.
pub open spec fn behind_body(s: Seq<u8>, head: int, body: int) -> Seq<u8> {
    if head + padded(body) <= s.len() {
        s.skip(head + padded(body))
    } else {
        s.skip(head)
    }
}

/// Whether nodes are closed only where some are open, and never nest too deep.
/// The walk ends at anything that is neither a node, a property nor a filler.
pub open spec fn nests(s: Seq<u8>, depth: nat) -> bool
    decreases s.len(),
{
    if s.len() < 4 {
        true
    } else if word_at(s, 0) == 1 {
        match text_len(s.skip(4)) {
            None => true,
            Some(n) => depth < MAX_DEPTH && nests(behind_body(s, 4, n as int + 1), depth + 1),
        }
    } else if word_at(s, 0) == 2 {
        depth > 0 && nests(s.skip(4), (depth - 1) as nat)
    } else if word_at(s, 0) == 3 {
        s.len() < 12 || nests(behind_body(s, 12, word_at(s, 4) as int), depth)
    } else if word_at(s, 0) == 4 {
        nests(s.skip(4), depth)
    } else {
        true
    }
}

/// Whether the nodes of a tree can be walked: its parts have places that can be
/// counted, its nodes nest, and addresses have 64 bits.
pub open spec fn walkable(blob: Seq<u8>) -> bool {
    &&& usize::MAX == u64::MAX
    &&& has_header(blob) ==> nests(structure(blob), 0)
}

fn find_zero(s: &[u8], from: usize) -> (r: Option<usize>)
    requires
        from <= s@.len(),
    ensures
        match r {
            Some(n) => text_len(s@.skip(from as int)) == Some(n as nat) && from + n < s@.len(),
            None => text_len(s@.skip(from as int)) is None,
        },
{
    let mut i: usize = from;
    while i < s.len()
        invariant
            from <= i <= s@.len(),
            match text_len(s@.skip(i as int)) {
                Some(n) => text_len(s@.skip(from as int)) == Some((n + i - from) as nat),
                None => text_len(s@.skip(from as int)) is None,
            },
        decreases s@.len() - i,
    {
        assert(s@.skip(i as int).drop_first() =~= s@.skip(i + 1));
        assert(s@.skip(i as int)[0] == s@[i as int]);
        if s[i] == 0 {
            return Some(i - from);
        }
        i = i + 1;
    }
    None
}

fn after_body(s: &[u8], at: usize, head: usize, body: usize) -> (r: usize)
    requires
        head <= 12,
        at + head <= s@.len(),
        body <= u32::MAX || at + head + body <= s@.len(),
        usize::MAX == u64::MAX,
        s@.len() <= isize::MAX,
    ensures
        at + head <= r <= s@.len(),
        s@.skip(r as int) == behind_body(s@.skip(at as int), head as int, body as int),
{
    let whole: usize = (body + 3) / 4 * 4;
    let rest: usize = s.len() - at - head;
    if whole <= rest {
        assert(s@.skip(at as int).skip(head + padded(body as int)) =~= s@.skip(at + head + whole));
        at + head + whole
    } else {
        assert(s@.skip(at as int).skip(head as int) =~= s@.skip(at + head));
        at + head
    }
}

fn check_nesting(s: &[u8]) -> (r: bool)
    requires
        usize::MAX == u64::MAX,
        s@.len() <= isize::MAX,
    ensures
        r == nests(s@, 0),
{
    let mut at: usize = 0;
    let mut depth: usize = 0;
    assert(s@.skip(0) =~= s@);
    while s.len() - at >= 4
        invariant
            usize::MAX == u64::MAX,
            s@.len() <= isize::MAX,
            0 <= at <= s@.len(),
            depth <= MAX_DEPTH,
            nests(s@, 0) == nests(s@.skip(at as int), depth as nat),
        decreases s@.len() - at,
    {
        let ghost rest = s@.skip(at as int);
        assert(word_at(rest, 0) == word_at(s@, at as int));
        let tag: u32 = read_word(s, at);
        if tag == 1 {
            assert(rest.skip(4) =~= s@.skip(at + 4));
            match find_zero(s, at + 4) {
                None => {
                    return true;
                },
                Some(n) => {
                    if depth >= MAX_DEPTH {
                        return false;
                    }
                    at = after_body(s, at, 4, n + 1);
                    depth = depth + 1;
                },
            }
        } else if tag == 2 {
            if depth == 0 {
                return false;
            }
            assert(rest.skip(4) =~= s@.skip(at + 4));
            at = at + 4;
            depth = depth - 1;
        } else if tag == 3 {
            if s.len() - at < 12 {
                return true;
            }
            assert(word_at(rest, 4) == word_at(s@, at + 4));
            let len: usize = read_word(s, at + 4) as usize;
            at = after_body(s, at, 12, len);
        } else if tag == 4 {
            assert(rest.skip(4) =~= s@.skip(at + 4));
            at = at + 4;
        } else {
            return true;
        }
    }
    true
}

/// Whether the nodes of a tree can be walked.
pub fn is_walkable(blob: &[u8]) -> (r: bool)
    requires
        blob@.len() <= isize::MAX,
    ensures
        r == walkable(blob@),
{
    if usize::MAX as u64 != u64::MAX {
        return false;
    }
    if blob.len() < HEADER_LEN || read_word(blob, 0) != TREE_MAGIC || read_word(blob, 4) as usize
        > blob.len() {
        return true;
    }
    let start: usize = read_word(blob, 8) as usize;
    let len: usize = read_word(blob, 36) as usize;
    if start + len > blob.len() {
        assert(structure(blob@) =~= Seq::empty());
        return true;
    }
    let part = crate::bytes::copy_range(blob, start, start + len);
    check_nesting(part.as_slice())
}

/// What the reader of device trees finds at the nodes of a tree, in the order
/// in which they stand there.
pub uninterp spec fn tree_nodes(blob: Seq<u8>) -> Seq<(Option<Seq<Seq<char>>>, Option<usize>)>;

/// The nodes of a device tree: `flat_device_tree::Fdt::new` and `all_nodes`,
/// and of each node `compatible` and the first entry of `reg`. There is no tree
/// exactly where the header is missing or more bytes are announced than there
/// are; what the nodes are is given a name.
#[verifier::external_body]
fn read_nodes(blob: &[u8]) -> (r: Option<Vec<TreeNode>>)
    requires
        walkable(blob@),
    ensures
        r is Some <==> has_header(blob@),
        r is Some ==> node_views(r->0@) == tree_nodes(blob@),
{
    let tree = flat_device_tree::Fdt::new(blob).ok()?;
    let nodes = tree.all_nodes().map(
        |n| TreeNode {
            compatible: n.compatible().map(|c| c.all().map(|s| s.to_string()).collect()),
            address: n.reg().next().map(|r| r.starting_address as usize),
        },
    );
    Some(nodes.collect())
}

/// Whether a node is a device that is reached by registers in memory.
pub open spec fn is_mmio(node: (Option<Seq<Seq<char>>>, Option<usize>)) -> bool {
    match node.0 {
        Some(names) => names.contains(MMIO_DEVICE@),
        None => false,
    }
}

/// Where the devices among some nodes lie that are reached by registers in
/// memory.
pub open spec fn mmio_addresses(nodes: Seq<(Option<Seq<Seq<char>>>, Option<usize>)>) -> Seq<usize>
    decreases nodes.len(),
{
    if nodes.len() == 0 {
        Seq::empty()
    } else {
        let before = mmio_addresses(nodes.drop_last());
        match nodes.last().1 {
            Some(address) => if is_mmio(nodes.last()) {
                before.push(address)
            } else {
                before
            },
            None => before,
        }
    }
}

fn names_mmio(node: &TreeNode) -> (r: bool)
    ensures
        r == is_mmio(node@),
{
    match &node.compatible {
        None => false,
        Some(names) => {
            let ghost all = texts(names@);
            let mut i: usize = 0;
            while i < names.len()
                invariant
                    0 <= i <= names@.len(),
                    all == texts(names@),
                    node@.0 == Some(all),
                    forall|j: int| 0 <= j < i ==> #[trigger] all[j] != MMIO_DEVICE@,
                decreases names@.len() - i,
            {
                assert(all[i as int] == names@[i as int]@);
                if str_eq(names[i].as_str(), MMIO_DEVICE) {
                    return true;
                }
                i = i + 1;
            }
            false
        },
    }
}

/// Where the devices among some nodes lie that are reached by registers in
/// memory, in the order of the nodes.
pub fn addresses_of_mmio(nodes: &Vec<TreeNode>) -> (r: Vec<usize>)
    ensures
        r@ == mmio_addresses(node_views(nodes@)),
{
    let ghost all = node_views(nodes@);
    let mut found: Vec<usize> = Vec::new();
    let mut i: usize = 0;
    assert(all.take(0) =~= Seq::empty());
    while i < nodes.len()
        invariant
            0 <= i <= nodes@.len(),
            all == node_views(nodes@),
            found@ == mmio_addresses(all.take(i as int)),
        decreases nodes@.len() - i,
    {
        proof {
            assert(all.take(i + 1).drop_last() =~= all.take(i as int));
            assert(all.take(i + 1).last() == nodes@[i as int]@);
        }
        let node = &nodes[i];
        match node.address {
            Some(address) => {
                if names_mmio(node) {
                    found.push(address);
                }
            },
            None => {},
        }
        i = i + 1;
    }
    assert(all.take(i as int) =~= all);
    found
}

/// Where a device tree says that disks may be: each address is to be tried in
/// turn. `None` where there is no tree.
pub fn probe_first_virtio_disk_from_dt(blob: &[u8]) -> (r: Option<Vec<usize>>)
    requires
        walkable(blob@),
    ensures
        match r {
            Some(found) => has_header(blob@) && found@ == mmio_addresses(tree_nodes(blob@)),
            None => !has_header(blob@),
        },
{
    match read_nodes(blob) {
        None => None,
        Some(nodes) => Some(addresses_of_mmio(&nodes)),
    }
}

/// The addresses that are found are those of the nodes that name the device among
/// what they are compatible with, in the order of the nodes.
pub proof fn matching_nodes_are_found(
    nodes: Seq<(Option<Seq<Seq<char>>>, Option<usize>)>,
    names: Seq<Seq<char>>,
    address: usize,
)
    ensures
        names.contains("virtio,mmio"@) ==> mmio_addresses(
            nodes.push((Some(names), Some(address))),
        ) == mmio_addresses(nodes).push(address),
        !names.contains("virtio,mmio"@) ==> mmio_addresses(
            nodes.push((Some(names), Some(address))),
        ) == mmio_addresses(nodes),
        mmio_addresses(nodes.push((Some(names), None))) == mmio_addresses(nodes),
        mmio_addresses(nodes.push((None, Some(address)))) == mmio_addresses(nodes),
        mmio_addresses(Seq::empty()) == Seq::<usize>::empty(),
{
    assert(nodes.push((Some(names), Some(address))).drop_last() =~= nodes);
    assert(nodes.push((Some(names), None)).drop_last() =~= nodes);
    assert(nodes.push((None, Some(address))).drop_last() =~= nodes);
}

/// A text ends before its first zero, and a piece that has none is no text.
pub proof fn a_text_ends_before_its_zero(s: Seq<u8>)
    ensures
        text_len(s) is None <==> !s.contains(0),
        text_len(s) is Some ==> text_len(s)->0 < s.len() && s[text_len(s)->0 as int] == 0
            && forall|i: int| 0 <= i < text_len(s)->0 ==> #[trigger] s[i] != 0,
    decreases s.len(),
{
    if s.len() > 0 {
        let rest = s.drop_first();
        a_text_ends_before_its_zero(rest);
        if s[0] != 0 {
            if s.contains(0) {
                let i = choose|i: int| 0 <= i < s.len() && s[i] == 0;
                assert(rest[i - 1] == 0);
            }
            if rest.contains(0) {
                let i = choose|i: int| 0 <= i < rest.len() && rest[i] == 0;
                assert(s[i + 1] == 0);
            }
            if text_len(s) is Some {
                assert forall|i: int| 0 <= i < text_len(s)->0 implies #[trigger] s[i] != 0 by {
                    if i > 0 {
                        assert(rest[i - 1] == s[i]);
                    }
                }
            }
        } else {
            assert(s[0] == 0);
        }
    }
}

/// A word is written with its most significant byte first, and bodies fill whole
/// words.
pub proof fn words_are_written_greatest_first(s: Seq<u8>, at: int, n: int)
    requires
        0 <= at,
        at + 4 <= s.len(),
        0 <= n,
    ensures
        word_at(s, at) == ((s[at] * 256 + s[at + 1]) * 256 + s[at + 2]) * 256 + s[at + 3],
        padded(n) % 4 == 0,
        n <= padded(n) < n + 4,
{
}

} // verus!
