//! Where links in front of a name and at its end lead.
use vstd::prelude::*;

use crate::errno::SysErrNo;
use crate::fs::block_dev::device::RawBlockDevice;
use crate::fs::ext4::volume::Fault;
use crate::fs::fd::descriptor::VfsNodeKind;
use crate::fs::ext4::resolve::link_target;
use crate::fs::path::{normalized, parts_of};
use crate::fs::vfs::lookup::pieced;
use crate::fs::vfs::tree::Vfs;
use crate::task::Timestamp;

verus! {

/// Links are followed until there is none: what they lead to is no link, each step
/// is counted, and there are never more than forty.
pub proof fn followed_links_end(v: &Vfs, current: Seq<char>, followed: nat)
    requires
        followed <= 40,
    ensures
        match v.links_followed(current, followed) {
            Ok((end, n)) => {
                &&& v.link_at(end) == Ok::<Option<Seq<char>>, Fault>(None)
                &&& followed <= n <= 40
                &&& n == followed <==> v.link_at(current) == Ok::<Option<Seq<char>>, Fault>(None)
                &&& n == followed ==> end == current
            },
            Err(_) => v.link_at(current) != Ok::<Option<Seq<char>>, Fault>(None),
        },
    decreases 41 - followed,
{
    if let Ok(Some(target)) = v.link_at(current) {
        if followed < 40 {
            followed_links_end(v, link_target(current, target), followed + 1);
        }
    }
}

/// A link leads where its target leads, with one step less to go.
pub proof fn a_link_leads_where_its_target_leads(
    v: &Vfs,
    current: Seq<char>,
    target: Seq<char>,
    followed: nat,
)
    requires
        v.link_at(current) == Ok::<Option<Seq<char>>, Fault>(Some(target)),
    ensures
        followed < 40 ==> v.links_followed(current, followed) == v.links_followed(
            link_target(current, target),
            followed + 1,
        ),
        followed >= 40 ==> v.links_followed(current, followed) == Err::<(Seq<char>, nat), Fault>(
            Fault::Sys(SysErrNo::ELOOP),
        ),
{
}

/// A link in memory is one as long as it is not taken away, with the target it was
/// given; it lies over the volume.
pub proof fn links_in_memory_lie_above(v: &Vfs, path: Seq<char>)
    requires
        v.files.mem@.symlinks.contains_key(normalized(path)),
    ensures
        !v.whiteouts@.contains_key(normalized(path)) ==> v.link_at(path) == Ok::<
            Option<Seq<char>>,
            Fault,
        >(Some(v.files.mem@.symlinks[normalized(path)])),
        v.whiteouts@.contains_key(normalized(path)) ==> v.link_at(path) == Err::<
            Option<Seq<char>>,
            Fault,
        >(Fault::Sys(SysErrNo::ENOENT)),
{
}

/// All names in front of the last are followed and have to be directories: the
/// first is looked up where one is, and the rest from where it leads. A file on
/// the way ends it.
pub proof fn names_in_front_are_followed<D: RawBlockDevice>(
    v: &Vfs,
    dev: &D,
    names: Seq<Seq<char>>,
    current: Seq<char>,
    followed: nat,
    now: Timestamp,
    here: Seq<char>,
    n: nat,
)
    requires
        names.len() > 1,
        v.links_followed(pieced(current, names[0]), followed) == Ok::<(Seq<char>, nat), Fault>(
            (here, n),
        ),
        v.told(dev, here, false, now) is Ok,
    ensures
        v.told(dev, here, false, now)->Ok_0.kind == VfsNodeKind::Directory ==> v.parents_followed(
            dev,
            names,
            current,
            followed,
            now,
        ) == v.parents_followed(dev, names.drop_first(), here, n, now),
        v.told(dev, here, false, now)->Ok_0.kind != VfsNodeKind::Directory ==> v.parents_followed(
            dev,
            names,
            current,
            followed,
            now,
        ) == Err::<Seq<char>, Fault>(Fault::Sys(SysErrNo::ENOTDIR)),
{
}

/// The last name is not followed: it is put behind what those in front lead to.
pub proof fn the_last_name_is_not_followed<D: RawBlockDevice>(
    v: &Vfs,
    dev: &D,
    path: Seq<char>,
    now: Timestamp,
    dir: Seq<char>,
)
    requires
        parts_of(normalized(path)).len() > 1,
        v.parents_followed(dev, parts_of(normalized(path)), seq!['/'], 0, now) == Ok::<
            Seq<char>,
            Fault,
        >(dir),
    ensures
        v.parents_resolved(dev, path, now) == Ok::<Seq<char>, Fault>(
            normalized(
                if dir == seq!['/'] {
                    dir + parts_of(normalized(path)).last()
                } else {
                    dir + seq!['/'] + parts_of(normalized(path)).last()
                },
            ),
        ),
{
}

} // verus!
