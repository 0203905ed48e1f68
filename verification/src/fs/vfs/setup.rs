//! Setting up the tree.
use vstd::prelude::*;

use crate::fs::content::MAX_FILE_OFFSET;
use crate::fs::ext4::types::Ext4NodeKind;
use crate::fs::ext4::volume::Fault;
use crate::fs::fd::descriptor::Files;
use crate::fs::memfs::model::MemFsModel;
use crate::fs::memfs::setup::{applet_links, applet_paths, applets};
use crate::fs::path::normalized;
use crate::fs::vfs::mounts::table_text;
use crate::fs::vfs::removal::Side;
use crate::fs::vfs::tree::Vfs;
use crate::task::Caller;
use crate::text::{concat, texts};

verus! {

/// Names on the volume for the applets of a shell: the shell, the directory to
/// be created first if there is none, and the names.
pub struct VolumeAliases {
    pub program: String,
    pub dir: Option<String>,
    pub links: Vec<String>,
}

impl VolumeAliases {
    /// The names on the volume for the applets of a tree's shell.
    pub open spec fn are_of(&self, root: Seq<char>, has_dir: bool) -> bool {
        &&& self.program@ == root + "/busybox"@
        &&& match self.dir {
            Some(dir) => !has_dir && dir@ == root + "/bin"@,
            None => has_dir,
        }
        &&& texts(self.links@) == applet_paths(root, applets().len())
    }
}

/// Programs with their texts.
pub open spec fn program_views(programs: Seq<(String, Vec<u8>)>) -> Seq<(Seq<char>, Seq<u8>)> {
    programs.map_values(|p: (String, Vec<u8>)| (p.0@, p.1@))
}

impl Vfs {
    /// On which side the shell of a tree lies, if there is one.
    pub open spec fn shell_side(&self, root: Seq<char>) -> Result<Option<Side>, Fault> {
        let path = root + "/busybox"@;
        if self.files.mem@.file_index(normalized(path)) is Some {
            Ok(Some(Side::Memory))
        } else {
            match self.kind_at(path) {
                Err(f) => Err(f),
                Ok(Some(Ext4NodeKind::Regular)) => Ok(Some(Side::Volume)),
                Ok(_) => Ok(None),
            }
        }
    }

    /// What giving names to the applets of a tree's shell does.
    pub open spec fn aliased(
        &self,
        was: &Vfs,
        caller: &Caller,
        root: Seq<char>,
        r: Result<Option<VolumeAliases>, Fault>,
    ) -> bool {
        match was.shell_side(root) {
            Err(f) => r == Err::<Option<VolumeAliases>, Fault>(f) && *self == *was,
            Ok(None) => r == Ok::<Option<VolumeAliases>, Fault>(None) && *self == *was,
            Ok(Some(Side::Memory)) => {
                &&& r == Ok::<Option<VolumeAliases>, Fault>(None)
                &&& self.mem_only(was)
                &&& self.files.mem@ == was.files.mem@.with_applets(caller, root)
            },
            Ok(Some(Side::Volume)) => *self == *was && match was.ext4_dir_at(root + "/bin"@) {
                Err(f) => r == Err::<Option<VolumeAliases>, Fault>(f),
                Ok(has_dir) => r matches Ok(Some(a)) && a.are_of(root, has_dir),
            },
        }
    }

    fn alias_applets(&mut self, caller: &Caller, root: &str) -> (r: Result<
        Option<VolumeAliases>,
        Fault,
    >)
        requires
            old(self).wf(),
        ensures
            final(self).wf(),
            final(self).aliased(old(self), caller, root@, r),
    {
        let program = concat(root, "/busybox");
        if self.files.mem.get_file(program.as_str()).is_some() {
            self.files.mem.link_applets(caller, root);
            return Ok(None);
        }
        match self.ext4_kind(program.as_str()) {
            Err(f) => {
                return Err(f);
            },
            Ok(Some(Ext4NodeKind::Regular)) => {},
            Ok(_) => {
                return Ok(None);
            },
        }
        let dir = concat(root, "/bin");
        match self.ext4_has_dir(dir.as_str()) {
            Err(f) => Err(f),
            Ok(has_dir) => {
                let missing: Option<String> = if has_dir {
                    None
                } else {
                    Some(dir)
                };
                Ok(Some(VolumeAliases { program, dir: missing, links: applet_links(root) }))
            },
        }
    }

    /// What setting up the shell in all trees does: names for its applets, then
    /// the scripts.
    pub open spec fn shell_set_up(
        &self,
        was: &Vfs,
        a: &Vfs,
        b: &Vfs,
        c: &Vfs,
        caller: &Caller,
        r: Result<(Option<VolumeAliases>, Option<VolumeAliases>, Option<VolumeAliases>), Fault>,
    ) -> bool {
        match r {
            Ok((x, y, z)) => {
                &&& a.aliased(was, caller, ""@, Ok(x))
                &&& b.aliased(a, caller, "/musl"@, Ok(y))
                &&& c.aliased(b, caller, "/glibc"@, Ok(z))
                &&& self.mem_only(c)
                &&& self.files.mem@ == c.files.mem@.with_scripts(caller, ""@).with_scripts(
                    caller,
                    "/musl"@,
                ).with_scripts(caller, "/glibc"@)
            },
            Err(f) => {
                ||| a.aliased(was, caller, ""@, Err(f)) && *self == *a
                ||| exists|x: Option<VolumeAliases>| #[trigger]
                    a.aliased(was, caller, ""@, Ok(x)) && b.aliased(a, caller, "/musl"@, Err(f))
                        && *self == *b
                ||| exists|x: Option<VolumeAliases>, y: Option<VolumeAliases>|
                    #![trigger a.aliased(was, caller, ""@, Ok(x)), b.aliased(a, caller, "/musl"@, Ok(y))]
                    a.aliased(was, caller, ""@, Ok(x)) && b.aliased(a, caller, "/musl"@, Ok(y))
                        && c.aliased(b, caller, "/glibc"@, Err(f)) && *self == *c
            },
        }
    }

    /// Gives the shell of each tree names for its applets and adds the scripts.
    /// What is left to do on the volume is handed back, a tree at a time. If
    /// something has to be read first, it can be done again.
    pub fn install_busybox_shell_aliases(&mut self, caller: &Caller) -> (r: Result<
        (Option<VolumeAliases>, Option<VolumeAliases>, Option<VolumeAliases>),
        Fault,
    >)
        requires
            old(self).wf(),
        ensures
            final(self).wf(),
            exists|a: Vfs, b: Vfs, c: Vfs| #[trigger]
                final(self).shell_set_up(old(self), &a, &b, &c, caller, r),
    {
        let ghost was = *self;
        let x = match self.alias_applets(caller, "") {
            Err(f) => {
                assert(self.shell_set_up(&was, self, self, self, caller, Err(f)));
                return Err(f);
            },
            Ok(x) => x,
        };
        let ghost a = *self;
        let y = match self.alias_applets(caller, "/musl") {
            Err(f) => {
                assert(a.aliased(&was, caller, ""@, Ok(x)));
                assert(self.shell_set_up(&was, &a, self, self, caller, Err(f)));
                return Err(f);
            },
            Ok(y) => y,
        };
        let ghost b = *self;
        let z = match self.alias_applets(caller, "/glibc") {
            Err(f) => {
                assert(a.aliased(&was, caller, ""@, Ok(x)));
                assert(b.aliased(&a, caller, "/musl"@, Ok(y)));
                assert(self.shell_set_up(&was, &a, &b, self, caller, Err(f)));
                return Err(f);
            },
            Ok(z) => z,
        };
        let ghost c = *self;
        self.files.mem.install_demo_script(caller);
        let r = Ok((x, y, z));
        assert(self.shell_set_up(&was, &a, &b, &c, caller, r));
        r
    }

    /// What the memory of a tree holds once programs, standard files, devices
    /// and the table of mounts have been added.
    pub open spec fn set_up_memory(
        &self,
        was: &Vfs,
        caller: &Caller,
        programs: Seq<(Seq<char>, Seq<u8>)>,
    ) -> MemFsModel {
        let base = was.files.mem@.with_programs(caller, programs).with_standard_trees(caller);
        let paths = was.files.blocks.listed_paths();
        let devices = if paths.len() == 0 {
            base
        } else {
            base.with_device_dirs(caller, ""@).with_device_dirs(caller, "/musl"@).with_device_dirs(
                caller,
                "/glibc"@,
            ).with_devices(caller, paths)
        };
        devices.telling_mounts(caller, table_text(self.mounts@))
    }

    /// Sets up the tree: the built-in programs, the files that programs expect,
    /// the devices and the table of mounts. The shell is set up after that.
    pub fn init(&mut self, caller: &Caller, programs: &Vec<(String, Vec<u8>)>)
        requires
            old(self).wf(),
            forall|i: int|
                0 <= i < programs@.len() ==> (#[trigger] programs@[i]).1@.len() <= MAX_FILE_OFFSET,
        ensures
            final(self).wf(),
            *final(self) == (Vfs {
                files: Files { mem: final(self).files.mem, ..old(self).files },
                mounts: final(self).mounts,
                ..*old(self)
            }),
            final(self).mounts@.len() == 1,
            Vfs::is_root_entry(final(self).mounts@[0], old(self).files.vol.names.mounted),
            final(self).files.mem@ == final(self).set_up_memory(
                old(self),
                caller,
                program_views(programs@),
            ),
    {
        let ghost start = self.files.mem@;
        let ghost all = program_views(programs@);
        let mut i: usize = 0;
        assert(all.take(0) =~= Seq::empty());
        while i < programs.len()
            invariant
                self.wf(),
                self.mem_only(old(self)),
                0 <= i <= programs@.len(),
                all == program_views(programs@),
                forall|i: int|
                    0 <= i < programs@.len() ==> (#[trigger] programs@[i]).1@.len()
                        <= MAX_FILE_OFFSET,
                self.files.mem@ == start.with_programs(caller, all.take(i as int)),
            decreases programs@.len() - i,
        {
            proof {
                assert(all.take(i + 1).drop_last() =~= all.take(i as int));
                assert(all.take(i + 1).last() == all[i as int]);
            }
            let program = &programs[i];
            self.files.mem.add_user_program(
                caller,
                program.0.as_str(),
                program.1.as_slice(),
            );
            i = i + 1;
        }
        assert(all.take(i as int) =~= all);
        self.files.mem.init_pseudo_files(caller);
        self.refresh_block_device_nodes(caller);
        self.init_mount_table(caller);
    }
}

} // verus!
