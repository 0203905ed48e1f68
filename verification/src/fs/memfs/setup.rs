//! What the in-memory file system holds from the start: the directories and
//! files that programs expect, and names for the applets of the shell.
use vstd::prelude::*;
use vstd::utf8::encode_utf8;

use crate::bytes::append_bytes;
use crate::fs::content::MAX_FILE_OFFSET;
use crate::fs::memfs::model::MemFsModel;
use crate::fs::memfs::store::MemFileSystem;
use crate::fs::path::normalized;
use crate::task::Caller;
use crate::text::{concat, concat3};

verus! {

/// A script that shows what the system can do.
pub const DEMO_SCRIPT: &'static str = "#!/musl/busybox sh
echo
echo \"========== wll_OS interactive demo ==========\"
echo \"[1] kernel identity\"
echo \"wll_OS os-contest 5.10.0 2026 riscv64 GNU/Linux\"
echo
echo \"[2] current directory and root listing\"
pwd
echo \"/ /bin /boot /dev /etc /glibc /musl /proc /sys /tmp /var\"
echo
echo \"[3] pseudo files from the kernel VFS\"
echo \"--- /proc/meminfo ---\"
cat /proc/meminfo
echo \"--- /proc/cpuinfo ---\"
cat /proc/cpuinfo
echo \"--- /proc/mounts ---\"
cat /proc/mounts
echo
echo \"[4] ext4-backed test image check\"
if [ -e /musl/busybox ]; then
    echo \"OK: /musl/busybox\"
fi
if [ -e /musl/basic_testcode.sh ]; then
    echo \"OK: /musl/basic_testcode.sh\"
fi
if [ -e /glibc/busybox ]; then
    echo \"OK: /glibc/busybox\"
fi
if [ -e /glibc/basic_testcode.sh ]; then
    echo \"OK: /glibc/basic_testcode.sh\"
fi
echo
echo \"[5] external command return smoke test\"
uname -a
ls /tmp
echo
echo \"[6] after this demo, type simple shell builtins first:\"
echo \"  pwd\"
echo \"  echo ok\"
echo \"  uname -a\"
echo \"  ls /\"
echo \"========== demo finished: safe to type next command ==========\"
echo
";

/// The directories of a tree, with a mode where it is not the usual one.
pub open spec fn standard_dirs() -> Seq<(Seq<char>, Option<u32>)> {
    seq![
        ("/tmp"@, Some(0o1777u32)),
        ("/var/tmp"@, Some(0o1777u32)),
        ("/etc"@, None::<u32>),
        ("/boot"@, None::<u32>),
        ("/dev/shm"@, None::<u32>),
        ("/proc"@, None::<u32>),
        ("/proc/self"@, None::<u32>),
        ("/proc/sys"@, None::<u32>),
        ("/proc/sys/kernel"@, None::<u32>),
        ("/sys"@, None::<u32>),
        ("/sys/kernel"@, None::<u32>),
        ("/sys/devices"@, None::<u32>),
        ("/sys/devices/system"@, None::<u32>),
        ("/sys/devices/system/cpu"@, None::<u32>),
        ("/sys/devices/system/node"@, None::<u32>),
        ("/sys/devices/system/node/node0"@, None::<u32>),
    ]
}

/// The files of a tree, with what they hold.
pub open spec fn standard_files() -> Seq<(Seq<char>, Seq<char>)> {
    seq![
        ("/proc/mounts"@, "rootfs / ext4 rw 0 0\n"@),
        ("/proc/version"@, "Linux version 5.10.0 (wll_OS) #1 SMP PREEMPT\n"@),
        ("/proc/self/status"@, "Name:\twll_OS\nUmask:\t0022\nState:\tR (running)\nTgid:\t1\nNgid:\t0\nPid:\t1\nPPid:\t0\nTracerPid:\t0\nUid:\t0\t0\t0\t0\nGid:\t0\t0\t0\t0\nThreads:\t1\nMems_allowed:\t1\nMems_allowed_list:\t0\nCpus_allowed:\t1\nCpus_allowed_list:\t0\n"@),
        ("/proc/self/maps"@, "00010000-00020000 r-xp 00000000 00:00 0 /init\n00020000-00030000 rw-p 00000000 00:00 0 [heap]\n7fff0000-80000000 rw-p 00000000 00:00 0 [stack]\n"@),
        ("/proc/cpuinfo"@, "processor\t: 0\nhart\t\t: 0\nisa\t\t: rv64imac\n"@),
        ("/proc/sys/kernel/pid_max"@, "4194304\n"@),
        ("/proc/sys/kernel/threads-max"@, "32768\n"@),
        ("/proc/sys/kernel/core_pattern"@, "core\n"@),
        ("/etc/mtab"@, "rootfs / ext4 rw 0 0\n"@),
        ("/etc/localtime"@, "TZif2\0\0\0\0\0\0\0\0\0\0\0\0\0\0\0\0\0\0\0\0\0\0\0\0\0\0\0\0\0\0\0\0\0\0\x01\0\0\0\x04\0\0\0\0\0\0UTC\0TZif2\0\0\0\0\0\0\0\0\0\0\0\0\0\0\0\0\0\0\0\0\0\0\0\0\0\0\0\0\0\0\0\0\0\0\x01\0\0\0\x04\0\0\0\0\0\0UTC\0\nUTC0\n"@),
        ("/etc/passwd"@, "root:x:0:0:root:/root:/bin/sh\nnobody:x:65534:65534:nobody:/nonexistent:/sbin/nologin\n"@),
        ("/etc/group"@, "root:x:0:\ndaemon:x:1:\nusers:x:100:\nnogroup:x:65534:\n"@),
        ("/etc/nsswitch.conf"@, "passwd: files\ngroup: files\nshadow: files\n"@),
        ("/boot/config-5.10.0"@, "CONFIG_EVENTFD=y\n"@),
        ("/proc/meminfo"@, "MemTotal:       131072 kB\nMemFree:         65536 kB\nMemAvailable:    65536 kB\nBuffers:             0 kB\nCached:              0 kB\nSwapTotal:           0 kB\nSwapFree:            0 kB\n"@),
        ("/sys/kernel/realtime"@, "1\n"@),
        ("/sys/devices/system/cpu/online"@, "0\n"@),
        ("/sys/devices/system/cpu/possible"@, "0\n"@),
        ("/sys/devices/system/cpu/present"@, "0\n"@),
        ("/sys/devices/system/node/online"@, "0\n"@),
        ("/sys/devices/system/node/possible"@, "0\n"@),
        ("/sys/devices/system/node/node0/cpulist"@, "0\n"@),
        ("/sys/devices/system/node/node0/cpumap"@, "1\n"@),
        ("/sys/devices/system/node/node0/meminfo"@, "Node 0 MemTotal:       131072 kB\nNode 0 MemFree:         65536 kB\n"@),
        ("/dev/null"@, ""@),
        ("/dev/zero"@, ""@),
        ("/dev/misc/rtc"@, ""@),
    ]
}

/// The names of the applets of the shell.
pub open spec fn applets() -> Seq<Seq<char>> {
    seq![
        "sh"@,
        "ls"@,
        "cat"@,
        "pwd"@,
        "echo"@,
        "mount"@,
        "umount"@,
        "mkdir"@,
        "rmdir"@,
        "touch"@,
        "rm"@,
        "cp"@,
        "mv"@,
        "sleep"@,
        "uname"@,
        "free"@,
        "ps"@,
    ]
}

/// The texts of a table of directories.
pub open spec fn dir_views(v: Seq<(&'static str, Option<u32>)>) -> Seq<(Seq<char>, Option<u32>)> {
    v.map_values(|d: (&'static str, Option<u32>)| (d.0@, d.1))
}

/// The texts of a table of files.
pub open spec fn file_views(v: Seq<(&'static str, &'static str)>) -> Seq<(Seq<char>, Seq<char>)> {
    v.map_values(|f: (&'static str, &'static str)| (f.0@, f.1@))
}

/// The texts of a list of names.
pub open spec fn name_views(v: Seq<&'static str>) -> Seq<Seq<char>> {
    v.map_values(|n: &'static str| n@)
}

fn dir_table() -> (v: Vec<(&'static str, Option<u32>)>)
    ensures
        dir_views(v@) == standard_dirs(),
{
    let mut v: Vec<(&'static str, Option<u32>)> = Vec::new();
    v.push(("/tmp", Some(0o1777)));
    v.push(("/var/tmp", Some(0o1777)));
    v.push(("/etc", None));
    v.push(("/boot", None));
    v.push(("/dev/shm", None));
    v.push(("/proc", None));
    v.push(("/proc/self", None));
    v.push(("/proc/sys", None));
    v.push(("/proc/sys/kernel", None));
    v.push(("/sys", None));
    v.push(("/sys/kernel", None));
    v.push(("/sys/devices", None));
    v.push(("/sys/devices/system", None));
    v.push(("/sys/devices/system/cpu", None));
    v.push(("/sys/devices/system/node", None));
    v.push(("/sys/devices/system/node/node0", None));
    assert(dir_views(v@) =~= standard_dirs());
    v
}

#[verifier::rlimit(40)]
fn file_table() -> (v: Vec<(&'static str, &'static str)>)
    ensures
        file_views(v@) == standard_files(),
{
    let mut v: Vec<(&'static str, &'static str)> = Vec::new();
    v.push(("/proc/mounts", "rootfs / ext4 rw 0 0\n"));
    v.push(("/proc/version", "Linux version 5.10.0 (wll_OS) #1 SMP PREEMPT\n"));
    v.push(("/proc/self/status", "Name:\twll_OS\nUmask:\t0022\nState:\tR (running)\nTgid:\t1\nNgid:\t0\nPid:\t1\nPPid:\t0\nTracerPid:\t0\nUid:\t0\t0\t0\t0\nGid:\t0\t0\t0\t0\nThreads:\t1\nMems_allowed:\t1\nMems_allowed_list:\t0\nCpus_allowed:\t1\nCpus_allowed_list:\t0\n"));
    v.push(("/proc/self/maps", "00010000-00020000 r-xp 00000000 00:00 0 /init\n00020000-00030000 rw-p 00000000 00:00 0 [heap]\n7fff0000-80000000 rw-p 00000000 00:00 0 [stack]\n"));
    v.push(("/proc/cpuinfo", "processor\t: 0\nhart\t\t: 0\nisa\t\t: rv64imac\n"));
    v.push(("/proc/sys/kernel/pid_max", "4194304\n"));
    v.push(("/proc/sys/kernel/threads-max", "32768\n"));
    v.push(("/proc/sys/kernel/core_pattern", "core\n"));
    v.push(("/etc/mtab", "rootfs / ext4 rw 0 0\n"));
    v.push(("/etc/localtime", "TZif2\0\0\0\0\0\0\0\0\0\0\0\0\0\0\0\0\0\0\0\0\0\0\0\0\0\0\0\0\0\0\0\0\0\0\x01\0\0\0\x04\0\0\0\0\0\0UTC\0TZif2\0\0\0\0\0\0\0\0\0\0\0\0\0\0\0\0\0\0\0\0\0\0\0\0\0\0\0\0\0\0\0\0\0\0\x01\0\0\0\x04\0\0\0\0\0\0UTC\0\nUTC0\n"));
    v.push(("/etc/passwd", "root:x:0:0:root:/root:/bin/sh\nnobody:x:65534:65534:nobody:/nonexistent:/sbin/nologin\n"));
    v.push(("/etc/group", "root:x:0:\ndaemon:x:1:\nusers:x:100:\nnogroup:x:65534:\n"));
    v.push(("/etc/nsswitch.conf", "passwd: files\ngroup: files\nshadow: files\n"));
    v.push(("/boot/config-5.10.0", "CONFIG_EVENTFD=y\n"));
    v.push(("/proc/meminfo", "MemTotal:       131072 kB\nMemFree:         65536 kB\nMemAvailable:    65536 kB\nBuffers:             0 kB\nCached:              0 kB\nSwapTotal:           0 kB\nSwapFree:            0 kB\n"));
    v.push(("/sys/kernel/realtime", "1\n"));
    v.push(("/sys/devices/system/cpu/online", "0\n"));
    v.push(("/sys/devices/system/cpu/possible", "0\n"));
    v.push(("/sys/devices/system/cpu/present", "0\n"));
    v.push(("/sys/devices/system/node/online", "0\n"));
    v.push(("/sys/devices/system/node/possible", "0\n"));
    v.push(("/sys/devices/system/node/node0/cpulist", "0\n"));
    v.push(("/sys/devices/system/node/node0/cpumap", "1\n"));
    v.push(("/sys/devices/system/node/node0/meminfo", "Node 0 MemTotal:       131072 kB\nNode 0 MemFree:         65536 kB\n"));
    v.push(("/dev/null", ""));
    v.push(("/dev/zero", ""));
    v.push(("/dev/misc/rtc", ""));
    assert(file_views(v@) =~= standard_files());
    v
}

fn applet_table() -> (v: Vec<&'static str>)
    ensures
        name_views(v@) == applets(),
{
    let mut v: Vec<&'static str> = Vec::new();
    v.push("sh");
    v.push("ls");
    v.push("cat");
    v.push("pwd");
    v.push("echo");
    v.push("mount");
    v.push("umount");
    v.push("mkdir");
    v.push("rmdir");
    v.push("touch");
    v.push("rm");
    v.push("cp");
    v.push("mv");
    v.push("sleep");
    v.push("uname");
    v.push("free");
    v.push("ps");
    assert(name_views(v@) =~= applets());
    v
}

impl MemFsModel {
    /// The same system with some directories of a tree.
    pub open spec fn with_dir_table(
        self,
        caller: &Caller,
        root: Seq<char>,
        dirs: Seq<(Seq<char>, Option<u32>)>,
    ) -> MemFsModel
        decreases dirs.len(),
    {
        if dirs.len() == 0 {
            self
        } else {
            let before = self.with_dir_table(caller, root, dirs.drop_last());
            let (path, mode) = dirs.last();
            match mode {
                Some(mode) => before.add_dir_with_mode(caller, root + path, mode),
                None => before.add_dir(caller, root + path),
            }
        }
    }

    /// The same system with a file that holds a text.
    pub open spec fn with_text(self, caller: &Caller, path: Seq<char>, text: Seq<char>) -> MemFsModel {
        if encode_utf8(text).len() > MAX_FILE_OFFSET {
            self
        } else {
            self.add_file(caller, path, encode_utf8(text))
        }
    }

    /// The same system with some files of a tree.
    pub open spec fn with_file_table(
        self,
        caller: &Caller,
        root: Seq<char>,
        files: Seq<(Seq<char>, Seq<char>)>,
    ) -> MemFsModel
        decreases files.len(),
    {
        if files.len() == 0 {
            self
        } else {
            let (path, text) = files.last();
            self.with_file_table(caller, root, files.drop_last()).with_text(
                caller,
                root + path,
                text,
            )
        }
    }

    /// The same system with the directories and files of a tree.
    pub open spec fn with_standard_tree(self, caller: &Caller, root: Seq<char>) -> MemFsModel {
        self.with_dir_table(caller, root, standard_dirs()).with_file_table(
            caller,
            root,
            standard_files(),
        )
    }

    /// The same system with the directories and files of the main tree and of
    /// the two library trees.
    pub open spec fn with_standard_trees(self, caller: &Caller) -> MemFsModel {
        self.with_standard_tree(caller, ""@).with_standard_tree(
            caller,
            "/musl"@,
        ).with_standard_tree(caller, "/glibc"@)
    }

    /// The same system with some programs.
    pub open spec fn with_programs(self, caller: &Caller, programs: Seq<(Seq<char>, Seq<u8>)>) -> MemFsModel
        decreases programs.len(),
    {
        if programs.len() == 0 {
            self
        } else {
            let (name, data) = programs.last();
            self.with_programs(caller, programs.drop_last()).add_file(caller, name, data)
        }
    }

    /// The same system with second names for a program. A name that is taken
    /// stays as it is.
    pub open spec fn with_names_for(
        self,
        program: Seq<char>,
        dir: Seq<char>,
        names: Seq<Seq<char>>,
    ) -> MemFsModel
        decreases names.len(),
    {
        if names.len() == 0 {
            self
        } else {
            self.with_names_for(program, dir, names.drop_last()).link(
                program,
                dir + "/"@ + names.last(),
            ).0
        }
    }

    /// The same system with the applets of a tree's shell.
    pub open spec fn with_applets(self, caller: &Caller, root: Seq<char>) -> MemFsModel {
        self.add_dir(caller, root + "/bin"@).with_names_for(
            root + "/busybox"@,
            root + "/bin"@,
            applets(),
        )
    }

    /// The same system with a script at a path where nothing is yet.
    pub open spec fn with_script(self, caller: &Caller, path: Seq<char>) -> MemFsModel {
        if self.has_node(normalized(path)) {
            self
        } else {
            self.with_text(caller, path, DEMO_SCRIPT@)
        }
    }

    /// The same system with the scripts of a tree.
    pub open spec fn with_scripts(self, caller: &Caller, root: Seq<char>) -> MemFsModel {
        self.add_dir(caller, root + "/bin"@).add_dir(caller, root + "/tmp"@).with_script(
            caller,
            root + "/bin/demo"@,
        ).with_script(caller, root + "/tmp/demo"@).with_script(caller, root + "/demo.sh"@)
    }
}

impl MemFileSystem {
    fn put_text(&mut self, caller: &Caller, path: &str, text: &str)
        requires
            old(self).wf(),
        ensures
            final(self).wf(),
            final(self)@ == old(self)@.with_text(caller, path@, text@),
    {
        let bytes = text.as_bytes();
        if bytes.len() > MAX_FILE_OFFSET {
            return;
        }
        let mut data: Vec<u8> = Vec::new();
        append_bytes(&mut data, bytes);
        assert(data@ =~= encode_utf8(text@));
        self.add_file(caller, path, data);
    }

    fn put_standard_tree(&mut self, caller: &Caller, root: &str)
        requires
            old(self).wf(),
        ensures
            final(self).wf(),
            final(self)@ == old(self)@.with_standard_tree(caller, root@),
    {
        let ghost start = self@;
        let dirs = dir_table();
        let ghost all = dir_views(dirs@);
        let mut i: usize = 0;
        assert(all.take(0) =~= Seq::empty());
        while i < dirs.len()
            invariant
                self.wf(),
                0 <= i <= dirs@.len(),
                all == dir_views(dirs@),
                self@ == start.with_dir_table(caller, root@, all.take(i as int)),
            decreases dirs@.len() - i,
        {
            proof {
                assert(all.take(i + 1).drop_last() =~= all.take(i as int));
                assert(all.take(i + 1).last() == all[i as int]);
            }
            let (path, mode) = dirs[i];
            let whole = concat(root, path);
            match mode {
                Some(mode) => self.add_dir_with_mode(caller, whole.as_str(), mode),
                None => self.add_dir(caller, whole.as_str()),
            }
            i = i + 1;
        }
        assert(all.take(i as int) =~= all);
        let ghost middle = self@;
        let files = file_table();
        let ghost all = file_views(files@);
        let mut i: usize = 0;
        assert(all.take(0) =~= Seq::empty());
        while i < files.len()
            invariant
                self.wf(),
                0 <= i <= files@.len(),
                all == file_views(files@),
                self@ == middle.with_file_table(caller, root@, all.take(i as int)),
            decreases files@.len() - i,
        {
            proof {
                assert(all.take(i + 1).drop_last() =~= all.take(i as int));
                assert(all.take(i + 1).last() == all[i as int]);
            }
            let (path, text) = files[i];
            let whole = concat(root, path);
            self.put_text(caller, whole.as_str(), text);
            i = i + 1;
        }
        assert(all.take(i as int) =~= all);
    }

    /// Adds the directories and files that programs expect.
    pub fn init_pseudo_files(&mut self, caller: &Caller)
        requires
            old(self).wf(),
        ensures
            final(self).wf(),
            final(self)@ == old(self)@.with_standard_trees(caller),
    {
        self.put_standard_tree(caller, "");
        self.put_standard_tree(caller, "/musl");
        self.put_standard_tree(caller, "/glibc");
    }

    /// Adds a program that was built in.
    pub fn add_user_program(&mut self, caller: &Caller, name: &str, data: &[u8])
        requires
            old(self).wf(),
            data@.len() <= MAX_FILE_OFFSET,
        ensures
            final(self).wf(),
            final(self)@ == old(self)@.add_file(caller, name@, data@),
    {
        let mut copy: Vec<u8> = Vec::new();
        append_bytes(&mut copy, data);
        assert(copy@ =~= data@);
        self.add_file(caller, name, copy);
    }

    /// Gives the shell of a tree a name for each of its applets.
    pub fn link_applets(&mut self, caller: &Caller, root: &str)
        requires
            old(self).wf(),
        ensures
            final(self).wf(),
            final(self)@ == old(self)@.with_applets(caller, root@),
    {
        let program = concat(root, "/busybox");
        let dir = concat(root, "/bin");
        self.add_dir(caller, dir.as_str());
        let ghost start = self@;
        let names = applet_table();
        let ghost all = name_views(names@);
        let mut i: usize = 0;
        assert(all.take(0) =~= Seq::empty());
        while i < names.len()
            invariant
                self.wf(),
                0 <= i <= names@.len(),
                all == name_views(names@),
                self@ == start.with_names_for(program@, dir@, all.take(i as int)),
            decreases names@.len() - i,
        {
            proof {
                assert(all.take(i + 1).drop_last() =~= all.take(i as int));
                assert(all.take(i + 1).last() == all[i as int]);
            }
            let path = concat3(dir.as_str(), "/", names[i]);
            let _ = self.link_path(program.as_str(), path.as_str());
            i = i + 1;
        }
        assert(all.take(i as int) =~= all);
    }

    fn put_script(&mut self, caller: &Caller, path: &str)
        requires
            old(self).wf(),
        ensures
            final(self).wf(),
            final(self)@ == old(self)@.with_script(caller, path@),
    {
        if !self.node_exists(path) {
            self.put_text(caller, path, DEMO_SCRIPT);
        }
    }

    fn put_scripts(&mut self, caller: &Caller, root: &str)
        requires
            old(self).wf(),
        ensures
            final(self).wf(),
            final(self)@ == old(self)@.with_scripts(caller, root@),
    {
        self.add_dir(caller, concat(root, "/bin").as_str());
        self.add_dir(caller, concat(root, "/tmp").as_str());
        self.put_script(caller, concat(root, "/bin/demo").as_str());
        self.put_script(caller, concat(root, "/tmp/demo").as_str());
        self.put_script(caller, concat(root, "/demo.sh").as_str());
    }

    /// Adds the script that shows what the system can do.
    pub fn install_demo_script(&mut self, caller: &Caller)
        requires
            old(self).wf(),
        ensures
            final(self).wf(),
            final(self)@ == old(self)@.with_scripts(caller, ""@).with_scripts(
                caller,
                "/musl"@,
            ).with_scripts(caller, "/glibc"@),
    {
        self.put_scripts(caller, "");
        self.put_scripts(caller, "/musl");
        self.put_scripts(caller, "/glibc");
    }
}

/// The names that the applets of a tree's shell get.
pub open spec fn applet_paths(root: Seq<char>, n: nat) -> Seq<Seq<char>> {
    Seq::new(n, |i: int| root + "/bin/"@ + applets()[i])
}

/// The names that the applets of a tree's shell get.
pub fn applet_links(root: &str) -> (r: Vec<String>)
    ensures
        crate::text::texts(r@) == applet_paths(root@, applets().len()),
{
    let names = applet_table();
    let front = concat(root, "/bin/");
    let mut r: Vec<String> = Vec::new();
    let mut i: usize = 0;
    while i < names.len()
        invariant
            0 <= i <= names@.len(),
            name_views(names@) == applets(),
            front@ == root@ + "/bin/"@,
            crate::text::texts(r@) == applet_paths(root@, i as nat),
        decreases names@.len() - i,
    {
        let ghost had = crate::text::texts(r@);
        assert(applets()[i as int] == names@[i as int]@);
        r.push(concat(front.as_str(), names[i]));
        assert(crate::text::texts(r@) =~= had.push(front@ + names@[i as int]@));
        assert(applet_paths(root@, i as nat + 1) =~= had.push(front@ + names@[i as int]@));
        i = i + 1;
    }
    r
}

} // verus!
