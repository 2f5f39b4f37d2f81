//! The volumes of one invocation: each host directory is mounted once, and
//! read-only unless a file will be created in it.

use vstd::prelude::*;

verus! {

/// A host directory made visible inside the container.
#[derive(Debug, Clone, PartialEq, Eq)]
pub struct DockerVolume {
    /// The canonical host directory.
    pub host_path: String,
    /// The directory inside the container on which it is mounted.
    pub container_path: String,
    /// Whether the container may write to it.
    pub read_write: bool,
}

/// The mathematical content of a [`DockerVolume`].
pub struct VolumeView {
    pub host_path: Seq<char>,
    pub container_path: Seq<char>,
    pub read_write: bool,
}

impl View for DockerVolume {
    type V = VolumeView;

    open spec fn view(&self) -> VolumeView {
        VolumeView {
            host_path: self.host_path@,
            container_path: self.container_path@,
            read_write: self.read_write,
        }
    }
}

/// The views of a sequence of volumes, element by element.
pub open spec fn volume_views(volumes: Seq<DockerVolume>) -> Seq<VolumeView> {
    volumes.map_values(|v: DockerVolume| v@)
}

/// Whether `host_dir` is mounted by one of `mounts`.
pub open spec fn mounted(mounts: Seq<VolumeView>, host_dir: Seq<char>) -> bool {
    exists|i: int| 0 <= i < mounts.len() && #[trigger] mounts[i].host_path == host_dir
}

/// The position of a mount of `host_dir` in `mounts`, where there is one.
pub open spec fn mount_index(mounts: Seq<VolumeView>, host_dir: Seq<char>) -> int {
    choose|i: int| 0 <= i < mounts.len() && #[trigger] mounts[i].host_path == host_dir
}

/// No host directory is mounted twice.
pub open spec fn distinct_host_dirs(mounts: Seq<VolumeView>) -> bool {
    forall|i: int, j: int|
        0 <= i < j < mounts.len() ==> (#[trigger] mounts[i]).host_path != (
        #[trigger] mounts[j]).host_path
}

/// The mounts after one more reference to `host_dir`.
///
/// A directory that is mounted already keeps its place and its container
/// directory, and becomes writable if the reference creates a file. A new
/// directory is mounted last, on `container_dir`, writable only if the
/// reference creates a file.
pub open spec fn with_reference(
    mounts: Seq<VolumeView>,
    host_dir: Seq<char>,
    container_dir: Seq<char>,
    created: bool,
) -> Seq<VolumeView> {
    if mounted(mounts, host_dir) {
        let at = mount_index(mounts, host_dir);
        mounts.update(
            at,
            VolumeView {
                host_path: host_dir,
                container_path: mounts[at].container_path,
                read_write: mounts[at].read_write || created,
            },
        )
    } else {
        mounts.push(VolumeView { host_path: host_dir, container_path: container_dir, read_write: created })
    }
}

/// What one more reference does to a set of mounts with distinct host
/// directories: they stay distinct, the directory referred to is mounted,
/// every other mount is left as it was, and no other directory is added.
pub proof fn lemma_with_reference(
    mounts: Seq<VolumeView>,
    host_dir: Seq<char>,
    container_dir: Seq<char>,
    created: bool,
)
    requires
        distinct_host_dirs(mounts),
    ensures
        distinct_host_dirs(with_reference(mounts, host_dir, container_dir, created)),
        mounted(with_reference(mounts, host_dir, container_dir, created), host_dir),
        forall|i: int|
            #![trigger mounts[i]]
            0 <= i < mounts.len() ==> {
                &&& i < with_reference(mounts, host_dir, container_dir, created).len()
                &&& with_reference(mounts, host_dir, container_dir, created)[i].host_path
                    == mounts[i].host_path
                &&& with_reference(mounts, host_dir, container_dir, created)[i].container_path
                    == mounts[i].container_path
                &&& with_reference(mounts, host_dir, container_dir, created)[i].read_write == (
                mounts[i].read_write || (created && mounts[i].host_path == host_dir))
            },
        mounted(mounts, host_dir) ==> with_reference(mounts, host_dir, container_dir, created).len()
            == mounts.len(),
        !mounted(mounts, host_dir) ==> with_reference(mounts, host_dir, container_dir, created)
            == mounts.push(
            VolumeView { host_path: host_dir, container_path: container_dir, read_write: created },
        ),
{
    let after = with_reference(mounts, host_dir, container_dir, created);
    if mounted(mounts, host_dir) {
        let at = mount_index(mounts, host_dir);
        assert(after[at].host_path == host_dir);
        assert forall|i: int| #![trigger mounts[i]] 0 <= i < mounts.len() implies {
            &&& after[i].host_path == mounts[i].host_path
            &&& after[i].container_path == mounts[i].container_path
            &&& after[i].read_write == (mounts[i].read_write || (created && mounts[i].host_path
                == host_dir))
        } by {
            if i != at && mounts[i].host_path == host_dir {
                if i < at {
                    assert(mounts[i].host_path != mounts[at].host_path);
                } else {
                    assert(mounts[at].host_path != mounts[i].host_path);
                }
            }
        }
        assert forall|i: int, j: int| 0 <= i < j < after.len() implies (#[trigger] after[i]).host_path
            != (#[trigger] after[j]).host_path by {
            assert(mounts[i].host_path != mounts[j].host_path);
        }
    } else {
        assert(after[mounts.len() as int].host_path == host_dir);
        assert forall|i: int, j: int| 0 <= i < j < after.len() implies (#[trigger] after[i]).host_path
            != (#[trigger] after[j]).host_path by {
            if j < mounts.len() {
                assert(mounts[i].host_path != mounts[j].host_path);
            } else {
                assert(mounts[i].host_path != host_dir);
            }
        }
    }
}

/// The volumes collected for one invocation, keyed by host directory.
///
/// No host directory occurs twice, in whatever order the references come.
#[derive(Debug)]
pub struct MountTable {
    volumes: Vec<DockerVolume>,
}

impl View for MountTable {
    type V = Seq<VolumeView>;

    closed spec fn view(&self) -> Seq<VolumeView> {
        volume_views(self.volumes@)
    }
}

impl MountTable {
    #[verifier::type_invariant]
    spec fn holds_each_directory_once(self) -> bool {
        distinct_host_dirs(volume_views(self.volumes@))
    }

    /// A table without mounts.
    pub fn new() -> (table: Self)
        ensures
            table@ == Seq::<VolumeView>::empty(),
    {
        MountTable { volumes: Vec::new() }
    }

    /// Records that a file in `host_dir` is used, and whether it is created.
    ///
    /// `container_dir` is used only if the directory is not mounted yet.
    pub fn reference(&mut self, host_dir: String, container_dir: String, created: bool)
        ensures
            final(self)@ == with_reference(old(self)@, host_dir@, container_dir@, created),
    {
        proof {
            use_type_invariant(&*self);
            lemma_with_reference(self@, host_dir@, container_dir@, created);
        }
        let ghost before = self@;
        let found = self.position(&host_dir);
        let mut volumes: Vec<DockerVolume> = Vec::new();
        std::mem::swap(&mut self.volumes, &mut volumes);
        match found {
            Some(at) => {
                if created {
                    let kept = volumes[at].container_path.clone();
                    volumes.set(
                        at,
                        DockerVolume { host_path: host_dir, container_path: kept, read_write: true },
                    );
                }
            },
            None => {
                volumes.push(
                    DockerVolume {
                        host_path: host_dir,
                        container_path: container_dir,
                        read_write: created,
                    },
                );
            },
        }
        assert(volume_views(volumes@) =~= with_reference(
            before,
            host_dir@,
            container_dir@,
            created,
        ));
        self.volumes = volumes;
    }

    /// The position of the mount of `host_dir`, if it is mounted.
    fn position(&self, host_dir: &String) -> (found: Option<usize>)
        ensures
            found is Some == mounted(self@, host_dir@),
            found is Some ==> found->0 == mount_index(self@, host_dir@) && found->0 < self@.len(),
    {
        proof {
            use_type_invariant(self);
        }
        let ghost mounts = self@;
        let mut i: usize = 0;
        while i < self.volumes.len()
            invariant
                i <= self.volumes.len(),
                volume_views(self.volumes@) == mounts,
                distinct_host_dirs(mounts),
                forall|j: int| 0 <= j < i ==> (#[trigger] mounts[j]).host_path != host_dir@,
            decreases self.volumes.len() - i,
        {
            if self.volumes[i].host_path == *host_dir {
                assert(mounts[i as int].host_path == host_dir@);
                let ghost at = mount_index(mounts, host_dir@);
                assert(at == i) by {
                    if at < i {
                        assert(mounts[at].host_path != host_dir@);
                    } else if at > i {
                        assert(mounts[i as int].host_path != mounts[at].host_path);
                    }
                }
                return Some(i);
            }
            i += 1;
        }
        None
    }

    /// The number of mounts.
    pub fn len(&self) -> (n: usize)
        ensures
            n == self@.len(),
    {
        self.volumes.len()
    }

    /// The volumes in the order in which their directories were first
    /// referred to.
    pub fn into_volumes(self) -> (volumes: Vec<DockerVolume>)
        ensures
            volume_views(volumes@) == self@,
            distinct_host_dirs(volume_views(volumes@)),
    {
        proof {
            use_type_invariant(&self);
        }
        self.volumes
    }
}

} // verus!
