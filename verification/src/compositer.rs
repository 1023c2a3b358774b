//! The plugin registry: an ordered set of plugin handles sharing one state
//! blob. The list is sorted ascending by priority after every mutation and
//! holds at most one handle per artifact stem.

use vstd::prelude::*;
use crate::library::{Callback, Library, LibraryError};
use crate::state::LibraryState;
use crate::event::Event;

verus! {

/// The errors of the registry and of the package pipeline around it, by
/// phase.
#[derive(Clone, Debug)]
pub enum CompositerError {
    /// The built artifact could not be moved into place.
    MvFail,
    /// The artifact file could not be removed.
    RmFile,
    /// The checkout directory could not be removed.
    RmDir,
    /// The `git` sub-directory could not be created.
    MkDirGit,
    /// The `lib` sub-directory could not be created.
    MkDirLib,
    /// The `git` sub-directory could not be read.
    ReadDirGit,
    /// The `lib` sub-directory could not be read.
    ReadDirLib,
    /// The manifest file could not be opened.
    OpenDirLib,
    /// The manifest file could not be read.
    ReadManifest,
    /// The build command could not be run.
    BuildCommand,
    /// The build command exited without success.
    BuildExit,
    /// The repository could not be cloned.
    InstallClone,
    /// The repository could not be opened for update.
    UpdateRepOpen,
    /// The `origin` remote was not found.
    UpdateRepOrigin,
    /// The remote could not be fetched.
    UpdateRepFetch,
    /// The `master` branch was not found.
    UpdateRepBranch,
    /// The `master` branch names no commit.
    UpdateRepBranchId,
    /// The commit object was not found.
    UpdateRepObject,
    /// The checkout could not be reset.
    UpdateRepReset,
    /// The shared object could not be mounted.
    Mount(LibraryError),
    /// The plugin root could not be resolved.
    NekoPath,
    /// No mounted handle answers to the name.
    UnmountPosition,
    /// The found handle could not be removed.
    UnmountRemove,
    /// The manifest could not be parsed.
    ParseManifest,
    /// The manifest's priority is not an integer.
    ParseInteger,
    /// The URL fits neither supported remote grammar.
    InstallFormat,
    /// The checkout of that name already exists.
    InstallExists,
    /// Some other input or output failure.
    Io,
}

impl CompositerError {
    /// The short description of each error.
    pub open spec fn spec_description(&self) -> Seq<char> {
        match *self {
            CompositerError::MvFail => "The directory can't be moved."@,
            CompositerError::RmFile => "Can't remove the file."@,
            CompositerError::RmDir => "Can't remove the directory."@,
            CompositerError::MkDirGit => "Can't create the `git` sub-directory."@,
            CompositerError::MkDirLib => "Can't create the `lib` sub-directory."@,
            CompositerError::ReadDirGit => "Can't read the `git` sub-directory."@,
            CompositerError::ReadDirLib => "Can't read the `lib` sub-directory."@,
            CompositerError::OpenDirLib => "Can't open the manifest file."@,
            CompositerError::ReadManifest => "Can't read the manifest file."@,
            CompositerError::BuildCommand => "Can't run the build command."@,
            CompositerError::BuildExit => "The build haven't exited with success."@,
            CompositerError::InstallClone => "Can't clone the repository."@,
            CompositerError::UpdateRepOpen => "Can't update the repository."@,
            CompositerError::UpdateRepOrigin => "Can't found the origin from repository."@,
            CompositerError::UpdateRepFetch => "Can't fetch the repository."@,
            CompositerError::UpdateRepBranch => "Can't found the branch from repository."@,
            CompositerError::UpdateRepBranchId => "Can't get the target identifiant from branch."@,
            CompositerError::UpdateRepObject => "Can't found the object from target identifiant."@,
            CompositerError::UpdateRepReset => "Can't reset the repository."@,
            CompositerError::Mount(_) => "Can't mount the dynamic library."@,
            CompositerError::NekoPath => "Can't resolve the plugin root directory."@,
            CompositerError::UnmountPosition => "Can't found the position."@,
            CompositerError::UnmountRemove => "Can't remove the index."@,
            CompositerError::ParseManifest => "Can't parse the manifest file."@,
            CompositerError::ParseInteger => "Can't parse a integer from the table."@,
            CompositerError::InstallFormat => "The git link haven't a valid format."@,
            CompositerError::InstallExists => "The dynamic library as already a repository."@,
            CompositerError::Io => "The input or output has failed."@,
        }
    }

    /// The short description of the error.
    pub fn description(&self) -> (r: String)
        ensures
            r@ == self.spec_description(),
    {
        match *self {
            CompositerError::MvFail => "The directory can't be moved.".to_owned(),
            CompositerError::RmFile => "Can't remove the file.".to_owned(),
            CompositerError::RmDir => "Can't remove the directory.".to_owned(),
            CompositerError::MkDirGit => "Can't create the `git` sub-directory.".to_owned(),
            CompositerError::MkDirLib => "Can't create the `lib` sub-directory.".to_owned(),
            CompositerError::ReadDirGit => "Can't read the `git` sub-directory.".to_owned(),
            CompositerError::ReadDirLib => "Can't read the `lib` sub-directory.".to_owned(),
            CompositerError::OpenDirLib => "Can't open the manifest file.".to_owned(),
            CompositerError::ReadManifest => "Can't read the manifest file.".to_owned(),
            CompositerError::BuildCommand => "Can't run the build command.".to_owned(),
            CompositerError::BuildExit => "The build haven't exited with success.".to_owned(),
            CompositerError::InstallClone => "Can't clone the repository.".to_owned(),
            CompositerError::UpdateRepOpen => "Can't update the repository.".to_owned(),
            CompositerError::UpdateRepOrigin => "Can't found the origin from repository.".to_owned(),
            CompositerError::UpdateRepFetch => "Can't fetch the repository.".to_owned(),
            CompositerError::UpdateRepBranch => "Can't found the branch from repository.".to_owned(),
            CompositerError::UpdateRepBranchId => "Can't get the target identifiant from branch.".to_owned(),
            CompositerError::UpdateRepObject => "Can't found the object from target identifiant.".to_owned(),
            CompositerError::UpdateRepReset => "Can't reset the repository.".to_owned(),
            CompositerError::Mount(_) => "Can't mount the dynamic library.".to_owned(),
            CompositerError::NekoPath => "Can't resolve the plugin root directory.".to_owned(),
            CompositerError::UnmountPosition => "Can't found the position.".to_owned(),
            CompositerError::UnmountRemove => "Can't remove the index.".to_owned(),
            CompositerError::ParseManifest => "Can't parse the manifest file.".to_owned(),
            CompositerError::ParseInteger => "Can't parse a integer from the table.".to_owned(),
            CompositerError::InstallFormat => "The git link haven't a valid format.".to_owned(),
            CompositerError::InstallExists => "The dynamic library as already a repository.".to_owned(),
            CompositerError::Io => "The input or output has failed.".to_owned(),
        }
    }

    /// The phase each error belongs to, for comparison by variant.
    pub open spec fn spec_code(&self) -> int {
        match *self {
            CompositerError::MvFail => 0,
            CompositerError::RmFile => 1,
            CompositerError::RmDir => 2,
            CompositerError::MkDirGit => 3,
            CompositerError::MkDirLib => 4,
            CompositerError::ReadDirGit => 5,
            CompositerError::ReadDirLib => 6,
            CompositerError::OpenDirLib => 7,
            CompositerError::ReadManifest => 8,
            CompositerError::BuildCommand => 9,
            CompositerError::BuildExit => 10,
            CompositerError::InstallClone => 11,
            CompositerError::UpdateRepOpen => 12,
            CompositerError::UpdateRepOrigin => 13,
            CompositerError::UpdateRepFetch => 14,
            CompositerError::UpdateRepBranch => 15,
            CompositerError::UpdateRepBranchId => 16,
            CompositerError::UpdateRepObject => 17,
            CompositerError::UpdateRepReset => 18,
            CompositerError::Mount(_) => 19,
            CompositerError::NekoPath => 20,
            CompositerError::UnmountPosition => 21,
            CompositerError::UnmountRemove => 22,
            CompositerError::ParseManifest => 23,
            CompositerError::ParseInteger => 24,
            CompositerError::InstallFormat => 25,
            CompositerError::InstallExists => 26,
            CompositerError::Io => 27,
        }
    }
}

impl PartialEq for CompositerError {
    /// Two errors are equal when they name the same phase; what an error
    /// wraps is not compared.
    fn eq(&self, other: &CompositerError) -> (r: bool) {
        let a: u32 = self.code();
        let b: u32 = other.code();
        a == b
    }
}

impl vstd::std_specs::cmp::PartialEqSpecImpl for CompositerError {
    open spec fn obeys_eq_spec() -> bool {
        true
    }

    open spec fn eq_spec(&self, other: &CompositerError) -> bool {
        self.spec_code() == other.spec_code()
    }
}

impl Eq for CompositerError {

}

impl CompositerError {
    /// The phase of the error, as `spec_code` numbers it.
    fn code(&self) -> (r: u32)
        ensures
            r == self.spec_code(),
    {
        match *self {
            CompositerError::MvFail => 0,
            CompositerError::RmFile => 1,
            CompositerError::RmDir => 2,
            CompositerError::MkDirGit => 3,
            CompositerError::MkDirLib => 4,
            CompositerError::ReadDirGit => 5,
            CompositerError::ReadDirLib => 6,
            CompositerError::OpenDirLib => 7,
            CompositerError::ReadManifest => 8,
            CompositerError::BuildCommand => 9,
            CompositerError::BuildExit => 10,
            CompositerError::InstallClone => 11,
            CompositerError::UpdateRepOpen => 12,
            CompositerError::UpdateRepOrigin => 13,
            CompositerError::UpdateRepFetch => 14,
            CompositerError::UpdateRepBranch => 15,
            CompositerError::UpdateRepBranchId => 16,
            CompositerError::UpdateRepObject => 17,
            CompositerError::UpdateRepReset => 18,
            CompositerError::Mount(_) => 19,
            CompositerError::NekoPath => 20,
            CompositerError::UnmountPosition => 21,
            CompositerError::UnmountRemove => 22,
            CompositerError::ParseManifest => 23,
            CompositerError::ParseInteger => 24,
            CompositerError::InstallFormat => 25,
            CompositerError::InstallExists => 26,
            CompositerError::Io => 27,
        }
    }
}

/// Whether the handles are sorted ascending by priority.
pub open spec fn sorted(list: Seq<Library>) -> bool {
    forall|i: int, j: int| 0 <= i < j < list.len() ==> #[trigger] list[i].index
        <= #[trigger] list[j].index
}

/// Whether no two handles share an artifact stem.
pub open spec fn unique_stems(list: Seq<Library>) -> bool {
    forall|i: int, j: int| 0 <= i < j < list.len() ==> (#[trigger] list[i]).spec_stem()
        != (#[trigger] list[j]).spec_stem()
}

/// Whether some handle answers to the stem `name`.
pub open spec fn has_stem(list: Seq<Library>, name: Seq<char>) -> bool {
    exists|i: int| 0 <= i < list.len() && (#[trigger] list[i]).spec_stem() == name
}

/// The first position of a handle with stem `name`, or `-1`.
pub open spec fn first_stem_index(list: Seq<Library>, name: Seq<char>) -> int
    decreases list.len(),
{
    if list.len() == 0 {
        -1
    } else if list[0].spec_stem() == name {
        0
    } else if first_stem_index(list.drop_first(), name) == -1 {
        -1
    } else {
        1 + first_stem_index(list.drop_first(), name)
    }
}

/// `first_stem_index` points at the first handle of that stem, and is
/// `-1` exactly when there is none.
pub proof fn lemma_first_stem_index(list: Seq<Library>, name: Seq<char>)
    ensures
        -1 <= first_stem_index(list, name) < list.len(),
        first_stem_index(list, name) >= 0 ==> list[first_stem_index(list, name)].spec_stem()
            == name,
        forall|i: int| #![trigger list[i]] 0 <= i < first_stem_index(list, name) ==> list[i].spec_stem() != name,
        (first_stem_index(list, name) == -1) == !has_stem(list, name),
    decreases list.len(),
{
    if list.len() > 0 && list[0].spec_stem() != name {
        let t = list.drop_first();
        lemma_first_stem_index(t, name);
        assert(forall|i: int| 0 <= i < t.len() ==> t[i] == list[i + 1]);
        assert(forall|i: int| #![trigger list[i]] 1 <= i < list.len() ==> list[i] == t[i - 1]);
        if first_stem_index(t, name) == -1 {
            assert(!has_stem(list, name)) by {
                if has_stem(list, name) {
                    let w = choose|i: int| 0 <= i < list.len() && list[i].spec_stem() == name;
                    assert(w >= 1);
                    assert(t[w - 1] == list[w]);
                    assert(has_stem(t, name));
                }
            }
        } else {
            let f = first_stem_index(t, name);
            assert(list[f + 1] == t[f]);
        }
    }
}

/// The position where a handle of priority `idx` is inserted: after every
/// handle whose priority does not exceed it.
pub open spec fn insert_pos(list: Seq<Library>, idx: i64) -> int
    decreases list.len(),
{
    if list.len() == 0 {
        0
    } else if list[0].index > idx {
        0
    } else {
        1 + insert_pos(list.drop_first(), idx)
    }
}

/// `insert_pos` splits the list at the last handle whose priority does
/// not exceed `idx`.
pub proof fn lemma_insert_pos(list: Seq<Library>, idx: i64)
    ensures
        0 <= insert_pos(list, idx) <= list.len(),
        forall|i: int| #![trigger list[i]] 0 <= i < insert_pos(list, idx) ==> list[i].index <= idx,
        forall|i: int| #![trigger list[i]] insert_pos(list, idx) <= i < list.len() ==> list[i].index
            > idx || i > insert_pos(list, idx),
        insert_pos(list, idx) < list.len() ==> list[insert_pos(list, idx)].index > idx,
    decreases list.len(),
{
    if list.len() > 0 && !(list[0].index > idx) {
        let t = list.drop_first();
        lemma_insert_pos(t, idx);
        assert(forall|i: int| 0 <= i < t.len() ==> t[i] == list[i + 1]);
        assert(forall|i: int| #![trigger list[i]] 1 <= i < list.len() ==> list[i] == t[i - 1]);
    }
}

/// What mounting `lib` does to the handle list: any handle of the same
/// stem leaves, then `lib` enters at its priority's position.
pub open spec fn spec_mount(list: Seq<Library>, lib: Library) -> Seq<Library> {
    let cleaned = if first_stem_index(list, lib.spec_stem()) >= 0 {
        list.remove(first_stem_index(list, lib.spec_stem()))
    } else {
        list
    };
    cleaned.insert(insert_pos(cleaned, lib.index), lib)
}

/// The registry: the shared state blob and the mounted handles.
#[derive(Debug)]
pub struct Compositer {
    /// The state blob every plugin reads.
    pub state: LibraryState,
    /// The mounted handles, sorted ascending by priority, at most one per
    /// stem.
    pub list: Vec<Library>,
}

impl Compositer {
    /// The registry invariant: the blob keeps its dimensions, the list is
    /// sorted by priority and holds at most one handle per stem.
    pub open spec fn wf(&self) -> bool {
        &&& self.state.wf()
        &&& sorted(self.list@)
        &&& unique_stems(self.list@)
    }

    /// An empty registry with a default blob.
    pub fn new() -> (r: Compositer)
        ensures
            r.wf(),
            r.list@.len() == 0,
            r.state.unmount == 0,
            r.state.lock == 0,
    {
        Compositer { state: LibraryState::default(), list: Vec::new() }
    }

    /// The shared state blob.
    pub fn get_state(&self) -> (r: &LibraryState)
        ensures
            r == &self.state,
    {
        &self.state
    }

    /// Writes `message` into the tooltip buffer.
    pub fn set_message(&mut self, message: String)
        requires
            old(self).wf(),
        ensures
            final(self).wf(),
            final(self).list == old(self).list,
            final(self).state.persona == old(self).state.persona,
            final(self).state.unmount == old(self).state.unmount,
            final(self).state.lock == old(self).state.lock,
            final(self).state.tooltip.cardinal == old(self).state.tooltip.cardinal,
            forall|i: int| 0 <= i < crate::tooltip::SPEC_MESSAGE
                ==> #[trigger] final(self).state.tooltip.message@[i] == (crate::tooltip::Character {
                    glyph: if i < message@.len() {
                        message@[i]
                    } else {
                        '\0'
                    },
                }),
    {
        self.state.set_tooltip_message(message);
    }

    /// Writes `message` into the tooltip buffer.
    pub fn set_tooltip_message(&mut self, message: String)
        requires
            old(self).wf(),
        ensures
            final(self).wf(),
            final(self).list == old(self).list,
            final(self).state.persona == old(self).state.persona,
            final(self).state.unmount == old(self).state.unmount,
            final(self).state.lock == old(self).state.lock,
            final(self).state.tooltip.cardinal == old(self).state.tooltip.cardinal,
            forall|i: int| 0 <= i < crate::tooltip::SPEC_MESSAGE
                ==> #[trigger] final(self).state.tooltip.message@[i] == (crate::tooltip::Character {
                    glyph: if i < message@.len() {
                        message@[i]
                    } else {
                        '\0'
                    },
                }),
    {
        self.state.set_tooltip_message(message);
    }

    /// Moves the tooltip to a side of the persona.
    pub fn set_tooltip_cardinal(&mut self, cardinal: crate::tooltip::Relative)
        ensures
            final(self).list == old(self).list,
            final(self).state.tooltip.cardinal == cardinal,
            final(self).state.tooltip.message == old(self).state.tooltip.message,
            final(self).state.persona == old(self).state.persona,
            final(self).state.unmount == old(self).state.unmount,
            final(self).state.lock == old(self).state.lock,
    {
        self.state.set_tooltip_cardinal(cardinal);
    }

    /// Selects the persona's sheet.
    pub fn set_persona_sheet(&mut self, sheet: crate::persona::Sheet)
        ensures
            final(self).list == old(self).list,
            final(self).state.persona.sheet == sheet,
            final(self).state.persona.emotion == old(self).state.persona.emotion,
            final(self).state.persona.position == old(self).state.persona.position,
            final(self).state.tooltip == old(self).state.tooltip,
            final(self).state.unmount == old(self).state.unmount,
            final(self).state.lock == old(self).state.lock,
    {
        self.state.set_persona_sheet(sheet);
    }

    /// Moves the persona.
    pub fn set_persona_position(&mut self, position: crate::persona::Position)
        ensures
            final(self).list == old(self).list,
            final(self).state.persona.position == position,
            final(self).state.persona.sheet == old(self).state.persona.sheet,
            final(self).state.persona.emotion == old(self).state.persona.emotion,
            final(self).state.tooltip == old(self).state.tooltip,
            final(self).state.unmount == old(self).state.unmount,
            final(self).state.lock == old(self).state.lock,
    {
        self.state.set_persona_position(position);
    }

    /// Removes the handle whose artifact stem is `name`;
    /// `UnmountPosition` when none is mounted under that name.
    pub fn unmount(&mut self, name: &str) -> (r: Result<(), CompositerError>)
        requires
            old(self).wf(),
        ensures
            final(self).wf(),
            final(self).state == old(self).state,
            match r {
                Ok(()) => {
                    &&& has_stem(old(self).list@, name@)
                    &&& final(self).list@ == old(self).list@.remove(
                        first_stem_index(old(self).list@, name@),
                    )
                    &&& !has_stem(final(self).list@, name@)
                },
                Err(e) => {
                    &&& e is UnmountPosition
                    &&& !has_stem(old(self).list@, name@)
                    &&& final(self).list@ == old(self).list@
                },
            },
    {
        proof {
            lemma_first_stem_index(self.list@, name@);
        }
        let n: usize = self.list.len();
        let mut i: usize = 0;
        while i < n
            invariant
                i <= n,
                n == self.list@.len(),
                *self == *old(self),
                old(self).wf(),
                forall|k: int| #![trigger self.list@[k]] 0 <= k < i ==> self.list@[k].spec_stem()
                    != name@,
            decreases n - i,
        {
            let stem: String = crate::identifier::file_stem(self.list[i].as_path_buf().as_str());
            if crate::text::str_eq(stem.as_str(), name) {
                proof {
                    lemma_first_stem_index(self.list@, name@);
                    let f = first_stem_index(self.list@, name@);
                    if f == -1 {
                        assert(has_stem(self.list@, name@));
                        assert(false);
                    }
                    if f < i as int {
                        assert(self.list@[f].spec_stem() != name@);
                        assert(false);
                    }
                    if f > i as int {
                        assert(self.list@[i as int].spec_stem() != name@);
                        assert(false);
                    }
                }
                let ghost pre = self.list@;
                self.list.remove(i);
                proof {
                    assert(forall|a: int, b: int| 0 <= a < b < self.list@.len()
                        ==> #[trigger] self.list@[a].index <= #[trigger] self.list@[b].index) by {
                        assert(forall|a: int| 0 <= a < i ==> self.list@[a] == pre[a]);
                        assert(forall|a: int| i <= a < self.list@.len() ==> self.list@[a] == pre[a
                            + 1]);
                    }
                    assert(unique_stems(self.list@)) by {
                        assert(forall|a: int| 0 <= a < i ==> self.list@[a] == pre[a]);
                        assert(forall|a: int| i <= a < self.list@.len() ==> self.list@[a] == pre[a
                            + 1]);
                    }
                    assert(!has_stem(self.list@, name@)) by {
                        if has_stem(self.list@, name@) {
                            let w = choose|k: int| 0 <= k < self.list@.len()
                                && self.list@[k].spec_stem() == name@;
                            if w < i as int {
                                assert(pre[w].spec_stem() == name@);
                            } else {
                                assert(pre[w + 1].spec_stem() == name@);
                            }
                        }
                    }
                }
                return Ok(());
            }
            i = i + 1;
        }
        proof {
            if has_stem(self.list@, name@) {
                let w = choose|k: int| 0 <= k < self.list@.len() && self.list@[k].spec_stem()
                    == name@;
                assert(self.list@[w].spec_stem() != name@);
                assert(false);
            }
        }
        Err(CompositerError::UnmountPosition)
    }

    /// Mounts a fresh handle: any handle of the same stem leaves first,
    /// then the handle enters at its priority's position, so the list
    /// stays sorted and holds exactly one handle of that stem.
    #[verifier::rlimit(50)]
    pub fn mount(&mut self, lib: Library)
        requires
            old(self).wf(),
        ensures
            final(self).wf(),
            final(self).state == old(self).state,
            final(self).list@ == spec_mount(old(self).list@, lib),
            has_stem(final(self).list@, lib.spec_stem()),
    {
        proof {
            lemma_first_stem_index(old(self).list@, lib.spec_stem());
        }
        let stem: String = crate::identifier::file_stem(lib.as_path_buf().as_str());
        let _ = self.unmount(stem.as_str());
        let ghost cleaned = self.list@;
        proof {
            lemma_insert_pos(cleaned, lib.index);
        }
        let n: usize = self.list.len();
        let mut p: usize = 0;
        while p < n && self.list[p].get_priority() <= lib.index
            invariant
                p <= n,
                n == self.list@.len(),
                self.list@ == cleaned,
                forall|k: int| #![trigger self.list@[k]] 0 <= k < p ==> self.list@[k].index
                    <= lib.index,
            decreases n - p,
        {
            p = p + 1;
        }
        proof {
            lemma_insert_pos(cleaned, lib.index);
            let q = insert_pos(cleaned, lib.index);
            if q < p as int {
                assert(cleaned[q].index <= lib.index);
                assert(cleaned[q].index > lib.index);
                assert(false);
            }
            if q > p as int {
                assert(cleaned[p as int].index <= lib.index);
                assert(false);
            }
        }
        self.list.insert(p, lib);
        proof {
            let post = self.list@;
            assert(sorted(post)) by {
                assert(forall|a: int| 0 <= a < p ==> post[a] == cleaned[a]);
                assert(forall|a: int| p < a < post.len() ==> post[a] == cleaned[a - 1]);
                assert(post[p as int] == lib);
            }
            assert(unique_stems(post)) by {
                assert(forall|a: int| 0 <= a < p ==> post[a] == cleaned[a]);
                assert(forall|a: int| p < a < post.len() ==> post[a] == cleaned[a - 1]);
                assert(post[p as int] == lib);
                assert(!has_stem(cleaned, lib.spec_stem()));
                assert(forall|a: int| 0 <= a < cleaned.len() ==> (#[trigger] cleaned[a]).spec_stem()
                    != lib.spec_stem());
            }
            assert(post[p as int].spec_stem() == lib.spec_stem());
        }
    }

    /// The dispatch plan of one pass: for each mounted handle in priority
    /// order, the callback the event selects, where its symbol resolved.
    /// The host performs each step, watching the blob's unmount flag
    /// between steps, then calls `prune`.
    pub fn call(&self, event: &Event) -> (plan: Vec<DispatchStep>)
        ensures
            plan@ == spec_plan(self.list@, *event),
    {
        let mut plan: Vec<DispatchStep> = Vec::new();
        let n: usize = self.list.len();
        let mut i: usize = 0;
        while i < n
            invariant
                i <= n,
                n == self.list@.len(),
                plan@ == spec_plan(self.list@.subrange(0, i as int), *event),
            decreases n - i,
        {
            let step: Option<Callback> = self.list[i].call(event);
            proof {
                assert(self.list@.subrange(0, i + 1).drop_last() =~= self.list@.subrange(
                    0,
                    i as int,
                ));
                assert(self.list@.subrange(0, i + 1).last() == self.list@[i as int]);
            }
            if let Some(c) = step {
                plan.push(
                    DispatchStep { slot: i, handle: self.list[i].handle, callback: c },
                );
            }
            i = i + 1;
        }
        proof {
            assert(self.list@.subrange(0, n as int) =~= self.list@);
        }
        plan
    }

    /// Marks the handle in `slot` as self-unmounted: the host calls this
    /// when it observes the blob's unmount flag set after that handle's
    /// step, then clears the flag.
    pub fn mark_unmounted(&mut self, slot: usize)
        requires
            old(self).wf(),
            slot < old(self).list@.len(),
        ensures
            final(self).wf(),
            final(self).state == old(self).state,
            final(self).list@ == old(self).list@.update(
                slot as int,
                Library {
                    unmounted: true,
                    ..old(self).list@[slot as int]
                },
            ),
    {
        self.list[slot].unmounted = true;
        proof {
            let pre = old(self).list@;
            let post = self.list@;
            assert(post =~= pre.update(
                slot as int,
                Library { unmounted: true, ..pre[slot as int] },
            ));
            assert(sorted(post)) by {
                assert(forall|a: int| #![trigger post[a]] 0 <= a < post.len() ==> post[a].index
                    == pre[a].index);
            }
            assert(unique_stems(post)) by {
                assert(forall|a: int| #![trigger post[a]] 0 <= a < post.len()
                    ==> post[a].spec_stem() == pre[a].spec_stem());
            }
        }
    }

    /// Ends the pass: every handle marked self-unmounted leaves the
    /// registry, in order; the kept handles stay in order. The removed
    /// handles are returned so the host can run their `end` callbacks and
    /// release their shared objects.
    pub fn prune(&mut self) -> (ended: Vec<Library>)
        requires
            old(self).wf(),
        ensures
            final(self).wf(),
            final(self).state == old(self).state,
            final(self).list@ == old(self).list@.filter(|l: Library| !l.unmounted),
            ended@ == old(self).list@.filter(|l: Library| l.unmounted),
    {
        let ghost pre = self.list@;
        let total: usize = self.list.len();
        let mut kept: Vec<Library> = Vec::new();
        let mut ended: Vec<Library> = Vec::new();
        let mut i: usize = 0;
        while self.list.len() > 0
            invariant
                i <= pre.len(),
                pre.len() == total,
                self.list@ == pre.subrange(i as int, pre.len() as int),
                self.state == old(self).state,
                kept@ == pre.subrange(0, i as int).filter(|l: Library| !l.unmounted),
                ended@ == pre.subrange(0, i as int).filter(|l: Library| l.unmounted),
            decreases self.list@.len(),
        {
            proof {
                assert(pre.subrange(i as int, pre.len() as int).len() > 0);
            }
            let l: Library = self.list.remove(0);
            proof {
                assert(l == pre[i as int]);
                assert(pre.subrange(i as int, pre.len() as int).drop_first() =~= pre.subrange(
                    i + 1,
                    pre.len() as int,
                ));
                assert(pre.subrange(0, i + 1).drop_last() =~= pre.subrange(0, i as int));
                assert(pre.subrange(0, i + 1).last() == pre[i as int]);
                reveal(Seq::filter);
            }
            if l.is_unmounted() {
                ended.push(l);
            } else {
                kept.push(l);
            }
            i = i + 1;
        }
        proof {
            assert(pre.subrange(0, pre.len() as int) =~= pre);
            lemma_filter_keeps_order(pre, |l: Library| !l.unmounted);
        }
        self.list = kept;
        ended
    }
}

/// One step of a dispatch pass: which handle (by its position and token)
/// runs which callback.
#[derive(Clone, Copy, Debug, PartialEq, Eq, Structural)]
pub struct DispatchStep {
    /// The handle's position in the registry list.
    pub slot: usize,
    /// The host's token for the handle's shared object.
    pub handle: u64,
    /// The callback to run.
    pub callback: Callback,
}

/// The dispatch plan: one step per handle whose shared object resolved
/// the callback that the event selects, in list order.
pub open spec fn spec_plan(list: Seq<Library>, e: Event) -> Seq<DispatchStep>
    decreases list.len(),
{
    if list.len() == 0 {
        Seq::empty()
    } else {
        let head = spec_plan(list.drop_last(), e);
        match crate::library::dispatch_of(list.last().callbacks, e) {
            Some(c) => head.push(
                DispatchStep {
                    slot: (list.len() - 1) as usize,
                    handle: list.last().handle,
                    callback: c,
                },
            ),
            None => head,
        }
    }
}

/// A dispatch pass runs at most one callback per mounted handle: the plan
/// is no longer than the list, its steps name strictly increasing slots
/// (so no handle twice), and each step's callback is what the event
/// selects for that handle.
pub proof fn lemma_call_at_most_one(list: Seq<Library>, e: Event)
    requires
        list.len() <= usize::MAX,
    ensures
        spec_plan(list, e).len() <= list.len(),
        forall|a: int, b: int| 0 <= a < b < spec_plan(list, e).len() ==> (#[trigger] spec_plan(
            list,
            e,
        )[a]).slot < (#[trigger] spec_plan(list, e)[b]).slot,
        forall|k: int| #![trigger spec_plan(list, e)[k]] 0 <= k < spec_plan(list, e).len() ==> {
            &&& spec_plan(list, e)[k].slot < list.len()
            &&& crate::library::dispatch_of(list[spec_plan(list, e)[k].slot as int].callbacks, e)
                == Some(spec_plan(list, e)[k].callback)
            &&& spec_plan(list, e)[k].handle == list[spec_plan(list, e)[k].slot as int].handle
        },
    decreases list.len(),
{
    if list.len() > 0 {
        let d = list.drop_last();
        lemma_call_at_most_one(d, e);
        assert(forall|i: int| 0 <= i < d.len() ==> d[i] == list[i]);
        let head = spec_plan(d, e);
        let out = spec_plan(list, e);
        match crate::library::dispatch_of(list.last().callbacks, e) {
            Some(c) => {
                let step = DispatchStep {
                    slot: (list.len() - 1) as usize,
                    handle: list.last().handle,
                    callback: c,
                };
                assert(out == head.push(step));
                assert forall|k: int| 0 <= k < out.len() implies {
                    &&& (#[trigger] out[k]).slot < list.len()
                    &&& crate::library::dispatch_of(list[out[k].slot as int].callbacks, e)
                        == Some(out[k].callback)
                    &&& out[k].handle == list[out[k].slot as int].handle
                } by {
                    if k < out.len() - 1 {
                        assert(out[k] == head[k]);
                        assert(head[k].slot < d.len());
                        assert(list[head[k].slot as int] == d[head[k].slot as int]);
                    } else {
                        assert(out[k] == step);
                        assert(list[out[k].slot as int] == list.last());
                    }
                }
                assert forall|a: int, b: int| 0 <= a < b < out.len() implies (#[trigger] out[a]).slot
                    < (#[trigger] out[b]).slot by {
                    if b < out.len() - 1 {
                        assert(out[a] == head[a] && out[b] == head[b]);
                    } else {
                        assert(out[a] == head[a]);
                        assert(head[a].slot < d.len());
                        assert(out[b] == step);
                    }
                }
            },
            None => {
                assert(out == head);
                assert forall|k: int| 0 <= k < out.len() implies {
                    &&& (#[trigger] out[k]).slot < list.len()
                    &&& crate::library::dispatch_of(list[out[k].slot as int].callbacks, e)
                        == Some(out[k].callback)
                    &&& out[k].handle == list[out[k].slot as int].handle
                } by {
                    assert(out[k] == head[k]);
                    assert(head[k].slot < d.len());
                    assert(list[head[k].slot as int] == d[head[k].slot as int]);
                }
            },
        }
    }
}

/// Filtering the handle list keeps its order and stem-uniqueness, and
/// invents no handle.
pub proof fn lemma_filter_keeps_order(list: Seq<Library>, pred: spec_fn(Library) -> bool)
    requires
        sorted(list),
        unique_stems(list),
    ensures
        sorted(list.filter(pred)),
        unique_stems(list.filter(pred)),
        forall|i: int| 0 <= i < list.filter(pred).len() ==> list.contains(
            #[trigger] list.filter(pred)[i],
        ),
    decreases list.len(),
{
    reveal(Seq::filter);
    if list.len() > 0 {
        let d = list.drop_last();
        assert(forall|i: int| 0 <= i < d.len() ==> d[i] == list[i]);
        lemma_filter_keeps_order(d, pred);
        let fd = d.filter(pred);
        assert(forall|i: int| 0 <= i < fd.len() ==> d.contains(#[trigger] fd[i]));
        assert(forall|x: Library| d.contains(x) ==> list.contains(x)) by {
            assert(forall|k: int| 0 <= k < d.len() ==> d[k] == list[k]);
        }
        if pred(list.last()) {
            let out = list.filter(pred);
            assert(out == fd.push(list.last()));
            assert forall|a: int, b: int| 0 <= a < b < out.len() implies (#[trigger] out[a]).index
                <= (#[trigger] out[b]).index by {
                if b < out.len() - 1 {
                    assert(out[a] == fd[a] && out[b] == fd[b]);
                } else {
                    assert(out[b] == list.last());
                    assert(d.contains(fd[a]));
                    let w = choose|k: int| 0 <= k < d.len() && d[k] == fd[a];
                    assert(list[w].index <= list[list.len() - 1].index);
                }
            }
            assert forall|a: int, b: int| 0 <= a < b < out.len() implies (#[trigger] out[a]).spec_stem()
                != (#[trigger] out[b]).spec_stem() by {
                if b < out.len() - 1 {
                    assert(out[a] == fd[a] && out[b] == fd[b]);
                } else {
                    assert(out[b] == list.last());
                    assert(d.contains(fd[a]));
                    let w = choose|k: int| 0 <= k < d.len() && d[k] == fd[a];
                    assert(list[w].spec_stem() != list[list.len() - 1].spec_stem());
                }
            }
            assert forall|i: int| 0 <= i < out.len() implies list.contains(#[trigger] out[i]) by {
                if i < out.len() - 1 {
                    assert(out[i] == fd[i]);
                    assert(list.contains(fd[i]));
                } else {
                    assert(out[i] == list[list.len() - 1]);
                }
            }
        }
    }
}

/// Removing the one handle of a stem leaves no handle of that stem: a
/// second `unmount` of the same name always answers `UnmountPosition`.
pub proof fn lemma_unmount_twice(list: Seq<Library>, name: Seq<char>)
    requires
        unique_stems(list),
    ensures
        has_stem(list, name) ==> !has_stem(
            list.remove(first_stem_index(list, name)),
            name,
        ),
    decreases list.len(),
{
    lemma_first_stem_index(list, name);
    if has_stem(list, name) {
        let f = first_stem_index(list, name);
        let removed = list.remove(f);
        if has_stem(removed, name) {
            let w = choose|i: int| 0 <= i < removed.len() && (#[trigger] removed[i]).spec_stem()
                == name;
            if w < f {
                assert(removed[w] == list[w]);
                assert(list[w].spec_stem() != list[f].spec_stem());
            } else {
                assert(removed[w] == list[w + 1]);
                assert(list[f].spec_stem() != list[w + 1].spec_stem());
            }
            assert(false);
        }
    }
}

/// Mounting keeps the registry laws: the result is sorted by priority,
/// holds no stem twice, and holds exactly one handle of the mounted stem
/// — the new handle itself.
pub proof fn lemma_spec_mount(list: Seq<Library>, lib: Library)
    requires
        sorted(list),
        unique_stems(list),
    ensures
        sorted(spec_mount(list, lib)),
        unique_stems(spec_mount(list, lib)),
        has_stem(spec_mount(list, lib), lib.spec_stem()),
        forall|i: int| 0 <= i < spec_mount(list, lib).len() && (#[trigger] spec_mount(
            list,
            lib,
        )[i]).spec_stem() == lib.spec_stem() ==> spec_mount(list, lib)[i] == lib,
{
    lemma_first_stem_index(list, lib.spec_stem());
    let f = first_stem_index(list, lib.spec_stem());
    let cleaned = if f >= 0 {
        list.remove(f)
    } else {
        list
    };
    if f >= 0 {
        assert(forall|a: int| #![trigger cleaned[a]] 0 <= a < f ==> cleaned[a] == list[a]);
        assert(forall|a: int| #![trigger cleaned[a]] f <= a < cleaned.len() ==> cleaned[a] == list[
            a + 1
        ]);
        assert(sorted(cleaned));
        assert(unique_stems(cleaned));
        lemma_unmount_twice(list, lib.spec_stem());
        assert(!has_stem(cleaned, lib.spec_stem()));
    }
    assert(!has_stem(cleaned, lib.spec_stem()));
    assert(forall|a: int| 0 <= a < cleaned.len() ==> (#[trigger] cleaned[a]).spec_stem()
        != lib.spec_stem());
    lemma_insert_pos(cleaned, lib.index);
    let q = insert_pos(cleaned, lib.index);
    let out = cleaned.insert(q, lib);
    assert(out == spec_mount(list, lib));
    assert(forall|a: int| #![trigger out[a]] 0 <= a < q ==> out[a] == cleaned[a]);
    assert(forall|a: int| #![trigger out[a]] q < a < out.len() ==> out[a] == cleaned[a - 1]);
    assert(out[q] == lib);
    assert(sorted(out)) by {
        assert forall|a: int, b: int| 0 <= a < b < out.len() implies (#[trigger] out[a]).index
            <= (#[trigger] out[b]).index by {
            if a < q && b < q {
            } else if a == q && b > q {
                assert(cleaned[b - 1].index > lib.index);
            } else if a < q && b == q {
                assert(cleaned[a].index <= lib.index);
            }
        }
    }
    assert(unique_stems(out)) by {
        assert forall|a: int, b: int| 0 <= a < b < out.len() implies (#[trigger] out[a]).spec_stem()
            != (#[trigger] out[b]).spec_stem() by {
            if a == q {
                assert(out[b] == cleaned[b - 1]);
            } else if b == q {
                assert(out[a] == cleaned[a]);
            }
        }
    }
    assert(has_stem(out, lib.spec_stem())) by {
        assert(out[q].spec_stem() == lib.spec_stem());
    }
    assert forall|i: int| 0 <= i < out.len() && (#[trigger] out[i]).spec_stem() == lib.spec_stem()
        implies out[i] == lib by {
        if i < q {
            assert(out[i] == cleaned[i]);
            assert(false);
        } else if i > q {
            assert(out[i] == cleaned[i - 1]);
            assert(false);
        }
    }
}

/// Mounting a name once with one priority and again with another leaves
/// exactly one handle of that name, and it carries the second priority;
/// the list stays sorted ascending by priority.
pub proof fn lemma_mount_twice(list: Seq<Library>, first: Library, second: Library)
    requires
        sorted(list),
        unique_stems(list),
        first.spec_stem() == second.spec_stem(),
    ensures
        ({
            let out = spec_mount(spec_mount(list, first), second);
            &&& sorted(out)
            &&& unique_stems(out)
            &&& has_stem(out, second.spec_stem())
            &&& forall|i: int| 0 <= i < out.len() && (#[trigger] out[i]).spec_stem()
                == second.spec_stem() ==> out[i] == second
        }),
{
    lemma_spec_mount(list, first);
    lemma_spec_mount(spec_mount(list, first), second);
}

/// A handle that asked to be unmounted during a pass is absent from the
/// registry right after the pass is pruned.
pub proof fn lemma_pass_unmounts(list: Seq<Library>, k: int)
    requires
        sorted(list),
        unique_stems(list),
        0 <= k < list.len(),
        list[k].unmounted,
    ensures
        !has_stem(list.filter(|l: Library| !l.unmounted), list[k].spec_stem()),
{
    let pred = |l: Library| !l.unmounted;
    lemma_filter_keeps_order(list, pred);
    let out = list.filter(pred);
    if has_stem(out, list[k].spec_stem()) {
        let w = choose|i: int| 0 <= i < out.len() && (#[trigger] out[i]).spec_stem()
            == list[k].spec_stem();
        Seq::lemma_filter_pred(list, pred, w);
        assert(list.contains(out[w]));
        let j = choose|i: int| 0 <= i < list.len() && list[i] == out[w];
        assert(!list[j].unmounted);
        assert(j != k);
        if j < k {
            assert(list[j].spec_stem() != list[k].spec_stem());
        } else {
            assert(list[k].spec_stem() != list[j].spec_stem());
        }
        assert(false);
    }
}

} // verus!
