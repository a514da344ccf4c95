//! Resolving the roots of a project on its host, and listing the host's directories.

use crate::path::{HostPath, PathModel, PathStyle};
use crate::session::{ProjectRoot, ProjectSpec, RootModel};
use vstd::prelude::*;

verus! {

/// The search for the nearest existing ancestor of a path. The names below it that do not exist
/// are kept, the deepest first.
#[derive(Debug)]
pub struct Canonicalization {
    pub path: HostPath,
    pub ancestor: HostPath,
    pub missing: Vec<String>,
}

/// A path extended by names, one after another.
pub open spec fn joined_names(base: PathModel, names: Seq<Seq<char>>) -> PathModel
    decreases names.len(),
{
    if names.len() == 0 {
        base
    } else {
        crate::path::joined_path(joined_names(base, names.drop_last()), names.last())
    }
}

/// Whether each of a list of texts is a single ordinary name, as a path can have.
pub open spec fn single_names(path: PathModel, names: Seq<Seq<char>>) -> bool {
    forall|i: int| 0 <= i < names.len() ==> crate::path::single_name(path, #[trigger] names[i])
}

/// Whether a path stays in its place while it is extended by names, one after another. On Unix it
/// always does.
pub open spec fn names_keep_place(base: PathModel, names: Seq<Seq<char>>) -> bool
    decreases names.len(),
{
    names.len() > 0 ==> names_keep_place(base, names.drop_last()) && crate::path::keeps_place(
        joined_names(base, names.drop_last()),
        names.last(),
    )
}

/// A path extended by names has those names after its own components.
pub proof fn law_joined_names_append(base: PathModel, names: Seq<Seq<char>>)
    requires
        single_names(base, names),
        names_keep_place(base, names),
    ensures
        crate::path::components(joined_names(base, names)) == crate::path::components(base) + names,
        joined_names(base, names).style == base.style,
        crate::path::is_verbatim(joined_names(base, names)) == crate::path::is_verbatim(base),
    decreases names.len(),
{
    if names.len() == 0 {
        assert(crate::path::components(base) + names =~= crate::path::components(base));
    } else {
        let front = names.drop_last();
        assert forall|i: int| 0 <= i < front.len() implies crate::path::single_name(
            base,
            #[trigger] front[i],
        ) by {
            assert(front[i] == names[i]);
        }
        assert(crate::path::single_name(base, names[names.len() - 1]));
        law_joined_names_append(base, front);
        crate::path::law_join_appends_the_name(joined_names(base, front), names.last());
        assert(crate::path::components(base) + names =~= (crate::path::components(base)
            + front).push(names.last()));
    }
}

/// On Unix a path stays in its place whatever it is extended by.
pub proof fn lemma_unix_names_keep_place(base: PathModel, names: Seq<Seq<char>>)
    requires
        base.style == PathStyle::Posix,
    ensures
        names_keep_place(base, names),
        joined_names(base, names).style == PathStyle::Posix,
    decreases names.len(),
{
    if names.len() > 0 {
        lemma_unix_names_keep_place(base, names.drop_last());
    }
}

impl Canonicalization {
    /// The missing names, from the one below the ancestor down.
    pub open spec fn missing_names(self) -> Seq<Seq<char>> {
        crate::text::texts(self.missing@).reverse()
    }

    /// The ancestor and the missing names make up the path.
    pub open spec fn well_formed(self) -> bool {
        single_names(self.path@, self.missing_names()) && self.ancestor@.style == self.path@.style
            && crate::path::prefix_of(self.ancestor@) == crate::path::prefix_of(self.path@)
            && crate::path::components(self.path@)
            == crate::path::components(self.ancestor@) + self.missing_names()
    }

    /// The search at the path itself.
    pub fn new(path: HostPath) -> (search: Self)
        ensures
            search.well_formed(),
            search.path@ == path@,
            search.ancestor@ == path@,
            search.missing@.len() == 0,
    {
        let search = Canonicalization { ancestor: path.clone(), path, missing: Vec::new() };
        assert(search.missing_names() =~= Seq::<Seq<char>>::empty());
        assert(crate::path::components(search.path@) =~= crate::path::components(
            search.ancestor@,
        ) + search.missing_names());
        search
    }

    /// Goes on to the parent after the ancestor turned out not to exist. Returns false, at the
    /// same place, where the ancestor has no name to leave off.
    pub fn step_up(&mut self) -> (result: bool)
        requires
            old(self).well_formed(),
        ensures
            final(self).well_formed(),
            final(self).path == old(self).path,
            match crate::path::file_name_of(old(self).ancestor@) {
                None => !result && *final(self) == *old(self),
                Some(name) => result && crate::path::parent_of(old(self).ancestor@) == Some(
                    final(self).ancestor@,
                ) && crate::text::texts(final(self).missing@) == crate::text::texts(
                    old(self).missing@,
                ).push(name) && crate::path::components(final(self).ancestor@).len()
                    < crate::path::components(old(self).ancestor@).len(),
            },
    {
        proof {
            crate::path::law_file_name_is_a_single_name(self.ancestor@);
            crate::path::law_parent_drops_the_last_component(self.ancestor@);
        }
        let name = match self.ancestor.file_name() {
            Some(name) => name,
            None => {
                return false;
            },
        };
        let parent = match self.ancestor.parent() {
            Some(parent) => parent,
            None => {
                return false;
            },
        };
        let ghost before = crate::text::texts(self.missing@);
        let ghost parts = crate::path::components(self.ancestor@);
        let ghost word = name@;
        self.missing.push(name);
        self.ancestor = parent;
        proof {
            assert(crate::text::texts(self.missing@) =~= before.push(word));
            let names = self.missing_names();
            assert(names =~= seq![word] + before.reverse());
            assert(parts.drop_last() + names =~= parts + before.reverse());
            assert forall|i: int| 0 <= i < names.len() implies crate::path::single_name(
                self.path@,
                #[trigger] names[i],
            ) by {
                if i > 0 {
                    assert(names[i] == before.reverse()[i - 1]);
                }
            }
        }
        true
    }

    /// The resolved path: the resolved ancestor, extended by the names that do not exist.
    pub fn finish(&self, canonical_ancestor: HostPath) -> (path: HostPath)
        ensures
            path@ == joined_names(canonical_ancestor@, self.missing_names()),
    {
        let ghost names = self.missing_names();
        let mut path = canonical_ancestor;
        let mut done: usize = 0;
        let count: usize = self.missing.len();
        assert(names.take(0) =~= Seq::<Seq<char>>::empty());
        while done < count
            invariant
                done <= count == self.missing@.len(),
                names == self.missing_names(),
                names.len() == count,
                path@ == joined_names(canonical_ancestor@, names.take(done as int)),
            decreases count - done,
        {
            let name = &self.missing[count - 1 - done];
            proof {
                assert(crate::text::texts(self.missing@)[count - 1 - done] == name@);
                assert(names[done as int] == name@);
                assert(names.take(done + 1).drop_last() =~= names.take(done as int));
                assert(names.take(done + 1).last() == name@);
            }
            path = path.join(name.as_str());
            done += 1;
        }
        assert(names.take(done as int) =~= names);
        path
    }
}

/// The components of a resolved path are those of the resolved ancestor and then the names that
/// do not exist.
pub proof fn law_canonicalization_keeps_missing_names(search: Canonicalization, canonical: PathModel)
    requires
        search.well_formed(),
        canonical.style == search.path@.style,
        canonical.style == PathStyle::Windows ==> single_names(canonical, search.missing_names())
            && names_keep_place(canonical, search.missing_names()),
    ensures
        crate::path::components(joined_names(canonical, search.missing_names()))
            == crate::path::components(canonical) + search.missing_names(),
        crate::path::components(search.path@) == crate::path::components(search.ancestor@)
            + search.missing_names(),
{
    if canonical.style == PathStyle::Posix {
        lemma_unix_names_keep_place(canonical, search.missing_names());
    }
    law_joined_names_append(canonical, search.missing_names());
}

/// A root as asked for, its resolved path, and whether that is a file.
#[derive(Debug)]
pub struct ResolvedPath {
    pub requested_path: HostPath,
    pub canonical_path: HostPath,
    pub is_file: bool,
}

#[verifier::ext_equal]
pub struct ResolvedModel {
    pub requested: PathModel,
    pub canonical: PathModel,
    pub is_file: bool,
}

impl View for ResolvedPath {
    type V = ResolvedModel;

    open spec fn view(&self) -> ResolvedModel {
        ResolvedModel {
            requested: self.requested_path@,
            canonical: self.canonical_path@,
            is_file: self.is_file,
        }
    }
}

/// The directory that a resolved path stands for: a file stands for its parent.
pub open spec fn root_directory(path: ResolvedModel) -> Option<PathModel> {
    if path.is_file {
        crate::path::parent_of(path.canonical)
    } else {
        Some(path.canonical)
    }
}

/// The roots once another path is resolved: it is left out where its directory is a root already.
pub open spec fn with_resolved(roots: Seq<RootModel>, path: ResolvedModel) -> Option<
    Seq<RootModel>,
> {
    match root_directory(path) {
        None => None,
        Some(canonical) => if crate::session::has_canonical(roots, canonical) {
            Some(roots)
        } else {
            Some(roots.push(RootModel { requested: path.requested, canonical }))
        },
    }
}

/// The roots that a list of resolved paths stands for, unless one is a file without a parent.
pub open spec fn resolved_roots(paths: Seq<ResolvedModel>) -> Option<Seq<RootModel>>
    decreases paths.len(),
{
    if paths.len() == 0 {
        Some(Seq::<RootModel>::empty())
    } else {
        match resolved_roots(paths.drop_last()) {
            None => None,
            Some(roots) => with_resolved(roots, paths.last()),
        }
    }
}

/// No two resolved roots have the same canonical path, and each stands for one of the paths.
pub proof fn law_resolved_roots_are_distinct(paths: Seq<ResolvedModel>)
    ensures
        resolved_roots(paths) matches Some(roots) ==> {
            &&& forall|i: int, j: int|
                0 <= i < j < roots.len() ==> !crate::path::same_path(
                    (#[trigger] roots[i]).canonical,
                    (#[trigger] roots[j]).canonical,
                )
            &&& forall|i: int|
                0 <= i < roots.len() ==> exists|k: int|
                    0 <= k < paths.len() && #[trigger] paths[k].requested == (
                    #[trigger] roots[i]).requested && root_directory(paths[k]) == Some(
                        roots[i].canonical,
                    )
        },
    decreases paths.len(),
{
    if paths.len() > 0 {
        let front = paths.drop_last();
        law_resolved_roots_are_distinct(front);
        if let Some(roots) = resolved_roots(paths) {
            let earlier = resolved_roots(front)->0;
            assert forall|i: int, j: int| 0 <= i < j < roots.len() implies !crate::path::same_path(
                (#[trigger] roots[i]).canonical,
                (#[trigger] roots[j]).canonical,
            ) by {
                assert(roots[i] == earlier[i]);
                if j < earlier.len() {
                    assert(roots[j] == earlier[j]);
                } else {
                    assert(!crate::session::has_canonical(earlier, roots[j].canonical));
                }
            }
            assert forall|i: int| 0 <= i < roots.len() implies exists|k: int|
                0 <= k < paths.len() && #[trigger] paths[k].requested == (
                #[trigger] roots[i]).requested && root_directory(paths[k]) == Some(
                    roots[i].canonical,
                ) by {
                if i < earlier.len() {
                    assert(roots[i] == earlier[i]);
                    let k = choose|k: int|
                        0 <= k < front.len() && #[trigger] front[k].requested
                            == earlier[i].requested && root_directory(front[k]) == Some(
                            earlier[i].canonical,
                        );
                    assert(paths[k] == front[k]);
                    assert(paths[k].requested == roots[i].requested);
                } else {
                    assert(paths[paths.len() - 1].requested == roots[i].requested);
                }
            }
        }
    }
}

/// Absolute paths that resolve to absolute ones make well-formed roots.
pub proof fn law_resolved_roots_are_valid(paths: Seq<ResolvedModel>)
    requires
        forall|i: int|
            0 <= i < paths.len() ==> crate::path::absolute((#[trigger] paths[i]).requested)
                && crate::path::absolute(paths[i].canonical),
    ensures
        resolved_roots(paths) matches Some(roots) ==> crate::session::roots_valid(roots),
{
    law_resolved_roots_are_distinct(paths);
    if let Some(roots) = resolved_roots(paths) {
        assert forall|i: int| 0 <= i < roots.len() implies crate::path::absolute(
            (#[trigger] roots[i]).requested,
        ) && crate::path::absolute(roots[i].canonical) by {
            let k = choose|k: int|
                0 <= k < paths.len() && #[trigger] paths[k].requested == roots[i].requested
                    && root_directory(paths[k]) == Some(roots[i].canonical);
            assert(crate::path::absolute(paths[k].requested));
            crate::path::law_parent_of_absolute_is_absolute(paths[k].canonical);
        }
    }
}

/// Every path is covered: where roots are resolved, some root is the directory of each path, which
/// is the resolved path itself or, for a file, its parent. Roots are resolved unless some path is a
/// file without a parent.
pub proof fn law_every_path_is_in_a_root(paths: Seq<ResolvedModel>)
    ensures
        resolved_roots(paths) is None <==> exists|k: int|
            0 <= k < paths.len() && (#[trigger] paths[k]).is_file && crate::path::parent_of(
                paths[k].canonical,
            ) is None,
        resolved_roots(paths) matches Some(roots) ==> forall|k: int|
            0 <= k < paths.len() ==> exists|i: int|
                0 <= i < roots.len() && crate::path::same_path(
                    (#[trigger] roots[i]).canonical,
                    if (#[trigger] paths[k]).is_file {
                        crate::path::parent_of(paths[k].canonical)->0
                    } else {
                        paths[k].canonical
                    },
                ),
    decreases paths.len(),
{
    if paths.len() > 0 {
        let earlier = paths.drop_last();
        let last = paths.last();
        law_every_path_is_in_a_root(earlier);
        assert(paths[paths.len() - 1] == last);
        if resolved_roots(earlier) is None {
            let k = choose|k: int|
                0 <= k < earlier.len() && (#[trigger] earlier[k]).is_file && crate::path::parent_of(
                    earlier[k].canonical,
                ) is None;
            assert(paths[k] == earlier[k]);
        } else {
            let before = resolved_roots(earlier)->0;
            assert forall|k: int| 0 <= k < earlier.len() implies !((#[trigger] paths[k]).is_file
                && crate::path::parent_of(paths[k].canonical) is None) by {
                assert(earlier[k] == paths[k]);
            }
            if resolved_roots(paths) is Some {
                let roots = resolved_roots(paths)->0;
                assert forall|k: int| 0 <= k < paths.len() implies exists|i: int|
                    0 <= i < roots.len() && crate::path::same_path(
                        (#[trigger] roots[i]).canonical,
                        if (#[trigger] paths[k]).is_file {
                            crate::path::parent_of(paths[k].canonical)->0
                        } else {
                            paths[k].canonical
                        },
                    ) by {
                    let directory = if paths[k].is_file {
                        crate::path::parent_of(paths[k].canonical)->0
                    } else {
                        paths[k].canonical
                    };
                    if k < earlier.len() {
                        assert(earlier[k] == paths[k]);
                        let i = choose|i: int|
                            0 <= i < before.len() && crate::path::same_path(
                                (#[trigger] before[i]).canonical,
                                directory,
                            );
                        assert(roots[i] == before[i]);
                    } else if crate::session::has_canonical(before, directory) {
                        let i = choose|i: int|
                            0 <= i < before.len() && crate::path::same_path(
                                (#[trigger] before[i]).canonical,
                                directory,
                            );
                        assert(roots[i] == before[i]);
                    } else {
                        crate::path::law_same_path_is_an_equivalence(
                            directory,
                            directory,
                            directory,
                        );
                        assert(roots[before.len() as int].canonical == directory);
                    }
                }
            }
        }
    }
}

/// Whether the directory of a path, which is the path itself or the parent of a file, is a certain
/// one.
pub open spec fn lies_in(path: ResolvedModel, directory: PathModel) -> bool {
    crate::path::same_path(
        if path.is_file {
            crate::path::parent_of(path.canonical)->0
        } else {
            path.canonical
        },
        directory,
    )
}

proof fn lemma_roots_are_directories(paths: Seq<ResolvedModel>, directory: PathModel)
    requires
        resolved_roots(paths) is Some,
    ensures
        crate::session::has_canonical(resolved_roots(paths)->0, directory) <==> exists|k: int|
            0 <= k < paths.len() && lies_in(#[trigger] paths[k], directory),
    decreases paths.len(),
{
    let roots = resolved_roots(paths)->0;
    if paths.len() > 0 {
        let earlier = paths.drop_last();
        let before = resolved_roots(earlier)->0;
        let last = paths.last();
        let own = root_directory(last)->0;
        lemma_roots_are_directories(earlier, directory);
        assert(paths[paths.len() - 1] == last);
        crate::path::law_same_path_is_an_equivalence(own, directory, own);
        if crate::session::has_canonical(before, directory) {
            let i = choose|i: int|
                0 <= i < before.len() && crate::path::same_path(
                    (#[trigger] before[i]).canonical,
                    directory,
                );
            assert(roots[i] == before[i]);
            let k = choose|k: int|
                0 <= k < earlier.len() && lies_in(#[trigger] earlier[k], directory);
            assert(lies_in(paths[k], directory));
        } else {
            assert forall|k: int| 0 <= k < earlier.len() implies !lies_in(
                #[trigger] paths[k],
                directory,
            ) by {
                assert(earlier[k] == paths[k]);
            }
            if lies_in(last, directory) {
                if crate::session::has_canonical(before, own) {
                    let i = choose|i: int|
                        0 <= i < before.len() && crate::path::same_path(
                            (#[trigger] before[i]).canonical,
                            own,
                        );
                    crate::path::law_same_path_is_an_equivalence(
                        before[i].canonical,
                        own,
                        directory,
                    );
                    assert(crate::path::same_path(before[i].canonical, directory));
                }
                assert(roots[before.len() as int].canonical == own);
                assert(crate::session::has_canonical(roots, directory));
            } else {
                assert forall|i: int| 0 <= i < roots.len() implies !crate::path::same_path(
                    (#[trigger] roots[i]).canonical,
                    directory,
                ) by {
                    if i < before.len() {
                        assert(roots[i] == before[i]);
                    }
                }
            }
        }
    }
}

/// Roots stand in the order in which their directories first come, each as the first path of the
/// directory asks for it: a path whose directory did not come before adds a root behind those of
/// the earlier paths, any other path adds nothing.
pub proof fn law_first_path_names_the_root(paths: Seq<ResolvedModel>, next: ResolvedModel)
    requires
        resolved_roots(paths.push(next)) is Some,
    ensures
        ({
            let directory = if next.is_file {
                crate::path::parent_of(next.canonical)->0
            } else {
                next.canonical
            };
            &&& resolved_roots(paths) is Some
            &&& if exists|k: int| 0 <= k < paths.len() && lies_in(#[trigger] paths[k], directory) {
                resolved_roots(paths.push(next)) == resolved_roots(paths)
            } else {
                (resolved_roots(paths.push(next))->0) == (resolved_roots(paths)->0).push(
                    RootModel { requested: next.requested, canonical: directory },
                )
            }
        }),
{
    assert(paths.push(next).drop_last() =~= paths);
    lemma_roots_are_directories(paths, root_directory(next)->0);
}

/// Listing goes entry by entry: an entry with a name is listed under it, as a directory or not, and
/// one without a name is left out; the order stays.
pub proof fn law_entries_are_listed_by_name(entries: Seq<DirectoryEntry>, next: DirectoryEntry)
    ensures
        named_entries(Seq::<DirectoryEntry>::empty()).len() == 0,
        match crate::path::file_name_of(next.path@) {
            Some(name) => named_entries(entries.push(next)) == named_entries(entries).push(
                (name, next.is_dir),
            ),
            None => named_entries(entries.push(next)) == named_entries(entries),
        },
{
    assert(entries.push(next).drop_last() =~= entries);
}

/// Adds a resolved path to roots. Returns false, with the roots as they were, where it is a file
/// without a parent directory.
pub fn add_resolved(spec: &mut ProjectSpec, path: ResolvedPath) -> (result: bool)
    ensures
        match with_resolved(old(spec)@, path@) {
            Some(roots) => result && final(spec)@ == roots,
            None => !result && *final(spec) == *old(spec),
        },
{
    let canonical_path = if path.is_file {
        match path.canonical_path.parent() {
            Some(parent) => parent,
            None => {
                return false;
            },
        }
    } else {
        path.canonical_path
    };
    let mut i: usize = 0;
    let ghost before = spec@;
    while i < spec.roots.len()
        invariant
            i <= spec.roots@.len(),
            *spec == *old(spec),
            before == spec@,
            root_directory(path@) == Some(canonical_path@),
            forall|k: int|
                0 <= k < i ==> !crate::path::same_path(
                    (#[trigger] before[k]).canonical,
                    canonical_path@,
                ),
        decreases spec.roots@.len() - i,
    {
        assert(before[i as int] == spec.roots@[i as int]@);
        if spec.roots[i].canonical_path.is_same(&canonical_path) {
            return true;
        }
        i += 1;
    }
    let root = ProjectRoot { requested_path: path.requested_path, canonical_path };
    let ghost model = root@;
    spec.roots.push(root);
    assert(spec@ =~= before.push(model));
    true
}

/// The paths that a sequence of resolved paths stands for.
pub open spec fn resolved_models(paths: Seq<ResolvedPath>) -> Seq<ResolvedModel> {
    Seq::new(paths.len(), |i: int| paths[i]@)
}

proof fn lemma_resolved_roots_prefix(paths: Seq<ResolvedModel>, count: int)
    requires
        0 <= count <= paths.len(),
        resolved_roots(paths.take(count)) is None,
    ensures
        resolved_roots(paths) is None,
    decreases paths.len() - count,
{
    if count == paths.len() {
        assert(paths.take(count) =~= paths);
    } else {
        assert(paths.take(count + 1).drop_last() =~= paths.take(count));
        lemma_resolved_roots_prefix(paths, count + 1);
    }
}

/// The roots of a project whose paths were resolved one after another, without those whose
/// directory comes twice. There are none where some path is a file without a parent directory.
pub fn canonicalize_project_spec(paths: Vec<ResolvedPath>) -> (result: Option<ProjectSpec>)
    ensures
        match result {
            Some(spec) => resolved_roots(resolved_models(paths@)) == Some(spec@),
            None => resolved_roots(resolved_models(paths@)) is None,
        },
{
    let ghost all = resolved_models(paths@);
    let mut queue = paths;
    let mut spec = ProjectSpec::default();
    let ghost mut done: int = 0;
    assert(all.take(0) =~= Seq::<ResolvedModel>::empty());
    assert(all.skip(0) =~= all);
    while queue.len() > 0
        invariant
            0 <= done <= all.len(),
            all == resolved_models(paths@),
            resolved_models(queue@) == all.skip(done),
            resolved_roots(all.take(done)) == Some(spec@),
        decreases queue@.len(),
    {
        let ghost rest = queue@;
        let path = queue.remove(0);
        proof {
            assert(resolved_models(rest)[0] == path@);
            assert(all.skip(done).len() == rest.len());
            assert(all.skip(done)[0] == all[done]);
            assert(all.take(done + 1).drop_last() =~= all.take(done));
            assert(all.take(done + 1).last() == path@);
            assert(resolved_models(queue@) =~= all.skip(done + 1)) by {
                assert forall|k: int| 0 <= k < queue@.len() implies resolved_models(queue@)[k]
                    == all.skip(done + 1)[k] by {
                    assert(queue@[k] == rest[k + 1]);
                    assert(resolved_models(rest)[k + 1] == all.skip(done)[k + 1]);
                }
            }
        }
        if !add_resolved(&mut spec, path) {
            proof {
                lemma_resolved_roots_prefix(all, done + 1);
            }
            return None;
        }
        proof {
            done = done + 1;
        }
    }
    assert(all.skip(done).len() == queue@.len());
    assert(all.take(done) =~= all);
    Some(spec)
}

/// An entry found in a directory.
#[derive(Debug)]
pub struct DirectoryEntry {
    pub path: HostPath,
    pub is_dir: bool,
}

/// The names in a directory, and whether each is a directory itself where that was asked for.
#[derive(Debug, PartialEq)]
pub struct DirectoryListing {
    pub entries: Vec<String>,
    pub entry_info: Vec<bool>,
}

/// The entries that have a name, with that name.
pub open spec fn named_entries(entries: Seq<DirectoryEntry>) -> Seq<(Seq<char>, bool)>
    decreases entries.len(),
{
    if entries.len() == 0 {
        Seq::<(Seq<char>, bool)>::empty()
    } else {
        let earlier = named_entries(entries.drop_last());
        match crate::path::file_name_of(entries.last().path@) {
            Some(name) => earlier.push((name, entries.last().is_dir)),
            None => earlier,
        }
    }
}

/// Whether a path starts with the sign of the home directory, alone or in front of a separator.
pub open spec fn starts_at_home(path: Seq<char>) -> bool {
    path.len() > 0 && path[0] == '~' && (path.len() == 1 || path[1] == '/' || path[1] == '\\')
}

/// `shellexpand::tilde`: puts the home directory in place of a leading `~` that stands alone or in
/// front of a separator. Other texts stay as they are. Which directory that is depends on the
/// machine, so only that the rest of the text follows it is stated.
#[verifier::external_body]
fn expand_tilde(path: &str) -> (expanded: String)
    ensures
        !starts_at_home(path@) ==> expanded@ == path@,
        starts_at_home(path@) ==> exists|home: Seq<char>| expanded@ == #[trigger] (home + path@.skip(1)),
{
    shellexpand::tilde(path).to_string()
}

/// The directory that is listed for a path: the path itself, or below the home directory where it
/// starts there.
pub fn directory_to_list(style: PathStyle, path: &str) -> (directory: HostPath)
    ensures
        directory@.style == style,
        !starts_at_home(path@) ==> directory@.text == path@,
        starts_at_home(path@) ==> exists|home: Seq<char>|
            directory@.text == #[trigger] (home + path@.skip(1)),
{
    HostPath { style, text: expand_tilde(path) }
}

/// Lists a directory. Whether each entry is a directory is told where it was asked for.
pub fn list_remote_directory(entries: &Vec<DirectoryEntry>, check_info: bool) -> (listing:
    DirectoryListing)
    ensures
        crate::text::texts(listing.entries@) == named_entries(entries@).map_values(
            |entry: (Seq<char>, bool)| entry.0,
        ),
        listing.entry_info@ == if check_info {
            named_entries(entries@).map_values(|entry: (Seq<char>, bool)| entry.1)
        } else {
            Seq::<bool>::empty()
        },
{
    let ghost first = |entry: (Seq<char>, bool)| entry.0;
    let ghost second = |entry: (Seq<char>, bool)| entry.1;
    let mut names: Vec<String> = Vec::new();
    let mut info: Vec<bool> = Vec::new();
    let mut i: usize = 0;
    let ghost none = Seq::<DirectoryEntry>::empty();
    assert(entries@.take(0) =~= none);
    assert(crate::text::texts(names@) =~= named_entries(none).map_values(first));
    assert(info@ =~= named_entries(none).map_values(second));
    while i < entries.len()
        invariant
            i <= entries@.len(),
            first == (|entry: (Seq<char>, bool)| entry.0),
            second == (|entry: (Seq<char>, bool)| entry.1),
            crate::text::texts(names@) == named_entries(entries@.take(i as int)).map_values(first),
            check_info ==> info@ == named_entries(entries@.take(i as int)).map_values(second),
            !check_info ==> info@.len() == 0,
        decreases entries@.len() - i,
    {
        let ghost known = named_entries(entries@.take(i as int));
        let ghost names_before = crate::text::texts(names@);
        proof {
            assert(entries@.take(i + 1).drop_last() =~= entries@.take(i as int));
            assert(entries@.take(i + 1).last() == entries@[i as int]);
        }
        match entries[i].path.file_name() {
            Some(name) => {
                let ghost word = name@;
                let ghost is_dir = entries@[i as int].is_dir;
                names.push(name);
                if check_info {
                    info.push(entries[i].is_dir);
                }
                assert(crate::text::texts(names@) =~= names_before.push(word));
                assert(known.push((word, is_dir)).map_values(first) =~= known.map_values(
                    first,
                ).push(word));
                assert(known.push((word, is_dir)).map_values(second) =~= known.map_values(
                    second,
                ).push(is_dir));
            },
            None => {},
        }
        i += 1;
    }
    assert(entries@.take(i as int) =~= entries@);
    assert(!check_info ==> info@ =~= Seq::<bool>::empty());
    DirectoryListing { entries: names, entry_info: info }
}

} // verus!
