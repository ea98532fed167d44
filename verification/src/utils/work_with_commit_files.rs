use crate::library::files::{same_entry, File, FileView};
use crate::utils::text::str_equal;
use array_tool::vec::Intersect;
use vstd::prelude::*;

verus! {

/// The files of a list, each by its view.
pub open spec fn file_views(files: Seq<File>) -> Seq<FileView> {
    files.map_values(|f: File| f@)
}

/// The strings of a list, each by its view.
pub open spec fn path_views(paths: Seq<String>) -> Seq<Seq<char>> {
    paths.map_values(|p: String| p@)
}

/// The paths of a list of files, in the same order.
pub open spec fn paths_of(files: Seq<FileView>) -> Seq<Seq<char>> {
    files.map_values(|f: FileView| f.path)
}

/// Whether `files` holds an entry with the identity of `f`.
pub open spec fn has_entry(files: Seq<FileView>, f: FileView) -> bool {
    exists|j: int| 0 <= j < files.len() && #[trigger] same_entry(files[j], f)
}

/// Whether `f` exists in `old` with another content: the first entry of `old`
/// with the identity of `f` holds other bytes.
pub open spec fn is_modified(f: FileView, old: Seq<FileView>) -> bool {
    exists|j: int|
        0 <= j < old.len() && #[trigger] same_entry(old[j], f) && old[j].data != f.data
            && forall|k: int| 0 <= k < j ==> !#[trigger] same_entry(old[k], f)
}

/// Selects the files that have no entry in `others`.
pub open spec fn absent_from(others: Seq<FileView>) -> spec_fn(FileView) -> bool {
    |f: FileView| !has_entry(others, f)
}

/// Selects the files that `old` holds with another content.
pub open spec fn changed_since(old: Seq<FileView>) -> spec_fn(FileView) -> bool {
    |f: FileView| is_modified(f, old)
}

/// The entries of `new` whose identity does not exist in `old`.
pub open spec fn added_spec(new: Seq<FileView>, old: Seq<FileView>) -> Seq<FileView> {
    new.filter(absent_from(old))
}

/// The entries of `new` whose identity exists in `old` with another content.
pub open spec fn modified_spec(new: Seq<FileView>, old: Seq<FileView>) -> Seq<FileView> {
    new.filter(changed_since(old))
}

/// The entries of `old` whose identity does not exist in `new`.
pub open spec fn deleted_spec(new: Seq<FileView>, old: Seq<FileView>) -> Seq<FileView> {
    old.filter(absent_from(new))
}

/// The paths of everything added, then modified, then deleted.
pub open spec fn all_changed_spec(new: Seq<FileView>, old: Seq<FileView>) -> Seq<Seq<char>> {
    paths_of(added_spec(new, old)) + paths_of(modified_spec(new, old)) + paths_of(
        deleted_spec(new, old),
    )
}

/// Each value of `s` once, at the place where it first occurs.
pub open spec fn first_occurrences(s: Seq<Seq<char>>) -> Seq<Seq<char>>
    decreases s.len(),
{
    if s.len() == 0 {
        s
    } else if s.drop_last().contains(s.last()) {
        first_occurrences(s.drop_last())
    } else {
        first_occurrences(s.drop_last()).push(s.last())
    }
}

/// Selects the paths that occur in `b`.
pub open spec fn occurs_in(b: Seq<Seq<char>>) -> spec_fn(Seq<char>) -> bool {
    |p: Seq<char>| b.contains(p)
}

/// Selects the paths that do not occur in `b`.
pub open spec fn missing_from(b: Seq<Seq<char>>) -> spec_fn(Seq<char>) -> bool {
    |p: Seq<char>| !b.contains(p)
}

/// The values common to `a` and `b`: each once, in the order of `a`.
pub open spec fn intersect_spec(a: Seq<Seq<char>>, b: Seq<Seq<char>>) -> Seq<Seq<char>> {
    first_occurrences(a).filter(occurs_in(b))
}

/// Whether `j` is the place of the first file of `files` at `path`.
pub open spec fn is_first_at(files: Seq<FileView>, path: Seq<char>, j: int) -> bool {
    &&& 0 <= j < files.len()
    &&& files[j].path == path
    &&& forall|k: int| 0 <= k < j ==> (#[trigger] files[k]).path != path
}

/// The content of the first file of `files` at `path`, if there is one.
pub open spec fn data_at(files: Seq<FileView>, path: Seq<char>) -> Option<Seq<u8>> {
    if exists|j: int| is_first_at(files, path, j) {
        Some(files[choose|j: int| is_first_at(files, path, j)].data)
    } else {
        None
    }
}

/// Selects the paths at which `side1` and `side2` hold different content.
pub open spec fn differs_between(side1: Seq<FileView>, side2: Seq<FileView>) -> spec_fn(
    Seq<char>,
) -> bool {
    |p: Seq<char>| data_at(side1, p) != data_at(side2, p)
}

/// Whether `others` holds a file at the path of `f` with another content.
pub open spec fn clashes_with(f: FileView, others: Seq<FileView>) -> bool {
    exists|j: int|
        0 <= j < others.len() && (#[trigger] others[j]).path == f.path && others[j].data != f.data
}

/// Selects the files that clash with one of `others`.
pub open spec fn clashing_with(others: Seq<FileView>) -> spec_fn(FileView) -> bool {
    |f: FileView| clashes_with(f, others)
}

/// Paths that both sides modified since `main`, with different results.
pub open spec fn modified_conflicts(
    main: Seq<FileView>,
    side1: Seq<FileView>,
    side2: Seq<FileView>,
) -> Seq<Seq<char>> {
    let m1 = modified_spec(side1, main);
    let m2 = modified_spec(side2, main);
    intersect_spec(paths_of(m1), paths_of(m2)).filter(differs_between(m1, m2))
}

/// Paths that both sides added since `main`, with different content.
pub open spec fn added_conflicts(
    main: Seq<FileView>,
    side1: Seq<FileView>,
    side2: Seq<FileView>,
) -> Seq<Seq<char>> {
    paths_of(added_spec(side1, main).filter(clashing_with(added_spec(side2, main))))
}

/// Paths that exactly one side deleted since `main`: first those only the
/// first side deleted, then those only the second side deleted.
pub open spec fn deleted_conflicts(
    main: Seq<FileView>,
    side1: Seq<FileView>,
    side2: Seq<FileView>,
) -> Seq<Seq<char>> {
    let d1 = paths_of(deleted_spec(side1, main));
    let d2 = paths_of(deleted_spec(side2, main));
    d1.filter(missing_from(d2)) + d2.filter(missing_from(d1))
}

/// The three-way conflict set: what both sides modified differently, what both
/// added differently, and what only one of them deleted.
pub open spec fn both_changed_spec(
    main: Seq<FileView>,
    side1: Seq<FileView>,
    side2: Seq<FileView>,
) -> Seq<Seq<char>> {
    modified_conflicts(main, side1, side2) + added_conflicts(main, side1, side2)
        + deleted_conflicts(main, side1, side2)
}

/// `files` after one change was applied: the first file at the path of
/// `change` now holds the content of `change`. Nothing changes where no file
/// is at that path.
pub open spec fn apply_change(files: Seq<FileView>, change: FileView) -> Seq<FileView> {
    if exists|j: int| is_first_at(files, change.path, j) {
        let j = choose|j: int| is_first_at(files, change.path, j);
        files.update(j, FileView { data: change.data, ..files[j] })
    } else {
        files
    }
}

/// `files` after all of `changes` were applied, in order.
pub open spec fn apply_changes(files: Seq<FileView>, changes: Seq<FileView>) -> Seq<FileView>
    decreases changes.len(),
{
    if changes.len() == 0 {
        files
    } else {
        apply_change(apply_changes(files, changes.drop_last()), changes.last())
    }
}

/// The snapshot of a merge: the files of `old`, then what `new` added to
/// them, with the content of `new` wherever `new` modified a file.
pub open spec fn merged_spec(old: Seq<FileView>, new: Seq<FileView>) -> Seq<FileView> {
    apply_changes(old + added_spec(new, old), modified_spec(new, old))
}

/// Whether no two files of the list are at the same path.
pub open spec fn unique_paths(files: Seq<FileView>) -> bool {
    forall|i: int, j: int|
        0 <= i < j < files.len() ==> (#[trigger] files[i]).path != (#[trigger] files[j]).path
}

/// Whether files of the two lists that are at the same path have the same
/// name, so that a path alone tells an entry.
pub open spec fn paths_tell_entries(a: Seq<FileView>, b: Seq<FileView>) -> bool {
    forall|i: int, j: int|
        0 <= i < a.len() && 0 <= j < b.len() && (#[trigger] a[i]).path == (#[trigger] b[j]).path
            ==> a[i].name == b[j].name
}

/// What is selected from files at different paths is at different paths, is
/// part of the list and was to be selected; and nothing that was to be
/// selected is left out.
proof fn lemma_filter_unique(files: Seq<FileView>, pred: spec_fn(FileView) -> bool)
    requires
        unique_paths(files),
    ensures
        unique_paths(files.filter(pred)),
        forall|k: int|
            0 <= k < files.filter(pred).len() ==> pred(#[trigger] files.filter(pred)[k])
                && files.contains(files.filter(pred)[k]),
        forall|i: int|
            0 <= i < files.len() && pred(#[trigger] files[i]) ==> files.filter(pred).contains(
                files[i],
            ),
    decreases files.len(),
{
    reveal(Seq::filter);
    if files.len() > 0 {
        let shorter = files.drop_last();
        let kept = shorter.filter(pred);
        let all = files.filter(pred);
        lemma_filter_unique(shorter, pred);
        assert forall|k: int| 0 <= k < kept.len() implies files.contains(#[trigger] kept[k])
            && kept[k].path != files.last().path by {
            let i = choose|i: int| 0 <= i < shorter.len() && shorter[i] == kept[k];
            assert(files[i] == kept[k]);
        }
        assert forall|k: int| 0 <= k < all.len() implies pred(#[trigger] all[k])
            && files.contains(all[k]) by {
            if k < kept.len() {
                assert(all[k] == kept[k]);
            } else {
                assert(all[k] == files[files.len() - 1]);
            }
        }
        assert forall|i: int| 0 <= i < files.len() && pred(#[trigger] files[i]) implies all.contains(
            files[i],
        ) by {
            if i < shorter.len() {
                assert(shorter[i] == files[i]);
                let k = choose|k: int| 0 <= k < kept.len() && kept[k] == shorter[i];
                assert(all[k] == files[i]);
            } else {
                assert(all[all.len() - 1] == files[i]);
            }
        }
        assert forall|i: int, j: int| 0 <= i < j < all.len() implies (#[trigger] all[i]).path != (
        #[trigger] all[j]).path by {
            assert(all[i] == kept[i]);
            if j < kept.len() {
                assert(all[j] == kept[j]);
            }
        }
    }
}

/// Among files at different paths, the content at a path is that of the one
/// file there.
proof fn lemma_data_at_unique(files: Seq<FileView>, j: int)
    requires
        unique_paths(files),
        0 <= j < files.len(),
    ensures
        data_at(files, files[j].path) == Some(files[j].data),
{
    assert(is_first_at(files, files[j].path, j));
    let first = choose|k: int| is_first_at(files, files[j].path, k);
    assert(first == j);
}

/// Changes at different paths, applied to files at different paths, leave
/// every file where and what it was, with the content of the change at its
/// path where there is one.
proof fn lemma_apply_changes(files: Seq<FileView>, changes: Seq<FileView>)
    requires
        unique_paths(files),
        unique_paths(changes),
    ensures
        apply_changes(files, changes).len() == files.len(),
        forall|i: int|
            0 <= i < files.len() ==> (#[trigger] apply_changes(files, changes)[i]) == (FileView {
                data: match data_at(changes, files[i].path) {
                    Some(data) => data,
                    None => files[i].data,
                },
                ..files[i]
            }),
    decreases changes.len(),
{
    if changes.len() > 0 {
        let shorter = changes.drop_last();
        let last = changes.last();
        let before = apply_changes(files, shorter);
        let after = apply_changes(files, changes);
        lemma_apply_changes(files, shorter);
        assert forall|i: int| 0 <= i < files.len() implies (#[trigger] after[i]) == (FileView {
            data: match data_at(changes, files[i].path) {
                Some(data) => data,
                None => files[i].data,
            },
            ..files[i]
        }) by {
            let path = files[i].path;
            assert(before[i].path == path);
            if path == last.path {
                assert(is_first_at(before, last.path, i)) by {
                    assert forall|k: int| 0 <= k < i implies (#[trigger] before[k]).path
                        != last.path by {
                        assert(before[k].path == files[k].path);
                    }
                }
                let place = choose|k: int| is_first_at(before, last.path, k);
                assert(place == i) by {
                    assert(before[place].path == files[place].path);
                }
                lemma_data_at_unique(changes, changes.len() - 1);
            } else {
                if exists|k: int| is_first_at(before, last.path, k) {
                    let place = choose|k: int| is_first_at(before, last.path, k);
                    assert(place != i);
                }
                assert(after[i] == before[i]);
                assert(data_at(changes, path) == data_at(shorter, path)) by {
                    assert forall|k: int| is_first_at(changes, path, k) <==> is_first_at(
                        shorter,
                        path,
                        k,
                    ) by {
                        if is_first_at(changes, path, k) {
                            assert(k < shorter.len());
                            assert forall|m: int| 0 <= m < k implies (#[trigger] shorter[m]).path
                                != path by {
                                assert(shorter[m] == changes[m]);
                            }
                        }
                        if is_first_at(shorter, path, k) {
                            assert forall|m: int| 0 <= m < k implies (#[trigger] changes[m]).path
                                != path by {
                                assert(shorter[m] == changes[m]);
                            }
                        }
                    }
                    if exists|k: int| is_first_at(changes, path, k) {
                        let k1 = choose|k: int| is_first_at(changes, path, k);
                        assert(is_first_at(shorter, path, k1));
                        let k2 = choose|k: int| is_first_at(shorter, path, k);
                        assert(is_first_at(changes, path, k2));
                        assert(k1 == k2);
                    } else if exists|k: int| is_first_at(shorter, path, k) {
                        let k2 = choose|k: int| is_first_at(shorter, path, k);
                        assert(is_first_at(changes, path, k2));
                    }
                }
            }
        }
    }
}

/// What the snapshot of a merge holds, where in each of the two snapshots no
/// two files share a path and a path tells an entry: every file of the
/// branch, as the branch has it; every file of master that the branch has no
/// entry for; and nothing else. Where both hold an entry, the branch's
/// content stands.
pub proof fn lemma_merged_snapshot(old: Seq<FileView>, new: Seq<FileView>)
    requires
        unique_paths(old),
        unique_paths(new),
        paths_tell_entries(old, new),
    ensures
        unique_paths(merged_spec(old, new)),
        forall|j: int| 0 <= j < new.len() ==> merged_spec(old, new).contains(#[trigger] new[j]),
        forall|i: int|
            0 <= i < old.len() && !has_entry(new, #[trigger] old[i]) ==> merged_spec(
                old,
                new,
            ).contains(old[i]),
        forall|k: int|
            0 <= k < merged_spec(old, new).len() ==> new.contains(
                #[trigger] merged_spec(old, new)[k],
            ) || (old.contains(merged_spec(old, new)[k]) && !has_entry(
                new,
                merged_spec(old, new)[k],
            )),
{
    let added = added_spec(new, old);
    let modified = modified_spec(new, old);
    let base = old + added;
    let merged = merged_spec(old, new);
    lemma_filter_unique(new, absent_from(old));
    lemma_filter_unique(new, changed_since(old));
    assert(unique_paths(base)) by {
        assert forall|i: int, j: int| 0 <= i < j < base.len() implies (#[trigger] base[i]).path != (
        #[trigger] base[j]).path by {
            if j >= old.len() {
                let f = added[j - old.len()];
                assert(base[j] == f);
                if i < old.len() {
                    let at = choose|at: int| 0 <= at < new.len() && new[at] == f;
                    if old[i].path == f.path {
                        assert(old[i].name == new[at].name);
                        assert(same_entry(old[i], f));
                    }
                } else {
                    assert(base[i] == added[i - old.len()]);
                }
            }
        }
    }
    lemma_apply_changes(base, modified);
    assert(unique_paths(merged)) by {
        assert forall|i: int, j: int| 0 <= i < j < merged.len() implies (#[trigger] merged[i]).path
            != (#[trigger] merged[j]).path by {
            assert(merged[i].path == base[i].path);
            assert(merged[j].path == base[j].path);
        }
    }
    // A file of the branch that is not among the changes changes nothing at its path.
    assert forall|j: int| 0 <= j < new.len() && !is_modified(#[trigger] new[j], old) implies data_at(
        modified,
        new[j].path,
    ).is_none() by {
        if exists|k: int| is_first_at(modified, new[j].path, k) {
            let k = choose|k: int| is_first_at(modified, new[j].path, k);
            let at = choose|at: int| 0 <= at < new.len() && new[at] == modified[k];
            assert(at == j);
        }
    }
    // A file of the branch that is among the changes gives its content to its path.
    assert forall|j: int| 0 <= j < new.len() && is_modified(#[trigger] new[j], old) implies data_at(
        modified,
        new[j].path,
    ) == Some(new[j].data) by {
        let k = choose|k: int| 0 <= k < modified.len() && modified[k] == new[j];
        lemma_data_at_unique(modified, k);
    }
    assert forall|j: int| 0 <= j < new.len() implies merged.contains(#[trigger] new[j]) by {
        let f = new[j];
        if has_entry(old, f) {
            let i = choose|i: int| 0 <= i < old.len() && same_entry(old[i], f);
            assert(base[i] == old[i]);
            if !is_modified(f, old) {
                assert(old[i].data == f.data) by {
                    assert forall|k: int| 0 <= k < i implies !#[trigger] same_entry(old[k], f) by {}
                }
            }
            assert(merged[i] == f);
        } else {
            let k = choose|k: int| 0 <= k < added.len() && added[k] == f;
            assert(base[old.len() + k] == f);
            assert(!is_modified(f, old));
            assert(merged[old.len() + k] == f);
        }
    }
    assert forall|i: int| 0 <= i < old.len() && !has_entry(new, #[trigger] old[i]) implies merged.contains(
        old[i],
    ) by {
        assert(base[i] == old[i]);
        if exists|k: int| is_first_at(modified, old[i].path, k) {
            let k = choose|k: int| is_first_at(modified, old[i].path, k);
            let at = choose|at: int| 0 <= at < new.len() && new[at] == modified[k];
            assert(old[i].name == new[at].name);
            assert(same_entry(new[at], old[i]));
        }
        assert(merged[i] == old[i]);
    }
    assert forall|k: int| 0 <= k < merged.len() implies new.contains(#[trigger] merged[k]) || (
    old.contains(merged[k]) && !has_entry(new, merged[k])) by {
        if k < old.len() {
            assert(base[k] == old[k]);
            if has_entry(new, old[k]) {
                let at = choose|at: int| 0 <= at < new.len() && same_entry(new[at], old[k]);
                if !is_modified(new[at], old) {
                    assert(same_entry(old[k], new[at]));
                    assert forall|m: int| 0 <= m < k implies !#[trigger] same_entry(
                        old[m],
                        new[at],
                    ) by {}
                    assert(old[k].data == new[at].data);
                }
                assert(merged[k] == new[at]);
            } else {
                if exists|m: int| is_first_at(modified, old[k].path, m) {
                    let m = choose|m: int| is_first_at(modified, old[k].path, m);
                    let at = choose|at: int| 0 <= at < new.len() && new[at] == modified[m];
                    assert(old[k].name == new[at].name);
                    assert(same_entry(new[at], old[k]));
                }
                assert(merged[k] == old[k]);
                assert(old.contains(old[k]));
            }
        } else {
            let f = added[k - old.len()];
            assert(base[k] == f);
            let at = choose|at: int| 0 <= at < new.len() && new[at] == f;
            assert(!is_modified(new[at], old));
            assert(merged[k] == f);
        }
    }
}

/// The views of a list with one file more.
proof fn lemma_file_views_push(files: Seq<File>, f: File)
    ensures
        file_views(files.push(f)) == file_views(files).push(f@),
{
    assert(file_views(files.push(f)) =~= file_views(files).push(f@));
}

/// The views of a list with one path more.
proof fn lemma_path_views_push(paths: Seq<String>, p: String)
    ensures
        path_views(paths.push(p)) == path_views(paths).push(p@),
{
    assert(path_views(paths.push(p)) =~= path_views(paths).push(p@));
}

/// The paths of a list with one file more.
proof fn lemma_paths_of_push(files: Seq<FileView>, f: FileView)
    ensures
        paths_of(files.push(f)) == paths_of(files).push(f.path),
{
    assert(paths_of(files.push(f)) =~= paths_of(files).push(f.path));
}

/// The views of two lists of paths, one after the other.
proof fn lemma_path_views_add(a: Seq<String>, b: Seq<String>)
    ensures
        path_views(a + b) == path_views(a) + path_views(b),
{
    assert(path_views(a + b) =~= path_views(a) + path_views(b));
}

/// Filtering one element more either appends it or changes nothing.
proof fn lemma_filter_step<A>(s: Seq<A>, i: int, pred: spec_fn(A) -> bool)
    requires
        0 <= i < s.len(),
    ensures
        s.take(i + 1).filter(pred) == if pred(s[i]) {
            s.take(i).filter(pred).push(s[i])
        } else {
            s.take(i).filter(pred)
        },
{
    assert(s.take(i + 1).drop_last() =~= s.take(i));
    reveal(Seq::filter);
}

/// Filtering nothing gives nothing, and the whole list is its own longest
/// beginning.
proof fn lemma_filter_all<A>(s: Seq<A>, pred: spec_fn(A) -> bool)
    ensures
        s.take(0).filter(pred) == Seq::<A>::empty(),
        s.take(s.len() as int) == s,
{
    reveal(Seq::filter);
    assert(s.take(0) =~= Seq::<A>::empty());
    assert(s.take(s.len() as int) =~= s);
}

/// Checks whether `files` holds an entry with the identity of `file`.
fn has_entry_in(file: &File, files: &Vec<File>) -> (found: bool)
    ensures
        found == has_entry(file_views(files@), file@),
{
    let mut j: usize = 0;
    while j < files.len()
        invariant
            j <= files.len(),
            forall|k: int| 0 <= k < j ==> !#[trigger] same_entry(file_views(files@)[k], file@),
        decreases files.len() - j,
    {
        if file.is_change_only_data(&files[j]) {
            assert(same_entry(file_views(files@)[j as int], file@));
            return true;
        }
        j += 1;
    }
    false
}

/// Checks whether `old` holds `file` with another content.
fn is_modified_in(file: &File, old: &Vec<File>) -> (modified: bool)
    ensures
        modified == is_modified(file@, file_views(old@)),
{
    let mut j: usize = 0;
    while j < old.len()
        invariant
            j <= old.len(),
            forall|k: int| 0 <= k < j ==> !#[trigger] same_entry(file_views(old@)[k], file@),
        decreases old.len() - j,
    {
        if *file == old[j] {
            assert(same_entry(file_views(old@)[j as int], file@));
            return false;
        }
        if file.is_change_only_data(&old[j]) {
            assert(same_entry(file_views(old@)[j as int], file@));
            return true;
        }
        j += 1;
    }
    false
}

/// Returns the files of `new_files` that `old_files` does not hold.
pub fn added_files_with_data(new_files: &Vec<File>, old_files: &Vec<File>) -> (ans: Vec<File>)
    ensures
        file_views(ans@) == added_spec(file_views(new_files@), file_views(old_files@)),
{
    let mut ans: Vec<File> = Vec::new();
    let mut i: usize = 0;
    proof {
        lemma_filter_all(file_views(new_files@), absent_from(file_views(old_files@)));
        assert(file_views(ans@) =~= Seq::<FileView>::empty());
    }
    while i < new_files.len()
        invariant
            i <= new_files.len(),
            file_views(ans@) == file_views(new_files@).take(i as int).filter(
                absent_from(file_views(old_files@)),
            ),
        decreases new_files.len() - i,
    {
        proof {
            lemma_filter_step(file_views(new_files@), i as int, absent_from(file_views(old_files@)));
        }
        if !has_entry_in(&new_files[i], old_files) {
            let copy = new_files[i].clone();
            proof {
                lemma_file_views_push(ans@, copy);
            }
            ans.push(copy);
        }
        i += 1;
    }
    proof {
        lemma_filter_all(file_views(new_files@), absent_from(file_views(old_files@)));
    }
    ans
}

/// Returns the files of `new_files` that `old_files` holds with another content.
pub fn modified_files_with_data(new_files: &Vec<File>, old_files: &Vec<File>) -> (ans: Vec<File>)
    ensures
        file_views(ans@) == modified_spec(file_views(new_files@), file_views(old_files@)),
{
    let mut ans: Vec<File> = Vec::new();
    let mut i: usize = 0;
    proof {
        lemma_filter_all(file_views(new_files@), changed_since(file_views(old_files@)));
        assert(file_views(ans@) =~= Seq::<FileView>::empty());
    }
    while i < new_files.len()
        invariant
            i <= new_files.len(),
            file_views(ans@) == file_views(new_files@).take(i as int).filter(
                changed_since(file_views(old_files@)),
            ),
        decreases new_files.len() - i,
    {
        proof {
            lemma_filter_step(
                file_views(new_files@),
                i as int,
                changed_since(file_views(old_files@)),
            );
        }
        if is_modified_in(&new_files[i], old_files) {
            let copy = new_files[i].clone();
            proof {
                lemma_file_views_push(ans@, copy);
            }
            ans.push(copy);
        }
        i += 1;
    }
    proof {
        lemma_filter_all(file_views(new_files@), changed_since(file_views(old_files@)));
    }
    ans
}

/// Returns the paths of the files of `new_files` that `old_files` does not hold.
pub fn added_files(new_files: &Vec<File>, old_files: &Vec<File>) -> (ans: Vec<String>)
    ensures
        path_views(ans@) == paths_of(added_spec(file_views(new_files@), file_views(old_files@))),
{
    let mut ans: Vec<String> = Vec::new();
    let mut i: usize = 0;
    proof {
        lemma_filter_all(file_views(new_files@), absent_from(file_views(old_files@)));
        assert(path_views(ans@) =~= paths_of(Seq::<FileView>::empty()));
    }
    while i < new_files.len()
        invariant
            i <= new_files.len(),
            path_views(ans@) == paths_of(
                file_views(new_files@).take(i as int).filter(absent_from(file_views(old_files@))),
            ),
        decreases new_files.len() - i,
    {
        proof {
            lemma_filter_step(file_views(new_files@), i as int, absent_from(file_views(old_files@)));
        }
        if !has_entry_in(&new_files[i], old_files) {
            let path = new_files[i].get_path().to_owned();
            proof {
                lemma_path_views_push(ans@, path);
                lemma_paths_of_push(
                    file_views(new_files@).take(i as int).filter(
                        absent_from(file_views(old_files@)),
                    ),
                    new_files@[i as int]@,
                );
            }
            ans.push(path);
        }
        i += 1;
    }
    proof {
        lemma_filter_all(file_views(new_files@), absent_from(file_views(old_files@)));
    }
    ans
}

/// Returns the paths of the files of `new_files` that `old_files` holds with
/// another content.
pub fn modified_files(new_files: &Vec<File>, old_files: &Vec<File>) -> (ans: Vec<String>)
    ensures
        path_views(ans@) == paths_of(
            modified_spec(file_views(new_files@), file_views(old_files@)),
        ),
{
    let mut ans: Vec<String> = Vec::new();
    let mut i: usize = 0;
    proof {
        lemma_filter_all(file_views(new_files@), changed_since(file_views(old_files@)));
        assert(path_views(ans@) =~= paths_of(Seq::<FileView>::empty()));
    }
    while i < new_files.len()
        invariant
            i <= new_files.len(),
            path_views(ans@) == paths_of(
                file_views(new_files@).take(i as int).filter(
                    changed_since(file_views(old_files@)),
                ),
            ),
        decreases new_files.len() - i,
    {
        proof {
            lemma_filter_step(
                file_views(new_files@),
                i as int,
                changed_since(file_views(old_files@)),
            );
        }
        if is_modified_in(&new_files[i], old_files) {
            let path = new_files[i].get_path().to_owned();
            proof {
                lemma_path_views_push(ans@, path);
                lemma_paths_of_push(
                    file_views(new_files@).take(i as int).filter(
                        changed_since(file_views(old_files@)),
                    ),
                    new_files@[i as int]@,
                );
            }
            ans.push(path);
        }
        i += 1;
    }
    proof {
        lemma_filter_all(file_views(new_files@), changed_since(file_views(old_files@)));
    }
    ans
}

/// Returns the paths of the files of `old_files` that `new_files` no longer holds.
pub fn deleted_files(new_files: &Vec<File>, old_files: &Vec<File>) -> (ans: Vec<String>)
    ensures
        path_views(ans@) == paths_of(
            deleted_spec(file_views(new_files@), file_views(old_files@)),
        ),
{
    added_files(old_files, new_files)
}

/// Returns the paths of all changed files between two lists: added, then
/// modified, then deleted.
pub fn all_changed_files(new_files: &Vec<File>, old_files: &Vec<File>) -> (changed: Vec<String>)
    ensures
        path_views(changed@) == all_changed_spec(file_views(new_files@), file_views(old_files@)),
{
    let mut changed_files = added_files(new_files, old_files);
    let mut modified = modified_files(new_files, old_files);
    let mut deleted = deleted_files(new_files, old_files);
    proof {
        lemma_path_views_add(changed_files@, modified@);
        lemma_path_views_add(changed_files@ + modified@, deleted@);
    }
    changed_files.append(&mut modified);
    changed_files.append(&mut deleted);
    changed_files
}

/// Calls `array_tool::vec::Intersect::intersect` on two lists of paths. The
/// crate drops from the first list every value that it already held earlier,
/// and of what is left keeps, in order, the values that the second list holds.
#[verifier::external_body]
fn intersect_paths(a: &Vec<String>, b: Vec<String>) -> (common: Vec<String>)
    ensures
        path_views(common@) == intersect_spec(path_views(a@), path_views(b@)),
{
    a.intersect(b)
}

/// Checks whether two byte strings are equal.
fn same_bytes(a: &Vec<u8>, b: &Vec<u8>) -> (same: bool)
    ensures
        same == (a@ == b@),
{
    if a.len() != b.len() {
        return false;
    }
    let mut i: usize = 0;
    while i < a.len()
        invariant
            a.len() == b.len(),
            i <= a.len(),
            forall|j: int| 0 <= j < i ==> a@[j] == b@[j],
        decreases a.len() - i,
    {
        if a[i] != b[i] {
            return false;
        }
        i += 1;
    }
    assert(a@ =~= b@);
    true
}

/// Finds the first file of `files` at `path`.
fn find_at(files: &Vec<File>, path: &str) -> (place: Option<usize>)
    ensures
        match place {
            Some(j) => is_first_at(file_views(files@), path@, j as int),
            None => forall|j: int| !is_first_at(file_views(files@), path@, j),
        },
{
    let mut j: usize = 0;
    while j < files.len()
        invariant
            j <= files.len(),
            forall|k: int| 0 <= k < j ==> (#[trigger] file_views(files@)[k]).path != path@,
        decreases files.len() - j,
    {
        if str_equal(files[j].get_path(), path) {
            return Some(j);
        }
        j += 1;
    }
    None
}

/// Checks whether the two sides hold different content at `path`.
fn differs_at(side1: &Vec<File>, side2: &Vec<File>, path: &str) -> (differs: bool)
    ensures
        differs == differs_between(file_views(side1@), file_views(side2@))(path@),
{
    let place1 = find_at(side1, path);
    let place2 = find_at(side2, path);
    match (place1, place2) {
        (Some(j1), Some(j2)) => !same_bytes(side1[j1].get_data(), side2[j2].get_data()),
        (None, None) => false,
        _ => true,
    }
}

/// Checks whether `others` holds a file at the path of `file` with another
/// content.
fn clashes_in(file: &File, others: &Vec<File>) -> (clashes: bool)
    ensures
        clashes == clashes_with(file@, file_views(others@)),
{
    let mut j: usize = 0;
    while j < others.len()
        invariant
            j <= others.len(),
            forall|k: int|
                0 <= k < j ==> !((#[trigger] file_views(others@)[k]).path == file@.path
                    && file_views(others@)[k].data != file@.data),
        decreases others.len() - j,
    {
        if str_equal(file.get_path(), others[j].get_path()) && !same_bytes(
            file.get_data(),
            others[j].get_data(),
        ) {
            assert(file_views(others@)[j as int].path == file@.path);
            return true;
        }
        j += 1;
    }
    false
}

/// Checks whether `path` is one of `paths`.
fn holds_path(paths: &Vec<String>, path: &str) -> (found: bool)
    ensures
        found == path_views(paths@).contains(path@),
{
    let mut j: usize = 0;
    while j < paths.len()
        invariant
            j <= paths.len(),
            forall|k: int| 0 <= k < j ==> path_views(paths@)[k] != path@,
        decreases paths.len() - j,
    {
        if str_equal(paths[j].as_str(), path) {
            assert(path_views(paths@)[j as int] == path@);
            return true;
        }
        j += 1;
    }
    false
}

/// The paths of `paths` that `others` does not hold.
fn only_in(paths: &Vec<String>, others: &Vec<String>) -> (ans: Vec<String>)
    ensures
        path_views(ans@) == path_views(paths@).filter(missing_from(path_views(others@))),
{
    let mut ans: Vec<String> = Vec::new();
    let mut i: usize = 0;
    proof {
        lemma_filter_all(path_views(paths@), missing_from(path_views(others@)));
        assert(path_views(ans@) =~= Seq::<Seq<char>>::empty());
    }
    while i < paths.len()
        invariant
            i <= paths.len(),
            path_views(ans@) == path_views(paths@).take(i as int).filter(
                missing_from(path_views(others@)),
            ),
        decreases paths.len() - i,
    {
        proof {
            lemma_filter_step(path_views(paths@), i as int, missing_from(path_views(others@)));
        }
        if !holds_path(others, paths[i].as_str()) {
            let path = paths[i].clone();
            proof {
                lemma_path_views_push(ans@, path);
            }
            ans.push(path);
        }
        i += 1;
    }
    proof {
        lemma_filter_all(path_views(paths@), missing_from(path_views(others@)));
    }
    ans
}

/// Returns the paths on which two sides changed `main_files` incompatibly:
/// modified on both sides with different results, added on both sides with
/// different content, or deleted on one side only.
pub fn both_changed(main_files: &Vec<File>, files1: &Vec<File>, files2: &Vec<File>) -> (res: Vec<
    String,
>)
    ensures
        path_views(res@) == both_changed_spec(
            file_views(main_files@),
            file_views(files1@),
            file_views(files2@),
        ),
{
    let ghost main = file_views(main_files@);
    let ghost side1 = file_views(files1@);
    let ghost side2 = file_views(files2@);

    let changed1 = modified_files_with_data(files1, main_files);
    let changed2 = modified_files_with_data(files2, main_files);
    let modified1 = modified_files(files1, main_files);
    let modified2 = modified_files(files2, main_files);
    let common = intersect_paths(&modified1, modified2);

    let mut res: Vec<String> = Vec::new();
    let ghost differs = differs_between(file_views(changed1@), file_views(changed2@));
    proof {
        lemma_filter_all(path_views(common@), differs);
        assert(path_views(res@) =~= Seq::<Seq<char>>::empty());
    }
    let mut i: usize = 0;
    while i < common.len()
        invariant
            i <= common.len(),
            differs == differs_between(file_views(changed1@), file_views(changed2@)),
            path_views(res@) == path_views(common@).take(i as int).filter(differs),
        decreases common.len() - i,
    {
        proof {
            lemma_filter_step(path_views(common@), i as int, differs);
        }
        if differs_at(&changed1, &changed2, common[i].as_str()) {
            let path = common[i].clone();
            proof {
                lemma_path_views_push(res@, path);
            }
            res.push(path);
        }
        i += 1;
    }
    proof {
        lemma_filter_all(path_views(common@), differs);
    }
    assert(path_views(res@) == modified_conflicts(main, side1, side2));

    let added1 = added_files_with_data(files1, main_files);
    let added2 = added_files_with_data(files2, main_files);
    let ghost clashing = clashing_with(file_views(added2@));
    let ghost before = path_views(res@);
    proof {
        lemma_filter_all(file_views(added1@), clashing);
        assert(paths_of(Seq::<FileView>::empty()) =~= Seq::<Seq<char>>::empty());
        assert(before + Seq::<Seq<char>>::empty() =~= before);
    }
    let mut i: usize = 0;
    while i < added1.len()
        invariant
            i <= added1.len(),
            clashing == clashing_with(file_views(added2@)),
            path_views(res@) == before + paths_of(
                file_views(added1@).take(i as int).filter(clashing),
            ),
        decreases added1.len() - i,
    {
        proof {
            lemma_filter_step(file_views(added1@), i as int, clashing);
        }
        if clashes_in(&added1[i], &added2) {
            let path = added1[i].get_path().to_owned();
            proof {
                let kept = file_views(added1@).take(i as int).filter(clashing);
                lemma_path_views_push(res@, path);
                lemma_paths_of_push(kept, added1@[i as int]@);
                assert((before + paths_of(kept)).push(path@) =~= before + paths_of(kept).push(
                    path@,
                ));
            }
            res.push(path);
        }
        i += 1;
    }
    proof {
        lemma_filter_all(file_views(added1@), clashing);
    }
    assert(path_views(res@) == modified_conflicts(main, side1, side2) + added_conflicts(
        main,
        side1,
        side2,
    ));

    let deleted1 = deleted_files(files1, main_files);
    let deleted2 = deleted_files(files2, main_files);
    let mut only1 = only_in(&deleted1, &deleted2);
    let mut only2 = only_in(&deleted2, &deleted1);
    proof {
        lemma_path_views_add(res@, only1@);
        lemma_path_views_add(res@ + only1@, only2@);
        assert((path_views(res@) + path_views(only1@)) + path_views(only2@) =~= path_views(res@)
            + (path_views(only1@) + path_views(only2@)));
    }
    res.append(&mut only1);
    res.append(&mut only2);
    res
}

/// Merges the files of a branch, `new_files`, into those of master,
/// `old_files`: every file that the branch added is appended, and every file
/// that the branch modified gets the branch's content.
pub fn merge_files(old_files: Vec<File>, new_files: &Vec<File>) -> (merged: Vec<File>)
    ensures
        file_views(merged@) == merged_spec(file_views(old_files@), file_views(new_files@)),
{
    let ghost old = file_views(old_files@);
    let mut merged = old_files;
    let mut added = added_files_with_data(new_files, &merged);
    let modified = modified_files_with_data(new_files, &merged);
    proof {
        assert(file_views(merged@ + added@) =~= file_views(merged@) + file_views(added@));
    }
    merged.append(&mut added);
    let ghost start = file_views(merged@);
    let mut i: usize = 0;
    assert(file_views(modified@).take(0) =~= Seq::<FileView>::empty());
    while i < modified.len()
        invariant
            i <= modified.len(),
            file_views(merged@) == apply_changes(start, file_views(modified@).take(i as int)),
        decreases modified.len() - i,
    {
        proof {
            assert(file_views(modified@).take(i + 1).drop_last() =~= file_views(modified@).take(
                i as int,
            ));
        }
        match find_at(&merged, modified[i].get_path()) {
            Some(j) => {
                let ghost before = merged@;
                let mut changed = merged[j].clone();
                changed.change_data(modified[i].get_data());
                merged.set(j, changed);
                assert(file_views(merged@) =~= file_views(before).update(
                    j as int,
                    FileView { data: modified@[i as int]@.data, ..file_views(before)[j as int] },
                ));
            },
            None => {},
        }
        i += 1;
    }
    assert(file_views(modified@).take(modified.len() as int) =~= file_views(modified@));
    merged
}

} // verus!
