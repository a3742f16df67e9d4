use vstd::prelude::*;

verus! {

broadcast use vstd::seq_lib::group_seq_properties;

/// One entry met while walking a directory: its path, and whether it is a regular file.
#[derive(Debug, Clone)]
pub struct WalkEntry {
    pub path: String,
    pub is_file: bool,
}

/// Why the candidate files of a directory could not be listed.
#[derive(Debug, Clone)]
pub enum DiscoveryError {
    /// The root is not a directory.
    NotADirectory,
    /// The walk failed on an entry; the walk's own message.
    Walk(String),
}

/// The extension that `std::path::Path::extension` finds in `path`.
pub uninterp spec fn path_extension(path: Seq<char>) -> Option<Seq<char>>;

/// Relies on std::path::Path::extension: the part of the file name after its last dot,
/// if the name has a dot that does not start it.
#[verifier::external_body]
fn extension_of(path: &str) -> (r: Option<String>)
    ensures
        r matches Some(e) ==> path_extension(path@) == Some(e@),
        r is None ==> path_extension(path@) is None,
{
    std::path::Path::new(path).extension().map(|e| e.to_string_lossy().into_owned())
}

/// An extension as text: a path without one reads as the empty text.
pub open spec fn extension_text(ext: Option<Seq<char>>) -> Seq<char> {
    match ext {
        Some(e) => e,
        None => Seq::empty(),
    }
}

/// `entry` is a regular file whose extension is exactly `ext` (case-sensitive, no dot).
pub open spec fn selects(entry: WalkEntry, ext: Seq<char>) -> bool {
    entry.is_file && extension_text(path_extension(entry.path@)) == ext
}

/// The paths of the entries selected by `ext`, in walk order.
pub open spec fn selected_paths(entries: Seq<WalkEntry>, ext: Seq<char>) -> Seq<String> {
    entries.filter(|e: WalkEntry| selects(e, ext)).map_values(|e: WalkEntry| e.path)
}

/// `path` is the path of an entry selected by `ext`.
pub open spec fn is_selected_path(entries: Seq<WalkEntry>, ext: Seq<char>, path: String) -> bool {
    exists|i: int| 0 <= i < entries.len() && selects(#[trigger] entries[i], ext) && entries[i].path == path
}

/// Every entry up to `n` was walked without error.
pub open spec fn walked_ok(entries: Seq<Result<WalkEntry, String>>, n: int) -> bool {
    forall|j: int| 0 <= j < n ==> (#[trigger] entries[j]) is Ok
}

/// The entries of a walk that met no error.
pub open spec fn walked(entries: Seq<Result<WalkEntry, String>>) -> Seq<WalkEntry> {
    entries.map_values(|r: Result<WalkEntry, String>| r->Ok_0)
}

/// Whether an extension found by `Path::extension` (`None`: the path has none) is the
/// extension `ext_used`.
pub fn extension_matches(ext: &Option<String>, ext_used: &str) -> (r: bool)
    ensures
        r == (extension_text(
            match ext {
                Some(e) => Some(e@),
                None => None,
            },
        ) == ext_used@),
{
    match ext {
        Some(e) => {
            let wanted: String = ext_used.to_owned();
            *e == wanted
        },
        None => ext_used.is_empty(),
    }
}

/// Appends the path of `entry` to `list` where the entry is a regular file with the
/// extension `ext_used`.
pub fn push_ext(list: &mut Vec<String>, entry: &WalkEntry, ext_used: &str)
    ensures
        final(list)@ == if selects(*entry, ext_used@) {
            old(list)@.push(entry.path)
        } else {
            old(list)@
        },
{
    if entry.is_file {
        let ext = extension_of(entry.path.as_str());
        if extension_matches(&ext, ext_used) {
            list.push(entry.path.clone());
        }
    }
}

/// Lists the candidate files among the entries of a walk from a root: the paths of the
/// regular files with the extension `ext`, in walk order. Fails where the root is not a
/// directory, and otherwise with the first entry on which the walk failed.
pub fn list_eml_file(root_is_dir: bool, entries: &Vec<Result<WalkEntry, String>>, ext: &str) -> (r:
    Result<Vec<String>, DiscoveryError>)
    ensures
        !root_is_dir ==> (r matches Err(DiscoveryError::NotADirectory)),
        root_is_dir && walked_ok(entries@, entries@.len() as int) ==> (r matches Ok(v) && v@
            == selected_paths(walked(entries@), ext@)),
        forall|i: int|
            #![trigger entries@[i]]
            root_is_dir && 0 <= i < entries@.len() && entries@[i] is Err && walked_ok(entries@, i)
                ==> (r matches Err(DiscoveryError::Walk(m)) && m == entries@[i]->Err_0),
{
    if !root_is_dir {
        return Err(DiscoveryError::NotADirectory);
    }
    let mut found: Vec<String> = Vec::new();
    let mut i: usize = 0;
    while i < entries.len()
        invariant
            root_is_dir,
            0 <= i <= entries@.len(),
            walked_ok(entries@, i as int),
            found@ == selected_paths(walked(entries@.take(i as int)), ext@),
        decreases entries@.len() - i,
    {
        match &entries[i] {
            Ok(entry) => {
                push_ext(&mut found, entry, ext);
                proof {
                    let before = walked(entries@.take(i as int));
                    assert(walked(entries@.take(i + 1)) =~= before.push(*entry));
                    let sel = |e: WalkEntry| selects(e, ext@);
                    let path = |e: WalkEntry| e.path;
                    let kept = before.filter(sel);
                    before.lemma_filter_push(*entry, sel);
                    assert(before.push(*entry).filter(sel) == if sel(*entry) {
                        kept.push(*entry)
                    } else {
                        kept
                    });
                    assert(kept.push(*entry).map_values(path) =~= kept.map_values(path).push(entry.path));
                }
            },
            Err(m) => {
                proof {
                    assert forall|j: int|
                        0 <= j < entries@.len() && #[trigger] entries@[j] is Err && walked_ok(
                            entries@,
                            j,
                        ) implies j == i by {
                        if j > i {
                            assert(entries@[i as int] is Ok);
                        }
                    }
                }
                return Err(DiscoveryError::Walk(m.clone()));
            },
        }
        i = i + 1;
    }
    assert(entries@.take(entries@.len() as int) =~= entries@);
    Ok(found)
}

/// Listing keeps exactly the regular files with the extension: the paths listed and the
/// entries left out add up to the entries walked, each path listed is that of a selected
/// entry, and no selected entry is missed.
pub proof fn lemma_selection_exact(entries: Seq<WalkEntry>, ext: Seq<char>)
    ensures
        selected_paths(entries, ext).len() + entries.filter(|e: WalkEntry| !selects(e, ext)).len()
            == entries.len(),
        forall|j: int|
            0 <= j < selected_paths(entries, ext).len() ==> #[trigger] is_selected_path(
                entries,
                ext,
                selected_paths(entries, ext)[j],
            ),
        forall|i: int|
            0 <= i < entries.len() && selects(#[trigger] entries[i], ext) ==> selected_paths(
                entries,
                ext,
            ).contains(entries[i].path),
    decreases entries.len(),
{
    if entries.len() > 0 {
        let init = entries.drop_last();
        let last = entries.last();
        let sel = |e: WalkEntry| selects(e, ext);
        let rej = |e: WalkEntry| !selects(e, ext);
        let path = |e: WalkEntry| e.path;
        lemma_selection_exact(init, ext);
        assert(init.push(last) =~= entries);
        init.lemma_filter_push(last, sel);
        init.lemma_filter_push(last, rej);
        let kept = init.filter(sel);
        assert(kept.push(last).map_values(path) =~= kept.map_values(path).push(last.path));
        let prev = selected_paths(init, ext);
        let cur = selected_paths(entries, ext);
        assert(cur == if sel(last) {
            prev.push(last.path)
        } else {
            prev
        });
        assert forall|j: int| 0 <= j < cur.len() implies #[trigger] is_selected_path(
            entries,
            ext,
            cur[j],
        ) by {
            if j < prev.len() {
                assert(cur[j] == prev[j]);
                assert(is_selected_path(init, ext, prev[j]));
                let i = choose|i: int|
                    #![trigger init[i]]
                    0 <= i < init.len() && selects(init[i], ext) && prev[j] == init[i].path;
                assert(entries[i] == init[i]);
            } else {
                assert(entries[entries.len() - 1] == last);
            }
        }
        assert forall|i: int| 0 <= i < entries.len() && selects(#[trigger] entries[i], ext) implies cur.contains(
            entries[i].path,
        ) by {
            if i < init.len() {
                assert(entries[i] == init[i]);
                let k = choose|k: int| 0 <= k < prev.len() && prev[k] == init[i].path;
                assert(cur[k] == prev[k]);
            } else {
                assert(cur[cur.len() - 1] == last.path);
            }
        }
    } else {
        entries.lemma_filter_len(|e: WalkEntry| selects(e, ext));
    }
}

/// Where the walk meets each path once, as a walk of a directory tree does, each path is
/// listed once.
pub proof fn lemma_selection_distinct(entries: Seq<WalkEntry>, ext: Seq<char>)
    requires
        forall|i: int, j: int|
            0 <= i < j < entries.len() ==> (#[trigger] entries[i]).path != (#[trigger] entries[j]).path,
    ensures
        selected_paths(entries, ext).no_duplicates(),
    decreases entries.len(),
{
    if entries.len() > 0 {
        let init = entries.drop_last();
        let last = entries.last();
        let sel = |e: WalkEntry| selects(e, ext);
        let path = |e: WalkEntry| e.path;
        assert forall|i: int, j: int| 0 <= i < j < init.len() implies (#[trigger] init[i]).path != (
        #[trigger] init[j]).path by {
            assert(init[i] == entries[i] && init[j] == entries[j]);
        }
        lemma_selection_distinct(init, ext);
        lemma_selection_exact(init, ext);
        assert(init.push(last) =~= entries);
        init.lemma_filter_push(last, sel);
        let kept = init.filter(sel);
        assert(kept.push(last).map_values(path) =~= kept.map_values(path).push(last.path));
        let prev = selected_paths(init, ext);
        if sel(last) {
            assert forall|k: int| 0 <= k < prev.len() implies #[trigger] prev[k] != last.path by {
                assert(is_selected_path(init, ext, prev[k]));
                let i = choose|i: int|
                    #![trigger init[i]]
                    0 <= i < init.len() && selects(init[i], ext) && prev[k] == init[i].path;
                assert(entries[i] == init[i]);
                assert(entries[entries.len() - 1] == last);
            }
        }
    }
}

} // verus!
