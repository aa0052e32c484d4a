use vstd::prelude::*;
use vstd::string::*;

use crate::filter::{regex_compiles, regex_matches, NameFilter};

verus! {

/// One input rule: a file or a directory to package, where to put it, and an
/// optional filter on the names of a directory's direct children.
pub struct Ingredient {
    pub source: String,
    pub destination: String,
    pub filter: Option<String>,
}

/// One resolved (destination, source) pair.
pub struct FileEntry {
    pub destination: String,
    pub source: String,
}

impl View for FileEntry {
    type V = (Seq<char>, Seq<char>);

    open spec fn view(&self) -> (Seq<char>, Seq<char>) {
        (self.destination@, self.source@)
    }
}

/// One item found beneath a directory ingredient: its path components
/// relative to that directory, its full source path, and whether it is a
/// regular file (as opposed to a directory).
pub struct DirEntry {
    pub relative: Vec<String>,
    pub source: String,
    pub is_file: bool,
}

/// What an ingredient's source path turned out to be on disk. A directory
/// carries every item beneath it, at any depth, in discovery order.
pub enum SourceKind {
    File,
    Directory(Vec<DirEntry>),
    Other,
}

#[derive(Debug, PartialEq, Eq, Structural)]
pub enum ResolveError {
    /// The ingredient at this index is neither a file nor a directory.
    NotFileOrDirectory(usize),
    /// The filter of the ingredient at this index is not a valid regex.
    BadFilter(usize),
}

pub open spec fn components(rel: Seq<String>) -> Seq<Seq<char>> {
    rel.map_values(|c: String| c@)
}

/// `dir` followed by each component, each after a `/`.
pub open spec fn under(dir: Seq<char>, rel: Seq<Seq<char>>) -> Seq<char>
    decreases rel.len(),
{
    if rel.len() == 0 {
        dir
    } else {
        under(dir, rel.drop_last()) + seq!['/'] + rel.last()
    }
}

/// Entries for the direct children of a listing whose names match `pattern`.
pub open spec fn filtered_entries(dest: Seq<char>, pattern: Seq<char>, listing: Seq<DirEntry>) -> Seq<(Seq<char>, Seq<char>)>
    decreases listing.len(),
{
    if listing.len() == 0 {
        seq![]
    } else {
        let prev = filtered_entries(dest, pattern, listing.drop_last());
        let e = listing.last();
        if e.relative@.len() == 1 && regex_matches(pattern, e.relative@[0]@) {
            prev.push((under(dest, components(e.relative@)), e.source@))
        } else {
            prev
        }
    }
}

/// Entries for every regular file of a listing, its destination mirroring its
/// relative path beneath `dest`.
pub open spec fn leaf_entries(dest: Seq<char>, listing: Seq<DirEntry>) -> Seq<(Seq<char>, Seq<char>)>
    decreases listing.len(),
{
    if listing.len() == 0 {
        seq![]
    } else {
        let prev = leaf_entries(dest, listing.drop_last());
        let e = listing.last();
        if e.is_file {
            prev.push((under(dest, components(e.relative@)), e.source@))
        } else {
            prev
        }
    }
}

/// Whether an ingredient can be resolved, given what its source is.
pub open spec fn ingredient_ok(ing: Ingredient, kind: SourceKind) -> bool {
    match kind {
        SourceKind::File => true,
        SourceKind::Directory(_) => match ing.filter {
            Some(p) => regex_compiles(p@),
            None => true,
        },
        SourceKind::Other => false,
    }
}

/// The entries that one resolvable ingredient yields.
pub open spec fn ingredient_entries(ing: Ingredient, kind: SourceKind) -> Seq<(Seq<char>, Seq<char>)> {
    match kind {
        SourceKind::File => seq![(ing.destination@, ing.source@)],
        SourceKind::Directory(l) => match ing.filter {
            Some(p) => filtered_entries(ing.destination@, p@, l@),
            None => leaf_entries(ing.destination@, l@),
        },
        SourceKind::Other => seq![],
    }
}

/// The entries of the first `n` ingredients, in declaration order.
pub open spec fn entries_upto(ings: Seq<Ingredient>, kinds: Seq<SourceKind>, n: int) -> Seq<(Seq<char>, Seq<char>)>
    decreases n,
{
    if n <= 0 {
        seq![]
    } else {
        entries_upto(ings, kinds, n - 1) + ingredient_entries(ings[n - 1], kinds[n - 1])
    }
}

/// The entry of the build's own output artifact.
pub open spec fn artifact_entry(target_directory: Seq<char>, package_name: Seq<char>, target_rename: Option<String>) -> (Seq<char>, Seq<char>) {
    (
        match target_rename {
            Some(r) => r@,
            None => package_name,
        },
        target_directory + seq!['/'] + package_name,
    )
}

/// The whole file set: every ingredient's entries, then the artifact entry.
pub open spec fn file_set(
    ings: Seq<Ingredient>,
    kinds: Seq<SourceKind>,
    target_directory: Seq<char>,
    package_name: Seq<char>,
    target_rename: Option<String>,
) -> Seq<(Seq<char>, Seq<char>)> {
    entries_upto(ings, kinds, ings.len() as int).push(artifact_entry(target_directory, package_name, target_rename))
}

pub open spec fn entries_view(v: Seq<FileEntry>) -> Seq<(Seq<char>, Seq<char>)> {
    v.map_values(|e: FileEntry| e@)
}

/// `dir` with each of `rel` appended after a `/`.
pub fn path_under(dir: &str, rel: &Vec<String>) -> (r: String)
    ensures
        r@ == under(dir@, components(rel@)),
{
    let mut r = String::from_str(dir);
    let mut k: usize = 0;
    while k < rel.len()
        invariant
            k <= rel.len(),
            r@ == under(dir@, components(rel@.subrange(0, k as int))),
        decreases rel.len() - k,
    {
        proof {
            reveal_strlit("/");
            assert(components(rel@.subrange(0, k + 1)).drop_last() =~= components(rel@.subrange(0, k as int)));
        }
        r.append("/");
        r.append(rel[k].as_str());
        k = k + 1;
    }
    assert(rel@.subrange(0, rel.len() as int) =~= rel@);
    r
}

fn push_entry(files: &mut Vec<FileEntry>, destination: String, source: String)
    ensures
        entries_view(final(files)@) == entries_view(old(files)@).push((destination@, source@)),
{
    let ghost before = files@;
    files.push(FileEntry { destination, source });
    assert(entries_view(files@) =~= entries_view(before).push((destination@, source@)));
}

/// Appends the entries of the direct children of `listing` that `filter` accepts.
pub fn collect_filtered(dest: &str, filter: &NameFilter, listing: &Vec<DirEntry>, files: &mut Vec<FileEntry>)
    ensures
        entries_view(final(files)@) == entries_view(old(files)@) + filtered_entries(dest@, filter.pattern(), listing@),
{
    let ghost start = entries_view(files@);
    let mut k: usize = 0;
    while k < listing.len()
        invariant
            k <= listing.len(),
            entries_view(files@) == start + filtered_entries(dest@, filter.pattern(), listing@.subrange(0, k as int)),
        decreases listing.len() - k,
    {
        let e = &listing[k];
        assert(listing@.subrange(0, k + 1).drop_last() =~= listing@.subrange(0, k as int));
        if e.relative.len() == 1 && filter.is_match(e.relative[0].as_str()) {
            let d = path_under(dest, &e.relative);
            push_entry(files, d, e.source.clone());
        }
        k = k + 1;
    }
    assert(listing@.subrange(0, listing.len() as int) =~= listing@);
}

/// Appends one entry for every regular file of `listing`, at any depth.
pub fn collect_recursively(dest: &str, listing: &Vec<DirEntry>, files: &mut Vec<FileEntry>)
    ensures
        entries_view(final(files)@) == entries_view(old(files)@) + leaf_entries(dest@, listing@),
{
    let ghost start = entries_view(files@);
    let mut k: usize = 0;
    while k < listing.len()
        invariant
            k <= listing.len(),
            entries_view(files@) == start + leaf_entries(dest@, listing@.subrange(0, k as int)),
        decreases listing.len() - k,
    {
        let e = &listing[k];
        assert(listing@.subrange(0, k + 1).drop_last() =~= listing@.subrange(0, k as int));
        if e.is_file {
            let d = path_under(dest, &e.relative);
            push_entry(files, d, e.source.clone());
        }
        k = k + 1;
    }
    assert(listing@.subrange(0, listing.len() as int) =~= listing@);
}

/// Resolves the ingredients, given what each source is on disk, into the file
/// set, the build's own artifact last. Fails on the first ingredient that is
/// neither a file nor a directory, or whose filter does not compile.
pub fn collect(
    ingredients: &Vec<Ingredient>,
    kinds: &Vec<SourceKind>,
    target_directory: &str,
    package_name: &str,
    target_rename: &Option<String>,
) -> (r: Result<Vec<FileEntry>, ResolveError>)
    requires
        ingredients.len() == kinds.len(),
    ensures
        r is Ok <==> (forall|i: int| 0 <= i < ingredients.len() ==> ingredient_ok(ingredients[i], kinds[i])),
        r matches Ok(v) ==> entries_view(v@) == file_set(ingredients@, kinds@, target_directory@, package_name@, *target_rename),
        r matches Err(e) ==> {
            let i = match e {
                ResolveError::NotFileOrDirectory(i) => i as int,
                ResolveError::BadFilter(i) => i as int,
            };
            &&& 0 <= i < ingredients.len()
            &&& !ingredient_ok(ingredients[i], kinds[i])
            &&& (forall|j: int| 0 <= j < i ==> ingredient_ok(ingredients[j], kinds[j]))
            &&& (e is NotFileOrDirectory <==> kinds[i] is Other)
        },
{
    let mut files: Vec<FileEntry> = Vec::new();
    let mut i: usize = 0;
    while i < ingredients.len()
        invariant
            i <= ingredients.len(),
            ingredients.len() == kinds.len(),
            forall|j: int| 0 <= j < i ==> ingredient_ok(ingredients[j], kinds[j]),
            entries_view(files@) == entries_upto(ingredients@, kinds@, i as int),
        decreases ingredients.len() - i,
    {
        let ing = &ingredients[i];
        let ghost before = entries_view(files@);
        match &kinds[i] {
            SourceKind::File => {
                push_entry(&mut files, ing.destination.clone(), ing.source.clone());
                assert(seq![(ing.destination@, ing.source@)] =~= ingredient_entries(*ing, kinds[i as int]));
                assert(before.push((ing.destination@, ing.source@)) =~= before + seq![(ing.destination@, ing.source@)]);
            },
            SourceKind::Directory(listing) => {
                match &ing.filter {
                    Some(p) => {
                        match NameFilter::new(p.as_str()) {
                            Some(f) => collect_filtered(ing.destination.as_str(), &f, listing, &mut files),
                            None => return Err(ResolveError::BadFilter(i)),
                        }
                    },
                    None => collect_recursively(ing.destination.as_str(), listing, &mut files),
                }
            },
            SourceKind::Other => return Err(ResolveError::NotFileOrDirectory(i)),
        }
        i = i + 1;
    }
    let rename = match target_rename {
        Some(s) => s.clone(),
        None => String::from_str(package_name),
    };
    let mut source = String::from_str(target_directory);
    proof {
        reveal_strlit("/");
    }
    source.append("/");
    source.append(package_name);
    assert((rename@, source@) == artifact_entry(target_directory@, package_name@, *target_rename));
    push_entry(&mut files, rename, source);
    Ok(files)
}

/// The file set is never empty: it holds the entries of the ingredients and,
/// after them, exactly one entry for the build's own artifact, which is all
/// it holds when there are no ingredients.
pub proof fn lemma_file_set_shape(
    ings: Seq<Ingredient>,
    kinds: Seq<SourceKind>,
    target_directory: Seq<char>,
    package_name: Seq<char>,
    target_rename: Option<String>,
)
    ensures
        ({
            let fs = file_set(ings, kinds, target_directory, package_name, target_rename);
            &&& fs.len() == entries_upto(ings, kinds, ings.len() as int).len() + 1
            &&& fs.last() == artifact_entry(target_directory, package_name, target_rename)
            &&& fs.drop_last() == entries_upto(ings, kinds, ings.len() as int)
            &&& ings.len() == 0 ==> fs == seq![artifact_entry(target_directory, package_name, target_rename)]
        }),
{
    let fs = file_set(ings, kinds, target_directory, package_name, target_rename);
    assert(fs.drop_last() =~= entries_upto(ings, kinds, ings.len() as int));
    if ings.len() == 0 {
        assert(fs =~= seq![artifact_entry(target_directory, package_name, target_rename)]);
    }
}

/// A single-file ingredient yields exactly its own (destination, source) pair.
pub proof fn lemma_single_file(ing: Ingredient, target_directory: Seq<char>, package_name: Seq<char>, target_rename: Option<String>)
    ensures
        ingredient_entries(ing, SourceKind::File) == seq![(ing.destination@, ing.source@)],
        file_set(seq![ing], seq![SourceKind::File], target_directory, package_name, target_rename)
            == seq![(ing.destination@, ing.source@), artifact_entry(target_directory, package_name, target_rename)],
{
    let ings = seq![ing];
    let kinds = seq![SourceKind::File];
    assert(entries_upto(ings, kinds, 0) == Seq::<(Seq<char>, Seq<char>)>::empty());
    assert(entries_upto(ings, kinds, 1) =~= seq![(ing.destination@, ing.source@)]);
    assert(file_set(ings, kinds, target_directory, package_name, target_rename)
        =~= seq![(ing.destination@, ing.source@), artifact_entry(target_directory, package_name, target_rename)]);
}

/// An unfiltered directory yields one entry per regular file beneath it, at
/// any depth, whose destination mirrors the file's relative path, and nothing
/// else.
pub proof fn lemma_leaf_entries_mirror(dest: Seq<char>, listing: Seq<DirEntry>)
    ensures
        forall|k: int| 0 <= k < listing.len() && listing[k].is_file ==>
            leaf_entries(dest, listing).contains((under(dest, components(listing[k].relative@)), listing[k].source@)),
        forall|m: int| 0 <= m < leaf_entries(dest, listing).len() ==>
            exists|k: int| 0 <= k < listing.len() && (#[trigger] listing[k]).is_file
                && #[trigger] leaf_entries(dest, listing)[m] == (under(dest, components(listing[k].relative@)), listing[k].source@),
        leaf_entries(dest, listing).len() == listing.filter(|e: DirEntry| e.is_file).len(),
    decreases listing.len(),
{
    if listing.len() > 0 {
        let prev = listing.drop_last();
        lemma_leaf_entries_mirror(dest, prev);
        let cur = leaf_entries(dest, listing);
        let old_entries = leaf_entries(dest, prev);
        assert forall|k: int| 0 <= k < listing.len() && listing[k].is_file implies
            cur.contains((under(dest, components(listing[k].relative@)), listing[k].source@)) by {
            if k < listing.len() - 1 {
                assert(prev[k] == listing[k]);
                let x = (under(dest, components(listing[k].relative@)), listing[k].source@);
                let w = choose|w: int| 0 <= w < old_entries.len() && old_entries[w] == x;
                assert(cur[w] == x);
            } else {
                assert(cur[cur.len() - 1] == (under(dest, components(listing[k].relative@)), listing[k].source@));
            }
        }
        assert forall|m: int| 0 <= m < cur.len() implies
            exists|k: int| 0 <= k < listing.len() && (#[trigger] listing[k]).is_file
                && #[trigger] cur[m] == (under(dest, components(listing[k].relative@)), listing[k].source@) by {
            if m < old_entries.len() {
                assert(cur[m] == old_entries[m]);
                let k = choose|k: int| 0 <= k < prev.len() && (#[trigger] prev[k]).is_file
                    && old_entries[m] == (under(dest, components(prev[k].relative@)), prev[k].source@);
                assert(listing[k] == prev[k]);
            } else {
                let k = listing.len() - 1;
                assert(listing[k].is_file);
                assert(cur[m] == (under(dest, components(listing[k].relative@)), listing[k].source@));
            }
        }
        assert(listing.filter(|e: DirEntry| e.is_file).len() == prev.filter(|e: DirEntry| e.is_file).len()
            + if listing.last().is_file { 1int } else { 0int }) by {
            reveal(Seq::filter);
            assert(listing.drop_last() == prev);
        }
    } else {
        assert(leaf_entries(dest, listing).len() == 0);
        reveal(Seq::filter);
    }
}

} // verus!
