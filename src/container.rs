use vstd::prelude::*;
use vstd::string::*;

use crate::resolve::FileEntry;

verus! {

/// Position `k` of the path `d` is a separator after a non-empty prefix.
pub open spec fn separator_at(d: Seq<char>, k: int) -> bool {
    0 < k < d.len() && d[k] == '/'
}

/// `p` names a directory above the member `d`: a prefix of `d` that ends in a
/// separator.
pub open spec fn is_dir_prefix(p: Seq<char>, d: Seq<char>) -> bool {
    exists|k: int| #[trigger] separator_at(d, k) && p == d.subrange(0, k + 1)
}

/// `p` is a directory that some member of the file set lies beneath.
pub open spec fn needed_dir(p: Seq<char>, files: Seq<FileEntry>) -> bool {
    exists|i: int| 0 <= i < files.len() && is_dir_prefix(p, #[trigger] files[i].destination@)
}

fn contains_name(v: &Vec<String>, s: &String) -> (r: bool)
    ensures
        r == (exists|i: int| 0 <= i < v.len() && #[trigger] v@[i]@ == s@),
{
    let mut i: usize = 0;
    while i < v.len()
        invariant
            i <= v.len(),
            forall|j: int| 0 <= j < i ==> #[trigger] v@[j]@ != s@,
        decreases v.len() - i,
    {
        if v[i] == *s {
            return true;
        }
        i = i + 1;
    }
    false
}

/// The directory entries that a container with explicit directories needs
/// for the file set: every directory above a member, and each only once.
pub fn directory_entries(files: &Vec<FileEntry>) -> (r: Vec<String>)
    ensures
        forall|i: int| 0 <= i < r.len() ==> needed_dir(#[trigger] r@[i]@, files@),
        forall|p: Seq<char>| needed_dir(p, files@) ==> exists|i: int| 0 <= i < r.len() && #[trigger] r@[i]@ == p,
        forall|i: int, j: int| 0 <= i < j < r.len() ==> r@[i]@ != r@[j]@,
{
    let mut dirs: Vec<String> = Vec::new();
    let mut i: usize = 0;
    while i < files.len()
        invariant
            i <= files.len(),
            forall|a: int| 0 <= a < dirs.len() ==> needed_dir(#[trigger] dirs@[a]@, files@),
            forall|a: int, b: int| 0 <= a < b < dirs.len() ==> dirs@[a]@ != dirs@[b]@,
            forall|m: int, p: Seq<char>| 0 <= m < i && #[trigger] is_dir_prefix(p, files@[m].destination@)
                ==> exists|a: int| 0 <= a < dirs.len() && #[trigger] dirs@[a]@ == p,
        decreases files.len() - i,
    {
        let d = files[i].destination.as_str();
        let n = d.unicode_len();
        let mut k: usize = 1;
        while k < n
            invariant
                i < files.len(),
                d@ == files@[i as int].destination@,
                n == d@.len(),
                1 <= k,
                forall|a: int| 0 <= a < dirs.len() ==> needed_dir(#[trigger] dirs@[a]@, files@),
                forall|a: int, b: int| 0 <= a < b < dirs.len() ==> dirs@[a]@ != dirs@[b]@,
                forall|m: int, p: Seq<char>| 0 <= m < i && #[trigger] is_dir_prefix(p, files@[m].destination@)
                    ==> exists|a: int| 0 <= a < dirs.len() && #[trigger] dirs@[a]@ == p,
                forall|j: int| 0 < j < k && #[trigger] separator_at(d@, j)
                    ==> exists|a: int| 0 <= a < dirs.len() && #[trigger] dirs@[a]@ == d@.subrange(0, j + 1),
            decreases n - k,
        {
            if d.get_char(k) == '/' {
                let p = String::from_str(d.substring_char(0, k + 1));
                assert(separator_at(d@, k as int));
                assert(is_dir_prefix(p@, files@[i as int].destination@));
                if !contains_name(&dirs, &p) {
                    let ghost before = dirs@;
                    dirs.push(p);
                    assert(dirs@[before.len() as int]@ == p@);
                    assert forall|a: int| 0 <= a < dirs.len() implies needed_dir(#[trigger] dirs@[a]@, files@) by {
                        if a < before.len() {
                            assert(dirs@[a] == before[a]);
                        }
                    }
                    assert forall|m: int, q: Seq<char>| 0 <= m < i && #[trigger] is_dir_prefix(q, files@[m].destination@)
                        implies exists|a: int| 0 <= a < dirs.len() && #[trigger] dirs@[a]@ == q by {
                        let a = choose|a: int| 0 <= a < before.len() && #[trigger] before[a]@ == q;
                        assert(dirs@[a] == before[a]);
                    }
                    assert forall|j: int| 0 < j < k + 1 && #[trigger] separator_at(d@, j)
                        implies exists|a: int| 0 <= a < dirs.len() && #[trigger] dirs@[a]@ == d@.subrange(0, j + 1) by {
                        if j < k {
                            let a = choose|a: int| 0 <= a < before.len() && #[trigger] before[a]@ == d@.subrange(0, j + 1);
                            assert(dirs@[a] == before[a]);
                        } else {
                            assert(dirs@[before.len() as int]@ == d@.subrange(0, j + 1));
                        }
                    }
                }
            }
            k = k + 1;
        }
        assert forall|m: int, p: Seq<char>| 0 <= m < i + 1 && #[trigger] is_dir_prefix(p, files@[m].destination@)
            implies exists|a: int| 0 <= a < dirs.len() && #[trigger] dirs@[a]@ == p by {
            if m == i {
                let j = choose|j: int| #[trigger] separator_at(d@, j) && p == d@.subrange(0, j + 1);
                assert(0 < j < k);
            }
        }
        i = i + 1;
    }
    dirs
}

} // verus!
