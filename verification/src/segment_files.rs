//! Which files of a commit log's directory make up its segments.
//!
//! A segment is stored as two files sharing a name: `NNNNN.log` and
//! `NNNNN.index`. Names are split as paths split a file name: the
//! extension follows the last dot, unless that dot starts the name.
use vstd::prelude::*;
use vstd::string::*;

verus! {

/// The position of the last dot among the first `n` characters, or -1.
pub open spec fn spec_last_dot(name: Seq<char>, n: int) -> int
    decreases n,
{
    if n <= 0 {
        -1
    } else if name[n - 1] == '.' {
        n - 1
    } else {
        spec_last_dot(name, n - 1)
    }
}

/// The stem of a file name and its extension, if it has one.
pub open spec fn spec_split_name(name: Seq<char>) -> (Seq<char>, Option<Seq<char>>) {
    let p = spec_last_dot(name, name.len() as int);
    if p <= 0 {
        (name, None)
    } else {
        (name.subrange(0, p), Some(name.subrange(p + 1, name.len() as int)))
    }
}

/// The stem of a file name.
pub open spec fn spec_stem(name: Seq<char>) -> Seq<char> {
    spec_split_name(name).0
}

/// The name has the extension `ext`.
pub open spec fn spec_has_ext(name: Seq<char>, ext: Seq<char>) -> bool {
    spec_split_name(name).1 == Some(ext)
}

/// The name of the file with the given stem and extension.
pub open spec fn spec_with_ext(stem: Seq<char>, ext: Seq<char>) -> Seq<char> {
    stem + seq!['.'] + ext
}

/// The name is that of a log file or of an index file.
pub open spec fn spec_is_segment_file(name: Seq<char>) -> bool {
    spec_has_ext(name, "log"@) || spec_has_ext(name, "index"@)
}

/// On loading a directory: the stem of an index file whose log file is
/// there too names a segment to load.
pub open spec fn spec_loadable_stem(names: Seq<Seq<char>>, name: Seq<char>) -> Option<Seq<char>> {
    if spec_has_ext(name, "index"@) && names.contains(
        spec_with_ext(spec_stem(name), "log"@),
    ) {
        Some(spec_stem(name))
    } else {
        None
    }
}

/// On loading a directory: a log file without its index file, or an index
/// file without its log file, is removed.
pub open spec fn spec_stale_file(names: Seq<Seq<char>>, name: Seq<char>) -> Option<Seq<char>> {
    if spec_has_ext(name, "log"@) && !names.contains(spec_with_ext(spec_stem(name), "index"@)) {
        Some(name)
    } else if spec_has_ext(name, "index"@) && !names.contains(
        spec_with_ext(spec_stem(name), "log"@),
    ) {
        Some(name)
    } else {
        None
    }
}

/// On reloading a directory: the stems whose log and index files are both
/// there, each listed when its second file is met.
pub open spec fn spec_complete_stems(names: Seq<Seq<char>>) -> Seq<Seq<char>>
    decreases names.len(),
{
    if names.len() == 0 {
        Seq::empty()
    } else {
        let rest = spec_complete_stems(names.drop_last());
        let n = names.last();
        if spec_is_segment_file(n) && exists|j: int|
            0 <= j < names.len() - 1 && spec_is_segment_file(#[trigger] names[j]) && spec_stem(
                names[j],
            ) == spec_stem(n) {
            rest.push(spec_stem(n))
        } else {
            rest
        }
    }
}

/// The views of a list of names.
pub open spec fn spec_views(names: Seq<String>) -> Seq<Seq<char>> {
    names.map_values(|s: String| s@)
}

proof fn lemma_last_dot_bounds(name: Seq<char>, n: int)
    requires
        0 <= n <= name.len(),
    ensures
        -1 <= spec_last_dot(name, n) < n,
    decreases n,
{
    if n > 0 {
        lemma_last_dot_bounds(name, n - 1);
    }
}

/// Finds the position of the last dot of a name, or -1.
fn last_dot(name: &str) -> (p: i64)
    requires
        name@.len() < i64::MAX,
    ensures
        p == spec_last_dot(name@, name@.len() as int),
        -1 <= p < name@.len(),
{
    proof {
        lemma_last_dot_bounds(name@, name@.len() as int);
    }
    let n = name.unicode_len();
    let mut i: usize = n;
    while i > 0
        invariant
            n == name@.len(),
            n < i64::MAX,
            i <= n,
            forall|j: int| i <= j < n ==> name@[j] != '.',
            spec_last_dot(name@, n as int) == spec_last_dot(name@, i as int),
        decreases i,
    {
        if name.get_char(i - 1) == '.' {
            return (i - 1) as i64;
        }
        i = i - 1;
    }
    -1
}

/// Splits a file name into its stem and its extension.
pub fn split_name(name: &str) -> (r: (String, Option<String>))
    requires
        name@.len() < i64::MAX,
    ensures
        r.0@ == spec_split_name(name@).0,
        match (r.1, spec_split_name(name@).1) {
            (Some(e), Some(x)) => e@ == x,
            (None, None) => true,
            _ => false,
        },
{
    let p = last_dot(name);
    let n = name.unicode_len();
    if p <= 0 {
        (String::from_str(name), None)
    } else {
        let pu = p as usize;
        let stem = String::from_str(name.substring_char(0, pu));
        let ext = String::from_str(name.substring_char(pu + 1, n));
        (stem, Some(ext))
    }
}

/// Tells whether `names` holds `name`.
fn contains_name(names: &Vec<String>, name: &str) -> (b: bool)
    ensures
        b == spec_views(names@).contains(name@),
{
    let mut i: usize = 0;
    while i < names.len()
        invariant
            i <= names@.len(),
            forall|j: int| 0 <= j < i ==> names@[j]@ != name@,
        decreases names@.len() - i,
    {
        if crate::text::str_equal(names[i].as_str(), name) {
            proof {
                assert(spec_views(names@)[i as int] == name@);
            }
            return true;
        }
        i = i + 1;
    }
    proof {
        if spec_views(names@).contains(name@) {
            let j = choose|j: int| 0 <= j < spec_views(names@).len() && spec_views(names@)[j] == name@;
            assert(names@[j]@ == name@);
        }
    }
    false
}

/// The name of the file with the given stem and extension.
fn with_ext(stem: &str, ext: &str) -> (n: String)
    ensures
        n@ == spec_with_ext(stem@, ext@),
{
    let mut n = String::from_str(stem);
    proof {
        reveal_strlit(".");
    }
    n.append(".");
    n.append(ext);
    n
}

/// Tells whether the name has the extension given.
fn has_ext(split: &(String, Option<String>), ext: &str) -> (b: bool)
    ensures
        b == (match split.1 {
            Some(e) => e@ == ext@,
            None => false,
        }),
{
    match &split.1 {
        Some(e) => crate::text::str_equal(e.as_str(), ext),
        None => false,
    }
}

/// Looks through the file names of a commit log's directory on loading it:
/// gives the stems of the segments to load (each index file whose log file
/// is there) and the names of the files to remove (a log or index file
/// whose companion is missing), both in the order of the names.
pub fn plan_load(names: &Vec<String>) -> (r: (Vec<String>, Vec<String>))
    requires
        forall|i: int| 0 <= i < names@.len() ==> (#[trigger] names@[i])@.len() < i64::MAX,
    ensures
        spec_views(r.0@) == spec_views(names@).filter_map(
            |n: Seq<char>| spec_loadable_stem(spec_views(names@), n),
        ),
        spec_views(r.1@) == spec_views(names@).filter_map(
            |n: Seq<char>| spec_stale_file(spec_views(names@), n),
        ),
{
    let ghost all = spec_views(names@);
    let ghost fl = |n: Seq<char>| spec_loadable_stem(all, n);
    let ghost fs = |n: Seq<char>| spec_stale_file(all, n);
    let mut valid: Vec<String> = Vec::new();
    let mut stale: Vec<String> = Vec::new();
    let mut i: usize = 0;
    while i < names.len()
        invariant
            i <= names@.len(),
            all == spec_views(names@),
            fl == (|n: Seq<char>| spec_loadable_stem(all, n)),
            fs == (|n: Seq<char>| spec_stale_file(all, n)),
            forall|k: int| 0 <= k < names@.len() ==> (#[trigger] names@[k])@.len() < i64::MAX,
            spec_views(valid@) == all.take(i as int).filter_map(fl),
            spec_views(stale@) == all.take(i as int).filter_map(fs),
        decreases names@.len() - i,
    {
        let name = names[i].as_str();
        let split = split_name(name);
        let is_log = has_ext(&split, "log");
        let is_index = has_ext(&split, "index");
        let stem = split.0.as_str();
        proof {
            reveal_strlit("log");
            reveal_strlit("index");
            all.lemma_filter_map_take_succ(fl, i as int);
            all.lemma_filter_map_take_succ(fs, i as int);
            assert(all[i as int] == name@);
        }
        let ghost v0 = valid@;
        let ghost s0 = stale@;
        if is_log {
            let index_name = with_ext(stem, "index");
            if !contains_name(names, index_name.as_str()) {
                stale.push(names[i].clone());
                assert(spec_views(stale@) =~= spec_views(s0).push(name@));
            } else {
                assert(spec_views(stale@) =~= spec_views(s0));
            }
            assert(spec_views(valid@) =~= spec_views(v0));
        } else if is_index {
            let log_name = with_ext(stem, "log");
            if contains_name(names, log_name.as_str()) {
                valid.push(split.0.clone());
                assert(spec_views(valid@) =~= spec_views(v0).push(split.0@));
                assert(spec_views(stale@) =~= spec_views(s0));
            } else {
                stale.push(names[i].clone());
                assert(spec_views(stale@) =~= spec_views(s0).push(name@));
                assert(spec_views(valid@) =~= spec_views(v0));
            }
        } else {
            assert(spec_views(valid@) =~= spec_views(v0));
            assert(spec_views(stale@) =~= spec_views(s0));
        }
        i = i + 1;
    }
    proof {
        assert(all.take(names@.len() as int) =~= all);
    }
    (valid, stale)
}

/// The name is that of a log file or of an index file.
fn is_segment_file(split: &(String, Option<String>)) -> (b: bool)
    ensures
        b == (match split.1 {
            Some(e) => e@ == "log"@ || e@ == "index"@,
            None => false,
        }),
{
    has_ext(split, "log") || has_ext(split, "index")
}

/// Looks through the file names of a commit log's directory on reloading
/// it: gives the stems whose log file and index file are both there, each
/// when its second file is met.
pub fn complete_stems(names: &Vec<String>) -> (stems: Vec<String>)
    requires
        forall|i: int| 0 <= i < names@.len() ==> (#[trigger] names@[i])@.len() < i64::MAX,
    ensures
        spec_views(stems@) == spec_complete_stems(spec_views(names@)),
{
    let ghost all = spec_views(names@);
    let mut stems: Vec<String> = Vec::new();
    let mut i: usize = 0;
    while i < names.len()
        invariant
            i <= names@.len(),
            all == spec_views(names@),
            forall|k: int| 0 <= k < names@.len() ==> (#[trigger] names@[k])@.len() < i64::MAX,
            spec_views(stems@) == spec_complete_stems(all.take(i as int)),
        decreases names@.len() - i,
    {
        let split = split_name(names[i].as_str());
        let ghost prefix = all.take(i + 1);
        proof {
            assert(prefix.drop_last() =~= all.take(i as int));
            assert(prefix.last() == names@[i as int]@);
        }
        if is_segment_file(&split) {
            let mut j: usize = 0;
            let mut found = false;
            while j < i
                invariant
                    j <= i < names@.len(),
                    all == spec_views(names@),
                    prefix == all.take(i + 1),
                    split.0@ == spec_stem(prefix.last()),
                    forall|k: int| 0 <= k < names@.len() ==> (#[trigger] names@[k])@.len() < i64::MAX,
                    found == exists|k: int|
                        0 <= k < j && spec_is_segment_file(#[trigger] prefix[k]) && spec_stem(
                            prefix[k],
                        ) == spec_stem(prefix.last()),
                decreases i - j,
            {
                let other = split_name(names[j].as_str());
                proof {
                    assert(prefix[j as int] == names@[j as int]@);
                }
                let hit = is_segment_file(&other) && crate::text::str_equal(
                    other.0.as_str(),
                    split.0.as_str(),
                );
                assert(hit == (spec_is_segment_file(prefix[j as int]) && spec_stem(prefix[j as int])
                    == spec_stem(prefix.last())));
                if hit {
                    found = true;
                }
                j = j + 1;
            }
            let ghost s0 = stems@;
            if found {
                stems.push(split.0.clone());
                assert(spec_views(stems@) =~= spec_views(s0).push(split.0@));
            }
        }
        i = i + 1;
    }
    proof {
        assert(all.take(names@.len() as int) =~= all);
    }
    stems
}

} // verus!
