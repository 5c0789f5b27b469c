//! Names of the files that hold a segment.
use vstd::prelude::*;
use vstd::string::*;
use crate::text::{pad5, join_path, spec_join_path, spec_pad5};

verus! {

/// The suffix of a segment's log file.
pub const LOG_SUFFIX: &'static str = ".log";

/// The suffix of a segment's index file.
pub const INDEX_SUFFIX: &'static str = ".index";

/// The path of the file of the segment starting at `starting_offset` in
/// `directory`: the offset with five digits, then the suffix.
pub open spec fn spec_segment_file_name(
    directory: Seq<char>,
    starting_offset: u16,
    suffix: Seq<char>,
) -> Seq<char> {
    spec_join_path(directory, spec_pad5(starting_offset) + suffix)
}

/// Given a directory, a starting offset and a file type suffix, creates and
/// returns the path to the file.
pub fn create_segment_file_name(directory: &str, starting_offset: u16, suffix: &str) -> (p: String)
    ensures
        p@ == spec_segment_file_name(directory@, starting_offset, suffix@),
{
    let mut file_name = pad5(starting_offset);
    file_name.append(suffix);
    join_path(directory, file_name.as_str())
}


/// `x` comes before `y` in lexicographic order of their characters.
pub open spec fn spec_sorts_before(x: Seq<char>, y: Seq<char>) -> bool {
    ||| exists|i: int|
        0 <= i < x.len() && i < y.len() && #[trigger] x.subrange(0, i) == y.subrange(0, i) && x[i] < y[i]
    ||| x.len() < y.len() && x == y.subrange(0, x.len() as int)
}

/// Of two different offsets, the five digits of the smaller one come first.
proof fn lemma_pad5_sorts(a: u16, b: u16) -> (k: int)
    requires
        a < b,
    ensures
        0 <= k < 5,
        spec_pad5(a).subrange(0, k) == spec_pad5(b).subrange(0, k),
        spec_pad5(a)[k] < spec_pad5(b)[k],
{
    assert({
        ||| a / 10000 < b / 10000
        ||| a / 10000 == b / 10000 && (a / 1000) % 10 < (b / 1000) % 10
        ||| a / 10000 == b / 10000 && (a / 1000) % 10 == (b / 1000) % 10 && (a / 100) % 10 < (b / 100) % 10
        ||| a / 10000 == b / 10000 && (a / 1000) % 10 == (b / 1000) % 10 && (a / 100) % 10 == (b / 100) % 10
            && (a / 10) % 10 < (b / 10) % 10
        ||| a / 10000 == b / 10000 && (a / 1000) % 10 == (b / 1000) % 10 && (a / 100) % 10 == (b / 100) % 10
            && (a / 10) % 10 == (b / 10) % 10 && a % 10 < b % 10
    }) by (bit_vector)
        requires
            a < b,
    ;
    let pa = spec_pad5(a);
    let pb = spec_pad5(b);
    if a / 10000 < b / 10000 {
        assert(pa.subrange(0, 0) =~= pb.subrange(0, 0));
        0
    } else if (a / 1000) % 10 < (b / 1000) % 10 {
        assert(pa.subrange(0, 1) =~= pb.subrange(0, 1));
        1
    } else if (a / 100) % 10 < (b / 100) % 10 {
        assert(pa.subrange(0, 2) =~= pb.subrange(0, 2));
        2
    } else if (a / 10) % 10 < (b / 10) % 10 {
        assert(pa.subrange(0, 3) =~= pb.subrange(0, 3));
        3
    } else {
        assert(pa.subrange(0, 4) =~= pb.subrange(0, 4));
        4
    }
}

/// Law: in one directory and for one suffix, the file of the segment that
/// starts at the smaller offset has the name that sorts first, so listing
/// the files by name lists the segments in the order of their offsets.
pub proof fn lemma_segment_file_names_sort(directory: Seq<char>, a: u16, b: u16, suffix: Seq<char>)
    requires
        a < b,
    ensures
        spec_sorts_before(
            spec_segment_file_name(directory, a, suffix),
            spec_segment_file_name(directory, b, suffix),
        ),
{
    let k = lemma_pad5_sorts(a, b);
    let p = if directory.len() == 0 || directory.last() == '/' {
        directory
    } else {
        directory + seq!['/']
    };
    let x = spec_segment_file_name(directory, a, suffix);
    let y = spec_segment_file_name(directory, b, suffix);
    let pa = spec_pad5(a);
    let pb = spec_pad5(b);
    assert(x =~= p + (pa + suffix));
    assert(y =~= p + (pb + suffix));
    let i = p.len() + k;
    assert(x.subrange(0, i) =~= p + pa.subrange(0, k));
    assert(y.subrange(0, i) =~= p + pb.subrange(0, k));
    assert(x[i] == pa[k]);
    assert(y[i] == pb[k]);
}

} // verus!
