//! Paths as text: one rule for putting a component behind a directory.

use vstd::prelude::*;

verus! {

/// `part` placed inside the directory `base`: the two with one `/` between
/// them. No `/` is added behind a `base` that already ends in one, and an
/// empty `base` stands for the current directory, so that `part` then stays
/// as it is.
pub open spec fn joined(base: Seq<char>, part: Seq<char>) -> Seq<char> {
    if base.len() == 0 {
        part
    } else if base.last() == '/' {
        base + part
    } else {
        base + seq!['/'] + part
    }
}

/// Builds the path of `part` inside `base`.
pub fn join(base: &str, part: &str) -> (path: String)
    ensures
        path@ == joined(base@, part@),
{
    let len: usize = base.unicode_len();
    if len == 0 {
        String::from_str(part)
    } else if base.get_char(len - 1) == '/' {
        String::from_str(base).concat(part)
    } else {
        proof {
            reveal_strlit("/");
            assert("/"@ =~= seq!['/']);
        }
        String::from_str(base).concat("/").concat(part)
    }
}

/// What `joined` puts in front of the part: the base with its one `/`.
pub open spec fn head_of(base: Seq<char>) -> Seq<char> {
    if base.len() == 0 || base.last() == '/' {
        base
    } else {
        base + seq!['/']
    }
}

/// Two levels below a root: where neither the root nor the folder is empty
/// or ends in `/`, a file name inside the folder inside the root reads
/// root, `/`, folder, `/`, name.
pub proof fn lemma_layout(root: Seq<char>, folder: Seq<char>, name: Seq<char>)
    requires
        root.len() > 0,
        root.last() != '/',
        folder.len() > 0,
        folder.last() != '/',
    ensures
        joined(joined(root, folder), name) == root + seq!['/'] + folder + seq!['/'] + name,
{
    assert(joined(root, folder).last() == folder.last());
}

/// A part without `/` can be read off the joined path again: if two such
/// parts are joined to any two bases and the results are the same, then the
/// parts are the same.
pub proof fn lemma_join_keeps_part(
    base1: Seq<char>,
    part1: Seq<char>,
    base2: Seq<char>,
    part2: Seq<char>,
)
    requires
        !part1.contains('/'),
        !part2.contains('/'),
        joined(base1, part1) == joined(base2, part2),
    ensures
        part1 == part2,
{
    let head1 = head_of(base1);
    let head2 = head_of(base2);
    assert(joined(base1, part1) =~= head1 + part1);
    assert(joined(base2, part2) =~= head2 + part2);
    if part1.len() < part2.len() {
        // The last character of the longer head is a slash inside the other part.
        let at = head1.len() - 1;
        assert(head1[at] == '/');
        assert((head2 + part2)[at] == part2[at - head2.len()]);
    } else if part2.len() < part1.len() {
        let at = head2.len() - 1;
        assert(head2[at] == '/');
        assert((head1 + part1)[at] == part1[at - head1.len()]);
    } else {
        assert forall|i: int| 0 <= i < part1.len() implies part1[i] == part2[i] by {
            assert((head1 + part1)[head1.len() + i] == part1[i]);
            assert((head2 + part2)[head2.len() + i] == part2[i]);
        }
        assert(part1 =~= part2);
    }
}

} // verus!
