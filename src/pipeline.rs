//! Laws of the whole run: selection followed by assembly.

use vstd::prelude::*;
use crate::assemble::{bundle_text, contribution, sections, LoadedFile};
use crate::pattern::any_hits;
use crate::select::{
    in_vcs_dir, is_selection, lemma_every_match_listed_once, lemma_selection_deterministic, lex_lt,
    WalkEntry,
};

verus! {

/// The files were loaded for the listed paths, in the listed order.
pub open spec fn loaded_for(files: Seq<LoadedFile>, paths: Seq<Seq<char>>) -> bool {
    &&& files.len() == paths.len()
    &&& forall|i: int| 0 <= i < files.len() ==> (#[trigger] files[i]).path@ == paths[i]
}

proof fn lemma_sections_agree(f1: Seq<LoadedFile>, f2: Seq<LoadedFile>, include_binary: bool)
    requires
        f1.len() == f2.len(),
        forall|i: int|
            0 <= i < f1.len() ==> (#[trigger] f1[i]).path@ == f2[i].path@ && f1[i].content
                == f2[i].content,
    ensures
        sections(f1, include_binary) == sections(f2, include_binary),
    decreases f1.len(),
{
    if f1.len() > 0 {
        let (a, b) = (f1.drop_last(), f2.drop_last());
        assert forall|i: int| 0 <= i < a.len() implies (#[trigger] a[i]).path@ == b[i].path@
            && a[i].content == b[i].content by {
            assert(a[i] == f1[i] && b[i] == f2[i]);
        }
        lemma_sections_agree(a, b, include_binary);
        assert(f1.last() == f1[f1.len() - 1]);
        assert(contribution(f1.last().path@, f1.last().content, include_binary) == contribution(
            f2.last().path@,
            f2.last().content,
            include_binary,
        ));
    }
}

/// Running twice over an unchanged tree with the same patterns and setting
/// gives byte-identical bundles: both runs select the same list, and each
/// path reads the same content.
pub proof fn lemma_run_repeatable(
    entries: Seq<WalkEntry>,
    includes: Seq<Seq<char>>,
    excludes: Seq<Seq<char>>,
    r1: Seq<Seq<char>>,
    r2: Seq<Seq<char>>,
    files1: Seq<LoadedFile>,
    files2: Seq<LoadedFile>,
    include_binary: bool,
)
    requires
        is_selection(r1, entries, includes, excludes),
        is_selection(r2, entries, includes, excludes),
        loaded_for(files1, r1),
        loaded_for(files2, r2),
        forall|i: int, j: int|
            0 <= i < files1.len() && 0 <= j < files2.len() && (#[trigger] files1[i]).path@ == (
            #[trigger] files2[j]).path@ ==> files1[i].content == files2[j].content,
    ensures
        bundle_text(files1, include_binary) == bundle_text(files2, include_binary),
{
    lemma_selection_deterministic(r1, r2, entries, includes, excludes);
    assert forall|i: int| 0 <= i < files1.len() implies (#[trigger] files1[i]).path@
        == files2[i].path@ && files1[i].content == files2[i].content by {
        assert(files1[i].path@ == r1[i] && files2[i].path@ == r2[i]);
    }
    lemma_sections_agree(files1, files2, include_binary);
}

/// With no exclude patterns, each regular file outside `.git` that an include
/// pattern hits is loaded exactly once, and the files are in strictly
/// increasing lexicographic order of their paths; so a text file has exactly
/// one section in the bundle, in that order.
pub proof fn lemma_match_loaded_once(
    entries: Seq<WalkEntry>,
    includes: Seq<Seq<char>>,
    r: Seq<Seq<char>>,
    files: Seq<LoadedFile>,
    k: int,
)
    requires
        is_selection(r, entries, includes, Seq::empty()),
        loaded_for(files, r),
        0 <= k < entries.len(),
        entries[k].is_file,
        !in_vcs_dir(entries[k].path@),
        any_hits(includes, entries[k].path@),
    ensures
        exists|i: int| 0 <= i < files.len() && (#[trigger] files[i]).path@ == entries[k].path@,
        forall|i: int, j: int|
            0 <= i < files.len() && 0 <= j < files.len() && (#[trigger] files[i]).path@
                == entries[k].path@ && (#[trigger] files[j]).path@ == entries[k].path@ ==> i == j,
        forall|i: int, j: int|
            0 <= i < j < files.len() ==> lex_lt((#[trigger] files[i]).path@, (#[trigger] files[j]).path@),
{
    lemma_every_match_listed_once(r, entries, includes, k);
    let i0 = choose|i: int| 0 <= i < r.len() && r[i] == entries[k].path@;
    assert(files[i0].path@ == entries[k].path@);
    assert forall|i: int, j: int|
        0 <= i < files.len() && 0 <= j < files.len() && (#[trigger] files[i]).path@
            == entries[k].path@ && (#[trigger] files[j]).path@ == entries[k].path@ implies i == j by {
        assert(r[i] == entries[k].path@ && r[j] == entries[k].path@);
    }
    assert forall|i: int, j: int| 0 <= i < j < files.len() implies lex_lt(
        (#[trigger] files[i]).path@,
        (#[trigger] files[j]).path@,
    ) by {
        assert(files[i].path@ == r[i] && files[j].path@ == r[j]);
    }
}

} // verus!
