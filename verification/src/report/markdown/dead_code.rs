//! The dead code section.

use vstd::prelude::*;
use crate::detectors::{ArchSmell, Explanation};
use crate::report::markdown::common::{
    append_explanation, dir_entries, directory_groups, explanation_markdown, group_files_by_directory,
    grouped_by_directory, groups_view, lemma_grouped_by_directory_unique,
};
use crate::text::{append_str, decimal, has_prefix, push_decimal};

verus! {

/// The list of files of one directory: a bold heading with the count, then
/// each file in backquotes.
pub open spec fn directory_block(dir: Seq<char>, files: Seq<Seq<char>>) -> Seq<char> {
    "**"@ + dir + "** ("@ + decimal(files.len()) + " files):\n"@ + file_lines(files) + seq!['\n']
}

/// Each of `files` as a list item in backquotes.
pub open spec fn file_lines(files: Seq<Seq<char>>) -> Seq<char>
    decreases files.len(),
{
    if files.len() == 0 {
        Seq::empty()
    } else {
        file_lines(files.drop_last()) + "- `"@ + files.last() + "`\n"@
    }
}

/// The blocks of `groups`, in order.
pub open spec fn directory_blocks(groups: Seq<(Seq<char>, Seq<Seq<char>>)>) -> Seq<char>
    decreases groups.len(),
{
    if groups.len() == 0 {
        Seq::empty()
    } else {
        directory_blocks(groups.drop_last()) + directory_block(groups.last().0, groups.last().1)
    }
}

/// The section for the dead files `dead`, laid out from `groups`.
pub open spec fn dead_code_section(dead: Seq<(ArchSmell, Explanation)>, groups: Seq<(Seq<char>, Seq<Seq<char>>)>) -> Seq<char> {
    if dead.len() == 0 {
        Seq::empty()
    } else {
        "## Dead Code ("@ + decimal(dead.len()) + " files)\n\n"@ + explanation_markdown(dead[0].1)
            + "### Files by Directory\n\n"@ + directory_blocks(groups)
    }
}

/// The Markdown section listing the dead files `dead`, grouped by directory.
pub fn generate(dead: &[(ArchSmell, Explanation)]) -> (r: String)
    ensures
        grouped_by_directory(directory_groups(dir_entries(dead@)), dir_entries(dead@)),
        r@ == dead_code_section(dead@, directory_groups(dir_entries(dead@))),
{
    if dead.len() == 0 {
        proof {
            let w = Seq::<(Seq<char>, Seq<Seq<char>>)>::empty();
            assert(dir_entries(dead@) =~= Seq::<(Seq<char>, Seq<char>)>::empty());
            assert(grouped_by_directory(w, dir_entries(dead@)));
        }
        let r = String::new();
        return r;
    }
    let mut output = "## Dead Code (".to_owned();
    push_decimal(&mut output, dead.len());
    append_str(&mut output, " files)\n\n");
    append_explanation(&mut output, &dead[0].1);
    append_str(&mut output, "### Files by Directory\n\n");
    let grouped = group_files_by_directory(dead);
    let ghost gv = groups_view(grouped@);
    let ghost head = output@;
    let mut i: usize = 0;
    assert(head + directory_blocks(gv.take(0)) =~= head);
    while i < grouped.len()
        invariant
            i <= grouped@.len(),
            gv == groups_view(grouped@),
            output@ == head + directory_blocks(gv.take(i as int)),
        decreases grouped@.len() - i,
    {
        let (dir, files) = (&grouped[i].0, &grouped[i].1);
        let ghost before = output@;
        append_str(&mut output, "**");
        append_str(&mut output, dir.as_str());
        append_str(&mut output, "** (");
        push_decimal(&mut output, files.len());
        append_str(&mut output, " files):\n");
        let ghost mid = output@;
        let ghost fv = crate::text::str_views(files@);
        let mut k: usize = 0;
        assert(mid + file_lines(fv.take(0)) =~= mid);
        while k < files.len()
            invariant
                k <= files@.len(),
                fv == crate::text::str_views(files@),
                output@ == mid + file_lines(fv.take(k as int)),
            decreases files@.len() - k,
        {
            append_str(&mut output, "- `");
            append_str(&mut output, files[k].as_str());
            append_str(&mut output, "`\n");
            proof {
                assert(fv.take(k + 1).drop_last() =~= fv.take(k as int));
                assert(output@ =~= mid + file_lines(fv.take(k + 1)));
            }
            k = k + 1;
        }
        crate::text::push_char(&mut output, '\n');
        proof {
            assert(fv.take(files@.len() as int) =~= fv);
            assert(gv.take(i + 1).drop_last() =~= gv.take(i as int));
            assert(gv[i as int] == (dir@, fv));
            assert(output@ =~= head + directory_blocks(gv.take(i + 1)));
        }
        i = i + 1;
    }
    proof {
        assert(gv.take(grouped@.len() as int) =~= gv);
        assert(output@ =~= dead_code_section(dead@, gv));
        assert(grouped_by_directory(gv, dir_entries(dead@)));
        lemma_grouped_by_directory_unique(gv, directory_groups(dir_entries(dead@)), dir_entries(dead@));
    }
    output
}

/// The section's heading counts the dead files given: for a non-empty list it
/// begins with `## Dead Code (`, the number of dead-code smells in decimal,
/// and ` files)`, however the files fall into directories.
pub proof fn lemma_dead_code_heading_counts_files(
    dead: Seq<(ArchSmell, Explanation)>,
    groups: Seq<(Seq<char>, Seq<Seq<char>>)>,
)
    requires
        dead.len() > 0,
    ensures
        has_prefix(dead_code_section(dead, groups), "## Dead Code ("@ + decimal(dead.len()) + " files)\n\n"@),
{
    let head = "## Dead Code ("@ + decimal(dead.len()) + " files)\n\n"@;
    let s = dead_code_section(dead, groups);
    assert(s == head + (explanation_markdown(dead[0].1) + "### Files by Directory\n\n"@ + directory_blocks(groups)));
    assert(s.subrange(0, head.len() as int) =~= head);
}

} // verus!
