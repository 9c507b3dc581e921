//! The god modules section: files that do too much, with their metrics and
//! the files around them.

use vstd::prelude::*;
use crate::detectors::{ArchSmell, Explanation};
use crate::order::{lemma_str_order_total, sort_strings, str_order};
use crate::report::facts::{show, shown, SmellFacts};
use crate::report::markdown::common::{append_explanation, explanation_markdown};
use crate::text::{append_str, decimal, push_char, push_decimal, str_views};

verus! {

/// `head`, the number and `tail` where there is a number; else nothing.
pub open spec fn count_line(head: Seq<char>, o: Option<usize>, tail: Seq<char>) -> Seq<char> {
    match o {
        Some(n) => head + decimal(n as nat) + tail,
        None => Seq::empty(),
    }
}

/// The metrics of a god module: fan-in, fan-out and churn, each where known.
pub open spec fn metrics_block(f: SmellFacts) -> Seq<char> {
    "**Metrics:**\n"@ + count_line("- Fan-in: "@, f.fan_in, "\n"@) + count_line("- Fan-out: "@, f.fan_out, "\n"@)
        + count_line("- Churn: "@, f.churn, " commits\n"@) + seq!['\n']
}

/// Each of `paths` as a list item in backquotes.
pub open spec fn path_items(paths: Seq<Seq<char>>) -> Seq<char>
    decreases paths.len(),
{
    if paths.len() == 0 {
        Seq::empty()
    } else {
        path_items(paths.drop_last()) + "- `"@ + paths.last() + "`\n"@
    }
}

/// A list of files under `title`: the first fifteen in order, then how many
/// more there are; nothing where there is none.
pub open spec fn file_list(title: Seq<char>, files: Seq<Seq<char>>) -> Seq<char> {
    if files.len() == 0 {
        Seq::empty()
    } else {
        let sorted = files.sort_by(str_order());
        title + path_items(if sorted.len() > 15 { sorted.take(15) } else { sorted }) + (if files.len() > 15 {
            "- ... and "@ + decimal((files.len() - 15) as nat) + " more\n"@
        } else {
            Seq::empty()
        }) + seq!['\n']
    }
}

/// The file of a god module: its first file, else `Unknown`.
pub open spec fn god_file(s: ArchSmell) -> Seq<char> {
    if s.files@.len() > 0 {
        s.files@[0]@
    } else {
        "Unknown"@
    }
}

/// The part of one god module: a heading with its file and points, its
/// metrics, the files that use it and that it depends on, and its
/// explanation.
pub open spec fn god_block(s: ArchSmell, e: Explanation, f: SmellFacts) -> Seq<char> {
    "### "@ + shown(f, god_file(s)) + " ("@ + decimal(f.score as nat) + " pts)\n\n"@ + metrics_block(f) + file_list(
        "**Used by:**\n"@,
        str_views(f.used_by@),
    ) + file_list("**Depends on:**\n"@, str_views(f.depends_on@)) + explanation_markdown(e)
}

/// The parts of the god modules of `smells`, in order.
pub open spec fn god_blocks(smells: Seq<(ArchSmell, Explanation)>, facts: Seq<SmellFacts>) -> Seq<char>
    decreases smells.len(),
{
    if smells.len() == 0 {
        Seq::empty()
    } else {
        god_blocks(smells.drop_last(), facts) + god_block(smells.last().0, smells.last().1, facts[smells.len() - 1])
    }
}

/// The god modules section: empty where there is no smell; else a heading
/// and the part of each god module.
pub open spec fn god_section(smells: Seq<(ArchSmell, Explanation)>, facts: Seq<SmellFacts>) -> Seq<char> {
    if smells.len() == 0 {
        Seq::empty()
    } else {
        "## God Modules\n\n"@ + god_blocks(smells, facts)
    }
}

fn push_count_line(out: &mut String, head: &str, o: Option<usize>, tail: &str)
    ensures
        final(out)@ == old(out)@ + count_line(head@, o, tail@),
{
    match o {
        Some(n) => {
            append_str(out, head);
            push_decimal(out, n);
            append_str(out, tail);
            assert(out@ =~= old(out)@ + count_line(head@, o, tail@));
        },
        None => {
            assert(out@ =~= old(out)@ + count_line(head@, o, tail@));
        },
    }
}

fn push_file_list(out: &mut String, title: &str, files: &Vec<String>)
    ensures
        final(out)@ == old(out)@ + file_list(title@, str_views(files@)),
{
    if files.len() == 0 {
        assert(out@ =~= old(out)@ + file_list(title@, str_views(files@)));
        return;
    }
    let sorted = sort_strings(files);
    let ghost sv = str_views(sorted@);
    let ghost shown_paths = if sv.len() > 15 { sv.take(15) } else { sv };
    assert(sv.len() == files@.len()) by {
        lemma_str_order_total();
        str_views(files@).lemma_sort_by_ensures(str_order());
        assert(str_views(files@).to_multiset().len() == str_views(files@).len()) by {
            str_views(files@).to_multiset_ensures();
        }
        assert(sv.to_multiset().len() == sv.len()) by {
            sv.to_multiset_ensures();
        }
    }
    let n: usize = if sorted.len() > 15 { 15 } else { sorted.len() };
    append_str(out, title);
    let ghost head = out@;
    let mut k: usize = 0;
    while k < n
        invariant
            k <= n,
            n == shown_paths.len(),
            n <= sorted@.len(),
            sv == str_views(sorted@),
            shown_paths == if sv.len() > 15 { sv.take(15) } else { sv },
            out@ == head + path_items(shown_paths.take(k as int)),
        decreases n - k,
    {
        append_str(out, "- `");
        append_str(out, sorted[k].as_str());
        append_str(out, "`\n");
        proof {
            assert(shown_paths.take(k + 1).drop_last() =~= shown_paths.take(k as int));
            assert(shown_paths[k as int] == sv[k as int]);
            assert(out@ =~= head + path_items(shown_paths.take(k + 1)));
        }
        k = k + 1;
    }
    assert(shown_paths.take(n as int) =~= shown_paths);
    if files.len() > 15 {
        append_str(out, "- ... and ");
        push_decimal(out, files.len() - 15);
        append_str(out, " more\n");
    }
    push_char(out, '\n');
    assert(out@ =~= old(out)@ + file_list(title@, str_views(files@)));
}

#[verifier::rlimit(40)]
fn push_god_block(out: &mut String, s: &ArchSmell, e: &Explanation, f: &SmellFacts)
    ensures
        final(out)@ == old(out)@ + god_block(*s, *e, *f),
{
    proof {
        reveal_strlit("Unknown");
    }
    let file = if s.files.len() > 0 {
        show(f, s.files[0].as_str())
    } else {
        show(f, "Unknown")
    };
    append_str(out, "### ");
    append_str(out, file.as_str());
    append_str(out, " (");
    push_decimal(out, f.score);
    append_str(out, " pts)\n\n");
    let ghost mid = out@;
    append_str(out, "**Metrics:**\n");
    push_count_line(out, "- Fan-in: ", f.fan_in, "\n");
    push_count_line(out, "- Fan-out: ", f.fan_out, "\n");
    push_count_line(out, "- Churn: ", f.churn, " commits\n");
    push_char(out, '\n');
    assert(out@ =~= mid + metrics_block(*f));
    push_file_list(out, "**Used by:**\n", &f.used_by);
    push_file_list(out, "**Depends on:**\n", &f.depends_on);
    append_explanation(out, e);
    assert(out@ =~= old(out)@ + god_block(*s, *e, *f));
}

/// The Markdown section of the god modules `gods`, where `facts[i]` holds
/// what the report shows of the `i`-th.
pub fn generate(gods: &[(ArchSmell, Explanation)], facts: &[SmellFacts]) -> (r: String)
    requires
        facts@.len() == gods@.len(),
    ensures
        r@ == god_section(gods@, facts@),
{
    if gods.len() == 0 {
        return String::new();
    }
    let mut output = "## God Modules\n\n".to_owned();
    let ghost head = output@;
    let ghost sv = gods@;
    let mut i: usize = 0;
    assert(head + god_blocks(sv.take(0), facts@) =~= head);
    while i < gods.len()
        invariant
            i <= sv.len(),
            sv == gods@,
            facts@.len() == sv.len(),
            output@ == head + god_blocks(sv.take(i as int), facts@),
        decreases sv.len() - i,
    {
        push_god_block(&mut output, &gods[i].0, &gods[i].1, &facts[i]);
        proof {
            assert(sv.take(i + 1).drop_last() =~= sv.take(i as int));
            assert(output@ =~= head + god_blocks(sv.take(i + 1), facts@));
        }
        i = i + 1;
    }
    assert(sv.take(sv.len() as int) =~= sv);
    proof {
        reveal_strlit("## God Modules\n\n");
    }
    assert(output@ =~= god_section(gods@, facts@));
    output
}

} // verus!
