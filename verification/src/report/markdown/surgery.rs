//! The shotgun surgery section: files whose changes drag many other files
//! along.

use vstd::prelude::*;
use crate::detectors::{ArchSmell, Explanation, LocationDetail};
use crate::paths::{path_components, same_path};
use crate::report::facts::{show, shown, text_or, SmellFacts};
use crate::report::markdown::common::{append_explanation, explanation_markdown, lemma_table_rows_step, table_rows};
use crate::text::{append_str, decimal, join, join_strings, push_char, push_decimal, str_views};

verus! {

/// A file changed together with the smell's file: its path in backquotes,
/// then the place's description in brackets where there is one.
pub open spec fn related_item(l: LocationDetail, f: SmellFacts) -> Seq<char> {
    if l.description@.len() == 0 {
        "`"@ + shown(f, l.file@) + "`"@
    } else {
        "`"@ + shown(f, l.file@) + "` ("@ + l.description@ + ")"@
    }
}

/// The items of the places of `ls` whose file is not `first` (as paths are
/// compared), in order.
pub open spec fn related_items(ls: Seq<LocationDetail>, f: SmellFacts, first: Seq<char>) -> Seq<Seq<char>>
    decreases ls.len(),
{
    if ls.len() == 0 {
        Seq::empty()
    } else {
        let prev = related_items(ls.drop_last(), f, first);
        if path_components(ls.last().file@) != path_components(first) {
            prev.push(related_item(ls.last(), f))
        } else {
            prev
        }
    }
}

/// The row of a file with shotgun surgery: its path, the average number of
/// co-changes, the files changed with it and its points; nothing for a smell
/// without files.
pub open spec fn surgery_row(s: ArchSmell, f: SmellFacts) -> Seq<char> {
    if s.files@.len() == 0 {
        Seq::empty()
    } else {
        "| `"@ + shown(f, s.files@[0]@) + "` | "@ + text_or(f.co_change_text, "0.0"@) + " | "@ + join(
            related_items(s.locations@, f, s.files@[0]@),
            ", "@,
        ) + " | "@ + decimal(f.score as nat) + " pts |\n"@
    }
}

/// `surgery_row`, as a function value.
pub open spec fn surgery_row_fn() -> spec_fn(ArchSmell, SmellFacts) -> Seq<char> {
    |s: ArchSmell, f: SmellFacts| surgery_row(s, f)
}

/// The shotgun surgery section: empty where there is no smell; else a
/// heading with the count, the explanation of the first smell, and a table.
pub open spec fn surgery_section(smells: Seq<(ArchSmell, Explanation)>, facts: Seq<SmellFacts>) -> Seq<char> {
    if smells.len() == 0 {
        Seq::empty()
    } else {
        "## Shotgun Surgery ("@ + decimal(smells.len()) + " files)\n\n"@ + explanation_markdown(smells[0].1)
            + "| File | Avg Co-changes | Related Files (Top 5) | pts |\n"@
            + "|------|----------------|-----------------------|-----|\n"@ + table_rows(smells, facts, surgery_row_fn())
            + seq!['\n']
    }
}

fn related_item_of(l: &LocationDetail, f: &SmellFacts) -> (r: String)
    ensures
        r@ == related_item(*l, *f),
{
    let path = show(f, l.file.as_str());
    let mut r = "`".to_owned();
    append_str(&mut r, path.as_str());
    if l.description.unicode_len() == 0 {
        append_str(&mut r, "`");
    } else {
        append_str(&mut r, "` (");
        append_str(&mut r, l.description.as_str());
        append_str(&mut r, ")");
    }
    assert(r@ =~= related_item(*l, *f));
    r
}

fn push_surgery_row(out: &mut String, s: &ArchSmell, f: &SmellFacts)
    ensures
        final(out)@ == old(out)@ + surgery_row(*s, *f),
{
    if s.files.len() == 0 {
        assert(out@ =~= old(out)@ + surgery_row(*s, *f));
        return;
    }
    let first = s.files[0].as_str();
    let mut items: Vec<String> = Vec::new();
    let mut k: usize = 0;
    while k < s.locations.len()
        invariant
            k <= s.locations@.len(),
            first@ == s.files@[0]@,
            str_views(items@) == related_items(s.locations@.take(k as int), *f, first@),
        decreases s.locations@.len() - k,
    {
        assert(s.locations@.take(k + 1).drop_last() =~= s.locations@.take(k as int));
        if !same_path(s.locations[k].file.as_str(), first) {
            let item = related_item_of(&s.locations[k], f);
            let ghost before = str_views(items@);
            items.push(item);
            assert(str_views(items@) =~= before.push(related_item(s.locations@[k as int], *f)));
        }
        k = k + 1;
    }
    assert(s.locations@.take(s.locations@.len() as int) =~= s.locations@);
    let related = join_strings(&items, ", ");
    let path = show(f, first);
    append_str(out, "| `");
    append_str(out, path.as_str());
    append_str(out, "` | ");
    match &f.co_change_text {
        Some(t) => append_str(out, t.as_str()),
        None => append_str(out, "0.0"),
    }
    append_str(out, " | ");
    append_str(out, related.as_str());
    append_str(out, " | ");
    push_decimal(out, f.score);
    append_str(out, " pts |\n");
    assert(out@ =~= old(out)@ + surgery_row(*s, *f));
}

/// The Markdown section of the files with shotgun surgery `shotgun_surgery`,
/// where `facts[i]` holds what the report shows of the `i`-th.
pub fn generate(shotgun_surgery: &[(ArchSmell, Explanation)], facts: &[SmellFacts]) -> (r: String)
    requires
        facts@.len() == shotgun_surgery@.len(),
    ensures
        r@ == surgery_section(shotgun_surgery@, facts@),
{
    if shotgun_surgery.len() == 0 {
        return String::new();
    }
    let mut output = "## Shotgun Surgery (".to_owned();
    push_decimal(&mut output, shotgun_surgery.len());
    append_str(&mut output, " files)\n\n");
    append_explanation(&mut output, &shotgun_surgery[0].1);
    append_str(&mut output, "| File | Avg Co-changes | Related Files (Top 5) | pts |\n");
    append_str(&mut output, "|------|----------------|-----------------------|-----|\n");
    let ghost head = output@;
    let ghost sv = shotgun_surgery@;
    let mut i: usize = 0;
    assert(table_rows(sv.take(0), facts@, surgery_row_fn()) =~= Seq::<char>::empty());
    assert(head + table_rows(sv.take(0), facts@, surgery_row_fn()) =~= head);
    while i < shotgun_surgery.len()
        invariant
            i <= sv.len(),
            sv == shotgun_surgery@,
            facts@.len() == sv.len(),
            output@ == head + table_rows(sv.take(i as int), facts@, surgery_row_fn()),
        decreases sv.len() - i,
    {
        push_surgery_row(&mut output, &shotgun_surgery[i].0, &facts[i]);
        proof {
            lemma_table_rows_step(sv, facts@, surgery_row_fn(), i as int);
        }
        i = i + 1;
    }
    push_char(&mut output, '\n');
    proof {
        assert(sv.take(sv.len() as int) =~= sv);
        reveal_strlit("## Shotgun Surgery (");
        reveal_strlit(" files)\n\n");
    }
    assert(output@ =~= surgery_section(shotgun_surgery@, facts@));
    output
}

} // verus!
