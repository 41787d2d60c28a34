//! Which rows the Settings pane shows, and in what order. Under a search, every section's rows
//! whose words on screen hold the query; otherwise the open section's rows, gathered by their
//! heading in the order the headings first appear, so no heading is split in two.

use vstd::prelude::*;
use crate::text::{
    chars_of, contains_text, each_once, first_met, has_infix, string_from_chars, trim, trimmed,
};
use crate::ui::settings_sheet::sheet::Section;

verus! {

/// A row of the pane: the section it is filed under, its setting's key and its heading's key,
/// and the words on screen -- its label, the title shown in place of the label where there is
/// one, the sentence saying what it does, and its heading -- as the reader's language has them.
pub struct SettingRow {
    pub section: Section,
    pub key: String,
    pub group: String,
    pub label: String,
    pub title: Option<String>,
    pub note: String,
    pub heading: String,
}

/// Text in lower case, as `str::to_lowercase` writes it (Unicode's mapping, a character at a
/// time, with its few context rules).
pub uninterp spec fn lowercase_of(text: Seq<char>) -> Seq<char>;

/// `str::to_lowercase`. Claimed: the result is a function of the text alone, named
/// `lowercase_of`; what that function is takes Unicode's case tables to say.
#[verifier::external_body]
fn lowercase(text: &str) -> (r: String)
    ensures
        r@ == lowercase_of(text@),
{
    text.to_lowercase()
}

/// Whether one of the row's words on screen, in lower case, holds the query.
pub open spec fn holds(row: SettingRow, query: Seq<char>) -> bool {
    ||| has_infix(lowercase_of(row.label@), query)
    ||| (row.title matches Some(t) && has_infix(lowercase_of(t@), query))
    ||| has_infix(lowercase_of(row.note@), query)
    ||| has_infix(lowercase_of(row.heading@), query)
}

/// Whether the pane shows a row: the row of `found` only while builds are fetched on their
/// own; then, under a search (a query that is not empty), a row whose words hold it, and
/// otherwise a row of the open section.
pub open spec fn wanted(
    row: SettingRow,
    section: Section,
    query: Seq<char>,
    auto_update: bool,
    found: Seq<char>,
) -> bool {
    &&& auto_update || row.key@ != found
    &&& if query.len() > 0 {
        holds(row, query)
    } else {
        row.section == section
    }
}

/// The places of the first `k` rows that the pane shows, in order.
pub open spec fn picked(
    rows: Seq<SettingRow>,
    k: int,
    section: Section,
    query: Seq<char>,
    auto_update: bool,
    found: Seq<char>,
) -> Seq<usize>
    decreases k,
{
    if k <= 0 {
        Seq::empty()
    } else {
        let before = picked(rows, k - 1, section, query, auto_update, found);
        if wanted(rows[k - 1], section, query, auto_update, found) {
            before.push((k - 1) as usize)
        } else {
            before
        }
    }
}

/// The heading keys of the rows at these places.
pub open spec fn groups_at(rows: Seq<SettingRow>, places: Seq<usize>) -> Seq<Seq<char>> {
    places.map_values(|i: usize| rows[i as int].group@)
}

/// The places among these whose row is under this heading, in order.
pub open spec fn under(rows: Seq<SettingRow>, places: Seq<usize>, group: Seq<char>) -> Seq<usize>
    decreases places.len(),
{
    if places.len() == 0 {
        Seq::empty()
    } else {
        let before = under(rows, places.drop_last(), group);
        if rows[places.last() as int].group@ == group {
            before.push(places.last())
        } else {
            before
        }
    }
}

/// The places gathered heading by heading, the headings in the order given.
pub open spec fn gathered(rows: Seq<SettingRow>, places: Seq<usize>, groups: Seq<Seq<char>>) -> Seq<
    usize,
>
    decreases groups.len(),
{
    if groups.len() == 0 {
        Seq::empty()
    } else {
        gathered(rows, places, groups.drop_last()) + under(rows, places, groups.last())
    }
}

/// The rows the pane shows, by their places: under a search, those that match, in their
/// order; otherwise the open section's, gathered by heading in the order the headings first
/// appear, keeping their order within each heading.
pub open spec fn shown_of(
    rows: Seq<SettingRow>,
    section: Section,
    query: Seq<char>,
    auto_update: bool,
    found: Seq<char>,
) -> Seq<usize> {
    let places = picked(rows, rows.len() as int, section, query, auto_update, found);
    if query.len() > 0 {
        places
    } else {
        gathered(rows, places, first_met(groups_at(rows, places)))
    }
}

/// Whether one text, in lower case, holds the query.
fn holds_text(text: &String, query: &Vec<char>) -> (r: bool)
    ensures
        r == has_infix(lowercase_of(text@), query@),
{
    let lower = lowercase(text.as_str());
    let chars = chars_of(lower.as_str());
    contains_text(chars.as_slice(), query.as_slice())
}

/// The rows the Settings pane shows, by their places in `rows`: `query` is what the search
/// field holds, `auto_update` whether builds are fetched on their own, and `found` the key of
/// the row that says what happens when one is, shown only then.
pub fn shown_rows(
    rows: &[SettingRow],
    section: Section,
    query: &str,
    auto_update: bool,
    found: &str,
) -> (r: Vec<usize>)
    ensures
        r@ == shown_of(rows@, section, lowercase_of(trim(query@)), auto_update, found@),
{
    let typed = string_from_chars(trimmed(query).as_slice());
    let lower = lowercase(typed.as_str());
    let q = chars_of(lower.as_str());
    let searching = q.len() > 0;
    let found = String::from_str(found);
    let ghost query_seen = lowercase_of(trim(query@));
    let mut places: Vec<usize> = Vec::new();
    let mut i: usize = 0;
    while i < rows.len()
        invariant
            i <= rows@.len(),
            q@ == query_seen,
            searching == (q@.len() > 0),
            places@ == picked(rows@, i as int, section, query_seen, auto_update, found@),
            forall|j: int| 0 <= j < places@.len() ==> places@[j] < i,
        decreases rows.len() - i,
    {
        let row = &rows[i];
        let visible = auto_update || !(row.key == found);
        let matched = if searching {
            let title = match &row.title {
                Some(t) => holds_text(t, &q),
                None => false,
            };
            holds_text(&row.label, &q) || title || holds_text(&row.note, &q) || holds_text(
                &row.heading,
                &q,
            )
        } else {
            row.section == section
        };
        if visible && matched {
            places.push(i);
        }
        i = i + 1;
    }
    assert(rows@.len() as int == rows.len());
    if searching {
        return places;
    }
    let mut groups: Vec<String> = Vec::new();
    let mut k: usize = 0;
    while k < places.len()
        invariant
            k <= places@.len(),
            forall|j: int| 0 <= j < places@.len() ==> places@[j] < rows@.len(),
            groups@.map_values(|g: String| g@) == groups_at(rows@, places@.take(k as int)),
        decreases places.len() - k,
    {
        let at = places[k];
        groups.push(rows[at].group.clone());
        assert(groups_at(rows@, places@.take(k + 1)) =~= groups_at(rows@, places@.take(k as int)).push(
            rows@[at as int].group@,
        ));
        assert(groups@.map_values(|g: String| g@) =~= groups_at(rows@, places@.take(k + 1)));
        k = k + 1;
    }
    assert(places@.take(places@.len() as int) =~= places@);
    let order = each_once(groups.as_slice());
    let ghost heads = order@.map_values(|g: String| g@);
    let mut out: Vec<usize> = Vec::new();
    let mut g: usize = 0;
    while g < order.len()
        invariant
            g <= order@.len(),
            heads == order@.map_values(|g: String| g@),
            forall|j: int| 0 <= j < places@.len() ==> places@[j] < rows@.len(),
            out@ == gathered(rows@, places@, heads.take(g as int)),
        decreases order.len() - g,
    {
        let mut part: Vec<usize> = Vec::new();
        let mut k: usize = 0;
        while k < places.len()
            invariant
                k <= places@.len(),
                g < order@.len(),
                forall|j: int| 0 <= j < places@.len() ==> places@[j] < rows@.len(),
                part@ == under(rows@, places@.take(k as int), order@[g as int]@),
            decreases places.len() - k,
        {
            let at = places[k];
            assert(places@.take(k + 1).drop_last() =~= places@.take(k as int));
            if rows[at].group == order[g] {
                part.push(at);
            }
            k = k + 1;
        }
        assert(places@.take(places@.len() as int) =~= places@);
        assert(heads.take(g + 1).drop_last() =~= heads.take(g as int));
        let ghost before = out@;
        out.append(&mut part);
        assert(out@ =~= gathered(rows@, places@, heads.take(g + 1)));
        g = g + 1;
    }
    assert(heads.take(heads.len() as int) =~= heads);
    out
}


/// The heading key of the row at a place.
pub open spec fn group_at(rows: Seq<SettingRow>, place: usize) -> Seq<char> {
    rows[place as int].group@
}

/// No heading twice.
pub open spec fn distinct(groups: Seq<Seq<char>>) -> bool {
    forall|a: int, b: int| 0 <= a < b < groups.len() ==> groups[a] != groups[b]
}

/// No heading split in two: whatever lies between two rows under one heading is under it too.
pub open spec fn unsplit(rows: Seq<SettingRow>, shown: Seq<usize>) -> bool {
    forall|a: int, b: int, c: int|
        #![trigger shown[a], shown[b], shown[c]]
        0 <= a < b < c < shown.len() && group_at(rows, shown[a]) == group_at(rows, shown[c])
            ==> group_at(rows, shown[b]) == group_at(rows, shown[a])
}

proof fn lemma_under_one_heading(rows: Seq<SettingRow>, places: Seq<usize>, group: Seq<char>)
    ensures
        forall|i: int|
            0 <= i < under(rows, places, group).len() ==> group_at(
                rows,
                #[trigger] under(rows, places, group)[i],
            ) == group,
    decreases places.len(),
{
    if places.len() > 0 {
        lemma_under_one_heading(rows, places.drop_last(), group);
        let before = under(rows, places.drop_last(), group);
        let now = under(rows, places, group);
        assert forall|i: int| 0 <= i < now.len() implies group_at(rows, #[trigger] now[i]) == group by {
            if i < before.len() {
                assert(now[i] == before[i]);
            }
        }
    }
}

proof fn lemma_gathered_unsplit(rows: Seq<SettingRow>, places: Seq<usize>, groups: Seq<Seq<char>>)
    requires
        distinct(groups),
    ensures
        forall|i: int|
            0 <= i < gathered(rows, places, groups).len() ==> groups.contains(
                group_at(rows, #[trigger] gathered(rows, places, groups)[i]),
            ),
        unsplit(rows, gathered(rows, places, groups)),
    decreases groups.len(),
{
    if groups.len() > 0 {
        let first = groups.drop_last();
        let last = groups.last();
        assert(distinct(first));
        lemma_gathered_unsplit(rows, places, first);
        lemma_under_one_heading(rows, places, last);
        let head = gathered(rows, places, first);
        let block = under(rows, places, last);
        let all = gathered(rows, places, groups);
        assert(all =~= head + block);
        assert(!first.contains(last)) by {
            if first.contains(last) {
                let k = choose|k: int| 0 <= k < first.len() && first[k] == last;
                assert(groups[k] == groups[groups.len() - 1]);
            }
        }
        assert forall|i: int| 0 <= i < all.len() implies groups.contains(
            group_at(rows, #[trigger] all[i]),
        ) by {
            if i < head.len() {
                assert(all[i] == head[i]);
                let k = choose|k: int| 0 <= k < first.len() && first[k] == group_at(rows, head[i]);
                assert(groups[k] == first[k]);
            } else {
                assert(all[i] == block[i - head.len()]);
                assert(groups[groups.len() - 1] == last);
            }
        }
        assert forall|a: int, b: int, c: int|
            #![trigger all[a], all[b], all[c]]
            0 <= a < b < c < all.len() && group_at(rows, all[a]) == group_at(rows, all[c])
                implies group_at(rows, all[b]) == group_at(rows, all[a]) by {
            if c < head.len() {
                assert(all[a] == head[a] && all[b] == head[b] && all[c] == head[c]);
            } else if a >= head.len() {
                assert(all[a] == block[a - head.len()]);
                assert(all[b] == block[b - head.len()]);
                assert(all[c] == block[c - head.len()]);
            } else {
                assert(all[a] == head[a]);
                assert(all[c] == block[c - head.len()]);
                assert(first.contains(group_at(rows, head[a])));
            }
        }
    }
}

/// Without a search, no heading is split in two: the rows under one heading are shown
/// together, however the section lists them.
pub proof fn law_a_heading_is_never_split(
    rows: Seq<SettingRow>,
    section: Section,
    auto_update: bool,
    found: Seq<char>,
)
    ensures
        unsplit(rows, shown_of(rows, section, Seq::empty(), auto_update, found)),
{
    let places = picked(rows, rows.len() as int, section, Seq::empty(), auto_update, found);
    let groups = first_met(groups_at(rows, places));
    crate::ui::rules_window::law_each_host_once(groups_at(rows, places));
    lemma_gathered_unsplit(rows, places, groups);
}

} // verus!
