use vstd::prelude::*;
use crate::index::{priority, row_before, rows_sorted, ListItem};
use crate::resource::Resource;
use crate::search::{
    name_matches_all, long_words, phrase_chunks, dir_names, file_hits, first_index, head_hit, is_hit, matching_file_names, walk, walk_dirs,
    walk_ready,
};
use crate::sort::{lemma_seq_le_total_ordering, lex_lt_from, seq_le_rel, seq_lt, sorted_names};
use crate::text::{contains_seq, lemma_words_are_nonempty_and_whitespace_free, lowercase, no_whitespace, words};
use crate::tree::TreeEntry;
use vstd::utf8::encode_utf8;
use crate::navigation::{
    backspace_nav, click_nav, current_item, first_pos, key_nav, pointer_down_nav, pointer_up_nav,
    next_path, remove_all, row_names, set_path_nav, tabs_activated, tabs_added, tabs_removed, Nav,
};

verus! {

/// The first position found holds the name looked for.
proof fn lemma_first_pos_found(names: Seq<Seq<char>>, name: Seq<char>, i: int)
    ensures
        first_pos(names, name, i) == -1 || (0 <= i <= first_pos(names, name, i) < names.len()
            && names[first_pos(names, name, i)] == name),
    decreases names.len() - i,
{
    if 0 <= i < names.len() && names[i] != name {
        lemma_first_pos_found(names, name, i + 1);
    }
}

/// In a list without repeated names, a row is found at its own position.
proof fn lemma_first_pos_distinct(names: Seq<Seq<char>>, j: int, i: int)
    requires
        names.no_duplicates(),
        0 <= i <= j < names.len(),
    ensures
        first_pos(names, names[j], i) == j,
    decreases j - i,
{
    if i < j {
        lemma_first_pos_distinct(names, j, i + 1);
    }
}

/// In a list whose names are all different, moving the highlight down and
/// then up brings it back to the row it was on.
pub proof fn law_pointer_up_undoes_pointer_down(nav: Nav, list: Seq<ListItem>)
    requires
        row_names(list).no_duplicates(),
        current_item(nav.1, row_names(list)) matches Some(cur) && first_pos(row_names(list), cur, 0) >= 0,
    ensures
        pointer_up_nav(pointer_down_nav(nav, list), list) == (nav.0, current_item(nav.1, row_names(list))),
{
    let names = row_names(list);
    let cur = current_item(nav.1, names)->0;
    lemma_first_pos_found(names, cur, 0);
    let p = first_pos(names, cur, 0);
    let q = if p + 1 < names.len() { p + 1 } else { 0 };
    let down = pointer_down_nav(nav, list);
    assert(down == (nav.0, Some(names[q])));
    lemma_first_pos_distinct(names, q, 0);
    lemma_first_pos_distinct(names, p, 0);
}

/// In a list whose names are all different, moving the highlight up and
/// then down brings it back to the row it was on.
pub proof fn law_pointer_down_undoes_pointer_up(nav: Nav, list: Seq<ListItem>)
    requires
        row_names(list).no_duplicates(),
        current_item(nav.1, row_names(list)) matches Some(cur) && first_pos(row_names(list), cur, 0) >= 0,
    ensures
        pointer_down_nav(pointer_up_nav(nav, list), list) == (nav.0, current_item(nav.1, row_names(list))),
{
    let names = row_names(list);
    let cur = current_item(nav.1, names)->0;
    lemma_first_pos_found(names, cur, 0);
    let p = first_pos(names, cur, 0);
    let q = if p > 0 { p - 1 } else { names.len() - 1 };
    let up = pointer_up_nav(nav, list);
    assert(up == (nav.0, Some(names[q])));
    lemma_first_pos_distinct(names, q, 0);
    lemma_first_pos_distinct(names, p, 0);
}

/// Entering a directory from the list and then pressing backspace returns to
/// the directory shown before, with the directory that was entered selected.
pub proof fn law_backspace_returns_to_entered_dir(nav: Nav, node: Seq<char>, list: Seq<ListItem>)
    requires
        first_pos(row_names(list), node, 0) >= 0,
        list[first_pos(row_names(list), node, 0)].dir,
    ensures
        backspace_nav(click_nav(nav, node, list)) == (nav.0, Some(node)),
{
    let inside = nav.0.push(node);
    assert(inside.len() != nav.0.len());
    assert(click_nav(nav, node, list) == (inside, Option::<Seq<char>>::None));
    assert(inside.drop_last() =~= nav.0);
    assert(inside.take(nav.0.len() as int) =~= nav.0);
}

/// Going up to an ancestor of the directory shown selects the directory on
/// the way back down.
pub proof fn law_going_up_selects_the_child(nav: Nav, depth: int)
    requires
        0 <= depth < nav.0.len(),
    ensures
        set_path_nav(nav, nav.0.take(depth)) == (nav.0.take(depth), Some(nav.0[depth])),
{
    assert(nav.0.take(depth).len() != nav.0.len());
    assert(nav.0.take(depth).take(depth) =~= nav.0.take(depth));
}

/// Moving to a directory a second time changes nothing: the selection made
/// by the first move stays.
pub proof fn law_set_path_twice(nav: Nav, path: Seq<Seq<char>>)
    ensures
        set_path_nav(set_path_nav(nav, path), path) == set_path_nav(nav, path),
        set_path_nav(nav, path).0 == path,
{
}

/// The tab bar is consistent: no link is open twice, and the active tab, if
/// any, is one of the open ones.
pub open spec fn tabs_consistent(tabs: Seq<Seq<char>>, active: Option<Seq<char>>) -> bool {
    &&& tabs.no_duplicates()
    &&& active matches Some(a) ==> tabs.contains(a)
}

/// An item is in a list with one more item at the end exactly when it is
/// that item or was there before.
proof fn lemma_push_contains(a: Seq<Seq<char>>, v: Seq<char>, y: Seq<char>)
    ensures
        a.push(v).contains(y) <==> (a.contains(y) || v == y),
{
    let r = a.push(v);
    assert(r[a.len() as int] == v);
    if a.contains(y) {
        let k = choose|k: int| 0 <= k < a.len() && a[k] == y;
        assert(r[k] == y);
    }
    if r.contains(y) && v != y {
        let k = choose|k: int| 0 <= k < r.len() && r[k] == y;
        assert(a[k] == y);
    }
}

/// What stays after removing every copy of `x`: exactly the other items.
proof fn lemma_remove_all_contains(s: Seq<Seq<char>>, x: Seq<char>, y: Seq<char>)
    ensures
        remove_all(s, x).contains(y) <==> (s.contains(y) && y != x),
    decreases s.len(),
{
    if s.len() > 0 {
        let d = s.drop_last();
        lemma_remove_all_contains(d, x, y);
        assert(d.push(s.last()) =~= s);
        lemma_push_contains(d, s.last(), y);
        lemma_push_contains(remove_all(d, x), s.last(), y);
    }
}

/// Removing every copy of an item keeps a list free of repeats.
proof fn lemma_remove_all_no_duplicates(s: Seq<Seq<char>>, x: Seq<char>)
    requires
        s.no_duplicates(),
    ensures
        remove_all(s, x).no_duplicates(),
    decreases s.len(),
{
    if s.len() > 0 {
        let d = s.drop_last();
        assert(d.no_duplicates()) by {
            assert forall|i: int, j: int| 0 <= i < d.len() && 0 <= j < d.len() && i != j implies d[i] != d[j] by {
                assert(d[i] == s[i] && d[j] == s[j]);
            }
        }
        lemma_remove_all_no_duplicates(d, x);
        let rest = remove_all(d, x);
        if s.last() != x {
            lemma_remove_all_contains(d, x, s.last());
            if d.contains(s.last()) {
                let k = choose|k: int| 0 <= k < d.len() && d[k] == s.last();
                assert(s[k] == s[s.len() - 1]);
            }
            let r = rest.push(s.last());
            assert forall|i: int, j: int| 0 <= i < r.len() && 0 <= j < r.len() && i != j implies r[i] != r[j] by {
                if i == rest.len() {
                    assert(rest[j] == r[j]);
                } else if j == rest.len() {
                    assert(rest[i] == r[i]);
                } else {
                    assert(rest[i] == r[i] && rest[j] == r[j]);
                }
            }
        }
    }
}

/// Removing an item that is not there changes nothing.
proof fn lemma_remove_all_absent(s: Seq<Seq<char>>, x: Seq<char>)
    requires
        !s.contains(x),
    ensures
        remove_all(s, x) == s,
    decreases s.len(),
{
    if s.len() > 0 {
        assert(!s.drop_last().contains(x)) by {
            if s.drop_last().contains(x) {
                let k = choose|k: int| 0 <= k < s.drop_last().len() && s.drop_last()[k] == x;
                assert(s[k] == x);
            }
        }
        lemma_remove_all_absent(s.drop_last(), x);
        assert(s[s.len() - 1] != x);
        assert(s.drop_last().push(s.last()) =~= s);
    }
}

/// Adding, closing and showing tabs, and going back to the default view,
/// keep the tab bar consistent; closing a tab removes it, and closing the
/// active tab leaves no tab active.
pub proof fn law_tabs_stay_consistent(tabs: Seq<Seq<char>>, active: Option<Seq<char>>, url: Seq<char>)
    requires
        tabs_consistent(tabs, active),
    ensures
        tabs_consistent(tabs_added(tabs, url), active),
        tabs_consistent(tabs_removed(tabs, active, url).0, tabs_removed(tabs, active, url).1),
        tabs_consistent(tabs, tabs_activated(tabs, active, url)),
        tabs_consistent(tabs, None),
        !tabs_removed(tabs, active, url).0.contains(url),
        active == Some(url) ==> tabs_removed(tabs, active, url).1 is None,
        tabs_added(tabs, url).contains(url),
{
    if !tabs.contains(url) {
        let t = tabs.push(url);
        assert(t[tabs.len() as int] == url);
        assert forall|i: int, j: int| 0 <= i < t.len() && 0 <= j < t.len() && i != j implies t[i] != t[j] by {
            if i < tabs.len() && j < tabs.len() {
                assert(t[i] == tabs[i] && t[j] == tabs[j]);
            } else if i < tabs.len() {
                assert(t[i] == tabs[i]);
            } else {
                assert(t[j] == tabs[j]);
            }
        }
        if let Some(a) = active {
            let k = choose|k: int| 0 <= k < tabs.len() && tabs[k] == a;
            assert(t[k] == a);
        }
    } else {
        lemma_remove_all_no_duplicates(tabs, url);
        lemma_remove_all_contains(tabs, url, url);
        if let Some(a) = active {
            lemma_remove_all_contains(tabs, url, a);
        }
    }
}

/// Opening a link that has no tab and then closing it gives back the tab
/// bar as it was.
pub proof fn law_tabs_add_then_remove(tabs: Seq<Seq<char>>, active: Option<Seq<char>>, url: Seq<char>)
    requires
        tabs_consistent(tabs, active),
        !tabs.contains(url),
    ensures
        tabs_removed(tabs_added(tabs, url), active, url) == (tabs, active),
{
    let t = tabs.push(url);
    assert(t[tabs.len() as int] == url);
    assert(t.drop_last() =~= tabs);
    lemma_remove_all_absent(tabs, url);
}

/// A search hit below `base`: its path starts with `base` and ends with a
/// name that holds the phrase.
pub open spec fn hit_below(hit: (Seq<Seq<char>>, bool), base: Seq<Seq<char>>, phrase: Seq<char>) -> bool {
    &&& hit.0.len() > 0
    &&& base.len() <= hit.0.len()
    &&& hit.0.take(base.len() as int) == base
    &&& is_hit(hit.0.last(), phrase)
}

/// Every hit of a list lies below `base`.
pub open spec fn hits_below(hits: Seq<(Seq<Seq<char>>, bool)>, base: Seq<Seq<char>>, phrase: Seq<char>) -> bool {
    forall|k: int| 0 <= k < hits.len() ==> #[trigger] hit_below(hits[k], base, phrase)
}

/// A file counted as a hit has a name that holds the phrase.
proof fn lemma_matching_file_names(entries: Seq<TreeEntry>, phrase: Seq<char>, f: Seq<char>)
    ensures
        matching_file_names(entries, phrase).contains(f) ==> is_hit(f, phrase),
    decreases entries.len(),
{
    if entries.len() > 0 {
        let rest = matching_file_names(entries.drop_last(), phrase);
        lemma_matching_file_names(entries.drop_last(), phrase, f);
        let e = entries.last();
        if !e.dir && is_hit(e.name@, phrase) {
            lemma_push_contains(rest, e.name@, f);
        }
    }
}

/// Hits below `base.push(name)` are hits below `base`.
proof fn lemma_hits_below_parent(hits: Seq<(Seq<Seq<char>>, bool)>, base: Seq<Seq<char>>, name: Seq<char>, phrase: Seq<char>)
    requires
        hits_below(hits, base.push(name), phrase),
    ensures
        hits_below(hits, base, phrase),
{
    assert forall|k: int| 0 <= k < hits.len() implies #[trigger] hit_below(hits[k], base, phrase) by {
        assert(hit_below(hits[k], base.push(name), phrase));
        assert(hits[k].0.take(base.len() as int) =~= hits[k].0.take(base.len() + 1int).take(base.len() as int));
        assert(base.push(name).take(base.len() as int) =~= base);
    }
}

/// Two lists of hits below `base` joined are hits below `base`.
proof fn lemma_hits_below_concat(a: Seq<(Seq<Seq<char>>, bool)>, b: Seq<(Seq<Seq<char>>, bool)>, base: Seq<Seq<char>>, phrase: Seq<char>)
    requires
        hits_below(a, base, phrase),
        hits_below(b, base, phrase),
    ensures
        hits_below(a + b, base, phrase),
{
    assert forall|k: int| 0 <= k < (a + b).len() implies #[trigger] hit_below((a + b)[k], base, phrase) by {
        if k < a.len() {
            assert((a + b)[k] == a[k]);
            assert(hit_below(a[k], base, phrase));
        } else {
            assert((a + b)[k] == b[k - a.len()]);
            assert(hit_below(b[k - a.len()], base, phrase));
        }
    }
}

proof fn lemma_walk_hits(listing: Resource<Vec<TreeEntry>>, base: Seq<Seq<char>>, phrase: Seq<char>)
    ensures
        hits_below(walk(listing, base, phrase).0, base, phrase),
    decreases listing, 0nat,
{
    match listing {
        Resource::Ready(entries) => {
            lemma_walk_ready_hits(entries@, base, phrase);
        },
        _ => {},
    }
}

proof fn lemma_walk_ready_hits(entries: Seq<TreeEntry>, base: Seq<Seq<char>>, phrase: Seq<char>)
    ensures
        hits_below(walk_ready(entries, base, phrase).0, base, phrase),
    decreases entries, sorted_names(dir_names(entries)).len() + 1,
{
    let names = sorted_names(dir_names(entries));
    lemma_walk_dirs_hits(entries, names, base, phrase);
    let head = head_hit(base, phrase);
    assert(hits_below(head, base, phrase)) by {
        if head.len() > 0 {
            assert(head[0] == (base, true));
            assert(base.take(base.len() as int) =~= base);
            assert(hit_below(head[0], base, phrase));
        }
    }
    let files = file_hits(entries, base, phrase);
    let matching = matching_file_names(entries, phrase);
    lemma_seq_le_total_ordering();
    matching.lemma_sort_by_ensures(seq_le_rel());
    assert(hits_below(files, base, phrase)) by {
        assert forall|k: int| 0 <= k < files.len() implies #[trigger] hit_below(files[k], base, phrase) by {
            let f = sorted_names(matching)[k];
            assert(sorted_names(matching).contains(f));
            lemma_matching_file_names(entries, phrase, f);
            assert(files[k] == (base.push(f), false));
            assert(base.push(f).take(base.len() as int) =~= base);
        }
    }
    lemma_hits_below_concat(head, files, base, phrase);
    lemma_hits_below_concat(head + files, walk_dirs(entries, names, base, phrase).0, base, phrase);
}

proof fn lemma_walk_dirs_hits(entries: Seq<TreeEntry>, names: Seq<Seq<char>>, base: Seq<Seq<char>>, phrase: Seq<char>)
    ensures
        hits_below(walk_dirs(entries, names, base, phrase).0, base, phrase),
    decreases entries, names.len(),
{
    if names.len() > 0 {
        let i = first_index(entries, names[0], 0);
        lemma_walk_dirs_hits(entries, names.drop_first(), base, phrase);
        if 0 <= i < entries.len() {
            lemma_walk_hits(entries[i].children, base.push(names[0]), phrase);
            let found = walk(entries[i].children, base.push(names[0]), phrase);
            lemma_hits_below_parent(found.0, base, names[0], phrase);
            if found.1 is Ready {
                lemma_hits_below_concat(found.0, walk_dirs(entries, names.drop_first(), base, phrase).0, base, phrase);
            }
        }
    }
}

/// Every search hit lies below the directory the search starts from, and
/// the last name on its path holds the phrase.
pub proof fn law_search_hits_lie_below_and_match(listing: Resource<Vec<TreeEntry>>, base: Seq<Seq<char>>, phrase: Seq<char>)
    ensures
        hits_below(walk(listing, base, phrase).0, base, phrase),
{
    lemma_walk_hits(listing, base, phrase);
}

/// The words kept by `long_words` are words of the list, of two bytes or
/// more.
proof fn lemma_long_words(ws: Seq<Seq<char>>)
    ensures
        forall|k: int| 0 <= k < long_words(ws).len() ==> ws.contains(#[trigger] long_words(ws)[k])
            && encode_utf8(long_words(ws)[k]).len() >= 2,
    decreases ws.len(),
{
    if ws.len() > 0 {
        let d = ws.drop_last();
        lemma_long_words(d);
        let rest = long_words(d);
        assert(d.push(ws.last()) =~= ws);
        assert forall|k: int| 0 <= k < long_words(ws).len() implies ws.contains(#[trigger] long_words(ws)[k])
            && encode_utf8(long_words(ws)[k]).len() >= 2 by {
            if k < rest.len() {
                assert(long_words(ws)[k] == rest[k]);
                lemma_push_contains(d, ws.last(), rest[k]);
            } else {
                assert(long_words(ws)[k] == ws.last());
                assert(ws[ws.len() - 1] == ws.last());
            }
        }
    }
}

/// Every chunk of a search phrase is a non-empty run of characters free of
/// whitespace that takes at least two bytes in UTF-8.
pub proof fn law_phrase_chunks_are_long_words(phrase: Seq<char>)
    ensures
        forall|k: int| 0 <= k < phrase_chunks(phrase).len() ==> {
            let c = #[trigger] phrase_chunks(phrase)[k];
            &&& c.len() > 0
            &&& no_whitespace(c)
            &&& encode_utf8(c).len() >= 2
        },
{
    let ws = words(lowercase(phrase));
    lemma_long_words(ws);
    lemma_words_are_nonempty_and_whitespace_free(lowercase(phrase));
    assert forall|k: int| 0 <= k < phrase_chunks(phrase).len() implies {
        let c = #[trigger] phrase_chunks(phrase)[k];
        &&& c.len() > 0
        &&& no_whitespace(c)
        &&& encode_utf8(c).len() >= 2
    } by {
        let c = long_words(ws)[k];
        assert(ws.contains(c));
        let j = choose|j: int| 0 <= j < ws.len() && ws[j] == c;
        assert(ws[j].len() > 0 && no_whitespace(ws[j]));
    }
}

/// A name is found at the first row that carries it.
proof fn lemma_first_pos_first(names: Seq<Seq<char>>, name: Seq<char>, i: int, s: int)
    requires
        0 <= s <= i < names.len(),
        names[i] == name,
        forall|j: int| s <= j < i ==> names[j] != name,
    ensures
        first_pos(names, name, s) == i,
    decreases i - s,
{
    if s < i {
        lemma_first_pos_first(names, name, i, s + 1);
    }
}

/// A name that no row carries is not found.
proof fn lemma_first_pos_absent(names: Seq<Seq<char>>, name: Seq<char>, s: int)
    requires
        0 <= s,
        forall|j: int| 0 <= j < names.len() ==> names[j] != name,
    ensures
        first_pos(names, name, s) == -1,
    decreases names.len() - s,
{
    if s < names.len() {
        lemma_first_pos_absent(names, name, s + 1);
    }
}

/// A click on a row of the list: a directory row is entered, with nothing
/// selected inside it; a file row stays in the directory shown and becomes
/// the selected entry. The row is the first one carrying the name clicked.
pub proof fn law_click_enters_directories_and_selects_files(nav: Nav, node: Seq<char>, list: Seq<ListItem>, i: int)
    requires
        0 <= i < list.len(),
        list[i].name@ == node,
        forall|j: int| 0 <= j < i ==> list[j].name@ != node,
    ensures
        list[i].dir ==> click_nav(nav, node, list) == (nav.0.push(node), Option::<Seq<char>>::None),
        !list[i].dir ==> click_nav(nav, node, list) == (nav.0, Some(node)),
{
    let names = row_names(list);
    assert forall|j: int| 0 <= j < i implies names[j] != node by {
        assert(names[j] == list[j].name@);
    }
    assert(names[i] == node);
    lemma_first_pos_first(names, node, i, 0);
    assert(nav.0.push(node).len() != nav.0.len());
}

/// A click on a name that no row of the list carries changes nothing.
pub proof fn law_click_outside_the_list(nav: Nav, node: Seq<char>, list: Seq<ListItem>)
    requires
        forall|j: int| 0 <= j < list.len() ==> list[j].name@ != node,
    ensures
        click_nav(nav, node, list) == nav,
{
    let names = row_names(list);
    assert forall|j: int| 0 <= j < names.len() implies names[j] != node by {
        assert(names[j] == list[j].name@);
    }
    lemma_first_pos_absent(names, node, 0);
}

/// With no alert open, Enter and ArrowRight are both handled and do the
/// same: the highlighted row (the chosen entry, or else the first row) is
/// entered when it is a directory and selected when it is a file.
pub proof fn law_enter_and_arrow_right_open_the_highlighted_row(nav: Nav, list: Seq<ListItem>, i: int)
    requires
        0 <= i < list.len(),
        list[i].name@ == (match nav.1 {
            Some(f) => f,
            None => list[0].name@,
        }),
        forall|j: int| 0 <= j < i ==> list[j].name@ != list[i].name@,
    ensures
        key_nav(nav, "Enter"@, list) == key_nav(nav, "ArrowRight"@, list),
        key_nav(nav, "Enter"@, list).1,
        list[i].dir ==> key_nav(nav, "Enter"@, list).0 == (nav.0.push(list[i].name@), Option::<Seq<char>>::None),
        !list[i].dir ==> key_nav(nav, "Enter"@, list).0 == (nav.0, Some(list[i].name@)),
{
    lemma_key_names_differ();
    let names = row_names(list);
    let node = list[i].name@;
    assert forall|j: int| 0 <= j < i implies names[j] != node by {
        assert(names[j] == list[j].name@);
    }
    assert(names[i] == node);
    if nav.1 is None {
        assert(names[0] == list[0].name@);
    }
    assert(current_item(nav.1, names) == Some(node));
    lemma_first_pos_first(names, node, i, 0);
    law_click_enters_directories_and_selects_files(nav, node, list, i);
}

/// A name matches a phrase's chunks only when every chunk occurs, as a
/// contiguous run, somewhere in the lowercase form of the name: chunk `k`
/// is found in a name that matches.
pub proof fn law_search_needs_every_chunk(name: Seq<char>, chunks: Seq<Seq<char>>, k: int)
    requires
        name_matches_all(name, chunks),
        0 <= k < chunks.len(),
    ensures
        exists|i: int| 0 <= i <= lowercase(name).len() - chunks[k].len()
            && #[trigger] lowercase(name).subrange(i, i + chunks[k].len()) == chunks[k],
{
    assert(contains_seq(lowercase(name), chunks[k]));
}

/// A name whose lowercase form lacks one chunk of a phrase, as a
/// contiguous run, does not match the phrase.
pub proof fn law_search_fails_on_a_missing_chunk(name: Seq<char>, chunks: Seq<Seq<char>>, k: int)
    requires
        0 <= k < chunks.len(),
        forall|i: int| 0 <= i <= lowercase(name).len() - chunks[k].len()
            ==> #[trigger] lowercase(name).subrange(i, i + chunks[k].len()) != chunks[k],
    ensures
        !name_matches_all(name, chunks),
{
    assert(!contains_seq(lowercase(name), chunks[k]));
}

/// A name whose lowercase form holds every chunk matches.
pub proof fn law_search_matches_when_every_chunk_occurs(name: Seq<char>, chunks: Seq<Seq<char>>, at: Seq<int>)
    requires
        at.len() == chunks.len(),
        forall|k: int| 0 <= k < chunks.len() ==> 0 <= #[trigger] at[k] <= lowercase(name).len() - chunks[k].len()
            && lowercase(name).subrange(at[k], at[k] + chunks[k].len()) == chunks[k],
    ensures
        name_matches_all(name, chunks),
{
    assert forall|k: int| 0 <= k < chunks.len() implies contains_seq(lowercase(name), #[trigger] chunks[k]) by {
        assert(0 <= at[k] <= lowercase(name).len() - chunks[k].len());
        assert(lowercase(name).subrange(at[k], at[k] + chunks[k].len()) == chunks[k]);
    }
}

/// A name is a search hit exactly when the phrase occurs, as a contiguous
/// run anywhere, in the lowercase form of the name.
pub proof fn law_hit_is_a_run_of_the_lowercase_name(name: Seq<char>, phrase: Seq<char>)
    ensures
        is_hit(name, phrase) <==> exists|i: int| 0 <= i <= lowercase(name).len() - phrase.len()
            && #[trigger] lowercase(name).subrange(i, i + phrase.len()) == phrase,
{
}

/// Every file of a listing whose lowercase name holds the phrase is among
/// the names the listing's hits are built from.
proof fn lemma_matching_file_names_complete(entries: Seq<TreeEntry>, phrase: Seq<char>, k: int)
    requires
        0 <= k < entries.len(),
        !entries[k].dir,
        is_hit(entries[k].name@, phrase),
    ensures
        matching_file_names(entries, phrase).contains(entries[k].name@),
    decreases entries.len(),
{
    let d = entries.drop_last();
    let rest = matching_file_names(d, phrase);
    if k < entries.len() - 1 {
        assert(d[k] == entries[k]);
        lemma_matching_file_names_complete(d, phrase, k);
        let e = entries.last();
        if !e.dir && is_hit(e.name@, phrase) {
            lemma_push_contains(rest, e.name@, entries[k].name@);
        }
    } else {
        assert(entries.last() == entries[k]);
        lemma_push_contains(rest, entries[k].name@, entries[k].name@);
    }
}

/// The search reports every file of a loaded listing whose lowercase name
/// holds the phrase: its path below the directory is among the hits, as a
/// file.
pub proof fn law_matching_files_are_reported(entries: Seq<TreeEntry>, base: Seq<Seq<char>>, phrase: Seq<char>, k: int)
    requires
        0 <= k < entries.len(),
        !entries[k].dir,
        exists|i: int| 0 <= i <= lowercase(entries[k].name@).len() - phrase.len()
            && #[trigger] lowercase(entries[k].name@).subrange(i, i + phrase.len()) == phrase,
    ensures
        walk_ready(entries, base, phrase).0.contains((base.push(entries[k].name@), false)),
{
    broadcast use vstd::seq_lib::group_to_multiset_ensures;
    let name = entries[k].name@;
    lemma_matching_file_names_complete(entries, phrase, k);
    let matching = matching_file_names(entries, phrase);
    lemma_seq_le_total_ordering();
    matching.lemma_sort_by_ensures(seq_le_rel());
    let sorted = sorted_names(matching);
    assert(matching.to_multiset().count(name) > 0);
    assert(sorted.to_multiset().count(name) > 0);
    assert(sorted.contains(name));
    let j = choose|j: int| 0 <= j < sorted.len() && sorted[j] == name;
    let files = file_hits(entries, base, phrase);
    assert(files[j] == (base.push(name), false));
    let head = head_hit(base, phrase);
    let rest = walk_dirs(entries, sorted_names(dir_names(entries)), base, phrase).0;
    let all = head + files + rest;
    assert(all[head.len() + j] == files[j]);
    assert(walk_ready(entries, base, phrase).0 == all);
}

/// Order of character sequences from position `i` on, stated element by
/// element, for sequences that agree before `i`.
proof fn lemma_lex_lt_from(a: Seq<char>, b: Seq<char>, i: int)
    requires
        0 <= i <= a.len(),
        i <= b.len(),
        a.take(i) == b.take(i),
    ensures
        lex_lt_from(a, b, i) <==> ((exists|k: int|
            i <= k < a.len() && k < b.len() && (a[k] as u32) < (b[k] as u32) && #[trigger] a.take(k) == b.take(k))
            || (a.len() < b.len() && b.take(a.len() as int) == a)),
    decreases a.len() - i,
{
    if i == a.len() {
        assert(a.take(i) =~= a);
    } else if i == b.len() {
    } else if a[i] != b[i] {
        crate::sort::lemma_char_u32_injective(a[i], b[i]);
        if (a[i] as u32) < (b[i] as u32) {
            assert(a.take(i) == b.take(i));
        } else {
            assert forall|k: int| i <= k < a.len() && k < b.len() && (a[k] as u32) < (b[k] as u32) implies #[trigger] a.take(k)
                != b.take(k) by {
                if k > i && a.take(k) == b.take(k) {
                    assert(a.take(k)[i] == b.take(k)[i]);
                }
            }
            if a.len() < b.len() && b.take(a.len() as int) == a {
                assert(b.take(a.len() as int)[i] == b[i]);
            }
        }
    } else {
        assert(a.take(i + 1) =~= b.take(i + 1)) by {
            assert forall|m: int| 0 <= m < i + 1 implies #[trigger] a.take(i + 1)[m] == b.take(i + 1)[m] by {
                if m < i {
                    assert(a.take(i)[m] == b.take(i)[m]);
                }
            }
        }
        lemma_lex_lt_from(a, b, i + 1);
        if exists|k: int| i <= k < a.len() && k < b.len() && (a[k] as u32) < (b[k] as u32) && #[trigger] a.take(k) == b.take(k) {
            let k = choose|k: int| i <= k < a.len() && k < b.len() && (a[k] as u32) < (b[k] as u32) && #[trigger] a.take(k) == b.take(k);
            assert(k != i);
        }
    }
}

/// The order of names is lexicographic by code point: `a` comes before `b`
/// when, at the first position where they differ, `a` has the smaller code
/// point, or when `a` is a proper prefix of `b`.
pub proof fn law_name_order_is_lexicographic(a: Seq<char>, b: Seq<char>)
    ensures
        seq_lt(a, b) <==> ((exists|k: int|
            0 <= k < a.len() && k < b.len() && (a[k] as u32) < (b[k] as u32) && #[trigger] a.take(k) == b.take(k))
            || (a.len() < b.len() && b.take(a.len() as int) == a)),
{
    assert(a.take(0) =~= b.take(0));
    lemma_lex_lt_from(a, b, 0);
}

/// The order of the rows of the directory list, as `create_list` leaves
/// them: pinned names (one leading `_`) first, then plain names, then
/// put-aside names (leading `__`); among pinned names directories before
/// files; and inside each of these groups the lowercase names ascending.
pub proof fn law_list_rows_order(rows: Seq<(Seq<char>, bool, u8)>, i: int, j: int)
    requires
        rows_sorted(rows),
        0 <= i < j < rows.len(),
    ensures
        priority(rows[i].0) == 0 ==> priority(rows[j].0) == 0,
        priority(rows[i].0) == 1 ==> priority(rows[j].0) != 2,
        (priority(rows[i].0) == 2 && priority(rows[j].0) == 2 && !rows[i].1) ==> !rows[j].1,
        (priority(rows[i].0) == priority(rows[j].0) && (priority(rows[i].0) != 2 || rows[i].1 == rows[j].1))
            ==> !seq_lt(lowercase(rows[j].0), lowercase(rows[i].0)),
{
    assert(!row_before(rows[j], rows[i]));
}

/// The names of the keys the index view handles are all different.
proof fn lemma_key_names_differ()
    ensures
        "Enter"@ != "ArrowUp"@ && "Enter"@ != "ArrowDown"@ && "Enter"@ != "Escape"@,
        "ArrowRight"@ != "ArrowUp"@ && "ArrowRight"@ != "ArrowDown"@ && "ArrowRight"@ != "Escape"@,
        "ArrowLeft"@ != "ArrowUp"@ && "ArrowLeft"@ != "ArrowDown"@ && "ArrowLeft"@ != "Escape"@,
        "ArrowLeft"@ != "ArrowRight"@ && "ArrowLeft"@ != "Enter"@,
        "Backspace"@ != "ArrowUp"@ && "Backspace"@ != "ArrowDown"@ && "Backspace"@ != "Escape"@,
        "Backspace"@ != "ArrowRight"@ && "Backspace"@ != "Enter"@,
        "ArrowUp"@ != "ArrowDown"@ && "Escape"@ != "ArrowUp"@ && "Escape"@ != "ArrowDown"@,
{
    reveal_strlit("Enter");
    reveal_strlit("ArrowRight");
    reveal_strlit("ArrowLeft");
    reveal_strlit("ArrowUp");
    reveal_strlit("ArrowDown");
    reveal_strlit("Escape");
    reveal_strlit("Backspace");
    assert("ArrowLeft"@[5] != "ArrowDown"@[5]);
    assert("Backspace"@[0] != "ArrowDown"@[0]);
    assert("Backspace"@[0] != "ArrowLeft"@[0]);
    assert("ArrowLeft"@.len() != "ArrowRight"@.len());
    assert("ArrowLeft"@.len() != "ArrowUp"@.len() && "ArrowLeft"@.len() != "Escape"@.len());
    assert("ArrowLeft"@.len() != "Enter"@.len());
    assert("Backspace"@.len() != "ArrowUp"@.len() && "Backspace"@.len() != "Escape"@.len());
    assert("Backspace"@.len() != "ArrowRight"@.len() && "Backspace"@.len() != "Enter"@.len());
    assert("Enter"@.len() != "ArrowUp"@.len() && "Enter"@.len() != "ArrowDown"@.len() && "Enter"@.len() != "Escape"@.len());
    assert("ArrowRight"@.len() != "ArrowUp"@.len() && "ArrowRight"@.len() != "ArrowDown"@.len());
    assert("ArrowRight"@.len() != "Escape"@.len());
    assert("ArrowUp"@.len() != "ArrowDown"@.len() && "Escape"@.len() != "ArrowUp"@.len());
    assert("Escape"@.len() != "ArrowDown"@.len());
}

/// With no alert open, ArrowDown and ArrowUp are handled and move the
/// highlight from the highlighted row (the chosen entry, or else the first
/// row) to the next row and to the previous row, wrapping around at the
/// ends of the list.
pub proof fn law_arrow_keys_move_the_highlight(nav: Nav, list: Seq<ListItem>, i: int)
    requires
        0 <= i < list.len(),
        list[i].name@ == (match nav.1 {
            Some(f) => f,
            None => list[0].name@,
        }),
        forall|j: int| 0 <= j < i ==> list[j].name@ != list[i].name@,
    ensures
        key_nav(nav, "ArrowDown"@, list) == ((nav.0, Some(if i + 1 < list.len() {
            list[i + 1].name@
        } else {
            list[0].name@
        })), true),
        key_nav(nav, "ArrowUp"@, list) == ((nav.0, Some(if i > 0 {
            list[i - 1].name@
        } else {
            list[list.len() - 1].name@
        })), true),
{
    lemma_key_names_differ();
    let names = row_names(list);
    let node = list[i].name@;
    assert forall|j: int| 0 <= j < i implies names[j] != node by {
        assert(names[j] == list[j].name@);
    }
    assert(names[i] == node);
    assert(names[0] == list[0].name@);
    assert(names[list.len() - 1] == list[list.len() - 1].name@);
    if i + 1 < list.len() {
        assert(names[i + 1] == list[i + 1].name@);
    }
    if i > 0 {
        assert(names[i - 1] == list[i - 1].name@);
    }
    assert(current_item(nav.1, names) == Some(node));
    lemma_first_pos_first(names, node, i, 0);
}

/// With no alert open: Escape drops the chosen entry; ArrowLeft and
/// Backspace go up to the parent directory with the directory left
/// selected, and do nothing at the root; every other key is not handled and
/// changes nothing.
pub proof fn law_escape_and_back_keys(nav: Nav, list: Seq<ListItem>, code: Seq<char>)
    ensures
        key_nav(nav, "Escape"@, list) == ((nav.0, Option::<Seq<char>>::None), true),
        key_nav(nav, "ArrowLeft"@, list) == key_nav(nav, "Backspace"@, list),
        nav.0.len() > 0 ==> key_nav(nav, "ArrowLeft"@, list) == ((nav.0.drop_last(), Some(nav.0.last())), true),
        nav.0.len() == 0 ==> key_nav(nav, "ArrowLeft"@, list) == (nav, true),
        (code != "ArrowUp"@ && code != "ArrowDown"@ && code != "Escape"@ && code != "ArrowRight"@ && code != "Enter"@
            && code != "ArrowLeft"@ && code != "Backspace"@) ==> key_nav(nav, code, list) == (nav, false),
{
    lemma_key_names_differ();
    if nav.0.len() > 0 {
        let up = nav.0.drop_last();
        assert(up.len() != nav.0.len());
        assert(nav.0.take(up.len() as int) =~= up);
        assert(nav.0[up.len() as int] == nav.0.last());
    }
}

/// Every word of the lowercased phrase that takes two bytes or more in
/// UTF-8 is a chunk of the phrase.
pub proof fn law_long_words_are_chunks(phrase: Seq<char>, k: int)
    requires
        0 <= k < words(lowercase(phrase)).len(),
        encode_utf8(words(lowercase(phrase))[k]).len() >= 2,
    ensures
        phrase_chunks(phrase).contains(words(lowercase(phrase))[k]),
{
    lemma_long_words_complete(words(lowercase(phrase)), k);
}

/// Every word of two bytes or more is kept by `long_words`.
proof fn lemma_long_words_complete(ws: Seq<Seq<char>>, k: int)
    requires
        0 <= k < ws.len(),
        encode_utf8(ws[k]).len() >= 2,
    ensures
        long_words(ws).contains(ws[k]),
    decreases ws.len(),
{
    let d = ws.drop_last();
    if k < ws.len() - 1 {
        assert(d[k] == ws[k]);
        lemma_long_words_complete(d, k);
        if encode_utf8(ws.last()).len() >= 2 {
            lemma_push_contains(long_words(d), ws.last(), ws[k]);
        }
    } else {
        assert(ws.last() == ws[k]);
        lemma_push_contains(long_words(d), ws[k], ws[k]);
    }
}

/// Moving from `prev` to `new` always shows `new`; an entry is selected
/// only when `new` is a proper ancestor of `prev`, and then it is the
/// directory of `prev` just below `new`.
pub proof fn law_next_path_selects_only_the_child_left(prev: Seq<Seq<char>>, new: Seq<Seq<char>>)
    ensures
        next_path(prev, new).0 == new,
        (new.len() < prev.len() && forall|k: int| 0 <= k < new.len() ==> #[trigger] prev[k] == new[k])
            ==> next_path(prev, new).1 == Some(prev[new.len() as int]),
        (new.len() >= prev.len() || exists|k: int| 0 <= k < new.len() && #[trigger] prev[k] != new[k])
            ==> next_path(prev, new).1 is None,
{
    if new.len() <= prev.len() {
        if forall|k: int| 0 <= k < new.len() ==> #[trigger] prev[k] == new[k] {
            assert(prev.take(new.len() as int) =~= new);
        } else {
            let k = choose|k: int| 0 <= k < new.len() && #[trigger] prev[k] != new[k];
            assert(prev.take(new.len() as int)[k] != new[k]);
        }
    }
}

} // verus!
