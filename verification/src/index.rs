use vstd::prelude::*;
use crate::resource::Resource;
use crate::sort::{compare_chars, lemma_seq_lt_transitive, seq_lt};
use crate::text::{chars_of, lowercase, to_lowercase};
use crate::tree::TreeEntry;

verus! {

broadcast use vstd::seq_lib::group_to_multiset_ensures;

/// One row of the directory list.
#[derive(PartialEq, Debug, Clone)]
pub struct ListItem {
    pub name: String,
    pub dir: bool,
    pub prirority: u8,
}

/// A row as plain values.
pub open spec fn item_view(i: ListItem) -> (Seq<char>, bool, u8) {
    (i.name@, i.dir, i.prirority)
}

/// Rows as plain values.
pub open spec fn items_view(s: Seq<ListItem>) -> Seq<(Seq<char>, bool, u8)> {
    s.map_values(|i: ListItem| item_view(i))
}

/// The priority of a name: 0 for a name that starts with `__` (put aside),
/// 2 for one that starts with a single `_` (pinned), 1 for the others.
pub open spec fn priority(name: Seq<char>) -> u8 {
    if name.len() >= 2 && name[0] == '_' && name[1] == '_' {
        0
    } else if name.len() >= 1 && name[0] == '_' {
        2
    } else {
        1
    }
}

/// The priority of a list entry's name.
pub fn get_list_item_prirority(name: &String) -> (res: u8)
    ensures
        res == priority(name@),
{
    let chars = chars_of(name.as_str());
    if chars.len() >= 2 && chars[0] == '_' && chars[1] == '_' {
        return 0;
    }
    if chars.len() >= 1 && chars[0] == '_' {
        return 2;
    }
    1
}

/// The row that the list shows for a listing entry.
pub open spec fn entry_row(e: TreeEntry) -> (Seq<char>, bool, u8) {
    (e.name@, e.dir, priority(e.name@))
}

/// Rank by priority: pinned names first, put-aside names last.
pub open spec fn sort_major(p: u8) -> u8 {
    if p == 2 {
        0
    } else if p == 1 {
        1
    } else {
        2
    }
}

/// Among pinned names, directories come before files.
pub open spec fn sort_minor(p: u8, dir: bool) -> u8 {
    if p == 2 && !dir {
        1
    } else {
        0
    }
}

/// The sort key of a row: its rank, then the lowercase name.
pub open spec fn row_key(r: (Seq<char>, bool, u8)) -> (u8, u8, Seq<char>) {
    let p = priority(r.0);
    (sort_major(p), sort_minor(p, r.1), lowercase(r.0))
}

/// Strict order of sort keys.
pub open spec fn key_lt(a: (u8, u8, Seq<char>), b: (u8, u8, Seq<char>)) -> bool {
    a.0 < b.0 || (a.0 == b.0 && (a.1 < b.1 || (a.1 == b.1 && seq_lt(a.2, b.2))))
}

/// Row `a` must come before row `b` in the directory list.
pub open spec fn row_before(a: (Seq<char>, bool, u8), b: (Seq<char>, bool, u8)) -> bool {
    key_lt(row_key(a), row_key(b))
}

/// No row comes before one that it follows.
pub open spec fn rows_sorted(s: Seq<(Seq<char>, bool, u8)>) -> bool {
    forall|i: int, j: int| 0 <= i < j < s.len() ==> !row_before(#[trigger] s[j], #[trigger] s[i])
}

proof fn lemma_key_lt_transitive(a: (u8, u8, Seq<char>), b: (u8, u8, Seq<char>), c: (u8, u8, Seq<char>))
    requires
        key_lt(a, b),
        key_lt(b, c),
    ensures
        key_lt(a, c),
{
    if a.0 == b.0 && b.0 == c.0 && a.1 == b.1 && b.1 == c.1 {
        lemma_seq_lt_transitive(a.2, b.2, c.2);
    }
}

/// The exec form of a row's sort key.
struct RowKey {
    major: u8,
    minor: u8,
    text: Vec<char>,
}

spec fn row_key_view(k: RowKey) -> (u8, u8, Seq<char>) {
    (k.major, k.minor, k.text@)
}

fn make_row_key(item: &ListItem) -> (res: RowKey)
    ensures
        row_key_view(res) == row_key(item_view(*item)),
{
    let p = get_list_item_prirority(&item.name);
    let major: u8 = if p == 2 {
        0
    } else if p == 1 {
        1
    } else {
        2
    };
    let minor: u8 = if p == 2 && !item.dir {
        1
    } else {
        0
    };
    let lower = to_lowercase(item.name.as_str());
    RowKey { major, minor, text: chars_of(lower.as_str()) }
}

fn key_before(a: &RowKey, b: &RowKey) -> (res: bool)
    ensures
        res == key_lt(row_key_view(*a), row_key_view(*b)),
{
    if a.major != b.major {
        return a.major < b.major;
    }
    if a.minor != b.minor {
        return a.minor < b.minor;
    }
    compare_chars(&a.text, &b.text) == -1
}

/// Sorts rows into the order of the directory list.
fn sort_rows(v: Vec<ListItem>) -> (res: Vec<ListItem>)
    ensures
        items_view(res@).to_multiset() == items_view(v@).to_multiset(),
        rows_sorted(items_view(res@)),
{
    let ghost input = items_view(v@);
    let mut out: Vec<ListItem> = Vec::new();
    let mut keys: Vec<RowKey> = Vec::new();
    let mut rest = v;
    while rest.len() > 0
        invariant
            keys.len() == out.len(),
            forall|k: int| 0 <= k < out.len() ==> row_key_view(#[trigger] keys@[k]) == row_key(item_view(out@[k])),
            rows_sorted(items_view(out@)),
            items_view(out@).to_multiset().add(items_view(rest@).to_multiset()) == input.to_multiset(),
        decreases rest.len(),
    {
        let ghost before_rest = rest@;
        let item = rest.pop().unwrap();
        proof {
            assert(before_rest == rest@.push(item));
            assert(items_view(before_rest) =~= items_view(rest@).push(item_view(item)));
        }
        let key = make_row_key(&item);
        let mut j: usize = 0;
        while j < out.len()
            invariant
                j <= out.len(),
                keys.len() == out.len(),
                row_key_view(key) == row_key(item_view(item)),
                forall|k: int| 0 <= k < out.len() ==> row_key_view(#[trigger] keys@[k]) == row_key(item_view(out@[k])),
                forall|k: int| 0 <= k < j ==> !row_before(item_view(item), #[trigger] item_view(out@[k])),
            ensures
                j <= out.len(),
                forall|k: int| 0 <= k < j ==> !row_before(item_view(item), #[trigger] item_view(out@[k])),
                j < out.len() ==> row_before(item_view(item), item_view(out@[j as int])),
            decreases out.len() - j,
        {
            if key_before(&key, &keys[j]) {
                break;
            }
            j = j + 1;
        }
        let ghost old_out = items_view(out@);
        let ghost old_keys = keys@;
        let ghost x = item_view(item);
        out.insert(j, item);
        keys.insert(j, key);
        proof {
            assert(items_view(out@) =~= old_out.insert(j as int, x));
            let s = items_view(out@);
            assert forall|a: int, b: int| 0 <= a < b < s.len() implies !row_before(#[trigger] s[b], #[trigger] s[a]) by {
                if a < j && b < j {
                    assert(!row_before(old_out[b], old_out[a]));
                } else if a < j && b == j {
                    assert(!row_before(x, old_out[a]));
                } else if a < j && b > j {
                    assert(!row_before(old_out[b - 1], old_out[a]));
                } else if a == j {
                    // b > j: the old row at b - 1 does not come before x
                    if row_before(old_out[b - 1], x) {
                        assert(row_before(x, old_out[j as int]));
                        lemma_key_lt_transitive(row_key(old_out[b - 1]), row_key(x), row_key(old_out[j as int]));
                        crate::sort::lemma_seq_lt_trichotomy(row_key(old_out[j as int]).2, row_key(old_out[j as int]).2);
                        if b - 1 > j {
                            assert(!row_before(old_out[b - 1], old_out[j as int]));
                        }
                    }
                } else {
                    assert(!row_before(old_out[b - 1], old_out[a - 1]));
                }
            }
            assert forall|k: int| 0 <= k < out.len() implies row_key_view(#[trigger] keys@[k]) == row_key(item_view(out@[k])) by {
                if k < j {
                    assert(keys@[k] == old_keys[k]);
                } else if k > j {
                    assert(keys@[k] == old_keys[k - 1]);
                }
            }
        }
    }
    proof {
        assert(items_view(rest@) =~= Seq::<(Seq<char>, bool, u8)>::empty());
        assert(items_view(rest@).to_multiset() =~= vstd::multiset::Multiset::empty()) by {
            broadcast use vstd::multiset::group_multiset_axioms;
            assert(items_view(rest@).to_multiset().len() == 0);
        }
        assert(items_view(out@).to_multiset() =~= input.to_multiset()) by {
            broadcast use vstd::multiset::group_multiset_axioms;
        }
    }
    out
}

/// The rows of the directory list of a listing: one per entry, pinned names
/// (a single leading `_`) first with their directories ahead of their files,
/// then the plain names, then the put-aside names (leading `__`), each group
/// ordered by lowercase name. A listing that is not loaded gives no rows.
pub fn create_list(listing: &Resource<Vec<TreeEntry>>) -> (res: Vec<ListItem>)
    ensures
        match *listing {
            Resource::Ready(entries) => items_view(res@).to_multiset() == entries@.map_values(
                |e: TreeEntry| entry_row(e),
            ).to_multiset() && rows_sorted(items_view(res@)),
            _ => res@.len() == 0,
        },
{
    match listing {
        Resource::Ready(entries) => {
            let mut rows: Vec<ListItem> = Vec::new();
            let mut i: usize = 0;
            while i < entries.len()
                invariant
                    i <= entries.len(),
                    items_view(rows@) == entries@.take(i as int).map_values(|e: TreeEntry| entry_row(e)),
                decreases entries.len() - i,
            {
                let ghost before = items_view(rows@);
                let name = entries[i].name.clone();
                let prirority = get_list_item_prirority(&name);
                rows.push(ListItem { name, dir: entries[i].dir, prirority });
                assert(items_view(rows@) =~= before.push(entry_row(entries@[i as int])));
                assert(entries@.take(i + 1).map_values(|e: TreeEntry| entry_row(e)) =~= before.push(
                    entry_row(entries@[i as int]),
                ));
                i = i + 1;
            }
            assert(entries@.take(entries.len() as int) =~= entries@);
            sort_rows(rows)
        },
        _ => Vec::new(),
    }
}

/// Drops one leading `_`, if there is one.
pub fn remove_first(chars: &[char]) -> (res: &[char])
    ensures
        res@ == if chars@.len() > 0 && chars@[0] == '_' {
            chars@.drop_first()
        } else {
            chars@
        },
{
    if chars.len() > 0 && chars[0] == '_' {
        return vstd::slice::slice_subrange(chars, 1, chars.len());
    }
    chars
}

/// The label of a list row: the name without up to two leading `_`.
pub open spec fn label(name: Seq<char>) -> Seq<char> {
    let once = if name.len() > 0 && name[0] == '_' { name.drop_first() } else { name };
    if once.len() > 0 && once[0] == '_' { once.drop_first() } else { once }
}

/// The name shown for a list row: at most two leading underscores removed.
pub fn remove_prefix(name: &String) -> (res: String)
    ensures
        res@ == label(name@),
{
    let chars = chars_of(name.as_str());
    let once = remove_first(chars.as_slice());
    let twice = remove_first(once);
    let mut kept: Vec<char> = Vec::new();
    let mut i: usize = 0;
    while i < twice.len()
        invariant
            i <= twice@.len(),
            kept@ == twice@.take(i as int),
        decreases twice@.len() - i,
    {
        kept.push(twice[i]);
        assert(twice@.take(i + 1) =~= twice@.take(i as int).push(twice@[i as int]));
        i = i + 1;
    }
    assert(twice@.take(twice@.len() as int) =~= twice@);
    crate::text::string_from_chars(&kept)
}

/// Whether a row of `list` carries `name`.
pub fn is_exist_in_list(name: &String, list: &Vec<ListItem>) -> (res: bool)
    ensures
        res == exists|k: int| 0 <= k < list@.len() && (#[trigger] list@[k]).name@ == name@,
{
    let mut i: usize = 0;
    while i < list.len()
        invariant
            i <= list.len(),
            forall|k: int| 0 <= k < i ==> (#[trigger] list@[k]).name@ != name@,
        decreases list.len() - i,
    {
        if list[i].name == *name {
            return true;
        }
        i = i + 1;
    }
    false
}

/// The style of a row's label by its priority: pinned names in green,
/// put-aside names faded and struck through.
pub fn label_css(prirority: u8) -> (res: &'static str)
    ensures
        prirority == 2 ==> res@ == "padding-left: 3px; color: green;"@,
        prirority == 1 ==> res@ == "padding-left: 3px;"@,
        prirority != 1 && prirority != 2 ==> res@ == "padding-left: 3px; opacity: 0.5; text-decoration: line-through;"@,
{
    if prirority == 2 {
        return "padding-left: 3px; color: green;";
    }
    if prirority == 1 {
        return "padding-left: 3px;";
    }
    "padding-left: 3px; opacity: 0.5; text-decoration: line-through;"
}

/// The new scroll position of the list that brings the active row into
/// view, or `None` when it is in view already: a row that starts above the
/// list scrolls the list up by the overlap, a row that ends below it
/// scrolls the list down by the overlap.
pub fn scroll_correction(active_y: i32, active_height: i32, wrapper_y: i32, wrapper_height: i32, scroll_top: i32) -> (res: Option<i64>)
    ensures
        active_y < wrapper_y ==> res == Some((scroll_top - (wrapper_y - active_y)) as i64),
        active_y >= wrapper_y && active_y + active_height > wrapper_y + wrapper_height ==> res == Some(
            (scroll_top + ((active_y + active_height) - (wrapper_y + wrapper_height))) as i64,
        ),
        active_y >= wrapper_y && active_y + active_height <= wrapper_y + wrapper_height ==> res is None,
{
    let active_y = active_y as i64;
    let wrapper_y = wrapper_y as i64;
    let scroll_top = scroll_top as i64;
    if active_y < wrapper_y {
        let offset = wrapper_y - active_y;
        return Some(scroll_top - offset);
    }
    let wrapper_y2 = wrapper_y + wrapper_height as i64;
    let active_y2 = active_y + active_height as i64;
    if active_y2 > wrapper_y2 {
        let offset = active_y2 - wrapper_y2;
        return Some(scroll_top + offset);
    }
    None
}

/// The style that marks the active link of the path header.
pub fn css_active(is_active: bool) -> (res: &'static str)
    ensures
        is_active ==> res@ == "
        text-decoration: underline;
        cursor: default;
        "@,
        !is_active ==> res@ == "cursor: pointer;"@,
{
    if is_active {
        "
        text-decoration: underline;
        cursor: default;
        "
    } else {
        "cursor: pointer;"
    }
}

} // verus!
