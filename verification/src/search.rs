use vstd::prelude::*;
use vstd::utf8::encode_utf8;
use crate::resource::Resource;
use crate::tree::TreeEntry;
use crate::sort::{sort_strings, sorted_names};
use crate::text::{
    clone_strings, contains, contains_seq, join, lowercase, seq_join, split_whitespace,
    to_lowercase, views, words,
};

verus! {

/// Keeps the words whose UTF-8 encoding takes at least two bytes, in order.
pub open spec fn long_words(ws: Seq<Seq<char>>) -> Seq<Seq<char>>
    decreases ws.len(),
{
    if ws.len() == 0 {
        Seq::empty()
    } else {
        let rest = long_words(ws.drop_last());
        if encode_utf8(ws.last()).len() >= 2 {
            rest.push(ws.last())
        } else {
            rest
        }
    }
}

/// The UTF-8 encoding takes at least one byte per character.
proof fn lemma_encode_len_at_least_chars(w: Seq<char>)
    ensures
        encode_utf8(w).len() >= w.len(),
    decreases w.len(),
{
    if w.len() > 0 {
        lemma_encode_len_at_least_chars(w.drop_first());
    }
}

/// A word takes two bytes or more exactly when it has two characters or
/// more, or one character outside ASCII.
proof fn lemma_long_word(w: Seq<char>)
    ensures
        encode_utf8(w).len() >= 2 <==> (w.len() >= 2 || (w.len() == 1 && (w[0] as u32) >= 0x80)),
{
    lemma_encode_len_at_least_chars(w);
    if w.len() == 1 {
        assert(w.drop_first() =~= Seq::<char>::empty());
        assert(encode_utf8(w) == vstd::utf8::encode_scalar(w[0] as u32) + encode_utf8(w.drop_first()));
    }
}

/// Whether a word takes at least two bytes in UTF-8.
fn is_long_word(w: &String) -> (res: bool)
    ensures
        res == (encode_utf8(w@).len() >= 2),
{
    proof {
        lemma_long_word(w@);
    }
    let chars = crate::text::chars_of(w.as_str());
    if chars.len() >= 2 {
        true
    } else if chars.len() == 1 {
        (chars[0] as u32) >= 0x80
    } else {
        false
    }
}

/// The search chunks of a phrase: its lowercase words of two bytes or more.
pub open spec fn phrase_chunks(phrase: Seq<char>) -> Seq<Seq<char>> {
    long_words(words(lowercase(phrase)))
}

/// Splits a search phrase into lowercase words, dropping the words shorter
/// than two bytes.
pub fn split_phrase(phrase: String) -> (res: Vec<String>)
    ensures
        views(res@) == phrase_chunks(phrase@),
{
    let lower = to_lowercase(phrase.as_str());
    let ws = split_whitespace(lower.as_str());
    let mut res: Vec<String> = Vec::new();
    let mut i: usize = 0;
    while i < ws.len()
        invariant
            i <= ws.len(),
            views(ws@) == words(lowercase(phrase@)),
            views(res@) == long_words(views(ws@).take(i as int)),
        decreases ws.len() - i,
    {
        let ghost before = views(res@);
        assert(views(ws@).take(i + 1).drop_last() =~= views(ws@).take(i as int));
        assert(views(ws@).take(i + 1).last() == ws@[i as int]@);
        if is_long_word(&ws[i]) {
            res.push(ws[i].clone());
            assert(views(res@) =~= before.push(ws@[i as int]@));
        }
        i = i + 1;
    }
    assert(views(ws@).take(ws.len() as int) =~= views(ws@));
    res
}

/// Whether `name`, lowercased, holds every chunk of the phrase.
pub open spec fn name_matches_all(name: Seq<char>, chunks: Seq<Seq<char>>) -> bool {
    forall|k: int| 0 <= k < chunks.len() ==> contains_seq(lowercase(name), #[trigger] chunks[k])
}

/// Whether the lowercased `name` holds every chunk of `phrase`.
pub fn search(name: &String, phrase: &Vec<String>) -> (res: bool)
    ensures
        res == name_matches_all(name@, views(phrase@)),
{
    let lower = to_lowercase(name.as_str());
    let mut i: usize = 0;
    while i < phrase.len()
        invariant
            i <= phrase.len(),
            lower@ == lowercase(name@),
            forall|k: int| 0 <= k < i ==> contains_seq(lower@, #[trigger] views(phrase@)[k]),
        decreases phrase.len() - i,
    {
        if !contains(lower.as_str(), phrase[i].as_str()) {
            assert(!contains_seq(lower@, views(phrase@)[i as int]));
            return false;
        }
        i = i + 1;
    }
    true
}

/// A search hit: the path of a file or directory.
#[derive(PartialEq)]
pub struct ResultItem {
    pub path: Vec<String>,
    pub dir: bool,
}

/// A search hit as plain values.
pub open spec fn result_view(r: ResultItem) -> (Seq<Seq<char>>, bool) {
    (views(r.path@), r.dir)
}

/// Search hits as plain values.
pub open spec fn results_view(rs: Seq<ResultItem>) -> Seq<(Seq<Seq<char>>, bool)> {
    rs.map_values(|r: ResultItem| result_view(r))
}

impl ResultItem {
    /// A hit on the directory at `path`.
    pub fn new_dir(path: Vec<String>) -> (res: ResultItem)
        ensures
            res.path == path,
            res.dir,
    {
        ResultItem { path, dir: true }
    }

    /// A hit on the file at `path`.
    pub fn new_file(path: Vec<String>) -> (res: ResultItem)
        ensures
            res.path == path,
            !res.dir,
    {
        ResultItem { path, dir: false }
    }

    /// The path joined with `/`.
    pub fn to_string(&self) -> (res: String)
        ensures
            res@ == seq_join(views(self.path@), "/"@),
    {
        join(&self.path, "/")
    }
}

/// A name is a hit when its lowercase form holds the (lowercase) phrase.
pub open spec fn is_hit(name: Seq<char>, phrase: Seq<char>) -> bool {
    contains_seq(lowercase(name), phrase)
}

/// Whether `name` is a hit for the lowercase `phrase`.
pub fn name_matches(name: &String, phrase: &String) -> (res: bool)
    ensures
        res == is_hit(name@, phrase@),
{
    let lower = to_lowercase(name.as_str());
    contains(lower.as_str(), phrase.as_str())
}

/// The names of the files of a listing that are hits, in listing order.
pub open spec fn matching_file_names(entries: Seq<TreeEntry>, phrase: Seq<char>) -> Seq<Seq<char>>
    decreases entries.len(),
{
    if entries.len() == 0 {
        Seq::empty()
    } else {
        let rest = matching_file_names(entries.drop_last(), phrase);
        let e = entries.last();
        if !e.dir && is_hit(e.name@, phrase) {
            rest.push(e.name@)
        } else {
            rest
        }
    }
}

/// The names of the directories of a listing, in listing order.
pub open spec fn dir_names(entries: Seq<TreeEntry>) -> Seq<Seq<char>>
    decreases entries.len(),
{
    if entries.len() == 0 {
        Seq::empty()
    } else {
        let rest = dir_names(entries.drop_last());
        if entries.last().dir {
            rest.push(entries.last().name@)
        } else {
            rest
        }
    }
}

/// The position of the first entry called `name` from `i` on, or -1.
pub open spec fn first_index(entries: Seq<TreeEntry>, name: Seq<char>, i: int) -> int
    decreases entries.len() - i,
{
    if i < 0 || i >= entries.len() {
        -1
    } else if entries[i].name@ == name {
        i
    } else {
        first_index(entries, name, i + 1)
    }
}

/// The hits below a directory whose listing is `listing`, in the order the
/// search visits them, and whether the walk reached its end.
pub open spec fn walk(listing: Resource<Vec<TreeEntry>>, base: Seq<Seq<char>>, phrase: Seq<char>) -> (
    Seq<(Seq<Seq<char>>, bool)>,
    Resource<()>,
)
    decreases listing, 0nat,
{
    match listing {
        Resource::Loading => (Seq::empty(), Resource::Loading),
        Resource::Failed(error) => (Seq::empty(), Resource::Failed(error)),
        Resource::Ready(entries) => walk_ready(entries@, base, phrase),
    }
}

/// The hit on the directory itself, when its name is one.
pub open spec fn head_hit(base: Seq<Seq<char>>, phrase: Seq<char>) -> Seq<(Seq<Seq<char>>, bool)> {
    if base.len() > 0 && is_hit(base.last(), phrase) {
        seq![(base, true)]
    } else {
        Seq::empty()
    }
}

/// The hits on the files of a listing, sorted by name.
pub open spec fn file_hits(entries: Seq<TreeEntry>, base: Seq<Seq<char>>, phrase: Seq<char>) -> Seq<(Seq<Seq<char>>, bool)> {
    sorted_names(matching_file_names(entries, phrase)).map_values(|f: Seq<char>| (base.push(f), false))
}

/// The walk over a loaded listing: the directory itself, its matching files
/// by name, then each subdirectory by name.
pub open spec fn walk_ready(entries: Seq<TreeEntry>, base: Seq<Seq<char>>, phrase: Seq<char>) -> (
    Seq<(Seq<Seq<char>>, bool)>,
    Resource<()>,
)
    decreases entries, sorted_names(dir_names(entries)).len() + 1,
{
    let (rest, status) = walk_dirs(entries, sorted_names(dir_names(entries)), base, phrase);
    (head_hit(base, phrase) + file_hits(entries, base, phrase) + rest, status)
}

/// The walk over the subdirectories `names` of a listing, in order, which
/// stops at the first one whose listing is not loaded.
pub open spec fn walk_dirs(
    entries: Seq<TreeEntry>,
    names: Seq<Seq<char>>,
    base: Seq<Seq<char>>,
    phrase: Seq<char>,
) -> (Seq<(Seq<Seq<char>>, bool)>, Resource<()>)
    decreases entries, names.len(),
{
    if names.len() == 0 {
        (Seq::empty(), Resource::Ready(()))
    } else {
        let i = first_index(entries, names[0], 0);
        if 0 <= i < entries.len() {
            let (found, status) = walk(entries[i].children, base.push(names[0]), phrase);
            if status is Ready {
                let (rest, status2) = walk_dirs(entries, names.drop_first(), base, phrase);
                (found + rest, status2)
            } else {
                (found, status)
            }
        } else {
            walk_dirs(entries, names.drop_first(), base, phrase)
        }
    }
}

/// The names of the files of a listing that are hits.
fn collect_matching_files(entries: &Vec<TreeEntry>, phrase: &String) -> (res: Vec<String>)
    ensures
        views(res@) == matching_file_names(entries@, phrase@),
{
    let mut res: Vec<String> = Vec::new();
    let mut i: usize = 0;
    while i < entries.len()
        invariant
            i <= entries.len(),
            views(res@) == matching_file_names(entries@.take(i as int), phrase@),
        decreases entries.len() - i,
    {
        let ghost before = views(res@);
        assert(entries@.take(i + 1).drop_last() =~= entries@.take(i as int));
        let e = &entries[i];
        if !e.dir && name_matches(&e.name, phrase) {
            res.push(e.name.clone());
            assert(views(res@) =~= before.push(e.name@));
        }
        i = i + 1;
    }
    assert(entries@.take(entries.len() as int) =~= entries@);
    res
}

/// The names of the directories of a listing.
fn collect_dir_names(entries: &Vec<TreeEntry>) -> (res: Vec<String>)
    ensures
        views(res@) == dir_names(entries@),
{
    let mut res: Vec<String> = Vec::new();
    let mut i: usize = 0;
    while i < entries.len()
        invariant
            i <= entries.len(),
            views(res@) == dir_names(entries@.take(i as int)),
        decreases entries.len() - i,
    {
        let ghost before = views(res@);
        assert(entries@.take(i + 1).drop_last() =~= entries@.take(i as int));
        if entries[i].dir {
            res.push(entries[i].name.clone());
            assert(views(res@) =~= before.push(entries@[i as int].name@));
        }
        i = i + 1;
    }
    assert(entries@.take(entries.len() as int) =~= entries@);
    res
}

/// The position of the first entry called `name`.
fn find_entry(entries: &Vec<TreeEntry>, name: &String) -> (res: Option<usize>)
    ensures
        match res {
            Some(i) => i == first_index(entries@, name@, 0) && i < entries.len(),
            None => first_index(entries@, name@, 0) == -1,
        },
{
    let mut i: usize = 0;
    while i < entries.len()
        invariant
            i <= entries.len(),
            first_index(entries@, name@, 0) == first_index(entries@, name@, i as int),
        decreases entries.len() - i,
    {
        if entries[i].name == *name {
            return Some(i);
        }
        i = i + 1;
    }
    None
}

/// Appends to `result` the hits below the directory at `base` whose listing
/// is `listing`: the directory itself when its name is a hit, then its
/// matching files by name, then, by name, the hits of each subdirectory.
/// Stops at the first listing that is still loading or has failed, and
/// reports it; the hits found before stay in `result`.
pub fn push_list(
    listing: &Resource<Vec<TreeEntry>>,
    result: &mut Vec<ResultItem>,
    base: &Vec<String>,
    phrase: &String,
) -> (res: Resource<()>)
    ensures
        results_view(final(result)@) == results_view(old(result)@) + walk(*listing, views(base@), phrase@).0,
        res == walk(*listing, views(base@), phrase@).1,
    decreases *listing, 0nat,
{
    let entries = match listing {
        Resource::Loading => {
            assert(results_view(result@) =~= results_view(old(result)@) + Seq::empty());
            return Resource::Loading;
        },
        Resource::Failed(error) => {
            assert(results_view(result@) =~= results_view(old(result)@) + Seq::empty());
            return Resource::Failed(error.clone());
        },
        Resource::Ready(entries) => entries,
    };
    let ghost b = views(base@);
    let ghost ph = phrase@;
    let ghost start = results_view(old(result)@);
    let ghost total = walk_ready(entries@, b, ph);

    // the directory itself
    if base.len() > 0 && name_matches(&base[base.len() - 1], phrase) {
        let ghost r0 = results_view(result@);
        result.push(ResultItem::new_dir(clone_strings(base)));
        assert(results_view(result@) =~= r0.push((b, true)));
    }
    assert(results_view(result@) =~= start + head_hit(b, ph));

    // the matching files, by name
    let files = sort_strings(collect_matching_files(entries, phrase));
    let ghost hits = file_hits(entries@, b, ph);
    let mut k: usize = 0;
    while k < files.len()
        invariant
            k <= files.len(),
            views(files@) == sorted_names(matching_file_names(entries@, ph)),
            hits == file_hits(entries@, b, ph),
            hits.len() == files.len(),
            b == views(base@),
            ph == phrase@,
            results_view(result@) == start + head_hit(b, ph) + hits.take(k as int),
        decreases files.len() - k,
    {
        let ghost r0 = results_view(result@);
        let mut path = clone_strings(base);
        path.push(files[k].clone());
        assert(views(path@) =~= b.push(files@[k as int]@));
        result.push(ResultItem::new_file(path));
        assert(hits.take(k + 1) =~= hits.take(k as int).push(hits[k as int]));
        assert(results_view(result@) =~= r0.push((views(path@), false)));
        k = k + 1;
    }
    assert(hits.take(files.len() as int) =~= hits);

    // the subdirectories, by name
    let dirs = sort_strings(collect_dir_names(entries));
    let ghost names = views(dirs@);
    let ghost prefix = start + head_hit(b, ph) + hits;
    assert(total.0 =~= head_hit(b, ph) + hits + walk_dirs(entries@, names, b, ph).0);
    assert(names.skip(0) =~= names);
    let mut d: usize = 0;
    while d < dirs.len()
        invariant
            d <= dirs.len(),
            names == views(dirs@),
            names == sorted_names(dir_names(entries@)),
            b == views(base@),
            ph == phrase@,
            total == walk_ready(entries@, b, ph),
            start == results_view(old(result)@),
            *listing == Resource::Ready(*entries),
            results_view(result@) + walk_dirs(entries@, names.skip(d as int), b, ph).0 == start + total.0,
            walk_dirs(entries@, names.skip(d as int), b, ph).1 == total.1,
        decreases dirs.len() - d,
    {
        let ghost rest = names.skip(d as int);
        assert(rest[0] == dirs@[d as int]@);
        assert(rest.drop_first() =~= names.skip(d + 1));
        match find_entry(entries, &dirs[d]) {
            Some(i) => {
                let mut path = clone_strings(base);
                path.push(dirs[d].clone());
                assert(views(path@) =~= b.push(rest[0]));
                let ghost r0 = results_view(result@);
                let status = push_list(&entries[i].children, result, &path, phrase);
                let ghost found = walk(entries@[i as int].children, b.push(rest[0]), ph);
                let ghost next = walk_dirs(entries@, rest.drop_first(), b, ph);
                match status {
                    Resource::Ready(()) => {
                        assert(walk_dirs(entries@, rest, b, ph) == (found.0 + next.0, next.1));
                        assert(results_view(result@) + next.0 =~= r0 + walk_dirs(entries@, rest, b, ph).0);
                    },
                    _ => {
                        assert(walk_dirs(entries@, rest, b, ph) == found);
                        assert(results_view(result@) =~= r0 + walk_dirs(entries@, rest, b, ph).0);
                        assert(walk(*listing, b, ph) == total);
                        assert(results_view(result@) =~= start + total.0);
                        return status;
                    },
                }
            },
            None => {
                assert(walk_dirs(entries@, rest, b, ph) == walk_dirs(entries@, rest.drop_first(), b, ph));
            },
        }
        d = d + 1;
    }
    assert(names.skip(dirs.len() as int) =~= Seq::<Seq<char>>::empty());
    assert(results_view(result@) =~= start + total.0);
    Resource::Ready(())
}

/// The search results for `phrase` over the tree whose root listing is
/// `root`: nothing for a phrase shorter than two bytes once lowercased, else
/// the hits that the walk collects (also when it stopped at a listing that
/// is not loaded).
pub fn new_results(root: &Resource<Vec<TreeEntry>>, phrase: &String) -> (res: Vec<ResultItem>)
    ensures
        results_view(res@) == if encode_utf8(lowercase(phrase@)).len() < 2 {
            Seq::empty()
        } else {
            walk(*root, Seq::empty(), lowercase(phrase@)).0
        },
{
    let phrase_value = to_lowercase(phrase.as_str());
    let mut result: Vec<ResultItem> = Vec::new();
    if !is_long_word(&phrase_value) {
        assert(results_view(result@) =~= Seq::empty());
        return result;
    }
    let base: Vec<String> = Vec::new();
    assert(views(base@) =~= Seq::<Seq<char>>::empty());
    let _status = push_list(root, &mut result, &base, &phrase_value);
    assert(results_view(result@) =~= Seq::empty() + walk(*root, Seq::empty(), lowercase(phrase@)).0);
    result
}

} // verus!
