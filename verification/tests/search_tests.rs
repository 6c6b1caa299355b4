use panel_client::resource::Resource;
use panel_client::search::{name_matches, new_results, push_list, search, split_phrase, ResultItem};
use panel_client::text::split_whitespace;
use panel_client::tree::TreeEntry;

#[test]
fn chunks() {
    let mut iter = split_whitespace(" Mary   had\ta\u{2009}little  \n\t lamb   ").into_iter();
    assert_eq!(Some(String::from("Mary")), iter.next());
    assert_eq!(Some(String::from("had")), iter.next());
    assert_eq!(Some(String::from("a")), iter.next());
    assert_eq!(Some(String::from("little")), iter.next());
    assert_eq!(Some(String::from("lamb")), iter.next());
    assert_eq!(None, iter.next());
}

#[test]
fn search_test() {
    assert_eq!(search(&"rrrr eee aaa".to_string(), &vec!("dddd".to_string())), false);

    assert_eq!(search(&"rrrr eee aaa".to_string(), &vec!("eee".to_string())), true);
    assert_eq!(search(&"rrrr eee aaa".to_string(), &vec!("eee".to_string(), "kkk".to_string())), false);
    assert_eq!(search(&"rrrr eee aaa".to_string(), &vec!("aaa".to_string(), "rrr".to_string())), true);
}

#[test]
fn search_lowercases_the_name() {
    assert!(search(&"Notes ABOUT Rust".to_string(), &vec!["about".to_string(), "rust".to_string()]));
    assert!(!search(&"Notes".to_string(), &vec!["NOTES".to_string()]));
    assert!(search(&"anything".to_string(), &Vec::new()));
}

#[test]
fn split_whitespace_edges() {
    assert_eq!(split_whitespace(""), Vec::<String>::new());
    assert_eq!(split_whitespace("   \t\n"), Vec::<String>::new());
    assert_eq!(split_whitespace("one"), vec!["one".to_string()]);
    assert_eq!(split_whitespace("a\u{3000}b"), vec!["a".to_string(), "b".to_string()]);
}

#[test]
fn split_phrase_lowercases_and_drops_short_words() {
    assert_eq!(
        split_phrase("Ala MA kota i psa".to_string()),
        vec!["ala".to_string(), "ma".to_string(), "kota".to_string(), "psa".to_string()]
    );
    assert_eq!(split_phrase("a b c".to_string()), Vec::<String>::new());
    // one character of two bytes is long enough
    assert_eq!(split_phrase("Ż x".to_string()), vec!["ż".to_string()]);
    assert_eq!(split_phrase("   ".to_string()), Vec::<String>::new());
}

#[test]
fn name_matches_is_case_insensitive_on_the_name() {
    assert!(name_matches(&"ReadMe.md".to_string(), &"readme".to_string()));
    assert!(!name_matches(&"ReadMe.md".to_string(), &"todo".to_string()));
}

#[test]
fn result_item_to_string_joins_with_slash() {
    let item = ResultItem::new_file(vec!["notes".to_string(), "rust".to_string(), "tips.md".to_string()]);
    assert_eq!(item.to_string(), "notes/rust/tips.md".to_string());
    assert!(!item.dir);
    let dir = ResultItem::new_dir(vec!["notes".to_string()]);
    assert_eq!(dir.to_string(), "notes".to_string());
    assert!(dir.dir);
    assert_eq!(ResultItem::new_dir(Vec::new()).to_string(), String::new());
}

fn file(name: &str) -> TreeEntry {
    TreeEntry { name: name.to_string(), dir: false, children: Resource::Ready(Vec::new()) }
}

fn dir(name: &str, children: Resource<Vec<TreeEntry>>) -> TreeEntry {
    TreeEntry { name: name.to_string(), dir: true, children }
}

fn paths(results: &Vec<ResultItem>) -> Vec<(String, bool)> {
    results.iter().map(|r| (r.to_string(), r.dir)).collect()
}

fn sample_tree() -> Resource<Vec<TreeEntry>> {
    Resource::Ready(vec![
        file("zeta rust.md"),
        dir(
            "Rust",
            Resource::Ready(vec![file("traits.md"), file("rust book.md"), dir("async", Resource::Ready(vec![file("rust tokio.md")]))]),
        ),
        file("Alpha RUST.txt"),
        dir("go", Resource::Ready(vec![file("rustaceans.md")])),
        file("notes.md"),
    ])
}

#[test]
fn new_results_walks_files_by_name_then_directories_by_name() {
    let results = new_results(&sample_tree(), &"RUST".to_string());
    assert_eq!(
        paths(&results),
        vec![
            ("Alpha RUST.txt".to_string(), false),
            ("zeta rust.md".to_string(), false),
            ("Rust".to_string(), true),
            ("Rust/rust book.md".to_string(), false),
            ("Rust/async/rust tokio.md".to_string(), false),
            ("go/rustaceans.md".to_string(), false),
        ]
    );
}

#[test]
fn new_results_needs_two_bytes() {
    assert!(new_results(&sample_tree(), &"r".to_string()).is_empty());
    assert!(new_results(&sample_tree(), &"".to_string()).is_empty());
}

#[test]
fn push_list_stops_at_a_listing_still_loading() {
    let tree = vec![
        file("rust a.md"),
        dir("a dir", Resource::Loading),
        dir("b dir", Resource::Ready(vec![file("rust b.md")])),
    ];
    let mut result = Vec::new();
    let status = push_list(&Resource::Ready(tree), &mut result, &Vec::new(), &"rust".to_string());
    assert!(status == Resource::Loading);
    assert_eq!(paths(&result), vec![("rust a.md".to_string(), false)]);
}

#[test]
fn push_list_reports_a_failed_listing() {
    let mut result = vec![ResultItem::new_file(vec!["kept".to_string()])];
    let status = push_list(&Resource::Failed("boom".to_string()), &mut result, &Vec::new(), &"rust".to_string());
    assert!(status == Resource::Failed("boom".to_string()));
    assert_eq!(paths(&result), vec![("kept".to_string(), false)]);
}

#[test]
fn push_list_below_a_base_path() {
    let listing = Resource::Ready(vec![file("rust.md")]);
    let mut result = Vec::new();
    let status = push_list(&listing, &mut result, &vec!["rusty".to_string()], &"rust".to_string());
    assert!(status == Resource::Ready(()));
    assert_eq!(
        paths(&result),
        vec![("rusty".to_string(), true), ("rusty/rust.md".to_string(), false)]
    );
}

#[test]
fn whitespace_table_agrees_with_std() {
    for code in 0..=0x10FFFFu32 {
        if let Some(c) = char::from_u32(code) {
            assert_eq!(panel_client::text::char_is_whitespace(c), c.is_whitespace(), "at {:x}", code);
        }
    }
}
