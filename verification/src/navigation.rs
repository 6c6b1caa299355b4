use vstd::prelude::*;
use crate::index::ListItem;
use crate::text::{clone_strings, opt_view, str_equal, views};

verus! {

/// The directory shown and the entry selected in it.
pub type Nav = (Seq<Seq<char>>, Option<Seq<char>>);

/// Where navigation lands when the path changes from `prev` to `new`: a
/// path that leads up along `prev` selects the entry of `prev` it left.
pub open spec fn next_path(prev: Seq<Seq<char>>, new: Seq<Seq<char>>) -> Nav {
    if new.len() > prev.len() {
        (new, None)
    } else if prev.take(new.len() as int) == new {
        (new, if new.len() < prev.len() { Some(prev[new.len() as int]) } else { None })
    } else {
        (new, None)
    }
}

/// The directory and selected entry after moving from `prev_path` to
/// `new_path`. Going up to a prefix of the old path selects the directory
/// that was left; any other move selects nothing.
pub fn calculate_next_path(prev_path: &[String], new_path: Vec<String>) -> (res: (Vec<String>, Option<String>))
    ensures
        res.0@ == new_path@,
        (views(res.0@), opt_view(res.1)) == next_path(views(prev_path@), views(new_path@)),
{
    let ghost prev = views(prev_path@);
    let ghost new = views(new_path@);
    if new_path.len() > prev_path.len() {
        return (new_path, None);
    }
    let mut i: usize = 0;
    while i < new_path.len()
        invariant
            new_path.len() <= prev_path@.len(),
            i <= new_path.len(),
            prev == views(prev_path@),
            new == views(new_path@),
            forall|k: int| 0 <= k < i ==> prev[k] == new[k],
        decreases new_path.len() - i,
    {
        if prev_path[i] != new_path[i] {
            assert(prev.take(new.len() as int)[i as int] != new[i as int]);
            return (new_path, None);
        }
        i = i + 1;
    }
    assert(prev.take(new.len() as int) =~= new);
    let last = if new_path.len() < prev_path.len() {
        Some(prev_path[new_path.len()].clone())
    } else {
        None
    };
    (new_path, last)
}

/// The list of strings named by `list`, in order.
pub fn create_vector<const N: usize>(list: [&str; N]) -> (res: Vec<String>)
    ensures
        views(res@) == list@.map_values(|s: &str| s@),
{
    let mut out: Vec<String> = Vec::new();
    let mut i: usize = 0;
    while i < N
        invariant
            i <= N,
            N == list@.len(),
            views(out@) == list@.take(i as int).map_values(|s: &str| s@),
        decreases N - i,
    {
        let item: &str = list[i];
        let ghost before = views(out@);
        out.push(item.to_owned());
        assert(views(out@) =~= before.push(item@));
        assert(list@.take(i + 1).map_values(|s: &str| s@) =~= before.push(item@));
        i = i + 1;
    }
    assert(list@.take(N as int) =~= list@);
    out
}

/// The path of the selected entry: the directory followed by the entry.
pub open spec fn full_path(dir: Seq<Seq<char>>, item: Option<Seq<char>>) -> Seq<Seq<char>> {
    match item {
        Some(name) => dir.push(name),
        None => dir,
    }
}

/// The path of `select_item` inside `path`, or `path` when nothing is
/// selected.
pub fn create_full_path(path: &Vec<String>, select_item: &Option<String>) -> (res: Vec<String>)
    ensures
        views(res@) == full_path(views(path@), opt_view(*select_item)),
{
    let mut out = clone_strings(path);
    if let Some(item) = select_item {
        out.push(item.clone());
        assert(views(out@) =~= views(path@).push(item@));
    }
    out
}

/// The names of the rows of a list.
pub open spec fn row_names(list: Seq<ListItem>) -> Seq<Seq<char>> {
    list.map_values(|i: ListItem| i.name@)
}

/// The entry the list highlights: the chosen one, or else the first row.
pub open spec fn current_item(file: Option<Seq<char>>, names: Seq<Seq<char>>) -> Option<Seq<char>> {
    match file {
        Some(f) => Some(f),
        None => if names.len() > 0 { Some(names[0]) } else { None },
    }
}

/// The first position of `name` in `names` from `i` on, or -1.
pub open spec fn first_pos(names: Seq<Seq<char>>, name: Seq<char>, i: int) -> int
    decreases names.len() - i,
{
    if i < 0 || i >= names.len() {
        -1
    } else if names[i] == name {
        i
    } else {
        first_pos(names, name, i + 1)
    }
}

/// Moves to `path`; nothing changes when it is the current directory.
pub open spec fn set_path_nav(nav: Nav, path: Seq<Seq<char>>) -> Nav {
    if nav.0 == path {
        nav
    } else {
        next_path(nav.0, path)
    }
}

/// A click on the row called `node`: a directory is entered, a file is
/// selected; a name that is not in the list changes nothing.
pub open spec fn click_nav(nav: Nav, node: Seq<char>, list: Seq<ListItem>) -> Nav {
    let i = first_pos(row_names(list), node, 0);
    if i < 0 {
        nav
    } else if list[i].dir {
        set_path_nav(nav, nav.0.push(node))
    } else {
        (nav.0, Some(node))
    }
}

/// The highlight moves one row down, from the last row to the first.
pub open spec fn pointer_down_nav(nav: Nav, list: Seq<ListItem>) -> Nav {
    let names = row_names(list);
    match current_item(nav.1, names) {
        None => nav,
        Some(cur) => {
            let i = first_pos(names, cur, 0);
            if i < 0 {
                nav
            } else if i + 1 < names.len() {
                (nav.0, Some(names[i + 1]))
            } else {
                (nav.0, Some(names[0]))
            }
        },
    }
}

/// The highlight moves one row up, from the first row to the last.
pub open spec fn pointer_up_nav(nav: Nav, list: Seq<ListItem>) -> Nav {
    let names = row_names(list);
    match current_item(nav.1, names) {
        None => nav,
        Some(cur) => {
            let i = first_pos(names, cur, 0);
            if i < 0 {
                nav
            } else if i > 0 {
                (nav.0, Some(names[i - 1]))
            } else {
                (nav.0, Some(names[names.len() - 1]))
            }
        },
    }
}

/// Enter on the highlighted row acts as a click on it.
pub open spec fn pointer_enter_nav(nav: Nav, list: Seq<ListItem>) -> Nav {
    match current_item(nav.1, row_names(list)) {
        Some(cur) => if first_pos(row_names(list), cur, 0) >= 0 {
            click_nav(nav, cur, list)
        } else {
            nav
        },
        None => nav,
    }
}

/// Backspace moves up to the parent directory.
pub open spec fn backspace_nav(nav: Nav) -> Nav {
    let up = if nav.0.len() > 0 { nav.0.drop_last() } else { nav.0 };
    set_path_nav(nav, up)
}

/// The effect of a key on the index view while no alert is open, and whether
/// the key was handled.
pub open spec fn key_nav(nav: Nav, code: Seq<char>, list: Seq<ListItem>) -> (Nav, bool) {
    if code == "ArrowUp"@ {
        (pointer_up_nav(nav, list), true)
    } else if code == "ArrowDown"@ {
        (pointer_down_nav(nav, list), true)
    } else if code == "Escape"@ {
        ((nav.0, None), true)
    } else if code == "ArrowRight"@ || code == "Enter"@ {
        (pointer_enter_nav(nav, list), true)
    } else if code == "ArrowLeft"@ || code == "Backspace"@ {
        (backspace_nav(nav), true)
    } else {
        (nav, false)
    }
}

/// The modal shown over the index view.
pub enum AlertView {
    Closed,
    DeleteFile { path: Vec<String> },
    SearchInPath,
    MoveItem { path: Vec<String> },
}

/// The modal of the index view; a new one opens only when none is open.
pub struct StateAlert {
    view: AlertView,
}

impl StateAlert {
    /// The alert's current view.
    pub closed spec fn spec_view(&self) -> AlertView {
        self.view
    }

    /// Whether a modal is open.
    pub open spec fn visible(&self) -> bool {
        !(self.spec_view() is Closed)
    }

    /// No modal open.
    pub fn new() -> (res: StateAlert)
        ensures
            !res.visible(),
    {
        StateAlert { view: AlertView::Closed }
    }

    /// The modal that is open.
    pub fn view(&self) -> (res: &AlertView)
        ensures
            *res == self.spec_view(),
    {
        &self.view
    }

    /// Whether a modal is open.
    pub fn is_visible(&self) -> (res: bool)
        ensures
            res == self.visible(),
    {
        match self.view {
            AlertView::Closed => false,
            _ => true,
        }
    }

    /// Asks whether to delete `path`, unless a modal is open.
    pub fn delete(&mut self, path: Vec<String>)
        ensures
            old(self).visible() ==> final(self).spec_view() == old(self).spec_view(),
            !old(self).visible() ==> final(self).spec_view() == (AlertView::DeleteFile { path }),
    {
        if self.is_visible() {
            return;
        }
        self.view = AlertView::DeleteFile { path };
    }

    /// Opens the search, unless a modal is open.
    pub fn redirect_to_search(&mut self)
        ensures
            old(self).visible() ==> final(self).spec_view() == old(self).spec_view(),
            !old(self).visible() ==> final(self).spec_view() is SearchInPath,
    {
        if self.is_visible() {
            return;
        }
        self.view = AlertView::SearchInPath;
    }

    /// Asks where to move `path`, unless a modal is open.
    pub fn move_current(&mut self, path: Vec<String>)
        ensures
            old(self).visible() ==> final(self).spec_view() == old(self).spec_view(),
            !old(self).visible() ==> final(self).spec_view() == (AlertView::MoveItem { path }),
    {
        if self.is_visible() {
            return;
        }
        self.view = AlertView::MoveItem { path };
    }

    /// Closes the modal.
    pub fn close_modal(&mut self)
        ensures
            !final(self).visible(),
    {
        self.view = AlertView::Closed;
    }
}

/// The state of the index view: the directory shown, the chosen entry, the
/// modal, and the tabs of opened links with the active one.
pub struct AppIndexState {
    pub dir: Vec<String>,
    pub file: Option<String>,
    pub alert: StateAlert,
    pub tabs_url: Vec<String>,
    pub tabs_active: Option<String>,
}

/// Removes every copy of `x`.
pub open spec fn remove_all(s: Seq<Seq<char>>, x: Seq<char>) -> Seq<Seq<char>>
    decreases s.len(),
{
    if s.len() == 0 {
        s
    } else {
        let rest = remove_all(s.drop_last(), x);
        if s.last() == x {
            rest
        } else {
            rest.push(s.last())
        }
    }
}

/// The tabs after asking to add `url`: added at the end unless already open.
pub open spec fn tabs_added(tabs: Seq<Seq<char>>, url: Seq<char>) -> Seq<Seq<char>> {
    if tabs.contains(url) {
        tabs
    } else {
        tabs.push(url)
    }
}

/// The tabs and the active one after asking to close `url`.
pub open spec fn tabs_removed(tabs: Seq<Seq<char>>, active: Option<Seq<char>>, url: Seq<char>) -> (
    Seq<Seq<char>>,
    Option<Seq<char>>,
) {
    if !tabs.contains(url) {
        (tabs, active)
    } else {
        (remove_all(tabs, url), if active == Some(url) { None } else { active })
    }
}

/// The active tab after asking to show `url`: only an open tab can be shown.
pub open spec fn tabs_activated(tabs: Seq<Seq<char>>, active: Option<Seq<char>>, url: Seq<char>) -> Option<Seq<char>> {
    if tabs.contains(url) {
        Some(url)
    } else {
        active
    }
}

impl AppIndexState {
    /// The directory shown and the chosen entry, as plain values.
    pub open spec fn nav(&self) -> Nav {
        (views(self.dir@), opt_view(self.file))
    }

    /// The open tabs as plain values.
    pub open spec fn tabs(&self) -> Seq<Seq<char>> {
        views(self.tabs_url@)
    }

    /// The index view at the root, with nothing chosen and no tab open.
    pub fn new() -> (res: AppIndexState)
        ensures
            res.nav() == (Seq::<Seq<char>>::empty(), Option::<Seq<char>>::None),
            !res.alert.visible(),
            res.tabs() == Seq::<Seq<char>>::empty(),
            res.tabs_active is None,
    {
        let res = AppIndexState {
            dir: Vec::new(),
            file: None,
            alert: StateAlert::new(),
            tabs_url: Vec::new(),
            tabs_active: None,
        };
        assert(views(res.dir@) =~= Seq::<Seq<char>>::empty());
        assert(views(res.tabs_url@) =~= Seq::<Seq<char>>::empty());
        res
    }

    /// The highlighted entry: the chosen one, or else the first row.
    pub fn list_current_item(&self, list: &Vec<ListItem>) -> (res: Option<String>)
        ensures
            opt_view(res) == current_item(opt_view(self.file), row_names(list@)),
    {
        match &self.file {
            Some(f) => Some(f.clone()),
            None => if list.len() > 0 {
                Some(list[0].name.clone())
            } else {
                None
            },
        }
    }

    /// The path of the highlighted entry.
    pub fn current_full_path(&self, list: &Vec<ListItem>) -> (res: Vec<String>)
        ensures
            views(res@) == full_path(views(self.dir@), current_item(opt_view(self.file), row_names(list@))),
    {
        let item = self.list_current_item(list);
        create_full_path(&self.dir, &item)
    }

    /// The directory shown.
    pub fn current_path_dir(&self) -> (res: Vec<String>)
        ensures
            res@ == self.dir@,
    {
        clone_strings(&self.dir)
    }

    /// Moves to `path`, selecting the directory left when going up along the
    /// current path.
    pub fn set_path(&mut self, path: Vec<String>)
        ensures
            final(self).nav() == set_path_nav(old(self).nav(), views(path@)),
            final(self).alert == old(self).alert,
            final(self).tabs_url == old(self).tabs_url,
            final(self).tabs_active == old(self).tabs_active,
    {
        let mut same = self.dir.len() == path.len();
        proof {
            if !same {
                assert(views(self.dir@).len() != views(path@).len());
            }
        }
        let mut i: usize = 0;
        while same && i < path.len()
            invariant
                i <= path.len(),
                same ==> self.dir.len() == path.len(),
                same ==> forall|k: int| 0 <= k < i ==> views(self.dir@)[k] == views(path@)[k],
                !same ==> views(self.dir@) != views(path@),
            decreases path.len() - i,
        {
            if self.dir[i] != path[i] {
                assert(views(self.dir@)[i as int] != views(path@)[i as int]);
                same = false;
            }
            i = i + 1;
        }
        if same {
            assert(views(self.dir@) =~= views(path@));
            return;
        }
        let (new_dir, new_file) = calculate_next_path(self.dir.as_slice(), path);
        self.dir = new_dir;
        self.file = new_file;
    }

    /// Shows `path` with `item` selected, as the index view does after a
    /// save that names where to go.
    pub fn redirect_to(&mut self, path: Vec<String>, item: Option<String>)
        ensures
            final(self).dir == path,
            final(self).file == item,
            final(self).alert == old(self).alert,
            final(self).tabs_url == old(self).tabs_url,
            final(self).tabs_active == old(self).tabs_active,
    {
        self.dir = path;
        self.file = item;
    }

    /// Drops the chosen entry; the highlight falls back to the first row.
    pub fn pointer_escape(&mut self)
        ensures
            final(self).nav() == (old(self).nav().0, Option::<Seq<char>>::None),
            final(self).dir == old(self).dir,
            final(self).alert == old(self).alert,
            final(self).tabs_url == old(self).tabs_url,
            final(self).tabs_active == old(self).tabs_active,
    {
        self.file = None;
    }

    /// The first row called `item_finding`.
    fn find(&self, item_finding: &String, list: &Vec<ListItem>) -> (res: Option<usize>)
        ensures
            match res {
                Some(i) => i < list.len() && i == first_pos(row_names(list@), item_finding@, 0),
                None => first_pos(row_names(list@), item_finding@, 0) == -1,
            },
    {
        let ghost names = row_names(list@);
        let mut i: usize = 0;
        while i < list.len()
            invariant
                i <= list.len(),
                names == row_names(list@),
                first_pos(names, item_finding@, 0) == first_pos(names, item_finding@, i as int),
            decreases list.len() - i,
        {
            if list[i].name == *item_finding {
                return Some(i);
            }
            i = i + 1;
        }
        None
    }

    /// A click on the row called `node`.
    pub fn click_list_item(&mut self, node: String, list: &Vec<ListItem>)
        ensures
            final(self).nav() == click_nav(old(self).nav(), node@, list@),
            final(self).alert == old(self).alert,
            final(self).tabs_url == old(self).tabs_url,
            final(self).tabs_active == old(self).tabs_active,
    {
        match self.find(&node, list) {
            Some(i) => {
                if list[i].dir {
                    let mut current = clone_strings(&self.dir);
                    current.push(node);
                    assert(views(current@) =~= views(self.dir@).push(node@));
                    self.set_path(current);
                } else {
                    self.file = Some(node);
                }
            },
            None => {},
        }
    }

    /// Highlights the row at `index`, if there is one.
    fn try_set_pointer_to(&mut self, index: usize, list: &Vec<ListItem>) -> (res: bool)
        ensures
            res == (index < list.len()),
            res ==> final(self).nav() == (old(self).nav().0, Some(row_names(list@)[index as int])),
            !res ==> final(self).nav() == old(self).nav(),
            final(self).dir == old(self).dir,
            final(self).alert == old(self).alert,
            final(self).tabs_url == old(self).tabs_url,
            final(self).tabs_active == old(self).tabs_active,
    {
        if index < list.len() {
            self.file = Some(list[index].name.clone());
            return true;
        }
        false
    }

    /// Moves the highlight one row up, wrapping to the last row.
    pub fn pointer_up(&mut self, list: &Vec<ListItem>)
        ensures
            final(self).nav() == pointer_up_nav(old(self).nav(), list@),
            final(self).alert == old(self).alert,
            final(self).tabs_url == old(self).tabs_url,
            final(self).tabs_active == old(self).tabs_active,
    {
        match self.list_current_item(list) {
            Some(list_pointer) => {
                if let Some(index) = self.find(&list_pointer, list) {
                    if index == 0 || !self.try_set_pointer_to(index - 1, list) {
                        self.try_set_pointer_to(list.len() - 1, list);
                    }
                }
            },
            None => {
                self.try_set_pointer_to(0, list);
            },
        }
    }

    /// Moves the highlight one row down, wrapping to the first row.
    pub fn pointer_down(&mut self, list: &Vec<ListItem>)
        ensures
            final(self).nav() == pointer_down_nav(old(self).nav(), list@),
            final(self).alert == old(self).alert,
            final(self).tabs_url == old(self).tabs_url,
            final(self).tabs_active == old(self).tabs_active,
    {
        match self.list_current_item(list) {
            Some(list_pointer) => {
                if let Some(index) = self.find(&list_pointer, list) {
                    if !self.try_set_pointer_to(index + 1, list) {
                        self.try_set_pointer_to(0, list);
                    }
                }
            },
            None => {
                self.try_set_pointer_to(0, list);
            },
        }
    }

    /// Acts as a click on the highlighted row.
    pub fn pointer_enter(&mut self, list: &Vec<ListItem>)
        ensures
            final(self).nav() == pointer_enter_nav(old(self).nav(), list@),
            final(self).alert == old(self).alert,
            final(self).tabs_url == old(self).tabs_url,
            final(self).tabs_active == old(self).tabs_active,
    {
        if let Some(list_pointer) = self.list_current_item(list) {
            if self.find(&list_pointer, list).is_some() {
                self.click_list_item(list_pointer, list);
            }
        }
    }

    /// Moves up to the parent directory.
    pub fn backspace(&mut self)
        ensures
            final(self).nav() == backspace_nav(old(self).nav()),
            final(self).alert == old(self).alert,
            final(self).tabs_url == old(self).tabs_url,
            final(self).tabs_active == old(self).tabs_active,
    {
        let mut current_path = clone_strings(&self.dir);
        let ghost before = views(current_path@);
        current_path.pop();
        proof {
            if before.len() > 0 {
                assert(views(current_path@) =~= before.drop_last());
            }
        }
        self.set_path(current_path);
    }

    /// Handles a key press on the index view and says whether it was
    /// handled. While a modal is open only Escape is handled: it closes the
    /// modal.
    pub fn keydown(&mut self, code: String, list: &Vec<ListItem>) -> (res: bool)
        ensures
            old(self).alert.visible() ==> {
                &&& res == (code@ == "Escape"@)
                &&& res ==> !final(self).alert.visible()
                &&& !res ==> final(self).alert == old(self).alert
                &&& final(self).nav() == old(self).nav()
            },
            !old(self).alert.visible() ==> {
                &&& (final(self).nav(), res) == key_nav(old(self).nav(), code@, list@)
                &&& final(self).alert == old(self).alert
            },
            final(self).tabs_url == old(self).tabs_url,
            final(self).tabs_active == old(self).tabs_active,
    {
        let code = code.as_str();
        if self.alert.is_visible() {
            if str_equal(code, "Escape") {
                self.alert.close_modal();
                return true;
            }
            return false;
        }
        if str_equal(code, "ArrowUp") {
            self.pointer_up(list);
            return true;
        } else if str_equal(code, "ArrowDown") {
            self.pointer_down(list);
            return true;
        } else if str_equal(code, "Escape") {
            self.file = None;
            return true;
        } else if str_equal(code, "ArrowRight") || str_equal(code, "Enter") {
            self.pointer_enter(list);
            return true;
        } else if str_equal(code, "ArrowLeft") || str_equal(code, "Backspace") || str_equal(code, "Escape") {
            self.backspace();
            return true;
        }
        false
    }

    /// Whether a tab for `url` is open.
    pub fn tabs_has(&self, url: &String) -> (res: bool)
        ensures
            res == self.tabs().contains(url@),
    {
        let mut i: usize = 0;
        while i < self.tabs_url.len()
            invariant
                i <= self.tabs_url.len(),
                forall|k: int| 0 <= k < i ==> self.tabs()[k] != url@,
            decreases self.tabs_url.len() - i,
        {
            if self.tabs_url[i] == *url {
                assert(self.tabs()[i as int] == url@);
                return true;
            }
            i = i + 1;
        }
        false
    }

    /// Opens a tab for `url` at the end, unless one is open.
    pub fn tabs_add(&mut self, url: String)
        ensures
            final(self).tabs() == tabs_added(old(self).tabs(), url@),
            final(self).tabs_active == old(self).tabs_active,
            final(self).nav() == old(self).nav(),
            final(self).alert == old(self).alert,
    {
        if self.tabs_has(&url) {
            return;
        }
        let ghost before = self.tabs();
        self.tabs_url.push(url);
        assert(self.tabs() =~= before.push(url@));
    }

    /// Closes the tab for `url`; when it was the active one, the default
    /// view becomes active.
    pub fn tabs_remove(&mut self, url: String)
        ensures
            (final(self).tabs(), opt_view(final(self).tabs_active)) == tabs_removed(
                old(self).tabs(),
                opt_view(old(self).tabs_active),
                url@,
            ),
            final(self).nav() == old(self).nav(),
            final(self).alert == old(self).alert,
    {
        if !self.tabs_has(&url) {
            return;
        }
        let ghost before = self.tabs();
        let mut new_tabs: Vec<String> = Vec::new();
        let mut i: usize = 0;
        while i < self.tabs_url.len()
            invariant
                i <= self.tabs_url.len(),
                before == self.tabs(),
                views(new_tabs@) == remove_all(before.take(i as int), url@),
            decreases self.tabs_url.len() - i,
        {
            let ghost acc = views(new_tabs@);
            assert(before.take(i + 1).drop_last() =~= before.take(i as int));
            if self.tabs_url[i] != url {
                new_tabs.push(self.tabs_url[i].clone());
                assert(views(new_tabs@) =~= acc.push(before[i as int]));
            }
            i = i + 1;
        }
        assert(before.take(before.len() as int) =~= before);
        self.tabs_url = new_tabs;
        let is_active = match &self.tabs_active {
            Some(active) => *active == url,
            None => false,
        };
        if is_active {
            self.tabs_default();
        }
    }

    /// Shows the tab for `url`, if one is open.
    pub fn tabs_set(&mut self, url: String)
        ensures
            opt_view(final(self).tabs_active) == tabs_activated(old(self).tabs(), opt_view(old(self).tabs_active), url@),
            final(self).tabs_url == old(self).tabs_url,
            final(self).nav() == old(self).nav(),
            final(self).alert == old(self).alert,
    {
        if !self.tabs_has(&url) {
            return;
        }
        self.tabs_active = Some(url);
    }

    /// Shows the default view instead of a tab.
    pub fn tabs_default(&mut self)
        ensures
            final(self).tabs_active is None,
            final(self).tabs_url == old(self).tabs_url,
            final(self).nav() == old(self).nav(),
            final(self).alert == old(self).alert,
    {
        self.tabs_active = None;
    }
}

} // verus!
