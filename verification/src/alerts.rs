use vstd::prelude::*;
use crate::index::{item_view, items_view, ListItem};
use crate::resource::Resource;
use crate::messages::MessageKind;
use crate::outcome::{error_follow_up, only_message, FollowUp};
use crate::text::{append_str, clone_strings, views};

verus! {

/// What the entry selected in the index view turned out to be: nothing
/// found at its path, a file, or a directory whose listing may still be
/// loading.
#[derive(PartialEq)]
pub enum CurrentContent {
    NotFound,
    File { file_name: String, file_hash: String, content: String },
    Dir { list: Resource<Vec<ListItem>> },
}

/// Deleting and editing are offered for a loaded file and for a directory
/// that is empty, or whose listing is not loaded yet; not while the content
/// itself is loading or failed, nor when nothing is found.
pub open spec fn content_allows_delete(current: Resource<CurrentContent>) -> bool {
    match current {
        Resource::Ready(CurrentContent::NotFound) => false,
        Resource::Ready(CurrentContent::File { .. }) => true,
        Resource::Ready(CurrentContent::Dir { list }) => match list {
            Resource::Ready(l) => l@.len() == 0,
            _ => true,
        },
        _ => false,
    }
}

/// Whether deleting (and editing) the selected content is offered.
pub fn create_avaible_delete_current(current: &Resource<CurrentContent>) -> (res: bool)
    ensures
        res == content_allows_delete(*current),
{
    match current {
        Resource::Ready(CurrentContent::NotFound) => false,
        Resource::Ready(CurrentContent::File { .. }) => true,
        Resource::Ready(CurrentContent::Dir { list }) => match list {
            Resource::Ready(l) => l.len() == 0,
            _ => true,
        },
        _ => false,
    }
}

/// The entry selected in the index view: what it is, and its hash.
pub struct SelectedEntry {
    pub content: Resource<CurrentContent>,
    pub hash: Resource<String>,
}

/// Which buttons of the menu act on the selected entry: editing it,
/// deleting it and moving it.
pub struct MenuButtons {
    pub edit_file: bool,
    pub delete: bool,
    pub move_item: bool,
}

/// The buttons of the menu for the selection: editing and deleting need a
/// selected entry whose content allows it; moving needs a selected entry
/// whose hash is known.
pub fn menu_buttons(selected: &Option<SelectedEntry>) -> (res: MenuButtons)
    ensures
        res.edit_file == match *selected {
            Some(s) => content_allows_delete(s.content),
            None => false,
        },
        res.delete == res.edit_file,
        res.move_item == match *selected {
            Some(s) => s.hash is Ready,
            None => false,
        },
{
    match selected {
        Some(s) => {
            let allowed = create_avaible_delete_current(&s.content);
            let known = match &s.hash {
                Resource::Ready(_) => true,
                _ => false,
            };
            MenuButtons { edit_file: allowed, delete: allowed, move_item: known }
        },
        None => MenuButtons { edit_file: false, delete: false, move_item: false },
    }
}

/// What deleting an entry sends.
pub struct DeleteRequest {
    pub path: Vec<String>,
    pub hash: String,
}

/// The alert that asks whether to delete the entry at `path`.
pub struct DeleteAlert {
    pub path: Vec<String>,
    pub progress: bool,
}

impl DeleteAlert {
    /// The alert for the entry at `path`.
    pub fn new(path: Vec<String>) -> (res: DeleteAlert)
        ensures
            res.path == path,
            !res.progress,
    {
        DeleteAlert { path, progress: false }
    }

    /// "Yes": starts deleting, once the hash of the entry is known and
    /// unless a delete is in progress; the delete is then marked in
    /// progress and the request is returned.
    pub fn delete_yes(&mut self, current_hash: &Resource<String>) -> (res: Option<DeleteRequest>)
        ensures
            (res is Some) == (!old(self).progress && current_hash is Ready),
            res is Some ==> final(self).progress,
            res is None ==> final(self).progress == old(self).progress,
            res matches Some(r) ==> {
                &&& r.path@ == old(self).path@
                &&& current_hash matches Resource::Ready(h) && r.hash@ == h@
            },
            final(self).path == old(self).path,
    {
        if self.progress {
            return None;
        }
        match current_hash {
            Resource::Ready(hash) => {
                self.progress = true;
                Some(DeleteRequest { path: clone_strings(&self.path), hash: hash.clone() })
            },
            _ => None,
        }
    }

    /// Whether the "Yes" button acts: once the hash of the entry is known.
    pub fn yes_enabled(&self, current_hash: &Resource<String>) -> (res: bool)
        ensures
            res == current_hash is Ready,
    {
        match current_hash {
            Resource::Ready(_) => true,
            _ => false,
        }
    }

    /// Ends a delete with the server's answer: the alert is free again. Once
    /// the delete went through, another entry is selected in place of the
    /// deleted one, the root listing is fetched again and the alert closes;
    /// a refused delete shows the error for ten seconds and the alert stays.
    pub fn delete_done(&mut self, result: Result<(), String>) -> (res: FollowUp)
        ensures
            !final(self).progress,
            final(self).path == old(self).path,
            match result {
                Ok(()) => {
                    &&& res.refresh_root
                    &&& !res.back_to_index
                    &&& res.select is None
                    &&& res.close_alert
                    &&& res.reselect
                    &&& res.message is None
                },
                Err(message) => only_message(res, MessageKind::Error, message@, 10000),
            },
    {
        self.progress = false;
        match result {
            Ok(()) => FollowUp {
                refresh_root: true,
                back_to_index: false,
                select: None,
                close_alert: true,
                reselect: true,
                message: None,
            },
            Err(message) => error_follow_up(message, 10000),
        }
    }

    /// "No": the alert closes, unless a delete is in progress.
    pub fn delete_no(&self) -> (res: bool)
        ensures
            res == !self.progress,
    {
        !self.progress
    }
}

/// What moving an entry sends.
pub struct MoveRequest {
    pub path: Vec<String>,
    pub hash: String,
    pub new_path: Vec<String>,
}

/// The remark under the move alert.
pub enum MoveMessage {
    /// The target is where the entry already is.
    ChooseTarget,
    /// The target directory holds an entry of the same name.
    AlreadyExists { name: String },
    /// Nothing to remark.
    Nothing,
}

/// The directory rows of a list, in order.
pub open spec fn dir_rows(s: Seq<ListItem>) -> Seq<(Seq<char>, bool, u8)>
    decreases s.len(),
{
    if s.len() == 0 {
        Seq::empty()
    } else if s.last().dir {
        dir_rows(s.drop_last()).push(item_view(s.last()))
    } else {
        dir_rows(s.drop_last())
    }
}

/// The rows that the move alert offers as targets: the directories of the
/// target's listing, in order.
pub fn list_calculate(list: &Vec<ListItem>) -> (res: Vec<ListItem>)
    ensures
        items_view(res@) == dir_rows(list@),
{
    let mut out: Vec<ListItem> = Vec::new();
    let mut i: usize = 0;
    while i < list.len()
        invariant
            i <= list.len(),
            items_view(out@) == dir_rows(list@.take(i as int)),
        decreases list.len() - i,
    {
        let ghost before = items_view(out@);
        assert(list@.take(i + 1).drop_last() =~= list@.take(i as int));
        if list[i].dir {
            let row = ListItem { name: list[i].name.clone(), dir: list[i].dir, prirority: list[i].prirority };
            out.push(row);
            assert(items_view(out@) =~= before.push(item_view(list@[i as int])));
        }
        i = i + 1;
    }
    assert(list@.take(list.len() as int) =~= list@);
    out
}

/// The alert that moves the entry at `item` to another directory.
pub struct MoveItemAlert {
    pub item: Vec<String>,
    pub hash: String,
    pub target_dir: Vec<String>,
    pub progress: bool,
}

impl MoveItemAlert {
    /// The path the entry gets when moved to the target directory.
    pub open spec fn new_path_view(&self) -> Seq<Seq<char>> {
        views(self.target_dir@).push(views(self.item@).last())
    }

    /// The alert for the entry at `item`, with its own directory as target.
    pub fn new(item: Vec<String>, hash: String) -> (res: MoveItemAlert)
        requires
            item@.len() > 0,
        ensures
            res.item == item,
            res.hash == hash,
            views(res.target_dir@) == views(item@).drop_last(),
            !res.progress,
    {
        let mut target_dir = clone_strings(&item);
        target_dir.pop();
        assert(views(target_dir@) =~= views(item@).drop_last());
        MoveItemAlert { item, hash, target_dir, progress: false }
    }

    /// The path the entry gets when moved to the target directory.
    pub fn new_path(&self) -> (res: Vec<String>)
        requires
            self.item@.len() > 0,
        ensures
            views(res@) == self.new_path_view(),
    {
        let mut path = clone_strings(&self.target_dir);
        path.push(self.item[self.item.len() - 1].clone());
        assert(views(path@) =~= self.new_path_view());
        path
    }

    /// Whether the target is the root directory.
    pub fn target_is_root(&self) -> (res: bool)
        ensures
            res == (self.target_dir@.len() == 0),
    {
        self.target_dir.len() == 0
    }

    /// Chooses another target directory.
    pub fn set_target(&mut self, target: Vec<String>)
        ensures
            final(self).target_dir == target,
            final(self).item == old(self).item,
            final(self).hash == old(self).hash,
            final(self).progress == old(self).progress,
    {
        self.target_dir = target;
    }

    /// Takes the parent of the target as the new target; the root stays.
    pub fn target_up(&mut self)
        ensures
            views(final(self).target_dir@) == if old(self).target_dir@.len() > 0 {
                views(old(self).target_dir@).drop_last()
            } else {
                views(old(self).target_dir@)
            },
            final(self).item == old(self).item,
            final(self).hash == old(self).hash,
            final(self).progress == old(self).progress,
    {
        let ghost before = views(self.target_dir@);
        self.target_dir.pop();
        proof {
            if before.len() > 0 {
                assert(views(self.target_dir@) =~= before.drop_last());
            }
        }
    }

    /// Whether the target is the entry's own directory, so that the move
    /// would leave it where it is.
    fn target_is_own_dir(&self) -> (res: bool)
        requires
            self.item@.len() > 0,
        ensures
            res == (views(self.item@) == self.new_path_view()),
    {
        let new_path = self.new_path();
        let mut same = new_path.len() == self.item.len();
        proof {
            if !same {
                assert(views(new_path@).len() != views(self.item@).len());
            }
        }
        let mut i: usize = 0;
        while same && i < new_path.len()
            invariant
                i <= new_path.len(),
                views(new_path@) == self.new_path_view(),
                same ==> new_path.len() == self.item.len(),
                same ==> forall|k: int| 0 <= k < i ==> views(new_path@)[k] == views(self.item@)[k],
                !same ==> views(new_path@) != views(self.item@),
            decreases new_path.len() - i,
        {
            if new_path[i] != self.item[i] {
                assert(views(new_path@)[i as int] != views(self.item@)[i as int]);
                same = false;
            }
            i = i + 1;
        }
        if same {
            assert(views(new_path@) =~= views(self.item@));
        }
        same
    }

    /// The remark for the chosen target, given whether an entry is found at
    /// the new path: none is looked up when the target is the entry's own
    /// directory, and a found one blocks the move.
    pub fn message(&self, found_at_new_path: &Resource<String>) -> (res: MoveMessage)
        requires
            self.item@.len() > 0,
        ensures
            views(self.item@) == self.new_path_view() ==> res is ChooseTarget,
            views(self.item@) != self.new_path_view() ==> match *found_at_new_path {
                Resource::Ready(_) => res matches MoveMessage::AlreadyExists { name } && name@ == views(self.item@).last(),
                _ => res is Nothing,
            },
    {
        if self.target_is_own_dir() {
            return MoveMessage::ChooseTarget;
        }
        match found_at_new_path {
            Resource::Ready(_) => MoveMessage::AlreadyExists { name: self.item[self.item.len() - 1].clone() },
            _ => MoveMessage::Nothing,
        }
    }

    /// Whether the move is offered ("Yes" acts): the target is not the
    /// entry's own directory, and looking up the new path has come back with
    /// no entry there (an entry found, or a lookup still loading, blocks it).
    pub fn move_enabled(&self, found_at_new_path: &Resource<String>) -> (res: bool)
        requires
            self.item@.len() > 0,
        ensures
            res == (views(self.item@) != self.new_path_view() && found_at_new_path is Failed),
    {
        if self.target_is_own_dir() {
            return false;
        }
        match found_at_new_path {
            Resource::Failed(_) => true,
            _ => false,
        }
    }

    /// Starts the move: refused while one is in progress or when the move
    /// is not offered; else the move is marked in progress and the request
    /// is returned.
    pub fn begin_move(&mut self, found_at_new_path: &Resource<String>) -> (res: Option<MoveRequest>)
        requires
            old(self).item@.len() > 0,
        ensures
            (res is Some) == (!old(self).progress && views(old(self).item@) != old(self).new_path_view()
                && found_at_new_path is Failed),
            res is Some ==> final(self).progress,
            res is None ==> final(self).progress == old(self).progress,
            res matches Some(r) ==> {
                &&& r.path@ == old(self).item@
                &&& r.hash@ == old(self).hash@
                &&& views(r.new_path@) == old(self).new_path_view()
            },
            final(self).item == old(self).item,
            final(self).hash == old(self).hash,
            final(self).target_dir == old(self).target_dir,
    {
        if self.progress {
            return None;
        }
        if !self.move_enabled(found_at_new_path) {
            return None;
        }
        self.progress = true;
        Some(MoveRequest { path: clone_strings(&self.item), hash: self.hash.clone(), new_path: self.new_path() })
    }

    /// Ends a move with the server's answer: the alert is free again. Once
    /// the move went through, the root listing is fetched again, the alert
    /// closes, another entry is selected in place of the moved one and
    /// "Udane przenoszenie" shows for a second; a refused move shows
    /// "nie udane przenoszenie" and the error for ten seconds, and the alert
    /// stays.
    pub fn move_done(&mut self, result: Result<(), String>) -> (res: FollowUp)
        ensures
            !final(self).progress,
            final(self).item == old(self).item,
            final(self).hash == old(self).hash,
            final(self).target_dir == old(self).target_dir,
            match result {
                Ok(()) => {
                    &&& res.refresh_root
                    &&& !res.back_to_index
                    &&& res.select is None
                    &&& res.close_alert
                    &&& res.reselect
                    &&& res.message matches Some((k, m, t)) && k == MessageKind::Info && m@ == "Udane przenoszenie"@
                        && t == 1000
                },
                Err(message) => only_message(res, MessageKind::Error, "nie udane przenoszenie "@ + message@, 10000),
            },
    {
        self.progress = false;
        match result {
            Ok(()) => FollowUp {
                refresh_root: true,
                back_to_index: false,
                select: None,
                close_alert: true,
                reselect: true,
                message: Some((MessageKind::Info, "Udane przenoszenie".to_owned(), 1000u32)),
            },
            Err(message) => {
                let mut text = "nie udane przenoszenie ".to_owned();
                append_str(&mut text, message.as_str());
                error_follow_up(text, 10000)
            },
        }
    }
}

} // verus!
