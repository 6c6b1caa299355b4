use vstd::prelude::*;
use crate::index::{is_exist_in_list, ListItem};
use crate::messages::MessageKind;
use crate::outcome::{error_follow_up, only_message, ButtonMode, FollowUp};
use crate::text::{char_is_whitespace, chars_of, clone_strings, is_whitespace, join, seq_join, views};

verus! {

/// Whether some row of `list` carries `name`.
pub open spec fn listed(name: Seq<char>, list: Seq<ListItem>) -> bool {
    exists|k: int| 0 <= k < list.len() && (#[trigger] list[k]).name@ == name
}

/// The name that a new entry would take in the directory shown: the first
/// subdirectory to create, or else the new name itself.
pub open spec fn first_new_name(relative: Seq<Seq<char>>, name: Seq<char>) -> Seq<char> {
    if relative.len() > 0 {
        relative[0]
    } else {
        name
    }
}

/// A new name can be saved: it is not empty and the entry it creates in the
/// directory shown does not exist yet.
pub open spec fn new_name_valid(relative: Seq<Seq<char>>, name: Seq<char>, list: Seq<ListItem>) -> bool {
    &&& !listed(first_new_name(relative, name), list)
    &&& name.len() > 0
}

/// The name field of the forms that create a file or a directory: the name
/// typed and the subdirectories to create on the way to it.
pub struct NewName {
    pub relative_path: Vec<String>,
    pub name: String,
}

impl NewName {
    /// The subdirectories on the way, as plain values.
    pub open spec fn relative(&self) -> Seq<Seq<char>> {
        views(self.relative_path@)
    }

    /// An empty name with no subdirectory.
    pub fn new() -> (res: NewName)
        ensures
            res.relative() == Seq::<Seq<char>>::empty(),
            res.name@ == Seq::<char>::empty(),
    {
        let res = NewName { relative_path: Vec::new(), name: String::new() };
        assert(res.relative() =~= Seq::<Seq<char>>::empty());
        res
    }

    /// Whether the entry the name would create in the directory shown
    /// exists already.
    pub fn name_exists(&self, list: &Vec<ListItem>) -> (res: bool)
        ensures
            res == listed(first_new_name(self.relative(), self.name@), list@),
    {
        if self.relative_path.len() > 0 {
            is_exist_in_list(&self.relative_path[0], list)
        } else {
            is_exist_in_list(&self.name, list)
        }
    }

    /// Whether the name can be saved.
    pub fn is_valid(&self, list: &Vec<ListItem>) -> (res: bool)
        ensures
            res == new_name_valid(self.relative(), self.name@, list@),
    {
        if self.name_exists(list) {
            return false;
        }
        if self.name.as_str().is_empty() {
            return false;
        }
        true
    }

    /// The path of the new entry relative to the directory shown.
    pub fn full_relative_new_path(&self) -> (res: Vec<String>)
        ensures
            views(res@) == self.relative().push(self.name@),
    {
        let mut path = clone_strings(&self.relative_path);
        path.push(self.name.clone());
        assert(views(path@) =~= self.relative().push(self.name@));
        path
    }

    /// Takes a new value of the name, unless a save is in progress; says
    /// whether it was taken.
    pub fn on_input_name(&mut self, new_value: String, action_save: bool) -> (res: bool)
        ensures
            res == !action_save,
            res ==> final(self).name@ == new_value@,
            !res ==> final(self).name@ == old(self).name@,
            final(self).relative_path == old(self).relative_path,
    {
        if action_save {
            return false;
        }
        self.name = new_value;
        true
    }

    /// Turns the name typed into one more subdirectory and clears the name;
    /// an empty name is refused. Says whether a subdirectory was added.
    pub fn on_add_dir(&mut self) -> (res: bool)
        ensures
            res == (old(self).name@.len() > 0),
            final(self).relative() == dirs_after_add(old(self).relative(), old(self).name@),
            res ==> final(self).name@ == Seq::<char>::empty(),
            !res ==> final(self).name@ == old(self).name@,
    {
        if self.name.as_str().is_empty() {
            return false;
        }
        let ghost before = self.relative();
        let mut name = String::new();
        std::mem::swap(&mut name, &mut self.name);
        self.relative_path.push(name);
        assert(self.relative() =~= before.push(old(self).name@));
        true
    }

    /// Drops the last subdirectory, if there is one.
    pub fn on_remove_last(&mut self)
        ensures
            final(self).relative() == dirs_after_remove_last(old(self).relative()),
            final(self).name@ == old(self).name@,
    {
        let ghost before = self.relative();
        self.relative_path.pop();
        proof {
            if before.len() > 0 {
                assert(self.relative() =~= before.drop_last());
            }
        }
    }
}

/// The subdirectories after adding the name typed as one more: a non-empty
/// name goes at the end, an empty one is refused.
pub open spec fn dirs_after_add(relative: Seq<Seq<char>>, name: Seq<char>) -> Seq<Seq<char>> {
    if name.len() > 0 {
        relative.push(name)
    } else {
        relative
    }
}

/// The subdirectories after dropping the last one, if any.
pub open spec fn dirs_after_remove_last(relative: Seq<Seq<char>>) -> Seq<Seq<char>> {
    if relative.len() > 0 {
        relative.drop_last()
    } else {
        relative
    }
}

/// Adding a non-empty name typed as a subdirectory and then dropping the
/// last subdirectory gives back the subdirectories as they were.
pub proof fn law_add_dir_then_remove_last(relative: Seq<Seq<char>>, name: Seq<char>)
    requires
        name.len() > 0,
    ensures
        dirs_after_remove_last(dirs_after_add(relative, name)) == relative,
{
    assert(relative.push(name).drop_last() =~= relative);
}

/// Whether every character of `s` is whitespace, that is, whether trimming
/// `s` leaves nothing.
pub open spec fn blank(s: Seq<char>) -> bool {
    forall|i: int| 0 <= i < s.len() ==> is_whitespace(#[trigger] s[i])
}

/// Whether `s` holds nothing but whitespace (`s.trim()` is empty).
pub fn is_blank(s: &str) -> (res: bool)
    ensures
        res == blank(s@),
{
    let chars = chars_of(s);
    let mut i: usize = 0;
    while i < chars.len()
        invariant
            i <= chars.len(),
            chars@ == s@,
            forall|k: int| 0 <= k < i ==> is_whitespace(#[trigger] chars@[k]),
        decreases chars.len() - i,
    {
        if !char_is_whitespace(chars[i]) {
            return false;
        }
        i = i + 1;
    }
    true
}

/// The text of a file being edited and the hash of the content it replaces.
pub struct EditContent {
    pub content: String,
    pub hash: String,
}

/// The plain values of an edit: its text and its hash.
pub open spec fn edit_view(e: Option<EditContent>) -> Option<(Seq<char>, Seq<char>)> {
    match e {
        Some(e) => Some((e.content@, e.hash@)),
        None => None,
    }
}

/// What saving the new content of a file sends.
pub struct SaveContentRequest {
    pub path: Vec<String>,
    pub prev_hash: String,
    pub new_content: String,
}

/// The form that edits the content of a file.
pub struct EditContentForm {
    pub path: Vec<String>,
    pub action_save: bool,
    pub content_edit: Option<EditContent>,
}

impl EditContentForm {
    /// The form for the file at `path`, with nothing edited yet.
    pub fn new(path: Vec<String>) -> (res: EditContentForm)
        ensures
            res.path == path,
            !res.action_save,
            res.content_edit is None,
    {
        EditContentForm { path, action_save: false, content_edit: None }
    }

    /// Saving is offered once something was typed.
    pub fn save_enable(&self) -> (res: bool)
        ensures
            res == self.content_edit is Some,
    {
        self.content_edit.is_some()
    }

    /// What the editor shows: the text typed, or else the content loaded
    /// from the server (`None` while it loads).
    pub fn content_view(&self, loaded: Option<EditContent>) -> (res: Option<EditContent>)
        ensures
            edit_view(res) == if self.content_edit is Some {
                edit_view(self.content_edit)
            } else {
                edit_view(loaded)
            },
    {
        match &self.content_edit {
            Some(edit) => Some(EditContent { content: edit.content.clone(), hash: edit.hash.clone() }),
            None => loaded,
        }
    }

    /// Takes the text typed, unless a save is in progress; says whether it
    /// was taken.
    pub fn on_input(&mut self, new_text: String, new_hash: String) -> (res: bool)
        ensures
            res == !old(self).action_save,
            res ==> edit_view(final(self).content_edit) == Some((new_text@, new_hash@)),
            !res ==> edit_view(final(self).content_edit) == edit_view(old(self).content_edit),
            final(self).action_save == old(self).action_save,
            final(self).path == old(self).path,
    {
        if self.action_save {
            return false;
        }
        self.content_edit = Some(EditContent { content: new_text, hash: new_hash });
        true
    }

    /// Starts saving the text typed: refused while a save is in progress or
    /// when nothing was typed; else the save is marked in progress and the
    /// request is returned.
    pub fn begin_save(&mut self) -> (res: Option<SaveContentRequest>)
        ensures
            (res is Some) == (!old(self).action_save && old(self).content_edit is Some),
            res is Some ==> final(self).action_save,
            res is None ==> final(self).action_save == old(self).action_save,
            res matches Some(r) ==> {
                &&& r.path@ == old(self).path@
                &&& old(self).content_edit matches Some(e) && r.prev_hash@ == e.hash@ && r.new_content@ == e.content@
            },
            final(self).path == old(self).path,
            edit_view(final(self).content_edit) == edit_view(old(self).content_edit),
    {
        if self.action_save {
            return None;
        }
        let request = match &self.content_edit {
            Some(edit) => SaveContentRequest {
                path: clone_strings(&self.path),
                prev_hash: edit.hash.clone(),
                new_content: edit.content.clone(),
            },
            None => {
                return None;
            },
        };
        self.action_save = true;
        Some(request)
    }

    /// Ends a save with the server's answer: the form is free again. Once
    /// the save went through, the text typed is dropped (the editor shows the
    /// saved content), the root listing is fetched again, and the page either
    /// goes back to the index view or says "Zapis udany" for five seconds.
    /// A refused save keeps the text typed and shows the error for two
    /// seconds.
    pub fn end_save(&mut self, result: Result<(), String>, and_back_to_view: bool) -> (res: FollowUp)
        ensures
            !final(self).action_save,
            final(self).path == old(self).path,
            match result {
                Ok(()) => {
                    &&& final(self).content_edit is None
                    &&& res.refresh_root
                    &&& res.back_to_index == and_back_to_view
                    &&& res.select is None
                    &&& !res.close_alert
                    &&& !res.reselect
                    &&& and_back_to_view ==> res.message is None
                    &&& !and_back_to_view ==> (res.message matches Some((k, m, t)) && k == MessageKind::Info
                        && m@ == "Zapis udany"@ && t == 5000)
                },
                Err(message) => {
                    &&& edit_view(final(self).content_edit) == edit_view(old(self).content_edit)
                    &&& only_message(res, MessageKind::Error, message@, 2000)
                },
            },
    {
        self.action_save = false;
        match result {
            Ok(()) => {
                self.content_edit = None;
                let message = if and_back_to_view {
                    None
                } else {
                    Some((MessageKind::Info, "Zapis udany".to_owned(), 5000u32))
                };
                FollowUp {
                    refresh_root: true,
                    back_to_index: and_back_to_view,
                    select: None,
                    close_alert: false,
                    reselect: false,
                    message,
                }
            },
            Err(message) => error_follow_up(message, 2000),
        }
    }
}

/// What renaming an entry sends.
pub struct RenameRequest {
    pub path: Vec<String>,
    pub prev_name: String,
    pub prev_hash: String,
    pub new_name: String,
}

/// Renaming is offered for a name that is not blank and differs from the
/// old one.
pub open spec fn rename_enabled(new_name: Seq<char>, prev_name: Seq<char>) -> bool {
    !blank(new_name) && new_name != prev_name
}

/// The form that renames the entry `prev_name` of the directory `path`.
pub struct RenameForm {
    pub path: Vec<String>,
    pub prev_name: String,
    pub prev_hash: String,
    pub new_name: String,
    pub action_save: bool,
}

impl RenameForm {
    /// The form, with the old name typed in.
    pub fn new(path: Vec<String>, prev_name: String, prev_hash: String) -> (res: RenameForm)
        ensures
            res.path == path,
            res.prev_name@ == prev_name@,
            res.prev_hash == prev_hash,
            res.new_name@ == prev_name@,
            !res.action_save,
    {
        let new_name = prev_name.clone();
        RenameForm { path, prev_name, prev_hash, new_name, action_save: false }
    }

    /// Whether renaming is offered.
    pub fn save_enable(&self) -> (res: bool)
        ensures
            res == rename_enabled(self.new_name@, self.prev_name@),
    {
        if is_blank(self.new_name.as_str()) {
            return false;
        }
        self.new_name != self.prev_name
    }

    /// The path of the entry being renamed, joined with `/`.
    pub fn get_full_path(&self) -> (res: String)
        ensures
            res@ == seq_join(views(self.path@).push(self.prev_name@), "/"@),
    {
        let mut path = clone_strings(&self.path);
        path.push(self.prev_name.clone());
        assert(views(path@) =~= views(self.path@).push(self.prev_name@));
        join(&path, "/")
    }

    /// Takes the name typed, unless a save is in progress; says whether it
    /// was taken.
    pub fn on_input(&mut self, new_text: String) -> (res: bool)
        ensures
            res == !old(self).action_save,
            res ==> final(self).new_name@ == new_text@,
            !res ==> final(self).new_name@ == old(self).new_name@,
            final(self).action_save == old(self).action_save,
            final(self).path == old(self).path,
            final(self).prev_name == old(self).prev_name,
            final(self).prev_hash == old(self).prev_hash,
    {
        if self.action_save {
            return false;
        }
        self.new_name = new_text;
        true
    }

    /// The state of the save button: busy while a rename is in progress,
    /// ready when renaming is offered, refused otherwise.
    pub fn button_state(&self) -> (res: ButtonMode)
        ensures
            res == if self.action_save {
                ButtonMode::Process
            } else if rename_enabled(self.new_name@, self.prev_name@) {
                ButtonMode::Active
            } else {
                ButtonMode::Disabled
            },
    {
        if self.action_save {
            ButtonMode::Process
        } else if self.save_enable() {
            ButtonMode::Active
        } else {
            ButtonMode::Disabled
        }
    }

    /// Starts the rename: refused while a save is in progress or when
    /// renaming is not offered; else the save is marked in progress and the
    /// request is returned.
    pub fn begin_save(&mut self) -> (res: Option<RenameRequest>)
        ensures
            (res is Some) == (!old(self).action_save && rename_enabled(old(self).new_name@, old(self).prev_name@)),
            res is Some ==> final(self).action_save,
            res is None ==> final(self).action_save == old(self).action_save,
            res matches Some(r) ==> {
                &&& r.path@ == old(self).path@
                &&& r.prev_name@ == old(self).prev_name@
                &&& r.prev_hash@ == old(self).prev_hash@
                &&& r.new_name@ == old(self).new_name@
            },
            final(self).path == old(self).path,
            final(self).prev_name == old(self).prev_name,
            final(self).prev_hash == old(self).prev_hash,
            final(self).new_name == old(self).new_name,
    {
        if self.action_save {
            return None;
        }
        if !self.save_enable() {
            return None;
        }
        self.action_save = true;
        Some(RenameRequest {
            path: clone_strings(&self.path),
            prev_name: self.prev_name.clone(),
            prev_hash: self.prev_hash.clone(),
            new_name: self.new_name.clone(),
        })
    }

    /// Ends a rename with the server's answer: the form is free again. Once
    /// it went through, the page goes back to the index view at the same
    /// directory with the entry selected under its new name, and fetches the
    /// root listing again; a refused rename shows the error for ten seconds.
    pub fn end_save(&mut self, result: Result<(), String>) -> (res: FollowUp)
        ensures
            !final(self).action_save,
            final(self).path == old(self).path,
            final(self).prev_name == old(self).prev_name,
            final(self).prev_hash == old(self).prev_hash,
            final(self).new_name == old(self).new_name,
            match result {
                Ok(()) => {
                    &&& res.refresh_root
                    &&& res.back_to_index
                    &&& res.select matches Some((dir, Some(item))) && dir@ == old(self).path@ && item@ == old(self).new_name@
                    &&& !res.close_alert
                    &&& !res.reselect
                    &&& res.message is None
                },
                Err(message) => only_message(res, MessageKind::Error, message@, 10000),
            },
    {
        self.action_save = false;
        match result {
            Ok(()) => FollowUp {
                refresh_root: true,
                back_to_index: true,
                select: Some(self.redirect_after_save()),
                close_alert: false,
                reselect: false,
                message: None,
            },
            Err(message) => error_follow_up(message, 10000),
        }
    }

    /// Where the index view goes once the rename went through: the same
    /// directory, with the entry selected under its new name.
    pub fn redirect_after_save(&self) -> (res: (Vec<String>, Option<String>))
        ensures
            res.0@ == self.path@,
            res.1 matches Some(n) && n@ == self.new_name@,
    {
        (clone_strings(&self.path), Some(self.new_name.clone()))
    }
}

/// What creating a file sends.
pub struct CreateFileRequest {
    pub path: Vec<String>,
    pub new_path: Vec<String>,
    pub new_content: String,
}

/// The form that creates a file, with its content, in the directory `parent`.
pub struct NewContentForm {
    pub parent: Vec<String>,
    pub new_name: NewName,
    pub content: String,
    pub action_save: bool,
}

impl NewContentForm {
    /// The empty form for a file in `parent`.
    pub fn new(parent: Vec<String>) -> (res: NewContentForm)
        ensures
            res.parent == parent,
            res.new_name.relative() == Seq::<Seq<char>>::empty(),
            res.new_name.name@ == Seq::<char>::empty(),
            res.content@ == Seq::<char>::empty(),
            !res.action_save,
    {
        NewContentForm { parent, new_name: NewName::new(), content: String::new(), action_save: false }
    }

    /// Saving is offered for a valid name and some content.
    pub fn save_enable(&self, list: &Vec<ListItem>) -> (res: bool)
        ensures
            res == (new_name_valid(self.new_name.relative(), self.new_name.name@, list@)
                && self.content@.len() > 0),
    {
        if !self.new_name.is_valid(list) {
            return false;
        }
        if self.content.as_str().is_empty() {
            return false;
        }
        true
    }

    /// Takes the name typed, unless a save is in progress.
    pub fn on_input_name(&mut self, new_value: String) -> (res: bool)
        ensures
            res == !old(self).action_save,
            res ==> final(self).new_name.name@ == new_value@,
            !res ==> final(self).new_name.name@ == old(self).new_name.name@,
            final(self).new_name.relative_path == old(self).new_name.relative_path,
            final(self).content == old(self).content,
            final(self).action_save == old(self).action_save,
            final(self).parent == old(self).parent,
    {
        let action_save = self.action_save;
        self.new_name.on_input_name(new_value, action_save)
    }

    /// Takes the content typed, unless a save is in progress.
    pub fn on_input_content(&mut self, new_value: String) -> (res: bool)
        ensures
            res == !old(self).action_save,
            res ==> final(self).content@ == new_value@,
            !res ==> final(self).content@ == old(self).content@,
            final(self).new_name == old(self).new_name,
            final(self).action_save == old(self).action_save,
            final(self).parent == old(self).parent,
    {
        if self.action_save {
            return false;
        }
        self.content = new_value;
        true
    }

    /// Starts creating the file: refused while a save is in progress; else
    /// the save is marked in progress, and the request is returned with the
    /// directory and the entry the index view goes to once it went through:
    /// the directory of the new file, and the file.
    pub fn begin_save(&mut self) -> (res: Option<(CreateFileRequest, Vec<String>, Option<String>)>)
        ensures
            (res is Some) == !old(self).action_save,
            final(self).action_save,
            res matches Some((r, dir, item)) ==> {
                &&& r.path@ == old(self).parent@
                &&& views(r.new_path@) == old(self).new_name.relative().push(old(self).new_name.name@)
                &&& r.new_content@ == old(self).content@
                &&& views(dir@) == views(old(self).parent@) + old(self).new_name.relative()
                &&& item matches Some(n) && n@ == old(self).new_name.name@
            },
            final(self).parent == old(self).parent,
            final(self).new_name == old(self).new_name,
            final(self).content == old(self).content,
    {
        if self.action_save {
            return None;
        }
        self.action_save = true;
        let request = CreateFileRequest {
            path: clone_strings(&self.parent),
            new_path: self.new_name.full_relative_new_path(),
            new_content: self.content.clone(),
        };
        let dir = self.redirect_dir();
        Some((request, dir, Some(self.new_name.name.clone())))
    }

    /// The directory the new file lands in: the parent followed by the
    /// subdirectories on the way.
    fn redirect_dir(&self) -> (res: Vec<String>)
        ensures
            views(res@) == views(self.parent@) + self.new_name.relative(),
    {
        let mut dir = clone_strings(&self.parent);
        let mut i: usize = 0;
        while i < self.new_name.relative_path.len()
            invariant
                i <= self.new_name.relative_path.len(),
                views(dir@) == views(self.parent@) + self.new_name.relative().take(i as int),
            decreases self.new_name.relative_path.len() - i,
        {
            let ghost before = views(dir@);
            dir.push(self.new_name.relative_path[i].clone());
            assert(views(dir@) =~= before.push(self.new_name.relative()[i as int]));
            assert(self.new_name.relative().take(i + 1) =~= self.new_name.relative().take(i as int).push(
                self.new_name.relative()[i as int],
            ));
            i = i + 1;
        }
        assert(self.new_name.relative().take(self.new_name.relative().len() as int) =~= self.new_name.relative());
        dir
    }

    /// Ends creating the file with the server's answer: the form is free
    /// again. Once it went through, the page goes back to the index view at
    /// the directory of the new file with the file selected, and fetches the
    /// root listing again; a refused request shows the error for ten seconds.
    pub fn end_save(&mut self, result: Result<(), String>) -> (res: FollowUp)
        ensures
            !final(self).action_save,
            final(self).parent == old(self).parent,
            final(self).new_name == old(self).new_name,
            final(self).content == old(self).content,
            match result {
                Ok(()) => {
                    &&& res.refresh_root
                    &&& res.back_to_index
                    &&& res.select matches Some((dir, Some(item))) && views(dir@) == views(old(self).parent@)
                        + old(self).new_name.relative() && item@ == old(self).new_name.name@
                    &&& !res.close_alert
                    &&& !res.reselect
                    &&& res.message is None
                },
                Err(message) => only_message(res, MessageKind::Error, message@, 10000),
            },
    {
        self.action_save = false;
        match result {
            Ok(()) => FollowUp {
                refresh_root: true,
                back_to_index: true,
                select: Some((self.redirect_dir(), Some(self.new_name.name.clone()))),
                close_alert: false,
                reselect: false,
                message: None,
            },
            Err(message) => error_follow_up(message, 10000),
        }
    }
}

/// What creating a directory sends.
pub struct CreateDirRequest {
    pub path: Vec<String>,
    pub dir: String,
}

/// The form that creates a directory in the directory `parent`.
pub struct NewDirForm {
    pub parent: Vec<String>,
    pub new_name: NewName,
    pub action_save: bool,
}

impl NewDirForm {
    /// The empty form for a directory in `parent`.
    pub fn new(parent: Vec<String>) -> (res: NewDirForm)
        ensures
            res.parent == parent,
            res.new_name.relative() == Seq::<Seq<char>>::empty(),
            res.new_name.name@ == Seq::<char>::empty(),
            !res.action_save,
    {
        NewDirForm { parent, new_name: NewName::new(), action_save: false }
    }

    /// Saving is offered for a valid name.
    pub fn save_enable(&self, list: &Vec<ListItem>) -> (res: bool)
        ensures
            res == new_name_valid(self.new_name.relative(), self.new_name.name@, list@),
    {
        self.new_name.is_valid(list)
    }

    /// Takes the name typed, unless a save is in progress.
    pub fn on_input_name(&mut self, new_value: String) -> (res: bool)
        ensures
            res == !old(self).action_save,
            res ==> final(self).new_name.name@ == new_value@,
            !res ==> final(self).new_name.name@ == old(self).new_name.name@,
            final(self).new_name.relative_path == old(self).new_name.relative_path,
            final(self).action_save == old(self).action_save,
            final(self).parent == old(self).parent,
    {
        let action_save = self.action_save;
        self.new_name.on_input_name(new_value, action_save)
    }

    /// Starts creating the directory: refused while a save is in progress;
    /// else the save is marked in progress, and the request is returned with
    /// where the index view goes once it went through: the parent, with the
    /// new directory selected.
    pub fn begin_save(&mut self) -> (res: Option<(CreateDirRequest, Vec<String>, Option<String>)>)
        ensures
            (res is Some) == !old(self).action_save,
            final(self).action_save,
            res matches Some((r, dir, item)) ==> {
                &&& r.path@ == old(self).parent@
                &&& r.dir@ == old(self).new_name.name@
                &&& dir@ == old(self).parent@
                &&& item matches Some(n) && n@ == old(self).new_name.name@
            },
            final(self).parent == old(self).parent,
            final(self).new_name == old(self).new_name,
    {
        if self.action_save {
            return None;
        }
        self.action_save = true;
        let request = CreateDirRequest { path: clone_strings(&self.parent), dir: self.new_name.name.clone() };
        Some((request, clone_strings(&self.parent), Some(self.new_name.name.clone())))
    }

    /// Ends creating the directory with the server's answer: the form is
    /// free again. Once it went through, the page goes back to the index view
    /// at the parent with the new directory selected, and fetches the root
    /// listing again; a refused request shows the error for ten seconds.
    pub fn end_save(&mut self, result: Result<(), String>) -> (res: FollowUp)
        ensures
            !final(self).action_save,
            final(self).parent == old(self).parent,
            final(self).new_name == old(self).new_name,
            match result {
                Ok(()) => {
                    &&& res.refresh_root
                    &&& res.back_to_index
                    &&& res.select matches Some((dir, Some(item))) && dir@ == old(self).parent@
                        && item@ == old(self).new_name.name@
                    &&& !res.close_alert
                    &&& !res.reselect
                    &&& res.message is None
                },
                Err(message) => only_message(res, MessageKind::Error, message@, 10000),
            },
    {
        self.action_save = false;
        match result {
            Ok(()) => FollowUp {
                refresh_root: true,
                back_to_index: true,
                select: Some((clone_strings(&self.parent), Some(self.new_name.name.clone()))),
                close_alert: false,
                reselect: false,
                message: None,
            },
            Err(message) => error_follow_up(message, 10000),
        }
    }
}

} // verus!
