//! The todo module: one free-form text note, capped in length. Its
//! serialized configuration is the text itself.

use vstd::prelude::*;
use crate::clock::Cache;
use crate::components::ModuleSizeContrainte;
use crate::components::RefreshTime;
use crate::record::ModuleContent;
use crate::record::ModuleRecordModel;

verus! {

/// The largest note, in characters.
pub const MAX_LENGTH: usize = 100000;

/// The model of the todo module: its note and its two clocks.
pub struct TodoModel {
    pub content: Seq<char>,
    pub update: int,
    pub sended: int,
}

/// The todo module itself.
#[derive(Debug)]
pub struct Todo {
    content: String,
    update: Cache,
    sended: Cache,
}

impl View for Todo {
    type V = TodoModel;

    closed spec fn view(&self) -> TodoModel {
        TodoModel {
            content: self.content@,
            update: self.update.timestamp(),
            sended: self.sended.timestamp(),
        }
    }
}

impl Todo {
    /// The module state a record imports to: any content is accepted as
    /// the new note, and both clocks take the record's timestamp.
    pub open spec fn spec_import(m: TodoModel, rec: ModuleRecordModel) -> TodoModel {
        TodoModel { content: rec.content, update: rec.timestamp, sended: rec.timestamp }
    }

    /// Whether local edits have outrun the last acknowledged send.
    pub open spec fn spec_must_sync(self) -> bool {
        self@.update > self@.sended
    }

    /// A fresh, empty note; both clocks start equal.
    pub fn new() -> (r: Self)
        ensures
            r@.content.len() == 0,
            r@.update == r@.sended,
    {
        let c = Cache::default();
        Todo { content: String::new(), update: c, sended: c }
    }

    /// The note.
    pub fn content(&self) -> (r: &String)
        ensures
            r@ == self@.content,
    {
        &self.content
    }

    /// Replace the note, truncated to the length cap; the edit clock
    /// advances: the module becomes dirty.
    pub fn set_content(&mut self, content: String)
        requires
            old(self)@.update < i64::MAX,
        ensures
            content@.len() <= MAX_LENGTH as int ==> final(self)@.content == content@,
            content@.len() > MAX_LENGTH as int ==> final(self)@.content == content@.take(
                MAX_LENGTH as int,
            ),
            final(self)@.update > old(self)@.update,
            final(self)@.sended == old(self)@.sended,
    {
        let n = content.as_str().unicode_len();
        if n > MAX_LENGTH {
            self.content = content.as_str().substring_char(0, MAX_LENGTH).to_owned();
            proof {
                assert(content@.subrange(0, MAX_LENGTH as int) =~= content@.take(MAX_LENGTH as int));
            }
        } else {
            self.content = content;
        }
        self.update.update();
    }

    /// Record a local edit made outside the configuration (layout drag):
    /// the edit clock advances, so the module becomes dirty.
    pub fn cache_touch(&mut self)
        requires
            old(self)@.update < i64::MAX,
        ensures
            final(self)@.update > old(self)@.update,
            final(self)@.sended == old(self)@.sended,
            final(self)@.content == old(self)@.content,
    {
        self.update.update();
    }

    pub fn cache_mustUpdate(&self) -> (r: bool)
        ensures
            r == self.spec_must_sync(),
    {
        self.update.isNewer(&self.sended)
    }

    pub fn cache_getUpdate(&self) -> (r: Cache)
        ensures
            r.timestamp() == self@.update,
    {
        self.update
    }

    pub fn cache_getSended(&self) -> (r: Cache)
        ensures
            r.timestamp() == self@.sended,
    {
        self.sended
    }

    /// Record that a push of the record stamped `t` was acknowledged.
    pub fn cache_setSended(&mut self, t: i64)
        ensures
            final(self)@.sended == t as int,
            final(self)@.update == old(self)@.update,
            final(self)@.content == old(self)@.content,
    {
        self.sended.update_from(t);
    }

    pub fn typeModule(&self) -> (r: String)
        ensures
            r@ == "TODO"@,
    {
        "TODO".to_owned()
    }

    /// A note never refreshes itself: there is nothing to fetch.
    pub fn refresh_time(&self) -> (r: RefreshTime)
        ensures
            r == RefreshTime::NONE,
    {
        RefreshTime::NONE
    }

    pub fn size(&self) -> (r: ModuleSizeContrainte)
        ensures
            r.x_min is None && r.x_max is None && r.y_min is None && r.y_max is None,
    {
        ModuleSizeContrainte::default()
    }

    /// Serialize this module; the content is the note itself.
    pub fn export(&self) -> (r: ModuleContent)
        ensures
            r@.name == "TODO"@,
            r@.type_tag == "TODO"@,
            r@.timestamp == self@.update,
            r@.content == self@.content,
            r@.pos0 == 0 && r@.pos1 == 0 && r@.size0 == 0 && r@.size1 == 0 && r@.depth == 0,
    {
        let mut r = ModuleContent::new(self.typeModule(), self.typeModule());
        r.timestamp = self.update.get();
        r.content = self.content.clone();
        r
    }

    /// Replace the note with a record's content; both clocks take the
    /// record's timestamp, so the module is clean afterwards.
    pub fn import(&mut self, import: ModuleContent) -> (r: bool)
        ensures
            r,
            final(self)@ == Self::spec_import(old(self)@, import@),
    {
        self.content = import.content;
        self.update.update_from(import.timestamp);
        self.sended.update_from(import.timestamp);
        true
    }

    /// A todo module seeded from a stored record.
    pub fn newFromModuleContent(from: &ModuleContent) -> (r: Option<Todo>)
        ensures
            r matches Some(m) ==> m@.content == from@.content && m@.update == from@.timestamp
                && m@.sended == from@.timestamp,
            r is Some,
    {
        Some(
            Todo {
                content: from.content.clone(),
                update: Cache::newFrom(from.timestamp),
                sended: Cache::newFrom(from.timestamp),
            },
        )
    }
}

} // verus!
