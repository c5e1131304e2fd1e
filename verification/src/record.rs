//! The wire and storage representation of one module's state: its unique
//! name, type tag, version timestamp, (usually encrypted) content, and
//! layout fields.

use vstd::prelude::*;

verus! {

/// Errors of the server-side store.
#[derive(Debug, Clone)]
pub enum ModuleErrors {
    /// The underlying configuration store failed; the text says how.
    ConfigError(String),
    /// The stored record is at least as new as the incoming one.
    SavedIsNewer,
    /// No record is stored under the requested name.
    Empty,
}

/// Answer of a store update: accepted, or rejected as stale.
#[derive(Debug, Clone, PartialEq, Eq, Structural)]
pub enum ModuleReturnUpdate {
    OK,
    OUTDATED,
}

/// The mathematical model of a stored module record.
pub struct ModuleRecordModel {
    pub name: Seq<char>,
    pub type_tag: Seq<char>,
    pub timestamp: int,
    pub content: Seq<char>,
    pub pos0: int,
    pub pos1: int,
    pub size0: int,
    pub size1: int,
    pub depth: int,
}

/// One module's persisted state as it crosses the wire.
#[derive(Debug, Clone)]
pub struct ModuleContent {
    pub name: String,
    pub typeModule: String,
    pub timestamp: i64,
    pub content: String,
    pub pos: [i32; 2],
    pub size: [u32; 2],
    pub depth: u32,
}

impl View for ModuleContent {
    type V = ModuleRecordModel;

    open spec fn view(&self) -> ModuleRecordModel {
        ModuleRecordModel {
            name: self.name@,
            type_tag: self.typeModule@,
            timestamp: self.timestamp as int,
            content: self.content@,
            pos0: self.pos@[0] as int,
            pos1: self.pos@[1] as int,
            size0: self.size@[0] as int,
            size1: self.size@[1] as int,
            depth: self.depth as int,
        }
    }
}

impl ModuleContent {
    /// An empty record carrying only a name and a type tag.
    pub fn new(name: String, typeModule: String) -> (r: Self)
        ensures
            r@.name == name@,
            r@.type_tag == typeModule@,
            r@.timestamp == 0,
            r@.content == Seq::<char>::empty(),
            r@.pos0 == 0 && r@.pos1 == 0 && r@.size0 == 0 && r@.size1 == 0 && r@.depth == 0,
    {
        let r = ModuleContent {
            name,
            typeModule,
            timestamp: 0,
            content: String::new(),
            pos: [0, 0],
            size: [0, 0],
            depth: 0,
        };
        proof {
            assert(r.pos@ =~= seq![0i32, 0i32]);
            assert(r.size@ =~= seq![0u32, 0u32]);
        }
        r
    }

    /// A copy of this record, equal to it in the model.
    pub fn duplicate(&self) -> (r: Self)
        ensures
            r@ == self@,
    {
        ModuleContent {
            name: self.name.clone(),
            typeModule: self.typeModule.clone(),
            timestamp: self.timestamp,
            content: self.content.clone(),
            pos: [self.pos[0], self.pos[1]],
            size: [self.size[0], self.size[1]],
            depth: self.depth,
        }
    }

    /// An empty record carrying only a name.
    pub fn newFromName(name: String) -> (r: Self)
        ensures
            r@.name == name@,
            r@.type_tag == Seq::<char>::empty(),
            r@.timestamp == 0,
            r@.content == Seq::<char>::empty(),
            r@.pos0 == 0 && r@.pos1 == 0 && r@.size0 == 0 && r@.size1 == 0 && r@.depth == 0,
    {
        Self::new(name, String::new())
    }
}

impl Default for ModuleContent {
    fn default() -> Self {
        Self::new(String::new(), String::new())
    }
}

} // verus!
