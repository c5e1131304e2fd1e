//! A module wrapped with its spatial layout: position and size travel in
//! the same record as the module's own configuration.

use vstd::prelude::*;
use crate::clock::Cache;
use crate::module_type::ModuleType;
use crate::module_type::ModuleTypeModel;
use crate::record::ModuleContent;

verus! {

/// The model of a positioned module.
pub struct ModulePositionsModel {
    pub pos0: int,
    pub pos1: int,
    pub size0: int,
    pub size1: int,
    pub module: ModuleTypeModel,
}

/// A module and where it sits on the dashboard.
#[derive(Debug)]
pub struct ModulePositions {
    pos: [i32; 2],
    size: [u32; 2],
    module: ModuleType,
}

impl View for ModulePositions {
    type V = ModulePositionsModel;

    closed spec fn view(&self) -> ModulePositionsModel {
        ModulePositionsModel {
            pos0: self.pos@[0] as int,
            pos1: self.pos@[1] as int,
            size0: self.size@[0] as int,
            size1: self.size@[1] as int,
            module: self.module@,
        }
    }
}

/// One dimension of a resize, clamped to the module's constraint and to
/// the 150-pixel floor.
pub open spec fn spec_clamp_dim(v: int, minc: Option<u32>, maxc: Option<u32>) -> int {
    let v1 = match maxc {
        Some(m) => if v > m as int {
            m as int
        } else {
            v
        },
        None => v,
    };
    let v2 = match minc {
        Some(m) => if v1 < m as int {
            m as int
        } else {
            v1
        },
        None => v1,
    };
    if v2 < 150 {
        150
    } else {
        v2
    }
}

impl ModulePositions {
    /// Wrap a module at the origin with the default size.
    pub fn new(module: ModuleType) -> (r: Self)
        ensures
            r@.pos0 == 0 && r@.pos1 == 0,
            r@.size0 == 100 && r@.size1 == 100,
            r@.module == module@,
    {
        let r = ModulePositions { pos: [0, 0], size: [100, 100], module };
        proof {
            assert(r.pos@ =~= seq![0i32, 0i32]);
            assert(r.size@ =~= seq![100u32, 100u32]);
        }
        r
    }

    /// Wrap a module with the layout a stored record carries.
    pub fn newFromModuleContent(from: &ModuleContent, module: ModuleType) -> (r: Self)
        ensures
            r@.pos0 == from@.pos0 && r@.pos1 == from@.pos1,
            r@.size0 == from@.size0 && r@.size1 == from@.size1,
            r@.module == module@,
    {
        let r = ModulePositions {
            pos: [from.pos[0], from.pos[1]],
            size: [from.size[0], from.size[1]],
            module,
        };
        proof {
            assert(r.pos@ =~= seq![from.pos@[0], from.pos@[1]]);
            assert(r.size@ =~= seq![from.size@[0], from.size@[1]]);
        }
        r
    }

    /// The wrapped module.
    pub fn inner(&self) -> (r: &ModuleType)
        ensures
            r@ == self@.module,
    {
        &self.module
    }

    pub fn cache_mustUpdate(&self) -> (r: bool)
        ensures
            r == self@.module.must_sync(),
    {
        self.module.cache_mustUpdate()
    }

    pub fn cache_getUpdate(&self) -> (r: Cache)
        ensures
            r.timestamp() == self@.module.update_clock(),
    {
        self.module.cache_getUpdate()
    }

    /// Record that a push of the record stamped `t` was acknowledged.
    pub fn cache_setSended(&mut self, t: i64)
        ensures
            final(self)@.module.sended_clock() == t as int,
            final(self)@.module.update_clock() == old(self)@.module.update_clock(),
            final(self)@.module.enc() == old(self)@.module.enc(),
            final(self)@.module.tag() == old(self)@.module.tag(),
            final(self)@.pos0 == old(self)@.pos0 && final(self)@.pos1 == old(self)@.pos1,
            final(self)@.size0 == old(self)@.size0 && final(self)@.size1 == old(self)@.size1,
    {
        self.module.cache_setSended(t);
    }

    /// Record a local edit of the wrapped module's content made through
    /// the interface; the module becomes dirty.
    pub fn cache_touch(&mut self)
        requires
            old(self)@.module.update_clock() < i64::MAX,
        ensures
            final(self)@.module.update_clock() > old(self)@.module.update_clock(),
            final(self)@.module.sended_clock() == old(self)@.module.sended_clock(),
            final(self)@.module.enc() == old(self)@.module.enc(),
            final(self)@.module.tag() == old(self)@.module.tag(),
            final(self)@.pos0 == old(self)@.pos0 && final(self)@.pos1 == old(self)@.pos1,
            final(self)@.size0 == old(self)@.size0 && final(self)@.size1 == old(self)@.size1,
    {
        self.module.cache_touch();
    }

    /// Drag the module to a new position; the module becomes dirty.
    pub fn set_pos(&mut self, x: i32, y: i32)
        requires
            old(self)@.module.update_clock() < i64::MAX,
        ensures
            final(self)@.pos0 == x as int && final(self)@.pos1 == y as int,
            final(self)@.size0 == old(self)@.size0 && final(self)@.size1 == old(self)@.size1,
            final(self)@.module.update_clock() > old(self)@.module.update_clock(),
            final(self)@.module.sended_clock() == old(self)@.module.sended_clock(),
            final(self)@.module.enc() == old(self)@.module.enc(),
            final(self)@.module.tag() == old(self)@.module.tag(),
    {
        self.module.cache_touch();
        self.pos = [x, y];
        proof {
            assert(self.pos@ =~= seq![x, y]);
        }
    }

    /// Resize the module, clamping each dimension to its constraints and
    /// to the 150-pixel floor; the module becomes dirty.
    pub fn set_size(&mut self, x: i32, y: i32)
        requires
            old(self)@.module.update_clock() < i64::MAX,
        ensures
            ({
                let c = old(self)@.module.size_constraints();
                final(self)@.size0 == spec_clamp_dim(x as int, c.x_min, c.x_max) && final(self)@.size1 == spec_clamp_dim(y as int, c.y_min, c.y_max)
            }),
            final(self)@.pos0 == old(self)@.pos0 && final(self)@.pos1 == old(self)@.pos1,
            final(self)@.module.update_clock() > old(self)@.module.update_clock(),
            final(self)@.module.sended_clock() == old(self)@.module.sended_clock(),
            final(self)@.module.enc() == old(self)@.module.enc(),
            final(self)@.module.tag() == old(self)@.module.tag(),
    {
        let c = self.module.size();
        let sx = Self::clamp_dim(x, c.x_min, c.x_max);
        let sy = Self::clamp_dim(y, c.y_min, c.y_max);
        self.module.cache_touch();
        self.size = [sx, sy];
        proof {
            assert(self.size@ =~= seq![sx, sy]);
        }
    }

    /// One dimension of a resize, clamped.
    fn clamp_dim(v: i32, minc: Option<u32>, maxc: Option<u32>) -> (r: u32)
        ensures
            r as int == spec_clamp_dim(v as int, minc, maxc),
    {
        let mut v1: i64 = v as i64;
        match maxc {
            Some(m) => {
                if v1 > m as i64 {
                    v1 = m as i64;
                }
            },
            None => {},
        }
        match minc {
            Some(m) => {
                if v1 < m as i64 {
                    v1 = m as i64;
                }
            },
            None => {},
        }
        if v1 < 150 {
            150
        } else {
            v1 as u32
        }
    }

    /// Serialize the wrapped module and stamp the record with this
    /// wrapper's layout.
    pub fn export(&self) -> (r: ModuleContent)
        ensures
            r@.name == self@.module.tag(),
            r@.type_tag == self@.module.tag(),
            r@.timestamp == self@.module.update_clock(),
            r@.content == self@.module.enc(),
            r@.pos0 == self@.pos0 && r@.pos1 == self@.pos1,
            r@.size0 == self@.size0 && r@.size1 == self@.size1,
            r@.depth == 0,
    {
        let mut e = self.module.export();
        e.pos = [self.pos[0], self.pos[1]];
        e.size = [self.size[0], self.size[1]];
        proof {
            assert(e.pos@ =~= seq![self.pos@[0], self.pos@[1]]);
            assert(e.size@ =~= seq![self.size@[0], self.size@[1]]);
        }
        e
    }

    /// Take a record's layout, and import its content into the wrapped
    /// module; the layout applies whether or not the content parses.
    pub fn import(&mut self, import: ModuleContent) -> (r: bool)
        ensures
            final(self)@.pos0 == import@.pos0 && final(self)@.pos1 == import@.pos1,
            final(self)@.size0 == import@.size0 && final(self)@.size1 == import@.size1,
            match old(self)@.module.spec_import(import@) {
                Some(m2) => r && final(self)@.module == m2,
                None => !r && final(self)@.module == old(self)@.module,
            },
    {
        self.pos = [import.pos[0], import.pos[1]];
        self.size = [import.size[0], import.size[1]];
        proof {
            assert(self.pos@ =~= seq![import.pos@[0], import.pos@[1]]);
            assert(self.size@ =~= seq![import.size@[0], import.size@[1]]);
        }
        self.module.import(import)
    }
}

} // verus!
