//! The closed sum of pluggable module variants, dispatched by a stable
//! type tag at the serialization boundary.

use vstd::prelude::*;
use crate::clock::Cache;
use crate::components::ModuleSizeContrainte;
use crate::components::RefreshTime;
use crate::mail::Mail;
use crate::mail::MailModel;
use crate::record::ModuleContent;
use crate::record::ModuleRecordModel;
use crate::rss::Rss;
use crate::rss::RssModel;
use crate::todo::Todo;
use crate::todo::TodoModel;
use crate::weather::Weather;
use crate::weather::WeatherModel;

verus! {

/// One pluggable module, of whichever variant.
#[derive(Debug)]
pub enum ModuleType {
    RSS(Rss),
    TODO(Todo),
    MAIL(Mail),
    WEATHER(Weather),
}

/// The model of a module of whichever variant.
pub enum ModuleTypeModel {
    RSS(RssModel),
    TODO(TodoModel),
    MAIL(MailModel),
    WEATHER(WeatherModel),
}

impl View for ModuleType {
    type V = ModuleTypeModel;

    open spec fn view(&self) -> ModuleTypeModel {
        match self {
            ModuleType::RSS(m) => ModuleTypeModel::RSS(m@),
            ModuleType::TODO(m) => ModuleTypeModel::TODO(m@),
            ModuleType::MAIL(m) => ModuleTypeModel::MAIL(m@),
            ModuleType::WEATHER(m) => ModuleTypeModel::WEATHER(m@),
        }
    }
}

impl ModuleTypeModel {
    /// The clock of the last local edit.
    pub open spec fn update_clock(self) -> int {
        match self {
            ModuleTypeModel::RSS(m) => m.update,
            ModuleTypeModel::TODO(m) => m.update,
            ModuleTypeModel::MAIL(m) => m.update,
            ModuleTypeModel::WEATHER(m) => m.update,
        }
    }

    /// The clock of the last acknowledged synchronization.
    pub open spec fn sended_clock(self) -> int {
        match self {
            ModuleTypeModel::RSS(m) => m.sended,
            ModuleTypeModel::TODO(m) => m.sended,
            ModuleTypeModel::MAIL(m) => m.sended,
            ModuleTypeModel::WEATHER(m) => m.sended,
        }
    }

    /// Whether local edits have outrun the last acknowledged send.
    pub open spec fn must_sync(self) -> bool {
        self.update_clock() > self.sended_clock()
    }

    /// The stable wire tag of this variant.
    pub open spec fn tag(self) -> Seq<char> {
        match self {
            ModuleTypeModel::RSS(_) => "RSS"@,
            ModuleTypeModel::TODO(_) => "TODO"@,
            ModuleTypeModel::MAIL(_) => "MAIL"@,
            ModuleTypeModel::WEATHER(_) => "WEATHER"@,
        }
    }

    /// The serialized configuration this module exports.
    pub open spec fn enc(self) -> Seq<char> {
        match self {
            ModuleTypeModel::RSS(m) => crate::rss::rss_enc(m.config),
            ModuleTypeModel::TODO(m) => m.content,
            ModuleTypeModel::MAIL(m) => crate::imap::imap_enc(m.config),
            ModuleTypeModel::WEATHER(m) => crate::weather::weather_enc(m.config),
        }
    }

    /// How often this module wants an autonomous background refresh.
    pub open spec fn spec_refresh_time(self) -> RefreshTime {
        match self {
            ModuleTypeModel::RSS(_) => RefreshTime::MINUTES(10u8),
            ModuleTypeModel::TODO(_) => RefreshTime::NONE,
            ModuleTypeModel::MAIL(_) => RefreshTime::HOURS(1u8),
            ModuleTypeModel::WEATHER(_) => RefreshTime::HOURS(1u8),
        }
    }

    /// The size constraints this module imposes on its own layout.
    pub open spec fn size_constraints(self) -> ModuleSizeContrainte {
        match self {
            ModuleTypeModel::WEATHER(m) => ModuleSizeContrainte {
                x_min: Some(150u32),
                x_max: None,
                y_min: Some(
                    if m.config.title.len() == 0 {
                        175u32
                    } else {
                        210u32
                    },
                ),
                y_max: None,
            },
            _ => ModuleSizeContrainte { x_min: None, x_max: None, y_min: None, y_max: None },
        }
    }

    /// The module a record imports to, keeping the variant; nothing when
    /// the record's content does not parse for it.
    pub open spec fn spec_import(self, rec: ModuleRecordModel) -> Option<ModuleTypeModel> {
        match self {
            ModuleTypeModel::RSS(m) => match Rss::spec_import(m, rec) {
                Some(m2) => Some(ModuleTypeModel::RSS(m2)),
                None => None,
            },
            ModuleTypeModel::TODO(m) => Some(ModuleTypeModel::TODO(Todo::spec_import(m, rec))),
            ModuleTypeModel::MAIL(m) => match Mail::spec_import(m, rec) {
                Some(m2) => Some(ModuleTypeModel::MAIL(m2)),
                None => None,
            },
            ModuleTypeModel::WEATHER(m) => match Weather::spec_import(m, rec) {
                Some(m2) => Some(ModuleTypeModel::WEATHER(m2)),
                None => None,
            },
        }
    }

    /// The module a stored record constructs, dispatched on its type tag;
    /// nothing for an unknown tag or content that does not parse.
    pub open spec fn spec_new_from(rec: ModuleRecordModel) -> Option<ModuleTypeModel> {
        if rec.type_tag == "RSS"@ {
            match crate::rss::rss_dec(rec.content) {
                Some(cfg) => Some(
                    ModuleTypeModel::RSS(
                        RssModel { config: cfg, update: rec.timestamp, sended: rec.timestamp },
                    ),
                ),
                None => None,
            }
        } else if rec.type_tag == "TODO"@ {
            Some(
                ModuleTypeModel::TODO(
                    TodoModel {
                        content: rec.content,
                        update: rec.timestamp,
                        sended: rec.timestamp,
                    },
                ),
            )
        } else if rec.type_tag == "WEATHER"@ {
            match crate::weather::weather_dec(rec.content) {
                Some(cfg) => Some(
                    ModuleTypeModel::WEATHER(
                        WeatherModel { config: cfg, update: rec.timestamp, sended: rec.timestamp },
                    ),
                ),
                None => None,
            }
        } else if rec.type_tag == "MAIL"@ {
            match crate::imap::imap_dec(rec.content) {
                Some(cfg) => Some(
                    ModuleTypeModel::MAIL(
                        MailModel { config: cfg, update: rec.timestamp, sended: rec.timestamp },
                    ),
                ),
                None => None,
            }
        } else {
            None
        }
    }
}

impl ModuleType {
    pub fn cache_mustUpdate(&self) -> (r: bool)
        ensures
            r == self@.must_sync(),
    {
        match self {
            ModuleType::RSS(m) => m.cache_mustUpdate(),
            ModuleType::TODO(m) => m.cache_mustUpdate(),
            ModuleType::MAIL(m) => m.cache_mustUpdate(),
            ModuleType::WEATHER(m) => m.cache_mustUpdate(),
        }
    }

    pub fn cache_getUpdate(&self) -> (r: Cache)
        ensures
            r.timestamp() == self@.update_clock(),
    {
        match self {
            ModuleType::RSS(m) => m.cache_getUpdate(),
            ModuleType::TODO(m) => m.cache_getUpdate(),
            ModuleType::MAIL(m) => m.cache_getUpdate(),
            ModuleType::WEATHER(m) => m.cache_getUpdate(),
        }
    }

    pub fn cache_getSended(&self) -> (r: Cache)
        ensures
            r.timestamp() == self@.sended_clock(),
    {
        match self {
            ModuleType::RSS(m) => m.cache_getSended(),
            ModuleType::TODO(m) => m.cache_getSended(),
            ModuleType::MAIL(m) => m.cache_getSended(),
            ModuleType::WEATHER(m) => m.cache_getSended(),
        }
    }

    /// Record that a push of the record stamped `t` was acknowledged:
    /// only the send clock moves.
    pub fn cache_setSended(&mut self, t: i64)
        ensures
            final(self)@.sended_clock() == t as int,
            final(self)@.update_clock() == old(self)@.update_clock(),
            final(self)@.enc() == old(self)@.enc(),
            final(self)@.tag() == old(self)@.tag(),
    {
        match self {
            ModuleType::RSS(m) => m.cache_setSended(t),
            ModuleType::TODO(m) => m.cache_setSended(t),
            ModuleType::MAIL(m) => m.cache_setSended(t),
            ModuleType::WEATHER(m) => m.cache_setSended(t),
        }
    }

    /// Record a local edit made outside the configuration (layout drag):
    /// the edit clock advances, so the module becomes dirty.
    pub fn cache_touch(&mut self)
        requires
            old(self)@.update_clock() < i64::MAX,
        ensures
            final(self)@.update_clock() > old(self)@.update_clock(),
            final(self)@.sended_clock() == old(self)@.sended_clock(),
            final(self)@.enc() == old(self)@.enc(),
            final(self)@.tag() == old(self)@.tag(),
    {
        match self {
            ModuleType::RSS(m) => m.cache_touch(),
            ModuleType::TODO(m) => m.cache_touch(),
            ModuleType::MAIL(m) => m.cache_touch(),
            ModuleType::WEATHER(m) => m.cache_touch(),
        }
    }

    /// The stable wire tag of this variant.
    pub fn typeModule(&self) -> (r: String)
        ensures
            r@ == self@.tag(),
    {
        match self {
            ModuleType::RSS(m) => m.typeModule(),
            ModuleType::TODO(m) => m.typeModule(),
            ModuleType::MAIL(m) => m.typeModule(),
            ModuleType::WEATHER(m) => m.typeModule(),
        }
    }

    pub fn refresh_time(&self) -> (r: RefreshTime)
        ensures
            r == self@.spec_refresh_time(),
    {
        match self {
            ModuleType::RSS(m) => m.refresh_time(),
            ModuleType::TODO(m) => m.refresh_time(),
            ModuleType::MAIL(m) => m.refresh_time(),
            ModuleType::WEATHER(m) => m.refresh_time(),
        }
    }

    pub fn size(&self) -> (r: ModuleSizeContrainte)
        ensures
            r == self@.size_constraints(),
    {
        match self {
            ModuleType::RSS(m) => m.size(),
            ModuleType::TODO(m) => m.size(),
            ModuleType::MAIL(m) => m.size(),
            ModuleType::WEATHER(m) => m.size(),
        }
    }

    /// Serialize this module, stamped with its edit clock; the record is
    /// named by the variant's tag until the engine renames it.
    pub fn export(&self) -> (r: ModuleContent)
        ensures
            r@.name == self@.tag(),
            r@.type_tag == self@.tag(),
            r@.timestamp == self@.update_clock(),
            r@.content == self@.enc(),
            r@.pos0 == 0 && r@.pos1 == 0 && r@.size0 == 0 && r@.size1 == 0 && r@.depth == 0,
    {
        match self {
            ModuleType::RSS(m) => m.export(),
            ModuleType::TODO(m) => m.export(),
            ModuleType::MAIL(m) => m.export(),
            ModuleType::WEATHER(m) => m.export(),
        }
    }

    /// Import a record into this module, keeping the variant; a record
    /// whose content does not parse leaves the module untouched. After a
    /// successful import both clocks equal the record's timestamp: the
    /// module is clean.
    pub fn import(&mut self, import: ModuleContent) -> (r: bool)
        ensures
            match old(self)@.spec_import(import@) {
                Some(m2) => r && final(self)@ == m2,
                None => !r && *final(self) == *old(self),
            },
    {
        match self {
            ModuleType::RSS(m) => m.import(import),
            ModuleType::TODO(m) => m.import(import),
            ModuleType::MAIL(m) => m.import(import),
            ModuleType::WEATHER(m) => m.import(import),
        }
    }

    /// Construct a module from a stored record, dispatching on its type
    /// tag; nothing for an unknown tag or content that does not parse.
    pub fn newFromModuleContent(from: &ModuleContent) -> (r: Option<ModuleType>)
        ensures
            match ModuleTypeModel::spec_new_from(from@) {
                Some(m2) => r matches Some(m) && m@ == m2,
                None => r is None,
            },
    {
        if from.typeModule == "RSS".to_owned() {
            match Rss::newFromModuleContent(from) {
                Some(m) => Some(ModuleType::RSS(m)),
                None => None,
            }
        } else if from.typeModule == "TODO".to_owned() {
            match Todo::newFromModuleContent(from) {
                Some(m) => Some(ModuleType::TODO(m)),
                None => None,
            }
        } else if from.typeModule == "WEATHER".to_owned() {
            match Weather::newFromModuleContent(from) {
                Some(m) => Some(ModuleType::WEATHER(m)),
                None => None,
            }
        } else if from.typeModule == "MAIL".to_owned() {
            match Mail::newFromModuleContent(from) {
                Some(m) => Some(ModuleType::MAIL(m)),
                None => None,
            }
        } else {
            None
        }
    }
}


/// Whether every text a module's configuration holds fits in memory: the
/// validity bound under which serialization round-trips.
pub open spec fn model_bounded(m: ModuleTypeModel) -> bool {
    match m {
        ModuleTypeModel::RSS(x) => x.config.title.len() <= usize::MAX && x.config.link.len()
            <= usize::MAX,
        ModuleTypeModel::TODO(x) => x.content.len() <= usize::MAX,
        ModuleTypeModel::MAIL(x) => x.config.host.len() <= usize::MAX && x.config.username.len()
            <= usize::MAX && x.config.password.len() <= usize::MAX && (x.config.extra matches Some(
            e,
        ) ==> e.boxBlackList.len() <= usize::MAX && e.flagBlackList.len() <= usize::MAX && (forall|
            i: int,
        | 0 <= i < e.boxBlackList.len() ==> #[trigger] e.boxBlackList[i].len() <= usize::MAX) && (
        forall|i: int|
            0 <= i < e.flagBlackList.len() ==> #[trigger] e.flagBlackList[i].len() <= usize::MAX)
            && crate::codec::spec_strlist(e.boxBlackList).len() <= usize::MAX
            && crate::codec::spec_strlist(e.flagBlackList).len() <= usize::MAX),
        ModuleTypeModel::WEATHER(x) => x.config.latitude.len() <= usize::MAX
            && x.config.longitude.len() <= usize::MAX && x.config.title.len() <= usize::MAX,
    }
}

/// The same module with both clocks set to `t`.
pub open spec fn with_clocks(m: ModuleTypeModel, t: int) -> ModuleTypeModel {
    match m {
        ModuleTypeModel::RSS(x) => ModuleTypeModel::RSS(
            RssModel { config: x.config, update: t, sended: t },
        ),
        ModuleTypeModel::TODO(x) => ModuleTypeModel::TODO(
            TodoModel { content: x.content, update: t, sended: t },
        ),
        ModuleTypeModel::MAIL(x) => ModuleTypeModel::MAIL(
            MailModel { config: x.config, update: t, sended: t },
        ),
        ModuleTypeModel::WEATHER(x) => ModuleTypeModel::WEATHER(
            WeatherModel { config: x.config, update: t, sended: t },
        ),
    }
}

/// Law: importing a module's own export restores it, for every variant;
/// only the clocks take the record's timestamp. Serialization loses
/// nothing.
pub proof fn lemma_module_round_trip(m: ModuleTypeModel, rec: ModuleRecordModel)
    requires
        model_bounded(m),
        rec.content == m.enc(),
    ensures
        m.spec_import(rec) == Some(with_clocks(m, rec.timestamp)),
{
    match m {
        ModuleTypeModel::RSS(x) => {
            crate::rss::lemma_rss_round_trip(x.config);
        },
        ModuleTypeModel::TODO(x) => {},
        ModuleTypeModel::MAIL(x) => {
            crate::imap::lemma_imap_round_trip(x.config);
        },
        ModuleTypeModel::WEATHER(x) => {
            crate::weather::lemma_weather_round_trip(x.config);
        },
    }
}

/// Law: a successful import leaves a module clean, with both clocks at
/// the record's timestamp.
pub proof fn lemma_import_clean(m: ModuleTypeModel, rec: ModuleRecordModel)
    ensures
        m.spec_import(rec) matches Some(m2) ==> (!m2.must_sync() && m2.update_clock()
            == rec.timestamp && m2.sended_clock() == rec.timestamp),
{
}

/// Law: a local edit makes a clean or dirty module dirty, and it stays
/// dirty until a push or pull moves the send clock.
pub proof fn lemma_local_edit_dirty(m0: ModuleTypeModel, m1: ModuleTypeModel)
    requires
        m0.sended_clock() <= m0.update_clock(),
        m1.update_clock() > m0.update_clock(),
        m1.sended_clock() == m0.sended_clock(),
    ensures
        m1.must_sync(),
{
}

/// A fresh module of the variant named by `from`, with its default
/// configuration and equal clocks; nothing for an unknown tag.
pub fn StringToModuleType(from: &str) -> (r: Option<ModuleType>)
    ensures
        from@ == "RSS"@ ==> (r matches Some(m) && (m@ matches ModuleTypeModel::RSS(x)
            && x.config.title.len() == 0 && x.config.link.len() == 0 && x.config.maxline == 10u8
            && x.update == x.sended)),
        from@ == "TODO"@ ==> (r matches Some(m) && (m@ matches ModuleTypeModel::TODO(x)
            && x.content.len() == 0 && x.update == x.sended)),
        from@ == "WEATHER"@ ==> (r matches Some(m) && (m@ matches ModuleTypeModel::WEATHER(x)
            && x.config.latitude == "0"@ && x.config.longitude == "0"@ && x.config.maxday == 3u8
            && x.config.title.len() == 0 && x.update == x.sended)),
        from@ == "MAIL"@ ==> (r matches Some(m) && (m@ matches ModuleTypeModel::MAIL(x)
            && x.config.host.len() == 0 && x.config.port == 993u16 && x.config.username.len() == 0
            && x.config.password.len() == 0 && x.config.extra is None && x.update == x.sended)),
        from@ != "RSS"@ && from@ != "TODO"@ && from@ != "WEATHER"@ && from@ != "MAIL"@ ==> r
            is None,
{
    proof {
        reveal_strlit("RSS");
        reveal_strlit("TODO");
        reveal_strlit("WEATHER");
        reveal_strlit("MAIL");
        assert("RSS"@.len() == 3);
        assert("TODO"@.len() == 4);
        assert("WEATHER"@.len() == 7);
        assert("MAIL"@.len() == 4);
        assert("MAIL"@[0] == 'M');
        assert("TODO"@[0] == 'T');
    }
    let f = from.to_owned();
    if f == "RSS".to_owned() {
        Some(ModuleType::RSS(Rss::new()))
    } else if f == "TODO".to_owned() {
        Some(ModuleType::TODO(Todo::new()))
    } else if f == "WEATHER".to_owned() {
        Some(ModuleType::WEATHER(Weather::new()))
    } else if f == "MAIL".to_owned() {
        Some(ModuleType::MAIL(Mail::new()))
    } else {
        None
    }
}

} // verus!
