//! The RSS module: a feed address, an optional display title, and a line
//! cap. The feed itself is fetched by the application shell; this module
//! owns the configuration and its synchronization state.

use vstd::prelude::*;
use crate::clock::Cache;
use crate::codec::dec_digits;
use crate::codec::lemma_parse_u64_digits;
use crate::codec::lemma_take_strlist;
use crate::codec::parse_u64_chars;
use crate::codec::push_u64_digits;
use crate::codec::spec_parse_u64;
use crate::codec::spec_strlist;
use crate::codec::strs_views;
use crate::codec::push_strlist;
use crate::codec::take_strlist;
use crate::codec::take_strlist_str;
use crate::components::ModuleSizeContrainte;
use crate::components::RefreshTime;
use crate::record::ModuleContent;
use crate::record::ModuleRecordModel;

verus! {

/// The model of an RSS configuration.
pub struct RssConfigModel {
    pub title: Seq<char>,
    pub link: Seq<char>,
    pub maxline: u8,
}

/// An RSS feed configuration: display title, feed address, line cap.
#[derive(Debug, Clone)]
pub struct RssConfig {
    pub title: String,
    pub link: String,
    pub maxline: u8,
}

impl View for RssConfig {
    type V = RssConfigModel;

    open spec fn view(&self) -> RssConfigModel {
        RssConfigModel { title: self.title@, link: self.link@, maxline: self.maxline }
    }
}

/// The line cap a configuration starts with.
pub fn maxline_default() -> (r: u8)
    ensures
        r == 10u8,
{
    10
}

impl Default for RssConfig {
    /// Empty title and address, default line cap.
    fn default() -> (r: Self)
        ensures
            r@.title.len() == 0 && r@.link.len() == 0 && r@.maxline == 10u8,
    {
        RssConfig { title: String::new(), link: String::new(), maxline: maxline_default() }
    }
}

/// The serialized form of an RSS configuration: title, address, line cap.
pub open spec fn rss_enc(c: RssConfigModel) -> Seq<char> {
    spec_strlist(seq![c.title, c.link, dec_digits(c.maxline as int)])
}

/// Read an RSS configuration back out of its serialized form.
pub open spec fn rss_dec(s: Seq<char>) -> Option<RssConfigModel> {
    match take_strlist(s) {
        Some(p) => if p.1.len() == 0 && p.0.len() == 3 {
            match spec_parse_u64(p.0[2]) {
                Some(v) => if v <= u8::MAX as u64 {
                    Some(RssConfigModel { title: p.0[0], link: p.0[1], maxline: v as u8 })
                } else {
                    None
                },
                None => None,
            }
        } else {
            None
        },
        None => None,
    }
}

/// Law: a serialized RSS configuration reads back to itself.
pub proof fn lemma_rss_round_trip(c: RssConfigModel)
    requires
        c.title.len() <= usize::MAX,
        c.link.len() <= usize::MAX,
    ensures
        rss_dec(rss_enc(c)) == Some(c),
{
    let ss = seq![c.title, c.link, dec_digits(c.maxline as int)];
    crate::codec::lemma_dec_digits_short(c.maxline as int);
    assert(forall|i: int| 0 <= i < ss.len() ==> #[trigger] ss[i].len() <= usize::MAX);
    lemma_take_strlist(ss, Seq::<char>::empty());
    assert(spec_strlist(ss) + Seq::<char>::empty() =~= spec_strlist(ss));
    lemma_parse_u64_digits(c.maxline as u64);
}

/// Serialize an RSS configuration.
pub fn rss_encode(c: &RssConfig) -> (r: String)
    ensures
        r@ == rss_enc(c@),
{
    let mut flat: Vec<String> = Vec::new();
    flat.push(c.title.clone());
    flat.push(c.link.clone());
    let mut digits = String::new();
    push_u64_digits(c.maxline as u64, &mut digits);
    flat.push(digits);
    let mut out = String::new();
    push_strlist(&flat, &mut out);
    proof {
        assert(strs_views(flat@) =~= seq![c@.title, c@.link, dec_digits(c.maxline as int)]);
    }
    out
}

/// Read an RSS configuration back out of its serialized form.
pub fn rss_decode(s: &str) -> (r: Option<RssConfig>)
    ensures
        match r {
            Some(c) => rss_dec(s@) == Some(c@),
            None => rss_dec(s@) is None,
        },
{
    proof {
        assert(s@.skip(0) =~= s@);
    }
    let (flat, pos) = match take_strlist_str(s, 0) {
        Some(p) => p,
        None => {
            return None;
        },
    };
    if pos != s.unicode_len() {
        proof {
            assert(s@.skip(pos as int).len() > 0);
        }
        return None;
    }
    proof {
        assert(s@.skip(pos as int).len() == 0);
    }
    if flat.len() != 3 {
        return None;
    }
    let v = match parse_u64_chars(flat[2].as_str()) {
        Some(v) => v,
        None => {
            return None;
        },
    };
    if v > u8::MAX as u64 {
        return None;
    }
    Some(
        RssConfig {
            title: flat[0].clone(),
            link: flat[1].clone(),
            maxline: v as u8,
        },
    )
}

/// The model of the RSS module: its configuration and its two clocks.
pub struct RssModel {
    pub config: RssConfigModel,
    pub update: int,
    pub sended: int,
}

/// The RSS module itself.
#[derive(Debug)]
pub struct Rss {
    config: RssConfig,
    update: Cache,
    sended: Cache,
}

impl View for Rss {
    type V = RssModel;

    closed spec fn view(&self) -> RssModel {
        RssModel {
            config: self.config@,
            update: self.update.timestamp(),
            sended: self.sended.timestamp(),
        }
    }
}

impl Rss {
    /// The module state a record imports to, when its content parses.
    pub open spec fn spec_import(m: RssModel, rec: ModuleRecordModel) -> Option<RssModel> {
        match rss_dec(rec.content) {
            Some(cfg) => Some(RssModel { config: cfg, update: rec.timestamp, sended: rec.timestamp }),
            None => None,
        }
    }

    /// Whether local edits have outrun the last acknowledged send.
    pub open spec fn spec_must_sync(self) -> bool {
        self@.update > self@.sended
    }

    /// A fresh RSS module with the default configuration.
    pub fn new() -> (r: Self)
        ensures
            r@.config.title.len() == 0 && r@.config.link.len() == 0 && r@.config.maxline == 10u8,
            r@.update == r@.sended,
    {
        let c = Cache::default();
        Rss { config: RssConfig::default(), update: c, sended: c }
    }

    /// The configuration.
    pub fn config(&self) -> (r: &RssConfig)
        ensures
            r@ == self@.config,
    {
        &self.config
    }

    /// Change the display title; the module becomes dirty.
    pub fn set_title(&mut self, title: String)
        requires
            old(self)@.update < i64::MAX,
        ensures
            final(self)@.config == (RssConfigModel { title: title@, ..old(self)@.config }),
            final(self)@.update > old(self)@.update,
            final(self)@.sended == old(self)@.sended,
    {
        self.config.title = title;
        self.update.update();
    }

    /// Change the feed address; the module becomes dirty.
    pub fn set_link(&mut self, link: String)
        requires
            old(self)@.update < i64::MAX,
        ensures
            final(self)@.config == (RssConfigModel { link: link@, ..old(self)@.config }),
            final(self)@.update > old(self)@.update,
            final(self)@.sended == old(self)@.sended,
    {
        self.config.link = link;
        self.update.update();
    }

    /// Change the line cap; the module becomes dirty.
    pub fn set_maxline(&mut self, maxline: u8)
        requires
            old(self)@.update < i64::MAX,
        ensures
            final(self)@.config == (RssConfigModel { maxline: maxline, ..old(self)@.config }),
            final(self)@.update > old(self)@.update,
            final(self)@.sended == old(self)@.sended,
    {
        self.config.maxline = maxline;
        self.update.update();
    }

    /// Record a local edit made outside the configuration (layout drag):
    /// the edit clock advances, so the module becomes dirty.
    pub fn cache_touch(&mut self)
        requires
            old(self)@.update < i64::MAX,
        ensures
            final(self)@.update > old(self)@.update,
            final(self)@.sended == old(self)@.sended,
            final(self)@.config == old(self)@.config,
    {
        self.update.update();
    }

    pub fn cache_mustUpdate(&self) -> (r: bool)
        ensures
            r == self.spec_must_sync(),
    {
        self.update.isNewer(&self.sended)
    }

    pub fn cache_getUpdate(&self) -> (r: Cache)
        ensures
            r.timestamp() == self@.update,
    {
        self.update
    }

    pub fn cache_getSended(&self) -> (r: Cache)
        ensures
            r.timestamp() == self@.sended,
    {
        self.sended
    }

    /// Record that a push of the record stamped `t` was acknowledged.
    pub fn cache_setSended(&mut self, t: i64)
        ensures
            final(self)@.sended == t as int,
            final(self)@.update == old(self)@.update,
            final(self)@.config == old(self)@.config,
    {
        self.sended.update_from(t);
    }

    pub fn typeModule(&self) -> (r: String)
        ensures
            r@ == "RSS"@,
    {
        "RSS".to_owned()
    }

    pub fn refresh_time(&self) -> (r: RefreshTime)
        ensures
            r == RefreshTime::MINUTES(10u8),
    {
        RefreshTime::MINUTES(10)
    }

    pub fn size(&self) -> (r: ModuleSizeContrainte)
        ensures
            r.x_min is None && r.x_max is None && r.y_min is None && r.y_max is None,
    {
        ModuleSizeContrainte::default()
    }

    /// Serialize this module, stamped with the edit clock.
    pub fn export(&self) -> (r: ModuleContent)
        ensures
            r@.name == "RSS"@,
            r@.type_tag == "RSS"@,
            r@.timestamp == self@.update,
            r@.content == rss_enc(self@.config),
            r@.pos0 == 0 && r@.pos1 == 0 && r@.size0 == 0 && r@.size1 == 0 && r@.depth == 0,
    {
        let mut r = ModuleContent::new(self.typeModule(), self.typeModule());
        r.timestamp = self.update.get();
        r.content = rss_encode(&self.config);
        r
    }

    /// Replace the configuration with a record's content, when it parses;
    /// both clocks take the record's timestamp, so the module is clean
    /// afterwards. A record that does not parse leaves the module
    /// untouched.
    pub fn import(&mut self, import: ModuleContent) -> (r: bool)
        ensures
            match Self::spec_import(old(self)@, import@) {
                Some(m2) => r && final(self)@ == m2,
                None => !r && *final(self) == *old(self),
            },
    {
        match rss_decode(import.content.as_str()) {
            Some(cfg) => {
                self.config = cfg;
                self.update.update_from(import.timestamp);
                self.sended.update_from(import.timestamp);
                true
            },
            None => false,
        }
    }

    /// An RSS module seeded from a stored record, when its content parses.
    pub fn newFromModuleContent(from: &ModuleContent) -> (r: Option<Rss>)
        ensures
            match rss_dec(from@.content) {
                Some(cfg) => r matches Some(m) && m@.config == cfg && m@.update == from@.timestamp
                    && m@.sended == from@.timestamp,
                None => r is None,
            },
    {
        match rss_decode(from.content.as_str()) {
            Some(cfg) => Some(
                Rss {
                    config: cfg,
                    update: Cache::newFrom(from.timestamp),
                    sended: Cache::newFrom(from.timestamp),
                },
            ),
            None => None,
        }
    }
}

} // verus!
