//! The weather module: a place (latitude and longitude, kept as decimal
//! text), a day cap, and an optional title. The forecast itself is
//! fetched by the application shell.

use vstd::prelude::*;
use crate::clock::Cache;
use crate::codec::dec_digits;
use crate::codec::lemma_dec_digits_short;
use crate::codec::lemma_parse_u64_digits;
use crate::codec::lemma_take_strlist;
use crate::codec::parse_u64_chars;
use crate::codec::push_u64_digits;
use crate::codec::spec_parse_u64;
use crate::codec::spec_strlist;
use crate::codec::strs_views;
use crate::codec::push_strlist;
use crate::codec::take_strlist;
use crate::codec::take_strlist_str;
use crate::components::ModuleSizeContrainte;
use crate::components::RefreshTime;
use crate::record::ModuleContent;
use crate::record::ModuleRecordModel;

verus! {

/// The model of a weather configuration.
pub struct WeatherConfigModel {
    pub latitude: Seq<char>,
    pub longitude: Seq<char>,
    pub maxday: u8,
    pub title: Seq<char>,
}

/// A weather configuration: coordinates as decimal text, a day cap, and
/// an optional display title.
#[derive(Debug, Clone)]
pub struct WeatherConfig {
    pub latitude: String,
    pub longitude: String,
    pub maxday: u8,
    pub title: String,
}

impl View for WeatherConfig {
    type V = WeatherConfigModel;

    open spec fn view(&self) -> WeatherConfigModel {
        WeatherConfigModel {
            latitude: self.latitude@,
            longitude: self.longitude@,
            maxday: self.maxday,
            title: self.title@,
        }
    }
}

impl Default for WeatherConfig {
    /// The origin, three days, no title.
    fn default() -> (r: Self)
        ensures
            r@.latitude == "0"@ && r@.longitude == "0"@ && r@.maxday == 3u8 && r@.title.len() == 0,
    {
        WeatherConfig {
            latitude: "0".to_owned(),
            longitude: "0".to_owned(),
            maxday: 3,
            title: String::new(),
        }
    }
}

/// The serialized form of a weather configuration.
pub open spec fn weather_enc(c: WeatherConfigModel) -> Seq<char> {
    spec_strlist(seq![c.latitude, c.longitude, dec_digits(c.maxday as int), c.title])
}

/// Read a weather configuration back out of its serialized form.
pub open spec fn weather_dec(s: Seq<char>) -> Option<WeatherConfigModel> {
    match take_strlist(s) {
        Some(p) => if p.1.len() == 0 && p.0.len() == 4 {
            match spec_parse_u64(p.0[2]) {
                Some(v) => if v <= u8::MAX as u64 {
                    Some(
                        WeatherConfigModel {
                            latitude: p.0[0],
                            longitude: p.0[1],
                            maxday: v as u8,
                            title: p.0[3],
                        },
                    )
                } else {
                    None
                },
                None => None,
            }
        } else {
            None
        },
        None => None,
    }
}

/// Law: a serialized weather configuration reads back to itself.
pub proof fn lemma_weather_round_trip(c: WeatherConfigModel)
    requires
        c.latitude.len() <= usize::MAX,
        c.longitude.len() <= usize::MAX,
        c.title.len() <= usize::MAX,
    ensures
        weather_dec(weather_enc(c)) == Some(c),
{
    let ss = seq![c.latitude, c.longitude, dec_digits(c.maxday as int), c.title];
    lemma_dec_digits_short(c.maxday as int);
    assert(forall|i: int| 0 <= i < ss.len() ==> #[trigger] ss[i].len() <= usize::MAX);
    lemma_take_strlist(ss, Seq::<char>::empty());
    assert(spec_strlist(ss) + Seq::<char>::empty() =~= spec_strlist(ss));
    lemma_parse_u64_digits(c.maxday as u64);
}

/// Serialize a weather configuration.
pub fn weather_encode(c: &WeatherConfig) -> (r: String)
    ensures
        r@ == weather_enc(c@),
{
    let mut flat: Vec<String> = Vec::new();
    flat.push(c.latitude.clone());
    flat.push(c.longitude.clone());
    let mut digits = String::new();
    push_u64_digits(c.maxday as u64, &mut digits);
    flat.push(digits);
    flat.push(c.title.clone());
    let mut out = String::new();
    push_strlist(&flat, &mut out);
    proof {
        assert(strs_views(flat@) =~= seq![
            c@.latitude,
            c@.longitude,
            dec_digits(c.maxday as int),
            c@.title,
        ]);
    }
    out
}

/// Read a weather configuration back out of its serialized form.
pub fn weather_decode(s: &str) -> (r: Option<WeatherConfig>)
    ensures
        match r {
            Some(c) => weather_dec(s@) == Some(c@),
            None => weather_dec(s@) is None,
        },
{
    proof {
        assert(s@.skip(0) =~= s@);
    }
    let (flat, pos) = match take_strlist_str(s, 0) {
        Some(p) => p,
        None => {
            return None;
        },
    };
    if pos != s.unicode_len() {
        proof {
            assert(s@.skip(pos as int).len() > 0);
        }
        return None;
    }
    proof {
        assert(s@.skip(pos as int).len() == 0);
    }
    if flat.len() != 4 {
        return None;
    }
    let v = match parse_u64_chars(flat[2].as_str()) {
        Some(v) => v,
        None => {
            return None;
        },
    };
    if v > u8::MAX as u64 {
        return None;
    }
    Some(
        WeatherConfig {
            latitude: flat[0].clone(),
            longitude: flat[1].clone(),
            maxday: v as u8,
            title: flat[3].clone(),
        },
    )
}

/// The model of the weather module: its configuration and its two clocks.
pub struct WeatherModel {
    pub config: WeatherConfigModel,
    pub update: int,
    pub sended: int,
}

/// The weather module itself.
#[derive(Debug)]
pub struct Weather {
    config: WeatherConfig,
    update: Cache,
    sended: Cache,
}

impl View for Weather {
    type V = WeatherModel;

    closed spec fn view(&self) -> WeatherModel {
        WeatherModel {
            config: self.config@,
            update: self.update.timestamp(),
            sended: self.sended.timestamp(),
        }
    }
}

impl Weather {
    /// The module state a record imports to, when its content parses.
    pub open spec fn spec_import(m: WeatherModel, rec: ModuleRecordModel) -> Option<WeatherModel> {
        match weather_dec(rec.content) {
            Some(cfg) => Some(
                WeatherModel { config: cfg, update: rec.timestamp, sended: rec.timestamp },
            ),
            None => None,
        }
    }

    /// Whether local edits have outrun the last acknowledged send.
    pub open spec fn spec_must_sync(self) -> bool {
        self@.update > self@.sended
    }

    /// A fresh weather module with the default configuration.
    pub fn new() -> (r: Self)
        ensures
            r@.config.latitude == "0"@ && r@.config.longitude == "0"@,
            r@.config.maxday == 3u8,
            r@.config.title.len() == 0,
            r@.update == r@.sended,
    {
        let c = Cache::default();
        Weather { config: WeatherConfig::default(), update: c, sended: c }
    }

    /// The configuration.
    pub fn config(&self) -> (r: &WeatherConfig)
        ensures
            r@ == self@.config,
    {
        &self.config
    }

    /// Replace the configuration wholesale; the module becomes dirty.
    pub fn set_config(&mut self, config: WeatherConfig)
        requires
            old(self)@.update < i64::MAX,
        ensures
            final(self)@.config == config@,
            final(self)@.update > old(self)@.update,
            final(self)@.sended == old(self)@.sended,
    {
        self.config = config;
        self.update.update();
    }

    /// Record a local edit made outside the configuration (layout drag):
    /// the edit clock advances, so the module becomes dirty.
    pub fn cache_touch(&mut self)
        requires
            old(self)@.update < i64::MAX,
        ensures
            final(self)@.update > old(self)@.update,
            final(self)@.sended == old(self)@.sended,
            final(self)@.config == old(self)@.config,
    {
        self.update.update();
    }

    pub fn cache_mustUpdate(&self) -> (r: bool)
        ensures
            r == self.spec_must_sync(),
    {
        self.update.isNewer(&self.sended)
    }

    pub fn cache_getUpdate(&self) -> (r: Cache)
        ensures
            r.timestamp() == self@.update,
    {
        self.update
    }

    pub fn cache_getSended(&self) -> (r: Cache)
        ensures
            r.timestamp() == self@.sended,
    {
        self.sended
    }

    /// Record that a push of the record stamped `t` was acknowledged.
    pub fn cache_setSended(&mut self, t: i64)
        ensures
            final(self)@.sended == t as int,
            final(self)@.update == old(self)@.update,
            final(self)@.config == old(self)@.config,
    {
        self.sended.update_from(t);
    }

    pub fn typeModule(&self) -> (r: String)
        ensures
            r@ == "WEATHER"@,
    {
        "WEATHER".to_owned()
    }

    pub fn refresh_time(&self) -> (r: RefreshTime)
        ensures
            r == RefreshTime::HOURS(1u8),
    {
        RefreshTime::HOURS(1)
    }

    /// A weather panel needs room: taller still when it carries a title.
    pub fn size(&self) -> (r: ModuleSizeContrainte)
        ensures
            r.x_min == Some(150u32) && r.x_max is None && r.y_max is None,
            self@.config.title.len() == 0 ==> r.y_min == Some(175u32),
            self@.config.title.len() > 0 ==> r.y_min == Some(210u32),
    {
        let minsize: u32 = if self.config.title.as_str().unicode_len() == 0 {
            175
        } else {
            210
        };
        ModuleSizeContrainte { x_min: Some(150), x_max: None, y_min: Some(minsize), y_max: None }
    }

    /// Serialize this module, stamped with the edit clock.
    pub fn export(&self) -> (r: ModuleContent)
        ensures
            r@.name == "WEATHER"@,
            r@.type_tag == "WEATHER"@,
            r@.timestamp == self@.update,
            r@.content == weather_enc(self@.config),
            r@.pos0 == 0 && r@.pos1 == 0 && r@.size0 == 0 && r@.size1 == 0 && r@.depth == 0,
    {
        let mut r = ModuleContent::new(self.typeModule(), self.typeModule());
        r.timestamp = self.update.get();
        r.content = weather_encode(&self.config);
        r
    }

    /// Replace the configuration with a record's content, when it parses;
    /// both clocks take the record's timestamp, so the module is clean
    /// afterwards. A record that does not parse leaves the module
    /// untouched.
    pub fn import(&mut self, import: ModuleContent) -> (r: bool)
        ensures
            match Self::spec_import(old(self)@, import@) {
                Some(m2) => r && final(self)@ == m2,
                None => !r && *final(self) == *old(self),
            },
    {
        match weather_decode(import.content.as_str()) {
            Some(cfg) => {
                self.config = cfg;
                self.update.update_from(import.timestamp);
                self.sended.update_from(import.timestamp);
                true
            },
            None => false,
        }
    }

    /// A weather module seeded from a stored record, when its content
    /// parses.
    pub fn newFromModuleContent(from: &ModuleContent) -> (r: Option<Weather>)
        ensures
            match weather_dec(from@.content) {
                Some(cfg) => r matches Some(m) && m@.config == cfg && m@.update == from@.timestamp
                    && m@.sended == from@.timestamp,
                None => r is None,
            },
    {
        match weather_decode(from.content.as_str()) {
            Some(cfg) => Some(
                Weather {
                    config: cfg,
                    update: Cache::newFrom(from.timestamp),
                    sended: Cache::newFrom(from.timestamp),
                },
            ),
            None => None,
        }
    }
}

} // verus!
