//! The mail module: an inbox panel configured by an IMAP connector. The
//! mailbox itself is read by the application shell; this module owns the
//! connector and its synchronization state.

use vstd::prelude::*;
use crate::clock::Cache;
use crate::components::ModuleSizeContrainte;
use crate::components::RefreshTime;
use crate::imap::imap_connector;
use crate::imap::imap_decode;
use crate::imap::imap_enc;
use crate::imap::imap_encode;
use crate::imap::imap_dec;
use crate::imap::ImapConnectorModel;
use crate::record::ModuleContent;
use crate::record::ModuleRecordModel;

verus! {

/// The model of the mail module: its connector and its two clocks.
pub struct MailModel {
    pub config: ImapConnectorModel,
    pub update: int,
    pub sended: int,
}

/// The mail module itself.
#[derive(Debug)]
pub struct Mail {
    config: imap_connector,
    update: Cache,
    sended: Cache,
}

impl View for Mail {
    type V = MailModel;

    closed spec fn view(&self) -> MailModel {
        MailModel {
            config: self.config@,
            update: self.update.timestamp(),
            sended: self.sended.timestamp(),
        }
    }
}

impl Mail {
    /// The module state a record imports to, when its content parses.
    pub open spec fn spec_import(m: MailModel, rec: ModuleRecordModel) -> Option<MailModel> {
        match imap_dec(rec.content) {
            Some(cfg) => Some(
                MailModel { config: cfg, update: rec.timestamp, sended: rec.timestamp },
            ),
            None => None,
        }
    }

    /// Whether local edits have outrun the last acknowledged send.
    pub open spec fn spec_must_sync(self) -> bool {
        self@.update > self@.sended
    }

    /// A fresh mail module with the default connector.
    pub fn new() -> (r: Self)
        ensures
            r@.config.host.len() == 0 && r@.config.port == 993u16 && r@.config.extra is None,
            r@.config.username.len() == 0 && r@.config.password.len() == 0,
            r@.update == r@.sended,
    {
        let c = Cache::default();
        Mail { config: imap_connector::default(), update: c, sended: c }
    }

    /// The connector.
    pub fn config(&self) -> (r: &imap_connector)
        ensures
            r@ == self@.config,
    {
        &self.config
    }

    /// Replace the connector wholesale; the module becomes dirty.
    pub fn set_config(&mut self, config: imap_connector)
        requires
            old(self)@.update < i64::MAX,
        ensures
            final(self)@.config == config@,
            final(self)@.update > old(self)@.update,
            final(self)@.sended == old(self)@.sended,
    {
        self.config = config;
        self.update.update();
    }

    /// Record a local edit made outside the configuration (layout drag):
    /// the edit clock advances, so the module becomes dirty.
    pub fn cache_touch(&mut self)
        requires
            old(self)@.update < i64::MAX,
        ensures
            final(self)@.update > old(self)@.update,
            final(self)@.sended == old(self)@.sended,
            final(self)@.config == old(self)@.config,
    {
        self.update.update();
    }

    pub fn cache_mustUpdate(&self) -> (r: bool)
        ensures
            r == self.spec_must_sync(),
    {
        self.update.isNewer(&self.sended)
    }

    pub fn cache_getUpdate(&self) -> (r: Cache)
        ensures
            r.timestamp() == self@.update,
    {
        self.update
    }

    pub fn cache_getSended(&self) -> (r: Cache)
        ensures
            r.timestamp() == self@.sended,
    {
        self.sended
    }

    /// Record that a push of the record stamped `t` was acknowledged.
    pub fn cache_setSended(&mut self, t: i64)
        ensures
            final(self)@.sended == t as int,
            final(self)@.update == old(self)@.update,
            final(self)@.config == old(self)@.config,
    {
        self.sended.update_from(t);
    }

    pub fn typeModule(&self) -> (r: String)
        ensures
            r@ == "MAIL"@,
    {
        "MAIL".to_owned()
    }

    pub fn refresh_time(&self) -> (r: RefreshTime)
        ensures
            r == RefreshTime::HOURS(1u8),
    {
        RefreshTime::HOURS(1)
    }

    pub fn size(&self) -> (r: ModuleSizeContrainte)
        ensures
            r.x_min is None && r.x_max is None && r.y_min is None && r.y_max is None,
    {
        ModuleSizeContrainte::default()
    }

    /// Serialize this module, stamped with the edit clock.
    pub fn export(&self) -> (r: ModuleContent)
        ensures
            r@.name == "MAIL"@,
            r@.type_tag == "MAIL"@,
            r@.timestamp == self@.update,
            r@.content == imap_enc(self@.config),
            r@.pos0 == 0 && r@.pos1 == 0 && r@.size0 == 0 && r@.size1 == 0 && r@.depth == 0,
    {
        let mut r = ModuleContent::new(self.typeModule(), self.typeModule());
        r.timestamp = self.update.get();
        r.content = imap_encode(&self.config);
        r
    }

    /// Replace the connector with a record's content, when it parses;
    /// both clocks take the record's timestamp, so the module is clean
    /// afterwards. A record that does not parse leaves the module
    /// untouched.
    pub fn import(&mut self, import: ModuleContent) -> (r: bool)
        ensures
            match Self::spec_import(old(self)@, import@) {
                Some(m2) => r && final(self)@ == m2,
                None => !r && *final(self) == *old(self),
            },
    {
        match imap_decode(import.content.as_str()) {
            Some(cfg) => {
                self.config = cfg;
                self.update.update_from(import.timestamp);
                self.sended.update_from(import.timestamp);
                true
            },
            None => false,
        }
    }

    /// A mail module seeded from a stored record, when its content parses.
    pub fn newFromModuleContent(from: &ModuleContent) -> (r: Option<Mail>)
        ensures
            match imap_dec(from@.content) {
                Some(cfg) => r matches Some(m) && m@.config == cfg && m@.update == from@.timestamp
                    && m@.sended == from@.timestamp,
                None => r is None,
            },
    {
        match imap_decode(from.content.as_str()) {
            Some(cfg) => Some(
                Mail {
                    config: cfg,
                    update: Cache::newFrom(from.timestamp),
                    sended: Cache::newFrom(from.timestamp),
                },
            ),
            None => None,
        }
    }
}

} // verus!
