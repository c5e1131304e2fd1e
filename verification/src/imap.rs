//! Mailbox data carried by the mail module: connector settings (the
//! module's persisted configuration), mailbox names and their standard
//! attributes, and the shapes of fetched mail. The IMAP protocol itself
//! is spoken by the application shell.

use vstd::prelude::*;
use crate::codec::dec_digits;
use crate::codec::lemma_dec_digits_short;
use crate::codec::lemma_parse_u64_digits;
use crate::codec::lemma_take_strlist;
use crate::codec::parse_u64_chars;
use crate::codec::push_u64_digits;
use crate::codec::spec_parse_u64;
use crate::codec::spec_strlist;
use crate::codec::strs_views;
use crate::codec::push_strlist;
use crate::codec::take_strlist;
use crate::codec::take_strlist_str;

verus! {

/// Standard attributes a mail server assigns to a mailbox.
#[derive(Debug, Clone, PartialEq, Eq, Structural, Default)]
pub struct Attributs {
    pub is_junk: bool,
    pub is_trash: bool,
    pub is_archive: bool,
    pub is_sent: bool,
    pub is_draft: bool,
}

impl Attributs {
    /// Whether a mailbox with these attributes is skipped when looking
    /// for new mail.
    pub fn is_uninteresting(&self) -> (r: bool)
        ensures
            r == (self.is_junk || self.is_trash || self.is_sent || self.is_draft
                || self.is_archive),
    {
        self.is_junk || self.is_trash || self.is_sent || self.is_draft || self.is_archive
    }
}

/// A mailbox and its attributes.
#[derive(Debug, Clone)]
pub struct BoxName {
    pub name: String,
    pub attributes: Attributs,
}

/// Extra connector settings: mailboxes and flags to ignore.
#[derive(Debug, Clone)]
pub struct imap_connector_extra {
    pub boxBlackList: Vec<String>,
    pub flagBlackList: Vec<String>,
}

/// The model of the extra connector settings.
pub struct ImapConnectorExtraModel {
    pub boxBlackList: Seq<Seq<char>>,
    pub flagBlackList: Seq<Seq<char>>,
}

impl View for imap_connector_extra {
    type V = ImapConnectorExtraModel;

    open spec fn view(&self) -> ImapConnectorExtraModel {
        ImapConnectorExtraModel {
            boxBlackList: strs_views(self.boxBlackList@),
            flagBlackList: strs_views(self.flagBlackList@),
        }
    }
}

/// How to reach a mailbox: host, port, credentials, and optional extras.
#[derive(Debug, Clone)]
pub struct imap_connector {
    pub host: String,
    pub port: u16,
    pub username: String,
    pub password: String,
    pub extra: Option<imap_connector_extra>,
}

/// The model of a connector.
pub struct ImapConnectorModel {
    pub host: Seq<char>,
    pub port: u16,
    pub username: Seq<char>,
    pub password: Seq<char>,
    pub extra: Option<ImapConnectorExtraModel>,
}

impl View for imap_connector {
    type V = ImapConnectorModel;

    open spec fn view(&self) -> ImapConnectorModel {
        ImapConnectorModel {
            host: self.host@,
            port: self.port,
            username: self.username@,
            password: self.password@,
            extra: match self.extra {
                Some(e) => Some(e@),
                None => None,
            },
        }
    }
}

impl Default for imap_connector {
    /// An empty connector on the standard IMAPS port.
    fn default() -> (r: Self)
        ensures
            r@.host.len() == 0 && r@.port == 993u16 && r@.username.len() == 0
                && r@.password.len() == 0 && r@.extra is None,
    {
        imap_connector {
            host: String::new(),
            port: 993,
            username: String::new(),
            password: String::new(),
            extra: None,
        }
    }
}

/// One fetched mail, as shown in the inbox panel.
#[derive(Debug, Clone, Default)]
pub struct ImapMail {
    pub uid: u32,
    pub from: String,
    pub to: String,
    pub subject: Option<String>,
    pub content: Option<String>,
    pub files: Option<Vec<String>>,
    pub date: i64,
    pub boxName: String,
}

/// The decomposed body of one mail.
#[derive(Debug, Clone, Default)]
pub struct MailParts {
    pub text: Option<String>,
    pub html: Option<String>,
    pub attachments: Vec<Attachment>,
    pub inline: Vec<Attachment>,
}

/// One attachment of a mail.
#[derive(Debug, Clone, Default)]
pub struct Attachment {
    pub filename: Option<String>,
    pub content_type: String,
    pub content_id: Option<String>,
    pub data: Vec<u8>,
}

/// What identifies one mail on the server: its uid and its mailbox.
#[derive(Debug, Clone, Default)]
pub struct ImapMailIdentifier {
    pub uid: u32,
    pub boxName: String,
}

impl ImapMailIdentifier {
    /// The identifier of a fetched mail.
    pub fn fromMail(value: &ImapMail) -> (r: Self)
        ensures
            r.uid == value.uid,
            r.boxName@ == value.boxName@,
    {
        ImapMailIdentifier { uid: value.uid, boxName: value.boxName.clone() }
    }
}

/// Errors of the mail subsystem, as surfaced to the user.
#[derive(Debug, Clone, PartialEq, Eq, Structural)]
pub enum ImapError {
    IMAP_SERVER_CONNECTION,
    IMAP_SERVER_CONNECTION_TLS,
    MAIL_NOT_FOUND,
    INVALID_DATE,
    SERVER_ERROR,
}

/// The serialized form of a connector: host, port, credentials, then, if
/// extras are present, the two ignore lists, themselves framed.
pub open spec fn imap_enc(c: ImapConnectorModel) -> Seq<char> {
    match c.extra {
        None => spec_strlist(seq![c.host, dec_digits(c.port as int), c.username, c.password]),
        Some(e) => spec_strlist(
            seq![
                c.host,
                dec_digits(c.port as int),
                c.username,
                c.password,
                spec_strlist(e.boxBlackList),
                spec_strlist(e.flagBlackList),
            ],
        ),
    }
}

/// Read an entry that must be a whole framed list of texts.
pub open spec fn dec_whole_strlist(s: Seq<char>) -> Option<Seq<Seq<char>>> {
    match take_strlist(s) {
        Some(p) => if p.1.len() == 0 {
            Some(p.0)
        } else {
            None
        },
        None => None,
    }
}

/// Read a connector back out of its serialized form.
pub open spec fn imap_dec(s: Seq<char>) -> Option<ImapConnectorModel> {
    match take_strlist(s) {
        Some(p) => if p.1.len() != 0 {
            None
        } else if p.0.len() != 4 && p.0.len() != 6 {
            None
        } else {
            match spec_parse_u64(p.0[1]) {
                Some(v) => if v > u16::MAX as u64 {
                    None
                } else if p.0.len() == 4 {
                    Some(
                        ImapConnectorModel {
                            host: p.0[0],
                            port: v as u16,
                            username: p.0[2],
                            password: p.0[3],
                            extra: None,
                        },
                    )
                } else {
                    match (dec_whole_strlist(p.0[4]), dec_whole_strlist(p.0[5])) {
                        (Some(bb), Some(fb)) => Some(
                            ImapConnectorModel {
                                host: p.0[0],
                                port: v as u16,
                                username: p.0[2],
                                password: p.0[3],
                                extra: Some(
                                    ImapConnectorExtraModel {
                                        boxBlackList: bb,
                                        flagBlackList: fb,
                                    },
                                ),
                            },
                        ),
                        _ => None,
                    }
                },
                None => None,
            }
        },
        None => None,
    }
}

/// Law: a serialized connector reads back to itself.
pub proof fn lemma_imap_round_trip(c: ImapConnectorModel)
    requires
        c.host.len() <= usize::MAX,
        c.username.len() <= usize::MAX,
        c.password.len() <= usize::MAX,
        c.extra matches Some(e) ==> e.boxBlackList.len() <= usize::MAX && e.flagBlackList.len()
            <= usize::MAX && (forall|i: int|
            0 <= i < e.boxBlackList.len() ==> #[trigger] e.boxBlackList[i].len() <= usize::MAX) && (
        forall|i: int|
            0 <= i < e.flagBlackList.len() ==> #[trigger] e.flagBlackList[i].len() <= usize::MAX)
            && spec_strlist(e.boxBlackList).len() <= usize::MAX && spec_strlist(
            e.flagBlackList,
        ).len() <= usize::MAX,
    ensures
        imap_dec(imap_enc(c)) == Some(c),
{
    lemma_dec_digits_short(c.port as int);
    lemma_parse_u64_digits(c.port as u64);
    match c.extra {
        None => {
            let ss = seq![c.host, dec_digits(c.port as int), c.username, c.password];
            assert(forall|i: int| 0 <= i < ss.len() ==> #[trigger] ss[i].len() <= usize::MAX);
            lemma_take_strlist(ss, Seq::<char>::empty());
            assert(spec_strlist(ss) + Seq::<char>::empty() =~= spec_strlist(ss));
        },
        Some(e) => {
            let ss = seq![
                c.host,
                dec_digits(c.port as int),
                c.username,
                c.password,
                spec_strlist(e.boxBlackList),
                spec_strlist(e.flagBlackList),
            ];
            assert(forall|i: int| 0 <= i < ss.len() ==> #[trigger] ss[i].len() <= usize::MAX);
            lemma_take_strlist(ss, Seq::<char>::empty());
            assert(spec_strlist(ss) + Seq::<char>::empty() =~= spec_strlist(ss));
            lemma_take_strlist(e.boxBlackList, Seq::<char>::empty());
            assert(spec_strlist(e.boxBlackList) + Seq::<char>::empty() =~= spec_strlist(
                e.boxBlackList,
            ));
            lemma_take_strlist(e.flagBlackList, Seq::<char>::empty());
            assert(spec_strlist(e.flagBlackList) + Seq::<char>::empty() =~= spec_strlist(
                e.flagBlackList,
            ));
        },
    }
}

/// Serialize a connector.
pub fn imap_encode(c: &imap_connector) -> (r: String)
    ensures
        r@ == imap_enc(c@),
{
    let mut flat: Vec<String> = Vec::new();
    flat.push(c.host.clone());
    let mut digits = String::new();
    push_u64_digits(c.port as u64, &mut digits);
    flat.push(digits);
    flat.push(c.username.clone());
    flat.push(c.password.clone());
    match &c.extra {
        Some(e) => {
            let mut bb = String::new();
            push_strlist(&e.boxBlackList, &mut bb);
            flat.push(bb);
            let mut fb = String::new();
            push_strlist(&e.flagBlackList, &mut fb);
            flat.push(fb);
            let mut out = String::new();
            push_strlist(&flat, &mut out);
            proof {
                assert(strs_views(flat@) =~= seq![
                    c@.host,
                    dec_digits(c.port as int),
                    c@.username,
                    c@.password,
                    spec_strlist(e@.boxBlackList),
                    spec_strlist(e@.flagBlackList),
                ]);
            }
            out
        },
        None => {
            let mut out = String::new();
            push_strlist(&flat, &mut out);
            proof {
                assert(strs_views(flat@) =~= seq![
                    c@.host,
                    dec_digits(c.port as int),
                    c@.username,
                    c@.password,
                ]);
            }
            out
        },
    }
}

/// Read an entry that must be a whole framed list of texts, executably.
fn decode_whole_strlist(s: &String) -> (r: Option<Vec<String>>)
    ensures
        match r {
            Some(v) => dec_whole_strlist(s@) == Some(strs_views(v@)),
            None => dec_whole_strlist(s@) is None,
        },
{
    proof {
        assert(s@.skip(0) =~= s@);
    }
    match take_strlist_str(s.as_str(), 0) {
        Some((v, pos)) => {
            if pos == s.as_str().unicode_len() {
                proof {
                    assert(s@.skip(pos as int).len() == 0);
                }
                Some(v)
            } else {
                proof {
                    assert(s@.skip(pos as int).len() > 0);
                }
                None
            }
        },
        None => None,
    }
}

/// Read a connector back out of its serialized form.
pub fn imap_decode(s: &str) -> (r: Option<imap_connector>)
    ensures
        match r {
            Some(c) => imap_dec(s@) == Some(c@),
            None => imap_dec(s@) is None,
        },
{
    proof {
        assert(s@.skip(0) =~= s@);
    }
    let (flat, pos) = match take_strlist_str(s, 0) {
        Some(p) => p,
        None => {
            return None;
        },
    };
    if pos != s.unicode_len() {
        proof {
            assert(s@.skip(pos as int).len() > 0);
        }
        return None;
    }
    proof {
        assert(s@.skip(pos as int).len() == 0);
    }
    if flat.len() != 4 && flat.len() != 6 {
        return None;
    }
    let v = match parse_u64_chars(flat[1].as_str()) {
        Some(v) => v,
        None => {
            return None;
        },
    };
    if v > u16::MAX as u64 {
        return None;
    }
    if flat.len() == 4 {
        return Some(
            imap_connector {
                host: flat[0].clone(),
                port: v as u16,
                username: flat[2].clone(),
                password: flat[3].clone(),
                extra: None,
            },
        );
    }
    let bb = match decode_whole_strlist(&flat[4]) {
        Some(b) => b,
        None => {
            return None;
        },
    };
    let fb = match decode_whole_strlist(&flat[5]) {
        Some(f) => f,
        None => {
            return None;
        },
    };
    Some(
        imap_connector {
            host: flat[0].clone(),
            port: v as u16,
            username: flat[2].clone(),
            password: flat[3].clone(),
            extra: Some(imap_connector_extra { boxBlackList: bb, flagBlackList: fb }),
        },
    )
}

} // verus!
