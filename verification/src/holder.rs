//! The synchronization engine: the full set of positioned modules of one
//! session, keyed by instance name, with the push/pull/discovery protocol
//! and the per-module refresh schedule.
//!
//! A multi-module pass stops at the first module that errors, leaving the
//! modules already processed in their new state: partial commit is the
//! specified behavior, not an accident.

use vstd::prelude::*;
use crate::codec::dec_digits;
use crate::codec::digits_prefix_len;
use crate::codec::is_digit;
use crate::codec::is_digit_exec;
use crate::codec::lemma_dec_digits;
use crate::codec::lemma_dec_digits_short;
use crate::codec::lemma_digits_prefix;
use crate::codec::lemma_digits_prefix_ge;
use crate::codec::lemma_val_of_digits_bound;
use crate::codec::lemma_pow10_mono;
use crate::codec::lemma_pow10_30;
use crate::codec::pow10;
use crate::codec::push_usize_digits;
use crate::codec::val_of_digits;
use crate::components::RefreshTime;
use crate::front_enum::AllFrontErrorEnum;
use crate::links::LinksHolder;
use crate::links::LinksHolderModel;
use crate::links::links_enc;
use crate::links::links_dec;
use crate::store::spec_name_in;
use crate::module_positions::ModulePositions;
use crate::module_positions::ModulePositionsModel;
use crate::module_type::ModuleType;
use crate::record::ModuleContent;
use crate::store::ModuleStore;
use crate::user_data::UserData;

verus! {

/// The handle of one module's repeating refresh timer: its period in
/// milliseconds and whether it is paused. The application shell drives a
/// real timer from this state.
#[derive(Debug, Clone, Copy, PartialEq, Eq, Structural)]
pub struct PausableStocker {
    pub interval: u64,
    pub paused: bool,
}

/// The numeric prefix of a module name of the form `{ordinal}_{tag}`:
/// its ordinal, or nothing when the name does not carry one.
pub open spec fn name_ordinal(s: Seq<char>) -> Option<int> {
    let k = digits_prefix_len(s);
    if k == 0 || k > 30 {
        None
    } else if k < s.len() && s[k] != '_' {
        None
    } else if val_of_digits(s.take(k)) > usize::MAX as int {
        None
    } else {
        Some(val_of_digits(s.take(k)))
    }
}

/// The generated name of the module with ordinal `n` and type tag `tag`.
pub open spec fn gen_name(n: int, tag: Seq<char>) -> Seq<char> {
    dec_digits(n) + seq!['_'] + tag
}

/// Law: a generated name carries its ordinal.
pub proof fn lemma_gen_name_ordinal(n: int, tag: Seq<char>)
    requires
        0 <= n <= usize::MAX,
    ensures
        name_ordinal(gen_name(n, tag)) == Some(n),
{
    let d = dec_digits(n);
    lemma_dec_digits(n);
    lemma_dec_digits_short(n);
    let s = gen_name(n, tag);
    assert(forall|i: int| 0 <= i < d.len() ==> s[i] == #[trigger] d[i]);
    assert(s[d.len() as int] == '_');
    assert(!is_digit('_'));
    lemma_digits_prefix(s, d.len() as int);
    assert(s.take(d.len() as int) =~= d);
}

/// Law: a name generated at the next ordinal collides with no name whose
/// ordinal is smaller, nor with a name carrying none.
pub proof fn lemma_fresh_name_unique(keys: Seq<Seq<char>>, bn: int, tag: Seq<char>)
    requires
        0 <= bn <= usize::MAX,
        forall|i: int|
            0 <= i < keys.len() ==> (name_ordinal(#[trigger] keys[i]) matches Some(p) ==> p < bn),
    ensures
        forall|i: int| 0 <= i < keys.len() ==> keys[i] != gen_name(bn, tag),
{
    lemma_gen_name_ordinal(bn, tag);
    assert forall|i: int| 0 <= i < keys.len() implies keys[i] != gen_name(bn, tag) by {
        if keys[i] == gen_name(bn, tag) {
            assert(name_ordinal(keys[i]) == Some(bn));
        }
    }
}

/// The fixed links name carries no ordinal: it starts with no digit.
pub proof fn lemma_links_no_ordinal()
    ensures
        name_ordinal("links"@) is None,
{
    reveal_strlit("links");
    assert("links"@.len() == 5);
    assert("links"@[0] == 'l');
    assert(!is_digit('l'));
    lemma_digits_prefix("links"@, 0);
}

/// Read the ordinal out of a module name, executably.
pub fn parse_ordinal(name: &str) -> (r: Option<usize>)
    ensures
        match r {
            Some(p) => name_ordinal(name@) == Some(p as int),
            None => name_ordinal(name@) is None,
        },
{
    let n = name.unicode_len();
    let mut i: usize = 0;
    let mut acc: u128 = 0;
    loop
        invariant
            0 <= i <= n,
            n as int == name@.len(),
            forall|j: int| 0 <= j < i as int ==> is_digit(name@[j]),
            acc as int == val_of_digits(name@.subrange(0, i as int)),
            i <= 30,
        ensures
            0 <= i <= n,
            forall|j: int| 0 <= j < i as int ==> is_digit(name@[j]),
            acc as int == val_of_digits(name@.subrange(0, i as int)),
            i <= 30,
            i as int == name@.len() || !is_digit(name@[i as int]),
        decreases n - i,
    {
        if i == n {
            break ;
        }
        let c = name.get_char(i);
        if !is_digit_exec(c) {
            break ;
        }
        if i == 30 {
            proof {
                lemma_digits_prefix_ge(name@, 31);
            }
            return None;
        }
        let d = (c as u32 - 48) as u128;
        proof {
            let pre = name@.subrange(0, i as int);
            let cur = name@.subrange(0, i as int + 1);
            assert(cur.drop_last() =~= pre);
            assert(cur.last() == name@[i as int]);
            assert(forall|j: int| 0 <= j < pre.len() ==> is_digit(#[trigger] pre[j]));
            lemma_val_of_digits_bound(pre);
            lemma_pow10_30();
            lemma_pow10_mono(pre.len(), 30);
            assert((acc as int) * 10 + crate::codec::digit_val(name@[i as int]) < pow10(30) * 10)
                by (nonlinear_arith)
                requires
                    (acc as int) < pow10(30) && 0 <= crate::codec::digit_val(name@[i as int]) < 10,
            ;
        }
        acc = acc * 10 + d;
        i = i + 1;
    }
    proof {
        lemma_digits_prefix(name@, i as int);
        assert(name@.take(i as int) =~= name@.subrange(0, i as int));
    }
    if i == 0 {
        return None;
    }
    if acc > usize::MAX as u128 {
        return None;
    }
    if i < n {
        let c = name.get_char(i);
        if c != '_' {
            return None;
        }
    }
    Some(acc as usize)
}

/// Write the generated name `{ordinal}_{tag}`.
pub fn make_name(n: usize, tag: &str) -> (r: String)
    ensures
        r@ == gen_name(n as int, tag@),
{
    let mut out = String::new();
    push_usize_digits(n, &mut out);
    out.append("_");
    out.append(tag);
    proof {
        reveal_strlit("_");
        assert("_"@ =~= seq!['_']);
        assert(dec_digits(n as int) + "_"@ + tag@ =~= gen_name(n as int, tag@));
    }
    out
}


/// Two block tables carry the same keys in the same order.
pub open spec fn same_keys(a: Seq<(String, ModulePositions)>, b: Seq<(String, ModulePositions)>) -> bool {
    a.len() == b.len() && forall|i: int| 0 <= i < a.len() ==> a[i].0@ == #[trigger] b[i].0@
}

/// Two positioned modules agree on everything but the send clock.
pub open spec fn same_payload(a: ModulePositionsModel, b: ModulePositionsModel) -> bool {
    a.module.update_clock() == b.module.update_clock() && a.module.enc() == b.module.enc()
        && a.module.tag() == b.module.tag() && a.pos0 == b.pos0 && a.pos1 == b.pos1 && a.size0
        == b.size0 && a.size1 == b.size1
}

/// Two block tables agree entry-wise on everything but send clocks.
pub open spec fn same_payloads(a: Seq<(String, ModulePositions)>, b: Seq<(String, ModulePositions)>) -> bool {
    a.len() == b.len() && forall|i: int| 0 <= i < a.len() ==> same_payload(a[i].1@, #[trigger] b[i].1@)
}

/// What a commit pass that stopped leaves behind: the first `k` blocks
/// pushed clean, and everything from `k` on — module state and stored
/// record alike — untouched.
pub open spec fn validate_stopped_at(bs0: Seq<(String, ModulePositions)>, bs1: Seq<(String, ModulePositions)>, st0: ModuleStore, st1: ModuleStore, k: int) -> bool {
    &&& (forall|j: int| 0 <= j < k ==> !(#[trigger] bs1[j].1@).module.must_sync())
    &&& (forall|j: int| k <= j < bs0.len() ==> #[trigger] bs1[j].1@ == bs0[j].1@)
    &&& (forall|j: int|
        k <= j < bs0.len() ==> ((st1.spec_contains(#[trigger] bs0[j].0@) <==> st0.spec_contains(
            bs0[j].0@,
        )) && (st0.spec_contains(bs0[j].0@) ==> st1.spec_get(bs0[j].0@) == st0.spec_get(
            bs0[j].0@,
        ))))
}

/// Push a record to the store as it stands: the plaintext path used for
/// the links module.
fn push_plain(store: &mut ModuleStore, record: &ModuleContent) -> (r: Option<AllFrontErrorEnum>)
    requires
        old(store).wf(),
    ensures
        final(store).wf(),
        forall|n: Seq<char>|
            n != record@.name ==> (final(store).spec_contains(n) <==> old(store).spec_contains(n)),
        forall|n: Seq<char>|
            n != record@.name && old(store).spec_contains(n) ==> final(store).spec_get(n) == old(store).spec_get(n),
        r matches Some(e) ==> (*final(store) == *old(store) && e is MODULE_OUTDATED && old(store).spec_contains(record@.name) && old(store).spec_get(record@.name).timestamp >= record@.timestamp),
        r is None ==> (old(store).spec_contains(record@.name) ==> old(store).spec_get(record@.name).timestamp < record@.timestamp),
        r is None ==> final(store).spec_contains(record@.name) && final(store).spec_get(record@.name) == record@,
{
    match store.update(record) {
        crate::record::ModuleReturnUpdate::OK => None,
        crate::record::ModuleReturnUpdate::OUTDATED => Some(AllFrontErrorEnum::MODULE_OUTDATED),
    }
}

/// Encrypt a record's content under the session secret and push it: the
/// path every block takes. The stored content decrypts back to the
/// record's plaintext under the same secret.
fn push_encrypted(store: &mut ModuleStore, user: &UserData, record: ModuleContent) -> (r: Option<AllFrontErrorEnum>)
    requires
        old(store).wf(),
    ensures
        final(store).wf(),
        forall|n: Seq<char>|
            n != record@.name ==> (final(store).spec_contains(n) <==> old(store).spec_contains(n)),
        forall|n: Seq<char>|
            n != record@.name && old(store).spec_contains(n) ==> final(store).spec_get(n) == old(store).spec_get(n),
        r matches Some(e) ==> *final(store) == *old(store),
        r matches Some(e) ==> (e is SERVER_ERROR || (e is MODULE_OUTDATED && old(store).spec_contains(record@.name) && old(store).spec_get(record@.name).timestamp >= record@.timestamp)),
        user@.userSalt is None ==> (r matches Some(e) && e is SERVER_ERROR),
        r is None ==> (old(store).spec_contains(record@.name) ==> old(store).spec_get(record@.name).timestamp < record@.timestamp),
        r is None ==> ({
            &&& final(store).spec_contains(record@.name)
            &&& final(store).spec_get(record@.name).timestamp == record@.timestamp
            &&& final(store).spec_get(record@.name).type_tag == record@.type_tag
            &&& final(store).spec_get(record@.name).pos0 == record@.pos0
            &&& final(store).spec_get(record@.name).pos1 == record@.pos1
            &&& final(store).spec_get(record@.name).size0 == record@.size0
            &&& final(store).spec_get(record@.name).size1 == record@.size1
            &&& user@.userSalt matches Some(p) && crate::user_data::spec_decrypt(p, final(store).spec_get(record@.name).content) == Some(record@.content)
        }),
{
    let env = match user.crypt_with_password(&record.content) {
        Some(env) => env,
        None => {
            return Some(AllFrontErrorEnum::SERVER_ERROR("payload encryption failed".to_owned()));
        },
    };
    let mut rec = record;
    rec.content = crate::user_data::env_encode(&env);
    proof {
        crate::user_data::lemma_env_round_trip(env@);
    }
    match store.update(&rec) {
        crate::record::ModuleReturnUpdate::OK => None,
        crate::record::ModuleReturnUpdate::OUTDATED => Some(AllFrontErrorEnum::MODULE_OUTDATED),
    }
}


/// The timer period, in milliseconds, of a refresh cadence.
pub open spec fn spec_interval_ms(rt: RefreshTime) -> u64 {
    match rt {
        RefreshTime::NONE => 0u64,
        RefreshTime::MINUTES(m) => (m * 60 * 1000) as u64,
        RefreshTime::HOURS(hh) => (hh * 60 * 60 * 1000) as u64,
    }
}


/// A stored record with its content replaced by its decrypted text.
pub open spec fn pulled_record(srec: crate::record::ModuleRecordModel, pt: Seq<char>) -> crate::record::ModuleRecordModel {
    crate::record::ModuleRecordModel { content: pt, ..srec }
}

/// The state a block reaches when a stored record (already decrypted to
/// `pt`) is imported into it.
pub open spec fn pulled_block(m0: ModulePositionsModel, srec: crate::record::ModuleRecordModel, pt: Seq<char>) -> ModulePositionsModel {
    ModulePositionsModel {
        pos0: srec.pos0,
        pos1: srec.pos1,
        size0: srec.size0,
        size1: srec.size1,
        module: match m0.module.spec_import(pulled_record(srec, pt)) {
            Some(mm) => mm,
            None => m0.module,
        },
    }
}

/// What a refresh pass leaves of one block: untouched when neither
/// forced nor dirty; otherwise its record is stored, and the block is
/// either unchanged (only a run-time failure of the key derivation or
/// cipher can cause that) or the pulled state — forced to the pulled
/// state whenever the opening is certain to succeed.
pub open spec fn reloaded_block(st: ModuleStore, secret: Option<Seq<char>>, key: Seq<char>, m0: ModulePositionsModel, m1: ModulePositionsModel, force: bool) -> bool {
    &&& (!(force || m0.module.must_sync()) ==> m1 == m0)
    &&& ((force || m0.module.must_sync()) ==> st.spec_contains(key) && ({
        let srec = st.spec_get(key);
        &&& (m1 == m0 || ((secret matches Some(p) && exists|pt: Seq<char>|
            crate::user_data::spec_decrypt(p, srec.content) == Some(pt) && m1 == pulled_block(
                m0,
                srec,
                pt,
            ))))
        &&& ((secret matches Some(p) && crate::user_data::decrypt_guaranteed(p, srec.content))
            ==> m1 == pulled_block(
            m0,
            srec,
            crate::user_data::spec_decrypt(secret->0, srec.content).unwrap(),
        ))
    }))
}

/// Whether discovery is certain to install a stored record: its name's
/// numeric prefix (if any) can be advanced past, its content surely
/// decrypts, and the decrypted record constructs a module of its tag.
pub open spec fn discovery_applies(st: ModuleStore, secret: Seq<char>, nm: Seq<char>) -> bool {
    &&& st.spec_contains(nm)
    &&& (name_ordinal(nm) matches Some(q) ==> q < usize::MAX)
    &&& crate::user_data::decrypt_guaranteed(secret, st.spec_get(nm).content)
    &&& crate::module_type::ModuleTypeModel::spec_new_from(
        pulled_record(
            st.spec_get(nm),
            crate::user_data::spec_decrypt(secret, st.spec_get(nm).content).unwrap(),
        ),
    ) is Some
}

/// The block discovery installs for a stored record: the record's layout
/// around the module its decrypted content constructs.
pub open spec fn discovered_block(st: ModuleStore, secret: Seq<char>, nm: Seq<char>) -> ModulePositionsModel {
    let srec = st.spec_get(nm);
    let pt = crate::user_data::spec_decrypt(secret, srec.content).unwrap();
    ModulePositionsModel {
        pos0: srec.pos0,
        pos1: srec.pos1,
        size0: srec.size0,
        size1: srec.size1,
        module: crate::module_type::ModuleTypeModel::spec_new_from(
            pulled_record(srec, pt),
        ).unwrap(),
    }
}


/// Where a block key of a discovery pass may come from: the keys known
/// before the pass, or one of the first `d` discovered names.
pub open spec fn key_from(bpre: Seq<(String, ModulePositions)>, found: Seq<String>, d: int, key: Seq<char>) -> bool {
    (exists|j: int| 0 <= j < bpre.len() && key == #[trigger] bpre[j].0@) || (exists|j: int|
        0 <= j < d && key == #[trigger] found[j]@)
}

/// The synchronization engine of one session.
pub struct ModuleHolder {
    links: LinksHolder,
    blocks: Vec<(String, ModulePositions)>,
    crons: Vec<(String, PausableStocker)>,
    blockNb: usize,
}

impl ModuleHolder {
    /// The blocks, as key-module pairs.
    pub closed spec fn blocks_seq(self) -> Seq<(String, ModulePositions)> {
        self.blocks@
    }

    /// The links module of this session.
    pub closed spec fn links_model(self) -> LinksHolderModel {
        self.links@
    }

    /// The next ordinal to be used for a generated name.
    pub closed spec fn block_nb(self) -> int {
        self.blockNb as int
    }

    /// Whether a block is registered under `name`.
    pub open spec fn blocks_contains(self, name: Seq<char>) -> bool {
        exists|j: int| 0 <= j < self.blocks_seq().len() && self.blocks_seq()[j].0@ == name
    }

    /// The block registered under `name` (meaningful only when present).
    pub open spec fn blocks_model(self, name: Seq<char>) -> ModulePositionsModel {
        let j = choose|j: int| 0 <= j < self.blocks_seq().len() && self.blocks_seq()[j].0@ == name;
        self.blocks_seq()[j].1@
    }

    /// Well-formed: block names are unique, and every numeric prefix of a
    /// block name lies below the next ordinal, so a generated name is
    /// always fresh.
    pub open spec fn wf(self) -> bool {
        (forall|i: int, j: int|
            0 <= i < j < self.blocks_seq().len() ==> self.blocks_seq()[i].0@
                != self.blocks_seq()[j].0@) && (forall|i: int|
            0 <= i < self.blocks_seq().len() ==> (name_ordinal(
                #[trigger] self.blocks_seq()[i].0@,
            ) matches Some(p) ==> p < self.block_nb())) && self.block_nb() <= usize::MAX && (
        forall|i: int, j: int|
            0 <= i < j < self.crons_seq().len() ==> self.crons_seq()[i].0@
                != self.crons_seq()[j].0@) && (forall|i: int|
            0 <= i < self.blocks_seq().len() ==> #[trigger] self.blocks_seq()[i].0@ != "links"@)
    }

    /// Whether a refresh timer is registered under `name`.
    pub open spec fn crons_contains(self, name: Seq<char>) -> bool {
        exists|j: int| 0 <= j < self.crons_seq().len() && self.crons_seq()[j].0@ == name
    }

    /// The timer registered under `name` (meaningful only when present).
    pub open spec fn crons_model(self, name: Seq<char>) -> PausableStocker {
        let j = choose|j: int| 0 <= j < self.crons_seq().len() && self.crons_seq()[j].0@ == name;
        self.crons_seq()[j].1
    }

    /// The timers, as key-handle pairs.
    pub closed spec fn crons_seq(self) -> Seq<(String, PausableStocker)> {
        self.crons@
    }

    /// An empty session: no blocks, a fresh links module, ordinal zero.
    pub fn new() -> (r: Self)
        ensures
            r.wf(),
            r.blocks_seq().len() == 0,
            r.crons_seq().len() == 0,
            r.block_nb() == 0,
            r.links_model().links.len() == 0,
            r.links_model().update == r.links_model().sended,
    {
        ModuleHolder {
            links: LinksHolder::new(),
            blocks: Vec::new(),
            crons: Vec::new(),
            blockNb: 0,
        }
    }

    /// Tear the session down to its empty state; registered timers are
    /// kept, paused or not, so a module seen again reuses its timer.
    pub fn reset(&mut self)
        requires
            old(self).wf(),
        ensures
            final(self).wf(),
            final(self).blocks_seq().len() == 0,
            final(self).block_nb() == 0,
            final(self).links_model().links.len() == 0,
            final(self).links_model().update == final(self).links_model().sended,
            final(self).crons_seq() == old(self).crons_seq(),
    {
        self.blocks = Vec::new();
        self.links = LinksHolder::new();
        self.blockNb = 0;
        proof {
            assert forall|i: int, j: int|
                0 <= i < j < final(self).crons_seq().len() implies final(self).crons_seq()[i].0@
                != final(self).crons_seq()[j].0@ by {
                assert(old(self).crons_seq()[i].0@ != old(self).crons_seq()[j].0@);
            }
        }
    }

    /// The links module.
    pub fn links_get(&self) -> (r: &LinksHolder)
        ensures
            r@ == self.links_model(),
    {
        &self.links
    }

    /// The links module, for editing.
    pub fn links_get_mut(&mut self) -> (r: &mut LinksHolder)
        ensures
            (*r)@ == old(self).links_model(),
            final(self).links_model() == (*final(r))@,
            final(self).blocks_seq() == old(self).blocks_seq(),
            final(self).crons_seq() == old(self).crons_seq(),
            final(self).block_nb() == old(self).block_nb(),
    {
        &mut self.links
    }

    /// The ordinal the next created block will carry.
    pub fn nextOrdinal(&self) -> (r: usize)
        ensures
            r as int == self.block_nb(),
    {
        self.blockNb
    }

    /// The blocks, in registration order.
    pub fn blocks_get(&self) -> (r: &Vec<(String, ModulePositions)>)
        ensures
            r@ == self.blocks_seq(),
    {
        &self.blocks
    }

    /// Index of the block registered under `name`, if any.
    fn blocks_find(&self, name: &String) -> (r: Option<usize>)
        ensures
            match r {
                Some(i) => i < self.blocks_seq().len() && self.blocks_seq()[i as int].0@ == name@,
                None => !self.blocks_contains(name@),
            },
    {
        let mut i: usize = 0;
        while i < self.blocks.len()
            invariant
                i <= self.blocks@.len(),
                forall|j: int| 0 <= j < i as int ==> self.blocks@[j].0@ != name@,
            decreases self.blocks@.len() - i,
        {
            if self.blocks[i].0 == *name {
                return Some(i);
            }
            i = i + 1;
        }
        None
    }

    /// Register a new block under the generated name `{ordinal}_{tag}`;
    /// the ordinal invariant makes that name fresh, and the next ordinal
    /// moves past it.
    pub fn blocks_insert(&mut self, newmodule: ModulePositions) -> (r: String)
        requires
            old(self).wf(),
            old(self).block_nb() < usize::MAX,
        ensures
            final(self).wf(),
            r@ == gen_name(old(self).block_nb(), newmodule@.module.tag()),
            !old(self).blocks_contains(r@),
            final(self).blocks_contains(r@),
            final(self).blocks_model(r@) == newmodule@,
            final(self).blocks_seq() == old(self).blocks_seq().push((r, newmodule)),
            final(self).block_nb() == old(self).block_nb() + 1,
            final(self).links_model() == old(self).links_model(),
            final(self).crons_seq() == old(self).crons_seq(),
    {
        let tag = newmodule.inner().typeModule();
        let name = make_name(self.blockNb, tag.as_str());
        proof {
            let keys = Seq::new(
                self.blocks@.len(),
                |i: int| self.blocks@[i].0@,
            );
            assert(forall|i: int|
                0 <= i < keys.len() ==> keys[i] == #[trigger] self.blocks@[i].0@);
            lemma_fresh_name_unique(keys, self.blockNb as int, newmodule@.module.tag());
            assert(forall|i: int|
                0 <= i < self.blocks@.len() ==> #[trigger] self.blocks@[i].0@ != name@);
        }
        let ghost bs0 = self.blocks@;
        self.blocks.push((name.clone(), newmodule));
        self.blockNb = self.blockNb + 1;
        proof {
            let bs1 = self.blocks@;
            assert(bs1[bs0.len() as int].0@ == name@);
            assert(forall|j: int| 0 <= j < bs0.len() ==> bs1[j] == bs0[j]);
            let g = choose|g: int| 0 <= g < bs1.len() && bs1[g].0@ == name@;
            assert(g == bs0.len() as int);
            lemma_gen_name_ordinal(old(self).block_nb(), newmodule@.module.tag());
            lemma_links_no_ordinal();
            assert(name@ != "links"@);
            assert forall|i: int, j: int|
                0 <= i < j < final(self).crons_seq().len() implies final(self).crons_seq()[i].0@
                != final(self).crons_seq()[j].0@ by {
                assert(old(self).crons_seq()[i].0@ != old(self).crons_seq()[j].0@);
            }
            assert forall|i: int, j: int|
                0 <= i < j < final(self).blocks_seq().len() implies final(self).blocks_seq()[i].0@
                != final(self).blocks_seq()[j].0@ by {
                if j < bs0.len() {
                    assert(old(self).blocks_seq()[i].0@ != old(self).blocks_seq()[j].0@);
                } else {
                    assert(bs0[i].0@ != name@);
                }
            }
            assert forall|i: int|
                0 <= i < final(self).blocks_seq().len() implies (name_ordinal(
                #[trigger] final(self).blocks_seq()[i].0@,
            ) matches Some(p) ==> p < final(self).block_nb()) by {
                if i < bs0.len() {
                    assert(name_ordinal(old(self).blocks_seq()[i].0@) matches Some(p) ==> p
                        < old(self).block_nb());
                }
            }
        }
        name
    }


    /// Register or reconfigure the refresh timer of `name` for a cadence:
    /// a module that refreshes gets a running timer at its period; one
    /// that never refreshes is left alone. An existing timer is resumed
    /// and retimed rather than replaced.
    pub fn cron_register(&mut self, name: &String, rt: RefreshTime)
        requires
            old(self).wf(),
        ensures
            final(self).wf(),
            final(self).blocks_seq() == old(self).blocks_seq(),
            final(self).links_model() == old(self).links_model(),
            final(self).block_nb() == old(self).block_nb(),
            rt is NONE ==> final(self).crons_seq() == old(self).crons_seq(),
            !(rt is NONE) ==> ({
                let ms = spec_interval_ms(rt);
                &&& final(self).crons_contains(name@)
                &&& final(self).crons_model(name@) == PausableStocker { interval: ms, paused: false }
                &&& forall|n: Seq<char>|
                    n != name@ ==> (final(self).crons_contains(n) <==> old(self).crons_contains(n))
                &&& forall|n: Seq<char>|
                    n != name@ && old(self).crons_contains(n) ==> final(self).crons_model(n) == old(self).crons_model(n)
            }),
    {
        let minutes: u64 = match rt {
            RefreshTime::NONE => {
                return ;
            },
            RefreshTime::MINUTES(m) => m as u64,
            RefreshTime::HOURS(hh) => hh as u64 * 60,
        };
        let ms: u64 = minutes * 60 * 1000;
        proof {
            assert(ms == spec_interval_ms(rt));
        }
        let mut i: usize = 0;
        while i < self.crons.len()
            invariant
                self.wf(),
                *self == *old(self),
                !(rt is NONE),
                ms == spec_interval_ms(rt),
                i <= self.crons@.len(),
                forall|j: int| 0 <= j < i as int ==> self.crons@[j].0@ != name@,
            decreases self.crons@.len() - i,
        {
            if self.crons[i].0 == *name {
                let ghost cs0 = self.crons@;
                self.crons[i] = (name.clone(), PausableStocker { interval: ms, paused: false });
                proof {
                    assert(cs0 == old(self).crons_seq());
                    let cs1 = final(self).crons_seq();
                    assert(cs1 =~= cs0.update(i as int, final(self).crons_seq()[i as int]));
                    assert(cs1[i as int].0@ == name@);
                    assert forall|a: int, b: int|
                        0 <= a < b < cs1.len() implies cs1[a].0@ != cs1[b].0@ by {
                        assert(cs0[a].0@ != cs0[b].0@);
                        if a != i as int && b != i as int {
                        } else if a == i as int {
                            assert(cs1[b] == cs0[b]);
                        } else {
                            assert(cs1[a] == cs0[a]);
                        }
                    }
                    let g = choose|j: int| 0 <= j < cs1.len() && cs1[j].0@ == name@;
                    assert(g == i as int);
                    assert forall|n: Seq<char>|
                        n != name@ && old(self).crons_contains(n) implies final(self).crons_contains(n) && final(self).crons_model(n) == old(self).crons_model(n) by {
                        let j = choose|j: int| 0 <= j < cs0.len() && cs0[j].0@ == n;
                        assert(j != i as int);
                        assert(cs1[j].0@ == n);
                        let j2 = choose|j2: int| 0 <= j2 < cs1.len() && cs1[j2].0@ == n;
                        assert(j2 == j);
                    }
                    assert forall|n: Seq<char>|
                        n != name@ && final(self).crons_contains(n) implies old(self).crons_contains(n) by {
                        let j = choose|j: int| 0 <= j < cs1.len() && cs1[j].0@ == n;
                        assert(j != i as int);
                        assert(cs0[j].0@ == n);
                    }
                }
                return ;
            }
            i = i + 1;
        }
        let ghost cs0 = self.crons@;
        self.crons.push((name.clone(), PausableStocker { interval: ms, paused: false }));
        proof {
            assert(cs0 == old(self).crons_seq());
            let cs1 = final(self).crons_seq();
            let len = cs0.len() as int;
            assert(cs1[len].0@ == name@);
            assert(forall|j: int| 0 <= j < len ==> cs1[j] == cs0[j]);
            assert(forall|j: int| 0 <= j < len ==> cs0[j].0@ != name@);
            assert forall|a: int, b: int| 0 <= a < b < cs1.len() implies cs1[a].0@ != cs1[b].0@ by {
                if b < len {
                    assert(cs0[a].0@ != cs0[b].0@);
                } else {
                    assert(cs0[a].0@ != name@);
                }
            }
            let g = choose|j: int| 0 <= j < cs1.len() && cs1[j].0@ == name@;
            assert(g == len);
            assert forall|n: Seq<char>|
                n != name@ && old(self).crons_contains(n) implies final(self).crons_contains(n) && final(self).crons_model(n) == old(self).crons_model(n) by {
                let j = choose|j: int| 0 <= j < cs0.len() && cs0[j].0@ == n;
                assert(cs1[j].0@ == n);
                let j2 = choose|j2: int| 0 <= j2 < cs1.len() && cs1[j2].0@ == n;
                assert(j2 == j);
            }
            assert forall|n: Seq<char>|
                n != name@ && final(self).crons_contains(n) implies old(self).crons_contains(n) by {
                let j = choose|j: int| 0 <= j < cs1.len() && cs1[j].0@ == n;
                assert(j != len);
                assert(cs0[j].0@ == n);
            }
        }
    }

    /// Pause the refresh timer of `name`, if one is registered; the timer
    /// object survives so the cadence can change without re-registering.
    fn cron_pause(&mut self, name: &String)
        requires
            old(self).wf(),
        ensures
            final(self).wf(),
            final(self).blocks_seq() == old(self).blocks_seq(),
            final(self).links_model() == old(self).links_model(),
            final(self).block_nb() == old(self).block_nb(),
            forall|n: Seq<char>|
                final(self).crons_contains(n) <==> old(self).crons_contains(n),
            old(self).crons_contains(name@) ==> final(self).crons_model(name@) == (PausableStocker {
                interval: old(self).crons_model(name@).interval,
                paused: true,
            }),
            forall|n: Seq<char>|
                n != name@ && old(self).crons_contains(n) ==> final(self).crons_model(n) == old(self).crons_model(n),
    {
        let mut i: usize = 0;
        while i < self.crons.len()
            invariant
                self.wf(),
                *self == *old(self),
                i <= self.crons@.len(),
                forall|j: int| 0 <= j < i as int ==> self.crons@[j].0@ != name@,
            decreases self.crons@.len() - i,
        {
            if self.crons[i].0 == *name {
                let ghost cs0 = self.crons@;
                let old_interval = self.crons[i].1.interval;
                self.crons[i] = (
                    name.clone(),
                    PausableStocker { interval: old_interval, paused: true },
                );
                proof {
                    assert(cs0 == old(self).crons_seq());
                    let cs1 = final(self).crons_seq();
                    assert(cs1[i as int].0@ == name@);
                    assert(forall|j: int| 0 <= j < cs1.len() && j != i as int ==> cs1[j] == cs0[j]);
                    assert forall|a: int, b: int|
                        0 <= a < b < cs1.len() implies cs1[a].0@ != cs1[b].0@ by {
                        assert(cs0[a].0@ != cs0[b].0@);
                        if a == i as int {
                            assert(cs1[b] == cs0[b]);
                        } else if b == i as int {
                            assert(cs1[a] == cs0[a]);
                        }
                    }
                    let g0 = choose|j: int| 0 <= j < cs0.len() && cs0[j].0@ == name@;
                    assert(g0 == i as int);
                    let g = choose|j: int| 0 <= j < cs1.len() && cs1[j].0@ == name@;
                    assert(g == i as int);
                    assert forall|n: Seq<char>|
                        n != name@ && old(self).crons_contains(n) implies final(self).crons_model(n) == old(self).crons_model(n) by {
                        let j = choose|j: int| 0 <= j < cs0.len() && cs0[j].0@ == n;
                        assert(j != i as int);
                        assert(cs1[j].0@ == n);
                        let j2 = choose|j2: int| 0 <= j2 < cs1.len() && cs1[j2].0@ == n;
                        assert(j2 == j);
                    }
                    assert forall|n: Seq<char>|
                        final(self).crons_contains(n) implies old(self).crons_contains(n) by {
                        let j = choose|j: int| 0 <= j < cs1.len() && cs1[j].0@ == n;
                        if j == i as int {
                        } else {
                            assert(cs0[j].0@ == n);
                        }
                    }
                }
                return ;
            }
            i = i + 1;
        }
    }


    /// Push one named module to the store, if it is dirty; a clean or
    /// unknown module is left alone. On success the module's send clock
    /// catches up with its edit clock: the module is clean, and the
    /// stored record carries its edit timestamp and its encrypted
    /// configuration.
    pub fn module_update(&mut self, store: &mut ModuleStore, user: &UserData, name: &String) -> (r:
        Option<AllFrontErrorEnum>)
        requires
            old(self).wf(),
            old(store).wf(),
        ensures
            final(self).wf(),
            final(store).wf(),
            same_keys(old(self).blocks_seq(), final(self).blocks_seq()),
            same_payloads(old(self).blocks_seq(), final(self).blocks_seq()),
            final(self).links_model() == old(self).links_model(),
            final(self).crons_seq() == old(self).crons_seq(),
            final(self).block_nb() == old(self).block_nb(),
            forall|n: Seq<char>|
                n != name@ ==> (final(store).spec_contains(n) <==> old(store).spec_contains(n)),
            forall|n: Seq<char>|
                n != name@ && old(store).spec_contains(n) ==> final(store).spec_get(n) == old(store).spec_get(n),
            !(old(self).blocks_contains(name@) && old(self).blocks_model(name@).module.must_sync())
                ==> r is None && *final(self) == *old(self) && *final(store) == *old(store),
            old(self).blocks_contains(name@) && old(self).blocks_model(name@).module.must_sync()
                ==> ({
                let m0 = old(self).blocks_model(name@);
                &&& (r matches Some(e) ==> *final(self) == *old(self) && *final(store) == *old(store) && (e is SERVER_ERROR || (e is MODULE_OUTDATED && old(store).spec_contains(name@) && old(store).spec_get(name@).timestamp >= m0.module.update_clock())))
                &&& (r is None ==> ({
                    &&& (old(store).spec_contains(name@) ==> old(store).spec_get(name@).timestamp < m0.module.update_clock())
                    &&& final(store).spec_contains(name@)
                    &&& final(store).spec_get(name@).timestamp == m0.module.update_clock()
                    &&& final(store).spec_get(name@).type_tag == m0.module.tag()
                    &&& final(store).spec_get(name@).pos0 == m0.pos0
                    &&& final(store).spec_get(name@).pos1 == m0.pos1
                    &&& final(store).spec_get(name@).size0 == m0.size0
                    &&& final(store).spec_get(name@).size1 == m0.size1
                    &&& user@.userSalt matches Some(p) && crate::user_data::spec_decrypt(p, final(store).spec_get(name@).content) == Some(m0.module.enc())
                    &&& final(self).blocks_contains(name@)
                    &&& !final(self).blocks_model(name@).module.must_sync()
                    &&& final(self).blocks_model(name@).module.sended_clock() == m0.module.update_clock()
                }))
            }),
    {
        let i = match self.blocks_find(name) {
            Some(i) => i,
            None => {
                return None;
            },
        };
        proof {
            assert(old(self).blocks_seq()[i as int].0@ == name@);
            let g = choose|j: int|
                0 <= j < old(self).blocks_seq().len() && old(self).blocks_seq()[j].0@ == name@;
            assert(g == i as int);
        }
        if !self.blocks[i].1.cache_mustUpdate() {
            return None;
        }
        let mut rec = self.blocks[i].1.export();
        rec.name = name.clone();
        match push_encrypted(store, user, rec) {
            Some(e) => Some(e),
            None => {
                let t = self.blocks[i].1.cache_getUpdate().get();
                let entry = &mut self.blocks[i];
                entry.1.cache_setSended(t);
                proof {
                    let bs0 = old(self).blocks_seq();
                    let bs1 = final(self).blocks_seq();
                    assert(bs1 == bs0.update(i as int, bs1[i as int]));
                    assert(bs1[i as int].0 == bs0[i as int].0);
                    assert(forall|j: int| 0 <= j < bs1.len() && j != i as int ==> bs1[j] == bs0[j]);
                    assert(same_keys(bs0, bs1));
                    assert forall|j: int| 0 <= j < bs0.len() implies same_payload(
                        bs0[j].1@,
                        #[trigger] bs1[j].1@,
                    ) by {
                        if j != i as int {
                            assert(bs1[j] == bs0[j]);
                        }
                    }
                    assert forall|a: int, b: int|
                        0 <= a < b < bs1.len() implies bs1[a].0@ != bs1[b].0@ by {
                        assert(bs0[a].0@ != bs0[b].0@);
                    }
                    assert forall|j: int|
                        0 <= j < bs1.len() implies (name_ordinal(#[trigger] bs1[j].0@) matches Some(
                        p,
                    ) ==> p < final(self).block_nb()) by {
                        assert(name_ordinal(bs0[j].0@) matches Some(p) ==> p < old(self).block_nb());
                    }
                    assert(forall|j: int| 0 <= j < bs1.len() ==> #[trigger] bs1[j].0@ != "links"@);
                    assert(bs1[i as int].0@ == name@);
                    let g2 = choose|j: int| 0 <= j < bs1.len() && bs1[j].0@ == name@;
                    assert(g2 == i as int);
                    assert forall|a: int, b: int|
                        0 <= a < b < final(self).crons_seq().len() implies final(self).crons_seq()[a].0@ != final(self).crons_seq()[b].0@ by {
                        assert(old(self).crons_seq()[a].0@ != old(self).crons_seq()[b].0@);
                    }
                }
                None
            },
        }
    }

    /// Delete the named module's stored record and pause its refresh
    /// timer; the in-memory module itself is left alone (tearing down
    /// the view is the interface layer's concern). A name that owns no
    /// block does nothing.
    pub fn module_remove(&mut self, store: &mut ModuleStore, name: &String) -> (r: Option<
        AllFrontErrorEnum,
    >)
        requires
            old(self).wf(),
            old(store).wf(),
        ensures
            final(self).wf(),
            final(store).wf(),
            r is None,
            final(self).blocks_seq() == old(self).blocks_seq(),
            final(self).links_model() == old(self).links_model(),
            final(self).block_nb() == old(self).block_nb(),
            !old(self).blocks_contains(name@) ==> *final(self) == *old(self) && *final(store)
                == *old(store),
            old(self).blocks_contains(name@) ==> ({
                &&& !final(store).spec_contains(name@)
                &&& (forall|n: Seq<char>|
                    n != name@ ==> (final(store).spec_contains(n) <==> old(store).spec_contains(n)))
                &&& (forall|n: Seq<char>|
                    n != name@ && old(store).spec_contains(n) ==> final(store).spec_get(n) == old(store).spec_get(n))
                &&& (forall|n: Seq<char>|
                    final(self).crons_contains(n) <==> old(self).crons_contains(n))
                &&& (old(self).crons_contains(name@) ==> final(self).crons_model(name@) == (PausableStocker {
                    interval: old(self).crons_model(name@).interval,
                    paused: true,
                }))
                &&& (forall|n: Seq<char>|
                    n != name@ && old(self).crons_contains(n) ==> final(self).crons_model(n) == old(self).crons_model(n))
            }),
    {
        match self.blocks_find(name) {
            Some(_) => {},
            None => {
                return None;
            },
        }
        let _ = store.remove(name);
        self.cron_pause(name);
        None
    }


    /// Opportunistic bidirectional sync of one named module: a dirty
    /// module is pushed; a clean one is pulled, and the pulled record is
    /// applied only when it is strictly newer than the module's own edit
    /// clock, so a racing local edit is never clobbered.
    pub fn module_getOrUpdate(&mut self, store: &mut ModuleStore, user: &UserData, name: &String)
        -> (r: Option<AllFrontErrorEnum>)
        requires
            old(self).wf(),
            old(store).wf(),
        ensures
            final(self).wf(),
            final(store).wf(),
            same_keys(old(self).blocks_seq(), final(self).blocks_seq()),
            final(self).links_model() == old(self).links_model(),
            final(self).crons_seq() == old(self).crons_seq(),
            final(self).block_nb() == old(self).block_nb(),
            forall|n: Seq<char>|
                n != name@ ==> (final(store).spec_contains(n) <==> old(store).spec_contains(n)),
            forall|n: Seq<char>|
                n != name@ && old(store).spec_contains(n) ==> final(store).spec_get(n) == old(store).spec_get(n),
            !old(self).blocks_contains(name@) ==> r is None && *final(self) == *old(self) && *final(store) == *old(store),
            old(self).blocks_contains(name@) && !old(self).blocks_model(name@).module.must_sync()
                ==> ({
                let m0 = old(self).blocks_model(name@);
                &&& *final(store) == *old(store)
                &&& (!old(store).spec_contains(name@) ==> (r matches Some(e) && e is MODULE_NOTEXIST
                    && *final(self) == *old(self)))
                &&& (old(store).spec_contains(name@) ==> ({
                    let srec = old(store).spec_get(name@);
                    &&& r is None
                    &&& (srec.timestamp <= m0.module.update_clock() ==> *final(self) == *old(self))
                    &&& (*final(self) == *old(self) || (srec.timestamp > m0.module.update_clock()
                        && (user@.userSalt matches Some(p) && exists|pt: Seq<char>|
                        crate::user_data::spec_decrypt(p, srec.content) == Some(pt)
                            && final(self).blocks_model(name@) == pulled_block(m0, srec, pt))))
                    &&& (srec.timestamp > m0.module.update_clock() && (user@.userSalt
                        matches Some(p) && crate::user_data::decrypt_guaranteed(p, srec.content))
                        ==> final(self).blocks_model(name@) == pulled_block(
                        m0,
                        srec,
                        crate::user_data::spec_decrypt(
                            (user@.userSalt)->0,
                            srec.content,
                        ).unwrap(),
                    ))
                }))
            }),
            old(self).blocks_contains(name@) && old(self).blocks_model(name@).module.must_sync()
                ==> ({
                let m0 = old(self).blocks_model(name@);
                &&& same_payloads(old(self).blocks_seq(), final(self).blocks_seq())
                &&& (r matches Some(e) ==> *final(self) == *old(self) && *final(store) == *old(store) && (e is SERVER_ERROR || (e is MODULE_OUTDATED && old(store).spec_contains(name@) && old(store).spec_get(name@).timestamp >= m0.module.update_clock())))
                &&& (r is None ==> final(store).spec_contains(name@) && final(store).spec_get(name@).timestamp == m0.module.update_clock() && (user@.userSalt matches Some(p) && crate::user_data::spec_decrypt(p, final(store).spec_get(name@).content) == Some(m0.module.enc())) && !final(self).blocks_model(name@).module.must_sync())
            }),
    {
        let i = match self.blocks_find(name) {
            Some(i) => i,
            None => {
                return None;
            },
        };
        proof {
            assert(old(self).blocks_seq()[i as int].0@ == name@);
            let g = choose|j: int|
                0 <= j < old(self).blocks_seq().len() && old(self).blocks_seq()[j].0@ == name@;
            assert(g == i as int);
        }
        if self.blocks[i].1.cache_mustUpdate() {
            return self.module_update(store, user, name);
        }
        match store.retrieve(name) {
            crate::store::ModuleReturnRetrieve::EMPTY => Some(AllFrontErrorEnum::MODULE_NOTEXIST),
            crate::store::ModuleReturnRetrieve::UPDATED(rec) => {
                let mut rec = rec;
                match user.decrypt_with_password(&rec.content) {
                    None => None,
                    Some(pt) => {
                        let ghost ptv = pt@;
                        rec.content = pt;
                        if rec.timestamp > self.blocks[i].1.cache_getUpdate().get() {
                            let entry = &mut self.blocks[i];
                            let _ = entry.1.import(rec);
                            proof {
                                let bs0 = old(self).blocks_seq();
                                let bs1 = final(self).blocks_seq();
                                assert(bs1 == bs0.update(i as int, bs1[i as int]));
                                assert(bs1[i as int].0 == bs0[i as int].0);
                                assert(forall|j: int|
                                    0 <= j < bs1.len() && j != i as int ==> bs1[j] == bs0[j]);
                                assert(same_keys(bs0, bs1));
                                assert forall|a: int, b: int|
                                    0 <= a < b < bs1.len() implies bs1[a].0@ != bs1[b].0@ by {
                                    assert(bs0[a].0@ != bs0[b].0@);
                                }
                                assert forall|j: int|
                                    0 <= j < bs1.len() implies (name_ordinal(
                                    #[trigger] bs1[j].0@,
                                ) matches Some(p) ==> p < final(self).block_nb()) by {
                                    assert(name_ordinal(bs0[j].0@) matches Some(p) ==> p < old(self).block_nb());
                                }
                                assert(forall|j: int|
                                    0 <= j < bs1.len() ==> #[trigger] bs1[j].0@ != "links"@);
                                assert forall|a: int, b: int|
                                    0 <= a < b < final(self).crons_seq().len() implies final(self).crons_seq()[a].0@ != final(self).crons_seq()[b].0@ by {
                                    assert(old(self).crons_seq()[a].0@ != old(self).crons_seq()[b].0@);
                                }
                                assert(bs1[i as int].0@ == name@);
                                let g2 = choose|j: int| 0 <= j < bs1.len() && bs1[j].0@ == name@;
                                assert(g2 == i as int);
                                assert(final(self).blocks_model(name@) == pulled_block(
                                    old(self).blocks_model(name@),
                                    old(store).spec_get(name@),
                                    ptv,
                                ));
                            }
                        }
                        None
                    },
                }
            },
        }
    }

    /// Reload one named module from the store, dropping local edits, but
    /// only when it is dirty: the per-module cancel path. On success the
    /// module's refresh timer is re-registered at its cadence.
    pub fn module_retrieve(&mut self, store: &ModuleStore, user: &UserData, name: &String) -> (r:
        Option<AllFrontErrorEnum>)
        requires
            old(self).wf(),
            store.wf(),
        ensures
            final(self).wf(),
            same_keys(old(self).blocks_seq(), final(self).blocks_seq()),
            final(self).links_model() == old(self).links_model(),
            final(self).block_nb() == old(self).block_nb(),
            !(old(self).blocks_contains(name@) && old(self).blocks_model(name@).module.must_sync())
                ==> r is None && *final(self) == *old(self),
            old(self).blocks_contains(name@) && old(self).blocks_model(name@).module.must_sync()
                ==> ({
                let m0 = old(self).blocks_model(name@);
                &&& (!store.spec_contains(name@) ==> (r matches Some(e) && e is MODULE_NOTEXIST
                    && *final(self) == *old(self)))
                &&& (store.spec_contains(name@) ==> ({
                    let srec = store.spec_get(name@);
                    &&& r is None
                    &&& (final(self).blocks_model(name@) == m0 || ((user@.userSalt matches Some(p)
                        && exists|pt: Seq<char>|
                        crate::user_data::spec_decrypt(p, srec.content) == Some(pt)
                            && final(self).blocks_model(name@) == pulled_block(m0, srec, pt))))
                    &&& ((user@.userSalt matches Some(p) && crate::user_data::decrypt_guaranteed(
                        p,
                        srec.content,
                    )) ==> ({
                        let m1 = pulled_block(
                            m0,
                            srec,
                            crate::user_data::spec_decrypt(
                                (user@.userSalt)->0,
                                srec.content,
                            ).unwrap(),
                        );
                        &&& final(self).blocks_model(name@) == m1
                        &&& (m1.module.spec_refresh_time() is NONE ==> final(self).crons_seq()
                            == old(self).crons_seq())
                        &&& (!(m1.module.spec_refresh_time() is NONE) ==> final(self).crons_contains(name@) && final(self).crons_model(name@)
                            == (PausableStocker {
                            interval: spec_interval_ms(m1.module.spec_refresh_time()),
                            paused: false,
                        }) && (forall|nn: Seq<char>|
                            nn != name@ ==> (final(self).crons_contains(nn) <==> old(self).crons_contains(nn))) && (forall|nn: Seq<char>|
                            nn != name@ && old(self).crons_contains(nn) ==> final(self).crons_model(
                                nn,
                            ) == old(self).crons_model(nn)))
                    }))
                }))
            }),
    {
        let i = match self.blocks_find(name) {
            Some(i) => i,
            None => {
                return None;
            },
        };
        proof {
            assert(old(self).blocks_seq()[i as int].0@ == name@);
            let g = choose|j: int|
                0 <= j < old(self).blocks_seq().len() && old(self).blocks_seq()[j].0@ == name@;
            assert(g == i as int);
        }
        if !self.blocks[i].1.cache_mustUpdate() {
            return None;
        }
        match store.retrieve(name) {
            crate::store::ModuleReturnRetrieve::EMPTY => Some(AllFrontErrorEnum::MODULE_NOTEXIST),
            crate::store::ModuleReturnRetrieve::UPDATED(rec) => {
                let mut rec = rec;
                match user.decrypt_with_password(&rec.content) {
                    None => None,
                    Some(pt) => {
                        let ghost ptv = pt@;
                        rec.content = pt;
                        let entry = &mut self.blocks[i];
                        let _ = entry.1.import(rec);
                        let rt = self.blocks[i].1.inner().refresh_time();
                        let key = self.blocks[i].0.clone();
                        proof {
                            let bs0 = old(self).blocks_seq();
                            let bs1 = self.blocks@;
                            assert(bs1 == bs0.update(i as int, bs1[i as int]));
                            assert(bs1[i as int].0 == bs0[i as int].0);
                            assert(forall|j: int|
                                0 <= j < bs1.len() && j != i as int ==> bs1[j] == bs0[j]);
                            assert forall|a: int, b: int|
                                0 <= a < b < bs1.len() implies bs1[a].0@ != bs1[b].0@ by {
                                assert(bs0[a].0@ != bs0[b].0@);
                            }
                            assert forall|j: int|
                                0 <= j < bs1.len() implies (name_ordinal(
                                #[trigger] bs1[j].0@,
                            ) matches Some(p) ==> p < self.block_nb()) by {
                                assert(name_ordinal(bs0[j].0@) matches Some(p) ==> p < old(self).block_nb());
                            }
                            assert(forall|j: int|
                                0 <= j < bs1.len() ==> #[trigger] bs1[j].0@ != "links"@);
                            assert(self.crons_seq() == old(self).crons_seq());
                            assert forall|a: int, b: int|
                                0 <= a < b < self.crons_seq().len() implies self.crons_seq()[a].0@ != self.crons_seq()[b].0@ by {
                                assert(old(self).crons_seq()[a].0@ != old(self).crons_seq()[b].0@);
                            }
                            assert(self.wf());
                        }
                        self.cron_register(&key, rt);
                        proof {
                            let bs1 = final(self).blocks_seq();
                            assert(bs1[i as int].0@ == name@);
                            let g2 = choose|j: int| 0 <= j < bs1.len() && bs1[j].0@ == name@;
                            assert(g2 == i as int);
                            assert(same_keys(old(self).blocks_seq(), bs1));
                            assert(final(self).blocks_model(name@) == pulled_block(
                                old(self).blocks_model(name@),
                                store.spec_get(name@),
                                ptv,
                            ));
                        }
                        None
                    },
                }
            },
        }
    }


    /// Commit an edit session: push the links module if it is dirty, then
    /// every dirty block, each under its own name; the links payload
    /// travels in the clear, a block's payload encrypted under the
    /// session secret. A pushed module's send clock catches up with its
    /// edit clock. The pass stops at the first rejection or failure:
    /// modules already pushed stay synchronized, everything at and after
    /// the failure is untouched (partial commit), and clean modules are
    /// never touched at all.
    pub fn editMode_validate(&mut self, store: &mut ModuleStore, user: &UserData) -> (r: Option<
        AllFrontErrorEnum,
    >)
        requires
            old(self).wf(),
            old(store).wf(),
        ensures
            final(self).wf(),
            final(store).wf(),
            same_keys(old(self).blocks_seq(), final(self).blocks_seq()),
            same_payloads(old(self).blocks_seq(), final(self).blocks_seq()),
            final(self).links_model().links == old(self).links_model().links,
            final(self).links_model().update == old(self).links_model().update,
            final(self).links_model().sended == old(self).links_model().sended || final(self).links_model().sended == old(self).links_model().update,
            final(self).crons_seq() == old(self).crons_seq(),
            final(self).block_nb() == old(self).block_nb(),
            forall|n: Seq<char>|
                n != "links"@ && !old(self).blocks_contains(n) ==> (final(store).spec_contains(n)
                    <==> old(store).spec_contains(n)),
            forall|n: Seq<char>|
                n != "links"@ && !old(self).blocks_contains(n) && old(store).spec_contains(n)
                    ==> final(store).spec_get(n) == old(store).spec_get(n),
            forall|j: int|
                0 <= j < old(self).blocks_seq().len() && !(#[trigger] old(self).blocks_seq()[j].1@).module.must_sync() ==> final(self).blocks_seq()[j].1@ == old(self).blocks_seq()[j].1@,
            forall|j: int|
                0 <= j < old(self).blocks_seq().len() && !(#[trigger] old(self).blocks_seq()[j].1@).module.must_sync() ==> ({
                    let nm = old(self).blocks_seq()[j].0@;
                    &&& (final(store).spec_contains(nm) <==> old(store).spec_contains(nm))
                    &&& (old(store).spec_contains(nm) ==> final(store).spec_get(nm) == old(store).spec_get(nm))
                }),
            old(self).links_model().update <= old(self).links_model().sended ==> (final(self).links_model() == old(self).links_model() && (final(store).spec_contains("links"@) <==> old(store).spec_contains("links"@)) && (old(store).spec_contains("links"@) ==> final(store).spec_get("links"@) == old(store).spec_get("links"@))),
            r matches Some(e) ==> !(e is MODULE_NOTEXIST),
            r matches Some(e) && e is MODULE_OUTDATED ==> ((old(self).links_model().update > old(self).links_model().sended && old(store).spec_contains("links"@) && old(store).spec_get("links"@).timestamp >= old(self).links_model().update) || (exists|j: int| 0 <= j < old(self).blocks_seq().len() && (#[trigger] old(self).blocks_seq()[j].1@).module.must_sync() && old(store).spec_contains(old(self).blocks_seq()[j].0@) && old(store).spec_get(old(self).blocks_seq()[j].0@).timestamp >= old(self).blocks_seq()[j].1@.module.update_clock())),
            r is Some ==> exists|k: int|
                0 <= k <= old(self).blocks_seq().len() && #[trigger] validate_stopped_at(
                    old(self).blocks_seq(),
                    final(self).blocks_seq(),
                    *old(store),
                    *final(store),
                    k,
                ),
            (forall|j: int|
                0 <= j < old(self).blocks_seq().len() ==> !(#[trigger] old(self).blocks_seq()[j].1@).module.must_sync()) && (old(self).links_model().update > old(self).links_model().sended ==> !(old(store).spec_contains("links"@) && old(store).spec_get("links"@).timestamp >= old(self).links_model().update)) ==> r is None,
            r is None ==> ({
                &&& final(self).links_model().update <= final(self).links_model().sended
                &&& forall|j: int|
                    0 <= j < final(self).blocks_seq().len() ==> !(#[trigger] final(self).blocks_seq()[j].1@).module.must_sync()
                &&& (old(self).links_model().update > old(self).links_model().sended ==> final(store).spec_contains("links"@) && final(store).spec_get("links"@).timestamp == old(self).links_model().update && final(store).spec_get("links"@).content == links_enc(old(self).links_model().links) && final(store).spec_get("links"@).type_tag == "links"@)
                &&& forall|j: int|
                    0 <= j < old(self).blocks_seq().len() && (#[trigger] old(self).blocks_seq()[j].1@).module.must_sync() ==> ({
                        let nm = old(self).blocks_seq()[j].0@;
                        let m0 = old(self).blocks_seq()[j].1@;
                        &&& final(store).spec_contains(nm)
                        &&& final(store).spec_get(nm).timestamp == m0.module.update_clock()
                        &&& final(store).spec_get(nm).type_tag == m0.module.tag()
                        &&& final(store).spec_get(nm).pos0 == m0.pos0
                        &&& final(store).spec_get(nm).pos1 == m0.pos1
                        &&& final(store).spec_get(nm).size0 == m0.size0
                        &&& final(store).spec_get(nm).size1 == m0.size1
                        &&& (user@.userSalt matches Some(p) && crate::user_data::spec_decrypt(p, final(store).spec_get(nm).content) == Some(m0.module.enc()))
                    })
            }),
    {
        if self.links.cache_mustUpdate() {
            let rec = self.links.export();
            let t = rec.timestamp;
            match push_plain(store, &rec) {
                Some(e) => {
                    proof {
                        assert(validate_stopped_at(
                            old(self).blocks_seq(),
                            self.blocks_seq(),
                            *old(store),
                            *store,
                            0,
                        ));
                    }
                    return Some(e);
                },
                None => {
                    self.links.cache_setSended(t);
                },
            }
        }
        proof {
            assert(self.blocks_seq() == old(self).blocks_seq());
            assert(self.crons_seq() == old(self).crons_seq());
            assert forall|a: int, b: int|
                0 <= a < b < self.blocks_seq().len() implies self.blocks_seq()[a].0@
                != self.blocks_seq()[b].0@ by {
                assert(old(self).blocks_seq()[a].0@ != old(self).blocks_seq()[b].0@);
            }
            assert forall|j: int|
                0 <= j < self.blocks_seq().len() implies (name_ordinal(
                #[trigger] self.blocks_seq()[j].0@,
            ) matches Some(p) ==> p < self.block_nb()) by {
                assert(name_ordinal(old(self).blocks_seq()[j].0@) matches Some(p) ==> p < old(self).block_nb());
            }
            assert forall|j: int|
                0 <= j < self.blocks_seq().len() implies #[trigger] self.blocks_seq()[j].0@
                != "links"@ by {
                assert(old(self).blocks_seq()[j].0@ != "links"@);
            }
            assert forall|a: int, b: int|
                0 <= a < b < self.crons_seq().len() implies self.crons_seq()[a].0@
                != self.crons_seq()[b].0@ by {
                assert(old(self).crons_seq()[a].0@ != old(self).crons_seq()[b].0@);
            }
        }
        let n = self.blocks.len();
        let mut i: usize = 0;
        while i < n
            invariant
                self.wf(),
                store.wf(),
                n == self.blocks_seq().len(),
                i <= n,
                same_keys(old(self).blocks_seq(), self.blocks_seq()),
                same_payloads(old(self).blocks_seq(), self.blocks_seq()),
                self.links_model().links == old(self).links_model().links,
                self.links_model().update == old(self).links_model().update,
                self.links_model().sended == old(self).links_model().sended
                    || self.links_model().sended == old(self).links_model().update,
                old(self).links_model().update > old(self).links_model().sended ==> ({
                    &&& self.links_model().sended == self.links_model().update
                    &&& store.spec_contains("links"@)
                    &&& store.spec_get("links"@).timestamp == old(self).links_model().update
                    &&& store.spec_get("links"@).content == links_enc(old(self).links_model().links)
                    &&& store.spec_get("links"@).type_tag == "links"@
                    &&& !(old(store).spec_contains("links"@) && old(store).spec_get("links"@).timestamp >= old(self).links_model().update)
                }),
                old(self).links_model().update <= old(self).links_model().sended
                    ==> (self.links_model() == old(self).links_model() && (store.spec_contains("links"@) <==> old(store).spec_contains("links"@)) && (old(store).spec_contains("links"@) ==> store.spec_get("links"@) == old(store).spec_get("links"@))),
                self.crons_seq() == old(self).crons_seq(),
                self.block_nb() == old(self).block_nb(),
                forall|nm: Seq<char>|
                    nm != "links"@ && !old(self).blocks_contains(nm) ==> (store.spec_contains(nm)
                        <==> old(store).spec_contains(nm)),
                forall|nm: Seq<char>|
                    nm != "links"@ && !old(self).blocks_contains(nm) && old(store).spec_contains(nm)
                        ==> store.spec_get(nm) == old(store).spec_get(nm),
                forall|j: int|
                    i as int <= j < n ==> #[trigger] self.blocks_seq()[j].1@ == old(self).blocks_seq()[j].1@,
                forall|j: int|
                    0 <= j < i as int && !(#[trigger] old(self).blocks_seq()[j].1@).module.must_sync() ==> self.blocks_seq()[j].1@ == old(self).blocks_seq()[j].1@,
                forall|j: int|
                    0 <= j < n && (j >= i as int || !(#[trigger] old(self).blocks_seq()[j].1@).module.must_sync()) ==> ({
                        let nm = old(self).blocks_seq()[j].0@;
                        &&& (store.spec_contains(nm) <==> old(store).spec_contains(nm))
                        &&& (old(store).spec_contains(nm) ==> store.spec_get(nm) == old(store).spec_get(nm))
                    }),
                forall|j: int|
                    0 <= j < i as int ==> !(#[trigger] self.blocks_seq()[j].1@).module.must_sync(),
                forall|j: int|
                    0 <= j < i as int && (#[trigger] old(self).blocks_seq()[j].1@).module.must_sync() ==> ({
                        let nm = old(self).blocks_seq()[j].0@;
                        let m0 = old(self).blocks_seq()[j].1@;
                        &&& store.spec_contains(nm)
                        &&& store.spec_get(nm).timestamp == m0.module.update_clock()
                        &&& store.spec_get(nm).type_tag == m0.module.tag()
                        &&& store.spec_get(nm).pos0 == m0.pos0
                        &&& store.spec_get(nm).pos1 == m0.pos1
                        &&& store.spec_get(nm).size0 == m0.size0
                        &&& store.spec_get(nm).size1 == m0.size1
                        &&& (user@.userSalt matches Some(p) && crate::user_data::spec_decrypt(p, store.spec_get(nm).content) == Some(m0.module.enc()))
                    }),
            decreases n - i,
        {
            if self.blocks[i].1.cache_mustUpdate() {
                let mut rec = self.blocks[i].1.export();
                rec.name = self.blocks[i].0.clone();
                let ghost store_pre = *store;
                match push_encrypted(store, user, rec) {
                    Some(e) => {
                        proof {
                            let bs0 = old(self).blocks_seq();
                            let bs1 = self.blocks_seq();
                            assert(*store == store_pre);
                            assert forall|j: int| i as int <= j < bs0.len() implies ((
                            store.spec_contains(#[trigger] bs0[j].0@) <==> old(store).spec_contains(
                                bs0[j].0@,
                            )) && (old(store).spec_contains(bs0[j].0@) ==> store.spec_get(bs0[j].0@)
                                == old(store).spec_get(bs0[j].0@))) by {
                                assert(old(self).blocks_seq()[j].1@ == bs0[j].1@);
                                assert((store_pre.spec_contains(old(self).blocks_seq()[j].0@)
                                    <==> old(store).spec_contains(old(self).blocks_seq()[j].0@))
                                    && (old(store).spec_contains(old(self).blocks_seq()[j].0@)
                                    ==> store_pre.spec_get(old(self).blocks_seq()[j].0@)
                                    == old(store).spec_get(old(self).blocks_seq()[j].0@)));
                            }
                            assert(validate_stopped_at(bs0, bs1, *old(store), *store, i as int));
                        }
                        return Some(e);
                    },
                    None => {
                        let t = self.blocks[i].1.cache_getUpdate().get();
                        let ghost bs0 = self.blocks@;
                        let entry = &mut self.blocks[i];
                        entry.1.cache_setSended(t);
                        proof {
                            let bs1 = self.blocks@;
                            assert(bs1 == bs0.update(i as int, bs1[i as int]));
                            assert(bs1[i as int].0 == bs0[i as int].0);
                            assert(forall|j: int|
                                0 <= j < bs1.len() && j != i as int ==> bs1[j] == bs0[j]);
                            assert forall|a: int, b: int|
                                0 <= a < b < bs1.len() implies bs1[a].0@ != bs1[b].0@ by {
                                assert(bs0[a].0@ != bs0[b].0@);
                            }
                            assert forall|j: int|
                                0 <= j < bs1.len() implies (name_ordinal(
                                #[trigger] bs1[j].0@,
                            ) matches Some(p) ==> p < self.block_nb()) by {
                                assert(name_ordinal(bs0[j].0@) matches Some(p) ==> p < self.block_nb());
                            }
                            assert(forall|j: int|
                                0 <= j < bs1.len() ==> #[trigger] bs1[j].0@ != "links"@);
                            assert forall|j: int|
                                0 <= j < i as int && (#[trigger] old(self).blocks_seq()[j].1@).module.must_sync() implies ({
                                    let nm = old(self).blocks_seq()[j].0@;
                                    let m0 = old(self).blocks_seq()[j].1@;
                                    &&& store.spec_contains(nm)
                                    &&& store.spec_get(nm).timestamp == m0.module.update_clock()
                                    &&& store.spec_get(nm).type_tag == m0.module.tag()
                                    &&& store.spec_get(nm).pos0 == m0.pos0
                                    &&& store.spec_get(nm).pos1 == m0.pos1
                                    &&& store.spec_get(nm).size0 == m0.size0
                                    &&& store.spec_get(nm).size1 == m0.size1
                                    &&& (user@.userSalt matches Some(p) && crate::user_data::spec_decrypt(p, store.spec_get(nm).content) == Some(m0.module.enc()))
                                }) by {
                                let nm = old(self).blocks_seq()[j].0@;
                                assert(bs0[j].0@ == nm);
                                assert(bs0[i as int].0@ != nm);
                                assert(store_pre.spec_contains(nm));
                            }
                            assert forall|j: int|
                                0 <= j < n && (j >= i as int + 1 || !(#[trigger] old(self).blocks_seq()[j].1@).module.must_sync()) implies ({
                                    let nm = old(self).blocks_seq()[j].0@;
                                    &&& (store.spec_contains(nm) <==> old(store).spec_contains(nm))
                                    &&& (old(store).spec_contains(nm) ==> store.spec_get(nm) == old(store).spec_get(nm))
                                }) by {
                                let nm = old(self).blocks_seq()[j].0@;
                                assert(bs0[j].0@ == nm);
                                assert(bs0[i as int].0@ != nm);
                                assert(store_pre.spec_contains(nm) <==> old(store).spec_contains(nm));
                            }
                        }
                    },
                }
            }
            i = i + 1;
        }
        None
    }


    /// Discard an edit session, or refresh the whole dashboard: reload
    /// the links module and every block that is dirty (all of them when
    /// `forceUpdate` is set) from its stored record, then discover
    /// server-side modules this session has never seen and install them.
    /// A missing stored record aborts the pass with the module-missing
    /// error, the only error this pass can surface. Discovery advances
    /// the next ordinal past every numeric prefix parsed out of a
    /// discovered name, so later locally-created modules can never
    /// collide.
    pub fn editMode_cancel(&mut self, store: &ModuleStore, user: &UserData, forceUpdate: bool)
        -> (r: Option<AllFrontErrorEnum>)
        requires
            old(self).wf(),
            store.wf(),
        ensures
            final(self).wf(),
            final(self).block_nb() >= old(self).block_nb(),
            forall|nm: Seq<char>|
                old(self).blocks_contains(nm) ==> final(self).blocks_contains(nm),
            r matches Some(e) ==> e is MODULE_NOTEXIST,
            !(forceUpdate || old(self).links_model().update > old(self).links_model().sended)
                ==> final(self).links_model() == old(self).links_model(),
            (forceUpdate || old(self).links_model().update > old(self).links_model().sended) ==> ({
                &&& (!store.spec_contains("links"@) ==> ((r matches Some(e) && e
                    is MODULE_NOTEXIST) && *final(self) == *old(self)))
                &&& (store.spec_contains("links"@) ==> ({
                    let srec = store.spec_get("links"@);
                    &&& (links_dec(srec.content) matches Some(ls) ==> final(self).links_model().links == ls && final(self).links_model().update == srec.timestamp && final(self).links_model().sended == srec.timestamp)
                    &&& (links_dec(srec.content) is None ==> final(self).links_model() == old(self).links_model())
                }))
            }),
            (exists|j: int|
                0 <= j < old(self).blocks_seq().len() && (forceUpdate || (
                #[trigger] old(self).blocks_seq()[j].1@).module.must_sync())
                    && !store.spec_contains(old(self).blocks_seq()[j].0@)) ==> r is Some,
            r is None ==> old(self).blocks_seq().len() <= final(self).blocks_seq().len(),
            r is None ==> (forall|j: int|
                0 <= j < old(self).blocks_seq().len() ==> (#[trigger] final(self).blocks_seq()[j].0@
                    == old(self).blocks_seq()[j].0@ && reloaded_block(
                    *store,
                    user@.userSalt,
                    old(self).blocks_seq()[j].0@,
                    old(self).blocks_seq()[j].1@,
                    final(self).blocks_seq()[j].1@,
                    forceUpdate,
                ))),
            r is None ==> (user@.userSalt matches Some(p) ==> (forall|nm: Seq<char>|
                (#[trigger] store.spec_contains(nm)) && nm != "links"@ && !old(self).blocks_contains(nm) && discovery_applies(*store, p, nm) ==> (final(self).blocks_contains(nm) && final(self).blocks_model(nm) == discovered_block(
                    *store,
                    p,
                    nm,
                )))),
            r is None ==> (forall|nm: Seq<char>|
                store.spec_contains(nm) ==> (name_ordinal(nm) matches Some(p) ==> p
                    < usize::MAX ==> p < final(self).block_nb())),
    {
        let linksname = self.links.typeModule();
        if forceUpdate || self.links.cache_mustUpdate() {
            match store.retrieve(&linksname) {
                crate::store::ModuleReturnRetrieve::EMPTY => {
                    return Some(AllFrontErrorEnum::MODULE_NOTEXIST);
                },
                crate::store::ModuleReturnRetrieve::UPDATED(rec) => {
                    let _ = self.links.import(rec);
                },
            }
        }
        proof {
            assert(self.blocks_seq() == old(self).blocks_seq());
            assert(self.crons_seq() == old(self).crons_seq());
            assert forall|a: int, b: int|
                0 <= a < b < self.blocks_seq().len() implies self.blocks_seq()[a].0@
                != self.blocks_seq()[b].0@ by {
                assert(old(self).blocks_seq()[a].0@ != old(self).blocks_seq()[b].0@);
            }
            assert forall|j: int|
                0 <= j < self.blocks_seq().len() implies (name_ordinal(
                #[trigger] self.blocks_seq()[j].0@,
            ) matches Some(p) ==> p < self.block_nb()) by {
                assert(name_ordinal(old(self).blocks_seq()[j].0@) matches Some(p) ==> p < old(self).block_nb());
            }
            assert forall|j: int|
                0 <= j < self.blocks_seq().len() implies #[trigger] self.blocks_seq()[j].0@
                != "links"@ by {
                assert(old(self).blocks_seq()[j].0@ != "links"@);
            }
            assert forall|a: int, b: int|
                0 <= a < b < self.crons_seq().len() implies self.crons_seq()[a].0@
                != self.crons_seq()[b].0@ by {
                assert(old(self).crons_seq()[a].0@ != old(self).crons_seq()[b].0@);
            }
        }
        let ghost links_after = self.links_model();
        let n = self.blocks.len();
        let mut i: usize = 0;
        while i < n
            invariant
                self.wf(),
                store.wf(),
                i <= n,
                n == self.blocks_seq().len(),
                same_keys(old(self).blocks_seq(), self.blocks_seq()),
                self.links_model() == links_after,
                self.block_nb() == old(self).block_nb(),
                forall|j: int|
                    i as int <= j < n ==> #[trigger] self.blocks_seq()[j].1@ == old(self).blocks_seq()[j].1@,
                forall|j: int|
                    0 <= j < i as int ==> reloaded_block(
                        *store,
                        user@.userSalt,
                        old(self).blocks_seq()[j].0@,
                        (#[trigger] old(self).blocks_seq()[j].1@),
                        self.blocks_seq()[j].1@,
                        forceUpdate,
                    ),
                !(forceUpdate || old(self).links_model().update > old(self).links_model().sended)
                    ==> links_after == old(self).links_model(),
                (forceUpdate || old(self).links_model().update > old(self).links_model().sended)
                    ==> store.spec_contains("links"@) && ({
                    let srec = store.spec_get("links"@);
                    &&& (links_dec(srec.content) matches Some(ls) ==> links_after.links == ls
                        && links_after.update == srec.timestamp && links_after.sended
                        == srec.timestamp)
                    &&& (links_dec(srec.content) is None ==> links_after == old(self).links_model())
                }),
            decreases n - i,
        {
            if forceUpdate || self.blocks[i].1.cache_mustUpdate() {
                let key = self.blocks[i].0.clone();
                match store.retrieve(&key) {
                    crate::store::ModuleReturnRetrieve::EMPTY => {
                        proof {
                            assert forall|nm: Seq<char>|
                                old(self).blocks_contains(nm) implies self.blocks_contains(nm) by {
                                let j = choose|j: int|
                                    0 <= j < old(self).blocks_seq().len() && old(self).blocks_seq()[j].0@ == nm;
                                assert(self.blocks_seq()[j].0@ == nm);
                            }
                        }
                        return Some(AllFrontErrorEnum::MODULE_NOTEXIST);
                    },
                    crate::store::ModuleReturnRetrieve::UPDATED(rec) => {
                        let mut rec = rec;
                        let ghost m0 = self.blocks_seq()[i as int].1@;
                        match user.decrypt_with_password(&rec.content) {
                            None => {
                                proof {
                                    assert(reloaded_block(
                                        *store,
                                        user@.userSalt,
                                        old(self).blocks_seq()[i as int].0@,
                                        old(self).blocks_seq()[i as int].1@,
                                        self.blocks_seq()[i as int].1@,
                                        forceUpdate,
                                    ));
                                }
                            },
                            Some(pt) => {
                                let ghost ptv = pt@;
                                rec.content = pt;
                                let ghost bs0 = self.blocks@;
                                let ghost cs0 = self.crons_seq();
                                let entry = &mut self.blocks[i];
                                let _ = entry.1.import(rec);
                                proof {
                                    let bs1 = self.blocks@;
                                    assert(bs1 == bs0.update(i as int, bs1[i as int]));
                                    assert(bs1[i as int].0 == bs0[i as int].0);
                                    assert(forall|j: int|
                                        0 <= j < bs1.len() && j != i as int ==> bs1[j] == bs0[j]);
                                    assert forall|a: int, b: int|
                                        0 <= a < b < bs1.len() implies bs1[a].0@ != bs1[b].0@ by {
                                        assert(bs0[a].0@ != bs0[b].0@);
                                    }
                                    assert forall|j: int|
                                        0 <= j < bs1.len() implies (name_ordinal(
                                        #[trigger] bs1[j].0@,
                                    ) matches Some(p) ==> p < self.block_nb()) by {
                                        assert(name_ordinal(bs0[j].0@) matches Some(p) ==> p < self.block_nb());
                                    }
                                    assert(forall|j: int|
                                        0 <= j < bs1.len() ==> #[trigger] bs1[j].0@ != "links"@);
                                    assert(self.crons_seq() == cs0);
                                    assert forall|a: int, b: int|
                                        0 <= a < b < self.crons_seq().len() implies self.crons_seq()[a].0@ != self.crons_seq()[b].0@ by {
                                        assert(cs0[a].0@ != cs0[b].0@);
                                    }
                                    assert(self.blocks_seq()[i as int].1@ == pulled_block(
                                        m0,
                                        store.spec_get(old(self).blocks_seq()[i as int].0@),
                                        ptv,
                                    ));
                                }
                            },
                        }
                        let rt = self.blocks[i].1.inner().refresh_time();
                        self.cron_register(&key, rt);
                        proof {
                            assert(reloaded_block(
                                *store,
                                user@.userSalt,
                                old(self).blocks_seq()[i as int].0@,
                                old(self).blocks_seq()[i as int].1@,
                                self.blocks_seq()[i as int].1@,
                                forceUpdate,
                            ));
                        }
                    },
                }
            }
            i = i + 1;
        }
        let ghost bpre = self.blocks_seq();
        let ghost bnpre = self.block_nb();
        proof {
            assert forall|j: int|
                0 <= j < n implies reloaded_block(
                *store,
                user@.userSalt,
                old(self).blocks_seq()[j].0@,
                (#[trigger] old(self).blocks_seq()[j].1@),
                bpre[j].1@,
                forceUpdate,
            ) by {}
        }
        let mut known: Vec<String> = Vec::new();
        known.push(self.links.typeModule());
        let mut k: usize = 0;
        while k < n
            invariant
                self.wf(),
                store.wf(),
                k <= n,
                n == bpre.len(),
                self.blocks_seq() == bpre,
                self.links_model() == links_after,
                self.block_nb() == old(self).block_nb(),
                same_keys(old(self).blocks_seq(), bpre),
                known@.len() == 1 + k as int,
                known@[0]@ == "links"@,
                forall|j: int| 0 <= j < k as int ==> known@[j + 1]@ == #[trigger] bpre[j].0@,
                forall|j: int|
                    0 <= j < n ==> reloaded_block(
                        *store,
                        user@.userSalt,
                        old(self).blocks_seq()[j].0@,
                        (#[trigger] old(self).blocks_seq()[j].1@),
                        bpre[j].1@,
                        forceUpdate,
                    ),
                !(forceUpdate || old(self).links_model().update > old(self).links_model().sended)
                    ==> links_after == old(self).links_model(),
                (forceUpdate || old(self).links_model().update > old(self).links_model().sended)
                    ==> store.spec_contains("links"@) && ({
                    let srec = store.spec_get("links"@);
                    &&& (links_dec(srec.content) matches Some(ls) ==> links_after.links == ls
                        && links_after.update == srec.timestamp && links_after.sended
                        == srec.timestamp)
                    &&& (links_dec(srec.content) is None ==> links_after == old(self).links_model())
                }),
            decreases n - k,
        {
            known.push(self.blocks[k].0.clone());
            k = k + 1;
        }
        let found = store.retrieveMissingModule(&known);
        let ghost knownv = known@;
        proof {
            assert forall|t: int|
                0 <= t < self.blocks_seq().len() implies key_from(
                bpre,
                found@,
                0,
                #[trigger] self.blocks_seq()[t].0@,
            ) by {
                assert(self.blocks_seq()[t].0@ == bpre[t].0@);
            }
        }
        let mut d: usize = 0;
        while d < found.len()
            invariant
                self.wf(),
                store.wf(),
                self.links_model() == links_after,
                d <= found@.len(),
                n == bpre.len(),
                self.block_nb() >= bnpre,
                bnpre == old(self).block_nb(),
                knownv.len() == 1 + bpre.len(),
                knownv[0]@ == "links"@,
                forall|j: int| 0 <= j < bpre.len() ==> knownv[j + 1]@ == #[trigger] bpre[j].0@,
                same_keys(old(self).blocks_seq(), bpre),
                forall|j: int|
                    0 <= j < found@.len() ==> store.spec_contains(#[trigger] found@[j]@)
                        && !spec_name_in(knownv, found@[j]@),
                forall|nm: Seq<char>|
                    store.spec_contains(nm) && !spec_name_in(knownv, nm) ==> (exists|j: int|
                        0 <= j < found@.len() && #[trigger] found@[j]@ == nm),
                forall|a: int, b: int| 0 <= a < b < found@.len() ==> found@[a]@ != found@[b]@,
                forall|j: int|
                    0 <= j < d as int ==> (name_ordinal(#[trigger] found@[j]@) matches Some(p)
                        ==> p < usize::MAX ==> p < self.block_nb()),
                forall|t: int|
                    0 <= t < self.blocks_seq().len() ==> key_from(
                        bpre,
                        found@,
                        d as int,
                        #[trigger] self.blocks_seq()[t].0@,
                    ),
                bpre.len() <= self.blocks_seq().len(),
                forall|j: int| 0 <= j < bpre.len() ==> #[trigger] self.blocks_seq()[j] == bpre[j],
                forall|j: int|
                    0 <= j < n ==> reloaded_block(
                        *store,
                        user@.userSalt,
                        old(self).blocks_seq()[j].0@,
                        (#[trigger] old(self).blocks_seq()[j].1@),
                        bpre[j].1@,
                        forceUpdate,
                    ),
                user@.userSalt matches Some(p) ==> (forall|j: int|
                    0 <= j < d as int && discovery_applies(*store, p, #[trigger] found@[j]@)
                        ==> (exists|t: int|
                        0 <= t < self.blocks_seq().len() && (#[trigger] self.blocks_seq()[t].0@)
                            == found@[j]@ && self.blocks_seq()[t].1@ == discovered_block(
                            *store,
                            p,
                            found@[j]@,
                        ))),
                !(forceUpdate || old(self).links_model().update > old(self).links_model().sended)
                    ==> links_after == old(self).links_model(),
                (forceUpdate || old(self).links_model().update > old(self).links_model().sended)
                    ==> store.spec_contains("links"@) && ({
                    let srec = store.spec_get("links"@);
                    &&& (links_dec(srec.content) matches Some(ls) ==> links_after.links == ls
                        && links_after.update == srec.timestamp && links_after.sended
                        == srec.timestamp)
                    &&& (links_dec(srec.content) is None ==> links_after == old(self).links_model())
                }),
            decreases found@.len() - d,
        {
            let nm = found[d].clone();
            let mut skip = false;
            match parse_ordinal(nm.as_str()) {
                Some(p) => {
                    if p >= self.blockNb {
                        if p < usize::MAX {
                            let ghost bsnap = self.blocks_seq();
                            let ghost csnap = self.crons_seq();
                            let ghost bn0 = self.block_nb();
                            self.blockNb = p + 1;
                            proof {
                                assert(self.blocks_seq() == bsnap);
                                assert(self.crons_seq() == csnap);
                                assert forall|a: int, b: int|
                                    0 <= a < b < self.blocks_seq().len() implies self.blocks_seq()[a].0@ != self.blocks_seq()[b].0@ by {
                                    assert(bsnap[a].0@ != bsnap[b].0@);
                                }
                                assert forall|j: int|
                                    0 <= j < self.blocks_seq().len() implies (name_ordinal(
                                    #[trigger] self.blocks_seq()[j].0@,
                                ) matches Some(q) ==> q < self.block_nb()) by {
                                    assert(name_ordinal(bsnap[j].0@) matches Some(q) ==> q < bn0);
                                }
                                assert forall|j: int|
                                    0 <= j < self.blocks_seq().len() implies #[trigger] self.blocks_seq()[j].0@ != "links"@ by {
                                    assert(bsnap[j].0@ != "links"@);
                                }
                                assert forall|a: int, b: int|
                                    0 <= a < b < self.crons_seq().len() implies self.crons_seq()[a].0@ != self.crons_seq()[b].0@ by {
                                    assert(csnap[a].0@ != csnap[b].0@);
                                }
                            }
                        } else {
                            skip = true;
                        }
                    }
                },
                None => {},
            }
            if !skip {
                match store.retrieve(&nm) {
                    crate::store::ModuleReturnRetrieve::EMPTY => {
                        return Some(AllFrontErrorEnum::MODULE_NOTEXIST);
                    },
                    crate::store::ModuleReturnRetrieve::UPDATED(rec) => {
                        let mut rec = rec;
                        match user.decrypt_with_password(&rec.content) {
                            None => {},
                            Some(pt) => {
                                let ghost ptv = pt@;
                                rec.content = pt;
                                match ModuleType::newFromModuleContent(&rec) {
                                    None => {},
                                    Some(module) => {
                                        let ghost modulev = module@;
                                        let mp = crate::module_positions::ModulePositions::newFromModuleContent(&rec, module);
                                        let rt = mp.inner().refresh_time();
                                        self.cron_register(&nm, rt);
                                        let ghost bs0 = self.blocks@;
                                        self.blocks.push((nm.clone(), mp));
                                        proof {
                                            let bs1 = self.blocks@;
                                            let len = bs0.len() as int;
                                            assert(bs1[len].0@ == nm@);
                                            assert(forall|j: int| 0 <= j < len ==> bs1[j] == bs0[j]);
                                            assert(nm@ == found@[d as int]@);
                                            assert(!spec_name_in(knownv, nm@));
                                            assert forall|t: int| 0 <= t < len implies bs1[t].0@
                                                != nm@ by {
                                                assert(key_from(bpre, found@, d as int, bs0[t].0@));
                                                if exists|j: int|
                                                    0 <= j < bpre.len() && bs0[t].0@ == #[trigger] bpre[j].0@ {
                                                    let j = choose|j: int|
                                                        0 <= j < bpre.len() && bs0[t].0@ == #[trigger] bpre[j].0@;
                                                    assert(knownv[j + 1]@ == bpre[j].0@);
                                                    assert(spec_name_in(knownv, bpre[j].0@));
                                                } else {
                                                    let j = choose|j: int|
                                                        0 <= j < d as int && bs0[t].0@ == #[trigger] found@[j]@;
                                                    assert(found@[j]@ != found@[d as int]@);
                                                }
                                            }
                                            assert forall|a: int, b: int|
                                                0 <= a < b < bs1.len() implies bs1[a].0@
                                                != bs1[b].0@ by {
                                                if b < len {
                                                    assert(bs0[a].0@ != bs0[b].0@);
                                                }
                                            }
                                            assert(name_ordinal(nm@) matches Some(q) ==> q
                                                < self.block_nb());
                                            assert forall|j: int|
                                                0 <= j < bs1.len() implies (name_ordinal(
                                                #[trigger] bs1[j].0@,
                                            ) matches Some(q) ==> q < self.block_nb()) by {
                                                if j < len {
                                                    assert(name_ordinal(bs0[j].0@) matches Some(q)
                                                        ==> q < self.block_nb());
                                                }
                                            }
                                            assert(nm@ != "links"@) by {
                                                assert(knownv[0]@ == "links"@);
                                                if nm@ == "links"@ {
                                                    assert(spec_name_in(knownv, nm@));
                                                }
                                            }
                                            assert(forall|j: int|
                                                0 <= j < bs1.len() ==> #[trigger] bs1[j].0@
                                                    != "links"@);
                                            match user@.userSalt {
                                                Some(p) => {
                                                    if crate::user_data::decrypt_guaranteed(
                                                        p,
                                                        store.spec_get(nm@).content,
                                                    ) {
                                                        assert(Some(ptv) == crate::user_data::spec_decrypt(p, store.spec_get(nm@).content));
                                                        assert(bs1[len].1@ == discovered_block(
                                                            *store,
                                                            p,
                                                            nm@,
                                                        ));
                                                    }
                                                },
                                                None => {},
                                            }
                                        }
                                    },
                                }
                            },
                        }
                    },
                }
            }
            proof {
                assert(name_ordinal(found@[d as int]@) matches Some(p) ==> p < usize::MAX ==> p
                    < self.block_nb());
                match user@.userSalt {
                    Some(p) => {
                        assert forall|j: int|
                            0 <= j < d as int + 1 && discovery_applies(
                                *store,
                                p,
                                #[trigger] found@[j]@,
                            ) implies (exists|t: int|
                            0 <= t < self.blocks_seq().len() && (
                            #[trigger] self.blocks_seq()[t].0@) == found@[j]@
                                && self.blocks_seq()[t].1@ == discovered_block(
                                *store,
                                p,
                                found@[j]@,
                            )) by {
                            if j == d as int {
                                assert(self.blocks_seq()[self.blocks_seq().len() - 1].0@ == found@[
                                    j
                                ]@ && self.blocks_seq()[self.blocks_seq().len() - 1].1@
                                    == discovered_block(*store, p, found@[j]@));
                            }
                        }
                    },
                    None => {},
                }
            }
            d = d + 1;
        }
        proof {
            assert forall|nm: Seq<char>|
                store.spec_contains(nm) implies (name_ordinal(nm) matches Some(p) ==> p
                < usize::MAX ==> p < final(self).block_nb()) by {
                if spec_name_in(knownv, nm) {
                    let j = choose|j: int| 0 <= j < knownv.len() && knownv[j]@ == nm;
                    if j == 0 {
                        lemma_links_no_ordinal();
                    } else {
                        assert(knownv[j]@ == bpre[j - 1].0@);
                        assert(name_ordinal(bpre[j - 1].0@) matches Some(p) ==> p < bnpre);
                    }
                } else {
                    let j = choose|j: int|
                        0 <= j < found@.len() && #[trigger] found@[j]@ == nm;
                }
            }
            assert forall|nm: Seq<char>|
                old(self).blocks_contains(nm) implies final(self).blocks_contains(nm) by {
                let j = choose|j: int|
                    0 <= j < old(self).blocks_seq().len() && old(self).blocks_seq()[j].0@ == nm;
                assert(bpre[j].0@ == nm);
                assert(final(self).blocks_seq()[j].0@ == nm);
            }
            match user@.userSalt {
                Some(p) => {
                    assert forall|nm: Seq<char>|
                    (#[trigger] store.spec_contains(nm)) && nm != "links"@ && !old(self).blocks_contains(nm) && discovery_applies(*store, p, nm) implies (final(self).blocks_contains(nm) && final(self).blocks_model(nm) == discovered_block(
                    *store,
                    p,
                    nm,
                )) by {
                    assert(!spec_name_in(knownv, nm)) by {
                        if spec_name_in(knownv, nm) {
                            let j = choose|j: int| 0 <= j < knownv.len() && knownv[j]@ == nm;
                            if j == 0 {
                            } else {
                                assert(knownv[j]@ == bpre[j - 1].0@);
                                assert(old(self).blocks_seq()[j - 1].0@ == bpre[j - 1].0@);
                                assert(old(self).blocks_contains(nm));
                            }
                        }
                    }
                    let j = choose|j: int| 0 <= j < found@.len() && #[trigger] found@[j]@ == nm;
                    let t = choose|t: int|
                        0 <= t < final(self).blocks_seq().len() && (
                        #[trigger] final(self).blocks_seq()[t].0@) == found@[j]@ && final(self).blocks_seq()[t].1@ == discovered_block(*store, p, found@[j]@);
                    let g = choose|g: int|
                        0 <= g < final(self).blocks_seq().len() && final(self).blocks_seq()[g].0@
                            == nm;
                    assert(g == t);
                }
                },
                None => {},
            }
        }
        None
    }


    /// Record a local edit of the named block: its edit clock advances,
    /// so it becomes dirty. Says whether the block exists.
    pub fn module_touch(&mut self, name: &String) -> (r: bool)
        requires
            old(self).wf(),
            old(self).blocks_contains(name@) ==> old(self).blocks_model(
                name@,
            ).module.update_clock() < i64::MAX,
        ensures
            final(self).wf(),
            same_keys(old(self).blocks_seq(), final(self).blocks_seq()),
            final(self).links_model() == old(self).links_model(),
            final(self).crons_seq() == old(self).crons_seq(),
            final(self).block_nb() == old(self).block_nb(),
            r == old(self).blocks_contains(name@),
            !r ==> *final(self) == *old(self),
            r ==> ({
                let m0 = old(self).blocks_model(name@);
                let m1 = final(self).blocks_model(name@);
                &&& m1.module.update_clock() > m0.module.update_clock()
                &&& m1.module.sended_clock() == m0.module.sended_clock()
                &&& m1.module.enc() == m0.module.enc()
                &&& m1.module.tag() == m0.module.tag()
                &&& m1.pos0 == m0.pos0 && m1.pos1 == m0.pos1 && m1.size0 == m0.size0 && m1.size1
                    == m0.size1
                &&& (forall|n: Seq<char>|
                    n != name@ ==> (final(self).blocks_contains(n) <==> old(self).blocks_contains(
                        n,
                    )))
                &&& (forall|n: Seq<char>|
                    n != name@ && old(self).blocks_contains(n) ==> final(self).blocks_model(n)
                        == old(self).blocks_model(n))
            }),
    {
        let i = match self.blocks_find(name) {
            Some(i) => i,
            None => {
                return false;
            },
        };
        proof {
            assert(old(self).blocks_seq()[i as int].0@ == name@);
            let g = choose|j: int|
                0 <= j < old(self).blocks_seq().len() && old(self).blocks_seq()[j].0@ == name@;
            assert(g == i as int);
        }
        let entry = &mut self.blocks[i];
        entry.1.cache_touch();
        proof {
            self.lemma_block_replaced(*old(self), i as int, name@);
        }
        true
    }

    /// Apply the acknowledgement of an out-of-band push of the named
    /// block: its send clock takes the acknowledged timestamp. This is
    /// how a transport layer reports a push it carried itself. Says
    /// whether the block exists.
    pub fn module_mark_sent(&mut self, name: &String, t: i64) -> (r: bool)
        requires
            old(self).wf(),
        ensures
            final(self).wf(),
            same_keys(old(self).blocks_seq(), final(self).blocks_seq()),
            final(self).links_model() == old(self).links_model(),
            final(self).crons_seq() == old(self).crons_seq(),
            final(self).block_nb() == old(self).block_nb(),
            r == old(self).blocks_contains(name@),
            !r ==> *final(self) == *old(self),
            r ==> ({
                let m0 = old(self).blocks_model(name@);
                let m1 = final(self).blocks_model(name@);
                &&& m1.module.sended_clock() == t as int
                &&& m1.module.update_clock() == m0.module.update_clock()
                &&& m1.module.enc() == m0.module.enc()
                &&& m1.module.tag() == m0.module.tag()
                &&& m1.pos0 == m0.pos0 && m1.pos1 == m0.pos1 && m1.size0 == m0.size0 && m1.size1
                    == m0.size1
                &&& (forall|n: Seq<char>|
                    n != name@ ==> (final(self).blocks_contains(n) <==> old(self).blocks_contains(
                        n,
                    )))
                &&& (forall|n: Seq<char>|
                    n != name@ && old(self).blocks_contains(n) ==> final(self).blocks_model(n)
                        == old(self).blocks_model(n))
            }),
    {
        let i = match self.blocks_find(name) {
            Some(i) => i,
            None => {
                return false;
            },
        };
        proof {
            assert(old(self).blocks_seq()[i as int].0@ == name@);
            let g = choose|j: int|
                0 <= j < old(self).blocks_seq().len() && old(self).blocks_seq()[j].0@ == name@;
            assert(g == i as int);
        }
        let entry = &mut self.blocks[i];
        entry.1.cache_setSended(t);
        proof {
            self.lemma_block_replaced(*old(self), i as int, name@);
        }
        true
    }

    /// After replacing the block at `i` by one with the same key, the
    /// table is still well-formed and every other name is untouched.
    proof fn lemma_block_replaced(self, pre: ModuleHolder, i: int, name: Seq<char>)
        requires
            pre.wf(),
            0 <= i < pre.blocks_seq().len(),
            pre.blocks_seq()[i].0@ == name,
            self.blocks_seq().len() == pre.blocks_seq().len(),
            forall|j: int|
                0 <= j < self.blocks_seq().len() && j != i ==> #[trigger] self.blocks_seq()[j]
                    == pre.blocks_seq()[j],
            self.blocks_seq()[i].0 == pre.blocks_seq()[i].0,
            self.crons_seq() == pre.crons_seq(),
            self.block_nb() == pre.block_nb(),
        ensures
            self.wf(),
            same_keys(pre.blocks_seq(), self.blocks_seq()),
            self.blocks_contains(name),
            self.blocks_model(name) == self.blocks_seq()[i].1@,
            forall|n: Seq<char>|
                n != name ==> (self.blocks_contains(n) <==> pre.blocks_contains(n)),
            forall|n: Seq<char>|
                n != name && pre.blocks_contains(n) ==> self.blocks_model(n) == pre.blocks_model(
                    n,
                ),
    {
        let bs0 = pre.blocks_seq();
        let bs1 = self.blocks_seq();
        assert forall|a: int, b: int| 0 <= a < b < bs1.len() implies bs1[a].0@ != bs1[b].0@ by {
            assert(bs0[a].0@ != bs0[b].0@);
        }
        assert forall|j: int|
            0 <= j < bs1.len() implies (name_ordinal(#[trigger] bs1[j].0@) matches Some(p) ==> p
            < self.block_nb()) by {
            assert(name_ordinal(bs0[j].0@) matches Some(p) ==> p < pre.block_nb());
        }
        assert forall|j: int| 0 <= j < bs1.len() implies #[trigger] bs1[j].0@ != "links"@ by {
            assert(bs0[j].0@ != "links"@);
        }
        assert forall|a: int, b: int|
            0 <= a < b < self.crons_seq().len() implies self.crons_seq()[a].0@
            != self.crons_seq()[b].0@ by {
            assert(pre.crons_seq()[a].0@ != pre.crons_seq()[b].0@);
        }
        assert(bs1[i].0@ == name);
        let g = choose|j: int| 0 <= j < bs1.len() && bs1[j].0@ == name;
        assert(g == i);
        assert forall|n: Seq<char>|
            n != name && pre.blocks_contains(n) implies self.blocks_contains(n)
            && self.blocks_model(n) == pre.blocks_model(n) by {
            let j = choose|j: int| 0 <= j < bs0.len() && bs0[j].0@ == n;
            assert(j != i);
            assert(bs1[j].0@ == n);
            let j2 = choose|j2: int| 0 <= j2 < bs1.len() && bs1[j2].0@ == n;
            assert(j2 == j);
        }
        assert forall|n: Seq<char>|
            n != name && self.blocks_contains(n) implies pre.blocks_contains(n) by {
            let j = choose|j: int| 0 <= j < bs1.len() && bs1[j].0@ == n;
            assert(j != i);
            assert(bs0[j].0@ == n);
        }
    }

    /// The registered refresh timer of `name`, if any.
    pub fn crons_find(&self, name: &String) -> (r: Option<PausableStocker>)
        requires
            self.wf(),
        ensures
            match r {
                Some(c) => self.crons_contains(name@) && c == self.crons_model(name@),
                None => !self.crons_contains(name@),
            },
    {
        let mut i: usize = 0;
        while i < self.crons.len()
            invariant
                self.wf(),
                i <= self.crons@.len(),
                forall|j: int| 0 <= j < i as int ==> self.crons@[j].0@ != name@,
            decreases self.crons@.len() - i,
    {
            if self.crons[i].0 == *name {
                proof {
                    assert(self.crons_seq()[i as int].0@ == name@);
                    let g = choose|j: int|
                        0 <= j < self.crons_seq().len() && self.crons_seq()[j].0@ == name@;
                    assert(self.crons_seq()[g].0@ == name@);
                    assert(g == i as int);
                }
                return Some(self.crons[i].1);
            }
            i = i + 1;
        }
        None
    }
}

} // verus!
