//! The links module: an ordered list of labeled links, the fixed
//! `"links"` singleton of every dashboard. Its configuration is the list
//! itself, serialized with the field codec and proved to round-trip.

use vstd::prelude::*;
use crate::clock::Cache;
use crate::codec::spec_strlist;
use crate::codec::strs_views;
use crate::codec::take_strlist;
use crate::codec::push_strlist;
use crate::codec::take_strlist_str;
use crate::codec::lemma_take_strlist;
use crate::components::ModuleSizeContrainte;
use crate::components::RefreshTime;
use crate::front_enum::AllFrontUIEnum;
use crate::record::ModuleContent;
use crate::security::url_valid;
use crate::security::url_ok;

verus! {

/// One link: a label shown to the user and the address behind it.
#[derive(Debug, Clone)]
pub struct Link {
    pub label: String,
    pub url: String,
}

/// The mathematical model of a link.
pub struct LinkModel {
    pub label: Seq<char>,
    pub url: Seq<char>,
}

impl View for Link {
    type V = LinkModel;

    open spec fn view(&self) -> LinkModel {
        LinkModel { label: self.label@, url: self.url@ }
    }
}

impl Link {
    pub fn new(label: String, url: String) -> (r: Self)
        ensures
            r@.label == label@,
            r@.url == url@,
    {
        Link { label, url }
    }

    /// A copy of this link, equal to it in the model.
    pub fn duplicate(&self) -> (r: Self)
        ensures
            r@ == self@,
    {
        Link { label: self.label.clone(), url: self.url.clone() }
    }
}

/// The views of a sequence of links.
pub open spec fn links_views(ls: Seq<Link>) -> Seq<LinkModel> {
    ls.map_values(|l: Link| l@)
}

/// A link list flattened to texts: label and address of each in turn.
pub open spec fn links_to_strs(ls: Seq<LinkModel>) -> Seq<Seq<char>>
    decreases ls.len(),
{
    if ls.len() == 0 {
        Seq::empty()
    } else {
        seq![ls.first().label, ls.first().url] + links_to_strs(ls.drop_first())
    }
}

/// Texts paired back into links; nothing if the count is odd.
pub open spec fn strs_to_links(ss: Seq<Seq<char>>) -> Option<Seq<LinkModel>>
    decreases ss.len(),
{
    if ss.len() == 0 {
        Some(Seq::empty())
    } else if ss.len() == 1 {
        None
    } else {
        match strs_to_links(ss.skip(2)) {
            Some(r) => Some(seq![LinkModel { label: ss[0], url: ss[1] }] + r),
            None => None,
        }
    }
}

/// The serialized form of a link list.
pub open spec fn links_enc(ls: Seq<LinkModel>) -> Seq<char> {
    spec_strlist(links_to_strs(ls))
}

/// Read a link list back out of its serialized form.
pub open spec fn links_dec(s: Seq<char>) -> Option<Seq<LinkModel>> {
    match take_strlist(s) {
        Some(p) => if p.1.len() == 0 {
            strs_to_links(p.0)
        } else {
            None
        },
        None => None,
    }
}

/// Flattening one more link appends its two texts.
proof fn lemma_links_to_strs_push(ls: Seq<LinkModel>, l: LinkModel)
    ensures
        links_to_strs(ls.push(l)) == links_to_strs(ls) + seq![l.label, l.url],
    decreases ls.len(),
{
    if ls.len() == 0 {
        assert(ls.push(l).drop_first() =~= Seq::<LinkModel>::empty());
        assert(links_to_strs(Seq::<LinkModel>::empty()) == Seq::<Seq<char>>::empty());
        assert(links_to_strs(ls.push(l)) == seq![l.label, l.url] + Seq::<Seq<char>>::empty());
        assert(seq![l.label, l.url] + Seq::<Seq<char>>::empty() =~= links_to_strs(ls) + seq![
            l.label,
            l.url,
        ]);
    } else {
        assert(ls.push(l).first() == ls.first());
        assert(ls.push(l).drop_first() =~= ls.drop_first().push(l));
        lemma_links_to_strs_push(ls.drop_first(), l);
        assert(links_to_strs(ls.push(l)) == seq![ls.first().label, ls.first().url] + (links_to_strs(
            ls.drop_first(),
        ) + seq![l.label, l.url]));
        assert(seq![ls.first().label, ls.first().url] + (links_to_strs(ls.drop_first()) + seq![
            l.label,
            l.url,
        ]) =~= links_to_strs(ls) + seq![l.label, l.url]);
    }
}

/// Law: pairing inverts flattening.
pub proof fn lemma_strs_links_inverse(ls: Seq<LinkModel>)
    ensures
        strs_to_links(links_to_strs(ls)) == Some(ls),
        links_to_strs(ls).len() == 2 * ls.len(),
    decreases ls.len(),
{
    if ls.len() == 0 {
    } else {
        lemma_strs_links_inverse(ls.drop_first());
        let ss = links_to_strs(ls);
        assert(ss == seq![ls.first().label, ls.first().url] + links_to_strs(ls.drop_first()));
        assert(ss.skip(2) =~= links_to_strs(ls.drop_first()));
        assert(ss[0] == ls.first().label);
        assert(ss[1] == ls.first().url);
        assert(seq![LinkModel { label: ss[0], url: ss[1] }] + ls.drop_first() =~= ls);
    }
}

/// Law: a serialized link list reads back to itself.
pub proof fn lemma_links_round_trip(ls: Seq<LinkModel>)
    requires
        2 * ls.len() <= usize::MAX,
        forall|i: int|
            0 <= i < ls.len() ==> (#[trigger] ls[i]).label.len() <= usize::MAX && ls[i].url.len()
                <= usize::MAX,
    ensures
        links_dec(links_enc(ls)) == Some(ls),
{
    let ss = links_to_strs(ls);
    lemma_strs_links_inverse(ls);
    assert(forall|i: int| 0 <= i < ss.len() ==> #[trigger] ss[i].len() <= usize::MAX) by {
        lemma_links_to_strs_bound(ls);
    }
    lemma_take_strlist(ss, Seq::<char>::empty());
    assert(spec_strlist(ss) + Seq::<char>::empty() =~= spec_strlist(ss));
}

/// Every flattened text is a label or an address of the list.
proof fn lemma_links_to_strs_bound(ls: Seq<LinkModel>)
    requires
        forall|i: int|
            0 <= i < ls.len() ==> (#[trigger] ls[i]).label.len() <= usize::MAX && ls[i].url.len()
                <= usize::MAX,
    ensures
        forall|i: int| 0 <= i < links_to_strs(ls).len() ==> #[trigger] links_to_strs(ls)[i].len()
            <= usize::MAX,
    decreases ls.len(),
{
    if ls.len() == 0 {
    } else {
        assert(forall|i: int|
            0 <= i < ls.drop_first().len() ==> #[trigger] ls.drop_first()[i] == ls[i + 1]);
        lemma_links_to_strs_bound(ls.drop_first());
        let ss = links_to_strs(ls);
        let tail = links_to_strs(ls.drop_first());
        assert(forall|i: int| 2 <= i < ss.len() ==> ss[i] == #[trigger] tail[i - 2]);
        assert(ss[0] == ls.first().label && ss[1] == ls.first().url);
        assert(ls.first() == ls[0]);
    }
}

/// Serialize a link list.
pub fn links_encode(links: &Vec<Link>) -> (r: String)
    ensures
        r@ == links_enc(links_views(links@)),
{
    let mut flat: Vec<String> = Vec::new();
    let mut i: usize = 0;
    while i < links.len()
        invariant
            i <= links@.len(),
            strs_views(flat@) == links_to_strs(links_views(links@.take(i as int))),
        decreases links@.len() - i,
    {
        let ghost flat0 = flat@;
        flat.push(links[i].label.clone());
        flat.push(links[i].url.clone());
        proof {
            let pre = links_views(links@.take(i as int));
            let cur = links_views(links@.take(i as int + 1));
            assert(cur =~= pre.push(links@[i as int]@));
            lemma_links_to_strs_push(pre, links@[i as int]@);
            assert(strs_views(flat@) =~= strs_views(flat0) + seq![
                links@[i as int]@.label,
                links@[i as int]@.url,
            ]);
        }
        i = i + 1;
    }
    proof {
        assert(links@.take(links@.len() as int) =~= links@);
    }
    let mut out = String::new();
    push_strlist(&flat, &mut out);
    out
}

/// Read a link list back out of its serialized form.
pub fn links_decode(s: &str) -> (r: Option<Vec<Link>>)
    ensures
        match r {
            Some(v) => links_dec(s@) == Some(links_views(v@)),
            None => links_dec(s@) is None,
        },
{
    proof {
        assert(s@.skip(0) =~= s@);
    }
    let (flat, pos) = match take_strlist_str(s, 0) {
        Some(p) => p,
        None => {
            return None;
        },
    };
    if pos != s.unicode_len() {
        proof {
            assert(s@.skip(pos as int).len() > 0);
        }
        return None;
    }
    proof {
        assert(s@.skip(pos as int).len() == 0);
    }
    let ghost ss = strs_views(flat@);
    let mut out: Vec<Link> = Vec::new();
    proof {
        assert(ss.skip(0) =~= ss);
        match strs_to_links(ss) {
            Some(tl) => {
                assert(links_views(out@) + tl =~= tl);
            },
            None => {},
        }
    }
    let mut i: usize = 0;
    while i + 1 < flat.len()
        invariant
            i <= flat@.len(),
            i % 2 == 0,
            out@.len() * 2 == i,
            ss == strs_views(flat@),
            match strs_to_links(ss.skip(i as int)) {
                Some(tl) => strs_to_links(ss) == Some(links_views(out@) + tl),
                None => strs_to_links(ss) is None,
            },
        decreases flat@.len() - i,
    {
        let ghost out0 = out@;
        let link = Link { label: flat[i].clone(), url: flat[i + 1].clone() };
        out.push(link);
        proof {
            let cur = ss.skip(i as int);
            assert(cur.len() >= 2);
            assert(cur[0] == ss[i as int] && cur[1] == ss[i as int + 1]);
            assert(cur.skip(2) =~= ss.skip(i as int + 2));
            assert(links_views(out@) =~= links_views(out0).push(out@[out0.len() as int]@));
            assert(out@[out0.len() as int]@ == LinkModel { label: ss[i as int], url: ss[i as int + 1] });
            match strs_to_links(ss.skip(i as int + 2)) {
                Some(tl) => {
                    assert(strs_to_links(cur) == Some(
                        seq![LinkModel { label: cur[0], url: cur[1] }] + tl,
                    ));
                    assert(links_views(out@) + tl =~= links_views(out0) + (seq![
                        LinkModel { label: cur[0], url: cur[1] },
                    ] + tl));
                },
                None => {},
            }
        }
        i = i + 2;
    }
    if i < flat.len() {
        proof {
            assert(ss.skip(i as int).len() == 1);
            assert(strs_to_links(ss) is None);
        }
        return None;
    }
    proof {
        assert(ss.skip(i as int).len() == 0);
        assert(strs_to_links(ss.skip(i as int)) == Some(Seq::<LinkModel>::empty()));
        assert(links_views(out@) + Seq::<LinkModel>::empty() =~= links_views(out@));
    }
    Some(out)
}

/// The model of the links module: its list and its two clocks.
pub struct LinksHolderModel {
    pub links: Seq<LinkModel>,
    pub update: int,
    pub sended: int,
}

/// The links module itself: the list, the clock of the last local edit,
/// and the clock of the last acknowledged synchronization.
#[derive(Debug)]
pub struct LinksHolder {
    content: Vec<Link>,
    update: Cache,
    sended: Cache,
}

impl View for LinksHolder {
    type V = LinksHolderModel;

    closed spec fn view(&self) -> LinksHolderModel {
        LinksHolderModel {
            links: links_views(self.content@),
            update: self.update.timestamp(),
            sended: self.sended.timestamp(),
        }
    }
}

/// The first link labeled `label` removed from `ls`; `ls` itself if none is.
pub open spec fn remove_first_label(ls: Seq<LinkModel>, label: Seq<char>) -> Seq<LinkModel>
    decreases ls.len(),
{
    if ls.len() == 0 {
        ls
    } else if ls.first().label == label {
        ls.drop_first()
    } else {
        seq![ls.first()] + remove_first_label(ls.drop_first(), label)
    }
}

impl LinksHolder {
    /// Whether local edits have outrun the last acknowledged send.
    pub open spec fn spec_must_sync(self) -> bool {
        self@.update > self@.sended
    }

    /// A fresh, empty links module; both clocks start equal.
    pub fn new() -> (r: Self)
        ensures
            r@.links.len() == 0,
            r@.update == r@.sended,
    {
        let c = Cache::default();
        LinksHolder { content: Vec::new(), update: c, sended: c }
    }

    /// The links, in display order.
    pub fn links(&self) -> (r: &Vec<Link>)
        ensures
            links_views(r@) == self@.links,
    {
        &self.content
    }

    /// Record a local edit made outside the configuration (layout drag):
    /// the edit clock advances, so the module becomes dirty.
    pub fn cache_touch(&mut self)
        requires
            old(self)@.update < i64::MAX,
        ensures
            final(self)@.update > old(self)@.update,
            final(self)@.sended == old(self)@.sended,
            final(self)@.links == old(self)@.links,
    {
        self.update.update();
    }

    pub fn cache_mustUpdate(&self) -> (r: bool)
        ensures
            r == self.spec_must_sync(),
    {
        self.update.isNewer(&self.sended)
    }

    pub fn cache_getUpdate(&self) -> (r: Cache)
        ensures
            r.timestamp() == self@.update,
    {
        self.update
    }

    pub fn cache_getSended(&self) -> (r: Cache)
        ensures
            r.timestamp() == self@.sended,
    {
        self.sended
    }

    /// Record that a push of the record stamped `t` was acknowledged.
    pub fn cache_setSended(&mut self, t: i64)
        ensures
            final(self)@.sended == t as int,
            final(self)@.update == old(self)@.update,
            final(self)@.links == old(self)@.links,
    {
        self.sended.update_from(t);
    }

    pub fn typeModule(&self) -> (r: String)
        ensures
            r@ == "links"@,
    {
        "links".to_owned()
    }

    pub fn refresh_time(&self) -> (r: RefreshTime)
        ensures
            r == RefreshTime::NONE,
    {
        RefreshTime::NONE
    }

    pub fn size(&self) -> (r: ModuleSizeContrainte)
        ensures
            r.x_min is None && r.x_max is None && r.y_min is None && r.y_max is None,
    {
        ModuleSizeContrainte::default()
    }

    /// Add a link. An empty address or label is refused, as is an address
    /// the URL syntax check rejects; otherwise any link already carrying
    /// the same label is dropped, the new link is appended at the end, and
    /// the edit clock advances: the module becomes dirty.
    pub fn links_add(&mut self, label: String, url: String) -> (r: Option<AllFrontUIEnum>)
        requires
            old(self)@.update < i64::MAX,
        ensures
            url@.len() == 0 ==> r == Some(AllFrontUIEnum::MUST_NOT_EMPTY),
            url@.len() > 0 && label@.len() == 0 ==> r == Some(AllFrontUIEnum::MUST_NOT_EMPTY),
            url@.len() > 0 && label@.len() > 0 && !url_ok(url@) ==> r == Some(
                AllFrontUIEnum::INVALID_URL,
            ),
            r is Some ==> *final(self) == *old(self),
            r is None <==> url@.len() > 0 && label@.len() > 0 && url_ok(url@),
            r is None ==> final(self)@.links == remove_first_label(old(self)@.links, label@).push(
                LinkModel { label: label@, url: url@ },
            ),
            r is None ==> final(self)@.update > old(self)@.update && final(self)@.sended == old(
                self,
            )@.sended,
    {
        if url.as_str().unicode_len() == 0 {
            return Some(AllFrontUIEnum::MUST_NOT_EMPTY);
        }
        if label.as_str().unicode_len() == 0 {
            return Some(AllFrontUIEnum::MUST_NOT_EMPTY);
        }
        if !url_valid(url.as_str()) {
            return Some(AllFrontUIEnum::INVALID_URL);
        }
        let ghost ls0 = links_views(self.content@);
        let mut i: usize = 0;
        let mut found: Option<usize> = None;
        while i < self.content.len()
            invariant_except_break
                found is None,
                forall|j: int| 0 <= j < i as int ==> links_views(self.content@)[j].label != label@,
            invariant
                i <= self.content@.len(),
            ensures
                i <= self.content@.len(),
                match found {
                    Some(k) => k < self.content@.len() && links_views(self.content@)[
                        k as int
                    ].label == label@ && forall|j: int|
                        0 <= j < k as int ==> links_views(self.content@)[j].label != label@,
                    None => forall|j: int|
                        0 <= j < self.content@.len() ==> links_views(self.content@)[j].label
                            != label@,
                },
            decreases self.content@.len() - i,
        {
            if self.content[i].label == label {
                found = Some(i);
                break ;
            }
            i = i + 1;
        }
        match found {
            Some(k) => {
                self.content.remove(k);
                proof {
                    lemma_remove_first_label(ls0, label@, k as int);
                    assert(links_views(self.content@) =~= ls0.subrange(0, k as int) + ls0.subrange(
                        k as int + 1,
                        ls0.len() as int,
                    ));
                }
            },
            None => {
                proof {
                    lemma_remove_first_label_absent(ls0, label@);
                }
            },
        }
        self.content.push(Link::new(label, url));
        self.update.update();
        proof {
            assert(links_views(final(self).content@) =~= remove_first_label(ls0, label@).push(
                final(self).content@.last()@,
            ));
        }
        None
    }

    /// Remove the link at `pos`; the edit clock advances.
    pub fn links_remove(&mut self, pos: usize) -> (r: bool)
        requires
            old(self)@.update < i64::MAX,
        ensures
            r == (pos < old(self)@.links.len()),
            !r ==> *final(self) == *old(self),
            r ==> final(self)@.links == old(self)@.links.remove(pos as int),
            r ==> final(self)@.update > old(self)@.update && final(self)@.sended == old(
                self,
            )@.sended,
    {
        if pos >= self.content.len() {
            return false;
        }
        self.content.remove(pos);
        self.update.update();
        proof {
            assert(links_views(final(self).content@) =~= links_views(old(self).content@).remove(
                pos as int,
            ));
        }
        true
    }

    /// Move the link at `origin` so that it sits at `target`; the edit
    /// clock advances.
    pub fn links_move(&mut self, origin: usize, target: usize)
        requires
            origin < old(self)@.links.len(),
            target < old(self)@.links.len(),
            old(self)@.update < i64::MAX,
        ensures
            final(self)@.links == old(self)@.links.remove(origin as int).insert(
                target as int,
                old(self)@.links[origin as int],
            ),
            final(self)@.update > old(self)@.update,
            final(self)@.sended == old(self)@.sended,
    {
        let moved = self.content[origin].duplicate();
        self.content.remove(origin);
        self.content.insert(target, moved);
        self.update.update();
        proof {
            assert(links_views(final(self).content@) =~= links_views(old(self).content@).remove(
                origin as int,
            ).insert(target as int, old(self).content@[origin as int]@));
        }
    }

    /// Serialize this module into a record named and typed `"links"`,
    /// stamped with the edit clock.
    pub fn export(&self) -> (r: ModuleContent)
        ensures
            r@.name == "links"@,
            r@.type_tag == "links"@,
            r@.timestamp == self@.update,
            r@.content == links_enc(self@.links),
            r@.pos0 == 0 && r@.pos1 == 0 && r@.size0 == 0 && r@.size1 == 0 && r@.depth == 0,
    {
        let mut r = ModuleContent::new(self.typeModule(), self.typeModule());
        r.timestamp = self.update.get();
        r.content = links_encode(&self.content);
        r
    }

    /// Replace this module's list with a record's content, when that
    /// content parses; both clocks take the record's timestamp, so the
    /// module is clean afterwards. A record that does not parse leaves
    /// the module untouched.
    pub fn import(&mut self, import: ModuleContent) -> (r: bool)
        ensures
            r == (links_dec(import@.content) is Some),
            !r ==> *final(self) == *old(self),
            r ==> final(self)@.links == links_dec(import@.content).unwrap(),
            r ==> final(self)@.update == import@.timestamp && final(self)@.sended
                == import@.timestamp,
    {
        match links_decode(import.content.as_str()) {
            Some(links) => {
                self.content = links;
                self.update.update_from(import.timestamp);
                self.sended.update_from(import.timestamp);
                true
            },
            None => false,
        }
    }

    /// A fresh links module for a stored record; the content itself is
    /// pulled in by a later import.
    pub fn newFromModuleContent(from: &ModuleContent) -> (r: Option<LinksHolder>)
        ensures
            r matches Some(h) ==> h@.links.len() == 0 && h@.update == h@.sended,
            r is Some,
    {
        Some(Self::new())
    }
}

/// Removing the first occurrence of a label is cutting out its index.
proof fn lemma_remove_first_label(ls: Seq<LinkModel>, label: Seq<char>, k: int)
    requires
        0 <= k < ls.len(),
        ls[k].label == label,
        forall|j: int| 0 <= j < k ==> ls[j].label != label,
    ensures
        remove_first_label(ls, label) == ls.subrange(0, k) + ls.subrange(k + 1, ls.len() as int),
    decreases k,
{
    if k == 0 {
        assert(ls.first().label == label);
        assert(ls.drop_first() =~= ls.subrange(0, 0) + ls.subrange(1, ls.len() as int));
    } else {
        assert(ls.first().label != label);
        let t = ls.drop_first();
        assert(forall|j: int| 0 <= j < t.len() ==> t[j] == ls[j + 1]);
        lemma_remove_first_label(t, label, k - 1);
        assert(seq![ls.first()] + (t.subrange(0, k - 1) + t.subrange(k, t.len() as int)) =~= ls.subrange(
            0,
            k,
        ) + ls.subrange(k + 1, ls.len() as int));
    }
}

/// A label that occurs nowhere removes nothing.
proof fn lemma_remove_first_label_absent(ls: Seq<LinkModel>, label: Seq<char>)
    requires
        forall|j: int| 0 <= j < ls.len() ==> ls[j].label != label,
    ensures
        remove_first_label(ls, label) == ls,
    decreases ls.len(),
{
    if ls.len() > 0 {
        let t = ls.drop_first();
        assert(forall|j: int| 0 <= j < t.len() ==> t[j] == ls[j + 1]);
        lemma_remove_first_label_absent(t, label);
        assert(seq![ls.first()] + t =~= ls);
    }
}

} // verus!
