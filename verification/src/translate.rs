//! Translation books: the fluent resources served to the client, cached
//! per language with a freshness timestamp. Reading the resource files
//! is the application shell's job; this cache only decides what to serve.

use vstd::prelude::*;

verus! {

/// One language's translation resource and when it was produced.
#[derive(Debug, Clone)]
pub struct TranslateBook {
    _timestamp: u64,
    _content: String,
}

impl TranslateBook {
    /// An empty book at the epoch.
    pub fn new() -> (r: Self)
        ensures
            r.spec_time() == 0,
            r.spec_content().len() == 0,
    {
        TranslateBook { _timestamp: 0, _content: String::new() }
    }

    /// The book's content, as the shell loaded it.
    pub closed spec fn spec_content(self) -> Seq<char> {
        self._content@
    }

    /// When the book was produced.
    pub closed spec fn spec_time(self) -> int {
        self._timestamp as int
    }

    /// A book the shell loaded from disk.
    pub fn fromContent(content: String, timestamp: u64) -> (r: Self)
        ensures
            r.spec_content() == content@,
            r.spec_time() == timestamp as int,
    {
        TranslateBook { _timestamp: timestamp, _content: content }
    }

    /// The content and its timestamp.
    pub fn get(&self) -> (r: (String, u64))
        ensures
            r.0@ == self.spec_content(),
            r.1 as int == self.spec_time(),
    {
        (self._content.clone(), self._timestamp)
    }

    pub fn getTime(&self) -> (r: u64)
        ensures
            r as int == self.spec_time(),
    {
        self._timestamp
    }
}

/// The in-memory cache of translation books, one per language.
#[derive(Debug)]
pub struct TranslateManager {
    _datas: Vec<(String, TranslateBook)>,
}

impl TranslateManager {
    /// Whether a book is cached for `lang`.
    pub closed spec fn spec_contains(self, lang: Seq<char>) -> bool {
        exists|j: int| 0 <= j < self._datas@.len() && self._datas@[j].0@ == lang
    }

    /// The book cached for `lang` (meaningful only when present).
    pub closed spec fn spec_book(self, lang: Seq<char>) -> TranslateBook {
        let j = choose|j: int| 0 <= j < self._datas@.len() && self._datas@[j].0@ == lang;
        self._datas@[j].1
    }

    /// Well-formed: at most one book per language.
    pub closed spec fn wf(self) -> bool {
        forall|i: int, j: int|
            0 <= i < j < self._datas@.len() ==> self._datas@[i].0@ != self._datas@[j].0@
    }

    /// An empty cache.
    pub fn new() -> (r: Self)
        ensures
            r.wf(),
            forall|l: Seq<char>| !r.spec_contains(l),
    {
        TranslateManager { _datas: Vec::new() }
    }

    /// Keep only the supported languages; anything else falls back to
    /// English.
    pub fn filterLang(lang: String) -> (r: String)
        ensures
            lang@ == "EN"@ || lang@ == "FR"@ ==> r@ == lang@,
            lang@ != "EN"@ && lang@ != "FR"@ ==> r@ == "EN"@,
    {
        if lang == "EN".to_owned() || lang == "FR".to_owned() {
            lang
        } else {
            "EN".to_owned()
        }
    }

    /// Serve a cached book if it is newer than what the client already
    /// holds: the content when the cached book improves on `timestamp`,
    /// nothing when it is no newer, and no answer at all when the
    /// language is not cached yet (the shell then loads it).
    pub fn getBookContent(&self, lang: String, timestamp: u64) -> (r: Option<
        Option<(String, u64)>,
    >)
        requires
            self.wf(),
        ensures
            r is None <==> !self.spec_contains(spec_filter_lang(lang@)),
            r matches Some(inner) ==> ({
                let b = self.spec_book(spec_filter_lang(lang@));
                &&& (b.spec_time() > timestamp as int ==> (inner matches Some(p) && p.0@
                    == b.spec_content() && p.1 as int == b.spec_time()))
                &&& (b.spec_time() <= timestamp as int ==> inner is None)
            }),
    {
        let flang = Self::filterLang(lang);
        proof {
            assert(flang@ == spec_filter_lang(lang@));
        }
        let mut i: usize = 0;
        while i < self._datas.len()
            invariant
                self.wf(),
                i <= self._datas@.len(),
                flang@ == spec_filter_lang(lang@),
                forall|j: int| 0 <= j < i as int ==> self._datas@[j].0@ != flang@,
            decreases self._datas@.len() - i,
        {
            if self._datas[i].0 == flang {
                proof {
                    assert(self._datas@[i as int].0@ == spec_filter_lang(lang@));
                    let g = choose|j: int|
                        0 <= j < self._datas@.len() && self._datas@[j].0@ == spec_filter_lang(
                            lang@,
                        );
                    assert(self._datas@[g].0@ == spec_filter_lang(lang@));
                    assert(g == i as int);
                }
                if self._datas[i].1.getTime() > timestamp {
                    return Some(Some(self._datas[i].1.get()));
                }
                return Some(None);
            }
            i = i + 1;
        }
        None
    }

    /// Cache a book the shell loaded for `lang`; a language is loaded at
    /// most once.
    pub fn insert(&mut self, lang: String, book: TranslateBook)
        requires
            old(self).wf(),
            !old(self).spec_contains(lang@),
        ensures
            final(self).wf(),
            final(self).spec_contains(lang@),
            final(self).spec_book(lang@) == book,
            forall|l: Seq<char>|
                l != lang@ ==> (final(self).spec_contains(l) <==> old(self).spec_contains(l)),
            forall|l: Seq<char>|
                l != lang@ && old(self).spec_contains(l) ==> final(self).spec_book(l) == old(
                    self,
                ).spec_book(l),
    {
        let ghost ds0 = self._datas@;
        self._datas.push((lang, book));
        proof {
            let ds1 = final(self)._datas@;
            let len = ds0.len() as int;
            assert(ds1[len].1 == book);
            assert(forall|j: int| 0 <= j < len ==> ds1[j] == ds0[j]);
            assert(forall|j: int| 0 <= j < len ==> ds0[j].0@ != ds1[len].0@);
            let g = choose|j: int| 0 <= j < ds1.len() && ds1[j].0@ == ds1[len].0@;
            assert(g == len);
            assert forall|l: Seq<char>|
                l != ds1[len].0@ && old(self).spec_contains(l) implies final(self).spec_contains(
                l,
            ) && final(self).spec_book(l) == old(self).spec_book(l) by {
                let j = choose|j: int| 0 <= j < ds0.len() && ds0[j].0@ == l;
                assert(ds1[j].0@ == l);
                let j2 = choose|j2: int| 0 <= j2 < ds1.len() && ds1[j2].0@ == l;
                assert(j2 == j);
            }
            assert forall|l: Seq<char>|
                l != ds1[len].0@ && final(self).spec_contains(l) implies old(self).spec_contains(
                l,
            ) by {
                let j = choose|j: int| 0 <= j < ds1.len() && ds1[j].0@ == l;
                assert(j != len);
                assert(ds0[j].0@ == l);
            }
        }
    }
}

/// The normalized language a request is served in.
pub open spec fn spec_filter_lang(lang: Seq<char>) -> Seq<char> {
    if lang == "EN"@ || lang == "FR"@ {
        lang
    } else {
        "EN"@
    }
}

} // verus!
