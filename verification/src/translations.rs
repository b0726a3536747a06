//! The texts of the pages in each language, with a fallback language for
//! the texts a translation lacks.
use vstd::prelude::*;
use vstd::string::*;
use crate::text::str_eq;
use crate::strs::{str_trim, trimmed};

verus! {

/// The value of the first entry named `key`.
pub open spec fn lookup(entries: Seq<(Seq<char>, Seq<char>)>, key: Seq<char>) -> Option<Seq<char>>
    decreases entries.len(),
{
    if entries.len() == 0 {
        None
    } else if entries[0].0 == key {
        Some(entries[0].1)
    } else {
        lookup(entries.drop_first(), key)
    }
}

/// Named strings taken as characters.
pub open spec fn pairs_view(v: Seq<(String, String)>) -> Seq<(Seq<char>, Seq<char>)> {
    v.map_values(|p: (String, String)| (p.0@, p.1@))
}

/// Finds the entry named `key`.
fn find_entry<'a>(entries: &'a Vec<(String, String)>, key: &str) -> (r: Option<&'a String>)
    ensures
        match r {
            Some(v) => lookup(pairs_view(entries@), key@) == Some(v@),
            None => lookup(pairs_view(entries@), key@) is None,
        },
{
    let ghost ev = pairs_view(entries@);
    proof {
        assert(ev.skip(0) =~= ev);
    }
    let mut i: usize = 0;
    while i < entries.len()
        invariant
            i <= entries@.len(),
            ev == pairs_view(entries@),
            lookup(ev, key@) == lookup(ev.skip(i as int), key@),
        decreases entries@.len() - i,
    {
        let ghost rest = ev.skip(i as int);
        assert(rest[0] == ev[i as int]);
        assert(rest.drop_first() =~= ev.skip(i + 1));
        if str_eq(entries[i].0.as_str(), key) {
            return Some(&entries[i].1);
        }
        i += 1;
    }
    assert(ev.skip(i as int) =~= Seq::<(Seq<char>, Seq<char>)>::empty());
    None
}

/// The texts of one language.
#[derive(Clone)]
pub struct Translation {
    name: String,
    entries: Vec<(String, String)>,
    fallback_entries: Vec<(String, String)>,
}

impl Translation {
    /// The language's name.
    pub closed spec fn spec_name(&self) -> Seq<char> {
        self.name@
    }

    /// The language's texts by name.
    pub closed spec fn spec_entries(&self) -> Seq<(Seq<char>, Seq<char>)> {
        pairs_view(self.entries@)
    }

    /// The fallback language's texts by name.
    pub closed spec fn spec_fallback(&self) -> Seq<(Seq<char>, Seq<char>)> {
        pairs_view(self.fallback_entries@)
    }

    /// A translation with its name, its texts, and the fallback texts.
    pub fn new(name: String, entries: Vec<(String, String)>, fallback_entries: Vec<(String, String)>) -> (r: Self)
        ensures
            r.spec_name() == name@,
            r.spec_entries() == pairs_view(entries@),
            r.spec_fallback() == pairs_view(fallback_entries@),
    {
        Translation { name, entries, fallback_entries }
    }

    /// The language's name.
    pub fn name(&self) -> (r: &String)
        ensures
            r@ == self.spec_name(),
    {
        &self.name
    }

    /// The text named `key`, trimmed: the language's own, else the
    /// fallback language's, else the empty string.
    pub fn get(&self, key: &str) -> (r: &str)
        ensures
            r@ == trimmed(match lookup(self.spec_entries(), key@) {
                Some(v) => v,
                None => match lookup(self.spec_fallback(), key@) {
                    Some(v) => v,
                    None => Seq::<char>::empty(),
                },
            }),
    {
        match find_entry(&self.entries, key) {
            Some(v) => str_trim(v.as_str()),
            None => match find_entry(&self.fallback_entries, key) {
                Some(v) => str_trim(v.as_str()),
                None => {
                    let e = crate::text::empty_str();
                    str_trim(e)
                },
            },
        }
    }
}

/// The translations by language code.
pub open spec fn lookup_translation(ts: Seq<(Seq<char>, Translation)>, lang: Seq<char>) -> Option<Translation>
    decreases ts.len(),
{
    if ts.len() == 0 {
        None
    } else if ts[0].0 == lang {
        Some(ts[0].1)
    } else {
        lookup_translation(ts.drop_first(), lang)
    }
}

/// The translations, with the language codes taken as characters.
pub open spec fn translations_view(v: Seq<(String, Translation)>) -> Seq<(Seq<char>, Translation)> {
    v.map_values(|p: (String, Translation)| (p.0@, p.1))
}

/// All translations, the fallback language, and the list of languages
/// (code and name) offered on the pages.
pub struct Translations {
    translations: Vec<(String, Translation)>,
    fallback_lang: String,
    lang_names: Vec<(String, String)>,
}

impl Translations {
    /// The translations by language code.
    pub closed spec fn spec_translations(&self) -> Seq<(Seq<char>, Translation)> {
        translations_view(self.translations@)
    }

    /// The fallback language.
    pub closed spec fn spec_fallback_lang(&self) -> Seq<char> {
        self.fallback_lang@
    }

    /// Whether the fallback language has a translation (which `get` needs).
    pub open spec fn has_fallback(&self) -> bool {
        lookup_translation(self.spec_translations(), self.spec_fallback_lang()) is Some
    }

    /// The languages offered.
    pub closed spec fn spec_names(&self) -> Seq<(Seq<char>, Seq<char>)> {
        pairs_view(self.lang_names@)
    }

    /// The languages offered are kept sorted.
    #[verifier::type_invariant]
    closed spec fn names_sorted(self) -> bool {
        pairs_sorted(pairs_view(self.lang_names@))
    }

    /// The translations by language code, the fallback language, and the
    /// list of languages offered (code and name), which it sorts.
    pub fn from_parts(translations: Vec<(String, Translation)>, fallback_lang: String,
        lang_names: Vec<(String, String)>) -> (r: Self)
        ensures
            r.spec_translations() == translations_view(translations@),
            r.spec_fallback_lang() == fallback_lang@,
            pairs_sorted(r.spec_names()),
            r.spec_names().to_multiset() == pairs_view(lang_names@).to_multiset(),
    {
        let lang_names = sort_names(lang_names);
        Translations { translations, fallback_lang, lang_names }
    }

    fn find(&self, lang: &str) -> (r: Option<&Translation>)
        ensures
            match r {
                Some(t) => lookup_translation(self.spec_translations(), lang@) == Some(*t),
                None => lookup_translation(self.spec_translations(), lang@) is None,
            },
    {
        let ghost tv = translations_view(self.translations@);
        proof {
            assert(tv.skip(0) =~= tv);
        }
        let mut i: usize = 0;
        while i < self.translations.len()
            invariant
                i <= self.translations@.len(),
                tv == translations_view(self.translations@),
                lookup_translation(tv, lang@) == lookup_translation(tv.skip(i as int), lang@),
            decreases self.translations@.len() - i,
        {
            let ghost rest = tv.skip(i as int);
            assert(rest[0] == tv[i as int]);
            assert(rest.drop_first() =~= tv.skip(i + 1));
            if str_eq(self.translations[i].0.as_str(), lang) {
                return Some(&self.translations[i].1);
            }
            i += 1;
        }
        assert(tv.skip(i as int) =~= Seq::<(Seq<char>, Translation)>::empty());
        None
    }

    /// Whether a language has a translation.
    pub open spec fn has_lang(&self, lang: Seq<char>) -> bool {
        lookup_translation(self.spec_translations(), lang) is Some
    }

    /// Whether a language has a translation (see `has_lang`).
    pub fn contains(&self, lang: &str) -> (r: bool)
        ensures
            r == self.has_lang(lang@),
    {
        self.find(lang).is_some()
    }

    /// The translation for a language, or for the fallback language where
    /// there is none (one of them must have one).
    pub fn get(&self, lang: &str) -> (r: &Translation)
        requires
            self.has_lang(lang@) || self.has_fallback(),
        ensures
            *r == match lookup_translation(self.spec_translations(), lang@) {
                Some(t) => t,
                None => lookup_translation(self.spec_translations(), self.spec_fallback_lang())->0,
            },
    {
        match self.find(lang) {
            Some(t) => t,
            None => self.find(self.fallback_lang.as_str()).unwrap(),
        }
    }

    /// Whether the fallback language has a translation.
    pub fn fallback_present(&self) -> (r: bool)
        ensures
            r == self.has_fallback(),
    {
        self.find(self.fallback_lang.as_str()).is_some()
    }

    /// The languages offered: code and name, sorted.
    pub fn names(&self) -> (r: &[(String, String)])
        ensures
            pairs_view(r@) == self.spec_names(),
            pairs_sorted(pairs_view(r@)),
    {
        proof {
            use_type_invariant(self);
        }
        self.lang_names.as_slice()
    }
}


/// Byte strings in lexicographic order (a prefix comes first), as `Ord`
/// orders strings.
pub open spec fn lex_le(a: Seq<u8>, b: Seq<u8>) -> bool
    decreases a.len(),
{
    if a.len() == 0 {
        true
    } else if b.len() == 0 {
        false
    } else if a[0] != b[0] {
        a[0] < b[0]
    } else {
        lex_le(a.drop_first(), b.drop_first())
    }
}

/// Languages ordered by code, then by name, as `Ord` orders pairs of
/// strings.
pub open spec fn pair_le(p: (Seq<char>, Seq<char>), q: (Seq<char>, Seq<char>)) -> bool {
    let a = vstd::utf8::encode_utf8(p.0);
    let b = vstd::utf8::encode_utf8(q.0);
    if a == b {
        lex_le(vstd::utf8::encode_utf8(p.1), vstd::utf8::encode_utf8(q.1))
    } else {
        lex_le(a, b)
    }
}

/// Whether the sequence is in order.
pub open spec fn pairs_sorted(s: Seq<(Seq<char>, Seq<char>)>) -> bool {
    forall|i: int, j: int| 0 <= i < j < s.len() ==> pair_le(#[trigger] s[i], #[trigger] s[j])
}

proof fn lemma_lex_total(a: Seq<u8>, b: Seq<u8>)
    ensures
        lex_le(a, b) || lex_le(b, a),
    decreases a.len(),
{
    if a.len() > 0 && b.len() > 0 && a[0] == b[0] {
        lemma_lex_total(a.drop_first(), b.drop_first());
    }
}

proof fn lemma_lex_antisym(a: Seq<u8>, b: Seq<u8>)
    requires
        lex_le(a, b),
        lex_le(b, a),
    ensures
        a == b,
    decreases a.len(),
{
    if a.len() > 0 && b.len() > 0 {
        lemma_lex_antisym(a.drop_first(), b.drop_first());
        assert(a =~= seq![a[0]] + a.drop_first());
        assert(b =~= seq![b[0]] + b.drop_first());
    }
}

proof fn lemma_lex_trans(a: Seq<u8>, b: Seq<u8>, c: Seq<u8>)
    requires
        lex_le(a, b),
        lex_le(b, c),
    ensures
        lex_le(a, c),
    decreases a.len(),
{
    if a.len() > 0 && b.len() > 0 && c.len() > 0 && a[0] == b[0] && b[0] == c[0] {
        lemma_lex_trans(a.drop_first(), b.drop_first(), c.drop_first());
    }
}

proof fn lemma_pair_total(p: (Seq<char>, Seq<char>), q: (Seq<char>, Seq<char>))
    ensures
        pair_le(p, q) || pair_le(q, p),
{
    lemma_lex_total(vstd::utf8::encode_utf8(p.0), vstd::utf8::encode_utf8(q.0));
    lemma_lex_total(vstd::utf8::encode_utf8(p.1), vstd::utf8::encode_utf8(q.1));
}

proof fn lemma_pair_trans(p: (Seq<char>, Seq<char>), q: (Seq<char>, Seq<char>), r: (Seq<char>, Seq<char>))
    requires
        pair_le(p, q),
        pair_le(q, r),
    ensures
        pair_le(p, r),
{
    let (a, b, c) = (
        vstd::utf8::encode_utf8(p.0),
        vstd::utf8::encode_utf8(q.0),
        vstd::utf8::encode_utf8(r.0),
    );
    let (x, y, z) = (
        vstd::utf8::encode_utf8(p.1),
        vstd::utf8::encode_utf8(q.1),
        vstd::utf8::encode_utf8(r.1),
    );
    if a == b && b == c {
        lemma_lex_trans(x, y, z);
    } else if a == b {
        assert(lex_le(b, c));
    } else if b == c {
        assert(lex_le(a, b));
    } else {
        lemma_lex_trans(a, b, c);
        if a == c {
            lemma_lex_antisym(a, b);
        }
    }
}

/// Whether `a` comes before or equals `b` in lexicographic order.
fn bytes_le(a: &[u8], b: &[u8]) -> (r: bool)
    ensures
        r == lex_le(a@, b@),
{
    let mut i: usize = 0;
    proof {
        assert(a@.skip(0) =~= a@);
        assert(b@.skip(0) =~= b@);
    }
    while i < a.len() && i < b.len() && a[i] == b[i]
        invariant
            i <= a@.len(),
            i <= b@.len(),
            lex_le(a@, b@) == lex_le(a@.skip(i as int), b@.skip(i as int)),
        decreases a@.len() - i,
    {
        assert(a@.skip(i as int).drop_first() =~= a@.skip(i + 1));
        assert(b@.skip(i as int).drop_first() =~= b@.skip(i + 1));
        i += 1;
    }
    if i == a.len() {
        true
    } else if i == b.len() {
        false
    } else {
        assert(a@.skip(i as int)[0] == a@[i as int]);
        assert(b@.skip(i as int)[0] == b@[i as int]);
        a[i] < b[i]
    }
}

/// Whether language `p` comes before or equals `q` (see `pair_le`).
fn name_le(p: &(String, String), q: &(String, String)) -> (r: bool)
    ensures
        r == pair_le((p.0@, p.1@), (q.0@, q.1@)),
{
    let a = p.0.as_str().as_bytes();
    let b = q.0.as_str().as_bytes();
    if crate::text::bytes_eq(a, b) {
        bytes_le(p.1.as_str().as_bytes(), q.1.as_str().as_bytes())
    } else {
        bytes_le(a, b)
    }
}

/// The languages offered, in order of code, then of name (the order of
/// `Ord` on pairs of strings): the same entries, sorted.
pub fn sort_names(names: Vec<(String, String)>) -> (r: Vec<(String, String)>)
    ensures
        pairs_sorted(pairs_view(r@)),
        pairs_view(r@).to_multiset() == pairs_view(names@).to_multiset(),
{
    broadcast use vstd::seq_lib::to_multiset_insert;

    let mut sorted: Vec<(String, String)> = Vec::new();
    let mut names = names;
    let ghost all = pairs_view(names@);
    let ghost mut taken: Seq<(Seq<char>, Seq<char>)> = Seq::empty();
    proof {
        assert(pairs_view(sorted@) =~= Seq::<(Seq<char>, Seq<char>)>::empty());
        assert(all =~= taken + pairs_view(names@));
    }
    while names.len() > 0
        invariant
            all == taken + pairs_view(names@),
            pairs_sorted(pairs_view(sorted@)),
            pairs_view(sorted@).to_multiset() == taken.to_multiset(),
        decreases names@.len(),
    {
        let ghost before_names = pairs_view(names@);
        let x = names.remove(0);
        let ghost xv = (x.0@, x.1@);
        proof {
            assert(before_names[0] == xv);
            assert(pairs_view(names@) =~= before_names.drop_first());
            assert(taken.push(xv) + pairs_view(names@) =~= taken + before_names);
        }
        let ghost sv = pairs_view(sorted@);
        let mut k: usize = 0;
        while k < sorted.len() && name_le(&sorted[k], &x)
            invariant
                k <= sorted@.len(),
                sv == pairs_view(sorted@),
                xv == (x.0@, x.1@),
                forall|i: int| 0 <= i < k ==> pair_le(#[trigger] sv[i], xv),
            decreases sorted@.len() - k,
        {
            assert(sv[k as int] == (sorted@[k as int].0@, sorted@[k as int].1@));
            k += 1;
        }
        proof {
            if k < sv.len() {
                assert(sv[k as int] == (sorted@[k as int].0@, sorted@[k as int].1@));
                lemma_pair_total(sv[k as int], xv);
            }
        }
        sorted.insert(k, x);
        proof {
            let nv = pairs_view(sorted@);
            assert(nv =~= sv.insert(k as int, xv));
            assert forall|i: int, j: int| 0 <= i < j < nv.len() implies pair_le(#[trigger] nv[i], #[trigger] nv[j]) by {
                if j < k {
                    assert(pair_le(sv[i], sv[j]));
                } else if j == k {
                    assert(nv[i] == sv[i]);
                } else if i < k {
                    assert(nv[j] == sv[j - 1]);
                    if j - 1 > k {
                        assert(pair_le(sv[k as int], sv[j - 1]));
                        lemma_pair_trans(xv, sv[k as int], sv[j - 1]);
                    }
                    lemma_pair_trans(sv[i], xv, sv[j - 1]);
                } else if i == k {
                    assert(nv[j] == sv[j - 1]);
                    if j - 1 > k {
                        assert(pair_le(sv[k as int], sv[j - 1]));
                        lemma_pair_trans(xv, sv[k as int], sv[j - 1]);
                    }
                } else {
                    assert(pair_le(sv[i - 1], sv[j - 1]));
                }
            }
            vstd::seq_lib::to_multiset_insert(sv, k as int, xv);
            assert(nv.to_multiset() == sv.to_multiset().insert(xv));
            vstd::seq_lib::to_multiset_build(taken, xv);
            taken = taken.push(xv);
        }
    }
    proof {
        assert(all =~= taken);
    }
    sorted
}

} // verus!
