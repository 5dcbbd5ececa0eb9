//! What the post and media editors share about translations: drafts kept
//! per language while another language is edited, and the languages that
//! get a flag.

use vstd::prelude::*;
use crate::sorting::{lex_sorted, sort_strings};
use crate::text::strs_view;
use crate::text::{copy_str, str_eq};

verus! {

broadcast use vstd::seq_lib::group_to_multiset_ensures;

/// The draft of `lang` among `(language, draft)` entries: that of its first
/// entry.
pub open spec fn lookup<V>(d: Seq<(Seq<char>, V)>, lang: Seq<char>) -> Option<V>
    decreases d.len(),
{
    if d.len() == 0 {
        None
    } else if d[0].0 == lang {
        Some(d[0].1)
    } else {
        lookup(d.drop_first(), lang)
    }
}

/// `d` with the draft of `lang` set to `f`: its first entry replaced, or a
/// new entry at the end.
pub open spec fn upsert<V>(d: Seq<(Seq<char>, V)>, lang: Seq<char>, f: V) -> Seq<(Seq<char>, V)>
    decreases d.len(),
{
    if d.len() == 0 {
        seq![(lang, f)]
    } else if d[0].0 == lang {
        d.update(0, (lang, f))
    } else {
        seq![d[0]] + upsert(d.drop_first(), lang, f)
    }
}

/// Setting the draft of `lang` replaces its first entry.
pub proof fn lemma_upsert_at<V>(d: Seq<(Seq<char>, V)>, lang: Seq<char>, f: V, i: int)
    requires
        0 <= i < d.len(),
        d[i].0 == lang,
        forall|k: int| 0 <= k < i ==> d[k].0 != lang,
    ensures
        upsert(d, lang, f) == d.update(i, (lang, f)),
    decreases i,
{
    if i > 0 {
        let t = d.drop_first();
        assert forall|k: int| 0 <= k < i - 1 implies t[k].0 != lang by {
            assert(t[k] == d[k + 1]);
        }
        lemma_upsert_at(t, lang, f, i - 1);
        assert(seq![d[0]] + t.update(i - 1, (lang, f)) =~= d.update(i, (lang, f)));
    }
}

/// Setting the draft of a language without one appends an entry.
pub proof fn lemma_upsert_absent<V>(d: Seq<(Seq<char>, V)>, lang: Seq<char>, f: V)
    requires
        forall|k: int| 0 <= k < d.len() ==> d[k].0 != lang,
    ensures
        upsert(d, lang, f) == d.push((lang, f)),
    decreases d.len(),
{
    if d.len() > 0 {
        let t = d.drop_first();
        assert forall|k: int| 0 <= k < t.len() implies t[k].0 != lang by {
            assert(t[k] == d[k + 1]);
        }
        lemma_upsert_absent(t, lang, f);
        assert(seq![d[0]] + t.push((lang, f)) =~= d.push((lang, f)));
    }
}

/// After setting the draft of `lang`, looking it up gives that draft and
/// other languages keep theirs.
pub proof fn lemma_lookup_upsert<V>(d: Seq<(Seq<char>, V)>, lang: Seq<char>, f: V, other: Seq<char>)
    ensures
        lookup(upsert(d, lang, f), lang) == Some(f),
        other != lang ==> lookup(upsert(d, lang, f), other) == lookup(d, other),
    decreases d.len(),
{
    let u = upsert(d, lang, f);
    if d.len() > 0 {
        if d[0].0 == lang {
            assert(u.drop_first() =~= d.drop_first());
            assert(u[0] == (lang, f));
        } else {
            lemma_lookup_upsert(d.drop_first(), lang, f, other);
            assert(u.drop_first() =~= upsert(d.drop_first(), lang, f));
            assert(u[0] == d[0]);
        }
    } else {
        assert(u.drop_first() =~= Seq::<(Seq<char>, V)>::empty());
        assert(u[0] == (lang, f));
        assert(lookup(u.drop_first(), other) is None);
    }
}

/// The languages of `d` among `(language, draft)` entries, in order.
pub open spec fn entry_languages<V>(d: Seq<(Seq<char>, V)>) -> Seq<Seq<char>> {
    d.map_values(|e: (Seq<char>, V)| e.0)
}

/// The languages of `s` other than `x`, in order.
pub open spec fn without_lang(s: Seq<Seq<char>>, x: Seq<char>) -> Seq<Seq<char>>
    decreases s.len(),
{
    if s.len() == 0 {
        s
    } else {
        let r = without_lang(s.drop_last(), x);
        if s.last() == x { r } else { r.push(s.last()) }
    }
}

/// `langs` followed by each of `drafts` that is neither `canonical` nor
/// listed by then.
pub open spec fn add_missing(langs: Seq<Seq<char>>, drafts: Seq<Seq<char>>, canonical: Seq<char>) -> Seq<Seq<char>>
    decreases drafts.len(),
{
    if drafts.len() == 0 {
        langs
    } else {
        let l = drafts[0];
        let next = if l != canonical && !langs.contains(l) { langs.push(l) } else { langs };
        add_missing(next, drafts.drop_first(), canonical)
    }
}

/// The languages that get a flag after the canonical one, before sorting:
/// the configured languages other than the canonical one, then each draft
/// language that is not canonical and not listed yet.
pub open spec fn flag_language_list(canonical: Seq<char>, configured: Seq<Seq<char>>, drafts: Seq<Seq<char>>) -> Seq<Seq<char>> {
    add_missing(without_lang(configured, canonical), drafts, canonical)
}

/// Whether one of `v` equals `s`.
pub fn strs_contain(v: &Vec<String>, s: &str) -> (res: bool)
    ensures
        res == strs_view(v@).contains(s@),
{
    let mut i: usize = 0;
    while i < v.len()
        invariant
            i <= v@.len(),
            forall|k: int| 0 <= k < i ==> strs_view(v@)[k] != s@,
        decreases v@.len() - i,
    {
        if str_eq(v[i].as_str(), s) {
            assert(strs_view(v@)[i as int] == s@);
            return true;
        }
        i = i + 1;
    }
    false
}

/// The languages that get a flag after the canonical one, sorted as
/// strings are: the configured languages other than the canonical one and
/// the draft languages, each draft language once.
pub fn flag_languages(canonical: &str, configured: &[String], drafts: &[String]) -> (res: Vec<String>)
    ensures
        strs_view(res@).to_multiset() == flag_language_list(canonical@, strs_view(configured@), strs_view(drafts@)).to_multiset(),
        lex_sorted(strs_view(res@)),
{
    let ghost cv = strs_view(configured@);
    let ghost dv = strs_view(drafts@);
    let mut langs: Vec<String> = Vec::new();
    let mut i: usize = 0;
    while i < configured.len()
        invariant
            i <= configured@.len(),
            cv == strs_view(configured@),
            strs_view(langs@) == without_lang(cv.take(i as int), canonical@),
        decreases configured@.len() - i,
    {
        proof {
            assert(cv.take(i + 1).drop_last() =~= cv.take(i as int));
        }
        if !str_eq(configured[i].as_str(), canonical) {
            let s = copy_str(configured[i].as_str());
            langs.push(s);
            assert(strs_view(langs@) =~= without_lang(cv.take(i + 1), canonical@));
        }
        i = i + 1;
    }
    assert(cv.take(configured@.len() as int) =~= cv);
    let ghost base = strs_view(langs@);
    assert(dv.skip(0) =~= dv);
    let mut j: usize = 0;
    while j < drafts.len()
        invariant
            j <= drafts@.len(),
            dv == strs_view(drafts@),
            add_missing(strs_view(langs@), dv.skip(j as int), canonical@) == add_missing(base, dv, canonical@),
        decreases drafts@.len() - j,
    {
        let ghost before = strs_view(langs@);
        proof {
            assert(dv.skip(j as int).drop_first() =~= dv.skip(j + 1));
            assert(dv.skip(j as int)[0] == drafts@[j as int]@);
        }
        if !str_eq(drafts[j].as_str(), canonical) && !strs_contain(&langs, drafts[j].as_str()) {
            let s = copy_str(drafts[j].as_str());
            langs.push(s);
            assert(strs_view(langs@) =~= before.push(dv[j as int]));
        }
        j = j + 1;
    }
    assert(dv.skip(drafts@.len() as int) =~= Seq::<Seq<char>>::empty());
    sort_strings(langs.as_slice())
}

} // verus!
