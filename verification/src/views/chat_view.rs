//! Chat view helpers: the model choices offered, token totals and the
//! keys of surface text areas.

use vstd::prelude::*;
use crate::sorting::{lemma_lex_irreflexive, lemma_lex_lt_le, lemma_lex_transitive};
use crate::text::{copy_str, lex_lt, push_str, str_eq, string_push};
use crate::sorting::str_lt;

verus! {

/// A model the chat can use.
#[derive(Debug, Clone)]
pub struct ChatModelChoice {
    pub id: String,
    pub label: String,
}

/// The key of a text area of a chat surface: the surface id, a NUL, and
/// the field name.
pub fn textarea_key(surface_id: &str, field: &str) -> (res: String)
    ensures
        res@ == surface_id@ + seq!['\0'] + field@,
{
    let mut res = copy_str(surface_id);
    string_push(&mut res, '\0');
    push_str(&mut res, field);
    res
}

/// A choice's id and label.
pub open spec fn choice_view(c: ChatModelChoice) -> (Seq<char>, Seq<char>) {
    (c.id@, c.label@)
}

/// The choices' ids and labels.
pub open spec fn choices_view(s: Seq<ChatModelChoice>) -> Seq<(Seq<char>, Seq<char>)> {
    s.map_values(|c: ChatModelChoice| choice_view(c))
}

/// The first position in `s` whose label orders after `label`; the length
/// of `s` when there is none.
pub open spec fn first_after(s: Seq<(Seq<char>, Seq<char>)>, label: Seq<char>) -> int
    decreases s.len(),
{
    if s.len() == 0 {
        0
    } else if lex_lt(label, s[0].1) {
        0
    } else {
        1 + first_after(s.drop_first(), label)
    }
}

/// `s` sorted by label, choices with equal labels in their order in `s`:
/// each choice is inserted after every earlier one whose label does not
/// order after its own.
pub open spec fn sort_by_label(s: Seq<(Seq<char>, Seq<char>)>) -> Seq<(Seq<char>, Seq<char>)>
    decreases s.len(),
{
    if s.len() == 0 {
        s
    } else {
        let sorted = sort_by_label(s.drop_last());
        sorted.insert(first_after(sorted, s.last().1), s.last())
    }
}

/// `s` without each choice whose id equals that of the choice kept just
/// before it (`Vec::dedup_by` on ids).
pub open spec fn dedup_ids(s: Seq<(Seq<char>, Seq<char>)>) -> Seq<(Seq<char>, Seq<char>)>
    decreases s.len(),
{
    if s.len() == 0 {
        s
    } else {
        let r = dedup_ids(s.drop_last());
        if r.len() > 0 && r.last().0 == s.last().0 { r } else { r.push(s.last()) }
    }
}

/// The choices with the conversation's model added (labelled with its id)
/// when no choice has its id.
pub open spec fn with_model(model: Option<Seq<char>>, s: Seq<(Seq<char>, Seq<char>)>) -> Seq<(Seq<char>, Seq<char>)> {
    match model {
        Some(m) => if exists|i: int| 0 <= i < s.len() && s[i].0 == m { s } else { s.push((m, m)) },
        None => s,
    }
}

/// The model choices a conversation offers: the given ones with the
/// conversation's model added if missing, sorted by label (stably), then
/// without consecutive choices of the same id.
pub open spec fn model_options_spec(model: Option<Seq<char>>, options: Seq<(Seq<char>, Seq<char>)>) -> Seq<(Seq<char>, Seq<char>)> {
    dedup_ids(sort_by_label(with_model(model, options)))
}

/// No label orders before one that precedes it.
pub open spec fn labels_sorted(s: Seq<(Seq<char>, Seq<char>)>) -> bool {
    forall|i: int, j: int| 0 <= i < j < s.len() ==> !lex_lt(#[trigger] s[j].1, #[trigger] s[i].1)
}

/// The position `first_after` gives is within `s`, every label before it
/// does not order after `label`, and, in a sorted `s`, every label from it
/// on orders after `label`.
proof fn lemma_first_after(s: Seq<(Seq<char>, Seq<char>)>, label: Seq<char>)
    ensures
        0 <= first_after(s, label) <= s.len(),
        forall|k: int| 0 <= k < first_after(s, label) ==> !lex_lt(label, #[trigger] s[k].1),
        labels_sorted(s) ==> forall|k: int| first_after(s, label) <= k < s.len() ==> lex_lt(label, #[trigger] s[k].1),
    decreases s.len(),
{
    if s.len() > 0 {
        let t = s.drop_first();
        lemma_first_after(t, label);
        assert forall|k: int| 0 <= k < first_after(s, label) implies !lex_lt(label, #[trigger] s[k].1) by {
            if k > 0 {
                assert(s[k] == t[k - 1]);
            }
        }
        if labels_sorted(s) {
            assert(labels_sorted(t)) by {
                assert forall|i: int, j: int| 0 <= i < j < t.len() implies !lex_lt(#[trigger] t[j].1, #[trigger] t[i].1) by {
                    assert(t[i] == s[i + 1] && t[j] == s[j + 1]);
                }
            }
            assert forall|k: int| first_after(s, label) <= k < s.len() implies lex_lt(label, #[trigger] s[k].1) by {
                if lex_lt(label, s[0].1) {
                    if k > 0 {
                        lemma_lex_lt_le(label, s[0].1, s[k].1);
                    }
                } else {
                    assert(s[k] == t[k - 1]);
                }
            }
        }
    }
}

/// Law: sorting by label rearranges the choices into label order.
pub proof fn law_sort_by_label_sorted(s: Seq<(Seq<char>, Seq<char>)>)
    ensures
        labels_sorted(sort_by_label(s)),
        sort_by_label(s).to_multiset() == s.to_multiset(),
        sort_by_label(s).len() == s.len(),
    decreases s.len(),
{
    broadcast use vstd::seq_lib::group_to_multiset_ensures;
    if s.len() > 0 {
        assert(s =~= s.drop_last().push(s.last()));
        let sorted = sort_by_label(s.drop_last());
        law_sort_by_label_sorted(s.drop_last());
        let x = s.last();
        let p = first_after(sorted, x.1);
        lemma_first_after(sorted, x.1);
        let n = sorted.insert(p, x);
        assert forall|i: int, j: int| 0 <= i < j < n.len() implies !lex_lt(#[trigger] n[j].1, #[trigger] n[i].1) by {
            if j < p {
            } else if j == p {
                assert(n[i] == sorted[i]);
            } else if i == p {
                assert(n[j] == sorted[j - 1]);
                if lex_lt(sorted[j - 1].1, x.1) {
                    lemma_lex_transitive(x.1, sorted[j - 1].1, x.1);
                    lemma_lex_irreflexive(x.1);
                }
            } else if i < p {
                assert(n[i] == sorted[i] && n[j] == sorted[j - 1]);
            } else {
                assert(n[i] == sorted[i - 1] && n[j] == sorted[j - 1]);
            }
        }
    }
}

/// A copy of a choice.
fn copy_choice(c: &ChatModelChoice) -> (res: ChatModelChoice)
    ensures
        choice_view(res) == choice_view(*c),
{
    ChatModelChoice { id: copy_str(c.id.as_str()), label: copy_str(c.label.as_str()) }
}

/// The model choices a conversation offers: `options` with the
/// conversation's `model` added (labelled with its id) when missing, sorted
/// by label, keeping choices with equal labels in order, then without
/// consecutive choices of the same id.
pub fn model_options(model: Option<&str>, options: Vec<ChatModelChoice>) -> (res: Vec<ChatModelChoice>)
    ensures
        choices_view(res@) == model_options_spec(
            match model {
                Some(m) => Some(m@),
                None => None,
            },
            choices_view(options@),
        ),
{
    let ghost mv = match model {
        Some(m) => Some(m@),
        None => None,
    };
    let mut all = options;
    let ghost given = choices_view(all@);
    match model {
        Some(m) => {
            let mut found = false;
            let mut i: usize = 0;
            while i < all.len()
                invariant
                    i <= all@.len(),
                    given == choices_view(all@),
                    found <==> exists|k: int| 0 <= k < i && given[k].0 == m@,
                decreases all@.len() - i,
            {
                if str_eq(all[i].id.as_str(), m) {
                    found = true;
                }
                assert(given[i as int] == choice_view(all@[i as int]));
                i = i + 1;
            }
            if !found {
                all.push(ChatModelChoice { id: copy_str(m), label: copy_str(m) });
                assert(choices_view(all@) =~= given.push((m@, m@)));
            }
        },
        None => {},
    }
    assert(choices_view(all@) == with_model(mv, given));
    let ghost w = choices_view(all@);
    // Insertion sort by label.
    let mut sorted: Vec<ChatModelChoice> = Vec::new();
    let mut i: usize = 0;
    while i < all.len()
        invariant
            i <= all@.len(),
            w == choices_view(all@),
            choices_view(sorted@) == sort_by_label(w.take(i as int)),
        decreases all@.len() - i,
    {
        let ghost prev = choices_view(sorted@);
        proof {
            assert(w.take(i + 1).drop_last() =~= w.take(i as int));
            assert(w.take(i + 1).last() == choice_view(all@[i as int]));
        }
        let c = copy_choice(&all[i]);
        assert(prev.skip(0) =~= prev);
        let mut pos: usize = 0;
        while pos < sorted.len() && !str_lt(c.label.as_str(), sorted[pos].label.as_str())
            invariant
                pos <= sorted@.len(),
                prev == choices_view(sorted@),
                first_after(prev, c.label@) == pos + first_after(prev.skip(pos as int), c.label@),
            decreases sorted@.len() - pos,
        {
            proof {
                let rest = prev.skip(pos as int);
                assert(rest[0] == choice_view(sorted@[pos as int]));
                assert(rest.drop_first() =~= prev.skip(pos + 1));
            }
            pos = pos + 1;
        }
        proof {
            let rest = prev.skip(pos as int);
            if pos < sorted@.len() {
                assert(rest[0] == choice_view(sorted@[pos as int]));
            } else {
                assert(rest.len() == 0);
            }
        }
        let ghost cv = choice_view(c);
        sorted.insert(pos, c);
        assert(choices_view(sorted@) =~= prev.insert(pos as int, cv));
        i = i + 1;
    }
    assert(w.take(all@.len() as int) =~= w);
    // Dedup consecutive equal ids.
    let ghost srt = choices_view(sorted@);
    let mut res: Vec<ChatModelChoice> = Vec::new();
    let mut j: usize = 0;
    while j < sorted.len()
        invariant
            j <= sorted@.len(),
            srt == choices_view(sorted@),
            choices_view(res@) == dedup_ids(srt.take(j as int)),
        decreases sorted@.len() - j,
    {
        proof {
            assert(srt.take(j + 1).drop_last() =~= srt.take(j as int));
            assert(srt.take(j + 1).last() == choice_view(sorted@[j as int]));
        }
        let keep = if res.len() == 0 {
            true
        } else {
            let last = res.len() - 1;
            proof {
                assert(choices_view(res@).last() == choice_view(res@[last as int]));
            }
            !str_eq(res[last].id.as_str(), sorted[j].id.as_str())
        };
        if keep {
            let ghost before = choices_view(res@);
            let c = copy_choice(&sorted[j]);
            res.push(c);
            assert(choices_view(res@) =~= before.push(choice_view(sorted@[j as int])));
        }
        j = j + 1;
    }
    assert(srt.take(sorted@.len() as int) =~= srt);
    res
}

/// Token counts recorded for one chat message.
#[derive(Debug, Clone, Copy)]
pub struct MessageTokenUsage {
    pub token_usage_input: Option<i64>,
    pub token_usage_output: Option<i64>,
    pub cache_read_tokens: Option<i64>,
    pub cache_write_tokens: Option<i64>,
}

/// A recorded count as counted: missing and negative counts are zero.
pub open spec fn counted(v: Option<i64>) -> nat {
    match v {
        Some(x) => if x > 0 { x as nat } else { 0 },
        None => 0,
    }
}

/// The sum of the counted values that `f` picks from each message.
pub open spec fn token_sum(s: Seq<MessageTokenUsage>, f: spec_fn(MessageTokenUsage) -> Option<i64>) -> nat
    decreases s.len(),
{
    if s.len() == 0 {
        0
    } else {
        token_sum(s.drop_last(), f) + counted(f(s.last()))
    }
}

/// Picks the input tokens.
pub open spec fn input_of(m: MessageTokenUsage) -> Option<i64> {
    m.token_usage_input
}

/// Picks the output tokens.
pub open spec fn output_of(m: MessageTokenUsage) -> Option<i64> {
    m.token_usage_output
}

/// Picks the cache-read tokens.
pub open spec fn cache_read_of(m: MessageTokenUsage) -> Option<i64> {
    m.cache_read_tokens
}

/// Picks the cache-write tokens.
pub open spec fn cache_write_of(m: MessageTokenUsage) -> Option<i64> {
    m.cache_write_tokens
}

/// The sum of a growing prefix never decreases.
proof fn lemma_token_sum_mono(s: Seq<MessageTokenUsage>, f: spec_fn(MessageTokenUsage) -> Option<i64>, i: int)
    requires
        0 <= i <= s.len(),
    ensures
        token_sum(s.take(i), f) <= token_sum(s, f),
    decreases s.len() - i,
{
    if i < s.len() {
        lemma_token_sum_mono(s, f, i + 1);
        assert(s.take(i + 1).drop_last() =~= s.take(i));
    } else {
        assert(s.take(i) =~= s);
    }
}

/// The conversation's token totals: input, output, cache read and cache
/// write, each the sum over the messages of their counted values.
pub fn token_totals(messages: &[MessageTokenUsage]) -> (res: (u64, u64, u64, u64))
    requires
        token_sum(messages@, |m: MessageTokenUsage| input_of(m)) <= u64::MAX,
        token_sum(messages@, |m: MessageTokenUsage| output_of(m)) <= u64::MAX,
        token_sum(messages@, |m: MessageTokenUsage| cache_read_of(m)) <= u64::MAX,
        token_sum(messages@, |m: MessageTokenUsage| cache_write_of(m)) <= u64::MAX,
    ensures
        res.0 == token_sum(messages@, |m: MessageTokenUsage| input_of(m)),
        res.1 == token_sum(messages@, |m: MessageTokenUsage| output_of(m)),
        res.2 == token_sum(messages@, |m: MessageTokenUsage| cache_read_of(m)),
        res.3 == token_sum(messages@, |m: MessageTokenUsage| cache_write_of(m)),
{
    let ghost fi = |m: MessageTokenUsage| input_of(m);
    let ghost fo = |m: MessageTokenUsage| output_of(m);
    let ghost fr = |m: MessageTokenUsage| cache_read_of(m);
    let ghost fw = |m: MessageTokenUsage| cache_write_of(m);
    let mut total: (u64, u64, u64, u64) = (0, 0, 0, 0);
    let mut i: usize = 0;
    assert(messages@.take(0) =~= Seq::<MessageTokenUsage>::empty());
    while i < messages.len()
        invariant
            i <= messages@.len(),
            fi == (|m: MessageTokenUsage| input_of(m)),
            fo == (|m: MessageTokenUsage| output_of(m)),
            fr == (|m: MessageTokenUsage| cache_read_of(m)),
            fw == (|m: MessageTokenUsage| cache_write_of(m)),
            token_sum(messages@, fi) <= u64::MAX,
            token_sum(messages@, fo) <= u64::MAX,
            token_sum(messages@, fr) <= u64::MAX,
            token_sum(messages@, fw) <= u64::MAX,
            total.0 == token_sum(messages@.take(i as int), fi),
            total.1 == token_sum(messages@.take(i as int), fo),
            total.2 == token_sum(messages@.take(i as int), fr),
            total.3 == token_sum(messages@.take(i as int), fw),
        decreases messages@.len() - i,
    {
        let m = messages[i];
        proof {
            assert(messages@.take(i + 1).drop_last() =~= messages@.take(i as int));
            assert(messages@.take(i + 1).last() == m);
            lemma_token_sum_mono(messages@, fi, i + 1);
            lemma_token_sum_mono(messages@, fo, i + 1);
            lemma_token_sum_mono(messages@, fr, i + 1);
            lemma_token_sum_mono(messages@, fw, i + 1);
        }
        total.0 = total.0 + count_tokens(m.token_usage_input);
        total.1 = total.1 + count_tokens(m.token_usage_output);
        total.2 = total.2 + count_tokens(m.cache_read_tokens);
        total.3 = total.3 + count_tokens(m.cache_write_tokens);
        i = i + 1;
    }
    assert(messages@.take(messages@.len() as int) =~= messages@);
    total
}

/// A recorded count as counted.
fn count_tokens(v: Option<i64>) -> (res: u64)
    ensures
        res == counted(v),
{
    match v {
        Some(x) => if x > 0 { x as u64 } else { 0 },
        None => 0,
    }
}

} // verus!
