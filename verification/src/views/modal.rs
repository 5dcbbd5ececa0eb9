//! Modal dialogs: their data, link insertion and gallery stepping.

use vstd::prelude::*;
use vstd::arithmetic::div_mod::{lemma_fundamental_div_mod, lemma_fundamental_div_mod_converse};
use crate::text::{copy_str, from_chars, push_chars, string_push, trim_seq, trim_to_chars};

verus! {

/// A post offered by the insert-link modal.
#[derive(Debug, Clone)]
pub struct InsertLinkResult {
    pub post_id: String,
    pub title: String,
    pub status: String,
    pub canonical_url: String,
}

/// The entity an AI suggestion or translation applies to.
#[derive(Debug, Clone)]
pub enum AiEntityTarget {
    Post(String),
    Media(String),
}

/// One field of an AI suggestion, with the user's decision.
#[derive(Debug, Clone)]
pub struct AiSuggestionField {
    pub key: String,
    pub label: String,
    pub current_value: String,
    pub suggested_value: String,
    pub accepted: bool,
    pub locked: bool,
}

/// A language a post or media item can be translated into.
#[derive(Debug, Clone)]
pub struct LanguageTarget {
    pub code: String,
    pub name: String,
    pub flag_emoji: String,
    pub has_existing_translation: bool,
    pub existing_status: Option<String>,
}

/// Tab of the insert-link modal.
#[derive(Debug, Clone, Copy, PartialEq, Eq, Structural)]
pub enum PostInsertLinkTab {
    Internal,
    External,
}

/// What to perform when a confirmation modal is accepted.
#[derive(Debug, Clone)]
pub enum ConfirmAction {
    DeleteProject(String),
    DeletePost(String),
    DeleteMedia(String),
    DeleteScript(String),
    DeleteTemplate(String),
    ForceDeleteTemplate(String),
    DeleteTag(String),
    MergeTags { sources: Vec<String>, target: String },
}

/// The Markdown for an external link: none without a URL, the bare URL
/// without text, else `[text](url)`, both trimmed.
pub open spec fn external_link_spec(url: Seq<char>, text: Seq<char>) -> Option<Seq<char>> {
    let u = trim_seq(url);
    let t = trim_seq(text);
    if u.len() == 0 {
        None
    } else if t.len() == 0 {
        Some(u)
    } else {
        Some(seq!['['] + t + seq![']', '('] + u + seq![')'])
    }
}

/// The Markdown for an external link.
pub fn external_link_markdown(url: &str, display_text: &str) -> (res: Option<String>)
    ensures
        match res {
            Some(s) => external_link_spec(url@, display_text@) == Some(s@),
            None => external_link_spec(url@, display_text@) is None,
        },
{
    let u = trim_to_chars(url);
    if u.len() == 0 {
        return None;
    }
    let t = trim_to_chars(display_text);
    if t.len() == 0 {
        return Some(from_chars(u.as_slice()));
    }
    let mut s = String::new();
    string_push(&mut s, '[');
    push_chars(&mut s, t.as_slice());
    string_push(&mut s, ']');
    string_push(&mut s, '(');
    push_chars(&mut s, u.as_slice());
    string_push(&mut s, ')');
    assert(s@ =~= seq!['['] + t@ + seq![']', '('] + u@ + seq![')']);
    Some(s)
}

/// The gallery index `delta` steps from `current`, wrapping around `len`
/// items; 0 for an empty gallery.
pub open spec fn gallery_step_spec(current: int, len: int, delta: int) -> int {
    if len == 0 { 0 } else { (current + delta) % len }
}

/// The gallery index `delta` steps from `current`, wrapping in both directions.
pub fn gallery_step(current: usize, len: usize, delta: isize) -> (res: usize)
    requires
        current <= isize::MAX,
        len <= isize::MAX,
        isize::MIN <= current + delta <= isize::MAX,
    ensures
        res as int == gallery_step_spec(current as int, len as int, delta as int),
{
    if len == 0 {
        return 0;
    }
    let sum: i128 = current as i128 + delta as i128;
    let l: u128 = len as u128;
    if sum >= 0 {
        let r: u128 = (sum as u128) % l;
        assert(r == (current + delta) % (len as int));
        r as usize
    } else {
        let m: u128 = ((-sum) as u128) % l;
        if m == 0 {
            proof {
                lemma_neg_mod_zero(sum as int, len as int);
            }
            0
        } else {
            proof {
                lemma_neg_mod(sum as int, len as int, m as int);
            }
            (l - m) as usize
        }
    }
}

proof fn lemma_neg_mod_zero(s: int, l: int)
    requires
        s < 0,
        l > 0,
        (-s) % l == 0,
    ensures
        s % l == 0,
{
    let q = (-s) / l;
    lemma_fundamental_div_mod(-s, l);
    assert(s == (-q) * l + 0) by (nonlinear_arith)
        requires
            -s == l * q + 0,
    ;
    lemma_fundamental_div_mod_converse(s, l, -q, 0);
}

proof fn lemma_neg_mod(s: int, l: int, m: int)
    requires
        s < 0,
        l > 0,
        m == (-s) % l,
        m != 0,
    ensures
        s % l == l - m,
{
    let q = (-s) / l;
    lemma_fundamental_div_mod(-s, l);
    assert(0 <= m < l);
    assert(s == (-q - 1) * l + (l - m)) by (nonlinear_arith)
        requires
            -s == l * q + m,
    ;
    lemma_fundamental_div_mod_converse(s, l, -q - 1, l - m);
}

/// Law: stepping forward then back returns to the same picture.
pub proof fn law_gallery_step_inverse(current: int, len: int, delta: int)
    requires
        0 <= current < len,
    ensures
        gallery_step_spec(gallery_step_spec(current, len, delta), len, -delta) == current,
{
    let a = (current + delta) % len;
    let k = (current + delta) / len;
    lemma_fundamental_div_mod(current + delta, len);
    assert(a + (-delta) == (-k) * len + current) by (nonlinear_arith)
        requires
            current + delta == len * k + a,
    ;
    lemma_fundamental_div_mod_converse(a + (-delta), len, -k, current);
}

} // verus!
