//! Post editor helpers: tag suggestions, header titles and editor modes.

use vstd::prelude::*;
use crate::text::{
    chars_contains, chars_eq_ignore_ascii_case, contains_seq, copy_str, eq_ignore_ascii_case_seq,
    str_eq, take_seq, to_chars, to_lowercase, trim, trim_seq, trim_to_chars, unicode_lowercase,
};
use crate::sorting::lex_sorted;
use crate::text::{char_count, copy_or_empty, or_empty, strs_view};
use crate::views::media_editor::canonical_of;
use crate::views::modal::PostInsertLinkTab;
use crate::state::toast::now_millis;
use crate::views::language_drafts::{
    entry_languages, flag_language_list, flag_languages, lemma_lookup_upsert, lemma_upsert_absent,
    lemma_upsert_at, lookup, upsert,
};
use crate::views::sidebar::{truncate_with, truncated};

verus! {

broadcast use vstd::seq_lib::group_to_multiset_ensures;

/// Most tag suggestions offered for a partial query.
pub const MAX_TAG_SUGGESTIONS: usize = 8;

/// Longest post title shown in full in the editor header.
pub const HEADER_TITLE_MAX_LEN: usize = 56;

/// Translation status of one language of a post.
#[derive(Debug, Clone)]
pub struct TranslationFlag {
    pub language: String,
    pub flag_emoji: String,
    pub status: String,
    pub is_active: bool,
}

/// Resolved post link for display in metadata.
#[derive(Debug, Clone)]
pub struct ResolvedPostLink {
    pub post_id: String,
    pub title: String,
}

/// Linked media metadata shown in the post editor metadata panel.
#[derive(Debug, Clone)]
pub struct LinkedMediaItem {
    pub media_id: String,
    pub name: String,
    pub file_path: String,
    pub is_image: bool,
    pub sort_order: i32,
}

/// The strings viewed as character sequences.
pub open spec fn views(s: Seq<String>) -> Seq<Seq<char>> {
    s.map_values(|x: String| x@)
}

/// Whether `tag` equals one of `selected` up to ASCII case.
pub open spec fn is_selected(selected: Seq<String>, tag: Seq<char>) -> bool {
    exists|j: int| 0 <= j < selected.len() && eq_ignore_ascii_case_seq(#[trigger] selected[j]@, tag)
}

/// Whether `tag` is offered for the normalised query `q`: not selected, and
/// its lowercase form contains `q`.
pub open spec fn offered(selected: Seq<String>, q: Seq<char>, tag: Seq<char>) -> bool {
    !is_selected(selected, tag) && contains_seq(unicode_lowercase(tag), q)
}

/// The tags of `tags` that `keep` holds of, in order.
pub open spec fn kept(tags: Seq<String>, keep: spec_fn(Seq<char>) -> bool) -> Seq<Seq<char>>
    decreases tags.len(),
{
    if tags.len() == 0 {
        Seq::empty()
    } else {
        let rest = kept(tags.drop_last(), keep);
        if keep(tags.last()@) { rest.push(tags.last()@) } else { rest }
    }
}

/// Tags offered for a partial query: for the trimmed, lowercased query,
/// the first 8 unselected tags whose lowercase form contains it; none for a
/// blank query.
pub open spec fn matching_spec(available: Seq<String>, selected: Seq<String>, query: Seq<char>) -> Seq<Seq<char>> {
    let q = unicode_lowercase(trim_seq(query));
    if q.len() == 0 {
        Seq::empty()
    } else {
        take_seq(kept(available, |t: Seq<char>| offered(selected, q, t)), 8)
    }
}

/// Whether `tag` equals one of `selected` up to ASCII case.
fn selected_contains(selected: &[String], tag: &[char]) -> (res: bool)
    ensures
        res == is_selected(selected@, tag@),
{
    let mut j: usize = 0;
    while j < selected.len()
        invariant
            j <= selected@.len(),
            forall|k: int| 0 <= k < j ==> !eq_ignore_ascii_case_seq(#[trigger] selected@[k]@, tag@),
        decreases selected@.len() - j,
    {
        let s = to_chars(selected[j].as_str());
        if chars_eq_ignore_ascii_case(s.as_slice(), tag) {
            return true;
        }
        j = j + 1;
    }
    false
}

/// Tags offered for a partial query (at most 8).
pub fn matching_tag_suggestions(available: &[String], selected: &[String], query: &str) -> (res: Vec<String>)
    ensures
        views(res@) == matching_spec(available@, selected@, query@),
{
    let trimmed = trim(query);
    let lower = to_lowercase(trimmed.as_str());
    let q = to_chars(lower.as_str());
    let mut res: Vec<String> = Vec::new();
    if q.len() == 0 {
        assert(views(res@) =~= Seq::<Seq<char>>::empty());
        return res;
    }
    let ghost keep = |t: Seq<char>| offered(selected@, q@, t);
    let mut i: usize = 0;
    while i < available.len()
        invariant
            i <= available@.len(),
            q@.len() > 0,
            q@ == unicode_lowercase(trim_seq(query@)),
            keep == (|t: Seq<char>| offered(selected@, q@, t)),
            views(res@) == take_seq(kept(available@.take(i as int), keep), 8),
        decreases available@.len() - i,
    {
        let tag = to_chars(available[i].as_str());
        let lower_tag = to_lowercase(available[i].as_str());
        let lower_chars = to_chars(lower_tag.as_str());
        let pass = !selected_contains(selected, tag.as_slice()) && chars_contains(lower_chars.as_slice(), q.as_slice());
        let ghost prefix = available@.take(i as int);
        let ghost next = available@.take(i + 1);
        assert(next.drop_last() =~= prefix);
        assert(next.last() == available@[i as int]);
        if pass && res.len() < MAX_TAG_SUGGESTIONS {
            let ghost before = views(res@);
            assert(keep(next.last()@));
            assert(kept(next, keep) == kept(prefix, keep).push(available@[i as int]@));
            assert(views(res@).len() == res@.len());
            assert(kept(prefix, keep).len() < 8);
            assert(before == kept(prefix, keep));
            res.push(copy_str(available[i].as_str()));
            assert(views(res@) =~= before.push(available@[i as int]@));
            assert(views(res@) =~= take_seq(kept(next, keep), 8));
        } else {
            assert(views(res@) =~= take_seq(kept(next, keep), 8));
        }
        i = i + 1;
    }
    assert(available@.take(available@.len() as int) =~= available@);
    res
}

/// Whether the trimmed query names a new tag: it is not blank and equals
/// no available or selected tag up to ASCII case.
pub open spec fn addable_spec(available: Seq<String>, selected: Seq<String>, query: Seq<char>) -> bool {
    let q = trim_seq(query);
    q.len() > 0 && !is_selected(available, q) && !is_selected(selected, q)
}

/// Whether the query can be added as a new tag.
pub fn tag_query_addable(available: &[String], selected: &[String], query: &str) -> (res: bool)
    ensures
        res == addable_spec(available@, selected@, query@),
{
    let q = trim_to_chars(query);
    q.len() > 0 && !selected_contains(available, q.as_slice()) && !selected_contains(selected, q.as_slice())
}

/// Semantic suggestions shown while no query is typed: those not selected.
pub open spec fn semantic_spec(semantic: Seq<String>, selected: Seq<String>, query: Seq<char>) -> Seq<Seq<char>> {
    if trim_seq(query).len() > 0 {
        Seq::empty()
    } else {
        kept(semantic, |t: Seq<char>| !is_selected(selected, t))
    }
}

/// Semantic tag suggestions: hidden while filtering, without selected tags.
pub fn visible_semantic_tag_suggestions(semantic: &[String], selected: &[String], query: &str) -> (res: Vec<String>)
    ensures
        views(res@) == semantic_spec(semantic@, selected@, query@),
{
    let mut res: Vec<String> = Vec::new();
    let q = trim_to_chars(query);
    if q.len() > 0 {
        assert(views(res@) =~= Seq::<Seq<char>>::empty());
        return res;
    }
    let ghost keep = |t: Seq<char>| !is_selected(selected@, t);
    let mut i: usize = 0;
    while i < semantic.len()
        invariant
            i <= semantic@.len(),
            trim_seq(query@).len() == 0,
            keep == (|t: Seq<char>| !is_selected(selected@, t)),
            views(res@) == kept(semantic@.take(i as int), keep),
        decreases semantic@.len() - i,
    {
        let tag = to_chars(semantic[i].as_str());
        let ghost next = semantic@.take(i + 1);
        assert(next.drop_last() =~= semantic@.take(i as int));
        assert(next.last() == semantic@[i as int]);
        if !selected_contains(selected, tag.as_slice()) {
            res.push(copy_str(semantic[i].as_str()));
        }
        assert(views(res@) =~= kept(next, keep));
        i = i + 1;
    }
    assert(semantic@.take(semantic@.len() as int) =~= semantic@);
    res
}

/// A post title cut to 53 characters followed by `...` when longer than 56.
pub fn truncate_header_title(title: &str) -> (res: String)
    ensures
        res@ == truncated(title@, 56, 53, "..."@),
{
    truncate_with(title, HEADER_TITLE_MAX_LEN, HEADER_TITLE_MAX_LEN - 3, "...")
}

/// `preview` stays; every other editor mode becomes `markdown`.
pub open spec fn normalized_mode(mode: Seq<char>) -> Seq<char> {
    if mode == "preview"@ { "preview"@ } else { "markdown"@ }
}

/// The supported editor mode for a configured one.
pub fn normalize_editor_mode(mode: &str) -> (res: String)
    ensures
        res@ == normalized_mode(mode@),
{
    if str_eq(mode, "preview") {
        copy_str("preview")
    } else {
        copy_str("markdown")
    }
}

/// Content actions (insert link, media, ...) show only in markdown mode.
pub fn content_actions_visible(mode: &str) -> (res: bool)
    ensures
        res == (mode@ == "markdown"@),
{
    str_eq(mode, "markdown")
}

/// Law: a normalised mode is a fixed point of normalisation.
pub proof fn law_normalize_mode_idempotent(mode: Seq<char>)
    ensures
        normalized_mode(normalized_mode(mode)) == normalized_mode(mode),
{
}

/// Publication status of a post or of one of its translations.
#[derive(Debug, Clone, Copy, PartialEq, Eq, Structural)]
pub enum PostStatus {
    Draft,
    Published,
    Archived,
}

/// Saved draft content for a single translation language.
#[derive(Debug, Clone)]
pub struct TranslationDraft {
    pub title: String,
    pub excerpt: String,
    pub content: String,
    pub status: PostStatus,
    pub is_dirty: bool,
}

/// State for an open post editor. `translation_drafts` maps a language to
/// its draft; the first entry for a language is the one in force. The text
/// buffer that the code editor widget edits is kept beside this state.
#[derive(Debug, Clone)]
pub struct PostEditorState {
    pub post_id: String,
    pub title: String,
    pub slug: String,
    pub excerpt: String,
    pub content: String,
    pub tags: Vec<String>,
    pub categories: Vec<String>,
    pub author: String,
    pub language: String,
    pub template_slug: String,
    pub do_not_translate: bool,
    pub status: PostStatus,
    pub created_at: i64,
    pub updated_at: i64,
    pub published_at: Option<i64>,
    pub is_dirty: bool,
    pub last_edit_at_ms: i64,
    pub metadata_expanded: bool,
    pub excerpt_expanded: bool,
    pub editor_mode: String,
    pub quick_actions_open: bool,
    pub tags_input: String,
    pub categories_input: String,
    pub available_tags: Vec<String>,
    pub semantic_tag_suggestions: Vec<String>,
    pub ai_activity: Option<String>,
    pub active_language: String,
    pub canonical_language: String,
    pub blog_languages: Vec<String>,
    pub saved_canonical: Option<TranslationDraft>,
    pub translation_drafts: Vec<(String, TranslationDraft)>,
    pub outlinks: Vec<ResolvedPostLink>,
    pub backlinks: Vec<ResolvedPostLink>,
    pub linked_media: Vec<LinkedMediaItem>,
}

/// The value of a post draft.
pub ghost struct PostFields {
    pub title: Seq<char>,
    pub excerpt: Seq<char>,
    pub content: Seq<char>,
    pub status: PostStatus,
    pub is_dirty: bool,
}

/// The value of a saved draft.
pub open spec fn post_fields(d: TranslationDraft) -> PostFields {
    PostFields { title: d.title@, excerpt: d.excerpt@, content: d.content@, status: d.status, is_dirty: d.is_dirty }
}

/// One entry of the drafts: its language and its fields.
pub open spec fn post_entry(e: (String, TranslationDraft)) -> (Seq<char>, PostFields) {
    (e.0@, post_fields(e.1))
}

/// The drafts by language, as `(language, fields)` pairs.
pub open spec fn post_drafts_view(v: Seq<(String, TranslationDraft)>) -> Seq<(Seq<char>, PostFields)> {
    v.map_values(|e: (String, TranslationDraft)| post_entry(e))
}

/// The language state of the post editor.
pub ghost struct PostLanguageState {
    pub active: Seq<char>,
    pub canonical: Seq<char>,
    pub fields: PostFields,
    pub saved_canonical: Option<PostFields>,
    pub drafts: Seq<(Seq<char>, PostFields)>,
}

/// Switching the post editor to `target`. The fields being edited are saved
/// for the active language: as the canonical draft, or as its translation
/// draft with status `Draft`. Then the target's saved fields are loaded.
/// The canonical draft is taken out when loaded, status included; without
/// one the fields stay. A translation draft gives title, excerpt, content
/// and dirty flag, and the status stays; a language without a draft gets
/// blank fields. Switching to the active language does nothing.
pub open spec fn post_switch_spec(s: PostLanguageState, target: Seq<char>) -> PostLanguageState {
    if target == s.active {
        s
    } else {
        let (saved, drafts) = if s.active == s.canonical {
            (Some(s.fields), s.drafts)
        } else {
            (s.saved_canonical, upsert(s.drafts, s.active, PostFields { status: PostStatus::Draft, ..s.fields }))
        };
        if target == s.canonical {
            match saved {
                Some(f) => PostLanguageState { active: target, canonical: s.canonical, fields: f, saved_canonical: None, drafts: drafts },
                None => PostLanguageState { active: target, canonical: s.canonical, fields: s.fields, saved_canonical: None, drafts: drafts },
            }
        } else {
            let fields = match lookup(drafts, target) {
                Some(f) => PostFields { status: s.fields.status, ..f },
                None => PostFields {
                    title: Seq::empty(),
                    excerpt: Seq::empty(),
                    content: Seq::empty(),
                    status: s.fields.status,
                    is_dirty: false,
                },
            };
            PostLanguageState { active: target, canonical: s.canonical, fields: fields, saved_canonical: saved, drafts: drafts }
        }
    }
}

/// Law: switching to another language and back restores the title,
/// excerpt, content and dirty flag being edited; coming back to the
/// canonical language restores its status as well.
pub proof fn law_post_switch_round_trip(s: PostLanguageState, target: Seq<char>)
    requires
        target != s.active,
    ensures
        ({
            let back = post_switch_spec(post_switch_spec(s, target), s.active).fields;
            &&& back.title == s.fields.title
            &&& back.excerpt == s.fields.excerpt
            &&& back.content == s.fields.content
            &&& back.is_dirty == s.fields.is_dirty
            &&& s.active == s.canonical ==> back == s.fields
        }),
{
    let s1 = post_switch_spec(s, target);
    if s.active != s.canonical {
        let f = PostFields { status: PostStatus::Draft, ..s.fields };
        let drafts1 = upsert(s.drafts, s.active, f);
        lemma_lookup_upsert(s.drafts, s.active, f, s.active);
        if target != s.canonical {
            lemma_lookup_upsert(drafts1, target, PostFields { status: PostStatus::Draft, ..s1.fields }, s.active);
        }
    }
}

/// The status a translation flag shows for a post language.
pub open spec fn post_flag_status(d: Option<PostFields>) -> Seq<char> {
    match d {
        Some(f) => if f.status == PostStatus::Published { "published"@ } else { "draft"@ },
        None => "missing"@,
    }
}

/// The languages of the flags.
pub open spec fn flag_names(flags: Seq<TranslationFlag>) -> Seq<Seq<char>> {
    flags.map_values(|f: TranslationFlag| f.language@)
}

/// `e` is what `flag_emoji` returns for a string that reads `lang`.
pub open spec fn emoji_for<F: Fn(&str) -> String>(flag_emoji: F, lang: Seq<char>, e: String) -> bool {
    exists|x: &str| x@ == lang && #[trigger] flag_emoji.ensures((x,), e)
}

/// The flags for a canonical language, configured languages and drafts:
/// the canonical flag first, then one per language of
/// `flag_language_list`, sorted, with the status that `status_of` gives.
pub open spec fn flags_spec<F: Fn(&str) -> String>(
    flags: Seq<TranslationFlag>,
    active: Seq<char>,
    canonical: Seq<char>,
    langs: Seq<Seq<char>>,
    status_of: spec_fn(Seq<char>) -> Seq<char>,
    flag_emoji: F,
) -> bool {
    let rest = flags.skip(1);
    &&& flags.len() == langs.len() + 1
    &&& flags[0].language@ == canonical
    &&& flags[0].status@ == "canonical"@
    &&& flags[0].is_active == (active == canonical)
    &&& emoji_for(flag_emoji, canonical, flags[0].flag_emoji)
    &&& flag_names(rest).to_multiset() == langs.to_multiset()
    &&& lex_sorted(flag_names(rest))
    &&& forall|i: int| 0 <= i < rest.len() ==> {
        &&& (#[trigger] rest[i]).status@ == status_of(rest[i].language@)
        &&& rest[i].is_active == (active == rest[i].language@)
        &&& emoji_for(flag_emoji, rest[i].language@, rest[i].flag_emoji)
    }
}

/// The translation flags: the canonical language, then the sorted other
/// languages with the status that `status_of` gives each.
pub fn build_flags<F: Fn(&str) -> String>(
    active: &str,
    canonical: &str,
    languages: Vec<String>,
    statuses: Vec<String>,
    flag_emoji: F,
    Ghost(status_of): Ghost<spec_fn(Seq<char>) -> Seq<char>>,
) -> (res: Vec<TranslationFlag>)
    requires
        forall|x: &str| flag_emoji.requires((x,)),
        statuses@.len() == languages@.len(),
        forall|i: int| 0 <= i < languages@.len() ==> (#[trigger] statuses@[i])@ == status_of(languages@[i]@),
        lex_sorted(strs_view(languages@)),
    ensures
        flags_spec(res@, active@, canonical@, strs_view(languages@), status_of, flag_emoji),
{
    let mut flags: Vec<TranslationFlag> = Vec::new();
    let e0 = flag_emoji(canonical);
    flags.push(TranslationFlag {
        language: copy_str(canonical),
        flag_emoji: e0,
        status: copy_str("canonical"),
        is_active: str_eq(active, canonical),
    });
    let mut i: usize = 0;
    while i < languages.len()
        invariant
            forall|x: &str| flag_emoji.requires((x,)),
            i <= languages@.len(),
            statuses@.len() == languages@.len(),
            forall|k: int| 0 <= k < languages@.len() ==> (#[trigger] statuses@[k])@ == status_of(languages@[k]@),
            flags@.len() == i + 1,
            flags@[0].language@ == canonical@,
            flags@[0].status@ == "canonical"@,
            flags@[0].is_active == (active@ == canonical@),
            emoji_for(flag_emoji, canonical@, flags@[0].flag_emoji),
            forall|k: int| 0 <= k < i ==> {
                &&& (#[trigger] flags@[k + 1]).language@ == languages@[k]@
                &&& flags@[k + 1].status@ == status_of(languages@[k]@)
                &&& flags@[k + 1].is_active == (active@ == languages@[k]@)
                &&& emoji_for(flag_emoji, languages@[k]@, flags@[k + 1].flag_emoji)
            },
        decreases languages@.len() - i,
    {
        let lang = languages[i].as_str();
        let e = flag_emoji(lang);
        flags.push(TranslationFlag {
            language: copy_str(lang),
            flag_emoji: e,
            status: copy_str(statuses[i].as_str()),
            is_active: str_eq(active, lang),
        });
        i = i + 1;
    }
    proof {
        let rest = flags@.skip(1);
        assert(flag_names(rest) =~= strs_view(languages@));
        assert forall|k: int| 0 <= k < rest.len() implies {
            &&& (#[trigger] rest[k]).status@ == status_of(rest[k].language@)
            &&& rest[k].is_active == (active@ == rest[k].language@)
            &&& emoji_for(flag_emoji, rest[k].language@, rest[k].flag_emoji)
        } by {
            assert(rest[k] == flags@[k + 1]);
        }
    }
    flags
}

/// A stored post, as far as the editor reads it.
#[derive(Debug, Clone)]
pub struct Post {
    pub id: String,
    pub title: String,
    pub slug: String,
    pub excerpt: Option<String>,
    pub content: Option<String>,
    pub status: PostStatus,
    pub tags: Vec<String>,
    pub categories: Vec<String>,
    pub author: Option<String>,
    pub language: Option<String>,
    pub template_slug: Option<String>,
    pub do_not_translate: bool,
    pub created_at: i64,
    pub updated_at: i64,
    pub published_at: Option<i64>,
}

/// A stored translation of a post.
#[derive(Debug, Clone)]
pub struct PostTranslation {
    pub language: String,
    pub title: String,
    pub excerpt: Option<String>,
    pub content: Option<String>,
    pub status: PostStatus,
}

/// The drafts that stored translations give, one per language; a later
/// translation of a language replaces an earlier one.
pub open spec fn post_drafts_from(ts: Seq<PostTranslation>) -> Seq<(Seq<char>, PostFields)>
    decreases ts.len(),
{
    if ts.len() == 0 {
        Seq::empty()
    } else {
        let t = ts.last();
        upsert(
            post_drafts_from(ts.drop_last()),
            t.language@,
            PostFields {
                title: t.title@,
                excerpt: or_empty(t.excerpt),
                content: or_empty(t.content),
                status: t.status,
                is_dirty: false,
            },
        )
    }
}

impl PostEditorState {
    /// The editor for a post, its translations and links, in its canonical
    /// language with nothing edited. The metadata panel starts open for an
    /// untitled post; the editor mode is the supported form of
    /// `default_mode`.
    pub fn from_post(
        post: &Post,
        default_mode: &str,
        blog_languages: &[String],
        translations: &[PostTranslation],
        outlinks: Vec<ResolvedPostLink>,
        backlinks: Vec<ResolvedPostLink>,
        linked_media: Vec<LinkedMediaItem>,
    ) -> (s: Self)
        ensures
            s.post_id@ == post.id@,
            s.title@ == post.title@,
            s.slug@ == post.slug@,
            s.excerpt@ == or_empty(post.excerpt),
            s.content@ == or_empty(post.content),
            strs_view(s.tags@) == strs_view(post.tags@),
            strs_view(s.categories@) == strs_view(post.categories@),
            s.author@ == or_empty(post.author),
            s.language@ == canonical_of(post.language),
            s.template_slug@ == or_empty(post.template_slug),
            s.do_not_translate == post.do_not_translate,
            s.status == post.status,
            s.created_at == post.created_at,
            s.updated_at == post.updated_at,
            s.published_at == post.published_at,
            !s.is_dirty,
            s.last_edit_at_ms == 0,
            s.metadata_expanded == (post.title@.len() == 0),
            !s.excerpt_expanded,
            s.editor_mode@ == normalized_mode(default_mode@),
            !s.quick_actions_open,
            s.tags_input@.len() == 0,
            s.categories_input@.len() == 0,
            s.available_tags@.len() == 0,
            s.semantic_tag_suggestions@.len() == 0,
            s.ai_activity is None,
            s.active_language@ == canonical_of(post.language),
            s.canonical_language@ == canonical_of(post.language),
            strs_view(s.blog_languages@) == strs_view(blog_languages@),
            s.saved_canonical is None,
            post_drafts_view(s.translation_drafts@) == post_drafts_from(translations@),
            s.outlinks == outlinks,
            s.backlinks == backlinks,
            s.linked_media == linked_media,
    {
        let canonical = match &post.language {
            Some(l) => copy_str(l.as_str()),
            None => copy_str("en"),
        };
        let mut drafts: Vec<(String, TranslationDraft)> = Vec::new();
        let mut i: usize = 0;
        while i < translations.len()
            invariant
                i <= translations@.len(),
                post_drafts_view(drafts@) == post_drafts_from(translations@.take(i as int)),
            decreases translations@.len() - i,
        {
            let tr = &translations[i];
            let draft = TranslationDraft {
                title: copy_str(tr.title.as_str()),
                excerpt: copy_or_empty(&tr.excerpt),
                content: copy_or_empty(&tr.content),
                status: tr.status,
                is_dirty: false,
            };
            proof {
                assert(translations@.take(i + 1).drop_last() =~= translations@.take(i as int));
            }
            upsert_post_draft(&mut drafts, copy_str(tr.language.as_str()), draft);
            i = i + 1;
        }
        assert(translations@.take(translations@.len() as int) =~= translations@);
        PostEditorState {
            post_id: copy_str(post.id.as_str()),
            title: copy_str(post.title.as_str()),
            slug: copy_str(post.slug.as_str()),
            excerpt: copy_or_empty(&post.excerpt),
            content: copy_or_empty(&post.content),
            tags: copy_strs(post.tags.as_slice()),
            categories: copy_strs(post.categories.as_slice()),
            author: copy_or_empty(&post.author),
            language: copy_str(canonical.as_str()),
            template_slug: copy_or_empty(&post.template_slug),
            do_not_translate: post.do_not_translate,
            status: post.status,
            created_at: post.created_at,
            updated_at: post.updated_at,
            published_at: post.published_at,
            is_dirty: false,
            last_edit_at_ms: 0,
            metadata_expanded: char_count(post.title.as_str()) == 0,
            excerpt_expanded: false,
            editor_mode: normalize_editor_mode(default_mode),
            quick_actions_open: false,
            tags_input: String::new(),
            categories_input: String::new(),
            available_tags: Vec::new(),
            semantic_tag_suggestions: Vec::new(),
            ai_activity: None,
            active_language: copy_str(canonical.as_str()),
            canonical_language: canonical,
            blog_languages: copy_strs(blog_languages),
            saved_canonical: None,
            translation_drafts: drafts,
            outlinks: outlinks,
            backlinks: backlinks,
            linked_media: linked_media,
        }
    }

    /// The fields being edited.
    pub open spec fn fields(&self) -> PostFields {
        PostFields { title: self.title@, excerpt: self.excerpt@, content: self.content@, status: self.status, is_dirty: self.is_dirty }
    }

    /// The language state.
    pub open spec fn language_state(&self) -> PostLanguageState {
        PostLanguageState {
            active: self.active_language@,
            canonical: self.canonical_language@,
            fields: self.fields(),
            saved_canonical: match self.saved_canonical {
                Some(d) => Some(post_fields(d)),
                None => None,
            },
            drafts: post_drafts_view(self.translation_drafts@),
        }
    }

    /// `new` differs from `old` at most in the fields that carry the
    /// language state.
    pub open spec fn same_but_language(old: Self, new: Self) -> bool {
        new == (PostEditorState {
            title: new.title,
            excerpt: new.excerpt,
            content: new.content,
            status: new.status,
            is_dirty: new.is_dirty,
            active_language: new.active_language,
            saved_canonical: new.saved_canonical,
            translation_drafts: new.translation_drafts,
            ..old
        })
    }

    /// Marks the post as edited now.
    pub fn mark_dirty(&mut self)
        ensures
            *final(self) == (PostEditorState { is_dirty: true, last_edit_at_ms: final(self).last_edit_at_ms, ..*old(self) }),
    {
        self.is_dirty = true;
        let now = now_millis();
        self.last_edit_at_ms = if now <= i64::MAX as u64 { now as i64 } else { i64::MAX };
    }

    /// Sets the editor mode; unsupported modes become `markdown`.
    pub fn set_editor_mode(&mut self, mode: &str)
        ensures
            final(self).editor_mode@ == normalized_mode(mode@),
            *final(self) == (PostEditorState { editor_mode: final(self).editor_mode, ..*old(self) }),
    {
        self.editor_mode = normalize_editor_mode(mode);
    }

    /// A copy of the fields being edited, with `status`.
    fn current_draft(&self, status: PostStatus) -> (d: TranslationDraft)
        ensures
            post_fields(d) == (PostFields { status: status, ..self.fields() }),
    {
        TranslationDraft {
            title: copy_str(self.title.as_str()),
            excerpt: copy_str(self.excerpt.as_str()),
            content: copy_str(self.content.as_str()),
            status: status,
            is_dirty: self.is_dirty,
        }
    }

    /// Switches to another language: saves the current fields, loads the
    /// target's.
    pub fn switch_language(&mut self, target_lang: &str)
        ensures
            final(self).language_state() == post_switch_spec(old(self).language_state(), target_lang@),
            Self::same_but_language(*old(self), *final(self)),
    {
        if str_eq(target_lang, self.active_language.as_str()) {
            return;
        }
        let ghost old_self = *self;
        if str_eq(self.active_language.as_str(), self.canonical_language.as_str()) {
            let current = self.current_draft(self.status);
            self.saved_canonical = Some(current);
        } else {
            let current = self.current_draft(PostStatus::Draft);
            let lang = copy_str(self.active_language.as_str());
            upsert_post_draft(&mut self.translation_drafts, lang, current);
        }
        if str_eq(target_lang, self.canonical_language.as_str()) {
            let saved = self.saved_canonical.take();
            match saved {
                Some(d) => {
                    self.title = d.title;
                    self.excerpt = d.excerpt;
                    self.content = d.content;
                    self.status = d.status;
                    self.is_dirty = d.is_dirty;
                },
                None => {},
            }
        } else {
            match find_post_draft(&self.translation_drafts, target_lang) {
                Some(i) => {
                    let title = copy_str(self.translation_drafts[i].1.title.as_str());
                    let excerpt = copy_str(self.translation_drafts[i].1.excerpt.as_str());
                    let content = copy_str(self.translation_drafts[i].1.content.as_str());
                    let dirty = self.translation_drafts[i].1.is_dirty;
                    self.title = title;
                    self.excerpt = excerpt;
                    self.content = content;
                    self.is_dirty = dirty;
                },
                None => {
                    self.title = String::new();
                    self.excerpt = String::new();
                    self.content = String::new();
                    self.is_dirty = false;
                },
            }
        }
        self.active_language = copy_str(target_lang);
    }

    /// Carries the view state (panels, mode, inputs, active language) over
    /// from the editor this one replaces.
    pub fn restore_view_state(&mut self, previous: &Self)
        ensures
            final(self).metadata_expanded == previous.metadata_expanded,
            final(self).excerpt_expanded == previous.excerpt_expanded,
            final(self).editor_mode@ == previous.editor_mode@,
            final(self).quick_actions_open == previous.quick_actions_open,
            final(self).tags_input@ == previous.tags_input@,
            final(self).categories_input@ == previous.categories_input@,
            strs_view(final(self).semantic_tag_suggestions@) == strs_view(previous.semantic_tag_suggestions@),
            opt_string_view(final(self).ai_activity) == opt_string_view(previous.ai_activity),
            final(self).language_state() == post_switch_spec(old(self).language_state(), previous.active_language@),
            Self::same_but_language(
                (PostEditorState {
                    metadata_expanded: final(self).metadata_expanded,
                    excerpt_expanded: final(self).excerpt_expanded,
                    editor_mode: final(self).editor_mode,
                    quick_actions_open: final(self).quick_actions_open,
                    tags_input: final(self).tags_input,
                    categories_input: final(self).categories_input,
                    semantic_tag_suggestions: final(self).semantic_tag_suggestions,
                    ai_activity: final(self).ai_activity,
                    ..*old(self)
                }),
                *final(self),
            ),
    {
        self.metadata_expanded = previous.metadata_expanded;
        self.excerpt_expanded = previous.excerpt_expanded;
        self.editor_mode = copy_str(previous.editor_mode.as_str());
        self.quick_actions_open = previous.quick_actions_open;
        self.tags_input = copy_str(previous.tags_input.as_str());
        self.categories_input = copy_str(previous.categories_input.as_str());
        self.semantic_tag_suggestions = copy_strs(previous.semantic_tag_suggestions.as_slice());
        self.ai_activity = match &previous.ai_activity {
            Some(a) => Some(copy_str(a.as_str())),
            None => None,
        };
        self.switch_language(previous.active_language.as_str());
    }

    /// The languages of the translation drafts, in order.
    fn draft_languages(&self) -> (res: Vec<String>)
        ensures
            strs_view(res@) == entry_languages(post_drafts_view(self.translation_drafts@)),
    {
        let mut res: Vec<String> = Vec::new();
        let mut i: usize = 0;
        while i < self.translation_drafts.len()
            invariant
                i <= self.translation_drafts@.len(),
                res@.len() == i,
                strs_view(res@) == entry_languages(post_drafts_view(self.translation_drafts@)).take(i as int),
            decreases self.translation_drafts@.len() - i,
        {
            let c = copy_str(self.translation_drafts[i].0.as_str());
            let ghost before = res@;
            res.push(c);
            assert(res@ == before.push(c));
            assert(post_drafts_view(self.translation_drafts@)[i as int] == post_entry(self.translation_drafts@[i as int]));
            let ghost el = entry_languages(post_drafts_view(self.translation_drafts@));
            assert(el[i as int] == c@);
            assert forall|k: int| 0 <= k <= i implies #[trigger] strs_view(res@)[k] == el[k] by {
                if k < i {
                    assert(strs_view(before)[k] == el.take(i as int)[k]);
                }
            }
            assert(strs_view(res@) =~= el.take(i + 1));
            i = i + 1;
        }
        assert(entry_languages(post_drafts_view(self.translation_drafts@)).take(i as int)
            =~= entry_languages(post_drafts_view(self.translation_drafts@)));
        res
    }

    /// The status each flag shows, by language.
    pub open spec fn flag_status(&self) -> spec_fn(Seq<char>) -> Seq<char> {
        |l: Seq<char>| post_flag_status(lookup(post_drafts_view(self.translation_drafts@), l))
    }

    /// The translation flags: the canonical language first, then the
    /// configured and drafted languages, sorted, each marked `published`,
    /// `draft` or `missing` by its translation draft. `flag_emoji` gives
    /// each language's flag.
    pub fn translation_flags<F: Fn(&str) -> String>(&self, flag_emoji: F) -> (res: Vec<TranslationFlag>)
        requires
            forall|x: &str| flag_emoji.requires((x,)),
        ensures
            flags_spec(
                res@,
                self.active_language@,
                self.canonical_language@,
                flag_language_list(
                    self.canonical_language@,
                    strs_view(self.blog_languages@),
                    entry_languages(post_drafts_view(self.translation_drafts@)),
                ),
                self.flag_status(),
                flag_emoji,
            ),
    {
        let drafts = self.draft_languages();
        let langs = flag_languages(self.canonical_language.as_str(), self.blog_languages.as_slice(), drafts.as_slice());
        let mut statuses: Vec<String> = Vec::new();
        let mut i: usize = 0;
        while i < langs.len()
            invariant
                i <= langs@.len(),
                statuses@.len() == i,
                forall|k: int| 0 <= k < i ==> (#[trigger] statuses@[k])@ == (self.flag_status())(langs@[k]@),
            decreases langs@.len() - i,
        {
            let st = match find_post_draft(&self.translation_drafts, langs[i].as_str()) {
                Some(j) => if self.translation_drafts[j].1.status == PostStatus::Published {
                    copy_str("published")
                } else {
                    copy_str("draft")
                },
                None => copy_str("missing"),
            };
            statuses.push(st);
            i = i + 1;
        }
        proof {
            assert(strs_view(langs@).len() == strs_view(langs@).to_multiset().len());
        }
        build_flags(
            self.active_language.as_str(),
            self.canonical_language.as_str(),
            langs,
            statuses,
            flag_emoji,
            Ghost(self.flag_status()),
        )
    }
}

/// The optional string's view.
pub open spec fn opt_string_view(s: Option<String>) -> Option<Seq<char>> {
    match s {
        Some(x) => Some(x@),
        None => None,
    }
}

/// A copy of the strings.
pub fn copy_strs(v: &[String]) -> (res: Vec<String>)
    ensures
        strs_view(res@) == strs_view(v@),
{
    let mut res: Vec<String> = Vec::new();
    let mut i: usize = 0;
    while i < v.len()
        invariant
            i <= v@.len(),
            res@.len() == i,
            strs_view(res@) == strs_view(v@).take(i as int),
        decreases v@.len() - i,
    {
        let c = copy_str(v[i].as_str());
        let ghost before = res@;
        res.push(c);
        assert(res@ == before.push(c));
        assert(before.len() == i);
        assert(res@.len() == i + 1);
        assert(strs_view(res@).len() == i + 1);
        assert forall|k: int| 0 <= k <= i implies #[trigger] strs_view(res@)[k] == strs_view(v@)[k] by {
            assert(strs_view(res@)[k] == res@[k]@);
            if k < i {
                assert(res@[k] == before[k]);
                assert(strs_view(before)[k] == before[k]@);
                assert(strs_view(before)[k] == strs_view(v@).take(i as int)[k]);
            } else {
                assert(res@[k] == c);
                assert(c@ == v@[i as int]@);
            }
        }
        assert(strs_view(res@) =~= strs_view(v@).take(i + 1));
        i = i + 1;
    }
    assert(strs_view(v@).take(i as int) =~= strs_view(v@));
    res
}

/// The index of the first draft of `lang`.
fn find_post_draft(v: &Vec<(String, TranslationDraft)>, lang: &str) -> (res: Option<usize>)
    ensures
        match res {
            Some(i) => i < v@.len() && lookup(post_drafts_view(v@), lang@) == Some(post_fields(v@[i as int].1)),
            None => lookup(post_drafts_view(v@), lang@) is None,
        },
{
    let ghost d = post_drafts_view(v@);
    assert(d.skip(0) =~= d);
    let mut i: usize = 0;
    while i < v.len()
        invariant
            i <= v@.len(),
            d == post_drafts_view(v@),
            d.len() == v@.len(),
            lookup(d, lang@) == lookup(d.skip(i as int), lang@),
        decreases v@.len() - i,
    {
        let ghost rest = d.skip(i as int);
        assert(rest[0] == d[i as int]);
        assert(rest.drop_first() =~= d.skip(i + 1));
        if str_eq(v[i].0.as_str(), lang) {
            return Some(i);
        }
        i = i + 1;
    }
    assert(d.skip(i as int) =~= Seq::<(Seq<char>, PostFields)>::empty());
    None
}

/// Sets the draft of `lang`.
fn upsert_post_draft(v: &mut Vec<(String, TranslationDraft)>, lang: String, draft: TranslationDraft)
    ensures
        post_drafts_view(final(v)@) == upsert(post_drafts_view(old(v)@), lang@, post_fields(draft)),
{
    let ghost d = post_drafts_view(v@);
    let ghost f = post_fields(draft);
    let ghost lv = lang@;
    let ghost old_v = v@;
    let mut i: usize = 0;
    while i < v.len()
        invariant
            i <= v@.len(),
            v@ == old(v)@,
            old_v == old(v)@,
            lv == lang@,
            f == post_fields(draft),
            d == post_drafts_view(v@),
            d.len() == v@.len(),
            forall|k: int| 0 <= k < i ==> d[k].0 != lv,
        decreases v@.len() - i,
    {
        if str_eq(v[i].0.as_str(), lang.as_str()) {
            proof {
                lemma_upsert_at(d, lang@, f, i as int);
            }
            v.set(i, (lang, draft));
            assert(v@ == old_v.update(i as int, v@[i as int]));
            assert(post_entry(v@[i as int]) == (lv, f));
            assert(post_drafts_view(v@) =~= d.update(i as int, (lv, f)));
            return;
        }
        i = i + 1;
    }
    proof {
        lemma_upsert_absent(d, lang@, f);
    }
    v.push((lang, draft));
    assert(post_drafts_view(v@) =~= d.push((lv, f)));
}

/// Every tag that `kept` keeps satisfies `keep`.
proof fn lemma_kept_satisfies(tags: Seq<String>, keep: spec_fn(Seq<char>) -> bool)
    ensures
        forall|i: int| 0 <= i < kept(tags, keep).len() ==> keep(#[trigger] kept(tags, keep)[i]),
    decreases tags.len(),
{
    if tags.len() > 0 {
        let rest = kept(tags.drop_last(), keep);
        lemma_kept_satisfies(tags.drop_last(), keep);
        assert forall|i: int| 0 <= i < kept(tags, keep).len() implies keep(#[trigger] kept(tags, keep)[i]) by {
            if i < rest.len() {
                assert(kept(tags, keep)[i] == rest[i]);
            }
        }
    }
}

/// Law: at most 8 tags are suggested, and each is an unselected tag whose
/// lowercase form contains the trimmed, lowercased query.
pub proof fn law_suggestions_bounded(available: Seq<String>, selected: Seq<String>, query: Seq<char>)
    ensures
        matching_spec(available, selected, query).len() <= 8,
        forall|i: int| 0 <= i < matching_spec(available, selected, query).len() ==> offered(
            selected,
            unicode_lowercase(trim_seq(query)),
            #[trigger] matching_spec(available, selected, query)[i],
        ),
{
    let q = unicode_lowercase(trim_seq(query));
    let keep = |t: Seq<char>| offered(selected, q, t);
    lemma_kept_satisfies(available, keep);
    if q.len() > 0 {
        let k = kept(available, keep);
        assert forall|i: int| 0 <= i < take_seq(k, 8).len() implies offered(selected, q, #[trigger] take_seq(k, 8)[i]) by {
            assert(keep(k[i]));
        }
    }
}

/// Law: a query names a new tag exactly when, trimmed, it is not blank
/// and matches, up to ASCII case, neither an available tag nor an already
/// selected one; in particular a selected tag is never offered again.
pub proof fn law_addable_only_new_tags(available: Seq<String>, selected: Seq<String>, query: Seq<char>)
    ensures
        (forall|j: int| 0 <= j < selected.len()
            && eq_ignore_ascii_case_seq(#[trigger] selected[j]@, trim_seq(query)) ==> !addable_spec(available, selected, query)),
        (forall|j: int| 0 <= j < available.len()
            && eq_ignore_ascii_case_seq(#[trigger] available[j]@, trim_seq(query)) ==> !addable_spec(available, selected, query)),
        trim_seq(query).len() == 0 ==> !addable_spec(available, selected, query),
        (trim_seq(query).len() > 0
            && (forall|j: int| 0 <= j < selected.len() ==> !eq_ignore_ascii_case_seq(#[trigger] selected[j]@, trim_seq(query)))
            && (forall|j: int| 0 <= j < available.len() ==> !eq_ignore_ascii_case_seq(#[trigger] available[j]@, trim_seq(query))))
            ==> addable_spec(available, selected, query),
{
}

/// What the post editor view asks for.
#[derive(Debug, Clone)]
pub enum PostEditorMsg {
    ToggleQuickActions,
    AnalyzeWithAi,
    AnalyzeTaxonomy,
    AddGalleryImages,
    DetectLanguage,
    Translate,
    TranslateTo(String),
    SwitchEditorMode(String),
    TitleChanged(String),
    SlugChanged(String),
    ExcerptChanged(String),
    ContentChanged(String),
    AuthorChanged(String),
    LanguageChanged(String),
    TemplateSlugChanged(String),
    ToggleDoNotTranslate(bool),
    ToggleMetadata,
    ToggleExcerpt,
    SwitchLanguage(String),
    TagsInputChanged(String),
    TagsInputSubmit,
    AddSuggestedTag(String),
    RemoveTag(String),
    CategoriesInputChanged(String),
    CategoriesInputSubmit,
    RemoveCategory(String),
    Save,
    Publish,
    Discard,
    Delete,
    InsertLink,
    InsertMedia,
    Gallery,
    LinkExistingMedia,
    OpenLinkedMedia(String),
    UnlinkLinkedMedia(String),
    PostInsertLinkSelected(String),
    PostInsertLinkCreate,
    PostInsertMediaSelected(String),
    PostGalleryImageSelected(usize),
    PostInsertLinkTabSwitch(PostInsertLinkTab),
    PostInsertLinkSearch(String),
    PostInsertLinkUrlChanged(String),
    PostInsertLinkTextChanged(String),
    PostInsertLinkExternalInsert,
    PostInsertMediaSearch(String),
    PostGalleryPrevious,
    PostGalleryNext,
    PostGalleryCloseLightbox,
}

} // verus!
