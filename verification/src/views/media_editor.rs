//! The media editor's language switching: each language keeps its own
//! draft of title, alt text and caption while another one is edited.

use vstd::prelude::*;
use crate::text::strs_view;
use crate::text::{copy_or_empty, copy_str, join_strs, joined, or_empty, str_eq};
use crate::views::language_drafts::{
    entry_languages, flag_language_list, flag_languages, lemma_lookup_upsert, lemma_upsert_absent,
    lemma_upsert_at, lookup, upsert,
};
use crate::views::post_editor::{build_flags, copy_strs, flags_spec, TranslationFlag};

verus! {

broadcast use vstd::seq_lib::group_to_multiset_ensures;

/// A post linked to a media item.
#[derive(Debug, Clone)]
pub struct LinkedPostItem {
    pub post_id: String,
    pub title: String,
}

/// Saved draft content for a single media translation language.
#[derive(Debug, Clone)]
pub struct MediaTranslationDraft {
    pub title: String,
    pub alt: String,
    pub caption: String,
    pub is_dirty: bool,
}

/// State for an open media editor. `translation_drafts` maps a language to
/// its draft; the first entry for a language is the one in force.
#[derive(Debug, Clone)]
pub struct MediaEditorState {
    pub media_id: String,
    pub filename: String,
    pub original_name: String,
    pub mime_type: String,
    pub size: i64,
    pub width: Option<i32>,
    pub height: Option<i32>,
    pub title: String,
    pub alt: String,
    pub caption: String,
    pub author: String,
    pub language: String,
    pub file_path: String,
    pub tags: Vec<String>,
    pub tags_input: String,
    pub created_at: i64,
    pub updated_at: i64,
    pub is_dirty: bool,
    pub active_language: String,
    pub canonical_language: String,
    pub blog_languages: Vec<String>,
    pub saved_canonical: Option<MediaTranslationDraft>,
    pub translation_drafts: Vec<(String, MediaTranslationDraft)>,
    pub linked_posts: Vec<LinkedPostItem>,
    pub post_picker_open: bool,
    pub post_picker_search: String,
    pub post_picker_results: Vec<LinkedPostItem>,
}

/// The value of a draft: title, alt text, caption and dirty flag.
pub ghost struct DraftFields {
    pub title: Seq<char>,
    pub alt: Seq<char>,
    pub caption: Seq<char>,
    pub is_dirty: bool,
}

/// The value of a saved draft.
pub open spec fn draft_fields(d: MediaTranslationDraft) -> DraftFields {
    DraftFields { title: d.title@, alt: d.alt@, caption: d.caption@, is_dirty: d.is_dirty }
}

/// The drafts by language, as `(language, fields)` pairs.
pub open spec fn drafts_view(v: Seq<(String, MediaTranslationDraft)>) -> Seq<(Seq<char>, DraftFields)> {
    v.map_values(|e: (String, MediaTranslationDraft)| entry_view(e))
}

/// One entry of the drafts: its language and its fields.
pub open spec fn entry_view(e: (String, MediaTranslationDraft)) -> (Seq<char>, DraftFields) {
    (e.0@, draft_fields(e.1))
}

/// The language state of the editor.
pub ghost struct LanguageState {
    pub active: Seq<char>,
    pub canonical: Seq<char>,
    pub fields: DraftFields,
    pub saved_canonical: Option<DraftFields>,
    pub drafts: Seq<(Seq<char>, DraftFields)>,
}

/// No title, alt text or caption, and not dirty.
pub open spec fn empty_fields() -> DraftFields {
    DraftFields { title: Seq::empty(), alt: Seq::empty(), caption: Seq::empty(), is_dirty: false }
}

/// Switching to `target`: the fields being edited are saved for the active
/// language (as the canonical draft or as its translation draft), then the
/// target's saved fields are loaded, or blank fields for a language without
/// a draft. Switching to the canonical language without a saved canonical
/// draft keeps the fields. Switching to the active language does nothing.
pub open spec fn switch_spec(s: LanguageState, target: Seq<char>) -> LanguageState {
    if target == s.active {
        s
    } else {
        let (saved, drafts) = if s.active == s.canonical {
            (Some(s.fields), s.drafts)
        } else {
            (s.saved_canonical, upsert(s.drafts, s.active, s.fields))
        };
        let fields = if target == s.canonical {
            match saved {
                Some(f) => f,
                None => s.fields,
            }
        } else {
            match lookup(drafts, target) {
                Some(f) => f,
                None => empty_fields(),
            }
        };
        LanguageState { active: target, canonical: s.canonical, fields: fields, saved_canonical: saved, drafts: drafts }
    }
}

impl MediaEditorState {
    /// The fields being edited.
    pub open spec fn fields(&self) -> DraftFields {
        DraftFields { title: self.title@, alt: self.alt@, caption: self.caption@, is_dirty: self.is_dirty }
    }

    /// The language state.
    pub open spec fn language_state(&self) -> LanguageState {
        LanguageState {
            active: self.active_language@,
            canonical: self.canonical_language@,
            fields: self.fields(),
            saved_canonical: match self.saved_canonical {
                Some(d) => Some(draft_fields(d)),
                None => None,
            },
            drafts: drafts_view(self.translation_drafts@),
        }
    }

    /// A copy of the fields being edited.
    fn current_draft(&self) -> (d: MediaTranslationDraft)
        ensures
            draft_fields(d) == self.fields(),
    {
        MediaTranslationDraft {
            title: copy_str(self.title.as_str()),
            alt: copy_str(self.alt.as_str()),
            caption: copy_str(self.caption.as_str()),
            is_dirty: self.is_dirty,
        }
    }

    /// Loads the fields of a draft.
    fn load(&mut self, d: &MediaTranslationDraft)
        ensures
            final(self).fields() == draft_fields(*d),
            *final(self) == (MediaEditorState {
                title: final(self).title,
                alt: final(self).alt,
                caption: final(self).caption,
                is_dirty: final(self).is_dirty,
                ..*old(self)
            }),
    {
        self.title = copy_str(d.title.as_str());
        self.alt = copy_str(d.alt.as_str());
        self.caption = copy_str(d.caption.as_str());
        self.is_dirty = d.is_dirty;
    }

    /// Switches to another language: saves the current fields, loads the target's.
    pub fn switch_language(&mut self, target_lang: &str)
        ensures
            final(self).language_state() == switch_spec(old(self).language_state(), target_lang@),
            *final(self) == (MediaEditorState {
                title: final(self).title,
                alt: final(self).alt,
                caption: final(self).caption,
                is_dirty: final(self).is_dirty,
                active_language: final(self).active_language,
                saved_canonical: final(self).saved_canonical,
                translation_drafts: final(self).translation_drafts,
                ..*old(self)
            }),
    {
        if str_eq(target_lang, self.active_language.as_str()) {
            return;
        }
        let current = self.current_draft();
        if str_eq(self.active_language.as_str(), self.canonical_language.as_str()) {
            self.saved_canonical = Some(current);
        } else {
            let lang = copy_str(self.active_language.as_str());
            upsert_draft(&mut self.translation_drafts, lang, current);
        }
        if str_eq(target_lang, self.canonical_language.as_str()) {
            let saved = match &self.saved_canonical {
                Some(d) => Some(copy_draft(d)),
                None => None,
            };
            match saved {
                Some(d) => {
                    self.load(&d);
                },
                None => {},
            }
        } else {
            match find_draft(&self.translation_drafts, target_lang) {
                Some(i) => {
                    let d = copy_draft(&self.translation_drafts[i].1);
                    self.load(&d);
                },
                None => {
                    self.title = String::new();
                    self.alt = String::new();
                    self.caption = String::new();
                    self.is_dirty = false;
                },
            }
        }
        self.active_language = copy_str(target_lang);
    }
}

/// A stored media item, as far as the editor reads it.
#[derive(Debug, Clone)]
pub struct Media {
    pub id: String,
    pub filename: String,
    pub original_name: String,
    pub mime_type: String,
    pub size: i64,
    pub width: Option<i32>,
    pub height: Option<i32>,
    pub title: Option<String>,
    pub alt: Option<String>,
    pub caption: Option<String>,
    pub author: Option<String>,
    pub language: Option<String>,
    pub file_path: String,
    pub tags: Vec<String>,
    pub created_at: i64,
    pub updated_at: i64,
}

/// A stored translation of a media item's metadata.
#[derive(Debug, Clone)]
pub struct MediaTranslation {
    pub language: String,
    pub title: Option<String>,
    pub alt: Option<String>,
    pub caption: Option<String>,
}

/// The canonical language of an item: its language, `en` when it has none.
pub open spec fn canonical_of(language: Option<String>) -> Seq<char> {
    match language {
        Some(l) => l@,
        None => "en"@,
    }
}

/// The drafts that stored translations give, one per language; a later
/// translation of a language replaces an earlier one.
pub open spec fn media_drafts_from(ts: Seq<MediaTranslation>) -> Seq<(Seq<char>, DraftFields)>
    decreases ts.len(),
{
    if ts.len() == 0 {
        Seq::empty()
    } else {
        let t = ts.last();
        upsert(
            media_drafts_from(ts.drop_last()),
            t.language@,
            DraftFields { title: or_empty(t.title), alt: or_empty(t.alt), caption: or_empty(t.caption), is_dirty: false },
        )
    }
}

impl MediaEditorState {
    /// The editor for a media item, its translations and linked posts, in
    /// its canonical language with nothing edited.
    pub fn from_media(
        media: &Media,
        blog_languages: &[String],
        translations: &[MediaTranslation],
        linked_posts: Vec<LinkedPostItem>,
    ) -> (s: Self)
        ensures
            s.media_id@ == media.id@,
            s.filename@ == media.filename@,
            s.original_name@ == media.original_name@,
            s.mime_type@ == media.mime_type@,
            s.size == media.size,
            s.width == media.width,
            s.height == media.height,
            s.title@ == or_empty(media.title),
            s.alt@ == or_empty(media.alt),
            s.caption@ == or_empty(media.caption),
            s.author@ == or_empty(media.author),
            s.language@ == canonical_of(media.language),
            s.file_path@ == media.file_path@,
            strs_view(s.tags@) == strs_view(media.tags@),
            s.tags_input@ == joined(strs_view(media.tags@), ", "@),
            s.created_at == media.created_at,
            s.updated_at == media.updated_at,
            !s.is_dirty,
            s.active_language@ == canonical_of(media.language),
            s.canonical_language@ == canonical_of(media.language),
            strs_view(s.blog_languages@) == strs_view(blog_languages@),
            s.saved_canonical is None,
            drafts_view(s.translation_drafts@) == media_drafts_from(translations@),
            s.linked_posts == linked_posts,
            !s.post_picker_open,
            s.post_picker_search@.len() == 0,
            s.post_picker_results@.len() == 0,
    {
        let canonical = match &media.language {
            Some(l) => copy_str(l.as_str()),
            None => copy_str("en"),
        };
        let mut drafts: Vec<(String, MediaTranslationDraft)> = Vec::new();
        let mut i: usize = 0;
        while i < translations.len()
            invariant
                i <= translations@.len(),
                drafts_view(drafts@) == media_drafts_from(translations@.take(i as int)),
            decreases translations@.len() - i,
        {
            let tr = &translations[i];
            let draft = MediaTranslationDraft {
                title: copy_or_empty(&tr.title),
                alt: copy_or_empty(&tr.alt),
                caption: copy_or_empty(&tr.caption),
                is_dirty: false,
            };
            proof {
                assert(translations@.take(i + 1).drop_last() =~= translations@.take(i as int));
            }
            upsert_draft(&mut drafts, copy_str(tr.language.as_str()), draft);
            i = i + 1;
        }
        assert(translations@.take(translations@.len() as int) =~= translations@);
        let tags = copy_strs(media.tags.as_slice());
        let tags_input = join_strs(&media.tags, ", ");
        let blog = copy_strs(blog_languages);
        MediaEditorState {
            media_id: copy_str(media.id.as_str()),
            filename: copy_str(media.filename.as_str()),
            original_name: copy_str(media.original_name.as_str()),
            mime_type: copy_str(media.mime_type.as_str()),
            size: media.size,
            width: media.width,
            height: media.height,
            title: copy_or_empty(&media.title),
            alt: copy_or_empty(&media.alt),
            caption: copy_or_empty(&media.caption),
            author: copy_or_empty(&media.author),
            language: copy_str(canonical.as_str()),
            file_path: copy_str(media.file_path.as_str()),
            tags: tags,
            tags_input: tags_input,
            created_at: media.created_at,
            updated_at: media.updated_at,
            is_dirty: false,
            active_language: copy_str(canonical.as_str()),
            canonical_language: canonical,
            blog_languages: blog,
            saved_canonical: None,
            translation_drafts: drafts,
            linked_posts: linked_posts,
            post_picker_open: false,
            post_picker_search: String::new(),
            post_picker_results: Vec::new(),
        }
    }

    /// The languages of the translation drafts, in order.
    fn draft_languages(&self) -> (res: Vec<String>)
        ensures
            strs_view(res@) == entry_languages(drafts_view(self.translation_drafts@)),
    {
        let ghost el = entry_languages(drafts_view(self.translation_drafts@));
        let mut res: Vec<String> = Vec::new();
        let mut i: usize = 0;
        while i < self.translation_drafts.len()
            invariant
                i <= self.translation_drafts@.len(),
                el == entry_languages(drafts_view(self.translation_drafts@)),
                res@.len() == i,
                strs_view(res@) == el.take(i as int),
            decreases self.translation_drafts@.len() - i,
        {
            let c = copy_str(self.translation_drafts[i].0.as_str());
            let ghost before = res@;
            res.push(c);
            assert(drafts_view(self.translation_drafts@)[i as int] == entry_view(self.translation_drafts@[i as int]));
            assert(el[i as int] == c@);
            assert forall|k: int| 0 <= k <= i implies #[trigger] strs_view(res@)[k] == el[k] by {
                if k < i {
                    assert(strs_view(before)[k] == el.take(i as int)[k]);
                }
            }
            assert(strs_view(res@) =~= el.take(i + 1));
            i = i + 1;
        }
        assert(el.take(i as int) =~= el);
        res
    }

    /// The status each flag shows, by language: `translation` for a
    /// language with a draft, else `missing`.
    pub open spec fn flag_status(&self) -> spec_fn(Seq<char>) -> Seq<char> {
        |l: Seq<char>| if lookup(drafts_view(self.translation_drafts@), l) is Some { "translation"@ } else { "missing"@ }
    }

    /// The translation flags: the canonical language first, then the
    /// configured and drafted languages, sorted. `flag_emoji` gives each
    /// language's flag.
    pub fn translation_flags<F: Fn(&str) -> String>(&self, flag_emoji: F) -> (res: Vec<TranslationFlag>)
        requires
            forall|x: &str| flag_emoji.requires((x,)),
        ensures
            flags_spec(
                res@,
                self.active_language@,
                self.canonical_language@,
                flag_language_list(
                    self.canonical_language@,
                    strs_view(self.blog_languages@),
                    entry_languages(drafts_view(self.translation_drafts@)),
                ),
                self.flag_status(),
                flag_emoji,
            ),
    {
        let drafts = self.draft_languages();
        let langs = flag_languages(self.canonical_language.as_str(), self.blog_languages.as_slice(), drafts.as_slice());
        let mut statuses: Vec<String> = Vec::new();
        let mut i: usize = 0;
        while i < langs.len()
            invariant
                i <= langs@.len(),
                statuses@.len() == i,
                forall|k: int| 0 <= k < i ==> (#[trigger] statuses@[k])@ == (self.flag_status())(langs@[k]@),
            decreases langs@.len() - i,
        {
            let st = match find_draft(&self.translation_drafts, langs[i].as_str()) {
                Some(_) => copy_str("translation"),
                None => copy_str("missing"),
            };
            statuses.push(st);
            i = i + 1;
        }
        proof {
            assert(strs_view(langs@).len() == strs_view(langs@).to_multiset().len());
        }
        build_flags(
            self.active_language.as_str(),
            self.canonical_language.as_str(),
            langs,
            statuses,
            flag_emoji,
            Ghost(self.flag_status()),
        )
    }
}

/// A copy of a draft.
fn copy_draft(d: &MediaTranslationDraft) -> (res: MediaTranslationDraft)
    ensures
        draft_fields(res) == draft_fields(*d),
{
    MediaTranslationDraft {
        title: copy_str(d.title.as_str()),
        alt: copy_str(d.alt.as_str()),
        caption: copy_str(d.caption.as_str()),
        is_dirty: d.is_dirty,
    }
}

/// The index of the first draft of `lang`.
fn find_draft(v: &Vec<(String, MediaTranslationDraft)>, lang: &str) -> (res: Option<usize>)
    ensures
        match res {
            Some(i) => i < v@.len() && lookup(drafts_view(v@), lang@) == Some(draft_fields(v@[i as int].1)),
            None => lookup(drafts_view(v@), lang@) is None,
        },
{
    let ghost d = drafts_view(v@);
    assert(d.skip(0) =~= d);
    let mut i: usize = 0;
    while i < v.len()
        invariant
            i <= v@.len(),
            d == drafts_view(v@),
            d.len() == v@.len(),
            lookup(d, lang@) == lookup(d.skip(i as int), lang@),
        decreases v@.len() - i,
    {
        let ghost rest = d.skip(i as int);
        assert(rest[0] == d[i as int]);
        assert(rest.drop_first() =~= d.skip(i + 1));
        if str_eq(v[i].0.as_str(), lang) {
            return Some(i);
        }
        i = i + 1;
    }
    assert(d.skip(i as int) =~= Seq::<(Seq<char>, DraftFields)>::empty());
    None
}

/// Sets the draft of `lang`.
fn upsert_draft(v: &mut Vec<(String, MediaTranslationDraft)>, lang: String, draft: MediaTranslationDraft)
    ensures
        drafts_view(final(v)@) == upsert(drafts_view(old(v)@), lang@, draft_fields(draft)),
{
    let ghost d = drafts_view(v@);
    let ghost f = draft_fields(draft);
    let ghost lv = lang@;
    let ghost old_v = v@;
    let mut i: usize = 0;
    while i < v.len()
        invariant
            i <= v@.len(),
            v@ == old(v)@,
            old_v == old(v)@,
            lv == lang@,
            f == draft_fields(draft),
            d == drafts_view(v@),
            d.len() == v@.len(),
            forall|k: int| 0 <= k < i ==> d[k].0 != lv,
        decreases v@.len() - i,
    {
        if str_eq(v[i].0.as_str(), lang.as_str()) {
            proof {
                lemma_upsert_at(d, lang@, f, i as int);
            }
            v.set(i, (lang, draft));
            assert(v@ == old_v.update(i as int, v@[i as int]));
            assert(entry_view(v@[i as int]) == (lv, f));
            assert(drafts_view(v@) =~= d.update(i as int, (lv, f)));
            return;
        }
        i = i + 1;
    }
    proof {
        lemma_upsert_absent(d, lang@, f);
    }
    v.push((lang, draft));
    assert(drafts_view(v@) =~= d.push((lang@, f)));
}

/// Law: switching to another language and back restores the fields that
/// were being edited.
pub proof fn law_switch_round_trip(s: LanguageState, target: Seq<char>)
    requires
        target != s.active,
    ensures
        switch_spec(switch_spec(s, target), s.active).fields == s.fields,
{
    let s1 = switch_spec(s, target);
    if s.active == s.canonical {
        assert(s1.saved_canonical == Some(s.fields));
    } else {
        let drafts1 = upsert(s.drafts, s.active, s.fields);
        lemma_lookup_upsert(s.drafts, s.active, s.fields, s.active);
        if target == s.canonical {
            assert(lookup(s1.drafts, s.active) == Some(s.fields));
        } else {
            lemma_lookup_upsert(drafts1, target, s1.fields, s.active);
        }
    }
}

/// What the media editor view asks for.
#[derive(Debug, Clone)]
pub enum MediaEditorMsg {
    AnalyzeWithAi,
    DetectLanguage,
    TranslateMetadata,
    TranslateTo(String),
    TitleChanged(String),
    AltChanged(String),
    CaptionChanged(String),
    AuthorChanged(String),
    LanguageChanged(String),
    TagsChanged(String),
    SwitchLanguage(String),
    TogglePostPicker,
    PostPickerSearchChanged(String),
    LinkPost(String),
    OpenLinkedPost(String),
    UnlinkPost(String),
    Save,
    Delete,
}

} // verus!
