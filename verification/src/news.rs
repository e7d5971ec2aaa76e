//! Kagi News: languages, categories and content filters.
//!
//! Content filters hide or blur stories that mention keywords, chosen from
//! built-in presets and given by the user. This module resolves a filter
//! request into its keywords, matches them against a story's text on word
//! boundaries, and decides what becomes of each story.
use vstd::prelude::*;

use crate::error::{fails_with, ErrorKind, KagiError};
use crate::http::join_space;
use crate::text::{
    chars_of, eq_ignore_ascii_case, equal_ignore_ascii_case, is_blank, occurs_at, opt_view,
    str_equal, string_views, trim_ws, trimmed, trimmed_nonblank, trimmed_optional,
};

verus! {

/// What becomes of a story that matches a filter.
#[derive(Debug, Clone, Copy, PartialEq, Eq, Structural)]
pub enum NewsFilterMode {
    /// Matching stories are left out.
    Hide,
    /// Matching stories are kept and tagged with the keywords they matched.
    Blur,
}

impl NewsFilterMode {
    /// The name of the mode.
    pub open spec fn spec_as_str(self) -> Seq<char> {
        match self {
            NewsFilterMode::Hide => "hide"@,
            NewsFilterMode::Blur => "blur"@,
        }
    }

    /// The name of the mode.
    pub fn as_str(self) -> (s: &'static str)
        ensures
            s@ == self.spec_as_str(),
    {
        match self {
            NewsFilterMode::Hide => "hide",
            NewsFilterMode::Blur => "blur",
        }
    }
}

/// Which parts of a story a filter reads.
#[derive(Debug, Clone, Copy, PartialEq, Eq, Structural)]
pub enum NewsFilterScope {
    /// Title and category.
    Title,
    /// The short summary.
    Summary,
    /// Everything: title, category, summary, perspectives, sources, domains
    /// and articles.
    All,
}

impl NewsFilterScope {
    /// The name of the scope.
    pub open spec fn spec_as_str(self) -> Seq<char> {
        match self {
            NewsFilterScope::Title => "title"@,
            NewsFilterScope::Summary => "summary"@,
            NewsFilterScope::All => "all"@,
        }
    }

    /// The name of the scope.
    pub fn as_str(self) -> (s: &'static str)
        ensures
            s@ == self.spec_as_str(),
    {
        match self {
            NewsFilterScope::Title => "title",
            NewsFilterScope::Summary => "summary",
            NewsFilterScope::All => "all",
        }
    }
}

/// Filter parameters for the Kagi News API.
#[derive(Debug, Clone)]
pub struct NewsFilterRequest {
    pub preset_ids: Vec<String>,
    pub keywords: Vec<String>,
    pub mode: NewsFilterMode,
    pub scope: NewsFilterScope,
}

/// A copy of a list of strings.
pub fn copy_strings(v: &Vec<String>) -> (r: Vec<String>)
    ensures
        string_views(r@) == string_views(v@),
{
    let mut r: Vec<String> = Vec::new();
    let mut i: usize = 0;
    while i < v.len()
        invariant
            i <= v.len(),
            string_views(r@) =~= string_views(v@).take(i as int),
        decreases v.len() - i,
    {
        let ghost old_r = r@;
        let s = v[i].as_str().to_owned();
        r.push(s);
        assert(string_views(r@) =~= string_views(old_r).push(s@));
        assert(string_views(v@).take(i + 1) =~= string_views(v@).take(i as int).push(v@[i as int]@));
        i = i + 1;
    }
    assert(string_views(v@).take(v.len() as int) =~= string_views(v@));
    r
}

/// The language used for News: the trimmed code, or `default` when blank.
pub open spec fn news_lang(raw: Seq<char>) -> Seq<char> {
    if is_blank(raw) {
        "default"@
    } else {
        trim_ws(raw)
    }
}

/// Normalizes a News language code.
pub fn normalize_news_lang(raw: &str) -> (r: String)
    ensures
        r@ == news_lang(raw@),
{
    let t = trimmed(raw);
    if t.as_str().is_empty() {
        "default".to_owned()
    } else {
        t
    }
}

/// The keywords of a built-in filter preset.
#[derive(Debug, Clone)]
pub enum NewsFilterPresetKeywords {
    /// One list for every language.
    Flat(Vec<String>),
    /// A list per language code (each code at most once).
    Localized(Vec<(String, Vec<String>)>),
}

/// A built-in news filter preset.
#[derive(Debug, Clone)]
pub struct NewsFilterPresetDefinition {
    pub id: String,
    pub label: String,
    pub keywords: NewsFilterPresetKeywords,
}

/// The keyword list of the first entry for `language`, if any.
pub open spec fn localized_lookup(entries: Seq<(String, Vec<String>)>, language: Seq<char>) -> Option<
    Seq<Seq<char>>,
>
    decreases entries.len(),
{
    if entries.len() == 0 {
        None
    } else if entries[0].0@ == language {
        Some(string_views(entries[0].1@))
    } else {
        localized_lookup(entries.drop_first(), language)
    }
}

impl NewsFilterPresetDefinition {
    /// The preset's keywords for `language`: a flat list as it is; a localized
    /// one for the language, else for `default`, else for `en`, else none.
    pub open spec fn keywords_for(&self, language: Seq<char>) -> Seq<Seq<char>> {
        match self.keywords {
            NewsFilterPresetKeywords::Flat(k) => string_views(k@),
            NewsFilterPresetKeywords::Localized(m) => match localized_lookup(m@, language) {
                Some(k) => k,
                None => match localized_lookup(m@, "default"@) {
                    Some(k) => k,
                    None => match localized_lookup(m@, "en"@) {
                        Some(k) => k,
                        None => seq![],
                    },
                },
            },
        }
    }

    /// The preset's keywords for `language`.
    pub fn resolve_keywords(&self, language: &str) -> (r: Vec<String>)
        ensures
            string_views(r@) == self.keywords_for(language@),
    {
        match &self.keywords {
            NewsFilterPresetKeywords::Flat(k) => copy_strings(k),
            NewsFilterPresetKeywords::Localized(m) => {
                if let Some(k) = lookup_localized(m, language) {
                    return k;
                }
                if let Some(k) = lookup_localized(m, "default") {
                    return k;
                }
                if let Some(k) = lookup_localized(m, "en") {
                    return k;
                }
                Vec::new()
            },
        }
    }
}

/// The keyword list of the first entry for `language`, if any.
fn lookup_localized(entries: &Vec<(String, Vec<String>)>, language: &str) -> (r: Option<
    Vec<String>,
>)
    ensures
        match r {
            Some(k) => localized_lookup(entries@, language@) == Some(string_views(k@)),
            None => localized_lookup(entries@, language@) is None,
        },
{
    let mut i: usize = 0;
    assert(entries@.skip(0) =~= entries@);
    while i < entries.len()
        invariant
            i <= entries.len(),
            localized_lookup(entries@, language@) == localized_lookup(
                entries@.skip(i as int),
                language@,
            ),
        decreases entries.len() - i,
    {
        assert(entries@.skip(i as int).drop_first() =~= entries@.skip(i + 1));
        assert(entries@.skip(i as int)[0] == entries@[i as int]);
        if str_equal(entries[i].0.as_str(), language) {
            return Some(copy_strings(&entries[i].1));
        }
        i = i + 1;
    }
    None
}

/// One preset as listed to the user.
#[derive(Debug, Clone)]
pub struct NewsFilterPresetListEntry {
    pub id: String,
    pub label: String,
    pub keywords: Vec<String>,
}

/// The built-in presets for one language.
#[derive(Debug, Clone)]
pub struct NewsFilterPresetListResponse {
    pub language: String,
    pub presets: Vec<NewsFilterPresetListEntry>,
}

/// Returns the built-in news filter presets for a given language: each
/// preset with its keywords for the normalized language, in order.
pub fn execute_news_filter_presets(lang: &str, presets: &Vec<NewsFilterPresetDefinition>) -> (r:
    Result<NewsFilterPresetListResponse, KagiError>)
    ensures
        r matches Ok(list) && {
            &&& list.language@ == news_lang(lang@)
            &&& list.presets.len() == presets.len()
            &&& forall|i: int|
                0 <= i < presets.len() ==> {
                    &&& (#[trigger] list.presets[i]).id@ == presets[i].id@
                    &&& list.presets[i].label@ == presets[i].label@
                    &&& string_views(list.presets[i].keywords@) == presets[i].keywords_for(
                        news_lang(lang@),
                    )
                }
        },
{
    let language = normalize_news_lang(lang);
    let mut entries: Vec<NewsFilterPresetListEntry> = Vec::new();
    let mut i: usize = 0;
    while i < presets.len()
        invariant
            i <= presets.len(),
            language@ == news_lang(lang@),
            entries.len() == i,
            forall|j: int|
                0 <= j < i ==> {
                    &&& (#[trigger] entries[j]).id@ == presets[j].id@
                    &&& entries[j].label@ == presets[j].label@
                    &&& string_views(entries[j].keywords@) == presets[j].keywords_for(news_lang(lang@))
                },
        decreases presets.len() - i,
    {
        let preset = &presets[i];
        let keywords = preset.resolve_keywords(language.as_str());
        entries.push(
            NewsFilterPresetListEntry {
                id: preset.id.as_str().to_owned(),
                label: preset.label.as_str().to_owned(),
                keywords,
            },
        );
        i = i + 1;
    }
    Ok(NewsFilterPresetListResponse { language, presets: entries })
}

/// A character that continues a word for keyword matching: ASCII letters
/// and digits, and `_`.
pub open spec fn is_word_char(c: char) -> bool {
    ('a' <= c && c <= 'z') || ('A' <= c && c <= 'Z') || ('0' <= c && c <= '9') || c == '_'
}

/// Whether `ch` continues a word for keyword matching.
pub fn is_news_filter_word_char(ch: char) -> (b: bool)
    ensures
        b == is_word_char(ch),
{
    ('a' <= ch && ch <= 'z') || ('A' <= ch && ch <= 'Z') || ('0' <= ch && ch <= '9') || ch == '_'
}

/// The first index at or after `from` where `k` occurs in `t`, or -1.
pub open spec fn first_occurrence_from(t: Seq<char>, k: Seq<char>, from: int) -> int
    decreases t.len() + 1 - from,
{
    if from < 0 || from + k.len() > t.len() {
        -1
    } else if occurs_at(t, k, from) {
        from
    } else {
        first_occurrence_from(t, k, from + 1)
    }
}

/// The occurrence of `k` at `i` is a whole word: it is neither preceded nor
/// followed by a word character.
pub open spec fn on_word_boundaries(t: Seq<char>, k: Seq<char>, i: int) -> bool {
    &&& (i == 0 || !is_word_char(t[i - 1]))
    &&& (i + k.len() == t.len() || !is_word_char(t[i + k.len()]))
}

/// An occurrence found from `from` on lies at or after `from`.
pub proof fn lemma_first_occurrence_bounds(t: Seq<char>, k: Seq<char>, from: int)
    ensures
        first_occurrence_from(t, k, from) == -1 || (from <= first_occurrence_from(t, k, from)
            && occurs_at(t, k, first_occurrence_from(t, k, from))),
    decreases t.len() + 1 - from,
{
    if from >= 0 && from + k.len() <= t.len() && !occurs_at(t, k, from) {
        lemma_first_occurrence_bounds(t, k, from + 1);
    }
}

/// Among the occurrences of `k` in `t` that `str::match_indices` reports
/// from `from` on (non-overlapping, left to right), one is a whole word.
pub open spec fn keyword_hit_from(t: Seq<char>, k: Seq<char>, from: int) -> bool
    decreases t.len() - from,
{
    if k.len() == 0 || from < 0 {
        false
    } else {
        let i = first_occurrence_from(t, k, from);
        if i < 0 {
            false
        } else if on_word_boundaries(t, k, i) {
            true
        } else {
            proof {
                lemma_first_occurrence_bounds(t, k, from);
            }
            keyword_hit_from(t, k, i + k.len())
        }
    }
}

/// `text` mentions `keyword` as a whole word.
pub open spec fn mentions_keyword(text: Seq<char>, keyword: Seq<char>) -> bool {
    keyword.len() > 0 && keyword_hit_from(text, keyword, 0)
}

proof fn lemma_first_occurrence_is(t: Seq<char>, k: Seq<char>, from: int, i: int)
    requires
        0 <= from <= i,
        occurs_at(t, k, i),
        forall|j: int| from <= j < i ==> !occurs_at(t, k, j),
    ensures
        first_occurrence_from(t, k, from) == i,
    decreases i - from,
{
    if from < i {
        lemma_first_occurrence_is(t, k, from + 1, i);
    }
}

proof fn lemma_no_occurrence(t: Seq<char>, k: Seq<char>, from: int)
    requires
        0 <= from,
        forall|j: int| from <= j ==> !occurs_at(t, k, j),
    ensures
        first_occurrence_from(t, k, from) == -1,
    decreases t.len() + 1 - from,
{
    if from + k.len() <= t.len() {
        lemma_no_occurrence(t, k, from + 1);
    }
}

/// Whether `text` mentions `keyword` as a whole word.
pub fn text_contains_news_filter_keyword(text: &str, keyword: &str) -> (b: bool)
    ensures
        b == mentions_keyword(text@, keyword@),
{
    let t = chars_of(text);
    let k = chars_of(keyword);
    if k.len() == 0 {
        return false;
    }
    let mut from: usize = 0;
    while from <= t.len()
        invariant
            t@ == text@,
            k@ == keyword@,
            k.len() > 0,
            mentions_keyword(text@, keyword@) == keyword_hit_from(t@, k@, from as int),
        decreases t.len() + 1 - from,
    {
        match crate::text::find_from(&t, &k, from) {
            None => {
                proof {
                    lemma_no_occurrence(t@, k@, from as int);
                }
                return false;
            },
            Some(i) => {
                proof {
                    lemma_first_occurrence_is(t@, k@, from as int, i as int);
                }
                let end = i + k.len();
                let start_ok = i == 0 || !is_news_filter_word_char(t[i - 1]);
                let end_ok = end == t.len() || !is_news_filter_word_char(t[end]);
                if start_ok && end_ok {
                    return true;
                }
                from = end;
            },
        }
    }
    false
}

/// The normalized form of a filter keyword: trimmed and lowercased, or
/// `None` when that leaves nothing.
pub open spec fn normalized_keyword(raw: Seq<char>) -> Option<Seq<char>> {
    let l = crate::text::unicode_lowercase(trim_ws(raw));
    if l.len() == 0 {
        None
    } else {
        Some(l)
    }
}

/// Normalizes a filter keyword.
pub fn normalize_news_filter_keyword(raw: &str) -> (r: Option<String>)
    ensures
        opt_view(r) == normalized_keyword(raw@),
{
    let t = trimmed(raw);
    let l = crate::text::to_lowercase(t.as_str());
    if l.as_str().is_empty() {
        None
    } else {
        Some(l)
    }
}

/// `v` with `c` appended, unless `c` is in `v` already.
pub open spec fn add_unique(v: Seq<Seq<char>>, c: Seq<char>) -> Seq<Seq<char>> {
    if v.contains(c) {
        v
    } else {
        v.push(c)
    }
}

/// Whether a list of strings holds `s`.
pub fn contains_string(values: &Vec<String>, s: &str) -> (b: bool)
    ensures
        b == string_views(values@).contains(s@),
{
    let mut i: usize = 0;
    while i < values.len()
        invariant
            i <= values.len(),
            forall|j: int| 0 <= j < i ==> values@[j]@ != s@,
        decreases values.len() - i,
    {
        if str_equal(values[i].as_str(), s) {
            assert(string_views(values@)[i as int] == s@);
            return true;
        }
        i = i + 1;
    }
    assert(!string_views(values@).contains(s@)) by {
        if string_views(values@).contains(s@) {
            let j = choose|j: int| 0 <= j < values.len() && string_views(values@)[j] == s@;
            assert(values@[j]@ == s@);
        }
    }
    false
}

/// Appends `candidate` unless the list holds it already.
pub fn push_unique_string(values: &mut Vec<String>, candidate: String)
    ensures
        string_views(final(values)@) == add_unique(string_views(old(values)@), candidate@),
{
    if !contains_string(values, candidate.as_str()) {
        values.push(candidate);
        assert(string_views(values@) =~= string_views(old(values)@).push(candidate@));
    }
}

/// `v` with the normalized form of each keyword of `ks` added, in order,
/// skipping those that normalize to nothing and those already present.
pub open spec fn add_keywords(v: Seq<Seq<char>>, ks: Seq<Seq<char>>) -> Seq<Seq<char>>
    decreases ks.len(),
{
    if ks.len() == 0 {
        v
    } else {
        add_keywords(
            match normalized_keyword(ks[0]) {
                Some(n) => add_unique(v, n),
                None => v,
            },
            ks.drop_first(),
        )
    }
}

/// Adds the normalized form of each keyword of `ks` to `values`.
fn push_keywords(values: &mut Vec<String>, ks: &Vec<String>)
    ensures
        string_views(final(values)@) == add_keywords(string_views(old(values)@), string_views(ks@)),
{
    let mut i: usize = 0;
    let ghost kv = string_views(ks@);
    assert(kv.skip(0) =~= kv);
    while i < ks.len()
        invariant
            i <= ks.len(),
            kv == string_views(ks@),
            add_keywords(string_views(old(values)@), kv) == add_keywords(
                string_views(values@),
                kv.skip(i as int),
            ),
        decreases ks.len() - i,
    {
        assert(kv.skip(i as int).drop_first() =~= kv.skip(i + 1));
        assert(kv.skip(i as int)[0] == ks@[i as int]@);
        if let Some(n) = normalize_news_filter_keyword(ks[i].as_str()) {
            push_unique_string(values, n);
        }
        i = i + 1;
    }
    assert(kv.skip(i as int) =~= Seq::<Seq<char>>::empty());
}

/// The index of the first preset whose id equals `id` up to ASCII case.
pub open spec fn find_preset(presets: Seq<NewsFilterPresetDefinition>, id: Seq<char>) -> Option<
    int,
>
    decreases presets.len(),
{
    if presets.len() == 0 {
        None
    } else if eq_ignore_ascii_case(presets[0].id@, id) {
        Some(0)
    } else {
        match find_preset(presets.drop_first(), id) {
            Some(j) => Some(j + 1),
            None => None,
        }
    }
}

/// A preset found by id is one of the presets, with that id up to ASCII case.
pub proof fn lemma_find_preset(presets: Seq<NewsFilterPresetDefinition>, id: Seq<char>)
    ensures
        find_preset(presets, id) matches Some(j) ==> 0 <= j < presets.len() && eq_ignore_ascii_case(
            presets[j].id@,
            id,
        ),
    decreases presets.len(),
{
    if presets.len() > 0 && !eq_ignore_ascii_case(presets[0].id@, id) {
        lemma_find_preset(presets.drop_first(), id);
    }
}

/// The ids of the presets.
pub open spec fn preset_ids(presets: Seq<NewsFilterPresetDefinition>) -> Seq<Seq<char>> {
    presets.map_values(|p: NewsFilterPresetDefinition| p.id@)
}

/// The message for a preset id that names no preset.
pub open spec fn unknown_preset_message(id: Seq<char>, presets: Seq<NewsFilterPresetDefinition>) -> Seq<
    char,
> {
    "unknown news filter preset '"@ + id
        + "'. Run `kagi news --list-filter-presets` to inspect available presets. Valid preset ids: "@
        + crate::text::join_with(preset_ids(presets), ", "@)
}

/// The presets named by `ids`, in order, added to `ap`, and their keywords
/// for `lang` added to `ak`; or the message of the first id that is blank or
/// names no preset.
pub open spec fn resolve_presets(
    ids: Seq<Seq<char>>,
    presets: Seq<NewsFilterPresetDefinition>,
    lang: Seq<char>,
    ap: Seq<Seq<char>>,
    ak: Seq<Seq<char>>,
) -> Result<(Seq<Seq<char>>, Seq<Seq<char>>), Seq<char>>
    decreases ids.len(),
{
    if ids.len() == 0 {
        Ok((ap, ak))
    } else {
        let id = trim_ws(ids[0]);
        if id.len() == 0 {
            Err("news filter preset id cannot be empty"@)
        } else {
            match find_preset(presets, id) {
                None => Err(unknown_preset_message(id, presets)),
                Some(j) => resolve_presets(
                    ids.drop_first(),
                    presets,
                    lang,
                    add_unique(ap, presets[j].id@),
                    add_keywords(ak, presets[j].keywords_for(lang)),
                ),
            }
        }
    }
}

/// A filter request resolved into its presets and keywords.
#[derive(Debug, Clone)]
pub struct ResolvedNewsFilter {
    pub active_presets: Vec<String>,
    pub custom_keywords: Vec<String>,
    pub active_keywords: Vec<String>,
    pub mode: NewsFilterMode,
    pub scope: NewsFilterScope,
}

/// What a filter request resolves to: the active presets, the custom
/// keywords and all active keywords (preset keywords first, each keyword
/// once), or the message of the `Config` error it is refused with.
pub open spec fn resolution(
    request: NewsFilterRequest,
    presets: Seq<NewsFilterPresetDefinition>,
    lang: Seq<char>,
) -> Result<(Seq<Seq<char>>, Seq<Seq<char>>, Seq<Seq<char>>), Seq<char>> {
    if request.preset_ids.len() == 0 && request.keywords.len() == 0 {
        Err("news filters require at least one --filter-preset or --filter-keyword"@)
    } else {
        match resolve_presets(string_views(request.preset_ids@), presets, lang, seq![], seq![]) {
            Err(m) => Err(m),
            Ok((ap, ak)) => {
                let custom = add_keywords(seq![], string_views(request.keywords@));
                let active = add_keywords(ak, string_views(request.keywords@));
                if active.len() == 0 {
                    Err("news filters require at least one non-empty keyword"@)
                } else {
                    Ok((ap, custom, active))
                }
            },
        }
    }
}

/// The index of the first preset whose id equals `id` up to ASCII case.
fn find_preset_index(presets: &Vec<NewsFilterPresetDefinition>, id: &str) -> (r: Option<usize>)
    ensures
        match r {
            Some(j) => find_preset(presets@, id@) == Some(j as int),
            None => find_preset(presets@, id@) is None,
        },
{
    let mut i: usize = 0;
    assert(presets@.skip(0) =~= presets@);
    while i < presets.len()
        invariant
            i <= presets.len(),
            find_preset(presets@, id@) == match find_preset(presets@.skip(i as int), id@) {
                Some(j) => Some(j + i),
                None => None,
            },
        decreases presets.len() - i,
    {
        assert(presets@.skip(i as int).drop_first() =~= presets@.skip(i + 1));
        assert(presets@.skip(i as int)[0] == presets@[i as int]);
        if equal_ignore_ascii_case(presets[i].id.as_str(), id) {
            return Some(i);
        }
        i = i + 1;
    }
    assert(presets@.skip(i as int) =~= Seq::<NewsFilterPresetDefinition>::empty());
    None
}

/// The ids of the presets.
fn preset_id_list(presets: &Vec<NewsFilterPresetDefinition>) -> (r: Vec<String>)
    ensures
        string_views(r@) == preset_ids(presets@),
{
    let mut r: Vec<String> = Vec::new();
    let mut i: usize = 0;
    while i < presets.len()
        invariant
            i <= presets.len(),
            string_views(r@) =~= preset_ids(presets@).take(i as int),
        decreases presets.len() - i,
    {
        let ghost old_r = r@;
        let s = presets[i].id.as_str().to_owned();
        r.push(s);
        assert(string_views(r@) =~= string_views(old_r).push(s@));
        assert(preset_ids(presets@).take(i + 1) =~= preset_ids(presets@).take(i as int).push(
            presets@[i as int].id@,
        ));
        i = i + 1;
    }
    assert(preset_ids(presets@).take(presets.len() as int) =~= preset_ids(presets@));
    r
}

/// Resolves a filter request against the built-in presets.
///
/// # Errors
/// `KagiError::Config` when the request names neither preset nor keyword,
/// names a blank or unknown preset, or leaves no keyword at all.
pub fn resolve_news_filter_request(
    request: &NewsFilterRequest,
    presets: &Vec<NewsFilterPresetDefinition>,
    lang: &str,
) -> (r: Result<ResolvedNewsFilter, KagiError>)
    ensures
        match resolution(*request, presets@, lang@) {
            Ok((ap, custom, active)) => r matches Ok(f) && string_views(f.active_presets@) == ap
                && string_views(f.custom_keywords@) == custom && string_views(f.active_keywords@)
                == active && f.mode == request.mode && f.scope == request.scope,
            Err(m) => fails_with(r, ErrorKind::Config, m),
        },
{
    if request.preset_ids.len() == 0 && request.keywords.len() == 0 {
        return Err(
            KagiError::Config(
                "news filters require at least one --filter-preset or --filter-keyword".to_owned(),
            ),
        );
    }
    let mut active_presets: Vec<String> = Vec::new();
    let mut active_keywords: Vec<String> = Vec::new();
    let ghost ids = string_views(request.preset_ids@);
    let mut i: usize = 0;
    assert(ids.skip(0) =~= ids);
    assert(string_views(active_presets@) =~= Seq::<Seq<char>>::empty());
    assert(string_views(active_keywords@) =~= Seq::<Seq<char>>::empty());
    while i < request.preset_ids.len()
        invariant
            i <= request.preset_ids.len(),
            ids == string_views(request.preset_ids@),
            resolve_presets(ids, presets@, lang@, seq![], seq![]) == resolve_presets(
                ids.skip(i as int),
                presets@,
                lang@,
                string_views(active_presets@),
                string_views(active_keywords@),
            ),
        decreases request.preset_ids.len() - i,
    {
        assert(ids.skip(i as int).drop_first() =~= ids.skip(i + 1));
        assert(ids.skip(i as int)[0] == request.preset_ids@[i as int]@);
        let id = trimmed(request.preset_ids[i].as_str());
        if id.as_str().is_empty() {
            return Err(KagiError::Config("news filter preset id cannot be empty".to_owned()));
        }
        match find_preset_index(presets, id.as_str()) {
            None => {
                let valid = preset_id_list(presets);
                let joined = crate::text::join_strings(&valid, ", ");
                let mut m = "unknown news filter preset '".to_owned();
                m.append(id.as_str());
                m.append(
                    "'. Run `kagi news --list-filter-presets` to inspect available presets. Valid preset ids: ",
                );
                m.append(joined.as_str());
                return Err(KagiError::Config(m));
            },
            Some(j) => {
                proof {
                    lemma_find_preset(presets@, id@);
                }
                let preset = &presets[j];
                push_unique_string(&mut active_presets, preset.id.as_str().to_owned());
                let kws = preset.resolve_keywords(lang);
                push_keywords(&mut active_keywords, &kws);
            },
        }
        i = i + 1;
    }
    assert(ids.skip(i as int) =~= Seq::<Seq<char>>::empty());
    let mut custom_keywords: Vec<String> = Vec::new();
    assert(string_views(custom_keywords@) =~= Seq::<Seq<char>>::empty());
    push_keywords(&mut custom_keywords, &request.keywords);
    push_keywords(&mut active_keywords, &request.keywords);
    if active_keywords.len() == 0 {
        return Err(
            KagiError::Config("news filters require at least one non-empty keyword".to_owned()),
        );
    }
    Ok(
        ResolvedNewsFilter {
            active_presets,
            custom_keywords,
            active_keywords,
            mode: request.mode,
            scope: request.scope,
        },
    )
}

/// The text fields of a story that content filters read. A field is `Some`
/// when the story has it as a string.
#[derive(Debug, Clone)]
pub struct NewsStoryText {
    pub title: Option<String>,
    pub category: Option<String>,
    pub short_summary: Option<String>,
    pub perspectives: Vec<NewsPerspectiveText>,
    pub domains: Vec<Option<String>>,
    pub articles: Vec<NewsArticleText>,
}

/// The text of one perspective of a story and the names of its sources.
#[derive(Debug, Clone)]
pub struct NewsPerspectiveText {
    pub text: Option<String>,
    pub sources: Vec<Option<String>>,
}

/// The link and domain of one article of a story.
#[derive(Debug, Clone)]
pub struct NewsArticleText {
    pub link: Option<String>,
    pub domain: Option<String>,
}

/// A field's contribution to a story's text: its trimmed value unless blank.
pub open spec fn field_part(f: Option<String>) -> Seq<Seq<char>> {
    match trimmed_nonblank(opt_view(f)) {
        Some(t) => seq![t],
        None => seq![],
    }
}

/// The contributions of a list of fields, in order.
pub open spec fn fields_parts(fs: Seq<Option<String>>) -> Seq<Seq<char>>
    decreases fs.len(),
{
    if fs.len() == 0 {
        seq![]
    } else {
        fields_parts(fs.drop_last()) + field_part(fs.last())
    }
}

/// A perspective's contribution: its text, then its sources' names.
pub open spec fn perspective_parts(p: NewsPerspectiveText) -> Seq<Seq<char>> {
    field_part(p.text) + fields_parts(p.sources@)
}

/// The contributions of the perspectives, in order.
pub open spec fn perspectives_parts(ps: Seq<NewsPerspectiveText>) -> Seq<Seq<char>>
    decreases ps.len(),
{
    if ps.len() == 0 {
        seq![]
    } else {
        perspectives_parts(ps.drop_last()) + perspective_parts(ps.last())
    }
}

/// An article's contribution: its link, then its domain.
pub open spec fn article_parts(a: NewsArticleText) -> Seq<Seq<char>> {
    field_part(a.link) + field_part(a.domain)
}

/// The contributions of the articles, in order.
pub open spec fn articles_parts(arts: Seq<NewsArticleText>) -> Seq<Seq<char>>
    decreases arts.len(),
{
    if arts.len() == 0 {
        seq![]
    } else {
        articles_parts(arts.drop_last()) + article_parts(arts.last())
    }
}

/// The pieces of a story's text that a filter of `scope` reads: title and
/// category (title or all), short summary (summary or all), then
/// perspectives with their sources, domains and articles (all).
pub open spec fn story_parts(s: NewsStoryText, scope: NewsFilterScope) -> Seq<Seq<char>> {
    (if scope == NewsFilterScope::Title || scope == NewsFilterScope::All {
        field_part(s.title) + field_part(s.category)
    } else {
        seq![]
    }) + (if scope == NewsFilterScope::Summary || scope == NewsFilterScope::All {
        field_part(s.short_summary)
    } else {
        seq![]
    }) + (if scope == NewsFilterScope::All {
        perspectives_parts(s.perspectives@) + fields_parts(s.domains@) + articles_parts(
            s.articles@,
        )
    } else {
        seq![]
    })
}

/// The searchable text of a story: its pieces joined by spaces.
pub open spec fn story_text(s: NewsStoryText, scope: NewsFilterScope) -> Seq<char> {
    join_space(story_parts(s, scope))
}

/// Appends a field's trimmed value unless it is absent or blank.
fn push_story_string_field(field: &Option<String>, parts: &mut Vec<String>)
    ensures
        string_views(final(parts)@) == string_views(old(parts)@) + field_part(*field),
{
    let t = trimmed_optional(crate::search::as_opt_str(field));
    if let Some(v) = t {
        parts.push(v);
    }
    assert(string_views(parts@) =~= string_views(old(parts)@) + field_part(*field));
}

/// Appends the contributions of a list of fields.
fn push_fields(fields: &Vec<Option<String>>, parts: &mut Vec<String>)
    ensures
        string_views(final(parts)@) == string_views(old(parts)@) + fields_parts(fields@),
{
    let mut i: usize = 0;
    assert(fields@.take(0) =~= Seq::<Option<String>>::empty());
    assert(string_views(parts@) =~= string_views(old(parts)@) + fields_parts(fields@.take(0)));
    while i < fields.len()
        invariant
            i <= fields.len(),
            string_views(parts@) == string_views(old(parts)@) + fields_parts(fields@.take(i as int)),
        decreases fields.len() - i,
    {
        assert(fields@.take(i + 1).drop_last() =~= fields@.take(i as int));
        push_story_string_field(&fields[i], parts);
        assert(string_views(parts@) =~= string_views(old(parts)@) + fields_parts(
            fields@.take(i + 1),
        ));
        i = i + 1;
    }
    assert(fields@.take(fields.len() as int) =~= fields@);
}

/// Collects the searchable text of a story for a filter of `scope`.
pub fn collect_news_story_text(story: &NewsStoryText, scope: NewsFilterScope) -> (r: String)
    ensures
        r@ == story_text(*story, scope),
{
    let mut parts: Vec<String> = Vec::new();
    assert(string_views(parts@) =~= Seq::<Seq<char>>::empty());
    if scope == NewsFilterScope::Title || scope == NewsFilterScope::All {
        push_story_string_field(&story.title, &mut parts);
        push_story_string_field(&story.category, &mut parts);
    }
    let ghost p1 = string_views(parts@);
    if scope == NewsFilterScope::Summary || scope == NewsFilterScope::All {
        push_story_string_field(&story.short_summary, &mut parts);
    }
    let ghost p2 = string_views(parts@);
    if scope == NewsFilterScope::All {
        let mut i: usize = 0;
        assert(story.perspectives@.take(0) =~= Seq::<NewsPerspectiveText>::empty());
        assert(string_views(parts@) =~= p2 + perspectives_parts(story.perspectives@.take(0)));
        while i < story.perspectives.len()
            invariant
                i <= story.perspectives.len(),
                string_views(parts@) == p2 + perspectives_parts(story.perspectives@.take(i as int)),
            decreases story.perspectives.len() - i,
        {
            assert(story.perspectives@.take(i + 1).drop_last() =~= story.perspectives@.take(
                i as int,
            ));
            let p = &story.perspectives[i];
            push_story_string_field(&p.text, &mut parts);
            push_fields(&p.sources, &mut parts);
            assert(string_views(parts@) =~= p2 + perspectives_parts(
                story.perspectives@.take(i + 1),
            ));
            i = i + 1;
        }
        assert(story.perspectives@.take(story.perspectives.len() as int) =~= story.perspectives@);
        push_fields(&story.domains, &mut parts);
        let ghost p3 = string_views(parts@);
        let mut j: usize = 0;
        assert(story.articles@.take(0) =~= Seq::<NewsArticleText>::empty());
        assert(string_views(parts@) =~= p3 + articles_parts(story.articles@.take(0)));
        while j < story.articles.len()
            invariant
                j <= story.articles.len(),
                string_views(parts@) == p3 + articles_parts(story.articles@.take(j as int)),
            decreases story.articles.len() - j,
        {
            assert(story.articles@.take(j + 1).drop_last() =~= story.articles@.take(j as int));
            let a = &story.articles[j];
            push_story_string_field(&a.link, &mut parts);
            push_story_string_field(&a.domain, &mut parts);
            assert(string_views(parts@) =~= p3 + articles_parts(story.articles@.take(j + 1)));
            j = j + 1;
        }
        assert(story.articles@.take(story.articles.len() as int) =~= story.articles@);
    }
    assert(string_views(parts@) =~= story_parts(*story, scope));
    crate::text::join_strings(&parts, " ")
}

/// The keywords of `ks`, in order, that `text` mentions as whole words.
pub open spec fn keywords_mentioned(text: Seq<char>, ks: Seq<Seq<char>>) -> Seq<Seq<char>>
    decreases ks.len(),
{
    if ks.len() == 0 {
        seq![]
    } else if mentions_keyword(text, ks.last()) {
        keywords_mentioned(text, ks.drop_last()).push(ks.last())
    } else {
        keywords_mentioned(text, ks.drop_last())
    }
}

/// The keywords a story matches: those its lowercased searchable text
/// mentions as whole words (none for an empty text).
pub open spec fn story_matches(s: NewsStoryText, ks: Seq<Seq<char>>, scope: NewsFilterScope) -> Seq<
    Seq<char>,
> {
    if ks.len() == 0 || story_text(s, scope).len() == 0 {
        seq![]
    } else {
        keywords_mentioned(crate::text::unicode_lowercase(story_text(s, scope)), ks)
    }
}

/// The keywords of `keywords` that a story matches.
pub fn match_news_story_keywords(
    story: &NewsStoryText,
    keywords: &Vec<String>,
    scope: NewsFilterScope,
) -> (r: Vec<String>)
    ensures
        string_views(r@) == story_matches(*story, string_views(keywords@), scope),
{
    let mut r: Vec<String> = Vec::new();
    if keywords.len() == 0 {
        assert(string_views(r@) =~= Seq::<Seq<char>>::empty());
        return r;
    }
    let text = collect_news_story_text(story, scope);
    if text.as_str().is_empty() {
        assert(string_views(r@) =~= Seq::<Seq<char>>::empty());
        return r;
    }
    let lowered = crate::text::to_lowercase(text.as_str());
    let ghost ks = string_views(keywords@);
    let mut i: usize = 0;
    assert(ks.take(0) =~= Seq::<Seq<char>>::empty());
    assert(string_views(r@) =~= Seq::<Seq<char>>::empty());
    while i < keywords.len()
        invariant
            i <= keywords.len(),
            ks == string_views(keywords@),
            lowered@ == crate::text::unicode_lowercase(story_text(*story, scope)),
            string_views(r@) == keywords_mentioned(lowered@, ks.take(i as int)),
        decreases keywords.len() - i,
    {
        assert(ks.take(i + 1).drop_last() =~= ks.take(i as int));
        assert(ks.take(i + 1).last() == keywords@[i as int]@);
        if text_contains_news_filter_keyword(lowered.as_str(), keywords[i].as_str()) {
            let ghost old_r = r@;
            let k = keywords[i].as_str().to_owned();
            r.push(k);
            assert(string_views(r@) =~= string_views(old_r).push(k@));
        }
        i = i + 1;
    }
    assert(ks.take(keywords.len() as int) =~= ks);
    r
}

/// What becomes of one story under a filter.
#[derive(Debug, Clone)]
pub enum StoryVerdict {
    /// The story matches no keyword and is shown unchanged.
    Show,
    /// The story matches and is left out (hide mode).
    Hide,
    /// The story matches and is shown tagged with the keywords it matched
    /// (blur mode).
    Blur(Vec<String>),
}

/// What a filter summarizes of its work.
#[derive(Debug, Clone)]
pub struct NewsContentFilterSummary {
    pub mode: String,
    pub scope: String,
    pub active_presets: Vec<String>,
    pub custom_keywords: Vec<String>,
    pub active_keywords: Vec<String>,
    pub filtered_count: u64,
}

/// A filter applied to a list of stories: a verdict per story, in order,
/// and the summary.
#[derive(Debug, Clone)]
pub struct AppliedNewsFilter {
    pub verdicts: Vec<StoryVerdict>,
    pub summary: NewsContentFilterSummary,
}

/// The verdict for a story that matched `matched` under `mode`.
pub open spec fn verdict_is(v: StoryVerdict, matched: Seq<Seq<char>>, mode: NewsFilterMode) -> bool {
    if matched.len() == 0 {
        v is Show
    } else if mode == NewsFilterMode::Hide {
        v is Hide
    } else {
        v matches StoryVerdict::Blur(k) && string_views(k@) == matched
    }
}

/// How many of the stories match at least one keyword.
pub open spec fn matching_count(stories: Seq<NewsStoryText>, ks: Seq<Seq<char>>, scope: NewsFilterScope) -> nat
    decreases stories.len(),
{
    if stories.len() == 0 {
        0
    } else {
        matching_count(stories.drop_last(), ks, scope) + if story_matches(stories.last(), ks, scope).len() > 0 {
            1nat
        } else {
            0nat
        }
    }
}

proof fn lemma_matching_count_bound(stories: Seq<NewsStoryText>, ks: Seq<Seq<char>>, scope: NewsFilterScope)
    ensures
        matching_count(stories, ks, scope) <= stories.len(),
    decreases stories.len(),
{
    if stories.len() > 0 {
        lemma_matching_count_bound(stories.drop_last(), ks, scope);
    }
}

/// Applies a content filter to a list of stories.
///
/// # Errors
/// The errors of [`resolve_news_filter_request`].
pub fn apply_news_content_filters(
    stories: &Vec<NewsStoryText>,
    request: &NewsFilterRequest,
    presets: &Vec<NewsFilterPresetDefinition>,
    lang: &str,
) -> (r: Result<AppliedNewsFilter, KagiError>)
    ensures
        match resolution(*request, presets@, lang@) {
            Err(m) => fails_with(r, ErrorKind::Config, m),
            Ok((ap, custom, active)) => r matches Ok(applied) && {
                &&& applied.verdicts.len() == stories.len()
                &&& forall|i: int|
                    0 <= i < stories.len() ==> verdict_is(
                        #[trigger] applied.verdicts[i],
                        story_matches(stories[i], active, request.scope),
                        request.mode,
                    )
                &&& applied.summary.mode@ == request.mode.spec_as_str()
                &&& applied.summary.scope@ == request.scope.spec_as_str()
                &&& string_views(applied.summary.active_presets@) == ap
                &&& string_views(applied.summary.custom_keywords@) == custom
                &&& string_views(applied.summary.active_keywords@) == active
                &&& applied.summary.filtered_count == matching_count(stories@, active, request.scope)
            },
        },
{
    let resolved = resolve_news_filter_request(request, presets, lang)?;
    let ghost active = string_views(resolved.active_keywords@);
    let mut verdicts: Vec<StoryVerdict> = Vec::new();
    let mut filtered_count: u64 = 0;
    let mut i: usize = 0;
    assert(stories@.take(0) =~= Seq::<NewsStoryText>::empty());
    while i < stories.len()
        invariant
            i <= stories.len(),
            active == string_views(resolved.active_keywords@),
            resolved.mode == request.mode,
            resolved.scope == request.scope,
            verdicts.len() == i,
            forall|j: int|
                0 <= j < i ==> verdict_is(
                    #[trigger] verdicts[j],
                    story_matches(stories[j], active, request.scope),
                    request.mode,
                ),
            filtered_count == matching_count(stories@.take(i as int), active, request.scope),
            filtered_count <= i,
        decreases stories.len() - i,
    {
        assert(stories@.take(i + 1).drop_last() =~= stories@.take(i as int));
        let matched = match_news_story_keywords(&stories[i], &resolved.active_keywords, resolved.scope);
        if matched.len() == 0 {
            verdicts.push(StoryVerdict::Show);
        } else {
            filtered_count = filtered_count + 1;
            match resolved.mode {
                NewsFilterMode::Hide => verdicts.push(StoryVerdict::Hide),
                NewsFilterMode::Blur => verdicts.push(StoryVerdict::Blur(matched)),
            }
        }
        i = i + 1;
    }
    assert(stories@.take(stories.len() as int) =~= stories@);
    let summary = NewsContentFilterSummary {
        mode: resolved.mode.as_str().to_owned(),
        scope: resolved.scope.as_str().to_owned(),
        active_presets: resolved.active_presets,
        custom_keywords: resolved.custom_keywords,
        active_keywords: resolved.active_keywords,
        filtered_count,
    };
    Ok(AppliedNewsFilter { verdicts, summary })
}

/// A category of the latest News batch.
#[derive(Debug, Clone)]
pub struct NewsBatchCategory {
    pub id: String,
    pub category_id: String,
    pub category_name: String,
    pub source_language: String,
    pub timestamp: u64,
    pub read_count: u64,
    pub cluster_count: u64,
}

/// Descriptive metadata of a News category.
#[derive(Debug, Clone)]
pub struct NewsCategoryMetadata {
    pub category_id: String,
    pub category_type: String,
    pub display_name: String,
    pub is_core: bool,
    pub source_language: String,
}

/// A batch category together with its metadata, if any.
#[derive(Debug, Clone)]
pub struct NewsResolvedCategory {
    pub id: String,
    pub category_id: String,
    pub category_name: String,
    pub source_language: String,
    pub timestamp: u64,
    pub read_count: u64,
    pub cluster_count: u64,
    pub metadata: Option<NewsCategoryMetadata>,
}

/// `a` and `b` hold the same metadata.
pub open spec fn same_metadata(a: NewsCategoryMetadata, b: NewsCategoryMetadata) -> bool {
    &&& a.category_id@ == b.category_id@
    &&& a.category_type@ == b.category_type@
    &&& a.display_name@ == b.display_name@
    &&& a.is_core == b.is_core
    &&& a.source_language@ == b.source_language@
}

/// `r` is the batch category `c` with metadata `m`.
pub open spec fn merged_from(
    r: NewsResolvedCategory,
    c: NewsBatchCategory,
    m: Option<NewsCategoryMetadata>,
) -> bool {
    &&& r.id@ == c.id@
    &&& r.category_id@ == c.category_id@
    &&& r.category_name@ == c.category_name@
    &&& r.source_language@ == c.source_language@
    &&& r.timestamp == c.timestamp
    &&& r.read_count == c.read_count
    &&& r.cluster_count == c.cluster_count
    &&& match (r.metadata, m) {
        (Some(x), Some(y)) => same_metadata(x, y),
        (None, None) => true,
        _ => false,
    }
}

/// Joins a batch category with its metadata.
pub fn merge_news_category(
    category: NewsBatchCategory,
    metadata: Option<NewsCategoryMetadata>,
) -> (r: NewsResolvedCategory)
    ensures
        merged_from(r, category, metadata),
{
    NewsResolvedCategory {
        id: category.id,
        category_id: category.category_id,
        category_name: category.category_name,
        source_language: category.source_language,
        timestamp: category.timestamp,
        read_count: category.read_count,
        cluster_count: category.cluster_count,
        metadata,
    }
}

/// The index of the metadata of category `cid`: the last entry with that
/// id (a later entry replaces an earlier one).
pub open spec fn metadata_index(md: Seq<NewsCategoryMetadata>, cid: Seq<char>) -> Option<int>
    decreases md.len(),
{
    if md.len() == 0 {
        None
    } else if md.last().category_id@ == cid {
        Some(md.len() - 1)
    } else {
        metadata_index(md.drop_last(), cid)
    }
}

/// The metadata of category `cid`, if any.
pub open spec fn metadata_of(md: Seq<NewsCategoryMetadata>, cid: Seq<char>) -> Option<
    NewsCategoryMetadata,
> {
    match metadata_index(md, cid) {
        Some(j) => Some(md[j]),
        None => None,
    }
}

/// A category is named by `req` (up to ASCII case) through its id, its
/// name, or the display name of its metadata.
pub open spec fn category_named(c: NewsBatchCategory, md: Seq<NewsCategoryMetadata>, req: Seq<char>) -> bool {
    ||| eq_ignore_ascii_case(c.category_id@, req)
    ||| eq_ignore_ascii_case(c.category_name@, req)
    ||| (metadata_of(md, c.category_id@) matches Some(m) && eq_ignore_ascii_case(m.display_name@, req))
}

/// The index of the first category named by `req`.
pub open spec fn find_category(
    batch: Seq<NewsBatchCategory>,
    md: Seq<NewsCategoryMetadata>,
    req: Seq<char>,
) -> Option<int>
    decreases batch.len(),
{
    if batch.len() == 0 {
        None
    } else if category_named(batch[0], md, req) {
        Some(0)
    } else {
        match find_category(batch.drop_first(), md, req) {
            Some(j) => Some(j + 1),
            None => None,
        }
    }
}

proof fn lemma_metadata_index(md: Seq<NewsCategoryMetadata>, cid: Seq<char>)
    ensures
        metadata_index(md, cid) matches Some(j) ==> 0 <= j < md.len() && md[j].category_id@ == cid,
    decreases md.len(),
{
    if md.len() > 0 && md.last().category_id@ != cid {
        lemma_metadata_index(md.drop_last(), cid);
    }
}

proof fn lemma_find_category(batch: Seq<NewsBatchCategory>, md: Seq<NewsCategoryMetadata>, req: Seq<char>)
    ensures
        find_category(batch, md, req) matches Some(j) ==> 0 <= j < batch.len() && category_named(
            batch[j],
            md,
            req,
        ),
    decreases batch.len(),
{
    if batch.len() > 0 && !category_named(batch[0], md, req) {
        lemma_find_category(batch.drop_first(), md, req);
    }
}

/// A copy of a metadata entry.
fn copy_metadata(m: &NewsCategoryMetadata) -> (r: NewsCategoryMetadata)
    ensures
        same_metadata(r, *m),
{
    NewsCategoryMetadata {
        category_id: m.category_id.as_str().to_owned(),
        category_type: m.category_type.as_str().to_owned(),
        display_name: m.display_name.as_str().to_owned(),
        is_core: m.is_core,
        source_language: m.source_language.as_str().to_owned(),
    }
}

/// A copy of a batch category.
fn copy_category(c: &NewsBatchCategory) -> (r: NewsBatchCategory)
    ensures
        r.id@ == c.id@,
        r.category_id@ == c.category_id@,
        r.category_name@ == c.category_name@,
        r.source_language@ == c.source_language@,
        r.timestamp == c.timestamp,
        r.read_count == c.read_count,
        r.cluster_count == c.cluster_count,
{
    NewsBatchCategory {
        id: c.id.as_str().to_owned(),
        category_id: c.category_id.as_str().to_owned(),
        category_name: c.category_name.as_str().to_owned(),
        source_language: c.source_language.as_str().to_owned(),
        timestamp: c.timestamp,
        read_count: c.read_count,
        cluster_count: c.cluster_count,
    }
}

/// The metadata of category `cid`, copied.
fn lookup_metadata(md: &Vec<NewsCategoryMetadata>, cid: &str) -> (r: Option<NewsCategoryMetadata>)
    ensures
        match (r, metadata_of(md@, cid@)) {
            (Some(x), Some(y)) => same_metadata(x, y),
            (None, None) => true,
            _ => false,
        },
{
    let mut j: usize = md.len();
    assert(md@.take(md.len() as int) =~= md@);
    while j > 0
        invariant
            j <= md.len(),
            metadata_index(md@, cid@) == metadata_index(md@.take(j as int), cid@),
        decreases j,
    {
        assert(md@.take(j as int).drop_last() =~= md@.take(j - 1));
        assert(md@.take(j as int).last() == md@[j - 1]);
        if str_equal(md[j - 1].category_id.as_str(), cid) {
            return Some(copy_metadata(&md[j - 1]));
        }
        j = j - 1;
    }
    None
}

/// Finds the category the user asked for in the latest batch.
///
/// # Errors
/// `KagiError::Config` for a blank request or when no category is named by it.
pub fn resolve_news_category(
    batch_categories: &Vec<NewsBatchCategory>,
    metadata: &Vec<NewsCategoryMetadata>,
    requested_category: &str,
) -> (r: Result<NewsResolvedCategory, KagiError>)
    ensures
        is_blank(requested_category@) ==> fails_with(
            r,
            ErrorKind::Config,
            "news category cannot be empty"@,
        ),
        !is_blank(requested_category@) ==> match find_category(
            batch_categories@,
            metadata@,
            trim_ws(requested_category@),
        ) {
            Some(i) => r matches Ok(c) && merged_from(
                c,
                batch_categories[i],
                metadata_of(metadata@, batch_categories[i].category_id@),
            ),
            None => fails_with(
                r,
                ErrorKind::Config,
                "unknown news category '"@ + trim_ws(requested_category@)
                    + "'. Run `kagi news --list-categories` to inspect current categories."@,
            ),
        },
{
    let requested = trimmed(requested_category);
    if requested.as_str().is_empty() {
        return Err(KagiError::Config("news category cannot be empty".to_owned()));
    }
    let req = requested.as_str();
    let mut i: usize = 0;
    assert(batch_categories@.skip(0) =~= batch_categories@);
    while i < batch_categories.len()
        invariant
            i <= batch_categories.len(),
            req@ == trim_ws(requested_category@),
            !is_blank(requested_category@),
            find_category(batch_categories@, metadata@, req@) == match find_category(
                batch_categories@.skip(i as int),
                metadata@,
                req@,
            ) {
                Some(j) => Some(j + i),
                None => None,
            },
        decreases batch_categories.len() - i,
    {
        assert(batch_categories@.skip(i as int).drop_first() =~= batch_categories@.skip(i + 1));
        assert(batch_categories@.skip(i as int)[0] == batch_categories@[i as int]);
        let c = &batch_categories[i];
        let m = lookup_metadata(metadata, c.category_id.as_str());
        let named = equal_ignore_ascii_case(c.category_id.as_str(), req)
            || equal_ignore_ascii_case(c.category_name.as_str(), req) || match &m {
            Some(entry) => equal_ignore_ascii_case(entry.display_name.as_str(), req),
            None => false,
        };
        if named {
            assert(category_named(batch_categories@[i as int], metadata@, req@));
            let r = merge_news_category(copy_category(c), m);
            return Ok(r);
        }
        i = i + 1;
    }
    assert(batch_categories@.skip(i as int) =~= Seq::<NewsBatchCategory>::empty());
    let mut msg = "unknown news category '".to_owned();
    msg.append(req);
    msg.append("'. Run `kagi news --list-categories` to inspect current categories.");
    Err(KagiError::Config(msg))
}

/// Joins every category of the latest batch with its metadata, in order
/// (the category list of `kagi news --list-categories`).
pub fn merge_news_categories(
    batch_categories: &Vec<NewsBatchCategory>,
    metadata: &Vec<NewsCategoryMetadata>,
) -> (r: Vec<NewsResolvedCategory>)
    ensures
        r.len() == batch_categories.len(),
        forall|i: int|
            0 <= i < r.len() ==> merged_from(
                #[trigger] r[i],
                batch_categories[i],
                metadata_of(metadata@, batch_categories[i].category_id@),
            ),
{
    let mut r: Vec<NewsResolvedCategory> = Vec::new();
    let mut i: usize = 0;
    while i < batch_categories.len()
        invariant
            i <= batch_categories.len(),
            r.len() == i,
            forall|j: int|
                0 <= j < i ==> merged_from(
                    #[trigger] r[j],
                    batch_categories[j],
                    metadata_of(metadata@, batch_categories[j].category_id@),
                ),
        decreases batch_categories.len() - i,
    {
        let c = &batch_categories[i];
        let m = lookup_metadata(metadata, c.category_id.as_str());
        r.push(merge_news_category(copy_category(c), m));
        i = i + 1;
    }
    r
}

/// No element of `v` occurs twice.
pub open spec fn distinct(v: Seq<Seq<char>>) -> bool {
    forall|i: int, j: int| 0 <= i < j < v.len() ==> v[i] != v[j]
}

/// Adding a string only when it is missing keeps a list free of repeats, and
/// the list then holds exactly its old strings and the new one.
pub proof fn law_add_unique_keeps_distinct(v: Seq<Seq<char>>, c: Seq<char>)
    requires
        distinct(v),
    ensures
        distinct(add_unique(v, c)),
        add_unique(v, c).contains(c),
        forall|x: Seq<char>| v.contains(x) ==> add_unique(v, c).contains(x),
        forall|x: Seq<char>| add_unique(v, c).contains(x) ==> v.contains(x) || x == c,
{
    if !v.contains(c) {
        assert(v.push(c)[v.len() as int] == c);
        assert forall|x: Seq<char>| v.contains(x) implies v.push(c).contains(x) by {
            let i = choose|i: int| 0 <= i < v.len() && v[i] == x;
            assert(v.push(c)[i] == x);
        }
        assert forall|x: Seq<char>| v.push(c).contains(x) implies v.contains(x) || x == c by {
            let i = choose|i: int| 0 <= i < v.push(c).len() && v.push(c)[i] == x;
            if i < v.len() {
                assert(v[i] == x);
            }
        }
    }
}

proof fn lemma_add_keywords(v: Seq<Seq<char>>, ks: Seq<Seq<char>>)
    requires
        distinct(v),
    ensures
        distinct(add_keywords(v, ks)),
        forall|x: Seq<char>| v.contains(x) ==> add_keywords(v, ks).contains(x),
        forall|j: int|
            0 <= j < ks.len() && normalized_keyword(#[trigger] ks[j]) is Some ==> add_keywords(
                v,
                ks,
            ).contains(normalized_keyword(ks[j])->0),
        forall|x: Seq<char>|
            add_keywords(v, ks).contains(x) ==> v.contains(x) || exists|j: int|
                0 <= j < ks.len() && normalized_keyword(#[trigger] ks[j]) == Some(x),
    decreases ks.len(),
{
    if ks.len() > 0 {
        let v1 = match normalized_keyword(ks[0]) {
            Some(n) => add_unique(v, n),
            None => v,
        };
        if let Some(n) = normalized_keyword(ks[0]) {
            law_add_unique_keeps_distinct(v, n);
        }
        lemma_add_keywords(v1, ks.drop_first());
        assert forall|j: int|
            0 <= j < ks.len() && normalized_keyword(#[trigger] ks[j]) is Some implies add_keywords(
            v,
            ks,
        ).contains(normalized_keyword(ks[j])->0) by {
            if j > 0 {
                assert(ks.drop_first()[j - 1] == ks[j]);
            }
        }
        assert forall|x: Seq<char>| add_keywords(v, ks).contains(x) implies v.contains(x) || exists|
            j: int,
        | 0 <= j < ks.len() && normalized_keyword(#[trigger] ks[j]) == Some(x) by {
            if !v1.contains(x) {
                let j = choose|j: int|
                    0 <= j < ks.drop_first().len() && normalized_keyword(
                        #[trigger] ks.drop_first()[j],
                    ) == Some(x);
                assert(ks[j + 1] == ks.drop_first()[j]);
            } else if !v.contains(x) {
                assert(normalized_keyword(ks[0]) == Some(x));
            }
        }
    }
}

proof fn lemma_resolve_presets(
    ids: Seq<Seq<char>>,
    presets: Seq<NewsFilterPresetDefinition>,
    lang: Seq<char>,
    ap: Seq<Seq<char>>,
    ak: Seq<Seq<char>>,
)
    requires
        distinct(ap),
        distinct(ak),
    ensures
        resolve_presets(ids, presets, lang, ap, ak) matches Ok((p, k)) ==> distinct(p) && distinct(
            k,
        ),
    decreases ids.len(),
{
    if ids.len() > 0 {
        let id = trim_ws(ids[0]);
        if id.len() > 0 {
            if let Some(j) = find_preset(presets, id) {
                law_add_unique_keeps_distinct(ap, presets[j].id@);
                lemma_add_keywords(ak, presets[j].keywords_for(lang));
                lemma_resolve_presets(
                    ids.drop_first(),
                    presets,
                    lang,
                    add_unique(ap, presets[j].id@),
                    add_keywords(ak, presets[j].keywords_for(lang)),
                );
            }
        }
    }
}

/// `x` is the normalized form of some keyword: a keyword trimmed, then
/// lowercased, and not empty.
pub open spec fn is_normalized_keyword(x: Seq<char>) -> bool {
    exists|raw: Seq<char>| #[trigger] normalized_keyword(raw) == Some(x)
}

/// Adding keywords adds only normalized forms.
proof fn lemma_add_keywords_normalized(v: Seq<Seq<char>>, ks: Seq<Seq<char>>)
    requires
        distinct(v),
        forall|x: Seq<char>| v.contains(x) ==> is_normalized_keyword(x),
    ensures
        forall|x: Seq<char>| add_keywords(v, ks).contains(x) ==> is_normalized_keyword(x),
{
    lemma_add_keywords(v, ks);
    assert forall|x: Seq<char>| add_keywords(v, ks).contains(x) implies is_normalized_keyword(x) by {
        if !v.contains(x) {
            let j = choose|j: int| 0 <= j < ks.len() && normalized_keyword(#[trigger] ks[j]) == Some(x);
            assert(normalized_keyword(ks[j]) == Some(x));
        }
    }
}

/// The keywords of resolved presets are normalized forms.
proof fn lemma_resolve_presets_normalized(
    ids: Seq<Seq<char>>,
    presets: Seq<NewsFilterPresetDefinition>,
    lang: Seq<char>,
    ap: Seq<Seq<char>>,
    ak: Seq<Seq<char>>,
)
    requires
        distinct(ap),
        distinct(ak),
        forall|x: Seq<char>| ak.contains(x) ==> is_normalized_keyword(x),
    ensures
        resolve_presets(ids, presets, lang, ap, ak) matches Ok((p, k)) ==> forall|x: Seq<char>|
            k.contains(x) ==> is_normalized_keyword(x),
    decreases ids.len(),
{
    if ids.len() > 0 {
        let id = trim_ws(ids[0]);
        if id.len() > 0 {
            if let Some(j) = find_preset(presets, id) {
                law_add_unique_keeps_distinct(ap, presets[j].id@);
                lemma_add_keywords(ak, presets[j].keywords_for(lang));
                lemma_add_keywords_normalized(ak, presets[j].keywords_for(lang));
                lemma_resolve_presets_normalized(
                    ids.drop_first(),
                    presets,
                    lang,
                    add_unique(ap, presets[j].id@),
                    add_keywords(ak, presets[j].keywords_for(lang)),
                );
            }
        }
    }
}

/// A resolved filter names each preset and keyword once, has at least one
/// active keyword, and every custom keyword is active; every keyword is the
/// normalized form (trimmed, then lowercased, not empty) of a keyword.
pub proof fn law_resolved_filter_keywords(
    request: NewsFilterRequest,
    presets: Seq<NewsFilterPresetDefinition>,
    lang: Seq<char>,
)
    ensures
        resolution(request, presets, lang) matches Ok((ap, custom, active)) ==> {
            &&& distinct(ap)
            &&& distinct(custom)
            &&& distinct(active)
            &&& active.len() > 0
            &&& forall|x: Seq<char>| custom.contains(x) ==> active.contains(x)
            &&& forall|x: Seq<char>| active.contains(x) ==> is_normalized_keyword(x) && x.len() > 0
        },
{
    let e: Seq<Seq<char>> = seq![];
    lemma_resolve_presets(string_views(request.preset_ids@), presets, lang, e, e);
    lemma_resolve_presets_normalized(string_views(request.preset_ids@), presets, lang, e, e);
    if let Ok((ap, ak)) = resolve_presets(string_views(request.preset_ids@), presets, lang, e, e) {
        let ks = string_views(request.keywords@);
        lemma_add_keywords(e, ks);
        lemma_add_keywords(ak, ks);
        lemma_add_keywords_normalized(ak, ks);
        assert forall|x: Seq<char>| add_keywords(e, ks).contains(x) implies add_keywords(
            ak,
            ks,
        ).contains(x) by {
            assert(!e.contains(x));
            let j = choose|j: int| 0 <= j < ks.len() && normalized_keyword(#[trigger] ks[j]) == Some(x);
            assert(normalized_keyword(ks[j]) is Some);
        }
        assert forall|x: Seq<char>| add_keywords(ak, ks).contains(x) implies x.len() > 0 by {
            assert(is_normalized_keyword(x));
            let raw = choose|raw: Seq<char>| #[trigger] normalized_keyword(raw) == Some(x);
            assert(normalized_keyword(raw) == Some(x));
        }
    }
}

/// How many verdicts show their story unchanged.
pub open spec fn shown_count(verdicts: Seq<StoryVerdict>) -> nat
    decreases verdicts.len(),
{
    if verdicts.len() == 0 {
        0
    } else {
        shown_count(verdicts.drop_last()) + if verdicts.last() is Show {
            1nat
        } else {
            0nat
        }
    }
}

/// How many verdicts leave their story out.
pub open spec fn hidden_count(verdicts: Seq<StoryVerdict>) -> nat
    decreases verdicts.len(),
{
    if verdicts.len() == 0 {
        0
    } else {
        hidden_count(verdicts.drop_last()) + if verdicts.last() is Hide {
            1nat
        } else {
            0nat
        }
    }
}

/// Every story is either shown unchanged or counted as filtered; in hide
/// mode the filtered stories are exactly those left out, in blur mode no
/// story is left out.
pub proof fn law_filter_accounts_for_every_story(
    stories: Seq<NewsStoryText>,
    active: Seq<Seq<char>>,
    scope: NewsFilterScope,
    mode: NewsFilterMode,
    verdicts: Seq<StoryVerdict>,
)
    requires
        verdicts.len() == stories.len(),
        forall|i: int|
            0 <= i < stories.len() ==> verdict_is(
                #[trigger] verdicts[i],
                story_matches(stories[i], active, scope),
                mode,
            ),
    ensures
        shown_count(verdicts) + matching_count(stories, active, scope) == stories.len(),
        mode == NewsFilterMode::Hide ==> hidden_count(verdicts) == matching_count(
            stories,
            active,
            scope,
        ),
        mode == NewsFilterMode::Blur ==> hidden_count(verdicts) == 0,
    decreases stories.len(),
{
    if stories.len() > 0 {
        let n = stories.len() - 1;
        assert(verdict_is(verdicts[n], story_matches(stories[n], active, scope), mode));
        law_filter_accounts_for_every_story(
            stories.drop_last(),
            active,
            scope,
            mode,
            verdicts.drop_last(),
        );
    }
}

/// A whole-word mention is in particular an occurrence of the keyword.
pub proof fn law_mention_is_occurrence(text: Seq<char>, keyword: Seq<char>)
    ensures
        mentions_keyword(text, keyword) ==> crate::text::contains_seq(text, keyword),
{
    if keyword.len() > 0 {
        lemma_hit_occurs(text, keyword, 0);
    }
}

proof fn lemma_hit_occurs(t: Seq<char>, k: Seq<char>, from: int)
    requires
        k.len() > 0,
        from >= 0,
    ensures
        keyword_hit_from(t, k, from) ==> crate::text::contains_seq(t, k),
    decreases t.len() - from,
{
    lemma_first_occurrence_bounds(t, k, from);
    let i = first_occurrence_from(t, k, from);
    if i >= 0 {
        if !on_word_boundaries(t, k, i) {
            lemma_hit_occurs(t, k, i + k.len());
        } else {
            assert(occurs_at(t, k, i));
        }
    }
}

/// Checks the number of stories asked for.
///
/// # Errors
/// A configuration error when no story is asked for.
pub fn check_news_limit(limit: u32) -> (r: Result<(), KagiError>)
    ensures
        limit == 0 ==> fails_with(r, ErrorKind::Config, "news --limit must be greater than 0"@),
        limit > 0 ==> r is Ok,
{
    if limit == 0 {
        return Err(KagiError::Config("news --limit must be greater than 0".to_owned()));
    }
    Ok(())
}

/// The URL of a resource of a news batch: the batches endpoint of Kagi News
/// (`base_override` is `KAGI_NEWS_BASE_URL`), the batch id, then `tail`
/// (such as `/categories` or `/chaos`).
pub fn news_batch_url(base_override: Option<&str>, batch_id: &str, tail: &str) -> (r: String)
    ensures
        r@ == crate::http::joined_url(
            crate::http::effective_base(
                crate::text::opt_str_view(base_override),
                crate::http::DEFAULT_KAGI_NEWS_BASE_URL@,
            ),
            "/api/batches"@,
        ) + "/"@ + batch_id@ + tail@,
{
    let batches = crate::http::kagi_news_url(base_override, "/api/batches");
    let head = crate::text::concat3(batches.as_str(), "/", batch_id);
    crate::text::concat(head.as_str(), tail)
}

/// Where a story goes in the filtered list: its index among the stories
/// given, and, for a blurred story, the keywords it is tagged with.
#[derive(Debug, Clone)]
pub struct StoryPlacement {
    pub index: usize,
    pub blurred_with: Option<Vec<String>>,
}

/// The contents of a placement.
pub open spec fn placement_view(p: StoryPlacement) -> (int, Option<Seq<Seq<char>>>) {
    (
        p.index as int,
        match p.blurred_with {
            Some(k) => Some(string_views(k@)),
            None => None,
        },
    )
}

/// The stories that remain after the verdicts, in order: shown stories
/// untagged, blurred stories with their keywords, hidden stories left out.
pub open spec fn placements(verdicts: Seq<StoryVerdict>) -> Seq<(int, Option<Seq<Seq<char>>>)>
    decreases verdicts.len(),
{
    if verdicts.len() == 0 {
        seq![]
    } else {
        let init = placements(verdicts.drop_last());
        let n = verdicts.len() - 1;
        match verdicts.last() {
            StoryVerdict::Show => init.push((n, None)),
            StoryVerdict::Hide => init,
            StoryVerdict::Blur(k) => init.push((n, Some(string_views(k@)))),
        }
    }
}

/// The stories a filter leaves, in order, by index: a story that matches no
/// keyword stays untagged; in hide mode a matching story is left out, in
/// blur mode it stays, tagged with the keywords it matched.
pub open spec fn filtered_stories(
    stories: Seq<NewsStoryText>,
    active: Seq<Seq<char>>,
    scope: NewsFilterScope,
    mode: NewsFilterMode,
) -> Seq<(int, Option<Seq<Seq<char>>>)>
    decreases stories.len(),
{
    if stories.len() == 0 {
        seq![]
    } else {
        let init = filtered_stories(stories.drop_last(), active, scope, mode);
        let n = stories.len() - 1;
        let m = story_matches(stories.last(), active, scope);
        if m.len() == 0 {
            init.push((n, None))
        } else if mode == NewsFilterMode::Hide {
            init
        } else {
            init.push((n, Some(m)))
        }
    }
}

/// Places the stories of a filtered list by their verdicts.
pub fn place_filtered_stories(verdicts: &Vec<StoryVerdict>) -> (r: Vec<StoryPlacement>)
    ensures
        r@.map_values(|p: StoryPlacement| placement_view(p)) == placements(verdicts@),
{
    let mut r: Vec<StoryPlacement> = Vec::new();
    let mut i: usize = 0;
    while i < verdicts.len()
        invariant
            i <= verdicts.len(),
            r@.map_values(|p: StoryPlacement| placement_view(p)) == placements(
                verdicts@.take(i as int),
            ),
        decreases verdicts.len() - i,
    {
        let ghost before = r@;
        proof {
            assert(verdicts@.take(i + 1).drop_last() =~= verdicts@.take(i as int));
            assert(verdicts@.take(i + 1).last() == verdicts@[i as int]);
        }
        match &verdicts[i] {
            StoryVerdict::Show => {
                r.push(StoryPlacement { index: i, blurred_with: None });
                proof {
                    assert(r@.map_values(|p: StoryPlacement| placement_view(p)) =~= before.map_values(
                        |p: StoryPlacement| placement_view(p),
                    ).push((i as int, None)));
                }
            },
            StoryVerdict::Hide => {},
            StoryVerdict::Blur(k) => {
                let kept = copy_strings(k);
                let ghost kv = string_views(kept@);
                r.push(StoryPlacement { index: i, blurred_with: Some(kept) });
                proof {
                    assert(r@.map_values(|p: StoryPlacement| placement_view(p)) =~= before.map_values(
                        |p: StoryPlacement| placement_view(p),
                    ).push((i as int, Some(kv))));
                }
            },
        }
        i = i + 1;
    }
    proof {
        assert(verdicts@.take(verdicts.len() as int) =~= verdicts@);
    }
    r
}

/// The verdicts of a filter leave exactly the filtered stories: in hide
/// mode the stories that match no keyword, in order; in blur mode every
/// story, those that match tagged with the keywords they matched.
pub proof fn law_filtered_stories(
    stories: Seq<NewsStoryText>,
    active: Seq<Seq<char>>,
    scope: NewsFilterScope,
    mode: NewsFilterMode,
    verdicts: Seq<StoryVerdict>,
)
    requires
        verdicts.len() == stories.len(),
        forall|i: int|
            0 <= i < stories.len() ==> verdict_is(
                #[trigger] verdicts[i],
                story_matches(stories[i], active, scope),
                mode,
            ),
    ensures
        placements(verdicts) == filtered_stories(stories, active, scope, mode),
    decreases stories.len(),
{
    if stories.len() > 0 {
        let n = stories.len() - 1;
        assert(verdict_is(verdicts[n], story_matches(stories[n], active, scope), mode));
        assert forall|i: int| 0 <= i < stories.drop_last().len() implies verdict_is(
            #[trigger] verdicts.drop_last()[i],
            story_matches(stories.drop_last()[i], active, scope),
            mode,
        ) by {
            assert(verdicts.drop_last()[i] == verdicts[i]);
            assert(stories.drop_last()[i] == stories[i]);
            assert(verdict_is(verdicts[i], story_matches(stories[i], active, scope), mode));
        }
        law_filtered_stories(stories.drop_last(), active, scope, mode, verdicts.drop_last());
    }
}

/// An optional field's trimmed value, or nothing when it is absent or blank.
pub open spec fn trimmed_or_empty(f: Option<String>) -> Seq<char> {
    match f {
        Some(v) => if is_blank(v@) {
            seq![]
        } else {
            trim_ws(v@)
        },
        None => seq![],
    }
}

/// Two texts separated by one space, or the one that is not empty.
pub open spec fn spaced(a: Seq<char>, b: Seq<char>) -> Seq<char> {
    if a.len() == 0 {
        b
    } else if b.len() == 0 {
        a
    } else {
        a + " "@ + b
    }
}

/// Joining two lists of non-empty pieces at once is joining each list and
/// then the two results.
proof fn lemma_join_space_concat(p: Seq<Seq<char>>, q: Seq<Seq<char>>)
    requires
        forall|i: int| 0 <= i < p.len() ==> (#[trigger] p[i]).len() > 0,
        forall|i: int| 0 <= i < q.len() ==> (#[trigger] q[i]).len() > 0,
    ensures
        join_space(p + q) == spaced(join_space(p), join_space(q)),
    decreases q.len(),
{
    let sep = " "@;
    if p.len() > 0 {
        assert(join_space(p).len() > 0) by {
            if p.len() > 1 {
                assert(p.last() == p[p.len() - 1]);
            } else {
                assert(p[0].len() > 0);
            }
        }
    }
    if q.len() == 0 {
        assert(p + q =~= p);
    } else {
        let q1 = q.drop_last();
        lemma_join_space_concat(p, q1);
        assert((p + q).drop_last() =~= p + q1);
        assert((p + q).last() == q.last());
        assert(q.last() == q[q.len() - 1]);
        if p.len() == 0 {
            assert(p + q =~= q);
        } else if q1.len() == 0 {
            assert(p + q1 =~= p);
            assert(join_space(q) == q[0]);
        } else {
            assert(join_space(q1).len() > 0) by {
                if q1.len() > 1 {
                    assert(q1.last() == q1[q1.len() - 1]);
                } else {
                    assert(q1[0] == q[0]);
                }
            }
            assert(join_space(p) + sep + join_space(q1) + sep + q.last() =~= join_space(p) + sep
                + (join_space(q1) + sep + q.last()));
        }
    }
}

/// A field's contribution holds its trimmed value when that is not empty.
proof fn lemma_field_part(f: Option<String>)
    ensures
        trimmed_or_empty(f).len() == 0 ==> field_part(f) =~= Seq::<Seq<char>>::empty(),
        trimmed_or_empty(f).len() > 0 ==> field_part(f) =~= seq![trimmed_or_empty(f)],
        join_space(field_part(f)) == trimmed_or_empty(f),
{
}

/// Each scope reads the fields its name promises. Under the summary scope a
/// story's searchable text is its trimmed short summary (nothing when the
/// summary is absent or blank); under the title scope it is the trimmed title
/// and category, separated by a space; a story with no perspectives, domains
/// or articles reads, under the scope of all fields, its title text and then
/// its summary text.
pub proof fn law_story_text_by_scope(s: NewsStoryText)
    ensures
        story_text(s, NewsFilterScope::Summary) == trimmed_or_empty(s.short_summary),
        story_text(s, NewsFilterScope::Title) == spaced(
            trimmed_or_empty(s.title),
            trimmed_or_empty(s.category),
        ),
        s.perspectives@.len() == 0 && s.domains@.len() == 0 && s.articles@.len() == 0 ==> story_text(
            s,
            NewsFilterScope::All,
        ) == spaced(story_text(s, NewsFilterScope::Title), story_text(s, NewsFilterScope::Summary)),
{
    lemma_field_part(s.title);
    lemma_field_part(s.category);
    lemma_field_part(s.short_summary);
    let a = field_part(s.title);
    let b = field_part(s.category);
    let c = field_part(s.short_summary);
    assert(story_parts(s, NewsFilterScope::Summary) =~= c);
    assert(story_parts(s, NewsFilterScope::Title) =~= a + b);
    lemma_join_space_concat(a, b);
    if s.perspectives@.len() == 0 && s.domains@.len() == 0 && s.articles@.len() == 0 {
        assert(perspectives_parts(s.perspectives@) =~= Seq::<Seq<char>>::empty());
        assert(fields_parts(s.domains@) =~= Seq::<Seq<char>>::empty());
        assert(articles_parts(s.articles@) =~= Seq::<Seq<char>>::empty());
        assert(story_parts(s, NewsFilterScope::All) =~= (a + b) + c);
        lemma_join_space_concat(a + b, c);
    }
}

} // verus!
