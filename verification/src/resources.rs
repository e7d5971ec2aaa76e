//! Account resources managed through Kagi's settings pages: custom
//! assistants, lenses, custom bangs and redirect rules.
//!
//! The user names a resource by id or by name (or trigger, or rule); this
//! module checks those names, finds the resource a name refers to, applies a
//! create or update request to a resource's settings and builds the form the
//! settings page is posted with.
use vstd::prelude::*;

use crate::error::{fails_with, ErrorKind, KagiError};
use crate::http::{effective_base, is_absolute_url, joined_url, kagi_url, DEFAULT_KAGI_BASE_URL};
use crate::text::{
    blank, concat, concat3, eq_ignore_ascii_case, equal_ignore_ascii_case, has_char, is_blank,
    opt_str_view, opt_view, str_equal, str_has_char, trim_start_char, trim_start_matches_char,
    trim_ws, trimmed, trimmed_nonblank,
};

verus! {

/// A name the user gave, trimmed, or why it is refused.
pub open spec fn named_target(raw: Seq<char>, label: Seq<char>) -> Result<Seq<char>, Seq<char>> {
    if is_blank(raw) {
        Err(label + " cannot be empty"@)
    } else {
        Ok(trim_ws(raw))
    }
}

/// Trims a name the user gave; `label` says what it names.
///
/// # Errors
/// A configuration error `"<label> cannot be empty"` when the name is blank.
pub fn normalize_named_target(raw: &str, label: &str) -> (r: Result<String, KagiError>)
    ensures
        match named_target(raw@, label@) {
            Ok(t) => r matches Ok(s) && s@ == t,
            Err(m) => fails_with(r, ErrorKind::Config, m),
        },
{
    if blank(raw) {
        return Err(KagiError::Config(concat(label, " cannot be empty")));
    }
    Ok(trimmed(raw))
}

/// A custom bang trigger without surrounding whitespace and leading `!`s, or
/// why it is refused.
pub open spec fn bang_trigger(raw: Seq<char>) -> Result<Seq<char>, Seq<char>> {
    let t = trim_ws(trim_start_char(trim_ws(raw), '!'));
    if t.len() == 0 {
        Err("custom bang trigger cannot be empty"@)
    } else {
        Ok(t)
    }
}

/// Normalizes a custom bang trigger: trimmed, leading `!`s removed, trimmed again.
///
/// # Errors
/// A configuration error when nothing is left.
pub fn normalize_custom_bang_trigger(raw: &str) -> (r: Result<String, KagiError>)
    ensures
        match bang_trigger(raw@) {
            Ok(t) => r matches Ok(s) && s@ == t,
            Err(m) => fails_with(r, ErrorKind::Config, m),
        },
{
    let a = trimmed(raw);
    let b = trim_start_matches_char(a.as_str(), '!');
    let c = trimmed(b.as_str());
    if c.as_str().is_empty() {
        return Err(KagiError::Config("custom bang trigger cannot be empty".to_owned()));
    }
    Ok(c)
}

/// A redirect rule, trimmed, or why it is refused: it must not be blank and
/// must hold a `|` between pattern and replacement.
pub open spec fn redirect_rule(raw: Seq<char>) -> Result<Seq<char>, Seq<char>> {
    if is_blank(raw) {
        Err("redirect rule cannot be empty"@)
    } else if !has_char(trim_ws(raw), '|') {
        Err("redirect rule must use the form regex|replacement"@)
    } else {
        Ok(trim_ws(raw))
    }
}

/// Normalizes a redirect rule of the form `regex|replacement`.
///
/// # Errors
/// A configuration error when the rule is blank or has no `|`.
pub fn normalize_redirect_rule(raw: &str) -> (r: Result<String, KagiError>)
    ensures
        match redirect_rule(raw@) {
            Ok(t) => r matches Ok(s) && s@ == t,
            Err(m) => fails_with(r, ErrorKind::Config, m),
        },
{
    if blank(raw) {
        return Err(KagiError::Config("redirect rule cannot be empty".to_owned()));
    }
    let t = trimmed(raw);
    if !str_has_char(t.as_str(), '|') {
        return Err(
            KagiError::Config("redirect rule must use the form regex|replacement".to_owned()),
        );
    }
    Ok(t)
}

/// An optional form value as the settings pages read it: blank and `none`
/// (in any case) mean no value; anything else is trimmed.
pub open spec fn optional_form_value(value: Option<Seq<char>>) -> Option<Seq<char>> {
    match value {
        None => None,
        Some(v) => if is_blank(v) || eq_ignore_ascii_case(trim_ws(v), "none"@) {
            None
        } else {
            Some(trim_ws(v))
        },
    }
}

/// Normalizes an optional form value: blank and `none` (in any case) become
/// no value; anything else is trimmed.
pub fn normalize_optional_form_value(value: Option<String>) -> (r: Option<String>)
    ensures
        opt_view(r) == optional_form_value(opt_view(value)),
{
    match value {
        None => None,
        Some(v) => {
            let t = trimmed(v.as_str());
            if t.as_str().is_empty() || equal_ignore_ascii_case(t.as_str(), "none") {
                None
            } else {
                Some(t)
            }
        },
    }
}

/// The absolute URL of a settings link: an absolute link unchanged, a path on
/// the main Kagi service otherwise (`base_override` is `KAGI_BASE_URL`).
pub fn absolute_kagi_url(base_override: Option<&str>, path: &str) -> (r: String)
    ensures
        is_absolute_url(path@) ==> r@ == path@,
        !is_absolute_url(path@) ==> r@ == joined_url(
            effective_base(opt_str_view(base_override), DEFAULT_KAGI_BASE_URL@),
            path@,
        ),
{
    if crate::text::str_starts_with(path, "http://") || crate::text::str_starts_with(
        path,
        "https://",
    ) {
        path.to_owned()
    } else {
        kagi_url(base_override, path)
    }
}

/// A custom assistant as the assistant settings page lists it.
#[derive(Debug, Clone)]
pub struct AssistantProfileSummary {
    pub id: String,
    pub name: String,
    pub invoke_profile: String,
    pub model: String,
    pub bang_trigger: Option<String>,
    pub internet_access: bool,
    pub built_in: bool,
    /// The link to the assistant's form; built-in assistants have none.
    pub edit_url: Option<String>,
}

/// A lens as the lens settings page lists it.
#[derive(Debug, Clone)]
pub struct LensSummary {
    pub id: String,
    pub name: String,
    pub description: Option<String>,
    pub enabled: bool,
    pub position: Option<u32>,
    pub edit_url: String,
    /// The form field and value that switch the lens on or off.
    pub toggle_field: String,
    pub toggle_value: String,
}

/// A custom bang as the custom bang settings page lists it.
#[derive(Debug, Clone)]
pub struct CustomBangSummary {
    pub id: String,
    pub name: String,
    pub trigger: String,
    pub shortcut_menu: bool,
    pub edit_url: String,
}

/// A redirect rule as the redirect settings page lists it.
#[derive(Debug, Clone)]
pub struct RedirectRuleSummary {
    pub id: String,
    pub rule: String,
    pub enabled: bool,
    pub edit_url: String,
}

/// The lens is the one `t` names: by id, or by name in any ASCII case.
pub open spec fn lens_named(l: LensSummary, t: Seq<char>) -> bool {
    l.id@ == t || eq_ignore_ascii_case(l.name@, t)
}

/// The bang is the one `t` names: by id, by name in any ASCII case, or by
/// trigger in any ASCII case, leading `!`s ignored on both sides.
pub open spec fn bang_named(b: CustomBangSummary, t: Seq<char>) -> bool {
    b.id@ == t || eq_ignore_ascii_case(b.name@, t) || eq_ignore_ascii_case(
        trim_start_char(b.trigger@, '!'),
        trim_start_char(t, '!'),
    )
}

/// The redirect rule is the one `t` names: by id or by its exact rule.
pub open spec fn redirect_named(x: RedirectRuleSummary, t: Seq<char>) -> bool {
    x.id@ == t || x.rule@ == t
}

/// The assistant is the one `t` names by key: by id, or by invoke profile in
/// any ASCII case.
pub open spec fn assistant_keyed(a: AssistantProfileSummary, t: Seq<char>) -> bool {
    a.id@ == t || eq_ignore_ascii_case(a.invoke_profile@, t)
}

/// The assistant's name is `t`, in any ASCII case.
pub open spec fn assistant_called(a: AssistantProfileSummary, t: Seq<char>) -> bool {
    eq_ignore_ascii_case(a.name@, t)
}

/// Whether the lens named `t` is found.
fn lens_matches(l: &LensSummary, t: &str) -> (r: bool)
    ensures
        r == lens_named(*l, t@),
{
    str_equal(l.id.as_str(), t) || equal_ignore_ascii_case(l.name.as_str(), t)
}

/// Finds the lens a target names: the first whose id is the trimmed target
/// or whose name equals it in any ASCII case.
///
/// # Errors
/// A configuration error for a blank target, or when no lens matches.
pub fn resolve_lens_ref<'a>(lenses: &'a Vec<LensSummary>, target: &str) -> (r: Result<
    &'a LensSummary,
    KagiError,
>)
    ensures
        match named_target(target@, "lens target"@) {
            Err(m) => fails_with(r, ErrorKind::Config, m),
            Ok(t) => {
                &&& forall|i: int|
                    0 <= i < lenses@.len() && lens_named(lenses@[i], t) && (forall|j: int|
                        0 <= j < i ==> !lens_named(#[trigger] lenses@[j], t)) ==> (r matches Ok(x)
                        && *x == lenses@[i])
                &&& (forall|j: int| 0 <= j < lenses@.len() ==> !lens_named(#[trigger] lenses@[j], t))
                    ==> fails_with(r, ErrorKind::Config, "no lens matched '"@ + t + "'"@)
            },
        },
{
    let t = normalize_named_target(target, "lens target")?;
    let mut i: usize = 0;
    while i < lenses.len()
        invariant
            i <= lenses.len(),
            named_target(target@, "lens target"@) == Ok::<Seq<char>, Seq<char>>(t@),
            forall|j: int| 0 <= j < i ==> !lens_named(#[trigger] lenses@[j], t@),
        decreases lenses.len() - i,
    {
        if lens_matches(&lenses[i], t.as_str()) {
            assert(lens_named(lenses@[i as int], t@));
            return Ok(&lenses[i]);
        }
        i = i + 1;
    }
    Err(KagiError::Config(concat3("no lens matched '", t.as_str(), "'")))
}

/// Whether the redirect rule named `t` is found.
fn redirect_matches(x: &RedirectRuleSummary, t: &str) -> (r: bool)
    ensures
        r == redirect_named(*x, t@),
{
    str_equal(x.id.as_str(), t) || str_equal(x.rule.as_str(), t)
}

/// Finds the redirect rule a target names: the first whose id or rule is the
/// trimmed target.
///
/// # Errors
/// A configuration error for a blank target, or when no rule matches.
pub fn resolve_redirect_ref<'a>(redirects: &'a Vec<RedirectRuleSummary>, target: &str) -> (r:
    Result<&'a RedirectRuleSummary, KagiError>)
    ensures
        match named_target(target@, "redirect target"@) {
            Err(m) => fails_with(r, ErrorKind::Config, m),
            Ok(t) => {
                &&& forall|i: int|
                    0 <= i < redirects@.len() && redirect_named(redirects@[i], t) && (forall|j: int|
                        0 <= j < i ==> !redirect_named(#[trigger] redirects@[j], t)) ==> (r matches Ok(
                        x,
                    ) && *x == redirects@[i])
                &&& (forall|j: int|
                    0 <= j < redirects@.len() ==> !redirect_named(#[trigger] redirects@[j], t))
                    ==> fails_with(r, ErrorKind::Config, "no redirect matched '"@ + t + "'"@)
            },
        },
{
    let t = normalize_named_target(target, "redirect target")?;
    let mut i: usize = 0;
    while i < redirects.len()
        invariant
            i <= redirects.len(),
            named_target(target@, "redirect target"@) == Ok::<Seq<char>, Seq<char>>(t@),
            forall|j: int| 0 <= j < i ==> !redirect_named(#[trigger] redirects@[j], t@),
        decreases redirects.len() - i,
    {
        if redirect_matches(&redirects[i], t.as_str()) {
            assert(redirect_named(redirects@[i as int], t@));
            return Ok(&redirects[i]);
        }
        i = i + 1;
    }
    Err(KagiError::Config(concat3("no redirect matched '", t.as_str(), "'")))
}

/// Whether the custom bang named `t` is found; `trigger` is `t` without its
/// leading `!`s.
fn bang_matches(b: &CustomBangSummary, t: &str, trigger: &str) -> (r: bool)
    requires
        trigger@ == trim_start_char(t@, '!'),
    ensures
        r == bang_named(*b, t@),
{
    if str_equal(b.id.as_str(), t) || equal_ignore_ascii_case(b.name.as_str(), t) {
        return true;
    }
    let own = trim_start_matches_char(b.trigger.as_str(), '!');
    equal_ignore_ascii_case(own.as_str(), trigger)
}

/// Finds the custom bang a target names: the first whose id is the trimmed
/// target, whose name equals it in any ASCII case, or whose trigger equals it
/// in any ASCII case once leading `!`s are dropped from both.
///
/// # Errors
/// A configuration error for a blank target, or when no bang matches.
pub fn resolve_custom_bang_ref<'a>(bangs: &'a Vec<CustomBangSummary>, target: &str) -> (r: Result<
    &'a CustomBangSummary,
    KagiError,
>)
    ensures
        match named_target(target@, "custom bang target"@) {
            Err(m) => fails_with(r, ErrorKind::Config, m),
            Ok(t) => {
                &&& forall|i: int|
                    0 <= i < bangs@.len() && bang_named(bangs@[i], t) && (forall|j: int|
                        0 <= j < i ==> !bang_named(#[trigger] bangs@[j], t)) ==> (r matches Ok(x)
                        && *x == bangs@[i])
                &&& (forall|j: int| 0 <= j < bangs@.len() ==> !bang_named(#[trigger] bangs@[j], t))
                    ==> fails_with(r, ErrorKind::Config, "no custom bang matched '"@ + t + "'"@)
            },
        },
{
    let t = normalize_named_target(target, "custom bang target")?;
    let trigger = trim_start_matches_char(t.as_str(), '!');
    let mut i: usize = 0;
    while i < bangs.len()
        invariant
            i <= bangs.len(),
            named_target(target@, "custom bang target"@) == Ok::<Seq<char>, Seq<char>>(t@),
            trigger@ == trim_start_char(t@, '!'),
            forall|j: int| 0 <= j < i ==> !bang_named(#[trigger] bangs@[j], t@),
        decreases bangs.len() - i,
    {
        if bang_matches(&bangs[i], t.as_str(), trigger.as_str()) {
            assert(bang_named(bangs@[i as int], t@));
            return Ok(&bangs[i]);
        }
        i = i + 1;
    }
    Err(KagiError::Config(concat3("no custom bang matched '", t.as_str(), "'")))
}

/// The outcome of picking assistant `i` for a command that may need to edit it.
pub open spec fn assistant_picked(
    r: Result<&AssistantProfileSummary, KagiError>,
    a: AssistantProfileSummary,
    require_editable: bool,
) -> bool {
    if require_editable && a.edit_url is None {
        fails_with(
            r,
            ErrorKind::Config,
            "assistant '"@ + a.name@
                + "' is built in and cannot be modified through custom-assistant commands"@,
        )
    } else {
        r matches Ok(x) && *x == a
    }
}

/// Finds the custom assistant a target names: the first whose id is the
/// trimmed target or whose invoke profile equals it in any ASCII case; failing
/// that, the only one whose name equals it in any ASCII case. When
/// `require_editable`, a built-in assistant (without an edit link) is refused.
///
/// # Errors
/// A configuration error for a blank target, when no assistant (or more than
/// one by name) matches, or when a built-in assistant is found but an
/// editable one is required.
pub fn resolve_custom_assistant_ref<'a>(
    assistants: &'a Vec<AssistantProfileSummary>,
    target: &str,
    require_editable: bool,
) -> (r: Result<&'a AssistantProfileSummary, KagiError>)
    ensures
        match named_target(target@, "assistant target"@) {
            Err(m) => fails_with(r, ErrorKind::Config, m),
            Ok(t) => {
                &&& forall|i: int|
                    0 <= i < assistants@.len() && assistant_keyed(assistants@[i], t) && (forall|
                        j: int,
                    | 0 <= j < i ==> !assistant_keyed(#[trigger] assistants@[j], t))
                        ==> assistant_picked(r, assistants@[i], require_editable)
                &&& (forall|j: int|
                    0 <= j < assistants@.len() ==> !assistant_keyed(#[trigger] assistants@[j], t))
                    ==> {
                    &&& forall|i: int|
                        0 <= i < assistants@.len() && assistant_called(assistants@[i], t) && (
                        forall|j: int|
                            0 <= j < assistants@.len() && j != i ==> !assistant_called(
                                #[trigger] assistants@[j],
                                t,
                            )) ==> assistant_picked(r, assistants@[i], require_editable)
                    &&& !(exists|i: int|
                        0 <= i < assistants@.len() && assistant_called(assistants@[i], t) && (
                        forall|j: int|
                            0 <= j < assistants@.len() && j != i ==> !assistant_called(
                                #[trigger] assistants@[j],
                                t,
                            ))) ==> fails_with(
                        r,
                        ErrorKind::Config,
                        "no assistant matched '"@ + t + "'"@,
                    )
                }
            },
        },
{
    let t = normalize_named_target(target, "assistant target")?;
    let mut i: usize = 0;
    let mut found: Option<usize> = None;
    while i < assistants.len()
        invariant
            i <= assistants.len(),
            named_target(target@, "assistant target"@) == Ok::<Seq<char>, Seq<char>>(t@),
            match found {
                None => forall|j: int|
                    0 <= j < i ==> !assistant_keyed(#[trigger] assistants@[j], t@),
                Some(k) => k < assistants.len() && assistant_keyed(assistants@[k as int], t@)
                    && forall|j: int| 0 <= j < k ==> !assistant_keyed(#[trigger] assistants@[j], t@),
            },
        decreases assistants.len() - i,
    {
        if found.is_none() && (str_equal(assistants[i].id.as_str(), t.as_str())
            || equal_ignore_ascii_case(assistants[i].invoke_profile.as_str(), t.as_str())) {
            found = Some(i);
        }
        i = i + 1;
    }
    let index = match found {
        Some(k) => k,
        None => {
            let mut first: Option<usize> = None;
            let mut several = false;
            let mut n: usize = 0;
            while n < assistants.len()
                invariant
                    n <= assistants.len(),
                    named_target(target@, "assistant target"@) == Ok::<Seq<char>, Seq<char>>(t@),
                    match first {
                        None => !several && forall|j: int|
                            0 <= j < n ==> !assistant_called(#[trigger] assistants@[j], t@),
                        Some(k) => {
                            &&& k < n
                            &&& assistant_called(assistants@[k as int], t@)
                            &&& !several ==> forall|j: int|
                                0 <= j < n && j != k ==> !assistant_called(
                                    #[trigger] assistants@[j],
                                    t@,
                                )
                            &&& several ==> exists|j: int|
                                0 <= j < n && j != k && assistant_called(
                                    #[trigger] assistants@[j],
                                    t@,
                                )
                        },
                    },
                decreases assistants.len() - n,
            {
                if equal_ignore_ascii_case(assistants[n].name.as_str(), t.as_str()) {
                    if first.is_none() {
                        first = Some(n);
                    } else {
                        several = true;
                        assert(assistant_called(assistants@[n as int], t@));
                    }
                }
                n = n + 1;
            }
            match first {
                Some(k) => {
                    if several {
                        return Err(
                            KagiError::Config(concat3("no assistant matched '", t.as_str(), "'")),
                        );
                    }
                    k
                },
                None => {
                    return Err(
                        KagiError::Config(concat3("no assistant matched '", t.as_str(), "'")),
                    );
                },
            }
        },
    };
    let assistant = &assistants[index];
    if require_editable && assistant.edit_url.is_none() {
        return Err(
            KagiError::Config(
                concat3(
                    "assistant '",
                    assistant.name.as_str(),
                    "' is built in and cannot be modified through custom-assistant commands",
                ),
            ),
        );
    }
    Ok(assistant)
}

/// A settings form: field names and values, in the order they are posted.
pub open spec fn form_view(form: Seq<(String, String)>) -> Seq<(Seq<char>, Seq<char>)> {
    form.map_values(|p: (String, String)| (p.0@, p.1@))
}

/// Appends one field to a form.
fn push_field(form: &mut Vec<(String, String)>, name: &str, value: &str)
    ensures
        form_view(final(form)@) == form_view(old(form)@).push((name@, value@)),
{
    let ghost before = form@;
    form.push((name.to_owned(), value.to_owned()));
    proof {
        assert(form_view(form@) =~= form_view(before).push((name@, value@)));
    }
}

/// The value of an optional field, empty when absent.
pub open spec fn or_empty(o: Option<String>) -> Seq<char> {
    match o {
        Some(v) => v@,
        None => Seq::<char>::empty(),
    }
}

/// A checkbox as the assistant form posts it.
pub open spec fn on_or_false(b: bool) -> Seq<char> {
    if b {
        "on"@
    } else {
        "false"@
    }
}

/// A boolean as the lens and bang forms post it.
pub open spec fn true_or_false(b: bool) -> Seq<char> {
    if b {
        "true"@
    } else {
        "false"@
    }
}

/// The text of a checkbox of the assistant form.
fn on_or_false_text(b: bool) -> (r: &'static str)
    ensures
        r@ == on_or_false(b),
{
    if b {
        "on"
    } else {
        "false"
    }
}

/// The text of a boolean of the lens and bang forms.
fn true_or_false_text(b: bool) -> (r: &'static str)
    ensures
        r@ == true_or_false(b),
{
    if b {
        "true"
    } else {
        "false"
    }
}

/// An optional string's value, empty when absent.
fn or_empty_text(o: &Option<String>) -> (r: &str)
    ensures
        r@ == or_empty(*o),
{
    match o {
        Some(v) => v.as_str(),
        None => {
            proof {
                reveal_strlit("");
            }
            ""
        },
    }
}

/// The settings of a custom assistant, as its form holds them.
#[derive(Debug, Clone)]
pub struct AssistantProfileDetails {
    pub profile_id: Option<String>,
    pub name: String,
    pub bang_trigger: Option<String>,
    pub internet_access: bool,
    pub selected_lens: String,
    pub personalizations: bool,
    pub base_model: String,
    pub custom_instructions: String,
}

/// The form a custom assistant's settings are saved with.
pub open spec fn custom_assistant_form(d: AssistantProfileDetails) -> Seq<(Seq<char>, Seq<char>)> {
    seq![
        ("profile_id"@, or_empty(d.profile_id)),
        ("name"@, d.name@),
        ("bang_trigger"@, or_empty(d.bang_trigger)),
        ("internet_access"@, on_or_false(d.internet_access)),
        ("selected_lens"@, d.selected_lens@),
        ("personalizations"@, on_or_false(d.personalizations)),
        ("base_model"@, d.base_model@),
        ("custom_instructions"@, d.custom_instructions@),
    ]
}

/// Builds the form a custom assistant is saved with; absent ids and triggers
/// are posted empty, checkboxes as `on` or `false`.
pub fn build_custom_assistant_form(details: &AssistantProfileDetails) -> (form: Vec<(String, String)>)
    ensures
        form_view(form@) == custom_assistant_form(*details),
{
    let mut form: Vec<(String, String)> = Vec::new();
    push_field(&mut form, "profile_id", or_empty_text(&details.profile_id));
    push_field(&mut form, "name", details.name.as_str());
    push_field(&mut form, "bang_trigger", or_empty_text(&details.bang_trigger));
    push_field(&mut form, "internet_access", on_or_false_text(details.internet_access));
    push_field(&mut form, "selected_lens", details.selected_lens.as_str());
    push_field(&mut form, "personalizations", on_or_false_text(details.personalizations));
    push_field(&mut form, "base_model", details.base_model.as_str());
    push_field(&mut form, "custom_instructions", details.custom_instructions.as_str());
    proof {
        assert(form_view(form@) =~= custom_assistant_form(*details));
    }
    form
}

/// The settings of a lens, as its form holds them.
#[derive(Debug, Clone)]
pub struct LensDetails {
    pub id: Option<String>,
    pub name: String,
    pub included_sites: String,
    pub included_keywords: String,
    pub description: String,
    pub search_region: String,
    pub before_time: Option<String>,
    pub after_time: Option<String>,
    pub excluded_sites: String,
    pub excluded_keywords: String,
    pub shortcut_keyword: String,
    pub autocomplete_keywords: bool,
    pub template: String,
    pub file_type: String,
    pub share_with_team: bool,
    pub share_copy_code: bool,
}

/// The form a lens's settings are saved with; the id comes last, when known.
pub open spec fn lens_form(d: LensDetails) -> Seq<(Seq<char>, Seq<char>)> {
    let base = seq![
        ("name"@, d.name@),
        ("included_sites"@, d.included_sites@),
        ("included_keywords"@, d.included_keywords@),
        ("description"@, d.description@),
        ("search_region"@, d.search_region@),
        ("date_range"@, "0"@),
        ("before_time"@, or_empty(d.before_time)),
        ("after_time"@, or_empty(d.after_time)),
        ("excluded_sites"@, d.excluded_sites@),
        ("excluded_keywords"@, d.excluded_keywords@),
        ("shortcut_keyword"@, d.shortcut_keyword@),
        ("autocomplete_keywords"@, true_or_false(d.autocomplete_keywords)),
        ("template"@, d.template@),
        ("file_type"@, d.file_type@),
        ("share_with_team"@, true_or_false(d.share_with_team)),
        ("share_copy_code"@, true_or_false(d.share_copy_code)),
    ];
    match d.id {
        Some(id) => base.push(("id"@, id@)),
        None => base,
    }
}

/// Builds the form a lens is saved with: its fields, a `date_range` of `0`,
/// booleans as `true` or `false`, and the lens id last when it has one.
pub fn build_lens_form(details: &LensDetails) -> (form: Vec<(String, String)>)
    ensures
        form_view(form@) == lens_form(*details),
{
    let mut form: Vec<(String, String)> = Vec::new();
    push_field(&mut form, "name", details.name.as_str());
    push_field(&mut form, "included_sites", details.included_sites.as_str());
    push_field(&mut form, "included_keywords", details.included_keywords.as_str());
    push_field(&mut form, "description", details.description.as_str());
    push_field(&mut form, "search_region", details.search_region.as_str());
    push_field(&mut form, "date_range", "0");
    push_field(&mut form, "before_time", or_empty_text(&details.before_time));
    push_field(&mut form, "after_time", or_empty_text(&details.after_time));
    push_field(&mut form, "excluded_sites", details.excluded_sites.as_str());
    push_field(&mut form, "excluded_keywords", details.excluded_keywords.as_str());
    push_field(&mut form, "shortcut_keyword", details.shortcut_keyword.as_str());
    push_field(
        &mut form,
        "autocomplete_keywords",
        true_or_false_text(details.autocomplete_keywords),
    );
    push_field(&mut form, "template", details.template.as_str());
    push_field(&mut form, "file_type", details.file_type.as_str());
    push_field(&mut form, "share_with_team", true_or_false_text(details.share_with_team));
    push_field(&mut form, "share_copy_code", true_or_false_text(details.share_copy_code));
    let ghost base = form_view(form@);
    proof {
        let d = *details;
        assert(base =~= seq![
            ("name"@, d.name@),
            ("included_sites"@, d.included_sites@),
            ("included_keywords"@, d.included_keywords@),
            ("description"@, d.description@),
            ("search_region"@, d.search_region@),
            ("date_range"@, "0"@),
            ("before_time"@, or_empty(d.before_time)),
            ("after_time"@, or_empty(d.after_time)),
            ("excluded_sites"@, d.excluded_sites@),
            ("excluded_keywords"@, d.excluded_keywords@),
            ("shortcut_keyword"@, d.shortcut_keyword@),
            ("autocomplete_keywords"@, true_or_false(d.autocomplete_keywords)),
            ("template"@, d.template@),
            ("file_type"@, d.file_type@),
            ("share_with_team"@, true_or_false(d.share_with_team)),
            ("share_copy_code"@, true_or_false(d.share_copy_code)),
        ]);
    }
    if let Some(id) = &details.id {
        push_field(&mut form, "id", id.as_str());
    }
    form
}

/// The settings of a custom bang, as its form holds them.
#[derive(Debug, Clone)]
pub struct CustomBangDetails {
    pub bang_id: Option<String>,
    pub name: String,
    pub trigger: String,
    pub template: String,
    pub snap_domain: String,
    pub regex_pattern: String,
    pub shortcut_menu: bool,
    pub fmt_open_snap_domain: bool,
    pub fmt_open_base_path: bool,
    pub fmt_url_encode_placeholder: bool,
    pub fmt_url_encode_space_to_plus: bool,
}

/// The form a custom bang is saved (or, with `delete`, deleted) with: the bang
/// id first when known; then either the deletion flag alone or the settings.
pub open spec fn custom_bang_form(d: CustomBangDetails, delete: bool) -> Seq<
    (Seq<char>, Seq<char>),
> {
    let head = match d.bang_id {
        Some(id) => seq![("bang_id"@, id@)],
        None => Seq::<(Seq<char>, Seq<char>)>::empty(),
    };
    if delete {
        head.push(("delete"@, "1"@))
    } else {
        head + seq![
            ("name"@, d.name@),
            ("trigger"@, d.trigger@),
            ("template"@, d.template@),
            ("snap_domain"@, d.snap_domain@),
            ("regex_pattern"@, d.regex_pattern@),
            ("shortcut_menu"@, true_or_false(d.shortcut_menu)),
            ("fmt_open_snap_domain"@, true_or_false(d.fmt_open_snap_domain)),
            ("fmt_open_base_path"@, true_or_false(d.fmt_open_base_path)),
            ("fmt_url_encode_placeholder"@, true_or_false(d.fmt_url_encode_placeholder)),
            ("fmt_url_encode_space_to_plus"@, true_or_false(d.fmt_url_encode_space_to_plus)),
        ]
    }
}

/// Builds the form a custom bang is saved or deleted with.
pub fn build_custom_bang_form(details: &CustomBangDetails, delete: bool) -> (form: Vec<
    (String, String),
>)
    ensures
        form_view(form@) == custom_bang_form(*details, delete),
{
    let mut form: Vec<(String, String)> = Vec::new();
    if let Some(id) = &details.bang_id {
        push_field(&mut form, "bang_id", id.as_str());
    }
    let ghost head = form_view(form@);
    proof {
        assert(head =~= match details.bang_id {
            Some(id) => seq![("bang_id"@, id@)],
            None => Seq::<(Seq<char>, Seq<char>)>::empty(),
        });
    }
    if delete {
        push_field(&mut form, "delete", "1");
        return form;
    }
    push_field(&mut form, "name", details.name.as_str());
    push_field(&mut form, "trigger", details.trigger.as_str());
    push_field(&mut form, "template", details.template.as_str());
    push_field(&mut form, "snap_domain", details.snap_domain.as_str());
    push_field(&mut form, "regex_pattern", details.regex_pattern.as_str());
    push_field(&mut form, "shortcut_menu", true_or_false_text(details.shortcut_menu));
    push_field(&mut form, "fmt_open_snap_domain", true_or_false_text(details.fmt_open_snap_domain));
    push_field(&mut form, "fmt_open_base_path", true_or_false_text(details.fmt_open_base_path));
    push_field(
        &mut form,
        "fmt_url_encode_placeholder",
        true_or_false_text(details.fmt_url_encode_placeholder),
    );
    push_field(
        &mut form,
        "fmt_url_encode_space_to_plus",
        true_or_false_text(details.fmt_url_encode_space_to_plus),
    );
    proof {
        let d = *details;
        assert(form_view(form@) =~= head + seq![
            ("name"@, d.name@),
            ("trigger"@, d.trigger@),
            ("template"@, d.template@),
            ("snap_domain"@, d.snap_domain@),
            ("regex_pattern"@, d.regex_pattern@),
            ("shortcut_menu"@, true_or_false(d.shortcut_menu)),
            ("fmt_open_snap_domain"@, true_or_false(d.fmt_open_snap_domain)),
            ("fmt_open_base_path"@, true_or_false(d.fmt_open_base_path)),
            ("fmt_url_encode_placeholder"@, true_or_false(d.fmt_url_encode_placeholder)),
            ("fmt_url_encode_space_to_plus"@, true_or_false(d.fmt_url_encode_space_to_plus)),
        ]);
    }
    form
}

/// The given value when there is one, else the current one.
pub open spec fn pick(o: Option<String>, cur: Seq<char>) -> Seq<char> {
    match o {
        Some(v) => v@,
        None => cur,
    }
}

/// The given flag when there is one, else the current one.
pub open spec fn pick_flag(o: Option<bool>, cur: bool) -> bool {
    match o {
        Some(v) => v,
        None => cur,
    }
}

/// The given value trimmed when it is not blank, else the current one.
pub open spec fn pick_trimmed(o: Option<String>, cur: Seq<char>) -> Seq<char> {
    match trimmed_nonblank(opt_view(o)) {
        Some(v) => v,
        None => cur,
    }
}

/// The given value read as an optional form value when there is one, else
/// the current one.
pub open spec fn pick_form_value(o: Option<String>, cur: Option<Seq<char>>) -> Option<Seq<char>> {
    match o {
        Some(v) => optional_form_value(Some(v@)),
        None => cur,
    }
}

/// The lens settings a request may change besides the name; absent ones stay.
#[derive(Debug, Clone)]
pub struct LensOptions {
    pub included_sites: Option<String>,
    pub included_keywords: Option<String>,
    pub description: Option<String>,
    pub search_region: Option<String>,
    pub before_time: Option<String>,
    pub after_time: Option<String>,
    pub excluded_sites: Option<String>,
    pub excluded_keywords: Option<String>,
    pub shortcut_keyword: Option<String>,
    pub autocomplete_keywords: Option<bool>,
    pub template: Option<String>,
    pub file_type: Option<String>,
    pub share_with_team: Option<bool>,
    pub share_copy_code: Option<bool>,
}

/// A request to create a lens.
#[derive(Debug, Clone)]
pub struct LensCreateRequest {
    pub name: String,
    pub options: LensOptions,
}

/// A request to change a lens, named by `target`.
#[derive(Debug, Clone)]
pub struct LensUpdateRequest {
    pub target: String,
    pub name: Option<String>,
    pub options: LensOptions,
}

/// `new` is `old` with the options applied: given texts replace the current
/// ones as they are, except the search region (trimmed, ignored when blank)
/// and the time bounds (read as optional form values); given flags replace
/// the current ones; the id and the name stay.
pub open spec fn lens_options_applied(old: LensDetails, new: LensDetails, o: LensOptions) -> bool {
    &&& new.id == old.id
    &&& new.name == old.name
    &&& new.included_sites@ == pick(o.included_sites, old.included_sites@)
    &&& new.included_keywords@ == pick(o.included_keywords, old.included_keywords@)
    &&& new.description@ == pick(o.description, old.description@)
    &&& new.search_region@ == pick_trimmed(o.search_region, old.search_region@)
    &&& opt_view(new.before_time) == pick_form_value(o.before_time, opt_view(old.before_time))
    &&& opt_view(new.after_time) == pick_form_value(o.after_time, opt_view(old.after_time))
    &&& new.excluded_sites@ == pick(o.excluded_sites, old.excluded_sites@)
    &&& new.excluded_keywords@ == pick(o.excluded_keywords, old.excluded_keywords@)
    &&& new.shortcut_keyword@ == pick(o.shortcut_keyword, old.shortcut_keyword@)
    &&& new.autocomplete_keywords == pick_flag(o.autocomplete_keywords, old.autocomplete_keywords)
    &&& new.template@ == pick(o.template, old.template@)
    &&& new.file_type@ == pick(o.file_type, old.file_type@)
    &&& new.share_with_team == pick_flag(o.share_with_team, old.share_with_team)
    &&& new.share_copy_code == pick_flag(o.share_copy_code, old.share_copy_code)
}

/// Replaces a text setting when a value is given.
fn set_text(field: &mut String, value: &Option<String>)
    ensures
        final(field)@ == pick(*value, old(field)@),
{
    if let Some(v) = value {
        *field = v.clone();
    }
}

/// Replaces a flag when a value is given.
fn set_flag(field: &mut bool, value: Option<bool>)
    ensures
        *final(field) == pick_flag(value, *old(field)),
{
    if let Some(v) = value {
        *field = v;
    }
}

/// Replaces a text setting by a given value, trimmed, unless it is blank.
fn set_trimmed(field: &mut String, value: &Option<String>)
    ensures
        final(field)@ == pick_trimmed(*value, old(field)@),
{
    if let Some(v) = crate::text::trimmed_optional(crate::search::as_opt_str(value)) {
        *field = v;
    }
}

/// Replaces an optional form value when a value is given.
fn set_form_value(field: &mut Option<String>, value: &Option<String>)
    ensures
        opt_view(*final(field)) == pick_form_value(*value, opt_view(*old(field))),
{
    if let Some(v) = value {
        *field = normalize_optional_form_value(Some(v.clone()));
    }
}

/// Applies the options of a lens request.
fn apply_lens_options(details: &mut LensDetails, o: &LensOptions)
    ensures
        lens_options_applied(*old(details), *final(details), *o),
{
    set_text(&mut details.included_sites, &o.included_sites);
    set_text(&mut details.included_keywords, &o.included_keywords);
    set_text(&mut details.description, &o.description);
    set_trimmed(&mut details.search_region, &o.search_region);
    set_form_value(&mut details.before_time, &o.before_time);
    set_form_value(&mut details.after_time, &o.after_time);
    set_text(&mut details.excluded_sites, &o.excluded_sites);
    set_text(&mut details.excluded_keywords, &o.excluded_keywords);
    set_text(&mut details.shortcut_keyword, &o.shortcut_keyword);
    set_flag(&mut details.autocomplete_keywords, o.autocomplete_keywords);
    set_text(&mut details.template, &o.template);
    set_text(&mut details.file_type, &o.file_type);
    set_flag(&mut details.share_with_team, o.share_with_team);
    set_flag(&mut details.share_copy_code, o.share_copy_code);
}

/// Applies a create request to the settings of a new lens: the name is
/// checked and trimmed, the options applied.
///
/// # Errors
/// A configuration error for a blank name; the settings are then unchanged.
pub fn apply_lens_create_request(details: &mut LensDetails, request: &LensCreateRequest) -> (r:
    Result<(), KagiError>)
    ensures
        match named_target(request.name@, "lens name"@) {
            Err(m) => fails_with(r, ErrorKind::Config, m) && *final(details) == *old(details),
            Ok(n) => r is Ok && final(details).name@ == n && lens_options_applied(
                *old(details),
                LensDetails { name: old(details).name, ..*final(details) },
                request.options,
            ),
        },
{
    let name = normalize_named_target(request.name.as_str(), "lens name")?;
    let ghost before = *details;
    apply_lens_options(details, &request.options);
    let ghost applied = *details;
    details.name = name;
    proof {
        assert(LensDetails { name: before.name, ..*details } == applied);
    }
    Ok(())
}

/// Applies an update request to a lens's settings: a given name is checked
/// and trimmed, the options applied.
///
/// # Errors
/// A configuration error for a blank name; the settings are then unchanged.
pub fn apply_lens_update_request(details: &mut LensDetails, request: &LensUpdateRequest) -> (r:
    Result<(), KagiError>)
    ensures
        match request.name {
            Some(v) => match named_target(v@, "lens name"@) {
                Err(m) => fails_with(r, ErrorKind::Config, m) && *final(details) == *old(details),
                Ok(n) => r is Ok && final(details).name@ == n && lens_options_applied(
                    *old(details),
                    LensDetails { name: old(details).name, ..*final(details) },
                    request.options,
                ),
            },
            None => r is Ok && lens_options_applied(*old(details), *final(details), request.options),
        },
{
    let name = match &request.name {
        Some(v) => Some(normalize_named_target(v.as_str(), "lens name")?),
        None => None,
    };
    let ghost before = *details;
    apply_lens_options(details, &request.options);
    let ghost applied = *details;
    if let Some(n) = name {
        details.name = n;
        proof {
            assert(LensDetails { name: before.name, ..*details } == applied);
        }
    }
    Ok(())
}

/// The custom bang settings a request may change besides name and trigger;
/// absent ones stay.
#[derive(Debug, Clone)]
pub struct CustomBangOptions {
    pub template: Option<String>,
    pub snap_domain: Option<String>,
    pub regex_pattern: Option<String>,
    pub shortcut_menu: Option<bool>,
    pub fmt_open_snap_domain: Option<bool>,
    pub fmt_open_base_path: Option<bool>,
    pub fmt_url_encode_placeholder: Option<bool>,
    pub fmt_url_encode_space_to_plus: Option<bool>,
}

/// A request to create a custom bang.
#[derive(Debug, Clone)]
pub struct CustomBangCreateRequest {
    pub name: String,
    pub trigger: String,
    pub options: CustomBangOptions,
}

/// A request to change a custom bang, named by `target`.
#[derive(Debug, Clone)]
pub struct CustomBangUpdateRequest {
    pub target: String,
    pub name: Option<String>,
    pub trigger: Option<String>,
    pub options: CustomBangOptions,
}

/// `new` is `old` with the options applied: given values replace the current
/// ones; the id, name and trigger stay.
pub open spec fn bang_options_applied(
    old: CustomBangDetails,
    new: CustomBangDetails,
    o: CustomBangOptions,
) -> bool {
    &&& new.bang_id == old.bang_id
    &&& new.name == old.name
    &&& new.trigger == old.trigger
    &&& new.template@ == pick(o.template, old.template@)
    &&& new.snap_domain@ == pick(o.snap_domain, old.snap_domain@)
    &&& new.regex_pattern@ == pick(o.regex_pattern, old.regex_pattern@)
    &&& new.shortcut_menu == pick_flag(o.shortcut_menu, old.shortcut_menu)
    &&& new.fmt_open_snap_domain == pick_flag(o.fmt_open_snap_domain, old.fmt_open_snap_domain)
    &&& new.fmt_open_base_path == pick_flag(o.fmt_open_base_path, old.fmt_open_base_path)
    &&& new.fmt_url_encode_placeholder == pick_flag(
        o.fmt_url_encode_placeholder,
        old.fmt_url_encode_placeholder,
    )
    &&& new.fmt_url_encode_space_to_plus == pick_flag(
        o.fmt_url_encode_space_to_plus,
        old.fmt_url_encode_space_to_plus,
    )
}

/// Applies the options of a custom bang request.
fn apply_bang_options(details: &mut CustomBangDetails, o: &CustomBangOptions)
    ensures
        bang_options_applied(*old(details), *final(details), *o),
{
    if let Some(v) = &o.template {
        details.template = v.clone();
    }
    if let Some(v) = &o.snap_domain {
        details.snap_domain = v.clone();
    }
    if let Some(v) = &o.regex_pattern {
        details.regex_pattern = v.clone();
    }
    if let Some(v) = o.shortcut_menu {
        details.shortcut_menu = v;
    }
    if let Some(v) = o.fmt_open_snap_domain {
        details.fmt_open_snap_domain = v;
    }
    if let Some(v) = o.fmt_open_base_path {
        details.fmt_open_base_path = v;
    }
    if let Some(v) = o.fmt_url_encode_placeholder {
        details.fmt_url_encode_placeholder = v;
    }
    if let Some(v) = o.fmt_url_encode_space_to_plus {
        details.fmt_url_encode_space_to_plus = v;
    }
}

/// Applies a create request to the settings of a new custom bang: the name
/// is checked and trimmed, the trigger normalized, the options applied.
///
/// # Errors
/// A configuration error for a blank name, else for an empty trigger; the
/// settings are then unchanged.
pub fn apply_custom_bang_create_request(
    details: &mut CustomBangDetails,
    request: &CustomBangCreateRequest,
) -> (r: Result<(), KagiError>)
    ensures
        match named_target(request.name@, "custom bang name"@) {
            Err(m) => fails_with(r, ErrorKind::Config, m) && *final(details) == *old(details),
            Ok(n) => match bang_trigger(request.trigger@) {
                Err(m) => fails_with(r, ErrorKind::Config, m) && *final(details) == *old(details),
                Ok(t) => r is Ok && final(details).name@ == n && final(details).trigger@ == t
                    && bang_options_applied(
                    *old(details),
                    CustomBangDetails {
                        name: old(details).name,
                        trigger: old(details).trigger,
                        ..*final(details)
                    },
                    request.options,
                ),
            },
        },
{
    let name = normalize_named_target(request.name.as_str(), "custom bang name")?;
    let trigger = normalize_custom_bang_trigger(request.trigger.as_str())?;
    let ghost before = *details;
    apply_bang_options(details, &request.options);
    let ghost applied = *details;
    details.name = name;
    details.trigger = trigger;
    proof {
        assert(CustomBangDetails { name: before.name, trigger: before.trigger, ..*details }
            == applied);
    }
    Ok(())
}

/// Applies an update request to a custom bang's settings: a given name is
/// checked and trimmed, a given trigger normalized, the options applied.
///
/// # Errors
/// A configuration error for a blank name, else for an empty trigger; the
/// settings are then unchanged.
pub fn apply_custom_bang_update_request(
    details: &mut CustomBangDetails,
    request: &CustomBangUpdateRequest,
) -> (r: Result<(), KagiError>)
    ensures
        match request.name {
            Some(v) if named_target(v@, "custom bang name"@) is Err => fails_with(
                r,
                ErrorKind::Config,
                named_target(v@, "custom bang name"@)->Err_0,
            ) && *final(details) == *old(details),
            _ => match request.trigger {
                Some(v) if bang_trigger(v@) is Err => fails_with(
                    r,
                    ErrorKind::Config,
                    bang_trigger(v@)->Err_0,
                ) && *final(details) == *old(details),
                _ => r is Ok && final(details).name@ == match request.name {
                    Some(v) => named_target(v@, "custom bang name"@)->Ok_0,
                    None => old(details).name@,
                } && final(details).trigger@ == match request.trigger {
                    Some(v) => bang_trigger(v@)->Ok_0,
                    None => old(details).trigger@,
                } && bang_options_applied(
                    *old(details),
                    CustomBangDetails {
                        name: old(details).name,
                        trigger: old(details).trigger,
                        ..*final(details)
                    },
                    request.options,
                ),
            },
        },
{
    let name = match &request.name {
        Some(v) => Some(normalize_named_target(v.as_str(), "custom bang name")?),
        None => None,
    };
    let trigger = match &request.trigger {
        Some(v) => Some(normalize_custom_bang_trigger(v.as_str())?),
        None => None,
    };
    let ghost before = *details;
    apply_bang_options(details, &request.options);
    let ghost applied = *details;
    if let Some(n) = name {
        details.name = n;
    }
    if let Some(t) = trigger {
        details.trigger = t;
    }
    proof {
        assert(CustomBangDetails { name: before.name, trigger: before.trigger, ..*details }
            == applied);
    }
    Ok(())
}

/// The custom assistant settings a request may change besides the name;
/// absent ones stay.
#[derive(Debug, Clone)]
pub struct AssistantProfileOptions {
    pub bang_trigger: Option<String>,
    pub internet_access: Option<bool>,
    pub selected_lens: Option<String>,
    pub personalizations: Option<bool>,
    pub base_model: Option<String>,
    pub custom_instructions: Option<String>,
}

/// A request to create a custom assistant.
#[derive(Debug, Clone)]
pub struct AssistantProfileCreateRequest {
    pub name: String,
    pub options: AssistantProfileOptions,
}

/// A request to change a custom assistant, named by `target`.
#[derive(Debug, Clone)]
pub struct AssistantProfileUpdateRequest {
    pub target: String,
    pub name: Option<String>,
    pub options: AssistantProfileOptions,
}

/// `new` is `old` with the options applied, the bang trigger as given by
/// `trigger`: the lens and the model are trimmed and ignored when blank, the
/// instructions replace the current ones as they are, flags replace the
/// current ones; the id and the name stay.
pub open spec fn assistant_options_applied(
    old: AssistantProfileDetails,
    new: AssistantProfileDetails,
    o: AssistantProfileOptions,
    trigger: Option<Seq<char>>,
) -> bool {
    &&& new.profile_id == old.profile_id
    &&& new.name == old.name
    &&& opt_view(new.bang_trigger) == trigger
    &&& new.internet_access == pick_flag(o.internet_access, old.internet_access)
    &&& new.selected_lens@ == pick_trimmed(o.selected_lens, old.selected_lens@)
    &&& new.personalizations == pick_flag(o.personalizations, old.personalizations)
    &&& new.base_model@ == pick_trimmed(o.base_model, old.base_model@)
    &&& new.custom_instructions@ == pick(o.custom_instructions, old.custom_instructions@)
}

/// Applies the options of a custom assistant request except the bang trigger.
fn apply_assistant_options(details: &mut AssistantProfileDetails, o: &AssistantProfileOptions)
    ensures
        assistant_options_applied(
            *old(details),
            *final(details),
            *o,
            opt_view(old(details).bang_trigger),
        ),
{
    if let Some(v) = o.internet_access {
        details.internet_access = v;
    }
    if let Some(v) = crate::text::trimmed_optional(crate::search::as_opt_str(&o.selected_lens)) {
        details.selected_lens = v;
    }
    if let Some(v) = o.personalizations {
        details.personalizations = v;
    }
    if let Some(v) = crate::text::trimmed_optional(crate::search::as_opt_str(&o.base_model)) {
        details.base_model = v;
    }
    if let Some(v) = &o.custom_instructions {
        details.custom_instructions = v.clone();
    }
}

/// Applies a create request to the settings of a new custom assistant: the
/// name is checked and trimmed, a non-blank bang trigger set (trimmed), the
/// other options applied.
///
/// # Errors
/// A configuration error for a blank name; the settings are then unchanged.
pub fn apply_custom_assistant_create_request(
    details: &mut AssistantProfileDetails,
    request: &AssistantProfileCreateRequest,
) -> (r: Result<(), KagiError>)
    ensures
        match named_target(request.name@, "assistant name"@) {
            Err(m) => fails_with(r, ErrorKind::Config, m) && *final(details) == *old(details),
            Ok(n) => r is Ok && final(details).name@ == n && assistant_options_applied(
                *old(details),
                AssistantProfileDetails { name: old(details).name, ..*final(details) },
                request.options,
                match trimmed_nonblank(opt_view(request.options.bang_trigger)) {
                    Some(t) => Some(t),
                    None => opt_view(old(details).bang_trigger),
                },
            ),
        },
{
    let name = normalize_named_target(request.name.as_str(), "assistant name")?;
    let ghost before = *details;
    if let Some(t) = crate::text::trimmed_optional(
        crate::search::as_opt_str(&request.options.bang_trigger),
    ) {
        details.bang_trigger = Some(t);
    }
    apply_assistant_options(details, &request.options);
    let ghost applied = *details;
    details.name = name;
    proof {
        assert(AssistantProfileDetails { name: before.name, ..*details } == applied);
    }
    Ok(())
}

/// Applies an update request to a custom assistant's settings: a given name
/// is checked and trimmed; a given bang trigger is set trimmed, a blank one
/// removes the trigger; the other options are applied.
///
/// # Errors
/// A configuration error for a blank name; the settings are then unchanged.
pub fn apply_custom_assistant_update_request(
    details: &mut AssistantProfileDetails,
    request: &AssistantProfileUpdateRequest,
) -> (r: Result<(), KagiError>)
    ensures
        match request.name {
            Some(v) if named_target(v@, "assistant name"@) is Err => fails_with(
                r,
                ErrorKind::Config,
                named_target(v@, "assistant name"@)->Err_0,
            ) && *final(details) == *old(details),
            _ => r is Ok && final(details).name@ == match request.name {
                Some(v) => named_target(v@, "assistant name"@)->Ok_0,
                None => old(details).name@,
            } && assistant_options_applied(
                *old(details),
                AssistantProfileDetails { name: old(details).name, ..*final(details) },
                request.options,
                match request.options.bang_trigger {
                    Some(t) => trimmed_nonblank(Some(t@)),
                    None => opt_view(old(details).bang_trigger),
                },
            ),
        },
{
    let name = match &request.name {
        Some(v) => Some(normalize_named_target(v.as_str(), "assistant name")?),
        None => None,
    };
    let ghost before = *details;
    if let Some(t) = &request.options.bang_trigger {
        details.bang_trigger = crate::text::trimmed_optional(Some(t.as_str()));
    }
    apply_assistant_options(details, &request.options);
    let ghost applied = *details;
    if let Some(n) = name {
        details.name = n;
    }
    proof {
        assert(AssistantProfileDetails { name: before.name, ..*details } == applied);
    }
    Ok(())
}

/// Whether a settings page is Kagi's logged-out landing page (it holds
/// every marker of that page).
pub fn looks_like_logged_out_page(body: &str) -> (b: bool)
    ensures
        b == crate::search::is_logged_out_page(body@),
{
    crate::search::looks_unauthenticated(body)
}

/// A name that was accepted is accepted again unchanged: normalizing twice
/// is normalizing once.
pub proof fn law_named_target_stable(raw: Seq<char>, label: Seq<char>)
    ensures
        named_target(raw, label) matches Ok(t) ==> named_target(t, label) == Ok::<
            Seq<char>,
            Seq<char>,
        >(t),
{
    crate::text::law_trim_idempotent(raw);
}

/// A redirect rule that was accepted is accepted again unchanged.
pub proof fn law_redirect_rule_stable(raw: Seq<char>)
    ensures
        redirect_rule(raw) matches Ok(t) ==> redirect_rule(t) == Ok::<Seq<char>, Seq<char>>(t),
{
    crate::text::law_trim_idempotent(raw);
}

/// A normalized custom bang trigger that does not itself begin with `!` is
/// normalized to itself.
pub proof fn law_bang_trigger_stable(raw: Seq<char>)
    requires
        bang_trigger(raw) matches Ok(t) && t[0] != '!',
    ensures
        bang_trigger(raw) matches Ok(t) && bang_trigger(t) == Ok::<Seq<char>, Seq<char>>(t),
{
    let t = trim_ws(trim_start_char(trim_ws(raw), '!'));
    crate::text::law_trim_idempotent(trim_start_char(trim_ws(raw), '!'));
    assert(trim_ws(t) == t);
    assert(t.len() > 0 && t[0] != '!');
    assert(trim_start_char(t, '!') == t);
}

} // verus!
