//! Kagi search requests: building, validation and query parameters.
//!
//! A [`SearchRequest`] describes a web search; [`NewsSearchRequest`] a search
//! of the News tab. Validation decides which requests may be sent, and the
//! query-parameter builders decide exactly what is sent.
use vstd::prelude::*;

use crate::error::{fails_with, ErrorKind, KagiError};
use crate::text::{
    blank, chars_less, chars_of, concat3, is_blank, lex_less, opt_str_view, opt_view, parse_u32,
    parse_u32_chars, str_contains, contains_seq, trim_ws, trimmed, trimmed_nonblank,
    trimmed_optional,
};

verus! {

/// Parameters for a Kagi search API request.
#[derive(Debug, Clone)]
pub struct SearchRequest {
    pub query: String,
    pub lens: Option<String>,
    pub region: Option<String>,
    pub time_filter: Option<String>,
    pub from_date: Option<String>,
    pub to_date: Option<String>,
    pub order: Option<String>,
    pub verbatim: Option<bool>,
    pub personalized: Option<bool>,
}

/// The message given for a lens that is not a numeric index.
pub open spec fn lens_error_message(lens: Seq<char>) -> Seq<char> {
    "lens '"@ + lens + LENS_HINT@
}

/// What follows the lens value in the message for a non-numeric lens.
pub const LENS_HINT: &'static str = "' must be a numeric index (e.g., '0', '1', '2'). Visit https://kagi.com/settings/lenses to see your enabled lenses, then use the index from the 'l=' parameter in your browser URL.";

/// Whether `y` is a leap year of the Gregorian calendar.
pub open spec fn leap_year(y: u32) -> bool {
    (y % 4 == 0 && y % 100 != 0) || y % 400 == 0
}

/// The number of days of month `m` of year `y` (0 for a month out of range).
pub open spec fn month_days(y: u32, m: u32) -> u32 {
    if m == 1 || m == 3 || m == 5 || m == 7 || m == 8 || m == 10 || m == 12 {
        31
    } else if m == 4 || m == 6 || m == 9 || m == 11 {
        30
    } else if m == 2 && leap_year(y) {
        29
    } else if m == 2 {
        28
    } else {
        0
    }
}

/// `s` is a calendar date written `YYYY-MM-DD`.
///
/// Each of the three fields is read as `str::parse::<u32>` reads it; the
/// month must lie in 1..=12 and the day in 1..=the days of that month.
pub open spec fn valid_iso_date(s: Seq<char>) -> bool {
    &&& s.len() == 10
    &&& s[4] == '-'
    &&& s[7] == '-'
    &&& match (
        parse_u32(s.subrange(0, 4)),
        parse_u32(s.subrange(5, 7)),
        parse_u32(s.subrange(8, 10)),
    ) {
        (Some(y), Some(m), Some(d)) => 1 <= m <= 12 && d >= 1 && d <= month_days(y, m),
        _ => false,
    }
}

/// The message for a date option that is not a `YYYY-MM-DD` date.
pub open spec fn date_error_message(label: Seq<char>) -> Seq<char> {
    label + " must use YYYY-MM-DD format"@
}

impl SearchRequest {
    /// Any runtime filter (region, time, dates, order, verbatim, personalized) is set.
    pub open spec fn spec_has_runtime_filters(&self) -> bool {
        ||| self.region is Some
        ||| self.time_filter is Some
        ||| self.from_date is Some
        ||| self.to_date is Some
        ||| self.order is Some
        ||| self.verbatim == Some(true)
        ||| self.personalized is Some
    }

    /// The first check the request fails, as the message of the `Config`
    /// error that `validate` reports, or `None` when the request is valid.
    ///
    /// The checks, in order: a non-blank query; a lens, if given, that is
    /// not blank and is a numeric index; region, time, order, from-date and
    /// to-date, if given, not blank; no time filter together with a date;
    /// each date a valid `YYYY-MM-DD` date; the from-date not after the to-date.
    pub open spec fn validation_error(&self) -> Option<Seq<char>> {
        let lens = trimmed_nonblank(opt_view(self.lens));
        let region = trimmed_nonblank(opt_view(self.region));
        let time = trimmed_nonblank(opt_view(self.time_filter));
        let order = trimmed_nonblank(opt_view(self.order));
        let from = trimmed_nonblank(opt_view(self.from_date));
        let to = trimmed_nonblank(opt_view(self.to_date));
        if is_blank(self.query@) {
            Some("search query cannot be empty"@)
        } else if self.lens is Some && lens is None {
            Some("search --lens cannot be empty"@)
        } else if lens is Some && parse_u32(lens->0) is None {
            Some(lens_error_message(lens->0))
        } else if self.region is Some && region is None {
            Some("search --region cannot be empty"@)
        } else if self.time_filter is Some && time is None {
            Some("search --time cannot be empty"@)
        } else if self.order is Some && order is None {
            Some("search --order cannot be empty"@)
        } else if self.from_date is Some && from is None {
            Some("search --from-date cannot be empty"@)
        } else if self.to_date is Some && to is None {
            Some("search --to-date cannot be empty"@)
        } else if time is Some && (from is Some || to is Some) {
            Some("search --time cannot be combined with --from-date or --to-date"@)
        } else if from is Some && !valid_iso_date(from->0) {
            Some(date_error_message("search --from-date"@))
        } else if to is Some && !valid_iso_date(to->0) {
            Some(date_error_message("search --to-date"@))
        } else if from is Some && to is Some && lex_less(to->0, from->0) {
            Some("search --from-date cannot be after --to-date"@)
        } else {
            None
        }
    }

    /// The query parameters sent for a valid request, in order: `q` (the
    /// trimmed query), then `l`, `r`, `dr`, `from_date`, `to_date` and
    /// `order` for each of lens, region, time, dates and order that is set
    /// and not blank (trimmed), `verbatim=1` when verbatim is on, and
    /// `personalized` as `1` or `0` when set.
    pub open spec fn query_params(&self) -> Seq<(Seq<char>, Seq<char>)> {
        seq![("q"@, trim_ws(self.query@))] + opt_param("l"@, trimmed_nonblank(opt_view(self.lens)))
            + opt_param("r"@, trimmed_nonblank(opt_view(self.region))) + opt_param(
            "dr"@,
            trimmed_nonblank(opt_view(self.time_filter)),
        ) + opt_param("from_date"@, trimmed_nonblank(opt_view(self.from_date))) + opt_param(
            "to_date"@,
            trimmed_nonblank(opt_view(self.to_date)),
        ) + opt_param("order"@, trimmed_nonblank(opt_view(self.order))) + (if self.verbatim == Some(
            true,
        ) {
            seq![("verbatim"@, "1"@)]
        } else {
            seq![]
        }) + match self.personalized {
            Some(p) => seq![("personalized"@, if p {
                "1"@
            } else {
                "0"@
            })],
            None => seq![],
        }
    }

    /// Creates a new `SearchRequest` with the given query and no filters.
    pub fn new(query: &str) -> (r: Self)
        ensures
            r.query@ == query@,
            r.lens is None,
            r.region is None,
            r.time_filter is None,
            r.from_date is None,
            r.to_date is None,
            r.order is None,
            r.verbatim is None,
            r.personalized is None,
    {
        SearchRequest {
            query: query.to_owned(),
            lens: None,
            region: None,
            time_filter: None,
            from_date: None,
            to_date: None,
            order: None,
            verbatim: None,
            personalized: None,
        }
    }

    /// Sets the lens filter (a numeric lens index).
    pub fn with_lens(self, lens: &str) -> (r: Self)
        ensures
            r == (SearchRequest { lens: r.lens, ..self }),
            opt_view(r.lens) == Some(lens@),
    {
        SearchRequest { lens: Some(lens.to_owned()), ..self }
    }

    /// Sets the region filter (a Kagi region code such as `us`).
    pub fn with_region(self, region: &str) -> (r: Self)
        ensures
            r == (SearchRequest { region: r.region, ..self }),
            opt_view(r.region) == Some(region@),
    {
        SearchRequest { region: Some(region.to_owned()), ..self }
    }

    /// Sets the time filter (a time window value).
    pub fn with_time_filter(self, time_filter: &str) -> (r: Self)
        ensures
            r == (SearchRequest { time_filter: r.time_filter, ..self }),
            opt_view(r.time_filter) == Some(time_filter@),
    {
        SearchRequest { time_filter: Some(time_filter.to_owned()), ..self }
    }

    /// Sets the start date (`YYYY-MM-DD`).
    pub fn with_from_date(self, from_date: &str) -> (r: Self)
        ensures
            r == (SearchRequest { from_date: r.from_date, ..self }),
            opt_view(r.from_date) == Some(from_date@),
    {
        SearchRequest { from_date: Some(from_date.to_owned()), ..self }
    }

    /// Sets the end date (`YYYY-MM-DD`).
    pub fn with_to_date(self, to_date: &str) -> (r: Self)
        ensures
            r == (SearchRequest { to_date: r.to_date, ..self }),
            opt_view(r.to_date) == Some(to_date@),
    {
        SearchRequest { to_date: Some(to_date.to_owned()), ..self }
    }

    /// Sets the sort order.
    pub fn with_order(self, order: &str) -> (r: Self)
        ensures
            r == (SearchRequest { order: r.order, ..self }),
            opt_view(r.order) == Some(order@),
    {
        SearchRequest { order: Some(order.to_owned()), ..self }
    }

    /// Sets verbatim mode.
    pub fn with_verbatim(self, verbatim: bool) -> (r: Self)
        ensures
            r == (SearchRequest { verbatim: Some(verbatim), ..self }),
    {
        SearchRequest { verbatim: Some(verbatim), ..self }
    }

    /// Sets the personalization flag.
    pub fn with_personalized(self, personalized: bool) -> (r: Self)
        ensures
            r == (SearchRequest { personalized: Some(personalized), ..self }),
    {
        SearchRequest { personalized: Some(personalized), ..self }
    }

    /// Returns `true` if any runtime filter (region, time, dates, order,
    /// verbatim, personalized) is set.
    pub fn has_runtime_filters(&self) -> (b: bool)
        ensures
            b == self.spec_has_runtime_filters(),
    {
        self.region.is_some() || self.time_filter.is_some() || self.from_date.is_some()
            || self.to_date.is_some() || self.order.is_some() || match self.verbatim {
            Some(v) => v,
            None => false,
        } || self.personalized.is_some()
    }

    /// Returns `true` if this request needs session-token authentication
    /// (a lens or a runtime filter).
    pub fn requires_session_auth(&self) -> (b: bool)
        ensures
            b == (self.lens is Some || self.spec_has_runtime_filters()),
    {
        self.lens.is_some() || self.has_runtime_filters()
    }

    /// Validates the search request parameters.
    ///
    /// # Errors
    /// Returns `KagiError::Config` with the message of the first failed check
    /// (see [`SearchRequest::validation_error`]).
    pub fn validate(&self) -> (r: Result<(), KagiError>)
        ensures
            match self.validation_error() {
                None => r is Ok,
                Some(m) => fails_with(r, ErrorKind::Config, m),
            },
    {
        if blank(self.query.as_str()) {
            return Err(KagiError::Config("search query cannot be empty".to_owned()));
        }
        let lens = trimmed_optional(as_opt_str(&self.lens));
        if self.lens.is_some() && lens.is_none() {
            return Err(KagiError::Config("search --lens cannot be empty".to_owned()));
        }
        if let Some(l) = &lens {
            validate_lens_value(l.as_str())?;
        }
        let region = trimmed_optional(as_opt_str(&self.region));
        if self.region.is_some() && region.is_none() {
            return Err(KagiError::Config("search --region cannot be empty".to_owned()));
        }
        let time_filter = trimmed_optional(as_opt_str(&self.time_filter));
        if self.time_filter.is_some() && time_filter.is_none() {
            return Err(KagiError::Config("search --time cannot be empty".to_owned()));
        }
        let order = trimmed_optional(as_opt_str(&self.order));
        if self.order.is_some() && order.is_none() {
            return Err(KagiError::Config("search --order cannot be empty".to_owned()));
        }
        let from_date = trimmed_optional(as_opt_str(&self.from_date));
        if self.from_date.is_some() && from_date.is_none() {
            return Err(KagiError::Config("search --from-date cannot be empty".to_owned()));
        }
        let to_date = trimmed_optional(as_opt_str(&self.to_date));
        if self.to_date.is_some() && to_date.is_none() {
            return Err(KagiError::Config("search --to-date cannot be empty".to_owned()));
        }
        if time_filter.is_some() && (from_date.is_some() || to_date.is_some()) {
            return Err(
                KagiError::Config(
                    "search --time cannot be combined with --from-date or --to-date".to_owned(),
                ),
            );
        }
        if let Some(d) = &from_date {
            validate_iso_date("search --from-date", d.as_str())?;
        }
        if let Some(d) = &to_date {
            validate_iso_date("search --to-date", d.as_str())?;
        }
        if let (Some(f), Some(t)) = (&from_date, &to_date) {
            let fv = chars_of(f.as_str());
            let tv = chars_of(t.as_str());
            if chars_less(&tv, &fv) {
                return Err(
                    KagiError::Config("search --from-date cannot be after --to-date".to_owned()),
                );
            }
        }
        Ok(())
    }
}

/// A parameter named `name` holding `value`, when there is a value.
pub open spec fn opt_param(name: Seq<char>, value: Option<Seq<char>>) -> Seq<
    (Seq<char>, Seq<char>),
> {
    match value {
        Some(v) => seq![(name, v)],
        None => seq![],
    }
}

/// The pairs of a parameter list, as text.
pub open spec fn params_view(p: Seq<(&'static str, String)>) -> Seq<(Seq<char>, Seq<char>)> {
    p.map_values(|x: (&'static str, String)| (x.0@, x.1@))
}

/// An optional owned string as an optional string slice.
pub fn as_opt_str(o: &Option<String>) -> (r: Option<&str>)
    ensures
        opt_str_view(r) == opt_view(*o),
{
    match o {
        Some(s) => Some(s.as_str()),
        None => None,
    }
}

/// Validates that a lens value is a numeric index.
///
/// # Errors
/// Returns `KagiError::Config` if the value does not parse as a `u32`.
pub fn validate_lens_value(lens: &str) -> (r: Result<(), KagiError>)
    ensures
        parse_u32(lens@) is Some ==> r is Ok,
        parse_u32(lens@) is None ==> fails_with(r, ErrorKind::Config, lens_error_message(lens@)),
{
    let v = chars_of(lens);
    if parse_u32_chars(&v).is_none() {
        return Err(KagiError::Config(concat3("lens '", lens, LENS_HINT)));
    }
    Ok(())
}

/// Whether `year` is a leap year.
pub fn is_leap_year(year: u32) -> (b: bool)
    ensures
        b == leap_year(year),
{
    (year % 4 == 0 && year % 100 != 0) || year % 400 == 0
}

/// The number of days in `month` of `year` (0 for a month out of range).
pub fn days_in_month(year: u32, month: u32) -> (d: u32)
    ensures
        d == month_days(year, month),
{
    match month {
        1 | 3 | 5 | 7 | 8 | 10 | 12 => 31,
        4 | 6 | 9 | 11 => 30,
        2 => if is_leap_year(year) {
            29
        } else {
            28
        },
        _ => 0,
    }
}

/// A copy of `v[from..to]`.
fn sub_chars(v: &Vec<char>, from: usize, to: usize) -> (r: Vec<char>)
    requires
        from <= to <= v.len(),
    ensures
        r@ == v@.subrange(from as int, to as int),
{
    let mut r: Vec<char> = Vec::new();
    let mut i: usize = from;
    while i < to
        invariant
            from <= i <= to <= v.len(),
            r@ == v@.subrange(from as int, i as int),
        decreases to - i,
    {
        r.push(v[i]);
        i = i + 1;
    }
    r
}

/// Whether `date` is a calendar date written `YYYY-MM-DD`.
pub fn is_valid_iso_date(date: &str) -> (b: bool)
    ensures
        b == valid_iso_date(date@),
{
    let v = chars_of(date);
    if v.len() != 10 {
        return false;
    }
    if v[4] != '-' || v[7] != '-' {
        return false;
    }
    let year = match parse_u32_chars(&sub_chars(&v, 0, 4)) {
        Some(y) => y,
        None => return false,
    };
    let month = match parse_u32_chars(&sub_chars(&v, 5, 7)) {
        Some(m) => m,
        None => return false,
    };
    let day = match parse_u32_chars(&sub_chars(&v, 8, 10)) {
        Some(d) => d,
        None => return false,
    };
    if month == 0 || month > 12 || day == 0 {
        return false;
    }
    day <= days_in_month(year, month)
}

/// Checks that `date` is a `YYYY-MM-DD` date.
///
/// # Errors
/// Returns `KagiError::Config` naming `label` when it is not.
pub fn validate_iso_date(label: &str, date: &str) -> (r: Result<(), KagiError>)
    ensures
        valid_iso_date(date@) ==> r is Ok,
        !valid_iso_date(date@) ==> fails_with(r, ErrorKind::Config, date_error_message(label@)),
{
    if !is_valid_iso_date(date) {
        let mut m = label.to_owned();
        m.append(" must use YYYY-MM-DD format");
        return Err(KagiError::Config(m));
    }
    Ok(())
}

/// Builds the query parameters of a session-authenticated search.
///
/// # Errors
/// The request is validated first; its error is returned unchanged.
pub fn build_search_query_params(request: &SearchRequest) -> (r: Result<
    Vec<(&'static str, String)>,
    KagiError,
>)
    ensures
        match request.validation_error() {
            None => r matches Ok(p) && params_view(p@) == request.query_params(),
            Some(m) => fails_with(r, ErrorKind::Config, m),
        },
{
    request.validate()?;
    let mut params: Vec<(&'static str, String)> = Vec::new();
    params.push(("q", trimmed(request.query.as_str())));
    let ghost mut expect = seq![("q"@, trim_ws(request.query@))];
    assert(params_view(params@) =~= expect);
    push_opt_param(&mut params, "l", trimmed_optional(as_opt_str(&request.lens)));
    push_opt_param(&mut params, "r", trimmed_optional(as_opt_str(&request.region)));
    push_opt_param(&mut params, "dr", trimmed_optional(as_opt_str(&request.time_filter)));
    push_opt_param(&mut params, "from_date", trimmed_optional(as_opt_str(&request.from_date)));
    push_opt_param(&mut params, "to_date", trimmed_optional(as_opt_str(&request.to_date)));
    push_opt_param(&mut params, "order", trimmed_optional(as_opt_str(&request.order)));
    let ghost before = params_view(params@);
    if request.verbatim == Some(true) {
        params.push(("verbatim", "1".to_owned()));
    }
    assert(params_view(params@) =~= before + (if request.verbatim == Some(true) {
        seq![("verbatim"@, "1"@)]
    } else {
        seq![]
    }));
    let ghost before2 = params_view(params@);
    if let Some(p) = request.personalized {
        params.push(
            (
                "personalized",
                if p {
                    "1".to_owned()
                } else {
                    "0".to_owned()
                },
            ),
        );
    }
    assert(params_view(params@) =~= before2 + match request.personalized {
        Some(p) => seq![("personalized"@, if p {
            "1"@
        } else {
            "0"@
        })],
        None => seq![],
    });
    assert(params_view(params@) =~= request.query_params());
    Ok(params)
}

/// Appends `(name, value)` when there is a value.
fn push_opt_param(params: &mut Vec<(&'static str, String)>, name: &'static str, value: Option<String>)
    ensures
        params_view(final(params)@) == params_view(old(params)@) + opt_param(name@, opt_view(value)),
{
    if let Some(v) = value {
        params.push((name, v));
    }
    assert(params_view(params@) =~= params_view(old(params)@) + opt_param(name@, opt_view(value)));
}


/// Freshness window for News-tab search.
#[derive(Debug, Clone, Copy, PartialEq, Eq, Structural)]
pub enum NewsFreshness {
    Day,
    Week,
    Month,
}

impl NewsFreshness {
    /// The value sent for this window.
    pub open spec fn spec_as_str(self) -> Seq<char> {
        match self {
            NewsFreshness::Day => "day"@,
            NewsFreshness::Week => "week"@,
            NewsFreshness::Month => "month"@,
        }
    }

    /// The value sent for this window.
    pub fn as_str(self) -> (s: &'static str)
        ensures
            s@ == self.spec_as_str(),
    {
        match self {
            NewsFreshness::Day => "day",
            NewsFreshness::Week => "week",
            NewsFreshness::Month => "month",
        }
    }
}

/// Sort order for News-tab search.
#[derive(Debug, Clone, Copy, PartialEq, Eq, Structural)]
pub enum NewsSearchOrder {
    Default,
    Recency,
    Website,
}

impl NewsSearchOrder {
    /// The value sent for this order.
    pub open spec fn spec_as_str(self) -> Seq<char> {
        match self {
            NewsSearchOrder::Default => "1"@,
            NewsSearchOrder::Recency => "2"@,
            NewsSearchOrder::Website => "3"@,
        }
    }

    /// The value sent for this order.
    pub fn as_str(self) -> (s: &'static str)
        ensures
            s@ == self.spec_as_str(),
    {
        match self {
            NewsSearchOrder::Default => "1",
            NewsSearchOrder::Recency => "2",
            NewsSearchOrder::Website => "3",
        }
    }
}

/// Parameters for a News-tab search request (kagi.com/news).
#[derive(Debug, Clone)]
pub struct NewsSearchRequest {
    pub query: String,
    pub region: Option<String>,
    pub freshness: Option<NewsFreshness>,
    pub order: Option<NewsSearchOrder>,
    pub dir_desc: bool,
    pub limit: Option<usize>,
}

impl NewsSearchRequest {
    /// The message of the `Config` error of an invalid request, or `None`:
    /// the query must not be blank, nor the region when one is given.
    pub open spec fn validation_error(&self) -> Option<Seq<char>> {
        if is_blank(self.query@) {
            Some("search query cannot be empty"@)
        } else if self.region is Some && is_blank(self.region->0@) {
            Some("search --region cannot be empty"@)
        } else {
            None
        }
    }

    /// The query parameters sent: `q` (trimmed query), `r` (trimmed region,
    /// when set and not blank), `freshness`, `order`, and `dir=desc` when
    /// `dir_desc` is set.
    pub open spec fn query_params(&self) -> Seq<(Seq<char>, Seq<char>)> {
        seq![("q"@, trim_ws(self.query@))] + opt_param("r"@, trimmed_nonblank(opt_view(self.region)))
            + match self.freshness {
            Some(f) => seq![("freshness"@, f.spec_as_str())],
            None => seq![],
        } + match self.order {
            Some(o) => seq![("order"@, o.spec_as_str())],
            None => seq![],
        } + if self.dir_desc {
            seq![("dir"@, "desc"@)]
        } else {
            seq![]
        }
    }

    /// Checks the query and region.
    ///
    /// # Errors
    /// `KagiError::Config` for a blank query or a blank region.
    pub fn validate(&self) -> (r: Result<(), KagiError>)
        ensures
            match self.validation_error() {
                None => r is Ok,
                Some(m) => fails_with(r, ErrorKind::Config, m),
            },
    {
        if blank(self.query.as_str()) {
            return Err(KagiError::Config("search query cannot be empty".to_owned()));
        }
        if let Some(region) = &self.region {
            if blank(region.as_str()) {
                return Err(KagiError::Config("search --region cannot be empty".to_owned()));
            }
        }
        Ok(())
    }
}

/// Builds the query parameters of a News-tab search.
pub fn build_news_search_query_params(request: &NewsSearchRequest) -> (p: Vec<
    (&'static str, String),
>)
    ensures
        params_view(p@) == request.query_params(),
{
    let mut params: Vec<(&'static str, String)> = Vec::new();
    params.push(("q", trimmed(request.query.as_str())));
    assert(params_view(params@) =~= seq![("q"@, trim_ws(request.query@))]);
    push_opt_param(&mut params, "r", trimmed_optional(as_opt_str(&request.region)));
    let ghost b1 = params_view(params@);
    if let Some(f) = request.freshness {
        params.push(("freshness", f.as_str().to_owned()));
    }
    assert(params_view(params@) =~= b1 + match request.freshness {
        Some(f) => seq![("freshness"@, f.spec_as_str())],
        None => seq![],
    });
    let ghost b2 = params_view(params@);
    if let Some(o) = request.order {
        params.push(("order", o.as_str().to_owned()));
    }
    assert(params_view(params@) =~= b2 + match request.order {
        Some(o) => seq![("order"@, o.spec_as_str())],
        None => seq![],
    });
    let ghost b3 = params_view(params@);
    if request.dir_desc {
        params.push(("dir", "desc".to_owned()));
    }
    assert(params_view(params@) =~= b3 + if request.dir_desc {
        seq![("dir"@, "desc"@)]
    } else {
        seq![]
    });
    assert(params_view(params@) =~= request.query_params());
    params
}

/// The number of items kept from each cluster when a News-tab search is
/// limited to `limit` items: clusters are taken in order, each keeping as
/// many items as remain allowed.
pub open spec fn kept_counts(counts: Seq<usize>, limit: nat) -> Seq<nat>
    decreases counts.len(),
{
    if counts.len() == 0 {
        seq![]
    } else {
        let k: nat = if (counts[0] as nat) < limit {
            counts[0] as nat
        } else {
            limit
        };
        seq![k] + kept_counts(counts.drop_first(), (limit - k) as nat)
    }
}

/// The sum of a sequence of counts.
pub open spec fn total(s: Seq<nat>) -> nat
    decreases s.len(),
{
    if s.len() == 0 {
        0
    } else {
        s[0] + total(s.drop_first())
    }
}

/// The counts, as natural numbers.
pub open spec fn counts_nat(s: Seq<usize>) -> Seq<nat> {
    s.map_values(|c: usize| c as nat)
}

/// How many items of each cluster a News-tab search keeps under `limit`
/// (clusters that keep none are dropped from the answer).
pub fn news_search_kept_counts(counts: &Vec<usize>, limit: usize) -> (kept: Vec<usize>)
    ensures
        kept@.map_values(|c: usize| c as nat) == kept_counts(counts@, limit as nat),
{
    let mut kept: Vec<usize> = Vec::new();
    let mut remaining: usize = limit;
    let mut i: usize = 0;
    assert(counts@.skip(0) =~= counts@);
    while i < counts.len()
        invariant
            i <= counts.len(),
            remaining <= limit,
            kept@.map_values(|c: usize| c as nat) + kept_counts(
                counts@.skip(i as int),
                remaining as nat,
            ) == kept_counts(counts@, limit as nat),
        decreases counts.len() - i,
    {
        let k = if counts[i] < remaining {
            counts[i]
        } else {
            remaining
        };
        assert(counts@.skip(i as int).drop_first() =~= counts@.skip(i + 1));
        let ghost old_kept = kept@;
        kept.push(k);
        assert(kept@.map_values(|c: usize| c as nat) =~= old_kept.map_values(|c: usize| c as nat)
            + seq![k as nat]);
        remaining = remaining - k;
        i = i + 1;
    }
    assert(counts@.skip(i as int) =~= Seq::<usize>::empty());
    assert(kept@.map_values(|c: usize| c as nat) + kept_counts(counts@.skip(i as int), remaining as nat)
        =~= kept@.map_values(|c: usize| c as nat));
    kept
}

/// The message given when an API-token search asks for session-only features.
pub open spec fn session_requirement_message(lens_set: bool) -> Seq<char> {
    if lens_set {
        "lens search requires KAGI_SESSION_TOKEN; the Kagi Search API only supports plain base search"@
    } else {
        "search filters require KAGI_SESSION_TOKEN; the Kagi Search API only supports plain base search"@
    }
}

/// Why a request cannot be served by the Kagi Search API.
pub fn api_session_requirement_message(request: &SearchRequest) -> (m: String)
    ensures
        m@ == session_requirement_message(request.lens is Some),
{
    if request.lens.is_some() {
        "lens search requires KAGI_SESSION_TOKEN; the Kagi Search API only supports plain base search".to_owned()
    } else {
        "search filters require KAGI_SESSION_TOKEN; the Kagi Search API only supports plain base search".to_owned()
    }
}

/// The markers of Kagi's logged-out landing page.
pub open spec fn logged_out_markers() -> Seq<Seq<char>> {
    seq![
        "<title>Kagi Search - A Premium Search Engine</title>"@,
        "Welcome to Kagi"@,
        "paid search engine that gives power back to the user"@,
    ]
}

/// The body is Kagi's logged-out landing page: it holds every marker.
pub open spec fn is_logged_out_page(body: Seq<char>) -> bool {
    forall|i: int| 0 <= i < 3 ==> #[trigger] contains_seq(body, logged_out_markers()[i])
}

/// Whether a search answer is the logged-out landing page.
pub fn looks_unauthenticated(body: &str) -> (b: bool)
    ensures
        b == is_logged_out_page(body@),
{
    let a = str_contains(body, "<title>Kagi Search - A Premium Search Engine</title>");
    let b = str_contains(body, "Welcome to Kagi");
    let c = str_contains(body, "paid search engine that gives power back to the user");
    assert(is_logged_out_page(body@) == (a && b && c)) by {
        if a && b && c {
            assert forall|i: int| 0 <= i < 3 implies #[trigger] contains_seq(
                body@,
                logged_out_markers()[i],
            ) by {
                if i == 0 {
                } else if i == 1 {
                } else {
                }
            }
        } else {
            if !a {
                assert(!contains_seq(body@, logged_out_markers()[0]));
            } else if !b {
                assert(!contains_seq(body@, logged_out_markers()[1]));
            } else {
                assert(!contains_seq(body@, logged_out_markers()[2]));
            }
        }
    }
    a && b && c
}

/// The first 256 characters of a body (the whole body when shorter).
pub fn debug_body_preview(body: &str) -> (p: &str)
    ensures
        p@ == if body@.len() > 256 {
            body@.subrange(0, 256)
        } else {
            body@
        },
{
    let n = body.unicode_len();
    if n > 256 {
        body.substring_char(0, 256)
    } else {
        body
    }
}

/// The diagnostic suffix of a rejected Search API call: `"; "` followed by
/// the first error message of the JSON error payload when the body has one,
/// else by the trimmed body; nothing for a blank body.
pub open spec fn api_error_suffix(body: Seq<char>, first_error: Option<Seq<char>>) -> Seq<char> {
    if is_blank(body) {
        seq![]
    } else {
        match first_error {
            Some(m) => "; "@ + m,
            None => "; "@ + trim_ws(body),
        }
    }
}

/// Formats the diagnostic suffix of a rejected Search API call.
///
/// `first_error` is the `msg` of the first entry of the `error` list of the
/// trimmed body read as a JSON error payload, when it reads as one.
pub fn format_api_error_suffix(body: &str, first_error: Option<&str>) -> (s: String)
    ensures
        s@ == api_error_suffix(body@, opt_str_view(first_error)),
{
    let t = trimmed(body);
    if t.as_str().is_empty() {
        return String::new();
    }
    match first_error {
        Some(m) => crate::text::concat("; ", m),
        None => crate::text::concat("; ", t.as_str()),
    }
}

proof fn lemma_kept_counts(counts: Seq<usize>, limit: nat)
    ensures
        kept_counts(counts, limit).len() == counts.len(),
        forall|i: int|
            0 <= i < counts.len() ==> #[trigger] kept_counts(counts, limit)[i] <= counts[i] as nat,
        total(kept_counts(counts, limit)) == if limit < total(counts_nat(counts)) {
            limit
        } else {
            total(counts_nat(counts))
        },
    decreases counts.len(),
{
    if counts.len() > 0 {
        let k: nat = if (counts[0] as nat) < limit {
            counts[0] as nat
        } else {
            limit
        };
        lemma_kept_counts(counts.drop_first(), (limit - k) as nat);
        assert(counts_nat(counts).drop_first() =~= counts_nat(counts.drop_first()));
        let rest = kept_counts(counts.drop_first(), (limit - k) as nat);
        assert(kept_counts(counts, limit) == seq![k] + rest);
        assert((seq![k] + rest).drop_first() =~= rest);
        assert forall|i: int| 0 <= i < counts.len() implies #[trigger] kept_counts(counts, limit)[i]
            <= counts[i] as nat by {
            if i > 0 {
                assert(kept_counts(counts, limit)[i] == rest[i - 1]);
                assert(counts.drop_first()[i - 1] == counts[i]);
            }
        }
    } else {
        assert(counts_nat(counts) =~= Seq::<nat>::empty());
    }
}

/// Limiting a News-tab search keeps no more items than the limit and no more
/// than any cluster holds, and keeps exactly `min(limit, all items)` items.
pub proof fn law_news_limit_keeps_min(counts: Seq<usize>, limit: nat)
    ensures
        kept_counts(counts, limit).len() == counts.len(),
        forall|i: int|
            0 <= i < counts.len() ==> #[trigger] kept_counts(counts, limit)[i] <= counts[i] as nat,
        total(kept_counts(counts, limit)) <= limit,
        total(kept_counts(counts, limit)) == if limit < total(counts_nat(counts)) {
            limit
        } else {
            total(counts_nat(counts))
        },
{
    lemma_kept_counts(counts, limit);
}

/// The days of a month follow the Gregorian calendar: January, March, May,
/// July, August, October and December have 31 days; April, June, September
/// and November 30; February 29 in a year divisible by 4 but not by 100, or
/// divisible by 400, else 28; a number outside 1..=12 names no month. So a
/// year has 366 days when February has 29, else 365.
pub proof fn law_gregorian_month_lengths(y: u32, m: u32)
    ensures
        m == 1 || m == 3 || m == 5 || m == 7 || m == 8 || m == 10 || m == 12 ==> month_days(y, m)
            == 31,
        m == 4 || m == 6 || m == 9 || m == 11 ==> month_days(y, m) == 30,
        m == 2 ==> month_days(y, m) == if (y % 4 == 0 && y % 100 != 0) || y % 400 == 0 {
            29u32
        } else {
            28u32
        },
        m < 1 || m > 12 ==> month_days(y, m) == 0,
        month_days(y, 1) + month_days(y, 2) + month_days(y, 3) + month_days(y, 4) + month_days(y, 5)
            + month_days(y, 6) + month_days(y, 7) + month_days(y, 8) + month_days(y, 9)
            + month_days(y, 10) + month_days(y, 11) + month_days(y, 12) == if month_days(y, 2)
            == 29 {
            366int
        } else {
            365int
        },
{
}

/// Prepares a search through the session-authenticated web search: the
/// session token must be given; the result is the query of the search page.
///
/// # Errors
/// An authentication error for a blank token, else the validation error of the request.
pub fn prepare_session_search(request: &SearchRequest, token: &str) -> (r: Result<
    Vec<(&'static str, String)>,
    KagiError,
>)
    ensures
        is_blank(token@) ==> fails_with(
            r,
            ErrorKind::Auth,
            "missing Kagi session token (expected KAGI_SESSION_TOKEN)"@,
        ),
        !is_blank(token@) ==> match request.validation_error() {
            None => r matches Ok(p) && params_view(p@) == request.query_params(),
            Some(m) => fails_with(r, ErrorKind::Config, m),
        },
{
    if blank(token) {
        return Err(
            KagiError::Auth("missing Kagi session token (expected KAGI_SESSION_TOKEN)".to_owned()),
        );
    }
    build_search_query_params(request)
}

/// Checks that a search can go through the Kagi Search API: an API token
/// must be given, the request must be valid, and it must use neither a lens
/// nor a filter, which only the session-authenticated search offers.
///
/// # Errors
/// An authentication error for a blank token, else the validation error of
/// the request, else a configuration error naming what needs a session.
pub fn check_api_search(request: &SearchRequest, token: &str) -> (r: Result<(), KagiError>)
    ensures
        is_blank(token@) ==> fails_with(
            r,
            ErrorKind::Auth,
            "missing Kagi API token (expected KAGI_API_TOKEN)"@,
        ),
        !is_blank(token@) ==> match request.validation_error() {
            Some(m) => fails_with(r, ErrorKind::Config, m),
            None => if request.lens is Some || request.spec_has_runtime_filters() {
                fails_with(r, ErrorKind::Config, session_requirement_message(request.lens is Some))
            } else {
                r is Ok
            },
        },
{
    if blank(token) {
        return Err(KagiError::Auth("missing Kagi API token (expected KAGI_API_TOKEN)".to_owned()));
    }
    request.validate()?;
    if request.requires_session_auth() {
        return Err(KagiError::Config(api_session_requirement_message(request)));
    }
    Ok(())
}

/// Prepares a News-tab search: the session token must be given and the
/// request valid; the result is the query of the search page.
///
/// # Errors
/// An authentication error for a blank token, else the validation error of the request.
pub fn prepare_news_search(request: &NewsSearchRequest, token: &str) -> (r: Result<
    Vec<(&'static str, String)>,
    KagiError,
>)
    ensures
        is_blank(token@) ==> fails_with(
            r,
            ErrorKind::Auth,
            "missing Kagi session token (expected KAGI_SESSION_TOKEN)"@,
        ),
        !is_blank(token@) ==> match request.validation_error() {
            None => r matches Ok(p) && params_view(p@) == request.query_params(),
            Some(m) => fails_with(r, ErrorKind::Config, m),
        },
{
    if blank(token) {
        return Err(
            KagiError::Auth("missing Kagi session token (expected KAGI_SESSION_TOKEN)".to_owned()),
        );
    }
    request.validate()?;
    Ok(build_news_search_query_params(request))
}

} // verus!
