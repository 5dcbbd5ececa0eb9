//! Text shown in the sidebar lists: truncated titles, file sizes, post-type
//! icons, month names and empty-list messages.

use vstd::prelude::*;
use crate::state::navigation::SidebarView;
use crate::text::{
    char_count, copy_str, decimal, digit_char, from_chars, push_chars, push_str, signed_decimal,
    str_eq, string_push, take_chars, take_seq, to_chars, to_lowercase, u64_to_decimal, unicode_lowercase,
};

verus! {

/// Longest media title shown in full.
pub const MEDIA_TITLE_MAX_LEN: usize = 60;

/// Fewest characters a fitted title keeps.
pub const MIN_FIT_CHARS: usize = 6;

/// `s` cut to `n` characters and followed by `suffix` when it has more than
/// `limit` characters; otherwise `s` itself.
pub open spec fn truncated(s: Seq<char>, limit: int, n: int, suffix: Seq<char>) -> Seq<char> {
    if s.len() > limit {
        take_seq(s, n) + suffix
    } else {
        s
    }
}

/// `s` cut to `n` characters and followed by `suffix` when it has more than
/// `limit` characters; otherwise a copy of `s`.
pub fn truncate_with(s: &str, limit: usize, n: usize, suffix: &str) -> (res: String)
    ensures
        res@ == truncated(s@, limit as int, n as int, suffix@),
{
    let chars = to_chars(s);
    if chars.len() > limit {
        let kept = take_chars(chars.as_slice(), n);
        let mut res = from_chars(kept.as_slice());
        push_str(&mut res, suffix);
        res
    } else {
        copy_str(s)
    }
}

/// A media title cut to 60 characters followed by `...` when longer.
pub fn truncate_media_title(title: &str) -> (res: String)
    ensures
        res@ == truncated(title@, 60, 60, "..."@),
{
    truncate_with(title, MEDIA_TITLE_MAX_LEN, MEDIA_TITLE_MAX_LEN, "...")
}

/// The number of characters a title may keep when about `max_chars` fit:
/// never fewer than 6.
pub open spec fn fit_chars(max_chars: int) -> int {
    if max_chars < 6 { 6 } else { max_chars }
}

/// A title cut to fit `max_chars` characters (at least 6), ending in `…`
/// when cut.
pub fn truncate_to_fit_chars(s: &str, max_chars: usize) -> (res: String)
    ensures
        res@ == truncated(s@, fit_chars(max_chars as int), fit_chars(max_chars as int) - 1, "\u{2026}"@),
{
    let max = if max_chars < MIN_FIT_CHARS { MIN_FIT_CHARS } else { max_chars };
    truncate_with(s, max, max - 1, "\u{2026}")
}

/// `n * 10 / d` rounded to the nearest integer, ties to even.
pub open spec fn tenths_half_even(n: nat, d: nat) -> nat {
    let q = (n * 10) / d;
    let r = (n * 10) % d;
    if 2 * r > d || (2 * r == d && q % 2 == 1) { q + 1 } else { q }
}

/// A one-decimal rendering of `t / 10` for a count of tenths `t`.
pub open spec fn one_decimal(t: nat) -> Seq<char> {
    decimal(t / 10) + seq!['.', digit_char(t % 10)]
}

/// A file size in bytes as text: bytes below 1 KiB, else kilobytes below
/// 1 MiB, else megabytes, with one decimal rounded half to even.
pub open spec fn file_size_text(size: int) -> Seq<char> {
    if size < 1024 {
        signed_decimal(size) + " B"@
    } else if size < 1024 * 1024 {
        one_decimal(tenths_half_even(size as nat, 1024)) + " KB"@
    } else {
        one_decimal(tenths_half_even(size as nat, 1024 * 1024)) + " MB"@
    }
}

/// `n * 10 / d` rounded half to even.
fn round_tenths(n: u64, d: u64) -> (t: u64)
    requires
        d >= 1024,
        n <= i64::MAX,
    ensures
        t as nat == tenths_half_even(n as nat, d as nat),
{
    let n10: u128 = (n as u128) * 10;
    let q: u128 = n10 / (d as u128);
    let r: u128 = n10 % (d as u128);
    assert(q * 1024 <= n10) by (nonlinear_arith)
        requires
            q == n10 / (d as u128),
            d >= 1024,
    ;
    assert(2 * r < 2 * (d as u128));
    let t: u128 = if 2 * r > d as u128 || (2 * r == d as u128 && q % 2 == 1) { q + 1 } else { q };
    assert(t <= 0xffff_ffff_ffff_ffffu128);
    t as u64
}

/// Appends `t / 10` with one decimal.
fn push_one_decimal(s: &mut String, t: u64)
    ensures
        final(s)@ == old(s)@ + one_decimal(t as nat),
{
    let whole = u64_to_decimal(t / 10);
    push_str(s, whole.as_str());
    string_push(s, '.');
    let d: u64 = t % 10;
    let c: char = (d as u8 + 48) as char;
    assert(c == digit_char(d as nat));
    string_push(s, c);
    assert(old(s)@ + whole@ + seq!['.'] + seq![c] =~= old(s)@ + one_decimal(t as nat));
}

/// A file size in bytes as text (B / KB / MB).
pub fn format_file_size(size: i64) -> (res: String)
    ensures
        res@ == file_size_text(size as int),
{
    let mut res = String::new();
    if size < 1024 {
        if size < 0 {
            string_push(&mut res, '-');
            let magnitude: u64 = if size == i64::MIN { 9223372036854775808u64 } else { (-size) as u64 };
            let digits = u64_to_decimal(magnitude);
            push_str(&mut res, digits.as_str());
        } else {
            let digits = u64_to_decimal(size as u64);
            push_str(&mut res, digits.as_str());
        }
        push_str(&mut res, " B");
    } else if size < 1024 * 1024 {
        let t = round_tenths(size as u64, 1024);
        push_one_decimal(&mut res, t);
        push_str(&mut res, " KB");
    } else {
        let t = round_tenths(size as u64, 1024 * 1024);
        push_one_decimal(&mut res, t);
        push_str(&mut res, " MB");
    }
    res
}

/// The icon of a post-type category, if it has one.
pub open spec fn category_icon(lower: Seq<char>) -> Option<&'static str> {
    if lower == "picture"@ {
        Some("\u{1F4F7}")
    } else if lower == "article"@ {
        Some("\u{1F5D2}")
    } else if lower == "aside"@ || lower == "blogmark"@ {
        Some("\u{1F517}")
    } else if lower == "video"@ {
        Some("\u{1F3AC}")
    } else if lower == "podcast"@ {
        Some("\u{1F4AC}")
    } else {
        None
    }
}

/// The icon of the first category (lowercased) that has one, else a
/// document icon.
pub open spec fn post_type_icon_from(categories: Seq<String>, i: int) -> &'static str
    decreases categories.len() - i,
{
    if i < 0 || i >= categories.len() {
        "\u{1F4C4}"
    } else {
        match category_icon(unicode_lowercase(categories[i]@)) {
            Some(icon) => icon,
            None => post_type_icon_from(categories, i + 1),
        }
    }
}

/// The icon of a post-type category, if it has one.
fn category_icon_exec(lower: &str) -> (res: Option<&'static str>)
    ensures
        res == category_icon(lower@),
{
    if str_eq(lower, "picture") {
        Some("\u{1F4F7}")
    } else if str_eq(lower, "article") {
        Some("\u{1F5D2}")
    } else if str_eq(lower, "aside") || str_eq(lower, "blogmark") {
        Some("\u{1F517}")
    } else if str_eq(lower, "video") {
        Some("\u{1F3AC}")
    } else if str_eq(lower, "podcast") {
        Some("\u{1F4AC}")
    } else {
        None
    }
}

/// The icon shown for a post: that of its first categorised post type.
pub fn post_type_icon(categories: &[String]) -> (res: &'static str)
    ensures
        res == post_type_icon_from(categories@, 0),
{
    let mut i: usize = 0;
    while i < categories.len()
        invariant
            i <= categories@.len(),
            post_type_icon_from(categories@, 0) == post_type_icon_from(categories@, i as int),
        decreases categories@.len() - i,
    {
        let lower = to_lowercase(categories[i].as_str());
        match category_icon_exec(lower.as_str()) {
            Some(icon) => return icon,
            None => {},
        }
        i = i + 1;
    }
    "\u{1F4C4}"
}

/// The English abbreviation of month `1..=12`; `???` otherwise.
pub open spec fn month_abbr_spec(month: u32) -> &'static str {
    if month == 1 { "Jan" } else if month == 2 { "Feb" } else if month == 3 { "Mar" }
    else if month == 4 { "Apr" } else if month == 5 { "May" } else if month == 6 { "Jun" }
    else if month == 7 { "Jul" } else if month == 8 { "Aug" } else if month == 9 { "Sep" }
    else if month == 10 { "Oct" } else if month == 11 { "Nov" } else if month == 12 { "Dec" }
    else { "???" }
}

/// Month name abbreviation for the calendar.
pub fn month_abbr(month: u32) -> (res: &'static str)
    ensures
        res == month_abbr_spec(month),
{
    if month == 1 { "Jan" } else if month == 2 { "Feb" } else if month == 3 { "Mar" }
    else if month == 4 { "Apr" } else if month == 5 { "May" } else if month == 6 { "Jun" }
    else if month == 7 { "Jul" } else if month == 8 { "Aug" } else if month == 9 { "Sep" }
    else if month == 10 { "Oct" } else if month == 11 { "Nov" } else if month == 12 { "Dec" }
    else { "???" }
}

/// The calendar date (year, month, day) in UTC of a Unix time in seconds,
/// as `chrono::DateTime::from_timestamp` gives it; none outside chrono's
/// range.
pub uninterp spec fn utc_date_of(secs: i64) -> Option<(i32, u32, u32)>;

/// `chrono::DateTime::from_timestamp(secs, 0)` taken apart into year,
/// month and day (`chrono::Datelike`). The date is named by `utc_date_of`;
/// chrono documents the Unix epoch as 1 January 1970, months as `1..=12`
/// and days as `1..=31`.
#[verifier::external_body]
fn utc_date(secs: i64) -> (res: Option<(i32, u32, u32)>)
    ensures
        res == utc_date_of(secs),
        secs == 0 ==> res == Some((1970i32, 1u32, 1u32)),
        res matches Some((y, m, d)) ==> 1 <= m <= 12 && 1 <= d <= 31,
{
    match chrono::DateTime::from_timestamp(secs, 0) {
        Some(dt) => Some((chrono::Datelike::year(&dt), chrono::Datelike::month(&dt), chrono::Datelike::day(&dt))),
        None => None,
    }
}

/// `n` with at least `width` digits, zero-padded on the left.
pub open spec fn zero_padded(n: nat, width: nat) -> Seq<char>
    decreases width,
{
    if decimal(n).len() >= width || width == 0 {
        decimal(n)
    } else {
        seq!['0'] + zero_padded(n, (width - 1) as nat)
    }
}

/// A year as `chrono` writes `%Y`: four digits, zero-padded, with a sign
/// before years outside `0..=9999`.
pub open spec fn year_text(y: int) -> Seq<char> {
    if 0 <= y <= 9999 {
        zero_padded(y as nat, 4)
    } else if y > 9999 {
        seq!['+'] + zero_padded(y as nat, 4)
    } else {
        seq!['-'] + zero_padded((-y) as nat, 4)
    }
}

/// A date as `%b %d, %Y`: English month abbreviation, two-digit day, year.
pub open spec fn date_text(y: int, m: u32, d: nat) -> Seq<char> {
    month_abbr_spec(m)@ + " "@ + zero_padded(d, 2) + ", "@ + year_text(y)
}

/// `a / b` rounded toward zero, as Rust divides integers.
pub open spec fn div_toward_zero(a: int, b: int) -> int {
    if a >= 0 { a / b } else { -((-a) / b) }
}

/// The date shown for a post: its Unix time in milliseconds as a UTC date
/// `Feb 10, 2026`; times outside chrono's range show the Unix epoch.
pub open spec fn post_date_spec(unix_ms: i64) -> Seq<char> {
    let secs = div_toward_zero(unix_ms as int, 1000);
    match utc_date_of(secs as i64) {
        Some((y, m, d)) => date_text(y as int, m, d as nat),
        None => date_text(1970, 1, 1),
    }
}

/// Appends `n` zero-padded to `width` digits.
fn push_zero_padded(s: &mut String, n: u64, width: u64)
    requires
        width <= 4,
    ensures
        final(s)@ == old(s)@ + zero_padded(n as nat, width as nat),
    decreases width,
{
    let digits = u64_to_decimal(n);
    let len = char_count(digits.as_str()) as u64;
    if len >= width || width == 0 {
        push_str(s, digits.as_str());
    } else {
        string_push(s, '0');
        let ghost mid = s@;
        push_zero_padded(s, n, width - 1);
        assert(s@ =~= old(s)@ + zero_padded(n as nat, width as nat));
    }
}

/// Appends a year as `%Y` writes it.
fn push_year(s: &mut String, y: i32)
    ensures
        final(s)@ == old(s)@ + year_text(y as int),
{
    if 0 <= y && y <= 9999 {
        push_zero_padded(s, y as u64, 4);
    } else if y > 9999 {
        string_push(s, '+');
        push_zero_padded(s, y as u64, 4);
        assert(s@ =~= old(s)@ + year_text(y as int));
    } else {
        string_push(s, '-');
        let a: i64 = -(y as i64);
        push_zero_padded(s, a as u64, 4);
        assert(s@ =~= old(s)@ + year_text(y as int));
    }
}

/// A post's date as shown in the sidebar: `Feb 10, 2026` in UTC.
pub fn format_post_date(unix_ms: i64) -> (res: String)
    ensures
        res@ == post_date_spec(unix_ms),
{
    let secs: i64 = if unix_ms >= 0 { unix_ms / 1000 } else { -((-(unix_ms as i128) / 1000) as i64) };
    assert(secs as int == div_toward_zero(unix_ms as int, 1000));
    let (y, m, d) = match utc_date(secs) {
        Some(date) => date,
        None => match utc_date(0) {
            Some(epoch) => epoch,
            None => (1970, 1, 1),
        },
    };
    let mut s = copy_str(month_abbr(m));
    push_str(&mut s, " ");
    push_zero_padded(&mut s, d as u64, 2);
    push_str(&mut s, ", ");
    push_year(&mut s, y);
    assert(s@ =~= date_text(y as int, m, d as nat));
    s
}

/// The empty-state message key of each sidebar view.
pub open spec fn placeholder_key_spec(view: SidebarView) -> &'static str {
    match view {
        SidebarView::Posts => "sidebar.noPostsYet",
        SidebarView::Pages => "sidebar.noPagesYet",
        SidebarView::Media => "sidebar.noMediaYet",
        SidebarView::Scripts => "sidebar.noScriptsYet",
        SidebarView::Templates => "sidebar.noTemplatesYet",
        SidebarView::Tags => "sidebar.tagsHeader",
        SidebarView::Chat => "sidebar.chatPlaceholder",
        SidebarView::Import => "sidebar.importPlaceholder",
        SidebarView::Git => "sidebar.gitPlaceholder",
        SidebarView::Settings => "sidebar.settingsHeader",
    }
}

/// The empty-state message key of a sidebar view.
pub fn placeholder_key(view: SidebarView) -> (res: &'static str)
    ensures
        res == placeholder_key_spec(view),
{
    match view {
        SidebarView::Posts => "sidebar.noPostsYet",
        SidebarView::Pages => "sidebar.noPagesYet",
        SidebarView::Media => "sidebar.noMediaYet",
        SidebarView::Scripts => "sidebar.noScriptsYet",
        SidebarView::Templates => "sidebar.noTemplatesYet",
        SidebarView::Tags => "sidebar.tagsHeader",
        SidebarView::Chat => "sidebar.chatPlaceholder",
        SidebarView::Import => "sidebar.importPlaceholder",
        SidebarView::Git => "sidebar.gitPlaceholder",
        SidebarView::Settings => "sidebar.settingsHeader",
    }
}

} // verus!
