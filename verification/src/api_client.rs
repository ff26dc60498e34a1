//! Logic of the Immich client: timestamps, MIME types, URL handling,
//! connection selection, upload replies and the album cache.

use vstd::prelude::*;
use crate::text::{
    decimal, zero_pad, push_char, push_padded, same_text, strip_trailing_slashes,
    trim_trailing_slashes, to_lowercase, lowercase, path_extension, path_extension_of,
    path_file_name, path_file_name_of, opt_view,
};
use crate::keyed::KeyedList;
use crate::config::ConfigData;

verus! {

// ---------------------------------------------------------------------------
// Calendar
// ---------------------------------------------------------------------------

/// Gregorian leap-year rule.
pub open spec fn is_leap(y: int) -> bool {
    (y % 4 == 0 && y % 100 != 0) || y % 400 == 0
}

/// Number of days in year `y`.
pub open spec fn year_len(y: int) -> nat {
    if is_leap(y) { 366 } else { 365 }
}

/// Number of days in month `m` (1-based) of a leap or common year.
pub open spec fn month_len(leap: bool, m: int) -> nat {
    if m == 2 {
        if leap { 29 } else { 28 }
    } else if m == 4 || m == 6 || m == 9 || m == 11 {
        30
    } else {
        31
    }
}

/// Starting in year `y` with `d` days left, skip whole years:
/// the year reached and the days left over inside it.
pub open spec fn walk_years(y: int, d: nat) -> (int, nat)
    decreases d,
{
    if d < year_len(y) {
        (y, d)
    } else {
        walk_years(y + 1, (d - year_len(y)) as nat)
    }
}

/// Starting at month `m` with `d` days left, skip whole months up to December:
/// the month reached and the days left over inside it.
pub open spec fn walk_months(leap: bool, m: int, d: nat) -> (int, nat)
    decreases 13 - m,
{
    if m > 12 || d < month_len(leap, m) {
        (m, d)
    } else {
        walk_months(leap, m + 1, (d - month_len(leap, m)) as nat)
    }
}

/// Days from 1970-01-01 to the first day of year `y` (for `y >= 1970`).
pub open spec fn days_before_year(y: int) -> nat
    decreases y - 1970,
{
    if y <= 1970 { 0 } else { days_before_year(y - 1) + year_len(y - 1) }
}

/// Days from the first of January to the first day of month `m`.
pub open spec fn days_before_month(leap: bool, m: int) -> nat
    decreases m,
{
    if m <= 1 { 0 } else { days_before_month(leap, m - 1) + month_len(leap, m - 1) }
}

/// The calendar year of the UTC instant `secs` seconds after the epoch.
pub open spec fn civil_year(secs: nat) -> int {
    walk_years(1970, secs / 86400).0
}

/// The month (1..=12) of the UTC instant `secs`.
pub open spec fn civil_month(secs: nat) -> int {
    let (y, d) = walk_years(1970, secs / 86400);
    walk_months(is_leap(y), 1, d).0
}

/// The day of the month (1-based) of the UTC instant `secs`.
pub open spec fn civil_day(secs: nat) -> int {
    let (y, d) = walk_years(1970, secs / 86400);
    walk_months(is_leap(y), 1, d).1 + 1int
}

/// The hour (0..24) of the UTC instant `secs`.
pub open spec fn civil_hour(secs: nat) -> nat {
    (secs % 86400) / 3600
}

/// The minute (0..60) of the UTC instant `secs`.
pub open spec fn civil_minute(secs: nat) -> nat {
    ((secs % 86400) % 3600) / 60
}

/// The second (0..60) of the UTC instant `secs`.
pub open spec fn civil_second(secs: nat) -> nat {
    (secs % 86400) % 60
}

/// `YYYY-MM-DDTHH:MM:SS.000Z` for the UTC instant `secs` seconds after the epoch.
pub open spec fn iso8601(secs: nat) -> Seq<char> {
    zero_pad(decimal(civil_year(secs) as nat), 4) + seq!['-']
        + zero_pad(decimal(civil_month(secs) as nat), 2) + seq!['-']
        + zero_pad(decimal(civil_day(secs) as nat), 2) + seq!['T']
        + zero_pad(decimal(civil_hour(secs)), 2) + seq![':']
        + zero_pad(decimal(civil_minute(secs)), 2) + seq![':']
        + zero_pad(decimal(civil_second(secs)), 2) + seq!['.', '0', '0', '0', 'Z']
}

proof fn lemma_walk_years(y: int, d: nat)
    requires
        y >= 1970,
    ensures
        walk_years(y, d).0 >= y,
        walk_years(y, d).1 < year_len(walk_years(y, d).0),
        days_before_year(walk_years(y, d).0) + walk_years(y, d).1 == days_before_year(y) + d,
    decreases d,
{
    if d >= year_len(y) {
        lemma_walk_years(y + 1, (d - year_len(y)) as nat);
    }
}

proof fn lemma_walk_months(leap: bool, m: int, d: nat)
    requires
        1 <= m <= 12,
        days_before_month(leap, m) + d < (if leap { 366nat } else { 365nat }),
    ensures
        1 <= walk_months(leap, m, d).0 <= 12,
        walk_months(leap, m, d).1 < month_len(leap, walk_months(leap, m, d).0),
        days_before_month(leap, walk_months(leap, m, d).0) + walk_months(leap, m, d).1
            == days_before_month(leap, m) + d,
    decreases 13 - m,
{
    reveal_with_fuel(days_before_month, 13);
    if d >= month_len(leap, m) {
        lemma_walk_months(leap, m + 1, (d - month_len(leap, m)) as nat);
    }
}

/// Decoding a timestamp into calendar fields loses nothing: the fields form a
/// valid date and time, and counting the days and seconds they denote from
/// the epoch gives back the timestamp.
pub proof fn lemma_civil_fields_round_trip(secs: nat)
    ensures
        civil_year(secs) >= 1970,
        1 <= civil_month(secs) <= 12,
        1 <= civil_day(secs) <= month_len(is_leap(civil_year(secs)), civil_month(secs)),
        civil_hour(secs) < 24,
        civil_minute(secs) < 60,
        civil_second(secs) < 60,
        (days_before_year(civil_year(secs))
            + days_before_month(is_leap(civil_year(secs)), civil_month(secs))
            + (civil_day(secs) - 1)) * 86400
            + civil_hour(secs) * 3600 + civil_minute(secs) * 60 + civil_second(secs) == secs,
{
    let (y, d) = walk_years(1970, secs / 86400);
    lemma_walk_years(1970, secs / 86400);
    let leap = is_leap(y);
    lemma_walk_months(leap, 1, d);
    let tod = secs % 86400;
    assert(tod < 86400);
    assert(tod / 3600 * 3600 + (tod % 3600) / 60 * 60 + tod % 60 == tod
        && tod / 3600 < 24) by (nonlinear_arith)
        requires tod < 86400;
    assert((secs / 86400) * 86400 + secs % 86400 == secs) by (nonlinear_arith);
}

/// Day of the year (counted from 0) on which month `m` begins in the
/// Gregorian calendar; `m == 13` gives the length of the year. January has
/// 31 days, February 28 (29 in a leap year), March 31, April 30, May 31,
/// June 30, July 31, August 31, September 30, October 31, November 30.
pub open spec fn gregorian_month_start(leap: bool, m: int) -> int {
    let common = if m <= 1 { 0int }
        else if m == 2 { 31int }
        else if m == 3 { 59int }
        else if m == 4 { 90int }
        else if m == 5 { 120int }
        else if m == 6 { 151int }
        else if m == 7 { 181int }
        else if m == 8 { 212int }
        else if m == 9 { 243int }
        else if m == 10 { 273int }
        else if m == 11 { 304int }
        else if m == 12 { 334int }
        else { 365int };
    if leap && m >= 3 { common + 1 } else { common }
}

proof fn lemma_month_starts(leap: bool, m: int)
    requires
        1 <= m <= 12,
    ensures
        days_before_month(leap, m) == gregorian_month_start(leap, m),
        days_before_month(leap, m) + month_len(leap, m) == gregorian_month_start(leap, m + 1),
{
    reveal_with_fuel(days_before_month, 13);
}

/// Leap years from 1970 up to (not including) `y`, by the Gregorian rule:
/// every fourth year, except centuries not divisible by 400.
pub open spec fn leap_years_before(y: int) -> int {
    ((y - 1) / 4 - (y - 1) / 100 + (y - 1) / 400) - 477
}

proof fn lemma_div_step(y: int, k: int)
    requires
        y >= 1,
        k > 0,
    ensures
        y / k - (y - 1) / k == if y % k == 0 { 1int } else { 0int },
{
    assert(y == k * (y / k) + y % k) by (nonlinear_arith) requires k > 0;
    assert((y - 1) == k * ((y - 1) / k) + (y - 1) % k) by (nonlinear_arith) requires k > 0;
    assert(0 <= y % k < k && 0 <= (y - 1) % k < k);
    if y % k == 0 {
        assert((y - 1) % k == k - 1 && (y - 1) / k == y / k - 1) by (nonlinear_arith)
            requires y == k * (y / k) + y % k, (y - 1) == k * ((y - 1) / k) + (y - 1) % k,
                0 <= (y - 1) % k < k, y % k == 0, k > 0;
    } else {
        assert((y - 1) / k == y / k) by (nonlinear_arith)
            requires y == k * (y / k) + y % k, (y - 1) == k * ((y - 1) / k) + (y - 1) % k,
                0 <= (y - 1) % k < k, 0 < y % k < k, k > 0;
    }
}

/// Years are counted in the Gregorian calendar: from 1970 to the start of
/// year `y` there are 365 days per year plus one for each leap year, a leap
/// year being divisible by 4 and, for centuries, by 400.
pub proof fn lemma_gregorian_years(y: int)
    requires
        y >= 1970,
    ensures
        days_before_year(y) == 365 * (y - 1970) + leap_years_before(y),
    decreases y - 1970,
{
    if y > 1970 {
        lemma_gregorian_years(y - 1);
        lemma_div_step(y - 1, 4);
        lemma_div_step(y - 1, 100);
        lemma_div_step(y - 1, 400);
        assert(is_leap(y - 1) == ((y - 1) % 4 == 0 && ((y - 1) % 100 != 0 || (y - 1) % 400 == 0)));
        assert((y - 1) % 400 == 0 ==> (y - 1) % 100 == 0 && (y - 1) % 4 == 0) by (nonlinear_arith);
        assert((y - 1) % 100 == 0 ==> (y - 1) % 4 == 0) by (nonlinear_arith);
    } else {
        assert(leap_years_before(1970) == 0);
    }
}

/// Months and days are counted in the Gregorian calendar: the day of the year
/// of a timestamp falls in the rendered month, on the rendered day, with the
/// Gregorian month lengths.
pub proof fn lemma_gregorian_months(secs: nat)
    ensures
        ({
            let y = civil_year(secs);
            let leap = is_leap(y);
            let m = civil_month(secs);
            let day_of_year = secs / 86400 - days_before_year(y);
            &&& 1 <= m <= 12
            &&& gregorian_month_start(leap, m) + civil_day(secs) - 1 == day_of_year
            &&& civil_day(secs) - 1 < gregorian_month_start(leap, m + 1) - gregorian_month_start(leap, m)
        }),
{
    lemma_civil_fields_round_trip(secs);
    let y = civil_year(secs);
    let leap = is_leap(y);
    let m = civil_month(secs);
    lemma_month_starts(leap, m);
    let dd = days_before_year(y) + days_before_month(leap, m) + (civil_day(secs) - 1);
    let rest = civil_hour(secs) * 3600 + civil_minute(secs) * 60 + civil_second(secs);
    assert(rest < 86400);
    assert(dd >= 0);
    assert(dd == secs / 86400) by (nonlinear_arith)
        requires dd * 86400 + rest == secs, 0 <= rest < 86400, dd >= 0;
}

fn leap_year(y: u64) -> (b: bool)
    ensures
        b == is_leap(y as int),
{
    (y % 4 == 0 && y % 100 != 0) || y % 400 == 0
}

fn year_length(y: u64) -> (n: u64)
    ensures
        n == year_len(y as int),
{
    if leap_year(y) { 366 } else { 365 }
}

fn days_in_month(leap: bool, m: u64) -> (n: u64)
    ensures
        n == month_len(leap, m as int),
{
    if m == 2 {
        if leap { 29 } else { 28 }
    } else if m == 4 || m == 6 || m == 9 || m == 11 {
        30
    } else {
        31
    }
}

/// ISO 8601 UTC rendering (`YYYY-MM-DDTHH:MM:SS.000Z`) of unix seconds.
pub fn unix_to_iso8601(secs: u64) -> (res: String)
    ensures
        res@ == iso8601(secs as nat),
{
    let days = secs / 86400;
    let time_of_day = secs % 86400;
    let h = time_of_day / 3600;
    let m = (time_of_day % 3600) / 60;
    let s = time_of_day % 60;

    let mut year: u64 = 1970;
    let mut rem_days: u64 = days;
    while rem_days >= year_length(year)
        invariant
            year - 1970 + rem_days <= days,
            1970 <= year,
            days == secs / 86400,
            walk_years(year as int, rem_days as nat) == walk_years(1970, days as nat),
        decreases rem_days,
    {
        let len: u64 = year_length(year);
        rem_days = rem_days - len;
        year = year + 1;
    }
    let leap = leap_year(year);
    proof {
        lemma_walk_years(1970, days as nat);
        lemma_walk_months(leap, 1, rem_days as nat);
    }
    let mut month: u64 = 1;
    while month <= 12 && rem_days >= days_in_month(leap, month)
        invariant
            1 <= month <= 13,
            leap == is_leap(year as int),
            walk_months(leap, month as int, rem_days as nat)
                == walk_months(leap, 1, walk_years(1970, days as nat).1),
        decreases 13 - month,
    {
        rem_days = rem_days - days_in_month(leap, month);
        month = month + 1;
    }
    assert(walk_years(1970, days as nat) == (year as int, walk_years(1970, days as nat).1));
    let day = rem_days + 1;

    let mut out = String::new();
    push_padded(&mut out, year, 4);
    push_char(&mut out, '-');
    push_padded(&mut out, month, 2);
    push_char(&mut out, '-');
    push_padded(&mut out, day, 2);
    push_char(&mut out, 'T');
    push_padded(&mut out, h, 2);
    push_char(&mut out, ':');
    push_padded(&mut out, m, 2);
    push_char(&mut out, ':');
    push_padded(&mut out, s, 2);
    push_char(&mut out, '.');
    push_char(&mut out, '0');
    push_char(&mut out, '0');
    push_char(&mut out, '0');
    push_char(&mut out, 'Z');
    assert(out@ =~= iso8601(secs as nat));
    out
}

/// The two ISO 8601 stamps (creation, modification) sent with an upload; a
/// time the file system could not report is replaced by `now`.
pub fn file_timestamps_iso(created: Option<u64>, modified: Option<u64>, now: u64) -> (r: (String, String))
    ensures
        r.0@ == iso8601(match created { Some(c) => c as nat, None => now as nat }),
        r.1@ == iso8601(match modified { Some(m) => m as nat, None => now as nat }),
{
    let c = match created { Some(c) => c, None => now };
    let m = match modified { Some(m) => m, None => now };
    (unix_to_iso8601(c), unix_to_iso8601(m))
}

// ---------------------------------------------------------------------------
// MIME types
// ---------------------------------------------------------------------------

/// The MIME type announced for a file with the given lower-cased extension.
pub open spec fn mime_for_ext(ext: Option<Seq<char>>) -> Seq<char> {
    match ext {
        Some(e) => if e == "jpg"@ || e == "jpeg"@ {
            "image/jpeg"@
        } else if e == "png"@ {
            "image/png"@
        } else if e == "mp4"@ {
            "video/mp4"@
        } else if e == "mov"@ {
            "video/quicktime"@
        } else if e == "gif"@ {
            "image/gif"@
        } else if e == "webp"@ {
            "image/webp"@
        } else if e == "heic"@ {
            "image/heic"@
        } else if e == "tiff"@ || e == "tif"@ {
            "image/tiff"@
        } else {
            "application/octet-stream"@
        },
        None => "application/octet-stream"@,
    }
}

/// The MIME type for a file at `path`, judged by its extension regardless of case.
pub open spec fn mime_for(path: Seq<char>) -> Seq<char> {
    match path_extension_of(path) {
        Some(e) => mime_for_ext(Some(lowercase(e))),
        None => mime_for_ext(None),
    }
}

/// The MIME type for a lower-cased extension (or none).
pub fn mime_for_extension(ext: Option<&str>) -> (m: &'static str)
    ensures
        m@ == mime_for_ext(match ext { Some(e) => Some(e@), None => None }),
{
    match ext {
        Some(e) => {
            if same_text(e, "jpg") || same_text(e, "jpeg") {
                "image/jpeg"
            } else if same_text(e, "png") {
                "image/png"
            } else if same_text(e, "mp4") {
                "video/mp4"
            } else if same_text(e, "mov") {
                "video/quicktime"
            } else if same_text(e, "gif") {
                "image/gif"
            } else if same_text(e, "webp") {
                "image/webp"
            } else if same_text(e, "heic") {
                "image/heic"
            } else if same_text(e, "tiff") || same_text(e, "tif") {
                "image/tiff"
            } else {
                "application/octet-stream"
            }
        },
        None => "application/octet-stream",
    }
}

/// The MIME type announced when uploading the file at `path`.
pub fn mime_for_path(path: &str) -> (m: &'static str)
    ensures
        m@ == mime_for(path@),
{
    match path_extension(path) {
        Some(e) => {
            let lower = to_lowercase(e.as_str());
            mime_for_extension(Some(lower.as_str()))
        },
        None => mime_for_extension(None),
    }
}

// ---------------------------------------------------------------------------
// Server addresses and connectivity
// ---------------------------------------------------------------------------

/// The server addresses and key the client works with. URLs are stored
/// without trailing slashes.
pub struct ServerSettings {
    pub internal_url: String,
    pub external_url: String,
    pub api_key: String,
}

impl ServerSettings {
    /// Settings from user input: trailing slashes are dropped from both URLs.
    pub fn new(internal_url: String, external_url: String, api_key: String) -> (s: ServerSettings)
        ensures
            s.internal_url@ == trim_trailing_slashes(internal_url@),
            s.external_url@ == trim_trailing_slashes(external_url@),
            s.api_key@ == api_key@,
    {
        ServerSettings {
            internal_url: strip_trailing_slashes(internal_url.as_str()),
            external_url: strip_trailing_slashes(external_url.as_str()),
            api_key,
        }
    }

    /// The settings the daemon works with: an address whose toggle is off is
    /// left empty, so it is never probed nor used; an enabled one loses its
    /// trailing slashes.
    pub fn from_config(data: &ConfigData, api_key: String) -> (s: ServerSettings)
        ensures
            s.internal_url@ == enabled_address(data.internal_url_enabled, data.internal_url@),
            s.external_url@ == enabled_address(data.external_url_enabled, data.external_url@),
            s.api_key@ == api_key@,
    {
        let internal = if data.internal_url_enabled { data.internal_url.clone() } else { String::new() };
        let external = if data.external_url_enabled { data.external_url.clone() } else { String::new() };
        ServerSettings::new(internal, external, api_key)
    }

    /// The next connection probe step (see [`probe_step_of`]): the first
    /// component says whether to ping, the second which address is pinged or
    /// becomes active.
    pub fn probe_step(&self, internal: Option<bool>, external: Option<bool>) -> (p: ProbeStep)
        ensures
            match p {
                ProbeStep::Ping(u) => probe_step_of(self.internal_url@, self.external_url@, internal, external)
                    == (true, Some(u@)),
                ProbeStep::Settled(a) => probe_step_of(self.internal_url@, self.external_url@, internal, external)
                    == (false, opt_view(a)),
            },
    {
        match internal {
            None => ProbeStep::Ping(self.internal_url.clone()),
            Some(true) => ProbeStep::Settled(Some(self.internal_url.clone())),
            Some(false) => match external {
                None => ProbeStep::Ping(self.external_url.clone()),
                Some(true) => ProbeStep::Settled(Some(self.external_url.clone())),
                Some(false) => ProbeStep::Settled(None),
            },
        }
    }

    /// The address to use after probing: the LAN address when it answered,
    /// else the WAN address when it answered, else none. `external_ok` is only
    /// consulted when the LAN address failed.
    pub fn select_active_url(&self, internal_ok: bool, external_ok: bool) -> (r: Option<String>)
        ensures
            opt_view(r) == if internal_ok {
                Some(self.internal_url@)
            } else if external_ok {
                Some(self.external_url@)
            } else {
                None::<Seq<char>>
            },
    {
        if internal_ok {
            Some(self.internal_url.clone())
        } else if external_ok {
            Some(self.external_url.clone())
        } else {
            None
        }
    }
}

/// The address kept for a URL: none (empty) when its toggle is off, else the
/// URL without trailing slashes.
pub open spec fn enabled_address(enabled: bool, url: Seq<char>) -> Seq<char> {
    if enabled { trim_trailing_slashes(url) } else { Seq::empty() }
}

/// A disabled address is never probed (it has no ping endpoint), so it is
/// never chosen: with the LAN toggle off only the WAN address can become
/// active.
pub proof fn lemma_disabled_address_never_probed(url: Seq<char>)
    ensures
        ping_endpoint_of(enabled_address(false, url)) is None,
{
}

/// What the connection probe does next.
pub enum ProbeStep {
    /// Ping this address.
    Ping(String),
    /// Probing is over; this address (if any) becomes the active one.
    Settled(Option<String>),
}

/// The next probe step given the LAN and WAN ping results so far: the LAN
/// address is pinged first; the WAN address only after the LAN one failed.
pub open spec fn probe_step_of(lan: Seq<char>, wan: Seq<char>, internal: Option<bool>, external: Option<bool>) -> (bool, Option<Seq<char>>) {
    match internal {
        None => (true, Some(lan)),
        Some(true) => (false, Some(lan)),
        Some(false) => match external {
            None => (true, Some(wan)),
            Some(true) => (false, Some(wan)),
            Some(false) => (false, None),
        },
    }
}

/// The ping endpoint of a server address: none for an empty address.
pub open spec fn ping_endpoint_of(url: Seq<char>) -> Option<Seq<char>> {
    if url.len() == 0 {
        None
    } else {
        Some(trim_trailing_slashes(url) + "/api/server/ping"@)
    }
}

/// The URL probed to test a server address (none for an empty address).
pub fn ping_endpoint(url: &str) -> (r: Option<String>)
    ensures
        opt_view(r) == ping_endpoint_of(url@),
{
    if url.unicode_len() == 0 {
        None
    } else {
        let mut e = strip_trailing_slashes(url);
        e.append("/api/server/ping");
        Some(e)
    }
}

/// Whether a ping answer identifies an Immich server: status 200 and a `res`
/// field that reads "pong" in any case.
pub open spec fn is_pong(status: u16, res_field: Option<Seq<char>>) -> bool {
    status == 200 && match res_field {
        Some(r) => lowercase(r) == "pong"@,
        None => false,
    }
}

/// Judges a ping answer (see [`is_pong`]); `res_field` is the string value of
/// the `res` member of the JSON body, if the body parsed and had one.
pub fn ping_succeeded(status: u16, res_field: Option<String>) -> (b: bool)
    ensures
        b == is_pong(status, opt_view(res_field)),
{
    if status != 200 {
        return false;
    }
    match res_field {
        Some(r) => {
            let l = to_lowercase(r.as_str());
            same_text(l.as_str(), "pong")
        },
        None => false,
    }
}

// ---------------------------------------------------------------------------
// Uploads
// ---------------------------------------------------------------------------

/// The form fields of an asset upload, apart from the file contents and the
/// creation and modification stamps.
pub struct UploadRequest {
    pub url: String,
    pub filename: String,
    pub device_asset_id: String,
    pub device_id: String,
    pub mime: &'static str,
}

/// The file name announced for an upload: the last component of the path, or
/// "upload" when it has none.
pub open spec fn upload_filename(path: Seq<char>) -> Seq<char> {
    match path_file_name_of(path) {
        Some(n) => n,
        None => "upload"@,
    }
}

/// Builds the upload of the file at `file_path` with checksum `checksum` to
/// the server at `base_url`.
pub fn build_upload_request(base_url: &str, file_path: &str, checksum: &str) -> (r: UploadRequest)
    ensures
        r.url@ == base_url@ + "/api/assets"@,
        r.filename@ == upload_filename(file_path@),
        r.device_asset_id@ == "mimick-rust-"@ + checksum@,
        r.device_id@ == "mimick-rust-client"@,
        r.mime@ == mime_for(file_path@),
{
    let mut url = String::from_str(base_url);
    url.append("/api/assets");
    let filename = match path_file_name(file_path) {
        Some(n) => n,
        None => String::from_str("upload"),
    };
    let mut device_asset_id = String::from_str("mimick-rust-");
    device_asset_id.append(checksum);
    UploadRequest {
        url,
        filename,
        device_asset_id,
        device_id: String::from_str("mimick-rust-client"),
        mime: mime_for_path(file_path),
    }
}

/// What came back from an upload request.
pub enum UploadReply {
    /// The request did not reach the server.
    NetworkError,
    /// The server answered with this status; `id` is the `id` member of the
    /// JSON body, when the body parsed and had one.
    Answered { status: u16, id: Option<String> },
}

/// The asset id reported for an upload reply: the new id on 200/201, the id
/// or the duplicate marker on 409, none otherwise.
pub open spec fn upload_result(reply: UploadReply) -> Option<Seq<char>> {
    match reply {
        UploadReply::NetworkError => None,
        UploadReply::Answered { status, id } => if status == 200 || status == 201 {
            opt_view(id)
        } else if status == 409 {
            match id {
                Some(i) => Some(i@),
                None => Some("DUPLICATE"@),
            }
        } else {
            None
        },
    }
}

/// Whether a reply makes the client forget its active address, so the next
/// request probes connectivity again: network errors, 413 and 502/504.
pub open spec fn upload_resets_connection(reply: UploadReply) -> bool {
    match reply {
        UploadReply::NetworkError => true,
        UploadReply::Answered { status, .. } => status == 413 || status == 502 || status == 504,
    }
}

/// A 200 or 201 reply carrying an id reports that id as the asset id and
/// keeps the connection; 200 and 201 are treated alike; any other status
/// than 200, 201 and 409 reports no asset.
pub proof fn lemma_success_reply_gives_id(id: String, maybe: Option<String>, status: u16)
    ensures
        upload_result(UploadReply::Answered { status: 200, id: Some(id) }) == Some(id@),
        upload_result(UploadReply::Answered { status: 201, id: Some(id) }) == Some(id@),
        upload_result(UploadReply::Answered { status: 200, id: maybe })
            == upload_result(UploadReply::Answered { status: 201, id: maybe }),
        !upload_resets_connection(UploadReply::Answered { status: 200, id: maybe }),
        !upload_resets_connection(UploadReply::Answered { status: 201, id: maybe }),
        status != 200 && status != 201 && status != 409 ==> upload_result(UploadReply::Answered { status, id: maybe }) is None,
{
}

/// A 409 reply (the server already holds the file) always yields an asset
/// id, so the task never goes to the retry list, and it does not reset the
/// connection.
pub proof fn lemma_conflict_reply_counts_as_uploaded(id: Option<String>)
    ensures
        upload_result(UploadReply::Answered { status: 409, id }) is Some,
        !upload_resets_connection(UploadReply::Answered { status: 409, id }),
{
}

/// Interprets an upload reply: the asset id to report and whether the active
/// address must be forgotten.
pub fn interpret_upload_reply(reply: UploadReply) -> (r: (Option<String>, bool))
    ensures
        opt_view(r.0) == upload_result(reply),
        r.1 == upload_resets_connection(reply),
{
    match reply {
        UploadReply::NetworkError => (None, true),
        UploadReply::Answered { status, id } => {
            if status == 200 || status == 201 {
                (id, false)
            } else if status == 409 {
                match id {
                    Some(i) => (Some(i), false),
                    None => (Some(String::from_str("DUPLICATE")), false),
                }
            } else if status == 413 || status == 502 || status == 504 {
                (None, true)
            } else {
                (None, false)
            }
        },
    }
}

// ---------------------------------------------------------------------------
// Albums
// ---------------------------------------------------------------------------

/// The URL listing (GET) and creating (POST) albums.
pub fn albums_url(base_url: &str) -> (u: String)
    ensures
        u@ == base_url@ + "/api/albums"@,
{
    let mut u = String::from_str(base_url);
    u.append("/api/albums");
    u
}

/// Whether adding assets to an album is attempted: both an album id and at
/// least one asset are needed.
pub fn can_add_assets(album_id: &str, asset_count: usize) -> (b: bool)
    ensures
        b == (album_id@.len() > 0 && asset_count > 0),
{
    album_id.unicode_len() > 0 && asset_count > 0
}

/// The URL that adds assets to an album, or none when the album id or the
/// asset list is empty (nothing is sent then).
pub fn album_assets_url(base_url: &str, album_id: &str, asset_count: usize) -> (u: Option<String>)
    ensures
        album_id@.len() == 0 || asset_count == 0 ==> u is None,
        album_id@.len() > 0 && asset_count > 0 ==> u is Some
            && u->0@ == base_url@ + "/api/albums/"@ + album_id@ + "/assets"@,
{
    if album_id.unicode_len() == 0 || asset_count == 0 {
        return None;
    }
    let mut u = String::from_str(base_url);
    u.append("/api/albums/");
    u.append(album_id);
    u.append("/assets");
    Some(u)
}

/// Whether an HTTP status is a success (2xx).
pub fn is_success_status(status: u16) -> (b: bool)
    ensures
        b == (200 <= status && status < 300),
{
    200 <= status && status < 300
}

/// The id of a newly created album: the `id` member of the reply body when
/// the server answered 200 or 201, none otherwise.
pub fn created_album_id(status: u16, id: Option<String>) -> (r: Option<String>)
    ensures
        opt_view(r) == if status == 200 || status == 201 { opt_view(id) } else { None::<Seq<char>> },
{
    if status == 200 || status == 201 { id } else { None }
}

/// Album name to id, as far as the server has been asked.
pub struct AlbumCache {
    albums: KeyedList<String>,
    fetched: bool,
    creating: KeyedList<()>,
}

/// What a caller that needs the album called `name` must do.
pub enum AlbumClaim {
    /// The album is known under this id.
    Known(String),
    /// The caller creates the album, then records it (or gives up on it).
    Create,
    /// Another caller is creating it; ask again later.
    Wait,
}

/// The answer to a claim on `name`, given the known albums and the names
/// being created.
pub open spec fn claim_of(m: Map<Seq<char>, String>, creating: Set<Seq<char>>, name: Seq<char>) -> AlbumClaim {
    match lookup_of(m, name) {
        Some(id) => AlbumClaim::Known(id),
        None => if creating.contains(name) { AlbumClaim::Wait } else { AlbumClaim::Create },
    }
}

/// Only one caller at a time is told to create a given album: once a claim
/// on `name` answered "create", every later claim on it waits until the
/// creation is recorded, and then it hands back the recorded id.
pub proof fn lemma_one_creator_per_album(m: Map<Seq<char>, String>, creating: Set<Seq<char>>, name: Seq<char>, id: String)
    requires
        claim_of(m, creating, name) is Create,
    ensures
        claim_of(m, creating.insert(name), name) is Wait,
        claim_of(with_created(m, name, id), creating.insert(name).remove(name), name) == AlbumClaim::Known(id),
{
}

impl AlbumCache {
    /// Names of albums whose creation is under way.
    pub closed spec fn creating(&self) -> Set<Seq<char>> {
        self.creating.map().dom()
    }

    /// Album name to id.
    pub closed spec fn map(&self) -> Map<Seq<char>, String> {
        self.albums.map()
    }

    /// Whether the server's album list has been loaded.
    pub closed spec fn is_fetched(&self) -> bool {
        self.fetched
    }

    /// Internal consistency.
    pub closed spec fn wf(&self) -> bool {
        self.albums.wf() && self.creating.wf()
    }

    /// An empty cache that has not asked the server yet.
    pub fn new() -> (c: AlbumCache)
        ensures
            c.wf(),
            c.map() == Map::<Seq<char>, String>::empty(),
            c.creating() == Set::<Seq<char>>::empty(),
            !c.is_fetched(),
    {
        let c = AlbumCache { albums: KeyedList::new(), fetched: false, creating: KeyedList::new() };
        assert(c.creating() =~= Set::<Seq<char>>::empty());
        c
    }

    /// Asks for the album called `name` (see [`claim_of`]); a "create" answer
    /// marks the name as being created.
    pub fn claim(&mut self, name: &str) -> (c: AlbumClaim)
        requires
            old(self).wf(),
        ensures
            final(self).wf(),
            c == claim_of(old(self).map(), old(self).creating(), name@),
            final(self).map() == old(self).map(),
            final(self).is_fetched() == old(self).is_fetched(),
            final(self).creating() == if c is Create {
                old(self).creating().insert(name@)
            } else {
                old(self).creating()
            },
    {
        match self.lookup(name) {
            Some(id) => AlbumClaim::Known(id),
            None => {
                if self.creating.position(name).is_some() {
                    AlbumClaim::Wait
                } else {
                    self.creating.insert(String::from_str(name), ());
                    assert(self.creating() =~= old(self).creating().insert(name@));
                    AlbumClaim::Create
                }
            },
        }
    }

    /// The creation of `name` failed; another caller may try again.
    pub fn abandon(&mut self, name: &str)
        requires
            old(self).wf(),
        ensures
            final(self).wf(),
            final(self).map() == old(self).map(),
            final(self).is_fetched() == old(self).is_fetched(),
            final(self).creating() == old(self).creating().remove(name@),
    {
        self.creating.remove(name);
        assert(self.creating() =~= old(self).creating().remove(name@));
    }

    /// Whether the server's album list still has to be loaded.
    pub fn needs_fetch(&self) -> (b: bool)
        ensures
            b == !self.is_fetched(),
    {
        !self.fetched
    }

    /// Records the server's album list: every entry with both a name and an id
    /// is stored (a later entry wins over an earlier one of the same name) and
    /// the list counts as loaded.
    pub fn absorb_listing(&mut self, listing: Vec<(Option<String>, Option<String>)>)
        requires
            old(self).wf(),
        ensures
            final(self).wf(),
            final(self).is_fetched(),
            final(self).map() == listing_into(old(self).map(), listing@),
            final(self).creating() == old(self).creating(),
    {
        let n = listing.len();
        let mut i: usize = 0;
        while i < n
            invariant
                n == listing@.len(),
                i <= n,
                self.wf(),
                self.map() == listing_into(old(self).map(), listing@.subrange(0, i as int)),
                self.creating() == old(self).creating(),
            decreases n - i,
        {
            assert(listing@.subrange(0, i + 1).drop_last() =~= listing@.subrange(0, i as int));
            match &listing[i] {
                (Some(name), Some(id)) => {
                    self.albums.insert(name.clone(), id.clone());
                },
                _ => {},
            }
            i = i + 1;
        }
        assert(listing@.subrange(0, n as int) =~= listing@);
        self.fetched = true;
    }

    /// The id of the album called `name`, if known.
    pub fn lookup(&self, name: &str) -> (r: Option<String>)
        requires
            self.wf(),
        ensures
            r == lookup_of(self.map(), name@),
    {
        match self.albums.get(name) {
            Some(id) => Some(id.clone()),
            None => None,
        }
    }

    /// Records a newly created album.
    pub fn record_created(&mut self, name: String, id: String)
        requires
            old(self).wf(),
        ensures
            final(self).wf(),
            final(self).is_fetched() == old(self).is_fetched(),
            final(self).map() == with_created(old(self).map(), name@, id),
            final(self).creating() == old(self).creating().remove(name@),
    {
        self.creating.remove(name.as_str());
        self.albums.insert(name, id);
        assert(self.creating() =~= old(self).creating().remove(name@));
    }

    /// All known albums as (name, id) pairs.
    pub fn snapshot(&self) -> (r: Vec<(String, String)>)
        requires
            self.wf(),
        ensures
            self.map().dom().finite(),
            r@.len() == self.map().len(),
            forall|i: int, j: int| 0 <= i < r@.len() && 0 <= j < r@.len() && i != j ==> #[trigger] r@[i].0@
                != #[trigger] r@[j].0@,
            forall|i: int| 0 <= i < r@.len() ==> self.map().contains_key(#[trigger] r@[i].0@)
                && self.map()[r@[i].0@] == r@[i].1,
            forall|k: Seq<char>| self.map().contains_key(k) ==> exists|i: int| 0 <= i < r@.len() && #[trigger] r@[i].0@ == k,
    {
        let mut r: Vec<(String, String)> = Vec::new();
        let n = self.albums.entries.len();
        let mut i: usize = 0;
        while i < n
            invariant
                n == self.albums.entries@.len(),
                i <= n,
                r@.len() == i,
                forall|j: int| 0 <= j < i ==> r@[j] == self.albums.entries@[j],
            decreases n - i,
        {
            let e = &self.albums.entries[i];
            r.push((e.0.clone(), e.1.clone()));
            i = i + 1;
        }
        proof {
            crate::keyed::lemma_entries_map_facts(self.albums.entries@);
            assert forall|k: Seq<char>| self.map().contains_key(k) implies exists|i: int| 0 <= i < r@.len() && #[trigger] r@[i].0@ == k by {
                let w = choose|i: int| 0 <= i < self.albums.entries@.len() && #[trigger] self.albums.entries@[i].0@ == k;
                assert(r@[w].0@ == k);
            }
        }
        r
    }
}

/// The cache after taking in a server listing, entry by entry.
pub open spec fn listing_into(
    m: Map<Seq<char>, String>,
    listing: Seq<(Option<String>, Option<String>)>,
) -> Map<Seq<char>, String>
    decreases listing.len(),
{
    if listing.len() == 0 {
        m
    } else {
        let prev = listing_into(m, listing.drop_last());
        match listing.last() {
            (Some(name), Some(id)) => prev.insert(name@, id),
            _ => prev,
        }
    }
}

/// What looking up `name` in an album cache with map `m` returns.
pub open spec fn lookup_of(m: Map<Seq<char>, String>, name: Seq<char>) -> Option<String> {
    if m.contains_key(name) { Some(m[name]) } else { None }
}

/// The album map after recording a newly created album.
pub open spec fn with_created(m: Map<Seq<char>, String>, name: Seq<char>, id: String) -> Map<Seq<char>, String> {
    m.insert(name, id)
}

/// Looking up an album right after recording its creation gives back its id,
/// and every other name looks up as before.
pub proof fn lemma_created_album_found(m: Map<Seq<char>, String>, name: Seq<char>, id: String, other: Seq<char>)
    ensures
        lookup_of(with_created(m, name, id), name) == Some(id),
        other != name ==> lookup_of(with_created(m, name, id), other) == lookup_of(m, other),
{
}

} // verus!
