//! Decisions behind the settings window: the album drop-down, the entries
//! saved for each folder, the URL switches, the status line and the
//! connection test report.

use vstd::prelude::*;
use crate::config::WatchPathEntry;
use crate::queue_manager::{default_album_label, sat_sub};
use crate::text::{decimal, push_decimal, same_text, path_file_name, path_file_name_of, opt_view};

verus! {

/// The last entry of the album drop-down, which reveals a free-text field.
pub open spec fn custom_album_label() -> Seq<char> {
    "Custom Album..."@
}

/// Album names of `albums` other than the default label, in order.
pub open spec fn named_albums(albums: Seq<(String, String)>) -> Seq<Seq<char>>
    decreases albums.len(),
{
    if albums.len() == 0 {
        Seq::empty()
    } else {
        let prev = named_albums(albums.drop_last());
        if albums.last().0@ != default_album_label() { prev.push(albums.last().0@) } else { prev }
    }
}

/// The drop-down entries: the default label, the known albums, the custom entry.
pub open spec fn choices_of(albums: Seq<(String, String)>) -> Seq<Seq<char>> {
    seq![default_album_label()] + named_albums(albums) + seq![custom_album_label()]
}

/// The drop-down entries for the known albums.
pub fn album_choices(albums: &Vec<(String, String)>) -> (c: Vec<String>)
    ensures
        c@.map_values(|s: String| s@) == choices_of(albums@),
{
    let mut c: Vec<String> = Vec::new();
    c.push(String::from_str("Default (Folder Name)"));
    let n = albums.len();
    let mut i: usize = 0;
    while i < n
        invariant
            n == albums@.len(),
            i <= n,
            c@.map_values(|s: String| s@) == seq![default_album_label()] + named_albums(albums@.subrange(0, i as int)),
        decreases n - i,
    {
        assert(albums@.subrange(0, i + 1).drop_last() =~= albums@.subrange(0, i as int));
        let name = &albums[i].0;
        let ghost before = c@;
        assert(albums@.subrange(0, i + 1).last() == albums@[i as int]);
        if !same_text(name.as_str(), "Default (Folder Name)") {
            c.push(name.clone());
            assert(c@.map_values(|s: String| s@) =~= before.map_values(|s: String| s@).push(name@));
        }
        assert(c@.map_values(|s: String| s@) =~= seq![default_album_label()] + named_albums(
            albums@.subrange(0, i + 1),
        ));
        i = i + 1;
    }
    assert(albums@.subrange(0, n as int) =~= albums@);
    c.push(String::from_str("Custom Album..."));
    assert(c@.map_values(|s: String| s@) =~= choices_of(albums@));
    c
}

/// Position of the first entry equal to `t`, searching from `from`.
pub open spec fn first_index_of(choices: Seq<String>, t: Seq<char>, from: int) -> Option<int>
    decreases choices.len() - from,
{
    if from < 0 || from >= choices.len() {
        None
    } else if choices[from]@ == t {
        Some(from)
    } else {
        first_index_of(choices, t, from + 1)
    }
}

fn find_choice(choices: &Vec<String>, t: &str) -> (r: Option<usize>)
    ensures
        match r {
            Some(k) => first_index_of(choices@, t@, 0) == Some(k as int) && k < choices@.len(),
            None => first_index_of(choices@, t@, 0) is None,
        },
{
    let n = choices.len();
    let mut i: usize = 0;
    while i < n
        invariant
            n == choices@.len(),
            i <= n,
            first_index_of(choices@, t@, i as int) == first_index_of(choices@, t@, 0),
        decreases n - i,
    {
        if same_text(choices[i].as_str(), t) {
            return Some(i);
        }
        i = i + 1;
    }
    None
}

/// The drop-down position shown for a folder with the given album name, and
/// the text put in the free-text field: a known album is selected; an unknown
/// one selects the custom entry and fills the field; no name (or the default
/// label) keeps the first entry.
pub open spec fn initial_selection_of(album_name: Option<Seq<char>>, choices: Seq<String>) -> (int, Option<Seq<char>>) {
    match album_name {
        Some(name) if name != default_album_label() => match first_index_of(choices, name, 0) {
            Some(i) => (i, None),
            None => (choices.len() - 1, Some(name)),
        },
        _ => (0, None),
    }
}

/// Where the drop-down of a folder starts (see [`initial_selection_of`]).
pub fn initial_selection(album_name: Option<&str>, choices: &Vec<String>) -> (r: (usize, Option<String>))
    requires
        choices@.len() > 0,
    ensures
        r.0 as int == initial_selection_of(match album_name { Some(s) => Some(s@), None => None }, choices@).0,
        opt_view(r.1) == initial_selection_of(match album_name { Some(s) => Some(s@), None => None }, choices@).1,
{
    match album_name {
        Some(name) => {
            if same_text(name, "Default (Folder Name)") {
                return (0, None);
            }
            match find_choice(choices, name) {
                Some(i) => (i, None),
                None => (choices.len() - 1, Some(String::from_str(name))),
            }
        },
        None => (0, None),
    }
}

/// The position to restore after the drop-down is refilled, given the text
/// that was selected: the same text if still present, else the custom entry
/// when that was selected, else the first entry.
pub open spec fn reselect_of(previous: Seq<char>, choices: Seq<String>) -> int {
    match first_index_of(choices, previous, 0) {
        Some(i) => i,
        None => if previous == custom_album_label() { choices.len() - 1 } else { 0 },
    }
}

/// Where the drop-down goes after its entries were replaced (see [`reselect_of`]).
pub fn reselect(previous: &str, choices: &Vec<String>) -> (i: usize)
    requires
        choices@.len() > 0,
    ensures
        i as int == reselect_of(previous@, choices@),
{
    match find_choice(choices, previous) {
        Some(i) => i,
        None => if same_text(previous, "Custom Album...") { choices.len() - 1 } else { 0 },
    }
}

/// The album name a folder row stands for: the free text when the custom
/// entry (the last one) is selected, else the selected entry's text, else the
/// default label.
pub open spec fn row_album_name_of(selected: u32, n_items: u32, custom_text: Seq<char>, item: Option<Seq<char>>) -> Seq<char> {
    if selected == n_items - 1 {
        custom_text
    } else {
        match item {
            Some(t) => t,
            None => default_album_label(),
        }
    }
}

/// The album name of a folder row (see [`row_album_name_of`]); `item` is the
/// text of the selected entry, if the position holds one.
pub fn row_album_name(selected: u32, n_items: u32, custom_text: &str, item: Option<String>) -> (name: String)
    requires
        n_items > 0,
    ensures
        name@ == row_album_name_of(selected, n_items, custom_text@, opt_view(item)),
{
    if selected == n_items - 1 {
        String::from_str(custom_text)
    } else {
        match item {
            Some(t) => t,
            None => String::from_str("Default (Folder Name)"),
        }
    }
}

/// Position of the last album named `name` in `albums`, searching below `upto`.
pub open spec fn last_album_with(albums: Seq<(String, String)>, name: Seq<char>, upto: int) -> Option<int>
    decreases upto,
{
    if upto <= 0 || upto > albums.len() {
        None
    } else if albums[upto - 1].0@ == name {
        Some(upto - 1)
    } else {
        last_album_with(albums, name, upto - 1)
    }
}

fn last_album_index(albums: &Vec<(String, String)>, name: &str) -> (r: Option<usize>)
    ensures
        match r {
            Some(k) => last_album_with(albums@, name@, albums@.len() as int) == Some(k as int) && k < albums@.len(),
            None => last_album_with(albums@, name@, albums@.len() as int) is None,
        },
{
    let mut k = albums.len();
    while k > 0
        invariant
            k <= albums@.len(),
            last_album_with(albums@, name@, k as int) == last_album_with(albums@, name@, albums@.len() as int),
        decreases k,
    {
        if same_text(albums[k - 1].0.as_str(), name) {
            return Some(k - 1);
        }
        k = k - 1;
    }
    None
}

/// The watch entry saved for a folder: a plain path when no album (or the
/// default label) was chosen, else the path with the album name and the id of
/// the last known album of that name.
pub fn entry_for_row(folder: String, album_name: String, albums: &Vec<(String, String)>) -> (e: WatchPathEntry)
    ensures
        e.path_view() == folder@,
        album_name@.len() == 0 || album_name@ == default_album_label() ==> e is Simple,
        !(album_name@.len() == 0 || album_name@ == default_album_label()) ==> {
            &&& e.album_name_view() == Some(album_name@)
            &&& e.album_id_view() == match last_album_with(albums@, album_name@, albums@.len() as int) {
                Some(i) => Some(albums@[i].1@),
                None => None::<Seq<char>>,
            }
        },
{
    if album_name.as_str().unicode_len() == 0 || same_text(album_name.as_str(), "Default (Folder Name)") {
        return WatchPathEntry::Simple(folder);
    }
    let album_id = match last_album_index(albums, album_name.as_str()) {
        Some(k) => Some(albums[k].1.clone()),
        None => None,
    };
    WatchPathEntry::WithConfig { path: folder, album_id, album_name: Some(album_name) }
}

/// Whether a folder picked in the dialog is already in the list.
pub fn already_listed(listed: &Vec<String>, path: &str) -> (b: bool)
    ensures
        b == exists|i: int| 0 <= i < listed@.len() && #[trigger] listed@[i]@ == path@,
{
    let n = listed.len();
    let mut i: usize = 0;
    while i < n
        invariant
            n == listed@.len(),
            i <= n,
            forall|j: int| 0 <= j < i ==> #[trigger] listed@[j]@ != path@,
        decreases n - i,
    {
        if same_text(listed[i].as_str(), path) {
            return true;
        }
        i = i + 1;
    }
    false
}

/// Whether a URL switch that just changed must be turned back on: at least
/// one of the two addresses stays enabled. The switch then ends as
/// [`toggled`] says.
pub fn must_reenable(this_active: bool, other_active: bool) -> (b: bool)
    ensures
        b == (!this_active && !other_active),
        (this_active || b) == toggled(this_active, other_active),
{
    !this_active && !other_active
}

/// The switch states the window opens with, from the saved toggles: when
/// both were saved off, both are switched on (at least one address must stay
/// enabled); otherwise the saved states are used.
pub open spec fn initial_switches_of(internal: bool, external: bool) -> (bool, bool) {
    if !internal && !external { (true, true) } else { (internal, external) }
}

/// Chooses the switch states the window opens with (see [`initial_switches_of`]).
pub fn initial_switches(internal: bool, external: bool) -> (r: (bool, bool))
    ensures
        r == initial_switches_of(internal, external),
        r.0 || r.1,
{
    if !internal && !external { (true, true) } else { (internal, external) }
}

/// The state of a switch after the user set it to `new_this` while the other
/// switch is `other`: turned back on when that would leave both off.
pub open spec fn toggled(new_this: bool, other: bool) -> bool {
    new_this || (!new_this && !other)
}

/// The switches after a sequence of user toggles, each (which switch: true
/// for the LAN one, the value the user set).
pub open spec fn apply_toggles(start: (bool, bool), toggles: Seq<(bool, bool)>) -> (bool, bool)
    decreases toggles.len(),
{
    if toggles.len() == 0 {
        start
    } else {
        let prev = apply_toggles(start, toggles.drop_last());
        let (lan, v) = toggles.last();
        if lan { (toggled(v, prev.1), prev.1) } else { (prev.0, toggled(v, prev.0)) }
    }
}

/// At least one address stays enabled in every state of the window: it opens
/// with one switch on, and no sequence of toggles turns both off.
pub proof fn lemma_one_switch_always_on(internal: bool, external: bool, toggles: Seq<(bool, bool)>)
    ensures
        apply_toggles(initial_switches_of(internal, external), toggles).0
            || apply_toggles(initial_switches_of(internal, external), toggles).1,
    decreases toggles.len(),
{
    if toggles.len() > 0 {
        lemma_one_switch_always_on(internal, external, toggles.drop_last());
    }
}

/// How full the progress bar is drawn.
pub enum BarFill {
    Empty,
    Full,
    /// Filled to this percentage.
    Percent(u8),
}

/// The status line of the settings window.
pub struct StatusDisplay {
    pub title: String,
    pub subtitle: String,
    pub bar: BarFill,
}

/// The file name shown while uploading: that of the current file ("..." when
/// none), or "..." when it has none.
pub open spec fn shown_file_name(current_file: Option<Seq<char>>) -> Seq<char> {
    let p = match current_file { Some(f) => f, None => "..."@ };
    match path_file_name_of(p) {
        Some(n) => n,
        None => "..."@,
    }
}

/// What the status line shows for a record: the idle and offline summaries,
/// the upload counter, or nothing new for any other status.
pub open spec fn status_display_of(
    status: Seq<char>,
    progress: u8,
    processed: nat,
    total: nat,
    failed: nat,
    current_file: Option<Seq<char>>,
) -> Option<(Seq<char>, Seq<char>, BarFill)> {
    if status == "idle"@ {
        if failed > 0 {
            Some(("Offline / Waiting"@, decimal(failed) + " item(s) pending network"@, BarFill::Full))
        } else {
            Some((
                "Idle"@,
                "Successfully processed "@ + decimal(sat_sub(processed, failed)) + " file(s)"@,
                if processed > 0 { BarFill::Full } else { BarFill::Empty },
            ))
        }
    } else if status == "uploading"@ {
        Some((
            "Uploading ("@ + decimal(processed) + "/"@ + decimal(total) + ")"@,
            shown_file_name(current_file),
            BarFill::Percent(progress),
        ))
    } else {
        None
    }
}

/// Computes the status line (see [`status_display_of`]).
pub fn status_display(
    status: &str,
    progress: u8,
    processed: usize,
    total: usize,
    failed: usize,
    current_file: Option<String>,
) -> (d: Option<StatusDisplay>)
    ensures
        match status_display_of(status@, progress, processed as nat, total as nat, failed as nat, opt_view(current_file)) {
            Some((t, s, b)) => d is Some && d->0.title@ == t && d->0.subtitle@ == s && d->0.bar == b,
            None => d is None,
        },
{
    if same_text(status, "idle") {
        if failed > 0 {
            let mut sub = String::new();
            push_decimal(&mut sub, failed as u64);
            sub.append(" item(s) pending network");
            Some(StatusDisplay { title: String::from_str("Offline / Waiting"), subtitle: sub, bar: BarFill::Full })
        } else {
            let mut sub = String::from_str("Successfully processed ");
            let ok: usize = if processed >= failed { processed - failed } else { 0 };
            push_decimal(&mut sub, ok as u64);
            sub.append(" file(s)");
            Some(StatusDisplay {
                title: String::from_str("Idle"),
                subtitle: sub,
                bar: if processed > 0 { BarFill::Full } else { BarFill::Empty },
            })
        }
    } else if same_text(status, "uploading") {
        let mut title = String::from_str("Uploading (");
        push_decimal(&mut title, processed as u64);
        title.append("/");
        push_decimal(&mut title, total as u64);
        title.append(")");
        let file = match current_file { Some(f) => f, None => String::from_str("...") };
        let sub = match path_file_name(file.as_str()) {
            Some(n) => n,
            None => String::from_str("..."),
        };
        Some(StatusDisplay { title, subtitle: sub, bar: BarFill::Percent(progress) })
    } else {
        None
    }
}

/// The dialog after testing both addresses: heading and body.
pub open spec fn connection_report_of(int_ok: bool, ext_ok: bool) -> (Seq<char>, Seq<char>) {
    if int_ok || ext_ok {
        (
            "Connection Successful"@,
            "Internal: "@ + (if int_ok { "OK"@ } else { "FAILED"@ }) + "\nExternal: "@ + (if ext_ok { "OK"@ } else { "FAILED"@ })
                + (if int_ok { "\n\nActive Mode: LAN"@ } else { "\n\nActive Mode: WAN"@ }),
        )
    } else {
        ("Connection Failed"@, "Could not connect to Immich at either address."@)
    }
}

/// Whether `t` closes `s`.
pub open spec fn ends_with(s: Seq<char>, t: Seq<char>) -> bool {
    t.len() <= s.len() && s.subrange(s.len() - t.len(), s.len() as int) == t
}

/// The connection test names as active mode the address the connection
/// probe picks: LAN whenever the LAN address answered, whatever the WAN
/// result; WAN when only the WAN address answered. The heading says success
/// iff some address answered.
pub proof fn lemma_report_mode_matches_probe(int_ok: bool, ext_ok: bool, lan: Seq<char>, wan: Seq<char>)
    ensures
        int_ok ==> ends_with(connection_report_of(int_ok, ext_ok).1, "\n\nActive Mode: LAN"@),
        int_ok ==> crate::api_client::probe_step_of(lan, wan, Some(int_ok), Some(ext_ok)) == (false, Some(lan)),
        !int_ok && ext_ok ==> ends_with(connection_report_of(int_ok, ext_ok).1, "\n\nActive Mode: WAN"@),
        !int_ok && ext_ok ==> crate::api_client::probe_step_of(lan, wan, Some(int_ok), Some(ext_ok)) == (false, Some(wan)),
        (connection_report_of(int_ok, ext_ok).0 == "Connection Successful"@) || !(int_ok || ext_ok),
{
    let b = connection_report_of(int_ok, ext_ok).1;
    if int_ok {
        let t = "\n\nActive Mode: LAN"@;
        assert(b.subrange(b.len() - t.len(), b.len() as int) =~= t);
    } else if ext_ok {
        let t = "\n\nActive Mode: WAN"@;
        assert(b.subrange(b.len() - t.len(), b.len() as int) =~= t);
    }
}

/// Builds the connection test dialog (see [`connection_report_of`]).
pub fn connection_report(int_ok: bool, ext_ok: bool) -> (r: (String, String))
    ensures
        r.0@ == connection_report_of(int_ok, ext_ok).0,
        r.1@ == connection_report_of(int_ok, ext_ok).1,
{
    if int_ok || ext_ok {
        let mut body = String::from_str("Internal: ");
        body.append(if int_ok { "OK" } else { "FAILED" });
        body.append("\nExternal: ");
        body.append(if ext_ok { "OK" } else { "FAILED" });
        body.append(if int_ok { "\n\nActive Mode: LAN" } else { "\n\nActive Mode: WAN" });
        (String::from_str("Connection Successful"), body)
    } else {
        (String::from_str("Connection Failed"), String::from_str("Could not connect to Immich at either address."))
    }
}

/// Whether the settings window opens for this command line: on `--settings`,
/// or when another instance forwarded its launch.
pub fn wants_settings(argv: &Vec<String>, is_remote: bool) -> (b: bool)
    ensures
        b == (is_remote || exists|i: int| 0 <= i < argv@.len() && #[trigger] argv@[i]@ == "--settings"@),
{
    let n = argv.len();
    let mut i: usize = 0;
    let mut found = false;
    while i < n
        invariant
            n == argv@.len(),
            i <= n,
            found == exists|j: int| 0 <= j < i && #[trigger] argv@[j]@ == "--settings"@,
        decreases n - i,
    {
        if same_text(argv[i].as_str(), "--settings") {
            found = true;
        }
        i = i + 1;
    }
    found || is_remote
}

} // verus!
