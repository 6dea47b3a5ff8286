//! Starting up on a seat: which backend runs, what children are told, and what
//! to say when the display cannot be had.

use crate::icons;
use crate::state::EnvVar;
use crate::state;
use crate::text;
use vstd::prelude::*;

verus! {

/// What the compositor draws to.
#[derive(Debug, Clone, Copy, PartialEq, Eq, Structural)]
pub enum Backend {
    /// The display hardware.
    Drm,
    /// A window of another compositor.
    Nested,
}

/// The backend that a setting asks for. A setting that is not known counts as
/// automatic: nested where there is a display to nest in.
pub open spec fn backend_for(setting: Seq<char>, in_display: bool) -> Backend {
    if setting == "drm"@ || setting == "kms"@ {
        Backend::Drm
    } else if setting == "winit"@ || setting == "nested"@ {
        Backend::Nested
    } else if in_display {
        Backend::Nested
    } else {
        Backend::Drm
    }
}

/// Chooses the backend.
pub fn choose_backend(setting: &str, in_display: bool) -> (r: Backend)
    ensures
        r == backend_for(setting@, in_display),
{
    if text::text_eq(setting, "drm") || text::text_eq(setting, "kms") {
        Backend::Drm
    } else if text::text_eq(setting, "winit") || text::text_eq(setting, "nested") {
        Backend::Nested
    } else if in_display {
        Backend::Nested
    } else {
        Backend::Drm
    }
}

/// Whether a setting names a backend, or the automatic choice.
pub fn is_known_backend(setting: &str) -> (r: bool)
    ensures
        r == (setting@ == "drm"@ || setting@ == "kms"@ || setting@ == "winit"@ || setting@
            == "nested"@ || setting@ == "auto"@),
{
    text::text_eq(setting, "drm") || text::text_eq(setting, "kms") || text::text_eq(
        setting,
        "winit",
    ) || text::text_eq(setting, "nested") || text::text_eq(setting, "auto")
}

/// The variables that a session hands to the services around it; a nested
/// compositor hands on none.
pub fn session_environment(socket: &str, session: bool) -> (vars: Vec<EnvVar>)
    ensures
        state::env_models(vars@) == (if session {
            seq![
                ("WAYLAND_DISPLAY"@, socket@),
                ("XDG_CURRENT_DESKTOP"@, "Blair"@),
                ("XDG_SESSION_TYPE"@, "wayland"@),
            ]
        } else {
            Seq::empty()
        }),
{
    let mut vars: Vec<EnvVar> = Vec::new();
    if session {
        vars.push(EnvVar { key: "WAYLAND_DISPLAY".to_owned(), value: socket.to_owned() });
        vars.push(EnvVar { key: "XDG_CURRENT_DESKTOP".to_owned(), value: "Blair".to_owned() });
        vars.push(EnvVar { key: "XDG_SESSION_TYPE".to_owned(), value: "wayland".to_owned() });
        assert(state::env_models(vars@) =~= seq![
            ("WAYLAND_DISPLAY"@, socket@),
            ("XDG_CURRENT_DESKTOP"@, "Blair"@),
            ("XDG_SESSION_TYPE"@, "wayland"@),
        ]);
    } else {
        assert(state::env_models(vars@) =~= Seq::empty());
    }
    vars
}

/// What is odd about the terminal that the compositor was started from.
#[derive(Debug, Clone, Copy, PartialEq, Eq, Structural)]
pub enum SeatWarning {
    Fine,
    /// Another terminal is in the foreground.
    WrongTerminal,
    /// The process does not belong to a login session.
    NoSession,
}

/// The text without any `tty` at its front.
pub open spec fn terminal_number(name: Seq<char>) -> Seq<char>
    decreases name.len(),
{
    if text::begins(name, "tty"@) && "tty"@.len() == 3 {
        terminal_number(name.skip(3))
    } else {
        name
    }
}

/// What is odd, given the session's terminal and the one in the foreground.
pub open spec fn seat_warning(vtnr: Option<Seq<char>>, foreground: Option<Seq<char>>) -> SeatWarning {
    match (vtnr, foreground) {
        (Some(vtnr), Some(foreground)) => if text::trimmed(vtnr) != terminal_number(
            text::trimmed(foreground),
        ) {
            SeatWarning::WrongTerminal
        } else {
            SeatWarning::Fine
        },
        (None, _) => SeatWarning::NoSession,
        _ => SeatWarning::Fine,
    }
}

fn number_of(name: &Vec<char>) -> (r: Vec<char>)
    ensures
        r@ == terminal_number(name@),
{
    proof {
        reveal_strlit("tty");
        assert("tty"@.len() == 3);
    }
    let count: usize = name.len();
    let mut rest = text::slice_of(name.as_slice(), 0, count);
    assert(rest@ =~= name@);
    while text::starts_with(rest.as_slice(), "tty")
        invariant
            "tty"@.len() == 3,
            terminal_number(name@) == terminal_number(rest@),
        decreases rest@.len(),
    {
        let ghost before = rest@;
        rest = text::slice_of(rest.as_slice(), 3, rest.len());
        assert(rest@ =~= before.skip(3));
    }
    rest
}

/// What is odd about the terminal that the compositor was started from.
/// `vtnr` is the session's terminal, and `foreground` the name of the one in
/// the foreground.
pub fn diagnose_seat(vtnr: &Option<String>, foreground: &Option<String>) -> (r: SeatWarning)
    ensures
        r == seat_warning(text::option(*vtnr), text::option(*foreground)),
{
    match (vtnr, foreground) {
        (Some(vtnr), Some(foreground)) => {
            let ours = text::chars_of(vtnr.as_str());
            let theirs = text::chars_of(foreground.as_str());
            let ours = text::trim(ours.as_slice());
            let theirs = text::trim(theirs.as_slice());
            let number = number_of(&theirs);
            if text::chars_eq(ours.as_slice(), number.as_slice()) {
                SeatWarning::Fine
            } else {
                SeatWarning::WrongTerminal
            }
        },
        (None, _) => SeatWarning::NoSession,
        _ => SeatWarning::Fine,
    }
}

/// The lines of a text, without the characters that end them.
pub open spec fn lines(content: Seq<char>) -> Seq<Seq<char>> {
    let pieces = text::split(content, icons::newline());
    Seq::new(
        pieces.len(),
        |i: int|
            if i + 1 < pieces.len() && pieces[i].len() > 0 && pieces[i].last() == '\r' {
                pieces[i].drop_last()
            } else {
                pieces[i]
            },
    )
}

fn lines_of(content: &str) -> (r: Vec<Vec<char>>)
    ensures
        text::views(r@) == lines(content@),
{
    let chars = text::chars_of(content);
    let pieces = text::split_on(chars.as_slice(), '\n', '\n');
    let ghost all = text::split(content@, icons::newline());
    assert((|c: char| c == '\n' || c == '\n') =~= icons::newline());
    let total: usize = pieces.len();
    let mut found: Vec<Vec<char>> = Vec::new();
    for i in 0..total
        invariant
            total == pieces@.len(),
            all == text::views(pieces@),
            all == text::split(content@, icons::newline()),
            found@.len() == i,
            forall|j: int| 0 <= j < i ==> (#[trigger] found@[j])@ == lines(content@)[j],
    {
        let piece = &pieces[i];
        let length: usize = piece.len();
        let end: usize = if i + 1 < total && length > 0 && piece[length - 1] == '\r' {
            length - 1
        } else {
            length
        };
        let line = text::slice_of(piece.as_slice(), 0, end);
        assert(all[i as int] == piece@);
        assert(line@ =~= lines(content@)[i as int]);
        found.push(line);
    }
    assert(text::views(found@) =~= lines(content@));
    found
}

/// What follows the key in the first line that begins with it.
pub open spec fn first_value(all: Seq<Seq<char>>, key: Seq<char>) -> Option<Seq<char>>
    decreases all.len(),
{
    if all.len() == 0 {
        None
    } else if text::begins(all[0], key) {
        Some(all[0].skip(key.len() as int))
    } else {
        first_value(all.drop_first(), key)
    }
}

/// What follows the key in the last line that begins with it.
pub open spec fn last_value(all: Seq<Seq<char>>, key: Seq<char>) -> Option<Seq<char>>
    decreases all.len(),
{
    if all.len() == 0 {
        None
    } else if text::begins(all.last(), key) {
        Some(all.last().skip(key.len() as int))
    } else {
        last_value(all.drop_last(), key)
    }
}

fn rest_of(line: &Vec<char>, key: &str) -> (r: Option<String>)
    ensures
        text::option(r) == (if text::begins(line@, key@) {
            Some(line@.skip(key@.len() as int))
        } else {
            None
        }),
{
    let prefix = text::chars_of(key);
    if !text::starts_with(line.as_slice(), key) {
        return None;
    }
    let rest = text::slice_of(line.as_slice(), prefix.len(), line.len());
    assert(rest@ =~= line@.skip(key@.len() as int));
    Some(text::string_of(rest.as_slice()))
}

/// A property in the output of `loginctl show-session`: what follows `key` in
/// the first line that begins with it.
pub fn session_property(output: &str, key: &str) -> (value: Option<String>)
    ensures
        text::option(value) == first_value(lines(output@), key@),
{
    let found = lines_of(output);
    let ghost all = lines(output@);
    assert(all.skip(0) =~= all);
    for i in 0..found.len()
        invariant
            all == text::views(found@),
            all == lines(output@),
            first_value(all, key@) == first_value(all.skip(i as int), key@),
    {
        assert(all.skip(i as int)[0] == found@[i as int]@);
        assert(all.skip(i as int).drop_first() =~= all.skip(i + 1));
        let value = rest_of(&found[i], key);
        if value.is_some() {
            return value;
        }
    }
    assert(all.skip(found@.len() as int).len() == 0);
    None
}

fn last_property(output: &str, key: &str) -> (value: Option<String>)
    ensures
        text::option(value) == last_value(lines(output@), key@),
{
    let found = lines_of(output);
    let ghost all = lines(output@);
    let mut n: usize = found.len();
    assert(all.take(n as int) =~= all);
    while n > 0
        invariant
            n <= found@.len(),
            all == text::views(found@),
            all == lines(output@),
            last_value(all, key@) == last_value(all.take(n as int), key@),
        decreases n,
    {
        assert(all.take(n as int).last() == found@[n - 1]@);
        assert(all.take(n as int).drop_last() =~= all.take(n - 1));
        let value = rest_of(&found[n - 1], key);
        if value.is_some() {
            return value;
        }
        n = n - 1;
    }
    assert(all.take(0).len() == 0);
    None
}

/// Another process that holds the card.
#[derive(Debug)]
pub struct CardHolder {
    pub pid: u32,
    pub command: String,
}

pub const NO_HOLDERS: &'static str =
    "<none in our UID — run `sudo fuser -v` on the card to see other UIDs>";

pub const HINT_ACTIVE: &'static str =
    "logind says we ARE active but the kernel refused. This is rare: either another process of a different UID still holds the master (run `sudo lsof <card>` and `sudo cat /sys/kernel/debug/dri/<minor>/clients`), or there's a kernel/driver bug. A reboot usually clears it.";

pub const HINT_INACTIVE: &'static str =
    "logind reports Active=no for our session — that's why drmSetMaster was denied. Most common cause on Type=tty sessions (agetty+login): logind doesn't auto-promote to active. The wrapper should run `loginctl activate $XDG_SESSION_ID` before starting the compositor. If it does and this still happens, another graphical session is already claiming Active on seat0 and logind is refusing to transfer.";

pub const HINT_UNKNOWN: &'static str =
    "could not read logind's session state — is systemd-logind running and loginctl on PATH?";

pub const UNKNOWN: &'static str = "<unknown>";

pub const UNSET: &'static str = "<unset>";

/// A process as its number and its command.
pub open spec fn holder_name(holder: CardHolder) -> Seq<char> {
    text::decimal(holder.pid as nat) + "("@ + holder.command@ + ")"@
}

pub open spec fn holder_names(holders: Seq<CardHolder>) -> Seq<Seq<char>> {
    holders.map_values(|holder: CardHolder| holder_name(holder))
}

pub open spec fn holder_list(holders: Seq<CardHolder>) -> Seq<char> {
    if holders.len() == 0 {
        NO_HOLDERS@
    } else {
        text::joined(holder_names(holders), ","@)
    }
}

/// The processes that hold a card, as a list.
pub fn list_holders(holders: &Vec<CardHolder>) -> (r: String)
    ensures
        r@ == holder_list(holders@),
{
    if holders.len() == 0 {
        return NO_HOLDERS.to_owned();
    }
    let mut names: Vec<String> = Vec::new();
    for i in 0..holders.len()
        invariant
            names@.len() == i,
            forall|j: int| 0 <= j < i ==> (#[trigger] names@[j])@ == holder_name(holders@[j]),
    {
        let number = text::u64_text(holders[i].pid as u64);
        let begun = text::join3(number.as_str(), "(", holders[i].command.as_str());
        names.push(text::join2(begun.as_str(), ")"));
    }
    assert(text::strings(names@) =~= holder_names(holders@));
    text::join(&names, ",")
}

/// What to try, given whether the session is active.
pub open spec fn hint_for(active: Seq<char>) -> Seq<char> {
    if active == "yes"@ {
        HINT_ACTIVE@
    } else if active == "no"@ {
        HINT_INACTIVE@
    } else {
        HINT_UNKNOWN@
    }
}

/// The text, or a placeholder.
pub open spec fn or_else(value: Option<Seq<char>>, other: Seq<char>) -> Seq<char> {
    match value {
        Some(found) => found,
        None => other,
    }
}

fn given(value: &Option<String>, other: &str) -> (r: String)
    ensures
        r@ == or_else(text::option(*value), other@),
{
    match value {
        Some(found) => found.clone(),
        None => other.to_owned(),
    }
}

/// A property of the session, as `loginctl` gave it, if it could be asked.
pub open spec fn property_or_unknown(output: Option<Seq<char>>, key: Seq<char>) -> Seq<char> {
    match output {
        Some(output) => or_else(last_value(lines(output), key), UNKNOWN@),
        None => UNKNOWN@,
    }
}

fn property(output: &Option<String>, key: &str) -> (r: String)
    ensures
        r@ == property_or_unknown(text::option(*output), key@),
{
    match output {
        Some(output) => given(&last_property(output.as_str(), key), UNKNOWN),
        None => UNKNOWN.to_owned(),
    }
}

/// What is known of a card that could not be taken over.
pub open spec fn diagnostic(
    card: Seq<char>,
    foreground: Option<Seq<char>>,
    vtnr: Option<Seq<char>>,
    session: Option<Seq<char>>,
    loginctl: Option<Seq<char>>,
    holders: Seq<CardHolder>,
) -> Seq<char> {
    let active = property_or_unknown(loginctl, "Active="@);
    let terminal = match foreground {
        Some(name) => text::trimmed(name),
        None => UNKNOWN@,
    };
    "card="@ + card + " foreground_vt="@ + terminal + " XDG_VTNR="@ + or_else(vtnr, UNSET@)
        + " XDG_SESSION_ID="@ + or_else(session, UNSET@) + " logind.ACTIVE="@ + active
        + " logind.STATE="@ + property_or_unknown(loginctl, "State="@) + " other_holders=["@
        + holder_list(holders) + "]. "@ + hint_for(active)
}

/// Describes why a card could not be taken over. `foreground` is the terminal
/// in the foreground, `loginctl` what `loginctl` says of the session.
pub fn current_master_diagnostic(
    card: &str,
    foreground: &Option<String>,
    vtnr: &Option<String>,
    session: &Option<String>,
    loginctl: &Option<String>,
    holders: &Vec<CardHolder>,
) -> (r: String)
    ensures
        r@ == diagnostic(
            card@,
            text::option(*foreground),
            text::option(*vtnr),
            text::option(*session),
            text::option(*loginctl),
            holders@,
        ),
{
    let terminal = match foreground {
        Some(name) => {
            let chars = text::chars_of(name.as_str());
            let trimmed = text::trim(chars.as_slice());
            text::string_of(trimmed.as_slice())
        },
        None => UNKNOWN.to_owned(),
    };
    let active = property(loginctl, "Active=");
    let state = property(loginctl, "State=");
    let hint = if text::text_eq(active.as_str(), "yes") {
        HINT_ACTIVE
    } else if text::text_eq(active.as_str(), "no") {
        HINT_INACTIVE
    } else {
        HINT_UNKNOWN
    };
    let r = text::join2("card=", card);
    let r = text::join3(r.as_str(), " foreground_vt=", terminal.as_str());
    let r = text::join3(r.as_str(), " XDG_VTNR=", given(vtnr, UNSET).as_str());
    let r = text::join3(r.as_str(), " XDG_SESSION_ID=", given(session, UNSET).as_str());
    let r = text::join3(r.as_str(), " logind.ACTIVE=", active.as_str());
    let r = text::join3(r.as_str(), " logind.STATE=", state.as_str());
    let r = text::join3(r.as_str(), " other_holders=[", list_holders(holders).as_str());
    text::join3(r.as_str(), "]. ", hint)
}

/// How to go on waiting for the session to become active.
#[derive(Debug, Clone, Copy, PartialEq, Eq, Structural)]
pub enum SessionWait {
    Ready,
    TimedOut,
    /// Handle events for at most this many nanoseconds.
    Dispatch(u64),
}

/// The longest time to handle events before looking again.
pub const SESSION_POLL: u64 = 200_000_000;

/// The next step of waiting for the session.
pub open spec fn waiting_step(active: bool, remaining: u64) -> SessionWait {
    if active {
        SessionWait::Ready
    } else if remaining == 0 {
        SessionWait::TimedOut
    } else if remaining < SESSION_POLL {
        SessionWait::Dispatch(remaining)
    } else {
        SessionWait::Dispatch(SESSION_POLL)
    }
}

/// How to go on waiting, with `remaining` nanoseconds left.
pub fn wait_for_session(active: bool, remaining: u64) -> (r: SessionWait)
    ensures
        r == (if active {
            SessionWait::Ready
        } else if remaining == 0 {
            SessionWait::TimedOut
        } else if remaining <= SESSION_POLL {
            SessionWait::Dispatch(remaining)
        } else {
            SessionWait::Dispatch(SESSION_POLL)
        }),
        r == waiting_step(active, remaining),
{
    if active {
        SessionWait::Ready
    } else if remaining == 0 {
        SessionWait::TimedOut
    } else if remaining <= SESSION_POLL {
        SessionWait::Dispatch(remaining)
    } else {
        SessionWait::Dispatch(SESSION_POLL)
    }
}

pub const SESSION_TIMEOUT: &'static str =
    "timed out waiting for libseat ActivateSession after 3s. Is seatd/logind running and is our session foreground? foreground_vt=";

/// What to say when the session does not become active in time.
pub fn session_timeout(foreground: &Option<String>, vtnr: &Option<String>) -> (r: String)
    ensures
        r@ == SESSION_TIMEOUT@ + text::trimmed(or_else(text::option(*foreground), ""@))
            + " XDG_VTNR="@ + or_else(text::option(*vtnr), UNSET@),
{
    let name = given(foreground, "");
    let chars = text::chars_of(name.as_str());
    let trimmed = text::trim(chars.as_slice());
    let begun = text::join2(SESSION_TIMEOUT, text::string_of(trimmed.as_slice()).as_str());
    text::join3(begun.as_str(), " XDG_VTNR=", given(vtnr, UNSET).as_str())
}

/// What to do after a failed attempt.
#[derive(Debug, Clone, Copy, PartialEq, Eq, Structural)]
pub enum Retry {
    /// Wait, and make this attempt.
    Again(u32),
    GiveUp,
}

/// What follows a failed attempt.
pub open spec fn next_attempt(attempt: u32, attempts: u32) -> Retry {
    if attempt >= attempts {
        Retry::GiveUp
    } else {
        Retry::Again((attempt + 1) as u32)
    }
}

/// What to do after attempt `attempt` of `attempts` failed.
pub fn after_failure(attempt: u32, attempts: u32) -> (r: Retry)
    ensures
        r == (if attempt < attempts {
            Retry::Again((attempt + 1) as u32)
        } else {
            Retry::GiveUp
        }),
        r == next_attempt(attempt, attempts),
{
    if attempt < attempts {
        Retry::Again(attempt + 1)
    } else {
        Retry::GiveUp
    }
}

} // verus!
