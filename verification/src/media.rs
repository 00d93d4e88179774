//! What is playing on the machine: the readable name of the app that plays
//! it, the media actions, and what a poll sends to the interface.

use vstd::prelude::*;

use crate::encoding::{data_url, data_url_of};
use crate::ids::unix_millis;
use crate::launcher::{aumid_valido, valid_aumid};
use crate::text::{
    after_last, ascii_lowercase, ascii_lowered, before_first, chars_of, concat, ends_with,
    has_prefix, has_suffix, is_ascii_hex, is_ascii_hex_char, same_chars, slice, split_after_last,
    split_before_first, starts_with, string_of, trim, trimmed,
};

verus! {

/// What plays now.
pub struct MediaNow {
    pub title: String,
    pub artist: String,
    /// The app it comes from, already readable ("Spotify", "Msedge").
    pub app: String,
    pub playing: bool,
    pub can_toggle: bool,
    pub can_next: bool,
    pub can_prev: bool,
    pub can_seek: bool,
    /// The cover as a data URL; left out when the caller already has it.
    pub thumbnail: Option<String>,
    /// Names the track: changes when the cover changes.
    pub thumb_key: String,
    pub position_ms: Option<u64>,
    pub duration_ms: Option<u64>,
    pub updated_ms: Option<i64>,
}

/// What the media service reports of the track that plays, with its times
/// already in whole milliseconds. `art` is the cover in base64 (empty when
/// there is none or the caller already has it) and `mime` its type.
pub struct MediaReport {
    pub playing: bool,
    pub title: String,
    pub artist: String,
    pub app: String,
    pub bundle: String,
    pub duration_ms: Option<u64>,
    pub position_ms: Option<u64>,
    pub stamp_ms: Option<i64>,
    pub key: String,
    pub art: String,
    pub mime: String,
}

/// A media control.
#[derive(Debug, Clone, Copy, PartialEq, Eq, Structural)]
pub enum MediaAction {
    Toggle,
    Next,
    Prev,
}

/// The control a name asks for, if it is one.
pub open spec fn media_action_named(value: Seq<char>) -> Option<MediaAction> {
    if value == "toggle"@ {
        Some(MediaAction::Toggle)
    } else if value == "next"@ {
        Some(MediaAction::Next)
    } else if value == "prev"@ {
        Some(MediaAction::Prev)
    } else {
        None
    }
}

/// The control a name asks for, or the message for an unknown one.
pub fn parse_media_action(value: &str) -> (r: Result<MediaAction, String>)
    ensures
        match media_action_named(value@) {
            Some(a) => r == Ok::<MediaAction, String>(a),
            None => r matches Err(m) && m@ == "acción de medios desconocida: "@ + value@,
        },
{
    let v = chars_of(value);
    if same_chars(&v, &chars_of("toggle")) {
        Ok(MediaAction::Toggle)
    } else if same_chars(&v, &chars_of("next")) {
        Ok(MediaAction::Next)
    } else if same_chars(&v, &chars_of("prev")) {
        Ok(MediaAction::Prev)
    } else {
        let m = concat(&chars_of("acción de medios desconocida: "), &v);
        Err(string_of(&m))
    }
}

/// What `char::to_uppercase` yields for a character: its full Unicode
/// upper-case mapping (one or more characters). It depends on the character
/// alone.
pub uninterp spec fn unicode_uppercase(c: char) -> Seq<char>;

/// Calls `char::to_uppercase` and collects what it yields. Claimed: the
/// result is `unicode_uppercase` of the character, nothing more.
#[verifier::external_body]
fn to_uppercase(c: char) -> (r: Vec<char>)
    ensures
        r@ == unicode_uppercase(c),
{
    c.to_uppercase().collect()
}

/// `s` without one trailing `suf`, when it ends with it.
pub open spec fn strip_suffix_once(s: Seq<char>, suf: Seq<char>) -> Seq<char> {
    if has_suffix(s, suf) {
        s.take(s.len() - suf.len())
    } else {
        s
    }
}

/// Every character is an ASCII hexadecimal digit.
pub open spec fn all_hex(s: Seq<char>) -> bool {
    forall|i: int| 0 <= i < s.len() ==> is_ascii_hex(#[trigger] s[i])
}

/// The readable name of the app behind a media session id. An executable
/// (`Spotify.exe`) loses its extension, a packaged app id keeps the name
/// after `!` up to its publisher hash, a dotted name keeps its last part,
/// and the first letter goes upper case. The opaque hashes that browsers
/// give (12 or more hexadecimal digits) read as nothing.
pub open spec fn app_label_of(id: Seq<char>) -> Seq<char> {
    if id.len() >= 12 && all_hex(id) {
        Seq::empty()
    } else {
        let tail = after_last(id, '!');
        let base = before_first(tail, '_');
        let base = if has_suffix(base, ".exe"@) {
            strip_suffix_once(base, ".exe"@)
        } else {
            strip_suffix_once(base, ".EXE"@)
        };
        let base = after_last(base, '.');
        if base.len() == 0 {
            Seq::empty()
        } else {
            unicode_uppercase(base[0]) + base.skip(1)
        }
    }
}

fn all_hex_digits(s: &Vec<char>) -> (r: bool)
    ensures
        r == all_hex(s@),
{
    let mut i: usize = 0;
    while i < s.len()
        invariant
            i <= s@.len(),
            forall|k: int| 0 <= k < i ==> is_ascii_hex(#[trigger] s@[k]),
        decreases s@.len() - i,
    {
        if !is_ascii_hex_char(s[i]) {
            return false;
        }
        i += 1;
    }
    true
}

fn strip_once(s: &Vec<char>, suf: &Vec<char>) -> (r: Vec<char>)
    ensures
        r@ == strip_suffix_once(s@, suf@),
{
    if ends_with(s, suf) {
        slice(s, 0, s.len() - suf.len())
    } else {
        slice(s, 0, s.len())
    }
}

/// The readable name of the app behind a media session id.
pub fn app_label(id: &str) -> (r: String)
    ensures
        r@ == app_label_of(id@),
{
    let cs = chars_of(id);
    if cs.len() >= 12 && all_hex_digits(&cs) {
        return String::new();
    }
    let tail = split_after_last(&cs, '!');
    let base = split_before_first(&tail, '_');
    let exe = chars_of(".exe");
    let base = if ends_with(&base, &exe) {
        strip_once(&base, &exe)
    } else {
        strip_once(&base, &chars_of(".EXE"))
    };
    let base = split_after_last(&base, '.');
    if base.len() == 0 {
        return String::new();
    }
    let head = to_uppercase(base[0]);
    let rest = slice(&base, 1, base.len());
    let out = concat(&head, &rest);
    string_of(&out)
}

/// The key that names a track: app, title and artist, separated by `\u{1}`.
pub fn thumb_key(app: &str, title: &str, artist: &str) -> (r: String)
    ensures
        r@ == app@ + seq!['\u{1}'] + title@ + seq!['\u{1}'] + artist@,
{
    let mut a = chars_of(app);
    a.push('\u{1}');
    let b = concat(&a, &chars_of(title));
    let mut b = b;
    b.push('\u{1}');
    let c = concat(&b, &chars_of(artist));
    string_of(&c)
}

/// A poll's answer: the cover is left out when the caller already holds the
/// track's key.
pub fn without_known_cover(now: Option<MediaNow>, known: Option<&str>) -> (r: Option<MediaNow>)
    ensures
        match (now, r) {
            (None, None) => true,
            (Some(n), Some(m)) => {
                &&& m.title == n.title
                &&& m.artist == n.artist
                &&& m.app == n.app
                &&& m.playing == n.playing
                &&& m.thumb_key == n.thumb_key
                &&& m.position_ms == n.position_ms
                &&& m.duration_ms == n.duration_ms
                &&& m.updated_ms == n.updated_ms
                &&& m.can_toggle == n.can_toggle && m.can_next == n.can_next && m.can_prev
                    == n.can_prev && m.can_seek == n.can_seek
                &&& m.thumbnail == (if known matches Some(k) && k@ == n.thumb_key@ {
                    None
                } else {
                    n.thumbnail
                })
            },
            _ => false,
        },
{
    match now {
        None => None,
        Some(mut n) => {
            let drop = match known {
                Some(k) => same_chars(&chars_of(k), &chars_of(n.thumb_key.as_str())),
                None => false,
            };
            if drop {
                n.thumbnail = None;
            }
            Some(n)
        },
    }
}

/// The executable of a Win32 media app (`spotify.exe`); packaged apps and
/// browsers give an id or a hash instead, and read as none.
pub fn exe_source(id: &str) -> (r: Option<String>)
    ensures
        has_suffix(ascii_lowered(id@), ".exe"@) ==> (r matches Some(s) && s@ == id@),
        !has_suffix(ascii_lowered(id@), ".exe"@) ==> r is None,
{
    let low = ascii_lowercase(&chars_of(id));
    if ends_with(&low, &chars_of(".exe")) {
        Some(String::from_str(id))
    } else {
        None
    }
}

/// How the window of the playing app is looked for.
#[derive(Debug, Clone, Copy, PartialEq, Eq, Structural)]
pub enum FocusRoute {
    /// By its executable.
    Exe,
    /// By activating its package.
    Package,
    /// By a window whose title holds the track's.
    ByTitle,
}

/// How the window of the playing app is looked for, by the session's id.
pub fn focus_route(id: &str) -> (r: FocusRoute)
    ensures
        r == (if has_suffix(ascii_lowered(id@), ".exe"@) {
            FocusRoute::Exe
        } else if app_label_of(id@).len() > 0 && valid_aumid(id@) {
            FocusRoute::Package
        } else {
            FocusRoute::ByTitle
        }),
{
    let low = ascii_lowercase(&chars_of(id));
    if ends_with(&low, &chars_of(".exe")) {
        FocusRoute::Exe
    } else if app_label(id).unicode_len() > 0 && aumid_valido(id) {
        FocusRoute::Package
    } else {
        FocusRoute::ByTitle
    }
}

/// A track title worth looking for among window titles: trimmed, at least
/// three characters.
pub fn searchable_title(title: &str) -> (r: Option<Vec<char>>)
    ensures
        trimmed(title@).len() < 3 ==> r is None,
        trimmed(title@).len() >= 3 ==> (r matches Some(t) && t@ == trimmed(title@)),
{
    let t = trim(&chars_of(title));
    if t.len() < 3 {
        None
    } else {
        Some(t)
    }
}

/// The cover of a report as a data URL, when it carries one.
pub open spec fn cover_url(art: Seq<char>, mime: Seq<char>) -> Option<Seq<char>> {
    if art.len() == 0 {
        None
    } else {
        Some("data:"@ + mime + ";base64,"@ + art)
    }
}

/// What a poll shows of a report, and the bundle of the app that plays.
/// The service lets a poll play, skip and go back, never seek. The time of
/// the measure is the report's own stamp, else the clock's reading now.
pub fn now_from_report(raw: MediaReport) -> (r: (MediaNow, String))
    ensures
        r.0.title@ == raw.title@,
        r.0.artist@ == raw.artist@,
        r.0.app@ == raw.app@,
        r.0.playing == raw.playing,
        r.0.can_toggle && r.0.can_next && r.0.can_prev && !r.0.can_seek,
        match (cover_url(raw.art@, raw.mime@), r.0.thumbnail) {
            (None, None) => true,
            (Some(u), Some(t)) => t@ == u,
            _ => false,
        },
        r.0.thumb_key@ == raw.key@,
        r.0.position_ms == raw.position_ms,
        r.0.duration_ms == raw.duration_ms,
        r.0.updated_ms is Some,
        raw.stamp_ms is Some ==> r.0.updated_ms == raw.stamp_ms,
        r.1@ == raw.bundle@,
{
    proof {
        reveal_strlit("data:");
        reveal_strlit(";base64,");
    }
    let art = chars_of(raw.art.as_str());
    let thumbnail = if art.len() == 0 {
        None
    } else {
        let head = concat(&chars_of("data:"), &chars_of(raw.mime.as_str()));
        let head = concat(&head, &chars_of(";base64,"));
        Some(string_of(&concat(&head, &art)))
    };
    let updated_ms = match raw.stamp_ms {
        Some(ms) => Some(ms),
        None => Some(unix_millis()),
    };
    let now = MediaNow {
        title: raw.title,
        artist: raw.artist,
        app: raw.app,
        playing: raw.playing,
        can_toggle: true,
        can_next: true,
        can_prev: true,
        can_seek: false,
        thumbnail,
        thumb_key: raw.key,
        position_ms: raw.position_ms,
        duration_ms: raw.duration_ms,
        updated_ms,
    };
    (now, raw.bundle)
}

/// A cover larger than this is not a cover.
pub const MAX_THUMB_BYTES: usize = 2 * 1024 * 1024;

/// A cover read from the media service as a data URL: none when it is empty
/// or too large; its type when that is an image type, else PNG.
pub fn thumbnail_data_url(bytes: &Vec<u8>, content_type: Option<String>) -> (r: Option<String>)
    ensures
        bytes@.len() == 0 || bytes@.len() > MAX_THUMB_BYTES ==> r is None,
        0 < bytes@.len() <= MAX_THUMB_BYTES ==> (r matches Some(u) && u@ == data_url(
            match content_type {
                Some(t) => if has_prefix(t@, "image/"@) {
                    t@
                } else {
                    "image/png"@
                },
                None => "image/png"@,
            },
            bytes@,
        )),
{
    if bytes.len() == 0 || bytes.len() > MAX_THUMB_BYTES {
        return None;
    }
    proof {
        reveal_strlit("image/");
        reveal_strlit("image/png");
    }
    let mime = match content_type {
        Some(t) => if starts_with(&chars_of(t.as_str()), &chars_of("image/")) {
            t
        } else {
            String::from_str("image/png")
        },
        None => String::from_str("image/png"),
    };
    Some(data_url_of(mime.as_str(), bytes))
}

/// Where no media service is known: nothing plays.
pub fn now() -> (r: Result<Option<MediaNow>, String>)
    ensures
        r matches Ok(None),
{
    Ok(None)
}

/// Where no media service is known: a control does nothing.
pub fn control(action: MediaAction) -> (r: Result<bool, String>)
    ensures
        r == Ok::<bool, String>(false),
{
    Ok(false)
}

/// Where no media service is known: seeking does nothing.
pub fn seek(position_ms: u64) -> (r: Result<bool, String>)
    ensures
        r == Ok::<bool, String>(false),
{
    Ok(false)
}

/// Where no media service is known: there is no window to bring.
pub fn focus() -> (r: Result<bool, String>)
    ensures
        r == Ok::<bool, String>(false),
{
    Ok(false)
}

/// Where no media service is known: no executable plays.
pub fn source_exe() -> (r: Option<String>)
    ensures
        r is None,
{
    None
}

// ---------------------------------------------------------------------------
// The timeline of a media session
// ---------------------------------------------------------------------------

/// 100-nanosecond ticks in a millisecond.
pub const TICKS_PER_MS: i64 = 10_000;

/// Milliseconds from 1601-01-01 (where Windows counts from) to the Unix
/// epoch.
pub const WINDOWS_EPOCH_MS: i64 = 11_644_473_600_000;

/// Ticks to milliseconds, rounded toward zero (integer `/`).
pub open spec fn ticks_to_ms(t: int) -> int {
    if t >= 0 {
        t / 10_000
    } else {
        -((-t) / 10_000)
    }
}

/// A reading the session may not give: `0` when it gives none.
pub open spec fn or_zero(o: Option<i64>) -> int {
    match o {
        Some(v) => v as int,
        None => 0,
    }
}

/// `v` kept within `lo..=hi`.
pub open spec fn clamp_to(v: int, lo: int, hi: int) -> int {
    if v < lo {
        lo
    } else if v > hi {
        hi
    } else {
        v
    }
}

/// Where the track is, how long it lasts and when that was measured, from
/// the session's timeline in ticks (start, end, position, and the update
/// time counted from 1601): the position is measured from the start and
/// kept within the track; nothing of it when the track has no length; the
/// update time in Unix milliseconds, only when it is after 1970.
pub open spec fn timeline_of(start: Option<i64>, end: Option<i64>, pos: Option<i64>, updated: Option<i64>) -> (
    Option<int>,
    Option<int>,
    Option<int>,
) {
    let s = ticks_to_ms(or_zero(start));
    let d = ticks_to_ms(or_zero(end)) - s;
    if d > 0 {
        (
            Some(clamp_to(ticks_to_ms(or_zero(pos)) - s, 0, d)),
            Some(d),
            match updated {
                Some(u) => if ticks_to_ms(u as int) - WINDOWS_EPOCH_MS > 0 {
                    Some(ticks_to_ms(u as int) - WINDOWS_EPOCH_MS)
                } else {
                    None
                },
                None => None,
            },
        )
    } else {
        (None, None, None)
    }
}

fn ticks_ms(t: i64) -> (r: i64)
    ensures
        r == ticks_to_ms(t as int),
{
    let u: i128 = t as i128;
    let m: i128 = if u >= 0 {
        u / 10_000
    } else {
        -((-u) / 10_000)
    };
    m as i64
}

fn zero_if_none(o: Option<i64>) -> (r: i64)
    ensures
        r == or_zero(o),
{
    match o {
        Some(v) => v,
        None => 0,
    }
}

/// The position, length and measuring time of what plays, from the
/// session's timeline (see `timeline_of`).
pub fn timeline_times(start: Option<i64>, end: Option<i64>, pos: Option<i64>, updated: Option<i64>) -> (r: (
    Option<u64>,
    Option<u64>,
    Option<i64>,
))
    ensures
        ({
            let t = timeline_of(start, end, pos, updated);
            &&& (match r.0 {
                Some(v) => t.0 == Some(v as int),
                None => t.0 is None,
            })
            &&& (match r.1 {
                Some(v) => t.1 == Some(v as int),
                None => t.1 is None,
            })
            &&& (match r.2 {
                Some(v) => t.2 == Some(v as int),
                None => t.2 is None,
            })
        }),
{
    let s = ticks_ms(zero_if_none(start));
    let e = ticks_ms(zero_if_none(end));
    let p = ticks_ms(zero_if_none(pos));
    let d = e - s;
    if d <= 0 {
        return (None, None, None);
    }
    let from_start = p - s;
    let at: i64 = if from_start < 0 {
        0
    } else if from_start > d {
        d
    } else {
        from_start
    };
    let when: Option<i64> = match updated {
        Some(u) => {
            let ms = ticks_ms(u) - WINDOWS_EPOCH_MS;
            if ms > 0 {
                Some(ms)
            } else {
                None
            }
        },
        None => None,
    };
    (Some(at as u64), Some(d as u64), when)
}

/// May the interface seek? Only when the position is known and the player
/// allows it.
pub fn seekable(position_ms: Option<u64>, position_enabled: bool) -> (r: bool)
    ensures
        r == (position_ms is Some && position_enabled),
{
    position_ms.is_some() && position_enabled
}

/// `v` saturated to the range of `i64`.
pub open spec fn saturate_i64(v: int) -> int {
    clamp_to(v, i64::MIN as int, i64::MAX as int)
}

/// The tick a seek to `position_ms` asks for: the timeline's start (in
/// ticks, `0` when unknown) plus the position in ticks, both steps
/// saturating; the position is first read as an `i64` (`as i64`, so one
/// beyond `i64::MAX` wraps to a negative value).
pub open spec fn seek_ticks(start: Option<i64>, position_ms: u64) -> int {
    let p = if position_ms <= i64::MAX {
        position_ms as int
    } else {
        position_ms - 0x1_0000_0000_0000_0000
    };
    saturate_i64(or_zero(start) + saturate_i64(p * 10_000))
}

fn saturate(v: i128) -> (r: i64)
    ensures
        r == saturate_i64(v as int),
{
    if v < i64::MIN as i128 {
        i64::MIN
    } else if v > i64::MAX as i128 {
        i64::MAX
    } else {
        v as i64
    }
}

/// The tick a seek to `position_ms` asks for (see `seek_ticks`).
pub fn seek_target(start: Option<i64>, position_ms: u64) -> (r: i64)
    ensures
        r == seek_ticks(start, position_ms),
{
    let p: i128 = if position_ms <= i64::MAX as u64 {
        position_ms as i128
    } else {
        position_ms as i128 - 0x1_0000_0000_0000_0000i128
    };
    let ticks = saturate(p * 10_000);
    saturate(zero_if_none(start) as i128 + ticks as i128)
}

} // verus!
