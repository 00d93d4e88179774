//! Which open window is a meeting, and when the interface is told.

use vstd::prelude::*;

use crate::search::{file_name, file_name_of};
use crate::text::{
    ascii_lowercase, ascii_lowered, chars_of, contains, contains_one_of, has_infix,
    lowercase_chars, same_chars, string_of, take_chars, unicode_lowercase,
};

verus! {

/// Longest meeting title kept, in characters.
pub const TITLE_CHARS: usize = 180;

/// A meeting in progress: its provider and its window's title.
pub struct MeetingInfo {
    pub provider: String,
    pub title: String,
}

/// One visible window: the executable that owns it and its title.
pub struct WindowInfo {
    pub process: String,
    pub title: String,
}

/// What the interface is told.
pub struct MeetingDetectionPayload {
    pub active: bool,
    pub provider: Option<String>,
    pub title: Option<String>,
}

/// Some of the words occurs in the text.
pub open spec fn any_word(text: Seq<char>, words: Seq<Seq<char>>) -> bool {
    exists|k: int| 0 <= k < words.len() && has_infix(text, #[trigger] words[k])
}

/// The meeting provider a window belongs to, from its executable (ASCII
/// lower case) and its title (Unicode lower case): Zoom, Microsoft Teams,
/// Google Meet or Webex, checked in that order.
pub open spec fn provider_of(process: Seq<char>, title: Seq<char>) -> Option<Seq<char>> {
    let p = ascii_lowered(process);
    let t = unicode_lowercase(title);
    if (p == "zoom.exe"@ || p == "zoom"@) && (has_infix(t, "zoom meeting"@) || has_infix(
        t,
        "reunión de zoom"@,
    ) || has_infix(t, "zoom reunión"@)) {
        Some("Zoom"@)
    } else if (has_infix(p, "teams"@) && any_word(
        t,
        seq!["meeting"@, "reunión"@, "llamada"@, "call"@],
    )) || has_infix(t, "microsoft teams meeting"@) {
        Some("Microsoft Teams"@)
    } else if has_infix(t, "google meet"@) || has_infix(t, "meet.google.com"@) {
        Some("Google Meet"@)
    } else if has_infix(p, "webex"@) && any_word(t, seq!["meeting"@, "reunión"@, "webinar"@]) {
        Some("Webex"@)
    } else {
        None
    }
}

/// The title a meeting keeps: its first `TITLE_CHARS` characters.
pub open spec fn kept_title(title: Seq<char>) -> Seq<char> {
    if title.len() <= TITLE_CHARS {
        title
    } else {
        title.take(TITLE_CHARS as int)
    }
}

/// Is this window a meeting, and of which provider?
pub fn classify_window(process: &str, title: &str) -> (r: Option<MeetingInfo>)
    ensures
        match provider_of(process@, title@) {
            Some(p) => r matches Some(m) && m.provider@ == p && m.title@ == kept_title(title@),
            None => r is None,
        },
{
    let p = ascii_lowercase(&chars_of(process));
    let t = lowercase_chars(title);
    let zoom = (same_chars(&p, &chars_of("zoom.exe")) || same_chars(&p, &chars_of("zoom")))
        && (contains(&t, &chars_of("zoom meeting")) || contains(&t, &chars_of("reunión de zoom"))
        || contains(&t, &chars_of("zoom reunión")));
    let provider: &str = if zoom {
        "Zoom"
    } else {
        let teams_words: [&str; 4] = ["meeting", "reunión", "llamada", "call"];
        let teams = (contains(&p, &chars_of("teams")) && contains_one_of(&t, &teams_words))
            || contains(&t, &chars_of("microsoft teams meeting"));
        proof {
            assert(teams_words@.map_values(|w: &str| w@) =~= seq![
                "meeting"@,
                "reunión"@,
                "llamada"@,
                "call"@,
            ]);
            assert((exists|k: int| 0 <= k < teams_words@.len() && has_infix(t@, #[trigger] teams_words@[k]@))
                == any_word(t@, seq!["meeting"@, "reunión"@, "llamada"@, "call"@])) by {
                let ws = seq!["meeting"@, "reunión"@, "llamada"@, "call"@];
                if exists|k: int| 0 <= k < teams_words@.len() && has_infix(t@, #[trigger] teams_words@[k]@) {
                    let k = choose|k: int| 0 <= k < teams_words@.len() && has_infix(t@, #[trigger] teams_words@[k]@);
                    assert(ws[k] == teams_words@[k]@);
                }
                if any_word(t@, ws) {
                    let k = choose|k: int| 0 <= k < ws.len() && has_infix(t@, #[trigger] ws[k]);
                    assert(ws[k] == teams_words@[k]@);
                }
            }
        }
        if teams {
            "Microsoft Teams"
        } else if contains(&t, &chars_of("google meet")) || contains(&t, &chars_of("meet.google.com")) {
            "Google Meet"
        } else {
            let webex_words: [&str; 3] = ["meeting", "reunión", "webinar"];
            let webex = contains(&p, &chars_of("webex")) && contains_one_of(&t, &webex_words);
            proof {
                let ws = seq!["meeting"@, "reunión"@, "webinar"@];
                assert((exists|k: int| 0 <= k < webex_words@.len() && has_infix(t@, #[trigger] webex_words@[k]@))
                    == any_word(t@, ws)) by {
                    if exists|k: int| 0 <= k < webex_words@.len() && has_infix(t@, #[trigger] webex_words@[k]@) {
                        let k = choose|k: int| 0 <= k < webex_words@.len() && has_infix(t@, #[trigger] webex_words@[k]@);
                        assert(ws[k] == webex_words@[k]@);
                    }
                    if any_word(t@, ws) {
                        let k = choose|k: int| 0 <= k < ws.len() && has_infix(t@, #[trigger] ws[k]);
                        assert(ws[k] == webex_words@[k]@);
                    }
                }
            }
            if webex {
                "Webex"
            } else {
                return None;
            }
        }
    };
    let kept = take_chars(&chars_of(title), TITLE_CHARS);
    Some(MeetingInfo { provider: String::from_str(provider), title: string_of(&kept) })
}

/// The first window that is a meeting, in window order.
pub open spec fn first_meeting(windows: Seq<WindowInfo>) -> Option<int>
    decreases windows.len(),
{
    if windows.len() == 0 {
        None
    } else {
        match first_meeting(windows.drop_last()) {
            Some(i) => Some(i),
            None => if provider_of(windows.last().process@, windows.last().title@) is Some {
                Some(windows.len() - 1)
            } else {
                None
            },
        }
    }
}

proof fn lemma_first_meeting_found(windows: Seq<WindowInfo>, i: int)
    requires
        0 <= i < windows.len(),
        provider_of(windows[i].process@, windows[i].title@) is Some,
        forall|k: int| 0 <= k < i ==> provider_of((#[trigger] windows[k]).process@, windows[k].title@) is None,
    ensures
        first_meeting(windows) == Some(i),
    decreases windows.len(),
{
    if i < windows.len() - 1 {
        lemma_first_meeting_found(windows.drop_last(), i);
    } else {
        lemma_first_meeting_none(windows.drop_last());
    }
}

proof fn lemma_first_meeting_none(windows: Seq<WindowInfo>)
    requires
        forall|k: int| 0 <= k < windows.len() ==> provider_of((#[trigger] windows[k]).process@, windows[k].title@) is None,
    ensures
        first_meeting(windows) is None,
    decreases windows.len(),
{
    if windows.len() > 0 {
        lemma_first_meeting_none(windows.drop_last());
    }
}

/// The meeting among the visible windows: the first window that is one.
pub fn detect_meeting(windows: &Vec<WindowInfo>) -> (r: Option<MeetingInfo>)
    ensures
        match first_meeting(windows@) {
            Some(i) => r matches Some(m) && Some(m.provider@) == provider_of(
                windows@[i].process@,
                windows@[i].title@,
            ) && m.title@ == kept_title(windows@[i].title@),
            None => r is None,
        },
{
    let mut i: usize = 0;
    while i < windows.len()
        invariant
            i <= windows@.len(),
            forall|k: int| 0 <= k < i ==> provider_of((#[trigger] windows@[k]).process@, windows@[k].title@) is None,
        decreases windows@.len() - i,
    {
        match classify_window(windows[i].process.as_str(), windows[i].title.as_str()) {
            Some(m) => {
                proof {
                    lemma_first_meeting_found(windows@, i as int);
                }
                return Some(m);
            },
            None => {},
        }
        i += 1;
    }
    proof {
        lemma_first_meeting_none(windows@);
    }
    None
}

/// The process name of a window: the file of its executable's path.
pub fn process_name(path: &str) -> (r: String)
    ensures
        r@ == file_name(path@),
{
    string_of(&file_name_of(path))
}

/// Two detections are the same meeting.
pub open spec fn same_meeting(a: Option<MeetingInfo>, b: Option<MeetingInfo>) -> bool {
    match (a, b) {
        (None, None) => true,
        (Some(x), Some(y)) => x.provider@ == y.provider@ && x.title@ == y.title@,
        _ => false,
    }
}

/// What to tell the interface when the detection changes: the meeting, or
/// that there is none; nothing when it is the same as before.
pub fn detection_change(previous: &Option<MeetingInfo>, current: &Option<MeetingInfo>) -> (r: Option<
    MeetingDetectionPayload,
>)
    ensures
        same_meeting(*previous, *current) ==> r is None,
        !same_meeting(*previous, *current) ==> (r matches Some(p) && match *current {
            Some(m) => p.active && (p.provider matches Some(x) && x@ == m.provider@) && (p.title matches Some(
                y,
            ) && y@ == m.title@),
            None => !p.active && p.provider is None && p.title is None,
        }),
{
    let same = match (previous, current) {
        (None, None) => true,
        (Some(x), Some(y)) => same_chars(&chars_of(x.provider.as_str()), &chars_of(y.provider.as_str()))
            && same_chars(&chars_of(x.title.as_str()), &chars_of(y.title.as_str())),
        _ => false,
    };
    if same {
        return None;
    }
    match current {
        Some(m) => Some(
            MeetingDetectionPayload {
                active: true,
                provider: Some(m.provider.clone()),
                title: Some(m.title.clone()),
            },
        ),
        None => Some(MeetingDetectionPayload { active: false, provider: None, title: None }),
    }
}

} // verus!
