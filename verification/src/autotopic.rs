//! The topic of the channel: what it says while the stream is live, what it
//! says about the next streams while it is not, and how the parts are put
//! together.

use crate::rpc::HeaderInfo;
use vstd::prelude::*;
use vstd::string::*;

verus! {

/// What has to be looked up before the topic can be written.
#[derive(Clone, Debug, PartialEq, Eq)]
pub enum Inquiry {
    /// The stream is live: the names of the game and of the show that the
    /// header names, the entry of the game in the show if it names both,
    /// and for how long the channel has been streaming.
    Live { game: Option<i32>, show: Option<i32>, entry: Option<(i32, i32)>, channel: String },
    /// The stream is not live: the streams that are scheduled next.
    Scheduled,
}

/// What has to be looked up for `header`.
pub open spec fn inquiry_of(header: HeaderInfo) -> Inquiry {
    if header.is_live {
        Inquiry::Live {
            game: match header.current_game {
                Some(game) => Some(game.id),
                None => None,
            },
            show: match header.current_show {
                Some(show) => Some(show.id),
                None => None,
            },
            entry: match (header.current_game, header.current_show) {
                (Some(game), Some(show)) => Some((game.id, show.id)),
                _ => None,
            },
            channel: header.channel,
        }
    } else {
        Inquiry::Scheduled
    }
}

/// Says what has to be looked up before the topic for `header` can be
/// written.
pub fn inquire(header: &HeaderInfo) -> (inquiry: Inquiry)
    ensures
        inquiry == inquiry_of(*header),
{
    if header.is_live {
        let game = match header.current_game {
            Some(game) => Some(game.id),
            None => None,
        };
        let show = match header.current_show {
            Some(show) => Some(show.id),
            None => None,
        };
        let entry = match (header.current_game, header.current_show) {
            (Some(game), Some(show)) => Some((game.id, show.id)),
            _ => None,
        };
        Inquiry::Live { game, show, entry, channel: header.channel.clone() }
    } else {
        Inquiry::Scheduled
    }
}

/// The name under which a game is announced: the one that its entry in the
/// show gives it, if it has one, else its own.
pub open spec fn announced_name(game: Seq<char>, display_name: Option<Seq<char>>) -> Seq<char> {
    match display_name {
        Some(name) => name,
        None => game,
    }
}

/// What the topic says about a live stream.
pub open spec fn now_live_text(
    game: Option<Seq<char>>,
    show: Option<Seq<char>>,
    display_name: Option<Seq<char>>,
) -> Seq<char> {
    match (game, show) {
        (Some(game), Some(show)) => "Now live: "@ + announced_name(game, display_name) + " on "@
            + show + "."@,
        (Some(game), None) => "Now live: "@ + announced_name(game, display_name) + "."@,
        (None, Some(show)) => "Now live: "@ + show + "."@,
        (None, None) => "Now live: something?"@,
    }
}

/// The text of a string that may be absent.
pub open spec fn text_of(string: Option<&String>) -> Option<Seq<char>> {
    match string {
        Some(s) => Some(s@),
        None => None,
    }
}

/// Says what is live: the game, under the name that its entry in the show
/// gives it if there is one, and the show, as far as they are known.
pub fn now_live(game: Option<&String>, show: Option<&String>, display_name: Option<&String>) -> (text:
    String)
    ensures
        text@ == now_live_text(text_of(game), text_of(show), text_of(display_name)),
{
    let mut text = "Now live: ".to_owned();
    match (game, show) {
        (Some(game), Some(show)) => {
            match display_name {
                Some(name) => text.append(name.as_str()),
                None => text.append(game.as_str()),
            }
            text.append(" on ");
            text.append(show.as_str());
            text.append(".");
        },
        (Some(game), None) => {
            match display_name {
                Some(name) => text.append(name.as_str()),
                None => text.append(game.as_str()),
            }
            text.append(".");
        },
        (None, Some(show)) => {
            text.append(show.as_str());
            text.append(".");
        },
        (None, None) => {
            proof {
                reveal_strlit("Now live: ");
                reveal_strlit("something?");
                reveal_strlit("Now live: something?");
            }
            text.append("something?");
            assert(text@ =~= "Now live: something?"@);
        },
    }
    text
}

/// What the topic says about how long the stream has been live.
pub open spec fn uptime_text(live_for: Option<Seq<char>>) -> Seq<char> {
    match live_for {
        Some(duration) => "The stream has been live for "@ + duration,
        None => "The stream is not live."@,
    }
}

/// Says for how long the stream has been live, given that time in words,
/// or that it is not live.
pub fn uptime_msg(live_for: Option<&String>) -> (text: String)
    ensures
        text@ == uptime_text(text_of(live_for)),
{
    match live_for {
        Some(duration) => {
            let mut text = "The stream has been live for ".to_owned();
            text.append(duration.as_str());
            text
        },
        None => "The stream is not live.".to_owned(),
    }
}

/// A point in time: the seconds since the start of 1970, and the
/// nanoseconds since the last whole second.
#[derive(Clone, Copy, Debug, PartialEq, Eq)]
pub struct Instant {
    pub seconds: i64,
    pub nanos: u32,
}

impl Instant {
    /// Whether this instant comes after `other`.
    pub open spec fn is_after(self, other: Instant) -> bool {
        self.seconds > other.seconds || (self.seconds == other.seconds && self.nanos > other.nanos)
    }

    /// Whether this instant comes after `other`.
    pub fn after(&self, other: &Instant) -> (later: bool)
        ensures
            later == self.is_after(*other),
    {
        self.seconds > other.seconds || (self.seconds == other.seconds && self.nanos > other.nanos)
    }
}

/// A scheduled stream: when it starts, what it is called, and what is said
/// about it.
#[derive(Clone, Debug, PartialEq, Eq)]
pub struct Event {
    pub start: Instant,
    pub summary: String,
    pub description: Option<String>,
}

/// The layout in which the start of a stream is written.
pub const START_FORMAT: &'static str = "%a %e %b at %I:%M %p %Z";

/// What the topic says about a scheduled stream, from its parts: whether
/// it starts after now, the time between now and its start in words, its
/// summary, its description, and its start as it is written in the zone.
pub open spec fn short_display_text(
    ahead: bool,
    distance: Seq<char>,
    summary: Seq<char>,
    description: Option<Seq<char>>,
    start: Seq<char>,
) -> Seq<char> {
    (if ahead {
        "In "@ + distance + ": "@
    } else {
        distance + " ago: "@
    }) + summary + (match description {
        Some(words) => " ("@ + words + ")"@,
        None => Seq::<char>::empty(),
    }) + " on "@ + start + "."@
}

/// The instant `seconds` and `nanos` after the start of 1970 as it is
/// written in the time zone named `zone` and laid out as `format` says,
/// where the instant is within what the calendar can hold, the zone is
/// known, and the layout is well formed.
pub uninterp spec fn formatted_in_zone(
    seconds: i64,
    nanos: u32,
    zone: Seq<char>,
    format: Seq<char>,
) -> Option<Seq<char>>;

/// Calls `chrono::DateTime::from_timestamp`, looks the zone up with
/// `chrono_tz::Tz::from_str` (through `str::parse`), moves the instant there
/// with `chrono::DateTime::with_timezone`, and writes it with
/// `chrono::DateTime::format`. The text depends on the four arguments
/// alone, since the zones are part of the library that is called; there is
/// none where the instant is out of range, the zone is unknown, or the
/// layout cannot be written.
#[verifier::external_body]
fn format_in_zone(seconds: i64, nanos: u32, zone: &str, format: &str) -> (text: Option<String>)
    ensures
        match text {
            Some(t) => formatted_in_zone(seconds, nanos, zone@, format@) == Some(t@),
            None => formatted_in_zone(seconds, nanos, zone@, format@) is None,
        },
{
    let instant = chrono::DateTime::from_timestamp(seconds, nanos)?;
    let zone: chrono_tz::Tz = zone.parse().ok()?;
    let mut text = String::new();
    instant.with_timezone(&zone).format(format).write_to(&mut text).ok()?;
    Some(text)
}

/// What the topic says about `event`, given its start as it is written in
/// the zone.
pub fn short_display_at(
    event: &Event,
    now: &Instant,
    distance: &String,
    description: Option<&String>,
    start: &String,
) -> (text: String)
    ensures
        text@ == short_display_text(
            event.start.is_after(*now),
            distance@,
            event.summary@,
            text_of(description),
            start@,
        ),
{
    let mut text = String::new();
    if event.start.after(now) {
        text.append("In ");
        text.append(distance.as_str());
        text.append(": ");
    } else {
        text.append(distance.as_str());
        text.append(" ago: ");
    }
    text.append(event.summary.as_str());
    match description {
        Some(words) => {
            text.append(" (");
            text.append(words.as_str());
            text.append(")");
        },
        None => {},
    }
    text.append(" on ");
    text.append(start.as_str());
    text.append(".");
    assert(text@ =~= short_display_text(
        event.start.is_after(*now),
        distance@,
        event.summary@,
        text_of(description),
        start@,
    ));
    text
}

/// Says when a scheduled stream starts or started, as seen from `now`:
/// "In" and the time until its start, or the time since its start and
/// "ago"; its summary; its description, as `description` words it, in
/// brackets if it has one; and its start as written in the time zone
/// `zone`. `distance` is the time between now and the start in words.
/// Nothing can be said where the start cannot be written in that zone.
pub fn short_display(
    event: &Event,
    now: &Instant,
    zone: &String,
    distance: &String,
    description: Option<&String>,
) -> (text: Option<String>)
    ensures
        match text {
            Some(t) => formatted_in_zone(
                event.start.seconds,
                event.start.nanos,
                zone@,
                START_FORMAT@,
            ) matches Some(start) && t@ == short_display_text(
                event.start.is_after(*now),
                distance@,
                event.summary@,
                text_of(description),
                start,
            ),
            None => formatted_in_zone(
                event.start.seconds,
                event.start.nanos,
                zone@,
                START_FORMAT@,
            ) is None,
        },
{
    match format_in_zone(event.start.seconds, event.start.nanos, zone.as_str(), START_FORMAT) {
        Some(start) => Some(short_display_at(event, now, distance, description, &start)),
        None => None,
    }
}

/// The first `n` of `messages`, with a space between each two.
pub open spec fn joined(messages: Seq<Seq<char>>, n: int) -> Seq<char>
    decreases n,
{
    if n <= 0 {
        Seq::empty()
    } else if n == 1 {
        messages[0]
    } else {
        joined(messages, n - 1) + " "@ + messages[n - 1]
    }
}

/// The texts of `messages`.
pub open spec fn texts_of(messages: Seq<String>) -> Seq<Seq<char>> {
    Seq::new(messages.len(), |i: int| messages[i]@)
}

/// The parts of the topic: what is said about the stream, then the advice
/// of the header if it gives one.
pub open spec fn parts_of(messages: Seq<Seq<char>>, advice: Option<Seq<char>>) -> Seq<Seq<char>> {
    match advice {
        Some(words) => messages.push(words),
        None => messages,
    }
}

/// The topic made of `messages` and `advice`.
pub open spec fn topic_text(messages: Seq<Seq<char>>, advice: Option<Seq<char>>) -> Seq<char> {
    joined(parts_of(messages, advice), parts_of(messages, advice).len() as int)
}

/// Puts the topic together: what is said about the stream, then the advice
/// of the header if it gives one, with a space between each two parts.
pub fn topic(messages: &Vec<String>, advice: Option<&String>) -> (text: String)
    ensures
        text@ == topic_text(texts_of(messages@), text_of(advice)),
{
    let ghost parts = parts_of(texts_of(messages@), text_of(advice));
    let mut text = String::new();
    let mut i: usize = 0;
    while i < messages.len()
        invariant
            i <= messages@.len(),
            text@ == joined(texts_of(messages@), i as int),
        decreases messages.len() - i,
    {
        if i > 0 {
            text.append(" ");
        }
        text.append(messages[i].as_str());
        proof {
            if i == 0 {
                assert(text@ =~= messages@[0]@);
            }
        }
        i += 1;
    }
    proof {
        lemma_joined_prefix(texts_of(messages@), parts, messages@.len() as int);
    }
    match advice {
        Some(words) => {
            if messages.len() > 0 {
                text.append(" ");
            }
            text.append(words.as_str());
            proof {
                if messages@.len() == 0 {
                    assert(text@ =~= words@);
                }
            }
        },
        None => {},
    }
    text
}

/// What the first `n` messages join to depends on these `n` alone.
proof fn lemma_joined_prefix(short: Seq<Seq<char>>, long: Seq<Seq<char>>, n: int)
    requires
        0 <= n <= short.len() <= long.len(),
        forall|i: int| 0 <= i < short.len() ==> short[i] == long[i],
    ensures
        joined(short, n) == joined(long, n),
    decreases n,
{
    if n > 1 {
        lemma_joined_prefix(short, long, n - 1);
    }
}

} // verus!
