use vstd::prelude::*;

verus! {

/// Smallest accepted refresh interval, in milliseconds.
pub const MIN_UPDATE_MS: u64 = 100;

/// Largest accepted refresh interval, in milliseconds.
pub const MAX_UPDATE_MS: u64 = 60_000;

/// Step of the refresh-interval control, in milliseconds.
pub const UPDATE_STEP_MS: u64 = 100;

/// Number of selectable timeframes; `Timeframe::index` ranges below it.
pub const TIMEFRAME_COUNT: usize = 7;

/// Labels of the timeframes, in the order of `Timeframe::index`.
pub const TIMEFRAME_LABELS: [&'static str; 7] = ["1 min", "5 min", "15 min", "30 min", "1 h", "4 h", "1 dia"];

/// Candle interval requested from the exchange.
#[derive(Clone, Copy, Debug, Eq, Hash, PartialEq, Structural)]
pub enum Timeframe {
    M1,
    M5,
    M15,
    M30,
    H1,
    H4,
    D1,
}

/// The exchange's name for each interval.
pub open spec fn binance_interval(t: Timeframe) -> Seq<char> {
    match t {
        Timeframe::M1 => "1m"@,
        Timeframe::M5 => "5m"@,
        Timeframe::M15 => "15m"@,
        Timeframe::M30 => "30m"@,
        Timeframe::H1 => "1h"@,
        Timeframe::H4 => "4h"@,
        Timeframe::D1 => "1d"@,
    }
}

/// Position of each interval in the selection list.
pub open spec fn timeframe_index(t: Timeframe) -> nat {
    match t {
        Timeframe::M1 => 0,
        Timeframe::M5 => 1,
        Timeframe::M15 => 2,
        Timeframe::M30 => 3,
        Timeframe::H1 => 4,
        Timeframe::H4 => 5,
        Timeframe::D1 => 6,
    }
}

/// The interval at a list position; positions outside the list, and position 4,
/// select one hour.
pub open spec fn timeframe_at(index: int) -> Timeframe {
    if index == 0 {
        Timeframe::M1
    } else if index == 1 {
        Timeframe::M5
    } else if index == 2 {
        Timeframe::M15
    } else if index == 3 {
        Timeframe::M30
    } else if index == 5 {
        Timeframe::H4
    } else if index == 6 {
        Timeframe::D1
    } else {
        Timeframe::H1
    }
}

impl Default for Timeframe {
    fn default() -> (t: Self)
        ensures
            t == Timeframe::H1,
    {
        Timeframe::H1
    }
}

impl Timeframe {
    pub fn as_binance(self) -> (name: &'static str)
        ensures
            name@ == binance_interval(self),
    {
        match self {
            Timeframe::M1 => "1m",
            Timeframe::M5 => "5m",
            Timeframe::M15 => "15m",
            Timeframe::M30 => "30m",
            Timeframe::H1 => "1h",
            Timeframe::H4 => "4h",
            Timeframe::D1 => "1d",
        }
    }

    pub fn index(self) -> (index: usize)
        ensures
            index == timeframe_index(self),
            index < TIMEFRAME_COUNT,
            spec_abbreviation(TIMEFRAME_LABELS@[index as int]@) == binance_interval(self),
    {
        proof {
            lemma_label_names_interval(self);
        }
        match self {
            Timeframe::M1 => 0,
            Timeframe::M5 => 1,
            Timeframe::M15 => 2,
            Timeframe::M30 => 3,
            Timeframe::H1 => 4,
            Timeframe::H4 => 5,
            Timeframe::D1 => 6,
        }
    }

    pub fn from_index(index: usize) -> (t: Self)
        ensures
            t == timeframe_at(index as int),
            index < TIMEFRAME_COUNT ==> spec_abbreviation(TIMEFRAME_LABELS@[index as int]@)
                == binance_interval(t),
    {
        proof {
            lemma_label_names_interval(timeframe_at(index as int));
        }
        match index {
            0 => Timeframe::M1,
            1 => Timeframe::M5,
            2 => Timeframe::M15,
            3 => Timeframe::M30,
            5 => Timeframe::H4,
            6 => Timeframe::D1,
            _ => Timeframe::H1,
        }
    }
}

/// Every interval survives the trip through its list position.
pub proof fn lemma_timeframe_index_roundtrip(t: Timeframe)
    ensures
        timeframe_at(timeframe_index(t) as int) == t,
        timeframe_index(t) < TIMEFRAME_COUNT,
{
}

/// Every list position survives the trip through its interval.
pub proof fn lemma_index_timeframe_roundtrip(index: int)
    requires
        0 <= index < TIMEFRAME_COUNT,
    ensures
        timeframe_index(timeframe_at(index)) == index,
{
}

/// The exchange's short name for an interval written out in a label: the
/// number before the space, then the first letter of the unit ("15 min" is
/// "15m", "4 h" is "4h", "1 dia" is "1d").
pub open spec fn spec_abbreviation(label: Seq<char>) -> Seq<char>
    decreases label.len(),
{
    if label.len() == 0 {
        Seq::empty()
    } else if label[0] == ' ' {
        if label.len() > 1 {
            seq![label[1]]
        } else {
            Seq::empty()
        }
    } else {
        seq![label[0]] + spec_abbreviation(label.drop_first())
    }
}

/// The label shown at an interval's list position names that interval: it
/// abbreviates to the exchange's name of the interval.
pub proof fn lemma_label_names_interval(t: Timeframe)
    ensures
        timeframe_index(t) < TIMEFRAME_COUNT,
        spec_abbreviation(TIMEFRAME_LABELS@[timeframe_index(t) as int]@) == binance_interval(t),
{
    reveal_strlit("1 min");
    reveal_strlit("5 min");
    reveal_strlit("15 min");
    reveal_strlit("30 min");
    reveal_strlit("1 h");
    reveal_strlit("4 h");
    reveal_strlit("1 dia");
    reveal_strlit("1m");
    reveal_strlit("5m");
    reveal_strlit("15m");
    reveal_strlit("30m");
    reveal_strlit("1h");
    reveal_strlit("4h");
    reveal_strlit("1d");
    reveal_with_fuel(spec_abbreviation, 8);
    let label = TIMEFRAME_LABELS@[timeframe_index(t) as int]@;
    match t {
        Timeframe::M1 => {
            assert(label == "1 min"@);
            assert(spec_abbreviation(label) =~= "1m"@);
        },
        Timeframe::M5 => {
            assert(label == "5 min"@);
            assert(spec_abbreviation(label) =~= "5m"@);
        },
        Timeframe::M15 => {
            assert(label == "15 min"@);
            assert(spec_abbreviation(label) =~= "15m"@);
        },
        Timeframe::M30 => {
            assert(label == "30 min"@);
            assert(spec_abbreviation(label) =~= "30m"@);
        },
        Timeframe::H1 => {
            assert(label == "1 h"@);
            assert(spec_abbreviation(label) =~= "1h"@);
        },
        Timeframe::H4 => {
            assert(label == "4 h"@);
            assert(spec_abbreviation(label) =~= "4h"@);
        },
        Timeframe::D1 => {
            assert(label == "1 dia"@);
            assert(spec_abbreviation(label) =~= "1d"@);
        },
    }
}

/// User preferences of the applet.
#[derive(Clone, Copy, Debug, Eq, Hash, PartialEq, Structural)]
pub struct Settings {
    pub update_interval_ms: u64,
    pub timeframe: Timeframe,
    pub show_change_percent: bool,
}

/// The preferences used when none are stored.
pub open spec fn default_settings() -> Settings {
    Settings { update_interval_ms: 1_000, timeframe: Timeframe::H1, show_change_percent: false }
}

/// Whether a refresh interval lies in the accepted range.
pub open spec fn interval_in_range(ms: u64) -> bool {
    MIN_UPDATE_MS <= ms <= MAX_UPDATE_MS
}

impl Default for Settings {
    fn default() -> (s: Self)
        ensures
            s == default_settings(),
    {
        Settings { update_interval_ms: 1_000, timeframe: Timeframe::H1, show_change_percent: false }
    }
}

impl Settings {
    /// Chooses the preferences to start with, given what was read back from storage
    /// (`None` when nothing could be read or decoded): stored preferences whose
    /// interval is out of range are replaced by the defaults.
    pub fn from_stored(stored: Option<Settings>) -> (s: Settings)
        ensures
            s == (match stored {
                Some(t) => if interval_in_range(t.update_interval_ms) {
                    t
                } else {
                    default_settings()
                },
                None => default_settings(),
            }),
            interval_in_range(s.update_interval_ms),
    {
        match stored {
            Some(t) => {
                if MIN_UPDATE_MS <= t.update_interval_ms && t.update_interval_ms <= MAX_UPDATE_MS {
                    t
                } else {
                    Settings::default()
                }
            },
            None => Settings::default(),
        }
    }
}

/// Preferences being edited, before they are validated.
#[derive(Clone, Copy, Debug, Eq, PartialEq, Structural)]
pub struct DraftSettings {
    pub update_interval_ms: u64,
    pub timeframe_index: usize,
    pub show_change_percent: bool,
}

/// The draft that starts an edit of `s`.
pub open spec fn draft_of(s: Settings) -> DraftSettings {
    DraftSettings {
        update_interval_ms: s.update_interval_ms,
        timeframe_index: timeframe_index(s.timeframe) as usize,
        show_change_percent: s.show_change_percent,
    }
}

/// The message shown when a draft's interval is out of range.
pub open spec fn interval_error_message() -> Seq<char> {
    "Use um intervalo entre 100 e 60000 ms."@
}

/// The outcome of validating a draft.
pub open spec fn parse_draft(d: DraftSettings) -> Result<Settings, Seq<char>> {
    if interval_in_range(d.update_interval_ms) {
        Ok(
            Settings {
                update_interval_ms: d.update_interval_ms,
                timeframe: timeframe_at(d.timeframe_index as int),
                show_change_percent: d.show_change_percent,
            },
        )
    } else {
        Err(interval_error_message())
    }
}

impl vstd::std_specs::convert::FromSpecImpl<Settings> for DraftSettings {
    open spec fn obeys_from_spec() -> bool {
        true
    }

    open spec fn from_spec(v: Settings) -> DraftSettings {
        draft_of(v)
    }
}

impl From<Settings> for DraftSettings {
    fn from(settings: Settings) -> (d: Self) {
        DraftSettings {
            update_interval_ms: settings.update_interval_ms,
            timeframe_index: settings.timeframe.index(),
            show_change_percent: settings.show_change_percent,
        }
    }
}

impl DraftSettings {
    /// Validates the draft: `Ok` with the edited preferences exactly when the
    /// interval lies in `MIN_UPDATE_MS..=MAX_UPDATE_MS`, else the range message.
    pub fn parse(self) -> (r: Result<Settings, String>)
        ensures
            r is Ok <==> interval_in_range(self.update_interval_ms),
            r matches Ok(s) ==> parse_draft(self) == Ok::<Settings, Seq<char>>(s),
            r matches Err(msg) ==> parse_draft(self) == Err::<Settings, Seq<char>>(msg@),
    {
        if !(MIN_UPDATE_MS <= self.update_interval_ms && self.update_interval_ms <= MAX_UPDATE_MS) {
            return Err("Use um intervalo entre 100 e 60000 ms.".to_string());
        }
        Ok(
            Settings {
                update_interval_ms: self.update_interval_ms,
                timeframe: Timeframe::from_index(self.timeframe_index),
                show_change_percent: self.show_change_percent,
            },
        )
    }
}

/// A validated draft keeps what was edited, and editing valid preferences and
/// saving them without change gives them back.
pub proof fn lemma_draft_roundtrip(s: Settings)
    requires
        interval_in_range(s.update_interval_ms),
    ensures
        parse_draft(draft_of(s)) == Ok::<Settings, Seq<char>>(s),
{
}

} // verus!
