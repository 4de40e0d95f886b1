//! The preferences editor of the applet: the saved preferences, the draft being
//! edited and the message shown when the draft cannot be saved.
use vstd::prelude::*;

use crate::settings::{draft_of, parse_draft, DraftSettings, Settings};
use vstd::string::{StrSliceExecFns, StringExecFns};

verus! {

/// Start of the message shown when the preferences could not be written.
pub const SAVE_FAILED_PREFIX: &'static str = "Não foi possível salvar: ";

/// Whether a character is an ASCII decimal digit.
pub open spec fn spec_is_digit(c: char) -> bool {
    '0' <= c <= '9'
}

/// The number that a run of decimal digits writes.
pub open spec fn spec_digits_value(s: Seq<char>) -> nat
    decreases s.len(),
{
    if s.len() == 0 {
        0
    } else {
        spec_digits_value(s.drop_last()) * 10 + ((s.last() as nat) - ('0' as nat)) as nat
    }
}

/// Text without its leading spaces.
pub open spec fn spec_trim_start(s: Seq<char>) -> Seq<char>
    decreases s.len(),
{
    if s.len() > 0 && s[0] == ' ' {
        spec_trim_start(s.drop_first())
    } else {
        s
    }
}

/// Text without its trailing spaces.
pub open spec fn spec_trim_end(s: Seq<char>) -> Seq<char>
    decreases s.len(),
{
    if s.len() > 0 && s.last() == ' ' {
        spec_trim_end(s.drop_last())
    } else {
        s
    }
}

/// The whole number of milliseconds that text typed in the interval field
/// reads as: surrounding spaces aside, a non-empty run of decimal digits whose
/// value fits in 64 bits.
pub open spec fn spec_interval_text(text: Seq<char>) -> Option<u64> {
    let t = spec_trim_end(spec_trim_start(text));
    if t.len() > 0 && (forall|i: int| 0 <= i < t.len() ==> spec_is_digit(#[trigger] t[i]))
        && spec_digits_value(t) <= u64::MAX {
        Some(spec_digits_value(t) as u64)
    } else {
        None
    }
}

proof fn lemma_trim_start_skip(s: Seq<char>, i: int)
    requires
        0 <= i <= s.len(),
        forall|k: int| 0 <= k < i ==> s[k] == ' ',
    ensures
        spec_trim_start(s) == spec_trim_start(s.subrange(i, s.len() as int)),
    decreases i,
{
    if i > 0 {
        assert(s.drop_first() =~= s.subrange(1, s.len() as int));
        lemma_trim_start_skip(s.drop_first(), i - 1);
        assert(s.drop_first().subrange(i - 1, s.drop_first().len() as int) =~= s.subrange(
            i,
            s.len() as int,
        ));
    } else {
        assert(s.subrange(0, s.len() as int) =~= s);
    }
}

proof fn lemma_trim_end_skip(s: Seq<char>, j: int)
    requires
        0 <= j <= s.len(),
        forall|k: int| j <= k < s.len() ==> s[k] == ' ',
    ensures
        spec_trim_end(s) == spec_trim_end(s.subrange(0, j)),
    decreases s.len() - j,
{
    if j < s.len() {
        lemma_trim_end_skip(s.drop_last(), j);
        assert(s.drop_last().subrange(0, j) =~= s.subrange(0, j));
    } else {
        assert(s.subrange(0, j) =~= s);
    }
}

proof fn lemma_digits_value_grows(s: Seq<char>, m: int)
    requires
        0 <= m <= s.len(),
    ensures
        spec_digits_value(s.take(m)) <= spec_digits_value(s),
    decreases s.len(),
{
    if m < s.len() {
        lemma_digits_value_grows(s.drop_last(), m);
        assert(s.drop_last().take(m) =~= s.take(m));
    } else {
        assert(s.take(m) =~= s);
    }
}

/// Reads the text typed in the interval field (`spec_interval_text`).
pub fn interval_from_text(text: &str) -> (r: Option<u64>)
    ensures
        r == spec_interval_text(text@),
{
    let len = text.unicode_len();
    let ghost s = text@;
    let mut i: usize = 0;
    while i < len && text.get_char(i) == ' '
        invariant
            len == s.len(),
            s == text@,
            i <= len,
            forall|k: int| 0 <= k < i ==> s[k] == ' ',
        decreases len - i,
    {
        i += 1;
    }
    proof {
        lemma_trim_start_skip(s, i as int);
    }
    let ghost rest = s.subrange(i as int, len as int);
    assert(spec_trim_start(s) == rest) by {
        if rest.len() > 0 {
            assert(rest[0] == s[i as int]);
        }
    }
    let mut j: usize = len;
    while j > i && text.get_char(j - 1) == ' '
        invariant
            len == s.len(),
            s == text@,
            i <= j <= len,
            forall|k: int| j <= k < len ==> s[k] == ' ',
        decreases j - i,
    {
        j -= 1;
    }
    let ghost t = s.subrange(i as int, j as int);
    proof {
        lemma_trim_end_skip(rest, j - i);
        assert(rest.subrange(0, j - i) =~= t);
        if t.len() > 0 {
            assert(t.last() == s[j - 1]);
        }
        assert(spec_trim_end(t) == t);
    }
    assert(spec_trim_end(spec_trim_start(s)) == t);
    if i == j {
        return None;
    }
    let mut value: u64 = 0;
    let mut k: usize = i;
    while k < j
        invariant
            len == s.len(),
            s == text@,
            i <= k <= j <= len,
            t == s.subrange(i as int, j as int),
            spec_trim_end(spec_trim_start(s)) == t,
            forall|m: int| 0 <= m < k - i ==> spec_is_digit(#[trigger] t[m]),
            value == spec_digits_value(t.take(k - i)),
        decreases j - k,
    {
        let c = text.get_char(k);
        if !('0' <= c && c <= '9') {
            proof {
                assert(t[k - i] == c);
                assert(!spec_is_digit(t[k - i]));
            }
            return None;
        }
        let digit: u64 = (c as u32 - '0' as u32) as u64;
        proof {
            assert(t.take(k - i + 1).drop_last() =~= t.take(k - i));
            assert(t.take(k - i + 1).last() == c);
        }
        let next = match value.checked_mul(10) {
            Some(v) => v.checked_add(digit),
            None => None,
        };
        match next {
            Some(v) => {
                value = v;
            },
            None => {
                proof {
                    lemma_digits_value_grows(t, k - i + 1);
                    assert(spec_digits_value(t.take(k - i + 1)) == value * 10 + digit);
                    assert(spec_digits_value(t) > u64::MAX);
                }
                return None;
            },
        }
        k += 1;
    }
    proof {
        assert(t.take(j - i) =~= t);
    }
    Some(value)
}

/// The state of the preferences editor.
pub struct Preferences {
    pub settings: Settings,
    pub draft: DraftSettings,
    pub validation_error: Option<String>,
}

impl Preferences {
    /// An editor over `settings`, with a draft of them and no message.
    pub fn new(settings: Settings) -> (p: Preferences)
        ensures
            p.settings == settings,
            p.draft == draft_of(settings),
            p.validation_error is None,
    {
        Preferences { settings, draft: DraftSettings::from(settings), validation_error: None }
    }

    /// The draft starts over from the saved preferences and the message goes;
    /// done when the editor opens, closes or is discarded.
    pub fn reset_draft(&mut self)
        ensures
            final(self).settings == old(self).settings,
            final(self).draft == draft_of(old(self).settings),
            final(self).validation_error is None,
    {
        self.draft = DraftSettings::from(self.settings);
        self.validation_error = None;
    }

    /// A new refresh interval was entered; the message goes.
    pub fn set_update_interval(&mut self, update_interval_ms: u64)
        ensures
            final(self).settings == old(self).settings,
            final(self).draft == (DraftSettings { update_interval_ms, ..old(self).draft }),
            final(self).validation_error is None,
    {
        self.draft.update_interval_ms = update_interval_ms;
        self.validation_error = None;
    }

    /// Text was typed in the interval field: the draft takes the number it
    /// reads as (`spec_interval_text`), and text that reads as no whole number
    /// of milliseconds counts as 0, outside the accepted range, so that saving
    /// it shows the range message; the message goes.
    pub fn set_interval_text(&mut self, text: &str)
        ensures
            final(self).settings == old(self).settings,
            final(self).draft == (DraftSettings {
                update_interval_ms: match spec_interval_text(text@) {
                    Some(ms) => ms,
                    None => 0,
                },
                ..old(self).draft
            }),
            final(self).validation_error is None,
    {
        let ms = match interval_from_text(text) {
            Some(ms) => ms,
            None => 0,
        };
        self.set_update_interval(ms);
    }

    /// A timeframe was picked from the list; the message goes.
    pub fn select_timeframe(&mut self, timeframe_index: usize)
        ensures
            final(self).settings == old(self).settings,
            final(self).draft == (DraftSettings { timeframe_index, ..old(self).draft }),
            final(self).validation_error is None,
    {
        self.draft.timeframe_index = timeframe_index;
        self.validation_error = None;
    }

    /// The change display was switched; the message stays.
    pub fn set_show_change(&mut self, show_change_percent: bool)
        ensures
            final(self).settings == old(self).settings,
            final(self).draft == (DraftSettings { show_change_percent, ..old(self).draft }),
            final(self).validation_error == old(self).validation_error,
    {
        self.draft.show_change_percent = show_change_percent;
    }

    /// Asks to save the draft: returns the preferences to write when the draft
    /// is valid (nothing else changes), and otherwise shows why it is not.
    pub fn request_save(&mut self) -> (r: Option<Settings>)
        ensures
            final(self).settings == old(self).settings,
            final(self).draft == old(self).draft,
            match parse_draft(old(self).draft) {
                Ok(s) => r == Some(s) && final(self).validation_error == old(
                    self,
                ).validation_error,
                Err(message) => r is None && (final(self).validation_error matches Some(m)
                    && m@ == message),
            },
    {
        match self.draft.parse() {
            Ok(s) => Some(s),
            Err(message) => {
                self.validation_error = Some(message);
                None
            },
        }
    }

    /// The preferences were written: they become the saved ones, the draft
    /// starts over from them and the message goes.
    pub fn save_succeeded(&mut self, saved: Settings)
        ensures
            final(self).settings == saved,
            final(self).draft == draft_of(saved),
            final(self).validation_error is None,
    {
        self.settings = saved;
        self.draft = DraftSettings::from(saved);
        self.validation_error = None;
    }

    /// The preferences could not be written, for `reason`: that is shown.
    pub fn save_failed(&mut self, reason: &str)
        ensures
            final(self).settings == old(self).settings,
            final(self).draft == old(self).draft,
            final(self).validation_error matches Some(m) && m@ == SAVE_FAILED_PREFIX@ + reason@,
    {
        let mut message = SAVE_FAILED_PREFIX.to_string();
        message.append(reason);
        self.validation_error = Some(message);
    }
}

} // verus!
