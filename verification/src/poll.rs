use vstd::prelude::*;

use crate::settings::Settings;

verus! {

/// The period, in milliseconds, at which the market is polled under `settings`.
pub fn update_period_ms(settings: Settings) -> (period: u64)
    ensures
        period == settings.update_interval_ms,
{
    settings.update_interval_ms
}

} // verus!
