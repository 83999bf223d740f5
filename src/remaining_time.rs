use vstd::prelude::*;

verus! {

/// A duration split into whole days, hours, minutes and seconds.
#[derive(Clone, Copy, PartialEq, Eq, Debug, Structural)]
pub struct RemainingTime {
    pub days: u32,
    pub hours: u32,
    pub minutes: u32,
    pub seconds: u32,
}

impl RemainingTime {
    /// Splits a duration of `whole` seconds, plus a fraction of a second when
    /// `has_fraction` holds, rounding the fraction up to a full second.
    pub fn from_whole_seconds(whole: u64, has_fraction: bool) -> (r: RemainingTime)
        requires
            whole / 86400 <= u32::MAX,
        ensures
            r.days == whole / 86400,
            r.hours == (whole % 86400) / 3600,
            r.minutes == (whole % 3600) / 60,
            r.seconds == whole % 60 + if has_fraction { 1int } else { 0int },
    {
        let days = whole / 86400;
        let rest = whole % 86400;
        let hours = rest / 3600;
        let rest2 = rest % 3600;
        let minutes = rest2 / 60;
        let secs = rest2 % 60;
        proof {
            vstd::arithmetic::div_mod::lemma_mod_mod(whole as int, 3600, 24);
            vstd::arithmetic::div_mod::lemma_mod_mod(whole as int, 60, 60);
            vstd::arithmetic::div_mod::lemma_mod_mod(whole as int, 60, 1440);
        }
        let seconds = if has_fraction {
            secs + 1
        } else {
            secs
        };
        RemainingTime {
            days: days as u32,
            hours: hours as u32,
            minutes: minutes as u32,
            seconds: seconds as u32,
        }
    }
}

} // verus!
