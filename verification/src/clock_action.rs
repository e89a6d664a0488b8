//! The Peak Clock's settings.
use vstd::prelude::*;
use vstd::string::*;
use crate::peak::{
    PeakWindow, PeakDays, PeakSchedule, DEFAULT_PEAK_START, DEFAULT_PEAK_END, parse_hhmm_spec,
    day_key, names_day,
};

verus! {

/// A Peak Clock's settings: the window as typed ("HH:MM") and the keys of
/// the days it applies on.
#[derive(Debug, PartialEq, Eq)]
pub struct PeakClockSettings {
    pub peak_start: String,
    pub peak_end: String,
    pub peak_days: Vec<String>,
}

impl Default for PeakClockSettings {
    /// 13:00-18:00 on weekdays.
    fn default() -> (r: Self)
        ensures
            r.peak_start@ == DEFAULT_PEAK_START@,
            r.peak_end@ == DEFAULT_PEAK_END@,
            r.peak_days@.len() == 5,
            forall|i: int| 0 <= i < 5 ==> (#[trigger] r.peak_days@[i])@ == day_key(i),
    {
        let mut days: Vec<String> = Vec::new();
        days.push(String::from_str("mon"));
        days.push(String::from_str("tue"));
        days.push(String::from_str("wed"));
        days.push(String::from_str("thu"));
        days.push(String::from_str("fri"));
        proof {
            reveal_strlit("mon");
            reveal_strlit("tue");
            reveal_strlit("wed");
            reveal_strlit("thu");
            reveal_strlit("fri");
            assert(days@[0]@ =~= day_key(0));
            assert(days@[1]@ =~= day_key(1));
            assert(days@[2]@ =~= day_key(2));
            assert(days@[3]@ =~= day_key(3));
            assert(days@[4]@ =~= day_key(4));
        }
        PeakClockSettings {
            peak_start: String::from_str(DEFAULT_PEAK_START),
            peak_end: String::from_str(DEFAULT_PEAK_END),
            peak_days: days,
        }
    }
}

/// The window a Peak Clock's settings describe, each end falling back to
/// its default when it does not parse.
pub fn window_from(settings: &PeakClockSettings) -> (r: PeakWindow)
    ensures
        r.start_minutes as nat == match parse_hhmm_spec(settings.peak_start@) {
            Some(v) => v,
            None => 780,
        },
        r.end_minutes as nat == match parse_hhmm_spec(settings.peak_end@) {
            Some(v) => v,
            None => 1080,
        },
        r.wf(),
{
    PeakWindow::from_settings(settings.peak_start.as_str(), settings.peak_end.as_str())
}

/// The schedule a Peak Clock's settings describe: the window, on every day
/// that some entry of `peak_days` names.
pub fn schedule_from(settings: &PeakClockSettings) -> (r: PeakSchedule)
    ensures
        r.window == window_from_spec(settings),
        forall|i: int|
            0 <= i < 7 ==> (r.days.0@[i] <==> exists|k: int|
                0 <= k < settings.peak_days@.len() && names_day(
                    (#[trigger] settings.peak_days@[k])@,
                    i,
                )),
{
    let window = window_from(settings);
    let mut keys: Vec<&str> = Vec::new();
    let mut k: usize = 0;
    while k < settings.peak_days.len()
        invariant
            k <= settings.peak_days@.len(),
            keys@.len() == k,
            forall|j: int| 0 <= j < k ==> (#[trigger] keys@[j])@ == settings.peak_days@[j]@,
        decreases settings.peak_days@.len() - k,
    {
        keys.push(settings.peak_days[k].as_str());
        k = k + 1;
    }
    let days = PeakDays::from_settings(keys.as_slice());
    proof {
        assert forall|i: int| 0 <= i < 7 implies (days.0@[i] <==> exists|k: int|
            0 <= k < settings.peak_days@.len() && names_day(
                (#[trigger] settings.peak_days@[k])@,
                i,
            )) by {
            if days.0@[i] {
                let k = choose|k: int| 0 <= k < keys@.len() && names_day(#[trigger] keys@[k]@, i);
                assert(names_day(settings.peak_days@[k]@, i));
            }
            if exists|k: int|
                0 <= k < settings.peak_days@.len() && names_day(
                    (#[trigger] settings.peak_days@[k])@,
                    i,
                ) {
                let k = choose|k: int|
                    0 <= k < settings.peak_days@.len() && names_day(
                        (#[trigger] settings.peak_days@[k])@,
                        i,
                    );
                assert(names_day(keys@[k]@, i));
            }
        }
    }
    PeakSchedule { window, days }
}

/// The window that `window_from` gives for `settings`.
pub open spec fn window_from_spec(settings: &PeakClockSettings) -> PeakWindow {
    PeakWindow {
        start_minutes: match parse_hhmm_spec(settings.peak_start@) {
            Some(v) => v as u32,
            None => 780,
        },
        end_minutes: match parse_hhmm_spec(settings.peak_end@) {
            Some(v) => v as u32,
            None => 1080,
        },
    }
}

} // verus!
