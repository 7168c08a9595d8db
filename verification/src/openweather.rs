//! Normalization for the first upstream provider: a metric REST API keyed
//! by latitude and longitude. Current conditions arrive as one object;
//! forecasts arrive as a flat list of timestamped three-hour entries that
//! must be grouped by calendar date.
//!
//! The hosting program decodes the upstream JSON body and hands the decoded
//! fields over in milli-units (thousandths); everything from there on is
//! verified. Grouping keeps, for each date, the true maximum and minimum
//! temperature over that date's entries and the first entry's condition
//! label; the groups come back sorted ascending by date, truncated to the
//! requested number of days, so the days kept are always the earliest ones.

use vstd::prelude::*;

use crate::model::{
    dates_of, distinct_dates, lemma_distinct_dates_permutation, lemma_permutation_contains,
    sort_forecasts, sorted_by_date, CurrentWeather, DayForecast,
};
use crate::text::{first_token, first_token_str, lex_le, str_eq};

verus! {

broadcast use vstd::seq_lib::group_to_multiset_ensures, vstd::multiset::group_multiset_axioms, vstd::set::group_set_axioms;

/// The fields the mapping reads from a decoded current-conditions body.
/// Numeric fields are in milli-units of the upstream unit, except
/// `visibility`, which upstream reports in metres.
pub struct OpenWeatherCurrent {
    /// main.temp, in milli-degrees Celsius.
    pub temp: i32,
    /// main.humidity, in milli-percent.
    pub humidity: i32,
    /// main.temp_max, in milli-degrees Celsius.
    pub temp_max: i32,
    /// main.temp_min, in milli-degrees Celsius.
    pub temp_min: i32,
    /// weather[].main: the condition labels, possibly empty.
    pub conditions: Vec<String>,
    /// wind.speed, in milli-units of the upstream speed.
    pub wind_speed: i32,
    /// wind.deg, in milli-degrees.
    pub wind_deg: i32,
    /// visibility, in metres; one metre is exactly one milli-km.
    pub visibility: i32,
    /// sys.country.
    pub country: String,
}

/// One decoded entry of the upstream forecast list: a three-hour reading.
pub struct ForecastEntry {
    /// dt_txt: the entry's timestamp; its date part stands before the
    /// first whitespace.
    pub dt_txt: String,
    /// main.temp, in milli-degrees Celsius.
    pub temp: i32,
    /// weather[].main: the condition labels, possibly empty.
    pub conditions: Vec<String>,
}

/// The calendar date of an entry: the timestamp's first token.
pub open spec fn entry_date(e: ForecastEntry) -> Seq<char> {
    first_token(e.dt_txt@)
}

/// Some entry of the list carries this date.
pub open spec fn has_date(list: Seq<ForecastEntry>, d: Seq<char>) -> bool {
    exists|i: int| 0 <= i < list.len() && entry_date(list[i]) == d
}

/// Entry `i` is the first of the list that carries date `d`.
pub open spec fn is_first_with_date(list: Seq<ForecastEntry>, d: Seq<char>, i: int) -> bool {
    &&& 0 <= i < list.len()
    &&& entry_date(list[i]) == d
    &&& forall|j: int| 0 <= j < i ==> entry_date(list[j]) != d
}

/// `t` is the largest temperature among the entries that carry date `d`.
pub open spec fn is_day_max(list: Seq<ForecastEntry>, d: Seq<char>, t: int) -> bool {
    &&& exists|i: int| 0 <= i < list.len() && entry_date(list[i]) == d && list[i].temp == t
    &&& forall|i: int| 0 <= i < list.len() && entry_date(list[i]) == d ==> list[i].temp <= t
}

/// `t` is the smallest temperature among the entries that carry date `d`.
pub open spec fn is_day_min(list: Seq<ForecastEntry>, d: Seq<char>, t: int) -> bool {
    &&& exists|i: int| 0 <= i < list.len() && entry_date(list[i]) == d && list[i].temp == t
    &&& forall|i: int| 0 <= i < list.len() && entry_date(list[i]) == d ==> list[i].temp >= t
}

/// The set of distinct dates the list's entries carry.
pub open spec fn date_set(list: Seq<ForecastEntry>) -> Set<Seq<char>> {
    list.map_values(|e: ForecastEntry| entry_date(e)).to_set()
}

/// Entry `t`'s date already stands among the collected keys.
pub open spec fn key_covers(list: Seq<ForecastEntry>, keys: Seq<String>, t: int) -> bool {
    exists|k: int| 0 <= k < keys.len() && keys[k]@ == entry_date(list[t])
}

/// Every group's first entry carries at least one condition label; when
/// one does not, a required index is missing and normalization fails.
pub open spec fn group_heads_have_conditions(list: Seq<ForecastEntry>) -> bool {
    forall|i: int|
        0 <= i < list.len() && #[trigger] is_first_with_date(list, entry_date(list[i]), i)
            ==> list[i].conditions@.len() > 0
}

/// `day` is a faithful one-day summary of the list: its date occurs in the
/// list, its range is the true maximum and minimum over that date's
/// entries, and its condition label is the first entry's first label.
pub open spec fn is_day_summary(list: Seq<ForecastEntry>, day: DayForecast) -> bool {
    &&& has_date(list, day.date@)
    &&& is_day_max(list, day.date@, day.max_temp as int)
    &&& is_day_min(list, day.date@, day.min_temp as int)
    &&& exists|i: int|
        is_first_with_date(list, day.date@, i) && day.condition@ == list[i].conditions@[0]@
}

/// How many groups a request for `days` days keeps out of `n`: a negative
/// request is read as unbounded, the way an unsigned day count reads it.
pub open spec fn day_limit(days: int, n: int) -> int {
    if days < 0 {
        n
    } else if days < n {
        days
    } else {
        n
    }
}

/// Maps a decoded current-conditions body into the common model: readings
/// carry over field by field, visibility changes from metres to milli-km
/// (a change of unit only: the number stays the same), and the UV index is
/// fixed at 0 because this provider does not report one. Fails when the
/// condition list is empty, since the first label is required.
pub fn normalize_current(obs: &OpenWeatherCurrent) -> (r: Result<CurrentWeather, String>)
    ensures
        obs.conditions@.len() == 0 <==> (r matches Err(m) && m@ == "missing weather condition"@),
        obs.conditions@.len() > 0 ==> (r matches Ok(w) && {
            &&& w.temperature == obs.temp as int
            &&& w.humidity == obs.humidity as int
            &&& w.condition@ == obs.conditions@[0]@
            &&& w.wind_speed == obs.wind_speed as int
            &&& w.wind_direction == obs.wind_deg as int
            &&& w.uv_index == 0
            &&& w.visibility == obs.visibility as int
            &&& w.country@ == obs.country@
            &&& w.max_temp == obs.temp_max as int
            &&& w.min_temp == obs.temp_min as int
        }),
{
    if obs.conditions.len() == 0 {
        return Err(String::from_str("missing weather condition"));
    }
    Ok(
        CurrentWeather {
            temperature: obs.temp as i64,
            humidity: obs.humidity as i64,
            condition: obs.conditions[0].clone(),
            wind_speed: obs.wind_speed as i64,
            wind_direction: obs.wind_deg as i64,
            uv_index: 0,
            visibility: obs.visibility as i64,
            country: obs.country.clone(),
            max_temp: obs.temp_max as i64,
            min_temp: obs.temp_min as i64,
        },
    )
}

/// Decides whether an entry carries the given date.
fn entry_matches(e: &ForecastEntry, date: &str) -> (b: bool)
    ensures
        b == (entry_date(*e) == date@),
{
    let tok = first_token_str(e.dt_txt.as_str());
    str_eq(tok.as_str(), date)
}

/// Decides whether one of the collected date keys reads as `d`.
fn contains_date(keys: &Vec<String>, d: &str) -> (b: bool)
    ensures
        b == exists|k: int| 0 <= k < keys@.len() && keys@[k]@ == d@,
{
    let mut k: usize = 0;
    while k < keys.len()
        invariant
            k <= keys@.len(),
            forall|j: int| 0 <= j < k ==> keys@[j]@ != d@,
        decreases keys@.len() - k,
    {
        if str_eq(keys[k].as_str(), d) {
            return true;
        }
        k = k + 1;
    }
    false
}

/// Summarizes one date of the forecast list: the true temperature range
/// over that date's entries and the first such entry's condition label.
#[verifier::rlimit(30)]
fn day_summary(list: &Vec<ForecastEntry>, date: &str) -> (r: DayForecast)
    requires
        has_date(list@, date@),
        group_heads_have_conditions(list@),
    ensures
        r.date@ == date@,
        is_day_summary(list@, r),
{
    let n = list.len();
    let mut h: usize = 0;
    proof {
        assert(exists|t: int| 0 <= t < list@.len() && entry_date(list@[t]) == date@);
    }
    while !entry_matches(&list[h], date)
        invariant
            n == list@.len(),
            h < n,
            exists|t: int| h <= t < list@.len() && entry_date(list@[t]) == date@,
            forall|j: int| 0 <= j < h ==> entry_date(list@[j]) != date@,
        decreases list@.len() - h,
    {
        proof {
            let t0 = choose|t: int| h <= t < list@.len() && entry_date(list@[t]) == date@;
            assert(entry_date(list@[h as int]) != date@);
            assert(t0 >= h + 1);
        }
        h = h + 1;
    }
    proof {
        assert(is_first_with_date(list@, date@, h as int));
        assert(is_first_with_date(list@, entry_date(list@[h as int]), h as int));
        assert(list@[h as int].conditions@.len() > 0);
    }
    let condition = list[h].conditions[0].clone();
    let mut mx = list[h].temp;
    let mut mn = list[h].temp;
    let mut j: usize = h + 1;
    while j < list.len()
        invariant
            h < j <= list@.len(),
            h < list@.len(),
            entry_date(list@[h as int]) == date@,
            exists|i: int|
                0 <= i < j && entry_date(list@[i]) == date@ && list@[i].temp == mx,
            exists|i: int|
                0 <= i < j && entry_date(list@[i]) == date@ && list@[i].temp == mn,
            forall|i: int|
                0 <= i < j && entry_date(list@[i]) == date@ ==> mn <= list@[i].temp <= mx,
        decreases list@.len() - j,
    {
        if entry_matches(&list[j], date) {
            let t = list[j].temp;
            if t > mx {
                mx = t;
            }
            if t < mn {
                mn = t;
            }
        }
        j = j + 1;
    }
    let day = DayForecast {
        date: date.to_owned(),
        max_temp: mx as i64,
        min_temp: mn as i64,
        condition,
    };
    proof {
        assert(is_first_with_date(list@, day.date@, h as int));
        assert(is_day_max(list@, day.date@, day.max_temp as int));
        assert(is_day_min(list@, day.date@, day.min_temp as int));
    }
    day
}

/// Distinct date keys that cover a list's dates name exactly its date
/// set, and count it.
proof fn lemma_keys_cover(list: Seq<ForecastEntry>, keys: Seq<String>)
    requires
        forall|a: int, b: int|
            #![trigger keys[a]@, keys[b]@]
            0 <= a < b < keys.len() ==> keys[a]@ != keys[b]@,
        forall|k: int|
            0 <= k < keys.len() ==> has_date(list, #[trigger] keys[k]@),
        forall|t: int| 0 <= t < list.len() ==> #[trigger] key_covers(list, keys, t),
    ensures
        keys.map_values(|s: String| s@).to_set() =~= date_set(list),
        date_set(list).len() == keys.len(),
{
    let keys_views = keys.map_values(|s: String| s@);
    let mapped = list.map_values(|e: ForecastEntry| entry_date(e));
    assert(keys_views.no_duplicates());
    keys_views.unique_seq_to_set();
    assert forall|d: Seq<char>| keys_views.to_set().contains(d) implies date_set(
        list,
    ).contains(d) by {
        let k = choose|k: int| 0 <= k < keys_views.len() && keys_views[k] == d;
        assert(has_date(list, keys[k]@));
        let t = choose|t: int| 0 <= t < list.len() && entry_date(list[t]) == keys[k]@;
        assert(mapped[t] == d);
        assert(mapped.contains(d));
    }
    assert forall|d: Seq<char>| date_set(list).contains(d) implies keys_views.to_set()
        .contains(d) by {
        assert(mapped.contains(d));
        let t = choose|t: int| 0 <= t < mapped.len() && mapped[t] == d;
        assert(entry_date(list[t]) == d);
        assert(key_covers(list, keys, t));
        let k = choose|k: int| 0 <= k < keys.len() && keys[k]@ == entry_date(list[t]);
        assert(keys_views[k] == d);
        assert(keys_views.contains(d));
    }
    assert(keys_views.to_set() =~= date_set(list));
}

/// Walks the forecast list once and collects each distinct date the first
/// time it appears, rejecting a list in which some date's first entry has
/// no condition label.
#[verifier::rlimit(100)]
fn collect_keys(list: &Vec<ForecastEntry>) -> (r: Result<Vec<String>, String>)
    ensures
        r is Ok <==> group_heads_have_conditions(list@),
        r matches Err(m) ==> m@ == "missing weather condition"@,
        r matches Ok(keys) ==> {
            &&& forall|a: int, b: int|
                #![trigger keys@[a]@, keys@[b]@]
                0 <= a < b < keys@.len() ==> keys@[a]@ != keys@[b]@
            &&& forall|k: int|
                0 <= k < keys@.len() ==> has_date(list@, #[trigger] keys@[k]@)
            &&& forall|t: int| 0 <= t < list@.len() ==> #[trigger] key_covers(list@, keys@, t)
        },
{
    let mut keys: Vec<String> = Vec::new();
    let mut i: usize = 0;
    while i < list.len()
        invariant
            i <= list@.len(),
            forall|a: int, b: int|
                #![trigger keys@[a]@, keys@[b]@]
                0 <= a < b < keys@.len() ==> keys@[a]@ != keys@[b]@,
            forall|k: int|
                0 <= k < keys@.len() ==> exists|t: int|
                    0 <= t < i && entry_date(list@[t]) == #[trigger] keys@[k]@,
            forall|t: int| 0 <= t < i ==> #[trigger] key_covers(list@, keys@, t),
            forall|t: int|
                0 <= t < i && #[trigger] is_first_with_date(list@, entry_date(list@[t]), t)
                    ==> list@[t].conditions@.len() > 0,
        decreases list@.len() - i,
    {
        let tok = first_token_str(list[i].dt_txt.as_str());
        proof {
            assert(entry_date(list@[i as int]) == tok@);
        }
        if !contains_date(&keys, tok.as_str()) {
            proof {
                assert forall|j: int| 0 <= j < i implies entry_date(list@[j]) != tok@ by {
                    if entry_date(list@[j]) == tok@ {
                        assert(key_covers(list@, keys@, j));
                        let k = choose|k: int|
                            0 <= k < keys@.len() && keys@[k]@ == entry_date(list@[j]);
                        assert(keys@[k]@ == tok@);
                    }
                }
                assert(is_first_with_date(list@, tok@, i as int));
            }
            if list[i].conditions.len() == 0 {
                proof {
                    assert(!group_heads_have_conditions(list@));
                }
                return Err(String::from_str("missing weather condition"));
            }
            let ghost old_keys = keys@;
            keys.push(tok);
            proof {
                assert(keys@[old_keys.len() as int]@ == tok@);
                assert(forall|k: int| 0 <= k < old_keys.len() ==> keys@[k] == old_keys[k]);
                assert(key_covers(list@, keys@, i as int));
                assert forall|t: int| 0 <= t < i + 1 implies #[trigger] key_covers(
                    list@,
                    keys@,
                    t,
                ) by {
                    if t < i {
                        assert(key_covers(list@, old_keys, t));
                        let k = choose|k: int|
                            0 <= k < old_keys.len() && old_keys[k]@ == entry_date(list@[t]);
                        assert(keys@[k]@ == entry_date(list@[t]));
                    }
                }
            }
        } else {
            proof {
                let k0 = choose|k: int| 0 <= k < keys@.len() && keys@[k]@ == tok@;
                let t0 = choose|t: int| 0 <= t < i && entry_date(list@[t]) == keys@[k0]@;
                assert(entry_date(list@[t0]) == entry_date(list@[i as int]));
                assert(!is_first_with_date(list@, entry_date(list@[i as int]), i as int));
                assert(key_covers(list@, keys@, i as int));
            }
        }
        i = i + 1;
    }
    Ok(keys)
}

/// The summaries, sorted and cut off after `limit` days, keep faithful
/// summaries of the earliest dates only.
proof fn lemma_assemble(
    list: Seq<ForecastEntry>,
    keys_views: Seq<Seq<char>>,
    out_view: Seq<DayForecast>,
    sorted_view: Seq<DayForecast>,
    v_view: Seq<DayForecast>,
    limit: int,
)
    requires
        keys_views.to_set() =~= date_set(list),
        out_view.len() == keys_views.len(),
        forall|t: int| 0 <= t < out_view.len() ==> #[trigger] out_view[t].date@ == keys_views[t],
        forall|t: int| 0 <= t < out_view.len() ==> is_day_summary(list, #[trigger] out_view[t]),
        out_view.to_multiset() == sorted_view.to_multiset(),
        sorted_by_date(sorted_view),
        distinct_dates(sorted_view),
        0 <= limit <= sorted_view.len(),
        v_view == sorted_view.subrange(0, limit),
    ensures
        sorted_by_date(v_view),
        distinct_dates(v_view),
        forall|t: int| 0 <= t < v_view.len() ==> is_day_summary(list, #[trigger] v_view[t]),
        forall|t: int, d: Seq<char>|
            0 <= t < v_view.len() && date_set(list).contains(d) && !dates_of(v_view).contains(d)
                ==> #[trigger] lex_le(v_view[t].date@, d),
{
    assert forall|t: int| 0 <= t < v_view.len() implies is_day_summary(
        list,
        #[trigger] v_view[t],
    ) by {
        assert(v_view[t] == sorted_view[t]);
        assert(sorted_view.contains(sorted_view[t]));
        lemma_permutation_contains(sorted_view, out_view, sorted_view[t]);
        let j = choose|j: int| 0 <= j < out_view.len() && out_view[j] == sorted_view[t];
        assert(is_day_summary(list, out_view[j]));
    }
    assert forall|t: int, d: Seq<char>|
        0 <= t < v_view.len() && date_set(list).contains(d) && !dates_of(v_view).contains(d)
            implies #[trigger] lex_le(v_view[t].date@, d) by {
        assert(keys_views.to_set().contains(d));
        assert(keys_views.contains(d));
        let k0 = choose|k0: int| 0 <= k0 < keys_views.len() && keys_views[k0] == d;
        assert(out_view[k0].date@ == d);
        assert(out_view.contains(out_view[k0]));
        lemma_permutation_contains(out_view, sorted_view, out_view[k0]);
        let t1 = choose|t1: int| 0 <= t1 < sorted_view.len() && sorted_view[t1] == out_view[k0];
        if t1 < v_view.len() {
            assert(v_view[t1] == sorted_view[t1]);
            assert(dates_of(v_view)[t1] == d);
            assert(dates_of(v_view).contains(d));
        }
        assert(t1 >= v_view.len());
        assert(v_view[t] == sorted_view[t]);
        assert(lex_le(sorted_view[t].date@, sorted_view[t1].date@));
    }
}

/// Groups the flat three-hour forecast list by calendar date, summarizes
/// each date, sorts the summaries ascending by date and keeps the first
/// `days` of them — so the dates kept are always the earliest ones. Fails
/// when some date's first entry carries no condition label.
#[verifier::rlimit(100)]
pub fn normalize_forecast(list: &Vec<ForecastEntry>, days: i32) -> (r: Result<
    Vec<DayForecast>,
    String,
>)
    ensures
        r is Ok <==> group_heads_have_conditions(list@),
        r matches Err(m) ==> m@ == "missing weather condition"@,
        r matches Ok(v) ==> {
            &&& sorted_by_date(v@)
            &&& distinct_dates(v@)
            &&& v@.len() == day_limit(days as int, date_set(list@).len() as int)
            &&& forall|t: int| 0 <= t < v@.len() ==> is_day_summary(list@, v@[t])
            &&& forall|t: int, d: Seq<char>|
                0 <= t < v@.len() && date_set(list@).contains(d) && !dates_of(v@).contains(d)
                    ==> lex_le(v@[t].date@, d)
        },
{
    let keys = match collect_keys(list) {
        Ok(keys) => keys,
        Err(m) => {
            return Err(m);
        },
    };
    let ghost keys_views = keys@.map_values(|s: String| s@);
    proof {
        lemma_keys_cover(list@, keys@);
    }
    let mut out: Vec<DayForecast> = Vec::new();
    let mut k: usize = 0;
    while k < keys.len()
        invariant
            k <= keys@.len(),
            out@.len() == k,
            group_heads_have_conditions(list@),
            forall|a: int, b: int|
                #![trigger keys@[a]@, keys@[b]@]
                0 <= a < b < keys@.len() ==> keys@[a]@ != keys@[b]@,
            forall|t: int|
                0 <= t < keys@.len() ==> has_date(list@, #[trigger] keys@[t]@),
            forall|t: int| 0 <= t < k ==> out@[t].date@ == keys@[t]@,
            forall|t: int| 0 <= t < k ==> is_day_summary(list@, #[trigger] out@[t]),
        decreases keys@.len() - k,
    {
        let day = day_summary(list, keys[k].as_str());
        out.push(day);
        k = k + 1;
    }
    proof {
        assert forall|a: int, b: int| 0 <= a < b < out@.len() implies out@[a].date@
            != out@[b].date@ by {
            assert(out@[a].date@ == keys@[a]@);
            assert(out@[b].date@ == keys@[b]@);
        }
        assert(distinct_dates(out@));
    }
    let ghost out_view = out@;
    let sorted = sort_forecasts(out);
    proof {
        lemma_distinct_dates_permutation(out_view, sorted@);
    }
    let limit: usize = if days < 0 {
        sorted.len()
    } else {
        let d = days as usize;
        if d < sorted.len() {
            d
        } else {
            sorted.len()
        }
    };
    let mut v = sorted;
    let ghost sorted_view = v@;
    v.truncate(limit);
    proof {
        assert(v@ =~= sorted_view.subrange(0, limit as int));
        lemma_assemble(list@, keys_views, out_view, sorted_view, v@, limit as int);
    }
    Ok(v)
}

} // verus!
