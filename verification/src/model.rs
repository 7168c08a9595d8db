//! The common weather model that every provider normalizes into, and the
//! provider sum type that the dispatcher resolves to.
//!
//! All numeric fields are fixed-point: a value of `n` stands for `n / 1000`
//! of the field's unit (degrees Celsius, percent, km/h, degrees, km). This
//! keeps every mapping rule exact; for example the 22.5-degree compass step
//! is 22500 milli-degrees.

use vstd::prelude::*;

use crate::text::{lemma_lex_le_refl, lemma_lex_le_total, lemma_lex_le_trans, lex_le, lex_le_str, str_eq};

verus! {

broadcast use vstd::seq_lib::group_to_multiset_ensures, vstd::multiset::group_multiset_axioms;

/// A single-point-in-time weather snapshot, fully populated by every
/// provider (fields a provider cannot supply hold a documented default).
///
/// Units, all in thousandths: `temperature`, `max_temp`, `min_temp` in
/// milli-degrees Celsius; `humidity` in milli-percent; `wind_speed` in
/// milli-km/h; `wind_direction` in milli-degrees; `uv_index` in
/// milli-index-points; `visibility` in milli-km.
#[derive(Clone, Debug)]
pub struct CurrentWeather {
    pub temperature: i64,
    pub humidity: i64,
    pub condition: String,
    pub wind_speed: i64,
    pub wind_direction: i64,
    pub uv_index: i64,
    pub visibility: i64,
    pub country: String,
    pub max_temp: i64,
    pub min_temp: i64,
}

/// One day of a forecast: a date key in the provider's native text form and
/// the day's temperature range, in milli-degrees Celsius.
#[derive(Clone, Debug)]
pub struct DayForecast {
    pub date: String,
    pub max_temp: i64,
    pub min_temp: i64,
    pub condition: String,
}

/// The two upstream providers, as a sum type: callers go through the
/// dispatcher and never pick a variant themselves.
#[derive(Clone, Copy, Debug, PartialEq, Eq, Structural)]
pub enum WeatherProvider {
    OpenWeather,
    WeatherApi,
}

/// The display identifier of a provider, echoed into response metadata.
pub open spec fn provider_name(p: WeatherProvider) -> Seq<char> {
    match p {
        WeatherProvider::OpenWeather => "OpenWeather"@,
        WeatherProvider::WeatherApi => "WeatherAPI"@,
    }
}

impl WeatherProvider {
    /// Stable display identifier for the provider.
    pub fn name(&self) -> (r: String)
        ensures
            r@ == provider_name(*self),
    {
        match self {
            WeatherProvider::OpenWeather => String::from_str("OpenWeather"),
            WeatherProvider::WeatherApi => String::from_str("WeatherAPI"),
        }
    }
}

/// The dates of a forecast, day by day.
pub open spec fn dates_of(s: Seq<DayForecast>) -> Seq<Seq<char>> {
    s.map_values(|d: DayForecast| d.date@)
}

/// The days stand in ascending date order.
pub open spec fn sorted_by_date(s: Seq<DayForecast>) -> bool {
    forall|i: int, j: int| 0 <= i < j < s.len() ==> lex_le(s[i].date@, s[j].date@)
}

/// No two days carry the same date.
pub open spec fn distinct_dates(s: Seq<DayForecast>) -> bool {
    forall|i: int, j: int| 0 <= i < j < s.len() ==> s[i].date@ != s[j].date@
}

/// Sorts a forecast ascending by date: the result holds exactly the given
/// days, in date order.
pub fn sort_forecasts(v: Vec<DayForecast>) -> (r: Vec<DayForecast>)
    ensures
        r@.to_multiset() == v@.to_multiset(),
        r@.len() == v@.len(),
        sorted_by_date(r@),
{
    let mut rem = v;
    let mut out: Vec<DayForecast> = Vec::new();
    proof {
        assert(out@.to_multiset().add(rem@.to_multiset()) =~= v@.to_multiset());
    }
    while rem.len() > 0
        invariant
            out@.to_multiset().add(rem@.to_multiset()) == v@.to_multiset(),
            out@.len() + rem@.len() == v@.len(),
            sorted_by_date(out@),
            forall|i: int, j: int|
                0 <= i < out@.len() && 0 <= j < rem@.len() ==> lex_le(
                    out@[i].date@,
                    rem@[j].date@,
                ),
        decreases rem.len(),
    {
        let mut m: usize = 0;
        let mut k: usize = 1;
        proof {
            lemma_lex_le_refl(rem@[0].date@, rem@[0].date@);
        }
        while k < rem.len()
            invariant
                m < k <= rem@.len(),
                rem@.len() > 0,
                forall|t: int| 0 <= t < k ==> lex_le(rem@[m as int].date@, rem@[t].date@),
            decreases rem.len() - k,
        {
            let le = lex_le_str(rem[k].date.as_str(), rem[m].date.as_str());
            let eq = str_eq(rem[k].date.as_str(), rem[m].date.as_str());
            if le && !eq {
                proof {
                    assert forall|t: int| 0 <= t <= k implies lex_le(
                        rem@[k as int].date@,
                        rem@[t].date@,
                    ) by {
                        if t < k {
                            lemma_lex_le_trans(
                                rem@[k as int].date@,
                                rem@[m as int].date@,
                                rem@[t].date@,
                            );
                        } else {
                            lemma_lex_le_refl(rem@[k as int].date@, rem@[t].date@);
                        }
                    };
                }
                m = k;
            } else {
                proof {
                    if eq {
                        lemma_lex_le_refl(rem@[m as int].date@, rem@[k as int].date@);
                    } else {
                        lemma_lex_le_total(rem@[m as int].date@, rem@[k as int].date@);
                    }
                }
            }
            k = k + 1;
        }
        let ghost rem_old = rem@;
        let x = rem.remove(m);
        proof {
            assert(rem_old.contains(x));
            assert(rem@.to_multiset() =~= rem_old.to_multiset().remove(x));
            assert(out@.push(x).to_multiset() =~= out@.to_multiset().insert(x));
            assert(out@.push(x).to_multiset().add(rem@.to_multiset()) =~= v@.to_multiset());
            assert(forall|j: int|
                0 <= j < rem@.len() ==> rem@[j] == if j < m {
                    rem_old[j]
                } else {
                    rem_old[j + 1]
                });
        }
        out.push(x);
    }
    proof {
        assert(out@.to_multiset().add(rem@.to_multiset()) =~= out@.to_multiset());
    }
    out
}

/// An element of a sequence stays an element under any rearrangement.
pub proof fn lemma_permutation_contains<T>(a: Seq<T>, b: Seq<T>, x: T)
    requires
        a.to_multiset() == b.to_multiset(),
        a.contains(x),
    ensures
        b.contains(x),
{
    assert(a.to_multiset().count(x) > 0);
    assert(b.to_multiset().count(x) > 0);
}

/// A date-distinct forecast stays date-distinct under any rearrangement
/// that keeps the same days.
pub proof fn lemma_distinct_dates_permutation(a: Seq<DayForecast>, b: Seq<DayForecast>)
    requires
        a.to_multiset() == b.to_multiset(),
        distinct_dates(a),
    ensures
        distinct_dates(b),
{
    assert forall|i: int, j: int| 0 <= i < j < b.len() implies b[i].date@ != b[j].date@ by {
        if b[i].date@ == b[j].date@ {
            let x = b[i];
            let y = b[j];
            if x == y {
                assert(b.remove(i).to_multiset() =~= b.to_multiset().remove(x));
                assert(b.remove(i)[j - 1] == y);
                assert(b.remove(i).contains(y));
                assert(b.remove(i).to_multiset().count(y) > 0);
                assert(b.to_multiset().count(x) >= 2);
                assert(a.to_multiset().count(x) >= 2);
                assert(a.contains(x));
                let i1 = choose|t: int| 0 <= t < a.len() && a[t] == x;
                assert(a.remove(i1).to_multiset() =~= a.to_multiset().remove(x));
                assert(a.remove(i1).to_multiset().count(x) >= 1);
                assert(a.remove(i1).contains(x));
                let k = choose|t: int| 0 <= t < a.remove(i1).len() && a.remove(i1)[t] == x;
                if k < i1 {
                    assert(a[k] == x && a[i1] == x && k != i1);
                } else {
                    assert(a[k + 1] == x && a[i1] == x && k + 1 != i1);
                }
            } else {
                assert(b.contains(x) && b.contains(y));
                assert(a.to_multiset().count(x) >= 1 && a.to_multiset().count(y) >= 1);
                assert(a.contains(x) && a.contains(y));
                let i1 = choose|t: int| 0 <= t < a.len() && a[t] == x;
                let j1 = choose|t: int| 0 <= t < a.len() && a[t] == y;
                assert(i1 != j1);
            }
        }
    };
}

} // verus!
