//! The answer's JSON document mapped onto the weather model. Members that
//! the model does not name are ignored; a missing or mistyped member that it
//! names is an error.
use vstd::prelude::*;

use crate::error::WeatherError;
use crate::json::{
    as_items, as_text, field, json_document, json_tree, member, number_text, parse_document,
    JsonTree,
};
use crate::model::{
    Condition, ConditionView, CurrentWeather, CurrentWeatherView, Forecast, ForecastDay,
    ForecastDayView, ForecastDayWeather, Location, LocationView, WeatherInfo, WeatherInfoView,
};
use crate::reading::{lemma_reading_text_parses, parse_numeral, reading_text, Reading, NUMERAL_MAX_LEN};
use crate::request::FetchKind;

verus! {

/// The string member `key` of `t`.
pub open spec fn text_at(t: JsonTree, key: Seq<char>) -> Option<Seq<char>> {
    match field(t, key) {
        JsonTree::Text(s) => Some(s),
        _ => None,
    }
}

/// The number member `key` of `t`, as a reading.
pub open spec fn reading_at(t: JsonTree, key: Seq<char>) -> Option<Reading> {
    match field(t, key) {
        JsonTree::Number(s) => parse_numeral(s),
        _ => None,
    }
}

pub open spec fn location_of(t: JsonTree) -> Option<LocationView> {
    match (
        text_at(t, "name"@),
        text_at(t, "region"@),
        text_at(t, "country"@),
        text_at(t, "localtime"@),
    ) {
        (Some(name), Some(region), Some(country), Some(localtime)) => Some(
            LocationView { name, region, country, localtime },
        ),
        _ => None,
    }
}

pub open spec fn condition_of(t: JsonTree) -> Option<ConditionView> {
    match (text_at(t, "text"@), text_at(t, "icon"@)) {
        (Some(text), Some(icon)) => Some(ConditionView { text, icon }),
        _ => None,
    }
}

pub open spec fn current_of(t: JsonTree) -> Option<CurrentWeatherView> {
    match (
        reading_at(t, "temp_c"@),
        reading_at(t, "feelslike_c"@),
        reading_at(t, "wind_kph"@),
        text_at(t, "wind_dir"@),
        reading_at(t, "precip_mm"@),
        condition_of(field(t, "condition"@)),
    ) {
        (
            Some(temp_c),
            Some(feelslike_c),
            Some(wind_kph),
            Some(wind_dir),
            Some(precip_mm),
            Some(condition),
        ) => Some(CurrentWeatherView { temp_c, feelslike_c, wind_kph, wind_dir, precip_mm, condition }),
        _ => None,
    }
}

pub open spec fn day_weather_of(t: JsonTree) -> Option<ForecastDayWeather> {
    match (reading_at(t, "maxtemp_c"@), reading_at(t, "mintemp_c"@), reading_at(t, "totalprecip_mm"@)) {
        (Some(maxtemp_c), Some(mintemp_c), Some(totalprecip_mm)) => Some(
            ForecastDayWeather { maxtemp_c, mintemp_c, totalprecip_mm },
        ),
        _ => None,
    }
}

pub open spec fn day_of(t: JsonTree) -> Option<ForecastDayView> {
    match (text_at(t, "date"@), day_weather_of(field(t, "day"@))) {
        (Some(date), Some(day)) => Some(ForecastDayView { date, day }),
        _ => None,
    }
}

/// Every element decoded as a forecast day, or `None` if one fails.
pub open spec fn days_of(items: Seq<JsonTree>) -> Option<Seq<ForecastDayView>>
    decreases items.len(),
{
    if items.len() == 0 {
        Some(Seq::empty())
    } else {
        match (days_of(items.drop_last()), day_of(items.last())) {
            (Some(days), Some(d)) => Some(days.push(d)),
            _ => None,
        }
    }
}

pub open spec fn forecast_of(t: JsonTree) -> Option<Seq<ForecastDayView>> {
    match field(t, "forecastday"@) {
        JsonTree::Array(items) => days_of(items),
        _ => None,
    }
}

/// The answer to a request of `kind` that a document holds. A forecast is
/// read (and required) for a forecast request only.
pub open spec fn weather_of(t: JsonTree, kind: FetchKind) -> Option<WeatherInfoView> {
    match (location_of(field(t, "location"@)), current_of(field(t, "current"@))) {
        (Some(location), Some(current)) => match kind {
            FetchKind::Current => Some(WeatherInfoView { location, current, forecast: None }),
            FetchKind::Forecast { .. } => match forecast_of(field(t, "forecast"@)) {
                Some(days) => Some(WeatherInfoView { location, current, forecast: Some(days) }),
                None => None,
            },
        },
        _ => None,
    }
}

/// The answer that a body holds, if it is a JSON document that holds one.
pub open spec fn decoded(body: Seq<char>, kind: FetchKind) -> Option<WeatherInfoView> {
    match json_document(body) {
        Some(t) => weather_of(t, kind),
        None => None,
    }
}

/// The member `key` of `t` is a JSON string.
pub open spec fn has_text(t: JsonTree, key: Seq<char>) -> bool {
    field(t, key) is Text
}

/// The member `key` of `t` is a JSON number.
pub open spec fn has_number(t: JsonTree, key: Seq<char>) -> bool {
    field(t, key) is Number
}

pub open spec fn location_shape(t: JsonTree) -> bool {
    has_text(t, "name"@) && has_text(t, "region"@) && has_text(t, "country"@) && has_text(t, "localtime"@)
}

pub open spec fn condition_shape(t: JsonTree) -> bool {
    has_text(t, "text"@) && has_text(t, "icon"@)
}

pub open spec fn current_shape(t: JsonTree) -> bool {
    &&& has_number(t, "temp_c"@)
    &&& has_number(t, "feelslike_c"@)
    &&& has_number(t, "wind_kph"@)
    &&& has_text(t, "wind_dir"@)
    &&& has_number(t, "precip_mm"@)
    &&& condition_shape(field(t, "condition"@))
}

pub open spec fn day_shape(t: JsonTree) -> bool {
    let d = field(t, "day"@);
    has_text(t, "date"@) && has_number(d, "maxtemp_c"@) && has_number(d, "mintemp_c"@) && has_number(
        d,
        "totalprecip_mm"@,
    )
}

pub open spec fn forecast_shape(t: JsonTree) -> bool {
    match field(t, "forecastday"@) {
        JsonTree::Array(items) => forall|i: int| 0 <= i < items.len() ==> day_shape(#[trigger] items[i]),
        _ => false,
    }
}

/// The document holds every member that the answer to a request of `kind`
/// is made of, each of the right JSON type: strings where the model has
/// text, numbers where it has readings, objects and an array around them.
pub open spec fn has_answer(t: JsonTree, kind: FetchKind) -> bool {
    &&& location_shape(field(t, "location"@))
    &&& current_shape(field(t, "current"@))
    &&& (kind is Forecast ==> forecast_shape(field(t, "forecast"@)))
}

proof fn lemma_days_of_shape(items: Seq<JsonTree>)
    requires
        days_of(items) is Some,
    ensures
        forall|i: int| 0 <= i < items.len() ==> day_shape(#[trigger] items[i]),
    decreases items.len(),
{
    if items.len() > 0 {
        lemma_days_of_shape(items.drop_last());
        assert forall|i: int| 0 <= i < items.len() implies day_shape(#[trigger] items[i]) by {
            if i < items.len() - 1 {
                assert(items[i] == items.drop_last()[i]);
            }
        }
    }
}

/// Only a document with all the members of an answer decodes to one.
proof fn lemma_decodes_only_answers(t: JsonTree, kind: FetchKind)
    requires
        weather_of(t, kind) is Some,
    ensures
        has_answer(t, kind),
{
    if kind is Forecast {
        if let JsonTree::Array(items) = field(field(t, "forecast"@), "forecastday"@) {
            lemma_days_of_shape(items);
        }
    }
}

/// A document whose `current` object has no `temp_c` member decodes to no
/// answer, for either kind of request: the decoders then return
/// `WeatherError::Decode`, never a default value.
pub proof fn lemma_missing_temperature(body: Seq<char>, kind: FetchKind)
    requires
        json_document(body) matches Some(t) && field(field(t, "current"@), "temp_c"@)
            == JsonTree::Null,
    ensures
        decoded(body, kind) is None,
{
}

/// `b` is `a` with members added to its objects, down to `depth` levels;
/// below that the two are equal.
pub open spec fn widens(a: JsonTree, b: JsonTree, depth: nat) -> bool
    decreases depth,
{
    if depth == 0 {
        a == b
    } else {
        match (a, b) {
            (JsonTree::Object(ma), JsonTree::Object(mb)) => forall|k: Seq<char>| #[trigger]
                ma.contains_key(k) ==> mb.contains_key(k) && widens(ma[k], mb[k], (depth - 1) as nat),
            (JsonTree::Array(xa), JsonTree::Array(xb)) => xa.len() == xb.len() && forall|i: int|
                0 <= i < xa.len() ==> widens(#[trigger] xa[i], xb[i], (depth - 1) as nat),
            _ => a == b,
        }
    }
}

proof fn lemma_widens_field(a: JsonTree, b: JsonTree, depth: nat, key: Seq<char>)
    requires
        widens(a, b, depth),
        field(a, key) != JsonTree::Null,
    ensures
        depth == 0 ==> field(b, key) == field(a, key),
        depth > 0 ==> widens(field(a, key), field(b, key), (depth - 1) as nat),
{
    if depth > 0 {
        match (a, b) {
            (JsonTree::Object(ma), JsonTree::Object(mb)) => {
                assert(ma.contains_key(key));
            },
            _ => {},
        }
    }
}

proof fn lemma_widens_leaf(a: JsonTree, b: JsonTree, depth: nat)
    requires
        widens(a, b, depth),
        a is Text || a is Number,
    ensures
        b == a,
{
}

proof fn lemma_widens_text(a: JsonTree, b: JsonTree, depth: nat, key: Seq<char>)
    requires
        widens(a, b, depth),
    ensures
        text_at(a, key) is Some ==> text_at(b, key) == text_at(a, key),
        reading_at(a, key) is Some ==> reading_at(b, key) == reading_at(a, key),
{
    if field(a, key) != JsonTree::Null {
        lemma_widens_field(a, b, depth, key);
        if depth > 0 && (field(a, key) is Text || field(a, key) is Number) {
            lemma_widens_leaf(field(a, key), field(b, key), (depth - 1) as nat);
        }
    }
}

proof fn lemma_widens_condition(a: JsonTree, b: JsonTree, depth: nat)
    requires
        widens(a, b, depth),
        condition_of(a) is Some,
    ensures
        condition_of(b) == condition_of(a),
{
    lemma_widens_text(a, b, depth, "text"@);
    lemma_widens_text(a, b, depth, "icon"@);
}

proof fn lemma_widens_location(a: JsonTree, b: JsonTree, depth: nat)
    requires
        widens(a, b, depth),
        location_of(a) is Some,
    ensures
        location_of(b) == location_of(a),
{
    lemma_widens_text(a, b, depth, "name"@);
    lemma_widens_text(a, b, depth, "region"@);
    lemma_widens_text(a, b, depth, "country"@);
    lemma_widens_text(a, b, depth, "localtime"@);
}

proof fn lemma_widens_current(a: JsonTree, b: JsonTree, depth: nat)
    requires
        widens(a, b, depth),
        current_of(a) is Some,
    ensures
        current_of(b) == current_of(a),
{
    lemma_widens_text(a, b, depth, "temp_c"@);
    lemma_widens_text(a, b, depth, "feelslike_c"@);
    lemma_widens_text(a, b, depth, "wind_kph"@);
    lemma_widens_text(a, b, depth, "wind_dir"@);
    lemma_widens_text(a, b, depth, "precip_mm"@);
    let c = "condition"@;
    lemma_widens_field(a, b, depth, c);
    if depth > 0 {
        lemma_widens_condition(field(a, c), field(b, c), (depth - 1) as nat);
    }
}

proof fn lemma_widens_day(a: JsonTree, b: JsonTree, depth: nat)
    requires
        widens(a, b, depth),
        day_of(a) is Some,
    ensures
        day_of(b) == day_of(a),
{
    lemma_widens_text(a, b, depth, "date"@);
    let d = "day"@;
    lemma_widens_field(a, b, depth, d);
    if depth > 0 {
        let (x, y) = (field(a, d), field(b, d));
        lemma_widens_text(x, y, (depth - 1) as nat, "maxtemp_c"@);
        lemma_widens_text(x, y, (depth - 1) as nat, "mintemp_c"@);
        lemma_widens_text(x, y, (depth - 1) as nat, "totalprecip_mm"@);
    }
}

proof fn lemma_widens_days(xa: Seq<JsonTree>, xb: Seq<JsonTree>, depth: nat)
    requires
        xa.len() == xb.len(),
        forall|i: int| 0 <= i < xa.len() ==> widens(#[trigger] xa[i], xb[i], depth),
        days_of(xa) is Some,
    ensures
        days_of(xb) == days_of(xa),
    decreases xa.len(),
{
    if xa.len() > 0 {
        assert forall|i: int| 0 <= i < xa.drop_last().len() implies widens(
            #[trigger] xa.drop_last()[i],
            xb.drop_last()[i],
            depth,
        ) by {
            assert(xa.drop_last()[i] == xa[i]);
        }
        lemma_widens_days(xa.drop_last(), xb.drop_last(), depth);
        lemma_widens_day(xa.last(), xb.last(), depth);
    }
}

proof fn lemma_widens_forecast(a: JsonTree, b: JsonTree, depth: nat)
    requires
        widens(a, b, depth),
        forecast_of(a) is Some,
    ensures
        forecast_of(b) == forecast_of(a),
{
    let f = "forecastday"@;
    lemma_widens_field(a, b, depth, f);
    if depth > 1 {
        match (field(a, f), field(b, f)) {
            (JsonTree::Array(xa), JsonTree::Array(xb)) => {
                lemma_widens_days(xa, xb, (depth - 2) as nat);
            },
            _ => {},
        }
    }
}

/// Members that the model does not read change nothing: where `b` is the
/// document `a` with members added to its objects (`wind_mph`, `humidity`,
/// `pressure_mb`, ...), `b` decodes to the same answer as `a`.
pub proof fn lemma_extra_members_ignored(a: JsonTree, b: JsonTree, depth: nat, kind: FetchKind)
    requires
        widens(a, b, depth),
        weather_of(a, kind) is Some,
    ensures
        weather_of(b, kind) == weather_of(a, kind),
{
    let (l, c, f) = ("location"@, "current"@, "forecast"@);
    lemma_widens_field(a, b, depth, l);
    lemma_widens_field(a, b, depth, c);
    if depth > 0 {
        lemma_widens_location(field(a, l), field(b, l), (depth - 1) as nat);
        lemma_widens_current(field(a, c), field(b, c), (depth - 1) as nat);
    }
    if kind is Forecast {
        lemma_widens_field(a, b, depth, f);
        if depth > 0 {
            lemma_widens_forecast(field(a, f), field(b, f), (depth - 1) as nat);
        }
    }
}

/// The document that the API would send for an answer `w`, each reading
/// written in plain decimal notation.
pub open spec fn document_of(w: WeatherInfoView) -> JsonTree {
    let l = w.location;
    let c = w.current;
    let location = JsonTree::Object(
        map![
            "name"@ => JsonTree::Text(l.name),
            "region"@ => JsonTree::Text(l.region),
            "country"@ => JsonTree::Text(l.country),
            "localtime"@ => JsonTree::Text(l.localtime),
        ],
    );
    let condition = JsonTree::Object(
        map![
            "text"@ => JsonTree::Text(c.condition.text),
            "icon"@ => JsonTree::Text(c.condition.icon),
        ],
    );
    let current = JsonTree::Object(
        map![
            "temp_c"@ => JsonTree::Number(reading_text(c.temp_c)),
            "feelslike_c"@ => JsonTree::Number(reading_text(c.feelslike_c)),
            "wind_kph"@ => JsonTree::Number(reading_text(c.wind_kph)),
            "wind_dir"@ => JsonTree::Text(c.wind_dir),
            "precip_mm"@ => JsonTree::Number(reading_text(c.precip_mm)),
            "condition"@ => condition,
        ],
    );
    let root = map!["location"@ => location, "current"@ => current];
    match w.forecast {
        None => JsonTree::Object(root),
        Some(days) => JsonTree::Object(
            root.insert(
                "forecast"@,
                JsonTree::Object(
                    map!["forecastday"@ => JsonTree::Array(days.map_values(|d: ForecastDayView| day_document(d)))],
                ),
            ),
        ),
    }
}

/// The document of one forecast day.
pub open spec fn day_document(d: ForecastDayView) -> JsonTree {
    JsonTree::Object(
        map![
            "date"@ => JsonTree::Text(d.date),
            "day"@ => JsonTree::Object(
                map![
                    "maxtemp_c"@ => JsonTree::Number(reading_text(d.day.maxtemp_c)),
                    "mintemp_c"@ => JsonTree::Number(reading_text(d.day.mintemp_c)),
                    "totalprecip_mm"@ => JsonTree::Number(reading_text(d.day.totalprecip_mm)),
                ],
            ),
        ],
    )
}

/// Well-formed, and written out in at most `NUMERAL_MAX_LEN` characters.
pub open spec fn writable(r: Reading) -> bool {
    r.wf() && reading_text(r).len() <= NUMERAL_MAX_LEN
}

/// Every reading of the day is writable.
pub open spec fn day_wf(d: ForecastDayView) -> bool {
    writable(d.day.maxtemp_c) && writable(d.day.mintemp_c) && writable(d.day.totalprecip_mm)
}

/// Every reading of the answer is writable.
pub open spec fn answer_wf(w: WeatherInfoView) -> bool {
    &&& writable(w.current.temp_c)
    &&& writable(w.current.feelslike_c)
    &&& writable(w.current.wind_kph)
    &&& writable(w.current.precip_mm)
    &&& w.forecast matches Some(days) ==> forall|i: int| 0 <= i < days.len() ==> day_wf(#[trigger] days[i])
}

proof fn lemma_day_document(d: ForecastDayView)
    requires
        day_wf(d),
    ensures
        day_of(day_document(d)) == Some(d),
{
    reveal_strlit("date");
    reveal_strlit("day");
    reveal_strlit("maxtemp_c");
    reveal_strlit("mintemp_c");
    reveal_strlit("totalprecip_mm");
    assert("date"@.len() == 4 && "day"@.len() == 3);
    assert("maxtemp_c"@.len() == 9 && "mintemp_c"@.len() == 9 && "totalprecip_mm"@.len() == 14);
    assert("maxtemp_c"@[1] != "mintemp_c"@[1]);
    let m = map![
        "maxtemp_c"@ => JsonTree::Number(reading_text(d.day.maxtemp_c)),
        "mintemp_c"@ => JsonTree::Number(reading_text(d.day.mintemp_c)),
        "totalprecip_mm"@ => JsonTree::Number(reading_text(d.day.totalprecip_mm)),
    ];
    assert(field(day_document(d), "day"@) == JsonTree::Object(m));
    assert(m["maxtemp_c"@] == JsonTree::Number(reading_text(d.day.maxtemp_c)));
    assert(m["mintemp_c"@] == JsonTree::Number(reading_text(d.day.mintemp_c)));
    lemma_reading_text_parses(d.day.maxtemp_c);
    lemma_reading_text_parses(d.day.mintemp_c);
    lemma_reading_text_parses(d.day.totalprecip_mm);
}

proof fn lemma_days_document(days: Seq<ForecastDayView>)
    requires
        forall|i: int| 0 <= i < days.len() ==> day_wf(#[trigger] days[i]),
    ensures
        days_of(days.map_values(|d: ForecastDayView| day_document(d))) == Some(days),
    decreases days.len(),
{
    if days.len() > 0 {
        let docs = days.map_values(|d: ForecastDayView| day_document(d));
        assert(docs.drop_last() =~= days.drop_last().map_values(|d: ForecastDayView| day_document(d)));
        assert(forall|i: int| 0 <= i < days.drop_last().len() ==> days.drop_last()[i] == days[i]);
        lemma_days_document(days.drop_last());
        lemma_day_document(days.last());
        assert(days.drop_last().push(days.last()) =~= days);
    }
}

proof fn lemma_location_document(w: WeatherInfoView)
    ensures
        location_of(field(document_of(w), "location"@)) == Some(w.location),
{
    reveal_strlit("location");
    reveal_strlit("current");
    reveal_strlit("forecast");
    reveal_strlit("name");
    reveal_strlit("region");
    reveal_strlit("country");
    reveal_strlit("localtime");
    assert("location"@.len() == 8 && "current"@.len() == 7 && "forecast"@.len() == 8);
    assert("location"@[0] != "forecast"@[0]);
    assert("name"@.len() == 4 && "region"@.len() == 6 && "country"@.len() == 7 && "localtime"@.len() == 9);
    let l = w.location;
    let m = map![
        "name"@ => JsonTree::Text(l.name),
        "region"@ => JsonTree::Text(l.region),
        "country"@ => JsonTree::Text(l.country),
        "localtime"@ => JsonTree::Text(l.localtime),
    ];
    assert(field(document_of(w), "location"@) == JsonTree::Object(m));
    assert(m.contains_key("name"@) && m["name"@] == JsonTree::Text(l.name));
    assert(m.contains_key("region"@) && m["region"@] == JsonTree::Text(l.region));
    assert(m.contains_key("country"@) && m["country"@] == JsonTree::Text(l.country));
    assert(m.contains_key("localtime"@) && m["localtime"@] == JsonTree::Text(l.localtime));
}

proof fn lemma_current_document(w: WeatherInfoView)
    requires
        answer_wf(w),
    ensures
        current_of(field(document_of(w), "current"@)) == Some(w.current),
{
    reveal_strlit("location");
    reveal_strlit("current");
    reveal_strlit("forecast");
    reveal_strlit("temp_c");
    reveal_strlit("feelslike_c");
    reveal_strlit("wind_kph");
    reveal_strlit("wind_dir");
    reveal_strlit("precip_mm");
    reveal_strlit("condition");
    reveal_strlit("text");
    reveal_strlit("icon");
    assert("location"@.len() == 8 && "current"@.len() == 7 && "forecast"@.len() == 8);
    assert("temp_c"@.len() == 6 && "feelslike_c"@.len() == 11 && "wind_kph"@.len() == 8);
    assert("wind_dir"@.len() == 8 && "precip_mm"@.len() == 9 && "condition"@.len() == 9);
    assert("text"@.len() == 4 && "icon"@.len() == 4);
    assert("wind_kph"@[5] != "wind_dir"@[5]);
    assert("precip_mm"@[0] != "condition"@[0]);
    assert("text"@[0] != "icon"@[0]);
    let c = w.current;
    let cond = map!["text"@ => JsonTree::Text(c.condition.text), "icon"@ => JsonTree::Text(c.condition.icon)];
    let m = map![
        "temp_c"@ => JsonTree::Number(reading_text(c.temp_c)),
        "feelslike_c"@ => JsonTree::Number(reading_text(c.feelslike_c)),
        "wind_kph"@ => JsonTree::Number(reading_text(c.wind_kph)),
        "wind_dir"@ => JsonTree::Text(c.wind_dir),
        "precip_mm"@ => JsonTree::Number(reading_text(c.precip_mm)),
        "condition"@ => JsonTree::Object(cond),
    ];
    assert(field(document_of(w), "current"@) == JsonTree::Object(m));
    assert(m["temp_c"@] == JsonTree::Number(reading_text(c.temp_c)));
    assert(m["feelslike_c"@] == JsonTree::Number(reading_text(c.feelslike_c)));
    assert(m["wind_kph"@] == JsonTree::Number(reading_text(c.wind_kph)));
    assert(m["wind_dir"@] == JsonTree::Text(c.wind_dir));
    assert(m["precip_mm"@] == JsonTree::Number(reading_text(c.precip_mm)));
    assert(m["condition"@] == JsonTree::Object(cond));
    assert(cond["text"@] == JsonTree::Text(c.condition.text));
    lemma_reading_text_parses(c.temp_c);
    lemma_reading_text_parses(c.feelslike_c);
    lemma_reading_text_parses(c.wind_kph);
    lemma_reading_text_parses(c.precip_mm);
}

/// Decoding gives back what was encoded: the document of an answer `w`
/// whose readings are writable decodes to `w`, for the request kind that matches it (a
/// forecast request where `w` has forecast days, a current-weather request
/// where it has none).
pub proof fn lemma_document_round_trip(w: WeatherInfoView, kind: FetchKind)
    requires
        answer_wf(w),
        kind is Current <==> w.forecast is None,
    ensures
        weather_of(document_of(w), kind) == Some(w),
{
    lemma_location_document(w);
    lemma_current_document(w);
    if let Some(days) = w.forecast {
        reveal_strlit("location");
        reveal_strlit("current");
        reveal_strlit("forecast");
        reveal_strlit("forecastday");
        lemma_days_document(days);
    }
}

fn member_tree<'a>(v: &'a serde_json::Value, key: &str) -> (r: Option<&'a serde_json::Value>)
    ensures
        match r {
            Some(x) => json_tree(*x) == field(json_tree(*v), key@),
            None => field(json_tree(*v), key@) == JsonTree::Null,
        },
{
    member(v, key)
}

fn read_text(v: &serde_json::Value, key: &str) -> (r: Option<String>)
    ensures
        match r {
            Some(s) => text_at(json_tree(*v), key@) == Some(s@),
            None => text_at(json_tree(*v), key@) is None,
        },
{
    match member_tree(v, key) {
        Some(x) => match as_text(x) {
            Some(s) => Some(String::from_str(s)),
            None => None,
        },
        None => None,
    }
}

fn read_reading(v: &serde_json::Value, key: &str) -> (r: Option<Reading>)
    ensures
        r == reading_at(json_tree(*v), key@),
        has_number(json_tree(*v), key@) ==> r is Some,
{
    match member_tree(v, key) {
        Some(x) => match number_text(x) {
            Some(s) => Reading::parse(s.as_str()),
            None => None,
        },
        None => None,
    }
}

fn read_location(v: &serde_json::Value) -> (r: Option<Location>)
    ensures
        match r {
            Some(x) => location_of(json_tree(*v)) == Some(x@),
            None => location_of(json_tree(*v)) is None,
        },
        location_shape(json_tree(*v)) ==> r is Some,
{
    let name = read_text(v, "name");
    let region = read_text(v, "region");
    let country = read_text(v, "country");
    let localtime = read_text(v, "localtime");
    match (name, region, country, localtime) {
        (Some(name), Some(region), Some(country), Some(localtime)) => Some(
            Location { name, region, country, localtime },
        ),
        _ => None,
    }
}

fn read_condition(v: &serde_json::Value) -> (r: Option<Condition>)
    ensures
        match r {
            Some(x) => condition_of(json_tree(*v)) == Some(x@),
            None => condition_of(json_tree(*v)) is None,
        },
        condition_shape(json_tree(*v)) ==> r is Some,
{
    match (read_text(v, "text"), read_text(v, "icon")) {
        (Some(text), Some(icon)) => Some(Condition { text, icon }),
        _ => None,
    }
}

fn read_condition_at(v: &serde_json::Value, key: &str) -> (r: Option<Condition>)
    ensures
        match r {
            Some(x) => condition_of(field(json_tree(*v), key@)) == Some(x@),
            None => condition_of(field(json_tree(*v), key@)) is None,
        },
        condition_shape(field(json_tree(*v), key@)) ==> r is Some,
{
    match member_tree(v, key) {
        Some(x) => read_condition(x),
        None => None,
    }
}

fn read_current(v: &serde_json::Value) -> (r: Option<CurrentWeather>)
    ensures
        match r {
            Some(x) => current_of(json_tree(*v)) == Some(x@),
            None => current_of(json_tree(*v)) is None,
        },
        current_shape(json_tree(*v)) ==> r is Some,
{
    let temp_c = read_reading(v, "temp_c");
    let feelslike_c = read_reading(v, "feelslike_c");
    let wind_kph = read_reading(v, "wind_kph");
    let wind_dir = read_text(v, "wind_dir");
    let precip_mm = read_reading(v, "precip_mm");
    let condition = read_condition_at(v, "condition");
    match (temp_c, feelslike_c, wind_kph, wind_dir, precip_mm, condition) {
        (
            Some(temp_c),
            Some(feelslike_c),
            Some(wind_kph),
            Some(wind_dir),
            Some(precip_mm),
            Some(condition),
        ) => Some(CurrentWeather { temp_c, feelslike_c, wind_kph, wind_dir, precip_mm, condition }),
        _ => None,
    }
}

fn read_day_weather(v: &serde_json::Value) -> (r: Option<ForecastDayWeather>)
    ensures
        r == day_weather_of(json_tree(*v)),
        has_number(json_tree(*v), "maxtemp_c"@) && has_number(json_tree(*v), "mintemp_c"@)
            && has_number(json_tree(*v), "totalprecip_mm"@) ==> r is Some,
{
    match (read_reading(v, "maxtemp_c"), read_reading(v, "mintemp_c"), read_reading(v, "totalprecip_mm")) {
        (Some(maxtemp_c), Some(mintemp_c), Some(totalprecip_mm)) => Some(
            ForecastDayWeather { maxtemp_c, mintemp_c, totalprecip_mm },
        ),
        _ => None,
    }
}

fn read_day(v: &serde_json::Value) -> (r: Option<ForecastDay>)
    ensures
        match r {
            Some(x) => day_of(json_tree(*v)) == Some(x@),
            None => day_of(json_tree(*v)) is None,
        },
        day_shape(json_tree(*v)) ==> r is Some,
{
    let date = read_text(v, "date");
    let day = match member_tree(v, "day") {
        Some(x) => read_day_weather(x),
        None => None,
    };
    match (date, day) {
        (Some(date), Some(day)) => Some(ForecastDay { date, day }),
        _ => None,
    }
}

proof fn lemma_days_of_prefix(items: Seq<JsonTree>, j: int)
    requires
        0 <= j <= items.len(),
        days_of(items.take(j)) is None,
    ensures
        days_of(items) is None,
    decreases items.len(),
{
    if j < items.len() {
        assert(items.take(j) =~= items.drop_last().take(j));
        lemma_days_of_prefix(items.drop_last(), j);
    } else {
        assert(items.take(j) =~= items);
    }
}

fn read_forecast(v: &serde_json::Value) -> (r: Option<Forecast>)
    ensures
        match r {
            Some(x) => forecast_of(json_tree(*v)) == Some(x@),
            None => forecast_of(json_tree(*v)) is None,
        },
        forecast_shape(json_tree(*v)) ==> r is Some,
{
    let x = match member_tree(v, "forecastday") {
        Some(x) => x,
        None => {
            return None;
        },
    };
    let items = match as_items(x) {
        Some(items) => items,
        None => {
            return None;
        },
    };
    let ghost trees = items@.map_values(|e: serde_json::Value| json_tree(e));
    assert(json_tree(*x) == JsonTree::Array(trees));
    assert(forecast_of(json_tree(*v)) == days_of(trees));
    let n = items.len();
    let mut days: Vec<ForecastDay> = Vec::new();
    let mut i: usize = 0;
    while i < n
        invariant
            n == items@.len(),
            trees == items@.map_values(|e: serde_json::Value| json_tree(e)),
            forecast_of(json_tree(*v)) == days_of(trees),
            field(json_tree(*v), "forecastday"@) == JsonTree::Array(trees),
            i <= n,
            days_of(trees.take(i as int)) == Some(days@.map_values(|d: ForecastDay| d@)),
        decreases n - i,
    {
        assert(trees.take(i + 1).drop_last() =~= trees.take(i as int));
        assert(trees.take(i + 1).last() == json_tree(items@[i as int]));
        match read_day(&items[i]) {
            Some(d) => {
                let ghost before = days@;
                days.push(d);
                assert(days@.map_values(|d: ForecastDay| d@) =~= before.map_values(
                    |d: ForecastDay| d@,
                ).push(d@));
            },
            None => {
                assert(trees[i as int] == json_tree(items@[i as int]));
                assert(!day_shape(trees[i as int]));
                assert(days_of(trees.take(i + 1)) is None);
                proof {
                    lemma_days_of_prefix(trees, i + 1);
                }
                return None;
            },
        }
        i = i + 1;
    }
    assert(trees.take(n as int) =~= trees);
    Some(Forecast { forecastday: days })
}

/// Decodes a parsed document as the answer to a request of `kind`: the
/// location and the current weather always, the forecast days for a
/// forecast request. Members outside the model are ignored.
pub fn decode_document(doc: &serde_json::Value, kind: &FetchKind) -> (r: Result<WeatherInfo, WeatherError>)
    ensures
        match r {
            Ok(w) => weather_of(json_tree(*doc), *kind) == Some(w@),
            Err(e) => e == WeatherError::Decode && weather_of(json_tree(*doc), *kind) is None,
        },
        r is Ok <==> has_answer(json_tree(*doc), *kind),
{
    let location = match member_tree(doc, "location") {
        Some(x) => read_location(x),
        None => None,
    };
    let current = match member_tree(doc, "current") {
        Some(x) => read_current(x),
        None => None,
    };
    let (location, current) = match (location, current) {
        (Some(l), Some(c)) => (l, c),
        _ => {
            return Err(WeatherError::Decode);
        },
    };
    let forecast = match kind {
        FetchKind::Current => None,
        FetchKind::Forecast { .. } => {
            let f = match member_tree(doc, "forecast") {
                Some(x) => read_forecast(x),
                None => None,
            };
            match f {
                Some(f) => Some(f),
                None => {
                    return Err(WeatherError::Decode);
                },
            }
        },
    };
    proof {
        lemma_decodes_only_answers(json_tree(*doc), *kind);
    }
    Ok(WeatherInfo { location, current, forecast })
}

/// Decodes a response body as the answer to a request of `kind`; a body
/// that is no JSON document is a decode error too.
pub fn decode_weather_info(body: &str, kind: &FetchKind) -> (r: Result<WeatherInfo, WeatherError>)
    ensures
        match r {
            Ok(w) => decoded(body@, *kind) == Some(w@),
            Err(e) => e == WeatherError::Decode && decoded(body@, *kind) is None,
        },
        r is Ok <==> (json_document(body@) matches Some(t) && has_answer(t, *kind)),
{
    match parse_document(body) {
        Ok(doc) => decode_document(&doc, kind),
        Err(_) => Err(WeatherError::Decode),
    }
}

} // verus!
