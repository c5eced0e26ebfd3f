use home_clock::forecast::hour_from_time;
use home_clock::weather::{
    get_weather_icon, Condition, Current, Day, Forecast, ForecastDay, Hour, Location, Weather,
    WeatherIconType, WeatherReaponse,
};

fn hour(time: &str, epoch: i64, rain: u8) -> Hour {
    Hour {
        time: time.to_string(),
        time_epoch: epoch,
        temp_deci_c: 123,
        is_day: 1,
        chance_of_rain: rain,
        condition: Condition { code: 1000 },
    }
}

fn payload(days: Vec<Vec<Hour>>, reference: i64) -> WeatherReaponse {
    WeatherReaponse {
        location: Location {
            name: "Sapporo".to_string(),
            region: "Hokkaido".to_string(),
            country: "Japan".to_string(),
            tz_id: "Asia/Tokyo".to_string(),
            localtime_epoch: reference,
            localtime: "2024-01-12 12:00".to_string(),
        },
        current: Current {
            temp_deci_c: -15,
            is_day: 1,
            condition: Condition { code: 1003 },
        },
        forecast: Forecast {
            forecastday: days
                .into_iter()
                .map(|hours| ForecastDay {
                    date: "2024-01-12".to_string(),
                    date_epoch: 0,
                    day: Day {},
                    hour: hours,
                })
                .collect(),
        },
    }
}

#[test]
fn classify_clear_sky_by_day_and_night() {
    assert_eq!(get_weather_icon(1000, true), WeatherIconType::Sun);
    assert_eq!(get_weather_icon(1000, false), WeatherIconType::Moon);
}

#[test]
fn classify_thunder_codes() {
    assert_eq!(get_weather_icon(1087, true), WeatherIconType::Thunder);
    assert_eq!(get_weather_icon(1087, false), WeatherIconType::Thunder);
    assert_eq!(get_weather_icon(1282, true), WeatherIconType::Thunder);
}

#[test]
fn classify_unknown_codes_fall_back_to_cloud() {
    assert_eq!(get_weather_icon(9999, true), WeatherIconType::Cloud);
    assert_eq!(get_weather_icon(9999, false), WeatherIconType::Cloud);
    assert_eq!(get_weather_icon(0, true), WeatherIconType::Cloud);
}

#[test]
fn classify_precipitation_families() {
    assert_eq!(get_weather_icon(1003, true), WeatherIconType::Cloud);
    assert_eq!(get_weather_icon(1171, true), WeatherIconType::Rain);
    assert_eq!(get_weather_icon(1240, false), WeatherIconType::Rain);
    assert_eq!(get_weather_icon(1066, true), WeatherIconType::Snow);
    assert_eq!(get_weather_icon(1264, false), WeatherIconType::Snow);
}

#[test]
fn normalize_two_day_payload_keeps_four_ascending_points_from_reference() {
    let t0: i64 = 1_700_000_000;
    let day1 = vec![
        hour("2024-01-12 10:00", t0 - 7200, 0),
        hour("2024-01-12 11:00", t0 - 3600, 10),
        hour("2024-01-12 12:00", t0, 20),
    ];
    let day2 = vec![
        hour("2024-01-13 13:00", t0 + 3600, 30),
        hour("2024-01-13 14:00", t0 + 7200, 40),
        hour("2024-01-13 15:00", t0 + 10800, 50),
    ];
    let w = Weather::parse_weather(payload(vec![day1, day2], t0));
    assert_eq!(w.forecast.len(), 4);
    let epochs: Vec<i64> = w.forecast.iter().map(|h| h.time_epoch).collect();
    assert_eq!(epochs, vec![t0, t0 + 3600, t0 + 7200, t0 + 10800]);
    assert!(w.forecast.iter().all(|h| h.time_epoch >= t0));
    assert!(epochs.windows(2).all(|p| p[0] < p[1]));
}

#[test]
fn normalize_keeps_fewer_points_when_fewer_remain() {
    let t0: i64 = 1_700_000_000;
    let day1 = vec![
        hour("2024-01-12 10:00", t0 - 7200, 0),
        hour("2024-01-12 23:00", t0 + 3600, 60),
    ];
    let w = Weather::parse_weather(payload(vec![day1], t0));
    assert_eq!(w.forecast.len(), 1);
    assert_eq!(w.forecast[0].time_epoch, t0 + 3600);
    assert_eq!(w.forecast[0].chance_of_rain, 60);
}

#[test]
fn normalize_copies_the_current_reading_verbatim() {
    let w = Weather::parse_weather(payload(vec![], 0));
    assert_eq!(w.current.temp_deci_c, -15);
    assert_eq!(w.current.is_day, 1);
    assert_eq!(w.current.condition.code, 1003);
    assert_eq!(w.forecast.len(), 0);
}

#[test]
fn hour_from_time_reads_the_hour_field() {
    assert_eq!(hour_from_time("2024-01-12 22:00"), 22);
    assert_eq!(hour_from_time("2024-01-12 07:30"), 7);
    assert_eq!(hour_from_time("x 0:59"), 0);
}

#[test]
fn hour_from_time_is_zero_for_malformed_labels() {
    assert_eq!(hour_from_time("no-space-here"), 0);
    assert_eq!(hour_from_time(""), 0);
    assert_eq!(hour_from_time("a b:c"), 0);
    assert_eq!(hour_from_time("trailing "), 0);
    assert_eq!(hour_from_time("x :55"), 0);
    assert_eq!(hour_from_time("x 300:00"), 0);
}
