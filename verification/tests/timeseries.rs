use chrono::TimeZone;
use emseries::{exact_time, time_range, DateTimeTz, Record, Recordable, Series};

#[derive(Debug, PartialEq)]
struct BikeTrip {
    datetime: DateTimeTz,
    distance: f64,
    duration: f64,
    comments: String,
}

impl Clone for BikeTrip {
    fn clone(&self) -> BikeTrip {
        BikeTrip {
            datetime: self.datetime.duplicate(),
            distance: self.distance,
            duration: self.duration,
            comments: self.comments.clone(),
        }
    }
}

impl Recordable for BikeTrip {
    // The specification members take no part at run time.
    fn parses_to(_s: vstd::seq::Seq<char>) -> Option<BikeTrip> {
        panic!()
    }

    fn timestamp_spec(&self) -> DateTimeTz {
        panic!()
    }

    fn tags_spec(&self) -> vstd::seq::Seq<vstd::seq::Seq<char>> {
        panic!()
    }

    fn timestamp(&self) -> DateTimeTz {
        self.datetime.duplicate()
    }

    fn tags(&self) -> Vec<String> {
        Vec::new()
    }

    fn to_json(&self) -> String {
        let mut m = serde_json::Map::new();
        m.insert(String::from("comments"), serde_json::Value::String(self.comments.clone()));
        m.insert(String::from("datetime"), serde_json::Value::String(self.datetime.to_string()));
        m.insert(
            String::from("distance"),
            serde_json::Value::Number(serde_json::Number::from_f64(self.distance).unwrap()),
        );
        m.insert(
            String::from("duration"),
            serde_json::Value::Number(serde_json::Number::from_f64(self.duration).unwrap()),
        );
        serde_json::to_string(&serde_json::Value::Object(m)).unwrap()
    }

    fn from_json(s: &str) -> Option<BikeTrip> {
        let v: serde_json::Value = serde_json::from_str(s).ok()?;
        Some(BikeTrip {
            datetime: DateTimeTz::from_str(v.get("datetime")?.as_str()?)?,
            distance: v.get("distance")?.as_f64()?,
            duration: v.get("duration")?.as_f64()?,
            comments: String::from(v.get("comments")?.as_str()?),
        })
    }

    fn duplicate(&self) -> BikeTrip {
        self.clone()
    }
}

fn dt(y: i32, mo: u32, d: u32) -> DateTimeTz {
    DateTimeTz::utc(chrono_tz::Etc::UTC.with_ymd_and_hms(y, mo, d, 0, 0, 0).unwrap().timestamp())
        .unwrap()
}

fn mk_trips() -> [BikeTrip; 5] {
    [
        BikeTrip {
            datetime: dt(2011, 10, 29),
            distance: 58741.055,
            duration: 11040.0,
            comments: String::from("long time ago"),
        },
        BikeTrip {
            datetime: dt(2011, 10, 31),
            distance: 17702.0,
            duration: 2880.0,
            comments: String::from("day 2"),
        },
        BikeTrip {
            datetime: dt(2011, 11, 02),
            distance: 41842.945,
            duration: 7020.0,
            comments: String::from("Do Some Distance!"),
        },
        BikeTrip {
            datetime: dt(2011, 11, 04),
            distance: 34600.895,
            duration: 5580.0,
            comments: String::from("I did a lot of distance back then"),
        },
        BikeTrip {
            datetime: dt(2011, 11, 05),
            distance: 6437.376,
            duration: 960.0,
            comments: String::from("day 5"),
        },
    ]
}

fn by_time(l: &Record<BikeTrip>, r: &Record<BikeTrip>) -> bool {
    l.timestamp() <= r.timestamp()
}

#[test]
pub fn timeseries_can_add_and_retrieve_entries() {
    let trips = mk_trips();
    let mut ts: Series<BikeTrip> =
        Series::open(Vec::new()).expect("expect the time series to open correctly");
    let (uuid, _line) = ts.put(trips[0].clone());
    let record_res = ts.get(&uuid);

    for trip in &trips[1..=4] {
        ts.put(trip.clone());
    }

    match record_res {
        None => panic!("There should have been a value here"),
        Some(tr) => {
            assert_eq!(tr.id, uuid);
            assert_eq!(tr.timestamp(), dt(2011, 10, 29));
            assert_eq!(tr.data.duration, 11040.0);
            assert_eq!(tr.data.comments, String::from("long time ago"));
            assert_eq!(tr.data, trips[0]);
        },
    }
}

#[test]
pub fn timeseries_can_search_for_an_entry_with_exact_time() {
    let trips = mk_trips();
    let mut ts: Series<BikeTrip> =
        Series::open(Vec::new()).expect("expect the time series to open correctly");

    for trip in &trips[0..=4] {
        ts.put(trip.clone());
    }

    let v = ts.search(exact_time(dt(2011, 10, 31)));
    assert_eq!(v.len(), 1);
    assert_eq!(v[0].data, trips[1]);
}

#[test]
pub fn timeseries_can_get_entries_in_time_range() {
    let trips = mk_trips();
    let mut ts: Series<BikeTrip> =
        Series::open(Vec::new()).expect("expect the time series to open correctly");

    for trip in &trips[0..=4] {
        ts.put(trip.clone());
    }

    let v = ts.search_sorted(time_range(dt(2011, 10, 31), true, dt(2011, 11, 04), true), by_time);
    assert_eq!(v.len(), 3);
    assert_eq!(v[0].data, trips[1]);
    assert_eq!(v[1].data, trips[2]);
    assert_eq!(v[2].data, trips[3]);
}

#[test]
pub fn timeseries_persists_and_reads_an_entry() {
    let trips = mk_trips();
    let mut lines: Vec<String> = Vec::new();

    {
        let mut ts: Series<BikeTrip> =
            Series::open(Vec::new()).expect("expect the time series to open correctly");
        for trip in &trips[0..=4] {
            let (_id, line) = ts.put(trip.clone());
            lines.push(line);
        }
    }

    {
        let ts: Series<BikeTrip> =
            Series::open(lines.clone()).expect("expect the time series to open correctly");
        let v =
            ts.search_sorted(time_range(dt(2011, 10, 31), true, dt(2011, 11, 04), true), by_time);
        assert_eq!(v.len(), 3);
        assert_eq!(v[0].data, trips[1]);
        assert_eq!(v[1].data, trips[2]);
        assert_eq!(v[2].data, trips[3]);
    }
}

#[test]
pub fn timeseries_can_write_to_existing_file() {
    let trips = mk_trips();
    let mut lines: Vec<String> = Vec::new();

    {
        let mut ts: Series<BikeTrip> =
            Series::open(Vec::new()).expect("expect the time series to open correctly");
        for trip in &trips[0..=2] {
            let (_id, line) = ts.put(trip.clone());
            lines.push(line);
        }
    }

    {
        let mut ts: Series<BikeTrip> =
            Series::open(lines.clone()).expect("expect the time series to open correctly");
        let v =
            ts.search_sorted(time_range(dt(2011, 10, 31), true, dt(2011, 11, 04), true), by_time);
        assert_eq!(v.len(), 2);
        assert_eq!(v[0].data, trips[1]);
        assert_eq!(v[1].data, trips[2]);
        let (_id, line) = ts.put(trips[3].clone());
        lines.push(line);
        let (_id, line) = ts.put(trips[4].clone());
        lines.push(line);
    }

    {
        let ts: Series<BikeTrip> =
            Series::open(lines.clone()).expect("expect the time series to open correctly");
        let v =
            ts.search_sorted(time_range(dt(2011, 10, 31), true, dt(2011, 11, 05), true), by_time);
        assert_eq!(v.len(), 4);
        assert_eq!(v[0].data, trips[1]);
        assert_eq!(v[1].data, trips[2]);
        assert_eq!(v[2].data, trips[3]);
        assert_eq!(v[3].data, trips[4]);
    }
}

#[test]
pub fn timeseries_can_overwrite_existing_entry() {
    let trips = mk_trips();
    let mut ts: Series<BikeTrip> =
        Series::open(Vec::new()).expect("expect the time series to open correctly");

    ts.put(trips[0].clone());
    ts.put(trips[1].clone());
    let (trip_id, _line) = ts.put(trips[2].clone());

    match ts.get(&trip_id) {
        None => panic!("record not found"),
        Some(mut trip) => {
            trip.data.distance = 50000.0;
            ts.update(trip);
        },
    };

    match ts.get(&trip_id) {
        None => panic!("record not found"),
        Some(trip) => {
            assert_eq!(trip.data.datetime, dt(2011, 11, 02));
            assert_eq!(trip.data.distance, 50000.0);
            assert_eq!(trip.data.duration, 7020.0);
            assert_eq!(trip.data.comments, String::from("Do Some Distance!"));
        },
    }
}

#[test]
pub fn timeseries_record_overwrites_get_persisted() {
    let trips = mk_trips();
    let mut lines: Vec<String> = Vec::new();

    {
        let mut ts: Series<BikeTrip> =
            Series::open(Vec::new()).expect("expect the time series to open correctly");

        let (_id, line) = ts.put(trips[0].clone());
        lines.push(line);
        let (_id, line) = ts.put(trips[1].clone());
        lines.push(line);
        let (trip_id, line) = ts.put(trips[2].clone());
        lines.push(line);

        match ts.get(&trip_id) {
            None => panic!("record not found"),
            Some(mut trip) => {
                trip.data.distance = 50000.0;
                let line = ts.update(trip);
                lines.push(line);
            },
        };
    }

    {
        let ts: Series<BikeTrip> =
            Series::open(lines.clone()).expect("expect the time series to open correctly");

        assert_eq!(ts.all_records().len(), 3);

        let found = ts.search(exact_time(dt(2011, 11, 02)));
        assert_eq!(found.len(), 1);
        assert_eq!(found[0].data.datetime, dt(2011, 11, 02));
        assert_eq!(found[0].data.distance, 50000.0);
        assert_eq!(found[0].data.duration, 7020.0);
        assert_eq!(found[0].data.comments, String::from("Do Some Distance!"));
    }
}
