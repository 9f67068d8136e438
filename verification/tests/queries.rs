use photo_album::get_holiday_photos;
use photo_album::Album;
use photo_album::Photo;

fn from_ymdhms(year: i32, month: u32, day: u32, hour: u32, min: u32, sec: u32) -> i64 {
    chrono::NaiveDate::from_ymd_opt(year, month, day)
        .unwrap()
        .and_hms_opt(hour, min, sec)
        .unwrap()
        .and_utc()
        .timestamp()
}

fn create_album() -> Album {
    Album {
        id: 0,
        name: String::from("Nature"),
        photos: vec![
            Photo {
                id: 0,
                name: String::from("Acacia"),
                date_time: from_ymdhms(2021, 5, 4, 12, 0, 0),
            },
            Photo {
                id: 1,
                name: String::from("Begonia"),
                date_time: from_ymdhms(2021, 5, 30, 12, 0, 0),
            },
            Photo {
                id: 2,
                name: String::from("Camellia"),
                date_time: from_ymdhms(2021, 6, 12, 14, 0, 0),
            },
            Photo {
                id: 3,
                name: String::from("Daisy"),
                date_time: from_ymdhms(2021, 6, 14, 14, 0, 0),
            },
            Photo {
                id: 4,
                name: String::from("Eustoma"),
                date_time: from_ymdhms(2021, 8, 11, 14, 0, 0),
            },
            Photo {
                id: 5,
                name: String::from("Forget Me Not"),
                date_time: from_ymdhms(2021, 8, 11, 14, 0, 0),
            },
            Photo {
                id: 6,
                name: String::from("Snow"),
                date_time: from_ymdhms(2021, 12, 11, 14, 0, 0),
            },
            Photo {
                id: 7,
                name: String::from("More snow"),
                date_time: from_ymdhms(2021, 12, 15, 14, 0, 0),
            },
            Photo {
                id: 8,
                name: String::from("Moon"),
                date_time: from_ymdhms(2022, 1, 1, 14, 0, 0),
            },
            Photo {
                id: 9,
                name: String::from("More moon"),
                date_time: from_ymdhms(2022, 6, 1, 14, 0, 0),
            },
            Photo {
                id: 10,
                name: String::from("Snow"),
                date_time: from_ymdhms(2022, 12, 1, 14, 0, 0),
            },
        ],
    }
}

#[test]
fn test_get_photos() {
    let a = create_album();

    let got = a.get_photos(
        from_ymdhms(2021, 6, 13, 12, 0, 0),
        from_ymdhms(2021, 9, 1, 0, 0, 0),
    );
    let want = vec![
        Photo {
            id: 3,
            name: String::from("Daisy"),
            date_time: from_ymdhms(2021, 6, 14, 14, 0, 0),
        },
        Photo {
            id: 4,
            name: String::from("Eustoma"),
            date_time: from_ymdhms(2021, 8, 11, 14, 0, 0),
        },
        Photo {
            id: 5,
            name: String::from("Forget Me Not"),
            date_time: from_ymdhms(2021, 8, 11, 14, 0, 0),
        },
    ];

    assert_eq!(got, want);
}

#[test]
fn test_get_holiday_photos() {
    let a = create_album();

    let got = get_holiday_photos(&a, 2021);
    let want = vec![
        Photo {
            id: 2,
            name: String::from("Camellia"),
            date_time: from_ymdhms(2021, 6, 12, 14, 0, 0),
        },
        Photo {
            id: 3,
            name: String::from("Daisy"),
            date_time: from_ymdhms(2021, 6, 14, 14, 0, 0),
        },
        Photo {
            id: 6,
            name: String::from("Snow"),
            date_time: from_ymdhms(2021, 12, 11, 14, 0, 0),
        },
        Photo {
            id: 7,
            name: String::from("More snow"),
            date_time: from_ymdhms(2021, 12, 15, 14, 0, 0),
        },
    ];
    assert_eq!(got, want);
}

fn album_to_json(album: &Album) -> String {
    let mut photos: Vec<serde_json::Value> = Vec::new();
    for p in &album.photos {
        let mut obj = serde_json::Map::new();
        obj.insert(String::from("id"), serde_json::Value::from(p.id));
        obj.insert(String::from("name"), serde_json::Value::from(p.name.clone()));
        obj.insert(String::from("date_time"), serde_json::Value::from(p.date_time));
        photos.push(serde_json::Value::Object(obj));
    }
    let mut root = serde_json::Map::new();
    root.insert(String::from("id"), serde_json::Value::from(album.id));
    root.insert(String::from("name"), serde_json::Value::from(album.name.clone()));
    root.insert(String::from("photos"), serde_json::Value::Array(photos));
    serde_json::to_string(&serde_json::Value::Object(root)).unwrap()
}

#[test]
fn test_get_holiday_photos_not_mutating_input() {
    let album = create_album();

    let serialized_album = album_to_json(&album);

    get_holiday_photos(&album, 2021);

    let postmortem_serialized_album = album_to_json(&album);

    assert_eq!(postmortem_serialized_album, serialized_album);
}

#[test]
fn boundary_is_inclusive_at_start_exclusive_at_end() {
    let a = create_album();
    let t = from_ymdhms(2021, 8, 11, 14, 0, 0);

    // [t, t + 1) holds exactly the photos captured at instant t, ties kept
    // in their original order.
    let at_t = a.get_photos(t, t + 1);
    let ids: Vec<u64> = at_t.iter().map(|p| p.id).collect();
    assert_eq!(ids, vec![4, 5]);

    // A window that ends at t excludes the photos captured at t.
    let before_t = a.get_photos(from_ymdhms(2021, 1, 1, 0, 0, 0), t);
    assert!(before_t.iter().all(|p| p.date_time != t));
    let ids: Vec<u64> = before_t.iter().map(|p| p.id).collect();
    assert_eq!(ids, vec![0, 1, 2, 3]);
}

#[test]
fn widening_keeps_every_photo() {
    let a = create_album();
    let narrow = a
        .get_photos(
            from_ymdhms(2021, 6, 1, 0, 0, 0),
            from_ymdhms(2021, 9, 1, 0, 0, 0),
        )
        .to_vec();
    let wide = a
        .get_photos(
            from_ymdhms(2021, 1, 1, 0, 0, 0),
            from_ymdhms(2022, 1, 1, 0, 0, 0),
        )
        .to_vec();
    assert!(!narrow.is_empty());
    for p in &narrow {
        assert!(wide.contains(p));
    }
}

#[test]
fn inverted_and_empty_intervals_select_nothing() {
    let a = create_album();
    let lo = from_ymdhms(2021, 6, 1, 0, 0, 0);
    let hi = from_ymdhms(2021, 9, 1, 0, 0, 0);
    assert!(a.get_photos(hi, lo).is_empty());
    assert!(a.get_photos(lo, lo).is_empty());

    let empty = Album { id: 7, name: String::from("Empty"), photos: Vec::new() };
    assert!(empty.get_photos(lo, hi).is_empty());
    assert!(get_holiday_photos(&empty, 2021).is_empty());
}

#[test]
fn holiday_photos_decompose_into_window_queries() {
    let a = create_album();
    let june = a
        .get_photos(
            from_ymdhms(2021, 6, 1, 0, 0, 0),
            from_ymdhms(2021, 7, 1, 0, 0, 0),
        )
        .to_vec();
    let december = a
        .get_photos(
            from_ymdhms(2021, 12, 1, 0, 0, 0),
            from_ymdhms(2022, 1, 1, 0, 0, 0),
        )
        .to_vec();
    let mut want = june;
    want.extend(december);
    assert_eq!(get_holiday_photos(&a, 2021), want);
}

#[test]
fn holiday_photos_of_unrepresentable_year_are_empty() {
    let a = create_album();
    // chrono cannot represent dates this far out; the query yields nothing.
    assert!(get_holiday_photos(&a, 400000).is_empty());
    assert!(get_holiday_photos(&a, i32::MAX).is_empty());
}

#[test]
fn holiday_query_handles_extreme_years() {
    let a = create_album();
    // The earliest representable year works and simply matches no photo.
    assert!(get_holiday_photos(&a, photo_album::MIN_CALENDAR_YEAR).is_empty());
    // December of the last representable year has no representable end
    // bound, so the query yields nothing rather than failing.
    assert!(get_holiday_photos(&a, photo_album::MAX_CALENDAR_YEAR).is_empty());
}

#[test]
fn whole_range_returns_every_photo() {
    let a = create_album();
    let all = a.get_photos(i64::MIN, i64::MAX);
    assert_eq!(all.len(), a.photos.len());
    let ids: Vec<u64> = all.iter().map(|p| p.id).collect();
    assert_eq!(ids, (0..11).collect::<Vec<u64>>());
}
