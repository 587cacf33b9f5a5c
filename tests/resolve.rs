use jadwal_shalat::{
    daerah_cache_name, daerah_request_form, generate_jadwal_filename, jadwal_request_form,
    month_cache_name, CalendarDate, Daerah, Outcome, Resolution, ResolveError, SourceError, Step,
};

fn aceh() -> Daerah {
    Daerah {
        provinsi: "ACEH".to_string(),
        provinsi_token: "px".to_string(),
        kabupaten: "KAB. ACEH BARAT".to_string(),
        kabupaten_token: "ky".to_string(),
    }
}

#[test]
fn cache_hit_delivers_without_the_source() {
    for _ in 0..2 {
        let (s, step) = Resolution::<Vec<u32>>::start();
        assert_eq!(step, Step::ReadCache);
        let (s, step) = s.advance(Outcome::CacheHit(vec![1, 2, 3]));
        assert_eq!(step, Step::Deliver);
        assert_eq!(s.into_result(), Some(Ok(vec![1, 2, 3])));
    }
}

#[test]
fn cache_miss_fetches_once_and_writes_once_even_if_the_write_fails() {
    for written in [true, false] {
        let mut steps = Vec::new();
        let (s, step) = Resolution::<String>::start();
        steps.push(step);
        let (s, step) = s.advance(Outcome::CacheMiss);
        steps.push(step);
        let (s, step) = s.advance(Outcome::Fetched("doc".to_string()));
        steps.push(step);
        assert_eq!(s.pending().map(|d| d.as_str()), Some("doc"));
        let (s, step) = s.advance(if written { Outcome::Written } else { Outcome::WriteFailed });
        steps.push(step);
        assert_eq!(steps, vec![Step::ReadCache, Step::CallSource, Step::WriteCache, Step::Deliver]);
        assert_eq!(s.into_result(), Some(Ok("doc".to_string())));
    }
}

#[test]
fn unreadable_cache_is_fatal() {
    let (s, _) = Resolution::<u8>::start();
    let (s, step) = s.advance(Outcome::CacheUnreadable);
    assert_eq!(step, Step::Abort);
    assert_eq!(s.into_result(), Some(Err(ResolveError::MalformedCache)));
}

#[test]
fn source_failures_are_fatal() {
    let (s, _) = Resolution::<u8>::start();
    let (s, _) = s.advance(Outcome::CacheMiss);
    let (s, step) = s.advance(Outcome::FetchFailed(SourceError::TransportError));
    assert_eq!(step, Step::Abort);
    assert_eq!(s.into_result(), Some(Err(ResolveError::TransportError)));
    let (s, _) = Resolution::<u8>::start();
    let (s, _) = s.advance(Outcome::CacheMiss);
    let (s, _) = s.advance(Outcome::FetchFailed(SourceError::ParseError));
    assert_eq!(s.into_result(), Some(Err(ResolveError::ParseError)));
}

#[test]
fn unexpected_outcome_changes_nothing() {
    let (s, _) = Resolution::<u8>::start();
    let (s, step) = s.advance(Outcome::Written);
    assert_eq!(step, Step::ReadCache);
    assert!(s.pending().is_none());
    assert_eq!(s.into_result(), None);
}

#[test]
fn month_file_name_is_lower_cased() {
    assert_eq!(generate_jadwal_filename(&aceh(), "2024-03"), "aceh-kab. aceh barat-2024-03.json");
    let date = CalendarDate {
        year: 2024,
        month: 3,
        day: 15,
    };
    assert_eq!(month_cache_name(&aceh(), date).unwrap(), "aceh-kab. aceh barat-2024-03.json");
    let bad = CalendarDate {
        year: 2024,
        month: 4,
        day: 31,
    };
    assert!(month_cache_name(&aceh(), bad).is_none());
    assert_eq!(daerah_cache_name(), "bimas-daerah.json");
}

#[test]
fn request_forms_carry_tokens_and_month() {
    let date = CalendarDate {
        year: 2024,
        month: 3,
        day: 15,
    };
    let form = jadwal_request_form(&aceh(), date);
    let expected: Vec<(String, String)> = [("x", "px"), ("y", "ky"), ("bln", "3"), ("thn", "2024")]
        .iter()
        .map(|(k, v)| (k.to_string(), v.to_string()))
        .collect();
    assert_eq!(form, expected);
    assert_eq!(daerah_request_form("px"), vec![("x".to_string(), "px".to_string())]);
}
