use chianti::calendar::civil_date;
use chianti::calendar::is_day;
use chianti::calendar::is_month;
use chianti::calendar::is_year;
use chianti::calendar::CivilDate;
use chianti::clock::unix_now;
use chianti::database::store::Store;
use chianti::errors::ApiError;
use chianti::listing::count_rows;
use chianti::listing::is_within;
use chianti::listing::page_bounds;
use chianti::listing::select;
use chianti::listing::sort;
use chianti::listing::SortKey;
use chianti::routes::statistics::get_overview;
use chianti::routes::statistics::OverviewResponse;
use chianti::routes::watch_history::apply_record;
use chianti::routes::watch_history::CreateWatchHistoryChannel;
use chianti::routes::watch_history::CreateWatchHistoryRequest;
use chianti::routes::watch_history::CreateWatchHistoryVideo;
use chianti::routes::watch_history::Generated;
use chianti::text::chars_of;
use chianti::text::contains_text;
use chianti::text::is_text_before;
use chianti::text::like_match;

fn date(year: i64, month: i64, day: i64) -> Option<CivilDate> {
    Some(CivilDate { year, month, day })
}

#[test]
fn seconds_are_given_their_calendar_date() {
    assert_eq!(civil_date(0), date(1970, 1, 1));
    assert_eq!(civil_date(-1), date(1969, 12, 31));
    assert_eq!(civil_date(86_399), date(1970, 1, 1));
    assert_eq!(civil_date(86_400), date(1970, 1, 2));
    assert_eq!(civil_date(1_700_000_000), date(2023, 11, 14));
    assert_eq!(civil_date(951_782_400), date(2000, 2, 29));
    assert_eq!(civil_date(951_868_800), date(2000, 3, 1));
    assert_eq!(civil_date(-2_203_891_200), date(1900, 3, 1));
    assert_eq!(civil_date(-2_203_977_600), date(1900, 2, 28));
    assert_eq!(civil_date(1_709_164_800), date(2024, 2, 29));
    assert_eq!(civil_date(1_735_689_599), date(2024, 12, 31));
    assert_eq!(civil_date(1_735_689_600), date(2025, 1, 1));
    assert_eq!(civil_date(-62_167_219_200), date(0, 1, 1));
    assert_eq!(civil_date(253_402_300_799), date(9999, 12, 31));
}

#[test]
fn seconds_outside_the_four_digit_years_have_no_date() {
    assert_eq!(civil_date(-62_167_219_201), None);
    assert_eq!(civil_date(253_402_300_800), None);
    assert_eq!(civil_date(i64::MIN), None);
    assert_eq!(civil_date(i64::MAX), None);
    assert!(!is_year(i64::MAX, 2023));
}

#[test]
fn dates_are_found_by_year_month_and_day() {
    let ts = 1_700_000_000; // 2023-11-14
    assert!(is_year(ts, 2023));
    assert!(!is_year(ts, 2024));
    assert!(is_month(ts, 11));
    assert!(!is_month(ts, 12));
    assert!(is_day(ts, 14));
    assert!(!is_day(ts, 15));
    let early = 1_614_902_400; // 2021-03-05
    assert!(is_year(early, 2021));
    assert!(is_month(early, 3));
    assert!(!is_month(early, 30));
    assert!(is_day(early, 5));
    assert!(!is_day(early, 50));
    let first_of_march = 1_709_251_200; // 2024-03-01
    assert!(is_year(first_of_march, 2024));
    assert!(is_month(first_of_march, 3));
    assert!(is_day(first_of_march, 1));
    assert!(!is_day(first_of_march, 10));
    let ancient = -30_641_760_000; // 0999-01-01
    assert_eq!(civil_date(ancient), date(999, 1, 1));
    assert!(is_year(ancient, 999));
    assert!(!is_year(ancient, 1000));
    assert!(is_year(ancient + 365 * 86_400, 1000));
    assert!(is_year(-62_167_219_200, 0));
    assert!(!is_year(0, -1970));
    assert!(!is_month(0, 0));
    assert!(!is_day(0, 32));
}

#[test]
fn the_clock_reads_a_time_after_the_epoch() {
    let now = unix_now().unwrap();
    assert!(now > 1_600_000_000);
    let later = unix_now().unwrap();
    assert!(later >= now);
}

fn session(store: &mut Store, n: i64, watched: i64, start: i64, end: i64) {
    let record = CreateWatchHistoryRequest {
        watch_duration_seconds: watched,
        session_start_date: start,
        session_end_date: end,
        channel: CreateWatchHistoryChannel {
            id: format!("C{}", n % 2),
            name: "name".to_string(),
            avater_url: "".to_string(),
            url: "".to_string(),
            is_subscribed: true,
            subscribers_count: 1,
        },
        video: CreateWatchHistoryVideo {
            id: format!("V{}", n % 3),
            title: "title".to_string(),
            description: "".to_string(),
            thumbnail_url: "".to_string(),
            tags: vec!["x".to_string(), format!("tag{n}")],
            likes_count: 0,
            view_count: 0,
            comments_count: 0,
            duration: 0,
            published_at: 0,
        },
    };
    let generated = Generated {
        now: n,
        tag_ids: vec![format!("tx{n}"), format!("ty{n}")],
        history_id: format!("h{n}"),
    };
    apply_record(store, &record, &generated);
}

#[test]
fn the_overview_sums_and_averages() {
    let mut store = Store::new();
    session(&mut store, 0, 100, 1000, 1100);
    session(&mut store, 1, 50, 2000, 2061);
    session(&mut store, 2, 31, 3000, 3020);
    session(&mut store, 3, 20, 4000, 4020);
    assert_eq!(
        get_overview(&store),
        Ok(OverviewResponse {
            total_watch_time_seconds: 201,
            total_videos_watched: 0,
            total_unique_videos_watched: 3,
            total_channels: 2,
            total_tags: 5,
            average_watch_time_per_session_seconds: 50,
            average_session_duration_seconds: 50,
        })
    );
}

#[test]
fn averages_are_rounded_toward_zero() {
    let mut store = Store::new();
    session(&mut store, 0, -3, 10, 3);
    session(&mut store, 1, -4, 10, 10);
    let figures = get_overview(&store).unwrap();
    assert_eq!(figures.total_watch_time_seconds, -7);
    assert_eq!(figures.average_watch_time_per_session_seconds, -3);
    assert_eq!(figures.average_session_duration_seconds, -3);
}

#[test]
fn the_overview_is_undefined_without_sessions_or_beyond_the_range() {
    let store = Store::new();
    assert_eq!(get_overview(&store), Err(ApiError::Undefined));
    assert_eq!(ApiError::Undefined.status_code(), 500);

    let mut store = Store::new();
    session(&mut store, 0, i64::MAX, 0, 0);
    session(&mut store, 1, 1, 0, 0);
    assert_eq!(get_overview(&store), Err(ApiError::Undefined));

    let mut store = Store::new();
    session(&mut store, 0, 1, i64::MIN, 1);
    assert_eq!(get_overview(&store), Err(ApiError::Undefined));

    let mut store = Store::new();
    session(&mut store, 0, i64::MAX, i64::MIN, -1);
    session(&mut store, 1, -1, 5, 5);
    let figures = get_overview(&store).unwrap();
    assert_eq!(figures.total_watch_time_seconds, i64::MAX - 1);
    assert_eq!(figures.average_session_duration_seconds, i64::MAX / 2);
}

#[test]
fn errors_have_their_status() {
    assert_eq!(ApiError::NotFound.status_code(), 404);
    assert_eq!(ApiError::Validation.status_code(), 400);
    assert_eq!(ApiError::Storage.status_code(), 500);
    assert_eq!(ApiError::ImageProcessing.status_code(), 500);
    assert_eq!(ApiError::Clock.status_code(), 500);
    assert!(ApiError::Storage.is_internal());
    assert!(!ApiError::Validation.is_internal());
}

fn chars(text: &str) -> Vec<char> {
    text.chars().collect()
}

#[test]
fn patterns_match_as_in_a_search() {
    assert!(like_match(&chars(""), &chars("")));
    assert!(!like_match(&chars(""), &chars("a")));
    assert!(like_match(&chars("%"), &chars("")));
    assert!(like_match(&chars("%"), &chars("anything")));
    assert!(like_match(&chars("a_c"), &chars("abc")));
    assert!(!like_match(&chars("a_c"), &chars("ac")));
    assert!(like_match(&chars("A%z"), &chars("a to Z")));
    assert!(!like_match(&chars("a%z"), &chars("a to z!")));
    assert!(like_match(&chars("%%a%%"), &chars("xay")));
    assert!(!like_match(&chars("é"), &chars("É")));
    assert!(like_match(&chars("漢_"), &chars("漢字")));
    assert!(contains_text(&"Hello World".to_string(), &"O w".to_string()));
    assert!(!contains_text(&"Hello".to_string(), &"Hello!".to_string()));
    assert_eq!(chars_of(&"héllo".to_string()), chars("héllo"));
}

#[test]
fn texts_are_ordered_by_code_point() {
    assert!(is_text_before(&chars("a"), &chars("b")));
    assert!(!is_text_before(&chars("b"), &chars("a")));
    assert!(!is_text_before(&chars("a"), &chars("a")));
    assert!(is_text_before(&chars(""), &chars("a")));
    assert!(is_text_before(&chars("ab"), &chars("abc")));
    assert!(is_text_before(&chars("Z"), &chars("a")));
    assert!(is_text_before(&chars("z"), &chars("é")));
    assert!(!is_text_before(&chars("abc"), &chars("ab")));
}

#[test]
fn rows_are_selected_sorted_and_paged() {
    assert_eq!(select(&vec![true, false, true, true, false]), vec![0, 2, 3]);
    assert_eq!(select(&vec![]), Vec::<usize>::new());
    let keys = vec![
        SortKey::Number(5),
        SortKey::Number(1),
        SortKey::Number(5),
        SortKey::Number(-3),
        SortKey::Number(1),
    ];
    assert_eq!(sort(&vec![0, 1, 2, 3, 4], &keys, false), vec![3, 1, 4, 0, 2]);
    assert_eq!(sort(&vec![0, 1, 2, 3, 4], &keys, true), vec![0, 2, 1, 4, 3]);
    assert_eq!(sort(&vec![0, 2, 4], &keys, false), vec![4, 0, 2]);
    assert_eq!(page_bounds(10, Some(3), Some(4)), (3, 7));
    assert_eq!(page_bounds(10, Some(8), Some(4)), (8, 10));
    assert_eq!(page_bounds(10, Some(-1), Some(-1)), (0, 10));
    assert_eq!(page_bounds(10, Some(i64::MAX), Some(i64::MAX)), (10, 10));
    assert_eq!(page_bounds(10, None, Some(0)), (0, 0));
    assert_eq!(page_bounds(0, Some(3), Some(4)), (0, 0));
    assert_eq!(count_rows(7), 7);
    assert!(is_within(Some(5), Some(4), Some(6), 5));
    assert!(!is_within(None, Some(5), None, 5));
    assert!(!is_within(None, None, Some(5), 5));
    assert!(is_within(None, None, None, i64::MIN));
}
