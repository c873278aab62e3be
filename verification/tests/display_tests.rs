use mynote::display::{created_display, display_from_parts};

#[test]
fn parsed_timestamp_shows_year_month_day_unpadded() {
    assert_eq!(created_display("2024-03-07T09:05:00"), "2024/3/7");
    assert_eq!(created_display("2023-12-25T23:59:59"), "2023/12/25");
}

#[test]
fn small_year_is_not_padded() {
    assert_eq!(created_display("0099-01-02T00:00:00"), "99/1/2");
}

#[test]
fn unparsed_timestamp_falls_back_to_first_ten_bytes() {
    assert_eq!(created_display("2024-03-07 09:05"), "2024/03/07");
    assert_eq!(created_display("2024-02-30T00:00:00"), "2024/02/30");
}

#[test]
fn short_text_is_kept_whole() {
    assert_eq!(created_display("abc-d"), "abc/d");
    assert_eq!(created_display(""), "");
}

#[test]
fn ten_bytes_ending_on_a_character_boundary() {
    assert_eq!(created_display("日记abcdefgh"), "日记abcd");
}

#[test]
fn ten_bytes_inside_a_character_keeps_everything() {
    assert_eq!(created_display("日记日记-x"), "日记日记/x");
}

#[test]
fn display_from_given_parts() {
    assert_eq!(display_from_parts("ignored", Some((-44, 3, 15))), "-44/3/15");
    assert_eq!(display_from_parts("2020-01-01-rest", None), "2020/01/01");
}
