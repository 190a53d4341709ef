use flowy::schedule::{render_times, slot_epochs};
use flowy::slot::{current_slot_minutes, current_slot_of};
use flowy::{filter_walls, get_config_path, solar_schedule, uniform_schedule, FlowyError};

fn local_hm(epoch: i64) -> String {
    chrono::DateTime::from_timestamp(epoch, 0)
        .unwrap()
        .with_timezone(&chrono::Local)
        .format("%H:%M")
        .to_string()
}

#[test]
fn slot_epochs_divide_day_and_night_evenly() {
    let sunrise = 1_616_652_000i64;
    let sunset = sunrise + 43_200;
    let epochs = slot_epochs(sunrise, sunset, 2, 1);
    assert_eq!(epochs, vec![sunrise, sunrise + 21_600, sunset]);
}

#[test]
fn slot_epochs_truncate_the_division() {
    let sunrise = 1_000i64;
    let sunset = 1_010;
    let epochs = slot_epochs(sunrise, sunset, 3, 2);
    // day span of 10 s over 3 images: 3 s apart; night span of 86 390 s over 2.
    assert_eq!(epochs, vec![1_000, 1_003, 1_006, 1_010, 1_010 + 43_195]);
}

#[test]
fn day_and_night_lengths_partition_the_cycle() {
    let sunrise = 1_616_652_000i64;
    let sunset = sunrise + 39_724;
    let day_len = sunset - sunrise;
    let night_len = 86_400 - day_len;
    assert_eq!(day_len + night_len, 86_400);
}

#[test]
fn solar_schedule_pairs_times_with_walls() {
    let sunrise = 1_616_652_000i64;
    let sunset = sunrise + 43_200;
    let day_walls = vec![String::from("00-DAY.jpg"), String::from("01-DAY.jpg")];
    let night_walls = vec![String::from("00-NIGHT.jpg")];
    let config = solar_schedule(sunrise, sunset, day_walls, night_walls).unwrap();
    assert_eq!(config.walls, vec!["00-DAY.jpg", "01-DAY.jpg", "00-NIGHT.jpg"]);
    assert_eq!(
        config.times,
        vec![
            local_hm(sunrise),
            local_hm(sunrise + 21_600),
            local_hm(sunset)
        ]
    );
}

#[test]
fn solar_schedule_length_equals_wall_count() {
    let sunrise = 1_624_506_000i64;
    let sunset = sunrise + 60_000;
    let day_walls: Vec<String> = (0..5).map(|i| format!("{:02}-DAY.jpg", i)).collect();
    let night_walls: Vec<String> = (0..3).map(|i| format!("{:02}-NIGHT.jpg", i)).collect();
    let config = solar_schedule(sunrise, sunset, day_walls, night_walls).unwrap();
    assert_eq!(config.times.len(), 8);
    assert_eq!(config.walls.len(), 8);
}

#[test]
fn solar_schedule_rejects_empty_wall_sets() {
    let night = vec![String::from("x")];
    let r = solar_schedule(0, 40_000, Vec::new(), night);
    assert_eq!(r.unwrap_err(), FlowyError::EmptyWallSet);
    let day = vec![String::from("x")];
    let r = solar_schedule(0, 40_000, day, Vec::new());
    assert_eq!(r.unwrap_err(), FlowyError::EmptyWallSet);
}

#[test]
fn solar_schedule_rejects_inverted_days() {
    let day = vec![String::from("d")];
    let night = vec![String::from("n")];
    let r = solar_schedule(50_000, 10_000, day.clone(), night.clone());
    assert_eq!(r.unwrap_err(), FlowyError::InvalidCoordinate);
    let r = solar_schedule(0, 90_000, day, night);
    assert_eq!(r.unwrap_err(), FlowyError::InvalidCoordinate);
}

#[test]
fn render_times_yields_wall_clock_strings() {
    let epochs = vec![0i64, 1_616_652_000];
    let rendered = render_times(&epochs).unwrap();
    assert_eq!(rendered, vec![local_hm(0), local_hm(1_616_652_000)]);
}

#[test]
fn uniform_schedule_divides_the_cycle_from_midnight() {
    let walls: Vec<String> = (0..4).map(|i| format!("{:02}.jpg", i)).collect();
    let config = uniform_schedule(walls.clone()).unwrap();
    assert_eq!(config.walls, walls);
    assert_eq!(config.times, vec!["00:00", "06:00", "12:00", "18:00"]);
}

#[test]
fn uniform_schedule_single_wall() {
    let config = uniform_schedule(vec![String::from("only.jpg")]).unwrap();
    assert_eq!(config.times, vec!["00:00"]);
}

#[test]
fn uniform_schedule_rejects_empty_folder() {
    assert_eq!(
        uniform_schedule(Vec::new()).unwrap_err(),
        FlowyError::EmptyWallSet
    );
}

#[test]
fn filter_walls_keeps_matching_paths_sorted() {
    let files = vec![
        String::from("/w/01-DAY.jpg"),
        String::from("/w/00-NIGHT.jpg"),
        String::from("/w/00-DAY.jpg"),
        String::from("/w/readme.txt"),
    ];
    let day = filter_walls(&files, "DAY", false);
    assert_eq!(day, vec!["/w/00-DAY.jpg", "/w/01-DAY.jpg"]);
    let night = filter_walls(&files, "NIGHT", false);
    assert_eq!(night, vec!["/w/00-NIGHT.jpg"]);
}

#[test]
fn filter_walls_can_prefix_uris() {
    let files = vec![String::from("/w/00-DAY.jpg")];
    let day = filter_walls(&files, "DAY", true);
    assert_eq!(day, vec!["file:///w/00-DAY.jpg"]);
}

#[test]
fn config_path_sits_inside_the_directory() {
    assert_eq!(
        get_config_path("/home/u/.config/flowy"),
        "/home/u/.config/flowy/config.toml"
    );
}

#[test]
fn slot_selection_takes_last_started_slot() {
    let times = vec![
        String::from("06:00"),
        String::from("12:00"),
        String::from("18:00"),
    ];
    // 13:30 lies in the second slot.
    assert_eq!(current_slot_of(&times, 13 * 60 + 30), Ok(1));
    // 05:00 is before every slot and wraps to the last one.
    assert_eq!(current_slot_of(&times, 5 * 60), Ok(2));
    // boundaries belong to the slot they start.
    assert_eq!(current_slot_of(&times, 6 * 60), Ok(0));
    assert_eq!(current_slot_of(&times, 23 * 60 + 59), Ok(2));
}

#[test]
fn slot_selection_takes_greatest_started_on_unsorted_schedules() {
    // entries need not be sorted: the greatest time not after now wins
    let times = vec![
        String::from("06:00"),
        String::from("12:00"),
        String::from("08:00"),
    ];
    assert_eq!(current_slot_of(&times, 9 * 60), Ok(2));
    assert_eq!(current_slot_of(&times, 13 * 60), Ok(1));
}

#[test]
fn slot_selection_on_a_schedule_wrapping_midnight() {
    // a solar schedule: day slots, then night slots wrapping past midnight
    let times = vec![
        String::from("06:00"),
        String::from("18:00"),
        String::from("22:00"),
        String::from("02:00"),
    ];
    // at 23:00 the 22:00 image started most recently
    assert_eq!(current_slot_of(&times, 23 * 60), Ok(2));
    // at 03:00 the 02:00 image is showing
    assert_eq!(current_slot_of(&times, 3 * 60), Ok(3));
    // at 01:00 no slot has started yet today: the last entry wraps around
    assert_eq!(current_slot_of(&times, 60), Ok(3));
}

#[test]
fn slot_selection_breaks_ties_towards_the_later_entry() {
    let times = vec![String::from("06:00"), String::from("06:00")];
    assert_eq!(current_slot_of(&times, 7 * 60), Ok(1));
}

#[test]
fn slot_selection_is_stable_between_boundaries() {
    let times = vec![600u32, 720, 1080];
    let a = current_slot_minutes(&times, 810);
    let b = current_slot_minutes(&times, 811);
    assert_eq!(a, b);
    assert_eq!(a, 1);
}

#[test]
fn slot_selection_single_entry() {
    let times = vec![String::from("09:30")];
    assert_eq!(current_slot_of(&times, 0), Ok(0));
    assert_eq!(current_slot_of(&times, 1439), Ok(0));
}

#[test]
fn slot_selection_rejects_malformed_times() {
    let times = vec![String::from("06:00"), String::from("noon")];
    assert_eq!(
        current_slot_of(&times, 100),
        Err(FlowyError::InvalidTimeString)
    );
}

#[test]
fn current_wallpaper_idx_is_in_range() {
    let times = vec![
        String::from("00:00"),
        String::from("08:00"),
        String::from("16:00"),
    ];
    let idx = flowy::get_current_wallpaper_idx(&times).unwrap();
    assert!(idx < times.len());
}

fn is_hm_shape(s: &str) -> bool {
    let b = s.as_bytes();
    b.len() == 5
        && (b[0] == b'0' || b[0] == b'1' || (b[0] == b'2' && b[1] <= b'3'))
        && b[0].is_ascii_digit()
        && b[1].is_ascii_digit()
        && b[2] == b':'
        && (b'0'..=b'5').contains(&b[3])
        && b[4].is_ascii_digit()
}

#[test]
fn schedule_times_have_the_wall_clock_shape() {
    let sunrise = 1_616_652_000i64;
    let sunset = sunrise + 39_724;
    let day_walls: Vec<String> = (0..7).map(|i| format!("{:02}-DAY.jpg", i)).collect();
    let night_walls: Vec<String> = (0..4).map(|i| format!("{:02}-NIGHT.jpg", i)).collect();
    let config = solar_schedule(sunrise, sunset, day_walls, night_walls).unwrap();
    for t in &config.times {
        assert!(is_hm_shape(t), "not a HH:MM string: {}", t);
    }
}
