use everything_search::calendar::{human_readable_date, human_readable_date_at_offset};
use everything_search::human::human_readable_size;

const EPOCH_TICKS: u64 = 116444736000000000;

#[test]
fn size_below_one_kib_is_plain_bytes() {
    assert_eq!(human_readable_size(0), "0 B");
    assert_eq!(human_readable_size(1), "1 B");
    assert_eq!(human_readable_size(512), "512 B");
    assert_eq!(human_readable_size(1023), "1023 B");
}

#[test]
fn size_kib_range_has_two_decimals() {
    assert_eq!(human_readable_size(1024), "1.00 KB");
    assert_eq!(human_readable_size(1536), "1.50 KB");
    assert_eq!(human_readable_size(1535), "1.50 KB");
    assert_eq!(human_readable_size(2048), "2.00 KB");
    assert_eq!(human_readable_size(10240), "10.00 KB");
    assert_eq!(human_readable_size(1048575), "1024.00 KB");
}

#[test]
fn size_mib_and_gib_ranges() {
    assert_eq!(human_readable_size(1048576), "1.00 MB");
    assert_eq!(human_readable_size(5767168), "5.50 MB");
    assert_eq!(human_readable_size(1073741823), "1024.00 MB");
    assert_eq!(human_readable_size(1073741824), "1.00 GB");
    assert_eq!(human_readable_size(u64::MAX), "17179869184.00 GB");
}

#[test]
fn size_matches_float_reference_rounding() {
    for b in [1024u64, 1025, 1100, 1499, 1500, 151552, 1048575, 33554432] {
        let expected = format!("{:.2} KB", b as f64 / 1024.0);
        if b < 1048576 {
            assert_eq!(human_readable_size(b), expected);
        }
    }
}

#[test]
fn date_at_zero_offset_of_epoch_constant() {
    assert_eq!(
        human_readable_date_at_offset(EPOCH_TICKS, 0),
        "1970-01-01 00:00:00"
    );
}

#[test]
fn date_below_epoch_constant_is_invalid() {
    assert_eq!(human_readable_date_at_offset(0, 0), "Invalid date");
    assert_eq!(
        human_readable_date_at_offset(EPOCH_TICKS - 1, 0),
        "Invalid date"
    );
    assert_eq!(human_readable_date(0), "Invalid date");
    assert_eq!(human_readable_date(EPOCH_TICKS - 1), "Invalid date");
}

#[test]
fn date_known_instants_at_zero_offset() {
    // One billion Unix seconds.
    assert_eq!(
        human_readable_date_at_offset(EPOCH_TICKS + 10_000_000_000_000_000, 0),
        "2001-09-09 01:46:40"
    );
    // A leap day: Unix second 951782400.
    assert_eq!(
        human_readable_date_at_offset(EPOCH_TICKS + 951_782_400 * 10_000_000, 0),
        "2000-02-29 00:00:00"
    );
    // The last second of a leap year.
    assert_eq!(
        human_readable_date_at_offset(EPOCH_TICKS + 978_307_199 * 10_000_000, 0),
        "2000-12-31 23:59:59"
    );
}

#[test]
fn date_respects_zone_offset() {
    assert_eq!(
        human_readable_date_at_offset(EPOCH_TICKS, 3600),
        "1970-01-01 01:00:00"
    );
    assert_eq!(
        human_readable_date_at_offset(EPOCH_TICKS, -3600),
        "1969-12-31 23:00:00"
    );
    assert_eq!(
        human_readable_date_at_offset(EPOCH_TICKS, -1),
        "1969-12-31 23:59:59"
    );
}

#[test]
fn date_ticks_floor_to_whole_seconds() {
    assert_eq!(
        human_readable_date_at_offset(EPOCH_TICKS + 9_999_999, 0),
        "1970-01-01 00:00:00"
    );
    assert_eq!(
        human_readable_date_at_offset(EPOCH_TICKS + 10_000_000, 0),
        "1970-01-01 00:00:01"
    );
}

#[test]
fn local_date_renders_nineteen_characters() {
    // Whatever zone the machine resolves, a renderable instant comes back
    // as `YYYY-MM-DD HH:MM:SS`.
    let s = human_readable_date(EPOCH_TICKS + 10_000_000_000_000_000);
    if s != "Invalid date" {
        assert_eq!(s.len(), 19);
        let bytes = s.as_bytes();
        assert_eq!(bytes[4], b'-');
        assert_eq!(bytes[7], b'-');
        assert_eq!(bytes[10], b' ');
        assert_eq!(bytes[13], b':');
        assert_eq!(bytes[16], b':');
    }
}
