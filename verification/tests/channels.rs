use chatscript::channels::{OutputChannelsMap, DEFAULT_CHANNELS_KEY};
use chatscript::decimal::parse_number;

#[test]
fn empty_map_has_no_channels() {
    let map: OutputChannelsMap<&str> = OutputChannelsMap::new();
    assert_eq!(map.get_for_thread(5), None);
    assert_eq!(map.get_for_thread(DEFAULT_CHANNELS_KEY), None);
}

#[test]
fn a_run_writes_to_its_own_channels_or_to_the_default() {
    let mut map: OutputChannelsMap<&str> = OutputChannelsMap::new();
    assert_eq!(DEFAULT_CHANNELS_KEY, 0);
    map.insert(DEFAULT_CHANNELS_KEY, "default");
    map.insert(7, "seven");
    assert_eq!(map.get_for_thread(7), Some(&"seven"));
    assert_eq!(map.get_for_thread(8), Some(&"default"));
    assert_eq!(map.get_for_thread(0), Some(&"default"));
    map.remove(7);
    assert_eq!(map.get_for_thread(7), Some(&"default"));
    map.insert(7, "again");
    map.insert(7, "replaced");
    assert_eq!(map.get_for_thread(7), Some(&"replaced"));
    map.remove(DEFAULT_CHANNELS_KEY);
    assert_eq!(map.get_for_thread(8), None);
    assert_eq!(map.get_for_thread(7), Some(&"replaced"));
}

#[test]
fn whole_text_is_read_as_a_number() {
    assert_eq!(parse_number("1234567890"), Some(1234567890));
    assert_eq!(parse_number("0"), Some(0));
    assert_eq!(parse_number(""), None);
    assert_eq!(parse_number("12a"), None);
    assert_eq!(parse_number(" 12"), None);
    assert_eq!(parse_number("18446744073709551616"), None);
}
