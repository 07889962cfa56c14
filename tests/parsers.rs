use libzfs::header::action;
use libzfs::parser::parse_block;
use libzfs::{Advisory, DiskLine, HealthState, ParseError, RaidLevel, Rule, StdoutParser, Vdev};

const NAKED_GOOD: &str = r#"pool: naked_test
     id: 3364973538352047455
  state: ONLINE
 action: The pool can be imported using its name or numeric identifier.
 config:

        naked_test             ONLINE
          /vdevs/import/vdev0  ONLINE
          /vdevs/import/vdev1  ONLINE
          "#;

const NAKED_BAD: &str = r#"pool: naked_test
     id: 3364973538352047455
  state: UNAVAIL
 status: One or more devices are missing from the system.
 action: The pool cannot be imported. Attach the missing
        devices and try again.
   see: http://illumos.org/msg/ZFS-8000-6X
 config:

        naked_test             UNAVAIL  missing device
          /vdevs/import/vdev0  ONLINE

        Additional devices are known to be part of this pool, though their
        exact configuration cannot be determined.
        "#;

fn disk(path: &str, state: HealthState) -> DiskLine {
    DiskLine { path: String::from(path), state, note: None }
}

fn header(state: &str, action_line: &str) -> String {
    format!(
        "   pool: tank\n     id: 42\n  state: {}\n action: {}\n config:\n\n",
        state, action_line
    )
}

#[test]
fn test_action_good() {
    let one_line = " action: The pool can be imported using its name or numeric identifier.\n";
    let (adv, end) = action(one_line, 0).unwrap();
    assert_eq!(end, 72);
    assert_eq!(
        adv,
        Advisory::Importable { message: String::from(&one_line[9..71]) }
    );
}

#[test]
fn test_action_bad() {
    let two_lines = " action: The pool cannot be imported. Attach the missing\n        \
                     devices and try again.\n";
    let (adv, end) = action(two_lines, 0).unwrap();
    assert_eq!(end, 88);
    assert_eq!(
        adv,
        Advisory::NotImportable { message: String::from(&two_lines[9..87]) }
    );
    assert!(!adv.is_importable());
}

#[test]
fn test_naked_good() {
    let (pool, end) = parse_block(NAKED_GOOD, 0).unwrap();
    assert_eq!(end, 258);
    assert_eq!(pool.name(), &String::from("naked_test"));
    assert_eq!(pool.id(), 3364973538352047455);
    assert_eq!(pool.health(), HealthState::Online);
    assert!(pool.advisory.is_importable());
    assert_eq!(pool.status_message, None);
    assert_eq!(pool.see_also, None);
    assert_eq!(
        pool.topology,
        vec![
            Vdev::Naked(disk("/vdevs/import/vdev0", HealthState::Online)),
            Vdev::Naked(disk("/vdevs/import/vdev1", HealthState::Online)),
        ]
    );
    assert_eq!(StdoutParser::parse_pool(NAKED_GOOD).unwrap(), pool);
}

#[test]
fn test_naked_bad() {
    let (pool, end) = parse_block(NAKED_BAD, 0).unwrap();
    assert_eq!(end, 356);
    assert_eq!(pool.name(), &String::from("naked_test"));
    assert_eq!(pool.health(), HealthState::Unavail);
    assert_eq!(
        pool.status_message,
        Some(String::from("One or more devices are missing from the system."))
    );
    assert_eq!(
        pool.advisory,
        Advisory::NotImportable {
            message: String::from(
                "The pool cannot be imported. Attach the missing\n        devices and try again."
            )
        }
    );
    assert_eq!(pool.see_also, Some(String::from("http://illumos.org/msg/ZFS-8000-6X")));
    assert_eq!(
        pool.topology,
        vec![Vdev::Naked(disk("/vdevs/import/vdev0", HealthState::Online))]
    );
}

#[test]
fn test_multiple_import() {
    let stdout = r#"pool: naked_test
     id: 3364973538352047455
  state: ONLINE
 action: The pool can be imported using its name or numeric identifier.
 config:

        naked_test             ONLINE
          /vdevs/import/vdev0  ONLINE
          /vdevs/import/vdev1  ONLINE

     pool: naked_test2
     id: 3364973538352047455
  state: ONLINE
 action: The pool can be imported using its name or numeric identifier.
 config:

        naked_test             ONLINE
          /vdevs/import/vdev0  ONLINE
          /vdevs/import/vdev1  ONLINE
          "#;

    let mut zpools = StdoutParser::parse_pools(stdout);

    let first = zpools.next().unwrap().unwrap();
    assert_eq!(first.name(), &String::from("naked_test"));

    let second = zpools.next().unwrap().unwrap();
    assert_eq!(second.name(), &String::from("naked_test2"));

    let none = zpools.next();

    assert!(none.is_none());
    assert!(zpools.next().is_none());
}

#[test]
fn device_order_follows_text() {
    let text = header("ONLINE", "The pool can be imported.")
        + "        tank      ONLINE\n          /vdevs/vdev0  ONLINE\n          /vdevs/vdev1  ONLINE\n";
    let pool = StdoutParser::parse_pool(&text).unwrap();
    assert_eq!(
        pool.topology,
        vec![
            Vdev::Naked(disk("/vdevs/vdev0", HealthState::Online)),
            Vdev::Naked(disk("/vdevs/vdev1", HealthState::Online)),
        ]
    );
}

#[test]
fn device_order_reversed() {
    let text = header("ONLINE", "The pool can be imported.")
        + "        tank      ONLINE\n          /vdevs/vdev1  ONLINE\n          /vdevs/vdev0  ONLINE\n";
    let pool = StdoutParser::parse_pool(&text).unwrap();
    assert_eq!(
        pool.topology,
        vec![
            Vdev::Naked(disk("/vdevs/vdev1", HealthState::Online)),
            Vdev::Naked(disk("/vdevs/vdev0", HealthState::Online)),
        ]
    );
}

#[test]
fn degraded_pool_fills_every_section() {
    let pool = StdoutParser::parse_pool(NAKED_BAD).unwrap();
    assert_eq!(pool.health, HealthState::Unavail);
    assert!(matches!(pool.advisory, Advisory::NotImportable { .. }));
    assert!(pool.status_message.is_some());
    assert_eq!(pool.see_also, Some(String::from("http://illumos.org/msg/ZFS-8000-6X")));
}

#[test]
fn truncated_after_config_fails() {
    let cut = NAKED_GOOD.find("config:\n").unwrap() + "config:\n".len();
    let r = StdoutParser::parse_pool(&NAKED_GOOD[..cut]);
    assert_eq!(r, Err(ParseError::Syntax { rule: Rule::PoolLine, pos: cut }));
}

#[test]
fn pool_line_without_devices_fails() {
    let text = header("ONLINE", "The pool can be imported.") + "        tank      ONLINE\n";
    let r = StdoutParser::parse_pool(&text);
    assert!(matches!(r, Err(ParseError::Syntax { rule: Rule::Vdevs, .. })));
}

#[test]
fn parsing_twice_gives_equal_pools() {
    assert_eq!(StdoutParser::parse_pool(NAKED_BAD), StdoutParser::parse_pool(NAKED_BAD));
    assert_eq!(StdoutParser::parse_pool(NAKED_GOOD), StdoutParser::parse_pool(NAKED_GOOD));
}

#[test]
fn mirror_and_raidz_groups() {
    let text = header("DEGRADED", "The pool can be imported despite missing devices.")
        + "        tank          DEGRADED\n"
        + "          mirror-0    ONLINE\n"
        + "            /d/a      ONLINE\n"
        + "            /d/b      ONLINE\n"
        + "          raidz2-1    DEGRADED\n"
        + "            /d/c      ONLINE\n"
        + "            /d/d      FAULTED  corrupted data\n"
        + "            /d/e      ONLINE\n"
        + "          /d/f        OFFLINE\n";
    let pool = StdoutParser::parse_pool(&text).unwrap();
    assert_eq!(pool.id, 42);
    assert_eq!(pool.health, HealthState::Degraded);
    assert_eq!(
        pool.topology,
        vec![
            Vdev::Mirror(vec![disk("/d/a", HealthState::Online), disk("/d/b", HealthState::Online)]),
            Vdev::RaidZ(
                RaidLevel::Z2,
                vec![
                    disk("/d/c", HealthState::Online),
                    DiskLine {
                        path: String::from("/d/d"),
                        state: HealthState::Faulted,
                        note: Some(String::from("corrupted data")),
                    },
                    disk("/d/e", HealthState::Online),
                ]
            ),
            Vdev::Naked(disk("/d/f", HealthState::Offline)),
        ]
    );
}

#[test]
fn raidz_without_level_is_single_parity() {
    let text = header("ONLINE", "The pool can be imported.")
        + "        tank        ONLINE\n          raidz-0   ONLINE\n            /d/a    REMOVED\n";
    let pool = StdoutParser::parse_pool(&text).unwrap();
    assert_eq!(
        pool.topology,
        vec![Vdev::RaidZ(RaidLevel::Z1, vec![disk("/d/a", HealthState::Removed)])]
    );
}

#[test]
fn empty_group_is_rejected() {
    let text = header("ONLINE", "The pool can be imported.")
        + "        tank        ONLINE\n          mirror-0  ONLINE\n          /d/a      ONLINE\n";
    let r = StdoutParser::parse_pool(&text);
    assert!(matches!(r, Err(ParseError::Syntax { rule: Rule::DiskLine, .. })));
}

#[test]
fn unknown_health_word_is_rejected() {
    let text = header("SLEEPY", "The pool can be imported.")
        + "        tank      ONLINE\n          /d/a  ONLINE\n";
    let r = StdoutParser::parse_pool(&text);
    assert!(matches!(r, Err(ParseError::Syntax { rule: Rule::State, .. })));
}

#[test]
fn identifier_too_large_is_a_value_error() {
    let text = "pool: p\n id: 18446744073709551616\n state: ONLINE\n action: can be imported\n config:\n  p ONLINE\n   /d ONLINE\n";
    let r = StdoutParser::parse_pool(text);
    assert_eq!(r, Err(ParseError::Value { rule: Rule::PoolId, pos: 13 }));
    let max = "pool: p\n id: 18446744073709551615\n state: ONLINE\n action: can be imported\n config:\n  p ONLINE\n   /d ONLINE\n";
    assert_eq!(StdoutParser::parse_pool(max).unwrap().id, u64::MAX);
}

#[test]
fn guidance_without_known_phrase_is_a_value_error() {
    let text = header("ONLINE", "Ask someone.") + "        tank      ONLINE\n          /d/a  ONLINE\n";
    let r = StdoutParser::parse_pool(&text);
    assert!(matches!(r, Err(ParseError::Value { rule: Rule::Action, .. })));
}

#[test]
fn missing_sections_name_their_rule() {
    assert_eq!(
        StdoutParser::parse_pool("hello\n"),
        Err(ParseError::Syntax { rule: Rule::PoolName, pos: 0 })
    );
    assert_eq!(
        StdoutParser::parse_pool("pool: a\nstate: ONLINE\n"),
        Err(ParseError::Syntax { rule: Rule::PoolId, pos: 8 })
    );
    assert_eq!(
        StdoutParser::parse_pool("pool: a\nid: 12x\n"),
        Err(ParseError::Syntax { rule: Rule::PoolId, pos: 12 })
    );
    assert_eq!(
        StdoutParser::parse_pool("pool: a\nid: 1\nstate: ONLINE\nconfig:\n"),
        Err(ParseError::Syntax { rule: Rule::Action, pos: 28 })
    );
    assert_eq!(
        StdoutParser::parse_pool("pool: a\nid: 1\nstate: ONLINE\nstatus:\n"),
        Err(ParseError::Syntax { rule: Rule::Status, pos: 28 })
    );
    assert_eq!(
        StdoutParser::parse_pool("pool: a\nid: 1\nstate: ONLINE\naction: can be imported\nsee:\n"),
        Err(ParseError::Syntax { rule: Rule::See, pos: 52 })
    );
    assert_eq!(
        StdoutParser::parse_pool("pool: a\nid: 1\nstate: ONLINE\naction: can be imported\nnope\n"),
        Err(ParseError::Syntax { rule: Rule::Config, pos: 52 })
    );
}

#[test]
fn both_phrases_are_rejected() {
    let r = libzfs::vocab::classify("It cannot be imported here, but can be imported elsewhere.");
    assert_eq!(r, None);
    let good = libzfs::vocab::classify("The pool can be imported using its name.");
    assert!(matches!(good, Some(Advisory::Importable { .. })));
    let bad = libzfs::vocab::classify("The pool cannot be imported.");
    assert!(matches!(bad, Some(Advisory::NotImportable { .. })));
    assert_eq!(libzfs::vocab::classify("nothing to say"), None);
    let text = header("ONLINE", "It cannot be imported here, but can be imported elsewhere.")
        + "        tank      ONLINE\n          /d/a  ONLINE\n";
    let r = StdoutParser::parse_pool(&text);
    assert!(matches!(r, Err(ParseError::Value { rule: Rule::Action, .. })));
}

#[test]
fn stream_of_empty_listing_ends_at_once() {
    let mut s = StdoutParser::parse_pools("\n   \n  ");
    assert!(s.next().is_none());
    assert!(s.next().is_none());
}

#[test]
fn stream_stops_at_first_bad_block() {
    let text = String::from(NAKED_GOOD.trim_end()) + "\n\ngarbage here\n\n" + NAKED_GOOD;
    let mut s = StdoutParser::parse_pools(&text);
    assert!(s.next().unwrap().is_ok());
    assert!(matches!(s.next(), Some(Err(ParseError::Syntax { rule: Rule::PoolName, .. }))));
    assert!(s.next().is_none());
}

#[test]
fn booleans_become_integers() {
    assert_eq!(libzfs::bool_to_u64(true), 1);
    assert_eq!(libzfs::bool_to_u64(false), 0);
}

#[test]
fn auxiliary_sections_follow_the_devices() {
    let text = header("ONLINE", "The pool can be imported.")
        + "        tank        ONLINE\n"
        + "          /d/a      ONLINE\n"
        + "        logs\n"
        + "          /d/l      ONLINE\n"
        + "        cache\n"
        + "          /d/c      ONLINE\n"
        + "        spares\n"
        + "          /d/s1     ONLINE\n"
        + "          /d/s2     OFFLINE\n";
    let pool = StdoutParser::parse_pool(&text).unwrap();
    assert_eq!(
        pool.topology,
        vec![
            Vdev::Naked(disk("/d/a", HealthState::Online)),
            Vdev::Log(disk("/d/l", HealthState::Online)),
            Vdev::Cache(disk("/d/c", HealthState::Online)),
            Vdev::Spare(disk("/d/s1", HealthState::Online)),
            Vdev::Spare(disk("/d/s2", HealthState::Offline)),
        ]
    );
}

#[test]
fn auxiliary_section_without_disks_is_rejected() {
    let text = header("ONLINE", "The pool can be imported.")
        + "        tank        ONLINE\n"
        + "          /d/a      ONLINE\n"
        + "        logs\n";
    let r = StdoutParser::parse_pool(&text);
    assert!(matches!(r, Err(ParseError::Syntax { rule: Rule::DiskLine, .. })));
}

#[test]
fn disk_without_absolute_path_is_rejected() {
    let text = header("ONLINE", "The pool can be imported.")
        + "        tank      ONLINE\n          sda       ONLINE\n";
    let r = StdoutParser::parse_pool(&text);
    assert!(matches!(r, Err(ParseError::Syntax { rule: Rule::DiskLine, .. })));
}

#[test]
fn pool_name_with_colon_is_rejected() {
    let r = StdoutParser::parse_pool("pool: a:b\nid: 1\n");
    assert_eq!(r, Err(ParseError::Syntax { rule: Rule::PoolName, pos: 6 }));
}

#[test]
fn error_location_in_lines_and_columns() {
    let text = "pool: a\nid: 1\nstate: ONLINE\naction: can be imported\nnope\n";
    let e = StdoutParser::parse_pool(text).unwrap_err();
    assert_eq!(e.pos(), 52);
    assert_eq!(e.line_col(text), (5, 1));
    let e2 = StdoutParser::parse_pool("pool: a\nid: 12x\n").unwrap_err();
    assert_eq!(e2.line_col("pool: a\nid: 12x\n"), (2, 5));
}

#[test]
fn unknown_health_word_in_a_group_is_rejected() {
    let head = header("DEGRADED", "The pool can be imported.")
        + "        tank        DEGRADED\n"
        + "          mirror-0  DEGRADED\n"
        + "            /d/a    ONLINE\n";
    let text = head.clone() + "            /d/b    INUSE\n" + "          /d/c      ONLINE\n";
    let r = StdoutParser::parse_pool(&text);
    assert_eq!(
        r,
        Err(ParseError::Syntax { rule: Rule::DiskLine, pos: head.len() + 12 })
    );
}

#[test]
fn unknown_health_word_on_a_top_level_disk_is_rejected() {
    let head = header("ONLINE", "The pool can be imported.")
        + "        tank      ONLINE\n"
        + "          /d/a    ONLINE\n";
    let text = head.clone() + "          /d/b    SLEEPY\n";
    let r = StdoutParser::parse_pool(&text);
    assert_eq!(
        r,
        Err(ParseError::Syntax { rule: Rule::DiskLine, pos: head.len() + 10 })
    );
}

#[test]
fn unknown_health_word_in_an_auxiliary_section_is_rejected() {
    let head = header("ONLINE", "The pool can be imported.")
        + "        tank      ONLINE\n"
        + "          /d/a    ONLINE\n"
        + "        spares\n";
    let text = head.clone() + "          /d/s    AVAIL\n";
    let r = StdoutParser::parse_pool(&text);
    assert_eq!(
        r,
        Err(ParseError::Syntax { rule: Rule::DiskLine, pos: head.len() + 10 })
    );
}

#[test]
fn stray_text_among_devices_is_rejected() {
    let text = header("ONLINE", "The pool can be imported.")
        + "        tank      ONLINE\n"
        + "          /d/a    ONLINE\n"
        + "          something else entirely\n";
    let r = StdoutParser::parse_pool(&text);
    assert!(matches!(r, Err(ParseError::Syntax { rule: Rule::DiskLine, .. })));
}
