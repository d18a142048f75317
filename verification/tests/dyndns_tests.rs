//! Tests of the dyndns engine: registration, update planning, the nsupdate
//! instruction set, and the staleness monitor.

use peach_lib::config_manager::{load_peach_config, PeachConfig};
use peach_lib::dyndns_client::{
    apply_registration, build_nsupdate_input, check_is_new_dyndns_domain, dyndns_update_plan,
    get_dyndns_subdomain, get_full_dynamic_domain, get_num_seconds_since_successful_dns_update,
    interpret_nsupdate_outcome, is_dns_updater_online, parse_availability_response,
    registration_after_remote, registration_persist_outcome, UpdateDecision,
};
use peach_lib::error::PeachError;
use peach_lib::timestamp::{format_timestamp, parse_timestamp};

fn enabled_config() -> PeachConfig {
    PeachConfig {
        external_domain: String::new(),
        dyn_domain: String::from("foo.example.org"),
        dyn_dns_server_address: String::from("ns.peachcloud.org"),
        dyn_tsig_key_path: String::from("/var/lib/peachcloud/peach-dyndns/tsig.key"),
        dyn_enabled: true,
        ssb_admin_ids: Vec::new(),
    }
}

#[test]
fn disabled_config_plans_no_update() {
    let mut config = enabled_config();
    config.dyn_enabled = false;
    let plan = dyndns_update_plan(&config);
    assert!(matches!(plan, UpdateDecision::Disabled));
}

#[test]
fn enabled_config_plans_an_update() {
    let config = enabled_config();
    match dyndns_update_plan(&config) {
        UpdateDecision::Update { nameserver, domain, key_path } => {
            assert_eq!(nameserver, "ns.peachcloud.org");
            assert_eq!(domain, "foo.example.org");
            assert_eq!(key_path, "/var/lib/peachcloud/peach-dyndns/tsig.key");
        }
        UpdateDecision::Disabled => panic!("expected an update plan"),
    }
}

#[test]
fn nsupdate_input_deletes_then_adds() {
    let input = build_nsupdate_input("ns.peachcloud.org", "foo.example.org", "203.0.113.9");
    let delete_pos = input.find("update delete foo.example.org A").unwrap();
    let add_pos = input.find("update add foo.example.org 30 A 203.0.113.9").unwrap();
    assert!(delete_pos < add_pos);
}

#[test]
fn nsupdate_input_is_exact() {
    let input = build_nsupdate_input("ns.peachcloud.org", "foo.example.org", "203.0.113.9");
    assert_eq!(
        input,
        "server ns.peachcloud.org\n\
         zone foo.example.org\n\
         update delete foo.example.org A\n\
         update add foo.example.org 30 A 203.0.113.9\n\
         send\n"
    );
}

#[test]
fn clean_tool_exit_is_a_successful_update() {
    let r = interpret_nsupdate_outcome(Ok((true, String::new())));
    assert!(r.unwrap());
}

#[test]
fn rejected_update_carries_the_tool_output() {
    let r = interpret_nsupdate_outcome(Ok((false, String::from("REFUSED"))));
    match r {
        Err(PeachError::NsUpdateError { msg }) => assert!(msg.contains("REFUSED")),
        _ => panic!("expected NsUpdateError"),
    }
}

#[test]
fn unlaunchable_tool_is_a_command_error() {
    let r = interpret_nsupdate_outcome(Err(String::from("no such file")));
    assert!(matches!(r, Err(PeachError::NsCommandError { .. })));
}

#[test]
fn remote_registration_success_yields_the_registration() {
    let r = registration_after_remote(
        "foo.dyn.peachcloud.org",
        "http://dynserver.dyn.peachcloud.org",
        Ok(String::from("abc123")),
    )
    .unwrap();
    assert_eq!(r.domain, "foo.dyn.peachcloud.org");
    assert_eq!(r.tsig_key, "abc123");
    assert_eq!(r.server_address, "http://dynserver.dyn.peachcloud.org");
}

#[test]
fn remote_registration_failure_is_a_remote_service_error() {
    let r = registration_after_remote(
        "foo.dyn.peachcloud.org",
        "http://dynserver.dyn.peachcloud.org",
        Err(String::from("connection refused")),
    );
    assert!(matches!(r, Err(PeachError::RemoteServiceError { .. })));
}

#[test]
fn registration_updates_the_dyndns_fields() {
    let config = load_peach_config(None).unwrap();
    let reg = registration_after_remote(
        "foo.dyn.peachcloud.org",
        "http://dynserver.dyn.peachcloud.org",
        Ok(String::from("abc123")),
    )
    .unwrap();
    let updated = apply_registration(&config, &reg, "/var/lib/peachcloud/peach-dyndns/tsig.key");
    assert_eq!(updated.dyn_domain, "foo.dyn.peachcloud.org");
    assert_eq!(updated.dyn_dns_server_address, "http://dynserver.dyn.peachcloud.org");
    assert_eq!(updated.dyn_tsig_key_path, "/var/lib/peachcloud/peach-dyndns/tsig.key");
    assert!(updated.dyn_enabled);
}

#[test]
fn failed_persist_after_registration_is_retryable() {
    // The remote call succeeded with key "abc123", but saving the updated
    // configuration failed. The outcome is a RegistrationPersistError, and
    // retrying only the persistence step — with the registration already in
    // hand — succeeds.
    let config = load_peach_config(None).unwrap();
    let reg = registration_after_remote(
        "foo.dyn.peachcloud.org",
        "http://dynserver.dyn.peachcloud.org",
        Ok(String::from("abc123")),
    )
    .unwrap();
    let first_try = registration_persist_outcome(Some(String::from("disk full")));
    assert!(matches!(
        first_try,
        Err(PeachError::RegistrationPersistError { .. })
    ));
    let retried = apply_registration(&config, &reg, "/var/lib/peachcloud/peach-dyndns/tsig.key");
    assert_eq!(retried.dyn_domain, "foo.dyn.peachcloud.org");
    assert!(retried.dyn_enabled);
    let second_try = registration_persist_outcome(None);
    assert_eq!(second_try.unwrap(), "success");
}

#[test]
fn availability_reply_parses_booleans() {
    assert!(parse_availability_response(Ok(String::from("true"))).unwrap());
    assert!(!parse_availability_response(Ok(String::from("false"))).unwrap());
    assert!(matches!(
        parse_availability_response(Ok(String::from("maybe"))),
        Err(PeachError::ParseBoolError { .. })
    ));
    assert!(matches!(
        parse_availability_response(Err(String::from("timeout"))),
        Err(PeachError::RemoteServiceError { .. })
    ));
}

#[test]
fn full_dynamic_domain_appends_the_zone() {
    assert_eq!(get_full_dynamic_domain("peach"), "peach.dyn.peachcloud.org");
}

#[test]
fn subdomain_inverts_full_domain() {
    let full = get_full_dynamic_domain("peach");
    assert_eq!(get_dyndns_subdomain(full.as_str()).unwrap(), "peach");
    assert!(get_dyndns_subdomain("example.com").is_none());
}

#[test]
fn new_domain_check_compares_with_the_configured_one() {
    let config = enabled_config();
    assert!(!check_is_new_dyndns_domain(&config, "foo.example.org"));
    assert!(check_is_new_dyndns_domain(&config, "bar.example.org"));
}

#[test]
fn timestamp_codec_round_trips() {
    assert_eq!(format_timestamp(0), "0");
    assert_eq!(format_timestamp(1700000000), "1700000000");
    assert_eq!(parse_timestamp("1700000000"), Some(1700000000));
    assert_eq!(parse_timestamp("1700000000\n"), Some(1700000000));
    assert_eq!(parse_timestamp(format_timestamp(u64::MAX).as_str()), Some(u64::MAX));
}

#[test]
fn malformed_timestamps_parse_to_none() {
    assert_eq!(parse_timestamp(""), None);
    assert_eq!(parse_timestamp("\n"), None);
    assert_eq!(parse_timestamp("12a3"), None);
    assert_eq!(parse_timestamp("2021-10-01T10:00:00+00:00"), None);
    assert_eq!(parse_timestamp("99999999999999999999999999"), None);
}

#[test]
fn seconds_since_success_needs_a_record() {
    assert_eq!(get_num_seconds_since_successful_dns_update(None, 1700000000), None);
    assert_eq!(
        get_num_seconds_since_successful_dns_update(Some("not a timestamp"), 1700000000),
        None
    );
}

#[test]
fn seconds_since_success_measures_from_the_record() {
    let record = format_timestamp(1700000000);
    assert_eq!(
        get_num_seconds_since_successful_dns_update(Some(record.as_str()), 1700000100),
        Some(100)
    );
    // A record from the future counts as zero seconds ago.
    assert_eq!(
        get_num_seconds_since_successful_dns_update(Some(record.as_str()), 1699999999),
        Some(0)
    );
}

#[test]
fn updater_is_online_only_when_enabled_and_recent() {
    let config = enabled_config();
    let record = format_timestamp(1700000000);
    assert!(is_dns_updater_online(&config, Some(record.as_str()), 1700000100));
    // Two missed cycles flag the device offline; the threshold itself is out.
    assert!(is_dns_updater_online(&config, Some(record.as_str()), 1700000359));
    assert!(!is_dns_updater_online(&config, Some(record.as_str()), 1700000360));
    // Unknown history is offline.
    assert!(!is_dns_updater_online(&config, None, 1700000100));
}

#[test]
fn updater_is_offline_whenever_disabled() {
    let mut config = enabled_config();
    config.dyn_enabled = false;
    let record = format_timestamp(1700000000);
    assert!(!is_dns_updater_online(&config, Some(record.as_str()), 1700000001));
    assert!(!is_dns_updater_online(&config, None, 1700000001));
}
