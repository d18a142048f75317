//! Tests of the configuration document codec and the field setters.

use peach_lib::config_manager::{
    add_ssb_admin_id, delete_ssb_admin_id, get_peachcloud_domain, load_peach_config,
    save_peach_config_text, set_dyndns_enabled_value, set_external_domain,
    set_peach_dyndns_config, PeachConfig,
};
use peach_lib::error::PeachError;

fn sample_config() -> PeachConfig {
    PeachConfig {
        external_domain: String::from("example.com"),
        dyn_domain: String::from("peach.dyn.peachcloud.org"),
        dyn_dns_server_address: String::from("dynserver.dyn.peachcloud.org"),
        dyn_tsig_key_path: String::from("/var/lib/peachcloud/peach-dyndns/tsig.key"),
        dyn_enabled: true,
        ssb_admin_ids: vec![String::from("@alpha.ed25519"), String::from("@beta.ed25519")],
    }
}

#[test]
fn load_without_file_gives_defaults() {
    let config = load_peach_config(None).unwrap();
    assert_eq!(config.external_domain, "");
    assert_eq!(config.dyn_domain, "");
    assert_eq!(config.dyn_dns_server_address, "");
    assert_eq!(config.dyn_tsig_key_path, "");
    assert!(!config.dyn_enabled);
    assert!(config.ssb_admin_ids.is_empty());
}

#[test]
fn serialize_then_load_round_trips() {
    let config = sample_config();
    let text = save_peach_config_text(&config);
    let loaded = load_peach_config(Some(text.as_str())).unwrap();
    assert_eq!(loaded.external_domain, config.external_domain);
    assert_eq!(loaded.dyn_domain, config.dyn_domain);
    assert_eq!(loaded.dyn_dns_server_address, config.dyn_dns_server_address);
    assert_eq!(loaded.dyn_tsig_key_path, config.dyn_tsig_key_path);
    assert_eq!(loaded.dyn_enabled, config.dyn_enabled);
    assert_eq!(loaded.ssb_admin_ids, config.ssb_admin_ids);
}

#[test]
fn serialized_text_is_exact() {
    let config = sample_config();
    let text = save_peach_config_text(&config);
    assert_eq!(
        text,
        "external_domain: example.com\n\
         dyn_domain: peach.dyn.peachcloud.org\n\
         dyn_dns_server_address: dynserver.dyn.peachcloud.org\n\
         dyn_tsig_key_path: /var/lib/peachcloud/peach-dyndns/tsig.key\n\
         dyn_enabled: true\n\
         ssb_admin_ids:\n\
         - @alpha.ed25519\n\
         - @beta.ed25519\n"
    );
}

#[test]
fn partial_document_fills_defaults() {
    let config = load_peach_config(Some("dyn_enabled: true\n")).unwrap();
    assert!(config.dyn_enabled);
    assert_eq!(config.external_domain, "");
    assert_eq!(config.dyn_domain, "");
    assert!(config.ssb_admin_ids.is_empty());
}

#[test]
fn fields_load_in_any_order() {
    let text = "dyn_domain: a.dyn.peachcloud.org\nexternal_domain: example.org\n";
    let config = load_peach_config(Some(text)).unwrap();
    assert_eq!(config.dyn_domain, "a.dyn.peachcloud.org");
    assert_eq!(config.external_domain, "example.org");
    assert!(!config.dyn_enabled);
}

#[test]
fn marker_comment_and_blank_lines_are_skipped() {
    let text = "---\n# settings of this device\n\nexternal_domain: example.net\n";
    let config = load_peach_config(Some(text)).unwrap();
    assert_eq!(config.external_domain, "example.net");
}

#[test]
fn empty_value_loads_as_empty_string() {
    let config = load_peach_config(Some("external_domain:\n")).unwrap();
    assert_eq!(config.external_domain, "");
    let config = load_peach_config(Some("external_domain: \n")).unwrap();
    assert_eq!(config.external_domain, "");
}

#[test]
fn value_may_contain_colons_and_spaces() {
    let config =
        load_peach_config(Some("dyn_dns_server_address: http://dyn.example.org:8080\n")).unwrap();
    assert_eq!(config.dyn_dns_server_address, "http://dyn.example.org:8080");
}

#[test]
fn mistyped_boolean_defaults_to_false() {
    let config = load_peach_config(Some("dyn_enabled: banana\n")).unwrap();
    assert!(!config.dyn_enabled);
    let config = load_peach_config(Some("dyn_enabled: false\n")).unwrap();
    assert!(!config.dyn_enabled);
}

#[test]
fn admin_id_list_loads() {
    let text = "ssb_admin_ids:\n- @one.ed25519\n- @two.ed25519\n";
    let config = load_peach_config(Some(text)).unwrap();
    assert_eq!(
        config.ssb_admin_ids,
        vec![String::from("@one.ed25519"), String::from("@two.ed25519")]
    );
}

#[test]
fn empty_admin_id_list_loads() {
    let config = load_peach_config(Some("ssb_admin_ids:\n")).unwrap();
    assert!(config.ssb_admin_ids.is_empty());
}

#[test]
fn later_field_wins_on_duplicates() {
    let text = "external_domain: first.org\nexternal_domain: second.org\n";
    let config = load_peach_config(Some(text)).unwrap();
    assert_eq!(config.external_domain, "second.org");
}

#[test]
fn unknown_line_is_a_parse_error() {
    let r = load_peach_config(Some("no such field here\n"));
    assert!(matches!(r, Err(PeachError::ParseConfigError { .. })));
}

#[test]
fn stray_list_item_is_a_parse_error() {
    let r = load_peach_config(Some("- @one.ed25519\n"));
    assert!(matches!(r, Err(PeachError::ParseConfigError { .. })));
}

#[test]
fn set_external_domain_replaces_only_that_field() {
    let config = sample_config();
    let updated = set_external_domain(&config, "new.example.com");
    assert_eq!(updated.external_domain, "new.example.com");
    assert_eq!(updated.dyn_domain, config.dyn_domain);
    assert_eq!(updated.dyn_enabled, config.dyn_enabled);
    assert_eq!(updated.ssb_admin_ids, config.ssb_admin_ids);
}

#[test]
fn set_peach_dyndns_config_replaces_the_dyndns_fields() {
    let config = sample_config();
    let updated = set_peach_dyndns_config(
        &config,
        "other.dyn.peachcloud.org",
        "ns.example.org",
        "/tmp/tsig.key",
        false,
    );
    assert_eq!(updated.dyn_domain, "other.dyn.peachcloud.org");
    assert_eq!(updated.dyn_dns_server_address, "ns.example.org");
    assert_eq!(updated.dyn_tsig_key_path, "/tmp/tsig.key");
    assert!(!updated.dyn_enabled);
    assert_eq!(updated.external_domain, config.external_domain);
}

#[test]
fn set_dyndns_enabled_value_toggles() {
    let config = sample_config();
    let updated = set_dyndns_enabled_value(&config, false);
    assert!(!updated.dyn_enabled);
    assert_eq!(updated.dyn_domain, config.dyn_domain);
}

#[test]
fn get_peachcloud_domain_prefers_external() {
    let config = sample_config();
    assert_eq!(get_peachcloud_domain(&config).unwrap(), "example.com");
    let mut no_external = sample_config();
    no_external.external_domain = String::new();
    assert_eq!(
        get_peachcloud_domain(&no_external).unwrap(),
        "peach.dyn.peachcloud.org"
    );
    let empty = load_peach_config(None).unwrap();
    assert!(get_peachcloud_domain(&empty).is_none());
}

#[test]
fn add_ssb_admin_id_appends() {
    let config = sample_config();
    let updated = add_ssb_admin_id(&config, "@three.ed25519");
    assert_eq!(updated.ssb_admin_ids.len(), 3);
    assert_eq!(updated.ssb_admin_ids[2], "@three.ed25519");
}

#[test]
fn delete_ssb_admin_id_removes_first_occurrence() {
    let mut config = sample_config();
    config.ssb_admin_ids.push(String::from("@alpha.ed25519"));
    let updated = delete_ssb_admin_id(&config, "@alpha.ed25519").unwrap();
    assert_eq!(
        updated.ssb_admin_ids,
        vec![String::from("@beta.ed25519"), String::from("@alpha.ed25519")]
    );
}

#[test]
fn delete_missing_ssb_admin_id_is_an_error() {
    let config = sample_config();
    let r = delete_ssb_admin_id(&config, "@nobody.ed25519");
    match r {
        Err(PeachError::SsbAdminIdNotFound { id }) => assert_eq!(id, "@nobody.ed25519"),
        _ => panic!("expected SsbAdminIdNotFound"),
    }
}

#[test]
fn update_cycle_keeps_untouched_fields() {
    // One read-modify-write cycle through serialized text, as the store
    // performs it under its lock: nothing but the touched field changes.
    let initial = sample_config();
    let text = save_peach_config_text(&initial);
    let loaded = load_peach_config(Some(text.as_str())).unwrap();
    let mutated = set_dyndns_enabled_value(&loaded, false);
    let text2 = save_peach_config_text(&mutated);
    let reloaded = load_peach_config(Some(text2.as_str())).unwrap();
    assert!(!reloaded.dyn_enabled);
    assert_eq!(reloaded.external_domain, initial.external_domain);
    assert_eq!(reloaded.dyn_domain, initial.dyn_domain);
    assert_eq!(reloaded.dyn_dns_server_address, initial.dyn_dns_server_address);
    assert_eq!(reloaded.dyn_tsig_key_path, initial.dyn_tsig_key_path);
    assert_eq!(reloaded.ssb_admin_ids, initial.ssb_admin_ids);
}
