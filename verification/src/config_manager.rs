//! The configuration document and its field setters.
//!
//! A `PeachConfig` is the single persisted settings record of the device.
//! Every field has a well-defined default, so a document written by an older
//! schema still loads. Mutation happens by whole-document read-modify-write:
//! each setter takes the current document and returns the document to be
//! saved; the process around the library serialises those cycles under an
//! exclusive file lock.

use vstd::prelude::*;

use crate::config_codec;
use crate::error::PeachError;
use crate::strutil;

verus! {

/// The mathematical content of a configuration document.
#[verifier::ext_equal]
pub struct ConfigModel {
    pub external_domain: Seq<char>,
    pub dyn_domain: Seq<char>,
    pub dyn_dns_server_address: Seq<char>,
    pub dyn_tsig_key_path: Seq<char>,
    pub dyn_enabled: bool,
    pub ssb_admin_ids: Seq<Seq<char>>,
}

/// The persisted configuration record.
#[derive(Debug)]
pub struct PeachConfig {
    /// Externally reachable domain of the device, if one is configured.
    pub external_domain: String,
    /// Domain kept current by the dyndns engine.
    pub dyn_domain: String,
    /// Address of the nameserver that accepts the dyndns updates.
    pub dyn_dns_server_address: String,
    /// Path of the TSIG key file that authenticates the updates.
    pub dyn_tsig_key_path: String,
    /// Whether the dyndns engine is enabled at all.
    pub dyn_enabled: bool,
    /// ssb ids with administrative rights on the device.
    pub ssb_admin_ids: Vec<String>,
}

impl View for PeachConfig {
    type V = ConfigModel;

    open spec fn view(&self) -> ConfigModel {
        ConfigModel {
            external_domain: self.external_domain@,
            dyn_domain: self.dyn_domain@,
            dyn_dns_server_address: self.dyn_dns_server_address@,
            dyn_tsig_key_path: self.dyn_tsig_key_path@,
            dyn_enabled: self.dyn_enabled,
            ssb_admin_ids: self.ssb_admin_ids.deep_view(),
        }
    }
}

/// The document every field of which is at its default.
pub open spec fn default_model() -> ConfigModel {
    ConfigModel {
        external_domain: Seq::empty(),
        dyn_domain: Seq::empty(),
        dyn_dns_server_address: Seq::empty(),
        dyn_tsig_key_path: Seq::empty(),
        dyn_enabled: false,
        ssb_admin_ids: Seq::empty(),
    }
}

impl Default for PeachConfig {
    /// The document used when no file exists yet: every field default.
    fn default() -> (c: Self)
        ensures
            c@ == default_model(),
    {
        let c = PeachConfig {
            external_domain: String::new(),
            dyn_domain: String::new(),
            dyn_dns_server_address: String::new(),
            dyn_tsig_key_path: String::new(),
            dyn_enabled: false,
            ssb_admin_ids: Vec::new(),
        };
        proof {
            assert(c.ssb_admin_ids.deep_view() =~= Seq::<Seq<char>>::empty());
            assert(c@ =~= default_model());
        }
        c
    }
}

/// An element-wise copy of a vector of strings.
fn clone_string_vec(v: &Vec<String>) -> (r: Vec<String>)
    ensures
        r.deep_view() == v.deep_view(),
{
    let mut r: Vec<String> = Vec::new();
    let n = v.len();
    let mut i: usize = 0;
    while i < n
        invariant
            n == v.len(),
            i <= n,
            r@.len() == i,
            forall|j: int| 0 <= j < i ==> r@[j]@ == v@[j]@,
        decreases n - i,
    {
        r.push(v[i].clone());
        i += 1;
    }
    proof {
        assert forall|j: int| 0 <= j < n implies r.deep_view()[j] == v.deep_view()[j] by {
            assert(r@[j]@ == v@[j]@);
        }
        assert(r.deep_view() =~= v.deep_view());
    }
    r
}

/// Reads a configuration document from the text of the config file, or
/// produces the default document where no file exists (`contents` is `None`).
///
/// Partially populated documents load with per-field defaults; only text
/// that is no document at all is rejected.
pub fn load_peach_config(contents: Option<&str>) -> (r: Result<PeachConfig, PeachError>)
    ensures
        match r {
            Ok(c) => match contents {
                Some(s) => config_codec::spec_parse(s@) == Some(c@),
                None => c@ == default_model(),
            },
            Err(e) => contents is Some && config_codec::spec_parse(contents.unwrap()@) is None
                && e is ParseConfigError,
        },
{
    match contents {
        Some(s) => config_codec::parse_peach_config(s),
        None => Ok(PeachConfig::default()),
    }
}

/// Serialises a configuration document as the text to be written back to
/// the config file.
pub fn save_peach_config_text(config: &PeachConfig) -> (r: String)
    ensures
        r@ == config_codec::spec_serialize(config@),
{
    config_codec::serialize_peach_config(config)
}

/// Returns the document with all four dyndns fields replaced.
pub fn set_peach_dyndns_config(
    config: &PeachConfig,
    dyn_domain: &str,
    dyn_dns_server_address: &str,
    dyn_tsig_key_path: &str,
    dyn_enabled: bool,
) -> (r: PeachConfig)
    ensures
        r@ == (ConfigModel {
            dyn_domain: dyn_domain@,
            dyn_dns_server_address: dyn_dns_server_address@,
            dyn_tsig_key_path: dyn_tsig_key_path@,
            dyn_enabled: dyn_enabled,
            ..config@
        }),
{
    let r = PeachConfig {
        external_domain: config.external_domain.clone(),
        dyn_domain: dyn_domain.to_owned(),
        dyn_dns_server_address: dyn_dns_server_address.to_owned(),
        dyn_tsig_key_path: dyn_tsig_key_path.to_owned(),
        dyn_enabled,
        ssb_admin_ids: clone_string_vec(&config.ssb_admin_ids),
    };
    proof {
        assert(r@ =~= (ConfigModel {
            dyn_domain: dyn_domain@,
            dyn_dns_server_address: dyn_dns_server_address@,
            dyn_tsig_key_path: dyn_tsig_key_path@,
            dyn_enabled: dyn_enabled,
            ..config@
        }));
    }
    r
}

/// Returns the document with the external domain replaced.
pub fn set_external_domain(config: &PeachConfig, new_external_domain: &str) -> (r: PeachConfig)
    ensures
        r@ == (ConfigModel { external_domain: new_external_domain@, ..config@ }),
{
    let r = PeachConfig {
        external_domain: new_external_domain.to_owned(),
        dyn_domain: config.dyn_domain.clone(),
        dyn_dns_server_address: config.dyn_dns_server_address.clone(),
        dyn_tsig_key_path: config.dyn_tsig_key_path.clone(),
        dyn_enabled: config.dyn_enabled,
        ssb_admin_ids: clone_string_vec(&config.ssb_admin_ids),
    };
    proof {
        assert(r@ =~= (ConfigModel { external_domain: new_external_domain@, ..config@ }));
    }
    r
}

/// Returns the document with the dyndns engine switched on or off.
pub fn set_dyndns_enabled_value(config: &PeachConfig, enabled_value: bool) -> (r: PeachConfig)
    ensures
        r@ == (ConfigModel { dyn_enabled: enabled_value, ..config@ }),
{
    let r = PeachConfig {
        external_domain: config.external_domain.clone(),
        dyn_domain: config.dyn_domain.clone(),
        dyn_dns_server_address: config.dyn_dns_server_address.clone(),
        dyn_tsig_key_path: config.dyn_tsig_key_path.clone(),
        dyn_enabled: enabled_value,
        ssb_admin_ids: clone_string_vec(&config.ssb_admin_ids),
    };
    proof {
        assert(r@ =~= (ConfigModel { dyn_enabled: enabled_value, ..config@ }));
    }
    r
}

/// The domain under which the device is reachable: the external domain if
/// one is set, otherwise the dyndns domain if one is set, otherwise none.
pub fn get_peachcloud_domain(config: &PeachConfig) -> (r: Option<String>)
    ensures
        match r {
            Some(d) => (config@.external_domain.len() > 0 && d@ == config@.external_domain) || (
            config@.external_domain.len() == 0 && config@.dyn_domain.len() > 0 && d@
                == config@.dyn_domain),
            None => config@.external_domain.len() == 0 && config@.dyn_domain.len() == 0,
        },
{
    if !config.external_domain.as_str().is_empty() {
        Some(config.external_domain.clone())
    } else if !config.dyn_domain.as_str().is_empty() {
        Some(config.dyn_domain.clone())
    } else {
        None
    }
}

/// Returns the document with `ssb_id` appended to the admin list.
pub fn add_ssb_admin_id(config: &PeachConfig, ssb_id: &str) -> (r: PeachConfig)
    ensures
        r@ == (ConfigModel {
            ssb_admin_ids: config@.ssb_admin_ids.push(ssb_id@),
            ..config@
        }),
{
    let mut ids = clone_string_vec(&config.ssb_admin_ids);
    ids.push(ssb_id.to_owned());
    let r = PeachConfig {
        external_domain: config.external_domain.clone(),
        dyn_domain: config.dyn_domain.clone(),
        dyn_dns_server_address: config.dyn_dns_server_address.clone(),
        dyn_tsig_key_path: config.dyn_tsig_key_path.clone(),
        dyn_enabled: config.dyn_enabled,
        ssb_admin_ids: ids,
    };
    proof {
        assert(r.ssb_admin_ids.deep_view() =~= config@.ssb_admin_ids.push(ssb_id@));
        assert(r@ =~= (ConfigModel {
            ssb_admin_ids: config@.ssb_admin_ids.push(ssb_id@),
            ..config@
        }));
    }
    r
}

/// The first position of `id` in `ids`, or the length if it is absent.
pub open spec fn first_index_of(ids: Seq<Seq<char>>, id: Seq<char>) -> int
    decreases ids.len(),
{
    if ids.len() == 0 {
        0
    } else if ids[0] == id {
        0
    } else {
        1 + first_index_of(ids.drop_first(), id)
    }
}

/// Returns the document with the first occurrence of `ssb_id` removed from
/// the admin list, or reports that the id is not in the list.
pub fn delete_ssb_admin_id(config: &PeachConfig, ssb_id: &str) -> (r: Result<
    PeachConfig,
    PeachError,
>)
    ensures
        match r {
            Ok(c) => config@.ssb_admin_ids.contains(ssb_id@) && c@ == (ConfigModel {
                ssb_admin_ids: config@.ssb_admin_ids.remove(
                    first_index_of(config@.ssb_admin_ids, ssb_id@),
                ),
                ..config@
            }),
            Err(e) => !config@.ssb_admin_ids.contains(ssb_id@) && (e matches
                PeachError::SsbAdminIdNotFound { id } && id@ == ssb_id@),
        },
{
    let ghost ids = config@.ssb_admin_ids;
    let n = config.ssb_admin_ids.len();
    let mut i: usize = 0;
    while i < n
        invariant
            n == config.ssb_admin_ids.len(),
            i <= n,
            ids == config@.ssb_admin_ids,
            forall|j: int| 0 <= j < i ==> ids[j] != ssb_id@,
        decreases n - i,
    {
        if strutil::str_eq(config.ssb_admin_ids[i].as_str(), ssb_id) {
            proof {
                assert(ids[i as int] == config.ssb_admin_ids@[i as int]@);
                assert(ids[i as int] == ssb_id@);
            }
            let mut new_ids = clone_string_vec(&config.ssb_admin_ids);
            proof {
                assert(new_ids.deep_view().len() == new_ids@.len());
                assert(new_ids@.len() == n as int);
            }
            new_ids.remove(i);
            let c = PeachConfig {
                external_domain: config.external_domain.clone(),
                dyn_domain: config.dyn_domain.clone(),
                dyn_dns_server_address: config.dyn_dns_server_address.clone(),
                dyn_tsig_key_path: config.dyn_tsig_key_path.clone(),
                dyn_enabled: config.dyn_enabled,
                ssb_admin_ids: new_ids,
            };
            proof {
                lemma_first_index_of(ids, ssb_id@, i as int);
                assert(ids.contains(ssb_id@));
                assert(c.ssb_admin_ids.deep_view() =~= ids.remove(i as int));
                assert(c@ =~= (ConfigModel { ssb_admin_ids: ids.remove(i as int), ..config@ }));
            }
            return Ok(c);
        }
        i += 1;
    }
    proof {
        assert(forall|j: int| 0 <= j < ids.len() ==> ids[j] != ssb_id@);
        assert(!ids.contains(ssb_id@));
    }
    Err(PeachError::SsbAdminIdNotFound { id: ssb_id.to_owned() })
}

/// `first_index_of` names the position of the first hit.
proof fn lemma_first_index_of(ids: Seq<Seq<char>>, id: Seq<char>, i: int)
    requires
        0 <= i < ids.len(),
        ids[i] == id,
        forall|j: int| 0 <= j < i ==> ids[j] != id,
    ensures
        first_index_of(ids, id) == i,
    decreases ids.len(),
{
    if ids[0] == id {
    } else {
        lemma_first_index_of(ids.drop_first(), id, i - 1);
    }
}

} // verus!
