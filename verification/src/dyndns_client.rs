//! Decision logic of the dyndns engine: registration, update planning,
//! the nsupdate instruction set, and the staleness monitor.
//!
//! The engine's outside work — the RPC calls to the registration service,
//! discovering the public IP, and running the update tool — happens in the
//! process around the library. Each step's decision is a function here: it
//! takes the outside outcome as a plain value and returns the next step or
//! the typed error, so every branch of the engine is verified for every
//! outcome the outside work can have.

use vstd::prelude::*;

use crate::config_manager::{self, ConfigModel, PeachConfig};
use crate::error::PeachError;
use crate::strutil;
use crate::timestamp;

verus! {

/// A dyndns updater run that has not succeeded for this many seconds (two
/// update cycles) counts as offline.
pub const DYNDNS_ONLINE_THRESHOLD_SECONDS: u64 = 360;

/// Time to live of the address record the engine installs; short, because
/// the address is expected to change.
pub const DYNDNS_RECORD_TTL_SECONDS: u64 = 30;

// ---------------------------------------------------------------------------
// Registration
// ---------------------------------------------------------------------------
/// The transient result of a successful remote registration.
#[derive(Debug)]
pub struct DnsRegistration {
    /// The domain that was claimed.
    pub domain: String,
    /// The secret key material the service returned; it is written to a
    /// protected file, never stored inside the configuration document.
    pub tsig_key: String,
    /// The nameserver that will accept updates for the domain.
    pub server_address: String,
}

/// Classifies the outcome of the remote `register_domain` call.
///
/// A transport failure is a `RemoteServiceError`; a success carries the key
/// material to be persisted.
pub fn registration_after_remote(domain: &str, server_address: &str, remote: Result<
    String,
    String,
>) -> (r: Result<DnsRegistration, PeachError>)
    ensures
        match remote {
            Ok(key) => (r matches Ok(reg) && reg.domain@ == domain@ && reg.tsig_key@ == key@
                && reg.server_address@ == server_address@),
            Err(msg) => (r matches Err(e) && (e matches PeachError::RemoteServiceError {
                msg: m,
            } && m@ == msg@)),
        },
{
    match remote {
        Ok(key) => Ok(
            DnsRegistration {
                domain: domain.to_owned(),
                tsig_key: key,
                server_address: server_address.to_owned(),
            },
        ),
        Err(msg) => Err(PeachError::RemoteServiceError { msg }),
    }
}

/// The configuration update of a successful registration: the dyndns fields
/// point at the registered domain and its key, and the engine is enabled.
pub fn apply_registration(config: &PeachConfig, reg: &DnsRegistration, tsig_key_path: &str) -> (r:
    PeachConfig)
    ensures
        r@ == (ConfigModel {
            dyn_domain: reg.domain@,
            dyn_dns_server_address: reg.server_address@,
            dyn_tsig_key_path: tsig_key_path@,
            dyn_enabled: true,
            ..config@
        }),
{
    config_manager::set_peach_dyndns_config(
        config,
        reg.domain.as_str(),
        reg.server_address.as_str(),
        tsig_key_path,
        true,
    )
}

/// Classifies the persistence step that follows a successful registration.
///
/// Once the remote call has succeeded, any local failure — writing the key
/// file or saving the configuration — is a `RegistrationPersistError`: the
/// system is registered remotely but not reflected locally, and the caller
/// must retry the persistence step, not the registration.
pub fn registration_persist_outcome(persist_error: Option<String>) -> (r: Result<
    String,
    PeachError,
>)
    ensures
        match persist_error {
            None => (r matches Ok(s) && s@ == "success"@),
            Some(msg) => (r matches Err(e) && (e matches PeachError::RegistrationPersistError {
                msg: m,
            } && m@ == msg@)),
        },
{
    match persist_error {
        None => Ok("success".to_owned()),
        Some(msg) => Err(PeachError::RegistrationPersistError { msg }),
    }
}

/// Classifies the reply of the remote `is_domain_available` call, which
/// answers with the text of a boolean.
pub fn parse_availability_response(remote: Result<String, String>) -> (r: Result<
    bool,
    PeachError,
>)
    ensures
        match remote {
            Ok(resp) => if resp@ == "true"@ {
                r matches Ok(b) && b
            } else if resp@ == "false"@ {
                r matches Ok(b) && !b
            } else {
                r matches Err(e) && (e matches PeachError::ParseBoolError { msg } && msg@
                    == resp@)
            },
            Err(msg) => (r matches Err(e) && (e matches PeachError::RemoteServiceError {
                msg: m,
            } && m@ == msg@)),
        },
{
    match remote {
        Ok(resp) => {
            if strutil::str_eq(resp.as_str(), "true") {
                Ok(true)
            } else if strutil::str_eq(resp.as_str(), "false") {
                Ok(false)
            } else {
                Err(PeachError::ParseBoolError { msg: resp })
            }
        },
        Err(msg) => Err(PeachError::RemoteServiceError { msg }),
    }
}

// ---------------------------------------------------------------------------
// Domain helpers
// ---------------------------------------------------------------------------
/// The full dyndns domain of a subdomain.
pub fn get_full_dynamic_domain(subdomain: &str) -> (r: String)
    ensures
        r@ == subdomain@ + ".dyn.peachcloud.org"@,
{
    let mut s = subdomain.to_owned();
    s.append(".dyn.peachcloud.org");
    s
}

/// The subdomain of a full dyndns domain, if the domain lies under the
/// dyndns zone.
pub open spec fn spec_dyndns_subdomain(full: Seq<char>) -> Option<Seq<char>> {
    let suffix = ".dyn.peachcloud.org"@;
    if full.len() >= suffix.len() && full.subrange(full.len() - suffix.len(), full.len() as int)
        == suffix {
        Some(full.subrange(0, full.len() - suffix.len()))
    } else {
        None
    }
}

/// Splits the subdomain off a full dyndns domain; `None` for a domain
/// outside the dyndns zone.
pub fn get_dyndns_subdomain(dyndns_full_domain: &str) -> (r: Option<String>)
    ensures
        match r {
            Some(s) => spec_dyndns_subdomain(dyndns_full_domain@) == Some(s@),
            None => spec_dyndns_subdomain(dyndns_full_domain@) is None,
        },
{
    let suffix = ".dyn.peachcloud.org";
    let sn = suffix.unicode_len();
    let n = dyndns_full_domain.unicode_len();
    if strutil::str_ends_with(dyndns_full_domain, suffix) {
        Some(strutil::substr_to_string(dyndns_full_domain, 0, n - sn))
    } else {
        None
    }
}

/// True iff the candidate differs from the currently configured dyndns
/// domain, so that callers can skip a redundant registration.
pub fn check_is_new_dyndns_domain(config: &PeachConfig, dyndns_full_domain: &str) -> (r: bool)
    ensures
        r == (dyndns_full_domain@ != config@.dyn_domain),
{
    !strutil::str_eq(dyndns_full_domain, config.dyn_domain.as_str())
}

// ---------------------------------------------------------------------------
// The update engine
// ---------------------------------------------------------------------------
/// What one update run should do, read off the configuration.
#[derive(Debug)]
pub enum UpdateDecision {
    /// dyndns is not enabled: no update is performed, which is no error.
    Disabled,
    /// dyndns is enabled: discover the public IP, then run the update tool
    /// against `nameserver` for `domain`, authenticated by the key at
    /// `key_path`.
    Update { nameserver: String, domain: String, key_path: String },
}

/// The entry decision of one update run.
pub fn dyndns_update_plan(config: &PeachConfig) -> (d: UpdateDecision)
    ensures
        config@.dyn_enabled ==> (d matches UpdateDecision::Update { nameserver, domain, key_path }
            && nameserver@ == config@.dyn_dns_server_address && domain@ == config@.dyn_domain
            && key_path@ == config@.dyn_tsig_key_path),
        !config@.dyn_enabled ==> d is Disabled,
{
    if config.dyn_enabled {
        UpdateDecision::Update {
            nameserver: config.dyn_dns_server_address.clone(),
            domain: config.dyn_domain.clone(),
            key_path: config.dyn_tsig_key_path.clone(),
        }
    } else {
        UpdateDecision::Disabled
    }
}

/// The instruction set handed to the update tool: address the configured
/// nameserver and zone, delete any existing address record, insert the
/// fresh IP with a short time to live, send.
pub open spec fn spec_nsupdate_input(
    nameserver: Seq<char>,
    domain: Seq<char>,
    public_ip: Seq<char>,
) -> Seq<char> {
    "server "@ + nameserver + "\nzone "@ + domain + "\nupdate delete "@ + domain
        + " A\nupdate add "@ + domain + " 30 A "@ + public_ip + "\nsend\n"@
}

/// Builds the update tool's instruction set.
pub fn build_nsupdate_input(nameserver: &str, domain: &str, public_ip: &str) -> (r: String)
    ensures
        r@ == spec_nsupdate_input(nameserver@, domain@, public_ip@),
{
    let mut out = String::new();
    out.append("server ");
    out.append(nameserver);
    out.append("\nzone ");
    out.append(domain);
    out.append("\nupdate delete ");
    out.append(domain);
    out.append(" A\nupdate add ");
    out.append(domain);
    out.append(" 30 A ");
    out.append(public_ip);
    out.append("\nsend\n");
    proof {
        assert(out@ =~= spec_nsupdate_input(nameserver@, domain@, public_ip@));
    }
    out
}

/// Classifies one run of the update tool.
///
/// `outcome` is `Err` with a diagnostic when the tool could not be launched
/// at all, otherwise `Ok` with the tool's exit status and its output. Only
/// a clean exit is a successful update; a rejection surfaces the tool's
/// output, and the caller records no success for it.
pub fn interpret_nsupdate_outcome(outcome: Result<(bool, String), String>) -> (r: Result<
    bool,
    PeachError,
>)
    ensures
        match outcome {
            Err(msg) => (r matches Err(e) && (e matches PeachError::NsCommandError { msg: m }
                && m@ == msg@)),
            Ok(run) => if run.0 {
                r matches Ok(b) && b
            } else {
                r matches Err(e) && (e matches PeachError::NsUpdateError { msg } && msg@
                    == run.1@)
            },
        },
{
    match outcome {
        Err(msg) => Err(PeachError::NsCommandError { msg }),
        Ok((success, output)) => {
            if success {
                Ok(true)
            } else {
                Err(PeachError::NsUpdateError { msg: output })
            }
        },
    }
}

// ---------------------------------------------------------------------------
// The staleness monitor
// ---------------------------------------------------------------------------
/// Seconds since the recorded last success, given the record file's text
/// (`None` where no record exists) and the time `now`.
///
/// An absent or malformed record means the history is unknown, which is
/// `None` — distinct from "long ago". A record later than `now` counts as
/// zero seconds.
pub open spec fn spec_seconds_since(log_contents: Option<Seq<char>>, now: u64) -> Option<u64> {
    match log_contents {
        None => None,
        Some(s) => match timestamp::spec_parse_timestamp(s) {
            None => None,
            Some(t) => Some(
                if now >= t {
                    (now - t) as u64
                } else {
                    0
                },
            ),
        },
    }
}

/// The online signal: the engine is enabled and a success lies within the
/// threshold.
pub open spec fn spec_is_online(
    enabled: bool,
    log_contents: Option<Seq<char>>,
    now: u64,
) -> bool {
    enabled && (spec_seconds_since(log_contents, now) matches Some(d) && d
        < DYNDNS_ONLINE_THRESHOLD_SECONDS)
}

/// The view of an optional record text.
pub open spec fn view_opt_str(contents: Option<&str>) -> Option<Seq<char>> {
    match contents {
        None => None,
        Some(s) => Some(s@),
    }
}

/// Seconds since the last successful update, from the record file's text
/// and the time `now`; `None` where no success was ever recorded or the
/// record is unreadable.
pub fn get_num_seconds_since_successful_dns_update(log_contents: Option<&str>, now: u64) -> (r:
    Option<u64>)
    ensures
        r == spec_seconds_since(view_opt_str(log_contents), now),
{
    match log_contents {
        None => None,
        Some(s) => match timestamp::parse_timestamp(s) {
            None => None,
            Some(t) => if now >= t {
                Some(now - t)
            } else {
                Some(0)
            },
        },
    }
}

/// True iff the dyndns updater is enabled and has succeeded recently.
pub fn is_dns_updater_online(config: &PeachConfig, log_contents: Option<&str>, now: u64) -> (r:
    bool)
    ensures
        r == spec_is_online(config@.dyn_enabled, view_opt_str(log_contents), now),
{
    let is_enabled = config.dyn_enabled;
    let ran_recently = match get_num_seconds_since_successful_dns_update(log_contents, now) {
        Some(seconds) => seconds < DYNDNS_ONLINE_THRESHOLD_SECONDS,
        None => false,
    };
    is_enabled && ran_recently
}

/// With the engine disabled the device is never reported online, whatever
/// the recorded timestamps say.
pub proof fn lemma_offline_when_disabled(log_contents: Option<Seq<char>>, now: u64)
    ensures
        !spec_is_online(false, log_contents, now),
{
}

/// Before any recorded success the staleness is unknown; after a success
/// recorded at `t` it is the non-negative distance to any `now >= t`.
pub proof fn lemma_seconds_since_last_success(t: u64, now: u64)
    ensures
        spec_seconds_since(None, now) is None,
        now >= t ==> spec_seconds_since(Some(timestamp::dec_digits(t as nat)), now) == Some(
            (now - t) as u64,
        ),
{
    timestamp::lemma_timestamp_round_trip(t);
}

} // verus!
