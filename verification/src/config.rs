//! Application configuration: the stored settings, their defaults, what the user
//! interface may see of them, and how setup and settings change them.
use vstd::prelude::*;

use crate::device::{validate_api_url, validate_sync_folder, SetupError};
use crate::paths::join_path;
use crate::text::{chars_of, string_from_chars, trim_end_char};

verus! {

/// The version of the sync protocol this client speaks.
pub const PROTOCOL_VERSION: u32 = 1;

/// A TURN relay server for peer connections.
#[derive(Debug)]
pub struct TurnServer {
    pub urls: Vec<String>,
    pub username: Option<String>,
    pub credential: Option<String>,
}

/// The stored configuration of this installation.
#[derive(Debug)]
pub struct Config {
    pub api_url: String,
    pub sync_folder: Option<String>,
    pub device_id: String,
    pub device_name: String,
    pub graph_id: Option<String>,
    pub auth_token: Option<String>,
    pub enabled: bool,
    pub paused: bool,
    pub setup_complete: bool,
    pub stun_servers: Vec<String>,
    pub turn_servers: Vec<TurnServer>,
    pub protocol_version: u32,
}

/// The configuration as the user interface sees it: everything but the token.
#[derive(Debug)]
pub struct PublicConfig {
    pub api_url: String,
    pub sync_folder: Option<String>,
    pub device_id: String,
    pub device_name: String,
    pub graph_id: Option<String>,
    pub enabled: bool,
    pub paused: bool,
    pub setup_complete: bool,
    pub stun_servers: Vec<String>,
    pub turn_servers: Vec<TurnServer>,
    pub protocol_version: u32,
}

/// A copy of a string.
pub fn copy_string(s: &String) -> (r: String)
    ensures
        r == *s,
{
    s.clone()
}

/// A copy of an optional string.
pub fn copy_opt_string(s: &Option<String>) -> (r: Option<String>)
    ensures
        r == *s,
{
    match s {
        Some(v) => Some(v.clone()),
        None => None,
    }
}

/// A copy of a list of strings.
pub fn copy_strings(v: &Vec<String>) -> (r: Vec<String>)
    ensures
        r@ == v@,
{
    let mut r: Vec<String> = Vec::new();
    let mut i: usize = 0;
    while i < v.len()
        invariant
            i <= v@.len(),
            r@ == v@.take(i as int),
        decreases v@.len() - i,
    {
        r.push(v[i].clone());
        assert(r@ =~= v@.take(i + 1));
        i = i + 1;
    }
    assert(v@.take(v@.len() as int) =~= v@);
    r
}

impl TurnServer {
    /// A copy of this server entry.
    pub fn copy(&self) -> (r: TurnServer)
        ensures
            r.urls@ == self.urls@,
            r.username == self.username,
            r.credential == self.credential,
    {
        TurnServer {
            urls: copy_strings(&self.urls),
            username: copy_opt_string(&self.username),
            credential: copy_opt_string(&self.credential),
        }
    }
}

/// Two server entries hold the same values.
pub open spec fn same_turn_server(a: TurnServer, b: TurnServer) -> bool {
    a.urls@ == b.urls@ && a.username == b.username && a.credential == b.credential
}

/// Two lists of server entries hold the same values, in the same order.
pub open spec fn same_turn_servers(a: Seq<TurnServer>, b: Seq<TurnServer>) -> bool {
    a.len() == b.len() && forall|i: int| 0 <= i < a.len() ==> same_turn_server(#[trigger] a[i], b[i])
}

/// A copy of a list of server entries.
pub fn copy_turn_servers(v: &Vec<TurnServer>) -> (r: Vec<TurnServer>)
    ensures
        same_turn_servers(r@, v@),
{
    let mut r: Vec<TurnServer> = Vec::new();
    let mut i: usize = 0;
    while i < v.len()
        invariant
            i <= v@.len(),
            r@.len() == i,
            forall|j: int| 0 <= j < i ==> same_turn_server(#[trigger] r@[j], v@[j]),
        decreases v@.len() - i,
    {
        r.push(v[i].copy());
        i = i + 1;
    }
    r
}

/// Whether synchronization is enabled when the stored file does not say.
pub fn default_enabled() -> (r: bool)
    ensures
        r,
{
    true
}

/// The protocol version assumed when the stored file does not say.
pub fn default_protocol_version() -> (r: u32)
    ensures
        r == PROTOCOL_VERSION,
{
    PROTOCOL_VERSION
}

/// The STUN servers used when the stored file does not say: Google's public one.
pub fn default_stun() -> (r: Vec<String>)
    ensures
        r@.len() == 1,
        r@[0]@ == "stun:stun.l.google.com:19302"@,
{
    let mut r: Vec<String> = Vec::new();
    r.push("stun:stun.l.google.com:19302".to_owned());
    r
}

/// A fresh random identifier in the hyphenated form, through
/// `uuid::Uuid::new_v4` and its `Display`. Trusted: the text is 36 characters
/// long; its value is random. `new_v4` panics when the machine cannot supply
/// random bytes.
#[verifier::external_body]
pub(crate) fn new_uuid_string() -> (r: String)
    ensures
        r@.len() == 36,
{
    uuid::Uuid::new_v4().to_string()
}

/// The host name of this machine, through `hostname::get`, when it can be had
/// and is valid Unicode. Nothing is stated of it: it depends on the machine.
#[verifier::external_body]
fn machine_hostname() -> (r: Option<String>) {
    hostname::get().ok().and_then(|h| h.into_string().ok())
}

/// The device name used when none is stored: the host name, or
/// `GraphSync Device` when there is none.
pub fn device_name_or_default(host: Option<String>) -> (r: String)
    ensures
        match host {
            Some(h) => r == h,
            None => r@ == "GraphSync Device"@,
        },
{
    match host {
        Some(h) => h,
        None => "GraphSync Device".to_owned(),
    }
}

/// The device name of this machine: its host name, or `GraphSync Device` when
/// the machine gives none (see `device_name_or_default`).
pub fn default_device_name() -> String {
    let host = machine_hostname();
    device_name_or_default(host)
}

/// The file of the stored configuration inside the application data directory.
pub fn config_path(config_dir: &str) -> (r: String)
    ensures
        r@ == crate::paths::path_join(config_dir@, "config.json"@),
{
    join_path(config_dir, "config.json")
}

/// The file of the stored sync state inside the application data directory.
pub fn state_path(config_dir: &str) -> (r: String)
    ensures
        r@ == crate::paths::path_join(config_dir@, "sync_state.json"@),
{
    join_path(config_dir, "sync_state.json")
}

/// A character with the Unicode `White_Space` property (what
/// `char::is_whitespace` accepts).
pub open spec fn is_white_space(c: char) -> bool {
    ||| '\u{9}' <= c <= '\u{d}'
    ||| c == ' '
    ||| c == '\u{85}'
    ||| c == '\u{a0}'
    ||| c == '\u{1680}'
    ||| '\u{2000}' <= c <= '\u{200a}'
    ||| c == '\u{2028}'
    ||| c == '\u{2029}'
    ||| c == '\u{202f}'
    ||| c == '\u{205f}'
    ||| c == '\u{3000}'
}

/// `s` without the white space at its start.
pub open spec fn trim_start_ws(s: Seq<char>) -> Seq<char>
    decreases s.len(),
{
    if s.len() > 0 && is_white_space(s[0]) {
        trim_start_ws(s.drop_first())
    } else {
        s
    }
}

/// `s` without the white space at its end.
pub open spec fn trim_end_ws(s: Seq<char>) -> Seq<char>
    decreases s.len(),
{
    if s.len() > 0 && is_white_space(s.last()) {
        trim_end_ws(s.drop_last())
    } else {
        s
    }
}

/// `s` without leading and trailing white space (what `str::trim` returns).
pub open spec fn trimmed(s: Seq<char>) -> Seq<char> {
    trim_end_ws(trim_start_ws(s))
}

/// Whether `c` has the Unicode `White_Space` property.
fn is_white_space_char(c: char) -> (r: bool)
    ensures
        r == is_white_space(c),
{
    ('\u{9}' <= c && c <= '\u{d}') || c == ' ' || c == '\u{85}' || c == '\u{a0}' || c == '\u{1680}'
        || ('\u{2000}' <= c && c <= '\u{200a}') || c == '\u{2028}' || c == '\u{2029}' || c == '\u{202f}'
        || c == '\u{205f}' || c == '\u{3000}'
}

/// `s` without leading and trailing white space (as `str::trim` does).
pub(crate) fn trim(s: &str) -> (r: String)
    ensures
        r@ == trimmed(s@),
{
    let c = chars_of(s);
    let mut lo: usize = 0;
    assert(c@.skip(0) =~= c@);
    while lo < c.len() && is_white_space_char(c[lo])
        invariant
            c@ == s@,
            lo <= c@.len(),
            trim_start_ws(s@) == trim_start_ws(c@.skip(lo as int)),
        decreases c@.len() - lo,
    {
        assert(c@.skip(lo as int).drop_first() =~= c@.skip(lo + 1));
        lo = lo + 1;
    }
    let mut hi: usize = c.len();
    assert(c@.subrange(lo as int, hi as int) =~= c@.skip(lo as int));
    while hi > lo && is_white_space_char(c[hi - 1])
        invariant
            c@ == s@,
            lo <= hi <= c@.len(),
            trimmed(s@) == trim_end_ws(c@.subrange(lo as int, hi as int)),
        decreases hi,
    {
        assert(c@.subrange(lo as int, hi as int).drop_last() =~= c@.subrange(lo as int, hi - 1));
        hi = hi - 1;
    }
    let mut out: Vec<char> = Vec::new();
    let mut i: usize = lo;
    while i < hi
        invariant
            c@ == s@,
            lo <= i <= hi <= c@.len(),
            out@ == c@.subrange(lo as int, i as int),
        decreases hi - i,
    {
        out.push(c[i]);
        assert(out@ =~= c@.subrange(lo as int, i + 1));
        i = i + 1;
    }
    string_from_chars(out.as_slice())
}

/// Text made only of white space trims to nothing.
pub proof fn lemma_blank_trims_to_nothing(s: Seq<char>)
    requires
        forall|i: int| 0 <= i < s.len() ==> is_white_space(#[trigger] s[i]),
    ensures
        trimmed(s) == Seq::<char>::empty(),
    decreases s.len(),
{
    if s.len() > 0 {
        assert forall|i: int| 0 <= i < s.drop_first().len() implies is_white_space(
            #[trigger] s.drop_first()[i],
        ) by {
            assert(s.drop_first()[i] == s[i + 1]);
        }
        lemma_blank_trims_to_nothing(s.drop_first());
    } else {
        assert(trim_start_ws(s) =~= Seq::<char>::empty());
    }
}

/// An API address as it is stored: trimmed, without trailing `/`.
pub open spec fn clean_api_url(url: Seq<char>) -> Seq<char> {
    crate::text::strip_trailing(trimmed(url), '/')
}

/// An API address as it is stored: trimmed, without trailing `/`.
pub fn clean_api_url_text(url: &str) -> (r: String)
    ensures
        r@ == clean_api_url(url@),
{
    let t = trim(url);
    let c = chars_of(t.as_str());
    let v = trim_end_char(c.as_slice(), '/');
    string_from_chars(v.as_slice())
}

/// The stored configuration of a new installation with the given identity:
/// no API address or folder yet, enabled, not paused, setup not complete, the
/// default STUN server, no TURN servers.
pub open spec fn is_fresh_config(c: Config, device_id: String, device_name: String) -> bool {
    &&& c.api_url@ == Seq::<char>::empty()
    &&& c.sync_folder is None
    &&& c.device_id == device_id
    &&& c.device_name == device_name
    &&& c.graph_id is None
    &&& c.auth_token is None
    &&& c.enabled
    &&& !c.paused
    &&& !c.setup_complete
    &&& c.stun_servers@.len() == 1
    &&& c.stun_servers@[0]@ == "stun:stun.l.google.com:19302"@
    &&& c.turn_servers@.len() == 0
    &&& c.protocol_version == PROTOCOL_VERSION
}

/// `after` is `before` with the device identity replaced and everything else kept.
pub open spec fn same_but_identity(after: Config, before: Config) -> bool {
    &&& after.api_url == before.api_url
    &&& after.sync_folder == before.sync_folder
    &&& after.graph_id == before.graph_id
    &&& after.auth_token == before.auth_token
    &&& after.enabled == before.enabled
    &&& after.paused == before.paused
    &&& after.setup_complete == before.setup_complete
    &&& after.stun_servers@ == before.stun_servers@
    &&& after.turn_servers@ == before.turn_servers@
    &&& after.protocol_version == before.protocol_version
}

impl Config {
    /// The configuration of a new installation with the given identity.
    pub fn with_identity(device_id: String, device_name: String) -> (r: Config)
        ensures
            is_fresh_config(r, device_id, device_name),
    {
        Config {
            api_url: String::new(),
            sync_folder: None,
            device_id,
            device_name,
            graph_id: None,
            auth_token: None,
            enabled: true,
            paused: false,
            setup_complete: false,
            stun_servers: default_stun(),
            turn_servers: Vec::new(),
            protocol_version: PROTOCOL_VERSION,
        }
    }

    /// A loaded configuration with its identity filled in: an empty device
    /// identifier becomes `fresh_id`, an empty device name becomes `host_name`.
    pub fn with_identity_filled(self, fresh_id: String, host_name: String) -> (r: Config)
        ensures
            r.device_id == (if self.device_id@.len() == 0 { fresh_id } else { self.device_id }),
            r.device_name == (if self.device_name@.len() == 0 {
                host_name
            } else {
                self.device_name
            }),
            same_but_identity(r, self),
    {
        let mut c = self;
        if c.device_id.as_str().is_empty() {
            c.device_id = fresh_id;
        }
        if c.device_name.as_str().is_empty() {
            c.device_name = host_name;
        }
        c
    }

    /// A loaded configuration with its identity filled in: an empty device
    /// identifier becomes a fresh random one, an empty device name becomes the
    /// name of this machine.
    pub fn complete_loaded(self) -> (r: Config)
        ensures
            self.device_id@.len() > 0 ==> r.device_id == self.device_id,
            self.device_id@.len() == 0 ==> r.device_id@.len() == 36,
            self.device_name@.len() > 0 ==> r.device_name == self.device_name,
            same_but_identity(r, self),
    {
        let need_id = self.device_id.as_str().is_empty();
        let need_name = self.device_name.as_str().is_empty();
        let fresh = if need_id { new_uuid_string() } else { String::new() };
        let host = if need_name { default_device_name() } else { String::new() };
        self.with_identity_filled(fresh, host)
    }

    /// Records a completed setup: the cleaned API address, the sync folder and
    /// the device name; setup becomes complete and synchronization enabled.
    pub fn apply_setup(&mut self, api_url: &str, sync_folder: String, device_name: String)
        ensures
            final(self).api_url@ == clean_api_url(api_url@),
            final(self).sync_folder == Some(sync_folder),
            final(self).device_name == device_name,
            final(self).setup_complete,
            final(self).enabled,
            final(self).device_id == old(self).device_id,
            final(self).graph_id == old(self).graph_id,
            final(self).auth_token == old(self).auth_token,
            final(self).paused == old(self).paused,
            final(self).stun_servers@ == old(self).stun_servers@,
            final(self).turn_servers@ == old(self).turn_servers@,
            final(self).protocol_version == old(self).protocol_version,
    {
        self.api_url = clean_api_url_text(api_url);
        self.sync_folder = Some(sync_folder);
        self.device_name = device_name;
        self.setup_complete = true;
        self.enabled = true;
    }

    /// Replaces the API address with its cleaned form.
    pub fn set_api_url(&mut self, api_url: &str)
        ensures
            final(self).api_url@ == clean_api_url(api_url@),
            final(self).sync_folder == old(self).sync_folder,
            final(self).device_id == old(self).device_id,
            final(self).device_name == old(self).device_name,
            final(self).graph_id == old(self).graph_id,
            final(self).auth_token == old(self).auth_token,
            final(self).enabled == old(self).enabled,
            final(self).paused == old(self).paused,
            final(self).setup_complete == old(self).setup_complete,
            final(self).stun_servers@ == old(self).stun_servers@,
            final(self).turn_servers@ == old(self).turn_servers@,
            final(self).protocol_version == old(self).protocol_version,
    {
        self.api_url = clean_api_url_text(api_url);
    }

    /// Gives this installation a new identity with `device_id`: the graph, the
    /// token and the completed setup are forgotten.
    pub fn reset_identity_to(&mut self, device_id: String)
        ensures
            final(self).device_id == device_id,
            final(self).graph_id is None,
            final(self).auth_token is None,
            !final(self).setup_complete,
            final(self).api_url == old(self).api_url,
            final(self).sync_folder == old(self).sync_folder,
            final(self).device_name == old(self).device_name,
            final(self).enabled == old(self).enabled,
            final(self).paused == old(self).paused,
            final(self).stun_servers@ == old(self).stun_servers@,
            final(self).turn_servers@ == old(self).turn_servers@,
            final(self).protocol_version == old(self).protocol_version,
    {
        self.device_id = device_id;
        self.graph_id = None;
        self.auth_token = None;
        self.setup_complete = false;
    }

    /// Gives this installation a new random identity: the graph, the token and
    /// the completed setup are forgotten.
    pub fn reset_identity(&mut self)
        ensures
            final(self).device_id@.len() == 36,
            final(self).graph_id is None,
            final(self).auth_token is None,
            !final(self).setup_complete,
            final(self).api_url == old(self).api_url,
            final(self).sync_folder == old(self).sync_folder,
            final(self).device_name == old(self).device_name,
            final(self).enabled == old(self).enabled,
            final(self).paused == old(self).paused,
            final(self).stun_servers@ == old(self).stun_servers@,
            final(self).turn_servers@ == old(self).turn_servers@,
            final(self).protocol_version == old(self).protocol_version,
    {
        let id = new_uuid_string();
        self.reset_identity_to(id);
    }
}

/// `after` keeps every field of `before` that setup and settings leave alone.
pub open spec fn same_but_settings(after: Config, before: Config) -> bool {
    &&& after.device_id == before.device_id
    &&& after.graph_id == before.graph_id
    &&& after.auth_token == before.auth_token
    &&& after.paused == before.paused
    &&& after.stun_servers@ == before.stun_servers@
    &&& after.turn_servers@ == before.turn_servers@
    &&& after.protocol_version == before.protocol_version
}

/// Whether a new API address, if one is given, is refused.
pub open spec fn api_url_refused(api_url: Option<String>) -> bool {
    match api_url {
        Some(u) => crate::device::api_url_check(u@) is Err,
        None => false,
    }
}

/// Whether a new sync folder, if one is given, is refused, given what the file
/// system reports of it.
pub open spec fn sync_folder_refused(sync_folder: Option<String>, exists: bool, is_dir: bool) -> bool {
    match sync_folder {
        Some(f) => crate::device::sync_folder_check(f@, exists, is_dir) is Err,
        None => false,
    }
}

impl Config {
    /// Checks and records a setup: the API address must be accepted, then the
    /// sync folder (`folder_exists` and `folder_is_dir` report what the file
    /// system says of it); on success the setup is applied as `apply_setup`
    /// does, and on the first refusal its error is returned and nothing changes.
    pub fn setup_checked(
        &mut self,
        api_url: &str,
        sync_folder: String,
        folder_exists: bool,
        folder_is_dir: bool,
        device_name: String,
    ) -> (r: Result<(), SetupError>)
        ensures
            crate::device::api_url_check(api_url@) is Err ==> r == crate::device::api_url_check(
                api_url@,
            ) && *final(self) == *old(self),
            crate::device::api_url_check(api_url@) is Ok && crate::device::sync_folder_check(
                sync_folder@,
                folder_exists,
                folder_is_dir,
            ) is Err ==> r == crate::device::sync_folder_check(
                sync_folder@,
                folder_exists,
                folder_is_dir,
            ) && *final(self) == *old(self),
            r is Ok <==> (crate::device::api_url_check(api_url@) is Ok
                && crate::device::sync_folder_check(sync_folder@, folder_exists, folder_is_dir) is Ok),
            r is Ok ==> {
                &&& final(self).api_url@ == clean_api_url(api_url@)
                &&& final(self).sync_folder == Some(sync_folder)
                &&& final(self).device_name == device_name
                &&& final(self).setup_complete
                &&& final(self).enabled
                &&& same_but_settings(*final(self), *old(self))
            },
    {
        match validate_api_url(api_url) {
            Err(e) => return Err(e),
            Ok(()) => {},
        }
        match validate_sync_folder(sync_folder.as_str(), folder_exists, folder_is_dir) {
            Err(e) => return Err(e),
            Ok(()) => {},
        }
        self.apply_setup(api_url, sync_folder, device_name);
        Ok(())
    }

    /// Applies changed settings in order: a new API address (checked, then
    /// stored cleaned), a new sync folder (checked; `folder_exists` and
    /// `folder_is_dir` report what the file system says of it), then a new
    /// device name. The first refusal ends the update with its error; a change
    /// made before it stays.
    pub fn update_settings(
        &mut self,
        api_url: Option<String>,
        sync_folder: Option<String>,
        folder_exists: bool,
        folder_is_dir: bool,
        device_name: Option<String>,
    ) -> (r: Result<(), SetupError>)
        ensures
            same_but_settings(*final(self), *old(self)),
            final(self).enabled == old(self).enabled,
            final(self).setup_complete == old(self).setup_complete,
            api_url_refused(api_url) ==> {
                &&& r == crate::device::api_url_check(api_url->0@)
                &&& final(self).api_url == old(self).api_url
                &&& final(self).sync_folder == old(self).sync_folder
                &&& final(self).device_name == old(self).device_name
            },
            !api_url_refused(api_url) ==> final(self).api_url@ == match api_url {
                Some(u) => clean_api_url(u@),
                None => old(self).api_url@,
            },
            !api_url_refused(api_url) && sync_folder_refused(sync_folder, folder_exists, folder_is_dir)
                ==> {
                &&& r == crate::device::sync_folder_check(sync_folder->0@, folder_exists, folder_is_dir)
                &&& final(self).sync_folder == old(self).sync_folder
                &&& final(self).device_name == old(self).device_name
            },
            !api_url_refused(api_url) && !sync_folder_refused(sync_folder, folder_exists, folder_is_dir)
                ==> {
                &&& r is Ok
                &&& final(self).sync_folder == match sync_folder {
                    Some(f) => Some(f),
                    None => old(self).sync_folder,
                }
                &&& final(self).device_name == match device_name {
                    Some(n) => n,
                    None => old(self).device_name,
                }
            },
    {
        if let Some(url) = api_url {
            match validate_api_url(url.as_str()) {
                Err(e) => return Err(e),
                Ok(()) => {},
            }
            self.set_api_url(url.as_str());
        }
        if let Some(folder) = sync_folder {
            match validate_sync_folder(folder.as_str(), folder_exists, folder_is_dir) {
                Err(e) => return Err(e),
                Ok(()) => {},
            }
            self.sync_folder = Some(folder);
        }
        if let Some(name) = device_name {
            self.device_name = name;
        }
        Ok(())
    }
}

impl Default for Config {
    /// The configuration of a new installation: a fresh random device
    /// identifier and this machine's name.
    fn default() -> (r: Config)
        ensures
            r.device_id@.len() == 36,
            r.api_url@ == Seq::<char>::empty(),
            r.sync_folder is None,
            r.graph_id is None,
            r.auth_token is None,
            r.enabled,
            !r.paused,
            !r.setup_complete,
            r.stun_servers@.len() == 1,
            r.stun_servers@[0]@ == "stun:stun.l.google.com:19302"@,
            r.turn_servers@.len() == 0,
            r.protocol_version == PROTOCOL_VERSION,
    {
        Config::with_identity(new_uuid_string(), default_device_name())
    }
}

/// The public view of a configuration: every field but the token, copied.
pub open spec fn is_public_view(p: PublicConfig, c: Config) -> bool {
    &&& p.api_url == c.api_url
    &&& p.sync_folder == c.sync_folder
    &&& p.device_id == c.device_id
    &&& p.device_name == c.device_name
    &&& p.graph_id == c.graph_id
    &&& p.enabled == c.enabled
    &&& p.paused == c.paused
    &&& p.setup_complete == c.setup_complete
    &&& p.stun_servers@ == c.stun_servers@
    &&& same_turn_servers(p.turn_servers@, c.turn_servers@)
    &&& p.protocol_version == c.protocol_version
}

/// What the user interface may see of the configuration: every field but the
/// authentication token.
pub fn public_config(config: &Config) -> (r: PublicConfig)
    ensures
        is_public_view(r, *config),
{
    PublicConfig {
        api_url: copy_string(&config.api_url),
        sync_folder: copy_opt_string(&config.sync_folder),
        device_id: copy_string(&config.device_id),
        device_name: copy_string(&config.device_name),
        graph_id: copy_opt_string(&config.graph_id),
        enabled: config.enabled,
        paused: config.paused,
        setup_complete: config.setup_complete,
        stun_servers: copy_strings(&config.stun_servers),
        turn_servers: copy_turn_servers(&config.turn_servers),
        protocol_version: config.protocol_version,
    }
}

} // verus!
