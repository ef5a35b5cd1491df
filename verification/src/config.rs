//! Runtime-configurable records: the push credentials and the two feature
//! toggles, together with the read-back view of the push configuration.

use vstd::prelude::*;

verus! {

/// Credentials and presentation settings for the push gateway.
/// An empty `device_key` disables pushing entirely.
pub struct BarkConfig {
    pub device_key: String,
    pub server_url: String,
    pub sound: String,
    pub group: String,
}

impl Clone for BarkConfig {
    fn clone(&self) -> (r: Self)
        ensures
            r == *self,
    {
        BarkConfig {
            device_key: self.device_key.clone(),
            server_url: self.server_url.clone(),
            sound: self.sound.clone(),
            group: self.group.clone(),
        }
    }
}

impl Default for BarkConfig {
    /// The configuration a fresh process starts from when nothing was
    /// persisted: no device key (pushing disabled), the default sound and
    /// notification group.
    fn default() -> (r: Self)
        ensures
            r.device_key@ == Seq::<char>::empty(),
            r.server_url@ == Seq::<char>::empty(),
            r.sound@ == "minuet"@,
            r.group@ == "teams"@,
    {
        BarkConfig {
            device_key: String::new(),
            server_url: String::new(),
            sound: String::from_str("minuet"),
            group: String::from_str("teams"),
        }
    }
}

/// The keep-alive feature toggle.  Stored and served, but no in-scope
/// behavior is gated on it.
#[derive(Clone, Copy, PartialEq, Eq, Structural, Debug)]
pub struct KeepAliveConfig {
    pub enabled: bool,
}

impl Default for KeepAliveConfig {
    fn default() -> (r: Self)
        ensures
            r.enabled == false,
    {
        KeepAliveConfig { enabled: false }
    }
}

/// The status-alert feature toggle.  Stored and served, but no in-scope
/// behavior is gated on it.
#[derive(Clone, Copy, PartialEq, Eq, Structural, Debug)]
pub struct StatusAlertConfig {
    pub enabled: bool,
}

impl Default for StatusAlertConfig {
    fn default() -> (r: Self)
        ensures
            r.enabled == false,
    {
        StatusAlertConfig { enabled: false }
    }
}

/// What a configuration read-back reports: whether a device key is set,
/// the key itself only when non-empty, and the remaining settings as they
/// are.
pub struct BarkConfigView {
    pub configured: bool,
    pub device_key: Option<String>,
    pub server_url: String,
    pub sound: String,
    pub group: String,
}

/// Build the read-back view of a push configuration.
pub fn bark_config_view(c: &BarkConfig) -> (v: BarkConfigView)
    ensures
        v.configured <==> c.device_key@.len() != 0,
        c.device_key@.len() == 0 ==> v.device_key is None,
        c.device_key@.len() != 0 ==> v.device_key == Some(c.device_key),
        v.server_url == c.server_url,
        v.sound == c.sound,
        v.group == c.group,
{
    let empty = c.device_key.as_str().is_empty();
    BarkConfigView {
        configured: !empty,
        device_key: if empty {
            None
        } else {
            Some(c.device_key.clone())
        },
        server_url: c.server_url.clone(),
        sound: c.sound.clone(),
        group: c.group.clone(),
    }
}

} // verus!
