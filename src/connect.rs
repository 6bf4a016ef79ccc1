//! Requests to the platform's network tool: the argument lists of its
//! commands, the profile document that carries a credential, and the order
//! of the steps of a secured connection, whose last step always removes the
//! profile file again.
use vstd::prelude::*;

verus! {

/// The platform's network tool.
pub const NETWORK_TOOL: &'static str = "netsh";

pub const PROFILE_HEAD: &'static str = "<?xml version=\"1.0\"?>\n<WLANProfile xmlns=\"http://www.microsoft.com/networking/WLAN/profile/v1\">\n    <name>";

pub const PROFILE_AFTER_NAME: &'static str = "</name>\n    <SSIDConfig>\n        <SSID>\n            <name>";

pub const PROFILE_AFTER_SSID: &'static str = "</name>\n        </SSID>\n    </SSIDConfig>\n    <connectionType>ESS</connectionType>\n    <connectionMode>auto</connectionMode>\n    <MSM>\n        <security>\n            <authEncryption>\n                <authentication>WPA2PSK</authentication>\n                <encryption>AES</encryption>\n                <useOneX>false</useOneX>\n            </authEncryption>\n            <sharedKey>\n                <keyType>passPhrase</keyType>\n                <protected>false</protected>\n                <keyMaterial>";

pub const PROFILE_TAIL: &'static str = "</keyMaterial>\n            </sharedKey>\n        </security>\n    </MSM>\n</WLANProfile>";

/// The profile document for `ssid` with the pass phrase `password`: the
/// profile is named after the network it connects to.
pub open spec fn profile_document(ssid: Seq<char>, password: Seq<char>) -> Seq<char> {
    PROFILE_HEAD@ + ssid + PROFILE_AFTER_NAME@ + ssid + PROFILE_AFTER_SSID@ + password
        + PROFILE_TAIL@
}

/// The profile document that registers `ssid` with the pass phrase `password`.
pub fn profile_xml(ssid: &str, password: &str) -> (r: String)
    ensures
        r@ == profile_document(ssid@, password@),
{
    let mut r = PROFILE_HEAD.to_owned();
    r.append(ssid);
    r.append(PROFILE_AFTER_NAME);
    r.append(ssid);
    r.append(PROFILE_AFTER_SSID);
    r.append(password);
    r.append(PROFILE_TAIL);
    r
}

/// `prefix` followed by `s`.
fn joined(prefix: &str, s: &str) -> (r: String)
    ensures
        r@ == prefix@ + s@,
{
    let mut r = prefix.to_owned();
    r.append(s);
    r
}

fn owned(s: &str) -> (r: String)
    ensures
        r@ == s@,
{
    s.to_owned()
}

/// The views of a list of arguments.
pub open spec fn arg_views(v: Seq<String>) -> Seq<Seq<char>> {
    v.map_values(|s: String| s@)
}

/// Arguments that list the visible networks.
pub fn scan_args() -> (r: Vec<String>)
    ensures
        arg_views(r@) == seq!["wlan"@, "show"@, "networks"@],
{
    let r = vec![owned("wlan"), owned("show"), owned("networks")];
    assert(arg_views(r@) == seq!["wlan"@, "show"@, "networks"@]);
    r
}

/// Arguments that report the state of the wireless interface.
pub fn status_args() -> (r: Vec<String>)
    ensures
        arg_views(r@) == seq!["wlan"@, "show"@, "interfaces"@],
{
    let r = vec![owned("wlan"), owned("show"), owned("interfaces")];
    assert(arg_views(r@) == seq!["wlan"@, "show"@, "interfaces"@]);
    r
}

/// Arguments that end the current association.
pub fn disconnect_args() -> (r: Vec<String>)
    ensures
        arg_views(r@) == seq!["wlan"@, "disconnect"@],
{
    let r = vec![owned("wlan"), owned("disconnect")];
    assert(arg_views(r@) == seq!["wlan"@, "disconnect"@]);
    r
}

/// Arguments that connect to the open network `ssid`.
pub fn connect_open_args(ssid: &str) -> (r: Vec<String>)
    ensures
        arg_views(r@) == seq![
            "wlan"@,
            "connect"@,
            "name="@ + ssid@,
            "ssid="@ + ssid@,
            "interface=Wi-Fi"@,
        ],
{
    let r = vec![
        owned("wlan"),
        owned("connect"),
        joined("name=", ssid),
        joined("ssid=", ssid),
        owned("interface=Wi-Fi"),
    ];
    assert(arg_views(r@) == seq![
        "wlan"@,
        "connect"@,
        "name="@ + ssid@,
        "ssid="@ + ssid@,
        "interface=Wi-Fi"@,
    ]);
    r
}

/// Arguments that register the profile stored at `path`.
pub fn add_profile_args(path: &str) -> (r: Vec<String>)
    ensures
        arg_views(r@) == seq!["wlan"@, "add"@, "profile"@, "filename="@ + path@],
{
    let r = vec![owned("wlan"), owned("add"), owned("profile"), joined("filename=", path)];
    assert(arg_views(r@) == seq!["wlan"@, "add"@, "profile"@, "filename="@ + path@]);
    r
}

/// Arguments that connect through the registered profile named `ssid`.
pub fn connect_profile_args(ssid: &str) -> (r: Vec<String>)
    ensures
        arg_views(r@) == seq!["wlan"@, "connect"@, "name="@ + ssid@],
{
    let r = vec![owned("wlan"), owned("connect"), joined("name=", ssid)];
    assert(arg_views(r@) == seq!["wlan"@, "connect"@, "name="@ + ssid@]);
    r
}

/// A step of a secured connection.
#[derive(Clone, Copy, Debug, PartialEq, Eq, Structural)]
pub enum ConnectStep {
    WriteProfile,
    RegisterProfile,
    Connect,
    RemoveProfile,
    Finished,
}

/// A secured connection in progress: the step to perform next, and whether
/// a step that decides the outcome has failed.
#[derive(Clone, Copy, Debug, PartialEq, Eq, Structural)]
pub struct SecureConnect {
    pub step: ConnectStep,
    pub failed: bool,
}

/// The attempt after its current step reported `ok`. A failure skips ahead to
/// the removal of the profile file; a failed removal does not change the
/// outcome.
pub open spec fn advance_spec(s: SecureConnect, ok: bool) -> SecureConnect {
    match s.step {
        ConnectStep::WriteProfile => if ok {
            SecureConnect { step: ConnectStep::RegisterProfile, ..s }
        } else {
            SecureConnect { step: ConnectStep::RemoveProfile, failed: true }
        },
        ConnectStep::RegisterProfile => if ok {
            SecureConnect { step: ConnectStep::Connect, ..s }
        } else {
            SecureConnect { step: ConnectStep::RemoveProfile, failed: true }
        },
        ConnectStep::Connect => SecureConnect {
            step: ConnectStep::RemoveProfile,
            failed: s.failed || !ok,
        },
        ConnectStep::RemoveProfile => SecureConnect { step: ConnectStep::Finished, ..s },
        ConnectStep::Finished => s,
    }
}

/// The attempts that a run goes through, from `s`, when its steps report
/// `outcomes` in turn.
pub open spec fn run(s: SecureConnect, outcomes: Seq<bool>) -> Seq<SecureConnect>
    decreases outcomes.len(),
{
    if outcomes.len() == 0 {
        seq![s]
    } else {
        seq![s] + run(advance_spec(s, outcomes[0]), outcomes.drop_first())
    }
}

pub open spec fn start_spec() -> SecureConnect {
    SecureConnect { step: ConnectStep::WriteProfile, failed: false }
}

impl SecureConnect {
    /// A fresh attempt: the profile file is written first.
    pub fn start() -> (r: SecureConnect)
        ensures
            r == start_spec(),
    {
        SecureConnect { step: ConnectStep::WriteProfile, failed: false }
    }

    /// Moves on after the current step reported `ok`.
    pub fn advance(&mut self, ok: bool)
        ensures
            *final(self) == advance_spec(*old(self), ok),
    {
        match self.step {
            ConnectStep::WriteProfile => {
                if ok {
                    self.step = ConnectStep::RegisterProfile;
                } else {
                    self.step = ConnectStep::RemoveProfile;
                    self.failed = true;
                }
            },
            ConnectStep::RegisterProfile => {
                if ok {
                    self.step = ConnectStep::Connect;
                } else {
                    self.step = ConnectStep::RemoveProfile;
                    self.failed = true;
                }
            },
            ConnectStep::Connect => {
                self.step = ConnectStep::RemoveProfile;
                self.failed = self.failed || !ok;
            },
            ConnectStep::RemoveProfile => {
                self.step = ConnectStep::Finished;
            },
            ConnectStep::Finished => {},
        }
    }

    /// `Some(true)` once finished with success, `Some(false)` once finished
    /// with a failure, `None` while steps remain.
    pub fn outcome(&self) -> (r: Option<bool>)
        ensures
            r == (if self.step is Finished { Some(!self.failed) } else { None::<bool> }),
    {
        match self.step {
            ConnectStep::Finished => Some(!self.failed),
            _ => None,
        }
    }
}

/// Whatever each step reports, a secured connection finishes after at most
/// four steps, removes its profile file on the way, and succeeds exactly when
/// writing, registering and connecting all succeeded.
pub proof fn lemma_profile_always_removed(outcomes: Seq<bool>)
    requires
        outcomes.len() >= 4,
    ensures
        run(start_spec(), outcomes)[4].step is Finished,
        exists|k: int| 0 <= k < 4 && (#[trigger] run(start_spec(), outcomes)[k]).step is RemoveProfile,
        run(start_spec(), outcomes)[4].failed == !(outcomes[0] && outcomes[1] && outcomes[2]),
{
    reveal_with_fuel(run, 5);
    let o = outcomes;
    let s0 = start_spec();
    let s1 = advance_spec(s0, o[0]);
    let s2 = advance_spec(s1, o[1]);
    let s3 = advance_spec(s2, o[2]);
    let s4 = advance_spec(s3, o[3]);
    let o1 = o.drop_first();
    let o2 = o1.drop_first();
    let o3 = o2.drop_first();
    let o4 = o3.drop_first();
    assert(run(s3, o3) == seq![s3] + run(s4, o4));
    assert(run(s2, o2) == seq![s2] + run(s3, o3));
    assert(run(s1, o1) == seq![s1] + run(s2, o2));
    assert(run(s0, o) == seq![s0] + run(s1, o1));
    assert(run(s0, o)[1] == s1);
    assert(run(s0, o)[2] == s2);
    assert(run(s0, o)[3] == s3);
    if o[0] && o[1] {
        assert(run(s0, o)[3].step is RemoveProfile);
    } else if o[0] {
        assert(run(s0, o)[2].step is RemoveProfile);
    } else {
        assert(run(s0, o)[1].step is RemoveProfile);
    }
}

} // verus!
