//! A connection attempt as a state machine. The caller performs each action
//! it is handed (check the connection, gather the inventory, run an `nmcli`
//! command) and hands back what happened; the session decides what comes
//! next, and when it is finished.

use vstd::prelude::*;
use crate::structs::{NetworkConnectionProfile, NetworkInterface, NetworkType};
use crate::text::same_text;
use crate::wifi::{is_ssid_connected, listing_shows_ssid_active, WifiNetwork};

verus! {

/// What a connection attempt is asked to do.
#[derive(Debug)]
pub struct ConnectRequest {
    /// When set, connected interfaces are disconnected and connected again.
    pub disconnect_before: Option<bool>,
    /// When set, every interface is brought up, without stopping at the
    /// first working connection.
    pub multiple: Option<bool>,
    /// When set, only this interface is brought up.
    pub interface: Option<String>,
    pub wifi_password: Option<String>,
    pub apn_name: Option<String>,
}

/// An `nmcli` device command, on the named interface.
#[derive(Debug, PartialEq, Eq)]
pub enum NmcliCommand {
    /// `nmcli dev disconnect <name>`
    Disconnect(String),
    /// `nmcli dev wifi connect <name>`
    WifiConnect(String),
    /// `nmcli dev connect <name>`
    Connect(String),
}

impl NmcliCommand {
    /// The interface the command acts on.
    pub open spec fn target(self) -> String {
        match self {
            NmcliCommand::Disconnect(n) => n,
            NmcliCommand::WifiConnect(n) => n,
            NmcliCommand::Connect(n) => n,
        }
    }

    /// The arguments given to `nmcli`.
    pub open spec fn arg_texts(self) -> Seq<Seq<char>> {
        match self {
            NmcliCommand::Disconnect(n) => seq!["dev"@, "disconnect"@, n@],
            NmcliCommand::WifiConnect(n) => seq!["dev"@, "wifi"@, "connect"@, n@],
            NmcliCommand::Connect(n) => seq!["dev"@, "connect"@, n@],
        }
    }

    /// The arguments to run `nmcli` with.
    pub fn args(&self) -> (r: Vec<String>)
        ensures
            r@.map_values(|s: String| s@) == self.arg_texts(),
    {
        let r = match self {
            NmcliCommand::Disconnect(n) => vec![
                String::from_str("dev"),
                String::from_str("disconnect"),
                n.clone(),
            ],
            NmcliCommand::WifiConnect(n) => vec![
                String::from_str("dev"),
                String::from_str("wifi"),
                String::from_str("connect"),
                n.clone(),
            ],
            NmcliCommand::Connect(n) => vec![
                String::from_str("dev"),
                String::from_str("connect"),
                n.clone(),
            ],
        };
        assert(r@.map_values(|s: String| s@) =~= self.arg_texts());
        r
    }

    /// A copy of the command.
    pub fn duplicate(&self) -> (r: NmcliCommand)
        ensures
            r == *self,
    {
        match self {
            NmcliCommand::Disconnect(n) => NmcliCommand::Disconnect(n.clone()),
            NmcliCommand::WifiConnect(n) => NmcliCommand::WifiConnect(n.clone()),
            NmcliCommand::Connect(n) => NmcliCommand::Connect(n.clone()),
        }
    }
}

/// One step of the plan of a connection attempt.
#[derive(Debug, PartialEq, Eq)]
pub enum ConnectStep {
    /// Run an `nmcli` command.
    Run(NmcliCommand),
    /// Check the connection; stop when it works.
    CheckConnection,
}

/// What the caller gathers before interfaces are brought up.
#[derive(Debug)]
pub struct ConnectInventory {
    /// The physical network interfaces, in order.
    pub interfaces: Vec<NetworkInterface>,
    /// The scanned Wi-Fi networks.
    pub wifi_networks: Vec<WifiNetwork>,
    /// The stored connection profiles.
    pub profiles: Vec<NetworkConnectionProfile>,
    /// The output of `nmcli -t -f active,ssid dev wifi`.
    pub active_listing: String,
}

/// Why a connection attempt failed.
#[derive(Debug, PartialEq, Eq)]
pub enum ConnectError {
    /// Gathering the inventory failed, with this message.
    Inventory(String),
    /// No working connection at the end.
    NotConnected,
}

impl ConnectError {
    /// The message that describes the error.
    pub open spec fn message_text(&self) -> Seq<char> {
        match self {
            ConnectError::Inventory(m) => m@,
            ConnectError::NotConnected => "error connecting"@,
        }
    }

    /// The message that describes the error.
    pub fn message(&self) -> (r: String)
        ensures
            r@ == self.message_text(),
    {
        match self {
            ConnectError::Inventory(m) => m.clone(),
            ConnectError::NotConnected => String::from_str("error connecting"),
        }
    }
}

/// What the caller is to do next.
#[derive(Debug, PartialEq, Eq)]
pub enum ConnectAction {
    /// Check whether the host is connected; answer with `ConnectionChecked`.
    CheckConnection,
    /// Gather the inventory; answer with `InventoryGathered` or `InventoryFailed`.
    GatherInventory,
    /// Run `nmcli` with the command's arguments; answer with `CommandDone`.
    Run(NmcliCommand),
    /// The attempt is over, with this outcome.
    Finished(Result<(), ConnectError>),
}

/// What happened when the caller performed an action.
#[derive(Debug)]
pub enum ConnectEvent {
    ConnectionChecked(bool),
    InventoryGathered(ConnectInventory),
    InventoryFailed(String),
    CommandDone,
}

/// Where a connection attempt stands.
#[derive(Debug)]
pub enum ConnectPhase {
    /// Waiting for the first connection check.
    InitialCheck,
    /// Waiting for the inventory.
    Gathering,
    /// Carrying out a plan; the step at the index was handed out.
    Running(Vec<ConnectStep>, usize),
    /// Waiting for the last connection check.
    FinalCheck,
    /// The attempt is over.
    Done,
}

/// Some stored profile is for the interface named `name`.
pub open spec fn has_profile(profiles: Seq<NetworkConnectionProfile>, name: Seq<char>) -> bool {
    exists|i: int| 0 <= i < profiles.len() && #[trigger] profiles[i].interface@ == name
}

/// Some scanned Wi-Fi network is shown as active.
pub open spec fn wifi_connected(wifi: Seq<WifiNetwork>, listing: Seq<char>) -> bool {
    exists|i: int|
        0 <= i < wifi.len() && #[trigger] listing_shows_ssid_active(listing, wifi[i].ssid@)
}

/// The commands run for one interface, or `None` when it is passed over:
/// interfaces without a profile, interfaces other than the requested one,
/// connected interfaces (unless asked to disconnect first) and Wi-Fi
/// interfaces while some Wi-Fi network is connected (same exception) are
/// passed over. A connected interface is first disconnected; then Wi-Fi is
/// connected with `dev wifi connect`, Ethernet and cellular with `dev
/// connect`, Bluetooth not at all. An interface of unknown kind gets no
/// command but is not passed over.
pub open spec fn interface_commands(
    req: ConnectRequest,
    iface: NetworkInterface,
    profiles: Seq<NetworkConnectionProfile>,
    wifi_on: bool,
) -> Option<Seq<NmcliCommand>> {
    if !has_profile(profiles, iface.name@) {
        None
    } else if req.interface is Some && iface.name@ != req.interface->0@ {
        None
    } else {
        match iface.network_type {
            None => Some(Seq::empty()),
            Some(kind) => {
                let connected = iface.is_connected == Some(true);
                if connected && req.disconnect_before is None {
                    None
                } else {
                    let first = if connected {
                        seq![NmcliCommand::Disconnect(iface.name)]
                    } else {
                        Seq::empty()
                    };
                    match kind {
                        NetworkType::Wifi => if wifi_on && req.disconnect_before is None {
                            None
                        } else {
                            Some(first.push(NmcliCommand::WifiConnect(iface.name)))
                        },
                        NetworkType::Ethernet => Some(
                            first.push(NmcliCommand::Connect(iface.name)),
                        ),
                        NetworkType::Cellular => Some(
                            first.push(NmcliCommand::Connect(iface.name)),
                        ),
                        NetworkType::Bluetooth => Some(first),
                    }
                }
            },
        }
    }
}

/// The steps for one interface: its commands, then (unless every interface
/// is to be brought up) a connection check. Nothing for a passed-over one.
pub open spec fn interface_plan(
    req: ConnectRequest,
    iface: NetworkInterface,
    profiles: Seq<NetworkConnectionProfile>,
    wifi_on: bool,
) -> Seq<ConnectStep> {
    match interface_commands(req, iface, profiles, wifi_on) {
        None => Seq::empty(),
        Some(cmds) => cmds.map_values(|c: NmcliCommand| ConnectStep::Run(c)) + if req.multiple is None {
            seq![ConnectStep::CheckConnection]
        } else {
            Seq::empty()
        },
    }
}

/// The steps for all interfaces, in order.
pub open spec fn plan_for(
    req: ConnectRequest,
    ifaces: Seq<NetworkInterface>,
    profiles: Seq<NetworkConnectionProfile>,
    wifi_on: bool,
) -> Seq<ConnectStep>
    decreases ifaces.len(),
{
    if ifaces.len() == 0 {
        Seq::empty()
    } else {
        plan_for(req, ifaces.drop_last(), profiles, wifi_on) + interface_plan(
            req,
            ifaces.last(),
            profiles,
            wifi_on,
        )
    }
}

/// The plan for an inventory.
pub open spec fn connect_plan(req: ConnectRequest, inv: ConnectInventory) -> Seq<ConnectStep> {
    plan_for(
        req,
        inv.interfaces@,
        inv.profiles@,
        wifi_connected(inv.wifi_networks@, inv.active_listing@),
    )
}

/// After a failed last check, the attempt is made once more, disconnecting
/// first, when it was not already so, and names no interface, password or APN.
pub open spec fn may_retry(req: ConnectRequest) -> bool {
    &&& req.interface is None
    &&& req.disconnect_before is None
    &&& req.wifi_password is None
    &&& req.apn_name is None
}

/// The request of the second attempt.
pub open spec fn retry_request(req: ConnectRequest) -> ConnectRequest {
    ConnectRequest {
        disconnect_before: Some(true),
        multiple: req.multiple,
        interface: None,
        wifi_password: None,
        apn_name: None,
    }
}

/// How an attempt starts: with a connection check, unless every interface
/// is to be brought up, in which case with gathering the inventory.
pub open spec fn starts(req: ConnectRequest, phase: ConnectPhase, action: ConnectAction) -> bool {
    if req.multiple is None {
        phase == ConnectPhase::InitialCheck && action == ConnectAction::CheckConnection
    } else {
        phase == ConnectPhase::Gathering && action == ConnectAction::GatherInventory
    }
}

/// The action for a step of the plan.
pub open spec fn step_action(step: ConnectStep) -> ConnectAction {
    match step {
        ConnectStep::Run(c) => ConnectAction::Run(c),
        ConnectStep::CheckConnection => ConnectAction::CheckConnection,
    }
}

/// Moving to step `p` of the plan: hand it out, or after the last step check
/// the connection a last time.
pub open spec fn advances(
    plan: Seq<ConnectStep>,
    p: int,
    phase: ConnectPhase,
    action: ConnectAction,
) -> bool {
    if p < plan.len() {
        &&& phase matches ConnectPhase::Running(v, q)
        &&& v@ == plan
        &&& q == p
        &&& action == step_action(plan[p])
    } else {
        phase == ConnectPhase::FinalCheck && action == ConnectAction::CheckConnection
    }
}

/// The attempt ends with `outcome`.
pub open spec fn finishes(
    phase: ConnectPhase,
    action: ConnectAction,
    outcome: Result<(), ConnectError>,
) -> bool {
    phase == ConnectPhase::Done && action == ConnectAction::Finished(outcome)
}

/// The events each phase waits for.
pub open spec fn accepts_event(phase: ConnectPhase, event: ConnectEvent) -> bool {
    match phase {
        ConnectPhase::InitialCheck => event is ConnectionChecked,
        ConnectPhase::Gathering => event is InventoryGathered || event is InventoryFailed,
        ConnectPhase::Running(plan, pos) => pos < plan@.len() && match plan@[pos as int] {
            ConnectStep::Run(_) => event is CommandDone,
            ConnectStep::CheckConnection => event is ConnectionChecked,
        },
        ConnectPhase::FinalCheck => event is ConnectionChecked,
        ConnectPhase::Done => false,
    }
}

/// One transition of a connection attempt: from request `req` in `phase`,
/// on `event`, to request `req2` in `phase2`, handing out `action`. A working
/// connection at any check ends the attempt successfully; a failed inventory
/// ends it with that error; a failed last check retries once (see
/// `may_retry`) or ends it with `NotConnected`.
pub open spec fn steps_to(
    req: ConnectRequest,
    phase: ConnectPhase,
    event: ConnectEvent,
    req2: ConnectRequest,
    phase2: ConnectPhase,
    action: ConnectAction,
) -> bool {
    match phase {
        ConnectPhase::InitialCheck => match event {
            ConnectEvent::ConnectionChecked(ok) => req2 == req && if ok {
                finishes(phase2, action, Ok(()))
            } else {
                phase2 == ConnectPhase::Gathering && action == ConnectAction::GatherInventory
            },
            _ => false,
        },
        ConnectPhase::Gathering => match event {
            ConnectEvent::InventoryGathered(inv) => req2 == req && advances(
                connect_plan(req, inv),
                0,
                phase2,
                action,
            ),
            ConnectEvent::InventoryFailed(msg) => req2 == req && finishes(
                phase2,
                action,
                Err(ConnectError::Inventory(msg)),
            ),
            _ => false,
        },
        ConnectPhase::Running(plan, pos) => match plan@[pos as int] {
            ConnectStep::Run(_) => req2 == req && advances(plan@, pos + 1, phase2, action),
            ConnectStep::CheckConnection => match event {
                ConnectEvent::ConnectionChecked(ok) => req2 == req && if ok {
                    finishes(phase2, action, Ok(()))
                } else {
                    advances(plan@, pos + 1, phase2, action)
                },
                _ => false,
            },
        },
        ConnectPhase::FinalCheck => match event {
            ConnectEvent::ConnectionChecked(ok) => if ok {
                req2 == req && finishes(phase2, action, Ok(()))
            } else if may_retry(req) {
                req2 == retry_request(req) && starts(req2, phase2, action)
            } else {
                req2 == req && finishes(phase2, action, Err(ConnectError::NotConnected))
            },
            _ => false,
        },
        ConnectPhase::Done => false,
    }
}

/// A connection attempt in progress.
pub struct ConnectSession {
    request: ConnectRequest,
    phase: ConnectPhase,
}

/// Whether some stored profile is for the interface `name`.
fn profile_exists(profiles: &Vec<NetworkConnectionProfile>, name: &String) -> (r: bool)
    ensures
        r == has_profile(profiles@, name@),
{
    let mut i: usize = 0;
    while i < profiles.len()
        invariant
            i <= profiles@.len(),
            forall|j: int| 0 <= j < i ==> #[trigger] profiles@[j].interface@ != name@,
        decreases profiles@.len() - i,
    {
        if same_text(profiles[i].interface.as_str(), name.as_str()) {
            return true;
        }
        i = i + 1;
    }
    false
}

/// Whether some scanned Wi-Fi network is shown as active.
fn any_wifi_connected(wifi: &Vec<WifiNetwork>, listing: &String) -> (r: bool)
    ensures
        r == wifi_connected(wifi@, listing@),
{
    let mut i: usize = 0;
    while i < wifi.len()
        invariant
            i <= wifi@.len(),
            forall|j: int|
                0 <= j < i ==> !#[trigger] listing_shows_ssid_active(listing@, wifi@[j].ssid@),
        decreases wifi@.len() - i,
    {
        if is_ssid_connected(listing.as_str(), wifi[i].ssid.as_str()) {
            return true;
        }
        i = i + 1;
    }
    false
}

/// Whether an optional request field names something else than `name`.
fn names_other(wanted: &Option<String>, name: &String) -> (r: bool)
    ensures
        r == (wanted is Some && name@ != wanted->0@),
{
    match wanted {
        Some(w) => !same_text(name.as_str(), w.as_str()),
        None => false,
    }
}

/// Appends the steps for one interface to `plan`.
fn push_interface_plan(
    plan: &mut Vec<ConnectStep>,
    req: &ConnectRequest,
    iface: &NetworkInterface,
    profiles: &Vec<NetworkConnectionProfile>,
    wifi_on: bool,
)
    ensures
        final(plan)@ == old(plan)@ + interface_plan(*req, *iface, profiles@, wifi_on),
{
    let ghost start = plan@;
    let ghost cmds = interface_commands(*req, *iface, profiles@, wifi_on);
    if !profile_exists(profiles, &iface.name) {
        assert(plan@ =~= start + interface_plan(*req, *iface, profiles@, wifi_on));
        return;
    }
    if names_other(&req.interface, &iface.name) {
        assert(plan@ =~= start + interface_plan(*req, *iface, profiles@, wifi_on));
        return;
    }
    match iface.network_type {
        None => {},
        Some(kind) => {
            let connected = match iface.is_connected {
                Some(c) => c,
                None => false,
            };
            if connected && req.disconnect_before.is_none() {
                assert(plan@ =~= start + interface_plan(*req, *iface, profiles@, wifi_on));
                return;
            }
            match kind {
                NetworkType::Wifi => {
                    if wifi_on && req.disconnect_before.is_none() {
                        assert(plan@ =~= start + interface_plan(*req, *iface, profiles@, wifi_on));
                        return;
                    }
                },
                _ => {},
            }
            if connected {
                plan.push(ConnectStep::Run(NmcliCommand::Disconnect(iface.name.clone())));
            }
            match kind {
                NetworkType::Wifi => {
                    plan.push(ConnectStep::Run(NmcliCommand::WifiConnect(iface.name.clone())));
                },
                NetworkType::Ethernet => {
                    plan.push(ConnectStep::Run(NmcliCommand::Connect(iface.name.clone())));
                },
                NetworkType::Cellular => {
                    plan.push(ConnectStep::Run(NmcliCommand::Connect(iface.name.clone())));
                },
                NetworkType::Bluetooth => {},
            }
        },
    }
    if req.multiple.is_none() {
        plan.push(ConnectStep::CheckConnection);
    }
    assert(plan@ =~= start + interface_plan(*req, *iface, profiles@, wifi_on));
}

/// The plan of an attempt for the gathered inventory.
fn build_plan(req: &ConnectRequest, inv: &ConnectInventory) -> (r: Vec<ConnectStep>)
    ensures
        r@ == connect_plan(*req, *inv),
{
    let wifi_on = any_wifi_connected(&inv.wifi_networks, &inv.active_listing);
    let mut plan: Vec<ConnectStep> = Vec::new();
    let mut i: usize = 0;
    while i < inv.interfaces.len()
        invariant
            i <= inv.interfaces@.len(),
            wifi_on == wifi_connected(inv.wifi_networks@, inv.active_listing@),
            plan@ == plan_for(*req, inv.interfaces@.take(i as int), inv.profiles@, wifi_on),
        decreases inv.interfaces@.len() - i,
    {
        proof {
            assert(inv.interfaces@.take(i + 1).drop_last() =~= inv.interfaces@.take(i as int));
            assert(inv.interfaces@.take(i + 1).last() == inv.interfaces@[i as int]);
        }
        push_interface_plan(&mut plan, req, &inv.interfaces[i], &inv.profiles, wifi_on);
        i = i + 1;
    }
    assert(inv.interfaces@.take(inv.interfaces@.len() as int) =~= inv.interfaces@);
    plan
}

/// The action for a step of the plan.
fn action_for(step: &ConnectStep) -> (r: ConnectAction)
    ensures
        r == step_action(*step),
{
    match step {
        ConnectStep::Run(c) => ConnectAction::Run(c.duplicate()),
        ConnectStep::CheckConnection => ConnectAction::CheckConnection,
    }
}

/// Moves to step `p` of `plan` (see `advances`).
fn advance(plan: Vec<ConnectStep>, p: usize) -> (r: (ConnectPhase, ConnectAction))
    requires
        p <= plan@.len(),
    ensures
        advances(plan@, p as int, r.0, r.1),
{
    if p < plan.len() {
        let action = action_for(&plan[p]);
        (ConnectPhase::Running(plan, p), action)
    } else {
        (ConnectPhase::FinalCheck, ConnectAction::CheckConnection)
    }
}

/// How an attempt with this request starts (see `starts`).
fn start(req: &ConnectRequest) -> (r: (ConnectPhase, ConnectAction))
    ensures
        starts(*req, r.0, r.1),
{
    if req.multiple.is_none() {
        (ConnectPhase::InitialCheck, ConnectAction::CheckConnection)
    } else {
        (ConnectPhase::Gathering, ConnectAction::GatherInventory)
    }
}

/// Starts a connection attempt: the session, and the first action.
pub fn connect(request: ConnectRequest) -> (r: (ConnectSession, ConnectAction))
    ensures
        r.0.request() == request,
        starts(request, r.0.phase(), r.1),
{
    let (phase, action) = start(&request);
    (ConnectSession { request, phase }, action)
}

impl ConnectSession {
    /// The request the attempt is carrying out.
    pub closed spec fn request(&self) -> ConnectRequest {
        self.request
    }

    /// Where the attempt stands.
    pub closed spec fn phase(&self) -> ConnectPhase {
        self.phase
    }

    /// Whether the session waits for this kind of event.
    pub fn accepts(&self, event: &ConnectEvent) -> (r: bool)
        ensures
            r == accepts_event(self.phase(), *event),
    {
        match &self.phase {
            ConnectPhase::InitialCheck => matches!(event, ConnectEvent::ConnectionChecked(_)),
            ConnectPhase::Gathering => matches!(
                event,
                ConnectEvent::InventoryGathered(_) | ConnectEvent::InventoryFailed(_)
            ),
            ConnectPhase::Running(plan, pos) => {
                if *pos >= plan.len() {
                    false
                } else {
                    match &plan[*pos] {
                        ConnectStep::Run(_) => matches!(event, ConnectEvent::CommandDone),
                        ConnectStep::CheckConnection => matches!(
                            event,
                            ConnectEvent::ConnectionChecked(_)
                        ),
                    }
                }
            },
            ConnectPhase::FinalCheck => matches!(event, ConnectEvent::ConnectionChecked(_)),
            ConnectPhase::Done => false,
        }
    }

    /// Takes in what happened and hands out the next action (see `steps_to`).
    pub fn on_event(&mut self, event: ConnectEvent) -> (action: ConnectAction)
        requires
            accepts_event(old(self).phase(), event),
        ensures
            steps_to(
                old(self).request(),
                old(self).phase(),
                event,
                final(self).request(),
                final(self).phase(),
                action,
            ),
    {
        let mut phase = ConnectPhase::Done;
        core::mem::swap(&mut phase, &mut self.phase);
        match phase {
            ConnectPhase::InitialCheck => match event {
                ConnectEvent::ConnectionChecked(ok) => {
                    if ok {
                        ConnectAction::Finished(Ok(()))
                    } else {
                        self.phase = ConnectPhase::Gathering;
                        ConnectAction::GatherInventory
                    }
                },
                _ => {
                    // not accepted in this phase
                    assert(false);
                    ConnectAction::Finished(Ok(()))
                },
            },
            ConnectPhase::Gathering => match event {
                ConnectEvent::InventoryGathered(inv) => {
                    let plan = build_plan(&self.request, &inv);
                    let (next, action) = advance(plan, 0);
                    self.phase = next;
                    action
                },
                ConnectEvent::InventoryFailed(msg) => {
                    ConnectAction::Finished(Err(ConnectError::Inventory(msg)))
                },
                _ => {
                    // not accepted in this phase
                    assert(false);
                    ConnectAction::Finished(Ok(()))
                },
            },
            ConnectPhase::Running(plan, pos) => {
                let n: usize = plan.len();
                assert(pos < n);
                let is_check = match &plan[pos] {
                    ConnectStep::Run(_) => false,
                    ConnectStep::CheckConnection => true,
                };
                if is_check {
                    match event {
                        ConnectEvent::ConnectionChecked(ok) => {
                            if ok {
                                return ConnectAction::Finished(Ok(()));
                            }
                        },
                        _ => {
                            // not accepted in this phase
                            assert(false);
                            return ConnectAction::Finished(Ok(()));
                        },
                    }
                }
                let (next, action) = advance(plan, pos + 1);
                self.phase = next;
                action
            },
            ConnectPhase::FinalCheck => match event {
                ConnectEvent::ConnectionChecked(ok) => {
                    if ok {
                        ConnectAction::Finished(Ok(()))
                    } else if self.request.interface.is_none()
                        && self.request.disconnect_before.is_none()
                        && self.request.wifi_password.is_none()
                        && self.request.apn_name.is_none() {
                        self.request = ConnectRequest {
                            disconnect_before: Some(true),
                            multiple: self.request.multiple,
                            interface: None,
                            wifi_password: None,
                            apn_name: None,
                        };
                        let (next, action) = start(&self.request);
                        self.phase = next;
                        action
                    } else {
                        ConnectAction::Finished(Err(ConnectError::NotConnected))
                    }
                },
                _ => {
                    // not accepted in this phase
                    assert(false);
                    ConnectAction::Finished(Ok(()))
                },
            },
            ConnectPhase::Done => {
                // not accepted in this phase
                assert(false);
                ConnectAction::Finished(Ok(()))
            },
        }
    }
}

/// What every step of a plan respects: a command acts on an interface of
/// the inventory that has a stored profile (the requested one, when one is
/// named); nothing is disconnected unless asked; and when every interface is
/// to be brought up there is no intermediate connection check.
pub open spec fn step_respects_request(
    req: ConnectRequest,
    ifaces: Seq<NetworkInterface>,
    profiles: Seq<NetworkConnectionProfile>,
    step: ConnectStep,
) -> bool {
    match step {
        ConnectStep::Run(c) => {
            &&& has_profile(profiles, c.target()@)
            &&& exists|j: int| 0 <= j < ifaces.len() && #[trigger] ifaces[j].name == c.target()
            &&& req.interface is Some ==> c.target()@ == req.interface->0@
            &&& req.disconnect_before is None ==> !(c is Disconnect)
        },
        ConnectStep::CheckConnection => req.multiple is None,
    }
}

/// The steps planned for one interface respect the request.
proof fn lemma_interface_plan_respects(
    req: ConnectRequest,
    ifaces: Seq<NetworkInterface>,
    j: int,
    profiles: Seq<NetworkConnectionProfile>,
    wifi_on: bool,
)
    requires
        0 <= j < ifaces.len(),
    ensures
        forall|k: int|
            0 <= k < interface_plan(req, ifaces[j], profiles, wifi_on).len()
                ==> step_respects_request(
                req,
                ifaces,
                profiles,
                #[trigger] interface_plan(req, ifaces[j], profiles, wifi_on)[k],
            ),
{
    let iface = ifaces[j];
    let ip = interface_plan(req, iface, profiles, wifi_on);
    match interface_commands(req, iface, profiles, wifi_on) {
        None => {},
        Some(cmds) => {
            assert forall|k: int| 0 <= k < ip.len() implies step_respects_request(
                req,
                ifaces,
                profiles,
                #[trigger] ip[k],
            ) by {
                if k < cmds.len() {
                    let c = cmds[k];
                    assert(ip[k] == ConnectStep::Run(c));
                    assert(c.target() == iface.name);
                    assert(ifaces[j].name == c.target());
                }
            }
        },
    }
}

/// Every step of the plan for an inventory respects the request (see
/// `step_respects_request`): commands only touch profiled interfaces of the
/// inventory, the requested one when named; disconnecting happens only when
/// asked; bringing up every interface plans no intermediate check.
pub proof fn lemma_plan_respects_request(
    req: ConnectRequest,
    ifaces: Seq<NetworkInterface>,
    profiles: Seq<NetworkConnectionProfile>,
    wifi_on: bool,
)
    ensures
        forall|k: int|
            0 <= k < plan_for(req, ifaces, profiles, wifi_on).len() ==> step_respects_request(
                req,
                ifaces,
                profiles,
                #[trigger] plan_for(req, ifaces, profiles, wifi_on)[k],
            ),
    decreases ifaces.len(),
{
    if ifaces.len() > 0 {
        let front = ifaces.drop_last();
        let j: int = ifaces.len() - 1;
        lemma_plan_respects_request(req, front, profiles, wifi_on);
        lemma_interface_plan_respects(req, ifaces, j, profiles, wifi_on);
        let head = plan_for(req, front, profiles, wifi_on);
        let tail = interface_plan(req, ifaces[j], profiles, wifi_on);
        let plan = plan_for(req, ifaces, profiles, wifi_on);
        assert(plan == head + tail);
        assert forall|k: int| 0 <= k < plan.len() implies step_respects_request(
            req,
            ifaces,
            profiles,
            #[trigger] plan[k],
        ) by {
            if k < head.len() {
                assert(plan[k] == head[k]);
                assert(step_respects_request(req, front, profiles, head[k]));
                if let ConnectStep::Run(c) = head[k] {
                    let i = choose|i: int| 0 <= i < front.len() && #[trigger] front[i].name == c.target();
                    assert(ifaces[i] == front[i]);
                }
            } else {
                assert(plan[k] == tail[k - head.len()]);
            }
        }
    }
}

/// The second attempt is the last one: its request never allows a retry.
pub proof fn lemma_retry_happens_once(req: ConnectRequest)
    ensures
        !may_retry(retry_request(req)),
{
}

/// A host that is already connected is left alone: unless every interface
/// is to be brought up, an attempt first checks the connection, and a
/// working connection ends it successfully at once.
pub proof fn lemma_connected_host_left_alone(
    req: ConnectRequest,
    phase: ConnectPhase,
    action: ConnectAction,
    req2: ConnectRequest,
    phase2: ConnectPhase,
    action2: ConnectAction,
)
    requires
        req.multiple is None,
        starts(req, phase, action),
        steps_to(req, phase, ConnectEvent::ConnectionChecked(true), req2, phase2, action2),
    ensures
        action == ConnectAction::CheckConnection,
        action2 == ConnectAction::Finished(Ok(())),
        phase2 == ConnectPhase::Done,
{
}

/// Bringing up every interface skips the first check and starts with the
/// inventory.
pub proof fn lemma_multiple_gathers_first(
    req: ConnectRequest,
    phase: ConnectPhase,
    action: ConnectAction,
)
    requires
        req.multiple is Some,
        starts(req, phase, action),
    ensures
        action == ConnectAction::GatherInventory,
{
}

/// A finished attempt takes no more events.
pub proof fn lemma_done_is_final(event: ConnectEvent)
    ensures
        !accepts_event(ConnectPhase::Done, event),
{
}

/// Two requests that differ at most in the contents of the Wi-Fi password
/// and the APN name (each is given in both or in neither).
pub open spec fn same_but_secrets(r1: ConnectRequest, r2: ConnectRequest) -> bool {
    &&& r1.disconnect_before == r2.disconnect_before
    &&& r1.multiple == r2.multiple
    &&& r1.interface == r2.interface
    &&& (r1.wifi_password is Some <==> r2.wifi_password is Some)
    &&& (r1.apn_name is Some <==> r2.apn_name is Some)
}

/// The contents of the password and the APN name do not change a plan.
proof fn lemma_plan_ignores_secrets(
    r1: ConnectRequest,
    r2: ConnectRequest,
    ifaces: Seq<NetworkInterface>,
    profiles: Seq<NetworkConnectionProfile>,
    wifi_on: bool,
)
    requires
        same_but_secrets(r1, r2),
    ensures
        plan_for(r1, ifaces, profiles, wifi_on) == plan_for(r2, ifaces, profiles, wifi_on),
    decreases ifaces.len(),
{
    if ifaces.len() > 0 {
        lemma_plan_ignores_secrets(r1, r2, ifaces.drop_last(), profiles, wifi_on);
        assert(interface_commands(r1, ifaces.last(), profiles, wifi_on) == interface_commands(
            r2,
            ifaces.last(),
            profiles,
            wifi_on,
        ));
    }
}

/// The contents of the Wi-Fi password and of the APN name never reach a
/// command, an action or the outcome: only whether they are given counts.
/// From the same phase and event, two such requests make the same move and
/// hand out the same action, and remain such requests (the second attempt's
/// request is the same for both).
pub proof fn lemma_secrets_never_used(
    r1: ConnectRequest,
    r2: ConnectRequest,
    phase: ConnectPhase,
    event: ConnectEvent,
    q1: ConnectRequest,
    phase2: ConnectPhase,
    action: ConnectAction,
)
    requires
        same_but_secrets(r1, r2),
        steps_to(r1, phase, event, q1, phase2, action),
    ensures
        steps_to(r2, phase, event, if q1 == r1 { r2 } else { q1 }, phase2, action),
        same_but_secrets(q1, if q1 == r1 { r2 } else { q1 }),
{
    if let ConnectEvent::InventoryGathered(inv) = event {
        lemma_plan_ignores_secrets(
            r1,
            r2,
            inv.interfaces@,
            inv.profiles@,
            wifi_connected(inv.wifi_networks@, inv.active_listing@),
        );
    }
    if q1 != r1 {
        assert(retry_request(r1) == retry_request(r2));
    }
}

/// The contents of the password and the APN name do not change how an
/// attempt starts.
pub proof fn lemma_start_ignores_secrets(
    r1: ConnectRequest,
    r2: ConnectRequest,
    phase: ConnectPhase,
    action: ConnectAction,
)
    requires
        same_but_secrets(r1, r2),
    ensures
        starts(r1, phase, action) == starts(r2, phase, action),
{
}

/// Whether a Wi-Fi network is connected matters only for Wi-Fi interfaces:
/// every other interface gets the same commands either way.
pub proof fn lemma_wifi_state_only_affects_wifi(
    req: ConnectRequest,
    iface: NetworkInterface,
    profiles: Seq<NetworkConnectionProfile>,
)
    requires
        iface.network_type != Some(NetworkType::Wifi),
    ensures
        interface_commands(req, iface, profiles, true) == interface_commands(
            req,
            iface,
            profiles,
            false,
        ),
{
}

/// A profiled Ethernet or cellular interface that is not connected, and is
/// the requested one or no interface is requested, is connected with `nmcli
/// dev connect <name>` and nothing else, whatever the other settings and
/// whether a Wi-Fi network is connected.
pub proof fn lemma_wired_interface_is_brought_up(
    req: ConnectRequest,
    iface: NetworkInterface,
    profiles: Seq<NetworkConnectionProfile>,
    wifi_on: bool,
)
    requires
        exists|i: int| 0 <= i < profiles.len() && #[trigger] profiles[i].interface@ == iface.name@,
        req.interface is None || req.interface->0@ == iface.name@,
        iface.is_connected != Some(true),
        iface.network_type == Some(NetworkType::Ethernet) || iface.network_type == Some(
            NetworkType::Cellular,
        ),
    ensures
        interface_commands(req, iface, profiles, wifi_on) == Some(
            seq![NmcliCommand::Connect(iface.name)],
        ),
{
    assert(Seq::<NmcliCommand>::empty().push(NmcliCommand::Connect(iface.name)) =~= seq![
        NmcliCommand::Connect(iface.name),
    ]);
}

/// A profiled Wi-Fi interface that is not connected is connected with `nmcli
/// dev wifi connect <name>` unless a Wi-Fi network is already connected and
/// nothing asks to disconnect first; then it is passed over.
pub proof fn lemma_wifi_interface_is_brought_up(
    req: ConnectRequest,
    iface: NetworkInterface,
    profiles: Seq<NetworkConnectionProfile>,
    wifi_on: bool,
)
    requires
        exists|i: int| 0 <= i < profiles.len() && #[trigger] profiles[i].interface@ == iface.name@,
        req.interface is None || req.interface->0@ == iface.name@,
        iface.is_connected != Some(true),
        iface.network_type == Some(NetworkType::Wifi),
    ensures
        interface_commands(req, iface, profiles, wifi_on) == if wifi_on
            && req.disconnect_before is None {
            None
        } else {
            Some(seq![NmcliCommand::WifiConnect(iface.name)])
        },
{
    assert(Seq::<NmcliCommand>::empty().push(NmcliCommand::WifiConnect(iface.name)) =~= seq![
        NmcliCommand::WifiConnect(iface.name),
    ]);
}

/// A connected interface is disconnected first, and only when asked: with
/// `disconnect_before` given, a profiled, connected Ethernet or cellular
/// interface (the requested one, or none requested) gets exactly
/// `dev disconnect <name>` then `dev connect <name>`; without it, nothing.
pub proof fn lemma_connected_interface_reconnected_only_when_asked(
    req: ConnectRequest,
    iface: NetworkInterface,
    profiles: Seq<NetworkConnectionProfile>,
    wifi_on: bool,
)
    requires
        exists|i: int| 0 <= i < profiles.len() && #[trigger] profiles[i].interface@ == iface.name@,
        req.interface is None || req.interface->0@ == iface.name@,
        iface.is_connected == Some(true),
        iface.network_type == Some(NetworkType::Ethernet) || iface.network_type == Some(
            NetworkType::Cellular,
        ),
    ensures
        interface_commands(req, iface, profiles, wifi_on) == if req.disconnect_before is None {
            None
        } else {
            Some(seq![NmcliCommand::Disconnect(iface.name), NmcliCommand::Connect(iface.name)])
        },
{
    assert(seq![NmcliCommand::Disconnect(iface.name)].push(NmcliCommand::Connect(iface.name))
        =~= seq![NmcliCommand::Disconnect(iface.name), NmcliCommand::Connect(iface.name)]);
}

/// An interface without a stored profile, or other than the requested one,
/// gets no step at all.
pub proof fn lemma_unprofiled_or_unrequested_untouched(
    req: ConnectRequest,
    iface: NetworkInterface,
    profiles: Seq<NetworkConnectionProfile>,
    wifi_on: bool,
)
    requires
        (forall|i: int| 0 <= i < profiles.len() ==> #[trigger] profiles[i].interface@ != iface.name@)
            || (req.interface is Some && req.interface->0@ != iface.name@),
    ensures
        interface_plan(req, iface, profiles, wifi_on) == Seq::<ConnectStep>::empty(),
{
}

/// The second attempt keeps whether every interface is brought up, asks to
/// disconnect first, and names no interface, password or APN.
pub proof fn lemma_retry_request_fields(req: ConnectRequest)
    ensures
        retry_request(req).multiple == req.multiple,
        retry_request(req).disconnect_before == Some(true),
        retry_request(req).interface is None,
        retry_request(req).wifi_password is None,
        retry_request(req).apn_name is None,
{
}

/// A failed last check of a first attempt that names no interface, password
/// or APN and does not disconnect first starts a second attempt the same
/// way the first one started (check first, or gather first when every
/// interface is brought up), now disconnecting first.
pub proof fn lemma_retry_starts_like_first_attempt(
    req: ConnectRequest,
    q: ConnectRequest,
    phase2: ConnectPhase,
    action: ConnectAction,
)
    requires
        req.interface is None,
        req.disconnect_before is None,
        req.wifi_password is None,
        req.apn_name is None,
        steps_to(req, ConnectPhase::FinalCheck, ConnectEvent::ConnectionChecked(false), q, phase2, action),
    ensures
        q.multiple == req.multiple,
        q.disconnect_before == Some(true),
        action == if req.multiple is None {
            ConnectAction::CheckConnection
        } else {
            ConnectAction::GatherInventory
        },
{
}

/// A failed last check ends the attempt with `NotConnected` whenever an
/// interface, password or APN was named or disconnecting first was asked.
pub proof fn lemma_no_retry_when_constrained(
    req: ConnectRequest,
    q: ConnectRequest,
    phase2: ConnectPhase,
    action: ConnectAction,
)
    requires
        req.interface is Some || req.disconnect_before is Some || req.wifi_password is Some
            || req.apn_name is Some,
        steps_to(req, ConnectPhase::FinalCheck, ConnectEvent::ConnectionChecked(false), q, phase2, action),
    ensures
        action == ConnectAction::Finished(Err(ConnectError::NotConnected)),
        phase2 == ConnectPhase::Done,
{
}

/// A working connection at any check ends the attempt successfully.
pub proof fn lemma_working_check_finishes(
    req: ConnectRequest,
    phase: ConnectPhase,
    q: ConnectRequest,
    phase2: ConnectPhase,
    action: ConnectAction,
)
    requires
        accepts_event(phase, ConnectEvent::ConnectionChecked(true)),
        steps_to(req, phase, ConnectEvent::ConnectionChecked(true), q, phase2, action),
    ensures
        action == ConnectAction::Finished(Ok(())),
        phase2 == ConnectPhase::Done,
{
}

/// A failed inventory ends the attempt with its message.
pub proof fn lemma_failed_inventory_finishes(
    req: ConnectRequest,
    msg: String,
    q: ConnectRequest,
    phase2: ConnectPhase,
    action: ConnectAction,
)
    requires
        steps_to(req, ConnectPhase::Gathering, ConnectEvent::InventoryFailed(msg), q, phase2, action),
    ensures
        action == ConnectAction::Finished(Err(ConnectError::Inventory(msg))),
        phase2 == ConnectPhase::Done,
{
}

/// A Bluetooth interface is never connected by `nmcli`: profiled and named
/// (or none named), it gets no command when not connected, and only
/// `dev disconnect <name>` when connected and asked to disconnect first.
pub proof fn lemma_bluetooth_never_connected(
    req: ConnectRequest,
    iface: NetworkInterface,
    profiles: Seq<NetworkConnectionProfile>,
    wifi_on: bool,
)
    requires
        exists|i: int| 0 <= i < profiles.len() && #[trigger] profiles[i].interface@ == iface.name@,
        req.interface is None || req.interface->0@ == iface.name@,
        iface.network_type == Some(NetworkType::Bluetooth),
    ensures
        interface_commands(req, iface, profiles, wifi_on) == if iface.is_connected != Some(true) {
            Some(Seq::<NmcliCommand>::empty())
        } else if req.disconnect_before is None {
            None
        } else {
            Some(seq![NmcliCommand::Disconnect(iface.name)])
        },
{
}

/// A profiled interface of unknown kind (named, or none named) gets no
/// command but is not passed over: it is followed by a connection check
/// unless every interface is brought up.
pub proof fn lemma_unknown_kind_only_checked(
    req: ConnectRequest,
    iface: NetworkInterface,
    profiles: Seq<NetworkConnectionProfile>,
    wifi_on: bool,
)
    requires
        exists|i: int| 0 <= i < profiles.len() && #[trigger] profiles[i].interface@ == iface.name@,
        req.interface is None || req.interface->0@ == iface.name@,
        iface.network_type is None,
    ensures
        interface_plan(req, iface, profiles, wifi_on) == if req.multiple is None {
            seq![ConnectStep::CheckConnection]
        } else {
            Seq::<ConnectStep>::empty()
        },
{
    assert(Seq::<NmcliCommand>::empty().map_values(|c: NmcliCommand| ConnectStep::Run(c))
        =~= Seq::<ConnectStep>::empty());
    if req.multiple is None {
        assert(Seq::<ConnectStep>::empty() + seq![ConnectStep::CheckConnection] =~= seq![
            ConnectStep::CheckConnection,
        ]);
    } else {
        assert(Seq::<ConnectStep>::empty() + Seq::<ConnectStep>::empty() =~= Seq::<
            ConnectStep,
        >::empty());
    }
}

/// The steps for an interface that is not passed over are its commands, in
/// order, followed by one connection check exactly when the attempt stops at
/// the first working connection; the check is the only step that is not a
/// command.
pub proof fn lemma_interface_steps_shape(
    req: ConnectRequest,
    iface: NetworkInterface,
    profiles: Seq<NetworkConnectionProfile>,
    wifi_on: bool,
)
    requires
        interface_commands(req, iface, profiles, wifi_on) is Some,
    ensures
        ({
            let cmds = interface_commands(req, iface, profiles, wifi_on)->0;
            let ip = interface_plan(req, iface, profiles, wifi_on);
            &&& ip.len() == cmds.len() + if req.multiple is None {
                1int
            } else {
                0int
            }
            &&& forall|k: int| 0 <= k < cmds.len() ==> #[trigger] ip[k] == ConnectStep::Run(cmds[k])
            &&& req.multiple is None ==> ip[ip.len() - 1] == ConnectStep::CheckConnection
        }),
{
}

/// The plan for interfaces `a` followed by `b` is the plan for `a` followed
/// by the plan for `b`: interfaces are brought up in the order given.
pub proof fn lemma_plan_concat(
    req: ConnectRequest,
    a: Seq<NetworkInterface>,
    b: Seq<NetworkInterface>,
    profiles: Seq<NetworkConnectionProfile>,
    wifi_on: bool,
)
    ensures
        plan_for(req, a + b, profiles, wifi_on) == plan_for(req, a, profiles, wifi_on) + plan_for(
            req,
            b,
            profiles,
            wifi_on,
        ),
    decreases b.len(),
{
    if b.len() == 0 {
        assert(a + b =~= a);
        assert(plan_for(req, a, profiles, wifi_on) + Seq::<ConnectStep>::empty() =~= plan_for(
            req,
            a,
            profiles,
            wifi_on,
        ));
    } else {
        lemma_plan_concat(req, a, b.drop_last(), profiles, wifi_on);
        assert((a + b).drop_last() =~= a + b.drop_last());
        assert((a + b).last() == b.last());
        assert(plan_for(req, a, profiles, wifi_on) + plan_for(req, b.drop_last(), profiles, wifi_on)
            + interface_plan(req, b.last(), profiles, wifi_on) =~= plan_for(
            req,
            a,
            profiles,
            wifi_on,
        ) + (plan_for(req, b.drop_last(), profiles, wifi_on) + interface_plan(
            req,
            b.last(),
            profiles,
            wifi_on,
        )));
    }
}

/// The steps of each interface form one block of the plan, at the place of
/// the interface among the others.
pub proof fn lemma_interface_block_in_plan(
    req: ConnectRequest,
    ifaces: Seq<NetworkInterface>,
    j: int,
    profiles: Seq<NetworkConnectionProfile>,
    wifi_on: bool,
)
    requires
        0 <= j < ifaces.len(),
    ensures
        plan_for(req, ifaces, profiles, wifi_on) == plan_for(
            req,
            ifaces.take(j),
            profiles,
            wifi_on,
        ) + interface_plan(req, ifaces[j], profiles, wifi_on) + plan_for(
            req,
            ifaces.skip(j + 1),
            profiles,
            wifi_on,
        ),
{
    let a = ifaces.take(j + 1);
    let b = ifaces.skip(j + 1);
    assert(ifaces =~= a + b);
    lemma_plan_concat(req, a, b, profiles, wifi_on);
    assert(a.drop_last() =~= ifaces.take(j));
    assert(a.last() == ifaces[j]);
}

/// A Wi-Fi network counts as connected exactly when some scanned network is
/// shown as active by the listing.
pub proof fn lemma_wifi_connected_exactly(wifi: Seq<WifiNetwork>, listing: Seq<char>)
    ensures
        wifi_connected(wifi, listing) <==> exists|i: int|
            0 <= i < wifi.len() && listing_shows_ssid_active(listing, #[trigger] wifi[i].ssid@),
{
}

/// After the first check fails, the inventory is gathered; after the
/// inventory, the first step of the plan is handed out (the last check when
/// the plan is empty); after a command or a failed intermediate check, the
/// next step (the last check after the last step).
pub proof fn lemma_attempt_moves_on(
    req: ConnectRequest,
    phase: ConnectPhase,
    event: ConnectEvent,
    q: ConnectRequest,
    phase2: ConnectPhase,
    action: ConnectAction,
)
    requires
        accepts_event(phase, event),
        steps_to(req, phase, event, q, phase2, action),
    ensures
        phase == ConnectPhase::InitialCheck && event == ConnectEvent::ConnectionChecked(false)
            ==> action == ConnectAction::GatherInventory,
        event matches ConnectEvent::InventoryGathered(inv) ==> (if connect_plan(req, inv).len()
            > 0 {
            action == step_action(connect_plan(req, inv)[0])
        } else {
            action == ConnectAction::CheckConnection && phase2 == ConnectPhase::FinalCheck
        }),
        phase matches ConnectPhase::Running(plan, pos) ==> ((event == ConnectEvent::CommandDone
            || event == ConnectEvent::ConnectionChecked(false)) ==> (if pos + 1 < plan@.len() {
            action == step_action(plan@[pos + 1])
        } else {
            action == ConnectAction::CheckConnection && phase2 == ConnectPhase::FinalCheck
        })),
        q == req || (phase == ConnectPhase::FinalCheck && q == retry_request(req)),
{
}

} // verus!