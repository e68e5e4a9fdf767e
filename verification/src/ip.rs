//! The `ip` capabilities: routes, addresses and links of the host, as
//! `iproute2` reports them.

use vstd::prelude::*;
use vstd::string::*;
use crate::json::{
    list_member, list_records, number_member, optional_bool_member, optional_number_member,
    optional_text_member, read_document, read_list, read_number, read_optional_bool,
    read_optional_number, read_optional_text, read_records, read_text, read_text_list,
    record_document, text_list_member, text_member, Json, JsonRecord,
};
use crate::outcome::{
    command_output, field_outcome, outcome_of, CommandLine, CommandLineView, Execution,
    FieldOutcome,
};

verus! {

/// The adapter of the `ip` capabilities.
#[derive(Clone, Copy, Debug, PartialEq, Eq)]
pub struct Ip;

/// The adapter of `ip.route`.
#[derive(Clone, Copy, Debug, PartialEq, Eq)]
pub struct Route;

/// The adapter of `ip.address`.
#[derive(Clone, Copy, Debug, PartialEq, Eq)]
pub struct Address;

/// The adapter of `ip.link`.
#[derive(Clone, Copy, Debug, PartialEq, Eq)]
pub struct Link;

impl Ip {
    /// The adapter of `ip.route`.
    pub fn route(&self) -> Route {
        Route
    }

    /// The adapter of `ip.address`.
    pub fn address(&self) -> Address {
        Address
    }

    /// The adapter of `ip.link`.
    pub fn link(&self) -> Link {
        Link
    }
}

/// One route of the routing table.
#[derive(Clone, Debug, PartialEq, Eq)]
pub struct RouteEntry {
    pub dst: String,
    pub gateway: Option<String>,
    pub dev: String,
    pub protocol: Option<String>,
    pub prefsrc: String,
    pub metric: Option<u32>,
    pub flags: Vec<String>,
}

/// A [`RouteEntry`] as a plain value.
pub struct RouteEntryView {
    pub dst: Seq<char>,
    pub gateway: Option<Seq<char>>,
    pub dev: Seq<char>,
    pub protocol: Option<Seq<char>>,
    pub prefsrc: Seq<char>,
    pub metric: Option<u32>,
    pub flags: Seq<Seq<char>>,
}

impl DeepView for RouteEntry {
    type V = RouteEntryView;

    open spec fn deep_view(&self) -> RouteEntryView {
        RouteEntryView {
            dst: self.dst@,
            gateway: self.gateway.deep_view(),
            dev: self.dev@,
            protocol: self.protocol.deep_view(),
            prefsrc: self.prefsrc@,
            metric: self.metric,
            flags: self.flags.deep_view(),
        }
    }
}

/// A number that is known to fit, as a `u32`.
pub open spec fn narrow32(n: Option<u64>) -> Option<u32> {
    match n {
        Some(n) => Some(n as u32),
        None => None,
    }
}

/// A number that is known to fit, as a `u16`.
pub open spec fn narrow16(n: Option<u64>) -> Option<u16> {
    match n {
        Some(n) => Some(n as u16),
        None => None,
    }
}

impl JsonRecord for RouteEntry {
    /// A route is an object with the strings `dst`, `dev` and `prefsrc`, the
    /// list of strings `flags`, and, each of them optional, the strings
    /// `gateway` and `protocol` and the 32-bit number `metric`.
    open spec fn shape(json: Json) -> Option<RouteEntryView> {
        let dst = text_member(json, "dst"@);
        let gateway = optional_text_member(json, "gateway"@);
        let dev = text_member(json, "dev"@);
        let protocol = optional_text_member(json, "protocol"@);
        let prefsrc = text_member(json, "prefsrc"@);
        let metric = optional_number_member(json, "metric"@, u32::MAX as u64);
        let flags = text_list_member(json, "flags"@);
        if dst is Some && gateway is Some && dev is Some && protocol is Some && prefsrc is Some
            && metric is Some && flags is Some {
            Some(
                RouteEntryView {
                    dst: dst->0,
                    gateway: gateway->0,
                    dev: dev->0,
                    protocol: protocol->0,
                    prefsrc: prefsrc->0,
                    metric: narrow32(metric->0),
                    flags: flags->0,
                },
            )
        } else {
            None
        }
    }

    fn read(value: &serde_json::Value) -> (record: Option<RouteEntry>) {
        let dst = read_text(value, "dst")?;
        let gateway = read_optional_text(value, "gateway")?;
        let dev = read_text(value, "dev")?;
        let protocol = read_optional_text(value, "protocol")?;
        let prefsrc = read_text(value, "prefsrc")?;
        let metric = match read_optional_number(value, "metric", u32::MAX as u64)? {
            Some(n) => Some(n as u32),
            None => None,
        };
        let flags = read_text_list(value, "flags")?;
        Some(RouteEntry { dst, gateway, dev, protocol, prefsrc, metric, flags })
    }
}

/// One address of an interface.
#[derive(Clone, Debug, PartialEq, Eq)]
pub struct AddrInfo {
    pub family: String,
    pub local: String,
    pub prefixlen: u16,
    pub scope: String,
    pub label: Option<String>,
    pub noprefixrotue: Option<bool>,
    pub valid_life_time: u32,
    pub preferred_life_time: u32,
}

/// An [`AddrInfo`] as a plain value.
pub struct AddrInfoView {
    pub family: Seq<char>,
    pub local: Seq<char>,
    pub prefixlen: u16,
    pub scope: Seq<char>,
    pub label: Option<Seq<char>>,
    pub noprefixrotue: Option<bool>,
    pub valid_life_time: u32,
    pub preferred_life_time: u32,
}

impl DeepView for AddrInfo {
    type V = AddrInfoView;

    open spec fn deep_view(&self) -> AddrInfoView {
        AddrInfoView {
            family: self.family@,
            local: self.local@,
            prefixlen: self.prefixlen,
            scope: self.scope@,
            label: self.label.deep_view(),
            noprefixrotue: self.noprefixrotue,
            valid_life_time: self.valid_life_time,
            preferred_life_time: self.preferred_life_time,
        }
    }
}

impl JsonRecord for AddrInfo {
    /// An address is an object with the strings `family`, `local` and
    /// `scope`, the 16-bit number `prefixlen`, the 32-bit numbers
    /// `valid_life_time` and `preferred_life_time`, and, each of them
    /// optional, the string `label` and the boolean `noprefixrotue`.
    open spec fn shape(json: Json) -> Option<AddrInfoView> {
        let family = text_member(json, "family"@);
        let local = text_member(json, "local"@);
        let prefixlen = number_member(json, "prefixlen"@, u16::MAX as u64);
        let scope = text_member(json, "scope"@);
        let label = optional_text_member(json, "label"@);
        let noprefixrotue = optional_bool_member(json, "noprefixrotue"@);
        let valid_life_time = number_member(json, "valid_life_time"@, u32::MAX as u64);
        let preferred_life_time = number_member(json, "preferred_life_time"@, u32::MAX as u64);
        if family is Some && local is Some && prefixlen is Some && scope is Some && label is Some
            && noprefixrotue is Some && valid_life_time is Some && preferred_life_time is Some {
            Some(
                AddrInfoView {
                    family: family->0,
                    local: local->0,
                    prefixlen: prefixlen->0 as u16,
                    scope: scope->0,
                    label: label->0,
                    noprefixrotue: noprefixrotue->0,
                    valid_life_time: valid_life_time->0 as u32,
                    preferred_life_time: preferred_life_time->0 as u32,
                },
            )
        } else {
            None
        }
    }

    fn read(value: &serde_json::Value) -> (record: Option<AddrInfo>) {
        let family = read_text(value, "family")?;
        let local = read_text(value, "local")?;
        let prefixlen = read_number(value, "prefixlen", u16::MAX as u64)? as u16;
        let scope = read_text(value, "scope")?;
        let label = read_optional_text(value, "label")?;
        let noprefixrotue = read_optional_bool(value, "noprefixrotue")?;
        let valid_life_time = read_number(value, "valid_life_time", u32::MAX as u64)? as u32;
        let preferred_life_time = read_number(value, "preferred_life_time", u32::MAX as u64)? as u32;
        Some(
            AddrInfo {
                family,
                local,
                prefixlen,
                scope,
                label,
                noprefixrotue,
                valid_life_time,
                preferred_life_time,
            },
        )
    }
}

/// One interface, without its addresses.
#[derive(Clone, Debug, PartialEq, Eq)]
pub struct LinkInfo {
    pub ifindex: u32,
    pub ifname: String,
    pub flags: Vec<String>,
    pub mtu: u32,
    pub qdisc: String,
    pub operstate: String,
    pub group: String,
    pub txqlen: Option<u16>,
    pub link_type: String,
    pub address: String,
    pub broadcast: String,
}

/// A [`LinkInfo`] as a plain value.
pub struct LinkInfoView {
    pub ifindex: u32,
    pub ifname: Seq<char>,
    pub flags: Seq<Seq<char>>,
    pub mtu: u32,
    pub qdisc: Seq<char>,
    pub operstate: Seq<char>,
    pub group: Seq<char>,
    pub txqlen: Option<u16>,
    pub link_type: Seq<char>,
    pub address: Seq<char>,
    pub broadcast: Seq<char>,
}

impl DeepView for LinkInfo {
    type V = LinkInfoView;

    open spec fn deep_view(&self) -> LinkInfoView {
        LinkInfoView {
            ifindex: self.ifindex,
            ifname: self.ifname@,
            flags: self.flags.deep_view(),
            mtu: self.mtu,
            qdisc: self.qdisc@,
            operstate: self.operstate@,
            group: self.group@,
            txqlen: self.txqlen,
            link_type: self.link_type@,
            address: self.address@,
            broadcast: self.broadcast@,
        }
    }
}

impl JsonRecord for LinkInfo {
    /// An interface is an object with the 32-bit numbers `ifindex` and
    /// `mtu`, the list of strings `flags`, the strings `ifname`, `qdisc`,
    /// `operstate`, `group`, `link_type`, `address` and `broadcast`, and the
    /// optional 16-bit number `txqlen`.
    open spec fn shape(json: Json) -> Option<LinkInfoView> {
        let ifindex = number_member(json, "ifindex"@, u32::MAX as u64);
        let ifname = text_member(json, "ifname"@);
        let flags = text_list_member(json, "flags"@);
        let mtu = number_member(json, "mtu"@, u32::MAX as u64);
        let qdisc = text_member(json, "qdisc"@);
        let operstate = text_member(json, "operstate"@);
        let group = text_member(json, "group"@);
        let txqlen = optional_number_member(json, "txqlen"@, u16::MAX as u64);
        let link_type = text_member(json, "link_type"@);
        let address = text_member(json, "address"@);
        let broadcast = text_member(json, "broadcast"@);
        if ifindex is Some && ifname is Some && flags is Some && mtu is Some && qdisc is Some
            && operstate is Some && group is Some && txqlen is Some && link_type is Some
            && address is Some && broadcast is Some {
            Some(
                LinkInfoView {
                    ifindex: ifindex->0 as u32,
                    ifname: ifname->0,
                    flags: flags->0,
                    mtu: mtu->0 as u32,
                    qdisc: qdisc->0,
                    operstate: operstate->0,
                    group: group->0,
                    txqlen: narrow16(txqlen->0),
                    link_type: link_type->0,
                    address: address->0,
                    broadcast: broadcast->0,
                },
            )
        } else {
            None
        }
    }

    fn read(value: &serde_json::Value) -> (record: Option<LinkInfo>) {
        let ifindex = read_number(value, "ifindex", u32::MAX as u64)? as u32;
        let ifname = read_text(value, "ifname")?;
        let flags = read_text_list(value, "flags")?;
        let mtu = read_number(value, "mtu", u32::MAX as u64)? as u32;
        let qdisc = read_text(value, "qdisc")?;
        let operstate = read_text(value, "operstate")?;
        let group = read_text(value, "group")?;
        let txqlen = match read_optional_number(value, "txqlen", u16::MAX as u64)? {
            Some(n) => Some(n as u16),
            None => None,
        };
        let link_type = read_text(value, "link_type")?;
        let address = read_text(value, "address")?;
        let broadcast = read_text(value, "broadcast")?;
        Some(
            LinkInfo {
                ifindex,
                ifname,
                flags,
                mtu,
                qdisc,
                operstate,
                group,
                txqlen,
                link_type,
                address,
                broadcast,
            },
        )
    }
}

/// One interface with its addresses.
#[derive(Clone, Debug, PartialEq, Eq)]
pub struct AddressInfo {
    pub ifindex: u32,
    pub ifname: String,
    pub flags: Vec<String>,
    pub mtu: u32,
    pub qdisc: String,
    pub operstate: String,
    pub group: String,
    pub txqlen: Option<u16>,
    pub link_type: String,
    pub address: String,
    pub broadcast: String,
    pub addr_info: Vec<AddrInfo>,
}

/// An [`AddressInfo`] as a plain value: the interface and its addresses.
pub struct AddressInfoView {
    pub link: LinkInfoView,
    pub addr_info: Seq<AddrInfoView>,
}

impl DeepView for AddressInfo {
    type V = AddressInfoView;

    open spec fn deep_view(&self) -> AddressInfoView {
        AddressInfoView {
            link: LinkInfoView {
                ifindex: self.ifindex,
                ifname: self.ifname@,
                flags: self.flags.deep_view(),
                mtu: self.mtu,
                qdisc: self.qdisc@,
                operstate: self.operstate@,
                group: self.group@,
                txqlen: self.txqlen,
                link_type: self.link_type@,
                address: self.address@,
                broadcast: self.broadcast@,
            },
            addr_info: self.addr_info.deep_view(),
        }
    }
}

/// The addresses under `addr_info`: the member must be there and be a list
/// of addresses.
pub open spec fn addresses_member(json: Json) -> Option<Seq<AddrInfoView>> {
    match list_member(json, "addr_info"@) {
        Some(items) => match list_records::<AddrInfo>(items) {
            Ok(addresses) => Some(addresses),
            Err(_) => None,
        },
        None => None,
    }
}

impl JsonRecord for AddressInfo {
    /// An interface with its addresses is an object that has the shape of
    /// an interface and, under `addr_info`, a list of addresses.
    open spec fn shape(json: Json) -> Option<AddressInfoView> {
        let link = LinkInfo::shape(json);
        let addr_info = addresses_member(json);
        if link is Some && addr_info is Some {
            Some(AddressInfoView { link: link->0, addr_info: addr_info->0 })
        } else {
            None
        }
    }

    fn read(value: &serde_json::Value) -> (record: Option<AddressInfo>) {
        let link = LinkInfo::read(value)?;
        let items = read_list(value, "addr_info")?;
        let addr_info = match read_records::<AddrInfo>(items) {
            Ok(addresses) => addresses,
            Err(_) => {
                return None;
            },
        };
        Some(
            AddressInfo {
                ifindex: link.ifindex,
                ifname: link.ifname,
                flags: link.flags,
                mtu: link.mtu,
                qdisc: link.qdisc,
                operstate: link.operstate,
                group: link.group,
                txqlen: link.txqlen,
                link_type: link.link_type,
                address: link.address,
                broadcast: link.broadcast,
                addr_info,
            },
        )
    }
}

/// The arguments `-j`, `object`, `verb`, and `target` where there is one.
pub open spec fn ip_args(object: Seq<char>, verb: Seq<char>, target: Option<Seq<char>>) -> Seq<
    Seq<char>,
> {
    match target {
        Some(target) => seq!["-j"@, object, verb, target],
        None => seq!["-j"@, object, verb],
    }
}

/// The command `ip -j object verb [target]`.
fn ip_command(object: &str, verb: &str, target: Option<String>) -> (command: CommandLine)
    ensures
        command.deep_view() == (CommandLineView {
            program: "ip"@,
            args: ip_args(object@, verb@, target.deep_view()),
        }),
{
    let mut args: Vec<String> = Vec::new();
    args.push(String::from_str("-j"));
    args.push(String::from_str(object));
    args.push(String::from_str(verb));
    match target {
        Some(target) => {
            let ghost text = target@;
            args.push(target);
            assert(args.deep_view() =~= seq!["-j"@, object@, verb@, text]);
        },
        None => {
            assert(args.deep_view() =~= seq!["-j"@, object@, verb@]);
        },
    }
    CommandLine { program: String::from_str("ip"), args }
}

impl Route {
    /// The command that lists all routes: `ip -j route list`.
    pub fn list_command(&self) -> (command: CommandLine)
        ensures
            command.deep_view() == (CommandLineView {
                program: "ip"@,
                args: ip_args("route"@, "list"@, None),
            }),
    {
        ip_command("route", "list", None)
    }

    /// The command that asks for the route to `ip_address`:
    /// `ip -j route get ip_address`.
    pub fn get_command(&self, ip_address: String) -> (command: CommandLine)
        ensures
            command.deep_view() == (CommandLineView {
                program: "ip"@,
                args: ip_args("route"@, "get"@, Some(ip_address@)),
            }),
    {
        ip_command("route", "get", Some(ip_address))
    }

    /// The outcome of the field `list` for a run of
    /// [`Route::list_command`].
    pub fn list(&self, execution: Execution) -> (outcome: FieldOutcome<Vec<RouteEntry>>)
        ensures
            outcome.deep_view() == field_outcome(
                execution.deep_view(),
                |output: Seq<char>| record_document::<RouteEntry>(output),
            ),
    {
        match command_output(execution) {
            Err(error) => FieldOutcome::Error(error),
            Ok(output) => outcome_of(read_document::<RouteEntry>(output.as_str())),
        }
    }

    /// The outcome of the field `get` for a run of [`Route::get_command`].
    pub fn get(&self, execution: Execution) -> (outcome: FieldOutcome<Vec<RouteEntry>>)
        ensures
            outcome.deep_view() == field_outcome(
                execution.deep_view(),
                |output: Seq<char>| record_document::<RouteEntry>(output),
            ),
    {
        match command_output(execution) {
            Err(error) => FieldOutcome::Error(error),
            Ok(output) => outcome_of(read_document::<RouteEntry>(output.as_str())),
        }
    }
}

impl Address {
    /// The command that shows the addresses of `link`, or of every
    /// interface: `ip -j address show [link]`.
    pub fn show_command(&self, link: Option<String>) -> (command: CommandLine)
        ensures
            command.deep_view() == (CommandLineView {
                program: "ip"@,
                args: ip_args("address"@, "show"@, link.deep_view()),
            }),
    {
        ip_command("address", "show", link)
    }

    /// The outcome of the field `show` for a run of
    /// [`Address::show_command`].
    pub fn show(&self, execution: Execution) -> (outcome: FieldOutcome<Vec<AddressInfo>>)
        ensures
            outcome.deep_view() == field_outcome(
                execution.deep_view(),
                |output: Seq<char>| record_document::<AddressInfo>(output),
            ),
    {
        match command_output(execution) {
            Err(error) => FieldOutcome::Error(error),
            Ok(output) => outcome_of(read_document::<AddressInfo>(output.as_str())),
        }
    }
}

impl Link {
    /// The command that shows `link`, or every interface:
    /// `ip -j link show [link]`.
    pub fn show_command(&self, link: Option<String>) -> (command: CommandLine)
        ensures
            command.deep_view() == (CommandLineView {
                program: "ip"@,
                args: ip_args("link"@, "show"@, link.deep_view()),
            }),
    {
        ip_command("link", "show", link)
    }

    /// The outcome of the field `show` for a run of [`Link::show_command`].
    pub fn show(&self, execution: Execution) -> (outcome: FieldOutcome<Vec<LinkInfo>>)
        ensures
            outcome.deep_view() == field_outcome(
                execution.deep_view(),
                |output: Seq<char>| record_document::<LinkInfo>(output),
            ),
    {
        match command_output(execution) {
            Err(error) => FieldOutcome::Error(error),
            Ok(output) => outcome_of(read_document::<LinkInfo>(output.as_str())),
        }
    }
}

} // verus!
