use fleet_query::ip::{AddrInfo, Address, AddressInfo, Ip, Link, LinkInfo, Route, RouteEntry};
use fleet_query::json::{read_document, JsonRecord};
use fleet_query::outcome::{CommandResult, Execution, FieldError, FieldOutcome, ParseError};

fn completed(exit_code: Option<i32>, stdout: &str, stderr: &str) -> Execution {
    Execution::Completed(CommandResult {
        exit_code,
        stdout: stdout.as_bytes().to_vec(),
        stderr: stderr.as_bytes().to_vec(),
    })
}

fn strings(items: &[&str]) -> Vec<String> {
    items.iter().map(|s| s.to_string()).collect()
}

const ROUTES: &str = r#"[
 {"dst":"default","gateway":"10.0.0.1","dev":"eth0","protocol":"dhcp","prefsrc":"10.0.0.15","metric":100,"flags":[]},
 {"dst":"10.0.0.0/24","dev":"eth0","protocol":"kernel","scope":"link","prefsrc":"10.0.0.15","flags":["linkdown","onlink"]},
 {"dst":"172.17.0.0/16","gateway":null,"dev":"docker0","prefsrc":"172.17.0.1","metric":null,"flags":[]}
]"#;

fn routes() -> Vec<RouteEntry> {
    vec![
        RouteEntry {
            dst: "default".to_string(),
            gateway: Some("10.0.0.1".to_string()),
            dev: "eth0".to_string(),
            protocol: Some("dhcp".to_string()),
            prefsrc: "10.0.0.15".to_string(),
            metric: Some(100),
            flags: vec![],
        },
        RouteEntry {
            dst: "10.0.0.0/24".to_string(),
            gateway: None,
            dev: "eth0".to_string(),
            protocol: Some("kernel".to_string()),
            prefsrc: "10.0.0.15".to_string(),
            metric: None,
            flags: strings(&["linkdown", "onlink"]),
        },
        RouteEntry {
            dst: "172.17.0.0/16".to_string(),
            gateway: None,
            dev: "docker0".to_string(),
            protocol: None,
            prefsrc: "172.17.0.1".to_string(),
            metric: None,
            flags: vec![],
        },
    ]
}

const LINK: &str = r#"{"ifindex":2,"ifname":"eth0","flags":["BROADCAST","MULTICAST","UP","LOWER_UP"],"mtu":1500,"qdisc":"fq_codel","operstate":"UP","linkmode":"DEFAULT","group":"default","txqlen":1000,"link_type":"ether","address":"52:54:00:12:34:56","broadcast":"ff:ff:ff:ff:ff:ff""#;

const ADDR: &str = r#"{"family":"inet","local":"10.0.0.15","prefixlen":24,"scope":"global","label":"eth0","valid_life_time":4294967295,"preferred_life_time":86000}"#;

fn link() -> LinkInfo {
    LinkInfo {
        ifindex: 2,
        ifname: "eth0".to_string(),
        flags: strings(&["BROADCAST", "MULTICAST", "UP", "LOWER_UP"]),
        mtu: 1500,
        qdisc: "fq_codel".to_string(),
        operstate: "UP".to_string(),
        group: "default".to_string(),
        txqlen: Some(1000),
        link_type: "ether".to_string(),
        address: "52:54:00:12:34:56".to_string(),
        broadcast: "ff:ff:ff:ff:ff:ff".to_string(),
    }
}

fn addr() -> AddrInfo {
    AddrInfo {
        family: "inet".to_string(),
        local: "10.0.0.15".to_string(),
        prefixlen: 24,
        scope: "global".to_string(),
        label: Some("eth0".to_string()),
        noprefixrotue: None,
        valid_life_time: 4294967295,
        preferred_life_time: 86000,
    }
}

fn address_info(addr_info: Vec<AddrInfo>) -> AddressInfo {
    let l = link();
    AddressInfo {
        ifindex: l.ifindex,
        ifname: l.ifname,
        flags: l.flags,
        mtu: l.mtu,
        qdisc: l.qdisc,
        operstate: l.operstate,
        group: l.group,
        txqlen: l.txqlen,
        link_type: l.link_type,
        address: l.address,
        broadcast: l.broadcast,
        addr_info,
    }
}

#[test]
fn routes_are_read_in_the_order_of_the_list() {
    assert_eq!(read_document::<RouteEntry>(ROUTES), Ok(routes()));
    assert_eq!(
        Route.list(completed(Some(0), ROUTES, "")),
        FieldOutcome::Value(routes())
    );
    assert_eq!(
        Route.get(completed(Some(0), ROUTES, "")),
        FieldOutcome::Value(routes())
    );
    assert_eq!(read_document::<RouteEntry>("[]"), Ok(vec![]));
    assert_eq!(read_document::<RouteEntry>(" [ ] \n"), Ok(vec![]));
}

#[test]
fn document_that_is_not_json_fails_with_the_reason() {
    let expected = serde_json::from_str::<serde_json::Value>("[{\"dst\"").unwrap_err();
    assert_eq!(
        read_document::<RouteEntry>("[{\"dst\""),
        Err(ParseError::Json { line: 0, reason: expected.to_string() })
    );
    let expected = serde_json::from_str::<serde_json::Value>("").unwrap_err();
    assert_eq!(
        read_document::<LinkInfo>(""),
        Err(ParseError::Json { line: 0, reason: expected.to_string() })
    );
    let expected = serde_json::from_str::<serde_json::Value>("[] []").unwrap_err();
    assert_eq!(
        read_document::<LinkInfo>("[] []"),
        Err(ParseError::Json { line: 0, reason: expected.to_string() })
    );
}

#[test]
fn document_that_is_no_list_fails() {
    assert_eq!(read_document::<RouteEntry>("{}"), Err(ParseError::NotAList));
    assert_eq!(read_document::<RouteEntry>("null"), Err(ParseError::NotAList));
    assert_eq!(read_document::<RouteEntry>("\"[]\""), Err(ParseError::NotAList));
    assert_eq!(
        Route.list(completed(Some(0), "17", "")),
        FieldOutcome::Error(FieldError::Output(ParseError::NotAList))
    );
}

#[test]
fn first_item_that_is_no_record_fails_the_list() {
    let document = r#"[
      {"dst":"a","dev":"eth0","prefsrc":"1.1.1.1","flags":[]},
      {"dst":"b","dev":"eth0","flags":[]},
      {"dst":"c"}
    ]"#;
    assert_eq!(
        read_document::<RouteEntry>(document),
        Err(ParseError::Record { index: 1 })
    );
}

#[test]
fn route_members_have_their_kinds() {
    let read = |text: &str| {
        let value: serde_json::Value = serde_json::from_str(text).unwrap();
        RouteEntry::read(&value)
    };
    let base = r#"{"dst":"a","dev":"eth0","prefsrc":"1.1.1.1","flags":["x"],"metric":METRIC}"#;
    let metric = |m: &str| read(&base.replace("METRIC", m)).map(|r| r.metric);
    assert_eq!(metric("0"), Some(Some(0)));
    assert_eq!(metric("4294967295"), Some(Some(4294967295)));
    assert_eq!(metric("null"), Some(None));
    assert_eq!(metric("4294967296"), None);
    assert_eq!(metric("-1"), None);
    assert_eq!(metric("1.5"), None);
    assert_eq!(metric("1e2"), None);
    assert_eq!(metric("\"100\""), None);
    assert_eq!(metric("[100]"), None);
    assert_eq!(
        read(r#"{"dst":"a","dev":"eth0","prefsrc":"1.1.1.1","flags":["x",1]}"#),
        None
    );
    assert_eq!(
        read(r#"{"dst":"a","dev":"eth0","prefsrc":"1.1.1.1","flags":"x"}"#),
        None
    );
    assert_eq!(
        read(r#"{"dst":"a","dev":"eth0","prefsrc":"1.1.1.1","flags":[],"gateway":7}"#),
        None
    );
    assert_eq!(
        read(r#"{"dst":null,"dev":"eth0","prefsrc":"1.1.1.1","flags":[]}"#),
        None
    );
    assert_eq!(read(r#"["a","eth0","1.1.1.1"]"#), None);
}

#[test]
fn links_are_read_and_other_members_are_passed_over() {
    let document = format!("[{}}}]", LINK);
    assert_eq!(read_document::<LinkInfo>(&document), Ok(vec![link()]));
    assert_eq!(
        Link.show(completed(Some(0), &document, "")),
        FieldOutcome::Value(vec![link()])
    );
    let without_txqlen = document.replace("\"txqlen\":1000,", "");
    let mut expected = link();
    expected.txqlen = None;
    assert_eq!(read_document::<LinkInfo>(&without_txqlen), Ok(vec![expected]));
    let wide_txqlen = document.replace("\"txqlen\":1000,", "\"txqlen\":65536,");
    assert_eq!(
        read_document::<LinkInfo>(&wide_txqlen),
        Err(ParseError::Record { index: 0 })
    );
    let without_mtu = document.replace("\"mtu\":1500,", "");
    assert_eq!(
        read_document::<LinkInfo>(&without_mtu),
        Err(ParseError::Record { index: 0 })
    );
}

#[test]
fn addresses_hold_the_interface_and_its_addresses() {
    let document = format!("[{},\"addr_info\":[{},{}]}}]", LINK, ADDR, ADDR);
    assert_eq!(
        read_document::<AddressInfo>(&document),
        Ok(vec![address_info(vec![addr(), addr()])])
    );
    assert_eq!(
        Address.show(completed(Some(0), &document, "")),
        FieldOutcome::Value(vec![address_info(vec![addr(), addr()])])
    );
    let none = format!("[{},\"addr_info\":[]}}]", LINK);
    assert_eq!(
        read_document::<AddressInfo>(&none),
        Ok(vec![address_info(vec![])])
    );
}

#[test]
fn interface_without_a_list_of_addresses_is_no_record() {
    let missing = format!("[{}}}]", LINK);
    assert_eq!(
        read_document::<AddressInfo>(&missing),
        Err(ParseError::Record { index: 0 })
    );
    let broken = format!("[{},\"addr_info\":[{},{{\"family\":\"inet\"}}]}}]", LINK, ADDR);
    assert_eq!(
        read_document::<AddressInfo>(&broken),
        Err(ParseError::Record { index: 0 })
    );
    let wide = format!(
        "[{},\"addr_info\":[{}]}}]",
        LINK,
        ADDR.replace("\"prefixlen\":24", "\"prefixlen\":65536")
    );
    assert_eq!(
        read_document::<AddressInfo>(&wide),
        Err(ParseError::Record { index: 0 })
    );
}

#[test]
fn optional_boolean_of_an_address_is_read() {
    let with = ADDR.replace("\"label\":\"eth0\",", "\"noprefixrotue\":true,");
    let value: serde_json::Value = serde_json::from_str(&with).unwrap();
    let mut expected = addr();
    expected.label = None;
    expected.noprefixrotue = Some(true);
    assert_eq!(AddrInfo::read(&value), Some(expected));
    let wrong = ADDR.replace("\"label\":\"eth0\",", "\"noprefixrotue\":\"yes\",");
    let value: serde_json::Value = serde_json::from_str(&wrong).unwrap();
    assert_eq!(AddrInfo::read(&value), None);
}

#[test]
fn commands_are_ip_with_json_output() {
    let list = Route.list_command();
    assert_eq!(list.program, "ip");
    assert_eq!(list.args, strings(&["-j", "route", "list"]));
    let get = Route.get_command("10.0.0.1".to_string());
    assert_eq!(get.program, "ip");
    assert_eq!(get.args, strings(&["-j", "route", "get", "10.0.0.1"]));
    let all = Address.show_command(None);
    assert_eq!(all.program, "ip");
    assert_eq!(all.args, strings(&["-j", "address", "show"]));
    let one = Address.show_command(Some("eth0".to_string()));
    assert_eq!(one.args, strings(&["-j", "address", "show", "eth0"]));
    let all = Link.show_command(None);
    assert_eq!(all.program, "ip");
    assert_eq!(all.args, strings(&["-j", "link", "show"]));
    let one = Link.show_command(Some("lo".to_string()));
    assert_eq!(one.args, strings(&["-j", "link", "show", "lo"]));
}

#[test]
fn ip_hands_out_its_three_adapters() {
    assert_eq!(Ip.route(), Route);
    assert_eq!(Ip.address(), Address);
    assert_eq!(Ip.link(), Link);
}

#[test]
fn failing_ip_gives_its_error_stream() {
    let failed = completed(Some(255), "[]", "Device \"eth9\" does not exist.\n");
    assert_eq!(
        Link.show(failed.clone()),
        FieldOutcome::Error(FieldError::Exit("Device \"eth9\" does not exist.\n".to_string()))
    );
    assert_eq!(
        Address.show(failed.clone()),
        FieldOutcome::Error(FieldError::Exit("Device \"eth9\" does not exist.\n".to_string()))
    );
    assert_eq!(
        Route.get(failed),
        FieldOutcome::Error(FieldError::Exit("Device \"eth9\" does not exist.\n".to_string()))
    );
}
