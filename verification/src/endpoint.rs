//! Request destinations.

use vstd::prelude::*;
use vstd::string::*;
use crate::target::TargetAddress;

verus! {

/// Where a request goes: a host, which is an address in its text form or a
/// host name. The port, 4807, and the path, `/graphql`, are the same for
/// every endpoint.
#[derive(Clone, Debug, PartialEq, Eq)]
pub struct Endpoint {
    pub host: String,
}

/// The URL of the endpoint on `host`.
pub open spec fn endpoint_url(host: Seq<char>) -> Seq<char> {
    "http://"@ + host + ":4807/graphql"@
}

impl DeepView for Endpoint {
    type V = Seq<char>;

    /// An endpoint is its host.
    open spec fn deep_view(&self) -> Seq<char> {
        self.host@
    }
}

impl Endpoint {
    /// The URL to which requests for this endpoint go.
    pub fn url(&self) -> (url: String)
        ensures
            url@ == endpoint_url(self.host@),
    {
        let mut url = String::from_str("http://");
        url.append(self.host.as_str());
        url.append(":4807/graphql");
        url
    }
}

/// The text forms of `addresses`, in order.
pub open spec fn address_hosts(addresses: Seq<TargetAddress>) -> Seq<Seq<char>> {
    Seq::new(addresses.len(), |i: int| addresses[i].text())
}

/// The host names that were given, none where none were.
pub open spec fn given_hosts(hostnames: Option<Seq<Seq<char>>>) -> Seq<Seq<char>> {
    match hostnames {
        Some(hosts) => hosts,
        None => Seq::empty(),
    }
}

/// The hosts of the endpoints of a broadcast: the addresses, in the order
/// in which they stand, then the host names, in the order in which they
/// were given.
pub open spec fn endpoint_hosts(
    addresses: Seq<TargetAddress>,
    hostnames: Option<Seq<Seq<char>>>,
) -> Seq<Seq<char>> {
    address_hosts(addresses) + given_hosts(hostnames)
}

/// The URLs of `hosts`, in order.
pub open spec fn urls_of(hosts: Seq<Seq<char>>) -> Seq<Seq<char>> {
    Seq::new(hosts.len(), |i: int| endpoint_url(hosts[i]))
}

/// Builds the endpoints of a broadcast. See [`endpoint_hosts`].
pub fn build_endpoints(ips: Vec<TargetAddress>, hostnames: Option<Vec<String>>) -> (endpoints: Vec<
    Endpoint,
>)
    ensures
        endpoints.deep_view() == endpoint_hosts(ips@, hostnames.deep_view()),
{
    let mut endpoints: Vec<Endpoint> = Vec::new();
    let mut i: usize = 0;
    while i < ips.len()
        invariant
            i <= ips.len(),
            endpoints@.len() == i,
            forall|k: int| 0 <= k < i ==> (#[trigger] endpoints@[k]).host@ == ips@[k].text(),
        decreases ips.len() - i,
    {
        endpoints.push(Endpoint { host: ips[i].to_text() });
        i += 1;
    }
    assert(endpoints.deep_view() =~= address_hosts(ips@));
    match hostnames {
        Some(hosts) => {
            let ghost given = hosts.deep_view();
            let mut j: usize = 0;
            while j < hosts.len()
                invariant
                    j <= hosts.len(),
                    given == hosts.deep_view(),
                    endpoints.deep_view() == address_hosts(ips@) + given.take(j as int),
                decreases hosts.len() - j,
            {
                let ghost before = endpoints.deep_view();
                endpoints.push(Endpoint { host: hosts[j].clone() });
                assert(endpoints.deep_view() =~= before.push(given[j as int]));
                assert(given.take(j + 1) =~= given.take(j as int).push(given[j as int]));
                assert(endpoints.deep_view() =~= address_hosts(ips@) + given.take(j + 1));
                j += 1;
            }
            assert(given.take(j as int) =~= given);
        },
        None => {
            assert(endpoints.deep_view() =~= address_hosts(ips@) + Seq::<Seq<char>>::empty());
        },
    }
    endpoints
}

/// The URLs of the endpoints of a broadcast: one for each address, in the
/// order in which the addresses stand, then one for each host name.
pub fn generate_urls(ips: Vec<TargetAddress>, hostnames: Option<Vec<String>>) -> (urls: Vec<
    String,
>)
    ensures
        urls.deep_view() == urls_of(endpoint_hosts(ips@, hostnames.deep_view())),
{
    let ghost hosts = endpoint_hosts(ips@, hostnames.deep_view());
    let endpoints = build_endpoints(ips, hostnames);
    let mut urls: Vec<String> = Vec::new();
    let mut i: usize = 0;
    while i < endpoints.len()
        invariant
            i <= endpoints.len(),
            endpoints.deep_view() == hosts,
            urls@.len() == i,
            forall|k: int| 0 <= k < i ==> (#[trigger] urls@[k])@ == endpoint_url(hosts[k]),
        decreases endpoints.len() - i,
    {
        assert(endpoints.deep_view()[i as int] == endpoints@[i as int].host@);
        urls.push(endpoints[i].url());
        i += 1;
    }
    assert(endpoints.deep_view().len() == endpoints@.len());
    assert(urls.deep_view() =~= urls_of(hosts));
    urls
}

} // verus!
