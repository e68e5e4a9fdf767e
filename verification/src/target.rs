//! Target resolution: from subnets and inventory lines to the set of
//! addresses that a query goes to.
//!
//! An entry is a network in CIDR notation, or a single address. Reading an
//! entry and walking its addresses are `ipnetwork`'s; an entry that it does
//! not read gives a diagnostic and is passed over. What the entries give
//! together is sorted, and every address kept once.

use vstd::prelude::*;
use vstd::arithmetic::div_mod::{lemma_fundamental_div_mod, lemma_mod_bound};
use vstd::arithmetic::power2::{lemma2_to64, lemma2_to64_rest, lemma_pow2_adds, lemma_pow2_pos, pow2};
use vstd::string::*;
use crate::text::{pieces_of, split_newline, trim, trimmed};

verus! {

/// The address of a host: an IPv4 address as its 32 bits, an IPv6 address as
/// its 128 bits, the first octet in the highest bits.
#[derive(Clone, Copy, Debug, PartialEq, Eq, Hash, Structural)]
pub enum TargetAddress {
    V4(u32),
    V6(u128),
}

impl TargetAddress {
    /// The place of the address in the order of all addresses: IPv4
    /// addresses by their number, then IPv6 addresses by theirs.
    pub open spec fn rank(self) -> int {
        match self {
            TargetAddress::V4(bits) => bits as int,
            TargetAddress::V6(bits) => 0x1_0000_0000 + bits as int,
        }
    }

    /// Whether this address comes before `other`.
    pub fn precedes(&self, other: &TargetAddress) -> (before: bool)
        ensures
            before == (self.rank() < other.rank()),
    {
        match (self, other) {
            (TargetAddress::V4(a), TargetAddress::V4(b)) => *a < *b,
            (TargetAddress::V4(_), TargetAddress::V6(_)) => true,
            (TargetAddress::V6(_), TargetAddress::V4(_)) => false,
            (TargetAddress::V6(a), TargetAddress::V6(b)) => *a < *b,
        }
    }
}

/// Addresses of the same rank are the same address.
pub proof fn lemma_rank_is_one_to_one(a: TargetAddress, b: TargetAddress)
    requires
        a.rank() == b.rank(),
    ensures
        a == b,
{
}

/// A network: an address and the number of leading bits that all addresses
/// of the network share with it.
#[derive(Clone, Copy, Debug, PartialEq, Eq, Hash, Structural)]
#[allow(inconsistent_fields)]
pub enum Network {
    V4 { address: u32, prefix: u8 },
    V6 { address: u128, prefix: u8 },
}

impl Network {
    /// Whether the prefix is no longer than an address: 32 bits for IPv4,
    /// 128 for IPv6.
    pub open spec fn well_formed(self) -> bool {
        match self {
            Network::V4 { prefix, .. } => prefix <= 32,
            Network::V6 { prefix, .. } => prefix <= 128,
        }
    }

    /// Decides [`Network::well_formed`].
    pub fn is_well_formed(&self) -> (yes: bool)
        ensures
            yes == self.well_formed(),
    {
        match self {
            Network::V4 { prefix, .. } => *prefix <= 32,
            Network::V6 { prefix, .. } => *prefix <= 128,
        }
    }

    /// The number of addresses in the block of the network: two to the
    /// number of bits that the prefix leaves free.
    pub open spec fn block(self) -> nat {
        match self {
            Network::V4 { prefix, .. } => pow2((32 - prefix) as nat),
            Network::V6 { prefix, .. } => pow2((128 - prefix) as nat),
        }
    }

    /// The number of the first address of the block: the address of the
    /// network with the free bits cleared.
    pub open spec fn first(self) -> int {
        match self {
            Network::V4 { address, .. } => address as int - (address as int) % (self.block() as int),
            Network::V6 { address, .. } => address as int - (address as int) % (self.block() as int),
        }
    }

    /// How many addresses the network is walked through: all of its block,
    /// the first and the last included; but for the IPv4 network of prefix
    /// 0, whose last address, 255.255.255.255, is left out.
    pub open spec fn count(self) -> nat {
        match self {
            Network::V4 { prefix, .. } => if prefix == 0 {
                (self.block() - 1) as nat
            } else {
                self.block()
            },
            Network::V6 { .. } => self.block(),
        }
    }

    /// The address of index `i` in the walk through the network.
    pub open spec fn nth(self, i: int) -> TargetAddress {
        match self {
            Network::V4 { .. } => TargetAddress::V4((self.first() + i) as u32),
            Network::V6 { .. } => TargetAddress::V6((self.first() + i) as u128),
        }
    }

    /// The addresses of the network, ascending; none where the network is
    /// not well-formed.
    pub open spec fn addresses(self) -> Seq<TargetAddress> {
        if self.well_formed() {
            Seq::new(self.count(), |i: int| self.nth(i))
        } else {
            Seq::empty()
        }
    }
}

/// The network that `ipnetwork` reads from `text`; none where it reads
/// none.
pub uninterp spec fn network_of_text(text: Seq<char>) -> Option<Network>;

/// The message with which `ipnetwork` refuses `text`.
pub open spec fn refusal(text: Seq<char>) -> Seq<char> {
    "invalid address: "@ + text
}

/// Parses `text` as an `ipnetwork::IpNetwork` and hands out the address and
/// the prefix of the network, or the message of the error. Trusted: that
/// the network is a function of the text alone, which is what the name
/// `network_of_text` stands for; that its prefix is at most 32 for IPv4 and
/// at most 128 for IPv6; and that the error reads `invalid address: ` and
/// then the text.
#[verifier::external_body]
fn parse_network(text: &str) -> (network: Result<Network, String>)
    ensures
        match network {
            Ok(n) => network_of_text(text@) == Some(n) && n.well_formed(),
            Err(reason) => network_of_text(text@) is None && reason@ == refusal(text@),
        },
{
    match text.parse::<ipnetwork::IpNetwork>() {
        Ok(ipnetwork::IpNetwork::V4(n)) => Ok(
            Network::V4 { address: u32::from(n.ip()), prefix: n.prefix() },
        ),
        Ok(ipnetwork::IpNetwork::V6(n)) => Ok(
            Network::V6 { address: u128::from(n.ip()), prefix: n.prefix() },
        ),
        Err(e) => Err(e.to_string()),
    }
}

/// `ipnetwork::IpNetworkIterator`, a walk through the addresses of a
/// network, is carried through as it is; what it has yet to give is named
/// by [`pending`].
#[verifier::external_type_specification]
#[verifier::external_body]
pub struct ExIpNetworkIterator(ipnetwork::IpNetworkIterator);

/// The addresses that a walk through a network has yet to give, in order.
pub uninterp spec fn pending(walk: ipnetwork::IpNetworkIterator) -> Seq<TargetAddress>;

/// Makes the `ipnetwork::IpNetwork` of `network` and calls its `iter`.
/// Trusted: that the walk gives the addresses from the first of the block
/// on, each one more than the one before, as many as
/// [`Network::count`] says.
#[verifier::external_body]
fn walk_network(network: &Network) -> (walk: ipnetwork::IpNetworkIterator)
    requires
        network.well_formed(),
    ensures
        pending(walk) == network.addresses(),
{
    match *network {
        Network::V4 { address, prefix } => ipnetwork::IpNetwork::V4(
            ipnetwork::Ipv4Network::new(address.into(), prefix).unwrap(),
        ).iter(),
        Network::V6 { address, prefix } => ipnetwork::IpNetwork::V6(
            ipnetwork::Ipv6Network::new(address.into(), prefix).unwrap(),
        ).iter(),
    }
}

/// Calls `next` on a walk through a network. Trusted: that it hands out the
/// first of the pending addresses and leaves the rest pending, and that it
/// hands out nothing, and changes nothing, once none is pending.
#[verifier::external_body]
fn next_address(walk: &mut ipnetwork::IpNetworkIterator) -> (address: Option<TargetAddress>)
    ensures
        match address {
            Some(a) => pending(*old(walk)).len() > 0 && a == pending(*old(walk))[0] && pending(
                *final(walk),
            ) == pending(*old(walk)).drop_first(),
            None => pending(*old(walk)).len() == 0 && pending(*final(walk)) == pending(*old(walk)),
        },
{
    walk.next().map(
        |ip| match ipnetwork::IpNetwork::from(ip) {
            ipnetwork::IpNetwork::V4(n) => TargetAddress::V4(u32::from(n.ip())),
            ipnetwork::IpNetwork::V6(n) => TargetAddress::V6(u128::from(n.ip())),
        },
    )
}

/// Appends the addresses of `network` to `collector`.
pub fn collect_addresses(collector: &mut Vec<TargetAddress>, network: &Network)
    ensures
        final(collector)@ == old(collector)@ + network.addresses(),
{
    if !network.is_well_formed() {
        assert(collector@ + network.addresses() =~= collector@);
        return ;
    }
    let mut walk = walk_network(network);
    assert(collector@ + pending(walk) =~= old(collector)@ + network.addresses());
    loop
        invariant
            collector@ + pending(walk) == old(collector)@ + network.addresses(),
        ensures
            collector@ == old(collector)@ + network.addresses(),
        decreases pending(walk).len(),
    {
        let ghost before = collector@;
        let ghost waiting = pending(walk);
        match next_address(&mut walk) {
            Some(address) => {
                collector.push(address);
                assert(collector@ + pending(walk) =~= before + waiting);
            },
            None => {
                assert(before + waiting =~= before);
                break ;
            },
        }
    }
}

/// An entry that is no network: the entry itself, and why it was refused.
#[derive(Clone, Debug, PartialEq, Eq)]
pub struct SubnetParseError {
    pub entry: String,
    pub reason: String,
}

/// A [`SubnetParseError`] as a plain value.
pub struct SubnetParseErrorView {
    pub entry: Seq<char>,
    pub reason: Seq<char>,
}

impl DeepView for SubnetParseError {
    type V = SubnetParseErrorView;

    open spec fn deep_view(&self) -> SubnetParseErrorView {
        SubnetParseErrorView { entry: self.entry@, reason: self.reason@ }
    }
}

/// The addresses that one entry gives: those of its network, none where it
/// is no network.
pub open spec fn entry_addresses(entry: Seq<char>) -> Seq<TargetAddress> {
    match network_of_text(entry) {
        Some(network) => network.addresses(),
        None => Seq::empty(),
    }
}

/// The addresses that the entries give, entry by entry.
pub open spec fn entries_addresses(entries: Seq<Seq<char>>) -> Seq<TargetAddress>
    decreases entries.len(),
{
    if entries.len() == 0 {
        Seq::empty()
    } else {
        entries_addresses(entries.drop_last()) + entry_addresses(entries.last())
    }
}

/// The diagnostics of the entries: one for each entry that is no network,
/// in the order of the entries.
pub open spec fn entries_diagnostics(entries: Seq<Seq<char>>) -> Seq<SubnetParseErrorView>
    decreases entries.len(),
{
    if entries.len() == 0 {
        Seq::empty()
    } else {
        let before = entries_diagnostics(entries.drop_last());
        let entry = entries.last();
        match network_of_text(entry) {
            Some(_) => before,
            None => before.push(SubnetParseErrorView { entry, reason: refusal(entry) }),
        }
    }
}

/// Reads each of `subnets` as a network and appends its addresses to
/// `collector`. An entry that is no network adds nothing, and is reported
/// in the diagnostics that are handed back; the entries after it are read
/// all the same.
pub fn parse_subnets(collector: &mut Vec<TargetAddress>, subnets: &Vec<String>) -> (diagnostics:
    Vec<SubnetParseError>)
    ensures
        final(collector)@ == old(collector)@ + entries_addresses(subnets.deep_view()),
        diagnostics.deep_view() == entries_diagnostics(subnets.deep_view()),
{
    let ghost entries = subnets.deep_view();
    let mut diagnostics: Vec<SubnetParseError> = Vec::new();
    let mut i: usize = 0;
    assert(entries.take(0) =~= Seq::<Seq<char>>::empty());
    assert(collector@ =~= old(collector)@ + entries_addresses(entries.take(0)));
    assert(diagnostics.deep_view() =~= entries_diagnostics(entries.take(0)));
    while i < subnets.len()
        invariant
            i <= subnets.len(),
            entries == subnets.deep_view(),
            collector@ == old(collector)@ + entries_addresses(entries.take(i as int)),
            diagnostics.deep_view() == entries_diagnostics(entries.take(i as int)),
        decreases subnets.len() - i,
    {
        proof {
            assert(entries.take(i + 1).drop_last() =~= entries.take(i as int));
            assert(entries.take(i + 1).last() == subnets@[i as int]@);
        }
        let ghost before = collector@;
        match parse_network(subnets[i].as_str()) {
            Ok(network) => {
                collect_addresses(collector, &network);
                assert(collector@ =~= old(collector)@ + entries_addresses(entries.take(i + 1)));
            },
            Err(reason) => {
                let ghost reported = diagnostics.deep_view();
                let error = SubnetParseError { entry: subnets[i].clone(), reason };
                let ghost added = error.deep_view();
                diagnostics.push(error);
                assert(diagnostics.deep_view() =~= reported.push(added));
                assert(collector@ =~= old(collector)@ + entries_addresses(entries.take(i + 1)));
            },
        }
        i += 1;
    }
    assert(entries.take(i as int) =~= entries);
    diagnostics
}

/// Whether `s` is a target set: ascending by rank, so that no address
/// stands in it twice.
pub open spec fn is_target_set(s: Seq<TargetAddress>) -> bool {
    forall|i: int, j: int| 0 <= i < j < s.len() ==> s[i].rank() < s[j].rank()
}

/// Whether `a` and `b` hold the same addresses, whatever their order and
/// however often each stands in them.
pub open spec fn same_members(a: Seq<TargetAddress>, b: Seq<TargetAddress>) -> bool {
    forall|x: TargetAddress| a.contains(x) <==> b.contains(x)
}

proof fn lemma_take_next_contains(s: Seq<TargetAddress>, i: int, x: TargetAddress)
    requires
        0 <= i < s.len(),
    ensures
        s.take(i + 1).contains(x) <==> s.take(i).contains(x) || x == s[i],
{
    let shorter = s.take(i);
    let longer = s.take(i + 1);
    if longer.contains(x) {
        let k = choose|k: int| 0 <= k < longer.len() && longer[k] == x;
        if k < i {
            assert(shorter[k] == x);
        }
    }
    if shorter.contains(x) {
        let k = choose|k: int| 0 <= k < shorter.len() && shorter[k] == x;
        assert(longer[k] == x);
    }
    if x == s[i] {
        assert(longer[i] == x);
    }
}

proof fn lemma_push_contains(s: Seq<TargetAddress>, y: TargetAddress, x: TargetAddress)
    ensures
        s.push(y).contains(x) <==> s.contains(x) || x == y,
{
    let longer = s.push(y);
    if longer.contains(x) {
        let k = choose|k: int| 0 <= k < longer.len() && longer[k] == x;
        if k < s.len() {
            assert(s[k] == x);
        }
    }
    if s.contains(x) {
        let k = choose|k: int| 0 <= k < s.len() && s[k] == x;
        assert(longer[k] == x);
    }
    if x == y {
        assert(longer[s.len() as int] == x);
    }
}

proof fn lemma_concat_contains(a: Seq<TargetAddress>, b: Seq<TargetAddress>, x: TargetAddress)
    ensures
        (a + b).contains(x) <==> a.contains(x) || b.contains(x),
{
    let both = a + b;
    if both.contains(x) {
        let k = choose|k: int| 0 <= k < both.len() && both[k] == x;
        if k < a.len() {
            assert(a[k] == x);
        } else {
            assert(b[k - a.len()] == x);
        }
    }
    if a.contains(x) {
        let k = choose|k: int| 0 <= k < a.len() && a[k] == x;
        assert(both[k] == x);
    }
    if b.contains(x) {
        let k = choose|k: int| 0 <= k < b.len() && b[k] == x;
        assert(both[a.len() + k] == x);
    }
}

/// Merges two target sets into the target set of the addresses of both.
fn merge(a: &Vec<TargetAddress>, b: &Vec<TargetAddress>) -> (m: Vec<TargetAddress>)
    requires
        is_target_set(a@),
        is_target_set(b@),
    ensures
        is_target_set(m@),
        forall|x: TargetAddress| m@.contains(x) <==> a@.contains(x) || b@.contains(x),
{
    let mut m: Vec<TargetAddress> = Vec::new();
    let mut i: usize = 0;
    let mut j: usize = 0;
    while i < a.len() || j < b.len()
        invariant
            i <= a.len(),
            j <= b.len(),
            is_target_set(a@),
            is_target_set(b@),
            is_target_set(m@),
            forall|x: TargetAddress|
                m@.contains(x) <==> a@.take(i as int).contains(x) || b@.take(j as int).contains(x),
            forall|k: int|
                0 <= k < m@.len() && i < a.len() ==> (#[trigger] m@[k]).rank() < a@[i as int].rank(),
            forall|k: int|
                0 <= k < m@.len() && j < b.len() ==> (#[trigger] m@[k]).rank() < b@[j as int].rank(),
        decreases (a.len() - i) + (b.len() - j),
    {
        let ghost before = m@;
        let ghost i0 = i as int;
        let ghost j0 = j as int;
        let take_a = if j >= b.len() {
            true
        } else if i >= a.len() {
            false
        } else {
            !b[j].precedes(&a[i])
        };
        let next = if take_a {
            a[i]
        } else {
            b[j]
        };
        let both = take_a && j < b.len() && !a[i].precedes(&b[j]);
        proof {
            if both {
                lemma_rank_is_one_to_one(a@[i0], b@[j0]);
            }
        }
        m.push(next);
        if take_a {
            i += 1;
        }
        if !take_a || both {
            j += 1;
        }
        proof {
            assert forall|x: TargetAddress|
                m@.contains(x) <==> a@.take(i as int).contains(x) || b@.take(j as int).contains(
                    x,
                ) by {
                lemma_push_contains(before, next, x);
                if i as int > i0 {
                    lemma_take_next_contains(a@, i0, x);
                }
                if j as int > j0 {
                    lemma_take_next_contains(b@, j0, x);
                }
            }
            assert forall|p: int, q: int| 0 <= p < q < m@.len() implies m@[p].rank() < m@[q].rank() by {
                if q < before.len() {
                    assert(m@[p] == before[p] && m@[q] == before[q]);
                } else {
                    assert(m@[p] == before[p]);
                }
            }
            assert forall|k: int| 0 <= k < m@.len() && i < a.len() implies (#[trigger] m@[k]).rank()
                < a@[i as int].rank() by {
                if k < before.len() {
                    assert(m@[k] == before[k]);
                }
            }
            assert forall|k: int| 0 <= k < m@.len() && j < b.len() implies (#[trigger] m@[k]).rank()
                < b@[j as int].rank() by {
                if k < before.len() {
                    assert(m@[k] == before[k]);
                }
            }
        }
    }
    assert(a@.take(i as int) =~= a@);
    assert(b@.take(j as int) =~= b@);
    m
}

/// The target set of the addresses of `v` from `from` up to `to`.
fn sorted_range(v: &Vec<TargetAddress>, from: usize, to: usize) -> (s: Vec<TargetAddress>)
    requires
        from <= to <= v.len(),
    ensures
        is_target_set(s@),
        same_members(s@, v@.subrange(from as int, to as int)),
    decreases to - from,
{
    if to - from == 0 {
        let s: Vec<TargetAddress> = Vec::new();
        assert(v@.subrange(from as int, to as int) =~= s@);
        s
    } else if to - from == 1 {
        let mut s: Vec<TargetAddress> = Vec::new();
        s.push(v[from]);
        assert(v@.subrange(from as int, to as int) =~= s@);
        s
    } else {
        let mid = from + (to - from) / 2;
        let left = sorted_range(v, from, mid);
        let right = sorted_range(v, mid, to);
        let s = merge(&left, &right);
        proof {
            let lo = v@.subrange(from as int, mid as int);
            let hi = v@.subrange(mid as int, to as int);
            assert(v@.subrange(from as int, to as int) =~= lo + hi);
            assert forall|x: TargetAddress| s@.contains(x) <==> (lo + hi).contains(x) by {
                lemma_concat_contains(lo, hi, x);
            }
        }
        s
    }
}

/// Sorts `addresses` and keeps each address once.
pub fn target_set(addresses: Vec<TargetAddress>) -> (set: Vec<TargetAddress>)
    ensures
        is_target_set(set@),
        same_members(set@, addresses@),
{
    let set = sorted_range(&addresses, 0, addresses.len());
    assert(addresses@.subrange(0, addresses.len() as int) =~= addresses@);
    set
}

/// What resolution gives: the target set, and the diagnostics of the
/// entries that were passed over.
#[derive(Clone, Debug, PartialEq, Eq)]
pub struct Resolution {
    pub targets: Vec<TargetAddress>,
    pub diagnostics: Vec<SubnetParseError>,
}

/// The entries of an inventory: the pieces between the line feeds of the
/// text without the whitespace around it. No inventory has no entries.
pub open spec fn inventory_entries(inventory: Option<Seq<char>>) -> Seq<Seq<char>> {
    match inventory {
        Some(text) => split_newline(trim(text)),
        None => Seq::empty(),
    }
}

/// All entries of one resolution: the subnets, then the entries of the
/// inventory.
pub open spec fn all_entries(subnets: Seq<Seq<char>>, inventory: Option<Seq<char>>) -> Seq<
    Seq<char>,
> {
    subnets + inventory_entries(inventory)
}

/// The entries of the inventory text. See [`inventory_entries`].
pub fn inventory_lines(inventory: &str) -> (entries: Vec<String>)
    ensures
        entries.deep_view() == split_newline(trim(inventory@)),
{
    let body = trimmed(inventory);
    pieces_of(body.as_str())
}

/// The addresses of two lists of entries, one after the other.
pub proof fn lemma_entries_addresses_concat(a: Seq<Seq<char>>, b: Seq<Seq<char>>)
    ensures
        entries_addresses(a + b) == entries_addresses(a) + entries_addresses(b),
    decreases b.len(),
{
    if b.len() == 0 {
        assert(a + b =~= a);
        assert(entries_addresses(a) + entries_addresses(b) =~= entries_addresses(a));
    } else {
        assert((a + b).drop_last() =~= a + b.drop_last());
        assert((a + b).last() == b.last());
        lemma_entries_addresses_concat(a, b.drop_last());
        assert(entries_addresses(a + b) =~= entries_addresses(a) + entries_addresses(b));
    }
}

/// The diagnostics of two lists of entries, one after the other.
pub proof fn lemma_entries_diagnostics_concat(a: Seq<Seq<char>>, b: Seq<Seq<char>>)
    ensures
        entries_diagnostics(a + b) == entries_diagnostics(a) + entries_diagnostics(b),
    decreases b.len(),
{
    if b.len() == 0 {
        assert(a + b =~= a);
        assert(entries_diagnostics(a) + entries_diagnostics(b) =~= entries_diagnostics(a));
    } else {
        assert((a + b).drop_last() =~= a + b.drop_last());
        assert((a + b).last() == b.last());
        lemma_entries_diagnostics_concat(a, b.drop_last());
        assert(entries_diagnostics(a + b) =~= entries_diagnostics(a) + entries_diagnostics(b));
    }
}

/// Resolves subnets and inventory to the target set. The addresses of every
/// entry that is a network are in the set, each once, ascending; every
/// other entry is in the diagnostics, and stops nothing.
pub fn generate_ips(subnets: Vec<String>, inventory: Option<String>) -> (resolution: Resolution)
    ensures
        is_target_set(resolution.targets@),
        same_members(
            resolution.targets@,
            entries_addresses(all_entries(subnets.deep_view(), inventory.deep_view())),
        ),
        resolution.diagnostics.deep_view() == entries_diagnostics(
            all_entries(subnets.deep_view(), inventory.deep_view()),
        ),
{
    let ghost first = subnets.deep_view();
    let ghost second = inventory_entries(inventory.deep_view());
    let mut collector: Vec<TargetAddress> = Vec::new();
    let mut diagnostics = parse_subnets(&mut collector, &subnets);
    assert(collector@ =~= entries_addresses(first));
    match inventory {
        Some(text) => {
            let entries = inventory_lines(text.as_str());
            let mut more = parse_subnets(&mut collector, &entries);
            let ghost reported = diagnostics.deep_view();
            let ghost added = more.deep_view();
            diagnostics.append(&mut more);
            assert(diagnostics.deep_view() =~= reported + added);
        },
        None => {
            assert(collector@ + entries_addresses(second) =~= collector@);
            assert(diagnostics.deep_view() + entries_diagnostics(second)
                =~= diagnostics.deep_view());
        },
    }
    proof {
        lemma_entries_addresses_concat(first, second);
        lemma_entries_diagnostics_concat(first, second);
    }
    Resolution { targets: target_set(collector), diagnostics }
}

/// A target set is fixed by its members: two target sets that hold the
/// same addresses are the same sequence.
pub proof fn law_target_set_is_unique(a: Seq<TargetAddress>, b: Seq<TargetAddress>)
    requires
        is_target_set(a),
        is_target_set(b),
        same_members(a, b),
    ensures
        a == b,
    decreases a.len(),
{
    if a.len() == 0 {
        if b.len() > 0 {
            assert(b.contains(b[0]));
            assert(a.contains(b[0]));
        }
        assert(a =~= b);
    } else {
        assert(a.contains(a[0]));
        assert(b.contains(a[0]));
        let kb = choose|k: int| 0 <= k < b.len() && b[k] == a[0];
        assert(b.contains(b[0]));
        assert(a.contains(b[0]));
        let ka = choose|k: int| 0 <= k < a.len() && a[k] == b[0];
        // the least of each is the least of the other
        assert(a[0] == b[0]) by {
            if ka > 0 {
                assert(a[0].rank() < a[ka].rank());
            }
            if kb > 0 {
                assert(b[0].rank() < b[kb].rank());
            }
            lemma_rank_is_one_to_one(a[0], b[0]);
        }
        let ra = a.drop_first();
        let rb = b.drop_first();
        assert forall|i: int, j: int| 0 <= i < j < ra.len() implies ra[i].rank() < ra[j].rank() by {
            assert(ra[i] == a[i + 1] && ra[j] == a[j + 1]);
        }
        assert forall|i: int, j: int| 0 <= i < j < rb.len() implies rb[i].rank() < rb[j].rank() by {
            assert(rb[i] == b[i + 1] && rb[j] == b[j + 1]);
        }
        assert forall|x: TargetAddress| ra.contains(x) <==> rb.contains(x) by {
            if ra.contains(x) {
                let k = choose|k: int| 0 <= k < ra.len() && ra[k] == x;
                assert(a[k + 1] == x);
                assert(a[0].rank() < a[k + 1].rank());
                assert(a.contains(x));
                assert(b.contains(x));
                let q = choose|q: int| 0 <= q < b.len() && b[q] == x;
                assert(q > 0);
                assert(rb[q - 1] == x);
            }
            if rb.contains(x) {
                let k = choose|k: int| 0 <= k < rb.len() && rb[k] == x;
                assert(b[k + 1] == x);
                assert(b[0].rank() < b[k + 1].rank());
                assert(b.contains(x));
                assert(a.contains(x));
                let q = choose|q: int| 0 <= q < a.len() && a[q] == x;
                assert(q > 0);
                assert(ra[q - 1] == x);
            }
        }
        law_target_set_is_unique(ra, rb);
        assert(a =~= seq![a[0]] + ra);
        assert(b =~= seq![b[0]] + rb);
    }
}

/// A block of `block` addresses that holds `address` lies inside a space of
/// `parts` such blocks.
proof fn lemma_block_fits(address: int, block: int, parts: int)
    requires
        0 < block,
        0 <= address < parts * block,
    ensures
        0 <= address - address % block,
        address - address % block + block <= parts * block,
{
    lemma_fundamental_div_mod(address, block);
    lemma_mod_bound(address, block);
    let q = address / block;
    assert(address - address % block == block * q);
    assert(q < parts) by (nonlinear_arith)
        requires
            0 < block,
            block * q <= address,
            address < parts * block,
    ;
    assert(block * q + block <= parts * block) by (nonlinear_arith)
        requires
            0 < block,
            q + 1 <= parts,
    ;
    assert(0 <= block * q) by (nonlinear_arith)
        requires
            0 < block,
            block * q + address % block == address,
            0 <= address % block < block,
            0 <= address,
    ;
}

/// The block of a well-formed network lies inside the address space of its
/// family, and the walk through the network stays inside the block.
pub proof fn lemma_network_bounds(network: Network)
    requires
        network.well_formed(),
    ensures
        network.block() > 0,
        network.count() <= network.block(),
        0 <= network.first(),
        network is V4 ==> network.first() + network.block() <= 0x1_0000_0000,
        network is V6 ==> network.first() + network.block()
            <= 0x1_0000_0000_0000_0000_0000_0000_0000_0000,
{
    lemma2_to64();
    lemma2_to64_rest();
    match network {
        Network::V4 { address, prefix } => {
            let free = (32 - prefix) as nat;
            lemma_pow2_pos(free);
            lemma_pow2_adds(prefix as nat, free);
            assert(pow2(prefix as nat) * pow2(free) == 0x1_0000_0000);
            lemma_block_fits(address as int, pow2(free) as int, pow2(prefix as nat) as int);
        },
        Network::V6 { address, prefix } => {
            let free = (128 - prefix) as nat;
            lemma_pow2_pos(free);
            lemma_pow2_adds(prefix as nat, free);
            lemma_pow2_adds(64, 64);
            assert(pow2(128) == 0x1_0000_0000_0000_0000_0000_0000_0000_0000) by {
                assert(pow2(64) == 0x1_0000_0000_0000_0000);
                assert(0x1_0000_0000_0000_0000int * 0x1_0000_0000_0000_0000int
                    == 0x1_0000_0000_0000_0000_0000_0000_0000_0000int) by (nonlinear_arith);
            }
            lemma_block_fits(address as int, pow2(free) as int, pow2(prefix as nat) as int);
        },
    }
}

/// The rank of the address of index `i` in the walk through a network is
/// the rank of the first address and `i`.
pub proof fn lemma_nth_rank(network: Network, i: int)
    requires
        network.well_formed(),
        0 <= i < network.count(),
    ensures
        network.nth(i).rank() == network.nth(0).rank() + i,
{
    lemma_network_bounds(network);
}

/// The addresses of a network are a target set: the walk through a network
/// ascends, and gives no address twice.
pub proof fn law_network_addresses_are_a_target_set(network: Network)
    ensures
        is_target_set(network.addresses()),
{
    if network.well_formed() {
        let s = network.addresses();
        assert forall|i: int, j: int| 0 <= i < j < s.len() implies s[i].rank() < s[j].rank() by {
            lemma_nth_rank(network, i);
            lemma_nth_rank(network, j);
        }
    }
}

/// One entry that is a network resolves to the addresses of that network:
/// whatever target set holds the addresses that the entry gives is the walk
/// through the network itself.
pub proof fn law_network_resolves_to_its_addresses(
    entry: Seq<char>,
    network: Network,
    targets: Seq<TargetAddress>,
)
    requires
        network_of_text(entry) == Some(network),
        is_target_set(targets),
        same_members(targets, entries_addresses(all_entries(seq![entry], None))),
    ensures
        targets == network.addresses(),
{
    let entries = all_entries(seq![entry], None);
    assert(entries =~= seq![entry]);
    assert(entries.drop_last() =~= Seq::<Seq<char>>::empty());
    assert(entries.last() == entry);
    assert(entries_addresses(entries.drop_last()) =~= Seq::<TargetAddress>::empty());
    assert(entries_addresses(entries) =~= network.addresses());
    law_network_addresses_are_a_target_set(network);
    law_target_set_is_unique(targets, network.addresses());
}

/// An entry that is a network resolves, whatever the other entries are:
/// each of its addresses is among the addresses that the entries give.
pub proof fn law_valid_entries_resolve(
    entries: Seq<Seq<char>>,
    index: int,
    network: Network,
    address: TargetAddress,
)
    requires
        0 <= index < entries.len(),
        network_of_text(entries[index]) == Some(network),
        network.addresses().contains(address),
    ensures
        entries_addresses(entries).contains(address),
    decreases entries.len(),
{
    lemma_concat_contains(
        entries_addresses(entries.drop_last()),
        entry_addresses(entries.last()),
        address,
    );
    if index < entries.len() - 1 {
        assert(entries.drop_last()[index] == entries[index]);
        law_valid_entries_resolve(entries.drop_last(), index, network, address);
    }
}

/// An entry that is no network stops nothing and is reported: its
/// diagnostic is among the diagnostics of the entries, with the entry and
/// the reason for which it was refused.
pub proof fn law_malformed_entries_are_reported(entries: Seq<Seq<char>>, index: int)
    requires
        0 <= index < entries.len(),
        network_of_text(entries[index]) is None,
    ensures
        entries_diagnostics(entries).contains(
            SubnetParseErrorView { entry: entries[index], reason: refusal(entries[index]) },
        ),
    decreases entries.len(),
{
    let wanted = SubnetParseErrorView { entry: entries[index], reason: refusal(entries[index]) };
    let before = entries_diagnostics(entries.drop_last());
    if index < entries.len() - 1 {
        assert(entries.drop_last()[index] == entries[index]);
        law_malformed_entries_are_reported(entries.drop_last(), index);
        let k = choose|k: int| 0 <= k < before.len() && before[k] == wanted;
        if network_of_text(entries.last()) is None {
            let after = before.push(
                SubnetParseErrorView { entry: entries.last(), reason: refusal(entries.last()) },
            );
            assert(after[k] == wanted);
        }
    } else {
        let after = before.push(wanted);
        assert(after[before.len() as int] == wanted);
    }
}

/// Every address that the entries give is an address of one of the entries
/// that is a network: nothing else gets into the target set.
pub proof fn law_resolved_addresses_have_an_entry(
    entries: Seq<Seq<char>>,
    address: TargetAddress,
) -> (index: int)
    requires
        entries_addresses(entries).contains(address),
    ensures
        0 <= index < entries.len(),
        network_of_text(entries[index]) is Some,
        network_of_text(entries[index])->0.addresses().contains(address),
    decreases entries.len(),
{
    if entries.len() == 0 {
        assert(entries_addresses(entries) =~= Seq::<TargetAddress>::empty());
        let k = choose|k: int|
            0 <= k < entries_addresses(entries).len() && entries_addresses(entries)[k] == address;
        0
    } else {
        lemma_concat_contains(
            entries_addresses(entries.drop_last()),
            entry_addresses(entries.last()),
            address,
        );
        if entry_addresses(entries.last()).contains(address) {
            if network_of_text(entries.last()) is None {
                let none = Seq::<TargetAddress>::empty();
                let k = choose|k: int| 0 <= k < none.len() && none[k] == address;
            }
            entries.len() - 1
        } else {
            let index = law_resolved_addresses_have_an_entry(entries.drop_last(), address);
            assert(entries.drop_last()[index] == entries[index]);
            index
        }
    }
}

} // verus!
