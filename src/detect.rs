//! Network-context detectors. Each one turns what it observes into the next
//! PAC URL (the first matching rule's, else none) and pushes it to the
//! resolver only when it differs from what the detector pushed last.

use vstd::prelude::*;

use crate::error::ProxyError;
use crate::url::{copy_opt_string, opt_view};

verus! {

/// Selects a PAC URL by the default-route interface and its IPv4 addresses.
pub struct GatewayRule {
    /// A glob over the interface name (`*` any run, `?` one character).
    pub default_route_interface: String,
    /// An IPv4 CIDR that one of the interface's addresses must lie in.
    pub interface_ip_subnet: Option<String>,
    pub pac_url: String,
    pub when_match: Option<String>,
    pub when_no_match: Option<String>,
}

/// Selects a PAC URL by the first IPv4 name server.
pub struct ResolvConfRule {
    pub resolver_subnet: String,
    pub pac_url: String,
    pub when_match: Option<String>,
    pub when_no_match: Option<String>,
}

/// Selects a PAC URL when a beacon host name resolves.
pub struct PacRule {
    pub beacon_host: String,
    pub pac_url: String,
}

/// Whether `pattern` matches the whole of `text`, where `?` stands for
/// exactly one character, `*` for any run of characters (none included),
/// and every other character for itself.
pub open spec fn wildcard_match_of(pattern: Seq<char>, text: Seq<char>) -> bool
    decreases pattern.len() + text.len(),
{
    if pattern.len() == 0 {
        text.len() == 0
    } else if pattern[0] == '*' {
        wildcard_match_of(pattern.drop_first(), text) || (text.len() > 0 && wildcard_match_of(
            pattern,
            text.drop_first(),
        ))
    } else if text.len() > 0 && (pattern[0] == '?' || pattern[0] == text[0]) {
        wildcard_match_of(pattern.drop_first(), text.drop_first())
    } else {
        false
    }
}

/// Relies on `wildmatch::WildMatch::new` and `WildMatch::matches`, which the
/// crate documents as whole-text matching with `?` for one character and `*`
/// for any run, case-sensitive, without escapes.
#[verifier::external_body]
fn wildcard_matches(pattern: &str, text: &str) -> (r: bool)
    ensures
        r == wildcard_match_of(pattern@, text@),
{
    wildmatch::WildMatch::new(pattern).matches(text)
}

/// What `ipnet::Ipv4Net`'s `FromStr` makes of a text: the address as a
/// 32-bit number and the prefix length, or `None` where it refuses the text.
pub uninterp spec fn ipv4_net_of(s: Seq<char>) -> Option<(u32, u8)>;

/// Relies on `str::parse::<ipnet::Ipv4Net>`, `Ipv4Net::addr` and
/// `Ipv4Net::prefix_len`: the parser builds the network with `Ipv4Net::new`,
/// which refuses a prefix over 32.
#[verifier::external_body]
fn parse_ipv4_net(s: &str) -> (r: Option<(u32, u8)>)
    ensures
        r == ipv4_net_of(s@),
        r matches Some((_, p)) ==> p <= 32,
{
    s.parse::<ipnet::Ipv4Net>().ok().map(|n| (u32::from(n.addr()), n.prefix_len()))
}

/// The network mask of a prefix length, as `Ipv4Net::netmask` computes it.
pub open spec fn netmask(prefix: u8) -> u32 {
    if prefix == 0 {
        0
    } else {
        (0xffff_ffffu32 << ((32 - prefix) as u32)) as u32
    }
}

/// The host mask of a prefix length, as `Ipv4Net::hostmask` computes it.
pub open spec fn hostmask(prefix: u8) -> u32 {
    if prefix >= 32 {
        0
    } else {
        (0xffff_ffffu32 >> (prefix as u32)) as u32
    }
}

/// Whether `ip` lies in the network `addr/prefix`: between its network and
/// broadcast addresses.
pub open spec fn in_subnet(addr: u32, prefix: u8, ip: u32) -> bool {
    (addr & netmask(prefix)) <= ip && ip <= (addr | hostmask(prefix))
}

/// Relies on `ipnet::Ipv4Net::new` and `Ipv4Net::contains` for an address:
/// `network() <= ip && ip <= broadcast()`.
#[verifier::external_body]
fn subnet_contains(addr: u32, prefix: u8, ip: u32) -> (r: bool)
    requires
        prefix <= 32,
    ensures
        r == in_subnet(addr, prefix, ip),
{
    match ipnet::Ipv4Net::new(core::net::Ipv4Addr::from(addr), prefix) {
        Ok(net) => net.contains(&core::net::Ipv4Addr::from(ip)),
        Err(_) => false,
    }
}

/// Whether some address of `ips` lies in `addr/prefix`.
pub open spec fn any_in_subnet(addr: u32, prefix: u8, ips: Seq<u32>) -> bool {
    exists|i: int| 0 <= i < ips.len() && in_subnet(addr, prefix, #[trigger] ips[i])
}

fn any_address_in(addr: u32, prefix: u8, ips: &Vec<u32>) -> (r: bool)
    requires
        prefix <= 32,
    ensures
        r == any_in_subnet(addr, prefix, ips@),
{
    let mut i: usize = 0;
    while i < ips.len()
        invariant
            prefix <= 32,
            i <= ips@.len(),
            forall|j: int| 0 <= j < i ==> !in_subnet(addr, prefix, #[trigger] ips@[j]),
        decreases ips@.len() - i,
    {
        if subnet_contains(addr, prefix, ips[i]) {
            return true;
        }
        i += 1;
    }
    false
}

/// Whether a gateway rule matches: `None` where its subnet text is not a CIDR.
pub open spec fn gateway_rule_matches(rule: GatewayRule, iface: Seq<char>, ips: Seq<u32>) -> Option<
    bool,
> {
    let name_ok = wildcard_match_of(rule.default_route_interface@, iface);
    match rule.interface_ip_subnet {
        None => Some(name_ok),
        Some(t) => match ipv4_net_of(t@) {
            None => None,
            Some((a, p)) => Some(name_ok && any_in_subnet(a, p, ips)),
        },
    }
}

/// Whether a resolv.conf rule matches the first IPv4 name server: `None`
/// where its subnet text is not a CIDR.
pub open spec fn resolv_rule_matches(rule: ResolvConfRule, nameserver: u32) -> Option<bool> {
    match ipv4_net_of(rule.resolver_subnet@) {
        None => None,
        Some((a, p)) => Some(in_subnet(a, p, nameserver)),
    }
}

/// Whether `r` is what the first-match-wins order gives for these verdicts:
/// `Ok(Some(k))` for the first matching rule, `Ok(None)` when none matches,
/// `Err` when a malformed rule comes before any match.
pub open spec fn first_match(verdicts: Seq<Option<bool>>, r: Result<Option<usize>, ProxyError>) -> bool {
    match r {
        Ok(Some(k)) => k < verdicts.len() && verdicts[k as int] == Some(true) && forall|j: int|
            0 <= j < k ==> #[trigger] verdicts[j] == Some(false),
        Ok(None) => forall|j: int| 0 <= j < verdicts.len() ==> #[trigger] verdicts[j] == Some(false),
        Err(e) => (e is ResolutionFailed) && exists|k: int|
            0 <= k < verdicts.len() && verdicts[k] is None && forall|j: int|
                0 <= j < k ==> #[trigger] verdicts[j] == Some(false),
    }
}

pub open spec fn gateway_verdicts(rules: Seq<GatewayRule>, iface: Seq<char>, ips: Seq<u32>) -> Seq<
    Option<bool>,
> {
    Seq::new(rules.len(), |i: int| gateway_rule_matches(rules[i], iface, ips))
}

pub open spec fn resolv_verdicts(rules: Seq<ResolvConfRule>, nameservers: Seq<u32>) -> Seq<
    Option<bool>,
> {
    Seq::new(
        rules.len(),
        |i: int|
            if nameservers.len() == 0 {
                Some(false)
            } else {
                resolv_rule_matches(rules[i], nameservers[0])
            },
    )
}

pub open spec fn beacon_verdicts(resolvable: Seq<bool>) -> Seq<Option<bool>> {
    Seq::new(resolvable.len(), |i: int| Some(resolvable[i]))
}

/// The first gateway rule that matches the interface and its addresses.
pub fn select_gateway_rule(rules: &Vec<GatewayRule>, iface: &str, ips: &Vec<u32>) -> (r: Result<
    Option<usize>,
    ProxyError,
>)
    ensures
        first_match(gateway_verdicts(rules@, iface@, ips@), r),
{
    let ghost v = gateway_verdicts(rules@, iface@, ips@);
    let mut i: usize = 0;
    while i < rules.len()
        invariant
            i <= rules@.len(),
            v == gateway_verdicts(rules@, iface@, ips@),
            forall|j: int| 0 <= j < i ==> #[trigger] v[j] == Some(false),
        decreases rules@.len() - i,
    {
        let rule = &rules[i];
        let name_ok = wildcard_matches(rule.default_route_interface.as_str(), iface);
        let ok = match &rule.interface_ip_subnet {
            None => name_ok,
            Some(t) => match parse_ipv4_net(t.as_str()) {
                None => {
                    assert(v[i as int] is None);
                    return Err(ProxyError::ResolutionFailed(String::from_str("Invalid IP subnet")));
                },
                Some((a, p)) => name_ok && any_address_in(a, p, ips),
            },
        };
        assert(v[i as int] == Some(ok));
        if ok {
            return Ok(Some(i));
        }
        i += 1;
    }
    Ok(None)
}

/// The first resolv.conf rule whose subnet holds the first IPv4 name server.
pub fn select_resolv_rule(rules: &Vec<ResolvConfRule>, nameservers: &Vec<u32>) -> (r: Result<
    Option<usize>,
    ProxyError,
>)
    ensures
        first_match(resolv_verdicts(rules@, nameservers@), r),
{
    let ghost v = resolv_verdicts(rules@, nameservers@);
    if nameservers.len() == 0 {
        assert(forall|j: int| 0 <= j < v.len() ==> #[trigger] v[j] == Some(false));
        return Ok(None);
    }
    let first = nameservers[0];
    let mut i: usize = 0;
    while i < rules.len()
        invariant
            i <= rules@.len(),
            nameservers@.len() > 0,
            first == nameservers@[0],
            v == resolv_verdicts(rules@, nameservers@),
            forall|j: int| 0 <= j < i ==> #[trigger] v[j] == Some(false),
        decreases rules@.len() - i,
    {
        match parse_ipv4_net(rules[i].resolver_subnet.as_str()) {
            None => {
                assert(v[i as int] is None);
                return Err(ProxyError::ResolutionFailed(String::from_str("Invalid subnet")));
            },
            Some((a, p)) => {
                let ok = subnet_contains(a, p, first);
                assert(v[i as int] == Some(ok));
                if ok {
                    return Ok(Some(i));
                }
            },
        }
        i += 1;
    }
    Ok(None)
}

/// The first beacon rule whose host resolves.
pub fn select_beacon_rule(resolvable: &Vec<bool>) -> (r: Option<usize>)
    ensures
        first_match(beacon_verdicts(resolvable@), Ok::<Option<usize>, ProxyError>(r)),
{
    let ghost v = beacon_verdicts(resolvable@);
    let mut i: usize = 0;
    while i < resolvable.len()
        invariant
            i <= resolvable@.len(),
            v == beacon_verdicts(resolvable@),
            forall|j: int| 0 <= j < i ==> #[trigger] v[j] == Some(false),
        decreases resolvable@.len() - i,
    {
        assert(v[i as int] == Some(resolvable@[i as int]));
        if resolvable[i] {
            return Some(i);
        }
        i += 1;
    }
    None
}

/// What a detector asks for after one observation.
pub enum DetectorAction {
    /// The next PAC URL is the one pushed last: nothing to do.
    Unchanged,
    /// Push this PAC URL to the resolver, then run these shell commands.
    Push { pac_url: Option<String>, commands: Vec<String> },
}

/// What a detector remembers: the PAC URL it pushed last, if it pushed yet.
pub struct DetectorState {
    last_pushed: Option<Option<String>>,
}

pub open spec fn opt_opt_view(v: Option<Option<String>>) -> Option<Option<Seq<char>>> {
    match v {
        Some(u) => Some(opt_view(u)),
        None => None,
    }
}

/// Whether a detector that last pushed `last` must push `next`: always on
/// its first observation, and afterwards only on a change.
pub open spec fn needs_push(last: Option<Option<Seq<char>>>, next: Option<Seq<char>>) -> bool {
    last != Some(next)
}

fn same_opt_string(a: &Option<String>, b: &Option<String>) -> (r: bool)
    ensures
        r == (opt_view(*a) == opt_view(*b)),
{
    match (a, b) {
        (Some(x), Some(y)) => *x == *y,
        (None, None) => true,
        _ => false,
    }
}

impl DetectorState {
    pub closed spec fn pushed(&self) -> Option<Option<Seq<char>>> {
        opt_opt_view(self.last_pushed)
    }

    /// A detector that has pushed nothing yet.
    pub fn new() -> (r: Self)
        ensures
            r.pushed() is None,
    {
        DetectorState { last_pushed: None }
    }

    /// Records `next` as the current PAC URL; true when it must be pushed.
    pub fn observe(&mut self, next: &Option<String>) -> (r: bool)
        ensures
            r == needs_push(old(self).pushed(), opt_view(*next)),
            final(self).pushed() == Some(opt_view(*next)),
    {
        let changed = match &self.last_pushed {
            None => true,
            Some(last) => !same_opt_string(last, next),
        };
        self.last_pushed = Some(copy_opt_string(next));
        changed
    }
}

/// The texts of the strings `v`, in order.
pub open spec fn texts(v: Seq<String>) -> Seq<Seq<char>> {
    v.map_values(|s: String| s@)
}

/// One observation's effect: the detector now remembers `next`, and asks
/// for a push of `next` with `commands` exactly when `next` needs pushing.
pub open spec fn detector_step(
    before: Option<Option<Seq<char>>>,
    after: Option<Option<Seq<char>>>,
    next: Option<Seq<char>>,
    commands: Seq<Seq<char>>,
    r: DetectorAction,
) -> bool {
    &&& after == Some(next)
    &&& if needs_push(before, next) {
        r matches DetectorAction::Push { pac_url, commands: c } && opt_view(pac_url) == next
            && texts(c@) == commands
    } else {
        r is Unchanged
    }
}

fn step(state: &mut DetectorState, next: Option<String>, commands: Vec<String>) -> (r: DetectorAction)
    ensures
        detector_step(old(state).pushed(), final(state).pushed(), opt_view(next), texts(commands@), r),
{
    if state.observe(&next) {
        DetectorAction::Push { pac_url: next, commands }
    } else {
        DetectorAction::Unchanged
    }
}

pub open spec fn one_command(c: Option<String>) -> Seq<Seq<char>> {
    match c {
        Some(t) => seq![t@],
        None => Seq::<Seq<char>>::empty(),
    }
}

/// Every gateway rule's `when_no_match` command, in order.
pub open spec fn gateway_no_match_commands(rules: Seq<GatewayRule>) -> Seq<Seq<char>>
    decreases rules.len(),
{
    if rules.len() == 0 {
        Seq::<Seq<char>>::empty()
    } else {
        gateway_no_match_commands(rules.drop_last()) + one_command(rules.last().when_no_match)
    }
}

/// Every resolv.conf rule's `when_no_match` command, in order.
pub open spec fn resolv_no_match_commands(rules: Seq<ResolvConfRule>) -> Seq<Seq<char>>
    decreases rules.len(),
{
    if rules.len() == 0 {
        Seq::<Seq<char>>::empty()
    } else {
        resolv_no_match_commands(rules.drop_last()) + one_command(rules.last().when_no_match)
    }
}

fn one_command_of(c: &Option<String>) -> (r: Vec<String>)
    ensures
        texts(r@) == one_command(*c),
{
    let mut r: Vec<String> = Vec::new();
    match c {
        Some(t) => {
            r.push(t.clone());
        },
        None => {},
    }
    assert(texts(r@) =~= one_command(*c));
    r
}

fn append_command(r: &mut Vec<String>, c: &Option<String>)
    ensures
        texts(final(r)@) == texts(old(r)@) + one_command(*c),
{
    match c {
        Some(t) => {
            r.push(t.clone());
        },
        None => {},
    }
    assert(texts(r@) =~= texts(old(r)@) + one_command(*c));
}

/// Watches the default-route interface.
pub struct GatewayListener {
    pub rules: Vec<GatewayRule>,
    pub state: DetectorState,
}

pub open spec fn gateway_url(rules: Seq<GatewayRule>, selected: Option<usize>) -> Option<Seq<char>> {
    match selected {
        Some(k) => Some(rules[k as int].pac_url@),
        None => None,
    }
}

pub open spec fn gateway_commands(rules: Seq<GatewayRule>, selected: Option<usize>) -> Seq<Seq<char>> {
    match selected {
        Some(k) => one_command(rules[k as int].when_match),
        None => gateway_no_match_commands(rules),
    }
}

impl GatewayListener {
    pub fn new(rules: Vec<GatewayRule>) -> (r: Self)
        ensures
            r.rules == rules,
            r.state.pushed() is None,
    {
        GatewayListener { rules, state: DetectorState::new() }
    }

    /// One observation: the default-route interface's name and its IPv4
    /// addresses. A rule whose subnet is not a CIDR stops the scan with
    /// `ResolutionFailed`, and nothing is remembered.
    pub fn refresh(&mut self, iface: &str, ips: &Vec<u32>) -> (r: Result<DetectorAction, ProxyError>)
        ensures
            final(self).rules == old(self).rules,
            r matches Err(e) ==> first_match(
                gateway_verdicts(old(self).rules@, iface@, ips@),
                Err::<Option<usize>, ProxyError>(e),
            ) && final(self).state.pushed() == old(self).state.pushed(),
            r matches Ok(a) ==> exists|selected: Option<usize>|
                #[trigger] first_match(
                    gateway_verdicts(old(self).rules@, iface@, ips@),
                    Ok::<Option<usize>, ProxyError>(selected),
                ) && detector_step(
                    old(self).state.pushed(),
                    final(self).state.pushed(),
                    gateway_url(old(self).rules@, selected),
                    gateway_commands(old(self).rules@, selected),
                    a,
                ),
    {
        let selected = match select_gateway_rule(&self.rules, iface, ips) {
            Ok(s) => s,
            Err(e) => {
                return Err(e);
            },
        };
        let (next, commands) = match selected {
            Some(k) => (Some(self.rules[k].pac_url.clone()), one_command_of(&self.rules[k].when_match)),
            None => {
                let mut cmds: Vec<String> = Vec::new();
                let mut i: usize = 0;
                while i < self.rules.len()
                    invariant
                        i <= self.rules@.len(),
                        texts(cmds@) == gateway_no_match_commands(self.rules@.take(i as int)),
                    decreases self.rules@.len() - i,
                {
                    assert(self.rules@.take(i + 1).drop_last() =~= self.rules@.take(i as int));
                    append_command(&mut cmds, &self.rules[i].when_no_match);
                    i += 1;
                }
                assert(self.rules@.take(i as int) =~= self.rules@);
                (None, cmds)
            },
        };
        let action = step(&mut self.state, next, commands);
        assert(first_match(
            gateway_verdicts(old(self).rules@, iface@, ips@),
            Ok::<Option<usize>, ProxyError>(selected),
        ));
        Ok(action)
    }
}

/// Watches the system resolver configuration.
pub struct ResolvConfListener {
    pub rules: Vec<ResolvConfRule>,
    pub state: DetectorState,
}

pub open spec fn resolv_url(rules: Seq<ResolvConfRule>, selected: Option<usize>) -> Option<Seq<char>> {
    match selected {
        Some(k) => Some(rules[k as int].pac_url@),
        None => None,
    }
}

pub open spec fn resolv_commands(rules: Seq<ResolvConfRule>, selected: Option<usize>) -> Seq<Seq<char>> {
    match selected {
        Some(k) => one_command(rules[k as int].when_match),
        None => resolv_no_match_commands(rules),
    }
}

impl ResolvConfListener {
    pub fn new(rules: Vec<ResolvConfRule>) -> (r: Self)
        ensures
            r.rules == rules,
            r.state.pushed() is None,
    {
        ResolvConfListener { rules, state: DetectorState::new() }
    }

    /// One observation: the IPv4 name servers, in configuration order
    /// (IPv6 ones left out). A rule whose subnet is not a CIDR stops the scan
    /// with `ResolutionFailed`, and nothing is remembered.
    pub fn refresh(&mut self, nameservers: &Vec<u32>) -> (r: Result<DetectorAction, ProxyError>)
        ensures
            final(self).rules == old(self).rules,
            r matches Err(e) ==> first_match(
                resolv_verdicts(old(self).rules@, nameservers@),
                Err::<Option<usize>, ProxyError>(e),
            ) && final(self).state.pushed() == old(self).state.pushed(),
            r matches Ok(a) ==> exists|selected: Option<usize>|
                #[trigger] first_match(
                    resolv_verdicts(old(self).rules@, nameservers@),
                    Ok::<Option<usize>, ProxyError>(selected),
                ) && detector_step(
                    old(self).state.pushed(),
                    final(self).state.pushed(),
                    resolv_url(old(self).rules@, selected),
                    resolv_commands(old(self).rules@, selected),
                    a,
                ),
    {
        let selected = match select_resolv_rule(&self.rules, nameservers) {
            Ok(s) => s,
            Err(e) => {
                return Err(e);
            },
        };
        let (next, commands) = match selected {
            Some(k) => (Some(self.rules[k].pac_url.clone()), one_command_of(&self.rules[k].when_match)),
            None => {
                let mut cmds: Vec<String> = Vec::new();
                let mut i: usize = 0;
                while i < self.rules.len()
                    invariant
                        i <= self.rules@.len(),
                        texts(cmds@) == resolv_no_match_commands(self.rules@.take(i as int)),
                    decreases self.rules@.len() - i,
                {
                    assert(self.rules@.take(i + 1).drop_last() =~= self.rules@.take(i as int));
                    append_command(&mut cmds, &self.rules[i].when_no_match);
                    i += 1;
                }
                assert(self.rules@.take(i as int) =~= self.rules@);
                (None, cmds)
            },
        };
        let action = step(&mut self.state, next, commands);
        assert(first_match(
            resolv_verdicts(old(self).rules@, nameservers@),
            Ok::<Option<usize>, ProxyError>(selected),
        ));
        Ok(action)
    }
}

/// Polls beacon host names.
pub struct BeaconPoller {
    pub rules: Vec<PacRule>,
    pub state: DetectorState,
}

pub open spec fn beacon_url(rules: Seq<PacRule>, selected: Option<usize>) -> Option<Seq<char>> {
    match selected {
        Some(k) => Some(rules[k as int].pac_url@),
        None => None,
    }
}

impl BeaconPoller {
    pub fn new(rules: Vec<PacRule>) -> (r: Self)
        ensures
            r.rules == rules,
            r.state.pushed() is None,
    {
        BeaconPoller { rules, state: DetectorState::new() }
    }

    /// One observation: for each rule, in order, whether its beacon host resolved.
    pub fn refresh(&mut self, resolvable: &Vec<bool>) -> (r: DetectorAction)
        requires
            resolvable@.len() == old(self).rules@.len(),
        ensures
            final(self).rules == old(self).rules,
            exists|selected: Option<usize>|
                #[trigger] first_match(
                    beacon_verdicts(resolvable@),
                    Ok::<Option<usize>, ProxyError>(selected),
                ) && detector_step(
                    old(self).state.pushed(),
                    final(self).state.pushed(),
                    beacon_url(old(self).rules@, selected),
                    Seq::<Seq<char>>::empty(),
                    r,
                ),
    {
        let selected = select_beacon_rule(resolvable);
        let next = match selected {
            Some(k) => Some(self.rules[k].pac_url.clone()),
            None => None,
        };
        let commands: Vec<String> = Vec::new();
        assert(texts(commands@) =~= Seq::<Seq<char>>::empty());
        let action = step(&mut self.state, next, commands);
        assert(first_match(beacon_verdicts(resolvable@), Ok::<Option<usize>, ProxyError>(selected)));
        action
    }
}

/// Pushing the value pushed last is never asked for again: a detector that
/// observes the same PAC URL twice in a row pushes it at most once.
pub proof fn lemma_repeat_needs_no_push(next: Option<Seq<char>>)
    ensures
        !needs_push(Some(next), next),
{
}

} // verus!
