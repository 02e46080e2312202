//! Trusted-proxy aware resolution of a request's client address.
//!
//! The address of the transport peer is what was physically observed. A
//! header or the standard forwarding chain may name another address, and is
//! believed only where the peer is in the list of trusted proxies.

use crate::addr::{ip_of_text, parse_ip, IpAddr};
use crate::error::ErrorKind;
use crate::range::{cidr_from_str, cidr_of_text, IpCidr};
use crate::text::{
    chars_of, split, split_chars, string_from_chars, string_texts, texts, trim,
    trim_chars,
};
use vstd::prelude::*;

verus! {

/// What the resolver is configured with. It is built once and only read
/// afterwards: the fields are private and no method changes them. Every
/// range of its list of trusted proxies is well formed.
#[derive(Debug)]
pub struct ProxyConfig {
    trusted_proxies: Vec<IpCidr>,
    peer_ip_header_name: Option<String>,
    proxy_mode: bool,
}

/// What the resolver reads of one request.
#[derive(Debug)]
pub struct RequestInfo {
    /// The address of the transport peer, as the connection reports it.
    pub peer_addr: Option<String>,
    /// The value that the request carries under the configured override
    /// header, if it carries one that is readable as text.
    pub peer_ip_header: Option<String>,
    /// The client address that the transport's own reading of the standard
    /// forwarding headers arrives at.
    pub realip_remote_addr: Option<String>,
}

/// What reading a trusted-proxy configuration gives.
#[derive(Debug)]
pub struct TrustedProxies {
    /// The ranges that the configuration names, in its order.
    pub ranges: Vec<IpCidr>,
    /// The entries that do not read as a range, trimmed, in its order.
    pub rejected: Vec<String>,
}

/// The text of an optional string.
pub open spec fn text_of(value: Option<String>) -> Option<Seq<char>> {
    match value {
        Some(s) => Some(s@),
        None => None,
    }
}

/// The range that one line of the trusted-proxy configuration contributes:
/// none for a blank line, else what the trimmed line reads as.
pub open spec fn trusted_entry(line: Seq<char>) -> Option<IpCidr> {
    let entry = trim(line);
    if entry.len() == 0 {
        None
    } else {
        cidr_of_text(entry)
    }
}

/// The ranges that the given lines contribute, in order.
pub open spec fn trusted_ranges_of_lines(lines: Seq<Seq<char>>) -> Seq<IpCidr> {
    lines.filter_map(|line: Seq<char>| trusted_entry(line))
}

/// The ranges that a trusted-proxy configuration denotes: one per line,
/// blank lines ignored, lines that do not read as a range left out.
pub open spec fn trusted_ranges(raw: Seq<char>) -> Seq<IpCidr> {
    trusted_ranges_of_lines(split(raw, '\n'))
}

/// The entry that one line of the trusted-proxy configuration is rejected
/// with: the trimmed line, where it is not blank and does not read as a range.
pub open spec fn rejected_entry(line: Seq<char>) -> Option<Seq<char>> {
    let entry = trim(line);
    if entry.len() > 0 && cidr_of_text(entry) is None {
        Some(entry)
    } else {
        None
    }
}

/// The entries of the given lines that are rejected, in order.
pub open spec fn rejected_entries_of_lines(lines: Seq<Seq<char>>) -> Seq<Seq<char>> {
    lines.filter_map(|line: Seq<char>| rejected_entry(line))
}

/// The entries of a trusted-proxy configuration that do not read as a range.
pub open spec fn rejected_entries(raw: Seq<char>) -> Seq<Seq<char>> {
    rejected_entries_of_lines(split(raw, '\n'))
}

/// Every range of the list is well formed.
pub open spec fn all_wf(trusted: Seq<IpCidr>) -> bool {
    forall|i: int| 0 <= i < trusted.len() ==> (#[trigger] trusted[i]).wf()
}

/// Whether some range of the list contains `ip`.
pub open spec fn is_trusted(trusted: Seq<IpCidr>, ip: IpAddr) -> bool {
    exists|i: int| 0 <= i < trusted.len() && (#[trigger] trusted[i]).spec_contains(ip)
}

/// Whether `ip` lies between the first and the last address of some range
/// of the list, of its own family.
pub open spec fn in_a_range(trusted: Seq<IpCidr>, ip: IpAddr) -> bool {
    exists|i: int| 0 <= i < trusted.len() && (#[trigger] trusted[i]).in_range(ip)
}

/// The address of the transport peer, or why there is none.
pub open spec fn peer_address(peer_addr: Option<Seq<char>>) -> Result<IpAddr, ErrorKind> {
    match peer_addr {
        None => Err(ErrorKind::MissingPeerAddress),
        Some(text) => match ip_of_text(text) {
            Some(ip) => Ok(ip),
            None => Err(ErrorKind::MalformedPeerAddress),
        },
    }
}

/// The address that the standard forwarding mechanism arrived at; the
/// request is malformed where it gives nothing that reads as an address.
pub open spec fn forwarded_address(addr: Option<Seq<char>>) -> Result<IpAddr, ErrorKind> {
    match addr {
        None => Err(ErrorKind::MalformedPeerAddress),
        Some(text) => match ip_of_text(text) {
            Some(ip) => Ok(ip),
            None => Err(ErrorKind::MalformedPeerAddress),
        },
    }
}

/// The address that the override header names: there is one where a header
/// name is configured, the request carries a value under it, and the value
/// is an IP literal.
pub open spec fn header_override(header_configured: bool, header: Option<Seq<char>>) -> Option<
    IpAddr,
> {
    if header_configured {
        match header {
            Some(text) => ip_of_text(text),
            None => None,
        }
    } else {
        None
    }
}

/// The client address of a request. The peer address must be there and read
/// as an address. Then an override header decides, if there is one; else
/// the forwarding mechanism, if the service is in proxy mode; else the peer
/// address itself. Whatever replaces the peer address is accepted only from
/// a trusted peer.
pub open spec fn resolved_ip(config: ProxyConfig, req: RequestInfo) -> Result<IpAddr, ErrorKind> {
    match peer_address(text_of(req.peer_addr)) {
        Err(kind) => Err(kind),
        Ok(peer) => match config.spec_header_override(req) {
            Some(ip) => if is_trusted(config.spec_trusted_proxies(), peer) {
                Ok(ip)
            } else {
                Err(ErrorKind::UntrustedProxy)
            },
            None => if config.spec_proxy_mode() {
                if is_trusted(config.spec_trusted_proxies(), peer) {
                    forwarded_address(text_of(req.realip_remote_addr))
                } else {
                    Err(ErrorKind::UntrustedProxy)
                }
            } else {
                Ok(peer)
            },
        },
    }
}

/// A peer is trusted exactly if it lies in one of the ranges: for each range
/// of its family, from the first address to the last, both included, and
/// nowhere else.
pub proof fn lemma_trusted_iff_in_a_range(trusted: Seq<IpCidr>, ip: IpAddr)
    requires
        all_wf(trusted),
    ensures
        is_trusted(trusted, ip) <==> in_a_range(trusted, ip),
{
    if is_trusted(trusted, ip) {
        let i = choose|i: int| 0 <= i < trusted.len() && (#[trigger] trusted[i]).spec_contains(ip);
        trusted[i].lemma_contains_iff_in_range(ip);
        assert(trusted[i].in_range(ip));
    }
    if in_a_range(trusted, ip) {
        let i = choose|i: int| 0 <= i < trusted.len() && (#[trigger] trusted[i]).in_range(ip);
        trusted[i].lemma_contains_iff_in_range(ip);
        assert(trusted[i].spec_contains(ip));
    }
}

/// Without an override header and outside proxy mode the request resolves to
/// its peer address, whatever the list of trusted proxies holds.
pub proof fn lemma_direct_peer_is_kept(config: ProxyConfig, req: RequestInfo)
    requires
        config.spec_header_override(req) is None,
        !config.spec_proxy_mode(),
    ensures
        resolved_ip(config, req) == peer_address(text_of(req.peer_addr)),
        forall|peer: IpAddr|
            peer_address(text_of(req.peer_addr)) == Ok::<IpAddr, ErrorKind>(peer) ==> resolved_ip(
                config,
                req,
            ) == Ok::<IpAddr, ErrorKind>(peer),
{
}

/// An override header from a peer that is not trusted is rejected, however
/// well formed the address it names.
pub proof fn lemma_untrusted_override_is_rejected(config: ProxyConfig, req: RequestInfo, peer: IpAddr)
    requires
        config.spec_header_override(req) is Some,
        peer_address(text_of(req.peer_addr)) == Ok::<IpAddr, ErrorKind>(peer),
        !is_trusted(config.spec_trusted_proxies(), peer),
    ensures
        resolved_ip(config, req) == Err::<IpAddr, ErrorKind>(ErrorKind::UntrustedProxy),
{
}

/// An override header from a trusted peer decides: the request resolves to
/// the address it names, whatever the peer address, the mode and the
/// forwarding mechanism say.
pub proof fn lemma_trusted_override_decides(
    config: ProxyConfig,
    req: RequestInfo,
    peer: IpAddr,
    ip: IpAddr,
)
    requires
        config.spec_header_override(req) == Some(ip),
        peer_address(text_of(req.peer_addr)) == Ok::<IpAddr, ErrorKind>(peer),
        is_trusted(config.spec_trusted_proxies(), peer),
    ensures
        resolved_ip(config, req) == Ok::<IpAddr, ErrorKind>(ip),
{
}

/// Files one entry of the configuration by what it was read as: a range
/// goes to the list of ranges, an entry that gave none to the rejected ones.
pub fn keep_parsed(proxies: &mut TrustedProxies, entry: String, parsed: Option<IpCidr>)
    ensures
        final(proxies).ranges@ == match parsed {
            Some(range) => old(proxies).ranges@.push(range),
            None => old(proxies).ranges@,
        },
        final(proxies).rejected@ == match parsed {
            Some(range) => old(proxies).rejected@,
            None => old(proxies).rejected@.push(entry),
        },
{
    match parsed {
        Some(range) => {
            proxies.ranges.push(range);
        },
        None => {
            proxies.rejected.push(entry);
        },
    }
}

/// Reads a trusted-proxy configuration: one range per line. Blank lines are
/// ignored. A line that does not read as a range is set aside without giving
/// up the rest.
pub fn read_trusted_proxies(raw: &str) -> (proxies: TrustedProxies)
    ensures
        proxies.ranges@ == trusted_ranges(raw@),
        all_wf(proxies.ranges@),
        string_texts(proxies.rejected@) == rejected_entries(raw@),
{
    let chars = chars_of(raw);
    let lines = split_chars(&chars, '\n');
    let mut proxies = TrustedProxies { ranges: Vec::new(), rejected: Vec::new() };
    let mut n: usize = 0;
    proof {
        assert(string_texts(proxies.rejected@) == Seq::<Seq<char>>::empty());
    }
    while n < lines.len()
        invariant
            n <= lines.len(),
            proxies.ranges@ == trusted_ranges_of_lines(texts(lines@).take(n as int)),
            all_wf(proxies.ranges@),
            string_texts(proxies.rejected@) == rejected_entries_of_lines(
                texts(lines@).take(n as int),
            ),
        decreases lines.len() - n,
    {
        proof {
            let upto = texts(lines@).take(n + 1);
            assert(upto.drop_last() == texts(lines@).take(n as int));
            assert(upto.last() == lines@[n as int]@);
        }
        let entry = trim_chars(&lines[n]);
        if entry.len() > 0 {
            let text = string_from_chars(entry);
            let parsed = cidr_from_str(text.as_str());
            let ghost rejected = string_texts(proxies.rejected@);
            keep_parsed(&mut proxies, text, parsed);
            proof {
                if parsed is None {
                    assert(string_texts(proxies.rejected@) == rejected.push(text@));
                }
            }
        }
        n += 1;
    }
    proof {
        assert(texts(lines@).take(lines.len() as int) == texts(lines@));
    }
    proxies
}

/// Reads the list of trusted proxies from its configuration text: one range
/// per line. Blank lines are ignored, and a line that does not read as a
/// range is left out without giving up the rest.
pub fn build_trusted_proxies(raw: &str) -> (proxies: Vec<IpCidr>)
    ensures
        proxies@ == trusted_ranges(raw@),
        all_wf(proxies@),
{
    read_trusted_proxies(raw).ranges
}

impl ProxyConfig {
    #[verifier::type_invariant]
    spec fn ranges_are_well_formed(self) -> bool {
        all_wf(self.trusted_proxies@)
    }

    /// The ranges whose members may name another client address.
    pub closed spec fn spec_trusted_proxies(self) -> Seq<IpCidr> {
        self.trusted_proxies@
    }

    /// The name of the header that carries an overriding client address, if
    /// one is configured.
    pub closed spec fn spec_peer_ip_header_name(self) -> Option<Seq<char>> {
        text_of(self.peer_ip_header_name)
    }

    /// Whether the service sits behind a proxy that speaks the standard
    /// forwarding headers.
    pub closed spec fn spec_proxy_mode(self) -> bool {
        self.proxy_mode
    }

    /// The address that the override header of `req` names under this
    /// configuration.
    pub open spec fn spec_header_override(self, req: RequestInfo) -> Option<IpAddr> {
        header_override(self.spec_peer_ip_header_name() is Some, text_of(req.peer_ip_header))
    }

    /// Builds the configuration from the text of the trusted-proxy list, the
    /// override header's name and the mode flag.
    pub fn new(trusted_proxies: &str, peer_ip_header_name: Option<String>, proxy_mode: bool) -> (config:
        ProxyConfig)
        ensures
            config.spec_trusted_proxies() == trusted_ranges(trusted_proxies@),
            config.spec_peer_ip_header_name() == text_of(peer_ip_header_name),
            config.spec_proxy_mode() == proxy_mode,
    {
        ProxyConfig {
            trusted_proxies: build_trusted_proxies(trusted_proxies),
            peer_ip_header_name,
            proxy_mode,
        }
    }

    /// The ranges whose members may name another client address.
    pub fn trusted_proxies(&self) -> (trusted: &Vec<IpCidr>)
        ensures
            trusted@ == self.spec_trusted_proxies(),
            all_wf(trusted@),
    {
        proof {
            use_type_invariant(self);
        }
        &self.trusted_proxies
    }

    /// The name of the header that carries an overriding client address, if
    /// one is configured.
    pub fn peer_ip_header_name(&self) -> (name: &Option<String>)
        ensures
            text_of(*name) == self.spec_peer_ip_header_name(),
    {
        &self.peer_ip_header_name
    }

    /// Whether the service sits behind a proxy that speaks the standard
    /// forwarding headers.
    pub fn proxy_mode(&self) -> (mode: bool)
        ensures
            mode == self.spec_proxy_mode(),
    {
        self.proxy_mode
    }
}

/// Passes if `peer_ip` is in one of the trusted ranges, that is, if it lies
/// between the first and the last address of one of them.
pub fn check_trusted_proxy(config: &ProxyConfig, peer_ip: &IpAddr) -> (r: Result<(), ErrorKind>)
    ensures
        r is Ok <==> is_trusted(config.spec_trusted_proxies(), *peer_ip),
        r is Ok <==> in_a_range(config.spec_trusted_proxies(), *peer_ip),
        r is Err ==> r == Err::<(), ErrorKind>(ErrorKind::UntrustedProxy),
{
    let trusted = config.trusted_proxies();
    proof {
        lemma_trusted_iff_in_a_range(trusted@, *peer_ip);
    }
    let mut i: usize = 0;
    while i < trusted.len()
        invariant
            i <= trusted.len(),
            trusted@ == config.spec_trusted_proxies(),
            is_trusted(trusted@, *peer_ip) <==> in_a_range(trusted@, *peer_ip),
            forall|j: int| 0 <= j < i ==> !(#[trigger] trusted@[j]).spec_contains(*peer_ip),
        decreases trusted.len() - i,
    {
        if trusted[i].contains(peer_ip) {
            return Ok(());
        }
        i += 1;
    }
    Err(ErrorKind::UntrustedProxy)
}

/// Reads the address of the transport peer.
pub fn parse_peer_addr(peer_addr: Option<&str>) -> (r: Result<IpAddr, ErrorKind>)
    ensures
        r == peer_address(
            match peer_addr {
                Some(text) => Some(text@),
                None => None,
            },
        ),
{
    match peer_addr {
        None => Err(ErrorKind::MissingPeerAddress),
        Some(peer) => match parse_ip(peer) {
            Some(ip) => Ok(ip),
            None => Err(ErrorKind::MalformedPeerAddress),
        },
    }
}

/// Reads the address that the standard forwarding mechanism arrived at.
pub fn parse_forwarded_addr(addr: Option<&str>) -> (r: Result<IpAddr, ErrorKind>)
    ensures
        r == forwarded_address(
            match addr {
                Some(text) => Some(text@),
                None => None,
            },
        ),
{
    match addr {
        None => Err(ErrorKind::MalformedPeerAddress),
        Some(text) => match parse_ip(text) {
            Some(ip) => Ok(ip),
            None => Err(ErrorKind::MalformedPeerAddress),
        },
    }
}

/// The address that the override header names, if a header name is
/// configured and the request carries an IP literal under it. A value that is
/// absent or does not read as an address is passed over, not rejected.
pub fn ip_from_cust_header(config: &ProxyConfig, header: Option<&str>) -> (r: Option<IpAddr>)
    ensures
        r == header_override(
            config.spec_peer_ip_header_name() is Some,
            match header {
                Some(text) => Some(text@),
                None => None,
            },
        ),
{
    if config.peer_ip_header_name().is_some() {
        match header {
            Some(value) => parse_ip(value),
            None => None,
        }
    } else {
        None
    }
}

/// The text of an optional string, borrowed.
fn as_text(value: &Option<String>) -> (r: Option<&str>)
    ensures
        match r {
            Some(text) => Some(text@),
            None => None,
        } == text_of(*value),
{
    match value {
        Some(s) => Some(s.as_str()),
        None => None,
    }
}

/// Resolves the client address of a request.
pub fn real_ip_from_req(config: &ProxyConfig, req: &RequestInfo) -> (r: Result<IpAddr, ErrorKind>)
    ensures
        r == resolved_ip(*config, *req),
{
    let peer_ip = match parse_peer_addr(as_text(&req.peer_addr)) {
        Ok(ip) => ip,
        Err(kind) => {
            return Err(kind);
        },
    };
    match ip_from_cust_header(config, as_text(&req.peer_ip_header)) {
        Some(ip) => match check_trusted_proxy(config, &peer_ip) {
            Ok(()) => Ok(ip),
            Err(kind) => Err(kind),
        },
        None => if config.proxy_mode() {
            match check_trusted_proxy(config, &peer_ip) {
                Ok(()) => parse_forwarded_addr(as_text(&req.realip_remote_addr)),
                Err(kind) => Err(kind),
            }
        } else {
            Ok(peer_ip)
        },
    }
}

} // verus!
