//! How a peer can be reached: its addresses, and what STUN servers say of them.
use crate::remote_desktop::REMOTE_DESKTOP_CAPABILITY;
use crate::signaling::SignalingRole;
use crate::{digest, encoding, random, text};
use vstd::prelude::*;

verus! {

/// A socket address; the octets are in network order.
#[derive(Debug, Clone, Copy, PartialEq, Eq, Hash)]
pub enum SocketAddress {
    V4 { octets: [u8; 4], port: u16 },
    V6 { octets: [u8; 16], port: u16, flowinfo: u32, scope_id: u32 },
}

#[verifier::ext_equal]
pub enum SocketAddressView {
    V4 { octets: Seq<u8>, port: u16 },
    V6 { octets: Seq<u8>, port: u16, flowinfo: u32, scope_id: u32 },
}

impl View for SocketAddress {
    type V = SocketAddressView;

    open spec fn view(&self) -> SocketAddressView {
        match self {
            SocketAddress::V4 { octets, port } => SocketAddressView::V4 {
                octets: octets@,
                port: *port,
            },
            SocketAddress::V6 { octets, port, flowinfo, scope_id } => SocketAddressView::V6 {
                octets: octets@,
                port: *port,
                flowinfo: *flowinfo,
                scope_id: *scope_id,
            },
        }
    }
}

/// The address of a network interface.
#[derive(Debug, Clone, Copy, PartialEq, Eq)]
pub enum IpAddress {
    V4([u8; 4]),
    V6([u8; 16]),
}

fn same_octets(a: &[u8], b: &[u8]) -> (r: bool)
    ensures
        r == (a@ == b@),
{
    if a.len() != b.len() {
        return false;
    }
    let mut i: usize = 0;
    while i < a.len()
        invariant
            a@.len() == b@.len(),
            i <= a@.len(),
            forall|j: int| 0 <= j < i ==> a@[j] == b@[j],
        decreases a@.len() - i,
    {
        if a[i] != b[i] {
            assert(a@[i as int] != b@[i as int]);
            return false;
        }
        i += 1;
    }
    assert(a@ =~= b@);
    true
}

impl SocketAddress {
    pub fn is_ipv4(&self) -> (r: bool)
        ensures
            r == self@ is V4,
    {
        match self {
            SocketAddress::V4 { .. } => true,
            SocketAddress::V6 { .. } => false,
        }
    }

    pub fn same(&self, other: &Self) -> (r: bool)
        ensures
            r == (self@ == other@),
    {
        match (self, other) {
            (
                SocketAddress::V4 { octets: a, port: p },
                SocketAddress::V4 { octets: b, port: q },
            ) => *p == *q && same_octets(a.as_slice(), b.as_slice()),
            (
                SocketAddress::V6 { octets: a, port: p, flowinfo: f, scope_id: s },
                SocketAddress::V6 { octets: b, port: q, flowinfo: g, scope_id: t },
            ) => *p == *q && *f == *g && *s == *t && same_octets(a.as_slice(), b.as_slice()),
            _ => false,
        }
    }
}

/// How an address is known: from an interface, or because a server saw it.
#[derive(Debug, Clone, Copy, PartialEq, Eq, Hash, Structural)]
pub enum CandidateKind {
    Local,
    ServerReflexive,
}

/// An address at which a peer may be reached.
#[derive(Debug, Clone, Copy, PartialEq, Eq, Hash)]
pub struct Candidate {
    pub addr: SocketAddress,
    pub kind: CandidateKind,
}

#[verifier::ext_equal]
pub struct CandidateView {
    pub addr: SocketAddressView,
    pub kind: CandidateKind,
}

impl View for Candidate {
    type V = CandidateView;

    open spec fn view(&self) -> CandidateView {
        CandidateView { addr: self.addr@, kind: self.kind }
    }
}

impl Candidate {
    pub fn same(&self, other: &Self) -> (r: bool)
        ensures
            r == (self@ == other@),
    {
        self.kind == other.kind && self.addr.same(&other.addr)
    }
}

pub open spec fn candidate_views(candidates: Seq<Candidate>) -> Seq<CandidateView> {
    candidates.map_values(|c: Candidate| c@)
}

pub fn clone_candidates(candidates: &Vec<Candidate>) -> (r: Vec<Candidate>)
    ensures
        candidate_views(r@) == candidate_views(candidates@),
{
    let r = candidates.clone();
    assert(candidate_views(r@) =~= candidate_views(candidates@));
    r
}

#[derive(Debug, Clone, Copy, PartialEq, Eq, Structural)]
pub enum ConnectInfoKind {
    ConnectInfo,
}

/// What a peer must know to reach the other directly.
#[derive(Debug, PartialEq, Eq)]
pub struct ConnectInfo {
    pub kind: ConnectInfoKind,
    pub version: u8,
    pub role: SignalingRole,
    pub candidates: Vec<Candidate>,
    pub cert_hash: String,
    pub pairing_token: String,
    pub capabilities: Vec<String>,
}

#[verifier::ext_equal]
pub struct ConnectInfoView {
    pub kind: ConnectInfoKind,
    pub version: u8,
    pub role: SignalingRole,
    pub candidates: Seq<CandidateView>,
    pub cert_hash: Seq<char>,
    pub pairing_token: Seq<char>,
    pub capabilities: Seq<Seq<char>>,
}

impl View for ConnectInfo {
    type V = ConnectInfoView;

    open spec fn view(&self) -> ConnectInfoView {
        ConnectInfoView {
            kind: self.kind,
            version: self.version,
            role: self.role,
            candidates: candidate_views(self.candidates@),
            cert_hash: self.cert_hash@,
            pairing_token: self.pairing_token@,
            capabilities: text::texts(self.capabilities@),
        }
    }
}

impl Clone for ConnectInfo {
    fn clone(&self) -> (r: Self)
        ensures
            r@ == self@,
    {
        ConnectInfo {
            kind: self.kind,
            version: self.version,
            role: self.role,
            candidates: clone_candidates(&self.candidates),
            cert_hash: self.cert_hash.clone(),
            pairing_token: self.pairing_token.clone(),
            capabilities: text::clone_texts(&self.capabilities),
        }
    }
}

impl ConnectInfoView {
    pub open spec fn is_supported(self) -> bool {
        self.version == 1
    }

    /// Does the peer say that it can share its desktop?
    pub open spec fn offers_remote_desktop(self) -> bool {
        self.capabilities.contains(REMOTE_DESKTOP_CAPABILITY@)
    }
}

impl ConnectInfo {
    pub fn is_supported(&self) -> (r: bool)
        ensures
            r == self@.is_supported(),
    {
        self.kind == ConnectInfoKind::ConnectInfo && self.version == 1
    }

    /// Does the peer say that it can share its desktop?
    pub fn offers_remote_desktop(&self) -> (r: bool)
        ensures
            r == self@.offers_remote_desktop(),
    {
        text::contains_text(&self.capabilities, REMOTE_DESKTOP_CAPABILITY)
    }
}

/// The capabilities that a client built for this operating system offers.
pub open spec fn capabilities_for(target_os: Seq<char>) -> Seq<Seq<char>> {
    if target_os == "windows"@ {
        seq![REMOTE_DESKTOP_CAPABILITY@]
    } else {
        Seq::empty()
    }
}

pub fn local_capabilities(target_os: &str) -> (r: Vec<String>)
    ensures
        text::texts(r@) == capabilities_for(target_os@),
{
    let mut r: Vec<String> = Vec::new();
    if text::same_text(target_os, "windows") {
        r.push(REMOTE_DESKTOP_CAPABILITY.to_owned());
    }
    assert(text::texts(r@) =~= capabilities_for(target_os@));
    r
}

/// How this client can be reached, for its peer.
pub open spec fn own_info(
    role: SignalingRole,
    candidates: Seq<CandidateView>,
    cert_hash: Seq<char>,
    pairing_token: Seq<char>,
    target_os: Seq<char>,
) -> ConnectInfoView {
    ConnectInfoView {
        kind: ConnectInfoKind::ConnectInfo,
        version: 1,
        role,
        candidates,
        cert_hash,
        pairing_token,
        capabilities: capabilities_for(target_os),
    }
}

/// The description of this peer, of which the rest has been found out.
pub fn connect_info(
    role: SignalingRole,
    candidates: Vec<Candidate>,
    cert_hash: String,
    pairing_token: String,
    target_os: &str,
) -> (r: ConnectInfo)
    ensures
        r@ == (ConnectInfoView {
            kind: ConnectInfoKind::ConnectInfo,
            version: 1,
            role,
            candidates: candidate_views(candidates@),
            cert_hash: cert_hash@,
            pairing_token: pairing_token@,
            capabilities: capabilities_for(target_os@),
        }),
        r@.is_supported(),
        r@ == own_info(
            role,
            candidate_views(candidates@),
            cert_hash@,
            pairing_token@,
            target_os@,
        ),
{
    ConnectInfo {
        kind: ConnectInfoKind::ConnectInfo,
        version: 1,
        role,
        candidates,
        cert_hash,
        pairing_token,
        capabilities: local_capabilities(target_os),
    }
}

/// Is the address one that a peer elsewhere could use? Not the loopback and unspecified addresses,
/// nor those of `fc00::/7` (unique local) and `fe80::/10` (link local).
pub open spec fn useful_ipv6(octets: Seq<u8>) -> bool {
    let low = Seq::new(15, |i: int| 0u8);
    !(octets == low.push(1) || octets == low.push(0) || 0xfc <= octets[0] <= 0xfd || (octets[0]
        == 0xfe && 0x80 <= octets[1] <= 0xbf))
}

pub fn is_useful_ipv6(octets: &[u8; 16]) -> (r: bool)
    ensures
        r == useful_ipv6(octets@),
{
    let mut zeros: usize = 0;
    while zeros < 15 && octets[zeros] == 0
        invariant
            zeros <= 15,
            octets@.len() == 16,
            forall|j: int| 0 <= j < zeros ==> octets@[j] == 0,
        decreases 15 - zeros,
    {
        zeros += 1;
    }
    proof {
        let low = Seq::new(15, |i: int| 0u8);
        if zeros < 15 {
            assert(low.push(1)[zeros as int] == 0 && low.push(0)[zeros as int] == 0);
        } else {
            assert(octets@ =~= low.push(octets@[15]));
            assert(octets@[15] == 1 ==> octets@ == low.push(1));
            assert(low.push(1)[15] == 1 && low.push(0)[15] == 0);
        }
    }
    !((zeros == 15 && octets[15] <= 1) || (0xfc <= octets[0] && octets[0] <= 0xfd) || (octets[0]
        == 0xfe && 0x80 <= octets[1] && octets[1] <= 0xbf))
}

/// A network interface: whether it is the loopback, and its address.
#[derive(Debug, Clone, Copy)]
pub struct Interface {
    pub loopback: bool,
    pub addr: IpAddress,
}

/// The candidate that an interface gives for a socket of the same family, if any.
pub open spec fn interface_candidate(iface: Interface, port: u16, ipv4_socket: bool) -> Option<
    CandidateView,
> {
    if iface.loopback {
        None
    } else {
        match iface.addr {
            IpAddress::V4(octets) => if ipv4_socket {
                Some(
                    CandidateView {
                        addr: SocketAddressView::V4 { octets: octets@, port },
                        kind: CandidateKind::Local,
                    },
                )
            } else {
                None
            },
            IpAddress::V6(octets) => if !ipv4_socket && useful_ipv6(octets@) {
                Some(
                    CandidateView {
                        addr: SocketAddressView::V6 { octets: octets@, port, flowinfo: 0, scope_id: 0 },
                        kind: CandidateKind::Local,
                    },
                )
            } else {
                None
            },
        }
    }
}

/// The candidates that the interfaces give, in their order.
pub open spec fn interface_candidates(
    interfaces: Seq<Interface>,
    port: u16,
    ipv4_socket: bool,
) -> Seq<CandidateView>
    decreases interfaces.len(),
{
    if interfaces.len() == 0 {
        Seq::empty()
    } else {
        let before = interface_candidates(interfaces.drop_last(), port, ipv4_socket);
        match interface_candidate(interfaces.last(), port, ipv4_socket) {
            Some(c) => before.push(c),
            None => before,
        }
    }
}

pub fn local_candidates(interfaces: &Vec<Interface>, port: u16, ipv4_socket: bool) -> (r: Vec<
    Candidate,
>)
    ensures
        candidate_views(r@) == interface_candidates(interfaces@, port, ipv4_socket),
{
    let mut r: Vec<Candidate> = Vec::new();
    let mut i: usize = 0;
    assert(candidate_views(r@) =~= Seq::<CandidateView>::empty());
    while i < interfaces.len()
        invariant
            i <= interfaces@.len(),
            candidate_views(r@) == interface_candidates(
                interfaces@.take(i as int),
                port,
                ipv4_socket,
            ),
        decreases interfaces@.len() - i,
    {
        let iface = interfaces[i];
        let ghost before = r@;
        assert(interfaces@.take(i + 1).drop_last() == interfaces@.take(i as int));
        assert(interfaces@.take(i + 1).last() == iface);
        if !iface.loopback {
            match iface.addr {
                IpAddress::V4(octets) => {
                    if ipv4_socket {
                        r.push(
                            Candidate {
                                addr: SocketAddress::V4 { octets, port },
                                kind: CandidateKind::Local,
                            },
                        );
                    }
                },
                IpAddress::V6(octets) => {
                    if !ipv4_socket && is_useful_ipv6(&octets) {
                        r.push(
                            Candidate {
                                addr: SocketAddress::V6 { octets, port, flowinfo: 0, scope_id: 0 },
                                kind: CandidateKind::Local,
                            },
                        );
                    }
                },
            }
        }
        proof {
            if r@.len() > before.len() {
                assert(candidate_views(r@) =~= candidate_views(before).push(r@.last()@));
            }
        }
        i += 1;
    }
    assert(interfaces@.take(i as int) == interfaces@);
    r
}

/// The list without the candidates that occur earlier in it.
pub open spec fn deduped(candidates: Seq<CandidateView>) -> Seq<CandidateView>
    decreases candidates.len(),
{
    if candidates.len() == 0 {
        candidates
    } else {
        let before = deduped(candidates.drop_last());
        if candidates.drop_last().contains(candidates.last()) {
            before
        } else {
            before.push(candidates.last())
        }
    }
}

/// Removes the candidates that occur earlier in the list.
pub fn dedupe_candidates(candidates: &mut Vec<Candidate>)
    ensures
        candidate_views(final(candidates)@) == deduped(candidate_views(old(candidates)@)),
{
    let ghost all = candidate_views(candidates@);
    let mut kept: Vec<Candidate> = Vec::new();
    let mut i: usize = 0;
    assert(candidate_views(kept@) =~= deduped(all.take(0)));
    while i < candidates.len()
        invariant
            all == candidate_views(candidates@),
            i <= candidates@.len(),
            candidate_views(kept@) == deduped(all.take(i as int)),
        decreases candidates@.len() - i,
    {
        let candidate = candidates[i];
        let ghost front = all.take(i as int);
        let mut seen = false;
        let mut j: usize = 0;
        while j < i
            invariant
                i < candidates@.len(),
                j <= i,
                all == candidate_views(candidates@),
                front == all.take(i as int),
                candidate == candidates@[i as int],
                seen == exists|k: int| 0 <= k < j && #[trigger] all[k] == candidate@,
            decreases i - j,
        {
            assert(all[j as int] == candidates@[j as int]@);
            if candidates[j].same(&candidate) {
                seen = true;
            }
            j += 1;
        }
        proof {
            assert(all.take(i + 1).drop_last() == front);
            assert(all.take(i + 1).last() == candidate@);
            if seen {
                let k = choose|k: int| 0 <= k < j && #[trigger] all[k] == candidate@;
                assert(front[k] == candidate@);
            }
            if front.contains(candidate@) {
                let k = front.index_of(candidate@);
                assert(all[k] == candidate@);
            }
        }
        if !seen {
            let ghost before = kept@;
            kept.push(candidate);
            assert(candidate_views(kept@) =~= candidate_views(before).push(candidate@));
        }
        i += 1;
    }
    assert(all.take(i as int) == all);
    *candidates = kept;
}

/// Deduplication keeps every candidate, keeps each once, and leaves a list without repetitions as
/// it is.
pub proof fn deduplication_keeps_each_once(candidates: Seq<CandidateView>)
    ensures
        deduped(candidates).no_duplicates(),
        deduped(candidates).to_set() == candidates.to_set(),
        candidates.no_duplicates() ==> deduped(candidates) == candidates,
        deduped(deduped(candidates)) == deduped(candidates),
    decreases candidates.len(),
{
    lemma_deduped(candidates);
    lemma_deduped_unchanged(candidates);
    lemma_deduped_unchanged(deduped(candidates));
    assert(deduped(candidates).to_set() =~= candidates.to_set()) by {
        assert forall|c: CandidateView|
            deduped(candidates).contains(c) == candidates.contains(c) by {}
    }
}

proof fn lemma_deduped(candidates: Seq<CandidateView>)
    ensures
        deduped(candidates).no_duplicates(),
        forall|c: CandidateView| #[trigger]
            deduped(candidates).contains(c) <==> candidates.contains(c),
    decreases candidates.len(),
{
    if candidates.len() > 0 {
        let front = candidates.drop_last();
        let last = candidates.last();
        lemma_deduped(front);
        let before = deduped(front);
        let after = deduped(candidates);
        assert forall|c: CandidateView| #[trigger]
            after.contains(c) <==> candidates.contains(c) by {
            if candidates.contains(c) {
                let k = candidates.index_of(c);
                if k < front.len() {
                    assert(front[k] == c);
                    assert(before.contains(c));
                    let m = before.index_of(c);
                    assert(after[m] == c);
                } else if front.contains(last) {
                    assert(before.contains(c));
                } else {
                    assert(after[before.len() as int] == c);
                }
            }
            if after.contains(c) {
                let k = after.index_of(c);
                if k < before.len() {
                    assert(before[k] == c);
                    assert(before.contains(c));
                    assert(front.contains(c));
                    let m = front.index_of(c);
                    assert(candidates[m] == c);
                } else {
                    assert(candidates[candidates.len() - 1] == c);
                }
            }
        }
        if !front.contains(last) {
            assert(!before.contains(last));
            assert forall|i: int, j: int| 0 <= i < j < after.len() implies after[i] != after[j] by {
                if j == before.len() {
                    assert(before[i] == after[i]);
                }
            }
        }
    }
}

proof fn lemma_deduped_unchanged(candidates: Seq<CandidateView>)
    ensures
        candidates.no_duplicates() ==> deduped(candidates) == candidates,
    decreases candidates.len(),
{
    if candidates.len() > 0 && candidates.no_duplicates() {
        let front = candidates.drop_last();
        lemma_deduped_unchanged(front);
        assert(!front.contains(candidates.last())) by {
            if front.contains(candidates.last()) {
                let k = front.index_of(candidates.last());
                assert(candidates[k] == candidates[candidates.len() - 1]);
            }
        }
        assert(front.push(candidates.last()) =~= candidates);
    }
}

/// The servers that are asked where none are named.
pub open spec fn default_stun_servers() -> Seq<Seq<char>> {
    seq!["stun.miwifi.com:3478"@, "stun.l.google.com:19302"@, "stun.cloudflare.com:3478"@]
}

/// The servers that a comma-separated list names, without the white space around them.
pub open spec fn named_servers(pieces: Seq<Seq<char>>) -> Seq<Seq<char>>
    decreases pieces.len(),
{
    if pieces.len() == 0 {
        Seq::empty()
    } else {
        let before = named_servers(pieces.drop_last());
        let name = text::white_trimmed(pieces.last());
        if name.len() == 0 {
            before
        } else {
            before.push(name)
        }
    }
}

/// The servers to ask, given what the environment names.
pub open spec fn servers_to_ask(named: Option<Seq<char>>) -> Seq<Seq<char>> {
    match named {
        Some(list) => named_servers(text::split_pieces(list, ',')),
        None => default_stun_servers(),
    }
}

/// The servers to ask, given what the environment names.
pub fn stun_servers(named: Option<String>) -> (r: Vec<String>)
    ensures
        text::texts(r@) == match named {
            Some(list) => named_servers(text::split_pieces(list@, ',')),
            None => default_stun_servers(),
        },
        text::texts(r@) == servers_to_ask(text::opt_text(named)),
{
    let mut r: Vec<String> = Vec::new();
    match named {
        None => {
            r.push("stun.miwifi.com:3478".to_owned());
            r.push("stun.l.google.com:19302".to_owned());
            r.push("stun.cloudflare.com:3478".to_owned());
            assert(text::texts(r@) =~= default_stun_servers());
        },
        Some(list) => {
            let pieces = text::split(list.as_str(), ',');
            let ghost all = text::texts(pieces@);
            let mut i: usize = 0;
            assert(text::texts(r@) =~= named_servers(all.take(0)));
            while i < pieces.len()
                invariant
                    all == text::texts(pieces@),
                    i <= pieces@.len(),
                    text::texts(r@) == named_servers(all.take(i as int)),
                decreases pieces@.len() - i,
            {
                assert(all.take(i + 1).drop_last() == all.take(i as int));
                assert(all.take(i + 1).last() == pieces@[i as int]@);
                let name = text::trim(pieces[i].as_str());
                if !name.as_str().is_empty() {
                    let ghost before = text::texts(r@);
                    let ghost added = name@;
                    r.push(name);
                    assert(text::texts(r@) =~= before.push(added));
                }
                i += 1;
            }
            assert(all.take(i as int) == all);
        },
    }
    r
}

/// How many servers are asked at most.
pub const MAX_STUN_SERVERS: usize = 3;

const STUN_BINDING_SUCCESS: u16 = 0x0101;

const STUN_ATTR_MAPPED_ADDRESS: u16 = 0x0001;

const STUN_ATTR_XOR_MAPPED_ADDRESS: u16 = 0x0020;

/// The magic cookie of STUN, in network order.
pub open spec fn magic_cookie() -> Seq<u8> {
    seq![0x21u8, 0x12u8, 0xa4u8, 0x42u8]
}

/// Two bytes in network order as a number.
pub open spec fn be16(high: u8, low: u8) -> u16 {
    (high * 256 + low) as u16
}

fn read_be16(high: u8, low: u8) -> (r: u16)
    ensures
        r == be16(high, low),
        r == high * 256 + low,
{
    (high as u16) * 256 + low as u16
}

/// The first twelve of sixteen bytes.
pub fn first_twelve(b: [u8; 16]) -> (r: [u8; 12])
    ensures
        r@ == b@.take(12),
{
    let r = [b[0], b[1], b[2], b[3], b[4], b[5], b[6], b[7], b[8], b[9], b[10], b[11]];
    assert(r@ =~= b@.take(12));
    r
}

/// An identifier for a request, of random bytes.
pub fn transaction_id() -> (r: [u8; 12])
    ensures
        exists|bytes: Seq<u8>|
            #[trigger] random::is_random_bytes(bytes) && r@ == bytes.take(12),
{
    first_twelve(random::random_bytes())
}

/// A request for the address that the server sees: type 1, no attributes, the cookie and the
/// identifier.
pub fn stun_binding_request(t: &[u8; 12]) -> (r: [u8; 20])
    ensures
        r@ == seq![0u8, 1u8, 0u8, 0u8] + magic_cookie() + t@,
        is_binding_request(r@, t@),
{
    let r = [
        0,
        1,
        0,
        0,
        0x21,
        0x12,
        0xa4,
        0x42,
        t[0],
        t[1],
        t[2],
        t[3],
        t[4],
        t[5],
        t[6],
        t[7],
        t[8],
        t[9],
        t[10],
        t[11],
    ];
    assert(r@ =~= seq![0u8, 1u8, 0u8, 0u8] + magic_cookie() + t@);
    assert(r@.skip(8) =~= t@);
    r
}

/// The address in the value of an address attribute: a zero byte, the family, the port and the
/// octets.
pub open spec fn mapped_address(value: Seq<u8>) -> Option<SocketAddressView> {
    if value.len() < 8 || value[0] != 0 {
        None
    } else if value[1] == 1 {
        Some(SocketAddressView::V4 { octets: value.subrange(4, 8), port: be16(value[2], value[3]) })
    } else if value[1] == 2 && value.len() >= 20 {
        Some(
            SocketAddressView::V6 {
                octets: value.subrange(4, 20),
                port: be16(value[2], value[3]),
                flowinfo: 0,
                scope_id: 0,
            },
        )
    } else {
        None
    }
}

/// Byte by byte the exclusive or of a sequence and the start of a mask.
pub open spec fn masked(bytes: Seq<u8>, mask: Seq<u8>) -> Seq<u8> {
    Seq::new(bytes.len(), |i: int| bytes[i] ^ mask[i])
}

/// The address with its port and octets masked by the cookie, and behind it by the identifier.
pub open spec fn unmasked_address(addr: SocketAddressView, id: Seq<u8>) -> SocketAddressView {
    match addr {
        SocketAddressView::V4 { octets, port } => SocketAddressView::V4 {
            octets: masked(octets, magic_cookie()),
            port: port ^ 0x2112u16,
        },
        SocketAddressView::V6 { octets, port, flowinfo, scope_id } => SocketAddressView::V6 {
            octets: masked(octets, magic_cookie() + id),
            port: port ^ 0x2112u16,
            flowinfo,
            scope_id,
        },
    }
}

/// The address in the value of an attribute that masks it.
pub open spec fn xor_mapped_address(value: Seq<u8>, id: Seq<u8>) -> Option<SocketAddressView> {
    match mapped_address(value) {
        Some(addr) => Some(unmasked_address(addr, id)),
        None => None,
    }
}

pub open spec fn address_view(addr: Option<SocketAddress>) -> Option<SocketAddressView> {
    match addr {
        Some(a) => Some(a@),
        None => None,
    }
}

fn parse_mapped_address(v: &[u8]) -> (r: Option<SocketAddress>)
    ensures
        address_view(r) == mapped_address(v@),
{
    if v.len() < 8 || v[0] != 0 {
        return None;
    }
    let port: u16 = read_be16(v[2], v[3]);
    if v[1] == 1 {
        let octets = [v[4], v[5], v[6], v[7]];
        assert(octets@ =~= v@.subrange(4, 8));
        Some(SocketAddress::V4 { octets, port })
    } else if v[1] == 2 && v.len() >= 20 {
        let octets = [
            v[4],
            v[5],
            v[6],
            v[7],
            v[8],
            v[9],
            v[10],
            v[11],
            v[12],
            v[13],
            v[14],
            v[15],
            v[16],
            v[17],
            v[18],
            v[19],
        ];
        assert(octets@ =~= v@.subrange(4, 20));
        Some(SocketAddress::V6 { octets, port, flowinfo: 0, scope_id: 0 })
    } else {
        None
    }
}

fn unmask(addr: SocketAddress, t: &[u8; 12]) -> (r: SocketAddress)
    ensures
        r@ == unmasked_address(addr@, t@),
{
    match addr {
        SocketAddress::V4 { octets: o, port } => {
            let octets = [o[0] ^ 0x21, o[1] ^ 0x12, o[2] ^ 0xa4, o[3] ^ 0x42];
            assert(octets@ =~= masked(o@, magic_cookie()));
            SocketAddress::V4 { octets, port: port ^ 0x2112 }
        },
        SocketAddress::V6 { octets: o, port, flowinfo, scope_id } => {
            let octets = [
                o[0] ^ 0x21,
                o[1] ^ 0x12,
                o[2] ^ 0xa4,
                o[3] ^ 0x42,
                o[4] ^ t[0],
                o[5] ^ t[1],
                o[6] ^ t[2],
                o[7] ^ t[3],
                o[8] ^ t[4],
                o[9] ^ t[5],
                o[10] ^ t[6],
                o[11] ^ t[7],
                o[12] ^ t[8],
                o[13] ^ t[9],
                o[14] ^ t[10],
                o[15] ^ t[11],
            ];
            assert(octets@ =~= masked(o@, magic_cookie() + t@));
            SocketAddress::V6 { octets, port: port ^ 0x2112, flowinfo, scope_id }
        },
    }
}

fn parse_xor_mapped_address(value: &[u8], t: &[u8; 12]) -> (r: Option<SocketAddress>)
    ensures
        address_view(r) == xor_mapped_address(value@, t@),
{
    match parse_mapped_address(value) {
        Some(addr) => Some(unmask(addr, t)),
        None => None,
    }
}

/// The address that the attributes from `offset` to `end` give. A masked address counts as soon as
/// it is read; else the last plain one counts, `plain` being the one read so far. An attribute
/// that runs past the end spoils the message.
pub open spec fn attribute_address(
    packet: Seq<u8>,
    offset: int,
    end: int,
    id: Seq<u8>,
    plain: Option<SocketAddressView>,
) -> Option<SocketAddressView>
    decreases end + 4 - offset,
{
    if offset + 4 > end {
        plain
    } else {
        let kind = be16(packet[offset], packet[offset + 1]);
        let len = be16(packet[offset + 2], packet[offset + 3]) as int;
        let start = offset + 4;
        let value = packet.subrange(start, start + len);
        let next = start + (len + 3) / 4 * 4;
        if start + len > end {
            None
        } else if kind == 0x0020 && xor_mapped_address(value, id) is Some {
            xor_mapped_address(value, id)
        } else if kind == 0x0001 {
            attribute_address(packet, next, end, id, mapped_address(value))
        } else {
            attribute_address(packet, next, end, id, plain)
        }
    }
}

/// The identifier and the address in the response of a STUN server.
pub open spec fn binding_response(packet: Seq<u8>) -> Option<(Seq<u8>, SocketAddressView)> {
    let end = 20 + be16(packet[2], packet[3]);
    if packet.len() < 20 || be16(packet[0], packet[1]) != 0x0101 || packet.subrange(4, 8)
        != magic_cookie() || end > packet.len() {
        None
    } else {
        let id = packet.subrange(8, 20);
        match attribute_address(packet, 20, end, id, None) {
            Some(addr) => Some((id, addr)),
            None => None,
        }
    }
}

/// The identifier and the address in the response of a STUN server, if the packet is one.
pub fn parse_stun_binding_response(packet: &[u8]) -> (r: Option<([u8; 12], SocketAddress)>)
    ensures
        binding_response(packet@) == match r {
            Some((id, addr)) => Some((id@, addr@)),
            None => None,
        },
{
    if packet.len() < 20 {
        return None;
    }
    let message_type: u16 = read_be16(packet[0], packet[1]);
    let message_len: usize = read_be16(packet[2], packet[3]) as usize;
    proof {
        let cookie = packet@.subrange(4, 8);
        assert(cookie.len() == 4);
        assert(cookie[0] == packet@[4] && cookie[1] == packet@[5] && cookie[2] == packet@[6]
            && cookie[3] == packet@[7]);
        if packet@[4] == 0x21 && packet@[5] == 0x12 && packet@[6] == 0xa4 && packet@[7] == 0x42 {
            assert(cookie =~= magic_cookie());
        }
    }
    if message_type != STUN_BINDING_SUCCESS || packet[4] != 0x21 || packet[5] != 0x12 || packet[6]
        != 0xa4 || packet[7] != 0x42 {
        return None;
    }
    let id = [
        packet[8],
        packet[9],
        packet[10],
        packet[11],
        packet[12],
        packet[13],
        packet[14],
        packet[15],
        packet[16],
        packet[17],
        packet[18],
        packet[19],
    ];
    assert(id@ =~= packet@.subrange(8, 20));
    let end: usize = 20 + message_len;
    if end > packet.len() {
        return None;
    }
    let mut offset: usize = 20;
    let mut plain: Option<SocketAddress> = None;
    while offset + 4 <= end
        invariant
            packet@.len() >= 20,
            end <= packet@.len(),
            end <= 20 + 0xffff,
            end == 20 + be16(packet@[2], packet@[3]),
            offset <= end + 4,
            id@ == packet@.subrange(8, 20),
            be16(packet@[0], packet@[1]) == 0x0101,
            packet@.subrange(4, 8) == magic_cookie(),
            attribute_address(packet@, 20, end as int, id@, None) == attribute_address(
                packet@,
                offset as int,
                end as int,
                id@,
                address_view(plain),
            ),
        decreases end + 4 - offset,
    {
        let kind: u16 = read_be16(packet[offset], packet[offset + 1]);
        let len: usize = read_be16(packet[offset + 2], packet[offset + 3]) as usize;
        let start: usize = offset + 4;
        if start + len > end {
            return None;
        }
        let value = &packet[start..start + len];
        if kind == STUN_ATTR_XOR_MAPPED_ADDRESS {
            if let Some(addr) = parse_xor_mapped_address(value, &id) {
                return Some((id, addr));
            }
        } else if kind == STUN_ATTR_MAPPED_ADDRESS {
            plain = parse_mapped_address(value);
        }
        offset = start + (len + 3) / 4 * 4;
    }
    match plain {
        Some(addr) => Some((id, addr)),
        None => None,
    }
}

/// The value of an attribute for this address.
pub open spec fn address_value(addr: SocketAddressView) -> Seq<u8> {
    match addr {
        SocketAddressView::V4 { octets, port } => seq![0u8, 1u8, (port / 256) as u8, (port % 256) as u8]
            + octets,
        SocketAddressView::V6 { octets, port, .. } => seq![
            0u8,
            2u8,
            (port / 256) as u8,
            (port % 256) as u8,
        ] + octets,
    }
}

/// Is this an address as STUN carries it: four or sixteen octets and no scope?
pub open spec fn is_stun_address(addr: SocketAddressView) -> bool {
    match addr {
        SocketAddressView::V4 { octets, .. } => octets.len() == 4,
        SocketAddressView::V6 { octets, flowinfo, scope_id, .. } => octets.len() == 16 && flowinfo
            == 0 && scope_id == 0,
    }
}

/// The success response that a server sends for this identifier and address, masked.
pub open spec fn response_packet(id: Seq<u8>, addr: SocketAddressView) -> Seq<u8> {
    let value = address_value(unmasked_address(addr, id));
    seq![1u8, 1u8, 0u8, (value.len() + 4) as u8] + magic_cookie() + id + seq![
        0u8,
        0x20u8,
        0u8,
        value.len() as u8,
    ] + value
}

proof fn lemma_mask_twice(bytes: Seq<u8>, mask: Seq<u8>)
    ensures
        masked(masked(bytes, mask), mask) == bytes,
{
    assert forall|i: int| 0 <= i < bytes.len() implies masked(masked(bytes, mask), mask)[i]
        == bytes[i] by {
        let a = bytes[i];
        let b = mask[i];
        assert((a ^ b) ^ b == a) by (bit_vector);
    }
    assert(masked(masked(bytes, mask), mask) =~= bytes);
}

/// Reading the response of a server gives back the identifier of the request and the address that
/// the server put in.
pub proof fn response_gives_back_the_address(id: Seq<u8>, addr: SocketAddressView)
    requires
        id.len() == 12,
        is_stun_address(addr),
    ensures
        binding_response(response_packet(id, addr)) == Some((id, addr)),
{
    let hidden = unmasked_address(addr, id);
    let value = address_value(hidden);
    let packet = response_packet(id, addr);
    let n = value.len() as int;
    assert(n == 8 || n == 20);
    assert(packet.len() == 24 + n);
    assert(packet.subrange(4, 8) =~= magic_cookie());
    assert(packet.subrange(8, 20) =~= id);
    assert(packet[0] == 1 && packet[1] == 1 && packet[2] == 0 && packet[3] == n + 4);
    assert(packet[20] == 0 && packet[21] == 0x20 && packet[22] == 0 && packet[23] == n);
    assert(packet.subrange(24, 24 + n) =~= value);
    assert(mapped_address(value) == Some(hidden)) by {
        match hidden {
            SocketAddressView::V4 { octets, port } => {
                assert(value.subrange(4, 8) =~= octets);
            },
            SocketAddressView::V6 { octets, port, .. } => {
                assert(value.subrange(4, 20) =~= octets);
            },
        }
    }
    assert(unmasked_address(hidden, id) == addr) by {
        match addr {
            SocketAddressView::V4 { octets, port } => {
                lemma_mask_twice(octets, magic_cookie());
                assert((port ^ 0x2112u16) ^ 0x2112u16 == port) by (bit_vector);
            },
            SocketAddressView::V6 { octets, port, .. } => {
                lemma_mask_twice(octets, magic_cookie() + id);
                assert((port ^ 0x2112u16) ^ 0x2112u16 == port) by (bit_vector);
            },
        }
    }
}

/// An attribute of a message: its kind, its value, and the bytes that pad it to a multiple of four.
#[verifier::ext_equal]
pub struct StunAttribute {
    pub kind: u16,
    pub value: Seq<u8>,
    pub padding: Seq<u8>,
}

impl StunAttribute {
    /// Is the value short enough, and the padding no longer than it must be?
    pub open spec fn is_sound(self) -> bool {
        &&& self.value.len() <= 0xffff
        &&& self.padding.len() < 4
        &&& (self.value.len() + self.padding.len()) % 4 == 0
    }

    /// The attribute as it is sent: kind, length, value and padding.
    pub open spec fn bytes(self) -> Seq<u8> {
        seq![
            (self.kind / 256) as u8,
            (self.kind % 256) as u8,
            (self.value.len() / 256) as u8,
            (self.value.len() % 256) as u8,
        ] + self.value + self.padding
    }
}

/// Attributes one after the other.
pub open spec fn attribute_bytes(attributes: Seq<StunAttribute>) -> Seq<u8>
    decreases attributes.len(),
{
    if attributes.len() == 0 {
        Seq::empty()
    } else {
        attributes[0].bytes() + attribute_bytes(attributes.skip(1))
    }
}

/// A success response to the request with this identifier, with this behind its header.
pub open spec fn success_response(id: Seq<u8>, body: Seq<u8>) -> Seq<u8> {
    seq![1u8, 1u8, (body.len() / 256) as u8, (body.len() % 256) as u8] + magic_cookie() + id + body
}

/// The attribute that tells an address plainly.
pub open spec fn plain_attribute(addr: SocketAddressView) -> StunAttribute {
    StunAttribute { kind: 0x0001, value: address_value(addr), padding: Seq::empty() }
}

/// The attribute that tells an address masked.
pub open spec fn masked_attribute(addr: SocketAddressView, id: Seq<u8>) -> StunAttribute {
    StunAttribute {
        kind: 0x0020,
        value: address_value(unmasked_address(addr, id)),
        padding: Seq::empty(),
    }
}

proof fn lemma_attribute_header(
    packet: Seq<u8>,
    offset: int,
    attribute: StunAttribute,
    rest: Seq<u8>,
)
    requires
        attribute.is_sound(),
        0 <= offset,
        packet.skip(offset) == attribute.bytes() + rest,
        offset <= packet.len(),
    ensures
        offset + attribute.bytes().len() <= packet.len(),
        attribute.bytes().len() == 4 + attribute.value.len() + attribute.padding.len(),
        be16(packet[offset], packet[offset + 1]) == attribute.kind,
        be16(packet[offset + 2], packet[offset + 3]) == attribute.value.len(),
        packet.subrange(offset + 4, offset + 4 + attribute.value.len()) == attribute.value,
        offset + 4 + (attribute.value.len() + 3) / 4 * 4 == offset + attribute.bytes().len(),
        packet.skip(offset + attribute.bytes().len()) == rest,
{
    let tail = packet.skip(offset);
    let head = attribute.bytes();
    assert(tail.len() == head.len() + rest.len());
    assert forall|i: int| 0 <= i < head.len() implies packet[offset + i] == head[i] by {
        assert(tail[i] == head[i]);
    }
    assert(packet[offset + 0] == head[0]);
    assert(packet[offset + 1] == head[1]);
    assert(packet[offset + 2] == head[2]);
    assert(packet[offset + 3] == head[3]);
    assert(packet.subrange(offset + 4, offset + 4 + attribute.value.len()) =~= attribute.value) by {
        assert forall|i: int| 0 <= i < attribute.value.len() implies packet[offset + 4 + i]
            == attribute.value[i] by {
            assert(packet[offset + (4 + i)] == head[4 + i]);
        }
    }
    assert(packet.skip(offset + head.len()) =~= rest) by {
        assert forall|i: int| 0 <= i < rest.len() implies packet[offset + head.len() + i]
            == rest[i] by {
            assert(tail[head.len() + i] == rest[i]);
        }
    }
}

proof fn lemma_attributes_are_passed_over(
    packet: Seq<u8>,
    offset: int,
    end: int,
    id: Seq<u8>,
    plain: Option<SocketAddressView>,
    attributes: Seq<StunAttribute>,
    rest: Seq<u8>,
)
    requires
        0 <= offset <= packet.len(),
        packet.skip(offset) == attribute_bytes(attributes) + rest,
        offset + attribute_bytes(attributes).len() <= end <= packet.len(),
        forall|k: int|
            0 <= k < attributes.len() ==> (#[trigger] attributes[k]).is_sound()
                && attributes[k].kind != 0x0020,
    ensures
        exists|read: Option<SocketAddressView>|
            {
                &&& (forall|k: int|
                    0 <= k < attributes.len() ==> (#[trigger] attributes[k]).kind != 0x0001)
                    ==> read == plain
                &&& attribute_address(packet, offset, end, id, plain) == #[trigger]
                    attribute_address(
                        packet,
                        offset + attribute_bytes(attributes).len(),
                        end,
                        id,
                        read,
                    )
            },
        packet.skip(offset + attribute_bytes(attributes).len()) == rest,
        offset + attribute_bytes(attributes).len() <= packet.len(),
    decreases attributes.len(),
{
    if attributes.len() == 0 {
        assert(attribute_bytes(attributes) + rest =~= rest);
        assert(attribute_address(packet, offset, end, id, plain) == attribute_address(
            packet,
            offset + attribute_bytes(attributes).len(),
            end,
            id,
            plain,
        ));
    } else {
        let first = attributes[0];
        let others = attributes.skip(1);
        let behind = attribute_bytes(others) + rest;
        assert(attribute_bytes(attributes) + rest =~= first.bytes() + behind);
        lemma_attribute_header(packet, offset, first, behind);
        let next = offset + first.bytes().len();
        let seen = if first.kind == 0x0001 {
            mapped_address(first.value)
        } else {
            plain
        };
        assert forall|k: int| 0 <= k < others.len() implies (#[trigger] others[k]).is_sound()
            && others[k].kind != 0x0020 by {
            assert(others[k] == attributes[k + 1]);
        }
        lemma_attributes_are_passed_over(packet, next, end, id, seen, others, rest);
        let read = choose|read: Option<SocketAddressView>|
            {
                &&& (forall|k: int|
                    0 <= k < others.len() ==> (#[trigger] others[k]).kind != 0x0001) ==> read
                    == seen
                &&& attribute_address(packet, next, end, id, seen) == #[trigger] attribute_address(
                    packet,
                    next + attribute_bytes(others).len(),
                    end,
                    id,
                    read,
                )
            };
        assert(attribute_address(packet, offset, end, id, plain) == attribute_address(
            packet,
            next,
            end,
            id,
            seen,
        ));
        assert(next + attribute_bytes(others).len() == offset + attribute_bytes(attributes).len());
        if forall|k: int| 0 <= k < attributes.len() ==> (#[trigger] attributes[k]).kind != 0x0001 {
            assert(attributes[0].kind != 0x0001);
            assert forall|k: int| 0 <= k < others.len() implies (#[trigger] others[k]).kind
                != 0x0001 by {
                assert(others[k] == attributes[k + 1]);
            }
        }
    }
}

proof fn lemma_address_value(addr: SocketAddressView, id: Seq<u8>)
    requires
        id.len() == 12,
        is_stun_address(addr),
    ensures
        plain_attribute(addr).is_sound(),
        masked_attribute(addr, id).is_sound(),
        mapped_address(address_value(addr)) == Some(addr),
        xor_mapped_address(masked_attribute(addr, id).value, id) == Some(addr),
{
    response_gives_back_the_address(id, addr);
    lemma_value_is_read(addr);
    lemma_value_is_read(unmasked_address(addr, id));
    let hidden = unmasked_address(addr, id);
    match addr {
        SocketAddressView::V4 { octets, port } => {
            lemma_mask_twice(octets, magic_cookie());
            assert((port ^ 0x2112u16) ^ 0x2112u16 == port) by (bit_vector);
        },
        SocketAddressView::V6 { octets, port, .. } => {
            lemma_mask_twice(octets, magic_cookie() + id);
            assert((port ^ 0x2112u16) ^ 0x2112u16 == port) by (bit_vector);
        },
    }
    assert(unmasked_address(hidden, id) == addr);
}

proof fn lemma_value_is_read(addr: SocketAddressView)
    requires
        is_stun_address(addr),
    ensures
        mapped_address(address_value(addr)) == Some(addr),
        address_value(addr).len() % 4 == 0,
        address_value(addr).len() <= 20,
{
    let value = address_value(addr);
    match addr {
        SocketAddressView::V4 { octets, port } => {
            assert(value.subrange(4, 8) =~= octets);
        },
        SocketAddressView::V6 { octets, port, .. } => {
            assert(value.subrange(4, 20) =~= octets);
        },
    }
}

/// Attributes of other kinds do not matter, however long their values: in a success response the
/// first masked address counts, whatever stands before it and behind it, plain addresses too.
pub proof fn a_masked_address_is_found_among_others(
    id: Seq<u8>,
    addr: SocketAddressView,
    before: Seq<StunAttribute>,
    behind: Seq<u8>,
)
    requires
        id.len() == 12,
        is_stun_address(addr),
        forall|k: int|
            0 <= k < before.len() ==> (#[trigger] before[k]).is_sound() && before[k].kind
                != 0x0020,
        (attribute_bytes(before) + masked_attribute(addr, id).bytes() + behind).len() <= 0xffff,
    ensures
        binding_response(
            success_response(
                id,
                attribute_bytes(before) + masked_attribute(addr, id).bytes() + behind,
            ),
        ) == Some((id, addr)),
{
    let found = masked_attribute(addr, id);
    let body = attribute_bytes(before) + found.bytes() + behind;
    let packet = success_response(id, body);
    lemma_address_value(addr, id);
    lemma_response_header(id, body);
    let rest = found.bytes() + behind;
    assert(packet.skip(20) == attribute_bytes(before) + rest) by {
        assert(body =~= attribute_bytes(before) + rest);
    }
    let end = packet.len() as int;
    lemma_attributes_are_passed_over(packet, 20, end, id, None, before, rest);
    let read = choose|read: Option<SocketAddressView>|
        {
            &&& (forall|k: int|
                0 <= k < before.len() ==> (#[trigger] before[k]).kind != 0x0001) ==> read
                == None::<SocketAddressView>
            &&& attribute_address(packet, 20, end, id, None) == #[trigger] attribute_address(
                packet,
                20int + attribute_bytes(before).len(),
                end,
                id,
                read,
            )
        };
    lemma_attribute_header(packet, 20int + attribute_bytes(before).len(), found, behind);
    assert(attribute_address(packet, 20int + attribute_bytes(before).len(), end, id, read) == Some(
        addr,
    ));
}

proof fn lemma_response_header(id: Seq<u8>, body: Seq<u8>)
    requires
        id.len() == 12,
        body.len() <= 0xffff,
    ensures
        ({
            let packet = success_response(id, body);
            &&& packet.len() == 20 + body.len()
            &&& be16(packet[0], packet[1]) == 0x0101
            &&& 20 + be16(packet[2], packet[3]) == packet.len()
            &&& packet.subrange(4, 8) == magic_cookie()
            &&& packet.subrange(8, 20) == id
            &&& packet.skip(20) == body
        }),
{
    let packet = success_response(id, body);
    assert(packet[0] == 1 && packet[1] == 1);
    assert(packet[2] == (body.len() / 256) as u8 && packet[3] == (body.len() % 256) as u8);
    assert(packet.subrange(4, 8) =~= magic_cookie());
    assert(packet.subrange(8, 20) =~= id);
    assert(packet.skip(20) =~= body);
}

/// A plain address counts where no masked one follows: in a success response with one plain address
/// and otherwise only attributes of other kinds, that address is found.
pub proof fn a_plain_address_is_found_among_others(
    id: Seq<u8>,
    addr: SocketAddressView,
    before: Seq<StunAttribute>,
    behind: Seq<StunAttribute>,
)
    requires
        id.len() == 12,
        is_stun_address(addr),
        forall|k: int|
            0 <= k < before.len() ==> (#[trigger] before[k]).is_sound() && before[k].kind
                != 0x0020 && before[k].kind != 0x0001,
        forall|k: int|
            0 <= k < behind.len() ==> (#[trigger] behind[k]).is_sound() && behind[k].kind
                != 0x0020 && behind[k].kind != 0x0001,
        (attribute_bytes(before) + plain_attribute(addr).bytes() + attribute_bytes(behind)).len()
            <= 0xffff,
    ensures
        binding_response(
            success_response(
                id,
                attribute_bytes(before) + plain_attribute(addr).bytes() + attribute_bytes(behind),
            ),
        ) == Some((id, addr)),
{
    let found = plain_attribute(addr);
    let tail = attribute_bytes(behind);
    let body = attribute_bytes(before) + found.bytes() + tail;
    let packet = success_response(id, body);
    lemma_address_value(addr, id);
    lemma_response_header(id, body);
    let rest = found.bytes() + tail;
    assert(packet.skip(20) == attribute_bytes(before) + rest) by {
        assert(body =~= attribute_bytes(before) + rest);
    }
    let end = packet.len() as int;
    lemma_attributes_are_passed_over(packet, 20, end, id, None, before, rest);
    let at = 20int + attribute_bytes(before).len();
    assert(attribute_address(packet, 20, end, id, None) == attribute_address(
        packet,
        at,
        end,
        id,
        None,
    ));
    lemma_attribute_header(packet, at, found, tail);
    let next = at + found.bytes().len();
    assert(attribute_address(packet, at, end, id, None) == attribute_address(
        packet,
        next,
        end,
        id,
        Some(addr),
    ));
    assert(tail + Seq::<u8>::empty() =~= tail);
    lemma_attributes_are_passed_over(
        packet,
        next,
        end,
        id,
        Some(addr),
        behind,
        Seq::<u8>::empty(),
    );
    assert(attribute_address(packet, next, end, id, Some(addr)) == attribute_address(
        packet,
        end,
        end,
        id,
        Some(addr),
    ));
}

/// A packet that gives an address is a success response, with the cookie and no shorter than it
/// says, and the identifier is the one that it carries. One without attributes gives none.
pub proof fn only_success_responses_give_an_address(packet: Seq<u8>, id: Seq<u8>)
    ensures
        binding_response(packet) is Some ==> {
            &&& packet.len() >= 24
            &&& packet[0] == 1 && packet[1] == 1
            &&& packet[4] == 0x21 && packet[5] == 0x12 && packet[6] == 0xa4 && packet[7] == 0x42
            &&& 20 + packet[2] * 256 + packet[3] <= packet.len()
            &&& binding_response(packet) matches Some((found, _)) && found == packet.subrange(8, 20)
        },
        id.len() == 12 ==> binding_response(success_response(id, Seq::empty())) is None,
{
    if binding_response(packet) is Some {
        let cookie = packet.subrange(4, 8);
        assert(cookie[0] == packet[4] && cookie[1] == packet[5] && cookie[2] == packet[6]
            && cookie[3] == packet[7]);
        assert(magic_cookie()[0] == 0x21);
    }
    if id.len() == 12 {
        lemma_response_header(id, Seq::empty());
    }
}

/// A request asks for the address under its identifier: it is a request with no attributes.
pub open spec fn is_binding_request(packet: Seq<u8>, id: Seq<u8>) -> bool {
    &&& packet.len() == 20
    &&& packet[0] == 0 && packet[1] == 1
    &&& packet[2] == 0 && packet[3] == 0
    &&& packet[4] == 0x21 && packet[5] == 0x12 && packet[6] == 0xa4 && packet[7] == 0x42
    &&& packet.skip(8) == id
}

/// How an address is read from the value of an attribute. Plain, it stands there as it is: the
/// family, the port and the octets. Masked, the port is crossed with the first half of the cookie,
/// and the octets with the cookie and then the identifier, byte by byte.
pub proof fn an_address_is_read_byte_by_byte(value: Seq<u8>, id: Seq<u8>)
    requires
        id.len() == 12,
    ensures
        ({
            let port = (value[2] * 256 + value[3]) as u16;
            let mask = seq![0x21u8, 0x12u8, 0xa4u8, 0x42u8] + id;
            let v4 = value.len() >= 8 && value[0] == 0 && value[1] == 1;
            let v6 = value.len() >= 20 && value[0] == 0 && value[1] == 2;
            &&& v4 ==> {
                &&& mapped_address(value) matches Some(SocketAddressView::V4 { octets, port: p })
                    && p == port && octets.len() == 4 && forall|i: int|
                    0 <= i < 4 ==> octets[i] == #[trigger] value[4 + i]
                &&& xor_mapped_address(value, id) matches Some(
                    SocketAddressView::V4 { octets, port: p },
                ) && p == port ^ 0x2112u16 && octets.len() == 4 && forall|i: int|
                    0 <= i < 4 ==> octets[i] == #[trigger] value[4 + i] ^ mask[i]
            }
            &&& v6 ==> {
                &&& mapped_address(value) matches Some(
                    SocketAddressView::V6 { octets, port: p, flowinfo, scope_id },
                ) && p == port && flowinfo == 0 && scope_id == 0 && octets.len() == 16 && forall|
                    i: int,
                |
                    0 <= i < 16 ==> octets[i] == #[trigger] value[4 + i]
                &&& xor_mapped_address(value, id) matches Some(
                    SocketAddressView::V6 { octets, port: p, flowinfo, scope_id },
                ) && p == port ^ 0x2112u16 && flowinfo == 0 && scope_id == 0 && octets.len() == 16
                    && forall|i: int|
                    0 <= i < 16 ==> octets[i] == #[trigger] value[4 + i] ^ mask[i]
            }
            &&& !v4 && !v6 ==> mapped_address(value) is None && xor_mapped_address(value, id)
                is None
        }),
{
    let mask = seq![0x21u8, 0x12u8, 0xa4u8, 0x42u8] + id;
    assert(mask =~= magic_cookie() + id);
    assert(forall|i: int| 0 <= i < 4 ==> mask[i] == magic_cookie()[i]);
}

/// The addresses of this end are those of its interfaces, each with the port of the socket and in
/// the order of the interfaces: all of the socket's family but the loopback, and of IPv6 only those
/// that a peer elsewhere could use.
pub proof fn local_candidates_are_the_interfaces(
    interfaces: Seq<Interface>,
    port: u16,
    ipv4_socket: bool,
    octets: Seq<u8>,
)
    ensures
        interface_candidates(interfaces, port, ipv4_socket).contains(
            CandidateView {
                addr: SocketAddressView::V4 { octets, port },
                kind: CandidateKind::Local,
            },
        ) <==> ipv4_socket && exists|i: int|
            0 <= i < interfaces.len() && !(#[trigger] interfaces[i]).loopback
                && interfaces[i].addr is V4 && interfaces[i].addr->V4_0@ == octets,
        interface_candidates(interfaces, port, ipv4_socket).contains(
            CandidateView {
                addr: SocketAddressView::V6 { octets, port, flowinfo: 0, scope_id: 0 },
                kind: CandidateKind::Local,
            },
        ) <==> !ipv4_socket && useful_ipv6(octets) && exists|i: int|
            0 <= i < interfaces.len() && !(#[trigger] interfaces[i]).loopback
                && interfaces[i].addr is V6 && interfaces[i].addr->V6_0@ == octets,
        forall|k: int|
            0 <= k < interface_candidates(interfaces, port, ipv4_socket).len() ==> {
                let c = #[trigger] interface_candidates(interfaces, port, ipv4_socket)[k];
                &&& c.kind == CandidateKind::Local
                &&& match c.addr {
                    SocketAddressView::V4 { port: p, .. } => ipv4_socket && p == port,
                    SocketAddressView::V6 { port: p, flowinfo, scope_id, .. } => !ipv4_socket && p
                        == port && flowinfo == 0 && scope_id == 0,
                }
            },
        interface_candidates(interfaces, port, ipv4_socket).len() <= interfaces.len(),
    decreases interfaces.len(),
{
    let all = interface_candidates(interfaces, port, ipv4_socket);
    if interfaces.len() > 0 {
        let front = interfaces.drop_last();
        let last = interfaces[interfaces.len() - 1];
        local_candidates_are_the_interfaces(front, port, ipv4_socket, octets);
        let before = interface_candidates(front, port, ipv4_socket);
        let v4 = CandidateView {
            addr: SocketAddressView::V4 { octets, port },
            kind: CandidateKind::Local,
        };
        let v6 = CandidateView {
            addr: SocketAddressView::V6 { octets, port, flowinfo: 0, scope_id: 0 },
            kind: CandidateKind::Local,
        };
        lemma_contains_pushed(before, interface_candidate(last, port, ipv4_socket), v4);
        lemma_contains_pushed(before, interface_candidate(last, port, ipv4_socket), v6);
        assert forall|i: int| 0 <= i < front.len() implies front[i] == interfaces[i] by {}
        if exists|i: int|
            0 <= i < front.len() && !(#[trigger] front[i]).loopback && front[i].addr is V4
                && front[i].addr->V4_0@ == octets {
            let i = choose|i: int|
                0 <= i < front.len() && !(#[trigger] front[i]).loopback && front[i].addr is V4
                    && front[i].addr->V4_0@ == octets;
            assert(!interfaces[i].loopback);
        }
        if exists|i: int|
            0 <= i < front.len() && !(#[trigger] front[i]).loopback && front[i].addr is V6
                && front[i].addr->V6_0@ == octets {
            let i = choose|i: int|
                0 <= i < front.len() && !(#[trigger] front[i]).loopback && front[i].addr is V6
                    && front[i].addr->V6_0@ == octets;
            assert(!interfaces[i].loopback);
        }
        if exists|i: int|
            0 <= i < interfaces.len() && !(#[trigger] interfaces[i]).loopback
                && interfaces[i].addr is V4 && interfaces[i].addr->V4_0@ == octets {
            let i = choose|i: int|
                0 <= i < interfaces.len() && !(#[trigger] interfaces[i]).loopback
                    && interfaces[i].addr is V4 && interfaces[i].addr->V4_0@ == octets;
            if i < front.len() {
                assert(!front[i].loopback);
            }
        }
        if exists|i: int|
            0 <= i < interfaces.len() && !(#[trigger] interfaces[i]).loopback
                && interfaces[i].addr is V6 && interfaces[i].addr->V6_0@ == octets {
            let i = choose|i: int|
                0 <= i < interfaces.len() && !(#[trigger] interfaces[i]).loopback
                    && interfaces[i].addr is V6 && interfaces[i].addr->V6_0@ == octets;
            if i < front.len() {
                assert(!front[i].loopback);
            }
        }
        assert forall|k: int| 0 <= k < all.len() implies {
            let c = #[trigger] all[k];
            &&& c.kind == CandidateKind::Local
            &&& match c.addr {
                SocketAddressView::V4 { port: p, .. } => ipv4_socket && p == port,
                SocketAddressView::V6 { port: p, flowinfo, scope_id, .. } => !ipv4_socket && p
                    == port && flowinfo == 0 && scope_id == 0,
            }
        } by {
            if k < before.len() {
                assert(all[k] == before[k]);
            }
        }
    }
}

proof fn lemma_contains_pushed(
    before: Seq<CandidateView>,
    added: Option<CandidateView>,
    c: CandidateView,
)
    ensures
        match added {
            Some(a) => before.push(a).contains(c) <==> before.contains(c) || a == c,
            None => true,
        },
{
    if let Some(a) = added {
        if before.contains(c) {
            let i = before.index_of(c);
            assert(before.push(a)[i] == c);
        }
        assert(before.push(a)[before.len() as int] == a);
        if before.push(a).contains(c) {
            let i = before.push(a).index_of(c);
            if i < before.len() {
                assert(before[i] == c);
            }
        }
    }
}

/// A peer elsewhere can use an address of IPv6 unless it is the loopback address, none at all, one
/// of the private range that begins with the bits of `fc00`, or one of the link that begins with
/// those of `fe80`.
pub proof fn useful_addresses_lead_out(octets: Seq<u8>)
    requires
        octets.len() == 16,
    ensures
        ({
            let zeros = forall|i: int| 0 <= i < 15 ==> octets[i] == 0;
            useful_ipv6(octets) <==> !(zeros && octets[15] == 0) && !(zeros && octets[15] == 1)
                && octets[0] / 2 != 0x7e && !(octets[0] == 0xfe && octets[1] / 64 == 2)
        }),
{
    let low = Seq::new(15, |i: int| 0u8);
    let zeros = forall|i: int| 0 <= i < 15 ==> octets[i] == 0;
    if zeros {
        assert(octets =~= low.push(octets[15]));
    } else {
        let i = choose|i: int| 0 <= i < 15 && octets[i] != 0;
        assert(low.push(1)[i] == 0);
        assert(low.push(0)[i] == 0);
    }
    assert(low.push(1)[15] == 1 && low.push(0)[15] == 0);
}

/// The servers that a list names are asked in its order, each without the white space around it, and
/// blank ones are left out; without a list three well-known ones are asked.
pub proof fn named_servers_are_asked(pieces: Seq<Seq<char>>, more: Seq<char>)
    ensures
        named_servers(pieces.push(more)) == if text::white_trimmed(more).len() == 0 {
            named_servers(pieces)
        } else {
            named_servers(pieces).push(text::white_trimmed(more))
        },
        named_servers(Seq::<Seq<char>>::empty()).len() == 0,
        default_stun_servers() == seq![
            "stun.miwifi.com:3478"@,
            "stun.l.google.com:19302"@,
            "stun.cloudflare.com:3478"@,
        ],
{
    assert(pieces.push(more).drop_last() == pieces);
}

/// A client says that it can share its desktop exactly where it is built for Windows, and its peer
/// understands it.
pub proof fn capabilities_are_understood(target_os: Seq<char>, info: ConnectInfoView)
    requires
        info.capabilities == capabilities_for(target_os),
    ensures
        info.offers_remote_desktop() <==> target_os == "windows"@,
        info.is_supported() <==> info.version == 1,
{
    if target_os == "windows"@ {
        assert(info.capabilities[0] == REMOTE_DESKTOP_CAPABILITY@);
    }
}

/// The identifiers in a list.
pub open spec fn id_set(ids: Seq<[u8; 12]>) -> Set<Seq<u8>>
    decreases ids.len(),
{
    if ids.len() == 0 {
        Set::empty()
    } else {
        id_set(ids.drop_last()).insert(ids.last()@)
    }
}

/// The unanswered requests and the addresses found after a packet came.
pub open spec fn answered(waiting: Set<Seq<u8>>, found: Seq<CandidateView>, packet: Seq<u8>) -> (
    Set<Seq<u8>>,
    Seq<CandidateView>,
) {
    match binding_response(packet) {
        Some((id, addr)) if waiting.contains(id) => (
            waiting.remove(id),
            found.push(CandidateView { addr, kind: CandidateKind::ServerReflexive }),
        ),
        _ => (waiting, found),
    }
}

/// The requests that are still unanswered, and the addresses found so far.
#[derive(Debug)]
pub struct StunQuery {
    pub pending: Vec<[u8; 12]>,
    pub found: Vec<Candidate>,
}

impl StunQuery {
    /// The identifiers of the unanswered requests.
    pub open spec fn waiting(self) -> Set<Seq<u8>> {
        id_set(self.pending@)
    }

    pub fn new() -> (r: Self)
        ensures
            r.waiting() == Set::<Seq<u8>>::empty(),
            candidate_views(r.found@) == Seq::<CandidateView>::empty(),
    {
        let r = StunQuery { pending: Vec::new(), found: Vec::new() };
        assert(candidate_views(r.found@) =~= Seq::<CandidateView>::empty());
        r
    }

    /// A request has been sent.
    pub fn sent(&mut self, id: [u8; 12])
        ensures
            final(self).waiting() == old(self).waiting().insert(id@),
            final(self).found == old(self).found,
    {
        self.pending.push(id);
        assert(self.pending@.drop_last() == old(self).pending@);
    }

    pub fn is_done(&self) -> (r: bool)
        ensures
            r == (self.waiting() == Set::<Seq<u8>>::empty()),
    {
        assert(self.pending@.len() > 0 ==> self.waiting().contains(self.pending@.last()@));
        self.pending.len() == 0
    }

    /// A packet has come. A response to a request that is still unanswered answers it and gives a
    /// candidate; anything else changes nothing.
    pub fn receive(&mut self, packet: &[u8])
        ensures
            match binding_response(packet@) {
                Some((id, addr)) if old(self).waiting().contains(id) => {
                    &&& final(self).waiting() == old(self).waiting().remove(id)
                    &&& candidate_views(final(self).found@) == candidate_views(
                        old(self).found@,
                    ).push(CandidateView { addr, kind: CandidateKind::ServerReflexive })
                },
                _ => {
                    &&& final(self).waiting() == old(self).waiting()
                    &&& candidate_views(final(self).found@) == candidate_views(old(self).found@)
                },
            },
            (final(self).waiting(), candidate_views(final(self).found@)) == answered(
                old(self).waiting(),
                candidate_views(old(self).found@),
                packet@,
            ),
    {
        if let Some((id, addr)) = parse_stun_binding_response(packet) {
            let ghost before = self.pending@;
            let mut rest: Vec<[u8; 12]> = Vec::new();
            let mut known = false;
            let mut i: usize = 0;
            assert(id_set(rest@) =~= id_set(before.take(0)).remove(id@));
            while i < self.pending.len()
                invariant
                    before == self.pending@,
                    i <= before.len(),
                    id_set(rest@) == id_set(before.take(i as int)).remove(id@),
                    known == id_set(before.take(i as int)).contains(id@),
                decreases before.len() - i,
            {
                let p: [u8; 12] = self.pending[i];
                assert(before.take(i + 1).drop_last() == before.take(i as int));
                if same_octets(p.as_slice(), id.as_slice()) {
                    known = true;
                } else {
                    let ghost kept = rest@;
                    rest.push(p);
                    assert(rest@.drop_last() == kept);
                }
                i += 1;
                assert(id_set(rest@) =~= id_set(before.take(i as int)).remove(id@));
            }
            assert(before.take(i as int) == before);
            self.pending = rest;
            if known {
                let ghost list = candidate_views(self.found@);
                self.found.push(Candidate { addr, kind: CandidateKind::ServerReflexive });
                assert(candidate_views(self.found@) =~= list.push(
                    CandidateView { addr: addr@, kind: CandidateKind::ServerReflexive },
                ));
            } else {
                assert(self.waiting() =~= old(self).waiting());
            }
        }
    }
}

/// The token that two times sixteen bytes make.
pub fn token_of(a: &[u8; 16], b: &[u8; 16]) -> (r: String)
    ensures
        r@ == encoding::base64_text(a@ + b@),
        r@.len() == 44,
{
    let mut bytes: Vec<u8> = Vec::new();
    bytes.extend_from_slice(a.as_slice());
    bytes.extend_from_slice(b.as_slice());
    assert(bytes@ =~= a@ + b@);
    encoding::base64_encode(bytes.as_slice())
}

/// A fresh token by which the two peers know each other.
pub fn pairing_token() -> (r: String)
    ensures
        r@.len() == 44,
        exists|a: Seq<u8>, b: Seq<u8>|
            #![trigger random::is_random_bytes(a), random::is_random_bytes(b)]
            random::is_random_bytes(a) && random::is_random_bytes(b) && r@
                == encoding::base64_text(a + b),
{
    let a = random::random_bytes();
    let b = random::random_bytes();
    token_of(&a, &b)
}

/// By what a peer's certificate is known: its SHA-256 digest in hexadecimal.
pub fn certificate_hash(cert: &[u8]) -> (r: String)
    ensures
        r@ == text::hex_text(digest::sha256(cert@)),
        r@.len() == 64,
{
    digest::sha256_hex(cert)
}

/// An answer counts once, and only where it was asked for: the address in it is found, the request is
/// answered, and the same packet again changes nothing; nor does a packet that is no answer.
pub proof fn an_answer_counts_once(
    waiting: Set<Seq<u8>>,
    found: Seq<CandidateView>,
    packet: Seq<u8>,
)
    ensures
        ({
            let (w, f) = answered(waiting, found, packet);
            &&& binding_response(packet) is None ==> w == waiting && f == found
            &&& binding_response(packet) matches Some((id, addr)) ==> {
                &&& !waiting.contains(id) ==> w == waiting && f == found
                &&& waiting.contains(id) ==> {
                    &&& !w.contains(id)
                    &&& f == found.push(
                        CandidateView { addr, kind: CandidateKind::ServerReflexive },
                    )
                    &&& answered(w, f, packet) == (w, f)
                    &&& forall|other: Seq<u8>|
                        other != id ==> (#[trigger] w.contains(other) <==> waiting.contains(other))
                }
            }
        }),
{
}

/// Without a list the usual servers are asked; with one those that it names and no others, so none
/// where it is empty.
pub proof fn a_list_replaces_the_usual_servers(name: Seq<char>)
    requires
        name.len() > 0,
        !text::is_white(name[0]),
        !text::is_white(name.last()),
        !name.contains(','),
    ensures
        servers_to_ask(None).len() == 3,
        servers_to_ask(Some(name)) == seq![name],
        servers_to_ask(Some(Seq::empty())).len() == 0,
{
    let none = Seq::<char>::empty();
    lemma_one_piece(name);
    text::white_space_around_a_text_is_dropped(none, name, none);
    assert(none + name + none =~= name);
    let pieces = seq![name];
    assert(pieces =~= Seq::<Seq<char>>::empty().push(name));
    named_servers_are_asked(Seq::empty(), name);
    assert(named_servers(pieces) =~= seq![name]);
    named_servers_are_asked(Seq::empty(), none);
    assert(seq![none] =~= Seq::<Seq<char>>::empty().push(none));
    text::white_space_around_a_text_is_dropped(none, none, none);
    assert(none + none + none =~= none);
}

proof fn lemma_one_piece(s: Seq<char>)
    requires
        !s.contains(','),
    ensures
        text::split_pieces(s, ',') == seq![s],
    decreases s.len(),
{
    if s.len() > 0 {
        assert forall|i: int| 0 <= i < s.drop_last().len() implies s.drop_last()[i] != ',' by {
            assert(s[i] == s.drop_last()[i]);
            assert(s.contains(s[i]));
        }
        assert(s.contains(s[s.len() - 1]));
        lemma_one_piece(s.drop_last());
        assert(s.drop_last().push(s.last()) =~= s);
        assert(text::split_pieces(s, ',') =~= seq![s]);
    } else {
        assert(s =~= Seq::<char>::empty());
    }
}

/// What a client tells of itself is what its peer reads: its role, its addresses, its certificate and
/// its token, in a form that every client of this kind takes.
pub proof fn own_info_tells_all(
    role: SignalingRole,
    candidates: Seq<CandidateView>,
    cert_hash: Seq<char>,
    pairing_token: Seq<char>,
    target_os: Seq<char>,
)
    ensures
        ({
            let info = own_info(role, candidates, cert_hash, pairing_token, target_os);
            &&& info.role == role
            &&& info.candidates == candidates
            &&& info.cert_hash == cert_hash
            &&& info.pairing_token == pairing_token
            &&& info.is_supported()
        }),
{
}

}
