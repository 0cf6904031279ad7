//! How a direct link between the two peers comes about.
use crate::candidates::{
    Candidate, CandidateKind, CandidateView, SocketAddress, SocketAddressView,
};
use crate::p2p_proto::{P2pMessage, P2pMessageView};
use crate::signaling::SignalingRole;
use crate::{candidates, digest, text};
use vstd::prelude::*;

verus! {

/// What is known of a direct link.
#[derive(Debug, PartialEq, Eq)]
pub struct DirectLinkInfo {
    pub remote_addr: SocketAddress,
    pub local_role: SignalingRole,
    pub peer_remote_desktop: bool,
}

#[verifier::ext_equal]
pub struct DirectLinkInfoView {
    pub remote_addr: SocketAddressView,
    pub local_role: SignalingRole,
    pub peer_remote_desktop: bool,
}

impl View for DirectLinkInfo {
    type V = DirectLinkInfoView;

    open spec fn view(&self) -> DirectLinkInfoView {
        DirectLinkInfoView {
            remote_addr: self.remote_addr@,
            local_role: self.local_role,
            peer_remote_desktop: self.peer_remote_desktop,
        }
    }
}

impl Clone for DirectLinkInfo {
    fn clone(&self) -> (r: Self)
        ensures
            r@ == self@,
    {
        DirectLinkInfo {
            remote_addr: self.remote_addr,
            local_role: self.local_role,
            peer_remote_desktop: self.peer_remote_desktop,
        }
    }
}

#[verifier::external_type_specification]
#[verifier::external_body]
pub struct ExCertificateFailure(rcgen::Error);

/// The certificate and the private key of this end of a link, both in DER.
#[derive(Debug)]
pub struct DirectCertificate {
    pub cert_der: Vec<u8>,
    pub key_der: Vec<u8>,
}

/// Why there is no certificate.
#[derive(Debug)]
pub struct CertificateError {
    pub cause: rcgen::Error,
}

/// The names that a certificate in DER is made out to.
pub uninterp spec fn certified_names(cert_der: Seq<u8>) -> Seq<Seq<char>>;

/// The public key that a certificate in DER is about.
pub uninterp spec fn certified_key(cert_der: Seq<u8>) -> Seq<u8>;

/// The public key that belongs to a private key in DER.
pub uninterp spec fn public_key(key_der: Seq<u8>) -> Seq<u8>;

/// A name that cannot be taken for an address: addresses end in a digit or hold a colon.
pub open spec fn is_host_name(name: Seq<char>) -> bool {
    &&& name.len() > 0
    &&& !text::is_digit(name.last())
    &&& !name.contains(':')
}

/// `rcgen::generate_simple_self_signed`: a certificate for the names and its private key, both in
/// DER. The key is drawn at random and the certificate made out to it, so that the certificate
/// holds the public key that belongs to the private one. That it lists the names, in their order,
/// is claimed of names that are not addresses.
#[verifier::external_body]
fn self_signed(names: Vec<String>) -> (r: Result<(Vec<u8>, Vec<u8>), rcgen::Error>)
    ensures
        (forall|i: int| 0 <= i < names@.len() ==> is_host_name((#[trigger] names@[i])@)) ==> (
        r matches Ok((cert, _)) ==> certified_names(cert@) == text::texts(names@)),
        r matches Ok((cert, key)) ==> certified_key(cert@) == public_key(key@),
{
    let made = rcgen::generate_simple_self_signed(names)?;
    Ok((made.cert.der().to_vec(), made.signing_key.serialize_der()))
}

/// The certificate and key that were made, or why none were.
pub fn certificate_from(made: Result<(Vec<u8>, Vec<u8>), rcgen::Error>) -> (r: Result<
    DirectCertificate,
    CertificateError,
>)
    ensures
        match (made, r) {
            (Ok((cert, key)), Ok(c)) => c.cert_der == cert && c.key_der == key,
            (Err(e), Err(f)) => f.cause == e,
            _ => false,
        },
{
    match made {
        Ok((cert_der, key_der)) => Ok(DirectCertificate { cert_der, key_der }),
        Err(cause) => Err(CertificateError { cause }),
    }
}

/// A fresh certificate for the name by which the peer dials this end, with its private key.
pub fn generate_direct_certificate() -> (r: Result<DirectCertificate, CertificateError>)
    ensures
        r matches Ok(c) ==> certified_names(c.cert_der@) == seq!["p2p.local"@],
        r matches Ok(c) ==> certified_key(c.cert_der@) == public_key(c.key_der@),
{
    let mut names: Vec<String> = Vec::new();
    names.push("p2p.local".to_owned());
    assert(text::texts(names@) =~= seq!["p2p.local"@]);
    proof {
        reveal_strlit("p2p.local");
    }
    certificate_from(self_signed(names))
}

/// What an end of the link does to bring it about.
#[derive(Debug, Clone, Copy, PartialEq, Eq, Structural)]
pub enum LinkPlan {
    Accept,
    Dial,
}

/// What an end does, by its role and that of the peer.
pub open spec fn plan_for(local: SignalingRole, peer: SignalingRole) -> Result<LinkPlan, Seq<char>> {
    if peer == local {
        Err("对端角色与本端相同，无法建立直连"@)
    } else if local == SignalingRole::Host {
        Ok(LinkPlan::Accept)
    } else {
        Ok(LinkPlan::Dial)
    }
}

/// The host waits to be dialled by the guest; two peers of one role cannot meet.
pub fn link_plan(local: SignalingRole, peer: SignalingRole) -> (r: Result<LinkPlan, String>)
    ensures
        text::error_text(r) == if peer == local {
            Err::<LinkPlan, Seq<char>>("对端角色与本端相同，无法建立直连"@)
        } else if local == SignalingRole::Host {
            Ok(LinkPlan::Accept)
        } else {
            Ok(LinkPlan::Dial)
        },
        text::error_text(r) == plan_for(local, peer),
{
    if peer == local {
        return Err("对端角色与本端相同，无法建立直连".to_owned());
    }
    match local {
        SignalingRole::Host => Ok(LinkPlan::Accept),
        SignalingRole::Guest => Ok(LinkPlan::Dial),
    }
}

/// The candidates of one family and kind, in their order.
pub open spec fn of_kind(
    candidates: Seq<CandidateView>,
    ipv4: bool,
    kind: CandidateKind,
) -> Seq<CandidateView>
    decreases candidates.len(),
{
    if candidates.len() == 0 {
        candidates
    } else {
        let before = of_kind(candidates.drop_last(), ipv4, kind);
        let last = candidates.last();
        if (last.addr is V4) == ipv4 && last.kind == kind {
            before.push(last)
        } else {
            before
        }
    }
}

/// The candidates to dial: those of the socket's own family, local ones first.
pub open spec fn dial_order(candidates: Seq<CandidateView>, ipv4: bool) -> Seq<CandidateView> {
    of_kind(candidates, ipv4, CandidateKind::Local) + of_kind(
        candidates,
        ipv4,
        CandidateKind::ServerReflexive,
    )
}

fn collect_kind(list: &Vec<Candidate>, ipv4: bool, kind: CandidateKind) -> (r: Vec<Candidate>)
    ensures
        candidates::candidate_views(r@) == of_kind(
            candidates::candidate_views(list@),
            ipv4,
            kind,
        ),
{
    let ghost all = candidates::candidate_views(list@);
    let mut r: Vec<Candidate> = Vec::new();
    let mut i: usize = 0;
    assert(candidates::candidate_views(r@) =~= of_kind(all.take(0), ipv4, kind));
    while i < list.len()
        invariant
            all == candidates::candidate_views(list@),
            i <= list@.len(),
            candidates::candidate_views(r@) == of_kind(all.take(i as int), ipv4, kind),
        decreases list@.len() - i,
    {
        let candidate = list[i];
        assert(all.take(i + 1).drop_last() == all.take(i as int));
        assert(all.take(i + 1).last() == candidate@);
        if candidate.addr.is_ipv4() == ipv4 && candidate.kind == kind {
            let ghost before = candidates::candidate_views(r@);
            r.push(candidate);
            assert(candidates::candidate_views(r@) =~= before.push(candidate@));
        }
        i += 1;
    }
    assert(all.take(i as int) == all);
    r
}

pub fn ordered_compatible_candidates(list: &Vec<Candidate>, local_addr: SocketAddress) -> (r: Vec<
    Candidate,
>)
    ensures
        candidates::candidate_views(r@) == dial_order(
            candidates::candidate_views(list@),
            local_addr@ is V4,
        ),
{
    let ipv4 = local_addr.is_ipv4();
    let mut r = collect_kind(list, ipv4, CandidateKind::Local);
    let mut rest = collect_kind(list, ipv4, CandidateKind::ServerReflexive);
    let ghost first = candidates::candidate_views(r@);
    let ghost second = candidates::candidate_views(rest@);
    r.append(&mut rest);
    assert(candidates::candidate_views(r@) =~= first + second);
    r
}

/// The candidates to dial, or an error where the peer has none of the socket's family.
pub fn dial_candidates(list: &Vec<Candidate>, local_addr: SocketAddress) -> (r: Result<
    Vec<Candidate>,
    String,
>)
    ensures
        ({
            let order = dial_order(candidates::candidate_views(list@), local_addr@ is V4);
            match r {
                Ok(c) => order.len() > 0 && candidates::candidate_views(c@) == order,
                Err(e) => order.len() == 0 && e@ == "对端没有可用的同族 UDP 候选地址"@,
            }
        }),
{
    let order = ordered_compatible_candidates(list, local_addr);
    if order.len() == 0 {
        return Err("对端没有可用的同族 UDP 候选地址".to_owned());
    }
    Ok(order)
}

/// What is dialled are candidates of the peer, and all of those that the socket can reach.
pub proof fn dial_order_keeps_reachable_candidates(candidates: Seq<CandidateView>, ipv4: bool)
    ensures
        forall|c: CandidateView| #[trigger]
            dial_order(candidates, ipv4).contains(c) <==> candidates.contains(c) && (c.addr is V4)
                == ipv4,
        forall|i: int, j: int|
            0 <= i < j < dial_order(candidates, ipv4).len() && (#[trigger] dial_order(
                candidates,
                ipv4,
            )[j]).kind == CandidateKind::Local ==> (#[trigger] dial_order(
                candidates,
                ipv4,
            )[i]).kind == CandidateKind::Local,
{
    let a = of_kind(candidates, ipv4, CandidateKind::Local);
    let b = of_kind(candidates, ipv4, CandidateKind::ServerReflexive);
    lemma_of_kind(candidates, ipv4, CandidateKind::Local);
    lemma_of_kind(candidates, ipv4, CandidateKind::ServerReflexive);
    let all = dial_order(candidates, ipv4);
    assert forall|c: CandidateView| #[trigger]
        all.contains(c) <==> candidates.contains(c) && (c.addr is V4) == ipv4 by {
        if all.contains(c) {
            let k = all.index_of(c);
            if k < a.len() {
                assert(a[k] == c);
                assert(a.contains(c));
            } else {
                assert(b[k - a.len()] == c);
                assert(b.contains(c));
            }
        }
        if candidates.contains(c) && (c.addr is V4) == ipv4 {
            if c.kind == CandidateKind::Local {
                assert(a.contains(c));
                let k = a.index_of(c);
                assert(all[k] == c);
            } else {
                assert(b.contains(c));
                let k = b.index_of(c);
                assert(all[a.len() + k] == c);
            }
        }
    }
    assert forall|i: int, j: int|
        0 <= i < j < all.len() && (#[trigger] all[j]).kind == CandidateKind::Local implies (
    #[trigger] all[i]).kind == CandidateKind::Local by {
        if j >= a.len() {
            assert(b.contains(b[j - a.len()]));
        } else {
            assert(a.contains(a[i]));
        }
    }
}

proof fn lemma_of_kind(candidates: Seq<CandidateView>, ipv4: bool, kind: CandidateKind)
    ensures
        forall|c: CandidateView| #[trigger]
            of_kind(candidates, ipv4, kind).contains(c) <==> candidates.contains(c) && (
            c.addr is V4) == ipv4 && c.kind == kind,
    decreases candidates.len(),
{
    if candidates.len() > 0 {
        let front = candidates.drop_last();
        let last = candidates.last();
        lemma_of_kind(front, ipv4, kind);
        let before = of_kind(front, ipv4, kind);
        let after = of_kind(candidates, ipv4, kind);
        assert forall|c: CandidateView| #[trigger]
            after.contains(c) <==> candidates.contains(c) && (c.addr is V4) == ipv4 && c.kind
                == kind by {
            if candidates.contains(c) && (c.addr is V4) == ipv4 && c.kind == kind {
                let k = candidates.index_of(c);
                if k < front.len() {
                    assert(front[k] == c);
                    assert(before.contains(c));
                    let m = before.index_of(c);
                    assert(after[m] == c);
                } else {
                    assert(after[before.len() as int] == c);
                }
            }
            if after.contains(c) {
                let k = after.index_of(c);
                if k < before.len() {
                    assert(before[k] == c);
                    assert(before.contains(c));
                    assert(front.contains(c));
                    let m = front.index_of(c);
                    assert(candidates[m] == c);
                } else {
                    assert(candidates[candidates.len() - 1] == c);
                }
            }
        }
    }
}

/// Why the first message on a link does not open it.
#[derive(Debug, Clone, Copy, PartialEq, Eq, Structural)]
pub enum HelloError {
    TokenMismatch,
    NotHello,
}

/// Nothing, or why the message does not open a link.
pub open spec fn hello_check(message: P2pMessageView, expected_token: Seq<char>) -> Result<
    (),
    HelloError,
> {
    match message {
        P2pMessageView::Hello { token } => if token == expected_token {
            Ok(())
        } else {
            Err(HelloError::TokenMismatch)
        },
        _ => Err(HelloError::NotHello),
    }
}

/// A link opens with a greeting that holds the token the peer announced.
pub fn check_hello(message: &P2pMessage, expected_token: &str) -> (r: Result<(), HelloError>)
    ensures
        r == match message@ {
            P2pMessageView::Hello { token } => if token == expected_token@ {
                Ok::<(), HelloError>(())
            } else {
                Err(HelloError::TokenMismatch)
            },
            _ => Err(HelloError::NotHello),
        },
        r == hello_check(message@, expected_token@),
{
    match message {
        P2pMessage::Hello { token } => {
            if text::same_text(token.as_str(), expected_token) {
                Ok(())
            } else {
                Err(HelloError::TokenMismatch)
            }
        },
        _ => Err(HelloError::NotHello),
    }
}

/// The greeting with which this end opens a link.
pub fn hello_message(token: &str) -> (r: P2pMessage)
    ensures
        r@ == (P2pMessageView::Hello { token: token@ }),
        hello_check(r@, token@) is Ok,
{
    P2pMessage::Hello { token: token.to_owned() }
}

/// Is this the certificate whose digest was told?
pub open spec fn is_certificate(cert: Seq<u8>, told: Seq<char>) -> bool {
    text::hex_text(digest::sha256(cert)) == told
}

/// Is this the certificate that the peer announced by its hash?
pub fn certificate_matches(cert_der: &[u8], expected_hash: &str) -> (r: bool)
    ensures
        r == (text::hex_text(digest::sha256(cert_der@)) == expected_hash@),
        r == is_certificate(cert_der@, expected_hash@),
{
    let actual = digest::sha256_hex(cert_der);
    text::same_text(actual.as_str(), expected_hash)
}

/// Two ends of different roles find each other: the guest dials and the host accepts. Two of one role
/// do not, and both are told the same.
pub proof fn one_end_dials_and_the_other_accepts(local: SignalingRole, peer: SignalingRole)
    ensures
        plan_for(SignalingRole::Host, SignalingRole::Guest) == Ok::<_, Seq<char>>(LinkPlan::Accept),
        plan_for(SignalingRole::Guest, SignalingRole::Host) == Ok::<_, Seq<char>>(LinkPlan::Dial),
        plan_for(local, peer) is Ok <==> local != peer,
        local == peer ==> plan_for(local, peer) == plan_for(peer, local),
{
}

/// A link opens with a greeting with the token that was announced, and with no other message; a
/// greeting with another token, and a message that is no greeting, are told apart.
pub proof fn only_the_token_opens_a_link(
    message: P2pMessageView,
    token: Seq<char>,
    expected: Seq<char>,
)
    ensures
        hello_check(message, expected) is Ok <==> message == (P2pMessageView::Hello {
            token: expected,
        }),
        token != expected ==> hello_check(P2pMessageView::Hello { token }, expected) == Err::<
            (),
            HelloError,
        >(HelloError::TokenMismatch),
        !(message is Hello) ==> hello_check(message, expected) == Err::<(), HelloError>(
            HelloError::NotHello,
        ),
{
}

/// A certificate is taken for the peer's where its digest is the one that the peer told, and only
/// there: two certificates that are taken for one digest have one digest.
pub proof fn the_told_certificate_is_taken(a: Seq<u8>, b: Seq<u8>, told: Seq<char>)
    ensures
        is_certificate(a, text::hex_text(digest::sha256(a))),
        is_certificate(a, told) && is_certificate(b, told) ==> text::hex_text(digest::sha256(a))
            == text::hex_text(digest::sha256(b)),
{
}

/// Candidates are dialled in the order in which they came, local ones before those that a server saw;
/// those of the other family are left out.
pub proof fn local_candidates_are_dialled_first(
    list: Seq<CandidateView>,
    c: CandidateView,
    ipv4: bool,
)
    ensures
        ({
            let fits = (c.addr is V4) == ipv4;
            let before = of_kind(list, ipv4, CandidateKind::Local);
            let behind = of_kind(list, ipv4, CandidateKind::ServerReflexive);
            &&& dial_order(list, ipv4) == before + behind
            &&& !fits ==> dial_order(list.push(c), ipv4) == dial_order(list, ipv4)
            &&& fits && c.kind == CandidateKind::Local ==> dial_order(list.push(c), ipv4)
                == before.push(c) + behind
            &&& fits && c.kind == CandidateKind::ServerReflexive ==> dial_order(list.push(c), ipv4)
                == (before + behind).push(c)
            &&& dial_order(Seq::empty(), ipv4).len() == 0
        }),
{
    assert(list.push(c).drop_last() =~= list);
    let before = of_kind(list, ipv4, CandidateKind::Local);
    let behind = of_kind(list, ipv4, CandidateKind::ServerReflexive);
    assert(before + behind.push(c) =~= (before + behind).push(c));
}

}
