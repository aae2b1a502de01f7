//! Where leaders take transactions.

use crate::pubkey::Pubkey;
use std::sync::Arc;
use vstd::prelude::*;

verus! {

/// A socket address. The bits of the IP address are in network byte order.
#[derive(Debug, Clone, Copy, PartialEq, Eq, Structural)]
pub enum SocketAddr {
    V4 { ip: u32, port: u16 },
    V6 { ip: u128, port: u16, flowinfo: u32, scope_id: u32 },
}

/// Which of a leader's TPU ports to send to.
#[derive(Debug, Clone, Copy, PartialEq, Eq, Structural)]
pub enum TpuPortKind {
    /// The port for transactions from clients.
    Normal,
    /// The port for transactions that another validator forwards.
    Forwards,
}

/// Service to get the TPU contact info of leaders.
pub trait LeaderTpuInfoService {
    /// The address of the leader's TPU port.
    fn get_quic_tpu_socket_addr(&self, leader_pubkey: &Pubkey) -> Option<SocketAddr>;

    /// The address of the leader's TPU port for forwarded transactions.
    fn get_quic_tpu_fwd_socket_addr(&self, leader_pubkey: &Pubkey) -> Option<SocketAddr>;
}

/// Asked for the leader's port of that kind, the service can answer `addr`.
pub open spec fn dest_addr_answered<L: LeaderTpuInfoService>(
    service: &L,
    leader: Pubkey,
    kind: TpuPortKind,
    addr: Option<SocketAddr>,
) -> bool {
    match kind {
        TpuPortKind::Normal => call_ensures(
            L::get_quic_tpu_socket_addr,
            (service, &leader),
            addr,
        ),
        TpuPortKind::Forwards => call_ensures(
            L::get_quic_tpu_fwd_socket_addr,
            (service, &leader),
            addr,
        ),
    }
}

/// The address of the leader's port of that kind.
pub fn get_quic_dest_addr<L: LeaderTpuInfoService>(
    service: &L,
    leader: &Pubkey,
    kind: TpuPortKind,
) -> (r: Option<SocketAddr>)
    ensures
        dest_addr_answered(service, *leader, kind, r),
{
    match kind {
        TpuPortKind::Normal => service.get_quic_tpu_socket_addr(leader),
        TpuPortKind::Forwards => service.get_quic_tpu_fwd_socket_addr(leader),
    }
}

/// A question for the address of a leader, and the answer.
pub struct AddrLookup {
    pub leader: Pubkey,
    pub addr: Option<SocketAddr>,
}

/// A handle on the service that knows the addresses of leaders, for one kind of port. It keeps
/// a record of the leaders that are asked about through [`LeaderAddresses::get`], in order.
pub struct LeaderAddresses<L> {
    service: Arc<L>,
    kind: TpuPortKind,
    asked: Ghost<Seq<AddrLookup>>,
}

impl<L> LeaderAddresses<L> {
    /// The service that is asked.
    pub closed spec fn service(&self) -> L {
        *self.service
    }

    /// The kind of port whose address is asked for.
    pub closed spec fn kind(&self) -> TpuPortKind {
        self.kind
    }

    /// What was asked through this handle.
    pub closed spec fn asked(&self) -> Seq<AddrLookup> {
        self.asked@
    }

    /// A handle through which nothing was asked yet.
    pub fn new(service: Arc<L>, kind: TpuPortKind) -> (r: Self)
        ensures
            r.service() == *service,
            r.kind() == kind,
            r.asked() == Seq::<AddrLookup>::empty(),
    {
        LeaderAddresses { service, kind, asked: Ghost(Seq::empty()) }
    }

    /// The kind of port whose address is asked for.
    pub fn port_kind(&self) -> (r: TpuPortKind)
        ensures
            r == self.kind(),
    {
        self.kind
    }
}

impl<L: LeaderTpuInfoService> LeaderAddresses<L> {
    /// Asks for the address of a leader.
    pub fn get(&mut self, leader: &Pubkey) -> (r: Option<SocketAddr>)
        ensures
            dest_addr_answered(&old(self).service(), *leader, old(self).kind(), r),
            final(self).service() == old(self).service(),
            final(self).kind() == old(self).kind(),
            final(self).asked() == old(self).asked().push(AddrLookup { leader: *leader, addr: r }),
    {
        let addr = get_quic_dest_addr(&*self.service, leader, self.kind);
        self.asked = Ghost(self.asked@.push(AddrLookup { leader: *leader, addr }));
        addr
    }
}

impl<L> Clone for LeaderAddresses<L> {
    /// A handle on the same service, with a record of its own.
    fn clone(&self) -> (r: Self)
        ensures
            r.service() == self.service(),
            r.kind() == self.kind(),
            r.asked() == Seq::<AddrLookup>::empty(),
    {
        LeaderAddresses { service: self.service.clone(), kind: self.kind, asked: Ghost(Seq::empty()) }
    }
}

/// The address of a leader is that of its port of the given kind, as the service answers.
pub proof fn law_the_kind_of_port_picks_the_address<L: LeaderTpuInfoService>(
    service: &L,
    leader: &Pubkey,
    kind: TpuPortKind,
    addr: Option<SocketAddr>,
)
    requires
        call_ensures(get_quic_dest_addr::<L>, (service, leader, kind), addr),
    ensures
        kind is Normal ==> call_ensures(L::get_quic_tpu_socket_addr, (service, leader), addr),
        kind is Forwards ==> call_ensures(L::get_quic_tpu_fwd_socket_addr, (service, leader), addr),
{
}

/// A handle asks its service about the given leader, for its kind of port, and takes the question
/// and the answer down.
pub proof fn law_a_handle_asks_about_the_given_leader<L: LeaderTpuInfoService>(
    leader: &Pubkey,
    addr: Option<SocketAddr>,
)
    ensures
        forall|addresses: &mut LeaderAddresses<L>| #[trigger]
            call_ensures(LeaderAddresses::<L>::get, (addresses, leader), addr) ==> {
                let service = addresses.service();
                let asked = final(addresses).asked();
                &&& addresses.kind() is Normal ==> call_ensures(
                    L::get_quic_tpu_socket_addr,
                    (&service, leader),
                    addr,
                )
                &&& addresses.kind() is Forwards ==> call_ensures(
                    L::get_quic_tpu_fwd_socket_addr,
                    (&service, leader),
                    addr,
                )
                &&& final(addresses).service() == service
                &&& final(addresses).kind() == addresses.kind()
                &&& asked.len() == addresses.asked().len() + 1
                &&& addresses.asked().is_prefix_of(asked)
                &&& asked.last().leader == *leader
                &&& asked.last().addr == addr
            },
{
}

/// A handle asks the given service about the given kind of port, says which kind that is, and has
/// asked nothing yet; so has a clone of any handle.
pub proof fn law_a_new_handle_has_asked_nothing<L>(
    service: Arc<L>,
    kind: TpuPortKind,
    addresses: LeaderAddresses<L>,
    port_kind: TpuPortKind,
    copy: LeaderAddresses<L>,
)
    requires
        call_ensures(LeaderAddresses::<L>::new, (service, kind), addresses),
        call_ensures(LeaderAddresses::<L>::port_kind, (&addresses,), port_kind),
        call_ensures(LeaderAddresses::<L>::clone, (&addresses,), copy),
    ensures
        addresses.service() == *service,
        addresses.kind() == kind,
        addresses.asked().len() == 0,
        port_kind == kind,
        copy.service() == *service,
        copy.kind() == kind,
        copy.asked().len() == 0,
{
}

} // verus!
