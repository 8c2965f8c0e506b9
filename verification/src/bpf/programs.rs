//! BPF program types, programs, links and the contexts programs run on.
use vstd::prelude::*;
use std::sync::Arc;
use super::{BpfInsn, BpfError, BpfContext, BpfInterpreter, BpfMachine, bpf_run, registers_valid, BPF_STACK_BASE};
use super::helpers::HelperState;
use super::jit::{BpfJit, CompiledProgram, JitSwitch, jit_code};
use super::prog_check::{BpfVerifier, verify_spec};

pub mod xdp_action;

verus! {

/// BPF program types
#[derive(Clone, Copy, Debug, PartialEq, Eq, Structural)]
pub enum BpfProgType {
    /// Unspecified
    Unspec,
    /// Socket filter
    SocketFilter,
    /// Kprobe
    Kprobe,
    /// Scheduler classifier
    SchedCls,
    /// Scheduler action
    SchedAct,
    /// Tracepoint
    Tracepoint,
    /// XDP (eXpress Data Path)
    XDP,
    /// Perf event
    PerfEvent,
    /// cgroup/skb
    CgroupSkb,
    /// cgroup/sock
    CgroupSock,
    /// LWT (Lightweight tunnel) in
    LwtIn,
    /// LWT out
    LwtOut,
    /// LWT xmit
    LwtXmit,
    /// Sock ops
    SockOps,
    /// sk_skb
    SkSkb,
    /// cgroup/device
    CgroupDevice,
    /// sk_msg
    SkMsg,
    /// Raw tracepoint
    RawTracepoint,
    /// cgroup/sock_addr
    CgroupSockAddr,
    /// LWT seg6 local
    LwtSeg6local,
    /// lirc mode2
    LircMode2,
    /// sk_reuseport
    SkReuseport,
    /// Flow dissector
    FlowDissector,
    /// cgroup/sysctl
    CgroupSysctl,
    /// Raw tracepoint writable
    RawTracepointWritable,
    /// cgroup/sockopt
    CgroupSockopt,
    /// Tracing (fentry/fexit)
    Tracing,
    /// Struct ops
    StructOps,
    /// Extension
    Ext,
    /// LSM (Linux Security Module)
    Lsm,
    /// sk_lookup
    SkLookup,
    /// Syscall
    Syscall,
}

impl BpfProgType {
    /// The numeric code of this value on the wire.
    pub open spec fn code(self) -> u32 {
        match self {
            BpfProgType::Unspec => 0x0,
            BpfProgType::SocketFilter => 0x1,
            BpfProgType::Kprobe => 0x2,
            BpfProgType::SchedCls => 0x3,
            BpfProgType::SchedAct => 0x4,
            BpfProgType::Tracepoint => 0x5,
            BpfProgType::XDP => 0x6,
            BpfProgType::PerfEvent => 0x7,
            BpfProgType::CgroupSkb => 0x8,
            BpfProgType::CgroupSock => 0x9,
            BpfProgType::LwtIn => 0xa,
            BpfProgType::LwtOut => 0xb,
            BpfProgType::LwtXmit => 0xc,
            BpfProgType::SockOps => 0xd,
            BpfProgType::SkSkb => 0xe,
            BpfProgType::CgroupDevice => 0xf,
            BpfProgType::SkMsg => 0x10,
            BpfProgType::RawTracepoint => 0x11,
            BpfProgType::CgroupSockAddr => 0x12,
            BpfProgType::LwtSeg6local => 0x13,
            BpfProgType::LircMode2 => 0x14,
            BpfProgType::SkReuseport => 0x15,
            BpfProgType::FlowDissector => 0x16,
            BpfProgType::CgroupSysctl => 0x17,
            BpfProgType::RawTracepointWritable => 0x18,
            BpfProgType::CgroupSockopt => 0x19,
            BpfProgType::Tracing => 0x1a,
            BpfProgType::StructOps => 0x1b,
            BpfProgType::Ext => 0x1c,
            BpfProgType::Lsm => 0x1d,
            BpfProgType::SkLookup => 0x1e,
            BpfProgType::Syscall => 0x1f,
        }
    }

    /// The numeric code of this value on the wire.
    pub fn to_u32(&self) -> (r: u32)
        ensures
            r == self.code(),
    {
        match self {
            BpfProgType::Unspec => 0x0,
            BpfProgType::SocketFilter => 0x1,
            BpfProgType::Kprobe => 0x2,
            BpfProgType::SchedCls => 0x3,
            BpfProgType::SchedAct => 0x4,
            BpfProgType::Tracepoint => 0x5,
            BpfProgType::XDP => 0x6,
            BpfProgType::PerfEvent => 0x7,
            BpfProgType::CgroupSkb => 0x8,
            BpfProgType::CgroupSock => 0x9,
            BpfProgType::LwtIn => 0xa,
            BpfProgType::LwtOut => 0xb,
            BpfProgType::LwtXmit => 0xc,
            BpfProgType::SockOps => 0xd,
            BpfProgType::SkSkb => 0xe,
            BpfProgType::CgroupDevice => 0xf,
            BpfProgType::SkMsg => 0x10,
            BpfProgType::RawTracepoint => 0x11,
            BpfProgType::CgroupSockAddr => 0x12,
            BpfProgType::LwtSeg6local => 0x13,
            BpfProgType::LircMode2 => 0x14,
            BpfProgType::SkReuseport => 0x15,
            BpfProgType::FlowDissector => 0x16,
            BpfProgType::CgroupSysctl => 0x17,
            BpfProgType::RawTracepointWritable => 0x18,
            BpfProgType::CgroupSockopt => 0x19,
            BpfProgType::Tracing => 0x1a,
            BpfProgType::StructOps => 0x1b,
            BpfProgType::Ext => 0x1c,
            BpfProgType::Lsm => 0x1d,
            BpfProgType::SkLookup => 0x1e,
            BpfProgType::Syscall => 0x1f,
        }
    }

    /// The value whose code is `v`, if any.
    pub open spec fn decode(v: u32) -> Option<BpfProgType> {
        if v == 0x0 { Some(BpfProgType::Unspec) } else { if v == 0x1 { Some(BpfProgType::SocketFilter) } else { if v == 0x2 { Some(BpfProgType::Kprobe) } else { if v == 0x3 { Some(BpfProgType::SchedCls) } else { if v == 0x4 { Some(BpfProgType::SchedAct) } else { if v == 0x5 { Some(BpfProgType::Tracepoint) } else { if v == 0x6 { Some(BpfProgType::XDP) } else { if v == 0x7 { Some(BpfProgType::PerfEvent) } else { if v == 0x8 { Some(BpfProgType::CgroupSkb) } else { if v == 0x9 { Some(BpfProgType::CgroupSock) } else { if v == 0xa { Some(BpfProgType::LwtIn) } else { if v == 0xb { Some(BpfProgType::LwtOut) } else { if v == 0xc { Some(BpfProgType::LwtXmit) } else { if v == 0xd { Some(BpfProgType::SockOps) } else { if v == 0xe { Some(BpfProgType::SkSkb) } else { if v == 0xf { Some(BpfProgType::CgroupDevice) } else { if v == 0x10 { Some(BpfProgType::SkMsg) } else { if v == 0x11 { Some(BpfProgType::RawTracepoint) } else { if v == 0x12 { Some(BpfProgType::CgroupSockAddr) } else { if v == 0x13 { Some(BpfProgType::LwtSeg6local) } else { if v == 0x14 { Some(BpfProgType::LircMode2) } else { if v == 0x15 { Some(BpfProgType::SkReuseport) } else { if v == 0x16 { Some(BpfProgType::FlowDissector) } else { if v == 0x17 { Some(BpfProgType::CgroupSysctl) } else { if v == 0x18 { Some(BpfProgType::RawTracepointWritable) } else { if v == 0x19 { Some(BpfProgType::CgroupSockopt) } else { if v == 0x1a { Some(BpfProgType::Tracing) } else { if v == 0x1b { Some(BpfProgType::StructOps) } else { if v == 0x1c { Some(BpfProgType::Ext) } else { if v == 0x1d { Some(BpfProgType::Lsm) } else { if v == 0x1e { Some(BpfProgType::SkLookup) } else { if v == 0x1f { Some(BpfProgType::Syscall) } else { None } } } } } } } } } } } } } } } } } } } } } } } } } } } } } } } }
    }

    /// The value whose code is `v`, if any.
    pub fn from_u32(v: u32) -> (r: Option<BpfProgType>)
        ensures
            r == BpfProgType::decode(v),
    {
        match v {
            0x0 => Some(BpfProgType::Unspec),
            0x1 => Some(BpfProgType::SocketFilter),
            0x2 => Some(BpfProgType::Kprobe),
            0x3 => Some(BpfProgType::SchedCls),
            0x4 => Some(BpfProgType::SchedAct),
            0x5 => Some(BpfProgType::Tracepoint),
            0x6 => Some(BpfProgType::XDP),
            0x7 => Some(BpfProgType::PerfEvent),
            0x8 => Some(BpfProgType::CgroupSkb),
            0x9 => Some(BpfProgType::CgroupSock),
            0xa => Some(BpfProgType::LwtIn),
            0xb => Some(BpfProgType::LwtOut),
            0xc => Some(BpfProgType::LwtXmit),
            0xd => Some(BpfProgType::SockOps),
            0xe => Some(BpfProgType::SkSkb),
            0xf => Some(BpfProgType::CgroupDevice),
            0x10 => Some(BpfProgType::SkMsg),
            0x11 => Some(BpfProgType::RawTracepoint),
            0x12 => Some(BpfProgType::CgroupSockAddr),
            0x13 => Some(BpfProgType::LwtSeg6local),
            0x14 => Some(BpfProgType::LircMode2),
            0x15 => Some(BpfProgType::SkReuseport),
            0x16 => Some(BpfProgType::FlowDissector),
            0x17 => Some(BpfProgType::CgroupSysctl),
            0x18 => Some(BpfProgType::RawTracepointWritable),
            0x19 => Some(BpfProgType::CgroupSockopt),
            0x1a => Some(BpfProgType::Tracing),
            0x1b => Some(BpfProgType::StructOps),
            0x1c => Some(BpfProgType::Ext),
            0x1d => Some(BpfProgType::Lsm),
            0x1e => Some(BpfProgType::SkLookup),
            0x1f => Some(BpfProgType::Syscall),
            _ => None,
        }
    }

    /// Decoding the code of a value gives the value back.
    pub proof fn lemma_code_roundtrip(self)
        ensures
            BpfProgType::decode(self.code()) == Some(self),
    {
    }

}

/// BPF attach types
#[derive(Clone, Copy, Debug, PartialEq, Eq, Structural)]
pub enum AttachType {
    /// cgroup inet ingress
    CgroupInetIngress,
    /// cgroup inet egress
    CgroupInetEgress,
    /// cgroup inet sock create
    CgroupInetSockCreate,
    /// cgroup sock ops
    CgroupSockOps,
    /// sk skb stream parser
    SkSkbStreamParser,
    /// sk skb stream verdict
    SkSkbStreamVerdict,
    /// cgroup device
    CgroupDevice,
    /// sk msg verdict
    SkMsgVerdict,
    /// cgroup inet4 bind
    CgroupInet4Bind,
    /// cgroup inet6 bind
    CgroupInet6Bind,
    /// cgroup inet4 connect
    CgroupInet4Connect,
    /// cgroup inet6 connect
    CgroupInet6Connect,
    /// cgroup inet4 post bind
    CgroupInet4PostBind,
    /// cgroup inet6 post bind
    CgroupInet6PostBind,
    /// cgroup udp4 sendmsg
    CgroupUdp4Sendmsg,
    /// cgroup udp6 sendmsg
    CgroupUdp6Sendmsg,
    /// lirc mode2
    LircMode2,
    /// Flow dissector
    FlowDissector,
    /// cgroup sysctl
    CgroupSysctl,
    /// cgroup udp4 recvmsg
    CgroupUdp4Recvmsg,
    /// cgroup udp6 recvmsg
    CgroupUdp6Recvmsg,
    /// cgroup getsockopt
    CgroupGetsockopt,
    /// cgroup setsockopt
    CgroupSetsockopt,
    /// Trace raw tp
    TraceRawTp,
    /// Trace fentry
    TraceFentry,
    /// Trace fexit
    TraceFexit,
    /// Modify return
    ModifyReturn,
    /// LSM mac
    LsmMac,
    /// Trace iter
    TraceIter,
    /// cgroup inet4 getpeername
    CgroupInet4Getpeername,
    /// cgroup inet6 getpeername
    CgroupInet6Getpeername,
    /// cgroup inet4 getsockname
    CgroupInet4Getsockname,
    /// cgroup inet6 getsockname
    CgroupInet6Getsockname,
    /// XDP devmap
    XdpDevmap,
    /// cgroup inet sock release
    CgroupInetSockRelease,
    /// XDP cpumap
    XdpCpumap,
    /// sk lookup
    SkLookup,
    /// XDP
    Xdp,
    /// sk skb verdict
    SkSkbVerdict,
    /// sk reuseport select
    SkReuseportSelect,
    /// sk reuseport select or migrate
    SkReuseportSelectOrMigrate,
    /// Perf event
    PerfEvent,
}

impl AttachType {
    /// The numeric code of this value on the wire.
    pub open spec fn code(self) -> u32 {
        match self {
            AttachType::CgroupInetIngress => 0x0,
            AttachType::CgroupInetEgress => 0x1,
            AttachType::CgroupInetSockCreate => 0x2,
            AttachType::CgroupSockOps => 0x3,
            AttachType::SkSkbStreamParser => 0x4,
            AttachType::SkSkbStreamVerdict => 0x5,
            AttachType::CgroupDevice => 0x6,
            AttachType::SkMsgVerdict => 0x7,
            AttachType::CgroupInet4Bind => 0x8,
            AttachType::CgroupInet6Bind => 0x9,
            AttachType::CgroupInet4Connect => 0xa,
            AttachType::CgroupInet6Connect => 0xb,
            AttachType::CgroupInet4PostBind => 0xc,
            AttachType::CgroupInet6PostBind => 0xd,
            AttachType::CgroupUdp4Sendmsg => 0xe,
            AttachType::CgroupUdp6Sendmsg => 0xf,
            AttachType::LircMode2 => 0x10,
            AttachType::FlowDissector => 0x11,
            AttachType::CgroupSysctl => 0x12,
            AttachType::CgroupUdp4Recvmsg => 0x13,
            AttachType::CgroupUdp6Recvmsg => 0x14,
            AttachType::CgroupGetsockopt => 0x15,
            AttachType::CgroupSetsockopt => 0x16,
            AttachType::TraceRawTp => 0x17,
            AttachType::TraceFentry => 0x18,
            AttachType::TraceFexit => 0x19,
            AttachType::ModifyReturn => 0x1a,
            AttachType::LsmMac => 0x1b,
            AttachType::TraceIter => 0x1c,
            AttachType::CgroupInet4Getpeername => 0x1d,
            AttachType::CgroupInet6Getpeername => 0x1e,
            AttachType::CgroupInet4Getsockname => 0x1f,
            AttachType::CgroupInet6Getsockname => 0x20,
            AttachType::XdpDevmap => 0x21,
            AttachType::CgroupInetSockRelease => 0x22,
            AttachType::XdpCpumap => 0x23,
            AttachType::SkLookup => 0x24,
            AttachType::Xdp => 0x25,
            AttachType::SkSkbVerdict => 0x26,
            AttachType::SkReuseportSelect => 0x27,
            AttachType::SkReuseportSelectOrMigrate => 0x28,
            AttachType::PerfEvent => 0x29,
        }
    }

    /// The numeric code of this value on the wire.
    pub fn to_u32(&self) -> (r: u32)
        ensures
            r == self.code(),
    {
        match self {
            AttachType::CgroupInetIngress => 0x0,
            AttachType::CgroupInetEgress => 0x1,
            AttachType::CgroupInetSockCreate => 0x2,
            AttachType::CgroupSockOps => 0x3,
            AttachType::SkSkbStreamParser => 0x4,
            AttachType::SkSkbStreamVerdict => 0x5,
            AttachType::CgroupDevice => 0x6,
            AttachType::SkMsgVerdict => 0x7,
            AttachType::CgroupInet4Bind => 0x8,
            AttachType::CgroupInet6Bind => 0x9,
            AttachType::CgroupInet4Connect => 0xa,
            AttachType::CgroupInet6Connect => 0xb,
            AttachType::CgroupInet4PostBind => 0xc,
            AttachType::CgroupInet6PostBind => 0xd,
            AttachType::CgroupUdp4Sendmsg => 0xe,
            AttachType::CgroupUdp6Sendmsg => 0xf,
            AttachType::LircMode2 => 0x10,
            AttachType::FlowDissector => 0x11,
            AttachType::CgroupSysctl => 0x12,
            AttachType::CgroupUdp4Recvmsg => 0x13,
            AttachType::CgroupUdp6Recvmsg => 0x14,
            AttachType::CgroupGetsockopt => 0x15,
            AttachType::CgroupSetsockopt => 0x16,
            AttachType::TraceRawTp => 0x17,
            AttachType::TraceFentry => 0x18,
            AttachType::TraceFexit => 0x19,
            AttachType::ModifyReturn => 0x1a,
            AttachType::LsmMac => 0x1b,
            AttachType::TraceIter => 0x1c,
            AttachType::CgroupInet4Getpeername => 0x1d,
            AttachType::CgroupInet6Getpeername => 0x1e,
            AttachType::CgroupInet4Getsockname => 0x1f,
            AttachType::CgroupInet6Getsockname => 0x20,
            AttachType::XdpDevmap => 0x21,
            AttachType::CgroupInetSockRelease => 0x22,
            AttachType::XdpCpumap => 0x23,
            AttachType::SkLookup => 0x24,
            AttachType::Xdp => 0x25,
            AttachType::SkSkbVerdict => 0x26,
            AttachType::SkReuseportSelect => 0x27,
            AttachType::SkReuseportSelectOrMigrate => 0x28,
            AttachType::PerfEvent => 0x29,
        }
    }

    /// The value whose code is `v`, if any.
    pub open spec fn decode(v: u32) -> Option<AttachType> {
        if v == 0x0 { Some(AttachType::CgroupInetIngress) } else { if v == 0x1 { Some(AttachType::CgroupInetEgress) } else { if v == 0x2 { Some(AttachType::CgroupInetSockCreate) } else { if v == 0x3 { Some(AttachType::CgroupSockOps) } else { if v == 0x4 { Some(AttachType::SkSkbStreamParser) } else { if v == 0x5 { Some(AttachType::SkSkbStreamVerdict) } else { if v == 0x6 { Some(AttachType::CgroupDevice) } else { if v == 0x7 { Some(AttachType::SkMsgVerdict) } else { if v == 0x8 { Some(AttachType::CgroupInet4Bind) } else { if v == 0x9 { Some(AttachType::CgroupInet6Bind) } else { if v == 0xa { Some(AttachType::CgroupInet4Connect) } else { if v == 0xb { Some(AttachType::CgroupInet6Connect) } else { if v == 0xc { Some(AttachType::CgroupInet4PostBind) } else { if v == 0xd { Some(AttachType::CgroupInet6PostBind) } else { if v == 0xe { Some(AttachType::CgroupUdp4Sendmsg) } else { if v == 0xf { Some(AttachType::CgroupUdp6Sendmsg) } else { if v == 0x10 { Some(AttachType::LircMode2) } else { if v == 0x11 { Some(AttachType::FlowDissector) } else { if v == 0x12 { Some(AttachType::CgroupSysctl) } else { if v == 0x13 { Some(AttachType::CgroupUdp4Recvmsg) } else { if v == 0x14 { Some(AttachType::CgroupUdp6Recvmsg) } else { if v == 0x15 { Some(AttachType::CgroupGetsockopt) } else { if v == 0x16 { Some(AttachType::CgroupSetsockopt) } else { if v == 0x17 { Some(AttachType::TraceRawTp) } else { if v == 0x18 { Some(AttachType::TraceFentry) } else { if v == 0x19 { Some(AttachType::TraceFexit) } else { if v == 0x1a { Some(AttachType::ModifyReturn) } else { if v == 0x1b { Some(AttachType::LsmMac) } else { if v == 0x1c { Some(AttachType::TraceIter) } else { if v == 0x1d { Some(AttachType::CgroupInet4Getpeername) } else { if v == 0x1e { Some(AttachType::CgroupInet6Getpeername) } else { if v == 0x1f { Some(AttachType::CgroupInet4Getsockname) } else { if v == 0x20 { Some(AttachType::CgroupInet6Getsockname) } else { if v == 0x21 { Some(AttachType::XdpDevmap) } else { if v == 0x22 { Some(AttachType::CgroupInetSockRelease) } else { if v == 0x23 { Some(AttachType::XdpCpumap) } else { if v == 0x24 { Some(AttachType::SkLookup) } else { if v == 0x25 { Some(AttachType::Xdp) } else { if v == 0x26 { Some(AttachType::SkSkbVerdict) } else { if v == 0x27 { Some(AttachType::SkReuseportSelect) } else { if v == 0x28 { Some(AttachType::SkReuseportSelectOrMigrate) } else { if v == 0x29 { Some(AttachType::PerfEvent) } else { None } } } } } } } } } } } } } } } } } } } } } } } } } } } } } } } } } } } } } } } } } }
    }

    /// The value whose code is `v`, if any.
    pub fn from_u32(v: u32) -> (r: Option<AttachType>)
        ensures
            r == AttachType::decode(v),
    {
        match v {
            0x0 => Some(AttachType::CgroupInetIngress),
            0x1 => Some(AttachType::CgroupInetEgress),
            0x2 => Some(AttachType::CgroupInetSockCreate),
            0x3 => Some(AttachType::CgroupSockOps),
            0x4 => Some(AttachType::SkSkbStreamParser),
            0x5 => Some(AttachType::SkSkbStreamVerdict),
            0x6 => Some(AttachType::CgroupDevice),
            0x7 => Some(AttachType::SkMsgVerdict),
            0x8 => Some(AttachType::CgroupInet4Bind),
            0x9 => Some(AttachType::CgroupInet6Bind),
            0xa => Some(AttachType::CgroupInet4Connect),
            0xb => Some(AttachType::CgroupInet6Connect),
            0xc => Some(AttachType::CgroupInet4PostBind),
            0xd => Some(AttachType::CgroupInet6PostBind),
            0xe => Some(AttachType::CgroupUdp4Sendmsg),
            0xf => Some(AttachType::CgroupUdp6Sendmsg),
            0x10 => Some(AttachType::LircMode2),
            0x11 => Some(AttachType::FlowDissector),
            0x12 => Some(AttachType::CgroupSysctl),
            0x13 => Some(AttachType::CgroupUdp4Recvmsg),
            0x14 => Some(AttachType::CgroupUdp6Recvmsg),
            0x15 => Some(AttachType::CgroupGetsockopt),
            0x16 => Some(AttachType::CgroupSetsockopt),
            0x17 => Some(AttachType::TraceRawTp),
            0x18 => Some(AttachType::TraceFentry),
            0x19 => Some(AttachType::TraceFexit),
            0x1a => Some(AttachType::ModifyReturn),
            0x1b => Some(AttachType::LsmMac),
            0x1c => Some(AttachType::TraceIter),
            0x1d => Some(AttachType::CgroupInet4Getpeername),
            0x1e => Some(AttachType::CgroupInet6Getpeername),
            0x1f => Some(AttachType::CgroupInet4Getsockname),
            0x20 => Some(AttachType::CgroupInet6Getsockname),
            0x21 => Some(AttachType::XdpDevmap),
            0x22 => Some(AttachType::CgroupInetSockRelease),
            0x23 => Some(AttachType::XdpCpumap),
            0x24 => Some(AttachType::SkLookup),
            0x25 => Some(AttachType::Xdp),
            0x26 => Some(AttachType::SkSkbVerdict),
            0x27 => Some(AttachType::SkReuseportSelect),
            0x28 => Some(AttachType::SkReuseportSelectOrMigrate),
            0x29 => Some(AttachType::PerfEvent),
            _ => None,
        }
    }

    /// Decoding the code of a value gives the value back.
    pub proof fn lemma_code_roundtrip(self)
        ensures
            AttachType::decode(self.code()) == Some(self),
    {
    }

}


impl BpfProgType {
    /// Program types that only root may load.
    pub open spec fn root_only(self) -> bool {
        matches!(self, BpfProgType::Kprobe | BpfProgType::Tracepoint | BpfProgType::PerfEvent
            | BpfProgType::RawTracepoint | BpfProgType::Tracing | BpfProgType::Lsm)
    }

    /// Check if program type requires root
    pub fn requires_root(&self) -> (r: bool)
        ensures
            r == self.root_only(),
    {
        match self {
            BpfProgType::Kprobe | BpfProgType::Tracepoint | BpfProgType::PerfEvent | BpfProgType::RawTracepoint
            | BpfProgType::Tracing | BpfProgType::Lsm => true,
            _ => false,
        }
    }
}

// -----------------------------------------------------------------------------
// BPF program
// -----------------------------------------------------------------------------

/// The state of a program.
pub struct BpfProgramView {
    pub id: u32,
    pub prog_type: BpfProgType,
    pub insns: Seq<BpfInsn>,
    pub jited: Option<Seq<u8>>,
    pub name: Seq<char>,
    pub attach_type: Option<AttachType>,
    pub license: Seq<char>,
    pub run_count: u64,
    pub run_time_ns: u64,
    pub refs: u32,
}

/// The machine a program starts on: `ctx_ptr` in R1, the frame pointer in
/// R10, everything else zero, the context memory `ctx` at `ctx_ptr`, and
/// the helper state `h`.
pub open spec fn start_machine(ctx_ptr: u64, ctx: Seq<u8>, h: HelperState) -> BpfMachine {
    BpfMachine {
        regs: Seq::new(11, |i: int| if i == 1 { ctx_ptr } else if i == 10 { (BPF_STACK_BASE + 512) as u64 } else { 0u64 }),
        stack: Seq::new(512, |i: int| 0u8),
        data: ctx,
        data_base: ctx_ptr,
        helpers: h,
    }
}

/// What a run of the program answers, with the context memory `ctx` at
/// `ctx_ptr` and the helper state `h` it starts from: its result, or 0
/// when it fails.
pub open spec fn run_result(insns: Seq<BpfInsn>, ctx_ptr: u64, ctx: Seq<u8>, h: HelperState) -> u64 {
    match bpf_run(insns, 0, start_machine(ctx_ptr, ctx, h), 1_000_000).0 {
        Ok(v) => v,
        Err(_) => 0,
    }
}

/// The helper state a run leaves for the next one.
pub open spec fn run_helpers(insns: Seq<BpfInsn>, ctx_ptr: u64, ctx: Seq<u8>, h: HelperState) -> HelperState {
    bpf_run(insns, 0, start_machine(ctx_ptr, ctx, h), 1_000_000).1.helpers
}

/// The context memory as a run leaves it.
pub open spec fn run_memory(insns: Seq<BpfInsn>, ctx_ptr: u64, ctx: Seq<u8>, h: HelperState) -> Seq<u8> {
    bpf_run(insns, 0, start_machine(ctx_ptr, ctx, h), 1_000_000).1.data
}

/// BPF program
pub struct BpfProgram {
    /// Program ID
    id: u32,
    /// Program type
    prog_type: BpfProgType,
    /// BPF instructions
    insns: Vec<BpfInsn>,
    /// JIT compiled code
    jited: Option<CompiledProgram>,
    /// Program name
    name: String,
    /// Attach type
    attach_type: Option<AttachType>,
    /// Licensed (GPL)
    license: String,
    /// Kernel version
    kern_version: u32,
    /// BTF ID
    btf_id: u32,
    /// Run count
    run_count: u64,
    /// Run time (ns)
    run_time_ns: u64,
    /// Reference count
    refs: u32,
}

impl View for BpfProgram {
    type V = BpfProgramView;

    closed spec fn view(&self) -> BpfProgramView {
        BpfProgramView {
            id: self.id,
            prog_type: self.prog_type,
            insns: self.insns@,
            jited: match self.jited {
                Some(c) => Some(c.code@),
                None => None,
            },
            name: self.name@,
            attach_type: self.attach_type,
            license: self.license@,
            run_count: self.run_count,
            run_time_ns: self.run_time_ns,
            refs: self.refs,
        }
    }
}

impl BpfProgram {
    /// Create new program
    pub fn new(id: u32, prog_type: BpfProgType, insns: Vec<BpfInsn>) -> (r: Self)
        ensures
            r@ == (BpfProgramView {
                id,
                prog_type,
                insns: insns@,
                jited: None,
                name: Seq::empty(),
                attach_type: None,
                license: "GPL"@,
                run_count: 0,
                run_time_ns: 0,
                refs: 1,
            }),
    {
        BpfProgram {
            id,
            prog_type,
            insns,
            jited: None,
            name: String::new(),
            attach_type: None,
            license: "GPL".to_owned(),
            kern_version: 0,
            btf_id: 0,
            run_count: 0,
            run_time_ns: 0,
            refs: 1,
        }
    }

    /// Get program ID
    pub fn id(&self) -> (r: u32)
        ensures
            r == self@.id,
    {
        self.id
    }

    /// Get program type
    pub fn prog_type(&self) -> (r: BpfProgType)
        ensures
            r == self@.prog_type,
    {
        self.prog_type
    }

    /// Set program name
    pub fn set_name(&mut self, name: String)
        ensures
            final(self)@ == (BpfProgramView { name: name@, ..old(self)@ }),
    {
        self.name = name;
    }

    /// Get program name
    pub fn name(&self) -> (r: &str)
        ensures
            r@ == self@.name,
    {
        self.name.as_str()
    }

    /// Verify the program
    pub fn verify(&self) -> (r: Result<(), BpfError>)
        ensures
            r == verify_spec(self@.prog_type, self@.insns),
    {
        let verifier = BpfVerifier::new(self.prog_type);
        verifier.verify(self.insns.as_slice())
    }

    /// JIT compile the program
    pub fn jit_compile(&mut self, switch: &JitSwitch) -> (r: Result<(), BpfError>)
        requires
            old(self)@.insns.len() < usize::MAX,
        ensures
            switch.enabled ==> r is Ok && final(self)@ == (BpfProgramView { jited: Some(jit_code(old(self)@.insns)), ..old(self)@ }),
            !switch.enabled ==> r == Err::<(), BpfError>(BpfError::JitFailed) && final(self)@ == old(self)@,
    {
        match BpfJit::compile(switch, self.insns.as_slice()) {
            Ok(compiled) => {
                self.jited = Some(compiled);
                Ok(())
            },
            Err(e) => Err(e),
        }
    }

    /// Check if JIT compiled
    pub fn is_jited(&self) -> (r: bool)
        ensures
            r == self@.jited is Some,
    {
        self.jited.is_some()
    }

    /// Run the program on the interpreter with `ctx_ptr` as its argument,
    /// the context memory `ctx_mem` lying at that address; a failed run
    /// answers 0. What the program stores there stays in `ctx_mem`. The
    /// helpers' clock and generator `helpers` are the system's: a run
    /// starts from them and leaves them for the next. Every register number
    /// in the program must name one of the eleven registers.
    pub fn run(&mut self, helpers: &mut HelperState, ctx_ptr: u64, ctx_mem: &mut Vec<u8>) -> (r: u64)
        requires
            registers_valid(old(self)@.insns),
        ensures
            r == run_result(old(self)@.insns, ctx_ptr, old(ctx_mem)@, *old(helpers)),
            *final(helpers) == run_helpers(old(self)@.insns, ctx_ptr, old(ctx_mem)@, *old(helpers)),
            final(ctx_mem)@ == run_memory(old(self)@.insns, ctx_ptr, old(ctx_mem)@, *old(helpers)),
            final(self)@ == (BpfProgramView { run_count: old(self)@.run_count.wrapping_add(1), ..old(self)@ }),
    {
        self.run_count = self.run_count.wrapping_add(1);
        let mut interpreter = BpfInterpreter::new();
        interpreter.helper_state = *helpers;
        let mut ctx = BpfContext::new();
        ctx.set_arg(ctx_ptr);
        let mut mem: Vec<u8> = Vec::new();
        core::mem::swap(&mut mem, ctx_mem);
        ctx.set_data(ctx_ptr, mem);
        assert(ctx.regs@ =~= start_machine(ctx_ptr, old(ctx_mem)@, *helpers).regs);
        assert(ctx.stack@ =~= start_machine(ctx_ptr, old(ctx_mem)@, *helpers).stack);
        let res = interpreter.run(self.insns.as_slice(), &mut ctx);
        *helpers = interpreter.helper_state;
        core::mem::swap(ctx_mem, &mut ctx.data);
        match res {
            Ok(result) => result,
            Err(_) => 0,
        }
    }

    /// Get run count
    pub fn run_count(&self) -> (r: u64)
        ensures
            r == self@.run_count,
    {
        self.run_count
    }

    /// Get run time
    pub fn run_time_ns(&self) -> (r: u64)
        ensures
            r == self@.run_time_ns,
    {
        self.run_time_ns
    }

    /// Get instruction count
    pub fn insn_count(&self) -> (r: usize)
        ensures
            r == self@.insns.len(),
    {
        self.insns.len()
    }

    /// Add reference
    pub fn add_ref(&mut self)
        ensures
            final(self)@ == (BpfProgramView { refs: old(self)@.refs.wrapping_add(1), ..old(self)@ }),
    {
        self.refs = self.refs.wrapping_add(1);
    }

    /// Release reference; whether it was the last one
    pub fn release(&mut self) -> (last: bool)
        ensures
            last == (old(self)@.refs == 1),
            final(self)@ == (BpfProgramView { refs: old(self)@.refs.wrapping_sub(1), ..old(self)@ }),
    {
        let prev = self.refs;
        self.refs = self.refs.wrapping_sub(1);
        prev == 1
    }
}

// -----------------------------------------------------------------------------
// BPF link
// -----------------------------------------------------------------------------

/// BPF link types
#[derive(Clone, Copy, Debug, PartialEq, Eq, Structural)]
pub enum BpfLinkType {
    /// Raw tracepoint
    RawTracepoint,
    /// Tracing (fentry/fexit)
    Tracing,
    /// cgroup
    Cgroup,
    /// Iter
    Iter,
    /// Network namespace
    Netns,
    /// XDP
    Xdp,
    /// Perf event
    PerfEvent,
    /// kprobe multi
    KprobeMulti,
    /// Struct ops
    StructOps,
}

/// Attachment information
pub enum AttachInfo {
    /// Raw tracepoint name
    RawTracepoint { name: String },
    /// Tracing target
    Tracing { target: u32 },
    /// cgroup
    Cgroup { cgroup_id: u64 },
    /// XDP
    Xdp { ifindex: u32 },
    /// Perf event
    PerfEvent { fd: i32 },
    /// No attachment information
    NoInfo,
}

/// BPF link (attachment point)
pub struct BpfLink {
    /// Link ID
    id: u32,
    /// Attached program
    prog: Arc<BpfProgram>,
    /// Link type
    link_type: BpfLinkType,
    /// Attach info
    attach_info: AttachInfo,
}

impl BpfLink {
    /// The link's ID.
    pub closed spec fn link_id(&self) -> u32 {
        self.id
    }

    /// The attached program.
    pub closed spec fn program(&self) -> BpfProgramView {
        self.prog@
    }

    /// The link's type.
    pub closed spec fn kind(&self) -> BpfLinkType {
        self.link_type
    }

    /// Create new link
    pub fn new(id: u32, prog: Arc<BpfProgram>, link_type: BpfLinkType, attach_info: AttachInfo) -> (r: Self)
        ensures
            r.link_id() == id,
            r.program() == prog@,
            r.kind() == link_type,
    {
        BpfLink { id, prog, link_type, attach_info }
    }

    /// Get link ID
    pub fn id(&self) -> (r: u32)
        ensures
            r == self.link_id(),
    {
        self.id
    }

    /// Get attached program
    pub fn prog(&self) -> (r: &Arc<BpfProgram>)
        ensures
            r@ == self.program(),
    {
        &self.prog
    }

    /// Replace the attached program with one of the same type
    pub fn update_prog(&mut self, new_prog: Arc<BpfProgram>) -> (r: Result<(), BpfError>)
        ensures
            final(self).link_id() == old(self).link_id(),
            final(self).kind() == old(self).kind(),
            if new_prog@.prog_type == old(self).program().prog_type {
                r is Ok && final(self).program() == new_prog@
            } else {
                r == Err::<(), BpfError>(BpfError::InvalidProgram) && final(self).program() == old(self).program()
            },
    {
        if new_prog.prog_type() != self.prog.prog_type() {
            return Err(BpfError::InvalidProgram);
        }
        self.prog = new_prog;
        Ok(())
    }

    /// Detach (removal from the attachment point is not done yet)
    pub fn detach(&self) {
    }
}

// -----------------------------------------------------------------------------
// Contexts
// -----------------------------------------------------------------------------

/// XDP metadata
pub struct XdpMd {
    /// Pointer to packet data
    pub data: u32,
    /// Pointer to end of packet data
    pub data_end: u32,
    /// Pointer to metadata area
    pub data_meta: u32,
    /// Receive interface index
    pub ingress_ifindex: u32,
    /// Receive queue index
    pub rx_queue_index: u32,
    /// Egress interface index
    pub egress_ifindex: u32,
}

/// Socket buffer context for BPF
pub struct SkBuffCtx {
    /// Packet length
    pub len: u32,
    /// Protocol
    pub protocol: u32,
    /// Packet type
    pub pkt_type: u32,
    /// Mark
    pub mark: u32,
    /// Queue mapping
    pub queue_mapping: u32,
    /// VLAN present
    pub vlan_present: u32,
    /// VLAN TCI
    pub vlan_tci: u32,
    /// VLAN protocol
    pub vlan_proto: u32,
    /// Priority
    pub priority: u32,
    /// Ingress ifindex
    pub ingress_ifindex: u32,
    /// Interface index
    pub ifindex: u32,
    /// Traffic class
    pub tc_classid: u32,
    /// Hash
    pub hash: u32,
    /// Control block
    pub cb: [u32; 5],
    /// tc index
    pub tc_index: u32,
    /// napi id
    pub napi_id: u32,
    /// Family
    pub family: u32,
    /// Remote port
    pub remote_port: u32,
    /// Local port
    pub local_port: u32,
    /// Data
    pub data: u32,
    /// Data end
    pub data_end: u32,
    /// Data meta
    pub data_meta: u32,
}

} // verus!
