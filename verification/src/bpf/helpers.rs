//! BPF helper functions: the calls a BPF program makes into the kernel.
use vstd::prelude::*;
use super::BpfError;

verus! {

/// Unspecified
#[allow(non_upper_case_globals)]
pub const BPF_FUNC_unspec: i32 = 0;
/// Map lookup
#[allow(non_upper_case_globals)]
pub const BPF_FUNC_map_lookup_elem: i32 = 1;
/// Map update
#[allow(non_upper_case_globals)]
pub const BPF_FUNC_map_update_elem: i32 = 2;
/// Map delete
#[allow(non_upper_case_globals)]
pub const BPF_FUNC_map_delete_elem: i32 = 3;
/// Probe read
#[allow(non_upper_case_globals)]
pub const BPF_FUNC_probe_read: i32 = 4;
/// Get current time (ktime)
#[allow(non_upper_case_globals)]
pub const BPF_FUNC_ktime_get_ns: i32 = 5;
/// Print to trace
#[allow(non_upper_case_globals)]
pub const BPF_FUNC_trace_printk: i32 = 6;
/// Get pseudo-random number
#[allow(non_upper_case_globals)]
pub const BPF_FUNC_get_prandom_u32: i32 = 7;
/// Get SMP processor ID
#[allow(non_upper_case_globals)]
pub const BPF_FUNC_get_smp_processor_id: i32 = 8;
/// Skb store bytes
#[allow(non_upper_case_globals)]
pub const BPF_FUNC_skb_store_bytes: i32 = 9;
/// L3 checksum replace
#[allow(non_upper_case_globals)]
pub const BPF_FUNC_l3_csum_replace: i32 = 10;
/// L4 checksum replace
#[allow(non_upper_case_globals)]
pub const BPF_FUNC_l4_csum_replace: i32 = 11;
/// Tail call
#[allow(non_upper_case_globals)]
pub const BPF_FUNC_tail_call: i32 = 12;
/// Clone redirect
#[allow(non_upper_case_globals)]
pub const BPF_FUNC_clone_redirect: i32 = 13;
/// Get current PID/TID
#[allow(non_upper_case_globals)]
pub const BPF_FUNC_get_current_pid_tgid: i32 = 14;
/// Get current UID/GID
#[allow(non_upper_case_globals)]
pub const BPF_FUNC_get_current_uid_gid: i32 = 15;
/// Get current comm
#[allow(non_upper_case_globals)]
pub const BPF_FUNC_get_current_comm: i32 = 16;
/// Get cgroup classid
#[allow(non_upper_case_globals)]
pub const BPF_FUNC_get_cgroup_classid: i32 = 17;
/// Skb vlan push
#[allow(non_upper_case_globals)]
pub const BPF_FUNC_skb_vlan_push: i32 = 18;
/// Skb vlan pop
#[allow(non_upper_case_globals)]
pub const BPF_FUNC_skb_vlan_pop: i32 = 19;
/// Skb get tunnel key
#[allow(non_upper_case_globals)]
pub const BPF_FUNC_skb_get_tunnel_key: i32 = 20;
/// Skb set tunnel key
#[allow(non_upper_case_globals)]
pub const BPF_FUNC_skb_set_tunnel_key: i32 = 21;
/// Perf event read
#[allow(non_upper_case_globals)]
pub const BPF_FUNC_perf_event_read: i32 = 22;
/// Redirect
#[allow(non_upper_case_globals)]
pub const BPF_FUNC_redirect: i32 = 23;
/// Get route realm
#[allow(non_upper_case_globals)]
pub const BPF_FUNC_get_route_realm: i32 = 24;
/// Perf event output
#[allow(non_upper_case_globals)]
pub const BPF_FUNC_perf_event_output: i32 = 25;
/// Skb load bytes
#[allow(non_upper_case_globals)]
pub const BPF_FUNC_skb_load_bytes: i32 = 26;
/// Get stackid
#[allow(non_upper_case_globals)]
pub const BPF_FUNC_get_stackid: i32 = 27;
/// Csum diff
#[allow(non_upper_case_globals)]
pub const BPF_FUNC_csum_diff: i32 = 28;
/// Skb get tunnel opt
#[allow(non_upper_case_globals)]
pub const BPF_FUNC_skb_get_tunnel_opt: i32 = 29;
/// Skb set tunnel opt
#[allow(non_upper_case_globals)]
pub const BPF_FUNC_skb_set_tunnel_opt: i32 = 30;
/// Skb change proto
#[allow(non_upper_case_globals)]
pub const BPF_FUNC_skb_change_proto: i32 = 31;
/// Skb change type
#[allow(non_upper_case_globals)]
pub const BPF_FUNC_skb_change_type: i32 = 32;
/// Skb under cgroup
#[allow(non_upper_case_globals)]
pub const BPF_FUNC_skb_under_cgroup: i32 = 33;
/// Get hash recalc
#[allow(non_upper_case_globals)]
pub const BPF_FUNC_get_hash_recalc: i32 = 34;
/// Get current task
#[allow(non_upper_case_globals)]
pub const BPF_FUNC_get_current_task: i32 = 35;
/// Probe write user
#[allow(non_upper_case_globals)]
pub const BPF_FUNC_probe_write_user: i32 = 36;
/// Current task under cgroup
#[allow(non_upper_case_globals)]
pub const BPF_FUNC_current_task_under_cgroup: i32 = 37;
/// Skb change tail
#[allow(non_upper_case_globals)]
pub const BPF_FUNC_skb_change_tail: i32 = 38;
/// Skb pull data
#[allow(non_upper_case_globals)]
pub const BPF_FUNC_skb_pull_data: i32 = 39;
/// Csum update
#[allow(non_upper_case_globals)]
pub const BPF_FUNC_csum_update: i32 = 40;
/// Set hash invalid
#[allow(non_upper_case_globals)]
pub const BPF_FUNC_set_hash_invalid: i32 = 41;
/// Get numa node ID
#[allow(non_upper_case_globals)]
pub const BPF_FUNC_get_numa_node_id: i32 = 42;
/// Skb change head
#[allow(non_upper_case_globals)]
pub const BPF_FUNC_skb_change_head: i32 = 43;
/// XDP adjust head
#[allow(non_upper_case_globals)]
pub const BPF_FUNC_xdp_adjust_head: i32 = 44;
/// Probe read str
#[allow(non_upper_case_globals)]
pub const BPF_FUNC_probe_read_str: i32 = 45;
/// Get socket cookie
#[allow(non_upper_case_globals)]
pub const BPF_FUNC_get_socket_cookie: i32 = 46;
/// Get socket uid
#[allow(non_upper_case_globals)]
pub const BPF_FUNC_get_socket_uid: i32 = 47;
/// Set hash
#[allow(non_upper_case_globals)]
pub const BPF_FUNC_set_hash: i32 = 48;
/// Setsockopt
#[allow(non_upper_case_globals)]
pub const BPF_FUNC_setsockopt: i32 = 49;
/// Skb adjust room
#[allow(non_upper_case_globals)]
pub const BPF_FUNC_skb_adjust_room: i32 = 50;
/// Redirect map
#[allow(non_upper_case_globals)]
pub const BPF_FUNC_redirect_map: i32 = 51;
/// Sk redirect map
#[allow(non_upper_case_globals)]
pub const BPF_FUNC_sk_redirect_map: i32 = 52;
/// Sock map update
#[allow(non_upper_case_globals)]
pub const BPF_FUNC_sock_map_update: i32 = 53;
/// XDP adjust meta
#[allow(non_upper_case_globals)]
pub const BPF_FUNC_xdp_adjust_meta: i32 = 54;
/// Perf event read value
#[allow(non_upper_case_globals)]
pub const BPF_FUNC_perf_event_read_value: i32 = 55;
/// Perf prog read value
#[allow(non_upper_case_globals)]
pub const BPF_FUNC_perf_prog_read_value: i32 = 56;
/// Getsockopt
#[allow(non_upper_case_globals)]
pub const BPF_FUNC_getsockopt: i32 = 57;
/// Override return
#[allow(non_upper_case_globals)]
pub const BPF_FUNC_override_return: i32 = 58;
/// Sock ops cb flags set
#[allow(non_upper_case_globals)]
pub const BPF_FUNC_sock_ops_cb_flags_set: i32 = 59;
/// Msg redirect map
#[allow(non_upper_case_globals)]
pub const BPF_FUNC_msg_redirect_map: i32 = 60;
/// Msg apply bytes
#[allow(non_upper_case_globals)]
pub const BPF_FUNC_msg_apply_bytes: i32 = 61;
/// Msg cork bytes
#[allow(non_upper_case_globals)]
pub const BPF_FUNC_msg_cork_bytes: i32 = 62;
/// Msg pull data
#[allow(non_upper_case_globals)]
pub const BPF_FUNC_msg_pull_data: i32 = 63;
/// Bind
#[allow(non_upper_case_globals)]
pub const BPF_FUNC_bind: i32 = 64;
/// XDP adjust tail
#[allow(non_upper_case_globals)]
pub const BPF_FUNC_xdp_adjust_tail: i32 = 65;
/// Skb get xfrm state
#[allow(non_upper_case_globals)]
pub const BPF_FUNC_skb_get_xfrm_state: i32 = 66;
/// Get stack
#[allow(non_upper_case_globals)]
pub const BPF_FUNC_get_stack: i32 = 67;
/// Skb load bytes relative
#[allow(non_upper_case_globals)]
pub const BPF_FUNC_skb_load_bytes_relative: i32 = 68;
/// Fib lookup
#[allow(non_upper_case_globals)]
pub const BPF_FUNC_fib_lookup: i32 = 69;
/// Sock hash update
#[allow(non_upper_case_globals)]
pub const BPF_FUNC_sock_hash_update: i32 = 70;
/// Msg redirect hash
#[allow(non_upper_case_globals)]
pub const BPF_FUNC_msg_redirect_hash: i32 = 71;
/// Sk redirect hash
#[allow(non_upper_case_globals)]
pub const BPF_FUNC_sk_redirect_hash: i32 = 72;
/// Lwt push encap
#[allow(non_upper_case_globals)]
pub const BPF_FUNC_lwt_push_encap: i32 = 73;
/// Lwt seg6 store bytes
#[allow(non_upper_case_globals)]
pub const BPF_FUNC_lwt_seg6_store_bytes: i32 = 74;
/// Lwt seg6 adjust srh
#[allow(non_upper_case_globals)]
pub const BPF_FUNC_lwt_seg6_adjust_srh: i32 = 75;
/// Lwt seg6 action
#[allow(non_upper_case_globals)]
pub const BPF_FUNC_lwt_seg6_action: i32 = 76;
/// Rc repeat
#[allow(non_upper_case_globals)]
pub const BPF_FUNC_rc_repeat: i32 = 77;
/// Rc keydown
#[allow(non_upper_case_globals)]
pub const BPF_FUNC_rc_keydown: i32 = 78;
/// Skb cgroup id
#[allow(non_upper_case_globals)]
pub const BPF_FUNC_skb_cgroup_id: i32 = 79;
/// Get current cgroup id
#[allow(non_upper_case_globals)]
pub const BPF_FUNC_get_current_cgroup_id: i32 = 80;
/// Get local storage
#[allow(non_upper_case_globals)]
pub const BPF_FUNC_get_local_storage: i32 = 81;
/// Sk select reuseport
#[allow(non_upper_case_globals)]
pub const BPF_FUNC_sk_select_reuseport: i32 = 82;
/// Skb ancestor cgroup id
#[allow(non_upper_case_globals)]
pub const BPF_FUNC_skb_ancestor_cgroup_id: i32 = 83;
/// Sk lookup tcp
#[allow(non_upper_case_globals)]
pub const BPF_FUNC_sk_lookup_tcp: i32 = 84;
/// Sk lookup udp
#[allow(non_upper_case_globals)]
pub const BPF_FUNC_sk_lookup_udp: i32 = 85;
/// Sk release
#[allow(non_upper_case_globals)]
pub const BPF_FUNC_sk_release: i32 = 86;
/// Map push elem
#[allow(non_upper_case_globals)]
pub const BPF_FUNC_map_push_elem: i32 = 87;
/// Map pop elem
#[allow(non_upper_case_globals)]
pub const BPF_FUNC_map_pop_elem: i32 = 88;
/// Map peek elem
#[allow(non_upper_case_globals)]
pub const BPF_FUNC_map_peek_elem: i32 = 89;
/// Msg push data
#[allow(non_upper_case_globals)]
pub const BPF_FUNC_msg_push_data: i32 = 90;
/// Msg pop data
#[allow(non_upper_case_globals)]
pub const BPF_FUNC_msg_pop_data: i32 = 91;
/// Rc pointer rel
#[allow(non_upper_case_globals)]
pub const BPF_FUNC_rc_pointer_rel: i32 = 92;
/// Spin lock
#[allow(non_upper_case_globals)]
pub const BPF_FUNC_spin_lock: i32 = 93;
/// Spin unlock
#[allow(non_upper_case_globals)]
pub const BPF_FUNC_spin_unlock: i32 = 94;
/// Sk fullsock
#[allow(non_upper_case_globals)]
pub const BPF_FUNC_sk_fullsock: i32 = 95;
/// Tcp sock
#[allow(non_upper_case_globals)]
pub const BPF_FUNC_tcp_sock: i32 = 96;
/// Skb ecn set ce
#[allow(non_upper_case_globals)]
pub const BPF_FUNC_skb_ecn_set_ce: i32 = 97;
/// Get listener sock
#[allow(non_upper_case_globals)]
pub const BPF_FUNC_get_listener_sock: i32 = 98;
/// Skc lookup tcp
#[allow(non_upper_case_globals)]
pub const BPF_FUNC_skc_lookup_tcp: i32 = 99;
/// Tcp check syncookie
#[allow(non_upper_case_globals)]
pub const BPF_FUNC_tcp_check_syncookie: i32 = 100;
/// Ring buffer reserve
#[allow(non_upper_case_globals)]
pub const BPF_FUNC_ringbuf_reserve: i32 = 131;
/// Ring buffer submit
#[allow(non_upper_case_globals)]
pub const BPF_FUNC_ringbuf_submit: i32 = 132;
/// Ring buffer discard
#[allow(non_upper_case_globals)]
pub const BPF_FUNC_ringbuf_discard: i32 = 133;
/// Ring buffer output
#[allow(non_upper_case_globals)]
pub const BPF_FUNC_ringbuf_output: i32 = 134;
/// Ring buffer query
#[allow(non_upper_case_globals)]
pub const BPF_FUNC_ringbuf_query: i32 = 135;

/// State the helpers keep between calls: the monotonic clock and the
/// pseudo-random generator.
#[derive(Clone, Copy, Debug, PartialEq, Eq, Structural)]
pub struct HelperState {
    /// Monotonic time counter (ns)
    pub ktime_ns: u64,
    /// Xorshift generator state
    pub prng_state: u64,
}

impl HelperState {
    /// The helper state of a freshly started system.
    pub open spec fn new_state() -> HelperState {
        HelperState { ktime_ns: 0, prng_state: 0x12345678_9ABCDEF0 }
    }

    /// Clock at zero, generator at its fixed seed
    pub fn new() -> (r: Self)
        ensures
            r == Self::new_state(),
    {
        HelperState { ktime_ns: 0, prng_state: 0x12345678_9ABCDEF0 }
    }
}

/// One xorshift step (shifts 13, 7, 17).
pub open spec fn xorshift(s: u64) -> u64 {
    let a = s ^ (s << 13u64);
    let b = a ^ (a >> 7u64);
    b ^ (b << 17u64)
}

/// Helpers that answer with a constant and keep no state.
pub open spec fn constant_helper(id: i32) -> Option<u64> {
    if id == BPF_FUNC_unspec || id == BPF_FUNC_map_lookup_elem || id == BPF_FUNC_map_update_elem
        || id == BPF_FUNC_map_delete_elem || id == BPF_FUNC_probe_read || id == BPF_FUNC_trace_printk
        || id == BPF_FUNC_get_smp_processor_id || id == BPF_FUNC_get_current_comm
        || id == BPF_FUNC_get_numa_node_id || id == BPF_FUNC_perf_event_output || id == BPF_FUNC_get_stackid
        || id == BPF_FUNC_get_stack || id == BPF_FUNC_get_current_task || id == BPF_FUNC_ringbuf_reserve
        || id == BPF_FUNC_ringbuf_submit || id == BPF_FUNC_ringbuf_discard || id == BPF_FUNC_ringbuf_output
        || id == BPF_FUNC_map_push_elem || id == BPF_FUNC_map_pop_elem || id == BPF_FUNC_map_peek_elem
        || id == BPF_FUNC_spin_lock || id == BPF_FUNC_spin_unlock || id == BPF_FUNC_get_current_uid_gid {
        Some(0)
    } else if id == BPF_FUNC_get_current_pid_tgid {
        Some(0x0001_0001)
    } else if id == BPF_FUNC_redirect {
        Some(3)
    } else if id == BPF_FUNC_redirect_map {
        Some(4)
    } else if id == BPF_FUNC_get_current_cgroup_id {
        Some(1)
    } else {
        None
    }
}

/// The result of helper `id` and the helper state after it.
pub open spec fn helper_outcome(s: HelperState, id: i32) -> (Result<u64, BpfError>, HelperState) {
    if id == BPF_FUNC_ktime_get_ns {
        (Ok(s.ktime_ns), HelperState { ktime_ns: s.ktime_ns.wrapping_add(1000), ..s })
    } else if id == BPF_FUNC_get_prandom_u32 {
        (Ok((xorshift(s.prng_state) as u32) as u64), HelperState { prng_state: xorshift(s.prng_state), ..s })
    } else if id == BPF_FUNC_tail_call {
        (Err(BpfError::InvalidHelper), s)
    } else {
        match constant_helper(id) {
            Some(v) => (Ok(v), s),
            None => (Err(BpfError::InvalidHelper), s),
        }
    }
}

/// Call a helper function. The arguments are accepted and not used by any
/// helper here.
pub fn call_helper(state: &mut HelperState, helper_id: i32, arg1: u64, arg2: u64, arg3: u64, arg4: u64, arg5: u64)
    -> (r: Result<u64, BpfError>)
    ensures
        (r, *final(state)) == helper_outcome(*old(state), helper_id),
{
    let _ = (arg1, arg2, arg3, arg4, arg5);
    if helper_id == BPF_FUNC_ktime_get_ns {
        let t = state.ktime_ns;
        state.ktime_ns = t.wrapping_add(1000);
        return Ok(t);
    }
    if helper_id == BPF_FUNC_get_prandom_u32 {
        let mut s = state.prng_state;
        s = s ^ (s << 13);
        s = s ^ (s >> 7);
        s = s ^ (s << 17);
        state.prng_state = s;
        return Ok((s as u32) as u64);
    }
    if helper_id == BPF_FUNC_tail_call {
        return Err(BpfError::InvalidHelper);
    }
    if helper_id == BPF_FUNC_get_current_pid_tgid {
        return Ok(0x0001_0001);
    }
    if helper_id == BPF_FUNC_redirect {
        return Ok(3);
    }
    if helper_id == BPF_FUNC_redirect_map {
        return Ok(4);
    }
    if helper_id == BPF_FUNC_get_current_cgroup_id {
        return Ok(1);
    }
    if helper_id == BPF_FUNC_unspec || helper_id == BPF_FUNC_map_lookup_elem || helper_id == BPF_FUNC_map_update_elem
        || helper_id == BPF_FUNC_map_delete_elem || helper_id == BPF_FUNC_probe_read
        || helper_id == BPF_FUNC_trace_printk || helper_id == BPF_FUNC_get_smp_processor_id
        || helper_id == BPF_FUNC_get_current_comm || helper_id == BPF_FUNC_get_numa_node_id
        || helper_id == BPF_FUNC_perf_event_output || helper_id == BPF_FUNC_get_stackid
        || helper_id == BPF_FUNC_get_stack || helper_id == BPF_FUNC_get_current_task
        || helper_id == BPF_FUNC_ringbuf_reserve || helper_id == BPF_FUNC_ringbuf_submit
        || helper_id == BPF_FUNC_ringbuf_discard || helper_id == BPF_FUNC_ringbuf_output
        || helper_id == BPF_FUNC_map_push_elem || helper_id == BPF_FUNC_map_pop_elem
        || helper_id == BPF_FUNC_map_peek_elem || helper_id == BPF_FUNC_spin_lock
        || helper_id == BPF_FUNC_spin_unlock || helper_id == BPF_FUNC_get_current_uid_gid {
        return Ok(0);
    }
    Err(BpfError::InvalidHelper)
}

} // verus!
