//! Network interface counters and their totals.
use vstd::prelude::*;

verus! {

/// Network interface metrics.
#[derive(Debug, Clone, PartialEq, Eq)]
pub struct NetworkInterface {
    pub name: String,
    pub rx_bytes: u64,
    pub tx_bytes: u64,
    pub rx_packets: u64,
    pub tx_packets: u64,
}

/// Network metrics.
#[derive(Debug, Clone, PartialEq, Eq)]
pub struct NetworkMetrics {
    pub interfaces: Vec<NetworkInterface>,
    pub total_rx_bytes: u64,
    pub total_tx_bytes: u64,
}

/// Bytes received over all interfaces.
pub open spec fn sum_rx(s: Seq<NetworkInterface>) -> nat
    decreases s.len(),
{
    if s.len() == 0 {
        0
    } else {
        sum_rx(s.drop_last()) + s.last().rx_bytes as nat
    }
}

/// Bytes sent over all interfaces.
pub open spec fn sum_tx(s: Seq<NetworkInterface>) -> nat
    decreases s.len(),
{
    if s.len() == 0 {
        0
    } else {
        sum_tx(s.drop_last()) + s.last().tx_bytes as nat
    }
}

/// A sum over a longer prefix is at least the sum over a shorter one.
proof fn lemma_sums_grow(s: Seq<NetworkInterface>, k: int, n: int)
    requires
        0 <= k <= n <= s.len(),
    ensures
        sum_rx(s.take(k)) <= sum_rx(s.take(n)),
        sum_tx(s.take(k)) <= sum_tx(s.take(n)),
    decreases n - k,
{
    if k < n {
        lemma_sums_grow(s, k, n - 1);
        assert(s.take(n).drop_last() =~= s.take(n - 1));
    }
}

impl NetworkMetrics {
    /// The metrics of the given interfaces, with byte totals over all of them.
    pub fn from_interfaces(interfaces: Vec<NetworkInterface>) -> (r: NetworkMetrics)
        requires
            sum_rx(interfaces@) <= u64::MAX,
            sum_tx(interfaces@) <= u64::MAX,
        ensures
            r.interfaces == interfaces,
            r.total_rx_bytes == sum_rx(interfaces@),
            r.total_tx_bytes == sum_tx(interfaces@),
    {
        match NetworkMetrics::try_from_interfaces(interfaces) {
            Ok(m) => m,
            Err(_) => {
                assert(false);
                NetworkMetrics { interfaces: Vec::new(), total_rx_bytes: 0, total_tx_bytes: 0 }
            },
        }
    }

    /// The metrics of the given interfaces, or the interfaces back where a
    /// byte total does not fit in a `u64`.
    pub fn try_from_interfaces(interfaces: Vec<NetworkInterface>) -> (r: Result<
        NetworkMetrics,
        Vec<NetworkInterface>,
    >)
        ensures
            match r {
                Ok(m) => sum_rx(interfaces@) <= u64::MAX && sum_tx(interfaces@) <= u64::MAX
                    && m.interfaces == interfaces && m.total_rx_bytes == sum_rx(interfaces@)
                    && m.total_tx_bytes == sum_tx(interfaces@),
                Err(back) => (sum_rx(interfaces@) > u64::MAX || sum_tx(interfaces@) > u64::MAX)
                    && back == interfaces,
            },
    {
        let n = interfaces.len();
        let mut rx: u64 = 0;
        let mut tx: u64 = 0;
        let mut i: usize = 0;
        let ghost s = interfaces@;
        while i < n
            invariant
                n == s.len(),
                s == interfaces@,
                i <= n,
                rx == sum_rx(s.take(i as int)),
                tx == sum_tx(s.take(i as int)),
            decreases n - i,
        {
            proof {
                assert(s.take(i + 1).drop_last() =~= s.take(i as int));
                lemma_sums_grow(s, i + 1, n as int);
                assert(s.take(n as int) =~= s);
            }
            let r_add = interfaces[i].rx_bytes;
            let t_add = interfaces[i].tx_bytes;
            if rx > u64::MAX - r_add || tx > u64::MAX - t_add {
                return Err(interfaces);
            }
            rx = rx + r_add;
            tx = tx + t_add;
            i = i + 1;
        }
        proof {
            assert(s.take(n as int) =~= s);
        }
        Ok(NetworkMetrics { interfaces, total_rx_bytes: rx, total_tx_bytes: tx })
    }
}

} // verus!
