use vstd::prelude::*;

verus! {

pub struct RxStats {
    pub bytes: u64,
    pub packets: u64,
    pub errs: u64,
    pub drop: u64,
    pub fifo: u64,
    pub frame: u64,
    pub compressed: u64,
    pub multicast: u64,
}

pub struct TxStats {
    pub bytes: u64,
    pub packets: u64,
    pub errs: u64,
    pub drop: u64,
    pub fifo: u64,
    pub colls: u64,
    pub carrier: u64,
    pub compressed: u64,
}

/// A network interface: its name, IPv4 address (four octets, most
/// significant first) and traffic counters.
pub struct Interface {
    pub name: String,
    pub ip: [u8; 4],
    pub total_received: u64,
    pub total_transmitted: u64,
    pub rx_stats: Option<RxStats>,
    pub tx_stats: Option<TxStats>,
}

/// Traffic counters of one interface as read from the host: totals since
/// boot, and the amounts since the previous reading.
pub struct InterfaceCounters {
    pub name: String,
    pub total_received: u64,
    pub total_transmitted: u64,
    pub received: u64,
    pub transmitted: u64,
}

/// An IPv4 address assigned to the interface of the given name.
pub struct InterfaceAddress {
    pub name: String,
    pub ip: [u8; 4],
}

/// Receive statistics that hold `v` in every field.
pub open spec fn rx_all(s: RxStats, v: u64) -> bool {
    s.bytes == v && s.packets == v && s.errs == v && s.drop == v && s.fifo == v && s.frame == v
        && s.compressed == v && s.multicast == v
}

/// Transmit statistics that hold `v` in every field.
pub open spec fn tx_all(s: TxStats, v: u64) -> bool {
    s.bytes == v && s.packets == v && s.errs == v && s.drop == v && s.fifo == v && s.colls == v
        && s.carrier == v && s.compressed == v
}

/// The address that the last entry of `addrs` for interface `name` gives, if any.
pub open spec fn address_for(addrs: Seq<InterfaceAddress>, name: Seq<char>) -> Option<[u8; 4]>
    decreases addrs.len(),
{
    if addrs.len() == 0 {
        None
    } else if addrs.last().name@ == name {
        Some(addrs.last().ip)
    } else {
        address_for(addrs.drop_last(), name)
    }
}

/// The names of the interfaces, in order.
pub open spec fn names_of(ifs: Seq<Interface>) -> Seq<Seq<char>> {
    ifs.map_values(|f: Interface| f.name@)
}

/// No name before index `i` of `names` is the one at `i`.
pub open spec fn first_of_name(names: Seq<Seq<char>>, i: int) -> bool {
    forall|j: int| 0 <= j < i ==> names[j] != names[i]
}

/// The address that interface `i` (of the given names) ends up with, from
/// address `base`, once the addresses in `addrs` are applied, each to the
/// first interface of its name, in order.
pub open spec fn assigned_ip(
    names: Seq<Seq<char>>,
    i: int,
    addrs: Seq<InterfaceAddress>,
    base: [u8; 4],
) -> [u8; 4] {
    if first_of_name(names, i) && address_for(addrs, names[i]) is Some {
        address_for(addrs, names[i])->Some_0
    } else {
        base
    }
}

/// The greatest of `vals`, or one when there is none.
pub open spec fn max_or_one(vals: Seq<u64>) -> u64
    decreases vals.len(),
{
    if vals.len() == 0 {
        1
    } else if vals.len() == 1 {
        vals[0]
    } else {
        let m = max_or_one(vals.drop_last());
        if vals.last() > m {
            vals.last()
        } else {
            m
        }
    }
}

impl Interface {
    pub fn new(name: String, ip: [u8; 4], total_received: u64, total_transmitted: u64) -> (r:
        Interface)
        ensures
            r.name@ == name@,
            r.ip == ip,
            r.total_received == total_received,
            r.total_transmitted == total_transmitted,
            r.rx_stats is None,
            r.tx_stats is None,
    {
        Interface { name, ip, total_received, total_transmitted, rx_stats: None, tx_stats: None }
    }
}

pub struct Network {
    pub interfaces: Vec<Interface>,
}

/// The unspecified address, 0.0.0.0.
pub open spec fn unspecified() -> [u8; 4] {
    [0u8, 0u8, 0u8, 0u8]
}

impl Network {
    pub fn new() -> (r: Network)
        ensures
            r.interfaces@.len() == 0,
    {
        Network { interfaces: Vec::new() }
    }

    /// Appends one interface for each entry of `counters`, in order, at the
    /// unspecified address, with every receive statistic set to the amount
    /// received and every transmit statistic to the amount transmitted;
    /// then applies the addresses of `addrs`, each to the first interface
    /// (old or new) of its name.
    pub fn initialize(&mut self, counters: &Vec<InterfaceCounters>, addrs: &Vec<InterfaceAddress>)
        ensures
            final(self).interfaces@.len() == old(self).interfaces@.len() + counters@.len(),
            ({
                let old_ifs = old(self).interfaces@;
                let n0 = old_ifs.len() as int;
                let ifs = final(self).interfaces@;
                &&& forall|i: int|
                    0 <= i < n0 ==> {
                        &&& (#[trigger] ifs[i]).name@ == old_ifs[i].name@
                        &&& ifs[i].total_received == old_ifs[i].total_received
                        &&& ifs[i].total_transmitted == old_ifs[i].total_transmitted
                        &&& ifs[i].rx_stats == old_ifs[i].rx_stats
                        &&& ifs[i].tx_stats == old_ifs[i].tx_stats
                    }
                &&& forall|k: int|
                    0 <= k < counters@.len() ==> {
                        let f = #[trigger] ifs[n0 + k];
                        let c = counters@[k];
                        &&& f.name@ == c.name@
                        &&& f.total_received == c.total_received
                        &&& f.total_transmitted == c.total_transmitted
                        &&& f.rx_stats is Some && rx_all(f.rx_stats->Some_0, c.received)
                        &&& f.tx_stats is Some && tx_all(f.tx_stats->Some_0, c.transmitted)
                    }
                &&& forall|i: int|
                    0 <= i < ifs.len() ==> (#[trigger] ifs[i]).ip == assigned_ip(
                        names_of(ifs),
                        i,
                        addrs@,
                        if i < n0 {
                            old_ifs[i].ip
                        } else {
                            unspecified()
                        },
                    )
            }),
    {
        let ghost n0 = self.interfaces@.len();
        let mut k: usize = 0;
        while k < counters.len()
            invariant
                k <= counters@.len(),
                self.interfaces@.len() == n0 + k,
                forall|i: int|
                    0 <= i < n0 ==> #[trigger] self.interfaces@[i] == old(self).interfaces@[i],
                forall|j: int|
                    0 <= j < k ==> {
                        let f = #[trigger] self.interfaces@[n0 + j];
                        let c = counters@[j];
                        &&& f.name@ == c.name@
                        &&& f.ip == unspecified()
                        &&& f.total_received == c.total_received
                        &&& f.total_transmitted == c.total_transmitted
                        &&& f.rx_stats is Some && rx_all(f.rx_stats->Some_0, c.received)
                        &&& f.tx_stats is Some && tx_all(f.tx_stats->Some_0, c.transmitted)
                    },
            decreases counters@.len() - k,
        {
            let c = &counters[k];
            let r = c.received;
            let t = c.transmitted;
            let mut interface = Interface::new(
                c.name.clone(),
                [0u8, 0u8, 0u8, 0u8],
                c.total_received,
                c.total_transmitted,
            );
            interface.rx_stats = Some(
                RxStats {
                    bytes: r,
                    packets: r,
                    errs: r,
                    drop: r,
                    fifo: r,
                    frame: r,
                    compressed: r,
                    multicast: r,
                },
            );
            interface.tx_stats = Some(
                TxStats {
                    bytes: t,
                    packets: t,
                    errs: t,
                    drop: t,
                    fifo: t,
                    colls: t,
                    carrier: t,
                    compressed: t,
                },
            );
            self.interfaces.push(interface);
            k = k + 1;
        }
        let ghost before = self.interfaces@;
        self.assign_addresses(addrs);
        proof {
            assert(names_of(self.interfaces@) =~= names_of(before));
            assert forall|i: int| 0 <= i < self.interfaces@.len() implies (#[trigger]
            self.interfaces@[i]).ip == assigned_ip(
                names_of(self.interfaces@),
                i,
                addrs@,
                if i < n0 {
                    old(self).interfaces@[i].ip
                } else {
                    unspecified()
                },
            ) by {
                assert(self.interfaces@[i].ip == assigned_ip(names_of(before), i, addrs@, before[i].ip));
                if i >= n0 {
                    let j = i - n0;
                    assert(before[n0 + j].ip == unspecified());
                }
            }
        }
    }

    /// Applies each address of `addrs`, in order, to the first interface of its name.
    fn assign_addresses(&mut self, addrs: &Vec<InterfaceAddress>)
        ensures
            final(self).interfaces@.len() == old(self).interfaces@.len(),
            forall|i: int|
                0 <= i < old(self).interfaces@.len() ==> {
                    let f = #[trigger] final(self).interfaces@[i];
                    let o = old(self).interfaces@[i];
                    &&& f.name@ == o.name@
                    &&& f.total_received == o.total_received
                    &&& f.total_transmitted == o.total_transmitted
                    &&& f.rx_stats == o.rx_stats
                    &&& f.tx_stats == o.tx_stats
                    &&& f.ip == assigned_ip(names_of(old(self).interfaces@), i, addrs@, o.ip)
                },
    {
        let ghost start = self.interfaces@;
        let mut a: usize = 0;
        while a < addrs.len()
            invariant
                a <= addrs@.len(),
                self.interfaces@.len() == start.len(),
                forall|i: int|
                    0 <= i < start.len() ==> {
                        let f = #[trigger] self.interfaces@[i];
                        let o = start[i];
                        &&& f.name@ == o.name@
                        &&& f.total_received == o.total_received
                        &&& f.total_transmitted == o.total_transmitted
                        &&& f.rx_stats == o.rx_stats
                        &&& f.tx_stats == o.tx_stats
                        &&& f.ip == assigned_ip(names_of(start), i, addrs@.subrange(0, a as int), o.ip)
                    },
            decreases addrs@.len() - a,
        {
            let ghost pre = self.interfaces@;
            let n = self.interfaces.len();
            let mut i: usize = 0;
            while i < n && self.interfaces[i].name != addrs[a].name
                invariant
                    n == self.interfaces@.len(),
                    self.interfaces@ == pre,
                    i <= n,
                    a < addrs@.len(),
                    forall|j: int| 0 <= j < i ==> pre[j].name@ != addrs@[a as int].name@,
                decreases n - i,
            {
                i = i + 1;
            }
            if i < n {
                let mut f = self.interfaces.remove(i);
                f.ip = addrs[a].ip;
                self.interfaces.insert(i, f);
                assert(self.interfaces@ =~= pre.update(i as int, f));
            }
            proof {
                let sub = addrs@.subrange(0, a + 1);
                let names = names_of(start);
                assert(sub.drop_last() =~= addrs@.subrange(0, a as int));
                assert(sub.last() == addrs@[a as int]);
                assert forall|j: int| 0 <= j < start.len() implies {
                    let f = #[trigger] self.interfaces@[j];
                    let o = start[j];
                    &&& f.name@ == o.name@
                    &&& f.total_received == o.total_received
                    &&& f.total_transmitted == o.total_transmitted
                    &&& f.rx_stats == o.rx_stats
                    &&& f.tx_stats == o.tx_stats
                    &&& f.ip == assigned_ip(names, j, sub, o.ip)
                } by {
                    assert(names[j] == start[j].name@);
                    if names[j] == addrs@[a as int].name@ {
                        if first_of_name(names, j) {
                            assert(j >= i) by {
                                if j < i {
                                    assert(pre[j].name@ != addrs@[a as int].name@);
                                }
                            }
                            if j > i {
                                assert(names[i as int] == start[i as int].name@);
                                assert(names[i as int] == names[j]);
                            }
                        } else {
                            let w = choose|w: int| 0 <= w < j && names[w] == names[j];
                            assert(names[w] == start[w].name@);
                            assert(j != i) by {
                                if j == i {
                                    assert(pre[w].name@ != addrs@[a as int].name@);
                                }
                            }
                        }
                    } else {
                        if j == i {
                            assert(pre[j].name@ == addrs@[a as int].name@);
                        }
                    }
                }
            }
            a = a + 1;
        }
        assert(addrs@.subrange(0, addrs@.len() as int) =~= addrs@);
    }

    /// The largest total received over all interfaces, or one when there is none.
    pub fn get_max_received(&self) -> (r: u64)
        ensures
            r == max_or_one(totals_received(self.interfaces@)),
    {
        let mut vals: Vec<u64> = Vec::new();
        let mut i: usize = 0;
        while i < self.interfaces.len()
            invariant
                i <= self.interfaces@.len(),
                vals@ == totals_received(self.interfaces@.subrange(0, i as int)),
            decreases self.interfaces@.len() - i,
        {
            vals.push(self.interfaces[i].total_received);
            assert(vals@ =~= totals_received(self.interfaces@.subrange(0, i + 1)));
            i = i + 1;
        }
        assert(self.interfaces@.subrange(0, self.interfaces@.len() as int) =~= self.interfaces@);
        max_of(&vals)
    }

    /// The largest total transmitted over all interfaces, or one when there is none.
    pub fn get_max_transmitted(&self) -> (r: u64)
        ensures
            r == max_or_one(totals_transmitted(self.interfaces@)),
    {
        let mut vals: Vec<u64> = Vec::new();
        let mut i: usize = 0;
        while i < self.interfaces.len()
            invariant
                i <= self.interfaces@.len(),
                vals@ == totals_transmitted(self.interfaces@.subrange(0, i as int)),
            decreases self.interfaces@.len() - i,
        {
            vals.push(self.interfaces[i].total_transmitted);
            assert(vals@ =~= totals_transmitted(self.interfaces@.subrange(0, i + 1)));
            i = i + 1;
        }
        assert(self.interfaces@.subrange(0, self.interfaces@.len() as int) =~= self.interfaces@);
        max_of(&vals)
    }
}

pub open spec fn totals_received(ifs: Seq<Interface>) -> Seq<u64> {
    ifs.map_values(|f: Interface| f.total_received)
}

pub open spec fn totals_transmitted(ifs: Seq<Interface>) -> Seq<u64> {
    ifs.map_values(|f: Interface| f.total_transmitted)
}

fn max_of(vals: &Vec<u64>) -> (r: u64)
    ensures
        r == max_or_one(vals@),
{
    if vals.len() == 0 {
        return 1;
    }
    let mut m = vals[0];
    let mut i: usize = 1;
    assert(vals@.subrange(0, 1).drop_last() =~= Seq::<u64>::empty());
    while i < vals.len()
        invariant
            1 <= i <= vals@.len(),
            m == max_or_one(vals@.subrange(0, i as int)),
        decreases vals@.len() - i,
    {
        assert(vals@.subrange(0, i + 1).drop_last() =~= vals@.subrange(0, i as int));
        if vals[i] > m {
            m = vals[i];
        }
        i = i + 1;
    }
    assert(vals@.subrange(0, vals@.len() as int) =~= vals@);
    m
}

/// Traffic at which a network bar is full: 2 GiB.
pub const BAR_MAX_BYTES: u64 = 2147483648;

/// The colour of a traffic bar.
#[derive(Clone, Copy, Debug, PartialEq, Eq, Structural)]
pub enum BarColor {
    Green,
    Yellow,
    Red,
}

/// A bar for `bytes` of traffic is green up to half of `BAR_MAX_BYTES`,
/// yellow up to two thirds of it, and red above.
pub open spec fn bar_color_spec(bytes: nat) -> BarColor {
    if 2 * bytes <= BAR_MAX_BYTES {
        BarColor::Green
    } else if 3 * bytes <= 2 * BAR_MAX_BYTES {
        BarColor::Yellow
    } else {
        BarColor::Red
    }
}

/// The colour of the bar for `bytes` of traffic (see `bar_color_spec`).
pub fn bar_color(bytes: u64) -> (r: BarColor)
    ensures
        r == bar_color_spec(bytes as nat),
{
    let b: u128 = bytes as u128;
    if 2 * b <= BAR_MAX_BYTES as u128 {
        BarColor::Green
    } else if 3 * b <= 2 * (BAR_MAX_BYTES as u128) {
        BarColor::Yellow
    } else {
        BarColor::Red
    }
}

/// How full the bar for `bytes` of traffic is, in thousandths, at most full.
pub fn bar_fill_permille(bytes: u64) -> (r: u32)
    ensures
        r == if bytes >= BAR_MAX_BYTES {
            1000
        } else {
            (bytes as int * 1000 / BAR_MAX_BYTES as int) as u32
        },
{
    if bytes >= BAR_MAX_BYTES {
        1000
    } else {
        (bytes * 1000 / BAR_MAX_BYTES) as u32
    }
}

} // verus!
