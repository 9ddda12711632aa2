use vstd::prelude::*;

verus! {

/// Identifies a client of the packet pool.
#[derive(Clone, Copy, PartialEq, Eq, Structural, Debug)]
pub struct AllocId(pub usize);

/// Client number used for ATT PDUs.
pub const ATT_ID: usize = 0;

/// Client number used for L2CAP signalling.
pub const L2CAP_SIGNAL_ID: usize = 1;

impl AllocId {
    /// The client id of the dynamic channel in slot `idx`; the dynamic range starts after
    /// the two fixed ids.
    pub fn dynamic(idx: usize) -> (r: AllocId)
        requires
            idx <= usize::MAX - 2,
        ensures
            r.0 == idx + 2,
    {
        AllocId(2 + idx)
    }
}

/// One buffer of the pool. While the buffer is handed out, `client` is the client that
/// holds it and its bytes live in the `Packet`.
pub struct PacketBuf<const MTU: usize> {
    buf: Vec<u8>,
    free: bool,
    client: usize,
}

impl<const MTU: usize> PacketBuf<MTU> {
    /// A free buffer of `MTU` zero bytes.
    pub fn new() -> (r: Self)
        ensures
            r.is_free(),
            r.bytes() == Seq::new(MTU as nat, |i: int| 0u8),
    {
        let mut buf: Vec<u8> = Vec::new();
        let mut i: usize = 0;
        while i < MTU
            invariant
                i <= MTU,
                buf@ == Seq::new(i as nat, |j: int| 0u8),
            decreases MTU - i,
        {
            buf.push(0);
            i = i + 1;
            assert(buf@ =~= Seq::new(i as nat, |j: int| 0u8));
        }
        PacketBuf { buf, free: true, client: 0 }
    }

    pub closed spec fn is_free(&self) -> bool {
        self.free
    }

    pub closed spec fn holder(&self) -> usize {
        self.client
    }

    pub closed spec fn bytes(&self) -> Seq<u8> {
        self.buf@
    }
}

/// Quality of service policy for packet allocation
#[derive(Clone, Copy, PartialEq, Eq, Structural, Debug)]
pub enum Qos {
    /// Each client owns an equal share, `N / CLIENTS`
    Fair,
    /// Hold back the given number of buffers for each client that has fewer
    Guaranteed(usize),
    /// No guarantees: any client may take any free buffer
    Unrestricted,
}

/// The sum of the first `n` counters.
pub open spec fn sum_to(s: Seq<usize>, n: int) -> int
    decreases n,
{
    if n <= 0 {
        0
    } else {
        sum_to(s, n - 1) + s[n - 1]
    }
}

/// The sum of all counters.
pub open spec fn total(s: Seq<usize>) -> int {
    sum_to(s, s.len() as int)
}

/// How many of the first `n` counters are below `k`.
pub open spec fn count_below_to(s: Seq<usize>, k: usize, n: int) -> int
    decreases n,
{
    if n <= 0 {
        0
    } else {
        count_below_to(s, k, n - 1) + if s[n - 1] < k {
            1int
        } else {
            0int
        }
    }
}

/// How many counters are below `k`.
pub open spec fn count_below(s: Seq<usize>, k: usize) -> int {
    count_below_to(s, k, s.len() as int)
}

/// Buffers held back under `Guaranteed(k)` when client `id` asks: `k` for every client
/// that holds fewer than `k` buffers, less the shortfall of the asking client itself.
pub open spec fn reserved(usage: Seq<usize>, k: usize, id: int) -> int {
    k * count_below(usage, k) - if usage[id] < k {
        k - usage[id]
    } else {
        0
    }
}

pub open spec fn floor0(x: int) -> int {
    if x < 0 {
        0
    } else {
        x
    }
}

/// How many buffers client `id` may still take under the policy `qos`, for a pool of `n`
/// buffers shared by `clients` clients whose counters are `usage`.
pub open spec fn available_for(qos: Qos, n: int, clients: int, usage: Seq<usize>, id: int) -> int {
    match qos {
        Qos::Unrestricted => floor0(n - total(usage)),
        Qos::Fair => floor0(n / clients - usage[id]),
        Qos::Guaranteed(k) => floor0(n - reserved(usage, k, id) - total(usage)),
    }
}

/// How many of the first `n` buffers are handed out.
pub open spec fn in_use_to<const MTU: usize>(ps: Seq<PacketBuf<MTU>>, n: int) -> int
    decreases n,
{
    if n <= 0 {
        0
    } else {
        in_use_to(ps, n - 1) + if !ps[n - 1].is_free() {
            1int
        } else {
            0int
        }
    }
}

/// How many of the first `n` buffers client `c` holds.
pub open spec fn held_to<const MTU: usize>(ps: Seq<PacketBuf<MTU>>, c: usize, n: int) -> int
    decreases n,
{
    if n <= 0 {
        0
    } else {
        held_to(ps, c, n - 1) + if !ps[n - 1].is_free() && ps[n - 1].holder() == c {
            1int
        } else {
            0int
        }
    }
}

proof fn lemma_sum_update(s: Seq<usize>, i: int, v: usize, n: int)
    requires
        0 <= i < s.len(),
        0 <= n <= s.len(),
    ensures
        sum_to(s.update(i, v), n) == sum_to(s, n) + if i < n {
            v - s[i]
        } else {
            0
        },
    decreases n,
{
    if n > 0 {
        lemma_sum_update(s, i, v, n - 1);
    }
}

proof fn lemma_sum_nonneg_bound(s: Seq<usize>, n: int, j: int)
    requires
        0 <= j < n <= s.len(),
    ensures
        s[j] <= sum_to(s, n),
        sum_to(s, n) >= 0,
    decreases n,
{
    lemma_sum_nonneg(s, n - 1);
    if j < n - 1 {
        lemma_sum_nonneg_bound(s, n - 1, j);
    }
}

proof fn lemma_sum_nonneg(s: Seq<usize>, n: int)
    requires
        n <= s.len(),
    ensures
        sum_to(s, n) >= 0,
    decreases n,
{
    if n > 0 {
        lemma_sum_nonneg(s, n - 1);
    }
}

/// With every counter at most `b` and counter `j` below it, the sum is below `n * b`.
proof fn lemma_sum_below_cap(s: Seq<usize>, n: int, b: int, j: int)
    requires
        0 <= j < n <= s.len(),
        b >= 0,
        forall|i: int| 0 <= i < n ==> s[i] <= b,
        s[j] < b,
    ensures
        sum_to(s, n) < n * b,
    decreases n,
{
    if j < n - 1 {
        lemma_sum_below_cap(s, n - 1, b, j);
    } else {
        lemma_sum_at_most_cap(s, n - 1, b);
    }
    assert(n * b == (n - 1) * b + b) by (nonlinear_arith);
}

proof fn lemma_sum_at_most_cap(s: Seq<usize>, n: int, b: int)
    requires
        0 <= n <= s.len(),
        b >= 0,
        forall|i: int| 0 <= i < n ==> s[i] <= b,
    ensures
        sum_to(s, n) <= n * b,
    decreases n,
{
    if n > 0 {
        lemma_sum_at_most_cap(s, n - 1, b);
        assert(n * b == (n - 1) * b + b) by (nonlinear_arith);
    }
}

proof fn lemma_count_below_update(s: Seq<usize>, k: usize, i: int, v: usize, n: int)
    requires
        0 <= i < s.len(),
        0 <= n <= s.len(),
    ensures
        count_below_to(s.update(i, v), k, n) == count_below_to(s, k, n) + if i < n {
            (if v < k {
                1int
            } else {
                0int
            }) - (if s[i] < k {
                1int
            } else {
                0int
            })
        } else {
            0
        },
    decreases n,
{
    if n > 0 {
        lemma_count_below_update(s, k, i, v, n - 1);
    }
}

proof fn lemma_in_use_update<const MTU: usize>(ps: Seq<PacketBuf<MTU>>, i: int, x: PacketBuf<MTU>, n: int)
    requires
        0 <= i < ps.len(),
        0 <= n <= ps.len(),
    ensures
        in_use_to(ps.update(i, x), n) == in_use_to(ps, n) + if i < n {
            (if !x.is_free() {
                1int
            } else {
                0int
            }) - (if !ps[i].is_free() {
                1int
            } else {
                0int
            })
        } else {
            0
        },
    decreases n,
{
    if n > 0 {
        lemma_in_use_update(ps, i, x, n - 1);
    }
}

proof fn lemma_held_update<const MTU: usize>(
    ps: Seq<PacketBuf<MTU>>,
    c: usize,
    i: int,
    x: PacketBuf<MTU>,
    n: int,
)
    requires
        0 <= i < ps.len(),
        0 <= n <= ps.len(),
    ensures
        held_to(ps.update(i, x), c, n) == held_to(ps, c, n) + if i < n {
            (if !x.is_free() && x.holder() == c {
                1int
            } else {
                0int
            }) - (if !ps[i].is_free() && ps[i].holder() == c {
                1int
            } else {
                0int
            })
        } else {
            0
        },
    decreases n,
{
    if n > 0 {
        lemma_held_update(ps, c, i, x, n - 1);
    }
}

proof fn lemma_held_positive<const MTU: usize>(ps: Seq<PacketBuf<MTU>>, c: usize, i: int, n: int)
    requires
        0 <= i < n <= ps.len(),
        !ps[i].is_free(),
        ps[i].holder() == c,
    ensures
        held_to(ps, c, n) >= 1,
    decreases n,
{
    if i < n - 1 {
        lemma_held_positive(ps, c, i, n - 1);
    }
    lemma_held_nonneg(ps, c, n - 1);
}

proof fn lemma_held_nonneg<const MTU: usize>(ps: Seq<PacketBuf<MTU>>, c: usize, n: int)
    requires
        n <= ps.len(),
    ensures
        held_to(ps, c, n) >= 0,
    decreases n,
{
    if n > 0 {
        lemma_held_nonneg(ps, c, n - 1);
    }
}

proof fn lemma_all_in_use<const MTU: usize>(ps: Seq<PacketBuf<MTU>>, n: int)
    requires
        0 <= n <= ps.len(),
        forall|i: int| 0 <= i < n ==> !ps[i].is_free(),
    ensures
        in_use_to(ps, n) == n,
    decreases n,
{
    if n > 0 {
        lemma_all_in_use(ps, n - 1);
    }
}

proof fn lemma_in_use_at_most<const MTU: usize>(ps: Seq<PacketBuf<MTU>>, n: int)
    requires
        0 <= n <= ps.len(),
    ensures
        0 <= in_use_to(ps, n) <= n,
    decreases n,
{
    if n > 0 {
        lemma_in_use_at_most(ps, n - 1);
    }
}

/// Sum over the first `n` clients of what `Guaranteed(k)` holds back from client `id`:
/// `k` for another client below `k`, and the asking client's own count when it is below `k`.
spec fn held_back_to(usage: Seq<usize>, k: usize, id: int, n: int) -> int
    decreases n,
{
    if n <= 0 {
        0
    } else {
        held_back_to(usage, k, id, n - 1) + if n - 1 == id {
            if usage[n - 1] < k {
                usage[n - 1] as int
            } else {
                0int
            }
        } else if usage[n - 1] < k {
            k as int
        } else {
            0int
        }
    }
}

proof fn lemma_held_back(usage: Seq<usize>, k: usize, id: int, n: int)
    requires
        0 <= id < usage.len(),
        0 <= n <= usage.len(),
    ensures
        held_back_to(usage, k, id, n) == k * count_below_to(usage, k, n) - if id < n
            && usage[id] < k {
            k - usage[id]
        } else {
            0
        },
        held_back_to(usage, k, id, n) >= 0,
    decreases n,
{
    if n > 0 {
        lemma_held_back(usage, k, id, n - 1);
        let c = count_below_to(usage, k, n - 1);
        assert(k * (c + 1) == k * c + k) by (nonlinear_arith);
    }
}

proof fn lemma_count_below_positive(s: Seq<usize>, k: usize, j: int, n: int)
    requires
        0 <= j < n <= s.len(),
        s[j] < k,
    ensures
        count_below_to(s, k, n) >= 1,
    decreases n,
{
    if j < n - 1 {
        lemma_count_below_positive(s, k, j, n - 1);
    }
    lemma_count_below_nonneg(s, k, n - 1);
}

proof fn lemma_count_below_nonneg(s: Seq<usize>, k: usize, n: int)
    requires
        n <= s.len(),
    ensures
        count_below_to(s, k, n) >= 0,
    decreases n,
{
    if n > 0 {
        lemma_count_below_nonneg(s, k, n - 1);
    }
}

/// A handle on one buffer taken from a pool. It is given back with `PacketPool::free`.
pub struct Packet {
    client: AllocId,
    idx: usize,
    buf: Vec<u8>,
}

impl Packet {
    /// The client that took the buffer.
    pub closed spec fn client(&self) -> AllocId {
        self.client
    }

    /// The index of the buffer in its pool.
    pub closed spec fn index(&self) -> usize {
        self.idx
    }

    /// The bytes of the buffer.
    pub closed spec fn bytes(&self) -> Seq<u8> {
        self.buf@
    }

    pub fn as_ref(&self) -> (r: &[u8])
        ensures
            r@ == self.bytes(),
    {
        self.buf.as_slice()
    }

    pub fn as_mut(&mut self) -> (r: &mut [u8])
        ensures
            r@ == old(self).bytes(),
            final(self).bytes() == final(r)@,
            final(self).client() == old(self).client(),
            final(self).index() == old(self).index(),
    {
        self.buf.as_mut_slice()
    }

    /// Overwrites the buffer from `offset` on with `data`.
    pub fn write(&mut self, offset: usize, data: &[u8])
        requires
            offset + data@.len() <= old(self).bytes().len(),
        ensures
            final(self).client() == old(self).client(),
            final(self).index() == old(self).index(),
            final(self).bytes() == old(self).bytes().subrange(0, offset as int) + data@
                + old(self).bytes().subrange(offset + data@.len(), old(self).bytes().len() as int),
    {
        let mut i: usize = 0;
        while i < data.len()
            invariant
                i <= data@.len(),
                offset + data@.len() <= self.buf.len(),
                self.client == old(self).client,
                self.idx == old(self).idx,
                self.buf@.len() == old(self).buf@.len(),
                forall|j: int|
                    0 <= j < self.buf@.len() ==> #[trigger] self.buf@[j] == if offset <= j < offset
                        + i {
                        data@[j - offset]
                    } else {
                        old(self).buf@[j]
                    },
            decreases data@.len() - i,
        {
            self.buf[offset + i] = data[i];
            i = i + 1;
        }
        assert(self.buf@ =~= old(self).bytes().subrange(0, offset as int) + data@
            + old(self).bytes().subrange(offset + data@.len(), old(self).bytes().len() as int));
    }
}

struct State<const MTU: usize, const N: usize, const CLIENTS: usize> {
    packets: Vec<PacketBuf<MTU>>,
    usage: Vec<usize>,
}

impl<const MTU: usize, const N: usize, const CLIENTS: usize> State<MTU, N, CLIENTS> {
    spec fn wf(&self) -> bool {
        &&& self.packets@.len() == N
        &&& self.usage@.len() == CLIENTS
        &&& forall|c: int|
            0 <= c < CLIENTS ==> #[trigger] self.usage@[c] == held_to(self.packets@, c as usize, N as int)
        &&& total(self.usage@) == in_use_to(self.packets@, N as int)
        &&& forall|i: int|
            0 <= i < N ==> (#[trigger] self.packets@[i]).free ==> self.packets@[i].buf@.len() == MTU
        &&& forall|i: int|
            0 <= i < N ==> !(#[trigger] self.packets@[i]).free ==> self.packets@[i].client < CLIENTS
    }

    fn new() -> (r: Self)
        ensures
            r.wf(),
            r.usage@ == Seq::new(CLIENTS as nat, |i: int| 0usize),
            forall|i: int| 0 <= i < N ==> (#[trigger] r.packets@[i]).free,
    {
        let mut packets: Vec<PacketBuf<MTU>> = Vec::new();
        let mut i: usize = 0;
        while i < N
            invariant
                i <= N,
                packets@.len() == i,
                forall|j: int| 0 <= j < i ==> (#[trigger] packets@[j]).free,
                forall|j: int| 0 <= j < i ==> (#[trigger] packets@[j]).buf@.len() == MTU,
            decreases N - i,
        {
            packets.push(PacketBuf::new());
            i = i + 1;
        }
        let mut usage: Vec<usize> = Vec::new();
        let mut c: usize = 0;
        while c < CLIENTS
            invariant
                c <= CLIENTS,
                usage@ == Seq::new(c as nat, |i: int| 0usize),
            decreases CLIENTS - c,
        {
            usage.push(0);
            c = c + 1;
            assert(usage@ =~= Seq::new(c as nat, |i: int| 0usize));
        }
        proof {
            lemma_none_in_use(packets@, N as int);
            lemma_zero_sum(usage@, CLIENTS as int);
            assert forall|c: int| 0 <= c < CLIENTS implies #[trigger] usage@[c] == held_to(
                packets@,
                c as usize,
                N as int,
            ) by {
                lemma_none_held(packets@, c as usize, N as int);
            }
        }
        State { packets, usage }
    }

    /// The sum of all counters, which the pool keeps at most `N`.
    fn used(&self) -> (r: usize)
        requires
            self.wf(),
        ensures
            r == total(self.usage@),
            r <= N,
    {
        proof {
            lemma_in_use_at_most(self.packets@, N as int);
        }
        let mut sum: usize = 0;
        let mut c: usize = 0;
        while c < CLIENTS
            invariant
                self.wf(),
                c <= CLIENTS,
                sum == sum_to(self.usage@, c as int),
                total(self.usage@) <= N,
            decreases CLIENTS - c,
        {
            proof {
                lemma_sum_prefix_at_most(self.usage@, c as int + 1, CLIENTS as int);
            }
            sum = sum + self.usage[c];
            c = c + 1;
        }
        sum
    }

    fn available(&self, qos: Qos, client: AllocId) -> (r: usize)
        requires
            self.wf(),
            client.0 < CLIENTS,
        ensures
            r == available_for(qos, N as int, CLIENTS as int, self.usage@, client.0 as int),
    {
        let used = self.used();
        match qos {
            Qos::Unrestricted => N - used,
            Qos::Fair => {
                let share = N / CLIENTS;
                let u = self.usage[client.0];
                if u >= share {
                    0
                } else {
                    share - u
                }
            },
            Qos::Guaranteed(k) => {
                let mut res: usize = 0;
                let mut over = false;
                let mut c: usize = 0;
                while c < CLIENTS
                    invariant
                        self.wf(),
                        client.0 < CLIENTS,
                        c <= CLIENTS,
                        res <= N,
                        over ==> held_back_to(self.usage@, k, client.0 as int, c as int) > N,
                        !over ==> res == held_back_to(self.usage@, k, client.0 as int, c as int),
                    decreases CLIENTS - c,
                {
                    let u = self.usage[c];
                    let a: usize = if c == client.0 {
                        if u < k {
                            u
                        } else {
                            0
                        }
                    } else if u < k {
                        k
                    } else {
                        0
                    };
                    if !over {
                        if a > N - res {
                            over = true;
                        } else {
                            res = res + a;
                        }
                    }
                    c = c + 1;
                }
                proof {
                    lemma_held_back(self.usage@, k, client.0 as int, CLIENTS as int);
                    lemma_sum_nonneg(self.usage@, CLIENTS as int);
                }
                if over {
                    0
                } else if used > N - res {
                    0
                } else {
                    N - res - used
                }
            },
        }
    }

    /// Takes the first free buffer for client `id`.
    fn take(&mut self, id: AllocId) -> (r: Option<Packet>)
        requires
            old(self).wf(),
            id.0 < CLIENTS,
        ensures
            final(self).wf(),
            match r {
                Some(p) => {
                    &&& p.client == id
                    &&& p.idx < N
                    &&& p.buf@.len() == MTU
                    &&& old(self).packets@[p.idx as int].free
                    &&& forall|j: int| 0 <= j < p.idx ==> !(#[trigger] old(self).packets@[j]).free
                    &&& final(self).packets@ == old(self).packets@.update(
                        p.idx as int,
                        PacketBuf { buf: final(self).packets@[p.idx as int].buf, free: false, client: id.0 },
                    )
                    &&& final(self).usage@ == old(self).usage@.update(
                        id.0 as int,
                        (old(self).usage@[id.0 as int] + 1) as usize,
                    )
                    &&& final(self).usage@[id.0 as int] == old(self).usage@[id.0 as int] + 1
                },
                None => {
                    &&& *final(self) == *old(self)
                    &&& in_use_to(old(self).packets@, N as int) == N
                },
            },
    {
        let mut i: usize = 0;
        while i < N
            invariant
                self.wf(),
                *self == *old(self),
                id.0 < CLIENTS,
                i <= N,
                forall|j: int| 0 <= j < i ==> !(#[trigger] self.packets@[j]).free,
            decreases N - i,
        {
            if self.packets[i].free {
                let ghost ps = self.packets@;
                let mut slot = PacketBuf { buf: Vec::new(), free: false, client: id.0 };
                std::mem::swap(&mut self.packets[i], &mut slot);
                let ghost ps2 = self.packets@;
                proof {
                    lemma_in_use_update(ps, i as int, ps2[i as int], N as int);
                    lemma_in_use_at_most(ps2, N as int);
                    lemma_sum_nonneg_bound(self.usage@, CLIENTS as int, id.0 as int);
                    assert forall|c: int| 0 <= c < CLIENTS implies #[trigger] held_to(ps2, c as usize, N as int)
                        == held_to(ps, c as usize, N as int) + if c == id.0 {
                        1int
                    } else {
                        0int
                    } by {
                        lemma_held_update(ps, c as usize, i as int, ps2[i as int], N as int);
                    }
                }
                let u = self.usage[id.0];
                self.usage[id.0] = u + 1;
                proof {
                    lemma_sum_update(old(self).usage@, id.0 as int, (u + 1) as usize, CLIENTS as int);
                    assert(ps2 == ps.update(i as int, ps2[i as int]));
                }
                return Some(Packet { client: id, idx: i, buf: slot.buf });
            }
            i = i + 1;
        }
        proof {
            lemma_all_in_use(self.packets@, N as int);
        }
        None
    }

    /// Whether `p` holds a buffer of this state, taken by the client it names.
    spec fn holds(&self, p: &Packet) -> bool {
        &&& p.idx < N
        &&& !self.packets@[p.idx as int].free
        &&& self.packets@[p.idx as int].client == p.client.0
        &&& p.buf@.len() == MTU
    }

    fn free(&mut self, p: Packet)
        requires
            old(self).wf(),
        ensures
            final(self).wf(),
            old(self).holds(&p) ==> {
                &&& old(self).usage@[p.client.0 as int] >= 1
                &&& final(self).packets@ == old(self).packets@.update(
                    p.idx as int,
                    PacketBuf { buf: p.buf, free: true, client: 0 },
                )
                &&& final(self).usage@ == old(self).usage@.update(
                    p.client.0 as int,
                    (old(self).usage@[p.client.0 as int] - 1) as usize,
                )
            },
            !old(self).holds(&p) ==> *final(self) == *old(self),
    {
        if p.idx < N && !self.packets[p.idx].free && self.packets[p.idx].client == p.client.0
            && p.buf.len() == MTU {
            let ghost ps = self.packets@;
            let c = p.client.0;
            let idx = p.idx;
            proof {
                lemma_held_positive(ps, c, idx as int, N as int);
            }
            let slot = PacketBuf { buf: p.buf, free: true, client: 0 };
            self.packets[idx] = slot;
            let ghost ps2 = self.packets@;
            proof {
                lemma_in_use_update(ps, idx as int, ps2[idx as int], N as int);
                assert forall|d: int| 0 <= d < CLIENTS implies #[trigger] held_to(ps2, d as usize, N as int)
                    == held_to(ps, d as usize, N as int) - if d == c {
                    1int
                } else {
                    0int
                } by {
                    lemma_held_update(ps, d as usize, idx as int, ps2[idx as int], N as int);
                }
            }
            let u = self.usage[c];
            self.usage[c] = u - 1;
            proof {
                lemma_sum_update(old(self).usage@, c as int, (u - 1) as usize, CLIENTS as int);
            }
        }
    }
}

proof fn lemma_none_in_use<const MTU: usize>(ps: Seq<PacketBuf<MTU>>, n: int)
    requires
        0 <= n <= ps.len(),
        forall|i: int| 0 <= i < n ==> (#[trigger] ps[i]).is_free(),
    ensures
        in_use_to(ps, n) == 0,
    decreases n,
{
    if n > 0 {
        lemma_none_in_use(ps, n - 1);
    }
}

proof fn lemma_none_held<const MTU: usize>(ps: Seq<PacketBuf<MTU>>, c: usize, n: int)
    requires
        0 <= n <= ps.len(),
        forall|i: int| 0 <= i < n ==> (#[trigger] ps[i]).is_free(),
    ensures
        held_to(ps, c, n) == 0,
    decreases n,
{
    if n > 0 {
        lemma_none_held(ps, c, n - 1);
    }
}

proof fn lemma_zero_count_below(s: Seq<usize>, k: usize, n: int)
    requires
        0 <= n <= s.len(),
        forall|i: int| 0 <= i < n ==> s[i] == 0,
    ensures
        count_below_to(s, k, n) == if k > 0 {
            n
        } else {
            0
        },
    decreases n,
{
    if n > 0 {
        lemma_zero_count_below(s, k, n - 1);
    }
}

proof fn lemma_zero_sum(s: Seq<usize>, n: int)
    requires
        0 <= n <= s.len(),
        forall|i: int| 0 <= i < n ==> s[i] == 0,
    ensures
        sum_to(s, n) == 0,
    decreases n,
{
    if n > 0 {
        lemma_zero_sum(s, n - 1);
    }
}

proof fn lemma_sum_prefix_at_most(s: Seq<usize>, m: int, n: int)
    requires
        0 <= m <= n <= s.len(),
    ensures
        sum_to(s, m) <= sum_to(s, n),
    decreases n - m,
{
    if m < n {
        lemma_sum_prefix_at_most(s, m, n - 1);
    }
}

/// A pool of `N` buffers of `MTU` bytes shared by `CLIENTS` clients under a quality of
/// service policy.
pub struct PacketPool<const MTU: usize, const N: usize, const CLIENTS: usize> {
    state: State<MTU, N, CLIENTS>,
    qos: Qos,
}

impl<const MTU: usize, const N: usize, const CLIENTS: usize> PacketPool<MTU, N, CLIENTS> {
    /// What the pool keeps true between calls.
    pub closed spec fn wf(&self) -> bool {
        &&& self.state.wf()
        &&& self.qos == Qos::Fair ==> forall|c: int|
            0 <= c < CLIENTS ==> #[trigger] self.state.usage@[c] <= N / CLIENTS
    }

    /// The policy the pool was made with.
    pub closed spec fn qos(&self) -> Qos {
        self.qos
    }

    /// How many buffers each client holds.
    pub closed spec fn usage(&self) -> Seq<usize> {
        self.state.usage@
    }

    /// The pool's buffers, by index.
    pub closed spec fn buffers(&self) -> Seq<PacketBuf<MTU>> {
        self.state.packets@
    }

    /// Whether `p` holds a buffer of this pool, taken by the client it names.
    pub open spec fn holds(&self, p: &Packet) -> bool {
        &&& p.index() < N
        &&& !self.buffers()[p.index() as int].is_free()
        &&& self.buffers()[p.index() as int].holder() == p.client().0
        &&& p.bytes().len() == MTU
    }

    /// How many buffers client `id` may take now.
    pub open spec fn spec_available(&self, id: AllocId) -> int {
        available_for(self.qos(), N as int, CLIENTS as int, self.usage(), id.0 as int)
    }

    pub fn new(qos: Qos) -> (r: Self)
        ensures
            r.wf(),
            r.qos() == qos,
            r.usage() == Seq::new(CLIENTS as nat, |i: int| 0usize),
            total(r.usage()) == 0,
            forall|k: usize| #[trigger] count_below(r.usage(), k) == if k > 0 {
                CLIENTS as int
            } else {
                0
            },
            r.buffers().len() == N,
            forall|i: int| 0 <= i < N ==> (#[trigger] r.buffers()[i]).is_free(),
    {
        let r = PacketPool { state: State::new(), qos };
        proof {
            lemma_zero_sum(r.state.usage@, CLIENTS as int);
            assert forall|k: usize| #[trigger] count_below(r.usage(), k) == if k > 0 {
                CLIENTS as int
            } else {
                0
            } by {
                lemma_zero_count_below(r.state.usage@, k, CLIENTS as int);
            }
        }
        r
    }

    /// Takes a buffer for client `id`: the first free one by index, when the policy lets
    /// the client have one.
    pub fn allocate(&mut self, id: AllocId) -> (r: Option<Packet>)
        requires
            old(self).wf(),
            id.0 < CLIENTS,
        ensures
            final(self).wf(),
            final(self).qos() == old(self).qos(),
            final(self).usage().len() == CLIENTS,
            final(self).buffers().len() == N,
            r.is_some() == (old(self).spec_available(id) > 0),
            match r {
                Some(p) => {
                    &&& p.client() == id
                    &&& p.index() < N
                    &&& p.bytes().len() == MTU
                    &&& final(self).holds(&p)
                    &&& old(self).buffers()[p.index() as int].is_free()
                    &&& forall|j: int|
                        0 <= j < p.index() ==> !(#[trigger] old(self).buffers()[j]).is_free()
                    &&& forall|j: int|
                        0 <= j < N && j != p.index() ==> #[trigger] final(self).buffers()[j]
                            == old(self).buffers()[j]
                    &&& final(self).usage()[id.0 as int] == old(self).usage()[id.0 as int] + 1
                    &&& forall|c: int|
                        0 <= c < CLIENTS && c != id.0 ==> #[trigger] final(self).usage()[c] == old(
                            self,
                        ).usage()[c]
                },
                None => *final(self) == *old(self),
            },
    {
        let available = self.state.available(self.qos, id);
        if available == 0 {
            return None;
        }
        proof {
            self.lemma_available_leaves_free(id);
        }
        let r = self.state.take(id);
        proof {
            if self.qos == Qos::Fair {
                assert forall|c: int| 0 <= c < CLIENTS implies #[trigger] self.state.usage@[c]
                    <= N / CLIENTS by {
                    if c != id.0 {
                        assert(self.state.usage@[c] == old(self).state.usage@[c]);
                    }
                }
            }
        }
        r
    }

    /// Gives the buffer of `p` back to the pool. A packet that holds no buffer of this pool
    /// leaves the pool as it was.
    pub fn free(&mut self, p: Packet)
        requires
            old(self).wf(),
        ensures
            final(self).wf(),
            final(self).qos() == old(self).qos(),
            final(self).usage().len() == CLIENTS,
            final(self).buffers().len() == N,
            old(self).holds(&p) ==> {
                &&& old(self).usage()[p.client().0 as int] >= 1
                &&& final(self).buffers()[p.index() as int].is_free()
                &&& forall|j: int|
                    0 <= j < N && j != p.index() ==> #[trigger] final(self).buffers()[j]
                        == old(self).buffers()[j]
                &&& final(self).usage()[p.client().0 as int] == old(self).usage()[p.client().0 as int]
                    - 1
                &&& forall|c: int|
                    0 <= c < CLIENTS && c != p.client().0 ==> #[trigger] final(self).usage()[c]
                        == old(self).usage()[c]
            },
            !old(self).holds(&p) ==> *final(self) == *old(self),
    {
        self.state.free(p);
        proof {
            if self.qos == Qos::Fair {
                assert forall|c: int| 0 <= c < CLIENTS implies #[trigger] self.state.usage@[c]
                    <= N / CLIENTS by {
                    assert(old(self).state.usage@[c] <= N / CLIENTS);
                    assert(self.state.usage@[c] <= old(self).state.usage@[c]);
                }
            }
        }
    }

    /// How many buffers client `id` may take now.
    pub fn available(&self, id: AllocId) -> (r: usize)
        requires
            self.wf(),
            id.0 < CLIENTS,
        ensures
            r == self.spec_available(id),
    {
        self.state.available(self.qos, id)
    }

    /// When the policy lets client `id` have a buffer, some buffer is free.
    proof fn lemma_available_leaves_free(&self, id: AllocId)
        requires
            self.wf(),
            id.0 < CLIENTS,
            self.spec_available(id) > 0,
        ensures
            in_use_to(self.state.packets@, N as int) < N,
    {
        let u = self.state.usage@;
        match self.qos {
            Qos::Unrestricted => {},
            Qos::Fair => {
                lemma_sum_below_cap(u, CLIENTS as int, (N / CLIENTS) as int, id.0 as int);
                vstd::arithmetic::div_mod::lemma_fundamental_div_mod(N as int, CLIENTS as int);
                assert(0 <= N % CLIENTS);
            },
            Qos::Guaranteed(k) => {
                if u[id.0 as int] < k {
                    lemma_count_below_positive(u, k, id.0 as int, CLIENTS as int);
                    let cb = count_below(u, k);
                    assert(k * cb >= k) by (nonlinear_arith)
                        requires
                            cb >= 1,
                    ;
                } else {
                    lemma_count_below_nonneg(u, k, CLIENTS as int);
                    let cb = count_below(u, k);
                    assert(k * cb >= 0) by (nonlinear_arith)
                        requires
                            cb >= 0,
                    ;
                }
            },
        }
    }

    /// Every client's counter is the number of buffers it holds, and their sum is the
    /// number of buffers handed out, which is at most `N`.
    pub proof fn lemma_usage_counts_live_packets(&self)
        requires
            self.wf(),
        ensures
            forall|c: int|
                0 <= c < CLIENTS ==> #[trigger] self.usage()[c] == held_to(
                    self.buffers(),
                    c as usize,
                    N as int,
                ),
            total(self.usage()) == in_use_to(self.buffers(), N as int),
            total(self.usage()) <= N,
            self.usage().len() == CLIENTS,
            self.buffers().len() == N,
    {
        lemma_in_use_at_most(self.state.packets@, N as int);
    }

    /// Under `Fair` no client holds more than its share `N / CLIENTS`; a client that holds
    /// its whole share may take nothing more, and one below it, say after a release, may.
    pub proof fn lemma_fair_share(&self, id: AllocId)
        requires
            self.wf(),
            self.qos() == Qos::Fair,
            id.0 < CLIENTS,
        ensures
            self.usage()[id.0 as int] <= N / CLIENTS,
            self.usage()[id.0 as int] == N / CLIENTS ==> self.spec_available(id) == 0,
            self.usage()[id.0 as int] < N / CLIENTS ==> self.spec_available(id) > 0,
    {
        assert(self.state.usage@[id.0 as int] <= N / CLIENTS);
    }

    /// Under `Guaranteed(k)`, when client `id` may take a buffer, then after it does, `k`
    /// buffers are still free for each other client that holds fewer than `k`.
    pub proof fn lemma_guarantee_kept(&self, id: AllocId, k: usize)
        requires
            self.wf(),
            self.qos() == Qos::Guaranteed(k),
            id.0 < CLIENTS,
            self.spec_available(id) > 0,
        ensures
            total(self.usage()) + 1 + k * (count_below(self.usage(), k) - if self.usage()[id.0 as int]
                < k {
                1int
            } else {
                0int
            }) <= N,
    {
        let u = self.usage();
        let cb = count_below(u, k);
        lemma_count_below_nonneg(u, k, CLIENTS as int);
        if u[id.0 as int] < k {
            lemma_count_below_positive(u, k, id.0 as int, CLIENTS as int);
            assert(k * (cb - 1) == k * cb - k) by (nonlinear_arith);
        }
    }

    /// With eight buffers shared by four clients under `Guaranteed(1)`, a client that is
    /// alone in the pool may hold five buffers, three staying back for the others: it may
    /// take one more exactly while it holds fewer than five.
    pub proof fn lemma_guaranteed_one_alone(&self, c: AllocId)
        requires
            self.wf(),
            N == 8,
            CLIENTS == 4,
            self.qos() == Qos::Guaranteed(1),
            c.0 < 4,
            forall|j: int| 0 <= j < 4 && j != c.0 ==> self.usage()[j] == 0,
        ensures
            (self.spec_available(c) > 0) == (self.usage()[c.0 as int] < 5),
    {
        self.lemma_usage_counts_live_packets();
        let u = self.usage();
        reveal_with_fuel(sum_to, 5);
        reveal_with_fuel(count_below_to, 5);
        assert(u[0] == 0 || c.0 == 0);
        assert(u[1] == 0 || c.0 == 1);
        assert(u[2] == 0 || c.0 == 2);
        assert(u[3] == 0 || c.0 == 3);
    }

    /// With eight buffers shared by four clients under `Guaranteed(1)`, once one client
    /// holds five and every other at most one, each other client may take a buffer exactly
    /// while it holds none.
    pub proof fn lemma_guaranteed_one_rest(&self, c: AllocId, j: AllocId)
        requires
            self.wf(),
            N == 8,
            CLIENTS == 4,
            self.qos() == Qos::Guaranteed(1),
            c.0 < 4,
            j.0 < 4,
            j.0 != c.0,
            self.usage()[c.0 as int] == 5,
            forall|k: int| 0 <= k < 4 && k != c.0 ==> self.usage()[k] <= 1,
        ensures
            (self.spec_available(j) > 0) == (self.usage()[j.0 as int] == 0),
    {
        self.lemma_usage_counts_live_packets();
        let u = self.usage();
        reveal_with_fuel(sum_to, 5);
        reveal_with_fuel(count_below_to, 5);
        assert(u[0] <= 1 || c.0 == 0);
        assert(u[1] <= 1 || c.0 == 1);
        assert(u[2] <= 1 || c.0 == 2);
        assert(u[3] <= 1 || c.0 == 3);
    }

    /// Under `Unrestricted` any client may take a buffer exactly while fewer than `N` are
    /// handed out in all.
    pub proof fn lemma_unrestricted_aggregate(&self, id: AllocId)
        requires
            self.wf(),
            self.qos() == Qos::Unrestricted,
            id.0 < CLIENTS,
        ensures
            (self.spec_available(id) > 0) == (total(self.usage()) < N),
    {
    }
}

} // verus!
