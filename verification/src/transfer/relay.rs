//! Per-attempt TCP relay splicing the zfs send stream into the zfs recv stream:
//! whom it listens to, and when a stream counts as complete.
//!
//! Both zfs-localpv node agents are outbound `nc` clients: the source connects
//! to `backupDest` and writes the send stream; the target connects to
//! `restoreSrc` and reads it. The relay listens on two ports (one per role: a
//! single port could not tell sender from receiver apart), pins each to the
//! expected node's addresses and accepts exactly one matching connection each.
use vstd::arithmetic::power2::{pow2};
use vstd::prelude::*;

use crate::text::{
    chars, digits_value, is_digit, lemma_run_length, parse_u8, run_length, slice, trim, trimmed,
    unsigned_value,
};

verus! {

/// An IP address: the 32 bits of version 4, the 128 of version 6.
#[derive(Clone, Copy, Debug, PartialEq, Eq, Structural)]
pub enum IpAddr {
    V4(u32),
    V6(u128),
}

/// A network in CIDR terms; hosts are a /32 (or /128).
#[derive(Clone, Copy, Debug, PartialEq, Eq, Structural)]
pub struct IpNet {
    pub addr: IpAddr,
    pub prefix: u8,
}

// ------------------------------------------------------------------ addresses as text

/// Everything but the separator.
pub open spec fn other_than(sep: char) -> spec_fn(char) -> bool {
    |c: char| c != sep
}

/// The parts of a text between separators: one more than there are separators.
pub open spec fn split(s: Seq<char>, sep: char) -> Seq<Seq<char>>
    decreases s.len(),
{
    let n = run_length(s, other_than(sep));
    if n >= s.len() {
        seq![s]
    } else {
        seq![s.take(n as int)] + split(s.skip(n as int + 1), sep)
    }
}

/// One number of a version 4 address: up to three digits, at most 255, and no
/// zero before other digits.
pub open spec fn octet(s: Seq<char>) -> Option<nat> {
    if 1 <= s.len() <= 3 && crate::text::all_digits(s) && (s.len() == 1 || s[0] != '0')
        && digits_value(s) <= 255 {
        Some(digits_value(s))
    } else {
        None
    }
}

/// The address that four numbers with dots between them write.
pub open spec fn ipv4(s: Seq<char>) -> Option<nat> {
    let f = split(s, '.');
    if f.len() == 4 && octet(f[0]) is Some && octet(f[1]) is Some && octet(f[2]) is Some && octet(
        f[3],
    ) is Some {
        Some(
            ((octet(f[0])->0 * 256 + octet(f[1])->0) * 256 + octet(f[2])->0) * 256 + octet(f[3])->0,
        )
    } else {
        None
    }
}

/// The value of a hexadecimal digit.
pub open spec fn hex_digit(c: char) -> Option<nat> {
    if '0' <= c <= '9' {
        Some((c as nat - '0' as nat) as nat)
    } else if 'a' <= c <= 'f' {
        Some((c as nat - 'a' as nat + 10) as nat)
    } else if 'A' <= c <= 'F' {
        Some((c as nat - 'A' as nat + 10) as nat)
    } else {
        None
    }
}

/// The number that hexadecimal digits write.
pub open spec fn hex_value(s: Seq<char>) -> Option<nat>
    decreases s.len(),
{
    if s.len() == 0 {
        Some(0)
    } else {
        match (hex_value(s.drop_last()), hex_digit(s.last())) {
            (Some(n), Some(d)) => Some(n * 16 + d),
            _ => None,
        }
    }
}

/// One group of a version 6 address: one to four hexadecimal digits.
pub open spec fn group(s: Seq<char>) -> Option<nat> {
    if 1 <= s.len() <= 4 {
        hex_value(s)
    } else {
        None
    }
}

/// The groups that all of these texts write.
pub open spec fn groups(f: Seq<Seq<char>>) -> Option<Seq<nat>>
    decreases f.len(),
{
    if f.len() == 0 {
        Some(Seq::empty())
    } else {
        match (groups(f.drop_last()), group(f.last())) {
            (Some(g), Some(d)) => Some(g.push(d)),
            _ => None,
        }
    }
}

/// The groups of a part of a version 6 address; where that is allowed, the
/// last two may be written as a version 4 address.
pub open spec fn part(s: Seq<char>, v4_ok: bool) -> Option<Seq<nat>> {
    if s.len() == 0 {
        Some(Seq::empty())
    } else {
        let f = split(s, ':');
        match groups(f) {
            Some(g) => Some(g),
            None => if v4_ok {
                match (groups(f.drop_last()), ipv4(f.last())) {
                    (Some(g), Some(v)) => Some(g + seq![v / 65536, v % 65536]),
                    _ => None,
                }
            } else {
                None
            },
        }
    }
}

/// Where two colons in a row first stand, from some place on.
pub open spec fn gap(s: Seq<char>, from: int) -> Option<int>
    decreases s.len() - from,
{
    if from < 0 || from + 1 >= s.len() {
        None
    } else if s[from] == ':' && s[from + 1] == ':' {
        Some(from)
    } else {
        gap(s, from + 1)
    }
}

/// Groups with zeroes in the gap between head and tail, eight in all.
pub open spec fn filled(head: Seq<nat>, tail: Seq<nat>) -> Seq<nat> {
    head + Seq::new((8 - head.len() - tail.len()) as nat, |i: int| 0nat) + tail
}

/// The eight groups of a version 6 address: all of them, or with two colons in
/// place of at least one group of zeroes.
pub open spec fn ipv6_groups(s: Seq<char>) -> Option<Seq<nat>> {
    match gap(s, 0) {
        None => match part(s, true) {
            Some(g) => if g.len() == 8 {
                Some(g)
            } else {
                None
            },
            None => None,
        },
        Some(i) => match (part(s.take(i), false), part(s.skip(i + 2), true)) {
            (Some(head), Some(tail)) => if head.len() + tail.len() <= 7 {
                Some(filled(head, tail))
            } else {
                None
            },
            _ => None,
        },
    }
}

/// The number that groups make up.
pub open spec fn groups_value(g: Seq<nat>) -> nat
    decreases g.len(),
{
    if g.len() == 0 {
        0
    } else {
        groups_value(g.drop_last()) * 65536 + g.last()
    }
}

/// The address a text writes: version 4, else version 6.
pub open spec fn ip_of(s: Seq<char>) -> Option<IpAddr> {
    match ipv4(s) {
        Some(v) => Some(IpAddr::V4(v as u32)),
        None => match ipv6_groups(s) {
            Some(g) => Some(IpAddr::V6(groups_value(g) as u128)),
            None => None,
        },
    }
}

/// The views of lists of characters.
pub open spec fn fields(v: Seq<Vec<char>>) -> Seq<Seq<char>> {
    v.map_values(|f: Vec<char>| f@)
}

fn copied(v: &Vec<char>, from: usize, to: usize) -> (r: Vec<char>)
    requires
        from <= to <= v@.len(),
    ensures
        r@ == v@.subrange(from as int, to as int),
{
    let mut r: Vec<char> = Vec::new();
    for i in from..to
        invariant
            from <= to <= v@.len(),
            r@ == v@.subrange(from as int, i as int),
    {
        r.push(v[i]);
        assert(r@ =~= v@.subrange(from as int, i + 1));
    }
    r
}

fn split_at(v: &Vec<char>, sep: char) -> (r: Vec<Vec<char>>)
    ensures
        fields(r@) == split(v@, sep),
        r@.len() >= 1,
{
    let mut done: Vec<Vec<char>> = Vec::new();
    let mut start: usize = 0;
    let ghost p = other_than(sep);
    assert(v@.skip(0) =~= v@);
    assert(fields(done@) + split(v@, sep) =~= split(v@, sep));
    for i in 0..v.len()
        invariant
            p == other_than(sep),
            start <= i,
            forall|j: int| start <= j < i ==> v@[j] != sep,
            fields(done@) + split(v@.skip(start as int), sep) == split(v@, sep),
    {
        if v[i] == sep {
            let f = copied(v, start, i);
            let ghost rest = v@.skip(start as int);
            proof {
                let n = i - start;
                assert forall|j: int| 0 <= j < n implies p(#[trigger] rest[j]) by {
                    assert(rest[j] == v@[start + j]);
                }
                lemma_run_length(rest, p, n);
                assert(rest.take(n) =~= f@);
                assert(rest.skip(n + 1) =~= v@.skip(i + 1));
            }
            let ghost d0 = fields(done@);
            done.push(f);
            proof {
                assert(fields(done@) =~= d0.push(f@));
                assert(d0 + split(rest, sep) =~= fields(done@) + split(v@.skip(i + 1), sep));
            }
            start = i + 1;
        }
    }
    let f = copied(v, start, v.len());
    proof {
        let rest = v@.skip(start as int);
        assert forall|j: int| 0 <= j < rest.len() implies p(#[trigger] rest[j]) by {
            assert(rest[j] == v@[start + j]);
        }
        lemma_run_length(rest, p, rest.len() as int);
        assert(f@ =~= rest);
    }
    let ghost d0 = fields(done@);
    done.push(f);
    assert(fields(done@) =~= d0 + split(v@.skip(start as int), sep));
    done
}

fn read_octet(v: &Vec<char>) -> (r: Option<u32>)
    ensures
        r matches Some(n) ==> octet(v@) == Some(n as nat) && n <= 255,
        r is None ==> octet(v@) is None,
{
    if v.len() == 0 || v.len() > 3 || (v.len() > 1 && v[0] == '0') {
        return None;
    }
    let mut n: u32 = 0;
    assert(v@.take(0) =~= Seq::<char>::empty());
    for i in 0..v.len()
        invariant
            v@.len() <= 3,
            i <= v@.len(),
            n == digits_value(v@.take(i as int)),
            crate::text::all_digits(v@.take(i as int)),
            i == 0 ==> n == 0,
            i == 1 ==> n <= 9,
            i == 2 ==> n <= 99,
            i == 3 ==> n <= 999,
    {
        let c = v[i];
        if c < '0' || c > '9' {
            assert(!is_digit(v@[i as int]));
            return None;
        }
        proof {
            let t = v@.take(i + 1);
            assert(t.drop_last() =~= v@.take(i as int));
            assert forall|j: int| 0 <= j < t.len() implies is_digit(#[trigger] t[j]) by {
                if j < i {
                    assert(is_digit(v@.take(i as int)[j]));
                }
            }
        }
        n = n * 10 + (c as u32 - '0' as u32);
    }
    assert(v@.take(v@.len() as int) =~= v@);
    if n <= 255 {
        Some(n)
    } else {
        None
    }
}

fn read_ipv4(v: &Vec<char>) -> (r: Option<u32>)
    ensures
        r matches Some(n) ==> ipv4(v@) == Some(n as nat),
        r is None ==> ipv4(v@) is None,
{
    let f = split_at(v, '.');
    if f.len() != 4 {
        assert(split(v@, '.').len() == f@.len());
        return None;
    }
    proof {
        let s = split(v@, '.');
        assert(s[0] == f@[0]@ && s[1] == f@[1]@ && s[2] == f@[2]@ && s[3] == f@[3]@);
    }
    match (read_octet(&f[0]), read_octet(&f[1]), read_octet(&f[2]), read_octet(&f[3])) {
        (Some(a), Some(b), Some(c), Some(d)) => Some(((a * 256 + b) * 256 + c) * 256 + d),
        _ => None,
    }
}

fn read_hex_digit(c: char) -> (r: Option<u16>)
    ensures
        r matches Some(n) ==> hex_digit(c) == Some(n as nat) && n < 16,
        r is None ==> hex_digit(c) is None,
{
    if '0' <= c && c <= '9' {
        Some((c as u32 - '0' as u32) as u16)
    } else if 'a' <= c && c <= 'f' {
        Some((c as u32 - 'a' as u32 + 10) as u16)
    } else if 'A' <= c && c <= 'F' {
        Some((c as u32 - 'A' as u32 + 10) as u16)
    } else {
        None
    }
}

/// Digits that are none at some place make no number.
proof fn lemma_hex_prefix(s: Seq<char>, i: int)
    requires
        0 <= i <= s.len(),
        hex_value(s.take(i)) is None,
    ensures
        hex_value(s) is None,
    decreases s.len() - i,
{
    if i < s.len() {
        assert(s.take(i + 1).drop_last() =~= s.take(i));
        lemma_hex_prefix(s, i + 1);
    } else {
        assert(s.take(i) =~= s);
    }
}

fn read_group(v: &Vec<char>) -> (r: Option<u16>)
    ensures
        r matches Some(n) ==> group(v@) == Some(n as nat),
        r is None ==> group(v@) is None,
{
    if v.len() == 0 || v.len() > 4 {
        return None;
    }
    let mut n: u16 = 0;
    assert(v@.take(0) =~= Seq::<char>::empty());
    for i in 0..v.len()
        invariant
            v@.len() <= 4,
            hex_value(v@.take(i as int)) == Some(n as nat),
            i == 0 ==> n == 0,
            i == 1 ==> n < 16,
            i == 2 ==> n < 256,
            i == 3 ==> n < 4096,
    {
        assert(v@.take(i + 1).drop_last() =~= v@.take(i as int));
        match read_hex_digit(v[i]) {
            Some(d) => {
                n = n * 16 + d;
            },
            None => {
                proof {
                    lemma_hex_prefix(v@, i + 1);
                }
                return None;
            },
        }
    }
    assert(v@.take(v@.len() as int) =~= v@);
    Some(n)
}

/// Groups as numbers.
pub open spec fn nats(v: Seq<u16>) -> Seq<nat> {
    v.map_values(|n: u16| n as nat)
}

proof fn lemma_groups_prefix(f: Seq<Seq<char>>, i: int)
    requires
        0 <= i <= f.len(),
        groups(f.take(i)) is None,
    ensures
        groups(f) is None,
    decreases f.len() - i,
{
    if i < f.len() {
        assert(f.take(i + 1).drop_last() =~= f.take(i));
        lemma_groups_prefix(f, i + 1);
    } else {
        assert(f.take(i) =~= f);
    }
}

/// Reads the groups of the first `n` fields.
fn read_groups(f: &Vec<Vec<char>>, n: usize) -> (r: Option<Vec<u16>>)
    requires
        n <= f@.len(),
    ensures
        r matches Some(g) ==> groups(fields(f@).take(n as int)) == Some(nats(g@)),
        r is None ==> groups(fields(f@).take(n as int)) is None,
{
    let mut g: Vec<u16> = Vec::new();
    let ghost all = fields(f@).take(n as int);
    assert(all.take(0) =~= Seq::<Seq<char>>::empty());
    assert(nats(g@) =~= Seq::<nat>::empty());
    for i in 0..n
        invariant
            n <= f@.len(),
            all == fields(f@).take(n as int),
            groups(all.take(i as int)) == Some(nats(g@)),
    {
        proof {
            assert(all.take(i + 1).drop_last() =~= all.take(i as int));
            assert(all.take(i + 1).last() == f@[i as int]@);
        }
        match read_group(&f[i]) {
            Some(d) => {
                let ghost g0 = nats(g@);
                g.push(d);
                assert(nats(g@) =~= g0.push(d as nat));
            },
            None => {
                proof {
                    lemma_groups_prefix(all, i + 1);
                }
                return None;
            },
        }
    }
    assert(all.take(n as int) =~= all);
    Some(g)
}

fn read_part(v: &Vec<char>, v4_ok: bool) -> (r: Option<Vec<u16>>)
    ensures
        r matches Some(g) ==> part(v@, v4_ok) == Some(nats(g@)),
        r is None ==> part(v@, v4_ok) is None,
{
    if v.len() == 0 {
        let g: Vec<u16> = Vec::new();
        assert(nats(g@) =~= Seq::<nat>::empty());
        return Some(g);
    }
    let f = split_at(v, ':');
    assert(fields(f@).take(f@.len() as int) =~= fields(f@));
    match read_groups(&f, f.len()) {
        Some(g) => Some(g),
        None => {
            if !v4_ok {
                return None;
            }
            let n: usize = f.len() - 1;
            assert(fields(f@).take(n as int) =~= fields(f@).drop_last());
            assert(fields(f@).last() == f@[n as int]@);
            match (read_groups(&f, n), read_ipv4(&f[n])) {
                (Some(mut g), Some(a)) => {
                    let ghost g0 = nats(g@);
                    let high: u16 = (a / 65536) as u16;
                    let low: u16 = (a % 65536) as u16;
                    g.push(high);
                    g.push(low);
                    assert(nats(g@) =~= g0 + seq![(a / 65536) as nat, (a % 65536) as nat]);
                    Some(g)
                },
                _ => None,
            }
        },
    }
}

fn find_gap(v: &Vec<char>) -> (r: Option<usize>)
    ensures
        r matches Some(i) ==> gap(v@, 0) == Some(i as int) && i + 2 <= v@.len(),
        r is None ==> gap(v@, 0) is None,
{
    let mut i: usize = 0;
    while i < v.len() && v.len() - i >= 2
        invariant
            i <= v@.len(),
            gap(v@, i as int) == gap(v@, 0),
        decreases v@.len() - i,
    {
        if v[i] == ':' && v[i + 1] == ':' {
            return Some(i);
        }
        i += 1;
    }
    None
}

fn read_ipv6(v: &Vec<char>) -> (r: Option<Vec<u16>>)
    ensures
        r matches Some(g) ==> ipv6_groups(v@) == Some(nats(g@)) && g@.len() == 8,
        r is None ==> ipv6_groups(v@) is None,
{
    match find_gap(v) {
        None => match read_part(v, true) {
            Some(g) => {
                assert(nats(g@).len() == g@.len());
                if g.len() == 8 {
                    Some(g)
                } else {
                    None
                }
            },
            None => None,
        },
        Some(i) => {
            let n: usize = v.len();
            let front = copied(v, 0, i);
            let back = copied(v, i + 2, n);
            assert(front@ =~= v@.take(i as int));
            assert(back@ =~= v@.skip(i + 2));
            match (read_part(&front, false), read_part(&back, true)) {
                (Some(head), Some(tail)) => {
                    assert(nats(head@).len() == head@.len() && nats(tail@).len() == tail@.len());
                    if head.len() > 7 || tail.len() > 7 - head.len() {
                        return None;
                    }
                    let mut all: Vec<u16> = Vec::new();
                    let total: usize = 8;
                    let zero_end: usize = total - tail.len();
                    for k in 0..total
                        invariant
                            total == 8,
                            head@.len() + tail@.len() <= 7,
                            zero_end == 8 - tail@.len(),
                            all@.len() == k,
                            forall|j: int|
                                0 <= j < k ==> (#[trigger] all@[j]) as nat == filled(
                                    nats(head@),
                                    nats(tail@),
                                )[j],
                    {
                        if k < head.len() {
                            all.push(head[k]);
                        } else if k < zero_end {
                            all.push(0);
                        } else {
                            all.push(tail[k - zero_end]);
                        }
                    }
                    assert(nats(all@) =~= filled(nats(head@), nats(tail@)));
                    Some(all)
                },
                _ => None,
            }
        },
    }
}

/// The number that eight groups make up.
fn value_of(g: &Vec<u16>) -> (r: u128)
    requires
        g@.len() == 8,
    ensures
        r == groups_value(nats(g@)),
{
    let mut n: u128 = 0;
    proof {
        assert(nats(g@).take(0) =~= Seq::<nat>::empty());
        vstd::arithmetic::power2::lemma2_to64();
    }
    for i in 0..g.len()
        invariant
            g@.len() == 8,
            n == groups_value(nats(g@).take(i as int)),
            n < pow2(16 * i as nat),
    {
        proof {
            let t = nats(g@).take(i + 1);
            assert(t.drop_last() =~= nats(g@).take(i as int));
            assert(t.last() == g@[i as int] as nat);
            vstd::arithmetic::power2::lemma_pow2_adds(16 * i as nat, 16);
            vstd::arithmetic::power2::lemma2_to64();
            assert(pow2(16) == 65536);
            if i < 7 {
                vstd::arithmetic::power2::lemma_pow2_strictly_increases(
                    (16 * i + 16) as nat,
                    128,
                );
            }
            vstd::arithmetic::power2::lemma_pow2_adds(64, 64);
            assert(n * 65536 + 65535 < pow2(16 * i as nat) * 65536);
        }
        n = n * 65536 + g[i] as u128;
    }
    assert(nats(g@).take(8) =~= nats(g@));
    n
}

impl IpAddr {
    /// Reads an address: version 4 with dots, or version 6 with colons.
    pub fn parse(s: &str) -> (r: Option<IpAddr>)
        ensures
            r == ip_of(s@),
    {
        let v = chars(s);
        match read_ipv4(&v) {
            Some(a) => Some(IpAddr::V4(a)),
            None => match read_ipv6(&v) {
                Some(g) => Some(IpAddr::V6(value_of(&g))),
                None => None,
            },
        }
    }

    /// How many bits the address has.
    pub open spec fn bits(self) -> nat {
        match self {
            IpAddr::V4(_) => 32,
            IpAddr::V6(_) => 128,
        }
    }
}

// ------------------------------------------------------------------ networks

/// The network that a text in CIDR notation writes.
pub open spec fn cidr(s: Seq<char>) -> Option<IpNet> {
    let n = run_length(s, |c: char| c != '/') as int;
    if n >= s.len() {
        None
    } else {
        match (
            ip_of(trimmed(s.take(n))),
            unsigned_value(trimmed(s.skip(n + 1)), u8::MAX as nat),
        ) {
            (Some(addr), Some(prefix)) => if prefix <= addr.bits() {
                Some(IpNet { addr, prefix: prefix as u8 })
            } else {
                None
            },
            _ => None,
        }
    }
}

impl IpNet {
    /// A prefix is no longer than the address.
    pub open spec fn well_formed(self) -> bool {
        self.prefix <= self.addr.bits()
    }

    /// Do the leading bits of an address of the same version agree with the
    /// network's, as many as the prefix says?
    pub open spec fn covers(self, ip: IpAddr) -> bool {
        match (self.addr, ip) {
            (IpAddr::V4(a), IpAddr::V4(b)) => a as nat / pow2((32 - self.prefix) as nat)
                == b as nat / pow2((32 - self.prefix) as nat),
            (IpAddr::V6(a), IpAddr::V6(b)) => a as nat / pow2((128 - self.prefix) as nat)
                == b as nat / pow2((128 - self.prefix) as nat),
            _ => false,
        }
    }

    /// The network of one address.
    pub fn host(addr: IpAddr) -> (r: IpNet)
        ensures
            r == (IpNet { addr, prefix: addr.bits() as u8 }),
            r.well_formed(),
    {
        let prefix: u8 = match addr {
            IpAddr::V4(_) => 32,
            IpAddr::V6(_) => 128,
        };
        IpNet { addr, prefix }
    }

    /// Reads a network in CIDR notation.
    pub fn parse_cidr(s: &str) -> (r: Option<IpNet>)
        ensures
            r == cidr(s@),
            r matches Some(net) ==> net.well_formed(),
    {
        let v = chars(s);
        let ghost p = |c: char| c != '/';
        let mut n: usize = 0;
        while n < v.len() && v[n] != '/'
            invariant
                n <= v@.len(),
                p == (|c: char| c != '/'),
                forall|i: int| 0 <= i < n ==> p(#[trigger] v@[i]),
            decreases v@.len() - n,
        {
            n += 1;
        }
        proof {
            lemma_run_length(v@, p, n as int);
        }
        if n >= v.len() {
            return None;
        }
        let ip = slice(&v, 0, n);
        let len = slice(&v, n + 1, v.len());
        assert(ip@ =~= v@.take(n as int));
        assert(len@ =~= v@.skip(n + 1));
        let addr = match IpAddr::parse(trim(ip.as_str()).as_str()) {
            Some(a) => a,
            None => return None,
        };
        let prefix: u8 = match parse_u8(trim(len.as_str()).as_str()) {
            Some(p) => p,
            None => return None,
        };
        let most: u8 = match addr {
            IpAddr::V4(_) => 32,
            IpAddr::V6(_) => 128,
        };
        if prefix <= most {
            Some(IpNet { addr, prefix })
        } else {
            None
        }
    }

    /// Is the address in the network?
    pub fn contains(&self, ip: IpAddr) -> (r: bool)
        requires
            self.well_formed(),
        ensures
            r == self.covers(ip),
    {
        match (self.addr, ip) {
            (IpAddr::V4(a), IpAddr::V4(b)) => {
                let shift: u64 = 32 - self.prefix as u64;
                proof {
                    vstd::bits::lemma_u64_shr_is_div(a as u64, shift);
                    vstd::bits::lemma_u64_shr_is_div(b as u64, shift);
                }
                (a as u64) >> shift == (b as u64) >> shift
            },
            (IpAddr::V6(a), IpAddr::V6(b)) => {
                if self.prefix == 0 {
                    proof {
                        vstd::arithmetic::power2::lemma2_to64();
                        vstd::arithmetic::power2::lemma_pow2_adds(64, 64);
                        vstd::arithmetic::div_mod::lemma_basic_div(a as int, pow2(128) as int);
                        vstd::arithmetic::div_mod::lemma_basic_div(b as int, pow2(128) as int);
                    }
                    true
                } else {
                    let shift: u128 = 128 - self.prefix as u128;
                    proof {
                        vstd::bits::lemma_u128_shr_is_div(a, shift);
                        vstd::bits::lemma_u128_shr_is_div(b, shift);
                    }
                    a >> shift == b >> shift
                }
            },
            _ => false,
        }
    }
}

// ------------------------------------------------------------------ connections

/// Is an address in one of the networks? No networks, no address: the relay
/// fails closed.
pub open spec fn allowed(nets: Seq<IpNet>, ip: IpAddr) -> bool {
    exists|i: int| 0 <= i < nets.len() && (#[trigger] nets[i]).covers(ip)
}

/// May a peer with this address take a relay port?
pub fn peer_allowed(nets: &Vec<IpNet>, ip: IpAddr) -> (r: bool)
    requires
        forall|i: int| 0 <= i < nets@.len() ==> (#[trigger] nets@[i]).well_formed(),
    ensures
        r == allowed(nets@, ip),
{
    for i in 0..nets.len()
        invariant
            forall|j: int| 0 <= j < nets@.len() ==> (#[trigger] nets@[j]).well_formed(),
            forall|j: int| 0 <= j < i ==> !(#[trigger] nets@[j]).covers(ip),
    {
        if nets[i].contains(ip) {
            assert(nets@[i as int].covers(ip));
            return true;
        }
    }
    false
}

/// What a stream that has ended is worth: without a single byte, nothing.
pub fn stream_outcome(total: u64) -> (r: Result<u64, &'static str>)
    ensures
        r is Ok == (total > 0),
        r matches Ok(n) ==> n == total,
        r matches Err(why) ==> why@ == "relay stream closed with zero bytes transferred"@,
{
    if total == 0 {
        Err("relay stream closed with zero bytes transferred")
    } else {
        Ok(total)
    }
}

// ------------------------------------------------------------------ what holds of networks

/// The network of one address holds that address and no other.
pub proof fn a_host_is_alone(addr: IpAddr, ip: IpAddr)
    ensures
        (IpNet { addr, prefix: addr.bits() as u8 }).covers(ip) == (ip == addr),
{
    vstd::arithmetic::power2::lemma2_to64();
    match (addr, ip) {
        (IpAddr::V4(a), IpAddr::V4(b)) => {
            vstd::arithmetic::div_mod::lemma_div_basics(a as int);
            vstd::arithmetic::div_mod::lemma_div_basics(b as int);
        },
        (IpAddr::V6(a), IpAddr::V6(b)) => {
            vstd::arithmetic::div_mod::lemma_div_basics(a as int);
            vstd::arithmetic::div_mod::lemma_div_basics(b as int);
        },
        _ => {},
    }
}

/// A shorter prefix only widens a network.
pub proof fn shorter_prefixes_are_wider(addr: IpAddr, shorter: u8, longer: u8, ip: IpAddr)
    requires
        shorter <= longer,
        longer <= addr.bits(),
        (IpNet { addr, prefix: longer }).covers(ip),
    ensures
        (IpNet { addr, prefix: shorter }).covers(ip),
{
    let bits = addr.bits();
    let low = (bits - longer) as nat;
    let more = (longer - shorter) as nat;
    vstd::arithmetic::power2::lemma_pow2_adds(low, more);
    vstd::arithmetic::power2::lemma_pow2_pos(low);
    vstd::arithmetic::power2::lemma_pow2_pos(more);
    match (addr, ip) {
        (IpAddr::V4(a), IpAddr::V4(b)) => {
            vstd::arithmetic::div_mod::lemma_div_denominator(
                a as int,
                pow2(low) as int,
                pow2(more) as int,
            );
            vstd::arithmetic::div_mod::lemma_div_denominator(
                b as int,
                pow2(low) as int,
                pow2(more) as int,
            );
        },
        (IpAddr::V6(a), IpAddr::V6(b)) => {
            vstd::arithmetic::div_mod::lemma_div_denominator(
                a as int,
                pow2(low) as int,
                pow2(more) as int,
            );
            vstd::arithmetic::div_mod::lemma_div_denominator(
                b as int,
                pow2(low) as int,
                pow2(more) as int,
            );
        },
        _ => {},
    }
}

/// Without networks no peer is let in.
pub proof fn an_empty_allowlist_rejects_everyone(ip: IpAddr)
    ensures
        !allowed(Seq::empty(), ip),
{
}

/// A network holds an address exactly if both are of one family and agree in as
/// many leading bits as the network's prefix has: what is left of each, divided
/// by two for every other bit, is the same. A prefix of no bits holds the whole
/// family, and none of the other.
pub proof fn networks_hold_their_prefix(net: IpNet, ip: IpAddr)
    requires
        net.well_formed(),
    ensures
        net.covers(ip) ==> (net.addr is V4 <==> ip is V4),
        net.addr is V4 && ip is V4 ==> (net.covers(ip) <==> (net.addr->V4_0 as nat) / pow2(
            (32 - net.prefix) as nat,
        ) == (ip->V4_0 as nat) / pow2((32 - net.prefix) as nat)),
        net.addr is V6 && ip is V6 ==> (net.covers(ip) <==> (net.addr->V6_0 as nat) / pow2(
            (128 - net.prefix) as nat,
        ) == (ip->V6_0 as nat) / pow2((128 - net.prefix) as nat)),
        net.prefix == 0 && (net.addr is V4 <==> ip is V4) ==> net.covers(ip),
        net.covers(net.addr),
{
    if net.prefix == 0 {
        vstd::arithmetic::power2::lemma2_to64();
        vstd::arithmetic::power2::lemma_pow2_adds(64, 64);
        match (net.addr, ip) {
            (IpAddr::V4(a), IpAddr::V4(b)) => {
                vstd::arithmetic::div_mod::lemma_basic_div(a as int, pow2(32) as int);
                vstd::arithmetic::div_mod::lemma_basic_div(b as int, pow2(32) as int);
            },
            (IpAddr::V6(a), IpAddr::V6(b)) => {
                assert(pow2(128) == 0x1_0000_0000_0000_0000_0000_0000_0000_0000) by (
                nonlinear_arith)
                    requires
                        pow2(128) == pow2(64) * pow2(64),
                        pow2(64) == 0x1_0000_0000_0000_0000,
                ;
                vstd::arithmetic::div_mod::lemma_basic_div(a as int, pow2(128) as int);
                vstd::arithmetic::div_mod::lemma_basic_div(b as int, pow2(128) as int);
            },
            _ => {},
        }
    }
}

/// A peer is let in exactly if some network of the list holds its address.
pub proof fn peers_are_let_in_by_some_network(nets: Seq<IpNet>, ip: IpAddr)
    ensures
        allowed(nets, ip) <==> exists|i: int| 0 <= i < nets.len() && (#[trigger] nets[i]).covers(ip),
{
}

/// An IPv4 address is four numbers from 0 to 255, written without leading zeros,
/// the first the most significant.
pub proof fn ipv4_addresses_are_four_octets(s: Seq<char>)
    requires
        ipv4(s) is Some,
    ensures
        ({
            let f = split(s, '.');
            &&& f.len() == 4
            &&& forall|i: int|
                0 <= i < 4 ==> crate::text::is_number(#[trigger] f[i]) && digits_value(f[i]) < 256
                    && (f[i].len() > 1 ==> f[i][0] != '0')
            &&& ipv4(s)->0 == digits_value(f[0]) * 0x100_0000 + digits_value(f[1]) * 0x1_0000
                + digits_value(f[2]) * 0x100 + digits_value(f[3])
            &&& ip_of(s) == Some(IpAddr::V4(ipv4(s)->0 as u32))
            &&& ipv4(s)->0 < 0x1_0000_0000
        }),
{
}

/// Splitting at a separator takes it out and nothing else: the parts, with the
/// separator between them, are the text.
pub proof fn splitting_takes_out_the_separator(s: Seq<char>, sep: char)
    ensures
        split(s, sep).len() > 0,
        crate::text::joined(split(s, sep), seq![sep]) == s,
        forall|i: int| 0 <= i < split(s, sep).len() ==> !(#[trigger] split(s, sep)[i]).contains(sep),
    decreases s.len(),
{
    let p = other_than(sep);
    let n = run_length(s, p);
    crate::text::lemma_run(s, p);
    let f = split(s, sep);
    if n >= s.len() {
        assert(f =~= seq![s]);
        assert forall|i: int| 0 <= i < s.len() implies s[i] != sep by {
            assert(p(s[i]));
        }
    } else {
        let head = s.take(n as int);
        let rest = s.skip(n as int + 1);
        splitting_takes_out_the_separator(rest, sep);
        let g = split(rest, sep);
        assert(f =~= seq![head] + g);
        assert forall|i: int| 0 <= i < head.len() implies head[i] != sep by {
            assert(p(s[i]));
        }
        assert forall|i: int| 0 <= i < f.len() implies !(#[trigger] f[i]).contains(sep) by {
            if i > 0 {
                assert(f[i] == g[i - 1]);
            }
        }
        crate::text::lemma_joined_front(head, g, seq![sep]);
        assert(!p(s[n as int]));
        assert(s =~= head + seq![sep] + rest);
    }
}

/// A network is an address, a slash and a number of bits that the address has;
/// white space around either does not count.
pub proof fn networks_are_an_address_and_a_prefix(s: Seq<char>)
    requires
        cidr(s) is Some,
    ensures
        exists|n: int|
            0 <= n < s.len() && #[trigger] s[n] == '/' && !s.take(n).contains('/') && ip_of(
                trimmed(s.take(n)),
            ) == Some(cidr(s)->0.addr) && unsigned_value(trimmed(s.skip(n + 1)), 255) == Some(
                cidr(s)->0.prefix as nat,
            ),
        cidr(s)->0.well_formed(),
{
    let p = |c: char| c != '/';
    crate::text::lemma_run(s, p);
    let n = run_length(s, p) as int;
    assert(!p(s[n]));
    let t = s.take(n);
    assert forall|i: int| 0 <= i < t.len() implies t[i] != '/' by {
        assert(p(s[i]));
    }
    assert(s[n] == '/');
}

/// A hexadecimal digit is worth what it is worth in either case.
pub proof fn hexadecimal_digits(c: char)
    ensures
        '0' <= c <= '9' ==> hex_digit(c) == Some((c as nat - '0' as nat) as nat),
        'a' <= c <= 'f' ==> hex_digit(c) == Some((c as nat - 'a' as nat + 10) as nat),
        'A' <= c <= 'F' ==> hex_digit(c) == Some((c as nat - 'A' as nat + 10) as nat),
        hex_digit(c) is Some <==> '0' <= c <= '9' || 'a' <= c <= 'f' || 'A' <= c <= 'F',
{
}

/// A group of an IPv6 address is one to four hexadecimal digits, the first the
/// most significant.
pub proof fn groups_are_up_to_four_digits(s: Seq<char>, c: char)
    ensures
        group(s) is Some ==> 1 <= s.len() <= 4,
        hex_value(s) is Some && hex_digit(c) is Some ==> hex_value(s.push(c)) == Some(
            hex_value(s)->0 * 16 + hex_digit(c)->0,
        ),
        hex_value(s) is None || hex_digit(c) is None ==> hex_value(s.push(c)) is None,
        1 <= s.len() <= 4 ==> group(s) == hex_value(s),
        hex_value(Seq::empty()) == Some(0nat),
{
    assert(s.push(c).drop_last() =~= s);
}

/// The gap of an IPv6 address stands for as many zeros as make it eight groups;
/// what stands before it comes first, what stands behind it last.
pub proof fn gaps_are_filled_with_zeros(head: Seq<nat>, tail: Seq<nat>, i: int)
    requires
        head.len() + tail.len() <= 7,
        0 <= i < 8,
    ensures
        filled(head, tail).len() == 8,
        i < head.len() ==> filled(head, tail)[i] == head[i],
        head.len() <= i < 8 - tail.len() ==> filled(head, tail)[i] == 0,
        8 - tail.len() <= i ==> filled(head, tail)[i] == tail[i - (8 - tail.len())],
{
}

/// The groups of an address count from the most significant.
pub proof fn groups_count_from_the_front(g: Seq<nat>, last: nat)
    ensures
        groups_value(Seq::empty()) == 0,
        groups_value(g.push(last)) == groups_value(g) * 65536 + last,
{
    assert(g.push(last).drop_last() =~= g);
}

/// The gap is the first pair of colons.
pub proof fn the_gap_is_the_first_pair_of_colons(s: Seq<char>, from: int)
    requires
        0 <= from,
    ensures
        gap(s, from) matches Some(i) ==> from <= i < s.len() - 1 && s[i] == ':' && s[i + 1] == ':'
            && forall|k: int| from <= k < i ==> !(#[trigger] s[k] == ':' && s[k + 1] == ':'),
        gap(s, from) is None ==> forall|k: int|
            from <= k < s.len() - 1 ==> !(#[trigger] s[k] == ':' && s[k + 1] == ':'),
    decreases s.len() - from,
{
    if from + 1 < s.len() && !(s[from] == ':' && s[from + 1] == ':') {
        the_gap_is_the_first_pair_of_colons(s, from + 1);
    }
}

/// Without a gap an IPv6 address has eight groups; with one, those before and
/// behind it, which together are fewer than eight. Only the end of an address may
/// be written as an IPv4 address.
pub proof fn ipv6_addresses_have_eight_groups(s: Seq<char>)
    ensures
        ipv6_groups(s) is Some ==> ipv6_groups(s)->0.len() == 8,
        gap(s, 0) is None ==> (ipv6_groups(s) is Some <==> part(s, true) is Some && part(
            s,
            true,
        )->0.len() == 8),
        gap(s, 0) is None && ipv6_groups(s) is Some ==> ipv6_groups(s) == part(s, true),
        gap(s, 0) matches Some(i) ==> {
            let head = part(s.take(i), false);
            let tail = part(s.skip(i + 2), true);
            &&& ipv6_groups(s) is Some <==> head is Some && tail is Some && head->0.len()
                + tail->0.len() < 8
            &&& ipv6_groups(s) is Some ==> ipv6_groups(s)->0 == filled(head->0, tail->0)
        },
        ipv4(s) is None && ipv6_groups(s) is Some ==> ip_of(s) == Some(
            IpAddr::V6(groups_value(ipv6_groups(s)->0) as u128),
        ),
        ipv4(s) is None && ipv6_groups(s) is None ==> ip_of(s) is None,
{
}

/// Four octets, and nothing else, make an IPv4 address.
pub proof fn four_octets_make_an_address(s: Seq<char>)
    ensures
        ({
            let f = split(s, '.');
            ipv4(s) is Some <==> f.len() == 4 && forall|i: int|
                0 <= i < 4 ==> crate::text::is_number(#[trigger] f[i]) && f[i].len() <= 3
                    && digits_value(f[i]) <= 255 && (f[i].len() == 1 || f[i][0] != '0')
        }),
{
    let f = split(s, '.');
    if f.len() == 4 && forall|i: int|
        0 <= i < 4 ==> crate::text::is_number(#[trigger] f[i]) && f[i].len() <= 3 && digits_value(
            f[i],
        ) <= 255 && (f[i].len() == 1 || f[i][0] != '0') {
        assert(octet(f[0]) is Some);
        assert(octet(f[1]) is Some);
        assert(octet(f[2]) is Some);
        assert(octet(f[3]) is Some);
    }
}

/// An address, a slash and a number of bits that the address has make a network.
pub proof fn an_address_and_a_prefix_make_a_network(s: Seq<char>, n: int)
    requires
        0 <= n < s.len(),
        s[n] == '/',
        !s.take(n).contains('/'),
    ensures
        ({
            let addr = ip_of(trimmed(s.take(n)));
            let prefix = unsigned_value(trimmed(s.skip(n + 1)), 255);
            cidr(s) is Some <==> addr is Some && prefix is Some && prefix->0 <= (
            if addr->0 is V4 {
                32nat
            } else {
                128nat
            })
        }),
{
    let p = |c: char| c != '/';
    assert forall|i: int| 0 <= i < n implies p(#[trigger] s[i]) by {
        assert(s.take(n)[i] == s[i]);
        assert(s.take(n).contains(s[i]));
    }
    crate::text::lemma_run_length(s, p, n);
}

/// A side of an IPv6 address is its groups, between colons; where it may, its
/// last field is an IPv4 address, which counts as two groups.
pub proof fn sides_are_groups_between_colons(s: Seq<char>, v4_ok: bool)
    requires
        s.len() > 0,
    ensures
        ({
            let f = split(s, ':');
            &&& groups(f) is Some ==> part(s, v4_ok) == groups(f)
            &&& groups(f) is None && !v4_ok ==> part(s, v4_ok) is None
            &&& groups(f) is None && v4_ok ==> (part(s, v4_ok) is Some <==> groups(f.drop_last())
                is Some && ipv4(f.last()) is Some)
            &&& groups(f) is None && part(s, v4_ok) is Some ==> part(s, v4_ok)->0 =~= groups(
                f.drop_last(),
            )->0.push(ipv4(f.last())->0 / 65536).push(ipv4(f.last())->0 % 65536)
        }),
        part(Seq::empty(), v4_ok) == Some(Seq::<nat>::empty()),
{
}

/// Every field of a side has to be a group.
pub proof fn every_field_is_a_group(f: Seq<Seq<char>>, last: Seq<char>)
    ensures
        groups(Seq::empty()) == Some(Seq::<nat>::empty()),
        groups(f) is Some && group(last) is Some ==> groups(f.push(last)) == Some(
            groups(f)->0.push(group(last)->0),
        ),
        groups(f) is None || group(last) is None ==> groups(f.push(last)) is None,
{
    assert(f.push(last).drop_last() =~= f);
}

} // verus!
