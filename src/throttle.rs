//! The anonymous-trial throttle: a lifetime count of trial activations per
//! source address.
use vstd::prelude::*;

verus! {

/// Trials one address may ever activate.
pub const MAX_TRIALS_PER_IP: u32 = 3;

/// A request to start an anonymous trial.
pub struct StartTrialRequest {
    pub device_fingerprint: String,
}

/// The device fingerprint a request carried, if any.
pub struct DeviceFingerprintHeader(pub Option<String>);

/// A parsed source address: an IPv4 address (its 32 bits in the low bits)
/// or an IPv6 address. Text that is not an address has no value of this
/// type, so it can never be counted.
#[derive(Clone, Copy, Debug, PartialEq, Eq, Structural)]
pub struct IpAddress {
    pub v6: bool,
    pub bits: u128,
}

impl IpAddress {
    pub fn from_v4(bits: u32) -> (r: IpAddress)
        ensures
            r == (IpAddress { v6: false, bits: bits as u128 }),
    {
        IpAddress { v6: false, bits: bits as u128 }
    }

    pub fn from_v6(bits: u128) -> (r: IpAddress)
        ensures
            r == (IpAddress { v6: true, bits }),
    {
        IpAddress { v6: true, bits }
    }
}

/// The lifetime trial count of one address.
pub struct IpTrialRecord {
    pub ip: IpAddress,
    pub count: u32,
}

/// Index of the record of this address, or -1.
pub open spec fn ip_position(s: Seq<IpTrialRecord>, ip: IpAddress) -> int
    decreases s.len(),
{
    if s.len() == 0 {
        -1
    } else if s.last().ip == ip {
        s.len() - 1
    } else {
        ip_position(s.drop_last(), ip)
    }
}

/// How many trials the address has activated.
pub open spec fn trials_of(s: Seq<IpTrialRecord>, ip: IpAddress) -> nat {
    let p = ip_position(s, ip);
    if p >= 0 {
        s[p].count as nat
    } else {
        0
    }
}

/// One activation attempt on an address that has used `n` trials: whether
/// it is admitted, and the count afterwards.
pub open spec fn trial_step(n: nat) -> (bool, nat) {
    if n < MAX_TRIALS_PER_IP {
        (true, n + 1)
    } else {
        (false, n)
    }
}

pub proof fn lemma_ip_position(s: Seq<IpTrialRecord>, ip: IpAddress)
    ensures
        -1 <= ip_position(s, ip) < s.len(),
        ip_position(s, ip) >= 0 ==> s[ip_position(s, ip)].ip == ip,
        ip_position(s, ip) == -1 ==> forall|j: int| 0 <= j < s.len() ==> s[j].ip != ip,
    decreases s.len(),
{
    if s.len() > 0 && s.last().ip != ip {
        lemma_ip_position(s.drop_last(), ip);
        assert forall|j: int| 0 <= j < s.len() - 1 implies s[j] == s.drop_last()[j] by {}
    }
}

/// Replacing the record at `p` by one for the same address leaves every
/// other address where it was.
proof fn lemma_ip_position_update(s: Seq<IpTrialRecord>, p: int, x: IpTrialRecord, other: IpAddress)
    requires
        0 <= p < s.len(),
        x.ip == s[p].ip,
    ensures
        ip_position(s.update(p, x), other) == ip_position(s, other),
    decreases s.len(),
{
    let u = s.update(p, x);
    if p == s.len() - 1 {
        assert(u.drop_last() =~= s.drop_last());
    } else {
        assert(u.drop_last() =~= s.drop_last().update(p, x));
        lemma_ip_position_update(s.drop_last(), p, x, other);
    }
}

/// The throttle's table.
pub struct IpTrialThrottle {
    records: Vec<IpTrialRecord>,
}

impl View for IpTrialThrottle {
    type V = Seq<IpTrialRecord>;

    closed spec fn view(&self) -> Seq<IpTrialRecord> {
        self.records@
    }
}

/// Why a trial was not activated.
#[derive(Clone, Copy, Debug, PartialEq, Eq, Structural)]
pub enum ThrottleError {
    IpLimitExceeded,
}

impl IpTrialThrottle {
    /// No count ever passes the limit.
    pub open spec fn wf(&self) -> bool {
        forall|j: int| 0 <= j < self@.len() ==> (#[trigger] self@[j]).count <= MAX_TRIALS_PER_IP
    }

    pub fn new() -> (r: IpTrialThrottle)
        ensures
            r@ == Seq::<IpTrialRecord>::empty(),
            r.wf(),
    {
        IpTrialThrottle { records: Vec::new() }
    }

    /// A throttle holding the given records; `None` when a count passes the
    /// limit.
    pub fn from_records(records: Vec<IpTrialRecord>) -> (r: Option<IpTrialThrottle>)
        ensures
            match r {
                Some(t) => t@ == records@ && t.wf(),
                None => exists|j: int| 0 <= j < records@.len() && records@[j].count > MAX_TRIALS_PER_IP,
            },
    {
        let mut j: usize = 0;
        while j < records.len()
            invariant
                j <= records@.len(),
                forall|k: int| 0 <= k < j ==> (#[trigger] records@[k]).count <= MAX_TRIALS_PER_IP,
            decreases records@.len() - j,
        {
            if records[j].count > MAX_TRIALS_PER_IP {
                return None;
            }
            j += 1;
        }
        Some(IpTrialThrottle { records })
    }

    pub fn records(&self) -> (r: &Vec<IpTrialRecord>)
        ensures
            r@ == self@,
    {
        &self.records
    }

    fn find(&self, ip: IpAddress) -> (r: Option<usize>)
        ensures
            match r {
                Some(i) => i as int == ip_position(self@, ip),
                None => ip_position(self@, ip) == -1,
            },
    {
        let mut i = self.records.len();
        assert(self@.subrange(0, i as int) =~= self@);
        while i > 0
            invariant
                i <= self@.len(),
                ip_position(self@, ip) == ip_position(self@.subrange(0, i as int), ip),
            decreases i,
        {
            if self.records[i - 1].ip == ip {
                return Some(i - 1);
            }
            assert(self@.subrange(0, i as int).drop_last() =~= self@.subrange(0, i - 1));
            i -= 1;
        }
        None
    }

    /// How many trials the address has activated.
    pub fn trials_used(&self, ip: IpAddress) -> (r: u32)
        ensures
            r as nat == trials_of(self@, ip),
    {
        proof {
            lemma_ip_position(self@, ip);
        }
        match self.find(ip) {
            Some(i) => self.records[i].count,
            None => 0,
        }
    }

    /// Whether the address may still activate a trial.
    pub fn check_ip_trial_limits(&self, ip: IpAddress) -> (r: bool)
        ensures
            r == (trials_of(self@, ip) < MAX_TRIALS_PER_IP),
    {
        self.trials_used(ip) < MAX_TRIALS_PER_IP
    }

    /// Activates a trial for the address when it is under the limit,
    /// counting it; returns the address's count afterwards. Other addresses
    /// are untouched.
    pub fn start_trial(&mut self, ip: IpAddress) -> (r: Result<u32, ThrottleError>)
        requires
            old(self).wf(),
        ensures
            final(self).wf(),
            (r is Ok, trials_of(final(self)@, ip)) == trial_step(trials_of(old(self)@, ip)),
            r is Ok ==> r == Ok::<u32, ThrottleError>((trials_of(old(self)@, ip) + 1) as u32),
            r is Err ==> r == Err::<u32, ThrottleError>(ThrottleError::IpLimitExceeded) && final(self)@ == old(self)@,
            forall|other: IpAddress|
                other != ip ==> #[trigger] trials_of(final(self)@, other) == trials_of(
                    old(self)@,
                    other,
                ),
    {
        let ghost s = self@;
        proof {
            lemma_ip_position(s, ip);
        }
        match self.find(ip) {
            Some(i) => {
                let n = self.records[i].count;
                if n >= MAX_TRIALS_PER_IP {
                    return Err(ThrottleError::IpLimitExceeded);
                }
                self.records[i].count = n + 1;
                proof {
                    assert(self@ =~= s.update(i as int, self@[i as int]));
                    assert forall|other: IpAddress| other != ip implies #[trigger] trials_of(
                        self@,
                        other,
                    ) == trials_of(s, other) by {
                        lemma_ip_position_update(s, i as int, self@[i as int], other);
                        lemma_ip_position(s, other);
                        let q = ip_position(s, other);
                        if q >= 0 {
                            assert(q != i);
                            assert(self@[q] == s[q]);
                        }
                    }
                    lemma_ip_position_update(s, i as int, self@[i as int], ip);
                    assert forall|j: int| 0 <= j < self@.len() implies (#[trigger] self@[j]).count
                        <= MAX_TRIALS_PER_IP by {
                        if j != i {
                            assert(self@[j] == s[j]);
                        }
                    }
                }
                Ok(n + 1)
            },
            None => {
                let rec = IpTrialRecord { ip, count: 1 };
                self.records.push(rec);
                proof {
                    assert(self@.drop_last() =~= s);
                    assert forall|other: IpAddress| other != ip implies #[trigger] trials_of(
                        self@,
                        other,
                    ) == trials_of(s, other) by {
                        lemma_ip_position(s, other);
                        if ip_position(s, other) >= 0 {
                            assert(self@[ip_position(s, other)] == s[ip_position(s, other)]);
                        }
                    }
                    assert forall|j: int| 0 <= j < self@.len() implies (#[trigger] self@[j]).count
                        <= MAX_TRIALS_PER_IP by {
                        if j < s.len() {
                            assert(self@[j] == s[j]);
                        }
                    }
                }
                Ok(1)
            },
        }
    }
}

} // verus!
