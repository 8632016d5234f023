//! Kernel statistics (kstat) as the metrics read them.
//!
//! The kstat chain is taken as a snapshot: for each kstat, its identity,
//! whether it is of the named type and could be read, and its named
//! statistics.  Sums and per-CPU tick counts are computed over it.
use vstd::prelude::*;

use crate::text;
use crate::text::{chars_eq, str_chars};

verus! {

/// Errors of kstat reading.
#[derive(Debug)]
pub enum KstatError {
    Open(std::io::Error),
    Lookup(String),
    Read(std::io::Error),
    MissingValue,
    TypeMismatch(u8),
    Io(std::io::Error),
}

/// The data type code of a 32-bit unsigned statistic.
pub const KSTAT_DATA_UINT32: u8 = 2;

/// The data type code of a 64-bit unsigned statistic.
pub const KSTAT_DATA_UINT64: u8 = 4;

/// A named statistic as kstat stores it: its data type code, and its value
/// read as a 32-bit and as a 64-bit unsigned number.
#[derive(Debug, Clone, Copy)]
pub struct KstatValue {
    pub data_type: u8,
    pub ui32: u32,
    pub ui64: u64,
}

/// The number a statistic holds, for the unsigned types.
pub open spec fn value_of(v: KstatValue) -> Option<u64> {
    if v.data_type == KSTAT_DATA_UINT64 {
        Some(v.ui64)
    } else if v.data_type == KSTAT_DATA_UINT32 {
        Some(v.ui32 as u64)
    } else {
        None
    }
}

/// The number a statistic holds; another data type is a mismatch.
pub fn read_value(v: KstatValue) -> (r: Result<u64, KstatError>)
    ensures
        match value_of(v) {
            Some(x) => r matches Ok(y) && y == x,
            None => r matches Err(KstatError::TypeMismatch(t)) && t == v.data_type,
        },
{
    if v.data_type == KSTAT_DATA_UINT64 {
        Ok(v.ui64)
    } else if v.data_type == KSTAT_DATA_UINT32 {
        Ok(v.ui32 as u64)
    } else {
        Err(KstatError::TypeMismatch(v.data_type))
    }
}

/// One kstat of the chain.
pub struct KstatSnapshot {
    pub module: String,
    pub instance: i32,
    pub name: String,
    pub class: String,
    /// It is of the named type.
    pub named: bool,
    /// Reading its data succeeded.
    pub read_ok: bool,
    /// Its named statistics, in order.
    pub stats: Vec<(String, KstatValue)>,
}

/// The first statistic called `field`.
pub open spec fn lookup(stats: Seq<(String, KstatValue)>, field: Seq<char>) -> Option<KstatValue>
    decreases stats.len(),
{
    if stats.len() == 0 {
        None
    } else if stats[0].0@ == field {
        Some(stats[0].1)
    } else {
        lookup(stats.drop_first(), field)
    }
}

fn find_stat(stats: &Vec<(String, KstatValue)>, field: &[char]) -> (r: Option<KstatValue>)
    ensures
        r == lookup(stats@, field@),
{
    let mut i: usize = 0;
    proof {
        assert(stats@.skip(0) =~= stats@);
    }
    while i < stats.len()
        invariant
            i <= stats@.len(),
            lookup(stats@, field@) == lookup(stats@.skip(i as int), field@),
        decreases stats@.len() - i,
    {
        let ghost rest = stats@.skip(i as int);
        proof {
            assert(rest[0] == stats@[i as int]);
            assert(rest.drop_first() =~= stats@.skip(i + 1));
        }
        let name = str_chars(stats[i].0.as_str());
        if chars_eq(name.as_slice(), field) {
            return Some(stats[i].1);
        }
        i += 1;
    }
    None
}

/// What a statistic adds to a sum: its number, or nothing when it is
/// missing or not of an unsigned type.
pub open spec fn stat_amount(v: Option<KstatValue>) -> nat {
    match v {
        Some(x) => match value_of(x) {
            Some(n) => n as nat,
            None => 0,
        },
        None => 0,
    }
}

fn amount(v: Option<KstatValue>) -> (r: u64)
    ensures
        r == stat_amount(v),
{
    match v {
        Some(x) => match read_value(x) {
            Ok(n) => n,
            Err(_) => 0,
        },
        None => 0,
    }
}

/// The sum of the statistic `field` over the named, readable kstats of the
/// module `module`.
pub open spec fn sum_named_spec(
    chain: Seq<KstatSnapshot>,
    module: Seq<char>,
    field: Seq<char>,
) -> nat
    decreases chain.len(),
{
    if chain.len() == 0 {
        0
    } else {
        let e = chain.last();
        sum_named_spec(chain.drop_last(), module, field) + if e.named && e.module@ == module
            && e.read_ok {
            stat_amount(lookup(e.stats@, field))
        } else {
            0
        }
    }
}

/// The sum of the statistic `field` over the named, readable kstats whose
/// class begins with `class_prefix` (over all of them without a prefix).
pub open spec fn sum_field_spec(
    chain: Seq<KstatSnapshot>,
    field: Seq<char>,
    class_prefix: Option<Seq<char>>,
) -> nat
    decreases chain.len(),
{
    if chain.len() == 0 {
        0
    } else {
        let e = chain.last();
        let class_ok = match class_prefix {
            Some(p) => text::starts_with(e.class@, p),
            None => true,
        };
        sum_field_spec(chain.drop_last(), field, class_prefix) + if e.named && class_ok
            && e.read_ok {
            stat_amount(lookup(e.stats@, field))
        } else {
            0
        }
    }
}

/// Sums the statistic `field` over the named kstats of the module `module`.
pub fn sum_named(chain: &Vec<KstatSnapshot>, module: &str, field: &str) -> (r: u64)
    requires
        sum_named_spec(chain@, module@, field@) <= u64::MAX,
    ensures
        r == sum_named_spec(chain@, module@, field@),
{
    let m = str_chars(module);
    let f = str_chars(field);
    let mut sum: u64 = 0;
    let mut i: usize = 0;
    while i < chain.len()
        invariant
            i <= chain@.len(),
            m@ == module@,
            f@ == field@,
            sum == sum_named_spec(chain@.take(i as int), module@, field@),
            sum_named_spec(chain@, module@, field@) <= u64::MAX,
        decreases chain@.len() - i,
    {
        proof {
            assert(chain@.take(i + 1).drop_last() =~= chain@.take(i as int));
            assert(chain@.take(i + 1).last() == chain@[i as int]);
            lemma_sum_named_prefix(chain@, module@, field@, i + 1);
        }
        let e = &chain[i];
        let em = str_chars(e.module.as_str());
        if e.named && chars_eq(em.as_slice(), m.as_slice()) && e.read_ok {
            let v = find_stat(&e.stats, f.as_slice());
            sum = sum + amount(v);
        }
        i += 1;
    }
    proof {
        assert(chain@.take(chain@.len() as int) =~= chain@);
    }
    sum
}

proof fn lemma_sum_named_prefix(chain: Seq<KstatSnapshot>, module: Seq<char>, field: Seq<char>, k: int)
    requires
        0 <= k <= chain.len(),
    ensures
        sum_named_spec(chain.take(k), module, field) <= sum_named_spec(chain, module, field),
    decreases chain.len() - k,
{
    if k < chain.len() {
        lemma_sum_named_prefix(chain, module, field, k + 1);
        assert(chain.take(k + 1).drop_last() =~= chain.take(k));
    } else {
        assert(chain.take(k) =~= chain);
    }
}

proof fn lemma_sum_field_prefix(
    chain: Seq<KstatSnapshot>,
    field: Seq<char>,
    class_prefix: Option<Seq<char>>,
    k: int,
)
    requires
        0 <= k <= chain.len(),
    ensures
        sum_field_spec(chain.take(k), field, class_prefix) <= sum_field_spec(
            chain,
            field,
            class_prefix,
        ),
    decreases chain.len() - k,
{
    if k < chain.len() {
        lemma_sum_field_prefix(chain, field, class_prefix, k + 1);
        assert(chain.take(k + 1).drop_last() =~= chain.take(k));
    } else {
        assert(chain.take(k) =~= chain);
    }
}

/// Sums the statistic `field` over the named kstats, of the classes that
/// begin with `class_prefix` when it is given.
pub fn sum_field_any(chain: &Vec<KstatSnapshot>, field: &str, class_prefix: Option<&str>) -> (r:
    u64)
    requires
        sum_field_spec(
            chain@,
            field@,
            match class_prefix {
                Some(p) => Some(p@),
                None => None,
            },
        ) <= u64::MAX,
    ensures
        r == sum_field_spec(
            chain@,
            field@,
            match class_prefix {
                Some(p) => Some(p@),
                None => None,
            },
        ),
{
    let ghost cp: Option<Seq<char>> = match class_prefix {
        Some(p) => Some(p@),
        None => None,
    };
    let f = str_chars(field);
    let mut sum: u64 = 0;
    let mut i: usize = 0;
    while i < chain.len()
        invariant
            i <= chain@.len(),
            f@ == field@,
            cp == match class_prefix {
                Some(p) => Some(p@),
                None => None::<Seq<char>>,
            },
            sum == sum_field_spec(chain@.take(i as int), field@, cp),
            sum_field_spec(chain@, field@, cp) <= u64::MAX,
        decreases chain@.len() - i,
    {
        proof {
            assert(chain@.take(i + 1).drop_last() =~= chain@.take(i as int));
            assert(chain@.take(i + 1).last() == chain@[i as int]);
            lemma_sum_field_prefix(chain@, field@, cp, i + 1);
        }
        let e = &chain[i];
        let class_ok = match class_prefix {
            Some(p) => {
                let c = str_chars(e.class.as_str());
                text::starts_with_str(c.as_slice(), p)
            },
            None => true,
        };
        if e.named && class_ok && e.read_ok {
            let v = find_stat(&e.stats, f.as_slice());
            sum = sum + amount(v);
        }
        i += 1;
    }
    proof {
        assert(chain@.take(chain@.len() as int) =~= chain@);
    }
    sum
}

/// Sums the statistic `field` over the named kstats, of the classes that
/// begin with `class_prefix` when it is given; none when the sum does not
/// fit in a `u64`.
pub fn checked_sum_field_any(chain: &Vec<KstatSnapshot>, field: &str, class_prefix: Option<&str>) -> (r:
    Option<u64>)
    ensures
        ({
            let total = sum_field_spec(
                chain@,
                field@,
                match class_prefix {
                    Some(p) => Some(p@),
                    None => None,
                },
            );
            match r {
                Some(v) => total <= u64::MAX && v == total,
                None => total > u64::MAX,
            }
        }),
{
    let ghost cp: Option<Seq<char>> = match class_prefix {
        Some(p) => Some(p@),
        None => None,
    };
    let f = str_chars(field);
    let mut sum: u64 = 0;
    let mut i: usize = 0;
    while i < chain.len()
        invariant
            i <= chain@.len(),
            f@ == field@,
            cp == match class_prefix {
                Some(p) => Some(p@),
                None => None::<Seq<char>>,
            },
            sum == sum_field_spec(chain@.take(i as int), field@, cp),
        decreases chain@.len() - i,
    {
        proof {
            assert(chain@.take(i + 1).drop_last() =~= chain@.take(i as int));
            assert(chain@.take(i + 1).last() == chain@[i as int]);
            lemma_sum_field_prefix(chain@, field@, cp, i + 1);
        }
        let e = &chain[i];
        let class_ok = match class_prefix {
            Some(p) => {
                let c = str_chars(e.class.as_str());
                text::starts_with_str(c.as_slice(), p)
            },
            None => true,
        };
        if e.named && class_ok && e.read_ok {
            let v = find_stat(&e.stats, f.as_slice());
            match sum.checked_add(amount(v)) {
                Some(n) => {
                    sum = n;
                },
                None => {
                    return None;
                },
            }
        }
        i += 1;
    }
    proof {
        assert(chain@.take(chain@.len() as int) =~= chain@);
    }
    Some(sum)
}

// ---------------------------------------------------------------------------
// CPU ticks
// ---------------------------------------------------------------------------

/// The idle, user and kernel ticks of a CPU.
#[derive(Debug, Clone, Copy)]
pub struct CpuRawTicks {
    pub idle: u64,
    pub user: u64,
    pub kernel: u64,
}

impl Default for CpuRawTicks {
    fn default() -> (r: Self)
        ensures
            r.idle == 0 && r.user == 0 && r.kernel == 0,
    {
        CpuRawTicks { idle: 0, user: 0, kernel: 0 }
    }
}

/// The ticks a `cpu:<instance>:sys` kstat reports (0 for a missing one).
pub open spec fn ticks_of(e: KstatSnapshot) -> CpuRawTicks {
    CpuRawTicks {
        idle: stat_amount(lookup(e.stats@, "cpu_ticks_idle"@)) as u64,
        user: stat_amount(lookup(e.stats@, "cpu_ticks_user"@)) as u64,
        kernel: stat_amount(lookup(e.stats@, "cpu_ticks_kernel"@)) as u64,
    }
}

/// The kstat is the readable, named `cpu:*:sys` kstat of a CPU that
/// counted some ticks.
pub open spec fn is_cpu_sys(e: KstatSnapshot) -> bool {
    &&& e.named
    &&& e.module@ == "cpu"@
    &&& e.name@ == "sys"@
    &&& e.read_ok
    &&& !(ticks_of(e).idle == 0 && ticks_of(e).user == 0 && ticks_of(e).kernel == 0)
}

/// The ticks of each CPU, with its instance, in the order of the chain.
pub open spec fn cpu_ticks_spec(chain: Seq<KstatSnapshot>) -> Seq<(i32, CpuRawTicks)>
    decreases chain.len(),
{
    if chain.len() == 0 {
        seq![]
    } else {
        let r = cpu_ticks_spec(chain.drop_last());
        let e = chain.last();
        if is_cpu_sys(e) {
            r.push((e.instance, ticks_of(e)))
        } else {
            r
        }
    }
}

/// The ticks of each CPU, read from the `cpu:*:sys` kstats; CPUs that
/// counted no tick at all are left out.
pub fn cpu_ticks_by_instance(chain: &Vec<KstatSnapshot>) -> (r: Vec<(i32, CpuRawTicks)>)
    ensures
        r@ == cpu_ticks_spec(chain@),
{
    let cpu = str_chars("cpu");
    let sys = str_chars("sys");
    let f_idle = str_chars("cpu_ticks_idle");
    let f_user = str_chars("cpu_ticks_user");
    let f_kernel = str_chars("cpu_ticks_kernel");
    let mut out: Vec<(i32, CpuRawTicks)> = Vec::new();
    let mut i: usize = 0;
    while i < chain.len()
        invariant
            i <= chain@.len(),
            cpu@ == "cpu"@,
            sys@ == "sys"@,
            f_idle@ == "cpu_ticks_idle"@,
            f_user@ == "cpu_ticks_user"@,
            f_kernel@ == "cpu_ticks_kernel"@,
            out@ == cpu_ticks_spec(chain@.take(i as int)),
        decreases chain@.len() - i,
    {
        proof {
            assert(chain@.take(i + 1).drop_last() =~= chain@.take(i as int));
            assert(chain@.take(i + 1).last() == chain@[i as int]);
        }
        let e = &chain[i];
        let m = str_chars(e.module.as_str());
        let n = str_chars(e.name.as_str());
        if e.named && chars_eq(m.as_slice(), cpu.as_slice()) && chars_eq(
            n.as_slice(),
            sys.as_slice(),
        ) && e.read_ok {
            let ticks = CpuRawTicks {
                idle: amount(find_stat(&e.stats, f_idle.as_slice())),
                user: amount(find_stat(&e.stats, f_user.as_slice())),
                kernel: amount(find_stat(&e.stats, f_kernel.as_slice())),
            };
            if !(ticks.idle == 0 && ticks.user == 0 && ticks.kernel == 0) {
                out.push((e.instance, ticks));
            }
        }
        i += 1;
    }
    proof {
        assert(chain@.take(chain@.len() as int) =~= chain@);
    }
    out
}

/// The sum of the idle, user and kernel ticks of CPUs.
pub open spec fn total_ticks(per: Seq<(i32, CpuRawTicks)>) -> (nat, nat, nat)
    decreases per.len(),
{
    if per.len() == 0 {
        (0, 0, 0)
    } else {
        let (i, u, k) = total_ticks(per.drop_last());
        let t = per.last().1;
        (i + t.idle as nat, u + t.user as nat, k + t.kernel as nat)
    }
}

proof fn lemma_total_ticks_prefix(per: Seq<(i32, CpuRawTicks)>, k: int)
    requires
        0 <= k <= per.len(),
    ensures
        total_ticks(per.take(k)).0 <= total_ticks(per).0,
        total_ticks(per.take(k)).1 <= total_ticks(per).1,
        total_ticks(per.take(k)).2 <= total_ticks(per).2,
    decreases per.len() - k,
{
    if k < per.len() {
        lemma_total_ticks_prefix(per, k + 1);
        assert(per.take(k + 1).drop_last() =~= per.take(k));
    } else {
        assert(per.take(k) =~= per);
    }
}

/// The ticks of all CPUs together.
pub fn aggregate_cpu_ticks(per: &Vec<(i32, CpuRawTicks)>) -> (r: CpuRawTicks)
    requires
        total_ticks(per@).0 <= u64::MAX,
        total_ticks(per@).1 <= u64::MAX,
        total_ticks(per@).2 <= u64::MAX,
    ensures
        (r.idle as nat, r.user as nat, r.kernel as nat) == total_ticks(per@),
{
    let mut ticks = CpuRawTicks::default();
    let mut i: usize = 0;
    while i < per.len()
        invariant
            i <= per@.len(),
            (ticks.idle as nat, ticks.user as nat, ticks.kernel as nat) == total_ticks(
                per@.take(i as int),
            ),
            total_ticks(per@).0 <= u64::MAX,
            total_ticks(per@).1 <= u64::MAX,
            total_ticks(per@).2 <= u64::MAX,
        decreases per@.len() - i,
    {
        proof {
            assert(per@.take(i + 1).drop_last() =~= per@.take(i as int));
            assert(per@.take(i + 1).last() == per@[i as int]);
            lemma_total_ticks_prefix(per@, i + 1);
        }
        let t = per[i].1;
        ticks.idle = ticks.idle + t.idle;
        ticks.user = ticks.user + t.user;
        ticks.kernel = ticks.kernel + t.kernel;
        i += 1;
    }
    proof {
        assert(per@.take(per@.len() as int) =~= per@);
    }
    ticks
}

/// The ticks of all CPUs together; none when one of the three sums does not
/// fit in a `u64`.
pub fn checked_aggregate_cpu_ticks(per: &Vec<(i32, CpuRawTicks)>) -> (r: Option<CpuRawTicks>)
    ensures
        match r {
            Some(t) => (t.idle as nat, t.user as nat, t.kernel as nat) == total_ticks(per@),
            None => total_ticks(per@).0 > u64::MAX || total_ticks(per@).1 > u64::MAX
                || total_ticks(per@).2 > u64::MAX,
        },
{
    let mut idle: u64 = 0;
    let mut user: u64 = 0;
    let mut kernel: u64 = 0;
    let mut i: usize = 0;
    while i < per.len()
        invariant
            i <= per@.len(),
            (idle as nat, user as nat, kernel as nat) == total_ticks(per@.take(i as int)),
        decreases per@.len() - i,
    {
        proof {
            assert(per@.take(i + 1).drop_last() =~= per@.take(i as int));
            assert(per@.take(i + 1).last() == per@[i as int]);
            lemma_total_ticks_prefix(per@, i + 1);
        }
        let t = per[i].1;
        let ni = idle.checked_add(t.idle);
        let nu = user.checked_add(t.user);
        let nk = kernel.checked_add(t.kernel);
        match (ni, nu, nk) {
            (Some(a), Some(b), Some(c)) => {
                idle = a;
                user = b;
                kernel = c;
            },
            _ => {
                return None;
            },
        }
        i += 1;
    }
    proof {
        assert(per@.take(per@.len() as int) =~= per@);
    }
    Some(CpuRawTicks { idle, user, kernel })
}

/// The ticks a CPU counted between two readings, per kind: the difference,
/// or 0 where a counter went backwards.
pub fn tick_delta(prev: CpuRawTicks, cur: CpuRawTicks) -> (r: CpuRawTicks)
    ensures
        r.idle == (if cur.idle >= prev.idle { cur.idle - prev.idle } else { 0 }),
        r.user == (if cur.user >= prev.user { cur.user - prev.user } else { 0 }),
        r.kernel == (if cur.kernel >= prev.kernel { cur.kernel - prev.kernel } else { 0 }),
{
    CpuRawTicks {
        idle: cur.idle.saturating_sub(prev.idle),
        user: cur.user.saturating_sub(prev.user),
        kernel: cur.kernel.saturating_sub(prev.kernel),
    }
}


/// The total and used memory in bytes, from the physical and free page
/// counts and the page size; used memory counts no page twice when the
/// free count runs ahead of the physical one.
pub fn memory_usage(phys_pages: u64, free_pages: u64, page_size: u64) -> (r: (u64, u64))
    requires
        phys_pages * page_size <= u64::MAX,
    ensures
        r.0 == phys_pages * page_size,
        r.1 == (if phys_pages >= free_pages {
            phys_pages - free_pages
        } else {
            0
        }) * page_size,
{
    let total = phys_pages * page_size;
    let used_pages = phys_pages.saturating_sub(free_pages);
    proof {
        assert(used_pages * page_size <= phys_pages * page_size) by (nonlinear_arith)
            requires
                used_pages <= phys_pages,
        ;
    }
    let used = used_pages * page_size;
    (total, used)
}

} // verus!
