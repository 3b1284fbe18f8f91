use vstd::prelude::*;
use vstd::arithmetic::power2::{pow2, lemma_pow2_unfold, lemma_pow2_strictly_increases, lemma2_to64, lemma2_to64_rest};
use crate::control::{Configuration, ControlMessage};

verus! {

/// Command-line configuration of the orchestrator.
pub struct CliArgs {
    /// The broker to reach.
    pub target_host_uri: String,
    /// Lowest delay level; a level `e` means a delay of `2^(e - 1)` ms, and `0` none.
    pub delay_level_min: u64,
    /// Highest delay level.
    pub delay_level_max: u64,
    /// Lowest number of instances.
    pub instancecount_min: u64,
    /// Highest number of instances.
    pub instancecount_max: u64,
    /// Measuring time of each configuration, in seconds.
    pub mrt: u64,
    /// Pause between two configurations, in seconds.
    pub reset_buffer: u64,
}

/// One step of the sweep, as the runner performs it.
#[derive(PartialEq, Eq, Structural, Clone, Copy, Debug)]
pub enum SweepStep {
    /// Publish a control message at exactly-once delivery.
    Publish(ControlMessage),
    /// Build and start a local observer swarm; on failure, skip the local measurement.
    StartObservers(Configuration),
    /// Wait this many seconds.
    Hold(u64),
    /// Stop the local observer swarm, if one runs, and drain it.
    StopObservers,
}

/// The delay in milliseconds of delay level `e`.
pub open spec fn delay_for(e: u64) -> nat {
    if e == 0 {
        0
    } else {
        pow2((e - 1) as nat)
    }
}

/// The delay in milliseconds of delay level `e`: `0` for level `0`, else `2^(e - 1)`.
pub fn delay_for_level(e: u64) -> (r: u64)
    requires
        e <= 64,
    ensures
        r == delay_for(e),
{
    if e == 0 {
        return 0;
    }
    let k = e - 1;
    let mut d: u64 = 1;
    let mut j: u64 = 0;
    proof {
        lemma2_to64();
        lemma2_to64_rest();
    }
    while j < k
        invariant
            j <= k <= 63,
            d == pow2(j as nat),
            pow2(63) == 0x8000000000000000,
        decreases k - j,
    {
        proof {
            lemma_pow2_unfold((j + 1) as nat);
            lemma_pow2_strictly_increases(j as nat, 63);
        }
        d = d * 2;
        j = j + 1;
    }
    d
}

/// The configurations of one delay and QoS, over the instance counts `lo..=hi`.
pub open spec fn count_configs(qos: u8, delay_ms: u64, lo: u64, hi: u64) -> Seq<Configuration> {
    if hi < lo {
        seq![]
    } else {
        Seq::new(
            (hi - lo + 1) as nat,
            |k: int| Configuration { qos, delay_ms, instance_count: (lo + k) as u64 },
        )
    }
}

/// The configurations of one delay level: QoS `0`, `1`, `2`, each over all instance counts.
pub open spec fn level_configs(e: u64, lo: u64, hi: u64) -> Seq<Configuration> {
    count_configs(0, delay_for(e) as u64, lo, hi) + count_configs(1, delay_for(e) as u64, lo, hi)
        + count_configs(2, delay_for(e) as u64, lo, hi)
}

/// All configurations of the delay levels `emin..=emax`, in sweep order.
pub open spec fn sweep_of(emin: int, emax: int, lo: u64, hi: u64) -> Seq<Configuration>
    decreases emax + 1 - emin,
{
    if emax < emin {
        seq![]
    } else {
        sweep_of(emin, emax - 1, lo, hi) + level_configs(emax as u64, lo, hi)
    }
}

fn push_counts(out: &mut Vec<Configuration>, qos: u8, delay_ms: u64, lo: u64, hi: u64)
    requires
        hi < u64::MAX,
    ensures
        final(out)@ == old(out)@ + count_configs(qos, delay_ms, lo, hi),
{
    let ghost start = old(out)@;
    if hi < lo {
        assert(out@ =~= start + count_configs(qos, delay_ms, lo, hi));
        return;
    }
    let mut n: u64 = lo;
    while n <= hi
        invariant
            lo <= n <= hi + 1,
            hi < u64::MAX,
            out@ =~= start + Seq::new(
                (n - lo) as nat,
                |k: int| Configuration { qos, delay_ms, instance_count: (lo + k) as u64 },
            ),
        decreases hi + 1 - n,
    {
        out.push(Configuration { qos, delay_ms, instance_count: n });
        n = n + 1;
    }
    assert(out@ =~= start + count_configs(qos, delay_ms, lo, hi));
}

/// Every configuration of the sweep: delay levels outermost, then QoS `0..=2`, then
/// instance counts innermost, each range ascending and inclusive.
pub fn sweep(emin: u64, emax: u64, lo: u64, hi: u64) -> (r: Vec<Configuration>)
    requires
        emax <= 64,
        hi < u64::MAX,
    ensures
        r@ == sweep_of(emin as int, emax as int, lo, hi),
{
    let mut out: Vec<Configuration> = Vec::new();
    if emax < emin {
        assert(out@ =~= sweep_of(emin as int, emax as int, lo, hi));
        return out;
    }
    let mut e: u64 = emin;
    assert(out@ =~= sweep_of(emin as int, emin - 1, lo, hi));
    while e <= emax
        invariant
            emin <= e <= emax + 1,
            emax <= 64,
            hi < u64::MAX,
            out@ == sweep_of(emin as int, e - 1, lo, hi),
        decreases emax + 1 - e,
    {
        let d = delay_for_level(e);
        push_counts(&mut out, 0, d, lo, hi);
        push_counts(&mut out, 1, d, lo, hi);
        push_counts(&mut out, 2, d, lo, hi);
        assert(out@ =~= sweep_of(emin as int, e as int, lo, hi));
        e = e + 1;
    }
    out
}

/// The steps of one configuration: publish the parameters and the opening reset, start
/// the observers, measure, publish the closing reset, stop the observers, settle.
pub open spec fn steps_of(c: Configuration, mrt: u64, settle: u64) -> Seq<SweepStep> {
    seq![
        SweepStep::Publish(ControlMessage::Delay(c.delay_ms)),
        SweepStep::Publish(ControlMessage::Qos(c.qos)),
        SweepStep::Publish(ControlMessage::InstanceCount(c.instance_count)),
        SweepStep::Publish(ControlMessage::Reset),
        SweepStep::StartObservers(c),
        SweepStep::Hold(mrt),
        SweepStep::Publish(ControlMessage::Reset),
        SweepStep::StopObservers,
        SweepStep::Hold(settle),
    ]
}

/// The steps of the configurations `cs`, one after another.
pub open spec fn steps_of_all(cs: Seq<Configuration>, mrt: u64, settle: u64) -> Seq<SweepStep>
    decreases cs.len(),
{
    if cs.len() == 0 {
        seq![]
    } else {
        steps_of_all(cs.drop_last(), mrt, settle) + steps_of(cs.last(), mrt, settle)
    }
}

/// The whole run of an orchestrator: the steps of every configuration of the sweep,
/// then the final killall.
pub open spec fn plan_of(args: &CliArgs) -> Seq<SweepStep> {
    steps_of_all(
        sweep_of(args.delay_level_min as int, args.delay_level_max as int, args.instancecount_min, args.instancecount_max),
        args.mrt,
        args.reset_buffer,
    ).push(SweepStep::Publish(ControlMessage::Killall))
}

/// The steps that the orchestrator takes, in order.
pub fn plan(args: &CliArgs) -> (r: Vec<SweepStep>)
    requires
        args.delay_level_max <= 64,
        args.instancecount_max < u64::MAX,
    ensures
        r@ == plan_of(args),
{
    let cs = sweep(args.delay_level_min, args.delay_level_max, args.instancecount_min, args.instancecount_max);
    let mut out: Vec<SweepStep> = Vec::new();
    let mut i: usize = 0;
    assert(cs@.subrange(0, 0) =~= seq![]);
    while i < cs.len()
        invariant
            i <= cs@.len(),
            out@ == steps_of_all(cs@.subrange(0, i as int), args.mrt, args.reset_buffer),
        decreases cs@.len() - i,
    {
        let c = cs[i];
        let ghost before = out@;
        out.push(SweepStep::Publish(ControlMessage::Delay(c.delay_ms)));
        out.push(SweepStep::Publish(ControlMessage::Qos(c.qos)));
        out.push(SweepStep::Publish(ControlMessage::InstanceCount(c.instance_count)));
        out.push(SweepStep::Publish(ControlMessage::Reset));
        out.push(SweepStep::StartObservers(c));
        out.push(SweepStep::Hold(args.mrt));
        out.push(SweepStep::Publish(ControlMessage::Reset));
        out.push(SweepStep::StopObservers);
        out.push(SweepStep::Hold(args.reset_buffer));
        proof {
            assert(cs@.subrange(0, i + 1).drop_last() =~= cs@.subrange(0, i as int));
            assert(out@ =~= before + steps_of(c, args.mrt, args.reset_buffer));
        }
        i = i + 1;
    }
    assert(cs@.subrange(0, cs@.len() as int) =~= cs@);
    out.push(SweepStep::Publish(ControlMessage::Killall));
    out
}

} // verus!
