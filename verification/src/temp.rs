//! Non-blocking sampling of the temperature probes: a measurement is started
//! at most once a second, and read when the probes have had time to convert.
use vstd::prelude::*;

verus! {

/// Milliseconds between starting temperature measurements.
pub const TEMP_INTERVAL: i64 = 1000;

/// State of the temperature sampling.
#[derive(Debug, Clone, Copy, PartialEq, Eq, Structural)]
pub enum TempsState {
    /// Ready to sample; time (milliseconds) of the start of the last sample.
    Ready(i64),
    /// A measurement was started at this time and is converting.
    Sampling(i64),
    /// The clock jumped backwards at this time.
    Failed(i64),
}

/// What the sampler has to do with the probes.
#[derive(Debug, Clone, Copy, PartialEq, Eq, Structural)]
pub enum TempsAction {
    Nothing,
    /// Start a simultaneous measurement on all probes.
    StartMeasurement,
    /// Read the measurement of every probe.
    ReadAll,
}

/// One step of the sampler at `now` (milliseconds), for probes that need
/// `conversion_ms` to convert: start a measurement once a second, read it when
/// converted, and fail when the clock jumps backwards.
pub fn temps_step(state: TempsState, now: i64, conversion_ms: i64) -> (r: (TempsAction, TempsState))
    requires
        !(state is Failed),
        state matches TempsState::Ready(last) ==> i64::MIN <= now - last <= i64::MAX,
        state matches TempsState::Sampling(start) ==> i64::MIN <= now - start <= i64::MAX,
    ensures
        r == (match state {
            TempsState::Ready(last) => if now - last >= TEMP_INTERVAL {
                (TempsAction::StartMeasurement, TempsState::Sampling(now))
            } else if last > now {
                (TempsAction::Nothing, TempsState::Failed(now))
            } else {
                (TempsAction::Nothing, state)
            },
            TempsState::Sampling(start) => if now - start >= conversion_ms {
                (TempsAction::ReadAll, TempsState::Ready(now))
            } else if start > now {
                (TempsAction::Nothing, TempsState::Failed(now))
            } else {
                (TempsAction::Nothing, state)
            },
            TempsState::Failed(_) => (TempsAction::Nothing, state),
        }),
{
    match state {
        TempsState::Ready(last) => {
            if now - last >= TEMP_INTERVAL {
                (TempsAction::StartMeasurement, TempsState::Sampling(now))
            } else if last > now {
                (TempsAction::Nothing, TempsState::Failed(now))
            } else {
                (TempsAction::Nothing, state)
            }
        },
        TempsState::Sampling(start) => {
            if now - start >= conversion_ms {
                (TempsAction::ReadAll, TempsState::Ready(now))
            } else if start > now {
                (TempsAction::Nothing, TempsState::Failed(now))
            } else {
                (TempsAction::Nothing, state)
            }
        },
        TempsState::Failed(_) => (TempsAction::Nothing, state),
    }
}

/// Family code of the DS18B20 temperature probe.
pub const DS18B20_FAMILY_CODE: u8 = 0x28;

/// Largest number of probes used.
pub const MAX_PROBES: usize = 8;

/// The family code of a one-wire device: the low byte of its address.
pub open spec fn family_code(address: u64) -> u8 {
    (address % 256) as u8
}

/// The addresses of temperature probes among `devices`, in order.
pub open spec fn probes_among(devices: Seq<u64>) -> Seq<u64>
    decreases devices.len(),
{
    if devices.len() == 0 {
        Seq::empty()
    } else if family_code(devices.last()) == DS18B20_FAMILY_CODE {
        probes_among(devices.drop_last()).push(devices.last())
    } else {
        probes_among(devices.drop_last())
    }
}

/// The first `MAX_PROBES` temperature probes among `devices`.
pub open spec fn spec_select_probes(devices: Seq<u64>) -> Seq<u64> {
    let p = probes_among(devices);
    if p.len() <= MAX_PROBES {
        p
    } else {
        p.take(MAX_PROBES as int)
    }
}

proof fn lemma_probes_among_prefix(devices: Seq<u64>, i: int)
    requires
        0 <= i < devices.len(),
    ensures
        probes_among(devices.subrange(0, i + 1)) == (if family_code(devices[i]) == DS18B20_FAMILY_CODE {
            probes_among(devices.subrange(0, i)).push(devices[i])
        } else {
            probes_among(devices.subrange(0, i))
        }),
{
    assert(devices.subrange(0, i + 1).drop_last() =~= devices.subrange(0, i));
}

proof fn lemma_probes_among_grows(devices: Seq<u64>, i: int, j: int)
    requires
        0 <= i <= j <= devices.len(),
    ensures
        probes_among(devices.subrange(0, i)).len() <= probes_among(devices.subrange(0, j)).len(),
        probes_among(devices.subrange(0, i)) =~= probes_among(devices.subrange(0, j)).take(
            probes_among(devices.subrange(0, i)).len() as int,
        ),
    decreases j - i,
{
    if i < j {
        lemma_probes_among_grows(devices, i, j - 1);
        lemma_probes_among_prefix(devices, j - 1);
    }
}

/// The temperature probes to use among the devices found on the one-wire bus
/// (by address): those of the DS18B20 family, at most `MAX_PROBES`, in the order
/// found. Scanning stops at the first probe beyond `MAX_PROBES`.
pub fn select_probes(devices: &Vec<u64>) -> (r: Vec<u64>)
    ensures
        r@ == spec_select_probes(devices@),
{
    let mut probes: Vec<u64> = Vec::new();
    let mut i: usize = 0;
    while i < devices.len()
        invariant
            i <= devices.len(),
            probes@ == probes_among(devices@.subrange(0, i as int)),
            probes@.len() <= MAX_PROBES,
        decreases devices.len() - i,
    {
        let d = devices[i];
        proof {
            lemma_probes_among_prefix(devices@, i as int);
        }
        if (d % 256) as u8 == DS18B20_FAMILY_CODE {
            if probes.len() == MAX_PROBES {
                proof {
                    let pre = probes_among(devices@.subrange(0, i as int));
                    let full = probes_among(devices@);
                    assert(devices@.subrange(0, devices@.len() as int) =~= devices@);
                    lemma_probes_among_grows(devices@, i as int, devices@.len() as int);
                    lemma_probes_among_grows(devices@, i + 1, devices@.len() as int);
                    assert(full.len() > MAX_PROBES);
                    assert(full.take(MAX_PROBES as int) =~= pre);
                }
                return probes;
            }
            probes.push(d);
        }
        i = i + 1;
    }
    proof {
        assert(devices@.subrange(0, devices@.len() as int) =~= devices@);
    }
    probes
}

/// The temperature probes among the devices are exactly the devices whose
/// address has low byte 0x28 (the DS18B20 family code), in the order found.
pub proof fn lemma_probes_are_ds18b20(devices: Seq<u64>)
    ensures
        probes_among(devices) == devices.filter(|a: u64| a % 256 == 0x28),
    decreases devices.len(),
{
    reveal(Seq::filter);
    if devices.len() > 0 {
        lemma_probes_are_ds18b20(devices.drop_last());
    }
}

/// The probes used are the first `MAX_PROBES` devices whose address has low
/// byte 0x28; in particular a single device is used exactly when its low
/// byte is 0x28.
pub proof fn lemma_select_probes_by_low_byte(devices: Seq<u64>, a: u64)
    ensures
        ({
            let p = devices.filter(|x: u64| x % 256 == 0x28);
            spec_select_probes(devices) == if p.len() <= MAX_PROBES {
                p
            } else {
                p.take(MAX_PROBES as int)
            }
        }),
        spec_select_probes(seq![a]) == if a % 256 == 0x28 {
            seq![a]
        } else {
            Seq::<u64>::empty()
        },
{
    lemma_probes_are_ds18b20(devices);
    lemma_probes_are_ds18b20(seq![a]);
    reveal_with_fuel(Seq::filter, 2);
    assert(seq![a].drop_last() =~= Seq::<u64>::empty());
    if a % 256 == 0x28 {
        assert(Seq::<u64>::empty().push(a) =~= seq![a]);
    }
}

} // verus!
