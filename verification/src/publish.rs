//! The publisher's side of a cycle: the four retained payloads derived from
//! an aggregation result, and the decision that a cycle which failed at the
//! controller publishes nothing.

use vstd::prelude::*;
use vstd::string::StringExecFns;

use crate::aggregate::{
    aggregation_matches, displays_of, sightings_view, spec_aggregate, stations_view,
    AggregationResult, LoggableSighting, Registry,
};
use crate::net::Station;

verus! {

/// The character of one decimal digit.
pub open spec fn dec_digit_char(d: nat) -> char {
    if d == 0 {
        '0'
    } else if d == 1 {
        '1'
    } else if d == 2 {
        '2'
    } else if d == 3 {
        '3'
    } else if d == 4 {
        '4'
    } else if d == 5 {
        '5'
    } else if d == 6 {
        '6'
    } else if d == 7 {
        '7'
    } else if d == 8 {
        '8'
    } else {
        '9'
    }
}

/// The decimal rendering of a number, most significant digit first, with no
/// leading zeros (a lone zero for zero).
#[verifier::opaque]
pub open spec fn dec_seq(n: nat) -> Seq<char>
    decreases n,
{
    if n < 10 {
        seq![dec_digit_char(n)]
    } else {
        dec_seq((n / 10) as nat).push(dec_digit_char((n % 10) as nat))
    }
}

/// Appends the decimal rendering of `n` to `out`.
fn push_decimal(n: u64, out: &mut String)
    ensures
        final(out)@ == old(out)@ + dec_seq(n as nat),
    decreases n,
{
    proof {
        reveal(dec_seq);
    }
    if n >= 10 {
        push_decimal(n / 10, out);
    }
    let d = n % 10;
    let s: &'static str = match d {
        0 => "0",
        1 => "1",
        2 => "2",
        3 => "3",
        4 => "4",
        5 => "5",
        6 => "6",
        7 => "7",
        8 => "8",
        _ => "9",
    };
    proof {
        reveal_strlit("0");
        reveal_strlit("1");
        reveal_strlit("2");
        reveal_strlit("3");
        reveal_strlit("4");
        reveal_strlit("5");
        reveal_strlit("6");
        reveal_strlit("7");
        reveal_strlit("8");
        reveal_strlit("9");
        assert(s@ =~= seq![dec_digit_char((n % 10) as nat)]);
    }
    out.append(s);
    proof {
        if n >= 10 {
            assert(old(out)@ + dec_seq(n as nat) =~= old(out)@ + dec_seq((n / 10) as nat) + s@);
        } else {
            assert(old(out)@ + dec_seq(n as nat) =~= old(out)@ + s@);
        }
    }
}

/// The decimal rendering of a count, as [`dec_seq`] describes it.
pub fn format_u64(n: u64) -> (r: String)
    ensures
        r@ == dec_seq(n as nat),
{
    let mut out = String::new();
    push_decimal(n, &mut out);
    proof {
        assert(Seq::<char>::empty() + dec_seq(n as nat) =~= dec_seq(n as nat));
    }
    out
}

/// The names joined by a separator, in order: empty for no names, and no
/// separator around a single name.
pub open spec fn spec_join(names: Seq<Seq<char>>, sep: Seq<char>) -> Seq<char>
    decreases names.len(),
{
    if names.len() == 0 {
        Seq::empty()
    } else if names.len() == 1 {
        names[0]
    } else {
        spec_join(names.drop_last(), sep) + sep + names.last()
    }
}

/// Joins the member names with a comma and a space, the payload of the
/// member-name channel, as [`spec_join`] describes it.
pub fn join_names(names: &Vec<String>) -> (r: String)
    ensures
        r@ == spec_join(crate::aggregate::names_view(names@), ", "@),
{
    let ghost model = crate::aggregate::names_view(names@);
    let mut out = String::new();
    let mut k: usize = 0;
    proof {
        assert(model.take(0) =~= Seq::empty());
    }
    while k < names.len()
        invariant
            0 <= k <= names@.len(),
            model == crate::aggregate::names_view(names@),
            out@ == spec_join(model.take(k as int), ", "@),
        decreases names@.len() - k,
    {
        if k > 0 {
            out.append(", ");
        }
        out.append(names[k].as_str());
        proof {
            assert(model.take(k + 1).drop_last() =~= model.take(k as int));
            assert(model.take(k + 1).last() == model[k as int]);
            if k == 0 {
                assert(out@ =~= spec_join(model.take(1), ", "@));
            } else {
                assert(out@ =~= spec_join(model.take(k as int), ", "@) + ", "@ + model[k as int]);
            }
        }
        k = k + 1;
    }
    proof {
        assert(model.take(names@.len() as int) =~= model);
    }
    out
}

/// The occupancy payload: `open` exactly when any device is counted.
pub fn space_status(device_count: u64) -> (r: &'static str)
    ensures
        device_count > 0 ==> r@ == "open"@,
        device_count == 0 ==> r@ == "closed"@,
{
    if device_count > 0 {
        "open"
    } else {
        "closed"
    }
}

/// Why a cycle died at the controller stage: the connection failed, the
/// login was rejected, or the station list could not be read. All three
/// abort the cycle and nothing more.
#[derive(Clone, Copy, Debug, PartialEq, Eq, Structural)]
pub enum ControllerError {
    Unreachable,
    AuthFailed,
    Protocol,
}

impl ControllerError {
    /// A short description for the cycle log.
    pub fn describe(&self) -> (r: &'static str)
        ensures
            *self == ControllerError::Unreachable ==> r@ == "controller unreachable"@,
            *self == ControllerError::AuthFailed ==> r@ == "controller login rejected"@,
            *self == ControllerError::Protocol ==> r@ == "unexpected station list shape"@,
    {
        match self {
            ControllerError::Unreachable => "controller unreachable",
            ControllerError::AuthFailed => "controller login rejected",
            ControllerError::Protocol => "unexpected station list shape",
        }
    }
}

/// Everything one successful cycle hands the publisher: the four retained
/// payloads, the sightings to persist, and the assignable side channel.
pub struct CyclePlan {
    pub status_payload: String,
    pub device_count_payload: String,
    pub member_count_payload: String,
    pub names_payload: String,
    pub result: AggregationResult,
    pub sightings: Vec<LoggableSighting>,
    pub unassigned: Vec<Station>,
}

/// How a plan relates to the cycle's inputs: the result matches the
/// aggregation of the stations against the registry, and each payload is
/// the rendering of the matching summary field.
pub open spec fn plan_matches(
    plan: CyclePlan,
    stations: Seq<crate::net::StationModel>,
    reg: Seq<crate::device::DeviceModel>,
) -> bool {
    let m = spec_aggregate(stations, reg);
    &&& aggregation_matches(
        plan.result,
        sightings_view(plan.sightings@),
        stations_view(plan.unassigned@),
        stations,
        reg,
    )
    &&& plan.status_payload@ == (if m.device_count > 0 {
        "open"@
    } else {
        "closed"@
    })
    &&& plan.device_count_payload@ == dec_seq(plan.result.device_count as nat)
    &&& plan.member_count_payload@ == dec_seq(plan.result.member_count as nat)
    &&& plan.names_payload@ == spec_join(displays_of(m.members), ", "@)
}

/// Turns the controller's answer into the cycle's outcome. A failed fetch
/// aborts the cycle with its error and plans nothing, so nothing is
/// published and the previously retained values stand; a successful fetch
/// yields the full publish plan for its stations.
pub fn plan_cycle(fetch: Result<Vec<Station>, ControllerError>, registry: &Registry) -> (r: Result<
    CyclePlan,
    ControllerError,
>)
    ensures
        fetch matches Err(e) ==> r matches Err(e2) && e2 == e,
        fetch matches Ok(stations) ==> r matches Ok(plan) && plan_matches(
            plan,
            stations_view(stations@),
            registry@,
        ),
{
    let stations = match fetch {
        Ok(stations) => stations,
        Err(e) => {
            return Err(e);
        },
    };
    let (result, sightings, unassigned) = crate::aggregate::aggregate(&stations, registry);
    let status = space_status(result.device_count);
    let device_count_payload = format_u64(result.device_count);
    let member_count_payload = format_u64(result.member_count);
    let names_payload = join_names(&result.member_names);
    let status_payload = String::from_str(status);
    Ok(
        CyclePlan {
            status_payload,
            device_count_payload,
            member_count_payload,
            names_payload,
            result,
            sightings,
            unassigned,
        },
    )
}

} // verus!
