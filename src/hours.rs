use vstd::prelude::*;
use crate::event::Event;

verus! {

/// The events of `s` that start in hour `h`, in order.
pub open spec fn hour_list(s: Seq<Event>, h: int) -> Seq<Event>
    decreases s.len(),
{
    if s.len() == 0 {
        Seq::empty()
    } else {
        let r = hour_list(s.drop_last(), h);
        if s.last().start.hour_of() == h { r.push(s.last()) } else { r }
    }
}

/// The hours below `n` in which some event of `s` starts, ascending.
pub open spec fn occupied_hours(s: Seq<Event>, n: int) -> Seq<int>
    decreases n,
{
    if n <= 0 {
        Seq::empty()
    } else {
        let r = occupied_hours(s, n - 1);
        if hour_list(s, n - 1).len() > 0 { r.push(n - 1) } else { r }
    }
}

/// The events on one date, in order of start time, given their positions.
pub open spec fn day_events(events: Seq<Event>, idx: Seq<usize>) -> Seq<Event> {
    idx.map_values(|i: usize| events[i as int])
}

/// Positions in `events` of those in `idx` that start in hour `h`.
pub fn positions_at_hour(events: &Vec<Event>, idx: &Vec<usize>, h: u32) -> (r: Vec<usize>)
    requires
        forall|k: int| 0 <= k < idx@.len() ==> #[trigger] idx@[k] < events@.len(),
    ensures
        r@.len() == hour_list(day_events(events@, idx@), h as int).len(),
        forall|k: int|
            0 <= k < r@.len() ==> #[trigger] r@[k] < events@.len() && events@[r@[k] as int]
                == hour_list(day_events(events@, idx@), h as int)[k],
{
    let ghost s = day_events(events@, idx@);
    let mut out: Vec<usize> = Vec::new();
    let mut i: usize = 0;
    while i < idx.len()
        invariant
            i <= idx@.len(),
            s == day_events(events@, idx@),
            forall|k: int| 0 <= k < idx@.len() ==> #[trigger] idx@[k] < events@.len(),
            out@.len() == hour_list(s.take(i as int), h as int).len(),
            forall|k: int|
                0 <= k < out@.len() ==> #[trigger] out@[k] < events@.len() && events@[out@[k] as int]
                    == hour_list(s.take(i as int), h as int)[k],
        decreases idx@.len() - i,
    {
        proof {
            assert(s.take(i + 1).drop_last() =~= s.take(i as int));
            assert(s.take(i + 1).last() == events@[idx@[i as int] as int]);
        }
        if events[idx[i]].start.minute / 60 == h {
            out.push(idx[i]);
        }
        i = i + 1;
    }
    proof {
        assert(s.take(i as int) =~= s);
    }
    out
}

} // verus!
