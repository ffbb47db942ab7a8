use vstd::prelude::*;

use crate::text::{decimal, to_decimal};

verus! {

/// Every how many finished frames progress is reported: a twentieth of
/// the frames, and at least every frame.
pub open spec fn report_interval(total: nat) -> nat {
    if total / 20 >= 1 {
        total / 20
    } else {
        1
    }
}

/// Whether progress is reported after `done` of `total` frames: at each
/// twentieth and at the last frame.
pub open spec fn should_report(done: nat, total: nat) -> bool {
    done % report_interval(total) == 0 || done == total
}

/// `frames <done>/<total> (<percent>%)` and a line break, the percentage
/// rounded down.
pub open spec fn progress_text(done: nat, total: nat) -> Seq<char> {
    seq!['f', 'r', 'a', 'm', 'e', 's', ' '] + decimal(done) + seq!['/'] + decimal(total) + seq![
        ' ',
        '(',
    ] + decimal(done * 100 / total) + seq!['%', ')', '\n']
}

/// The progress line to report after `done` of `total` frames, or `None`
/// where nothing is reported.
pub fn progress_status(done: usize, total: usize) -> (r: Option<String>)
    requires
        total > 0,
        done * 100 <= usize::MAX,
    ensures
        r is Some <==> should_report(done as nat, total as nat),
        r matches Some(s) ==> s@ == progress_text(done as nat, total as nat),
{
    proof {
        reveal_strlit("frames ");
        reveal_strlit("/");
        reveal_strlit(" (");
        reveal_strlit("%)\n");
    }
    assert("frames "@ =~= seq!['f', 'r', 'a', 'm', 'e', 's', ' ']);
    assert("/"@ =~= seq!['/']);
    assert(" ("@ =~= seq![' ', '(']);
    assert("%)\n"@ =~= seq!['%', ')', '\n']);
    let percentage = done * 100 / total;
    let twentieth = total / 20;
    let interval = if twentieth >= 1 {
        twentieth
    } else {
        1
    };
    if done % interval == 0 || done == total {
        let mut s = String::from_str("frames ");
        s.append(to_decimal(done as u64).as_str());
        s.append("/");
        s.append(to_decimal(total as u64).as_str());
        s.append(" (");
        s.append(to_decimal(percentage as u64).as_str());
        s.append("%)\n");
        Some(s)
    } else {
        None
    }
}

/// The last frame is always reported, at 100%.
pub proof fn lemma_last_frame_reported(total: nat)
    requires
        total > 0,
    ensures
        should_report(total, total),
        total * 100 / total == 100,
{
    assert(total * 100 / total == 100) by (nonlinear_arith)
        requires
            total > 0,
    ;
}

} // verus!
