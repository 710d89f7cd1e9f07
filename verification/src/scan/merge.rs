//! Scanning concatenated messages: a message is the sequence of its events,
//! so scanning two messages one after the other is scanning their
//! concatenation.
use vstd::prelude::*;

use crate::scan::delimited::spec_scan_delimited;
use crate::scan::error::ScanErr;
use crate::scan::group::stack::StackModel;
use crate::scan::{ScanCallbacks, spec_message_step, spec_scan_message};
use crate::wire::parse::{lemma_next_event_concat, spec_events_complete, spec_next_event};

verus! {

/// Skipping the pending bytes first does not change a scan.
proof fn lemma_scan_skip<'a, S: ScanCallbacks<'a>>(
    st: S::State,
    stack: StackModel,
    x: Seq<u8>,
    pending: nat,
)
    requires
        pending <= x.len(),
    ensures
        spec_scan_message::<S>(st, stack, x, pending) == spec_scan_message::<S>(
            st,
            stack,
            x.skip(pending as int),
            0,
        ),
{
    assert(x.skip(pending as int).skip(0) =~= x.skip(pending as int));
    assert(spec_next_event(x, pending) == spec_next_event(x.skip(pending as int), 0));
    assert(spec_message_step::<S>(st, stack, x, pending) == spec_message_step::<S>(
        st,
        stack,
        x.skip(pending as int),
        0,
    ));
}

/// Scanning `a` followed by `b`, where `a` (after its first `pending` bytes)
/// holds whole, group-free events, is scanning `a` and then, from where that
/// left the scanner and the group stack, scanning `b`.
pub proof fn lemma_scan_concat<'a, S: ScanCallbacks<'a>>(
    st: S::State,
    stack: StackModel,
    a: Seq<u8>,
    pending: nat,
    b: Seq<u8>,
)
    requires
        spec_events_complete(a, pending),
    ensures
        spec_scan_message::<S>(st, stack, a + b, pending) == match spec_scan_message::<S>(
            st,
            stack,
            a,
            pending,
        ) {
            Ok((st2, stack2)) => spec_scan_message::<S>(st2, stack2, b, 0),
            Err(e) => Err(e),
        },
    decreases a.len(),
{
    lemma_next_event_concat(a, pending, b);
    if a.skip(pending as int).len() == 0 {
        // At the end of `a` the scan of `a` is done and the rest reads `b`.
        assert(spec_message_step::<S>(st, stack, a + b, pending) == spec_message_step::<S>(
            st,
            stack,
            b,
            0,
        ));
        assert(spec_scan_message::<S>(st, stack, a + b, pending) == spec_scan_message::<S>(
            st,
            stack,
            b,
            0,
        ));
    } else {
        // The first event of `a` is read alike from `a + b`; the rest follows
        // by induction.
        let (f, ev, i2, p2) = spec_next_event(a, pending)->Some_0->Ok_0;
        match spec_message_step::<S>(st, stack, a, pending) {
            Some(Ok((st2, stack2, i3, p3))) => {
                lemma_scan_concat::<S>(st2, stack2, i2, p2, b);
                crate::scan::lemma_message_step_progress::<S>(st, stack, a, pending);
                crate::scan::lemma_message_step_progress::<S>(st, stack, a + b, pending);
                assert(spec_message_step::<S>(st, stack, a + b, pending) == Some(
                    Ok::<(S::State, StackModel, Seq<u8>, nat), ScanErr>((st2, stack2, i2 + b, p2)),
                ));
            },
            Some(Err(e)) => {
                assert(spec_message_step::<S>(st, stack, a + b, pending) == Some(
                    Err::<(S::State, StackModel, Seq<u8>, nat), ScanErr>(e),
                ));
                assert(spec_scan_message::<S>(st, stack, a, pending) == Err::<
                    (S::State, StackModel),
                    ScanErr,
                >(e));
            },
            None => {},
        }
    }
}

/// Merging: scanning the contents of two occurrences of an embedded message
/// one after the other is scanning one occurrence that holds both, when the
/// first holds whole, group-free events.
pub proof fn lemma_scan_delimited_merge<'a, S: ScanCallbacks<'a>>(
    st: S::State,
    stack: StackModel,
    a: Seq<u8>,
    b: Seq<u8>,
)
    requires
        spec_events_complete(a, 0),
        a.len() + b.len() <= u32::MAX,
    ensures
        spec_scan_delimited::<S>(st, (a + b, (a.len() + b.len()) as u32), stack) == match spec_scan_delimited::<S>(
            st,
            (a, a.len() as u32),
            stack,
        ) {
            Ok((st2, stack2)) => spec_scan_delimited::<S>(st2, (b, b.len() as u32), stack2),
            Err(e) => Err(e),
        },
{
    lemma_scan_concat::<S>(st, stack, a, 0, b);
}

} // verus!
