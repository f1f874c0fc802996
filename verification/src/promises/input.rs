//! Recoverable Input: its bytes are written once, and what was written stays
//! known.

use vstd::prelude::*;

use crate::daemon::handoff::{
    operation_bytes, shed_operations, HandoffInputOperation, HandoffInputState,
};
use crate::daemon::input::InputAdmission;
use crate::protocol::{
    AppliedInputRange, CommandDisposition, ControlFailure, ErrorCode, OperationKey,
};

verus! {

/// Input is written exactly where its key is sound and new, no earlier Input
/// failed, and it begins at the cursor that was reached and does not overflow.
/// A refused one was not applied.
pub proof fn law_new_input_is_written_at_the_cursor(
    state: HandoffInputState,
    key: OperationKey,
    expected_byte: u64,
    data: Vec<u8>,
    r: Result<InputAdmission, ControlFailure>,
)
    requires
        call_ensures(
            HandoffInputState::begin_recoverable_input,
            (&state, &key, expected_byte, &data),
            r,
        ),
    ensures
        r matches Ok(InputAdmission::Apply) ==> {
            &&& key.defect is None
            &&& state.input_failure is None
            &&& expected_byte == state.applied_input_bytes
            &&& expected_byte + data@.len() <= u64::MAX
            &&& forall|k: int|
                0 <= k < state.operations@.len() ==> (#[trigger] state.operations@[k]).key@ != key@
        },
        key.defect is None && state.input_failure is None && expected_byte
            == state.applied_input_bytes && expected_byte + data@.len() <= u64::MAX && (forall|
            k: int,
        |
            0 <= k < state.operations@.len() ==> (#[trigger] state.operations@[k]).key@ != key@)
            ==> (r matches Ok(InputAdmission::Apply)),
        r matches Err(failure) ==> failure.disposition == CommandDisposition::NotApplied,
        key.defect is Some ==> (r matches Err(failure) && failure.error.code
            == ErrorCode::InvalidRequest),
{
    if exists|k: int|
        0 <= k < state.operations@.len() && (#[trigger] state.operations@[k]).key@ == key@ {
        let k = choose|k: int|
            0 <= k < state.operations@.len() && (#[trigger] state.operations@[k]).key@ == key@;
        lemma_first_place(state.operations@, key@, k);
    }
}

proof fn lemma_first_place(operations: Seq<HandoffInputOperation>, key: Seq<char>, place: int)
    requires
        0 <= place < operations.len(),
        operations[place].key@ == key,
    ensures
        exists|first: int| crate::daemon::input::is_input_place(operations, key, first),
    decreases place,
{
    if exists|k: int| 0 <= k < place && (#[trigger] operations[k]).key@ == key {
        let k = choose|k: int| 0 <= k < place && (#[trigger] operations[k]).key@ == key;
        lemma_first_place(operations, key, k);
    } else {
        assert(crate::daemon::input::is_input_place(operations, key, place));
    }
}

/// Input that is sent again with its key is not written again: it gets the range
/// that the first one was given. Other bytes, or another cursor, under the same
/// key are refused.
pub proof fn law_repeated_input_gets_its_first_range(
    state: HandoffInputState,
    key: OperationKey,
    expected_byte: u64,
    data: Vec<u8>,
    r: Result<InputAdmission, ControlFailure>,
    place: int,
)
    requires
        key.defect is None,
        0 <= place < state.operations@.len(),
        state.operations@[place].key@ == key@,
        forall|k: int| 0 <= k < place ==> (#[trigger] state.operations@[k]).key@ != key@,
        call_ensures(
            HandoffInputState::begin_recoverable_input,
            (&state, &key, expected_byte, &data),
            r,
        ),
    ensures
        state.operations@[place].expected_byte == expected_byte && state.operations@[place].data@
            == data@ ==> r == Ok::<InputAdmission, ControlFailure>(
            InputAdmission::Retry(state.operations@[place].range),
        ),
        state.operations@[place].expected_byte != expected_byte || state.operations@[place].data@
            != data@ ==> (r matches Err(failure) && failure.disposition
            == CommandDisposition::NotApplied && failure.error.code == ErrorCode::InvalidRequest),
{
    assert(crate::daemon::input::is_input_place(state.operations@, key@, place));
}

/// What is kept of some Inputs within a budget is their end, from the first
/// place on at which it fits.
pub proof fn lemma_least_shedding(operations: Seq<HandoffInputOperation>, budget: int) -> (removed: int)
    requires
        budget >= 0,
    ensures
        0 <= removed <= operations.len(),
        shed_operations(operations, operation_bytes(operations), budget) == operations.skip(
            removed,
        ),
        operation_bytes(operations.skip(removed)) <= budget,
        removed > 0 ==> operations[removed - 1].data@.len() + operation_bytes(
            operations.skip(removed),
        ) > budget,
    decreases operations.len(),
{
    if operation_bytes(operations) <= budget || operations.len() == 0 {
        assert(operations.skip(0) =~= operations);
        0
    } else {
        let rest = operations.drop_first();
        crate::daemon::handoff::lemma_operation_bytes_first(operations);
        let removed = lemma_least_shedding(rest, budget);
        assert(rest.skip(removed) =~= operations.skip(removed + 1));
        if removed == 0 {
            assert(rest.skip(0) =~= rest);
        } else {
            assert(rest[removed - 1] == operations[removed]);
        }
        removed + 1
    }
}

/// Written Input covers the bytes from the cursor on, as many as were written,
/// and the cursor moves behind them. It is remembered with its key and its bytes.
/// Only where all that is remembered exceeds one mebibyte the oldest is
/// forgotten, and no more than it takes.
pub proof fn law_written_input_is_remembered(
    state: &mut HandoffInputState,
    key: OperationKey,
    data: Vec<u8>,
    range: AppliedInputRange,
) -> (forgotten: int)
    requires
        old(state).applied_input_bytes + data@.len() <= u64::MAX,
        call_ensures(HandoffInputState::record_input, (state, key, data), range),
    ensures
        ({
            let made = HandoffInputOperation {
                key,
                expected_byte: old(state).applied_input_bytes,
                data,
                range,
            };
            let all = old(state).operations@.push(made);
            let kept = final(state).operations@;
            &&& range.start_byte == old(state).applied_input_bytes
            &&& range.end_byte == old(state).applied_input_bytes + data@.len()
            &&& final(state).applied_input_bytes == range.end_byte
            &&& final(state).input_failure == old(state).input_failure
            &&& 0 <= forgotten <= all.len()
            &&& kept == all.skip(forgotten)
            &&& operation_bytes(kept) <= 1048576
            &&& forgotten > 0 ==> all[forgotten - 1].data@.len() + operation_bytes(kept) > 1048576
        }),
{
    let made = HandoffInputOperation {
        key,
        expected_byte: old(state).applied_input_bytes,
        data,
        range,
    };
    lemma_least_shedding(old(state).operations@.push(made), 1048576)
}

/// Input that was written and is sent again, byte for byte, is not written a
/// second time: it gets the range of the first time, as long as its bytes alone
/// fit in what is remembered.
pub proof fn law_written_input_is_not_written_again(
    state: &mut HandoffInputState,
    key: OperationKey,
    data: Vec<u8>,
    range: AppliedInputRange,
    again: Vec<u8>,
    later: HandoffInputState,
    r: Result<InputAdmission, ControlFailure>,
)
    requires
        key.defect is None,
        data@.len() <= 1048576,
        old(state).applied_input_bytes + data@.len() <= u64::MAX,
        forall|k: int|
            0 <= k < old(state).operations@.len() ==> (#[trigger] old(state).operations@[k]).key@
                != key@,
        call_ensures(HandoffInputState::record_input, (state, key, data), range),
        later == *final(state),
        again@ == data@,
        call_ensures(
            HandoffInputState::begin_recoverable_input,
            (&later, &key, old(state).applied_input_bytes, &again),
            r,
        ),
    ensures
        r == Ok::<InputAdmission, ControlFailure>(InputAdmission::Retry(range)),
{
    let forgotten = law_written_input_is_remembered(state, key, data, range);
    let made = HandoffInputOperation {
        key,
        expected_byte: old(state).applied_input_bytes,
        data,
        range,
    };
    let all = old(state).operations@.push(made);
    let kept = final(state).operations@;
    if forgotten == all.len() {
        assert(kept =~= seq![]);
        assert(operation_bytes(kept) == 0);
        assert(all[forgotten - 1] == made);
    }
    let place = kept.len() - 1;
    assert(kept[place] == made);
    assert forall|k: int| 0 <= k < place implies (#[trigger] kept[k]).key@ != key@ by {
        assert(kept[k] == all[k + forgotten]);
        assert(all[k + forgotten] == old(state).operations@[k + forgotten]);
    }
    law_repeated_input_gets_its_first_range(
        later,
        key,
        old(state).applied_input_bytes,
        again,
        r,
        place,
    );
}

/// Input without a key only moves the cursor.
pub proof fn law_plain_input_moves_the_cursor(state: &mut HandoffInputState, written: u64)
    requires
        old(state).applied_input_bytes + written <= u64::MAX,
        call_ensures(HandoffInputState::advance, (state, written), ()),
    ensures
        final(state).applied_input_bytes == old(state).applied_input_bytes + written,
        final(state).operations@ == old(state).operations@,
        final(state).input_failure == old(state).input_failure,
{
}

} // verus!
