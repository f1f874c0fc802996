//! Recoverable Input of a native Run: each key writes its bytes once.

use vstd::prelude::*;

use crate::daemon::handoff::{
    input_defect, lemma_operation_bytes_first, lemma_operation_bytes_nonnegative,
    lemma_shed_operations_is_a_suffix, lemma_suffix_of_valid_operations, operation_bytes,
    operation_defect, operations_defect, shed_operations, HandoffInputOperation,
    HandoffInputState,
};
use crate::protocol::{
    control_failure_not_applied, protocol_error, AppliedInputRange, CommandDisposition,
    ControlFailure, ErrorCode, OperationKey, ProtocolError,
};
use crate::text::{decimal, decimal_text, joined};

verus! {

/// Request bytes that one Run retains for retries.
pub const INPUT_RESULT_MAX_REQUEST_BYTES: usize = 1048576;

/// What a recoverable Input leads to.
#[derive(Debug, PartialEq, Eq)]
pub enum InputAdmission {
    /// Write the bytes, and record them once they are written.
    Apply,
    /// They were written before, there.
    Retry(AppliedInputRange),
}

/// Whether `place` is where a key stands in a ledger.
pub open spec fn is_input_place(
    operations: Seq<HandoffInputOperation>,
    key: Seq<char>,
    place: int,
) -> bool {
    &&& 0 <= place < operations.len()
    &&& operations[place].key@ == key
    &&& forall|k: int| 0 <= k < place ==> (#[trigger] operations[k]).key@ != key
}

/// Whether a key does not stand in a ledger.
pub open spec fn input_key_is_free(
    operations: Seq<HandoffInputOperation>,
    key: Seq<char>,
) -> bool {
    forall|k: int| 0 <= k < operations.len() ==> (#[trigger] operations[k]).key@ != key
}

/// Whether `r` refuses an Input that was not applied, for this reason.
pub open spec fn refuses_input(
    r: Result<InputAdmission, ControlFailure>,
    code: ErrorCode,
    message: Seq<char>,
) -> bool {
    r matches Err(failure) && failure.disposition == CommandDisposition::NotApplied
        && failure.error.says(code, message)
}

/// Whether `r` answers a recoverable Input: the same request with the same key
/// is a retry, a key belongs to one request, and new bytes follow the applied
/// ones.
pub open spec fn answers_input(
    state: HandoffInputState,
    key: OperationKey,
    expected_byte: u64,
    data: Seq<u8>,
    r: Result<InputAdmission, ControlFailure>,
) -> bool {
    if key.defect is Some {
        refuses_input(r, ErrorCode::InvalidRequest, key.defect->0@)
    } else if !input_key_is_free(state.operations@, key@) {
        forall|place: int| #[trigger]
            is_input_place(state.operations@, key@, place) ==> {
                let earlier = state.operations@[place];
                if earlier.expected_byte == expected_byte && earlier.data@ == data {
                    r == Ok::<InputAdmission, ControlFailure>(InputAdmission::Retry(earlier.range))
                } else {
                    refuses_input(
                        r,
                        ErrorCode::InvalidRequest,
                        "recoverable Input key belongs to another request"@,
                    )
                }
            }
    } else if let Some(failure) = state.input_failure {
        refuses_input(r, failure.code, failure.message@)
    } else if expected_byte != state.applied_input_bytes {
        refuses_input(
            r,
            ErrorCode::InvalidRequest,
            "native Input cursor is "@ + decimal(state.applied_input_bytes as nat),
        )
    } else if expected_byte + data.len() > u64::MAX {
        refuses_input(r, ErrorCode::InvalidRequest, "native Input cursor overflows"@)
    } else {
        r == Ok::<InputAdmission, ControlFailure>(InputAdmission::Apply)
    }
}

fn same_bytes(a: &Vec<u8>, b: &Vec<u8>) -> (r: bool)
    ensures
        r == (a@ == b@),
{
    if a.len() != b.len() {
        return false;
    }
    let mut i: usize = 0;
    while i < a.len()
        invariant
            a@.len() == b@.len(),
            i <= a@.len(),
            forall|k: int| 0 <= k < i ==> a@[k] == b@[k],
        decreases a@.len() - i,
    {
        if a[i] != b[i] {
            return false;
        }
        i = i + 1;
    }
    assert(a@ =~= b@);
    true
}

fn not_applied(code: ErrorCode, message: &str) -> (r: Result<InputAdmission, ControlFailure>)
    ensures
        refuses_input(r, code, message@),
{
    Err(control_failure_not_applied(protocol_error(code, message)))
}

/// The operation that some written bytes become.
pub open spec fn written_operation(
    key: OperationKey,
    start_byte: u64,
    data: Vec<u8>,
) -> HandoffInputOperation {
    HandoffInputOperation {
        key,
        expected_byte: start_byte,
        data,
        range: AppliedInputRange { start_byte, end_byte: (start_byte + data@.len()) as u64 },
    }
}

impl HandoffInputState {
    /// Decide about a recoverable Input before anything is written.
    pub fn begin_recoverable_input(
        &self,
        key: &OperationKey,
        expected_byte: u64,
        data: &Vec<u8>,
    ) -> (r: Result<InputAdmission, ControlFailure>)
        ensures
            answers_input(*self, *key, expected_byte, data@, r),
    {
        if let Some(defect) = &key.defect {
            return not_applied(ErrorCode::InvalidRequest, defect.as_str());
        }
        let mut i: usize = 0;
        while i < self.operations.len()
            invariant
                key.defect is None,
                i <= self.operations@.len(),
                forall|k: int| 0 <= k < i ==> (#[trigger] self.operations@[k]).key@ != key@,
            decreases self.operations@.len() - i,
        {
            let earlier = &self.operations[i];
            if earlier.key.same(key) {
                assert(!input_key_is_free(self.operations@, key@));
                assert forall|place: int| #[trigger]
                    is_input_place(self.operations@, key@, place) implies place == i by {
                    assert(self.operations@[place].key@ == key@);
                    assert(self.operations@[i as int].key@ == key@);
                }
                if earlier.expected_byte == expected_byte && same_bytes(&earlier.data, data) {
                    return Ok(InputAdmission::Retry(earlier.range));
                }
                return not_applied(
                    ErrorCode::InvalidRequest,
                    "recoverable Input key belongs to another request",
                );
            }
            i = i + 1;
        }
        if let Some(failure) = &self.input_failure {
            return not_applied(failure.code, failure.message.as_str());
        }
        if expected_byte != self.applied_input_bytes {
            let cursor = decimal_text(self.applied_input_bytes);
            let message = joined("native Input cursor is ", cursor.as_str());
            return Err(
                control_failure_not_applied(
                    ProtocolError::new(ErrorCode::InvalidRequest, message),
                ),
            );
        }
        if data.len() as u64 > u64::MAX - expected_byte {
            return not_applied(ErrorCode::InvalidRequest, "native Input cursor overflows");
        }
        Ok(InputAdmission::Apply)
    }

    /// Record bytes that were written without a key.
    pub fn advance(&mut self, written: u64)
        requires
            old(self).applied_input_bytes + written <= u64::MAX,
        ensures
            *final(self) == (HandoffInputState {
                applied_input_bytes: (old(self).applied_input_bytes + written) as u64,
                ..*old(self)
            }),
    {
        self.applied_input_bytes = self.applied_input_bytes + written;
    }

    /// Record a recoverable Input that was written. The oldest results leave
    /// where more is retained than a Run may retain.
    pub fn record_input(&mut self, key: OperationKey, data: Vec<u8>) -> (r: AppliedInputRange)
        requires
            old(self).applied_input_bytes + data@.len() <= u64::MAX,
            operation_bytes(old(self).operations@) + data@.len() <= usize::MAX,
        ensures
            ({
                let operation = written_operation(key, old(self).applied_input_bytes, data);
                let all = old(self).operations@.push(operation);
                &&& r == operation.range
                &&& final(self).applied_input_bytes == operation.range.end_byte
                &&& final(self).input_failure == old(self).input_failure
                &&& final(self).operations@ == shed_operations(
                    all,
                    operation_bytes(all),
                    INPUT_RESULT_MAX_REQUEST_BYTES as int,
                )
            }),
    {
        let start_byte: u64 = self.applied_input_bytes;
        let end_byte: u64 = start_byte + data.len() as u64;
        let range = AppliedInputRange { start_byte, end_byte };
        let ghost before = self.operations@;
        let ghost operation = written_operation(key, start_byte, data);
        self.operations.push(HandoffInputOperation { key, expected_byte: start_byte, data, range });
        self.applied_input_bytes = end_byte;
        let ghost all = before.push(operation);
        proof {
            assert(self.operations@ =~= all);
            assert(all.drop_last() =~= before);
            assert(operation_bytes(all) == operation_bytes(before) + data@.len());
            lemma_operation_bytes_nonnegative(all);
        }
        let mut total: usize = self.retained_request_bytes();
        while total > INPUT_RESULT_MAX_REQUEST_BYTES && self.operations.len() > 0
            invariant
                self.applied_input_bytes == end_byte,
                self.input_failure == old(self).input_failure,
                total == operation_bytes(self.operations@),
                shed_operations(
                    self.operations@,
                    total as int,
                    INPUT_RESULT_MAX_REQUEST_BYTES as int,
                ) == shed_operations(
                    all,
                    operation_bytes(all),
                    INPUT_RESULT_MAX_REQUEST_BYTES as int,
                ),
            decreases self.operations@.len(),
        {
            proof {
                lemma_operation_bytes_first(self.operations@);
                lemma_operation_bytes_nonnegative(self.operations@.drop_first());
            }
            total = total - self.shed_oldest_operation();
        }
        range
    }
}

proof fn lemma_operations_stay_sound(
    operations: Seq<HandoffInputOperation>,
    operation: HandoffInputOperation,
    before: u64,
    after: u64,
    count: int,
)
    requires
        before <= after,
        0 <= count <= operations.len(),
        operations_defect(operations, before, count) is None,
    ensures
        operations_defect(operations.push(operation), after, count) is None,
    decreases count,
{
    if count > 0 {
        lemma_operations_stay_sound(operations, operation, before, after, count - 1);
        let all = operations.push(operation);
        let place = count - 1;
        assert(all[place] == operations[place]);
        assert(operation_defect(operations, before, place) is None);
        if exists|k: int| 0 <= k < place && (#[trigger] all[k]).key@ == all[place].key@ {
            let k = choose|k: int| 0 <= k < place && (#[trigger] all[k]).key@ == all[place].key@;
            assert(operations[k].key@ == operations[place].key@);
        }
    }
}

/// Whatever is written, the ledger of a Run can be adopted by the next image.
pub proof fn law_recorded_input_stays_adoptable(
    before: HandoffInputState,
    key: OperationKey,
    data: Vec<u8>,
    after: HandoffInputState,
)
    requires
        input_defect(before) is None,
        key.defect is None,
        input_key_is_free(before.operations@, key@),
        before.applied_input_bytes + data@.len() <= u64::MAX,
        after.applied_input_bytes == before.applied_input_bytes + data@.len(),
        after.input_failure == before.input_failure,
        ({
            let all = before.operations@.push(
                written_operation(key, before.applied_input_bytes, data),
            );
            after.operations@ == shed_operations(
                all,
                operation_bytes(all),
                INPUT_RESULT_MAX_REQUEST_BYTES as int,
            )
        }),
    ensures
        input_defect(after) is None,
{
    let operation = written_operation(key, before.applied_input_bytes, data);
    let all = before.operations@.push(operation);
    let last = before.operations@.len() as int;
    lemma_operations_stay_sound(
        before.operations@,
        operation,
        before.applied_input_bytes,
        after.applied_input_bytes,
        last,
    );
    assert(all[last] == operation);
    if exists|k: int| 0 <= k < last && (#[trigger] all[k]).key@ == operation.key@ {
        let k = choose|k: int| 0 <= k < last && (#[trigger] all[k]).key@ == operation.key@;
        assert(before.operations@[k].key@ == key@);
    }
    assert(operations_defect(all, after.applied_input_bytes, last + 1) is None);
    let removed = lemma_shed_operations_is_a_suffix(
        all,
        operation_bytes(all),
        INPUT_RESULT_MAX_REQUEST_BYTES as int,
    );
    lemma_suffix_of_valid_operations(
        all,
        after.applied_input_bytes,
        removed,
        after.operations@.len() as int,
    );
}

/// A retry gets the range of its first attempt as long as the result is
/// retained, and no key writes twice.
pub proof fn law_an_input_is_written_once(
    state: HandoffInputState,
    place: int,
    key: OperationKey,
    expected_byte: u64,
    data: Seq<u8>,
    r: Result<InputAdmission, ControlFailure>,
)
    requires
        is_input_place(state.operations@, key@, place),
        key.defect is None,
        answers_input(state, key, expected_byte, data, r),
    ensures
        !(r matches Ok(InputAdmission::Apply)),
        state.operations@[place].expected_byte == expected_byte && state.operations@[place].data@
            == data ==> r == Ok::<InputAdmission, ControlFailure>(
            InputAdmission::Retry(state.operations@[place].range),
        ),
{
    assert(!input_key_is_free(state.operations@, key@));
}

} // verus!
