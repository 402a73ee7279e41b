//! Keeping a process suspended, and resuming it exactly once.
use crate::util::error::QuickResumeError;
use crate::util::text::{hex, push_hex};
use vstd::prelude::*;

verus! {

/// A suspended process that has to be resumed. Whoever lets go of a guard that
/// still owes a resume makes one more attempt at it.
#[derive(Debug)]
pub struct SuspendGuard {
    pub resumed: bool,
}

/// The text of the error for a call that was answered by a failure status.
pub open spec fn status_text(call: Seq<char>, status: i32) -> Seq<char> {
    call + " failed: NTSTATUS=0x"@ + hex(status as u32 as nat, 8)
}

fn status_error(call: &str, status: i32) -> (e: QuickResumeError)
    ensures
        e.is_other(status_text(call@, status)),
{
    let mut text = call.to_string();
    text.append(" failed: NTSTATUS=0x");
    let bits: u32 = #[verifier::truncate] (status as u32);
    push_hex(&mut text, bits as u64, 8);
    QuickResumeError::Other(text)
}

impl SuspendGuard {
    /// A resume is still due.
    pub open spec fn owes_resume(self) -> bool {
        !self.resumed
    }

    /// A guard for a process whose suspension was answered by `status`; a
    /// negative status is a failure.
    pub fn suspend(status: i32) -> (r: Result<SuspendGuard, QuickResumeError>)
        ensures
            status >= 0 ==> (r matches Ok(guard) && guard.owes_resume()),
            status < 0 ==> (r matches Err(e) && e.is_other(
                status_text("NtSuspendProcess"@, status),
            )),
    {
        if status < 0 {
            return Err(status_error("NtSuspendProcess", status));
        }
        Ok(SuspendGuard { resumed: false })
    }

    /// Whether the process is to be resumed, by a call or on letting go of the
    /// guard.
    pub fn needs_resume(&self) -> (r: bool)
        ensures
            r == self.owes_resume(),
    {
        !self.resumed
    }

    /// Takes the status that answered a resume. A failed one is still due. Once
    /// the process is resumed, nothing more happens.
    pub fn resume(&mut self, status: i32) -> (r: Result<(), QuickResumeError>)
        ensures
            final(self).owes_resume() == (old(self).owes_resume() && status < 0),
            r is Ok <==> !final(self).owes_resume(),
            r matches Err(e) ==> e.is_other(status_text("NtResumeProcess"@, status)),
    {
        if !self.resumed {
            if status < 0 {
                return Err(status_error("NtResumeProcess", status));
            }
            self.resumed = true;
        }
        Ok(())
    }
}

/// Whether a resume is still due after attempts that were answered by these
/// statuses.
pub open spec fn owes_after(statuses: Seq<i32>) -> bool
    decreases statuses.len(),
{
    if statuses.len() == 0 {
        true
    } else {
        owes_after(statuses.drop_last()) && statuses.last() < 0
    }
}

/// A resume is due until one succeeds, and never again after that.
pub proof fn resume_is_due_until_one_succeeds(statuses: Seq<i32>)
    ensures
        owes_after(statuses) <==> forall|i: int|
            0 <= i < statuses.len() ==> #[trigger] statuses[i] < 0,
    decreases statuses.len(),
{
    if statuses.len() > 0 {
        let before = statuses.drop_last();
        resume_is_due_until_one_succeeds(before);
        if owes_after(statuses) {
            assert forall|i: int| 0 <= i < statuses.len() implies #[trigger] statuses[i] < 0 by {
                if i < before.len() {
                    assert(before[i] < 0);
                }
            }
        } else if owes_after(before) {
            assert(statuses[statuses.len() - 1] >= 0);
        } else {
            let i = choose|i: int| 0 <= i < before.len() && !(#[trigger] before[i] < 0);
            assert(statuses[i] >= 0);
        }
    }
}

} // verus!
