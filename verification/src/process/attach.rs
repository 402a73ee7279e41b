//! Finding a process by the name of its executable.
use crate::util::error::QuickResumeError;
use crate::util::text::{eq_ignore_ascii_case, same_name};
use crate::util::wide::{wide_text, wide_to_string};
use vstd::prelude::*;

verus! {

/// A process in a list of all processes of the system, with its zero-terminated
/// executable name.
pub struct ProcessEntry {
    pub pid: u32,
    pub exe_file: Vec<u16>,
}

impl ProcessEntry {
    /// The process has this executable name, whatever the case of its letters.
    pub open spec fn matches_name(self, target_name: Seq<char>) -> bool {
        same_name(wide_text(self.exe_file@), target_name)
    }
}

/// The process found for a name.
#[derive(Debug)]
pub struct FoundProcess {
    pub pid: u32,
    /// The executable name as the system writes it.
    pub name: String,
}

/// Finds the first process in the list that has the executable name
/// `target_name`.
pub fn find_process(entries: &[ProcessEntry], target_name: &str) -> (r: Result<
    FoundProcess,
    QuickResumeError,
>)
    ensures
        match r {
            Ok(found) => exists|i: int|
                {
                    &&& 0 <= i < entries@.len()
                    &&& (#[trigger] entries@[i]).matches_name(target_name@)
                    &&& forall|j: int|
                        0 <= j < i ==> !(#[trigger] entries@[j]).matches_name(target_name@)
                    &&& found.pid == entries@[i].pid
                    &&& found.name@ == wide_text(entries@[i].exe_file@)
                },
            Err(e) => {
                &&& forall|i: int|
                    0 <= i < entries@.len() ==> !(#[trigger] entries@[i]).matches_name(target_name@)
                &&& e matches QuickResumeError::ProcessNotFound(name) && name@ == target_name@
            },
        },
{
    for i in 0..entries.len()
        invariant
            forall|j: int| 0 <= j < i ==> !(#[trigger] entries@[j]).matches_name(target_name@),
    {
        let name = wide_to_string(entries[i].exe_file.as_slice());
        if eq_ignore_ascii_case(name.as_str(), target_name) {
            assert(entries@[i as int].matches_name(target_name@));
            return Ok(FoundProcess { pid: entries[i].pid, name });
        }
    }
    Err(QuickResumeError::ProcessNotFound(target_name.to_string()))
}

/// The id of a process, if it has this executable name.
pub open spec fn pid_of(entry: ProcessEntry, target_name: Seq<char>) -> Option<u32> {
    if entry.matches_name(target_name) {
        Some(entry.pid)
    } else {
        None
    }
}

/// The ids of all processes in the list that have the executable name
/// `target_name`, in order.
pub fn find_all_pids(entries: &[ProcessEntry], target_name: &str) -> (pids: Vec<u32>)
    ensures
        pids@ == entries@.filter_map(|e: ProcessEntry| pid_of(e, target_name@)),
{
    let mut pids: Vec<u32> = Vec::new();
    assert(entries@.take(0) =~= Seq::empty());
    for i in 0..entries.len()
        invariant
            pids@ == entries@.take(i as int).filter_map(
                |e: ProcessEntry| pid_of(e, target_name@),
            ),
    {
        assert(entries@.take(i + 1).drop_last() =~= entries@.take(i as int));
        let name = wide_to_string(entries[i].exe_file.as_slice());
        if eq_ignore_ascii_case(name.as_str(), target_name) {
            pids.push(entries[i].pid);
        }
    }
    assert(entries@.take(entries.len() as int) =~= entries@);
    pids
}

/// The process found for a name is the first of all those with the name; none
/// is found exactly if there is none.
pub proof fn found_process_is_the_first(entries: Seq<ProcessEntry>, target_name: Seq<char>, i: int)
    requires
        0 <= i <= entries.len(),
        forall|j: int| 0 <= j < i ==> !(#[trigger] entries[j]).matches_name(target_name),
        i < entries.len() ==> entries[i].matches_name(target_name),
    ensures
        i < entries.len() ==> {
            let pids = entries.filter_map(|e: ProcessEntry| pid_of(e, target_name));
            pids.len() > 0 && pids[0] == entries[i].pid
        },
        i == entries.len() ==> entries.filter_map(
            |e: ProcessEntry| pid_of(e, target_name),
        ).len() == 0,
    decreases entries.len(),
{
    if entries.len() > 0 {
        let before = entries.drop_last();
        if i < before.len() {
            assert(before[i] == entries[i]);
            assert forall|j: int| 0 <= j < i implies !(#[trigger] before[j]).matches_name(
                target_name,
            ) by {
                assert(before[j] == entries[j]);
            }
            found_process_is_the_first(before, target_name, i);
        } else {
            assert forall|j: int| 0 <= j < before.len() implies !(
            #[trigger] before[j]).matches_name(target_name) by {
                assert(before[j] == entries[j]);
            }
            found_process_is_the_first(before, target_name, before.len() as int);
        }
    }
}

} // verus!
