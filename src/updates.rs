use vstd::prelude::*;
use crate::types::{EntityUpdate, Event, OperationType};
use vstd::string::StrSliceExecFns;

verus! {

/// Whether an event reports a newly created mail.
pub open spec fn is_new_mail(e: Event) -> bool {
    e.operation == OperationType::Create && e.event_type@ == "Mail"@
}

/// Whether a live update reports at least one newly created mail, which
/// calls for fetching the inbox again.
pub fn has_new_mail(update: &EntityUpdate) -> (r: bool)
    ensures
        r == exists|i: int|
            0 <= i < update.event_batch@.len() && is_new_mail(#[trigger] update.event_batch@[i]),
{
    let mail_type = "Mail".to_owned();
    let mut i: usize = 0;
    while i < update.event_batch.len()
        invariant
            i <= update.event_batch@.len(),
            mail_type@ == "Mail"@,
            forall|j: int| 0 <= j < i ==> !is_new_mail(#[trigger] update.event_batch@[j]),
        decreases update.event_batch@.len() - i,
    {
        let event = &update.event_batch[i];
        if event.operation == OperationType::Create && event.event_type == mail_type {
            return true;
        }
        i += 1;
    }
    false
}

/// The name of the frames that carry entity updates.
pub const ENTITY_UPDATE: &'static str = "entityUpdate";

/// Whether `s` splits at `i`: `s[i]` is the first `c` in `s`.
pub open spec fn first_occurrence(s: Seq<char>, c: char, i: int) -> bool {
    0 <= i < s.len() && s[i] == c && forall|j: int| 0 <= j < i ==> #[trigger] s[j] != c
}

/// The payload of a text frame of the live-update socket, when the frame is
/// an entity update (`entityUpdate;<payload>`); other frames are ignored.
/// The scan for the first `;` stops once the name is longer than
/// `entityUpdate`.
pub fn entity_update_payload(text: &str) -> (r: Option<String>)
    ensures
        match r {
            Some(p) => exists|i: int|
                first_occurrence(text@, ';', i) && text@.subrange(0, i) == ENTITY_UPDATE@ && p@
                    == text@.subrange(i + 1, text@.len() as int),
            None => forall|i: int|
                first_occurrence(text@, ';', i) ==> text@.subrange(0, i) != ENTITY_UPDATE@,
        },
{
    let n = text.unicode_len();
    let limit = ENTITY_UPDATE.unicode_len();
    let mut i: usize = 0;
    while i < n && i <= limit
        invariant
            i <= n,
            n == text@.len(),
            limit == ENTITY_UPDATE@.len(),
            forall|j: int| 0 <= j < i ==> #[trigger] text@[j] != ';',
        decreases n - i,
    {
        if text.get_char(i) == ';' {
            assert(first_occurrence(text@, ';', i as int));
            let name = text.substring_char(0, i).to_owned();
            let expected = ENTITY_UPDATE.to_owned();
            if name == expected {
                return Some(text.substring_char(i + 1, n).to_owned());
            }
            proof {
                assert forall|k: int| first_occurrence(text@, ';', k) implies text@.subrange(0, k)
                    != ENTITY_UPDATE@ by {
                    if k < i {
                        assert(text@[k] != ';');
                    } else if k > i {
                        assert(text@[i as int] != ';');
                    }
                }
            }
            return None;
        }
        i += 1;
    }
    proof {
        assert forall|k: int| first_occurrence(text@, ';', k) implies text@.subrange(0, k)
            != ENTITY_UPDATE@ by {
            if k < i {
                assert(text@[k] != ';');
            } else {
                assert(text@.subrange(0, k).len() > limit);
            }
        }
    }
    None
}

} // verus!
