use vstd::prelude::*;
use crate::types::{Folder, GroupType, Mail, MailFolderType, Membership};

verus! {

/// The mail lists of the inbox folders, in the order of the folders.
pub open spec fn spec_inbox_lists(folders: Seq<Folder>) -> Seq<Seq<char>>
    decreases folders.len(),
{
    if folders.len() == 0 {
        Seq::empty()
    } else {
        let prev = spec_inbox_lists(folders.drop_last());
        if folders.last().folder_type == MailFolderType::Inbox {
            prev.push(folders.last().mails@)
        } else {
            prev
        }
    }
}

/// The views of a list of strings.
pub open spec fn string_views(v: Seq<String>) -> Seq<Seq<char>> {
    v.map_values(|s: String| s@)
}

/// The mail lists of the inbox folders.
pub fn inbox_lists(folders: &Vec<Folder>) -> (r: Vec<String>)
    ensures
        string_views(r@) == spec_inbox_lists(folders@),
{
    let mut out: Vec<String> = Vec::new();
    let mut i: usize = 0;
    while i < folders.len()
        invariant
            i <= folders@.len(),
            string_views(out@) == spec_inbox_lists(folders@.subrange(0, i as int)),
        decreases folders@.len() - i,
    {
        let ghost before = out@;
        assert(folders@.subrange(0, i + 1).drop_last() =~= folders@.subrange(0, i as int));
        if folders[i].folder_type == MailFolderType::Inbox {
            out.push(folders[i].mails.clone());
            assert(string_views(out@) =~= string_views(before).push(folders@[i as int].mails@));
        }
        i += 1;
    }
    assert(folders@.subrange(0, i as int) =~= folders@);
    out
}

/// The index of the first membership in a mail group, whose mailbox the
/// client reads.
pub fn mail_membership(memberships: &Vec<Membership>) -> (r: Option<usize>)
    ensures
        match r {
            Some(i) => i < memberships@.len() && memberships@[i as int].group_type == GroupType::Mail
                && forall|j: int| 0 <= j < i ==> #[trigger] memberships@[j].group_type != GroupType::Mail,
            None => forall|j: int|
                0 <= j < memberships@.len() ==> #[trigger] memberships@[j].group_type != GroupType::Mail,
        },
{
    let mut i: usize = 0;
    while i < memberships.len()
        invariant
            i <= memberships@.len(),
            forall|j: int| 0 <= j < i ==> #[trigger] memberships@[j].group_type != GroupType::Mail,
        decreases memberships@.len() - i,
    {
        if memberships[i].group_type == GroupType::Mail {
            return Some(i);
        }
        i += 1;
    }
    None
}

/// Where the next page of a mail list starts: after the last mail of the
/// current page. An empty page ends the listing.
pub fn next_page_start(page: &Vec<Mail>) -> (r: Option<String>)
    ensures
        page@.len() == 0 ==> r is None,
        page@.len() > 0 ==> (r matches Some(s) && s@ == page@.last().id.1@),
{
    if page.len() == 0 {
        None
    } else {
        Some(page[page.len() - 1].id.1.clone())
    }
}

} // verus!
