//! The operations on the registry of targets: add, remove, list and purge.
//!
//! Each operation is given the content of the registry file and decides
//! what is reported and what is done to the file; reading the file, asking
//! the user and writing are left to the caller.

use vstd::prelude::*;
use crate::entry::{entry_line, entry_of, entry_text, has_name, name_field, read_entry};
use crate::file_action::{FileAction, FileChange, Report};
use crate::lines::{join_lines, lines_of, split_lines, text_of};
use crate::text::{chars_of, push_char};

verus! {

/// The name fields of `lines`.
pub open spec fn names_of(lines: Seq<Seq<char>>) -> Seq<Seq<char>> {
    lines.map_values(|line: Seq<char>| name_field(line))
}

/// The position of the first line whose name field is `name`, if there is
/// one.
pub open spec fn target_index(lines: Seq<Seq<char>>, name: Seq<char>) -> Option<int> {
    names_of(lines).index_of_first(name)
}

/// How an attempt to add a target ended.
#[derive(Clone, Copy, Debug, PartialEq, Eq, Structural)]
pub enum AddOutcome {
    /// The name was new: its entry goes after the others.
    Added,
    /// The name exists and nobody was asked yet whether to update it.
    NeedsConfirmation,
    /// The name exists and its line is replaced.
    Updated,
    /// The name exists and the update was declined.
    NotUpdated,
}

impl AddOutcome {
    /// What the user is told: the result, or the question that is to be
    /// answered first.
    pub open spec fn message_text(self) -> Seq<char> {
        match self {
            AddOutcome::Added => "Target added"@,
            AddOutcome::NeedsConfirmation =>
                "The entry already exists, would you like to update it? y/n"@,
            AddOutcome::Updated => "Target updated"@,
            AddOutcome::NotUpdated => "Target not updated"@,
        }
    }

    /// What the user is told: the result, or the question that is to be
    /// answered first.
    pub fn message(self) -> (text: String)
        ensures
            text@ == self.message_text(),
    {
        match self {
            AddOutcome::Added => "Target added".to_owned(),
            AddOutcome::NeedsConfirmation =>
                "The entry already exists, would you like to update it? y/n".to_owned(),
            AddOutcome::Updated => "Target updated".to_owned(),
            AddOutcome::NotUpdated => "Target not updated".to_owned(),
        }
    }
}

/// What adding `name` reports, for the lines of the registry and the
/// answer to the question whether an existing entry is to be updated.
pub open spec fn add_outcome(lines: Seq<Seq<char>>, name: Seq<char>, answer: Option<bool>) -> AddOutcome {
    match target_index(lines, name) {
        None => AddOutcome::Added,
        Some(_) => match answer {
            None => AddOutcome::NeedsConfirmation,
            Some(true) => AddOutcome::Updated,
            Some(false) => AddOutcome::NotUpdated,
        },
    }
}

/// What adding `address` under `name` does to the file. A new name has its
/// entry appended. An existing one has the first line with that name
/// replaced, and the file written anew from its lines, if the answer is
/// yes; otherwise the file is kept.
pub open spec fn add_action(
    lines: Seq<Seq<char>>,
    name: Seq<char>,
    address: Seq<char>,
    answer: Option<bool>,
) -> FileChange {
    match target_index(lines, name) {
        None => FileChange::Append(entry_line(name, address).push('\n')),
        Some(i) => if answer == Some(true) {
            FileChange::Replace(text_of(lines.update(i, entry_line(name, address))))
        } else {
            FileChange::Keep
        },
    }
}

/// The position of the first line whose name field is `name`.
pub fn find_target(lines: &Vec<String>, name: &str) -> (r: Option<usize>)
    ensures
        r is None <==> target_index(lines.deep_view(), name@) is None,
        r matches Some(i) ==> i < lines.len() && target_index(lines.deep_view(), name@) == Some(
            i as int,
        ),
{
    let wanted = chars_of(name);
    let ghost names = names_of(lines.deep_view());
    let mut i: usize = 0;
    while i < lines.len()
        invariant
            i <= lines.len(),
            wanted@ == name@,
            names == names_of(lines.deep_view()),
            forall|j: int| 0 <= j < i ==> names[j] != name@,
        decreases lines.len() - i,
    {
        if has_name(lines[i].as_str(), &wanted) {
            proof {
                names.index_of_first_ensures(name@);
                assert(names[i as int] == name@);
            }
            return Some(i);
        }
        i += 1;
    }
    proof {
        names.index_of_first_ensures(name@);
    }
    None
}

/// Adds `address` under `name` to the registry whose file holds `content`.
///
/// `answer` is the user's answer to the question whether an existing entry
/// is to be updated, or `None` while the question has not been asked. It
/// is looked at only where the name exists.
pub fn add_target(content: &str, name: &str, address: &str, answer: Option<bool>) -> (r: Report<
    AddOutcome,
>)
    ensures
        r.outcome == add_outcome(lines_of(content@), name@, answer),
        r.action@ == add_action(lines_of(content@), name@, address@, answer),
{
    let mut lines = split_lines(content);
    let mut line = entry_text(name, address);
    match find_target(&lines, name) {
        None => {
            push_char(&mut line, '\n');
            Report { outcome: AddOutcome::Added, action: FileAction::Append(line) }
        },
        Some(i) => match answer {
            None => Report { outcome: AddOutcome::NeedsConfirmation, action: FileAction::Keep },
            Some(false) => Report { outcome: AddOutcome::NotUpdated, action: FileAction::Keep },
            Some(true) => {
                let ghost before = lines.deep_view();
                lines.set(i, line);
                assert(lines.deep_view() =~= before.update(
                    i as int,
                    entry_line(name@, address@),
                ));
                Report { outcome: AddOutcome::Updated, action: FileAction::Replace(join_lines(&lines)) }
            },
        },
    }
}

/// How an attempt to remove a target ended.
#[derive(Clone, Copy, Debug, PartialEq, Eq, Structural)]
pub enum RemoveOutcome {
    /// Every line with the name is gone.
    Removed,
    /// No line has the name.
    NotFound,
}

impl RemoveOutcome {
    /// What the user is told.
    pub open spec fn message_text(self) -> Seq<char> {
        match self {
            RemoveOutcome::Removed => "Target removed"@,
            RemoveOutcome::NotFound => "Target not found"@,
        }
    }

    /// What the user is told.
    pub fn message(self) -> (text: String)
        ensures
            text@ == self.message_text(),
    {
        match self {
            RemoveOutcome::Removed => "Target removed".to_owned(),
            RemoveOutcome::NotFound => "Target not found".to_owned(),
        }
    }
}

/// Holds of the lines whose name field is not `name`.
pub open spec fn other_than(name: Seq<char>) -> spec_fn(Seq<char>) -> bool {
    |line: Seq<char>| name_field(line) != name
}

/// `lines` without those whose name field is `name`, in their order.
pub open spec fn without_target(lines: Seq<Seq<char>>, name: Seq<char>) -> Seq<Seq<char>> {
    lines.filter(other_than(name))
}

/// What removing `name` reports.
pub open spec fn remove_outcome(lines: Seq<Seq<char>>, name: Seq<char>) -> RemoveOutcome {
    if target_index(lines, name) is Some {
        RemoveOutcome::Removed
    } else {
        RemoveOutcome::NotFound
    }
}

/// What removing `name` does to the file: where a line has the name, the
/// file is written anew from the other lines; otherwise it is kept.
pub open spec fn remove_action(lines: Seq<Seq<char>>, name: Seq<char>) -> FileChange {
    if target_index(lines, name) is Some {
        FileChange::Replace(text_of(without_target(lines, name)))
    } else {
        FileChange::Keep
    }
}

/// Removes `name` from the registry whose file holds `content`.
pub fn remove_target(content: &str, name: &str) -> (r: Report<RemoveOutcome>)
    ensures
        r.outcome == remove_outcome(lines_of(content@), name@),
        r.action@ == remove_action(lines_of(content@), name@),
{
    let lines = split_lines(content);
    let wanted = chars_of(name);
    let ghost all = lines.deep_view();
    let ghost names = names_of(all);
    let mut kept: Vec<String> = Vec::new();
    let mut found = false;
    let mut i: usize = 0;
    proof {
        reveal(Seq::filter);
        assert(all.take(0) =~= Seq::<Seq<char>>::empty());
        assert(kept.deep_view() =~= without_target(all.take(0), name@));
    }
    while i < lines.len()
        invariant
            i <= lines.len(),
            wanted@ == name@,
            all == lines.deep_view(),
            names == names_of(all),
            kept.deep_view() == without_target(all.take(i as int), name@),
            found <==> exists|j: int| 0 <= j < i && names[j] == name@,
        decreases lines.len() - i,
    {
        let ghost before = kept.deep_view();
        proof {
            assert(all.take(i + 1) =~= all.take(i as int).push(all[i as int]));
            all.take(i as int).lemma_filter_push(all[i as int], other_than(name@));
        }
        if has_name(lines[i].as_str(), &wanted) {
            assert(names[i as int] == name@);
            found = true;
        } else {
            kept.push(lines[i].clone());
            assert(kept.deep_view() =~= before.push(all[i as int]));
        }
        i += 1;
    }
    proof {
        assert(all.take(i as int) =~= all);
        names.index_of_first_ensures(name@);
        if found {
            let j = choose|j: int| 0 <= j < names.len() && names[j] == name@;
            assert(names.contains(name@));
        }
    }
    if found {
        Report { outcome: RemoveOutcome::Removed, action: FileAction::Replace(join_lines(&kept)) }
    } else {
        Report { outcome: RemoveOutcome::NotFound, action: FileAction::Keep }
    }
}

/// One item of what listing the registry puts out, in the order of output.
#[derive(Debug, PartialEq, Eq)]
pub enum ListEvent {
    /// The heading that stands before the first target.
    Header,
    /// A well-formed entry.
    Target { name: String, address: String },
    /// A line that is no well-formed entry: a warning, not a target.
    Invalid { line: String },
    /// The empty line that closes a listing with targets.
    Footer,
    /// The notice that the registry holds no target.
    NoTargets,
}

/// A `ListEvent` with its texts as character sequences.
pub enum ListItem {
    Header,
    Target { name: Seq<char>, address: Seq<char> },
    Invalid { line: Seq<char> },
    Footer,
    NoTargets,
}

impl DeepView for ListEvent {
    type V = ListItem;

    open spec fn deep_view(&self) -> ListItem {
        match self {
            ListEvent::Header => ListItem::Header,
            ListEvent::Target { name, address } => ListItem::Target {
                name: name@,
                address: address@,
            },
            ListEvent::Invalid { line } => ListItem::Invalid { line: line@ },
            ListEvent::Footer => ListItem::Footer,
            ListEvent::NoTargets => ListItem::NoTargets,
        }
    }
}

impl ListItem {
    /// The text that is put out for the item: a target as `name: address`.
    pub open spec fn text(self) -> Seq<char> {
        match self {
            ListItem::Header => "\nCurrent targets\n"@,
            ListItem::Target { name, address } => name + ": "@ + address,
            ListItem::Invalid { line } => "Invalid target entry: "@ + line,
            ListItem::Footer => Seq::empty(),
            ListItem::NoTargets => "No current targets"@,
        }
    }
}

impl ListEvent {
    /// The text that is put out for the event: a target as `name: address`.
    pub fn text(&self) -> (text: String)
        ensures
            text@ == self.deep_view().text(),
    {
        match self {
            ListEvent::Header => "\nCurrent targets\n".to_owned(),
            ListEvent::Target { name, address } => {
                let mut text = name.clone();
                text.append(": ");
                text.append(address.as_str());
                text
            },
            ListEvent::Invalid { line } => {
                let mut text = "Invalid target entry: ".to_owned();
                text.append(line.as_str());
                text
            },
            ListEvent::Footer => String::new(),
            ListEvent::NoTargets => "No current targets".to_owned(),
        }
    }
}

/// What listing puts out for one line: the target it records, or the
/// warning that it is invalid.
pub open spec fn item_of(line: Seq<char>) -> ListItem {
    match entry_of(line) {
        Some((name, address)) => ListItem::Target { name, address },
        None => ListItem::Invalid { line },
    }
}

/// What listing puts out for each of `lines`.
pub open spec fn items_of(lines: Seq<Seq<char>>) -> Seq<ListItem> {
    lines.map_values(|line: Seq<char>| item_of(line))
}

/// For each of `lines`, whether it is a well-formed entry.
pub open spec fn entries_in(lines: Seq<Seq<char>>) -> Seq<bool> {
    lines.map_values(|line: Seq<char>| entry_of(line) is Some)
}

/// The whole output of listing `lines`. Every line gives one item, in the
/// order of the lines. Where a line is a well-formed entry, the heading
/// stands before the first such line and the footer closes the listing;
/// where none is, the notice that there are no targets closes it.
pub open spec fn listing(lines: Seq<Seq<char>>) -> Seq<ListItem> {
    match entries_in(lines).index_of_first(true) {
        Some(k) => (items_of(lines).take(k).push(ListItem::Header) + items_of(lines).skip(
            k,
        )).push(ListItem::Footer),
        None => items_of(lines).push(ListItem::NoTargets),
    }
}

/// Lists the registry whose file holds `content`.
pub fn list_targets(content: &str) -> (events: Vec<ListEvent>)
    ensures
        events.deep_view() == listing(lines_of(content@)),
{
    let lines = split_lines(content);
    let ghost all = lines.deep_view();
    let ghost items = items_of(all);
    let ghost entries = entries_in(all);
    let mut events: Vec<ListEvent> = Vec::new();
    let mut has_entries = false;
    let ghost mut first: int = 0;
    let mut i: usize = 0;
    assert(events.deep_view() =~= items.take(0));
    while i < lines.len()
        invariant
            i <= lines.len(),
            all == lines.deep_view(),
            items == items_of(all),
            entries == entries_in(all),
            !has_entries ==> events.deep_view() == items.take(i as int),
            !has_entries ==> forall|j: int| 0 <= j < i ==> !entries[j],
            has_entries ==> 0 <= first < i && entries[first] && forall|j: int|
                0 <= j < first ==> !entries[j],
            has_entries ==> events.deep_view() == items.take(first).push(ListItem::Header)
                + items.subrange(first, i as int),
        decreases lines.len() - i,
    {
        let ghost before = events.deep_view();
        match read_entry(lines[i].as_str()) {
            Some((name, address)) => {
                if !has_entries {
                    events.push(ListEvent::Header);
                    has_entries = true;
                    proof {
                        first = i as int;
                    }
                }
                let ghost middle = events.deep_view();
                events.push(ListEvent::Target { name, address });
                proof {
                    assert(entries[i as int]);
                    assert(middle =~= items.take(first).push(ListItem::Header) + items.subrange(
                        first,
                        i as int,
                    ));
                    assert(events.deep_view() =~= middle.push(items[i as int]));
                    assert(events.deep_view() =~= items.take(first).push(ListItem::Header)
                        + items.subrange(first, i + 1));
                }
            },
            None => {
                events.push(ListEvent::Invalid { line: lines[i].clone() });
                proof {
                    assert(!entries[i as int]);
                    assert(events.deep_view() =~= before.push(items[i as int]));
                    if has_entries {
                        assert(events.deep_view() =~= items.take(first).push(ListItem::Header)
                            + items.subrange(first, i + 1));
                    } else {
                        assert(events.deep_view() =~= items.take(i + 1));
                    }
                }
            },
        }
        i += 1;
    }
    let ghost before = events.deep_view();
    proof {
        entries.index_of_first_ensures(true);
        assert(items.take(i as int) =~= items);
        if has_entries {
            assert(entries.contains(true));
            assert(entries.index_of_first(true) == Some(first));
            assert(items.subrange(first, i as int) =~= items.skip(first));
        }
    }
    if has_entries {
        events.push(ListEvent::Footer);
        assert(events.deep_view() =~= before.push(ListItem::Footer));
    } else {
        events.push(ListEvent::NoTargets);
        assert(events.deep_view() =~= before.push(ListItem::NoTargets));
    }
    events
}

/// How an attempt to purge the registry ended.
#[derive(Clone, Copy, Debug, PartialEq, Eq, Structural)]
pub enum PurgeOutcome {
    /// Nobody was asked yet whether to erase all entries.
    NeedsConfirmation,
    /// All entries are erased.
    Purged,
    /// The purge was declined.
    Aborted,
}

impl PurgeOutcome {
    /// What the user is told: the result, or the question that is to be
    /// answered first.
    pub open spec fn message_text(self) -> Seq<char> {
        match self {
            PurgeOutcome::NeedsConfirmation =>
                "Warning: This action will erase all entries. Proceed? y/n"@,
            PurgeOutcome::Purged => "Target list purged"@,
            PurgeOutcome::Aborted => "Aborting purge..."@,
        }
    }

    /// What the user is told: the result, or the question that is to be
    /// answered first.
    pub fn message(self) -> (text: String)
        ensures
            text@ == self.message_text(),
    {
        match self {
            PurgeOutcome::NeedsConfirmation =>
                "Warning: This action will erase all entries. Proceed? y/n".to_owned(),
            PurgeOutcome::Purged => "Target list purged".to_owned(),
            PurgeOutcome::Aborted => "Aborting purge...".to_owned(),
        }
    }
}

/// What purging reports, for the answer to the question whether all entries
/// are to be erased.
pub open spec fn purge_outcome(answer: Option<bool>) -> PurgeOutcome {
    match answer {
        None => PurgeOutcome::NeedsConfirmation,
        Some(true) => PurgeOutcome::Purged,
        Some(false) => PurgeOutcome::Aborted,
    }
}

/// What purging does to the file: it is emptied if the answer is yes, and
/// kept otherwise.
pub open spec fn purge_action(answer: Option<bool>) -> FileChange {
    if answer == Some(true) {
        FileChange::Replace(Seq::empty())
    } else {
        FileChange::Keep
    }
}

/// Erases all entries of the registry, if the user agreed to it.
///
/// `answer` is the user's answer to the question whether to proceed, or
/// `None` while the question has not been asked.
pub fn purge_list(answer: Option<bool>) -> (r: Report<PurgeOutcome>)
    ensures
        r.outcome == purge_outcome(answer),
        r.action@ == purge_action(answer),
{
    match answer {
        None => Report { outcome: PurgeOutcome::NeedsConfirmation, action: FileAction::Keep },
        Some(true) => Report {
            outcome: PurgeOutcome::Purged,
            action: FileAction::Replace(String::new()),
        },
        Some(false) => Report { outcome: PurgeOutcome::Aborted, action: FileAction::Keep },
    }
}

} // verus!
