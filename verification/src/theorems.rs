//! What holds of the registry operations, stated over the lines of the
//! file before and after.

use vstd::prelude::*;
use crate::command_functions::{
    add_action, add_outcome, entries_in, items_of, listing, names_of, other_than, purge_action,
    purge_outcome, remove_action, remove_outcome, target_index, without_target, AddOutcome,
    ListItem, PurgeOutcome, RemoveOutcome,
};
use crate::entry::{
    entry_line, entry_of, is_address, is_name, lemma_entry_of_entry_line,
    lemma_name_field_of_entry_line, name_field,
};
use crate::file_action::FileChange;
use crate::lines::{
    all_lines, is_line, lemma_lines_of_concat, lemma_lines_of_one, lemma_lines_of_text_of,
    lemma_text_of_lines_of, lemma_text_of_well_formed, lemma_well_formed_append, lines_of,
    well_formed,
};

verus! {

/// No two of `lines` have the same name field.
pub open spec fn unique_names(lines: Seq<Seq<char>>) -> bool {
    names_of(lines).no_duplicates()
}

/// Whether a line of `lines` has the name field `name`.
pub open spec fn holds_target(lines: Seq<Seq<char>>, name: Seq<char>) -> bool {
    exists|i: int| 0 <= i < lines.len() && name_field(#[trigger] lines[i]) == name
}

/// `target_index` finds a line exactly where one has the name, and finds
/// the first such line.
pub proof fn lemma_target_index(lines: Seq<Seq<char>>, name: Seq<char>)
    ensures
        target_index(lines, name) is Some <==> holds_target(lines, name),
        target_index(lines, name) matches Some(i) ==> {
            &&& 0 <= i < lines.len()
            &&& name_field(lines[i]) == name
            &&& forall|j: int| 0 <= j < i ==> name_field(#[trigger] lines[j]) != name
        },
{
    let names = names_of(lines);
    names.index_of_first_ensures(name);
    if holds_target(lines, name) {
        let i = choose|i: int| 0 <= i < lines.len() && name_field(#[trigger] lines[i]) == name;
        assert(names[i] == name);
        assert(names.contains(name));
    }
    if let Some(i) = target_index(lines, name) {
        assert(names[i] == name_field(lines[i]));
        assert forall|j: int| 0 <= j < i implies name_field(#[trigger] lines[j]) != name by {
            assert(names[j] == name_field(lines[j]));
        }
    }
}

/// Adding a new name appends exactly one line, the entry line of the name
/// and the address: the lines before stay, in their order, and the new
/// line follows them.
pub proof fn theorem_add_new_target(
    content: Seq<char>,
    name: Seq<char>,
    address: Seq<char>,
    answer: Option<bool>,
)
    requires
        content.len() > 0 ==> content.last() == '\n',
        is_line(entry_line(name, address)),
        !holds_target(lines_of(content), name),
    ensures
        add_outcome(lines_of(content), name, answer) == AddOutcome::Added,
        ({
            let after = add_action(lines_of(content), name, address, answer).apply(content);
            &&& after == content + entry_line(name, address).push('\n')
            &&& lines_of(after) == lines_of(content).push(entry_line(name, address))
            &&& well_formed(content) ==> well_formed(after)
        }),
{
    let line = entry_line(name, address);
    lemma_target_index(lines_of(content), name);
    lemma_lines_of_concat(content, line.push('\n'));
    lemma_lines_of_one(line);
    if well_formed(content) {
        lemma_well_formed_append(content, line);
    }
    assert(lines_of(content) + seq![line] =~= lines_of(content).push(line));
}

/// Adding a name that exists, with the update accepted, replaces the first
/// line that has the name by the entry line of the name and the address.
/// Every other line stays where it was, and the replaced line keeps its
/// name.
pub proof fn theorem_add_existing_target_accepted(
    content: Seq<char>,
    name: Seq<char>,
    address: Seq<char>,
)
    requires
        all_lines(lines_of(content)),
        is_line(entry_line(name, address)),
        holds_target(lines_of(content), name),
    ensures
        add_outcome(lines_of(content), name, Some(true)) == AddOutcome::Updated,
        ({
            let lines = lines_of(content);
            let i = target_index(lines, name)->0;
            let after = add_action(lines, name, address, Some(true)).apply(content);
            &&& 0 <= i < lines.len()
            &&& lines_of(after) == lines.update(i, entry_line(name, address))
            &&& well_formed(after)
            &&& !name.contains('=') ==> names_of(lines_of(after)) == names_of(lines)
        }),
{
    let lines = lines_of(content);
    let line = entry_line(name, address);
    lemma_target_index(lines, name);
    let i = target_index(lines, name)->0;
    let updated = lines.update(i, line);
    assert(all_lines(updated));
    lemma_lines_of_text_of(updated);
    lemma_text_of_well_formed(updated);
    if !name.contains('=') {
        lemma_name_field_of_entry_line(name, address);
        assert(names_of(updated) =~= names_of(lines));
    }
}

/// Adding a name that exists, with the update declined or not yet decided,
/// leaves the file as it is.
pub proof fn theorem_add_existing_target_declined(
    content: Seq<char>,
    name: Seq<char>,
    address: Seq<char>,
    answer: Option<bool>,
)
    requires
        holds_target(lines_of(content), name),
        answer != Some(true),
    ensures
        add_outcome(lines_of(content), name, answer) == if answer is None {
            AddOutcome::NeedsConfirmation
        } else {
            AddOutcome::NotUpdated
        },
        add_action(lines_of(content), name, address, answer) == FileChange::Keep,
        add_action(lines_of(content), name, address, answer).apply(content) == content,
{
    lemma_target_index(lines_of(content), name);
}

/// The lines that `without_target` keeps are lines of the registry, none of
/// them has the name, and where the names of the registry are unique they
/// are all lines but the one that has the name.
pub proof fn lemma_without_target(lines: Seq<Seq<char>>, name: Seq<char>)
    ensures
        !holds_target(without_target(lines, name), name),
        all_lines(lines) ==> all_lines(without_target(lines, name)),
        !holds_target(lines, name) ==> without_target(lines, name) == lines,
        unique_names(lines) && holds_target(lines, name) ==> without_target(lines, name)
            == lines.remove(target_index(lines, name)->0),
    decreases lines.len(),
{
    reveal(Seq::filter);
    let kept = without_target(lines, name);
    if lines.len() > 0 {
        let init = lines.drop_last();
        let last = lines.last();
        let kept_init = without_target(init, name);
        lemma_without_target(init, name);
        lemma_target_index(lines, name);
        lemma_target_index(init, name);
        assert(init.push(last) =~= lines);
        if holds_target(kept, name) {
            let j = choose|j: int| 0 <= j < kept.len() && name_field(#[trigger] kept[j]) == name;
            if j < kept_init.len() {
                assert(name_field(kept_init[j]) == name);
            }
        }
        if all_lines(lines) {
            assert forall|j: int| 0 <= j < init.len() implies is_line(#[trigger] init[j]) by {
                assert(init[j] == lines[j]);
            }
            assert(is_line(lines[lines.len() - 1]));
            assert forall|j: int| 0 <= j < kept.len() implies is_line(#[trigger] kept[j]) by {
                if j < kept_init.len() {
                    assert(kept[j] == kept_init[j]);
                }
            }
        }
        if !holds_target(lines, name) {
            assert(name_field(lines[lines.len() - 1]) != name);
            assert(!holds_target(init, name)) by {
                if holds_target(init, name) {
                    let j = choose|j: int|
                        0 <= j < init.len() && name_field(#[trigger] init[j]) == name;
                    assert(name_field(lines[j]) == name);
                }
            }
            assert(kept =~= lines);
        }
        if unique_names(lines) && holds_target(lines, name) {
            let names = names_of(lines);
            let i = target_index(lines, name)->0;
            assert(unique_names(init)) by {
                assert forall|a: int, b: int|
                    0 <= a < init.len() && 0 <= b < init.len() && a != b implies names_of(init)[a]
                    != names_of(init)[b] by {
                    assert(names[a] == names_of(init)[a]);
                    assert(names[b] == names_of(init)[b]);
                }
            }
            if i == lines.len() - 1 {
                assert(!holds_target(init, name)) by {
                    if holds_target(init, name) {
                        let j = choose|j: int|
                            0 <= j < init.len() && name_field(#[trigger] init[j]) == name;
                        assert(names[j] == name);
                        assert(names[i] == name);
                    }
                }
                assert(kept =~= lines.remove(i));
            } else {
                assert(name_field(init[i]) == name);
                assert(holds_target(init, name));
                assert(target_index(init, name) == Some(i)) by {
                    let k = target_index(init, name)->0;
                    if k < i {
                        assert(name_field(lines[k]) == name);
                    }
                }
                assert(name_field(last) != name) by {
                    assert(names[lines.len() - 1] == name_field(last));
                    assert(names[i] == name);
                }
                assert(kept =~= lines.remove(i));
            }
        }
    }
}

/// Removing a name that exists writes the file anew without the lines that
/// have the name; the other lines stay, in their order. Where the names of
/// the registry are unique, exactly one line is gone.
pub proof fn theorem_remove_existing_target(content: Seq<char>, name: Seq<char>)
    requires
        all_lines(lines_of(content)),
        holds_target(lines_of(content), name),
    ensures
        remove_outcome(lines_of(content), name) == RemoveOutcome::Removed,
        ({
            let lines = lines_of(content);
            let after = remove_action(lines, name).apply(content);
            &&& lines_of(after) == without_target(lines, name)
            &&& !holds_target(lines_of(after), name)
            &&& well_formed(after)
            &&& unique_names(lines) ==> lines_of(after) == lines.remove(
                target_index(lines, name)->0,
            )
        }),
{
    let lines = lines_of(content);
    lemma_target_index(lines, name);
    lemma_without_target(lines, name);
    lemma_lines_of_text_of(without_target(lines, name));
    lemma_text_of_well_formed(without_target(lines, name));
}

/// Removing a name that does not exist reports that it was not found and
/// leaves the file as it is.
pub proof fn theorem_remove_missing_target(content: Seq<char>, name: Seq<char>)
    requires
        !holds_target(lines_of(content), name),
    ensures
        remove_outcome(lines_of(content), name) == RemoveOutcome::NotFound,
        remove_action(lines_of(content), name) == FileChange::Keep,
        remove_action(lines_of(content), name).apply(content) == content,
{
    lemma_target_index(lines_of(content), name);
}

/// Listing a registry without a well-formed entry puts out one warning for
/// each line and then the notice that there are no targets: no heading, no
/// target. The empty registry gives the notice alone.
pub proof fn theorem_list_without_targets(lines: Seq<Seq<char>>)
    requires
        forall|i: int| 0 <= i < lines.len() ==> entry_of(#[trigger] lines[i]) is None,
    ensures
        listing(lines) == items_of(lines).push(ListItem::NoTargets),
        forall|i: int|
            0 <= i < lines.len() ==> #[trigger] listing(lines)[i] == (ListItem::Invalid {
                line: lines[i],
            }),
        lines.len() == 0 ==> listing(lines) == seq![ListItem::NoTargets],
{
    let entries = entries_in(lines);
    entries.index_of_first_ensures(true);
    if entries.contains(true) {
        let i = choose|i: int| 0 <= i < entries.len() && entries[i] == true;
        assert(entry_of(lines[i]) is None);
    }
    if lines.len() == 0 {
        assert(listing(lines) =~= seq![ListItem::NoTargets]);
    }
}

/// Listing a registry in which every line is a well-formed entry puts out
/// the heading, one target for each line in the order of the lines, and
/// the footer.
pub proof fn theorem_list_of_targets(lines: Seq<Seq<char>>)
    requires
        lines.len() > 0,
        forall|i: int| 0 <= i < lines.len() ==> entry_of(#[trigger] lines[i]) is Some,
    ensures
        listing(lines) == (seq![ListItem::Header] + items_of(lines)).push(ListItem::Footer),
        forall|i: int|
            0 <= i < lines.len() ==> (entry_of(lines[i]) matches Some((name, address))
                && #[trigger] items_of(lines)[i] == ListItem::Target { name, address }),
{
    let entries = entries_in(lines);
    entries.index_of_first_ensures(true);
    assert(entries[0]);
    assert(entries.contains(true));
    assert(entries.index_of_first(true) == Some(0int));
    assert(listing(lines) =~= (seq![ListItem::Header] + items_of(lines)).push(ListItem::Footer));
}

/// A declined purge leaves the file as it is; an accepted purge leaves a
/// registry without a line.
pub proof fn theorem_purge(content: Seq<char>, answer: bool)
    ensures
        !answer ==> purge_outcome(Some(answer)) == PurgeOutcome::Aborted && purge_action(
            Some(answer),
        ).apply(content) == content,
        answer ==> purge_outcome(Some(answer)) == PurgeOutcome::Purged && lines_of(
            purge_action(Some(answer)).apply(content),
        ) == Seq::<Seq<char>>::empty(),
        purge_outcome(None) == PurgeOutcome::NeedsConfirmation,
        purge_action(None).apply(content) == content,
{
}

/// Two new names added one after the other stand at the end of the
/// registry in the order in which they were added, and removing the first
/// leaves the second. Listed from an empty registry, the two give the
/// heading, both targets in that order and the footer; after the removal,
/// the heading, the second target and the footer.
pub proof fn theorem_add_add_remove(
    content: Seq<char>,
    name1: Seq<char>,
    address1: Seq<char>,
    name2: Seq<char>,
    address2: Seq<char>,
    answer1: Option<bool>,
    answer2: Option<bool>,
)
    requires
        well_formed(content),
        is_name(name1),
        is_name(name2),
        name1 != name2,
        is_address(address1),
        is_address(address2),
        is_line(entry_line(name1, address1)),
        is_line(entry_line(name2, address2)),
        !holds_target(lines_of(content), name1),
        !holds_target(lines_of(content), name2),
    ensures
        ({
            let line1 = entry_line(name1, address1);
            let line2 = entry_line(name2, address2);
            let one = add_action(lines_of(content), name1, address1, answer1).apply(content);
            let two = add_action(lines_of(one), name2, address2, answer2).apply(one);
            let three = remove_action(lines_of(two), name1).apply(two);
            &&& lines_of(two) == lines_of(content).push(line1).push(line2)
            &&& lines_of(three) == lines_of(content).push(line2)
            &&& content.len() == 0 ==> listing(lines_of(two)) == seq![
                ListItem::Header,
                ListItem::Target { name: name1, address: address1 },
                ListItem::Target { name: name2, address: address2 },
                ListItem::Footer,
            ]
            &&& content.len() == 0 ==> listing(lines_of(three)) == seq![
                ListItem::Header,
                ListItem::Target { name: name2, address: address2 },
                ListItem::Footer,
            ]
        }),
{
    let lines = lines_of(content);
    let line1 = entry_line(name1, address1);
    let line2 = entry_line(name2, address2);
    lemma_name_field_of_entry_line(name1, address1);
    lemma_name_field_of_entry_line(name2, address2);
    lemma_entry_of_entry_line(name1, address1);
    lemma_entry_of_entry_line(name2, address2);

    theorem_add_new_target(content, name1, address1, answer1);
    let one = add_action(lines, name1, address1, answer1).apply(content);
    let lines1 = lines_of(one);
    assert(!holds_target(lines1, name2)) by {
        if holds_target(lines1, name2) {
            let j = choose|j: int| 0 <= j < lines1.len() && name_field(#[trigger] lines1[j]) == name2;
            if j < lines.len() {
                assert(name_field(lines[j]) == name2);
            }
        }
    }
    theorem_add_new_target(one, name2, address2, answer2);
    let two = add_action(lines1, name2, address2, answer2).apply(one);
    let lines2 = lines_of(two);

    assert(lines2[lines.len() as int] == line1);
    assert(holds_target(lines2, name1));
    lemma_text_of_lines_of(two);
    theorem_remove_existing_target(two, name1);
    let three = remove_action(lines2, name1).apply(two);
    assert(without_target(lines2, name1) == lines.push(line2)) by {
        reveal(Seq::filter);
        lemma_without_target(lines, name1);
        lines.lemma_filter_push(line1, other_than(name1));
        lines.push(line1).lemma_filter_push(line2, other_than(name1));
    }

    if content.len() == 0 {
        assert(lines =~= Seq::<Seq<char>>::empty());
        assert(lines2 =~= seq![line1, line2]);
        theorem_list_of_targets(lines2);
        assert(listing(lines2) =~= seq![
            ListItem::Header,
            ListItem::Target { name: name1, address: address1 },
            ListItem::Target { name: name2, address: address2 },
            ListItem::Footer,
        ]);
        let lines3 = lines_of(three);
        assert(lines3 =~= seq![line2]);
        theorem_list_of_targets(lines3);
        assert(listing(lines3) =~= seq![
            ListItem::Header,
            ListItem::Target { name: name2, address: address2 },
            ListItem::Footer,
        ]);
    }
}

/// Names that are unique in the registry stay unique when a target is
/// added, whatever the answer, as long as the name holds no `=`.
pub proof fn theorem_add_keeps_names_unique(
    content: Seq<char>,
    name: Seq<char>,
    address: Seq<char>,
    answer: Option<bool>,
)
    requires
        well_formed(content),
        is_line(entry_line(name, address)),
        !name.contains('='),
        unique_names(lines_of(content)),
    ensures
        unique_names(lines_of(add_action(lines_of(content), name, address, answer).apply(content))),
{
    let lines = lines_of(content);
    let names = names_of(lines);
    lemma_target_index(lines, name);
    lemma_text_of_lines_of(content);
    if holds_target(lines, name) {
        if answer == Some(true) {
            theorem_add_existing_target_accepted(content, name, address);
        }
    } else {
        theorem_add_new_target(content, name, address, answer);
        lemma_name_field_of_entry_line(name, address);
        let after = lines.push(entry_line(name, address));
        assert(names_of(after) =~= names.push(name));
        assert forall|a: int, b: int|
            0 <= a < after.len() && 0 <= b < after.len() && a != b implies names_of(after)[a]
            != names_of(after)[b] by {
            if a < lines.len() {
                assert(names[a] == name_field(lines[a]));
            }
            if b < lines.len() {
                assert(names[b] == name_field(lines[b]));
            }
        }
    }
}

/// Names that are unique in the registry stay unique when a target is
/// removed.
pub proof fn theorem_remove_keeps_names_unique(content: Seq<char>, name: Seq<char>)
    requires
        well_formed(content),
        unique_names(lines_of(content)),
    ensures
        unique_names(lines_of(remove_action(lines_of(content), name).apply(content))),
{
    let lines = lines_of(content);
    let names = names_of(lines);
    lemma_target_index(lines, name);
    lemma_text_of_lines_of(content);
    if holds_target(lines, name) {
        theorem_remove_existing_target(content, name);
        let i = target_index(lines, name)->0;
        let after = lines.remove(i);
        assert forall|a: int, b: int|
            0 <= a < after.len() && 0 <= b < after.len() && a != b implies names_of(after)[a]
            != names_of(after)[b] by {
            let a0 = if a < i { a } else { a + 1 };
            let b0 = if b < i { b } else { b + 1 };
            assert(names_of(after)[a] == names[a0]);
            assert(names_of(after)[b] == names[b0]);
        }
    }
}

} // verus!
