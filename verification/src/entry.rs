//! The format of one registry line: `name=address`.

use vstd::prelude::*;
use crate::lines::is_line;
use crate::text::{chars_of, find_char, matches_at, push_char, string_of};

verus! {

/// The name field of a line: the text before its first `=`, or the whole
/// line where it holds no `=`.
pub open spec fn name_field(line: Seq<char>) -> Seq<char> {
    match line.index_of_first('=') {
        Some(k) => line.take(k),
        None => line,
    }
}

/// The line that records `address` under `name`.
pub open spec fn entry_line(name: Seq<char>, address: Seq<char>) -> Seq<char> {
    name.push('=') + address
}

/// The name and the address of a line that is a well-formed entry: it holds
/// exactly one `=`, with text on both sides of it. `None` for any other
/// line.
pub open spec fn entry_of(line: Seq<char>) -> Option<(Seq<char>, Seq<char>)> {
    match line.index_of_first('=') {
        Some(k) => {
            let name = line.take(k);
            let address = line.skip(k + 1);
            if name.len() > 0 && address.len() > 0 && !address.contains('=') {
                Some((name, address))
            } else {
                None
            }
        },
        None => None,
    }
}

/// A name that can be told apart from its address: it is not empty and
/// holds no `=`.
pub open spec fn is_name(name: Seq<char>) -> bool {
    name.len() > 0 && !name.contains('=')
}

/// An address that a well-formed entry can hold: it is not empty and holds
/// no `=`.
pub open spec fn is_address(address: Seq<char>) -> bool {
    address.len() > 0 && !address.contains('=')
}

/// The name field of an entry line is the name it was written with, as
/// long as the name holds no `=`.
pub proof fn lemma_name_field_of_entry_line(name: Seq<char>, address: Seq<char>)
    requires
        !name.contains('='),
    ensures
        entry_line(name, address).index_of_first('=') == Some(name.len() as int),
        name_field(entry_line(name, address)) == name,
{
    let line = entry_line(name, address);
    line.index_of_first_ensures('=');
    assert(line[name.len() as int] == '=');
    assert(line.contains('='));
    let k = line.index_of_first('=')->0;
    if k < name.len() {
        assert(name[k] == '=');
        assert(name.contains('='));
    }
    assert(line.take(name.len() as int) =~= name);
}

/// An entry line written from a name and an address is a well-formed entry
/// with that name and that address.
pub proof fn lemma_entry_of_entry_line(name: Seq<char>, address: Seq<char>)
    requires
        is_name(name),
        is_address(address),
    ensures
        entry_of(entry_line(name, address)) == Some((name, address)),
{
    lemma_name_field_of_entry_line(name, address);
    let line = entry_line(name, address);
    assert(line.take(name.len() as int) =~= name);
    assert(line.skip(name.len() as int + 1) =~= address);
}

/// A well-formed entry is the entry line of its name and its address.
pub proof fn lemma_entry_line_of_entry(line: Seq<char>)
    requires
        entry_of(line) is Some,
    ensures
        ({
            let (name, address) = entry_of(line)->0;
            &&& line == entry_line(name, address)
            &&& is_name(name)
            &&& is_address(address)
            &&& name == name_field(line)
        }),
{
    line.index_of_first_ensures('=');
    let k = line.index_of_first('=')->0;
    let name = line.take(k);
    let address = line.skip(k + 1);
    assert(line =~= entry_line(name, address));
    if name.contains('=') {
        let j = choose|j: int| 0 <= j < name.len() && name[j] == '=';
        assert(line[j] == '=');
    }
}

/// An entry line is read back as it was written where neither its name nor
/// its address holds a line feed and it does not end in a carriage return.
pub proof fn lemma_entry_line_is_line(name: Seq<char>, address: Seq<char>)
    requires
        !name.contains('\n'),
        !address.contains('\n'),
        address.len() > 0 ==> address.last() != '\r',
    ensures
        is_line(entry_line(name, address)),
{
    let line = entry_line(name, address);
    if line.contains('\n') {
        let j = choose|j: int| 0 <= j < line.len() && line[j] == '\n';
        if j < name.len() {
            assert(name[j] == '\n');
            assert(name.contains('\n'));
        } else {
            assert(address[j - name.len() - 1] == '\n');
            assert(address.contains('\n'));
        }
    }
}

/// The line that records `address` under `name`.
pub fn entry_text(name: &str, address: &str) -> (line: String)
    ensures
        line@ == entry_line(name@, address@),
{
    let mut line = String::new();
    line.append(name);
    push_char(&mut line, '=');
    line.append(address);
    assert(line@ =~= entry_line(name@, address@));
    line
}

/// Whether the name field of `line` is `name`.
pub fn has_name(line: &str, name: &Vec<char>) -> (r: bool)
    ensures
        r == (name_field(line@) == name@),
{
    let v = chars_of(line);
    assert(v@.skip(0) =~= v@);
    let end: usize = match find_char(&v, 0, '=') {
        Some(k) => k,
        None => v.len(),
    };
    assert(name_field(line@) =~= v@.subrange(0, end as int));
    if end != name.len() {
        return false;
    }
    matches_at(&v, name, 0)
}

/// The name and the address of `line` where it is a well-formed entry.
pub fn read_entry(line: &str) -> (r: Option<(String, String)>)
    ensures
        match entry_of(line@) {
            Some((name, address)) => r matches Some(e) && e.0@ == name && e.1@ == address,
            None => r is None,
        },
{
    let v = chars_of(line);
    assert(v@.skip(0) =~= v@);
    match find_char(&v, 0, '=') {
        Some(k) => {
            if k == 0 || k + 1 == v.len() {
                return None;
            }
            match find_char(&v, k + 1, '=') {
                Some(_) => {
                    proof {
                        let address = v@.skip(k + 1);
                        address.index_of_first_ensures('=');
                    }
                    None
                },
                None => {
                    proof {
                        let address = v@.skip(k + 1);
                        address.index_of_first_ensures('=');
                        assert(v@.subrange(0, k as int) =~= v@.take(k as int));
                        assert(v@.subrange(k + 1, v.len() as int) =~= address);
                    }
                    Some((string_of(&v, 0, k), string_of(&v, k + 1, v.len())))
                },
            }
        },
        None => None,
    }
}

} // verus!
