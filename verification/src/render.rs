//! Rendering of the files of a listing, in the compact and in the long
//! format.

use crate::clock::{clock_text, modified_text, time_text};
use crate::collect::{diagnostic, diagnostic_text};
use crate::display::{display_name, is_visible, normalize, visible};
use crate::entry::{option_text, texts, Entry, EntryKind, FileStat, Stat};
use crate::identity::{identity_text, lookup_group, lookup_user, name_or_id};
use crate::number::{decimal, decimal_text};
use crate::owner::{format_mode, lemma_mode_text_positions, mode_text};
use crate::style::{name_cell, name_cell_text};
use vstd::prelude::*;
use vstd::string::StringExecFns;

verus! {

/// What a listing writes: the text for standard output, and the messages
/// for the diagnostic stream, one per line.
#[derive(Debug, PartialEq, Eq)]
pub struct Report {
    pub stdout: String,
    pub diagnostics: Vec<String>,
}

/// The names that were found for the owner and the group of a file.
pub type Names = (Option<Seq<char>>, Option<Seq<char>>);

/// The first character of a long line: `d` for a directory, `-` for a
/// file.
pub open spec fn type_text(kind: EntryKind) -> Seq<char> {
    match kind {
        EntryKind::Directory => "d"@,
        EntryKind::File => "-"@,
    }
}

/// The fields of a long line that stand before the name, each followed by
/// one space: type and permissions, link count, owner, group, size, time.
pub open spec fn long_fields_text(
    entry: Entry,
    owner: Seq<char>,
    group: Seq<char>,
    when: Seq<char>,
) -> Seq<char> {
    type_text(entry.kind) + mode_text(entry.permission_bits) + " "@ + decimal(
        entry.link_count as nat,
    ) + " "@ + owner + " "@ + group + " "@ + decimal(entry.size_bytes as nat) + " "@ + when + " "@
}

/// One line of the long format: the fields, then the name, highlighted
/// for a directory, then a line break.
pub open spec fn long_line_text(
    name: Seq<char>,
    entry: Entry,
    owner: Seq<char>,
    group: Seq<char>,
    when: Seq<char>,
) -> Seq<char> {
    long_fields_text(entry, owner, group, when) + name_cell_text(name, entry.kind, true)
}

/// The line of the long format for an entry whose owner and group were
/// looked up with the given outcome.
pub open spec fn table_line_text(name: Seq<char>, entry: Entry, names: Names) -> Seq<char> {
    long_line_text(
        name,
        entry,
        identity_text(entry.owner_id, names.0),
        identity_text(entry.group_id, names.1),
        time_text(
            entry.modified_at,
            clock_text(
                entry.modified_at.seconds as int,
                entry.modified_at.nanos as int,
                entry.modified_at.utc_offset as int,
            ),
        ),
    )
}

/// A line of the long format begins with ten characters that the entry
/// alone decides: the type character, then the nine characters of its
/// permission bits.
pub proof fn lemma_long_line_begins_with_type_and_mode(
    name: Seq<char>,
    entry: Entry,
    owner: Seq<char>,
    group: Seq<char>,
    when: Seq<char>,
)
    ensures
        long_line_text(name, entry, owner, group, when).len() > 10,
        long_line_text(name, entry, owner, group, when).subrange(0, 10) == type_text(entry.kind)
            + mode_text(entry.permission_bits),
        type_text(entry.kind) == seq![
            if entry.kind == EntryKind::Directory {
                'd'
            } else {
                '-'
            },
        ],
        long_line_text(name, entry, owner, group, when)[10] == ' ',
{
    reveal_strlit("d");
    reveal_strlit("-");
    reveal_strlit(" ");
    lemma_mode_text_positions(entry.permission_bits);
    let head = type_text(entry.kind) + mode_text(entry.permission_bits);
    let line = long_line_text(name, entry, owner, group, when);
    assert(head.len() == 10);
    assert(type_text(entry.kind) =~= seq![
        if entry.kind == EntryKind::Directory {
            'd'
        } else {
            '-'
        },
    ]);
    assert(line.len() > 10);
    assert(line.subrange(0, 10) =~= head);
}

/// Writes one line of the long format from the entry and the texts of its
/// owner, its group and its modification time.
pub fn long_line(name: &str, entry: &Entry, owner: &str, group: &str, when: &str) -> (line: String)
    ensures
        line@ == long_line_text(name@, *entry, owner@, group@, when@),
{
    let mut line = String::from_str(
        match entry.kind {
            EntryKind::Directory => "d",
            EntryKind::File => "-",
        },
    );
    let mode = format_mode(entry.permission_bits);
    line.append(mode.as_str());
    line.append(" ");
    let links = decimal_text(entry.link_count);
    line.append(links.as_str());
    line.append(" ");
    line.append(owner);
    line.append(" ");
    line.append(group);
    line.append(" ");
    let size = decimal_text(entry.size_bytes);
    line.append(size.as_str());
    line.append(" ");
    line.append(when);
    line.append(" ");
    let cell = name_cell(name, entry.kind, true);
    line.append(cell.as_str());
    line
}

/// Writes the line of the long format for an entry. The names of its owner
/// and group are looked up; where the lookup finds none, the number
/// stands in.
pub fn output_as_table(file_path: &str, entry: &Entry) -> (line: String)
    ensures
        exists|names: Names| line@ == table_line_text(file_path@, *entry, names),
{
    let owner_found = lookup_user(entry.owner_id);
    let group_found = lookup_group(entry.group_id);
    let ghost names: Names = (option_text(owner_found), option_text(group_found));
    let owner = name_or_id(entry.owner_id, owner_found);
    let group = name_or_id(entry.group_id, group_found);
    let when = modified_text(&entry.modified_at);
    let line = long_line(file_path, entry, owner.as_str(), group.as_str(), when.as_str());
    assert(line@ == table_line_text(file_path@, *entry, names));
    line
}

/// What a file adds to a compact listing.
pub open spec fn compact_entry_text(file: FileStat, show_all: bool) -> Seq<char> {
    match file.stat {
        Stat::Found(entry) if visible(display_name(file.path@), show_all) => name_cell_text(
            display_name(file.path@),
            entry.kind,
            false,
        ),
        _ => Seq::empty(),
    }
}

/// What a file adds to a long listing.
pub open spec fn long_entry_text(file: FileStat, names: Names, show_all: bool) -> Seq<char> {
    match file.stat {
        Stat::Found(entry) if visible(display_name(file.path@), show_all) => table_line_text(
            display_name(file.path@),
            entry,
            names,
        ),
        _ => Seq::empty(),
    }
}

/// The compact listing of files, in their order.
pub open spec fn compact_text(files: Seq<FileStat>, show_all: bool) -> Seq<char>
    decreases files.len(),
{
    if files.len() == 0 {
        Seq::empty()
    } else {
        compact_text(files.drop_last(), show_all) + compact_entry_text(files.last(), show_all)
    }
}

/// The long listing of files, in their order, where `names` holds for
/// each file what the lookup of its owner and group gave.
pub open spec fn long_text(files: Seq<FileStat>, names: Seq<Names>, show_all: bool) -> Seq<char>
    recommends
        names.len() == files.len(),
    decreases files.len(),
{
    if files.len() == 0 {
        Seq::empty()
    } else {
        long_text(files.drop_last(), names.drop_last(), show_all) + long_entry_text(
            files.last(),
            names.last(),
            show_all,
        )
    }
}

/// The message for a file whose metadata could not be found.
pub open spec fn stat_diagnostic(file: FileStat) -> Option<Seq<char>> {
    match file.stat {
        Stat::Missing(reason) => Some(
            diagnostic_text("cannot access file's metadata"@, file.path@, reason@),
        ),
        Stat::Found(_) => None,
    }
}

/// The messages for all files whose metadata could not be found, in the
/// order of the files.
pub open spec fn stat_diagnostics(files: Seq<FileStat>) -> Seq<Seq<char>>
    decreases files.len(),
{
    if files.len() == 0 {
        Seq::empty()
    } else {
        let earlier = stat_diagnostics(files.drop_last());
        match stat_diagnostic(files.last()) {
            Some(message) => earlier.push(message),
            None => earlier,
        }
    }
}

/// Renders the files in the order given.
///
/// A file without metadata is reported and left out. Of the others, those
/// are listed whose shown name is visible. The compact format writes each
/// name followed by two spaces; the long format writes one line per file.
/// Directory names are highlighted in both.
pub fn format_output(files: &Vec<FileStat>, long_option: bool, show_all: bool) -> (report: Report)
    ensures
        texts(report.diagnostics@) == stat_diagnostics(files@),
        !long_option ==> report.stdout@ == compact_text(files@, show_all),
        long_option ==> exists|names: Seq<Names>|
            names.len() == files@.len() && report.stdout@ == long_text(files@, names, show_all),
{
    let mut stdout = String::new();
    let mut diagnostics: Vec<String> = Vec::new();
    let ghost mut seen: Seq<Names> = Seq::empty();
    let mut i: usize = 0;
    proof {
        assert(texts(diagnostics@) =~= stat_diagnostics(files@.take(0)));
    }
    while i < files.len()
        invariant
            i <= files@.len(),
            seen.len() == i,
            texts(diagnostics@) == stat_diagnostics(files@.take(i as int)),
            !long_option ==> stdout@ == compact_text(files@.take(i as int), show_all),
            long_option ==> stdout@ == long_text(files@.take(i as int), seen, show_all),
        decreases files@.len() - i,
    {
        let file = &files[i];
        let ghost earlier = diagnostics@;
        let ghost written = stdout@;
        let ghost mut names: Names = (None, None);
        proof {
            assert(files@.take(i + 1).drop_last() =~= files@.take(i as int));
            assert(files@.take(i + 1).last() == files@[i as int]);
        }
        match &file.stat {
            Stat::Missing(reason) => {
                let message = diagnostic(
                    "cannot access file's metadata",
                    file.path.as_str(),
                    reason.as_str(),
                );
                diagnostics.push(message);
                proof {
                    assert(texts(diagnostics@) =~= texts(earlier).push(message@));
                    assert(stdout@ =~= written + Seq::<char>::empty());
                }
            },
            Stat::Found(entry) => {
                let name = normalize(file.path.as_str());
                if is_visible(name.as_str(), show_all) {
                    if long_option {
                        let line = output_as_table(name.as_str(), entry);
                        proof {
                            names = choose|names: Names|
                                line@ == table_line_text(name@, *entry, names);
                        }
                        stdout.append(line.as_str());
                    } else {
                        let cell = name_cell(name.as_str(), entry.kind, false);
                        stdout.append(cell.as_str());
                    }
                } else {
                    proof {
                        assert(stdout@ =~= written + Seq::<char>::empty());
                    }
                }
            },
        }
        proof {
            assert(seen.push(names).drop_last() =~= seen);
            seen = seen.push(names);
        }
        i += 1;
    }
    proof {
        assert(files@.take(files@.len() as int) =~= files@);
    }
    Report { stdout, diagnostics }
}

} // verus!
