//! Entry collection: path arguments are replaced by what they stand for,
//! and the result is put into listing order.

use crate::entry::{copy_stat, texts, Access, FileStat, Listing, Probe, Stat};
use crate::order::{lemma_path_le_total_preorder, path_at_most, path_le};
use vstd::prelude::*;
use vstd::string::StringExecFns;

verus! {

/// The files found behind a set of path arguments, and what was reported
/// on the way.
#[derive(Debug, PartialEq, Eq)]
pub struct Collected {
    /// The files to list, in listing order.
    pub files: Vec<FileStat>,
    /// One message for each argument that could not be used, in the order
    /// of the arguments.
    pub diagnostics: Vec<String>,
}

/// The text of a diagnostic: what failed, the path in quotes, and why.
pub open spec fn diagnostic_text(what: Seq<char>, path: Seq<char>, reason: Seq<char>) -> Seq<
    char,
> {
    what + " '"@ + path + "': "@ + reason
}

/// Builds the message `<what> '<path>': <reason>`.
pub fn diagnostic(what: &str, path: &str, reason: &str) -> (message: String)
    ensures
        message@ == diagnostic_text(what@, path@, reason@),
{
    let mut message = String::from_str(what);
    message.append(" '");
    message.append(path);
    message.append("': ");
    message.append(reason);
    message
}

/// What one argument adds to the listing: itself when it is a plain file,
/// its children when it is a directory that could be read, nothing
/// otherwise.
pub open spec fn contribution(probe: Probe) -> Seq<FileStat> {
    match probe.access {
        Access::Inaccessible(_) => Seq::empty(),
        Access::File(stat) => seq![FileStat { path: probe.path, stat }],
        Access::Directory(Listing::Children(children)) => children@,
        Access::Directory(Listing::Unreadable(_)) => Seq::empty(),
    }
}

/// The contributions of all arguments, one after the other.
pub open spec fn contributions(probes: Seq<Probe>) -> Seq<FileStat>
    decreases probes.len(),
{
    if probes.len() == 0 {
        Seq::empty()
    } else {
        contributions(probes.drop_last()) + contribution(probes.last())
    }
}

/// The message that an argument gives rise to, if it cannot be used.
pub open spec fn probe_diagnostic(probe: Probe) -> Option<Seq<char>> {
    match probe.access {
        Access::Inaccessible(reason) => Some(
            diagnostic_text("cannot access"@, probe.path@, reason@),
        ),
        Access::Directory(Listing::Unreadable(reason)) => Some(
            diagnostic_text("cannot open directory"@, probe.path@, reason@),
        ),
        _ => None,
    }
}

/// The messages of all arguments, in the order of the arguments.
pub open spec fn access_diagnostics(probes: Seq<Probe>) -> Seq<Seq<char>>
    decreases probes.len(),
{
    if probes.len() == 0 {
        Seq::empty()
    } else {
        let earlier = access_diagnostics(probes.drop_last());
        match probe_diagnostic(probes.last()) {
            Some(message) => earlier.push(message),
            None => earlier,
        }
    }
}

/// Whether a list of files is in listing order.
pub open spec fn sorted_by_path(files: Seq<FileStat>) -> bool {
    forall|i: int, j: int|
        0 <= i < j < files.len() ==> path_le(#[trigger] files[i].path@, #[trigger] files[j].path@)
}

/// Where a new file goes in an ordered list: behind the last file that is
/// listed no later than it.
pub open spec fn insert_position(files: Seq<FileStat>, file: FileStat) -> int
    decreases files.len(),
{
    if files.len() == 0 {
        0
    } else if path_le(files.last().path@, file.path@) {
        files.len() as int
    } else {
        insert_position(files.drop_last(), file)
    }
}

/// The files in listing order. Files with the same path keep the order in
/// which they came.
pub open spec fn arrange(files: Seq<FileStat>) -> Seq<FileStat>
    decreases files.len(),
{
    if files.len() == 0 {
        Seq::empty()
    } else {
        let earlier = arrange(files.drop_last());
        earlier.insert(insert_position(earlier, files.last()), files.last())
    }
}

/// The insert position lies in the list, every file from it on is listed
/// strictly later than the new one, and the file before it is not.
pub proof fn lemma_insert_position(files: Seq<FileStat>, file: FileStat)
    ensures
        0 <= insert_position(files, file) <= files.len(),
        forall|k: int|
            insert_position(files, file) <= k < files.len() ==> !path_le(
                #[trigger] files[k].path@,
                file.path@,
            ),
        insert_position(files, file) > 0 ==> path_le(
            files[insert_position(files, file) - 1].path@,
            file.path@,
        ),
    decreases files.len(),
{
    if files.len() > 0 && !path_le(files.last().path@, file.path@) {
        lemma_insert_position(files.drop_last(), file);
        let pos = insert_position(files, file);
        assert forall|k: int| pos <= k < files.len() implies !path_le(
            #[trigger] files[k].path@,
            file.path@,
        ) by {
            if k < files.len() - 1 {
                assert(files[k] == files.drop_last()[k]);
            }
        }
        if pos > 0 {
            assert(files[pos - 1] == files.drop_last()[pos - 1]);
        }
    }
}

/// A position with those properties is the insert position.
proof fn lemma_insert_position_found(files: Seq<FileStat>, file: FileStat, pos: int)
    requires
        0 <= pos <= files.len(),
        forall|k: int| pos <= k < files.len() ==> !path_le(#[trigger] files[k].path@, file.path@),
        pos > 0 ==> path_le(files[pos - 1].path@, file.path@),
    ensures
        insert_position(files, file) == pos,
    decreases files.len(),
{
    if files.len() > 0 {
        if pos == files.len() {
        } else {
            assert(!path_le(files[files.len() - 1].path@, file.path@));
            let shorter = files.drop_last();
            assert forall|k: int| pos <= k < shorter.len() implies !path_le(
                #[trigger] shorter[k].path@,
                file.path@,
            ) by {
                assert(shorter[k] == files[k]);
            }
            lemma_insert_position_found(shorter, file, pos);
        }
    }
}

/// Arranging puts the files into listing order.
pub proof fn lemma_arrange_sorted(files: Seq<FileStat>)
    ensures
        sorted_by_path(arrange(files)),
        arrange(files).len() == files.len(),
    decreases files.len(),
{
    if files.len() > 0 {
        let earlier = arrange(files.drop_last());
        let file = files.last();
        let pos = insert_position(earlier, file);
        lemma_arrange_sorted(files.drop_last());
        lemma_insert_position(earlier, file);
        let later = earlier.insert(pos, file);
        assert forall|i: int, j: int| 0 <= i < j < later.len() implies path_le(
            #[trigger] later[i].path@,
            #[trigger] later[j].path@,
        ) by {
            if j < pos {
                assert(later[i] == earlier[i] && later[j] == earlier[j]);
            } else if j == pos {
                assert(later[i] == earlier[i]);
                lemma_path_le_total_preorder(
                    earlier[i].path@,
                    earlier[pos - 1].path@,
                    file.path@,
                );
                if i < pos - 1 {
                    assert(path_le(earlier[i].path@, earlier[pos - 1].path@));
                }
            } else if i == pos {
                assert(later[j] == earlier[j - 1]);
                assert(!path_le(earlier[j - 1].path@, file.path@));
                lemma_path_le_total_preorder(file.path@, earlier[j - 1].path@, file.path@);
            } else if i < pos {
                assert(later[i] == earlier[i] && later[j] == earlier[j - 1]);
            } else {
                assert(later[i] == earlier[i - 1] && later[j] == earlier[j - 1]);
            }
        }
    }
}

/// Arranging neither drops nor adds nor changes a file.
pub proof fn lemma_arrange_permutes(files: Seq<FileStat>)
    ensures
        arrange(files).to_multiset() == files.to_multiset(),
    decreases files.len(),
{
    broadcast use vstd::seq_lib::group_to_multiset_ensures;

    if files.len() == 0 {
        assert(arrange(files) =~= files);
    } else {
        let earlier = arrange(files.drop_last());
        let file = files.last();
        let pos = insert_position(earlier, file);
        lemma_arrange_permutes(files.drop_last());
        lemma_insert_position(earlier, file);
        let front = earlier.take(pos);
        let back = earlier.skip(pos);
        assert(earlier =~= front + back);
        assert(earlier.insert(pos, file) =~= front.push(file) + back);
        vstd::seq_lib::lemma_multiset_commutative(front, back);
        vstd::seq_lib::lemma_multiset_commutative(front.push(file), back);
        assert(files =~= files.drop_last().push(file));
        assert(arrange(files).to_multiset() =~= files.to_multiset());
    }
}

/// Puts files into listing order.
pub fn sort_by_path(files: &Vec<FileStat>) -> (sorted: Vec<FileStat>)
    ensures
        sorted@ == arrange(files@),
        sorted_by_path(sorted@),
        sorted@.to_multiset() == files@.to_multiset(),
{
    let mut sorted: Vec<FileStat> = Vec::new();
    let mut i: usize = 0;
    while i < files.len()
        invariant
            i <= files@.len(),
            sorted@ == arrange(files@.take(i as int)),
        decreases files@.len() - i,
    {
        let file = files[i].duplicate();
        let mut pos: usize = sorted.len();
        while pos > 0 && !path_at_most(sorted[pos - 1].path.as_str(), file.path.as_str())
            invariant
                pos <= sorted@.len(),
                forall|k: int|
                    pos <= k < sorted@.len() ==> !path_le(#[trigger] sorted@[k].path@, file.path@),
            decreases pos,
        {
            pos -= 1;
        }
        proof {
            lemma_insert_position_found(sorted@, file, pos as int);
            assert(files@.take(i + 1).drop_last() =~= files@.take(i as int));
            assert(files@.take(i + 1).last() == files@[i as int]);
        }
        sorted.insert(pos, file);
        i += 1;
    }
    proof {
        assert(files@.take(files@.len() as int) =~= files@);
        lemma_arrange_sorted(files@);
        lemma_arrange_permutes(files@);
    }
    sorted
}

/// Resolves the path arguments into the files to list.
///
/// An argument that could not be reached, or a directory that could not be
/// opened, is reported and adds nothing; a plain file stands for itself; a
/// directory is replaced by its immediate children. The files come back in
/// listing order, whatever order the arguments and the children came in.
pub fn find_files(probes: &Vec<Probe>) -> (found: Collected)
    ensures
        found.files@ == arrange(contributions(probes@)),
        sorted_by_path(found.files@),
        found.files@.to_multiset() == contributions(probes@).to_multiset(),
        texts(found.diagnostics@) == access_diagnostics(probes@),
{
    let mut gathered: Vec<FileStat> = Vec::new();
    let mut diagnostics: Vec<String> = Vec::new();
    let mut i: usize = 0;
    proof {
        assert(texts(diagnostics@) =~= access_diagnostics(probes@.take(0)));
    }
    while i < probes.len()
        invariant
            i <= probes@.len(),
            gathered@ == contributions(probes@.take(i as int)),
            texts(diagnostics@) == access_diagnostics(probes@.take(i as int)),
        decreases probes@.len() - i,
    {
        let probe = &probes[i];
        let ghost earlier = diagnostics@;
        proof {
            assert(probes@.take(i + 1).drop_last() =~= probes@.take(i as int));
            assert(probes@.take(i + 1).last() == probes@[i as int]);
        }
        match &probe.access {
            Access::Inaccessible(reason) => {
                let message = diagnostic("cannot access", probe.path.as_str(), reason.as_str());
                diagnostics.push(message);
                proof {
                    assert(texts(diagnostics@) =~= texts(earlier).push(message@));
                    assert(gathered@ =~= gathered@ + Seq::<FileStat>::empty());
                }
            },
            Access::File(stat) => {
                gathered.push(FileStat { path: probe.path.clone(), stat: copy_stat(stat) });
                proof {
                    assert(gathered@ =~= contributions(probes@.take(i as int)) + contribution(
                        *probe,
                    ));
                }
            },
            Access::Directory(Listing::Children(children)) => {
                let ghost before = gathered@;
                let mut j: usize = 0;
                while j < children.len()
                    invariant
                        j <= children@.len(),
                        gathered@ == before + children@.take(j as int),
                    decreases children@.len() - j,
                {
                    gathered.push(children[j].duplicate());
                    proof {
                        assert(gathered@ =~= before + children@.take(j + 1));
                    }
                    j += 1;
                }
                proof {
                    assert(children@.take(children@.len() as int) =~= children@);
                }
            },
            Access::Directory(Listing::Unreadable(reason)) => {
                let message = diagnostic(
                    "cannot open directory",
                    probe.path.as_str(),
                    reason.as_str(),
                );
                diagnostics.push(message);
                proof {
                    assert(texts(diagnostics@) =~= texts(earlier).push(message@));
                    assert(gathered@ =~= gathered@ + Seq::<FileStat>::empty());
                }
            },
        }
        i += 1;
    }
    proof {
        assert(probes@.take(probes@.len() as int) =~= probes@);
    }
    let files = sort_by_path(&gathered);
    Collected { files, diagnostics }
}

} // verus!
