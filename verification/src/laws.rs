//! What holds of a listing as a whole.

use crate::collect::{
    access_diagnostics, arrange, contribution, contributions, diagnostic_text,
    lemma_arrange_permutes, lemma_arrange_sorted, probe_diagnostic, sorted_by_path,
};
use crate::display::{display_name, is_hidden};
use crate::entry::{Access, Entry, FileStat, Probe, Stat};
use crate::order::{lemma_path_le_antisymmetric, lemma_path_le_total_preorder, path_le};
use crate::render::{compact_entry_text, long_entry_text, table_line_text, Names};
use crate::style::name_cell_text;
use vstd::prelude::*;

verus! {

/// Whether files that share a path are the same file.
pub open spec fn paths_identify(files: Seq<FileStat>) -> bool {
    forall|i: int, j: int|
        0 <= i < files.len() && 0 <= j < files.len() && #[trigger] files[i].path@
            == #[trigger] files[j].path@ ==> files[i] == files[j]
}

/// The arguments of a listing contribute one after the other: what a list
/// of arguments adds is what its front adds, then what its back adds.
pub proof fn lemma_contributions_concat(front: Seq<Probe>, back: Seq<Probe>)
    ensures
        contributions(front + back) == contributions(front) + contributions(back),
        access_diagnostics(front + back) == access_diagnostics(front) + access_diagnostics(back),
    decreases back.len(),
{
    if back.len() == 0 {
        assert(front + back =~= front);
        assert(contributions(front) + contributions(back) =~= contributions(front));
        assert(access_diagnostics(front) + access_diagnostics(back) =~= access_diagnostics(front));
    } else {
        assert((front + back).drop_last() =~= front + back.drop_last());
        assert((front + back).last() == back.last());
        lemma_contributions_concat(front, back.drop_last());
        assert(contributions(front + back) =~= contributions(front) + contributions(back));
        assert(access_diagnostics(front + back) =~= access_diagnostics(front) + access_diagnostics(
            back,
        ));
    }
}

/// One argument alone adds its own contribution and its own message.
pub proof fn lemma_contributions_single(probe: Probe)
    ensures
        contributions(seq![probe]) == contribution(probe),
        access_diagnostics(seq![probe]) == match probe_diagnostic(probe) {
            Some(message) => seq![message],
            None => Seq::empty(),
        },
{
    let none = Seq::<Probe>::empty();
    assert(seq![probe].drop_last() =~= none);
    assert(seq![probe].last() == probe);
    assert(contributions(none) =~= Seq::<FileStat>::empty());
    assert(access_diagnostics(none) =~= Seq::<Seq<char>>::empty());
    assert(contributions(seq![probe]) =~= contribution(probe));
    assert(access_diagnostics(seq![probe]) =~= match probe_diagnostic(probe) {
        Some(message) => seq![message],
        None => Seq::empty(),
    });
}

/// A plain file is listed as itself: alone it makes up the whole listing,
/// with its path unchanged and with no message, and among other arguments
/// it adds exactly that one file.
pub proof fn lemma_plain_file_listed_unchanged(
    front: Seq<Probe>,
    path: String,
    stat: Stat,
    back: Seq<Probe>,
)
    ensures
        ({
            let probe = Probe { path, access: Access::File(stat) };
            let file = FileStat { path, stat };
            &&& arrange(contributions(seq![probe])) == seq![file]
            &&& access_diagnostics(seq![probe]) == Seq::<Seq<char>>::empty()
            &&& contributions(front + seq![probe] + back) == contributions(front) + seq![file]
                + contributions(back)
            &&& access_diagnostics(front + seq![probe] + back) == access_diagnostics(front)
                + access_diagnostics(back)
        }),
{
    let probe = Probe { path, access: Access::File(stat) };
    let file = FileStat { path, stat };
    lemma_contributions_single(probe);
    lemma_contributions_concat(front, seq![probe]);
    lemma_contributions_concat(front + seq![probe], back);
    assert(seq![file].drop_last() =~= Seq::<FileStat>::empty());
    assert(arrange(seq![file].drop_last()) =~= Seq::<FileStat>::empty());
    assert(arrange(seq![file]) =~= seq![file]);
    assert(access_diagnostics(front) + Seq::<Seq<char>>::empty() =~= access_diagnostics(front));
}

/// An argument that cannot be reached is reported with its path and adds
/// nothing to the listing, which is the listing of the other arguments.
pub proof fn lemma_unreachable_argument_skipped(
    front: Seq<Probe>,
    path: String,
    reason: String,
    back: Seq<Probe>,
)
    ensures
        ({
            let probe = Probe { path, access: Access::Inaccessible(reason) };
            let message = "cannot access"@ + " '"@ + path@ + "': "@ + reason@;
            &&& contributions(front + seq![probe] + back) == contributions(front + back)
            &&& arrange(contributions(front + seq![probe] + back)) == arrange(
                contributions(front + back),
            )
            &&& access_diagnostics(front + seq![probe] + back) == access_diagnostics(front)
                + seq![message] + access_diagnostics(back)
        }),
{
    let probe = Probe { path, access: Access::Inaccessible(reason) };
    lemma_contributions_single(probe);
    lemma_contributions_concat(front, seq![probe]);
    lemma_contributions_concat(front + seq![probe], back);
    lemma_contributions_concat(front, back);
    assert(contributions(front) + Seq::<FileStat>::empty() =~= contributions(front));
}

/// Two lists in listing order that hold the same files are the same list,
/// where files that share a path are the same file.
pub proof fn lemma_listing_order_unique(x: Seq<FileStat>, y: Seq<FileStat>)
    requires
        sorted_by_path(x),
        sorted_by_path(y),
        x.to_multiset() == y.to_multiset(),
        paths_identify(x),
    ensures
        x == y,
    decreases x.len(),
{
    broadcast use vstd::multiset::group_multiset_axioms;
    broadcast use vstd::seq_lib::group_to_multiset_ensures;

    x.to_multiset_ensures();
    y.to_multiset_ensures();
    assert(x.len() == y.len());
    if x.len() == 0 {
        assert(x =~= y);
    } else {
        assert(y.to_multiset().count(x[0]) > 0);
        assert(y.contains(x[0]));
        let j = choose|j: int| 0 <= j < y.len() && y[j] == x[0];
        assert(x.to_multiset().count(y[0]) > 0);
        assert(x.contains(y[0]));
        let i = choose|i: int| 0 <= i < x.len() && x[i] == y[0];
        lemma_path_le_total_preorder(x[0].path@, y[0].path@, x[0].path@);
        assert(path_le(x[0].path@, x[i].path@));
        assert(path_le(y[0].path@, y[j].path@));
        lemma_path_le_antisymmetric(x[0].path@, y[0].path@);
        assert(x[0] == x[i]);
        let xs = x.drop_first();
        let ys = y.drop_first();
        assert(xs =~= x.remove(0));
        assert(ys =~= y.remove(0));
        assert(xs.to_multiset() =~= x.to_multiset().remove(x[0]));
        assert(ys.to_multiset() =~= y.to_multiset().remove(y[0]));
        assert(sorted_by_path(xs)) by {
            assert forall|a: int, b: int| 0 <= a < b < xs.len() implies path_le(
                #[trigger] xs[a].path@,
                #[trigger] xs[b].path@,
            ) by {
                assert(xs[a] == x[a + 1] && xs[b] == x[b + 1]);
            }
        }
        assert(sorted_by_path(ys)) by {
            assert forall|a: int, b: int| 0 <= a < b < ys.len() implies path_le(
                #[trigger] ys[a].path@,
                #[trigger] ys[b].path@,
            ) by {
                assert(ys[a] == y[a + 1] && ys[b] == y[b + 1]);
            }
        }
        assert(paths_identify(xs)) by {
            assert forall|a: int, b: int|
                0 <= a < xs.len() && 0 <= b < xs.len() && #[trigger] xs[a].path@
                    == #[trigger] xs[b].path@ implies xs[a] == xs[b] by {
                assert(xs[a] == x[a + 1] && xs[b] == x[b + 1]);
            }
        }
        lemma_listing_order_unique(xs, ys);
        assert(x =~= seq![x[0]] + xs);
        assert(y =~= seq![y[0]] + ys);
    }
}

/// The listing does not depend on the order in which the files were
/// found: the same files, found in any order, are listed in the same
/// order. (Files that share a path are taken to be the same file, as they
/// are in a filesystem.)
pub proof fn lemma_listing_ignores_enumeration_order(a: Seq<FileStat>, b: Seq<FileStat>)
    requires
        a.to_multiset() == b.to_multiset(),
        paths_identify(a),
    ensures
        arrange(a) == arrange(b),
        sorted_by_path(arrange(a)),
{
    broadcast use vstd::seq_lib::group_to_multiset_ensures;

    lemma_arrange_sorted(a);
    lemma_arrange_sorted(b);
    lemma_arrange_permutes(a);
    lemma_arrange_permutes(b);
    let x = arrange(a);
    assert(paths_identify(x)) by {
        assert forall|i: int, j: int|
            0 <= i < x.len() && 0 <= j < x.len() && #[trigger] x[i].path@
                == #[trigger] x[j].path@ implies x[i] == x[j] by {
            assert(x.contains(x[i]));
            assert(x.contains(x[j]));
            assert(a.to_multiset().count(x[i]) > 0);
            assert(a.to_multiset().count(x[j]) > 0);
            assert(a.contains(x[i]));
            assert(a.contains(x[j]));
            let p = choose|p: int| 0 <= p < a.len() && a[p] == x[i];
            let q = choose|q: int| 0 <= q < a.len() && a[q] == x[j];
            assert(a[p].path@ == a[q].path@);
        }
    }
    lemma_listing_order_unique(x, arrange(b));
}

/// A file whose shown name begins with a dot is left out of both formats
/// unless everything is asked for, and is written like any other file when
/// it is.
pub proof fn lemma_hidden_file_filtered(path: String, entry: Entry, names: Names)
    requires
        is_hidden(display_name(path@)),
    ensures
        ({
            let file = FileStat { path, stat: Stat::Found(entry) };
            &&& compact_entry_text(file, false) == Seq::<char>::empty()
            &&& long_entry_text(file, names, false) == Seq::<char>::empty()
            &&& compact_entry_text(file, true) == name_cell_text(
                display_name(path@),
                entry.kind,
                false,
            )
            &&& long_entry_text(file, names, true) == table_line_text(
                display_name(path@),
                entry,
                names,
            )
        }),
{
}

} // verus!
