//! A directory lister: resolves path arguments into entries, orders them,
//! and renders them either as a compact name list or as a long table.

use vstd::prelude::*;

pub mod clock;
pub mod collect;
pub mod display;
pub mod entry;
pub mod identity;
pub mod laws;
pub mod number;
pub mod order;
pub mod owner;
pub mod render;
pub mod style;

use crate::collect::{access_diagnostics, arrange, contributions, find_files};
use crate::entry::{texts, Probe};
use crate::render::{
    compact_text, format_output, long_text, stat_diagnostics, Names, Report,
};

verus! {

/// What to list and how.
#[derive(Clone, Debug, PartialEq, Eq)]
pub struct Input {
    /// The paths to list.
    pub paths: Vec<String>,
    /// List names that begin with a dot too.
    pub show_all: bool,
    /// Use the long format.
    pub long: bool,
}

impl Input {
    /// A configuration for the given paths. Where no path is given, the
    /// current directory is listed.
    pub fn new(paths: Vec<String>, show_all: bool, long: bool) -> (input: Input)
        ensures
            input.show_all == show_all,
            input.long == long,
            paths@.len() > 0 ==> input.paths@ == paths@,
            paths@.len() == 0 ==> texts(input.paths@) == seq!["."@],
    {
        let mut paths = paths;
        if paths.len() == 0 {
            paths.push(".".to_owned());
            proof {
                assert(texts(paths@) =~= seq!["."@]);
            }
        }
        Input { paths, show_all, long }
    }

    /// The paths to list.
    pub fn paths(&self) -> (paths: &Vec<String>)
        ensures
            paths == self.paths,
    {
        &self.paths
    }
}

/// Lists what was found behind the path arguments.
///
/// `probes` holds, for each path of the input in turn, what the filesystem
/// answered. The files that the arguments stand for are put into listing
/// order and rendered in the format that the input asks for; arguments and
/// files that could not be used are reported instead, the arguments first.
pub fn execute(input: &Input, probes: &Vec<Probe>) -> (report: Report)
    ensures
        texts(report.diagnostics@) == access_diagnostics(probes@) + stat_diagnostics(
            arrange(contributions(probes@)),
        ),
        !input.long ==> report.stdout@ == compact_text(
            arrange(contributions(probes@)),
            input.show_all,
        ),
        input.long ==> exists|names: Seq<Names>|
            names.len() == arrange(contributions(probes@)).len() && report.stdout@ == long_text(
                arrange(contributions(probes@)),
                names,
                input.show_all,
            ),
{
    let found = find_files(probes);
    let rendered = format_output(&found.files, input.long, input.show_all);
    let mut diagnostics = found.diagnostics;
    let mut later = rendered.diagnostics;
    let ghost first = diagnostics@;
    let ghost second = later@;
    diagnostics.append(&mut later);
    proof {
        assert(texts(diagnostics@) =~= texts(first) + texts(second));
    }
    Report { stdout: rendered.stdout, diagnostics }
}

} // verus!
