//! rosregview: an offline viewer for Windows registry hive files.
//!
//! The library holds everything that decides what the viewer prints:
//! hive navigation through `nt_hive`, value decoding, pattern search and
//! the text renderings of every subcommand.  Reading files, parsing the
//! command line and serialising JSON happen in the program around it.
//!
//! Subcommands:
//!   * `info <hive>`             — overview
//!   * `tree <hive> [--depth N]` — recursive key tree
//!   * `list <hive> [PATH]`      — direct children at PATH
//!   * `show <hive> [PATH]`      — values of a key
//!   * `find <hive> [filters]`   — pattern search across the key tree

pub mod cli;
pub mod error;
pub mod hive;
pub mod output;
pub mod view;

use vstd::prelude::*;
use crate::cli::Command;
use crate::error::ViewError;
use crate::hive::safety::check_offsets;
use crate::hive::nt::{is_hive, hive_new, root_cell_offset, root_result, subkeys_countable, subkey_total, key_children, key_values};
use crate::hive::open::{describes_file, has_regf_signature, refused_as_non_hive, root_lookup_safe};
use crate::view::find::{find_error, find_succeeds, is_scan_result, scans_hive, FindStats, ScannedKey};
use crate::view::info::{info_error, InfoPayload};
use crate::view::list::{at_label, list_error, listing_warnings, texts, children_listable, entry_of, target_key, ListStats};
use crate::view::show::{entry_shows, show_error, values_listable, ShowStats};
use crate::view::tree::{fits_depth, tree_error, respects_depth, tree_built, tree_readable, TreeStats};

verus! {

/// The payload of one subcommand.
pub enum Report {
    Info(InfoPayload),
    Tree(TreeStats),
    List(ListStats),
    Show(ShowStats),
    Find(FindStats),
}

/// The view of an optional string.
pub open spec fn opt_string_view(o: Option<String>) -> Option<Seq<char>> {
    match o {
        Some(s) => Some(s@),
        None => None,
    }
}

/// Whether the subcommand of `command` succeeds on a hive file with
/// contents `hive_bytes`: the file is a hive, its root key (or the key that
/// `list`/`show` address) is there, and the parts of the hive the
/// subcommand reads can be read (for `find`, within its key limit).
pub open spec fn command_succeeds(command: Command, hive_bytes: Seq<u8>) -> bool {
    match command {
        Command::Info { .. } => is_hive(hive_bytes)
            && (root_result(hive_bytes) matches Ok(root) && subkeys_countable(root)),
        Command::Tree { depth, .. } => is_hive(hive_bytes)
            && (root_result(hive_bytes) matches Ok(root) && tree_readable(root, 0, depth)),
        Command::List { key_path, .. } => is_hive(hive_bytes)
            && (target_key(hive_bytes, opt_string_view(key_path)) matches Some(t) && children_listable(t)),
        Command::Show { key_path, .. } => is_hive(hive_bytes)
            && (target_key(hive_bytes, opt_string_view(key_path)) matches Some(t) && values_listable(t)),
        Command::Find { value, max_depth, .. } => find_succeeds(hive_bytes, value is Some, max_depth),
    }
}

/// `e` is an error the subcommand of `command` reports on a hive file with
/// contents `hive_bytes`, as its subcommand's `run` states it.
pub open spec fn command_error(command: Command, e: ViewError, hive_bytes: Seq<u8>) -> bool {
    match command {
        Command::Info { path, .. } => info_error(e, path@, hive_bytes),
        Command::Tree { path, depth, .. } => tree_error(e, path@, hive_bytes, depth),
        Command::List { path, key_path, .. } => list_error(e, path@, opt_string_view(key_path), hive_bytes),
        Command::Show { path, key_path, .. } => show_error(e, path@, opt_string_view(key_path), hive_bytes),
        Command::Find { path, value, max_depth, .. } => find_error(e, path@, hive_bytes, value is Some, max_depth),
    }
}

/// `report` is the payload `command` asks for on a hive file with contents
/// `hive_bytes`, as its subcommand's `run` states it.
pub open spec fn answers(command: Command, report: Report, hive_bytes: Seq<u8>) -> bool {
    match command {
        Command::Info { path, .. } => report matches Report::Info(i)
            && describes_file(i.base, path@, hive_bytes)
            && (root_result(hive_bytes) matches Ok(root) && i.root_subkey_count == subkey_total(root))
            && i.minor_version_known == (i.base.minor_version <= 6),
        Command::Tree { path, depth, .. } => report matches Report::Tree(t)
            && describes_file(t.base, path@, hive_bytes) && t.depth_limit == depth
            && t.tree.name@ == "<root>"@ && respects_depth(t.tree, 0, depth) && fits_depth(t.tree, 0)
            && (root_result(hive_bytes) matches Ok(root) && tree_built(t.tree, root, "<root>"@, 0, depth)),
        Command::List { path, key_path, .. } => report matches Report::List(l)
            && describes_file(l.base, path@, hive_bytes)
            && l.at@ == at_label(opt_string_view(key_path)) && l.total_entries == l.entries@.len()
            && (target_key(hive_bytes, opt_string_view(key_path)) matches Some(t)
                && l.entries@.len() == key_children(t).len()
                && (forall|i: int| 0 <= i < l.entries@.len() ==> entry_of(#[trigger] l.entries@[i], key_children(t)[i]))
                && texts(l.warnings@) == listing_warnings(key_children(t))),
        Command::Show { path, key_path, .. } => report matches Report::Show(s)
            && describes_file(s.base, path@, hive_bytes)
            && s.at@ == at_label(opt_string_view(key_path)) && s.total_values == s.entries@.len()
            && (target_key(hive_bytes, opt_string_view(key_path)) matches Some(t)
                && s.entries@.len() == key_values(t).len()
                && forall|i: int| 0 <= i < s.entries@.len() ==> entry_shows(#[trigger] s.entries@[i], key_values(t)[i])),
        Command::Find { path, name, value, case_sensitive, max_depth, .. } => report matches Report::Find(f)
            && describes_file(f.base, path@, hive_bytes) && scans_hive(f, hive_bytes)
            && f.patterns.name@ == name@ && opt_string_view(f.patterns.value) == opt_string_view(value)
            && f.patterns.case_sensitive == case_sensitive && f.max_depth == max_depth
            && exists|scanned: Seq<ScannedKey>| is_scan_result(f, scanned),
    }
}

/// Run the subcommand of `command` on the hive in `hive_bytes` (read from
/// the file that `command` names).
pub fn run(command: &Command, hive_bytes: &[u8]) -> (r: Result<Report, ViewError>)
    requires
        root_lookup_safe(hive_bytes@),
    ensures
        r is Ok <==> command_succeeds(*command, hive_bytes@),
        r matches Ok(report) ==> answers(*command, report, hive_bytes@),
        r matches Err(e) ==> command_error(*command, e, hive_bytes@),
        !is_hive(hive_bytes@) ==> refused_as_non_hive(r, command.spec_path()),
{
    match command {
        Command::Info { path, .. } => {
            let info = view::info::run(path.as_str(), hive_bytes)?;
            Ok(Report::Info(info))
        },
        Command::Tree { path, depth, .. } => {
            let tree = view::tree::run(path.as_str(), hive_bytes, *depth)?;
            Ok(Report::Tree(tree))
        },
        Command::List { path, key_path, .. } => {
            let kp = match key_path {
                Some(k) => Some(k.as_str()),
                None => None,
            };
            let list = view::list::run(path.as_str(), hive_bytes, kp)?;
            Ok(Report::List(list))
        },
        Command::Show { path, key_path, .. } => {
            let kp = match key_path {
                Some(k) => Some(k.as_str()),
                None => None,
            };
            let show = view::show::run(path.as_str(), hive_bytes, kp)?;
            Ok(Report::Show(show))
        },
        Command::Find { path, name, value, case_sensitive, max_depth, .. } => {
            let v = match value {
                Some(s) => Some(s.as_str()),
                None => None,
            };
            let find = view::find::run(path.as_str(), hive_bytes, name.as_slice(), v, *case_sensitive, *max_depth)?;
            Ok(Report::Find(find))
        },
    }
}

/// Whether `nt_hive` can walk the hive in `hive_bytes` without tripping
/// its assertion on an offset it follows.
pub fn root_lookup_is_safe(hive_bytes: &[u8]) -> (b: bool)
    ensures
        b == root_lookup_safe(hive_bytes@),
{
    if hive_bytes.len() >= 4096 && !has_regf_signature(hive_bytes) {
        return true;
    }
    match hive_new(hive_bytes) {
        Err(_) => true,
        Ok(_) => {
            let offset: u32 = hive_bytes[36] as u32 + 256 * (hive_bytes[37] as u32)
                + 65536 * (hive_bytes[38] as u32) + 16777216 * (hive_bytes[39] as u32);
            assert(offset == root_cell_offset(hive_bytes@));
            offset != u32::MAX && check_offsets(hive_bytes)
        },
    }
}

/// `run`, on every input: `None` for a hive on which `nt_hive` could be
/// led to an offset it asserts on.
pub fn run_checked(command: &Command, hive_bytes: &[u8]) -> (r: Option<Result<Report, ViewError>>)
    ensures
        r is None <==> !root_lookup_safe(hive_bytes@),
        r matches Some(res) ==> (res is Ok <==> command_succeeds(*command, hive_bytes@)),
        r matches Some(Ok(report)) ==> answers(*command, report, hive_bytes@),
        r matches Some(Err(e)) ==> command_error(*command, e, hive_bytes@),
        !is_hive(hive_bytes@) ==> (r matches Some(res) && refused_as_non_hive(res, command.spec_path())),
{
    if root_lookup_is_safe(hive_bytes) {
        Some(run(command, hive_bytes))
    } else {
        None
    }
}

impl Report {
    /// The human-readable text of the payload, as its subcommand renders it.
    pub fn render_human(&self) -> (out: String)
        requires
            self matches Report::Tree(t) ==> fits_depth(t.tree, 0),
        ensures
            match self {
                Report::Info(i) => out@ == view::info::info_report(*i),
                Report::Tree(t) => out@ == view::tree::tree_report(*t),
                Report::List(l) => out@ == view::list::list_report(*l),
                Report::Show(s) => out@ == view::show::show_report(*s),
                Report::Find(f) => out@ == view::find::find_report(*f),
            },
    {
        match self {
            Report::Info(i) => view::info::render_human(i),
            Report::Tree(t) => view::tree::render_human(t),
            Report::List(l) => view::list::render_human(l),
            Report::Show(s) => view::show::render_human(s),
            Report::Find(f) => view::find::render_human(f),
        }
    }
}

} // verus!
