//! The rule data model and the per-file planner: a `RuleAction` binds an
//! operation kind to a watch directory, a pattern, and kind-specific
//! parameters; planning turns a directory listing into the exact sequence of
//! filesystem operations the action calls for, without performing any of
//! them.

use vstd::prelude::*;

use crate::paths::basename;
use crate::paths::basename_spec;
use crate::paths::has_prefix;
use crate::paths::join_dir;
use crate::paths::join_spec;
use crate::paths::strip_prefix;
use crate::paths::strip_prefix_spec;
use crate::pattern::regex_expansion;
use crate::pattern::regex_match;
use crate::pattern::Pattern;
use crate::template::normalize_template;
use crate::template::normalize_template_spec;

verus! {

/// The failures an action can surface: a required field absent for its
/// kind, an unusable pattern, a failed template expansion, an unreadable
/// watch directory, or a per-file filesystem failure.
#[derive(Clone, Copy, Debug, PartialEq, Eq, Structural)]
pub enum ActionError {
    MissingParameter,
    Pattern,
    Template,
    Scan,
    Io,
}

/// The closed set of operations a rule action can perform on a file.
#[derive(Clone, Copy, Debug, Hash, PartialEq, Eq, Structural)]
pub enum RuleActionType {
    Move,
    Rename,
    Delete,
    Copy,
    Link,
    Chmod,
}

/// A single typed file operation bound to a watch directory and pattern.
/// Kind-specific fields are optional; their presence is checked once per
/// action at execution time, not at construction.
pub struct RuleAction {
    /// The operation to perform on each matched file.
    pub action: RuleActionType,
    /// Root of the recursive scan.
    pub watch_dir: String,
    /// Pattern tested against watch-root-relative paths; required by every kind.
    pub match_regex: Option<Pattern>,
    /// Template for the new relative path; required only for `Rename`.
    pub rename_pattern: Option<String>,
    /// Directory receiving the file; required only for `Move`, `Copy`, `Link`.
    pub destination_dir: Option<String>,
    /// Permission bits to set; required only for `Chmod`.
    pub permissions: Option<u32>,
}

/// A named, ordered list of actions plus an advisory re-run interval.
pub struct Rule {
    /// Duration expression; informational only, the engine does not schedule.
    pub interval: String,
    /// Actions executed strictly in declared order.
    pub actions: Vec<RuleAction>,
}

/// An ordered mapping from rule name to rule: declaration order is kept so
/// that execution order is deterministic across runs given the same input.
pub struct Rules {
    pub entries: Vec<(String, Rule)>,
}

/// Every field the action's kind needs is present.
pub open spec fn required_fields_present(a: RuleAction) -> bool {
    &&& a.match_regex is Some
    &&& match a.action {
        RuleActionType::Rename => a.rename_pattern is Some,
        RuleActionType::Move | RuleActionType::Copy | RuleActionType::Link =>
            a.destination_dir is Some,
        RuleActionType::Chmod => a.permissions is Some,
        RuleActionType::Delete => true,
    }
}

/// The path, stripped of the watch-root prefix, satisfies the pattern.
pub open spec fn path_matches_spec(pat: Seq<char>, watch: Seq<char>, path: Seq<char>) -> bool {
    regex_match(pat, strip_prefix_spec(path, watch))
}

/// The rename target: the watch-root prefix of the path is kept and the
/// relative remainder is replaced by the expanded template (normalized so
/// that `$digits` reads as a numbered group followed by literal text).
pub open spec fn rename_target_spec(
    watch: Seq<char>,
    path: Seq<char>,
    pat: Seq<char>,
    tmpl: Seq<char>,
) -> Seq<char> {
    let normalized = normalize_template_spec(tmpl);
    if has_prefix(path, watch) {
        watch + regex_expansion(pat, strip_prefix_spec(path, watch), normalized)
    } else {
        regex_expansion(pat, path, normalized)
    }
}

/// The move/copy/link target: the destination directory joined with the
/// file's basename.
pub open spec fn dest_target_spec(dest: Seq<char>, path: Seq<char>) -> Seq<char> {
    join_spec(dest, basename_spec(path))
}

/// A single planned filesystem operation, produced by the planner and
/// applied either to the in-memory state model or, by an unverified shell,
/// to the real filesystem.
#[derive(Debug)]
pub enum FileOp {
    /// Nothing to do: the computed target equals the source.
    NoOp,
    /// Rename `from` to `to` in place.
    Rename { from: String, to: String },
    /// Move: copy `from` to `to`, then delete `from` (tolerates crossing
    /// filesystem boundaries, at the price of non-atomicity).
    CopyThenDelete { from: String, to: String },
    /// Copy `from` to `to`; the original is untouched.
    Copy { from: String, to: String },
    /// Remove the file.
    Delete { path: String },
    /// Create a hard link at `to` pointing at `from`'s data.
    HardLink { from: String, to: String },
    /// Set the file's permission bits.
    Chmod { path: String, mode: u32 },
}

/// The mathematical counterpart of [`FileOp`].
#[verifier::ext_equal]
pub enum FileOpModel {
    NoOp,
    Rename { from: Seq<char>, to: Seq<char> },
    CopyThenDelete { from: Seq<char>, to: Seq<char> },
    Copy { from: Seq<char>, to: Seq<char> },
    Delete { path: Seq<char> },
    HardLink { from: Seq<char>, to: Seq<char> },
    Chmod { path: Seq<char>, mode: u32 },
}

impl View for FileOp {
    type V = FileOpModel;

    open spec fn view(&self) -> FileOpModel {
        match self {
            FileOp::NoOp => FileOpModel::NoOp,
            FileOp::Rename { from, to } => FileOpModel::Rename { from: from@, to: to@ },
            FileOp::CopyThenDelete { from, to } => FileOpModel::CopyThenDelete {
                from: from@,
                to: to@,
            },
            FileOp::Copy { from, to } => FileOpModel::Copy { from: from@, to: to@ },
            FileOp::Delete { path } => FileOpModel::Delete { path: path@ },
            FileOp::HardLink { from, to } => FileOpModel::HardLink { from: from@, to: to@ },
            FileOp::Chmod { path, mode } => FileOpModel::Chmod { path: path@, mode: *mode },
        }
    }
}

impl DeepView for FileOp {
    type V = FileOpModel;

    open spec fn deep_view(&self) -> FileOpModel {
        self.view()
    }
}

/// The operation an action plans for one matched path.
pub open spec fn planned_op_spec(a: RuleAction, path: Seq<char>) -> FileOpModel
    recommends
        required_fields_present(a),
{
    match a.action {
        RuleActionType::Rename => {
            let to = rename_target_spec(
                a.watch_dir@,
                path,
                a.match_regex->0@,
                a.rename_pattern->0@,
            );
            if to == path {
                FileOpModel::NoOp
            } else {
                FileOpModel::Rename { from: path, to }
            }
        },
        RuleActionType::Move => {
            let to = dest_target_spec(a.destination_dir->0@, path);
            if to == path {
                FileOpModel::NoOp
            } else {
                FileOpModel::CopyThenDelete { from: path, to }
            }
        },
        RuleActionType::Copy => FileOpModel::Copy {
            from: path,
            to: dest_target_spec(a.destination_dir->0@, path),
        },
        RuleActionType::Delete => FileOpModel::Delete { path },
        RuleActionType::Link => FileOpModel::HardLink {
            from: path,
            to: dest_target_spec(a.destination_dir->0@, path),
        },
        RuleActionType::Chmod => FileOpModel::Chmod { path, mode: a.permissions->0 },
    }
}

/// The subset of a listing whose watch-root-relative path matches.
pub open spec fn matched_paths_spec(
    watch: Seq<char>,
    pat: Seq<char>,
    listing: Seq<Seq<char>>,
) -> Seq<Seq<char>> {
    listing.filter(|p: Seq<char>| regex_match(pat, strip_prefix_spec(p, watch)))
}

/// The whole plan of an action over a listing: one operation per matched
/// path, in listing order.
pub open spec fn plan_ops_spec(a: RuleAction, listing: Seq<Seq<char>>) -> Seq<FileOpModel>
    recommends
        required_fields_present(a),
{
    matched_paths_spec(a.watch_dir@, a.match_regex->0@, listing).map_values(
        |p: Seq<char>| planned_op_spec(a, p),
    )
}

/// Test a file's path, relative to the watch root, against the pattern.
pub fn path_matches(match_regex: &Pattern, watch_dir: &str, filepath: &str) -> (r: bool)
    ensures
        r == path_matches_spec(match_regex@, watch_dir@, filepath@),
{
    let rel = strip_prefix(filepath, watch_dir);
    match_regex.is_match(rel.as_str())
}

/// Extending the listing by one path extends the matched subset by that path
/// exactly when its watch-root-relative remainder matches.
proof fn lemma_matched_paths_step(watch: Seq<char>, pat: Seq<char>, listing: Seq<Seq<char>>, i: int)
    requires
        0 <= i < listing.len(),
    ensures
        matched_paths_spec(watch, pat, listing.take(i + 1)) == if regex_match(
            pat,
            strip_prefix_spec(listing[i], watch),
        ) {
            matched_paths_spec(watch, pat, listing.take(i)).push(listing[i])
        } else {
            matched_paths_spec(watch, pat, listing.take(i))
        },
{
    reveal(Seq::filter);
    let t = listing.take(i + 1);
    assert(t.drop_last() =~= listing.take(i));
    assert(t.last() == listing[i]);
}

/// Keep the paths of a directory listing whose watch-root-relative remainder
/// matches the pattern, in listing order.
pub fn match_directory_listing(path: &str, match_regex: &Pattern, listing: &Vec<String>) -> (r: Vec<
    String,
>)
    ensures
        r.deep_view() == matched_paths_spec(path@, match_regex@, listing.deep_view()),
{
    let mut matched: Vec<String> = Vec::new();
    let mut i: usize = 0;
    while i < listing.len()
        invariant
            i <= listing.len(),
            matched.deep_view() == matched_paths_spec(
                path@,
                match_regex@,
                listing.deep_view().take(i as int),
            ),
        decreases listing.len() - i,
    {
        let candidate = &listing[i];
        let ghost pre = matched.deep_view();
        proof {
            lemma_matched_paths_step(path@, match_regex@, listing.deep_view(), i as int);
            assert(listing.deep_view()[i as int] == candidate@);
        }
        if path_matches(match_regex, path, candidate.as_str()) {
            matched.push(candidate.clone());
            proof {
                assert(matched.deep_view() =~= pre.push(candidate@));
            }
        }
        i += 1;
    }
    proof {
        assert(listing.deep_view().take(listing.len() as int) =~= listing.deep_view());
    }
    matched
}

/// Build the new absolute path for a matched file: recompute the relative
/// path, expand the template from freshly extracted captures, and put the
/// watch-root prefix back in front of the expansion.
pub fn generate_new_filename(path: &str, filepath: &str, match_regex: &Pattern, new_format: &str) -> (r:
    Result<String, ActionError>)
    ensures
        r is Ok <==> path_matches_spec(match_regex@, path@, filepath@),
        r is Ok ==> r->Ok_0@ == rename_target_spec(path@, filepath@, match_regex@, new_format@),
        r is Err ==> r->Err_0 == ActionError::Template,
{
    let n: usize = filepath.unicode_len();
    let rel = strip_prefix(filepath, path);
    let normalized = normalize_template(new_format);
    match match_regex.expand(rel.as_str(), normalized.as_str()) {
        Some(expanded) => {
            if rel.unicode_len() == n {
                // No prefix was stripped: the whole path was relative.
                assert(!has_prefix(filepath@, path@) || path@.len() == 0);
                if path.unicode_len() == 0 {
                    assert(path@ + expanded@ =~= expanded@);
                }
                Ok(expanded)
            } else {
                assert(has_prefix(filepath@, path@));
                let kept = filepath.substring_char(0, path.unicode_len());
                assert(kept@ == path@);
                let mut out = kept.to_owned();
                out.append(expanded.as_str());
                Ok(out)
            }
        },
        None => Err(ActionError::Template),
    }
}

impl RuleAction {
    /// Check once, before any per-file work, that every field this action's
    /// kind requires is present.
    pub fn validate(&self) -> (r: Result<(), ActionError>)
        ensures
            r is Ok <==> required_fields_present(*self),
            r is Err ==> r->Err_0 == ActionError::MissingParameter,
    {
        if self.match_regex.is_none() {
            return Err(ActionError::MissingParameter);
        }
        let specific_present = match self.action {
            RuleActionType::Rename => self.rename_pattern.is_some(),
            RuleActionType::Move | RuleActionType::Copy | RuleActionType::Link =>
                self.destination_dir.is_some(),
            RuleActionType::Chmod => self.permissions.is_some(),
            RuleActionType::Delete => true,
        };
        if specific_present {
            Ok(())
        } else {
            Err(ActionError::MissingParameter)
        }
    }

    /// Plan the operation for one matched path.
    fn plan_file(&self, filepath: &String) -> (r: FileOp)
        requires
            required_fields_present(*self),
            path_matches_spec(self.match_regex->0@, self.watch_dir@, filepath@),
        ensures
            r@ == planned_op_spec(*self, filepath@),
    {
        match self.action {
            RuleActionType::Rename => {
                let match_regex = self.match_regex.as_ref().unwrap();
                let tmpl = self.rename_pattern.as_ref().unwrap();
                let to = match generate_new_filename(
                    self.watch_dir.as_str(),
                    filepath.as_str(),
                    match_regex,
                    tmpl.as_str(),
                ) {
                    Ok(to) => to,
                    // The path is known to match, so expansion succeeds.
                    Err(_) => unreached(),
                };
                if to == *filepath {
                    FileOp::NoOp
                } else {
                    FileOp::Rename { from: filepath.clone(), to }
                }
            },
            RuleActionType::Move => {
                let dest = self.destination_dir.as_ref().unwrap();
                let name = basename(filepath.as_str());
                let to = join_dir(dest.as_str(), name.as_str());
                if to == *filepath {
                    FileOp::NoOp
                } else {
                    FileOp::CopyThenDelete { from: filepath.clone(), to }
                }
            },
            RuleActionType::Copy => {
                let dest = self.destination_dir.as_ref().unwrap();
                let name = basename(filepath.as_str());
                FileOp::Copy {
                    from: filepath.clone(),
                    to: join_dir(dest.as_str(), name.as_str()),
                }
            },
            RuleActionType::Delete => FileOp::Delete { path: filepath.clone() },
            RuleActionType::Link => {
                let dest = self.destination_dir.as_ref().unwrap();
                let name = basename(filepath.as_str());
                FileOp::HardLink {
                    from: filepath.clone(),
                    to: join_dir(dest.as_str(), name.as_str()),
                }
            },
            RuleActionType::Chmod => {
                let mode = self.permissions.as_ref().unwrap();
                FileOp::Chmod { path: filepath.clone(), mode: *mode }
            },
        }
    }

    /// Execute the action over a directory listing, in the planning sense:
    /// validate the kind's required fields once, match every path against
    /// the pattern relative to the watch root, and return one planned
    /// operation per matched path, in listing order. No filesystem is
    /// touched; applying the plan is the caller's affair.
    pub fn execute(&self, listing: &Vec<String>) -> (r: Result<Vec<FileOp>, ActionError>)
        ensures
            r is Ok <==> required_fields_present(*self),
            r is Err ==> r->Err_0 == ActionError::MissingParameter,
            r is Ok ==> r->Ok_0.deep_view() == plan_ops_spec(*self, listing.deep_view()),
    {
        match self.validate() {
            Ok(()) => (),
            Err(e) => {
                return Err(e);
            },
        }
        let match_regex = self.match_regex.as_ref().unwrap();
        let matched = match_directory_listing(self.watch_dir.as_str(), match_regex, listing);
        let ghost matched_view = matched_paths_spec(
            self.watch_dir@,
            self.match_regex->0@,
            listing.deep_view(),
        );
        let mut ops: Vec<FileOp> = Vec::new();
        let mut i: usize = 0;
        while i < matched.len()
            invariant
                i <= matched.len(),
                i == ops.len(),
                required_fields_present(*self),
                matched.deep_view() == matched_view,
                matched_view == matched_paths_spec(
                    self.watch_dir@,
                    self.match_regex->0@,
                    listing.deep_view(),
                ),
                forall|j: int|
                    0 <= j < i ==> ops.deep_view()[j] == planned_op_spec(
                        *self,
                        matched_view[j],
                    ),
            decreases matched.len() - i,
        {
            proof {
                broadcast use vstd::seq_lib::group_filter_ensures;

                assert(matched_view[i as int] == matched.deep_view()[i as int]);
            }
            let op = self.plan_file(&matched[i]);
            let ghost pre_ops = ops@;
            let ghost pre_dv = ops.deep_view();
            ops.push(op);
            proof {
                assert forall|j: int| 0 <= j < i + 1 implies ops.deep_view()[j]
                    == planned_op_spec(*self, matched_view[j]) by {
                    assert(ops.deep_view()[j] == ops@[j].deep_view());
                    if j < i {
                        assert(ops@[j] == pre_ops[j]);
                        assert(pre_dv[j] == pre_ops[j].deep_view());
                    } else {
                        assert(ops@[j] == op);
                    }
                }
            }
            i += 1;
        }
        proof {
            assert(ops.deep_view() =~= plan_ops_spec(*self, listing.deep_view()));
        }
        Ok(ops)
    }
}

} // verus!
