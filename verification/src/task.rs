//! The decisions of the copy task: which configurations take part, where each
//! component is looked for, which files are copied, unpacked or cleaned away.
//! The task itself (directory listings, copies, messages) runs outside.
use vstd::prelude::*;

use crate::schema::{Component, Configure, Project};
use crate::service::{matches_masks, passes_masks, string_views};
use crate::text::{chars_of, contains, ends_with, eq_ignore_ascii_case, equal_ignoring_ascii_case, has_infix, has_suffix};

verus! {

broadcast use vstd::string::group_string_axioms;

/// How many files are copied at once.
pub const MAX_CONCURRENT_COPIES: usize = 8;

/// How the copy of one file ended.
#[derive(PartialEq, Eq, Structural, Clone, Copy, Debug)]
pub enum FileOutcome {
    /// The file was copied, or the archive unpacked.
    Done,
    /// The file could not be copied.
    CopyFailed,
    /// The archive could not be unpacked.
    UnpackFailed,
    /// The destination subdirectory does not exist; nothing was tried.
    MissingDir,
}

/// What is reported of one file.
#[derive(PartialEq, Eq, Structural, Clone, Copy, Debug)]
pub enum FileReport {
    /// `[done/total]` and the file's name: the file is the `done`-th of `total`
    /// to be done.
    Progress(usize, usize),
    /// The file could not be copied (a message).
    CopyFailed,
    /// The archive could not be unpacked (a message).
    UnpackFailed,
    /// The destination subdirectory does not exist (a warning).
    MissingDir,
}

/// The count of files done among the `total` files of one configuration.
pub struct CopyProgress {
    pub done: usize,
    pub total: usize,
}

/// How many of `outcomes` are done.
pub open spec fn done_count(outcomes: Seq<FileOutcome>) -> nat
    decreases outcomes.len(),
{
    if outcomes.len() == 0 {
        0
    } else {
        done_count(outcomes.drop_last()) + if outcomes.last() == FileOutcome::Done {
            1nat
        } else {
            0nat
        }
    }
}

impl CopyProgress {
    /// No file of `total` is done yet.
    pub fn new(total: usize) -> (r: Self)
        ensures
            r.done == 0,
            r.total == total,
    {
        CopyProgress { done: 0, total }
    }

    /// Records how one file ended and says what to report of it: a file done
    /// counts, and is reported with its place among the files done so far.
    pub fn record(&mut self, outcome: FileOutcome) -> (report: FileReport)
        requires
            outcome == FileOutcome::Done ==> old(self).done < old(self).total,
        ensures
            final(self).total == old(self).total,
            final(self).done == old(self).done + if outcome == FileOutcome::Done {
                1int
            } else {
                0int
            },
            report == match outcome {
                FileOutcome::Done => FileReport::Progress(final(self).done, final(self).total),
                FileOutcome::CopyFailed => FileReport::CopyFailed,
                FileOutcome::UnpackFailed => FileReport::UnpackFailed,
                FileOutcome::MissingDir => FileReport::MissingDir,
            },
    {
        match outcome {
            FileOutcome::Done => {
                self.done = self.done + 1;
                FileReport::Progress(self.done, self.total)
            },
            FileOutcome::CopyFailed => FileReport::CopyFailed,
            FileOutcome::UnpackFailed => FileReport::UnpackFailed,
            FileOutcome::MissingDir => FileReport::MissingDir,
        }
    }
}

/// Each file ends once, so no more files are done than were tried: recording
/// the outcomes of the `total` files of a configuration never counts past `total`.
pub proof fn law_done_within_total(outcomes: Seq<FileOutcome>)
    ensures
        done_count(outcomes) <= outcomes.len(),
    decreases outcomes.len(),
{
    if outcomes.len() > 0 {
        law_done_within_total(outcomes.drop_last());
    }
}

/// The pairs `(p, n)`, for the configurations `n` below `count` of project `p` that are selected.
pub open spec fn selected_configures(p: int, configures: Seq<Configure>, count: int) -> Seq<(int, int)>
    decreases count,
{
    if count <= 0 {
        Seq::empty()
    } else {
        selected_configures(p, configures, count - 1) + if configures[count - 1].selected {
            seq![(p, count - 1)]
        } else {
            Seq::empty()
        }
    }
}

/// The pairs (project, configuration), in order, of the selected configurations of
/// the first `count` projects that are themselves selected.
pub open spec fn selected_pairs(projects: Seq<Project>, count: int) -> Seq<(int, int)>
    decreases count,
{
    if count <= 0 {
        Seq::empty()
    } else {
        selected_pairs(projects, count - 1) + if projects[count - 1].selected {
            let cs = projects[count - 1].configures@;
            selected_configures(count - 1, cs, cs.len() as int)
        } else {
            Seq::empty()
        }
    }
}

/// The jobs of a copy run: every selected configuration of every selected project.
pub open spec fn copy_plan(projects: Seq<Project>) -> Seq<(int, int)> {
    selected_pairs(projects, projects.len() as int)
}

pub open spec fn pair_views(v: Seq<(usize, usize)>) -> Seq<(int, int)> {
    v.map_values(|j: (usize, usize)| (j.0 as int, j.1 as int))
}

/// The configurations that a copy run works through, as (project, configuration)
/// indices in order. The run reports that nothing is selected when this is empty.
pub fn copy_jobs(projects: &Vec<Project>) -> (jobs: Vec<(usize, usize)>)
    ensures
        pair_views(jobs@) == copy_plan(projects@),
{
    let mut jobs: Vec<(usize, usize)> = Vec::new();
    let mut p: usize = 0;
    while p < projects.len()
        invariant
            p <= projects.len(),
            pair_views(jobs@) == selected_pairs(projects@, p as int),
        decreases projects.len() - p,
    {
        let ghost before = jobs@;
        if projects[p].selected {
            let configures = &projects[p].configures;
            let mut c: usize = 0;
            while c < configures.len()
                invariant
                    p < projects.len(),
                    configures == &projects@[p as int].configures,
                    c <= configures.len(),
                    pair_views(jobs@) == pair_views(before) + selected_configures(
                        p as int,
                        configures@,
                        c as int,
                    ),
                decreases configures.len() - c,
            {
                let ghost mid = jobs@;
                if configures[c].selected {
                    jobs.push((p, c));
                    assert(pair_views(jobs@) =~= pair_views(mid) + seq![(p as int, c as int)]);
                } else {
                    assert(pair_views(jobs@) =~= pair_views(mid) + Seq::<(int, int)>::empty());
                }
                assert(pair_views(jobs@) =~= pair_views(before) + selected_configures(
                    p as int,
                    configures@,
                    c + 1,
                ));
                c = c + 1;
            }
        }
        assert(pair_views(jobs@) =~= selected_pairs(projects@, p + 1));
        p = p + 1;
    }
    jobs
}

proof fn lemma_no_selected_configures(p: int, configures: Seq<Configure>, count: int)
    requires
        0 <= count <= configures.len(),
    ensures
        selected_configures(p, configures, count).len() == 0 <==> forall|c: int|
            0 <= c < count ==> !(#[trigger] configures[c]).selected,
    decreases count,
{
    if count > 0 {
        lemma_no_selected_configures(p, configures, count - 1);
    }
}

proof fn lemma_no_selected_pairs(projects: Seq<Project>, count: int)
    requires
        0 <= count <= projects.len(),
    ensures
        selected_pairs(projects, count).len() == 0 <==> forall|p: int, c: int|
            0 <= p < count && 0 <= c < projects[p].configures@.len() ==> !(
            #[trigger] projects[p].selected && (#[trigger] projects[p].configures@[c]).selected),
    decreases count,
{
    if count > 0 {
        lemma_no_selected_pairs(projects, count - 1);
        let cs = projects[count - 1].configures@;
        lemma_no_selected_configures(count - 1, cs, cs.len() as int);
    }
}

/// A copy run has nothing to do (and says that nothing is selected) exactly when
/// no selected project has a selected configuration.
pub proof fn law_empty_plan_iff_nothing_selected(projects: Seq<Project>)
    ensures
        copy_plan(projects).len() == 0 <==> forall|p: int, c: int|
            0 <= p < projects.len() && 0 <= c < projects[p].configures@.len() ==> !(
            #[trigger] projects[p].selected && (#[trigger] projects[p].configures@[c]).selected),
{
    lemma_no_selected_pairs(projects, projects.len() as int);
}

proof fn lemma_selected_configures_members(p: int, configures: Seq<Configure>, count: int)
    requires
        0 <= count <= configures.len(),
    ensures
        forall|k: int|
            0 <= k < selected_configures(p, configures, count).len() ==> {
                let (q, c) = #[trigger] selected_configures(p, configures, count)[k];
                q == p && 0 <= c < count && configures[c].selected
            },
    decreases count,
{
    if count > 0 {
        lemma_selected_configures_members(p, configures, count - 1);
        let a = selected_configures(p, configures, count - 1);
        assert forall|k: int| 0 <= k < selected_configures(p, configures, count).len() implies {
            let (q, c) = #[trigger] selected_configures(p, configures, count)[k];
            q == p && 0 <= c < count && configures[c].selected
        } by {
            if k < a.len() {
                assert(selected_configures(p, configures, count)[k] == a[k]);
            }
        }
    }
}

proof fn lemma_selected_pairs_members(projects: Seq<Project>, count: int)
    requires
        0 <= count <= projects.len(),
    ensures
        forall|k: int|
            0 <= k < selected_pairs(projects, count).len() ==> {
                let (p, c) = #[trigger] selected_pairs(projects, count)[k];
                &&& 0 <= p < count
                &&& projects[p].selected
                &&& 0 <= c < projects[p].configures@.len()
                &&& projects[p].configures@[c].selected
            },
    decreases count,
{
    if count > 0 {
        lemma_selected_pairs_members(projects, count - 1);
        let a = selected_pairs(projects, count - 1);
        let cs = projects[count - 1].configures@;
        lemma_selected_configures_members(count - 1, cs, cs.len() as int);
        assert forall|k: int| 0 <= k < selected_pairs(projects, count).len() implies {
            let (p, c) = #[trigger] selected_pairs(projects, count)[k];
            &&& 0 <= p < count
            &&& projects[p].selected
            &&& 0 <= c < projects[p].configures@.len()
            &&& projects[p].configures@[c].selected
        } by {
            if k < a.len() {
                assert(selected_pairs(projects, count)[k] == a[k]);
            } else {
                assert(selected_pairs(projects, count)[k] == selected_configures(
                    count - 1,
                    cs,
                    cs.len() as int,
                )[k - a.len()]);
            }
        }
    }
}

/// A copy run works only on selected configurations of selected projects: every
/// job names a selected project and one of its selected configurations.
pub proof fn law_plan_only_selected(projects: Seq<Project>)
    ensures
        forall|k: int|
            0 <= k < copy_plan(projects).len() ==> {
                let (p, c) = #[trigger] copy_plan(projects)[k];
                &&& 0 <= p < projects.len()
                &&& projects[p].selected
                &&& 0 <= c < projects[p].configures@.len()
                &&& projects[p].configures@[c].selected
            },
{
    lemma_selected_pairs_members(projects, projects.len() as int);
}

/// Whether `a` and `b` agree on everything a copy run may read: the same projects
/// are selected; each selected project has the same destination, as many
/// configurations, the same of them selected, and the same selected ones.
/// Unselected projects and unselected configurations may differ in anything.
pub open spec fn same_selected_parts(a: Seq<Project>, b: Seq<Project>) -> bool {
    &&& a.len() == b.len()
    &&& forall|p: int| 0 <= p < a.len() ==> #[trigger] a[p].selected == b[p].selected
    &&& forall|p: int|
        0 <= p < a.len() && #[trigger] a[p].selected ==> {
            &&& a[p].destination_path == b[p].destination_path
            &&& a[p].configures@.len() == b[p].configures@.len()
            &&& forall|c: int|
                0 <= c < a[p].configures@.len() ==> #[trigger] a[p].configures@[c].selected
                    == b[p].configures@[c].selected
            &&& forall|c: int|
                0 <= c < a[p].configures@.len() && #[trigger] a[p].configures@[c].selected
                    ==> a[p].configures@[c] == b[p].configures@[c]
        }
}

proof fn lemma_selected_configures_same(p: int, a: Seq<Configure>, b: Seq<Configure>, count: int)
    requires
        0 <= count <= a.len(),
        a.len() == b.len(),
        forall|c: int| 0 <= c < a.len() ==> #[trigger] a[c].selected == b[c].selected,
    ensures
        selected_configures(p, a, count) == selected_configures(p, b, count),
    decreases count,
{
    if count > 0 {
        lemma_selected_configures_same(p, a, b, count - 1);
        assert(a[count - 1].selected == b[count - 1].selected);
    }
}

proof fn lemma_selected_pairs_same(a: Seq<Project>, b: Seq<Project>, count: int)
    requires
        0 <= count <= a.len(),
        same_selected_parts(a, b),
    ensures
        selected_pairs(a, count) == selected_pairs(b, count),
    decreases count,
{
    if count > 0 {
        lemma_selected_pairs_same(a, b, count - 1);
        let p = count - 1;
        assert(a[p].selected == b[p].selected);
        if a[p].selected {
            lemma_selected_configures_same(
                p,
                a[p].configures@,
                b[p].configures@,
                a[p].configures@.len() as int,
            );
        }
    }
}

/// Unselected projects and configurations are never read, cleaned or copied: two
/// project lists that agree on their selected parts give the same jobs, and each
/// job names the same destination and the same configuration in both.
pub proof fn law_unselected_never_read(a: Seq<Project>, b: Seq<Project>)
    requires
        same_selected_parts(a, b),
    ensures
        copy_plan(a) == copy_plan(b),
        forall|k: int|
            0 <= k < copy_plan(a).len() ==> {
                let (p, c) = #[trigger] copy_plan(a)[k];
                &&& a[p].destination_path == b[p].destination_path
                &&& a[p].configures@[c] == b[p].configures@[c]
            },
{
    lemma_selected_pairs_same(a, b, a.len() as int);
    law_plan_only_selected(a);
}

/// Whether `b` is `a` with every unselected configuration removed, the kept ones
/// unchanged and in order.
pub open spec fn pruned_configures(a: Seq<Configure>, b: Seq<Configure>) -> bool
    decreases a.len(),
{
    if a.len() == 0 {
        b.len() == 0
    } else if a.last().selected {
        b.len() > 0 && b.last() == a.last() && pruned_configures(a.drop_last(), b.drop_last())
    } else {
        pruned_configures(a.drop_last(), b)
    }
}

/// Whether `b` is `a` with every unselected project removed and, in each kept
/// project, every unselected configuration removed; a kept project keeps its
/// destination and stays selected.
pub open spec fn pruned_projects(a: Seq<Project>, b: Seq<Project>) -> bool
    decreases a.len(),
{
    if a.len() == 0 {
        b.len() == 0
    } else if a.last().selected {
        &&& b.len() > 0
        &&& b.last().selected
        &&& b.last().destination_path == a.last().destination_path
        &&& pruned_configures(a.last().configures@, b.last().configures@)
        &&& pruned_projects(a.drop_last(), b.drop_last())
    } else {
        pruned_projects(a.drop_last(), b)
    }
}

/// What a job of a copy run reads: the project's destination and the configuration.
pub open spec fn job_work(projects: Seq<Project>, job: (int, int)) -> (Seq<char>, Configure) {
    (projects[job.0].destination_path@, projects[job.0].configures@[job.1])
}

/// What the jobs of a copy run read, in order.
pub open spec fn plan_work(projects: Seq<Project>) -> Seq<(Seq<char>, Configure)> {
    copy_plan(projects).map_values(|j: (int, int)| job_work(projects, j))
}

/// The selected configurations of `cs`, each with the destination `dest`, in order.
pub open spec fn configure_work(dest: Seq<char>, cs: Seq<Configure>) -> Seq<(Seq<char>, Configure)>
    decreases cs.len(),
{
    if cs.len() == 0 {
        Seq::empty()
    } else {
        configure_work(dest, cs.drop_last()) + if cs.last().selected {
            seq![(dest, cs.last())]
        } else {
            Seq::empty()
        }
    }
}

/// The selected configurations of the selected projects, each with its project's
/// destination, in order.
pub open spec fn project_work(ps: Seq<Project>) -> Seq<(Seq<char>, Configure)>
    decreases ps.len(),
{
    if ps.len() == 0 {
        Seq::empty()
    } else {
        project_work(ps.drop_last()) + if ps.last().selected {
            configure_work(ps.last().destination_path@, ps.last().configures@)
        } else {
            Seq::empty()
        }
    }
}

proof fn lemma_configures_work(ps: Seq<Project>, p: int, k: int)
    requires
        0 <= p < ps.len(),
        0 <= k <= ps[p].configures@.len(),
    ensures
        selected_configures(p, ps[p].configures@, k).map_values(|j: (int, int)| job_work(ps, j))
            == configure_work(ps[p].destination_path@, ps[p].configures@.subrange(0, k)),
    decreases k,
{
    let cs = ps[p].configures@;
    let f = |j: (int, int)| job_work(ps, j);
    if k == 0 {
        assert(selected_configures(p, cs, k).map_values(f) =~= Seq::empty());
    } else {
        lemma_configures_work(ps, p, k - 1);
        let pre = selected_configures(p, cs, k - 1);
        let tail: Seq<(int, int)> = if cs[k - 1].selected {
            seq![(p, k - 1)]
        } else {
            Seq::empty()
        };
        assert((pre + tail).map_values(f) =~= pre.map_values(f) + tail.map_values(f));
        let sub = cs.subrange(0, k);
        assert(sub.drop_last() =~= cs.subrange(0, k - 1));
        assert(sub.last() == cs[k - 1]);
        let d = ps[p].destination_path@;
        let rtail: Seq<(Seq<char>, Configure)> = if cs[k - 1].selected {
            seq![(d, cs[k - 1])]
        } else {
            Seq::empty()
        };
        assert(tail.map_values(f) =~= rtail);
    }
}

proof fn lemma_pairs_work(ps: Seq<Project>, n: int)
    requires
        0 <= n <= ps.len(),
    ensures
        selected_pairs(ps, n).map_values(|j: (int, int)| job_work(ps, j)) == project_work(
            ps.subrange(0, n),
        ),
    decreases n,
{
    let f = |j: (int, int)| job_work(ps, j);
    if n == 0 {
        assert(selected_pairs(ps, n).map_values(f) =~= Seq::empty());
    } else {
        lemma_pairs_work(ps, n - 1);
        let pre = selected_pairs(ps, n - 1);
        let cs = ps[n - 1].configures@;
        let tail: Seq<(int, int)> = if ps[n - 1].selected {
            selected_configures(n - 1, cs, cs.len() as int)
        } else {
            Seq::empty()
        };
        assert((pre + tail).map_values(f) =~= pre.map_values(f) + tail.map_values(f));
        let sub = ps.subrange(0, n);
        assert(sub.drop_last() =~= ps.subrange(0, n - 1));
        assert(sub.last() == ps[n - 1]);
        if ps[n - 1].selected {
            lemma_configures_work(ps, n - 1, cs.len() as int);
            assert(cs.subrange(0, cs.len() as int) =~= cs);
        } else {
            assert(tail.map_values(f) =~= Seq::empty());
        }
    }
}

proof fn lemma_pruned_configures_work(dest: Seq<char>, a: Seq<Configure>, b: Seq<Configure>)
    requires
        pruned_configures(a, b),
    ensures
        configure_work(dest, a) == configure_work(dest, b),
    decreases a.len(),
{
    if a.len() > 0 {
        if a.last().selected {
            lemma_pruned_configures_work(dest, a.drop_last(), b.drop_last());
        } else {
            lemma_pruned_configures_work(dest, a.drop_last(), b);
            if b.len() > 0 {
                lemma_pruned_configures_all_selected(a.drop_last(), b);
                assert(b.last().selected);
            }
        }
    }
}

proof fn lemma_pruned_configures_all_selected(a: Seq<Configure>, b: Seq<Configure>)
    requires
        pruned_configures(a, b),
    ensures
        forall|i: int| 0 <= i < b.len() ==> (#[trigger] b[i]).selected,
    decreases a.len(),
{
    if a.len() > 0 {
        if a.last().selected {
            lemma_pruned_configures_all_selected(a.drop_last(), b.drop_last());
            assert forall|i: int| 0 <= i < b.len() implies (#[trigger] b[i]).selected by {
                if i < b.len() - 1 {
                    assert(b[i] == b.drop_last()[i]);
                }
            }
        } else {
            lemma_pruned_configures_all_selected(a.drop_last(), b);
        }
    }
}

proof fn lemma_pruned_projects_work(a: Seq<Project>, b: Seq<Project>)
    requires
        pruned_projects(a, b),
    ensures
        project_work(a) == project_work(b),
    decreases a.len(),
{
    if a.len() > 0 {
        if a.last().selected {
            lemma_pruned_projects_work(a.drop_last(), b.drop_last());
            lemma_pruned_configures_work(
                a.last().destination_path@,
                a.last().configures@,
                b.last().configures@,
            );
        } else {
            lemma_pruned_projects_work(a.drop_last(), b);
        }
    }
}

/// Dropping the unselected projects, and the unselected configurations of the
/// kept projects, changes no job of a copy run: the jobs of both lists read the
/// same destinations and configurations, in the same order. So unselected projects
/// and configurations are never read, cleaned or copied.
pub proof fn law_pruning_keeps_the_work(a: Seq<Project>, b: Seq<Project>)
    requires
        pruned_projects(a, b),
    ensures
        plan_work(a) == plan_work(b),
        copy_plan(a).len() == copy_plan(b).len(),
{
    lemma_pairs_work(a, a.len() as int);
    lemma_pairs_work(b, b.len() as int);
    assert(a.subrange(0, a.len() as int) =~= a);
    assert(b.subrange(0, b.len() as int) =~= b);
    lemma_pruned_projects_work(a, b);
    assert(plan_work(a).len() == copy_plan(a).len());
    assert(plan_work(b).len() == copy_plan(b).len());
}

/// The indices of the selected components, in order.
pub open spec fn selected_components(components: Seq<Component>, count: int) -> Seq<int>
    decreases count,
{
    if count <= 0 {
        Seq::empty()
    } else {
        selected_components(components, count - 1) + if components[count - 1].selected {
            seq![count - 1]
        } else {
            Seq::empty()
        }
    }
}

proof fn lemma_selected_components_shape(components: Seq<Component>, count: int)
    requires
        0 <= count <= components.len(),
    ensures
        forall|k: int|
            0 <= k < selected_components(components, count).len() ==> 0 <= #[trigger] selected_components(
                components,
                count,
            )[k] < count,
        forall|a: int, b: int|
            0 <= a < b < selected_components(components, count).len() ==> #[trigger] selected_components(
                components,
                count,
            )[a] < #[trigger] selected_components(components, count)[b],
        forall|i: int|
            0 <= i < count ==> (selected_components(components, count).contains(i)
                <==> #[trigger] components[i].selected),
    decreases count,
{
    if count > 0 {
        lemma_selected_components_shape(components, count - 1);
        let a = selected_components(components, count - 1);
        let s = selected_components(components, count);
        assert forall|k: int| 0 <= k < s.len() implies 0 <= #[trigger] s[k] < count by {
            if k < a.len() {
                assert(s[k] == a[k]);
            }
        }
        assert forall|x: int, y: int| 0 <= x < y < s.len() implies #[trigger] s[x] < #[trigger] s[y] by {
            assert(s[x] == a[x]);
            if y < a.len() {
                assert(s[y] == a[y]);
            } else {
                assert(s[y] == count - 1);
            }
        }
        assert forall|i: int| 0 <= i < count implies (s.contains(i)
            <==> #[trigger] components[i].selected) by {
            if i < count - 1 {
                if a.contains(i) {
                    let k = choose|k: int| 0 <= k < a.len() && a[k] == i;
                    assert(s[k] == a[k]);
                }
                if s.contains(i) {
                    let k = choose|k: int| 0 <= k < s.len() && s[k] == i;
                    if k < a.len() {
                        assert(s[k] == a[k]);
                    } else {
                        assert(s[k] == count - 1);
                    }
                }
            } else {
                if components[i].selected {
                    assert(s[a.len() as int] == i);
                }
                if s.contains(i) {
                    let k = choose|k: int| 0 <= k < s.len() && s[k] == i;
                    if k < a.len() {
                        assert(s[k] == a[k]);
                    }
                }
            }
        }
    }
}

/// The components to copy are exactly the selected ones, each once, in order:
/// an index occurs in the result exactly when it is a component that is selected,
/// and the result increases strictly.
pub proof fn law_components_to_copy_are_the_selected(components: Seq<Component>)
    ensures
        forall|i: int|
            #![trigger components[i]]
            selected_components(components, components.len() as int).contains(i) <==> (0 <= i
                < components.len() && components[i].selected),
        forall|a: int, b: int|
            0 <= a < b < selected_components(components, components.len() as int).len()
                ==> #[trigger] selected_components(components, components.len() as int)[a]
                < #[trigger] selected_components(components, components.len() as int)[b],
{
    let n = components.len() as int;
    lemma_selected_components_shape(components, n);
    let s = selected_components(components, n);
    assert forall|i: int| #![trigger components[i]] s.contains(i) <==> (0 <= i < n
        && components[i].selected) by {
        if s.contains(i) {
            let k = choose|k: int| 0 <= k < s.len() && s[k] == i;
            assert(0 <= s[k] < n);
        }
    }
}

pub open spec fn index_views(v: Seq<usize>) -> Seq<int> {
    v.map_values(|i: usize| i as int)
}

/// The components of a configuration that are to be copied. An empty result is
/// reported and the configuration is skipped.
pub fn components_to_copy(components: &Vec<Component>) -> (r: Vec<usize>)
    ensures
        index_views(r@) == selected_components(components@, components@.len() as int),
{
    let mut r: Vec<usize> = Vec::new();
    let mut i: usize = 0;
    while i < components.len()
        invariant
            i <= components.len(),
            index_views(r@) == selected_components(components@, i as int),
        decreases components.len() - i,
    {
        if components[i].selected {
            r.push(i);
        }
        assert(index_views(r@) =~= selected_components(components@, i + 1));
        i = i + 1;
    }
    r
}

pub open spec fn is_separator(c: char) -> bool {
    c == '/' || c == '\\'
}

/// Index of the first separator in `s` at or after `from`.
pub open spec fn first_separator(s: Seq<char>, from: int) -> Option<int>
    decreases s.len() - from,
{
    if from < 0 || from >= s.len() {
        None
    } else if is_separator(s[from]) {
        Some(from)
    } else {
        first_separator(s, from + 1)
    }
}

/// The pieces of `s` between separators (`/` and `\` alike).
pub open spec fn pieces(s: Seq<char>) -> Seq<Seq<char>>
    decreases s.len(),
{
    match first_separator(s, 0) {
        Some(i) if 0 <= i < s.len() => seq![s.take(i)] + pieces(s.skip(i + 1)),
        _ => seq![s],
    }
}

proof fn lemma_first_separator(s: Seq<char>, from: int, i: int)
    requires
        0 <= from <= i <= s.len(),
        forall|k: int| from <= k < i ==> !is_separator(s[k]),
    ensures
        first_separator(s, from) == first_separator(s, i),
    decreases i - from,
{
    if from < i {
        lemma_first_separator(s, from + 1, i);
    }
}

pub proof fn lemma_pieces_not_empty(s: Seq<char>)
    ensures
        pieces(s).len() >= 1,
    decreases s.len(),
{
    match first_separator(s, 0) {
        Some(i) if 0 <= i < s.len() => {
            lemma_pieces_not_empty(s.skip(i + 1));
        },
        _ => {},
    }
}

proof fn lemma_first_separator_found(s: Seq<char>, from: int)
    ensures
        first_separator(s, from) matches Some(i) ==> from <= i < s.len() && is_separator(s[i])
            && forall|k: int| from <= k < i ==> !is_separator(s[k]),
        first_separator(s, from) is None ==> forall|k: int|
            0 <= from <= k < s.len() ==> !is_separator(s[k]),
    decreases s.len() - from,
{
    if from < 0 || from >= s.len() {
    } else if is_separator(s[from]) {
    } else {
        lemma_first_separator_found(s, from + 1);
    }
}

/// `s` with every `\` written as `/`.
pub open spec fn with_slashes(s: Seq<char>) -> Seq<char> {
    s.map_values(|c: char| if c == '\\' {
        '/'
    } else {
        c
    })
}

/// The pieces joined with `/` between them.
pub open spec fn join_with_slashes(pieces: Seq<Seq<char>>) -> Seq<char>
    decreases pieces.len(),
{
    if pieces.len() <= 1 {
        if pieces.len() == 1 {
            pieces[0]
        } else {
            Seq::empty()
        }
    } else {
        pieces[0] + seq!['/'] + join_with_slashes(pieces.drop_first())
    }
}

/// Splitting a component's name loses nothing but which separator stood where:
/// joining the pieces with `/` gives the name with its `\`s written as `/`, and
/// no piece holds a separator.
pub proof fn law_pieces_rejoin(s: Seq<char>)
    ensures
        join_with_slashes(pieces(s)) == with_slashes(s),
        forall|k: int, m: int|
            0 <= k < pieces(s).len() && 0 <= m < pieces(s)[k].len() ==> !is_separator(
                #[trigger] pieces(s)[k][m],
            ),
    decreases s.len(),
{
    lemma_first_separator_found(s, 0);
    match first_separator(s, 0) {
        Some(i) if 0 <= i < s.len() => {
            let rest = s.skip(i + 1);
            law_pieces_rejoin(rest);
            lemma_pieces_not_empty(rest);
            let ps = pieces(s);
            assert(ps == seq![s.take(i)] + pieces(rest));
            assert(ps.drop_first() =~= pieces(rest));
            assert(with_slashes(s.take(i)) =~= s.take(i));
            assert(with_slashes(s) =~= s.take(i) + seq!['/'] + with_slashes(rest));
            assert forall|k: int, m: int|
                0 <= k < ps.len() && 0 <= m < ps[k].len() implies !is_separator(#[trigger] ps[k][m]) by {
                if k > 0 {
                    assert(ps[k] == pieces(rest)[k - 1]);
                }
            }
        },
        _ => {
            assert(with_slashes(s) =~= s);
        },
    }
}

/// Where a component is looked for below the source directory: the directories
/// that lead to it and the name pattern of its files.
pub struct ComponentPath {
    pub dirs: Vec<String>,
    pub pattern: String,
}

/// The views of a vector of strings.
pub open spec fn views(v: Seq<String>) -> Seq<Seq<char>> {
    v.map_values(|s: String| s@)
}

/// Splits a component's name at its separators: the last piece is the file name
/// pattern, the pieces before it are directories.
pub fn component_path(name: &str) -> (r: ComponentPath)
    ensures
        views(r.dirs@) + seq![r.pattern@] == pieces(name@),
{
    let chars = chars_of(name);
    let mut dirs: Vec<String> = Vec::new();
    let mut start: usize = 0;
    let mut i: usize = 0;
    assert(chars@.skip(0) =~= chars@);
    while i < chars.len()
        invariant
            chars@ == name@,
            start <= i <= chars.len(),
            forall|k: int| start <= k < i ==> !is_separator(chars@[k]),
            pieces(name@) == views(dirs@) + pieces(chars@.skip(start as int)),
        decreases chars.len() - i,
    {
        if chars[i] == '/' || chars[i] == '\\' {
            let ghost rest = chars@.skip(start as int);
            proof {
                lemma_first_separator(rest, 0, i - start);
                assert(rest.take(i - start) =~= chars@.subrange(start as int, i as int));
                assert(rest.skip(i - start + 1) =~= chars@.skip(i + 1));
            }
            let piece = String::from_str(name.substring_char(start, i));
            let ghost old_dirs = dirs@;
            dirs.push(piece);
            assert(views(dirs@) =~= views(old_dirs) + seq![piece@]);
            assert(pieces(name@) == views(dirs@) + pieces(chars@.skip(i + 1)));
            start = i + 1;
        }
        i = i + 1;
    }
    let ghost rest = chars@.skip(start as int);
    proof {
        lemma_first_separator(rest, 0, rest.len() as int);
        assert(rest =~= chars@.subrange(start as int, chars.len() as int));
    }
    let pattern = String::from_str(name.substring_char(start, chars.len()));
    ComponentPath { dirs, pattern }
}

/// Whether a file name fits a component's pattern: it contains the pattern, or
/// equals it up to ASCII case.
pub open spec fn fits_pattern(file_name: Seq<char>, pattern: Seq<char>) -> bool {
    contains(file_name, pattern) || eq_ignore_ascii_case(file_name, pattern)
}

/// Decides `fits_pattern`.
pub fn matches_pattern(file_name: &str, pattern: &str) -> (r: bool)
    ensures
        r == fits_pattern(file_name@, pattern@),
{
    let name = chars_of(file_name);
    let pat = chars_of(pattern);
    has_infix(&name, &pat) || equal_ignoring_ascii_case(&name, &pat)
}

/// The files of a component's directory to copy: those whose name fits the
/// pattern and passes the configuration's extension masks, in listing order.
pub open spec fn files_to_copy(names: Seq<Seq<char>>, masks: Seq<Seq<char>>, pattern: Seq<char>, count: int) -> Seq<int>
    decreases count,
{
    if count <= 0 {
        Seq::empty()
    } else {
        files_to_copy(names, masks, pattern, count - 1) + if passes_masks(names[count - 1], masks)
            && fits_pattern(names[count - 1], pattern) {
            seq![count - 1]
        } else {
            Seq::empty()
        }
    }
}

/// The files copied for a component are exactly those of the listing that pass
/// the extension masks and fit the pattern, each once, in listing order.
pub proof fn law_files_to_copy(names: Seq<Seq<char>>, masks: Seq<Seq<char>>, pattern: Seq<char>, count: int)
    requires
        0 <= count <= names.len(),
    ensures
        forall|k: int|
            0 <= k < files_to_copy(names, masks, pattern, count).len() ==> {
                let i = #[trigger] files_to_copy(names, masks, pattern, count)[k];
                &&& 0 <= i < count
                &&& passes_masks(names[i], masks)
                &&& fits_pattern(names[i], pattern)
            },
        forall|j: int, k: int|
            0 <= j < k < files_to_copy(names, masks, pattern, count).len() ==> #[trigger] files_to_copy(
                names,
                masks,
                pattern,
                count,
            )[j] < #[trigger] files_to_copy(names, masks, pattern, count)[k],
        forall|i: int|
            0 <= i < count && passes_masks(names[i], masks) && fits_pattern(names[i], pattern)
                ==> #[trigger] files_to_copy(names, masks, pattern, count).contains(i),
    decreases count,
{
    if count > 0 {
        law_files_to_copy(names, masks, pattern, count - 1);
        let before = files_to_copy(names, masks, pattern, count - 1);
        let after = files_to_copy(names, masks, pattern, count);
        assert forall|i: int|
            0 <= i < count && passes_masks(names[i], masks) && fits_pattern(names[i], pattern)
                implies #[trigger] after.contains(i) by {
            if i < count - 1 {
                assert(before.contains(i));
                let k = choose|k: int| 0 <= k < before.len() && before[k] == i;
                assert(after[k] == i);
            } else {
                assert(after[after.len() - 1] == i);
            }
        }
        assert forall|k: int| 0 <= k < after.len() implies {
            let i = #[trigger] after[k];
            &&& 0 <= i < count
            &&& passes_masks(names[i], masks)
            &&& fits_pattern(names[i], pattern)
        } by {
            if k < before.len() {
                assert(after[k] == before[k]);
            }
        }
        assert forall|j: int, k: int| 0 <= j < k < after.len() implies #[trigger] after[j] < #[trigger] after[k] by {
            if k < before.len() {
                assert(after[j] == before[j]);
                assert(after[k] == before[k]);
            } else if j < before.len() {
                assert(after[j] == before[j]);
            }
        }
    }
}

/// Picks the files of a directory listing to copy for one component.
pub fn select_files(file_names: &Vec<String>, extension_mask: &[String], pattern: &str) -> (r: Vec<usize>)
    ensures
        index_views(r@) == files_to_copy(
            views(file_names@),
            string_views(extension_mask@),
            pattern@,
            file_names@.len() as int,
        ),
{
    let ghost names = views(file_names@);
    let ghost masks = string_views(extension_mask@);
    let mut r: Vec<usize> = Vec::new();
    let mut i: usize = 0;
    while i < file_names.len()
        invariant
            names == views(file_names@),
            masks == string_views(extension_mask@),
            i <= file_names.len(),
            index_views(r@) == files_to_copy(names, masks, pattern@, i as int),
        decreases file_names.len() - i,
    {
        let name = chars_of(file_names[i].as_str());
        assert(names[i as int] == name@);
        if matches_masks(&name, extension_mask) && matches_pattern(file_names[i].as_str(), pattern) {
            r.push(i);
        }
        assert(index_views(r@) =~= files_to_copy(names, masks, pattern@, i + 1));
        i = i + 1;
    }
    r
}

/// Whether the file named by a component's pattern, found directly in the source
/// directory, is copied: it only has to pass the extension masks.
pub fn file_passes_masks(file_name: &str, extension_mask: &[String]) -> (r: bool)
    ensures
        r == passes_masks(file_name@, string_views(extension_mask@)),
{
    let name = chars_of(file_name);
    matches_masks(&name, extension_mask)
}

/// Whether a file is an archive that is unpacked instead of copied.
pub open spec fn is_archive_name(file_name: Seq<char>) -> bool {
    ends_with(file_name, ".tar.gz"@) || ends_with(file_name, ".tar"@)
}

/// Decides `is_archive_name`.
pub fn is_archive(file_name: &str) -> (r: bool)
    ensures
        r == is_archive_name(file_name@),
{
    let name = chars_of(file_name);
    let gz = chars_of(".tar.gz");
    let tar = chars_of(".tar");
    has_suffix(&name, &gz) || has_suffix(&name, &tar)
}

/// The file name pattern of a component: the last piece of its name.
pub open spec fn name_pattern(name: Seq<char>) -> Seq<char> {
    pieces(name).last()
}

/// Whether cleaning the destination removes a file: its name contains the
/// pattern of some component of the configuration, selected or not.
pub open spec fn removed_by_clean(file_name: Seq<char>, components: Seq<Component>) -> bool {
    exists|i: int|
        0 <= i < components.len() && contains(file_name, #[trigger] name_pattern(components[i].name@))
}

/// Decides `removed_by_clean`.
pub fn should_remove(file_name: &str, components: &Vec<Component>) -> (r: bool)
    ensures
        r == removed_by_clean(file_name@, components@),
{
    let name = chars_of(file_name);
    let mut i: usize = 0;
    while i < components.len()
        invariant
            name@ == file_name@,
            i <= components.len(),
            forall|k: int|
                0 <= k < i ==> !contains(name@, #[trigger] name_pattern(components@[k].name@)),
        decreases components.len() - i,
    {
        let path = component_path(components[i].name.as_str());
        proof {
            lemma_pieces_not_empty(components@[i as int].name@);
            let ps = pieces(components@[i as int].name@);
            assert(ps.last() == (views(path.dirs@) + seq![path.pattern@]).last());
        }
        let pattern = chars_of(path.pattern.as_str());
        assert(name_pattern(components@[i as int].name@) == pattern@);
        if has_infix(&name, &pattern) {
            return true;
        }
        i = i + 1;
    }
    false
}

} // verus!
