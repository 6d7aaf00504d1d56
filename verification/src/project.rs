//! The project registry: a list of named project paths. Persistence is the
//! caller's concern; the registry itself only records and forgets projects.

use vstd::prelude::*;
use crate::strutil::{concat3, lemma_filter_push, str_eq_str};

verus! {

/// A registered project: its name, its directory, and its manifest location.
pub struct Project {
    pub name: String,
    pub path: String,
    pub config_path: String,
    pub last_build: Option<String>,
    pub last_status: Option<String>,
}

/// Deep equality of two projects: every field agrees at the view level.
pub open spec fn project_eq(a: Project, b: Project) -> bool {
    &&& a.name@ == b.name@
    &&& a.path@ == b.path@
    &&& a.config_path@ == b.config_path@
    &&& a.last_build.deep_view() == b.last_build.deep_view()
    &&& a.last_status.deep_view() == b.last_status.deep_view()
}

impl Clone for Project {
    fn clone(&self) -> (res: Self)
        ensures
            project_eq(res, *self),
    {
        let res = Project {
            name: self.name.clone(),
            path: self.path.clone(),
            config_path: self.config_path.clone(),
            last_build: self.last_build.clone(),
            last_status: self.last_status.clone(),
        };
        proof {
            assert(res.last_build.deep_view() =~= self.last_build.deep_view());
            assert(res.last_status.deep_view() =~= self.last_status.deep_view());
        }
        res
    }
}

/// The projects whose name differs from `name`: what a removal keeps.
pub open spec fn keep_named(name: Seq<char>) -> spec_fn(Project) -> bool {
    |p: Project| p.name@ != name
}

/// The in-memory list of registered projects.
pub struct ProjectManager {
    pub projects: Vec<Project>,
}

impl Default for ProjectManager {
    /// An empty registry.
    fn default() -> (r: Self)
        ensures
            r.projects@ == Seq::<Project>::empty(),
    {
        let r = ProjectManager { projects: Vec::new() };
        proof {
            assert(r.projects@ =~= Seq::<Project>::empty());
        }
        r
    }
}

impl ProjectManager {
    /// Registers a project: any folder is accepted, its manifest location is
    /// derived from the path, and the new entry is appended. Always succeeds.
    pub fn add_project(&mut self, name: String, path: String) -> (r: bool)
        ensures
            r,
            final(self).projects@.len() == old(self).projects@.len() + 1,
            forall|j: int|
                0 <= j < old(self).projects@.len() ==> final(self).projects@[j] == old(
                    self,
                ).projects@[j],
            final(self).projects@.last().name@ == name@,
            final(self).projects@.last().path@ == path@,
            final(self).projects@.last().config_path@ == path@ + "/buildstudio.config.yaml"@,
            final(self).projects@.last().last_build is None,
            final(self).projects@.last().last_status is None,
    {
        let config_path = concat3(path.as_str(), "/", "buildstudio.config.yaml");
        proof {
            reveal_strlit("/");
            reveal_strlit("buildstudio.config.yaml");
            reveal_strlit("/buildstudio.config.yaml");
            assert(path@ + "/"@ + "buildstudio.config.yaml"@ =~= path@
                + "/buildstudio.config.yaml"@);
        }
        let project = Project {
            name,
            path,
            config_path,
            last_build: None,
            last_status: None,
        };
        self.projects.push(project);
        true
    }

    /// Forgets every project with this name; reports whether anything was
    /// removed.
    pub fn remove_project(&mut self, name: &str) -> (r: bool)
        ensures
            final(self).projects@ == old(self).projects@.filter(keep_named(name@)),
            r == (final(self).projects@.len() != old(self).projects@.len()),
    {
        let ghost pre = self.projects@;
        let orig_len = self.projects.len();
        let mut i: usize = 0;
        proof {
            assert(pre.take(0).filter(keep_named(name@)) =~= Seq::<Project>::empty()) by {
                reveal(Seq::filter);
            }
            assert(self.projects@ =~= pre.take(0).filter(keep_named(name@)) + pre.skip(0));
        }
        let mut processed: usize = 0;
        while i < self.projects.len()
            invariant
                pre == old(self).projects@,
                orig_len == pre.len(),
                i <= self.projects@.len(),
                processed <= pre.len(),
                i == pre.take(processed as int).filter(keep_named(name@)).len(),
                self.projects@ == pre.take(processed as int).filter(keep_named(name@)) + pre.skip(
                    processed as int,
                ),
            decreases pre.len() - processed,
        {
            proof {
                if processed >= pre.len() {
                    assert(pre.skip(processed as int) =~= Seq::<Project>::empty());
                    assert(self.projects@ =~= pre.take(processed as int).filter(keep_named(name@)));
                    assert(false);
                }
            }
            proof {
                assert(pre.take(processed + 1) =~= pre.take(processed as int).push(
                    pre[processed as int],
                ));
                lemma_filter_push(
                    pre.take(processed as int),
                    keep_named(name@),
                    pre[processed as int],
                );
                assert(self.projects@[i as int] == pre[processed as int]);
            }
            if str_eq_str(self.projects[i].name.as_str(), name) {
                self.projects.remove(i);
                proof {
                    assert(self.projects@ =~= pre.take(processed + 1).filter(keep_named(name@))
                        + pre.skip(processed + 1));
                }
            } else {
                i += 1;
                proof {
                    assert(self.projects@ =~= pre.take(processed + 1).filter(keep_named(name@))
                        + pre.skip(processed + 1));
                }
            }
            processed += 1;
        }
        proof {
            if processed < pre.len() {
                assert(pre.skip(processed as int).len() > 0);
                assert(self.projects@.len() > i);
                assert(false);
            }
            assert(pre.take(pre.len() as int) =~= pre);
            assert(pre.skip(pre.len() as int) =~= Seq::<Project>::empty());
            assert(self.projects@ =~= pre.filter(keep_named(name@)));
        }
        self.projects.len() != orig_len
    }
}

/// A point-in-time copy of the registered projects.
pub fn list_projects(manager: &ProjectManager) -> (r: Vec<Project>)
    ensures
        r@.len() == manager.projects@.len(),
        forall|j: int|
            0 <= j < manager.projects@.len() ==> project_eq(
                #[trigger] r@[j],
                manager.projects@[j],
            ),
{
    let n = manager.projects.len();
    let mut out: Vec<Project> = Vec::new();
    let mut i: usize = 0;
    while i < n
        invariant
            n == manager.projects@.len(),
            i <= n,
            out@.len() == i,
            forall|j: int| 0 <= j < i ==> project_eq(#[trigger] out@[j], manager.projects@[j]),
        decreases n - i,
    {
        out.push(manager.projects[i].clone());
        i += 1;
    }
    out
}

} // verus!
