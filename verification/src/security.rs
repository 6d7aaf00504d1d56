//! Security policy engine: decides whether a build command is permitted and
//! plans the sandbox — an isolated directory holding only the allowed project
//! subpaths — that a build runs in. The effect of materializing and removing a
//! sandbox is modelled on a map from file paths to contents.

use vstd::prelude::*;
use crate::strutil::{spec_contains, spec_starts_with, str_contains};

verus! {

/// Security configuration for builds.
pub struct SecurityConfig {
    /// Enable sandboxing for builds.
    pub enable_sandbox: bool,
    /// Allowed directories for file access, relative to the project.
    pub allowed_paths: Vec<String>,
    /// Blocked command substrings.
    pub blocked_commands: Vec<String>,
    /// Enable network isolation.
    pub network_isolation: bool,
    /// Maximum build time in seconds, when enforced.
    pub max_build_time: Option<u32>,
}

impl Clone for SecurityConfig {
    fn clone(&self) -> (res: Self)
        ensures
            res.enable_sandbox == self.enable_sandbox,
            res.allowed_paths.deep_view() == self.allowed_paths.deep_view(),
            res.blocked_commands.deep_view() == self.blocked_commands.deep_view(),
            res.network_isolation == self.network_isolation,
            res.max_build_time == self.max_build_time,
    {
        let res = SecurityConfig {
            enable_sandbox: self.enable_sandbox,
            allowed_paths: self.allowed_paths.clone(),
            blocked_commands: self.blocked_commands.clone(),
            network_isolation: self.network_isolation,
            max_build_time: self.max_build_time,
        };
        proof {
            assert(res.allowed_paths.deep_view() =~= self.allowed_paths.deep_view());
            assert(res.blocked_commands.deep_view() =~= self.blocked_commands.deep_view());
        }
        res
    }
}

impl Default for SecurityConfig {
    /// The process-wide default policy: sandboxing and network isolation on,
    /// the standard project subpaths allowed, destructive file commands
    /// blocked, and a one-hour build limit.
    fn default() -> (r: Self)
        ensures
            r.enable_sandbox,
            r.allowed_paths.deep_view() == seq!["./src"@, "./builds"@, "./packages"@],
            r.blocked_commands.deep_view() == seq![
                "rm"@,
                "rmdir"@,
                "mv"@,
                "cp"@,
                "chmod"@,
                "chown"@,
            ],
            r.network_isolation,
            r.max_build_time == Some(3600u32),
    {
        let mut allowed: Vec<String> = Vec::new();
        allowed.push(String::from_str("./src"));
        allowed.push(String::from_str("./builds"));
        allowed.push(String::from_str("./packages"));
        let mut blocked: Vec<String> = Vec::new();
        blocked.push(String::from_str("rm"));
        blocked.push(String::from_str("rmdir"));
        blocked.push(String::from_str("mv"));
        blocked.push(String::from_str("cp"));
        blocked.push(String::from_str("chmod"));
        blocked.push(String::from_str("chown"));
        proof {
            assert(allowed.deep_view() =~= seq!["./src"@, "./builds"@, "./packages"@]);
            assert(blocked.deep_view() =~= seq![
                "rm"@,
                "rmdir"@,
                "mv"@,
                "cp"@,
                "chmod"@,
                "chown"@,
            ]);
        }
        SecurityConfig {
            enable_sandbox: true,
            allowed_paths: allowed,
            blocked_commands: blocked,
            network_isolation: true,
            max_build_time: Some(3600),
        }
    }
}

/// A command is permitted when sandboxing is off, or when no blocked token
/// occurs in it as a substring.
pub open spec fn spec_validate(cmd: Seq<char>, sandbox_enabled: bool, blocked: Seq<Seq<char>>) -> bool {
    !sandbox_enabled || forall|i: int|
        0 <= i < blocked.len() ==> !spec_contains(cmd, #[trigger] blocked[i])
}

/// Validates that a command contains no blocked token; permits everything
/// when sandboxing is disabled.
pub fn validate_command(command: &str, config: &SecurityConfig) -> (r: bool)
    ensures
        r == spec_validate(command@, config.enable_sandbox, config.blocked_commands.deep_view()),
{
    if !config.enable_sandbox {
        return true;
    }
    let n = config.blocked_commands.len();
    let mut i: usize = 0;
    while i < n
        invariant
            config.enable_sandbox,
            n == config.blocked_commands@.len(),
            i <= n,
            forall|j: int|
                0 <= j < i ==> !spec_contains(
                    command@,
                    #[trigger] config.blocked_commands.deep_view()[j],
                ),
        decreases n - i,
    {
        if str_contains(command, config.blocked_commands[i].as_str()) {
            proof {
                assert(spec_contains(command@, config.blocked_commands.deep_view()[i as int]));
            }
            return false;
        }
        i += 1;
    }
    true
}

/// A command containing any blocked token is rejected whenever sandboxing is
/// enabled, wherever the token occurs.
pub proof fn lemma_blocked_token_rejected(
    cmd: Seq<char>,
    blocked: Seq<Seq<char>>,
    i: int,
)
    requires
        0 <= i < blocked.len(),
        spec_contains(cmd, blocked[i]),
    ensures
        !spec_validate(cmd, true, blocked),
{
}

/// With sandboxing disabled every command is permitted, whatever the blocked
/// tokens say.
pub proof fn lemma_sandbox_disabled_permits(cmd: Seq<char>, blocked: Seq<Seq<char>>)
    ensures
        spec_validate(cmd, false, blocked),
{
}

/// The path separator, as a character sequence.
pub open spec fn slash() -> Seq<char> {
    seq!['/']
}

/// The sandbox directory name appended to a project directory.
pub open spec fn sandbox_suffix() -> Seq<char> {
    seq!['/', '.', 's', 'a', 'n', 'd', 'b', 'o', 'x']
}

/// The sandbox directory for a project: a `.sandbox` subdirectory.
pub fn sandbox_dir_path(project_dir: &str) -> (r: String)
    ensures
        r@ == project_dir@ + sandbox_suffix(),
{
    let r = crate::strutil::concat2(project_dir, "/.sandbox");
    proof {
        reveal_strlit("/.sandbox");
        assert("/.sandbox"@ =~= sandbox_suffix());
    }
    r
}

/// One planned copy: a source path in the project and its destination in the
/// sandbox.
pub struct CopyStep {
    pub src: String,
    pub dest: String,
}

/// The source and destination paths for the allowed subpath `rel`.
pub open spec fn step_paths(pd: Seq<char>, rel: Seq<char>) -> (Seq<char>, Seq<char>) {
    (pd + slash() + rel, pd + sandbox_suffix() + slash() + rel)
}

/// The copy plan: one step per allowed subpath that exists in the source, in
/// policy order.
pub open spec fn spec_copy_steps(pd: Seq<char>, allowed: Seq<Seq<char>>, ex: Seq<bool>) -> Seq<
    (Seq<char>, Seq<char>),
>
    decreases allowed.len(),
{
    if allowed.len() == 0 {
        Seq::empty()
    } else {
        spec_copy_steps(pd, allowed.drop_last(), ex.drop_last()) + if ex[allowed.len() - 1] {
            seq![step_paths(pd, allowed.last())]
        } else {
            Seq::empty()
        }
    }
}

/// Computes the copy plan for a sandbox: for each allowed subpath that the
/// caller observed to exist (`exists_flags`, parallel to the policy's allowed
/// paths), a copy from the project location to the same relative location
/// under the sandbox.
pub fn copy_steps(project_dir: &str, config: &SecurityConfig, exists_flags: &Vec<bool>) -> (r: Vec<
    CopyStep,
>)
    requires
        exists_flags@.len() == config.allowed_paths@.len(),
    ensures
        r@.map_values(|s: CopyStep| (s.src@, s.dest@)) == spec_copy_steps(
            project_dir@,
            config.allowed_paths.deep_view(),
            exists_flags@,
        ),
{
    let sb = sandbox_dir_path(project_dir);
    let n = config.allowed_paths.len();
    let mut steps: Vec<CopyStep> = Vec::new();
    let ghost allowed = config.allowed_paths.deep_view();
    proof {
        assert(allowed.take(0) =~= Seq::<Seq<char>>::empty());
        assert(exists_flags@.take(0) =~= Seq::<bool>::empty());
        assert(steps@.map_values(|s: CopyStep| (s.src@, s.dest@)) =~= spec_copy_steps(
            project_dir@,
            allowed.take(0),
            exists_flags@.take(0),
        ));
    }
    let mut i: usize = 0;
    while i < n
        invariant
            n == config.allowed_paths@.len(),
            sb@ == project_dir@ + sandbox_suffix(),
            allowed == config.allowed_paths.deep_view(),
            exists_flags@.len() == n,
            i <= n,
            steps@.map_values(|s: CopyStep| (s.src@, s.dest@)) == spec_copy_steps(
                project_dir@,
                allowed.take(i as int),
                exists_flags@.take(i as int),
            ),
        decreases n - i,
    {
        proof {
            assert(allowed.take(i + 1).drop_last() =~= allowed.take(i as int));
            assert(exists_flags@.take(i + 1).drop_last() =~= exists_flags@.take(i as int));
        }
        if exists_flags[i] {
            let rel = config.allowed_paths[i].as_str();
            let src = crate::strutil::concat3(project_dir, "/", rel);
            let mut dest = sb.clone();
            dest.append("/");
            dest.append(rel);
            let step = CopyStep { src, dest };
            proof {
                reveal_strlit("/");
                assert("/"@ =~= slash());
                assert(allowed.take(i + 1).last() == allowed[i as int]);
                assert(allowed[i as int] == config.allowed_paths@[i as int]@);
                assert((step.src@, step.dest@) == step_paths(project_dir@, allowed[i as int]));
                assert((steps@.push(step)).map_values(|s: CopyStep| (s.src@, s.dest@))
                    =~= steps@.map_values(|s: CopyStep| (s.src@, s.dest@)).push(
                    (step.src@, step.dest@),
                ));
                assert(steps@.map_values(|s: CopyStep| (s.src@, s.dest@)).push(
                    (step.src@, step.dest@),
                ) =~= spec_copy_steps(
                    project_dir@,
                    allowed.take(i + 1),
                    exists_flags@.take(i + 1),
                ));
            }
            steps.push(step);
        } else {
            proof {
                assert(spec_copy_steps(project_dir@, allowed.take(i + 1), exists_flags@.take(i + 1))
                    =~= spec_copy_steps(
                    project_dir@,
                    allowed.take(i as int),
                    exists_flags@.take(i as int),
                ));
            }
        }
        i += 1;
    }
    proof {
        assert(allowed.take(n as int) =~= allowed);
        assert(exists_flags@.take(n as int) =~= exists_flags@);
    }
    steps
}

/// A model of the file system as a map from file paths to contents;
/// directories are implicit in the paths.
pub open spec fn path_under(p: Seq<char>, dir: Seq<char>) -> bool {
    dir.len() < p.len() && p.take(dir.len() as int) == dir && p[dir.len() as int] == '/'
}

/// The file system after recursively removing `dir`: every file at or under
/// `dir` is gone, everything else is untouched. A missing directory removes
/// nothing and is not an error.
pub open spec fn cleanup_model(fs: Map<Seq<char>, Seq<u8>>, dir: Seq<char>) -> Map<
    Seq<char>,
    Seq<u8>,
> {
    Map::new(|p: Seq<char>| fs.dom().contains(p) && p != dir && !path_under(p, dir), |p| fs[p])
}

/// Removing a sandbox twice is the same as removing it once: the second
/// removal finds nothing and changes nothing.
pub proof fn lemma_cleanup_idempotent(fs: Map<Seq<char>, Seq<u8>>, dir: Seq<char>)
    ensures
        cleanup_model(cleanup_model(fs, dir), dir) == cleanup_model(fs, dir),
{
    assert(cleanup_model(cleanup_model(fs, dir), dir) =~= cleanup_model(fs, dir));
}

/// The file `q` is written by a recursive copy from `src` to `dest`: `q` is
/// `dest` itself or lies under it, and the matching source file exists in the
/// source tree `fs0`.
pub open spec fn copied_by(
    fs0: Map<Seq<char>, Seq<u8>>,
    src: Seq<char>,
    dest: Seq<char>,
    q: Seq<char>,
) -> bool {
    (q == dest || path_under(q, dest)) && fs0.dom().contains(src + q.skip(dest.len() as int))
}

/// The target tree after one recursive copy from `src` (read in the source
/// tree `fs0`) to `dest`: copied files overwrite, all other files are kept.
pub open spec fn copy_tree(
    fs0: Map<Seq<char>, Seq<u8>>,
    fs: Map<Seq<char>, Seq<u8>>,
    src: Seq<char>,
    dest: Seq<char>,
) -> Map<Seq<char>, Seq<u8>> {
    Map::new(
        |q: Seq<char>| fs.dom().contains(q) || copied_by(fs0, src, dest, q),
        |q: Seq<char>|
            if copied_by(fs0, src, dest, q) {
                fs0[src + q.skip(dest.len() as int)]
            } else {
                fs[q]
            },
    )
}

/// The target tree after carrying out a copy plan in order, reading every
/// source from `fs0`.
pub open spec fn apply_copy_steps(
    fs0: Map<Seq<char>, Seq<u8>>,
    fs: Map<Seq<char>, Seq<u8>>,
    steps: Seq<(Seq<char>, Seq<char>)>,
) -> Map<Seq<char>, Seq<u8>>
    decreases steps.len(),
{
    if steps.len() == 0 {
        fs
    } else {
        copy_tree(fs0, apply_copy_steps(fs0, fs, steps.drop_last()), steps.last().0, steps.last().1)
    }
}

/// `rel` is one of the first `k` allowed subpaths that exist, or lies under
/// one of them.
pub open spec fn covered_upto(rel: Seq<char>, allowed: Seq<Seq<char>>, ex: Seq<bool>, k: int) -> bool {
    exists|i: int|
        0 <= i < k && #[trigger] ex[i] && (rel == allowed[i] || spec_starts_with(
            rel,
            #[trigger] allowed[i] + slash(),
        ))
}

/// The sandbox contents prescribed by the first `k` allowed subpaths: exactly
/// the source files at or under an existing allowed subpath, each at the same
/// relative location under the sandbox, with identical content.
pub open spec fn sandbox_model_upto(
    fs0: Map<Seq<char>, Seq<u8>>,
    pd: Seq<char>,
    allowed: Seq<Seq<char>>,
    ex: Seq<bool>,
    k: int,
) -> Map<Seq<char>, Seq<u8>> {
    let sb = pd + sandbox_suffix();
    Map::new(
        |q: Seq<char>| path_under(q, sb) && covered_upto(q.skip(sb.len() as int + 1), allowed, ex, k)
            && fs0.dom().contains(pd + slash() + q.skip(sb.len() as int + 1)),
        |q: Seq<char>| fs0[pd + slash() + q.skip(sb.len() as int + 1)],
    )
}

/// The full sandbox contents prescribed by a policy.
pub open spec fn sandbox_model(
    fs0: Map<Seq<char>, Seq<u8>>,
    pd: Seq<char>,
    allowed: Seq<Seq<char>>,
    ex: Seq<bool>,
) -> Map<Seq<char>, Seq<u8>> {
    sandbox_model_upto(fs0, pd, allowed, ex, allowed.len() as int)
}

proof fn lemma_prefix_index(q: Seq<char>, d: Seq<char>, j: int)
    requires
        q.take(d.len() as int) == d,
        d.len() <= q.len(),
        0 <= j < d.len(),
    ensures
        q[j] == d[j],
{
    assert(q.take(d.len() as int)[j] == q[j]);
}

proof fn lemma_copy_last_step(
    fs0: Map<Seq<char>, Seq<u8>>,
    pd: Seq<char>,
    allowed: Seq<Seq<char>>,
    ex: Seq<bool>,
)
    requires
        ex.len() == allowed.len(),
        allowed.len() > 0,
        ex[allowed.len() - 1],
    ensures
        copy_tree(
            fs0,
            sandbox_model_upto(fs0, pd, allowed, ex, allowed.len() - 1),
            step_paths(pd, allowed.last()).0,
            step_paths(pd, allowed.last()).1,
        ) == sandbox_model_upto(fs0, pd, allowed, ex, allowed.len() as int),
{
    let n = allowed.len() as int;
    let sb = pd + sandbox_suffix();
    let an = allowed.last();
    let src_n = step_paths(pd, an).0;
    let dest_n = step_paths(pd, an).1;
    assert(dest_n =~= sb + slash() + an);
    let before = sandbox_model_upto(fs0, pd, allowed, ex, n - 1);
    let after = sandbox_model_upto(fs0, pd, allowed, ex, n);
    let result = copy_tree(fs0, before, src_n, dest_n);

    assert forall|q: Seq<char>| #[trigger] result.dom().contains(q)
        implies after.dom().contains(q) && result[q] == after[q] by {
        if copied_by(fs0, src_n, dest_n, q) {
            if q == dest_n {
                assert(q.take(sb.len() as int) =~= sb);
                assert(q[sb.len() as int] == '/');
                let rel = q.skip(sb.len() as int + 1);
                assert(rel =~= an);
                assert(q.skip(dest_n.len() as int) =~= Seq::<char>::empty());
                assert(src_n + q.skip(dest_n.len() as int) =~= pd + slash() + rel);
                assert(covered_upto(rel, allowed, ex, n));
            } else {
                assert(path_under(q, dest_n));
                let suffix = q.skip(dest_n.len() as int);
                assert(suffix.len() > 0 && suffix[0] == '/');
                assert forall|j: int| 0 <= j < sb.len() implies q[j] == sb[j] by {
                    lemma_prefix_index(q, dest_n, j);
                    assert(dest_n[j] == (sb + slash())[j]);
                }
                assert(q.take(sb.len() as int) =~= sb);
                assert(q[sb.len() as int] == '/') by {
                    lemma_prefix_index(q, dest_n, sb.len() as int);
                    assert(dest_n[sb.len() as int] == (sb + slash())[sb.len() as int]);
                }
                assert(path_under(q, sb));
                let rel = q.skip(sb.len() as int + 1);
                assert forall|j: int| 0 <= j < rel.len() implies rel[j] == (an + suffix)[j] by {
                    assert(rel[j] == q[sb.len() as int + 1 + j]);
                    if j < an.len() {
                        lemma_prefix_index(q, dest_n, sb.len() as int + 1 + j);
                        assert(dest_n[sb.len() as int + 1 + j] == an[j]);
                        assert((an + suffix)[j] == an[j]);
                    } else {
                        assert(suffix[j - an.len()] == q[dest_n.len() + (j - an.len())]);
                        assert(dest_n.len() + (j - an.len()) == sb.len() as int + 1 + j);
                        assert((an + suffix)[j] == suffix[j - an.len()]);
                    }
                }
                assert(rel =~= an + suffix);
                assert(rel.take(an.len() as int + 1) =~= an + slash());
                assert(spec_starts_with(rel, an + slash()));
                assert(covered_upto(rel, allowed, ex, n));
                assert(src_n + suffix =~= pd + slash() + rel);
            }
        } else {
            assert(before.dom().contains(q));
            let rel = q.skip(sb.len() as int + 1);
            assert(covered_upto(rel, allowed, ex, n - 1));
            assert(covered_upto(rel, allowed, ex, n));
        }
    }

    assert forall|q: Seq<char>| #[trigger] after.dom().contains(q)
        implies result.dom().contains(q) by {
        let rel = q.skip(sb.len() as int + 1);
        let i = choose|i: int|
            0 <= i < n && #[trigger] ex[i] && (rel == allowed[i] || spec_starts_with(
                rel,
                #[trigger] allowed[i] + slash(),
            ));
        if i < n - 1 {
            assert(covered_upto(rel, allowed, ex, n - 1));
            assert(before.dom().contains(q));
        } else {
            assert(q =~= sb + slash() + rel) by {
                assert(q.take(sb.len() as int) =~= sb);
            }
            if rel == an {
                assert(q =~= dest_n);
                assert(q.skip(dest_n.len() as int) =~= Seq::<char>::empty());
                assert(src_n + q.skip(dest_n.len() as int) =~= pd + slash() + rel);
                assert(copied_by(fs0, src_n, dest_n, q));
            } else {
                assert(spec_starts_with(rel, an + slash()));
                let srest = rel.skip(an.len() as int);
                assert(rel.take(an.len() as int + 1) == an + slash());
                assert(srest.len() > 0);
                assert(srest[0] == rel[an.len() as int]);
                lemma_prefix_index(rel, an + slash(), an.len() as int);
                assert(srest[0] == (an + slash())[an.len() as int]);
                assert(srest[0] == '/');
                assert forall|j: int| 0 <= j < rel.len() implies rel[j] == (an + srest)[j] by {
                    if j < an.len() {
                        lemma_prefix_index(rel, an + slash(), j);
                        assert(rel[j] == (an + slash())[j]);
                        assert((an + srest)[j] == an[j]);
                    } else {
                        assert((an + srest)[j] == srest[j - an.len()]);
                        assert(srest[j - an.len()] == rel[j]);
                    }
                }
                assert(rel =~= an + srest);
                assert(q.take(dest_n.len() as int) =~= dest_n);
                assert(q[dest_n.len() as int] == srest[0]);
                assert(path_under(q, dest_n));
                assert(q.skip(dest_n.len() as int) =~= srest);
                assert(src_n + srest =~= pd + slash() + rel);
                assert(copied_by(fs0, src_n, dest_n, q));
            }
        }
    }

    assert(result =~= after);
}

/// Carrying out the copy plan on an empty target produces exactly the
/// prescribed sandbox: every source file at or under an existing allowed
/// subpath, at the same relative location, with identical content — and no
/// other file.
pub proof fn lemma_copy_steps_build_sandbox(
    fs0: Map<Seq<char>, Seq<u8>>,
    pd: Seq<char>,
    allowed: Seq<Seq<char>>,
    ex: Seq<bool>,
)
    requires
        ex.len() == allowed.len(),
    ensures
        apply_copy_steps(fs0, Map::empty(), spec_copy_steps(pd, allowed, ex)) == sandbox_model(
            fs0,
            pd,
            allowed,
            ex,
        ),
    decreases allowed.len(),
{
    let n = allowed.len() as int;
    if n == 0 {
        assert(apply_copy_steps(fs0, Map::empty(), spec_copy_steps(pd, allowed, ex))
            =~= sandbox_model(fs0, pd, allowed, ex));
    } else {
        let a = allowed.drop_last();
        let e = ex.drop_last();
        lemma_copy_steps_build_sandbox(fs0, pd, a, e);
        assert forall|rel: Seq<char>|
            #[trigger] covered_upto(rel, a, e, n - 1) == covered_upto(rel, allowed, ex, n - 1) by {
            if covered_upto(rel, a, e, n - 1) {
                let i = choose|i: int|
                    0 <= i < n - 1 && #[trigger] e[i] && (rel == a[i] || spec_starts_with(
                        rel,
                        #[trigger] a[i] + slash(),
                    ));
                assert(ex[i] && (rel == allowed[i] || spec_starts_with(rel, allowed[i] + slash())));
            }
            if covered_upto(rel, allowed, ex, n - 1) {
                let i = choose|i: int|
                    0 <= i < n - 1 && #[trigger] ex[i] && (rel == allowed[i] || spec_starts_with(
                        rel,
                        #[trigger] allowed[i] + slash(),
                    ));
                assert(e[i] && (rel == a[i] || spec_starts_with(rel, a[i] + slash())));
            }
        }
        assert(sandbox_model(fs0, pd, a, e) =~= sandbox_model_upto(fs0, pd, allowed, ex, n - 1));
        let prefix = spec_copy_steps(pd, a, e);
        if !ex[n - 1] {
            assert(spec_copy_steps(pd, allowed, ex) =~= prefix);
            assert forall|rel: Seq<char>|
                #[trigger] covered_upto(rel, allowed, ex, n) == covered_upto(rel, allowed, ex, n - 1) by {
                if covered_upto(rel, allowed, ex, n) {
                    let i = choose|i: int|
                        0 <= i < n && #[trigger] ex[i] && (rel == allowed[i] || spec_starts_with(
                            rel,
                            #[trigger] allowed[i] + slash(),
                        ));
                    assert(i < n - 1);
                }
            }
            assert(sandbox_model_upto(fs0, pd, allowed, ex, n - 1)
                =~= sandbox_model(fs0, pd, allowed, ex));
        } else {
            let st = step_paths(pd, allowed.last());
            let steps = spec_copy_steps(pd, allowed, ex);
            assert(steps =~= prefix.push(st));
            assert(steps.drop_last() =~= prefix);
            assert(steps.last() == st);
            lemma_copy_last_step(fs0, pd, allowed, ex);
        }
    }
}

} // verus!


