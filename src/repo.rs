use vstd::prelude::*;

use crate::action::{append_plan, steps, Action, Step};
use crate::error::ErrorKind;
use crate::listing::{
    all_valid, branch_names, branch_names_of, group_members, group_members_of, listed_names,
    listed_names_of, repo_views, sorted_repositories,
};
use crate::user::{quote, quoted, revoke_steps, grant_steps, User};
use crate::text::{chars_of, contains, ends_with, has_infix, has_prefix, has_suffix, lex_sorted, lines, slice_of, sort_strings, starts_with, string_of, trim, trimmed, views};

verus! {

/// Where the repositories live.
pub const GIT_PATH: &'static str = "/git";

/// What the name of a repository's group starts with.
pub const GROUP_PFX: &'static str = "g_";

/// The default branch of a new repository.
pub const MAIN_BRANCH: &'static str = "main";

/// The tool version stamped into each new repository.
pub const VERSION: &'static str = "0.1.0";

/// The longest repository name, in characters.
pub const MAX_NAME_LEN: usize = 30;

/// Whether `n` may name a repository: it does not start with `/`, has no
/// path segment that ends in `.git`, and is at most 30 characters long.
pub open spec fn valid_name(n: Seq<char>) -> bool {
    &&& !starts_with(n, "/"@)
    &&& !ends_with(n, ".git"@)
    &&& !contains(n, ".git/"@)
    &&& n.len() <= 30
}

/// The group whose members may use repository `n`.
pub open spec fn group_of(n: Seq<char>) -> Seq<char> {
    "g_"@ + n
}

/// The directory of repository `n`.
pub open spec fn path_of(n: Seq<char>) -> Seq<char> {
    "/git/"@ + n + ".git"@
}

/// The index of the first `/` in `n`, or its length where there is none.
pub open spec fn first_slash(n: Seq<char>) -> int
    decreases n.len(),
{
    if n.len() == 0 {
        0
    } else {
        let k = first_slash(n.drop_last());
        if k < n.len() - 1 {
            k
        } else if n.last() == '/' {
            n.len() - 1
        } else {
            n.len() as int
        }
    }
}

/// The index just after the last `/` in `n`, or 0 where there is none.
pub open spec fn after_last_slash(n: Seq<char>) -> int
    decreases n.len(),
{
    if n.len() == 0 {
        0
    } else if n.last() == '/' {
        n.len() as int
    } else {
        after_last_slash(n.drop_last())
    }
}

pub proof fn lemma_slash_bounds(n: Seq<char>)
    ensures
        0 <= first_slash(n) <= n.len(),
        0 <= after_last_slash(n) <= n.len(),
        first_slash(n) < n.len() ==> 1 <= after_last_slash(n) && n[first_slash(n)] == '/',
        after_last_slash(n) > 0 ==> n[after_last_slash(n) - 1] == '/',
        forall|i: int| 0 <= i < first_slash(n) ==> n[i] != '/',
        forall|i: int| after_last_slash(n) <= i < n.len() ==> n[i] != '/',
    decreases n.len(),
{
    if n.len() > 0 {
        lemma_slash_bounds(n.drop_last());
        assert forall|i: int| 0 <= i < first_slash(n) implies n[i] != '/' by {
            if i < n.len() - 1 {
                assert(n[i] == n.drop_last()[i]);
            }
        }
        assert forall|i: int| after_last_slash(n) <= i < n.len() implies n[i] != '/' by {
            if i < n.len() - 1 {
                assert(n[i] == n.drop_last()[i]);
            }
        }
    }
}

/// Whether name `n` has more than one segment.
pub open spec fn nested(n: Seq<char>) -> bool {
    first_slash(n) < n.len()
}

/// The last segment of repository name `n`.
pub open spec fn short_name_of(n: Seq<char>) -> Seq<char> {
    n.subrange(after_last_slash(n), n.len() as int)
}

/// The first segment of repository name `n`.
pub open spec fn top_dir_of(n: Seq<char>) -> Seq<char> {
    n.subrange(0, first_slash(n))
}

/// Name `n` without its last segment and the `/` before it.
pub open spec fn parent_dir_of(n: Seq<char>) -> Seq<char> {
    n.subrange(0, after_last_slash(n) - 1)
}

/// The metadata store of repository `n`.
pub open spec fn config_path_of(n: Seq<char>) -> Seq<char> {
    path_of(n) + "/config"@
}

/// The description file of repository `n`.
pub open spec fn description_path_of(n: Seq<char>) -> Seq<char> {
    path_of(n) + "/description"@
}

/// The command that stores `value` under `key` in the metadata store of `n`.
pub open spec fn set_command(n: Seq<char>, key: Seq<char>, value: Seq<char>) -> Seq<char> {
    "git config -f \""@ + config_path_of(n) + "\" "@ + key + " \""@ + value + "\""@
}

/// The command that removes `key` from the metadata store of `n`.
pub open spec fn unset_command(n: Seq<char>, key: Seq<char>) -> Seq<char> {
    "git config -f \""@ + config_path_of(n) + "\" --unset "@ + key
}

/// The metadata key of a per-branch hook setting.
pub open spec fn branch_key(branch: Seq<char>, field: Seq<char>) -> Seq<char> {
    "hooks.branch."@ + branch + "."@ + field
}

/// The metadata key that marks `login` as a maintainer.
pub open spec fn maintainer_key(login: Seq<char>) -> Seq<char> {
    "hooks.user."@ + login + ".maintainer"@
}

pub open spec fn set_steps(n: Seq<char>, key: Seq<char>, value: Seq<char>) -> Seq<Step> {
    seq![Step::Run(set_command(n, key, value)), Step::Chmod(config_path_of(n), 0o644)]
}

pub open spec fn unset_steps(n: Seq<char>, key: Seq<char>) -> Seq<Step> {
    seq![Step::Run(unset_command(n, key)), Step::Chmod(config_path_of(n), 0o644)]
}

/// Permission normalisation of repository `n`.
pub open spec fn fix_steps(n: Seq<char>) -> Seq<Step> {
    let p = path_of(n);
    seq![
        Step::Run("find "@ + p + " -type d -exec chmod -R 002775 {} \\;"@),
        Step::Run("find "@ + p + " -type f -exec chmod -R 000664 {} \\;"@),
        Step::Chmod(p, 0o2770),
        Step::Run("chmod -R 000755 \""@ + p + "/hooks\""@),
        Step::Run("chown -R \"git:"@ + group_of(n) + "\" \""@ + p + "\""@),
        Step::Run("chown \"root:"@ + group_of(n) + "\" \""@ + p + "/config\""@),
        Step::Run("chown \"root:"@ + group_of(n) + "\" \""@ + p + "/description\""@),
        Step::Chmod(config_path_of(n), 0o644),
        Step::Chmod(description_path_of(n), 0o644),
    ]
}

/// History expiry and garbage collection of repository `n`, then `fix_steps`.
pub open spec fn cleanup_steps(n: Seq<char>) -> Seq<Step> {
    seq![
        Step::Chdir(path_of(n)),
        Step::Run("git reflog expire --expire=now --all"@),
        Step::Run("git gc --prune=now"@),
    ] + fix_steps(n)
}

/// The text stored in the description file for description `d`.
pub open spec fn description_text(d: Option<Seq<char>>) -> Seq<char> {
    match d {
        Some(s) => s,
        None => "Unnamed repository;"@,
    }
}

/// The description that the content `text` of a description file stands for.
pub open spec fn description_of(text: Seq<char>) -> Option<Seq<char>> {
    if starts_with(text, "Unnamed repository;"@) {
        None
    } else {
        Some(trim(text))
    }
}

pub open spec fn logins(v: Seq<User>) -> Seq<Seq<char>> {
    v.map_values(|u: User| u@)
}

/// Catalog regeneration for each of `users`.
pub open spec fn catalog_steps(users: Seq<Seq<char>>) -> Seq<Step> {
    users.map_values(|l: Seq<char>| Step::UpdateCatalog(l))
}

/// The plans of `revoke_steps` of each of `users` from `n`, one after the other.
pub open spec fn revokes(users: Seq<Seq<char>>, n: Seq<char>) -> Seq<Step>
    decreases users.len(),
{
    if users.len() == 0 {
        seq![]
    } else {
        revokes(users.drop_last(), n) + revoke_steps(users.last(), n)
    }
}

/// The plans of `grant_steps` of each of `users` onto `n`, one after the other.
pub open spec fn grants(users: Seq<Seq<char>>, n: Seq<char>) -> Seq<Step>
    decreases users.len(),
{
    if users.len() == 0 {
        seq![]
    } else {
        grants(users.drop_last(), n) + grant_steps(users.last(), n)
    }
}

/// Removal of the empty directories left above a nested repository.
pub open spec fn prune_steps(n: Seq<char>) -> Seq<Step> {
    if nested(n) {
        seq![
            Step::RunAny(
                "find "@ + quoted(top_dir_of(n))
                    + " -type d -not -path \"*/*.git/*\" -not -path \"*/*.git\" -exec rmdir {} \\; > /dev/null 2>&1"@,
            ),
            Step::RemoveDir(top_dir_of(n)),
        ]
    } else {
        seq![]
    }
}

/// Destruction of repository `n` whose users are `users`: every access is
/// withdrawn before the group goes.
pub open spec fn destroy_steps(n: Seq<char>, users: Seq<Seq<char>>) -> Seq<Step> {
    revokes(users, n) + seq![
        Step::Run("groupdel "@ + quoted(group_of(n))),
        Step::RemoveDirAll(path_of(n)),
        Step::Chdir("/git"@),
    ] + prune_steps(n)
}

/// The content of `src` copied over that of `dst`, whose permissions are then
/// normalised, and access to `dst` for each of `users`.
pub open spec fn migrate_steps(src: Seq<char>, dst: Seq<char>, users: Seq<Seq<char>>) -> Seq<Step> {
    seq![
        Step::Run("rm -rf "@ + path_of(dst) + "/*"@),
        Step::Run("cp -prf "@ + path_of(src) + "/* "@ + path_of(dst) + "/"@),
    ] + fix_steps(dst) + grants(users, dst)
}

/// The shell of repository `n`: directory, group, bare repository with
/// group-shared permissions, normalised permissions, version stamp and
/// fast-forward policy.
pub open spec fn init_steps(n: Seq<char>) -> Seq<Step> {
    seq![
        Step::CreateDirAll(path_of(n)),
        Step::Run("groupadd "@ + group_of(n)),
        Step::Chdir("/git"@),
        Step::Run("git init -q -b \"main\" --bare --shared=group \""@ + n + ".git\""@),
    ] + fix_steps(n) + set_steps(n, "gmg.version"@, "0.1.0"@) + set_steps(
        n,
        "receive.denyNonFastForwards"@,
        "false"@,
    )
}

/// Creation of repository `n`; with `init_only`, the shell alone.
pub open spec fn create_steps(n: Seq<char>, init_only: bool, desc: Option<Seq<char>>) -> Seq<Step> {
    if init_only {
        init_steps(n)
    } else {
        init_steps(n) + seq![
            Step::InitialCommit,
            Step::WriteFile(description_path_of(n), description_text(desc)),
        ] + set_steps(n, branch_key("main"@, "protected"@), "true"@)
    }
}

/// The first commit, made in a clone under the scratch directory `scratch`:
/// one file, named after the repository, pushed to the default branch.
pub open spec fn initial_commit_steps(n: Seq<char>, scratch: Seq<char>) -> Seq<Step> {
    seq![
        Step::Chdir(scratch),
        Step::Run("git clone --quiet \""@ + path_of(n) + "\" > /dev/null 2>&1"@),
        Step::Chdir(short_name_of(n)),
        Step::WriteFile("README.md"@, "# "@ + short_name_of(n)),
        Step::Run("git add README.md"@),
        Step::Run("git commit --quiet -a -m init"@),
        Step::Run("git push --quiet origin \"main\""@),
        Step::Chdir(path_of(n)),
    ]
}

pub open spec fn not_found(r: Result<Vec<Action>, ErrorKind>) -> bool {
    r matches Err(ErrorKind::NotFound(_))
}

pub open spec fn planned(r: Result<Vec<Action>, ErrorKind>, s: Seq<Step>) -> bool {
    r matches Ok(v) && steps(v@) == s
}

/// A bare repository, known by its validated name. It is a reference: whether
/// it exists, and everything stored with it, live on the host.
#[derive(Debug, PartialEq, Eq, PartialOrd, Ord, Hash)]
pub struct Repository {
    name: String,
    group: String,
    path: String,
}

impl View for Repository {
    type V = Seq<char>;

    closed spec fn view(&self) -> Seq<char> {
        self.name@
    }
}

/// The positions of the first `/` and just after the last one.
fn slashes(n: &Vec<char>) -> (r: (usize, usize))
    ensures
        r.0 == first_slash(n@),
        r.1 == after_last_slash(n@),
        r.0 < n.len() ==> r.1 >= 1,
        r.0 <= n.len(),
        r.1 <= n.len(),
{
    let mut first: usize = 0;
    let mut after: usize = 0;
    let mut i: usize = 0;
    while i < n.len()
        invariant
            i <= n.len(),
            first == first_slash(n@.subrange(0, i as int)),
            after == after_last_slash(n@.subrange(0, i as int)),
        decreases n.len() - i,
    {
        let ghost pre = n@.subrange(0, i as int);
        assert(n@.subrange(0, i + 1).drop_last() =~= pre);
        proof {
            lemma_slash_bounds(pre);
        }
        if first == i {
            if n[i] == '/' {
                first = i;
            } else {
                first = i + 1;
            }
        }
        if n[i] == '/' {
            after = i + 1;
        }
        i += 1;
    }
    assert(n@.subrange(0, n.len() as int) =~= n@);
    proof {
        lemma_slash_bounds(n@);
    }
    (first, after)
}

pub(crate) fn cat(a: String, b: &str) -> (r: String)
    ensures
        r@ == a@ + b@,
{
    a.concat(b)
}

impl Clone for Repository {
    fn clone(&self) -> (r: Self)
        ensures
            r@ == self@,
    {
        proof {
            use_type_invariant(self);
        }
        Repository { name: self.name.clone(), group: self.group.clone(), path: self.path.clone() }
    }
}

impl Repository {
    #[verifier::type_invariant]
    spec fn well_formed(&self) -> bool {
        &&& valid_name(self.name@)
        &&& self.group@ == group_of(self.name@)
        &&& self.path@ == path_of(self.name@)
    }

    /// Validates `name` and derives the group and the directory from it.
    pub fn parse(name: &str) -> (r: Result<Repository, ErrorKind>)
        ensures
            r is Ok <==> valid_name(name@),
            r matches Ok(repo) ==> repo@ == name@,
            starts_with(name@, "/"@) ==> (r matches Err(ErrorKind::Validation(m)) && m@
                == "repository name can not start with /"@),
            !starts_with(name@, "/"@) && (ends_with(name@, ".git"@) || contains(name@, ".git/"@)) ==> (r matches Err(ErrorKind::Validation(m)) && m@
                == "repository name can not end with or contain .git in path chunks"@),
            !starts_with(name@, "/"@) && !ends_with(name@, ".git"@) && !contains(name@, ".git/"@)
                && name@.len() > 30 ==> (r matches Err(ErrorKind::Validation(m)) && m@
                == "repository name is longer than 30 chars"@),
    {
        let n = chars_of(name);
        let slash = vec!['/'];
        let suffix = vec!['.', 'g', 'i', 't'];
        let infix = vec!['.', 'g', 'i', 't', '/'];
        proof {
            assert(slash@ =~= "/"@) by { reveal_strlit("/"); }
            assert(suffix@ =~= ".git"@) by { reveal_strlit(".git"); }
            assert(infix@ =~= ".git/"@) by { reveal_strlit(".git/"); }
        }
        if has_prefix(&n, &slash) {
            return Err(ErrorKind::Validation("repository name can not start with /".to_owned()));
        }
        if has_suffix(&n, &suffix) || has_infix(&n, &infix) {
            return Err(
                ErrorKind::Validation(
                    "repository name can not end with or contain .git in path chunks".to_owned(),
                ),
            );
        }
        if n.len() > MAX_NAME_LEN {
            return Err(ErrorKind::Validation("repository name is longer than 30 chars".to_owned()));
        }
        let group = cat(GROUP_PFX.to_owned(), name);
        let path = cat(cat(cat(GIT_PATH.to_owned(), "/"), name), ".git");
        proof {
            reveal_strlit("g_");
            reveal_strlit("/git");
            reveal_strlit("/");
            reveal_strlit("/git/");
            assert(group@ =~= group_of(name@));
            assert(path@ =~= path_of(name@));
        }
        Ok(Repository { name: name.to_owned(), group, path })
    }

    pub fn name(&self) -> (r: &str)
        ensures
            r@ == self@,
    {
        &self.name
    }

    /// The last segment of the name.
    pub fn short_name(&self) -> (r: String)
        ensures
            r@ == short_name_of(self@),
    {
        let n = chars_of(&self.name);
        let (_, after) = slashes(&n);
        string_of(slice_of(&n, after, n.len()).as_slice())
    }

    /// The first segment of the name.
    pub fn top_dir(&self) -> (r: String)
        ensures
            r@ == top_dir_of(self@),
    {
        let n = chars_of(&self.name);
        let (first, _) = slashes(&n);
        string_of(slice_of(&n, 0, first).as_slice())
    }

    /// The name without its last segment, where it has more than one.
    pub fn parent_dir(&self) -> (r: Option<String>)
        ensures
            nested(self@) <==> r is Some,
            r matches Some(p) ==> p@ == parent_dir_of(self@),
    {
        let n = chars_of(&self.name);
        let (first, after) = slashes(&n);
        if first < n.len() {
            Some(string_of(slice_of(&n, 0, after - 1).as_slice()))
        } else {
            None
        }
    }

    pub fn group(&self) -> (r: &str)
        ensures
            r@ == group_of(self@),
    {
        proof {
            use_type_invariant(self);
        }
        &self.group
    }

    pub fn path(&self) -> (r: &str)
        ensures
            r@ == path_of(self@),
    {
        proof {
            use_type_invariant(self);
        }
        &self.path
    }

    pub fn path_as_str(&self) -> (r: String)
        ensures
            r@ == path_of(self@),
    {
        self.path().to_owned()
    }

    pub fn config_path(&self) -> (r: String)
        ensures
            r@ == config_path_of(self@),
    {
        cat(self.path_as_str(), "/config")
    }

    pub fn description_path(&self) -> (r: String)
        ensures
            r@ == description_path_of(self@),
    {
        cat(self.path_as_str(), "/description")
    }

    /// Turns the answer to "is the directory there" into the outcome that
    /// every operation on an existing repository starts with.
    pub fn must_exist(&self, present: bool) -> (r: Result<(), ErrorKind>)
        ensures
            r is Ok <==> present,
            !present ==> (r matches Err(ErrorKind::NotFound(m)) && m@ == "Repository doesn't exist: "@
                + self@),
    {
        if present {
            Ok(())
        } else {
            Err(ErrorKind::NotFound(cat("Repository doesn't exist: ".to_owned(), &self.name)))
        }
    }

    /// Stores `value` under `param` in the metadata store, then restores the
    /// store's permission bits.
    pub fn set(&self, present: bool, param: &str, value: &str) -> (r: Result<Vec<Action>, ErrorKind>)
        ensures
            !present ==> not_found(r),
            present ==> planned(r, set_steps(self@, param@, value@)),
    {
        self.must_exist(present)?;
        let cfg = self.config_path();
        let cmd = cat(
            cat(cat(cat(cat(cat("git config -f \"".to_owned(), &cfg), "\" "), param), " \""), value),
            "\"",
        );
        let plan = vec![Action::Run(cmd), Action::Chmod(cfg, 0o644)];
        assert(steps(plan@) =~= set_steps(self@, param@, value@));
        Ok(plan)
    }

    /// Removes `param` from the metadata store, then restores the store's
    /// permission bits.
    pub fn unset(&self, present: bool, param: &str) -> (r: Result<Vec<Action>, ErrorKind>)
        ensures
            !present ==> not_found(r),
            present ==> planned(r, unset_steps(self@, param@)),
    {
        self.must_exist(present)?;
        let cfg = self.config_path();
        let cmd = cat(cat(cat("git config -f \"".to_owned(), &cfg), "\" --unset "), param);
        let plan = vec![Action::Run(cmd), Action::Chmod(cfg, 0o644)];
        assert(steps(plan@) =~= unset_steps(self@, param@));
        Ok(plan)
    }

    /// Marks `branch` as protected.
    pub fn protect(&self, present: bool, branch: &str) -> (r: Result<Vec<Action>, ErrorKind>)
        ensures
            !present ==> not_found(r),
            present ==> planned(r, set_steps(self@, branch_key(branch@, "protected"@), "true"@)),
    {
        self.set(present, &branch_key_string(branch, "protected"), "true")
    }

    /// Removes the protection mark of `branch`.
    pub fn unprotect(&self, present: bool, branch: &str) -> (r: Result<Vec<Action>, ErrorKind>)
        ensures
            !present ==> not_found(r),
            present ==> planned(r, unset_steps(self@, branch_key(branch@, "protected"@))),
    {
        self.unset(present, &branch_key_string(branch, "protected"))
    }
}


impl Repository {
    fn fix_actions(&self) -> (r: Vec<Action>)
        ensures
            steps(r@) == fix_steps(self@),
    {
        let p = self.path_as_str();
        let plan = vec![
            Action::Run(cat(cat("find ".to_owned(), &p), " -type d -exec chmod -R 002775 {} \\;")),
            Action::Run(cat(cat("find ".to_owned(), &p), " -type f -exec chmod -R 000664 {} \\;")),
            Action::Chmod(p.clone(), 0o2770),
            Action::Run(cat(cat("chmod -R 000755 \"".to_owned(), &p), "/hooks\"")),
            Action::Run(
                cat(cat(cat(cat("chown -R \"git:".to_owned(), self.group()), "\" \""), &p), "\""),
            ),
            Action::Run(
                cat(cat(cat(cat("chown \"root:".to_owned(), self.group()), "\" \""), &p), "/config\""),
            ),
            Action::Run(
                cat(cat(cat(cat("chown \"root:".to_owned(), self.group()), "\" \""), &p), "/description\""),
            ),
            Action::Chmod(self.config_path(), 0o644),
            Action::Chmod(self.description_path(), 0o644),
        ];
        assert(steps(plan@) =~= fix_steps(self@));
        plan
    }

    fn cleanup_actions(&self) -> (r: Vec<Action>)
        ensures
            steps(r@) == cleanup_steps(self@),
    {
        let mut plan = vec![
            Action::Chdir(self.path_as_str()),
            Action::Run("git reflog expire --expire=now --all".to_owned()),
            Action::Run("git gc --prune=now".to_owned()),
        ];
        let ghost head = steps(plan@);
        append_plan(&mut plan, self.fix_actions());
        assert(head =~= seq![
            Step::Chdir(path_of(self@)),
            Step::Run("git reflog expire --expire=now --all"@),
            Step::Run("git gc --prune=now"@),
        ]);
        plan
    }

    /// Normalises the permissions and ownership of the repository's files;
    /// with `full`, also expires history and collects garbage.
    pub fn fix(&self, present: bool, full: bool) -> (r: Result<Vec<Action>, ErrorKind>)
        ensures
            !present ==> not_found(r),
            present && !full ==> planned(r, fix_steps(self@)),
            present && full ==> planned(r, fix_steps(self@) + cleanup_steps(self@)),
    {
        self.must_exist(present)?;
        let mut plan = self.fix_actions();
        if full {
            append_plan(&mut plan, self.cleanup_actions());
        }
        Ok(plan)
    }

    /// Expires all history logs, collects garbage, and normalises permissions.
    pub fn cleanup(&self, present: bool) -> (r: Result<Vec<Action>, ErrorKind>)
        ensures
            !present ==> not_found(r),
            present ==> planned(r, cleanup_steps(self@)),
    {
        self.must_exist(present)?;
        Ok(self.cleanup_actions())
    }

    /// Checks the repository's integrity; a failure is reported, not fatal.
    pub fn check(&self, present: bool) -> (r: Result<Vec<Action>, ErrorKind>)
        ensures
            !present ==> not_found(r),
            present ==> planned(r, seq![Step::Chdir(path_of(self@)), Step::Advisory("git fsck"@)]),
    {
        self.must_exist(present)?;
        let plan = vec![Action::Chdir(self.path_as_str()), Action::Advisory("git fsck".to_owned())];
        assert(steps(plan@) =~= seq![Step::Chdir(path_of(self@)), Step::Advisory("git fsck"@)]);
        Ok(plan)
    }

    /// Removes the group, which ends every access at once, and locks the
    /// directory to its owner.
    pub fn archive(&self, present: bool) -> (r: Result<Vec<Action>, ErrorKind>)
        ensures
            !present ==> not_found(r),
            present ==> planned(
                r,
                seq![Step::Run("groupdel "@ + group_of(self@)), Step::Chmod(path_of(self@), 0o700)],
            ),
    {
        self.must_exist(present)?;
        let plan = vec![
            Action::Run(cat("groupdel ".to_owned(), self.group())),
            Action::Chmod(self.path_as_str(), 0o700),
        ];
        assert(steps(plan@) =~= seq![
            Step::Run("groupdel "@ + group_of(self@)),
            Step::Chmod(path_of(self@), 0o700),
        ]);
        Ok(plan)
    }

    fn init_actions(&self) -> (r: Vec<Action>)
        ensures
            steps(r@) == init_steps(self@),
    {
        let mut plan = vec![
            Action::CreateDirAll(self.path_as_str()),
            Action::Run(cat("groupadd ".to_owned(), self.group())),
            Action::Chdir(GIT_PATH.to_owned()),
            Action::Run(
                cat(cat("git init -q -b \"main\" --bare --shared=group \"".to_owned(), &self.name), ".git\""),
            ),
        ];
        let ghost head = steps(plan@);
        append_plan(&mut plan, self.fix_actions());
        append_plan(&mut plan, self.set_actions("gmg.version", VERSION));
        append_plan(&mut plan, self.set_actions("receive.denyNonFastForwards", "false"));
        assert(head =~= seq![
            Step::CreateDirAll(path_of(self@)),
            Step::Run("groupadd "@ + group_of(self@)),
            Step::Chdir("/git"@),
            Step::Run("git init -q -b \"main\" --bare --shared=group \""@ + self@ + ".git\""@),
        ]);
        plan
    }

    fn set_actions(&self, param: &str, value: &str) -> (r: Vec<Action>)
        ensures
            steps(r@) == set_steps(self@, param@, value@),
    {
        let cfg = self.config_path();
        let cmd = cat(
            cat(cat(cat(cat(cat("git config -f \"".to_owned(), &cfg), "\" "), param), " \""), value),
            "\"",
        );
        let plan = vec![Action::Run(cmd), Action::Chmod(cfg, 0o644)];
        assert(steps(plan@) =~= set_steps(self@, param@, value@));
        plan
    }

    /// Brings the repository into existence; with `init_only`, without a
    /// first commit, description or branch protection.
    pub fn create(&self, present: bool, init_only: bool, description: Option<&str>) -> (r: Result<
        Vec<Action>,
        ErrorKind,
    >)
        ensures
            present <==> r matches Err(ErrorKind::AlreadyExists(_)),
            !present ==> planned(
                r,
                create_steps(
                    self@,
                    init_only,
                    match description {
                        Some(d) => Some(d@),
                        None => None,
                    },
                ),
            ),
    {
        if present {
            return Err(ErrorKind::AlreadyExists("repository already exists".to_owned()));
        }
        let mut plan = self.init_actions();
        if !init_only {
            let mut rest = vec![
                Action::InitialCommit,
                Action::WriteFile(self.description_path(), description_string(description)),
            ];
            let ghost head = steps(rest@);
            let key = branch_key_string(MAIN_BRANCH, "protected");
            append_plan(&mut rest, self.set_actions(&key, "true"));
            assert(key@ == branch_key("main"@, "protected"@));
            assert(head =~= seq![
                Step::InitialCommit,
                Step::WriteFile(
                    description_path_of(self@),
                    description_text(
                        match description {
                            Some(d) => Some(d@),
                            None => None,
                        },
                    ),
                ),
            ]);
            let ghost init = steps(plan@);
            append_plan(&mut plan, rest);
            assert(steps(plan@) =~= create_steps(
                self@,
                init_only,
                match description {
                    Some(d) => Some(d@),
                    None => None,
                },
            ));
        }
        Ok(plan)
    }

    /// The first commit, made in a clone under the scratch directory `scratch`.
    pub fn initial_commit(&self, scratch: &str) -> (r: Vec<Action>)
        ensures
            steps(r@) == initial_commit_steps(self@, scratch@),
    {
        let short = self.short_name();
        let plan = vec![
            Action::Chdir(scratch.to_owned()),
            Action::Run(cat(cat("git clone --quiet \"".to_owned(), self.path()), "\" > /dev/null 2>&1")),
            Action::Chdir(short.clone()),
            Action::WriteFile("README.md".to_owned(), cat("# ".to_owned(), &short)),
            Action::Run("git add README.md".to_owned()),
            Action::Run("git commit --quiet -a -m init".to_owned()),
            Action::Run("git push --quiet origin \"main\"".to_owned()),
            Action::Chdir(self.path_as_str()),
        ];
        assert(steps(plan@) =~= initial_commit_steps(self@, scratch@));
        plan
    }

    /// The description that the content `text` of a description file stands
    /// for: none for the placeholder text, else the text trimmed.
    pub fn read_description(text: &str) -> (r: Option<String>)
        ensures
            match description_of(text@) {
                Some(d) => r matches Some(s) && s@ == d,
                None => r is None,
            },
    {
        let t = chars_of(text);
        let sentinel = chars_of("Unnamed repository;");
        if has_prefix(&t, &sentinel) {
            None
        } else {
            Some(string_of(trimmed(&t).as_slice()))
        }
    }

    /// Writes the description (the placeholder where there is none) and
    /// regenerates the catalog of each of `users`, the repository's users.
    pub fn set_description(&self, present: bool, desc: Option<&str>, users: &Vec<User>) -> (r: Result<
        Vec<Action>,
        ErrorKind,
    >)
        ensures
            !present ==> not_found(r),
            present ==> planned(
                r,
                seq![
                    Step::WriteFile(
                        description_path_of(self@),
                        description_text(
                            match desc {
                                Some(d) => Some(d@),
                                None => None,
                            },
                        ),
                    ),
                ] + catalog_steps(logins(users@)),
            ),
    {
        self.must_exist(present)?;
        let mut plan = vec![Action::WriteFile(self.description_path(), description_string(desc))];
        let ghost head = steps(plan@);
        assert(head =~= seq![
            Step::WriteFile(
                description_path_of(self@),
                description_text(
                    match desc {
                        Some(d) => Some(d@),
                        None => None,
                    },
                ),
            ),
        ]);
        assert(logins(users@.subrange(0, 0)) =~= seq![]);
        assert(head + catalog_steps(logins(users@.subrange(0, 0))) =~= head);
        let mut i: usize = 0;
        while i < users.len()
            invariant
                i <= users.len(),
                steps(plan@) == head + catalog_steps(logins(users@.subrange(0, i as int))),
            decreases users.len() - i,
        {
            let ghost before = users@.subrange(0, i as int);
            let ghost prev = steps(plan@);
            plan.push(Action::UpdateCatalog(users[i].login().to_owned()));
            assert(steps(plan@) =~= prev.push(Step::UpdateCatalog(users@[i as int]@)));
            assert(users@.subrange(0, i + 1) =~= before.push(users@[i as int]));
            assert(logins(users@.subrange(0, i + 1)) =~= logins(before).push(users@[i as int]@));
            assert(catalog_steps(logins(users@.subrange(0, i + 1))) =~= catalog_steps(logins(before)).push(
                Step::UpdateCatalog(users@[i as int]@),
            ));
            i += 1;
            assert(steps(plan@) =~= head + catalog_steps(logins(users@.subrange(0, i as int))));
        }
        assert(users@.subrange(0, users.len() as int) =~= users@);
        Ok(plan)
    }
}

impl Repository {
    /// Destroys the repository, whose users are `users`: each access is
    /// withdrawn first, then the group, the directory, and the parent
    /// directories left empty go.
    pub fn destroy(&self, present: bool, users: &Vec<User>) -> (r: Result<Vec<Action>, ErrorKind>)
        ensures
            !present ==> not_found(r),
            present ==> planned(r, destroy_steps(self@, logins(users@))),
    {
        self.must_exist(present)?;
        let mut plan: Vec<Action> = Vec::new();
        let mut i: usize = 0;
        while i < users.len()
            invariant
                i <= users.len(),
                steps(plan@) == revokes(logins(users@.subrange(0, i as int)), self@),
            decreases users.len() - i,
        {
            let ghost before = users@.subrange(0, i as int);
            append_plan(&mut plan, users[i].revoke(self));
            assert(users@.subrange(0, i + 1) =~= before.push(users@[i as int]));
            assert(logins(users@.subrange(0, i + 1)).drop_last() =~= logins(before));
            i += 1;
        }
        assert(users@.subrange(0, users.len() as int) =~= users@);
        let ghost revs = steps(plan@);
        let mut tail = vec![
            Action::Run(cat("groupdel ".to_owned(), &quote(self.group()))),
            Action::RemoveDirAll(self.path_as_str()),
            Action::Chdir(GIT_PATH.to_owned()),
        ];
        let ghost mid = steps(tail@);
        if self.parent_dir().is_some() {
            let top = self.top_dir();
            tail.push(
                Action::RunAny(
                    cat(
                        cat("find ".to_owned(), &quote(&top)),
                        " -type d -not -path \"*/*.git/*\" -not -path \"*/*.git\" -exec rmdir {} \\; > /dev/null 2>&1",
                    ),
                ),
            );
            tail.push(Action::RemoveDir(top));
        }
        assert(steps(tail@) =~= mid + prune_steps(self@));
        append_plan(&mut plan, tail);
        proof {
            reveal_strlit("/git");
        }
        assert(steps(plan@) =~= destroy_steps(self@, logins(users@)));
        Ok(plan)
    }

    /// Replaces the content of `target` with that of this repository and
    /// gives each of `users`, this repository's users, access to `target`.
    pub fn replace_and_move(&self, target: &Repository, users: &Vec<User>) -> (r: Vec<Action>)
        ensures
            steps(r@) == migrate_steps(self@, target@, logins(users@)),
    {
        let t = target.path_as_str();
        let mut plan = vec![
            Action::Run(cat(cat("rm -rf ".to_owned(), &t), "/*")),
            Action::Run(cat(cat(cat(cat("cp -prf ".to_owned(), self.path()), "/* "), &t), "/")),
        ];
        append_plan(&mut plan, target.fix_actions());
        let ghost head = steps(plan@);
        let mut i: usize = 0;
        while i < users.len()
            invariant
                i <= users.len(),
                steps(plan@) == head + grants(logins(users@.subrange(0, i as int)), target@),
            decreases users.len() - i,
        {
            let ghost before = users@.subrange(0, i as int);
            append_plan(&mut plan, users[i].grant_actions(target));
            assert(users@.subrange(0, i + 1) =~= before.push(users@[i as int]));
            assert(logins(users@.subrange(0, i + 1)).drop_last() =~= logins(before));
            i += 1;
        }
        assert(users@.subrange(0, users.len() as int) =~= users@);
        plan
    }

    /// Starts renaming this repository to `new_repo`: both are checked, and
    /// the plan is that of creating `new_repo` without a first commit. What
    /// follows is driven by `rename_next`.
    pub fn rename(&self, new_repo: &Repository, present: bool, new_present: bool) -> (r: Result<
        Vec<Action>,
        ErrorKind,
    >)
        ensures
            !present ==> not_found(r),
            present && new_present ==> r matches Err(ErrorKind::AlreadyExists(_)),
            present && !new_present ==> planned(r, create_steps(new_repo@, true, None)),
    {
        self.must_exist(present)?;
        new_repo.create(new_present, true, None)
    }
}

impl Repository {
    /// The query whose output `users` reads: the repository's group entry.
    pub fn users_query(&self, present: bool) -> (r: Result<Vec<Action>, ErrorKind>)
        ensures
            !present ==> not_found(r),
            present ==> planned(r, seq![Step::RunAny("grep \"^"@ + group_of(self@) + ":\" /etc/group"@)]),
    {
        self.must_exist(present)?;
        let plan = vec![Action::RunAny(cat(cat("grep \"^".to_owned(), self.group()), ":\" /etc/group"))];
        assert(steps(plan@) =~= seq![Step::RunAny("grep \"^"@ + group_of(self@) + ":\" /etc/group"@)]);
        Ok(plan)
    }

    /// The users with access, sorted by login, from the group entry `out`
    /// that `users_query` yields.
    pub fn users(&self, out: &str) -> (r: Vec<User>)
        ensures
            lex_sorted(logins(r@)),
            logins(r@).to_multiset() == group_members(out@).to_multiset(),
    {
        let mut names = group_members_of(out);
        sort_strings(&mut names);
        let ghost sv = views(names@);
        let mut users: Vec<User> = Vec::new();
        let mut i: usize = 0;
        while i < names.len()
            invariant
                i <= names.len(),
                sv == views(names@),
                logins(users@) == sv.subrange(0, i as int),
            decreases names.len() - i,
        {
            let ghost prev = logins(users@);
            users.push(User::parse(&names[i]));
            assert(logins(users@) =~= prev.push(sv[i as int]));
            assert(sv.subrange(0, i + 1) =~= sv.subrange(0, i as int).push(sv[i as int]));
            i += 1;
        }
        assert(sv.subrange(0, sv.len() as int) =~= sv);
        users
    }

    /// The query whose output `branches` reads.
    pub fn branches_query(&self, present: bool) -> (r: Result<Vec<Action>, ErrorKind>)
        ensures
            !present ==> not_found(r),
            present ==> planned(r, seq![Step::Chdir(path_of(self@)), Step::Run("git branch"@)]),
    {
        self.must_exist(present)?;
        let plan = vec![Action::Chdir(self.path_as_str()), Action::Run("git branch".to_owned())];
        assert(steps(plan@) =~= seq![Step::Chdir(path_of(self@)), Step::Run("git branch"@)]);
        Ok(plan)
    }

    /// The local branch names, sorted, from the listing `out` that
    /// `branches_query` yields.
    pub fn branches(&self, out: &str) -> (r: Vec<String>)
        ensures
            lex_sorted(views(r@)),
            views(r@).to_multiset() == branch_names(out@).to_multiset(),
    {
        let mut names = branch_names_of(out);
        sort_strings(&mut names);
        names
    }

    /// The query whose output `list_all` reads.
    pub fn list_query() -> (r: Vec<Action>)
        ensures
            steps(r@) == seq![Step::Chdir("/git"@), Step::Run("find . -name \"*.git\" -type d"@)],
    {
        let plan = vec![Action::Chdir(GIT_PATH.to_owned()), Action::Run("find . -name \"*.git\" -type d".to_owned())];
        proof {
            reveal_strlit("/git");
        }
        assert(steps(plan@) =~= seq![Step::Chdir("/git"@), Step::Run("find . -name \"*.git\" -type d"@)]);
        plan
    }

    /// Every repository on disk, sorted by name, from the directory search
    /// `out` that `list_query` yields.
    pub fn list_all(out: &str) -> (r: Result<Vec<Repository>, ErrorKind>)
        ensures
            r is Ok <==> all_valid(listed_names(lines(out@))),
            r matches Ok(v) ==> lex_sorted(repo_views(v@)) && repo_views(v@).to_multiset()
                == listed_names(lines(out@)).to_multiset(),
            r matches Err(e) ==> e is Validation,
    {
        sorted_repositories(listed_names_of(out))
    }
}

/// `url` without its trailing slashes.
pub open spec fn strip_slashes(url: Seq<char>) -> Seq<char>
    decreases url.len(),
{
    if url.len() > 0 && url.last() == '/' {
        strip_slashes(url.drop_last())
    } else {
        url
    }
}

/// The trigger address of job `job` on the CI server at `url`.
pub open spec fn trigger_url(url: Seq<char>, job: Seq<char>) -> Seq<char> {
    strip_slashes(url) + "/job/"@ + job + "/trigger"@
}

/// The trigger address of job `job` on the CI server at `url`.
pub fn rci_trigger_url(url: &str, job: &str) -> (r: String)
    ensures
        r@ == trigger_url(url@, job@),
{
    let u = chars_of(url);
    let mut n = u.len();
    assert(u@.subrange(0, n as int) =~= u@);
    while n > 0 && u[n - 1] == '/'
        invariant
            n <= u.len(),
            strip_slashes(u@) == strip_slashes(u@.subrange(0, n as int)),
        decreases n,
    {
        assert(u@.subrange(0, n as int).drop_last() =~= u@.subrange(0, n - 1));
        n -= 1;
    }
    let base = string_of(slice_of(&u, 0, n).as_slice());
    cat(cat(cat(base, "/job/"), job), "/trigger")
}

impl Repository {
    /// Stores the CI trigger of `branch`: the trigger address of job `job` on
    /// the server at `url`, and the secret.
    pub fn rci_set(&self, present: bool, branch: &str, url: &str, job: &str, secret: &str) -> (r: Result<
        Vec<Action>,
        ErrorKind,
    >)
        ensures
            !present ==> not_found(r),
            present ==> planned(
                r,
                set_steps(self@, branch_key(branch@, "rci.url"@), trigger_url(url@, job@))
                    + set_steps(self@, branch_key(branch@, "rci.secret"@), secret@),
            ),
    {
        let mut plan = self.set(present, &branch_key_string(branch, "rci.url"), &rci_trigger_url(url, job))?;
        append_plan(&mut plan, self.set_actions(&branch_key_string(branch, "rci.secret"), secret));
        Ok(plan)
    }

    /// Removes the CI trigger of `branch`.
    pub fn rci_unset(&self, present: bool, branch: &str) -> (r: Result<Vec<Action>, ErrorKind>)
        ensures
            !present ==> not_found(r),
            present ==> planned(
                r,
                unset_steps(self@, branch_key(branch@, "rci.url"@)) + unset_steps(
                    self@,
                    branch_key(branch@, "rci.secret"@),
                ),
            ),
    {
        let mut plan = self.unset(present, &branch_key_string(branch, "rci.url"))?;
        let more = self.unset(present, &branch_key_string(branch, "rci.secret"))?;
        append_plan(&mut plan, more);
        Ok(plan)
    }
}

/// The text stored for description `desc`.
fn description_string(desc: Option<&str>) -> (r: String)
    ensures
        r@ == description_text(
            match desc {
                Some(d) => Some(d@),
                None => None,
            },
        ),
{
    match desc {
        Some(d) => d.to_owned(),
        None => "Unnamed repository;".to_owned(),
    }
}

/// The metadata key of setting `field` of `branch`.
pub fn branch_key_string(branch: &str, field: &str) -> (r: String)
    ensures
        r@ == branch_key(branch@, field@),
{
    cat(cat(cat("hooks.branch.".to_owned(), branch), "."), field)
}

/// The metadata key that marks `login` as a maintainer.
pub fn maintainer_key_string(login: &str) -> (r: String)
    ensures
        r@ == maintainer_key(login@),
{
    cat(cat("hooks.user.".to_owned(), login), ".maintainer")
}

} // verus!
