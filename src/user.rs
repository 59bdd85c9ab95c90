use vstd::prelude::*;

use crate::action::{steps, Action, Step};
use crate::error::ErrorKind;
use crate::listing::{
    accounts, accounts_of, all_valid, pair_views, repo_views, sort_pairs, sorted_repositories,
    user_repo_names, user_repo_names_of,
};
use crate::text::{char_views, chars_of, has_prefix, lex_le, lex_sorted, lines, lines_of, starts_with, string_of, views};
use crate::repo::{
    cat, group_of, maintainer_key, maintainer_key_string, nested, not_found, parent_dir_of,
    path_of, planned, set_steps, short_name_of, top_dir_of, unset_steps, Repository,
};

verus! {

/// Where the users' home directories live.
pub const HOME_PATH: &'static str = "/home";

/// The home directory of `login`.
pub open spec fn home_of(login: Seq<char>) -> Seq<char> {
    "/home/"@ + login
}

/// The browser catalog generated for `login`.
pub open spec fn catalog_path_of(login: Seq<char>) -> Seq<char> {
    "/git/.config/cgit/"@ + login + ".cgitrc"@
}

/// The command that fails where there is no account `login`.
pub open spec fn id_command(login: Seq<char>) -> Seq<char> {
    "id \""@ + login + "\""@
}

pub open spec fn quoted(s: Seq<char>) -> Seq<char> {
    "\""@ + s + "\""@
}

/// Account creation, with `shell` as login shell, `name` as display name and
/// `key` as the only authorised SSH key.
pub open spec fn create_steps(login: Seq<char>, name: Seq<char>, shell: Seq<char>, key: Seq<char>) -> Seq<Step> {
    seq![
        Step::Run("useradd -m --shell "@ + quoted(shell) + " "@ + quoted(login)),
        Step::Run("chfn -f "@ + quoted(name) + " "@ + quoted(login)),
        Step::Chmod(home_of(login), 0o700),
        Step::Chdir(home_of(login)),
        Step::CreateDirAll(".ssh"@),
        Step::WriteFile(".ssh/authorized_keys"@, key),
        Step::Chmod(".ssh"@, 0o700),
        Step::Run("chown -R "@ + quoted(login) + " .ssh"@),
        Step::UpdateCatalog(login),
    ]
}

/// Account removal; the home directory stays.
pub open spec fn destroy_steps(login: Seq<char>) -> Seq<Step> {
    seq![
        Step::Run(id_command(login)),
        Step::Run("userdel "@ + quoted(login)),
        Step::RemoveFile(catalog_path_of(login)),
    ]
}

/// The link directories of repository `n` in a home: none for a one-segment
/// name, else the parent directories, owned by the user from the top one down.
pub open spec fn link_dir_steps(login: Seq<char>, n: Seq<char>) -> Seq<Step> {
    if nested(n) {
        seq![
            Step::CreateDirAll(parent_dir_of(n)),
            Step::Run("chown -R "@ + quoted(login) + " "@ + quoted(top_dir_of(n))),
            Step::Chdir(parent_dir_of(n)),
        ]
    } else {
        seq![]
    }
}

/// Access of `login` to repository `n`: group membership, a link in the
/// home directory, and a fresh catalog.
pub open spec fn grant_steps(login: Seq<char>, n: Seq<char>) -> Seq<Step> {
    seq![
        Step::Run(id_command(login)),
        Step::Run("gpasswd -a "@ + quoted(login) + " "@ + quoted(group_of(n))),
        Step::Chdir(home_of(login)),
    ] + link_dir_steps(login, n) + seq![
        Step::RemoveFile(short_name_of(n)),
        Step::Run("ln -sf "@ + quoted(path_of(n)) + " "@ + quoted(short_name_of(n))),
        Step::UpdateCatalog(login),
    ]
}

/// Withdrawal of the access of `login` to repository `n`: group membership
/// (whether or not it was there), the link, empty link directories, and a
/// fresh catalog.
pub open spec fn revoke_steps(login: Seq<char>, n: Seq<char>) -> Seq<Step> {
    seq![
        Step::Run(id_command(login)),
        Step::RunAny("gpasswd -d "@ + quoted(login) + " "@ + quoted(group_of(n))),
        Step::Chdir(home_of(login)),
        Step::RemoveFile(n),
        Step::RunAny(
            "find "@ + quoted(top_dir_of(n)) + " -type d -exec rmdir {} \\; > /dev/null 2>&1"@,
        ),
        Step::UpdateCatalog(login),
    ]
}

/// The lines of a catalog template that the generated blocks do not replace.
pub open spec fn kept_lines(ls: Seq<Seq<char>>) -> Seq<Seq<char>>
    decreases ls.len(),
{
    if ls.len() == 0 {
        seq![]
    } else if starts_with(ls.last(), "repo."@) {
        kept_lines(ls.drop_last())
    } else {
        kept_lines(ls.drop_last()).push(ls.last())
    }
}

pub open spec fn opt_view(o: Option<String>) -> Option<Seq<char>> {
    match o {
        Some(s) => Some(s@),
        None => None,
    }
}

/// The catalog block of one repository: name, path, description if any.
pub open spec fn entry_lines(e: (Seq<char>, Option<Seq<char>>)) -> Seq<Seq<char>> {
    let head = seq!["repo.url="@ + e.0, "repo.path="@ + path_of(e.0)];
    match e.1 {
        Some(d) => head.push("repo.desc="@ + d),
        None => head,
    }
}

pub open spec fn blocks(es: Seq<(Seq<char>, Option<Seq<char>>)>) -> Seq<Seq<char>>
    decreases es.len(),
{
    if es.len() == 0 {
        seq![]
    } else {
        blocks(es.drop_last()) + entry_lines(es.last())
    }
}

/// `ls` joined with line feeds.
pub open spec fn join_lines(ls: Seq<Seq<char>>) -> Seq<char>
    decreases ls.len(),
{
    if ls.len() == 0 {
        seq![]
    } else if ls.len() == 1 {
        ls[0]
    } else {
        join_lines(ls.drop_last()) + "\n"@ + ls.last()
    }
}

pub open spec fn entry_views(es: Seq<(Repository, Option<String>)>) -> Seq<(Seq<char>, Option<Seq<char>>)> {
    es.map_values(|e: (Repository, Option<String>)| (e.0@, opt_view(e.1)))
}

/// The catalog made from the template `template` and the repositories
/// `entries` with their descriptions: the template's lines but its blocks,
/// one block per repository, and a final line feed.
pub open spec fn catalog(template: Seq<char>, entries: Seq<(Seq<char>, Option<Seq<char>>)>) -> Seq<char> {
    join_lines(kept_lines(lines(template)) + blocks(entries) + seq![Seq::<char>::empty()])
}

/// A hosted account, known by its login.
#[derive(Debug, PartialEq, Eq, PartialOrd, Ord, Hash)]
pub struct User {
    login: String,
    home: String,
}

impl View for User {
    type V = Seq<char>;

    closed spec fn view(&self) -> Seq<char> {
        self.login@
    }
}

pub(crate) fn quote(s: &str) -> (r: String)
    ensures
        r@ == quoted(s@),
{
    cat(cat("\"".to_owned(), s), "\"")
}

impl Clone for User {
    fn clone(&self) -> (r: Self)
        ensures
            r@ == self@,
    {
        proof {
            use_type_invariant(self);
        }
        User { login: self.login.clone(), home: self.home.clone() }
    }
}

impl User {
    #[verifier::type_invariant]
    spec fn well_formed(&self) -> bool {
        self.home@ == home_of(self.login@)
    }

    /// The user with login `login`, whose home is derived from it.
    pub fn parse(login: &str) -> (r: User)
        ensures
            r@ == login@,
    {
        let home = cat(cat(HOME_PATH.to_owned(), "/"), login);
        proof {
            reveal_strlit("/home");
            reveal_strlit("/");
            reveal_strlit("/home/");
            assert(home@ =~= home_of(login@));
        }
        User { login: login.to_owned(), home }
    }

    pub fn login(&self) -> (r: &str)
        ensures
            r@ == self@,
    {
        &self.login
    }

    pub fn home(&self) -> (r: &str)
        ensures
            r@ == home_of(self@),
    {
        proof {
            use_type_invariant(self);
        }
        &self.home
    }

    /// The catalog file generated for this user.
    pub fn catalog_path(&self) -> (r: String)
        ensures
            r@ == catalog_path_of(self@),
    {
        cat(cat("/git/.config/cgit/".to_owned(), &self.login), ".cgitrc")
    }

    /// The step that fails where the account does not exist.
    pub fn must_exist(&self) -> (r: Action)
        ensures
            r@ == Step::Run(id_command(self@)),
    {
        Action::Run(cat(cat("id \"".to_owned(), &self.login), "\""))
    }

    /// Creates the account with login shell `shell` (the hosting shell),
    /// display name `name` and the SSH public key `key`.
    pub fn create(&self, name: &str, shell: &str, key: &str) -> (r: Vec<Action>)
        ensures
            steps(r@) == create_steps(self@, name@, shell@, key@),
    {
        let login = &self.login;
        let home = self.home().to_owned();
        let plan = vec![
            Action::Run(cat(cat(cat("useradd -m --shell ".to_owned(), &quote(shell)), " "), &quote(login))),
            Action::Run(cat(cat(cat("chfn -f ".to_owned(), &quote(name)), " "), &quote(login))),
            Action::Chmod(home.clone(), 0o700),
            Action::Chdir(home),
            Action::CreateDirAll(".ssh".to_owned()),
            Action::WriteFile(".ssh/authorized_keys".to_owned(), key.to_owned()),
            Action::Chmod(".ssh".to_owned(), 0o700),
            Action::Run(cat(cat("chown -R ".to_owned(), &quote(login)), " .ssh")),
            Action::UpdateCatalog(login.clone()),
        ];
        assert(steps(plan@) =~= create_steps(self@, name@, shell@, key@));
        plan
    }

    /// Regenerates the catalog.
    pub fn update(&self) -> (r: Vec<Action>)
        ensures
            steps(r@) == seq![Step::UpdateCatalog(self@)],
    {
        let plan = vec![Action::UpdateCatalog(self.login.clone())];
        assert(steps(plan@) =~= seq![Step::UpdateCatalog(self@)]);
        plan
    }

    /// Removes the account and its catalog; the home directory stays.
    pub fn destroy(&self) -> (r: Vec<Action>)
        ensures
            steps(r@) == destroy_steps(self@),
    {
        let plan = vec![
            self.must_exist(),
            Action::Run(cat("userdel ".to_owned(), &quote(&self.login))),
            Action::RemoveFile(self.catalog_path()),
        ];
        assert(steps(plan@) =~= destroy_steps(self@));
        plan
    }

    /// Gives this user access to `repo`, which must exist.
    pub fn grant(&self, repo: &Repository, repo_present: bool) -> (r: Result<Vec<Action>, ErrorKind>)
        ensures
            !repo_present ==> not_found(r),
            repo_present ==> planned(r, grant_steps(self@, repo@)),
    {
        repo.must_exist(repo_present)?;
        Ok(self.grant_actions(repo))
    }

    /// The plan of access of this user to `repo`.
    pub(crate) fn grant_actions(&self, repo: &Repository) -> (r: Vec<Action>)
        ensures
            steps(r@) == grant_steps(self@, repo@),
    {
        let login = &self.login;
        let mut plan = vec![
            self.must_exist(),
            Action::Run(cat(cat(cat("gpasswd -a ".to_owned(), &quote(login)), " "), &quote(repo.group()))),
            Action::Chdir(self.home().to_owned()),
        ];
        let ghost head = steps(plan@);
        match repo.parent_dir() {
            Some(base) => {
                let top = repo.top_dir();
                plan.push(Action::CreateDirAll(base.clone()));
                plan.push(Action::Run(cat(cat(cat("chown -R ".to_owned(), &quote(login)), " "), &quote(&top))));
                plan.push(Action::Chdir(base));
            },
            None => {},
        }
        assert(steps(plan@) =~= head + link_dir_steps(self@, repo@));
        let ghost mid = steps(plan@);
        let short = repo.short_name();
        plan.push(Action::RemoveFile(short.clone()));
        plan.push(Action::Run(cat(cat(cat("ln -sf ".to_owned(), &quote(repo.path())), " "), &quote(&short))));
        plan.push(Action::UpdateCatalog(login.clone()));
        assert(steps(plan@) =~= grant_steps(self@, repo@));
        plan
    }

    /// Withdraws the access of this user to `repo`; safe to repeat.
    pub fn revoke(&self, repo: &Repository) -> (r: Vec<Action>)
        ensures
            steps(r@) == revoke_steps(self@, repo@),
    {
        let login = &self.login;
        let plan = vec![
            self.must_exist(),
            Action::RunAny(cat(cat(cat("gpasswd -d ".to_owned(), &quote(login)), " "), &quote(repo.group()))),
            Action::Chdir(self.home().to_owned()),
            Action::RemoveFile(repo.name().to_owned()),
            Action::RunAny(
                cat(cat("find ".to_owned(), &quote(&repo.top_dir())), " -type d -exec rmdir {} \\; > /dev/null 2>&1"),
            ),
            Action::UpdateCatalog(login.clone()),
        ];
        assert(steps(plan@) =~= revoke_steps(self@, repo@));
        plan
    }

    /// Marks this user as a maintainer of `repo`.
    pub fn maintainer_set(&self, repo: &Repository, repo_present: bool) -> (r: Result<Vec<Action>, ErrorKind>)
        ensures
            !repo_present ==> not_found(r),
            repo_present ==> planned(
                r,
                seq![Step::Run(id_command(self@))] + set_steps(repo@, maintainer_key(self@), "true"@),
            ),
    {
        let more = repo.set(repo_present, &maintainer_key_string(&self.login), "true")?;
        let mut plan = vec![self.must_exist()];
        assert(steps(plan@) =~= seq![Step::Run(id_command(self@))]);
        crate::action::append_plan(&mut plan, more);
        Ok(plan)
    }

    /// Removes the maintainer mark of this user in `repo`.
    pub fn maintainer_unset(&self, repo: &Repository, repo_present: bool) -> (r: Result<Vec<Action>, ErrorKind>)
        ensures
            !repo_present ==> not_found(r),
            repo_present ==> planned(r, unset_steps(repo@, maintainer_key(self@))),
    {
        repo.unset(repo_present, &maintainer_key_string(&self.login))
    }
}

impl User {
    /// The query whose output `repos` reads: the account's groups.
    pub fn repos_query(&self) -> (r: Vec<Action>)
        ensures
            steps(r@) == seq![Step::Run(id_command(self@)), Step::Run("groups "@ + quoted(self@))],
    {
        let plan = vec![self.must_exist(), Action::Run(cat("groups ".to_owned(), &quote(&self.login)))];
        assert(steps(plan@) =~= seq![Step::Run(id_command(self@)), Step::Run("groups "@ + quoted(self@))]);
        plan
    }

    /// The repositories this user can use, sorted by name, from the output
    /// `out` that `repos_query` yields; a validation error where a group
    /// with the repository prefix names no valid repository.
    pub fn repos(&self, out: &str) -> (r: Result<Vec<Repository>, ErrorKind>)
        ensures
            r is Ok <==> all_valid(user_repo_names(out@)),
            r matches Ok(v) ==> lex_sorted(repo_views(v@)) && repo_views(v@).to_multiset()
                == user_repo_names(out@).to_multiset(),
            r matches Err(e) ==> e is Validation,
    {
        sorted_repositories(user_repo_names_of(out))
    }
}

/// `ls` joined with line feeds.
fn join_with_newlines(ls: &Vec<String>) -> (r: String)
    ensures
        r@ == join_lines(views(ls@)),
{
    let mut acc = String::new();
    let mut i: usize = 0;
    while i < ls.len()
        invariant
            i <= ls.len(),
            acc@ == join_lines(views(ls@.subrange(0, i as int))),
        decreases ls.len() - i,
    {
        let ghost prev = views(ls@.subrange(0, i as int));
        assert(views(ls@.subrange(0, i + 1)).drop_last() =~= prev);
        assert(views(ls@.subrange(0, i + 1)).last() == ls@[i as int]@);
        if i == 0 {
            acc = ls[i].clone();
            assert(views(ls@.subrange(0, 1)) =~= seq![ls@[0]@]);
        } else {
            acc = cat(cat(acc, "\n"), &ls[i]);
        }
        i += 1;
    }
    assert(ls@.subrange(0, ls.len() as int) =~= ls@);
    acc
}

/// The catalog made from the template text `template` and the repositories
/// `entries`, each with its description.
pub fn catalog_text(template: &str, entries: &Vec<(Repository, Option<String>)>) -> (r: String)
    ensures
        r@ == catalog(template@, entry_views(entries@)),
{
    let ls = lines_of(&chars_of(template));
    let prefix = chars_of("repo.");
    let mut out: Vec<String> = Vec::new();
    let mut i: usize = 0;
    while i < ls.len()
        invariant
            i <= ls.len(),
            prefix@ == "repo."@,
            char_views(ls@) == lines(template@),
            views(out@) == kept_lines(char_views(ls@.subrange(0, i as int))),
        decreases ls.len() - i,
    {
        let ghost prev = char_views(ls@.subrange(0, i as int));
        assert(char_views(ls@.subrange(0, i + 1)).drop_last() =~= prev);
        assert(char_views(ls@.subrange(0, i + 1)).last() == ls@[i as int]@);
        if !has_prefix(&ls[i], &prefix) {
            let ghost before = views(out@);
            out.push(string_of(ls[i].as_slice()));
            assert(views(out@) =~= before.push(ls@[i as int]@));
        }
        i += 1;
    }
    assert(ls@.subrange(0, ls.len() as int) =~= ls@);
    let ghost kept = views(out@);
    let mut j: usize = 0;
    while j < entries.len()
        invariant
            j <= entries.len(),
            views(out@) == kept + blocks(entry_views(entries@.subrange(0, j as int))),
        decreases entries.len() - j,
    {
        let ghost prev = entry_views(entries@.subrange(0, j as int));
        assert(entry_views(entries@.subrange(0, j + 1)).drop_last() =~= prev);
        let (repo, desc) = &entries[j];
        let ghost before = views(out@);
        out.push(cat("repo.url=".to_owned(), repo.name()));
        out.push(cat("repo.path=".to_owned(), repo.path()));
        match desc {
            Some(d) => {
                out.push(cat("repo.desc=".to_owned(), d));
            },
            None => {},
        }
        assert(views(out@) =~= before + entry_lines((repo@, opt_view(*desc))));
        j += 1;
    }
    assert(entries@.subrange(0, entries.len() as int) =~= entries@);
    let ghost body = views(out@);
    out.push(String::new());
    assert(views(out@) =~= body.push(Seq::<char>::empty()));
    assert(char_views(ls@) == lines(template@));
    assert(kept == kept_lines(lines(template@)));
    assert(views(out@) =~= kept_lines(lines(template@)) + blocks(entry_views(entries@)) + seq![
        Seq::<char>::empty(),
    ]);
    join_with_newlines(&out)
}

impl User {
    /// Regenerates the catalog from the template text `template` and the
    /// repositories `entries` that this user can use, with their descriptions.
    pub fn update_cgit(&self, template: &str, entries: &Vec<(Repository, Option<String>)>) -> (r: Vec<Action>)
        ensures
            steps(r@) == seq![Step::WriteFile(catalog_path_of(self@), catalog(template@, entry_views(entries@)))],
    {
        let plan = vec![Action::WriteFile(self.catalog_path(), catalog_text(template, entries))];
        assert(steps(plan@) =~= seq![
            Step::WriteFile(catalog_path_of(self@), catalog(template@, entry_views(entries@))),
        ]);
        plan
    }
}

impl User {
    /// The query whose output `list_all` reads: the accounts whose login
    /// shell is the hosting shell.
    pub fn list_query() -> (r: Vec<Action>)
        ensures
            steps(r@) == seq![Step::RunAny("grep /git-shell$ /etc/passwd"@)],
    {
        let plan = vec![Action::RunAny("grep /git-shell$ /etc/passwd".to_owned())];
        assert(steps(plan@) =~= seq![Step::RunAny("grep /git-shell$ /etc/passwd"@)]);
        plan
    }

    /// The hosted accounts with their display names, sorted by login, from
    /// the account lines `out` that `list_query` yields.
    pub fn list_all(out: &str) -> (r: Vec<(User, String)>)
        ensures
            forall|i: int, j: int| 0 <= i < j < r@.len() ==> lex_le(#[trigger] r@[i].0@, #[trigger] r@[j].0@),
            r@.map_values(|p: (User, String)| (p.0@, p.1@)).to_multiset() == accounts(out@).to_multiset(),
    {
        let mut found = accounts_of(out);
        sort_pairs(&mut found);
        let ghost pv = pair_views(found@);
        let mut res: Vec<(User, String)> = Vec::new();
        let mut i: usize = 0;
        while i < found.len()
            invariant
                i <= found.len(),
                pv == pair_views(found@),
                forall|a: int, b: int| 0 <= a < b < found@.len() ==> lex_le(#[trigger] found@[a].0@, #[trigger] found@[b].0@),
                res@.map_values(|p: (User, String)| (p.0@, p.1@)) == pv.subrange(0, i as int),
            decreases found.len() - i,
        {
            let ghost prev = res@.map_values(|p: (User, String)| (p.0@, p.1@));
            let (login, name) = &found[i];
            res.push((User::parse(login), name.clone()));
            assert(res@.map_values(|p: (User, String)| (p.0@, p.1@)) =~= prev.push(pv[i as int]));
            assert(pv.subrange(0, i + 1) =~= pv.subrange(0, i as int).push(pv[i as int]));
            i += 1;
        }
        assert(pv.subrange(0, pv.len() as int) =~= pv);
        assert forall|a: int, b: int| 0 <= a < b < res@.len() implies lex_le(#[trigger] res@[a].0@, #[trigger] res@[b].0@) by {
            assert(res@[a].0@ == pv[a].0);
            assert(res@[b].0@ == pv[b].0);
        }
        res
    }
}

} // verus!
