use vstd::prelude::*;

use crate::error::ErrorKind;
use crate::repo::{valid_name, Repository};
use crate::text::{
    char_views, chars_of, ends_with, has_prefix, has_suffix, lex_le, lex_sorted, lines, lines_of, slice_of,
    sort_strings, split, split_on, starts_with, string_of, trim, trimmed, views,
};

verus! {

broadcast use vstd::seq_lib::group_to_multiset_ensures;

/// The non-empty pieces of `ps`, in order.
pub open spec fn nonempty(ps: Seq<Seq<char>>) -> Seq<Seq<char>>
    decreases ps.len(),
{
    if ps.len() == 0 {
        seq![]
    } else {
        let r = nonempty(ps.drop_last());
        if ps.last().len() > 0 {
            r.push(ps.last())
        } else {
            r
        }
    }
}

/// The members listed in one group-database line `name:x:gid:a,b,c`.
pub open spec fn line_members(line: Seq<char>) -> Seq<Seq<char>> {
    let f = split(line, ':');
    if f.len() > 3 {
        nonempty(split(f[3], ','))
    } else {
        seq![]
    }
}

pub open spec fn members_of_lines(ls: Seq<Seq<char>>) -> Seq<Seq<char>>
    decreases ls.len(),
{
    if ls.len() == 0 {
        seq![]
    } else {
        members_of_lines(ls.drop_last()) + line_members(ls.last())
    }
}

/// The members listed in the group-database lines `out`.
pub open spec fn group_members(out: Seq<char>) -> Seq<Seq<char>> {
    members_of_lines(lines(out))
}

/// A line of a branch listing without the current-branch marker.
pub open spec fn strip_star(l: Seq<char>) -> Seq<char> {
    if l.len() > 0 && l[0] == '*' {
        l.drop_first()
    } else {
        l
    }
}

/// The branch names of a branch listing.
pub open spec fn branch_names(out: Seq<char>) -> Seq<Seq<char>> {
    lines(out).map_values(|l: Seq<char>| trim(strip_star(l)))
}

/// The group names after the colon of a `login : g1 g2` line.
pub open spec fn group_field(out: Seq<char>) -> Seq<Seq<char>> {
    let f = split(out, ':');
    if f.len() > 1 {
        split(f[1], ' ')
    } else {
        seq![]
    }
}

/// The repositories that the groups `gs` stand for: each trimmed group name
/// that starts with the repository-group prefix, without the prefix.
pub open spec fn repo_names_of(gs: Seq<Seq<char>>) -> Seq<Seq<char>>
    decreases gs.len(),
{
    if gs.len() == 0 {
        seq![]
    } else {
        let r = repo_names_of(gs.drop_last());
        let g = trim(gs.last());
        if starts_with(g, "g_"@) {
            r.push(g.subrange(2, g.len() as int))
        } else {
            r
        }
    }
}

/// The repositories of a user, from the output `out` of `groups`.
pub open spec fn user_repo_names(out: Seq<char>) -> Seq<Seq<char>> {
    repo_names_of(group_field(out))
}

/// The repository names in the lines of a directory search under the
/// repository root: `./<name>.git`.
pub open spec fn listed_names(ls: Seq<Seq<char>>) -> Seq<Seq<char>>
    decreases ls.len(),
{
    if ls.len() == 0 {
        seq![]
    } else {
        let r = listed_names(ls.drop_last());
        let l = ls.last();
        if starts_with(l, "./"@) && ends_with(l.subrange(2, l.len() as int), ".git"@) {
            r.push(l.subrange(2, l.len() - 4))
        } else {
            r
        }
    }
}

pub open spec fn all_valid(names: Seq<Seq<char>>) -> bool {
    forall|i: int| 0 <= i < names.len() ==> valid_name(#[trigger] names[i])
}

pub open spec fn repo_views(v: Seq<Repository>) -> Seq<Seq<char>> {
    v.map_values(|r: Repository| r@)
}

/// Appends the non-empty pieces of `ps` to `acc`.
fn push_nonempty(ps: &Vec<Vec<char>>, acc: &mut Vec<String>)
    ensures
        views(final(acc)@) == views(old(acc)@) + nonempty(char_views(ps@)),
{
    let ghost start = views(acc@);
    let mut i: usize = 0;
    while i < ps.len()
        invariant
            i <= ps.len(),
            views(acc@) == start + nonempty(char_views(ps@.subrange(0, i as int))),
        decreases ps.len() - i,
    {
        let ghost before = char_views(ps@.subrange(0, i as int));
        assert(char_views(ps@.subrange(0, i + 1)).drop_last() =~= before);
        assert(char_views(ps@.subrange(0, i + 1)).last() == ps@[i as int]@);
        let ghost prev = views(acc@);
        if ps[i].len() > 0 {
            let s = string_of(ps[i].as_slice());
            acc.push(s);
            assert(views(acc@) =~= prev.push(ps@[i as int]@));
        }
        i += 1;
        assert(views(acc@) =~= start + nonempty(char_views(ps@.subrange(0, i as int))));
    }
    assert(ps@.subrange(0, ps.len() as int) =~= ps@);
}

/// The members listed in the group-database lines `out`, in order.
pub fn group_members_of(out: &str) -> (r: Vec<String>)
    ensures
        views(r@) == group_members(out@),
{
    let ls = lines_of(&chars_of(out));
    let mut acc: Vec<String> = Vec::new();
    let mut i: usize = 0;
    while i < ls.len()
        invariant
            i <= ls.len(),
            char_views(ls@) == lines(out@),
            views(acc@) == members_of_lines(char_views(ls@.subrange(0, i as int))),
        decreases ls.len() - i,
    {
        let ghost before = char_views(ls@.subrange(0, i as int));
        assert(char_views(ls@.subrange(0, i + 1)).drop_last() =~= before);
        assert(char_views(ls@.subrange(0, i + 1)).last() == ls@[i as int]@);
        let f = split_on(&ls[i], ':');
        if f.len() > 3 {
            assert(char_views(f@)[3] == f@[3]@);
            push_nonempty(&split_on(&f[3], ','), &mut acc);
        }
        i += 1;
    }
    assert(ls@.subrange(0, ls.len() as int) =~= ls@);
    acc
}

/// The branch names of a branch listing `out`, in order.
pub fn branch_names_of(out: &str) -> (r: Vec<String>)
    ensures
        views(r@) == branch_names(out@),
{
    let ls = lines_of(&chars_of(out));
    let mut acc: Vec<String> = Vec::new();
    let mut i: usize = 0;
    while i < ls.len()
        invariant
            i <= ls.len(),
            char_views(ls@) == lines(out@),
            views(acc@) == char_views(ls@.subrange(0, i as int)).map_values(
                |l: Seq<char>| trim(strip_star(l)),
            ),
        decreases ls.len() - i,
    {
        let l = &ls[i];
        let stripped = if l.len() > 0 && l[0] == '*' {
            slice_of(l, 1, l.len())
        } else {
            slice_of(l, 0, l.len())
        };
        assert(l@.subrange(0, l.len() as int) =~= l@);
        assert(l@.len() > 0 ==> l@.drop_first() =~= l@.subrange(1, l.len() as int));
        let ghost prev = views(acc@);
        let t = string_of(trimmed(&stripped).as_slice());
        assert(t@ == trim(strip_star(l@)));
        acc.push(t);
        assert(views(acc@) =~= prev.push(trim(strip_star(l@))));
        assert(char_views(ls@.subrange(0, i + 1)) =~= char_views(ls@.subrange(0, i as int)).push(l@));
        i += 1;
        assert(views(acc@) =~= char_views(ls@.subrange(0, i as int)).map_values(
            |l: Seq<char>| trim(strip_star(l)),
        ));
    }
    assert(ls@.subrange(0, ls.len() as int) =~= ls@);
    assert(char_views(ls@) =~= lines(out@));
    acc
}

/// The repository names that the output `out` of `groups` lists, in order.
pub fn user_repo_names_of(out: &str) -> (r: Vec<String>)
    ensures
        views(r@) == user_repo_names(out@),
{
    let f = split_on(&chars_of(out), ':');
    let mut acc: Vec<String> = Vec::new();
    if f.len() <= 1 {
        return acc;
    }
    let gs = split_on(&f[1], ' ');
    assert(char_views(f@)[1] == f@[1]@);
    let prefix = vec!['g', '_'];
    proof {
        assert(prefix@ =~= "g_"@) by {
            reveal_strlit("g_");
        }
    }
    let mut i: usize = 0;
    while i < gs.len()
        invariant
            i <= gs.len(),
            prefix@ == "g_"@,
            prefix.len() == 2,
            char_views(gs@) == group_field(out@),
            views(acc@) == repo_names_of(char_views(gs@.subrange(0, i as int))),
        decreases gs.len() - i,
    {
        let ghost before = char_views(gs@.subrange(0, i as int));
        assert(char_views(gs@.subrange(0, i + 1)).drop_last() =~= before);
        assert(char_views(gs@.subrange(0, i + 1)).last() == gs@[i as int]@);
        let g = trimmed(&gs[i]);
        if has_prefix(&g, &prefix) {
            acc.push(string_of(slice_of(&g, 2, g.len()).as_slice()));
        }
        i += 1;
    }
    assert(gs@.subrange(0, gs.len() as int) =~= gs@);
    acc
}

/// The repository names in a directory search under the repository root.
pub fn listed_names_of(out: &str) -> (r: Vec<String>)
    ensures
        views(r@) == listed_names(lines(out@)),
{
    let ls = lines_of(&chars_of(out));
    let dot = vec!['.', '/'];
    let suffix = vec!['.', 'g', 'i', 't'];
    proof {
        assert(dot@ =~= "./"@) by {
            reveal_strlit("./");
        }
        assert(suffix@ =~= ".git"@) by {
            reveal_strlit(".git");
        }
    }
    let mut acc: Vec<String> = Vec::new();
    let mut i: usize = 0;
    while i < ls.len()
        invariant
            i <= ls.len(),
            dot@ == "./"@,
            suffix@ == ".git"@,
            dot.len() == 2,
            suffix.len() == 4,
            char_views(ls@) == lines(out@),
            views(acc@) == listed_names(char_views(ls@.subrange(0, i as int))),
        decreases ls.len() - i,
    {
        let ghost before = char_views(ls@.subrange(0, i as int));
        assert(char_views(ls@.subrange(0, i + 1)).drop_last() =~= before);
        assert(char_views(ls@.subrange(0, i + 1)).last() == ls@[i as int]@);
        let l = &ls[i];
        if has_prefix(l, &dot) {
            let rest = slice_of(l, 2, l.len());
            if has_suffix(&rest, &suffix) {
                acc.push(string_of(slice_of(l, 2, l.len() - 4).as_slice()));
            }
        }
        i += 1;
    }
    assert(ls@.subrange(0, ls.len() as int) =~= ls@);
    acc
}

/// The repositories named by `names`, sorted by name; a validation error for
/// the first name, in the order given, that breaks a rule.
pub fn sorted_repositories(names: Vec<String>) -> (r: Result<Vec<Repository>, ErrorKind>)
    ensures
        r is Ok <==> all_valid(views(names@)),
        r matches Ok(v) ==> lex_sorted(repo_views(v@)) && repo_views(v@).to_multiset() == views(
            names@,
        ).to_multiset(),
        r matches Err(e) ==> e is Validation,
{
    let mut i: usize = 0;
    while i < names.len()
        invariant
            i <= names.len(),
            forall|k: int| 0 <= k < i ==> valid_name(#[trigger] views(names@)[k]),
        decreases names.len() - i,
    {
        match Repository::parse(&names[i]) {
            Ok(_) => {},
            Err(e) => {
                assert(!valid_name(views(names@)[i as int]));
                return Err(e);
            },
        }
        i += 1;
    }
    let ghost orig = views(names@);
    let mut sorted = names;
    sort_strings(&mut sorted);
    let ghost sv = views(sorted@);
    assert forall|k: int| 0 <= k < sv.len() implies valid_name(#[trigger] sv[k]) by {
        assert(sv.to_multiset().count(sv[k]) > 0);
        assert(orig.contains(sv[k]));
    }
    let mut out: Vec<Repository> = Vec::new();
    let mut j: usize = 0;
    while j < sorted.len()
        invariant
            j <= sorted.len(),
            sv == views(sorted@),
            forall|k: int| 0 <= k < sv.len() ==> valid_name(#[trigger] sv[k]),
            repo_views(out@) == sv.subrange(0, j as int),
        decreases sorted.len() - j,
    {
        assert(valid_name(sv[j as int]));
        let ghost prev = repo_views(out@);
        match Repository::parse(&sorted[j]) {
            Ok(repo) => {
                assert(repo@ == sv[j as int]);
                out.push(repo);
                assert(repo_views(out@) =~= prev.push(sv[j as int]));
                assert(sv.subrange(0, j + 1) =~= sv.subrange(0, j as int).push(sv[j as int]));
            },
            Err(e) => {
                return Err(e);
            },
        }
        j += 1;
        assert(repo_views(out@) =~= sv.subrange(0, j as int));
    }
    assert(sv.subrange(0, sv.len() as int) =~= sv);
    Ok(out)
}

/// The login and the display name in one account-database line
/// `login:x:uid:gid:Name,room,...:home:shell`, where it has the fields.
pub open spec fn account_of(line: Seq<char>) -> Option<(Seq<char>, Seq<char>)> {
    let f = split(line, ':');
    if f.len() > 4 {
        Some((f[0], split(f[4], ',')[0]))
    } else {
        None
    }
}

pub open spec fn accounts_of_lines(ls: Seq<Seq<char>>) -> Seq<(Seq<char>, Seq<char>)>
    decreases ls.len(),
{
    if ls.len() == 0 {
        seq![]
    } else {
        let r = accounts_of_lines(ls.drop_last());
        match account_of(ls.last()) {
            Some(a) => r.push(a),
            None => r,
        }
    }
}

/// The accounts, login and display name, in the account-database lines `out`.
pub open spec fn accounts(out: Seq<char>) -> Seq<(Seq<char>, Seq<char>)> {
    accounts_of_lines(lines(out))
}

pub open spec fn pair_views(v: Seq<(String, String)>) -> Seq<(Seq<char>, Seq<char>)> {
    v.map_values(|p: (String, String)| (p.0@, p.1@))
}

/// Relies on `slice::sort` on pairs of strings: the same pairs, in ascending
/// order of the first string (pairs order by their first component first).
#[verifier::external_body]
pub(crate) fn sort_pairs(v: &mut Vec<(String, String)>)
    ensures
        pair_views(final(v)@).to_multiset() == pair_views(old(v)@).to_multiset(),
        forall|i: int, j: int|
            0 <= i < j < final(v)@.len() ==> lex_le(#[trigger] final(v)@[i].0@, #[trigger] final(v)@[j].0@),
{
    v.sort();
}

/// The accounts, login and display name, in the lines `out`, in order.
pub fn accounts_of(out: &str) -> (r: Vec<(String, String)>)
    ensures
        pair_views(r@) == accounts(out@),
{
    let ls = lines_of(&chars_of(out));
    let mut acc: Vec<(String, String)> = Vec::new();
    let mut i: usize = 0;
    while i < ls.len()
        invariant
            i <= ls.len(),
            char_views(ls@) == lines(out@),
            pair_views(acc@) == accounts_of_lines(char_views(ls@.subrange(0, i as int))),
        decreases ls.len() - i,
    {
        let ghost before = char_views(ls@.subrange(0, i as int));
        assert(char_views(ls@.subrange(0, i + 1)).drop_last() =~= before);
        assert(char_views(ls@.subrange(0, i + 1)).last() == ls@[i as int]@);
        let f = split_on(&ls[i], ':');
        if f.len() > 4 {
            let name = split_on(&f[4], ',');
            proof {
                crate::text::lemma_split_nonempty(f@[4]@, ',');
            }
            assert(char_views(f@)[4] == f@[4]@);
            assert(char_views(f@)[0] == f@[0]@);
            assert(char_views(name@)[0] == name@[0]@);
            let ghost prev = pair_views(acc@);
            acc.push((string_of(f[0].as_slice()), string_of(name[0].as_slice())));
            assert(pair_views(acc@) =~= prev.push((f@[0]@, name@[0]@)));
        }
        i += 1;
    }
    assert(ls@.subrange(0, ls.len() as int) =~= ls@);
    acc
}

} // verus!
