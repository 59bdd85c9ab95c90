use vstd::prelude::*;

use crate::action::Step;
use crate::info::{hook_target, index_of};
use crate::repo::{
    after_last_slash, create_steps, destroy_steps, group_of, path_of, revokes, description_of, description_text, first_slash,
    init_steps, lemma_slash_bounds, nested, parent_dir_of, short_name_of, valid_name,
};
use crate::saga::{next_stage, stages_after, RenameStage};
use crate::text::{starts_with, trim, trim_end, trim_start};
use crate::user::{grant_steps, home_of, quoted, revoke_steps};

verus! {

proof fn lemma_stages_len(s: RenameStage, o: Seq<bool>)
    ensures
        stages_after(s, o).len() == o.len() + 1,
        stages_after(s, o)[0] == s,
    decreases o.len(),
{
    if o.len() > 0 {
        lemma_stages_len(next_stage(s, o[0]), o.drop_first());
    }
}

proof fn lemma_unfold(s: RenameStage, o: Seq<bool>)
    requires
        o.len() > 0,
    ensures
        stages_after(s, o) == seq![s] + stages_after(next_stage(s, o[0]), o.drop_first()),
{
}

proof fn lemma_failed_stays(o: Seq<bool>)
    ensures
        forall|i: int| 0 <= i < stages_after(RenameStage::Failed, o).len() ==> stages_after(
            RenameStage::Failed,
            o,
        )[i] == RenameStage::Failed,
    decreases o.len(),
{
    lemma_stages_len(RenameStage::Failed, o);
    if o.len() > 0 {
        lemma_failed_stays(o.drop_first());
        let t = stages_after(RenameStage::Failed, o.drop_first());
        assert forall|i: int| 0 <= i < stages_after(RenameStage::Failed, o).len() implies stages_after(
            RenameStage::Failed,
            o,
        )[i] == RenameStage::Failed by {
            if i > 0 {
                assert(stages_after(RenameStage::Failed, o)[i] == t[i - 1]);
            }
        }
    }
}

proof fn lemma_done_stays(o: Seq<bool>)
    ensures
        forall|i: int| 0 <= i < stages_after(RenameStage::Done, o).len() ==> stages_after(
            RenameStage::Done,
            o,
        )[i] == RenameStage::Done,
    decreases o.len(),
{
    lemma_stages_len(RenameStage::Done, o);
    if o.len() > 0 {
        lemma_done_stays(o.drop_first());
        let t = stages_after(RenameStage::Done, o.drop_first());
        assert forall|i: int| 0 <= i < stages_after(RenameStage::Done, o).len() implies stages_after(
            RenameStage::Done,
            o,
        )[i] == RenameStage::Done by {
            if i > 0 {
                assert(stages_after(RenameStage::Done, o)[i] == t[i - 1]);
            }
        }
    }
}

/// A rename whose migration fails rolls back: after the target was created
/// and the migration failed, the target is destroyed, the rename ends as
/// failed, and the source is never destroyed.
pub proof fn rename_rollback_keeps_source(outcomes: Seq<bool>)
    requires
        outcomes.len() >= 2,
        outcomes[0],
        !outcomes[1],
    ensures
        stages_after(RenameStage::CreateTarget, outcomes)[1] == RenameStage::Migrate,
        stages_after(RenameStage::CreateTarget, outcomes)[2] == RenameStage::RollBack,
        outcomes.len() > 2 ==> stages_after(RenameStage::CreateTarget, outcomes)[3]
            == RenameStage::Failed,
        forall|i: int|
            0 <= i < stages_after(RenameStage::CreateTarget, outcomes).len() ==> #[trigger] stages_after(
                RenameStage::CreateTarget,
                outcomes,
            )[i] != RenameStage::DestroySource,
{
    let o1 = outcomes.drop_first();
    let o2 = o1.drop_first();
    let all = stages_after(RenameStage::CreateTarget, outcomes);
    lemma_unfold(RenameStage::CreateTarget, outcomes);
    lemma_unfold(RenameStage::Migrate, o1);
    if o2.len() == 0 {
        assert(all =~= seq![RenameStage::CreateTarget, RenameStage::Migrate, RenameStage::RollBack]);
    } else {
        let o3 = o2.drop_first();
        lemma_unfold(RenameStage::RollBack, o2);
        lemma_stages_len(RenameStage::Failed, o3);
        lemma_failed_stays(o3);
        let tail = stages_after(RenameStage::Failed, o3);
        assert(all =~= seq![RenameStage::CreateTarget, RenameStage::Migrate, RenameStage::RollBack] + tail);
    }
}

/// The source of a rename is destroyed only in the third stage, after the
/// target was created and the migration succeeded.
pub proof fn rename_destroys_source_after_migration(outcomes: Seq<bool>)
    ensures
        forall|i: int|
            0 <= i < stages_after(RenameStage::CreateTarget, outcomes).len() && #[trigger] stages_after(
                RenameStage::CreateTarget,
                outcomes,
            )[i] == RenameStage::DestroySource ==> i == 2 && outcomes[0] && outcomes[1],
{
    let all = stages_after(RenameStage::CreateTarget, outcomes);
    lemma_stages_len(RenameStage::CreateTarget, outcomes);
    if outcomes.len() == 0 {
        return;
    }
    let o1 = outcomes.drop_first();
    if !outcomes[0] {
        lemma_failed_stays(o1);
        lemma_stages_len(RenameStage::Failed, o1);
        assert(all =~= seq![RenameStage::CreateTarget] + stages_after(RenameStage::Failed, o1));
        return;
    }
    lemma_unfold(RenameStage::CreateTarget, outcomes);
    if o1.len() == 0 {
        assert(all =~= seq![RenameStage::CreateTarget, RenameStage::Migrate]);
        return;
    }
    let o2 = o1.drop_first();
    if !o1[0] {
        rename_rollback_keeps_source(outcomes);
        return;
    }
    lemma_stages_len(RenameStage::DestroySource, o2);
    lemma_unfold(RenameStage::Migrate, o1);
    if o2.len() == 0 {
        assert(all =~= seq![RenameStage::CreateTarget, RenameStage::Migrate, RenameStage::DestroySource]);
        return;
    }
    let o3 = o2.drop_first();
    let s3 = next_stage(RenameStage::DestroySource, o2[0]);
    lemma_failed_stays(o3);
    lemma_done_stays(o3);
    lemma_stages_len(s3, o3);
    lemma_unfold(RenameStage::DestroySource, o2);
    assert(all =~= seq![RenameStage::CreateTarget, RenameStage::Migrate, RenameStage::DestroySource]
        + stages_after(s3, o3));
}

/// Reading back a written description gives it again: the placeholder
/// written for "no description" reads as none, and a description that does
/// not start with the placeholder and has no surrounding white space reads
/// as itself.
pub proof fn description_round_trip(d: Option<Seq<char>>)
    requires
        d matches Some(s) ==> !starts_with(s, "Unnamed repository;"@) && trim(s) == s,
    ensures
        description_of(description_text(d)) == d,
{
    match d {
        Some(s) => {},
        None => {
            let t = "Unnamed repository;"@;
            assert(t.subrange(0, t.len() as int) =~= t);
        },
    }
}

/// The metadata section under which a `hooks.<kind>.<id>.<field>` key is
/// stored: `hooks "<kind>.<id>"`.
pub open spec fn hook_section(kind: Seq<char>, id: Seq<char>) -> Seq<char> {
    "hooks \""@ + kind + "."@ + id + "\""@
}

proof fn lemma_index_after(a: Seq<char>, b: Seq<char>)
    requires
        forall|i: int| 0 <= i < a.len() ==> a[i] != '.',
    ensures
        index_of(a + "."@ + b, '.') == a.len(),
    decreases a.len(),
{
    reveal_strlit(".");
    if a.len() == 0 {
        assert((a + "."@ + b)[0] == '.');
    } else {
        assert((a + "."@ + b).drop_first() =~= a.drop_first() + "."@ + b);
        lemma_index_after(a.drop_first(), b);
    }
}

/// The scan of the metadata store finds each section that a hook setting
/// is stored under: `hooks "<kind>.<id>"` configures `id` under `kind`, for
/// each kind without a dot. So a protected branch, or a maintainer, is listed.
pub proof fn hook_section_read_back(kind: Seq<char>, id: Seq<char>)
    requires
        forall|i: int| 0 <= i < kind.len() ==> kind[i] != '.',
    ensures
        hook_target(hook_section(kind, id), kind) == Some(id),
{
    reveal_strlit("hooks \"");
    reveal_strlit("hooks");
    reveal_strlit(".");
    reveal_strlit("\"");
    let s = hook_section(kind, id);
    let q = "\""@ + kind + "."@ + id + "\""@;
    assert(s.subrange(0, 5) =~= "hooks"@);
    let rest = s.subrange(5, s.len() as int);
    assert(rest.drop_first() =~= q);
    assert(rest[0] == ' ');
    assert(trim_start(q) == q);
    assert(trim_start(rest) == q);
    assert(trim_end(q) == q);
    assert(trim(rest) == q);
    let sn = q.subrange(1, q.len() - 1);
    assert(sn =~= kind + "."@ + id);
    lemma_index_after(kind, id);
    assert(sn.subrange(0, kind.len() as int) =~= kind);
    assert(sn.subrange(kind.len() + 1int, sn.len() as int) =~= id);
}

/// The link that `grant` makes, in the parent directories of the name under
/// the home directory, is the path that `revoke` removes: the name itself.
pub proof fn grant_link_is_revoked_path(n: Seq<char>)
    requires
        valid_name(n),
    ensures
        nested(n) ==> parent_dir_of(n) + "/"@ + short_name_of(n) == n,
        !nested(n) ==> short_name_of(n) == n,
{
    lemma_slash_bounds(n);
    reveal_strlit("/");
    if nested(n) {
        let a = after_last_slash(n);
        assert(n[a - 1] == '/');
        assert(parent_dir_of(n) + "/"@ + short_name_of(n) =~= n);
    } else {
        if after_last_slash(n) > 0 {
            assert(n[after_last_slash(n) - 1] == '/');
        }
        assert(short_name_of(n) =~= n);
    }
}

/// A repository created with `init_only` gets no first commit; one created
/// without gets exactly one, right after its shell.
pub proof fn create_seeds_once(n: Seq<char>, init_only: bool, d: Option<Seq<char>>)
    ensures
        forall|i: int|
            0 <= i < create_steps(n, init_only, d).len() ==> (#[trigger] create_steps(
                n,
                init_only,
                d,
            )[i] is InitialCommit <==> !init_only && i == init_steps(n).len()),
{
    let init = init_steps(n);
    assert forall|i: int| 0 <= i < init.len() implies !(#[trigger] init[i] is InitialCommit) by {}
}

/// Granting and revoking touch one access edge: `grant` adds the login to
/// the repository's group, `revoke` removes it from that same group, and the
/// link that `grant` makes is the path that `revoke` removes.
pub proof fn grant_revoke_same_edge(login: Seq<char>, n: Seq<char>)
    requires
        valid_name(n),
    ensures
        grant_steps(login, n)[1] == Step::Run("gpasswd -a "@ + quoted(login) + " "@ + quoted(group_of(n))),
        revoke_steps(login, n)[1] == Step::RunAny("gpasswd -d "@ + quoted(login) + " "@ + quoted(group_of(n))),
        grant_steps(login, n)[2] == Step::Chdir(home_of(login)),
        revoke_steps(login, n)[2] == Step::Chdir(home_of(login)),
        revoke_steps(login, n)[3] == Step::RemoveFile(n),
        nested(n) ==> parent_dir_of(n) + "/"@ + short_name_of(n) == n,
        !nested(n) ==> short_name_of(n) == n,
{
    grant_link_is_revoked_path(n);
}

/// The directory that `create` makes first is the one whose presence every
/// operation probes, and `destroy` removes it once every access is withdrawn.
pub proof fn create_and_destroy_same_directory(n: Seq<char>, init_only: bool, d: Option<Seq<char>>, users: Seq<Seq<char>>)
    ensures
        create_steps(n, init_only, d)[0] == Step::CreateDirAll(path_of(n)),
        destroy_steps(n, users)[revokes(users, n).len() + 1int] == Step::RemoveDirAll(path_of(n)),
{
}

} // verus!
