use vstd::prelude::*;

use configparser::ini::Ini;

use crate::error::ErrorKind;
use crate::repo::Repository;
use crate::text::{
    chars_of, has_prefix, lex_sorted, slice_of, sort_strings, starts_with, string_of, trim, trimmed,
    views,
};

verus! {

broadcast use vstd::seq_lib::group_to_multiset_ensures;

#[verifier::external_type_specification]
#[verifier::external_body]
pub struct ExIni(Ini);

/// The section names of a parsed configuration.
pub uninterp spec fn ini_sections(c: Ini) -> Set<Seq<char>>;

/// The values of a parsed configuration, by section and key; a key written
/// without a value has none.
pub uninterp spec fn ini_values(c: Ini) -> Map<(Seq<char>, Seq<char>), Seq<char>>;

/// Whether `text` parses as a case-sensitive configuration.
pub uninterp spec fn ini_text_ok(text: Seq<char>) -> bool;

/// The section names of `text` parsed as a case-sensitive configuration.
pub uninterp spec fn ini_text_sections(text: Seq<char>) -> Set<Seq<char>>;

/// The values of `text` parsed as a case-sensitive configuration, by section
/// and key.
pub uninterp spec fn ini_text_values(text: Seq<char>) -> Map<(Seq<char>, Seq<char>), Seq<char>>;

/// Relies on `Ini::new_cs` and `Ini::read`: `text` parsed into a fresh
/// configuration whose section names and keys keep their case, or the
/// parser's message. With these settings the outcome depends on the text
/// alone.
#[verifier::external_body]
fn ini_parse_cs(text: String) -> (r: Result<Ini, String>)
    ensures
        r is Ok <==> ini_text_ok(text@),
        r matches Ok(c) ==> ini_sections(c) == ini_text_sections(text@) && ini_values(c)
            == ini_text_values(text@),
{
    let mut c = Ini::new_cs();
    match c.read(text) {
        Ok(_) => Ok(c),
        Err(e) => Err(e),
    }
}

/// Relies on `Ini::sections`: the keys of the section map, each once.
#[verifier::external_body]
fn ini_section_names(c: &Ini) -> (r: Vec<String>)
    ensures
        views(r@).to_set() == ini_sections(*c),
        views(r@).no_duplicates(),
{
    c.sections()
}

/// Relies on `Ini::get` of a case-sensitive configuration without default
/// cascading: the value stored under `section` and `key`, if any.
#[verifier::external_body]
fn ini_get(c: &Ini, section: &str, key: &str) -> (r: Option<String>)
    ensures
        match r {
            Some(v) => ini_values(*c).contains_key((section@, key@)) && ini_values(*c)[(section@, key@)] == v@,
            None => !ini_values(*c).contains_key((section@, key@)),
        },
{
    c.get(section, key)
}

/// The index of the first `c` in `s`, or its length where there is none.
pub open spec fn index_of(s: Seq<char>, c: char) -> int
    decreases s.len(),
{
    if s.len() == 0 {
        0
    } else if s[0] == c {
        0
    } else {
        1 + index_of(s.drop_first(), c)
    }
}

pub proof fn lemma_index_of(s: Seq<char>, c: char)
    ensures
        0 <= index_of(s, c) <= s.len(),
        index_of(s, c) < s.len() ==> s[index_of(s, c)] == c,
        forall|i: int| 0 <= i < index_of(s, c) ==> s[i] != c,
    decreases s.len(),
{
    if s.len() > 0 && s[0] != c {
        lemma_index_of(s.drop_first(), c);
        assert forall|i: int| 0 <= i < index_of(s, c) implies s[i] != c by {
            if i > 0 {
                assert(s[i] == s.drop_first()[i - 1]);
            }
        }
    }
}

/// The entity that metadata section `s` configures under `kind`: the section
/// `hooks "<kind>.<id>"` configures `<id>`.
pub open spec fn hook_target(s: Seq<char>, kind: Seq<char>) -> Option<Seq<char>> {
    if starts_with(s, "hooks"@) {
        let name = trim(s.subrange(5, s.len() as int));
        if name.len() > 2 {
            let sn = name.subrange(1, name.len() - 1);
            let k = index_of(sn, '.');
            if sn.subrange(0, k) == kind && k < sn.len() {
                Some(sn.subrange(k + 1, sn.len() as int))
            } else {
                None
            }
        } else {
            None
        }
    } else {
        None
    }
}

/// Whether section `s` of `c` marks `id` with `field = true` under `kind`.
pub open spec fn flagged(c: Ini, s: Seq<char>, kind: Seq<char>, field: Seq<char>, id: Seq<char>) -> bool {
    &&& hook_target(s, kind) == Some(id)
    &&& ini_values(c).contains_key((s, field))
    &&& ini_values(c)[(s, field)] == "true"@
}

/// The entities marked with `field = true` under `kind` in `c`.
pub open spec fn flagged_ids(c: Ini, kind: Seq<char>, field: Seq<char>, id: Seq<char>) -> bool {
    exists|s: Seq<char>| ini_sections(c).contains(s) && flagged(c, s, kind, field, id)
}

fn index_in(s: &Vec<char>, c: char) -> (r: usize)
    ensures
        r == index_of(s@, c),
        r <= s.len(),
{
    proof {
        lemma_index_of(s@, c);
    }
    let mut i: usize = 0;
    assert(s@.subrange(0, s.len() as int) =~= s@);
    while i < s.len() && s[i] != c
        invariant
            i <= s.len(),
            index_of(s@, c) == i + index_of(s@.subrange(i as int, s.len() as int), c),
        decreases s.len() - i,
    {
        assert(s@.subrange(i as int, s.len() as int).drop_first() =~= s@.subrange(i + 1, s.len() as int));
        i += 1;
    }
    if i < s.len() {
        assert(s@.subrange(i as int, s.len() as int)[0] == c);
    } else {
        assert(s@.subrange(i as int, s.len() as int).len() == 0);
    }
    i
}

/// The entity that metadata section `s` configures under `kind`.
pub fn hook_target_of(s: &str, kind: &str) -> (r: Option<String>)
    ensures
        match hook_target(s@, kind@) {
            Some(id) => r matches Some(v) && v@ == id,
            None => r is None,
        },
{
    let sc = chars_of(s);
    let hooks = chars_of("hooks");
    if !has_prefix(&sc, &hooks) {
        return None;
    }
    proof {
        reveal_strlit("hooks");
    }
    let name = trimmed(&slice_of(&sc, 5, sc.len()));
    if name.len() <= 2 {
        return None;
    }
    let sn = slice_of(&name, 1, name.len() - 1);
    let k = index_in(&sn, '.');
    let head = slice_of(&sn, 0, k);
    let kc = chars_of(kind);
    let same = head.len() == kc.len() && has_prefix(&head, &kc);
    proof {
        if head.len() == kc.len() {
            assert(head@.subrange(0, kc@.len() as int) =~= head@);
        }
    }
    if same && k < sn.len() {
        Some(string_of(slice_of(&sn, k + 1, sn.len()).as_slice()))
    } else {
        None
    }
}

fn is_true_text(v: &str) -> (r: bool)
    ensures
        r == (v@ == "true"@),
{
    let vc = chars_of(v);
    let tc = vec!['t', 'r', 'u', 'e'];
    proof {
        assert(tc@ =~= "true"@) by {
            reveal_strlit("true");
        }
    }
    if vc.len() != 4 {
        return false;
    }
    let r = has_prefix(&vc, &tc);
    assert(vc@.subrange(0, 4) =~= vc@);
    r
}

/// The entities marked with `field = true` under `kind`, sorted.
pub fn flagged_list(c: &Ini, kind: &str, field: &str) -> (r: Vec<String>)
    ensures
        lex_sorted(views(r@)),
        forall|id: Seq<char>| views(r@).contains(id) <==> flagged_ids(*c, kind@, field@, id),
{
    let secs = ini_section_names(c);
    let ghost sv = views(secs@);
    let mut acc: Vec<String> = Vec::new();
    let mut i: usize = 0;
    while i < secs.len()
        invariant
            i <= secs.len(),
            sv == views(secs@),
            forall|id: Seq<char>|
                views(acc@).contains(id) <==> exists|j: int|
                    0 <= j < i && flagged(*c, #[trigger] sv[j], kind@, field@, id),
        decreases secs.len() - i,
    {
        let ghost prev = views(acc@);
        let ghost s = sv[i as int];
        match hook_target_of(&secs[i], kind) {
            Some(id) => {
                let yes = match ini_get(c, &secs[i], field) {
                    Some(v) => is_true_text(&v),
                    None => false,
                };
                if yes {
                    let ghost idv = id@;
                    acc.push(id);
                    assert(views(acc@) =~= prev.push(idv));
                    assert forall|x: Seq<char>|
                        views(acc@).contains(x) <==> exists|j: int|
                            0 <= j < i + 1 && flagged(*c, #[trigger] sv[j], kind@, field@, x) by {
                        if views(acc@).contains(x) && x != idv {
                            assert(prev.contains(x));
                        }
                        if x == idv {
                            assert(flagged(*c, sv[i as int], kind@, field@, x));
                            assert(views(acc@)[prev.len() as int] == x);
                        }
                        if exists|j: int| 0 <= j < i + 1 && flagged(*c, #[trigger] sv[j], kind@, field@, x) {
                            let j = choose|j: int| 0 <= j < i + 1 && flagged(*c, #[trigger] sv[j], kind@, field@, x);
                            if j < i {
                                assert(prev.contains(x));
                                let k = choose|k: int| 0 <= k < prev.len() && prev[k] == x;
                                assert(views(acc@)[k] == x);
                            }
                        }
                    }
                } else {
                    assert forall|x: Seq<char>|
                        views(acc@).contains(x) <==> exists|j: int|
                            0 <= j < i + 1 && flagged(*c, #[trigger] sv[j], kind@, field@, x) by {
                        if exists|j: int| 0 <= j < i + 1 && flagged(*c, #[trigger] sv[j], kind@, field@, x) {
                            let j = choose|j: int| 0 <= j < i + 1 && flagged(*c, #[trigger] sv[j], kind@, field@, x);
                            assert(j != i);
                        }
                    }
                }
            },
            None => {
                assert forall|x: Seq<char>|
                    views(acc@).contains(x) <==> exists|j: int|
                        0 <= j < i + 1 && flagged(*c, #[trigger] sv[j], kind@, field@, x) by {
                    if exists|j: int| 0 <= j < i + 1 && flagged(*c, #[trigger] sv[j], kind@, field@, x) {
                        let j = choose|j: int| 0 <= j < i + 1 && flagged(*c, #[trigger] sv[j], kind@, field@, x);
                        assert(j != i);
                    }
                }
            },
        }
        i += 1;
    }
    let ghost unsorted = views(acc@);
    sort_strings(&mut acc);
    assert forall|id: Seq<char>| views(acc@).contains(id) <==> flagged_ids(*c, kind@, field@, id) by {
        assert(views(acc@).contains(id) <==> views(acc@).to_multiset().count(id) > 0);
        assert(unsorted.contains(id) <==> unsorted.to_multiset().count(id) > 0);
        if unsorted.contains(id) {
            let j = choose|j: int| 0 <= j < sv.len() && flagged(*c, #[trigger] sv[j], kind@, field@, id);
            assert(sv.to_set().contains(sv[j]));
        }
        if flagged_ids(*c, kind@, field@, id) {
            let s = choose|s: Seq<char>| ini_sections(*c).contains(s) && flagged(*c, s, kind@, field@, id);
            assert(sv.to_set().contains(s));
            let j = choose|j: int| 0 <= j < sv.len() && sv[j] == s;
            assert(flagged(*c, sv[j], kind@, field@, id));
        }
    }
    acc
}

impl Repository {
    /// Parses the text of the metadata store; section names and keys keep
    /// their case.
    pub fn load_config(text: String) -> (r: Result<Ini, ErrorKind>)
        ensures
            r is Ok <==> ini_text_ok(text@),
            r matches Ok(c) ==> ini_sections(c) == ini_text_sections(text@) && ini_values(c)
                == ini_text_values(text@),
            r matches Err(e) ==> e is Validation,
    {
        match ini_parse_cs(text) {
            Ok(c) => Ok(c),
            Err(msg) => Err(ErrorKind::Validation(msg)),
        }
    }

    /// The branches that the metadata store `c` marks as protected, sorted.
    pub fn protected_branches(c: &Ini) -> (r: Vec<String>)
        ensures
            lex_sorted(views(r@)),
            forall|b: Seq<char>| views(r@).contains(b) <==> flagged_ids(*c, "branch"@, "protected"@, b),
    {
        flagged_list(c, "branch", "protected")
    }

    /// The logins that the metadata store `c` marks as maintainers, sorted.
    pub fn maintainers(c: &Ini) -> (r: Vec<String>)
        ensures
            lex_sorted(views(r@)),
            forall|l: Seq<char>| views(r@).contains(l) <==> flagged_ids(*c, "user"@, "maintainer"@, l),
    {
        flagged_list(c, "user", "maintainer")
    }
}

} // verus!
