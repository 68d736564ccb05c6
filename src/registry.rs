use vstd::prelude::*;
use crate::json::{Json, Field, field_of, members, get_field};
use crate::scope::{GLOBAL_WINDOWS_ID, GLOBAL_WSL_ID};
use crate::text::str_eq;

verus! {

/// Lexicographic order on strings, by code point.
pub open spec fn lex_lt(a: Seq<char>, b: Seq<char>) -> bool
    decreases a.len(),
{
    if a.len() == 0 {
        b.len() > 0
    } else if b.len() == 0 {
        false
    } else if a[0] != b[0] {
        a[0] < b[0]
    } else {
        lex_lt(a.drop_first(), b.drop_first())
    }
}

/// Each string comes strictly before the ones after it, so none repeats.
pub open spec fn strictly_sorted(s: Seq<Seq<char>>) -> bool {
    forall|i: int, j: int| 0 <= i < j < s.len() ==> lex_lt(#[trigger] s[i], #[trigger] s[j])
}

pub open spec fn texts(v: Seq<String>) -> Seq<Seq<char>> {
    v.map_values(|s: String| s@)
}

/// The keys of the "projects" object of a document, in their order.
pub open spec fn project_keys(doc: Json) -> Seq<Seq<char>> {
    match members(field_of(doc, "projects"@)) {
        Some(m) => m.map_values(|f: Field| f.key@),
        None => Seq::empty(),
    }
}

/// The scope names listed ahead of the project paths.
pub open spec fn global_scopes(native_available: bool, nested_found: bool) -> Seq<Seq<char>> {
    (if native_available {
        seq![GLOBAL_WINDOWS_ID@]
    } else {
        Seq::empty()
    }) + (if nested_found {
        seq![GLOBAL_WSL_ID@]
    } else {
        Seq::empty()
    })
}

pub proof fn lemma_lex_irreflexive(a: Seq<char>)
    ensures
        !lex_lt(a, a),
    decreases a.len(),
{
    if a.len() > 0 {
        lemma_lex_irreflexive(a.drop_first());
    }
}

pub proof fn lemma_lex_total(a: Seq<char>, b: Seq<char>)
    ensures
        a == b || lex_lt(a, b) || lex_lt(b, a),
    decreases a.len(),
{
    if a.len() > 0 && b.len() > 0 && a[0] != b[0] {
        assert(a[0] < b[0] || b[0] < a[0]);
    } else if a.len() > 0 && b.len() > 0 && a[0] == b[0] {
        lemma_lex_total(a.drop_first(), b.drop_first());
        if a.drop_first() == b.drop_first() {
            assert(a == seq![a[0]] + a.drop_first());
            assert(b == seq![b[0]] + b.drop_first());
        }
    } else if a.len() == 0 && b.len() == 0 {
        assert(a == b);
    }
}

pub proof fn lemma_lex_transitive(a: Seq<char>, b: Seq<char>, c: Seq<char>)
    requires
        lex_lt(a, b),
        lex_lt(b, c),
    ensures
        lex_lt(a, c),
    decreases a.len(),
{
    if a.len() > 0 && b.len() > 0 && c.len() > 0 && a[0] == b[0] && b[0] == c[0] {
        lemma_lex_transitive(a.drop_first(), b.drop_first(), c.drop_first());
    }
}

/// A strictly sorted list of scope names holds each name once.
pub proof fn law_sorted_names_are_distinct(s: Seq<Seq<char>>)
    requires
        strictly_sorted(s),
    ensures
        forall|i: int, j: int| 0 <= i < j < s.len() ==> #[trigger] s[i] != #[trigger] s[j],
{
    assert forall|i: int, j: int| 0 <= i < j < s.len() implies #[trigger] s[i] != #[trigger] s[j] by {
        lemma_lex_irreflexive(s[i]);
    }
}

/// `a` comes strictly before `b`.
pub fn lex_less(a: &str, b: &str) -> (r: bool)
    ensures
        r == lex_lt(a@, b@),
{
    let n = a.unicode_len();
    let m = b.unicode_len();
    let mut i: usize = 0;
    assert(a@.subrange(0, n as int) == a@);
    assert(b@.subrange(0, m as int) == b@);
    while i < n && i < m
        invariant
            n == a@.len(),
            m == b@.len(),
            i <= n,
            i <= m,
            lex_lt(a@, b@) == lex_lt(a@.subrange(i as int, n as int), b@.subrange(i as int, m as int)),
        decreases n - i,
    {
        let ca = a.get_char(i);
        let cb = b.get_char(i);
        let ghost sa = a@.subrange(i as int, n as int);
        let ghost sb = b@.subrange(i as int, m as int);
        assert(sa[0] == ca && sb[0] == cb);
        if ca != cb {
            return ca < cb;
        }
        assert(sa.drop_first() == a@.subrange(i + 1, n as int));
        assert(sb.drop_first() == b@.subrange(i + 1, m as int));
        i = i + 1;
    }
    i < m
}

/// Adds `x` to a strictly sorted list, where it is not there yet.
pub fn insert_sorted(list: &mut Vec<String>, x: String)
    requires
        strictly_sorted(texts(old(list)@)),
    ensures
        strictly_sorted(texts(final(list)@)),
        texts(final(list)@).to_set() == texts(old(list)@).to_set().insert(x@),
{
    let ghost before = texts(list@);
    let mut i: usize = 0;
    while i < list.len() && lex_less(list[i].as_str(), x.as_str())
        invariant
            i <= list@.len(),
            texts(list@) == before,
            forall|j: int| 0 <= j < i ==> lex_lt(#[trigger] texts(list@)[j], x@),
        decreases list@.len() - i,
    {
        i = i + 1;
    }
    if i < list.len() && str_eq(list[i].as_str(), x.as_str()) {
        assert(texts(list@).to_set() == texts(list@).to_set().insert(x@)) by {
            assert(texts(list@)[i as int] == x@);
        }
        return;
    }
    proof {
        if i < list@.len() {
            lemma_lex_total(texts(list@)[i as int], x@);
        }
    }
    let ghost xv = x@;
    list.insert(i, x);
    proof {
        let t = texts(list@);
        assert(t == before.insert(i as int, xv));
        assert forall|a: int, b: int| 0 <= a < b < t.len() implies lex_lt(#[trigger] t[a], #[trigger] t[b]) by {
            if b < i {
            } else if a < i && b == i {
            } else if a < i {
                assert(lex_lt(before[a], xv));
                assert(lex_lt(xv, before[i as int]));
                lemma_lex_transitive(before[a], xv, before[i as int]);
                if b - 1 > i {
                    lemma_lex_transitive(before[a], before[i as int], before[b - 1]);
                }
            } else if a == i {
                if b - 1 > i {
                    lemma_lex_transitive(xv, before[i as int], before[b - 1]);
                }
            } else {
            }
        }
        assert(t.to_set() == before.to_set().insert(xv)) by {
            assert forall|s: Seq<char>| t.to_set().contains(s) <==> before.to_set().insert(xv).contains(s) by {
                if t.to_set().contains(s) {
                    let k = choose|k: int| 0 <= k < t.len() && t[k] == s;
                    if k > i {
                        assert(before[k - 1] == s);
                    }
                }
                if before.to_set().contains(s) {
                    let k = choose|k: int| 0 <= k < before.len() && before[k] == s;
                    if k >= i {
                        assert(t[k + 1] == s);
                    } else {
                        assert(t[k] == s);
                    }
                }
                if s == xv {
                    assert(t[i as int] == s);
                }
            }
        }
    }
}

/// The project paths recorded in a document, in their order.
pub fn get_projects_from_config(config: &Json) -> (r: Vec<String>)
    ensures
        texts(r@) == project_keys(*config),
{
    let mut out: Vec<String> = Vec::new();
    if let Json::Object(root) = config {
        if let Some(Json::Object(projects)) = get_field(root, "projects") {
            let mut i: usize = 0;
            while i < projects.len()
                invariant
                    i <= projects@.len(),
                    members(field_of(*config, "projects"@)) == Some(projects@),
                    texts(out@) == projects@.subrange(0, i as int).map_values(|f: Field| f.key@),
                decreases projects@.len() - i,
            {
                let ghost before = out@;
                out.push(projects[i].key.clone());
                assert(texts(out@) == texts(before).push(projects@[i as int].key@));
                assert(projects@.subrange(0, i + 1).map_values(|f: Field| f.key@) == projects@.subrange(
                    0,
                    i as int,
                ).map_values(|f: Field| f.key@).push(projects@[i as int].key@));
                i = i + 1;
            }
            assert(projects@.subrange(0, projects@.len() as int) == projects@);
            return out;
        }
    }
    assert(texts(out@) == Seq::<Seq<char>>::empty());
    out
}

/// The scope names to offer: the native global scope where the native
/// document can be placed, the nested global scope where a nested document
/// was found, then every project path of those documents once, in order.
pub fn claude_list_projects(
    native_available: bool,
    native_projects: &Vec<String>,
    nested_found: bool,
    nested_projects: &Vec<String>,
) -> (r: Vec<String>)
    ensures
        r@.len() >= global_scopes(native_available, nested_found).len(),
        texts(r@).subrange(0, global_scopes(native_available, nested_found).len() as int)
            == global_scopes(native_available, nested_found),
        strictly_sorted(texts(r@).subrange(global_scopes(native_available, nested_found).len() as int, r@.len() as int)),
        texts(r@).subrange(global_scopes(native_available, nested_found).len() as int, r@.len() as int).to_set()
            == texts(native_projects@).to_set() + if nested_found {
            texts(nested_projects@).to_set()
        } else {
            Set::empty()
        },
{
    let mut paths: Vec<String> = Vec::new();
    let mut i: usize = 0;
    while i < native_projects.len()
        invariant
            i <= native_projects@.len(),
            strictly_sorted(texts(paths@)),
            texts(paths@).to_set() == texts(native_projects@.subrange(0, i as int)).to_set(),
        decreases native_projects@.len() - i,
    {
        insert_sorted(&mut paths, native_projects[i].clone());
        proof {
            texts(native_projects@.subrange(0, i as int)).lemma_push_to_set_commute(native_projects@[i as int]@);
        }
        assert(texts(native_projects@.subrange(0, i + 1)) == texts(native_projects@.subrange(0, i as int)).push(native_projects@[i as int]@));
        i = i + 1;
    }
    assert(native_projects@.subrange(0, i as int) == native_projects@);
    if nested_found {
        let mut j: usize = 0;
        while j < nested_projects.len()
            invariant
                j <= nested_projects@.len(),
                strictly_sorted(texts(paths@)),
                texts(paths@).to_set() == texts(native_projects@).to_set() + texts(nested_projects@.subrange(0, j as int)).to_set(),
            decreases nested_projects@.len() - j,
        {
            insert_sorted(&mut paths, nested_projects[j].clone());
            proof {
                texts(nested_projects@.subrange(0, j as int)).lemma_push_to_set_commute(nested_projects@[j as int]@);
            }
            assert(texts(nested_projects@.subrange(0, j + 1)) == texts(nested_projects@.subrange(0, j as int)).push(nested_projects@[j as int]@));
            j = j + 1;
        }
        assert(nested_projects@.subrange(0, j as int) == nested_projects@);
    } else {
        assert(texts(paths@).to_set() == texts(native_projects@).to_set() + Set::<Seq<char>>::empty());
    }
    let mut r: Vec<String> = Vec::new();
    if native_available {
        r.push(String::from_str(GLOBAL_WINDOWS_ID));
    }
    if nested_found {
        r.push(String::from_str(GLOBAL_WSL_ID));
    }
    let ghost head = r@;
    let ghost tail = paths@;
    r.append(&mut paths);
    assert(texts(r@) == texts(head) + texts(tail));
    assert(texts(head) == global_scopes(native_available, nested_found));
    assert(texts(r@).subrange(0, head.len() as int) == texts(head));
    assert(texts(r@).subrange(head.len() as int, r@.len() as int) == texts(tail));
    r
}

} // verus!
