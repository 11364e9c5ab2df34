use vstd::prelude::*;
use crate::plan::{views, DependencyInstall, FileModification};

verus! {

broadcast use vstd::seq_lib::group_to_multiset_ensures;

/// Lexicographic order on character sequences, comparing code points.
pub open spec fn lex_le(a: Seq<char>, b: Seq<char>) -> bool
    decreases a.len(),
{
    if a.len() == 0 {
        true
    } else if b.len() == 0 {
        false
    } else if a[0] != b[0] {
        (a[0] as u32) < (b[0] as u32)
    } else {
        lex_le(a.drop_first(), b.drop_first())
    }
}

/// Whether `a` comes no later than `b` in lexicographic order.
pub fn str_le(a: &str, b: &str) -> (r: bool)
    ensures
        r == lex_le(a@, b@),
{
    let na = a.unicode_len();
    let nb = b.unicode_len();
    let mut i: usize = 0;
    assert(a@.skip(0) =~= a@);
    assert(b@.skip(0) =~= b@);
    while i < na && i < nb
        invariant
            na == a@.len(),
            nb == b@.len(),
            i <= na,
            i <= nb,
            lex_le(a@, b@) == lex_le(a@.skip(i as int), b@.skip(i as int)),
        decreases na - i,
    {
        let ca = a.get_char(i);
        let cb = b.get_char(i);
        assert(a@.skip(i as int)[0] == ca);
        assert(b@.skip(i as int)[0] == cb);
        if ca != cb {
            return (ca as u32) < (cb as u32);
        }
        assert(a@.skip(i as int).drop_first() =~= a@.skip(i + 1));
        assert(b@.skip(i as int).drop_first() =~= b@.skip(i + 1));
        i = i + 1;
    }
    assert(i == na ==> a@.skip(i as int).len() == 0);
    assert(i != na ==> b@.skip(i as int).len() == 0 && a@.skip(i as int).len() > 0);
    i == na
}

/// Inserts `x` into `s` after every element whose name does not come later than its own.
pub open spec fn insert_by_name(s: Seq<(Seq<char>, Seq<char>)>, x: (Seq<char>, Seq<char>)) -> Seq<
    (Seq<char>, Seq<char>),
>
    decreases s.len(),
{
    if s.len() == 0 {
        seq![x]
    } else if lex_le(s.last().0, x.0) {
        s.push(x)
    } else {
        insert_by_name(s.drop_last(), x).push(s.last())
    }
}

/// Stable sort by package name: equal names keep their relative order.
pub open spec fn sort_by_name(s: Seq<(Seq<char>, Seq<char>)>) -> Seq<(Seq<char>, Seq<char>)>
    decreases s.len(),
{
    if s.len() == 0 {
        s
    } else {
        insert_by_name(sort_by_name(s.drop_last()), s.last())
    }
}

/// The order of file modifications: by target path, then by mutation tag.
pub open spec fn modification_le(
    a: (Seq<char>, Seq<char>, Seq<char>),
    b: (Seq<char>, Seq<char>, Seq<char>),
) -> bool {
    if a.0 == b.0 {
        lex_le(a.1, b.1)
    } else {
        lex_le(a.0, b.0)
    }
}

/// Inserts `x` into `s` after every element that does not come later than it.
pub open spec fn insert_modification(
    s: Seq<(Seq<char>, Seq<char>, Seq<char>)>,
    x: (Seq<char>, Seq<char>, Seq<char>),
) -> Seq<(Seq<char>, Seq<char>, Seq<char>)>
    decreases s.len(),
{
    if s.len() == 0 {
        seq![x]
    } else if modification_le(s.last(), x) {
        s.push(x)
    } else {
        insert_modification(s.drop_last(), x).push(s.last())
    }
}

/// Stable sort by (path, mutation tag).
pub open spec fn sort_modifications(s: Seq<(Seq<char>, Seq<char>, Seq<char>)>) -> Seq<
    (Seq<char>, Seq<char>, Seq<char>),
>
    decreases s.len(),
{
    if s.len() == 0 {
        s
    } else {
        insert_modification(sort_modifications(s.drop_last()), s.last())
    }
}


/// The sequence is ordered by name.
pub open spec fn sorted_by_name(s: Seq<(Seq<char>, Seq<char>)>) -> bool {
    forall|i: int, j: int| 0 <= i < j < s.len() ==> lex_le(s[i].0, s[j].0)
}

proof fn lemma_lex_total(a: Seq<char>, b: Seq<char>)
    ensures
        lex_le(a, b) || lex_le(b, a),
    decreases a.len(),
{
    if a.len() > 0 && b.len() > 0 {
        if a[0] == b[0] {
            lemma_lex_total(a.drop_first(), b.drop_first());
        } else {
            vstd::utf8::char_u32_cast(a[0], a[0] as u32);
            vstd::utf8::char_u32_cast(b[0], b[0] as u32);
        }
    }
}

proof fn lemma_lex_transitive(a: Seq<char>, b: Seq<char>, c: Seq<char>)
    requires
        lex_le(a, b),
        lex_le(b, c),
    ensures
        lex_le(a, c),
    decreases a.len(),
{
    if a.len() > 0 && b.len() > 0 && c.len() > 0 && a[0] == b[0] && b[0] == c[0] {
        lemma_lex_transitive(a.drop_first(), b.drop_first(), c.drop_first());
    }
}

proof fn lemma_insert_by_name_multiset(s: Seq<(Seq<char>, Seq<char>)>, x: (Seq<char>, Seq<char>))
    ensures
        insert_by_name(s, x).to_multiset() =~= s.to_multiset().insert(x),
    decreases s.len(),
{
    if s.len() == 0 {
        assert(seq![x] =~= s.push(x));
    } else if !lex_le(s.last().0, x.0) {
        lemma_insert_by_name_multiset(s.drop_last(), x);
        assert(s =~= s.drop_last().push(s.last()));
    }
}

proof fn lemma_sort_by_name_multiset(s: Seq<(Seq<char>, Seq<char>)>)
    ensures
        sort_by_name(s).to_multiset() =~= s.to_multiset(),
    decreases s.len(),
{
    if s.len() > 0 {
        lemma_sort_by_name_multiset(s.drop_last());
        lemma_insert_by_name_multiset(sort_by_name(s.drop_last()), s.last());
        assert(s =~= s.drop_last().push(s.last()));
    }
}

proof fn lemma_insert_by_name_sorted(s: Seq<(Seq<char>, Seq<char>)>, x: (Seq<char>, Seq<char>))
    requires
        sorted_by_name(s),
    ensures
        sorted_by_name(insert_by_name(s, x)),
    decreases s.len(),
{
    if s.len() > 0 {
        let last = s.last();
        if lex_le(last.0, x.0) {
            assert forall|i: int| 0 <= i < s.len() implies lex_le(s[i].0, x.0) by {
                if i < s.len() - 1 {
                    lemma_lex_transitive(s[i].0, last.0, x.0);
                }
            }
        } else {
            let init = s.drop_last();
            lemma_insert_by_name_sorted(init, x);
            lemma_insert_by_name_multiset(init, x);
            lemma_lex_total(last.0, x.0);
            let t = insert_by_name(init, x);
            assert forall|i: int| 0 <= i < t.len() implies lex_le(t[i].0, last.0) by {
                assert(t.contains(t[i]));
                assert(t.to_multiset().count(t[i]) > 0);
                if t[i] != x {
                    assert(init.to_multiset().count(t[i]) > 0);
                    assert(init.contains(t[i]));
                    let k = choose|k: int| 0 <= k < init.len() && init[k] == t[i];
                    assert(s[k] == init[k]);
                }
            }
        }
    }
}

/// The stable sort by name orders its result by name and keeps every element, as often
/// as it occurs.
pub proof fn lemma_sort_by_name(s: Seq<(Seq<char>, Seq<char>)>)
    ensures
        sorted_by_name(sort_by_name(s)),
        sort_by_name(s).to_multiset() =~= s.to_multiset(),
    decreases s.len(),
{
    if s.len() > 0 {
        lemma_sort_by_name(s.drop_last());
        lemma_insert_by_name_multiset(sort_by_name(s.drop_last()), s.last());
        lemma_insert_by_name_sorted(sort_by_name(s.drop_last()), s.last());
        assert(s =~= s.drop_last().push(s.last()));
    }
}

/// The sequence is ordered by path, then by mutation tag.
pub open spec fn sorted_modifications(s: Seq<(Seq<char>, Seq<char>, Seq<char>)>) -> bool {
    forall|i: int, j: int| 0 <= i < j < s.len() ==> modification_le(s[i], s[j])
}

proof fn lemma_lex_antisymmetric(a: Seq<char>, b: Seq<char>)
    requires
        lex_le(a, b),
        lex_le(b, a),
    ensures
        a == b,
    decreases a.len(),
{
    if a.len() > 0 && b.len() > 0 {
        if a[0] == b[0] {
            lemma_lex_antisymmetric(a.drop_first(), b.drop_first());
            assert(a =~= seq![a[0]] + a.drop_first());
            assert(b =~= seq![b[0]] + b.drop_first());
        }
    } else {
        assert(a.len() == 0 && b.len() == 0);
        assert(a =~= b);
    }
}

proof fn lemma_modification_le_total(
    a: (Seq<char>, Seq<char>, Seq<char>),
    b: (Seq<char>, Seq<char>, Seq<char>),
)
    ensures
        modification_le(a, b) || modification_le(b, a),
{
    lemma_lex_total(a.0, b.0);
    lemma_lex_total(a.1, b.1);
}

proof fn lemma_modification_le_transitive(
    a: (Seq<char>, Seq<char>, Seq<char>),
    b: (Seq<char>, Seq<char>, Seq<char>),
    c: (Seq<char>, Seq<char>, Seq<char>),
)
    requires
        modification_le(a, b),
        modification_le(b, c),
    ensures
        modification_le(a, c),
{
    if a.0 == b.0 && b.0 == c.0 {
        lemma_lex_transitive(a.1, b.1, c.1);
    } else if a.0 != b.0 && b.0 != c.0 {
        lemma_lex_transitive(a.0, b.0, c.0);
        if a.0 == c.0 {
            lemma_lex_antisymmetric(a.0, b.0);
        }
    }
}

proof fn lemma_insert_modification_multiset(
    s: Seq<(Seq<char>, Seq<char>, Seq<char>)>,
    x: (Seq<char>, Seq<char>, Seq<char>),
)
    ensures
        insert_modification(s, x).to_multiset() =~= s.to_multiset().insert(x),
    decreases s.len(),
{
    if s.len() == 0 {
        assert(seq![x] =~= s.push(x));
    } else if !modification_le(s.last(), x) {
        lemma_insert_modification_multiset(s.drop_last(), x);
        assert(s =~= s.drop_last().push(s.last()));
    }
}

proof fn lemma_insert_modification_sorted(
    s: Seq<(Seq<char>, Seq<char>, Seq<char>)>,
    x: (Seq<char>, Seq<char>, Seq<char>),
)
    requires
        sorted_modifications(s),
    ensures
        sorted_modifications(insert_modification(s, x)),
    decreases s.len(),
{
    if s.len() > 0 {
        let last = s.last();
        if modification_le(last, x) {
            assert forall|i: int| 0 <= i < s.len() implies modification_le(s[i], x) by {
                if i < s.len() - 1 {
                    lemma_modification_le_transitive(s[i], last, x);
                }
            }
        } else {
            let init = s.drop_last();
            lemma_insert_modification_sorted(init, x);
            lemma_insert_modification_multiset(init, x);
            lemma_modification_le_total(last, x);
            let t = insert_modification(init, x);
            assert forall|i: int| 0 <= i < t.len() implies modification_le(t[i], last) by {
                assert(t.contains(t[i]));
                assert(t.to_multiset().count(t[i]) > 0);
                if t[i] != x {
                    assert(init.to_multiset().count(t[i]) > 0);
                    assert(init.contains(t[i]));
                    let k = choose|k: int| 0 <= k < init.len() && init[k] == t[i];
                    assert(s[k] == init[k]);
                }
            }
        }
    }
}

/// The stable sort of file modifications orders its result by path, then by mutation tag,
/// and keeps every element, as often as it occurs.
pub proof fn lemma_sort_modifications(s: Seq<(Seq<char>, Seq<char>, Seq<char>)>)
    ensures
        sorted_modifications(sort_modifications(s)),
        sort_modifications(s).to_multiset() =~= s.to_multiset(),
    decreases s.len(),
{
    if s.len() > 0 {
        lemma_sort_modifications(s.drop_last());
        lemma_insert_modification_multiset(sort_modifications(s.drop_last()), s.last());
        lemma_insert_modification_sorted(sort_modifications(s.drop_last()), s.last());
        assert(s =~= s.drop_last().push(s.last()));
    }
}

fn insert_install(out: &mut Vec<DependencyInstall>, x: DependencyInstall)
    ensures
        views(final(out)@) == insert_by_name(views(old(out)@), x@),
{
    let ghost s = views(out@);
    let mut j: usize = out.len();
    assert(s.take(j as int) =~= s);
    assert(s.skip(j as int) =~= Seq::<(Seq<char>, Seq<char>)>::empty());
    while j > 0
        invariant
            j <= out@.len(),
            out@ == old(out)@,
            s == views(out@),
            insert_by_name(s, x@) == insert_by_name(s.take(j as int), x@) + s.skip(j as int),
        ensures
            j <= out@.len(),
            out@ == old(out)@,
            insert_by_name(s, x@) == insert_by_name(s.take(j as int), x@) + s.skip(j as int),
            j == 0 || lex_le(s[j - 1].0, x@.0),
        decreases j,
    {
        if str_le(out[j - 1].name.as_str(), x.name.as_str()) {
            break;
        }
        assert(s.take(j as int).drop_last() =~= s.take(j - 1));
        assert(seq![s[j - 1]] + s.skip(j as int) =~= s.skip(j - 1));
        assert(insert_by_name(s.take(j - 1), x@).push(s[j - 1]) + s.skip(j as int)
            =~= insert_by_name(s.take(j - 1), x@) + s.skip(j - 1));
        j = j - 1;
    }
    out.insert(j, x);
    proof {
        assert(s.take(0) =~= Seq::<(Seq<char>, Seq<char>)>::empty());
        assert(views(out@) =~= s.take(j as int).push(x@) + s.skip(j as int));
    }
}

/// The installs sorted by package name, stably.
pub fn sort_installs(v: &Vec<DependencyInstall>) -> (r: Vec<DependencyInstall>)
    ensures
        views(r@) == sort_by_name(views(v@)),
{
    let ghost all = views(v@);
    let mut out: Vec<DependencyInstall> = Vec::new();
    let mut i: usize = 0;
    while i < v.len()
        invariant
            i <= v@.len(),
            all == views(v@),
            views(out@) == sort_by_name(all.take(i as int)),
        decreases v@.len() - i,
    {
        let x = DependencyInstall { name: v[i].name.clone(), version: v[i].version.clone() };
        assert(all.take(i + 1).drop_last() =~= all.take(i as int));
        insert_install(&mut out, x);
        i = i + 1;
    }
    assert(all.take(i as int) =~= all);
    out
}

fn insert_file_modification(out: &mut Vec<FileModification>, x: FileModification)
    ensures
        views(final(out)@) == insert_modification(views(old(out)@), x@),
{
    let ghost s = views(out@);
    let mut j: usize = out.len();
    assert(s.take(j as int) =~= s);
    assert(s.skip(j as int) =~= Seq::<(Seq<char>, Seq<char>, Seq<char>)>::empty());
    while j > 0
        invariant
            j <= out@.len(),
            out@ == old(out)@,
            s == views(out@),
            insert_modification(s, x@) == insert_modification(s.take(j as int), x@) + s.skip(
                j as int,
            ),
        ensures
            j <= out@.len(),
            out@ == old(out)@,
            insert_modification(s, x@) == insert_modification(s.take(j as int), x@) + s.skip(
                j as int,
            ),
            j == 0 || modification_le(s[j - 1], x@),
        decreases j,
    {
        let prev = &out[j - 1];
        let le = if prev.path == x.path {
            str_le(prev.mutation_type.as_str(), x.mutation_type.as_str())
        } else {
            str_le(prev.path.as_str(), x.path.as_str())
        };
        if le {
            break;
        }
        assert(s.take(j as int).drop_last() =~= s.take(j - 1));
        assert(seq![s[j - 1]] + s.skip(j as int) =~= s.skip(j - 1));
        assert(insert_modification(s.take(j - 1), x@).push(s[j - 1]) + s.skip(j as int)
            =~= insert_modification(s.take(j - 1), x@) + s.skip(j - 1));
        j = j - 1;
    }
    out.insert(j, x);
    proof {
        assert(s.take(0) =~= Seq::<(Seq<char>, Seq<char>, Seq<char>)>::empty());
        assert(views(out@) =~= s.take(j as int).push(x@) + s.skip(j as int));
    }
}

/// The file modifications sorted by (path, mutation tag), stably.
pub fn sort_file_modifications(v: &Vec<FileModification>) -> (r: Vec<FileModification>)
    ensures
        views(r@) == sort_modifications(views(v@)),
{
    let ghost all = views(v@);
    let mut out: Vec<FileModification> = Vec::new();
    let mut i: usize = 0;
    while i < v.len()
        invariant
            i <= v@.len(),
            all == views(v@),
            views(out@) == sort_modifications(all.take(i as int)),
        decreases v@.len() - i,
    {
        let x = FileModification {
            path: v[i].path.clone(),
            mutation_type: v[i].mutation_type.clone(),
            content: v[i].content.clone(),
        };
        assert(all.take(i + 1).drop_last() =~= all.take(i as int));
        insert_file_modification(&mut out, x);
        i = i + 1;
    }
    assert(all.take(i as int) =~= all);
    out
}

} // verus!
